//! Source positions and the wrappers that attach them to values.

use vstd::prelude::*;

verus! {

/// A half-open range of byte offsets in a source text.
#[derive(Clone, Copy, Debug, PartialEq, Eq, Hash)]
pub struct Span {
    pub start: u32,
    pub end: u32,
}

impl Span {
    pub fn new(start: u32, end: u32) -> (span: Span)
        ensures
            span == (Span { start, end }),
    {
        Span { start, end }
    }

    /// The span given to text that the compiler itself made up.
    pub open spec fn spec_todo_generated() -> Span {
        Span { start: 0, end: 0 }
    }

    #[verifier::when_used_as_spec(spec_todo_generated)]
    pub fn todo_generated() -> (span: Span)
        ensures
            span == Span::spec_todo_generated(),
    {
        Span { start: 0, end: 0 }
    }
}

/// Where a located value came from: a span inside a numbered source text,
/// or nowhere, for what the compiler itself made up.
#[derive(Clone, Copy, Debug, PartialEq, Eq, Hash)]
pub enum Location {
    Embedded { text_source: u32, span: Span },
    Generated,
}

impl Location {
    pub fn new(text_source: u32, span: Span) -> (location: Location)
        ensures
            location == (Location::Embedded { text_source, span }),
    {
        Location::Embedded { text_source, span }
    }

    pub fn generated() -> (location: Location)
        ensures
            location == Location::Generated,
    {
        Location::Generated
    }
}

/// A value together with the location it was read from.
#[derive(Clone, Copy, Debug, PartialEq, Eq, Hash)]
pub struct WithLocation<T> {
    pub location: Location,
    pub item: T,
}

impl<T> WithLocation<T> {
    pub fn new(item: T, location: Location) -> (located: WithLocation<T>)
        ensures
            located == (WithLocation { location, item }),
    {
        WithLocation { location, item }
    }
}

impl<T: View> View for WithLocation<T> {
    type V = WithLocation<T::V>;

    open spec fn view(&self) -> WithLocation<T::V> {
        WithLocation { location: self.location, item: self.item@ }
    }
}

/// A value together with the span it was read from.
#[derive(Clone, Copy, Debug, PartialEq, Eq, Hash)]
pub struct WithSpan<T> {
    pub item: T,
    pub span: Span,
}

impl<T> WithSpan<T> {
    pub fn new(item: T, span: Span) -> (spanned: WithSpan<T>)
        ensures
            spanned == (WithSpan { item, span }),
    {
        WithSpan { item, span }
    }
}

impl<T: View> View for WithSpan<T> {
    type V = WithSpan<T::V>;

    open spec fn view(&self) -> WithSpan<T::V> {
        WithSpan { item: self.item@, span: self.span }
    }
}

} // verus!
