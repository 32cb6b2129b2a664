//! Handles into the registry's flat collections, and the selections that
//! a computed field is made of.

use vstd::prelude::*;
use crate::common::WithLocation;

verus! {

/// Handle of a scalar: its index in the registry's list of scalars.
#[derive(Clone, Copy, Debug, PartialEq, Eq, Hash)]
pub struct ScalarId(pub usize);

/// Handle of an object: its index in the registry's list of objects.
#[derive(Clone, Copy, Debug, PartialEq, Eq, Hash)]
pub struct ObjectId(pub usize);

/// Handle of a server field: its index in the registry's list of fields.
#[derive(Clone, Copy, Debug, PartialEq, Eq, Hash)]
pub struct ServerFieldId(pub usize);

/// Handle of the server field that an object uses as its identifier.
#[derive(Clone, Copy, Debug, PartialEq, Eq, Hash)]
pub struct ServerIdFieldId(pub usize);

/// Handle of a computed field: its index in the registry's list of resolvers.
#[derive(Clone, Copy, Debug, PartialEq, Eq, Hash)]
pub struct ResolverFieldId(pub usize);

/// What a type name resolves to.
#[derive(Clone, Copy, Debug, PartialEq, Eq, Hash)]
pub enum DefinedTypeId {
    Scalar(ScalarId),
    Object(ObjectId),
}

/// What a field name of an object resolves to: a field that the server
/// provides, or a field that a resolver computes.
#[derive(Clone, Copy, Debug, PartialEq, Eq, Hash)]
pub enum DefinedField {
    ServerField(ServerFieldId),
    ResolverField(ResolverFieldId),
}

/// The selection of one scalar field.
#[derive(Clone, Debug, PartialEq, Eq)]
pub struct ScalarFieldSelection {
    pub name: WithLocation<String>,
    pub reader_alias: Option<WithLocation<String>>,
    pub normalization_alias: Option<WithLocation<String>>,
}

/// What a [`ScalarFieldSelection`] stands for in contracts.
pub struct ScalarFieldSelectionView {
    pub name: WithLocation<Seq<char>>,
    pub reader_alias: Option<WithLocation<Seq<char>>>,
    pub normalization_alias: Option<WithLocation<Seq<char>>>,
}

/// The view of an optional located name.
pub open spec fn located_name_view(name: Option<WithLocation<String>>) -> Option<
    WithLocation<Seq<char>>,
> {
    match name {
        Some(n) => Some(n@),
        None => None,
    }
}

impl View for ScalarFieldSelection {
    type V = ScalarFieldSelectionView;

    open spec fn view(&self) -> ScalarFieldSelectionView {
        ScalarFieldSelectionView {
            name: self.name@,
            reader_alias: located_name_view(self.reader_alias),
            normalization_alias: located_name_view(self.normalization_alias),
        }
    }
}

/// The type of a field once every name in it is resolved.
#[derive(Debug, PartialEq, Eq)]
pub enum TypeAnnotation<T> {
    /// One type.
    Scalar(T),
    /// One of several types, or null.
    Union(UnionTypeAnnotation<T>),
    /// A list.
    Plural(Box<TypeAnnotation<T>>),
}

/// The types that a value may have, in a fixed order, and whether it may
/// be null.
#[derive(Debug, PartialEq, Eq)]
pub struct UnionTypeAnnotation<T> {
    pub variants: Vec<UnionVariant<T>>,
    pub nullable: bool,
}

/// One of the types that a value may have.
#[derive(Debug, PartialEq, Eq)]
pub enum UnionVariant<T> {
    Scalar(T),
    Plural(TypeAnnotation<T>),
}

/// What a type comes down to: itself, the elements of a list, or the
/// first of the types of a union. A union of no types comes down to
/// nothing.
pub open spec fn innermost_type<T>(t: TypeAnnotation<T>) -> Option<T>
    decreases t,
{
    match t {
        TypeAnnotation::Scalar(s) => Some(s),
        TypeAnnotation::Plural(p) => innermost_type(*p),
        TypeAnnotation::Union(u) => if u.variants@.len() > 0 {
            match u.variants@[0] {
                UnionVariant::Scalar(s) => Some(s),
                UnionVariant::Plural(p) => innermost_type(p),
            }
        } else {
            None
        },
    }
}

impl<T> TypeAnnotation<T> {
    /// Whether a value of the type may be null.
    pub open spec fn spec_is_nullable(&self) -> bool {
        match *self {
            TypeAnnotation::Union(u) => u.nullable,
            _ => false,
        }
    }

    /// What the type comes down to.
    pub fn inner(&self) -> (found: Option<&T>)
        ensures
            found == match innermost_type(*self) {
                Some(t) => Some(&t),
                None => None,
            },
        decreases self,
    {
        match self {
            TypeAnnotation::Scalar(s) => Some(s),
            TypeAnnotation::Plural(p) => p.inner(),
            TypeAnnotation::Union(u) => if u.variants.len() > 0 {
                match &u.variants[0] {
                    UnionVariant::Scalar(s) => Some(s),
                    UnionVariant::Plural(p) => p.inner(),
                }
            } else {
                None
            },
        }
    }
}

/// The view of every element of a sequence, in order.
pub open spec fn seq_view<T: View>(s: Seq<T>) -> Seq<T::V> {
    Seq::new(s.len(), |i: int| s[i]@)
}

/// Viewing a sequence with one more element views that element last.
pub proof fn lemma_seq_view_push<T: View>(s: Seq<T>, x: T)
    ensures
        seq_view(s.push(x)) == seq_view(s).push(x@),
{
    assert(seq_view(s.push(x)) =~= seq_view(s).push(x@));
}

/// Viewing a concatenation concatenates the views.
pub proof fn lemma_seq_view_add<T: View>(s: Seq<T>, t: Seq<T>)
    ensures
        seq_view(s + t) == seq_view(s) + seq_view(t),
{
    assert(seq_view(s + t) =~= seq_view(s) + seq_view(t));
}

/// The view of an optional string.
pub open spec fn opt_view(s: Option<String>) -> Option<Seq<char>> {
    match s {
        Some(t) => Some(t@),
        None => None,
    }
}

/// The view of what a call returned, whichever way it ended.
pub open spec fn result_view<T: View, E: View>(r: Result<T, E>) -> Result<T::V, E::V> {
    match r {
        Ok(value) => Ok(value@),
        Err(error) => Err(error@),
    }
}

/// What a call returned, with the view of the error if it ended in one.
pub open spec fn error_view<T, E: View>(r: Result<T, E>) -> Result<T, E::V> {
    match r {
        Ok(value) => Ok(value),
        Err(error) => Err(error@),
    }
}

} // verus!
