//! A cursor over the tokens of one source text, with one token of
//! lookahead.

use vstd::prelude::*;
use vstd::string::StringSliceAdditionalSpecFns;
use vstd::utf8::{
    encode_utf8_valid_utf8, is_char_boundary, is_char_boundary_iff_not_is_continuation_byte,
    is_char_boundary_start_end_of_seq, valid_utf8_split,
};
use crate::common::{Span, WithSpan};

verus! {

/// The kinds of token.
#[derive(Clone, Copy, Debug, PartialEq, Eq, Structural, Hash)]
pub enum IsographLangTokenKind {
    /// Text that is no token.
    Error,
    /// The end of the source.
    EndOfFile,
    At,
    CloseBrace,
    CloseBracket,
    CloseParen,
    Colon,
    Comma,
    Dollar,
    Equals,
    Exclamation,
    FloatLiteral,
    Identifier,
    IntegerLiteral,
    OpenBrace,
    OpenBracket,
    OpenParen,
    Period,
    StringLiteral,
}

/// Why the next token was not taken.
#[derive(Debug, PartialEq, Eq)]
pub enum LowLevelParseError {
    /// The next token is of another kind than was asked for.
    ParseTokenKindError { expected_kind: IsographLangTokenKind, found_kind: IsographLangTokenKind },
    /// The next token is an identifier, and not the one that was asked
    /// for.
    ParseMatchingIdentifierError { expected_identifier: &'static str, found_text: String },
}

impl IsographLangTokenKind {
    /// What the kind is called in messages.
    pub open spec fn spec_description(self) -> Seq<char> {
        match self {
            IsographLangTokenKind::Error => "error"@,
            IsographLangTokenKind::EndOfFile => "end of file"@,
            IsographLangTokenKind::At => "at ('@')"@,
            IsographLangTokenKind::CloseBrace => "closing brace ('}')"@,
            IsographLangTokenKind::CloseBracket => "closing bracket (']')"@,
            IsographLangTokenKind::CloseParen => "closing paren (')')"@,
            IsographLangTokenKind::Colon => "colon (':')"@,
            IsographLangTokenKind::Comma => "comma (',')"@,
            IsographLangTokenKind::Dollar => "dollar ('$')"@,
            IsographLangTokenKind::Equals => "equals ('=')"@,
            IsographLangTokenKind::Exclamation => "exclamation mark ('!')"@,
            IsographLangTokenKind::FloatLiteral => "floating point value (e.g. '3.14')"@,
            IsographLangTokenKind::Identifier => "non-variable identifier (e.g. 'x' or 'Foo')"@,
            IsographLangTokenKind::IntegerLiteral => "integer value (e.g. '0' or '42')"@,
            IsographLangTokenKind::OpenBrace => "open brace ('{')"@,
            IsographLangTokenKind::OpenBracket => "open bracket ('[')"@,
            IsographLangTokenKind::OpenParen => "open parenthesis ('(')"@,
            IsographLangTokenKind::Period => "period ('.')"@,
            IsographLangTokenKind::StringLiteral => "string literal (e.g. '\"...\"')"@,
        }
    }

    /// What the kind is called in messages.
    pub fn description(&self) -> (text: &'static str)
        ensures
            text@ == self.spec_description(),
    {
        match self {
            IsographLangTokenKind::Error => "error",
            IsographLangTokenKind::EndOfFile => "end of file",
            IsographLangTokenKind::At => "at ('@')",
            IsographLangTokenKind::CloseBrace => "closing brace ('}')",
            IsographLangTokenKind::CloseBracket => "closing bracket (']')",
            IsographLangTokenKind::CloseParen => "closing paren (')')",
            IsographLangTokenKind::Colon => "colon (':')",
            IsographLangTokenKind::Comma => "comma (',')",
            IsographLangTokenKind::Dollar => "dollar ('$')",
            IsographLangTokenKind::Equals => "equals ('=')",
            IsographLangTokenKind::Exclamation => "exclamation mark ('!')",
            IsographLangTokenKind::FloatLiteral => "floating point value (e.g. '3.14')",
            IsographLangTokenKind::Identifier => "non-variable identifier (e.g. 'x' or 'Foo')",
            IsographLangTokenKind::IntegerLiteral => "integer value (e.g. '0' or '42')",
            IsographLangTokenKind::OpenBrace => "open brace ('{')",
            IsographLangTokenKind::OpenBracket => "open bracket ('[')",
            IsographLangTokenKind::OpenParen => "open parenthesis ('(')",
            IsographLangTokenKind::Period => "period ('.')",
            IsographLangTokenKind::StringLiteral => "string literal (e.g. '\"...\"')",
        }
    }
}

impl LowLevelParseError {
    /// What the error says to the user.
    pub open spec fn spec_message(self) -> Seq<char> {
        match self {
            LowLevelParseError::ParseTokenKindError { expected_kind, found_kind } => {
                "Expected "@ + expected_kind.spec_description() + ", found "@
                    + found_kind.spec_description() + "."@
            },
            LowLevelParseError::ParseMatchingIdentifierError {
                expected_identifier,
                found_text,
            } => "Expected "@ + expected_identifier@ + ", found \""@ + found_text@ + "\""@,
        }
    }

    /// What the error says to the user.
    pub fn message(&self) -> (text: String)
        ensures
            text@ == self.spec_message(),
    {
        match self {
            LowLevelParseError::ParseTokenKindError { expected_kind, found_kind } => {
                let mut text = String::from_str("Expected ");
                text.append(expected_kind.description());
                text.append(", found ");
                text.append(found_kind.description());
                text.append(".");
                text
            },
            LowLevelParseError::ParseMatchingIdentifierError {
                expected_identifier,
                found_text,
            } => {
                let mut text = String::from_str("Expected ");
                text.append(expected_identifier);
                text.append(", found \"");
                text.append(found_text.as_str());
                text.append("\"");
                text
            },
        }
    }
}

/// The tokens of a source text, read one at a time. The token that comes
/// next can be looked at before it is taken; after the last token, the
/// token that comes next is the end of the source, for ever.
pub struct PeekableLexer<'source> {
    /// The token that comes next.
    pub current: WithSpan<IsographLangTokenKind>,
    /// The tokens of the source in order, with spans that count from the
    /// start of the source.
    pub tokens: Vec<WithSpan<IsographLangTokenKind>>,
    /// How many tokens come before `current`.
    pub position: usize,
    pub source: &'source str,
    /// The byte offset of the end of the token before `current`.
    pub end_index: u32,
    /// What is added to every span that is handed out.
    pub offset: u32,
}

/// Whether a span, counted from the start of a text with these bytes, lies
/// in the text and cuts no character.
pub open spec fn span_fits(bytes: Seq<u8>, span: Span) -> bool {
    &&& span.start <= span.end <= bytes.len()
    &&& is_char_boundary(bytes, span.start as int)
    &&& is_char_boundary(bytes, span.end as int)
}

/// What the tokenizer may hand to a lexer for a text with these bytes:
/// no text that is no token, and only spans that fit.
pub open spec fn tokens_fit(tokens: Seq<WithSpan<IsographLangTokenKind>>, bytes: Seq<u8>) -> bool {
    forall|i: int|
        0 <= i < tokens.len() ==> {
            let token = #[trigger] tokens[i];
            token.item != IsographLangTokenKind::Error && span_fits(bytes, token.span)
        }
}

impl<'source> PeekableLexer<'source> {
    /// The bytes of the source.
    pub open spec fn bytes(self) -> Seq<u8> {
        self.source.spec_bytes()
    }

    /// The token at the end of the source.
    pub open spec fn end_of_file(self) -> WithSpan<IsographLangTokenKind> {
        WithSpan {
            item: IsographLangTokenKind::EndOfFile,
            span: Span {
                start: (self.bytes().len() + self.offset) as u32,
                end: (self.bytes().len() + self.offset) as u32,
            },
        }
    }

    /// The token that comes after `p` others.
    pub open spec fn token_at(self, p: int) -> WithSpan<IsographLangTokenKind> {
        if 0 <= p < self.tokens@.len() {
            WithSpan {
                item: self.tokens@[p].item,
                span: Span {
                    start: (self.tokens@[p].span.start + self.offset) as u32,
                    end: (self.tokens@[p].span.end + self.offset) as u32,
                },
            }
        } else {
            self.end_of_file()
        }
    }

    /// What holds of a lexer at all times.
    pub open spec fn wf(self) -> bool {
        &&& self.bytes().len() + self.offset <= u32::MAX
        &&& tokens_fit(self.tokens@, self.bytes())
        &&& self.position <= self.tokens@.len()
        &&& self.current == self.token_at(self.position as int)
    }

    /// The lexer after one token was taken.
    pub open spec fn advanced(self) -> Self {
        let position = if self.position < self.tokens@.len() {
            (self.position + 1) as usize
        } else {
            self.position
        };
        PeekableLexer {
            current: self.token_at(position as int),
            position,
            end_index: self.current.span.end,
            ..self
        }
    }

    /// Whether `span` is one that this lexer hands out: a span that fits
    /// the source, moved by the offset.
    pub open spec fn owns_span(self, span: Span) -> bool {
        &&& self.offset <= span.start <= span.end
        &&& span_fits(
            self.bytes(),
            Span {
                start: (span.start - self.offset) as u32,
                end: (span.end - self.offset) as u32,
            },
        )
    }

    /// The span of every token that a lexer hands out is its own.
    pub proof fn lemma_owns_current(self)
        requires
            self.wf(),
        ensures
            self.owns_span(self.current.span),
    {
        if self.position < self.tokens@.len() {
            assert(span_fits(self.bytes(), self.tokens@[self.position as int].span));
        } else {
            encode_utf8_valid_utf8(self.source@);
            is_char_boundary_start_end_of_seq(self.bytes());
        }
    }

    /// A lexer at the first of `tokens`, which are the tokens of `source`
    /// in order.
    pub fn new(source: &'source str, tokens: Vec<WithSpan<IsographLangTokenKind>>) -> (lexer: Self)
        requires
            source.spec_bytes().len() <= u32::MAX,
            tokens_fit(tokens@, source.spec_bytes()),
        ensures
            lexer.wf(),
            lexer.source == source,
            lexer.tokens == tokens,
            lexer.offset == 0,
            lexer.position == 0,
            lexer.current == lexer.token_at(0),
    {
        let length = source.len() as u32;
        let current = if tokens.len() > 0 {
            tokens[0]
        } else {
            WithSpan::new(IsographLangTokenKind::EndOfFile, Span::new(length, length))
        };
        PeekableLexer { current, tokens, position: 0, source, end_index: 0, offset: 0 }
    }

    /// A lexer at the first of `tokens`, if they are tokens that a lexer
    /// for `source` can hold: nothing where the source is too long for its
    /// offsets to be spans, where one of the tokens is text that is no
    /// token, or where a span does not fit the source.
    pub fn try_new(source: &'source str, tokens: Vec<WithSpan<IsographLangTokenKind>>) -> (lexer:
        Option<Self>)
        ensures
            lexer is Some <==> source.spec_bytes().len() <= u32::MAX && tokens_fit(
                tokens@,
                source.spec_bytes(),
            ),
            lexer matches Some(l) ==> {
                &&& l.wf()
                &&& l.source == source
                &&& l.tokens == tokens
                &&& l.offset == 0
                &&& l.position == 0
                &&& l.current == l.token_at(0)
            },
    {
        if source.as_bytes().len() > 0xffff_ffff {
            return None;
        }
        let mut i: usize = 0;
        while i < tokens.len()
            invariant
                0 <= i <= tokens@.len(),
                source.spec_bytes().len() <= u32::MAX,
                tokens_fit(tokens@.take(i as int), source.spec_bytes()),
            decreases tokens@.len() - i,
        {
            let token = tokens[i];
            let fits = token.item != IsographLangTokenKind::Error && token.span.start
                <= token.span.end && token.span.end as usize <= source.len()
                && source.is_char_boundary(token.span.start as usize) && source.is_char_boundary(
                token.span.end as usize,
            );
            if !fits {
                return None;
            }
            i += 1;
            assert forall|k: int| 0 <= k < i implies {
                let t = #[trigger] tokens@.take(i as int)[k];
                t.item != IsographLangTokenKind::Error && span_fits(source.spec_bytes(), t.span)
            } by {
                if k < i - 1 {
                    assert(tokens@.take(i - 1)[k] == tokens@[k]);
                }
            }
        }
        assert(tokens@.take(tokens@.len() as int) =~= tokens@);
        Some(PeekableLexer::new(source, tokens))
    }

    /// Takes the token that comes next.
    pub fn parse_token(&mut self) -> (token: WithSpan<IsographLangTokenKind>)
        requires
            old(self).wf(),
        ensures
            token == old(self).current,
            *final(self) == old(self).advanced(),
            final(self).wf(),
    {
        let token = self.current;
        self.end_index = self.current.span.end;
        if self.position < self.tokens.len() {
            self.position = self.position + 1;
        }
        self.current = if self.position < self.tokens.len() {
            let raw = self.tokens[self.position];
            assert(span_fits(self.bytes(), raw.span));
            WithSpan::new(
                raw.item,
                Span::new(raw.span.start + self.offset, raw.span.end + self.offset),
            )
        } else {
            let end = self.source.len() as u32 + self.offset;
            WithSpan::new(IsographLangTokenKind::EndOfFile, Span::new(end, end))
        };
        token
    }

    /// The token that comes next.
    pub fn peek(&self) -> (token: WithSpan<IsographLangTokenKind>)
        ensures
            token == self.current,
    {
        self.current
    }

    /// The span of the token that comes next.
    pub fn lexer_span(&self) -> (span: Span)
        ensures
            span == self.current.span,
    {
        self.current.span
    }

    /// Takes the token that comes next, and returns the span from its
    /// start to the end of the source; nothing at the end of the source.
    pub fn remaining_token_span(&mut self) -> (span: Option<Span>)
        requires
            old(self).wf(),
        ensures
            final(self).wf(),
            old(self).current.item == IsographLangTokenKind::EndOfFile ==> span is None && *final(self) == *old(self),
            old(self).current.item != IsographLangTokenKind::EndOfFile ==> span == Some(
                Span {
                    start: old(self).current.span.start,
                    end: old(self).bytes().len() as u32,
                },
            ) && *final(self) == old(self).advanced(),
    {
        if self.reached_eof() {
            None
        } else {
            let next_token = self.parse_token();
            Some(Span::new(next_token.span.start, self.source.len() as u32))
        }
    }

    /// Whether the token that comes next is the end of the source.
    pub fn reached_eof(&self) -> (at_end: bool)
        ensures
            at_end == (self.current.item == IsographLangTokenKind::EndOfFile),
    {
        self.current.item == IsographLangTokenKind::EndOfFile
    }

    /// The text of the source under a span that this lexer handed out.
    pub fn source(&self, span: Span) -> (text: &'source str)
        requires
            self.owns_span(span),
        ensures
            text.spec_bytes() == self.bytes().subrange(
                span.start - self.offset,
                span.end - self.offset,
            ),
            text@ == self.text_under(span),
    {
        let start = (span.start - self.offset) as usize;
        let end = (span.end - self.offset) as usize;
        let ghost bytes = self.bytes();
        proof {
            encode_utf8_valid_utf8(self.source@);
            valid_utf8_split(bytes, end as int);
            let head = bytes.subrange(0, end as int);
            if start < end {
                is_char_boundary_iff_not_is_continuation_byte(bytes, start as int);
                is_char_boundary_iff_not_is_continuation_byte(head, start as int);
            } else {
                is_char_boundary_start_end_of_seq(head);
            }
        }
        let (head, _) = self.source.split_at(end);
        let (_, text) = head.split_at(start);
        assert(text.spec_bytes() =~= bytes.subrange(start as int, end as int));
        proof {
            vstd::utf8::encode_utf8_decode_utf8(text@);
        }
        text
    }

    /// Takes the token that comes next if it is of the kind
    /// `expected_kind`, and leaves it otherwise.
    pub fn parse_token_of_kind(&mut self, expected_kind: IsographLangTokenKind) -> (result: Result<
        WithSpan<IsographLangTokenKind>,
        WithSpan<LowLevelParseError>,
    >)
        requires
            old(self).wf(),
        ensures
            final(self).wf(),
            old(self).current.item == expected_kind ==> result == Ok::<
                WithSpan<IsographLangTokenKind>,
                WithSpan<LowLevelParseError>,
            >(old(self).current) && *final(self) == old(self).advanced(),
            old(self).current.item != expected_kind ==> result == Err::<
                WithSpan<IsographLangTokenKind>,
                WithSpan<LowLevelParseError>,
            >(
                WithSpan {
                    item: LowLevelParseError::ParseTokenKindError {
                        expected_kind,
                        found_kind: old(self).current.item,
                    },
                    span: old(self).current.span,
                },
            ) && *final(self) == *old(self),
    {
        let found = self.peek();
        if found.item == expected_kind {
            Ok(self.parse_token())
        } else {
            Err(
                WithSpan::new(
                    LowLevelParseError::ParseTokenKindError {
                        expected_kind,
                        found_kind: found.item,
                    },
                    found.span,
                ),
            )
        }
    }

    /// Takes the token that comes next if it is of the kind
    /// `expected_kind`, and returns its text; leaves it otherwise.
    pub fn parse_source_of_kind(&mut self, expected_kind: IsographLangTokenKind) -> (result: Result<
        WithSpan<&'source str>,
        WithSpan<LowLevelParseError>,
    >)
        requires
            old(self).wf(),
        ensures
            final(self).wf(),
            old(self).current.item == expected_kind ==> *final(self) == old(self).advanced() && (
            result matches Ok(text) && text.span == old(self).current.span && text.item@ == old(self).current_text()),
            old(self).current.item != expected_kind ==> result == Err::<
                WithSpan<&'source str>,
                WithSpan<LowLevelParseError>,
            >(
                WithSpan {
                    item: LowLevelParseError::ParseTokenKindError {
                        expected_kind,
                        found_kind: old(self).current.item,
                    },
                    span: old(self).current.span,
                },
            ) && *final(self) == *old(self),
    {
        proof {
            old(self).lemma_owns_current();
        }
        let kind = match self.parse_token_of_kind(expected_kind) {
            Ok(kind) => kind,
            Err(e) => {
                return Err(e);
            },
        };
        Ok(WithSpan::new(self.source(kind.span), kind.span))
    }

    /// Takes the token that comes next if it is of the kind
    /// `expected_kind`, and returns its text as a name; leaves it
    /// otherwise.
    pub fn parse_string_key_type(&mut self, expected_kind: IsographLangTokenKind) -> (result:
        Result<WithSpan<String>, WithSpan<LowLevelParseError>>)
        requires
            old(self).wf(),
        ensures
            final(self).wf(),
            old(self).current.item == expected_kind ==> *final(self) == old(self).advanced() && (
            result matches Ok(name) && name.span == old(self).current.span && name.item@ == old(self).current_text()),
            old(self).current.item != expected_kind ==> result == Err::<
                WithSpan<String>,
                WithSpan<LowLevelParseError>,
            >(
                WithSpan {
                    item: LowLevelParseError::ParseTokenKindError {
                        expected_kind,
                        found_kind: old(self).current.item,
                    },
                    span: old(self).current.span,
                },
            ) && *final(self) == *old(self),
    {
        proof {
            old(self).lemma_owns_current();
        }
        let kind = match self.parse_token_of_kind(expected_kind) {
            Ok(kind) => kind,
            Err(e) => {
                return Err(e);
            },
        };
        let source = self.source(kind.span).to_owned();
        Ok(WithSpan::new(source, kind.span))
    }

    /// Takes the token that comes next if it is the identifier
    /// `identifier`, and leaves it otherwise.
    pub fn parse_matching_identifier(&mut self, identifier: &'static str) -> (result: Result<
        WithSpan<IsographLangTokenKind>,
        LowLevelParseError,
    >)
        requires
            old(self).wf(),
        ensures
            final(self).wf(),
            match result {
                Ok(token) => {
                    &&& old(self).current.item == IsographLangTokenKind::Identifier
                    &&& old(self).current_text() == identifier@
                    &&& token == old(self).current
                    &&& *final(self) == old(self).advanced()
                },
                Err(LowLevelParseError::ParseMatchingIdentifierError {
                    expected_identifier,
                    found_text,
                }) => {
                    &&& old(self).current.item == IsographLangTokenKind::Identifier
                    &&& old(self).current_text() != identifier@
                    &&& expected_identifier == identifier
                    &&& found_text@ == old(self).current_text()
                    &&& *final(self) == *old(self)
                },
                Err(LowLevelParseError::ParseTokenKindError { expected_kind, found_kind }) => {
                    &&& old(self).current.item != IsographLangTokenKind::Identifier
                    &&& expected_kind == IsographLangTokenKind::Identifier
                    &&& found_kind == old(self).current.item
                    &&& *final(self) == *old(self)
                },
            },
    {
        proof {
            old(self).lemma_owns_current();
        }
        let peeked = self.peek();
        if peeked.item == IsographLangTokenKind::Identifier {
            let source = self.source(peeked.span).to_owned();
            if source == identifier.to_owned() {
                Ok(self.parse_token())
            } else {
                Err(
                    LowLevelParseError::ParseMatchingIdentifierError {
                        expected_identifier: identifier,
                        found_text: source,
                    },
                )
            }
        } else {
            Err(
                LowLevelParseError::ParseTokenKindError {
                    expected_kind: IsographLangTokenKind::Identifier,
                    found_kind: peeked.item,
                },
            )
        }
    }

    /// Runs `do_stuff` on the lexer, once, and returns what it returned with
    /// the span from the start of the token that came next before the call
    /// to the end of the token that comes next after it. The lexer is left
    /// as `do_stuff` left it.
    pub fn with_span<T, F: FnOnce(&mut Self) -> T>(&mut self, do_stuff: F) -> (spanned: WithSpan<T>)
        requires
            forall|lexer: &mut Self|
                *lexer == *old(self) ==> #[trigger] call_requires(do_stuff, (lexer,)),
        ensures
            spanned.span.start == old(self).current.span.start,
            spanned.span.end == final(self).current.span.end,
            exists|lexer: &mut Self| #[trigger]
                call_ensures(do_stuff, (lexer,), spanned.item) && *lexer == *old(self)
                    && *final(lexer) == *final(self),
    {
        let start = self.current.span.start;
        let result = do_stuff(self);
        let end = self.current.span.end;
        let ghost after = *self;
        assert(exists|lexer: &mut Self| #[trigger]
            call_ensures(do_stuff, (lexer,), result) && *lexer == *old(self) && *final(lexer)
                == after);
        let spanned = WithSpan::new(result, Span::new(start, end));
        assert(spanned.item == result);
        assert(exists|lexer: &mut Self| #[trigger]
            call_ensures(do_stuff, (lexer,), spanned.item) && *lexer == *old(self) && *final(lexer)
                == after);
        spanned
    }

    /// The text of the source under a span that this lexer handed out.
    pub open spec fn text_under(self, span: Span) -> Seq<char> {
        vstd::utf8::decode_utf8(
            self.bytes().subrange(span.start - self.offset, span.end - self.offset),
        )
    }

    /// The text of the token that comes next.
    pub open spec fn current_text(self) -> Seq<char> {
        self.text_under(self.current.span)
    }
}

} // verus!
