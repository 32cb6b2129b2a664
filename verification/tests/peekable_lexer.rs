use isograph_schema::common::{Span, WithSpan};
use isograph_schema::peekable_lexer::{IsographLangTokenKind, LowLevelParseError, PeekableLexer};

fn token(kind: IsographLangTokenKind, start: u32, end: u32) -> WithSpan<IsographLangTokenKind> {
    WithSpan { item: kind, span: Span { start, end } }
}

const SOURCE: &str = "User.name { id, größe }";

fn tokens() -> Vec<WithSpan<IsographLangTokenKind>> {
    vec![
        token(IsographLangTokenKind::Identifier, 0, 4),
        token(IsographLangTokenKind::Period, 4, 5),
        token(IsographLangTokenKind::Identifier, 5, 9),
        token(IsographLangTokenKind::OpenBrace, 10, 11),
        token(IsographLangTokenKind::Identifier, 12, 14),
        token(IsographLangTokenKind::Comma, 14, 15),
        token(IsographLangTokenKind::Identifier, 16, 23),
        token(IsographLangTokenKind::CloseBrace, 24, 25),
    ]
}

fn end_of_file() -> WithSpan<IsographLangTokenKind> {
    token(IsographLangTokenKind::EndOfFile, 25, 25)
}

#[test]
fn a_new_lexer_stands_at_the_first_token() {
    assert_eq!(SOURCE.len(), 25);
    let lexer = PeekableLexer::new(SOURCE, tokens());
    assert_eq!(lexer.peek(), token(IsographLangTokenKind::Identifier, 0, 4));
    assert_eq!(lexer.lexer_span(), Span { start: 0, end: 4 });
    assert_eq!(lexer.position, 0);
    assert_eq!(lexer.end_index, 0);
    assert_eq!(lexer.offset, 0);
    assert!(!lexer.reached_eof());
}

#[test]
fn a_lexer_of_no_tokens_stands_at_the_end() {
    let mut lexer = PeekableLexer::new("  ", vec![]);
    assert!(lexer.reached_eof());
    assert_eq!(lexer.peek(), token(IsographLangTokenKind::EndOfFile, 2, 2));
    assert_eq!(lexer.remaining_token_span(), None);
    assert_eq!(lexer.parse_token(), token(IsographLangTokenKind::EndOfFile, 2, 2));
    assert_eq!(lexer.peek(), token(IsographLangTokenKind::EndOfFile, 2, 2));
    assert_eq!(lexer.position, 0);
}

#[test]
fn tokens_are_taken_in_order_and_the_end_lasts() {
    let mut lexer = PeekableLexer::new(SOURCE, tokens());
    for (index, expected) in tokens().into_iter().enumerate() {
        assert_eq!(lexer.position, index);
        assert_eq!(lexer.peek(), expected);
        assert_eq!(lexer.parse_token(), expected);
        assert_eq!(lexer.end_index, expected.span.end);
    }
    assert!(lexer.reached_eof());
    assert_eq!(lexer.position, 8);
    for _ in 0..3 {
        assert_eq!(lexer.parse_token(), end_of_file());
        assert_eq!(lexer.peek(), end_of_file());
        assert_eq!(lexer.end_index, 25);
        assert_eq!(lexer.position, 8);
    }
}

#[test]
fn a_token_of_another_kind_is_left() {
    let mut lexer = PeekableLexer::new(SOURCE, tokens());
    let error = lexer.parse_token_of_kind(IsographLangTokenKind::OpenBrace).unwrap_err();
    assert_eq!(
        error,
        WithSpan {
            item: LowLevelParseError::ParseTokenKindError {
                expected_kind: IsographLangTokenKind::OpenBrace,
                found_kind: IsographLangTokenKind::Identifier,
            },
            span: Span { start: 0, end: 4 },
        }
    );
    assert_eq!(lexer.position, 0);
    assert_eq!(lexer.peek(), token(IsographLangTokenKind::Identifier, 0, 4));
    assert_eq!(
        lexer.parse_token_of_kind(IsographLangTokenKind::Identifier),
        Ok(token(IsographLangTokenKind::Identifier, 0, 4))
    );
    assert_eq!(lexer.peek(), token(IsographLangTokenKind::Period, 4, 5));
    assert_eq!(lexer.end_index, 4);
}

#[test]
fn the_text_of_a_token_is_cut_from_the_source() {
    let mut lexer = PeekableLexer::new(SOURCE, tokens());
    assert_eq!(lexer.source(Span { start: 5, end: 9 }), "name");
    assert_eq!(lexer.source(Span { start: 16, end: 23 }), "größe");
    assert_eq!(lexer.source(Span { start: 25, end: 25 }), "");
    assert_eq!(lexer.source(Span { start: 0, end: 25 }), SOURCE);
    assert_eq!(
        lexer.parse_source_of_kind(IsographLangTokenKind::Identifier),
        Ok(WithSpan { item: "User", span: Span { start: 0, end: 4 } })
    );
    assert_eq!(
        lexer.parse_source_of_kind(IsographLangTokenKind::Period),
        Ok(WithSpan { item: ".", span: Span { start: 4, end: 5 } })
    );
    assert_eq!(
        lexer.parse_string_key_type(IsographLangTokenKind::Identifier),
        Ok(WithSpan { item: "name".to_string(), span: Span { start: 5, end: 9 } })
    );
    let error = lexer.parse_string_key_type(IsographLangTokenKind::Identifier).unwrap_err();
    assert_eq!(error.span, Span { start: 10, end: 11 });
    let error = lexer.parse_source_of_kind(IsographLangTokenKind::Identifier).unwrap_err();
    assert_eq!(
        error.item,
        LowLevelParseError::ParseTokenKindError {
            expected_kind: IsographLangTokenKind::Identifier,
            found_kind: IsographLangTokenKind::OpenBrace,
        }
    );
    assert_eq!(lexer.position, 3);
}

#[test]
fn a_matching_identifier_is_taken_and_another_is_left() {
    let mut lexer = PeekableLexer::new(SOURCE, tokens());
    assert_eq!(
        lexer.parse_matching_identifier("Page"),
        Err(LowLevelParseError::ParseMatchingIdentifierError {
            expected_identifier: "Page",
            found_text: "User".to_string(),
        })
    );
    assert_eq!(lexer.position, 0);
    assert_eq!(
        lexer.parse_matching_identifier("User"),
        Ok(token(IsographLangTokenKind::Identifier, 0, 4))
    );
    assert_eq!(lexer.position, 1);
    assert_eq!(
        lexer.parse_matching_identifier("User"),
        Err(LowLevelParseError::ParseTokenKindError {
            expected_kind: IsographLangTokenKind::Identifier,
            found_kind: IsographLangTokenKind::Period,
        })
    );
    assert_eq!(lexer.position, 1);
}

#[test]
fn the_remaining_span_runs_to_the_end_of_the_source() {
    let mut lexer = PeekableLexer::new(SOURCE, tokens());
    lexer.parse_token();
    lexer.parse_token();
    assert_eq!(lexer.remaining_token_span(), Some(Span { start: 5, end: 25 }));
    assert_eq!(lexer.peek(), token(IsographLangTokenKind::OpenBrace, 10, 11));
    while !lexer.reached_eof() {
        lexer.parse_token();
    }
    assert_eq!(lexer.remaining_token_span(), None);
    assert_eq!(lexer.position, 8);
}

#[test]
fn with_span_covers_what_was_taken() {
    let mut lexer = PeekableLexer::new(SOURCE, tokens());
    lexer.parse_token();
    let spanned = lexer.with_span(|lexer| {
        lexer.parse_token();
        lexer.parse_token();
        17
    });
    assert_eq!(spanned, WithSpan { item: 17, span: Span { start: 4, end: 11 } });
    assert_eq!(lexer.position, 3);
    let spanned = lexer.with_span(|_| "nothing");
    assert_eq!(spanned, WithSpan { item: "nothing", span: Span { start: 10, end: 11 } });
}

#[test]
fn spans_are_made_as_given() {
    assert_eq!(Span::new(3, 9), Span { start: 3, end: 9 });
    assert_eq!(Span::todo_generated(), Span { start: 0, end: 0 });
    assert_eq!(WithSpan::new('x', Span::new(1, 2)), WithSpan { item: 'x', span: Span { start: 1, end: 2 } });
}

#[test]
fn only_tokens_that_fit_the_source_make_a_lexer() {
    let lexer = PeekableLexer::try_new(SOURCE, tokens()).unwrap();
    assert_eq!(lexer.peek(), token(IsographLangTokenKind::Identifier, 0, 4));
    assert_eq!(lexer.tokens, tokens());
    assert_eq!(lexer.position, 0);
    assert!(PeekableLexer::try_new("", vec![]).is_some());
    let rejected = |bad: WithSpan<IsographLangTokenKind>| {
        let mut all = tokens();
        all.insert(3, bad);
        PeekableLexer::try_new(SOURCE, all).is_none()
    };
    assert!(rejected(token(IsographLangTokenKind::Error, 9, 10)));
    assert!(rejected(token(IsographLangTokenKind::Identifier, 10, 9)));
    assert!(rejected(token(IsographLangTokenKind::Identifier, 24, 26)));
    assert!(rejected(token(IsographLangTokenKind::Identifier, 16, 19)));
    assert!(rejected(token(IsographLangTokenKind::Identifier, 19, 23)));
    assert!(!rejected(token(IsographLangTokenKind::Identifier, 18, 20)));
    assert!(!rejected(token(IsographLangTokenKind::EndOfFile, 25, 25)));
}
