use witx::lexer::{tokenize, LexErrorKind, Lexer};
use witx::text::{chars_of, same_text, spells, string_of};
use witx::token::{Keyword, Punct, Token, TokenKind};

fn kinds(text: &str) -> Vec<TokenKind> {
    let chars = chars_of(text);
    tokenize(0, &chars).expect("lexes").iter().map(|t| t.kind).collect()
}

fn texts(text: &str) -> Vec<String> {
    let chars = chars_of(text);
    tokenize(0, &chars)
        .expect("lexes")
        .iter()
        .map(|t| string_of(&chars, t.start, t.end))
        .collect()
}

#[test]
fn chars_of_keeps_every_character() {
    assert_eq!(chars_of("aé\n"), vec!['a', 'é', '\n']);
    assert_eq!(chars_of(""), Vec::<char>::new());
}

#[test]
fn string_of_copies_a_range() {
    let chars = chars_of("record point");
    assert_eq!(string_of(&chars, 7, 12), "point");
    assert_eq!(string_of(&chars, 3, 3), "");
    assert_eq!(string_of(&chars, 0, 12), "record point");
}

#[test]
fn same_text_compares_characters() {
    assert!(same_text("point", "point"));
    assert!(!same_text("point", "points"));
    assert!(!same_text("point", "paint"));
    assert!(same_text("", ""));
    assert!(same_text("é", "é"));
}

#[test]
fn spells_compares_a_range_with_a_word() {
    let chars = chars_of("use user");
    assert!(spells(&chars, 0, 3, "use"));
    assert!(spells(&chars, 4, 7, "use"));
    assert!(!spells(&chars, 4, 8, "use"));
    assert!(!spells(&chars, 0, 2, "use"));
}

#[test]
fn empty_text_is_the_end_marker() {
    let chars = chars_of("");
    let tokens = tokenize(0, &chars).expect("lexes");
    assert_eq!(
        tokens,
        vec![Token { kind: TokenKind::End, start: 0, end: 0, line: 0, column: 0 }]
    );
}

#[test]
fn record_is_lexed_token_by_token() {
    assert_eq!(
        kinds("record point { x: u32, y: u32 }"),
        vec![
            TokenKind::Keyword(Keyword::Record),
            TokenKind::Identifier,
            TokenKind::Punct(Punct::LeftBrace),
            TokenKind::Identifier,
            TokenKind::Punct(Punct::Colon),
            TokenKind::Identifier,
            TokenKind::Punct(Punct::Comma),
            TokenKind::Identifier,
            TokenKind::Punct(Punct::Colon),
            TokenKind::Identifier,
            TokenKind::Punct(Punct::RightBrace),
            TokenKind::End,
        ]
    );
    assert_eq!(
        texts("record point { x: u32, y: u32 }"),
        vec!["record", "point", "{", "x", ":", "u32", ",", "y", ":", "u32", "}", ""]
    );
}

#[test]
fn every_keyword_is_known() {
    assert_eq!(
        kinds("module use typename record variant interface func"),
        vec![
            TokenKind::Keyword(Keyword::Module),
            TokenKind::Keyword(Keyword::Use),
            TokenKind::Keyword(Keyword::Typename),
            TokenKind::Keyword(Keyword::Record),
            TokenKind::Keyword(Keyword::Variant),
            TokenKind::Keyword(Keyword::Interface),
            TokenKind::Keyword(Keyword::Func),
            TokenKind::End,
        ]
    );
}

#[test]
fn a_longer_word_is_no_keyword() {
    assert_eq!(
        kinds("records Record _use func2"),
        vec![
            TokenKind::Identifier,
            TokenKind::Identifier,
            TokenKind::Identifier,
            TokenKind::Identifier,
            TokenKind::End,
        ]
    );
}

#[test]
fn every_punctuation_mark_is_known() {
    assert_eq!(
        kinds("{}()<>:,=.->"),
        vec![
            TokenKind::Punct(Punct::LeftBrace),
            TokenKind::Punct(Punct::RightBrace),
            TokenKind::Punct(Punct::LeftParen),
            TokenKind::Punct(Punct::RightParen),
            TokenKind::Punct(Punct::LeftAngle),
            TokenKind::Punct(Punct::RightAngle),
            TokenKind::Punct(Punct::Colon),
            TokenKind::Punct(Punct::Comma),
            TokenKind::Punct(Punct::Equals),
            TokenKind::Punct(Punct::Dot),
            TokenKind::Punct(Punct::Arrow),
            TokenKind::End,
        ]
    );
}

#[test]
fn numbers_and_strings_are_tokens() {
    assert_eq!(
        kinds("42 \"hello world\" 7a"),
        vec![
            TokenKind::Integer,
            TokenKind::Str,
            TokenKind::Integer,
            TokenKind::Identifier,
            TokenKind::End,
        ]
    );
    assert_eq!(texts("42 \"hello world\" 7a"), vec!["42", "\"hello world\"", "7", "a", ""]);
}

#[test]
fn plain_comments_are_skipped() {
    assert_eq!(
        kinds("// a comment\nuse /* in\nbetween */ a //// four slashes\n//"),
        vec![TokenKind::Keyword(Keyword::Use), TokenKind::Identifier, TokenKind::End]
    );
}

#[test]
fn documentation_comments_are_tokens() {
    let chars = chars_of("/// A point.\r\n///\nrecord");
    let tokens = tokenize(0, &chars).expect("lexes");
    assert_eq!(
        tokens,
        vec![
            Token { kind: TokenKind::Comment, start: 0, end: 12, line: 0, column: 0 },
            Token { kind: TokenKind::Comment, start: 14, end: 17, line: 1, column: 0 },
            Token { kind: TokenKind::Keyword(Keyword::Record), start: 18, end: 24, line: 2, column: 0 },
            Token { kind: TokenKind::End, start: 24, end: 24, line: 2, column: 6 },
        ]
    );
}

#[test]
fn lines_and_columns_count_from_zero() {
    let chars = chars_of("a\n  b\n\n\tc d");
    let tokens = tokenize(0, &chars).expect("lexes");
    let places: Vec<(usize, usize, usize)> =
        tokens.iter().map(|t| (t.start, t.line, t.column)).collect();
    assert_eq!(places, vec![(1 - 1, 0, 0), (4, 1, 2), (8, 3, 1), (10, 3, 3), (11, 3, 4)]);
}

#[test]
fn unexpected_character_is_an_error() {
    let chars = chars_of("record a {\n  x # u32 }");
    let error = tokenize(3, &chars).expect_err("no token begins with #");
    assert_eq!(error.kind, LexErrorKind::UnexpectedCharacter);
    assert_eq!(error.found, Some('#'));
    assert_eq!(error.location.source, 3);
    assert_eq!(error.location.offset, 15);
    assert_eq!(error.location.line, 1);
    assert_eq!(error.location.column, 4);
}

#[test]
fn lone_minus_and_lone_slash_are_errors() {
    let chars = chars_of("a - b");
    let error = tokenize(0, &chars).expect_err("a minus needs its >");
    assert_eq!(error.kind, LexErrorKind::UnexpectedCharacter);
    assert_eq!(error.found, Some('-'));
    assert_eq!(error.location.offset, 2);
    let chars = chars_of("a / b");
    let error = tokenize(0, &chars).expect_err("a slash begins no token");
    assert_eq!(error.kind, LexErrorKind::UnexpectedCharacter);
    assert_eq!(error.found, Some('/'));
}

#[test]
fn non_ascii_letter_is_an_error_outside_comments() {
    let chars = chars_of("// é is fine here\nrecord é");
    let error = tokenize(0, &chars).expect_err("é begins no token");
    assert_eq!(error.kind, LexErrorKind::UnexpectedCharacter);
    assert_eq!(error.found, Some('é'));
    assert_eq!(error.location.line, 1);
    assert_eq!(error.location.column, 7);
}

#[test]
fn string_without_an_end_is_an_error() {
    let chars = chars_of("use \"abc");
    let error = tokenize(0, &chars).expect_err("the string does not end");
    assert_eq!(error.kind, LexErrorKind::UnterminatedString);
    assert_eq!(error.found, None);
    assert_eq!(error.location.offset, 4);
    let chars = chars_of("\"abc\ndef\"");
    let error = tokenize(0, &chars).expect_err("a string ends on its line");
    assert_eq!(error.kind, LexErrorKind::UnterminatedString);
    assert_eq!(error.location.offset, 0);
}

#[test]
fn comment_without_an_end_is_an_error() {
    let chars = chars_of("use a\n /* never closed *");
    let error = tokenize(0, &chars).expect_err("the comment does not end");
    assert_eq!(error.kind, LexErrorKind::UnterminatedComment);
    assert_eq!(error.found, None);
    assert_eq!(error.location.offset, 7);
    assert_eq!(error.location.line, 1);
    assert_eq!(error.location.column, 1);
    let chars = chars_of("/*/");
    let error = tokenize(0, &chars).expect_err("the slash belongs to the opening");
    assert_eq!(error.kind, LexErrorKind::UnterminatedComment);
}

#[test]
fn lexer_yields_tokens_one_by_one_and_restarts() {
    let chars = chars_of("use a");
    let mut lexer = Lexer::new(0, &chars);
    let first = lexer.next_token().expect("a token");
    assert_eq!(first.kind, TokenKind::Keyword(Keyword::Use));
    let second = lexer.next_token().expect("a token");
    assert_eq!(second.kind, TokenKind::Identifier);
    assert_eq!((second.start, second.end), (4, 5));
    let end = lexer.next_token().expect("the end");
    assert_eq!(end.kind, TokenKind::End);
    let again = lexer.next_token().expect("the end again");
    assert_eq!(again, end);
    lexer.restart();
    assert_eq!(lexer.next_token().expect("a token"), first);
}

#[test]
fn lexer_stays_at_an_error() {
    let chars = chars_of("a ? b");
    let mut lexer = Lexer::new(0, &chars);
    assert_eq!(lexer.next_token().expect("a token").kind, TokenKind::Identifier);
    let error = lexer.next_token().expect_err("no token begins with ?");
    assert_eq!(error.location.offset, 2);
    let same = lexer.next_token().expect_err("still there");
    assert_eq!(same, error);
}

#[test]
fn block_comment_may_be_empty_or_hold_stars_and_lines() {
    assert_eq!(
        kinds("/**/ a /* * / ** */ b /* one\ntwo\n*/ c"),
        vec![TokenKind::Identifier, TokenKind::Identifier, TokenKind::Identifier, TokenKind::End]
    );
    assert_eq!(texts("a/**/b"), vec!["a", "b", ""]);
}
