//! The lexer: from characters to tokens.
//!
//! A text is made of:
//!
//! - white space: blanks, tabs, line feeds and carriage returns, which part
//!   tokens and are no tokens;
//! - comments: from `//` to the end of the line, or from `/*` to the next
//!   `*/`, which are no tokens either;
//! - documentation comments: from `///`, but not `////`, to the end of the
//!   line;
//! - words: a letter or underscore, then letters, digits and underscores. A
//!   word is a keyword or an identifier;
//! - numbers: decimal digits;
//! - strings: from `"` to the next `"` on the same line;
//! - punctuation: `{ } ( ) < > : , = .` and `->`.
//!
//! Any other character is an error, and so is a string or a block comment
//! that does not end. No declaration holds a number or a string: where one
//! stands, the parser reports it.
//!
//! `scan` says which token begins at or after a given offset; `tokens_from`
//! strings those tokens together. `Lexer` walks a text one token at a time
//! and `tokenize` collects them all.

use vstd::prelude::*;
use crate::text::{
    column_of, digit_char, ident_part_char, ident_start_char, is_digit, is_ident_part,
    is_ident_start, is_line_break, is_space, lemma_position_bounds, line_break_char, line_of,
    space_char, spells,
};
use crate::syntax::viewed;
use crate::token::{location_at, token_at, Keyword, Location, Punct, Token, TokenKind};

verus! {

/// Why the lexer gave up.
#[derive(Clone, Copy, Debug, PartialEq, Eq, Structural)]
pub enum LexErrorKind {
    /// A character that begins no token.
    UnexpectedCharacter,
    /// A string literal with no closing quote on its line.
    UnterminatedString,
    /// A block comment with no closing `*/`.
    UnterminatedComment,
}

/// A lexical error: where it is and, for an unexpected character, which one.
///
/// For an unterminated string or comment the location is that of its first
/// character and `found` is `None`.
#[derive(Clone, Copy, Debug, PartialEq, Eq)]
pub struct LexError {
    pub kind: LexErrorKind,
    pub location: Location,
    pub found: Option<char>,
}

/// What lies at or after an offset: a token, the end of the text, or an error.
pub enum Scan {
    Token { kind: TokenKind, start: int, end: int },
    End,
    Error { reason: LexErrorKind, offset: int, found: Option<char> },
}

/// First offset at or after `pos` that holds no identifier character.
pub open spec fn ident_end(text: Seq<char>, pos: int) -> int
    decreases text.len() - pos,
{
    if 0 <= pos < text.len() && is_ident_part(text[pos]) {
        ident_end(text, pos + 1)
    } else {
        pos
    }
}

/// First offset at or after `pos` that holds no digit.
pub open spec fn digits_end(text: Seq<char>, pos: int) -> int
    decreases text.len() - pos,
{
    if 0 <= pos < text.len() && is_digit(text[pos]) {
        digits_end(text, pos + 1)
    } else {
        pos
    }
}

/// First offset at or after `pos` that holds a line break, or the end of the text.
pub open spec fn line_end(text: Seq<char>, pos: int) -> int
    decreases text.len() - pos,
{
    if 0 <= pos < text.len() && !is_line_break(text[pos]) {
        line_end(text, pos + 1)
    } else {
        pos
    }
}

/// Offset just after the quote that closes a string literal whose contents
/// begin at `pos`; `None` if the line or the text ends first.
pub open spec fn string_close(text: Seq<char>, pos: int) -> Option<int>
    decreases text.len() - pos,
{
    if 0 <= pos < text.len() && !is_line_break(text[pos]) {
        if text[pos] == '"' {
            Some(pos + 1)
        } else {
            string_close(text, pos + 1)
        }
    } else {
        None
    }
}

/// Offset just after the `*/` that closes a block comment whose contents
/// begin at `pos`; `None` if the text ends first.
pub open spec fn comment_close(text: Seq<char>, pos: int) -> Option<int>
    decreases text.len() - pos,
{
    if 0 <= pos && pos + 1 < text.len() {
        if text[pos] == '*' && text[pos + 1] == '/' {
            Some(pos + 2)
        } else {
            comment_close(text, pos + 1)
        }
    } else {
        None
    }
}

/// Whether a documentation comment begins at `pos`: three slashes, not four.
pub open spec fn doc_comment_at(text: Seq<char>, pos: int) -> bool {
    &&& 0 <= pos && pos + 2 < text.len()
    &&& text[pos] == '/' && text[pos + 1] == '/' && text[pos + 2] == '/'
    &&& !(pos + 3 < text.len() && text[pos + 3] == '/')
}

/// The keyword that `word` spells, if any.
pub open spec fn keyword_of(word: Seq<char>) -> Option<Keyword> {
    if word == Keyword::Module.text() {
        Some(Keyword::Module)
    } else if word == Keyword::Use.text() {
        Some(Keyword::Use)
    } else if word == Keyword::Typename.text() {
        Some(Keyword::Typename)
    } else if word == Keyword::Record.text() {
        Some(Keyword::Record)
    } else if word == Keyword::Variant.text() {
        Some(Keyword::Variant)
    } else if word == Keyword::Interface.text() {
        Some(Keyword::Interface)
    } else if word == Keyword::Func.text() {
        Some(Keyword::Func)
    } else {
        None
    }
}

/// The kind of the token that the word `word` forms: a keyword or an identifier.
pub open spec fn word_kind(word: Seq<char>) -> TokenKind {
    match keyword_of(word) {
        Some(k) => TokenKind::Keyword(k),
        None => TokenKind::Identifier,
    }
}

/// The punctuation mark that the single character `c` forms, if any.
pub open spec fn punct_of(c: char) -> Option<Punct> {
    if c == '{' {
        Some(Punct::LeftBrace)
    } else if c == '}' {
        Some(Punct::RightBrace)
    } else if c == '(' {
        Some(Punct::LeftParen)
    } else if c == ')' {
        Some(Punct::RightParen)
    } else if c == '<' {
        Some(Punct::LeftAngle)
    } else if c == '>' {
        Some(Punct::RightAngle)
    } else if c == ':' {
        Some(Punct::Colon)
    } else if c == ',' {
        Some(Punct::Comma)
    } else if c == '=' {
        Some(Punct::Equals)
    } else if c == '.' {
        Some(Punct::Dot)
    } else {
        None
    }
}

/// An identifier ends within the text, at or behind where it is looked for.
pub proof fn lemma_ident_end_bounds(text: Seq<char>, pos: int)
    requires
        0 <= pos <= text.len(),
    ensures
        pos <= ident_end(text, pos) <= text.len(),
    decreases text.len() - pos,
{
    if pos < text.len() && is_ident_part(text[pos]) {
        lemma_ident_end_bounds(text, pos + 1);
    }
}

/// A number ends within the text, at or behind where it is looked for.
pub proof fn lemma_digits_end_bounds(text: Seq<char>, pos: int)
    requires
        0 <= pos <= text.len(),
    ensures
        pos <= digits_end(text, pos) <= text.len(),
    decreases text.len() - pos,
{
    if pos < text.len() && is_digit(text[pos]) {
        lemma_digits_end_bounds(text, pos + 1);
    }
}

/// A line ends within the text, at or behind where its end is looked for.
pub proof fn lemma_line_end_bounds(text: Seq<char>, pos: int)
    requires
        0 <= pos <= text.len(),
    ensures
        pos <= line_end(text, pos) <= text.len(),
    decreases text.len() - pos,
{
    if pos < text.len() && !is_line_break(text[pos]) {
        lemma_line_end_bounds(text, pos + 1);
    }
}

/// A string closes within the text, behind where its contents begin.
pub proof fn lemma_string_close_bounds(text: Seq<char>, pos: int)
    requires
        0 <= pos <= text.len(),
    ensures
        string_close(text, pos) matches Some(end) ==> pos < end <= text.len(),
    decreases text.len() - pos,
{
    if pos < text.len() && !is_line_break(text[pos]) && text[pos] != '"' {
        lemma_string_close_bounds(text, pos + 1);
    }
}

/// A comment closes within the text, behind where its contents begin.
pub proof fn lemma_comment_close_bounds(text: Seq<char>, pos: int)
    requires
        0 <= pos <= text.len(),
    ensures
        comment_close(text, pos) matches Some(end) ==> pos + 2 <= end <= text.len(),
    decreases text.len() - pos,
{
    if pos + 1 < text.len() && !(text[pos] == '*' && text[pos + 1] == '/') {
        lemma_comment_close_bounds(text, pos + 1);
    }
}

/// The first token at or after `pos`, skipping white space and comments
/// that carry no documentation.
pub open spec fn scan(text: Seq<char>, pos: int) -> Scan
    decreases text.len() - pos,
{
    if !(0 <= pos < text.len()) {
        Scan::End
    } else {
        let c = text[pos];
        if is_space(c) {
            scan(text, pos + 1)
        } else if c == '/' && pos + 1 < text.len() && text[pos + 1] == '/' {
            let end = line_end(text, pos + 2);
            if doc_comment_at(text, pos) {
                Scan::Token { kind: TokenKind::Comment, start: pos, end }
            } else {
                proof {
                    lemma_line_end_bounds(text, pos + 2);
                }
                scan(text, end)
            }
        } else if c == '/' && pos + 1 < text.len() && text[pos + 1] == '*' {
            match comment_close(text, pos + 2) {
                Some(end) => {
                    proof {
                        lemma_comment_close_bounds(text, pos + 2);
                    }
                    scan(text, end)
                },
                None => Scan::Error {
                    reason: LexErrorKind::UnterminatedComment,
                    offset: pos,
                    found: None,
                },
            }
        } else if is_ident_start(c) {
            let end = ident_end(text, pos + 1);
            Scan::Token { kind: word_kind(text.subrange(pos, end)), start: pos, end }
        } else if is_digit(c) {
            Scan::Token { kind: TokenKind::Integer, start: pos, end: digits_end(text, pos + 1) }
        } else if c == '"' {
            match string_close(text, pos + 1) {
                Some(end) => Scan::Token { kind: TokenKind::Str, start: pos, end },
                None => Scan::Error {
                    reason: LexErrorKind::UnterminatedString,
                    offset: pos,
                    found: None,
                },
            }
        } else if c == '-' && pos + 1 < text.len() && text[pos + 1] == '>' {
            Scan::Token { kind: TokenKind::Punct(Punct::Arrow), start: pos, end: pos + 2 }
        } else {
            match punct_of(c) {
                Some(p) => Scan::Token { kind: TokenKind::Punct(p), start: pos, end: pos + 1 },
                None => Scan::Error {
                    reason: LexErrorKind::UnexpectedCharacter,
                    offset: pos,
                    found: Some(c),
                },
            }
        }
    }
}

/// A token lies within the text, after the offset the scan began at, and is
/// never empty; an error lies within the text too.
pub proof fn lemma_scan_bounds(text: Seq<char>, pos: int)
    requires
        0 <= pos <= text.len(),
    ensures
        scan(text, pos) matches Scan::Token { start, end, .. } ==> pos <= start < end
            <= text.len(),
        scan(text, pos) matches Scan::Error { offset, .. } ==> pos <= offset < text.len(),
    decreases text.len() - pos,
{
    if pos < text.len() {
        let c = text[pos];
        if is_space(c) {
            lemma_scan_bounds(text, pos + 1);
        } else if c == '/' && pos + 1 < text.len() && text[pos + 1] == '/' {
            lemma_line_end_bounds(text, pos + 2);
            if !doc_comment_at(text, pos) {
                lemma_scan_bounds(text, line_end(text, pos + 2));
            }
        } else if c == '/' && pos + 1 < text.len() && text[pos + 1] == '*' {
            lemma_comment_close_bounds(text, pos + 2);
            if let Some(end) = comment_close(text, pos + 2) {
                lemma_scan_bounds(text, end);
            }
        } else if is_ident_start(c) {
            lemma_ident_end_bounds(text, pos + 1);
        } else if is_digit(c) {
            lemma_digits_end_bounds(text, pos + 1);
        } else if c == '"' {
            lemma_string_close_bounds(text, pos + 1);
        }
    }
}

/// The lexical error that a failed scan stands for, in source number `source`.
pub open spec fn lex_error_at(
    source: usize,
    text: Seq<char>,
    kind: LexErrorKind,
    offset: int,
    found: Option<char>,
) -> LexError {
    LexError { kind, location: location_at(source, text, offset), found }
}

/// All tokens of `text` from `pos` on with the end marker behind them, or
/// the first lexical error.
pub open spec fn tokens_from(source: usize, text: Seq<char>, pos: int) -> Result<
    Seq<Token>,
    LexError,
>
    decreases text.len() - pos,
{
    if !(0 <= pos <= text.len()) {
        Ok(seq![end_token(text)])
    } else {
        match scan(text, pos) {
            Scan::End => Ok(seq![end_token(text)]),
            Scan::Error { reason, offset, found } => Err(
                lex_error_at(source, text, reason, offset, found),
            ),
            Scan::Token { kind, start, end } => {
                proof {
                    lemma_scan_bounds(text, pos);
                }
                match tokens_from(source, text, end) {
                    Ok(rest) => Ok(seq![token_at(text, kind, start, end)] + rest),
                    Err(e) => Err(e),
                }
            },
        }
    }
}

/// The tokens of a whole text, or its first lexical error.
pub open spec fn tokens_of(source: usize, text: Seq<char>) -> Result<Seq<Token>, LexError> {
    tokens_from(source, text, 0)
}

/// The marker that ends the token sequence of `text`.
pub open spec fn end_token(text: Seq<char>) -> Token {
    token_at(text, TokenKind::End, text.len() as int, text.len() as int)
}

/// What one step of the lexer yields at `pos`, and the offset it stops at:
/// behind the token, at the end of the text, or at the error.
pub open spec fn step_at(source: usize, text: Seq<char>, pos: int) -> (
    Result<Token, LexError>,
    int,
) {
    match scan(text, pos) {
        Scan::End => (Ok(end_token(text)), text.len() as int),
        Scan::Token { kind, start, end } => (Ok(token_at(text, kind, start, end)), end),
        Scan::Error { reason, offset, found } => (
            Err(lex_error_at(source, text, reason, offset, found)),
            offset,
        ),
    }
}

/// The tokens in `acc`, followed by what `rest` holds.
pub open spec fn continued(acc: Seq<Token>, rest: Result<Seq<Token>, LexError>) -> Result<
    Seq<Token>,
    LexError,
> {
    match rest {
        Ok(more) => Ok(acc + more),
        Err(e) => Err(e),
    }
}

fn find_ident_end(text: &Vec<char>, pos: usize) -> (end: usize)
    requires
        pos <= text.len(),
    ensures
        end == ident_end(text@, pos as int),
        pos <= end <= text.len(),
{
    let mut i: usize = pos;
    while i < text.len() && ident_part_char(text[i])
        invariant
            pos <= i <= text.len(),
            ident_end(text@, pos as int) == ident_end(text@, i as int),
        decreases text.len() - i,
    {
        i += 1;
    }
    i
}

fn find_digits_end(text: &Vec<char>, pos: usize) -> (end: usize)
    requires
        pos <= text.len(),
    ensures
        end == digits_end(text@, pos as int),
        pos <= end <= text.len(),
{
    let mut i: usize = pos;
    while i < text.len() && digit_char(text[i])
        invariant
            pos <= i <= text.len(),
            digits_end(text@, pos as int) == digits_end(text@, i as int),
        decreases text.len() - i,
    {
        i += 1;
    }
    i
}

fn find_line_end(text: &Vec<char>, pos: usize) -> (end: usize)
    requires
        pos <= text.len(),
    ensures
        end == line_end(text@, pos as int),
        pos <= end <= text.len(),
{
    let mut i: usize = pos;
    while i < text.len() && !line_break_char(text[i])
        invariant
            pos <= i <= text.len(),
            line_end(text@, pos as int) == line_end(text@, i as int),
        decreases text.len() - i,
    {
        i += 1;
    }
    i
}

fn find_string_close(text: &Vec<char>, pos: usize) -> (end: Option<usize>)
    requires
        pos <= text.len(),
    ensures
        match string_close(text@, pos as int) {
            Some(e) => end == Some(e as usize) && pos < e <= text.len(),
            None => end is None,
        },
{
    let mut i: usize = pos;
    while i < text.len() && !line_break_char(text[i])
        invariant
            pos <= i <= text.len(),
            string_close(text@, pos as int) == string_close(text@, i as int),
        decreases text.len() - i,
    {
        if text[i] == '"' {
            return Some(i + 1);
        }
        i += 1;
    }
    None
}

fn find_comment_close(text: &Vec<char>, pos: usize) -> (end: Option<usize>)
    requires
        pos <= text.len(),
    ensures
        match comment_close(text@, pos as int) {
            Some(e) => end == Some(e as usize) && pos + 2 <= e <= text.len(),
            None => end is None,
        },
{
    let mut i: usize = pos;
    while i < text.len() && i + 1 < text.len()
        invariant
            pos <= i <= text.len(),
            comment_close(text@, pos as int) == comment_close(text@, i as int),
        decreases text.len() - i,
    {
        if text[i] == '*' && text[i + 1] == '/' {
            return Some(i + 2);
        }
        i += 1;
    }
    None
}

/// The kind of the word that spans `start..end` of `text`.
fn classify_word(text: &Vec<char>, start: usize, end: usize) -> (kind: TokenKind)
    requires
        start <= end <= text.len(),
    ensures
        kind == word_kind(text@.subrange(start as int, end as int)),
{
    if spells(text, start, end, Keyword::Module.as_str()) {
        TokenKind::Keyword(Keyword::Module)
    } else if spells(text, start, end, Keyword::Use.as_str()) {
        TokenKind::Keyword(Keyword::Use)
    } else if spells(text, start, end, Keyword::Typename.as_str()) {
        TokenKind::Keyword(Keyword::Typename)
    } else if spells(text, start, end, Keyword::Record.as_str()) {
        TokenKind::Keyword(Keyword::Record)
    } else if spells(text, start, end, Keyword::Variant.as_str()) {
        TokenKind::Keyword(Keyword::Variant)
    } else if spells(text, start, end, Keyword::Interface.as_str()) {
        TokenKind::Keyword(Keyword::Interface)
    } else if spells(text, start, end, Keyword::Func.as_str()) {
        TokenKind::Keyword(Keyword::Func)
    } else {
        TokenKind::Identifier
    }
}

/// The punctuation mark that `c` forms, if any.
fn classify_punct(c: char) -> (p: Option<Punct>)
    ensures
        p == punct_of(c),
{
    if c == '{' {
        Some(Punct::LeftBrace)
    } else if c == '}' {
        Some(Punct::RightBrace)
    } else if c == '(' {
        Some(Punct::LeftParen)
    } else if c == ')' {
        Some(Punct::RightParen)
    } else if c == '<' {
        Some(Punct::LeftAngle)
    } else if c == '>' {
        Some(Punct::RightAngle)
    } else if c == ':' {
        Some(Punct::Colon)
    } else if c == ',' {
        Some(Punct::Comma)
    } else if c == '=' {
        Some(Punct::Equals)
    } else if c == '.' {
        Some(Punct::Dot)
    } else {
        None
    }
}

/// A lexer over one text: each call of `next_token` yields the next token,
/// `restart` goes back to the beginning.
pub struct Lexer<'a> {
    text: &'a Vec<char>,
    source: usize,
    offset: usize,
    line: usize,
    column: usize,
}

impl<'a> Lexer<'a> {
    /// The text being read.
    pub closed spec fn chars(&self) -> Seq<char> {
        self.text@
    }

    /// The number of the source being read.
    pub closed spec fn source(&self) -> usize {
        self.source
    }

    /// The offset of the next character to read.
    pub closed spec fn offset(&self) -> int {
        self.offset as int
    }

    /// The lexer stands inside its text and knows its line and column.
    pub closed spec fn wf(&self) -> bool {
        &&& self.offset <= self.text@.len()
        &&& self.line == line_of(self.text@, self.offset as int)
        &&& self.column == column_of(self.text@, self.offset as int)
    }

    /// A lexer at the start of `text`, which is source number `source`.
    pub fn new(source: usize, text: &'a Vec<char>) -> (lexer: Self)
        ensures
            lexer.wf(),
            lexer.chars() == text@,
            lexer.source() == source,
            lexer.offset() == 0,
    {
        Lexer { text, source, offset: 0, line: 0, column: 0 }
    }

    /// Goes back to the start of the text.
    pub fn restart(&mut self)
        ensures
            final(self).wf(),
            final(self).chars() == old(self).chars(),
            final(self).source() == old(self).source(),
            final(self).offset() == 0,
    {
        self.offset = 0;
        self.line = 0;
        self.column = 0;
    }

    /// Moves forward to `target`, counting lines and columns on the way.
    fn advance_to(&mut self, target: usize)
        requires
            old(self).wf(),
            old(self).offset <= target <= old(self).text@.len(),
        ensures
            final(self).wf(),
            final(self).text == old(self).text,
            final(self).source == old(self).source,
            final(self).offset == target,
    {
        while self.offset < target
            invariant
                self.wf(),
                self.text == old(self).text,
                self.source == old(self).source,
                self.offset <= target <= self.text@.len(),
            decreases target - self.offset,
        {
            proof {
                lemma_position_bounds(self.text@, self.offset as int);
            }
            if self.text[self.offset] == '\n' {
                self.line += 1;
                self.column = 0;
            } else {
                self.column += 1;
            }
            self.offset += 1;
        }
    }

    /// The next token, the end marker at the end of the text, or a lexical
    /// error.
    ///
    /// The lexer then stands behind the token, at the end of the text, or at
    /// the error.
    pub fn next_token(&mut self) -> (r: Result<Token, LexError>)
        requires
            old(self).wf(),
        ensures
            final(self).wf(),
            final(self).chars() == old(self).chars(),
            final(self).source() == old(self).source(),
            r == step_at(old(self).source(), old(self).chars(), old(self).offset()).0,
            final(self).offset() == step_at(
                old(self).source(),
                old(self).chars(),
                old(self).offset(),
            ).1,
    {
        let n = self.text.len();
        loop
            invariant
                self.wf(),
                self.text == old(self).text,
                self.source == old(self).source,
                n == self.text@.len(),
                scan(self.text@, self.offset as int) == scan(
                    old(self).text@,
                    old(self).offset as int,
                ),
            decreases n - self.offset,
        {
            let pos = self.offset;
            if pos >= n {
                return Ok(
                    Token {
                        kind: TokenKind::End,
                        start: pos,
                        end: pos,
                        line: self.line,
                        column: self.column,
                    },
                );
            }
            let c = self.text[pos];
            let here = Location {
                source: self.source,
                offset: pos,
                line: self.line,
                column: self.column,
            };
            if space_char(c) {
                self.advance_to(pos + 1);
            } else if c == '/' && pos + 1 < n && self.text[pos + 1] == '/' {
                let end = find_line_end(self.text, pos + 2);
                let doc = pos + 2 < n && self.text[pos + 2] == '/' && !(pos + 3 < n
                    && self.text[pos + 3] == '/');
                let line = self.line;
                let column = self.column;
                self.advance_to(end);
                if doc {
                    return Ok(Token { kind: TokenKind::Comment, start: pos, end, line, column });
                }
            } else if c == '/' && pos + 1 < n && self.text[pos + 1] == '*' {
                match find_comment_close(self.text, pos + 2) {
                    Some(end) => {
                        self.advance_to(end);
                    },
                    None => {
                        return Err(
                            LexError {
                                kind: LexErrorKind::UnterminatedComment,
                                location: here,
                                found: None,
                            },
                        );
                    },
                }
            } else if ident_start_char(c) {
                let end = find_ident_end(self.text, pos + 1);
                let kind = classify_word(self.text, pos, end);
                let line = self.line;
                let column = self.column;
                self.advance_to(end);
                return Ok(Token { kind, start: pos, end, line, column });
            } else if digit_char(c) {
                let end = find_digits_end(self.text, pos + 1);
                let line = self.line;
                let column = self.column;
                self.advance_to(end);
                return Ok(Token { kind: TokenKind::Integer, start: pos, end, line, column });
            } else if c == '"' {
                match find_string_close(self.text, pos + 1) {
                    Some(end) => {
                        let line = self.line;
                        let column = self.column;
                        self.advance_to(end);
                        return Ok(Token { kind: TokenKind::Str, start: pos, end, line, column });
                    },
                    None => {
                        return Err(
                            LexError {
                                kind: LexErrorKind::UnterminatedString,
                                location: here,
                                found: None,
                            },
                        );
                    },
                }
            } else if c == '-' && pos + 1 < n && self.text[pos + 1] == '>' {
                let line = self.line;
                let column = self.column;
                self.advance_to(pos + 2);
                return Ok(
                    Token {
                        kind: TokenKind::Punct(Punct::Arrow),
                        start: pos,
                        end: pos + 2,
                        line,
                        column,
                    },
                );
            } else {
                match classify_punct(c) {
                    Some(p) => {
                        let line = self.line;
                        let column = self.column;
                        self.advance_to(pos + 1);
                        return Ok(
                            Token {
                                kind: TokenKind::Punct(p),
                                start: pos,
                                end: pos + 1,
                                line,
                                column,
                            },
                        );
                    },
                    None => {
                        return Err(
                            LexError {
                                kind: LexErrorKind::UnexpectedCharacter,
                                location: here,
                                found: Some(c),
                            },
                        );
                    },
                }
            }
        }
    }
}

/// Whether `tokens` is shaped as the lexer shapes its output for `text`:
/// the end marker is there, once and last, and every token spans characters of
/// the text.
pub open spec fn tokens_wf(text: Seq<char>, tokens: Seq<Token>) -> bool {
    &&& tokens.len() > 0
    &&& forall|i: int|
        0 <= i < tokens.len() ==> ((#[trigger] tokens[i]).kind == TokenKind::End <==> i
            == tokens.len() - 1)
    &&& forall|i: int|
        0 <= i < tokens.len() ==> (#[trigger] tokens[i]).start <= tokens[i].end <= text.len()
}

/// What the lexer yields is shaped as `tokens_wf` says.
pub proof fn lemma_tokens_wf(source: usize, text: Seq<char>, pos: int)
    requires
        0 <= pos <= text.len(),
        text.len() <= usize::MAX,
    ensures
        tokens_from(source, text, pos) matches Ok(tokens) ==> tokens_wf(text, tokens),
    decreases text.len() - pos,
{
    match scan(text, pos) {
        Scan::Token { kind, start, end } => {
            lemma_scan_bounds(text, pos);
            lemma_scan_kind(text, pos);
            lemma_tokens_wf(source, text, end);
            if let Ok(rest) = tokens_from(source, text, end) {
                let first = token_at(text, kind, start, end);
                let tokens = seq![first] + rest;
                assert forall|i: int| 0 <= i < tokens.len() implies ((#[trigger] tokens[i]).kind
                    == TokenKind::End <==> i == tokens.len() - 1) && tokens[i].start
                    <= tokens[i].end <= text.len() by {
                    if i > 0 {
                        assert(tokens[i] == rest[i - 1]);
                    }
                }
            }
        },
        _ => {},
    }
}

/// A scanned token is never the end marker.
pub proof fn lemma_scan_kind(text: Seq<char>, pos: int)
    requires
        0 <= pos <= text.len(),
    ensures
        scan(text, pos) matches Scan::Token { kind, .. } ==> kind != TokenKind::End,
    decreases text.len() - pos,
{
    if pos < text.len() {
        let c = text[pos];
        if is_space(c) {
            lemma_scan_kind(text, pos + 1);
        } else if c == '/' && pos + 1 < text.len() && text[pos + 1] == '/' {
            lemma_line_end_bounds(text, pos + 2);
            if !doc_comment_at(text, pos) {
                lemma_scan_kind(text, line_end(text, pos + 2));
            }
        } else if c == '/' && pos + 1 < text.len() && text[pos + 1] == '*' {
            lemma_comment_close_bounds(text, pos + 2);
            if let Some(end) = comment_close(text, pos + 2) {
                lemma_scan_kind(text, end);
            }
        }
    }
}

/// Lexes a whole text, which is source number `source`.
pub fn tokenize(source: usize, text: &Vec<char>) -> (r: Result<Vec<Token>, LexError>)
    ensures
        viewed(r) == tokens_of(source, text@),
        r matches Ok(tokens) ==> tokens_wf(text@, tokens@),
{
    let mut lexer = Lexer::new(source, text);
    let mut tokens: Vec<Token> = Vec::new();
    proof {
        assert(text@.len() == text.len());
        lemma_tokens_wf(source, text@, 0);
    }
    loop
        invariant
            lexer.wf(),
            lexer.chars() == text@,
            lexer.source() == source,
            0 <= lexer.offset() <= text@.len(),
            tokens_of(source, text@) matches Ok(all) ==> tokens_wf(text@, all),
            tokens_of(source, text@) == continued(
                tokens@,
                tokens_from(source, text@, lexer.offset()),
            ),
        decreases text@.len() - lexer.offset(),
    {
        let ghost pos = lexer.offset();
        proof {
            lemma_scan_bounds(text@, pos);
            lemma_scan_kind(text@, pos);
        }
        match lexer.next_token() {
            Ok(token) => {
                proof {
                    let rest = tokens_from(source, text@, lexer.offset());
                    if let Ok(more) = rest {
                        assert(tokens@ + (seq![token] + more) =~= tokens@.push(token) + more);
                    }
                    assert(tokens@ + seq![token] =~= tokens@.push(token));
                }
                tokens.push(token);
                if token.kind == TokenKind::End {
                    return Ok(tokens);
                }
            },
            Err(e) => {
                return Err(e);
            },
        }
    }
}

} // verus!
