//! Tokens and source locations.

use vstd::prelude::*;
use crate::text::{column_of, line_of};

verus! {

/// The reserved words of the language.
#[derive(Clone, Copy, Debug, PartialEq, Eq, Structural)]
pub enum Keyword {
    Module,
    Use,
    Typename,
    Record,
    Variant,
    Interface,
    Func,
}

/// The punctuation marks of the language.
#[derive(Clone, Copy, Debug, PartialEq, Eq, Structural)]
pub enum Punct {
    LeftBrace,
    RightBrace,
    LeftParen,
    RightParen,
    LeftAngle,
    RightAngle,
    Colon,
    Comma,
    Equals,
    Dot,
    Arrow,
}

/// What a token is.
#[derive(Clone, Copy, Debug, PartialEq, Eq, Structural)]
pub enum TokenKind {
    Identifier,
    Keyword(Keyword),
    Punct(Punct),
    /// A string literal, quotes included.
    Str,
    /// A run of decimal digits.
    Integer,
    /// A documentation comment: `///` up to the end of its line.
    Comment,
    /// The end of the text: the last token of every token sequence.
    End,
}

/// A place in one of the sources handed to the loader.
///
/// `source` is the index of the source among the inputs, `offset` counts
/// characters from the start of its text, and `line` and `column` are
/// zero-based.
#[derive(Clone, Copy, Debug, PartialEq, Eq, Structural)]
pub struct Location {
    pub source: usize,
    pub offset: usize,
    pub line: usize,
    pub column: usize,
}

/// A token: its kind, the span `start..end` of its characters, and the line
/// and column of its first character.
#[derive(Clone, Copy, Debug, PartialEq, Eq, Structural)]
pub struct Token {
    pub kind: TokenKind,
    pub start: usize,
    pub end: usize,
    pub line: usize,
    pub column: usize,
}

/// The location of `offset` in the text of source number `source`.
pub open spec fn location_at(source: usize, text: Seq<char>, offset: int) -> Location {
    Location {
        source,
        offset: offset as usize,
        line: line_of(text, offset) as usize,
        column: column_of(text, offset) as usize,
    }
}

/// The token of the given kind that spans `start..end` of `text`.
pub open spec fn token_at(text: Seq<char>, kind: TokenKind, start: int, end: int) -> Token {
    Token {
        kind,
        start: start as usize,
        end: end as usize,
        line: line_of(text, start) as usize,
        column: column_of(text, start) as usize,
    }
}

impl Keyword {
    /// How the keyword is spelled.
    pub open spec fn text(self) -> Seq<char> {
        match self {
            Keyword::Module => "module"@,
            Keyword::Use => "use"@,
            Keyword::Typename => "typename"@,
            Keyword::Record => "record"@,
            Keyword::Variant => "variant"@,
            Keyword::Interface => "interface"@,
            Keyword::Func => "func"@,
        }
    }

    /// How the keyword is spelled.
    pub fn as_str(self) -> (s: &'static str)
        ensures
            s@ == self.text(),
    {
        match self {
            Keyword::Module => "module",
            Keyword::Use => "use",
            Keyword::Typename => "typename",
            Keyword::Record => "record",
            Keyword::Variant => "variant",
            Keyword::Interface => "interface",
            Keyword::Func => "func",
        }
    }
}

impl Punct {
    /// How the mark is written.
    pub open spec fn text(self) -> Seq<char> {
        match self {
            Punct::LeftBrace => "{"@,
            Punct::RightBrace => "}"@,
            Punct::LeftParen => "("@,
            Punct::RightParen => ")"@,
            Punct::LeftAngle => "<"@,
            Punct::RightAngle => ">"@,
            Punct::Colon => ":"@,
            Punct::Comma => ","@,
            Punct::Equals => "="@,
            Punct::Dot => "."@,
            Punct::Arrow => "->"@,
        }
    }

    /// How the mark is written.
    pub fn as_str(self) -> (s: &'static str)
        ensures
            s@ == self.text(),
    {
        match self {
            Punct::LeftBrace => "{",
            Punct::RightBrace => "}",
            Punct::LeftParen => "(",
            Punct::RightParen => ")",
            Punct::LeftAngle => "<",
            Punct::RightAngle => ">",
            Punct::Colon => ":",
            Punct::Comma => ",",
            Punct::Equals => "=",
            Punct::Dot => ".",
            Punct::Arrow => "->",
        }
    }
}

impl Token {
    /// The token's characters.
    pub open spec fn text(self, text: Seq<char>) -> Seq<char> {
        text.subrange(self.start as int, self.end as int)
    }

    /// Where the token begins, in source number `source`.
    pub open spec fn location(self, source: usize) -> Location {
        Location { source, offset: self.start, line: self.line, column: self.column }
    }

    /// Where the token begins, in source number `source`.
    pub fn location_in(&self, source: usize) -> (l: Location)
        ensures
            l == self.location(source),
    {
        Location { source, offset: self.start, line: self.line, column: self.column }
    }
}

} // verus!
