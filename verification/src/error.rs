//! What can go wrong in a load.

use vstd::prelude::*;
use vstd::string::StringExecFns;
use crate::lexer::{LexError, LexErrorKind};
use crate::model::{Class, Role};
use crate::parser::{SyntaxError};
use crate::text::push_char;
use crate::token::TokenKind;
use crate::syntax::{opt_view, views};
use crate::token::Location;

verus! {

/// The ways in which a load fails.
#[derive(Debug)]
pub enum ErrorKind {
    /// A source holds text that forms no token.
    Lex(LexError),
    /// A source breaks the grammar.
    Syntax(SyntaxError),
    /// Two definitions share the qualified name `name`.
    DuplicateDefinition { name: String, first: Location, second: Location },
    /// `name`, as written at `location`, refers to nothing.
    UndefinedName { name: String, location: Location },
    /// The modules or definitions named in `path` lead back to the first of
    /// them: each imports, or holds in place, the next, and the last the first.
    CyclicDefinition { path: Vec<String> },
    /// `name`, referred to at `location`, is a `found` where a `expected`
    /// must stand.
    TypeMismatch { name: String, location: Location, expected: Role, found: Class },
}

/// An `ErrorKind` as values.
pub enum ErrorKindView {
    Lex(LexError),
    Syntax(SyntaxError),
    DuplicateDefinition { name: Seq<char>, first: Location, second: Location },
    UndefinedName { name: Seq<char>, location: Location },
    CyclicDefinition { path: Seq<Seq<char>> },
    TypeMismatch { name: Seq<char>, location: Location, expected: Role, found: Class },
}

impl View for ErrorKind {
    type V = ErrorKindView;

    open spec fn view(&self) -> ErrorKindView {
        match *self {
            ErrorKind::Lex(e) => ErrorKindView::Lex(e),
            ErrorKind::Syntax(e) => ErrorKindView::Syntax(e),
            ErrorKind::DuplicateDefinition { name, first, second } => {
                ErrorKindView::DuplicateDefinition { name: name@, first, second }
            },
            ErrorKind::UndefinedName { name, location } => ErrorKindView::UndefinedName {
                name: name@,
                location,
            },
            ErrorKind::CyclicDefinition { path } => ErrorKindView::CyclicDefinition {
                path: views(path@),
            },
            ErrorKind::TypeMismatch { name, location, expected, found } => {
                ErrorKindView::TypeMismatch { name: name@, location, expected, found }
            },
        }
    }
}

/// A result with both its values replaced by their views.
pub open spec fn outcome<T: View>(r: Result<T, ErrorKind>) -> Result<T::V, ErrorKindView> {
    match r {
        Ok(v) => Ok(v@),
        Err(e) => Err(e@),
    }
}

/// A result with its error replaced by its view, and the elements of its
/// vector by theirs.
pub open spec fn outcome_list<T: View>(r: Result<Vec<T>, ErrorKind>) -> Result<
    Seq<T::V>,
    ErrorKindView,
> {
    match r {
        Ok(v) => Ok(views(v@)),
        Err(e) => Err(e@),
    }
}

/// A result with its error replaced by its view, and what its option holds
/// by its view.
pub open spec fn outcome_opt<T: View>(r: Result<Option<T>, ErrorKind>) -> Result<
    Option<T::V>,
    ErrorKindView,
> {
    match r {
        Ok(v) => Ok(opt_view(v)),
        Err(e) => Err(e@),
    }
}

/// A failed load: what went wrong, and the names of the sources that were
/// being loaded, by which a location's source is known.
#[derive(Debug)]
pub struct LoadError {
    pub kind: ErrorKind,
    pub sources: Vec<String>,
}

/// A `LoadError` as values.
pub struct LoadErrorView {
    pub kind: ErrorKindView,
    pub sources: Seq<Seq<char>>,
}

impl View for LoadError {
    type V = LoadErrorView;

    open spec fn view(&self) -> LoadErrorView {
        LoadErrorView { kind: self.kind@, sources: views(self.sources@) }
    }
}

/// The digit that stands for `d`.
pub open spec fn digit(d: int) -> char {
    if d == 0 {
        '0'
    } else if d == 1 {
        '1'
    } else if d == 2 {
        '2'
    } else if d == 3 {
        '3'
    } else if d == 4 {
        '4'
    } else if d == 5 {
        '5'
    } else if d == 6 {
        '6'
    } else if d == 7 {
        '7'
    } else if d == 8 {
        '8'
    } else {
        '9'
    }
}

/// `n` in decimal digits.
pub open spec fn decimal(n: nat) -> Seq<char>
    decreases n,
{
    if n < 10 {
        seq![digit(n as int)]
    } else {
        decimal(n / 10).push(digit((n % 10) as int))
    }
}

/// The name of source number `i`.
pub open spec fn source_name(sources: Seq<Seq<char>>, i: usize) -> Seq<char> {
    if i < sources.len() {
        sources[i as int]
    } else {
        "<unknown>"@
    }
}

/// A location as `source:line:column`, with lines and columns counted
/// from one.
pub open spec fn location_text(sources: Seq<Seq<char>>, l: Location) -> Seq<char> {
    source_name(sources, l.source).push(':') + decimal((l.line + 1) as nat).push(':') + decimal(
        (l.column + 1) as nat,
    )
}

/// What a kind of token is called.
pub open spec fn kind_name(kind: TokenKind) -> Seq<char> {
    match kind {
        TokenKind::Identifier => "a name"@,
        TokenKind::Keyword(k) => "`"@ + k.text() + "`"@,
        TokenKind::Punct(p) => "`"@ + p.text() + "`"@,
        TokenKind::Str => "a string"@,
        TokenKind::Integer => "a number"@,
        TokenKind::Comment => "a documentation comment"@,
        TokenKind::End => "the end of the text"@,
    }
}

/// What the first `n` of the kinds are called, with `or` between them.
pub open spec fn kinds_text(kinds: Seq<TokenKind>, n: int) -> Seq<char>
    decreases n,
{
    if n <= 0 {
        Seq::empty()
    } else if n == 1 {
        kind_name(kinds[0])
    } else {
        kinds_text(kinds, n - 1) + " or "@ + kind_name(kinds[n - 1])
    }
}

/// What a lexical error says.
pub open spec fn lex_message(e: LexError) -> Seq<char> {
    match e.kind {
        LexErrorKind::UnexpectedCharacter => match e.found {
            Some(c) => "unexpected character `"@.push(c).push('`'),
            None => "unexpected end of the text"@,
        },
        LexErrorKind::UnterminatedString => "string without an end"@,
        LexErrorKind::UnterminatedComment => "comment without an end"@,
    }
}

/// What a syntax error says.
pub open spec fn syntax_message(e: SyntaxError) -> Seq<char> {
    "found "@ + kind_name(e.found.kind) + ", expected "@ + kinds_text(
        e.expected.tokens(),
        e.expected.tokens().len() as int,
    )
}

/// What a class of name is called.
pub open spec fn class_text(class: Class) -> Seq<char> {
    match class {
        Class::Primitive => "a built-in type"@,
        Class::Constructor => "a type constructor"@,
        Class::TypeAlias => "a type alias"@,
        Class::Record => "a record"@,
        Class::Variant => "a variant"@,
        Class::Interface => "an interface"@,
    }
}

/// What a role is called.
pub open spec fn role_text(role: Role) -> Seq<char> {
    match role {
        Role::Constructor => "a type constructor"@,
        Role::Data => "a type of data"@,
    }
}

/// The first `n` names of a path, each with an arrow behind it.
pub open spec fn path_text(path: Seq<Seq<char>>, n: int) -> Seq<char>
    decreases n,
{
    if n <= 0 {
        Seq::empty()
    } else {
        path_text(path, n - 1) + path[n - 1] + " -> "@
    }
}

/// The name that a cycle starts from and leads back to; nothing for an
/// empty path.
pub open spec fn path_start(path: Seq<Seq<char>>) -> Seq<char> {
    if path.len() > 0 {
        path[0]
    } else {
        Seq::empty()
    }
}

/// The report of an error: where it is, for an error that has a place, and
/// what it is.
pub open spec fn report_text(e: LoadErrorView) -> Seq<char> {
    match e.kind {
        ErrorKindView::Lex(x) => location_text(e.sources, x.location) + ": "@ + lex_message(x),
        ErrorKindView::Syntax(x) => location_text(e.sources, x.location) + ": "@ + syntax_message(
            x,
        ),
        ErrorKindView::DuplicateDefinition { name, first, second } => location_text(
            e.sources,
            second,
        ) + ": duplicate definition of `"@ + name + "`, first defined at "@ + location_text(
            e.sources,
            first,
        ),
        ErrorKindView::UndefinedName { name, location } => location_text(e.sources, location)
            + ": undefined name `"@ + name + "`"@,
        ErrorKindView::CyclicDefinition { path } => "cyclic definition: "@ + path_text(
            path,
            path.len() as int,
        ) + path_start(path),
        ErrorKindView::TypeMismatch { name, location, expected, found } => location_text(
            e.sources,
            location,
        ) + ": `"@ + name + "` is "@ + class_text(found) + ", expected "@ + role_text(expected),
    }
}

fn digit_of(d: u128) -> (c: char)
    requires
        d < 10,
    ensures
        c == digit(d as int),
{
    if d == 0 {
        '0'
    } else if d == 1 {
        '1'
    } else if d == 2 {
        '2'
    } else if d == 3 {
        '3'
    } else if d == 4 {
        '4'
    } else if d == 5 {
        '5'
    } else if d == 6 {
        '6'
    } else if d == 7 {
        '7'
    } else if d == 8 {
        '8'
    } else {
        '9'
    }
}

/// Writes `n` in decimal digits.
pub fn write_decimal(out: &mut String, n: u128)
    ensures
        final(out)@ == old(out)@ + decimal(n as nat),
    decreases n,
{
    if n >= 10 {
        write_decimal(out, n / 10);
    }
    push_char(out, digit_of(n % 10));
    assert(out@ =~= old(out)@ + decimal(n as nat));
}

fn write_location(out: &mut String, sources: &Vec<String>, l: Location)
    ensures
        final(out)@ == old(out)@ + location_text(views(sources@), l),
{
    if l.source < sources.len() {
        out.append(sources[l.source].as_str());
    } else {
        out.append("<unknown>");
    }
    push_char(out, ':');
    write_decimal(out, l.line as u128 + 1);
    push_char(out, ':');
    write_decimal(out, l.column as u128 + 1);
    assert(out@ =~= old(out)@ + location_text(views(sources@), l));
}

fn write_kind(out: &mut String, kind: TokenKind)
    ensures
        final(out)@ == old(out)@ + kind_name(kind),
{
    match kind {
        TokenKind::Identifier => out.append("a name"),
        TokenKind::Keyword(k) => {
            out.append("`");
            out.append(k.as_str());
            out.append("`");
        },
        TokenKind::Punct(p) => {
            out.append("`");
            out.append(p.as_str());
            out.append("`");
        },
        TokenKind::Str => out.append("a string"),
        TokenKind::Integer => out.append("a number"),
        TokenKind::Comment => out.append("a documentation comment"),
        TokenKind::End => out.append("the end of the text"),
    }
    assert(out@ =~= old(out)@ + kind_name(kind));
}

fn write_kinds(out: &mut String, kinds: &Vec<TokenKind>)
    ensures
        final(out)@ == old(out)@ + kinds_text(kinds@, kinds@.len() as int),
{
    let mut k: usize = 0;
    assert(out@ =~= old(out)@ + kinds_text(kinds@, 0));
    while k < kinds.len()
        invariant
            k <= kinds@.len(),
            out@ == old(out)@ + kinds_text(kinds@, k as int),
        decreases kinds@.len() - k,
    {
        if k > 0 {
            out.append(" or ");
        }
        write_kind(out, kinds[k]);
        k += 1;
        assert(out@ =~= old(out)@ + kinds_text(kinds@, k as int));
    }
}

fn write_lex_message(out: &mut String, e: &LexError)
    ensures
        final(out)@ == old(out)@ + lex_message(*e),
{
    match e.kind {
        LexErrorKind::UnexpectedCharacter => match e.found {
            Some(c) => {
                out.append("unexpected character `");
                push_char(out, c);
                push_char(out, '`');
            },
            None => out.append("unexpected end of the text"),
        },
        LexErrorKind::UnterminatedString => out.append("string without an end"),
        LexErrorKind::UnterminatedComment => out.append("comment without an end"),
    }
    assert(out@ =~= old(out)@ + lex_message(*e));
}

fn write_syntax_message(out: &mut String, e: &SyntaxError)
    ensures
        final(out)@ == old(out)@ + syntax_message(*e),
{
    out.append("found ");
    write_kind(out, e.found.kind);
    out.append(", expected ");
    let kinds = e.expected.token_kinds();
    write_kinds(out, &kinds);
    assert(out@ =~= old(out)@ + syntax_message(*e));
}

fn write_class(out: &mut String, class: Class)
    ensures
        final(out)@ == old(out)@ + class_text(class),
{
    match class {
        Class::Primitive => out.append("a built-in type"),
        Class::Constructor => out.append("a type constructor"),
        Class::TypeAlias => out.append("a type alias"),
        Class::Record => out.append("a record"),
        Class::Variant => out.append("a variant"),
        Class::Interface => out.append("an interface"),
    }
}

fn write_role(out: &mut String, role: Role)
    ensures
        final(out)@ == old(out)@ + role_text(role),
{
    match role {
        Role::Constructor => out.append("a type constructor"),
        Role::Data => out.append("a type of data"),
    }
}

fn write_path(out: &mut String, path: &Vec<String>)
    ensures
        final(out)@ == old(out)@ + path_text(views(path@), path@.len() as int) + path_start(
            views(path@),
        ),
{
    let mut k: usize = 0;
    assert(out@ =~= old(out)@ + path_text(views(path@), 0));
    while k < path.len()
        invariant
            k <= path@.len(),
            out@ == old(out)@ + path_text(views(path@), k as int),
        decreases path@.len() - k,
    {
        assert(views(path@)[k as int] == path@[k as int]@);
        out.append(path[k].as_str());
        out.append(" -> ");
        k += 1;
        assert(out@ =~= old(out)@ + path_text(views(path@), k as int));
    }
    if path.len() > 0 {
        assert(views(path@)[0] == path@[0]@);
        out.append(path[0].as_str());
    }
    assert(out@ =~= old(out)@ + path_text(views(path@), path@.len() as int) + path_start(
        views(path@),
    ));
}

impl LoadError {
    /// A report of the error for a person to read: where it is, for an
    /// error that has a place, and what it is.
    pub fn report(&self) -> (text: String)
        ensures
            text@ == report_text(self@),
    {
        let mut out = String::new();
        match &self.kind {
            ErrorKind::Lex(x) => {
                write_location(&mut out, &self.sources, x.location);
                out.append(": ");
                write_lex_message(&mut out, x);
            },
            ErrorKind::Syntax(x) => {
                write_location(&mut out, &self.sources, x.location);
                out.append(": ");
                write_syntax_message(&mut out, x);
            },
            ErrorKind::DuplicateDefinition { name, first, second } => {
                write_location(&mut out, &self.sources, *second);
                out.append(": duplicate definition of `");
                out.append(name.as_str());
                out.append("`, first defined at ");
                write_location(&mut out, &self.sources, *first);
            },
            ErrorKind::UndefinedName { name, location } => {
                write_location(&mut out, &self.sources, *location);
                out.append(": undefined name `");
                out.append(name.as_str());
                out.append("`");
            },
            ErrorKind::CyclicDefinition { path } => {
                out.append("cyclic definition: ");
                write_path(&mut out, path);
            },
            ErrorKind::TypeMismatch { name, location, expected, found } => {
                write_location(&mut out, &self.sources, *location);
                out.append(": `");
                out.append(name.as_str());
                out.append("` is ");
                write_class(&mut out, *found);
                out.append(", expected ");
                write_role(&mut out, *expected);
            },
        }
        assert(out@ =~= report_text(self@));
        out
    }
}

} // verus!
