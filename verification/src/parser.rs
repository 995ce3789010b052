//! The parser: from tokens to a syntax tree.
//!
//! The grammar, with `docs` for any run of documentation comments:
//!
//! ```text
//! file        = { docs declaration } docs END
//! declaration = "module" NAME | "use" NAME
//!             | "typename" NAME "=" type
//!             | "record" NAME "{" members "}"
//!             | "variant" NAME "{" members "}"
//!             | "interface" NAME "{" { docs function } "}"
//! function    = "func" NAME "(" members ")" [ "->" type ]
//! members     = [ member { "," member } [ "," ] ]
//! member      = NAME ":" type | NAME            (the bare form in a variant only)
//! type        = name [ "<" type ">" ]
//! name        = NAME [ "." NAME ]
//! ```
//!
//! The spec functions below are that grammar; the parser is proved to compute
//! them. The first unexpected token ends the parse.

use vstd::prelude::*;
use crate::lexer::tokens_wf;
use crate::syntax::{
    lemma_views_empty, lemma_views_push, opt_view, viewed, views, DeclKind, Declaration,
    DeclarationView, FunctionDecl, FunctionDeclView, Member, MemberView, NameRef, NameRefView,
    Span, SyntaxTree, SyntaxTreeView, TypeRef,
};
use crate::text::{append_range, push_char, string_of};
use crate::token::{Keyword, Location, Punct, Token, TokenKind};

verus! {

/// What the parser looked for where it found something else. Each stands for
/// a set of token kinds, listed by `tokens`.
#[derive(Clone, Copy, Debug, PartialEq, Eq, Structural)]
pub enum Expectation {
    /// The start of a declaration, a documentation comment or the end.
    Declaration,
    /// A name being declared.
    Name,
    /// The name of a type.
    Type,
    Equals,
    Colon,
    LeftBrace,
    LeftParen,
    RightAngle,
    /// A field or arm, or the closing brace.
    MemberOrBrace,
    /// A parameter, or the closing parenthesis.
    ParameterOrParen,
    /// A comma, or the closing brace.
    SeparatorOrBrace,
    /// A comma, or the closing parenthesis.
    SeparatorOrParen,
    /// Behind an arm's name: a colon, a comma, or the closing brace.
    ArmContinuation,
    /// A function, a documentation comment, or the closing brace.
    FunctionOrBrace,
    /// Behind a documentation comment in an interface: a function or more
    /// documentation.
    Function,
}

impl Expectation {
    /// The token kinds that would have been accepted.
    pub open spec fn tokens(self) -> Seq<TokenKind> {
        match self {
            Expectation::Declaration => seq![
                TokenKind::Keyword(Keyword::Module),
                TokenKind::Keyword(Keyword::Use),
                TokenKind::Keyword(Keyword::Typename),
                TokenKind::Keyword(Keyword::Record),
                TokenKind::Keyword(Keyword::Variant),
                TokenKind::Keyword(Keyword::Interface),
                TokenKind::Comment,
                TokenKind::End,
            ],
            Expectation::Name => seq![TokenKind::Identifier],
            Expectation::Type => seq![TokenKind::Identifier],
            Expectation::Equals => seq![TokenKind::Punct(Punct::Equals)],
            Expectation::Colon => seq![TokenKind::Punct(Punct::Colon)],
            Expectation::LeftBrace => seq![TokenKind::Punct(Punct::LeftBrace)],
            Expectation::LeftParen => seq![TokenKind::Punct(Punct::LeftParen)],
            Expectation::RightAngle => seq![TokenKind::Punct(Punct::RightAngle)],
            Expectation::MemberOrBrace => seq![
                TokenKind::Identifier,
                TokenKind::Punct(Punct::RightBrace),
            ],
            Expectation::ParameterOrParen => seq![
                TokenKind::Identifier,
                TokenKind::Punct(Punct::RightParen),
            ],
            Expectation::SeparatorOrBrace => seq![
                TokenKind::Punct(Punct::Comma),
                TokenKind::Punct(Punct::RightBrace),
            ],
            Expectation::SeparatorOrParen => seq![
                TokenKind::Punct(Punct::Comma),
                TokenKind::Punct(Punct::RightParen),
            ],
            Expectation::ArmContinuation => seq![
                TokenKind::Punct(Punct::Colon),
                TokenKind::Punct(Punct::Comma),
                TokenKind::Punct(Punct::RightBrace),
            ],
            Expectation::FunctionOrBrace => seq![
                TokenKind::Keyword(Keyword::Func),
                TokenKind::Comment,
                TokenKind::Punct(Punct::RightBrace),
            ],
            Expectation::Function => seq![TokenKind::Keyword(Keyword::Func), TokenKind::Comment],
        }
    }
}

/// A syntax error: what was expected, the token found instead, and where.
#[derive(Clone, Copy, Debug, PartialEq, Eq, Structural)]
pub struct SyntaxError {
    pub expected: Expectation,
    pub found: Token,
    pub location: Location,
}

/// What the parser reads: the tokens of source number `source` and the text
/// that they span.
pub struct Input {
    pub source: usize,
    pub text: Seq<char>,
    pub tokens: Seq<Token>,
}

/// The three lists of members that the grammar has.
#[derive(Clone, Copy, Debug, PartialEq, Eq, Structural)]
pub enum ListKind {
    Fields,
    Arms,
    Parameters,
}

impl ListKind {
    /// The token that closes the list.
    pub open spec fn close(self) -> TokenKind {
        match self {
            ListKind::Parameters => TokenKind::Punct(Punct::RightParen),
            _ => TokenKind::Punct(Punct::RightBrace),
        }
    }

    /// Whether every member of the list has a type.
    pub open spec fn typed(self) -> bool {
        self != ListKind::Arms
    }

    /// What is expected where a member may begin.
    pub open spec fn at_member(self) -> Expectation {
        match self {
            ListKind::Parameters => Expectation::ParameterOrParen,
            _ => Expectation::MemberOrBrace,
        }
    }

    /// What is expected behind a member, which has a type or not.
    pub open spec fn behind_member(self, has_type: bool) -> Expectation {
        match self {
            ListKind::Parameters => Expectation::SeparatorOrParen,
            ListKind::Fields => Expectation::SeparatorOrBrace,
            ListKind::Arms => if has_type {
                Expectation::SeparatorOrBrace
            } else {
                Expectation::ArmContinuation
            },
        }
    }
}

/// The kind of the token at `pos`; past the tokens, the end marker's.
pub open spec fn kind_at(inp: Input, pos: int) -> TokenKind {
    if 0 <= pos < inp.tokens.len() {
        inp.tokens[pos].kind
    } else {
        TokenKind::End
    }
}

/// The error of finding the token at `pos` where `expected` was looked for.
pub open spec fn unexpected(inp: Input, pos: int, expected: Expectation) -> SyntaxError {
    SyntaxError {
        expected,
        found: inp.tokens[pos],
        location: inp.tokens[pos].location(inp.source),
    }
}

/// An identifier at `pos`: its characters, and the position behind it.
pub open spec fn parse_ident(inp: Input, pos: int, expected: Expectation) -> Result<
    (Seq<char>, int),
    SyntaxError,
> {
    if kind_at(inp, pos) == TokenKind::Identifier {
        Ok((inp.tokens[pos].text(inp.text), pos + 1))
    } else {
        Err(unexpected(inp, pos, expected))
    }
}

/// A token of kind `kind` at `pos`: the position behind it.
pub open spec fn parse_token(
    inp: Input,
    pos: int,
    kind: TokenKind,
    expected: Expectation,
) -> Result<
    int,
    SyntaxError,
> {
    if kind_at(inp, pos) == kind {
        Ok(pos + 1)
    } else {
        Err(unexpected(inp, pos, expected))
    }
}

/// `name` or `module.name` at `pos`.
pub open spec fn parse_name_ref(inp: Input, pos: int) -> Result<(NameRefView, int), SyntaxError> {
    match parse_ident(inp, pos, Expectation::Type) {
        Err(e) => Err(e),
        Ok((first, p)) => if kind_at(inp, p) == TokenKind::Punct(Punct::Dot) {
            match parse_ident(inp, p + 1, Expectation::Name) {
                Err(e) => Err(e),
                Ok((second, q)) => Ok(
                    (
                        NameRefView {
                            module: Some(first),
                            name: second,
                            location: inp.tokens[pos].location(inp.source),
                        },
                        q,
                    ),
                ),
            }
        } else {
            Ok(
                (
                    NameRefView {
                        module: None,
                        name: first,
                        location: inp.tokens[pos].location(inp.source),
                    },
                    p,
                ),
            )
        },
    }
}

/// The names of a type at `pos`, each followed by `<` but the last, behind
/// the names in `acc`.
pub open spec fn parse_type_names(inp: Input, pos: int, acc: Seq<NameRefView>) -> Result<
    (Seq<NameRefView>, int),
    SyntaxError,
>
    decreases inp.tokens.len() - pos,
{
    match parse_name_ref(inp, pos) {
        Err(e) => Err(e),
        Ok((name, p)) => if kind_at(inp, p) == TokenKind::Punct(Punct::LeftAngle) {
            parse_type_names(inp, p + 1, acc.push(name))
        } else {
            Ok((acc.push(name), p))
        },
    }
}

/// `count` closing angle brackets at `pos`: the position behind them.
pub open spec fn parse_closers(inp: Input, pos: int, count: nat) -> Result<int, SyntaxError>
    decreases count,
{
    if count == 0 {
        Ok(pos)
    } else if kind_at(inp, pos) == TokenKind::Punct(Punct::RightAngle) {
        parse_closers(inp, pos + 1, (count - 1) as nat)
    } else {
        Err(unexpected(inp, pos, Expectation::RightAngle))
    }
}

/// A type at `pos`: its names, then one `>` for each `<`.
pub open spec fn parse_type(inp: Input, pos: int) -> Result<(Seq<NameRefView>, int), SyntaxError> {
    match parse_type_names(inp, pos, Seq::empty()) {
        Err(e) => Err(e),
        Ok((names, p)) => match parse_closers(inp, p, (names.len() - 1) as nat) {
            Err(e) => Err(e),
            Ok(q) => Ok((names, q)),
        },
    }
}

/// A member of a list of the given kind at `pos`.
pub open spec fn parse_member(inp: Input, pos: int, list: ListKind) -> Result<
    (MemberView, int),
    SyntaxError,
> {
    match parse_ident(inp, pos, list.at_member()) {
        Err(e) => Err(e),
        Ok((name, p)) => {
            let location = inp.tokens[pos].location(inp.source);
            if list.typed() || kind_at(inp, p) == TokenKind::Punct(Punct::Colon) {
                match parse_token(inp, p, TokenKind::Punct(Punct::Colon), Expectation::Colon) {
                    Err(e) => Err(e),
                    Ok(q) => match parse_type(inp, q) {
                        Err(e) => Err(e),
                        Ok((ty, r)) => Ok((MemberView { name, ty: Some(ty), location }, r)),
                    },
                }
            } else {
                Ok((MemberView { name, ty: None, location }, p))
            }
        },
    }
}

/// The names of a type take at least one token, and none behind the end.
pub proof fn lemma_type_names_advance(inp: Input, pos: int, acc: Seq<NameRefView>)
    ensures
        parse_type_names(inp, pos, acc) matches Ok((names, p)) ==> pos < p <= inp.tokens.len()
            && names.len() > 0,
    decreases inp.tokens.len() - pos,
{
    if let Ok((name, p)) = parse_name_ref(inp, pos) {
        if kind_at(inp, p) == TokenKind::Punct(Punct::LeftAngle) {
            lemma_type_names_advance(inp, p + 1, acc.push(name));
        }
    }
}

/// Closing brackets take no token behind the end.
pub proof fn lemma_closers_advance(inp: Input, pos: int, count: nat)
    ensures
        parse_closers(inp, pos, count) matches Ok(p) ==> pos <= p && (pos <= inp.tokens.len()
            ==> p <= inp.tokens.len()),
    decreases count,
{
    if count > 0 && kind_at(inp, pos) == TokenKind::Punct(Punct::RightAngle) {
        lemma_closers_advance(inp, pos + 1, (count - 1) as nat);
    }
}

/// A type takes at least one token, and none behind the end.
pub proof fn lemma_type_advances(inp: Input, pos: int)
    ensures
        parse_type(inp, pos) matches Ok((names, p)) ==> pos < p <= inp.tokens.len(),
{
    lemma_type_names_advance(inp, pos, Seq::empty());
    if let Ok((names, p)) = parse_type_names(inp, pos, Seq::empty()) {
        lemma_closers_advance(inp, p, (names.len() - 1) as nat);
    }
}

/// A member takes at least one token, and none behind the end.
pub proof fn lemma_member_advances(inp: Input, pos: int, list: ListKind)
    ensures
        parse_member(inp, pos, list) matches Ok((m, p)) ==> pos < p <= inp.tokens.len(),
{
    if let Ok((name, p)) = parse_ident(inp, pos, list.at_member()) {
        lemma_type_advances(inp, p + 1);
    }
}

/// The members of a list at `pos` up to and with the token that closes it,
/// behind the members in `acc`.
pub open spec fn parse_members(
    inp: Input,
    pos: int,
    list: ListKind,
    acc: Seq<MemberView>,
) -> Result<
    (Seq<MemberView>, int),
    SyntaxError,
>
    decreases inp.tokens.len() - pos,
{
    if kind_at(inp, pos) == list.close() {
        Ok((acc, pos + 1))
    } else {
        match parse_member(inp, pos, list) {
            Err(e) => Err(e),
            Ok((member, p)) => {
                proof {
                    lemma_member_advances(inp, pos, list);
                }
                if kind_at(inp, p) == TokenKind::Punct(Punct::Comma) {
                    parse_members(inp, p + 1, list, acc.push(member))
                } else if kind_at(inp, p) == list.close() {
                    Ok((acc.push(member), p + 1))
                } else {
                    Err(unexpected(inp, p, list.behind_member(member.ty is Some)))
                }
            },
        }
    }
}

/// The text of a documentation comment: what follows the three slashes,
/// without the one blank that may come first.
pub open spec fn doc_line(text: Seq<char>, token: Token) -> Seq<char> {
    let from = if token.start + 3 <= token.end {
        token.start + 3
    } else {
        token.end as int
    };
    let from = if from < token.end && text[from] == ' ' {
        from + 1
    } else {
        from
    };
    text.subrange(from, token.end as int)
}

/// The documentation in `acc` with one more line.
pub open spec fn doc_with(acc: Option<Seq<char>>, line: Seq<char>) -> Seq<char> {
    match acc {
        None => line,
        Some(doc) => doc.push('\n') + line,
    }
}

/// The documentation comments at `pos`, added line by line to `acc`, and
/// the position behind them.
pub open spec fn parse_docs(inp: Input, pos: int, acc: Option<Seq<char>>) -> (
    Option<Seq<char>>,
    int,
)
    decreases inp.tokens.len() - pos,
{
    if kind_at(inp, pos) == TokenKind::Comment {
        parse_docs(inp, pos + 1, Some(doc_with(acc, doc_line(inp.text, inp.tokens[pos]))))
    } else {
        (acc, pos)
    }
}

/// Documentation comments take no token behind the end.
pub proof fn lemma_docs_advance(inp: Input, pos: int, acc: Option<Seq<char>>)
    ensures
        pos <= parse_docs(inp, pos, acc).1,
        pos <= inp.tokens.len() ==> parse_docs(inp, pos, acc).1 <= inp.tokens.len(),
    decreases inp.tokens.len() - pos,
{
    if kind_at(inp, pos) == TokenKind::Comment {
        lemma_docs_advance(inp, pos + 1, Some(doc_with(acc, doc_line(inp.text, inp.tokens[pos]))));
    }
}

/// A function at `pos`, documented by `doc`.
pub open spec fn parse_function(inp: Input, pos: int, doc: Option<Seq<char>>) -> Result<
    (FunctionDeclView, int),
    SyntaxError,
> {
    let expected = if doc is Some {
        Expectation::Function
    } else {
        Expectation::FunctionOrBrace
    };
    match parse_token(inp, pos, TokenKind::Keyword(Keyword::Func), expected) {
        Err(e) => Err(e),
        Ok(p) => match parse_ident(inp, p, Expectation::Name) {
            Err(e) => Err(e),
            Ok((name, q)) => match parse_token(
                inp,
                q,
                TokenKind::Punct(Punct::LeftParen),
                Expectation::LeftParen,
            ) {
                Err(e) => Err(e),
                Ok(r) => match parse_members(inp, r, ListKind::Parameters, Seq::empty()) {
                    Err(e) => Err(e),
                    Ok((params, s)) => {
                        let location = inp.tokens[p].location(inp.source);
                        if kind_at(inp, s) == TokenKind::Punct(Punct::Arrow) {
                            match parse_type(inp, s + 1) {
                                Err(e) => Err(e),
                                Ok((ty, t)) => Ok(
                                    (
                                        FunctionDeclView {
                                            name,
                                            params,
                                            result: Some(ty),
                                            doc,
                                            location,
                                        },
                                        t,
                                    ),
                                ),
                            }
                        } else {
                            Ok((FunctionDeclView { name, params, result: None, doc, location }, s))
                        }
                    },
                },
            },
        },
    }
}

/// A function takes at least one token, and none behind the end.
pub proof fn lemma_function_advances(inp: Input, pos: int, doc: Option<Seq<char>>)
    ensures
        parse_function(inp, pos, doc) matches Ok((f, p)) ==> pos < p <= inp.tokens.len(),
{
    lemma_members_advance(inp, pos + 3, ListKind::Parameters, Seq::empty());
    if let Ok((params, s)) = parse_members(inp, pos + 3, ListKind::Parameters, Seq::empty()) {
        lemma_type_advances(inp, s + 1);
    }
}

/// A list of members takes at least one token, and none behind the end.
pub proof fn lemma_members_advance(inp: Input, pos: int, list: ListKind, acc: Seq<MemberView>)
    ensures
        parse_members(inp, pos, list, acc) matches Ok((members, p)) ==> pos < p
            <= inp.tokens.len(),
    decreases inp.tokens.len() - pos,
{
    if kind_at(inp, pos) != list.close() {
        if let Ok((member, p)) = parse_member(inp, pos, list) {
            lemma_member_advances(inp, pos, list);
            if kind_at(inp, p) == TokenKind::Punct(Punct::Comma) {
                lemma_members_advance(inp, p + 1, list, acc.push(member));
            }
        }
    }
}

/// The functions of an interface at `pos` up to and with its closing brace,
/// behind the functions in `acc`.
pub open spec fn parse_functions(inp: Input, pos: int, acc: Seq<FunctionDeclView>) -> Result<
    (Seq<FunctionDeclView>, int),
    SyntaxError,
>
    decreases inp.tokens.len() - pos,
{
    let (doc, p) = parse_docs(inp, pos, None);
    if doc is None && kind_at(inp, p) == TokenKind::Punct(Punct::RightBrace) {
        Ok((acc, p + 1))
    } else {
        match parse_function(inp, p, doc) {
            Err(e) => Err(e),
            Ok((function, q)) => {
                proof {
                    lemma_docs_advance(inp, pos, None);
                    lemma_function_advances(inp, p, doc);
                }
                parse_functions(inp, q, acc.push(function))
            },
        }
    }
}

/// The functions of an interface take at least one token, and none behind
/// the end.
pub proof fn lemma_functions_advance(inp: Input, pos: int, acc: Seq<FunctionDeclView>)
    ensures
        parse_functions(inp, pos, acc) matches Ok((functions, p)) ==> pos < p
            <= inp.tokens.len(),
    decreases inp.tokens.len() - pos,
{
    let (doc, p) = parse_docs(inp, pos, None);
    lemma_docs_advance(inp, pos, None);
    if !(doc is None && kind_at(inp, p) == TokenKind::Punct(Punct::RightBrace)) {
        if let Ok((function, q)) = parse_function(inp, p, doc) {
            lemma_function_advances(inp, p, doc);
            lemma_functions_advance(inp, q, acc.push(function));
        }
    }
}

/// The kind of declaration that the token kind `kind` begins, if any.
pub open spec fn decl_kind_of(kind: TokenKind) -> Option<DeclKind> {
    match kind {
        TokenKind::Keyword(Keyword::Module) => Some(DeclKind::Module),
        TokenKind::Keyword(Keyword::Use) => Some(DeclKind::Use),
        TokenKind::Keyword(Keyword::Typename) => Some(DeclKind::Typename),
        TokenKind::Keyword(Keyword::Record) => Some(DeclKind::Record),
        TokenKind::Keyword(Keyword::Variant) => Some(DeclKind::Variant),
        TokenKind::Keyword(Keyword::Interface) => Some(DeclKind::Interface),
        _ => None,
    }
}

/// What follows the name of a declaration of the given kind, from `pos` on:
/// its target, members and functions.
pub open spec fn parse_body(inp: Input, pos: int, kind: DeclKind) -> Result<
    ((Option<Seq<NameRefView>>, Seq<MemberView>, Seq<FunctionDeclView>), int),
    SyntaxError,
> {
    match kind {
        DeclKind::Module | DeclKind::Use => Ok(((None, Seq::empty(), Seq::empty()), pos)),
        DeclKind::Typename => match parse_token(
            inp,
            pos,
            TokenKind::Punct(Punct::Equals),
            Expectation::Equals,
        ) {
            Err(e) => Err(e),
            Ok(p) => match parse_type(inp, p) {
                Err(e) => Err(e),
                Ok((ty, q)) => Ok(((Some(ty), Seq::empty(), Seq::empty()), q)),
            },
        },
        DeclKind::Record | DeclKind::Variant => match parse_token(
            inp,
            pos,
            TokenKind::Punct(Punct::LeftBrace),
            Expectation::LeftBrace,
        ) {
            Err(e) => Err(e),
            Ok(p) => match parse_members(
                inp,
                p,
                if kind == DeclKind::Record {
                    ListKind::Fields
                } else {
                    ListKind::Arms
                },
                Seq::empty(),
            ) {
                Err(e) => Err(e),
                Ok((members, q)) => Ok(((None, members, Seq::empty()), q)),
            },
        },
        DeclKind::Interface => match parse_token(
            inp,
            pos,
            TokenKind::Punct(Punct::LeftBrace),
            Expectation::LeftBrace,
        ) {
            Err(e) => Err(e),
            Ok(p) => match parse_functions(inp, p, Seq::empty()) {
                Err(e) => Err(e),
                Ok((functions, q)) => Ok(((None, Seq::empty(), functions), q)),
            },
        },
    }
}

/// A declaration at `pos`, documented by `doc`.
pub open spec fn parse_declaration(inp: Input, pos: int, doc: Option<Seq<char>>) -> Result<
    (DeclarationView, int),
    SyntaxError,
> {
    match decl_kind_of(kind_at(inp, pos)) {
        None => Err(unexpected(inp, pos, Expectation::Declaration)),
        Some(kind) => match parse_ident(inp, pos + 1, Expectation::Name) {
            Err(e) => Err(e),
            Ok((name, p)) => match parse_body(inp, p, kind) {
                Err(e) => Err(e),
                Ok(((target, members, functions), q)) => Ok(
                    (
                        DeclarationView {
                            kind,
                            span: Span { start: inp.tokens[pos].start, end: inp.tokens[q - 1].end },
                            name,
                            doc,
                            target,
                            members,
                            functions,
                            location: inp.tokens[pos + 1].location(inp.source),
                        },
                        q,
                    ),
                ),
            },
        },
    }
}

/// A declaration takes at least one token, and none behind the end.
pub proof fn lemma_declaration_advances(inp: Input, pos: int, doc: Option<Seq<char>>)
    ensures
        parse_declaration(inp, pos, doc) matches Ok((d, p)) ==> pos < p <= inp.tokens.len(),
{
    if let Some(kind) = decl_kind_of(kind_at(inp, pos)) {
        lemma_type_advances(inp, pos + 3);
        lemma_members_advance(inp, pos + 3, ListKind::Fields, Seq::empty());
        lemma_members_advance(inp, pos + 3, ListKind::Arms, Seq::empty());
        lemma_functions_advance(inp, pos + 3, Seq::empty());
    }
}

/// The declarations at `pos` up to the end marker, behind those in `acc`.
pub open spec fn parse_declarations(inp: Input, pos: int, acc: Seq<DeclarationView>) -> Result<
    SyntaxTreeView,
    SyntaxError,
>
    decreases inp.tokens.len() - pos,
{
    let (doc, p) = parse_docs(inp, pos, None);
    if kind_at(inp, p) == TokenKind::End {
        Ok(SyntaxTreeView { declarations: acc, trailing_doc: doc })
    } else {
        match parse_declaration(inp, p, doc) {
            Err(e) => Err(e),
            Ok((declaration, q)) => {
                proof {
                    lemma_docs_advance(inp, pos, None);
                    lemma_declaration_advances(inp, p, doc);
                }
                parse_declarations(inp, q, acc.push(declaration))
            },
        }
    }
}

/// The syntax tree of a whole source.
pub open spec fn parse_file(inp: Input) -> Result<SyntaxTreeView, SyntaxError> {
    parse_declarations(inp, 0, Seq::empty())
}

impl Expectation {
    /// The token kinds that would have been accepted.
    pub fn token_kinds(self) -> (kinds: Vec<TokenKind>)
        ensures
            kinds@ == self.tokens(),
    {
        let kinds = match self {
            Expectation::Declaration => vec![
                TokenKind::Keyword(Keyword::Module),
                TokenKind::Keyword(Keyword::Use),
                TokenKind::Keyword(Keyword::Typename),
                TokenKind::Keyword(Keyword::Record),
                TokenKind::Keyword(Keyword::Variant),
                TokenKind::Keyword(Keyword::Interface),
                TokenKind::Comment,
                TokenKind::End,
            ],
            Expectation::Name => vec![TokenKind::Identifier],
            Expectation::Type => vec![TokenKind::Identifier],
            Expectation::Equals => vec![TokenKind::Punct(Punct::Equals)],
            Expectation::Colon => vec![TokenKind::Punct(Punct::Colon)],
            Expectation::LeftBrace => vec![TokenKind::Punct(Punct::LeftBrace)],
            Expectation::LeftParen => vec![TokenKind::Punct(Punct::LeftParen)],
            Expectation::RightAngle => vec![TokenKind::Punct(Punct::RightAngle)],
            Expectation::MemberOrBrace => vec![
                TokenKind::Identifier,
                TokenKind::Punct(Punct::RightBrace),
            ],
            Expectation::ParameterOrParen => vec![
                TokenKind::Identifier,
                TokenKind::Punct(Punct::RightParen),
            ],
            Expectation::SeparatorOrBrace => vec![
                TokenKind::Punct(Punct::Comma),
                TokenKind::Punct(Punct::RightBrace),
            ],
            Expectation::SeparatorOrParen => vec![
                TokenKind::Punct(Punct::Comma),
                TokenKind::Punct(Punct::RightParen),
            ],
            Expectation::ArmContinuation => vec![
                TokenKind::Punct(Punct::Colon),
                TokenKind::Punct(Punct::Comma),
                TokenKind::Punct(Punct::RightBrace),
            ],
            Expectation::FunctionOrBrace => vec![
                TokenKind::Keyword(Keyword::Func),
                TokenKind::Comment,
                TokenKind::Punct(Punct::RightBrace),
            ],
            Expectation::Function => vec![TokenKind::Keyword(Keyword::Func), TokenKind::Comment],
        };
        assert(kinds@ =~= self.tokens());
        kinds
    }
}

impl ListKind {
    fn close_token(self) -> (kind: TokenKind)
        ensures
            kind == self.close(),
    {
        match self {
            ListKind::Parameters => TokenKind::Punct(Punct::RightParen),
            _ => TokenKind::Punct(Punct::RightBrace),
        }
    }

    fn has_types(self) -> (b: bool)
        ensures
            b == self.typed(),
    {
        match self {
            ListKind::Arms => false,
            _ => true,
        }
    }

    fn expected_at_member(self) -> (e: Expectation)
        ensures
            e == self.at_member(),
    {
        match self {
            ListKind::Parameters => Expectation::ParameterOrParen,
            _ => Expectation::MemberOrBrace,
        }
    }

    fn expected_behind_member(self, has_type: bool) -> (e: Expectation)
        ensures
            e == self.behind_member(has_type),
    {
        match self {
            ListKind::Parameters => Expectation::SeparatorOrParen,
            ListKind::Fields => Expectation::SeparatorOrBrace,
            ListKind::Arms => if has_type {
                Expectation::SeparatorOrBrace
            } else {
                Expectation::ArmContinuation
            },
        }
    }
}

/// The kind of declaration that a token of kind `kind` begins, if any.
fn decl_kind(kind: TokenKind) -> (k: Option<DeclKind>)
    ensures
        k == decl_kind_of(kind),
{
    match kind {
        TokenKind::Keyword(Keyword::Module) => Some(DeclKind::Module),
        TokenKind::Keyword(Keyword::Use) => Some(DeclKind::Use),
        TokenKind::Keyword(Keyword::Typename) => Some(DeclKind::Typename),
        TokenKind::Keyword(Keyword::Record) => Some(DeclKind::Record),
        TokenKind::Keyword(Keyword::Variant) => Some(DeclKind::Variant),
        TokenKind::Keyword(Keyword::Interface) => Some(DeclKind::Interface),
        _ => None,
    }
}

/// Whether `r`, with the parser now at `end`, is what the grammar gives.
pub open spec fn parsed<T: View>(
    r: Result<T, SyntaxError>,
    end: int,
    expected: Result<(T::V, int), SyntaxError>,
) -> bool {
    match expected {
        Ok((value, p)) => r matches Ok(v) && v@ == value && end == p,
        Err(e) => r matches Err(f) && f == e,
    }
}

/// Whether the list `r`, with the parser now at `end`, is what the grammar
/// gives.
pub open spec fn parsed_list<T: View>(
    r: Result<Vec<T>, SyntaxError>,
    end: int,
    expected: Result<(Seq<T::V>, int), SyntaxError>,
) -> bool {
    match expected {
        Ok((value, p)) => r matches Ok(v) && views(v@) == value && end == p,
        Err(e) => r matches Err(f) && f == e,
    }
}

/// The state of a parse: the input and the position of the next token.
struct Parser<'a> {
    source: usize,
    text: &'a Vec<char>,
    tokens: &'a Vec<Token>,
    pos: usize,
}

impl<'a> Parser<'a> {
    spec fn input(&self) -> Input {
        Input { source: self.source, text: self.text@, tokens: self.tokens@ }
    }

    spec fn wf(&self) -> bool {
        &&& tokens_wf(self.text@, self.tokens@)
        &&& self.pos < self.tokens@.len()
    }

    /// The parser has moved on over the same input.
    spec fn follows(&self, before: &Self) -> bool {
        &&& self.wf()
        &&& self.input() == before.input()
    }

    fn kind(&self) -> (k: TokenKind)
        requires
            self.wf(),
        ensures
            k == kind_at(self.input(), self.pos as int),
    {
        self.tokens[self.pos].kind
    }

    fn here(&self) -> (l: Location)
        requires
            self.wf(),
        ensures
            l == self.tokens@[self.pos as int].location(self.source),
    {
        self.tokens[self.pos].location_in(self.source)
    }

    fn bump(&mut self)
        requires
            old(self).wf(),
            kind_at(old(self).input(), old(self).pos as int) != TokenKind::End,
        ensures
            final(self).follows(old(self)),
            final(self).pos == old(self).pos + 1,
    {
        assert(self.tokens@.len() == self.tokens.len());
        self.pos = self.pos + 1;
    }

    fn fail(&self, expected: Expectation) -> (e: SyntaxError)
        requires
            self.wf(),
        ensures
            e == unexpected(self.input(), self.pos as int, expected),
    {
        let found = self.tokens[self.pos];
        SyntaxError { expected, found, location: found.location_in(self.source) }
    }

    fn ident(&mut self, expected: Expectation) -> (r: Result<String, SyntaxError>)
        requires
            old(self).wf(),
        ensures
            final(self).follows(old(self)),
            parsed(
                r,
                final(self).pos as int,
                parse_ident(old(self).input(), old(self).pos as int, expected),
            ),
    {
        if self.kind() == TokenKind::Identifier {
            let token = self.tokens[self.pos];
            let name = string_of(self.text, token.start, token.end);
            self.bump();
            Ok(name)
        } else {
            Err(self.fail(expected))
        }
    }

    fn token(&mut self, kind: TokenKind, expected: Expectation) -> (r: Result<(), SyntaxError>)
        requires
            old(self).wf(),
            kind != TokenKind::End,
        ensures
            final(self).follows(old(self)),
            match parse_token(old(self).input(), old(self).pos as int, kind, expected) {
                Ok(p) => r is Ok && final(self).pos == p,
                Err(e) => r matches Err(f) && f == e,
            },
    {
        if self.kind() == kind {
            self.bump();
            Ok(())
        } else {
            Err(self.fail(expected))
        }
    }

    fn name_ref(&mut self) -> (r: Result<NameRef, SyntaxError>)
        requires
            old(self).wf(),
        ensures
            final(self).follows(old(self)),
            parsed(r, final(self).pos as int, parse_name_ref(old(self).input(), old(self).pos as int)),
    {
        let location = self.here();
        let first = match self.ident(Expectation::Type) {
            Ok(name) => name,
            Err(e) => {
                return Err(e);
            },
        };
        if self.kind() == TokenKind::Punct(Punct::Dot) {
            self.bump();
            match self.ident(Expectation::Name) {
                Ok(second) => Ok(NameRef { module: Some(first), name: second, location }),
                Err(e) => Err(e),
            }
        } else {
            Ok(NameRef { module: None, name: first, location })
        }
    }

    fn type_ref(&mut self) -> (r: Result<TypeRef, SyntaxError>)
        requires
            old(self).wf(),
        ensures
            final(self).follows(old(self)),
            parsed(r, final(self).pos as int, parse_type(old(self).input(), old(self).pos as int)),
    {
        let mut names: Vec<NameRef> = Vec::new();
        proof {
            lemma_views_empty::<NameRef>();
        }
        loop
            invariant_except_break
                self.follows(old(self)),
                parse_type_names(old(self).input(), old(self).pos as int, Seq::empty())
                    == parse_type_names(self.input(), self.pos as int, views(names@)),
            ensures
                self.follows(old(self)),
                names@.len() > 0,
                parse_type_names(old(self).input(), old(self).pos as int, Seq::empty()) == Ok::<
                    (Seq<NameRefView>, int),
                    SyntaxError,
                >((views(names@), self.pos as int)),
            decreases self.tokens@.len() - self.pos,
        {
            let name = match self.name_ref() {
                Ok(name) => name,
                Err(e) => {
                    return Err(e);
                },
            };
            proof {
                lemma_views_push(names@, name);
            }
            names.push(name);
            if self.kind() == TokenKind::Punct(Punct::LeftAngle) {
                self.bump();
            } else {
                break;
            }
        }
        let mut remaining: usize = names.len() - 1;
        let ghost start = self.pos as int;
        let ghost total = remaining as nat;
        while remaining > 0
            invariant
                self.follows(old(self)),
                total == views(names@).len() - 1,
                parse_type_names(old(self).input(), old(self).pos as int, Seq::empty()) == Ok::<
                    (Seq<NameRefView>, int),
                    SyntaxError,
                >((views(names@), start)),
                parse_closers(self.input(), start, total) == parse_closers(
                    self.input(),
                    self.pos as int,
                    remaining as nat,
                ),
            decreases remaining,
        {
            match self.token(TokenKind::Punct(Punct::RightAngle), Expectation::RightAngle) {
                Ok(()) => {},
                Err(e) => {
                    return Err(e);
                },
            }
            remaining = remaining - 1;
        }
        Ok(TypeRef { names })
    }

    fn member(&mut self, list: ListKind) -> (r: Result<Member, SyntaxError>)
        requires
            old(self).wf(),
        ensures
            final(self).follows(old(self)),
            parsed(
                r,
                final(self).pos as int,
                parse_member(old(self).input(), old(self).pos as int, list),
            ),
    {
        let location = self.here();
        let name = match self.ident(list.expected_at_member()) {
            Ok(name) => name,
            Err(e) => {
                return Err(e);
            },
        };
        if list.has_types() || self.kind() == TokenKind::Punct(Punct::Colon) {
            match self.token(TokenKind::Punct(Punct::Colon), Expectation::Colon) {
                Ok(()) => {},
                Err(e) => {
                    return Err(e);
                },
            }
            match self.type_ref() {
                Ok(ty) => Ok(Member { name, ty: Some(ty), location }),
                Err(e) => Err(e),
            }
        } else {
            Ok(Member { name, ty: None, location })
        }
    }

    fn members(&mut self, list: ListKind) -> (r: Result<Vec<Member>, SyntaxError>)
        requires
            old(self).wf(),
        ensures
            final(self).follows(old(self)),
            parsed_list(
                r,
                final(self).pos as int,
                parse_members(old(self).input(), old(self).pos as int, list, Seq::empty()),
            ),
    {
        let mut acc: Vec<Member> = Vec::new();
        proof {
            lemma_views_empty::<Member>();
        }
        loop
            invariant
                self.follows(old(self)),
                parse_members(old(self).input(), old(self).pos as int, list, Seq::empty())
                    == parse_members(self.input(), self.pos as int, list, views(acc@)),
            decreases self.tokens@.len() - self.pos,
        {
            if self.kind() == list.close_token() {
                self.bump();
                return Ok(acc);
            }
            proof {
                lemma_member_advances(self.input(), self.pos as int, list);
            }
            let member = match self.member(list) {
                Ok(member) => member,
                Err(e) => {
                    return Err(e);
                },
            };
            proof {
                lemma_views_push(acc@, member);
            }
            let has_type = member.ty.is_some();
            acc.push(member);
            if self.kind() == TokenKind::Punct(Punct::Comma) {
                self.bump();
            } else if self.kind() == list.close_token() {
                self.bump();
                return Ok(acc);
            } else {
                return Err(self.fail(list.expected_behind_member(has_type)));
            }
        }
    }

    fn docs(&mut self) -> (doc: Option<String>)
        requires
            old(self).wf(),
        ensures
            final(self).follows(old(self)),
            (opt_view(doc), final(self).pos as int) == parse_docs(
                old(self).input(),
                old(self).pos as int,
                None,
            ),
    {
        let mut acc: Option<String> = None;
        loop
            invariant
                self.follows(old(self)),
                parse_docs(old(self).input(), old(self).pos as int, None) == parse_docs(
                    self.input(),
                    self.pos as int,
                    opt_view(acc),
                ),
            decreases self.tokens@.len() - self.pos,
        {
            if !(self.kind() == TokenKind::Comment) {
                return acc;
            }
            let token = self.tokens[self.pos];
            let mut from = if token.end - token.start >= 3 {
                token.start + 3
            } else {
                token.end
            };
            if from < token.end && self.text[from] == ' ' {
                from = from + 1;
            }
            let ghost before = opt_view(acc);
            let mut doc = match acc {
                Some(doc) => {
                    let mut doc = doc;
                    push_char(&mut doc, '\n');
                    doc
                },
                None => String::new(),
            };
            append_range(&mut doc, self.text, from, token.end);
            assert(doc@ =~= doc_with(before, doc_line(self.text@, token)));
            acc = Some(doc);
            self.bump();
        }
    }

    fn function(&mut self, doc: Option<String>) -> (r: Result<FunctionDecl, SyntaxError>)
        requires
            old(self).wf(),
        ensures
            final(self).follows(old(self)),
            parsed(
                r,
                final(self).pos as int,
                parse_function(old(self).input(), old(self).pos as int, opt_view(doc)),
            ),
    {
        let expected = if doc.is_some() {
            Expectation::Function
        } else {
            Expectation::FunctionOrBrace
        };
        match self.token(TokenKind::Keyword(Keyword::Func), expected) {
            Ok(()) => {},
            Err(e) => {
                return Err(e);
            },
        }
        let location = self.here();
        let name = match self.ident(Expectation::Name) {
            Ok(name) => name,
            Err(e) => {
                return Err(e);
            },
        };
        match self.token(TokenKind::Punct(Punct::LeftParen), Expectation::LeftParen) {
            Ok(()) => {},
            Err(e) => {
                return Err(e);
            },
        }
        let params = match self.members(ListKind::Parameters) {
            Ok(params) => params,
            Err(e) => {
                return Err(e);
            },
        };
        if self.kind() == TokenKind::Punct(Punct::Arrow) {
            self.bump();
            match self.type_ref() {
                Ok(ty) => Ok(FunctionDecl { name, params, result: Some(ty), doc, location }),
                Err(e) => Err(e),
            }
        } else {
            Ok(FunctionDecl { name, params, result: None, doc, location })
        }
    }

    fn functions(&mut self) -> (r: Result<Vec<FunctionDecl>, SyntaxError>)
        requires
            old(self).wf(),
        ensures
            final(self).follows(old(self)),
            parsed_list(
                r,
                final(self).pos as int,
                parse_functions(old(self).input(), old(self).pos as int, Seq::empty()),
            ),
    {
        let mut acc: Vec<FunctionDecl> = Vec::new();
        proof {
            lemma_views_empty::<FunctionDecl>();
        }
        loop
            invariant
                self.follows(old(self)),
                parse_functions(old(self).input(), old(self).pos as int, Seq::empty())
                    == parse_functions(self.input(), self.pos as int, views(acc@)),
            decreases self.tokens@.len() - self.pos,
        {
            proof {
                lemma_docs_advance(self.input(), self.pos as int, None);
            }
            let doc = self.docs();
            if doc.is_none() && self.kind() == TokenKind::Punct(Punct::RightBrace) {
                self.bump();
                return Ok(acc);
            }
            proof {
                lemma_function_advances(self.input(), self.pos as int, opt_view(doc));
            }
            let function = match self.function(doc) {
                Ok(function) => function,
                Err(e) => {
                    return Err(e);
                },
            };
            proof {
                lemma_views_push(acc@, function);
            }
            acc.push(function);
        }
    }

    fn body(&mut self, kind: DeclKind) -> (r: Result<
        (Option<TypeRef>, Vec<Member>, Vec<FunctionDecl>),
        SyntaxError,
    >)
        requires
            old(self).wf(),
        ensures
            final(self).follows(old(self)),
            match parse_body(old(self).input(), old(self).pos as int, kind) {
                Ok(((target, members, functions), p)) => r matches Ok(v) && opt_view(v.0) == target
                    && views(v.1@) == members && views(v.2@) == functions && final(self).pos == p,
                Err(e) => r matches Err(f) && f == e,
            },
    {
        proof {
            lemma_views_empty::<Member>();
            lemma_views_empty::<FunctionDecl>();
        }
        match kind {
            DeclKind::Module | DeclKind::Use => Ok((None, Vec::new(), Vec::new())),
            DeclKind::Typename => {
                match self.token(TokenKind::Punct(Punct::Equals), Expectation::Equals) {
                    Ok(()) => {},
                    Err(e) => {
                        return Err(e);
                    },
                }
                match self.type_ref() {
                    Ok(ty) => Ok((Some(ty), Vec::new(), Vec::new())),
                    Err(e) => Err(e),
                }
            },
            DeclKind::Record | DeclKind::Variant => {
                match self.token(TokenKind::Punct(Punct::LeftBrace), Expectation::LeftBrace) {
                    Ok(()) => {},
                    Err(e) => {
                        return Err(e);
                    },
                }
                let list = match kind {
                    DeclKind::Record => ListKind::Fields,
                    _ => ListKind::Arms,
                };
                match self.members(list) {
                    Ok(members) => Ok((None, members, Vec::new())),
                    Err(e) => Err(e),
                }
            },
            DeclKind::Interface => {
                match self.token(TokenKind::Punct(Punct::LeftBrace), Expectation::LeftBrace) {
                    Ok(()) => {},
                    Err(e) => {
                        return Err(e);
                    },
                }
                match self.functions() {
                    Ok(functions) => Ok((None, Vec::new(), functions)),
                    Err(e) => Err(e),
                }
            },
        }
    }

    fn declaration(&mut self, doc: Option<String>) -> (r: Result<Declaration, SyntaxError>)
        requires
            old(self).wf(),
        ensures
            final(self).follows(old(self)),
            parsed(
                r,
                final(self).pos as int,
                parse_declaration(old(self).input(), old(self).pos as int, opt_view(doc)),
            ),
    {
        let kind = match decl_kind(self.kind()) {
            Some(kind) => kind,
            None => {
                return Err(self.fail(Expectation::Declaration));
            },
        };
        let start = self.tokens[self.pos].start;
        self.bump();
        let location = self.here();
        let name = match self.ident(Expectation::Name) {
            Ok(name) => name,
            Err(e) => {
                return Err(e);
            },
        };
        match self.body(kind) {
            Ok((target, members, functions)) => {
                proof {
                    lemma_declaration_advances(
                        old(self).input(),
                        old(self).pos as int,
                        opt_view(doc),
                    );
                }
                let end = self.tokens[self.pos - 1].end;
                Ok(
                    Declaration {
                        kind,
                        span: Span { start, end },
                        name,
                        doc,
                        target,
                        members,
                        functions,
                        location,
                    },
                )
            },
            Err(e) => Err(e),
        }
    }

    fn file(&mut self) -> (r: Result<SyntaxTree, SyntaxError>)
        requires
            old(self).wf(),
        ensures
            final(self).follows(old(self)),
            viewed(r) == parse_declarations(old(self).input(), old(self).pos as int, Seq::empty()),
    {
        let mut acc: Vec<Declaration> = Vec::new();
        proof {
            lemma_views_empty::<Declaration>();
        }
        loop
            invariant
                self.follows(old(self)),
                parse_declarations(old(self).input(), old(self).pos as int, Seq::empty())
                    == parse_declarations(self.input(), self.pos as int, views(acc@)),
            decreases self.tokens@.len() - self.pos,
        {
            proof {
                lemma_docs_advance(self.input(), self.pos as int, None);
            }
            let doc = self.docs();
            if self.kind() == TokenKind::End {
                return Ok(SyntaxTree { declarations: acc, trailing_doc: doc });
            }
            proof {
                lemma_declaration_advances(self.input(), self.pos as int, opt_view(doc));
            }
            let declaration = match self.declaration(doc) {
                Ok(declaration) => declaration,
                Err(e) => {
                    return Err(e);
                },
            };
            proof {
                lemma_views_push(acc@, declaration);
            }
            acc.push(declaration);
        }
    }
}

/// Parses the tokens of source number `source`, which span `text`.
pub fn parse(source: usize, text: &Vec<char>, tokens: &Vec<Token>) -> (r: Result<
    SyntaxTree,
    SyntaxError,
>)
    requires
        tokens_wf(text@, tokens@),
    ensures
        viewed(r) == parse_file(Input { source, text: text@, tokens: tokens@ }),
{
    let mut parser = Parser { source, text, tokens, pos: 0 };
    parser.file()
}

} // verus!
