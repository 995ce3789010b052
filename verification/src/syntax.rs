//! The syntax tree: what the parser makes of one source.
//!
//! Each type that owns strings or vectors has a view made of sequences, in
//! which the grammar and the loader's contracts are stated.

use vstd::prelude::*;
use crate::token::Location;

verus! {

/// The views of the elements of a sequence.
pub open spec fn views<T: View>(s: Seq<T>) -> Seq<T::V> {
    Seq::new(s.len(), |i: int| s[i]@)
}

/// The view of what an option holds.
pub open spec fn opt_view<T: View>(o: Option<T>) -> Option<T::V> {
    match o {
        Some(v) => Some(v@),
        None => None,
    }
}

/// A result with its success value replaced by that value's view.
pub open spec fn viewed<T: View, E>(r: Result<T, E>) -> Result<T::V, E> {
    match r {
        Ok(v) => Ok(v@),
        Err(e) => Err(e),
    }
}

/// The views of a sequence with one more element are the views of the
/// sequence with the view of the element.
pub proof fn lemma_views_push<T: View>(s: Seq<T>, x: T)
    ensures
        views(s.push(x)) == views(s).push(x@),
{
    assert(views(s.push(x)) =~= views(s).push(x@));
}

/// An empty sequence has no views.
pub proof fn lemma_views_empty<T: View>()
    ensures
        views(Seq::<T>::empty()) == Seq::<T::V>::empty(),
{
    assert(views(Seq::<T>::empty()) =~= Seq::<T::V>::empty());
}

/// A name as it is written where a type is expected: `name` or `module.name`.
#[derive(Debug)]
pub struct NameRef {
    pub module: Option<String>,
    pub name: String,
    pub location: Location,
}

/// A `NameRef` as values.
pub struct NameRefView {
    pub module: Option<Seq<char>>,
    pub name: Seq<char>,
    pub location: Location,
}

impl View for NameRef {
    type V = NameRefView;

    open spec fn view(&self) -> NameRefView {
        NameRefView { module: opt_view(self.module), name: self.name@, location: self.location }
    }
}

/// A type as it is written: a chain of names, each applied to the next, so
/// that `list<pointer<point>>` is the chain `list`, `pointer`, `point`.
#[derive(Debug)]
pub struct TypeRef {
    pub names: Vec<NameRef>,
}

impl View for TypeRef {
    type V = Seq<NameRefView>;

    open spec fn view(&self) -> Seq<NameRefView> {
        views(self.names@)
    }
}

/// A named member: a record's field, a variant's arm or a function's
/// parameter. Only an arm may go without a type.
#[derive(Debug)]
pub struct Member {
    pub name: String,
    pub ty: Option<TypeRef>,
    pub location: Location,
}

/// A `Member` as values.
pub struct MemberView {
    pub name: Seq<char>,
    pub ty: Option<Seq<NameRefView>>,
    pub location: Location,
}

impl View for Member {
    type V = MemberView;

    open spec fn view(&self) -> MemberView {
        MemberView { name: self.name@, ty: opt_view(self.ty), location: self.location }
    }
}

/// A function of an interface.
#[derive(Debug)]
pub struct FunctionDecl {
    pub name: String,
    pub params: Vec<Member>,
    pub result: Option<TypeRef>,
    pub doc: Option<String>,
    pub location: Location,
}

/// A `FunctionDecl` as values.
pub struct FunctionDeclView {
    pub name: Seq<char>,
    pub params: Seq<MemberView>,
    pub result: Option<Seq<NameRefView>>,
    pub doc: Option<Seq<char>>,
    pub location: Location,
}

impl View for FunctionDecl {
    type V = FunctionDeclView;

    open spec fn view(&self) -> FunctionDeclView {
        FunctionDeclView {
            name: self.name@,
            params: views(self.params@),
            result: opt_view(self.result),
            doc: opt_view(self.doc),
            location: self.location,
        }
    }
}

/// What a top-level declaration declares.
#[derive(Clone, Copy, Debug, PartialEq, Eq, Structural)]
pub enum DeclKind {
    /// `module name`: the declarations that follow belong to module `name`.
    Module,
    /// `use name`: the module at hand may refer to the names of module `name`.
    Use,
    /// `typename name = type`.
    Typename,
    /// `record name { field: type, .. }`.
    Record,
    /// `variant name { arm, arm: type, .. }`.
    Variant,
    /// `interface name { func .. }`.
    Interface,
}

impl DeclKind {
    /// Whether a declaration of this kind defines a name; `module` and `use`
    /// do not.
    pub open spec fn defines(self) -> bool {
        self != DeclKind::Module && self != DeclKind::Use
    }

    /// Whether a declaration of this kind defines a name.
    pub fn is_definition(self) -> (b: bool)
        ensures
            b == self.defines(),
    {
        match self {
            DeclKind::Module => false,
            DeclKind::Use => false,
            _ => true,
        }
    }
}

/// The characters `start..end` of a source.
#[derive(Clone, Copy, Debug, PartialEq, Eq, Structural)]
pub struct Span {
    pub start: usize,
    pub end: usize,
}

/// A node of the syntax tree: one top-level declaration with what it holds.
///
/// `span` reaches from the keyword to the last token of the declaration and
/// `location` is that of the declared name. A `typename` has a `target`, a
/// record or variant has `members`, an interface has `functions`.
#[derive(Debug)]
pub struct Declaration {
    pub kind: DeclKind,
    pub span: Span,
    pub name: String,
    pub doc: Option<String>,
    pub target: Option<TypeRef>,
    pub members: Vec<Member>,
    pub functions: Vec<FunctionDecl>,
    pub location: Location,
}

/// A `Declaration` as values.
pub struct DeclarationView {
    pub kind: DeclKind,
    pub span: Span,
    pub name: Seq<char>,
    pub doc: Option<Seq<char>>,
    pub target: Option<Seq<NameRefView>>,
    pub members: Seq<MemberView>,
    pub functions: Seq<FunctionDeclView>,
    pub location: Location,
}

impl View for Declaration {
    type V = DeclarationView;

    open spec fn view(&self) -> DeclarationView {
        DeclarationView {
            kind: self.kind,
            span: self.span,
            name: self.name@,
            doc: opt_view(self.doc),
            target: opt_view(self.target),
            members: views(self.members@),
            functions: views(self.functions@),
            location: self.location,
        }
    }
}

/// The syntax tree of one source: its declarations in source order, and the
/// documentation comment at its end that no declaration follows, if any.
#[derive(Debug)]
pub struct SyntaxTree {
    pub declarations: Vec<Declaration>,
    pub trailing_doc: Option<String>,
}

/// A `SyntaxTree` as values.
pub struct SyntaxTreeView {
    pub declarations: Seq<DeclarationView>,
    pub trailing_doc: Option<Seq<char>>,
}

impl View for SyntaxTree {
    type V = SyntaxTreeView;

    open spec fn view(&self) -> SyntaxTreeView {
        SyntaxTreeView {
            declarations: views(self.declarations@),
            trailing_doc: opt_view(self.trailing_doc),
        }
    }
}

} // verus!
