//! The document model: what a successful load yields.
//!
//! A document is an arena. Its definitions stand in declaration order, and a
//! reference to a definition is the index at which it stands, so that a
//! reference in a well-formed document is always good.

use vstd::prelude::*;
use crate::graph::acyclic;
use crate::index::NameIndex;
use crate::namespace::index_of;
use crate::syntax::{opt_view, views};
use crate::token::Location;

verus! {

/// The types that the language has built in.
#[derive(Clone, Copy, Debug, PartialEq, Eq, Structural)]
pub enum Primitive {
    U8,
    U16,
    U32,
    U64,
    S8,
    S16,
    S32,
    S64,
    Bool,
    Char,
    Text,
}

/// The type constructors that the language has built in. Each takes one
/// type. A `list` and a `pointer` hold their argument behind an indirection,
/// an `option` holds it in place.
#[derive(Clone, Copy, Debug, PartialEq, Eq, Structural)]
pub enum Constructor {
    List,
    Pointer,
    Option,
}

impl Primitive {
    /// How the type is written.
    pub open spec fn name(self) -> Seq<char> {
        match self {
            Primitive::U8 => "u8"@,
            Primitive::U16 => "u16"@,
            Primitive::U32 => "u32"@,
            Primitive::U64 => "u64"@,
            Primitive::S8 => "s8"@,
            Primitive::S16 => "s16"@,
            Primitive::S32 => "s32"@,
            Primitive::S64 => "s64"@,
            Primitive::Bool => "bool"@,
            Primitive::Char => "char"@,
            Primitive::Text => "string"@,
        }
    }

    /// How the type is written.
    pub fn as_str(self) -> (s: &'static str)
        ensures
            s@ == self.name(),
    {
        match self {
            Primitive::U8 => "u8",
            Primitive::U16 => "u16",
            Primitive::U32 => "u32",
            Primitive::U64 => "u64",
            Primitive::S8 => "s8",
            Primitive::S16 => "s16",
            Primitive::S32 => "s32",
            Primitive::S64 => "s64",
            Primitive::Bool => "bool",
            Primitive::Char => "char",
            Primitive::Text => "string",
        }
    }
}

impl Constructor {
    /// How the constructor is written.
    pub open spec fn name(self) -> Seq<char> {
        match self {
            Constructor::List => "list"@,
            Constructor::Pointer => "pointer"@,
            Constructor::Option => "option"@,
        }
    }

    /// How the constructor is written.
    pub fn as_str(self) -> (s: &'static str)
        ensures
            s@ == self.name(),
    {
        match self {
            Constructor::List => "list",
            Constructor::Pointer => "pointer",
            Constructor::Option => "option",
        }
    }
}

/// What a name in a type refers to.
#[derive(Clone, Copy, Debug, PartialEq, Eq, Structural)]
pub enum Target {
    Primitive(Primitive),
    Constructor(Constructor),
    /// The definition at this index of the document.
    Definition(usize),
}

/// A resolved name in a type: what it refers to, and where it was written.
#[derive(Clone, Copy, Debug, PartialEq, Eq, Structural)]
pub struct Reference {
    pub target: Target,
    pub location: Location,
}

/// A resolved type: a chain of references, each applied to the next, the
/// innermost last.
#[derive(Debug)]
pub struct Type {
    pub chain: Vec<Reference>,
}

impl View for Type {
    type V = Seq<Reference>;

    open spec fn view(&self) -> Seq<Reference> {
        self.chain@
    }
}

/// A record's field, a variant's arm or a function's parameter.
#[derive(Debug)]
pub struct Field {
    pub name: String,
    pub ty: Option<Type>,
}

/// A `Field` as values.
pub struct FieldView {
    pub name: Seq<char>,
    pub ty: Option<Seq<Reference>>,
}

impl View for Field {
    type V = FieldView;

    open spec fn view(&self) -> FieldView {
        FieldView { name: self.name@, ty: opt_view(self.ty) }
    }
}

/// A function of an interface.
#[derive(Debug)]
pub struct Function {
    pub name: String,
    pub params: Vec<Field>,
    pub result: Option<Type>,
    pub doc: Option<String>,
    pub location: Location,
}

/// A `Function` as values.
pub struct FunctionView {
    pub name: Seq<char>,
    pub params: Seq<FieldView>,
    pub result: Option<Seq<Reference>>,
    pub doc: Option<Seq<char>>,
    pub location: Location,
}

impl View for Function {
    type V = FunctionView;

    open spec fn view(&self) -> FunctionView {
        FunctionView {
            name: self.name@,
            params: views(self.params@),
            result: opt_view(self.result),
            doc: opt_view(self.doc),
            location: self.location,
        }
    }
}

/// The kinds of definition. The functions of an interface are definitions
/// too; the interface owns them.
#[derive(Clone, Copy, Debug, PartialEq, Eq, Structural)]
pub enum DefinitionKind {
    TypeAlias,
    Record,
    Variant,
    Interface,
}

/// A definition: a named type or interface.
///
/// `module` is the index of its module in the document and `qualified` its
/// qualified name. A type alias has a `target`, a record or variant has
/// `members`, an interface has `functions`.
#[derive(Debug)]
pub struct Definition {
    pub kind: DefinitionKind,
    pub module: usize,
    pub name: String,
    pub qualified: String,
    pub doc: Option<String>,
    pub target: Option<Type>,
    pub members: Vec<Field>,
    pub functions: Vec<Function>,
    pub location: Location,
}

/// A `Definition` as values.
pub struct DefinitionView {
    pub kind: DefinitionKind,
    pub module: usize,
    pub name: Seq<char>,
    pub qualified: Seq<char>,
    pub doc: Option<Seq<char>>,
    pub target: Option<Seq<Reference>>,
    pub members: Seq<FieldView>,
    pub functions: Seq<FunctionView>,
    pub location: Location,
}

impl View for Definition {
    type V = DefinitionView;

    open spec fn view(&self) -> DefinitionView {
        DefinitionView {
            kind: self.kind,
            module: self.module,
            name: self.name@,
            qualified: self.qualified@,
            doc: opt_view(self.doc),
            target: opt_view(self.target),
            members: views(self.members@),
            functions: views(self.functions@),
            location: self.location,
        }
    }
}

/// A module: its name, empty for the module that a source begins in, and
/// the indices of the modules that it imports.
#[derive(Debug)]
pub struct Module {
    pub name: String,
    pub imports: Vec<usize>,
}

/// A `Module` as values.
pub struct ModuleView {
    pub name: Seq<char>,
    pub imports: Seq<usize>,
}

impl View for Module {
    type V = ModuleView;

    open spec fn view(&self) -> ModuleView {
        ModuleView { name: self.name@, imports: self.imports@ }
    }
}

/// The name by which a definition is known in the whole document: its own
/// name in the module without a name, else the module's name, a dot and its
/// own name.
pub open spec fn qualified_name(module: Seq<char>, name: Seq<char>) -> Seq<char> {
    if module.len() == 0 {
        name
    } else {
        module.push('.') + name
    }
}

/// Whether the chain before its last reference holds no indirection from
/// position `k` on.
pub open spec fn direct_from(chain: Seq<Reference>, k: int) -> bool
    decreases chain.len() - k,
{
    if k < 0 || k >= chain.len() - 1 {
        true
    } else {
        chain[k].target != Target::Constructor(Constructor::List) && chain[k].target
            != Target::Constructor(Constructor::Pointer) && direct_from(chain, k + 1)
    }
}

/// The definition that a value of this type holds in place, if any: the one
/// that the chain ends in, unless a `list` or `pointer` stands before it.
pub open spec fn held(ty: Option<Seq<Reference>>) -> Option<usize> {
    match ty {
        Some(chain) => if chain.len() > 0 && direct_from(chain, 0) {
            match chain.last().target {
                Target::Definition(i) => Some(i),
                _ => None,
            }
        } else {
            None
        },
        None => None,
    }
}

/// `acc`, and behind it the definitions that the first `n` members hold in
/// place.
pub open spec fn held_by_members(members: Seq<FieldView>, n: int, acc: Seq<usize>) -> Seq<usize>
    decreases n,
{
    if n <= 0 {
        acc
    } else {
        let before = held_by_members(members, n - 1, acc);
        match held(members[n - 1].ty) {
            Some(i) => before.push(i),
            None => before,
        }
    }
}

/// The definitions that a value of the definition `d` holds in place.
pub open spec fn held_by(d: DefinitionView) -> Seq<usize> {
    let first = match held(d.target) {
        Some(i) => seq![i],
        None => Seq::empty(),
    };
    held_by_members(d.members, d.members.len() as int, first)
}

/// The graph in which each definition has an edge to each definition that
/// its values hold in place.
pub open spec fn containment(definitions: Seq<DefinitionView>) -> Seq<Seq<usize>> {
    Seq::new(definitions.len(), |i: int| held_by(definitions[i]))
}

/// The graph in which each module has an edge to each module it imports.
pub open spec fn dependencies(modules: Seq<ModuleView>) -> Seq<Seq<usize>> {
    Seq::new(modules.len(), |i: int| modules[i].imports)
}

/// What kind of thing a name in a type refers to.
#[derive(Clone, Copy, Debug, PartialEq, Eq, Structural)]
pub enum Class {
    Primitive,
    Constructor,
    TypeAlias,
    Record,
    Variant,
    Interface,
}

/// What a position in a type asks for: a constructor before the last
/// position, a type of data in the last.
#[derive(Clone, Copy, Debug, PartialEq, Eq, Structural)]
pub enum Role {
    Constructor,
    Data,
}

/// The class of what `target` refers to among `definitions`.
pub open spec fn class_of(definitions: Seq<DefinitionView>, target: Target) -> Class {
    match target {
        Target::Primitive(_) => Class::Primitive,
        Target::Constructor(_) => Class::Constructor,
        Target::Definition(i) => match definitions[i as int].kind {
            DefinitionKind::TypeAlias => Class::TypeAlias,
            DefinitionKind::Record => Class::Record,
            DefinitionKind::Variant => Class::Variant,
            DefinitionKind::Interface => Class::Interface,
        },
    }
}

/// The name by which `target` is known among `definitions`: a built-in
/// name, or a definition's qualified name.
pub open spec fn target_name(definitions: Seq<DefinitionView>, target: Target) -> Seq<char> {
    match target {
        Target::Primitive(p) => p.name(),
        Target::Constructor(c) => c.name(),
        Target::Definition(i) => definitions[i as int].qualified,
    }
}

/// What position `k` of a chain of `len` references asks for.
pub open spec fn role_at(len: int, k: int) -> Role {
    if k < len - 1 {
        Role::Constructor
    } else {
        Role::Data
    }
}

/// Whether a name of class `class` may stand where `role` is asked for.
pub open spec fn fits(class: Class, role: Role) -> bool {
    match role {
        Role::Constructor => class == Class::Constructor,
        Role::Data => class != Class::Constructor && class != Class::Interface,
    }
}

/// Every reference to a definition is the index of one.
pub open spec fn chain_linked(chain: Seq<Reference>, count: int) -> bool {
    forall|k: int|
        0 <= k < chain.len() ==> ((#[trigger] chain[k]).target matches Target::Definition(i) ==> i
            < count)
}

/// Every position of the chain holds what it asks for.
pub open spec fn chain_fits(definitions: Seq<DefinitionView>, chain: Seq<Reference>) -> bool {
    forall|k: int|
        0 <= k < chain.len() ==> fits(
            class_of(definitions, (#[trigger] chain[k]).target),
            role_at(chain.len() as int, k),
        )
}

/// Every reference to a definition, in a type that may be missing, is the
/// index of one.
pub open spec fn type_linked(ty: Option<Seq<Reference>>, count: int) -> bool {
    ty matches Some(chain) ==> chain_linked(chain, count)
}

/// Every reference to a definition in the types of the fields is the index
/// of one.
pub open spec fn fields_linked(fields: Seq<FieldView>, count: int) -> bool {
    forall|i: int| 0 <= i < fields.len() ==> type_linked((#[trigger] fields[i]).ty, count)
}

/// Every reference to a definition in the signature of `f` is the index of
/// one.
pub open spec fn function_linked(f: FunctionView, count: int) -> bool {
    &&& fields_linked(f.params, count)
    &&& type_linked(f.result, count)
}

/// Every reference to a definition in the signatures of the functions is
/// the index of one.
pub open spec fn functions_linked(functions: Seq<FunctionView>, count: int) -> bool {
    forall|i: int| 0 <= i < functions.len() ==> function_linked(#[trigger] functions[i], count)
}

/// Every reference to a definition in `d` is the index of one.
pub open spec fn definition_linked(d: DefinitionView, count: int) -> bool {
    &&& type_linked(d.target, count)
    &&& fields_linked(d.members, count)
    &&& functions_linked(d.functions, count)
}

/// Every reference to a definition in the definitions is the index of one.
pub open spec fn definitions_linked(definitions: Seq<DefinitionView>, count: int) -> bool {
    forall|i: int|
        0 <= i < definitions.len() ==> definition_linked(#[trigger] definitions[i], count)
}

/// Every position of a type that may be missing holds what it asks for.
pub open spec fn type_fits(definitions: Seq<DefinitionView>, ty: Option<Seq<Reference>>) -> bool {
    ty matches Some(chain) ==> chain_fits(definitions, chain)
}

/// Every type of the fields is well formed.
pub open spec fn fields_fit(definitions: Seq<DefinitionView>, fields: Seq<FieldView>) -> bool {
    forall|i: int| 0 <= i < fields.len() ==> type_fits(definitions, (#[trigger] fields[i]).ty)
}

/// Every type in the signature of `f` is well formed.
pub open spec fn function_fits(definitions: Seq<DefinitionView>, f: FunctionView) -> bool {
    &&& fields_fit(definitions, f.params)
    &&& type_fits(definitions, f.result)
}

/// Every type in the signatures of the functions is well formed.
pub open spec fn functions_fit(
    definitions: Seq<DefinitionView>,
    functions: Seq<FunctionView>,
) -> bool {
    forall|i: int|
        0 <= i < functions.len() ==> function_fits(definitions, #[trigger] functions[i])
}

/// Every type in the definition `d` is well formed.
pub open spec fn definition_fits(definitions: Seq<DefinitionView>, d: DefinitionView) -> bool {
    &&& type_fits(definitions, d.target)
    &&& fields_fit(definitions, d.members)
    &&& functions_fit(definitions, d.functions)
}

/// The definition `d` belongs to a module of `modules` and is named after it.
pub open spec fn definition_placed(modules: Seq<ModuleView>, d: DefinitionView) -> bool {
    &&& d.module < modules.len()
    &&& d.qualified == qualified_name(modules[d.module as int].name, d.name)
}

/// The qualified name of function `a` of the definition `d`: the
/// definition's qualified name, a dot and the function's name.
pub open spec fn function_name(d: DefinitionView, a: int) -> Seq<char> {
    qualified_name(d.qualified, d.functions[a].name)
}

/// No two functions of the definition `d` share a name.
pub open spec fn functions_distinct(d: DefinitionView) -> bool {
    forall|a: int, b: int|
        0 <= a < b < d.functions.len() ==> (#[trigger] d.functions[a]).name
            != (#[trigger] d.functions[b]).name
}

/// No function shares its qualified name with a definition, or with a
/// function of another definition.
pub open spec fn functions_apart(definitions: Seq<DefinitionView>) -> bool {
    &&& forall|i: int, a: int, j: int|
        0 <= i < definitions.len() && 0 <= a < definitions[i].functions.len() && 0 <= j
            < definitions.len() ==> #[trigger] function_name(definitions[i], a)
            != (#[trigger] definitions[j]).qualified
    &&& forall|i: int, a: int, j: int, b: int|
        0 <= i < definitions.len() && 0 <= j < definitions.len() && i != j && 0 <= a
            < definitions[i].functions.len() && 0 <= b < definitions[j].functions.len()
            ==> #[trigger] function_name(definitions[i], a) != #[trigger] function_name(
            definitions[j],
            b,
        )
}

/// A document as values: its modules in the order in which the sources
/// first name them, its definitions in declaration order, and the
/// documentation comments that belong to no definition.
pub struct DocumentView {
    pub modules: Seq<ModuleView>,
    pub definitions: Seq<DefinitionView>,
    pub docs: Seq<Seq<char>>,
}

impl DocumentView {
    /// What holds of every document that a load yields: no reference
    /// dangles, every type is well formed, no two definitions share a
    /// qualified name, be they types, interfaces or functions, no two
    /// modules share a name, no module imports itself through others, and
    /// no value holds itself in place.
    pub open spec fn wf(self) -> bool {
        &&& definitions_linked(self.definitions, self.definitions.len() as int)
        &&& forall|i: int|
            0 <= i < self.definitions.len() ==> definition_fits(
                self.definitions,
                #[trigger] self.definitions[i],
            )
        &&& forall|i: int|
            0 <= i < self.definitions.len() ==> definition_placed(
                self.modules,
                #[trigger] self.definitions[i],
            )
        &&& forall|i: int, j: int|
            0 <= i < j < self.definitions.len() ==> (#[trigger] self.definitions[i]).qualified
                != (#[trigger] self.definitions[j]).qualified
        &&& forall|i: int|
            0 <= i < self.definitions.len() ==> functions_distinct(#[trigger] self.definitions[i])
        &&& functions_apart(self.definitions)
        &&& forall|i: int, j: int|
            0 <= i < j < self.modules.len() ==> (#[trigger] self.modules[i]).name
                != (#[trigger] self.modules[j]).name
        &&& forall|i: int, k: int|
            0 <= i < self.modules.len() && 0 <= k < self.modules[i].imports.len()
                ==> #[trigger] self.modules[i].imports[k] < self.modules.len()
        &&& acyclic(dependencies(self.modules))
        &&& acyclic(containment(self.definitions))
    }

    /// The index of the first definition whose qualified name is `name`.
    pub open spec fn find(self, name: Seq<char>) -> Option<usize> {
        index_of(definition_names(self.definitions), name, 0)
    }

    /// The index, from `j` on, of the first function of definition `i`
    /// whose name behind the definition's qualified name and a dot is `name`.
    pub open spec fn find_function_in(self, name: Seq<char>, i: int, j: int) -> Option<usize>
        decreases self.definitions[i].functions.len() - j,
    {
        let d = self.definitions[i];
        if j < 0 || j >= d.functions.len() {
            None
        } else if qualified_name(d.qualified, d.functions[j].name) == name {
            Some(j as usize)
        } else {
            self.find_function_in(name, i, j + 1)
        }
    }

    /// The first function from definition `i` on that is known as `name`:
    /// the index of its interface and its index among the interface's
    /// functions.
    pub open spec fn find_function_from(self, name: Seq<char>, i: int) -> Option<(usize, usize)>
        decreases self.definitions.len() - i,
    {
        if i < 0 || i >= self.definitions.len() {
            None
        } else {
            match self.find_function_in(name, i, 0) {
                Some(j) => Some((i as usize, j)),
                None => self.find_function_from(name, i + 1),
            }
        }
    }
}

/// The qualified names of the definitions, in order.
pub open spec fn definition_names(definitions: Seq<DefinitionView>) -> Seq<Seq<char>> {
    Seq::new(definitions.len(), |i: int| definitions[i].qualified)
}

/// A loaded document: the sources' modules and definitions, checked and
/// linked, with an index of the definitions' qualified names. It cannot be
/// changed.
#[derive(Debug)]
pub struct Document {
    modules: Vec<Module>,
    definitions: Vec<Definition>,
    docs: Vec<String>,
    index: NameIndex,
}

impl View for Document {
    type V = DocumentView;

    closed spec fn view(&self) -> DocumentView {
        DocumentView {
            modules: views(self.modules@),
            definitions: views(self.definitions@),
            docs: views(self.docs@),
        }
    }
}

impl Document {
    #[verifier::type_invariant]
    spec fn inv(&self) -> bool {
        &&& self@.wf()
        &&& self.index.names() == definition_names(self@.definitions)
    }

    /// Recalls that every document is well formed. Does nothing when run.
    pub fn well_formed(&self)
        ensures
            self@.wf(),
    {
        proof {
            use_type_invariant(self);
        }
    }

    /// Puts a document together from parts that are well formed together,
    /// and an index of the definitions' qualified names.
    pub(crate) fn assemble(
        modules: Vec<Module>,
        definitions: Vec<Definition>,
        docs: Vec<String>,
        index: NameIndex,
    ) -> (d: Document)
        requires
            (DocumentView {
                modules: views(modules@),
                definitions: views(definitions@),
                docs: views(docs@),
            }).wf(),
            index.names() == definition_names(views(definitions@)),
        ensures
            d@ == (DocumentView {
                modules: views(modules@),
                definitions: views(definitions@),
                docs: views(docs@),
            }),
    {
        Document { modules, definitions, docs, index }
    }

    /// The modules, in the order in which the sources first name them.
    pub fn modules(&self) -> (r: &Vec<Module>)
        ensures
            views(r@) == self@.modules,
    {
        &self.modules
    }

    /// The definitions, in declaration order.
    pub fn definitions(&self) -> (r: &Vec<Definition>)
        ensures
            views(r@) == self@.definitions,
    {
        &self.definitions
    }

    /// The documentation comments that belong to no definition, in source
    /// order.
    pub fn docs(&self) -> (r: &Vec<String>)
        ensures
            views(r@) == self@.docs,
    {
        &self.docs
    }

    /// The number of definitions.
    pub fn definition_count(&self) -> (n: usize)
        ensures
            n == self@.definitions.len(),
    {
        self.definitions.len()
    }

    /// The definition at index `i`.
    pub fn definition(&self, i: usize) -> (r: Option<&Definition>)
        ensures
            match r {
                Some(d) => i < self@.definitions.len() && d@ == self@.definitions[i as int],
                None => i >= self@.definitions.len(),
            },
    {
        if i < self.definitions.len() {
            Some(&self.definitions[i])
        } else {
            None
        }
    }

    /// The index of the definition whose qualified name is `name`. The
    /// definition is found by the hash of its name.
    pub fn lookup(&self, name: &str) -> (r: Option<usize>)
        ensures
            r == self@.find(name@),
            r matches Some(i) ==> i < self@.definitions.len() && self@.definitions[i as int].qualified
                == name@,
    {
        proof {
            use_type_invariant(self);
        }
        self.index.find(name)
    }

    /// The function whose qualified name is `name`: that of its interface,
    /// a dot and its own name. Yields the index of the interface and the index
    /// of the function among the interface's functions.
    pub fn lookup_function(&self, name: &str) -> (r: Option<(usize, usize)>)
        ensures
            r == self@.find_function_from(name@, 0),
            r matches Some((i, j)) ==> i < self@.definitions.len() && j
                < self@.definitions[i as int].functions.len(),
    {
        let mut i: usize = 0;
        while i < self.definitions.len()
            invariant
                i <= self.definitions@.len(),
                self@.find_function_from(name@, 0) == self@.find_function_from(name@, i as int),
            decreases self.definitions@.len() - i,
        {
            let d = &self.definitions[i];
            assert(self@.definitions[i as int] == d@);
            let mut j: usize = 0;
            while j < d.functions.len()
                invariant
                    i < self.definitions@.len(),
                    self@.definitions[i as int] == d@,
                    j <= d.functions@.len(),
                    self@.find_function_from(name@, 0) == self@.find_function_from(
                        name@,
                        i as int,
                    ),
                    self@.find_function_in(name@, i as int, 0) == self@.find_function_in(
                        name@,
                        i as int,
                        j as int,
                    ),
                decreases d.functions@.len() - j,
            {
                assert(d@.functions[j as int] == d.functions@[j as int]@);
                let known = crate::namespace::qualify(&d.qualified, &d.functions[j].name);
                if crate::text::same_text(known.as_str(), name) {
                    return Some((i, j));
                }
                j += 1;
            }
            i += 1;
        }
        None
    }

    /// The indices of the definitions of the module at index `module`, in
    /// declaration order.
    pub fn definitions_in(&self, module: usize) -> (r: Vec<usize>)
        ensures
            r@ == members_of(self@.definitions, module, self@.definitions.len() as int),
    {
        let mut out: Vec<usize> = Vec::new();
        let mut i: usize = 0;
        while i < self.definitions.len()
            invariant
                i <= self.definitions@.len(),
                out@ == members_of(self@.definitions, module, i as int),
            decreases self.definitions@.len() - i,
        {
            if self.definitions[i].module == module {
                out.push(i);
            }
            i += 1;
        }
        out
    }
}

/// The indices below `n` of the definitions of the module at index
/// `module`, in order.
pub open spec fn members_of(definitions: Seq<DefinitionView>, module: usize, n: int) -> Seq<usize>
    decreases n,
{
    if n <= 0 {
        Seq::empty()
    } else if definitions[n - 1].module == module {
        members_of(definitions, module, n - 1).push((n - 1) as usize)
    } else {
        members_of(definitions, module, n - 1)
    }
}

} // verus!
