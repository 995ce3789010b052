//! Name resolution: from the namespace to linked definitions.
//!
//! A name without a module is looked up in the module at hand, then in the
//! module without a name, then among the built-in names. A name
//! `module.name` is looked up in `module`, which must be the module at hand
//! or one that it imports.

use vstd::prelude::*;
use vstd::string::StringExecFns;
use crate::error::{outcome, outcome_list, outcome_opt, ErrorKind, ErrorKindView};
use crate::model::{
    chain_linked, definition_linked, definitions_linked, fields_linked, function_linked,
    functions_linked, qualified_name, type_linked, Constructor, Definition, DefinitionKind,
    DefinitionView, Field, FieldView, Function, FunctionView, Module, ModuleView, Primitive,
    Reference, Target, Type,
};
use crate::index::NameIndex;
use crate::namespace::{index_of, position, qualify, EntryView, ImportView, Namespace};
use crate::syntax::{
    lemma_views_empty, lemma_views_push, opt_view, views, DeclKind, FunctionDecl,
    FunctionDeclView, Member, MemberView, NameRef, NameRefView, SyntaxTree, TypeRef,
};
use crate::text::{push_char, same_text};

verus! {

/// What resolution reads of a namespace: the names of the modules, the
/// imports, and the qualified names of the entries, each in order.
pub struct Outline {
    pub modules: Seq<Seq<char>>,
    pub imports: Seq<ImportView>,
    pub names: Seq<Seq<char>>,
}

/// What the built-in name `name` refers to.
pub open spec fn builtin(name: Seq<char>) -> Option<Target> {
    if name == "u8"@ {
        Some(Target::Primitive(Primitive::U8))
    } else if name == "u16"@ {
        Some(Target::Primitive(Primitive::U16))
    } else if name == "u32"@ {
        Some(Target::Primitive(Primitive::U32))
    } else if name == "u64"@ {
        Some(Target::Primitive(Primitive::U64))
    } else if name == "s8"@ {
        Some(Target::Primitive(Primitive::S8))
    } else if name == "s16"@ {
        Some(Target::Primitive(Primitive::S16))
    } else if name == "s32"@ {
        Some(Target::Primitive(Primitive::S32))
    } else if name == "s64"@ {
        Some(Target::Primitive(Primitive::S64))
    } else if name == "bool"@ {
        Some(Target::Primitive(Primitive::Bool))
    } else if name == "char"@ {
        Some(Target::Primitive(Primitive::Char))
    } else if name == "string"@ {
        Some(Target::Primitive(Primitive::Text))
    } else if name == "list"@ {
        Some(Target::Constructor(Constructor::List))
    } else if name == "pointer"@ {
        Some(Target::Constructor(Constructor::Pointer))
    } else if name == "option"@ {
        Some(Target::Constructor(Constructor::Option))
    } else {
        None
    }
}

/// Whether, from import `k` on, module `module` imports module `name`.
pub open spec fn imports_from(
    imports: Seq<ImportView>,
    module: Seq<char>,
    name: Seq<char>,
    k: int,
) -> bool
    decreases imports.len() - k,
{
    if k < 0 || k >= imports.len() {
        false
    } else if imports[k].module == module && imports[k].name == name {
        true
    } else {
        imports_from(imports, module, name, k + 1)
    }
}

/// A name as it was written: `name` or `module.name`.
pub open spec fn written(r: NameRefView) -> Seq<char> {
    match r.module {
        Some(m) => m.push('.') + r.name,
        None => r.name,
    }
}

/// What the name `r`, written in module `module`, refers to.
pub open spec fn resolve(o: Outline, module: Seq<char>, r: NameRefView) -> Option<Target> {
    match r.module {
        Some(m) => if m == module || imports_from(o.imports, module, m, 0) {
            match index_of(o.names, qualified_name(m, r.name), 0) {
                Some(i) => Some(Target::Definition(i)),
                None => None,
            }
        } else {
            None
        },
        None => match index_of(o.names, qualified_name(module, r.name), 0) {
            Some(i) => Some(Target::Definition(i)),
            None => match index_of(o.names, r.name, 0) {
                Some(i) => Some(Target::Definition(i)),
                None => builtin(r.name),
            },
        },
    }
}

/// The error of a name that refers to nothing.
pub open spec fn undefined(r: NameRefView) -> ErrorKindView {
    ErrorKindView::UndefinedName { name: written(r), location: r.location }
}

/// The names of `chain` from `k` on, resolved in module `module`, behind
/// the references in `acc`; or the first among them that refers to nothing.
pub open spec fn linked_chain(
    o: Outline,
    module: Seq<char>,
    chain: Seq<NameRefView>,
    k: int,
    acc: Seq<Reference>,
) -> Result<Seq<Reference>, ErrorKindView>
    decreases chain.len() - k,
{
    if k < 0 || k >= chain.len() {
        Ok(acc)
    } else {
        match resolve(o, module, chain[k]) {
            Some(target) => linked_chain(
                o,
                module,
                chain,
                k + 1,
                acc.push(Reference { target, location: chain[k].location }),
            ),
            None => Err(undefined(chain[k])),
        }
    }
}

/// A type that may be missing, resolved in module `module`.
pub open spec fn linked_type(o: Outline, module: Seq<char>, ty: Option<Seq<NameRefView>>) -> Result<
    Option<Seq<Reference>>,
    ErrorKindView,
> {
    match ty {
        None => Ok(None),
        Some(chain) => match linked_chain(o, module, chain, 0, Seq::empty()) {
            Ok(linked) => Ok(Some(linked)),
            Err(e) => Err(e),
        },
    }
}

/// The members from `k` on, resolved in module `module`, behind the fields
/// in `acc`.
pub open spec fn linked_members(
    o: Outline,
    module: Seq<char>,
    members: Seq<MemberView>,
    k: int,
    acc: Seq<FieldView>,
) -> Result<Seq<FieldView>, ErrorKindView>
    decreases members.len() - k,
{
    if k < 0 || k >= members.len() {
        Ok(acc)
    } else {
        match linked_type(o, module, members[k].ty) {
            Ok(ty) => linked_members(
                o,
                module,
                members,
                k + 1,
                acc.push(FieldView { name: members[k].name, ty }),
            ),
            Err(e) => Err(e),
        }
    }
}

/// A function, resolved in module `module`: its parameters, then its result.
pub open spec fn linked_function(o: Outline, module: Seq<char>, f: FunctionDeclView) -> Result<
    FunctionView,
    ErrorKindView,
> {
    match linked_members(o, module, f.params, 0, Seq::empty()) {
        Err(e) => Err(e),
        Ok(params) => match linked_type(o, module, f.result) {
            Err(e) => Err(e),
            Ok(result) => Ok(
                FunctionView { name: f.name, params, result, doc: f.doc, location: f.location },
            ),
        },
    }
}

/// The functions from `k` on, resolved in module `module`, behind those in
/// `acc`.
pub open spec fn linked_functions(
    o: Outline,
    module: Seq<char>,
    functions: Seq<FunctionDeclView>,
    k: int,
    acc: Seq<FunctionView>,
) -> Result<Seq<FunctionView>, ErrorKindView>
    decreases functions.len() - k,
{
    if k < 0 || k >= functions.len() {
        Ok(acc)
    } else {
        match linked_function(o, module, functions[k]) {
            Ok(f) => linked_functions(o, module, functions, k + 1, acc.push(f)),
            Err(e) => Err(e),
        }
    }
}

/// The kind of definition that a declaration of kind `kind` makes.
pub open spec fn definition_kind(kind: DeclKind) -> DefinitionKind {
    match kind {
        DeclKind::Typename => DefinitionKind::TypeAlias,
        DeclKind::Record => DefinitionKind::Record,
        DeclKind::Variant => DefinitionKind::Variant,
        _ => DefinitionKind::Interface,
    }
}

/// The index of the module named `name`; zero if there is none.
pub open spec fn module_index(o: Outline, name: Seq<char>) -> usize {
    match index_of(o.modules, name, 0) {
        Some(i) => i,
        None => 0,
    }
}

/// The definition that the entry `e` makes: its target first, then its
/// members, then its functions.
pub open spec fn linked_entry(o: Outline, e: EntryView) -> Result<DefinitionView, ErrorKindView> {
    let d = e.declaration;
    match linked_type(o, e.module, d.target) {
        Err(e) => Err(e),
        Ok(target) => match linked_members(o, e.module, d.members, 0, Seq::empty()) {
            Err(e) => Err(e),
            Ok(members) => match linked_functions(o, e.module, d.functions, 0, Seq::empty()) {
                Err(e) => Err(e),
                Ok(functions) => Ok(
                    DefinitionView {
                        kind: definition_kind(d.kind),
                        module: module_index(o, e.module),
                        name: d.name,
                        qualified: e.qualified(),
                        doc: d.doc,
                        target,
                        members,
                        functions,
                        location: d.location,
                    },
                ),
            },
        },
    }
}

/// The definitions that the entries from `k` on make, behind those in `acc`.
pub open spec fn linked_entries(
    o: Outline,
    entries: Seq<EntryView>,
    k: int,
    acc: Seq<DefinitionView>,
) -> Result<Seq<DefinitionView>, ErrorKindView>
    decreases entries.len() - k,
{
    if k < 0 || k >= entries.len() {
        Ok(acc)
    } else {
        match linked_entry(o, entries[k]) {
            Ok(d) => linked_entries(o, entries, k + 1, acc.push(d)),
            Err(e) => Err(e),
        }
    }
}

/// The first import from `k` on that names no module, as an error.
pub open spec fn import_error(o: Outline, k: int) -> Option<ErrorKindView>
    decreases o.imports.len() - k,
{
    if k < 0 || k >= o.imports.len() {
        None
    } else if index_of(o.modules, o.imports[k].name, 0) is None {
        Some(
            ErrorKindView::UndefinedName {
                name: o.imports[k].name,
                location: o.imports[k].location,
            },
        )
    } else {
        import_error(o, k + 1)
    }
}

/// The indices of the modules that `module` imports by the first `n`
/// imports, in order.
pub open spec fn imported(o: Outline, module: Seq<char>, n: int) -> Seq<usize>
    decreases n,
{
    if n <= 0 {
        Seq::empty()
    } else {
        let before = imported(o, module, n - 1);
        if o.imports[n - 1].module == module {
            match index_of(o.modules, o.imports[n - 1].name, 0) {
                Some(t) => before.push(t),
                None => before,
            }
        } else {
            before
        }
    }
}

/// The modules, each with what it imports.
pub open spec fn linked_modules(o: Outline) -> Seq<ModuleView> {
    Seq::new(
        o.modules.len(),
        |i: int| ModuleView { name: o.modules[i], imports: imported(o, o.modules[i], o.imports.len() as int) },
    )
}

impl Namespace {
    /// What resolution reads of the namespace.
    pub open spec fn outline(&self) -> Outline {
        Outline {
            modules: views(self.modules@),
            imports: views(self.imports@),
            names: self.names(),
        }
    }

    /// Every entry stands at a declaration of `trees`.
    pub open spec fn placed(&self, trees: Seq<SyntaxTree>) -> bool {
        forall|i: int|
            0 <= i < self.entries@.len() ==> (#[trigger] self.entries@[i]).source < trees.len()
                && self.entries@[i].index < trees[self.entries@[i].source as int].declarations@.len()
    }

    /// The entry at index `i` as values.
    pub open spec fn entry(&self, trees: Seq<SyntaxTree>, i: int) -> EntryView {
        EntryView {
            module: self.entries@[i].module@,
            declaration: trees[self.entries@[i].source as int].declarations@[self.entries@[i].index as int]@,
        }
    }

    /// The entries as values.
    pub open spec fn entry_views(&self, trees: Seq<SyntaxTree>) -> Seq<EntryView> {
        Seq::new(self.entries@.len(), |i: int| self.entry(trees, i))
    }
}

/// What the built-in name `name` refers to.
fn builtin_of(name: &str) -> (r: Option<Target>)
    ensures
        r == builtin(name@),
{
    if same_text(name, "u8") {
        Some(Target::Primitive(Primitive::U8))
    } else if same_text(name, "u16") {
        Some(Target::Primitive(Primitive::U16))
    } else if same_text(name, "u32") {
        Some(Target::Primitive(Primitive::U32))
    } else if same_text(name, "u64") {
        Some(Target::Primitive(Primitive::U64))
    } else if same_text(name, "s8") {
        Some(Target::Primitive(Primitive::S8))
    } else if same_text(name, "s16") {
        Some(Target::Primitive(Primitive::S16))
    } else if same_text(name, "s32") {
        Some(Target::Primitive(Primitive::S32))
    } else if same_text(name, "s64") {
        Some(Target::Primitive(Primitive::S64))
    } else if same_text(name, "bool") {
        Some(Target::Primitive(Primitive::Bool))
    } else if same_text(name, "char") {
        Some(Target::Primitive(Primitive::Char))
    } else if same_text(name, "string") {
        Some(Target::Primitive(Primitive::Text))
    } else if same_text(name, "list") {
        Some(Target::Constructor(Constructor::List))
    } else if same_text(name, "pointer") {
        Some(Target::Constructor(Constructor::Pointer))
    } else if same_text(name, "option") {
        Some(Target::Constructor(Constructor::Option))
    } else {
        None
    }
}

/// Whether module `module` imports module `name`.
fn has_import(ns: &Namespace, module: &str, name: &str) -> (r: bool)
    ensures
        r == imports_from(views(ns.imports@), module@, name@, 0),
{
    let mut i: usize = 0;
    while i < ns.imports.len()
        invariant
            i <= ns.imports@.len(),
            imports_from(views(ns.imports@), module@, name@, 0) == imports_from(
                views(ns.imports@),
                module@,
                name@,
                i as int,
            ),
        decreases ns.imports@.len() - i,
    {
        if same_text(ns.imports[i].module.as_str(), module) && same_text(
            ns.imports[i].name.as_str(),
            name,
        ) {
            return true;
        }
        i += 1;
    }
    false
}

/// The name `r` as it was written.
fn spell(r: &NameRef) -> (out: String)
    ensures
        out@ == written(r@),
{
    match &r.module {
        Some(m) => {
            let mut out = m.clone();
            push_char(&mut out, '.');
            out.append(r.name.as_str());
            out
        },
        None => r.name.clone(),
    }
}

/// What the name `r`, written in module `module`, refers to.
fn resolve_name(ns: &Namespace, index: &NameIndex, module: &String, r: &NameRef) -> (t: Option<
    Target,
>)
    requires
        index.names() == ns.names(),
    ensures
        t == resolve(ns.outline(), module@, r@),
        t matches Some(Target::Definition(i)) ==> i < ns.entries@.len(),
{
    match &r.module {
        Some(m) => {
            if same_text(m.as_str(), module.as_str()) || has_import(
                ns,
                module.as_str(),
                m.as_str(),
            ) {
                let key = qualify(m, &r.name);
                match index.find(key.as_str()) {
                    Some(i) => Some(Target::Definition(i)),
                    None => None,
                }
            } else {
                None
            }
        },
        None => {
            let key = qualify(module, &r.name);
            match index.find(key.as_str()) {
                Some(i) => Some(Target::Definition(i)),
                None => match index.find(r.name.as_str()) {
                    Some(i) => Some(Target::Definition(i)),
                    None => builtin_of(r.name.as_str()),
                },
            }
        },
    }
}

fn link_chain(
    ns: &Namespace,
    index: &NameIndex,
    module: &String,
    ty: &TypeRef,
) -> (r: Result<Type, ErrorKind>)
    requires
        index.names() == ns.names(),
    ensures
        outcome(r) == linked_chain(ns.outline(), module@, ty@, 0, Seq::empty()),
        r matches Ok(t) ==> chain_linked(t@, ns.entries@.len() as int),
{
    let mut chain: Vec<Reference> = Vec::new();
    let mut k: usize = 0;
    while k < ty.names.len()
        invariant
            index.names() == ns.names(),
            k <= ty.names@.len(),
            linked_chain(ns.outline(), module@, ty@, 0, Seq::empty()) == linked_chain(
                ns.outline(),
                module@,
                ty@,
                k as int,
                chain@,
            ),
            chain_linked(chain@, ns.entries@.len() as int),
        decreases ty.names@.len() - k,
    {
        let name = &ty.names[k];
        assert(ty@[k as int] == name@);
        match resolve_name(ns, index, module, name) {
            Some(target) => {
                chain.push(Reference { target, location: name.location });
            },
            None => {
                return Err(ErrorKind::UndefinedName { name: spell(name), location: name.location });
            },
        }
        k += 1;
    }
    Ok(Type { chain })
}

fn link_type(
    ns: &Namespace,
    index: &NameIndex,
    module: &String,
    ty: &Option<TypeRef>,
) -> (r: Result<
    Option<Type>,
    ErrorKind,
>)
    requires
        index.names() == ns.names(),
    ensures
        outcome_opt(r) == linked_type(ns.outline(), module@, opt_view(*ty)),
        r matches Ok(t) ==> type_linked(opt_view(t), ns.entries@.len() as int),
{
    match ty {
        None => Ok(None),
        Some(chain) => match link_chain(ns, index, module, chain) {
            Ok(linked) => Ok(Some(linked)),
            Err(e) => Err(e),
        },
    }
}

fn link_members(
    ns: &Namespace,
    index: &NameIndex,
    module: &String,
    members: &Vec<Member>,
) -> (r: Result<
    Vec<Field>,
    ErrorKind,
>)
    requires
        index.names() == ns.names(),
    ensures
        outcome_list(r) == linked_members(
            ns.outline(),
            module@,
            views(members@),
            0,
            Seq::empty(),
        ),
        r matches Ok(fields) ==> fields_linked(views(fields@), ns.entries@.len() as int),
{
    let mut fields: Vec<Field> = Vec::new();
    proof {
        lemma_views_empty::<Field>();
    }
    let mut k: usize = 0;
    while k < members.len()
        invariant
            index.names() == ns.names(),
            k <= members@.len(),
            linked_members(ns.outline(), module@, views(members@), 0, Seq::empty())
                == linked_members(ns.outline(), module@, views(members@), k as int, views(fields@)),
            fields_linked(views(fields@), ns.entries@.len() as int),
        decreases members@.len() - k,
    {
        let member = &members[k];
        assert(views(members@)[k as int] == member@);
        match link_type(ns, index, module, &member.ty) {
            Ok(ty) => {
                let field = Field { name: member.name.clone(), ty };
                proof {
                    lemma_views_push(fields@, field);
                }
                fields.push(field);
            },
            Err(e) => {
                return Err(e);
            },
        }
        k += 1;
    }
    Ok(fields)
}

/// A copy of a string that may be missing.
pub fn copy_of(s: &Option<String>) -> (r: Option<String>)
    ensures
        opt_view(r) == opt_view(*s),
{
    match s {
        Some(text) => Some(text.clone()),
        None => None,
    }
}

fn link_function(
    ns: &Namespace,
    index: &NameIndex,
    module: &String,
    f: &FunctionDecl,
) -> (r: Result<
    Function,
    ErrorKind,
>)
    requires
        index.names() == ns.names(),
    ensures
        outcome(r) == linked_function(ns.outline(), module@, f@),
        r matches Ok(g) ==> function_linked(g@, ns.entries@.len() as int),
{
    let params = match link_members(ns, index, module, &f.params) {
        Ok(params) => params,
        Err(e) => {
            return Err(e);
        },
    };
    match link_type(ns, index, module, &f.result) {
        Ok(result) => Ok(
            Function {
                name: f.name.clone(),
                params,
                result,
                doc: copy_of(&f.doc),
                location: f.location,
            },
        ),
        Err(e) => Err(e),
    }
}

fn link_functions(
    ns: &Namespace,
    index: &NameIndex,
    module: &String,
    functions: &Vec<FunctionDecl>,
) -> (r: Result<
    Vec<Function>,
    ErrorKind,
>)
    requires
        index.names() == ns.names(),
    ensures
        outcome_list(r) == linked_functions(
            ns.outline(),
            module@,
            views(functions@),
            0,
            Seq::empty(),
        ),
        r matches Ok(fs) ==> functions_linked(views(fs@), ns.entries@.len() as int),
{
    let mut out: Vec<Function> = Vec::new();
    proof {
        lemma_views_empty::<Function>();
    }
    let mut k: usize = 0;
    while k < functions.len()
        invariant
            index.names() == ns.names(),
            k <= functions@.len(),
            linked_functions(ns.outline(), module@, views(functions@), 0, Seq::empty())
                == linked_functions(ns.outline(), module@, views(functions@), k as int, views(out@)),
            functions_linked(views(out@), ns.entries@.len() as int),
        decreases functions@.len() - k,
    {
        let f = &functions[k];
        assert(views(functions@)[k as int] == f@);
        match link_function(ns, index, module, f) {
            Ok(g) => {
                proof {
                    lemma_views_push(out@, g);
                }
                out.push(g);
            },
            Err(e) => {
                return Err(e);
            },
        }
        k += 1;
    }
    Ok(out)
}

/// The kind of definition that a declaration of kind `kind` makes.
fn kind_of(kind: DeclKind) -> (k: DefinitionKind)
    ensures
        k == definition_kind(kind),
{
    match kind {
        DeclKind::Typename => DefinitionKind::TypeAlias,
        DeclKind::Record => DefinitionKind::Record,
        DeclKind::Variant => DefinitionKind::Variant,
        _ => DefinitionKind::Interface,
    }
}

fn link_entry(ns: &Namespace, index: &NameIndex, trees: &Vec<SyntaxTree>, i: usize) -> (r: Result<
    Definition,
    ErrorKind,
>)
    requires
        index.names() == ns.names(),
        ns.placed(trees@),
        i < ns.entries@.len(),
    ensures
        outcome(r) == linked_entry(ns.outline(), ns.entry(trees@, i as int)),
        r matches Ok(d) ==> definition_linked(d@, ns.entries@.len() as int),
{
    let entry = &ns.entries[i];
    let d = &trees[entry.source].declarations[entry.index];
    let target = match link_type(ns, index, &entry.module, &d.target) {
        Ok(target) => target,
        Err(e) => {
            return Err(e);
        },
    };
    let members = match link_members(ns, index, &entry.module, &d.members) {
        Ok(members) => members,
        Err(e) => {
            return Err(e);
        },
    };
    let functions = match link_functions(ns, index, &entry.module, &d.functions) {
        Ok(functions) => functions,
        Err(e) => {
            return Err(e);
        },
    };
    let module = match position(&ns.modules, &entry.module) {
        Some(m) => m,
        None => 0,
    };
    Ok(
        Definition {
            kind: kind_of(d.kind),
            module,
            name: d.name.clone(),
            qualified: qualify(&entry.module, &d.name),
            doc: copy_of(&d.doc),
            target,
            members,
            functions,
            location: d.location,
        },
    )
}

/// Resolves every name of every entry, in order.
pub fn link_entries(ns: &Namespace, index: &NameIndex, trees: &Vec<SyntaxTree>) -> (r: Result<
    Vec<Definition>,
    ErrorKind,
>)
    requires
        index.names() == ns.names(),
        ns.placed(trees@),
    ensures
        outcome_list(r) == linked_entries(ns.outline(), ns.entry_views(trees@), 0, Seq::empty()),
        r matches Ok(ds) ==> ds@.len() == ns.entries@.len() && definitions_linked(
            views(ds@),
            ns.entries@.len() as int,
        ),
{
    let mut out: Vec<Definition> = Vec::new();
    proof {
        lemma_views_empty::<Definition>();
    }
    let mut k: usize = 0;
    while k < ns.entries.len()
        invariant
            ns.placed(trees@),
            index.names() == ns.names(),
            k <= ns.entries@.len(),
            out@.len() == k,
            linked_entries(ns.outline(), ns.entry_views(trees@), 0, Seq::empty())
                == linked_entries(ns.outline(), ns.entry_views(trees@), k as int, views(out@)),
            definitions_linked(views(out@), ns.entries@.len() as int),
        decreases ns.entries@.len() - k,
    {
        match link_entry(ns, index, trees, k) {
            Ok(d) => {
                proof {
                    lemma_views_push(out@, d);
                }
                out.push(d);
            },
            Err(e) => {
                return Err(e);
            },
        }
        k += 1;
    }
    Ok(out)
}

/// Looks for an import that names no module.
pub fn check_imports(ns: &Namespace) -> (r: Option<ErrorKind>)
    ensures
        opt_view(r) == import_error(ns.outline(), 0),
{
    let mut k: usize = 0;
    while k < ns.imports.len()
        invariant
            k <= ns.imports@.len(),
            import_error(ns.outline(), 0) == import_error(ns.outline(), k as int),
        decreases ns.imports@.len() - k,
    {
        let import = &ns.imports[k];
        assert(views(ns.imports@)[k as int] == import@);
        if position(&ns.modules, &import.name).is_none() {
            return Some(
                ErrorKind::UndefinedName { name: import.name.clone(), location: import.location },
            );
        }
        k += 1;
    }
    None
}

/// The modules, each with what it imports.
pub fn link_modules(ns: &Namespace) -> (r: Vec<Module>)
    ensures
        views(r@) == linked_modules(ns.outline()),
        forall|i: int, k: int|
            0 <= i < r@.len() && 0 <= k < r@[i].imports@.len() ==> #[trigger] r@[i].imports@[k]
                < r@.len(),
{
    let mut out: Vec<Module> = Vec::new();
    let ghost o = ns.outline();
    let mut m: usize = 0;
    while m < ns.modules.len()
        invariant
            o == ns.outline(),
            m <= ns.modules@.len(),
            out@.len() == m,
            forall|i: int| 0 <= i < m ==> (#[trigger] out@[i])@ == linked_modules(o)[i],
            forall|i: int, k: int|
                0 <= i < m && 0 <= k < out@[i].imports@.len() ==> #[trigger] out@[i].imports@[k]
                    < ns.modules@.len(),
        decreases ns.modules@.len() - m,
    {
        let name = &ns.modules[m];
        assert(o.modules[m as int] == name@);
        let mut imports: Vec<usize> = Vec::new();
        let mut k: usize = 0;
        while k < ns.imports.len()
            invariant
                o == ns.outline(),
                k <= ns.imports@.len(),
                imports@ == imported(o, name@, k as int),
                forall|j: int| 0 <= j < imports@.len() ==> imports@[j] < ns.modules@.len(),
            decreases ns.imports@.len() - k,
        {
            let import = &ns.imports[k];
            assert(o.imports[k as int] == import@);
            if same_text(import.module.as_str(), name.as_str()) {
                match position(&ns.modules, &import.name) {
                    Some(t) => {
                        imports.push(t);
                    },
                    None => {},
                }
            }
            k += 1;
        }
        out.push(Module { name: name.clone(), imports });
        m += 1;
    }
    assert(views(out@) =~= linked_modules(o));
    out
}

} // verus!
