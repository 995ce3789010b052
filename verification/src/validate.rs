//! Validation: the checks that stand between the syntax trees and a
//! document, in the order in which they are made.
//!
//! - No two definitions share a qualified name, be they types, interfaces
//!   or functions of an interface.
//! - Every import names a module, and every name in a type refers to
//!   something.
//! - No module imports itself through others, and no definition holds
//!   itself in place.
//! - In every type, a constructor is applied to one argument and nothing
//!   else is applied to any; its last name is a type of data.
//!
//! The first of these that does not hold ends the load.

use vstd::prelude::*;
use crate::declared::{
    all_declared, declare, declared_function, lemma_declared_entry, lemma_places_rise, names_of,
    place,
};
use crate::error::{ErrorKind, ErrorKindView};
use crate::index::NameIndex;
use crate::graph::{acyclic, find_cycle, graph_wf, is_cycle};
use crate::model::{
    chain_fits, chain_linked, class_of, containment, definition_fits, definition_linked,
    definition_names, definition_placed, definitions_linked, dependencies, direct_from,
    fields_fit, fields_linked, fits, function_fits, function_linked, function_name,
    functions_apart, functions_distinct, functions_fit, functions_linked, held, held_by,
    held_by_members, role_at, target_name, type_fits, type_linked, Class, Constructor,
    Definition, DefinitionKind, DefinitionView, Document, DocumentView, Field, FieldView,
    Function, FunctionView, Module, ModuleView, Reference, Role, Target, Type,
};
use crate::namespace::{
    first_duplicate, gather, lemma_gathered_wf, lemma_index_of_found, lemma_no_duplicate,
    namespace_of, qualified_names, EntryView, NamespaceView,
};
use crate::resolve::{
    check_imports, import_error, link_entries, link_modules, linked_entries, linked_entry,
    linked_function, linked_functions, linked_modules, Outline,
};
use crate::syntax::{opt_view, views, FunctionDeclView, SyntaxTree, SyntaxTreeView};
use vstd::string::StringExecFns;

verus! {

/// The error of a reference that does not fit the role of its position.
pub open spec fn mismatch(
    definitions: Seq<DefinitionView>,
    r: Reference,
    role: Role,
) -> ErrorKindView {
    ErrorKindView::TypeMismatch {
        name: target_name(definitions, r.target),
        location: r.location,
        expected: role,
        found: class_of(definitions, r.target),
    }
}

/// The first reference of `chain` from `k` on that does not fit its
/// position, as an error.
pub open spec fn chain_error(
    definitions: Seq<DefinitionView>,
    chain: Seq<Reference>,
    k: int,
) -> Option<
    ErrorKindView,
>
    decreases chain.len() - k,
{
    if k < 0 || k >= chain.len() {
        None
    } else if !fits(class_of(definitions, chain[k].target), role_at(chain.len() as int, k)) {
        Some(mismatch(definitions, chain[k], role_at(chain.len() as int, k)))
    } else {
        chain_error(definitions, chain, k + 1)
    }
}

/// The first error in a type that may be missing.
pub open spec fn type_error(definitions: Seq<DefinitionView>, ty: Option<Seq<Reference>>) -> Option<
    ErrorKindView,
> {
    match ty {
        Some(chain) => chain_error(definitions, chain, 0),
        None => None,
    }
}

/// The first error in the types of the fields from `k` on.
pub open spec fn fields_error(
    definitions: Seq<DefinitionView>,
    fields: Seq<FieldView>,
    k: int,
) -> Option<
    ErrorKindView,
>
    decreases fields.len() - k,
{
    if k < 0 || k >= fields.len() {
        None
    } else {
        match type_error(definitions, fields[k].ty) {
            Some(e) => Some(e),
            None => fields_error(definitions, fields, k + 1),
        }
    }
}

/// The first error in a function's signature: in its parameters, then in
/// its result.
pub open spec fn function_error(definitions: Seq<DefinitionView>, f: FunctionView) -> Option<
    ErrorKindView,
> {
    match fields_error(definitions, f.params, 0) {
        Some(e) => Some(e),
        None => type_error(definitions, f.result),
    }
}

/// The first error in the signatures of the functions from `k` on.
pub open spec fn functions_error(
    definitions: Seq<DefinitionView>,
    functions: Seq<FunctionView>,
    k: int,
) -> Option<ErrorKindView>
    decreases functions.len() - k,
{
    if k < 0 || k >= functions.len() {
        None
    } else {
        match function_error(definitions, functions[k]) {
            Some(e) => Some(e),
            None => functions_error(definitions, functions, k + 1),
        }
    }
}

/// The first error in the types of a definition: in its target, then in
/// its members, then in its functions.
pub open spec fn definition_error(definitions: Seq<DefinitionView>, d: DefinitionView) -> Option<
    ErrorKindView,
> {
    match type_error(definitions, d.target) {
        Some(e) => Some(e),
        None => match fields_error(definitions, d.members, 0) {
            Some(e) => Some(e),
            None => functions_error(definitions, d.functions, 0),
        },
    }
}

/// The first error in the types of the definitions from `k` on.
pub open spec fn definitions_error(definitions: Seq<DefinitionView>, k: int) -> Option<
    ErrorKindView,
>
    decreases definitions.len() - k,
{
    if k < 0 || k >= definitions.len() {
        None
    } else {
        match definition_error(definitions, definitions[k]) {
            Some(e) => Some(e),
            None => definitions_error(definitions, k + 1),
        }
    }
}

/// The names of the modules, in order.
pub open spec fn module_names(modules: Seq<ModuleView>) -> Seq<Seq<char>> {
    Seq::new(modules.len(), |i: int| modules[i].name)
}

/// The names of the nodes of `cycle`, in order.
pub open spec fn names_along(names: Seq<Seq<char>>, cycle: Seq<usize>) -> Seq<Seq<char>> {
    Seq::new(cycle.len(), |i: int| names[cycle[i] as int])
}

/// `path` names the nodes of a cycle of `graph`, in order.
pub open spec fn names_cycle(
    graph: Seq<Seq<usize>>,
    names: Seq<Seq<char>>,
    path: Seq<Seq<char>>,
) -> bool {
    exists|cycle: Seq<usize>| #[trigger] is_cycle(graph, cycle) && path == names_along(names, cycle)
}

/// What resolution reads of the namespace `ns`.
pub open spec fn outline_of(ns: NamespaceView) -> Outline {
    Outline { modules: ns.modules, imports: ns.imports, names: qualified_names(ns.entries) }
}

/// How validation ends.
pub enum Verdict {
    /// With this error.
    Fails(ErrorKindView),
    /// With a cyclic definition error whose path names a cycle of `graph`,
    /// by the `names` of its nodes.
    Cyclic { graph: Seq<Seq<usize>>, names: Seq<Seq<char>> },
    /// With this document.
    Passes(DocumentView),
}

/// The error of two declared names that are equal: those at the places
/// `first` and `second` among all that the namespace declares.
pub open spec fn duplicate(ns: NamespaceView, first: int, second: int) -> ErrorKindView {
    let all = all_declared(ns.entries);
    ErrorKindView::DuplicateDefinition {
        name: all[second].name,
        first: all[first].location,
        second: all[second].location,
    }
}

/// How the validation of the namespace `ns` ends.
pub open spec fn verdict_of(ns: NamespaceView) -> Verdict {
    let o = outline_of(ns);
    match first_duplicate(names_of(all_declared(ns.entries))) {
        Some((i, j)) => Verdict::Fails(duplicate(ns, i as int, j as int)),
        None => match import_error(o, 0) {
            Some(e) => Verdict::Fails(e),
            None => match linked_entries(o, ns.entries, 0, Seq::empty()) {
                Err(e) => Verdict::Fails(e),
                Ok(definitions) => {
                    let modules = linked_modules(o);
                    if !acyclic(dependencies(modules)) {
                        Verdict::Cyclic {
                            graph: dependencies(modules),
                            names: module_names(modules),
                        }
                    } else if !acyclic(containment(definitions)) {
                        Verdict::Cyclic {
                            graph: containment(definitions),
                            names: definition_names(definitions),
                        }
                    } else {
                        match definitions_error(definitions, 0) {
                            Some(e) => Verdict::Fails(e),
                            None => Verdict::Passes(
                                DocumentView { modules, definitions, docs: ns.docs },
                            ),
                        }
                    }
                },
            },
        },
    }
}

/// How the validation of the syntax trees `trees` ends.
pub open spec fn verdict(trees: Seq<SyntaxTreeView>) -> Verdict {
    verdict_of(namespace_of(trees))
}

/// Whether `r` is as the verdict `v` says.
pub open spec fn decided(r: Result<Document, ErrorKind>, v: Verdict) -> bool {
    match v {
        Verdict::Fails(e) => r matches Err(k) && k@ == e,
        Verdict::Cyclic { graph, names } => r matches Err(k) && (k@ matches ErrorKindView::CyclicDefinition {
            path,
        } && names_cycle(graph, names, path)),
        Verdict::Passes(d) => r matches Ok(document) && document@ == d,
    }
}

/// What linking the entries from `k` on adds to `acc`: one definition for
/// each entry, the one that the entry makes.
pub proof fn lemma_linked_entries(
    o: Outline,
    entries: Seq<EntryView>,
    k: int,
    acc: Seq<DefinitionView>,
)
    requires
        0 <= k <= entries.len(),
    ensures
        linked_entries(o, entries, k, acc) matches Ok(out) ==> {
            &&& out.len() == acc.len() + entries.len() - k
            &&& forall|i: int| 0 <= i < acc.len() ==> out[i] == acc[i]
            &&& forall|i: int|
                k <= i < entries.len() ==> linked_entry(o, #[trigger] entries[i]) == Ok::<
                    DefinitionView,
                    ErrorKindView,
                >(out[acc.len() + i - k])
        },
    decreases entries.len() - k,
{
    if k < entries.len() {
        if let Ok(d) = linked_entry(o, entries[k]) {
            lemma_linked_entries(o, entries, k + 1, acc.push(d));
            if let Ok(out) = linked_entries(o, entries, k, acc) {
                assert(out[acc.len() as int] == acc.push(d)[acc.len() as int]);
                assert forall|i: int| 0 <= i < acc.len() implies out[i] == acc[i] by {
                    assert(acc.push(d)[i] == acc[i]);
                }
            }
        }
    }
}

/// The class of what `target` refers to.
fn classify(definitions: &Vec<Definition>, target: Target) -> (c: Class)
    requires
        target matches Target::Definition(i) ==> i < definitions@.len(),
    ensures
        c == class_of(views(definitions@), target),
{
    match target {
        Target::Primitive(_) => Class::Primitive,
        Target::Constructor(_) => Class::Constructor,
        Target::Definition(i) => match definitions[i].kind {
            DefinitionKind::TypeAlias => Class::TypeAlias,
            DefinitionKind::Record => Class::Record,
            DefinitionKind::Variant => Class::Variant,
            DefinitionKind::Interface => Class::Interface,
        },
    }
}

/// The name by which `target` is known.
pub fn name_of(definitions: &Vec<Definition>, target: Target) -> (name: String)
    requires
        target matches Target::Definition(i) ==> i < definitions@.len(),
    ensures
        name@ == target_name(views(definitions@), target),
{
    match target {
        Target::Primitive(p) => String::from_str(p.as_str()),
        Target::Constructor(c) => String::from_str(c.as_str()),
        Target::Definition(i) => definitions[i].qualified.clone(),
    }
}

/// Whether a name of class `class` may stand where `role` is asked for.
fn suits(class: Class, role: Role) -> (b: bool)
    ensures
        b == fits(class, role),
{
    match role {
        Role::Constructor => match class {
            Class::Constructor => true,
            _ => false,
        },
        Role::Data => match class {
            Class::Constructor => false,
            Class::Interface => false,
            _ => true,
        },
    }
}

fn check_chain(definitions: &Vec<Definition>, ty: &Type) -> (r: Option<ErrorKind>)
    requires
        chain_linked(ty@, definitions@.len() as int),
    ensures
        opt_view(r) == chain_error(views(definitions@), ty@, 0),
        r is None ==> chain_fits(views(definitions@), ty@),
{
    let n = ty.chain.len();
    let mut k: usize = 0;
    while k < n
        invariant
            n == ty@.len(),
            k <= n,
            chain_linked(ty@, definitions@.len() as int),
            chain_error(views(definitions@), ty@, 0) == chain_error(
                views(definitions@),
                ty@,
                k as int,
            ),
            forall|j: int|
                0 <= j < k ==> fits(
                    class_of(views(definitions@), (#[trigger] ty@[j]).target),
                    role_at(n as int, j),
                ),
        decreases n - k,
    {
        let reference = ty.chain[k];
        let role = if k < n - 1 {
            Role::Constructor
        } else {
            Role::Data
        };
        let class = classify(definitions, reference.target);
        if !suits(class, role) {
            return Some(
                ErrorKind::TypeMismatch {
                    name: name_of(definitions, reference.target),
                    location: reference.location,
                    expected: role,
                    found: class,
                },
            );
        }
        k += 1;
    }
    None
}

fn check_type(definitions: &Vec<Definition>, ty: &Option<Type>) -> (r: Option<ErrorKind>)
    requires
        type_linked(opt_view(*ty), definitions@.len() as int),
    ensures
        opt_view(r) == type_error(views(definitions@), opt_view(*ty)),
        r is None ==> type_fits(views(definitions@), opt_view(*ty)),
{
    match ty {
        Some(chain) => check_chain(definitions, chain),
        None => None,
    }
}

fn check_fields(definitions: &Vec<Definition>, fields: &Vec<Field>) -> (r: Option<ErrorKind>)
    requires
        fields_linked(views(fields@), definitions@.len() as int),
    ensures
        opt_view(r) == fields_error(views(definitions@), views(fields@), 0),
        r is None ==> fields_fit(views(definitions@), views(fields@)),
{
    let mut k: usize = 0;
    while k < fields.len()
        invariant
            k <= fields@.len(),
            fields_linked(views(fields@), definitions@.len() as int),
            fields_error(views(definitions@), views(fields@), 0) == fields_error(
                views(definitions@),
                views(fields@),
                k as int,
            ),
            forall|j: int|
                0 <= j < k ==> type_fits(views(definitions@), (#[trigger] views(fields@)[j]).ty),
        decreases fields@.len() - k,
    {
        assert(views(fields@)[k as int] == fields@[k as int]@);
        match check_type(definitions, &fields[k].ty) {
            Some(e) => {
                return Some(e);
            },
            None => {},
        }
        k += 1;
    }
    None
}

fn check_function(definitions: &Vec<Definition>, f: &Function) -> (r: Option<ErrorKind>)
    requires
        function_linked(f@, definitions@.len() as int),
    ensures
        opt_view(r) == function_error(views(definitions@), f@),
        r is None ==> function_fits(views(definitions@), f@),
{
    match check_fields(definitions, &f.params) {
        Some(e) => Some(e),
        None => check_type(definitions, &f.result),
    }
}

fn check_functions(definitions: &Vec<Definition>, functions: &Vec<Function>) -> (r: Option<
    ErrorKind,
>)
    requires
        functions_linked(views(functions@), definitions@.len() as int),
    ensures
        opt_view(r) == functions_error(views(definitions@), views(functions@), 0),
        r is None ==> functions_fit(views(definitions@), views(functions@)),
{
    let mut k: usize = 0;
    while k < functions.len()
        invariant
            k <= functions@.len(),
            functions_linked(views(functions@), definitions@.len() as int),
            functions_error(views(definitions@), views(functions@), 0) == functions_error(
                views(definitions@),
                views(functions@),
                k as int,
            ),
            forall|j: int|
                0 <= j < k ==> function_fits(views(definitions@), #[trigger] views(functions@)[j]),
        decreases functions@.len() - k,
    {
        assert(views(functions@)[k as int] == functions@[k as int]@);
        match check_function(definitions, &functions[k]) {
            Some(e) => {
                return Some(e);
            },
            None => {},
        }
        k += 1;
    }
    None
}

fn check_definition(definitions: &Vec<Definition>, d: &Definition) -> (r: Option<ErrorKind>)
    requires
        definition_linked(d@, definitions@.len() as int),
    ensures
        opt_view(r) == definition_error(views(definitions@), d@),
        r is None ==> definition_fits(views(definitions@), d@),
{
    match check_type(definitions, &d.target) {
        Some(e) => Some(e),
        None => match check_fields(definitions, &d.members) {
            Some(e) => Some(e),
            None => check_functions(definitions, &d.functions),
        },
    }
}

/// Looks for a type in which a name does not fit its position.
pub fn check_definitions(definitions: &Vec<Definition>) -> (r: Option<ErrorKind>)
    requires
        definitions_linked(views(definitions@), definitions@.len() as int),
    ensures
        opt_view(r) == definitions_error(views(definitions@), 0),
        r is None ==> forall|i: int|
            0 <= i < definitions@.len() ==> definition_fits(
                views(definitions@),
                #[trigger] views(definitions@)[i],
            ),
{
    let mut k: usize = 0;
    while k < definitions.len()
        invariant
            k <= definitions@.len(),
            definitions_linked(views(definitions@), definitions@.len() as int),
            definitions_error(views(definitions@), 0) == definitions_error(
                views(definitions@),
                k as int,
            ),
            forall|i: int|
                0 <= i < k ==> definition_fits(
                    views(definitions@),
                    #[trigger] views(definitions@)[i],
                ),
        decreases definitions@.len() - k,
    {
        assert(views(definitions@)[k as int] == definitions@[k as int]@);
        match check_definition(definitions, &definitions[k]) {
            Some(e) => {
                return Some(e);
            },
            None => {},
        }
        k += 1;
    }
    None
}

/// The definition that a value of this type holds in place, if any.
fn held_in(ty: &Option<Type>) -> (r: Option<usize>)
    ensures
        r == held(opt_view(*ty)),
{
    match ty {
        None => None,
        Some(t) => {
            let n = t.chain.len();
            if n == 0 {
                return None;
            }
            let mut k: usize = 0;
            while k < n - 1
                invariant
                    n == t@.len(),
                    n > 0,
                    k <= n - 1,
                    opt_view(*ty) == Some(t@),
                    direct_from(t@, 0) == direct_from(t@, k as int),
                decreases n - k,
            {
                match t.chain[k].target {
                    Target::Constructor(Constructor::List) => {
                        return None;
                    },
                    Target::Constructor(Constructor::Pointer) => {
                        return None;
                    },
                    _ => {},
                }
                k += 1;
            }
            match t.chain[n - 1].target {
                Target::Definition(i) => Some(i),
                _ => None,
            }
        },
    }
}

/// What `held` yields of a linked type is the index of a definition.
proof fn lemma_held_linked(ty: Option<Seq<Reference>>, count: int)
    requires
        type_linked(ty, count),
    ensures
        held(ty) matches Some(i) ==> i < count,
{
}

/// The definitions that a value of `d` holds in place.
fn held_by_definition(d: &Definition, Ghost(count): Ghost<int>) -> (r: Vec<usize>)
    requires
        definition_linked(d@, count),
    ensures
        r@ == held_by(d@),
        forall|j: int| 0 <= j < r@.len() ==> r@[j] < count,
{
    let mut out: Vec<usize> = Vec::new();
    proof {
        lemma_held_linked(d@.target, count);
    }
    match held_in(&d.target) {
        Some(i) => {
            out.push(i);
        },
        None => {},
    }
    assert(out@ =~= held_by_members(d@.members, 0, out@));
    let ghost first = out@;
    let mut k: usize = 0;
    while k < d.members.len()
        invariant
            k <= d.members@.len(),
            definition_linked(d@, count),
            out@ == held_by_members(d@.members, k as int, first),
            forall|j: int| 0 <= j < out@.len() ==> out@[j] < count,
        decreases d.members@.len() - k,
    {
        assert(d@.members[k as int] == d.members@[k as int]@);
        proof {
            lemma_held_linked(d@.members[k as int].ty, count);
        }
        match held_in(&d.members[k].ty) {
            Some(i) => {
                out.push(i);
            },
            None => {},
        }
        k += 1;
    }
    out
}

/// The graph in which each definition has an edge to each definition that
/// its values hold in place.
fn containment_graph(definitions: &Vec<Definition>) -> (g: Vec<Vec<usize>>)
    requires
        definitions_linked(views(definitions@), definitions@.len() as int),
    ensures
        views(g@) == containment(views(definitions@)),
        graph_wf(views(g@)),
{
    let mut g: Vec<Vec<usize>> = Vec::new();
    let mut k: usize = 0;
    while k < definitions.len()
        invariant
            k <= definitions@.len(),
            definitions_linked(views(definitions@), definitions@.len() as int),
            g@.len() == k,
            forall|i: int|
                0 <= i < k ==> (#[trigger] g@[i])@ == held_by(views(definitions@)[i]),
            forall|i: int, j: int|
                0 <= i < k && 0 <= j < g@[i]@.len() ==> #[trigger] g@[i]@[j] < definitions@.len(),
        decreases definitions@.len() - k,
    {
        assert(views(definitions@)[k as int] == definitions@[k as int]@);
        let edges = held_by_definition(&definitions[k], Ghost(definitions@.len() as int));
        g.push(edges);
        k += 1;
    }
    assert(views(g@) =~= containment(views(definitions@)));
    g
}

/// The graph in which each module has an edge to each module it imports.
fn dependency_graph(modules: &Vec<Module>) -> (g: Vec<Vec<usize>>)
    ensures
        views(g@) == dependencies(views(modules@)),
{
    let mut g: Vec<Vec<usize>> = Vec::new();
    let mut k: usize = 0;
    while k < modules.len()
        invariant
            k <= modules@.len(),
            g@.len() == k,
            forall|i: int| 0 <= i < k ==> (#[trigger] g@[i])@ == modules@[i].imports@,
        decreases modules@.len() - k,
    {
        let imports = &modules[k].imports;
        let mut edges: Vec<usize> = Vec::new();
        let mut j: usize = 0;
        while j < imports.len()
            invariant
                j <= imports@.len(),
                edges@ == imports@.subrange(0, j as int),
            decreases imports@.len() - j,
        {
            edges.push(imports[j]);
            j += 1;
            assert(imports@.subrange(0, j as int) == imports@.subrange(0, j as int - 1).push(
                imports@[j as int - 1],
            ));
        }
        assert(edges@ =~= imports@);
        g.push(edges);
        k += 1;
    }
    assert(views(g@) =~= dependencies(views(modules@)));
    g
}

/// The names of the modules along `cycle`.
fn modules_along(modules: &Vec<Module>, cycle: &Vec<usize>) -> (path: Vec<String>)
    requires
        forall|i: int| 0 <= i < cycle@.len() ==> cycle@[i] < modules@.len(),
    ensures
        views(path@) == names_along(module_names(views(modules@)), cycle@),
{
    let mut path: Vec<String> = Vec::new();
    let mut k: usize = 0;
    while k < cycle.len()
        invariant
            k <= cycle@.len(),
            forall|i: int| 0 <= i < cycle@.len() ==> cycle@[i] < modules@.len(),
            path@.len() == k,
            forall|i: int| 0 <= i < k ==> (#[trigger] path@[i])@ == modules@[cycle@[i] as int].name@,
        decreases cycle@.len() - k,
    {
        path.push(modules[cycle[k]].name.clone());
        k += 1;
    }
    assert(views(path@) =~= names_along(module_names(views(modules@)), cycle@));
    path
}

/// The qualified names of the definitions along `cycle`.
fn definitions_along(definitions: &Vec<Definition>, cycle: &Vec<usize>) -> (path: Vec<String>)
    requires
        forall|i: int| 0 <= i < cycle@.len() ==> cycle@[i] < definitions@.len(),
    ensures
        views(path@) == names_along(definition_names(views(definitions@)), cycle@),
{
    let mut path: Vec<String> = Vec::new();
    let mut k: usize = 0;
    while k < cycle.len()
        invariant
            k <= cycle@.len(),
            forall|i: int| 0 <= i < cycle@.len() ==> cycle@[i] < definitions@.len(),
            path@.len() == k,
            forall|i: int|
                0 <= i < k ==> (#[trigger] path@[i])@ == definitions@[cycle@[i] as int].qualified@,
        decreases cycle@.len() - k,
    {
        path.push(definitions[cycle[k]].qualified.clone());
        k += 1;
    }
    assert(views(path@) =~= names_along(definition_names(views(definitions@)), cycle@));
    path
}

/// Linking the functions from `k` on adds one function to `acc` for each,
/// under the same name.
pub proof fn lemma_linked_functions_names(
    o: Outline,
    module: Seq<char>,
    functions: Seq<FunctionDeclView>,
    k: int,
    acc: Seq<FunctionView>,
)
    requires
        0 <= k <= functions.len(),
    ensures
        linked_functions(o, module, functions, k, acc) matches Ok(out) ==> {
            &&& out.len() == acc.len() + functions.len() - k
            &&& forall|i: int| 0 <= i < acc.len() ==> out[i] == acc[i]
            &&& forall|i: int|
                k <= i < functions.len() ==> out[acc.len() + i - k].name
                    == (#[trigger] functions[i]).name
        },
    decreases functions.len() - k,
{
    if k < functions.len() {
        if let Ok(f) = linked_function(o, module, functions[k]) {
            lemma_linked_functions_names(o, module, functions, k + 1, acc.push(f));
            if let Ok(out) = linked_functions(o, module, functions, k, acc) {
                assert(out[acc.len() as int] == acc.push(f)[acc.len() as int]);
                assert forall|i: int| 0 <= i < acc.len() implies out[i] == acc[i] by {
                    assert(acc.push(f)[i] == acc[i]);
                }
            }
        }
    }
}

/// The definition that an entry makes has the entry's qualified name and
/// as many functions as the entry, under the same names.
pub proof fn lemma_linked_entry_names(o: Outline, e: EntryView)
    ensures
        linked_entry(o, e) matches Ok(d) ==> {
            &&& d.qualified == e.qualified()
            &&& d.functions.len() == e.declaration.functions.len()
            &&& forall|a: int|
                0 <= a < d.functions.len() ==> (#[trigger] d.functions[a]).name
                    == e.declaration.functions[a].name
        },
{
    lemma_linked_functions_names(o, e.module, e.declaration.functions, 0, Seq::empty());
}

/// Where no two declared names are equal, no two definitions share a
/// qualified name, no two functions of a definition share a name, and no
/// function shares its qualified name with a definition or with a function
/// of another definition.
pub proof fn lemma_names_apart(
    o: Outline,
    entries: Seq<EntryView>,
    definitions: Seq<DefinitionView>,
)
    requires
        entries.len() == definitions.len(),
        forall|i: int|
            0 <= i < entries.len() ==> linked_entry(o, #[trigger] entries[i]) == Ok::<
                DefinitionView,
                ErrorKindView,
            >(definitions[i]),
        forall|p: int, q: int|
            0 <= p < q < all_declared(entries).len() ==> names_of(all_declared(entries))[p]
                != names_of(all_declared(entries))[q],
    ensures
        forall|i: int, j: int|
            0 <= i < j < definitions.len() ==> (#[trigger] definitions[i]).qualified
                != (#[trigger] definitions[j]).qualified,
        forall|i: int| 0 <= i < definitions.len() ==> functions_distinct(#[trigger] definitions[i]),
        functions_apart(definitions),
{
    let n = entries.len() as int;
    let all = all_declared(entries);
    let names = names_of(all);
    assert forall|i: int| 0 <= i < n implies {
        &&& 0 <= place(entries, i)
        &&& place(entries, i + 1) == place(entries, i) + 1 + definitions[i].functions.len()
        &&& place(entries, i + 1) <= all.len()
        &&& names[place(entries, i)] == (#[trigger] definitions[i]).qualified
        &&& forall|a: int|
            0 <= a < definitions[i].functions.len() ==> names[place(entries, i) + 1 + a]
                == #[trigger] function_name(definitions[i], a)
    } by {
        lemma_declared_entry(entries, i, n);
        lemma_linked_entry_names(o, entries[i]);
        assert(linked_entry(o, entries[i]) == Ok::<DefinitionView, ErrorKindView>(definitions[i]));
        assert forall|a: int| 0 <= a < definitions[i].functions.len() implies names[place(
            entries,
            i,
        ) + 1 + a] == #[trigger] function_name(definitions[i], a) by {
            assert(all[place(entries, i) + 1 + a] == declared_function(
                entries[i].qualified(),
                entries[i].declaration.functions[a],
            ));
            assert(definitions[i].functions[a].name == entries[i].declaration.functions[a].name);
        }
    }
    assert forall|i: int, j: int| 0 <= i < j < definitions.len() implies (#[trigger] definitions[i]).qualified
        != (#[trigger] definitions[j]).qualified by {
        lemma_places_rise(entries, i, j);
        assert(names[place(entries, i)] != names[place(entries, j)]);
    }
    assert forall|i: int| 0 <= i < definitions.len() implies functions_distinct(
        #[trigger] definitions[i],
    ) by {
        let d = definitions[i];
        assert forall|a: int, b: int| 0 <= a < b < d.functions.len() implies (#[trigger] d.functions[a]).name
            != (#[trigger] d.functions[b]).name by {
            assert(names[place(entries, i) + 1 + a] == function_name(d, a));
            assert(names[place(entries, i) + 1 + b] == function_name(d, b));
            assert(names[place(entries, i) + 1 + a] != names[place(entries, i) + 1 + b]);
        }
    }
    assert forall|i: int, a: int, j: int|
        0 <= i < definitions.len() && 0 <= a < definitions[i].functions.len() && 0 <= j
            < definitions.len() implies #[trigger] function_name(definitions[i], a)
        != (#[trigger] definitions[j]).qualified by {
        let p = place(entries, i) + 1 + a;
        let q = place(entries, j);
        assert(names[p] == function_name(definitions[i], a));
        assert(names[q] == definitions[j].qualified);
        if j < i {
            lemma_places_rise(entries, j, i);
            assert(names[q] != names[p]);
        } else if j == i {
            assert(names[q] != names[p]);
        } else {
            lemma_places_rise(entries, i, j);
            assert(names[p] != names[q]);
        }
    }
    assert forall|i: int, a: int, j: int, b: int|
        0 <= i < definitions.len() && 0 <= j < definitions.len() && i != j && 0 <= a
            < definitions[i].functions.len() && 0 <= b
            < definitions[j].functions.len() implies #[trigger] function_name(definitions[i], a)
        != #[trigger] function_name(definitions[j], b) by {
        let p = place(entries, i) + 1 + a;
        let q = place(entries, j) + 1 + b;
        assert(names[p] == function_name(definitions[i], a));
        assert(names[q] == function_name(definitions[j], b));
        if i < j {
            lemma_places_rise(entries, i, j);
            assert(names[p] != names[q]);
        } else {
            lemma_places_rise(entries, j, i);
            assert(names[q] != names[p]);
        }
    }
}

/// The nodes of a cycle are nodes of its graph.
proof fn lemma_cycle_nodes(g: Seq<Seq<usize>>, c: Seq<usize>)
    requires
        is_cycle(g, c),
    ensures
        forall|i: int| 0 <= i < c.len() ==> c[i] < g.len(),
{
    assert forall|i: int| 0 <= i < c.len() implies c[i] < g.len() by {
        if i < c.len() - 1 {
            assert(crate::graph::has_edge(g, c[i], c[i + 1]));
        }
    }
}

/// Checks the syntax trees of all sources against each other and links
/// them into a document.
pub fn validate(trees: &Vec<SyntaxTree>) -> (r: Result<Document, ErrorKind>)
    ensures
        decided(r, verdict(views(trees@))),
{
    let ns = gather(trees);
    let ghost v = namespace_of(views(trees@));
    let ghost o = outline_of(v);
    proof {
        assert(ns.entries@.len() == ns.entries.len());
        assert(ns.names() =~= qualified_names(v.entries));
        assert(ns.outline() == o);
        assert(ns.entry_views(trees@) =~= v.entries) by {
            assert forall|i: int| 0 <= i < v.entries.len() implies ns.entry(trees@, i)
                == v.entries[i] by {
                assert(ns.entries@[i].models(trees@, v.entries[i]));
            }
        }
        assert(ns.placed(trees@)) by {
            assert forall|i: int| 0 <= i < ns.entries@.len() implies (#[trigger] ns.entries@[i]).source
                < trees@.len() && ns.entries@[i].index
                < trees@[ns.entries@[i].source as int].declarations@.len() by {
                assert(ns.entries@[i].models(trees@, v.entries[i]));
            }
        }
        lemma_gathered_wf(views(trees@), trees@.len() as int);
    }
    let (names, places) = declare(&ns, trees);
    let declared_names = NameIndex::new(names);
    match declared_names.find_duplicate() {
        Some((i, j)) => {
            return Err(
                ErrorKind::DuplicateDefinition {
                    name: declared_names.name_at(j).clone(),
                    first: places[i],
                    second: places[j],
                },
            );
        },
        None => {},
    }
    let index = ns.index();
    match check_imports(&ns) {
        Some(e) => {
            return Err(e);
        },
        None => {},
    }
    let definitions = match link_entries(&ns, &index, trees) {
        Ok(definitions) => definitions,
        Err(e) => {
            return Err(e);
        },
    };
    let modules = link_modules(&ns);
    let module_graph = dependency_graph(&modules);
    assert(graph_wf(views(module_graph@))) by {
        assert forall|a: int, j: int|
            0 <= a < views(module_graph@).len() && 0 <= j < views(
                module_graph@,
            )[a].len() implies #[trigger] views(module_graph@)[a][j] < views(
            module_graph@,
        ).len() by {
            assert(views(module_graph@)[a][j] == modules@[a].imports@[j]);
        }
    }
    match find_cycle(&module_graph) {
        Some(cycle) => {
            proof {
                lemma_cycle_nodes(views(module_graph@), cycle@);
            }
            let path = modules_along(&modules, &cycle);
            return Err(ErrorKind::CyclicDefinition { path });
        },
        None => {},
    }
    let graph = containment_graph(&definitions);
    match find_cycle(&graph) {
        Some(cycle) => {
            proof {
                lemma_cycle_nodes(views(graph@), cycle@);
            }
            let path = definitions_along(&definitions, &cycle);
            return Err(ErrorKind::CyclicDefinition { path });
        },
        None => {},
    }
    match check_definitions(&definitions) {
        Some(e) => {
            return Err(e);
        },
        None => {},
    }
    let docs = ns.docs;
    proof {
        assert(modules@.len() == modules.len());
        let document = DocumentView {
            modules: views(modules@),
            definitions: views(definitions@),
            docs: views(docs@),
        };
        lemma_linked_entries(o, v.entries, 0, Seq::empty());
        lemma_no_duplicate(names_of(all_declared(v.entries)), 0);
        lemma_names_apart(o, v.entries, document.definitions);
        assert forall|i: int| 0 <= i < document.definitions.len() implies definition_placed(
            document.modules,
            #[trigger] document.definitions[i],
        ) by {
            assert(linked_entry(o, v.entries[i]) == Ok::<DefinitionView, ErrorKindView>(
                document.definitions[i],
            ));
            lemma_index_of_found(o.modules, v.entries[i].module, 0);
        }
        assert forall|i: int, k: int|
            0 <= i < document.modules.len() && 0 <= k
                < document.modules[i].imports.len() implies #[trigger] document.modules[i].imports[k]
            < document.modules.len() by {
            assert(document.modules[i].imports[k] == modules@[i].imports@[k]);
        }
        assert(document.wf());
        assert(definition_names(document.definitions) =~= o.names) by {
            assert forall|i: int| 0 <= i < document.definitions.len() implies definition_names(
                document.definitions,
            )[i] == o.names[i] by {
                assert(linked_entry(o, v.entries[i]) == Ok::<DefinitionView, ErrorKindView>(
                    document.definitions[i],
                ));
            }
        }
    }
    Ok(Document::assemble(modules, definitions, docs, index))
}

} // verus!
