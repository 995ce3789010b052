//! What holds of every load, stated over the spec functions in which the
//! loader's contract is written, and proved from them.

use vstd::prelude::*;
use crate::declared::{all_declared, lemma_declared_entry, lemma_places_rise, names_of, place};
use crate::error::ErrorKindView;
use crate::graph::{acyclic, is_cycle};
use crate::load::{load_verdict, parsed_sources, SourceView};
use crate::model::{containment, dependencies, qualified_name, Document};
use crate::namespace::{
    first_duplicate, gathered, index_of, lemma_duplicate_found, lemma_no_duplicate,
    namespace_of, with_declarations, EntryView, NamespaceView,
};
use crate::render::rendering;
use crate::resolve::{
    import_error, linked_chain, linked_entries, linked_entry, linked_function, linked_functions,
    linked_members, linked_modules, linked_type, resolve, undefined, Outline,
};
use crate::syntax::{DeclarationView, FunctionDeclView, MemberView, NameRefView, SyntaxTreeView};
use crate::validate::{definitions_error, duplicate, lemma_linked_entries, outline_of, Verdict};

verus! {

/// How many of the first `n` declarations of a source define no name:
/// the `module` and `use` declarations.
pub open spec fn directives_in(declarations: Seq<DeclarationView>, n: int) -> int
    decreases n,
{
    if n <= 0 {
        0
    } else if declarations[n - 1].kind.defines() {
        directives_in(declarations, n - 1)
    } else {
        directives_in(declarations, n - 1) + 1
    }
}

/// How many declarations the first `n` sources hold.
pub open spec fn declaration_count(trees: Seq<SyntaxTreeView>, n: int) -> int
    decreases n,
{
    if n <= 0 {
        0
    } else {
        declaration_count(trees, n - 1) + trees[n - 1].declarations.len()
    }
}

/// How many `module` and `use` declarations the first `n` sources hold.
pub open spec fn directive_count(trees: Seq<SyntaxTreeView>, n: int) -> int
    decreases n,
{
    if n <= 0 {
        0
    } else {
        directive_count(trees, n - 1) + directives_in(
            trees[n - 1].declarations,
            trees[n - 1].declarations.len() as int,
        )
    }
}

proof fn lemma_entries_of_declarations(
    ns: NamespaceView,
    declarations: Seq<DeclarationView>,
    n: int,
)
    requires
        0 <= n <= declarations.len(),
    ensures
        with_declarations(ns, declarations, n).entries.len() + directives_in(declarations, n)
            == ns.entries.len() + n,
    decreases n,
{
    if n > 0 {
        lemma_entries_of_declarations(ns, declarations, n - 1);
    }
}

/// Every declaration of the sources is an entry of their namespace or one
/// of their `module` and `use` declarations.
pub proof fn lemma_entries_count(trees: Seq<SyntaxTreeView>, n: int)
    requires
        0 <= n <= trees.len(),
    ensures
        gathered(trees, n).entries.len() + directive_count(trees, n) == declaration_count(
            trees,
            n,
        ),
    decreases n,
{
    if n > 0 {
        lemma_entries_count(trees, n - 1);
        lemma_entries_of_declarations(
            gathered(trees, n - 1),
            trees[n - 1].declarations,
            trees[n - 1].declarations.len() as int,
        );
    }
}

/// Sources that lex and parse, in which no qualified name is declared
/// twice, every import names a module, every name in a type refers
/// to something, no module imports itself through others, no definition
/// holds itself in place and every type is well formed, load into a
/// document, and that document has one definition for each of their
/// declarations but the `module` and `use` declarations.
pub proof fn law_consistent_sources_load(sources: Seq<SourceView>)
    requires
        parsed_sources(sources, sources.len() as int) is Ok,
        ({
            let ns = namespace_of(parsed_sources(sources, sources.len() as int)->Ok_0);
            let o = outline_of(ns);
            &&& first_duplicate(names_of(all_declared(ns.entries))) is None
            &&& import_error(o, 0) is None
            &&& linked_entries(o, ns.entries, 0, Seq::empty()) matches Ok(definitions)
            &&& acyclic(dependencies(linked_modules(o)))
            &&& acyclic(containment(definitions))
            &&& definitions_error(definitions, 0) is None
        }),
    ensures
        load_verdict(sources) matches Verdict::Passes(document) && ({
            let trees = parsed_sources(sources, sources.len() as int)->Ok_0;
            document.definitions.len() + directive_count(trees, trees.len() as int)
                == declaration_count(trees, trees.len() as int)
        }),
{
    law_definition_count(sources);
}

/// A document that was loaded has one definition for each declaration of
/// its sources but the `module` and `use` declarations: where the sources
/// hold none of these, as many definitions as they hold declarations.
pub proof fn law_definition_count(sources: Seq<SourceView>)
    requires
        load_verdict(sources) is Passes,
    ensures
        parsed_sources(sources, sources.len() as int) matches Ok(trees) && load_verdict(
            sources,
        ) matches Verdict::Passes(document) && document.definitions.len() + directive_count(
            trees,
            trees.len() as int,
        ) == declaration_count(trees, trees.len() as int),
{
    let trees = parsed_sources(sources, sources.len() as int)->Ok_0;
    let ns = namespace_of(trees);
    lemma_entries_count(trees, trees.len() as int);
    lemma_linked_entries(outline_of(ns), ns.entries, 0, Seq::empty());
}

/// Rendering is a function of the document: documents that hold the same
/// render to the same text, and so does one document each time.
pub proof fn law_rendering_is_deterministic(a: Document, b: Document)
    requires
        a@ == b@,
    ensures
        rendering(a@) == rendering(b@),
{
}

/// Sources that lex and parse and that declare one qualified name twice,
/// be it as a type, as an interface or as a function of an interface, fail
/// to load with a duplicate definition error. The error names two
/// declarations of one name, by the places of both, the earlier first.
/// Here `i` and `j` are the places of the two names among all that the
/// sources declare.
pub proof fn law_duplicate_names_fail(sources: Seq<SourceView>, i: int, j: int)
    requires
        parsed_sources(sources, sources.len() as int) is Ok,
        ({
            let ns = namespace_of(parsed_sources(sources, sources.len() as int)->Ok_0);
            let all = all_declared(ns.entries);
            &&& all.len() <= usize::MAX
            &&& 0 <= i < j < all.len()
            &&& all[i].name == all[j].name
        }),
    ensures
        ({
            let ns = namespace_of(parsed_sources(sources, sources.len() as int)->Ok_0);
            let all = all_declared(ns.entries);
            exists|a: int, b: int|
                0 <= a < b < all.len() && all[a].name == all[b].name && load_verdict(sources)
                    == Verdict::Fails(#[trigger] duplicate(ns, a, b))
        }),
{
    let ns = namespace_of(parsed_sources(sources, sources.len() as int)->Ok_0);
    let all = all_declared(ns.entries);
    let names = names_of(all);
    if first_duplicate(names) is None {
        lemma_no_duplicate(names, 0);
        assert(names[i] != names[j]);
    }
    lemma_duplicate_found(names, 0);
    let (a, b) = first_duplicate(names)->Some_0;
    assert(names[a as int] == all[a as int].name);
    assert(names[b as int] == all[b as int].name);
    assert(load_verdict(sources) == Verdict::Fails(duplicate(ns, a as int, b as int)));
}

/// Sources that lex and parse and in which two definitions share a
/// qualified name fail to load with a duplicate definition error.
pub proof fn law_duplicate_definitions_fail(sources: Seq<SourceView>, i: int, j: int)
    requires
        parsed_sources(sources, sources.len() as int) is Ok,
        ({
            let ns = namespace_of(parsed_sources(sources, sources.len() as int)->Ok_0);
            &&& all_declared(ns.entries).len() <= usize::MAX
            &&& 0 <= i < j < ns.entries.len()
            &&& ns.entries[i].qualified() == ns.entries[j].qualified()
        }),
    ensures
        ({
            let ns = namespace_of(parsed_sources(sources, sources.len() as int)->Ok_0);
            let all = all_declared(ns.entries);
            exists|a: int, b: int|
                0 <= a < b < all.len() && all[a].name == all[b].name && load_verdict(sources)
                    == Verdict::Fails(#[trigger] duplicate(ns, a, b))
        }),
{
    let ns = namespace_of(parsed_sources(sources, sources.len() as int)->Ok_0);
    let n = ns.entries.len() as int;
    lemma_declared_entry(ns.entries, i, n);
    lemma_declared_entry(ns.entries, j, n);
    lemma_places_rise(ns.entries, i, j);
    law_duplicate_names_fail(sources, place(ns.entries, i), place(ns.entries, j));
}

/// Sources that lex and parse and in which two functions of one interface
/// share a name fail to load with a duplicate definition error.
pub proof fn law_duplicate_functions_fail(sources: Seq<SourceView>, k: int, a: int, b: int)
    requires
        parsed_sources(sources, sources.len() as int) is Ok,
        ({
            let ns = namespace_of(parsed_sources(sources, sources.len() as int)->Ok_0);
            &&& all_declared(ns.entries).len() <= usize::MAX
            &&& 0 <= k < ns.entries.len()
            &&& 0 <= a < b < ns.entries[k].declaration.functions.len()
            &&& ns.entries[k].declaration.functions[a].name
                == ns.entries[k].declaration.functions[b].name
        }),
    ensures
        ({
            let ns = namespace_of(parsed_sources(sources, sources.len() as int)->Ok_0);
            let all = all_declared(ns.entries);
            exists|p: int, q: int|
                0 <= p < q < all.len() && all[p].name == all[q].name && load_verdict(sources)
                    == Verdict::Fails(#[trigger] duplicate(ns, p, q))
        }),
{
    let ns = namespace_of(parsed_sources(sources, sources.len() as int)->Ok_0);
    let n = ns.entries.len() as int;
    lemma_declared_entry(ns.entries, k, n);
    let p = place(ns.entries, k);
    let all = all_declared(ns.entries);
    assert(all[p + 1 + a].name == all[p + 1 + b].name);
    law_duplicate_names_fail(sources, p + 1 + a, p + 1 + b);
}

/// Sources that lex and parse and in which a function of an interface has
/// the qualified name of a definition fail to load with a duplicate
/// definition error.
pub proof fn law_function_named_as_definition_fails(
    sources: Seq<SourceView>,
    k: int,
    a: int,
    j: int,
)
    requires
        parsed_sources(sources, sources.len() as int) is Ok,
        ({
            let ns = namespace_of(parsed_sources(sources, sources.len() as int)->Ok_0);
            &&& all_declared(ns.entries).len() <= usize::MAX
            &&& 0 <= k < ns.entries.len()
            &&& 0 <= j < ns.entries.len()
            &&& 0 <= a < ns.entries[k].declaration.functions.len()
            &&& qualified_name(
                ns.entries[k].qualified(),
                ns.entries[k].declaration.functions[a].name,
            ) == ns.entries[j].qualified()
        }),
    ensures
        ({
            let ns = namespace_of(parsed_sources(sources, sources.len() as int)->Ok_0);
            let all = all_declared(ns.entries);
            exists|p: int, q: int|
                0 <= p < q < all.len() && all[p].name == all[q].name && load_verdict(sources)
                    == Verdict::Fails(#[trigger] duplicate(ns, p, q))
        }),
{
    let ns = namespace_of(parsed_sources(sources, sources.len() as int)->Ok_0);
    let n = ns.entries.len() as int;
    lemma_declared_entry(ns.entries, k, n);
    lemma_declared_entry(ns.entries, j, n);
    let p = place(ns.entries, k) + 1 + a;
    let q = place(ns.entries, j);
    let all = all_declared(ns.entries);
    assert(all[p].name == all[q].name);
    if j < k {
        lemma_places_rise(ns.entries, j, k);
        law_duplicate_names_fail(sources, q, p);
    } else if j == k {
        law_duplicate_names_fail(sources, q, p);
    } else {
        lemma_places_rise(ns.entries, k, j);
        law_duplicate_names_fail(sources, p, q);
    }
}

/// Whether the type, which may be missing, holds the name `r`.
pub open spec fn type_mentions(ty: Option<Seq<NameRefView>>, r: NameRefView) -> bool {
    ty matches Some(chain) && chain.contains(r)
}

/// Whether the type of one of the members holds the name `r`.
pub open spec fn members_mention(members: Seq<MemberView>, r: NameRefView) -> bool {
    exists|i: int| 0 <= i < members.len() && type_mentions(#[trigger] members[i].ty, r)
}

/// Whether the signature of the function holds the name `r`.
pub open spec fn function_mentions(f: FunctionDeclView, r: NameRefView) -> bool {
    members_mention(f.params, r) || type_mentions(f.result, r)
}

/// Whether a type in the declaration holds the name `r`.
pub open spec fn declaration_mentions(d: DeclarationView, r: NameRefView) -> bool {
    ||| type_mentions(d.target, r)
    ||| members_mention(d.members, r)
    ||| exists|i: int| 0 <= i < d.functions.len() && function_mentions(#[trigger] d.functions[i], r)
}

/// Whether `e` is the error of a name that the entry holds and that refers
/// to nothing.
pub open spec fn reports_name_of(o: Outline, entry: EntryView, e: ErrorKindView) -> bool {
    exists|r: NameRefView|
        #[trigger] declaration_mentions(entry.declaration, r) && resolve(o, entry.module, r)
            is None && e == undefined(r)
}

proof fn lemma_linked_chain(
    o: Outline,
    module: Seq<char>,
    chain: Seq<NameRefView>,
    k: int,
    acc: Seq<crate::model::Reference>,
)
    requires
        0 <= k,
    ensures
        match linked_chain(o, module, chain, k, acc) {
            Ok(_) => forall|i: int|
                k <= i < chain.len() ==> resolve(o, module, #[trigger] chain[i]) is Some,
            Err(e) => exists|i: int|
                k <= i < chain.len() && resolve(o, module, #[trigger] chain[i]) is None && e
                    == undefined(chain[i]),
        },
    decreases chain.len() - k,
{
    if k < chain.len() {
        match resolve(o, module, chain[k]) {
            Some(target) => {
                lemma_linked_chain(
                    o,
                    module,
                    chain,
                    k + 1,
                    acc.push(
                        crate::model::Reference { target, location: chain[k].location },
                    ),
                );
            },
            None => {},
        }
    }
}

proof fn lemma_linked_type(o: Outline, module: Seq<char>, ty: Option<Seq<NameRefView>>)
    ensures
        match linked_type(o, module, ty) {
            Ok(_) => forall|r: NameRefView|
                #[trigger] type_mentions(ty, r) ==> resolve(o, module, r) is Some,
            Err(e) => exists|r: NameRefView|
                #[trigger] type_mentions(ty, r) && resolve(o, module, r) is None && e
                    == undefined(r),
        },
{
    if let Some(chain) = ty {
        lemma_linked_chain(o, module, chain, 0, Seq::empty());
        match linked_chain(o, module, chain, 0, Seq::empty()) {
            Ok(_) => {
                assert forall|r: NameRefView| #[trigger] type_mentions(ty, r) implies resolve(
                    o,
                    module,
                    r,
                ) is Some by {
                    let i = choose|i: int| 0 <= i < chain.len() && chain[i] == r;
                    assert(resolve(o, module, chain[i]) is Some);
                }
            },
            Err(e) => {
                let i = choose|i: int|
                    0 <= i < chain.len() && resolve(o, module, #[trigger] chain[i]) is None && e
                        == undefined(chain[i]);
                assert(type_mentions(ty, chain[i]));
            },
        }
    }
}

proof fn lemma_linked_members(
    o: Outline,
    module: Seq<char>,
    members: Seq<MemberView>,
    k: int,
    acc: Seq<crate::model::FieldView>,
)
    requires
        0 <= k,
    ensures
        match linked_members(o, module, members, k, acc) {
            Ok(_) => forall|i: int, r: NameRefView|
                k <= i < members.len() && #[trigger] type_mentions(members[i].ty, r) ==> resolve(
                    o,
                    module,
                    r,
                ) is Some,
            Err(e) => exists|i: int, r: NameRefView|
                k <= i < members.len() && #[trigger] type_mentions(members[i].ty, r) && resolve(
                    o,
                    module,
                    r,
                ) is None && e == undefined(r),
        },
    decreases members.len() - k,
{
    if k < members.len() {
        lemma_linked_type(o, module, members[k].ty);
        match linked_type(o, module, members[k].ty) {
            Ok(ty) => {
                lemma_linked_members(
                    o,
                    module,
                    members,
                    k + 1,
                    acc.push(crate::model::FieldView { name: members[k].name, ty }),
                );
            },
            Err(e) => {
                let r = choose|r: NameRefView|
                    #[trigger] type_mentions(members[k].ty, r) && resolve(o, module, r) is None
                        && e == undefined(r);
                assert(type_mentions(members[k].ty, r));
            },
        }
    }
}

proof fn lemma_linked_function(o: Outline, module: Seq<char>, f: FunctionDeclView)
    ensures
        match linked_function(o, module, f) {
            Ok(_) => forall|r: NameRefView|
                #[trigger] function_mentions(f, r) ==> resolve(o, module, r) is Some,
            Err(e) => exists|r: NameRefView|
                #[trigger] function_mentions(f, r) && resolve(o, module, r) is None && e
                    == undefined(r),
        },
{
    lemma_linked_members(o, module, f.params, 0, Seq::empty());
    lemma_linked_type(o, module, f.result);
    match linked_members(o, module, f.params, 0, Seq::empty()) {
        Err(e) => {
            let (i, r) = choose|i: int, r: NameRefView|
                0 <= i < f.params.len() && #[trigger] type_mentions(f.params[i].ty, r) && resolve(
                    o,
                    module,
                    r,
                ) is None && e == undefined(r);
            assert(members_mention(f.params, r));
            assert(function_mentions(f, r));
        },
        Ok(_) => {
            match linked_type(o, module, f.result) {
                Err(e) => {
                    let r = choose|r: NameRefView|
                        #[trigger] type_mentions(f.result, r) && resolve(o, module, r) is None
                            && e == undefined(r);
                    assert(function_mentions(f, r));
                },
                Ok(_) => {
                    assert forall|r: NameRefView| #[trigger]
                        function_mentions(f, r) implies resolve(o, module, r) is Some by {
                        if members_mention(f.params, r) {
                            let i = choose|i: int|
                                0 <= i < f.params.len() && type_mentions(
                                    #[trigger] f.params[i].ty,
                                    r,
                                );
                            assert(type_mentions(f.params[i].ty, r));
                        }
                    }
                },
            }
        },
    }
}

proof fn lemma_linked_functions(
    o: Outline,
    module: Seq<char>,
    functions: Seq<FunctionDeclView>,
    k: int,
    acc: Seq<crate::model::FunctionView>,
)
    requires
        0 <= k,
    ensures
        match linked_functions(o, module, functions, k, acc) {
            Ok(_) => forall|i: int, r: NameRefView|
                k <= i < functions.len() && #[trigger] function_mentions(functions[i], r)
                    ==> resolve(o, module, r) is Some,
            Err(e) => exists|i: int, r: NameRefView|
                k <= i < functions.len() && #[trigger] function_mentions(functions[i], r)
                    && resolve(o, module, r) is None && e == undefined(r),
        },
    decreases functions.len() - k,
{
    if k < functions.len() {
        lemma_linked_function(o, module, functions[k]);
        match linked_function(o, module, functions[k]) {
            Ok(f) => {
                lemma_linked_functions(o, module, functions, k + 1, acc.push(f));
            },
            Err(e) => {
                let r = choose|r: NameRefView|
                    #[trigger] function_mentions(functions[k], r) && resolve(o, module, r)
                        is None && e == undefined(r);
                assert(function_mentions(functions[k], r));
            },
        }
    }
}

/// Linking an entry succeeds where every name that it holds refers to
/// something, and else fails with the error of one that refers to nothing.
pub proof fn lemma_linked_entry(o: Outline, entry: EntryView)
    ensures
        match linked_entry(o, entry) {
            Ok(_) => forall|r: NameRefView|
                #[trigger] declaration_mentions(entry.declaration, r) ==> resolve(
                    o,
                    entry.module,
                    r,
                ) is Some,
            Err(e) => reports_name_of(o, entry, e),
        },
{
    let d = entry.declaration;
    let module = entry.module;
    lemma_linked_type(o, module, d.target);
    lemma_linked_members(o, module, d.members, 0, Seq::empty());
    lemma_linked_functions(o, module, d.functions, 0, Seq::empty());
    match linked_type(o, module, d.target) {
        Err(e) => {
            let r = choose|r: NameRefView|
                #[trigger] type_mentions(d.target, r) && resolve(o, module, r) is None && e
                    == undefined(r);
            assert(declaration_mentions(d, r));
        },
        Ok(_) => match linked_members(o, module, d.members, 0, Seq::empty()) {
            Err(e) => {
                let (i, r) = choose|i: int, r: NameRefView|
                    0 <= i < d.members.len() && #[trigger] type_mentions(d.members[i].ty, r)
                        && resolve(o, module, r) is None && e == undefined(r);
                assert(members_mention(d.members, r));
                assert(declaration_mentions(d, r));
            },
            Ok(_) => match linked_functions(o, module, d.functions, 0, Seq::empty()) {
                Err(e) => {
                    let (i, r) = choose|i: int, r: NameRefView|
                        0 <= i < d.functions.len() && #[trigger] function_mentions(
                            d.functions[i],
                            r,
                        ) && resolve(o, module, r) is None && e == undefined(r);
                    assert(function_mentions(d.functions[i], r));
                    assert(declaration_mentions(d, r));
                },
                Ok(_) => {
                    assert forall|r: NameRefView| #[trigger]
                        declaration_mentions(d, r) implies resolve(o, module, r) is Some by {
                        if members_mention(d.members, r) {
                            let i = choose|i: int|
                                0 <= i < d.members.len() && type_mentions(
                                    #[trigger] d.members[i].ty,
                                    r,
                                );
                            assert(type_mentions(d.members[i].ty, r));
                        } else if !type_mentions(d.target, r) {
                            let i = choose|i: int|
                                0 <= i < d.functions.len() && function_mentions(
                                    #[trigger] d.functions[i],
                                    r,
                                );
                            assert(function_mentions(d.functions[i], r));
                        }
                    }
                },
            },
        },
    }
}

/// Linking the entries from `k` on succeeds where every name that they hold
/// refers to something, and else fails with the error of one that refers to
/// nothing.
pub proof fn lemma_linked_entries_names(
    o: Outline,
    entries: Seq<EntryView>,
    k: int,
    acc: Seq<crate::model::DefinitionView>,
)
    requires
        0 <= k,
    ensures
        match linked_entries(o, entries, k, acc) {
            Ok(_) => forall|i: int, r: NameRefView|
                k <= i < entries.len() && #[trigger] declaration_mentions(
                    entries[i].declaration,
                    r,
                ) ==> resolve(o, entries[i].module, r) is Some,
            Err(e) => exists|i: int|
                k <= i < entries.len() && reports_name_of(o, #[trigger] entries[i], e),
        },
    decreases entries.len() - k,
{
    if k < entries.len() {
        lemma_linked_entry(o, entries[k]);
        match linked_entry(o, entries[k]) {
            Ok(d) => {
                lemma_linked_entries_names(o, entries, k + 1, acc.push(d));
            },
            Err(e) => {
                assert(reports_name_of(o, entries[k], e));
            },
        }
    }
}

/// Sources that lex and parse, in which no qualified name is declared
/// twice and every import names a module, but in which a
/// definition holds a name that refers to nothing, fail to load with an
/// undefined name error. The error gives such a name of one of the
/// definitions as it is written, and the place where it is written.
pub proof fn law_undefined_names_fail(sources: Seq<SourceView>, k: int, r: NameRefView)
    requires
        parsed_sources(sources, sources.len() as int) is Ok,
        ({
            let ns = namespace_of(parsed_sources(sources, sources.len() as int)->Ok_0);
            let o = outline_of(ns);
            &&& first_duplicate(names_of(all_declared(ns.entries))) is None
            &&& import_error(o, 0) is None
            &&& 0 <= k < ns.entries.len()
            &&& declaration_mentions(ns.entries[k].declaration, r)
            &&& resolve(o, ns.entries[k].module, r) is None
        }),
    ensures
        ({
            let ns = namespace_of(parsed_sources(sources, sources.len() as int)->Ok_0);
            let o = outline_of(ns);
            load_verdict(sources) matches Verdict::Fails(e) && exists|i: int|
                0 <= i < ns.entries.len() && reports_name_of(o, #[trigger] ns.entries[i], e)
        }),
{
    let ns = namespace_of(parsed_sources(sources, sources.len() as int)->Ok_0);
    let o = outline_of(ns);
    lemma_linked_entries_names(o, ns.entries, 0, Seq::empty());
}

/// Where the imports are searched from `k` on and an error comes back, it
/// is the error of an import that names no module.
pub proof fn lemma_import_error(o: Outline, k: int)
    requires
        0 <= k,
    ensures
        match import_error(o, k) {
            Some(e) => exists|i: int|
                k <= i < o.imports.len() && index_of(o.modules, (#[trigger] o.imports[i]).name, 0)
                    is None && e == (ErrorKindView::UndefinedName {
                    name: o.imports[i].name,
                    location: o.imports[i].location,
                }),
            None => forall|i: int|
                k <= i < o.imports.len() ==> index_of(
                    o.modules,
                    (#[trigger] o.imports[i]).name,
                    0,
                ) is Some,
        },
    decreases o.imports.len() - k,
{
    if k < o.imports.len() {
        lemma_import_error(o, k + 1);
    }
}

/// Sources that lex and parse, in which no qualified name is declared
/// twice, but in which an import names no module, fail to load
/// with an undefined name error that gives the name and place of such an
/// import.
pub proof fn law_undefined_imports_fail(sources: Seq<SourceView>, k: int)
    requires
        parsed_sources(sources, sources.len() as int) is Ok,
        ({
            let ns = namespace_of(parsed_sources(sources, sources.len() as int)->Ok_0);
            let o = outline_of(ns);
            &&& first_duplicate(names_of(all_declared(ns.entries))) is None
            &&& 0 <= k < o.imports.len()
            &&& index_of(o.modules, o.imports[k].name, 0) is None
        }),
    ensures
        ({
            let ns = namespace_of(parsed_sources(sources, sources.len() as int)->Ok_0);
            let o = outline_of(ns);
            load_verdict(sources) matches Verdict::Fails(e) && exists|i: int|
                0 <= i < o.imports.len() && index_of(o.modules, (#[trigger] o.imports[i]).name, 0)
                    is None && e == (ErrorKindView::UndefinedName {
                    name: o.imports[i].name,
                    location: o.imports[i].location,
                })
        }),
{
    let ns = namespace_of(parsed_sources(sources, sources.len() as int)->Ok_0);
    let o = outline_of(ns);
    lemma_import_error(o, 0);
}

/// Sources that lex and parse, in which no qualified name is declared
/// twice and every name refers to something, but in which a
/// definition holds itself in place, directly or through others, fail to
/// load with a cyclic definition error.
pub proof fn law_cycles_fail(sources: Seq<SourceView>, cycle: Seq<usize>)
    requires
        parsed_sources(sources, sources.len() as int) is Ok,
        ({
            let ns = namespace_of(parsed_sources(sources, sources.len() as int)->Ok_0);
            let o = outline_of(ns);
            &&& first_duplicate(names_of(all_declared(ns.entries))) is None
            &&& import_error(o, 0) is None
            &&& linked_entries(o, ns.entries, 0, Seq::empty()) matches Ok(definitions)
            &&& is_cycle(containment(definitions), cycle)
        }),
    ensures
        load_verdict(sources) is Cyclic,
{
}

} // verus!
