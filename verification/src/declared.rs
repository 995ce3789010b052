//! The names that the sources declare: the qualified name of every
//! definition and, behind that of an interface, the qualified names of its
//! functions. A function is known as its interface's qualified name, a dot
//! and its own name. No two of these names may be equal.

use vstd::prelude::*;
use crate::model::qualified_name;
use crate::namespace::{qualified_names, qualify, EntryView, Namespace};
use crate::syntax::{lemma_views_empty, lemma_views_push, views, FunctionDeclView, SyntaxTree};
use crate::token::Location;

verus! {

/// A declared name and the place where it is declared.
pub struct Declared {
    pub name: Seq<char>,
    pub location: Location,
}

/// What the function `f` of the interface known as `owner` declares.
pub open spec fn declared_function(owner: Seq<char>, f: FunctionDeclView) -> Declared {
    Declared { name: qualified_name(owner, f.name), location: f.location }
}

/// What the entry `e` itself declares.
pub open spec fn declared_entry(e: EntryView) -> Declared {
    Declared { name: e.qualified(), location: e.declaration.location }
}

/// What the first `n` functions of the interface known as `owner` declare.
pub open spec fn declared_functions(
    owner: Seq<char>,
    functions: Seq<FunctionDeclView>,
    n: int,
) -> Seq<
    Declared,
>
    decreases n,
{
    if n <= 0 {
        Seq::empty()
    } else {
        declared_functions(owner, functions, n - 1).push(
            declared_function(owner, functions[n - 1]),
        )
    }
}

/// What the entry `e` declares: its own name, then those of its functions.
pub open spec fn declared_by(e: EntryView) -> Seq<Declared> {
    seq![declared_entry(e)] + declared_functions(
        e.qualified(),
        e.declaration.functions,
        e.declaration.functions.len() as int,
    )
}

/// What the first `n` entries declare, in order.
pub open spec fn declared(entries: Seq<EntryView>, n: int) -> Seq<Declared>
    decreases n,
{
    if n <= 0 {
        Seq::empty()
    } else {
        declared(entries, n - 1) + declared_by(entries[n - 1])
    }
}

/// All that the entries declare, in order.
pub open spec fn all_declared(entries: Seq<EntryView>) -> Seq<Declared> {
    declared(entries, entries.len() as int)
}

/// The names of what is declared, in order.
pub open spec fn names_of(d: Seq<Declared>) -> Seq<Seq<char>> {
    Seq::new(d.len(), |i: int| d[i].name)
}

/// The places of what is declared, in order.
pub open spec fn places_of(d: Seq<Declared>) -> Seq<Location> {
    Seq::new(d.len(), |i: int| d[i].location)
}

/// Where, among all that is declared, the name of entry `i` stands: behind
/// all that the entries before it declare.
pub open spec fn place(entries: Seq<EntryView>, i: int) -> int {
    declared(entries, i).len() as int
}

/// The first `n` functions declare `n` names, function by function.
pub proof fn lemma_declared_functions(owner: Seq<char>, functions: Seq<FunctionDeclView>, n: int)
    requires
        0 <= n <= functions.len(),
    ensures
        declared_functions(owner, functions, n).len() == n,
        forall|a: int|
            0 <= a < n ==> #[trigger] declared_functions(owner, functions, n)[a]
                == declared_function(owner, functions[a]),
    decreases n,
{
    if n > 0 {
        lemma_declared_functions(owner, functions, n - 1);
    }
}

/// What the first `i` entries declare stands first in what more entries
/// declare.
pub proof fn lemma_declared_grows(entries: Seq<EntryView>, i: int, n: int)
    requires
        0 <= i <= n,
    ensures
        declared(entries, i).len() <= declared(entries, n).len(),
        forall|p: int|
            0 <= p < declared(entries, i).len() ==> #[trigger] declared(entries, n)[p] == declared(
                entries,
                i,
            )[p],
    decreases n - i,
{
    if i < n {
        lemma_declared_grows(entries, i, n - 1);
    }
}

/// Among what the first `n` entries declare, the name of entry `i` stands
/// at its place and the names of its functions stand behind it, in order;
/// the next entry's place is behind them.
pub proof fn lemma_declared_entry(entries: Seq<EntryView>, i: int, n: int)
    requires
        0 <= i < n,
    ensures
        place(entries, i) >= 0,
        place(entries, i + 1) == place(entries, i) + 1
            + entries[i].declaration.functions.len(),
        place(entries, i + 1) <= declared(entries, n).len(),
        declared(entries, n)[place(entries, i)] == declared_entry(entries[i]),
        forall|a: int|
            0 <= a < entries[i].declaration.functions.len() ==> #[trigger] declared(
                entries,
                n,
            )[place(entries, i) + 1 + a] == declared_function(
                entries[i].qualified(),
                entries[i].declaration.functions[a],
            ),
{
    let e = entries[i];
    let functions = e.declaration.functions;
    let p = place(entries, i);
    lemma_declared_functions(e.qualified(), functions, functions.len() as int);
    lemma_declared_grows(entries, i + 1, n);
    let next = declared(entries, i + 1);
    assert(next == declared(entries, i) + declared_by(e));
    assert(next[p] == declared_entry(e));
    assert forall|a: int| 0 <= a < functions.len() implies #[trigger] declared(entries, n)[p + 1
        + a] == declared_function(e.qualified(), functions[a]) by {
        assert(next[p + 1 + a] == declared_by(e)[1 + a]);
        assert(declared_by(e)[1 + a] == declared_functions(
            e.qualified(),
            functions,
            functions.len() as int,
        )[a]);
    }
}

/// The place of a later entry is behind all that an earlier entry declares.
pub proof fn lemma_places_rise(entries: Seq<EntryView>, i: int, j: int)
    requires
        0 <= i < j,
    ensures
        place(entries, i + 1) <= place(entries, j),
{
    lemma_declared_grows(entries, i + 1, j);
}

/// Lists the names that the entries declare and the places where they are
/// declared, in order.
pub fn declare(ns: &Namespace, trees: &Vec<SyntaxTree>) -> (r: (Vec<String>, Vec<Location>))
    requires
        ns.placed(trees@),
        ns.names() == qualified_names(ns.entry_views(trees@)),
    ensures
        views(r.0@) == names_of(all_declared(ns.entry_views(trees@))),
        r.1@ == places_of(all_declared(ns.entry_views(trees@))),
{
    let ghost entries = ns.entry_views(trees@);
    let mut names: Vec<String> = Vec::new();
    let mut places: Vec<Location> = Vec::new();
    let ghost mut flat: Seq<Declared> = Seq::empty();
    proof {
        lemma_views_empty::<String>();
        assert(names_of(flat) =~= Seq::<Seq<char>>::empty());
        assert(places_of(flat) =~= Seq::<Location>::empty());
    }
    let mut k: usize = 0;
    while k < ns.entries.len()
        invariant
            ns.placed(trees@),
            entries == ns.entry_views(trees@),
            ns.names() == qualified_names(entries),
            k <= ns.entries@.len(),
            flat == declared(entries, k as int),
            views(names@) == names_of(flat),
            places@ == places_of(flat),
        decreases ns.entries@.len() - k,
    {
        let entry = &ns.entries[k];
        let d = &trees[entry.source].declarations[entry.index];
        let ghost e = entries[k as int];
        let ghost before = flat;
        assert(e.declaration == d@);
        assert(entry.qualified@ == e.qualified()) by {
            assert(ns.names()[k as int] == qualified_names(entries)[k as int]);
        }
        proof {
            lemma_views_push(names@, entry.qualified);
            flat = flat.push(declared_entry(e));
            assert(names_of(flat) =~= names_of(before).push(e.qualified()));
            assert(places_of(flat) =~= places_of(before).push(d@.location));
        }
        names.push(entry.qualified.clone());
        places.push(d.location);
        let mut a: usize = 0;
        assert(flat =~= before + seq![declared_entry(e)] + declared_functions(
            e.qualified(),
            e.declaration.functions,
            0,
        ));
        while a < d.functions.len()
            invariant
                a <= d.functions@.len(),
                e.declaration == d@,
                entry.qualified@ == e.qualified(),
                flat == before + seq![declared_entry(e)] + declared_functions(
                    e.qualified(),
                    e.declaration.functions,
                    a as int,
                ),
                views(names@) == names_of(flat),
                places@ == places_of(flat),
            decreases d.functions@.len() - a,
        {
            let f = &d.functions[a];
            assert(e.declaration.functions[a as int] == f@);
            let name = qualify(&entry.qualified, &f.name);
            let ghost earlier = flat;
            proof {
                lemma_views_push(names@, name);
                flat = flat.push(declared_function(e.qualified(), f@));
                assert(names_of(flat) =~= names_of(earlier).push(name@));
                assert(places_of(flat) =~= places_of(earlier).push(f.location));
                assert(flat =~= before + seq![declared_entry(e)] + declared_functions(
                    e.qualified(),
                    e.declaration.functions,
                    a as int + 1,
                ));
            }
            names.push(name);
            places.push(f.location);
            a += 1;
        }
        proof {
            assert(flat =~= before + declared_by(e));
        }
        k += 1;
    }
    (names, places)
}

} // verus!
