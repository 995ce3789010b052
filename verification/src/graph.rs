//! Directed graphs given by adjacency lists, and the search for a cycle.

use vstd::prelude::*;
use crate::syntax::views;

verus! {

/// Every edge of `g` leads to a node of `g`.
pub open spec fn graph_wf(g: Seq<Seq<usize>>) -> bool {
    forall|a: int, j: int| 0 <= a < g.len() && 0 <= j < g[a].len() ==> #[trigger] g[a][j] < g.len()
}

/// `g` has an edge from `a` to `b`.
pub open spec fn has_edge(g: Seq<Seq<usize>>, a: usize, b: usize) -> bool {
    a < g.len() && b < g.len() && g[a as int].contains(b)
}

/// `p` is a walk in `g`: each node has an edge to the next.
pub open spec fn is_walk(g: Seq<Seq<usize>>, p: Seq<usize>) -> bool {
    forall|i: int| 0 <= i < p.len() - 1 ==> has_edge(g, #[trigger] p[i], p[i + 1])
}

/// `c` is a cycle of `g`: a walk that is not empty and whose last node has
/// an edge to its first.
pub open spec fn is_cycle(g: Seq<Seq<usize>>, c: Seq<usize>) -> bool {
    &&& c.len() > 0
    &&& is_walk(g, c)
    &&& has_edge(g, c.last(), c[0])
}

/// `g` has no cycle.
pub open spec fn acyclic(g: Seq<Seq<usize>>) -> bool {
    forall|c: Seq<usize>| !is_cycle(g, c)
}

/// `rank` falls along every edge that leaves a node marked in `done`, and
/// such an edge leads to a marked node.
pub open spec fn ranked(g: Seq<Seq<usize>>, done: Seq<bool>, rank: Seq<nat>) -> bool {
    &&& done.len() == g.len()
    &&& rank.len() == g.len()
    &&& forall|a: int, j: int|
        0 <= a < g.len() && done[a] && 0 <= j < g[a].len() ==> done[(#[trigger] g[a][j]) as int]
            && rank[g[a][j] as int] < rank[a]
}

/// The number of entries of `s` that are set.
pub open spec fn count_set(s: Seq<bool>) -> nat
    decreases s.len(),
{
    if s.len() == 0 {
        0
    } else {
        count_set(s.drop_last()) + if s.last() {
            1nat
        } else {
            0nat
        }
    }
}

proof fn lemma_count_bound(s: Seq<bool>)
    ensures
        count_set(s) <= s.len(),
    decreases s.len(),
{
    if s.len() > 0 {
        lemma_count_bound(s.drop_last());
    }
}

/// With an entry that is not set, fewer entries are set than there are.
proof fn lemma_count_below(s: Seq<bool>, i: int)
    requires
        0 <= i < s.len(),
        !s[i],
    ensures
        count_set(s) < s.len(),
    decreases s.len(),
{
    if i == s.len() - 1 {
        lemma_count_bound(s.drop_last());
    } else {
        lemma_count_below(s.drop_last(), i);
    }
}

/// Setting an entry that was not set adds one to the count.
proof fn lemma_count_update(s: Seq<bool>, i: int)
    requires
        0 <= i < s.len(),
        !s[i],
    ensures
        count_set(s.update(i, true)) == count_set(s) + 1,
    decreases s.len(),
{
    let t = s.update(i, true);
    if i == s.len() - 1 {
        assert(t.drop_last() =~= s.drop_last());
    } else {
        assert(t.drop_last() =~= s.drop_last().update(i, true));
        lemma_count_update(s.drop_last(), i);
    }
}

/// In a walk that leaves a marked node, the rank falls from node to node.
proof fn lemma_walk_descends(
    g: Seq<Seq<usize>>,
    done: Seq<bool>,
    rank: Seq<nat>,
    p: Seq<usize>,
    k: int,
)
    requires
        ranked(g, done, rank),
        is_walk(g, p),
        0 <= k < p.len(),
        p[0] < g.len(),
        done[p[0] as int],
    ensures
        p[k] < g.len(),
        done[p[k] as int],
        rank[p[k] as int] + k <= rank[p[0] as int],
    decreases k,
{
    if k > 0 {
        lemma_walk_descends(g, done, rank, p, k - 1);
        let a = p[k - 1];
        let b = p[k];
        assert(has_edge(g, a, b));
        let j = choose|j: int| 0 <= j < g[a as int].len() && g[a as int][j] == b;
        assert(g[a as int][j] == b);
    }
}

/// A graph whose nodes are all marked and ranked has no cycle.
proof fn lemma_ranked_acyclic(g: Seq<Seq<usize>>, done: Seq<bool>, rank: Seq<nat>)
    requires
        ranked(g, done, rank),
        forall|a: int| 0 <= a < g.len() ==> done[a],
    ensures
        acyclic(g),
{
    assert forall|c: Seq<usize>| !is_cycle(g, c) by {
        if is_cycle(g, c) {
            let last = c.last();
            let first = c[0];
            assert(has_edge(g, last, first));
            lemma_walk_descends(g, done, rank, c, c.len() - 1);
            let j = choose|j: int| 0 <= j < g[last as int].len() && g[last as int][j] == first;
            assert(g[last as int][j] == first);
            assert(rank[first as int] < rank[last as int]);
        }
    }
}

/// Whether every node that `node` has an edge to is marked in `done`.
fn successors_done(g: &Vec<Vec<usize>>, done: &Vec<bool>, node: usize) -> (r: Option<usize>)
    requires
        graph_wf(views(g@)),
        done@.len() == g@.len(),
        node < g@.len(),
    ensures
        match r {
            None => forall|j: int| 0 <= j < g@[node as int]@.len() ==> done@[g@[node as int]@[j] as int],
            Some(w) => has_edge(views(g@), node, w) && !done@[w as int],
        },
{
    let edges = &g[node];
    let mut j: usize = 0;
    while j < edges.len()
        invariant
            graph_wf(views(g@)),
            done@.len() == g@.len(),
            node < g@.len(),
            edges@ == g@[node as int]@,
            j <= edges@.len(),
            forall|k: int| 0 <= k < j ==> done@[edges@[k] as int],
        decreases edges@.len() - j,
    {
        let w = edges[j];
        assert(views(g@)[node as int][j as int] == w);
        if !done[w] {
            assert(views(g@)[node as int].contains(w));
            return Some(w);
        }
        j += 1;
    }
    None
}

/// Looks for a cycle in the graph whose node `a` has an edge to each node in
/// `g[a]`. Returns the nodes of one, in order, or `None` if there is none.
pub fn find_cycle(g: &Vec<Vec<usize>>) -> (r: Option<Vec<usize>>)
    requires
        graph_wf(views(g@)),
    ensures
        match r {
            Some(c) => is_cycle(views(g@), c@),
            None => acyclic(views(g@)),
        },
{
    let n = g.len();
    let ghost graph = views(g@);
    // Mark the nodes from which no cycle can be reached, round by round: a
    // node is marked once all that it leads to is marked.
    let mut done: Vec<bool> = Vec::new();
    let mut rank: Ghost<Seq<nat>> = Ghost(Seq::new(n as nat, |i: int| 0nat));
    let mut i: usize = 0;
    while i < n
        invariant
            i <= n,
            done@.len() == i,
            forall|k: int| 0 <= k < i ==> !done@[k],
        decreases n - i,
    {
        done.push(false);
        i += 1;
    }
    let mut marked: usize = 0;
    let mut changed = true;
    proof {
        lemma_count_zero(done@);
    }
    while changed
        invariant
            n == g@.len(),
            graph == views(g@),
            graph_wf(graph),
            ranked(graph, done@, rank@),
            marked == count_set(done@),
            forall|a: int| 0 <= a < n ==> rank@[a] <= marked,
            !changed ==> forall|a: int|
                0 <= a < n && !done@[a] ==> exists|w: usize|
                    has_edge(graph, a as usize, w) && !done@[w as int],
        decreases n - marked, changed as int,
    {
        changed = false;
        let mut v: usize = 0;
        let ghost before = done@;
        while v < n
            invariant
                n == g@.len(),
                graph == views(g@),
                graph_wf(graph),
                ranked(graph, done@, rank@),
                marked == count_set(done@),
                forall|a: int| 0 <= a < n ==> rank@[a] <= marked,
                v <= n,
                !changed ==> done@ == before,
                changed ==> count_set(before) < marked,
                !changed ==> forall|a: int|
                    0 <= a < v && !done@[a] ==> exists|w: usize|
                        has_edge(graph, a as usize, w) && !done@[w as int],
            decreases n - v,
        {
            if !done[v] {
                match successors_done(g, &done, v) {
                    None => {
                        proof {
                            lemma_count_update(done@, v as int);
                            lemma_count_bound(done@.update(v as int, true));
                            rank@ = rank@.update(v as int, (marked + 1) as nat);
                        }
                        done.set(v, true);
                        marked = marked + 1;
                        changed = true;
                        proof {
                            assert forall|a: int, j: int|
                                0 <= a < graph.len() && done@[a] && 0 <= j
                                    < graph[a].len() implies done@[(#[trigger] graph[a][j]) as int]
                                && rank@[graph[a][j] as int] < rank@[a] by {
                                if a == v {
                                    assert(graph[a][j] == g@[v as int]@[j]);
                                }
                            }
                        }
                    },
                    Some(w) => {},
                }
            }
            v += 1;
        }
        proof {
            lemma_count_bound(done@);
        }
    }
    // Find a node that is not marked; if there is none, there is no cycle.
    let mut start: usize = 0;
    while start < n && done[start]
        invariant
            start <= n,
            done@.len() == n,
            forall|a: int| 0 <= a < start ==> done@[a],
        decreases n - start,
    {
        start += 1;
    }
    if start == n {
        proof {
            lemma_ranked_acyclic(graph, done@, rank@);
        }
        return None;
    }
    // Every node that is not marked leads to another such node: walk along
    // them until the walk meets itself.
    let mut place: Vec<usize> = Vec::new();
    let mut seen: Vec<bool> = Vec::new();
    let mut k: usize = 0;
    while k < n
        invariant
            k <= n,
            place@.len() == k,
            seen@.len() == k,
            forall|a: int| 0 <= a < k ==> !seen@[a],
        decreases n - k,
    {
        place.push(0);
        seen.push(false);
        k += 1;
    }
    let mut walk: Vec<usize> = Vec::new();
    let mut current = start;
    proof {
        lemma_count_zero(seen@);
    }
    loop
        invariant
            n == g@.len(),
            graph == views(g@),
            graph_wf(graph),
            done@.len() == n,
            place@.len() == n,
            seen@.len() == n,
            current < n,
            !done@[current as int],
            !seen@[current as int],
            forall|a: int|
                0 <= a < n && !done@[a] ==> exists|w: usize|
                    has_edge(graph, a as usize, w) && !done@[w as int],
            walk@.len() == count_set(seen@),
            is_walk(graph, walk@),
            walk@.len() > 0 ==> has_edge(graph, walk@.last(), current),
            forall|a: int|
                0 <= a < n && seen@[a] ==> place@[a] < walk@.len() && walk@[place@[a] as int] == a,
        decreases n - walk@.len(),
    {
        proof {
            lemma_count_below(seen@, current as int);
            lemma_count_update(seen@, current as int);
        }
        let ghost earlier = walk@;
        place.set(current, walk.len());
        seen.set(current, true);
        walk.push(current);
        assert(is_walk(graph, walk@)) by {
            assert forall|i: int| 0 <= i < walk@.len() - 1 implies has_edge(
                graph,
                #[trigger] walk@[i],
                walk@[i + 1],
            ) by {
                if i < earlier.len() - 1 {
                    assert(has_edge(graph, earlier[i], earlier[i + 1]));
                }
            }
        }
        let next = match successors_done(g, &done, current) {
            Some(w) => w,
            None => {
                proof {
                    let w = choose|w: usize|
                        has_edge(graph, current, w) && !done@[w as int];
                    let j = choose|j: int|
                        0 <= j < graph[current as int].len() && graph[current as int][j] == w;
                    assert(g@[current as int]@[j] == w);
                    assert(false);
                }
                return None;
            },
        };
        if seen[next] {
            let from = place[next];
            let mut cycle: Vec<usize> = Vec::new();
            let mut m: usize = from;
            while m < walk.len()
                invariant
                    from <= m <= walk@.len(),
                    cycle@ == walk@.subrange(from as int, m as int),
                decreases walk@.len() - m,
            {
                cycle.push(walk[m]);
                m += 1;
                assert(walk@.subrange(from as int, m as int) == walk@.subrange(
                    from as int,
                    m as int - 1,
                ).push(walk@[m as int - 1]));
            }
            assert(is_cycle(graph, cycle@)) by {
                assert(cycle@[0] == next);
                assert(cycle@.last() == current);
                assert forall|i: int| 0 <= i < cycle@.len() - 1 implies has_edge(
                    graph,
                    #[trigger] cycle@[i],
                    cycle@[i + 1],
                ) by {
                    assert(has_edge(graph, walk@[from + i], walk@[from + i + 1]));
                }
            }
            return Some(cycle);
        }
        current = next;
    }
}

/// Among entries none of which is set, none is counted.
proof fn lemma_count_zero(s: Seq<bool>)
    requires
        forall|i: int| 0 <= i < s.len() ==> !s[i],
    ensures
        count_set(s) == 0,
    decreases s.len(),
{
    if s.len() > 0 {
        lemma_count_zero(s.drop_last());
    }
}

} // verus!
