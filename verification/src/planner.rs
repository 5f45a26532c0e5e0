//! Shortest paths over a graph snapshot: best-first search with edge
//! length as cost and the zero heuristic, so the order of expansion is
//! by cost alone. Only a labelled edge has a length, so only a labelled
//! edge is routed over.

use crate::graph::StreetGraph;
use vstd::prelude::*;

verus! {

/// A planned route: the ordered node indices and the total cost, the
/// sum of the traversed edges' lengths. An empty node list signals "no
/// path found", a normal result, not an error.
#[derive(Clone, Debug, PartialEq, Eq)]
pub struct StreetPath {
    pub nodes: Vec<usize>,
    pub cost: u128,
}

/// The snapshot holds an edge from `u` to `v` whose label carries
/// length `w`.
pub open spec fn route_edge(g: StreetGraph, u: int, v: int, w: u64) -> bool {
    &&& 0 <= u < g.adj@.len()
    &&& exists|j: int|
        #![trigger g.adj@[u]@[j]]
        {
            &&& 0 <= j < g.adj@[u]@.len()
            &&& g.adj@[u]@[j].v == v
            &&& g.adj@[u]@[j].label matches Some(l) && l.len == w
        }
}

/// `p` is a route of total cost `c` through the snapshot: nonempty,
/// starting at a node of the graph, each consecutive pair joined by a
/// routable edge, and `c` the sum of the traversed lengths.
pub open spec fn is_route(g: StreetGraph, p: Seq<usize>, c: int) -> bool
    decreases p.len(),
{
    if p.len() == 0 {
        false
    } else if p.len() == 1 {
        g.valid_node(p[0] as int) && c == 0
    } else {
        exists|w: u64|
            #![trigger route_edge(g, p[0] as int, p[1] as int, w)]
            route_edge(g, p[0] as int, p[1] as int, w) && is_route(g, p.drop_first(), c - w)
    }
}

/// Some route joins `s` to `t`.
pub open spec fn reachable(g: StreetGraph, s: int, t: int) -> bool {
    exists|p: Seq<usize>, c: int|
        #![trigger is_route(g, p, c)]
        is_route(g, p, c) && p.first() as int == s && p.last() as int == t
}

/// A route's cost is never negative: lengths are non-negative.
pub proof fn lemma_route_nonneg(g: StreetGraph, p: Seq<usize>, c: int)
    requires
        is_route(g, p, c),
    ensures
        c >= 0,
    decreases p.len(),
{
    if p.len() > 1 {
        let w = choose|w: u64|
            route_edge(g, p[0] as int, p[1] as int, w) && is_route(g, p.drop_first(), c - w);
        lemma_route_nonneg(g, p.drop_first(), c - w);
    }
}

/// In a well-formed graph, every node of a route is a node of the
/// graph.
pub proof fn lemma_route_in_graph(g: StreetGraph, p: Seq<usize>, c: int)
    requires
        g.wf(),
        is_route(g, p, c),
    ensures
        forall|i: int| 0 <= i < p.len() ==> 0 <= (#[trigger] p[i]) < g.n(),
    decreases p.len(),
{
    if p.len() > 1 {
        let w = choose|w: u64|
            route_edge(g, p[0] as int, p[1] as int, w) && is_route(g, p.drop_first(), c - w);
        lemma_route_in_graph(g, p.drop_first(), c - w);
        assert(forall|i: int| 1 <= i < p.len() ==> 0 <= #[trigger] p[i] < g.n()) by {
            assert(forall|i: int|
                0 <= i < p.drop_first().len() ==> 0 <= (#[trigger] p.drop_first()[i]) < g.n());
            assert(forall|i: int| 1 <= i < p.len() ==> p[i] == p.drop_first()[i - 1]);
        }
    }
}

/// Extending a route by one routable edge extends its cost by that
/// edge's length.
pub proof fn lemma_route_append(g: StreetGraph, p: Seq<usize>, c: int, v: usize, w: u64)
    requires
        g.wf(),
        is_route(g, p, c),
        route_edge(g, p.last() as int, v as int, w),
    ensures
        is_route(g, p.push(v), c + w),
    decreases p.len(),
{
    if p.len() == 1 {
        assert(p.push(v).drop_first() =~= seq![v]);
        assert(route_edge(g, p.push(v)[0] as int, p.push(v)[1] as int, w));
        assert(g.valid_node(v as int)) by {
            let u = p[0] as int;
            let j = choose|j: int|
                0 <= j < g.adj@[u]@.len() && g.adj@[u]@[j].v == v && (
                g.adj@[u]@[j].label matches Some(l) && l.len == w);
            assert(g.adj@[u]@[j].u == u && g.adj@[u]@[j].v < g.nodes@.len());
        }
        assert(is_route(g, seq![v], 0));
        assert(is_route(g, p.push(v).drop_first(), c + w - w));
        assert(is_route(g, p.push(v), c + w));
    } else {
        let w0 = choose|w0: u64|
            route_edge(g, p[0] as int, p[1] as int, w0) && is_route(g, p.drop_first(), c - w0);
        assert(p.drop_first().last() == p.last());
        lemma_route_append(g, p.drop_first(), c - w0, v, w);
        assert(p.push(v).drop_first() =~= p.drop_first().push(v));
        assert(route_edge(g, p.push(v)[0] as int, p.push(v)[1] as int, w0));
        assert(is_route(g, p.push(v).drop_first(), c + w - w0));
    }
}

/// A route of two or more nodes decomposes at the back: the prefix
/// without the last node is a route, and one routable edge closes the
/// gap. Returns that edge's length and the prefix cost.
pub proof fn lemma_route_last_step(g: StreetGraph, p: Seq<usize>, c: int) -> (r: (u64, int))
    requires
        g.wf(),
        is_route(g, p, c),
        p.len() >= 2,
    ensures
        route_edge(g, p[p.len() - 2] as int, p.last() as int, r.0),
        is_route(g, p.take(p.len() - 1), r.1),
        c == r.1 + r.0,
    decreases p.len(),
{
    let w0 = choose|w0: u64|
        route_edge(g, p[0] as int, p[1] as int, w0) && is_route(g, p.drop_first(), c - w0);
    if p.len() == 2 {
        lemma_route_nonneg(g, p.drop_first(), c - w0);
        assert(p.drop_first().len() == 1);
        assert(c - w0 == 0);
        assert(p.take(1) =~= seq![p[0]]);
        assert(g.valid_node(p[0] as int)) by {
            let u = p[0] as int;
            let j = choose|j: int|
                0 <= j < g.adj@[u]@.len() && g.adj@[u]@[j].v == p[1] as int && (
                g.adj@[u]@[j].label matches Some(l) && l.len == w0);
            assert(g.adj@[u]@[j].u == u);
        }
        (w0, 0)
    } else {
        let (w, c1) = lemma_route_last_step(g, p.drop_first(), c - w0);
        assert(p.drop_first()[p.drop_first().len() - 2] == p[p.len() - 2]);
        assert(p.drop_first().last() == p.last());
        let q = p.take(p.len() - 1);
        assert(q.drop_first() =~= p.drop_first().take(p.drop_first().len() - 1));
        assert(is_route(g, q.drop_first(), c1));
        assert(q[0] == p[0] && q[1] == p[1]);
        assert(route_edge(g, q[0] as int, q[1] as int, w0));
        assert(is_route(g, q, w0 + c1));
        (w, w0 + c1)
    }
}

/// Every prefix of a route is a route, at no greater cost. Returns the
/// prefix cost.
pub proof fn lemma_route_take(g: StreetGraph, p: Seq<usize>, c: int, k: int) -> (c1: int)
    requires
        g.wf(),
        is_route(g, p, c),
        1 <= k <= p.len(),
    ensures
        is_route(g, p.take(k), c1),
        0 <= c1 <= c,
    decreases p.len(),
{
    lemma_route_nonneg(g, p, c);
    if k == p.len() {
        assert(p.take(k) =~= p);
        c
    } else {
        let (w, cpre) = lemma_route_last_step(g, p, c);
        lemma_route_nonneg(g, p.take(p.len() - 1), cpre);
        let c1 = lemma_route_take(g, p.take(p.len() - 1), cpre, k);
        assert(p.take(p.len() - 1).take(k) =~= p.take(k));
        c1
    }
}

/// Every node of the route but the last is marked in `sett`.
pub open spec fn route_through(p: Seq<usize>, sett: Seq<bool>) -> bool {
    forall|m: int| 0 <= m < p.len() - 1 ==> sett[(#[trigger] p[m]) as int]
}

/// A route that starts inside the marked region and ends outside it
/// crosses the boundary a first time: returns the index of the first
/// unmarked node, every node before it marked.
pub proof fn lemma_first_exit(p: Seq<usize>, sett: Seq<bool>) -> (k: int)
    requires
        p.len() >= 1,
        forall|i: int| 0 <= i < p.len() ==> 0 <= (#[trigger] p[i]) < sett.len(),
        sett[p.first() as int],
        !sett[p.last() as int],
    ensures
        1 <= k < p.len(),
        !sett[p[k] as int],
        forall|m: int| 0 <= m < k ==> sett[(#[trigger] p[m]) as int],
    decreases p.len(),
{
    assert(p.len() >= 2);
    if !sett[p[1] as int] {
        1
    } else {
        let q = p.drop_first();
        assert(forall|i: int| 0 <= i < q.len() ==> q[i] == p[i + 1]);
        let k = lemma_first_exit(q, sett);
        assert forall|m: int| 0 <= m < k + 1 implies sett[(p[m]) as int] by {
            if m >= 1 {
                assert(q[m - 1] == p[m]);
            }
        }
        k + 1
    }
}

/// Every relaxation owed by a marked node has been done: each labelled
/// edge out of a marked node bounds its head's tentative distance.
pub open spec fn closure_inv(g: StreetGraph, dist: Seq<Option<u128>>, sett: Seq<bool>) -> bool {
    forall|u: int, j: int|
        0 <= u < g.adj@.len() && sett[u] && 0 <= j < g.adj@[u]@.len() ==> {
            let e = #[trigger] g.adj@[u]@[j];
            e.label matches Some(l) ==> {
                &&& dist[e.v as int] is Some
                &&& dist[e.v as int]->Some_0 <= dist[u]->Some_0 + l.len
            }
        }
}

/// Every marked node's tentative distance undercuts every route to it
/// from the start: marked distances are final and minimal.
pub open spec fn settled_optimal(
    g: StreetGraph,
    dist: Seq<Option<u128>>,
    sett: Seq<bool>,
    start: int,
) -> bool {
    forall|u: int, q: Seq<usize>, cq: int|
        #![trigger sett[u], is_route(g, q, cq)]
        0 <= u < g.n() && sett[u] && is_route(g, q, cq) && q.first() as int == start
            && q.last() as int == u ==> dist[u] is Some && dist[u]->Some_0 <= cq
}

/// Every tentative distance is witnessed by an actual route from the
/// start, held beside it, and is bounded by `bound` full edge lengths.
pub open spec fn witness_inv(
    g: StreetGraph,
    dist: Seq<Option<u128>>,
    paths: Seq<Option<Vec<usize>>>,
    start: int,
    bound: int,
) -> bool {
    forall|v: int|
        0 <= v < g.n() ==> {
            &&& ((#[trigger] dist[v]) is Some <==> paths[v] is Some)
            &&& (dist[v] matches Some(d) ==> {
                &&& paths[v] matches Some(pv)
                &&& is_route(g, pv@, d as int)
                &&& pv@.first() as int == start
                &&& pv@.last() as int == v
                &&& d as int <= bound * (u64::MAX as int)
            })
        }
}

/// Marked nodes carry distances, and no unmarked tentative distance
/// undercuts a marked one: expansion goes out by cost.
pub open spec fn settled_min(g: StreetGraph, dist: Seq<Option<u128>>, sett: Seq<bool>) -> bool {
    &&& forall|a: int| 0 <= a < g.n() && sett[a] ==> (#[trigger] dist[a]) is Some
    &&& forall|a: int, b: int|
        #![trigger sett[a], dist[b]]
        0 <= a < g.n() && 0 <= b < g.n() && sett[a] && !sett[b] && dist[b] is Some
            ==> dist[a]->Some_0 <= dist[b]->Some_0
}

/// A route from the start that stays inside the marked region until
/// its last node cannot undercut that node's tentative distance; in
/// particular the node has one. This is what the per-node relaxations
/// add up to.
pub proof fn lemma_through_settled(
    g: StreetGraph,
    p: Seq<usize>,
    c: int,
    dist: Seq<Option<u128>>,
    sett: Seq<bool>,
    start: int,
)
    requires
        g.wf(),
        sett.len() == g.n(),
        dist.len() == g.n(),
        closure_inv(g, dist, sett),
        settled_optimal(g, dist, sett, start),
        0 <= start < g.n(),
        dist[start] is Some && dist[start]->Some_0 == 0,
        is_route(g, p, c),
        p.first() as int == start,
        route_through(p, sett),
    ensures
        dist[p.last() as int] is Some,
        dist[p.last() as int]->Some_0 <= c,
{
    if p.len() == 1 {
        lemma_route_nonneg(g, p, c);
    } else {
        let (w, c1) = lemma_route_last_step(g, p, c);
        let q = p.take(p.len() - 1);
        let z = p[p.len() - 2] as int;
        assert(sett[z]);
        assert(q.first() == p.first() && q.last() as int == z);
        assert(dist[z] is Some && dist[z]->Some_0 <= c1) by {
            assert(0 <= z < g.n()) by {
                lemma_route_in_graph(g, p, c);
            }
            assert(sett[z] && is_route(g, q, c1));
        }
        let j = choose|j: int|
            0 <= j < g.adj@[z]@.len() && g.adj@[z]@[j].v == p.last() as int && (g.adj@[z]@[j].label
                matches Some(l) && l.len == w);
        assert(g.adj@[z]@[j].label matches Some(l) && l.len == w);
    }
}

/// How many entries of the mark vector are set.
pub open spec fn count_true(s: Seq<bool>) -> int
    decreases s.len(),
{
    if s.len() == 0 {
        0
    } else {
        count_true(s.drop_last()) + if s.last() {
            1int
        } else {
            0int
        }
    }
}

/// The count of set marks lies between zero and the length.
pub proof fn lemma_count_true_le(s: Seq<bool>)
    ensures
        0 <= count_true(s) <= s.len(),
    decreases s.len(),
{
    if s.len() > 0 {
        lemma_count_true_le(s.drop_last());
    }
}

/// Setting one unset mark raises the count by one.
pub proof fn lemma_count_true_set(s: Seq<bool>, i: int)
    requires
        0 <= i < s.len(),
        !s[i],
    ensures
        count_true(s.update(i, true)) == count_true(s) + 1,
    decreases s.len(),
{
    if i == s.len() - 1 {
        assert(s.update(i, true).drop_last() =~= s.drop_last());
    } else {
        assert(s.update(i, true).drop_last() =~= s.drop_last().update(i, true));
        lemma_count_true_set(s.drop_last(), i);
    }
}

/// A full count means every mark is set.
pub proof fn lemma_count_true_full(s: Seq<bool>)
    requires
        count_true(s) == s.len(),
    ensures
        forall|i: int| 0 <= i < s.len() ==> s[i],
    decreases s.len(),
{
    if s.len() > 0 {
        lemma_count_true_le(s.drop_last());
        lemma_count_true_full(s.drop_last());
        assert forall|i: int| 0 <= i < s.len() implies s[i] by {
            if i < s.len() - 1 {
                assert(s.drop_last()[i]);
            }
        }
    }
}

/// The unmarked node with the least tentative distance, if any node is
/// unmarked and has one; the lowest index wins ties.
fn pick_min(dist: &Vec<Option<u128>>, sett: &Vec<bool>) -> (r: Option<usize>)
    requires
        dist@.len() == sett@.len(),
    ensures
        match r {
            Some(u) => {
                &&& u < dist@.len()
                &&& !sett@[u as int]
                &&& dist@[u as int] is Some
                &&& forall|v: int|
                    0 <= v < dist@.len() && !sett@[v] && (#[trigger] dist@[v]) is Some
                        ==> dist@[u as int]->Some_0 <= dist@[v]->Some_0
            },
            None => forall|v: int|
                0 <= v < dist@.len() && !sett@[v] ==> (#[trigger] dist@[v]) is None,
        },
{
    let n = dist.len();
    let mut best: Option<usize> = None;
    for v in 0..n
        invariant
            n == dist@.len() == sett@.len(),
            match best {
                Some(u) => {
                    &&& u < n
                    &&& !sett@[u as int]
                    &&& dist@[u as int] is Some
                    &&& forall|t: int|
                        0 <= t < v && !sett@[t] && (#[trigger] dist@[t]) is Some
                            ==> dist@[u as int]->Some_0 <= dist@[t]->Some_0
                },
                None => forall|t: int| 0 <= t < v && !sett@[t] ==> (#[trigger] dist@[t]) is None,
            },
    {
        if !sett[v] {
            match dist[v] {
                Some(d) => {
                    match best {
                        Some(u) => {
                            let du = match dist[u] {
                                Some(du) => du,
                                None => 0,
                            };
                            if d < du {
                                best = Some(v);
                            }
                        },
                        None => {
                            best = Some(v);
                        },
                    }
                },
                None => {},
            }
        }
    }
    best
}

/// A route wholly inside a region that is closed under relaxation and
/// has no unmarked node with a distance ends at a marked node: marks
/// cover everything reachable from a marked start.
pub proof fn lemma_route_all_settled(
    g: StreetGraph,
    p: Seq<usize>,
    c: int,
    dist: Seq<Option<u128>>,
    sett: Seq<bool>,
)
    requires
        g.wf(),
        sett.len() == g.n(),
        dist.len() == g.n(),
        closure_inv(g, dist, sett),
        forall|v: int| 0 <= v < g.n() && !sett[v] ==> (#[trigger] dist[v]) is None,
        is_route(g, p, c),
        sett[p.first() as int],
    ensures
        sett[p.last() as int],
    decreases p.len(),
{
    if p.len() > 1 {
        let w = choose|w: u64|
            route_edge(g, p[0] as int, p[1] as int, w) && is_route(g, p.drop_first(), c - w);
        let u = p[0] as int;
        let j = choose|j: int|
            0 <= j < g.adj@[u]@.len() && g.adj@[u]@[j].v == p[1] as int && (g.adj@[u]@[j].label
                matches Some(l) && l.len == w);
        assert(g.adj@[u]@[j].label matches Some(l) && l.len == w);
        assert(dist[p[1] as int] is Some);
        assert(sett[p[1] as int]);
        lemma_route_all_settled(g, p.drop_first(), c - w, dist, sett);
    }
}

/// The minimum-total-weight route from `start` to `goal`, with edge
/// length as cost: best-first expansion by cost, the zero heuristic.
/// `start == goal` yields the single-node, zero-cost path. When no
/// route exists the path is empty — a normal, documented result, never
/// an error and never a partial path.
///
/// Among routes of equal minimal cost the choice is canonical and
/// deterministic for a fixed graph: nodes are settled cheapest first,
/// lowest index first among equals, and a node's remembered route is
/// replaced only by a strictly cheaper one, so the first minimal-cost
/// route discovered wins. The contract pins the cost and the
/// endpoints; the tie-break is this documented discovery order.
pub fn shortest_path(g: &StreetGraph, start: usize, goal: usize) -> (r: StreetPath)
    requires
        g.wf(),
        start < g.n(),
        goal < g.n(),
    ensures
        r.nodes@.len() == 0 <==> !reachable(*g, start as int, goal as int),
        r.nodes@.len() == 0 ==> r.cost == 0,
        r.nodes@.len() > 0 ==> {
            &&& is_route(*g, r.nodes@, r.cost as int)
            &&& r.nodes@.first() == start
            &&& r.nodes@.last() == goal
        },
        forall|p: Seq<usize>, c: int|
            #![trigger is_route(*g, p, c)]
            is_route(*g, p, c) && p.first() == start && p.last() == goal ==> r.cost as int <= c,
        start == goal ==> r.nodes@ == seq![start] && r.cost == 0,
{
    let n = g.nodes.len();
    let mut dist: Vec<Option<u128>> = Vec::new();
    let mut paths: Vec<Option<Vec<usize>>> = Vec::new();
    let mut sett: Vec<bool> = Vec::new();
    for i in 0..n
        invariant
            dist@.len() == i,
            paths@.len() == i,
            sett@.len() == i,
            forall|v: int| 0 <= v < i ==> (#[trigger] dist@[v]) is None,
            forall|v: int| 0 <= v < i ==> (#[trigger] paths@[v]) is None,
            forall|v: int| 0 <= v < i ==> !(#[trigger] sett@[v]),
    {
        dist.push(None);
        paths.push(None);
        sett.push(false);
    }
    let mut p0: Vec<usize> = Vec::new();
    p0.push(start);
    dist[start] = Some(0);
    paths[start] = Some(p0);
    proof {
        assert(count_true(sett@) == 0) by {
            lemma_count_true_le(sett@);
            if count_true(sett@) > 0 {
                lemma_count_all_false(sett@);
            }
        }
    }
    let mut round: usize = 0;
    while round < n
        invariant_except_break
            n == g.n(),
            g.wf(),
            start < n,
            goal < n,
            round <= n,
            dist@.len() == n,
            paths@.len() == n,
            sett@.len() == n,
            count_true(sett@) == round,
            witness_inv(*g, dist@, paths@, start as int, count_true(sett@)),
            closure_inv(*g, dist@, sett@),
            settled_optimal(*g, dist@, sett@, start as int),
            settled_min(*g, dist@, sett@),
            dist@[start as int] == Some(0u128),
            paths@[start as int] matches Some(pv) && pv@ == seq![start],
            sett@[start as int] || count_true(sett@) == 0,
            count_true(sett@) == 0 ==> forall|v: int|
                0 <= v < n && (#[trigger] dist@[v]) is Some ==> v == start,
        ensures
            n == g.n(),
            dist@.len() == n,
            paths@.len() == n,
            sett@.len() == n,
            witness_inv(*g, dist@, paths@, start as int, count_true(sett@)),
            closure_inv(*g, dist@, sett@),
            settled_optimal(*g, dist@, sett@, start as int),
            settled_min(*g, dist@, sett@),
            dist@[start as int] == Some(0u128),
            paths@[start as int] matches Some(pv) && pv@ == seq![start],
            (forall|v: int| 0 <= v < n && !sett@[v] ==> (#[trigger] dist@[v]) is None)
                || count_true(sett@) == n as int,
        decreases n - round,
    {
        let u = match pick_min(&dist, &sett) {
            None => {
                break ;
            },
            Some(u) => u,
        };
        let du: u128 = match dist[u] {
            Some(d) => d,
            None => 0,
        };
        proof {
            assert forall|q: Seq<usize>, cq: int|
                #![trigger is_route(*g, q, cq)]
                is_route(*g, q, cq) && q.first() as int == start as int && q.last() as int
                    == u as int implies du as int <= cq by {
                lemma_route_nonneg(*g, q, cq);
                if u != start {
                    assert(count_true(sett@) > 0) by {
                        if count_true(sett@) == 0 {
                            assert(dist@[u as int] is Some);
                        }
                    }
                    assert(sett@[start as int]);
                    lemma_route_in_graph(*g, q, cq);
                    assert(q.len() >= 2) by {
                        if q.len() == 1 {
                            assert(q.first() == q.last());
                        }
                    }
                    let k = lemma_first_exit(q, sett@);
                    let c1 = lemma_route_take(*g, q, cq, k + 1);
                    let pre = q.take(k + 1);
                    assert(route_through(pre, sett@)) by {
                        assert(forall|m: int| 0 <= m < pre.len() - 1 ==> pre[m] == q[m]);
                    }
                    assert(pre.first() == q.first() && pre.last() == q[k]);
                    lemma_through_settled(*g, pre, c1, dist@, sett@, start as int);
                    assert(!sett@[q[k] as int]);
                    assert(dist@[u as int]->Some_0 <= dist@[q[k] as int]->Some_0);
                }
            }
        }
        let ghost sett0 = sett@;
        sett[u] = true;
        proof {
            lemma_count_true_set(sett0, u as int);
            assert(settled_optimal(*g, dist@, sett@, start as int)) by {
                assert forall|u2: int, q: Seq<usize>, cq: int|
                    #![trigger sett@[u2], is_route(*g, q, cq)]
                    0 <= u2 < g.n() && sett@[u2] && is_route(*g, q, cq) && q.first() as int
                        == start as int && q.last() as int == u2 implies dist@[u2] is Some
                    && dist@[u2]->Some_0 <= cq by {
                    if u2 != u as int {
                        assert(sett0[u2]);
                    }
                }
            }
            assert(settled_min(*g, dist@, sett@)) by {
                assert forall|a: int, b: int|
                    #![trigger sett@[a], dist@[b]]
                    0 <= a < g.n() && 0 <= b < g.n() && sett@[a] && !sett@[b] && dist@[b] is Some
                        implies dist@[a]->Some_0 <= dist@[b]->Some_0 by {
                    if a != u as int {
                        assert(sett0[a]);
                    }
                }
            }
            assert(forall|a: int|
                0 <= a < n && sett@[a] ==> (#[trigger] dist@[a]) is Some && dist@[a]->Some_0
                    <= du) by {
                assert forall|a: int| 0 <= a < n && sett@[a] implies (#[trigger] dist@[a]) is Some
                    && dist@[a]->Some_0 <= du by {
                    if a != u as int {
                        assert(sett0[a] && !sett0[u as int]);
                    }
                }
            }
            assert(sett@[start as int]) by {
                if u != start {
                    assert(count_true(sett0) > 0) by {
                        if count_true(sett0) == 0 {
                            assert(dist@[u as int] is Some);
                        }
                    }
                    assert(sett0[start as int]);
                }
            }
        }
        let ghost sett1 = sett@;
        let ghost cnt1 = count_true(sett@);
        proof {
            lemma_count_true_le(sett1);
            assert(dist@[u as int] matches Some(d) ==> d as int <= (cnt1 - 1) * (
            u64::MAX as int)) by {
                assert(dist@[u as int] is Some);
            }
        }
        let deg = g.adj[u].len();
        let mut ji: usize = 0;
        while ji < deg
            invariant
                n == g.n(),
                g.wf(),
                start < n,
                goal < n,
                u < n,
                ji <= deg,
                deg == g.adj@[u as int]@.len(),
                dist@.len() == n,
                paths@.len() == n,
                sett@ == sett1,
                sett@.len() == n,
                cnt1 == count_true(sett@),
                1 <= cnt1 <= n,
                sett@[u as int],
                sett@[start as int],
                dist@[u as int] == Some(du),
                du as int <= (cnt1 - 1) * (u64::MAX as int),
                witness_inv(*g, dist@, paths@, start as int, cnt1),
                settled_optimal(*g, dist@, sett@, start as int),
                settled_min(*g, dist@, sett@),
                dist@[start as int] == Some(0u128),
                paths@[start as int] matches Some(pv) && pv@ == seq![start],
                forall|a: int|
                    0 <= a < n && sett@[a] ==> (#[trigger] dist@[a]) is Some && dist@[a]->Some_0
                        <= du,
                forall|w: int, j: int|
                    0 <= w < g.adj@.len() && sett@[w] && 0 <= j < g.adj@[w]@.len() && (w
                        != u as int || j < ji) ==> {
                        let e = #[trigger] g.adj@[w]@[j];
                        e.label matches Some(l) ==> {
                            &&& dist@[e.v as int] is Some
                            &&& dist@[e.v as int]->Some_0 <= dist@[w]->Some_0 + l.len
                        }
                    },
            decreases deg - ji,
        {
            let e = g.adj[u][ji];
            match e.label {
                Some(l) => {
                    if !sett[e.v] {
                        proof {
                            assert(du as int + l.len as int <= u128::MAX as int)
                                by (nonlinear_arith)
                                requires
                                    du as int <= (cnt1 - 1) * (u64::MAX as int),
                                    1 <= cnt1 <= n as int,
                                    n as int <= usize::MAX as int,
                                    usize::MAX as int <= u64::MAX as int,
                                    l.len as int <= u64::MAX as int,
                                    u128::MAX as int == (u64::MAX as int + 1) * (u64::MAX as int
                                        + 1) - 1,
                            ;
                        }
                        let cand: u128 = du + l.len as u128;
                        let relax = match dist[e.v] {
                            None => true,
                            Some(dv) => cand < dv,
                        };
                        if relax {
                            let np = match &paths[u] {
                                Some(pv) => {
                                    let mut np = crate::util::copied_vec(pv);
                                    np.push(e.v);
                                    np
                                },
                                None => {
                                    proof {
                                        assert(false);
                                    }
                                    Vec::new()
                                },
                            };
                            let ghost dist0 = dist@;
                            let ghost paths0 = paths@;
                            dist[e.v] = Some(cand);
                            paths[e.v] = Some(np);
                            proof {
                                let ev = e.v as int;
                                let pu = paths0[u as int]->Some_0;
                                assert(route_edge(*g, u as int, ev, l.len)) by {
                                    assert(g.adj@[u as int]@[ji as int] == e);
                                }
                                lemma_route_append(*g, pu@, du as int, e.v, l.len);
                                assert(np@ == pu@.push(e.v));
                                assert(witness_inv(*g, dist@, paths@, start as int, cnt1)) by {
                                    assert forall|v: int| 0 <= v < g.n() implies {
                                        &&& ((#[trigger] dist@[v]) is Some <==> paths@[v] is Some)
                                        &&& (dist@[v] matches Some(d) ==> {
                                            &&& paths@[v] matches Some(pv)
                                            &&& is_route(*g, pv@, d as int)
                                            &&& pv@.first() as int == start as int
                                            &&& pv@.last() as int == v
                                            &&& d as int <= cnt1 * (u64::MAX as int)
                                        })
                                    } by {
                                        if v != ev {
                                            assert(dist@[v] == dist0[v] && paths@[v] == paths0[v]);
                                        } else {
                                            assert((cnt1 - 1) * (u64::MAX as int) + (
                                            u64::MAX as int) == cnt1 * (u64::MAX as int))
                                                by (nonlinear_arith);
                                        }
                                    }
                                }
                                assert(settled_min(*g, dist@, sett@)) by {
                                    assert forall|a: int, b: int|
                                        #![trigger sett@[a], dist@[b]]
                                        0 <= a < g.n() && 0 <= b < g.n() && sett@[a] && !sett@[b]
                                            && dist@[b] is Some implies dist@[a]->Some_0
                                        <= dist@[b]->Some_0 by {
                                        assert(dist@[a] == dist0[a]);
                                        if b != ev {
                                            assert(dist@[b] == dist0[b]);
                                        }
                                    }
                                }
                                assert(settled_optimal(*g, dist@, sett@, start as int)) by {
                                    assert forall|u2: int, q: Seq<usize>, cq: int|
                                        #![trigger sett@[u2], is_route(*g, q, cq)]
                                        0 <= u2 < g.n() && sett@[u2] && is_route(*g, q, cq)
                                            && q.first() as int == start as int && q.last() as int
                                            == u2 implies dist@[u2] is Some && dist@[u2]->Some_0
                                        <= cq by {
                                        assert(dist@[u2] == dist0[u2]);
                                    }
                                }
                            }
                        }
                    }
                },
                None => {},
            }
            ji = ji + 1;
        }
        round = round + 1;
        proof {
            assert(closure_inv(*g, dist@, sett@));
        }
    }
    proof {
        if count_true(sett@) == n as int {
            lemma_count_true_full(sett@);
        }
        assert(forall|v: int| 0 <= v < n && !sett@[v] ==> (#[trigger] dist@[v]) is None);
        assert(sett@[start as int]) by {
            assert(dist@[start as int] is Some);
        }
    }
    let r = match dist[goal] {
        None => {
            proof {
                assert(!sett@[goal as int]);
                if reachable(*g, start as int, goal as int) {
                    let (p, c) = choose|p: Seq<usize>, c: int|
                        is_route(*g, p, c) && p.first() as int == start as int && p.last() as int
                            == goal as int;
                    lemma_route_all_settled(*g, p, c, dist@, sett@);
                    assert(false);
                }
            }
            StreetPath { nodes: Vec::new(), cost: 0 }
        },
        Some(d) => {
            let nodes = match &paths[goal] {
                Some(pv) => crate::util::copied_vec(pv),
                None => {
                    proof {
                        assert(false);
                    }
                    Vec::new()
                },
            };
            proof {
                assert(sett@[goal as int]);
                assert(is_route(*g, nodes@, d as int));
                assert(reachable(*g, start as int, goal as int));
                assert forall|p: Seq<usize>, c: int|
                    #![trigger is_route(*g, p, c)]
                    is_route(*g, p, c) && p.first() == start && p.last() == goal implies d as int
                    <= c by {
                    assert(sett@[goal as int] && is_route(*g, p, c));
                }
            }
            StreetPath { nodes, cost: d }
        },
    };
    r
}

/// An all-false mark vector counts zero.
pub proof fn lemma_count_all_false(s: Seq<bool>)
    requires
        forall|i: int| 0 <= i < s.len() ==> !(#[trigger] s[i]),
    ensures
        count_true(s) == 0,
    decreases s.len(),
{
    if s.len() > 0 {
        lemma_count_all_false(s.drop_last());
    }
}

} // verus!

