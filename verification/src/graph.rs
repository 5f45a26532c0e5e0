//! The graph snapshot: an arena of nodes addressed by dense index,
//! index-to-edge-list adjacency, and a lookup from external identifier
//! to index.

use crate::edge::{StreetEdge, StreetEdgeLabel};
use crate::errors::EdgeInsertError;
use crate::geom::{coord_ok, sq_dist, sq_dist_i128, GeoPoint};
use crate::node::StreetNode;
use std::collections::HashMap;
use vstd::prelude::*;

verus! {

broadcast use vstd::std_specs::hash::group_hash_axioms;

/// One complete, immutable-once-shared topology snapshot.
pub struct StreetGraph {
    pub nodes: Vec<StreetNode>,
    pub adj: Vec<Vec<StreetEdge>>,
    pub id_index: HashMap<i64, usize>,
    pub directed: bool,
}

/// The adjacency lists of `s`, flattened in node order.
pub open spec fn flat_of(s: Seq<Vec<StreetEdge>>) -> Seq<StreetEdge>
    decreases s.len(),
{
    if s.len() == 0 {
        Seq::empty()
    } else {
        flat_of(s.drop_last()) + s.last()@
    }
}

impl StreetGraph {
    /// Number of nodes.
    pub open spec fn n(self) -> int {
        self.nodes@.len() as int
    }

    /// Index `i` names a node of this snapshot.
    pub open spec fn valid_node(self, i: int) -> bool {
        0 <= i < self.n()
    }

    /// Every edge entry of the snapshot, in node order.
    pub open spec fn flat_edges(self) -> Seq<StreetEdge> {
        flat_of(self.adj@)
    }

    /// Total number of edge entries filed in the adjacency.
    pub open spec fn edge_entries(self) -> int {
        self.flat_edges().len() as int
    }

    /// Well-formed: adjacency matches the node arena, every filed edge
    /// starts where it is filed and ends at an existing node, the
    /// identifier lookup holds exactly the external ids of the nodes,
    /// and every coordinate is in geographic range.
    pub open spec fn wf(self) -> bool {
        &&& self.adj@.len() == self.nodes@.len()
        &&& forall|u: int, j: int|
            0 <= u < self.adj@.len() && 0 <= j < self.adj@[u]@.len() ==> {
                &&& (#[trigger] self.adj@[u]@[j]).u == u
                &&& self.adj@[u]@[j].v < self.nodes@.len()
            }
        &&& forall|i: int|
            0 <= i < self.nodes@.len() ==> {
                &&& self.id_index@.contains_key((#[trigger] self.nodes@[i]).osm_id)
                &&& self.id_index@[self.nodes@[i].osm_id] as int == i
            }
        &&& forall|k: i64|
            self.id_index@.contains_key(k) ==> {
                &&& (#[trigger] self.id_index@[k]) < self.nodes@.len()
                &&& self.nodes@[self.id_index@[k] as int].osm_id == k
            }
        &&& forall|i: int|
            0 <= i < self.nodes@.len() ==> coord_ok((#[trigger] self.nodes@[i]).loc)
    }

    /// An empty graph with the given directedness.
    pub fn new(directed: bool) -> (g: StreetGraph)
        ensures
            g.wf(),
            g.nodes@.len() == 0,
            g.adj@.len() == 0,
            g.edge_entries() == 0,
            g.id_index@ == Map::<i64, usize>::empty(),
            g.directed == directed,
    {
        StreetGraph {
            nodes: Vec::new(),
            adj: Vec::new(),
            id_index: HashMap::new(),
            directed,
        }
    }

    /// Adds a node. A node is identified by its external id: a duplicate
    /// merges into the node already present, whose index is returned and
    /// whose coordinate is kept; otherwise the node is appended and gets
    /// the next dense index.
    pub fn add_node(&mut self, node: StreetNode) -> (idx: usize)
        requires
            old(self).wf(),
            coord_ok(node.loc),
        ensures
            add_node_post(*old(self), *final(self), node, idx),
    {
        let found = match self.id_index.get(&node.osm_id) {
            Some(i) => Some(*i),
            None => None,
        };
        match found {
            Some(i) => i,
            None => {
                let idx = self.nodes.len();
                self.nodes.push(node);
                self.adj.push(Vec::new());
                self.id_index.insert(node.osm_id, idx);
                proof {
                    lemma_flat_push(old(self).adj@, self.adj@.last());
                    assert(self.adj@.drop_last() =~= old(self).adj@);
                    assert(self.flat_edges() =~= old(self).flat_edges());
                }
                idx
            },
        }
    }

    /// The outgoing edges filed under node index `u` in this snapshot.
    pub fn edges_of(&self, u: usize) -> (r: &Vec<StreetEdge>)
        requires
            self.wf(),
            u < self.nodes@.len(),
        ensures
            r@ == self.adj@[u as int]@,
    {
        &self.adj[u]
    }

    /// The index the external identifier resolves to, if any.
    pub fn index_of(&self, osm_id: i64) -> (r: Option<usize>)
        requires
            self.wf(),
        ensures
            match r {
                Some(i) => {
                    &&& self.id_index@.contains_key(osm_id)
                    &&& i == self.id_index@[osm_id]
                    &&& i < self.nodes@.len()
                    &&& self.nodes@[i as int].osm_id == osm_id
                },
                None => !self.id_index@.contains_key(osm_id),
            },
    {
        match self.id_index.get(&osm_id) {
            Some(i) => Some(*i),
            None => None,
        }
    }

    /// Files an edge from `u` to `v` with the given label; when the
    /// graph is undirected, the reverse entry is filed beside it. Both
    /// endpoints must already exist in the graph at insertion time; an
    /// unknown endpoint files nothing and is reported.
    pub fn add_edge(&mut self, u: usize, v: usize, label: Option<StreetEdgeLabel>) -> (r: Result<
        (),
        EdgeInsertError,
    >)
        requires
            old(self).wf(),
        ensures
            add_edge_post(*old(self), *final(self), u, v, label, r),
    {
        if u < self.nodes.len() && v < self.nodes.len() {
            let fwd = StreetEdge { u, v, label };
            self.adj[u].push(fwd);
            proof {
                lemma_flat_push_at(old(self).adj@, self.adj@, u as int, fwd);
            }
            if !self.directed {
                let ghost mid = self.adj@;
                let rev = StreetEdge { u: v, v: u, label };
                self.adj[v].push(rev);
                proof {
                    lemma_flat_push_at(mid, self.adj@, v as int, rev);
                }
            }
            Ok(())
        } else {
            Err(EdgeInsertError::UnknownEndpoint)
        }
    }

    /// Every edge entry of the snapshot, gathered in node order: the
    /// adjacency flattened back into one list.
    pub fn all_edges(&self) -> (r: Vec<StreetEdge>)
        requires
            self.wf(),
        ensures
            r@ == self.flat_edges(),
    {
        let mut r: Vec<StreetEdge> = Vec::new();
        let n = self.adj.len();
        for i in 0..n
            invariant
                n == self.adj@.len(),
                r@ == flat_of(self.adj@.take(i as int)),
        {
            let m = self.adj[i].len();
            for j in 0..m
                invariant
                    n == self.adj@.len(),
                    i < n,
                    m == self.adj@[i as int]@.len(),
                    r@ == flat_of(self.adj@.take(i as int)) + self.adj@[i as int]@.take(j as int),
            {
                let e = self.adj[i][j];
                r.push(e);
                proof {
                    assert(self.adj@[i as int]@.take(j as int + 1) =~= self.adj@[i as int]@.take(
                        j as int,
                    ).push(e));
                }
            }
            proof {
                lemma_flat_take_step(self.adj@, i as int);
                assert(self.adj@[i as int]@.take(m as int) =~= self.adj@[i as int]@);
            }
        }
        proof {
            assert(self.adj@.take(n as int) =~= self.adj@);
        }
        r
    }

    /// The node at dense index `id`, if that index is in range.
    pub fn node_by_id(&self, id: usize) -> (r: Option<StreetNode>)
        requires
            self.wf(),
        ensures
            match r {
                Some(n) => id < self.nodes@.len() && n == self.nodes@[id as int],
                None => id >= self.nodes@.len(),
            },
    {
        if id < self.nodes.len() {
            Some(self.nodes[id])
        } else {
            None
        }
    }
}

/// What adding a node leaves behind: `post` is `pre` with the node
/// merged in by external id. A duplicate changes nothing and yields the
/// index already held; a new id is appended under the next dense index
/// with an empty edge list. Edges are never touched.
pub open spec fn add_node_post(pre: StreetGraph, post: StreetGraph, node: StreetNode, idx: usize) -> bool {
    &&& post.wf()
    &&& post.directed == pre.directed
    &&& idx < post.nodes@.len()
    &&& post.nodes@[idx as int].osm_id == node.osm_id
    &&& post.flat_edges() == pre.flat_edges()
    &&& pre.id_index@.contains_key(node.osm_id) ==> {
        &&& post == pre
        &&& idx == pre.id_index@[node.osm_id]
    }
    &&& !pre.id_index@.contains_key(node.osm_id) ==> {
        &&& idx == pre.nodes@.len()
        &&& post.nodes@ == pre.nodes@.push(node)
        &&& post.adj@.len() == pre.adj@.len() + 1
        &&& forall|u: int| 0 <= u < pre.adj@.len() ==> post.adj@[u] == pre.adj@[u]
        &&& post.adj@[idx as int]@.len() == 0
        &&& post.id_index@ == pre.id_index@.insert(node.osm_id, idx)
    }
}

/// What filing an edge leaves behind: with both endpoints present, the
/// forward entry is appended under `u` (and the reverse entry under `v`
/// when the graph is undirected); otherwise nothing changes and the
/// unknown endpoint is reported. Nodes and the id lookup are never
/// touched.
pub open spec fn add_edge_post(
    pre: StreetGraph,
    post: StreetGraph,
    u: usize,
    v: usize,
    label: Option<StreetEdgeLabel>,
    r: Result<(), EdgeInsertError>,
) -> bool {
    &&& post.wf()
    &&& post.nodes@ == pre.nodes@
    &&& post.id_index@ == pre.id_index@
    &&& post.directed == pre.directed
    &&& post.adj@.len() == pre.adj@.len()
    &&& (r is Ok <==> (u < pre.n() && v < pre.n()))
    &&& r is Err ==> post == pre && r == Result::<(), EdgeInsertError>::Err(
        EdgeInsertError::UnknownEndpoint,
    )
    &&& r is Ok ==> ({
        let fwd = StreetEdge { u, v, label };
        let rev = StreetEdge { u: v, v: u, label };
        if pre.directed {
            &&& post.adj@[u as int]@ == pre.adj@[u as int]@.push(fwd)
            &&& forall|w: int|
                0 <= w < pre.adj@.len() && w != u ==> post.adj@[w] == pre.adj@[w]
            &&& post.edge_entries() == pre.edge_entries() + 1
        } else if u == v {
            &&& post.adj@[u as int]@ == pre.adj@[u as int]@.push(fwd).push(rev)
            &&& forall|w: int|
                0 <= w < pre.adj@.len() && w != u ==> post.adj@[w] == pre.adj@[w]
            &&& post.edge_entries() == pre.edge_entries() + 2
        } else {
            &&& post.adj@[u as int]@ == pre.adj@[u as int]@.push(fwd)
            &&& post.adj@[v as int]@ == pre.adj@[v as int]@.push(rev)
            &&& forall|w: int|
                0 <= w < pre.adj@.len() && w != u && w != v ==> post.adj@[w] == pre.adj@[w]
            &&& post.edge_entries() == pre.edge_entries() + 2
        }
    })
}

/// Flattening past an appended list appends that list's entries.
pub proof fn lemma_flat_push(s: Seq<Vec<StreetEdge>>, v: Vec<StreetEdge>)
    ensures
        flat_of(s.push(v)) == flat_of(s) + v@,
{
    assert(s.push(v).drop_last() =~= s);
    assert(flat_of(s.push(v)) == flat_of(s.push(v).drop_last()) + v@);
}

/// Appending one entry to the list filed at index `u` lengthens the
/// flattened adjacency by exactly one.
pub proof fn lemma_flat_push_at(a1: Seq<Vec<StreetEdge>>, a2: Seq<Vec<StreetEdge>>, u: int, e: StreetEdge)
    requires
        a1.len() == a2.len(),
        0 <= u < a1.len(),
        a2[u]@ == a1[u]@.push(e),
        forall|w: int| 0 <= w < a1.len() && w != u ==> a2[w] == a1[w],
    ensures
        flat_of(a2).len() == flat_of(a1).len() + 1,
    decreases a1.len(),
{
    if u == a1.len() - 1 {
        assert(a2.drop_last() =~= a1.drop_last());
    } else {
        lemma_flat_push_at(a1.drop_last(), a2.drop_last(), u, e);
        assert(a2.last() == a1.last());
    }
}

/// One step of flattening a prefix: taking in one more adjacency list
/// appends exactly that list's entries.
pub proof fn lemma_flat_take_step(s: Seq<Vec<StreetEdge>>, i: int)
    requires
        0 <= i < s.len(),
    ensures
        flat_of(s.take(i + 1)) == flat_of(s.take(i)) + s[i]@,
{
    assert(s.take(i + 1).drop_last() =~= s.take(i));
    assert(s.take(i + 1).last() == s[i]);
}

/// How many edge entries the flattening holds before node `u`'s list.
pub open spec fn prefix_entries(s: Seq<Vec<StreetEdge>>, u: int) -> int {
    flat_of(s.take(u)).len() as int
}

/// The place in the flattening where the entry filed at `(u, j)`
/// stands.
pub open spec fn flat_pos(s: Seq<Vec<StreetEdge>>, u: int, j: int) -> int {
    prefix_entries(s, u) + j
}

/// Helper for the round trip: each filed entry stands at its definite
/// flat position.
proof fn lemma_flat_position(s: Seq<Vec<StreetEdge>>, u: int, j: int)
    requires
        0 <= u < s.len(),
        0 <= j < s[u]@.len(),
    ensures
        0 <= prefix_entries(s, u) + j < flat_of(s).len(),
        flat_of(s)[prefix_entries(s, u) + j] == s[u]@[j],
    decreases s.len(),
{
    if u == s.len() - 1 {
        assert(s.take(u) =~= s.drop_last());
    } else {
        lemma_flat_position(s.drop_last(), u, j);
        assert(s.drop_last().take(u) =~= s.take(u));
        assert(s.drop_last()[u] == s[u]);
    }
}

/// Round trip between adjacency and the flattened edge list: the entry
/// filed at `(u, j)` stands at exactly one place in the flattening,
/// node blocks follow each other without gap, and the blocks cover the
/// whole list. Gathering `edges_of` over every node therefore
/// reproduces the edge set exactly: nothing duplicated, nothing lost.
pub proof fn lemma_adjacency_round_trip(s: Seq<Vec<StreetEdge>>)
    ensures
        forall|u: int, j: int|
            0 <= u < s.len() && 0 <= j < s[u]@.len() ==> (0 <= #[trigger] flat_pos(s, u, j)
                < flat_of(s).len() && flat_of(s)[flat_pos(s, u, j)] == s[u]@[j]),
        forall|u: int|
            0 <= u < s.len() ==> #[trigger] prefix_entries(s, u + 1) == prefix_entries(s, u)
                + s[u]@.len(),
        flat_of(s).len() == prefix_entries(s, s.len() as int),
{
    assert forall|u: int, j: int|
        0 <= u < s.len() && 0 <= j < s[u]@.len() implies (0 <= #[trigger] flat_pos(s, u, j)
        < flat_of(s).len() && flat_of(s)[flat_pos(s, u, j)] == s[u]@[j]) by {
        lemma_flat_position(s, u, j);
    }
    assert forall|u: int| 0 <= u < s.len() implies #[trigger] prefix_entries(s, u + 1)
        == prefix_entries(s, u) + s[u]@.len() by {
        lemma_flat_take_step(s, u);
    }
    assert(s.take(s.len() as int) =~= s);
}

/// Helper for the no-dangling statement, by induction on the adjacency.
proof fn lemma_flat_endpoints(s: Seq<Vec<StreetEdge>>, n: int)
    requires
        s.len() <= n,
        forall|u: int, j: int|
            0 <= u < s.len() && 0 <= j < s[u]@.len() ==> (#[trigger] s[u]@[j]).u == u
                && s[u]@[j].v < n,
    ensures
        forall|x: int|
            0 <= x < flat_of(s).len() ==> (#[trigger] flat_of(s)[x]).u < n && flat_of(s)[x].v < n,
    decreases s.len(),
{
    if s.len() > 0 {
        assert(forall|u: int, j: int|
            0 <= u < s.drop_last().len() && 0 <= j < s.drop_last()[u]@.len() ==> (#[trigger] s.drop_last()[u]@[j]).u
                == u && s.drop_last()[u]@[j].v < n) by {
            assert(forall|u: int| 0 <= u < s.len() - 1 ==> s.drop_last()[u] == s[u]);
        }
        lemma_flat_endpoints(s.drop_last(), n);
        assert forall|x: int| 0 <= x < flat_of(s).len() implies (#[trigger] flat_of(s)[x]).u < n
            && flat_of(s)[x].v < n by {
            if x >= flat_of(s.drop_last()).len() {
                let j = x - flat_of(s.drop_last()).len();
                assert(flat_of(s)[x] == s[s.len() - 1]@[j]);
            }
        }
    }
}

/// No dangling edges: in a well-formed snapshot — as every committed
/// graph is — each edge of the edge set resolves both endpoints to
/// nodes present in the node arena.
pub proof fn lemma_no_dangling_edges(g: StreetGraph)
    requires
        g.wf(),
    ensures
        forall|x: int|
            0 <= x < g.flat_edges().len() ==> (#[trigger] g.flat_edges()[x]).u < g.n()
                && g.flat_edges()[x].v < g.n(),
{
    lemma_flat_endpoints(g.adj@, g.n());
}

/// The node of the snapshot closest to the given point by straight-line
/// distance; the lowest index wins ties. `None` exactly when the graph
/// has no nodes.
pub fn find_closest_node(g: &StreetGraph, point: GeoPoint) -> (r: Option<usize>)
    requires
        g.wf(),
        coord_ok(point),
    ensures
        match r {
            Some(i) => {
                &&& i < g.nodes@.len()
                &&& forall|j: int|
                    0 <= j < g.nodes@.len() ==> sq_dist(g.nodes@[i as int].loc, point) <= sq_dist(
                        (#[trigger] g.nodes@[j]).loc,
                        point,
                    )
                &&& forall|j: int|
                    0 <= j < i ==> sq_dist((#[trigger] g.nodes@[j]).loc, point) > sq_dist(
                        g.nodes@[i as int].loc,
                        point,
                    )
            },
            None => g.nodes@.len() == 0,
        },
{
    let n = g.nodes.len();
    if n == 0 {
        return None;
    }
    let mut best: usize = 0;
    let mut best_d: i128 = sq_dist_i128(g.nodes[0].loc, point);
    for i in 1..n
        invariant
            n == g.nodes@.len(),
            best < i <= n,
            g.wf(),
            coord_ok(point),
            best_d == sq_dist(g.nodes@[best as int].loc, point),
            forall|j: int|
                0 <= j < i ==> best_d <= sq_dist((#[trigger] g.nodes@[j]).loc, point),
            forall|j: int|
                0 <= j < best ==> sq_dist((#[trigger] g.nodes@[j]).loc, point) > best_d,
    {
        let d = sq_dist_i128(g.nodes[i].loc, point);
        if d < best_d {
            best = i;
            best_d = d;
        }
    }
    Some(best)
}

} // verus!
