//! The concurrency-safe container of the current topology, and the
//! build of one from imported components.
//!
//! The store holds two complete topology snapshots: a read generation
//! that answers every query, and a write generation being assembled.
//! `commit` promotes the write generation in one swap, the only point
//! where the view exposed to readers changes; in a concurrent setting
//! that swap is a single atomic reference replacement, and the
//! per-operation contracts here state the guarantee that matters: no
//! mutation before the swap touches the read generation.

use crate::edge::{StreetEdge, StreetEdgeLabel};
use crate::errors::{GraphBuildError, PositionError, StreetNetworkError};
use crate::geom::coord_ok;
use crate::graph::{add_edge_post, add_node_post, StreetGraph};
use crate::import::{point_of, OsmNetworkComponents, OsmNodeInfo, OsmSegmentInfo, OsmWayInfo, bbox_ok};
use crate::node::StreetNode;
use crate::position::StreetNetworkPosition;
use crate::util::copied_vec;
use vstd::prelude::*;

verus! {

/// The authoritative graph topology, double-buffered between one
/// mutator and many readers.
pub struct StreetNetwork {
    pub read_gen: StreetGraph,
    pub write_gen: StreetGraph,
}

impl StreetNetwork {
    /// Both generations are well-formed graphs.
    pub open spec fn wf(self) -> bool {
        &&& self.read_gen.wf()
        &&& self.write_gen.wf()
    }

    /// An empty store with the given directedness.
    pub fn new(directed: bool) -> (s: StreetNetwork)
        ensures
            s.wf(),
            s.read_gen.nodes@.len() == 0,
            s.read_gen.edge_entries() == 0,
            s.read_gen.directed == directed,
            s.write_gen.nodes@.len() == 0,
            s.write_gen.edge_entries() == 0,
            s.write_gen.directed == directed,
    {
        StreetNetwork { read_gen: StreetGraph::new(directed), write_gen: StreetGraph::new(directed) }
    }

    /// A store whose read generation is the given snapshot, as left by
    /// a build that has fully completed and committed; the write
    /// generation starts empty.
    pub fn committed(g: StreetGraph) -> (s: StreetNetwork)
        requires
            g.wf(),
        ensures
            s.wf(),
            s.read_gen == g,
            s.write_gen.nodes@.len() == 0,
            s.write_gen.edge_entries() == 0,
            s.write_gen.directed == g.directed,
    {
        let directed = g.directed;
        StreetNetwork { read_gen: g, write_gen: StreetGraph::new(directed) }
    }

    /// Starts assembling the next generation from empty. The read
    /// generation is untouched: queries in flight and queries to come
    /// keep seeing exactly what they saw.
    pub fn begin_update(&mut self)
        requires
            old(self).wf(),
        ensures
            final(self).wf(),
            final(self).read_gen == old(self).read_gen,
            final(self).write_gen.nodes@.len() == 0,
            final(self).write_gen.edge_entries() == 0,
            final(self).write_gen.directed == old(self).read_gen.directed,
    {
        let directed = self.read_gen.directed;
        self.write_gen = StreetGraph::new(directed);
    }

    /// Buffers a node into the write generation, merging by external
    /// id; the read generation is untouched.
    pub fn add_node(&mut self, node: StreetNode) -> (idx: usize)
        requires
            old(self).wf(),
            coord_ok(node.loc),
        ensures
            final(self).wf(),
            final(self).read_gen == old(self).read_gen,
            add_node_post(old(self).write_gen, final(self).write_gen, node, idx),
    {
        self.write_gen.add_node(node)
    }

    /// Buffers an edge into the write generation; both endpoints must
    /// already be buffered there. The read generation is untouched.
    pub fn add_edge(&mut self, u: usize, v: usize, label: Option<crate::edge::StreetEdgeLabel>) -> (r:
        Result<(), crate::errors::EdgeInsertError>)
        requires
            old(self).wf(),
        ensures
            final(self).wf(),
            final(self).read_gen == old(self).read_gen,
            add_edge_post(old(self).write_gen, final(self).write_gen, u, v, label, r),
    {
        self.write_gen.add_edge(u, v, label)
    }

    /// Promotes the write generation to be the new read generation in
    /// one swap: the only operation that changes what readers see. The
    /// old read generation becomes the write buffer.
    pub fn commit(&mut self)
        requires
            old(self).wf(),
        ensures
            final(self).wf(),
            final(self).read_gen == old(self).write_gen,
            final(self).write_gen == old(self).read_gen,
    {
        core::mem::swap(&mut self.read_gen, &mut self.write_gen);
    }

    /// Discards both generations: the store returns to the empty,
    /// pre-build state, keeping its directedness.
    pub fn reset(&mut self)
        requires
            old(self).wf(),
        ensures
            final(self).wf(),
            final(self).read_gen.nodes@.len() == 0,
            final(self).read_gen.edge_entries() == 0,
            final(self).read_gen.directed == old(self).read_gen.directed,
            final(self).write_gen.nodes@.len() == 0,
            final(self).write_gen.edge_entries() == 0,
            final(self).write_gen.directed == old(self).read_gen.directed,
    {
        let directed = self.read_gen.directed;
        self.read_gen = StreetGraph::new(directed);
        self.write_gen = StreetGraph::new(directed);
    }

    /// The outgoing edges of the node, from the read generation only; a
    /// node index the read generation does not hold has none.
    pub fn edges_of(&self, u: usize) -> (r: Vec<StreetEdge>)
        requires
            self.wf(),
        ensures
            u < self.read_gen.nodes@.len() ==> r@ == self.read_gen.adj@[u as int]@,
            u >= self.read_gen.nodes@.len() ==> r@.len() == 0,
    {
        if u < self.read_gen.nodes.len() {
            copied_vec(self.read_gen.edges_of(u))
        } else {
            Vec::new()
        }
    }

    /// The node at the given dense index, from the read generation.
    pub fn node_by_id(&self, id: usize) -> (r: Option<StreetNode>)
        requires
            self.wf(),
        ensures
            match r {
                Some(n) => id < self.read_gen.nodes@.len() && n == self.read_gen.nodes@[id as int],
                None => id >= self.read_gen.nodes@.len(),
            },
    {
        self.read_gen.node_by_id(id)
    }

    /// The dense index an external identifier resolves to, from the
    /// read generation.
    pub fn index_of(&self, osm_id: i64) -> (r: Option<usize>)
        requires
            self.wf(),
        ensures
            match r {
                Some(i) => {
                    &&& self.read_gen.id_index@.contains_key(osm_id)
                    &&& i == self.read_gen.id_index@[osm_id]
                    &&& i < self.read_gen.nodes@.len()
                    &&& self.read_gen.nodes@[i as int].osm_id == osm_id
                },
                None => !self.read_gen.id_index@.contains_key(osm_id),
            },
    {
        self.read_gen.index_of(osm_id)
    }

    /// How many nodes the read generation holds.
    pub fn node_count(&self) -> (r: usize)
        requires
            self.wf(),
        ensures
            r == self.read_gen.nodes@.len(),
    {
        self.read_gen.nodes.len()
    }

    /// Every node of the read generation, in dense-index order: with
    /// `all_edges`, the whole read-only surface a renderer needs.
    pub fn all_nodes(&self) -> (r: Vec<StreetNode>)
        requires
            self.wf(),
        ensures
            r@ == self.read_gen.nodes@,
    {
        copied_vec(&self.read_gen.nodes)
    }

    /// Every edge of the read generation, gathered in node order.
    pub fn all_edges(&self) -> (r: Vec<StreetEdge>)
        requires
            self.wf(),
        ensures
            r@ == self.read_gen.flat_edges(),
    {
        self.read_gen.all_edges()
    }

    /// The minimum-total-weight route between two nodes of the read
    /// generation, edge length as cost; the single-node zero-cost path
    /// when start and goal coincide, the empty path when no route
    /// exists — never an error and never a partial path. Equal-cost
    /// ties fall to the planner's documented discovery order, so the
    /// result is deterministic for a fixed generation.
    pub fn shortest_path(&self, start: usize, goal: usize) -> (r: crate::planner::StreetPath)
        requires
            self.wf(),
            start < self.read_gen.nodes@.len(),
            goal < self.read_gen.nodes@.len(),
        ensures
            r.nodes@.len() == 0 <==> !crate::planner::reachable(
                self.read_gen,
                start as int,
                goal as int,
            ),
            r.nodes@.len() == 0 ==> r.cost == 0,
            r.nodes@.len() > 0 ==> {
                &&& crate::planner::is_route(self.read_gen, r.nodes@, r.cost as int)
                &&& r.nodes@.first() == start
                &&& r.nodes@.last() == goal
            },
            forall|p: Seq<usize>, c: int|
                #![trigger crate::planner::is_route(self.read_gen, p, c)]
                crate::planner::is_route(self.read_gen, p, c) && p.first() == start && p.last()
                    == goal ==> r.cost as int <= c,
            start == goal ==> r.nodes@ == seq![start] && r.cost == 0,
    {
        crate::planner::shortest_path(&self.read_gen, start, goal)
    }

    /// A uniformly random position on the read generation: a uniformly
    /// random edge, then a uniformly random offset within its length.
    /// A network with no edges has nothing to sample; an edge without a
    /// length has no offset, and either is surfaced, never defaulted.
    pub fn random_position(&self, rng: &mut rand::rngs::StdRng) -> (r: Result<
        StreetNetworkPosition,
        PositionError,
    >)
        requires
            self.wf(),
        ensures
            self.read_gen.flat_edges().len() == 0 <==> r == Result::<
                StreetNetworkPosition,
                PositionError,
            >::Err(PositionError::EmptyNetwork),
            self.read_gen.flat_edges().len() > 0 && (forall|k: int|
                0 <= k < self.read_gen.flat_edges().len() ==> (#[trigger] self.read_gen.flat_edges()[k]).label
                    is Some) ==> r is Ok,
            r matches Ok(p) ==> exists|k: int|
                0 <= k < self.read_gen.flat_edges().len() && crate::position::pos_on_edge(
                    p,
                    #[trigger] self.read_gen.flat_edges()[k],
                ),
    {
        let edges = self.all_edges();
        StreetNetworkPosition::rand_from_edge_list(&edges, rng)
    }
}

/// A node with this external id is present in the arena.
pub open spec fn seq_has_id(nodes: Seq<StreetNode>, id: i64) -> bool {
    exists|i: int| 0 <= i < nodes.len() && nodes[i].osm_id == id
}

/// The nodes a build keeps, in first-encountered order: each record in
/// geographic range whose external id has not been seen before; a
/// repeated id merges into the node it already names.
pub open spec fn graph_nodes_of(records: Seq<OsmNodeInfo>) -> Seq<StreetNode>
    decreases records.len(),
{
    if records.len() == 0 {
        Seq::empty()
    } else {
        let prev = graph_nodes_of(records.drop_last());
        let rec = records.last();
        if !coord_ok(point_of(rec)) {
            prev
        } else if seq_has_id(prev, rec.id) {
            prev
        } else {
            prev.push(StreetNode { osm_id: rec.id, loc: point_of(rec) })
        }
    }
}

/// The ids of node records a build drops for an out-of-range
/// coordinate, in order.
pub open spec fn dropped_node_ids_of(records: Seq<OsmNodeInfo>) -> Seq<i64>
    decreases records.len(),
{
    if records.len() == 0 {
        Seq::empty()
    } else {
        dropped_node_ids_of(records.drop_last()) + if !coord_ok(point_of(records.last())) {
            seq![records.last().id]
        } else {
            Seq::empty()
        }
    }
}

/// The segment carries a length and both its endpoints name nodes of
/// the arena: it can be placed in the graph.
pub open spec fn seg_resolvable(s: OsmSegmentInfo, nodes: Seq<StreetNode>) -> bool {
    &&& s.length is Some
    &&& seq_has_id(nodes, s.u_id)
    &&& seq_has_id(nodes, s.v_id)
}

/// How many of the segments resolve against the arena.
pub open spec fn resolvable_count(segs: Seq<OsmSegmentInfo>, nodes: Seq<StreetNode>) -> int
    decreases segs.len(),
{
    if segs.len() == 0 {
        0
    } else {
        resolvable_count(segs.drop_last(), nodes) + if seg_resolvable(segs.last(), nodes) {
            1int
        } else {
            0int
        }
    }
}

/// Resolvable segments summed over every way.
pub open spec fn total_resolvable(ways: Seq<OsmWayInfo>, nodes: Seq<StreetNode>) -> int
    decreases ways.len(),
{
    if ways.len() == 0 {
        0
    } else {
        total_resolvable(ways.drop_last(), nodes) + resolvable_count(ways.last().segments@, nodes)
    }
}

/// The endpoint pairs of the segments of one way that do not resolve,
/// in order: the build's per-segment diagnostic trail.
pub open spec fn way_dropped_pairs(segs: Seq<OsmSegmentInfo>, nodes: Seq<StreetNode>) -> Seq<
    (i64, i64),
>
    decreases segs.len(),
{
    if segs.len() == 0 {
        Seq::empty()
    } else {
        way_dropped_pairs(segs.drop_last(), nodes) + if !seg_resolvable(segs.last(), nodes) {
            seq![(segs.last().u_id, segs.last().v_id)]
        } else {
            Seq::empty()
        }
    }
}

/// Dropped endpoint pairs gathered over every way, in order.
pub open spec fn total_dropped_pairs(ways: Seq<OsmWayInfo>, nodes: Seq<StreetNode>) -> Seq<
    (i64, i64),
>
    decreases ways.len(),
{
    if ways.len() == 0 {
        Seq::empty()
    } else {
        total_dropped_pairs(ways.drop_last(), nodes) + way_dropped_pairs(
            ways.last().segments@,
            nodes,
        )
    }
}

/// The edge is exactly what some length-bearing segment of the ways
/// becomes: its label carries that segment's length and its way's id,
/// and its endpoints are the arena nodes the segment's external ids
/// name.
pub open spec fn edge_from_ways(e: StreetEdge, ways: Seq<OsmWayInfo>, nodes: Seq<StreetNode>) -> bool {
    exists|wi: int, si: int|
        #![trigger ways[wi].segments@[si]]
        0 <= wi < ways.len() && 0 <= si < ways[wi].segments@.len() && {
            let s = ways[wi].segments@[si];
            &&& s.length is Some
            &&& e.label == Some(StreetEdgeLabel { len: s.length->Some_0, id: ways[wi].id })
            &&& e.u < nodes.len() && nodes[e.u as int].osm_id == s.u_id
            &&& e.v < nodes.len() && nodes[e.v as int].osm_id == s.v_id
        }
}

/// The segments of one way, each tagged with that way's identifier.
pub open spec fn tag_segs(way_id: i64, segs: Seq<OsmSegmentInfo>) -> Seq<(i64, OsmSegmentInfo)> {
    segs.map_values(|s: OsmSegmentInfo| (way_id, s))
}

/// Every segment of every way in order, tagged with its way's
/// identifier: the exact stream of edge candidates a build consumes.
pub open spec fn tagged_segs(ways: Seq<OsmWayInfo>) -> Seq<(i64, OsmSegmentInfo)>
    decreases ways.len(),
{
    if ways.len() == 0 {
        Seq::empty()
    } else {
        tagged_segs(ways.drop_last()) + tag_segs(ways.last().id, ways.last().segments@)
    }
}

/// The dense index an external id resolves to in the arena; meaningful
/// where exactly one node carries the id, as in every well-formed
/// graph.
pub open spec fn idx_of(nodes: Seq<StreetNode>, id: i64) -> int {
    choose|i: int| 0 <= i < nodes.len() && nodes[i].osm_id == id
}

/// The edge a resolvable tagged segment becomes.
pub open spec fn seg_edge(ts: (i64, OsmSegmentInfo), nodes: Seq<StreetNode>) -> StreetEdge {
    StreetEdge {
        u: idx_of(nodes, ts.1.u_id) as usize,
        v: idx_of(nodes, ts.1.v_id) as usize,
        label: Some(StreetEdgeLabel { len: ts.1.length->Some_0, id: ts.0 }),
    }
}

/// The edges filed at index `u` after consuming the tagged segments in
/// order: one per resolvable segment whose tail resolves to `u`.
pub open spec fn adj_built(ts: Seq<(i64, OsmSegmentInfo)>, nodes: Seq<StreetNode>, u: int) -> Seq<
    StreetEdge,
>
    decreases ts.len(),
{
    if ts.len() == 0 {
        Seq::empty()
    } else {
        adj_built(ts.drop_last(), nodes, u) + if seg_resolvable(ts.last().1, nodes) && idx_of(
            nodes,
            ts.last().1.u_id,
        ) == u {
            seq![seg_edge(ts.last(), nodes)]
        } else {
            Seq::empty()
        }
    }
}

/// A built network and the extent its callers lay space out with.
pub struct StreetNetworkSpec {
    pub network: StreetNetwork,
    pub dim: (i64, i64),
}

/// The build's diagnostic trail: what was dropped, and why it was
/// recoverable.
#[derive(Clone, Debug)]
pub struct BuildReport {
    /// Ids of node records dropped for an out-of-range coordinate.
    pub dropped_nodes: Vec<i64>,
    /// Endpoint pairs of segments that could not be placed: an
    /// unresolved endpoint or a missing length.
    pub dropped_segments: Vec<(i64, i64)>,
}

/// Builds the street network a set of imported components describes:
/// dense ids in first-encountered order, one directed edge per
/// resolvable segment labelled with length and way id, and the extent
/// of the header's bounding box. A segment that cannot be placed is
/// dropped with a diagnostic; a build with no nodes or no resolvable
/// edge at all has no traversable structure and fails.
pub fn street_network_from_components(c: &OsmNetworkComponents) -> (r: Result<
    (StreetNetworkSpec, BuildReport),
    StreetNetworkError,
>)
    requires
        bbox_ok(c.bounding_box),
    ensures
        graph_nodes_of(c.nodes@).len() == 0 <==> r matches Err(
            StreetNetworkError::Build(GraphBuildError::EmptyNodeSet),
        ),
        (graph_nodes_of(c.nodes@).len() > 0 && total_resolvable(c.ways@, graph_nodes_of(c.nodes@))
            == 0) <==> r matches Err(StreetNetworkError::Build(GraphBuildError::NoResolvableEdges)),
        r is Ok <==> (graph_nodes_of(c.nodes@).len() > 0 && total_resolvable(
            c.ways@,
            graph_nodes_of(c.nodes@),
        ) > 0),
        r matches Ok(p) ==> {
            let g = p.0.network.read_gen;
            &&& p.0.network.wf()
            &&& g.directed == true
            &&& g.nodes@ == graph_nodes_of(c.nodes@)
            &&& g.edge_entries() == total_resolvable(c.ways@, graph_nodes_of(c.nodes@))
            &&& forall|u: int, j: int|
                0 <= u < g.adj@.len() && 0 <= j < g.adj@[u]@.len() ==> edge_from_ways(
                    #[trigger] g.adj@[u]@[j],
                    c.ways@,
                    g.nodes@,
                )
            &&& forall|u: int|
                0 <= u < g.nodes@.len() ==> (#[trigger] g.adj@[u]@) == adj_built(
                    tagged_segs(c.ways@),
                    g.nodes@,
                    u,
                )
            &&& p.0.dim.0 == c.bounding_box.right - c.bounding_box.left
            &&& p.0.dim.1 == c.bounding_box.top - c.bounding_box.bottom
            &&& p.1.dropped_nodes@ == dropped_node_ids_of(c.nodes@)
            &&& p.1.dropped_segments@ == total_dropped_pairs(c.ways@, graph_nodes_of(c.nodes@))
        },
{
    let mut g = StreetGraph::new(true);
    let mut dropped_nodes: Vec<i64> = Vec::new();
    let n_rec = c.nodes.len();
    for i in 0..n_rec
        invariant
            n_rec == c.nodes@.len(),
            g.wf(),
            g.directed == true,
            g.flat_edges().len() == 0,
            forall|u: int| 0 <= u < g.adj@.len() ==> (#[trigger] g.adj@[u]@).len() == 0,
            g.nodes@ == graph_nodes_of(c.nodes@.take(i as int)),
            dropped_nodes@ == dropped_node_ids_of(c.nodes@.take(i as int)),
    {
        proof {
            assert(c.nodes@.take(i + 1).drop_last() =~= c.nodes@.take(i as int));
        }
        let rec = c.nodes[i];
        let in_range = -crate::geom::MAX_NANO_LAT <= rec.nano_lat && rec.nano_lat
            <= crate::geom::MAX_NANO_LAT && -crate::geom::MAX_NANO_LON <= rec.nano_lon
            && rec.nano_lon <= crate::geom::MAX_NANO_LON;
        if in_range {
            let node = StreetNode {
                osm_id: rec.id,
                loc: crate::geom::GeoPoint { nano_lat: rec.nano_lat, nano_lon: rec.nano_lon },
            };
            let ghost pre = g;
            let _idx = g.add_node(node);
            proof {
                if pre.id_index@.contains_key(rec.id) {
                    let w = pre.id_index@[rec.id];
                    assert(pre.nodes@[w as int].osm_id == rec.id);
                    assert(seq_has_id(pre.nodes@, rec.id));
                } else {
                    if seq_has_id(pre.nodes@, rec.id) {
                        let w = choose|k: int|
                            0 <= k < pre.nodes@.len() && pre.nodes@[k].osm_id == rec.id;
                        assert(pre.id_index@.contains_key(pre.nodes@[w].osm_id));
                    }
                }
                assert(dropped_nodes@ =~= dropped_node_ids_of(c.nodes@.take(i + 1)));
            }
        } else {
            dropped_nodes.push(rec.id);
            proof {
                assert(dropped_nodes@ =~= dropped_node_ids_of(c.nodes@.take(i + 1)));
            }
        }
    }
    proof {
        assert(c.nodes@.take(n_rec as int) =~= c.nodes@);
    }
    if g.nodes.len() == 0 {
        return Err(StreetNetworkError::Build(GraphBuildError::EmptyNodeSet));
    }
    let ghost nodes_g = g.nodes@;
    proof {
        assert(c.ways@.take(0) =~= Seq::<OsmWayInfo>::empty());
        assert forall|u: int| 0 <= u < nodes_g.len() implies (#[trigger] g.adj@[u]@) == adj_built(
            tagged_segs(c.ways@.take(0)),
            nodes_g,
            u,
        ) by {
            assert(g.adj@[u]@ =~= Seq::<StreetEdge>::empty());
            assert(adj_built(tagged_segs(c.ways@.take(0)), nodes_g, u) =~= Seq::<
                StreetEdge,
            >::empty());
        }
    }
    let mut dropped_segments: Vec<(i64, i64)> = Vec::new();
    let n_ways = c.ways.len();
    for wi in 0..n_ways
        invariant
            n_ways == c.ways@.len(),
            g.wf(),
            g.directed == true,
            g.nodes@ == nodes_g,
            g.edge_entries() == total_resolvable(c.ways@.take(wi as int), nodes_g),
            dropped_segments@ == total_dropped_pairs(c.ways@.take(wi as int), nodes_g),
            forall|u: int, j: int|
                0 <= u < g.adj@.len() && 0 <= j < g.adj@[u]@.len() ==> edge_from_ways(
                    #[trigger] g.adj@[u]@[j],
                    c.ways@,
                    nodes_g,
                ),
            forall|u: int|
                0 <= u < nodes_g.len() ==> (#[trigger] g.adj@[u]@) == adj_built(
                    tagged_segs(c.ways@.take(wi as int)),
                    nodes_g,
                    u,
                ),
    {
        let way_id = c.ways[wi].id;
        let n_segs = c.ways[wi].segments.len();
        proof {
            assert(tag_segs(way_id, c.ways@[wi as int].segments@.take(0)) =~= Seq::<
                (i64, OsmSegmentInfo),
            >::empty());
            assert(tagged_segs(c.ways@.take(wi as int)) + tag_segs(
                way_id,
                c.ways@[wi as int].segments@.take(0),
            ) =~= tagged_segs(c.ways@.take(wi as int)));
        }
        for si in 0..n_segs
            invariant
                n_ways == c.ways@.len(),
                wi < n_ways,
                way_id == c.ways@[wi as int].id,
                n_segs == c.ways@[wi as int].segments@.len(),
                g.wf(),
                g.directed == true,
                g.nodes@ == nodes_g,
                g.edge_entries() == total_resolvable(c.ways@.take(wi as int), nodes_g)
                    + resolvable_count(c.ways@[wi as int].segments@.take(si as int), nodes_g),
                dropped_segments@ == total_dropped_pairs(c.ways@.take(wi as int), nodes_g)
                    + way_dropped_pairs(c.ways@[wi as int].segments@.take(si as int), nodes_g),
                forall|u: int, j: int|
                    0 <= u < g.adj@.len() && 0 <= j < g.adj@[u]@.len() ==> edge_from_ways(
                        #[trigger] g.adj@[u]@[j],
                        c.ways@,
                        nodes_g,
                    ),
                forall|u: int|
                    0 <= u < nodes_g.len() ==> (#[trigger] g.adj@[u]@) == adj_built(
                        tagged_segs(c.ways@.take(wi as int)) + tag_segs(
                            way_id,
                            c.ways@[wi as int].segments@.take(si as int),
                        ),
                        nodes_g,
                        u,
                    ),
        {
            proof {
                assert(c.ways@[wi as int].segments@.take(si + 1).drop_last()
                    =~= c.ways@[wi as int].segments@.take(si as int));
            }
            let s = c.ways[wi].segments[si];
            let mut placed = false;
            match s.length {
                Some(l) => {
                    match g.index_of(s.u_id) {
                        Some(ui) => {
                            match g.index_of(s.v_id) {
                                Some(vi) => {
                                    let ghost pre = g;
                                    let res = g.add_edge(ui, vi, Some(StreetEdgeLabel { len: l, id: way_id }));
                                    placed = true;
                                    proof {
                                        assert(res is Ok);
                                        assert(seq_has_id(nodes_g, s.u_id));
                                        assert(seq_has_id(nodes_g, s.v_id));
                                        assert(seg_resolvable(s, nodes_g));
                                        let fwd = StreetEdge { u: ui, v: vi, label: Some(StreetEdgeLabel { len: l, id: way_id }) };
                                        assert(g.adj@[ui as int]@.last() == fwd);
                                        assert(edge_from_ways(fwd, c.ways@, nodes_g)) by {
                                            assert(c.ways@[wi as int].segments@[si as int] == s);
                                        }
                                        assert(idx_of(nodes_g, s.u_id) == ui as int) by {
                                            let istar = idx_of(nodes_g, s.u_id);
                                            assert(nodes_g[ui as int].osm_id == s.u_id);
                                            assert(0 <= istar < nodes_g.len() && nodes_g[istar].osm_id == s.u_id);
                                            assert(pre.id_index@[nodes_g[istar].osm_id] as int == istar);
                                            assert(pre.id_index@[nodes_g[ui as int].osm_id] as int == ui as int);
                                        }
                                        assert(idx_of(nodes_g, s.v_id) == vi as int) by {
                                            let istar = idx_of(nodes_g, s.v_id);
                                            assert(nodes_g[vi as int].osm_id == s.v_id);
                                            assert(0 <= istar < nodes_g.len() && nodes_g[istar].osm_id == s.v_id);
                                            assert(pre.id_index@[nodes_g[istar].osm_id] as int == istar);
                                            assert(pre.id_index@[nodes_g[vi as int].osm_id] as int == vi as int);
                                        }
                                        let t0 = tagged_segs(c.ways@.take(wi as int)) + tag_segs(
                                            way_id,
                                            c.ways@[wi as int].segments@.take(si as int),
                                        );
                                        let t1 = tagged_segs(c.ways@.take(wi as int)) + tag_segs(
                                            way_id,
                                            c.ways@[wi as int].segments@.take(si + 1),
                                        );
                                        let x = (way_id, s);
                                        assert(t1 =~= t0.push(x));
                                        assert(t1.drop_last() =~= t0);
                                        assert(seg_edge(x, nodes_g) == fwd);
                                        assert forall|u: int| 0 <= u < nodes_g.len() implies (
                                        #[trigger] g.adj@[u]@) == adj_built(t1, nodes_g, u) by {
                                            assert(pre.adj@[u]@ == adj_built(t0, nodes_g, u));
                                            if u == ui as int {
                                                assert(g.adj@[u]@ == pre.adj@[u]@.push(fwd));
                                                assert(adj_built(t1, nodes_g, u) == adj_built(
                                                    t0,
                                                    nodes_g,
                                                    u,
                                                ) + seq![seg_edge(x, nodes_g)]);
                                                assert(g.adj@[u]@ =~= adj_built(t1, nodes_g, u));
                                            } else {
                                                assert(g.adj@[u]@ == pre.adj@[u]@);
                                                assert(adj_built(t1, nodes_g, u) == adj_built(
                                                    t0,
                                                    nodes_g,
                                                    u,
                                                ) + Seq::<StreetEdge>::empty());
                                                assert(adj_built(t1, nodes_g, u) =~= adj_built(
                                                    t0,
                                                    nodes_g,
                                                    u,
                                                ));
                                            }
                                        }
                                    }
                                },
                                None => {
                                    dropped_segments.push((s.u_id, s.v_id));
                                    proof {
                                        if seq_has_id(nodes_g, s.v_id) {
                                            let w = choose|k: int|
                                                0 <= k < nodes_g.len() && nodes_g[k].osm_id
                                                    == s.v_id;
                                            assert(g.id_index@.contains_key(nodes_g[w].osm_id));
                                        }
                                    }
                                },
                            }
                        },
                        None => {
                            dropped_segments.push((s.u_id, s.v_id));
                            proof {
                                if seq_has_id(nodes_g, s.u_id) {
                                    let w = choose|k: int|
                                        0 <= k < nodes_g.len() && nodes_g[k].osm_id == s.u_id;
                                    assert(g.id_index@.contains_key(nodes_g[w].osm_id));
                                }
                            }
                        },
                    }
                },
                None => {
                    dropped_segments.push((s.u_id, s.v_id));
                },
            }
            proof {
                if !placed {
                    assert(!seg_resolvable(s, nodes_g));
                    let t0 = tagged_segs(c.ways@.take(wi as int)) + tag_segs(
                        way_id,
                        c.ways@[wi as int].segments@.take(si as int),
                    );
                    let t1 = tagged_segs(c.ways@.take(wi as int)) + tag_segs(
                        way_id,
                        c.ways@[wi as int].segments@.take(si + 1),
                    );
                    let x = (way_id, s);
                    assert(t1 =~= t0.push(x));
                    assert(t1.drop_last() =~= t0);
                    assert forall|u: int| 0 <= u < nodes_g.len() implies (#[trigger] g.adj@[u]@)
                        == adj_built(t1, nodes_g, u) by {
                        assert(g.adj@[u]@ == adj_built(t0, nodes_g, u));
                        assert(adj_built(t1, nodes_g, u) == adj_built(t0, nodes_g, u) + Seq::<
                            StreetEdge,
                        >::empty());
                        assert(adj_built(t1, nodes_g, u) =~= adj_built(t0, nodes_g, u));
                    }
                }
                assert(dropped_segments@ =~= total_dropped_pairs(c.ways@.take(wi as int), nodes_g)
                    + way_dropped_pairs(c.ways@[wi as int].segments@.take(si + 1), nodes_g));
            }
        }
        proof {
            assert(c.ways@.take(wi + 1).drop_last() =~= c.ways@.take(wi as int));
            assert(c.ways@[wi as int].segments@.take(n_segs as int)
                =~= c.ways@[wi as int].segments@);
            assert(dropped_segments@ =~= total_dropped_pairs(c.ways@.take(wi + 1), nodes_g));
            assert(c.ways@.take(wi + 1).last() == c.ways@[wi as int]);
            assert(tagged_segs(c.ways@.take(wi + 1)) == tagged_segs(c.ways@.take(wi as int))
                + tag_segs(c.ways@[wi as int].id, c.ways@[wi as int].segments@));
        }
    }
    proof {
        assert(c.ways@.take(n_ways as int) =~= c.ways@);
    }
    let edge_total = g.all_edges();
    if edge_total.len() == 0 {
        return Err(StreetNetworkError::Build(GraphBuildError::NoResolvableEdges));
    }
    let dim = (c.bounding_box.right - c.bounding_box.left, c.bounding_box.top - c.bounding_box.bottom);
    let network = StreetNetwork::committed(g);
    Ok(
        (
            StreetNetworkSpec { network, dim },
            BuildReport { dropped_nodes, dropped_segments },
        ),
    )
}

/// What readers observe is a function of the read generation alone, so
/// a swap is atomic from their perspective: any two stores with the
/// same read generation answer every query alike, however far apart
/// their in-progress write generations are.
pub proof fn lemma_reader_isolation(a: StreetNetwork, b: StreetNetwork)
    requires
        a.read_gen == b.read_gen,
    ensures
        a.read_gen.nodes@ == b.read_gen.nodes@,
        a.read_gen.flat_edges() == b.read_gen.flat_edges(),
        a.read_gen.id_index@ == b.read_gen.id_index@,
{
}

} // verus!
