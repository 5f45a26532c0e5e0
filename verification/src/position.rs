//! An entity's location on the network, and random sampling of one.

use crate::edge::StreetEdge;
use crate::errors::PositionError;
use crate::rng::{rand_index, rand_offset};
use vstd::prelude::*;

verus! {

/// An entity's location on the network: an offset along the directed
/// edge from `from_node` to `to_node`, in that edge's length unit.
/// A position refers to the graph generation it was created against;
/// after a topology swap the caller re-validates or re-samples.
#[derive(Clone, Copy, Debug, PartialEq, Eq, Structural)]
pub struct StreetNetworkPosition {
    pub from_node: usize,
    pub to_node: usize,
    pub edge_dist: u64,
}

/// The position lies on the given edge: same endpoints, and its offset
/// is at most the edge's length.
pub open spec fn pos_on_edge(p: StreetNetworkPosition, e: StreetEdge) -> bool {
    &&& e.u == p.from_node
    &&& e.v == p.to_node
    &&& e.label matches Some(l) && p.edge_dist <= l.len
}

impl StreetNetworkPosition {
    /// A position at the given offset along the edge from `from_node`
    /// to `to_node`.
    pub fn new(from_node: usize, to_node: usize, edge_dist: u64) -> (p: StreetNetworkPosition)
        ensures
            p == (StreetNetworkPosition { from_node, to_node, edge_dist }),
    {
        StreetNetworkPosition { from_node, to_node, edge_dist }
    }

    /// Draws a uniformly random edge from the list, then a uniformly
    /// random offset in `[0, length]` along it. An empty list has no
    /// edge to draw; a drawn edge without a length has no offset along
    /// it, which is surfaced, not defaulted.
    pub fn rand_from_edge_list(edge_list: &Vec<StreetEdge>, rng: &mut rand::rngs::StdRng) -> (r:
        Result<StreetNetworkPosition, PositionError>)
        ensures
            edge_list@.len() == 0 <==> r == Result::<
                StreetNetworkPosition,
                PositionError,
            >::Err(PositionError::EmptyNetwork),
            edge_list@.len() > 0 && (forall|k: int|
                0 <= k < edge_list@.len() ==> (#[trigger] edge_list@[k]).label is Some) ==> r is Ok,
            r matches Ok(p) ==> exists|k: int|
                0 <= k < edge_list@.len() && pos_on_edge(p, #[trigger] edge_list@[k]),
            r matches Err(PositionError::MissingEdgeLength { u, v }) ==> exists|k: int|
                0 <= k < edge_list@.len() && (#[trigger] edge_list@[k]).u == u && edge_list@[k].v
                    == v && edge_list@[k].label is None,
    {
        if edge_list.len() == 0 {
            return Err(PositionError::EmptyNetwork);
        }
        let k = rand_index(rng, edge_list.len());
        let e = edge_list[k];
        match e.label {
            Some(l) => {
                let off = rand_offset(rng, l.len);
                Ok(StreetNetworkPosition { from_node: e.u, to_node: e.v, edge_dist: off })
            },
            None => Err(PositionError::MissingEdgeLength { u: e.u, v: e.v }),
        }
    }
}

/// An edge length is never negative: it is carried as an unsigned
/// quantity, so every labelled edge satisfies `0 <= length`.
pub proof fn lemma_edge_length_nonneg(e: StreetEdge)
    ensures
        e.label matches Some(l) ==> 0 <= l.len as int,
{
}

/// A position on an edge lies within it: its offset distance is
/// between zero and the edge's length.
pub proof fn lemma_position_within_edge(p: StreetNetworkPosition, e: StreetEdge)
    requires
        pos_on_edge(p, e),
    ensures
        e.label matches Some(l) && 0 <= p.edge_dist as int <= l.len as int,
{
}

impl Default for StreetNetworkPosition {
    /// The origin position: both endpoints at index zero, no offset.
    fn default() -> (p: StreetNetworkPosition)
        ensures
            p == (StreetNetworkPosition { from_node: 0, to_node: 0, edge_dist: 0 }),
    {
        StreetNetworkPosition { from_node: 0, to_node: 0, edge_dist: 0 }
    }
}

} // verus!
