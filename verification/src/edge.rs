//! Edges and their labels.

use vstd::prelude::*;

verus! {

/// The label an edge carries: its length and the identifier of the way
/// it originated from. The length is in the length unit of the graph the
/// edge belongs to, consistent across that graph.
#[derive(Clone, Copy, Debug, PartialEq, Eq, Structural)]
pub struct StreetEdgeLabel {
    pub len: u64,
    pub id: i64,
}

impl StreetEdgeLabel {
    /// A label with the given length and originating-way identifier.
    pub fn new(len: u64, id: i64) -> (l: StreetEdgeLabel)
        ensures
            l.len == len,
            l.id == id,
    {
        StreetEdgeLabel { len, id }
    }
}

/// A directed adjacency entry: from node index `u` to node index `v`,
/// with an optional label. An entry without a label has no defined
/// length; it cannot be routed over or carry a sampled position.
#[derive(Clone, Copy, Debug, PartialEq, Eq)]
pub struct StreetEdge {
    pub u: usize,
    pub v: usize,
    pub label: Option<StreetEdgeLabel>,
}

/// An edge stated in external node identifiers, as a way yields them
/// before identifiers are made dense.
#[derive(Clone, Copy, Debug, PartialEq, Eq)]
pub struct EdgeSpec {
    pub u: i64,
    pub v: i64,
    pub label: StreetEdgeLabel,
}

} // verus!
