//! The error kinds the library surfaces.

use vstd::prelude::*;

verus! {

/// Why a byte stream was rejected as an extract.
#[derive(Clone, Copy, Debug, PartialEq, Eq, Structural)]
pub enum MalformedKind {
    /// The bytes could not be obtained at all (surfaced by the caller
    /// that reads them; the decoder itself never produces it).
    Unreadable,
    /// A blob frame is truncated, oversized, or missing its size.
    Framing,
    /// A message of the stream is not well-formed wire data.
    Encoding,
    /// A blob carries a body in no encoding this decoder supports (the
    /// format's common profile defines raw and zlib).
    Compression,
    /// A zlib body did not inflate, or inflated past the blob cap.
    Inflate,
    /// The parallel arrays of a dense-node body disagree in length.
    DenseShape,
    /// Delta or coordinate arithmetic left the 64-bit range: the
    /// stream's numbers are not meaningful data.
    Arithmetic,
}

/// The extract could not be used: unreadable or structurally invalid
/// data, or a header without usable bounding-box metadata.
#[derive(Clone, Copy, Debug, PartialEq, Eq, Structural)]
pub enum ParseError {
    /// The byte stream is not a well-formed extract; carries the
    /// reason it was rejected.
    Malformed(MalformedKind),
    /// The header carries no bounding box.
    MissingBoundingBox,
    /// The header's bounding box lies outside the geographic range.
    InvalidBoundingBox,
}

/// The imported material held no traversable structure at all.
#[derive(Clone, Copy, Debug, PartialEq, Eq, Structural)]
pub enum GraphBuildError {
    /// The node set was empty.
    EmptyNodeSet,
    /// No segment could be resolved into an edge.
    NoResolvableEdges,
}

/// Failure of the whole extract-to-network build.
#[derive(Debug)]
pub enum StreetNetworkError {
    Parse(ParseError),
    Build(GraphBuildError),
}

/// Synthetic generation was asked for a shape it cannot produce while
/// guaranteeing that every node ends up with an edge.
#[derive(Clone, Copy, Debug, PartialEq, Eq, Structural)]
pub struct InvalidGeneratorConfig {
    pub node_count: usize,
    pub attach_per_node: usize,
}

/// Sampling a position on the network failed.
#[derive(Clone, Copy, Debug, PartialEq, Eq, Structural)]
pub enum PositionError {
    /// The network has no edges to place a position on.
    EmptyNetwork,
    /// The drawn edge carries no length in its label, so no offset along
    /// it is defined.
    MissingEdgeLength { u: usize, v: usize },
}

/// An edge insertion named an endpoint the graph does not hold.
#[derive(Clone, Copy, Debug, PartialEq, Eq, Structural)]
pub enum EdgeInsertError {
    UnknownEndpoint,
}

} // verus!
