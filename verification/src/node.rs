//! Network nodes: an external identifier tied to a coordinate.

use crate::geom::GeoPoint;
use vstd::prelude::*;

verus! {

/// A point in the network: the external (source dataset) identifier and
/// the immutable coordinate it was created with.
#[derive(Clone, Copy, Debug, PartialEq, Eq, Structural)]
pub struct StreetNode {
    pub osm_id: i64,
    pub loc: GeoPoint,
}

impl StreetNode {
    /// A node with the given external identifier at the given coordinate.
    pub fn new(id: i64, loc: GeoPoint) -> (n: StreetNode)
        ensures
            n.osm_id == id,
            n.loc == loc,
    {
        StreetNode { osm_id: id, loc }
    }
}

} // verus!
