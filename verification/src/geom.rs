//! Fixed-point geographic coordinates and the integer distance
//! primitives built on them: squared coordinate distance and an exact
//! integer square root, giving straight-line segment lengths.

use vstd::prelude::*;

verus! {

/// Nanodegree bound of a latitude: 90 degrees.
pub const MAX_NANO_LAT: i64 = 90_000_000_000;

/// Nanodegree bound of a longitude: 180 degrees.
pub const MAX_NANO_LON: i64 = 180_000_000_000;

/// A point on the globe in fixed-point nanodegrees, the precision the
/// extract format itself carries, so that no precision is lost before a
/// distance is computed.
#[derive(Clone, Copy, Debug, PartialEq, Eq, Structural)]
pub struct GeoPoint {
    pub nano_lat: i64,
    pub nano_lon: i64,
}

/// The point lies in the geographic range: at most 90 degrees of latitude
/// and 180 degrees of longitude from the origin, either way.
pub open spec fn coord_ok(p: GeoPoint) -> bool {
    &&& -MAX_NANO_LAT <= p.nano_lat <= MAX_NANO_LAT
    &&& -MAX_NANO_LON <= p.nano_lon <= MAX_NANO_LON
}

/// Squared straight-line distance between two points, in squared
/// nanodegree units.
pub open spec fn sq_dist(a: GeoPoint, b: GeoPoint) -> int {
    (a.nano_lat - b.nano_lat) * (a.nano_lat - b.nano_lat)
        + (a.nano_lon - b.nano_lon) * (a.nano_lon - b.nano_lon)
}

/// Integer square root: the greatest `r` with `r * r <= x`.
pub fn isqrt_u128(x: u128) -> (r: u64)
    ensures
        (r as int) * (r as int) <= x as int,
        (x as int) < (r as int + 1) * (r as int + 1),
{
    let mut lo: u64 = 0;
    let mut hi: u64 = u64::MAX;
    proof {
        assert((u64::MAX as int + 1) * (u64::MAX as int + 1) > u128::MAX as int) by (nonlinear_arith);
    }
    while lo < hi
        invariant
            lo <= hi,
            (lo as int) * (lo as int) <= x as int,
            (x as int) < (hi as int + 1) * (hi as int + 1),
        decreases hi - lo,
    {
        let mid: u64 = lo + (hi - lo) / 2 + 1;
        let sq_small = match (mid as u128).checked_mul(mid as u128) {
            Some(sq) => sq <= x,
            None => false,
        };
        if sq_small {
            lo = mid;
        } else {
            proof {
                if (mid as int) * (mid as int) <= x as int {
                    assert((mid as int) * (mid as int) <= u128::MAX as int);
                }
            }
            hi = mid - 1;
        }
    }
    lo
}

/// Squared straight-line distance of two in-range points, computed
/// exactly in 128-bit arithmetic.
pub fn sq_dist_i128(a: GeoPoint, b: GeoPoint) -> (r: i128)
    requires
        coord_ok(a),
        coord_ok(b),
    ensures
        r == sq_dist(a, b),
        0 <= r <= 360_000_000_000i128 * 360_000_000_000i128 * 2,
{
    let dlat: i128 = a.nano_lat as i128 - b.nano_lat as i128;
    let dlon: i128 = a.nano_lon as i128 - b.nano_lon as i128;
    proof {
        assert(dlat * dlat >= 0 && dlat * dlat <= 360_000_000_000 * 360_000_000_000) by (nonlinear_arith)
            requires -360_000_000_000 <= dlat <= 360_000_000_000;
        assert(dlon * dlon >= 0 && dlon * dlon <= 360_000_000_000 * 360_000_000_000) by (nonlinear_arith)
            requires -360_000_000_000 <= dlon <= 360_000_000_000;
    }
    dlat * dlat + dlon * dlon
}

/// Straight-line distance between two in-range points, in nanodegree
/// units, rounded down to an integer.
pub fn euclid_len(a: GeoPoint, b: GeoPoint) -> (r: u64)
    requires
        coord_ok(a),
        coord_ok(b),
    ensures
        (r as int) * (r as int) <= sq_dist(a, b),
        (sq_dist(a, b)) < (r as int + 1) * (r as int + 1),
{
    let sq = sq_dist_i128(a, b);
    isqrt_u128(sq as u128)
}

} // verus!
