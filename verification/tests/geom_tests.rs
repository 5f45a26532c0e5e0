//! Integer geometry: exact square roots and straight-line lengths.

use urban_network::geom::{euclid_len, isqrt_u128, GeoPoint};

#[test]
fn integer_square_roots_are_exact() {
    assert_eq!(isqrt_u128(0), 0);
    assert_eq!(isqrt_u128(1), 1);
    assert_eq!(isqrt_u128(24), 4);
    assert_eq!(isqrt_u128(25), 5);
    assert_eq!(isqrt_u128(26), 5);
    assert_eq!(isqrt_u128(u128::MAX), u64::MAX);
}

#[test]
fn straight_line_length_of_a_right_triangle() {
    let a = GeoPoint {
        nano_lat: 0,
        nano_lon: 0,
    };
    let b = GeoPoint {
        nano_lat: 3_000,
        nano_lon: 4_000,
    };
    assert_eq!(euclid_len(a, b), 5_000);
    assert_eq!(euclid_len(a, a), 0);
}
