//! The import pipeline: byte-stream decoding errors, segment
//! resolution, length attachment, and the extract-to-network build.

use urban_network::errors::{GraphBuildError, ParseError, StreetNetworkError};
use urban_network::geom::GeoPoint;
use urban_network::import::{
    read_osm, read_osm_scan, HeaderBBoxInfo, NodeLocator, OsmNetworkComponents, OsmNodeInfo,
    OsmSegmentInfo, OsmWayInfo,
};
use urban_network::pbf::ExtractScan;
use urban_network::network::street_network_from_components;
use urban_network::node::StreetNode;

fn node(id: i64, nano_lat: i64, nano_lon: i64) -> OsmNodeInfo {
    OsmNodeInfo {
        id,
        nano_lat,
        nano_lon,
    }
}

fn one_segment_way(way_id: i64, u: i64, v: i64, length: Option<u64>) -> OsmWayInfo {
    OsmWayInfo {
        id: way_id,
        node_ids: vec![u, v],
        segments: vec![OsmSegmentInfo {
            u_id: u,
            v_id: v,
            length,
        }],
    }
}

fn bbox() -> HeaderBBoxInfo {
    HeaderBBoxInfo {
        left: -73_990_000_000,
        right: -73_970_000_000,
        top: 40_740_000_000,
        bottom: 40_720_000_000,
    }
}

/// The geodesic length in millimetres, as the build pipeline's caller
/// computes it from the fixed-point coordinates.
fn geodesic_mm(a: &OsmNodeInfo, b: &OsmNodeInfo) -> u64 {
    let pa = geo::Point::new(a.nano_lon as f64 * 1.0e-9, a.nano_lat as f64 * 1.0e-9);
    let pb = geo::Point::new(b.nano_lon as f64 * 1.0e-9, b.nano_lat as f64 * 1.0e-9);
    let metres = geo::Distance::distance(&geo::Haversine, pa, pb);
    (metres * 1000.0).round() as u64
}

#[test]
fn garbage_bytes_are_a_parse_error() {
    let data: Vec<u8> = vec![0xde, 0xad, 0xbe, 0xef, 1, 2, 3, 4, 5, 6, 7, 8];
    let r = read_osm(&data);
    assert!(matches!(r, Err(ParseError::Malformed(_))));
}

#[test]
fn missing_bounding_box_is_a_parse_error() {
    // An empty stream scans cleanly but declares no bounding box.
    let r = read_osm(&Vec::new());
    assert!(matches!(r, Err(ParseError::MissingBoundingBox)));
}

#[test]
fn out_of_range_bounding_box_is_a_parse_error() {
    let scan = ExtractScan {
        nodes: Vec::new(),
        ways: Vec::new(),
        bbox: Some((999_000_000_000, 0, 0, 0)),
    };
    let r = read_osm_scan(&scan);
    assert!(matches!(r, Err(ParseError::InvalidBoundingBox)));
}

#[test]
fn empty_extract_reads_as_empty_components() {
    let b = bbox();
    let scan = ExtractScan {
        nodes: Vec::new(),
        ways: Vec::new(),
        bbox: Some((b.left, b.right, b.top, b.bottom)),
    };
    let im = read_osm_scan(&scan).unwrap();
    assert!(im.components.nodes.is_empty());
    assert!(im.components.ways.is_empty());
    assert_eq!(im.components.bounding_box, bbox());
    assert!(im.report.empty_ways.is_empty());
}

#[test]
fn unreferenced_node_records_are_not_gathered() {
    let records = vec![
        node(1, 10, 20),
        node(2, 30, 40),
        node(5, 50, 60),
        node(1, 70, 80),
    ];
    let ways = vec![one_segment_way(7, 1, 2, None)];
    let kept = urban_network::import::referenced_nodes(&records, &ways);
    // Node 5 is referenced by no way and drops out; both records of id
    // 1 stay, in order — the build later merges them, first one wins.
    assert_eq!(
        kept,
        vec![node(1, 10, 20), node(2, 30, 40), node(1, 70, 80)]
    );
}

#[test]
fn no_ways_means_no_gathered_nodes() {
    let records = vec![node(1, 10, 20), node(2, 30, 40)];
    let kept = urban_network::import::referenced_nodes(&records, &Vec::new());
    assert!(kept.is_empty());
}

#[test]
fn locator_resolves_first_record_and_queries_pair_up() {
    let nodes = vec![node(1, 10, 20), node(2, 30, 40), node(1, 99, 99)];
    let loc = NodeLocator::build(&nodes);
    // First record wins for a repeated identifier.
    assert_eq!(
        loc.lookup(1),
        Some(GeoPoint {
            nano_lat: 10,
            nano_lon: 20
        })
    );
    assert_eq!(loc.lookup(3), None);
    let way = OsmWayInfo {
        id: 7,
        node_ids: vec![1, 2, 3],
        segments: vec![
            OsmSegmentInfo {
                u_id: 1,
                v_id: 2,
                length: None,
            },
            OsmSegmentInfo {
                u_id: 2,
                v_id: 3,
                length: None,
            },
        ],
    };
    let q = urban_network::import::way_segment_queries(&way, &loc);
    assert_eq!(q.len(), 2);
    assert!(q[0].is_some());
    // The second segment names node 3, which the set does not hold.
    assert!(q[1].is_none());
}

#[test]
fn lengths_attach_to_their_segments() {
    let way = OsmWayInfo {
        id: 7,
        node_ids: vec![1, 2, 3],
        segments: vec![
            OsmSegmentInfo {
                u_id: 1,
                v_id: 2,
                length: None,
            },
            OsmSegmentInfo {
                u_id: 2,
                v_id: 3,
                length: None,
            },
        ],
    };
    let filled = urban_network::import::way_with_lengths(&way, &vec![Some(111), None]);
    assert_eq!(filled.id, 7);
    assert_eq!(filled.node_ids, vec![1, 2, 3]);
    assert_eq!(filled.segments[0].length, Some(111));
    assert_eq!(filled.segments[1].length, None);
    let edges = filled.as_edges();
    assert_eq!(edges.len(), 1);
    assert_eq!((edges[0].u, edges[0].v), (1, 2));
    assert_eq!(edges[0].label.len, 111);
    assert_eq!(edges[0].label.id, 7);
}

#[test]
fn three_nodes_two_ways_build_with_geodesic_lengths() {
    let a = node(1, 40_730_000_000, -73_985_000_000);
    let b = node(2, 40_731_000_000, -73_984_000_000);
    let c = node(3, 40_732_500_000, -73_982_000_000);
    let len_ab = geodesic_mm(&a, &b);
    let len_bc = geodesic_mm(&b, &c);
    let components = OsmNetworkComponents {
        nodes: vec![a, b, c],
        ways: vec![
            one_segment_way(100, 1, 2, Some(len_ab)),
            one_segment_way(200, 2, 3, Some(len_bc)),
        ],
        bounding_box: bbox(),
    };
    let (spec, report) = street_network_from_components(&components).unwrap();
    let g = &spec.network.read_gen;
    assert_eq!(g.nodes.len(), 3);
    let edges = spec.network.all_edges();
    assert_eq!(edges.len(), 2);
    assert_eq!(edges[0].label.unwrap().len, len_ab);
    assert_eq!(edges[0].label.unwrap().id, 100);
    assert_eq!(edges[1].label.unwrap().len, len_bc);
    assert_eq!(edges[1].label.unwrap().id, 200);
    // Sanity against an independently computed figure: the two points
    // of the first way lie roughly 140 m apart.
    assert!(len_ab > 100_000 && len_ab < 200_000);
    assert!(report.dropped_nodes.is_empty());
    assert!(report.dropped_segments.is_empty());
    assert_eq!(spec.dim.0, 20_000_000);
    assert_eq!(spec.dim.1, 20_000_000);
    // Round trip on the extract-derived graph: per-node queries
    // reproduce the edge set exactly.
    let mut rebuilt = Vec::new();
    for u in 0..3 {
        rebuilt.extend(spec.network.edges_of(u));
    }
    assert_eq!(rebuilt, edges);
}

#[test]
fn dangling_and_lengthless_segments_drop_with_diagnostics() {
    let components = OsmNetworkComponents {
        nodes: vec![node(1, 0, 0), node(2, 0, 1_000_000)],
        ways: vec![
            one_segment_way(10, 1, 2, Some(5_000)),
            // References node 9, which the node set does not hold.
            one_segment_way(11, 1, 9, Some(7_000)),
            // Never got a length computed.
            one_segment_way(12, 2, 1, None),
        ],
        bounding_box: bbox(),
    };
    let (spec, report) = street_network_from_components(&components).unwrap();
    assert_eq!(spec.network.all_edges().len(), 1);
    assert_eq!(report.dropped_segments, vec![(1, 9), (2, 1)]);
}

#[test]
fn out_of_range_nodes_drop_with_diagnostics() {
    let components = OsmNetworkComponents {
        nodes: vec![node(1, 0, 0), node(2, 95_000_000_000, 0), node(3, 0, 1_000)],
        ways: vec![one_segment_way(10, 1, 3, Some(100))],
        bounding_box: bbox(),
    };
    let (spec, report) = street_network_from_components(&components).unwrap();
    assert_eq!(spec.network.read_gen.nodes.len(), 2);
    assert_eq!(report.dropped_nodes, vec![2]);
}

#[test]
fn empty_node_set_fails_the_build() {
    let components = OsmNetworkComponents {
        nodes: Vec::new(),
        ways: Vec::new(),
        bounding_box: bbox(),
    };
    let r = street_network_from_components(&components);
    assert!(matches!(
        r,
        Err(StreetNetworkError::Build(GraphBuildError::EmptyNodeSet))
    ));
}

#[test]
fn no_resolvable_edges_fails_the_build() {
    let components = OsmNetworkComponents {
        nodes: vec![node(1, 0, 0)],
        ways: vec![one_segment_way(10, 1, 9, Some(5))],
        bounding_box: bbox(),
    };
    let r = street_network_from_components(&components);
    assert!(matches!(
        r,
        Err(StreetNetworkError::Build(GraphBuildError::NoResolvableEdges))
    ));
}

#[test]
fn raw_node_converts_to_street_node() {
    let n: StreetNode = node(42, 123, 456).into();
    assert_eq!(n.osm_id, 42);
    assert_eq!(
        n.loc,
        GeoPoint {
            nano_lat: 123,
            nano_lon: 456
        }
    );
}
