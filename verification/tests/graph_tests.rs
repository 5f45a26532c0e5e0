//! The graph snapshot: arena, adjacency, lookups, and the round trip
//! between `edges_of` and `all_edges`.

use urban_network::edge::{StreetEdge, StreetEdgeLabel};
use urban_network::errors::EdgeInsertError;
use urban_network::geom::GeoPoint;
use urban_network::graph::{find_closest_node, StreetGraph};
use urban_network::node::StreetNode;

fn pt(lat: i64, lon: i64) -> GeoPoint {
    GeoPoint {
        nano_lat: lat,
        nano_lon: lon,
    }
}

#[test]
fn add_node_assigns_dense_indices() {
    let mut g = StreetGraph::new(true);
    assert_eq!(g.add_node(StreetNode::new(100, pt(1, 2))), 0);
    assert_eq!(g.add_node(StreetNode::new(200, pt(3, 4))), 1);
    assert_eq!(g.add_node(StreetNode::new(300, pt(5, 6))), 2);
    assert_eq!(g.nodes.len(), 3);
    assert_eq!(g.index_of(200), Some(1));
    assert_eq!(g.index_of(999), None);
    let n = g.node_by_id(2).unwrap();
    assert_eq!(n.osm_id, 300);
    assert_eq!(n.loc, pt(5, 6));
    assert!(g.node_by_id(3).is_none());
}

#[test]
fn duplicate_external_id_merges() {
    let mut g = StreetGraph::new(true);
    assert_eq!(g.add_node(StreetNode::new(7, pt(1, 1))), 0);
    // Same external id: merged into the existing node, first coordinate kept.
    assert_eq!(g.add_node(StreetNode::new(7, pt(9, 9))), 0);
    assert_eq!(g.nodes.len(), 1);
    assert_eq!(g.node_by_id(0).unwrap().loc, pt(1, 1));
}

#[test]
fn add_edge_directed_files_one_entry() {
    let mut g = StreetGraph::new(true);
    g.add_node(StreetNode::new(1, pt(0, 0)));
    g.add_node(StreetNode::new(2, pt(0, 1000)));
    let label = StreetEdgeLabel::new(42, 5);
    assert!(g.add_edge(0, 1, Some(label)).is_ok());
    assert_eq!(g.edges_of(0).len(), 1);
    assert_eq!(g.edges_of(1).len(), 0);
    let e = g.edges_of(0)[0];
    assert_eq!((e.u, e.v), (0, 1));
    assert_eq!(e.label.unwrap().len, 42);
    assert_eq!(e.label.unwrap().id, 5);
}

#[test]
fn add_edge_undirected_files_both_entries() {
    let mut g = StreetGraph::new(false);
    g.add_node(StreetNode::new(1, pt(0, 0)));
    g.add_node(StreetNode::new(2, pt(0, 1000)));
    assert!(g.add_edge(0, 1, Some(StreetEdgeLabel::new(9, 1))).is_ok());
    assert_eq!(g.edges_of(0).len(), 1);
    assert_eq!(g.edges_of(1).len(), 1);
    assert_eq!((g.edges_of(1)[0].u, g.edges_of(1)[0].v), (1, 0));
}

#[test]
fn add_edge_unknown_endpoint_is_reported() {
    let mut g = StreetGraph::new(true);
    g.add_node(StreetNode::new(1, pt(0, 0)));
    assert_eq!(
        g.add_edge(0, 5, Some(StreetEdgeLabel::new(1, 1))),
        Err(EdgeInsertError::UnknownEndpoint)
    );
    assert_eq!(g.all_edges().len(), 0);
}

#[test]
fn all_edges_round_trips_adjacency() {
    let mut g = StreetGraph::new(true);
    for i in 0..4 {
        g.add_node(StreetNode::new(i as i64 + 10, pt(i, i)));
    }
    g.add_edge(0, 1, Some(StreetEdgeLabel::new(1, 0))).unwrap();
    g.add_edge(1, 2, Some(StreetEdgeLabel::new(2, 0))).unwrap();
    g.add_edge(1, 3, Some(StreetEdgeLabel::new(3, 0))).unwrap();
    g.add_edge(3, 0, Some(StreetEdgeLabel::new(4, 0))).unwrap();
    // Reconstruct the edge set from per-node queries: it must reproduce
    // the full edge list exactly, nothing duplicated, nothing lost.
    let mut rebuilt: Vec<StreetEdge> = Vec::new();
    for u in 0..4 {
        rebuilt.extend(g.edges_of(u).iter().copied());
    }
    assert_eq!(rebuilt, g.all_edges());
    assert_eq!(rebuilt.len(), 4);
}

#[test]
fn closest_node_picks_minimum_and_breaks_ties_low() {
    let mut g = StreetGraph::new(true);
    g.add_node(StreetNode::new(1, pt(0, 0)));
    g.add_node(StreetNode::new(2, pt(0, 1_000)));
    g.add_node(StreetNode::new(3, pt(0, 10_000)));
    assert_eq!(find_closest_node(&g, pt(0, 900)), Some(1));
    // Equidistant between the first two: the lowest index wins.
    assert_eq!(find_closest_node(&g, pt(0, 500)), Some(0));
    let empty = StreetGraph::new(true);
    assert_eq!(find_closest_node(&empty, pt(0, 0)), None);
}
