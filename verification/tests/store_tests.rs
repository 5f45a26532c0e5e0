//! The double-buffered store: queries see only the read generation,
//! mutation buffers into the write generation, and the commit swap is
//! the single point where the readers' view changes.

use urban_network::edge::StreetEdgeLabel;
use urban_network::errors::PositionError;
use urban_network::geom::GeoPoint;
use urban_network::network::StreetNetwork;
use urban_network::node::StreetNode;
use urban_network::position::StreetNetworkPosition;
use urban_network::rng::rng_from_seed;

fn pt(lat: i64, lon: i64) -> GeoPoint {
    GeoPoint {
        nano_lat: lat,
        nano_lon: lon,
    }
}

fn two_node_store() -> StreetNetwork {
    let mut s = StreetNetwork::new(true);
    s.begin_update();
    s.add_node(StreetNode::new(1, pt(0, 0)));
    s.add_node(StreetNode::new(2, pt(0, 1000)));
    s.add_edge(0, 1, Some(StreetEdgeLabel::new(50, 9))).unwrap();
    s.commit();
    s
}

#[test]
fn buffered_mutation_is_invisible_until_commit() {
    let mut s = StreetNetwork::new(true);
    s.begin_update();
    s.add_node(StreetNode::new(1, pt(0, 0)));
    s.add_node(StreetNode::new(2, pt(0, 1000)));
    s.add_edge(0, 1, Some(StreetEdgeLabel::new(50, 9))).unwrap();
    // Nothing committed yet: readers still see the empty generation.
    assert!(s.node_by_id(0).is_none());
    assert!(s.all_edges().is_empty());
    assert_eq!(s.index_of(1), None);
    s.commit();
    // After the swap, the whole build is visible at once.
    assert_eq!(s.node_by_id(0).unwrap().osm_id, 1);
    assert_eq!(s.all_edges().len(), 1);
    assert_eq!(s.index_of(2), Some(1));
}

#[test]
fn next_generation_replaces_the_read_view_wholesale() {
    let mut s = two_node_store();
    assert_eq!(s.all_edges().len(), 1);
    s.begin_update();
    s.add_node(StreetNode::new(7, pt(5, 5)));
    // The in-progress build never leaks into reads.
    assert_eq!(s.node_by_id(0).unwrap().osm_id, 1);
    assert_eq!(s.index_of(7), None);
    s.commit();
    assert_eq!(s.index_of(7), Some(0));
    assert_eq!(s.node_by_id(0).unwrap().osm_id, 7);
    assert!(s.all_edges().is_empty());
}

#[test]
fn reset_returns_to_the_empty_prebuild_state() {
    let mut s = two_node_store();
    s.reset();
    assert!(s.node_by_id(0).is_none());
    assert!(s.all_edges().is_empty());
}

#[test]
fn edges_of_unknown_node_is_empty() {
    let s = two_node_store();
    assert_eq!(s.edges_of(0).len(), 1);
    assert!(s.edges_of(99).is_empty());
}

#[test]
fn store_shortest_path_runs_on_the_read_generation() {
    let s = two_node_store();
    let p = s.shortest_path(0, 1);
    assert_eq!(p.nodes, vec![0, 1]);
    assert_eq!(p.cost, 50);
    let q = s.shortest_path(1, 1);
    assert_eq!(q.nodes, vec![1]);
    assert_eq!(q.cost, 0);
}

#[test]
fn random_position_on_empty_network_is_surfaced() {
    let s = StreetNetwork::new(true);
    let mut rng = rng_from_seed(1);
    assert_eq!(s.random_position(&mut rng).err(), Some(PositionError::EmptyNetwork));
}

#[test]
fn random_position_lands_within_the_drawn_edge() {
    let s = two_node_store();
    let mut rng = rng_from_seed(11);
    for _ in 0..40 {
        let p = s.random_position(&mut rng).unwrap();
        assert_eq!((p.from_node, p.to_node), (0, 1));
        assert!(p.edge_dist <= 50);
    }
}

#[test]
fn missing_edge_length_is_surfaced_not_defaulted() {
    let mut s = StreetNetwork::new(true);
    s.begin_update();
    s.add_node(StreetNode::new(1, pt(0, 0)));
    s.add_node(StreetNode::new(2, pt(0, 1000)));
    s.add_edge(0, 1, None).unwrap();
    s.commit();
    let mut rng = rng_from_seed(2);
    assert_eq!(
        s.random_position(&mut rng).err(),
        Some(PositionError::MissingEdgeLength { u: 0, v: 1 })
    );
}

#[test]
fn render_surface_exposes_nodes_and_edges() {
    let s = two_node_store();
    assert_eq!(s.node_count(), 2);
    let nodes = s.all_nodes();
    assert_eq!(nodes.len(), 2);
    assert_eq!(nodes[0].osm_id, 1);
    assert_eq!(nodes[1].loc, pt(0, 1000));
    assert_eq!(s.all_edges().len(), 1);
}

#[test]
fn position_constructor_and_default() {
    let p = StreetNetworkPosition::new(3, 4, 17);
    assert_eq!((p.from_node, p.to_node, p.edge_dist), (3, 4, 17));
    let d = StreetNetworkPosition::default();
    assert_eq!((d.from_node, d.to_node, d.edge_dist), (0, 0, 0));
}
