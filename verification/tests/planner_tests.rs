//! Shortest paths: the single-node case, the no-route case, and exact
//! minimal costs on small concrete networks.

use urban_network::edge::StreetEdgeLabel;
use urban_network::geom::GeoPoint;
use urban_network::graph::StreetGraph;
use urban_network::node::StreetNode;
use urban_network::planner::shortest_path;

fn grid(n: usize, directed: bool) -> StreetGraph {
    let mut g = StreetGraph::new(directed);
    for i in 0..n {
        g.add_node(StreetNode::new(
            i as i64,
            GeoPoint {
                nano_lat: 0,
                nano_lon: i as i64,
            },
        ));
    }
    g
}

#[test]
fn same_start_and_goal_is_single_node_zero_cost() {
    let mut g = grid(3, true);
    g.add_edge(0, 1, Some(StreetEdgeLabel::new(5, 0))).unwrap();
    let p = shortest_path(&g, 2, 2);
    assert_eq!(p.nodes, vec![2]);
    assert_eq!(p.cost, 0);
}

#[test]
fn no_route_yields_empty_path_not_error() {
    let mut g = grid(3, true);
    g.add_edge(0, 1, Some(StreetEdgeLabel::new(5, 0))).unwrap();
    // Nothing leads to node 2.
    let p = shortest_path(&g, 0, 2);
    assert_eq!(p.nodes, Vec::<usize>::new());
    assert_eq!(p.cost, 0);
    // Direction matters in a directed graph.
    let back = shortest_path(&g, 1, 0);
    assert!(back.nodes.is_empty());
}

#[test]
fn picks_the_cheaper_of_two_routes() {
    let mut g = grid(4, true);
    // Direct hop costs 10; the detour over 1 and 2 costs 3 + 3 + 3 = 9.
    g.add_edge(0, 3, Some(StreetEdgeLabel::new(10, 0))).unwrap();
    g.add_edge(0, 1, Some(StreetEdgeLabel::new(3, 0))).unwrap();
    g.add_edge(1, 2, Some(StreetEdgeLabel::new(3, 0))).unwrap();
    g.add_edge(2, 3, Some(StreetEdgeLabel::new(3, 0))).unwrap();
    let p = shortest_path(&g, 0, 3);
    assert_eq!(p.cost, 9);
    assert_eq!(p.nodes, vec![0, 1, 2, 3]);
}

#[test]
fn direct_hop_wins_when_cheaper() {
    let mut g = grid(4, true);
    g.add_edge(0, 3, Some(StreetEdgeLabel::new(7, 0))).unwrap();
    g.add_edge(0, 1, Some(StreetEdgeLabel::new(3, 0))).unwrap();
    g.add_edge(1, 2, Some(StreetEdgeLabel::new(3, 0))).unwrap();
    g.add_edge(2, 3, Some(StreetEdgeLabel::new(3, 0))).unwrap();
    let p = shortest_path(&g, 0, 3);
    assert_eq!(p.cost, 7);
    assert_eq!(p.nodes, vec![0, 3]);
}

#[test]
fn zero_length_edges_route_at_zero_cost() {
    let mut g = grid(3, true);
    g.add_edge(0, 1, Some(StreetEdgeLabel::new(0, 0))).unwrap();
    g.add_edge(1, 2, Some(StreetEdgeLabel::new(0, 0))).unwrap();
    let p = shortest_path(&g, 0, 2);
    assert_eq!(p.cost, 0);
    assert_eq!(p.nodes, vec![0, 1, 2]);
}

#[test]
fn unlabelled_edges_are_not_routable() {
    let mut g = grid(2, true);
    // An edge without a label has no length, so it cannot be routed over.
    g.add_edge(0, 1, None).unwrap();
    let p = shortest_path(&g, 0, 1);
    assert!(p.nodes.is_empty());
}

#[test]
fn undirected_routes_run_both_ways() {
    let mut g = grid(3, false);
    g.add_edge(0, 1, Some(StreetEdgeLabel::new(4, 0))).unwrap();
    g.add_edge(1, 2, Some(StreetEdgeLabel::new(6, 0))).unwrap();
    let fwd = shortest_path(&g, 0, 2);
    let back = shortest_path(&g, 2, 0);
    assert_eq!(fwd.cost, 10);
    assert_eq!(back.cost, 10);
    assert_eq!(back.nodes, vec![2, 1, 0]);
}
