//! Synthetic generation: node and edge counts, the no-isolated-node
//! guarantee, degenerate inputs, and reproducibility under a fixed seed.

use urban_network::errors::InvalidGeneratorConfig;
use urban_network::rng::rng_from_seed;
use urban_network::synth::build_synthetic;

#[test]
fn ten_nodes_two_attachments_no_isolated_node() {
    let mut rng = rng_from_seed(7);
    let s = build_synthetic(10, 2, &mut rng).unwrap();
    let g = &s.read_gen;
    assert_eq!(g.nodes.len(), 10);
    for u in 0..10 {
        assert!(!s.edges_of(u).is_empty(), "node {} is isolated", u);
    }
    // Seed path of 1 undirected edge, then 8 nodes each attaching 2:
    // 17 undirected edges, stored in both directions.
    assert_eq!(s.all_edges().len(), 2 * (1 + 8 * 2));
    // Round trip: gathering edges_of over every node reproduces the
    // edge set exactly.
    let mut rebuilt = Vec::new();
    for u in 0..10 {
        rebuilt.extend(s.edges_of(u));
    }
    assert_eq!(rebuilt, s.all_edges());
}

#[test]
fn attachment_rule_edge_count_with_k_one() {
    let mut rng = rng_from_seed(99);
    let s = build_synthetic(5, 1, &mut rng).unwrap();
    assert_eq!(s.read_gen.nodes.len(), 5);
    // No seed edges; 4 attached nodes add one undirected edge each.
    assert_eq!(s.all_edges().len(), 2 * 4);
    for u in 0..5 {
        assert!(!s.edges_of(u).is_empty());
    }
}

#[test]
fn attachments_are_distinct_existing_nodes() {
    let mut rng = rng_from_seed(3);
    let s = build_synthetic(30, 3, &mut rng).unwrap();
    for u in 0..30 {
        let outgoing = s.edges_of(u);
        for e in &outgoing {
            assert_eq!(e.u, u);
            assert!(e.v < 30);
            assert_ne!(e.v, u, "no self-loops from attachment");
            assert!(e.label.is_some());
        }
        // A node's edges toward lower-indexed nodes are its own k
        // attachments (or its seed edges) and never repeat a target.
        let mut targets: Vec<usize> = outgoing.iter().filter(|e| e.v < u).map(|e| e.v).collect();
        targets.sort_unstable();
        let before = targets.len();
        targets.dedup();
        assert_eq!(before, targets.len(), "node {} attached twice to one target", u);
    }
}

#[test]
fn degenerate_shapes_are_rejected() {
    let mut rng = rng_from_seed(1);
    assert_eq!(
        build_synthetic(1, 1, &mut rng).err(),
        Some(InvalidGeneratorConfig {
            node_count: 1,
            attach_per_node: 1
        })
    );
    assert_eq!(
        build_synthetic(3, 5, &mut rng).err(),
        Some(InvalidGeneratorConfig {
            node_count: 3,
            attach_per_node: 5
        })
    );
    assert_eq!(
        build_synthetic(5, 0, &mut rng).err(),
        Some(InvalidGeneratorConfig {
            node_count: 5,
            attach_per_node: 0
        })
    );
}

#[test]
fn same_seed_reproduces_the_same_network() {
    let mut rng_a = rng_from_seed(2024);
    let mut rng_b = rng_from_seed(2024);
    let a = build_synthetic(12, 2, &mut rng_a).unwrap();
    let b = build_synthetic(12, 2, &mut rng_b).unwrap();
    assert_eq!(a.all_edges(), b.all_edges());
}

#[test]
fn sampling_a_synthetic_network_stays_on_an_edge() {
    let mut rng = rng_from_seed(5);
    let s = build_synthetic(10, 2, &mut rng).unwrap();
    for _ in 0..50 {
        let p = s.random_position(&mut rng).unwrap();
        let outgoing = s.edges_of(p.from_node);
        let edge = outgoing
            .iter()
            .find(|e| e.v == p.to_node)
            .expect("position must lie on an existing edge");
        assert!(p.edge_dist <= edge.label.unwrap().len);
    }
}
