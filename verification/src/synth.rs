//! Synthetic network generation: a graph of a requested size grown by
//! preferential attachment, for when no real extract is supplied. The
//! first `k` nodes form a connected seed path; each later node attaches
//! to `k` distinct existing nodes, drawn with probability proportional
//! to current degree (uniformly where no degree exists yet). Every node
//! ends with at least one edge, so downstream position sampling always
//! has an edge under every node.

use crate::edge::StreetEdgeLabel;
use crate::errors::InvalidGeneratorConfig;
use crate::geom::{coord_ok, euclid_len, GeoPoint};
use crate::graph::StreetGraph;
use crate::network::StreetNetwork;
use crate::node::StreetNode;
use crate::planner::{count_true, lemma_count_true_set};
use crate::rng::{rand_index, rand_offset};
use vstd::prelude::*;

verus! {

/// The edge entries an attachment-grown graph holds: the seed path's
/// `k - 1` undirected edges plus `k` per attached node, each stored in
/// both directions.
pub open spec fn synthetic_edge_entries(node_count: int, attach_per_node: int) -> int {
    2 * ((attach_per_node - 1) + (node_count - attach_per_node) * attach_per_node)
}

/// Grows a graph of `node_count` nodes by preferential attachment with
/// `attach_per_node` edges per new node, placing nodes at random
/// coordinates inside a unit-degree box. Degenerate shapes — fewer
/// nodes than attachments, no attachments, or too few nodes for every
/// node to end with an edge — are rejected before anything is built.
#[verifier::rlimit(60)]
pub fn build_synthetic(node_count: usize, attach_per_node: usize, rng: &mut rand::rngs::StdRng) -> (r:
    Result<StreetNetwork, InvalidGeneratorConfig>)
    requires
        node_count <= 0x7fff_ffff_ffff_ffff,
    ensures
        (node_count < 2 || attach_per_node == 0 || node_count < attach_per_node) <==> (r matches Err(
            e,
        ) && e == (InvalidGeneratorConfig { node_count, attach_per_node })),
        r is Ok <==> !(node_count < 2 || attach_per_node == 0 || node_count
            < attach_per_node),
        r matches Ok(s) ==> {
            let g = s.read_gen;
            &&& s.wf()
            &&& g.directed == false
            &&& g.nodes@.len() == node_count
            &&& forall|j: int| 0 <= j < node_count ==> (#[trigger] g.nodes@[j]).osm_id == j
            &&& forall|j: int|
                0 <= j < node_count ==> {
                    let p = (#[trigger] g.nodes@[j]).loc;
                    &&& 0 <= p.nano_lat <= 1_000_000_000
                    &&& 0 <= p.nano_lon <= 1_000_000_000
                }
            &&& forall|u: int|
                0 <= u < node_count ==> (#[trigger] g.adj@[u as int]@).len() >= 1
            &&& g.edge_entries() == synthetic_edge_entries(
                node_count as int,
                attach_per_node as int,
            )
            &&& forall|u: int, j: int|
                0 <= u < g.adj@.len() && 0 <= j < g.adj@[u]@.len() ==> (#[trigger] g.adj@[u]@[j]).label
                    is Some
            &&& forall|u: int|
                attach_per_node <= u < node_count ==> (#[trigger] g.adj@[u]@).len()
                    >= attach_per_node
            &&& forall|u: int, j: int|
                attach_per_node <= u < node_count && 0 <= j < attach_per_node ==> (
                #[trigger] g.adj@[u]@[j]).v < u
            &&& forall|u: int, j1: int, j2: int|
                attach_per_node <= u < node_count && 0 <= j1 < j2 < attach_per_node ==> (
                #[trigger] g.adj@[u]@[j1]).v != (#[trigger] g.adj@[u]@[j2]).v
        },
{
    let n = node_count;
    let k = attach_per_node;
    if n < 2 || k == 0 || n < k {
        return Err(InvalidGeneratorConfig { node_count, attach_per_node });
    }
    let mut g = StreetGraph::new(false);
    for i in 0..n
        invariant
            g.wf(),
            g.directed == false,
            g.nodes@.len() == i,
            g.flat_edges().len() == 0,
            forall|u: int| 0 <= u < g.adj@.len() ==> (#[trigger] g.adj@[u]@).len() == 0,
            forall|j: int| 0 <= j < i ==> (#[trigger] g.nodes@[j]).osm_id == j,
            forall|j: int|
                0 <= j < i ==> {
                    let p = (#[trigger] g.nodes@[j]).loc;
                    &&& 0 <= p.nano_lat <= 1_000_000_000
                    &&& 0 <= p.nano_lon <= 1_000_000_000
                },
            n <= 0x7fff_ffff_ffff_ffff,
    {
        let lat = rand_offset(rng, 1_000_000_000) as i64;
        let lon = rand_offset(rng, 1_000_000_000) as i64;
        let node = StreetNode { osm_id: i as i64, loc: GeoPoint { nano_lat: lat, nano_lon: lon } };
        let ghost pre = g;
        proof {
            if pre.id_index@.contains_key(i as i64) {
                let w = pre.id_index@[i as i64];
                assert(pre.nodes@[w as int].osm_id == i as i64);
                assert(w < i);
                assert(pre.nodes@[w as int].osm_id == w as int);
                assert(false);
            }
        }
        let _idx = g.add_node(node);
    }
    // Seed: a path over the first k nodes, connected by construction.
    let mut t: usize = 0;
    while t + 1 < k
        invariant
            2 <= n,
            1 <= k <= n,
            t < k,
            g.wf(),
            g.directed == false,
            g.nodes@.len() == n,
            forall|j: int| 0 <= j < n ==> (#[trigger] g.nodes@[j]).osm_id == j,
            forall|j: int|
                0 <= j < n ==> {
                    let p = (#[trigger] g.nodes@[j]).loc;
                    &&& 0 <= p.nano_lat <= 1_000_000_000
                    &&& 0 <= p.nano_lon <= 1_000_000_000
                },
            g.edge_entries() == 2 * t,
            forall|j: int| k <= j < n ==> (#[trigger] g.adj@[j]@).len() == 0,
            t > 0 ==> forall|j: int| 0 <= j <= t ==> (#[trigger] g.adj@[j]@).len() >= 1,
            forall|u: int, j: int|
                0 <= u < g.adj@.len() && 0 <= j < g.adj@[u]@.len() ==> (#[trigger] g.adj@[u]@[j]).label
                    is Some,
        decreases k - t,
    {
        let len = euclid_len(g.nodes[t].loc, g.nodes[t + 1].loc);
        let res = g.add_edge(t, t + 1, Some(StreetEdgeLabel { len, id: t as i64 }));
        proof {
            assert(res is Ok);
        }
        t = t + 1;
    }
    proof {
        assert(g.edge_entries() == 2 * (k - 1));
        assert(2 * ((k - 1) + (k - k) * (k as int)) == 2 * (k - 1)) by (nonlinear_arith);
    }
    // Growth: each new node attaches to k distinct existing nodes,
    // degree-biased through a bag of edge endpoints, uniform when the
    // bag runs dry.
    for i in k..n
        invariant
            2 <= n == g.nodes@.len(),
            1 <= k <= i <= n,
            g.wf(),
            g.directed == false,
            forall|j: int| 0 <= j < n ==> (#[trigger] g.nodes@[j]).osm_id == j,
            forall|j: int|
                0 <= j < n ==> {
                    let p = (#[trigger] g.nodes@[j]).loc;
                    &&& 0 <= p.nano_lat <= 1_000_000_000
                    &&& 0 <= p.nano_lon <= 1_000_000_000
                },
            g.edge_entries() == 2 * ((k - 1) + (i - k) * k),
            forall|j: int| i <= j < n ==> (#[trigger] g.adj@[j]@).len() == 0,
            (forall|j: int| 0 <= j < i ==> (#[trigger] g.adj@[j]@).len() >= 1) || (k == 1 && i
                == k),
            forall|u: int, j: int|
                0 <= u < g.adj@.len() && 0 <= j < g.adj@[u]@.len() ==> (#[trigger] g.adj@[u]@[j]).label
                    is Some,
            forall|u: int| k <= u < i ==> (#[trigger] g.adj@[u]@).len() >= k,
            forall|u: int, j: int|
                k <= u < i && 0 <= j < k ==> (#[trigger] g.adj@[u]@[j]).v < u,
            forall|u: int, j1: int, j2: int|
                k <= u < i && 0 <= j1 < j2 < k ==> (#[trigger] g.adj@[u]@[j1]).v != (
                #[trigger] g.adj@[u]@[j2]).v,
    {
        // Bag of endpoints: one copy of u per edge entry filed at u,
        // so a draw is degree-proportional.
        let mut bag: Vec<usize> = Vec::new();
        for u in 0..i
            invariant
                i <= n == g.nodes@.len(),
                g.wf(),
                forall|b: int| 0 <= b < bag@.len() ==> (#[trigger] bag@[b]) < i,
        {
            let deg = g.adj[u].len();
            for c in 0..deg
                invariant
                    u < i <= n == g.nodes@.len(),
                    g.wf(),
                    forall|b: int| 0 <= b < bag@.len() ==> (#[trigger] bag@[b]) < i,
            {
                bag.push(u);
            }
        }
        let mut chosen: Vec<bool> = Vec::new();
        for j in 0..i
            invariant
                chosen@.len() == j,
                forall|b: int| 0 <= b < j ==> !(#[trigger] chosen@[b]),
        {
            chosen.push(false);
        }
        proof {
            crate::planner::lemma_count_all_false(chosen@);
        }
        let ghost g_entry = g;
        let mut pick: usize = 0;
        while pick < k
            invariant
                2 <= n == g.nodes@.len(),
                1 <= k <= i < n,
                pick <= k,
                g.wf(),
                g.directed == false,
                forall|j: int| 0 <= j < n ==> (#[trigger] g.nodes@[j]).osm_id == j,
                forall|j: int|
                    0 <= j < n ==> {
                        let p = (#[trigger] g.nodes@[j]).loc;
                        &&& 0 <= p.nano_lat <= 1_000_000_000
                        &&& 0 <= p.nano_lon <= 1_000_000_000
                    },
                chosen@.len() == i,
                count_true(chosen@) == pick,
                forall|b: int| 0 <= b < bag@.len() ==> (#[trigger] bag@[b]) < i && !chosen@[bag@[b] as int],
                g.edge_entries() == 2 * ((k - 1) + (i - k) * k) + 2 * pick,
                forall|j: int| i < j < n ==> (#[trigger] g.adj@[j]@).len() == 0,
                g.adj@[i as int]@.len() == pick,
                (forall|j: int| 0 <= j < i ==> (#[trigger] g.adj@[j]@).len() >= 1) || (k == 1 && i
                    == k && pick == 0),
                forall|j: int|
                    0 <= j < i && (#[trigger] chosen@[j]) ==> g.adj@[j]@.len() >= 1,
                forall|u: int, j: int|
                    0 <= u < g.adj@.len() && 0 <= j < g.adj@[u]@.len() ==> (#[trigger] g.adj@[u]@[j]).label
                        is Some,
                forall|u: int| k <= u < i ==> (#[trigger] g.adj@[u]@).len() >= k,
                forall|u: int, j: int|
                    k <= u < i && 0 <= j < k ==> (#[trigger] g.adj@[u]@[j]).v < u,
                forall|u: int, j1: int, j2: int|
                    k <= u < i && 0 <= j1 < j2 < k ==> (#[trigger] g.adj@[u]@[j1]).v != (
                    #[trigger] g.adj@[u]@[j2]).v,
                forall|j: int|
                    0 <= j < pick ==> (#[trigger] g.adj@[i as int]@[j]).v < i
                        && chosen@[g.adj@[i as int]@[j].v as int],
                forall|j1: int, j2: int|
                    0 <= j1 < j2 < pick ==> (#[trigger] g.adj@[i as int]@[j1]).v != (
                    #[trigger] g.adj@[i as int]@[j2]).v,
            decreases k - pick,
        {
            let target: usize;
            if bag.len() > 0 {
                let b = rand_index(rng, bag.len());
                target = bag[b];
            } else {
                let mut eligible: Vec<usize> = Vec::new();
                for j in 0..i
                    invariant
                        i == chosen@.len(),
                        eligible@.len() + count_true(chosen@.take(j as int)) == j,
                        forall|b: int|
                            0 <= b < eligible@.len() ==> (#[trigger] eligible@[b]) < i
                                && !chosen@[eligible@[b] as int],
                {
                    proof {
                        assert(chosen@.take(j + 1).drop_last() =~= chosen@.take(j as int));
                    }
                    if !chosen[j] {
                        eligible.push(j);
                    }
                }
                proof {
                    assert(chosen@.take(i as int) =~= chosen@);
                    assert(eligible@.len() == i - pick);
                }
                let e = rand_index(rng, eligible.len());
                target = eligible[e];
            }
            let ghost chosen0 = chosen@;
            proof {
                assert(!chosen0[target as int]);
            }
            chosen[target] = true;
            proof {
                lemma_count_true_set(chosen0, target as int);
            }
            // Drop every copy of the chosen node from the bag: the next
            // draw is over the remaining candidates only.
            let mut new_bag: Vec<usize> = Vec::new();
            let bag_len = bag.len();
            for b in 0..bag_len
                invariant
                    bag_len == bag@.len(),
                    chosen@.len() == i,
                    forall|x: int|
                        0 <= x < bag@.len() ==> (#[trigger] bag@[x]) < i && (bag@[x] != target
                            ==> !chosen@[bag@[x] as int]),
                    forall|x: int|
                        0 <= x < new_bag@.len() ==> (#[trigger] new_bag@[x]) < i
                            && !chosen@[new_bag@[x] as int],
            {
                let cand = bag[b];
                if cand != target {
                    new_bag.push(cand);
                }
            }
            bag = new_bag;
            let len = euclid_len(g.nodes[i].loc, g.nodes[target].loc);
            let res = g.add_edge(i, target, Some(StreetEdgeLabel { len, id: i as i64 }));
            proof {
                assert(res is Ok);
                if k == 1 && i == k && pick == 0 {
                    assert(target == 0);
                }
                assert(g.adj@[i as int]@[pick as int].v == target);
                assert forall|j1: int, j2: int| 0 <= j1 < j2 < pick + 1 implies (
                #[trigger] g.adj@[i as int]@[j1]).v != (#[trigger] g.adj@[i as int]@[j2]).v by {
                    if j2 == pick {
                        assert(chosen0[g.adj@[i as int]@[j1].v as int]);
                        assert(!chosen0[target as int]);
                    }
                }
            }
            pick = pick + 1;
        }
        proof {
            assert(2 * ((k - 1) + (i - k) * k) + 2 * (k as int) == 2 * ((k - 1) + (i + 1 - k) * k))
                by (nonlinear_arith);
        }
    }
    proof {
        assert(g.edge_entries() == synthetic_edge_entries(n as int, k as int));
    }
    Ok(StreetNetwork::committed(g))
}

} // verus!

