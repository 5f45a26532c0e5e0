//! Core of a street-network simulation: imports a binary geographic
//! extract (or synthesizes a network), stores it as a weighted graph with
//! a read generation and a write generation, and answers shortest-path
//! and random-position queries against the read generation.

pub mod edge;
pub mod errors;
pub mod geom;
pub mod graph;
pub mod import;
pub mod network;
pub mod node;
pub mod pbf;
pub mod planner;
pub mod position;
pub mod rng;
pub mod synth;
pub mod util;
