//! Genome-encoded recurrent networks: a bit-level gene decoder and a
//! sequential per-tick evaluator over an abstract activation type.

pub mod gene;
pub mod network;
pub mod organism;
pub mod population;
