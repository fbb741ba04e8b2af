//! Verified core of a coexistence-topology search: a genome codec between
//! flat binary sequences and square adjacency matrices, the discrete half
//! of a generalized Lotka-Volterra simulation engine, and a microbial
//! genetic-algorithm optimizer with locality-bound tournaments.

pub mod codec;
pub mod errors;
pub mod fitness;
pub mod glv;
pub mod random;
pub mod sbmga;
pub mod utils;
