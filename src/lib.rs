//! A particle-swarm optimiser over fixed-point vectors.
//!
//! Coordinates, coefficients and random draws are integers read as fixed-point
//! numbers: the integer `x` stands for the real number `x / SCALE`. Costs are exact
//! integers, so every comparison the swarm makes is exact.
pub mod laws;
pub mod lemmas;
pub mod model;
pub mod objective_functions;
pub mod particle;
pub mod random;
pub mod swarm;
