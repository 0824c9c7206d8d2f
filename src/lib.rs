//! Toroidal Game of Life engine: the life rule, a flat double-buffered grid
//! with a precomputed neighbour cache, and the generation step.
pub mod data;
pub mod schedule;
