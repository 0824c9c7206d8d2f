//! Cell state and the grid that holds one generation of it.
pub mod cell;
pub mod grid;

pub use cell::{life_rule, Cell, Status};
pub use grid::{Coord, Grid, GridIdx, PAR_THRESHOLD_AREA};
