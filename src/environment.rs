//! Two small deterministic environments: a grid world and tic-tac-toe.

pub mod move_to_center;
pub mod tic_tac_toe;
