//! Cellular automata on a toroidal grid: rule sets, neighbor counting, the
//! generation step and pointer painting, with machine-checked contracts.

pub mod automatons;
pub mod cell;
pub mod color;
pub mod game;
pub mod grid;
pub mod laws;
pub mod rect;
pub mod torus;
pub mod workers;
