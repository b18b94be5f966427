//! A grid-based material simulation: a push-only fluid flow solver over a
//! lattice of cells, and a cellular automaton that carves cave terrain.
//!
//! Masses are fixed-point integers: `MASS_UNIT` units make one cell's worth
//! of uncompressed fluid.

pub mod cave;
pub mod color;
pub mod edit;
pub mod flow;
pub mod grid;
pub mod palette;
