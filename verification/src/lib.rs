//! A square grid of toggleable cells, configured by two bounded integers
//! parsed from free-form text: the grid's side length and the pixel size
//! of each cell.
//!
//! The crate is organised bottom-up: `parser` turns raw text into a bounded
//! integer with a silent fallback policy, `grid` holds the matrix of boolean
//! cell states, and `controller` wires parsed inputs and click events to the
//! grid and the shared pixel-size configuration.

pub mod controller;
pub mod grid;
pub mod parser;
