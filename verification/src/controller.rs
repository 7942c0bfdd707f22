//! Wiring the parsed inputs to the grid and the shared view configuration.
//!
//! The controller owns the grid and the one piece of ambient view
//! configuration, the cell pixel size. A map-size input event re-parses the
//! text and replaces the grid wholesale with a fresh, unfilled one of the
//! new dimension; no cell state survives a resize. A cell-size input event
//! re-parses the text into the pixel size and leaves every cell exactly as
//! it was. A click on a cell toggles that cell alone.

use crate::grid::Grid;
use crate::grid::row_major_index;
use crate::grid::toggled;
use crate::parser::parse;
use crate::parser::parse_result;
use vstd::prelude::*;

verus! {

/// A grid dimension is valid strictly below this bound.
pub const MAX_MAP_SIZE: u8 = 32;

/// A cell pixel size is valid strictly below this bound.
pub const MAX_CELL_SIZE: u8 = 128;

/// The dimension an unusable map-size input falls back to, and the initial
/// dimension.
pub const BASE_MAP_SIZE: u8 = 16;

/// The pixel size an unusable cell-size input falls back to, and the
/// initial pixel size.
pub const BASE_CELL_SIZE: u8 = 32;

/// Owner of the grid and of the shared cell pixel size, and the single
/// writer of both: every state change of the application goes through one
/// of its three event handlers.
pub struct GridController {
    grid: Grid,
    cell_size: u8,
}

impl GridController {
    /// The grid as it currently stands.
    pub closed spec fn spec_grid(self) -> Grid {
        self.grid
    }

    /// The shared cell pixel size.
    pub closed spec fn spec_cell_size(self) -> u8 {
        self.cell_size
    }

    /// The side length of the current grid.
    pub open spec fn spec_dimension(self) -> u8 {
        self.spec_grid().spec_dimension()
    }

    /// The controller keeps the grid well formed, its dimension in
    /// `[1, MAX_MAP_SIZE)` and the pixel size in `[1, MAX_CELL_SIZE)`.
    pub open spec fn wf(self) -> bool {
        &&& self.spec_grid().wf()
        &&& 1 <= self.spec_dimension() < MAX_MAP_SIZE
        &&& 1 <= self.spec_cell_size() < MAX_CELL_SIZE
    }

    /// Start with an unfilled `BASE_MAP_SIZE` × `BASE_MAP_SIZE` grid and
    /// the base pixel size.
    pub fn new() -> (c: GridController)
        ensures
            c.wf(),
            c.spec_dimension() == BASE_MAP_SIZE,
            c.spec_cell_size() == BASE_CELL_SIZE,
            forall|i: int| 0 <= i < c.spec_grid()@.len() ==> !c.spec_grid()@[i],
    {
        GridController { grid: Grid::create(BASE_MAP_SIZE), cell_size: BASE_CELL_SIZE }
    }

    /// Map-size input event: parse `text` into the new dimension and
    /// replace the grid with a fresh, unfilled one of that dimension. The
    /// pixel size is untouched.
    pub fn handle_map_size_input(&mut self, text: &[u8])
        requires
            old(self).wf(),
        ensures
            final(self).wf(),
            final(self).spec_dimension() == parse_result(text@, MAX_MAP_SIZE, BASE_MAP_SIZE),
            forall|i: int|
                0 <= i < final(self).spec_grid()@.len() ==> !final(self).spec_grid()@[i],
            final(self).spec_cell_size() == old(self).spec_cell_size(),
    {
        let dimension: u8 = parse(text, MAX_MAP_SIZE, BASE_MAP_SIZE);
        self.grid = Grid::create(dimension);
    }

    /// Cell-size input event: parse `text` into the new shared pixel size.
    /// The grid, and with it every cell's `filled` flag, is untouched.
    pub fn handle_cell_size_input(&mut self, text: &[u8])
        requires
            old(self).wf(),
        ensures
            final(self).wf(),
            final(self).spec_cell_size() == parse_result(text@, MAX_CELL_SIZE, BASE_CELL_SIZE),
            final(self).spec_grid() == old(self).spec_grid(),
    {
        self.cell_size = parse(text, MAX_CELL_SIZE, BASE_CELL_SIZE);
    }

    /// Cell click event: flip the `filled` flag of the cell at
    /// `(row, col)` and of no other, keeping dimension and pixel size.
    pub fn handle_cell_click(&mut self, row: u8, col: u8)
        requires
            old(self).wf(),
            old(self).spec_grid().in_bounds(row, col),
        ensures
            final(self).wf(),
            final(self).spec_dimension() == old(self).spec_dimension(),
            final(self).spec_cell_size() == old(self).spec_cell_size(),
            final(self).spec_grid()@ == toggled(
                old(self).spec_grid()@,
                row_major_index(old(self).spec_dimension() as int, row as int, col as int),
            ),
    {
        self.grid.toggle(row, col);
    }

    /// Side length of the current grid.
    pub fn dimension(&self) -> (d: u8)
        ensures
            d == self.spec_dimension(),
    {
        self.grid.dimension()
    }

    /// The shared cell pixel size.
    pub fn cell_size(&self) -> (s: u8)
        ensures
            s == self.spec_cell_size(),
    {
        self.cell_size
    }

    /// Read the `filled` flag of the cell at `(row, col)`.
    pub fn is_filled(&self, row: u8, col: u8) -> (filled: bool)
        requires
            self.wf(),
            self.spec_grid().in_bounds(row, col),
        ensures
            filled == self.spec_grid()@[row_major_index(
                self.spec_dimension() as int,
                row as int,
                col as int,
            )],
    {
        self.grid.is_filled(row, col)
    }
}

/// Visual class of a cell: `filled_cell` for a filled cell, `cell` for an
/// unfilled one.
pub fn cell_class(filled: bool) -> (class: &'static str)
    ensures
        filled ==> class@ == "filled_cell"@,
        !filled ==> class@ == "cell"@,
{
    if filled {
        "filled_cell"
    } else {
        "cell"
    }
}

} // verus!

