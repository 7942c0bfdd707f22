//! The matrix of cell states.
//!
//! A grid is a square matrix of independent boolean `filled` flags, stored
//! row-major and addressed by `(row, column)`. Cells have no identity beyond
//! their position: a grid is created whole, with every cell unfilled, and is
//! discarded whole when the dimension changes. `toggle` flips exactly one
//! cell and leaves every other cell as it was.

use vstd::prelude::*;

verus! {

/// Position of the cell `(row, col)` in the row-major layout of a square
/// grid with side length `dim`.
pub open spec fn row_major_index(dim: int, row: int, col: int) -> int {
    row * dim + col
}

/// The sequence `s` with the flag at position `i` flipped.
pub open spec fn toggled(s: Seq<bool>, i: int) -> Seq<bool> {
    s.update(i, !s[i])
}

/// A square grid of cells, each carrying one `filled` flag. The view is the
/// row-major sequence of those flags.
pub struct Grid {
    dimension: u8,
    cells: Vec<bool>,
}

impl View for Grid {
    type V = Seq<bool>;

    closed spec fn view(&self) -> Seq<bool> {
        self.cells@
    }
}

impl Grid {
    /// Side length of the grid.
    pub closed spec fn spec_dimension(self) -> u8 {
        self.dimension
    }

    /// A grid is well formed when it holds exactly dimension² cells.
    pub open spec fn wf(self) -> bool {
        self@.len() == self.spec_dimension() * self.spec_dimension()
    }

    /// Whether `(row, col)` addresses a cell of this grid.
    pub open spec fn in_bounds(self, row: u8, col: u8) -> bool {
        row < self.spec_dimension() && col < self.spec_dimension()
    }

    /// Build a `dimension` × `dimension` grid with every cell unfilled.
    pub fn create(dimension: u8) -> (g: Grid)
        ensures
            g.wf(),
            g.spec_dimension() == dimension,
            g@.len() == dimension * dimension,
            forall|i: int| 0 <= i < g@.len() ==> !g@[i],
    {
        proof {
            lemma_square_of_u8_fits(dimension as int);
        }
        let count: usize = (dimension as usize) * (dimension as usize);
        let mut cells: Vec<bool> = Vec::new();
        let mut i: usize = 0;
        while i < count
            invariant
                i <= count,
                cells@.len() == i,
                forall|k: int| 0 <= k < i ==> !cells@[k],
            decreases count - i,
        {
            cells.push(false);
            i = i + 1;
        }
        Grid { dimension, cells }
    }

    /// Side length, as stored.
    pub fn dimension(&self) -> (d: u8)
        ensures
            d == self.spec_dimension(),
    {
        self.dimension
    }

    /// Number of cells the grid holds.
    pub fn cell_count(&self) -> (n: usize)
        ensures
            n == self@.len(),
    {
        self.cells.len()
    }

    /// Read the `filled` flag of the cell at `(row, col)`.
    pub fn is_filled(&self, row: u8, col: u8) -> (filled: bool)
        requires
            self.wf(),
            self.in_bounds(row, col),
        ensures
            filled == self@[row_major_index(
                self.spec_dimension() as int,
                row as int,
                col as int,
            )],
    {
        proof {
            lemma_square_of_u8_fits(self.dimension as int);
            lemma_row_major_index_in_range(self.dimension as int, row as int, col as int);
        }
        let dim: usize = self.dimension as usize;
        let index: usize = (row as usize) * dim + (col as usize);
        self.cells[index]
    }

    /// Flip the `filled` flag of the cell at `(row, col)`; every other cell
    /// keeps its flag, and the dimension does not change.
    pub fn toggle(&mut self, row: u8, col: u8)
        requires
            old(self).wf(),
            old(self).in_bounds(row, col),
        ensures
            final(self).wf(),
            final(self).spec_dimension() == old(self).spec_dimension(),
            final(self)@ == toggled(
                old(self)@,
                row_major_index(old(self).spec_dimension() as int, row as int, col as int),
            ),
            final(self)@[row_major_index(
                old(self).spec_dimension() as int,
                row as int,
                col as int,
            )] == !old(self)@[row_major_index(
                old(self).spec_dimension() as int,
                row as int,
                col as int,
            )],
            forall|i: int|
                0 <= i < old(self)@.len() && i != row_major_index(
                    old(self).spec_dimension() as int,
                    row as int,
                    col as int,
                ) ==> final(self)@[i] == old(self)@[i],
    {
        proof {
            lemma_square_of_u8_fits(self.dimension as int);
            lemma_row_major_index_in_range(self.dimension as int, row as int, col as int);
        }
        let dim: usize = self.dimension as usize;
        let index: usize = (row as usize) * dim + (col as usize);
        let filled = self.cells[index];
        self.cells.set(index, !filled);
    }
}

/// The square of a value below 256 stays below 2^16, so a cell count or a
/// row-major index always fits in `usize`.
proof fn lemma_square_of_u8_fits(dim: int)
    requires
        0 <= dim < 256,
    ensures
        dim * dim < 0x10000,
{
    assert(dim * dim < 0x10000) by (nonlinear_arith)
        requires
            0 <= dim < 256,
    ;
}

/// A row-major index of a square grid lies below dimension², and at or
/// above zero.
pub proof fn lemma_row_major_index_in_range(dim: int, row: int, col: int)
    requires
        0 <= row < dim,
        0 <= col < dim,
    ensures
        0 <= row_major_index(dim, row, col) < dim * dim,
{
    assert(0 <= row * dim + col < dim * dim) by (nonlinear_arith)
        requires
            0 <= row < dim,
            0 <= col < dim,
    ;
}

/// Toggling the same position twice restores the original sequence of
/// flags: a double toggle is the identity.
pub proof fn lemma_double_toggle(s: Seq<bool>, i: int)
    requires
        0 <= i < s.len(),
    ensures
        toggled(toggled(s, i), i) == s,
{
    assert(toggled(toggled(s, i), i) =~= s);
}

} // verus!
