//! The mathematical model of a universe: a grid of cells on a torus, and
//! the function that takes one generation to the next.

use vstd::prelude::*;
use crate::cell::Cell;
use crate::draws::{draw_at, is_below};

verus! {

/// Every generation whose number is a multiple of this period is open to
/// random overrides.
pub const CHAOS_PERIOD: u32 = 100;

/// A universe as a mathematical value.
pub struct Grid {
    /// The number of columns.
    pub width: nat,
    /// The number of rows.
    pub height: nat,
    /// The cells, row by row.
    pub cells: Seq<Cell>,
    /// The number of generations that have passed.
    pub generation: nat,
}

impl Grid {
    /// Both dimensions are positive and there is one cell for each position.
    pub open spec fn well_formed(self) -> bool {
        &&& self.width > 0
        &&& self.height > 0
        &&& self.cells.len() == self.width * self.height
    }

    /// The place of position `(row, col)` in the row-major sequence of cells.
    pub open spec fn index(self, row: int, col: int) -> int {
        row * self.width + col
    }

    /// The cell at position `(row, col)`.
    pub open spec fn at(self, row: int, col: int) -> Cell {
        self.cells[self.index(row, col)]
    }

    /// What the position `(dr, dc)` steps away from `(row, col)`, wrapping
    /// round both edges, adds to the neighbor count of `(row, col)`.  A step
    /// of zero in both directions is the position itself and adds nothing.
    pub open spec fn neighbor_weight(self, row: int, col: int, dr: int, dc: int) -> nat {
        if dr == 0 && dc == 0 {
            0
        } else {
            self.at((row + dr) % (self.height as int), (col + dc) % (self.width as int)).weight()
        }
    }

    /// What the three positions in the row `dr` steps away add to the
    /// neighbor count of `(row, col)`: one column back, the same column, one
    /// column on.
    pub open spec fn row_weight(self, row: int, col: int, dr: int) -> nat {
        self.neighbor_weight(row, col, dr, self.width - 1) + self.neighbor_weight(row, col, dr, 0)
            + self.neighbor_weight(row, col, dr, 1)
    }

    /// The number of live neighbors of `(row, col)`: the weights of the row
    /// before, the same row and the row after.
    pub open spec fn live_neighbors(self, row: int, col: int) -> nat {
        self.row_weight(row, col, self.height - 1) + self.row_weight(row, col, 0) + self.row_weight(
            row,
            col,
            1,
        )
    }

    /// What the classical rule alone makes of cell `i` in the next generation.
    pub open spec fn ruled_cell(self, i: int) -> Cell {
        self.cells[i].evolved(self.live_neighbors(i / (self.width as int), i % (self.width as int)))
    }

    /// Whether the next generation is open to random overrides.
    pub open spec fn chaos_due(self) -> bool {
        (self.generation + 1) as int % (CHAOS_PERIOD as int) == 0
    }

    /// The number of leading slots of the tape that the next tick reads: two
    /// for each cell where the next generation is open to overrides, none
    /// where it is not.
    pub open spec fn tick_slots(self) -> int {
        if self.chaos_due() {
            2 * (self.cells.len() as int)
        } else {
            0
        }
    }

    /// The state that the tape forces on cell `i`, if any.  The cell's first
    /// slot decides, with one chance in a hundred, that the cell is
    /// overridden; its second slot is the coin that gives the new state.
    pub open spec fn forced_cell(tape: Seq<u32>, i: int) -> Option<Cell> {
        match (draw_at(tape, 2 * i), draw_at(tape, 2 * i + 1)) {
            (Some(gate), Some(coin)) => if is_below(gate, 1, 100) {
                Some(Cell::lit(is_below(coin, 1, 2)))
            } else {
                None
            },
            _ => None,
        }
    }

    /// Cell `i` in the next generation.
    pub open spec fn next_cell(self, tape: Seq<u32>, i: int) -> Cell {
        if self.chaos_due() && Grid::forced_cell(tape, i) is Some {
            Grid::forced_cell(tape, i)->Some_0
        } else {
            self.ruled_cell(i)
        }
    }

    /// The next generation.
    pub open spec fn ticked(self, tape: Seq<u32>) -> Grid {
        Grid {
            width: self.width,
            height: self.height,
            cells: Seq::new(self.cells.len(), |i: int| self.next_cell(tape, i)),
            generation: self.generation + 1,
        }
    }

    /// Every position of the grid has a place in the sequence of cells.
    pub proof fn lemma_index_in_bounds(self, row: int, col: int)
        requires
            self.well_formed(),
            0 <= row < self.height,
            0 <= col < self.width,
        ensures
            0 <= self.index(row, col) < self.cells.len(),
            self.index(row, col) / (self.width as int) == row,
            self.index(row, col) % (self.width as int) == col,
    {
        let w = self.width as int;
        let h = self.height as int;
        assert(0 <= row * w && row * w + w <= h * w) by (nonlinear_arith)
            requires
                0 <= row < h,
                0 < w,
        ;
        vstd::arithmetic::div_mod::lemma_fundamental_div_mod_converse(row * w + col, w, row, col);
    }

    /// Every place in the sequence of cells is that of a position of the grid.
    pub proof fn lemma_position_in_bounds(self, i: int)
        requires
            self.well_formed(),
            0 <= i < self.cells.len(),
        ensures
            0 <= i / (self.width as int) < self.height,
            0 <= i % (self.width as int) < self.width,
            self.index(i / (self.width as int), i % (self.width as int)) == i,
    {
        let w = self.width as int;
        let h = self.height as int;
        vstd::arithmetic::div_mod::lemma_fundamental_div_mod(i, w);
        vstd::arithmetic::div_mod::lemma_div_pos_is_pos(i, w);
        vstd::arithmetic::div_mod::lemma_mod_bound(i, w);
        let q = i / w;
        assert(q < h) by (nonlinear_arith)
            requires
                i == w * q + i % w,
                0 <= i % w,
                i < w * h,
                0 < w,
        ;
        assert(w * q == q * w) by (nonlinear_arith);
    }
}

} // verus!
