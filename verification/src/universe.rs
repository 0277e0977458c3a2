//! The universe: a grid of fixed dimensions, its cells and its generation
//! counter.

use vstd::prelude::*;
use crate::cell::Cell;
use crate::draws::{below, draw};
use crate::model::{Grid, CHAOS_PERIOD};
use crate::seeding::{seed, seeded};

verus! {

/// A Game of Life on a torus.
pub struct Universe {
    width: u32,
    height: u32,
    cells: Vec<Cell>,
    generation: u32,
}

impl View for Universe {
    type V = Grid;

    closed spec fn view(&self) -> Grid {
        Grid {
            width: self.width as nat,
            height: self.height as nat,
            cells: self.cells@,
            generation: self.generation as nat,
        }
    }
}

impl Universe {
    #[verifier::type_invariant]
    spec fn inv(self) -> bool {
        &&& self@.well_formed()
        &&& self.width * self.height <= u32::MAX
    }

    /// Builds a fresh universe at generation 0.  All cells start dead; then
    /// a hundred attempts stamp patterns at anchors that the tape draws, and
    /// a layer of noise sets one cell in four.  Nothing ever clears a cell.
    pub fn new(width: u32, height: u32, tape: &[u32]) -> (fresh: Universe)
        requires
            width > 0,
            height > 0,
            width * height <= u32::MAX,
        ensures
            fresh@ == (Grid {
                width: width as nat,
                height: height as nat,
                cells: seeded(width, height, tape@),
                generation: 0,
            }),
            fresh@.well_formed(),
            fresh@.cells.len() == width * height,
    {
        let cells = seed(width, height, tape);
        Universe { width, height, cells, generation: 0 }
    }

    /// Builds a universe at generation 0 from its cells, listed row by row.
    /// Returns `None` unless both dimensions are positive, there is exactly
    /// one cell for each position, and the number of cells fits in 32 bits.
    pub fn from_cells(width: u32, height: u32, cells: Vec<Cell>) -> (made: Option<Universe>)
        ensures
            made is Some <==> width > 0 && height > 0 && cells@.len() == width * height && width
                * height <= u32::MAX,
            made is Some ==> made->Some_0@ == (Grid {
                width: width as nat,
                height: height as nat,
                cells: cells@,
                generation: 0,
            }),
            made is Some ==> made->Some_0@.well_formed(),
    {
        proof {
            crate::draws::lemma_product_fits(width, height);
        }
        let size: u64 = (width as u64) * (height as u64);
        if width > 0 && height > 0 && size <= u32::MAX as u64 && cells.len() as u64 == size {
            Some(Universe { width, height, cells, generation: 0 })
        } else {
            None
        }
    }

    /// The number of columns.
    pub fn width(&self) -> (w: u32)
        ensures
            w == self@.width,
            w > 0,
            self@.well_formed(),
    {
        proof {
            use_type_invariant(self);
        }
        self.width
    }

    /// The number of rows.
    pub fn height(&self) -> (h: u32)
        ensures
            h == self@.height,
            h > 0,
            self@.well_formed(),
    {
        proof {
            use_type_invariant(self);
        }
        self.height
    }

    /// The number of generations that have passed.
    pub fn generation(&self) -> (g: u32)
        ensures
            g == self@.generation,
    {
        self.generation
    }

    /// The cells, row by row: one for each position.
    pub fn cells(&self) -> (view: &[Cell])
        ensures
            view@ == self@.cells,
            view@.len() == self@.width * self@.height,
    {
        proof {
            use_type_invariant(self);
        }
        self.cells.as_slice()
    }

    /// The place of position `(row, column)` in the cells.
    pub fn get_index(&self, row: u32, column: u32) -> (idx: usize)
        requires
            row < self@.height,
            column < self@.width,
        ensures
            idx == self@.index(row as int, column as int),
            idx < self@.cells.len(),
    {
        proof {
            use_type_invariant(self);
            self@.lemma_index_in_bounds(row as int, column as int);
            assert(0 <= row * self.width) by (nonlinear_arith);
        }
        (row * self.width + column) as usize
    }

    /// What the position `(dr, dc)` steps from `(row, column)` adds to its
    /// neighbor count.
    fn neighbor_weight(&self, row: u32, column: u32, dr: u32, dc: u32) -> (n: u8)
        ensures
            n == self@.neighbor_weight(row as int, column as int, dr as int, dc as int),
            n <= 1,
    {
        if dr == 0 && dc == 0 {
            0
        } else {
            proof {
                use_type_invariant(self);
            }
            let near_row = ((row as u64 + dr as u64) % (self.height as u64)) as u32;
            let near_col = ((column as u64 + dc as u64) % (self.width as u64)) as u32;
            let idx = self.get_index(near_row, near_col);
            self.cells[idx].to_u8()
        }
    }

    /// What the three positions in the row `dr` steps from `row` add to the
    /// neighbor count of `(row, column)`.
    fn row_weight(&self, row: u32, column: u32, dr: u32) -> (n: u8)
        ensures
            n == self@.row_weight(row as int, column as int, dr as int),
            n <= 3,
    {
        proof {
            use_type_invariant(self);
        }
        let back = self.neighbor_weight(row, column, dr, self.width - 1);
        let same = self.neighbor_weight(row, column, dr, 0);
        let on = self.neighbor_weight(row, column, dr, 1);
        back + same + on
    }

    /// Counts the live neighbors of `(row, column)` on the torus.  Positions
    /// beyond the grid wrap round as well.
    pub fn live_neighbor_count(&self, row: u32, column: u32) -> (count: u8)
        ensures
            count == self@.live_neighbors(row as int, column as int),
            count <= 8,
    {
        proof {
            use_type_invariant(self);
        }
        let before = self.row_weight(row, column, self.height - 1);
        let same = self.row_weight(row, column, 0);
        let after = self.row_weight(row, column, 1);
        before + same + after
    }

    /// The state that the tape forces on cell `i` of a generation that is
    /// open to overrides, if any.
    pub fn forced(tape: &[u32], i: u32) -> (state: Option<Cell>)
        ensures
            state == Grid::forced_cell(tape@, i as int),
    {
        let first: u64 = 2 * (i as u64);
        match (draw(tape, first), draw(tape, first + 1)) {
            (Some(gate), Some(coin)) => {
                if below(gate, 1, 100) {
                    if below(coin, 1, 2) {
                        Some(Cell::Alive)
                    } else {
                        Some(Cell::Dead)
                    }
                } else {
                    None
                }
            },
            _ => None,
        }
    }

    /// Whether the next call of `tick` reads the tape.
    pub fn chaos_due(&self) -> (due: bool)
        ensures
            due == self@.chaos_due(),
    {
        (self.generation as u64 + 1) % (CHAOS_PERIOD as u64) == 0
    }

    /// Tells how many leading slots of the tape the next call of `tick` reads.
    pub fn slots_for_tick(&self) -> (n: u64)
        ensures
            n == self@.tick_slots(),
    {
        proof {
            use_type_invariant(self);
        }
        if self.chaos_due() {
            2 * (self.cells.len() as u64)
        } else {
            0
        }
    }

    /// Advances the universe by one generation.  Every cell of the new
    /// generation is computed from the old one; where the new generation's
    /// number is a multiple of the period, the tape may force the state of
    /// cells.
    pub fn tick(&mut self, tape: &[u32])
        requires
            old(self)@.generation < u32::MAX,
        ensures
            final(self)@ == old(self)@.ticked(tape@),
            final(self)@.well_formed(),
            final(self)@.width == old(self)@.width,
            final(self)@.height == old(self)@.height,
            final(self)@.cells.len() == old(self)@.width * old(self)@.height,
            final(self)@.generation == old(self)@.generation + 1,
    {
        proof {
            use_type_invariant(&*self);
        }
        let ghost before = self@;
        let chaos = self.chaos_due();
        let size: u32 = self.width * self.height;
        let mut next: Vec<Cell> = Vec::with_capacity(size as usize);
        let mut i: u32 = 0;
        while i < size
            invariant
                self@ == before,
                before.well_formed(),
                size == before.cells.len(),
                chaos == before.chaos_due(),
                i <= size,
                next@.len() == i,
                forall|j: int| 0 <= j < i ==> next@[j] == before.next_cell(tape@, j),
            decreases size - i,
        {
            proof {
                use_type_invariant(&*self);
                before.lemma_position_in_bounds(i as int);
            }
            let row = i / self.width;
            let column = i % self.width;
            let ruled = self.cells[i as usize].evolve(self.live_neighbor_count(row, column));
            let state = if chaos {
                match Universe::forced(tape, i) {
                    Some(forced) => forced,
                    None => ruled,
                }
            } else {
                ruled
            };
            next.push(state);
            i = i + 1;
        }
        self.generation = self.generation + 1;
        self.cells = next;
        assert(self@.cells =~= before.ticked(tape@).cells);
    }
}

} // verus!
