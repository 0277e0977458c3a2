//! The two-valued state of a single grid position, and the rule that
//! decides its next state from the number of its live neighbors.

use vstd::prelude::*;

verus! {

/// The state of one position of the grid.
#[derive(Clone, Copy, Debug, PartialEq, Eq, Structural)]
pub enum Cell {
    Dead,
    Alive,
}

impl Cell {
    /// The contribution of this cell to a neighbor count: 1 when alive, 0 when dead.
    pub open spec fn weight(self) -> nat {
        match self {
            Cell::Dead => 0,
            Cell::Alive => 1,
        }
    }

    /// The cell that is alive exactly when `alive` holds.
    pub open spec fn lit(alive: bool) -> Cell {
        if alive {
            Cell::Alive
        } else {
            Cell::Dead
        }
    }

    /// The classical rule: a cell is alive in the next generation exactly when
    /// it has three live neighbors, or is alive now and has two.
    pub open spec fn evolved(self, live_neighbors: nat) -> Cell {
        Cell::lit(live_neighbors == 3 || (self == Cell::Alive && live_neighbors == 2))
    }

    /// Returns 1 for a live cell and 0 for a dead one.
    pub fn to_u8(self) -> (b: u8)
        ensures
            b == self.weight(),
    {
        match self {
            Cell::Dead => 0,
            Cell::Alive => 1,
        }
    }

    /// Tells whether the cell is alive.
    pub fn is_alive(self) -> (b: bool)
        ensures
            b == (self == Cell::Alive),
    {
        match self {
            Cell::Dead => false,
            Cell::Alive => true,
        }
    }

    /// Applies the classical rule to a cell with `live_neighbors` live neighbors.
    pub fn evolve(self, live_neighbors: u8) -> (next: Cell)
        ensures
            next == self.evolved(live_neighbors as nat),
    {
        match self {
            Cell::Alive => {
                if live_neighbors < 2 {
                    Cell::Dead
                } else if live_neighbors <= 3 {
                    Cell::Alive
                } else {
                    Cell::Dead
                }
            },
            Cell::Dead => {
                if live_neighbors == 3 {
                    Cell::Alive
                } else {
                    Cell::Dead
                }
            },
        }
    }
}

} // verus!
