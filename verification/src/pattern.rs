//! The shapes that seeding stamps into a fresh grid.

use vstd::prelude::*;

verus! {

/// A shape, given by the offsets of its cells from an anchor.
#[derive(Clone, Copy, Debug, PartialEq, Eq, Structural)]
pub enum Pattern {
    Glider,
    Spaceship,
    Diehard,
    RPentomino,
    /// A 4×4 region in which each cell is set by a coin of its own.
    RandomBlock,
    /// A solid 3×3 block.
    SolidBlock,
}

/// The number of kinds among which a draw chooses.
pub const KINDS: u32 = 6;

/// The largest row offset of any pattern.
pub const MAX_ROW_OFFSET: u32 = 3;

/// The largest column offset of any pattern.
pub const MAX_COL_OFFSET: u32 = 7;

impl Pattern {
    /// The pattern that the number `kind` selects.
    pub open spec fn of_kind(kind: int) -> Pattern {
        if kind == 0 {
            Pattern::Glider
        } else if kind == 1 {
            Pattern::Spaceship
        } else if kind == 2 {
            Pattern::Diehard
        } else if kind == 3 {
            Pattern::RPentomino
        } else if kind == 4 {
            Pattern::RandomBlock
        } else {
            Pattern::SolidBlock
        }
    }

    /// The offsets `(row, column)` of the pattern's cells from its anchor,
    /// in the order in which they are stamped.
    pub open spec fn offsets(self) -> Seq<(u32, u32)> {
        match self {
            Pattern::Glider => seq![(0u32, 1u32), (1u32, 2u32), (2u32, 0u32), (2u32, 1u32), (2u32, 2u32)],
            Pattern::Spaceship => seq![
                (0u32, 1u32),
                (0u32, 2u32),
                (0u32, 3u32),
                (0u32, 4u32),
                (1u32, 0u32),
                (1u32, 4u32),
                (2u32, 4u32),
                (3u32, 0u32),
                (3u32, 3u32),
            ],
            Pattern::Diehard => seq![
                (0u32, 6u32),
                (1u32, 0u32),
                (1u32, 1u32),
                (2u32, 1u32),
                (2u32, 5u32),
                (2u32, 6u32),
                (2u32, 7u32),
            ],
            Pattern::RPentomino => seq![(0u32, 1u32), (0u32, 2u32), (1u32, 0u32), (1u32, 1u32), (2u32, 1u32)],
            Pattern::RandomBlock => Seq::new(16, |n: int| ((n / 4) as u32, (n % 4) as u32)),
            Pattern::SolidBlock => Seq::new(9, |n: int| ((n / 3) as u32, (n % 3) as u32)),
        }
    }

    /// Whether each cell of the pattern is set only if a coin of its own says so.
    pub open spec fn is_random(self) -> bool {
        self == Pattern::RandomBlock
    }

    /// No pattern reaches further from its anchor than the two bounds.
    pub proof fn lemma_offsets_bounded(self, j: int)
        requires
            0 <= j < self.offsets().len(),
        ensures
            self.offsets()[j].0 <= MAX_ROW_OFFSET,
            self.offsets()[j].1 <= MAX_COL_OFFSET,
            self.offsets().len() <= 16,
    {
    }

    /// Selects the pattern for a kind number; every number from 5 on gives the solid block.
    pub fn from_kind(kind: u32) -> (p: Pattern)
        ensures
            p == Pattern::of_kind(kind as int),
    {
        if kind == 0 {
            Pattern::Glider
        } else if kind == 1 {
            Pattern::Spaceship
        } else if kind == 2 {
            Pattern::Diehard
        } else if kind == 3 {
            Pattern::RPentomino
        } else if kind == 4 {
            Pattern::RandomBlock
        } else {
            Pattern::SolidBlock
        }
    }

    /// Tells whether the pattern's cells are each set by a coin.
    pub fn random(self) -> (b: bool)
        ensures
            b == self.is_random(),
    {
        match self {
            Pattern::RandomBlock => true,
            _ => false,
        }
    }

    /// Lists the pattern's offsets in stamping order.
    pub fn cells(self) -> (list: Vec<(u32, u32)>)
        ensures
            list@ == self.offsets(),
    {
        let list = match self {
            Pattern::Glider => vec![(0u32, 1u32), (1u32, 2u32), (2u32, 0u32), (2u32, 1u32), (2u32, 2u32)],
            Pattern::Spaceship => vec![
                (0u32, 1u32),
                (0u32, 2u32),
                (0u32, 3u32),
                (0u32, 4u32),
                (1u32, 0u32),
                (1u32, 4u32),
                (2u32, 4u32),
                (3u32, 0u32),
                (3u32, 3u32),
            ],
            Pattern::Diehard => vec![
                (0u32, 6u32),
                (1u32, 0u32),
                (1u32, 1u32),
                (2u32, 1u32),
                (2u32, 5u32),
                (2u32, 6u32),
                (2u32, 7u32),
            ],
            Pattern::RPentomino => vec![(0u32, 1u32), (0u32, 2u32), (1u32, 0u32), (1u32, 1u32), (2u32, 1u32)],
            Pattern::RandomBlock => Pattern::block(4),
            Pattern::SolidBlock => Pattern::block(3),
        };
        assert(list@ =~= self.offsets());
        list
    }

    /// Lists the offsets of a solid square of the given side, row by row.
    fn block(side: u32) -> (list: Vec<(u32, u32)>)
        requires
            0 < side <= 4,
        ensures
            list@ == Seq::new((side * side) as nat, |n: int| ((n / side as int) as u32, (n % side as int) as u32)),
    {
        let mut list: Vec<(u32, u32)> = Vec::new();
        let mut n: u32 = 0;
        assert(side * side <= 16) by (nonlinear_arith)
            requires
                0 < side <= 4,
        ;
        while n < side * side
            invariant
                0 < side <= 4,
                side * side <= 16,
                n <= side * side,
                list@ == Seq::new(n as nat, |m: int| ((m / side as int) as u32, (m % side as int) as u32)),
            decreases side * side - n,
        {
            list.push((n / side, n % side));
            n = n + 1;
            assert(list@ =~= Seq::new(n as nat, |m: int| ((m / side as int) as u32, (m % side as int) as u32)));
        }
        list
    }
}

} // verus!
