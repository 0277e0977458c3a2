//! The initial state of a universe: a hundred attempts to stamp a pattern,
//! then a layer of noise.
//!
//! Every decision reads a slot of its own on the tape.  Attempt `k` owns the
//! nineteen slots from `19 * k` on: the anchor's column, the anchor's row,
//! the kind of pattern, and sixteen coins for the cells of a random block.
//! The noise for cell `i` is in slot `1900 + i`.

use vstd::prelude::*;
use crate::cell::Cell;
use crate::draws::{above, below, draw, draw_at, is_above, is_below, scale, scaled};
use crate::pattern::{Pattern, KINDS};

verus! {

/// The number of attempts to stamp a pattern.
pub const ATTEMPTS: u64 = 100;

/// The number of slots that each attempt owns.
pub const SLOTS_PER_ATTEMPT: u64 = 19;

/// The slot of the noise for the first cell.
pub const NOISE_BASE: u64 = 1900;

/// The room that must be left between an anchor and the far edges.
pub const MARGIN: u64 = 5;

/// The number of leading slots of the tape that seeding reads: those of the
/// attempts, then one for each cell.
pub open spec fn seed_slots(width: u32, height: u32) -> int {
    NOISE_BASE + width * height
}

/// The anchor `(column, row)` of attempt `k`, where the tape holds both of
/// its draws and the anchor leaves the margin free on both axes.
pub open spec fn anchor(width: u32, height: u32, tape: Seq<u32>, k: int) -> Option<(int, int)> {
    match (draw_at(tape, SLOTS_PER_ATTEMPT * k), draw_at(tape, SLOTS_PER_ATTEMPT * k + 1)) {
        (Some(dx), Some(dy)) => {
            let x = scaled(dx, width);
            let y = scaled(dy, height);
            if x + MARGIN < width && y + MARGIN < height {
                Some((x, y))
            } else {
                None
            }
        },
        _ => None,
    }
}

/// The pattern that attempt `k` stamps, where the tape holds its draw.
pub open spec fn chosen(tape: Seq<u32>, k: int) -> Option<Pattern> {
    match draw_at(tape, SLOTS_PER_ATTEMPT * k + 2) {
        Some(d) => Some(Pattern::of_kind(scaled(d, KINDS))),
        None => None,
    }
}

/// Whether the coin of attempt `k` for the `j`th cell of a random block
/// says that the cell is set.
pub open spec fn coin_sets(tape: Seq<u32>, k: int, j: int) -> bool {
    match draw_at(tape, SLOTS_PER_ATTEMPT * k + 3 + j) {
        Some(c) => is_above(c, 1, 2),
        None => false,
    }
}

/// Whether the `j`th cell of the pattern of attempt `k` is set and is cell
/// `i` of the grid.  The cell lies at its offset from the anchor in the
/// row-major order of the grid.
pub open spec fn lands(width: u32, height: u32, tape: Seq<u32>, k: int, j: int, i: int) -> bool {
    match (anchor(width, height, tape, k), chosen(tape, k)) {
        (Some((x, y)), Some(p)) => {
            &&& 0 <= j < p.offsets().len()
            &&& p.is_random() ==> coin_sets(tape, k, j)
            &&& i == (y + p.offsets()[j].0) * width + x + p.offsets()[j].1
        },
        _ => false,
    }
}

/// Whether one of the first `n` cells of the pattern of attempt `k` sets cell `i`.
pub open spec fn lands_within(width: u32, height: u32, tape: Seq<u32>, k: int, n: int, i: int) -> bool {
    exists|j: int| 0 <= j < n && #[trigger] lands(width, height, tape, k, j, i)
}

/// Whether attempt `k` sets cell `i`.
pub open spec fn attempt_sets(width: u32, height: u32, tape: Seq<u32>, k: int, i: int) -> bool {
    exists|j: int| #[trigger] lands(width, height, tape, k, j, i)
}

/// Whether one of the first `n` attempts sets cell `i`.
pub open spec fn stamped(width: u32, height: u32, tape: Seq<u32>, n: int, i: int) -> bool {
    exists|k: int| 0 <= k < n && #[trigger] attempt_sets(width, height, tape, k, i)
}

/// Whether the noise sets cell `i`: one chance in four.
pub open spec fn noise_sets(tape: Seq<u32>, i: int) -> bool {
    match draw_at(tape, NOISE_BASE + i) {
        Some(d) => is_below(d, 1, 4),
        None => false,
    }
}

/// Cell `i` of a fresh universe: alive where an attempt or the noise set it.
pub open spec fn seeded_cell(width: u32, height: u32, tape: Seq<u32>, i: int) -> Cell {
    Cell::lit(stamped(width, height, tape, ATTEMPTS as int, i) || noise_sets(tape, i))
}

/// The cells of a fresh universe.
pub open spec fn seeded(width: u32, height: u32, tape: Seq<u32>) -> Seq<Cell> {
    Seq::new((width * height) as nat, |i: int| seeded_cell(width, height, tape, i))
}

/// A pattern whose anchor leaves the margin free stays within the cells.
pub proof fn lemma_lands_in_bounds(width: u32, height: u32, tape: Seq<u32>, k: int, j: int, i: int)
    requires
        lands(width, height, tape, k, j, i),
    ensures
        0 <= i < width * height,
{
    let (x, y) = anchor(width, height, tape, k)->Some_0;
    let p = chosen(tape, k)->Some_0;
    p.lemma_offsets_bounded(j);
    let dr = p.offsets()[j].0 as int;
    let dc = p.offsets()[j].1 as int;
    crate::draws::lemma_scaled_in_range(tape[SLOTS_PER_ATTEMPT * k], width);
    crate::draws::lemma_scaled_in_range(tape[SLOTS_PER_ATTEMPT * k + 1], height);
    assert(0 <= (y + dr) * width && (y + dr) * width + 3 * width <= height * width) by (nonlinear_arith)
        requires
            0 <= y + dr,
            y + dr + 3 <= height,
            0 <= width,
    ;
}

/// Tells how many leading slots of the tape seeding reads.
pub fn slots_for_seed(width: u32, height: u32) -> (n: u64)
    ensures
        n == seed_slots(width, height),
{
    proof {
        crate::draws::lemma_product_fits(width, height);
    }
    NOISE_BASE + (width as u64) * (height as u64)
}

/// Carries out attempt `k` on the cells: sets what the attempt sets and
/// leaves every other cell as it was.
pub fn stamp_attempt(cells: &mut Vec<Cell>, width: u32, height: u32, tape: &[u32], k: u64)
    requires
        old(cells)@.len() == width * height,
        width * height <= u32::MAX,
        k < ATTEMPTS,
    ensures
        final(cells)@.len() == old(cells)@.len(),
        forall|i: int|
            0 <= i < old(cells)@.len() ==> #[trigger] final(cells)@[i] == Cell::lit(
                old(cells)@[i] == Cell::Alive || attempt_sets(width, height, tape@, k as int, i),
            ),
{
    let base: u64 = SLOTS_PER_ATTEMPT * k;
    let dx = draw(tape, base);
    let dy = draw(tape, base + 1);
    if dx.is_none() || dy.is_none() {
        return ;
    }
    let x = scale(dx.unwrap(), width);
    let y = scale(dy.unwrap(), height);
    if x as u64 + MARGIN >= width as u64 || y as u64 + MARGIN >= height as u64 {
        return ;
    }
    let kind = draw(tape, base + 2);
    if kind.is_none() {
        return ;
    }
    let pattern = Pattern::from_kind(scale(kind.unwrap(), KINDS));
    let random = pattern.random();
    let offsets = pattern.cells();
    let mut j: usize = 0;
    while j < offsets.len()
        invariant
            cells@.len() == old(cells)@.len(),
            old(cells)@.len() == width * height,
            width * height <= u32::MAX,
            k < ATTEMPTS,
            base == SLOTS_PER_ATTEMPT * k,
            anchor(width, height, tape@, k as int) == Some((x as int, y as int)),
            chosen(tape@, k as int) == Some(pattern),
            random == pattern.is_random(),
            offsets@ == pattern.offsets(),
            j <= offsets.len(),
            forall|i: int|
                0 <= i < cells@.len() ==> #[trigger] cells@[i] == Cell::lit(
                    old(cells)@[i] == Cell::Alive || lands_within(width, height, tape@, k as int, j as int, i),
                ),
        decreases offsets.len() - j,
    {
        let (dr, dc) = offsets[j];
        proof {
            pattern.lemma_offsets_bounded(j as int);
        }
        let set = if random {
            match draw(tape, base + 3 + j as u64) {
                Some(coin) => above(coin, 1, 2),
                None => false,
            }
        } else {
            true
        };
        let ghost target = (y + dr) * width + x + dc;
        let ghost earlier = cells@;
        if set {
            proof {
                assert(lands(width, height, tape@, k as int, j as int, target));
                lemma_lands_in_bounds(width, height, tape@, k as int, j as int, target);
                assert(0 <= (y + dr) * width) by (nonlinear_arith)
                    requires
                        0 <= y + dr,
                        0 <= width,
                ;
            }
            let idx = ((y + dr) * width + x + dc) as usize;
            cells[idx] = Cell::Alive;
        }
        assert forall|i: int| 0 <= i < cells@.len() implies #[trigger] cells@[i] == Cell::lit(
            old(cells)@[i] == Cell::Alive || lands_within(width, height, tape@, k as int, j + 1, i),
        ) by {
            assert(earlier[i] == Cell::lit(
                old(cells)@[i] == Cell::Alive || lands_within(width, height, tape@, k as int, j as int, i),
            ));
            if lands(width, height, tape@, k as int, j as int, i) {
                assert(set && i == target);
            }
            if lands_within(width, height, tape@, k as int, j as int, i) {
                let w = choose|w: int| 0 <= w < j && lands(width, height, tape@, k as int, w, i);
                assert(lands(width, height, tape@, k as int, w, i));
            }
            if lands_within(width, height, tape@, k as int, j + 1, i) {
                let w = choose|w: int| 0 <= w < j + 1 && lands(width, height, tape@, k as int, w, i);
                if w < j {
                    assert(lands_within(width, height, tape@, k as int, j as int, i));
                }
            }
        }
        j = j + 1;
    }
    assert forall|i: int| 0 <= i < cells@.len() implies lands_within(
        width,
        height,
        tape@,
        k as int,
        j as int,
        i,
    ) == attempt_sets(width, height, tape@, k as int, i) by {
        if attempt_sets(width, height, tape@, k as int, i) {
            let w = choose|w: int| lands(width, height, tape@, k as int, w, i);
            assert(0 <= w < j && lands(width, height, tape@, k as int, w, i));
        }
    }
}

/// Computes the cells of a fresh universe from the tape.
pub fn seed(width: u32, height: u32, tape: &[u32]) -> (cells: Vec<Cell>)
    requires
        width * height <= u32::MAX,
    ensures
        cells@ == seeded(width, height, tape@),
{
    proof {
        crate::draws::lemma_product_fits(width, height);
    }
    let size: u32 = width * height;
    let mut cells: Vec<Cell> = Vec::with_capacity(size as usize);
    let mut n: u32 = 0;
    while n < size
        invariant
            n <= size,
            cells@.len() == n,
            forall|i: int| 0 <= i < n ==> cells@[i] == Cell::Dead,
        decreases size - n,
    {
        cells.push(Cell::Dead);
        n = n + 1;
    }
    let mut k: u64 = 0;
    while k < ATTEMPTS
        invariant
            k <= ATTEMPTS,
            size == width * height,
            width * height <= u32::MAX,
            cells@.len() == size,
            forall|i: int|
                0 <= i < size ==> #[trigger] cells@[i] == Cell::lit(stamped(width, height, tape@, k as int, i)),
        decreases ATTEMPTS - k,
    {
        let ghost earlier = cells@;
        stamp_attempt(&mut cells, width, height, tape, k);
        assert forall|i: int| 0 <= i < size implies #[trigger] cells@[i] == Cell::lit(
            stamped(width, height, tape@, k + 1, i),
        ) by {
            assert(earlier[i] == Cell::lit(stamped(width, height, tape@, k as int, i)));
            if stamped(width, height, tape@, k as int, i) {
                let w = choose|w: int| 0 <= w < k && attempt_sets(width, height, tape@, w, i);
                assert(attempt_sets(width, height, tape@, w, i));
            }
            if attempt_sets(width, height, tape@, k as int, i) {
                assert(stamped(width, height, tape@, k + 1, i));
            }
            if stamped(width, height, tape@, k + 1, i) {
                let w = choose|w: int| 0 <= w < k + 1 && attempt_sets(width, height, tape@, w, i);
                if w < k {
                    assert(stamped(width, height, tape@, k as int, i));
                }
            }
        }
        k = k + 1;
    }
    let mut m: u32 = 0;
    while m < size
        invariant
            m <= size,
            size == width * height,
            cells@.len() == size,
            forall|i: int| 0 <= i < m ==> #[trigger] cells@[i] == seeded_cell(width, height, tape@, i),
            forall|i: int|
                m <= i < size ==> #[trigger] cells@[i] == Cell::lit(
                    stamped(width, height, tape@, ATTEMPTS as int, i),
                ),
        decreases size - m,
    {
        let hit = match draw(tape, NOISE_BASE + m as u64) {
            Some(d) => below(d, 1, 4),
            None => false,
        };
        if hit {
            cells[m as usize] = Cell::Alive;
        }
        m = m + 1;
    }
    assert(cells@ =~= seeded(width, height, tape@));
    cells
}

} // verus!
