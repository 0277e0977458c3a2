//! What holds of every universe, whatever its cells and whatever the tape.

use vstd::prelude::*;
use crate::cell::Cell;
use crate::draws::draw_at;
use crate::model::Grid;
use crate::seeding::{
    attempt_sets, lands, seed_slots, seeded, seeded_cell, stamped, ATTEMPTS, NOISE_BASE, SLOTS_PER_ATTEMPT,
};
use crate::universe::Universe;

verus! {

/// A fresh grid has one cell for each position, whatever the tape holds.
pub proof fn lemma_seeded_shape(width: u32, height: u32, tape: Seq<u32>)
    ensures
        seeded(width, height, tape).len() == width * height,
{
    assert(0 <= width * height) by (nonlinear_arith);
}

/// A tick keeps the dimensions, and with them the number of cells.
pub proof fn lemma_tick_keeps_shape(grid: Grid, tape: Seq<u32>)
    requires
        grid.well_formed(),
    ensures
        grid.ticked(tape).well_formed(),
        grid.ticked(tape).width == grid.width,
        grid.ticked(tape).height == grid.height,
        grid.ticked(tape).cells.len() == grid.width * grid.height,
{
}

/// The next generation is a function of the universe and the tape: two
/// universes in the same state that are given the same tape end in the same
/// state.
pub proof fn lemma_tick_reproducible(a: Universe, b: Universe, tape: Seq<u32>)
    requires
        a@ == b@,
    ensures
        a@.ticked(tape) == b@.ticked(tape),
{
}

/// A tick reads only the leading slots that `tick_slots` counts: tapes that
/// agree on those slots give the same next generation.
pub proof fn lemma_tick_reads_own_slots(grid: Grid, first: Seq<u32>, second: Seq<u32>)
    requires
        forall|slot: int| 0 <= slot < grid.tick_slots() ==> draw_at(first, slot) == draw_at(second, slot),
    ensures
        grid.ticked(first) == grid.ticked(second),
{
    assert(grid.ticked(first).cells =~= grid.ticked(second).cells) by {
        assert forall|i: int| 0 <= i < grid.cells.len() implies grid.next_cell(first, i) == grid.next_cell(
            second,
            i,
        ) by {
            if grid.chaos_due() {
                assert(draw_at(first, 2 * i) == draw_at(second, 2 * i));
                assert(draw_at(first, 2 * i + 1) == draw_at(second, 2 * i + 1));
            }
        }
    }
}

/// Seeding reads only the leading slots that `seed_slots` counts: tapes
/// that agree on those slots give the same fresh grid.
pub proof fn lemma_seed_reads_own_slots(width: u32, height: u32, first: Seq<u32>, second: Seq<u32>)
    requires
        forall|slot: int|
            0 <= slot < seed_slots(width, height) ==> draw_at(first, slot) == draw_at(second, slot),
    ensures
        seeded(width, height, first) == seeded(width, height, second),
{
    assert(0 <= width * height) by (nonlinear_arith);
    assert forall|i: int| 0 <= i < width * height implies seeded_cell(width, height, first, i) == seeded_cell(
        width,
        height,
        second,
        i,
    ) by {
        if stamped(width, height, first, ATTEMPTS as int, i) {
            lemma_stamped_carries_over(width, height, first, second, i);
        }
        if stamped(width, height, second, ATTEMPTS as int, i) {
            lemma_stamped_carries_over(width, height, second, first, i);
        }
        assert(draw_at(first, NOISE_BASE + i) == draw_at(second, NOISE_BASE + i));
    }
    assert(seeded(width, height, first) =~= seeded(width, height, second));
}

/// What an attempt sets on one tape it sets on every tape that agrees with
/// it on the slots of the attempts.
pub proof fn lemma_stamped_carries_over(width: u32, height: u32, first: Seq<u32>, second: Seq<u32>, i: int)
    requires
        forall|slot: int| 0 <= slot < NOISE_BASE ==> draw_at(first, slot) == draw_at(second, slot),
        stamped(width, height, first, ATTEMPTS as int, i),
    ensures
        stamped(width, height, second, ATTEMPTS as int, i),
{
    let k = choose|k: int| 0 <= k < ATTEMPTS && attempt_sets(width, height, first, k, i);
    let j = choose|j: int| lands(width, height, first, k, j, i);
    let base = SLOTS_PER_ATTEMPT * k;
    assert(draw_at(first, base) == draw_at(second, base));
    assert(draw_at(first, base + 1) == draw_at(second, base + 1));
    assert(draw_at(first, base + 2) == draw_at(second, base + 2));
    let pattern = crate::seeding::chosen(first, k)->Some_0;
    pattern.lemma_offsets_bounded(j);
    assert(draw_at(first, base + 3 + j) == draw_at(second, base + 3 + j));
    assert(lands(width, height, second, k, j, i));
    assert(attempt_sets(width, height, second, k, i));
}

/// The grid wraps round its corners: where the cell in the last row and
/// last column is alive, the cell in the first row and first column counts
/// a live neighbor.
pub proof fn lemma_corner_is_adjacent(grid: Grid)
    requires
        grid.well_formed(),
        grid.at(grid.height - 1, grid.width - 1) == Cell::Alive,
    ensures
        grid.live_neighbors(0, 0) >= 1,
        grid.height > 1 || grid.width > 1 ==> grid.neighbor_weight(0, 0, grid.height - 1, grid.width - 1)
            == 1,
{
    let h = grid.height as int;
    let w = grid.width as int;
    vstd::arithmetic::div_mod::lemma_small_mod((h - 1) as nat, h as nat);
    vstd::arithmetic::div_mod::lemma_small_mod((w - 1) as nat, w as nat);
    if h == 1 && w == 1 {
        assert(1int % 1 == 0);
        assert(grid.neighbor_weight(0, 0, 1, 1) == 1);
    } else {
        assert(grid.neighbor_weight(0, 0, h - 1, w - 1) == 1);
    }
}

/// Nothing is born in an empty grid: off the period, a grid without a live
/// cell has none in the next generation either, whatever the tape holds.
pub proof fn lemma_dead_grid_is_stable(grid: Grid, tape: Seq<u32>)
    requires
        grid.well_formed(),
        !grid.chaos_due(),
        forall|i: int| 0 <= i < grid.cells.len() ==> grid.cells[i] == Cell::Dead,
    ensures
        grid.ticked(tape).cells == grid.cells,
{
    assert forall|i: int| 0 <= i < grid.cells.len() implies grid.next_cell(tape, i) == Cell::Dead by {
        grid.lemma_position_in_bounds(i);
        lemma_dead_grid_has_no_neighbors(grid, i / (grid.width as int), i % (grid.width as int));
    }
    assert(grid.ticked(tape).cells =~= grid.cells);
}

/// In a grid without a live cell no position has a live neighbor.
pub proof fn lemma_dead_grid_has_no_neighbors(grid: Grid, row: int, col: int)
    requires
        grid.well_formed(),
        0 <= row < grid.height,
        0 <= col < grid.width,
        forall|i: int| 0 <= i < grid.cells.len() ==> grid.cells[i] == Cell::Dead,
    ensures
        grid.live_neighbors(row, col) == 0,
{
    let h = grid.height as int;
    let w = grid.width as int;
    assert forall|dr: int, dc: int| 0 <= dr && 0 <= dc implies #[trigger] grid.neighbor_weight(
        row,
        col,
        dr,
        dc,
    ) == 0 by {
        vstd::arithmetic::div_mod::lemma_mod_bound(row + dr, h);
        vstd::arithmetic::div_mod::lemma_mod_bound(col + dc, w);
        grid.lemma_index_in_bounds((row + dr) % h, (col + dc) % w);
    }
}

/// The tape can change a cell only on the period: on every other
/// generation the classical rule alone gives the next state of every cell,
/// whatever the tape holds.
pub proof fn lemma_tape_ignored_off_period(grid: Grid, tape: Seq<u32>)
    requires
        !grid.chaos_due(),
    ensures
        grid.ticked(tape).cells == Seq::new(grid.cells.len(), |i: int| grid.ruled_cell(i)),
        grid.ticked(tape) == grid.ticked(Seq::empty()),
{
    assert(grid.ticked(tape).cells =~= Seq::new(grid.cells.len(), |i: int| grid.ruled_cell(i)));
    assert(grid.ticked(tape).cells =~= grid.ticked(Seq::empty()).cells);
}

/// A cell departs from the classical rule only where the generation is on
/// the period and the tape forces the cell; and there it takes the forced
/// state.
pub proof fn lemma_override_needs_period(grid: Grid, tape: Seq<u32>, i: int)
    ensures
        grid.next_cell(tape, i) != grid.ruled_cell(i) ==> grid.chaos_due() && Grid::forced_cell(tape, i)
            == Some(grid.next_cell(tape, i)),
        grid.chaos_due() && Grid::forced_cell(tape, i) is Some ==> Grid::forced_cell(tape, i) == Some(
            grid.next_cell(tape, i),
        ),
{
}

/// Each tick adds one to the generation counter.
pub proof fn lemma_tick_counts(grid: Grid, tape: Seq<u32>)
    ensures
        grid.ticked(tape).generation == grid.generation + 1,
{
}

} // verus!
