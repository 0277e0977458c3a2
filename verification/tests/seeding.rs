use game_of_life::cell::Cell;
use game_of_life::draws::{above, below, draw, scale};
use game_of_life::pattern::Pattern;
use game_of_life::seeding::{seed, slots_for_seed, stamp_attempt};
use game_of_life::universe::Universe;

/// The smallest draw that `scale` takes to `k` in a range of `n`.
fn draw_for(k: u32, n: u32) -> u32 {
    let unit: u64 = 1 << 32;
    let d = ((k as u64) * unit + (n as u64) - 1) / (n as u64);
    assert_eq!(scale(d as u32, n), k);
    d as u32
}

/// A tape on which attempt `attempt` stamps `kind` at column `x` and row `y`.
fn tape_with(attempt: usize, width: u32, height: u32, x: u32, y: u32, kind: u32) -> Vec<u32> {
    let mut tape = vec![u32::MAX; 19 * attempt];
    tape.push(draw_for(x, width));
    tape.push(draw_for(y, height));
    tape.push(draw_for(kind, 6));
    tape
}

fn alive_positions(universe: &Universe) -> Vec<(u32, u32)> {
    let width = universe.width();
    let mut found = Vec::new();
    for (i, cell) in universe.cells().iter().enumerate() {
        if *cell == Cell::Alive {
            found.push((i as u32 / width, i as u32 % width));
        }
    }
    found
}

#[test]
fn scale_is_exact() {
    assert_eq!(scale(0, 10), 0);
    assert_eq!(scale(0x8000_0000, 10), 5);
    assert_eq!(scale(0x7fff_ffff, 10), 4);
    assert_eq!(scale(u32::MAX, 10), 9);
    assert_eq!(scale(u32::MAX, u32::MAX), u32::MAX - 1);
    assert_eq!(scale(u32::MAX, 1), 0);
    assert_eq!(scale(12345, 0), 0);
    assert_eq!(scale(0x2aaa_aaab, 6), 1);
    assert_eq!(scale(0x2aaa_aaaa, 6), 0);
}

#[test]
fn fractions_are_exact() {
    assert!(below(0x3fff_ffff, 1, 4));
    assert!(!below(0x4000_0000, 1, 4));
    assert!(!above(0x8000_0000, 1, 2));
    assert!(above(0x8000_0001, 1, 2));
    assert!(below(0, 1, 100));
    assert!(!below(0, 0, 100));
    assert!(below(u32::MAX, 1, 1));
}

#[test]
fn tape_ends_where_it_ends() {
    let tape = [7u32, 8, 9];
    assert_eq!(draw(&tape, 0), Some(7));
    assert_eq!(draw(&tape, 2), Some(9));
    assert_eq!(draw(&tape, 3), None);
    assert_eq!(draw(&tape, u64::MAX), None);
}

#[test]
fn kinds_select_patterns() {
    assert_eq!(Pattern::from_kind(0), Pattern::Glider);
    assert_eq!(Pattern::from_kind(1), Pattern::Spaceship);
    assert_eq!(Pattern::from_kind(2), Pattern::Diehard);
    assert_eq!(Pattern::from_kind(3), Pattern::RPentomino);
    assert_eq!(Pattern::from_kind(4), Pattern::RandomBlock);
    assert_eq!(Pattern::from_kind(5), Pattern::SolidBlock);
    assert_eq!(Pattern::from_kind(77), Pattern::SolidBlock);
    assert!(Pattern::RandomBlock.random());
    assert!(!Pattern::SolidBlock.random());
}

#[test]
fn pattern_offsets() {
    assert_eq!(Pattern::Glider.cells(), vec![(0, 1), (1, 2), (2, 0), (2, 1), (2, 2)]);
    assert_eq!(
        Pattern::Spaceship.cells(),
        vec![(0, 1), (0, 2), (0, 3), (0, 4), (1, 0), (1, 4), (2, 4), (3, 0), (3, 3)]
    );
    assert_eq!(Pattern::Diehard.cells(), vec![(0, 6), (1, 0), (1, 1), (2, 1), (2, 5), (2, 6), (2, 7)]);
    assert_eq!(Pattern::RPentomino.cells(), vec![(0, 1), (0, 2), (1, 0), (1, 1), (2, 1)]);
    assert_eq!(
        Pattern::SolidBlock.cells(),
        vec![(0, 0), (0, 1), (0, 2), (1, 0), (1, 1), (1, 2), (2, 0), (2, 1), (2, 2)]
    );
    let block = Pattern::RandomBlock.cells();
    assert_eq!(block.len(), 16);
    assert_eq!(block[0], (0, 0));
    assert_eq!(block[5], (1, 1));
    assert_eq!(block[15], (3, 3));
}

#[test]
fn empty_tape_gives_a_dead_grid() {
    let universe = Universe::new(30, 20, &[]);
    assert_eq!(universe.width(), 30);
    assert_eq!(universe.height(), 20);
    assert_eq!(universe.generation(), 0);
    assert_eq!(universe.cells().len(), 600);
    assert!(universe.cells().iter().all(|c| *c == Cell::Dead));
}

#[test]
fn glider_is_stamped_at_its_anchor() {
    let universe = Universe::new(20, 20, &tape_with(0, 20, 20, 3, 4, 0));
    assert_eq!(alive_positions(&universe), vec![(4, 4), (5, 5), (6, 3), (6, 4), (6, 5)]);
}

#[test]
fn spaceship_is_stamped_at_its_anchor() {
    let universe = Universe::new(20, 20, &tape_with(0, 20, 20, 0, 0, 1));
    assert_eq!(
        alive_positions(&universe),
        vec![(0, 1), (0, 2), (0, 3), (0, 4), (1, 0), (1, 4), (2, 4), (3, 0), (3, 3)]
    );
}

#[test]
fn diehard_is_stamped_at_its_anchor() {
    let universe = Universe::new(20, 20, &tape_with(0, 20, 20, 2, 10, 2));
    assert_eq!(
        alive_positions(&universe),
        vec![(10, 8), (11, 2), (11, 3), (12, 3), (12, 7), (12, 8), (12, 9)]
    );
}

#[test]
fn diehard_runs_on_into_the_next_row() {
    // With the anchor in column 6 of 12 the offsets 6 and 7 pass the last column.
    let universe = Universe::new(12, 10, &tape_with(0, 12, 10, 6, 1, 2));
    assert_eq!(
        alive_positions(&universe),
        vec![(2, 0), (2, 6), (2, 7), (3, 7), (3, 11), (4, 0), (4, 1)]
    );
}

#[test]
fn r_pentomino_is_stamped_at_its_anchor() {
    let universe = Universe::new(9, 30, &tape_with(0, 9, 30, 3, 24, 3));
    assert_eq!(alive_positions(&universe), vec![(24, 4), (24, 5), (25, 3), (25, 4), (26, 4)]);
}

#[test]
fn solid_block_is_stamped_at_its_anchor() {
    let universe = Universe::new(10, 10, &tape_with(0, 10, 10, 4, 4, 5));
    assert_eq!(
        alive_positions(&universe),
        vec![(4, 4), (4, 5), (4, 6), (5, 4), (5, 5), (5, 6), (6, 4), (6, 5), (6, 6)]
    );
}

#[test]
fn random_block_follows_its_coins() {
    let mut tape = tape_with(0, 10, 10, 1, 2, 4);
    let heads = 0x8000_0001u32;
    let tails = 0x8000_0000u32;
    // Rows of the block, left to right: only coins above one half set a cell.
    tape.extend_from_slice(&[heads, tails, tails, heads]);
    tape.extend_from_slice(&[tails, tails, tails, tails]);
    tape.extend_from_slice(&[u32::MAX, 0, u32::MAX, 0]);
    tape.extend_from_slice(&[tails, heads]);
    let universe = Universe::new(10, 10, &tape);
    assert_eq!(alive_positions(&universe), vec![(2, 1), (2, 4), (4, 1), (4, 3), (5, 2)]);
}

#[test]
fn anchor_needs_its_margin() {
    // Column 4 of 10 leaves the margin free; column 5 does not.
    let fits = Universe::new(10, 10, &tape_with(0, 10, 10, 4, 4, 5));
    assert_eq!(alive_positions(&fits).len(), 9);
    let wide = Universe::new(10, 10, &tape_with(0, 10, 10, 5, 4, 5));
    assert!(alive_positions(&wide).is_empty());
    let tall = Universe::new(10, 10, &tape_with(0, 10, 10, 4, 5, 5));
    assert!(alive_positions(&tall).is_empty());
    let small = Universe::new(5, 5, &tape_with(0, 5, 5, 0, 0, 5));
    assert!(alive_positions(&small).is_empty());
}

#[test]
fn attempt_without_its_kind_does_nothing() {
    let mut tape = tape_with(0, 10, 10, 4, 4, 5);
    tape.truncate(2);
    let universe = Universe::new(10, 10, &tape);
    assert!(alive_positions(&universe).is_empty());
}

#[test]
fn every_attempt_has_its_own_slots() {
    let mut tape = tape_with(0, 20, 20, 0, 0, 5);
    tape.resize(19 * 99, u32::MAX);
    tape.extend_from_slice(&tape_with(0, 20, 20, 10, 10, 3));
    let universe = Universe::new(20, 20, &tape);
    assert_eq!(
        alive_positions(&universe),
        vec![
            (0, 0), (0, 1), (0, 2), (1, 0), (1, 1), (1, 2), (2, 0), (2, 1), (2, 2),
            (10, 11), (10, 12), (11, 10), (11, 11), (12, 11),
        ]
    );
    // A hundred attempts and no more: the slots after them are noise.
    let mut late = vec![u32::MAX; 1900];
    late.extend_from_slice(&tape_with(0, 20, 20, 10, 10, 3));
    let universe = Universe::new(20, 20, &late);
    assert!(alive_positions(&universe).is_empty());
}

#[test]
fn noise_sets_one_cell_in_four() {
    let mut tape = vec![u32::MAX; 1900];
    tape.extend_from_slice(&[0x3fff_ffff, 0x4000_0000, 0, u32::MAX, 0x4000_0001, 1]);
    let universe = Universe::new(3, 3, &tape);
    assert_eq!(alive_positions(&universe), vec![(0, 0), (0, 2), (1, 2)]);
}

#[test]
fn noise_never_clears_a_stamped_cell() {
    let mut tape = tape_with(0, 10, 10, 4, 4, 5);
    tape.resize(1900, u32::MAX);
    tape.resize(2000, u32::MAX);
    tape[1900] = 0;
    let universe = Universe::new(10, 10, &tape);
    assert_eq!(
        alive_positions(&universe),
        vec![(0, 0), (4, 4), (4, 5), (4, 6), (5, 4), (5, 5), (5, 6), (6, 4), (6, 5), (6, 6)]
    );
}

#[test]
fn stamping_keeps_what_was_alive() {
    let mut cells = vec![Cell::Dead; 100];
    cells[99] = Cell::Alive;
    cells[44] = Cell::Alive;
    let mut tape = vec![u32::MAX; 19 * 7];
    tape.extend_from_slice(&tape_with(0, 10, 10, 4, 4, 0));
    stamp_attempt(&mut cells, 10, 10, &tape, 7);
    let alive: Vec<usize> = (0..100).filter(|i| cells[*i] == Cell::Alive).collect();
    assert_eq!(alive, vec![44, 45, 56, 64, 65, 66, 99]);
    let before = cells.clone();
    stamp_attempt(&mut cells, 10, 10, &tape, 3);
    assert_eq!(cells, before);
}

#[test]
fn seed_fills_the_buffer() {
    for (width, height) in [(1u32, 1u32), (6, 6), (64, 48), (7, 100)] {
        let tape: Vec<u32> = (0..3000u32).map(|n| n.wrapping_mul(2246822519)).collect();
        let cells = seed(width, height, &tape);
        assert_eq!(cells.len(), (width * height) as usize);
        let mut universe = Universe::new(width, height, &tape);
        assert_eq!(universe.cells(), &cells[..]);
        for _ in 0..3 {
            universe.tick(&tape);
            assert_eq!(universe.cells().len(), (width * height) as usize);
        }
    }
}

#[test]
fn seeding_reads_its_own_slots_only() {
    assert_eq!(slots_for_seed(3, 3), 1909);
    assert_eq!(slots_for_seed(64, 64), 5996);
    assert_eq!(slots_for_seed(0, 9), 1900);
    assert_eq!(slots_for_seed(65535, 65537), 1900 + 4294967295);
    let tape: Vec<u32> = (0..1909u32).map(|n| n.wrapping_mul(2246822519)).collect();
    let mut longer = tape.clone();
    longer.extend_from_slice(&[0; 50]);
    assert_eq!(seed(3, 3, &tape), seed(3, 3, &longer));
    assert_eq!(seed(12, 12, &tape[..1900]).len(), 144);
}
