//! Random draws in fixed point, and the tape that carries them.
//!
//! A draw is a `u32` that stands for the fraction `d / 2^32` of the unit
//! interval, so every value of the type is a valid draw in `[0, 1)`.  Draws
//! reach the engine on a tape: a slice in which each decision of the engine
//! has a slot of its own.  A slot beyond the end of the tape holds no draw,
//! and the event that it would have decided does not take place.

use vstd::prelude::*;

verus! {

/// The denominator of a draw: `2^32`.
pub const UNIT: u64 = 4294967296;

/// The draw in `slot` of `tape`, if the tape reaches that far.
pub open spec fn draw_at(tape: Seq<u32>, slot: int) -> Option<u32> {
    if 0 <= slot < tape.len() {
        Some(tape[slot])
    } else {
        None
    }
}

/// The draw `d` scaled to the range `0..n`: the integer part of `d / 2^32 * n`.
pub open spec fn scaled(d: u32, n: u32) -> int {
    (d * n) / (UNIT as int)
}

/// Whether the fraction that `d` stands for lies strictly below `numer / denom`.
pub open spec fn is_below(d: u32, numer: u32, denom: u32) -> bool {
    d * denom < numer * UNIT
}

/// Whether the fraction that `d` stands for lies strictly above `numer / denom`.
pub open spec fn is_above(d: u32, numer: u32, denom: u32) -> bool {
    d * denom > numer * UNIT
}

/// The product of two 32-bit values fits in 64 bits.
pub proof fn lemma_product_fits(a: u32, b: u32)
    ensures
        0 <= a * b <= 0xffff_fffe_0000_0001,
{
    assert(0 <= a * b <= 0xffff_ffff * 0xffff_ffff) by (nonlinear_arith)
        requires
            0 <= a <= 0xffff_ffff,
            0 <= b <= 0xffff_ffff,
    ;
}

/// A scaled draw is a valid index into a range of `n` items.
pub proof fn lemma_scaled_in_range(d: u32, n: u32)
    ensures
        0 <= scaled(d, n),
        n > 0 ==> scaled(d, n) < n,
        n == 0 ==> scaled(d, n) == 0,
{
    let unit = UNIT as int;
    assert(0 <= d * n) by (nonlinear_arith);
    assert(d * n < unit * n || n == 0) by (nonlinear_arith)
        requires
            0 <= d < unit,
            0 <= n,
    ;
    if n > 0 {
        assert((d * n) / unit < n) by (nonlinear_arith)
            requires
                0 <= d * n < unit * n,
                unit > 0,
        ;
    } else {
        assert(d * n == 0) by (nonlinear_arith)
            requires
                n == 0,
        ;
    }
}

/// Reads the draw in `slot`, or `None` past the end of the tape.
pub fn draw(tape: &[u32], slot: u64) -> (d: Option<u32>)
    ensures
        d == draw_at(tape@, slot as int),
{
    if slot < tape.len() as u64 {
        Some(tape[slot as usize])
    } else {
        None
    }
}

/// Scales the draw `d` to the range `0..n`.
pub fn scale(d: u32, n: u32) -> (k: u32)
    ensures
        k == scaled(d, n),
        n > 0 ==> k < n,
{
    proof {
        lemma_product_fits(d, n);
        lemma_scaled_in_range(d, n);
    }
    let product: u64 = (d as u64) * (n as u64);
    (product / UNIT) as u32
}

/// Tests whether the draw lies strictly below `numer / denom`.
pub fn below(d: u32, numer: u32, denom: u32) -> (b: bool)
    ensures
        b == is_below(d, numer, denom),
{
    proof {
        lemma_product_fits(d, denom);
    }
    (d as u64) * (denom as u64) < (numer as u64) * UNIT
}

/// Tests whether the draw lies strictly above `numer / denom`.
pub fn above(d: u32, numer: u32, denom: u32) -> (b: bool)
    ensures
        b == is_above(d, numer, denom),
{
    proof {
        lemma_product_fits(d, denom);
    }
    (d as u64) * (denom as u64) > (numer as u64) * UNIT
}

} // verus!
