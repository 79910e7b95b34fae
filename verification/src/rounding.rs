//! Snapping raw target weights to plate-friendly values.

use vstd::prelude::*;
use vstd::arithmetic::div_mod::{lemma_fundamental_div_mod, lemma_fundamental_div_mod_converse};

verus! {

/// A one-rep maximum is measured in hundredths of a weight unit.
pub const MAX_SCALE: u64 = 100;

/// A raw (unrounded) target weight is measured in ten-thousandths of a
/// weight unit: a maximum in hundredths times a whole percentage.
pub const RAW_SCALE: u64 = 10000;

/// Ten weight units, in raw measure.
pub const RAW_TEN: u64 = 100000;

/// The plate-friendly value (in whole weight units) that a raw weight
/// (in ten-thousandths of a unit) snaps to: the next-lower multiple of
/// ten plus an adjustment of 0, 3, 5, 8 or 10 picked by half-open bins
/// over the remainder, the whole clamped up to at least 20.
///
/// The bin boundaries are 1.5, 4.0, 6.5 and 9.0 units of remainder
/// (15000, 40000, 65000 and 90000 in raw measure), each boundary value
/// itself falling in the upper bin.
pub open spec fn round_spec(raw: int) -> int {
    let base_tens = raw / (RAW_TEN as int);
    let rem = raw % (RAW_TEN as int);
    let adjustment: int = if rem < 15000 {
        0
    } else if rem < 40000 {
        3
    } else if rem < 65000 {
        5
    } else if rem < 90000 {
        8
    } else {
        10
    };
    let rounded = base_tens * 10 + adjustment;
    if rounded < 20 {
        20
    } else {
        rounded
    }
}

/// Every rounded weight is at least 20, and its offset above the
/// next-lower multiple of ten is 0, 3, 5 or 8 (an adjustment of 10
/// lands exactly on the next multiple of ten).
pub proof fn lemma_round_shape(raw: int)
    requires
        raw >= 0,
    ensures
        round_spec(raw) >= 20,
        round_spec(raw) % 10 == 0 || round_spec(raw) % 10 == 3 || round_spec(raw) % 10 == 5
            || round_spec(raw) % 10 == 8,
{
    let base_tens = raw / (RAW_TEN as int);
    let rem = raw % (RAW_TEN as int);
    let adjustment: int = if rem < 15000 {
        0
    } else if rem < 40000 {
        3
    } else if rem < 65000 {
        5
    } else if rem < 90000 {
        8
    } else {
        10
    };
    lemma_fundamental_div_mod(raw, RAW_TEN as int);
    assert(base_tens >= 0) by (nonlinear_arith)
        requires
            raw >= 0,
            base_tens == raw / 100000,
    ;
    if adjustment == 10 {
        assert((base_tens * 10 + 10) % 10 == 0) by (nonlinear_arith);
    } else {
        assert((base_tens * 10 + adjustment) % 10 == adjustment) by (nonlinear_arith)
            requires
                0 <= adjustment < 10,
                base_tens >= 0,
        ;
    }
}

/// Rounded weights are fixed points: feeding a rounded weight (scaled
/// back to raw measure) through the rounder returns it unchanged.
pub proof fn lemma_round_idempotent(raw: int)
    requires
        raw >= 0,
    ensures
        round_spec(round_spec(raw) * (RAW_SCALE as int)) == round_spec(raw),
{
    lemma_round_shape(raw);
    let w = round_spec(raw);
    let q = w / 10;
    let d = w % 10;
    lemma_fundamental_div_mod(w, 10);
    assert(w * 10000 == q * 100000 + d * 10000) by (nonlinear_arith)
        requires
            w == 10 * q + d,
    ;
    lemma_fundamental_div_mod_converse(w * 10000, 100000, q, d * 10000);
    assert((w * 10000) / 100000 == q);
    assert((w * 10000) % 100000 == d * 10000);
    assert(q * 10 + d == w);
}

/// Snap a raw target weight (ten-thousandths of a unit) to the nearest
/// plate-friendly whole number of units.
pub fn round_to_pattern(raw: u64) -> (w: u64)
    ensures
        w == round_spec(raw as int),
        w >= 20,
        w % 10 == 0 || w % 10 == 3 || w % 10 == 5 || w % 10 == 8,
{
    let base_tens: u64 = raw / RAW_TEN;
    let rem: u64 = raw % RAW_TEN;
    let adjustment: u64 = if rem < 15000 {
        0
    } else if rem < 40000 {
        3
    } else if rem < 65000 {
        5
    } else if rem < 90000 {
        8
    } else {
        10
    };
    proof {
        lemma_round_shape(raw as int);
        assert(base_tens <= u64::MAX / RAW_TEN) by (nonlinear_arith)
            requires
                base_tens as int == raw as int / (RAW_TEN as int),
                raw <= u64::MAX,
                RAW_TEN == 100000,
        ;
    }
    let rounded: u64 = base_tens * 10 + adjustment;
    if rounded < 20 {
        20
    } else {
        rounded
    }
}

} // verus!
