//! Decimal text for whole weights.

use vstd::prelude::*;

verus! {

/// The ASCII decimal digits of a non-negative integer, most significant
/// first, with no leading zeros (a lone `0` for zero).
pub open spec fn dec_of(n: nat) -> Seq<u8>
    decreases n,
{
    if n < 10 {
        seq![(n + 0x30) as u8]
    } else {
        dec_of(n / 10).push(((n % 10) + 0x30) as u8)
    }
}

/// Render a weight as its decimal digits.
pub fn u64_to_dec(n: u64) -> (r: Vec<u8>)
    ensures
        r@ == dec_of(n as nat),
    decreases n,
{
    if n < 10 {
        let mut r: Vec<u8> = Vec::new();
        r.push((n as u8) + 0x30);
        proof {
            assert(r@ =~= dec_of(n as nat));
        }
        r
    } else {
        let mut r = u64_to_dec(n / 10);
        r.push(((n % 10) as u8) + 0x30);
        r
    }
}

} // verus!
