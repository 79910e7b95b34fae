//! Reading a one-rep maximum from decimal text.

use vstd::prelude::*;
use vstd::string::{StrSliceExecFns, StringSliceAdditionalSpecFns};
use crate::rounding::MAX_SCALE;

verus! {

/// An ASCII decimal digit.
pub open spec fn is_digit(b: u8) -> bool {
    48 <= b <= 57
}

pub open spec fn all_digits(s: Seq<u8>) -> bool {
    forall|i: int| 0 <= i < s.len() ==> is_digit(#[trigger] s[i])
}

/// The value of a run of decimal digits, most significant first.
pub open spec fn digits_val(s: Seq<u8>) -> int
    decreases s.len(),
{
    if s.len() == 0 {
        0
    } else {
        digits_val(s.drop_last()) * 10 + (s.last() - 48)
    }
}

/// The index of the first dot, or the length when there is none.
pub open spec fn first_dot(s: Seq<u8>) -> int
    decreases s.len(),
{
    if s.len() == 0 {
        0
    } else if s[0] == 46u8 {
        0
    } else {
        1 + first_dot(s.drop_first())
    }
}

/// The digits before the dot (or the whole text without one).
pub open spec fn int_part(s: Seq<u8>) -> Seq<u8> {
    s.take(first_dot(s))
}

/// The digits after the dot, empty without one.
pub open spec fn frac_part(s: Seq<u8>) -> Seq<u8> {
    if first_dot(s) == s.len() {
        Seq::empty()
    } else {
        s.skip(first_dot(s) + 1)
    }
}

/// Text that denotes a maximum: one or more digits, optionally followed
/// by a dot and one or two digits (hundredth precision).
pub open spec fn valid_max_text(s: Seq<u8>) -> bool {
    &&& int_part(s).len() >= 1
    &&& all_digits(int_part(s))
    &&& (first_dot(s) == s.len() || (1 <= frac_part(s).len() <= 2 && all_digits(frac_part(s))))
}

/// The denoted value, in hundredths of a unit.
pub open spec fn text_hundredths(s: Seq<u8>) -> int {
    digits_val(int_part(s)) * 100 + (if frac_part(s).len() == 1 {
        digits_val(frac_part(s)) * 10
    } else {
        digits_val(frac_part(s))
    })
}

proof fn lemma_digits_val_nonneg(s: Seq<u8>)
    requires
        all_digits(s),
    ensures
        digits_val(s) >= 0,
    decreases s.len(),
{
    if s.len() > 0 {
        lemma_digits_val_nonneg(s.drop_last());
    }
}

proof fn lemma_digits_val_prefix(s: Seq<u8>, k: int)
    requires
        all_digits(s),
        0 <= k <= s.len(),
    ensures
        digits_val(s.take(k)) <= digits_val(s),
    decreases s.len(),
{
    if k == s.len() {
        assert(s.take(k) =~= s);
    } else {
        assert(all_digits(s.drop_last()));
        lemma_digits_val_prefix(s.drop_last(), k);
        assert(s.drop_last().take(k) =~= s.take(k));
        lemma_digits_val_nonneg(s.drop_last());
    }
}

proof fn lemma_first_dot_char(s: Seq<u8>, p: int)
    requires
        0 <= p <= s.len(),
        forall|j: int| 0 <= j < p ==> s[j] != 46u8,
        p < s.len() ==> s[p] == 46u8,
    ensures
        first_dot(s) == p,
    decreases s.len(),
{
    if p == 0 {
    } else {
        lemma_first_dot_char(s.drop_first(), p - 1);
    }
}

proof fn lemma_two_digits_bound(s: Seq<u8>)
    requires
        1 <= s.len() <= 2,
        all_digits(s),
    ensures
        0 <= digits_val(s) <= 99,
{
    if s.len() == 1 {
        assert(is_digit(s[0]));
        assert(s.drop_last() =~= Seq::<u8>::empty());
        assert(digits_val(s.drop_last()) == 0);
    } else {
        assert(is_digit(s[0]) && is_digit(s[1]));
        assert(s.drop_last().drop_last() =~= Seq::<u8>::empty());
        assert(s.drop_last().last() == s[0]);
        assert(digits_val(s.drop_last()) == digits_val(s.drop_last().drop_last()) * 10 + (s[0]
            - 48));
        assert(0 <= digits_val(s.drop_last()) <= 9);
    }
}

/// The maximum a parsed one-rep max may hold, in hundredths of a unit,
/// so that every product with a percentage fits the machine word.
pub open spec fn max_cap() -> int {
    u64::MAX as int / MAX_SCALE as int
}

fn scan_digits(b: &Vec<u8>, from: usize, to: usize) -> (r: Option<u64>)
    requires
        from <= to <= b@.len(),
    ensures
        match r {
            Some(v) => {
                &&& all_digits(b@.subrange(from as int, to as int))
                &&& v as int == digits_val(b@.subrange(from as int, to as int))
                &&& v as int <= max_cap()
            },
            None => !(all_digits(b@.subrange(from as int, to as int)) && digits_val(
                b@.subrange(from as int, to as int),
            ) <= max_cap()),
        },
{
    let ghost sub = b@.subrange(from as int, to as int);
    let cap: u64 = u64::MAX / MAX_SCALE;
    let mut acc: u64 = 0;
    let mut i: usize = from;
    while i < to
        invariant
            from <= i <= to <= b@.len(),
            cap as int == max_cap(),
            sub == b@.subrange(from as int, to as int),
            all_digits(b@.subrange(from as int, i as int)),
            acc as int == digits_val(b@.subrange(from as int, i as int)),
            acc <= cap,
        decreases to - i,
    {
        let c = b[i];
        proof {
            assert(sub[i - from] == b@[i as int]);
            assert(b@.subrange(from as int, i as int + 1).drop_last() =~= b@.subrange(
                from as int,
                i as int,
            ));
        }
        if c < 48 || c > 57 {
            return None;
        }
        let next: u64 = acc * 10 + (c - 48) as u64;
        proof {
            assert(next as int == digits_val(b@.subrange(from as int, i as int + 1)));
            assert(b@.subrange(from as int, to as int).take(i as int + 1 - from) =~= b@.subrange(
                from as int,
                i as int + 1,
            ));
        }
        if next > cap {
            proof {
                if all_digits(sub) {
                    lemma_digits_val_prefix(sub, i as int + 1 - from);
                }
            }
            return None;
        }
        acc = next;
        i = i + 1;
        proof {
            assert(all_digits(b@.subrange(from as int, i as int)));
        }
    }
    Some(acc)
}

/// Parse a one-rep maximum from decimal text into hundredths of a
/// unit.  The text is accepted exactly when it is one or more digits,
/// optionally followed by a dot and one or two digits, and the denoted
/// value is small enough for every later product with a percentage to
/// fit the machine word.
pub fn parse_max(s: &str) -> (r: Option<u64>)
    ensures
        match r {
            Some(v) => {
                &&& valid_max_text(s.spec_bytes())
                &&& v as int == text_hundredths(s.spec_bytes())
                &&& v as int <= max_cap()
            },
            None => !(valid_max_text(s.spec_bytes()) && text_hundredths(s.spec_bytes())
                <= max_cap()),
        },
{
    let b = s.as_bytes_vec();
    let n = b.len();
    let cap: u64 = u64::MAX / MAX_SCALE;
    let mut di: usize = 0;
    while di < n && b[di] != 46
        invariant
            di <= n == b@.len(),
            forall|j: int| 0 <= j < di ==> b@[j] != 46u8,
        decreases n - di,
    {
        di = di + 1;
    }
    proof {
        lemma_first_dot_char(b@, di as int);
        assert(int_part(b@) =~= b@.subrange(0, di as int));
    }
    if di == 0 {
        return None;
    }
    let iv = match scan_digits(&b, 0, di) {
        Some(iv) => iv,
        None => {
            proof {
                if all_digits(int_part(b@)) && first_dot(b@) < b@.len() && 1 <= frac_part(
                    b@,
                ).len() <= 2 && all_digits(frac_part(b@)) {
                    lemma_digits_val_nonneg(frac_part(b@));
                }
            }
            return None;
        },
    };
    if di == n {
        if iv > cap / 100 {
            return None;
        }
        return Some(iv * 100);
    }
    let fl = n - di - 1;
    if fl == 0 || fl > 2 {
        return None;
    }
    let ghost fp = frac_part(b@);
    proof {
        assert(fp =~= b@.subrange(di as int + 1, n as int));
    }
    let fv = match scan_digits(&b, di + 1, n) {
        Some(fv) => fv,
        None => {
            proof {
                if all_digits(fp) {
                    lemma_two_digits_bound(fp);
                }
            }
            return None;
        },
    };
    proof {
        lemma_two_digits_bound(fp);
        assert(fv <= 99);
    }
    let scaled: u64 = if fl == 1 {
        fv * 10
    } else {
        fv
    };
    if iv > (cap - scaled) / 100 {
        return None;
    }
    Some(iv * 100 + scaled)
}

} // verus!
