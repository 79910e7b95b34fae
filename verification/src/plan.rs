//! The four-week percentage table and per-lift plans.

use vstd::prelude::*;
use vstd::string::{StrSliceExecFns, StringSliceAdditionalSpecFns};
use crate::decimal::{dec_of, u64_to_dec};
use crate::rounding::{round_spec, round_to_pattern, MAX_SCALE};

verus! {

/// The percentage of the one-rep maximum prescribed for a given week
/// (1 through 4) and set (0 through 2).
pub open spec fn factor(week: int, set: int) -> int
    recommends
        1 <= week <= 4,
        0 <= set < 3,
{
    if week == 1 {
        if set == 0 {
            65
        } else if set == 1 {
            75
        } else {
            85
        }
    } else if week == 2 {
        if set == 0 {
            70
        } else if set == 1 {
            80
        } else {
            90
        }
    } else if week == 3 {
        if set == 0 {
            75
        } else if set == 1 {
            85
        } else {
            95
        }
    } else {
        if set == 0 {
            40
        } else if set == 1 {
            50
        } else {
            60
        }
    }
}

/// The three rounded target weights for one week: the maximum (in
/// hundredths of a unit) times each percentage gives a raw weight in
/// ten-thousandths of a unit, which the rounder snaps to whole units.
/// A week outside 1 through 4 yields the degenerate all-zero row.
pub open spec fn week_weights_spec(max: int, week: int) -> Seq<int> {
    if 1 <= week <= 4 {
        Seq::new(3, |set: int| round_spec(max * factor(week, set)))
    } else {
        seq![0int, 0int, 0int]
    }
}

/// Compute the three target weights of one week from a maximum given in
/// hundredths of a unit.  For a week in 1 through 4 each value is the
/// rounded product of the maximum and the documented percentage, hence
/// at least 20; for any other week the row is exactly `[0, 0, 0]`.
pub fn calculate_weight(max: u64, week: i8) -> (r: Vec<u64>)
    requires
        max <= u64::MAX / MAX_SCALE,
    ensures
        r@.len() == 3,
        forall|set: int|
            0 <= set < 3 ==> r@[set] as int == week_weights_spec(max as int, week as int)[set],
        1 <= week <= 4 ==> forall|set: int| 0 <= set < 3 ==> r@[set] >= 20,
        !(1 <= week <= 4) ==> forall|set: int| 0 <= set < 3 ==> r@[set] == 0,
{
    if 1 <= week && week <= 4 {
        let (f0, f1, f2): (u64, u64, u64) = if week == 1 {
            (65, 75, 85)
        } else if week == 2 {
            (70, 80, 90)
        } else if week == 3 {
            (75, 85, 95)
        } else {
            (40, 50, 60)
        };
        proof {
            assert(f0 == factor(week as int, 0));
            assert(f1 == factor(week as int, 1));
            assert(f2 == factor(week as int, 2));
            assert(max * f2 <= u64::MAX && max * f1 <= u64::MAX && max * f0 <= u64::MAX)
                by (nonlinear_arith)
                requires
                    max <= u64::MAX / 100,
                    f0 <= 95,
                    f1 <= 95,
                    f2 <= 95,
            ;
        }
        let mut r: Vec<u64> = Vec::new();
        r.push(round_to_pattern(max * f0));
        r.push(round_to_pattern(max * f1));
        r.push(round_to_pattern(max * f2));
        r
    } else {
        let mut r: Vec<u64> = Vec::new();
        r.push(0);
        r.push(0);
        r.push(0);
        r
    }
}

/// One lift's plan: the lift's name (as bytes of its UTF-8 text) and a
/// 4-week-by-3-set grid of rounded target weights in whole units.
pub struct Lift {
    pub name: Vec<u8>,
    pub weeks: Vec<Vec<u64>>,
}

impl Lift {
    /// The grid has exactly four weeks of exactly three sets.
    pub open spec fn wf(&self) -> bool {
        &&& self.weeks@.len() == 4
        &&& forall|w: int| 0 <= w < 4 ==> self.weeks@[w]@.len() == 3
    }

    /// The grid as a mathematical sequence of rows of integers.
    pub open spec fn grid(&self) -> Seq<Seq<int>> {
        Seq::new(self.weeks@.len(), |w: int| self.weeks@[w]@.map_values(|x: u64| x as int))
    }

    /// Build the plan for one lift: weeks 1 through 4 of the percentage
    /// table, each row rounded, in order.
    pub fn new(name: &str, max: u64) -> (lift: Lift)
        requires
            max <= u64::MAX / MAX_SCALE,
        ensures
            lift.wf(),
            lift.name@ == name.spec_bytes(),
            forall|w: int| 0 <= w < 4 ==> lift.grid()[w] == week_weights_spec(max as int, w + 1),
    {
        let mut weeks: Vec<Vec<u64>> = Vec::new();
        weeks.push(calculate_weight(max, 1));
        weeks.push(calculate_weight(max, 2));
        weeks.push(calculate_weight(max, 3));
        weeks.push(calculate_weight(max, 4));
        let lift = Lift { name: name.as_bytes_vec(), weeks };
        proof {
            assert forall|w: int| 0 <= w < 4 implies lift.grid()[w] == week_weights_spec(
                max as int,
                w + 1,
            ) by {
                assert(lift.grid()[w] =~= week_weights_spec(max as int, w + 1));
            }
        }
        lift
    }

    /// Render each week's row as decimal text, the three set weights
    /// joined by a comma and a space.
    pub fn weeks2string(&self) -> (r: Vec<Vec<u8>>)
        requires
            self.wf(),
        ensures
            r@.len() == 4,
            forall|w: int| 0 <= w < 4 ==> r@[w]@ == cell_of(self.grid()[w]),
    {
        let mut r: Vec<Vec<u8>> = Vec::new();
        let mut w: usize = 0;
        while w < 4
            invariant
                self.wf(),
                w <= 4,
                r@.len() == w,
                forall|i: int| 0 <= i < w ==> r@[i]@ == cell_of(self.grid()[i]),
            decreases 4 - w,
        {
            r.push(cell_bytes(&self.weeks[w]));
            w = w + 1;
        }
        r
    }
}

/// One CSV cell's text: the three weights of a week in decimal, joined
/// by a comma and a space.
pub open spec fn cell_of(row: Seq<int>) -> Seq<u8>
    recommends
        row.len() == 3,
        forall|i: int| 0 <= i < row.len() ==> row[i] >= 0,
{
    dec_of(row[0] as nat) + seq![44u8, 32u8] + dec_of(row[1] as nat) + seq![44u8, 32u8] + dec_of(
        row[2] as nat,
    )
}

/// Join one week's three weights into a cell's text.
pub fn cell_bytes(row: &Vec<u64>) -> (r: Vec<u8>)
    requires
        row@.len() == 3,
    ensures
        r@ == cell_of(row@.map_values(|x: u64| x as int)),
{
    let mut r = u64_to_dec(row[0]);
    r.push(44);
    r.push(32);
    let mut mid = u64_to_dec(row[1]);
    r.append(&mut mid);
    r.push(44);
    r.push(32);
    let mut last = u64_to_dec(row[2]);
    r.append(&mut last);
    proof {
        assert(r@ =~= cell_of(row@.map_values(|x: u64| x as int)));
    }
    r
}

} // verus!
