//! Rendering a training cycle as a CSV table.

use vstd::prelude::*;
use vstd::string::{StrSliceExecFns, StringSliceAdditionalSpecFns};
use crate::plan::{cell_of, week_weights_spec, Lift};
use crate::rounding::MAX_SCALE;

verus! {

/// A CSV field must be quoted exactly when it holds a delimiter, a
/// quote, or a line break.
pub open spec fn field_needs_quotes(f: Seq<u8>) -> bool {
    exists|i: int|
        0 <= i < f.len() && (f[i] == 44u8 || f[i] == 34u8 || f[i] == 13u8 || f[i] == 10u8)
}

/// A quoted field's body: every quote byte doubled.
pub open spec fn escape_quotes(f: Seq<u8>) -> Seq<u8>
    decreases f.len(),
{
    if f.len() == 0 {
        Seq::empty()
    } else if f[0] == 34u8 {
        seq![34u8, 34u8] + escape_quotes(f.drop_first())
    } else {
        seq![f[0]] + escape_quotes(f.drop_first())
    }
}

/// One encoded CSV field: quoted with doubled quotes when necessary,
/// the bare bytes otherwise.
pub open spec fn encode_field(f: Seq<u8>) -> Seq<u8> {
    if field_needs_quotes(f) {
        seq![34u8] + escape_quotes(f) + seq![34u8]
    } else {
        f
    }
}

/// A record's body: the encoded fields joined by commas.
pub open spec fn encode_fields(fields: Seq<Seq<u8>>) -> Seq<u8>
    decreases fields.len(),
{
    if fields.len() == 0 {
        Seq::empty()
    } else if fields.len() == 1 {
        encode_field(fields[0])
    } else {
        encode_field(fields[0]) + seq![44u8] + encode_fields(fields.drop_first())
    }
}

/// One encoded CSV record: its body ended by a line feed.  A record
/// whose body is empty — no fields at all, or exactly one empty field —
/// is written as an explicit empty quoted field, so that the line is
/// never blank.
pub open spec fn encode_record(fields: Seq<Seq<u8>>) -> Seq<u8> {
    let body = encode_fields(fields);
    if body.len() == 0 {
        seq![34u8, 34u8, 10u8]
    } else {
        body + seq![10u8]
    }
}

/// Relies on `csv::Writer` with its default configuration (delimiter
/// `,`, quote `"` doubled, terminator `\n`, quoting only where needed,
/// an otherwise empty record written as one empty quoted field):
/// writing one record to an in-memory sink yields exactly one encoded
/// line, and with a `Vec<u8>` sink neither the write nor the flush can
/// fail.
#[verifier::external_body]
fn csv_record_line(fields: &Vec<Vec<u8>>) -> (r: Vec<u8>)
    ensures
        r@ == encode_record(fields@.map_values(|f: Vec<u8>| f@)),
{
    let mut w = csv::Writer::from_writer(Vec::new());
    let _ = w.write_record(fields.iter());
    w.into_inner().unwrap_or_else(|_| Vec::new())
}

/// The header record: the lift column and the four week columns.
pub open spec fn header_fields() -> Seq<Seq<u8>> {
    seq![
        "Lift".spec_bytes(),
        "Week 1".spec_bytes(),
        "Week 2".spec_bytes(),
        "Week 3".spec_bytes(),
        "Week 4".spec_bytes(),
    ]
}

/// One lift's record: its name and one cell of joined weights per week.
pub open spec fn row_fields(lift: Lift) -> Seq<Seq<u8>>
    recommends
        lift.wf(),
{
    seq![
        lift.name@,
        cell_of(lift.grid()[0]),
        cell_of(lift.grid()[1]),
        cell_of(lift.grid()[2]),
        cell_of(lift.grid()[3]),
    ]
}

/// The encoded records of a sequence of lifts, in order.
pub open spec fn rows_bytes(lifts: Seq<Lift>) -> Seq<u8>
    decreases lifts.len(),
{
    if lifts.len() == 0 {
        Seq::empty()
    } else {
        rows_bytes(lifts.drop_last()) + encode_record(row_fields(lifts.last()))
    }
}

/// The whole table: the header record followed by one record per lift.
pub open spec fn cycle_csv(lifts: Seq<Lift>) -> Seq<u8> {
    encode_record(header_fields()) + rows_bytes(lifts)
}

fn copy_bytes(v: &Vec<u8>) -> (r: Vec<u8>)
    ensures
        r@ == v@,
{
    let mut r: Vec<u8> = Vec::new();
    let mut i: usize = 0;
    while i < v.len()
        invariant
            i <= v@.len(),
            r@ == v@.take(i as int),
        decreases v@.len() - i,
    {
        r.push(v[i]);
        proof {
            assert(r@ =~= v@.take(i as int + 1));
        }
        i = i + 1;
    }
    proof {
        assert(v@.take(v@.len() as int) =~= v@);
    }
    r
}

/// Render a whole cycle of lifts as CSV bytes: the fixed header record,
/// then one record per lift in the given order, each holding the lift's
/// name and its four week cells.  The output is a pure function of the
/// lifts, so identical plans always render to identical bytes.
pub fn render_csv(lifts: &Vec<Lift>) -> (r: Vec<u8>)
    requires
        forall|j: int| 0 <= j < lifts@.len() ==> lifts@[j].wf(),
    ensures
        r@ == cycle_csv(lifts@),
{
    let mut header: Vec<Vec<u8>> = Vec::new();
    header.push("Lift".as_bytes_vec());
    header.push("Week 1".as_bytes_vec());
    header.push("Week 2".as_bytes_vec());
    header.push("Week 3".as_bytes_vec());
    header.push("Week 4".as_bytes_vec());
    proof {
        assert(header@.map_values(|f: Vec<u8>| f@) =~= header_fields());
    }
    let mut r = csv_record_line(&header);
    let mut i: usize = 0;
    while i < lifts.len()
        invariant
            forall|j: int| 0 <= j < lifts@.len() ==> lifts@[j].wf(),
            i <= lifts@.len(),
            r@ == encode_record(header_fields()) + rows_bytes(lifts@.take(i as int)),
        decreases lifts@.len() - i,
    {
        let lift = &lifts[i];
        let mut cells = lift.weeks2string();
        let mut fields: Vec<Vec<u8>> = Vec::new();
        fields.push(copy_bytes(&lift.name));
        fields.append(&mut cells);
        proof {
            assert(fields@.map_values(|f: Vec<u8>| f@) =~= row_fields(lifts@[i as int]));
        }
        let mut line = csv_record_line(&fields);
        r.append(&mut line);
        proof {
            assert(lifts@.take(i as int + 1).drop_last() =~= lifts@.take(i as int));
            assert(lifts@.take(i as int + 1).last() == lifts@[i as int]);
            assert(r@ =~= encode_record(header_fields()) + rows_bytes(lifts@.take(i as int + 1)));
        }
        i = i + 1;
    }
    proof {
        assert(lifts@.take(lifts@.len() as int) =~= lifts@);
    }
    r
}

/// One lift's encoded CSV record, as a function of its name's bytes and
/// its maximum (in hundredths of a unit) alone.
pub open spec fn lift_record(name: Seq<u8>, max: int) -> Seq<u8> {
    encode_record(
        seq![
            name,
            cell_of(week_weights_spec(max, 1)),
            cell_of(week_weights_spec(max, 2)),
            cell_of(week_weights_spec(max, 3)),
            cell_of(week_weights_spec(max, 4)),
        ],
    )
}

/// The whole cycle's CSV bytes for four maxes (in hundredths of a
/// unit): the header record, then the records for the press, squat,
/// bench and deadlift, in that fixed order.
pub open spec fn table_of(press: int, squat: int, bench: int, deadlift: int) -> Seq<u8> {
    encode_record(header_fields()) + lift_record("Press".spec_bytes(), press) + lift_record(
        "Squat".spec_bytes(),
        squat,
    ) + lift_record("Bench".spec_bytes(), bench) + lift_record("Deadlift".spec_bytes(), deadlift)
}

proof fn lemma_rows_bytes_four(s: Seq<Lift>)
    requires
        s.len() == 4,
    ensures
        rows_bytes(s) == encode_record(row_fields(s[0])) + encode_record(row_fields(s[1]))
            + encode_record(row_fields(s[2])) + encode_record(row_fields(s[3])),
{
    let s3 = s.drop_last();
    let s2 = s3.drop_last();
    let s1 = s2.drop_last();
    let s0 = s1.drop_last();
    assert(s0 =~= Seq::<Lift>::empty());
    assert(rows_bytes(s0) == Seq::<u8>::empty());
    assert(s1.last() == s[0] && s2.last() == s[1] && s3.last() == s[2] && s.last() == s[3]);
    assert(rows_bytes(s1) == rows_bytes(s0) + encode_record(row_fields(s[0])));
    assert(rows_bytes(s2) == rows_bytes(s1) + encode_record(row_fields(s[1])));
    assert(rows_bytes(s3) == rows_bytes(s2) + encode_record(row_fields(s[2])));
    assert(rows_bytes(s) == rows_bytes(s3) + encode_record(row_fields(s[3])));
    assert(rows_bytes(s) =~= encode_record(row_fields(s[0])) + encode_record(row_fields(s[1]))
        + encode_record(row_fields(s[2])) + encode_record(row_fields(s[3])));
}

/// Build the four lift plans in the fixed press, squat, bench, deadlift
/// order from the four maxes (in hundredths of a unit) and render the
/// cycle as CSV bytes.  The result is a pure function of the maxes, so
/// a re-run on the same inputs yields byte-identical output.
#[verifier::rlimit(50)]
pub fn generate_table(press: u64, squat: u64, bench: u64, deadlift: u64) -> (r: Vec<u8>)
    requires
        press <= u64::MAX / MAX_SCALE,
        squat <= u64::MAX / MAX_SCALE,
        bench <= u64::MAX / MAX_SCALE,
        deadlift <= u64::MAX / MAX_SCALE,
    ensures
        r@ == table_of(press as int, squat as int, bench as int, deadlift as int),
{
    let mut lifts: Vec<Lift> = Vec::new();
    lifts.push(Lift::new("Press", press));
    lifts.push(Lift::new("Squat", squat));
    lifts.push(Lift::new("Bench", bench));
    lifts.push(Lift::new("Deadlift", deadlift));
    let r = render_csv(&lifts);
    proof {
        let s = lifts@;
        assert(row_fields(s[0]) =~= seq![
            "Press".spec_bytes(),
            cell_of(week_weights_spec(press as int, 1)),
            cell_of(week_weights_spec(press as int, 2)),
            cell_of(week_weights_spec(press as int, 3)),
            cell_of(week_weights_spec(press as int, 4)),
        ]);
        assert(row_fields(s[1]) =~= seq![
            "Squat".spec_bytes(),
            cell_of(week_weights_spec(squat as int, 1)),
            cell_of(week_weights_spec(squat as int, 2)),
            cell_of(week_weights_spec(squat as int, 3)),
            cell_of(week_weights_spec(squat as int, 4)),
        ]);
        assert(row_fields(s[2]) =~= seq![
            "Bench".spec_bytes(),
            cell_of(week_weights_spec(bench as int, 1)),
            cell_of(week_weights_spec(bench as int, 2)),
            cell_of(week_weights_spec(bench as int, 3)),
            cell_of(week_weights_spec(bench as int, 4)),
        ]);
        assert(row_fields(s[3]) =~= seq![
            "Deadlift".spec_bytes(),
            cell_of(week_weights_spec(deadlift as int, 1)),
            cell_of(week_weights_spec(deadlift as int, 2)),
            cell_of(week_weights_spec(deadlift as int, 3)),
            cell_of(week_weights_spec(deadlift as int, 4)),
        ]);
        lemma_rows_bytes_four(s);
        assert(r@ =~= table_of(press as int, squat as int, bench as int, deadlift as int));
    }
    r
}

} // verus!
