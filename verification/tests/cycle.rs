use cal_531::csvenc::{generate_table, render_csv};
use cal_531::decimal::u64_to_dec;
use cal_531::parse::parse_max;
use cal_531::plan::{calculate_weight, Lift};
use cal_531::rounding::round_to_pattern;

// One weight unit in raw (unrounded) measure.
const RAW: u64 = 10000;

#[test]
fn round_boundaries_land_in_upper_bin() {
    // Remainders 1.5, 4.0, 6.5 and 9.0 belong to the upper bin.
    assert_eq!(round_to_pattern(215_000), 23); // 21.5 -> 20 + 3
    assert_eq!(round_to_pattern(240_000), 25); // 24.0 -> 20 + 5
    assert_eq!(round_to_pattern(265_000), 28); // 26.5 -> 20 + 8
    assert_eq!(round_to_pattern(290_000), 30); // 29.0 -> 20 + 10
    // Just below each boundary the lower bin applies.
    assert_eq!(round_to_pattern(214_900), 20); // 21.49 -> 20 + 0
    assert_eq!(round_to_pattern(239_900), 23); // 23.99 -> 20 + 3
    assert_eq!(round_to_pattern(264_900), 25); // 26.49 -> 20 + 5
    assert_eq!(round_to_pattern(289_900), 28); // 28.99 -> 20 + 8
}

#[test]
fn round_offset_is_always_in_pattern() {
    let mut raw: u64 = 0;
    while raw < 60 * RAW {
        let w = round_to_pattern(raw);
        let offset = w % 10;
        assert!(offset == 0 || offset == 3 || offset == 5 || offset == 8);
        raw += 137;
    }
}

#[test]
fn round_is_at_least_twenty() {
    assert_eq!(round_to_pattern(0), 20);
    assert_eq!(round_to_pattern(1), 20);
    assert_eq!(round_to_pattern(5 * RAW), 20);
    assert_eq!(round_to_pattern(19 * RAW), 20);
    let mut raw: u64 = 0;
    while raw < 30 * RAW {
        assert!(round_to_pattern(raw) >= 20);
        raw += 97;
    }
}

#[test]
fn round_is_idempotent_on_samples() {
    let mut raw: u64 = 0;
    while raw < 100 * RAW {
        let w = round_to_pattern(raw);
        assert_eq!(round_to_pattern(w * RAW), w);
        raw += 311;
    }
}

#[test]
fn week_weights_match_the_factor_table() {
    let maxes: [u64; 3] = [20_000, 30_000, 12_345];
    let table: [[u64; 3]; 4] =
        [[65, 75, 85], [70, 80, 90], [75, 85, 95], [40, 50, 60]];
    for &max in maxes.iter() {
        for week in 1..=4i8 {
            let row = calculate_weight(max, week);
            assert_eq!(row.len(), 3);
            for set in 0..3usize {
                let factor = table[(week - 1) as usize][set];
                assert_eq!(row[set], round_to_pattern(max * factor));
                assert!(row[set] >= 20);
            }
        }
    }
}

#[test]
fn invalid_week_yields_three_zeros() {
    for &week in [0i8, 5, 6, -1, i8::MIN, i8::MAX].iter() {
        let row = calculate_weight(20_000, week);
        assert_eq!(row, vec![0, 0, 0]);
    }
}

#[test]
fn lift_holds_name_and_rounded_grid() {
    let lift = Lift::new("Press", 20_000);
    assert_eq!(lift.name, b"Press".to_vec());
    assert_eq!(lift.weeks.len(), 4);
    assert_eq!(lift.weeks[0], vec![130, 150, 170]);
    assert_eq!(lift.weeks[1], vec![140, 160, 180]);
    assert_eq!(lift.weeks[2], vec![150, 170, 190]);
    assert_eq!(lift.weeks[3], vec![80, 100, 120]);
}

#[test]
fn weeks2string_joins_each_row() {
    let lift = Lift::new("Press", 20_000);
    let cells = lift.weeks2string();
    assert_eq!(cells.len(), 4);
    assert_eq!(cells[0], b"130, 150, 170".to_vec());
    assert_eq!(cells[3], b"80, 100, 120".to_vec());
}

#[test]
fn decimal_digits_render() {
    assert_eq!(u64_to_dec(0), b"0".to_vec());
    assert_eq!(u64_to_dec(7), b"7".to_vec());
    assert_eq!(u64_to_dec(130), b"130".to_vec());
    assert_eq!(u64_to_dec(18_446_744_073_709_551_615), b"18446744073709551615".to_vec());
}

#[test]
fn end_to_end_table_for_documented_maxes() {
    // press 200, squat 300, bench 150, deadlift 250 weight units.
    let out = generate_table(20_000, 30_000, 15_000, 25_000);
    let expected = "Lift,Week 1,Week 2,Week 3,Week 4\n\
        Press,\"130, 150, 170\",\"140, 160, 180\",\"150, 170, 190\",\"80, 100, 120\"\n\
        Squat,\"195, 225, 255\",\"210, 240, 270\",\"225, 255, 285\",\"120, 150, 180\"\n\
        Bench,\"98, 113, 128\",\"105, 120, 135\",\"113, 128, 143\",\"60, 75, 90\"\n\
        Deadlift,\"163, 188, 213\",\"175, 200, 225\",\"188, 213, 238\",\"100, 125, 150\"\n";
    assert_eq!(String::from_utf8(out).unwrap(), expected);
}

#[test]
fn render_matches_building_the_lifts_directly() {
    let lifts = vec![
        Lift::new("Press", 20_000),
        Lift::new("Squat", 30_000),
        Lift::new("Bench", 15_000),
        Lift::new("Deadlift", 25_000),
    ];
    assert_eq!(render_csv(&lifts), generate_table(20_000, 30_000, 15_000, 25_000));
}

#[test]
fn rerun_is_byte_identical() {
    let a = generate_table(20_000, 30_000, 15_000, 25_000);
    let b = generate_table(20_000, 30_000, 15_000, 25_000);
    assert_eq!(a, b);
}

#[test]
fn render_agrees_with_the_csv_crate() {
    // The same records written by the csv crate by hand must give the
    // same bytes as the library's renderer.
    let lifts = vec![Lift::new("Press", 20_000), Lift::new("Squat", 30_000)];
    let mut w = csv::Writer::from_writer(Vec::new());
    w.write_record(["Lift", "Week 1", "Week 2", "Week 3", "Week 4"])
        .unwrap();
    for lift in &lifts {
        let name = String::from_utf8(lift.name.clone()).unwrap();
        let cells = lift.weeks2string();
        let mut record = vec![name];
        for cell in cells {
            record.push(String::from_utf8(cell).unwrap());
        }
        w.write_record(&record).unwrap();
    }
    let bytes = w.into_inner().unwrap();
    assert_eq!(render_csv(&lifts), bytes);
}

#[test]
fn quoting_only_where_needed() {
    // A name with a comma is quoted; the header fields are not.
    let lifts = vec![Lift::new("Press, strict", 20_000)];
    let out = String::from_utf8(render_csv(&lifts)).unwrap();
    assert!(out.starts_with("Lift,Week 1,Week 2,Week 3,Week 4\n"));
    assert!(out.contains("\"Press, strict\""));
}

#[test]
fn parse_accepts_plain_and_fractional_maxes() {
    assert_eq!(parse_max("200"), Some(20_000));
    assert_eq!(parse_max("0"), Some(0));
    assert_eq!(parse_max("187.5"), Some(18_750));
    assert_eq!(parse_max("187.55"), Some(18_755));
    assert_eq!(parse_max("007"), Some(700));
}

#[test]
fn parse_rejects_malformed_or_oversized_text() {
    assert_eq!(parse_max(""), None);
    assert_eq!(parse_max("abc"), None);
    assert_eq!(parse_max("-5"), None);
    assert_eq!(parse_max(".5"), None);
    assert_eq!(parse_max("5."), None);
    assert_eq!(parse_max("1.555"), None);
    assert_eq!(parse_max("1.2.3"), None);
    assert_eq!(parse_max("12 3"), None);
    assert_eq!(parse_max("99999999999999999999999999"), None);
}
