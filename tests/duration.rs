use kimai_timesheet::duration::{parse_duration, MAX_DURATION_SECONDS};

#[test]
fn decimal_hours_whole_and_fraction() {
    assert_eq!(parse_duration("1"), Some(3600));
    assert_eq!(parse_duration("1.5"), Some(5400));
    assert_eq!(parse_duration("0.25"), Some(900));
    assert_eq!(parse_duration("0002"), Some(7200));
}

#[test]
fn decimal_hours_truncate_toward_zero() {
    assert_eq!(parse_duration("0.0003"), Some(1));
    assert_eq!(parse_duration("0.00001"), Some(0));
    assert_eq!(parse_duration("0.0002777777777777777777778"), Some(1));
    assert_eq!(parse_duration("0.0002777777777777777777777"), Some(0));
    assert_eq!(parse_duration("1.1"), Some(3960));
}

#[test]
fn clock_format() {
    assert_eq!(parse_duration("2:30"), Some(9000));
    assert_eq!(parse_duration("2:15"), Some(8100));
    assert_eq!(parse_duration("0:05"), Some(300));
}

#[test]
fn clock_minutes_beyond_an_hour_are_kept() {
    assert_eq!(parse_duration("1:90"), Some(9000));
    assert_eq!(parse_duration("1:90"), parse_duration("2:30"));
}

#[test]
fn other_strings_fail() {
    for s in ["abc", "1h30m", " 1 ", "", "1.", ".5", "1:", ":30", "1:2:3", "1.5.2", "-1", "1,5", "1:3.5"] {
        assert_eq!(parse_duration(s), None, "{}", s);
    }
}

#[test]
fn spans_beyond_the_limit_fail() {
    let limit_hours = MAX_DURATION_SECONDS / 3600;
    assert_eq!(
        parse_duration(&limit_hours.to_string()),
        Some((limit_hours * 3600) as i64)
    );
    assert_eq!(parse_duration(&(limit_hours + 1).to_string()), None);
    assert_eq!(parse_duration("99999999999999999999999999"), None);
    assert_eq!(parse_duration("0:99999999999999999999"), None);
}
