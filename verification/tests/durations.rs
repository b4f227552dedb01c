use okto::durations::{format_duration, parse_duration};

const DAY: i64 = 86400;
const HOUR: i64 = 3600;
const MINUTE: i64 = 60;

#[test]
fn duration_to_str() {
    let dur = 2 * DAY + 8 * HOUR + 23 * MINUTE + 1;

    assert_eq!(format_duration(dur, true), "2 days, 8 hours, 23 minutes and 1 second");
}

#[test]
fn str_to_duration() {
    let dur = 2 * DAY + 8 * HOUR + 23 * MINUTE + 1;

    assert_eq!(parse_duration("2 days, 8 hours, 23 minutes and 1 second"), dur);
}

#[test]
fn format_without_seconds_drops_them() {
    let dur = 2 * DAY + 8 * HOUR + 23 * MINUTE + 1;
    assert_eq!(format_duration(dur, false), "2 days, 8 hours, 23 minutes");
}

#[test]
fn format_joins_the_last_part_with_and() {
    assert_eq!(format_duration(DAY + HOUR, true), "1 day and 1 hour");
    assert_eq!(format_duration(3 * HOUR + 5 * MINUTE, true), "3 hours and 5 minutes");
    assert_eq!(format_duration(DAY + 30 * MINUTE, false), "1 day and 30 minutes");
    assert_eq!(format_duration(45, true), "45 seconds");
}

#[test]
fn format_of_nothing_is_unknown() {
    assert_eq!(format_duration(0, true), "unknown");
    assert_eq!(format_duration(30, false), "unknown");
    assert_eq!(format_duration(-DAY, true), "unknown");
}

#[test]
fn parse_reads_each_unit_once() {
    assert_eq!(parse_duration("nothing here"), 0);
    assert_eq!(parse_duration("5 minutes"), 5 * MINUTE);
    assert_eq!(parse_duration("1 hour and 2 hours"), HOUR);
    assert_eq!(parse_duration("x12 days"), 12 * DAY);
}

#[test]
fn parse_skips_counts_that_do_not_fit() {
    assert_eq!(parse_duration("99999999999999999999 days and 3 seconds"), 3);
}

#[test]
fn format_then_parse_gives_the_duration_back() {
    for d in [0, 1, 59, 60, 61, 3599, 3600, 86399, 86400, 90061, 1_000_000, 31_536_000] {
        assert_eq!(parse_duration(&format_duration(d, true)), d);
    }
}

#[test]
fn a_rendering_without_seconds_reads_back_as_whole_minutes() {
    for dur in [0, 59, 60, 61, 3599, 86399, 2 * DAY + 8 * HOUR + 23 * MINUTE + 1, 200000] {
        assert_eq!(parse_duration(&format_duration(dur, false)), (dur / 60) * 60);
        assert_eq!(parse_duration(&format_duration(dur, true)), dur);
    }
}
