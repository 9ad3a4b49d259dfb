use notekeeper::clock;
use notekeeper::clock::LocalTime;

fn moment() -> LocalTime {
    LocalTime { year: 2026, month: 6, day: 5, hour: 4, minute: 3, second: 2 }
}

#[test]
fn stamps_have_leading_zeros() {
    let t = moment();
    assert_eq!(clock::note_stamp(&t), "2026-06-05 04:03");
    assert_eq!(clock::clock_stamp(&t), "04:03");
    assert_eq!(clock::file_stamp(&t), "20260605-040302");
}

#[test]
fn years_outside_four_digits_have_a_sign() {
    assert_eq!(clock::file_stamp(&LocalTime { year: 12345, ..moment() }), "+123450605-040302");
    assert_eq!(clock::file_stamp(&LocalTime { year: -7, ..moment() }), "-00070605-040302");
    assert_eq!(clock::file_stamp(&LocalTime { year: 33, ..moment() }), "00330605-040302");
    assert_eq!(clock::note_stamp(&LocalTime { year: -12345, ..moment() }), "-12345-06-05 04:03");
}

#[test]
fn notes_are_timestamped_lines() {
    let t = LocalTime { year: 2026, month: 6, day: 25, hour: 14, minute: 30, second: 59 };
    assert_eq!(
        clock::note_line(&t, "pick up dry cleaning"),
        "- [2026-06-25 14:30] pick up dry cleaning\n"
    );
}

#[test]
fn the_clock_shows_a_moment_of_the_calendar() {
    let t = clock::current_time();
    assert!(t.year >= 2020);
    assert!((1..=12).contains(&t.month));
    assert!((1..=31).contains(&t.day));
    assert!(t.hour < 24 && t.minute < 60 && t.second < 60);
    let line = clock::stamped_line("x");
    assert_eq!(line.len(), "- [2026-06-25 14:30] x\n".len());
    assert!(line.ends_with("] x\n"));
}

#[test]
fn times_of_day_are_parsed() {
    assert_eq!(clock::parse_hhmm("08:00"), (8, 0));
    assert_eq!(clock::parse_hhmm("23:59"), (23, 59));
    assert_eq!(clock::parse_hhmm(" 7 : 5 "), (7, 5));
    assert_eq!(clock::parse_hhmm("+9:+1"), (9, 1));
}

#[test]
fn times_of_day_are_clamped() {
    assert_eq!(clock::parse_hhmm("24:60"), (23, 59));
    assert_eq!(clock::parse_hhmm("4294967295:99"), (23, 59));
}

#[test]
fn what_is_no_time_falls_back() {
    for s in [
        "", "morning", "-1:-1", "4294967296:00", "10", "10:x", "9:xx", "x:15", "1:2:3", "+:0", ":",
        ":30", "9:", "9:4294967296",
    ] {
        assert_eq!(clock::parse_hhmm(s), (8, 0), "{:?}", s);
    }
}
