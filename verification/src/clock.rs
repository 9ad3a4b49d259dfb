//! The local clock, and the texts that are made of it.

use vstd::prelude::*;
use vstd::string::*;
use chrono::Datelike;
use chrono::Timelike;
use crate::text;

verus! {

/// A moment by the clock on the wall, to the second.
#[derive(Clone, Copy, PartialEq, Eq, Structural, Debug)]
pub struct LocalTime {
    pub year: i32,
    pub month: u32,
    pub day: u32,
    pub hour: u32,
    pub minute: u32,
    pub second: u32,
}

/// A calendar day.
#[derive(Clone, Copy, PartialEq, Eq, Structural, Debug)]
pub struct Day {
    pub year: i32,
    pub month: u32,
    pub day: u32,
}

/// Whether `year` is a leap year of the Gregorian calendar.
pub open spec fn leap(year: int) -> bool {
    year % 4 == 0 && (year % 100 != 0 || year % 400 == 0)
}

/// How many days a month has.
pub open spec fn days_in(year: int, month: int) -> int {
    if month == 2 {
        if leap(year) {
            29
        } else {
            28
        }
    } else if month == 4 || month == 6 || month == 9 || month == 11 {
        30
    } else {
        31
    }
}

impl LocalTime {
    /// Whether this is a moment of the calendar, in a year that `chrono` can
    /// hold.
    pub open spec fn is_real(self) -> bool {
        &&& -262143 <= self.year <= 262142
        &&& 1 <= self.month <= 12
        &&& 1 <= self.day <= days_in(self.year as int, self.month as int)
        &&& self.hour < 24
        &&& self.minute < 60
        &&& self.second < 60
    }

    /// The day of this moment.
    pub open spec fn day_of(self) -> Day {
        Day { year: self.year, month: self.month, day: self.day }
    }

    /// The day of this moment.
    pub fn date(&self) -> (r: Day)
        ensures
            r == self.day_of(),
    {
        Day { year: self.year, month: self.month, day: self.day }
    }
}

// ---- texts ----

/// The stamp in front of a note.
pub const NOTE_PATTERN: &'static str = "%Y-%m-%d %H:%M";

/// The time of day in a status.
pub const CLOCK_PATTERN: &'static str = "%H:%M";

/// The stamp in a file name.
pub const FILE_PATTERN: &'static str = "%Y%m%d-%H%M%S";

/// `n` in two digits.
pub open spec fn two(n: int) -> Seq<char> {
    seq![text::digit(n / 10), text::digit(n % 10)]
}

/// `n` in at least four digits.
pub open spec fn four(n: int) -> Seq<char> {
    if n < 10000 {
        two(n / 100) + two(n % 100)
    } else {
        text::dec(n as nat)
    }
}

/// A year: four digits, and a sign in front where it lies outside 0 to 9999.
pub open spec fn year_text(year: int) -> Seq<char> {
    if 0 <= year < 10000 {
        four(year)
    } else if year < 0 {
        seq!['-'] + four(-year)
    } else {
        seq!['+'] + four(year)
    }
}

/// The day in a note's stamp, such as `2026-06-25`.
pub open spec fn date_text(t: LocalTime) -> Seq<char> {
    year_text(t.year as int) + seq!['-'] + two(t.month as int) + seq!['-'] + two(t.day as int)
}

/// A time of day, such as `14:30`.
pub open spec fn clock_text(t: LocalTime) -> Seq<char> {
    two(t.hour as int) + seq![':'] + two(t.minute as int)
}

/// The stamp in front of a note, such as `2026-06-25 14:30`.
pub open spec fn note_stamp_text(t: LocalTime) -> Seq<char> {
    date_text(t) + seq![' '] + clock_text(t)
}

/// The stamp in a file name, such as `20260625-143200`.
pub open spec fn file_stamp_text(t: LocalTime) -> Seq<char> {
    year_text(t.year as int) + two(t.month as int) + two(t.day as int) + seq!['-'] + two(
        t.hour as int,
    ) + two(t.minute as int) + two(t.second as int)
}

/// Calls `chrono::Local::now` and `naive_local`. Claimed: what comes back is a
/// moment of the calendar. Which one is up to the clock.
#[verifier::external_body]
fn local_now() -> (t: LocalTime)
    ensures
        t.is_real(),
{
    let now = chrono::Local::now().naive_local();
    LocalTime {
        year: now.year(),
        month: now.month(),
        day: now.day(),
        hour: now.hour(),
        minute: now.minute(),
        second: now.second(),
    }
}

/// Calls `chrono::NaiveDateTime::format` for the moment `t`. Claimed, for the
/// three patterns used here: each field is written in its fixed number of
/// digits with zeros in front, and the year with a sign where it lies outside
/// 0 to 9999.
#[verifier::external_body]
fn format_time(t: &LocalTime, pattern: &str) -> (r: String)
    requires
        t.is_real(),
        pattern@ == NOTE_PATTERN@ || pattern@ == CLOCK_PATTERN@ || pattern@ == FILE_PATTERN@,
    ensures
        pattern@ == NOTE_PATTERN@ ==> r@ == note_stamp_text(*t),
        pattern@ == CLOCK_PATTERN@ ==> r@ == clock_text(*t),
        pattern@ == FILE_PATTERN@ ==> r@ == file_stamp_text(*t),
{
    let date = chrono::NaiveDate::from_ymd_opt(t.year, t.month, t.day).unwrap();
    let moment = date.and_hms_opt(t.hour, t.minute, t.second).unwrap();
    moment.format(pattern).to_string()
}

/// The moment it is now.
pub fn current_time() -> (t: LocalTime)
    ensures
        t.is_real(),
{
    local_now()
}

/// The stamp in front of a note.
pub fn note_stamp(t: &LocalTime) -> (r: String)
    requires
        t.is_real(),
    ensures
        r@ == note_stamp_text(*t),
{
    format_time(t, NOTE_PATTERN)
}

/// The time of day, as a status shows it.
pub fn clock_stamp(t: &LocalTime) -> (r: String)
    requires
        t.is_real(),
    ensures
        r@ == clock_text(*t),
{
    format_time(t, CLOCK_PATTERN)
}

/// The stamp in a file name.
pub fn file_stamp(t: &LocalTime) -> (r: String)
    requires
        t.is_real(),
    ensures
        r@ == file_stamp_text(*t),
{
    format_time(t, FILE_PATTERN)
}

/// A note as it is written into the markdown file.
pub open spec fn note_line_text(t: LocalTime, note: Seq<char>) -> Seq<char> {
    "- ["@ + note_stamp_text(t) + "] "@ + note + "\n"@
}

/// A note as it is written into the markdown file at the moment `t`.
pub fn note_line(t: &LocalTime, note: &str) -> (r: String)
    requires
        t.is_real(),
    ensures
        r@ == note_line_text(*t, note@),
{
    let mut line = "- [".to_owned();
    line.append(note_stamp(t).as_str());
    line.append("] ");
    line.append(note);
    line.append("\n");
    line
}

/// A note as it is to be written into the markdown file now.
pub fn stamped_line(note: &str) -> (r: String)
    ensures
        exists|t: LocalTime| t.is_real() && r@ == #[trigger] note_line_text(t, note@),
{
    let t = local_now();
    note_line(&t, note)
}

// ---- times of day ----

/// The value of a run of digits.
pub open spec fn number(s: Seq<char>) -> nat
    decreases s.len(),
{
    if s.len() == 0 {
        0
    } else {
        number(s.drop_last()) * 10 + (s.last() as u32 - '0' as u32) as nat
    }
}

/// Whether `s` is a run of digits, one at least.
pub open spec fn all_digits(s: Seq<char>) -> bool {
    &&& s.len() > 0
    &&& forall|i: int| 0 <= i < s.len() ==> '0' <= #[trigger] s[i] <= '9'
}

/// The number that `s` stands for: digits, with an optional plus sign, within
/// a `u32`.
pub open spec fn parsed_u32(s: Seq<char>) -> Option<nat> {
    let digits = if s.len() > 0 && s[0] == '+' {
        s.skip(1)
    } else {
        s
    };
    if all_digits(digits) && number(digits) <= u32::MAX {
        Some(number(digits))
    } else {
        None
    }
}

/// Where the first colon of `s` stands; the length of `s` where it has none.
pub open spec fn colon_at(s: Seq<char>) -> nat
    decreases s.len(),
{
    if s.len() == 0 || s[0] == ':' {
        0
    } else {
        1 + colon_at(s.drop_first())
    }
}

/// The part of a time of day in front of the colon.
pub open spec fn hour_part(s: Seq<char>) -> Seq<char> {
    s.take(colon_at(s) as int)
}

/// The part of a time of day behind the colon.
pub open spec fn minute_part(s: Seq<char>) -> Option<Seq<char>> {
    if colon_at(s) < s.len() {
        Some(s.skip((colon_at(s) + 1) as int))
    } else {
        None
    }
}

/// The number that a part of a time of day stands for.
pub open spec fn part_number(part: Option<Seq<char>>) -> Option<nat> {
    match part {
        Some(p) => parsed_u32(text::trimmed(p)),
        None => None,
    }
}

/// `n`, and `most` at most.
pub open spec fn clamped(n: nat, most: nat) -> nat {
    if n < most {
        n
    } else {
        most
    }
}

/// The hour and minute that a configured time of day means: those that it
/// holds, within the day, and 08:00 where it does not hold both.
pub open spec fn hhmm(s: Seq<char>) -> (nat, nat) {
    let t = text::trimmed(s);
    match (part_number(Some(hour_part(t))), part_number(minute_part(t))) {
        (Some(h), Some(m)) => (clamped(h, 23), clamped(m, 59)),
        _ => (8, 0),
    }
}

proof fn lemma_number_grows(s: Seq<char>, k: int)
    requires
        0 <= k <= s.len(),
        forall|i: int| 0 <= i < s.len() ==> '0' <= #[trigger] s[i] <= '9',
    ensures
        number(s.take(k)) <= number(s),
    decreases s.len(),
{
    if k < s.len() {
        lemma_number_grows(s.drop_last(), k);
        assert(s.drop_last().take(k) =~= s.take(k));
    } else {
        assert(s.take(k) =~= s);
    }
}

/// The number in `chars[from..to]`.
fn parse_u32(chars: &Vec<char>, from: usize, to: usize) -> (r: Option<u32>)
    requires
        from <= to <= chars@.len(),
    ensures
        match r {
            Some(n) => parsed_u32(chars@.subrange(from as int, to as int)) == Some(n as nat),
            None => parsed_u32(chars@.subrange(from as int, to as int)) is None,
        },
{
    let ghost whole = chars@.subrange(from as int, to as int);
    let start: usize = if from < to && chars[from] == '+' {
        from + 1
    } else {
        from
    };
    let ghost digits = chars@.subrange(start as int, to as int);
    proof {
        if from < to && chars@[from as int] == '+' {
            assert(whole.skip(1) =~= digits);
        } else {
            assert(whole =~= digits);
            if whole.len() > 0 {
                assert(whole[0] == chars@[from as int]);
            }
        }
    }
    if start == to {
        return None;
    }
    let mut value: u64 = 0;
    let mut i: usize = start;
    proof {
        assert(digits.take(0) =~= Seq::<char>::empty());
    }
    while i < to
        invariant
            from <= start <= i <= to <= chars@.len(),
            whole == chars@.subrange(from as int, to as int),
            digits == chars@.subrange(start as int, to as int),
            parsed_u32(whole) == (if all_digits(digits) && number(digits) <= u32::MAX {
                Some(number(digits))
            } else {
                None
            }),
            forall|k: int| 0 <= k < i - start ==> '0' <= #[trigger] digits[k] <= '9',
            value == number(digits.take(i - start)),
            value <= u32::MAX,
        decreases to - i,
    {
        let c: char = chars[i];
        proof {
            assert(digits[i - start] == c);
        }
        if c < '0' || '9' < c {
            return None;
        }
        value = value * 10 + (c as u32 - '0' as u32) as u64;
        proof {
            let longer = digits.take(i + 1 - start);
            assert(longer.drop_last() =~= digits.take(i - start));
            assert(longer.last() == c);
        }
        i = i + 1;
        if value > u32::MAX as u64 {
            proof {
                if all_digits(digits) {
                    lemma_number_grows(digits, i - start);
                }
            }
            return None;
        }
    }
    proof {
        assert(digits.take(digits.len() as int) =~= digits);
    }
    Some(value as u32)
}

fn parse_part(part: Option<String>) -> (r: Option<u32>)
    ensures
        match r {
            Some(n) => part_number(text::opt_text(part)) == Some(n as nat),
            None => part_number(text::opt_text(part)) is None,
        },
{
    match part {
        Some(p) => {
            let t = text::chars_of(text::trim(p.as_str()).as_str());
            proof {
                assert(t@.subrange(0, t@.len() as int) =~= t@);
            }
            parse_u32(&t, 0, t.len())
        },
        None => None,
    }
}

fn clamp(n: u32, most: u32) -> (r: u32)
    ensures
        r == clamped(n as nat, most as nat),
{
    if n < most {
        n
    } else {
        most
    }
}

/// Parse an "HH:MM" string into (hour, minute), clamped to valid ranges. Falls
/// back to 08:00 on anything unparseable.
pub fn parse_hhmm(s: &str) -> (r: (u32, u32))
    ensures
        (r.0 as nat, r.1 as nat) == hhmm(s@),
        r.0 <= 23,
        r.1 <= 59,
{
    let t = text::chars_of(text::trim(s).as_str());
    let mut i: usize = 0;
    proof {
        assert(t@.skip(0) =~= t@);
    }
    while i < t.len() && t[i] != ':'
        invariant
            i <= t@.len(),
            colon_at(t@) == i + colon_at(t@.skip(i as int)),
        decreases t@.len() - i,
    {
        proof {
            assert(t@.skip(i as int)[0] == t@[i as int]);
            assert(t@.skip(i as int).drop_first() =~= t@.skip(i + 1));
        }
        i = i + 1;
    }
    proof {
        if i < t@.len() {
            assert(t@.skip(i as int)[0] == ':');
        }
        assert(colon_at(t@) == i);
        assert(t@.subrange(0, i as int) =~= hour_part(t@));
    }
    let hours = Some(text::text_between(&t, 0, i));
    let minutes = if i < t.len() {
        proof {
            assert(t@.subrange(i + 1, t@.len() as int) =~= t@.skip(i + 1));
        }
        Some(text::text_between(&t, i + 1, t.len()))
    } else {
        None
    };
    match (parse_part(hours), parse_part(minutes)) {
        (Some(h), Some(m)) => (clamp(h, 23), clamp(m, 59)),
        _ => (8, 0),
    }
}

} // verus!
