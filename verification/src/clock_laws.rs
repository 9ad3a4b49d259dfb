//! Times of day as they are written, and stamps as they read.

use vstd::prelude::*;
use crate::clock;
use crate::clock::LocalTime;
use crate::text;

verus! {

/// Whether a text is made of decimal digits only, and of one at least.
pub open spec fn digits_only(s: Seq<char>) -> bool {
    &&& s.len() > 0
    &&& forall|i: int| 0 <= i < s.len() ==> '0' <= #[trigger] s[i] <= '9'
}

/// The number that a run of digits stands for, a plus sign in front of it
/// allowed; none for anything else and for what does not fit into 32 bits.
pub open spec fn reads_as(core: Seq<char>) -> Option<int> {
    let digits = if core.len() > 0 && core[0] == '+' {
        core.drop_first()
    } else {
        core
    };
    if digits_only(digits) && text::digits_value(digits) < 0x1_0000_0000 {
        Some(text::digits_value(digits))
    } else {
        None
    }
}

proof fn lemma_values(s: Seq<char>)
    requires
        forall|i: int| 0 <= i < s.len() ==> '0' <= #[trigger] s[i] <= '9',
    ensures
        clock::number(s) == text::digits_value(s),
    decreases s.len(),
{
    if s.len() > 0 {
        assert(s[s.len() - 1] == s.last());
        lemma_values(s.drop_last());
    }
}

proof fn lemma_reads(core: Seq<char>)
    ensures
        match reads_as(core) {
            Some(n) => clock::parsed_u32(core) == Some(n as nat) && n >= 0,
            None => clock::parsed_u32(core) is None,
        },
{
    let digits = if core.len() > 0 && core[0] == '+' {
        core.drop_first()
    } else {
        core
    };
    if core.len() > 0 {
        assert(core.skip(1) =~= core.drop_first());
    }
    assert(digits_only(digits) == clock::all_digits(digits));
    if clock::all_digits(digits) {
        lemma_values(digits);
    }
}

proof fn lemma_colon(x: Seq<char>, y: Seq<char>)
    requires
        forall|i: int| 0 <= i < x.len() ==> #[trigger] x[i] != ':',
    ensures
        clock::colon_at(x + seq![':'] + y) == x.len(),
        clock::colon_at(x) == x.len(),
    decreases x.len(),
{
    let s = x + seq![':'] + y;
    if x.len() > 0 {
        assert(s[0] == x[0]);
        assert(s.drop_first() =~= x.drop_first() + seq![':'] + y);
        assert forall|i: int| 0 <= i < x.drop_first().len() implies #[trigger] x.drop_first()[i]
            != ':' by {
            assert(x.drop_first()[i] == x[i + 1]);
        }
        lemma_colon(x.drop_first(), y);
    } else {
        assert(s[0] == ':');
    }
}

/// Whether a text is made of white space only.
pub open spec fn blank(s: Seq<char>) -> bool {
    forall|i: int| 0 <= i < s.len() ==> text::whitespace(#[trigger] s[i])
}

/// Whether a text neither starts nor ends in white space.
pub open spec fn bare(s: Seq<char>) -> bool {
    s.len() > 0 ==> !text::whitespace(s[0]) && !text::whitespace(s.last())
}

/// Every text with a colon in it: the hour stands in front of the first colon
/// and the minute behind it, each with any white space around it. Both have
/// to be numbers; then they are taken, but for the end of the day, else it is
/// eight o'clock.
pub proof fn times_of_day_read_as_written(
    a: Seq<char>,
    hour: Seq<char>,
    b: Seq<char>,
    c: Seq<char>,
    minute: Seq<char>,
    d: Seq<char>,
)
    requires
        blank(a),
        blank(b),
        blank(c),
        blank(d),
        bare(hour),
        bare(minute),
        forall|i: int| 0 <= i < hour.len() ==> #[trigger] hour[i] != ':',
    ensures
        clock::hhmm(a + hour + b + seq![':'] + c + minute + d) == (match (
            reads_as(hour),
            reads_as(minute),
        ) {
            (Some(h), Some(m)) => (
                (if h < 23 {
                    h as nat
                } else {
                    23nat
                }),
                (if m < 59 {
                    m as nat
                } else {
                    59nat
                }),
            ),
            _ => (8nat, 0nat),
        }),
{
    let s = a + hour + b + seq![':'] + c + minute + d;
    let none = Seq::<char>::empty();
    lemma_reads(hour);
    lemma_reads(minute);
    // The ends that trimming takes off reach up to the colon where a part is empty.
    let front = if hour.len() > 0 {
        a
    } else {
        a + b
    };
    let x = if hour.len() > 0 {
        hour + b
    } else {
        none
    };
    let y = if minute.len() > 0 {
        c + minute
    } else {
        none
    };
    let back = if minute.len() > 0 {
        d
    } else {
        c + d
    };
    let core = x + seq![':'] + y;
    assert(s =~= front + core + back);
    assert(blank(front)) by {
        assert forall|i: int| 0 <= i < front.len() implies text::whitespace(#[trigger] front[i]) by {
            if i < a.len() {
                assert(front[i] == a[i]);
            } else {
                assert(front[i] == b[i - a.len()]);
            }
        }
    }
    assert(blank(back)) by {
        assert forall|i: int| 0 <= i < back.len() implies text::whitespace(#[trigger] back[i]) by {
            if minute.len() > 0 {
                assert(back[i] == d[i]);
            } else if i < c.len() {
                assert(back[i] == c[i]);
            } else {
                assert(back[i] == d[i - c.len()]);
            }
        }
    }
    if hour.len() > 0 {
        assert(core[0] == hour[0]);
    } else {
        assert(core[0] == ':');
    }
    if minute.len() > 0 {
        assert(core.last() == minute.last());
    } else {
        assert(core.last() == ':');
    }
    text::trimming_takes_the_ends_off(front, core, back);
    assert forall|i: int| 0 <= i < x.len() implies #[trigger] x[i] != ':' by {
        if i < hour.len() {
            assert(x[i] == hour[i]);
        } else {
            assert(x[i] == b[i - hour.len()]);
        }
    }
    lemma_colon(x, y);
    assert(clock::hour_part(core) =~= x);
    assert(clock::minute_part(core)->0 =~= y);
    if hour.len() > 0 {
        assert(x =~= none + hour + b);
        text::trimming_takes_the_ends_off(none, hour, b);
    } else {
        assert(x =~= none + hour + none);
        text::trimming_takes_the_ends_off(none, hour, none);
    }
    if minute.len() > 0 {
        assert(y =~= c + minute + none);
        text::trimming_takes_the_ends_off(c, minute, none);
    } else {
        assert(y =~= none + minute + none);
        text::trimming_takes_the_ends_off(none, minute, none);
    }
}

/// A text without a colon means eight o'clock.
pub proof fn no_colon_means_eight(s: Seq<char>)
    requires
        forall|i: int| 0 <= i < s.len() ==> #[trigger] s[i] != ':',
    ensures
        clock::hhmm(s) == (8nat, 0nat),
{
    let p = |c: char| text::whitespace(c);
    let u = text::trim_start_by(s, p);
    let t = text::trimmed(s);
    text::lemma_trim_start_suffix(s, p);
    text::lemma_trim_end_prefix(u, p);
    assert forall|i: int| 0 <= i < t.len() implies #[trigger] t[i] != ':' by {
        assert(t[i] == u[i]);
        assert(u[i] == s[s.len() - u.len() + i]);
    }
    lemma_colon(t, Seq::empty());
}

/// Every hour and minute of the day, written in digits, is read back.
pub proof fn times_of_day_are_read_back(hour: nat, minute: nat)
    requires
        hour < 24,
        minute < 60,
    ensures
        clock::hhmm(text::dec(hour) + seq![':'] + text::dec(minute)) == (hour, minute),
        clock::hhmm(clock::two(hour as int) + seq![':'] + clock::two(minute as int)) == (
            hour,
            minute,
        ),
{
    let none = Seq::<char>::empty();
    text::decimals_read_back(hour);
    text::decimals_read_back(minute);
    let h = text::dec(hour);
    let m = text::dec(minute);
    assert('0' <= h[0] <= '9' && '0' <= h[h.len() - 1] <= '9');
    assert('0' <= m[0] <= '9' && '0' <= m[m.len() - 1] <= '9');
    times_of_day_read_as_written(none, h, none, none, m, none);
    assert(none + h + none + seq![':'] + none + m + none =~= h + seq![':'] + m);
    let hh = clock::two(hour as int);
    let mm = clock::two(minute as int);
    lemma_two(hour);
    lemma_two(minute);
    times_of_day_read_as_written(none, hh, none, none, mm, none);
    assert(none + hh + none + seq![':'] + none + mm + none =~= hh + seq![':'] + mm);
}

proof fn lemma_two(n: nat)
    requires
        n < 100,
    ensures
        clock::two(n as int).len() == 2,
        '0' <= clock::two(n as int)[0] <= '9',
        '0' <= clock::two(n as int)[1] <= '9',
        text::digits_value(clock::two(n as int)) == n,
{
    let t = clock::two(n as int);
    reveal_with_fuel(text::digits_value, 3);
    assert(t.drop_last().drop_last() =~= Seq::empty());
    assert(t.drop_last().last() == t[0]);
}

proof fn lemma_year(year: i32)
    requires
        0 <= year <= 9999,
    ensures
        clock::year_text(year as int).len() == 4,
        text::digits_value(clock::year_text(year as int)) == year,
{
    let y = clock::year_text(year as int);
    let a = clock::two((year / 100) as int);
    let b = clock::two((year % 100) as int);
    lemma_two((year / 100) as nat);
    lemma_two((year % 100) as nat);
    assert(y == a + b);
    assert(y.drop_last().drop_last() =~= a);
    assert(b.drop_last().drop_last() =~= Seq::empty());
    assert(b.drop_last().last() == b[0]);
    assert(y.drop_last().last() == b[0]);
    reveal_with_fuel(text::digits_value, 3);
}

/// The stamp of a note shows the moment's fields in the places that they have
/// in `YYYY-MM-DD HH:MM`.
pub proof fn note_stamps_show_the_moment(t: LocalTime)
    requires
        t.is_real(),
        0 <= t.year <= 9999,
    ensures
        ({
            let s = clock::note_stamp_text(t);
            &&& s.len() == 16
            &&& text::digits_value(s.subrange(0, 4)) == t.year
            &&& s[4] == '-'
            &&& text::digits_value(s.subrange(5, 7)) == t.month
            &&& s[7] == '-'
            &&& text::digits_value(s.subrange(8, 10)) == t.day
            &&& s[10] == ' '
            &&& text::digits_value(s.subrange(11, 13)) == t.hour
            &&& s[13] == ':'
            &&& text::digits_value(s.subrange(14, 16)) == t.minute
        }),
{
    lemma_year(t.year);
    lemma_two(t.month as nat);
    lemma_two(t.day as nat);
    lemma_two(t.hour as nat);
    lemma_two(t.minute as nat);
    let s = clock::note_stamp_text(t);
    assert(s.subrange(0, 4) =~= clock::year_text(t.year as int));
    assert(s.subrange(5, 7) =~= clock::two(t.month as int));
    assert(s.subrange(8, 10) =~= clock::two(t.day as int));
    assert(s.subrange(11, 13) =~= clock::two(t.hour as int));
    assert(s.subrange(14, 16) =~= clock::two(t.minute as int));
}

/// The stamp in a file's name shows them in the places that they have in
/// `YYYYMMDD-HHMMSS`.
pub proof fn file_stamps_show_the_moment(t: LocalTime)
    requires
        t.is_real(),
        0 <= t.year <= 9999,
    ensures
        ({
            let s = clock::file_stamp_text(t);
            &&& s.len() == 15
            &&& text::digits_value(s.subrange(0, 4)) == t.year
            &&& text::digits_value(s.subrange(4, 6)) == t.month
            &&& text::digits_value(s.subrange(6, 8)) == t.day
            &&& s[8] == '-'
            &&& text::digits_value(s.subrange(9, 11)) == t.hour
            &&& text::digits_value(s.subrange(11, 13)) == t.minute
            &&& text::digits_value(s.subrange(13, 15)) == t.second
        }),
{
    lemma_year(t.year);
    lemma_two(t.month as nat);
    lemma_two(t.day as nat);
    lemma_two(t.hour as nat);
    lemma_two(t.minute as nat);
    lemma_two(t.second as nat);
    let f = clock::file_stamp_text(t);
    assert(f.subrange(0, 4) =~= clock::year_text(t.year as int));
    assert(f.subrange(4, 6) =~= clock::two(t.month as int));
    assert(f.subrange(6, 8) =~= clock::two(t.day as int));
    assert(f.subrange(9, 11) =~= clock::two(t.hour as int));
    assert(f.subrange(11, 13) =~= clock::two(t.minute as int));
    assert(f.subrange(13, 15) =~= clock::two(t.second as int));
}

/// The time of day in a status shows the hour and the minute.
pub proof fn clocks_show_the_moment(t: LocalTime)
    requires
        t.is_real(),
    ensures
        ({
            let s = clock::clock_text(t);
            &&& s.len() == 5
            &&& text::digits_value(s.subrange(0, 2)) == t.hour
            &&& s[2] == ':'
            &&& text::digits_value(s.subrange(3, 5)) == t.minute
        }),
{
    lemma_two(t.hour as nat);
    lemma_two(t.minute as nat);
    let c = clock::clock_text(t);
    assert(c.subrange(0, 2) =~= clock::two(t.hour as int));
    assert(c.subrange(3, 5) =~= clock::two(t.minute as int));
}

/// A note is one entry of a list: the stamp in brackets, the note as it stands,
/// and a line break.
pub proof fn notes_are_stamped_list_entries(t: LocalTime, note: Seq<char>)
    ensures
        ({
            let line = clock::note_line_text(t, note);
            let n = clock::note_stamp_text(t).len() as int;
            &&& line.len() == n + note.len() + 6
            &&& line[0] == '-' && line[1] == ' ' && line[2] == '['
            &&& line.subrange(3, 3 + n) == clock::note_stamp_text(t)
            &&& line[3 + n] == ']' && line[4 + n] == ' '
            &&& line.subrange(5 + n, 5 + n + note.len()) == note
            &&& line.last() == '\n'
        }),
{
    reveal_strlit("- [");
    reveal_strlit("] ");
    reveal_strlit("\n");
    let line = clock::note_line_text(t, note);
    let n = clock::note_stamp_text(t).len() as int;
    assert(line.subrange(3, 3 + n) =~= clock::note_stamp_text(t));
    assert(line.subrange(5 + n, 5 + n + note.len()) =~= note);
}

} // verus!
