//! Splitting a file into messages that Telegram takes.

use vstd::prelude::*;
use vstd::seq_lib::*;
use vstd::utf8::*;
use crate::text;

verus! {

/// Telegram caps a single text message at 4096 UTF-16 code units. Messages are
/// kept a little under that; the byte length of a text is never less than its
/// length in UTF-16, so a text of at most this many bytes is under the cap.
pub const TELEGRAM_MSG_LIMIT: usize = 4000;

/// Telegram's own cap on one message, in UTF-16 code units.
pub const TELEGRAM_UTF16_CAP: usize = 4096;

/// The bytes that `c` takes in UTF-8.
pub open spec fn width(c: char) -> nat {
    encode_scalar(c as u32).len()
}

/// The bytes that `s` takes in UTF-8.
pub open spec fn byte_len(s: Seq<char>) -> nat {
    encode_utf8(s).len()
}

/// The length of the first line of `s`, its line feed included.
pub open spec fn line_len(s: Seq<char>) -> nat
    decreases s.len(),
{
    if s.len() == 0 {
        0
    } else if s[0] == '\n' {
        1
    } else {
        1 + line_len(s.drop_first())
    }
}

/// How many characters at the start of `s` fit in `room` bytes.
pub open spec fn fitting(s: Seq<char>, room: int) -> nat
    decreases s.len(),
{
    if s.len() == 0 || width(s[0]) > room {
        0
    } else {
        1 + fitting(s.drop_first(), room - width(s[0]))
    }
}

/// A line cut into pieces, each as long as the limit allows.
pub open spec fn pieces(line: Seq<char>) -> Seq<Seq<char>>
    decreases line.len(),
{
    if byte_len(line) <= TELEGRAM_MSG_LIMIT {
        seq![line]
    } else {
        let k = fitting(line, TELEGRAM_MSG_LIMIT as int);
        proof {
            lemma_fitting_progress(line);
        }
        seq![line.take(k as int)] + pieces(line.skip(k as int))
    }
}

/// The messages for `rest`, where `cur` is waiting to be sent: lines are added
/// to it as long as they fit, and a line over the limit is cut.
pub open spec fn packed(rest: Seq<char>, cur: Seq<char>) -> Seq<Seq<char>>
    decreases rest.len(),
{
    if rest.len() == 0 {
        if cur.len() == 0 {
            seq![]
        } else {
            seq![cur]
        }
    } else {
        proof {
            lemma_line_len(rest);
        }
        let line = rest.take(line_len(rest) as int);
        let below = rest.skip(line_len(rest) as int);
        if byte_len(line) > TELEGRAM_MSG_LIMIT {
            let cut = pieces(line);
            let before = if cur.len() == 0 {
                seq![]
            } else {
                seq![cur]
            };
            before + cut.drop_last() + packed(below, cut.last())
        } else if byte_len(cur) + byte_len(line) > TELEGRAM_MSG_LIMIT {
            seq![cur] + packed(below, line)
        } else {
            packed(below, cur + line)
        }
    }
}

/// The messages that carry `text`.
pub open spec fn chunks(text: Seq<char>) -> Seq<Seq<char>> {
    packed(text, seq![])
}

// ---- lengths ----

pub proof fn lemma_width(c: char)
    ensures
        1 <= width(c) <= 4,
{
}

pub proof fn lemma_line_len(s: Seq<char>)
    ensures
        line_len(s) <= s.len(),
        s.len() > 0 ==> line_len(s) > 0,
    decreases s.len(),
{
    if s.len() > 0 {
        lemma_line_len(s.drop_first());
    }
}

proof fn lemma_encode_concat(a: Seq<char>, b: Seq<char>)
    ensures
        encode_utf8(a + b) == encode_utf8(a) + encode_utf8(b),
    decreases a.len(),
{
    if a.len() == 0 {
        assert(a + b =~= b);
        assert(encode_utf8(a) + encode_utf8(b) =~= encode_utf8(b));
    } else {
        assert((a + b).drop_first() =~= a.drop_first() + b);
        assert((a + b)[0] == a[0]);
        lemma_encode_concat(a.drop_first(), b);
        assert(encode_utf8(a + b) =~= encode_utf8(a) + encode_utf8(b));
    }
}

pub proof fn lemma_byte_len_concat(a: Seq<char>, b: Seq<char>)
    ensures
        byte_len(a + b) == byte_len(a) + byte_len(b),
{
    lemma_encode_concat(a, b);
}

proof fn lemma_byte_len_one(c: char)
    ensures
        byte_len(seq![c]) == width(c),
{
    reveal_with_fuel(encode_utf8, 2);
    assert(seq![c].drop_first() =~= Seq::<char>::empty());
    assert(encode_utf8(seq![c]) =~= encode_scalar(c as u32));
}

proof fn lemma_byte_len_bounds(s: Seq<char>)
    ensures
        s.len() <= byte_len(s) <= 4 * s.len(),
    decreases s.len(),
{
    if s.len() > 0 {
        lemma_byte_len_bounds(s.drop_first());
        lemma_width(s[0]);
    }
}

proof fn lemma_fitting(s: Seq<char>, room: int)
    requires
        room >= 0,
    ensures
        fitting(s, room) <= s.len(),
        byte_len(s.take(fitting(s, room) as int)) <= room,
    decreases s.len(),
{
    if s.len() == 0 || width(s[0]) > room {
        assert(s.take(0) =~= Seq::<char>::empty());
    } else {
        let rest = s.drop_first();
        let left = room - width(s[0]);
        lemma_fitting(rest, left);
        let k = fitting(rest, left);
        assert(s.take((k + 1) as int).drop_first() =~= rest.take(k as int));
        assert(s.take((k + 1) as int)[0] == s[0]);
    }
}

pub proof fn lemma_fitting_progress(line: Seq<char>)
    requires
        byte_len(line) > TELEGRAM_MSG_LIMIT,
    ensures
        0 < fitting(line, TELEGRAM_MSG_LIMIT as int) <= line.len(),
{
    lemma_fitting(line, TELEGRAM_MSG_LIMIT as int);
    lemma_width(line[0]);
}

// ---- the function ----

/// The bytes that `c` takes in UTF-8.
fn char_width(c: char) -> (r: u128)
    ensures
        r == width(c),
        1 <= r <= 4,
{
    let u: u32 = c as u32;
    if u <= 0x7f {
        1
    } else if u <= 0x7ff {
        2
    } else if u <= 0xffff {
        3
    } else {
        4
    }
}

/// Where the line that starts at `from` ends, and how many bytes it has.
fn scan_line(chars: &Vec<char>, from: usize) -> (r: (usize, u128))
    requires
        from < chars@.len(),
    ensures
        r.0 == from + line_len(chars@.skip(from as int)),
        from < r.0 <= chars@.len(),
        r.1 == byte_len(chars@.subrange(from as int, r.0 as int)),
        r.1 <= 4 * (r.0 - from),
{
    let mut i: usize = from;
    let mut bytes: u128 = 0;
    proof {
        assert(chars@.subrange(from as int, from as int) =~= Seq::<char>::empty());
    }
    while i < chars.len()
        invariant
            from <= i <= chars@.len(),
            bytes == byte_len(chars@.subrange(from as int, i as int)),
            bytes <= 4 * (i - from),
            line_len(chars@.skip(from as int)) == i - from + line_len(chars@.skip(i as int)),
        decreases chars@.len() - i,
    {
        let c: char = chars[i];
        proof {
            lemma_byte_len_concat(chars@.subrange(from as int, i as int), seq![c]);
            lemma_byte_len_one(c);
            assert(chars@.subrange(from as int, i as int) + seq![c] =~= chars@.subrange(
                from as int,
                i + 1,
            ));
            assert(chars@.skip(i as int).drop_first() =~= chars@.skip(i + 1));
        }
        bytes = bytes + char_width(c);
        i = i + 1;
        if c == '\n' {
            return (i, bytes);
        }
    }
    (i, bytes)
}

/// Where the longest piece that starts at `from` and fits the limit ends, and
/// how many bytes it has.
fn scan_piece(chars: &Vec<char>, from: usize, to: usize) -> (r: (usize, u128))
    requires
        from <= to <= chars@.len(),
        byte_len(chars@.subrange(from as int, to as int)) > TELEGRAM_MSG_LIMIT,
    ensures
        r.0 == from + fitting(chars@.subrange(from as int, to as int), TELEGRAM_MSG_LIMIT as int),
        from < r.0 <= to,
        r.1 == byte_len(chars@.subrange(from as int, r.0 as int)),
        r.1 <= TELEGRAM_MSG_LIMIT,
{
    let mut i: usize = from;
    let mut bytes: u128 = 0;
    proof {
        assert(chars@.subrange(from as int, from as int) =~= Seq::<char>::empty());
    }
    while i < to
        invariant
            from <= i <= to <= chars@.len(),
            bytes == byte_len(chars@.subrange(from as int, i as int)),
            bytes <= TELEGRAM_MSG_LIMIT,
            fitting(chars@.subrange(from as int, to as int), TELEGRAM_MSG_LIMIT as int) == i - from
                + fitting(chars@.subrange(i as int, to as int), TELEGRAM_MSG_LIMIT - bytes),
            byte_len(chars@.subrange(from as int, to as int)) > TELEGRAM_MSG_LIMIT,
        decreases to - i,
    {
        let c: char = chars[i];
        let w: u128 = char_width(c);
        proof {
            assert(chars@.subrange(i as int, to as int)[0] == c);
        }
        if bytes + w > TELEGRAM_MSG_LIMIT as u128 {
            proof {
                lemma_fitting_progress(chars@.subrange(from as int, to as int));
            }
            return (i, bytes);
        }
        proof {
            lemma_byte_len_concat(chars@.subrange(from as int, i as int), seq![c]);
            lemma_byte_len_one(c);
            assert(chars@.subrange(from as int, i as int) + seq![c] =~= chars@.subrange(
                from as int,
                i + 1,
            ));
            assert(chars@.subrange(i as int, to as int).drop_first() =~= chars@.subrange(
                i + 1,
                to as int,
            ));
        }
        bytes = bytes + w;
        i = i + 1;
    }
    (i, bytes)
}

/// The last piece of a line that is cut, and the pieces before it.
fn cut_line(chars: &Vec<char>, from: usize, to: usize, bytes: u128, out: &mut Vec<String>) -> (r: (
    usize,
    u128,
))
    requires
        from < to <= chars@.len(),
        bytes == byte_len(chars@.subrange(from as int, to as int)),
    ensures
        from <= r.0 < to,
        r.1 == byte_len(chars@.subrange(r.0 as int, to as int)),
        r.1 <= TELEGRAM_MSG_LIMIT,
        ({
            let cut = pieces(chars@.subrange(from as int, to as int));
            &&& cut.len() > 0
            &&& cut.last() == chars@.subrange(r.0 as int, to as int)
            &&& text::texts(final(out)@) == text::texts(old(out)@) + cut.drop_last()
        }),
{
    let ghost line = chars@.subrange(from as int, to as int);
    let ghost before = text::texts(out@);
    let mut at: usize = from;
    let mut left: u128 = bytes;
    proof {
        assert(before + pieces(line) =~= text::texts(out@) + pieces(line));
    }
    while left > TELEGRAM_MSG_LIMIT as u128
        invariant
            from <= at < to <= chars@.len(),
            line == chars@.subrange(from as int, to as int),
            left == byte_len(chars@.subrange(at as int, to as int)),
            before + pieces(line) == text::texts(out@) + pieces(
                chars@.subrange(at as int, to as int),
            ),
            before.len() <= out@.len(),
        decreases to - at,
    {
        let ghost here = chars@.subrange(at as int, to as int);
        let ghost done = text::texts(out@);
        let (end, used) = scan_piece(chars, at, to);
        out.push(text::text_between(chars, at, end));
        proof {
            let k = fitting(here, TELEGRAM_MSG_LIMIT as int);
            assert(here.take(k as int) =~= chars@.subrange(at as int, end as int));
            assert(here.skip(k as int) =~= chars@.subrange(end as int, to as int));
            assert(text::texts(out@) =~= done.push(here.take(k as int)));
            assert(done + (seq![here.take(k as int)] + pieces(here.skip(k as int)))
                =~= text::texts(out@) + pieces(here.skip(k as int)));
            lemma_byte_len_concat(here.take(k as int), here.skip(k as int));
            assert(here.take(k as int) + here.skip(k as int) =~= here);
            lemma_byte_len_bounds(here.skip(k as int));
        }
        left = left - used;
        at = end;
    }
    proof {
        let last = chars@.subrange(at as int, to as int);
        let cut = pieces(line);
        assert(pieces(last) == seq![last]);
        let whole = before + cut;
        assert(whole == text::texts(out@) + seq![last]);
        assert(whole.len() == out@.len() + 1);
        assert(cut.len() > 0);
        assert(cut.last() == whole.last());
        assert(whole.drop_last() =~= text::texts(out@));
        assert(whole.drop_last() =~= before + cut.drop_last());
    }
    (at, left)
}

/// Split text into Telegram-sized chunks, preferring line boundaries so the
/// content stays readable. A single line longer than the limit is cut between
/// characters.
pub fn chunk_text(content: &str) -> (r: Vec<String>)
    ensures
        text::texts(r@) == chunks(content@),
{
    let chars = text::chars_of(content);
    let mut out: Vec<String> = Vec::new();
    let mut start: usize = 0;
    let mut pos: usize = 0;
    let mut waiting: u128 = 0;
    proof {
        assert(chars@.skip(0) =~= chars@);
        assert(chars@.subrange(0, 0) =~= Seq::<char>::empty());
        assert(text::texts(out@) + chunks(chars@) =~= chunks(chars@));
    }
    while pos < chars.len()
        invariant
            start <= pos <= chars@.len(),
            waiting == byte_len(chars@.subrange(start as int, pos as int)),
            waiting <= TELEGRAM_MSG_LIMIT,
            chunks(chars@) == text::texts(out@) + packed(
                chars@.skip(pos as int),
                chars@.subrange(start as int, pos as int),
            ),
        decreases chars@.len() - pos,
    {
        let ghost rest = chars@.skip(pos as int);
        let ghost cur = chars@.subrange(start as int, pos as int);
        let ghost done = text::texts(out@);
        let (end, bytes) = scan_line(&chars, pos);
        let ghost line = chars@.subrange(pos as int, end as int);
        let ghost below = chars@.skip(end as int);
        proof {
            assert(rest.take(line_len(rest) as int) =~= line);
            assert(rest.skip(line_len(rest) as int) =~= below);
            lemma_byte_len_bounds(line);
            lemma_byte_len_bounds(cur);
        }
        if bytes > TELEGRAM_MSG_LIMIT as u128 {
            if start < pos {
                out.push(text::text_between(&chars, start, pos));
            }
            let ghost cut = pieces(line);
            let ghost opened = text::texts(out@);
            proof {
                if start < pos {
                    assert(opened =~= done + seq![cur]);
                } else {
                    assert(opened =~= done + Seq::<Seq<char>>::empty());
                }
            }
            let (at, left) = cut_line(&chars, pos, end, bytes, &mut out);
            start = at;
            waiting = left;
            proof {
                let before = if cur.len() == 0 {
                    seq![]
                } else {
                    seq![cur]
                };
                assert(opened == done + before);
                assert(done + (before + cut.drop_last() + packed(below, cut.last()))
                    =~= text::texts(out@) + packed(below, cut.last()));
            }
        } else if waiting + bytes > TELEGRAM_MSG_LIMIT as u128 {
            out.push(text::text_between(&chars, start, pos));
            start = pos;
            waiting = bytes;
            proof {
                assert(text::texts(out@) =~= done.push(cur));
                assert(done + (seq![cur] + packed(below, line)) =~= text::texts(out@) + packed(
                    below,
                    line,
                ));
            }
        } else {
            waiting = waiting + bytes;
            proof {
                lemma_byte_len_concat(cur, line);
                assert(cur + line =~= chars@.subrange(start as int, end as int));
            }
        }
        pos = end;
    }
    let ghost done = text::texts(out@);
    let ghost cur = chars@.subrange(start as int, pos as int);
    if start < chars.len() {
        out.push(text::text_between(&chars, start, chars.len()));
        proof {
            assert(text::texts(out@) =~= done + seq![cur]);
        }
    } else {
        proof {
            assert(done + Seq::<Seq<char>>::empty() =~= done);
        }
    }
    out
}

// ---- what the chunks promise ----

/// The code units that `s` takes in UTF-16.
pub open spec fn utf16_len(s: Seq<char>) -> nat
    decreases s.len(),
{
    if s.len() == 0 {
        0
    } else {
        let first: nat = if s[0] as u32 <= 0xffff {
            1
        } else {
            2
        };
        first + utf16_len(s.drop_first())
    }
}

proof fn lemma_utf16_below_utf8(s: Seq<char>)
    ensures
        utf16_len(s) <= byte_len(s),
    decreases s.len(),
{
    if s.len() > 0 {
        lemma_utf16_below_utf8(s.drop_first());
        lemma_width(s[0]);
    }
}

/// What [`pieces`] keeps: nothing is lost, every piece is within the limit, and
/// none is empty.
proof fn lemma_pieces(line: Seq<char>)
    ensures
        pieces(line).len() > 0,
        pieces(line).flatten() == line,
        forall|i: int|
            0 <= i < pieces(line).len() ==> byte_len(#[trigger] pieces(line)[i])
                <= TELEGRAM_MSG_LIMIT,
        line.len() > 0 ==> forall|i: int|
            0 <= i < pieces(line).len() ==> (#[trigger] pieces(line)[i]).len() > 0,
    decreases line.len(),
{
    let all = pieces(line);
    if byte_len(line) <= TELEGRAM_MSG_LIMIT {
        all.lemma_flatten_one_element();
    } else {
        let k = fitting(line, TELEGRAM_MSG_LIMIT as int);
        lemma_fitting_progress(line);
        lemma_fitting(line, TELEGRAM_MSG_LIMIT as int);
        let head = line.take(k as int);
        let tail = line.skip(k as int);
        lemma_pieces(tail);
        assert(head + tail =~= line);
        lemma_byte_len_concat(head, tail);
        lemma_byte_len_bounds(tail);
        assert(all.drop_first() =~= pieces(tail));
        assert(all.first() == head);
        assert forall|i: int| 0 <= i < all.len() implies byte_len(#[trigger] all[i])
            <= TELEGRAM_MSG_LIMIT && all[i].len() > 0 by {
            if i > 0 {
                assert(all[i] == pieces(tail)[i - 1]);
            }
        }
    }
}

/// What [`packed`] keeps, with `cur` in front.
proof fn lemma_packed(rest: Seq<char>, cur: Seq<char>)
    requires
        byte_len(cur) <= TELEGRAM_MSG_LIMIT,
    ensures
        packed(rest, cur).flatten() == cur + rest,
        forall|i: int|
            0 <= i < packed(rest, cur).len() ==> byte_len(#[trigger] packed(rest, cur)[i])
                <= TELEGRAM_MSG_LIMIT && packed(rest, cur)[i].len() > 0,
    decreases rest.len(),
{
    let all = packed(rest, cur);
    if rest.len() == 0 {
        if cur.len() > 0 {
            all.lemma_flatten_one_element();
        }
        assert(cur + rest =~= cur);
        assert(all.flatten() =~= cur);
    } else {
        lemma_line_len(rest);
        let line = rest.take(line_len(rest) as int);
        let below = rest.skip(line_len(rest) as int);
        assert(line + below =~= rest);
        if byte_len(line) > TELEGRAM_MSG_LIMIT {
            let cut = pieces(line);
            let before = if cur.len() == 0 {
                seq![]
            } else {
                seq![cur]
            };
            lemma_pieces(line);
            lemma_packed(below, cut.last());
            let tail = packed(below, cut.last());
            before.lemma_flatten_one_element();
            assert(before.flatten() =~= cur);
            assert(cut =~= cut.drop_last().push(cut.last()));
            cut.drop_last().lemma_flatten_push(cut.last());
            lemma_flatten_concat(before, cut.drop_last());
            lemma_flatten_concat(before + cut.drop_last(), tail);
            assert(all.flatten() =~= cur + rest);
            assert forall|i: int| 0 <= i < all.len() implies byte_len(#[trigger] all[i])
                <= TELEGRAM_MSG_LIMIT && all[i].len() > 0 by {
                if i < before.len() {
                    assert(all[i] == cur);
                } else if i < before.len() + cut.len() - 1 {
                    assert(all[i] == cut[i - before.len()]);
                } else {
                    assert(all[i] == tail[i - before.len() - (cut.len() - 1)]);
                }
            }
        } else if byte_len(cur) + byte_len(line) > TELEGRAM_MSG_LIMIT {
            lemma_packed(below, line);
            let tail = packed(below, line);
            seq![cur].lemma_flatten_one_element();
            lemma_flatten_concat(seq![cur], tail);
            assert(all.flatten() =~= cur + rest);
            assert(cur.len() > 0);
            assert forall|i: int| 0 <= i < all.len() implies byte_len(#[trigger] all[i])
                <= TELEGRAM_MSG_LIMIT && all[i].len() > 0 by {
                if i > 0 {
                    assert(all[i] == tail[i - 1]);
                }
            }
        } else {
            lemma_byte_len_concat(cur, line);
            lemma_packed(below, cur + line);
            assert((cur + line) + below =~= cur + rest);
        }
    }
}

/// Concatenating the chunks reproduces the text exactly.
pub proof fn chunks_reproduce_the_text(content: Seq<char>)
    ensures
        chunks(content).flatten() == content,
{
    lemma_packed(content, seq![]);
    assert(seq![] + content =~= content);
}

/// No chunk is empty, and none is over the limit, in bytes or as Telegram
/// counts.
pub proof fn chunks_fit_a_message(content: Seq<char>)
    ensures
        forall|i: int|
            0 <= i < chunks(content).len() ==> (#[trigger] chunks(content)[i]).len() > 0
                && byte_len(chunks(content)[i]) <= TELEGRAM_MSG_LIMIT && utf16_len(
                chunks(content)[i],
            ) <= TELEGRAM_UTF16_CAP,
{
    lemma_packed(content, seq![]);
    assert forall|i: int| 0 <= i < chunks(content).len() implies (#[trigger] chunks(
        content,
    )[i]).len() > 0 && byte_len(chunks(content)[i]) <= TELEGRAM_MSG_LIMIT && utf16_len(
        chunks(content)[i],
    ) <= TELEGRAM_UTF16_CAP by {
        lemma_utf16_below_utf8(chunks(content)[i]);
    }
}

/// Whether every line of `s` fits a message by itself.
pub open spec fn lines_fit(s: Seq<char>) -> bool
    decreases s.len(),
{
    if s.len() == 0 {
        true
    } else {
        proof {
            lemma_line_len(s);
        }
        &&& byte_len(s.take(line_len(s) as int)) <= TELEGRAM_MSG_LIMIT
        &&& lines_fit(s.skip(line_len(s) as int))
    }
}

proof fn lemma_line_ends(s: Seq<char>)
    requires
        s.len() > 0,
        line_len(s) < s.len(),
    ensures
        line_len(s) > 0,
        s[line_len(s) - 1] == '\n',
    decreases s.len(),
{
    if s[0] != '\n' {
        lemma_line_ends(s.drop_first());
    }
}

proof fn lemma_packed_at_lines(rest: Seq<char>, cur: Seq<char>)
    requires
        lines_fit(rest),
        rest.len() > 0 && cur.len() > 0 ==> cur.last() == '\n',
        byte_len(cur) <= TELEGRAM_MSG_LIMIT,
    ensures
        forall|i: int|
            0 <= i < packed(rest, cur).len() - 1 ==> (#[trigger] packed(rest, cur)[i]).len() > 0
                && packed(rest, cur)[i].last() == '\n',
    decreases rest.len(),
{
    let all = packed(rest, cur);
    if rest.len() > 0 {
        lemma_line_len(rest);
        let n = line_len(rest);
        let line = rest.take(n as int);
        let below = rest.skip(n as int);
        if n < rest.len() {
            lemma_line_ends(rest);
            assert(line.last() == rest[n - 1]);
        }
        if byte_len(cur) + byte_len(line) > TELEGRAM_MSG_LIMIT {
            lemma_packed_at_lines(below, line);
            let tail = packed(below, line);
            lemma_byte_len_bounds(cur);
            assert(all =~= seq![cur] + tail);
            assert forall|i: int| 0 <= i < all.len() - 1 implies (#[trigger] all[i]).len() > 0
                && all[i].last() == '\n' by {
                if i > 0 {
                    assert(all[i] == tail[i - 1]);
                }
            }
        } else {
            lemma_byte_len_concat(cur, line);
            lemma_packed_at_lines(below, cur + line);
            assert(all == packed(below, cur + line));
        }
    }
}

/// Where every line fits a message, the text is cut at line ends only.
pub proof fn chunks_end_at_line_ends(content: Seq<char>)
    requires
        lines_fit(content),
    ensures
        forall|i: int|
            0 <= i < chunks(content).len() - 1 ==> (#[trigger] chunks(content)[i]).len() > 0
                && chunks(content)[i].last() == '\n',
{
    lemma_packed_at_lines(content, seq![]);
}

// ---- where the text is cut ----

/// Whether `s` holds no line feed.
pub open spec fn one_line(s: Seq<char>) -> bool {
    forall|i: int| 0 <= i < s.len() ==> #[trigger] s[i] != '\n'
}

/// Whether `end` is where the first line of `s` ends, its line feed included.
pub open spec fn first_line_ends(s: Seq<char>, end: int) -> bool {
    &&& 0 < end <= s.len()
    &&& one_line(s.take(end - 1))
    &&& s[end - 1] == '\n' || end == s.len()
}

/// Whether a message is as long as it can be where `rest` follows it: the next
/// line would not fit, and a message that ends within a line is nothing but a
/// part of that line, and has no room for the next character.
pub open spec fn is_full(message: Seq<char>, rest: Seq<char>) -> bool {
    &&& rest.len() > 0
    &&& message.len() > 0
    &&& forall|end: int|
        first_line_ends(rest, end) ==> encode_utf8(message).len() + encode_utf8(
            #[trigger] rest.take(end),
        ).len() > 4000
    &&& message.last() != '\n' ==> {
        &&& one_line(message)
        &&& encode_utf8(message).len() + encode_scalar(rest[0] as u32).len() > 4000
    }
}

/// Whether that holds of every message of a list but the last.
pub open spec fn all_full(list: Seq<Seq<char>>) -> bool {
    forall|i: int| 0 <= i < list.len() - 1 ==> is_full(#[trigger] list[i], list.skip(i + 1).flatten())
}

proof fn lemma_first_line(s: Seq<char>, end: int)
    requires
        first_line_ends(s, end),
    ensures
        end == line_len(s),
    decreases s.len(),
{
    if s[0] == '\n' {
        if end > 1 {
            assert(s.take(end - 1)[0] == '\n');
        }
    } else {
        let t = s.drop_first();
        if end == 1 {
            assert(s.len() == 1);
            assert(line_len(t) == 0);
        } else {
            assert forall|i: int| 0 <= i < t.take(end - 2).len() implies #[trigger] t.take(
                end - 2,
            )[i] != '\n' by {
                assert(t.take(end - 2)[i] == s.take(end - 1)[i + 1]);
            }
            assert(t[end - 2] == s[end - 1]);
            lemma_first_line(t, end - 1);
        }
    }
}

proof fn lemma_line_inside(s: Seq<char>)
    requires
        s.len() > 0,
    ensures
        one_line(s.take(line_len(s) - 1)),
    decreases s.len(),
{
    let front = s.take(line_len(s) - 1);
    if s[0] != '\n' {
        let t = s.drop_first();
        if t.len() > 0 {
            lemma_line_inside(t);
            lemma_line_len(t);
            assert forall|i: int| 0 <= i < front.len() implies #[trigger] front[i] != '\n' by {
                if i > 0 {
                    assert(front[i] == t.take(line_len(t) - 1)[i - 1]);
                }
            }
        }
    }
}

/// What is one character short of fitting is more than the room.
proof fn lemma_fitting_is_most(s: Seq<char>, room: int)
    requires
        room >= 0,
        fitting(s, room) < s.len(),
    ensures
        byte_len(s.take(fitting(s, room) as int)) + width(s[fitting(s, room) as int]) > room,
    decreases s.len(),
{
    if width(s[0]) > room {
        assert(s.take(0) =~= Seq::<char>::empty());
    } else {
        let rest = s.drop_first();
        let left = room - width(s[0]);
        lemma_fitting_is_most(rest, left);
        let k = fitting(rest, left);
        assert(s.take((k + 1) as int).drop_first() =~= rest.take(k as int));
        assert(s.take((k + 1) as int)[0] == s[0]);
        assert(rest[k as int] == s[(k + 1) as int]);
    }
}

/// A message without room for the next character has none for the next line.
proof fn lemma_full_within_a_line(message: Seq<char>, rest: Seq<char>)
    requires
        rest.len() > 0,
        message.len() > 0,
        one_line(message),
        byte_len(message) + width(rest[0]) > TELEGRAM_MSG_LIMIT,
    ensures
        is_full(message, rest),
{
    assert forall|end: int| first_line_ends(rest, end) implies encode_utf8(message).len()
        + encode_utf8(#[trigger] rest.take(end)).len() > 4000 by {
        let line = rest.take(end);
        assert(line =~= seq![rest[0]] + line.skip(1));
        lemma_byte_len_concat(seq![rest[0]], line.skip(1));
        lemma_byte_len_one(rest[0]);
    }
}

/// A message that ends in a line end is full where the next line does not fit.
proof fn lemma_full_at_a_line_end(message: Seq<char>, rest: Seq<char>)
    requires
        rest.len() > 0,
        message.len() > 0,
        message.last() == '\n',
        byte_len(message) + byte_len(rest.take(line_len(rest) as int)) > TELEGRAM_MSG_LIMIT,
    ensures
        is_full(message, rest),
{
    assert forall|end: int| first_line_ends(rest, end) implies encode_utf8(message).len()
        + encode_utf8(#[trigger] rest.take(end)).len() > 4000 by {
        lemma_first_line(rest, end);
    }
}

/// Every piece of a line but the last is full, whatever follows the line.
proof fn lemma_pieces_are_full(line: Seq<char>, below: Seq<char>)
    requires
        line.len() > 0,
        one_line(line.drop_last()),
    ensures
        forall|i: int|
            0 <= i < pieces(line).len() - 1 ==> is_full(
                #[trigger] pieces(line)[i],
                pieces(line).skip(i + 1).flatten() + below,
            ),
        pieces(line).last().len() > 0,
        pieces(line).last().last() == line.last(),
    decreases line.len(),
{
    let all = pieces(line);
    if byte_len(line) > TELEGRAM_MSG_LIMIT {
        let k = fitting(line, TELEGRAM_MSG_LIMIT as int);
        lemma_fitting_progress(line);
        lemma_fitting(line, TELEGRAM_MSG_LIMIT as int);
        let head = line.take(k as int);
        let tail = line.skip(k as int);
        if k == line.len() {
            assert(head =~= line);
        }
        lemma_fitting_is_most(line, TELEGRAM_MSG_LIMIT as int);
        assert forall|i: int| 0 <= i < tail.drop_last().len() implies #[trigger] tail.drop_last()[i]
            != '\n' by {
            assert(tail.drop_last()[i] == line.drop_last()[i + k]);
        }
        lemma_pieces_are_full(tail, below);
        lemma_pieces(tail);
        assert(all.drop_first() =~= pieces(tail));
        assert(all.last() == pieces(tail).last());
        assert forall|i: int| 0 <= i < all.len() - 1 implies is_full(
            #[trigger] all[i],
            all.skip(i + 1).flatten() + below,
        ) by {
            if i == 0 {
                assert(all.skip(1) =~= pieces(tail));
                assert(one_line(head)) by {
                    assert forall|j: int| 0 <= j < head.len() implies #[trigger] head[j] != '\n' by {
                        assert(head[j] == line.drop_last()[j]);
                    }
                }
                assert((tail + below)[0] == line[k as int]);
                lemma_full_within_a_line(head, tail + below);
            } else {
                assert(all[i] == pieces(tail)[i - 1]);
                assert(all.skip(i + 1) =~= pieces(tail).skip(i));
            }
        }
    }
}

/// A list whose end is full is full where its start is.
proof fn lemma_full_lists(front: Seq<Seq<char>>, list: Seq<Seq<char>>)
    requires
        all_full(list),
        list.len() > 0,
        forall|i: int|
            0 <= i < front.len() ==> is_full(
                #[trigger] front[i],
                front.skip(i + 1).flatten() + list.flatten(),
            ),
    ensures
        all_full(front + list),
{
    let all = front + list;
    assert forall|i: int| 0 <= i < all.len() - 1 implies is_full(
        #[trigger] all[i],
        all.skip(i + 1).flatten(),
    ) by {
        if i < front.len() {
            assert(all[i] == front[i]);
            assert(all.skip(i + 1) =~= front.skip(i + 1) + list);
            lemma_flatten_concat(front.skip(i + 1), list);
        } else {
            let j = i - front.len();
            assert(all[i] == list[j]);
            assert(all.skip(i + 1) =~= list.skip(j + 1));
        }
    }
}

proof fn lemma_packed_is_full(rest: Seq<char>, cur: Seq<char>)
    requires
        rest.len() > 0 && cur.len() > 0 ==> cur.last() == '\n',
        byte_len(cur) <= TELEGRAM_MSG_LIMIT,
    ensures
        all_full(packed(rest, cur)),
        cur.len() + rest.len() > 0 ==> packed(rest, cur).len() > 0,
    decreases rest.len(),
{
    let all = packed(rest, cur);
    if rest.len() > 0 {
        lemma_line_len(rest);
        lemma_line_inside(rest);
        let n = line_len(rest);
        let line = rest.take(n as int);
        let below = rest.skip(n as int);
        assert(line + below =~= rest);
        assert(line.drop_last() =~= rest.take(n - 1));
        if n < rest.len() {
            lemma_line_ends(rest);
            assert(line.last() == rest[n - 1]);
        }
        if byte_len(line) > TELEGRAM_MSG_LIMIT {
            let cut = pieces(line);
            let before = if cur.len() == 0 {
                seq![]
            } else {
                seq![cur]
            };
            lemma_pieces(line);
            lemma_pieces_are_full(line, below);
            let tail = packed(below, cut.last());
            lemma_packed_is_full(below, cut.last());
            lemma_packed(below, cut.last());
            let front = before + cut.drop_last();
            assert(cut =~= cut.drop_last().push(cut.last()));
            assert forall|i: int| 0 <= i < front.len() implies is_full(
                #[trigger] front[i],
                front.skip(i + 1).flatten() + tail.flatten(),
            ) by {
                let j = i - before.len();
                assert(front.skip(i + 1).flatten() + tail.flatten() == cut.skip(j + 1).flatten()
                    + below) by {
                    let some = cut.drop_last().skip(j + 1);
                    assert(front.skip(i + 1) =~= some);
                    assert(cut.skip(j + 1) =~= some.push(cut.last()));
                    some.lemma_flatten_push(cut.last());
                    assert(some.flatten() + (cut.last() + below) =~= (some.flatten() + cut.last())
                        + below);
                }
                if i < before.len() {
                    assert(front[i] == cur);
                    assert(cut.skip(0) =~= cut);
                    lemma_full_at_a_line_end(cur, rest);
                } else {
                    assert(front[i] == cut[j]);
                }
            }
            lemma_full_lists(front, tail);
        } else if byte_len(cur) + byte_len(line) > TELEGRAM_MSG_LIMIT {
            let tail = packed(below, line);
            lemma_packed_is_full(below, line);
            lemma_packed(below, line);
            lemma_byte_len_bounds(cur);
            let front = seq![cur];
            assert forall|i: int| 0 <= i < front.len() implies is_full(
                #[trigger] front[i],
                front.skip(i + 1).flatten() + tail.flatten(),
            ) by {
                assert(front.skip(1) =~= Seq::empty());
                assert(front.skip(1).flatten() + tail.flatten() =~= rest);
                lemma_full_at_a_line_end(cur, rest);
            }
            lemma_full_lists(front, tail);
        } else {
            lemma_byte_len_concat(cur, line);
            assert((cur + line).last() == line.last());
            lemma_packed_is_full(below, cur + line);
        }
    }
}

/// No message is cut early: each takes as many whole lines as fit, and a line
/// is cut only where it does not fit a message, after as many of its characters
/// as do.
pub proof fn chunks_are_as_long_as_they_can_be(content: Seq<char>)
    ensures
        ({
            let list = chunks(content);
            &&& list.flatten() == content
            &&& forall|i: int|
                0 <= i < list.len() ==> encode_utf8(#[trigger] list[i]).len() <= 4000
                    && list[i].len() > 0
            &&& all_full(list)
        }),
{
    chunks_reproduce_the_text(content);
    lemma_packed(content, seq![]);
    lemma_packed_is_full(content, seq![]);
}

} // verus!
