//! Text as sequences of characters: trimming, searching, numbers in decimal.

use vstd::prelude::*;
use vstd::string::*;

verus! {

// ---- characters ----

/// Calls `String::push`. Claimed: the character is appended.
pub assume_specification[ String::push ](s: &mut String, c: char)
    ensures
        final(s)@ == old(s)@.push(c),
;

/// Whether Unicode gives `c` the property `White_Space`.
pub open spec fn whitespace(c: char) -> bool {
    let u = c as u32;
    ||| 0x09 <= u <= 0x0d
    ||| u == 0x20
    ||| u == 0x85
    ||| u == 0xa0
    ||| u == 0x1680
    ||| 0x2000 <= u <= 0x200a
    ||| u == 0x2028
    ||| u == 0x2029
    ||| u == 0x202f
    ||| u == 0x205f
    ||| u == 0x3000
}

/// Whether `c` is white space.
pub fn is_whitespace(c: char) -> (r: bool)
    ensures
        r == whitespace(c),
{
    let u: u32 = c as u32;
    (0x09 <= u && u <= 0x0d) || u == 0x20 || u == 0x85 || u == 0xa0 || u == 0x1680 || (0x2000 <= u
        && u <= 0x200a) || u == 0x2028 || u == 0x2029 || u == 0x202f || u == 0x205f || u == 0x3000
}

// ---- strings and vectors of characters ----

/// The text of an optional string.
pub open spec fn opt_text(s: Option<String>) -> Option<Seq<char>> {
    match s {
        Some(t) => Some(t@),
        None => None,
    }
}

/// The text of an optional string slice.
pub open spec fn opt_str(s: Option<&str>) -> Option<Seq<char>> {
    match s {
        Some(t) => Some(t@),
        None => None,
    }
}

/// The texts of a list of strings.
pub open spec fn texts(list: Seq<String>) -> Seq<Seq<char>> {
    list.map_values(|s: String| s@)
}

/// The characters of `s`.
pub fn chars_of(s: &str) -> (r: Vec<char>)
    ensures
        r@ == s@,
{
    let mut out: Vec<char> = Vec::new();
    for c in it: s.chars()
        invariant
            it.seq() == s@,
            out@ == s@.take(it.index()),
    {
        out.push(c);
        proof {
            assert(s@.take(it.index() + 1) =~= s@.take(it.index()).push(c));
        }
    }
    proof {
        assert(s@.take(s@.len() as int) =~= s@);
    }
    out
}

/// The characters from `from` up to `to` as a string.
pub fn text_between(chars: &Vec<char>, from: usize, to: usize) -> (r: String)
    requires
        from <= to <= chars@.len(),
    ensures
        r@ == chars@.subrange(from as int, to as int),
{
    let mut out = String::new();
    let mut i: usize = from;
    while i < to
        invariant
            from <= i <= to <= chars@.len(),
            out@ == chars@.subrange(from as int, i as int),
        decreases to - i,
    {
        out.push(chars[i]);
        proof {
            assert(chars@.subrange(from as int, i + 1) =~= chars@.subrange(
                from as int,
                i as int,
            ).push(chars@[i as int]));
        }
        i = i + 1;
    }
    out
}

/// Whether two strings are the same text.
pub fn same_text(a: &str, b: &str) -> (r: bool)
    ensures
        r == (a@ == b@),
{
    a.to_owned() == b.to_owned()
}

/// A copy of an optional string.
pub fn copy_opt(s: &Option<String>) -> (r: Option<String>)
    ensures
        opt_text(r) == opt_text(*s),
{
    match s {
        Some(t) => Some(t.clone()),
        None => None,
    }
}

// ---- trimming ----

/// `s` without the longest run of `p` at its start.
pub open spec fn trim_start_by(s: Seq<char>, p: spec_fn(char) -> bool) -> Seq<char>
    decreases s.len(),
{
    if s.len() > 0 && p(s[0]) {
        trim_start_by(s.drop_first(), p)
    } else {
        s
    }
}

/// `s` without the longest run of `p` at its end.
pub open spec fn trim_end_by(s: Seq<char>, p: spec_fn(char) -> bool) -> Seq<char>
    decreases s.len(),
{
    if s.len() > 0 && p(s.last()) {
        trim_end_by(s.drop_last(), p)
    } else {
        s
    }
}

/// Picks out the one character `x`.
pub open spec fn is_one(x: char) -> spec_fn(char) -> bool {
    |c: char| c == x
}

/// `s` without white space at either end.
pub open spec fn trimmed(s: Seq<char>) -> Seq<char> {
    trim_end_by(trim_start_by(s, |c: char| whitespace(c)), |c: char| whitespace(c))
}

/// `s` without the character `x` at its end.
pub open spec fn trim_end_char(s: Seq<char>, x: char) -> Seq<char> {
    trim_end_by(s, is_one(x))
}

/// `s` without the character `x` at either end.
pub open spec fn trim_char(s: Seq<char>, x: char) -> Seq<char> {
    trim_end_char(trim_start_by(s, is_one(x)), x)
}

/// The first index at or after `from` whose character is no white space.
fn skip_whitespace(chars: &Vec<char>, from: usize) -> (r: usize)
    requires
        from <= chars@.len(),
    ensures
        from <= r <= chars@.len(),
        trim_start_by(chars@.skip(from as int), |c: char| whitespace(c)) == chars@.skip(r as int),
{
    let mut i: usize = from;
    let ghost p = |c: char| whitespace(c);
    while i < chars.len() && is_whitespace(chars[i])
        invariant
            from <= i <= chars@.len(),
            p == (|c: char| whitespace(c)),
            trim_start_by(chars@.skip(from as int), p) == trim_start_by(chars@.skip(i as int), p),
        decreases chars@.len() - i,
    {
        proof {
            assert(p(chars@.skip(i as int)[0]));
            assert(chars@.skip(i as int).drop_first() =~= chars@.skip(i + 1));
        }
        i = i + 1;
    }
    proof {
        if i < chars@.len() {
            assert(!p(chars@.skip(i as int)[0]));
        }
    }
    i
}

/// The end of `chars[from..to]` without the white space it ends in.
fn back_over_whitespace(chars: &Vec<char>, from: usize, to: usize) -> (r: usize)
    requires
        from <= to <= chars@.len(),
    ensures
        from <= r <= to,
        trim_end_by(chars@.subrange(from as int, to as int), |c: char| whitespace(c))
            == chars@.subrange(from as int, r as int),
{
    let mut i: usize = to;
    let ghost p = |c: char| whitespace(c);
    while i > from && is_whitespace(chars[i - 1])
        invariant
            from <= i <= to <= chars@.len(),
            p == (|c: char| whitespace(c)),
            trim_end_by(chars@.subrange(from as int, to as int), p) == trim_end_by(
                chars@.subrange(from as int, i as int),
                p,
            ),
        decreases i,
    {
        proof {
            let s = chars@.subrange(from as int, i as int);
            assert(p(s.last()));
            assert(s.drop_last() =~= chars@.subrange(from as int, i - 1));
        }
        i = i - 1;
    }
    proof {
        if i > from {
            assert(!p(chars@.subrange(from as int, i as int).last()));
        }
    }
    i
}

/// `s` without white space at either end.
pub fn trim(s: &str) -> (r: String)
    ensures
        r@ == trimmed(s@),
{
    let chars = chars_of(s);
    let from: usize = skip_whitespace(&chars, 0);
    let to: usize = back_over_whitespace(&chars, from, chars.len());
    proof {
        assert(chars@.skip(0) =~= chars@);
        assert(chars@.skip(from as int) =~= chars@.subrange(from as int, chars@.len() as int));
    }
    text_between(&chars, from, to)
}

proof fn lemma_trim_start_run(before: Seq<char>, rest: Seq<char>, p: spec_fn(char) -> bool)
    requires
        forall|i: int| 0 <= i < before.len() ==> p(#[trigger] before[i]),
        rest.len() > 0 ==> !p(rest[0]),
    ensures
        trim_start_by(before + rest, p) == rest,
    decreases before.len(),
{
    let all = before + rest;
    if before.len() > 0 {
        assert(all[0] == before[0]);
        assert(all.drop_first() =~= before.drop_first() + rest);
        assert forall|i: int| 0 <= i < before.drop_first().len() implies p(
            #[trigger] before.drop_first()[i],
        ) by {
            assert(before.drop_first()[i] == before[i + 1]);
        }
        lemma_trim_start_run(before.drop_first(), rest, p);
    } else {
        assert(all =~= rest);
    }
}

proof fn lemma_trim_end_run(rest: Seq<char>, after: Seq<char>, p: spec_fn(char) -> bool)
    requires
        forall|i: int| 0 <= i < after.len() ==> p(#[trigger] after[i]),
        rest.len() > 0 ==> !p(rest.last()),
    ensures
        trim_end_by(rest + after, p) == rest,
    decreases after.len(),
{
    let all = rest + after;
    if after.len() > 0 {
        assert(all.last() == after.last());
        assert(p(after[after.len() - 1]));
        assert(all.drop_last() =~= rest + after.drop_last());
        assert forall|i: int| 0 <= i < after.drop_last().len() implies p(
            #[trigger] after.drop_last()[i],
        ) by {
            assert(after.drop_last()[i] == after[i]);
        }
        lemma_trim_end_run(rest, after.drop_last(), p);
    } else {
        assert(all =~= rest);
    }
}

/// What is left of a text whose start was trimmed is its end.
pub proof fn lemma_trim_start_suffix(s: Seq<char>, p: spec_fn(char) -> bool)
    ensures
        trim_start_by(s, p).len() <= s.len(),
        forall|i: int|
            0 <= i < trim_start_by(s, p).len() ==> #[trigger] trim_start_by(s, p)[i] == s[s.len()
                - trim_start_by(s, p).len() + i],
    decreases s.len(),
{
    if s.len() > 0 && p(s[0]) {
        lemma_trim_start_suffix(s.drop_first(), p);
    }
}

/// What is left of a text whose end was trimmed is its start.
pub proof fn lemma_trim_end_prefix(s: Seq<char>, p: spec_fn(char) -> bool)
    ensures
        trim_end_by(s, p).len() <= s.len(),
        forall|i: int|
            0 <= i < trim_end_by(s, p).len() ==> #[trigger] trim_end_by(s, p)[i] == s[i],
    decreases s.len(),
{
    if s.len() > 0 && p(s.last()) {
        lemma_trim_end_prefix(s.drop_last(), p);
    }
}

/// Trimming takes off the white space at both ends and nothing else: whatever
/// white space stands around a text that neither starts nor ends in any, the
/// text is what is left.
pub proof fn trimming_takes_the_ends_off(before: Seq<char>, core: Seq<char>, after: Seq<char>)
    requires
        forall|i: int| 0 <= i < before.len() ==> whitespace(#[trigger] before[i]),
        forall|i: int| 0 <= i < after.len() ==> whitespace(#[trigger] after[i]),
        core.len() > 0 ==> !whitespace(core[0]) && !whitespace(core.last()),
    ensures
        trimmed(before + core + after) == core,
{
    let p = |c: char| whitespace(c);
    if core.len() > 0 {
        assert(before + core + after =~= before + (core + after));
        assert((core + after)[0] == core[0]);
        lemma_trim_start_run(before, core + after, p);
        lemma_trim_end_run(core, after, p);
    } else {
        let all = before + core + after;
        assert(all =~= all + Seq::<char>::empty());
        assert forall|i: int| 0 <= i < all.len() implies p(#[trigger] all[i]) by {
            if i < before.len() {
                assert(all[i] == before[i]);
            } else {
                assert(all[i] == after[i - before.len()]);
            }
        }
        lemma_trim_start_run(all, Seq::empty(), p);
        lemma_trim_end_run(Seq::empty(), Seq::empty(), p);
        assert(Seq::<char>::empty() + Seq::<char>::empty() =~= Seq::<char>::empty());
        assert(core =~= Seq::empty());
    }
}

/// The same of one character at both ends.
pub proof fn characters_are_taken_off_the_ends(
    x: char,
    before: nat,
    core: Seq<char>,
    after: nat,
)
    requires
        core.len() > 0 ==> core[0] != x && core.last() != x,
        core.len() == 0 ==> after == 0,
    ensures
        trim_char(Seq::new(before, |i: int| x) + core + Seq::new(after, |i: int| x), x) == core,
{
    let p = is_one(x);
    let a = Seq::new(before, |i: int| x);
    let b = Seq::new(after, |i: int| x);
    assert(a + core + b =~= a + (core + b));
    assert forall|i: int| 0 <= i < a.len() implies p(#[trigger] a[i]) by {}
    assert forall|i: int| 0 <= i < b.len() implies p(#[trigger] b[i]) by {}
    if core.len() > 0 {
        assert((core + b)[0] == core[0]);
        assert(!p(core[0]) && !p(core.last()));
    } else {
        assert(core + b =~= Seq::empty());
    }
    lemma_trim_start_run(a, core + b, p);
    lemma_trim_end_run(core, b, p);
}

/// The end of `chars[from..to]` without the run of `x` it ends in.
fn back_over_char(chars: &Vec<char>, from: usize, to: usize, x: char) -> (r: usize)
    requires
        from <= to <= chars@.len(),
    ensures
        from <= r <= to,
        trim_end_char(chars@.subrange(from as int, to as int), x) == chars@.subrange(
            from as int,
            r as int,
        ),
{
    let mut i: usize = to;
    let ghost p = is_one(x);
    while i > from && chars[i - 1] == x
        invariant
            from <= i <= to <= chars@.len(),
            p == is_one(x),
            trim_end_by(chars@.subrange(from as int, to as int), p) == trim_end_by(
                chars@.subrange(from as int, i as int),
                p,
            ),
        decreases i,
    {
        proof {
            let s = chars@.subrange(from as int, i as int);
            assert(p(s.last()));
            assert(s.drop_last() =~= chars@.subrange(from as int, i - 1));
        }
        i = i - 1;
    }
    proof {
        if i > from {
            assert(!p(chars@.subrange(from as int, i as int).last()));
        }
    }
    i
}

/// `s` without the character `x` at its end.
pub fn trim_end_matches(s: &str, x: char) -> (r: String)
    ensures
        r@ == trim_end_char(s@, x),
{
    let chars = chars_of(s);
    let to: usize = back_over_char(&chars, 0, chars.len(), x);
    proof {
        assert(chars@.subrange(0, chars@.len() as int) =~= chars@);
    }
    text_between(&chars, 0, to)
}

/// `s` without the character `x` at either end.
pub fn trim_matches(s: &str, x: char) -> (r: String)
    ensures
        r@ == trim_char(s@, x),
{
    let chars = chars_of(s);
    let mut from: usize = 0;
    let ghost p = is_one(x);
    proof {
        assert(chars@.skip(0) =~= chars@);
    }
    while from < chars.len() && chars[from] == x
        invariant
            from <= chars@.len(),
            p == is_one(x),
            trim_start_by(chars@, p) == trim_start_by(chars@.skip(from as int), p),
        decreases chars@.len() - from,
    {
        proof {
            assert(p(chars@.skip(from as int)[0]));
            assert(chars@.skip(from as int).drop_first() =~= chars@.skip(from + 1));
        }
        from = from + 1;
    }
    proof {
        if from < chars@.len() {
            assert(!p(chars@.skip(from as int)[0]));
        }
        assert(chars@.skip(from as int) =~= chars@.subrange(from as int, chars@.len() as int));
    }
    let to: usize = back_over_char(&chars, from, chars.len(), x);
    text_between(&chars, from, to)
}

/// Whether `s` is nothing but white space.
pub fn is_blank(s: &str) -> (r: bool)
    ensures
        r == (trimmed(s@).len() == 0),
{
    let t = trim(s);
    t.as_str().is_empty()
}

// ---- splitting ----

/// The index just behind the last of the separators that `p` picks out; 0
/// where there is none.
pub open spec fn after_last(s: Seq<char>, p: spec_fn(char) -> bool) -> nat
    decreases s.len(),
{
    if s.len() == 0 {
        0
    } else if p(s.last()) {
        s.len()
    } else {
        after_last(s.drop_last(), p)
    }
}

/// What [`after_last`] says, index by index.
pub proof fn lemma_after_last(s: Seq<char>, p: spec_fn(char) -> bool)
    ensures
        after_last(s, p) <= s.len(),
        after_last(s, p) > 0 ==> p(s[after_last(s, p) - 1]),
        forall|i: int| after_last(s, p) <= i < s.len() ==> !p(#[trigger] s[i]),
    decreases s.len(),
{
    if s.len() > 0 && !p(s.last()) {
        lemma_after_last(s.drop_last(), p);
        assert forall|i: int| after_last(s, p) <= i < s.len() implies !p(#[trigger] s[i]) by {
            if i < s.len() - 1 {
                assert(s.drop_last()[i] == s[i]);
            }
        }
    }
}

// ---- numbers ----

/// The decimal digit `d`.
pub open spec fn digit(d: int) -> char {
    ('0' as u32 + d) as char
}

/// `n` in decimal, without leading zeros.
pub open spec fn dec(n: nat) -> Seq<char>
    decreases n,
{
    if n < 10 {
        seq![digit(n as int)]
    } else {
        dec(n / 10).push(digit((n % 10) as int))
    }
}

/// `n` in decimal, with a minus sign where it is negative.
pub open spec fn dec_int(n: int) -> Seq<char> {
    if n < 0 {
        seq!['-'] + dec((-n) as nat)
    } else {
        dec(n as nat)
    }
}

/// The character of a digit.
fn digit_char(d: u64) -> (r: char)
    requires
        d < 10,
    ensures
        r == digit(d as int),
{
    match d {
        0 => '0',
        1 => '1',
        2 => '2',
        3 => '3',
        4 => '4',
        5 => '5',
        6 => '6',
        7 => '7',
        8 => '8',
        _ => '9',
    }
}

/// `n` in decimal.
pub fn decimal(n: u64) -> (r: String)
    ensures
        r@ == dec(n as nat),
    decreases n,
{
    if n < 10 {
        let mut s = String::new();
        s.push(digit_char(n));
        proof {
            assert(s@ =~= seq![digit(n as int)]);
        }
        s
    } else {
        let mut s = decimal(n / 10);
        s.push(digit_char(n % 10));
        s
    }
}

/// `n` in decimal.
pub fn decimal_i64(n: i64) -> (r: String)
    ensures
        r@ == dec_int(n as int),
{
    if n < 0 {
        let magnitude: u64 = (-(n as i128)) as u64;
        let mut s = String::new();
        s.push('-');
        s.append(decimal(magnitude).as_str());
        proof {
            assert(s@ =~= seq!['-'] + dec((-n) as nat));
        }
        s
    } else {
        decimal(n as u64)
    }
}

/// Different digits are different characters.
pub proof fn lemma_digit_injective(a: int, b: int)
    requires
        0 <= a < 10,
        0 <= b < 10,
        digit(a) == digit(b),
    ensures
        a == b,
{
}

/// Every character of a decimal number is a digit.
pub proof fn lemma_dec_digits(n: nat)
    ensures
        dec(n).len() > 0,
        forall|i: int| 0 <= i < dec(n).len() ==> '0' <= #[trigger] dec(n)[i] <= '9',
    decreases n,
{
    if n >= 10 {
        lemma_dec_digits(n / 10);
    }
}

/// Different numbers have different decimal texts.
pub proof fn lemma_dec_injective(a: nat, b: nat)
    requires
        dec(a) == dec(b),
    ensures
        a == b,
    decreases a,
{
    lemma_dec_digits(a / 10);
    lemma_dec_digits(b / 10);
    if a < 10 && b < 10 {
        assert(dec(a) == seq![digit(a as int)]);
        assert(dec(b) == seq![digit(b as int)]);
        assert(dec(a)[0] == digit(a as int));
        assert(dec(b)[0] == digit(b as int));
        lemma_digit_injective(a as int, b as int);
    } else if a < 10 {
        assert(dec(b).len() >= 2);
    } else if b < 10 {
        assert(dec(a).len() >= 2);
    } else {
        assert(dec(a) == dec(a / 10).push(digit((a % 10) as int)));
        assert(dec(b) == dec(b / 10).push(digit((b % 10) as int)));
        assert(dec(a).last() == digit((a % 10) as int));
        assert(dec(b).last() == digit((b % 10) as int));
        lemma_digit_injective((a % 10) as int, (b % 10) as int);
        assert(dec(a).drop_last() =~= dec(a / 10));
        assert(dec(b).drop_last() =~= dec(b / 10));
        lemma_dec_injective(a / 10, b / 10);
    }
}

/// The value of a run of decimal digits.
pub open spec fn digits_value(s: Seq<char>) -> int
    decreases s.len(),
{
    if s.len() == 0 {
        0
    } else {
        10 * digits_value(s.drop_last()) + (s.last() as u32 as int - 48)
    }
}

/// What is written in decimal reads as the number that it was, and has no zero
/// in front.
pub proof fn decimals_read_back(n: nat)
    ensures
        digits_value(dec(n)) == n,
        dec(n).len() > 0,
        n > 0 ==> dec(n)[0] != '0',
        forall|i: int| 0 <= i < dec(n).len() ==> '0' <= #[trigger] dec(n)[i] <= '9',
    decreases n,
{
    lemma_dec_digits(n);
    if n < 10 {
        assert(dec(n) == seq![digit(n as int)]);
        assert(dec(n).drop_last() =~= Seq::empty());
        assert(digits_value(dec(n).drop_last()) == 0);
    } else {
        decimals_read_back(n / 10);
        assert(dec(n).drop_last() =~= dec(n / 10));
        assert(dec(n)[0] == dec(n / 10)[0]);
    }
}

/// A negative number has a minus sign in front of its size.
pub proof fn signs_are_written(n: int)
    ensures
        n >= 0 ==> dec_int(n) == dec(n as nat),
        n < 0 ==> dec_int(n) == seq!['-'] + dec((-n) as nat),
{
}

} // verus!
