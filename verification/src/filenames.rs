//! Names for saved files.

use vstd::prelude::*;
use vstd::string::*;
use crate::clock;
use crate::clock::LocalTime;
use crate::paths;
use crate::text;

verus! {

/// Whether Unicode counts `c`, which is neither an ASCII character nor white
/// space, as alphabetic or numeric.
pub uninterp spec fn alphanumeric(c: char) -> bool;

/// Calls `char::is_alphanumeric`. Claimed: of the ASCII characters it picks the
/// letters and the digits; of the others it picks no white space, which is
/// neither alphabetic nor in a category of numbers, and for the rest it is a
/// function of the character.
pub assume_specification[ char::is_alphanumeric ](c: char) -> (r: bool)
    ensures
        c as u32 <= 0x7f ==> r == ('0' <= c <= '9' || 'A' <= c <= 'Z' || 'a' <= c <= 'z'),
        c as u32 > 0x7f && text::whitespace(c) ==> !r,
        c as u32 > 0x7f && !text::whitespace(c) ==> r == alphanumeric(c),
;

/// Whether `c` is a letter or a digit of any script.
pub open spec fn letter_or_digit(c: char) -> bool {
    if c as u32 <= 0x7f {
        '0' <= c <= '9' || 'A' <= c <= 'Z' || 'a' <= c <= 'z'
    } else {
        !text::whitespace(c) && alphanumeric(c)
    }
}

// ---- safe names ----

/// Picks out what separates directories on any system.
pub open spec fn slash() -> spec_fn(char) -> bool {
    |c: char| c == '/' || c == '\\'
}

/// What follows the last separator of `s`.
pub open spec fn tail_name(s: Seq<char>) -> Seq<char> {
    s.skip(text::after_last(s, slash()) as int)
}

/// Whether `c` is kept in a file name.
pub open spec fn safe(c: char) -> bool {
    letter_or_digit(c) || c == '.' || c == '-' || c == '_' || c == ' '
}

/// `c` where it is kept, else an underscore.
pub open spec fn safe_char(c: char) -> char {
    if safe(c) {
        c
    } else {
        '_'
    }
}

/// A name with its unsafe characters replaced.
pub open spec fn cleaned(s: Seq<char>) -> Seq<char> {
    s.map_values(|c: char| safe_char(c))
}

/// What [`sanitize_filename`] makes of a name.
pub open spec fn sanitized(name: Seq<char>) -> Seq<char> {
    let t = text::trim_char(text::trimmed(cleaned(tail_name(name))), '.');
    if t.len() == 0 {
        "file"@
    } else {
        t
    }
}

/// Where the name behind the last separator starts.
fn find_tail(chars: &Vec<char>) -> (r: usize)
    ensures
        r == text::after_last(chars@, slash()),
        r <= chars@.len(),
{
    let mut at: usize = chars.len();
    proof {
        assert(chars@.take(chars@.len() as int) =~= chars@);
    }
    while at > 0 && chars[at - 1] != '/' && chars[at - 1] != '\\'
        invariant
            at <= chars@.len(),
            text::after_last(chars@, slash()) == text::after_last(chars@.take(at as int), slash()),
        decreases at,
    {
        proof {
            let shorter = chars@.take(at as int);
            assert(shorter.last() == chars@[at - 1]);
            assert(!slash()(shorter.last()));
            assert(shorter.drop_last() =~= chars@.take(at - 1));
        }
        at = at - 1;
    }
    proof {
        let shorter = chars@.take(at as int);
        if at > 0 {
            assert(shorter.last() == chars@[at - 1]);
            assert(slash()(shorter.last()));
        }
    }
    at
}

/// Strip anything that isn't a safe filename character. Names that come with a
/// message can contain path separators or other surprises, so only a basename
/// and a conservative character set are kept.
pub fn sanitize_filename(name: &str) -> (r: String)
    ensures
        r@ == sanitized(name@),
{
    let chars = text::chars_of(name);
    let from: usize = find_tail(&chars);
    let mut clean = String::new();
    let mut i: usize = from;
    while i < chars.len()
        invariant
            from <= i <= chars@.len(),
            clean@ == cleaned(chars@.subrange(from as int, i as int)),
        decreases chars@.len() - i,
    {
        let c: char = chars[i];
        if c.is_alphanumeric() || c == '.' || c == '-' || c == '_' || c == ' ' {
            clean.push(c);
        } else {
            clean.push('_');
        }
        proof {
            assert(clean@ =~= cleaned(chars@.subrange(from as int, i + 1)));
        }
        i = i + 1;
    }
    proof {
        assert(chars@.subrange(from as int, chars@.len() as int) =~= tail_name(name@));
    }
    let trimmed = text::trim_matches(text::trim(clean.as_str()).as_str(), '.');
    if trimmed.as_str().is_empty() {
        "file".to_owned()
    } else {
        trimmed
    }
}

/// The name to save a download under, before it is sanitized.
pub open spec fn download_name_spec(given: Option<Seq<char>>, file_path: Seq<char>) -> Seq<char> {
    match given {
        Some(n) => n,
        None => if tail_name(file_path).len() == 0 {
            "file"@
        } else {
            tail_name(file_path)
        },
    }
}

/// The name that came with the message, else the basename that Telegram
/// reports.
pub fn download_name(given: &Option<String>, file_path: &str) -> (r: String)
    ensures
        r@ == download_name_spec(text::opt_text(*given), file_path@),
{
    match given {
        Some(n) => n.clone(),
        None => {
            let chars = text::chars_of(file_path);
            let from: usize = find_tail(&chars);
            if from == chars.len() {
                "file".to_owned()
            } else {
                proof {
                    assert(chars@.subrange(from as int, chars@.len() as int) =~= tail_name(
                        file_path@,
                    ));
                }
                text::text_between(&chars, from, chars.len())
            }
        },
    }
}

// ---- names that are free ----

/// The name for a file saved at the moment `t`.
pub open spec fn stamped_name(t: LocalTime, name: Seq<char>) -> Seq<char> {
    clock::file_stamp_text(t) + "_"@ + sanitized(name)
}

/// Where the extension of `base`, its dot included, starts; the length of
/// `base` where it has none.
pub open spec fn extension_at(base: Seq<char>) -> int {
    let k = text::after_last(base, paths::dot());
    if k == 0 {
        base.len() as int
    } else {
        k - 1
    }
}

/// The name that is tried after `n` others: `base` itself, then `base` with a
/// counter in front of its extension.
pub open spec fn candidate_name(base: Seq<char>, n: nat) -> Seq<char> {
    if n == 0 {
        base
    } else {
        base.take(extension_at(base)) + "-"@ + text::dec(n) + base.skip(extension_at(base))
    }
}

/// The search for a name that no file has yet.
pub struct DestSearch {
    base: String,
    tried: i32,
}

impl DestSearch {
    /// The name that the search starts from.
    pub closed spec fn base_name(self) -> Seq<char> {
        self.base@
    }

    /// How many names were taken already.
    pub closed spec fn tried_names(self) -> int {
        self.tried as int
    }

    pub open spec fn wf(self) -> bool {
        0 <= self.tried_names() <= i32::MAX
    }

    /// A search for a name for a file that is saved at the moment `t`.
    pub fn at(t: &LocalTime, name: &str) -> (r: DestSearch)
        requires
            t.is_real(),
        ensures
            r.wf(),
            r.base_name() == stamped_name(*t, name@),
            r.tried_names() == 0,
    {
        let mut base = clock::file_stamp(t);
        base.append("_");
        base.append(sanitize_filename(name).as_str());
        DestSearch { base, tried: 0 }
    }

    /// A search for a name for a file that is saved now.
    pub fn begin(name: &str) -> (r: DestSearch)
        ensures
            r.wf(),
            exists|t: LocalTime| t.is_real() && r.base_name() == #[trigger] stamped_name(t, name@),
            r.tried_names() == 0,
    {
        let t = clock::current_time();
        DestSearch::at(&t, name)
    }

    /// The path to try next, inside `dir`.
    pub fn candidate(&self, dir: &str) -> (r: String)
        requires
            self.wf(),
        ensures
            r@ == paths::joined(
                dir@,
                candidate_name(self.base_name(), self.tried_names() as nat),
            ),
    {
        if self.tried == 0 {
            return paths::join(dir, self.base.as_str());
        }
        let chars = text::chars_of(self.base.as_str());
        let dot: usize = find_extension(&chars);
        let mut name = text::text_between(&chars, 0, dot);
        name.append("-");
        name.append(text::decimal(self.tried as u64).as_str());
        name.append(text::text_between(&chars, dot, chars.len()).as_str());
        proof {
            assert(chars@.subrange(0, dot as int) =~= chars@.take(dot as int));
            assert(chars@.subrange(dot as int, chars@.len() as int) =~= chars@.skip(dot as int));
        }
        paths::join(dir, name.as_str())
    }

    /// The path that was tried is taken: go on to the next.
    pub fn advance(&mut self)
        requires
            old(self).wf(),
            old(self).tried_names() < i32::MAX,
        ensures
            final(self).wf(),
            final(self).base_name() == old(self).base_name(),
            final(self).tried_names() == old(self).tried_names() + 1,
    {
        self.tried = self.tried + 1;
    }
}

/// Where the extension of `chars`, its dot included, starts.
fn find_extension(chars: &Vec<char>) -> (r: usize)
    ensures
        r == extension_at(chars@),
        r <= chars@.len(),
{
    let mut at: usize = chars.len();
    proof {
        assert(chars@.take(chars@.len() as int) =~= chars@);
    }
    while at > 0 && chars[at - 1] != '.'
        invariant
            at <= chars@.len(),
            text::after_last(chars@, paths::dot()) == text::after_last(
                chars@.take(at as int),
                paths::dot(),
            ),
        decreases at,
    {
        proof {
            let shorter = chars@.take(at as int);
            assert(shorter.last() == chars@[at - 1]);
            assert(!paths::dot()(shorter.last()));
            assert(shorter.drop_last() =~= chars@.take(at - 1));
        }
        at = at - 1;
    }
    proof {
        let shorter = chars@.take(at as int);
        if at > 0 {
            assert(shorter.last() == chars@[at - 1]);
            assert(paths::dot()(shorter.last()));
        }
    }
    if at == 0 {
        chars.len()
    } else {
        at - 1
    }
}

// ---- what the names promise ----

/// Trimming from the start keeps a suffix.
proof fn lemma_trim_start(s: Seq<char>, p: spec_fn(char) -> bool)
    ensures
        text::trim_start_by(s, p).len() <= s.len(),
        text::trim_start_by(s, p) == s.skip(s.len() - text::trim_start_by(s, p).len()),
        text::trim_start_by(s, p).len() > 0 ==> !p(text::trim_start_by(s, p)[0]),
    decreases s.len(),
{
    if s.len() > 0 && p(s[0]) {
        lemma_trim_start(s.drop_first(), p);
        let r = text::trim_start_by(s, p);
        assert(r =~= s.skip(s.len() - r.len()));
    } else {
        assert(s.skip(0) =~= s);
    }
}

/// Trimming from the end keeps a prefix.
proof fn lemma_trim_end(s: Seq<char>, p: spec_fn(char) -> bool)
    ensures
        text::trim_end_by(s, p).len() <= s.len(),
        text::trim_end_by(s, p) == s.take(text::trim_end_by(s, p).len() as int),
        text::trim_end_by(s, p).len() > 0 ==> !p(text::trim_end_by(s, p).last()),
    decreases s.len(),
{
    if s.len() > 0 && p(s.last()) {
        lemma_trim_end(s.drop_last(), p);
        let r = text::trim_end_by(s, p);
        assert(r =~= s.take(r.len() as int));
    } else {
        assert(s.take(s.len() as int) =~= s);
    }
}

/// What is trimmed is a part of what was there.
proof fn lemma_trimmed_part(s: Seq<char>, t: Seq<char>, p: spec_fn(char) -> bool)
    requires
        t == text::trim_end_by(text::trim_start_by(s, p), p),
    ensures
        exists|k: int| 0 <= k && k + t.len() <= s.len() && t == #[trigger] s.subrange(k, k + t.len()),
        t.len() > 0 ==> !p(t[0]) && !p(t.last()),
{
    let a = text::trim_start_by(s, p);
    lemma_trim_start(s, p);
    lemma_trim_end(a, p);
    let k = s.len() - a.len();
    assert(t =~= s.subrange(k, k + t.len()));
    if t.len() > 0 {
        assert(t[0] == a[0]);
    }
}

/// A sanitized name is not empty, holds no character that is not safe, and
/// neither starts nor ends with a dot. It holds no separator, so it names a
/// file in the directory that it is put in, and it is not `..`.
pub proof fn sanitized_names_are_safe(name: Seq<char>)
    ensures
        ({
            let s = sanitized(name);
            &&& s.len() > 0
            &&& forall|i: int| 0 <= i < s.len() ==> safe(#[trigger] s[i])
            &&& forall|i: int| 0 <= i < s.len() ==> #[trigger] s[i] != '/' && s[i] != '\\'
            &&& s[0] != '.'
            &&& s.last() != '.'
        }),
{
    reveal_strlit("file");
    let base = tail_name(name);
    let c = cleaned(base);
    let ws = |c: char| text::whitespace(c);
    let t = text::trimmed(c);
    let s = text::trim_char(t, '.');
    text::lemma_after_last(name, slash());
    assert forall|i: int| 0 <= i < c.len() implies safe(#[trigger] c[i]) && c[i] != '/' && c[i]
        != '\\' by {
        let at = text::after_last(name, slash()) as int;
        assert(base[i] == name[at + i]);
        assert(!slash()(name[at + i]));
        assert(c[i] == safe_char(base[i]));
    }
    lemma_trimmed_part(c, t, ws);
    let k = choose|k: int| 0 <= k && k + t.len() <= c.len() && t == #[trigger] c.subrange(
        k,
        k + t.len(),
    );
    lemma_trimmed_part(t, s, text::is_one('.'));
    let m = choose|m: int| 0 <= m && m + s.len() <= t.len() && s == #[trigger] t.subrange(
        m,
        m + s.len(),
    );
    assert forall|i: int| 0 <= i < s.len() implies safe(#[trigger] s[i]) && s[i] != '/' && s[i]
        != '\\' by {
        assert(s[i] == t[m + i]);
        assert(t[m + i] == c[k + (m + i)]);
    }
    if s.len() > 0 {
        assert(!text::is_one('.')(s[0]));
        assert(!text::is_one('.')(s.last()));
    }
}

/// A name that holds no separator is its own tail.
proof fn lemma_tail_whole(s: Seq<char>)
    requires
        forall|i: int| 0 <= i < s.len() ==> #[trigger] s[i] != '/' && s[i] != '\\',
    ensures
        tail_name(s) == s,
{
    text::lemma_after_last(s, slash());
    let k = text::after_last(s, slash());
    if k > 0 {
        assert(slash()(s[k - 1]));
        assert(s[k - 1] != '/');
    }
    assert(s.skip(0) =~= s);
}

/// Sanitizing a sanitized name changes nothing. A name that a space is left at
/// the ends of, because it stood behind dots, is left out.
pub proof fn sanitizing_is_stable(name: Seq<char>)
    requires
        sanitized(name)[0] != ' ',
        sanitized(name).last() != ' ',
    ensures
        sanitized(sanitized(name)) == sanitized(name),
{
    let s = sanitized(name);
    sanitized_names_are_safe(name);
    lemma_tail_whole(s);
    assert(cleaned(s) =~= s);
    assert(safe(s[0]));
    assert(safe(s[s.len() - 1]));
    let ws = |c: char| text::whitespace(c);
    assert(!ws(s[0]));
    assert(!ws(s.last()));
    assert(text::trim_start_by(s, ws) == s);
    assert(text::trimmed(s) == s);
    let dots = text::is_one('.');
    assert(!dots(s[0]));
    assert(!dots(s.last()));
    assert(text::trim_start_by(s, dots) == s);
    assert(text::trim_char(s, '.') == s);
}

/// No two candidates are the same name.
pub proof fn candidates_are_distinct(base: Seq<char>, i: nat, j: nat)
    requires
        candidate_name(base, i) == candidate_name(base, j),
    ensures
        i == j,
{
    reveal_strlit("-");
    text::lemma_after_last(base, paths::dot());
    text::lemma_dec_digits(i);
    text::lemma_dec_digits(j);
    let at = extension_at(base);
    let front = base.take(at) + "-"@;
    let back = base.skip(at);
    if i > 0 && j > 0 {
        let a = candidate_name(base, i);
        let b = candidate_name(base, j);
        assert(a.len() == front.len() + text::dec(i).len() + back.len());
        assert(b.len() == front.len() + text::dec(j).len() + back.len());
        assert forall|k: int| 0 <= k < text::dec(i).len() implies text::dec(i)[k]
            == text::dec(j)[k] by {
            assert(a[front.len() + k] == text::dec(i)[k]);
            assert(b[front.len() + k] == text::dec(j)[k]);
        }
        assert(text::dec(i) =~= text::dec(j));
        text::lemma_dec_injective(i, j);
    } else if i > 0 {
        assert(candidate_name(base, i).len() > base.len());
    } else if j > 0 {
        assert(candidate_name(base, j).len() > base.len());
    }
}

/// If the first `k` candidates are all taken, at least `k` names are.
proof fn lemma_taken_count(base: Seq<char>, taken: Set<Seq<char>>, k: nat)
    requires
        taken.finite(),
        forall|i: nat| i < k ==> taken.contains(#[trigger] candidate_name(base, i)),
    ensures
        k <= taken.len(),
    decreases k,
{
    if k > 0 {
        let last = candidate_name(base, (k - 1) as nat);
        let rest = taken.remove(last);
        assert forall|i: nat| i < k - 1 implies rest.contains(#[trigger] candidate_name(base, i)) by {
            if candidate_name(base, i) == last {
                candidates_are_distinct(base, i, (k - 1) as nat);
            }
        }
        assert(taken.contains(last));
        lemma_taken_count(base, rest, (k - 1) as nat);
    }
}

/// Whatever names are taken, a candidate that is free is found after at most
/// as many tries as there are taken names.
pub proof fn a_free_candidate_is_found(base: Seq<char>, taken: Set<Seq<char>>)
    requires
        taken.finite(),
    ensures
        exists|n: nat| n <= taken.len() && !taken.contains(#[trigger] candidate_name(base, n)),
{
    if forall|n: nat| n <= taken.len() ==> taken.contains(#[trigger] candidate_name(base, n)) {
        lemma_taken_count(base, taken, taken.len() + 1);
    }
}

proof fn lemma_stamp_is_plain(t: LocalTime)
    requires
        t.is_real(),
    ensures
        clock::file_stamp_text(t).len() > 0,
        forall|i: int|
            0 <= i < clock::file_stamp_text(t).len() ==> #[trigger] clock::file_stamp_text(t)[i]
                != '/',
{
    let y = t.year as int;
    if y >= 10000 {
        text::lemma_dec_digits(y as nat);
    } else if y <= -10000 {
        text::lemma_dec_digits((-y) as nat);
    }
    let year = clock::year_text(y);
    assert forall|i: int| 0 <= i < year.len() implies #[trigger] year[i] != '/' by {}
    let s = clock::file_stamp_text(t);
    let a = year + clock::two(t.month as int) + clock::two(t.day as int) + seq!['-'];
    let b = clock::two(t.hour as int) + clock::two(t.minute as int) + clock::two(t.second as int);
    assert(s =~= a + b);
}

/// Every candidate lies directly in the directory that the file is saved to.
pub proof fn saved_files_stay_in_their_directory(
    dir: Seq<char>,
    t: LocalTime,
    name: Seq<char>,
    n: nat,
)
    requires
        t.is_real(),
    ensures
        ({
            let file = candidate_name(stamped_name(t, name), n);
            &&& paths::parent(paths::joined(dir, file)) == Some(paths::trimmed_path(dir))
            &&& paths::file_name(paths::joined(dir, file)) == Some(file)
        }),
{
    reveal_strlit("_");
    reveal_strlit("-");
    let base = stamped_name(t, name);
    let stamp = clock::file_stamp_text(t);
    let file = candidate_name(base, n);
    lemma_stamp_is_plain(t);
    sanitized_names_are_safe(name);
    assert forall|i: int| 0 <= i < base.len() implies #[trigger] base[i] != '/' by {
        if i < stamp.len() {
            assert(base[i] == stamp[i]);
        } else if i > stamp.len() {
            assert(base[i] == sanitized(name)[i - stamp.len() - 1]);
        }
    }
    text::lemma_after_last(base, paths::dot());
    text::lemma_dec_digits(n);
    let at = extension_at(base);
    assert forall|i: int| 0 <= i < file.len() implies #[trigger] file[i] != '/' by {
        if n > 0 {
            if i < at {
                assert(file[i] == base[i]);
            } else if i == at {
                assert(file[i] == '-');
            } else if i < at + 1 + text::dec(n).len() {
                assert(file[i] == text::dec(n)[i - at - 1]);
            } else {
                assert(file[i] == base[i - 1 - text::dec(n).len()]);
            }
        }
    }
    assert(file.len() >= base.len() >= 3);
    assert(file != seq!['.']) by {
        assert(seq!['.'].len() == 1);
    }
    assert(file != seq!['.', '.']) by {
        assert(seq!['.', '.'].len() == 2);
    }
    paths::joined_paths_are_inside(dir, file);
}

} // verus!
