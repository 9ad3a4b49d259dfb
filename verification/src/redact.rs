//! Keeping bot tokens out of what is shown or stored.

use vstd::prelude::*;
use vstd::string::*;
use crate::text;

verus! {

/// What stands in place of a token.
pub open spec fn marker() -> Seq<char> {
    "<redacted>"@
}

/// Whether `pattern` stands at index `at` of `s`.
pub open spec fn occurs_at(s: Seq<char>, pattern: Seq<char>, at: int) -> bool {
    &&& 0 <= at
    &&& at + pattern.len() <= s.len()
    &&& s.subrange(at, at + pattern.len()) == pattern
}

/// Whether `pattern` stands anywhere in `s`.
pub open spec fn contains_text(s: Seq<char>, pattern: Seq<char>) -> bool {
    exists|at: int| occurs_at(s, pattern, at)
}

/// `s` with every occurrence of `pattern` replaced, from left to right.
pub open spec fn replaced(s: Seq<char>, pattern: Seq<char>, with: Seq<char>) -> Seq<char>
    decreases s.len(),
{
    if pattern.len() == 0 || s.len() == 0 {
        s
    } else if occurs_at(s, pattern, 0) {
        with + replaced(s.skip(pattern.len() as int), pattern, with)
    } else {
        seq![s[0]] + replaced(s.skip(1), pattern, with)
    }
}

/// `msg` without the token.
pub open spec fn scrubbed(msg: Seq<char>, token: Seq<char>) -> Seq<char> {
    if token.len() == 0 {
        msg
    } else {
        replaced(msg, token, marker())
    }
}

/// Whether `pattern` stands at index `at` of `chars`.
fn matches_at(chars: &Vec<char>, pattern: &Vec<char>, at: usize) -> (r: bool)
    requires
        at <= chars@.len(),
    ensures
        r == occurs_at(chars@, pattern@, at as int),
{
    if chars.len() - at < pattern.len() {
        return false;
    }
    let mut i: usize = 0;
    while i < pattern.len()
        invariant
            i <= pattern@.len(),
            at + pattern@.len() <= chars.len(),
            forall|k: int| 0 <= k < i ==> chars@[at + k] == pattern@[k],
        decreases pattern@.len() - i,
    {
        if chars[at + i] != pattern[i] {
            proof {
                assert(chars@.subrange(at as int, at + pattern@.len())[i as int] != pattern@[i as int]);
            }
            return false;
        }
        i = i + 1;
    }
    proof {
        assert(chars@.subrange(at as int, at + pattern@.len()) =~= pattern@);
    }
    true
}

/// Remove the bot token from a message before it is shown or stored.
///
/// The text of a network error names the address that was asked, and that
/// address holds the token.
pub fn scrub(msg: String, token: &str) -> (r: String)
    ensures
        r@ == scrubbed(msg@, token@),
{
    let pattern = text::chars_of(token);
    if pattern.len() == 0 {
        return msg;
    }
    let chars = text::chars_of(msg.as_str());
    let mut out = String::new();
    let mut i: usize = 0;
    proof {
        assert(chars@.skip(0) =~= chars@);
    }
    while i < chars.len()
        invariant
            i <= chars@.len(),
            pattern@ == token@,
            pattern@.len() > 0,
            replaced(chars@, token@, marker()) == out@ + replaced(
                chars@.skip(i as int),
                token@,
                marker(),
            ),
        decreases chars@.len() - i,
    {
        let ghost rest = chars@.skip(i as int);
        let ghost before = out@;
        let hit = matches_at(&chars, &pattern, i);
        proof {
            assert(hit == occurs_at(rest, token@, 0)) by {
                if i + token@.len() <= chars@.len() {
                    assert(rest.subrange(0, token@.len() as int) =~= chars@.subrange(
                        i as int,
                        i + token@.len(),
                    ));
                }
            }
        }
        if hit {
            out.append("<redacted>");
            i = i + pattern.len();
            proof {
                assert(rest.skip(token@.len() as int) =~= chars@.skip(i as int));
                assert(before + (marker() + replaced(chars@.skip(i as int), token@, marker()))
                    =~= out@ + replaced(chars@.skip(i as int), token@, marker()));
            }
        } else {
            out.push(chars[i]);
            i = i + 1;
            proof {
                assert(rest.skip(1) =~= chars@.skip(i as int));
                assert(before + (seq![rest[0]] + replaced(chars@.skip(i as int), token@, marker()))
                    =~= out@ + replaced(chars@.skip(i as int), token@, marker()));
            }
        }
    }
    proof {
        assert(out@ + chars@.skip(i as int) =~= out@);
    }
    out
}

// ---- what scrubbing promises ----

/// Whether `pattern` can lie across `other` so that the two agree where they
/// overlap.
pub open spec fn can_overlap(pattern: Seq<char>, other: Seq<char>) -> bool {
    exists|shift: int| agrees_shifted(pattern, other, shift)
}

/// Whether `pattern`, moved to start at index `shift` of `other`, overlaps it
/// and agrees with it where it does.
pub open spec fn agrees_shifted(pattern: Seq<char>, other: Seq<char>, shift: int) -> bool {
    &&& -pattern.len() < shift < other.len()
    &&& forall|i: int|
        0 <= i < pattern.len() && 0 <= shift + i < other.len() ==> #[trigger] pattern[i]
            == other[shift + i]
}

/// The first `k` characters of a replaced text are those of the text itself,
/// or a replacement starts among them.
proof fn lemma_replaced_prefix(s: Seq<char>, pattern: Seq<char>, with: Seq<char>, k: int)
    requires
        pattern.len() > 0,
        0 <= k <= replaced(s, pattern, with).len(),
    ensures
        ({
            let r = replaced(s, pattern, with);
            ||| k <= s.len() && r.subrange(0, k) == s.subrange(0, k)
            ||| exists|j: int| 0 <= j < k && #[trigger] occurs_at(r, with, j)
        }),
    decreases s.len(),
{
    let r = replaced(s, pattern, with);
    if s.len() == 0 || k == 0 {
        assert(r.subrange(0, k) =~= s.subrange(0, k));
    } else if occurs_at(s, pattern, 0) {
        assert(r.subrange(0, with.len() as int) =~= with);
        assert(occurs_at(r, with, 0));
    } else {
        let tail = replaced(s.skip(1), pattern, with);
        lemma_replaced_prefix(s.skip(1), pattern, with, k - 1);
        if k - 1 <= s.skip(1).len() && tail.subrange(0, k - 1) == s.skip(1).subrange(0, k - 1) {
            assert forall|i: int| 0 <= i < k implies r.subrange(0, k)[i] == s.subrange(0, k)[i] by {
                if i > 0 {
                    assert(tail.subrange(0, k - 1)[i - 1] == s.skip(1).subrange(0, k - 1)[i - 1]);
                }
            }
            assert(r.subrange(0, k) =~= s.subrange(0, k));
        } else {
            let j = choose|j: int| 0 <= j < k - 1 && #[trigger] occurs_at(tail, with, j);
            assert(r.subrange(j + 1, j + 1 + with.len()) =~= tail.subrange(j, j + with.len()));
            assert(occurs_at(r, with, j + 1));
        }
    }
}

/// An occurrence that reaches into a replacement shows that the two can
/// overlap.
proof fn lemma_touching(r: Seq<char>, pattern: Seq<char>, with: Seq<char>, at: int, j: int)
    requires
        occurs_at(r, pattern, at),
        occurs_at(r, with, j),
        at < j + with.len(),
        j < at + pattern.len(),
    ensures
        can_overlap(pattern, with),
{
    let shift = at - j;
    assert forall|i: int|
        0 <= i < pattern.len() && 0 <= shift + i < with.len() implies #[trigger] pattern[i]
        == with[shift + i] by {
        assert(pattern[i] == r.subrange(at, at + pattern.len())[i]);
        assert(with[shift + i] == r.subrange(j, j + with.len())[shift + i]);
    }
    assert(agrees_shifted(pattern, with, shift));
}

/// Where the pattern cannot lie across its replacement, none of it is left.
proof fn lemma_replaced_is_clean(s: Seq<char>, pattern: Seq<char>, with: Seq<char>)
    requires
        pattern.len() > 0,
        with.len() > 0,
        !can_overlap(pattern, with),
    ensures
        !contains_text(replaced(s, pattern, with), pattern),
    decreases s.len(),
{
    let r = replaced(s, pattern, with);
    if contains_text(r, pattern) {
        let at = choose|at: int| occurs_at(r, pattern, at);
        if s.len() == 0 {
        } else if occurs_at(s, pattern, 0) {
            let rest = s.skip(pattern.len() as int);
            let tail = replaced(rest, pattern, with);
            lemma_replaced_is_clean(rest, pattern, with);
            if at < with.len() {
                assert(r.subrange(0, with.len() as int) =~= with);
                assert(occurs_at(r, with, 0));
                lemma_touching(r, pattern, with, at, 0);
            } else {
                let below = at - with.len();
                assert(tail.subrange(below, below + pattern.len()) =~= r.subrange(
                    at,
                    at + pattern.len(),
                ));
                assert(occurs_at(tail, pattern, below));
            }
        } else {
            let tail = replaced(s.skip(1), pattern, with);
            lemma_replaced_is_clean(s.skip(1), pattern, with);
            if at > 0 {
                assert(tail.subrange(at - 1, at - 1 + pattern.len()) =~= r.subrange(
                    at,
                    at + pattern.len(),
                ));
                assert(occurs_at(tail, pattern, at - 1));
            } else {
                lemma_replaced_prefix(s, pattern, with, pattern.len() as int);
                if !(pattern.len() <= s.len() && r.subrange(0, pattern.len() as int)
                    == s.subrange(0, pattern.len() as int)) {
                    let j = choose|j: int|
                        0 <= j < pattern.len() && #[trigger] occurs_at(r, with, j);
                    lemma_touching(r, pattern, with, 0, j);
                }
            }
        }
    }
}

/// A scrubbed message does not hold the token, whatever the message, unless
/// the token is shaped so that it can lie across the redaction mark itself.
pub proof fn scrubbing_removes_the_token(msg: Seq<char>, token: Seq<char>)
    requires
        token.len() > 0,
        !can_overlap(token, marker()),
    ensures
        !contains_text(scrubbed(msg, token), token),
{
    reveal_strlit("<redacted>");
    lemma_replaced_is_clean(msg, token, marker());
}

/// A token without angle brackets that is no part of the mark's word cannot lie
/// across the redaction mark.
pub proof fn plain_tokens_do_not_overlap_the_mark(token: Seq<char>)
    requires
        token.len() > 0,
        forall|i: int| 0 <= i < token.len() ==> #[trigger] token[i] != '<' && token[i] != '>',
        !contains_text("redacted"@, token),
    ensures
        !can_overlap(token, marker()),
{
    reveal_strlit("<redacted>");
    reveal_strlit("redacted");
    assert forall|shift: int| !agrees_shifted(token, marker(), shift) by {
        if agrees_shifted(token, marker(), shift) {
            if shift <= 0 {
                assert(token[-shift] == marker()[shift - shift]);
            } else if 9 - shift < token.len() {
                assert(token[9 - shift] == marker()[shift + (9 - shift)]);
            } else {
                let word = "redacted"@;
                assert forall|i: int| 0 <= i < token.len() implies word.subrange(
                    shift - 1,
                    shift - 1 + token.len(),
                )[i] == token[i] by {
                    assert(token[i] == marker()[shift + i]);
                }
                assert(word.subrange(shift - 1, shift - 1 + token.len()) =~= token);
                assert(occurs_at(word, token, shift - 1));
            }
        }
    }
}

/// A token of more than eight characters, as all of Telegram's are, is no part
/// of the mark's word.
pub proof fn long_tokens_are_plain(token: Seq<char>)
    requires
        token.len() > 8,
    ensures
        !contains_text("redacted"@, token),
{
    reveal_strlit("redacted");
}

/// What stands in two texts with a character between them that it does not
/// hold stands in one of the two.
pub proof fn lemma_contains_split(a: Seq<char>, c: char, b: Seq<char>, pattern: Seq<char>)
    requires
        pattern.len() > 0,
        forall|i: int| 0 <= i < pattern.len() ==> #[trigger] pattern[i] != c,
        contains_text(a + seq![c] + b, pattern),
    ensures
        contains_text(a, pattern) || contains_text(b, pattern),
{
    let all = a + seq![c] + b;
    let at = choose|at: int| occurs_at(all, pattern, at);
    let n = a.len() as int;
    let found = all.subrange(at, at + pattern.len());
    if at <= n < at + pattern.len() {
        assert(found[n - at] == all[n]);
        assert(pattern[n - at] != c);
    } else if at > n {
        assert(b.subrange(at - n - 1, at - n - 1 + pattern.len()) =~= found);
        assert(occurs_at(b, pattern, at - n - 1));
    } else {
        assert(a.subrange(at, at + pattern.len()) =~= found);
        assert(occurs_at(a, pattern, at));
    }
}

/// A message that does not hold the token is left as it is.
pub proof fn scrubbing_leaves_other_text_alone(msg: Seq<char>, token: Seq<char>)
    requires
        !contains_text(msg, token),
    ensures
        scrubbed(msg, token) == msg,
    decreases msg.len(),
{
    if token.len() > 0 && msg.len() > 0 {
        let rest = msg.skip(1);
        assert forall|at: int| !occurs_at(rest, token, at) by {
            if occurs_at(rest, token, at) {
                assert(msg.subrange(at + 1, at + 1 + token.len()) =~= rest.subrange(
                    at,
                    at + token.len(),
                ));
                assert(occurs_at(msg, token, at + 1));
            }
        }
        scrubbing_leaves_other_text_alone(rest, token);
        assert(!occurs_at(msg, token, 0));
        assert(seq![msg[0]] + rest =~= msg);
    }
}

/// The first occurrence of the token becomes the mark, what stands in front of
/// it stays as it is, and what follows it is scrubbed in turn.
pub proof fn scrubbing_replaces_the_token_alone(
    front: Seq<char>,
    token: Seq<char>,
    rest: Seq<char>,
)
    requires
        token.len() > 0,
        forall|at: int|
            0 <= at < front.len() ==> #[trigger] (front + token).subrange(at, at + token.len())
                != token,
    ensures
        scrubbed(front + token + rest, token) == front + "<redacted>"@ + scrubbed(rest, token),
    decreases front.len(),
{
    let s = front + token + rest;
    let n = token.len() as int;
    if front.len() == 0 {
        assert(s.subrange(0, n) =~= token);
        assert(s.skip(n) =~= rest);
        assert(front + "<redacted>"@ =~= "<redacted>"@);
    } else {
        let less = front.drop_first();
        let zero: int = 0;
        assert((front + token).subrange(zero, zero + token.len()) != token);
        assert(s.subrange(0, n) =~= (front + token).subrange(0, n));
        assert(!occurs_at(s, token, 0));
        assert forall|at: int| 0 <= at < less.len() implies #[trigger] (less + token).subrange(
            at,
            at + token.len(),
        ) != token by {
            assert((less + token).subrange(at, at + n) =~= (front + token).subrange(
                at + 1,
                at + 1 + n,
            ));
            assert((front + token).subrange(at + 1, at + 1 + token.len()) != token);
        }
        scrubbing_replaces_the_token_alone(less, token, rest);
        assert(s.skip(1) =~= less + token + rest);
        assert(seq![s[0]] + (less + "<redacted>"@ + scrubbed(rest, token)) =~= front
            + "<redacted>"@ + scrubbed(rest, token));
    }
}

/// A message in which the token stands nowhere is left as it is, and so is every
/// message where there is no token.
pub proof fn scrubbing_needs_a_token(msg: Seq<char>, token: Seq<char>)
    requires
        token.len() > 0 ==> forall|at: int|
            0 <= at <= msg.len() - token.len() ==> #[trigger] msg.subrange(at, at + token.len())
                != token,
    ensures
        scrubbed(msg, token) == msg,
{
    if token.len() > 0 {
        assert forall|at: int| !occurs_at(msg, token, at) by {
            if 0 <= at <= msg.len() - token.len() {
                assert(msg.subrange(at, at + token.len()) != token);
            }
        }
        scrubbing_leaves_other_text_alone(msg, token);
    }
}

} // verus!
