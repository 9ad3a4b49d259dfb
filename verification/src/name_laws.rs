//! The names of saved files, character by character.

use vstd::prelude::*;
use crate::clock;
use crate::clock::LocalTime;
use crate::filenames;
use crate::paths;
use crate::text;

verus! {

/// Whether a character stays as it is in a file name: letters and digits of
/// every script, dots, hyphens, underscores and spaces.
pub open spec fn stays(c: char) -> bool {
    ||| 'a' <= c <= 'z'
    ||| 'A' <= c <= 'Z'
    ||| '0' <= c <= '9'
    ||| c == '.'
    ||| c == '-'
    ||| c == '_'
    ||| c == ' '
    ||| c as u32 > 0x7f && !text::whitespace(c) && filenames::alphanumeric(c)
}

/// What follows the last separator of a path is the last part of it.
pub proof fn the_last_part_names_the_file(front: Seq<char>, last: Seq<char>)
    requires
        front.len() > 0 ==> front.last() == '/' || front.last() == '\\',
        forall|i: int| 0 <= i < last.len() ==> #[trigger] last[i] != '/' && last[i] != '\\',
    ensures
        filenames::tail_name(front + last) == last,
        filenames::download_name_spec(None, front + last) == (if last.len() == 0 {
            "file"@
        } else {
            last
        }),
{
    let p = front + last;
    text::lemma_after_last(p, filenames::slash());
    let k = text::after_last(p, filenames::slash()) as int;
    if k > front.len() {
        assert(filenames::slash()(p[k - 1]));
        assert(p[k - 1] == last[k - 1 - front.len()]);
    }
    if k < front.len() {
        assert(p[front.len() - 1] == front.last());
        assert(filenames::slash()(p[front.len() - 1]));
        assert(!filenames::slash()(p[front.len() - 1]));
    }
    assert(p.skip(k) =~= last);
}

/// How a sanitized name comes about, for every name there is: what stands in
/// front of the last separator goes, and of the rest the spaces at both ends
/// and then the dots. What is left keeps its length; each character of it
/// stays as it is or becomes an underscore. Where nothing is left the name is
/// "file".
pub proof fn sanitizing_replaces_what_is_not_safe(
    front: Seq<char>,
    spaces: nat,
    dots: nat,
    core: Seq<char>,
    dots_after: nat,
    spaces_after: nat,
)
    requires
        front.len() > 0 ==> front.last() == '/' || front.last() == '\\',
        forall|i: int| 0 <= i < core.len() ==> #[trigger] core[i] != '/' && core[i] != '\\',
        core.len() > 0 ==> core[0] != '.' && core.last() != '.',
        core.len() > 0 && dots == 0 ==> core[0] != ' ',
        core.len() > 0 && dots_after == 0 ==> core.last() != ' ',
        core.len() == 0 ==> dots_after == 0 && (dots == 0 ==> spaces_after == 0),
    ensures
        ({
            let name = front + (Seq::new(spaces, |i: int| ' ') + Seq::new(dots, |i: int| '.') + core
                + Seq::new(dots_after, |i: int| '.') + Seq::new(spaces_after, |i: int| ' '));
            let r = filenames::sanitized(name);
            &&& core.len() > 0 ==> {
                &&& r.len() == core.len()
                &&& forall|i: int| 0 <= i < core.len() && stays(core[i]) ==> #[trigger] r[i] == core[i]
                &&& forall|i: int| 0 <= i < core.len() && !stays(core[i]) ==> #[trigger] r[i] == '_'
            }
            &&& core.len() == 0 ==> r == "file"@
        }),
{
    let a = Seq::new(spaces, |i: int| ' ');
    let b = Seq::new(dots, |i: int| '.');
    let c = Seq::new(dots_after, |i: int| '.');
    let d = Seq::new(spaces_after, |i: int| ' ');
    let base = a + b + core + c + d;
    assert forall|i: int| 0 <= i < base.len() implies #[trigger] base[i] != '/' && base[i]
        != '\\' by {
        if a.len() + b.len() <= i < a.len() + b.len() + core.len() {
            assert(base[i] == core[i - a.len() - b.len()]);
        }
    }
    the_last_part_names_the_file(front, base);
    let clean = filenames::cleaned(core);
    assert(filenames::cleaned(base) =~= a + (b + clean + c) + d);
    let middle = b + clean + c;
    assert forall|i: int| 0 <= i < core.len() implies (#[trigger] clean[i] == '.' <==> core[i]
        == '.') && (text::whitespace(clean[i]) <==> core[i] == ' ') by {
        assert(clean[i] == filenames::safe_char(core[i]));
    }
    if middle.len() > 0 {
        assert(!text::whitespace(middle[0])) by {
            if dots > 0 {
                assert(middle[0] == b[0]);
            } else if core.len() > 0 {
                assert(middle[0] == clean[0]);
            }
        }
        assert(!text::whitespace(middle.last())) by {
            if dots_after > 0 {
                assert(middle.last() == c[c.len() - 1]);
            } else if core.len() > 0 {
                assert(middle.last() == clean[clean.len() - 1]);
                assert(core[core.len() - 1] == core.last());
            } else {
                assert(middle.last() == b[b.len() - 1]);
            }
        }
    }
    text::trimming_takes_the_ends_off(a, middle, d);
    if core.len() > 0 {
        assert(clean[0] != '.' && clean[clean.len() - 1] != '.');
        text::characters_are_taken_off_the_ends('.', dots, clean, dots_after);
    } else {
        text::characters_are_taken_off_the_ends('.', dots, clean, 0);
        assert(c =~= Seq::new(0nat, |i: int| '.'));
    }
    assert forall|i: int| 0 <= i < core.len() && stays(core[i]) implies #[trigger] clean[i]
        == core[i] by {
        assert(clean[i] == filenames::safe_char(core[i]));
    }
    assert forall|i: int| 0 <= i < core.len() && !stays(core[i]) implies #[trigger] clean[i]
        == '_' by {
        assert(clean[i] == filenames::safe_char(core[i]));
    }
}

/// A name made of letters and digits of any script, with dots, hyphens,
/// underscores and spaces between them, is its own sanitized name.
pub proof fn plain_names_stay(name: Seq<char>)
    requires
        name.len() > 0,
        forall|i: int| 0 <= i < name.len() ==> stays(#[trigger] name[i]),
        name[0] != '.' && name[0] != ' ',
        name.last() != '.' && name.last() != ' ',
    ensures
        filenames::sanitized(name) == name,
{
    let none = Seq::<char>::empty();
    assert forall|i: int| 0 <= i < name.len() implies #[trigger] name[i] != '/' && name[i]
        != '\\' by {
        assert(stays(name[i]));
    }
    sanitizing_replaces_what_is_not_safe(none, 0, 0, name, 0, 0);
    assert(none + (Seq::new(0nat, |i: int| ' ') + Seq::new(0nat, |i: int| '.') + name + Seq::new(
        0nat,
        |i: int| '.',
    ) + Seq::new(0nat, |i: int| ' ')) =~= name);
    let r = filenames::sanitized(name);
    assert forall|i: int| 0 <= i < name.len() implies #[trigger] r[i] == name[i] by {
        assert(stays(name[i]));
    }
    assert(r =~= name);
}

/// A name that is taken gets a counter: in front of its extension, which starts
/// at its last dot, or behind it where it has none. The first candidate is the
/// name itself.
pub proof fn counters_stand_in_front_of_the_extension(
    stem: Seq<char>,
    ext: Seq<char>,
    n: nat,
)
    requires
        n > 0,
        forall|i: int| 0 <= i < ext.len() ==> #[trigger] ext[i] != '.',
    ensures
        filenames::candidate_name(stem + seq!['.'] + ext, 0) == stem + seq!['.'] + ext,
        filenames::candidate_name(stem + seq!['.'] + ext, n) == stem + "-"@ + text::dec(n) + seq![
            '.',
        ] + ext,
        filenames::candidate_name(ext, 0) == ext,
        filenames::candidate_name(ext, n) == ext + "-"@ + text::dec(n),
{
    let p = stem + seq!['.'] + ext;
    text::lemma_after_last(p, paths::dot());
    let k = text::after_last(p, paths::dot()) as int;
    assert(p[stem.len() as int] == '.');
    assert(paths::dot()(p[stem.len() as int]));
    if k <= stem.len() {
        assert(!paths::dot()(p[stem.len() as int]));
    }
    if k > stem.len() + 1 {
        assert(paths::dot()(p[k - 1]));
        assert(p[k - 1] == ext[k - 2 - stem.len()]);
    }
    assert(k == stem.len() + 1);
    assert(p.take(stem.len() as int) =~= stem);
    assert(p.skip(stem.len() as int) =~= seq!['.'] + ext);
    assert(stem + "-"@ + text::dec(n) + (seq!['.'] + ext) =~= stem + "-"@ + text::dec(n) + seq!['.']
        + ext);
    text::lemma_after_last(ext, paths::dot());
    let j = text::after_last(ext, paths::dot()) as int;
    if j > 0 {
        assert(paths::dot()(ext[j - 1]));
    }
    assert(ext.take(ext.len() as int) =~= ext);
    assert(ext.skip(ext.len() as int) =~= Seq::empty());
    assert(ext + "-"@ + text::dec(n) + Seq::<char>::empty() =~= ext + "-"@ + text::dec(n));
}

/// A saved file is named by the moment, an underscore and its sanitized name.
pub proof fn saved_names_start_with_the_moment(t: LocalTime, name: Seq<char>)
    ensures
        filenames::stamped_name(t, name) == clock::file_stamp_text(t) + "_"@ + filenames::sanitized(
            name,
        ),
{
}

} // verus!
