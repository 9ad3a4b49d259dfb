//! Paths, taken apart and put together.

use vstd::prelude::*;
use crate::ids;
use crate::paths;
use crate::text;

verus! {

/// Whether `name` can be the name of a file in a directory.
pub open spec fn is_plain_name(name: Seq<char>) -> bool {
    &&& name.len() > 0
    &&& !(name.len() == 1 && name[0] == '.')
    &&& !(name.len() == 2 && name[0] == '.' && name[1] == '.')
    &&& forall|i: int| 0 <= i < name.len() ==> #[trigger] name[i] != '/'
}

proof fn lemma_plain(name: Seq<char>)
    requires
        is_plain_name(name),
    ensures
        paths::is_component(name),
        name != seq!['.', '.'],
{
    if name == seq!['.'] {
        assert(name[0] == '.');
    }
    if name == seq!['.', '.'] {
        assert(name[0] == '.' && name[1] == '.');
    }
}

/// A name is put into a directory behind one separator, into none as it is; an
/// absolute path goes nowhere else.
pub proof fn joining_puts_one_separator_between(dir: Seq<char>, name: Seq<char>)
    ensures
        name.len() > 0 && name[0] == '/' ==> paths::joined(dir, name) == name,
        (name.len() == 0 || name[0] != '/') && dir.len() == 0 ==> paths::joined(dir, name) == name,
        (name.len() == 0 || name[0] != '/') && dir.len() > 0 && dir.last() == '/' ==> paths::joined(
            dir,
            name,
        ) == dir + name,
        (name.len() == 0 || name[0] != '/') && dir.len() > 0 && dir.last() != '/' ==> paths::joined(
            dir,
            name,
        ) == dir.push('/') + name,
{
    if dir.len() == 0 {
        assert(dir + name =~= name);
    }
    assert(dir + seq!['/'] =~= dir.push('/'));
}

/// The name that was put into a directory is the name of the file.
pub proof fn joined_names_are_found_again(dir: Seq<char>, name: Seq<char>)
    requires
        is_plain_name(name),
    ensures
        paths::file_name(paths::joined(dir, name)) == Some(name),
{
    lemma_plain(name);
    paths::joined_paths_are_inside(dir, name);
}

/// The directory of a file is the path in front of its name: as it stands where
/// that ends in a plain name, nothing where there is none, and the root for a
/// file at the root.
pub proof fn files_are_in_the_directory_in_front(
    front: Seq<char>,
    dir: Seq<char>,
    name: Seq<char>,
)
    requires
        is_plain_name(name),
        is_plain_name(dir),
        front.len() > 0 ==> front.last() == '/',
    ensures
        paths::parent(front + dir + seq!['/'] + name) == Some(front + dir),
        paths::parent(name) == Some(Seq::<char>::empty()),
        paths::parent(seq!['/'] + name) == Some(seq!['/']),
        paths::file_name(name) == Some(name),
        paths::file_name(seq!['/'] + name) == Some(name),
{
    lemma_plain(name);
    lemma_plain(dir);
    let d = front + dir;
    assert(d.last() == dir.last());
    assert(dir[dir.len() - 1] != '/');
    assert(name[0] != '/');
    assert(paths::joined(d, name) =~= front + dir + seq!['/'] + name);
    paths::joined_paths_are_inside(d, name);
    assert(paths::trimmed_path(d) == d) by {
        trimmed_where_named(front, dir);
    }
    let none = Seq::<char>::empty();
    assert(paths::joined(none, name) =~= name);
    paths::joined_paths_are_inside(none, name);
    assert(paths::trimmed_path(none) == none);
    let root = seq!['/'];
    assert(root.last() == '/');
    assert(paths::joined(root, name) =~= root + name);
    paths::joined_paths_are_inside(root, name);
    assert(paths::trimmed_path(root) == root);
}

/// A path that ends in a plain name counts as it stands.
pub proof fn trimmed_where_named(front: Seq<char>, name: Seq<char>)
    requires
        is_plain_name(name),
        front.len() > 0 ==> front.last() == '/',
    ensures
        paths::trimmed_path(front + name) == front + name,
        paths::file_name(front + name) == Some(name),
{
    lemma_plain(name);
    let p = front + name;
    assert(p[p.len() - 1] == name[name.len() - 1]);
    if front.len() == 0 {
        assert(p =~= name);
    } else {
        assert(p[0] == front[0]);
        assert(p[front.len() - 1] == '/');
    }
    assert(paths::has_body(p));
    if paths::has_body(p) {
        paths::lemma_component_start(p);
        let at = paths::component_start(p) as int;
        let b = paths::body_start(p) as int;
        if front.len() == 0 {
            assert(p =~= name);
        } else if front.len() == 1 {
            assert(p[0] == '/');
        } else {
            assert(p[0] == front[0] && p[1] == front[1]);
        }
        assert(p[front.len() as int] == name[0]);
        assert(b <= front.len());
        if at > front.len() {
            assert(p[at - 1] == name[at - 1 - front.len()]);
        }
        if at < front.len() {
            assert(p[front.len() - 1] == '/');
        }
        assert(at == front.len());
        assert(paths::last_component(p) =~= name);
    }
}

/// A bot's files go where it says, but for white space around that. Where it
/// says nothing they go into `attachments`, in the directory of its markdown
/// file.
pub proof fn files_go_where_the_bot_says(
    front: Seq<char>,
    dir: Seq<char>,
    name: Seq<char>,
    said: Seq<char>,
)
    requires
        is_plain_name(name),
        is_plain_name(dir),
        front.len() > 0 ==> front.last() == '/',
    ensures
        ({
            let file = front + dir + seq!['/'] + name;
            &&& paths::save_dir(file, None) == front + dir + seq!['/'] + "attachments"@
            &&& paths::save_dir(name, None) == "attachments"@
            &&& paths::save_dir(seq!['/'] + name, None) == seq!['/'] + "attachments"@
            &&& text::trimmed(said).len() > 0 ==> paths::save_dir(file, Some(said))
                == text::trimmed(said)
            &&& text::trimmed(said).len() == 0 ==> paths::save_dir(file, Some(said))
                == paths::save_dir(file, None)
        }),
{
    reveal_strlit("attachments");
    files_are_in_the_directory_in_front(front, dir, name);
    let d = front + dir;
    assert(d.last() == dir.last());
    assert(dir[dir.len() - 1] != '/');
    let sub = "attachments"@;
    assert(paths::joined(d, sub) =~= d + seq!['/'] + sub);
    assert(paths::joined(Seq::<char>::empty(), sub) =~= sub);
    let root = seq!['/'];
    assert(root.last() == '/');
    assert(paths::joined(root, sub) =~= root + sub);
}

/// A bot's journal is kept beside the status file, under the bot's id.
pub proof fn journals_are_named_by_the_bot(
    front: Seq<char>,
    dir: Seq<char>,
    name: Seq<char>,
    id: Seq<char>,
)
    requires
        is_plain_name(name),
        is_plain_name(dir),
        front.len() > 0 ==> front.last() == '/',
    ensures
        paths::journal_place(front + dir + seq!['/'] + name, id) == front + dir + seq!['/'] + (
        "pending-"@ + id + ".json"@),
{
    reveal_strlit("pending-");
    files_are_in_the_directory_in_front(front, dir, name);
    let d = front + dir;
    assert(d.last() == dir.last());
    assert(dir[dir.len() - 1] != '/');
    let j = "pending-"@ + id + ".json"@;
    assert(j[0] == 'p');
    assert(paths::joined(d, j) =~= d + seq!['/'] + j);
}

/// A separator at the end of a path counts for nothing, and neither does a dot
/// behind one.
pub proof fn loose_ends_count_for_nothing(p: Seq<char>)
    requires
        p.len() > 0,
    ensures
        paths::trimmed_path(p + seq!['/']) == paths::trimmed_path(p),
        paths::trimmed_path(p + seq!['/', '.']) == paths::trimmed_path(p),
        paths::file_name(p + seq!['/']) == paths::file_name(p),
        paths::file_name(p + seq!['/', '.']) == paths::file_name(p),
        paths::parent(p + seq!['/']) == paths::parent(p),
        paths::parent(p + seq!['/', '.']) == paths::parent(p),
{
    let q = p + seq!['/'];
    let n = q.len() as int;
    assert(q[0] == p[0]);
    if p.len() > 1 {
        assert(q[1] == p[1]);
    }
    assert(paths::body_start(q) == paths::body_start(p));
    paths::lemma_component_start(q);
    assert(q[n - 1] == '/');
    assert(paths::component_start(q) == n);
    assert(paths::without_last(q) =~= p);
    let r = p + seq!['/', '.'];
    let m = r.len() as int;
    assert(r[0] == p[0]);
    if p.len() > 1 {
        assert(r[1] == p[1]);
    }
    assert(paths::body_start(r) == paths::body_start(p));
    paths::lemma_component_start(r);
    assert(r[m - 2] == '/');
    assert(r[m - 1] == '.');
    let at = paths::component_start(r) as int;
    if at == m {
        assert(r[at - 1] == '/');
    }
    assert(at == m - 1);
    assert(paths::last_component(r) =~= seq!['.']);
    assert(paths::without_last(r) =~= p);
}

/// An extension goes from the last dot of the name on, unless that is its first
/// character: it is replaced by the new one, which is put behind a name that
/// has none.
pub proof fn extensions_start_at_the_last_dot(
    front: Seq<char>,
    stem: Seq<char>,
    was: Seq<char>,
    ext: Seq<char>,
)
    requires
        front.len() > 0 ==> front.last() == '/',
        stem.len() > 0,
        ext.len() > 0,
        forall|i: int| 0 <= i < was.len() ==> #[trigger] was[i] != '.',
    ensures
        is_plain_name(stem + seq!['.'] + was) ==> paths::with_extension_spec(
            front + (stem + seq!['.'] + was),
            ext,
        ) == front + stem + seq!['.'] + ext,
        is_plain_name(stem) && (forall|i: int| 0 < i < stem.len() ==> #[trigger] stem[i] != '.')
            ==> paths::with_extension_spec(front + stem, ext) == front + stem + seq!['.'] + ext,
{
    let name = stem + seq!['.'] + was;
    text::lemma_after_last(name, paths::dot());
    let k = text::after_last(name, paths::dot()) as int;
    assert(name[stem.len() as int] == '.');
    assert(paths::dot()(name[stem.len() as int]));
    if k <= stem.len() {
        assert(!paths::dot()(name[stem.len() as int]));
    }
    if k > stem.len() + 1 {
        assert(paths::dot()(name[k - 1]));
        assert(name[k - 1] == was[k - 2 - stem.len()]);
    }
    assert(paths::stem_len(name) == stem.len());
    if is_plain_name(name) {
        trimmed_where_named(front, name);
        let p = front + name;
        assert(p.take((front.len() + stem.len()) as int) =~= front + stem);
        assert(front + stem + (seq!['.'] + ext) =~= front + stem + seq!['.'] + ext);
    }
    if is_plain_name(stem) && (forall|i: int| 0 < i < stem.len() ==> #[trigger] stem[i] != '.') {
        text::lemma_after_last(stem, paths::dot());
        let j = text::after_last(stem, paths::dot()) as int;
        if j > 1 {
            assert(paths::dot()(stem[j - 1]));
        }
        assert(paths::stem_len(stem) == stem.len());
        trimmed_where_named(front, stem);
        let p = front + stem;
        assert(p.take(p.len() as int) =~= p);
        assert(p + (seq!['.'] + ext) =~= front + stem + seq!['.'] + ext);
    }
}

/// A temporary file has the name of the file that it is for, up to its
/// extension, and the id that it is marked with.
pub proof fn temporary_files_are_named_by_the_file(
    front: Seq<char>,
    stem: Seq<char>,
    was: Seq<char>,
    id: Seq<char>,
)
    requires
        front.len() > 0 ==> front.last() == '/',
        stem.len() > 0,
        is_plain_name(stem + seq!['.'] + was),
        forall|i: int| 0 <= i < was.len() ==> #[trigger] was[i] != '.',
    ensures
        ids::temp_place(front + (stem + seq!['.'] + was), id) == front + stem + seq!['.'] + (
        "tmp-"@ + id),
{
    reveal_strlit("tmp-");
    extensions_start_at_the_last_dot(front, stem, was, "tmp-"@ + id);
}

/// The directory that has to be there is the one in front of the name, where
/// there is one. A file that is moved aside keeps its whole path in front of
/// the mark.
pub proof fn files_need_the_directory_in_front(
    front: Seq<char>,
    dir: Seq<char>,
    name: Seq<char>,
    stamp: Seq<char>,
)
    requires
        is_plain_name(name),
        is_plain_name(dir),
        front.len() > 0 ==> front.last() == '/',
    ensures
        paths::needed_dir(front + dir + seq!['/'] + name) == Some(front + dir),
        paths::needed_dir(name) is None,
        paths::needed_dir(seq!['/'] + name) == Some(seq!['/']),
        paths::backup_place(front + name, stamp) == front + name + ".corrupt-"@ + stamp,
{
    files_are_in_the_directory_in_front(front, dir, name);
    trimmed_where_named(front, name);
}

/// A path is absolute exactly where it starts with a separator.
pub proof fn absolute_paths_start_at_the_root(rest: Seq<char>, c: char)
    ensures
        paths::absolute(seq!['/'] + rest),
        c != '/' ==> !paths::absolute(seq![c] + rest),
        !paths::absolute(Seq::empty()),
{
    assert((seq!['/'] + rest)[0] == '/');
    assert((seq![c] + rest)[0] == c);
}

} // verus!
