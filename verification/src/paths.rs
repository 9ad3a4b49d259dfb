//! File paths, with `/` between their components.
//!
//! The rules are those of `std::path` on Unix: repeated separators, trailing
//! separators and `.` components count for nothing, except for a `.` at the
//! very start.

use vstd::prelude::*;
use vstd::string::*;
use crate::text;

verus! {

// ---- components ----

/// Picks out the separator.
pub open spec fn separator() -> spec_fn(char) -> bool {
    |c: char| c == '/'
}

/// Where the components start: behind the root, or behind a leading `.`
/// component.
pub open spec fn body_start(p: Seq<char>) -> nat {
    if p.len() > 0 && p[0] == '/' {
        1
    } else if p.len() > 0 && p[0] == '.' && (p.len() == 1 || p[1] == '/') {
        1
    } else {
        0
    }
}

/// Whether `p` has a component behind its root or leading `.`.
pub open spec fn has_body(p: Seq<char>) -> bool {
    p.len() > body_start(p)
}

/// Where the last component of `p` starts.
pub open spec fn component_start(p: Seq<char>) -> nat {
    body_start(p) + text::after_last(p.skip(body_start(p) as int), separator())
}

/// The last component of `p`.
pub open spec fn last_component(p: Seq<char>) -> Seq<char> {
    p.skip(component_start(p) as int)
}

/// `p` without its last component and the separator in front of it.
pub open spec fn without_last(p: Seq<char>) -> Seq<char> {
    if component_start(p) > body_start(p) {
        p.take(component_start(p) - 1)
    } else {
        p.take(body_start(p) as int)
    }
}

/// Whether a component counts for nothing.
pub open spec fn is_void(component: Seq<char>) -> bool {
    component.len() == 0 || component == seq!['.']
}

/// `p` up to its last component that counts.
pub open spec fn trimmed_path(p: Seq<char>) -> Seq<char>
    decreases p.len(),
{
    if has_body(p) && is_void(last_component(p)) {
        proof {
            lemma_component_start(p);
        }
        trimmed_path(without_last(p))
    } else {
        p
    }
}

/// The path of the directory that `p` is in; none where `p` is a root or
/// empty.
pub open spec fn parent(p: Seq<char>) -> Option<Seq<char>> {
    let q = trimmed_path(p);
    if has_body(q) {
        Some(trimmed_path(without_last(q)))
    } else if q == seq!['.'] {
        Some(seq![])
    } else {
        None
    }
}

/// The last component of `p`, where it is a name.
pub open spec fn file_name(p: Seq<char>) -> Option<Seq<char>> {
    let q = trimmed_path(p);
    if has_body(q) && last_component(q) != seq!['.', '.'] {
        Some(last_component(q))
    } else {
        None
    }
}

/// `name` inside the directory `dir`; `name` itself where it is absolute.
pub open spec fn joined(dir: Seq<char>, name: Seq<char>) -> Seq<char> {
    if name.len() > 0 && name[0] == '/' {
        name
    } else if dir.len() == 0 || dir.last() == '/' {
        dir + name
    } else {
        dir + seq!['/'] + name
    }
}

/// Picks out the dot.
pub open spec fn dot() -> spec_fn(char) -> bool {
    |c: char| c == '.'
}

/// The length of `name` without its extension: up to its last dot, unless
/// that stands at its start.
pub open spec fn stem_len(name: Seq<char>) -> nat {
    let k = text::after_last(name, dot());
    if k <= 1 {
        name.len()
    } else {
        (k - 1) as nat
    }
}

/// `p` with `ext` for an extension; `p` itself where it ends in no name.
pub open spec fn with_extension_spec(p: Seq<char>, ext: Seq<char>) -> Seq<char> {
    match file_name(p) {
        None => p,
        Some(name) => {
            let q = trimmed_path(p);
            q.take(q.len() - name.len() + stem_len(name)) + if ext.len() > 0 {
                seq!['.'] + ext
            } else {
                seq![]
            }
        },
    }
}

// ---- facts about components ----

pub proof fn lemma_component_start(p: Seq<char>)
    requires
        has_body(p),
    ensures
        body_start(p) <= component_start(p) <= p.len(),
        component_start(p) > body_start(p) ==> p[component_start(p) - 1] == '/',
        forall|i: int| component_start(p) <= i < p.len() ==> #[trigger] p[i] != '/',
        without_last(p).len() < p.len(),
{
    let b = body_start(p) as int;
    let body = p.skip(b);
    text::lemma_after_last(body, separator());
    let k = text::after_last(body, separator());
    if k > 0 {
        assert(body[k - 1] == p[b + k - 1]);
        assert(separator()(body[k - 1]));
    }
    assert forall|i: int| component_start(p) <= i < p.len() implies #[trigger] p[i] != '/' by {
        assert(body[i - b] == p[i]);
        assert(!separator()(body[i - b]));
    }
}

/// The place behind the last separator is the only one with these two
/// properties.
proof fn lemma_component_start_unique(p: Seq<char>, at: int)
    requires
        has_body(p),
        body_start(p) <= at <= p.len(),
        at > body_start(p) ==> p[at - 1] == '/',
        forall|i: int| at <= i < p.len() ==> #[trigger] p[i] != '/',
    ensures
        component_start(p) == at,
{
    lemma_component_start(p);
    if component_start(p) > at {
        assert(p[component_start(p) - 1] == '/');
    } else if component_start(p) < at {
        assert(p[at - 1] == '/');
    }
}

/// Trimming keeps a prefix, and what it keeps ends in a component that
/// counts.
proof fn lemma_trimmed_path(p: Seq<char>)
    ensures
        trimmed_path(p).len() <= p.len(),
        trimmed_path(p) == p.take(trimmed_path(p).len() as int),
        has_body(trimmed_path(p)) ==> !is_void(last_component(trimmed_path(p))),
    decreases p.len(),
{
    if has_body(p) && is_void(last_component(p)) {
        lemma_component_start(p);
        let w = without_last(p);
        lemma_trimmed_path(w);
        assert(trimmed_path(w) =~= p.take(trimmed_path(w).len() as int));
    } else {
        assert(p =~= p.take(p.len() as int));
    }
}

/// Trimming a trimmed path changes nothing.
proof fn lemma_trimmed_once(p: Seq<char>)
    ensures
        trimmed_path(trimmed_path(p)) == trimmed_path(p),
{
    lemma_trimmed_path(p);
}

// ---- the functions ----

/// Where the components of `chars[..end]` start.
fn find_body(chars: &Vec<char>, end: usize) -> (r: usize)
    requires
        end <= chars@.len(),
    ensures
        r == body_start(chars@.take(end as int)),
        r <= end,
{
    if end > 0 && chars[0] == '/' {
        1
    } else if end > 0 && chars[0] == '.' && (end == 1 || chars[1] == '/') {
        1
    } else {
        0
    }
}

/// Where the last component of `chars[..end]` starts.
fn find_component(chars: &Vec<char>, end: usize, body: usize) -> (r: usize)
    requires
        end <= chars@.len(),
        body == body_start(chars@.take(end as int)),
        body < end,
    ensures
        r == component_start(chars@.take(end as int)),
        body <= r <= end,
{
    let ghost p = chars@.take(end as int);
    let mut at: usize = end;
    while at > body && chars[at - 1] != '/'
        invariant
            body <= at <= end <= chars@.len(),
            p == chars@.take(end as int),
            forall|i: int| at <= i < end ==> #[trigger] p[i] != '/',
        decreases at,
    {
        at = at - 1;
    }
    proof {
        lemma_component_start_unique(p, at as int);
    }
    at
}

/// Where `chars[..end]` ends without its last component.
fn cut_component(body: usize, component: usize) -> (r: usize)
    requires
        body <= component,
    ensures
        r == if component > body {
            component - 1
        } else {
            body as int
        },
{
    if component > body {
        component - 1
    } else {
        body
    }
}

/// Where `chars[..end]` ends once it is trimmed.
fn trim_tail(chars: &Vec<char>, end: usize) -> (r: usize)
    requires
        end <= chars@.len(),
    ensures
        r <= end,
        chars@.take(r as int) == trimmed_path(chars@.take(end as int)),
{
    let mut at: usize = end;
    loop
        invariant
            at <= end <= chars@.len(),
            trimmed_path(chars@.take(at as int)) == trimmed_path(chars@.take(end as int)),
        ensures
            at <= end,
            chars@.take(at as int) == trimmed_path(chars@.take(end as int)),
        decreases at,
    {
        let ghost p = chars@.take(at as int);
        let body: usize = find_body(chars, at);
        if at <= body {
            break ;
        }
        let component: usize = find_component(chars, at, body);
        let ghost last = p.skip(component as int);
        let void = component == at || (at - component == 1 && chars[component] == '.');
        proof {
            if at - component == 1 {
                assert(last[0] == p[component as int]);
                if chars@[component as int] == '.' {
                    assert(last =~= seq!['.']);
                } else {
                    assert(last[0] != seq!['.'][0]);
                }
            } else if component != at {
                assert(last.len() != seq!['.'].len());
            }
            assert(void == is_void(last));
        }
        if !void {
            break ;
        }
        let cut: usize = cut_component(body, component);
        proof {
            lemma_component_start(p);
            assert(without_last(p) =~= chars@.take(cut as int));
        }
        at = cut;
    }
    at
}

/// The directory that `path` is in.
pub fn parent_dir(path: &str) -> (r: Option<String>)
    ensures
        text::opt_text(r) == parent(path@),
{
    let chars = text::chars_of(path);
    proof {
        assert(chars@.take(chars@.len() as int) =~= chars@);
    }
    let end: usize = trim_tail(&chars, chars.len());
    let ghost q = chars@.take(end as int);
    let body: usize = find_body(&chars, end);
    if end > body {
        let component: usize = find_component(&chars, end, body);
        let cut: usize = cut_component(body, component);
        let to: usize = trim_tail(&chars, cut);
        proof {
            lemma_component_start(q);
            assert(without_last(q) =~= chars@.take(cut as int));
            assert(chars@.subrange(0, to as int) =~= chars@.take(to as int));
        }
        Some(text::text_between(&chars, 0, to))
    } else if end == 1 && chars[0] == '.' {
        proof {
            assert(q =~= seq!['.']);
        }
        Some(String::new())
    } else {
        proof {
            if q == seq!['.'] {
                assert(q[0] == chars@[0]);
            }
        }
        None
    }
}

/// The name at the end of `path`.
pub fn base_name(path: &str) -> (r: Option<String>)
    ensures
        text::opt_text(r) == file_name(path@),
{
    let chars = text::chars_of(path);
    proof {
        assert(chars@.take(chars@.len() as int) =~= chars@);
    }
    let end: usize = trim_tail(&chars, chars.len());
    let ghost q = chars@.take(end as int);
    let body: usize = find_body(&chars, end);
    if end <= body {
        return None;
    }
    let component: usize = find_component(&chars, end, body);
    let ghost last = q.skip(component as int);
    proof {
        assert(last =~= chars@.subrange(component as int, end as int));
    }
    if end - component == 2 && chars[component] == '.' && chars[component + 1] == '.' {
        proof {
            assert(last =~= seq!['.', '.']);
        }
        None
    } else {
        proof {
            if last == seq!['.', '.'] {
                assert(last[0] == chars@[component as int]);
                assert(last[1] == chars@[component + 1]);
            }
        }
        Some(text::text_between(&chars, component, end))
    }
}

/// `name` inside the directory `dir`.
pub fn join(dir: &str, name: &str) -> (r: String)
    ensures
        r@ == joined(dir@, name@),
{
    let d = text::chars_of(dir);
    let n = text::chars_of(name);
    if n.len() > 0 && n[0] == '/' {
        return name.to_owned();
    }
    let mut out = dir.to_owned();
    if d.len() > 0 && d[d.len() - 1] != '/' {
        out.push('/');
        proof {
            assert(dir@.push('/') =~= dir@ + seq!['/']);
        }
    }
    out.append(name);
    out
}

/// Where the stem of the name `chars[from..end]` ends.
fn find_stem_end(chars: &Vec<char>, from: usize, end: usize) -> (r: usize)
    requires
        from < end <= chars@.len(),
    ensures
        from < r <= end,
        r == from + stem_len(chars@.subrange(from as int, end as int)),
{
    let ghost name = chars@.subrange(from as int, end as int);
    let mut at: usize = end;
    proof {
        assert(name.take(name.len() as int) =~= name);
    }
    while at > from && chars[at - 1] != '.'
        invariant
            from <= at <= end <= chars@.len(),
            name == chars@.subrange(from as int, end as int),
            text::after_last(name, dot()) == text::after_last(name.take(at - from), dot()),
        decreases at,
    {
        proof {
            let shorter = name.take(at - from);
            assert(shorter.last() == chars@[at - 1]);
            assert(!dot()(shorter.last()));
            assert(shorter.drop_last() =~= name.take(at - 1 - from));
        }
        at = at - 1;
    }
    proof {
        let shorter = name.take(at - from);
        if at > from {
            assert(shorter.last() == chars@[at - 1]);
            assert(dot()(shorter.last()));
        }
        assert(text::after_last(name, dot()) == at - from);
    }
    if at - from <= 1 {
        end
    } else {
        at - 1
    }
}

/// `path` with another extension.
pub fn with_extension(path: &str, ext: &str) -> (r: String)
    ensures
        r@ == with_extension_spec(path@, ext@),
{
    if base_name(path).is_none() {
        return path.to_owned();
    }
    let chars = text::chars_of(path);
    proof {
        assert(chars@.take(chars@.len() as int) =~= chars@);
    }
    let end: usize = trim_tail(&chars, chars.len());
    let body: usize = find_body(&chars, end);
    let component: usize = find_component(&chars, end, body);
    let ghost q = chars@.take(end as int);
    let ghost name = q.skip(component as int);
    proof {
        lemma_trimmed_path(path@);
        assert(name.len() > 0);
        assert(name =~= chars@.subrange(component as int, end as int));
    }
    let stem_end: usize = find_stem_end(&chars, component, end);
    let mut out = text::text_between(&chars, 0, stem_end);
    let ghost kept = out@;
    proof {
        assert(kept =~= q.take(q.len() - name.len() + stem_len(name)));
    }
    if !ext.is_empty() {
        out.push('.');
        out.append(ext);
        proof {
            assert(out@ =~= kept + (seq!['.'] + ext@));
        }
    } else {
        proof {
            assert(out@ =~= kept + Seq::<char>::empty());
        }
    }
    out
}

/// Whether `path` starts at the root.
pub open spec fn absolute(path: Seq<char>) -> bool {
    path.len() > 0 && path[0] == '/'
}

/// Whether `path` starts at the root.
pub fn is_absolute(path: &str) -> (r: bool)
    ensures
        r == absolute(path@),
{
    let chars = text::chars_of(path);
    chars.len() > 0 && chars[0] == '/'
}

// ---- the places of this app ----

/// Path to a bot's pending-download journal.
pub open spec fn journal_place(status_path: Seq<char>, id: Seq<char>) -> Seq<char> {
    let dir = match parent(status_path) {
        Some(d) => d,
        None => "."@,
    };
    joined(dir, "pending-"@ + id + ".json"@)
}

/// Path to a bot's pending-download journal, kept beside the status file.
pub fn journal_path(status_path: &str, id: &str) -> (r: String)
    ensures
        r@ == journal_place(status_path@, id@),
{
    let dir = match parent_dir(status_path) {
        Some(d) => d,
        None => ".".to_owned(),
    };
    let mut name = "pending-".to_owned();
    name.append(id);
    name.append(".json");
    join(dir.as_str(), name.as_str())
}

/// Where a bot's files go.
pub open spec fn save_dir(file: Seq<char>, files_dir: Option<Seq<char>>) -> Seq<char> {
    if files_dir is Some && text::trimmed(files_dir->0).len() > 0 {
        text::trimmed(files_dir->0)
    } else {
        match parent(file) {
            Some(d) => joined(d, "attachments"@),
            None => "attachments"@,
        }
    }
}

/// Resolve where a bot's received files go: the configured `files_dir`, or an
/// `attachments` folder next to the markdown file when unset. Telegram
/// downloads and local file drops both land there.
pub fn resolve_save_dir(file: &str, files_dir: Option<&str>) -> (r: String)
    ensures
        r@ == save_dir(file@, text::opt_str(files_dir)),
{
    if let Some(d) = files_dir {
        let dir = text::trim(d);
        if !dir.as_str().is_empty() {
            return dir;
        }
    }
    match parent_dir(file) {
        Some(d) => join(d.as_str(), "attachments"),
        None => "attachments".to_owned(),
    }
}

/// The directory that has to be there before `path` can be written, if it
/// names one.
pub open spec fn needed_dir(path: Seq<char>) -> Option<Seq<char>> {
    match parent(path) {
        Some(d) => if d.len() > 0 {
            Some(d)
        } else {
            None
        },
        None => None,
    }
}

/// The directory to create before `path` is written.
pub fn dir_to_create(path: &str) -> (r: Option<String>)
    ensures
        text::opt_text(r) == needed_dir(path@),
{
    match parent_dir(path) {
        Some(d) => if d.as_str().is_empty() {
            None
        } else {
            Some(d)
        },
        None => None,
    }
}

/// Where an unreadable file is moved to: its whole name, and a stamp behind it.
pub open spec fn backup_place(path: Seq<char>, stamp: Seq<char>) -> Seq<char> {
    trimmed_path(path) + ".corrupt-"@ + stamp
}

/// Where an unreadable configuration file is moved to:
/// `<name>.corrupt-<timestamp>`.
pub fn corrupt_backup_path(path: &str, stamp: &str) -> (r: String)
    ensures
        r@ == backup_place(path@, stamp@),
{
    let chars = text::chars_of(path);
    let end: usize = trim_tail(&chars, chars.len());
    proof {
        assert(chars@.take(chars@.len() as int) =~= chars@);
        assert(chars@.subrange(0, end as int) =~= chars@.take(end as int));
    }
    let mut out = text::text_between(&chars, 0, end);
    out.append(".corrupt-");
    out.append(stamp);
    out
}

// ---- what the paths promise ----

/// Whether `name` is one component that counts.
pub open spec fn is_component(name: Seq<char>) -> bool {
    &&& !is_void(name)
    &&& forall|i: int| 0 <= i < name.len() ==> #[trigger] name[i] != '/'
}

/// A path whose last component is `name`, put behind `front`.
proof fn lemma_last_component(front: Seq<char>, name: Seq<char>)
    requires
        is_component(name),
        front.len() > 0 ==> front.last() == '/',
    ensures
        ({
            let p = front + name;
            &&& has_body(p)
            &&& component_start(p) == front.len()
            &&& last_component(p) == name
            &&& trimmed_path(p) == p
            &&& body_start(p) <= front.len()
        }),
{
    let p = front + name;
    if front.len() == 0 {
        assert(p =~= name);
        if p[0] == '.' && p.len() == 1 {
            assert(name =~= seq!['.']);
        }
    } else if front.len() == 1 {
        assert(p[0] == '/');
    } else {
        assert(p[0] == front[0] && p[1] == front[1]);
    }
    assert(p[front.len() as int] == name[0]);
    if front.len() > body_start(p) {
        assert(p[front.len() - 1] == '/');
    }
    assert forall|i: int| front.len() <= i < p.len() implies #[trigger] p[i] != '/' by {
        assert(p[i] == name[i - front.len()]);
    }
    lemma_component_start_unique(p, front.len() as int);
    assert(last_component(p) =~= name);
}

/// What is joined to a directory is in that directory, under its name.
pub proof fn joined_paths_are_inside(dir: Seq<char>, name: Seq<char>)
    requires
        is_component(name),
    ensures
        parent(joined(dir, name)) == Some(trimmed_path(dir)),
        name != seq!['.', '.'] ==> file_name(joined(dir, name)) == Some(name),
{
    let p = joined(dir, name);
    assert(name[0] != '/');
    if dir.len() == 0 {
        assert(p =~= dir + name);
        lemma_last_component(dir, name);
        assert(body_start(p) == 0);
        assert(without_last(p) =~= dir);
    } else if dir.last() == '/' {
        lemma_last_component(dir, name);
        assert(p[0] == dir[0]);
        if has_body(dir) {
            assert(p[1] == dir[1]);
            assert(body_start(p) == body_start(dir));
            lemma_component_start(dir);
            if component_start(dir) < dir.len() {
                assert(dir[dir.len() - 1] != '/');
            }
            assert(is_void(last_component(dir)));
            assert(without_last(p) =~= without_last(dir));
        } else {
            assert(dir =~= seq!['/']);
            assert(without_last(p) =~= dir);
        }
    } else {
        let front = dir + seq!['/'];
        assert(p =~= front + name);
        lemma_last_component(front, name);
        assert(p[0] == dir[0]);
        if dir.len() > 1 {
            assert(p[1] == dir[1]);
        } else {
            assert(p[1] == '/');
        }
        assert(body_start(p) == body_start(dir));
        assert(without_last(p) =~= dir);
    }
}

/// A parent directory is trimmed already.
proof fn lemma_parent_is_trimmed(p: Seq<char>)
    requires
        parent(p) is Some,
    ensures
        trimmed_path(parent(p)->0) == parent(p)->0,
{
    let q = trimmed_path(p);
    if has_body(q) {
        lemma_trimmed_once(without_last(q));
    }
}

/// Without a folder of its own, a bot's files go into `attachments` in the
/// directory of its markdown file.
pub proof fn attachments_are_next_to_the_file(file: Seq<char>, files_dir: Option<Seq<char>>)
    requires
        parent(file) is Some,
        files_dir is Some ==> text::trimmed(files_dir->0).len() == 0,
    ensures
        parent(save_dir(file, files_dir)) == parent(file),
        file_name(save_dir(file, files_dir)) == Some("attachments"@),
{
    reveal_strlit("attachments");
    lemma_parent_is_trimmed(file);
    let name = "attachments"@;
    assert(name.len() == 11);
    assert(name != seq!['.', '.']) by {
        assert(seq!['.', '.'].len() == 2);
    }
    assert(name != seq!['.']) by {
        assert(seq!['.'].len() == 1);
    }
    joined_paths_are_inside(parent(file)->0, name);
}

/// A bot's journal is kept beside the status file.
pub proof fn journals_are_beside_the_status_file(status_path: Seq<char>, id: Seq<char>)
    requires
        parent(status_path) is Some,
        forall|i: int| 0 <= i < id.len() ==> #[trigger] id[i] != '/',
    ensures
        parent(journal_place(status_path, id)) == parent(status_path),
        file_name(journal_place(status_path, id)) == Some("pending-"@ + id + ".json"@),
{
    reveal_strlit("pending-");
    reveal_strlit(".json");
    let name = "pending-"@ + id + ".json"@;
    lemma_parent_is_trimmed(status_path);
    assert(name[0] == 'p');
    assert(name != seq!['.', '.']) by {
        assert(seq!['.', '.'][0] == '.');
    }
    assert(name != seq!['.']) by {
        assert(seq!['.'][0] == '.');
    }
    assert forall|i: int| 0 <= i < name.len() implies #[trigger] name[i] != '/' by {
        if 8 <= i < 8 + id.len() {
            assert(name[i] == id[i - 8]);
        }
    }
    joined_paths_are_inside(parent(status_path)->0, name);
}

/// Different bots have different journals.
pub proof fn journals_are_distinct(status_path: Seq<char>, a: Seq<char>, b: Seq<char>)
    requires
        journal_place(status_path, a) == journal_place(status_path, b),
    ensures
        a == b,
{
    reveal_strlit("pending-");
    reveal_strlit(".json");
    let p = "pending-"@ + a + ".json"@;
    let q = "pending-"@ + b + ".json"@;
    assert(p[0] == 'p' && q[0] == 'p');
    let dir = match parent(status_path) {
        Some(d) => d,
        None => "."@,
    };
    let n = (joined(dir, p).len() - p.len()) as nat;
    let m = (joined(dir, q).len() - q.len()) as nat;
    assert(n == m);
    assert(a.len() == b.len());
    assert forall|i: int| 0 <= i < a.len() implies a[i] == b[i] by {
        assert(joined(dir, p)[n + 8 + i] == p[8 + i]);
        assert(joined(dir, q)[n + 8 + i] == q[8 + i]);
        assert(p[8 + i] == a[i]);
        assert(q[8 + i] == b[i]);
    }
    assert(a =~= b);
}

/// A trimmed path keeps its directory when another name takes the place of its
/// last component.
proof fn lemma_renamed(p: Seq<char>, fresh: Seq<char>)
    requires
        file_name(p) is Some,
        is_component(fresh),
        fresh != seq!['.', '.'],
    ensures
        ({
            let q = trimmed_path(p);
            let r = q.take(component_start(q) as int) + fresh;
            &&& q == q.take(component_start(q) as int) + file_name(p)->0
            &&& parent(r) == parent(p)
            &&& file_name(r) == Some(fresh)
        }),
{
    let q = trimmed_path(p);
    lemma_trimmed_path(p);
    lemma_component_start(q);
    let at = component_start(q) as int;
    let front = q.take(at);
    let r = front + fresh;
    assert(q =~= front + last_component(q));
    // The front ends in a separator, or there is none.
    if at > body_start(q) {
        assert(front.last() == '/');
    } else if body_start(q) == 1 {
        if q[0] == '.' {
            assert(q[1] == '/');
            assert(q[at] != '/');
        }
    }
    lemma_last_component(front, fresh);
    // The start of the body is the same on both sides.
    if at >= 2 {
        assert(r[0] == q[0] && r[1] == q[1]);
    } else if at == 1 {
        assert(r[0] == q[0]);
    } else {
        assert(body_start(r) == 0);
    }
    assert(body_start(r) == body_start(q));
    assert(without_last(r) =~= without_last(q));
}

/// A file with another extension is a sibling of the file: what is written
/// beside a file and then renamed over it stays in one directory.
pub proof fn extensions_keep_the_directory(p: Seq<char>, ext: Seq<char>)
    requires
        file_name(p) is Some,
        ext.len() > 0,
        forall|i: int| 0 <= i < ext.len() ==> #[trigger] ext[i] != '/',
    ensures
        parent(with_extension_spec(p, ext)) == parent(p),
        ({
            let name = file_name(p)->0;
            file_name(with_extension_spec(p, ext)) == Some(
                name.take(stem_len(name) as int) + seq!['.'] + ext,
            )
        }),
{
    let q = trimmed_path(p);
    let name = last_component(q);
    lemma_trimmed_path(p);
    lemma_component_start(q);
    text::lemma_after_last(name, dot());
    let at = component_start(q) as int;
    let stem = name.take(stem_len(name) as int);
    let fresh = stem + seq!['.'] + ext;
    assert(q.len() - name.len() == at);
    assert(stem.len() > 0);
    assert forall|i: int| 0 <= i < fresh.len() implies #[trigger] fresh[i] != '/' by {
        if i < stem.len() {
            assert(fresh[i] == q[at + i]);
        } else if i > stem.len() {
            assert(fresh[i] == ext[i - stem.len() - 1]);
        }
    }
    assert(fresh.len() >= 3);
    assert(fresh != seq!['.', '.']) by {
        assert(seq!['.', '.'].len() == 2);
    }
    assert(fresh != seq!['.']) by {
        assert(seq!['.'].len() == 1);
    }
    lemma_renamed(p, fresh);
    assert(with_extension_spec(p, ext) =~= q.take(at) + fresh);
}

/// Whether `s` ends in `end`.
pub open spec fn ends_in(s: Seq<char>, end: Seq<char>) -> bool {
    end.len() <= s.len() && s.skip(s.len() - end.len()) == end
}

/// A file with another extension is another file: a path with a new extension
/// ends in it, and is not the path that it was made of unless that ended in it
/// already.
pub proof fn extensions_rename(p: Seq<char>, ext: Seq<char>)
    requires
        file_name(p) is Some,
        ext.len() > 0,
    ensures
        ends_in(with_extension_spec(p, ext), ext),
        !ends_in(p, ext) ==> with_extension_spec(p, ext) != p,
{
    let q = trimmed_path(p);
    let name = last_component(q);
    lemma_trimmed_path(p);
    lemma_component_start(q);
    text::lemma_after_last(name, dot());
    let r = with_extension_spec(p, ext);
    assert(r.skip(r.len() - ext.len()) =~= ext);
}

/// A file that is moved aside stays in its directory, under its whole name with
/// the stamp behind it. It is another file, out of the way of the next one that
/// is written.
pub proof fn corrupt_files_are_moved_aside(path: Seq<char>, stamp: Seq<char>)
    requires
        file_name(path) is Some,
        forall|i: int| 0 <= i < stamp.len() ==> #[trigger] stamp[i] != '/',
    ensures
        parent(backup_place(path, stamp)) == parent(path),
        file_name(backup_place(path, stamp)) == Some(file_name(path)->0 + ".corrupt-"@ + stamp),
        file_name(backup_place(path, stamp)) != file_name(path),
{
    reveal_strlit(".corrupt-");
    let q = trimmed_path(path);
    let name = last_component(q);
    lemma_trimmed_path(path);
    lemma_component_start(q);
    let at = component_start(q) as int;
    let fresh = name + ".corrupt-"@ + stamp;
    assert forall|i: int| 0 <= i < fresh.len() implies #[trigger] fresh[i] != '/' by {
        if i < name.len() {
            assert(fresh[i] == q[at + i]);
        } else if i >= name.len() + 9 {
            assert(fresh[i] == stamp[i - name.len() - 9]);
        } else {
            assert(fresh[i] == ".corrupt-"@[i - name.len()]);
        }
    }
    assert(fresh.len() >= 10);
    assert(fresh != seq!['.', '.']) by {
        assert(seq!['.', '.'].len() == 2);
    }
    assert(fresh != seq!['.']) by {
        assert(seq!['.'].len() == 1);
    }
    lemma_renamed(path, fresh);
    assert(backup_place(path, stamp) =~= q.take(at) + fresh);
}

} // verus!
