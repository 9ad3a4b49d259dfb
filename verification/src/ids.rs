//! Identifiers of bots, and names for temporary files.

use vstd::prelude::*;
use vstd::string::*;
use crate::paths;

verus! {

/// Whether `c` is a lower-case hexadecimal digit.
pub open spec fn hex_digit(c: char) -> bool {
    '0' <= c <= '9' || 'a' <= c <= 'f'
}

/// Whether `s` is a random UUID in its usual form, such as
/// `67e55044-10b1-426f-9247-bb680e5fe0c8`.
pub open spec fn is_id(s: Seq<char>) -> bool {
    &&& s.len() == 36
    &&& s[8] == '-' && s[13] == '-' && s[18] == '-' && s[23] == '-'
    &&& s[14] == '4'
    &&& s[19] == '8' || s[19] == '9' || s[19] == 'a' || s[19] == 'b'
    &&& forall|i: int|
        0 <= i < 36 && i != 8 && i != 13 && i != 18 && i != 23 ==> hex_digit(#[trigger] s[i])
}

/// Calls `uuid::Uuid::new_v4` and its `to_string`. Claimed: the text has the
/// form of a random UUID. Which one is up to chance.
#[verifier::external_body]
fn random_uuid() -> (r: String)
    ensures
        is_id(r@),
{
    uuid::Uuid::new_v4().to_string()
}

/// An identifier for a new bot.
pub fn new_id() -> (r: String)
    ensures
        is_id(r@),
{
    random_uuid()
}

/// The temporary file for `path` that is marked with `id`.
pub open spec fn temp_place(path: Seq<char>, id: Seq<char>) -> Seq<char> {
    paths::with_extension_spec(path, "tmp-"@ + id)
}

/// A temporary file for `path`. The name is different each time, so that two
/// writers of one file do not clobber each other's temporary file.
pub fn temp_path(path: &str) -> (r: String)
    ensures
        exists|id: Seq<char>| is_id(id) && r@ == #[trigger] temp_place(path@, id),
{
    let id = random_uuid();
    let mut ext = "tmp-".to_owned();
    ext.append(id.as_str());
    let r = paths::with_extension(path, ext.as_str());
    proof {
        assert(r@ == temp_place(path@, id@));
    }
    r
}

/// A temporary file is in the directory of the file that it is for, so that it
/// can be renamed over it.
pub proof fn temporary_files_are_siblings(path: Seq<char>, id: Seq<char>)
    requires
        paths::file_name(path) is Some,
        is_id(id),
    ensures
        paths::parent(temp_place(path, id)) == paths::parent(path),
{
    reveal_strlit("tmp-");
    let ext = "tmp-"@ + id;
    assert forall|i: int| 0 <= i < ext.len() implies #[trigger] ext[i] != '/' by {
        if i >= 4 {
            assert(ext[i] == id[i - 4]);
            assert(hex_digit(id[i - 4]) || id[i - 4] == '-');
        }
    }
    paths::extensions_keep_the_directory(path, ext);
}

/// Two writers of one file have different temporary files, and neither is the
/// file itself.
pub proof fn temporary_files_are_distinct(path: Seq<char>, a: Seq<char>, b: Seq<char>)
    requires
        paths::file_name(path) is Some,
        is_id(a),
        is_id(b),
    ensures
        a != b ==> temp_place(path, a) != temp_place(path, b),
        !paths::ends_in(path, a) ==> temp_place(path, a) != path,
{
    reveal_strlit("tmp-");
    let x = "tmp-"@ + a;
    let y = "tmp-"@ + b;
    paths::extensions_rename(path, x);
    paths::extensions_rename(path, y);
    if temp_place(path, a) == temp_place(path, b) {
        assert(x == y);
        assert(x.skip(4) =~= a);
        assert(y.skip(4) =~= b);
    }
    if paths::ends_in(path, x) {
        let end = path.skip(path.len() - x.len());
        assert(end.skip(4) =~= path.skip(path.len() - a.len()));
        assert(x.skip(4) =~= a);
    }
}

} // verus!
