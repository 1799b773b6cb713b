//! Where files are kept.

use crate::handlers::is_id_char;
use vstd::prelude::*;

verus! {

/// A character of a plain path part.
pub open spec fn is_part_char(c: char) -> bool {
    is_id_char(c) || c == '.'
}

/// A path of one part: letters, digits, hyphens, underscores and dots.
pub open spec fn is_part(s: Seq<char>) -> bool {
    s.len() > 0 && forall|i: int| 0 <= i < s.len() ==> is_part_char(#[trigger] s[i])
}

/// The name of a file in a directory: a part that is not `.`.
pub open spec fn is_file_name(s: Seq<char>) -> bool {
    is_part(s) && s != seq!['.']
}

/// Whether a part `.` ends at a place of a path and does not begin it.
pub open spec fn inner_dot_at(s: Seq<char>, i: int) -> bool {
    0 < i < s.len() && s[i] == '.' && s[i - 1] == '/' && (i + 1 == s.len() || s[i + 1] == '/')
}

/// A plain directory path: parts with single slashes between them and at most one
/// at the front, of which only the first of a relative path may be `.`.
pub open spec fn is_dir_path(s: Seq<char>) -> bool {
    &&& s.len() > 0
    &&& s.last() != '/'
    &&& forall|i: int| 0 <= i < s.len() ==> is_part_char(#[trigger] s[i]) || s[i] == '/'
    &&& forall|i: int, j: int|
        0 <= i < s.len() && j == i + 1 && j < s.len() ==> !(#[trigger] s[i] == '/' && #[trigger] s[j]
            == '/')
    &&& forall|i: int| !#[trigger] inner_dot_at(s, i)
}

/// The path of a file in a directory.
pub open spec fn file_in(dir: Seq<char>, name: Seq<char>) -> Seq<char> {
    dir + "/"@ + name
}

/// The text of an optional path.
pub open spec fn path_text(path: Option<&str>) -> Option<Seq<char>> {
    match path {
        Some(p) => Some(p@),
        None => None,
    }
}

/// What the parent of a path is, as far as it is the same on every machine: the
/// empty path and the root have none, that of a path of one part is the empty path,
/// that of a file in the root is the root, and that of a file in a plain directory
/// is the directory.
pub open spec fn is_parent(path: Seq<char>, parent: Option<Seq<char>>) -> bool {
    &&& path.len() == 0 ==> parent is None
    &&& path == seq!['/'] ==> parent is None
    &&& is_part(path) ==> parent == Some(Seq::<char>::empty())
    &&& forall|name: Seq<char>|
        is_file_name(name) && path == #[trigger] file_in(Seq::empty(), name) ==> parent == Some(
            seq!['/'],
        )
    &&& forall|dir: Seq<char>, name: Seq<char>|
        is_dir_path(dir) && is_file_name(name) && path == #[trigger] file_in(dir, name) ==> parent
            == Some(dir)
}

/// `std::path::Path::parent`: the path without its final component, or nothing if
/// there is none. What separates components depends on the machine, so of paths
/// with other characters nothing is claimed, nor of those with doubled or trailing
/// slashes.
#[verifier::external_body]
fn parent_path(path: &str) -> (r: Option<&str>)
    ensures
        is_parent(path@, path_text(r)),
{
    std::path::Path::new(path).parent()?.to_str()
}

/// The directory that holds the file directories: the one that the database lies
/// in, or `/db` if the database path has no parent.
pub fn storage_base(parent: Option<&str>) -> (r: String)
    ensures
        r@ == (match parent {
            Some(p) => p@,
            None => "/db"@,
        }),
{
    match parent {
        Some(p) => p.to_owned(),
        None => "/db".to_owned(),
    }
}

/// The directory that holds the file directories, given where the database lies.
/// What the parent of a path is depends on the machine for some paths.
pub fn storage_dir(db_path: &str) -> (r: String)
    ensures
        exists|parent: Option<Seq<char>>| #[trigger]
            is_parent(db_path@, parent) && r@ == (match parent {
                Some(dir) => dir,
                None => "/db"@,
            }),
        db_path@.len() == 0 || db_path@ == seq!['/'] ==> r@ == "/db"@,
        is_part(db_path@) ==> r@.len() == 0,
        forall|name: Seq<char>|
            is_file_name(name) && db_path@ == #[trigger] file_in(Seq::empty(), name) ==> r@ == seq![
                '/',
            ],
        forall|dir: Seq<char>, name: Seq<char>|
            is_dir_path(dir) && is_file_name(name) && db_path@ == #[trigger] file_in(dir, name)
                ==> r@ == dir,
{
    let parent = parent_path(db_path);
    let r = storage_base(parent);
    assert(is_parent(db_path@, path_text(parent)));
    r
}

} // verus!
