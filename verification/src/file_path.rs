//! File paths, held as strings, and the two operations of `std::path` that
//! the library makes on them.
use vstd::prelude::*;
use std::path::Path;

verus! {

/// What `Path::join` gives for `base` and `path`, as a string.
pub uninterp spec fn joined_path(base: Seq<char>, path: Seq<char>) -> Seq<char>;

/// What `Path::parent` gives for `path`, as a string.
pub uninterp spec fn parent_path(path: Seq<char>) -> Option<Seq<char>>;

/// `Path::join`: `path` joined onto `base`. Both are strings, so the joined
/// path is one too and the conversion back loses nothing. Its result is
/// named by `joined_path`; how the two are put together (separators, an
/// absolute `path` replacing `base`) is left to the name.
#[verifier::external_body]
pub fn join_path(base: &str, path: &str) -> (r: String)
    ensures
        r@ == joined_path(base@, path@),
{
    Path::new(base).join(path).to_string_lossy().into_owned()
}

/// `Path::parent`: the path without its last component, `None` for a root or
/// an empty path. Its result is named by `parent_path`.
#[verifier::external_body]
pub fn parent_of(path: &str) -> (r: Option<String>)
    ensures
        match r {
            Some(p) => parent_path(path@) == Some(p@),
            None => parent_path(path@) is None,
        },
{
    match Path::new(path).parent() {
        Some(p) => Some(p.to_string_lossy().into_owned()),
        None => None,
    }
}

/// The directory that relative paths start from, given the parent of a
/// file: that parent, or `"."` when there is none.
pub open spec fn dir_or_current_spec(parent: Option<Seq<char>>) -> Seq<char> {
    match parent {
        Some(p) => p,
        None => "."@,
    }
}

/// The directory that relative paths start from, given the parent of a
/// file: that parent, or `"."` when there is none.
pub fn dir_or_current(parent: Option<String>) -> (r: String)
    ensures
        r@ == dir_or_current_spec(match parent {
            Some(p) => Some(p@),
            None => None,
        }),
{
    match parent {
        Some(p) => p,
        None => ".".to_owned(),
    }
}

} // verus!
