//! Path arithmetic on path strings.
//!
//! Paths are held as strings. What the platform's path syntax makes of them
//! is left to `std::path`; its answers are named here so that contracts can
//! speak of them.

use std::path::Path;
use vstd::prelude::*;

verus! {

/// The parent of a path as `Path::parent` gives it: the path without its
/// final component, or `None` where the path ends in a root or is empty.
pub uninterp spec fn path_parent(path: Seq<char>) -> Option<Seq<char>>;

/// The final component of a path as `Path::file_name` gives it, or `None`
/// where the path ends in `..` or has no component.
pub uninterp spec fn path_file_name(path: Seq<char>) -> Option<Seq<char>>;

/// `tail` adjoined to `base` as `Path::join` does it; an absolute `tail`
/// replaces `base`.
pub uninterp spec fn path_join(base: Seq<char>, tail: Seq<char>) -> Seq<char>;

/// `Path::parent` on a path string. The parent of a path that is valid text
/// is valid text, so nothing is lost in handing it back as a string.
#[verifier::external_body]
pub(crate) fn parent_of(path: &str) -> (r: Option<String>)
    ensures
        match r {
            Some(p) => path_parent(path@) == Some(p@),
            None => path_parent(path@) is None,
        },
{
    Path::new(path).parent().and_then(Path::to_str).map(String::from)
}

/// `Path::file_name` on a path string.
#[verifier::external_body]
pub(crate) fn file_name_of(path: &str) -> (r: Option<String>)
    ensures
        match r {
            Some(n) => path_file_name(path@) == Some(n@),
            None => path_file_name(path@) is None,
        },
{
    match Path::new(path).file_name() {
        Some(n) => Some(n.to_string_lossy().into_owned()),
        None => None,
    }
}

/// `Path::join` on path strings.
#[verifier::external_body]
pub(crate) fn join_paths(base: &str, tail: &str) -> (r: String)
    ensures
        r@ == path_join(base@, tail@),
{
    Path::new(base).join(tail).to_string_lossy().into_owned()
}

} // verus!
