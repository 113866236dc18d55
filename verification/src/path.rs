//! Paths: `std::path::PathBuf` as the library carries it, and the two calls
//! that it makes on it.
//!
//! Nothing in this file is proved. A path is opaque to the verifier, and the
//! result of each call is only given its name.

use std::path::PathBuf;
use vstd::prelude::*;

verus! {

/// `std::path::PathBuf`, carried through the library as an opaque value.
#[verifier::external_type_specification]
#[verifier::external_body]
pub struct ExPathBuf(std::path::PathBuf);

/// `PathBuf::clone` returns an equal path.
pub assume_specification[ <std::path::PathBuf as Clone>::clone ](
    path: &std::path::PathBuf,
) -> (r: std::path::PathBuf)
    ensures
        r == *path,
;

/// The path that a text stands for.
pub uninterp spec fn path_of(text: Seq<char>) -> PathBuf;

/// The path of a file with the given name in a directory.
pub uninterp spec fn joined_path(directory: PathBuf, name: Seq<char>) -> PathBuf;

/// `PathBuf::from` on a text.
#[verifier::external_body]
pub(crate) fn path_from(text: &str) -> (r: PathBuf)
    ensures
        r == path_of(text@),
{
    PathBuf::from(text)
}

/// `Path::join` on a directory and the name of a file in it.
#[verifier::external_body]
pub(crate) fn join_path(directory: &PathBuf, name: &str) -> (r: PathBuf)
    ensures
        r == joined_path(*directory, name@),
{
    directory.join(name)
}

} // verus!
