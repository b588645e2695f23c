//! Questions put to the file system, with the answers it gave. An answer depends on the
//! file system at the moment of the question, so nothing is promised of which answer
//! comes; what is recorded is that this answer came for this path. Only the questions
//! below can establish such a record, so a contract that speaks of one speaks of a
//! question that was really asked.
use vstd::prelude::*;

use crate::qemu_command::{path_exists, path_is_dir, path_is_file};

verus! {

/// The file system was asked whether `path` is a regular file and answered `answer`.
/// Outside this module the predicate is opaque: only [`ask_is_file`] establishes it.
pub closed spec fn answered_is_file(path: Seq<char>, answer: bool) -> bool {
    true
}

/// The file system was asked whether something exists at `path` and answered `answer`.
/// Outside this module the predicate is opaque: only [`ask_exists`] establishes it.
pub closed spec fn answered_exists(path: Seq<char>, answer: bool) -> bool {
    true
}

/// The file system was asked whether `path` is a directory and answered `answer`.
/// Outside this module the predicate is opaque: only [`ask_is_dir`] establishes it.
pub closed spec fn answered_is_dir(path: Seq<char>, answer: bool) -> bool {
    true
}

/// `answer` is what is known of whether the executable `path` is a regular file: `false`
/// for an empty path, which is not asked about, otherwise the file system's answer.
pub open spec fn executable_answer(path: Seq<char>, answer: bool) -> bool {
    if path.len() == 0 {
        !answer
    } else {
        answered_is_file(path, answer)
    }
}

/// Asks the file system whether `path` is a regular file.
pub fn ask_is_file(path: &str) -> (r: bool)
    ensures
        answered_is_file(path@, r),
{
    path_is_file(path)
}

/// Asks the file system whether something exists at `path`.
pub fn ask_exists(path: &str) -> (r: bool)
    ensures
        answered_exists(path@, r),
{
    path_exists(path)
}

/// Asks the file system whether `path` is a directory.
pub fn ask_is_dir(path: &str) -> (r: bool)
    ensures
        answered_is_dir(path@, r),
{
    path_is_dir(path)
}

} // verus!
