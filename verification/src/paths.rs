//! Paths, taken apart by the rules of the system that the program runs on.

use crate::config::opt_view;
use vstd::prelude::*;

verus! {

/// What `std::path::Path::parent` gives for a path.
pub uninterp spec fn path_parent(path: Seq<char>) -> Option<Seq<char>>;

/// What `std::path::Path::extension` gives for a path.
pub uninterp spec fn path_extension(path: Seq<char>) -> Option<Seq<char>>;

/// `std::path::Path::parent`: the path without its final component. There is
/// none of a path that ends in a root, nor of the empty one.
#[verifier::external_body]
fn parent_of(path: &str) -> (r: Option<String>)
    ensures
        opt_view(r) == path_parent(path@),
        path@ == "/"@ ==> r is None,
        path@ == ""@ ==> r is None,
{
    std::path::Path::new(path).parent().map(|dir| dir.to_string_lossy().into_owned())
}

/// `std::path::Path::extension`: what follows the last dot of the file name,
/// where there is a dot that the name does not begin with.
#[verifier::external_body]
fn extension_of(path: &str) -> (r: Option<String>)
    ensures
        opt_view(r) == path_extension(path@),
{
    std::path::Path::new(path).extension().map(|ext| ext.to_string_lossy().into_owned())
}

/// The directory of a file: its parent, or the root where it has none.
pub open spec fn dir_text(parent: Option<Seq<char>>) -> Seq<char> {
    match parent {
        Some(dir) => dir,
        None => "/"@,
    }
}

/// The directory in which the capture binary runs: that of its output.
pub open spec fn capture_dir_text(output: Seq<char>) -> Seq<char> {
    dir_text(path_parent(output))
}

/// The directory of a file with the given parent.
pub fn dir_or_root(parent: Option<String>) -> (r: String)
    ensures
        r@ == dir_text(opt_view(parent)),
{
    match parent {
        Some(dir) => dir,
        None => "/".to_owned(),
    }
}

/// The directory in which the capture binary runs: that of its output.
pub fn capture_dir(output: &str) -> (r: String)
    ensures
        r@ == capture_dir_text(output@),
        output@ == "/"@ || output@ == ""@ ==> r@ == "/"@,
{
    dir_or_root(parent_of(output))
}

/// A path has an extension, and that is not empty.
pub open spec fn has_extension(path: Seq<char>) -> bool {
    path_extension(path) is Some && path_extension(path)->0.len() > 0
}

/// Whether a path has an extension that is not empty.
pub fn names_extension(path: &str) -> (r: bool)
    ensures
        r == has_extension(path@),
{
    match extension_of(path) {
        Some(ext) => !ext.as_str().is_empty(),
        None => false,
    }
}

// ---------------------------------------------------------------------------
// Laws

/// The capture binary runs in the parent of its output, and in the root where
/// there is no parent.
pub proof fn law_capture_dir(output: Seq<char>)
    ensures
        path_parent(output) matches Some(dir) ==> capture_dir_text(output) == dir,
        path_parent(output) is None ==> capture_dir_text(output) == "/"@,
{
}

} // verus!
