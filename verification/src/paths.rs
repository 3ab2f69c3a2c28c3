//! Paths are carried through the library as strings. What `std::path`
//! computes on them (parents, file names, component counts, ordering) is
//! obtained from std through the trusted calls below and named, so that the
//! contracts of the library can speak of it.
use vstd::prelude::*;
use std::path::Path;

verus! {

/// The number of components of a path, as `Path::components().count()` gives it.
pub uninterp spec fn component_count(p: Seq<char>) -> nat;

/// The parent of a path, as `Path::parent` gives it.
pub uninterp spec fn parent_of(p: Seq<char>) -> Option<Seq<char>>;

/// The final component of a path, as `Path::file_name` gives it.
pub uninterp spec fn file_name_of(p: Seq<char>) -> Option<Seq<char>>;

/// The file name of a path without its extension, as `Path::file_stem` gives it.
pub uninterp spec fn file_stem_of(p: Seq<char>) -> Option<Seq<char>>;

/// Component-wise equality of two paths, as `Path`'s `==` decides it.
pub uninterp spec fn same_path(a: Seq<char>, b: Seq<char>) -> bool;

/// The sign (-1, 0 or 1) of the ordering of two paths, as `Path`'s `Ord` decides it.
pub uninterp spec fn path_order(a: Seq<char>, b: Seq<char>) -> int;

/// Calls `Path::components().count()` on `path`.
#[verifier::external_body]
fn count_components(path: &str) -> (n: usize)
    ensures
        n as nat == component_count(path@),
{
    Path::new(path).components().count()
}

/// The depth of a path: its number of components.
pub fn path_depth(path: &str) -> (n: usize)
    ensures
        n as nat == component_count(path@),
{
    count_components(path)
}

/// Calls `Path::parent` on `path`, converting the result to a string. The
/// parent is the path without its final component, so it is shorter.
#[verifier::external_body]
pub(crate) fn path_parent(path: &str) -> (r: Option<String>)
    ensures
        match r {
            Some(s) => parent_of(path@) == Some(s@) && s@.len() < path@.len(),
            None => parent_of(path@) is None,
        },
{
    Path::new(path).parent().map(|p| p.to_string_lossy().to_string())
}

/// Calls `Path::file_name` on `path`, converting the result to a string.
#[verifier::external_body]
pub(crate) fn path_file_name(path: &str) -> (r: Option<String>)
    ensures
        match r {
            Some(s) => file_name_of(path@) == Some(s@),
            None => file_name_of(path@) is None,
        },
{
    Path::new(path).file_name().map(|p| p.to_string_lossy().to_string())
}

/// Calls `Path::file_stem` on `path`, converting the result to a string.
#[verifier::external_body]
pub(crate) fn path_file_stem(path: &str) -> (r: Option<String>)
    ensures
        match r {
            Some(s) => file_stem_of(path@) == Some(s@),
            None => file_stem_of(path@) is None,
        },
{
    Path::new(path).file_stem().map(|p| p.to_string_lossy().to_string())
}

/// Calls `==` on two `Path`s.
#[verifier::external_body]
pub(crate) fn paths_equal(a: &str, b: &str) -> (r: bool)
    ensures
        r == same_path(a@, b@),
{
    Path::new(a) == Path::new(b)
}

/// Calls `Ord::cmp` on two `Path`s and reports the sign of the result.
#[verifier::external_body]
pub(crate) fn compare_paths(a: &str, b: &str) -> (r: i8)
    ensures
        path_order(a@, b@) == r,
        -1 <= r <= 1,
{
    match Path::new(a).cmp(Path::new(b)) {
        std::cmp::Ordering::Less => -1,
        std::cmp::Ordering::Equal => 0,
        std::cmp::Ordering::Greater => 1,
    }
}

} // verus!
