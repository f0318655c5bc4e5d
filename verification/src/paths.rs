use vstd::prelude::*;

use std::path::{Path, PathBuf};

verus! {

/// What `Path::join` gives for `rel` joined onto `base` (read back as a
/// string).
pub uninterp spec fn path_join(base: Seq<char>, rel: Seq<char>) -> Seq<char>;

/// `Path::new(base).join(rel)`, as a string. Both inputs are UTF-8, so
/// reading the joined path back as a string loses nothing.
#[verifier::external_body]
pub(crate) fn join_path(base: &str, rel: &str) -> (r: String)
    ensures
        r@ == path_join(base@, rel@),
{
    Path::new(base).join(rel).to_string_lossy().into_owned()
}

/// What `Path::parent` gives for `p`: `None` for a root, a prefix or the
/// empty path.
pub uninterp spec fn path_parent(p: Seq<char>) -> Option<Seq<char>>;

/// `Path::new(p).parent()`, as a string.
#[verifier::external_body]
pub(crate) fn parent_path(p: &str) -> (r: Option<String>)
    ensures
        match r {
            Some(q) => path_parent(p@) == Some(q@),
            None => path_parent(p@) is None,
        },
{
    match Path::new(p).parent() {
        Some(q) => Some(q.to_string_lossy().into_owned()),
        None => None,
    }
}

/// What `Path::strip_prefix` gives for `p` relative to `base`: `None` when
/// `base` is not a prefix of `p`.
pub uninterp spec fn path_strip_prefix(p: Seq<char>, base: Seq<char>) -> Option<Seq<char>>;

/// `Path::new(p).strip_prefix(base)`, as a string, with the error turned
/// into `None`.
#[verifier::external_body]
pub(crate) fn strip_path_prefix(p: &str, base: &str) -> (r: Option<String>)
    ensures
        match r {
            Some(q) => path_strip_prefix(p@, base@) == Some(q@),
            None => path_strip_prefix(p@, base@) is None,
        },
{
    match Path::new(p).strip_prefix(base) {
        Ok(q) => Some(q.to_string_lossy().into_owned()),
        Err(_) => None,
    }
}

/// Whether `a` orders before or equal to `b` as paths (`Path`'s `Ord`,
/// which compares component by component).
pub uninterp spec fn path_le(a: Seq<char>, b: Seq<char>) -> bool;

/// The views of a list of strings.
pub open spec fn string_views(v: Seq<String>) -> Seq<Seq<char>> {
    v.map_values(|s: String| s@)
}

/// What the stable `<[PathBuf]>::sort` makes of these paths. A stable sort
/// by a fixed total order has one outcome for one input.
pub uninterp spec fn sorted_paths(paths: Seq<Seq<char>>) -> Seq<Seq<char>>;

/// `<[PathBuf]>::sort` on the given paths: the same paths, in ascending
/// path order.
#[verifier::external_body]
pub(crate) fn sort_paths(paths: &Vec<String>) -> (r: Vec<String>)
    ensures
        string_views(r@) == sorted_paths(string_views(paths@)),
        string_views(r@).to_multiset() == string_views(paths@).to_multiset(),
        forall|i: int, j: int| 0 <= i < j < r@.len() ==> path_le(#[trigger] r@[i]@, #[trigger] r@[j]@),
{
    let mut v: Vec<PathBuf> = paths.iter().map(PathBuf::from).collect();
    v.sort();
    v.into_iter().map(|p| p.to_string_lossy().into_owned()).collect()
}

} // verus!
