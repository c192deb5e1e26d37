//! File-system paths as strings, handled by `std::path`. How a path is
//! split into components (separators, prefixes, what counts as absolute) is
//! fixed by the platform the program is built for, so for a given build
//! each result depends on the argument strings alone: it is named here and
//! not written out. Besides the names, only what holds on every platform is
//! stated: how the functions treat the empty path or two equal paths.

use vstd::prelude::*;

use crate::text::opt_view;

verus! {

/// What `Path::is_absolute` gives for the path.
pub uninterp spec fn absolute_path(p: Seq<char>) -> bool;

/// Calls `Path::is_absolute` on the path.
#[verifier::external_body]
pub(crate) fn path_is_absolute(p: &str) -> (r: bool)
    ensures
        r == absolute_path(p@),
        p@.len() == 0 ==> !r,
{
    std::path::Path::new(p).is_absolute()
}

/// What `Path::join` gives for the two paths, as a string.
pub uninterp spec fn joined_path(base: Seq<char>, p: Seq<char>) -> Seq<char>;

/// Calls `Path::join`: `p` relative to `base` (or `p` itself when
/// absolute), as a string.
#[verifier::external_body]
pub(crate) fn path_join(base: &str, p: &str) -> (r: String)
    ensures
        r@ == joined_path(base@, p@),
{
    std::path::Path::new(base).join(p).to_string_lossy().into_owned()
}

/// What `Path::starts_with` gives: whether `prefix` is made of the first
/// whole components of `p`.
pub uninterp spec fn path_has_prefix(p: Seq<char>, prefix: Seq<char>) -> bool;

/// Calls `Path::starts_with`: whether `prefix` is made of the first whole
/// components of `p`.
#[verifier::external_body]
pub(crate) fn path_starts_with(p: &str, prefix: &str) -> (r: bool)
    ensures
        r == path_has_prefix(p@, prefix@),
        p@ == prefix@ ==> r,
{
    std::path::Path::new(p).starts_with(prefix)
}

/// What `Path::parent` gives for the path, as a string.
pub uninterp spec fn parent_path(p: Seq<char>) -> Option<Seq<char>>;

/// Calls `Path::parent`: the path without its last component, if it has
/// one, as a string.
#[verifier::external_body]
pub(crate) fn path_parent(p: &str) -> (r: Option<String>)
    ensures
        opt_view(r) == parent_path(p@),
        p@.len() == 0 ==> r is None,
{
    std::path::Path::new(p).parent().map(|q| q.to_string_lossy().into_owned())
}

/// What `Path::file_name` gives for the path, where it is valid Unicode.
pub uninterp spec fn file_name_of(p: Seq<char>) -> Option<Seq<char>>;

/// Calls `Path::file_name`: the last component, if it is a normal one and
/// valid Unicode.
#[verifier::external_body]
pub(crate) fn path_file_name(p: &str) -> (r: Option<String>)
    ensures
        opt_view(r) == file_name_of(p@),
        p@.len() == 0 ==> r is None,
{
    std::path::Path::new(p).file_name().and_then(|f| f.to_str()).map(|f| f.to_string())
}

/// What `Path::strip_prefix` gives for the path and base, as a string.
pub uninterp spec fn stripped_path(p: Seq<char>, base: Seq<char>) -> Option<Seq<char>>;

/// Calls `Path::strip_prefix`: `p` relative to `base`, when `base` is made
/// of the first whole components of `p`.
#[verifier::external_body]
pub(crate) fn path_strip_prefix(p: &str, base: &str) -> (r: Option<String>)
    ensures
        opt_view(r) == stripped_path(p@, base@),
        p@ == base@ ==> (r is Some && r.unwrap()@.len() == 0),
{
    std::path::Path::new(p).strip_prefix(base).ok().map(|q| q.to_string_lossy().into_owned())
}

/// What `Path::new(a) < Path::new(b)` gives: whether `a` comes before `b`
/// when the paths are compared component by component.
pub uninterp spec fn path_precedes(a: Seq<char>, b: Seq<char>) -> bool;

/// Calls `<Path as PartialOrd>::lt`: whether `a` comes before `b`, comparing
/// component by component. `Path`'s order is a total order, so a path never
/// comes before itself, nor before one that comes before it.
#[verifier::external_body]
pub(crate) fn path_less(a: &str, b: &str) -> (r: bool)
    ensures
        r == path_precedes(a@, b@),
        a@ == b@ ==> !r,
        r ==> !path_precedes(b@, a@),
{
    std::path::Path::new(a) < std::path::Path::new(b)
}

} // verus!
