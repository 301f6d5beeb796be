//! Path arithmetic on UTF-8 paths, done by `camino` (which delegates to
//! `std::path`). Each call is a function of its arguments alone within one
//! build; its result is named here and callers state theirs over the names.

use camino::Utf8Path;
use vstd::prelude::*;

verus! {

/// What `camino::Utf8Path::strip_prefix` makes of `path` and `base`: the
/// rest of `path` after the whole components of `base`, or nothing when
/// `base` is not a prefix of `path`.
pub uninterp spec fn path_strip_prefix(path: Seq<char>, base: Seq<char>) -> Option<Seq<char>>;

/// What `camino::Utf8Path::parent` makes of `path`: `path` without its final
/// component, or nothing when it ends in a root or prefix.
pub uninterp spec fn path_parent(path: Seq<char>) -> Option<Seq<char>>;

/// What `camino::Utf8Path::join` makes of `base` and `path`: `path` adjoined
/// to `base`.
pub uninterp spec fn path_join(base: Seq<char>, path: Seq<char>) -> Seq<char>;

/// What `camino::Utf8Path::file_name` makes of `path`: its final component,
/// or nothing when it ends in `..` or a root.
pub uninterp spec fn path_file_name(path: Seq<char>) -> Option<Seq<char>>;

/// `Utf8Path::strip_prefix`: `path` relative to `base`. The contract names
/// the result.
#[verifier::external_body]
pub(crate) fn strip_prefix(path: &str, base: &str) -> (r: Option<String>)
    ensures
        r is Some <==> path_strip_prefix(path@, base@) is Some,
        r matches Some(s) ==> path_strip_prefix(path@, base@) == Some(s@),
{
    match Utf8Path::new(path).strip_prefix(Utf8Path::new(base)) {
        Ok(p) => Some(p.as_str().to_string()),
        Err(_) => None,
    }
}

/// `Utf8Path::parent`: `path` without its final component. The contract
/// names the result.
#[verifier::external_body]
pub(crate) fn parent(path: &str) -> (r: Option<String>)
    ensures
        r is Some <==> path_parent(path@) is Some,
        r matches Some(s) ==> path_parent(path@) == Some(s@),
{
    match Utf8Path::new(path).parent() {
        Some(p) => Some(p.as_str().to_string()),
        None => None,
    }
}

/// `Utf8Path::join`: `path` adjoined to `base`. The contract names the
/// result.
#[verifier::external_body]
pub(crate) fn join(base: &str, path: &str) -> (r: String)
    ensures
        r@ == path_join(base@, path@),
{
    Utf8Path::new(base).join(path).into_string()
}

/// `Utf8Path::file_name`: the final component of `path`. The contract names
/// the result.
#[verifier::external_body]
pub(crate) fn file_name(path: &str) -> (r: Option<String>)
    ensures
        r is Some <==> path_file_name(path@) is Some,
        r matches Some(s) ==> path_file_name(path@) == Some(s@),
{
    match Utf8Path::new(path).file_name() {
        Some(n) => Some(n.to_string()),
        None => None,
    }
}

} // verus!
