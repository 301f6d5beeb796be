//! A directory listing as plain values, and the search for the first entry
//! that fits.

use vstd::prelude::*;

verus! {

/// One entry of a directory, as reading the directory gave it.
#[derive(Clone, Debug)]
pub struct DirEntryInfo {
    /// The entry's own name, when it is UTF-8.
    pub file_name: Option<String>,
    /// The entry's full path, when it is UTF-8.
    pub path: Option<String>,
    /// Whether the path names a regular file.
    pub is_file: bool,
}

/// The entries of a directory, in the order the directory gave them, up to
/// the first entry that could not be read; `failed` says whether there was
/// such an entry (or whether the directory could not be opened at all).
#[derive(Clone, Debug)]
pub struct DirListing {
    pub entries: Vec<DirEntryInfo>,
    pub failed: bool,
}

/// The first position at or after `i` where `s` fits `p`, or `s.len()`.
pub open spec fn first_fit_from<A>(s: Seq<A>, p: spec_fn(A) -> bool, i: int) -> int
    decreases s.len() - i,
{
    if i >= s.len() {
        s.len() as int
    } else if p(s[i]) {
        i
    } else {
        first_fit_from(s, p, i + 1)
    }
}

/// The first position where `s` fits `p`, or `s.len()`.
pub open spec fn first_fit<A>(s: Seq<A>, p: spec_fn(A) -> bool) -> int {
    first_fit_from(s, p, 0)
}

/// What `first_fit_from` returns: the first fitting position at or after `i`.
pub proof fn lemma_first_fit_from<A>(s: Seq<A>, p: spec_fn(A) -> bool, i: int)
    requires
        0 <= i <= s.len(),
    ensures
        i <= first_fit_from(s, p, i) <= s.len(),
        first_fit_from(s, p, i) < s.len() ==> p(s[first_fit_from(s, p, i)]),
        forall|k: int| i <= k < first_fit_from(s, p, i) ==> !p(s[k]),
    decreases s.len() - i,
{
    if i < s.len() && !p(s[i]) {
        lemma_first_fit_from(s, p, i + 1);
    }
}

/// Whether `a` and `b` hold the same text.
pub fn same_text(a: &str, b: &str) -> (r: bool)
    ensures
        r == (a@ == b@),
{
    String::from_str(a) == String::from_str(b)
}

} // verus!
