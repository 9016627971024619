//! Canonical spelling of paths.
//!
//! Two spellings of one path (`a/./b`, `a/c/../b`) must compare equal before
//! they are used as file identities. The cleaning itself is done by the
//! `path-clean` crate; this module gives its result a name that contracts can
//! speak of.

use vstd::prelude::*;

verus! {

/// The canonical spelling of `path`: what `path_clean::clean` returns for it,
/// with repeated separators, `.` segments and resolvable `..` segments removed.
pub uninterp spec fn cleaned(path: Seq<char>) -> Seq<char>;

/// Cleans `path` lexically.
///
/// Trusted: the body calls `path_clean::clean`, and the contract only names
/// its result. The call is a function of the path's text alone; it never looks
/// at the file system. Turning the returned path back into text loses nothing,
/// because every segment of it is a segment of the UTF-8 input.
#[verifier::external_body]
pub(crate) fn clean(path: &str) -> (out: String)
    ensures
        out@ == cleaned(path@),
{
    path_clean::clean(path).to_string_lossy().into_owned()
}

} // verus!
