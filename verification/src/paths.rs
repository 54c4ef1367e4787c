//! Displayable forms of canonical paths.

use vstd::prelude::*;

verus! {

/// The Windows verbatim prefix `\\?\`.
pub open spec fn verbatim_prefix() -> Seq<char> {
    seq!['\\', '\\', '?', '\\']
}

/// A canonical path without its verbatim prefix, if it has one.
pub open spec fn cleaned_path(canonical: Seq<char>) -> Seq<char> {
    if canonical.len() >= 4 && canonical.subrange(0, 4) == verbatim_prefix() {
        canonical.subrange(4, canonical.len() as int)
    } else {
        canonical
    }
}

/// The canonical form of a path as shown to the user: the verbatim prefix
/// `\\?\` that Windows canonicalization adds is removed.
pub fn canonical_clean(canonical: &str) -> (cleaned: String)
    ensures
        cleaned@ == cleaned_path(canonical@),
{
    let n = canonical.unicode_len();
    if n >= 4 && canonical.get_char(0) == '\\' && canonical.get_char(1) == '\\'
        && canonical.get_char(2) == '?' && canonical.get_char(3) == '\\' {
        assert(canonical@.subrange(0, 4) =~= verbatim_prefix());
        canonical.substring_char(4, n).to_owned()
    } else {
        proof {
            if n >= 4 && canonical@.subrange(0, 4) == verbatim_prefix() {
                assert(canonical@[0] == canonical@.subrange(0, 4)[0]);
                assert(canonical@[1] == canonical@.subrange(0, 4)[1]);
                assert(canonical@[2] == canonical@.subrange(0, 4)[2]);
                assert(canonical@[3] == canonical@.subrange(0, 4)[3]);
            }
        }
        canonical.to_owned()
    }
}

} // verus!
