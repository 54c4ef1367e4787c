//! Leftmost, non-overlapping occurrences of a byte pattern in a byte string.

use vstd::prelude::*;

verus! {

/// `needle` occurs in `hay` starting at byte `i`.
pub open spec fn occurs_at(hay: Seq<u8>, needle: Seq<u8>, i: int) -> bool {
    &&& 0 <= i
    &&& i + needle.len() <= hay.len()
    &&& hay.subrange(i, i + needle.len()) == needle
}

/// How far the scan moves past an occurrence: the needle's length, or one byte
/// for the empty needle (which occurs at every position, the end included).
pub open spec fn advance(needle: Seq<u8>) -> int {
    if needle.len() == 0 {
        1
    } else {
        needle.len() as int
    }
}

/// The start positions of the occurrences of `needle` in `hay` found by a scan
/// that begins at `from`: the leftmost occurrence at or after `from`, then the
/// leftmost one that does not overlap it, and so on.
pub open spec fn occurrences_from(hay: Seq<u8>, needle: Seq<u8>, from: int) -> Seq<int>
    decreases hay.len() + 1 - from,
{
    if from < 0 || from > hay.len() {
        seq![]
    } else if occurs_at(hay, needle, from) {
        seq![from] + occurrences_from(hay, needle, from + advance(needle))
    } else {
        occurrences_from(hay, needle, from + 1)
    }
}

/// The start positions of all non-overlapping occurrences of `needle` in `hay`,
/// from left to right.
pub open spec fn occurrences(hay: Seq<u8>, needle: Seq<u8>) -> Seq<int> {
    occurrences_from(hay, needle, 0)
}

/// The positions found by a scan from `from` are occurrences, in increasing
/// order, each at least one advance past the previous one.
pub proof fn lemma_occurrences_from_shape(hay: Seq<u8>, needle: Seq<u8>, from: int)
    requires
        0 <= from,
    ensures
        ({
            let ps = occurrences_from(hay, needle, from);
            &&& from <= hay.len() + 1 ==> ps.len() <= hay.len() + 1 - from
            &&& forall|k: int| 0 <= k < ps.len() ==> from <= #[trigger] ps[k]
            &&& forall|k: int| 0 <= k < ps.len() ==> occurs_at(hay, needle, #[trigger] ps[k])
            &&& forall|k: int|
                0 <= k < ps.len() - 1 ==> #[trigger] ps[k] + advance(needle) <= ps[k + 1]
        }),
    decreases hay.len() + 1 - from,
{
    if from > hay.len() {
    } else if occurs_at(hay, needle, from) {
        lemma_occurrences_from_shape(hay, needle, from + advance(needle));
        let rest = occurrences_from(hay, needle, from + advance(needle));
        let ps = occurrences_from(hay, needle, from);
        assert(ps == seq![from] + rest);
        assert forall|k: int| 0 <= k < ps.len() - 1 implies #[trigger] ps[k] + advance(needle)
            <= ps[k + 1] by {
            if k > 0 {
                assert(ps[k] == rest[k - 1]);
                assert(ps[k + 1] == rest[k]);
            } else {
                assert(ps[1] == rest[0]);
            }
        }
        assert forall|k: int| 0 <= k < ps.len() implies from <= #[trigger] ps[k] && occurs_at(
            hay,
            needle,
            ps[k],
        ) by {
            if k > 0 {
                assert(ps[k] == rest[k - 1]);
            }
        }
    } else {
        lemma_occurrences_from_shape(hay, needle, from + 1);
    }
}

/// Positions of the leftmost non-overlapping occurrences of `needle` in `hay`,
/// as found by `memchr::memmem::find_iter`.
///
/// Trusted: the crate documents `find_iter` as yielding "all non-overlapping
/// occurrences" of the needle; its iterator searches from a position, yields the
/// leftmost match at or after it, and resumes the needle's length (at least one
/// byte) past that match, which is `occurrences` above.
#[verifier::external_body]
pub(crate) fn find_all(hay: &[u8], needle: &[u8]) -> (positions: Vec<usize>)
    ensures
        positions@.len() == occurrences(hay@, needle@).len(),
        forall|k: int|
            0 <= k < positions@.len() ==> positions@[k] as int == #[trigger] occurrences(
                hay@,
                needle@,
            )[k],
{
    memchr::memmem::find_iter(hay, needle).collect()
}

} // verus!
