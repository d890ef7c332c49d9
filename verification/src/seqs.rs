//! Finding the first element of a sequence that is wanted.

use vstd::prelude::*;

verus! {

/// Index of the first element of `s` of which `wanted` holds, if there is one.
pub open spec fn first_where<T>(s: Seq<T>, wanted: spec_fn(T) -> bool) -> Option<int>
    decreases s.len(),
{
    if s.len() == 0 {
        None
    } else if wanted(s[0]) {
        Some(0)
    } else {
        match first_where(s.drop_first(), wanted) {
            Some(i) => Some(i + 1),
            None => None,
        }
    }
}

/// [`first_where`] gives the least index of an element that is wanted, and
/// gives none only when no element is.
pub proof fn lemma_first_where<T>(s: Seq<T>, wanted: spec_fn(T) -> bool)
    ensures
        match first_where(s, wanted) {
            Some(i) => {
                &&& 0 <= i < s.len()
                &&& wanted(s[i])
                &&& forall|j: int| 0 <= j < i ==> !wanted(#[trigger] s[j])
            },
            None => forall|j: int| 0 <= j < s.len() ==> !wanted(#[trigger] s[j]),
        },
    decreases s.len(),
{
    if s.len() > 0 && !wanted(s[0]) {
        let rest = s.drop_first();
        lemma_first_where(rest, wanted);
        match first_where(rest, wanted) {
            Some(i) => {
                assert forall|j: int| 0 <= j < i + 1 implies !wanted(#[trigger] s[j]) by {
                    if j > 0 {
                        assert(s[j] == rest[j - 1]);
                    }
                }
            },
            None => {
                assert forall|j: int| 0 <= j < s.len() implies !wanted(#[trigger] s[j]) by {
                    if j > 0 {
                        assert(s[j] == rest[j - 1]);
                    }
                }
            },
        }
    }
}

} // verus!
