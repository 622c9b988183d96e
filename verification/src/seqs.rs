//! The first place in a sequence at which a test holds.

use vstd::prelude::*;

verus! {

/// The number of elements of `s` that stand before the first one of which
/// `test` holds, and the length of `s` where it holds of none.
pub open spec fn position<A>(s: Seq<A>, test: spec_fn(A) -> bool) -> nat
    decreases s.len(),
{
    if s.len() == 0 || test(s[0]) {
        0
    } else {
        1 + position(s.drop_first(), test)
    }
}

/// `position` is the one place that no element passing the test precedes
/// and that either holds such an element or ends the sequence.
pub proof fn lemma_position<A>(s: Seq<A>, test: spec_fn(A) -> bool, k: int)
    requires
        0 <= k <= s.len(),
        forall|j: int| 0 <= j < k ==> !test(s[j]),
        k == s.len() || test(s[k]),
    ensures
        position(s, test) == k,
    decreases k,
{
    if k > 0 {
        let t = s.drop_first();
        assert(forall|j: int| 0 <= j < k - 1 ==> t[j] == s[j + 1]);
        lemma_position(t, test, k - 1);
    }
}

/// What `position` returns lies within the sequence, no element before it
/// passes the test, and the element at it does unless it is the end.
pub proof fn lemma_position_bounds<A>(s: Seq<A>, test: spec_fn(A) -> bool)
    ensures
        position(s, test) <= s.len(),
        forall|j: int| 0 <= j < position(s, test) ==> !test(#[trigger] s[j]),
        position(s, test) < s.len() ==> test(s[position(s, test) as int]),
    decreases s.len(),
{
    if s.len() == 0 || test(s[0]) {
    } else {
        let t = s.drop_first();
        lemma_position_bounds(t, test);
        assert forall|j: int| 0 <= j < position(s, test) implies !test(#[trigger] s[j]) by {
            if j > 0 {
                assert(t[j - 1] == s[j]);
            }
        }
        assert(position(s, test) < s.len() ==> t[position(t, test) as int] == s[position(
            s,
            test,
        ) as int]);
    }
}

} // verus!
