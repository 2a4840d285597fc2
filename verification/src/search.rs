//! Finding the first element of a sequence that meets a condition.

use vstd::prelude::*;

verus! {

/// The first place in `s` at which `wanted` holds, or the length of `s` if it
/// holds nowhere.
pub open spec fn first_where<T>(s: Seq<T>, wanted: spec_fn(T) -> bool) -> int
    decreases s.len(),
{
    if s.len() == 0 || wanted(s[0]) {
        0
    } else {
        1 + first_where(s.drop_first(), wanted)
    }
}

/// `first_where` is a place or the length; `wanted` holds at it and at no
/// place before it.
pub proof fn lemma_first_where<T>(s: Seq<T>, wanted: spec_fn(T) -> bool)
    ensures
        0 <= first_where(s, wanted) <= s.len(),
        forall|j: int| 0 <= j < first_where(s, wanted) ==> !wanted(#[trigger] s[j]),
        first_where(s, wanted) < s.len() ==> wanted(s[first_where(s, wanted)]),
    decreases s.len(),
{
    if s.len() > 0 && !wanted(s[0]) {
        let rest = s.drop_first();
        lemma_first_where(rest, wanted);
        assert forall|j: int| 0 <= j < first_where(s, wanted) implies !wanted(#[trigger] s[j]) by {
            if j > 0 {
                assert(s[j] == rest[j - 1]);
            }
        }
        if first_where(s, wanted) < s.len() {
            assert(s[first_where(s, wanted)] == rest[first_where(rest, wanted)]);
        }
    }
}

/// The place `i` is the first at which `wanted` holds if it holds there and
/// nowhere before.
pub proof fn lemma_first_where_is<T>(s: Seq<T>, wanted: spec_fn(T) -> bool, i: int)
    requires
        0 <= i <= s.len(),
        forall|j: int| 0 <= j < i ==> !wanted(#[trigger] s[j]),
        i < s.len() ==> wanted(s[i]),
    ensures
        first_where(s, wanted) == i,
    decreases s.len(),
{
    if i > 0 {
        let rest = s.drop_first();
        assert(!wanted(s[0]));
        assert forall|j: int| 0 <= j < i - 1 implies !wanted(#[trigger] rest[j]) by {
            assert(rest[j] == s[j + 1]);
        }
        if i - 1 < rest.len() {
            assert(rest[i - 1] == s[i]);
        }
        lemma_first_where_is(rest, wanted, i - 1);
    }
}

} // verus!
