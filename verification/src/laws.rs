//! Facts that relate the operations of the container to one another.

use vstd::prelude::*;
use vstd::std_specs::cmp::PartialEqSpec;
use crate::fixed_vec::FixedVec;
use crate::model::{deduped, kept_prefix, padded, pairwise_equal, swap_removed};

verus! {

/// Pushing a value onto a vector that has room and popping at once gives
/// the value back and leaves the elements, and so the length, as they were.
pub proof fn law_push_then_pop<T>(elements: Seq<T>, capacity: nat, value: T)
    requires
        elements.len() < capacity,
    ensures
        elements.push(value).len() > 0,
        elements.push(value).last() == value,
        elements.push(value).drop_last() == elements,
        elements.push(value).drop_last().len() == elements.len(),
{
    assert(elements.push(value).drop_last() =~= elements);
}

/// Two vectors whose elements are equal place by place are equal, whatever
/// their capacities are and whatever their free slots hold; and vectors
/// that are equal have elements that are equal place by place.
pub proof fn law_equality_reads_elements_only<'a, T: Copy + PartialEq>(
    a: &FixedVec<'a, T>,
    b: &FixedVec<'a, T>,
)
    ensures
        a.eq_spec(b) <==> pairwise_equal(a@, b@),
{
}

/// Where every element equals itself, two vectors with the same elements
/// are equal.
pub proof fn law_same_elements_are_equal<'a, T: Copy + PartialEq>(
    a: &FixedVec<'a, T>,
    b: &FixedVec<'a, T>,
)
    requires
        a@ == b@,
        forall|i: int| 0 <= i < a@.len() ==> (#[trigger] a@[i]).eq_spec(&a@[i]),
    ensures
        a.eq_spec(b),
{
}

/// What is kept comes from the sequence, in the order it had there: each
/// kept element sits in the sequence at a position past that of the kept
/// element before it.
pub proof fn law_kept_preserves_order<T>(s: Seq<T>, keep: Seq<bool>, n: nat) -> (from: Seq<int>)
    requires
        n <= s.len(),
        keep.len() == s.len(),
    ensures
        from.len() == kept_prefix(s, keep, n).len(),
        forall|k: int| 0 <= k < from.len() ==> 0 <= #[trigger] from[k] < n,
        forall|k: int|
            #![trigger from[k]]
            0 <= k < from.len() ==> keep[from[k]] && kept_prefix(s, keep, n)[k] == s[from[k]],
        forall|k: int, l: int|
            #![trigger from[k], from[l]]
            0 <= k < l < from.len() ==> from[k] < from[l],
    decreases n,
{
    if n == 0 {
        Seq::empty()
    } else {
        let head = law_kept_preserves_order(s, keep, (n - 1) as nat);
        if keep[n - 1] {
            head.push(n - 1)
        } else {
            head
        }
    }
}

/// After neighbours that repeat are removed, no element equals the one
/// before it.
pub proof fn law_deduped_has_no_repeats<T: PartialEq>(s: Seq<T>)
    ensures
        forall|k: int|
            0 < k < deduped(s).len() ==> !(#[trigger] deduped(s)[k]).eq_spec(&deduped(s)[k - 1]),
    decreases s.len(),
{
    if s.len() > 1 {
        law_deduped_has_no_repeats(s.drop_last());
        crate::model::lemma_deduped_len(s.drop_last());
    }
}

/// Removing in constant time takes out the element at `index` and no other:
/// the result is one shorter, and every place but `index` keeps its element.
pub proof fn law_swap_removed_shape<T>(s: Seq<T>, index: int)
    requires
        0 <= index < s.len(),
    ensures
        swap_removed(s, index).len() == s.len() - 1,
        forall|k: int|
            0 <= k < s.len() - 1 && k != index ==> #[trigger] swap_removed(s, index)[k] == s[k],
        index < s.len() - 1 ==> swap_removed(s, index)[index] == s.last(),
{
}

/// Growing and then shrinking back gives the elements that were there;
/// the fill value leaves no trace.
pub proof fn law_resize_back<T>(s: Seq<T>, count: nat, value: T)
    ensures
        padded(s, count, value).len() == s.len() + count,
        padded(s, count, value).take(s.len() as int) == s,
        forall|k: int| s.len() <= k < s.len() + count ==> #[trigger] padded(s, count, value)[k] == value,
{
    assert(padded(s, count, value).take(s.len() as int) =~= s);
}

} // verus!
