//! Equality and hashing of vectors, both over the elements alone: neither
//! the capacity nor what the free slots hold takes part.

use vstd::prelude::*;
use vstd::std_specs::cmp::PartialEqSpec;
use vstd::std_specs::cmp::PartialEqSpecImpl;
use std::hash::Hash;
use std::hash::Hasher;
use crate::fixed_vec::FixedVec;
use crate::model::pairwise_equal;

verus! {

impl<'a, T: Copy + PartialEq> PartialEq for FixedVec<'a, T> {
    /// Whether both vectors have the same length and equal elements in
    /// every place.
    fn eq(&self, other: &FixedVec<'a, T>) -> (equal: bool) {
        if self.len() != other.len() {
            return false;
        }
        let mut same = true;
        let mut i: usize = 0;
        while same && i < self.len()
            invariant
                i <= self@.len(),
                self@.len() == other@.len(),
                T::obeys_eq_spec() && same ==> forall|j: int|
                    0 <= j < i ==> (#[trigger] self@[j]).eq_spec(&other@[j]),
                T::obeys_eq_spec() && !same ==> !pairwise_equal(self@, other@),
            decreases self@.len() - i + if same { 1int } else { 0int },
        {
            if self[i] == other[i] {
                i += 1;
            } else {
                same = false;
            }
        }
        same
    }
}

impl<'a, T: Copy + PartialEq> PartialEqSpecImpl for FixedVec<'a, T> {
    open spec fn obeys_eq_spec() -> bool {
        T::obeys_eq_spec()
    }

    open spec fn eq_spec(&self, other: &FixedVec<'a, T>) -> bool {
        pairwise_equal(self@, other@)
    }
}

impl<'a, T: Copy + Eq> Eq for FixedVec<'a, T> {
}

impl<'a, T: Copy + Hash> Hash for FixedVec<'a, T> {
    /// Feeds the elements, and nothing else, to `state`.
    fn hash<H: Hasher>(&self, state: &mut H) {
        hash_elements(self.as_slice(), state)
    }
}

/// Hands `elements` to std's `Hash::hash` for slices, which feeds `state`
/// the length and then each element in order. It is taken on trust, and
/// nothing is claimed of the state it leaves: what a hasher makes of its
/// input is its own affair.
#[verifier::external_body]
fn hash_elements<T: Hash, H: Hasher>(elements: &[T], state: &mut H) {
    Hash::hash(elements, state)
}

} // verus!
