//! A read-only cursor over the elements of a vector.

use vstd::prelude::*;
use crate::fixed_vec::FixedVec;

verus! {

/// A position in a vector, from which the elements still ahead are handed
/// out one by one. It passes over the vector once.
pub struct Iter<'a, T: Copy> {
    list: &'a FixedVec<'a, T>,
    idx: usize,
}

impl<'a, T: Copy> Iter<'a, T> {
    /// The cursor never runs past the last element.
    #[verifier::type_invariant]
    spec fn bounded(&self) -> bool {
        self.idx <= self.list@.len()
    }

    /// The elements that are still to come, in order.
    pub closed spec fn remaining(&self) -> Seq<T> {
        self.list@.skip(self.idx as int)
    }

    /// A cursor before the first element of `list`.
    pub(crate) fn start(list: &'a FixedVec<'a, T>) -> (it: Self)
        ensures
            it.remaining() == list@,
    {
        Iter { list: list, idx: 0 }
    }

    /// Hands out the next element and moves past it, or reports the end.
    pub fn next(&mut self) -> (item: Option<T>)
        ensures
            old(self).remaining().len() == 0 ==> item is None,
            old(self).remaining().len() == 0 ==> final(self).remaining() == old(self).remaining(),
            old(self).remaining().len() > 0 ==> item == Some(old(self).remaining()[0]),
            old(self).remaining().len() > 0 ==> final(self).remaining() == old(
                self,
            ).remaining().drop_first(),
    {
        proof {
            use_type_invariant(&*self);
        }
        if self.idx >= self.list.len() {
            return None;
        }
        self.idx += 1;
        assert(self.remaining() =~= old(self).remaining().drop_first());
        Some(self.list[self.idx - 1])
    }

    /// The number of elements still to come, as both bounds.
    pub fn size_hint(&self) -> (bounds: (usize, Option<usize>))
        ensures
            bounds.0 == self.remaining().len(),
            bounds.1 == Some(bounds.0),
    {
        proof {
            use_type_invariant(self);
        }
        let nelem = self.list.len() - self.idx;
        (nelem, Some(nelem))
    }
}

} // verus!
