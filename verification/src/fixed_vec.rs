//! The container itself: length bookkeeping over a borrowed slice.

use vstd::prelude::*;
use vstd::std_specs::cmp::PartialEqSpec;
use vstd::std_specs::iter::IteratorSpec;
use crate::error::ErrorKind;
use crate::iter::Iter;
use crate::model::{
    accepts, answers, decides, deduped, fitting, inserted, kept_prefix, lemma_kept_is_filter,
    lemma_kept_prefix_agrees, padded, swap_removed,
};

verus! {

/// A growable array inside a fixed, borrowed region.
///
/// The first `len` slots of the region are the elements; what the other
/// slots hold is of no concern to any operation.
#[derive(Debug)]
pub struct FixedVec<'a, T: Copy> {
    memory: &'a mut [T],
    len: usize,
}

impl<'a, T: Copy> View for FixedVec<'a, T> {
    type V = Seq<T>;

    /// The active elements, in order.
    closed spec fn view(&self) -> Seq<T> {
        self.memory@.take(self.len as int)
    }
}

impl<'a, T: Copy> FixedVec<'a, T> {
    /// The length never exceeds the size of the region.
    #[verifier::type_invariant]
    spec fn bounded(&self) -> bool {
        self.len <= self.memory@.len()
    }

    /// The number of slots in the region.
    pub closed spec fn spec_capacity(&self) -> nat {
        self.memory@.len()
    }

    /// What the whole region holds, free slots included. The elements are
    /// its first slots; no operation reads the others.
    pub closed spec fn region(&self) -> Seq<T> {
        self.memory@
    }

    /// The number of slots that are still free.
    pub open spec fn spec_available(&self) -> int {
        self.spec_capacity() - self@.len()
    }

    /// Binds `memory` as an empty vector whose capacity is the slice's length.
    pub fn new(memory: &'a mut [T]) -> (v: Self)
        ensures
            v@ == Seq::<T>::empty(),
            v.spec_capacity() == old(memory)@.len(),
            v.region() == old(memory)@,
    {
        FixedVec { memory: memory, len: 0 }
    }

    /// The number of slots in the region.
    pub fn capacity(&self) -> (n: usize)
        ensures
            n == self.spec_capacity(),
            n == self.region().len(),
            self@.len() <= n,
    {
        proof {
            use_type_invariant(&*self);
        }
        self.memory.len()
    }

    /// The number of elements.
    pub fn len(&self) -> (n: usize)
        ensures
            n == self@.len(),
            n <= self.spec_capacity(),
            self@ == self.region().take(n as int),
    {
        proof {
            use_type_invariant(&*self);
        }
        self.len
    }

    /// The number of elements that can still be added.
    pub fn available(&self) -> (n: usize)
        ensures
            n == self.spec_available(),
    {
        proof {
            use_type_invariant(&*self);
        }
        self.capacity() - self.len()
    }

    /// Whether the vector holds no element.
    pub fn is_empty(&self) -> (b: bool)
        ensures
            b <==> self@.len() == 0,
    {
        proof {
            use_type_invariant(&*self);
        }
        self.len == 0
    }

    /// The elements as a slice. The free slots are not part of it.
    pub fn as_slice(&self) -> (s: &[T])
        ensures
            s@ == self@,
    {
        proof {
            use_type_invariant(&*self);
        }
        vstd::slice::slice_subrange(&*self.memory, 0, self.len)
    }

    /// The elements as a slice that can be written through. Its length is
    /// fixed, so the vector keeps its length; it holds afterwards whatever
    /// the slice was left with.
    pub fn as_mut_slice(&mut self) -> (s: &mut [T])
        ensures
            s@ == old(self)@,
            final(s)@.len() == s@.len(),
            final(self)@ == final(s)@,
            final(self).spec_capacity() == old(self).spec_capacity(),
            final(self)@.len() <= final(self).spec_capacity(),
            final(self).region() == final(s)@ + old(self).region().skip(s@.len() as int),
    {
        proof {
            use_type_invariant(&*self);
        }
        let n: usize = self.len;
        prefix_mut(&mut *self.memory, n)
    }

    /// The element at `index`, borrowed for writing. The vector ends up with
    /// whatever the borrow was left holding in that place.
    pub fn index_mut(&mut self, index: usize) -> (slot: &mut T)
        requires
            index < old(self)@.len(),
        ensures
            *slot == old(self)@[index as int],
            final(self)@ == old(self)@.update(index as int, *final(slot)),
            final(self).spec_capacity() == old(self).spec_capacity(),
            final(self)@.len() <= final(self).spec_capacity(),
            final(self).region() == old(self).region().update(index as int, *final(slot)),
    {
        proof {
            use_type_invariant(&*self);
        }
        let n: usize = self.len;
        let active = prefix_mut(&mut *self.memory, n);
        slot_mut(active, index)
    }

    /// A cursor over the elements, placed before the first one.
    pub fn iter(&'a self) -> (it: Iter<'a, T>)
        ensures
            it.remaining() == self@,
    {
        Iter::start(self)
    }

    /// Appends the values that `iter` yields for as long as there is room,
    /// and leaves the rest of them unasked for.
    pub fn extend<I>(&mut self, iter: I) where I: Iterator<Item = T>
        ensures
            final(self).spec_capacity() == old(self).spec_capacity(),
            final(self)@.len() <= final(self).spec_capacity(),
            final(self)@.len() >= old(self)@.len(),
            final(self)@.take(old(self)@.len() as int) == old(self)@,
            iter.obeys_prophetic_iter_laws() ==> final(self)@ == old(self)@ + iter.remaining().take(
                fitting(iter.remaining().len(), old(self).spec_available()),
            ),
    {
        proof {
            use_type_invariant(&*self);
        }
        let mut rest = iter;
        let ghost source = iter;
        let ghost mut taken: int = 0;
        assert(source.remaining().skip(0) =~= source.remaining());
        let mut more = true;
        while more && self.len < self.memory.len()
            invariant
                old(self).len <= self.len <= self.memory@.len(),
                self.memory@.len() == old(self).memory@.len(),
                rest.obeys_prophetic_iter_laws() == source.obeys_prophetic_iter_laws(),
                taken == self.len - old(self).len,
                !more && source.obeys_prophetic_iter_laws() ==> taken == source.remaining().len(),
                forall|j: int| 0 <= j < old(self).len ==> self.memory@[j] == old(self).memory@[j],
                source.obeys_prophetic_iter_laws() ==> {
                    &&& taken <= source.remaining().len()
                    &&& rest.remaining() == source.remaining().skip(taken)
                    &&& forall|j: int|
                        0 <= j < taken ==> self.memory@[old(self).len + j] == source.remaining()[j]
                },
            decreases self.memory@.len() - self.len + if more { 1int } else { 0int },
        {
            let ghost ahead = rest.remaining();
            match rest.next() {
                Some(value) => {
                    proof {
                        if source.obeys_prophetic_iter_laws() {
                            assert(ahead.len() > 0);
                            assert(ahead[0] == source.remaining()[taken]);
                            assert(ahead.drop_first() =~= source.remaining().skip(taken + 1));
                        }
                    }
                    self.memory[self.len] = value;
                    self.len += 1;
                    proof {
                        taken = taken + 1;
                    }
                },
                None => {
                    more = false;
                },
            }
        }
        assert(self@.take(old(self)@.len() as int) =~= old(self)@);
        assert(source.obeys_prophetic_iter_laws() ==> self@ =~= old(self)@
            + source.remaining().take(taken));
    }

    /// Inserts `element` at `index`, moving the elements from there on one
    /// slot towards the end. A full vector refuses and stays as it is. An
    /// empty vector takes the element as its first, whatever `index` is, so
    /// there any index up to the capacity will do; elsewhere the index must
    /// not lie past the end.
    pub fn insert(&mut self, index: usize, element: T) -> (r: Result<(), ErrorKind>)
        requires
            index <= old(self).spec_capacity(),
            old(self)@.len() > 0 ==> index <= old(self)@.len(),
        ensures
            final(self).spec_capacity() == old(self).spec_capacity(),
            final(self)@.len() <= final(self).spec_capacity(),
            r is Ok <==> old(self)@.len() < old(self).spec_capacity(),
            r is Ok ==> final(self)@ == inserted(old(self)@, index as int, element),
            r is Err ==> final(self)@ == old(self)@,
            r is Err ==> final(self).region() == old(self).region(),
    {
        proof {
            use_type_invariant(&*self);
        }
        if self.len == 0 {
            self.push(element)
        } else if self.memory.len() - self.len >= 1 {
            let ghost before = self.memory@;
            let mut i: usize = self.len;
            self.len += 1;
            while i != index
                invariant
                    index <= i < self.len,
                    self.len == old(self).len + 1,
                    self.len <= self.memory@.len(),
                    self.memory@.len() == before.len(),
                    forall|j: int| 0 <= j <= i ==> self.memory@[j] == before[j],
                    forall|j: int| i < j < self.len ==> self.memory@[j] == before[j - 1],
                decreases i,
            {
                self.memory[i] = self.memory[i - 1];
                i -= 1;
            }
            self.memory[index] = element;
            assert(self@ =~= old(self)@.insert(index as int, element));
            Ok(())
        } else {
            Err(ErrorKind::NoSpace)
        }
    }

    /// Appends `value`, unless the vector is full.
    pub fn push(&mut self, value: T) -> (r: Result<(), ErrorKind>)
        ensures
            final(self).spec_capacity() == old(self).spec_capacity(),
            final(self)@.len() <= final(self).spec_capacity(),
            r is Ok <==> old(self)@.len() < old(self).spec_capacity(),
            r is Ok ==> final(self)@ == old(self)@.push(value),
            r is Ok ==> final(self).region() == old(self).region().update(
                old(self)@.len() as int,
                value,
            ),
            r is Err ==> final(self)@ == old(self)@,
            r is Err ==> final(self).region() == old(self).region(),
    {
        proof {
            use_type_invariant(&*self);
        }
        if self.memory.len() - self.len >= 1 {
            self.memory[self.len] = value;
            self.len += 1;
            assert(self@ =~= old(self)@.push(value));
            Ok(())
        } else {
            Err(ErrorKind::NoSpace)
        }
    }

    /// Takes the element at `index` out and closes the gap, keeping the
    /// order of the others.
    pub fn remove(&mut self, index: usize) -> (ret: T)
        requires
            index < old(self)@.len(),
        ensures
            final(self).spec_capacity() == old(self).spec_capacity(),
            final(self)@.len() <= final(self).spec_capacity(),
            ret == old(self)@[index as int],
            final(self)@ == old(self)@.remove(index as int),
    {
        proof {
            use_type_invariant(&*self);
        }
        let ghost before = self.memory@;
        let ret = self.memory[index];
        self.len -= 1;
        let mut i: usize = index;
        while i < self.len
            invariant
                index <= i <= self.len,
                self.len + 1 == old(self).len,
                self.len < self.memory@.len(),
                self.memory@.len() == before.len(),
                forall|j: int| 0 <= j < index ==> self.memory@[j] == before[j],
                forall|j: int| index <= j < i ==> self.memory@[j] == before[j + 1],
                forall|j: int| i <= j < before.len() ==> self.memory@[j] == before[j],
            decreases self.len - i,
        {
            self.memory[i] = self.memory[i + 1];
            i += 1;
        }
        assert(self@ =~= old(self)@.remove(index as int));
        ret
    }

    /// Takes the last element off, if there is one.
    pub fn pop(&mut self) -> (ret: Option<T>)
        ensures
            final(self).spec_capacity() == old(self).spec_capacity(),
            final(self)@.len() <= final(self).spec_capacity(),
            old(self)@.len() == 0 ==> ret is None && final(self)@ == old(self)@,
            old(self)@.len() > 0 ==> ret == Some(old(self)@.last()) && final(self)@ == old(
                self,
            )@.drop_last(),
            final(self).region() == old(self).region(),
    {
        proof {
            use_type_invariant(&*self);
        }
        if self.len > 0 {
            self.len -= 1;
            assert(self@ =~= old(self)@.drop_last());
            Some(self.memory[self.len])
        } else {
            None
        }
    }

    /// Appends all of `other`, or nothing at all where it does not fit.
    pub fn push_all(&mut self, other: &[T]) -> (r: Result<(), ErrorKind>)
        ensures
            final(self).spec_capacity() == old(self).spec_capacity(),
            final(self)@.len() <= final(self).spec_capacity(),
            r is Ok <==> other@.len() <= old(self).spec_available(),
            r is Ok ==> final(self)@ == old(self)@ + other@,
            r is Err ==> final(self)@ == old(self)@,
            r is Err ==> final(self).region() == old(self).region(),
    {
        proof {
            use_type_invariant(&*self);
        }
        if other.len() > self.memory.len() - self.len {
            Err(ErrorKind::NoSpace)
        } else {
            let mut i: usize = 0;
            while i < other.len()
                invariant
                    i <= other@.len(),
                    self.len == old(self).len + i,
                    old(self).len + other@.len() <= self.memory@.len(),
                    self.memory@.len() == old(self).memory@.len(),
                    forall|j: int| 0 <= j < old(self).len ==> self.memory@[j] == old(self).memory@[j],
                    forall|j: int| 0 <= j < i ==> self.memory@[old(self).len + j] == other@[j],
                decreases other@.len() - i,
            {
                self.memory[self.len] = other[i];
                self.len += 1;
                i += 1;
            }
            assert(self@ =~= old(self)@ + other@);
            Ok(())
        }
    }

    /// Forgets every element. The region keeps what it holds.
    pub fn clear(&mut self)
        ensures
            final(self).spec_capacity() == old(self).spec_capacity(),
            final(self)@.len() <= final(self).spec_capacity(),
            final(self)@ == Seq::<T>::empty(),
            final(self).region() == old(self).region(),
    {
        proof {
            use_type_invariant(&*self);
        }
        self.len = 0;
        assert(self@ =~= Seq::<T>::empty());
    }

    /// Takes the element at `index` out in constant time: the last element
    /// moves into its place, so the order of the others is not kept.
    pub fn swap_remove(&mut self, index: usize) -> (ret: T)
        requires
            index < old(self)@.len(),
        ensures
            final(self).spec_capacity() == old(self).spec_capacity(),
            final(self)@.len() <= final(self).spec_capacity(),
            ret == old(self)@[index as int],
            final(self)@ == swap_removed(old(self)@, index as int),
    {
        proof {
            use_type_invariant(&*self);
        }
        if self.len == 1 {
            let ret = self.remove(0);
            assert(self@ =~= swap_removed(old(self)@, index as int));
            ret
        } else {
            let removed = self.memory[index];
            let last = self.pop();
            proof {
                use_type_invariant(&*self);
            }
            assert(self@.len() == old(self)@.len() - 1);
            assert forall|j: int| 0 <= j < self.len implies self.memory@[j] == old(
                self,
            ).memory@[j] by {
                assert(self@[j] == old(self)@.drop_last()[j]);
            }
            match last {
                Some(value) => {
                    self.memory[index] = value;
                },
                None => {},
            }
            assert(self@ =~= swap_removed(old(self)@, index as int));
            removed
        }
    }

    /// Sets the length to `new_len`: a shorter vector loses its tail, a
    /// longer one is filled up with copies of `value`.
    pub fn resize(&mut self, new_len: usize, value: T)
        requires
            new_len <= old(self).spec_capacity(),
        ensures
            final(self).spec_capacity() == old(self).spec_capacity(),
            final(self)@.len() <= final(self).spec_capacity(),
            new_len <= old(self)@.len() ==> final(self)@ == old(self)@.take(new_len as int),
            new_len <= old(self)@.len() ==> final(self).region() == old(self).region(),
            new_len > old(self)@.len() ==> final(self)@ == padded(
                old(self)@,
                (new_len - old(self)@.len()) as nat,
                value,
            ),
    {
        proof {
            use_type_invariant(&*self);
        }
        if new_len <= self.len {
            self.len = new_len;
            assert(self@ =~= old(self)@.take(new_len as int));
        } else {
            let mut i: usize = self.len;
            while i < new_len
                invariant
                    self.len == old(self).len,
                    self.len <= i <= new_len <= self.memory@.len(),
                    self.memory@.len() == old(self).memory@.len(),
                    forall|j: int| 0 <= j < self.len ==> self.memory@[j] == old(self).memory@[j],
                    forall|j: int| self.len <= j < i ==> self.memory@[j] == value,
                decreases new_len - i,
            {
                self.memory[i] = value;
                i += 1;
            }
            self.len = new_len;
            assert(self@ =~= padded(old(self)@, (new_len - old(self)@.len()) as nat, value));
        }
    }

    /// Keeps the elements for which `f` answers `true`, in their order, and
    /// drops the others.
    pub fn retain<F>(&mut self, f: F) where F: Fn(&T) -> bool
        requires
            forall|i: int| 0 <= i < old(self)@.len() ==> call_requires(f, (&old(self)@[i],)),
        ensures
            final(self).spec_capacity() == old(self).spec_capacity(),
            final(self)@.len() <= final(self).spec_capacity(),
            exists|keep: Seq<bool>| #[trigger]
                answers(f, old(self)@, keep) && final(self)@ == kept_prefix(
                    old(self)@,
                    keep,
                    old(self)@.len(),
                ),
            forall|pred: spec_fn(T) -> bool|
                decides(f, old(self)@, pred) ==> final(self)@ == #[trigger] old(self)@.filter(pred),
    {
        proof {
            use_type_invariant(&*self);
        }
        let ghost before = self@;
        let ghost mut keep: Seq<bool> = Seq::empty();
        let mut head: usize = 0;
        let mut tail: usize = 0;
        while head < self.len
            invariant
                self.len == old(self).len,
                self.len <= self.memory@.len(),
                self.memory@.len() == old(self).memory@.len(),
                before == old(self)@,
                before.len() == self.len,
                tail <= head <= self.len,
                keep.len() == head,
                forall|i: int| 0 <= i < before.len() ==> call_requires(f, (&before[i],)),
                forall|i: int| 0 <= i < head ==> call_ensures(f, (&before[i],), #[trigger] keep[i]),
                forall|j: int| head <= j < self.len ==> self.memory@[j] == before[j],
                self.memory@.take(tail as int) == kept_prefix(before, keep, head as nat),
            decreases self.len - head,
        {
            let ghost seen = keep;
            let ghost packed = self.memory@.take(tail as int);
            assert(self.memory@[head as int] == before[head as int]);
            let answer = f(&self.memory[head]);
            proof {
                keep = seen.push(answer);
                lemma_kept_prefix_agrees(before, seen, keep, head as nat);
            }
            if answer {
                self.memory[tail] = self.memory[head];
                tail += 1;
                assert(self.memory@.take(tail as int) =~= packed.push(before[head as int]));
            } else {
                assert(self.memory@.take(tail as int) =~= packed);
            }
            head += 1;
        }
        self.len = tail;
        assert(answers(f, before, keep));
        assert forall|pred: spec_fn(T) -> bool| decides(f, before, pred) implies self@
            == #[trigger] before.filter(pred) by {
            lemma_kept_is_filter(before, keep, pred);
        }
    }

    /// Applies `f` to each element in turn, from the first to the last:
    /// each element ends up as a value that one call of `f` can leave where
    /// it found the old one. `f` must accept every element, so the second
    /// condition in the last clause holds of each of them.
    pub fn map_in_place<F>(&mut self, f: F) where F: Fn(&mut T)
        requires
            forall|i: int| 0 <= i < old(self)@.len() ==> accepts(f, #[trigger] old(self)@[i]),
        ensures
            final(self).spec_capacity() == old(self).spec_capacity(),
            final(self)@.len() <= final(self).spec_capacity(),
            final(self)@.len() == old(self)@.len(),
            forall|i: int|
                0 <= i < old(self)@.len() && accepts(f, #[trigger] old(self)@[i]) ==> exists|
                    x: &mut T,
                |
                    #![trigger call_ensures(f, (x,), ())]
                    *x == old(self)@[i] && *final(x) == final(self)@[i] && call_ensures(
                        f,
                        (x,),
                        (),
                    ),
    {
        proof {
            use_type_invariant(&*self);
        }
        let ghost before = self@;
        let mut i: usize = 0;
        while i < self.len
            invariant
                self.len == old(self).len,
                i <= self.len <= self.memory@.len(),
                self.memory@.len() == old(self).memory@.len(),
                before == old(self)@,
                forall|j: int| 0 <= j < before.len() ==> accepts(f, #[trigger] before[j]),
                forall|j: int| i <= j < self.len ==> self.memory@[j] == before[j],
                forall|j: int|
                    0 <= j < i && accepts(f, #[trigger] before[j]) ==> exists|x: &mut T|
                        #![trigger call_ensures(f, (x,), ())]
                        *x == before[j] && *final(x) == self.memory@[j] && call_ensures(
                            f,
                            (x,),
                            (),
                        ),
            decreases self.len - i,
        {
            let mut slot = self.memory[i];
            assert(slot == before[i as int]);
            f(&mut slot);
            self.memory[i] = slot;
            i += 1;
        }
        assert(forall|j: int| 0 <= j < self.len ==> self@[j] == self.memory@[j]);
    }
}

impl<'a, T: Copy + PartialEq> FixedVec<'a, T> {
    /// Collapses each run of equal neighbours to its first element. What
    /// the result is exactly is known for the element types whose `==`
    /// has a specification.
    pub fn dedup(&mut self)
        ensures
            final(self).spec_capacity() == old(self).spec_capacity(),
            final(self)@.len() <= final(self).spec_capacity(),
            final(self)@.len() <= old(self)@.len(),
            old(self)@.len() <= 1 ==> final(self)@ == old(self)@,
            old(self)@.len() > 0 ==> final(self)@.len() > 0 && final(self)@[0] == old(self)@[0],
            T::obeys_eq_spec() ==> final(self)@ == deduped(old(self)@),
    {
        proof {
            use_type_invariant(&*self);
        }
        if self.len <= 1 {
            return ;
        }
        let ghost before = self@;
        let mut head: usize = 1;
        let mut tail: usize = 0;
        proof {
            assert(before.take(1).drop_last().len() == 0);
        }
        while head < self.len
            invariant
                self.len == old(self).len,
                self.len <= self.memory@.len(),
                self.memory@.len() == old(self).memory@.len(),
                before == old(self)@,
                before.len() == self.len,
                tail < head <= self.len,
                self.memory@[0] == before[0],
                forall|j: int| head <= j < self.len ==> self.memory@[j] == before[j],
                T::obeys_eq_spec() ==> self.memory@.take(tail + 1) == deduped(
                    before.take(head as int),
                ),
            decreases self.len - head,
        {
            let ghost packed = self.memory@.take(tail + 1);
            proof {
                assert(before.take(head + 1).drop_last() =~= before.take(head as int));
                assert(before.take(head + 1).last() == before[head as int]);
                assert(packed.last() == self.memory@[tail as int]);
            }
            if self.memory[head] != self.memory[tail] {
                tail += 1;
                self.memory[tail] = self.memory[head];
                assert(self.memory@.take(tail + 1) =~= packed.push(before[head as int]));
            } else {
                assert(self.memory@.take(tail + 1) =~= packed);
            }
            head += 1;
        }
        self.len = tail + 1;
        assert(before.take(head as int) =~= before);
    }
}

/// Slot `i` of `s`, borrowed for writing.
fn slot_mut<T>(s: &mut [T], i: usize) -> (r: &mut T)
    requires
        i < old(s)@.len(),
    ensures
        *r == old(s)@[i as int],
        final(s)@ == old(s)@.update(i as int, *final(r)),
    no_unwind
{
    &mut s[i]
}

/// The first `n` slots of `s`, borrowed for writing. This is std's
/// `IndexMut::index_mut` of a slice with the range `..n`, taken on trust:
/// the borrow starts out holding the first `n` values of `s`, it has length
/// `n` and keeps it, and when it ends `s` holds what the borrow was left
/// with, followed by its own old tail. With `n` within the slice the call
/// does not panic.
#[verifier::external_body]
fn prefix_mut<T>(s: &mut [T], n: usize) -> (r: &mut [T])
    requires
        n <= old(s)@.len(),
    ensures
        r@ == old(s)@.take(n as int),
        final(r)@.len() == n,
        final(s)@ == final(r)@ + old(s)@.skip(n as int),
    no_unwind
{
    &mut s[..n]
}

impl<'a, T: Copy> std::ops::Index<usize> for FixedVec<'a, T> {
    type Output = T;

    /// The element at `index`. Only the elements can be read, never a free
    /// slot.
    fn index(&self, index: usize) -> (value: &T)
        ensures
            *value == self@[index as int],
    {
        proof {
            use_type_invariant(self);
        }
        let active = vstd::slice::slice_subrange(&*self.memory, 0, self.len);
        &active[index]
    }
}

impl<'a, T: Copy> vstd::std_specs::core::IndexSpecImpl<usize> for FixedVec<'a, T> {
    open spec fn index_req(&self, index: &usize) -> bool {
        *index < self@.len()
    }
}

} // verus!
