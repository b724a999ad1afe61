//! Sequence-level definitions that the contracts of the container speak of.

use vstd::prelude::*;
use vstd::std_specs::cmp::PartialEqSpec;

verus! {

/// The elements among the first `n` of `s` whose position is marked in
/// `keep`, in the order they have there.
pub open spec fn kept_prefix<T>(s: Seq<T>, keep: Seq<bool>, n: nat) -> Seq<T>
    decreases n,
{
    if n == 0 {
        Seq::empty()
    } else {
        let head = kept_prefix(s, keep, (n - 1) as nat);
        if keep[n - 1] {
            head.push(s[n - 1])
        } else {
            head
        }
    }
}

/// `s` with `count` copies of `value` appended.
pub open spec fn padded<T>(s: Seq<T>, count: nat, value: T) -> Seq<T> {
    s + Seq::new(count, |i: int| value)
}

/// How many of `count` offered values go into `room` free slots.
pub open spec fn fitting(count: nat, room: int) -> int {
    if count <= room {
        count as int
    } else {
        room
    }
}

/// What inserting `value` at `index` makes of `s`: an empty sequence takes
/// the value as its only element wherever `index` points.
pub open spec fn inserted<T>(s: Seq<T>, index: int, value: T) -> Seq<T> {
    if s.len() == 0 {
        seq![value]
    } else {
        s.insert(index, value)
    }
}

/// What removing position `index` in constant time makes of `s`: the last
/// element takes the vacated place.
pub open spec fn swap_removed<T>(s: Seq<T>, index: int) -> Seq<T> {
    s.update(index, s.last()).drop_last()
}

/// `kept_prefix` reads only the first `n` marks.
pub proof fn lemma_kept_prefix_agrees<T>(s: Seq<T>, k1: Seq<bool>, k2: Seq<bool>, n: nat)
    requires
        forall|i: int| 0 <= i < n ==> k1[i] == k2[i],
    ensures
        kept_prefix(s, k1, n) == kept_prefix(s, k2, n),
    decreases n,
{
    if n > 0 {
        lemma_kept_prefix_agrees(s, k1, k2, (n - 1) as nat);
    }
}

/// `s` without the elements that equal the one kept just before them: of each
/// run of equal neighbours the first stays.
pub open spec fn deduped<T: PartialEq>(s: Seq<T>) -> Seq<T>
    decreases s.len(),
{
    if s.len() <= 1 {
        s
    } else {
        let head = deduped(s.drop_last());
        if s.last().eq_spec(&head.last()) {
            head
        } else {
            head.push(s.last())
        }
    }
}

/// Removing neighbours that repeat leaves a non-empty sequence non-empty,
/// and never makes it longer.
pub proof fn lemma_deduped_len<T: PartialEq>(s: Seq<T>)
    ensures
        deduped(s).len() <= s.len(),
        s.len() > 0 ==> deduped(s).len() > 0,
    decreases s.len(),
{
    if s.len() > 1 {
        lemma_deduped_len(s.drop_last());
    }
}

/// Whether `a` and `b` have the same length and, place by place, elements
/// that their type's `==` takes for equal.
pub open spec fn pairwise_equal<T: PartialEq>(a: Seq<T>, b: Seq<T>) -> bool {
    &&& a.len() == b.len()
    &&& forall|i: int| 0 <= i < a.len() ==> (#[trigger] a[i]).eq_spec(&b[i])
}

/// Whether `f` may be called on a slot that holds `value`.
pub open spec fn accepts<T, F: Fn(&mut T)>(f: F, value: T) -> bool {
    forall|x: &mut T| *x == value ==> #[trigger] call_requires(f, (x,))
}

/// Whether `keep` records, position by position, an answer that `f` may give
/// for the elements of `s`.
pub open spec fn answers<T, F: Fn(&T) -> bool>(f: F, s: Seq<T>, keep: Seq<bool>) -> bool {
    &&& keep.len() == s.len()
    &&& forall|i: int| 0 <= i < s.len() ==> call_ensures(f, (&s[i],), #[trigger] keep[i])
}

/// Whether `pred` decides the answers of `f` on the elements of `s`: on
/// each of them `f` can answer nothing but what `pred` says.
pub open spec fn decides<T, F: Fn(&T) -> bool>(f: F, s: Seq<T>, pred: spec_fn(T) -> bool) -> bool {
    forall|i: int, answer: bool|
        0 <= i < s.len() && #[trigger] call_ensures(f, (&s[i],), answer) ==> answer == pred(s[i])
}

/// Keeping by marks that agree with a predicate on the elements is
/// filtering by that predicate.
pub proof fn lemma_kept_is_filter<T>(s: Seq<T>, keep: Seq<bool>, pred: spec_fn(T) -> bool)
    requires
        keep.len() == s.len(),
        forall|i: int| 0 <= i < s.len() ==> #[trigger] keep[i] == pred(s[i]),
    ensures
        kept_prefix(s, keep, s.len()) == s.filter(pred),
{
    lemma_kept_take_is_filter(s, keep, pred, s.len());
    assert(s.take(s.len() as int) =~= s);
}

proof fn lemma_kept_take_is_filter<T>(
    s: Seq<T>,
    keep: Seq<bool>,
    pred: spec_fn(T) -> bool,
    n: nat,
)
    requires
        n <= s.len(),
        keep.len() == s.len(),
        forall|i: int| 0 <= i < s.len() ==> #[trigger] keep[i] == pred(s[i]),
    ensures
        kept_prefix(s, keep, n) == s.take(n as int).filter(pred),
    decreases n,
{
    reveal(Seq::filter);
    if n > 0 {
        lemma_kept_take_is_filter(s, keep, pred, (n - 1) as nat);
        assert(s.take(n as int).drop_last() =~= s.take(n - 1));
        assert(s.take(n as int).last() == s[n - 1]);
    }
}

} // verus!
