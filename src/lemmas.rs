//! Facts relating the operations of [`StackVec`](crate::StackVec), stated over
//! the sequence of live elements that its contracts speak of.
use vstd::prelude::*;

use crate::stack_vec::{repeated, resized, truncated};

verus! {

/// The contents after pushing each element of `xs`, in order, onto `s`
/// (each push appends, as `push` and `try_push` ensure).
pub open spec fn pushed_all<T>(s: Seq<T>, xs: Seq<T>) -> Seq<T>
    decreases xs.len(),
{
    if xs.len() == 0 {
        s
    } else {
        pushed_all(s, xs.drop_last()).push(xs.last())
    }
}

/// The values that popping `s` until it is empty returns, in order (each pop
/// takes the last element, as `pop` ensures).
pub open spec fn popped_all<T>(s: Seq<T>) -> Seq<T>
    decreases s.len(),
{
    if s.len() == 0 {
        Seq::empty()
    } else {
        seq![s.last()] + popped_all(s.drop_last())
    }
}

/// Pushing the elements of `xs` onto an empty container of capacity `cap`,
/// with `xs` no longer than `cap`: every push finds room, the length after `k`
/// pushes is `k`, and popping everything returns the elements last-in,
/// first-out.
pub proof fn lemma_push_pop_lifo<T>(xs: Seq<T>, cap: nat)
    requires
        xs.len() <= cap,
    ensures
        forall|k: int|
            0 <= k <= xs.len() ==> (#[trigger] pushed_all(Seq::<T>::empty(), xs.take(k))).len()
                == k,
        forall|k: int|
            0 <= k < xs.len() ==> (#[trigger] pushed_all(Seq::<T>::empty(), xs.take(k))).len()
                < cap,
        pushed_all(Seq::<T>::empty(), xs) == xs,
        popped_all(pushed_all(Seq::<T>::empty(), xs)) == xs.reverse(),
    decreases xs.len(),
{
    lemma_pushed_all_from_empty(xs);
    assert forall|k: int| 0 <= k <= xs.len() implies (#[trigger] pushed_all(
        Seq::<T>::empty(),
        xs.take(k),
    )).len() == k by {
        lemma_pushed_all_from_empty(xs.take(k));
    }
    lemma_popped_all_is_reverse(xs);
}

proof fn lemma_pushed_all_from_empty<T>(xs: Seq<T>)
    ensures
        pushed_all(Seq::<T>::empty(), xs) == xs,
    decreases xs.len(),
{
    if xs.len() > 0 {
        lemma_pushed_all_from_empty(xs.drop_last());
        assert(xs.drop_last().push(xs.last()) =~= xs);
    }
}

proof fn lemma_popped_all_is_reverse<T>(s: Seq<T>)
    ensures
        popped_all(s) == s.reverse(),
    decreases s.len(),
{
    if s.len() > 0 {
        lemma_popped_all_is_reverse(s.drop_last());
        assert(seq![s.last()] + s.drop_last().reverse() =~= s.reverse());
    }
}

/// Inserting `v` at `idx` keeps the elements before `idx`, puts `v` at `idx`,
/// and moves the elements from `idx` on one place back, in their order.
pub proof fn lemma_insert_layout<T>(s: Seq<T>, idx: int, v: T)
    requires
        0 <= idx <= s.len(),
    ensures
        s.insert(idx, v).len() == s.len() + 1,
        forall|i: int| 0 <= i < idx ==> #[trigger] s.insert(idx, v)[i] == s[i],
        s.insert(idx, v)[idx] == v,
        forall|i: int| idx <= i < s.len() ==> s.insert(idx, v)[i + 1] == #[trigger] s[i],
{
}

/// Removing at `idx` right after inserting `v` there returns `v` and restores
/// the sequence as it was before the insertion.
pub proof fn lemma_remove_undoes_insert<T>(s: Seq<T>, idx: int, v: T)
    requires
        0 <= idx <= s.len(),
    ensures
        s.insert(idx, v)[idx] == v,
        s.insert(idx, v).remove(idx) == s,
{
    assert(s.insert(idx, v).remove(idx) =~= s);
}

/// Truncating to `k` changes nothing when `k` is not below the length;
/// otherwise it keeps exactly the first `k` elements and removes the rest.
pub proof fn lemma_truncate_keeps_prefix<T>(s: Seq<T>, k: int)
    requires
        0 <= k,
    ensures
        k >= s.len() ==> truncated(s, k) == s,
        k < s.len() ==> truncated(s, k).len() == k && truncated(s, k) + s.subrange(k, s.len() as int)
            == s,
        forall|i: int| 0 <= i < truncated(s, k).len() ==> #[trigger] truncated(s, k)[i] == s[i],
{
    if k < s.len() {
        assert(truncated(s, k) + s.subrange(k, s.len() as int) =~= s);
    }
}

/// Growing with `resize` and then resizing back to the former length
/// restores the former contents, whatever fill values the two calls get.
pub proof fn lemma_resize_round_trip<T>(s: Seq<T>, k: int, v: T, w: T)
    requires
        s.len() < k,
    ensures
        resized(resized(s, k, v), s.len() as int, w) == s,
{
    let grown = resized(s, k, v);
    assert(grown == s + repeated(v, (k - s.len()) as nat));
    assert(grown.subrange(0, s.len() as int) =~= s);
}

} // verus!
