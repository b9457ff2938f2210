use vstd::prelude::*;

use vstd::std_specs::cmp::PartialEqSpec;

use crate::error::{InsertError, NotEnoughSpaceError};
use crate::iter::IntoIter;
use crate::slots::{occupied_prefix, occupied_slots, slot_values, vacant_slots};

verus! {

/// A vector-like container holding at most `N` elements, stored inline.
///
/// Slot `i` holds a live element exactly when `i < len`; every other slot is
/// empty, so dropping the container drops each live element once.
#[derive(Debug)]
pub struct StackVec<T, const N: usize> {
    data: [Option<T>; N],
    len: usize,
}

/// `s` cut down to its first `k` elements, or `s` itself when it is not longer.
pub open spec fn truncated<T>(s: Seq<T>, k: int) -> Seq<T> {
    if k < s.len() {
        s.subrange(0, k)
    } else {
        s
    }
}

/// `n` copies of `v`.
pub open spec fn repeated<T>(v: T, n: nat) -> Seq<T> {
    Seq::new(n, |_i: int| v)
}

/// `s` grown to length `k` with copies of `v`, or cut down to its first `k`
/// elements.
pub open spec fn resized<T>(s: Seq<T>, k: int, v: T) -> Seq<T> {
    if k > s.len() {
        s + repeated(v, (k - s.len()) as nat)
    } else {
        s.subrange(0, k)
    }
}

impl<T, const N: usize> View for StackVec<T, N> {
    type V = Seq<T>;

    /// The live elements, in index order.
    closed spec fn view(&self) -> Seq<T> {
        slot_values(self.data, self.len as nat)
    }
}

impl<T, const N: usize> StackVec<T, N> {
    /// The length never exceeds `N`, and exactly the slots below it are occupied.
    pub closed spec fn wf(&self) -> bool {
        occupied_prefix(self.data, self.len as nat)
    }

    /// Creates an empty container.
    pub fn new() -> (r: Self)
        ensures
            r.wf(),
            r@ == Seq::<T>::empty(),
    {
        let r = StackVec { data: vacant_slots(), len: 0 };
        assert(r@ =~= Seq::<T>::empty());
        r
    }

    /// Creates a container holding the elements of `arr`, or `None` when `arr`
    /// is longer than the capacity.
    pub fn from_array<const M: usize>(arr: [T; M]) -> (r: Option<Self>)
        ensures
            r is Some <==> M <= N,
            r matches Some(v) ==> v.wf() && v@ == arr@,
    {
        if M > N {
            return None;
        }
        let mut src = occupied_slots(arr);
        let mut vec = Self::new();
        assert(vec@.len() == vec.len);
        let mut i: usize = 0;
        while i < M
            invariant
                M <= N,
                i <= M,
                vec.len == 0,
                forall|k: int| 0 <= k < i ==> (#[trigger] vec.data@[k]) == Some(arr@[k]),
                forall|k: int| i <= k < N ==> (#[trigger] vec.data@[k]) is None,
                forall|k: int| i <= k < M ==> (#[trigger] src@[k]) == Some(arr@[k]),
            decreases M - i,
        {
            let v = src[i].take();
            vec.data[i] = v;
            i = i + 1;
        }
        vec.len = M;
        assert(vec@ =~= arr@);
        Some(vec)
    }

    /// The fixed capacity `N`.
    pub fn capacity(&self) -> (r: usize)
        ensures
            r == N,
    {
        N
    }

    /// The number of live elements.
    pub fn len(&self) -> (r: usize)
        requires
            self.wf(),
        ensures
            r == self@.len(),
            r <= N,
    {
        self.len
    }

    /// Whether the container holds no element.
    pub fn is_empty(&self) -> (r: bool)
        requires
            self.wf(),
        ensures
            r == (self@.len() == 0),
    {
        self.len == 0
    }

    /// References to the live elements, in index order.
    pub fn as_slice(&self) -> (r: Vec<&T>)
        requires
            self.wf(),
        ensures
            r@.len() == self@.len(),
            forall|i: int| 0 <= i < r@.len() ==> *r@[i] == self@[i],
    {
        let mut r: Vec<&T> = Vec::new();
        let mut i: usize = 0;
        while i < self.len
            invariant
                self.wf(),
                i <= self.len,
                r@.len() == i,
                forall|k: int| 0 <= k < i ==> *r@[k] == self@[k],
            decreases self.len - i,
        {
            match &self.data[i] {
                Some(v) => r.push(v),
                None => {},
            }
            i = i + 1;
        }
        r
    }

    /// Mutable references to the live elements, in index order.
    pub fn as_mut_slice(&mut self) -> (r: Vec<&mut T>)
        requires
            old(self).wf(),
        ensures
            r@.len() == old(self)@.len(),
            forall|i: int| 0 <= i < r@.len() ==> *r@[i] == old(self)@[i],
            final(self).wf(),
            final(self)@.len() == old(self)@.len(),
            forall|i: int| 0 <= i < r@.len() ==> *final(r@[i]) == final(self)@[i],
    {
        let len = self.len;
        let ghost old_data = self.data;
        let ghost after = *final(self);
        let mut rest: &mut [Option<T>] = &mut self.data;
        let mut r: Vec<&mut T> = Vec::new();
        let mut i: usize = 0;
        while i < len
            invariant
                i <= len <= N,
                r@.len() == i,
                rest@.len() == N - i,
                forall|k: int| 0 <= k < N - i ==> rest@[k] == old_data@[i + k],
                occupied_prefix(old_data, len as nat),
                forall|k: int| 0 <= k < i ==> *r@[k] == old_data@[k]->Some_0,
                after.len == len,
                after.data@ == Seq::new(i as nat, |k: int| Some(*final(r@[k])))
                    + final(rest)@,
            decreases len - i,
        {
            let (head, tail) = rest.split_at_mut(1);
            match head.first_mut() {
                Some(slot) => match slot.as_mut() {
                    Some(v) => r.push(v),
                    None => {},
                },
                None => {},
            }
            rest = tail;
            i = i + 1;
        }
        r
    }

    /// Hands every element over to a consuming iterator, front to back.
    pub fn into_iter(self) -> (r: IntoIter<T, N>)
        requires
            self.wf(),
        ensures
            r.wf(),
            r@ == self@,
    {
        IntoIter::from_slots(self.data, self.len)
    }

    /// Appends `value`; the caller guarantees that there is room for it.
    pub fn push_unchecked(&mut self, value: T)
        requires
            old(self).wf(),
            old(self)@.len() < N,
        ensures
            final(self).wf(),
            final(self)@ == old(self)@.push(value),
    {
        let ghost old_view = self@;
        let i = self.len;
        self.data[i] = Some(value);
        self.len = i + 1;
        assert(self@ =~= old_view.push(value));
    }

    /// Appends `value`; panics on a full container, so a full one is excluded here.
    pub fn push(&mut self, value: T)
        requires
            old(self).wf(),
            old(self)@.len() < N,
        ensures
            final(self).wf(),
            final(self)@ == old(self)@.push(value),
    {
        self.push_unchecked(value);
    }

    /// Appends `value`, or reports that the container is full and leaves it unchanged.
    pub fn try_push(&mut self, value: T) -> (r: Result<(), NotEnoughSpaceError>)
        requires
            old(self).wf(),
        ensures
            final(self).wf(),
            r is Ok <==> old(self)@.len() < N,
            r is Ok ==> final(self)@ == old(self)@.push(value),
            r is Err ==> final(self)@ == old(self)@,
    {
        if self.len < N {
            self.push_unchecked(value);
            Ok(())
        } else {
            Err(NotEnoughSpaceError)
        }
    }

    /// Removes and returns the last element, or `None` when empty.
    pub fn pop(&mut self) -> (r: Option<T>)
        requires
            old(self).wf(),
        ensures
            final(self).wf(),
            old(self)@.len() == 0 ==> r is None && final(self)@ == old(self)@,
            old(self)@.len() > 0 ==> r == Some(old(self)@.last())
                && final(self)@ == old(self)@.drop_last(),
    {
        if self.len == 0 {
            None
        } else {
            let ghost old_view = self@;
            let i = self.len - 1;
            let v = self.data[i].take();
            self.len = i;
            assert(self@ =~= old_view.drop_last());
            v
        }
    }

    /// Inserts `value` at `idx`, moving the elements from `idx` on one slot
    /// towards the back; the caller guarantees `idx <= len < N`.
    pub fn insert_unchecked(&mut self, idx: usize, value: T)
        requires
            old(self).wf(),
            idx <= old(self)@.len(),
            old(self)@.len() < N,
        ensures
            final(self).wf(),
            final(self)@ == old(self)@.insert(idx as int, value),
    {
        let ghost old_view = self@;
        let ghost old_data = self.data;
        let len = self.len;
        let mut j: usize = len;
        while j > idx
            invariant
                idx <= j <= len,
                len == self.len,
                len < N,
                occupied_prefix(old_data, len as nat),
                old_view == slot_values(old_data, len as nat),
                forall|i: int| 0 <= i < j ==> self.data@[i] == old_data@[i],
                self.data@[j as int] is None,
                forall|i: int| j < i <= len ==> self.data@[i] == old_data@[i - 1],
                forall|i: int| len < i < N ==> self.data@[i] is None,
            decreases j,
        {
            let v = self.data[j - 1].take();
            self.data[j] = v;
            j = j - 1;
        }
        self.data[idx] = Some(value);
        self.len = len + 1;
        assert forall|i: int| 0 <= i < len + 1 implies (#[trigger] self.data@[i]) is Some by {
            if i > idx {
                assert(old_data@[i - 1] is Some);
                assert(self.data@[i] == old_data@[i - 1]);
            } else if i < idx {
                assert(old_data@[i] is Some);
                assert(self.data@[i] == old_data@[i]);
            } else {
                assert(self.data@[i] == Some(value));
            }
        }
        assert(self@ =~= old_view.insert(idx as int, value));
    }

    /// Inserts `value` at `idx`; panics when `idx > len` or the container is
    /// full, so those inputs are excluded here.
    pub fn insert(&mut self, idx: usize, value: T)
        requires
            old(self).wf(),
            idx <= old(self)@.len(),
            old(self)@.len() < N,
        ensures
            final(self).wf(),
            final(self)@ == old(self)@.insert(idx as int, value),
    {
        self.insert_unchecked(idx, value);
    }

    /// Inserts `value` at `idx`, or reports why it cannot and leaves the
    /// container unchanged. An index past the length is reported first.
    pub fn try_insert(&mut self, idx: usize, value: T) -> (r: Result<(), InsertError>)
        requires
            old(self).wf(),
        ensures
            final(self).wf(),
            r == Err::<(), InsertError>(InsertError::IndexOutOfRange) <==> idx > old(self)@.len(),
            r == Err::<(), InsertError>(InsertError::NotEnoughSpace) <==> idx <= old(self)@.len()
                && old(self)@.len() == N,
            r is Ok ==> final(self)@ == old(self)@.insert(idx as int, value),
            r is Err ==> final(self)@ == old(self)@,
    {
        if idx > self.len {
            return Err(InsertError::IndexOutOfRange);
        }
        if self.len >= N {
            return Err(InsertError::NotEnoughSpace);
        }
        self.insert_unchecked(idx, value);
        Ok(())
    }

    /// Removes and returns the element at `idx`, moving the later elements one
    /// slot towards the front; the caller guarantees `idx < len`.
    pub fn remove_unchecked(&mut self, idx: usize) -> (r: T)
        requires
            old(self).wf(),
            idx < old(self)@.len(),
        ensures
            final(self).wf(),
            r == old(self)@[idx as int],
            final(self)@ == old(self)@.remove(idx as int),
    {
        let ghost old_view = self@;
        let ghost old_data = self.data;
        let len = self.len;
        let removed = self.data[idx].take();
        let mut j: usize = idx + 1;
        while j < len
            invariant
                idx < j <= len,
                len == self.len,
                len <= N,
                occupied_prefix(old_data, len as nat),
                old_view == slot_values(old_data, len as nat),
                removed == old_data@[idx as int],
                forall|i: int| 0 <= i < idx ==> self.data@[i] == old_data@[i],
                forall|i: int| idx <= i < j - 1 ==> self.data@[i] == old_data@[i + 1],
                self.data@[j - 1] is None,
                forall|i: int| j <= i < N ==> self.data@[i] == old_data@[i],
            decreases len - j,
        {
            let v = self.data[j].take();
            self.data[j - 1] = v;
            j = j + 1;
        }
        self.len = len - 1;
        assert forall|i: int| 0 <= i < len - 1 implies (#[trigger] self.data@[i]) is Some by {
            if i >= idx {
                assert(old_data@[i + 1] is Some);
                assert(self.data@[i] == old_data@[i + 1]);
            } else {
                assert(old_data@[i] is Some);
                assert(self.data@[i] == old_data@[i]);
            }
        }
        assert forall|i: int| len - 1 <= i < N implies (#[trigger] self.data@[i]) is None by {
            if i >= len {
                assert(old_data@[i] is None);
            }
        }
        assert(self@ =~= old_view.remove(idx as int));
        assert(old_data@[idx as int] is Some);
        removed.unwrap()
    }

    /// Removes and returns the element at `idx`; panics when `idx >= len`, so
    /// those inputs are excluded here.
    pub fn remove(&mut self, idx: usize) -> (r: T)
        requires
            old(self).wf(),
            idx < old(self)@.len(),
        ensures
            final(self).wf(),
            r == old(self)@[idx as int],
            final(self)@ == old(self)@.remove(idx as int),
    {
        self.remove_unchecked(idx)
    }

    /// Removes and returns the element at `idx`, or `None` (leaving the
    /// container unchanged) when `idx >= len`.
    pub fn try_remove(&mut self, idx: usize) -> (r: Option<T>)
        requires
            old(self).wf(),
        ensures
            final(self).wf(),
            r is Some <==> idx < old(self)@.len(),
            r is Some ==> r == Some(old(self)@[idx as int])
                && final(self)@ == old(self)@.remove(idx as int),
            r is None ==> final(self)@ == old(self)@,
    {
        if idx >= self.len {
            None
        } else {
            Some(self.remove_unchecked(idx))
        }
    }

    /// Empties the slots `[start, end)`, dropping what they held.
    fn drop_range(&mut self, start: usize, end: usize)
        requires
            start <= end <= N,
        ensures
            forall|i: int| start <= i < end ==> (#[trigger] final(self).data@[i]) is None,
            forall|i: int| 0 <= i < N && !(start <= i < end) ==> (#[trigger] final(self).data@[i])
                == old(self).data@[i],
            final(self).len == old(self).len,
    {
        let mut i: usize = start;
        while i < end
            invariant
                start <= i <= end <= N,
                self.len == old(self).len,
                forall|k: int| start <= k < i ==> (#[trigger] self.data@[k]) is None,
                forall|k: int| 0 <= k < N && !(start <= k < i) ==> (#[trigger] self.data@[k])
                    == old(self).data@[k],
            decreases end - i,
        {
            self.data[i] = None;
            i = i + 1;
        }
    }

    /// Drops every element.
    pub fn clear(&mut self)
        requires
            old(self).wf(),
        ensures
            final(self).wf(),
            final(self)@ == Seq::<T>::empty(),
    {
        self.drop_range(0, self.len);
        self.len = 0;
        assert(self@ =~= Seq::<T>::empty());
    }

    /// Shortens the container to `new_len` elements, dropping the rest; does
    /// nothing when `new_len` is not below the length.
    pub fn truncate(&mut self, new_len: usize)
        requires
            old(self).wf(),
        ensures
            final(self).wf(),
            final(self)@ == truncated(old(self)@, new_len as int),
    {
        let ghost old_view = self@;
        let old_len = self.len;
        if new_len < old_len {
            self.drop_range(new_len, old_len);
            self.len = new_len;
            assert(self@ =~= old_view.subrange(0, new_len as int));
        }
    }

    /// Appends the elements of `items` in order. Panics when they do not fit,
    /// so those inputs are excluded here.
    pub fn extend(&mut self, items: Vec<T>)
        requires
            old(self).wf(),
            old(self)@.len() + items@.len() <= N,
        ensures
            final(self).wf(),
            final(self)@ == old(self)@ + items@,
    {
        let ghost old_view = self@;
        let ghost old_data = self.data;
        let ghost src = items@;
        let mut items = items;
        let base = self.len;
        let count = items.len();
        while items.len() > 0
            invariant
                base == self.len,
                base + count <= N,
                count == src.len(),
                items@.len() <= count,
                occupied_prefix(old_data, base as nat),
                old_view == slot_values(old_data, base as nat),
                items@ == src.subrange(0, items@.len() as int),
                forall|i: int| 0 <= i < base ==> self.data@[i] == old_data@[i],
                forall|i: int|
                    base + items@.len() <= i < base + count ==> self.data@[i] == Some(
                        src[i - base],
                    ),
                forall|i: int| base <= i < base + items@.len() ==> self.data@[i] is None,
                forall|i: int| base + count <= i < N ==> self.data@[i] is None,
            decreases items@.len(),
        {
            let k = items.len() - 1;
            let v = items.pop().unwrap();
            assert(v == src[k as int]);
            self.data[base + k] = Some(v);
            assert(items@ =~= src.subrange(0, items@.len() as int));
        }
        self.len = base + count;
        assert forall|i: int| 0 <= i < base + count implies (#[trigger] self.data@[i]) is Some by {
            if i < base {
                assert(old_data@[i] is Some);
            }
        }
        assert(self@ =~= old_view + src);
    }

}

impl<T: Copy, const N: usize> StackVec<T, N> {
    /// Creates a container holding `len` copies of `val`, or `None` when `len`
    /// exceeds the capacity.
    pub fn from_value(val: T, len: usize) -> (r: Option<Self>)
        ensures
            r is Some <==> len <= N,
            r matches Some(v) ==> v.wf() && v@ == repeated(val, len as nat),
    {
        if len > N {
            return None;
        }
        let mut vec = Self::new();
        vec.extend_with(len, val);
        assert(vec@ =~= repeated(val, len as nat));
        Some(vec)
    }

    /// Sets the length to `new_len`: copies of `val` fill a longer container,
    /// a shorter one is truncated. Panics when `new_len` exceeds the capacity,
    /// so those inputs are excluded here.
    pub fn resize(&mut self, new_len: usize, val: T)
        requires
            old(self).wf(),
            new_len <= N,
        ensures
            final(self).wf(),
            final(self)@ == resized(old(self)@, new_len as int, val),
    {
        let ghost old_view = self@;
        if new_len > self.len {
            self.extend_with(new_len - self.len, val);
        } else {
            self.truncate(new_len);
            assert(self@ =~= old_view.subrange(0, new_len as int));
        }
    }

    /// Appends `n` copies of `val`. Panics when they do not fit, so those
    /// inputs are excluded here.
    pub fn extend_with(&mut self, n: usize, val: T)
        requires
            old(self).wf(),
            old(self)@.len() + n <= N,
        ensures
            final(self).wf(),
            final(self)@ == old(self)@ + repeated(val, n as nat),
    {
        let ghost old_view = self@;
        let mut i: usize = 0;
        while i < n
            invariant
                self.wf(),
                i <= n,
                old_view.len() + n <= N,
                self@ == old_view + repeated(val, i as nat),
            decreases n - i,
        {
            self.push_unchecked(val);
            i = i + 1;
            assert(self@ =~= old_view + repeated(val, i as nat));
        }
    }
}

/// Two slots agree when both are empty, or both hold values that `==` relates.
pub open spec fn slots_eq<T: PartialEq>(a: Option<T>, b: Option<T>) -> bool {
    match (a, b) {
        (Some(x), Some(y)) => x.eq_spec(&y),
        (None, None) => true,
        _ => false,
    }
}

impl<T: PartialEq, const N: usize> PartialEq for StackVec<T, N> {
    /// Equal lengths and pairwise equal elements.
    fn eq(&self, other: &Self) -> (r: bool) {
        if self.len != other.len {
            return false;
        }
        let mut i: usize = 0;
        while i < self.len && i < N
            invariant
                self.len == other.len,
                i <= self.len,
                T::obeys_eq_spec() ==> forall|k: int|
                    0 <= k < i ==> slots_eq(#[trigger] self.data@[k], other.data@[k]),
            decreases self.len - i,
        {
            let same = match (&self.data[i], &other.data[i]) {
                (Some(a), Some(b)) => a.eq(b),
                (None, None) => true,
                _ => false,
            };
            if !same {
                return false;
            }
            i = i + 1;
        }
        true
    }
}

impl<T: PartialEq, const N: usize> vstd::std_specs::cmp::PartialEqSpecImpl for StackVec<T, N> {
    open spec fn obeys_eq_spec() -> bool {
        <T as PartialEqSpec>::obeys_eq_spec()
    }

    closed spec fn eq_spec(&self, other: &Self) -> bool {
        &&& self.len == other.len
        &&& forall|k: int| 0 <= k < self.len && k < N ==> slots_eq(#[trigger] self.data@[k], other.data@[k])
    }
}

impl<T: PartialEq, const N: usize> StackVec<T, N> {
    /// On well-formed containers, `==` holds exactly when the lengths agree
    /// and the elements agree pairwise.
    pub proof fn lemma_eq_iff_elementwise(&self, other: &Self)
        requires
            self.wf(),
            other.wf(),
        ensures
            self.eq_spec(other) <==> (self@.len() == other@.len() && forall|k: int|
                0 <= k < self@.len() ==> (#[trigger] self@[k]).eq_spec(&other@[k])),
    {
        if self@.len() == other@.len() && forall|k: int|
            0 <= k < self@.len() ==> (#[trigger] self@[k]).eq_spec(&other@[k]) {
            assert forall|k: int| 0 <= k < self.len && k < N implies slots_eq(
                #[trigger] self.data@[k],
                other.data@[k],
            ) by {
                assert(self@[k].eq_spec(&other@[k]));
            }
        }
        if self.eq_spec(other) {
            assert forall|k: int| 0 <= k < self@.len() implies (#[trigger] self@[k]).eq_spec(
                &other@[k],
            ) by {
                assert(slots_eq(self.data@[k], other.data@[k]));
            }
        }
    }
}

impl<T, const N: usize> Default for StackVec<T, N> {
    /// An empty container.
    fn default() -> (r: Self)
        ensures
            r.wf(),
            r@ == Seq::<T>::empty(),
    {
        Self::new()
    }
}

} // verus!
