//! The consuming iterator of a [`StackVec`](crate::StackVec).
use vstd::prelude::*;

use crate::slots::{occupied_prefix, slot_values};

verus! {

/// Owns the elements of a consumed container that have not been yielded yet.
///
/// The slots `[begin, end)` hold those elements and every other slot is empty,
/// so dropping the iterator early drops each remaining element once.
pub struct IntoIter<T, const N: usize> {
    data: [Option<T>; N],
    begin: usize,
    end: usize,
}

impl<T, const N: usize> View for IntoIter<T, N> {
    type V = Seq<T>;

    /// The elements not yet yielded, front to back.
    closed spec fn view(&self) -> Seq<T> {
        Seq::new((self.end - self.begin) as nat, |i: int| self.data@[self.begin + i]->Some_0)
    }
}

impl<T, const N: usize> IntoIter<T, N> {
    /// The cursors stay in order within the storage, and exactly the slots
    /// between them are occupied.
    pub closed spec fn wf(&self) -> bool {
        &&& self.begin <= self.end <= N
        &&& forall|i: int| self.begin <= i < self.end ==> (#[trigger] self.data@[i]) is Some
        &&& forall|i: int|
            0 <= i < N && !(self.begin <= i < self.end) ==> (#[trigger] self.data@[i]) is None
    }

    /// Takes over the slots of a container whose first `len` slots are occupied.
    pub(crate) fn from_slots(data: [Option<T>; N], len: usize) -> (r: Self)
        requires
            occupied_prefix(data, len as nat),
        ensures
            r.wf(),
            r@ == slot_values(data, len as nat),
    {
        let r = IntoIter { data, begin: 0, end: len };
        assert(r@ =~= slot_values(data, len as nat));
        r
    }

    /// The number of elements not yet yielded.
    pub fn len(&self) -> (r: usize)
        requires
            self.wf(),
        ensures
            r == self@.len(),
    {
        self.end - self.begin
    }

    /// Lower and upper bound of the number of elements still to come; both
    /// are exact.
    pub fn size_hint(&self) -> (r: (usize, Option<usize>))
        requires
            self.wf(),
        ensures
            r == (self@.len() as usize, Some(self@.len() as usize)),
    {
        let len = self.len();
        (len, Some(len))
    }

    /// Yields the front element, or `None` once every element was yielded.
    pub fn next(&mut self) -> (r: Option<T>)
        requires
            old(self).wf(),
        ensures
            final(self).wf(),
            old(self)@.len() == 0 ==> r is None && final(self)@ == old(self)@,
            old(self)@.len() > 0 ==> r == Some(old(self)@[0]) && final(self)@ == old(
                self,
            )@.drop_first(),
    {
        if self.begin == self.end {
            None
        } else {
            let ghost old_view = self@;
            let i = self.begin;
            let v = self.data[i].take();
            self.begin = i + 1;
            assert(self@ =~= old_view.drop_first());
            v
        }
    }

    /// Yields the back element, or `None` once every element was yielded.
    pub fn next_back(&mut self) -> (r: Option<T>)
        requires
            old(self).wf(),
        ensures
            final(self).wf(),
            old(self)@.len() == 0 ==> r is None && final(self)@ == old(self)@,
            old(self)@.len() > 0 ==> r == Some(old(self)@.last()) && final(self)@ == old(
                self,
            )@.drop_last(),
    {
        if self.begin == self.end {
            None
        } else {
            let ghost old_view = self@;
            let i = self.end - 1;
            let v = self.data[i].take();
            self.end = i;
            assert(self@ =~= old_view.drop_last());
            v
        }
    }
}

} // verus!
