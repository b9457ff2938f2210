//! Inline storage: a fixed array of slots, each either empty or holding one value.
use vstd::prelude::*;

verus! {

fn vacant_slot<T>(_i: usize) -> (r: Option<T>)
    ensures
        r is None,
{
    None
}

/// Relies on std::array::from_fn: slot `i` of the result is `vacant_slot(i)`,
/// which is `None`.
#[verifier::external_body]
pub(crate) fn vacant_slots<T, const N: usize>() -> (r: [Option<T>; N])
    ensures
        forall|i: int| 0 <= i < N ==> r@[i] is None,
{
    std::array::from_fn(vacant_slot::<T>)
}

/// The values held by the slots `[0, n)`.
pub open spec fn slot_values<T, const N: usize>(data: [Option<T>; N], n: nat) -> Seq<T> {
    Seq::new(n, |i: int| data@[i]->Some_0)
}

/// Slots `[0, n)` are occupied and slots `[n, N)` are empty.
pub open spec fn occupied_prefix<T, const N: usize>(data: [Option<T>; N], n: nat) -> bool {
    &&& n <= N
    &&& forall|i: int| 0 <= i < n ==> (#[trigger] data@[i]) is Some
    &&& forall|i: int| n <= i < N ==> (#[trigger] data@[i]) is None
}

fn occupied_slot<T>(value: T) -> (r: Option<T>)
    ensures
        r == Some(value),
{
    Some(value)
}

/// Relies on the array method `map`: slot `i` of the result is
/// `occupied_slot(arr[i])`, which is `Some(arr[i])`.
#[verifier::external_body]
pub(crate) fn occupied_slots<T, const M: usize>(arr: [T; M]) -> (r: [Option<T>; M])
    ensures
        forall|i: int| 0 <= i < M ==> r@[i] == Some(arr@[i]),
{
    arr.map(occupied_slot::<T>)
}

} // verus!
