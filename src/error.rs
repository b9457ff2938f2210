use vstd::prelude::*;

verus! {

/// Returned when an element does not fit into the remaining capacity.
#[derive(Debug, Clone, Copy, PartialEq, Eq, Structural)]
pub struct NotEnoughSpaceError;

/// Why an insertion was refused.
#[derive(Debug, Clone, Copy, PartialEq, Eq, Structural)]
pub enum InsertError {
    /// The index is past the current length.
    IndexOutOfRange,
    /// The container is already full.
    NotEnoughSpace,
}

} // verus!
