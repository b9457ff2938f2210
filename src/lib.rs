//! A vector-like container with a fixed capacity `N`, whose elements live
//! inline in an array of slots rather than on the heap.
pub mod error;
pub mod iter;
pub mod lemmas;
mod slots;
pub mod stack_vec;

pub use error::{InsertError, NotEnoughSpaceError};
pub use iter::IntoIter;
pub use stack_vec::StackVec;
