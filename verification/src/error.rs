//! Ways in which adding or removing an item can fail.

use vstd::prelude::*;
use crate::item::Item;

verus! {

/// Failure of an operation on a placement. None of them changes the placement.
#[derive(Debug, PartialEq, Eq)]
pub enum MyError {
    /// The item was admitted and a slot was found, but recording it would
    /// have broken the uniqueness of identifiers.
    FailedAdd(Item),
    /// No item with this identifier is stored.
    FailedRemove(u32),
    /// A filter turned the item away.
    BlockedByFilter(Item),
    /// The strategy found no slot that suits the item.
    FailedAllocation(Item),
}

} // verus!
