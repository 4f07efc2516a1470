use vstd::prelude::*;

verus! {

/// Every failure of the core carries one of these kinds, so that the
/// presentation layer can tell them apart.
#[derive(Debug, Clone, Copy, PartialEq, Eq, Structural)]
pub enum CoreError {
    /// A lookup that does not create found no record.
    NotFound,
    /// An amount was zero or negative, or the result would not fit in the field.
    InvalidAmount,
    /// The bank balance is smaller than the amount asked for.
    InsufficientBalance,
    /// The cash on hand is smaller than the amount asked for.
    InsufficientCash,
    /// No item with the given id is in the inventory.
    ItemNotOwned,
    /// No item with the given id is equipped.
    ItemNotEquipped,
    /// The storage layer could not be reached (transient, retryable).
    StoreUnavailable,
    /// A stored record could not be read back or breaks an invariant.
    StoreCorrupt,
}

impl CoreError {
    /// Whether an error of this kind may go away when the operation is tried again.
    pub open spec fn is_transient(self) -> bool {
        self == CoreError::StoreUnavailable
    }

    /// Executable form of `is_transient`.
    pub fn retryable(&self) -> (r: bool)
        ensures
            r == self.is_transient(),
    {
        match self {
            CoreError::StoreUnavailable => true,
            _ => false,
        }
    }
}

} // verus!
