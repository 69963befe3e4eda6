//! Errors and per-item outcomes of the lifecycle operations.
use vstd::prelude::*;

verus! {

/// Why an operation on one item did not take effect.
#[derive(Clone, Debug, PartialEq, Eq)]
pub enum ForgeError {
    /// No managed folder, no record, or a missing source path.
    NotFound,
    /// A duplicate registration, or a path that is already tracked.
    Conflict,
    /// A filesystem step failed; the cause as the driver reported it.
    IoFailure(String),
    /// The user declined the confirmation.
    UserAborted,
}

/// What became of one item of a lifecycle operation.
#[derive(Clone, Debug, PartialEq, Eq)]
pub enum ItemOutcome {
    /// Every step succeeded and the tracking records were updated.
    Success,
    /// The item was already there; nothing was done.
    SkippedExisting,
    /// The operation took effect and the records were updated, but a
    /// trailing cleanup step failed with this cause.
    Partial(String),
    /// Nothing was recorded for this item.
    Failed(ForgeError),
}

} // verus!
