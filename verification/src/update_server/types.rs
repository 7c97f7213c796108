//! The terms of the update interface.
use vstd::prelude::*;

verus! {

/// One of the two images, from the point of view of the running one.
#[derive(Clone, Copy, Debug, PartialEq, Eq, Structural)]
pub enum SlotId {
    /// The image that is running.
    Active,
    /// The image in the alternate bank.
    Inactive,
}

impl SlotId {
    /// The other slot.
    pub open spec fn spec_other(self) -> SlotId {
        match self {
            SlotId::Active => SlotId::Inactive,
            SlotId::Inactive => SlotId::Active,
        }
    }

    /// The other slot.
    pub fn other(self) -> (slot: SlotId)
        ensures
            slot == self.spec_other(),
    {
        match self {
            SlotId::Active => SlotId::Inactive,
            SlotId::Inactive => SlotId::Active,
        }
    }
}

/// The version of an image.
#[derive(Clone, Copy, Debug, PartialEq, Eq, Structural)]
pub struct ImageVersion {
    /// The epoch.
    pub epoch: u32,
    /// The version within the epoch.
    pub version: u32,
}

/// How far an update has come.
#[derive(Clone, Copy, Debug, PartialEq, Eq, Structural)]
pub enum UpdateState {
    /// None has been started.
    NoUpdate,
    /// The bank is erased and takes blocks.
    InProgress,
    /// All blocks are in.
    Finished,
}

/// Why an update request is refused, or how it failed.
#[derive(Clone, Copy, Debug, PartialEq, Eq, Structural)]
pub enum UpdateError {
    /// An image update is going on.
    UpdateInProgress,
    /// The image update is over.
    UpdateAlreadyFinished,
    /// No image update has been started.
    UpdateNotStarted,
    /// The data does not fit in the bank.
    BadLength,
    /// An ECC double detection error.
    EccDoubleErr,
    /// An ECC single correction error.
    EccSingleErr,
    /// A secure error.
    SecureErr,
    /// A read protection error.
    ReadProtErr,
    /// A write or erase error.
    WriteEraseErr,
    /// An inconsistency error.
    InconsistencyErr,
    /// A strobe error.
    StrobeErr,
    /// A programming sequence error.
    ProgSeqErr,
    /// A write protection error.
    WriteProtErr,
}

} // verus!
