//! The phases of a snap synchronisation.

use vstd::prelude::*;

verus! {

/// The phase that a snap downloader is in.
#[derive(Clone, Copy, Debug, PartialEq, Eq, Structural)]
pub enum SnapPhase {
    /// Downloading account ranges.
    AccountSync,
    /// Downloading storage for accounts with storage.
    StorageSync,
    /// Downloading bytecode for accounts with code.
    BytecodeSync,
    /// All phases complete.
    Complete,
}

impl SnapPhase {
    /// The place of the phase in the order in which phases follow each other.
    pub open spec fn rank(self) -> nat {
        match self {
            SnapPhase::AccountSync => 0,
            SnapPhase::StorageSync => 1,
            SnapPhase::BytecodeSync => 2,
            SnapPhase::Complete => 3,
        }
    }
}

} // verus!
