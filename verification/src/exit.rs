//! Why a command ended.

use vstd::prelude::*;

verus! {

/// The reason that a command reports to the shell.
#[derive(Debug, Clone, Copy, PartialEq, Eq, Structural)]
pub enum ExitReason {
    Success,
    Failure,
    InvalidArguments,
    NoMatch,
    PermissionDenied,
    KillCancelled,
    ProtectedNeedsConfirmation,
}

} // verus!
