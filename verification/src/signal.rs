//! Who holds the interrupt signal: at most one watch run at a time.

use vstd::prelude::*;
use vstd::string::*;
use crate::sink::{IoError, IoErrorKind};

verus! {

/// The place that a watch run reserves before it takes over the signal.
#[derive(Debug, PartialEq, Eq)]
pub struct SignalSlot {
    pub reserved: bool,
}

impl SignalSlot {
    pub fn new() -> (r: SignalSlot)
        ensures
            !r.reserved,
    {
        SignalSlot { reserved: false }
    }
}

/// A reservation of the slot. Releasing it frees the slot, unless it is to stay taken.
#[derive(Debug, PartialEq, Eq)]
pub struct WatchSignalReservation {
    pub kept: bool,
}

impl WatchSignalReservation {
    /// Reserve the slot. A slot that is taken stays taken, and the caller would have to
    /// wait.
    pub fn acquire(slot: &mut SignalSlot) -> (r: Result<WatchSignalReservation, IoError>)
        ensures
            final(slot).reserved,
            r is Ok <==> !old(slot).reserved,
            r is Ok ==> !r->Ok_0.kept,
            r is Err ==> r->Err_0.kind == IoErrorKind::WouldBlock && r->Err_0.message@
                == "another watch already owns the interrupt signal"@,
    {
        if slot.reserved {
            return Err(
                IoError::new(
                    IoErrorKind::WouldBlock,
                    "another watch already owns the interrupt signal",
                ),
            );
        }
        slot.reserved = true;
        Ok(WatchSignalReservation { kept: false })
    }

    /// Leave the slot taken for good: the signal could not be given back.
    pub fn keep_reserved(&mut self)
        ensures
            final(self).kept,
    {
        self.kept = true;
    }

    /// Give the reservation up.
    pub fn release(self, slot: &mut SignalSlot)
        ensures
            final(slot).reserved == (old(slot).reserved && self.kept),
    {
        if !self.kept {
            slot.reserved = false;
        }
    }
}

} // verus!
