//! Where the events of a watch run come from.

use vstd::prelude::*;
use crate::observation::NetworkSnapshot;
use crate::watch_emit::EventStream;

verus! {

/// Where the events of a run come from: a baseline, then comparisons.
pub trait EventSource {
    fn baseline(&mut self, current: &NetworkSnapshot) -> (r: Result<EventStream, String>);

    fn compare(&mut self, previous: &NetworkSnapshot, current: &NetworkSnapshot) -> (r: Result<
        EventStream,
        String,
    >);
}

/// One comparison that was asked for, with its answer. Without a previous snapshot it is
/// the baseline.
#[derive(Debug)]
pub struct EventCall {
    pub previous: Option<NetworkSnapshot>,
    pub current: NetworkSnapshot,
    pub answer: Result<EventStream, String>,
}

/// A comparison of two snapshots.
pub open spec fn event_call(
    previous: Option<&NetworkSnapshot>,
    current: &NetworkSnapshot,
    answer: Result<EventStream, String>,
) -> EventCall {
    EventCall {
        previous: match previous {
            Some(snapshot) => Some(*snapshot),
            None => None,
        },
        current: *current,
        answer,
    }
}

/// An event source, with what it has been asked.
pub struct EventRecord<S> {
    source: S,
    asked: Ghost<Seq<EventCall>>,
}

impl<S: EventSource> EventRecord<S> {
    /// Every comparison so far, the oldest first.
    pub closed spec fn asked(&self) -> Seq<EventCall> {
        self.asked@
    }

    pub fn new(source: S) -> (r: EventRecord<S>)
        ensures
            r.asked().len() == 0,
    {
        EventRecord { source, asked: Ghost(Seq::empty()) }
    }

    /// Compare two snapshots; without a previous one, the baseline.
    pub fn compare(
        &mut self,
        previous: Option<&NetworkSnapshot>,
        current: &NetworkSnapshot,
    ) -> (r: Result<EventStream, String>)
        ensures
            final(self).asked() == old(self).asked().push(event_call(previous, current, r)),
    {
        let answer = match previous {
            Some(snapshot) => self.source.compare(snapshot, current),
            None => self.source.baseline(current),
        };
        proof {
            self.asked@ = self.asked@.push(event_call(previous, current, answer));
        }
        answer
    }
}

} // verus!
