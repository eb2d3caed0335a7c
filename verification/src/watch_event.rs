//! Events between two observations.

use vstd::prelude::*;
use crate::evidence::EndpointIdentity;
use crate::observation::{NetworkSnapshot, SocketObservation};

verus! {

/// What happened to an endpoint.
#[derive(Debug, Clone, Copy, PartialEq, Eq, Structural)]
pub enum EventKind {
    Baseline,
    Bind,
    Release,
    Replacement,
}

impl EventKind {
    pub open spec fn name_text(self) -> Seq<char> {
        match self {
            EventKind::Baseline => "baseline"@,
            EventKind::Bind => "bind"@,
            EventKind::Release => "release"@,
            EventKind::Replacement => "replacement"@,
        }
    }

    pub fn name(self) -> (r: &'static str)
        ensures
            r@ == self.name_text(),
    {
        match self {
            EventKind::Baseline => "baseline",
            EventKind::Bind => "bind",
            EventKind::Release => "release",
            EventKind::Replacement => "replacement",
        }
    }

    pub open spec fn heading_text(self) -> Seq<char> {
        match self {
            EventKind::Baseline => "BASELINE"@,
            EventKind::Bind => "BIND"@,
            EventKind::Release => "RELEASE"@,
            EventKind::Replacement => "REPLACEMENT"@,
        }
    }

    /// The name in capitals, which heads a line of human output.
    pub fn heading(self) -> (r: &'static str)
        ensures
            r@ == self.heading_text(),
    {
        match self {
            EventKind::Baseline => "BASELINE",
            EventKind::Bind => "BIND",
            EventKind::Release => "RELEASE",
            EventKind::Replacement => "REPLACEMENT",
        }
    }
}

/// How sure an event is.
#[derive(Debug, Clone, Copy, PartialEq, Eq, Structural)]
pub enum Certainty {
    Proven,
    Estimated,
    Heuristic,
    Unknown,
}

impl Certainty {
    pub open spec fn name_text(self) -> Seq<char> {
        match self {
            Certainty::Proven => "proven"@,
            Certainty::Estimated => "estimated"@,
            Certainty::Heuristic => "heuristic"@,
            Certainty::Unknown => "unknown"@,
        }
    }

    pub fn name(self) -> (r: &'static str)
        ensures
            r@ == self.name_text(),
    {
        match self {
            Certainty::Proven => "proven",
            Certainty::Estimated => "estimated",
            Certainty::Heuristic => "heuristic",
            Certainty::Unknown => "unknown",
        }
    }
}

/// One event. Baseline and bind carry the current side, release the previous
/// side, replacement both.
#[derive(Debug, Clone, Copy)]
pub struct WatchEvent<'a> {
    pub kind: EventKind,
    pub previous_snapshot: Option<&'a NetworkSnapshot>,
    pub current_snapshot: Option<&'a NetworkSnapshot>,
    pub previous_socket: Option<&'a SocketObservation>,
    pub current_socket: Option<&'a SocketObservation>,
    pub multiplicity: u32,
    pub certainty: Certainty,
}

impl<'a> WatchEvent<'a> {
    /// The event carries the sides that its kind needs.
    pub open spec fn wf(self) -> bool {
        match self.kind {
            EventKind::Baseline | EventKind::Bind => self.current_snapshot is Some
                && self.current_socket is Some,
            EventKind::Release => self.previous_snapshot is Some && self.previous_socket is Some,
            EventKind::Replacement => self.previous_snapshot is Some && self.previous_socket is Some
                && self.current_snapshot is Some && self.current_socket is Some,
        }
    }

    /// The socket that an event is about: the current one where there is one.
    pub open spec fn socket(self) -> SocketObservation {
        match self.current_socket {
            Some(socket) => *socket,
            None => *self.previous_socket->0,
        }
    }

    pub fn event_socket(&self) -> (r: &'a SocketObservation)
        requires
            self.wf(),
        ensures
            *r == self.socket(),
    {
        match self.current_socket {
            Some(socket) => socket,
            None => self.previous_socket.unwrap(),
        }
    }

    pub fn endpoint(&self) -> (r: EndpointIdentity)
        requires
            self.wf(),
        ensures
            r == self.socket().local_endpoint,
    {
        self.event_socket().local_endpoint
    }
}

} // verus!
