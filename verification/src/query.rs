//! Parsed filter terms.

use vstd::prelude::*;
use crate::address::IpAddr;
use crate::model::{BindScope, Protocol};

verus! {

/// An address family.
#[derive(Debug, Clone, Copy, PartialEq, Eq, Structural)]
pub enum AddressFamily {
    Ipv4,
    Ipv6,
}

/// A socket state named in a filter; `Unknown` stands for every unknown code.
#[derive(Debug, Clone, Copy, PartialEq, Eq, Structural)]
pub enum StateFilter {
    Listen,
    Bound,
    Closed,
    SynSent,
    SynReceived,
    Established,
    FinWait1,
    FinWait2,
    CloseWait,
    Closing,
    LastAck,
    TimeWait,
    DeleteTcb,
    NewSynReceived,
    Unknown,
}

/// One term of a filter; all terms have to hold. Needles are lower case.
#[derive(Debug, PartialEq, Eq)]
pub enum FilterTerm {
    Port(u16),
    Protocol(Protocol),
    Scope(BindScope),
    Label(String),
    Address(IpAddr),
    ScopeId(u32),
    Family(AddressFamily),
    State(StateFilter),
    Pid(u32),
    Parent(String),
    Protected(bool),
    Plain(String),
}

} // verus!
