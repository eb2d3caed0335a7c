//! Protocols, platforms, endpoints and socket states.

use vstd::prelude::*;
use vstd::string::*;
use crate::address::{ip_address_text, ip_text, IpAddr};
use crate::text::{decimal, decimal_text, push_char};

verus! {

/// A transport protocol.
#[derive(Debug, Clone, Copy, PartialEq, Eq, Hash, Structural)]
pub enum Protocol {
    Tcp,
    Udp,
}

impl Protocol {
    pub open spec fn label_text(self) -> Seq<char> {
        match self {
            Protocol::Tcp => "TCP"@,
            Protocol::Udp => "UDP"@,
        }
    }

    /// The upper-case name shown to people.
    pub fn label(self) -> (r: &'static str)
        ensures
            r@ == self.label_text(),
    {
        match self {
            Protocol::Tcp => "TCP",
            Protocol::Udp => "UDP",
        }
    }

    pub open spec fn lower_label_text(self) -> Seq<char> {
        match self {
            Protocol::Tcp => "tcp"@,
            Protocol::Udp => "udp"@,
        }
    }

    /// The lower-case name matched by plain searches.
    pub fn lower_label(self) -> (r: &'static str)
        ensures
            r@ == self.lower_label_text(),
    {
        match self {
            Protocol::Tcp => "tcp",
            Protocol::Udp => "udp",
        }
    }
}

/// The operating system family that a row or a target belongs to.
#[derive(Debug, Clone, Copy, PartialEq, Eq, Structural)]
pub enum Platform {
    Linux,
    Macos,
    Windows,
}

/// Whether every fact about a row's owner could be read.
#[derive(Debug, Clone, Copy, PartialEq, Eq, Structural)]
pub enum PermissionStatus {
    Full,
    Partial,
}

/// Which peers an address can be reached from.
#[derive(Debug, Clone, Copy, PartialEq, Eq, Structural)]
pub enum BindScope {
    Public,
    Loopback,
    Local,
}

impl BindScope {
    pub open spec fn label_text(self) -> Seq<char> {
        match self {
            BindScope::Public => "public"@,
            BindScope::Loopback => "loopback"@,
            BindScope::Local => "local"@,
        }
    }

    pub fn label(self) -> (r: &'static str)
        ensures
            r@ == self.label_text(),
    {
        match self {
            BindScope::Public => "public",
            BindScope::Loopback => "loopback",
            BindScope::Local => "local",
        }
    }
}

/// The interface that a scoped IPv6 endpoint belongs to, as far as it is known.
#[derive(Debug, Clone, Copy, PartialEq, Eq, Hash, Structural)]
pub enum Ipv6Scope {
    InterfaceIndex(u32),
    Unavailable,
}

/// Why an endpoint could not be formed.
#[derive(Debug, Clone, Copy, PartialEq, Eq, Structural)]
pub enum EndpointIdentityError {
    InvalidPort,
    InvalidInterfaceIndex,
    Ipv4WithScope,
}

impl Ipv6Scope {
    /// An interface index in `1..=u32::MAX`.
    pub fn interface_index(index: u64) -> (r: Result<Ipv6Scope, EndpointIdentityError>)
        ensures
            r == (if 1 <= index <= u32::MAX {
                Ok::<Ipv6Scope, EndpointIdentityError>(Ipv6Scope::InterfaceIndex(index as u32))
            } else {
                Err(EndpointIdentityError::InvalidInterfaceIndex)
            }),
    {
        if 1 <= index && index <= u32::MAX as u64 {
            Ok(Ipv6Scope::InterfaceIndex(index as u32))
        } else {
            Err(EndpointIdentityError::InvalidInterfaceIndex)
        }
    }
}

/// The state of a socket; `Unknown` keeps the platform's own code.
#[derive(Debug, Clone, Copy, PartialEq, Eq, PartialOrd, Ord, Hash, Structural)]
pub enum SocketState {
    Closed,
    Listen,
    SynSent,
    SynReceived,
    Established,
    FinWait1,
    FinWait2,
    CloseWait,
    Closing,
    LastAck,
    TimeWait,
    DeleteTcb,
    NewSynReceived,
    Bound,
    Unknown(u32),
}

/// The public name of a socket state.
pub open spec fn socket_state_text(state: SocketState) -> Seq<char> {
    match state {
        SocketState::Closed => "closed"@,
        SocketState::Listen => "listen"@,
        SocketState::SynSent => "syn_sent"@,
        SocketState::SynReceived => "syn_received"@,
        SocketState::Established => "established"@,
        SocketState::FinWait1 => "fin_wait1"@,
        SocketState::FinWait2 => "fin_wait2"@,
        SocketState::CloseWait => "close_wait"@,
        SocketState::Closing => "closing"@,
        SocketState::LastAck => "last_ack"@,
        SocketState::TimeWait => "time_wait"@,
        SocketState::DeleteTcb => "delete_tcb"@,
        SocketState::NewSynReceived => "new_syn_received"@,
        SocketState::Bound => "bound"@,
        SocketState::Unknown(_) => "unknown"@,
    }
}

pub fn socket_state_name(state: SocketState) -> (r: &'static str)
    ensures
        r@ == socket_state_text(state),
{
    match state {
        SocketState::Closed => "closed",
        SocketState::Listen => "listen",
        SocketState::SynSent => "syn_sent",
        SocketState::SynReceived => "syn_received",
        SocketState::Established => "established",
        SocketState::FinWait1 => "fin_wait1",
        SocketState::FinWait2 => "fin_wait2",
        SocketState::CloseWait => "close_wait",
        SocketState::Closing => "closing",
        SocketState::LastAck => "last_ack",
        SocketState::TimeWait => "time_wait",
        SocketState::DeleteTcb => "delete_tcb",
        SocketState::NewSynReceived => "new_syn_received",
        SocketState::Bound => "bound",
        SocketState::Unknown(_) => "unknown",
    }
}

/// The position of a state in the canonical order of rows.
pub open spec fn socket_state_rank(state: SocketState) -> nat {
    match state {
        SocketState::Closed => 0,
        SocketState::Listen => 1,
        SocketState::SynSent => 2,
        SocketState::SynReceived => 3,
        SocketState::Established => 4,
        SocketState::FinWait1 => 5,
        SocketState::FinWait2 => 6,
        SocketState::CloseWait => 7,
        SocketState::Closing => 8,
        SocketState::LastAck => 9,
        SocketState::TimeWait => 10,
        SocketState::DeleteTcb => 11,
        SocketState::NewSynReceived => 12,
        SocketState::Bound => 13,
        SocketState::Unknown(code) => (14 + code) as nat,
    }
}

/// The canonical position of a state; no two states share one.
pub fn state_rank(state: SocketState) -> (r: u64)
    ensures
        r == socket_state_rank(state),
{
    match state {
        SocketState::Closed => 0,
        SocketState::Listen => 1,
        SocketState::SynSent => 2,
        SocketState::SynReceived => 3,
        SocketState::Established => 4,
        SocketState::FinWait1 => 5,
        SocketState::FinWait2 => 6,
        SocketState::CloseWait => 7,
        SocketState::Closing => 8,
        SocketState::LastAck => 9,
        SocketState::TimeWait => 10,
        SocketState::DeleteTcb => 11,
        SocketState::NewSynReceived => 12,
        SocketState::Bound => 13,
        SocketState::Unknown(code) => 14 + code as u64,
    }
}

/// The canonical order tells all states apart, unknown native codes included.
pub proof fn law_state_rank_is_injective(a: SocketState, b: SocketState)
    requires
        socket_state_rank(a) == socket_state_rank(b),
    ensures
        a == b,
{
}

/// The text of an endpoint: `address:port`, with IPv6 addresses in brackets and
/// followed by their interface index where it is known.
pub open spec fn endpoint_text(address: IpAddr, port: u16, scope: Option<Ipv6Scope>) -> Seq<char> {
    match address {
        IpAddr::V4(_) => ip_text(address) + seq![':'] + decimal(port as nat),
        IpAddr::V6(_) => seq!['['] + ip_text(address) + (match scope {
            Some(Ipv6Scope::InterfaceIndex(index)) => seq!['%'] + decimal(index as nat),
            _ => Seq::empty(),
        }) + seq![']', ':'] + decimal(port as nat),
    }
}

/// Render an endpoint for people.
pub fn human_endpoint_text(address: IpAddr, port: u16, scope: Option<Ipv6Scope>) -> (r: String)
    ensures
        r@ == endpoint_text(address, port, scope),
{
    let mut text = String::new();
    match address {
        IpAddr::V4(_) => {
            text.append(ip_address_text(address).as_str());
        },
        IpAddr::V6(_) => {
            push_char(&mut text, '[');
            text.append(ip_address_text(address).as_str());
            if let Some(Ipv6Scope::InterfaceIndex(index)) = scope {
                push_char(&mut text, '%');
                text.append(decimal_text(index as u128).as_str());
            }
            push_char(&mut text, ']');
        },
    }
    push_char(&mut text, ':');
    text.append(decimal_text(port as u128).as_str());
    assert(text@ =~= endpoint_text(address, port, scope));
    text
}

/// Where an address can be reached from.
pub open spec fn bind_scope_of(address: IpAddr) -> BindScope {
    if address.unspecified() {
        BindScope::Public
    } else if address.loopback() {
        BindScope::Loopback
    } else {
        BindScope::Local
    }
}

} // verus!
