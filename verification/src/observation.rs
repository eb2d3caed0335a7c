//! One observation of the host: sockets, their owners, process facts and what
//! could not be seen.

use vstd::prelude::*;
use vstd::string::*;
use crate::address::IpAddr;
use crate::evidence::{
    EndpointIdentity, EvidenceGapCode, EvidenceImpact, OwnerCompleteness,
};
use crate::model::{Ipv6Scope, Platform, Protocol, SocketState};
use crate::order::{key_le, key_not_after};
use crate::text::utf8_len;
use crate::time::SystemTime;

verus! {

/// The longest scope identifier, in bytes.
pub const SCOPE_IDENTIFIER_MAX_BYTES: usize = 256;

/// The most limitations that a scope may list.
pub const SCOPE_LIMITATIONS_MAX: usize = 8;

/// The most owners that one record writes out.
pub const SERIALIZED_OWNERS_MAX: usize = 64;

/// Why a process start marker was refused.
#[derive(Debug, Clone, Copy, PartialEq, Eq, Structural)]
pub enum ProcessMarkerError {
    Zero,
    InvalidMicroseconds,
}

/// When a process started, in the unit of its platform. Together with the PID it
/// identifies one process across PID reuse.
#[derive(Debug, Clone, Copy, PartialEq, Eq, Hash, Structural)]
pub enum ProcessStartMarker {
    LinuxStartTicks(u64),
    MacosStartTime { seconds: u64, microseconds: u32 },
    WindowsCreationTime(u64),
}

impl ProcessStartMarker {
    pub fn linux(ticks: u64) -> (r: Result<ProcessStartMarker, ProcessMarkerError>)
        ensures
            r == (if ticks == 0 {
                Err(ProcessMarkerError::Zero)
            } else {
                Ok::<ProcessStartMarker, ProcessMarkerError>(
                    ProcessStartMarker::LinuxStartTicks(ticks),
                )
            }),
    {
        if ticks == 0 {
            Err(ProcessMarkerError::Zero)
        } else {
            Ok(ProcessStartMarker::LinuxStartTicks(ticks))
        }
    }

    pub fn windows(creation_time: u64) -> (r: Result<ProcessStartMarker, ProcessMarkerError>)
        ensures
            r == (if creation_time == 0 {
                Err(ProcessMarkerError::Zero)
            } else {
                Ok::<ProcessStartMarker, ProcessMarkerError>(
                    ProcessStartMarker::WindowsCreationTime(creation_time),
                )
            }),
    {
        if creation_time == 0 {
            Err(ProcessMarkerError::Zero)
        } else {
            Ok(ProcessStartMarker::WindowsCreationTime(creation_time))
        }
    }

    pub fn macos(seconds: u64, microseconds: u32) -> (r: Result<
        ProcessStartMarker,
        ProcessMarkerError,
    >)
        ensures
            r == (if microseconds >= 1_000_000 {
                Err(ProcessMarkerError::InvalidMicroseconds)
            } else if seconds == 0 && microseconds == 0 {
                Err(ProcessMarkerError::Zero)
            } else {
                Ok::<ProcessStartMarker, ProcessMarkerError>(
                    ProcessStartMarker::MacosStartTime { seconds, microseconds },
                )
            }),
    {
        if microseconds >= 1_000_000 {
            Err(ProcessMarkerError::InvalidMicroseconds)
        } else if seconds == 0 && microseconds == 0 {
            Err(ProcessMarkerError::Zero)
        } else {
            Ok(ProcessStartMarker::MacosStartTime { seconds, microseconds })
        }
    }
}

/// One process across PID reuse.
#[derive(Debug, Clone, Copy, PartialEq, Eq, Hash, Structural)]
pub struct ProcessIdentity {
    pub pid: u32,
    pub start_marker: ProcessStartMarker,
}

/// The platform's own handle of a socket.
#[derive(Debug, Clone, Copy, PartialEq, Eq, Hash, Structural)]
pub enum PlatformSocketToken {
    LinuxInode(u64),
    MacosSocketId(u64),
}

impl PlatformSocketToken {
    pub fn linux_inode(inode: u64) -> (r: Option<PlatformSocketToken>)
        ensures
            r == (if inode == 0 {
                None
            } else {
                Some(PlatformSocketToken::LinuxInode(inode))
            }),
    {
        if inode == 0 {
            None
        } else {
            Some(PlatformSocketToken::LinuxInode(inode))
        }
    }

    pub fn macos_socket_id(id: u64) -> (r: Option<PlatformSocketToken>)
        ensures
            r == (if id == 0 {
                None
            } else {
                Some(PlatformSocketToken::MacosSocketId(id))
            }),
    {
        if id == 0 {
            None
        } else {
            Some(PlatformSocketToken::MacosSocketId(id))
        }
    }
}

/// What a TCP timer is waiting for.
#[derive(Debug, Clone, Copy, PartialEq, Eq, Structural)]
pub enum TcpTimerKind {
    NoTimer,
    Retransmit,
    Other,
    TimeWait,
    ZeroWindowProbe,
    Unknown(u32),
}

impl TcpTimerKind {
    pub open spec fn of_linux(code: u32) -> TcpTimerKind {
        if code == 0 {
            TcpTimerKind::NoTimer
        } else if code == 1 {
            TcpTimerKind::Retransmit
        } else if code == 2 {
            TcpTimerKind::Other
        } else if code == 3 {
            TcpTimerKind::TimeWait
        } else if code == 4 {
            TcpTimerKind::ZeroWindowProbe
        } else {
            TcpTimerKind::Unknown(code)
        }
    }

    pub fn from_linux_native(code: u32) -> (r: TcpTimerKind)
        ensures
            r == Self::of_linux(code),
    {
        if code == 0 {
            TcpTimerKind::NoTimer
        } else if code == 1 {
            TcpTimerKind::Retransmit
        } else if code == 2 {
            TcpTimerKind::Other
        } else if code == 3 {
            TcpTimerKind::TimeWait
        } else if code == 4 {
            TcpTimerKind::ZeroWindowProbe
        } else {
            TcpTimerKind::Unknown(code)
        }
    }
}

/// The milliseconds that `ticks` of a clock with `hertz` ticks per second take,
/// rounded up.
pub open spec fn ticks_to_millis(ticks: u64, hertz: u64) -> int {
    (ticks * 1000 + hertz - 1) / hertz as int
}

/// A TCP timer as observed.
#[derive(Debug, Clone, Copy, PartialEq, Eq, Structural)]
pub struct TcpTimerObservation {
    pub kind: TcpTimerKind,
    pub native_code: Option<u32>,
    pub raw_ticks: u64,
    pub estimated_remaining_milliseconds: Option<u64>,
}

impl TcpTimerObservation {
    /// A timer from the kernel's code and tick count. Only unknown codes are kept,
    /// and the estimate is given where the tick rate is known and the result fits.
    pub fn from_linux_native(code: u32, ticks: u64, hertz: Option<u64>) -> (r: TcpTimerObservation)
        ensures
            r.kind == TcpTimerKind::of_linux(code),
            r.native_code == (if code > 4 {
                Some(code)
            } else {
                None
            }),
            r.raw_ticks == ticks,
            r.estimated_remaining_milliseconds == (match hertz {
                Some(hz) => if hz > 0 && ticks_to_millis(ticks, hz) <= u64::MAX {
                    Some(ticks_to_millis(ticks, hz) as u64)
                } else {
                    None
                },
                None => None,
            }),
    {
        let estimate: Option<u64> = match hertz {
            Some(hz) => if hz > 0 {
                let millis: u128 = (ticks as u128 * 1000 + hz as u128 - 1) / hz as u128;
                if millis <= u64::MAX as u128 {
                    Some(millis as u64)
                } else {
                    None
                }
            } else {
                None
            },
            None => None,
        };
        TcpTimerObservation {
            kind: TcpTimerKind::from_linux_native(code),
            native_code: if code > 4 {
                Some(code)
            } else {
                None
            },
            raw_ticks: ticks,
            estimated_remaining_milliseconds: estimate,
        }
    }
}

/// How much process metadata a collection asks for.
#[derive(Debug, Clone, Copy, PartialEq, Eq, Structural)]
pub enum MetadataProfile {
    IdentityOnly,
    LegacyList,
    Display,
}

/// Whether every metadata field of a process could be read.
#[derive(Debug, Clone, Copy, PartialEq, Eq, Structural)]
pub enum MetadataCompleteness {
    Complete,
    Partial,
}

/// Why a metadata field was left out.
#[derive(Debug, Clone, Copy, PartialEq, Eq, Structural)]
pub enum MetadataOmission {
    BudgetExceeded,
}

/// The facts read about one process. Paths are kept as their raw bytes.
#[derive(Debug, Clone, PartialEq, Eq)]
pub struct ProcessObservation {
    pub name: Option<String>,
    pub executable_path: Option<Vec<u8>>,
    pub command_line: Option<String>,
    pub parent_pid: Option<u32>,
    pub parent_process_name: Option<String>,
    pub metadata_omission: Option<MetadataOmission>,
    pub metadata_completeness: MetadataCompleteness,
}

/// Why an owner could not be tied to one process.
#[derive(Debug, Clone, Copy, PartialEq, Eq, Structural)]
pub enum UnverifiedOwnerReason {
    PermissionDenied,
    Disappeared,
    IdentityUnavailable,
    Raced,
}

/// One owner of a socket.
#[derive(Debug, Clone, Copy, PartialEq, Eq, Structural)]
pub enum OwnerObservation {
    Verified(ProcessIdentity),
    UnverifiedPid { pid: u32, reason: UnverifiedOwnerReason },
}

/// The PID of an owner, verified or not.
pub open spec fn owner_pid_of(owner: OwnerObservation) -> u32 {
    match owner {
        OwnerObservation::Verified(identity) => identity.pid,
        OwnerObservation::UnverifiedPid { pid, .. } => pid,
    }
}

/// One observed socket.
#[derive(Debug, Clone, PartialEq, Eq)]
pub struct SocketObservation {
    pub local_endpoint: EndpointIdentity,
    pub state: SocketState,
    pub timer: Option<TcpTimerObservation>,
    pub socket_token: Option<PlatformSocketToken>,
    pub owners: Vec<OwnerObservation>,
    pub owner_completeness: OwnerCompleteness,
}

/// Something an observation could not see.
#[derive(Debug, Clone, PartialEq, Eq)]
pub struct EvidenceGap {
    pub impact: EvidenceImpact,
    pub code: EvidenceGapCode,
    pub endpoint: Option<EndpointIdentity>,
    pub pid: Option<u32>,
    pub affected_pids: Option<u64>,
    pub message: String,
}

impl EvidenceGap {
    /// A gap at an endpoint or a PID, or at neither.
    pub fn new(
        impact: EvidenceImpact,
        code: EvidenceGapCode,
        endpoint: Option<EndpointIdentity>,
        pid: Option<u32>,
        message: &str,
    ) -> (r: EvidenceGap)
        ensures
            r.impact == impact,
            r.code == code,
            r.endpoint == endpoint,
            r.pid == pid,
            r.affected_pids is None,
            r.message@ == message@,
    {
        EvidenceGap {
            impact,
            code,
            endpoint,
            pid,
            affected_pids: None,
            message: message.to_owned(),
        }
    }

    /// One gap that stands for at least `count` PIDs.
    pub fn aggregate_for_pids(
        impact: EvidenceImpact,
        code: EvidenceGapCode,
        endpoint: Option<EndpointIdentity>,
        count: u64,
        message: &str,
    ) -> (r: EvidenceGap)
        requires
            count > 0,
        ensures
            r.impact == impact,
            r.code == code,
            r.endpoint == endpoint,
            r.pid is None,
            r.affected_pids == Some(count),
            r.message@ == message@,
    {
        EvidenceGap {
            impact,
            code,
            endpoint,
            pid: None,
            affected_pids: Some(count),
            message: message.to_owned(),
        }
    }

    pub fn affected_pid_count(&self) -> (r: Option<u64>)
        ensures
            r == self.affected_pids,
    {
        self.affected_pids
    }

    pub fn duplicate(&self) -> (r: EvidenceGap)
        ensures
            r == *self,
    {
        EvidenceGap {
            impact: self.impact,
            code: self.code,
            endpoint: self.endpoint,
            pid: self.pid,
            affected_pids: self.affected_pids,
            message: self.message.clone(),
        }
    }
}

/// The key that orders gaps: impact, public code name, endpoint with its scope
/// before its port, PID, then message. Gaps with equal keys say the same thing,
/// up to how many PIDs they stand for.
pub open spec fn gap_key(gap: EvidenceGap) -> Seq<u128> {
    gap_head(gap) + gap.message@.map_values(|c: char| (c as u32) as u128)
}

pub open spec fn gap_head(gap: EvidenceGap) -> Seq<u128> {
    seq![gap.impact.order() as u128, gap.code.order() as u128] + endpoint_key(gap.endpoint) + (
    match gap.pid {
        Some(pid) => seq![1u128, pid as u128],
        None => seq![0u128, 0u128],
    })
}

/// The six numbers that order an optional endpoint; none comes first.
pub open spec fn endpoint_key(endpoint: Option<EndpointIdentity>) -> Seq<u128> {
    match endpoint {
        None => seq![0u128, 0u128, 0u128, 0u128, 0u128, 0u128],
        Some(e) => seq![
            if e.protocol == Protocol::Tcp {
                1u128
            } else {
                2u128
            },
            if e.address.is_v4() {
                0u128
            } else {
                1u128
            },
            match e.address {
                IpAddr::V4(bits) => bits as u128,
                IpAddr::V6(bits) => bits,
            },
            match e.ipv6_scope {
                None => 0u128,
                Some(Ipv6Scope::InterfaceIndex(_)) => 1u128,
                Some(Ipv6Scope::Unavailable) => 2u128,
            },
            match e.ipv6_scope {
                Some(Ipv6Scope::InterfaceIndex(index)) => index as u128,
                _ => 0u128,
            },
            e.port as u128,
        ],
    }
}

pub fn endpoint_key_of(endpoint: Option<EndpointIdentity>) -> (r: Vec<u128>)
    ensures
        r@ == endpoint_key(endpoint),
{
    let mut key: Vec<u128> = Vec::new();
    match endpoint {
        None => {
            key.push(0);
            key.push(0);
            key.push(0);
            key.push(0);
            key.push(0);
            key.push(0);
        },
        Some(e) => {
            key.push(
                match e.protocol {
                    Protocol::Tcp => 1,
                    Protocol::Udp => 2,
                },
            );
            match e.address {
                IpAddr::V4(bits) => {
                    key.push(0);
                    key.push(bits as u128);
                },
                IpAddr::V6(bits) => {
                    key.push(1);
                    key.push(bits);
                },
            }
            match e.ipv6_scope {
                None => {
                    key.push(0);
                    key.push(0);
                },
                Some(Ipv6Scope::InterfaceIndex(index)) => {
                    key.push(1);
                    key.push(index as u128);
                },
                Some(Ipv6Scope::Unavailable) => {
                    key.push(2);
                    key.push(0);
                },
            }
            key.push(e.port as u128);
        },
    }
    assert(key@ =~= endpoint_key(endpoint));
    key
}

/// The key of a gap.
pub fn gap_key_of(gap: &EvidenceGap) -> (r: Vec<u128>)
    ensures
        r@ == gap_key(*gap),
{
    let mut key: Vec<u128> = Vec::new();
    key.push(gap.impact.rank() as u128);
    key.push(gap.code.rank() as u128);
    let mut endpoint = endpoint_key_of(gap.endpoint);
    key.append(&mut endpoint);
    match gap.pid {
        Some(pid) => {
            key.push(1);
            key.push(pid as u128);
        },
        None => {
            key.push(0);
            key.push(0);
        },
    }
    assert(key@ =~= gap_head(*gap));
    let ghost head = key@;
    let ghost codes = gap.message@.map_values(|c: char| (c as u32) as u128);
    assert(codes.take(0) =~= Seq::empty());
    for ch in it: gap.message.as_str().chars()
        invariant
            it.seq() == gap.message@,
            codes == gap.message@.map_values(|c: char| (c as u32) as u128),
            key@ == head + codes.take(it.index() as int),
    {
        key.push(ch as u32 as u128);
        proof {
            let k = it.index() as int;
            assert(codes.take(k + 1) =~= codes.take(k).push(codes[k]));
        }
    }
    assert(codes.take(codes.len() as int) =~= codes);
    key
}

/// `a` does not come after `b`.
pub open spec fn gap_not_after(a: EvidenceGap, b: EvidenceGap) -> bool {
    key_le(gap_key(a), gap_key(b))
}

pub fn gap_precedes_or_ties(a: &EvidenceGap, b: &EvidenceGap) -> (r: bool)
    ensures
        r == gap_not_after(*a, *b),
{
    key_not_after(&gap_key_of(a), &gap_key_of(b))
}

impl ProcessObservation {
    pub fn duplicate(&self) -> (r: ProcessObservation)
        ensures
            r.same_facts(*self),
    {
        ProcessObservation {
            name: self.name.clone(),
            executable_path: match &self.executable_path {
                Some(path) => Some(path.clone()),
                None => None,
            },
            command_line: self.command_line.clone(),
            parent_pid: self.parent_pid,
            parent_process_name: self.parent_process_name.clone(),
            metadata_omission: self.metadata_omission,
            metadata_completeness: self.metadata_completeness,
        }
    }

    /// Equal in every field, paths compared byte for byte.
    pub open spec fn same_facts(self, other: ProcessObservation) -> bool {
        &&& self.name == other.name
        &&& (self.executable_path is Some) == (other.executable_path is Some)
        &&& self.executable_path is Some ==> self.executable_path->0@ == other.executable_path->0@
        &&& self.command_line == other.command_line
        &&& self.parent_pid == other.parent_pid
        &&& self.parent_process_name == other.parent_process_name
        &&& self.metadata_omission == other.metadata_omission
        &&& self.metadata_completeness == other.metadata_completeness
    }
}

/// One row of the process table.
#[derive(Debug, Clone, PartialEq, Eq)]
pub struct ProcessEntry {
    pub identity: ProcessIdentity,
    pub observation: ProcessObservation,
}

/// The row of an identity: the first that carries it.
pub open spec fn process_row(entries: Seq<ProcessEntry>, identity: ProcessIdentity) -> Option<
    ProcessObservation,
>
    decreases entries.len(),
{
    if entries.len() == 0 {
        None
    } else if entries[0].identity == identity {
        Some(entries[0].observation)
    } else {
        process_row(entries.drop_first(), identity)
    }
}

/// The processes of an observation, by identity.
#[derive(Debug, Clone, PartialEq, Eq)]
pub struct ProcessTable {
    pub entries: Vec<ProcessEntry>,
}

impl ProcessTable {
    /// What the table says about an identity.
    pub open spec fn row(self, identity: ProcessIdentity) -> Option<ProcessObservation> {
        process_row(self.entries@, identity)
    }

    pub fn empty() -> (r: ProcessTable)
        ensures
            r.entries@.len() == 0,
    {
        ProcessTable { entries: Vec::new() }
    }

    pub fn get(&self, identity: ProcessIdentity) -> (r: Option<&ProcessObservation>)
        ensures
            match r {
                Some(row) => self.row(identity) == Some(*row),
                None => self.row(identity) is None,
            },
    {
        let mut i: usize = 0;
        assert(self.entries@.skip(0) =~= self.entries@);
        while i < self.entries.len()
            invariant
                i <= self.entries.len(),
                self.row(identity) == process_row(self.entries@.skip(i as int), identity),
            decreases self.entries.len() - i,
        {
            if self.entries[i].identity == identity {
                return Some(&self.entries[i].observation);
            }
            assert(self.entries@.skip(i as int).drop_first() =~= self.entries@.skip(i + 1));
            i = i + 1;
        }
        None
    }

    /// Add or replace the row of an identity.
    pub fn insert(&mut self, identity: ProcessIdentity, observation: ProcessObservation)
        ensures
            final(self).row(identity) == Some(observation),
            forall|other: ProcessIdentity|
                other != identity ==> #[trigger] final(self).row(other) == old(self).row(other),
    {
        let entry = ProcessEntry { identity, observation };
        self.entries.insert(0, entry);
        assert(self.entries@.drop_first() =~= old(self).entries@);
    }
}

/// Which part of the host an observation covers.
#[derive(Debug, Clone, Copy, PartialEq, Eq, Structural)]
pub enum ObservationScopeKind {
    CurrentNetworkNamespace,
    CurrentHostProcessVisibleSockets,
    CurrentHostNetworkStack,
}

/// What a scope leaves out.
#[derive(Debug, Clone, Copy, PartialEq, Eq, Structural)]
pub enum ScopeLimitation {
    OtherNetworkNamespacesExcluded,
    ProcessFirstSocketVisibilityLimited,
    WslNetworkStackExcluded,
    ProcessMetadataPermissionLimited,
    Ipv6ScopeUnavailable,
    ScopedIpv6ExactMatchingUnavailable,
    NativeFieldUnavailable,
    PollingIntervalBlindSpot,
}

/// Why an observation failed.
#[derive(Debug, PartialEq, Eq)]
pub enum ObservationError {
    SocketTableUnavailable,
    SocketTablePermissionDenied,
    NativeDataMalformed,
    NativeDataOversized,
    ScopeIdentifierOversized,
    ScopeLimitationLimitExceeded,
    SocketObservationLimitExceeded,
    ProcessIdentityLimitExceeded,
    OwnerAttributionLimitExceeded,
    LegacyProjectionLimitExceeded,
    PlatformApiFailed(String),
    ClockUnavailable,
    InvalidWallClockInterval,
    PartialSocketSet,
    ObservationRaced,
    OwnerReasonLimitExceeded,
}

impl ObservationError {
    /// The sentence shown for the error.
    pub open spec fn text(self) -> Seq<char> {
        match self {
            ObservationError::SocketTableUnavailable => "socket table is unavailable"@,
            ObservationError::SocketTablePermissionDenied => "socket table permission was denied"@,
            ObservationError::NativeDataMalformed => "native data is malformed"@,
            ObservationError::NativeDataOversized => "native data is oversized"@,
            ObservationError::ScopeIdentifierOversized => "scope identifier is oversized"@,
            ObservationError::ScopeLimitationLimitExceeded => "scope limitation limit exceeded"@,
            ObservationError::SocketObservationLimitExceeded => "socket observation limit exceeded"@,
            ObservationError::ProcessIdentityLimitExceeded => "process identity limit exceeded"@,
            ObservationError::OwnerAttributionLimitExceeded => "owner attribution limit exceeded"@,
            ObservationError::LegacyProjectionLimitExceeded => "legacy projection limit exceeded"@,
            ObservationError::PlatformApiFailed(detail) => "platform API failed: "@ + detail@,
            ObservationError::ClockUnavailable => "wall clock is unavailable"@,
            ObservationError::InvalidWallClockInterval => "wall clock interval is invalid"@,
            ObservationError::PartialSocketSet => "socket set is partial"@,
            ObservationError::ObservationRaced => "observation raced"@,
            ObservationError::OwnerReasonLimitExceeded => "owner reason limit exceeded"@,
        }
    }

    pub fn message(&self) -> (r: String)
        ensures
            r@ == self.text(),
    {
        match self {
            ObservationError::SocketTableUnavailable => "socket table is unavailable".to_owned(),
            ObservationError::SocketTablePermissionDenied => {
                "socket table permission was denied".to_owned()
            },
            ObservationError::NativeDataMalformed => "native data is malformed".to_owned(),
            ObservationError::NativeDataOversized => "native data is oversized".to_owned(),
            ObservationError::ScopeIdentifierOversized => {
                "scope identifier is oversized".to_owned()
            },
            ObservationError::ScopeLimitationLimitExceeded => {
                "scope limitation limit exceeded".to_owned()
            },
            ObservationError::SocketObservationLimitExceeded => {
                "socket observation limit exceeded".to_owned()
            },
            ObservationError::ProcessIdentityLimitExceeded => {
                "process identity limit exceeded".to_owned()
            },
            ObservationError::OwnerAttributionLimitExceeded => {
                "owner attribution limit exceeded".to_owned()
            },
            ObservationError::LegacyProjectionLimitExceeded => {
                "legacy projection limit exceeded".to_owned()
            },
            ObservationError::PlatformApiFailed(detail) => {
                "platform API failed: ".to_owned().concat(detail.as_str())
            },
            ObservationError::ClockUnavailable => "wall clock is unavailable".to_owned(),
            ObservationError::InvalidWallClockInterval => {
                "wall clock interval is invalid".to_owned()
            },
            ObservationError::PartialSocketSet => "socket set is partial".to_owned(),
            ObservationError::ObservationRaced => "observation raced".to_owned(),
            ObservationError::OwnerReasonLimitExceeded => "owner reason limit exceeded".to_owned(),
        }
    }

    pub fn duplicate(&self) -> (r: ObservationError)
        ensures
            r == *self,
    {
        match self {
            ObservationError::SocketTableUnavailable => ObservationError::SocketTableUnavailable,
            ObservationError::SocketTablePermissionDenied => {
                ObservationError::SocketTablePermissionDenied
            },
            ObservationError::NativeDataMalformed => ObservationError::NativeDataMalformed,
            ObservationError::NativeDataOversized => ObservationError::NativeDataOversized,
            ObservationError::ScopeIdentifierOversized => {
                ObservationError::ScopeIdentifierOversized
            },
            ObservationError::ScopeLimitationLimitExceeded => {
                ObservationError::ScopeLimitationLimitExceeded
            },
            ObservationError::SocketObservationLimitExceeded => {
                ObservationError::SocketObservationLimitExceeded
            },
            ObservationError::ProcessIdentityLimitExceeded => {
                ObservationError::ProcessIdentityLimitExceeded
            },
            ObservationError::OwnerAttributionLimitExceeded => {
                ObservationError::OwnerAttributionLimitExceeded
            },
            ObservationError::LegacyProjectionLimitExceeded => {
                ObservationError::LegacyProjectionLimitExceeded
            },
            ObservationError::PlatformApiFailed(detail) => {
                ObservationError::PlatformApiFailed(detail.clone())
            },
            ObservationError::ClockUnavailable => ObservationError::ClockUnavailable,
            ObservationError::InvalidWallClockInterval => {
                ObservationError::InvalidWallClockInterval
            },
            ObservationError::PartialSocketSet => ObservationError::PartialSocketSet,
            ObservationError::ObservationRaced => ObservationError::ObservationRaced,
            ObservationError::OwnerReasonLimitExceeded => {
                ObservationError::OwnerReasonLimitExceeded
            },
        }
    }
}

/// The part of the host that an observation covers, and what it leaves out.
#[derive(Debug, Clone, PartialEq, Eq)]
pub struct ObservationScope {
    pub kind: ObservationScopeKind,
    pub identifier: Option<String>,
    pub limitations: Vec<ScopeLimitation>,
}

/// A list of limitations within its bound.
pub fn bounded_scope_limitations<T: Copy>(limitations: &[T]) -> (r: Result<
    Vec<T>,
    ObservationError,
>)
    ensures
        limitations@.len() <= SCOPE_LIMITATIONS_MAX ==> r is Ok && r->Ok_0@ == limitations@,
        limitations@.len() > SCOPE_LIMITATIONS_MAX ==> r == Err::<Vec<T>, ObservationError>(
            ObservationError::ScopeLimitationLimitExceeded,
        ),
{
    if limitations.len() > SCOPE_LIMITATIONS_MAX {
        return Err(ObservationError::ScopeLimitationLimitExceeded);
    }
    let mut out: Vec<T> = Vec::new();
    let mut i: usize = 0;
    while i < limitations.len()
        invariant
            i <= limitations.len(),
            out@ == limitations@.take(i as int),
        decreases limitations.len() - i,
    {
        out.push(limitations[i]);
        assert(limitations@.take(i + 1) =~= limitations@.take(i as int).push(limitations@[i as int]));
        i = i + 1;
    }
    assert(limitations@.take(limitations@.len() as int) =~= limitations@);
    Ok(out)
}

impl ObservationScope {
    /// A scope within its bounds; an oversized identifier is reported first.
    pub fn new(
        kind: ObservationScopeKind,
        identifier: Option<&str>,
        limitations: &[ScopeLimitation],
    ) -> (r: Result<ObservationScope, ObservationError>)
        ensures
            identifier is Some && utf8_len(identifier->0@) > SCOPE_IDENTIFIER_MAX_BYTES
                ==> r == Err::<ObservationScope, ObservationError>(
                ObservationError::ScopeIdentifierOversized,
            ),
            !(identifier is Some && utf8_len(identifier->0@) > SCOPE_IDENTIFIER_MAX_BYTES)
                && limitations@.len() > SCOPE_LIMITATIONS_MAX ==> r == Err::<
                ObservationScope,
                ObservationError,
            >(ObservationError::ScopeLimitationLimitExceeded),
            !(identifier is Some && utf8_len(identifier->0@) > SCOPE_IDENTIFIER_MAX_BYTES)
                && limitations@.len() <= SCOPE_LIMITATIONS_MAX ==> {
                &&& r is Ok
                &&& r->Ok_0.kind == kind
                &&& r->Ok_0.limitations@ == limitations@
                &&& (r->Ok_0.identifier is Some) == (identifier is Some)
                &&& identifier is Some ==> r->Ok_0.identifier->0@ == identifier->0@
            },
    {
        let identifier = match identifier {
            Some(text) => {
                proof {
                    assert(text.spec_bytes().len() == utf8_len(text@));
                }
                if text.as_bytes().len() > SCOPE_IDENTIFIER_MAX_BYTES {
                    return Err(ObservationError::ScopeIdentifierOversized);
                }
                Some(text.to_owned())
            },
            None => None,
        };
        match bounded_scope_limitations(limitations) {
            Ok(limitations) => Ok(ObservationScope { kind, identifier, limitations }),
            Err(error) => Err(error),
        }
    }
}

/// Whether an observation is known to be whole.
#[derive(Debug, Clone, Copy, PartialEq, Eq, Structural)]
pub enum SnapshotCompleteness {
    Complete,
    Partial,
    Raced,
}

/// One complete observation.
#[derive(Debug, Clone, PartialEq, Eq)]
pub struct NetworkSnapshot {
    pub scope: ObservationScope,
    pub capture_started_at: SystemTime,
    pub capture_completed_at: SystemTime,
    pub completeness: SnapshotCompleteness,
    pub owner_completeness: OwnerCompleteness,
    pub sockets: Vec<SocketObservation>,
    pub processes: ProcessTable,
    pub evidence_gaps: Vec<EvidenceGap>,
    pub omitted_evidence_gap_count: u64,
}

/// The platform that a scope belongs to.
pub open spec fn scope_platform(kind: ObservationScopeKind) -> Platform {
    match kind {
        ObservationScopeKind::CurrentNetworkNamespace => Platform::Linux,
        ObservationScopeKind::CurrentHostProcessVisibleSockets => Platform::Macos,
        ObservationScopeKind::CurrentHostNetworkStack => Platform::Windows,
    }
}

impl NetworkSnapshot {
    pub fn platform(&self) -> (r: Platform)
        ensures
            r == scope_platform(self.scope.kind),
    {
        match self.scope.kind {
            ObservationScopeKind::CurrentNetworkNamespace => Platform::Linux,
            ObservationScopeKind::CurrentHostProcessVisibleSockets => Platform::Macos,
            ObservationScopeKind::CurrentHostNetworkStack => Platform::Windows,
        }
    }

    /// The set of sockets is whole: the passes agreed, and no gap, kept or
    /// omitted, may stand for a missing socket.
    pub open spec fn diff_safe(self) -> bool {
        &&& self.completeness != SnapshotCompleteness::Raced
        &&& self.omitted_evidence_gap_count == 0
        &&& forall|i: int|
            0 <= i < self.evidence_gaps.len() ==> (#[trigger] self.evidence_gaps@[i]).impact
                != EvidenceImpact::SocketSet
    }

    pub fn socket_set_diff_safe(&self) -> (r: bool)
        ensures
            r == self.diff_safe(),
    {
        if self.completeness == SnapshotCompleteness::Raced {
            return false;
        }
        if self.omitted_evidence_gap_count != 0 {
            return false;
        }
        let mut i: usize = 0;
        while i < self.evidence_gaps.len()
            invariant
                i <= self.evidence_gaps.len(),
                forall|j: int|
                    0 <= j < i ==> (#[trigger] self.evidence_gaps@[j]).impact
                        != EvidenceImpact::SocketSet,
            decreases self.evidence_gaps.len() - i,
        {
            if self.evidence_gaps[i].impact == EvidenceImpact::SocketSet {
                return false;
            }
            i = i + 1;
        }
        true
    }
}

} // verus!
