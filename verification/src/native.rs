//! Sockets and processes as one pass over the host reports them, and the keys by which
//! passes are ordered and compared.

use vstd::prelude::*;
use crate::evidence::{flag, EndpointIdentity, OwnerCompleteness, OwnerReasons};
use crate::model::{socket_state_rank, state_rank, SocketState};
use crate::observation::{
    endpoint_key, endpoint_key_of, EvidenceGap, ObservationError, PlatformSocketToken,
    ProcessObservation, ProcessStartMarker, TcpTimerKind, TcpTimerObservation,
    UnverifiedOwnerReason,
};

verus! {

/// A socket as the host reports it.
#[derive(Debug, Clone, Copy, PartialEq, Eq, Structural)]
pub struct NativeSocketObservation {
    pub endpoint: EndpointIdentity,
    pub state: SocketState,
    pub timer: Option<TcpTimerObservation>,
    pub token: Option<PlatformSocketToken>,
}

/// A socket with the PIDs that own it, as far as they are known.
#[derive(Debug, Clone, PartialEq, Eq)]
pub struct NativeSocketRow {
    pub socket: NativeSocketObservation,
    pub owner_pids: Vec<u32>,
    pub owner_completeness: OwnerCompleteness,
}

impl NativeSocketRow {
    /// Equal in every field, owners compared one by one.
    pub open spec fn same_row(self, other: NativeSocketRow) -> bool {
        &&& self.socket == other.socket
        &&& self.owner_pids@ == other.owner_pids@
        &&& self.owner_completeness == other.owner_completeness
    }
}

/// One pass over the sockets of the host.
#[derive(Debug, Clone, PartialEq, Eq)]
pub struct NativeObservationPass {
    pub rows: Vec<NativeSocketRow>,
    pub global_owner_completeness: OwnerCompleteness,
    pub evidence_gaps: Vec<EvidenceGap>,
    pub omitted_evidence_gap_count: u64,
}

/// What reading one PID gave.
#[derive(Debug, Clone, PartialEq, Eq)]
pub enum ProcessRead {
    Verified { marker: ProcessStartMarker, observation: ProcessObservation },
    Unverified(UnverifiedOwnerReason),
}

/// The reads of one pass, by PID.
#[derive(Debug, Clone, PartialEq, Eq)]
pub struct ProcessReadTable {
    pub entries: Vec<(u32, ProcessRead)>,
}

/// The first read of a PID.
pub open spec fn read_of(entries: Seq<(u32, ProcessRead)>, pid: u32) -> Option<ProcessRead>
    decreases entries.len(),
{
    if entries.len() == 0 {
        None
    } else if entries[0].0 == pid {
        Some(entries[0].1)
    } else {
        read_of(entries.drop_first(), pid)
    }
}

proof fn lemma_read_of(entries: Seq<(u32, ProcessRead)>, pid: u32, at: Option<int>)
    requires
        match at {
            Some(k) => 0 <= k < entries.len() && entries[k].0 == pid && forall|i: int|
                0 <= i < entries.len() && i != k ==> (#[trigger] entries[i]).0 != pid,
            None => forall|i: int| 0 <= i < entries.len() ==> (#[trigger] entries[i]).0 != pid,
        },
    ensures
        read_of(entries, pid) == match at {
            Some(k) => Some(entries[k].1),
            None => None,
        },
    decreases entries.len(),
{
    if entries.len() > 0 {
        let rest = entries.drop_first();
        assert forall|i: int| 0 <= i < rest.len() implies #[trigger] rest[i] == entries[i + 1] by {}
        match at {
            Some(k) => {
                if k > 0 {
                    assert(entries[0].0 != pid);
                    assert(rest[k - 1] == entries[k]);
                    lemma_read_of(rest, pid, Some(k - 1));
                }
            },
            None => {
                assert(entries[0].0 != pid);
                lemma_read_of(rest, pid, None);
            },
        }
    }
}

impl ProcessReadTable {
    /// Every PID once, in ascending order.
    pub open spec fn sorted(self) -> bool {
        forall|i: int, j: int|
            #![trigger self.entries@[i], self.entries@[j]]
            0 <= i < j < self.entries.len() ==> self.entries@[i].0 < self.entries@[j].0
    }

    pub open spec fn read(self, pid: u32) -> Option<ProcessRead> {
        read_of(self.entries@, pid)
    }

    pub fn empty() -> (r: ProcessReadTable)
        ensures
            r.entries@.len() == 0,
            r.sorted(),
    {
        ProcessReadTable { entries: Vec::new() }
    }

    /// The reads of exactly the expected PIDs, in their order; anything else is malformed.
    pub fn from_expected(expected: &[u32], reads: Vec<(u32, ProcessRead)>) -> (r: Result<
        ProcessReadTable,
        ObservationError,
    >)
        ensures
            r == if reads.len() == expected.len() && forall|i: int|
                0 <= i < reads.len() ==> (#[trigger] reads@[i]).0 == expected@[i] {
                Ok::<ProcessReadTable, ObservationError>(ProcessReadTable { entries: reads })
            } else {
                Err(ObservationError::NativeDataMalformed)
            },
    {
        if reads.len() != expected.len() {
            return Err(ObservationError::NativeDataMalformed);
        }
        let mut i: usize = 0;
        while i < reads.len()
            invariant
                i <= reads.len(),
                reads.len() == expected.len(),
                forall|k: int| 0 <= k < i ==> (#[trigger] reads@[k]).0 == expected@[k],
            decreases reads.len() - i,
        {
            if reads[i].0 != expected[i] {
                assert(reads@[i as int].0 != expected@[i as int]);
                return Err(ObservationError::NativeDataMalformed);
            }
            i = i + 1;
        }
        Ok(ProcessReadTable { entries: reads })
    }

    pub fn len(&self) -> (r: usize)
        ensures
            r == self.entries.len(),
    {
        self.entries.len()
    }

    pub fn get(&self, pid: u32) -> (r: Option<&ProcessRead>)
        requires
            self.sorted(),
        ensures
            match r {
                Some(read) => self.read(pid) == Some(*read),
                None => self.read(pid) is None,
            },
    {
        let mut lo: usize = 0;
        let mut hi: usize = self.entries.len();
        while lo < hi
            invariant
                lo <= hi <= self.entries.len(),
                self.sorted(),
                forall|i: int| 0 <= i < lo ==> (#[trigger] self.entries@[i]).0 < pid,
                forall|i: int| hi <= i < self.entries.len() ==> (#[trigger] self.entries@[i]).0 > pid,
            decreases hi - lo,
        {
            let mid: usize = lo + (hi - lo) / 2;
            let here: u32 = self.entries[mid].0;
            if here == pid {
                proof {
                    assert(self.entries@[mid as int].0 == pid);
                    lemma_read_of(self.entries@, pid, Some(mid as int));
                }
                return Some(&self.entries[mid].1);
            }
            assert(self.entries@[mid as int].0 == here);
            if here < pid {
                lo = mid + 1;
            } else {
                hi = mid;
            }
        }
        proof {
            lemma_read_of(self.entries@, pid, None);
        }
        None
    }
}

/// A pass in canonical form, with the processes that it names.
#[derive(Debug, Clone, PartialEq, Eq)]
pub struct CollectedPass {
    pub rows: Vec<NativeSocketRow>,
    pub global_owner_completeness: OwnerCompleteness,
    pub evidence_gaps: Vec<EvidenceGap>,
    pub processes_by_pid: ProcessReadTable,
    pub omitted_evidence_gap_count: u64,
}

/// The numbers that tell a platform's socket token.
pub open spec fn token_key(token: Option<PlatformSocketToken>) -> Seq<u128> {
    match token {
        None => seq![0u128, 0u128],
        Some(PlatformSocketToken::LinuxInode(inode)) => seq![1u128, inode as u128],
        Some(PlatformSocketToken::MacosSocketId(id)) => seq![2u128, id as u128],
    }
}

/// The key of a socket apart from its timer: two reports with one key are of one socket.
pub open spec fn socket_key(socket: NativeSocketObservation) -> Seq<u128> {
    endpoint_key(Some(socket.endpoint)) + seq![socket_state_rank(socket.state) as u128] + token_key(
        socket.token,
    )
}

pub fn socket_key_of(socket: NativeSocketObservation) -> (r: Vec<u128>)
    ensures
        r@ == socket_key(socket),
{
    let mut key = endpoint_key_of(Some(socket.endpoint));
    key.push(state_rank(socket.state) as u128);
    match socket.token {
        None => {
            key.push(0);
            key.push(0);
        },
        Some(PlatformSocketToken::LinuxInode(inode)) => {
            key.push(1);
            key.push(inode as u128);
        },
        Some(PlatformSocketToken::MacosSocketId(id)) => {
            key.push(2);
            key.push(id as u128);
        },
    }
    assert(key@ =~= socket_key(socket));
    key
}

/// One more than the number, or zero for none.
pub open spec fn opt_number(number: Option<u64>) -> u128 {
    match number {
        Some(n) => (n + 1) as u128,
        None => 0,
    }
}

pub open spec fn timer_kind_rank(kind: TcpTimerKind) -> u128 {
    match kind {
        TcpTimerKind::NoTimer => 0,
        TcpTimerKind::Retransmit => 1,
        TcpTimerKind::Other => 2,
        TcpTimerKind::TimeWait => 3,
        TcpTimerKind::ZeroWindowProbe => 4,
        TcpTimerKind::Unknown(code) => (5 + code) as u128,
    }
}

/// The numbers that order timers; no timer comes first.
pub open spec fn timer_key(timer: Option<TcpTimerObservation>) -> Seq<u128> {
    match timer {
        None => seq![0u128, 0u128, 0u128, 0u128, 0u128],
        Some(t) => seq![
            1u128,
            timer_kind_rank(t.kind),
            t.raw_ticks as u128,
            opt_number(
                match t.native_code {
                    Some(code) => Some(code as u64),
                    None => None,
                },
            ),
            opt_number(t.estimated_remaining_milliseconds),
        ],
    }
}

fn opt_number_of(number: Option<u64>) -> (r: u128)
    ensures
        r == opt_number(number),
{
    match number {
        Some(n) => n as u128 + 1,
        None => 0,
    }
}

fn timer_key_of(timer: Option<TcpTimerObservation>) -> (r: Vec<u128>)
    ensures
        r@ == timer_key(timer),
{
    let mut key: Vec<u128> = Vec::new();
    match timer {
        None => {
            key.push(0);
            key.push(0);
            key.push(0);
            key.push(0);
            key.push(0);
        },
        Some(t) => {
            key.push(1);
            key.push(
                match t.kind {
                    TcpTimerKind::NoTimer => 0,
                    TcpTimerKind::Retransmit => 1,
                    TcpTimerKind::Other => 2,
                    TcpTimerKind::TimeWait => 3,
                    TcpTimerKind::ZeroWindowProbe => 4,
                    TcpTimerKind::Unknown(code) => 5 + code as u128,
                },
            );
            key.push(t.raw_ticks as u128);
            key.push(
                opt_number_of(
                    match t.native_code {
                        Some(code) => Some(code as u64),
                        None => None,
                    },
                ),
            );
            key.push(opt_number_of(t.estimated_remaining_milliseconds));
        },
    }
    assert(key@ =~= timer_key(timer));
    key
}

/// The numbers that tell how complete an owner set is, one for each reason.
pub open spec fn completeness_key(completeness: OwnerCompleteness) -> Seq<u128> {
    let reasons = match completeness {
        OwnerCompleteness::Partial { reasons } => reasons,
        _ => OwnerReasons::of(|code| false),
    };
    seq![
        match completeness {
            OwnerCompleteness::Complete => 0u128,
            OwnerCompleteness::Partial { .. } => 1u128,
            OwnerCompleteness::Raced => 2u128,
        },
        flag(reasons.native_field_unavailable) as u128,
        flag(reasons.noncritical_evidence_truncated) as u128,
        flag(reasons.observation_raced) as u128,
        flag(reasons.owner_attribution_incomplete) as u128,
        flag(reasons.owner_disappeared) as u128,
        flag(reasons.owner_permission_denied) as u128,
        flag(reasons.process_identity_unavailable) as u128,
        flag(reasons.process_metadata_unavailable) as u128,
        flag(reasons.scope_excluded) as u128,
    ]
}

fn flag_number(b: bool) -> (r: u128)
    ensures
        r == flag(b) as u128,
{
    if b {
        1
    } else {
        0
    }
}

fn completeness_key_of(completeness: OwnerCompleteness) -> (r: Vec<u128>)
    ensures
        r@ == completeness_key(completeness),
{
    let reasons = match completeness {
        OwnerCompleteness::Partial { reasons } => reasons,
        _ => OwnerReasons::empty(),
    };
    let mut key: Vec<u128> = Vec::new();
    key.push(
        match completeness {
            OwnerCompleteness::Complete => 0,
            OwnerCompleteness::Partial { .. } => 1,
            OwnerCompleteness::Raced => 2,
        },
    );
    key.push(flag_number(reasons.native_field_unavailable));
    key.push(flag_number(reasons.noncritical_evidence_truncated));
    key.push(flag_number(reasons.observation_raced));
    key.push(flag_number(reasons.owner_attribution_incomplete));
    key.push(flag_number(reasons.owner_disappeared));
    key.push(flag_number(reasons.owner_permission_denied));
    key.push(flag_number(reasons.process_identity_unavailable));
    key.push(flag_number(reasons.process_metadata_unavailable));
    key.push(flag_number(reasons.scope_excluded));
    assert(reasons.count() == 0 ==> reasons == OwnerReasons::of(|code| false));
    assert(key@ =~= completeness_key(completeness));
    key
}

pub open spec fn pid_key(pids: Seq<u32>) -> Seq<u128> {
    pids.map_values(|pid: u32| pid as u128)
}

/// The key that orders rows: the socket, its timer, how complete its owners are, and its
/// owners.
pub open spec fn row_key(row: NativeSocketRow) -> Seq<u128> {
    socket_key(row.socket) + timer_key(row.socket.timer) + completeness_key(row.owner_completeness)
        + pid_key(row.owner_pids@)
}

pub fn row_key_of(row: &NativeSocketRow) -> (r: Vec<u128>)
    ensures
        r@ == row_key(*row),
{
    let mut key = socket_key_of(row.socket);
    let mut timer = timer_key_of(row.socket.timer);
    key.append(&mut timer);
    let mut completeness = completeness_key_of(row.owner_completeness);
    key.append(&mut completeness);
    let ghost head = key@;
    let mut i: usize = 0;
    assert(head + pid_key(row.owner_pids@.take(0)) =~= head);
    while i < row.owner_pids.len()
        invariant
            i <= row.owner_pids.len(),
            key@ == head + pid_key(row.owner_pids@.take(i as int)),
        decreases row.owner_pids.len() - i,
    {
        key.push(row.owner_pids[i] as u128);
        assert(pid_key(row.owner_pids@.take(i + 1)) =~= pid_key(row.owner_pids@.take(i as int)).push(
            row.owner_pids@[i as int] as u128,
        ));
        i = i + 1;
    }
    assert(row.owner_pids@.take(row.owner_pids.len() as int) =~= row.owner_pids@);
    assert(key@ =~= row_key(*row));
    key
}

} // verus!
