//! The budget for what is read about processes beyond their identity.

use vstd::prelude::*;
use crate::bags::{lemma_order_rearranges, rearranges};
use crate::evidence::{EvidenceGapCode, EvidenceImpact};
use crate::observation::{
    EvidenceGap, MetadataCompleteness, MetadataOmission, ProcessEntry, ProcessIdentity,
    ProcessObservation, ProcessStartMarker, ProcessTable,
};
use crate::order::stable_order;
use crate::passes::marker_key;
use crate::text::{text_len, utf8_len};

verus! {

/// The longest process name that is kept, in bytes.
pub const PROCESS_NAME_MAX_BYTES: usize = 256;

/// The longest executable path that is kept, in bytes.
pub const EXECUTABLE_PATH_MAX_BYTES: usize = 4_096;

/// The longest command line that is kept, in bytes.
pub const PROCESS_COMMAND_LINE_MAX_BYTES: usize = 16_384;

/// How much one observation may hold and read.
#[derive(Debug, Clone, Copy, PartialEq, Eq, Structural)]
pub struct ObservationLimits {
    pub sockets: usize,
    pub candidate_pids: usize,
    pub owner_edges: usize,
    pub identity_reads_per_attempt: usize,
    pub identity_reads_total: usize,
    pub evidence_gaps: usize,
    pub optional_metadata_bytes: usize,
}

impl ObservationLimits {
    /// The limits of a production observation.
    pub fn production() -> (r: ObservationLimits)
        ensures
            r.sockets == 65_536,
            r.candidate_pids == 32_768,
            r.owner_edges == 131_072,
            r.identity_reads_per_attempt == 65_536,
            r.identity_reads_total == 131_072,
            r.evidence_gaps == 4_096,
            r.optional_metadata_bytes == 67_108_864,
    {
        ObservationLimits {
            sockets: 65_536,
            candidate_pids: 32_768,
            owner_edges: 131_072,
            identity_reads_per_attempt: 65_536,
            identity_reads_total: 131_072,
            evidence_gaps: 4_096,
            optional_metadata_bytes: 67_108_864,
        }
    }
}

pub open spec fn opt_text_bytes(text: Option<String>) -> nat {
    match text {
        Some(text) => utf8_len(text@),
        None => 0,
    }
}

pub open spec fn opt_path_bytes(path: Option<Vec<u8>>) -> nat {
    match path {
        Some(path) => path@.len(),
        None => 0,
    }
}

/// A field of this size is kept: it is no longer than allowed and the budget still holds
/// it.
pub open spec fn fits(bytes: nat, longest: usize, left: nat) -> bool {
    bytes <= longest && bytes <= left
}

pub open spec fn left_after(bytes: nat, longest: usize, left: nat) -> nat {
    if fits(bytes, longest, left) {
        (left - bytes) as nat
    } else {
        left
    }
}

pub open spec fn text_kept(text: Option<String>, longest: usize, left: nat) -> Option<String> {
    if fits(opt_text_bytes(text), longest, left) {
        text
    } else {
        None
    }
}

/// What the budget leaves of one process, and of itself. The fields take their share in
/// the order name, path, parent name, command line.
pub open spec fn trimmed(process: ProcessObservation, left: nat) -> (ProcessObservation, nat) {
    let left1 = left_after(opt_text_bytes(process.name), PROCESS_NAME_MAX_BYTES, left);
    let left2 = left_after(
        opt_path_bytes(process.executable_path),
        EXECUTABLE_PATH_MAX_BYTES,
        left1,
    );
    let left3 = left_after(
        opt_text_bytes(process.parent_process_name),
        PROCESS_NAME_MAX_BYTES,
        left2,
    );
    let left4 = left_after(
        opt_text_bytes(process.command_line),
        PROCESS_COMMAND_LINE_MAX_BYTES,
        left3,
    );
    let dropped = drops(process, left);
    (
        ProcessObservation {
            name: text_kept(process.name, PROCESS_NAME_MAX_BYTES, left),
            executable_path: if fits(
                opt_path_bytes(process.executable_path),
                EXECUTABLE_PATH_MAX_BYTES,
                left1,
            ) {
                process.executable_path
            } else {
                None
            },
            parent_process_name: text_kept(
                process.parent_process_name,
                PROCESS_NAME_MAX_BYTES,
                left2,
            ),
            command_line: text_kept(process.command_line, PROCESS_COMMAND_LINE_MAX_BYTES, left3),
            metadata_omission: if dropped {
                Some(MetadataOmission::BudgetExceeded)
            } else {
                process.metadata_omission
            },
            metadata_completeness: if dropped {
                MetadataCompleteness::Partial
            } else {
                process.metadata_completeness
            },
            ..process
        },
        left4,
    )
}

/// Some field of the process does not fit.
pub open spec fn drops(process: ProcessObservation, left: nat) -> bool {
    let left1 = left_after(opt_text_bytes(process.name), PROCESS_NAME_MAX_BYTES, left);
    let left2 = left_after(
        opt_path_bytes(process.executable_path),
        EXECUTABLE_PATH_MAX_BYTES,
        left1,
    );
    let left3 = left_after(
        opt_text_bytes(process.parent_process_name),
        PROCESS_NAME_MAX_BYTES,
        left2,
    );
    ||| !fits(opt_text_bytes(process.name), PROCESS_NAME_MAX_BYTES, left)
    ||| !fits(opt_path_bytes(process.executable_path), EXECUTABLE_PATH_MAX_BYTES, left1)
    ||| !fits(opt_text_bytes(process.parent_process_name), PROCESS_NAME_MAX_BYTES, left2)
    ||| !fits(opt_text_bytes(process.command_line), PROCESS_COMMAND_LINE_MAX_BYTES, left3)
}

/// Keep a text where it fits; tells what is left and whether it was dropped.
fn trim_text(text: &mut Option<String>, longest: usize, left: usize) -> (r: (usize, bool))
    ensures
        *final(text) == text_kept(*old(text), longest, left as nat),
        r.0 == left_after(opt_text_bytes(*old(text)), longest, left as nat),
        r.1 == !fits(opt_text_bytes(*old(text)), longest, left as nat),
{
    let bytes: usize = match text {
        Some(text) => text_len(text.as_str()),
        None => 0,
    };
    if bytes <= longest && bytes <= left {
        (left - bytes, false)
    } else {
        *text = None;
        (left, true)
    }
}

fn trim_path(path: &mut Option<Vec<u8>>, longest: usize, left: usize) -> (r: (usize, bool))
    ensures
        *final(path) == (if fits(opt_path_bytes(*old(path)), longest, left as nat) {
            *old(path)
        } else {
            None
        }),
        r.0 == left_after(opt_path_bytes(*old(path)), longest, left as nat),
        r.1 == !fits(opt_path_bytes(*old(path)), longest, left as nat),
{
    let bytes: usize = match path {
        Some(path) => path.len(),
        None => 0,
    };
    if bytes <= longest && bytes <= left {
        (left - bytes, false)
    } else {
        *path = None;
        (left, true)
    }
}

/// Cut one process down to the budget; tells what is left and whether a field was
/// dropped.
pub fn trim_process(process: &mut ProcessObservation, left: usize) -> (r: (usize, bool))
    ensures
        *final(process) == trimmed(*old(process), left as nat).0,
        r.0 == trimmed(*old(process), left as nat).1,
        r.1 == drops(*old(process), left as nat),
{
    let (left1, name_dropped) = trim_text(&mut process.name, PROCESS_NAME_MAX_BYTES, left);
    let (left2, path_dropped) = trim_path(
        &mut process.executable_path,
        EXECUTABLE_PATH_MAX_BYTES,
        left1,
    );
    let (left3, parent_dropped) = trim_text(
        &mut process.parent_process_name,
        PROCESS_NAME_MAX_BYTES,
        left2,
    );
    let (left4, command_dropped) = trim_text(
        &mut process.command_line,
        PROCESS_COMMAND_LINE_MAX_BYTES,
        left3,
    );
    let dropped = name_dropped || path_dropped || parent_dropped || command_dropped;
    if dropped {
        process.metadata_omission = Some(MetadataOmission::BudgetExceeded);
        process.metadata_completeness = MetadataCompleteness::Partial;
    }
    (left4, dropped)
}

pub open spec fn identity_key(identity: ProcessIdentity) -> Seq<u128> {
    seq![identity.pid as u128] + marker_key(identity.start_marker)
}

fn identity_key_of(identity: ProcessIdentity) -> (r: Vec<u128>)
    ensures
        r@ == identity_key(identity),
{
    let mut key: Vec<u128> = Vec::new();
    key.push(identity.pid as u128);
    match identity.start_marker {
        ProcessStartMarker::LinuxStartTicks(ticks) => {
            key.push(1);
            key.push(ticks as u128);
            key.push(0);
        },
        ProcessStartMarker::MacosStartTime { seconds, microseconds } => {
            key.push(2);
            key.push(seconds as u128);
            key.push(microseconds as u128);
        },
        ProcessStartMarker::WindowsCreationTime(time) => {
            key.push(3);
            key.push(time as u128);
            key.push(0);
        },
    }
    assert(key@ =~= identity_key(identity));
    key
}

/// The positions of the processes by PID and start.
pub open spec fn pid_order(entries: Seq<ProcessEntry>, positions: Seq<usize>) -> bool {
    &&& rearranges(positions, entries.len())
    &&& forall|p: int, q: int|
        #![trigger positions[p], positions[q]]
        0 <= p < q < positions.len() ==> {
            let a = identity_key(entries[positions[p] as int].identity);
            let b = identity_key(entries[positions[q] as int].identity);
            crate::order::key_le(a, b) && (a == b ==> positions[p] < positions[q])
        }
}

/// The table and the budget after the first processes took their share.
pub open spec fn budgeted(
    entries: Seq<ProcessEntry>,
    positions: Seq<usize>,
    count: nat,
    budget: nat,
) -> (Seq<ProcessEntry>, nat)
    decreases count,
{
    if count == 0 {
        (entries, budget)
    } else {
        let (done, left) = budgeted(entries, positions, (count - 1) as nat, budget);
        let at = positions[count - 1] as int;
        let (process, rest) = trimmed(done[at].observation, left);
        (done.update(at, ProcessEntry { identity: done[at].identity, observation: process }), rest)
    }
}

/// The PIDs of those among the first processes that lost a field.
pub open spec fn truncated_pids(
    entries: Seq<ProcessEntry>,
    positions: Seq<usize>,
    count: nat,
    budget: nat,
) -> Seq<u32>
    decreases count,
{
    if count == 0 {
        Seq::empty()
    } else {
        let before = truncated_pids(entries, positions, (count - 1) as nat, budget);
        let (done, left) = budgeted(entries, positions, (count - 1) as nat, budget);
        let at = positions[count - 1] as int;
        if drops(done[at].observation, left) {
            before.push(done[at].identity.pid)
        } else {
            before
        }
    }
}

/// The gap that a dropped field leaves.
pub open spec fn truncation_gap(gap: EvidenceGap, pid: u32) -> bool {
    &&& gap.impact == EvidenceImpact::Metadata
    &&& gap.code == EvidenceGapCode::NoncriticalEvidenceTruncated
    &&& gap.endpoint is None
    &&& gap.pid == Some(pid)
    &&& gap.affected_pids is None
    &&& gap.message@ == "optional process metadata exceeded its byte budget"@
}

/// The smaller of a count and the room for it.
pub open spec fn as_room_allows(count: nat, limit: usize, held: nat) -> nat {
    if held + count <= limit {
        count
    } else if held <= limit {
        (limit - held) as nat
    } else {
        0
    }
}

/// Each process that lost a field leaves a gap, as far as there is room for gaps; the rest
/// are counted.
pub open spec fn gaps_left(
    pids: Seq<u32>,
    limit: usize,
    gaps_before: Seq<EvidenceGap>,
    omitted_before: u64,
    gaps: Seq<EvidenceGap>,
    omitted: u64,
) -> bool {
    let kept = as_room_allows(pids.len(), limit, gaps_before.len());
    &&& gaps.len() == gaps_before.len() + kept
    &&& gaps.take(gaps_before.len() as int) == gaps_before
    &&& forall|i: int|
        0 <= i < kept ==> truncation_gap(#[trigger] gaps[gaps_before.len() + i], pids[i])
    &&& omitted == if omitted_before + (pids.len() - kept) <= u64::MAX {
        omitted_before + (pids.len() - kept)
    } else {
        u64::MAX as int
    }
}

/// Cut the processes down to the budget, in the order of their PIDs.
pub fn apply_metadata_budget(
    processes: &mut ProcessTable,
    gaps: &mut Vec<EvidenceGap>,
    omitted: &mut u64,
    limits: ObservationLimits,
)
    ensures
        exists|positions: Seq<usize>| #[trigger]
            pid_order(old(processes).entries@, positions) && {
                let count = old(processes).entries@.len();
                let budget = limits.optional_metadata_bytes as nat;
                &&& final(processes).entries@ == budgeted(
                    old(processes).entries@,
                    positions,
                    count,
                    budget,
                ).0
                &&& gaps_left(
                    truncated_pids(old(processes).entries@, positions, count, budget),
                    limits.evidence_gaps,
                    old(gaps)@,
                    *old(omitted),
                    final(gaps)@,
                    *final(omitted),
                )
            },
{
    let ghost entries = processes.entries@;
    let ghost budget = limits.optional_metadata_bytes as nat;
    let mut keys: Vec<Vec<u128>> = Vec::new();
    let mut i: usize = 0;
    while i < processes.entries.len()
        invariant
            i <= processes.entries.len(),
            keys.len() == i,
            processes.entries@ == entries,
            forall|k: int| 0 <= k < i ==> (#[trigger] keys@[k])@ == identity_key(entries[k].identity),
        decreases processes.entries.len() - i,
    {
        keys.push(identity_key_of(processes.entries[i].identity));
        i = i + 1;
    }
    let positions = stable_order(&keys);
    proof {
        lemma_order_rearranges(keys@, positions@);
        assert forall|p: int, q: int| #![trigger positions@[p], positions@[q]] 0 <= p < q
            < positions.len() implies {
            let a = identity_key(entries[positions@[p] as int].identity);
            let b = identity_key(entries[positions@[q] as int].identity);
            crate::order::key_le(a, b) && (a == b ==> positions@[p] < positions@[q])
        } by {
            assert(crate::order::before(keys@, positions@[p] as int, positions@[q] as int));
        }
        assert(pid_order(entries, positions@));
    }
    let mut left: usize = limits.optional_metadata_bytes;
    let mut p: usize = 0;
    assert(gaps@.take(gaps@.len() as int) =~= gaps@);
    while p < positions.len()
        invariant
            p <= positions.len(),
            rearranges(positions@, entries.len()),
            processes.entries@.len() == entries.len(),
            budget == limits.optional_metadata_bytes,
            (processes.entries@, left as nat) == budgeted(entries, positions@, p as nat, budget),
            gaps_left(
                truncated_pids(entries, positions@, p as nat, budget),
                limits.evidence_gaps,
                old(gaps)@,
                *old(omitted),
                gaps@,
                *omitted,
            ),
        decreases positions.len() - p,
    {
        let at: usize = positions[p];
        let ghost listed = processes.entries@;
        let ghost pids = truncated_pids(entries, positions@, p as nat, budget);
        let ghost held = gaps@;
        let pid: u32 = processes.entries[at].identity.pid;
        let (rest, dropped) = trim_process(&mut processes.entries[at].observation, left);
        assert(processes.entries@ =~= budgeted(entries, positions@, (p + 1) as nat, budget).0);
        left = rest;
        if dropped {
            if gaps.len() < limits.evidence_gaps {
                gaps.push(
                    EvidenceGap::new(
                        EvidenceImpact::Metadata,
                        EvidenceGapCode::NoncriticalEvidenceTruncated,
                        None,
                        Some(pid),
                        "optional process metadata exceeded its byte budget",
                    ),
                );
                proof {
                    let first = old(gaps)@.len() as int;
                    assert(gaps@.take(first) =~= held.take(first));
                    let next = pids.push(pid);
                    assert forall|i: int| 0 <= i < next.len() implies truncation_gap(
                        #[trigger] gaps@[first + i],
                        next[i],
                    ) by {
                        if i < pids.len() {
                            assert(gaps@[first + i] == held[first + i]);
                        }
                    }
                }
            } else {
                *omitted = omitted.saturating_add(1);
            }
        }
        p = p + 1;
    }
}

/// How many bytes of optional metadata a process takes.
pub open spec fn metadata_bytes(process: ProcessObservation) -> nat {
    opt_text_bytes(process.name) + opt_path_bytes(process.executable_path) + opt_text_bytes(
        process.parent_process_name,
    ) + opt_text_bytes(process.command_line)
}

/// What a process keeps never takes more than the budget had left.
pub proof fn law_budget_is_never_exceeded(process: ProcessObservation, left: nat)
    ensures
        metadata_bytes(trimmed(process, left).0) + trimmed(process, left).1 == left,
        !drops(process, left) ==> trimmed(process, left).0 == process,
{
}

} // verus!
