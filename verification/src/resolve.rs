//! From PIDs to owners: what the rows of a pass say once their processes were read.

use vstd::prelude::*;
use crate::evidence::{EndpointIdentity, EvidenceGapCode, EvidenceImpact, OwnerReasons};
use crate::native::{NativeSocketRow, ProcessRead, ProcessReadTable};
use crate::observation::{
    EvidenceGap, OwnerObservation, ProcessEntry, ProcessIdentity, ProcessObservation,
    ProcessTable, SocketObservation, UnverifiedOwnerReason,
};
use crate::passes::Uncertainty;

verus! {

/// Why the PID was not tied to a process, if it was not.
pub open spec fn unverified_reason(read: Option<ProcessRead>) -> Option<UnverifiedOwnerReason> {
    match read {
        Some(ProcessRead::Verified { .. }) => None,
        Some(ProcessRead::Unverified(reason)) => Some(reason),
        None => Some(UnverifiedOwnerReason::IdentityUnavailable),
    }
}

/// The owner that a read makes of a PID.
pub open spec fn owner_read(pid: u32, read: Option<ProcessRead>) -> OwnerObservation {
    match read {
        Some(ProcessRead::Verified { marker, .. }) => OwnerObservation::Verified(
            ProcessIdentity { pid, start_marker: marker },
        ),
        Some(ProcessRead::Unverified(reason)) => OwnerObservation::UnverifiedPid { pid, reason },
        None => OwnerObservation::UnverifiedPid {
            pid,
            reason: UnverifiedOwnerReason::IdentityUnavailable,
        },
    }
}

/// The public code of a failed read.
pub open spec fn reason_code(reason: UnverifiedOwnerReason) -> EvidenceGapCode {
    match reason {
        UnverifiedOwnerReason::PermissionDenied => EvidenceGapCode::OwnerPermissionDenied,
        UnverifiedOwnerReason::Disappeared => EvidenceGapCode::OwnerDisappeared,
        UnverifiedOwnerReason::IdentityUnavailable => EvidenceGapCode::ProcessIdentityUnavailable,
        UnverifiedOwnerReason::Raced => EvidenceGapCode::ObservationRaced,
    }
}

pub fn unverified_reason_code(reason: UnverifiedOwnerReason) -> (r: EvidenceGapCode)
    ensures
        r == reason_code(reason),
{
    match reason {
        UnverifiedOwnerReason::PermissionDenied => EvidenceGapCode::OwnerPermissionDenied,
        UnverifiedOwnerReason::Disappeared => EvidenceGapCode::OwnerDisappeared,
        UnverifiedOwnerReason::IdentityUnavailable => EvidenceGapCode::ProcessIdentityUnavailable,
        UnverifiedOwnerReason::Raced => EvidenceGapCode::ObservationRaced,
    }
}

pub open spec fn owners_read(pids: Seq<u32>, table: ProcessReadTable) -> Seq<OwnerObservation> {
    pids.map_values(|pid: u32| owner_read(pid, table.read(pid)))
}

/// The reasons among the first owners of a row, on top of what was known.
pub open spec fn reasons_read(
    known: OwnerReasons,
    pids: Seq<u32>,
    table: ProcessReadTable,
) -> OwnerReasons
    decreases pids.len(),
{
    if pids.len() == 0 {
        known
    } else {
        let before = reasons_read(known, pids.drop_last(), table);
        match unverified_reason(table.read(pids.last())) {
            Some(reason) => before.inserted(reason_code(reason)),
            None => before,
        }
    }
}

/// The owners of a row, each failed read, and the reasons with those that were known.
pub struct RowOwners {
    pub owners: Vec<OwnerObservation>,
    pub failed: Vec<(u32, UnverifiedOwnerReason)>,
    pub reasons: OwnerReasons,
}

/// The PIDs of a row whose reads failed, with the reasons.
pub open spec fn failed_reads(pids: Seq<u32>, table: ProcessReadTable) -> Seq<
    (u32, UnverifiedOwnerReason),
>
    decreases pids.len(),
{
    if pids.len() == 0 {
        Seq::empty()
    } else {
        let before = failed_reads(pids.drop_last(), table);
        match unverified_reason(table.read(pids.last())) {
            Some(reason) => before.push((pids.last(), reason)),
            None => before,
        }
    }
}

/// Resolve the owners of a row.
pub fn resolve_owners(pids: &Vec<u32>, table: &ProcessReadTable, known: OwnerReasons) -> (r:
    RowOwners)
    requires
        table.sorted(),
    ensures
        r.owners@ == owners_read(pids@, *table),
        r.failed@ == failed_reads(pids@, *table),
        r.reasons == reasons_read(known, pids@, *table),
{
    let mut out = RowOwners { owners: Vec::new(), failed: Vec::new(), reasons: known };
    let mut i: usize = 0;
    assert(owners_read(pids@.take(0), *table) =~= Seq::empty());
    while i < pids.len()
        invariant
            i <= pids.len(),
            table.sorted(),
            out.owners@ == owners_read(pids@.take(i as int), *table),
            out.failed@ == failed_reads(pids@.take(i as int), *table),
            out.reasons == reasons_read(known, pids@.take(i as int), *table),
        decreases pids.len() - i,
    {
        let pid: u32 = pids[i];
        let ghost next = pids@.take(i + 1);
        proof {
            assert(next.drop_last() =~= pids@.take(i as int));
            assert(next.last() == pid);
            assert(owners_read(next, *table) =~= owners_read(pids@.take(i as int), *table).push(
                owner_read(pid, table.read(pid)),
            ));
        }
        match table.get(pid) {
            Some(ProcessRead::Verified { marker, .. }) => {
                out.owners.push(
                    OwnerObservation::Verified(ProcessIdentity { pid, start_marker: *marker }),
                );
            },
            Some(ProcessRead::Unverified(reason)) => {
                out.owners.push(OwnerObservation::UnverifiedPid { pid, reason: *reason });
                out.failed.push((pid, *reason));
                out.reasons = out.reasons.with(unverified_reason_code(*reason));
            },
            None => {
                let reason = UnverifiedOwnerReason::IdentityUnavailable;
                out.owners.push(OwnerObservation::UnverifiedPid { pid, reason });
                out.failed.push((pid, reason));
                out.reasons = out.reasons.with(unverified_reason_code(reason));
            },
        }
        i = i + 1;
    }
    assert(pids@.take(pids.len() as int) =~= pids@);
    out
}

/// What is uncertain about the owners of a row once they were read.
pub open spec fn row_uncertainty(
    row: NativeSocketRow,
    table: ProcessReadTable,
    raced: bool,
) -> Uncertainty {
    let known = Uncertainty::of(row.owner_completeness);
    Uncertainty {
        raced: known.raced || raced,
        reasons: reasons_read(known.reasons, row.owner_pids@, table),
    }
}

/// The observation that a row becomes.
pub open spec fn socket_built(
    row: NativeSocketRow,
    table: ProcessReadTable,
    raced: bool,
    r: SocketObservation,
) -> bool {
    &&& r.local_endpoint == row.socket.endpoint
    &&& r.state == row.socket.state
    &&& r.timer == row.socket.timer
    &&& r.socket_token == row.socket.token
    &&& r.owners@ == owners_read(row.owner_pids@, table)
    &&& Some(r.owner_completeness) == row_uncertainty(row, table, raced).completeness()
}

/// Every failed read of the rows, with the endpoint it concerns.
pub open spec fn all_failed(rows: Seq<NativeSocketRow>, table: ProcessReadTable) -> Seq<
    (EndpointIdentity, u32, UnverifiedOwnerReason),
>
    decreases rows.len(),
{
    if rows.len() == 0 {
        Seq::empty()
    } else {
        let row = rows.last();
        all_failed(rows.drop_last(), table) + failed_reads(row.owner_pids@, table).map_values(
            |read: (u32, UnverifiedOwnerReason)| (row.socket.endpoint, read.0, read.1),
        )
    }
}

/// The reasons of all failed reads, on top of what was known.
pub open spec fn all_reasons(
    known: OwnerReasons,
    rows: Seq<NativeSocketRow>,
    table: ProcessReadTable,
) -> OwnerReasons
    decreases rows.len(),
{
    if rows.len() == 0 {
        known
    } else {
        reasons_read(
            all_reasons(known, rows.drop_last(), table),
            rows.last().owner_pids@,
            table,
        )
    }
}

/// The gap that a failed read leaves.
pub open spec fn failed_read_gap(
    gap: EvidenceGap,
    read: (EndpointIdentity, u32, UnverifiedOwnerReason),
) -> bool {
    &&& gap.impact == EvidenceImpact::Ownership
    &&& gap.code == reason_code(read.2)
    &&& gap.endpoint == Some(read.0)
    &&& gap.pid == Some(read.1)
    &&& gap.affected_pids is None
    &&& gap.message@ == "socket owner could not be verified"@
}

/// Gaps for exactly these reads, in their order.
pub open spec fn failed_read_gaps(
    gaps: Seq<EvidenceGap>,
    reads: Seq<(EndpointIdentity, u32, UnverifiedOwnerReason)>,
) -> bool {
    gaps.len() == reads.len() && forall|i: int|
        0 <= i < gaps.len() ==> failed_read_gap(#[trigger] gaps[i], reads[i])
}

/// The sockets of a pass, the gaps that failed reads leave, and the reasons of all of
/// them.
pub struct ResolvedRows {
    pub sockets: Vec<SocketObservation>,
    pub gaps: Vec<EvidenceGap>,
    pub reasons: OwnerReasons,
}

/// Resolve the rows of a pass. `None` where the reasons of one row are too many.
pub fn resolve_rows(
    rows: &Vec<NativeSocketRow>,
    table: &ProcessReadTable,
    raced: &Vec<bool>,
    known: OwnerReasons,
) -> (r: Option<ResolvedRows>)
    requires
        table.sorted(),
        raced.len() == rows.len(),
    ensures
        r is Some <==> forall|i: int|
            0 <= i < rows.len() ==> row_uncertainty(#[trigger] rows@[i], *table, raced@[i]).completeness() is Some,
        match r {
            Some(resolved) => {
                &&& resolved.sockets.len() == rows.len()
                &&& forall|i: int|
                    0 <= i < rows.len() ==> socket_built(
                        rows@[i],
                        *table,
                        raced@[i],
                        #[trigger] resolved.sockets@[i],
                    )
                &&& failed_read_gaps(resolved.gaps@, all_failed(rows@, *table))
                &&& resolved.reasons == all_reasons(known, rows@, *table)
            },
            None => true,
        },
{
    let mut sockets: Vec<SocketObservation> = Vec::new();
    let mut gaps: Vec<EvidenceGap> = Vec::new();
    let mut reasons = known;
    let mut i: usize = 0;
    while i < rows.len()
        invariant
            i <= rows.len(),
            table.sorted(),
            raced.len() == rows.len(),
            sockets.len() == i,
            forall|k: int|
                0 <= k < i ==> socket_built(
                    rows@[k],
                    *table,
                    raced@[k],
                    #[trigger] sockets@[k],
                ),
            forall|k: int|
                0 <= k < i ==> row_uncertainty(#[trigger] rows@[k], *table, raced@[k]).completeness() is Some,
            failed_read_gaps(gaps@, all_failed(rows@.take(i as int), *table)),
            reasons == all_reasons(known, rows@.take(i as int), *table),
        decreases rows.len() - i,
    {
        let row = &rows[i];
        let before = Uncertainty::from_completeness(row.owner_completeness);
        let local = resolve_owners(&row.owner_pids, table, before.reasons);
        let overall = resolve_owners(&row.owner_pids, table, reasons);
        let uncertainty = Uncertainty {
            raced: before.raced || raced[i],
            reasons: local.reasons,
        };
        let owner_completeness = match uncertainty.to_completeness() {
            Some(completeness) => completeness,
            None => {
                assert(row_uncertainty(rows@[i as int], *table, raced@[i as int]).completeness() is None);
                return None;
            },
        };
        sockets.push(
            SocketObservation {
                local_endpoint: row.socket.endpoint,
                state: row.socket.state,
                timer: row.socket.timer,
                socket_token: row.socket.token,
                owners: local.owners,
                owner_completeness,
            },
        );
        reasons = overall.reasons;
        let ghost held = gaps@;
        let ghost done = all_failed(rows@.take(i as int), *table);
        let ghost failed = failed_reads(row.owner_pids@, *table).map_values(
            |read: (u32, UnverifiedOwnerReason)| (row.socket.endpoint, read.0, read.1),
        );
        let mut k: usize = 0;
        assert(done + failed.take(0) =~= done);
        while k < local.failed.len()
            invariant
                k <= local.failed.len(),
                local.failed@ == failed_reads(row.owner_pids@, *table),
                failed == local.failed@.map_values(
                    |read: (u32, UnverifiedOwnerReason)| (row.socket.endpoint, read.0, read.1),
                ),
                failed_read_gaps(gaps@, done + failed.take(k as int)),
            decreases local.failed.len() - k,
        {
            let (pid, reason) = local.failed[k];
            let ghost so_far = gaps@;
            let ghost reads = done + failed.take(k as int);
            gaps.push(
                EvidenceGap::new(
                    EvidenceImpact::Ownership,
                    unverified_reason_code(reason),
                    Some(row.socket.endpoint),
                    Some(pid),
                    "socket owner could not be verified",
                ),
            );
            proof {
                assert(done + failed.take(k + 1) =~= reads.push(failed[k as int]));
                assert forall|m: int| 0 <= m < gaps.len() implies failed_read_gap(
                    #[trigger] gaps@[m],
                    reads.push(failed[k as int])[m],
                ) by {
                    if m < so_far.len() {
                        assert(gaps@[m] == so_far[m]);
                    }
                }
            }
            k = k + 1;
        }
        proof {
            assert(failed.take(failed.len() as int) =~= failed);
            let next = rows@.take(i + 1);
            assert(next.drop_last() =~= rows@.take(i as int));
            assert(next.last() == *row);
        }
        i = i + 1;
    }
    assert(rows@.take(rows.len() as int) =~= rows@);
    Some(ResolvedRows { sockets, gaps, reasons })
}

/// The processes that were verified, in the order of the table.
pub open spec fn verified_processes(entries: Seq<(u32, ProcessRead)>) -> Seq<
    (ProcessIdentity, ProcessObservation),
>
    decreases entries.len(),
{
    if entries.len() == 0 {
        Seq::empty()
    } else {
        let before = verified_processes(entries.drop_last());
        match entries.last().1 {
            ProcessRead::Verified { marker, observation } => before.push(
                (ProcessIdentity { pid: entries.last().0, start_marker: marker }, observation),
            ),
            ProcessRead::Unverified(_) => before,
        }
    }
}

/// The rows of a process table show these processes.
pub open spec fn shows_processes(
    entries: Seq<ProcessEntry>,
    processes: Seq<(ProcessIdentity, ProcessObservation)>,
) -> bool {
    &&& entries.len() == processes.len()
    &&& forall|i: int|
        0 <= i < entries.len() ==> (#[trigger] entries[i]).identity == processes[i].0
            && entries[i].observation.same_facts(processes[i].1)
}

/// The process table of a pass.
pub fn process_table(table: &ProcessReadTable) -> (r: ProcessTable)
    ensures
        shows_processes(r.entries@, verified_processes(table.entries@)),
{
    let mut entries: Vec<ProcessEntry> = Vec::new();
    let mut i: usize = 0;
    while i < table.entries.len()
        invariant
            i <= table.entries.len(),
            shows_processes(entries@, verified_processes(table.entries@.take(i as int))),
        decreases table.entries.len() - i,
    {
        let entry = &table.entries[i];
        let ghost held = entries@;
        let ghost known = verified_processes(table.entries@.take(i as int));
        proof {
            assert(table.entries@.take(i + 1).drop_last() =~= table.entries@.take(i as int));
            assert(table.entries@.take(i + 1).last() == table.entries@[i as int]);
        }
        match &entry.1 {
            ProcessRead::Verified { marker, observation } => {
                entries.push(
                    ProcessEntry {
                        identity: ProcessIdentity { pid: entry.0, start_marker: *marker },
                        observation: observation.duplicate(),
                    },
                );
                proof {
                    assert forall|k: int| 0 <= k < entries.len() implies (
                    #[trigger] entries@[k]).identity == verified_processes(
                        table.entries@.take(i + 1),
                    )[k].0 && entries@[k].observation.same_facts(
                        verified_processes(table.entries@.take(i + 1))[k].1,
                    ) by {
                        if k < held.len() {
                            assert(entries@[k] == held[k]);
                        }
                    }
                }
            },
            ProcessRead::Unverified(_) => {},
        }
        i = i + 1;
    }
    assert(table.entries@.take(table.entries.len() as int) =~= table.entries@);
    ProcessTable { entries }
}

} // verus!
