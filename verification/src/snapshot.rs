//! One snapshot from two passes that were put together.

use vstd::prelude::*;
use crate::evidence::{EvidenceGapCode, EvidenceImpact};
use crate::merge::{
    gaps_merged, merge_attempt_uncertainty, merge_gaps, passes_merged, saturating_sum,
    too_many_reasons,
};
use crate::metadata::{
    apply_metadata_budget, budgeted, gaps_left, pid_order, truncated_pids, ObservationLimits,
};
use crate::native::CollectedPass;
use crate::observation::{
    EvidenceGap, MetadataCompleteness, NetworkSnapshot, ObservationError, ObservationScope,
    ProcessEntry, SnapshotCompleteness,
};
use crate::passes::{change_between, raced_rows, row_raced, PassChange, Uncertainty};
use crate::resolve::{
    all_failed, all_reasons, failed_read_gaps, process_table, resolve_rows, row_uncertainty,
    shows_processes, socket_built, verified_processes,
};
use crate::time::SystemTime;

verus! {

/// The gap that a race leaves.
pub open spec fn race_gap(gap: EvidenceGap, impact: EvidenceImpact) -> bool {
    &&& gap.impact == impact
    &&& gap.code == EvidenceGapCode::ObservationRaced
    &&& gap.endpoint is None
    &&& gap.pid is None
    &&& gap.affected_pids is None
    &&& gap.message@ == "observation passes did not agree"@
}

/// One gap for each thing that the passes did not agree on.
pub open spec fn race_gaps(gaps: Seq<EvidenceGap>, change: PassChange) -> bool {
    &&& gaps.len() == (if change.socket_set {
        1int
    } else {
        0
    }) + (if change.ownership {
        1int
    } else {
        0
    })
    &&& change.socket_set ==> race_gap(gaps[0], EvidenceImpact::SocketSet)
    &&& change.ownership ==> race_gap(gaps.last(), EvidenceImpact::Ownership)
}

fn race_gaps_of(change: PassChange) -> (r: Vec<EvidenceGap>)
    ensures
        race_gaps(r@, change),
{
    let mut gaps: Vec<EvidenceGap> = Vec::new();
    if change.socket_set {
        gaps.push(
            EvidenceGap::new(
                EvidenceImpact::SocketSet,
                EvidenceGapCode::ObservationRaced,
                None,
                None,
                "observation passes did not agree",
            ),
        );
    }
    if change.ownership {
        gaps.push(
            EvidenceGap::new(
                EvidenceImpact::Ownership,
                EvidenceGapCode::ObservationRaced,
                None,
                None,
                "observation passes did not agree",
            ),
        );
    }
    gaps
}

/// The gaps that are kept of a list: each said once, in order, up to the limit; the rest
/// are counted.
pub open spec fn gaps_kept(
    all: Seq<EvidenceGap>,
    limit: usize,
    omitted_before: u64,
    gaps: Seq<EvidenceGap>,
    omitted: u64,
) -> bool {
    exists|merged: Seq<EvidenceGap>| #[trigger]
        gaps_merged(all, merged) && if merged.len() <= limit {
            gaps == merged && omitted == omitted_before
        } else {
            gaps == merged.take(limit as int) && omitted == if omitted_before + (merged.len()
                - limit) <= u64::MAX {
                omitted_before + (merged.len() - limit)
            } else {
                u64::MAX as int
            }
        }
}

/// Keep the gaps of a list up to the limit.
pub fn keep_gaps(all: &Vec<EvidenceGap>, limit: usize, omitted: u64) -> (r: (
    Vec<EvidenceGap>,
    u64,
))
    ensures
        gaps_kept(all@, limit, omitted, r.0@, r.1),
        r.0.len() <= limit,
{
    let mut gaps = merge_gaps(all);
    let ghost merged = gaps@;
    assert(gaps_merged(all@, merged));
    if gaps.len() <= limit {
        return (gaps, omitted);
    }
    let excess: usize = gaps.len() - limit;
    gaps.truncate(limit);
    assert(gaps@ =~= merged.take(limit as int));
    (gaps, omitted.saturating_add(excess as u64))
}

/// What is uncertain about the owners of all sockets.
pub open spec fn overall_uncertainty(pass: CollectedPass, change: PassChange) -> Uncertainty {
    let known = Uncertainty::of(pass.global_owner_completeness);
    Uncertainty {
        raced: known.raced || change.ownership,
        reasons: all_reasons(known.reasons, pass.rows@, pass.processes_by_pid),
    }
}

/// The processes and gaps of a snapshot, by the steps that lead to them. Gaps come from
/// the passes, from reads that failed, from the race if there was one, and from fields
/// that did not fit.
pub open spec fn evidence_by(
    pass: CollectedPass,
    change: PassChange,
    limits: ObservationLimits,
    s: NetworkSnapshot,
    read: Seq<ProcessEntry>,
    positions: Seq<usize>,
    failed: Seq<EvidenceGap>,
    races: Seq<EvidenceGap>,
    cut: Seq<EvidenceGap>,
    cut_omitted: u64,
) -> bool {
    let budget = limits.optional_metadata_bytes as nat;
    &&& shows_processes(read, verified_processes(pass.processes_by_pid.entries@))
    &&& pid_order(read, positions)
    &&& s.processes.entries@ == budgeted(read, positions, read.len(), budget).0
    &&& gaps_left(
        truncated_pids(read, positions, read.len(), budget),
        limits.evidence_gaps,
        Seq::empty(),
        0,
        cut,
        cut_omitted,
    )
    &&& failed_read_gaps(failed, all_failed(pass.rows@, pass.processes_by_pid))
    &&& race_gaps(races, change)
    &&& gaps_kept(
        pass.evidence_gaps@ + failed + races + cut,
        limits.evidence_gaps,
        saturating_sum(pass.omitted_evidence_gap_count, cut_omitted),
        s.evidence_gaps@,
        s.omitted_evidence_gap_count,
    )
}

pub open spec fn evidence_built(
    pass: CollectedPass,
    change: PassChange,
    limits: ObservationLimits,
    s: NetworkSnapshot,
) -> bool {
    exists|
        read: Seq<ProcessEntry>,
        positions: Seq<usize>,
        failed: Seq<EvidenceGap>,
        races: Seq<EvidenceGap>,
        cut: Seq<EvidenceGap>,
        cut_omitted: u64,
    | #[trigger]
        evidence_by(
            pass,
            change,
            limits,
            s,
            read,
            positions,
            failed,
            races,
            cut,
            cut_omitted,
        )
}

/// Nothing is known to be missing from a snapshot.
pub open spec fn nothing_missing(s: NetworkSnapshot) -> bool {
    &&& s.evidence_gaps.len() == 0
    &&& s.omitted_evidence_gap_count == 0
    &&& s.owner_completeness is Complete
    &&& forall|i: int|
        0 <= i < s.sockets.len() ==> (#[trigger] s.sockets@[i]).owner_completeness is Complete
    &&& forall|i: int|
        0 <= i < s.processes.entries.len() ==> (
        #[trigger] s.processes.entries@[i]).observation.metadata_completeness
            == MetadataCompleteness::Complete
}

/// A snapshot of passes that did not agree is raced; another one is complete where
/// nothing is missing.
pub open spec fn completeness_rule(change: PassChange, s: NetworkSnapshot) -> bool {
    s.completeness == if change.raced() {
        SnapshotCompleteness::Raced
    } else if nothing_missing(s) {
        SnapshotCompleteness::Complete
    } else {
        SnapshotCompleteness::Partial
    }
}

/// The snapshot shows this pass.
pub open spec fn snapshot_built(
    pass: CollectedPass,
    raced: Seq<bool>,
    change: PassChange,
    limits: ObservationLimits,
    s: NetworkSnapshot,
) -> bool {
    &&& s.sockets.len() == pass.rows.len()
    &&& forall|i: int|
        0 <= i < s.sockets.len() ==> socket_built(
            pass.rows@[i],
            pass.processes_by_pid,
            raced[i],
            #[trigger] s.sockets@[i],
        )
    &&& Some(s.owner_completeness) == overall_uncertainty(pass, change).completeness()
    &&& evidence_built(pass, change, limits, s)
    &&& completeness_rule(change, s)
}

/// The reasons of some row, or of all of them, are too many for a snapshot.
pub open spec fn unfit(pass: CollectedPass, raced: Seq<bool>, change: PassChange) -> bool {
    ||| overall_uncertainty(pass, change).completeness() is None
    ||| exists|i: int|
        0 <= i < pass.rows.len() && row_uncertainty(
            #[trigger] pass.rows@[i],
            pass.processes_by_pid,
            raced[i],
        ).completeness() is None
}

/// Whether nothing is known to be missing.
fn is_whole(s: &NetworkSnapshot) -> (r: bool)
    ensures
        r == nothing_missing(*s),
{
    if s.evidence_gaps.len() != 0 || s.omitted_evidence_gap_count != 0
        || !s.owner_completeness.is_complete() {
        return false;
    }
    let mut i: usize = 0;
    while i < s.sockets.len()
        invariant
            i <= s.sockets.len(),
            forall|k: int|
                0 <= k < i ==> (#[trigger] s.sockets@[k]).owner_completeness is Complete,
        decreases s.sockets.len() - i,
    {
        if !s.sockets[i].owner_completeness.is_complete() {
            assert(!(s.sockets@[i as int].owner_completeness is Complete));
            return false;
        }
        i = i + 1;
    }
    let mut p: usize = 0;
    while p < s.processes.entries.len()
        invariant
            p <= s.processes.entries.len(),
            forall|k: int|
                0 <= k < p ==> (
                #[trigger] s.processes.entries@[k]).observation.metadata_completeness
                    == MetadataCompleteness::Complete,
        decreases s.processes.entries.len() - p,
    {
        if s.processes.entries[p].observation.metadata_completeness
            != MetadataCompleteness::Complete {
            assert(s.processes.entries@[p as int].observation.metadata_completeness
                != MetadataCompleteness::Complete);
            return false;
        }
        p = p + 1;
    }
    true
}

/// Make a snapshot of a pass.
pub fn build_snapshot(
    scope: ObservationScope,
    started: SystemTime,
    completed: SystemTime,
    pass: &CollectedPass,
    raced: &Vec<bool>,
    change: PassChange,
    limits: ObservationLimits,
) -> (r: Result<NetworkSnapshot, ObservationError>)
    requires
        pass.processes_by_pid.sorted(),
        raced.len() == pass.rows.len(),
    ensures
        match r {
            Ok(s) => {
                &&& !unfit(*pass, raced@, change)
                &&& s.scope == scope
                &&& s.capture_started_at == started
                &&& s.capture_completed_at == completed
                &&& snapshot_built(*pass, raced@, change, limits, s)
                &&& s.evidence_gaps.len() <= limits.evidence_gaps
            },
            Err(error) => error == ObservationError::OwnerReasonLimitExceeded && unfit(
                *pass,
                raced@,
                change,
            ),
        },
{
    let known = Uncertainty::from_completeness(pass.global_owner_completeness);
    let resolved = match resolve_rows(&pass.rows, &pass.processes_by_pid, raced, known.reasons) {
        Some(resolved) => resolved,
        None => {
            return Err(ObservationError::OwnerReasonLimitExceeded);
        },
    };
    let overall = Uncertainty {
        raced: known.raced || change.ownership,
        reasons: resolved.reasons,
    };
    assert(overall == overall_uncertainty(*pass, change));
    let owner_completeness = match overall.to_completeness() {
        Some(completeness) => completeness,
        None => {
            return Err(ObservationError::OwnerReasonLimitExceeded);
        },
    };
    let mut processes = process_table(&pass.processes_by_pid);
    let ghost read = processes.entries@;
    let mut cut: Vec<EvidenceGap> = Vec::new();
    let mut cut_omitted: u64 = 0;
    apply_metadata_budget(&mut processes, &mut cut, &mut cut_omitted, limits);
    let ghost positions = choose|positions: Seq<usize>| #[trigger]
        pid_order(read, positions) && {
            let budget = limits.optional_metadata_bytes as nat;
            &&& processes.entries@ == budgeted(read, positions, read.len(), budget).0
            &&& gaps_left(
                truncated_pids(read, positions, read.len(), budget),
                limits.evidence_gaps,
                Seq::empty(),
                0,
                cut@,
                cut_omitted,
            )
        };
    let ghost cut_gaps = cut@;
    let ghost failed = resolved.gaps@;
    let mut races = race_gaps_of(change);
    let ghost race_list = races@;
    let mut all: Vec<EvidenceGap> = Vec::new();
    let mut g: usize = 0;
    while g < pass.evidence_gaps.len()
        invariant
            g <= pass.evidence_gaps.len(),
            all@ == pass.evidence_gaps@.take(g as int),
        decreases pass.evidence_gaps.len() - g,
    {
        all.push(pass.evidence_gaps[g].duplicate());
        assert(all@ =~= pass.evidence_gaps@.take(g + 1));
        g = g + 1;
    }
    assert(all@ =~= pass.evidence_gaps@);
    let mut failed_list = resolved.gaps;
    all.append(&mut failed_list);
    all.append(&mut races);
    all.append(&mut cut);
    assert(all@ =~= pass.evidence_gaps@ + failed + race_list + cut_gaps);
    let (evidence_gaps, omitted) = keep_gaps(
        &all,
        limits.evidence_gaps,
        pass.omitted_evidence_gap_count.saturating_add(cut_omitted),
    );
    let mut snapshot = NetworkSnapshot {
        scope,
        capture_started_at: started,
        capture_completed_at: completed,
        completeness: SnapshotCompleteness::Raced,
        owner_completeness,
        sockets: resolved.sockets,
        processes,
        evidence_gaps,
        omitted_evidence_gap_count: omitted,
    };
    let whole = is_whole(&snapshot);
    if !change.socket_set && !change.ownership {
        snapshot.completeness = if whole {
            SnapshotCompleteness::Complete
        } else {
            SnapshotCompleteness::Partial
        };
    }
    assert(evidence_by(
        *pass,
        change,
        limits,
        snapshot,
        read,
        positions,
        failed,
        race_list,
        cut_gaps,
        cut_omitted,
    ));
    Ok(snapshot)
}

/// Which rows of the second pass the first did not see alike.
pub open spec fn races_of(a: CollectedPass, b: CollectedPass) -> Seq<bool> {
    Seq::new(b.rows@.len(), |i: int| row_raced(a, b, i))
}

/// What an attempt of two passes comes to: the second pass with the doubts of both, its
/// races marked.
pub open spec fn attempt_settled(
    a: CollectedPass,
    b: CollectedPass,
    limits: ObservationLimits,
    r: Result<NetworkSnapshot, ObservationError>,
) -> bool {
    match r {
        Ok(s) => !too_many_reasons(a, b) && exists|merged: CollectedPass| #[trigger]
            passes_merged(a, b, merged) && snapshot_built(
                merged,
                races_of(a, b),
                change_between(a, b),
                limits,
                s,
            ),
        Err(error) => error == ObservationError::OwnerReasonLimitExceeded && (too_many_reasons(
            a,
            b,
        ) || exists|merged: CollectedPass| #[trigger]
            passes_merged(a, b, merged) && unfit(merged, races_of(a, b), change_between(a, b))),
    }
}

/// Make a snapshot of two passes.
pub fn settle_attempt(
    scope: ObservationScope,
    started: SystemTime,
    completed: SystemTime,
    a: &CollectedPass,
    b: CollectedPass,
    change: PassChange,
    limits: ObservationLimits,
) -> (r: Result<NetworkSnapshot, ObservationError>)
    requires
        a.processes_by_pid.sorted(),
        b.processes_by_pid.sorted(),
        change == change_between(*a, b),
    ensures
        attempt_settled(*a, b, limits, r),
        r is Ok ==> r->Ok_0.scope == scope && r->Ok_0.capture_started_at == started
            && r->Ok_0.capture_completed_at == completed && r->Ok_0.evidence_gaps.len()
            <= limits.evidence_gaps && r->Ok_0.sockets.len() == b.rows.len(),
{
    let raced = raced_rows(a, &b);
    assert(raced@ =~= races_of(*a, b));
    let mut merged = b;
    match merge_attempt_uncertainty(a, &mut merged) {
        Ok(()) => {},
        Err(error) => {
            return Err(error);
        },
    }
    assert(passes_merged(*a, b, merged));
    build_snapshot(scope, started, completed, &merged, &raced, change, limits)
}

} // verus!
