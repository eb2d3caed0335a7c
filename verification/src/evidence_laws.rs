//! What an observation says, and what it says of its own gaps.

use vstd::prelude::*;
use vstd::string::*;
use crate::address::{is_v4_mapped, ip_text, normalized_ip, v4_text, IpAddr};
use crate::collection::{pass_admitted, pass_finished, pass_followed, ReadCounts, SourceCall};
use crate::canonical::owner_edges;
use crate::collector::{clock_error_of, CollectorError};
use crate::evidence::{
    ordered_codes, reasons_of, EndpointIdentity, EvidenceGapCode, EvidenceImpact,
    OwnerCompleteness, OwnerReasons,
};
use crate::merge::{covers_gap, gaps_merged, passes_merged, saturating_sum};
use crate::metadata::{
    as_room_allows, drops, fits, gaps_left, left_after, opt_path_bytes, opt_text_bytes, trimmed,
    truncation_gap, ObservationLimits,
};
use crate::model::{
    bind_scope_of, socket_state_rank, socket_state_text, BindScope, EndpointIdentityError,
    Ipv6Scope, Protocol, SocketState,
};
use crate::native::{
    CollectedPass, NativeObservationPass, NativeSocketRow, ProcessRead, ProcessReadTable,
};
use crate::observation::{
    gap_key, owner_pid_of, ticks_to_millis, EvidenceGap, MetadataCompleteness, MetadataOmission,
    MetadataProfile, NetworkSnapshot, ObservationError, ProcessObservation, SnapshotCompleteness,
    SocketObservation, TcpTimerKind, UnverifiedOwnerReason,
};
use crate::passes::{change_between, PassChange, Uncertainty};
use crate::resolve::{
    failed_read_gap, failed_reads, owner_read, owners_read, reason_code, reasons_read,
    socket_built, unverified_reason,
};
use crate::snapshot::{completeness_rule, gaps_kept, race_gap, race_gaps};
use crate::watch_gaps::{
    constrained_positions, is_about_pid, is_at_endpoint, is_endpointless_ownership, is_global,
    is_ownership_of, saturated,
};
use crate::watch_filter::OwnerPidConstraint;

verus! {

/// An endpoint is formed exactly from a port that exists and an interface only where the
/// address can have one. Its address is never an IPv4 address in an IPv6 coat.
pub proof fn law_formed_endpoints(
    protocol: Protocol,
    address: IpAddr,
    port: u32,
    scope: Option<Ipv6Scope>,
)
    ensures
        ({
            let r = EndpointIdentity::formed(protocol, address, port, scope);
            let v4 = address is V4 || (address is V6 && is_v4_mapped(address->V6_0));
            let indexed = scope is Some && scope->0 is InterfaceIndex;
            &&& r is Ok <==> 1 <= port <= 65_535 && !(v4 && indexed)
            &&& r is Ok ==> r->Ok_0.protocol == protocol && r->Ok_0.port == port
            &&& r is Ok && v4 ==> r->Ok_0.address is V4 && r->Ok_0.ipv6_scope is None
            &&& r is Ok && !v4 ==> r->Ok_0.address == address && r->Ok_0.ipv6_scope == scope
            &&& r is Err ==> (r->Err_0 == EndpointIdentityError::InvalidPort <==> port == 0 || port
                > 65_535)
            &&& r is Err && 1 <= port <= 65_535 ==> r->Err_0 == EndpointIdentityError::Ipv4WithScope
        }),
{
}

/// A mapped address is the IPv4 address that it wraps, and every other one is itself.
pub proof fn law_mapped_addresses(bits: u32, wide: u128)
    ensures
        normalized_ip(IpAddr::V6((0xffff_0000_0000 + bits) as u128)) == IpAddr::V4(bits),
        normalized_ip(IpAddr::V4(bits)) == IpAddr::V4(bits),
        wide < 0xffff_0000_0000 || wide > 0xffff_ffff_ffff ==> normalized_ip(IpAddr::V6(wide))
            == IpAddr::V6(wide),
{
    let mapped: u128 = (0xffff_0000_0000 + bits) as u128;
    assert(mapped / 0x1_0000_0000 == 0xffff && mapped % 0x1_0000_0000 == bits);
    assert(wide / 0x1_0000_0000 == 0xffff ==> 0xffff_0000_0000 <= wide <= 0xffff_ffff_ffff);
}

/// An address is reached from everywhere exactly where it is unspecified, and from the host
/// alone exactly where it is a loopback address: 127 in front, or one.
pub proof fn law_reach_of_addresses(bits: u32, wide: u128)
    ensures
        bind_scope_of(IpAddr::V4(bits)) == BindScope::Public <==> bits == 0,
        bind_scope_of(IpAddr::V6(wide)) == BindScope::Public <==> wide == 0,
        bind_scope_of(IpAddr::V4(bits)) == BindScope::Loopback <==> 0x7f00_0000 <= bits
            <= 0x7fff_ffff,
        bind_scope_of(IpAddr::V6(wide)) == BindScope::Loopback <==> wide == 1,
{
}

/// An IPv4 address is written as its four octets, the first of them first.
pub proof fn law_octets(a: u8, b: u8, c: u8, d: u8)
    ensures
        v4_text((a * 0x100_0000 + b * 0x1_0000 + c * 0x100 + d) as u32) == crate::text::decimal(
            a as nat,
        ) + "."@ + crate::text::decimal(b as nat) + "."@ + crate::text::decimal(c as nat) + "."@
            + crate::text::decimal(d as nat),
        ip_text(IpAddr::V4((a * 0x100_0000 + b * 0x1_0000 + c * 0x100 + d) as u32)) == v4_text(
            (a * 0x100_0000 + b * 0x1_0000 + c * 0x100 + d) as u32,
        ),
{
    reveal_strlit(".");
    assert("."@ =~= seq!['.']);
    let bits = (a * 0x100_0000 + b * 0x1_0000 + c * 0x100 + d) as u32;
    assert(bits / 0x100_0000 == a);
    assert((bits / 0x1_0000) % 256 == b);
    assert((bits / 0x100) % 256 == c);
    assert(bits % 256 == d);
}

/// The states of a socket by their names.
pub proof fn law_state_names(code: u32)
    ensures
        socket_state_text(SocketState::Closed) == "closed"@,
        socket_state_text(SocketState::Listen) == "listen"@,
        socket_state_text(SocketState::SynSent) == "syn_sent"@,
        socket_state_text(SocketState::SynReceived) == "syn_received"@,
        socket_state_text(SocketState::Established) == "established"@,
        socket_state_text(SocketState::FinWait1) == "fin_wait1"@,
        socket_state_text(SocketState::FinWait2) == "fin_wait2"@,
        socket_state_text(SocketState::CloseWait) == "close_wait"@,
        socket_state_text(SocketState::Closing) == "closing"@,
        socket_state_text(SocketState::LastAck) == "last_ack"@,
        socket_state_text(SocketState::TimeWait) == "time_wait"@,
        socket_state_text(SocketState::DeleteTcb) == "delete_tcb"@,
        socket_state_text(SocketState::NewSynReceived) == "new_syn_received"@,
        socket_state_text(SocketState::Bound) == "bound"@,
        socket_state_text(SocketState::Unknown(code)) == "unknown"@,
{
}

/// States are ordered as a connection goes through them, and unknown ones come last, by their
/// codes.
pub proof fn law_state_order(code: u32, next: u32)
    requires
        code < next,
    ensures
        socket_state_rank(SocketState::Closed) < socket_state_rank(SocketState::Listen),
        socket_state_rank(SocketState::Listen) < socket_state_rank(SocketState::SynSent),
        socket_state_rank(SocketState::SynSent) < socket_state_rank(SocketState::SynReceived),
        socket_state_rank(SocketState::SynReceived) < socket_state_rank(SocketState::Established),
        socket_state_rank(SocketState::Established) < socket_state_rank(SocketState::FinWait1),
        socket_state_rank(SocketState::FinWait1) < socket_state_rank(SocketState::FinWait2),
        socket_state_rank(SocketState::FinWait2) < socket_state_rank(SocketState::CloseWait),
        socket_state_rank(SocketState::CloseWait) < socket_state_rank(SocketState::Closing),
        socket_state_rank(SocketState::Closing) < socket_state_rank(SocketState::LastAck),
        socket_state_rank(SocketState::LastAck) < socket_state_rank(SocketState::TimeWait),
        socket_state_rank(SocketState::TimeWait) < socket_state_rank(SocketState::DeleteTcb),
        socket_state_rank(SocketState::DeleteTcb) < socket_state_rank(SocketState::NewSynReceived),
        socket_state_rank(SocketState::NewSynReceived) < socket_state_rank(SocketState::Bound),
        socket_state_rank(SocketState::Bound) < socket_state_rank(SocketState::Unknown(code)),
        socket_state_rank(SocketState::Unknown(code)) < socket_state_rank(
            SocketState::Unknown(next),
        ),
{
}

/// Gap codes are ordered by their names, and each has its own.
pub proof fn law_gap_codes_are_ordered_by_name()
    ensures
        EvidenceGapCode::NativeFieldUnavailable.name_text() == "native_field_unavailable"@,
        EvidenceGapCode::NoncriticalEvidenceTruncated.name_text()
            == "noncritical_evidence_truncated"@,
        EvidenceGapCode::ObservationRaced.name_text() == "observation_raced"@,
        EvidenceGapCode::OwnerAttributionIncomplete.name_text() == "owner_attribution_incomplete"@,
        EvidenceGapCode::OwnerDisappeared.name_text() == "owner_disappeared"@,
        EvidenceGapCode::OwnerPermissionDenied.name_text() == "owner_permission_denied"@,
        EvidenceGapCode::ProcessIdentityUnavailable.name_text() == "process_identity_unavailable"@,
        EvidenceGapCode::ProcessMetadataUnavailable.name_text() == "process_metadata_unavailable"@,
        EvidenceGapCode::ScopeExcluded.name_text() == "scope_excluded"@,
        EvidenceGapCode::NativeFieldUnavailable.order()
            < EvidenceGapCode::NoncriticalEvidenceTruncated.order()
            < EvidenceGapCode::ObservationRaced.order()
            < EvidenceGapCode::OwnerAttributionIncomplete.order()
            < EvidenceGapCode::OwnerDisappeared.order()
            < EvidenceGapCode::OwnerPermissionDenied.order()
            < EvidenceGapCode::ProcessIdentityUnavailable.order()
            < EvidenceGapCode::ProcessMetadataUnavailable.order()
            < EvidenceGapCode::ScopeExcluded.order(),
        EvidenceImpact::SocketSet.name_text() == "socket_set"@,
        EvidenceImpact::Ownership.name_text() == "ownership"@,
        EvidenceImpact::Metadata.name_text() == "metadata"@,
        EvidenceImpact::SocketSet.order() < EvidenceImpact::Ownership.order()
            < EvidenceImpact::Metadata.order(),
{
}

/// A set of reasons holds what was put into it and what it held; the join of two sets holds
/// what either holds.
pub proof fn law_reason_sets(
    reasons: OwnerReasons,
    other: OwnerReasons,
    code: EvidenceGapCode,
    asked: EvidenceGapCode,
    codes: Seq<EvidenceGapCode>,
)
    ensures
        reasons.inserted(code).has(asked) <==> reasons.has(asked) || asked == code,
        reasons.joined(other).has(asked) <==> reasons.has(asked) || other.has(asked),
        reasons_of(codes).has(asked) <==> codes.contains(asked),
        !reasons.has(code) ==> reasons.inserted(code).count() == reasons.count() + 1,
        reasons.has(code) ==> reasons.inserted(code) == reasons,
        reasons.count() == 0 ==> !reasons.has(asked),
        reasons.count() <= 9,
{
}

/// Owners are complete exactly where there is no reason to doubt it; up to eight reasons are
/// told, and more are too many.
pub proof fn law_reasons_make_owners_partial(reasons: OwnerReasons)
    ensures
        OwnerCompleteness::from_set(reasons) == Some(OwnerCompleteness::Complete)
            <==> reasons.count() == 0,
        OwnerCompleteness::from_set(reasons) is None <==> reasons.count() > 8,
        1 <= reasons.count() <= 8 ==> OwnerCompleteness::from_set(reasons) == Some(
            OwnerCompleteness::Partial { reasons },
        ),
        OwnerCompleteness::Complete.complete(),
        !OwnerCompleteness::Raced.complete(),
        !(OwnerCompleteness::Partial { reasons }).complete(),
{
}

/// The reasons of a set are told each once, those it holds and no other.
pub proof fn law_told_reasons_are_those_of_the_set(reasons: OwnerReasons, code: EvidenceGapCode)
    ensures
        ordered_codes(reasons).contains(code) <==> reasons.has(code),
{
    let all = crate::evidence::all_codes();
    let held = |c: EvidenceGapCode| reasons.has(c);
    assert(all[0] == EvidenceGapCode::NativeFieldUnavailable);
    assert(all[1] == EvidenceGapCode::NoncriticalEvidenceTruncated);
    assert(all[2] == EvidenceGapCode::ObservationRaced);
    assert(all[3] == EvidenceGapCode::OwnerAttributionIncomplete);
    assert(all[4] == EvidenceGapCode::OwnerDisappeared);
    assert(all[5] == EvidenceGapCode::OwnerPermissionDenied);
    assert(all[6] == EvidenceGapCode::ProcessIdentityUnavailable);
    assert(all[7] == EvidenceGapCode::ProcessMetadataUnavailable);
    assert(all[8] == EvidenceGapCode::ScopeExcluded);
    assert(all.contains(code));
    let at = choose|i: int| 0 <= i < all.len() && all[i] == code;
    if reasons.has(code) {
        all.lemma_filter_contains(held, at);
    }
    if ordered_codes(reasons).contains(code) {
        let told = choose|i: int|
            0 <= i < ordered_codes(reasons).len() && ordered_codes(reasons)[i] == code;
        all.lemma_filter_pred(held, told);
    }
}

/// A race counts for more than any reason, and doubts only add up.
pub proof fn law_doubts_add_up(a: Uncertainty, b: Uncertainty, code: EvidenceGapCode)
    ensures
        a.joined(b).raced <==> a.raced || b.raced,
        a.joined(b).reasons.has(code) <==> a.reasons.has(code) || b.reasons.has(code),
        a.raced ==> a.completeness() == Some(OwnerCompleteness::Raced),
        !a.raced ==> a.completeness() == OwnerCompleteness::from_set(a.reasons),
        Uncertainty::of(OwnerCompleteness::Complete).reasons.count() == 0
            && !Uncertainty::of(OwnerCompleteness::Complete).raced,
        Uncertainty::of(OwnerCompleteness::Raced).raced,
        !Uncertainty::of(OwnerCompleteness::Partial { reasons: a.reasons }).raced
            && Uncertainty::of(OwnerCompleteness::Partial { reasons: a.reasons }).reasons
            == a.reasons,
{
}

/// An owner is verified exactly where the process was read at its PID, with the start that
/// was read; otherwise it keeps the reason, which is a missing identity where nothing was
/// read.
pub proof fn law_owners_are_verified_by_reading(pid: u32, read: Option<ProcessRead>)
    ensures
        owner_pid_of(owner_read(pid, read)) == pid,
        owner_read(pid, read) is Verified <==> read is Some && read->0 is Verified,
        read is Some && read->0 is Verified ==> owner_read(pid, read)->Verified_0.start_marker
            == read->0->marker,
        read is Some && read->0 is Unverified ==> owner_read(pid, read)->reason
            == read->0->Unverified_0,
        read is None ==> owner_read(pid, read)->reason
            == UnverifiedOwnerReason::IdentityUnavailable,
        unverified_reason(read) is Some <==> owner_read(pid, read) is UnverifiedPid,
        unverified_reason(read) is Some ==> owner_read(pid, read)->reason == unverified_reason(
            read,
        )->0,
{
}

/// Each way in which a read can fail has its own public code.
pub proof fn law_failed_reads_have_their_codes(reason: UnverifiedOwnerReason)
    ensures
        reason_code(reason) == EvidenceGapCode::OwnerPermissionDenied <==> reason
            == UnverifiedOwnerReason::PermissionDenied,
        reason_code(reason) == EvidenceGapCode::OwnerDisappeared <==> reason
            == UnverifiedOwnerReason::Disappeared,
        reason_code(reason) == EvidenceGapCode::ProcessIdentityUnavailable <==> reason
            == UnverifiedOwnerReason::IdentityUnavailable,
        reason_code(reason) == EvidenceGapCode::ObservationRaced <==> reason
            == UnverifiedOwnerReason::Raced,
{
}

/// The owners of a socket are its PIDs in their order; a read that failed adds its reason and
/// is listed, and one that worked adds nothing.
pub proof fn law_owners_follow_the_pids(
    known: OwnerReasons,
    pids: Seq<u32>,
    pid: u32,
    table: ProcessReadTable,
)
    ensures
        owners_read(pids, table).len() == pids.len(),
        owners_read(pids.push(pid), table) == owners_read(pids, table).push(
            owner_read(pid, table.read(pid)),
        ),
        reasons_read(known, Seq::empty(), table) == known,
        table.read(pid) is Some && table.read(pid)->0 is Verified ==> reasons_read(
            known,
            pids.push(pid),
            table,
        ) == reasons_read(known, pids, table) && failed_reads(pids.push(pid), table)
            == failed_reads(pids, table),
        !(table.read(pid) is Some && table.read(pid)->0 is Verified) ==> reasons_read(
            known,
            pids.push(pid),
            table,
        ) == reasons_read(known, pids, table).inserted(
            reason_code(owner_read(pid, table.read(pid))->reason),
        ) && failed_reads(pids.push(pid), table) == failed_reads(pids, table).push(
            (pid, owner_read(pid, table.read(pid))->reason),
        ),
{
    assert(pids.push(pid).drop_last() == pids);
    assert(owners_read(pids.push(pid), table) =~= owners_read(pids, table).push(
        owner_read(pid, table.read(pid)),
    ));
}

/// A socket is shown as it was reported, with its owners; it is complete only where its row
/// was, no read failed and the passes agreed on it.
pub proof fn law_sockets_are_shown_as_reported(
    row: NativeSocketRow,
    table: ProcessReadTable,
    raced: bool,
    socket: SocketObservation,
)
    requires
        socket_built(row, table, raced, socket),
    ensures
        socket.local_endpoint == row.socket.endpoint,
        socket.state == row.socket.state,
        socket.timer == row.socket.timer,
        socket.socket_token == row.socket.token,
        socket.owners@.len() == row.owner_pids@.len(),
        forall|i: int|
            0 <= i < socket.owners@.len() ==> owner_pid_of(#[trigger] socket.owners@[i])
                == row.owner_pids@[i],
        raced ==> socket.owner_completeness is Raced,
        row.owner_completeness is Raced ==> socket.owner_completeness is Raced,
        socket.owner_completeness is Raced ==> raced || row.owner_completeness is Raced,
        socket.owner_completeness is Complete ==> !raced && reasons_read(
            Uncertainty::of(row.owner_completeness).reasons,
            row.owner_pids@,
            table,
        ).count() == 0,
{
    assert forall|i: int| 0 <= i < socket.owners@.len() implies owner_pid_of(
        #[trigger] socket.owners@[i],
    ) == row.owner_pids@[i] by {
        law_owners_are_verified_by_reading(
            row.owner_pids@[i],
            table.read(row.owner_pids@[i]),
        );
    }
}

/// The gap of a failed read tells the endpoint, the PID and the reason's code, as one of
/// ownership; that of a race tells what raced; that of a lost field the process.
pub proof fn law_gaps_tell_what_is_missing(
    gap: EvidenceGap,
    read: (EndpointIdentity, u32, UnverifiedOwnerReason),
    impact: EvidenceImpact,
    pid: u32,
)
    ensures
        failed_read_gap(gap, read) ==> gap.impact == EvidenceImpact::Ownership && gap.code
            == reason_code(read.2) && gap.endpoint == Some(read.0) && gap.pid == Some(read.1)
            && gap.message@ == "socket owner could not be verified"@,
        race_gap(gap, impact) ==> gap.impact == impact && gap.code
            == EvidenceGapCode::ObservationRaced && gap.endpoint is None && gap.pid is None
            && gap.message@ == "observation passes did not agree"@,
        truncation_gap(gap, pid) ==> gap.impact == EvidenceImpact::Metadata && gap.code
            == EvidenceGapCode::NoncriticalEvidenceTruncated && gap.pid == Some(pid)
            && gap.endpoint is None && gap.message@
            == "optional process metadata exceeded its byte budget"@,
{
}

/// Passes that did not agree leave a gap for each thing they did not agree on, and none
/// otherwise.
pub proof fn law_races_leave_gaps(gaps: Seq<EvidenceGap>, change: PassChange)
    requires
        race_gaps(gaps, change),
    ensures
        gaps.len() == 0 <==> !change.raced(),
        gaps.len() == 2 <==> change.socket_set && change.ownership,
        change.raced() <==> change.socket_set || change.ownership,
        change.socket_set ==> gaps[0].impact == EvidenceImpact::SocketSet,
        change.ownership ==> gaps.last().impact == EvidenceImpact::Ownership,
{
}

/// A snapshot is complete only where its passes agreed and it holds no gap and no doubt, and
/// then always; it is raced exactly where its passes did not agree.
pub proof fn law_completeness_of_a_snapshot(change: PassChange, snapshot: NetworkSnapshot)
    requires
        completeness_rule(change, snapshot),
    ensures
        snapshot.completeness == SnapshotCompleteness::Raced <==> change.socket_set
            || change.ownership,
        snapshot.completeness == SnapshotCompleteness::Complete ==> {
            &&& snapshot.evidence_gaps.len() == 0
            &&& snapshot.omitted_evidence_gap_count == 0
            &&& snapshot.owner_completeness is Complete
            &&& snapshot.diff_safe()
            &&& forall|i: int|
                0 <= i < snapshot.sockets.len() ==> (
                #[trigger] snapshot.sockets@[i]).owner_completeness is Complete
        },
        snapshot.evidence_gaps.len() > 0 ==> snapshot.completeness
            != SnapshotCompleteness::Complete,
        snapshot.sockets.len() == 0 && snapshot.processes.entries.len() == 0
            && snapshot.evidence_gaps.len() == 0 && snapshot.omitted_evidence_gap_count == 0
            && snapshot.owner_completeness is Complete && !change.socket_set && !change.ownership
            ==> snapshot.completeness == SnapshotCompleteness::Complete,
{
}

/// A snapshot can be compared exactly where its passes agreed, every gap was kept and none of
/// them is about the set of sockets.
pub proof fn law_comparable_snapshots(snapshot: NetworkSnapshot)
    ensures
        snapshot.diff_safe() ==> snapshot.completeness != SnapshotCompleteness::Raced
            && snapshot.omitted_evidence_gap_count == 0,
        !snapshot.diff_safe() ==> snapshot.completeness == SnapshotCompleteness::Raced
            || snapshot.omitted_evidence_gap_count > 0 || exists|i: int|
            0 <= i < snapshot.evidence_gaps.len() && (
            #[trigger] snapshot.evidence_gaps@[i]).impact == EvidenceImpact::SocketSet,
        snapshot.diff_safe() ==> forall|i: int|
            0 <= i < snapshot.evidence_gaps.len() ==> (
            #[trigger] snapshot.evidence_gaps@[i]).impact != EvidenceImpact::SocketSet,
{
}

/// Gaps are kept each once, in order, up to a limit; what is left out is counted.
pub proof fn law_kept_gaps_are_counted(
    all: Seq<EvidenceGap>,
    limit: usize,
    before: u64,
    gaps: Seq<EvidenceGap>,
    omitted: u64,
)
    requires
        gaps_kept(all, limit, before, gaps, omitted),
    ensures
        gaps.len() <= limit,
        omitted >= before,
        gaps.len() < limit ==> omitted == before && gaps_merged(all, gaps),
        omitted > before ==> gaps.len() == limit,
{
}

/// Merged gaps are gaps that were there, no two that say the same, and nothing that was said
/// is lost.
pub proof fn law_merged_gaps(all: Seq<EvidenceGap>, r: Seq<EvidenceGap>, i: int, j: int)
    requires
        gaps_merged(all, r),
    ensures
        0 <= i < r.len() ==> all.contains(r[i]),
        0 <= i < j < r.len() ==> gap_key(r[i]) != gap_key(r[j]),
        0 <= i < all.len() ==> exists|k: int|
            0 <= k < r.len() && gap_key(#[trigger] r[k]) == gap_key(all[i]),
{
    if 0 <= i < all.len() {
        assert(covers_gap(r, all[i]));
    }
}

/// Counts add up, and the largest one is never left.
pub proof fn law_counts_add_up(a: u64, b: u64)
    ensures
        a + b <= u64::MAX ==> saturating_sum(a, b) == a + b && saturated(a, b as nat) == a + b,
        a + b > u64::MAX ==> saturating_sum(a, b) == u64::MAX && saturated(a, b as nat)
            == u64::MAX,
{
}

/// The second pass is what is shown: its rows, its owners and its processes, with the gaps
/// of both passes and with no doubt of either lost.
pub proof fn law_merged_passes_keep_every_doubt(
    a: CollectedPass,
    b: CollectedPass,
    r: CollectedPass,
)
    requires
        passes_merged(a, b, r),
    ensures
        r.rows.len() == b.rows.len(),
        forall|i: int|
            0 <= i < r.rows.len() ==> (#[trigger] r.rows@[i]).socket == b.rows@[i].socket
                && r.rows@[i].owner_pids == b.rows@[i].owner_pids,
        r.processes_by_pid == b.processes_by_pid,
        a.global_owner_completeness is Raced || b.global_owner_completeness is Raced
            ==> r.global_owner_completeness is Raced,
        r.global_owner_completeness is Complete ==> !(a.global_owner_completeness is Raced)
            && !(b.global_owner_completeness is Raced),
        forall|i: int|
            0 <= i < a.evidence_gaps.len() ==> covers_gap(
                r.evidence_gaps@,
                #[trigger] a.evidence_gaps@[i],
            ),
        forall|i: int|
            0 <= i < b.evidence_gaps.len() ==> covers_gap(
                r.evidence_gaps@,
                #[trigger] b.evidence_gaps@[i],
            ),
        r.omitted_evidence_gap_count >= a.omitted_evidence_gap_count,
        r.omitted_evidence_gap_count >= b.omitted_evidence_gap_count,
{
    let all = a.evidence_gaps@ + b.evidence_gaps@;
    assert forall|i: int| 0 <= i < a.evidence_gaps.len() implies covers_gap(
        r.evidence_gaps@,
        #[trigger] a.evidence_gaps@[i],
    ) by {
        assert(all[i] == a.evidence_gaps@[i]);
        assert(covers_gap(r.evidence_gaps@, all[i]));
    }
    assert forall|i: int| 0 <= i < b.evidence_gaps.len() implies covers_gap(
        r.evidence_gaps@,
        #[trigger] b.evidence_gaps@[i],
    ) by {
        assert(all[a.evidence_gaps.len() + i] == b.evidence_gaps@[i]);
        assert(covers_gap(r.evidence_gaps@, all[a.evidence_gaps.len() + i]));
    }
}

/// A field is kept exactly where it is no longer than its own limit and what is left of the
/// budget, and then takes its share; a dropped field takes nothing.
pub proof fn law_fields_take_their_share(bytes: nat, longest: usize, left: nat)
    ensures
        fits(bytes, longest, left) <==> bytes <= longest && bytes <= left,
        fits(bytes, longest, left) ==> left_after(bytes, longest, left) + bytes == left,
        !fits(bytes, longest, left) ==> left_after(bytes, longest, left) == left,
{
}

/// A process within the limits and the budget keeps everything; one that loses a field is
/// marked as incomplete, and every field is kept whole or not at all.
pub proof fn law_trimmed_processes(process: ProcessObservation, left: nat)
    ensures
        ({
            let r = trimmed(process, left).0;
            let name = opt_text_bytes(process.name);
            let path = opt_path_bytes(process.executable_path);
            let parent = opt_text_bytes(process.parent_process_name);
            let command = opt_text_bytes(process.command_line);
            &&& name <= 256 && path <= 4_096 && parent <= 256 && command <= 16_384 && name + path
                + parent + command <= left ==> r == process && trimmed(process, left).1 == left
                - name - path - parent - command && !drops(process, left)
            &&& name > 256 ==> r.name is None
            &&& path > 4_096 ==> r.executable_path is None
            &&& parent > 256 ==> r.parent_process_name is None
            &&& command > 16_384 ==> r.command_line is None
            &&& r.name is Some ==> r.name == process.name
            &&& r.executable_path is Some ==> r.executable_path == process.executable_path
            &&& r.parent_process_name is Some ==> r.parent_process_name
                == process.parent_process_name
            &&& r.command_line is Some ==> r.command_line == process.command_line
            &&& r.parent_pid == process.parent_pid
            &&& drops(process, left) ==> r.metadata_omission == Some(
                MetadataOmission::BudgetExceeded,
            ) && r.metadata_completeness == MetadataCompleteness::Partial
            &&& !drops(process, left) ==> r == process
        }),
{
}

/// Lost fields leave one gap each as far as there is room, the first ones first, behind the
/// gaps that were there; the others are counted.
pub proof fn law_lost_fields_leave_gaps(
    pids: Seq<u32>,
    limit: usize,
    gaps_before: Seq<EvidenceGap>,
    omitted_before: u64,
    gaps: Seq<EvidenceGap>,
    omitted: u64,
)
    requires
        gaps_left(pids, limit, gaps_before, omitted_before, gaps, omitted),
        omitted_before + pids.len() <= u64::MAX,
    ensures
        gaps.len() - gaps_before.len() + omitted - omitted_before == pids.len(),
        gaps_before.len() + pids.len() <= limit ==> omitted == omitted_before,
        gaps_before.len() + pids.len() > limit && gaps_before.len() <= limit ==> gaps.len()
            == limit,
        gaps_before.len() > limit ==> gaps.len() == gaps_before.len(),
        forall|i: int|
            0 <= i < gaps.len() - gaps_before.len() ==> (
            #[trigger] gaps[gaps_before.len() + i]).pid == Some(pids[i]),
        as_room_allows(pids.len(), limit, gaps_before.len()) <= pids.len(),
{
}

/// A pass is admitted exactly within its limits, and the first limit that is passed is the
/// one that is told: sockets, then owners, then processes.
pub proof fn law_admitted_passes_are_within_limits(
    rows: Seq<NativeSocketRow>,
    read_in_attempt: usize,
    read_in_all: usize,
    limits: ObservationLimits,
    r: Result<Vec<u32>, ObservationError>,
)
    requires
        pass_admitted(rows, read_in_attempt, read_in_all, limits, r),
    ensures
        rows.len() > limits.sockets ==> r is Err && r->Err_0
            == ObservationError::SocketObservationLimitExceeded,
        rows.len() <= limits.sockets && owner_edges(rows) > limits.owner_edges ==> r is Err
            && r->Err_0 == ObservationError::OwnerAttributionLimitExceeded,
        rows.len() <= limits.sockets && owner_edges(rows) <= limits.owner_edges && r is Err
            ==> r->Err_0 == ObservationError::ProcessIdentityLimitExceeded,
        r is Ok ==> {
            &&& rows.len() <= limits.sockets
            &&& owner_edges(rows) <= limits.owner_edges
            &&& r->Ok_0@.len() <= limits.candidate_pids
            &&& read_in_attempt + r->Ok_0@.len() <= limits.identity_reads_per_attempt
            &&& read_in_all + r->Ok_0@.len() <= limits.identity_reads_total
        },
{
}

/// A pass that the host failed, or that breaks a limit, has no process read for it; one that
/// was admitted has its processes read once, and they are counted.
pub proof fn law_reads_are_counted(
    calls: Seq<SourceCall>,
    answer: Result<NativeObservationPass, ObservationError>,
    profile: MetadataProfile,
    read: ReadCounts,
    limits: ObservationLimits,
    after: Seq<SourceCall>,
    read_after: ReadCounts,
    r: Result<CollectedPass, ObservationError>,
)
    requires
        pass_followed(calls, answer, profile, read, limits, after, read_after, r),
    ensures
        answer is Err ==> r is Err && r->Err_0 == answer->Err_0 && after == calls && read_after
            == read,
        answer is Ok && answer->Ok_0.rows.len() > limits.sockets ==> r is Err && after == calls
            && read_after == read,
        after.len() <= calls.len() + 1,
        after.len() == calls.len() ==> r is Err && read_after == read,
        read_after.in_all - read.in_all == read_after.in_attempt - read.in_attempt,
        read_after.in_all >= read.in_all,
        r is Ok ==> after.len() == calls.len() + 1 && after.last() is Reads,
{
}

/// Reads that are not of the PIDs that were asked for are malformed.
pub proof fn law_reads_are_of_the_asked_pids(
    pass: NativeObservationPass,
    pids: Seq<u32>,
    reads: Vec<(u32, ProcessRead)>,
    limits: ObservationLimits,
    r: Result<CollectedPass, ObservationError>,
)
    requires
        pass_finished(pass, pids, reads, limits, r),
    ensures
        r is Err ==> r->Err_0 == ObservationError::NativeDataMalformed,
        r is Ok ==> r->Ok_0.processes_by_pid.entries == reads && r->Ok_0.evidence_gaps
            == pass.evidence_gaps && r->Ok_0.omitted_evidence_gap_count
            == pass.omitted_evidence_gap_count && r->Ok_0.global_owner_completeness
            == pass.global_owner_completeness && r->Ok_0.rows.len() == pass.rows.len(),
        reads@.map_values(|entry: (u32, ProcessRead)| entry.0) == pids ==> r is Ok,
{
}

/// A gap belongs to exactly one of: the whole observation, the owners behind a PID, the
/// other facts on a PID, or an endpoint.
pub proof fn law_gaps_have_one_place(gap: EvidenceGap, pid: u32, key: EndpointIdentity)
    ensures
        is_at_endpoint(gap, key) <==> gap.endpoint == Some(key),
        is_global(gap) <==> gap.endpoint is None && gap.pid is None,
        is_ownership_of(gap, pid) <==> gap.endpoint is None && gap.pid == Some(pid) && gap.impact
            == EvidenceImpact::Ownership,
        is_about_pid(gap, pid) <==> gap.endpoint is None && gap.pid == Some(pid) && gap.impact
            != EvidenceImpact::Ownership,
        is_endpointless_ownership(gap) && gap.pid == Some(pid) <==> is_ownership_of(gap, pid),
        gap.endpoint is None && gap.pid == Some(pid) ==> (is_ownership_of(gap, pid)
            <==> !is_about_pid(gap, pid)),
{
}

/// A filter for no PID at all finds no gap of ownership.
pub proof fn law_impossible_owners_have_no_gaps(gaps: Seq<EvidenceGap>)
    ensures
        constrained_positions(gaps, OwnerPidConstraint::Impossible).len() == 0,
{
}

/// Only the wall clock's own failures are clock failures.
pub proof fn law_clock_failures(result: Result<NetworkSnapshot, CollectorError>)
    ensures
        clock_error_of(result) is Some <==> {
            ||| result == Err::<NetworkSnapshot, CollectorError>(
                CollectorError::Observation(ObservationError::ClockUnavailable),
            )
            ||| result == Err::<NetworkSnapshot, CollectorError>(
                CollectorError::Observation(ObservationError::InvalidWallClockInterval),
            )
        },
        result is Ok ==> clock_error_of(result) is None,
{
}

/// What a failed observation says.
pub proof fn law_observation_failures_are_told(detail: String)
    ensures
        ObservationError::SocketTableUnavailable.text() == "socket table is unavailable"@,
        ObservationError::SocketTablePermissionDenied.text()
            == "socket table permission was denied"@,
        ObservationError::NativeDataMalformed.text() == "native data is malformed"@,
        ObservationError::NativeDataOversized.text() == "native data is oversized"@,
        ObservationError::ScopeIdentifierOversized.text() == "scope identifier is oversized"@,
        ObservationError::ScopeLimitationLimitExceeded.text()
            == "scope limitation limit exceeded"@,
        ObservationError::SocketObservationLimitExceeded.text()
            == "socket observation limit exceeded"@,
        ObservationError::ProcessIdentityLimitExceeded.text()
            == "process identity limit exceeded"@,
        ObservationError::OwnerAttributionLimitExceeded.text()
            == "owner attribution limit exceeded"@,
        ObservationError::LegacyProjectionLimitExceeded.text()
            == "legacy projection limit exceeded"@,
        ObservationError::PlatformApiFailed(detail).text() == "platform API failed: "@ + detail@,
        ObservationError::ClockUnavailable.text() == "wall clock is unavailable"@,
        ObservationError::InvalidWallClockInterval.text() == "wall clock interval is invalid"@,
        ObservationError::PartialSocketSet.text() == "socket set is partial"@,
        ObservationError::ObservationRaced.text() == "observation raced"@,
        ObservationError::OwnerReasonLimitExceeded.text() == "owner reason limit exceeded"@,
        CollectorError::WorkerExited.text() == "collector worker exited before returning"@,
        CollectorError::OwnershipPermissionDenied.text()
            == "socket ownership permission was denied"@,
        (CollectorError::Platform { message: detail }).text() == detail@,
        CollectorError::Observation(ObservationError::ObservationRaced).text()
            == ObservationError::ObservationRaced.text(),
{
}

/// The kinds of timers by their numbers; an unknown number is kept.
pub proof fn law_timer_kinds(code: u32)
    ensures
        TcpTimerKind::of_linux(code) == TcpTimerKind::NoTimer <==> code == 0,
        TcpTimerKind::of_linux(code) == TcpTimerKind::Retransmit <==> code == 1,
        TcpTimerKind::of_linux(code) == TcpTimerKind::Other <==> code == 2,
        TcpTimerKind::of_linux(code) == TcpTimerKind::TimeWait <==> code == 3,
        TcpTimerKind::of_linux(code) == TcpTimerKind::ZeroWindowProbe <==> code == 4,
        TcpTimerKind::of_linux(code) == TcpTimerKind::Unknown(code) <==> code > 4,
{
}

/// Ticks are turned into the smallest number of milliseconds that holds them.
pub proof fn law_ticks_are_rounded_up(ticks: u64, hertz: u64)
    requires
        hertz > 0,
    ensures
        ticks_to_millis(ticks, hertz) * hertz >= ticks * 1000,
        (ticks_to_millis(ticks, hertz) - 1) * hertz < ticks * 1000,
{
    let n = ticks * 1000 + hertz - 1;
    let h = hertz as int;
    let q = n / h;
    assert(q * h <= n && n < q * h + h) by {
        vstd::arithmetic::div_mod::lemma_fundamental_div_mod(n, h);
        vstd::arithmetic::div_mod::lemma_mod_bound(n, h);
        vstd::arithmetic::mul::lemma_mul_is_commutative(q, h);
    }
    assert((q - 1) * h == q * h - h) by (nonlinear_arith);
}

/// Passes are compared by what they report: the same rows and reads never differ.
pub proof fn law_equal_passes_agree(a: CollectedPass, b: CollectedPass)
    requires
        a.rows@ == b.rows@,
        a.processes_by_pid == b.processes_by_pid,
    ensures
        !change_between(a, b).socket_set,
        !change_between(a, b).ownership,
        !change_between(a, b).raced(),
{
}

} // verus!
