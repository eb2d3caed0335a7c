//! How an observation becomes rows, and what is told of them.

use vstd::prelude::*;
use vstd::string::*;
use crate::app_kill::{asked_again_text, capped_text, protected_prompt, shortened, waiting_text};
use crate::app_refresh::target_read;
use crate::app_state::{App, KillConfirmation};
use crate::banner::{
    has_system_node, is_foreign, member_warning_lines, owner_warning_text, ports_line,
    windows_tree_lines,
};
use crate::canonical::{names_pid, owner_edges};
use crate::collection::{
    attempt_closed, attempt_made, observation_followed, reads_exceed, Attempt, SourceCall,
};
use crate::collector::CollectorError;
use crate::evidence::{EvidenceGapCode, OwnerCompleteness};
use crate::exit::ExitReason;
use crate::kill::{ambiguity_text, ports_visible, rows_on_port};
use crate::metadata::ObservationLimits;
use crate::model::{endpoint_text, PermissionStatus, Platform};
use crate::native::{
    completeness_key, read_of, token_key, CollectedPass, NativeSocketRow, ProcessRead,
};
use crate::observation::{
    owner_pid_of, scope_platform, MetadataCompleteness, MetadataProfile, NetworkSnapshot,
    ObservationError, ObservationScope, ObservationScopeKind, OwnerObservation,
    PlatformSocketToken, SocketObservation,
};
use crate::order::key_le;
use crate::ports::{PortEntry, ProcessContext};
use crate::process::{
    evidence_gap, joined_ports, name_text, rows_of_pid, same_target, ConfirmationRequirement,
    HostFacts, KillMode, KillTarget, KillTargetPort,
};
use crate::projection::{
    all_sources, concerns, entries_projected, first_unsure, row_of, socket_sources, unsure_refusal,
    RowFilter, RowSource,
};
use crate::scoped::{plan_reason, plan_text};
use crate::scoped_group::{group_plan_reason, group_plan_text};
use crate::text::{contains_text, decimal, opt_text, sanitized};
use crate::time::{Duration, SystemTime};
use crate::tree::{GroupPlanError, TreeNode, TreePlanError};
use crate::watch_runtime::{wait_given_up, wait_over, wait_ready, RuntimeCall};

verus! {

/// A row shows its socket and its owner: the endpoint, the state, the PID and, where the
/// process was verified and read, what was read of it; nothing of a process that was not.
pub proof fn law_rows_show_socket_and_owner(
    row: PortEntry,
    snapshot: NetworkSnapshot,
    socket: SocketObservation,
    owner: Option<OwnerObservation>,
)
    requires
        row_of(row, snapshot, socket, owner),
    ensures
        row.local_port == socket.local_endpoint.port,
        row.local_addr == socket.local_endpoint.address,
        row.protocol == socket.local_endpoint.protocol,
        row.ipv6_scope == socket.local_endpoint.ipv6_scope,
        row.state == socket.state,
        owner is None ==> row.pid is None && row.process_identity is None && row.process_name
            is None,
        owner is Some ==> row.pid == Some(owner_pid_of(owner->0)),
        owner is Some && owner->0 is UnverifiedPid ==> row.process_identity is None
            && row.process_name is None && row.executable_path is None && row.command_line is None
            && row.parent_pid is None && row.parent_process_name is None && row.permission
            == PermissionStatus::Partial,
        owner is Some && owner->0 is Verified ==> row.process_identity == Some(
            owner->0->Verified_0,
        ),
        owner is Some && owner->0 is Verified && snapshot.processes.row(owner->0->Verified_0)
            is Some ==> {
            let facts = snapshot.processes.row(owner->0->Verified_0)->0;
            &&& opt_text(row.process_name) == opt_text(facts.name)
            &&& opt_text(row.command_line) == opt_text(facts.command_line)
            &&& row.parent_pid == facts.parent_pid
            &&& opt_text(row.parent_process_name) == opt_text(facts.parent_process_name)
            &&& row.permission == PermissionStatus::Full <==> socket.owner_completeness is Complete
                && facts.metadata_completeness == MetadataCompleteness::Complete
        },
        !(socket.owner_completeness is Complete) ==> row.permission == PermissionStatus::Partial,
        owner is None && socket.owner_completeness is Complete ==> row.permission
            == PermissionStatus::Full,
        !row.protected,
{
}

/// The platform of an observation follows from its scope.
pub proof fn law_platforms_follow_from_the_scope()
    ensures
        scope_platform(ObservationScopeKind::CurrentNetworkNamespace) == Platform::Linux,
        scope_platform(ObservationScopeKind::CurrentHostProcessVisibleSockets) == Platform::Macos,
        scope_platform(ObservationScopeKind::CurrentHostNetworkStack) == Platform::Windows,
{
}

/// Without a filter a socket gives a row for each owner, and one row where it has none. A
/// filter for a port leaves out every socket on another port, and one for a PID every owner
/// with another PID and every socket without owners.
pub proof fn law_rows_of_a_socket(sockets: Seq<SocketObservation>, at: int, filter: RowFilter)
    requires
        0 <= at < sockets.len(),
    ensures
        filter.port is Some && filter.port->0 != sockets[at].local_endpoint.port
            ==> socket_sources(sockets, at, filter).len() == 0,
        sockets[at].owners.len() == 0 && filter.pid is Some ==> socket_sources(
            sockets,
            at,
            filter,
        ).len() == 0,
        sockets[at].owners.len() == 0 && filter.pid is None && filter.port is None
            ==> socket_sources(sockets, at, filter) == seq![RowSource { socket: at, owner: None }],
        filter.pid is None && filter.port is None && sockets[at].owners.len() > 0
            ==> socket_sources(sockets, at, filter).len() == sockets[at].owners.len(),
        forall|k: int|
            0 <= k < socket_sources(sockets, at, filter).len() ==> {
                let source = #[trigger] socket_sources(sockets, at, filter)[k];
                &&& source.socket == at
                &&& source.owner is Some ==> 0 <= source.owner->0 < sockets[at].owners.len()
                &&& filter.pid is Some ==> source.owner is Some && owner_pid_of(
                    sockets[at].owners@[source.owner->0],
                ) == filter.pid->0
                &&& filter.port is Some ==> filter.port->0 == sockets[at].local_endpoint.port
            },
{
    lemma_owner_rows(sockets, at, filter, sockets[at].owners.len() as int);
}

proof fn lemma_owner_rows(sockets: Seq<SocketObservation>, at: int, filter: RowFilter, n: int)
    requires
        0 <= at < sockets.len(),
        0 <= n <= sockets[at].owners.len(),
    ensures
        filter.pid is None ==> crate::projection::owner_sources(
            sockets[at].owners@,
            at,
            filter,
            n,
        ).len() == n,
        forall|k: int|
            0 <= k < crate::projection::owner_sources(sockets[at].owners@, at, filter, n).len()
                ==> {
                let source = #[trigger] crate::projection::owner_sources(
                    sockets[at].owners@,
                    at,
                    filter,
                    n,
                )[k];
                &&& source.socket == at
                &&& source.owner is Some
                &&& 0 <= source.owner->0 < n
                &&& filter.pid is Some ==> owner_pid_of(sockets[at].owners@[source.owner->0])
                    == filter.pid->0
            },
    decreases n,
{
    if n > 0 {
        lemma_owner_rows(sockets, at, filter, n - 1);
    }
}

/// Every socket is looked at, in its order: the rows of one more socket come behind those of
/// the sockets before it.
pub proof fn law_rows_follow_the_sockets(
    sockets: Seq<SocketObservation>,
    filter: RowFilter,
    n: int,
)
    requires
        0 <= n < sockets.len(),
    ensures
        crate::projection::sources(sockets, filter, 0).len() == 0,
        crate::projection::sources(sockets, filter, n + 1) == crate::projection::sources(
            sockets,
            filter,
            n,
        ) + socket_sources(sockets, n, filter),
{
}

/// A projection is refused exactly where it has more rows than can be held.
pub proof fn law_projections_are_bounded(
    snapshot: NetworkSnapshot,
    filter: RowFilter,
    names: Seq<String>,
    r: Result<Vec<PortEntry>, ObservationError>,
)
    requires
        entries_projected(snapshot, filter, names, r),
    ensures
        r is Err <==> all_sources(snapshot, filter).len() > 131_072,
        r is Err ==> r->Err_0 == ObservationError::LegacyProjectionLimitExceeded,
        r is Ok ==> r->Ok_0@.len() == all_sources(snapshot, filter).len(),
{
}

/// A socket concerns a kill that names its port or one of its owners, and no other.
pub proof fn law_sockets_that_concern_a_kill(socket: SocketObservation, filter: RowFilter)
    ensures
        filter.port == Some(socket.local_endpoint.port) ==> concerns(socket, filter),
        filter.port is None && filter.pid is None ==> !concerns(socket, filter),
        filter.pid is None && filter.port is Some ==> (concerns(socket, filter) <==> filter.port->0
            == socket.local_endpoint.port),
        filter.pid is Some && filter.port is None && socket.owners.len() == 0 ==> !concerns(
            socket,
            filter,
        ),
{
}

/// Owners that are not known for sure refuse a kill: for want of permission where that is
/// among the reasons, for a race where there was one, and as incomplete otherwise.
pub proof fn law_unsure_owners_refuse_a_kill(
    completeness: OwnerCompleteness,
    error: CollectorError,
)
    requires
        unsure_refusal(completeness, error),
        !(completeness is Complete),
    ensures
        error is OwnershipPermissionDenied <==> completeness is Partial && completeness->reasons.has(
            EvidenceGapCode::OwnerPermissionDenied,
        ),
        completeness is Raced ==> error == CollectorError::Observation(
            ObservationError::ObservationRaced,
        ),
        completeness is Partial && !completeness->reasons.has(
            EvidenceGapCode::OwnerPermissionDenied,
        ) ==> error.text() == "socket ownership is incomplete"@,
{
}

/// Where every socket that concerns a kill is sure of its owners nothing is unsure, and what
/// is found unsure is so.
pub proof fn law_first_unsure(sockets: Seq<SocketObservation>, filter: RowFilter, from: int)
    requires
        0 <= from <= sockets.len(),
    ensures
        first_unsure(sockets, filter, from) is Some ==> !(first_unsure(sockets, filter, from)->0
            is Complete),
        first_unsure(sockets, filter, from) is None <==> forall|i: int|
            from <= i < sockets.len() && concerns(#[trigger] sockets[i], filter)
                ==> sockets[i].owner_completeness is Complete,
    decreases sockets.len() - from,
{
    if from < sockets.len() {
        law_first_unsure(sockets, filter, from + 1);
        let rest = forall|i: int|
            from + 1 <= i < sockets.len() && concerns(#[trigger] sockets[i], filter)
                ==> sockets[i].owner_completeness is Complete;
        if concerns(sockets[from], filter) && !(sockets[from].owner_completeness is Complete) {
        } else if rest {
            assert forall|i: int|
                from <= i < sockets.len() && concerns(
                    #[trigger] sockets[i],
                    filter,
                ) implies sockets[i].owner_completeness is Complete by {
                if i > from {
                }
            }
        }
    }
}

/// The rows on a port are those with that port, in their order.
pub proof fn law_rows_on_a_port(rows: Seq<PortEntry>, row: PortEntry, port: u16)
    ensures
        rows_on_port(Seq::empty(), port).len() == 0,
        row.local_port == port ==> rows_on_port(rows.push(row), port) == rows_on_port(
            rows,
            port,
        ).push(&row),
        row.local_port != port ==> rows_on_port(rows.push(row), port) == rows_on_port(rows, port),
        row.pid == Some(port as u32) ==> rows_of_pid(rows.push(row), port as u32) == rows_of_pid(
            rows,
            port as u32,
        ).push(&row),
        row.pid != Some(port as u32) ==> rows_of_pid(rows.push(row), port as u32) == rows_of_pid(
            rows,
            port as u32,
        ),
{
    assert(rows.push(row).drop_last() == rows);
}

/// Ports are still visible exactly where some row is on one of them.
pub proof fn law_visible_ports(
    ports: Seq<KillTargetPort>,
    rows: Seq<PortEntry>,
    row: PortEntry,
)
    ensures
        !ports_visible(ports, Seq::empty()),
        ports.len() == 0 ==> !ports_visible(ports, rows),
        ports.contains(KillTargetPort::of(row)) ==> ports_visible(ports, rows.push(row)),
        ports_visible(ports, rows) ==> ports_visible(ports, rows.push(row)),
        !ports_visible(ports, rows) && !ports.contains(KillTargetPort::of(row)) ==> !ports_visible(
            ports,
            rows.push(row),
        ),
{
    let more = rows.push(row);
    assert(more[rows.len() as int] == row);
    if ports_visible(ports, rows) {
        let i = choose|i: int|
            0 <= i < rows.len() && ports.contains(KillTargetPort::of(#[trigger] rows[i]));
        assert(more[i] == rows[i]);
    }
    if !ports_visible(ports, rows) && !ports.contains(KillTargetPort::of(row)) {
        assert forall|i: int| 0 <= i < more.len() implies !ports.contains(
            KillTargetPort::of(#[trigger] more[i]),
        ) by {
            if i < rows.len() {
                assert(more[i] == rows[i]);
            }
        }
    }
}

/// A target is read from the rows of its PID, and there is none without such a row.
pub proof fn law_targets_need_rows(
    app: App,
    pid: u32,
    context: Option<&ProcessContext>,
    r: Option<KillTarget>,
)
    requires
        target_read(app, pid, context, r),
    ensures
        r is Some <==> rows_of_pid(app.rows@, pid).len() > 0,
        r is Some ==> r->0.pid == pid,
{
}

/// What is asked again where an answer did not do.
pub proof fn law_questions_in_the_table(confirmation: KillConfirmation)
    ensures
        confirmation.requirement == ConfirmationRequirement::Yes ==> asked_again_text(confirmation)
            == "press y to confirm or Esc to cancel"@,
        confirmation.requirement == ConfirmationRequirement::ForceWord ==> asked_again_text(
            confirmation,
        ) == "type force and press Enter to confirm "@ + confirmation.mode.delivery_text(
            confirmation.target.platform,
        ),
        confirmation.requirement == ConfirmationRequirement::ProtectedProcess ==> asked_again_text(
            confirmation,
        ) == "type PID "@ + decimal(confirmation.target.pid as nat) + " or process name "@
            + sanitized(name_text(confirmation.target)) + " to confirm"@,
        protected_prompt(confirmation.target) == "type PID "@ + decimal(
            confirmation.target.pid as nat,
        ) + " or process name "@ + sanitized(name_text(confirmation.target)) + " to confirm"@,
        waiting_text() == "still reading process metadata; retry once it finishes"@,
        capped_text() == "confirmation input is capped at "@ + decimal(256) + " bytes"@,
{
}

/// Taking a character away undoes the last one typed, and nothing is taken from nothing.
pub proof fn law_erasing_undoes_typing(text: Seq<char>, ch: char)
    ensures
        shortened(text.push(ch)) == text,
        shortened(Seq::empty()) == Seq::<char>::empty(),
        text.len() > 0 ==> shortened(text).len() == text.len() - 1,
{
    assert(text.push(ch).drop_last() =~= text);
}

/// What a missing piece of evidence is called.
pub proof fn law_missing_evidence_is_told(confirmed: KillTarget, fresh: KillTarget)
    ensures
        confirmed.pid != fresh.pid ==> evidence_gap(confirmed, fresh)
            == "the confirmed port now belongs to another process"@,
        confirmed.pid == fresh.pid && fresh.process_name is None ==> evidence_gap(confirmed, fresh)
            == "the process name could not be read again"@,
        confirmed.pid == fresh.pid && fresh.process_name is Some ==> evidence_gap(confirmed, fresh)
            == "the process start time could not be read again"@,
{
}

/// The ports of a target are listed in their order, each by its protocol and endpoint.
pub proof fn law_listed_ports(ports: Seq<KillTargetPort>, port: KillTargetPort)
    ensures
        ports.len() == 0 ==> joined_ports(ports.push(port)) == port.protocol.label_text() + " "@
            + endpoint_text(port.local_addr, port.local_port, port.ipv6_scope),
        ports.len() > 0 ==> joined_ports(ports.push(port)) == joined_ports(ports) + ", "@
            + port.protocol.label_text() + " "@ + endpoint_text(
            port.local_addr,
            port.local_port,
            port.ipv6_scope,
        ),
        joined_ports(Seq::empty()) == Seq::<char>::empty(),
{
    assert(ports.push(port).drop_last() == ports);
    if ports.len() == 0 {
        let label = port.protocol.label_text();
        assert(Seq::<char>::empty() + label =~= label);
    }
}

/// A target without ports says so.
pub proof fn law_ports_of_a_target(target: KillTarget)
    ensures
        target.ports.len() == 0 ==> ports_line(target) == "Ports: "@ + sanitized("-"@),
        target.ports.len() > 0 ==> ports_line(target) == "Ports: "@ + sanitized(
            joined_ports(target.ports@),
        ),
        KillMode::Terminate.action_text() == "Terminate"@,
        KillMode::Force.action_text() == "Force kill"@,
{
}

/// A scope is warned about as a whole exactly where it holds a system process or, where
/// owners are known, one of another user; the first comes first.
pub proof fn law_members_are_warned_about(
    nodes: Seq<TreeNode>,
    noun: Seq<char>,
    platform: Platform,
    host: HostFacts,
)
    ensures
        ({
            let lines = member_warning_lines(nodes, noun, platform, host);
            let system = has_system_node(nodes);
            let owner = owner_warning_text(nodes, noun, platform, host);
            &&& lines.len() == (if system {
                1int
            } else {
                0
            }) + (if owner is Some {
                1int
            } else {
                0
            })
            &&& system ==> lines[0] == "Warning: "@ + noun
                + " includes system/service processes; verify this is safe to terminate."@
            &&& owner is Some ==> lines.last() == "Warning: "@ + owner->0 + "."@
        }),
        platform == Platform::Windows ==> owner_warning_text(nodes, noun, platform, host) is None,
        has_system_node(nodes) <==> exists|i: int|
            0 <= i < nodes.len() && (#[trigger] nodes[i]).system_process,
        windows_tree_lines(platform).len() == (if platform == Platform::Windows {
            2nat
        } else {
            0
        }),
{
}

/// The warning about one process of another user says how many there are, which is the first
/// and whose it is.
pub proof fn law_warning_about_a_foreign_process(
    node: TreeNode,
    noun: Seq<char>,
    platform: Platform,
    host: HostFacts,
)
    requires
        platform != Platform::Windows,
        node.owner_uid is Some,
        node.owner_uid->0 != host.user_id,
    ensures
        owner_warning_text(seq![node], noun, platform, host) == Some(
            noun + " includes "@ + decimal(1)
                + " process(es) owned by another uid; first is PID "@ + decimal(node.pid as nat)
                + " owned by uid "@ + decimal(node.owner_uid->0 as nat)
                + ", current effective uid is "@ + decimal(host.user_id as nat),
        ),
{
    let nodes = seq![node];
    assert(nodes.drop_last() == Seq::<TreeNode>::empty());
    assert(nodes.last() == node);
    assert(is_foreign(node, host));
    reveal_with_fuel(crate::banner::first_foreign, 2);
    reveal_with_fuel(crate::banner::foreign_count, 2);
}

/// What is told where a scope cannot be planned, and how the command then ends.
pub proof fn law_unplanned_scopes(pid: u32, limit: usize, port: u16)
    ensures
        plan_text(pid, TreePlanError::RootMissing) == "error: root PID "@ + decimal(pid as nat)
            + " is no longer running; nothing to terminate"@,
        plan_text(pid, TreePlanError::SnapshotLimitExceeded { limit })
            == "error: process snapshot exceeds the bounded "@ + decimal(limit as nat)
            + "-PID index"@,
        plan_reason(TreePlanError::RootMissing) == ExitReason::NoMatch,
        plan_reason(TreePlanError::SnapshotLimitExceeded { limit }) == ExitReason::Failure,
        group_plan_text(pid, GroupPlanError::RootMissing) == plan_text(
            pid,
            TreePlanError::RootMissing,
        ),
        group_plan_text(pid, GroupPlanError::GroupUnavailable) == "error: PID "@ + decimal(
            pid as nat,
        ) + " has no targetable process group; refusing group kill"@,
        group_plan_reason(GroupPlanError::RootMissing) == ExitReason::NoMatch,
        group_plan_reason(GroupPlanError::GroupUnavailable) == ExitReason::Failure,
        ambiguity_text(port) == "error: port "@ + decimal(port as nat)
            + " became ambiguous before termination; refusing to guess. Use --pid with one of:"@,
{
}

/// Keys are ordered by their first difference, and a key comes before what continues it.
pub proof fn law_key_order(a: Seq<u128>, b: Seq<u128>, x: u128, y: u128)
    ensures
        key_le(Seq::empty(), a),
        a.len() > 0 ==> !key_le(a, Seq::empty()),
        x < y ==> key_le(seq![x] + a, seq![y] + b) && !key_le(seq![y] + b, seq![x] + a),
        key_le(seq![x] + a, seq![x] + b) <==> key_le(a, b),
{
    assert((seq![x] + a).drop_first() =~= a);
    assert((seq![x] + b).drop_first() =~= b);
    assert((seq![x] + a)[0] == x);
    assert((seq![y] + b)[0] == y);
    assert((seq![x] + b)[0] == x);
}

/// Sockets with different handles of the system have different keys, as have owner sets of
/// different completeness.
pub proof fn law_handles_are_told_apart(
    a: Option<PlatformSocketToken>,
    b: Option<PlatformSocketToken>,
    x: OwnerCompleteness,
    y: OwnerCompleteness,
)
    ensures
        token_key(a) == token_key(b) ==> a == b,
        token_key(a).len() == 2,
        x is Complete && !(y is Complete) ==> completeness_key(x) != completeness_key(y),
        x is Raced && !(y is Raced) ==> completeness_key(x) != completeness_key(y),
        completeness_key(x).len() == 10,
{
    assert(token_key(a)[0] == token_key(a)[0] && token_key(a)[1] == token_key(a)[1]);
    if token_key(a) == token_key(b) {
        assert(token_key(a)[0] == token_key(b)[0] && token_key(a)[1] == token_key(b)[1]);
    }
    if completeness_key(x) == completeness_key(y) {
        assert(completeness_key(x)[0] == completeness_key(y)[0]);
    }
}

/// A read is that of the first entry of its PID.
pub proof fn law_reads_by_pid(entries: Seq<(u32, ProcessRead)>, read: ProcessRead, pid: u32, other: u32)
    ensures
        read_of(Seq::empty(), pid) is None,
        read_of(seq![(pid, read)] + entries, pid) == Some(read),
        other != pid ==> read_of(seq![(pid, read)] + entries, other) == read_of(entries, other),
{
    let more = seq![(pid, read)] + entries;
    assert(more.drop_first() =~= entries);
    assert(more[0] == (pid, read));
}

/// Owners are counted over all rows, and a PID is named where a row names it.
pub proof fn law_owner_edges(rows: Seq<NativeSocketRow>, row: NativeSocketRow)
    ensures
        owner_edges(Seq::empty()) == 0,
        owner_edges(rows.push(row)) == owner_edges(rows) + row.owner_pids.len(),
        row.owner_pids.len() > 0 ==> names_pid(rows.push(row), row.owner_pids@[0]),
{
    assert(rows.push(row).drop_last() == rows);
    if row.owner_pids.len() > 0 {
        let more = rows.push(row);
        assert(more[rows.len() as int] == row);
        assert(row.owner_pids@.contains(row.owner_pids@[0]));
    }
}

/// Reading is refused exactly where one of the three limits would be passed.
pub proof fn law_read_limits(
    count: nat,
    in_attempt: usize,
    in_all: usize,
    limits: ObservationLimits,
)
    ensures
        !reads_exceed(count, in_attempt, in_all, limits) <==> count <= limits.candidate_pids
            && in_attempt + count <= limits.identity_reads_per_attempt && in_all + count
            <= limits.identity_reads_total,
{
}

/// An attempt ends with a reading of the clock, and is valid exactly where the clock did not
/// go back since it started.
pub proof fn law_attempts_are_timed(
    calls: Seq<SourceCall>,
    started: SystemTime,
    first: CollectedPass,
    second: CollectedPass,
    after: Seq<SourceCall>,
    r: Result<Attempt, ObservationError>,
)
    requires
        attempt_closed(calls, started, first, second, after, r),
    ensures
        after.len() == calls.len() + 1,
        after.last() is WallClock,
        r is Ok ==> r->Ok_0.started == started && r->Ok_0.first == first && r->Ok_0.second == second
            && started.nanos <= r->Ok_0.completed.nanos && after.last() == SourceCall::WallClock(
            Ok(r->Ok_0.completed),
        ),
        r is Err && after.last()->WallClock_0 is Ok ==> r->Err_0
            == ObservationError::InvalidWallClockInterval && after.last()->WallClock_0->Ok_0.nanos
            < started.nanos,
        r is Err && after.last()->WallClock_0 is Err ==> r->Err_0
            == after.last()->WallClock_0->Err_0,
{
}

/// An attempt whose passes agree is the answer. One whose passes do not is made once more,
/// and the second one is the answer whether its passes agree or not.
pub proof fn law_one_more_attempt_after_a_race(
    calls: Seq<SourceCall>,
    first: Result<Attempt, ObservationError>,
    read_in_all: usize,
    scope: ObservationScope,
    profile: MetadataProfile,
    limits: ObservationLimits,
    after: Seq<SourceCall>,
    r: Result<NetworkSnapshot, ObservationError>,
)
    requires
        observation_followed(calls, first, read_in_all, scope, profile, limits, after, r),
    ensures
        first is Err ==> r is Err && r->Err_0 == first->Err_0 && after == calls,
        first is Ok && !first->Ok_0.change.socket_set && !first->Ok_0.change.ownership ==> after
            == calls && (r is Ok ==> r->Ok_0.scope == scope && r->Ok_0.capture_started_at
            == first->Ok_0.started && r->Ok_0.capture_completed_at == first->Ok_0.completed),
        first is Ok && (first->Ok_0.change.socket_set || first->Ok_0.change.ownership)
            ==> exists|read_after: usize, second: Result<Attempt, ObservationError>| #[trigger]
            attempt_made(calls, profile, read_in_all, limits, after, read_after, second) && (second
                is Err ==> r is Err && r->Err_0 == second->Err_0) && (r is Ok ==> second is Ok
                && r->Ok_0.capture_started_at == second->Ok_0.started
                && r->Ok_0.capture_completed_at == second->Ok_0.completed),
{
}

/// A wait that was cancelled looked no further; one that came to its end read a clock that
/// said so; and one that gave up slept every time.
pub proof fn law_waits_end_for_a_reason(
    calls: Seq<RuntimeCall>,
    due: Duration,
    end: Option<Duration>,
    steps: u64,
)
    ensures
        wait_ready(calls, due, end, steps) ==> calls.len() >= 2 && calls.last() is Monotonic
            && due.nanos <= calls.last()->Monotonic_0.nanos && (end is Some ==> calls.last()->Monotonic_0.nanos
            < end->0.nanos),
        wait_over(calls, due, end, steps) ==> calls.last() == RuntimeCall::Cancelled(true) || (
        calls.last() is Monotonic && end is Some && end->0.nanos
            <= calls.last()->Monotonic_0.nanos),
        wait_given_up(calls, due, end, steps) ==> calls.len() == 3 * steps,
{
}

/// Two targets that are the same agree on everything a kill rests on.
pub proof fn law_same_targets(a: KillTarget, b: KillTarget)
    requires
        same_target(a, b),
    ensures
        a.pid == b.pid,
        a.process_start_time_marker == b.process_start_time_marker,
        opt_text(a.process_name) == opt_text(b.process_name),
        a.protected == b.protected,
        a.ports@ == b.ports@,
        a.platform == b.platform,
        a.owner_uid == b.owner_uid,
        a.system_process == b.system_process,
        a.permission == b.permission,
        a.child_count == b.child_count,
        a.children_truncated == b.children_truncated,
{
}

/// A text contains what stands in it, and nothing that is longer than it.
pub proof fn law_contained_texts(before: Seq<char>, needle: Seq<char>, behind: Seq<char>)
    ensures
        contains_text(before + needle + behind, needle),
        needle.len() > before.len() ==> !contains_text(before, needle),
        contains_text(before, Seq::empty()),
{
    let hay = before + needle + behind;
    let at = before.len() as int;
    assert(hay.subrange(at, at + needle.len()) =~= needle);
    assert(before.subrange(0, 0int + Seq::<char>::empty().len()) =~= Seq::<char>::empty());
}

} // verus!
