use std::cell::{Cell, RefCell};

use kickoutchi::address::IpAddr;
use kickoutchi::collector::CollectorError;
use kickoutchi::config::Config;
use kickoutchi::evidence::{EndpointIdentity, EvidenceGapCode, OwnerCompleteness};
use kickoutchi::exit::ExitReason;
use kickoutchi::kill::KillArgs;
use kickoutchi::model::{PermissionStatus, Platform, Protocol, SocketState};
use kickoutchi::observation::{
    NetworkSnapshot, ObservationScope, ObservationScopeKind, OwnerObservation, ProcessIdentity,
    ProcessStartMarker, ProcessTable, SnapshotCompleteness, SocketObservation,
};
use kickoutchi::operations::{
    AsksScope, CollectsTree, KillsScope, KillsTree, PinsRoot, Prepares, ReadsContext, ReadsPorts,
    ReadsTable, Recorded, WatchesPorts,
};
use kickoutchi::ports::{mark_protected, PortEntry, ProcessContext};
use kickoutchi::process::{
    validate_single_delivery_evidence, HostFacts, KillMode, KillTarget, KillTargetPort,
    TerminationOutcome, UnsafePidReason,
};
use kickoutchi::projection::kill_ports_from_snapshot;
use kickoutchi::scoped::{
    confirm_tree_kill, exit_reason_for_tree_outcome, fresh_group_gates, fresh_tree_gates,
    group_confirmation, kill_target_from_tree_info, revalidate_portless_tree_root, run_tree_kill,
    run_tree_kill_with, tree_confirmation, tree_outcome_from_termination, ConfirmedGroupFacts,
    TreeConfirmDecision, TreeConfirmation, TreeSnapshotScope,
};
use kickoutchi::scoped_group::{run_group_kill, run_group_kill_with};
use kickoutchi::sink::{BoundedRecord, IoError};
use kickoutchi::time::{Duration, SystemTime};
use kickoutchi::tree::{
    plan_process_group, plan_process_tree, preflight_outcome, GroupPlanError, ProcessGroupTarget,
    ProcessTreeTarget, ScopeAuthorization, TreeKillOutcome, TreePlanError, TreeProcessInfo,
    GROUP_YES_SKIP_MAX_PROCESSES, MAX_GROUP_PROCESSES, MAX_TREE_PROCESSES,
};
use kickoutchi::windows_report::{
    map_windows_tree_completed_outcome, map_windows_tree_system_failure,
    windows_post_commit_issue_exit_reason, windows_post_commit_issue_text,
    windows_tree_partial_report_text, WindowsTreeCleanupIssue, WindowsTreeKillOutcome,
    WindowsTreeKillReport, WindowsTreePostCommitIssue, WindowsTreeTerminationState,
};
use kickoutchi::windows_tree::{
    run_windows_tree_kill, run_windows_tree_kill_with, windows_fresh_tree_gates,
};

const HOST: HostFacts = HostFacts { own_pid: 77, user_id: 1_000 };

fn entry_with_pid(port: u16, pid: Option<u32>, protocol: Protocol, name: &str) -> PortEntry {
    PortEntry {
        protocol,
        local_addr: IpAddr::v4_localhost(),
        local_port: port,
        state: SocketState::Listen,
        pid,
        process_name: Some(name.to_owned()),
        executable_path: None,
        command_line: None,
        parent_pid: None,
        parent_process_name: None,
        protected: false,
        platform: Platform::Linux,
        permission: if pid.is_some() { PermissionStatus::Full } else { PermissionStatus::Partial },
        process_identity: pid.map(|pid| ProcessIdentity {
            pid,
            start_marker: ProcessStartMarker::linux(55).unwrap(),
        }),
        ipv6_scope: None,
    }
}

fn entry(port: u16) -> PortEntry {
    entry_with_pid(port, Some(18_422), Protocol::Tcp, "node")
}

fn no_context(_pid: u32) -> ProcessContext {
    ProcessContext::empty()
}

fn no_sleep(_span: Duration) {}

/// The surroundings of a scoped kill, one closure for each thing it may ask of them.
struct ScopeTools<N, I, C, Q, P, V, X, S> {
    take_snapshot: N,
    pin_root: I,
    context: C,
    prompt: Q,
    kill_ports: P,
    visibility_ports: V,
    execute: X,
    sleep: S,
}

impl<N, I, C, Q, P, V, X, S> ReadsTable for ScopeTools<N, I, C, Q, P, V, X, S>
where
    N: FnMut(TreeSnapshotScope) -> Result<Vec<TreeProcessInfo>, String>,
{
    fn take_snapshot(&mut self, scope: TreeSnapshotScope) -> Result<Vec<TreeProcessInfo>, String> {
        (self.take_snapshot)(scope)
    }
}

impl<N, I, C, Q, P, V, X, S> PinsRoot for ScopeTools<N, I, C, Q, P, V, X, S>
where
    I: FnMut(u32) -> Result<(), TreeKillOutcome>,
{
    fn pin_root(&mut self, pid: u32) -> Result<(), TreeKillOutcome> {
        (self.pin_root)(pid)
    }
}

impl<N, I, C, Q, P, V, X, S> ReadsContext for ScopeTools<N, I, C, Q, P, V, X, S>
where
    C: FnMut(u32) -> ProcessContext,
{
    fn context(&mut self, pid: u32) -> ProcessContext {
        (self.context)(pid)
    }
}

impl<N, I, C, Q, P, V, X, S> AsksScope for ScopeTools<N, I, C, Q, P, V, X, S>
where
    Q: FnMut(&KillTarget, &ProcessTreeTarget, TreeConfirmation) -> Result<bool, IoError>,
{
    fn scope_prompt(
        &mut self,
        root: &KillTarget,
        members: &ProcessTreeTarget,
        requirement: TreeConfirmation,
    ) -> Result<bool, IoError> {
        (self.prompt)(root, members, requirement)
    }
}

impl<N, I, C, Q, P, V, X, S> ReadsPorts for ScopeTools<N, I, C, Q, P, V, X, S>
where
    P: FnMut() -> Result<Vec<PortEntry>, CollectorError>,
{
    fn kill_ports(&mut self) -> Result<Vec<PortEntry>, CollectorError> {
        (self.kill_ports)()
    }
}

impl<N, I, C, Q, P, V, X, S> WatchesPorts for ScopeTools<N, I, C, Q, P, V, X, S>
where
    V: FnMut() -> Result<Vec<PortEntry>, CollectorError>,
    S: FnMut(Duration),
{
    fn visibility_ports(&mut self) -> Result<Vec<PortEntry>, CollectorError> {
        (self.visibility_ports)()
    }

    fn sleep(&mut self, span: Duration) {
        (self.sleep)(span)
    }
}

impl<N, I, C, Q, P, V, X, S> KillsScope for ScopeTools<N, I, C, Q, P, V, X, S>
where
    X: FnMut(&KillTarget, Option<u32>, KillMode, &Vec<String>, ScopeAuthorization) -> TreeKillOutcome,
{
    fn execute(
        &mut self,
        root: &KillTarget,
        pgid: Option<u32>,
        mode: KillMode,
        protected: &Vec<String>,
        authorization: ScopeAuthorization,
    ) -> TreeKillOutcome {
        (self.execute)(root, pgid, mode, protected, authorization)
    }
}

/// The surroundings of a tree kill on Windows.
struct WindowsTreeTools<N, C, Q, P, V, R, X, S> {
    collect_tree: N,
    context: C,
    prompt: Q,
    kill_ports: P,
    visibility_ports: V,
    prepare_root: R,
    execute: X,
    sleep: S,
}

impl<N, C, Q, P, V, R, X, S> CollectsTree for WindowsTreeTools<N, C, Q, P, V, R, X, S>
where
    N: FnMut() -> Result<Vec<TreeProcessInfo>, CollectorError>,
{
    fn collect_tree(&mut self) -> Result<Vec<TreeProcessInfo>, CollectorError> {
        (self.collect_tree)()
    }
}

impl<N, C, Q, P, V, R, X, S> ReadsContext for WindowsTreeTools<N, C, Q, P, V, R, X, S>
where
    C: FnMut(u32) -> ProcessContext,
{
    fn context(&mut self, pid: u32) -> ProcessContext {
        (self.context)(pid)
    }
}

impl<N, C, Q, P, V, R, X, S> AsksScope for WindowsTreeTools<N, C, Q, P, V, R, X, S>
where
    Q: FnMut(&KillTarget, &ProcessTreeTarget, TreeConfirmation) -> Result<bool, IoError>,
{
    fn scope_prompt(
        &mut self,
        root: &KillTarget,
        members: &ProcessTreeTarget,
        requirement: TreeConfirmation,
    ) -> Result<bool, IoError> {
        (self.prompt)(root, members, requirement)
    }
}

impl<N, C, Q, P, V, R, X, S> ReadsPorts for WindowsTreeTools<N, C, Q, P, V, R, X, S>
where
    P: FnMut() -> Result<Vec<PortEntry>, CollectorError>,
{
    fn kill_ports(&mut self) -> Result<Vec<PortEntry>, CollectorError> {
        (self.kill_ports)()
    }
}

impl<N, C, Q, P, V, R, X, S> WatchesPorts for WindowsTreeTools<N, C, Q, P, V, R, X, S>
where
    V: FnMut() -> Result<Vec<PortEntry>, CollectorError>,
    S: FnMut(Duration),
{
    fn visibility_ports(&mut self) -> Result<Vec<PortEntry>, CollectorError> {
        (self.visibility_ports)()
    }

    fn sleep(&mut self, span: Duration) {
        (self.sleep)(span)
    }
}

impl<H, N, C, Q, P, V, R, X, S> Prepares<H> for WindowsTreeTools<N, C, Q, P, V, R, X, S>
where
    R: FnMut(u32) -> Result<H, TerminationOutcome>,
{
    fn prepare(&mut self, pid: u32) -> Result<H, TerminationOutcome> {
        (self.prepare_root)(pid)
    }
}

impl<N, C, Q, P, V, R, X, S> KillsTree for WindowsTreeTools<N, C, Q, P, V, R, X, S>
where
    X: FnMut(&KillTarget, &Vec<String>, ScopeAuthorization) -> WindowsTreeKillOutcome,
{
    fn execute_tree(
        &mut self,
        root: &KillTarget,
        protected: &Vec<String>,
        authorization: ScopeAuthorization,
    ) -> WindowsTreeKillOutcome {
        (self.execute)(root, protected, authorization)
    }
}

/// Surroundings that only ask.
struct Answers<Q>(Q);

impl<Q> AsksScope for Answers<Q>
where
    Q: FnMut(&KillTarget, &ProcessTreeTarget, TreeConfirmation) -> Result<bool, IoError>,
{
    fn scope_prompt(
        &mut self,
        root: &KillTarget,
        members: &ProcessTreeTarget,
        requirement: TreeConfirmation,
    ) -> Result<bool, IoError> {
        (self.0)(root, members, requirement)
    }
}

fn answers<Q>(prompt: Q) -> Recorded<Answers<Q>, ()> {
    Recorded::new(Answers(prompt))
}

/// Surroundings that are only looked at after a kill.
struct Settling<V>(V);

impl<V> WatchesPorts for Settling<V>
where
    V: FnMut() -> Result<Vec<PortEntry>, CollectorError>,
{
    fn visibility_ports(&mut self) -> Result<Vec<PortEntry>, CollectorError> {
        (self.0)()
    }

    fn sleep(&mut self, span: Duration) {
        no_sleep(span)
    }
}

fn settling<V>(ports: V) -> Recorded<Settling<V>, ()>
where
    V: FnMut() -> Result<Vec<PortEntry>, CollectorError>,
{
    Recorded::new(Settling(ports))
}

fn tree_info(pid: u32, parent_pid: Option<u32>, name: &str) -> TreeProcessInfo {
    TreeProcessInfo {
        pid,
        parent_pid,
        unverified_parent_pid: None,
        parent_process_name: None,
        process_name: Some(name.to_owned()),
        start_time_marker: ProcessStartMarker::linux(u64::from(pid)).ok(),
        owner_uid: None,
        process_group: None,
    }
}

fn tree_info_owned_by_other_uid(pid: u32, parent_pid: Option<u32>, name: &str) -> TreeProcessInfo {
    let mut info = tree_info(pid, parent_pid, name);
    info.owner_uid = Some(HOST.user_id + 1);
    info
}

fn grouped_info(pid: u32, parent_pid: Option<u32>, name: &str, group: u32) -> TreeProcessInfo {
    let mut info = tree_info(pid, parent_pid, name);
    info.process_group = Some(group);
    info
}

fn tree_target(infos: Vec<TreeProcessInfo>, protected_names: &[String]) -> ProcessTreeTarget {
    plan_process_tree(100, &infos, protected_names, Platform::Linux, 256)
        .expect("test tree root must be present")
}

fn group_target(
    infos: Vec<TreeProcessInfo>,
    root_pid: u32,
    protected_names: &[String],
) -> ProcessGroupTarget {
    plan_process_group(root_pid, &infos, protected_names, Platform::Linux, 512)
        .expect("test group root must be present")
}

fn confirm_prompt(
    _target: &KillTarget,
    _members: &ProcessTreeTarget,
    _requirement: TreeConfirmation,
) -> Result<bool, IoError> {
    Ok(true)
}

fn panic_prompt(
    _target: &KillTarget,
    _members: &ProcessTreeTarget,
    _requirement: TreeConfirmation,
) -> Result<bool, IoError> {
    panic!("the prompt must not be reached")
}

fn kill_args(pid: Option<u32>, port: Option<u16>, yes: bool, group: bool) -> KillArgs {
    KillArgs { pid, port, force: false, yes, tree: !group, group }
}

fn protecting(name: &str) -> Config {
    Config { protected_processes: vec![name.to_owned()], ..Config::default() }
}

/// Port 3000 belongs to PID 18422, but may have other owners too.
fn locally_incomplete_kill_snapshot() -> NetworkSnapshot {
    NetworkSnapshot {
        scope: ObservationScope::new(ObservationScopeKind::CurrentNetworkNamespace, None, &[])
            .unwrap(),
        capture_started_at: SystemTime::from_unix_millis(1),
        capture_completed_at: SystemTime::from_unix_millis(2),
        completeness: SnapshotCompleteness::Complete,
        owner_completeness: OwnerCompleteness::Complete,
        sockets: vec![SocketObservation {
            local_endpoint: EndpointIdentity::new(
                Protocol::Tcp,
                IpAddr::v4_localhost(),
                3000,
                None,
            )
            .unwrap(),
            state: SocketState::Listen,
            timer: None,
            socket_token: None,
            owners: vec![OwnerObservation::Verified(ProcessIdentity {
                pid: 18_422,
                start_marker: ProcessStartMarker::linux(55).unwrap(),
            })],
            owner_completeness: OwnerCompleteness::partial(&[
                EvidenceGapCode::OwnerAttributionIncomplete,
            ])
            .unwrap(),
        }],
        processes: ProcessTable::empty(),
        evidence_gaps: Vec::new(),
        omitted_evidence_gap_count: 0,
    }
}

/// What a scoped kill did to the outside, in order.
#[derive(Debug, Clone, PartialEq, Eq)]
enum Event {
    Pin(u32),
    CollectPorts,
    Visibility,
    Prompt(usize),
    Execute(u32, Option<u32>),
}

/// Run a tree or group kill on Linux and record what it did.
fn run_scope(
    args: &KillArgs,
    config: &Config,
    rows: Vec<PortEntry>,
    snapshots: Vec<Vec<TreeProcessInfo>>,
    fresh: impl Fn() -> Result<Vec<PortEntry>, CollectorError>,
) -> (ExitReason, Vec<Event>, String) {
    let events = RefCell::new(Vec::new());
    let looks = Cell::new(0usize);
    let mut diagnostics = BoundedRecord::new();
    let mut tools = Recorded::<_, ()>::new(ScopeTools {
        take_snapshot: |_scope: TreeSnapshotScope| -> Result<Vec<TreeProcessInfo>, String> {
            let at = looks.get().min(snapshots.len().saturating_sub(1));
            looks.set(looks.get() + 1);
            Ok(snapshots.get(at).cloned().unwrap_or_default())
        },
        pin_root: |pid: u32| -> Result<(), TreeKillOutcome> {
            events.borrow_mut().push(Event::Pin(pid));
            Ok(())
        },
        context: no_context,
        prompt: |_target: &KillTarget,
                 members: &ProcessTreeTarget,
                 _requirement: TreeConfirmation|
         -> Result<bool, IoError> {
            events.borrow_mut().push(Event::Prompt(members.len()));
            Ok(true)
        },
        kill_ports: || {
            events.borrow_mut().push(Event::CollectPorts);
            fresh()
        },
        visibility_ports: || {
            events.borrow_mut().push(Event::Visibility);
            Ok(Vec::new())
        },
        execute: |root: &KillTarget,
                  pgid: Option<u32>,
                  _mode: KillMode,
                  _names: &Vec<String>,
                  _authorization: ScopeAuthorization|
         -> TreeKillOutcome {
            events.borrow_mut().push(Event::Execute(root.pid, pgid));
            TreeKillOutcome::Completed { signalled: 1 }
        },
        sleep: no_sleep,
    });
    let reason = if args.group {
        run_group_kill(args, config, &rows, Platform::Linux, HOST, &mut tools, &mut diagnostics)
    } else {
        run_tree_kill(args, config, &rows, Platform::Linux, HOST, &mut tools, &mut diagnostics)
    };
    let told = String::from_utf8(diagnostics.bytes).unwrap();
    let seen = events.borrow().clone();
    (reason, seen, told)
}

fn executed(events: &[Event]) -> bool {
    events.iter().any(|event| matches!(event, Event::Execute(..)))
}

fn target(pid: u32, name: &str, platform: Platform, ports: Vec<KillTargetPort>) -> KillTarget {
    KillTarget {
        pid,
        process_name: Some(name.to_owned()),
        platform,
        permission: PermissionStatus::Full,
        protected: false,
        system_process: false,
        ports,
        owner_uid: None,
        process_start_time_marker: ProcessStartMarker::windows(u64::from(pid)).ok(),
        child_count: 0,
        children_truncated: false,
    }
}

#[test]
fn already_exited_single_outcome_maps_to_root_already_exited() {
    let confirmed = KillTarget {
        pid: 18_422,
        process_name: Some("node".to_owned()),
        platform: Platform::Linux,
        permission: PermissionStatus::Full,
        protected: false,
        system_process: false,
        ports: Vec::new(),
        owner_uid: Some(1_000),
        process_start_time_marker: None,
        child_count: 0,
        children_truncated: false,
    };

    let refusal = tree_outcome_from_termination(&confirmed, TerminationOutcome::AlreadyExited);
    assert_eq!(refusal, TreeKillOutcome::RootAlreadyExited);
    assert_eq!(
        WindowsTreeKillOutcome::from_precommit_outcome(refusal),
        WindowsTreeKillOutcome::Refused(TreeKillOutcome::RootAlreadyExited),
    );
}

#[test]
fn every_single_outcome_has_a_scoped_one() {
    let confirmed = target(100, "node", Platform::Linux, Vec::new());
    let told = |outcome| tree_outcome_from_termination(&confirmed, outcome);

    assert_eq!(
        told(TerminationOutcome::ProtectedProcess),
        TreeKillOutcome::ProtectedRoot { pid: 100, name: Some("node".to_owned()) }
    );
    assert_eq!(
        told(TerminationOutcome::UnsafePid(UnsafePidReason::One)),
        TreeKillOutcome::UnsafePid { pid: 100, reason: UnsafePidReason::One }
    );
    assert_eq!(
        told(TerminationOutcome::OwnershipUnavailable),
        TreeKillOutcome::OwnershipUnavailable { pid: 100 }
    );
    assert_eq!(
        told(TerminationOutcome::Cancelled),
        TreeKillOutcome::TargetChanged { pid: 100 }
    );
    assert_eq!(
        told(TerminationOutcome::PermissionDenied),
        TreeKillOutcome::PermissionDenied { pid: 100 }
    );
    assert_eq!(
        told(TerminationOutcome::UnknownFailure("odd".to_owned())),
        TreeKillOutcome::SnapshotFailed("odd".to_owned())
    );
    assert_eq!(
        told(TerminationOutcome::ThawFailed {
            pid: 101,
            prior: Box::new(TerminationOutcome::TargetChanged),
        }),
        TreeKillOutcome::ThawFailed {
            pids: vec![101],
            cause: Box::new(TreeKillOutcome::TargetChanged { pid: 100 }),
        }
    );
}

#[test]
fn scoped_exit_reasons_tell_refusals_apart() {
    let reason = |outcome| exit_reason_for_tree_outcome(&outcome);

    assert_eq!(reason(TreeKillOutcome::Completed { signalled: 2 }), ExitReason::Success);
    assert_eq!(
        reason(TreeKillOutcome::ProtectedDescendant { pid: 1, name: None }),
        ExitReason::ProtectedNeedsConfirmation
    );
    assert_eq!(
        reason(TreeKillOutcome::ProtectedRoot { pid: 1, name: None }),
        ExitReason::ProtectedNeedsConfirmation
    );
    assert_eq!(
        reason(TreeKillOutcome::OwnershipUnavailable { pid: 1 }),
        ExitReason::PermissionDenied
    );
    assert_eq!(reason(TreeKillOutcome::PermissionDenied { pid: 1 }), ExitReason::PermissionDenied);
    assert_eq!(reason(TreeKillOutcome::RootAlreadyExited), ExitReason::NoMatch);
    assert_eq!(reason(TreeKillOutcome::Truncated { limit: 256 }), ExitReason::Failure);
    assert_eq!(reason(TreeKillOutcome::FreshConfirmationRequired), ExitReason::Failure);
}

fn windows_tools_reason(
    args: &KillArgs,
    process_snapshot: Vec<TreeProcessInfo>,
    context: impl Fn() -> ProcessContext,
    prepared: Result<u32, TerminationOutcome>,
    fresh: impl Fn() -> Result<Vec<PortEntry>, CollectorError>,
    events: &RefCell<Vec<&'static str>>,
    mode: Option<KillMode>,
) -> ExitReason {
    let mut diagnostics = BoundedRecord::new();
    let prepared = RefCell::new(Some(prepared));
    let mut tools = Recorded::new(WindowsTreeTools {
        collect_tree: || Ok(process_snapshot.clone()),
        context: |_pid: u32| context(),
        prompt: confirm_prompt,
        kill_ports: || {
            events.borrow_mut().push("collect");
            fresh()
        },
        visibility_ports: || {
            events.borrow_mut().push("visibility");
            Ok(Vec::new())
        },
        prepare_root: |pid: u32| -> Result<u32, TerminationOutcome> {
            assert_eq!(pid, 18_422);
            events.borrow_mut().push("prepare");
            prepared.borrow_mut().take().unwrap()
        },
        execute: |_root: &KillTarget,
                  _names: &Vec<String>,
                  _authorization: ScopeAuthorization|
         -> WindowsTreeKillOutcome {
            events.borrow_mut().push("commit");
            WindowsTreeKillOutcome::Completed(clean_report(1))
        },
        sleep: no_sleep,
    });
    match mode {
        Some(mode) => run_windows_tree_kill_with(
            args,
            &Config::default(),
            &vec![entry(3000)],
            Platform::Windows,
            HOST,
            mode,
            &mut tools,
            &mut diagnostics,
        ),
        None => run_windows_tree_kill(
            args,
            &Config::default(),
            &vec![entry(3000)],
            Platform::Windows,
            HOST,
            &mut tools,
            &mut diagnostics,
        ),
    }
}

fn windows_info(name: &str) -> TreeProcessInfo {
    let mut info = tree_info(18_422, Some(500), name);
    info.start_time_marker = ProcessStartMarker::windows(55).ok();
    info
}

fn clean_report(total: usize) -> WindowsTreeKillReport {
    WindowsTreeKillReport {
        total,
        job_terminated_pids: vec![100],
        already_exited_pids: Vec::new(),
        not_terminated: Vec::new(),
        termination_state: WindowsTreeTerminationState::Complete,
        post_commit_issue: None,
        secondary_post_commit_issue: None,
        cleanup_issue: None,
    }
}

#[test]
fn windows_tree_authority_refusal_precedes_job_assignment() {
    let snapshot = locally_incomplete_kill_snapshot();
    let events = RefCell::new(Vec::new());

    let reason = windows_tools_reason(
        &kill_args(Some(18_422), None, false, false),
        vec![windows_info("node.exe")],
        ProcessContext::empty,
        Err(TerminationOutcome::Cancelled),
        || kill_ports_from_snapshot(&snapshot, Some(18_422), None),
        &events,
        Some(KillMode::Terminate),
    );

    assert_eq!(reason, ExitReason::Failure);
    // A PID root is not prepared, and nothing is committed or polled.
    assert_eq!(*events.borrow(), ["collect"]);
}

#[test]
fn windows_port_tree_root_exit_during_preparation_is_no_match() {
    let events = RefCell::new(Vec::new());

    let reason = windows_tools_reason(
        &kill_args(None, Some(3000), true, false),
        vec![windows_info("node")],
        ProcessContext::empty,
        Err(TerminationOutcome::AlreadyExited),
        || panic!("root preparation refusal must precede final endpoint collection"),
        &events,
        Some(KillMode::Terminate),
    );

    assert_eq!(reason, ExitReason::NoMatch);
    assert_eq!(*events.borrow(), ["prepare", "visibility"]);
}

#[test]
fn windows_port_owner_move_after_root_prepare_never_commits_job() {
    let events = RefCell::new(Vec::new());

    let reason = windows_tools_reason(
        &kill_args(None, Some(3000), true, false),
        vec![windows_info("node")],
        || {
            let mut context = ProcessContext::empty();
            context.process_start_time_marker = ProcessStartMarker::windows(55).ok();
            context
        },
        Ok(18_422),
        || Ok(vec![entry_with_pid(3000, Some(29_999), Protocol::Tcp, "replacement")]),
        &events,
        Some(KillMode::Terminate),
    );

    assert_eq!(reason, ExitReason::Failure);
    assert_eq!(*events.borrow(), ["prepare", "collect"]);
}

#[test]
fn windows_tree_kill_commits_a_root_that_is_found_again() {
    let events = RefCell::new(Vec::new());

    let reason = windows_tools_reason(
        &kill_args(None, Some(3000), true, false),
        vec![windows_info("node")],
        ProcessContext::empty,
        Ok(18_422),
        || Ok(vec![entry(3000)]),
        &events,
        None,
    );

    assert_eq!(reason, ExitReason::Success);
    assert_eq!(*events.borrow(), ["prepare", "collect", "commit", "visibility"]);
}

#[test]
fn windows_gates_ask_for_every_name_and_start() {
    let root = target(100, "node.exe", Platform::Windows, Vec::new());
    let mut child = tree_info(101, Some(100), "worker.exe");
    let whole = vec![tree_info(100, Some(500), "node.exe"), child.clone()];
    child.start_time_marker = None;
    let holed = vec![tree_info(100, Some(500), "node.exe"), child];

    assert_eq!(
        windows_fresh_tree_gates(
            &root,
            &whole,
            &Config::default(),
            ScopeAuthorization::TypedWordConfirmed,
            HOST
        ),
        Ok(())
    );
    assert_eq!(
        windows_fresh_tree_gates(
            &root,
            &holed,
            &Config::default(),
            ScopeAuthorization::TypedWordConfirmed,
            HOST
        ),
        Err(WindowsTreeKillOutcome::Refused(TreeKillOutcome::PartialMetadata { pid: 101 }))
    );
}

#[test]
fn windows_post_commit_protected_issue_exits_with_protected_code() {
    let root = target(100, "node.exe", Platform::Windows, Vec::new());
    let report = WindowsTreeKillReport {
        total: 1,
        job_terminated_pids: vec![100],
        already_exited_pids: Vec::new(),
        not_terminated: vec![101],
        termination_state: WindowsTreeTerminationState::Partial,
        post_commit_issue: Some(WindowsTreePostCommitIssue::ProtectedDescendant {
            pid: 101,
            name: Some("lsass.exe".to_owned()),
        }),
        secondary_post_commit_issue: Some(WindowsTreePostCommitIssue::SnapshotFailed(
            "freezing committed Job Object failed: freeze failed".to_owned(),
        )),
        cleanup_issue: Some(WindowsTreeCleanupIssue::WithheldJobThawFailed(
            "thaw failed".to_owned(),
        )),
    };
    let mut diagnostics = BoundedRecord::new();

    let reason = map_windows_tree_completed_outcome(
        &root,
        &report,
        &mut settling(|| Ok(Vec::new())),
        &mut diagnostics,
    );

    assert_eq!(reason, ExitReason::ProtectedNeedsConfirmation);
}

#[test]
fn windows_post_commit_warning_refusal_is_visible_and_fails() {
    let issue = WindowsTreePostCommitIssue::FreshConfirmationRequired;

    let text = windows_post_commit_issue_text(&issue);
    let reason = windows_post_commit_issue_exit_reason(&issue);

    assert!(text.contains("gained warnings after --yes"));
    assert_eq!(reason, ExitReason::Failure);
}

#[test]
fn windows_post_commit_protected_root_requires_confirmation() {
    let issue = WindowsTreePostCommitIssue::ProtectedRoot {
        pid: 100,
        name: Some("lsass.exe".to_owned()),
    };

    let text = windows_post_commit_issue_text(&issue);
    let reason = windows_post_commit_issue_exit_reason(&issue);

    assert!(text.contains("root PID 100"));
    assert_eq!(reason, ExitReason::ProtectedNeedsConfirmation);
}

fn port_3000() -> Vec<KillTargetPort> {
    vec![KillTargetPort {
        protocol: Protocol::Tcp,
        local_addr: IpAddr::v4_localhost(),
        local_port: 3000,
        ipv6_scope: None,
    }]
}

#[test]
fn windows_tree_success_polls_post_kill_visibility() {
    let root = target(100, "node.exe", Platform::Windows, port_3000());
    let mut visibility_polls = 0;
    let mut diagnostics = BoundedRecord::new();

    let reason = map_windows_tree_completed_outcome(
        &root,
        &clean_report(1),
        &mut settling(|| {
            visibility_polls += 1;
            Ok(Vec::new())
        }),
        &mut diagnostics,
    );

    assert_eq!(reason, ExitReason::Success);
    assert_eq!(visibility_polls, 1);
}

#[test]
fn windows_partial_report_names_every_outcome_pid() {
    let root = target(100, "node.exe", Platform::Windows, Vec::new());
    let report = WindowsTreeKillReport {
        total: 3,
        job_terminated_pids: Vec::new(),
        already_exited_pids: vec![102],
        not_terminated: vec![100, 103],
        termination_state: WindowsTreeTerminationState::Withheld,
        post_commit_issue: Some(WindowsTreePostCommitIssue::ProtectedDescendant {
            pid: 103,
            name: Some("lsass.exe".to_owned()),
        }),
        secondary_post_commit_issue: Some(WindowsTreePostCommitIssue::SnapshotFailed(
            "freezing committed Job Object failed: freeze failed".to_owned(),
        )),
        cleanup_issue: Some(WindowsTreeCleanupIssue::WithheldJobThawFailed(
            "thaw failed".to_owned(),
        )),
    };

    let text = windows_tree_partial_report_text(&root, &report);

    assert!(text.contains("job-terminated 0 of 3"), "{text}");
    assert!(text.contains("already exited (PIDs: 102)"), "{text}");
    assert!(text.contains("not confirmed terminated: 100, 103"), "{text}");
    assert!(text.contains("protected descendant PID 103 (lsass.exe)"), "{text}");
    assert!(
        text.contains("secondary post-commit issue: enumerating the Windows process tree failed after commit: freezing committed Job Object failed: freeze failed"),
        "{text}"
    );
    assert!(text.contains("strict tree closure could not be established"), "{text}");
    assert!(
        text.contains("cleanup issue: thawing the withheld Windows Job Object failed: thaw failed"),
        "{text}"
    );
}

#[test]
fn failed_windows_job_mapping_prints_partial_report_and_refreshes_ports() {
    let root = target(100, "node.exe", Platform::Windows, port_3000());
    let outcome = WindowsTreeKillOutcome::JobTerminateFailed {
        error: "job failed".to_owned(),
        report: Box::new(WindowsTreeKillReport {
            total: 2,
            job_terminated_pids: Vec::new(),
            already_exited_pids: vec![102],
            not_terminated: vec![100],
            termination_state: WindowsTreeTerminationState::Partial,
            post_commit_issue: None,
            secondary_post_commit_issue: None,
            cleanup_issue: Some(WindowsTreeCleanupIssue::FailedTerminationThawFailed(
                "thaw failed".to_owned(),
            )),
        }),
    };
    let mut refreshes = 0;
    let mut stderr = BoundedRecord::new();

    let reason = map_windows_tree_system_failure(
        &root,
        &outcome,
        &mut settling(|| {
            refreshes += 1;
            Ok(Vec::new())
        }),
        &mut stderr,
    );
    let text = String::from_utf8(stderr.bytes).expect("diagnostic must be UTF-8");

    assert_eq!(reason, ExitReason::Failure);
    assert_eq!(refreshes, 1);
    assert!(text.contains("TerminateJobObject failed: job failed"), "{text}");
    assert!(text.contains("already exited (PIDs: 102)"), "{text}");
    assert!(text.contains("not confirmed terminated: 100"), "{text}");
    assert!(
        text.contains("cleanup issue: thawing the Windows Job Object after TerminateJobObject failed: thaw failed"),
        "{text}"
    );
    assert!(text.contains("confirmed target ports are no longer visible"), "{text}");
}

#[test]
fn tree_kill_of_missing_pid_reports_no_match_without_touching_processes() {
    let (reason, events, _) = run_scope(
        &kill_args(Some(4_242), None, false, false),
        &Config::default(),
        Vec::new(),
        vec![Vec::new()],
        || panic!("unresolved root must not re-collect ports"),
    );

    assert_eq!(reason, ExitReason::NoMatch);
    assert!(events.is_empty(), "{events:?}");
}

#[test]
fn tree_confirmation_gates_yes_and_protected_roots() {
    let clean = tree_target(vec![tree_info(100, Some(500), "node")], &[]);
    let clean_root =
        kill_target_from_tree_info(&tree_info(100, Some(500), "node"), &[], Platform::Linux);
    assert_eq!(
        tree_confirmation(&clean_root, &clean, KillMode::Terminate, true, HOST),
        TreeConfirmDecision::Skip,
    );
    assert_eq!(
        tree_confirmation(&clean_root, &clean, KillMode::Terminate, false, HOST),
        TreeConfirmDecision::PromptWord("tree"),
    );
    assert_eq!(
        tree_confirmation(&clean_root, &clean, KillMode::Force, false, HOST),
        TreeConfirmDecision::PromptWord("force"),
    );

    let with_system = tree_target(
        vec![tree_info(100, Some(500), "node"), tree_info(101, Some(100), "systemd")],
        &[],
    );
    assert_eq!(
        tree_confirmation(&clean_root, &with_system, KillMode::Terminate, true, HOST),
        TreeConfirmDecision::PromptWord("tree"),
    );

    let with_other_uid = tree_target(
        vec![
            tree_info(100, Some(500), "node"),
            tree_info_owned_by_other_uid(101, Some(100), "worker"),
        ],
        &[],
    );
    assert_eq!(
        tree_confirmation(&clean_root, &with_other_uid, KillMode::Terminate, true, HOST),
        TreeConfirmDecision::PromptWord("tree"),
    );

    let names = ["postgres".to_owned()];
    let protected_root = tree_target(vec![tree_info(100, Some(500), "postgres")], &names);
    let protected_root_target = kill_target_from_tree_info(
        &tree_info(100, Some(500), "postgres"),
        &names,
        Platform::Linux,
    );
    assert_eq!(
        tree_confirmation(
            &protected_root_target,
            &protected_root,
            KillMode::Terminate,
            true,
            HOST
        ),
        TreeConfirmDecision::RefuseProtectedYes,
    );
    assert_eq!(
        tree_confirmation(
            &protected_root_target,
            &protected_root,
            KillMode::Terminate,
            false,
            HOST
        ),
        TreeConfirmDecision::PromptProtectedThenWord("tree"),
    );
}

#[test]
fn completed_tree_confirmation_returns_exact_authorization() {
    let mut diagnostics = BoundedRecord::new();
    let clean = tree_target(vec![tree_info(100, Some(500), "node")], &[]);
    let clean_root =
        kill_target_from_tree_info(&tree_info(100, Some(500), "node"), &[], Platform::Linux);
    assert_eq!(
        confirm_tree_kill(
            &clean_root,
            &clean,
            KillMode::Terminate,
            true,
            HOST,
            &mut answers(panic_prompt),
            &mut diagnostics,
        )
        .expect("all-clear --yes skips the prompt"),
        ScopeAuthorization::SkippedAllClear,
    );
    assert_eq!(
        confirm_tree_kill(
            &clean_root,
            &clean,
            KillMode::Terminate,
            false,
            HOST,
            &mut answers(confirm_prompt),
            &mut diagnostics,
        )
        .expect("typed scope word confirms an unprotected tree"),
        ScopeAuthorization::TypedWordConfirmed,
    );

    let names = ["postgres".to_owned()];
    let protected = tree_target(vec![tree_info(100, Some(500), "postgres")], &names);
    let protected_root = kill_target_from_tree_info(
        &tree_info(100, Some(500), "postgres"),
        &names,
        Platform::Linux,
    );
    assert_eq!(
        confirm_tree_kill(
            &protected_root,
            &protected,
            KillMode::Terminate,
            false,
            HOST,
            &mut answers(confirm_prompt),
            &mut diagnostics,
        )
        .expect("protected identity and scope word confirm the tree"),
        ScopeAuthorization::ProtectedRootAndWordConfirmed,
    );
}

#[test]
fn port_selected_tree_pins_old_root_before_endpoint_move_and_sends_no_signal() {
    let (reason, events, _) = run_scope(
        &kill_args(None, Some(3000), false, false),
        &Config::default(),
        vec![entry(3000)],
        vec![vec![tree_info(18_422, Some(500), "node")]],
        || Ok(vec![entry_with_pid(3000, Some(29_999), Protocol::Tcp, "replacement")]),
    );

    assert_eq!(reason, ExitReason::Failure);
    assert_eq!(
        events,
        [Event::Prompt(1), Event::Pin(18_422), Event::CollectPorts],
        "the old root handle must be prepared before final endpoint ownership collection",
    );
}

#[test]
fn tree_losing_readable_owner_during_revalidation_exits_permission_denied() {
    let (reason, events, _) = run_scope(
        &kill_args(Some(18_422), None, false, false),
        &Config::default(),
        vec![entry(3000)],
        vec![vec![tree_info(18_422, Some(500), "node")]],
        || Ok(vec![entry_with_pid(3000, None, Protocol::Tcp, "hidden")]),
    );

    assert_eq!(reason, ExitReason::PermissionDenied);
    assert_eq!(events, [Event::Prompt(1), Event::Pin(18_422), Event::CollectPorts]);
}

#[test]
fn tree_authority_refusal_has_zero_stop_or_delivery() {
    let snapshot = locally_incomplete_kill_snapshot();
    let (reason, events, _) = run_scope(
        &kill_args(Some(18_422), None, false, false),
        &Config::default(),
        vec![entry(3000)],
        vec![vec![tree_info(18_422, Some(500), "node")]],
        || kill_ports_from_snapshot(&snapshot, Some(18_422), None),
    );

    assert_eq!(reason, ExitReason::Failure);
    assert!(!executed(&events));
    assert!(!events.contains(&Event::Visibility), "refusal must not visibility-poll ports");
}

#[test]
fn fresh_tree_warning_after_yes_skip_refuses_before_any_stop() {
    let clean = vec![tree_info(18_422, Some(500), "node")];
    let mut nameless = tree_info(18_423, Some(18_422), "worker");
    nameless.process_name = None;
    let warned = vec![tree_info(18_422, Some(500), "node"), nameless];

    let (reason, events, _) = run_scope(
        &kill_args(Some(18_422), None, true, false),
        &Config::default(),
        Vec::new(),
        vec![clean, warned],
        || panic!("portless tree root must not re-collect ports"),
    );

    assert_eq!(reason, ExitReason::Failure);
    assert_eq!(events, [Event::Pin(18_422)], "refusal must precede any stop");
}

#[test]
fn protected_tree_descendant_refuses_before_prompt_or_stop_even_with_yes() {
    let (reason, events, _) = run_scope(
        &kill_args(Some(18_422), None, true, false),
        &protecting("postgres"),
        vec![entry(3000)],
        vec![vec![
            tree_info(18_422, Some(500), "node"),
            tree_info(18_423, Some(18_422), "postgres"),
        ]],
        || panic!("protected descendant must not re-collect ports"),
    );

    assert_eq!(reason, ExitReason::ProtectedNeedsConfirmation);
    assert!(events.is_empty(), "{events:?}");
}

fn nameless_row(port: u16, pid: u32) -> PortEntry {
    let mut row = entry_with_pid(port, Some(pid), Protocol::Tcp, "unused");
    row.process_name = None;
    row.permission = PermissionStatus::Partial;
    row
}

#[test]
fn root_turning_protected_between_confirmation_and_freeze_refuses_with_exit_6() {
    let confirmation_snapshot = vec![tree_info(18_422, Some(500), "node")];
    let execed_snapshot = vec![tree_info(18_422, Some(500), "postgres")];

    let (reason, events, _) = run_scope(
        &kill_args(Some(18_422), None, false, false),
        &protecting("postgres"),
        vec![nameless_row(3000, 18_422)],
        vec![confirmation_snapshot, execed_snapshot],
        || Ok(vec![nameless_row(3000, 18_422)]),
    );

    assert_eq!(reason, ExitReason::ProtectedNeedsConfirmation);
    assert!(!executed(&events), "refusal must precede any stop");
}

#[test]
fn completed_protected_confirmation_passes_the_root_protection_gate() {
    let names = ["postgres".to_owned()];
    let marked = || {
        let mut rows = vec![entry_with_pid(3000, Some(18_422), Protocol::Tcp, "postgres")];
        mark_protected(&mut rows, &names);
        rows
    };
    let mut info = tree_info(18_422, Some(500), "postgres");
    info.start_time_marker = ProcessStartMarker::linux(55).ok();

    let (reason, events, _) = run_scope(
        &kill_args(Some(18_422), None, false, false),
        &protecting("postgres"),
        marked(),
        vec![vec![info]],
        || Ok(marked()),
    );

    assert_eq!(reason, ExitReason::Success);
    assert_eq!(
        events,
        [
            Event::Prompt(1),
            Event::Prompt(1),
            Event::Pin(18_422),
            Event::CollectPorts,
            Event::Execute(18_422, None),
            Event::Visibility,
        ],
        "a protected root asks for PID or name and the word",
    );
}

#[test]
fn group_confirmation_gates_yes_by_size_warnings_and_protection() {
    let root = kill_target_from_tree_info(
        &grouped_info(100, Some(500), "node", 42),
        &[],
        Platform::Linux,
    );

    let tiny = group_target(vec![grouped_info(100, Some(500), "node", 42)], 100, &[]);
    assert_eq!(
        group_confirmation(&root, &tiny, KillMode::Terminate, true, HOST),
        TreeConfirmDecision::Skip,
    );
    assert_eq!(
        group_confirmation(&root, &tiny, KillMode::Terminate, false, HOST),
        TreeConfirmDecision::PromptWord("group"),
    );
    assert_eq!(
        group_confirmation(&root, &tiny, KillMode::Force, false, HOST),
        TreeConfirmDecision::PromptWord("force"),
    );

    let mut big_infos = vec![grouped_info(100, Some(500), "node", 42)];
    for pid in 0..u32::try_from(GROUP_YES_SKIP_MAX_PROCESSES).expect("cap fits u32") {
        big_infos.push(grouped_info(9_000 + pid, Some(500), "worker", 42));
    }
    let big = group_target(big_infos, 100, &[]);
    assert!(big.members().len() > GROUP_YES_SKIP_MAX_PROCESSES);
    assert_eq!(
        group_confirmation(&root, &big, KillMode::Terminate, true, HOST),
        TreeConfirmDecision::PromptWord("group"),
    );

    let with_system = group_target(
        vec![
            grouped_info(100, Some(500), "node", 42),
            grouped_info(101, Some(1), "systemd", 42),
        ],
        100,
        &[],
    );
    assert_eq!(
        group_confirmation(&root, &with_system, KillMode::Terminate, true, HOST),
        TreeConfirmDecision::PromptWord("group"),
    );

    let mut foreign = tree_info_owned_by_other_uid(101, Some(500), "worker");
    foreign.process_group = Some(42);
    let with_other_uid =
        group_target(vec![grouped_info(100, Some(500), "node", 42), foreign], 100, &[]);
    assert_eq!(
        group_confirmation(&root, &with_other_uid, KillMode::Terminate, true, HOST),
        TreeConfirmDecision::PromptWord("group"),
    );

    let protected_names = vec!["postgres".to_owned()];
    let protected_root_target = kill_target_from_tree_info(
        &grouped_info(100, Some(500), "postgres", 42),
        &protected_names,
        Platform::Linux,
    );
    let protected = group_target(
        vec![grouped_info(100, Some(500), "postgres", 42)],
        100,
        &protected_names,
    );
    assert_eq!(
        group_confirmation(&protected_root_target, &protected, KillMode::Terminate, true, HOST),
        TreeConfirmDecision::RefuseProtectedYes,
    );
    assert_eq!(
        group_confirmation(&protected_root_target, &protected, KillMode::Terminate, false, HOST),
        TreeConfirmDecision::PromptProtectedThenWord("group"),
    );
}

#[test]
fn group_kill_refuses_kernel_domain_roots_without_touching_processes() {
    let (reason, events, told) = run_scope(
        &kill_args(Some(18_422), None, false, true),
        &Config::default(),
        Vec::new(),
        vec![vec![tree_info(18_422, Some(500), "node")]],
        || panic!("untargetable group must not re-collect ports"),
    );

    assert_eq!(reason, ExitReason::Failure);
    assert!(events.is_empty(), "{events:?}");
    assert!(told.contains("PID 18422 has no targetable process group"), "{told}");
}

#[test]
fn group_losing_readable_owner_during_revalidation_exits_permission_denied() {
    let (reason, events, _) = run_scope(
        &kill_args(Some(18_422), None, false, true),
        &Config::default(),
        vec![entry(3000)],
        vec![vec![grouped_info(18_422, Some(500), "node", 42)]],
        || Ok(vec![entry_with_pid(3000, None, Protocol::Tcp, "hidden")]),
    );

    assert_eq!(reason, ExitReason::PermissionDenied);
    assert_eq!(events, [Event::Prompt(1), Event::Pin(18_422), Event::CollectPorts]);
}

#[test]
fn port_selected_group_success_separates_authority_from_visibility_polling() {
    let mut root = grouped_info(18_422, Some(500), "node", 42);
    root.start_time_marker = ProcessStartMarker::linux(55).ok();

    let (reason, events, told) = run_scope(
        &kill_args(None, Some(3000), false, true),
        &Config::default(),
        vec![entry(3000)],
        vec![vec![root, grouped_info(17_000, Some(1), "orphan", 42)]],
        || Ok(vec![entry(3000)]),
    );

    assert_eq!(reason, ExitReason::Success);
    assert_eq!(
        events,
        [
            Event::Prompt(2),
            Event::Pin(18_422),
            Event::CollectPorts,
            Event::Execute(18_422, Some(42)),
            Event::Visibility,
        ],
        "the prompt names the full count, and an unprotected group asks for the word once",
    );
    assert!(told.contains("confirmed target ports are no longer visible"), "{told}");
}

#[test]
fn scoped_modes_can_be_given() {
    let mut diagnostics = BoundedRecord::new();
    let delivered = Cell::new(None);
    let snapshot = vec![grouped_info(18_422, Some(500), "node", 42)];
    let mut tools = Recorded::<_, ()>::new(ScopeTools {
        take_snapshot: |_scope: TreeSnapshotScope| -> Result<Vec<TreeProcessInfo>, String> {
            Ok(snapshot.clone())
        },
        pin_root: |_pid: u32| -> Result<(), TreeKillOutcome> { Ok(()) },
        context: no_context,
        prompt: confirm_prompt,
        kill_ports: || Ok(Vec::new()),
        visibility_ports: || Ok(Vec::new()),
        execute: |_root: &KillTarget,
                  pgid: Option<u32>,
                  mode: KillMode,
                  _names: &Vec<String>,
                  _authorization: ScopeAuthorization|
         -> TreeKillOutcome {
            delivered.set(Some((pgid, mode)));
            TreeKillOutcome::Completed { signalled: 1 }
        },
        sleep: no_sleep,
    });

    let tree = run_tree_kill_with(
        &kill_args(Some(18_422), None, false, false),
        &Config::default(),
        &Vec::new(),
        Platform::Linux,
        HOST,
        KillMode::Force,
        &mut tools,
        &mut diagnostics,
    );
    assert_eq!(tree, ExitReason::Success);
    assert_eq!(delivered.get(), Some((None, KillMode::Force)));

    let group = run_group_kill_with(
        &kill_args(Some(18_422), None, false, true),
        &Config::default(),
        &Vec::new(),
        Platform::Linux,
        HOST,
        KillMode::Force,
        &mut tools,
        &mut diagnostics,
    );
    assert_eq!(group, ExitReason::Success);
    assert_eq!(delivered.get(), Some((Some(42), KillMode::Force)));
}

#[test]
fn tree_plans_follow_children_and_stop_at_the_limit() {
    let infos = vec![
        tree_info(101, Some(100), "child"),
        tree_info(100, Some(500), "root"),
        tree_info(102, Some(101), "grandchild"),
        tree_info(500, Some(1), "unrelated"),
    ];
    let tree = plan_process_tree(100, &infos, &[], Platform::Linux, 256).unwrap();
    assert_eq!(
        tree.nodes.iter().map(|node| (node.pid, node.depth)).collect::<Vec<_>>(),
        [(100, 0), (101, 1), (102, 2)]
    );
    assert_eq!(tree.truncated_at, None);

    let short = plan_process_tree(100, &infos, &[], Platform::Linux, 2).unwrap();
    assert_eq!(short.truncated_at, Some(2));
    assert_eq!(
        preflight_outcome(&short, HOST),
        Err(TreeKillOutcome::Truncated { limit: 2 })
    );

    assert_eq!(
        plan_process_tree(7, &infos, &[], Platform::Linux, 256),
        Err(TreePlanError::RootMissing)
    );
    assert_eq!(
        plan_process_group(7, &infos, &[], Platform::Linux, 512),
        Err(GroupPlanError::RootMissing)
    );
    assert_eq!(MAX_TREE_PROCESSES, 256);
    assert_eq!(MAX_GROUP_PROCESSES, 512);
}

#[test]
fn preflight_refuses_unsafe_members() {
    let tree = tree_target(
        vec![tree_info(100, Some(500), "node"), tree_info(HOST.own_pid, Some(100), "kick")],
        &[],
    );
    assert_eq!(
        preflight_outcome(&tree, HOST),
        Err(TreeKillOutcome::UnsafePid {
            pid: HOST.own_pid,
            reason: UnsafePidReason::CurrentProcess,
        })
    );
}

#[test]
fn a_root_that_left_its_group_is_a_changed_target() {
    let root = target(100, "node", Platform::Linux, Vec::new());
    let infos = vec![
        grouped_info(100, Some(500), "node", 100),
        grouped_info(101, Some(500), "worker", 100),
    ];
    let gates = |pgid: u32| {
        fresh_group_gates(
            &root,
            &infos,
            &Config::default(),
            ConfirmedGroupFacts { pgid, confirmation: ScopeAuthorization::TypedWordConfirmed },
            HOST,
        )
    };

    assert_eq!(gates(100), Ok(()));
    assert_eq!(gates(99), Err(TreeKillOutcome::TargetChanged { pid: 100 }));
}

#[test]
fn fresh_gates_hold_protection_and_skipped_words_again() {
    let root = target(100, "node", Platform::Linux, Vec::new());
    let plain = vec![tree_info(100, Some(500), "node")];
    let foreign = vec![
        tree_info(100, Some(500), "node"),
        tree_info_owned_by_other_uid(101, Some(100), "worker"),
    ];
    let protected = protecting("node");

    assert_eq!(
        fresh_tree_gates(
            &root,
            &plain,
            &protected,
            ScopeAuthorization::TypedWordConfirmed,
            HOST
        ),
        Err(TreeKillOutcome::ProtectedRoot { pid: 100, name: Some("node".to_owned()) })
    );
    assert_eq!(
        fresh_tree_gates(
            &root,
            &plain,
            &protected,
            ScopeAuthorization::ProtectedRootAndWordConfirmed,
            HOST
        ),
        Ok(())
    );
    assert_eq!(
        fresh_tree_gates(
            &root,
            &foreign,
            &Config::default(),
            ScopeAuthorization::SkippedAllClear,
            HOST
        ),
        Err(TreeKillOutcome::FreshConfirmationRequired)
    );
    assert_eq!(
        fresh_tree_gates(
            &root,
            &foreign,
            &Config::default(),
            ScopeAuthorization::TypedWordConfirmed,
            HOST
        ),
        Ok(())
    );
}

#[test]
fn a_portless_root_must_be_the_same_process() {
    let confirmed =
        kill_target_from_tree_info(&tree_info(100, Some(500), "node"), &[], Platform::Linux);
    let judge = |info: TreeProcessInfo, names: &[String]| {
        revalidate_portless_tree_root(&confirmed, &vec![info], names, Platform::Linux)
    };

    let fresh = judge(tree_info(100, Some(500), "node"), &[]).expect("the same process passes");
    assert_eq!(fresh.pid, 100);
    assert_eq!(fresh.process_start_time_marker, confirmed.process_start_time_marker);

    let mut restarted = tree_info(100, Some(500), "node");
    restarted.start_time_marker = ProcessStartMarker::linux(999).ok();
    assert_eq!(judge(restarted, &[]).err(), Some(TreeKillOutcome::TargetChanged { pid: 100 }));

    let renamed = tree_info(100, Some(500), "bash");
    assert_eq!(judge(renamed, &[]).err(), Some(TreeKillOutcome::TargetChanged { pid: 100 }));

    let mut unknown = tree_info(100, Some(500), "node");
    unknown.start_time_marker = None;
    assert_eq!(judge(unknown, &[]).err(), Some(TreeKillOutcome::PartialMetadata { pid: 100 }));

    assert_eq!(
        judge(tree_info(100, Some(500), "node"), &["node".to_owned()]).err(),
        Some(TreeKillOutcome::ProtectedRoot { pid: 100, name: Some("node".to_owned()) })
    );
    assert_eq!(
        judge(tree_info(101, Some(500), "node"), &[]).err(),
        Some(TreeKillOutcome::RootAlreadyExited)
    );
}

#[test]
fn missing_delivery_evidence_is_named() {
    let confirmed =
        kill_target_from_tree_info(&tree_info(100, Some(500), "node"), &[], Platform::Linux);
    let fresh = |info: TreeProcessInfo| kill_target_from_tree_info(&info, &[], Platform::Linux);
    let gap = |text: &str| Err(TerminationOutcome::UnknownFailure(text.to_owned()));

    assert_eq!(
        validate_single_delivery_evidence(&confirmed, &fresh(tree_info(100, Some(500), "node"))),
        Ok(())
    );
    assert_eq!(
        validate_single_delivery_evidence(&confirmed, &fresh(tree_info(101, Some(500), "node"))),
        gap("the confirmed port now belongs to another process")
    );
    let mut nameless = tree_info(100, Some(500), "node");
    nameless.process_name = None;
    assert_eq!(
        validate_single_delivery_evidence(&confirmed, &fresh(nameless)),
        gap("the process name could not be read again")
    );
    let mut timeless = tree_info(100, Some(500), "node");
    timeless.start_time_marker = None;
    assert_eq!(
        validate_single_delivery_evidence(&confirmed, &fresh(timeless)),
        gap("the process start time could not be read again")
    );
}

struct HeldRoot<'a> {
    events: &'a RefCell<Vec<&'static str>>,
}

impl Drop for HeldRoot<'_> {
    fn drop(&mut self) {
        self.events.borrow_mut().push("release");
    }
}

#[test]
fn windows_root_of_a_port_is_held_until_the_job_was_committed() {
    let events: RefCell<Vec<&'static str>> = RefCell::new(Vec::new());
    let snapshot = vec![windows_info("node")];
    let mut diagnostics = BoundedRecord::new();
    let mut tools = Recorded::new(WindowsTreeTools {
        collect_tree: || Ok::<Vec<TreeProcessInfo>, CollectorError>(snapshot.clone()),
        context: no_context,
        prompt: confirm_prompt,
        kill_ports: || {
            events.borrow_mut().push("collect");
            Ok::<Vec<PortEntry>, CollectorError>(vec![entry(3000)])
        },
        visibility_ports: || {
            events.borrow_mut().push("visibility");
            Ok::<Vec<PortEntry>, CollectorError>(Vec::new())
        },
        prepare_root: |_pid: u32| {
            events.borrow_mut().push("prepare");
            Ok::<HeldRoot<'_>, TerminationOutcome>(HeldRoot { events: &events })
        },
        execute: |_root: &KillTarget, _names: &Vec<String>, _authorization: ScopeAuthorization| {
            events.borrow_mut().push("commit");
            WindowsTreeKillOutcome::Completed(clean_report(1))
        },
        sleep: no_sleep,
    });

    let reason = run_windows_tree_kill(
        &kill_args(None, Some(3000), true, false),
        &Config::default(),
        &vec![entry(3000)],
        Platform::Windows,
        HOST,
        &mut tools,
        &mut diagnostics,
    );

    assert_eq!(reason, ExitReason::Success);
    assert_eq!(*events.borrow(), ["prepare", "collect", "commit", "release", "visibility"]);
}

#[test]
fn windows_root_that_changed_is_let_go_of_unkilled() {
    let events: RefCell<Vec<&'static str>> = RefCell::new(Vec::new());
    let snapshot = vec![windows_info("node")];
    let mut diagnostics = BoundedRecord::new();
    let mut tools = Recorded::new(WindowsTreeTools {
        collect_tree: || Ok::<Vec<TreeProcessInfo>, CollectorError>(snapshot.clone()),
        context: no_context,
        prompt: confirm_prompt,
        kill_ports: || {
            events.borrow_mut().push("collect");
            Ok::<Vec<PortEntry>, CollectorError>(Vec::new())
        },
        visibility_ports: || Ok::<Vec<PortEntry>, CollectorError>(Vec::new()),
        prepare_root: |_pid: u32| {
            events.borrow_mut().push("prepare");
            Ok::<HeldRoot<'_>, TerminationOutcome>(HeldRoot { events: &events })
        },
        execute: |_root: &KillTarget, _names: &Vec<String>, _authorization: ScopeAuthorization| {
            events.borrow_mut().push("commit");
            WindowsTreeKillOutcome::Completed(clean_report(1))
        },
        sleep: no_sleep,
    });

    let reason = run_windows_tree_kill(
        &kill_args(None, Some(3000), true, false),
        &Config::default(),
        &vec![entry(3000)],
        Platform::Windows,
        HOST,
        &mut tools,
        &mut diagnostics,
    );

    assert_ne!(reason, ExitReason::Success);
    assert_eq!(*events.borrow(), ["prepare", "collect", "release"]);
}
