use std::cell::{Cell, RefCell};

use kickoutchi::address::IpAddr;
use kickoutchi::app_actions::{Effects, Execution};
use kickoutchi::app_query::{preserved_selection, QueryResult};
use kickoutchi::app_refresh::Started;
use kickoutchi::app_state::{
    App, ContextWorker, Modal, Received, RefreshWorker, RowKey, TreeConfirmStage,
    TreeKillConfirmation, TreePreviewWorker, WorkerFailure,
};
use kickoutchi::app_tree::{preview_tree, PreviewRequest};
use kickoutchi::collector::CollectorError;
use kickoutchi::config::{Config, SortMode};
use kickoutchi::evidence::{EndpointIdentity, EvidenceGapCode, OwnerCompleteness};
use kickoutchi::input::{Action, ModalKind};
use kickoutchi::model::{Ipv6Scope, PermissionStatus, Platform, Protocol, SocketState};
use kickoutchi::observation::{
    MetadataCompleteness, NetworkSnapshot, ObservationError, ObservationScope,
    ObservationScopeKind, OwnerObservation, ProcessIdentity, ProcessObservation,
    ProcessStartMarker, ProcessTable, SnapshotCompleteness, SocketObservation,
};
use kickoutchi::operations::{
    KillsScope, PinsRoot, Prepares, ReadsContext, ReadsPorts, ReadsTable, Recorded, Signals,
};
use kickoutchi::ports::{
    collect_selected_process_context_with, mark_protected, DockerContainerPort,
    DockerPortContext, PortEntry, ProcessContext,
};
use kickoutchi::process::{
    termination_status_line, ConfirmationRequirement, HostFacts, KillMode, KillTarget,
    TerminationOutcome,
};
use kickoutchi::projection::kill_ports_from_snapshot;
use kickoutchi::scoped::TreeSnapshotScope;
use kickoutchi::time::{Duration, SystemTime};
use kickoutchi::tree::{
    plan_process_tree, ProcessTreeTarget, ScopeAuthorization, TreeKillOutcome, TreeProcessInfo,
};

const HOST: HostFacts = HostFacts { own_pid: 77, user_id: 1_000 };

fn seconds(count: u64) -> Duration {
    Duration::from_secs(count)
}

fn entry_with_pid(port: u16, pid: Option<u32>, protocol: Protocol, name: Option<&str>) -> PortEntry {
    PortEntry {
        protocol,
        local_addr: IpAddr::v4_localhost(),
        local_port: port,
        state: SocketState::Listen,
        pid,
        process_name: name.map(str::to_owned),
        executable_path: None,
        command_line: None,
        parent_pid: None,
        parent_process_name: None,
        protected: false,
        platform: Platform::Linux,
        permission: PermissionStatus::Full,
        process_identity: pid.map(|pid| ProcessIdentity {
            pid,
            start_marker: ProcessStartMarker::linux(55).expect("test marker is nonzero"),
        }),
        ipv6_scope: None,
    }
}

fn entry(port: u16, name: Option<&str>) -> PortEntry {
    entry_with_pid(port, Some(u32::from(port)), Protocol::Tcp, name)
}

fn entry_without_pid(port: u16) -> PortEntry {
    let mut row = entry_with_pid(port, None, Protocol::Tcp, Some("hidden"));
    row.permission = PermissionStatus::Partial;
    row
}

fn row_matches(row: &PortEntry, text: &str) -> bool {
    text.is_empty()
        || row.local_port.to_string().contains(text)
        || row.process_name.as_deref().is_some_and(|name| name.contains(text))
}

/// Order the rows, or take the order that is handed in, and keep what the text matches.
fn query(
    rows: &Vec<PortEntry>,
    order: Option<&Vec<usize>>,
    text: &String,
    sort: SortMode,
    _hide_system: bool,
) -> Result<QueryResult, String> {
    if text == "bad:" {
        return Err("unknown filter".to_owned());
    }
    let mut indices = match order {
        Some(order) => order.clone(),
        None => {
            let mut all: Vec<usize> = (0..rows.len()).collect();
            match sort {
                SortMode::Port => all.sort_by_key(|index| rows[*index].local_port),
                SortMode::Pid => all.sort_by_key(|index| rows[*index].pid),
                SortMode::Protocol => all.sort_by_key(|index| rows[*index].protocol.label()),
                SortMode::Process => {
                    all.sort_by_key(|index| rows[*index].process_name.clone());
                }
            }
            all
        }
    };
    indices.retain(|index| row_matches(&rows[*index], text));
    Ok(QueryResult { indices, explicit_filter_active: !text.is_empty() })
}

fn config() -> Config {
    Config {
        default_sort: SortMode::Port,
        protected_processes: vec!["postgres".to_owned()],
        ..Config::default()
    }
}

fn app_with_rows(rows: Vec<PortEntry>) -> App {
    let mut app = App::empty(&config(), Duration::zero());
    app.rows = rows;
    mark_protected(&mut app.rows, &config().protected_processes);
    app.rebuild_visible_rows(&query);
    app
}

fn shown(app: &App) -> Vec<u16> {
    (0..app.visible_row_count()).map(|at| app.visible_row(at).unwrap().local_port).collect()
}

fn selected_port(app: &App) -> Option<u16> {
    app.selected_row().map(|row| row.local_port)
}

fn act(app: &mut App, action: Action) -> Effects {
    app.apply_action(action, HOST, Received::Pending, &query)
}

fn snapshot_from_rows(rows: Vec<PortEntry>) -> NetworkSnapshot {
    let mut sockets = Vec::new();
    let mut processes = ProcessTable::empty();
    for row in rows {
        let mut owners = Vec::new();
        if let Some(identity) = row.process_identity {
            owners.push(OwnerObservation::Verified(identity));
            processes.insert(
                identity,
                ProcessObservation {
                    name: row.process_name,
                    executable_path: row.executable_path,
                    command_line: row.command_line,
                    parent_pid: row.parent_pid,
                    parent_process_name: row.parent_process_name,
                    metadata_omission: None,
                    metadata_completeness: MetadataCompleteness::Complete,
                },
            );
        }
        sockets.push(SocketObservation {
            local_endpoint: EndpointIdentity::new(
                row.protocol,
                row.local_addr,
                u32::from(row.local_port),
                row.ipv6_scope,
            )
            .unwrap(),
            state: row.state,
            timer: None,
            socket_token: None,
            owners,
            owner_completeness: OwnerCompleteness::Complete,
        });
    }
    NetworkSnapshot {
        scope: ObservationScope::new(ObservationScopeKind::CurrentNetworkNamespace, None, &[])
            .unwrap(),
        capture_started_at: SystemTime::from_unix_millis(1),
        capture_completed_at: SystemTime::from_unix_millis(2),
        completeness: SnapshotCompleteness::Complete,
        owner_completeness: OwnerCompleteness::Complete,
        sockets,
        processes,
        evidence_gaps: Vec::new(),
        omitted_evidence_gap_count: 0,
    }
}

fn apply_rows(app: &mut App, rows: Vec<PortEntry>) {
    app.apply_network_snapshot(snapshot_from_rows(rows), seconds(1), &query);
}

fn poll_rows(app: &mut App, rows: Vec<PortEntry>) -> Started {
    app.poll_refresh(Received::Value(Ok(snapshot_from_rows(rows))), seconds(1), &query)
}

fn context(start_time_ticks: u64) -> ProcessContext {
    let mut context = ProcessContext::empty();
    context.process_start_time_marker = ProcessStartMarker::linux(start_time_ticks).ok();
    context
}

fn docker_context() -> DockerPortContext {
    DockerPortContext {
        containers: vec![DockerContainerPort {
            id: "abc123".to_owned(),
            name: "postgres-dev".to_owned(),
            compose_project: None,
            compose_service: None,
            host_port: 5432,
            container_port: 5432,
            protocol: Protocol::Tcp,
        }],
        truncated: false,
    }
}

fn finish_selected_context(app: &mut App, context: ProcessContext) -> Option<usize> {
    let key = RowKey::from_row(app.selected_row().expect("test app has selected row"));
    app.context_worker = Some(ContextWorker { key, stale: false });
    app.poll_process_context(Received::Value(context))
}

#[test]
fn preserved_selection_distinguishes_ipv6_interface_scopes() {
    let mut first = entry_with_pid(8080, Some(42), Protocol::Tcp, Some("service"));
    first.local_addr = IpAddr::v6_localhost();
    first.ipv6_scope = Some(Ipv6Scope::interface_index(1).unwrap());
    let mut second = first.clone();
    second.ipv6_scope = Some(Ipv6Scope::interface_index(2).unwrap());
    let rows = [first, second];
    let selected_key = RowKey::from_row(&rows[1]);
    let selected_source_rows =
        rows.iter().map(|row| RowKey::from_row(row) == selected_key).collect::<Vec<_>>();

    assert_ne!(RowKey::from_row(&rows[0]), selected_key);
    assert_eq!(preserved_selection(&vec![0, 1], Some(&selected_source_rows), 0), Some(1));
    assert_eq!(preserved_selection(&vec![0, 1], None, 9), Some(1));
    assert_eq!(preserved_selection(&Vec::new(), None, 0), None);
}

#[test]
fn selected_context_can_attach_docker_metadata_without_a_pid() {
    let row = entry_without_pid(5432);

    let context = collect_selected_process_context_with(
        &row,
        true,
        |_| panic!("a row without a PID has no process to read"),
        |_: &PortEntry| Some(docker_context()),
    );

    assert_eq!(context.children.children.len(), 0);
    assert!(context.process_start_time_marker.is_none());
    assert_eq!(
        context
            .docker
            .as_ref()
            .and_then(DockerPortContext::single_container)
            .map(|container| container.name.as_str()),
        Some("postgres-dev"),
    );
}

#[test]
fn selected_context_requests_docker_enrichment_without_a_rendering_gate() {
    let mut row = entry(5432, Some("docker-proxy"));
    row.executable_path = Some(b"/usr/bin/docker-proxy".to_vec());
    let enrichment_requested = Cell::new(false);

    let context = collect_selected_process_context_with(
        &row,
        true,
        |_| context(55),
        |_: &PortEntry| {
            enrichment_requested.set(true);
            None
        },
    );

    assert!(enrichment_requested.get());
    assert_eq!(context.process_start_time_marker, ProcessStartMarker::linux(55).ok());
}

#[test]
fn disabled_docker_enrichment_never_invokes_the_enricher() {
    let row = entry(5432, Some("docker-proxy"));
    let enrichment_requested = Cell::new(false);

    let context = collect_selected_process_context_with(
        &row,
        false,
        |_| ProcessContext::empty(),
        |_: &PortEntry| {
            enrichment_requested.set(true);
            Some(docker_context())
        },
    );

    assert!(!enrichment_requested.get());
    assert!(context.docker.is_none());
}

#[test]
fn starts_sorted_and_selects_first_row() {
    let app = app_with_rows(vec![entry(5173, Some("vite")), entry(3000, Some("node"))]);

    assert_eq!(shown(&app).first(), Some(&3000));
    assert_eq!(app.selected_index(), Some(0));
    assert_eq!(selected_port(&app), Some(3000));
}

#[test]
fn table_selection_never_requests_details_or_docker_context() {
    let mut app = app_with_rows(vec![entry(1, Some("one")), entry(2, Some("two"))]);

    act(&mut app, Action::MoveUp);
    assert_eq!(app.selected_index(), Some(0));
    assert_eq!(app.selected_process_context(), None);

    act(&mut app, Action::MoveDown);
    assert_eq!(app.selected_index(), Some(1));
    assert_eq!(app.selected_process_context(), None);
    assert!(app.context_worker.is_none());

    let effects = act(&mut app, Action::MoveDown);
    assert_eq!(app.selected_index(), Some(1));
    assert_eq!(app.selected_process_context(), None);
    assert_eq!(effects, Effects::none());
}

#[test]
fn empty_rows_have_no_selection_and_no_details_modal() {
    let mut app = app_with_rows(Vec::new());

    assert_eq!(app.selected_index(), None);
    assert_eq!(app.selected_process_context(), None);
    act(&mut app, Action::MoveDown);
    act(&mut app, Action::OpenDetails);
    assert_eq!(app.modal(), ModalKind::Closed);
}

#[test]
fn modal_and_quit_actions_update_state() {
    let mut app = app_with_rows(vec![entry(3000, Some("node"))]);

    assert_eq!(app.selected_process_context(), None);
    let effects = act(&mut app, Action::OpenDetails);
    assert_eq!(effects.context, Some(0));
    assert_eq!(app.modal(), ModalKind::Details);
    assert!(app.selected_process_context_loading());
    assert_eq!(app.selected_process_context(), None);

    finish_selected_context(&mut app, context(55));
    assert!(app.selected_process_context().is_some());

    act(&mut app, Action::CloseModal);
    assert_eq!(app.modal(), ModalKind::Closed);

    act(&mut app, Action::OpenHelp);
    assert_eq!(app.modal(), ModalKind::Help);

    act(&mut app, Action::Quit);
    assert!(app.should_quit());
}

#[test]
fn details_context_is_single_flight_and_latest_selection_wins() {
    let mut app = app_with_rows(vec![entry(3000, Some("node")), entry(5173, Some("vite"))]);
    let first_key = RowKey::from_row(app.selected_row().expect("first row is selected"));
    app.context_worker = Some(ContextWorker { key: first_key, stale: false });

    act(&mut app, Action::OpenDetails);
    act(&mut app, Action::CloseModal);
    act(&mut app, Action::MoveDown);
    let latest_key = RowKey::from_row(app.selected_row().expect("second row is selected"));
    act(&mut app, Action::OpenDetails);

    assert_eq!(
        app.context_worker.map(|worker| worker.key),
        Some(first_key),
        "the in-flight worker must not be replaced",
    );
    assert!(app.context_requested);

    let start = app.poll_process_context(Received::Value(context(55)));

    assert_eq!(app.selected_process_context(), None);
    assert!(!app.context_requested);
    assert_eq!(start, Some(1));
    assert_eq!(
        app.context_worker.map(|worker| worker.key),
        Some(latest_key),
        "the newest selection starts only after the first worker drains",
    );
}

#[test]
fn terminate_key_opens_normal_confirmation_for_selected_pid() {
    let mut app = app_with_rows(vec![entry(3000, Some("node"))]);

    act(&mut app, Action::RequestTerminate);

    let confirmation = app.kill_confirmation().expect("termination request opens confirmation");
    assert_eq!(app.modal(), ModalKind::ConfirmKill);
    assert_eq!(confirmation.target.pid, 3000);
    assert_eq!(confirmation.mode, KillMode::Terminate);
    assert_eq!(confirmation.requirement, ConfirmationRequirement::Yes);
}

fn confirmed_marker(app: &App) -> Option<ProcessStartMarker> {
    app.kill_confirmation()
        .and_then(|confirmation| confirmation.target.process_start_time_marker)
}

#[test]
fn terminate_confirmation_keeps_snapshot_identity_while_context_loads() {
    let mut app = app_with_rows(vec![entry(3000, Some("node"))]);

    act(&mut app, Action::RequestTerminate);

    assert!(app.selected_process_context_loading());
    assert_eq!(confirmed_marker(&app), ProcessStartMarker::linux(55).ok());

    finish_selected_context(&mut app, context(55));

    assert_eq!(confirmed_marker(&app), ProcessStartMarker::linux(55).ok());
}

#[test]
fn yes_confirmation_waits_for_process_metadata_before_executing() {
    let mut app = app_with_rows(vec![entry(3000, Some("node"))]);

    act(&mut app, Action::RequestTerminate);
    let effects = act(&mut app, Action::KillInputAppend('y'));

    assert_eq!(effects.execute, None);
    let confirmation =
        app.kill_confirmation().expect("confirmation remains open while metadata loads");
    assert_eq!(app.modal(), ModalKind::ConfirmKill);
    assert!(confirmation
        .error
        .as_deref()
        .is_some_and(|error| error.contains("still reading process metadata")));
}

#[test]
fn unknown_failure_status_is_sanitized_for_tui() {
    let row = entry(3000, Some("node"));
    let target = KillTarget::from_entries(3000, &vec![&row], None);

    let status = termination_status_line(
        &target,
        KillMode::Terminate,
        &TerminationOutcome::UnknownFailure("\x1b[31mboom\nnext".to_owned()),
    );

    assert!(status.contains("boom next"), "{status}");
    assert!(!status.contains('\x1b'), "{status}");
    assert!(!status.contains('\n'), "{status}");
}

#[test]
fn confirmation_lists_all_ports_owned_by_selected_pid_from_full_snapshot() {
    let mut app = app_with_rows(vec![
        entry_with_pid(3000, Some(18422), Protocol::Tcp, Some("node")),
        entry_with_pid(5173, Some(18422), Protocol::Udp, Some("node")),
        entry_with_pid(8000, Some(18001), Protocol::Tcp, Some("cursor-agent")),
    ]);
    act(&mut app, Action::StartSearch);
    act(&mut app, Action::SearchAppend('3'));
    act(&mut app, Action::SearchAppend('0'));
    assert_eq!(app.visible_row_count(), 1);

    act(&mut app, Action::RequestTerminate);

    let confirmation = app.kill_confirmation().expect("termination request opens confirmation");
    assert_eq!(confirmation.target.pid, 18422);
    assert_eq!(confirmation.target.ports.len(), 2);
    assert!(confirmation.target.ports_text().contains("TCP 127.0.0.1:3000"));
    assert!(confirmation.target.ports_text().contains("UDP 127.0.0.1:5173"));
}

#[test]
fn force_key_uses_force_word_confirmation() {
    let mut app = app_with_rows(vec![entry(3000, Some("node"))]);

    act(&mut app, Action::RequestForceKill);

    let confirmation = app.kill_confirmation().expect("force request opens confirmation");
    assert_eq!(app.modal(), ModalKind::ConfirmKill);
    assert_eq!(confirmation.mode, KillMode::Force);
    assert_eq!(confirmation.requirement, ConfirmationRequirement::ForceWord);
}

#[test]
fn wrong_confirmation_word_rejects_and_keeps_the_modal_open() {
    let mut app = app_with_rows(vec![entry(3000, Some("node"))]);
    act(&mut app, Action::RequestForceKill);
    for ch in "yes".chars() {
        act(&mut app, Action::KillInputAppend(ch));
    }

    let effects = act(&mut app, Action::SubmitKillConfirmation);

    assert_eq!(effects.execute, None);
    assert_eq!(app.modal(), ModalKind::ConfirmKill);
    let confirmation =
        app.kill_confirmation().expect("rejected submit must keep the confirmation pending");
    assert_eq!(confirmation.input, "yes");
    let error = confirmation.error.as_deref().expect("rejected submit sets the inline error");
    assert!(error.contains("type force"), "{error}");
    assert!(app.kill_status().is_none(), "{:?}", app.kill_status());
}

#[test]
fn right_confirmation_word_executes_once_metadata_is_read() {
    let mut app = app_with_rows(vec![entry(3000, Some("node"))]);
    act(&mut app, Action::RequestForceKill);
    finish_selected_context(&mut app, context(55));
    for ch in "force".chars() {
        act(&mut app, Action::KillInputAppend(ch));
    }

    let effects = act(&mut app, Action::SubmitKillConfirmation);

    assert_eq!(effects.execute, Some(Execution::Single));
}

#[test]
fn windows_terminate_key_uses_yes_confirmation() {
    let mut row = entry(3000, Some("node.exe"));
    row.platform = Platform::Windows;
    let mut app = app_with_rows(vec![row]);

    act(&mut app, Action::RequestTerminate);

    let confirmation =
        app.kill_confirmation().expect("windows termination request opens confirmation");
    assert_eq!(confirmation.mode, KillMode::Terminate);
    assert_eq!(confirmation.requirement, ConfirmationRequirement::Yes);
}

#[test]
fn protected_process_uses_stronger_confirmation() {
    let mut app = app_with_rows(vec![entry_with_pid(
        5432,
        Some(HOST.own_pid + 1),
        Protocol::Tcp,
        Some("postgres"),
    )]);
    finish_selected_context(&mut app, context(55));

    act(&mut app, Action::RequestTerminate);

    let confirmation = app.kill_confirmation().unwrap_or_else(|| {
        panic!("protected target must open confirmation: {:?}", app.kill_status())
    });
    assert!(confirmation.target.protected);
    assert_eq!(confirmation.requirement, ConfirmationRequirement::ProtectedProcess);
}

#[test]
fn missing_pid_selection_reports_status_without_confirmation() {
    let mut app = app_with_rows(vec![entry_without_pid(8080)]);

    act(&mut app, Action::RequestTerminate);

    assert_eq!(app.modal(), ModalKind::Closed);
    assert!(app.kill_confirmation().is_none());
    assert_eq!(app.kill_status(), Some("selected row has no PID; cannot terminate"));
}

#[test]
fn kill_confirmation_can_be_cancelled() {
    let mut app = app_with_rows(vec![entry(3000, Some("node"))]);
    act(&mut app, Action::RequestTerminate);

    act(&mut app, Action::CancelKill);

    assert_eq!(app.modal(), ModalKind::Closed);
    assert!(app.kill_confirmation().is_none());
    assert_eq!(app.kill_status(), Some("kill cancelled"));
}

#[test]
fn force_confirmation_input_is_bounded_and_editable() {
    let mut app = app_with_rows(vec![entry(3000, Some("node"))]);
    act(&mut app, Action::RequestForceKill);

    act(&mut app, Action::KillInputAppend('f'));
    act(&mut app, Action::KillInputAppend('o'));
    act(&mut app, Action::KillInputBackspace);

    let confirmation = app.kill_confirmation().expect("confirmation remains open while editing");
    assert_eq!(confirmation.input, "f");
    assert_eq!(confirmation.error, None);
}

#[test]
fn auto_refresh_pauses_while_kill_confirmation_is_open() {
    let mut app = app_with_rows(vec![entry(3000, Some("node"))]);
    act(&mut app, Action::RequestTerminate);

    assert!(!app.refresh_due_at(seconds(10), seconds(1)));
    assert_eq!(app.time_until_refresh_at(seconds(10), seconds(1)), seconds(1));
}

/// The surroundings of a kill from the table.
struct TableKillTools<P, C, R, T> {
    kill_ports: P,
    context: C,
    prepare: R,
    terminate: T,
}

impl<P, C, R, T> ReadsPorts for TableKillTools<P, C, R, T>
where
    P: FnMut() -> Result<Vec<PortEntry>, CollectorError>,
{
    fn kill_ports(&mut self) -> Result<Vec<PortEntry>, CollectorError> {
        (self.kill_ports)()
    }
}

impl<P, C: FnMut(u32) -> ProcessContext, R, T> ReadsContext for TableKillTools<P, C, R, T> {
    fn context(&mut self, pid: u32) -> ProcessContext {
        (self.context)(pid)
    }
}

impl<H, P, C, R, T> Prepares<H> for TableKillTools<P, C, R, T>
where
    R: FnMut(u32) -> Result<H, TerminationOutcome>,
{
    fn prepare(&mut self, pid: u32) -> Result<H, TerminationOutcome> {
        (self.prepare)(pid)
    }
}

impl<H, P, C, R, T> Signals<H> for TableKillTools<P, C, R, T>
where
    T: FnMut(&H, &KillTarget, &Vec<String>, KillMode) -> TerminationOutcome,
{
    fn terminate(
        &mut self,
        handle: &H,
        target: &KillTarget,
        protected: &Vec<String>,
        mode: KillMode,
    ) -> TerminationOutcome {
        (self.terminate)(handle, target, protected, mode)
    }
}

/// Execute the open confirmation on scripted surroundings.
fn execute_kill(
    app: &mut App,
    fresh: impl Fn() -> Result<Vec<PortEntry>, CollectorError>,
    ticks: u64,
    prepared: Result<(), TerminationOutcome>,
    terminated: &RefCell<Vec<(u32, KillMode)>>,
) -> bool {
    let prepared = RefCell::new(Some(prepared));
    let mut tools = Recorded::new(TableKillTools {
        kill_ports: || fresh(),
        context: |_pid: u32| context(ticks),
        prepare: |pid: u32| -> Result<u32, TerminationOutcome> {
            prepared.borrow_mut().take().unwrap().map(|()| pid)
        },
        terminate: |pid: &u32,
                    _target: &KillTarget,
                    _protected: &Vec<String>,
                    mode: KillMode|
         -> TerminationOutcome {
            terminated.borrow_mut().push((*pid, mode));
            TerminationOutcome::Success
        },
    });
    app.execute_kill_confirmation_with(&mut tools)
}

#[test]
fn confirmed_kill_revalidates_signals_and_refreshes_rows() {
    let mut app = app_with_rows(vec![entry(3000, Some("node"))]);
    act(&mut app, Action::RequestTerminate);
    finish_selected_context(&mut app, context(55));
    let collections = Cell::new(0);
    let terminated = RefCell::new(Vec::new());

    let start = execute_kill(
        &mut app,
        || {
            collections.set(collections.get() + 1);
            Ok(vec![entry(3000, Some("node"))])
        },
        55,
        Ok(()),
        &terminated,
    );

    assert!(start, "a delivered signal asks for a refresh");
    assert_eq!(app.visible_row_count(), 1, "rows remain until worker completion is polled");
    poll_rows(&mut app, Vec::new());
    assert_eq!(*terminated.borrow(), [(3000, KillMode::Terminate)]);
    assert_eq!(collections.get(), 1);
    assert_eq!(app.visible_row_count(), 0);
    assert_eq!(app.modal(), ModalKind::Closed);
    assert!(app.kill_status().is_some_and(|status| status.contains("sent SIGTERM")));
}

#[test]
fn confirmed_kill_refuses_stale_process_identity_without_signalling() {
    let mut app = app_with_rows(vec![entry(3000, Some("node"))]);
    act(&mut app, Action::RequestTerminate);
    finish_selected_context(&mut app, context(55));
    let mut stale = entry(3000, Some("node"));
    stale.process_identity = Some(ProcessIdentity {
        pid: 3000,
        start_marker: ProcessStartMarker::linux(99).expect("test marker is nonzero"),
    });
    let terminated = RefCell::new(Vec::new());

    execute_kill(&mut app, || Ok(vec![stale.clone()]), 99, Ok(()), &terminated);

    assert!(terminated.borrow().is_empty());
    assert_eq!(app.visible_row_count(), 1);
    assert!(app.kill_status().is_some_and(|status| status.contains("no longer owns")));
}

#[test]
fn prepare_already_exited_refreshes_snapshot_so_freed_port_drops() {
    let mut app = app_with_rows(vec![entry(3000, Some("node"))]);
    act(&mut app, Action::RequestTerminate);
    finish_selected_context(&mut app, context(55));
    let terminated = RefCell::new(Vec::new());

    let start = execute_kill(
        &mut app,
        || panic!("prepare failure must not run authoritative collection"),
        55,
        Err(TerminationOutcome::AlreadyExited),
        &terminated,
    );

    assert!(terminated.borrow().is_empty());
    assert!(start);
    assert_eq!(app.visible_row_count(), 1);
    poll_rows(&mut app, Vec::new());
    assert_eq!(app.visible_row_count(), 0);
    assert_eq!(app.modal(), ModalKind::Closed);
    assert!(app.kill_status().is_some_and(|status| status.contains("already exited")));
}

#[test]
fn confirmed_kill_discards_stale_in_flight_refresh_so_freed_port_cannot_reappear() {
    let mut app = app_with_rows(vec![entry(3000, Some("node"))]);
    app.refresh_worker = Some(RefreshWorker { stale: false });

    act(&mut app, Action::RequestTerminate);
    finish_selected_context(&mut app, context(55));
    let terminated = RefCell::new(Vec::new());

    let start = execute_kill(
        &mut app,
        || Ok(vec![entry(3000, Some("node"))]),
        55,
        Ok(()),
        &terminated,
    );

    assert!(!start, "the refresh under way must end first");
    assert!(app.refresh_worker.is_some_and(|worker| worker.stale));
    assert!(app.refresh_after_kill);
    assert!(app.refresh_in_progress());
    assert!(!act(&mut app, Action::Refresh).refresh);

    let started = poll_rows(&mut app, vec![entry(5173, Some("vite"))]);
    assert!(started.refresh);
    assert!(!app.refresh_after_kill);
    assert!(app.refresh_in_progress());
    assert_eq!(shown(&app), [3000]);
    poll_rows(&mut app, Vec::new());
    assert!(!app.refresh_in_progress());
    assert_eq!(app.visible_row_count(), 0);
}

#[test]
fn search_actions_filter_and_clear_rows() {
    let mut app = app_with_rows(vec![entry(3000, Some("node")), entry(5173, Some("vite"))]);
    let sorted = app.sorted_row_indices.as_ref().expect("initial rows are cached").indices.clone();

    act(&mut app, Action::StartSearch);
    act(&mut app, Action::SearchAppend('v'));
    act(&mut app, Action::SearchAppend('i'));

    assert!(app.search_mode());
    assert_eq!(app.filter_text(), "vi");
    assert_eq!(shown(&app), [5173]);
    assert_eq!(
        app.sorted_row_indices.as_ref().expect("search retains the sort cache").indices,
        sorted
    );

    act(&mut app, Action::CancelSearch);

    assert!(!app.search_mode());
    assert_eq!(app.filter_text(), "");
    assert_eq!(app.visible_row_count(), 2);
}

#[test]
fn a_refused_filter_is_told_and_keeps_the_rows() {
    let mut app = app_with_rows(vec![entry(3000, Some("node"))]);
    act(&mut app, Action::StartSearch);
    for ch in "bad:".chars() {
        act(&mut app, Action::SearchAppend(ch));
    }
    assert_eq!(app.filter_error(), Some("unknown filter"));

    act(&mut app, Action::SearchBackspace);
    assert_eq!(app.filter_text(), "bad");
    assert_eq!(app.filter_error(), None);
}

#[test]
fn same_length_refresh_invalidates_the_sorted_row_cache() {
    let mut app = app_with_rows(vec![entry(3000, Some("zulu")), entry(5173, Some("alpha"))]);
    app.sort_mode = SortMode::Process;
    app.rebuild_visible_rows(&query);
    assert_eq!(app.visible_row_indices, [1, 0]);

    apply_rows(&mut app, vec![entry(3000, Some("alpha")), entry(5173, Some("zulu"))]);

    assert_eq!(app.visible_row_indices, [0, 1]);
    assert_eq!(
        app.sorted_row_indices.as_ref().expect("refresh rebuilds the cache").indices,
        [0, 1]
    );
}

#[test]
fn search_edit_rebuilds_a_cache_missing_after_filtered_refresh() {
    let mut app = app_with_rows(vec![entry(3000, Some("alpha")), entry(5173, Some("beta"))]);
    act(&mut app, Action::StartSearch);
    act(&mut app, Action::SearchAppend('a'));

    apply_rows(&mut app, vec![entry(5173, Some("beta")), entry(3000, Some("alpha"))]);
    assert!(app.sorted_row_indices.is_none());

    act(&mut app, Action::SearchAppend('l'));

    assert_eq!(app.filter_text(), "al");
    assert_eq!(shown(&app), [3000]);
    assert!(app.sorted_row_indices.is_some());
}

#[test]
fn details_and_actions_use_filtered_rows_with_nonzero_backing_indices() {
    let mut app = app_with_rows(vec![entry(3000, Some("node")), entry(5173, Some("vite"))]);
    act(&mut app, Action::StartSearch);
    for ch in "vite".chars() {
        act(&mut app, Action::SearchAppend(ch));
    }
    assert_eq!(app.visible_row_indices, [1]);
    assert_eq!(selected_port(&app), Some(5173));

    act(&mut app, Action::OpenDetails);
    assert_eq!(app.modal(), ModalKind::Details);
    act(&mut app, Action::CloseModal);
    act(&mut app, Action::RequestTerminate);

    assert_eq!(
        app.kill_confirmation().map(|confirmation| confirmation.target.ports[0].local_port),
        Some(5173),
    );
}

#[test]
fn sort_cycle_preserves_selected_row_when_possible() {
    let mut app = app_with_rows(vec![entry(3000, Some("zed")), entry(5173, Some("alpha"))]);
    assert_eq!(selected_port(&app), Some(3000));

    act(&mut app, Action::CycleSort);
    act(&mut app, Action::CycleSort);
    act(&mut app, Action::CycleSort);

    assert_eq!(app.sort_mode(), SortMode::Process);
    assert_eq!(selected_port(&app), Some(3000));
    assert_eq!(app.selected_index, Some(1));
}

#[test]
fn filtering_duplicate_row_keys_preserves_the_visible_match() {
    let mut zulu = entry(3000, Some("zulu"));
    let mut alpha = entry(3000, Some("alpha"));
    alpha.process_identity = Some(ProcessIdentity {
        pid: 3000,
        start_marker: ProcessStartMarker::linux(56).expect("test marker is nonzero"),
    });
    zulu.parent_pid = Some(1);
    alpha.parent_pid = Some(2);
    let unrelated = entry(4000, Some("alpha-worker"));
    let mut app = app_with_rows(vec![zulu, alpha, unrelated]);
    let selected_name =
        |app: &App| app.selected_row().and_then(|row| row.process_name.clone());
    act(&mut app, Action::MoveDown);
    assert_eq!(selected_name(&app).as_deref(), Some("alpha"));

    act(&mut app, Action::StartSearch);
    for ch in "alpha".chars() {
        act(&mut app, Action::SearchAppend(ch));
    }

    assert_eq!(app.visible_row_count(), 2);
    assert_eq!(selected_port(&app), Some(3000));
    assert_eq!(selected_name(&app).as_deref(), Some("alpha"));
    assert_eq!(app.selected_index(), Some(0));
}

#[test]
fn successful_refresh_preserves_selection_by_row_identity() {
    let mut app = app_with_rows(vec![entry(3000, Some("node")), entry(5173, Some("vite"))]);
    act(&mut app, Action::MoveDown);

    apply_rows(&mut app, vec![entry(5173, Some("vite")), entry(3000, Some("node"))]);

    assert_eq!(selected_port(&app), Some(5173));
}

#[test]
fn refresh_reloads_details_context_when_modal_stays_open() {
    let mut app = app_with_rows(vec![entry(3000, Some("node"))]);

    act(&mut app, Action::OpenDetails);
    assert!(app.selected_process_context_loading());
    finish_selected_context(&mut app, context(55));
    assert!(app.selected_process_context().is_some());

    apply_rows(&mut app, vec![entry(3000, Some("node"))]);

    assert_eq!(selected_port(&app), Some(3000));
    assert_eq!(app.modal(), ModalKind::Details);
    assert!(app.selected_process_context_loading());
    assert_eq!(app.selected_process_context(), None);

    finish_selected_context(&mut app, context(56));
    assert!(app.selected_process_context().is_some());
}

#[test]
fn refresh_invalidates_details_context_when_modal_is_closed() {
    let mut app = app_with_rows(vec![entry(3000, Some("node"))]);

    act(&mut app, Action::OpenDetails);
    finish_selected_context(&mut app, context(55));
    assert!(app.selected_process_context().is_some());
    act(&mut app, Action::CloseModal);

    apply_rows(&mut app, vec![entry(3000, Some("node"))]);

    assert_eq!(selected_port(&app), Some(3000));
    assert_eq!(app.modal(), ModalKind::Closed);
    assert_eq!(app.selected_process_context(), None);
}

#[test]
fn refresh_moves_selection_to_nearest_row_when_selected_row_disappears() {
    let mut app = app_with_rows(vec![
        entry(3000, Some("node")),
        entry(5173, Some("vite")),
        entry(8000, Some("python")),
    ]);
    act(&mut app, Action::MoveDown);

    apply_rows(&mut app, vec![entry(3000, Some("node")), entry(8000, Some("python"))]);

    assert_eq!(app.selected_index(), Some(1));
    assert_eq!(selected_port(&app), Some(8000));
}

#[test]
fn collection_error_keeps_last_successful_rows_visible() {
    let mut app = app_with_rows(vec![entry(3000, Some("node"))]);
    app.finish_snapshot_refresh_attempt(
        Err(CollectorError::Platform { message: "cannot read /proc/net/tcp".to_owned() }),
        seconds(1),
        &query,
    );

    assert_eq!(app.visible_row_count(), 1);
    assert!(app.latest_error().is_some_and(|error| error.contains("cannot read /proc/net/tcp")));
}

#[test]
fn refresh_deadline_uses_completed_attempt_time() {
    let mut app = app_with_rows(vec![entry(3000, Some("node"))]);
    let completed_at = seconds(10);
    app.last_refresh_attempt = seconds(7);

    assert!(app.refresh_due_at(completed_at, seconds(3)));
    assert_eq!(app.time_until_refresh_at(completed_at, seconds(3)), Duration::zero());

    app.finish_snapshot_refresh_attempt(
        Ok(snapshot_from_rows(vec![entry(3000, Some("node"))])),
        completed_at,
        &query,
    );

    assert!(!app.refresh_due_at(completed_at, seconds(3)));
    assert_eq!(app.time_until_refresh_at(completed_at, seconds(3)), seconds(3));
    assert_eq!(app.refresh_age(seconds(12)), Some(seconds(2)));
}

#[test]
fn refresh_due_waits_for_in_flight_background_refresh() {
    let mut app = app_with_rows(vec![entry(3000, Some("node"))]);
    app.refresh_worker = Some(RefreshWorker { stale: false });

    assert!(app.refresh_in_progress());
    assert!(!app.refresh_due_at(seconds(10), seconds(1)));
    assert_eq!(app.time_until_refresh_at(seconds(10), seconds(1)), seconds(1));
}

#[test]
fn polling_finished_background_refresh_applies_snapshot() {
    let mut app = app_with_rows(vec![entry(3000, Some("node"))]);
    assert!(app.refresh());

    poll_rows(&mut app, vec![entry(3000, Some("node")), entry(5173, Some("vite"))]);

    assert!(!app.refresh_in_progress());
    assert!(shown(&app).contains(&5173));
    assert_eq!(app.latest_error(), None);
}

#[test]
fn refresh_worker_panic_is_reserved_for_owner_control_flow() {
    let mut app = app_with_rows(vec![entry(3000, Some("node"))]);
    app.refresh_worker = Some(RefreshWorker { stale: false });

    app.poll_refresh(
        Received::Failed(WorkerFailure {
            worker: "kickoutchi-refresh".to_owned(),
            message: "collector invariant failed".to_owned(),
        }),
        seconds(1),
        &query,
    );

    assert!(!app.refresh_in_progress());
    let failure = app.take_worker_failure().expect("owner must receive the worker failure");
    assert_eq!(
        failure.text(),
        "TUI worker kickoutchi-refresh panicked: collector invariant failed"
    );
    assert_eq!(app.latest_error(), None);
}

#[test]
fn protected_names_are_marked_from_config() {
    let app = app_with_rows(vec![entry(5432, Some("postgres"))]);

    assert!(app.visible_row(0).is_some_and(|row| row.protected));
}

fn tree_info(pid: u32, parent: Option<u32>, name: &str, marker: u64) -> TreeProcessInfo {
    TreeProcessInfo {
        pid,
        parent_pid: parent,
        unverified_parent_pid: None,
        parent_process_name: None,
        process_name: Some(name.to_owned()),
        start_time_marker: ProcessStartMarker::linux(marker).ok(),
        owner_uid: None,
        process_group: None,
    }
}

fn preview_of(infos: &Vec<TreeProcessInfo>, root_pid: u32) -> ProcessTreeTarget {
    plan_process_tree(root_pid, infos, &["postgres".to_owned()], Platform::Linux, 256)
        .expect("test preview root must exist")
}

fn finish_preview(app: &mut App, result: Result<ProcessTreeTarget, String>) {
    app.poll_tree_preview(Received::Value(result), HOST);
}

fn tree_confirmation_mut(app: &mut App) -> &mut TreeKillConfirmation {
    match &mut app.modal {
        Modal::ConfirmTreeKill(confirmation) => confirmation,
        _ => panic!("tree confirmation must be open"),
    }
}

fn set_tree_start_time(app: &mut App, ticks: u64) {
    tree_confirmation_mut(app).target.process_start_time_marker =
        ProcessStartMarker::linux(ticks).ok();
}

/// The surroundings of a tree kill from the table.
struct TableTreeTools<P, C, I, N, X> {
    kill_ports: P,
    context: C,
    pin_root: I,
    take_snapshot: N,
    execute: X,
}

impl<P, C, I, N, X> ReadsPorts for TableTreeTools<P, C, I, N, X>
where
    P: FnMut() -> Result<Vec<PortEntry>, CollectorError>,
{
    fn kill_ports(&mut self) -> Result<Vec<PortEntry>, CollectorError> {
        (self.kill_ports)()
    }
}

impl<P, C: FnMut(u32) -> ProcessContext, I, N, X> ReadsContext for TableTreeTools<P, C, I, N, X> {
    fn context(&mut self, pid: u32) -> ProcessContext {
        (self.context)(pid)
    }
}

impl<P, C, I, N, X> PinsRoot for TableTreeTools<P, C, I, N, X>
where
    I: FnMut(u32) -> Result<(), TreeKillOutcome>,
{
    fn pin_root(&mut self, pid: u32) -> Result<(), TreeKillOutcome> {
        (self.pin_root)(pid)
    }
}

impl<P, C, I, N, X> ReadsTable for TableTreeTools<P, C, I, N, X>
where
    N: FnMut() -> Result<Vec<TreeProcessInfo>, String>,
{
    fn take_snapshot(&mut self, scope: TreeSnapshotScope) -> Result<Vec<TreeProcessInfo>, String> {
        assert!(matches!(scope, TreeSnapshotScope::Tree { .. }));
        (self.take_snapshot)()
    }
}

impl<P, C, I, N, X> KillsScope for TableTreeTools<P, C, I, N, X>
where
    X: FnMut(&KillTarget, KillMode, &Vec<String>, ScopeAuthorization) -> TreeKillOutcome,
{
    fn execute(
        &mut self,
        root: &KillTarget,
        pgid: Option<u32>,
        mode: KillMode,
        protected: &Vec<String>,
        authorization: ScopeAuthorization,
    ) -> TreeKillOutcome {
        assert_eq!(pgid, None);
        (self.execute)(root, mode, protected, authorization)
    }
}

/// Execute the open tree confirmation; hand back whether a refresh is to start and
/// which roots were executed.
fn execute_tree(
    app: &mut App,
    fresh: impl Fn() -> Result<Vec<PortEntry>, CollectorError>,
    read_context: impl Fn() -> ProcessContext,
    snapshot: Vec<TreeProcessInfo>,
) -> (bool, Vec<u32>) {
    let executed = RefCell::new(Vec::new());
    let mut tools = Recorded::<_, ()>::new(TableTreeTools {
        kill_ports: || fresh(),
        context: |_pid: u32| read_context(),
        pin_root: |_pid: u32| -> Result<(), TreeKillOutcome> { Ok(()) },
        take_snapshot: || -> Result<Vec<TreeProcessInfo>, String> { Ok(snapshot.clone()) },
        execute: |root: &KillTarget,
                  _mode: KillMode,
                  _names: &Vec<String>,
                  _authorization: ScopeAuthorization|
         -> TreeKillOutcome {
            executed.borrow_mut().push(root.pid);
            TreeKillOutcome::Completed { signalled: snapshot.len() }
        },
    });
    let start = app.execute_tree_kill_confirmation_with(HOST, &mut tools);
    let roots = executed.borrow().clone();
    (start, roots)
}

#[test]
fn authority_refusal_precedes_tui_tree_signals() {
    let row = || entry_with_pid(3000, Some(18_422), Protocol::Tcp, Some("node"));
    let mut snapshot = snapshot_from_rows(vec![row()]);
    snapshot.sockets[0].owner_completeness =
        OwnerCompleteness::partial(&[EvidenceGapCode::OwnerAttributionIncomplete])
            .expect("one reason fits");
    let mut app = app_with_rows(vec![row()]);
    act(&mut app, Action::RequestTreeTerminate);
    set_tree_start_time(&mut app, 55);
    app.context_worker = None;
    app.context_requested = false;
    let infos = vec![tree_info(18_422, Some(1), "node", 55)];
    finish_preview(&mut app, Ok(preview_of(&infos, 18_422)));

    let (start, executed) = execute_tree(
        &mut app,
        || kill_ports_from_snapshot(&snapshot, Some(18_422), None),
        || context(55),
        infos,
    );

    assert!(!start, "authoritative refusal must not visibility-poll ports");
    assert!(executed.is_empty(), "refusal must precede every stop and delivery");
    assert!(
        app.kill_status().is_some_and(|status| status
            .contains("collecting ports before tree kill failed; no termination was sent")),
        "{:?}",
        app.kill_status(),
    );
}

#[test]
fn tree_request_opens_loading_modal_then_preview_populates_it() {
    let mut app = app_with_rows(vec![entry(3000, Some("node"))]);

    let effects = act(&mut app, Action::RequestTreeTerminate);

    assert_eq!(effects.preview.map(|request| request.root_pid), Some(3000));
    assert_eq!(app.modal(), ModalKind::ConfirmTreeKill);
    let confirmation = app.tree_confirmation().expect("tree request opens a confirmation");
    assert_eq!(confirmation.target.pid, 3000);
    assert_eq!(confirmation.mode, KillMode::Terminate);
    assert_eq!(confirmation.stage, TreeConfirmStage::Word);
    assert!(confirmation.preview.is_none(), "preview starts loading");

    let infos =
        vec![tree_info(3000, Some(1), "node", 55), tree_info(3001, Some(3000), "worker", 56)];
    finish_preview(&mut app, Ok(preview_of(&infos, 3000)));

    let confirmation = app.tree_confirmation().expect("confirmation stays open");
    assert_eq!(confirmation.preview.as_ref().map(ProcessTreeTarget::len), Some(2));
}

#[test]
fn submit_while_preview_is_loading_rejects_without_executing() {
    let mut app = app_with_rows(vec![entry(3000, Some("node"))]);
    act(&mut app, Action::RequestTreeTerminate);
    for ch in "tree".chars() {
        act(&mut app, Action::KillInputAppend(ch));
    }

    let effects = act(&mut app, Action::SubmitKillConfirmation);

    assert_eq!(effects.execute, None);
    let confirmation = app.tree_confirmation().expect("confirmation stays open");
    assert!(
        confirmation.input.is_empty(),
        "typing while the preview loads must not pre-arm execution",
    );
    assert!(
        confirmation.error.as_deref().is_some_and(|error| error.contains("still enumerating")),
        "{:?}",
        confirmation.error,
    );
    assert_eq!(app.modal(), ModalKind::ConfirmTreeKill);

    let infos = vec![tree_info(3000, Some(1), "node", 55)];
    finish_preview(&mut app, Ok(preview_of(&infos, 3000)));
    let confirmation = app.tree_confirmation().expect("confirmation stays open");
    assert!(confirmation.input.is_empty());
    assert!(confirmation.error.is_none());
}

#[test]
fn the_tree_word_executes_once_the_preview_is_there() {
    let mut app = app_with_rows(vec![entry(3000, Some("node"))]);
    act(&mut app, Action::RequestTreeTerminate);
    finish_selected_context(&mut app, context(55));
    let infos = vec![tree_info(3000, Some(1), "node", 55)];
    finish_preview(&mut app, Ok(preview_of(&infos, 3000)));
    for ch in "tree".chars() {
        act(&mut app, Action::KillInputAppend(ch));
    }

    let effects = act(&mut app, Action::SubmitKillConfirmation);

    assert_eq!(effects.execute, Some(Execution::Tree));
}

#[test]
fn execute_waits_for_process_metadata_before_tree_signals() {
    let mut app = app_with_rows(vec![entry(3000, Some("node"))]);
    act(&mut app, Action::RequestTreeTerminate);
    tree_confirmation_mut(&mut app).target.process_start_time_marker = None;
    let infos = vec![tree_info(3000, Some(1), "node", 55)];
    finish_preview(&mut app, Ok(preview_of(&infos, 3000)));

    let (start, executed) = execute_tree(
        &mut app,
        || panic!("metadata wait must precede port collection"),
        || panic!("metadata wait must precede synchronous context collection"),
        infos,
    );

    assert!(!start);
    assert!(executed.is_empty());
    let confirmation =
        app.tree_confirmation().expect("confirmation remains open while metadata loads");
    assert_eq!(app.modal(), ModalKind::ConfirmTreeKill);
    assert!(
        confirmation
            .error
            .as_deref()
            .is_some_and(|error| error.contains("still reading process metadata")),
        "{:?}",
        confirmation.error,
    );
}

#[test]
fn preflight_refusal_from_preview_closes_modal_with_status() {
    let mut app = app_with_rows(vec![entry(3000, Some("node"))]);
    act(&mut app, Action::RequestTreeTerminate);

    let infos =
        vec![tree_info(3000, Some(1), "node", 55), tree_info(3001, Some(3000), "postgres", 56)];
    finish_preview(&mut app, Ok(preview_of(&infos, 3000)));

    assert_eq!(app.modal(), ModalKind::Closed);
    assert!(app.tree_confirmation().is_none());
    assert!(
        app.kill_status().is_some_and(|status| status.contains("protected process PID 3001")),
        "{:?}",
        app.kill_status(),
    );
}

#[test]
fn preview_failure_closes_modal_with_status() {
    let mut app = app_with_rows(vec![entry(3000, Some("node"))]);
    act(&mut app, Action::RequestTreeTerminate);

    finish_preview(&mut app, Err("scan failed".to_owned()));

    assert_eq!(app.modal(), ModalKind::Closed);
    assert!(app.tree_confirmation().is_none());
    assert!(
        app.kill_status().is_some_and(|status| status.contains("scan failed")),
        "{:?}",
        app.kill_status(),
    );
}

#[test]
fn preview_discovering_a_protected_root_forces_the_protected_stage() {
    let mut app = app_with_rows(vec![entry(3000, None)]);
    act(&mut app, Action::RequestTreeTerminate);
    let confirmation = app.tree_confirmation().expect("confirmation opens");
    assert_eq!(confirmation.stage, TreeConfirmStage::Word);

    let infos = vec![tree_info(3000, Some(500), "postgres", 55)];
    finish_preview(&mut app, Ok(preview_of(&infos, 3000)));

    let confirmation = app.tree_confirmation().expect("confirmation stays open");
    assert_eq!(
        confirmation.stage,
        TreeConfirmStage::ProtectedRoot,
        "a root the tree scan classifies as protected must require the protected confirmation",
    );
    assert!(confirmation.target.protected);
    assert!(confirmation.input.is_empty());
}

#[test]
fn execute_refuses_root_that_fresh_scan_classifies_as_protected() {
    let mut app = app_with_rows(vec![entry(3000, None)]);
    act(&mut app, Action::RequestTreeTerminate);
    set_tree_start_time(&mut app, 55);
    app.context_worker = None;
    app.context_requested = false;
    let clean = vec![tree_info(3000, Some(500), "node", 55)];
    finish_preview(&mut app, Ok(preview_of(&clean, 3000)));

    let (start, executed) = execute_tree(
        &mut app,
        || Ok(vec![entry(3000, None)]),
        || context(55),
        vec![tree_info(3000, Some(500), "postgres", 55)],
    );

    assert!(!start, "protected-root refusal must not visibility-poll ports");
    assert!(executed.is_empty(), "refusal must precede any stop");
    assert!(
        app.kill_status().is_some_and(|status| status.contains("protected root")),
        "{:?}",
        app.kill_status(),
    );
}

#[test]
fn cancel_discards_confirmation_and_late_preview_results() {
    let mut app = app_with_rows(vec![entry(3000, Some("node"))]);
    act(&mut app, Action::RequestTreeTerminate);
    app.tree_preview_worker = Some(TreePreviewWorker { root_pid: 3000 });

    act(&mut app, Action::CancelKill);

    assert_eq!(app.modal(), ModalKind::Closed);
    assert!(app.tree_confirmation().is_none());
    assert_eq!(app.kill_status(), Some("tree kill cancelled"));
    assert!(
        app.tree_preview_worker.is_some(),
        "cancel keeps the one worker so it can be drained instead of replaced",
    );

    let infos = vec![tree_info(3000, Some(1), "node", 55)];
    finish_preview(&mut app, Ok(preview_of(&infos, 3000)));
    assert_eq!(app.modal(), ModalKind::Closed);
    assert!(app.tree_confirmation().is_none());
    assert!(app.tree_preview_worker.is_none());
}

#[test]
fn tree_request_waits_for_cancelled_preview_worker_to_finish() {
    let mut app = app_with_rows(vec![entry(3000, Some("node"))]);
    app.tree_preview_worker = Some(TreePreviewWorker { root_pid: 3000 });

    act(&mut app, Action::RequestTreeTerminate);

    assert_eq!(app.modal(), ModalKind::Closed);
    assert!(app.tree_confirmation().is_none());
    assert!(
        app.kill_status().is_some_and(|status| status.contains("still finishing")),
        "{:?}",
        app.kill_status(),
    );
}

#[test]
fn auto_refresh_pauses_while_tree_confirmation_is_open() {
    let mut app = app_with_rows(vec![entry(3000, Some("node"))]);
    act(&mut app, Action::RequestTreeTerminate);

    assert!(!app.refresh_due_at(seconds(10), seconds(1)));
    assert_eq!(app.time_until_refresh_at(seconds(10), seconds(1)), seconds(1));
}

#[test]
fn execute_happy_path_kills_leaves_first_and_refreshes_rows() {
    let mut app = app_with_rows(vec![entry(3000, Some("node"))]);
    act(&mut app, Action::RequestTreeTerminate);
    set_tree_start_time(&mut app, 55);
    app.context_worker = None;
    app.context_requested = false;
    let infos =
        vec![tree_info(3000, Some(1), "node", 55), tree_info(3001, Some(3000), "worker", 56)];
    finish_preview(&mut app, Ok(preview_of(&infos, 3000)));

    let (start, executed) = execute_tree(
        &mut app,
        || Ok(vec![entry(3000, Some("node"))]),
        || context(55),
        infos,
    );

    assert_eq!(app.modal(), ModalKind::Closed);
    assert!(app.tree_confirmation().is_none());
    assert_eq!(executed, [3000]);
    assert!(
        app.kill_status().is_some_and(|status| status.contains("sent SIGTERM to 2 process(es)")),
        "{:?}",
        app.kill_status(),
    );
    assert!(start);
    assert_eq!(app.visible_row_count(), 1);
    poll_rows(&mut app, Vec::new());
    assert_eq!(app.visible_row_count(), 0);
}

#[test]
fn redraw_requests_follow_input_and_worker_completion_without_poll_churn() {
    let mut app = app_with_rows(vec![entry(3000, Some("node"))]);
    assert!(app.take_redraw_request());
    act(&mut app, Action::Noop);
    app.poll_refresh(Received::Pending, seconds(1), &query);
    app.poll_process_context(Received::Pending);
    assert!(!app.take_redraw_request());

    act(&mut app, Action::StartSearch);
    assert!(app.take_redraw_request());
    app.set_modal_scroll(2);
    assert!(app.take_redraw_request());

    assert!(app.refresh());
    assert!(app.take_redraw_request());
    app.poll_refresh(Received::Pending, seconds(1), &query);
    assert!(!app.take_redraw_request());
    poll_rows(&mut app, Vec::new());
    assert!(app.take_redraw_request());
    assert_eq!(app.visible_row_count(), 0);
    app.poll_refresh(Received::Pending, seconds(1), &query);
    assert!(!app.take_redraw_request());
}

#[test]
fn failed_refresh_start_preserves_rows_and_allows_a_later_refresh() {
    let mut app = app_with_rows(vec![entry(3000, Some("node"))]);
    assert!(app.refresh());
    app.refresh_start_failed("worker capacity exhausted", seconds(1));
    assert!(!app.refresh_in_progress());
    assert_eq!(app.visible_row_count(), 1);
    assert!(app
        .latest_error()
        .is_some_and(|error| error.contains("worker capacity exhausted")));

    assert!(app.refresh());
    poll_rows(&mut app, Vec::new());
    assert_eq!(app.visible_row_count(), 0);
    assert!(app.latest_error().is_none());
}

#[test]
fn projection_failures_are_told_like_collection_failures() {
    let mut app = app_with_rows(vec![entry(3000, Some("node"))]);
    app.finish_snapshot_refresh_attempt(
        Err(CollectorError::Observation(ObservationError::LegacyProjectionLimitExceeded)),
        seconds(1),
        &query,
    );
    assert!(app.latest_error().is_some());
    assert_eq!(app.visible_row_count(), 1);
}

#[test]
fn the_modal_scrolls_within_its_bounds() {
    let mut app = app_with_rows(vec![entry(3000, Some("node"))]);
    act(&mut app, Action::OpenHelp);
    app.scroll_modal_by(3);
    assert_eq!(app.modal_scroll(), 3);
    app.scroll_modal_by(-5);
    assert_eq!(app.modal_scroll(), 0);
}

#[test]
fn a_tree_request_takes_what_an_earlier_preview_sent_first() {
    for sent in [
        Received::Value(Err("too late".to_owned())),
        Received::Disconnected,
        Received::Failed(WorkerFailure { worker: "preview".to_owned(), message: "gone".to_owned() }),
    ] {
        let failed = matches!(sent, Received::Failed(_));
        let mut app = app_with_rows(vec![entry(3000, Some("node"))]);
        app.tree_preview_worker = Some(TreePreviewWorker { root_pid: 4000 });

        let effects = app.apply_action(Action::RequestTreeTerminate, HOST, sent, &query);

        assert_eq!(app.modal(), ModalKind::ConfirmTreeKill);
        assert_eq!(
            effects.preview,
            Some(PreviewRequest { root_pid: 3000, platform: Platform::Linux })
        );
        assert_eq!(app.tree_preview_worker.as_ref().map(|worker| worker.root_pid), Some(3000));
        assert_eq!(app.kill_status(), None);
        assert_eq!(app.take_worker_failure().is_some(), failed);
    }
}

#[test]
fn only_a_tree_request_takes_what_a_preview_sent() {
    let mut app = app_with_rows(vec![entry(3000, Some("node"))]);
    act(&mut app, Action::RequestTreeTerminate);
    let infos = vec![tree_info(3000, Some(1), "node", 55)];

    app.apply_action(
        Action::KillInputAppend('t'),
        HOST,
        Received::Value(Ok(preview_of(&infos, 3000))),
        &query,
    );

    assert!(app.tree_confirmation().unwrap().preview.is_none());
    assert!(app.tree_preview_worker.is_some());
}

#[test]
fn a_preview_plans_the_tree_or_tells_why_not() {
    let request = PreviewRequest { root_pid: 3000, platform: Platform::Linux };
    let infos =
        vec![tree_info(3000, Some(1), "node", 55), tree_info(3001, Some(3000), "worker", 56)];

    let planned = preview_tree(request, Ok(infos), &["node".to_owned()]).unwrap();
    assert_eq!(planned.len(), 2);
    assert!(planned.root().unwrap().protected);

    assert_eq!(
        preview_tree(request, Ok(Vec::new()), &[]).unwrap_err(),
        "root PID 3000 is no longer running"
    );
    let crowd = (0..65_537).map(|pid| tree_info(pid, None, "node", 55)).collect();
    assert_eq!(
        preview_tree(request, Ok(crowd), &[]).unwrap_err(),
        "process snapshot exceeds the bounded 65536-PID index"
    );
    assert_eq!(
        preview_tree(request, Err("unreadable".to_owned()), &[]).unwrap_err(),
        "unreadable"
    );
}

#[test]
fn a_new_table_shows_its_first_snapshot() {
    let snapshot = snapshot_from_rows(vec![entry(3000, Some("node"))]);
    let (app, context) = App::new(&config(), Ok(snapshot), seconds(3), &query);
    assert_eq!(shown(&app), [3000]);
    assert_eq!(context, None);
    assert_eq!(app.refresh_age(seconds(5)), Some(seconds(2)));
    assert!(!app.refresh_in_progress());

    let (app, context) = App::new(&config(), Err(CollectorError::WorkerExited), seconds(3), &query);
    assert!(shown(&app).is_empty());
    assert_eq!(context, None);
    assert_eq!(app.latest_error(), Some("collector worker exited before returning"));
    assert_eq!(app.refresh_age(seconds(5)), None);
}
