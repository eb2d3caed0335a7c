use std::cell::{Cell, RefCell};

use kickoutchi::address::IpAddr;
use kickoutchi::answer::{
    answer_from_decoded, answer_from_line, read_confirmation_line_from, ByteCursor, ByteSource, Input,
};
use kickoutchi::collector::CollectorError;
use kickoutchi::config::Config;
use kickoutchi::evidence::{
    EndpointIdentity, EvidenceGapCode, OwnerCompleteness,
};
use kickoutchi::exit::ExitReason;
use kickoutchi::kill::{
    gather_kill_rows, resolve_kill_target, run_kill, run_kill_with, wait_for_confirmed_ports_to_clear, KillArgs,
    KillTargetError, PostKillPortsStatus, POST_KILL_SETTLE_ATTEMPTS_MAX,
};
use kickoutchi::model::{PermissionStatus, Platform, Protocol, SocketState};
use kickoutchi::observation::{
    NetworkSnapshot, ObservationError, ObservationScope, ObservationScopeKind, ProcessIdentity,
    ProcessStartMarker, ProcessTable, SnapshotCompleteness, SocketObservation,
};
use kickoutchi::operations::{
    Asks, Prepares, ReadsContext, ReadsPorts, Recorded, Signals, WatchesPorts,
};
use kickoutchi::ports::{PortEntry, ProcessContext};
use kickoutchi::process::{
    ConfirmationRequirement, HostFacts, KillMode, KillTarget, TerminationOutcome, UnsafePidReason,
    CONFIRMATION_INPUT_MAX_BYTES,
};
use kickoutchi::projection::kill_ports_from_snapshot;
use kickoutchi::sink::{BoundedRecord, IoError, IoErrorKind};
use kickoutchi::time::{Duration, SystemTime};

const HOST: HostFacts = HostFacts { own_pid: 4_242, user_id: 1_000 };

fn entry_with_pid(port: u16, pid: Option<u32>, protocol: Protocol, name: &str) -> PortEntry {
    PortEntry {
        protocol,
        local_addr: IpAddr::v4_localhost(),
        local_port: port,
        state: SocketState::Listen,
        pid,
        process_name: Some(name.to_owned()),
        executable_path: None,
        command_line: None,
        parent_pid: None,
        parent_process_name: None,
        protected: false,
        platform: Platform::Linux,
        permission: if pid.is_some() { PermissionStatus::Full } else { PermissionStatus::Partial },
        process_identity: pid.map(|pid| ProcessIdentity {
            pid,
            start_marker: ProcessStartMarker::linux(55).unwrap(),
        }),
        ipv6_scope: None,
    }
}

fn entry(port: u16) -> PortEntry {
    entry_with_pid(port, Some(18_422), Protocol::Tcp, "node")
}

/// The surroundings of a kill, one closure for each thing it may ask of them.
struct KillTools<C, P, V, Q, R, T, S> {
    context: C,
    kill_ports: P,
    visibility_ports: V,
    prompt: Q,
    prepare: R,
    terminate: T,
    sleep: S,
}

impl<C: FnMut(u32) -> ProcessContext, P, V, Q, R, T, S> ReadsContext
    for KillTools<C, P, V, Q, R, T, S>
{
    fn context(&mut self, pid: u32) -> ProcessContext {
        (self.context)(pid)
    }
}

impl<C, P, V, Q, R, T, S> ReadsPorts for KillTools<C, P, V, Q, R, T, S>
where
    P: FnMut() -> Result<Vec<PortEntry>, CollectorError>,
{
    fn kill_ports(&mut self) -> Result<Vec<PortEntry>, CollectorError> {
        (self.kill_ports)()
    }
}

impl<C, P, V, Q, R, T, S> WatchesPorts for KillTools<C, P, V, Q, R, T, S>
where
    V: FnMut() -> Result<Vec<PortEntry>, CollectorError>,
    S: FnMut(Duration),
{
    fn visibility_ports(&mut self) -> Result<Vec<PortEntry>, CollectorError> {
        (self.visibility_ports)()
    }

    fn sleep(&mut self, span: Duration) {
        (self.sleep)(span)
    }
}

impl<C, P, V, Q, R, T, S> Asks for KillTools<C, P, V, Q, R, T, S>
where
    Q: FnMut(&KillTarget, KillMode, ConfirmationRequirement) -> Result<bool, IoError>,
{
    fn prompt(
        &mut self,
        target: &KillTarget,
        mode: KillMode,
        requirement: ConfirmationRequirement,
    ) -> Result<bool, IoError> {
        (self.prompt)(target, mode, requirement)
    }
}

impl<H, C, P, V, Q, R, T, S> Prepares<H> for KillTools<C, P, V, Q, R, T, S>
where
    R: FnMut(u32) -> Result<H, TerminationOutcome>,
{
    fn prepare(&mut self, pid: u32) -> Result<H, TerminationOutcome> {
        (self.prepare)(pid)
    }
}

impl<H, C, P, V, Q, R, T, S> Signals<H> for KillTools<C, P, V, Q, R, T, S>
where
    T: FnMut(&H, &KillTarget, &Vec<String>, KillMode) -> TerminationOutcome,
{
    fn terminate(
        &mut self,
        handle: &H,
        target: &KillTarget,
        protected: &Vec<String>,
        mode: KillMode,
    ) -> TerminationOutcome {
        (self.terminate)(handle, target, protected, mode)
    }
}

/// Surroundings that only have contexts.
struct Contexts<C>(C);

impl<C: FnMut(u32) -> ProcessContext> ReadsContext for Contexts<C> {
    fn context(&mut self, pid: u32) -> ProcessContext {
        (self.0)(pid)
    }
}

fn contexts<C: FnMut(u32) -> ProcessContext>(read: C) -> Recorded<Contexts<C>, ()> {
    Recorded::new(Contexts(read))
}

/// Surroundings that are only looked at after a kill.
struct Settling<V, S> {
    ports: V,
    sleep: S,
}

impl<V, S> WatchesPorts for Settling<V, S>
where
    V: FnMut() -> Result<Vec<PortEntry>, CollectorError>,
    S: FnMut(Duration),
{
    fn visibility_ports(&mut self) -> Result<Vec<PortEntry>, CollectorError> {
        (self.ports)()
    }

    fn sleep(&mut self, span: Duration) {
        (self.sleep)(span)
    }
}

fn no_context(_pid: u32) -> ProcessContext {
    ProcessContext::empty()
}

fn no_ports() -> Result<Vec<PortEntry>, CollectorError> {
    Ok(Vec::new())
}

fn no_prompt(
    _target: &KillTarget,
    _mode: KillMode,
    _requirement: ConfirmationRequirement,
) -> Result<bool, IoError> {
    panic!("this kill must not prompt")
}

fn no_prepare(_pid: u32) -> Result<u32, TerminationOutcome> {
    panic!("this kill must not prepare termination")
}

fn prepare(pid: u32) -> Result<u32, TerminationOutcome> {
    Ok(pid)
}

fn no_sleep(_span: Duration) {}

fn kill_pid(pid: u32, force: bool, yes: bool) -> KillArgs {
    KillArgs { pid: Some(pid), port: None, force, yes, tree: false, group: false }
}

fn kill_port(port: u16, force: bool, yes: bool) -> KillArgs {
    KillArgs { pid: None, port: Some(port), force, yes, tree: false, group: false }
}

/// Port 3000 is open, but its owners may not be read.
fn permission_denied_owner_snapshot() -> NetworkSnapshot {
    let completeness =
        OwnerCompleteness::partial(&[EvidenceGapCode::OwnerPermissionDenied]).unwrap();
    NetworkSnapshot {
        scope: ObservationScope::new(ObservationScopeKind::CurrentNetworkNamespace, None, &[])
            .unwrap(),
        capture_started_at: SystemTime::from_unix_millis(1),
        capture_completed_at: SystemTime::from_unix_millis(2),
        completeness: SnapshotCompleteness::Partial,
        owner_completeness: completeness,
        sockets: vec![SocketObservation {
            local_endpoint: EndpointIdentity::new(
                Protocol::Tcp,
                IpAddr::v4_localhost(),
                3000,
                None,
            )
            .unwrap(),
            state: SocketState::Listen,
            timer: None,
            socket_token: None,
            owners: Vec::new(),
            owner_completeness: completeness,
        }],
        processes: ProcessTable::empty(),
        evidence_gaps: Vec::new(),
        omitted_evidence_gap_count: 0,
    }
}

#[test]
fn kill_port_resolution_refuses_ambiguous_pids() {
    let rows = vec![
        entry_with_pid(3000, Some(100), Protocol::Tcp, "node"),
        entry_with_pid(3000, Some(200), Protocol::Udp, "worker"),
    ];

    let error =
        resolve_kill_target(&kill_port(3000, false, true), &rows, HOST, &mut contexts(no_context))
            .expect_err("two PIDs on one port must be ambiguous");

    let KillTargetError::AmbiguousPort { port, candidates } = error else {
        panic!("expected ambiguous port error, got {error:?}");
    };
    assert_eq!(port, 3000);
    assert_eq!(candidates.len(), 2);
    assert!(candidates.iter().any(|candidate| candidate.contains("PID 100")));
    assert!(candidates.iter().any(|candidate| candidate.contains("PID 200")));
}

#[test]
fn kill_port_resolution_refuses_rows_without_pids() {
    let rows = vec![entry_with_pid(3000, None, Protocol::Tcp, "hidden")];

    let error =
        resolve_kill_target(&kill_port(3000, false, true), &rows, HOST, &mut contexts(no_context))
            .expect_err("a port without a PID is not killable");

    assert_eq!(error, KillTargetError::MissingPid { port: 3000 });
}

#[test]
fn kill_port_without_readable_pid_exits_permission_denied() {
    let rows = vec![entry_with_pid(3000, None, Protocol::Tcp, "hidden")];
    let terminated = Cell::new(false);
    let mut diagnostics = BoundedRecord::new();

    let reason = run_kill_with(
        &kill_port(3000, false, true),
        &Config::default(),
        &rows,
        HOST,
        &mut Recorded::new(KillTools {
            context: no_context,
            kill_ports: || panic!("missing PID target must fail before revalidation"),
            visibility_ports: no_ports,
            prompt: no_prompt,
            prepare: no_prepare,
            terminate: |_pid: &u32, _target: &KillTarget, _names: &Vec<String>, _mode: KillMode| {
                terminated.set(true);
                TerminationOutcome::Success
            },
            sleep: no_sleep,
        }),
        &mut diagnostics,
    );

    assert_eq!(reason, ExitReason::PermissionDenied);
    assert!(!terminated.get());
}

#[test]
fn kill_port_resolution_allows_one_pid_with_multiple_rows() {
    let rows = vec![
        entry_with_pid(3000, Some(100), Protocol::Tcp, "node"),
        entry_with_pid(3000, Some(100), Protocol::Udp, "node"),
    ];

    let target =
        resolve_kill_target(&kill_port(3000, false, true), &rows, HOST, &mut contexts(no_context))
            .expect("one PID can own multiple matching rows");

    assert_eq!(target.pid, 100);
    assert_eq!(target.ports_text(), "TCP 127.0.0.1:3000, UDP 127.0.0.1:3000");
}

#[test]
fn kill_pid_resolution_blocks_unsafe_pids_before_lookup() {
    let error =
        resolve_kill_target(&kill_pid(1, false, true), &Vec::new(), HOST, &mut contexts(no_context))
            .expect_err("PID 1 must be blocked even if no row exists");

    assert_eq!(error, KillTargetError::UnsafePid(UnsafePidReason::One));
}

#[test]
fn unsafe_pids_are_init_none_and_this_program() {
    let rows = vec![entry_with_pid(3000, Some(HOST.own_pid), Protocol::Tcp, "kick")];

    assert_eq!(
        resolve_kill_target(&kill_pid(0, false, true), &rows, HOST, &mut contexts(no_context)),
        Err(KillTargetError::UnsafePid(UnsafePidReason::Zero))
    );
    assert_eq!(
        resolve_kill_target(&kill_port(3000, false, true), &rows, HOST, &mut contexts(no_context)),
        Err(KillTargetError::UnsafePid(UnsafePidReason::CurrentProcess))
    );
}

#[test]
fn resolution_pins_the_snapshot_owner_marker_not_detached_context_identity() {
    let rows = vec![entry(3000)];
    let target = resolve_kill_target(
        &kill_pid(18_422, false, true),
        &rows,
        HOST,
        &mut contexts(|_pid: u32| {
            let mut context = ProcessContext::empty();
            context.process_start_time_marker = ProcessStartMarker::linux(99).ok();
            context
        }),
    )
    .expect("verified snapshot row resolves");

    assert_eq!(target.process_start_time_marker, ProcessStartMarker::linux(55).ok());
}

#[test]
fn kill_yes_sends_signal_without_prompt_for_unprotected_target() {
    let rows = vec![entry(3000)];
    let terminated = Cell::new(None);
    let mut diagnostics = BoundedRecord::new();

    let reason = run_kill_with(
        &kill_pid(18_422, false, true),
        &Config::default(),
        &rows,
        HOST,
        &mut Recorded::new(KillTools {
            context: no_context,
            kill_ports: || Ok(rows.clone()),
            visibility_ports: no_ports,
            prompt: no_prompt,
            prepare,
            terminate: |pid: &u32, _target: &KillTarget, _names: &Vec<String>, mode: KillMode| {
                terminated.set(Some((*pid, mode)));
                TerminationOutcome::Success
            },
            sleep: no_sleep,
        }),
        &mut diagnostics,
    );

    assert_eq!(reason, ExitReason::Success);
    assert_eq!(terminated.get(), Some((18_422, KillMode::Terminate)));
    let told = String::from_utf8(diagnostics.bytes).unwrap();
    assert!(told.contains("sent SIGTERM to PID 18422 (node)"), "{told}");
    assert!(told.contains("confirmed target ports are no longer visible"), "{told}");
}

#[test]
fn protected_process_yes_returns_exit_6_without_signalling() {
    let mut row = entry_with_pid(5432, Some(54_321), Protocol::Tcp, "postgres");
    row.protected = true;
    let rows = vec![row];
    let terminated = Cell::new(false);
    let mut diagnostics = BoundedRecord::new();

    let reason = run_kill_with(
        &kill_port(5432, false, true),
        &Config::default(),
        &rows,
        HOST,
        &mut Recorded::new(KillTools {
            context: no_context,
            kill_ports: || Ok(rows.clone()),
            visibility_ports: no_ports,
            prompt: no_prompt,
            prepare: no_prepare,
            terminate: |_pid: &u32, _target: &KillTarget, _names: &Vec<String>, _mode: KillMode| {
                terminated.set(true);
                TerminationOutcome::Success
            },
            sleep: no_sleep,
        }),
        &mut diagnostics,
    );

    assert_eq!(reason, ExitReason::ProtectedNeedsConfirmation);
    assert!(!terminated.get());
}

#[test]
fn force_kill_uses_force_word_confirmation_when_configured() {
    let rows = vec![entry(3000)];
    let prompted = Cell::new(None);
    let mut diagnostics = BoundedRecord::new();

    let reason = run_kill_with(
        &kill_pid(18_422, true, false),
        &Config::default(),
        &rows,
        HOST,
        &mut Recorded::new(KillTools {
            context: no_context,
            kill_ports: || Ok(rows.clone()),
            visibility_ports: no_ports,
            prompt: |_target: &KillTarget,
                     mode: KillMode,
                     requirement: ConfirmationRequirement|
             -> Result<bool, IoError> {
                prompted.set(Some((mode, requirement)));
                Ok(true)
            },
            prepare,
            terminate: |_pid: &u32, _target: &KillTarget, _names: &Vec<String>, _mode: KillMode| {
                TerminationOutcome::Success
            },
            sleep: no_sleep,
        }),
        &mut diagnostics,
    );

    assert_eq!(reason, ExitReason::Success);
    assert_eq!(prompted.get(), Some((KillMode::Force, ConfirmationRequirement::ForceWord)));
}

#[test]
fn declined_confirmation_cancels_without_signalling() {
    let rows = vec![entry(3000)];
    let terminated = Cell::new(false);
    let mut diagnostics = BoundedRecord::new();

    let reason = run_kill_with(
        &kill_pid(18_422, false, false),
        &Config::default(),
        &rows,
        HOST,
        &mut Recorded::new(KillTools {
            context: no_context,
            kill_ports: || Ok(rows.clone()),
            visibility_ports: no_ports,
            prompt: |_target: &KillTarget,
                     _mode: KillMode,
                     requirement: ConfirmationRequirement|
             -> Result<bool, IoError> {
                assert_eq!(requirement, ConfirmationRequirement::Yes);
                Ok(false)
            },
            prepare: no_prepare,
            terminate: |_pid: &u32, _target: &KillTarget, _names: &Vec<String>, _mode: KillMode| {
                terminated.set(true);
                TerminationOutcome::Success
            },
            sleep: no_sleep,
        }),
        &mut diagnostics,
    );

    assert_eq!(reason, ExitReason::KillCancelled);
    assert!(!terminated.get());
}

/// Kill PID 18422 or port 3000 with `--yes`, with what a fresh look finds.
fn kill_with_fresh_rows(
    args: &KillArgs,
    fresh: impl Fn() -> Result<Vec<PortEntry>, CollectorError>,
) -> (ExitReason, Option<u32>, bool) {
    let rows = vec![entry(3000)];
    let prepared = Cell::new(None);
    let terminated = Cell::new(false);
    let mut diagnostics = BoundedRecord::new();
    let reason = run_kill_with(
        args,
        &Config::default(),
        &rows,
        HOST,
        &mut Recorded::new(KillTools {
            context: no_context,
            kill_ports: || fresh(),
            visibility_ports: no_ports,
            prompt: no_prompt,
            prepare: |pid: u32| -> Result<u32, TerminationOutcome> {
                prepared.set(Some(pid));
                Ok(pid)
            },
            terminate: |_pid: &u32, _target: &KillTarget, _names: &Vec<String>, _mode: KillMode| {
                terminated.set(true);
                TerminationOutcome::Success
            },
            sleep: no_sleep,
        }),
        &mut diagnostics,
    );
    (reason, prepared.get(), terminated.get())
}

#[test]
fn target_is_revalidated_after_confirmation_before_signal() {
    let (reason, prepared, terminated) = kill_with_fresh_rows(&kill_pid(18_422, false, true), || {
        Ok(vec![entry_with_pid(4000, Some(18_422), Protocol::Tcp, "node")])
    });

    assert_eq!(reason, ExitReason::NoMatch);
    assert_eq!(prepared, Some(18_422));
    assert!(!terminated);
}

#[test]
fn prepare_failure_stops_before_revalidation_or_signal() {
    let rows = vec![entry(3000)];
    let collected = Cell::new(false);
    let terminated = Cell::new(false);
    let mut diagnostics = BoundedRecord::new();

    let reason = run_kill_with(
        &kill_pid(18_422, false, true),
        &Config::default(),
        &rows,
        HOST,
        &mut Recorded::new(KillTools {
            context: no_context,
            kill_ports: || {
                collected.set(true);
                Ok(rows.clone())
            },
            visibility_ports: no_ports,
            prompt: no_prompt,
            prepare: |_pid: u32| -> Result<u32, TerminationOutcome> {
                Err(TerminationOutcome::AlreadyExited)
            },
            terminate: |_pid: &u32, _target: &KillTarget, _names: &Vec<String>, _mode: KillMode| {
                terminated.set(true);
                TerminationOutcome::Success
            },
            sleep: no_sleep,
        }),
        &mut diagnostics,
    );

    assert_eq!(reason, ExitReason::NoMatch);
    assert!(!collected.get());
    assert!(!terminated.get());
}

#[test]
fn target_losing_readable_pid_during_revalidation_exits_permission_denied() {
    let snapshot = permission_denied_owner_snapshot();
    let (reason, prepared, terminated) =
        kill_with_fresh_rows(&kill_port(3000, false, true), || {
            kill_ports_from_snapshot(&snapshot, None, Some(3000))
        });

    assert_eq!(reason, ExitReason::PermissionDenied);
    // The denial comes after the handle was prepared; nothing goes through it.
    assert!(prepared.is_some());
    assert!(!terminated);
}

#[test]
fn authoritative_snapshot_refusal_reaches_zero_delivery() {
    let (reason, _, terminated) = kill_with_fresh_rows(&kill_pid(18_422, false, true), || {
        Err(CollectorError::Observation(ObservationError::PartialSocketSet))
    });

    assert_eq!(reason, ExitReason::Failure);
    assert!(!terminated);
}

#[test]
fn port_owner_moving_after_handle_preparation_never_signals_old_owner() {
    let rows = vec![entry(3000)];
    let events = RefCell::new(Vec::new());
    let mut diagnostics = BoundedRecord::new();

    let reason = run_kill_with(
        &kill_port(3000, false, true),
        &Config::default(),
        &rows,
        HOST,
        &mut Recorded::new(KillTools {
            context: no_context,
            kill_ports: || {
                events.borrow_mut().push("collect");
                Ok(vec![entry_with_pid(3000, Some(29_999), Protocol::Tcp, "replacement")])
            },
            visibility_ports: no_ports,
            prompt: no_prompt,
            prepare: |pid: u32| -> Result<u32, TerminationOutcome> {
                assert_eq!(pid, 18_422);
                events.borrow_mut().push("prepare");
                Ok(pid)
            },
            terminate: |_pid: &u32, _target: &KillTarget, _names: &Vec<String>, _mode: KillMode| {
                events.borrow_mut().push("deliver");
                TerminationOutcome::Success
            },
            sleep: no_sleep,
        }),
        &mut diagnostics,
    );

    assert_eq!(reason, ExitReason::Failure);
    assert_eq!(*events.borrow(), ["prepare", "collect"]);
}

#[test]
fn kill_pid_losing_readable_owner_during_revalidation_exits_permission_denied() {
    let snapshot = permission_denied_owner_snapshot();
    let (reason, _, terminated) = kill_with_fresh_rows(&kill_pid(18_422, false, true), || {
        kill_ports_from_snapshot(&snapshot, Some(18_422), None)
    });

    assert_eq!(reason, ExitReason::PermissionDenied);
    assert!(!terminated);
}

#[test]
fn target_becoming_protected_after_confirmation_blocks_signal() {
    let (reason, _, terminated) = kill_with_fresh_rows(&kill_pid(18_422, false, true), || {
        let mut protected = entry(3000);
        protected.protected = true;
        Ok(vec![protected])
    });

    assert_eq!(reason, ExitReason::ProtectedNeedsConfirmation);
    assert!(!terminated);
}

#[test]
fn missing_fresh_protection_name_refuses_without_delivery() {
    let (reason, _, delivered) = kill_with_fresh_rows(&kill_pid(18_422, false, true), || {
        let mut fresh = entry(3000);
        fresh.process_name = None;
        Ok(vec![fresh])
    });

    assert_eq!(reason, ExitReason::Failure);
    assert!(!delivered);
}

#[test]
fn confirmation_input_accepts_utf8_at_the_byte_limit() {
    let exact_payload = format!("{}é", "x".repeat(CONFIRMATION_INPUT_MAX_BYTES - 2));
    assert_eq!(exact_payload.len(), CONFIRMATION_INPUT_MAX_BYTES);

    for framed in [
        exact_payload.clone(),
        format!("{exact_payload}\n"),
        format!("{exact_payload}\r\n"),
    ] {
        let mut input = Input::new(ByteCursor::new(framed.into_bytes()));
        let answer = read_confirmation_line_from(&mut input, CONFIRMATION_INPUT_MAX_BYTES)
            .expect("exact payload must fit with any supported line framing");

        assert_eq!(answer, exact_payload);
    }
}

#[test]
fn overlong_confirmation_stops_after_limit_plus_one_bytes() {
    let mut bytes = vec![b'x'; CONFIRMATION_INPUT_MAX_BYTES + 1];
    bytes.push(b'\n');
    let mut input = Input::new(ByteCursor::new(bytes));

    let error = read_confirmation_line_from(&mut input, CONFIRMATION_INPUT_MAX_BYTES)
        .expect_err("first excess payload byte must be rejected");

    assert_eq!(error.kind, IoErrorKind::InvalidInput);
    assert!(error.message.contains(&format!("{CONFIRMATION_INPUT_MAX_BYTES}-byte limit")));
    assert_eq!(input.source.position, CONFIRMATION_INPUT_MAX_BYTES + 2);
}

#[test]
fn confirmation_input_handles_empty_lines_and_invalid_utf8() {
    for bytes in [b"".as_slice(), b"\n".as_slice(), b"\r\n".as_slice()] {
        let mut input = Input::new(ByteCursor::new(bytes.to_vec()));
        assert_eq!(
            read_confirmation_line_from(&mut input, CONFIRMATION_INPUT_MAX_BYTES).unwrap(),
            ""
        );
    }

    let mut invalid = Input::new(ByteCursor::new(vec![0xff, b'\n']));
    let error = read_confirmation_line_from(&mut invalid, CONFIRMATION_INPUT_MAX_BYTES)
        .expect_err("invalid UTF-8 must be rejected");
    assert_eq!(error.kind, IoErrorKind::InvalidData);
}

fn settle_target() -> KillTarget {
    let row = entry(3000);
    KillTarget::from_entries(18_422, &vec![&row], None)
}

#[test]
fn post_kill_settle_clears_when_ports_disappear_on_a_later_poll() {
    let target = settle_target();
    let mut collect_calls = 0;
    let mut sleeps = 0;

    let status = wait_for_confirmed_ports_to_clear(
        &target,
        &mut Recorded::<_, ()>::new(Settling {
            ports: || {
                collect_calls += 1;
                if collect_calls < 3 {
                    Ok(vec![entry(3000)])
                } else {
                    Ok(Vec::new())
                }
            },
            sleep: |_delay: Duration| sleeps += 1,
        }),
    );

    assert_eq!(status, PostKillPortsStatus::Cleared);
    assert_eq!(collect_calls, 3);
    assert_eq!(sleeps, 2);
}

#[test]
fn post_kill_settle_reports_still_visible_after_bounded_attempts() {
    let target = settle_target();
    let mut collect_calls = 0;
    let mut sleeps = 0;

    let status = wait_for_confirmed_ports_to_clear(
        &target,
        &mut Recorded::<_, ()>::new(Settling {
            ports: || {
                collect_calls += 1;
                Ok(vec![entry(3000)])
            },
            sleep: |_delay: Duration| sleeps += 1,
        }),
    );

    assert_eq!(status, PostKillPortsStatus::StillVisible);
    assert_eq!(collect_calls, POST_KILL_SETTLE_ATTEMPTS_MAX);
    // There is no sleep after the last look.
    assert_eq!(sleeps, POST_KILL_SETTLE_ATTEMPTS_MAX - 1);
}

#[test]
fn post_kill_settle_stays_visible_while_any_confirmed_port_remains() {
    let row_a = entry(3000);
    let row_b = entry(3001);
    let target = KillTarget::from_entries(18_422, &vec![&row_a, &row_b], None);
    let mut collect_calls = 0;
    let mut sleeps = 0;

    let status = wait_for_confirmed_ports_to_clear(
        &target,
        &mut Recorded::<_, ()>::new(Settling {
            ports: || {
                collect_calls += 1;
                // Port 3000 closes at once; 3001 never does.
                Ok(vec![entry(3001)])
            },
            sleep: |_delay: Duration| sleeps += 1,
        }),
    );

    assert_eq!(status, PostKillPortsStatus::StillVisible);
    assert_eq!(collect_calls, POST_KILL_SETTLE_ATTEMPTS_MAX);
    assert_eq!(sleeps, POST_KILL_SETTLE_ATTEMPTS_MAX - 1);
}

#[test]
fn post_kill_settle_fails_closed_when_refresh_errors() {
    let target = settle_target();
    let mut collect_calls = 0;
    let mut sleeps = 0;

    let status = wait_for_confirmed_ports_to_clear(
        &target,
        &mut Recorded::<_, ()>::new(Settling {
            ports: || {
                collect_calls += 1;
                if collect_calls == 1 {
                    Ok(vec![entry(3000)])
                } else {
                    Err(CollectorError::WorkerExited)
                }
            },
            sleep: |_delay: Duration| sleeps += 1,
        }),
    );

    assert!(matches!(status, PostKillPortsStatus::RefreshFailed(_)));
    assert_eq!(collect_calls, 2);
    assert_eq!(sleeps, 1);
}

#[test]
fn one_scope_of_a_kill_runs() {
    let mut args = kill_pid(18_422, false, false);
    let single = run_kill(
        &args,
        || panic!("no tree"),
        || panic!("no group"),
        || ExitReason::Success,
    );
    args.group = true;
    let group = run_kill(
        &args,
        || panic!("no tree"),
        || ExitReason::NoMatch,
        || panic!("no single kill"),
    );
    args.tree = true;
    let tree = run_kill(
        &args,
        || ExitReason::Failure,
        || panic!("no group"),
        || panic!("no single kill"),
    );

    assert_eq!(
        (single, group, tree),
        (ExitReason::Success, ExitReason::NoMatch, ExitReason::Failure)
    );
}

/// A source that fails once between two bytes.
struct Hiccup {
    answers: Vec<Result<Option<u8>, IoError>>,
}

impl ByteSource for Hiccup {
    fn next_byte(&mut self) -> Result<Option<u8>, IoError> {
        if self.answers.is_empty() {
            Ok(None)
        } else {
            self.answers.remove(0)
        }
    }
}

#[test]
fn a_failed_read_is_handed_on_and_the_next_line_is_read_as_ever() {
    let mut input = Input::new(Hiccup {
        answers: vec![
            Ok(Some(b'n')),
            Err(IoError::new(IoErrorKind::Other, "interrupted")),
            Ok(Some(b'y')),
            Ok(Some(b'\n')),
            Ok(Some(b'z')),
        ],
    });

    assert_eq!(
        read_confirmation_line_from(&mut input, 8),
        Err(IoError::new(IoErrorKind::Other, "interrupted"))
    );
    assert_eq!(read_confirmation_line_from(&mut input, 8), Ok("y".to_owned()));
    assert_eq!(read_confirmation_line_from(&mut input, 8), Ok("z".to_owned()));
    assert_eq!(read_confirmation_line_from(&mut input, 8), Ok(String::new()));
}

#[test]
fn a_kill_starts_from_marked_rows_or_not_at_all() {
    let config = Config { protected_processes: vec!["node".to_owned()], ..Config::default() };
    let mut diagnostics = BoundedRecord::new();

    let rows = gather_kill_rows(Ok(vec![entry(3000)]), &config, &mut diagnostics).unwrap();
    assert!(rows[0].protected);
    assert!(diagnostics.bytes.is_empty());

    assert_eq!(
        gather_kill_rows(
            Err(CollectorError::OwnershipPermissionDenied),
            &config,
            &mut diagnostics
        ),
        Err(ExitReason::PermissionDenied)
    );
    assert_eq!(
        gather_kill_rows(Err(CollectorError::WorkerExited), &config, &mut diagnostics),
        Err(ExitReason::Failure)
    );
    assert_eq!(
        String::from_utf8(diagnostics.bytes).unwrap(),
        "error: collecting ports failed: socket ownership permission was denied\n\
         error: collecting ports failed: collector worker exited before returning\n"
    );
}

#[test]
fn a_refused_handle_leaves_the_ports_unread() {
    let rows = vec![entry(3000)];
    let mut diagnostics = BoundedRecord::new();

    let reason = run_kill_with(
        &kill_pid(18_422, false, true),
        &Config::default(),
        &rows,
        HOST,
        &mut Recorded::new(KillTools {
            context: no_context,
            kill_ports: || panic!("a process without a handle is not looked up again"),
            visibility_ports: no_ports,
            prompt: no_prompt,
            prepare: |_pid: u32| -> Result<u32, TerminationOutcome> {
                Err(TerminationOutcome::AlreadyExited)
            },
            terminate: |_pid: &u32,
                        _target: &KillTarget,
                        _names: &Vec<String>,
                        _mode: KillMode|
             -> TerminationOutcome { panic!("nothing may be signalled") },
            sleep: no_sleep,
        }),
        &mut diagnostics,
    );

    assert_ne!(reason, ExitReason::Success);
}

#[test]
fn bytes_that_are_no_text_are_described_as_std_does() {
    let said = |bytes: Vec<u8>| {
        let expected = String::from_utf8(bytes.clone()).unwrap_err().to_string();
        let error = answer_from_line(bytes, CONFIRMATION_INPUT_MAX_BYTES)
            .expect_err("invalid UTF-8 must be rejected");
        assert_eq!(error.kind, IoErrorKind::InvalidData);
        assert_eq!(error.message, expected);
        error.message
    };

    assert_eq!(said(vec![b'y', 0xff]), "invalid utf-8 sequence of 1 bytes from index 1");
    assert_eq!(said(vec![0xe2, 0x82]), "incomplete utf-8 byte sequence from index 0");

    assert_eq!(answer_from_decoded(Ok("yes".to_owned())), Ok("yes".to_owned()));
    assert_eq!(
        answer_from_decoded(Err("bad".to_owned())),
        Err(IoError::new(IoErrorKind::InvalidData, "bad"))
    );
}
