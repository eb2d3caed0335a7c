use std::collections::VecDeque;

use serde_json::Value;

use kickoutchi::address::{ip_address_text, IpAddr};
use kickoutchi::collector::CollectorError;
use kickoutchi::config::{Config, EndpointLabel, LabelRegistry};
use kickoutchi::evidence::{
    EndpointIdentity, EvidenceGapCode, EvidenceImpact, OwnerCompleteness,
};
use kickoutchi::exit::ExitReason;
use kickoutchi::model::{socket_state_name, Ipv6Scope, Protocol, SocketState};
use kickoutchi::observation::{
    EvidenceGap, MetadataCompleteness, NetworkSnapshot, ObservationError, ObservationScope,
    ObservationScopeKind, OwnerObservation, PlatformSocketToken, ProcessIdentity,
    ProcessObservation, ProcessStartMarker, ProcessTable, SnapshotCompleteness, SocketObservation,
    UnverifiedOwnerReason, SERIALIZED_OWNERS_MAX,
};
use kickoutchi::query::FilterTerm;
use kickoutchi::signal::{SignalSlot, WatchSignalReservation};
use kickoutchi::sink::{
    BoundedRecord, IoError, IoErrorKind, Output, Sink, Writer, WATCH_RECORD_MAX_BYTES,
};
use kickoutchi::time::{Duration, SystemTime};
use kickoutchi::watch_emit::{
    baseline_event_result, draw_events, event_order_rank, write_ordered_events, EventDraft,
    EventSettings, EventStream, SnapshotIndex, EVENT_ORDER_RANK_COUNT, WATCH_EVENT_BATCH_MAX,
};
use kickoutchi::watch_event::{Certainty, EventKind, WatchEvent};
use kickoutchi::watch_filter::{
    evaluate_event, evaluate_side, FilterCache, FilterResult, OwnerPidConstraint, Truth,
};
use kickoutchi::watch_gaps::{retain_bounded_gap, GapIndex, WATCH_EVENT_GAPS_MAX};
use kickoutchi::watch_loop::{run_watch, run_watch_loop};
use kickoutchi::watch_options::{
    parse_address, parse_duration_token, ProtocolSelection, WatchArgs, WatchOptions,
    WATCH_DURATION_MAX_MILLIS, WATCH_DURATION_MIN_MILLIS, WATCH_INTERVAL_DEFAULT_TOKEN,
    WATCH_INTERVAL_MAX_MILLIS, WATCH_INTERVAL_MIN_MILLIS,
};
use kickoutchi::watch_output::{
    observation_times, ObservationTimes, OutputError, PublicOutputError,
};
use kickoutchi::watch_record::{
    gap_from_result, retain_event_evidence, write_endpoint_event, write_gap, write_human_event,
    write_json_record, EndpointEventData, EvidenceItem, OwnerSet, RecordData, Serialized,
    WatchRecord, WATCH_EVENT_EVIDENCE_MAX,
};
use kickoutchi::watch_runtime::{
    next_poll_after, should_stop, stop_requested, wait_step, wait_until, ProductionRuntime, WaitStep,
    WatchHost, WatchRuntime,
};
use kickoutchi::watch_source::{EventRecord, EventSource};

const ROUNDS: u64 = 10_000;

fn millis(count: u64) -> Duration {
    Duration::from_millis(count)
}

fn at(millis: u64) -> SystemTime {
    SystemTime::from_unix_millis(millis)
}

/// An output that keeps everything.
#[derive(Default)]
struct Memory {
    bytes: Vec<u8>,
}

impl Writer for Memory {
    fn write_all(&mut self, bytes: &[u8]) -> Result<(), IoError> {
        self.bytes.extend_from_slice(bytes);
        Ok(())
    }

    fn flush(&mut self) -> Result<(), IoError> {
        Ok(())
    }
}

fn memory() -> Output<Memory> {
    Output::new(Memory::default())
}

fn text_of(output: Output<Memory>) -> String {
    String::from_utf8(output.writer.bytes).unwrap()
}

fn object(fields: Vec<(&str, Value)>) -> Value {
    let mut map = serde_json::Map::new();
    for (key, value) in fields {
        map.insert(key.to_owned(), value);
    }
    Value::Object(map)
}

fn optional<T: Into<Value>>(value: Option<T>) -> Value {
    match value {
        Some(value) => value.into(),
        None => Value::Null,
    }
}

fn marker_value(marker: ProcessStartMarker) -> Value {
    match marker {
        ProcessStartMarker::LinuxStartTicks(ticks) => {
            object(vec![("kind", "linux_start_ticks".into()), ("ticks", ticks.into())])
        }
        ProcessStartMarker::MacosStartTime { seconds, microseconds } => object(vec![
            ("kind", "macos_start_time".into()),
            ("seconds", seconds.into()),
            ("microseconds", microseconds.into()),
        ]),
        ProcessStartMarker::WindowsCreationTime(time) => {
            object(vec![("kind", "windows_creation_time".into()), ("creation_time", time.into())])
        }
    }
}

fn owner_value(owner: &OwnerObservation) -> Value {
    match owner {
        OwnerObservation::Verified(identity) => object(vec![
            ("kind", "verified".into()),
            (
                "identity",
                object(vec![
                    ("pid", identity.pid.into()),
                    ("start_marker", marker_value(identity.start_marker)),
                ]),
            ),
        ]),
        OwnerObservation::UnverifiedPid { pid, reason } => object(vec![
            ("kind", "unverified_pid".into()),
            ("pid", (*pid).into()),
            ("reason", format!("{reason:?}").into()),
        ]),
    }
}

fn owner_set_value(set: &OwnerSet) -> Value {
    object(vec![
        ("owners", Value::Array(set.owners.iter().map(owner_value).collect())),
        ("omitted_owner_count", set.omitted_owner_count.into()),
        ("completeness", set.completeness.into()),
        ("reasons", Value::Array(set.reasons.iter().map(|name| (*name).into()).collect())),
    ])
}

fn endpoint_value(endpoint: &EndpointIdentity) -> Value {
    object(vec![
        ("protocol", endpoint.protocol.lower_label().into()),
        ("address", ip_address_text(endpoint.address).into()),
        ("port", endpoint.port.into()),
        (
            "ipv6_scope",
            match endpoint.ipv6_scope {
                None => Value::Null,
                Some(Ipv6Scope::InterfaceIndex(index)) => object(vec![
                    ("kind", "interface_index".into()),
                    ("interface_index", index.into()),
                ]),
                Some(Ipv6Scope::Unavailable) => object(vec![("kind", "unavailable".into())]),
            },
        ),
    ])
}

fn state_value(state: SocketState) -> Value {
    object(vec![
        ("kind", socket_state_name(state).into()),
        (
            "native_code",
            match state {
                SocketState::Unknown(code) => code.into(),
                _ => Value::Null,
            },
        ),
    ])
}

fn token_value(token: &PlatformSocketToken) -> Value {
    let (kind, value) = match token {
        PlatformSocketToken::LinuxInode(inode) => ("linux_inode", *inode),
        PlatformSocketToken::MacosSocketId(id) => ("macos_socket_id", *id),
    };
    object(vec![("kind", kind.into()), ("value", value.into())])
}

fn gap_value(gap: &EvidenceGap) -> Value {
    object(vec![
        ("impact", gap.impact.name().into()),
        ("code", gap.code.name().into()),
        ("endpoint", optional(gap.endpoint.as_ref().map(endpoint_value))),
        ("pid", optional(gap.pid)),
        ("message", gap.message.clone().into()),
    ])
}

fn record_value(record: &WatchRecord<'_>) -> Value {
    let data = match &record.data {
        RecordData::Endpoint(data) => object(vec![
            ("endpoint", endpoint_value(&data.endpoint)),
            ("state", state_value(data.state)),
            ("previous_owners", optional(data.previous_owners.as_ref().map(owner_set_value))),
            ("current_owners", optional(data.current_owners.as_ref().map(owner_set_value))),
            ("previous_socket_token", optional(data.previous_socket_token.as_ref().map(token_value))),
            ("current_socket_token", optional(data.current_socket_token.as_ref().map(token_value))),
            ("multiplicity", data.multiplicity.into()),
            ("label", optional(data.label)),
            ("filter_result", data.filter_result.into()),
            ("certainty", data.certainty.into()),
            (
                "evidence",
                Value::Array(
                    data.evidence
                        .iter()
                        .map(|item| {
                            object(vec![
                                ("code", item.code.into()),
                                ("source", item.source.into()),
                                ("certainty", item.certainty.into()),
                                ("message", item.message.into()),
                            ])
                        })
                        .collect(),
                ),
            ),
            ("omitted_evidence_count", data.omitted_evidence_count.into()),
            (
                "evidence_gaps",
                Value::Array(data.evidence_gaps.iter().map(|gap| gap_value(gap)).collect()),
            ),
            ("omitted_evidence_gap_count", data.omitted_evidence_gap_count.into()),
        ]),
        RecordData::Gap(data) => object(vec![
            (
                "error",
                object(vec![
                    ("code", data.error_code.into()),
                    ("message", data.error_message.clone().into()),
                ]),
            ),
            ("certainty", data.certainty.into()),
            ("consecutive_failures", data.consecutive_failures.into()),
            ("completeness", optional(data.completeness)),
            (
                "evidence_gaps",
                Value::Array(data.evidence_gaps.iter().map(|gap| gap_value(gap)).collect()),
            ),
            ("omitted_evidence_gap_count", data.omitted_evidence_gap_count.into()),
        ]),
    };
    object(vec![
        ("schema", record.schema.into()),
        ("version", record.version.into()),
        ("sequence", record.sequence.into()),
        ("event", record.event.into()),
        ("observation", times_value(record.observation)),
        ("data", data),
    ])
}

fn times_value(times: ObservationTimes) -> Value {
    object(vec![
        ("previous_completed_unix_ms", optional(times.previous_completed_unix_ms)),
        ("attempt_started_unix_ms", times.attempt_started_unix_ms.into()),
        ("attempt_completed_unix_ms", times.attempt_completed_unix_ms.into()),
    ])
}

fn serialize(record: &WatchRecord<'_>) -> Serialized {
    let bytes = serde_json::to_vec(&record_value(record)).unwrap();
    let mut bounded = BoundedRecord::new();
    let result = match bounded.write(&bytes) {
        Ok(_) => Ok(()),
        Err(error) => Err(PublicOutputError::Io(error)),
    };
    Serialized { record: bounded, result }
}

fn parsed(line: &str) -> Value {
    serde_json::from_str(line).unwrap()
}

#[test]
fn watch_signal_reservation_rejects_overlap_and_fails_closed() {
    let mut slot = SignalSlot::new();
    let first = WatchSignalReservation::acquire(&mut slot).unwrap();
    let overlap = WatchSignalReservation::acquire(&mut slot)
        .err()
        .expect("overlapping reservation must be refused");
    assert_eq!(overlap.kind, IoErrorKind::WouldBlock);
    first.release(&mut slot);

    let mut stranded = WatchSignalReservation::acquire(&mut slot).unwrap();
    stranded.keep_reserved();
    stranded.release(&mut slot);
    assert!(slot.reserved);
    assert_eq!(
        WatchSignalReservation::acquire(&mut slot)
            .err()
            .expect("a failed restoration must retain ownership")
            .kind,
        IoErrorKind::WouldBlock
    );
}

#[test]
fn refused_arguments_watch_nothing() {
    let mut runtime = fake_runtime(vec![Ok(snapshot())]);
    let mut stdout = memory();
    let mut stderr = memory();
    let args = WatchArgs { interval: "soon".to_owned(), ..watch_args() };

    let reason = run_watch(
        &args,
        None,
        Ok(Vec::new()),
        &Config::default(),
        &mut runtime,
        &mut EventRecord::new(PlainSource),
        &mut stdout,
        &mut stderr,
        &serialize,
        ROUNDS,
    );

    assert_eq!(reason, Some(ExitReason::InvalidArguments));
    assert_eq!(runtime.host.collect_count, 0);
    assert!(stdout.writer.bytes.is_empty());
    assert!(text_of(stderr).starts_with("error: "));
}

#[test]
fn duration_parser_accepts_boundaries_and_rejects_noncanonical_tokens() {
    let interval_min = millis(WATCH_INTERVAL_MIN_MILLIS);
    let interval_max = millis(WATCH_INTERVAL_MAX_MILLIS);
    let duration_min = millis(WATCH_DURATION_MIN_MILLIS);
    let duration_max = millis(WATCH_DURATION_MAX_MILLIS);
    assert_eq!(parse_duration_token("100ms", interval_min, interval_max).unwrap(), interval_min);
    assert_eq!(parse_duration_token("60s", interval_min, interval_max).unwrap(), interval_max);
    assert_eq!(parse_duration_token("7d", duration_min, duration_max).unwrap(), duration_max);
    assert!(parse_duration_token("99ms", duration_min, duration_max).is_err());
    assert!(parse_duration_token("604800001ms", duration_min, duration_max).is_err());
    for invalid in ["0ms", "99ms", "60001ms", "-1s", "+1s", "1.5s", "1M", "1m30s", "1 s"] {
        assert!(parse_duration_token(invalid, interval_min, interval_max).is_err(), "{invalid}");
    }
}

#[test]
fn observation_times_preserve_optional_previous_and_reject_pre_epoch_values() {
    let times = observation_times(Some(at(1)), at(2), at(3)).unwrap();

    assert_eq!(times.previous_completed_unix_ms, Some(1));
    assert_eq!(times.attempt_started_unix_ms, 2);
    assert_eq!(times.attempt_completed_unix_ms, 3);
    assert_eq!(observation_times(None, at(4), at(5)).unwrap().previous_completed_unix_ms, None);

    let pre_epoch = SystemTime { nanos: -1_000_000 };
    assert!(matches!(
        observation_times(None, pre_epoch, at(0)),
        Err(OutputError::Public(PublicOutputError::ClockUnavailable))
    ));
}

#[test]
fn monotonic_deadlines_accept_exact_boundaries_and_reject_overflow() {
    let one_nanosecond = Duration::from_nanos(1);
    let last_before_max = Duration::max_value()
        .checked_sub(one_nanosecond)
        .expect("one nanosecond is below the maximum duration");
    assert_eq!(next_poll_after(last_before_max, one_nanosecond), Some(Duration::max_value()));
    assert_eq!(next_poll_after(Duration::max_value(), one_nanosecond), None);

    let deadline = Duration::from_secs(1);
    let just_before_deadline = deadline
        .checked_sub(one_nanosecond)
        .expect("one nanosecond is below the test deadline");
    assert!(!should_stop(false, Some((just_before_deadline, deadline))));
    assert!(should_stop(false, Some((deadline, deadline))));
    assert!(should_stop(true, None));
    assert!(!should_stop(false, None));
}

#[test]
fn waits_sleep_in_short_steps_until_they_are_over() {
    assert_eq!(wait_step(millis(0), millis(100), None), WaitStep::Sleep(millis(25)));
    assert_eq!(wait_step(millis(90), millis(100), None), WaitStep::Sleep(millis(10)));
    assert_eq!(wait_step(millis(90), millis(100), Some(millis(95))), WaitStep::Sleep(millis(5)));
    assert_eq!(wait_step(millis(100), millis(100), None), WaitStep::Ready);
    assert_eq!(wait_step(millis(100), millis(100), Some(millis(100))), WaitStep::Stop);
}

/// The emission loop makes one pass for each rank, so a rank outside that range
/// would drop every event that carries it.
#[test]
fn event_order_ranks_are_distinct_and_fit_the_emission_passes() {
    let mut seen = Vec::new();
    for filter_result in
        [FilterResult::NotApplied, FilterResult::Matched, FilterResult::Indeterminate]
    {
        for certainty in [
            Certainty::Proven,
            Certainty::Estimated,
            Certainty::Heuristic,
            Certainty::Unknown,
        ] {
            let rank = event_order_rank(filter_result, certainty);
            assert!(
                rank < EVENT_ORDER_RANK_COUNT,
                "rank {rank} for {filter_result:?}/{certainty:?} is outside the emission passes",
            );
            seen.push(rank);
        }
    }
    seen.sort_unstable();
    let distinct = seen.len();
    seen.dedup();
    assert_eq!(seen.len(), distinct, "ordering ranks must not collide");
    assert_eq!(distinct, EVENT_ORDER_RANK_COUNT as usize);
}

fn watch_args() -> WatchArgs {
    WatchArgs {
        tcp: false,
        udp: false,
        address: None,
        scope_id: None,
        port: None,
        filter: None,
        interval: WATCH_INTERVAL_DEFAULT_TOKEN.to_owned(),
        duration: None,
        json: false,
    }
}

#[test]
fn default_interval_is_one_second_and_scope_requires_ipv6_address() {
    let args = WatchArgs { duration: Some("100ms".to_owned()), json: true, ..watch_args() };
    assert_eq!(
        WatchOptions::parse(&args, None, Ok(Vec::new())).unwrap().interval,
        Duration::from_secs(1)
    );

    let invalid = WatchArgs { scope_id: Some(1), ..args };
    assert!(WatchOptions::parse(&invalid, None, Ok(Vec::new())).is_err());
}

#[test]
fn protocol_flags_normalize_to_exact_internal_selection() {
    for (tcp, udp, expected, includes_tcp, includes_udp, filter_active) in [
        (false, false, ProtocolSelection::Both, true, true, false),
        (true, false, ProtocolSelection::Tcp, true, false, true),
        (false, true, ProtocolSelection::Udp, false, true, true),
        (true, true, ProtocolSelection::Both, true, true, true),
    ] {
        let args = WatchArgs { tcp, udp, ..watch_args() };

        let options =
            WatchOptions::parse(&args, None, Ok(Vec::new())).expect("protocol flags are valid");
        assert_eq!(options.protocols, expected);
        assert_eq!(options.protocols.includes(Protocol::Tcp), includes_tcp);
        assert_eq!(options.protocols.includes(Protocol::Udp), includes_udp);
        assert_eq!(options.filter_active, filter_active);
    }
}

#[test]
fn options_refuse_what_cannot_be_watched() {
    let refused = |args: WatchArgs, literal| {
        WatchOptions::parse(&args, literal, Ok(Vec::new())).err().is_some()
    };
    assert!(refused(WatchArgs { interval: "1".to_owned(), ..watch_args() }, None));
    assert!(refused(WatchArgs { duration: Some("8d".to_owned()), ..watch_args() }, None));
    assert!(refused(WatchArgs { address: Some("nowhere".to_owned()), ..watch_args() }, None));
    assert!(refused(
        WatchArgs { address: Some("::1".to_owned()), scope_id: Some(0), ..watch_args() },
        Some(IpAddr::v6_localhost())
    ));
    assert!(!refused(
        WatchArgs { address: Some("::1".to_owned()), scope_id: Some(4), ..watch_args() },
        Some(IpAddr::v6_localhost())
    ));
    assert_eq!(
        WatchOptions::parse(&watch_args(), None, Err("bad filter".to_owned())).err(),
        Some("invalid filter: bad filter".to_owned())
    );
    assert_eq!(
        parse_address("::ffff:127.0.0.1", Some(IpAddr::V6(0xffff_7f00_0001))),
        Ok(IpAddr::v4_localhost())
    );
}

struct FakeRuntime {
    snapshots: VecDeque<Result<NetworkSnapshot, CollectorError>>,
    monotonic: Duration,
    wall: u64,
    cancelled: bool,
    cancel_at: Option<Duration>,
    collection_durations: VecDeque<Duration>,
    monotonic_step: Duration,
    collect_count: usize,
    wall_count: usize,
    wall_fail_on: Option<usize>,
    wall_values: VecDeque<Result<SystemTime, ObservationError>>,
}

impl FakeRuntime {
    fn new(snapshots: Vec<Result<NetworkSnapshot, CollectorError>>) -> Self {
        Self {
            snapshots: snapshots.into(),
            monotonic: Duration::zero(),
            wall: 1_000,
            cancelled: false,
            cancel_at: None,
            collection_durations: VecDeque::new(),
            monotonic_step: Duration::zero(),
            collect_count: 0,
            wall_count: 0,
            wall_fail_on: None,
            wall_values: VecDeque::new(),
        }
    }

    fn pass(&mut self, span: Duration) {
        self.monotonic = self.monotonic.checked_add(span).unwrap();
        if self.cancel_at.is_some_and(|deadline| self.monotonic.nanos >= deadline.nanos) {
            self.cancelled = true;
        }
    }
}

fn fake_runtime(
    snapshots: Vec<Result<NetworkSnapshot, CollectorError>>,
) -> ProductionRuntime<FakeRuntime> {
    ProductionRuntime::new(FakeRuntime::new(snapshots))
}

impl WatchHost for FakeRuntime {
    fn collect(&mut self) -> Result<NetworkSnapshot, CollectorError> {
        self.collect_count += 1;
        let span = self.collection_durations.pop_front().unwrap_or(Duration::zero());
        self.pass(span);
        self.snapshots.pop_front().unwrap_or(Err(CollectorError::Observation(
            ObservationError::SocketTableUnavailable,
        )))
    }

    fn monotonic(&mut self) -> Duration {
        let now = self.monotonic;
        self.monotonic = now.checked_add(self.monotonic_step).unwrap();
        now
    }

    fn wall(&mut self) -> Result<SystemTime, ObservationError> {
        self.wall_count += 1;
        if let Some(value) = self.wall_values.pop_front() {
            return value;
        }
        if self.wall_fail_on == Some(self.wall_count) {
            return Err(ObservationError::ClockUnavailable);
        }
        self.wall += 1;
        Ok(at(self.wall))
    }

    fn sleep(&mut self, duration: Duration) {
        self.pass(duration);
    }

    fn cancelled(&mut self) -> bool {
        self.cancelled
    }
}

fn unavailable() -> Result<NetworkSnapshot, CollectorError> {
    Err(CollectorError::Observation(ObservationError::SocketTableUnavailable))
}

fn process(name: Option<&str>, metadata: MetadataCompleteness) -> ProcessObservation {
    ProcessObservation {
        name: name.map(str::to_owned),
        executable_path: None,
        command_line: None,
        parent_pid: None,
        parent_process_name: None,
        metadata_omission: None,
        metadata_completeness: metadata,
    }
}

fn identity_of(pid: u32) -> ProcessIdentity {
    ProcessIdentity {
        pid,
        start_marker: ProcessStartMarker::linux(u64::from(pid) + 1).unwrap(),
    }
}

/// Three sockets: node on 3000, postgres with gaps in its metadata on 5432, and
/// chrome on 5353.
fn snapshot() -> NetworkSnapshot {
    let mut sockets = Vec::new();
    let mut processes = ProcessTable::empty();
    for (protocol, port, state, pid, name, metadata) in [
        (Protocol::Tcp, 3000, SocketState::Listen, 18_422, "node", MetadataCompleteness::Complete),
        (
            Protocol::Tcp,
            5432,
            SocketState::Listen,
            812,
            "postgres",
            MetadataCompleteness::Partial,
        ),
        (Protocol::Udp, 5353, SocketState::Bound, 2201, "chrome", MetadataCompleteness::Complete),
    ] {
        let identity = identity_of(pid);
        sockets.push(SocketObservation {
            local_endpoint: EndpointIdentity::new(protocol, IpAddr::v4_localhost(), port, None)
                .unwrap(),
            state,
            timer: None,
            socket_token: None,
            owners: vec![OwnerObservation::Verified(identity)],
            owner_completeness: OwnerCompleteness::Complete,
        });
        processes.insert(identity, process(Some(name), metadata));
    }
    NetworkSnapshot {
        scope: ObservationScope::new(ObservationScopeKind::CurrentNetworkNamespace, None, &[])
            .unwrap(),
        capture_started_at: at(1),
        capture_completed_at: at(1),
        completeness: SnapshotCompleteness::Complete,
        owner_completeness: OwnerCompleteness::Complete,
        sockets,
        processes,
        evidence_gaps: Vec::new(),
        omitted_evidence_gap_count: 0,
    }
}

/// A socket by socket comparison, in the order of the ports.
struct PlainSource;

fn port_group(socket: &SocketObservation) -> u64 {
    u64::from(socket.local_endpoint.port)
}

impl EventSource for PlainSource {
    fn baseline(&mut self, current: &NetworkSnapshot) -> Result<EventStream, String> {
        let drafts = current
            .sockets
            .iter()
            .enumerate()
            .map(|(index, socket)| EventDraft {
                kind: EventKind::Baseline,
                previous_socket: None,
                current_socket: Some(index),
                multiplicity: 1,
                certainty: Certainty::Proven,
                group: port_group(socket),
            })
            .collect();
        Ok(baseline_event_result(drafts))
    }

    fn compare(
        &mut self,
        previous: &NetworkSnapshot,
        current: &NetworkSnapshot,
    ) -> Result<EventStream, String> {
        let mut drafts = Vec::new();
        for (index, socket) in previous.sockets.iter().enumerate() {
            if !current.sockets.contains(socket) {
                drafts.push(EventDraft {
                    kind: EventKind::Release,
                    previous_socket: Some(index),
                    current_socket: None,
                    multiplicity: 1,
                    certainty: Certainty::Proven,
                    group: port_group(socket),
                });
            }
        }
        for (index, socket) in current.sockets.iter().enumerate() {
            if !previous.sockets.contains(socket) {
                drafts.push(EventDraft {
                    kind: EventKind::Bind,
                    previous_socket: None,
                    current_socket: Some(index),
                    multiplicity: 1,
                    certainty: Certainty::Proven,
                    group: port_group(socket),
                });
            }
        }
        drafts.sort_by_key(|draft| draft.group);
        Ok(EventStream { drafts, failure: None })
    }
}

fn options(duration: Duration) -> WatchOptions {
    WatchOptions {
        protocols: ProtocolSelection::Both,
        address: None,
        scope_id: None,
        port: Some(65_535),
        terms: Vec::new(),
        filter_active: true,
        interval: millis(WATCH_INTERVAL_MIN_MILLIS),
        duration: Some(duration),
        json: true,
    }
}

fn unfiltered(duration: Duration) -> WatchOptions {
    WatchOptions { port: None, filter_active: false, ..options(duration) }
}

fn parse_terms(text: &str) -> Vec<FilterTerm> {
    text.split_whitespace()
        .map(|token| {
            if let Some(pid) = token.strip_prefix("pid:") {
                FilterTerm::Pid(pid.parse().unwrap())
            } else if let Some(port) = token.strip_prefix("port:") {
                FilterTerm::Port(port.parse().unwrap())
            } else if let Some(value) = token.strip_prefix("protected:") {
                FilterTerm::Protected(value.parse().unwrap())
            } else {
                FilterTerm::Plain(token.to_lowercase())
            }
        })
        .collect()
}

fn filtered_options(text: &str) -> WatchOptions {
    WatchOptions { port: None, terms: parse_terms(text), ..options(millis(100)) }
}

fn owned_snapshot(pid: u32, name: Option<&str>, metadata: MetadataCompleteness) -> NetworkSnapshot {
    let mut observed = snapshot();
    observed.sockets.truncate(1);
    observed.processes = ProcessTable::empty();
    let identity = identity_of(pid);
    observed.sockets[0].owners = vec![OwnerObservation::Verified(identity)];
    observed.processes.insert(identity, process(name, metadata));
    observed
}

fn side(snapshot: &NetworkSnapshot, socket: usize, text: &str) -> Truth {
    evaluate_side(
        snapshot,
        &snapshot.sockets[socket],
        &filtered_options(text),
        &Config::default(),
        &mut FilterCache::empty(),
    )
}

fn event_of(event: WatchEvent<'_>, text: &str) -> Option<FilterResult> {
    evaluate_event(
        event,
        &filtered_options(text),
        &Config::default(),
        &mut FilterCache::empty(),
        &mut FilterCache::empty(),
    )
}

#[test]
fn event_filter_uses_the_documented_side_and_three_valued_matrix() {
    let previous = owned_snapshot(10, Some("alpha"), MetadataCompleteness::Complete);
    let current = owned_snapshot(20, Some("beta"), MetadataCompleteness::Complete);
    let event = |kind: EventKind| WatchEvent {
        kind,
        previous_snapshot: (kind != EventKind::Baseline).then_some(&previous),
        current_snapshot: (kind != EventKind::Release).then_some(&current),
        previous_socket: matches!(kind, EventKind::Release | EventKind::Replacement)
            .then_some(&previous.sockets[0]),
        current_socket: matches!(
            kind,
            EventKind::Baseline | EventKind::Bind | EventKind::Replacement
        )
        .then_some(&current.sockets[0]),
        multiplicity: 1,
        certainty: Certainty::Proven,
    };

    for kind in [EventKind::Baseline, EventKind::Bind] {
        assert_eq!(
            event_of(event(kind), "pid:20 beta"),
            Some(FilterResult::Matched),
            "{kind:?} must use current facts"
        );
    }
    assert_eq!(event_of(event(EventKind::Release), "pid:10 alpha"), Some(FilterResult::Matched));
    for text in ["pid:10 alpha", "pid:20 beta"] {
        assert_eq!(
            event_of(event(EventKind::Replacement), text),
            Some(FilterResult::Matched),
            "replacement must match either complete side"
        );
    }

    let unknown = owned_snapshot(20, None, MetadataCompleteness::Partial);
    let unknown_event = || WatchEvent {
        current_snapshot: Some(&unknown),
        current_socket: Some(&unknown.sockets[0]),
        ..event(EventKind::Bind)
    };
    assert_eq!(event_of(unknown_event(), "missing"), Some(FilterResult::Indeterminate));
    assert_eq!(
        event_of(unknown_event(), "port:1 missing"),
        None,
        "a definite false term suppresses an otherwise unknown event"
    );
}

#[test]
fn owner_terms_must_be_satisfied_by_the_same_owner() {
    let mut observed = owned_snapshot(10, Some("alpha"), MetadataCompleteness::Complete);
    let second = identity_of(20);
    observed.sockets[0].owners.push(OwnerObservation::Verified(second));
    observed.processes.insert(second, process(Some("beta"), MetadataCompleteness::Complete));

    assert_eq!(side(&observed, 0, "pid:10 beta"), Truth::False);
    assert_eq!(side(&observed, 0, "pid:10 alpha"), Truth::True);
}

/// Run the loop and hand back its end, what it wrote and what it complained of.
fn run(
    options: &WatchOptions,
    runtime: &mut ProductionRuntime<FakeRuntime>,
) -> (ExitReason, String, String) {
    let mut stdout = memory();
    let mut stderr = memory();
    let reason = run_watch_loop(
        options,
        &Config::default(),
        runtime,
        &mut EventRecord::new(PlainSource),
        &mut stdout,
        &mut stderr,
        &serialize,
        ROUNDS,
    )
    .expect("the run must end by itself");
    (reason, text_of(stdout), text_of(stderr))
}

#[test]
fn third_consecutive_failure_flushes_three_gaps_and_stops_collection() {
    let mut runtime = fake_runtime(vec![
        Ok(snapshot()),
        unavailable(),
        unavailable(),
        unavailable(),
        Ok(snapshot()),
    ]);
    let mut stdout = Output::new(BufferedTrackingWriter::default());
    let mut stderr = memory();

    let result = run_watch_loop(
        &options(Duration::from_secs(1)),
        &Config::default(),
        &mut runtime,
        &mut EventRecord::new(PlainSource),
        &mut stdout,
        &mut stderr,
        &serialize,
        ROUNDS,
    );

    assert_eq!(result, Some(ExitReason::Failure));
    assert_eq!(runtime.host.collect_count, 4);
    assert_eq!(stdout.writer.flush_count, 4);
    assert!(stdout.writer.pending.is_empty());
    let records = String::from_utf8(stdout.writer.committed).unwrap();
    let values = records.lines().map(parsed).collect::<Vec<_>>();
    assert_eq!(values.len(), 3);
    assert!(values.iter().all(|value| value["event"] == "collection_gap"));
    assert_eq!(values[0]["schema"], "kickoutchi.watch_event");
    assert_eq!(values[0]["version"], 1);
    assert_eq!(values[0]["sequence"], 0);
    assert!(values[0]["observation"]["previous_completed_unix_ms"].is_number());
    assert!(values[0]["observation"]["attempt_started_unix_ms"].is_number());
    assert!(values[0]["observation"]["attempt_completed_unix_ms"].is_number());
    assert_eq!(values[0]["data"]["certainty"], "unknown");
    assert!(values[0]["data"]["completeness"].is_null());
    assert_eq!(values[0]["data"]["evidence_gaps"], Value::Array(Vec::new()));
    assert_eq!(values[0]["data"]["omitted_evidence_gap_count"], 0);
    assert_eq!(values[2]["data"]["consecutive_failures"], 3);
    assert!(stderr.writer.bytes.is_empty());
}

#[test]
fn failed_collection_waits_a_full_interval_after_slow_completion() {
    let mut runtime =
        fake_runtime(vec![Ok(snapshot()), unavailable(), unavailable(), unavailable()]);
    runtime.host.collection_durations = [millis(0), millis(200), millis(0), millis(0)].into();

    let (result, _, stderr) = run(&options(Duration::from_secs(2)), &mut runtime);

    assert_eq!(result, ExitReason::Failure);
    assert_eq!(runtime.host.monotonic, millis(500));
    assert!(stderr.is_empty());
}

fn event_names(output: &str) -> Vec<String> {
    output
        .lines()
        .map(|line| parsed(line)["event"].as_str().unwrap().to_owned())
        .collect()
}

#[test]
fn recovery_uses_the_last_valid_snapshot_without_fabricated_releases() {
    let baseline = snapshot();
    let mut runtime = fake_runtime(vec![Ok(baseline.clone()), unavailable(), Ok(baseline)]);

    let (result, stdout, stderr) = run(&options(millis(250)), &mut runtime);

    assert_eq!(result, ExitReason::Success);
    assert_eq!(runtime.host.collect_count, 3);
    assert_eq!(event_names(&stdout), ["collection_gap"]);
    assert!(stderr.is_empty());
}

#[test]
fn ownership_and_metadata_partial_snapshot_advances_the_comparison_baseline() {
    let mut first = snapshot();
    first.sockets.truncate(1);
    first.capture_started_at = at(10);
    first.capture_completed_at = at(11);
    let mut partial = snapshot();
    partial.sockets = vec![partial.sockets[1].clone()];
    partial.capture_started_at = at(20);
    partial.capture_completed_at = at(21);
    partial.completeness = SnapshotCompleteness::Partial;
    partial.owner_completeness =
        OwnerCompleteness::partial(&[EvidenceGapCode::OwnerAttributionIncomplete]).unwrap();
    for entry in &mut partial.processes.entries {
        entry.observation.metadata_completeness = MetadataCompleteness::Partial;
    }
    let mut final_snapshot = first.clone();
    final_snapshot.capture_started_at = at(30);
    final_snapshot.capture_completed_at = at(31);
    let mut runtime = fake_runtime(vec![Ok(first), Ok(partial), Ok(final_snapshot)]);

    let (reason, output, diagnostics) = run(&unfiltered(millis(250)), &mut runtime);

    assert_eq!(reason, ExitReason::Success);
    assert_eq!(event_names(&output), ["baseline", "release", "bind", "bind", "release"]);
    assert!(diagnostics.is_empty());
}

fn socket_set_gap() -> EvidenceGap {
    EvidenceGap::new(
        EvidenceImpact::SocketSet,
        EvidenceGapCode::NativeFieldUnavailable,
        None,
        None,
        "injected partial socket set",
    )
}

#[test]
fn unsafe_snapshot_does_not_advance_the_comparison_baseline() {
    let mut first = snapshot();
    first.sockets.truncate(1);
    first.capture_started_at = at(10);
    first.capture_completed_at = at(11);
    let mut changed = snapshot();
    changed.sockets = vec![changed.sockets[1].clone()];
    changed.capture_started_at = at(20);
    changed.capture_completed_at = at(21);
    let mut unsafe_snapshot = changed.clone();
    unsafe_snapshot.completeness = SnapshotCompleteness::Partial;
    unsafe_snapshot.evidence_gaps.push(socket_set_gap());
    changed.capture_started_at = at(30);
    changed.capture_completed_at = at(31);
    let mut runtime = fake_runtime(vec![Ok(first), Ok(unsafe_snapshot), Ok(changed)]);

    let (reason, output, diagnostics) = run(&unfiltered(millis(250)), &mut runtime);

    assert_eq!(reason, ExitReason::Success);
    assert_eq!(event_names(&output), ["baseline", "collection_gap", "release", "bind"]);
    assert!(diagnostics.is_empty());
}

#[test]
fn successful_poll_resets_the_failure_budget() {
    let observed = snapshot();
    let mut runtime = fake_runtime(vec![
        Ok(observed.clone()),
        unavailable(),
        Ok(observed),
        unavailable(),
        unavailable(),
    ]);

    let (reason, output, diagnostics) = run(&options(millis(450)), &mut runtime);

    assert_eq!(reason, ExitReason::Success);
    assert_eq!(runtime.host.collect_count, 5);
    let failures = output
        .lines()
        .map(|line| parsed(line)["data"]["consecutive_failures"].as_u64().unwrap())
        .collect::<Vec<_>>();
    assert_eq!(failures, [1, 1, 2]);
    assert!(diagnostics.is_empty());
}

struct FailingWriter {
    kind: IoErrorKind,
}

impl Writer for FailingWriter {
    fn write_all(&mut self, _: &[u8]) -> Result<(), IoError> {
        Err(IoError::new(self.kind, "injected writer failure"))
    }

    fn flush(&mut self) -> Result<(), IoError> {
        Ok(())
    }
}

struct FlushFailWriter {
    kind: IoErrorKind,
}

impl Writer for FlushFailWriter {
    fn write_all(&mut self, _: &[u8]) -> Result<(), IoError> {
        Ok(())
    }

    fn flush(&mut self) -> Result<(), IoError> {
        Err(IoError::new(self.kind, "injected flush failure"))
    }
}

#[derive(Default)]
struct BufferedTrackingWriter {
    pending: Vec<u8>,
    committed: Vec<u8>,
    flush_count: usize,
}

impl Writer for BufferedTrackingWriter {
    fn write_all(&mut self, bytes: &[u8]) -> Result<(), IoError> {
        self.pending.extend_from_slice(bytes);
        Ok(())
    }

    fn flush(&mut self) -> Result<(), IoError> {
        self.flush_count += 1;
        self.committed.append(&mut self.pending);
        Ok(())
    }
}

fn run_into<W: Sink>(options: &WatchOptions, output: &mut W) -> (Option<ExitReason>, String) {
    let mut runtime = fake_runtime(vec![Ok(snapshot())]);
    let mut diagnostics = memory();
    let reason = run_watch_loop(
        options,
        &Config::default(),
        &mut runtime,
        &mut EventRecord::new(PlainSource),
        output,
        &mut diagnostics,
        &serialize,
        ROUNDS,
    );
    (reason, text_of(diagnostics))
}

#[test]
fn broken_pipe_is_success_and_other_writer_failures_are_operational() {
    let (reason, diagnostics) = run_into(
        &unfiltered(millis(100)),
        &mut Output::new(FailingWriter { kind: IoErrorKind::BrokenPipe }),
    );
    assert_eq!(reason, Some(ExitReason::Success));
    assert!(diagnostics.is_empty());

    let (reason, diagnostics) =
        run_into(&unfiltered(millis(100)), &mut Output::new(FailingWriter { kind: IoErrorKind::Other }));
    assert_eq!(reason, Some(ExitReason::Failure));
    assert!(diagnostics.contains("writing watch output failed"));

    let (reason, diagnostics) =
        run_into(&options(millis(100)), &mut Output::new(FlushFailWriter { kind: IoErrorKind::BrokenPipe }));
    assert_eq!(reason, Some(ExitReason::Success));
    assert!(diagnostics.is_empty());

    let (reason, diagnostics) =
        run_into(&options(millis(100)), &mut Output::new(FlushFailWriter { kind: IoErrorKind::Other }));
    assert_eq!(reason, Some(ExitReason::Failure));
    assert!(diagnostics.contains("injected flush failure"));
}

#[test]
fn no_duration_watch_stops_on_injected_cancellation_without_an_extra_collection() {
    let mut runtime = fake_runtime(vec![Ok(snapshot())]);
    runtime.host.cancel_at = Some(millis(25));
    let watch_options = WatchOptions { duration: None, ..options(millis(100)) };

    let (result, stdout, stderr) = run(&watch_options, &mut runtime);

    assert_eq!(result, ExitReason::Success);
    assert_eq!(runtime.host.collect_count, 1);
    assert!(stdout.is_empty());
    assert!(stderr.is_empty());
}

#[test]
fn initial_collection_failure_emits_no_record_and_one_diagnostic() {
    let mut runtime = fake_runtime(vec![unavailable()]);

    let (result, stdout, diagnostic) = run(&options(millis(100)), &mut runtime);

    assert_eq!(result, ExitReason::Failure);
    assert!(stdout.is_empty());
    assert_eq!(diagnostic.lines().count(), 1);
    assert!(diagnostic.contains("initial collection failed"));
}

#[test]
fn initial_partial_socket_set_fails_without_emitting_a_baseline() {
    let mut partial = snapshot();
    partial.completeness = SnapshotCompleteness::Partial;
    partial.evidence_gaps.push(socket_set_gap());
    let mut runtime = fake_runtime(vec![Ok(partial)]);

    let (result, stdout, stderr) = run(&options(millis(100)), &mut runtime);

    assert_eq!(result, ExitReason::Failure);
    assert!(stdout.is_empty());
    assert_eq!(stderr, "error: initial observation has a partial socket set\n");
}

#[test]
fn slow_initial_collection_failure_is_not_masked_by_duration_expiry() {
    let mut runtime = fake_runtime(vec![unavailable()]);
    runtime.host.collection_durations = [millis(200)].into();

    let (result, stdout, stderr) = run(&options(millis(100)), &mut runtime);

    assert_eq!(result, ExitReason::Failure);
    assert!(stdout.is_empty());
    assert!(stderr.contains("initial collection failed"));
}

#[test]
fn cancellation_during_initial_failure_does_not_mask_the_error() {
    let mut runtime = fake_runtime(vec![unavailable()]);
    runtime.host.collection_durations = [millis(200)].into();
    runtime.host.cancel_at = Some(millis(100));

    let (result, stdout, stderr) = run(&options(Duration::from_secs(1)), &mut runtime);

    assert_eq!(result, ExitReason::Failure);
    assert!(stdout.is_empty());
    assert!(stderr.contains("initial collection failed"));
}

#[test]
fn failed_poll_crossing_duration_emits_and_flushes_its_gap() {
    let mut runtime = fake_runtime(vec![Ok(snapshot()), unavailable()]);
    runtime.host.collection_durations = [millis(0), millis(200)].into();

    let (result, stdout, stderr) = run(&options(millis(250)), &mut runtime);

    assert_eq!(result, ExitReason::Success);
    assert_eq!(runtime.host.collect_count, 2);
    let value = parsed(stdout.trim());
    assert_eq!(value["event"], "collection_gap");
    assert_eq!(value["data"]["error"]["code"], "socket_table_unavailable");
    assert!(stderr.is_empty());
}

#[test]
fn unsafe_poll_crossing_duration_emits_and_flushes_its_gap() {
    let mut raced = snapshot();
    raced.completeness = SnapshotCompleteness::Raced;
    let mut partial = snapshot();
    partial.completeness = SnapshotCompleteness::Partial;
    partial.evidence_gaps.push(socket_set_gap());

    for (unsafe_snapshot, expected_code) in
        [(raced, "observation_raced"), (partial, "partial_socket_set")]
    {
        let mut runtime = fake_runtime(vec![Ok(snapshot()), Ok(unsafe_snapshot)]);
        runtime.host.collection_durations = [millis(0), millis(200)].into();

        let (result, stdout, stderr) = run(&options(millis(250)), &mut runtime);

        assert_eq!(result, ExitReason::Success);
        assert_eq!(runtime.host.collect_count, 2);
        let value = parsed(stdout.trim());
        assert_eq!(value["event"], "collection_gap");
        assert_eq!(value["data"]["error"]["code"], expected_code);
        assert!(stderr.is_empty());
    }
}

#[test]
fn third_failed_poll_crossing_duration_exhausts_the_failure_budget() {
    let mut runtime =
        fake_runtime(vec![Ok(snapshot()), unavailable(), unavailable(), unavailable()]);
    runtime.host.collection_durations = [millis(0), millis(0), millis(0), millis(200)].into();

    let (result, stdout, stderr) = run(&options(millis(450)), &mut runtime);

    assert_eq!(result, ExitReason::Failure);
    assert_eq!(runtime.host.collect_count, 4);
    assert_eq!(stdout.lines().count(), 3);
    assert!(stderr.is_empty());
}

#[test]
fn cancellation_during_third_failed_poll_does_not_mask_budget_exhaustion() {
    let mut runtime =
        fake_runtime(vec![Ok(snapshot()), unavailable(), unavailable(), unavailable()]);
    runtime.host.collection_durations = [millis(0), millis(0), millis(0), millis(200)].into();
    runtime.host.cancel_at = Some(millis(350));

    let (result, stdout, stderr) = run(&options(Duration::from_secs(1)), &mut runtime);

    assert_eq!(result, ExitReason::Failure);
    assert_eq!(runtime.host.collect_count, 4);
    assert_eq!(stdout.lines().count(), 3);
    assert!(stderr.is_empty());
}

#[test]
fn cancellation_during_failed_poll_exits_cleanly_after_its_gap() {
    let mut runtime = fake_runtime(vec![Ok(snapshot()), unavailable()]);
    runtime.host.collection_durations = [millis(0), millis(200)].into();
    runtime.host.cancel_at = Some(millis(150));

    let (result, stdout, stderr) = run(&options(Duration::from_secs(1)), &mut runtime);

    assert_eq!(result, ExitReason::Success);
    assert_eq!(runtime.host.collect_count, 2);
    assert_eq!(parsed(stdout.trim())["event"], "collection_gap");
    assert!(stderr.is_empty());
}

#[test]
fn wall_clock_failure_after_baseline_emits_no_gap() {
    let mut runtime = fake_runtime(vec![Ok(snapshot())]);
    runtime.host.wall_fail_on = Some(3);

    let (result, stdout, stderr) = run(&options(millis(200)), &mut runtime);

    assert_eq!(result, ExitReason::Failure);
    assert!(stdout.is_empty());
    assert!(stderr.contains("wall clock failed"));
}

#[test]
fn reversed_failed_poll_interval_is_an_immediate_clock_failure() {
    let mut runtime = fake_runtime(vec![Ok(snapshot()), unavailable()]);
    runtime.host.wall_values = [Ok(at(1_000)), Ok(at(2_000)), Ok(at(4_000)), Ok(at(3_000))].into();

    let (result, stdout, stderr) = run(&options(millis(200)), &mut runtime);

    assert_eq!(result, ExitReason::Failure);
    assert!(stdout.is_empty());
    assert!(stderr.contains("wall clock failed"));
}

#[test]
fn reversed_interval_between_successful_snapshots_is_a_clock_failure() {
    let mut previous = snapshot();
    previous.capture_started_at = at(9_000);
    previous.capture_completed_at = at(10_000);
    let mut current = snapshot();
    current.capture_started_at = at(5_000);
    current.capture_completed_at = at(6_000);
    let mut runtime = fake_runtime(vec![Ok(previous), Ok(current)]);
    runtime.host.wall_values = [Ok(at(1_000)), Ok(at(2_000)), Ok(at(11_000)), Ok(at(12_000))].into();

    let (result, stdout, stderr) = run(&options(millis(200)), &mut runtime);

    assert_eq!(result, ExitReason::Failure);
    assert!(stdout.is_empty());
    assert!(stderr.contains("wall clock failed"));
}

#[test]
fn collector_clock_failure_is_immediate_and_never_becomes_a_gap() {
    let mut runtime = fake_runtime(vec![Err(CollectorError::Observation(
        ObservationError::ClockUnavailable,
    ))]);
    runtime.host.collection_durations = [millis(200)].into();

    let (result, stdout, stderr) = run(&options(millis(200)), &mut runtime);

    assert_eq!(result, ExitReason::Failure);
    assert!(stdout.is_empty());
    assert_eq!(runtime.host.collect_count, 1);
    assert!(stderr.contains("wall clock failed"));
}

#[test]
fn duration_is_checked_between_baseline_events() {
    let mut runtime = fake_runtime(vec![Ok(snapshot())]);
    runtime.host.monotonic_step = millis(10);

    let (result, stdout, stderr) = run(&unfiltered(millis(25)), &mut runtime);

    assert_eq!(result, ExitReason::Success);
    assert_eq!(stdout.lines().count(), 1);
    assert!(stderr.is_empty());
}

#[test]
fn unverified_owner_pid_plain_search_matches_without_metadata() {
    let mut snapshot = snapshot();
    snapshot.sockets.truncate(1);
    snapshot.sockets[0].owners = vec![unverified(4_242)];
    snapshot.sockets[0].owner_completeness =
        OwnerCompleteness::partial(&[EvidenceGapCode::ProcessIdentityUnavailable]).unwrap();
    snapshot.owner_completeness = snapshot.sockets[0].owner_completeness;
    snapshot.completeness = SnapshotCompleteness::Partial;

    assert_eq!(side(&snapshot, 0, "4242"), Truth::True);
}

#[test]
fn partial_ownership_cannot_override_a_false_endpoint_term() {
    let mut snapshot = snapshot();
    snapshot.sockets.truncate(1);
    snapshot.sockets[0].owner_completeness =
        OwnerCompleteness::partial(&[EvidenceGapCode::OwnerAttributionIncomplete]).unwrap();
    snapshot.owner_completeness = snapshot.sockets[0].owner_completeness;
    snapshot.completeness = SnapshotCompleteness::Partial;
    let impossible_port = if snapshot.sockets[0].local_endpoint.port == 1 { 2 } else { 1 };

    assert_eq!(side(&snapshot, 0, &format!("port:{impossible_port}")), Truth::False);
}

#[test]
fn global_ownership_gap_makes_owner_dependent_miss_indeterminate() {
    let mut snapshot = snapshot();
    snapshot.sockets.truncate(1);
    snapshot.owner_completeness =
        OwnerCompleteness::partial(&[EvidenceGapCode::OwnerAttributionIncomplete]).unwrap();
    snapshot.completeness = SnapshotCompleteness::Partial;
    snapshot.evidence_gaps.push(EvidenceGap::new(
        EvidenceImpact::Ownership,
        EvidenceGapCode::OwnerAttributionIncomplete,
        None,
        None,
        "an owner could not be attributed to an endpoint",
    ));

    assert_eq!(side(&snapshot, 0, "pid:4294967295"), Truth::Unknown);
    let port = snapshot.sockets[0].local_endpoint.port;
    assert_eq!(
        side(&snapshot, 0, &format!("port:{port}")),
        Truth::True,
        "global owner uncertainty must not weaken endpoint-only filters"
    );
}

fn unverified(pid: u32) -> OwnerObservation {
    OwnerObservation::UnverifiedPid { pid, reason: UnverifiedOwnerReason::IdentityUnavailable }
}

fn baseline_of(snapshot: &NetworkSnapshot) -> WatchEvent<'_> {
    WatchEvent {
        kind: EventKind::Baseline,
        previous_snapshot: None,
        current_snapshot: Some(snapshot),
        previous_socket: None,
        current_socket: Some(&snapshot.sockets[0]),
        multiplicity: 1,
        certainty: Certainty::Proven,
    }
}

fn first_times() -> ObservationTimes {
    ObservationTimes {
        previous_completed_unix_ms: None,
        attempt_started_unix_ms: 1,
        attempt_completed_unix_ms: 2,
    }
}

fn indeterminate_record(snapshot: &NetworkSnapshot, text: &str) -> Value {
    let config = Config::default();
    let gap_index = GapIndex::new(snapshot);
    let mut output = memory();
    write_endpoint_event(
        &mut output,
        true,
        0,
        first_times(),
        baseline_of(snapshot),
        FilterResult::Indeterminate,
        &parse_terms(text),
        &config,
        None,
        Some(&gap_index),
        &serialize,
    )
    .unwrap();
    parsed(&text_of(output))
}

#[test]
fn pid_scoped_ownership_gap_is_indeterminate_and_emitted_for_hidden_owner() {
    let mut snapshot = snapshot();
    snapshot.sockets.truncate(1);
    snapshot.owner_completeness =
        OwnerCompleteness::partial(&[EvidenceGapCode::OwnerPermissionDenied]).unwrap();
    snapshot.completeness = SnapshotCompleteness::Partial;
    snapshot.evidence_gaps.push(EvidenceGap::new(
        EvidenceImpact::Ownership,
        EvidenceGapCode::OwnerPermissionDenied,
        None,
        Some(4_242),
        "permission denied before the PID's socket ownership could be attributed",
    ));

    assert_eq!(
        event_of(baseline_of(&snapshot), "pid:4242"),
        Some(FilterResult::Indeterminate)
    );
    assert_eq!(
        event_of(baseline_of(&snapshot), "pid:9999"),
        None,
        "a PID-scoped gap must not weaken a filter for a different PID"
    );

    let value = indeterminate_record(&snapshot, "pid:4242");
    assert_eq!(value["data"]["filter_result"], "indeterminate");
    assert_eq!(value["data"]["evidence_gaps"].as_array().unwrap().len(), 1);
    assert_eq!(value["data"]["evidence_gaps"][0]["impact"], "ownership");
    assert_eq!(value["data"]["evidence_gaps"][0]["code"], "owner_permission_denied");
    assert_eq!(value["data"]["evidence_gaps"][0]["pid"], 4_242);
}

#[test]
fn omitted_ownership_gap_keeps_pid_filter_indeterminate_and_counts_the_gap() {
    let mut snapshot = snapshot();
    snapshot.sockets.truncate(1);
    snapshot.owner_completeness =
        OwnerCompleteness::partial(&[EvidenceGapCode::OwnerPermissionDenied]).unwrap();
    snapshot.completeness = SnapshotCompleteness::Partial;
    snapshot.evidence_gaps.push(EvidenceGap::new(
        EvidenceImpact::Ownership,
        EvidenceGapCode::OwnerPermissionDenied,
        None,
        Some(9_999),
        "an unrelated retained PID could not be scanned",
    ));
    snapshot.omitted_evidence_gap_count = 1;

    assert_eq!(
        event_of(baseline_of(&snapshot), "pid:4242"),
        Some(FilterResult::Indeterminate)
    );

    let value = indeterminate_record(&snapshot, "pid:4242");
    assert_eq!(value["data"]["filter_result"], "indeterminate");
    assert_eq!(value["data"]["evidence_gaps"], Value::Array(Vec::new()));
    assert_eq!(value["data"]["omitted_evidence_gap_count"], 1);
}

#[test]
fn complete_ownerless_socket_matches_protected_false() {
    let mut snapshot = snapshot();
    snapshot.sockets.truncate(1);
    snapshot.sockets[0].owners.clear();
    snapshot.sockets[0].owner_completeness = OwnerCompleteness::Complete;
    snapshot.owner_completeness = OwnerCompleteness::Complete;
    snapshot.completeness = SnapshotCompleteness::Complete;

    assert_eq!(side(&snapshot, 0, "protected:false"), Truth::True);
    assert_eq!(side(&snapshot, 0, "protected:true"), Truth::False);
}

fn set_process(snapshot: &mut NetworkSnapshot, pid: u32, observation: ProcessObservation) {
    let identity = identity_of(pid);
    for entry in &mut snapshot.processes.entries {
        if entry.identity == identity {
            entry.observation = observation.clone();
        }
    }
}

#[test]
fn protection_filters_use_an_available_name_despite_unrelated_metadata_gaps() {
    let mut snapshot = snapshot();
    let protected_index = 1;
    let unprotected_index = 0;
    set_process(&mut snapshot, 18_422, process(Some("node"), MetadataCompleteness::Partial));

    assert_eq!(side(&snapshot, protected_index, "protected:true"), Truth::True);
    assert_eq!(side(&snapshot, protected_index, "protected:false"), Truth::False);
    assert_eq!(side(&snapshot, unprotected_index, "protected:true"), Truth::False);
    assert_eq!(side(&snapshot, unprotected_index, "protected:false"), Truth::True);
    assert_eq!(side(&snapshot, protected_index, "protected"), Truth::True);
    assert_eq!(side(&snapshot, protected_index, "unprotected"), Truth::Unknown);
    assert_eq!(side(&snapshot, unprotected_index, "protected"), Truth::Unknown);
    assert_eq!(side(&snapshot, unprotected_index, "unprotected"), Truth::True);
}

#[test]
fn macos_protection_filters_recognize_the_executable_with_or_without_a_name() {
    for name in [Some("worker"), None] {
        let mut snapshot = snapshot();
        snapshot.scope.kind = ObservationScopeKind::CurrentHostProcessVisibleSockets;
        let mut observed = process(name, MetadataCompleteness::Complete);
        observed.executable_path = Some(b"/opt/postgres".to_vec());
        set_process(&mut snapshot, 18_422, observed);
        for (text, expected) in [
            ("protected:true", Truth::True),
            ("protected:false", Truth::False),
            ("protected", Truth::True),
        ] {
            assert_eq!(side(&snapshot, 0, text), expected, "{text}, name={name:?}");
        }
    }
}

/// Draw the events of a stream and write them in order.
fn write_stream<W: Sink>(
    previous: Option<&NetworkSnapshot>,
    current: &NetworkSnapshot,
    stream: &EventStream,
    options: &WatchOptions,
    output: &mut W,
) -> (Option<ExitReason>, u64, String) {
    let config = Config::default();
    let mut diagnostics = memory();
    let mut runtime = fake_runtime(Vec::new());
    let drawn = draw_events(previous, current, stream);
    let settings = EventSettings {
        options,
        config: &config,
        observation: ObservationTimes {
            previous_completed_unix_ms: previous.map(|_| 1),
            attempt_started_unix_ms: 1,
            attempt_completed_unix_ms: 2,
        },
        serialize: &serialize,
    };
    let mut previous_index = match previous {
        Some(snapshot) => SnapshotIndex::new(snapshot),
        None => SnapshotIndex::blank(),
    };
    let mut current_index = SnapshotIndex::new(current);
    let mut sequence = 0;
    let reason = write_ordered_events(
        &drawn,
        &settings,
        &mut runtime,
        None,
        output,
        &mut diagnostics,
        &mut sequence,
        &mut previous_index,
        &mut current_index,
    );
    (reason, sequence, text_of(diagnostics))
}

#[test]
fn filter_result_order_crosses_batch_boundaries_without_retaining_the_group() {
    let mut snapshot = snapshot();
    let mut common_owners = (1..=64).map(unverified).collect::<Vec<_>>();
    let mut indeterminate = snapshot.sockets[0].clone();
    common_owners.push(unverified(101));
    indeterminate.owners = common_owners;
    indeterminate.owner_completeness =
        OwnerCompleteness::partial(&[EvidenceGapCode::OwnerAttributionIncomplete]).unwrap();
    let mut matched = indeterminate.clone();
    *matched.owners.last_mut().unwrap() = unverified(100);
    snapshot.sockets = vec![indeterminate; WATCH_EVENT_BATCH_MAX];
    snapshot.sockets.push(matched);
    snapshot.owner_completeness =
        OwnerCompleteness::partial(&[EvidenceGapCode::OwnerAttributionIncomplete]).unwrap();
    snapshot.completeness = SnapshotCompleteness::Partial;

    let filter = WatchOptions { json: false, ..filtered_options("pid:100") };
    let stream = PlainSource.baseline(&snapshot).unwrap();
    let mut output = memory();
    let (reason, sequence, diagnostics) =
        write_stream(None, &snapshot, &stream, &filter, &mut output);

    assert_eq!(reason, None);
    assert!(diagnostics.is_empty());
    let rendered = text_of(output);
    let mut lines = rendered.lines();
    assert!(lines.next().unwrap().contains("filter=matched"));
    assert_eq!(
        lines.filter(|line| line.contains("filter=indeterminate")).count(),
        WATCH_EVENT_BATCH_MAX
    );
    assert_eq!(usize::try_from(sequence).unwrap(), WATCH_EVENT_BATCH_MAX + 1);
}

#[test]
fn filtering_uses_the_uncancelled_owner_beyond_the_public_owner_limit() {
    let mut previous = snapshot();
    previous.sockets.truncate(1);
    let common = (1..=SERIALIZED_OWNERS_MAX)
        .map(|pid| unverified(u32::try_from(pid).unwrap()))
        .collect::<Vec<_>>();
    let mut hidden_100 = previous.sockets[0].clone();
    hidden_100.owners = common.clone();
    hidden_100.owners.push(unverified(100));
    let mut hidden_101 = previous.sockets[0].clone();
    hidden_101.owners = common;
    hidden_101.owners.push(unverified(101));
    previous.sockets = vec![hidden_101, hidden_100.clone()];
    let mut current = previous.clone();
    current.sockets = vec![hidden_100];
    let filter = WatchOptions { json: false, ..filtered_options("pid:101") };
    let stream = PlainSource.compare(&previous, &current).unwrap();
    let mut output = memory();

    let (reason, _, diagnostics) =
        write_stream(Some(&previous), &current, &stream, &filter, &mut output);

    assert_eq!(reason, None);
    assert!(diagnostics.is_empty());
    let output = text_of(output);
    assert_eq!(output.lines().count(), 1);
    assert!(output.contains("RELEASE"));
    assert!(output.contains("filter=matched"));
}

#[test]
fn a_failed_comparison_is_told_and_fails() {
    let observed = snapshot();
    let stream = EventStream { drafts: Vec::new(), failure: Some("too many events".to_owned()) };
    let mut output = memory();

    let (reason, sequence, diagnostics) =
        write_stream(None, &observed, &stream, &unfiltered(millis(100)), &mut output);

    assert_eq!(reason, Some(ExitReason::Failure));
    assert_eq!(sequence, 0);
    assert!(output.writer.bytes.is_empty());
    assert!(diagnostics.contains("too many events"), "{diagnostics}");
}

#[test]
fn human_output_bounds_owner_and_label_display() {
    let mut snapshot = snapshot();
    snapshot.sockets.truncate(1);
    snapshot.sockets[0].owners = (1..=65).map(unverified).collect();
    let endpoint = snapshot.sockets[0].local_endpoint;
    let config = Config {
        labels: LabelRegistry {
            labels: vec![EndpointLabel {
                protocol: endpoint.protocol,
                address: endpoint.address,
                port: endpoint.port,
                scope_id: None,
                label: "x".repeat(33),
            }],
        },
        ..Config::default()
    };
    let mut output = memory();

    write_human_event(
        &mut output,
        first_times(),
        baseline_of(&snapshot),
        FilterResult::NotApplied,
        &config,
    )
    .unwrap();

    let output = text_of(output);
    assert!(output.contains("owners=1,2,3"));
    assert!(output.contains("64,+1"));
    assert!(!output.contains(",65"));
    assert!(output.contains(&format!("label={}…", "x".repeat(31))));
}

#[test]
fn endpoint_event_shapes_pin_previous_and_current_sides() {
    let mut previous = snapshot();
    let mut current = snapshot();
    previous.sockets[0].socket_token = Some(PlatformSocketToken::linux_inode(11).unwrap());
    current.sockets[0].socket_token = Some(PlatformSocketToken::macos_socket_id(12).unwrap());
    current.sockets[0].owners = vec![OwnerObservation::Verified(identity_of(20_000))];
    for entry in &mut previous.processes.entries {
        entry.observation.command_line = Some("private previous command".to_owned());
    }
    for entry in &mut current.processes.entries {
        entry.observation.command_line = Some("private current command".to_owned());
    }
    let owner_set = |pid: u32, ticks: u64| {
        object(vec![
            (
                "owners",
                Value::Array(vec![object(vec![
                    ("kind", "verified".into()),
                    (
                        "identity",
                        object(vec![
                            ("pid", pid.into()),
                            (
                                "start_marker",
                                object(vec![
                                    ("kind", "linux_start_ticks".into()),
                                    ("ticks", ticks.into()),
                                ]),
                            ),
                        ]),
                    ),
                ])]),
            ),
            ("omitted_owner_count", 0.into()),
            ("completeness", "complete".into()),
            ("reasons", Value::Array(Vec::new())),
        ])
    };
    let token = |kind: &str, value: u64| {
        object(vec![("kind", kind.into()), ("value", value.into())])
    };
    let config = Config::default();

    for kind in
        [EventKind::Baseline, EventKind::Bind, EventKind::Release, EventKind::Replacement]
    {
        let has_previous = matches!(kind, EventKind::Release | EventKind::Replacement);
        let has_current = kind != EventKind::Release;
        let observation = ObservationTimes {
            previous_completed_unix_ms: (kind != EventKind::Baseline).then_some(1),
            attempt_started_unix_ms: 2,
            attempt_completed_unix_ms: 3,
        };
        let event = WatchEvent {
            kind,
            previous_snapshot: (kind != EventKind::Baseline).then_some(&previous),
            current_snapshot: Some(&current),
            previous_socket: has_previous.then_some(&previous.sockets[0]),
            current_socket: has_current.then_some(&current.sockets[0]),
            multiplicity: 1,
            certainty: if kind == EventKind::Replacement {
                Certainty::Heuristic
            } else {
                Certainty::Proven
            },
        };
        let mut output = memory();
        write_endpoint_event(
            &mut output,
            true,
            7,
            observation,
            event,
            FilterResult::Matched,
            &[],
            &config,
            Some(&GapIndex::new(&previous)),
            Some(&GapIndex::new(&current)),
            &serialize,
        )
        .unwrap();
        let rendered = text_of(output);
        let evidence = if kind == EventKind::Replacement {
            vec![object(vec![
                ("code", "process_identity_changed".into()),
                ("source", "analysis".into()),
                ("certainty", "proven".into()),
                ("message", "verified process identity changed between observations".into()),
            ])]
        } else {
            Vec::new()
        };
        let expected = object(vec![
            ("schema", "kickoutchi.watch_event".into()),
            ("version", 1.into()),
            ("sequence", 7.into()),
            ("event", kind.name().into()),
            ("observation", times_value(observation)),
            (
                "data",
                object(vec![
                    (
                        "endpoint",
                        object(vec![
                            ("protocol", "tcp".into()),
                            ("address", "127.0.0.1".into()),
                            ("port", 3000.into()),
                            ("ipv6_scope", Value::Null),
                        ]),
                    ),
                    (
                        "state",
                        object(vec![("kind", "listen".into()), ("native_code", Value::Null)]),
                    ),
                    (
                        "previous_owners",
                        optional(has_previous.then(|| owner_set(18_422, 18_423))),
                    ),
                    ("current_owners", optional(has_current.then(|| owner_set(20_000, 20_001)))),
                    (
                        "previous_socket_token",
                        optional(has_previous.then(|| token("linux_inode", 11))),
                    ),
                    (
                        "current_socket_token",
                        optional(has_current.then(|| token("macos_socket_id", 12))),
                    ),
                    ("multiplicity", 1.into()),
                    ("label", Value::Null),
                    ("filter_result", "matched".into()),
                    (
                        "certainty",
                        if kind == EventKind::Replacement { "heuristic" } else { "proven" }.into(),
                    ),
                    ("evidence", Value::Array(evidence)),
                    ("omitted_evidence_count", 0.into()),
                    ("evidence_gaps", Value::Array(Vec::new())),
                    ("omitted_evidence_gap_count", 0.into()),
                ]),
            ),
        ]);
        assert_eq!(parsed(&rendered), expected);
        assert!(!rendered.contains("command_line"));
        assert!(!rendered.contains("private previous command"));
        assert!(!rendered.contains("private current command"));
    }
}

#[test]
fn collection_gap_shape_is_fully_pinned() {
    let result = unavailable();
    let gap = gap_from_result(&result, 2);
    let observation = ObservationTimes {
        previous_completed_unix_ms: Some(10),
        attempt_started_unix_ms: 11,
        attempt_completed_unix_ms: 12,
    };
    let mut output = memory();

    write_gap(&mut output, true, 9, observation, &gap, &serialize).unwrap();

    assert_eq!(
        parsed(&text_of(output)),
        object(vec![
            ("schema", "kickoutchi.watch_event".into()),
            ("version", 1.into()),
            ("sequence", 9.into()),
            ("event", "collection_gap".into()),
            (
                "observation",
                object(vec![
                    ("previous_completed_unix_ms", 10.into()),
                    ("attempt_started_unix_ms", 11.into()),
                    ("attempt_completed_unix_ms", 12.into()),
                ]),
            ),
            (
                "data",
                object(vec![
                    (
                        "error",
                        object(vec![
                            ("code", "socket_table_unavailable".into()),
                            ("message", "socket table is unavailable".into()),
                        ]),
                    ),
                    ("certainty", "unknown".into()),
                    ("consecutive_failures", 2.into()),
                    ("completeness", Value::Null),
                    ("evidence_gaps", Value::Array(Vec::new())),
                    ("omitted_evidence_gap_count", 0.into()),
                ]),
            ),
        ])
    );
}

fn forever(text: String) -> &'static str {
    Box::leak(text.into_boxed_str())
}

#[test]
fn fully_populated_replacement_record_stays_within_its_calculated_bound() {
    let snapshot = snapshot();
    let endpoint = snapshot.sockets[0].local_endpoint;
    let owners = (0..SERIALIZED_OWNERS_MAX)
        .map(|offset| {
            OwnerObservation::Verified(ProcessIdentity {
                pid: u32::MAX - u32::try_from(offset).unwrap(),
                start_marker: ProcessStartMarker::windows(
                    u64::MAX - u64::try_from(offset).unwrap(),
                )
                .unwrap(),
            })
        })
        .collect::<Vec<_>>();
    let owner_completeness = OwnerCompleteness::partial(&[
        EvidenceGapCode::NativeFieldUnavailable,
        EvidenceGapCode::NoncriticalEvidenceTruncated,
        EvidenceGapCode::ObservationRaced,
        EvidenceGapCode::OwnerAttributionIncomplete,
        EvidenceGapCode::OwnerDisappeared,
        EvidenceGapCode::OwnerPermissionDenied,
        EvidenceGapCode::ProcessIdentityUnavailable,
        EvidenceGapCode::ProcessMetadataUnavailable,
    ])
    .unwrap();
    let owner_set = || OwnerSet::new(&owners, &owner_completeness);
    let escaped_message = forever("\\".repeat(512));
    let evidence = (0..WATCH_EVENT_EVIDENCE_MAX)
        .map(|_| {
            EvidenceItem::literal(
                "process_identity_changed",
                "analysis",
                "heuristic",
                escaped_message,
            )
        })
        .collect();
    let gaps = (0..WATCH_EVENT_GAPS_MAX)
        .map(|offset| {
            EvidenceGap::new(
                EvidenceImpact::Metadata,
                EvidenceGapCode::ProcessMetadataUnavailable,
                Some(endpoint),
                Some(u32::MAX - u32::try_from(offset).unwrap()),
                escaped_message,
            )
        })
        .collect::<Vec<_>>();
    let label = "x".repeat(128);
    let data = EndpointEventData {
        endpoint,
        state: snapshot.sockets[0].state,
        previous_owners: Some(owner_set()),
        current_owners: Some(owner_set()),
        previous_socket_token: Some(PlatformSocketToken::macos_socket_id(u64::MAX).unwrap()),
        current_socket_token: Some(PlatformSocketToken::macos_socket_id(u64::MAX).unwrap()),
        multiplicity: u32::MAX,
        label: Some(&label),
        filter_result: "indeterminate",
        certainty: "heuristic",
        evidence,
        omitted_evidence_count: u64::MAX,
        evidence_gaps: gaps.iter().collect(),
        omitted_evidence_gap_count: u64::MAX,
    };
    let record = WatchRecord {
        schema: "kickoutchi.watch_event",
        version: 1,
        sequence: u64::MAX,
        event: "replacement",
        observation: ObservationTimes {
            previous_completed_unix_ms: Some(u64::MAX),
            attempt_started_unix_ms: u64::MAX,
            attempt_completed_unix_ms: u64::MAX,
        },
        data: RecordData::Endpoint(data),
    };
    let mut output = memory();

    write_json_record(&mut output, &record, &serialize).unwrap();

    assert!(output.writer.bytes.len() <= 52_224, "record was {} bytes", output.writer.bytes.len());
    assert!(output.writer.bytes.len() <= WATCH_RECORD_MAX_BYTES);
    assert_eq!(output.writer.bytes.last(), Some(&b'\n'));
    let value = parsed(&text_of(output));
    assert_eq!(value["event"], "replacement");
    assert_eq!(value["data"]["previous_owners"]["owners"].as_array().unwrap().len(), 64);
    assert_eq!(value["data"]["current_owners"]["owners"].as_array().unwrap().len(), 64);
    assert_eq!(value["data"]["evidence"].as_array().unwrap().len(), 8);
    assert_eq!(value["data"]["evidence_gaps"].as_array().unwrap().len(), 8);
}

fn metadata_gap(pid: Option<u32>) -> EvidenceGap {
    EvidenceGap::new(
        EvidenceImpact::Metadata,
        EvidenceGapCode::ProcessMetadataUnavailable,
        None,
        pid,
        "metadata unavailable",
    )
}

#[test]
fn gap_index_and_record_writer_enforce_exact_bounds() {
    let mut snapshot = snapshot();
    snapshot.evidence_gaps = (0..9).map(|_| metadata_gap(None)).collect();
    let index = GapIndex::new(&snapshot);
    assert_eq!(index.global.indices.len(), 8);
    assert_eq!(index.global.total, 9);

    snapshot.evidence_gaps = (42..=51).map(|pid| metadata_gap(Some(pid))).collect();
    snapshot.sockets[0].owners = (42..=50).map(unverified).collect();
    let index = GapIndex::new(&snapshot);
    assert_eq!(index.global.total, 0);
    assert_eq!(index.by_pid.get(&42).unwrap().total, 1);
    let mut applicable = Vec::new();
    let mut applicable_total = 0;
    index.append(
        &snapshot,
        &snapshot.sockets[0],
        OwnerPidConstraint::Any,
        &mut applicable,
        &mut applicable_total,
    );
    assert_eq!(applicable_total, 9);
    assert_eq!(applicable.len(), 8);
    assert_eq!(applicable[0].pid, Some(42));
    assert_eq!(applicable[7].pid, Some(49));

    let descending = (42..=50).rev().map(|pid| metadata_gap(Some(pid))).collect::<Vec<_>>();
    let mut retained = Vec::with_capacity(8);
    for gap in &descending {
        retain_bounded_gap(&mut retained, gap);
    }
    assert_eq!(retained.len(), 8);
    assert_eq!(retained[0].pid, Some(42));
    assert_eq!(retained[7].pid, Some(49));

    snapshot.sockets[0].owner_completeness = OwnerCompleteness::partial(&[
        EvidenceGapCode::OwnerPermissionDenied,
        EvidenceGapCode::OwnerAttributionIncomplete,
    ])
    .unwrap();
    let owner_set =
        OwnerSet::new(&snapshot.sockets[0].owners, &snapshot.sockets[0].owner_completeness);
    assert_eq!(owner_set.reasons, ["owner_attribution_incomplete", "owner_permission_denied"]);

    let mut record = BoundedRecord::new();
    assert_eq!(record.write(&vec![0; 65_536]).unwrap(), 65_536);
    assert!(record.write(&[0]).is_err());
    assert_eq!(record.bytes.len(), 65_536);
}

#[test]
fn event_evidence_retains_zero_maximum_and_counts_the_first_omission() {
    for (count, retained, omitted) in [
        (0, 0, 0),
        (WATCH_EVENT_EVIDENCE_MAX, WATCH_EVENT_EVIDENCE_MAX, 0),
        (WATCH_EVENT_EVIDENCE_MAX + 1, WATCH_EVENT_EVIDENCE_MAX, 1),
    ] {
        let evidence = (0..count)
            .map(|_| EvidenceItem::literal("fixture", "analysis", "proven", "fixture evidence"))
            .collect();
        let (evidence, actual_omitted) = retain_event_evidence(evidence);
        assert_eq!(evidence.len(), retained, "count={count}");
        assert_eq!(actual_omitted, omitted, "count={count}");
    }
}

struct CountingHost {
    ticks: u64,
    cancelled: bool,
}

impl WatchHost for CountingHost {
    fn collect(&mut self) -> Result<NetworkSnapshot, CollectorError> {
        unavailable()
    }

    fn monotonic(&mut self) -> Duration {
        self.ticks += 5;
        millis(self.ticks)
    }

    fn wall(&mut self) -> Result<SystemTime, ObservationError> {
        Ok(at(self.ticks))
    }

    fn sleep(&mut self, _: Duration) {}

    fn cancelled(&mut self) -> bool {
        self.cancelled
    }
}

#[test]
fn production_time_counts_from_the_start_of_the_run() {
    let mut runtime = ProductionRuntime::new(CountingHost { ticks: 1_000, cancelled: true });
    assert_eq!(runtime.monotonic_now(), millis(5));
    assert_eq!(runtime.monotonic_now(), millis(10));
    assert_eq!(runtime.wall_now(), Ok(at(1_015)));
    assert!(runtime.collect().is_err());
    assert!(runtime.cancelled());
    runtime.sleep(millis(1));
}

struct SleepingHost {
    now: Duration,
    slept: Vec<Duration>,
    looks: usize,
    cancelled_at: usize,
}

impl WatchHost for SleepingHost {
    fn collect(&mut self) -> Result<NetworkSnapshot, CollectorError> {
        unavailable()
    }

    fn monotonic(&mut self) -> Duration {
        self.now
    }

    fn wall(&mut self) -> Result<SystemTime, ObservationError> {
        Ok(at(0))
    }

    fn sleep(&mut self, duration: Duration) {
        self.slept.push(duration);
        self.now = Duration { nanos: self.now.nanos + duration.nanos };
    }

    fn cancelled(&mut self) -> bool {
        self.looks += 1;
        self.looks >= self.cancelled_at
    }
}

fn sleeping(cancelled_at: usize) -> ProductionRuntime<SleepingHost> {
    ProductionRuntime::new(SleepingHost {
        now: millis(0),
        slept: Vec::new(),
        looks: 0,
        cancelled_at,
    })
}

#[test]
fn a_wait_sleeps_in_short_spans_and_ends_where_it_has_to() {
    let mut runtime = sleeping(usize::MAX);
    assert_eq!(wait_until(&mut runtime, millis(60), None, 10), Some(false));
    assert_eq!(runtime.host.slept, [millis(25), millis(25), millis(10)]);
    assert_eq!(runtime.host.looks, 4);

    let mut runtime = sleeping(usize::MAX);
    assert_eq!(wait_until(&mut runtime, millis(60), Some(millis(30)), 10), Some(true));
    assert_eq!(runtime.host.slept, [millis(25), millis(5)]);

    let mut runtime = sleeping(2);
    assert_eq!(wait_until(&mut runtime, millis(60), None, 10), Some(true));
    assert_eq!(runtime.host.slept, [millis(25)]);

    let mut runtime = sleeping(usize::MAX);
    assert_eq!(wait_until(&mut runtime, millis(60), None, 2), None);
    assert_eq!(runtime.host.slept, [millis(25), millis(25)]);
}

#[test]
fn a_run_is_asked_to_stop_by_a_cancellation_or_its_end() {
    assert!(!stop_requested(&mut sleeping(usize::MAX), None));
    assert!(!stop_requested(&mut sleeping(usize::MAX), Some(millis(1))));
    assert!(stop_requested(&mut sleeping(usize::MAX), Some(millis(0))));
    assert!(stop_requested(&mut sleeping(1), None));
    assert!(stop_requested(&mut sleeping(1), Some(millis(1))));
}

#[test]
fn command_lines_are_neither_written_nor_asked_about() {
    let plain = snapshot();
    let mut spoken = snapshot();
    let mut observation = process(Some("node"), MetadataCompleteness::Complete);
    observation.command_line = Some("node --token=hunter2".to_owned());
    set_process(&mut spoken, 18_422, observation);

    for text in ["", "hunter2", "token", "node", "pid:18422"] {
        assert_eq!(
            event_of(baseline_of(&plain), text),
            event_of(baseline_of(&spoken), text),
            "{text}"
        );
    }
    assert_eq!(event_of(baseline_of(&spoken), "hunter2"), None);
    for json in [false, true] {
        let mut written = Vec::new();
        for side in [&plain, &spoken] {
            let mut output = memory();
            write_endpoint_event(
                &mut output,
                json,
                0,
                first_times(),
                baseline_of(side),
                FilterResult::NotApplied,
                &[],
                &Config::default(),
                None,
                None,
                &serialize,
            )
            .unwrap();
            written.push(text_of(output));
        }
        assert_eq!(written[0], written[1]);
        assert!(!written[0].contains("hunter2"));
    }
}

#[test]
fn gaps_fed_in_any_order_leave_the_first_in_order() {
    let order = [50, 43, 47, 42, 51, 44, 49, 45, 48, 46];
    let gaps = order.iter().map(|&pid| metadata_gap(Some(pid))).collect::<Vec<_>>();
    let mut retained = Vec::new();
    for gap in &gaps {
        retain_bounded_gap(&mut retained, gap);
    }
    let pids = retained.iter().map(|gap| gap.pid.unwrap()).collect::<Vec<_>>();
    assert_eq!(pids, [42, 43, 44, 45, 46, 47, 48, 49]);
    assert_eq!(pids.len(), WATCH_EVENT_GAPS_MAX);
}

#[test]
fn writing_asks_before_each_event_and_behind_each_pass_whether_the_run_is_over() {
    let snapshot = snapshot();
    let stream = PlainSource.baseline(&snapshot).unwrap();
    let options = WatchOptions { json: false, ..unfiltered(millis(100)) };
    let config = Config::default();
    for (cancelled_at, reason, looks, lines) in
        [(usize::MAX, None, 6, 3), (3, Some(ExitReason::Success), 3, 1)]
    {
        let mut runtime = sleeping(cancelled_at);
        let mut output = memory();
        let mut diagnostics = memory();
        let drawn = draw_events(None, &snapshot, &stream);
        let settings = EventSettings {
            options: &options,
            config: &config,
            observation: first_times(),
            serialize: &serialize,
        };
        let mut sequence = 0;
        let ended = write_ordered_events(
            &drawn,
            &settings,
            &mut runtime,
            None,
            &mut output,
            &mut diagnostics,
            &mut sequence,
            &mut SnapshotIndex::blank(),
            &mut SnapshotIndex::new(&snapshot),
        );
        assert_eq!(ended, reason);
        assert_eq!(runtime.host.looks, looks);
        assert_eq!(text_of(output).lines().count(), lines);
    }
}

#[test]
fn gaps_are_appended_whatever_was_counted_before() {
    let mut snapshot = snapshot();
    snapshot.evidence_gaps = (42..=44).map(|pid| metadata_gap(Some(pid))).collect();
    snapshot.sockets[0].owners = (42..=44).map(unverified).collect();
    let index = GapIndex::new(&snapshot);
    assert!(index.by_pid.get(&45).is_none());
    assert!(index.ownership_by_pid.is_empty());

    let first = metadata_gap(Some(1));
    let mut applicable = vec![&first];
    let mut total = 0;
    index.append(
        &snapshot,
        &snapshot.sockets[0],
        OwnerPidConstraint::Any,
        &mut applicable,
        &mut total,
    );
    assert_eq!(total, 3);
    let pids: Vec<Option<u32>> = applicable.iter().map(|gap| gap.pid).collect();
    assert_eq!(pids, [Some(1), Some(42), Some(43), Some(44)]);
}
