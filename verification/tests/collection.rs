use std::collections::{BTreeSet, VecDeque};

use kickoutchi::address::IpAddr;
use kickoutchi::collection::{
    collect_consistent_with_limits, validate_wall_clock_interval, ObservationSource, SourceRecord,
};
use kickoutchi::evidence::{
    EndpointIdentity, EvidenceGapCode, EvidenceImpact, OwnerCompleteness,
};
use kickoutchi::merge::merge_attempt_uncertainty;
use kickoutchi::metadata::{
    apply_metadata_budget, ObservationLimits, EXECUTABLE_PATH_MAX_BYTES,
    PROCESS_COMMAND_LINE_MAX_BYTES, PROCESS_NAME_MAX_BYTES,
};
use kickoutchi::model::{Protocol, SocketState};
use kickoutchi::native::{
    CollectedPass, NativeObservationPass, NativeSocketObservation, NativeSocketRow, ProcessRead,
    ProcessReadTable,
};
use kickoutchi::observation::{
    EvidenceGap, MetadataCompleteness, MetadataOmission, MetadataProfile, NetworkSnapshot,
    ObservationError,
    ObservationScope, ObservationScopeKind, OwnerObservation, PlatformSocketToken, ProcessEntry,
    ProcessIdentity, ProcessObservation, ProcessStartMarker, ProcessTable, ScopeLimitation,
    SnapshotCompleteness, TcpTimerObservation, UnverifiedOwnerReason,
};
use kickoutchi::passes::compare_passes;
use kickoutchi::projection::{
    project_legacy, project_legacy_with_limit, RowFilter, DERIVED_PORT_ENTRIES_MAX,
};
use kickoutchi::time::SystemTime;

const EVERY_ROW: RowFilter = RowFilter { pid: None, port: None };

#[derive(Debug)]
enum Step {
    Clock(u64),
    Pass(NativeObservationPass),
    Process(u32, MetadataProfile, ProcessRead),
    ProcessBatch(Vec<(u32, ProcessRead)>),
    Error(ObservationError),
}

struct FakeSource {
    steps: VecDeque<Step>,
    calls: Vec<String>,
    process_budgets: Vec<(u32, usize)>,
    process_batch_calls: usize,
}

impl FakeSource {
    fn new(steps: Vec<Step>) -> Self {
        Self {
            steps: steps.into(),
            calls: Vec::new(),
            process_budgets: Vec::new(),
            process_batch_calls: 0,
        }
    }

    fn next(&mut self) -> Result<Step, ObservationError> {
        match self.steps.pop_front().expect("test source exhausted") {
            Step::Error(error) => Err(error),
            step => Ok(step),
        }
    }

    fn read_process(
        &mut self,
        pid: u32,
        profile: MetadataProfile,
        optional_metadata_bytes_remaining: usize,
    ) -> Result<ProcessRead, ObservationError> {
        self.calls.push(format!("process:{pid}:{profile:?}"));
        self.process_budgets
            .push((pid, optional_metadata_bytes_remaining));
        match self.next()? {
            Step::Process(expected_pid, expected_profile, read) => {
                assert_eq!(pid, expected_pid);
                assert_eq!(profile, expected_profile);
                Ok(read)
            }
            step => panic!("expected process, got {step:?}"),
        }
    }
}

impl ObservationSource for FakeSource {
    fn wall_clock(&mut self) -> Result<SystemTime, ObservationError> {
        self.calls.push("clock".to_owned());
        match self.next()? {
            Step::Clock(milliseconds) => Ok(SystemTime::from_unix_millis(milliseconds)),
            step => panic!("expected clock, got {step:?}"),
        }
    }

    fn collect_native_pass(
        &mut self,
        _profile: MetadataProfile,
    ) -> Result<NativeObservationPass, ObservationError> {
        self.calls.push("pass".to_owned());
        match self.next()? {
            Step::Pass(pass) => Ok(pass),
            step => panic!("expected native pass, got {step:?}"),
        }
    }

    fn read_processes(
        &mut self,
        sorted_pids: &Vec<u32>,
        profile: MetadataProfile,
        optional_metadata_bytes_remaining: usize,
    ) -> Result<Vec<(u32, ProcessRead)>, ObservationError> {
        self.process_batch_calls += 1;
        if matches!(self.steps.front(), Some(Step::ProcessBatch(_))) {
            return match self.next()? {
                Step::ProcessBatch(reads) => Ok(reads),
                step => panic!("expected process batch, got {step:?}"),
            };
        }
        let mut retained_bytes = 0usize;
        let mut reads = Vec::with_capacity(sorted_pids.len());
        for &pid in sorted_pids {
            let remaining = optional_metadata_bytes_remaining.saturating_sub(retained_bytes);
            let read = self.read_process(pid, profile, remaining)?;
            retained_bytes = retained_bytes.saturating_add(process_read_metadata_bytes(&read));
            reads.push((pid, read));
        }
        Ok(reads)
    }
}

struct Host<'a>(&'a mut FakeSource);

impl ObservationSource for Host<'_> {
    fn wall_clock(&mut self) -> Result<SystemTime, ObservationError> {
        self.0.wall_clock()
    }

    fn collect_native_pass(
        &mut self,
        profile: MetadataProfile,
    ) -> Result<NativeObservationPass, ObservationError> {
        self.0.collect_native_pass(profile)
    }

    fn read_processes(
        &mut self,
        sorted_pids: &Vec<u32>,
        profile: MetadataProfile,
        optional_metadata_bytes_remaining: usize,
    ) -> Result<Vec<(u32, ProcessRead)>, ObservationError> {
        self.0.read_processes(sorted_pids, profile, optional_metadata_bytes_remaining)
    }
}

fn collect(
    source: &mut FakeSource,
    scope: ObservationScope,
    profile: MetadataProfile,
    limits: ObservationLimits,
) -> Result<NetworkSnapshot, ObservationError> {
    collect_consistent_with_limits(&mut SourceRecord::new(Host(source)), scope, profile, limits)
}

fn endpoint(port: u32) -> EndpointIdentity {
    EndpointIdentity::new(Protocol::Tcp, IpAddr::v4_localhost(), port, None)
        .expect("fixture endpoint is valid")
}

fn socket(port: u32) -> NativeSocketObservation {
    NativeSocketObservation {
        endpoint: endpoint(port),
        state: SocketState::Listen,
        timer: None,
        token: PlatformSocketToken::linux_inode(u64::from(port)),
    }
}

fn native_pass(sockets: Vec<NativeSocketObservation>, pids: &[&[u32]]) -> NativeObservationPass {
    assert_eq!(
        sockets.len(),
        pids.len(),
        "every socket fixture needs owners"
    );
    NativeObservationPass {
        rows: sockets
            .into_iter()
            .zip(pids)
            .map(|(socket, owner_pids)| NativeSocketRow {
                socket,
                owner_pids: owner_pids.to_vec(),
                owner_completeness: OwnerCompleteness::Complete,
            })
            .collect(),
        global_owner_completeness: OwnerCompleteness::Complete,
        evidence_gaps: Vec::new(),
        omitted_evidence_gap_count: 0,
    }
}

fn verified(marker: u64, name: Option<&str>) -> ProcessRead {
    ProcessRead::Verified {
        marker: ProcessStartMarker::linux(marker).expect("fixture marker is nonzero"),
        observation: ProcessObservation {
            name: name.map(str::to_owned),
            executable_path: None,
            command_line: None,
            parent_pid: None,
            parent_process_name: None,
            metadata_omission: None,
            metadata_completeness: MetadataCompleteness::Complete,
        },
    }
}

fn scope() -> ObservationScope {
    ObservationScope::new(
        ObservationScopeKind::CurrentNetworkNamespace,
        Some("net:[1]"),
        &[ScopeLimitation::OtherNetworkNamespacesExcluded],
    )
    .expect("fixture scope is valid")
}

fn limits(max: usize) -> ObservationLimits {
    ObservationLimits {
        sockets: max,
        candidate_pids: max,
        owner_edges: max,
        identity_reads_per_attempt: max.saturating_mul(2),
        identity_reads_total: max.saturating_mul(4),
        evidence_gaps: max,
        optional_metadata_bytes: max,
    }
}

fn stable_steps(rows: Vec<NativeSocketObservation>, pids: &[&[u32]]) -> Vec<Step> {
    let unique: BTreeSet<u32> = pids.iter().flat_map(|pids| pids.iter().copied()).collect();
    let mut steps = vec![Step::Clock(10), Step::Pass(native_pass(rows.clone(), pids))];
    for pid in &unique {
        steps.push(Step::Process(
            *pid,
            MetadataProfile::IdentityOnly,
            verified(7, None),
        ));
    }
    steps.push(Step::Pass(native_pass(rows, pids)));
    for pid in unique {
        steps.push(Step::Process(
            pid,
            MetadataProfile::Display,
            verified(7, Some("p")),
        ));
    }
    steps.push(Step::Clock(20));
    steps
}

#[allow(clippy::too_many_arguments)]
fn append_attempt(
    steps: &mut Vec<Step>,
    started: u64,
    rows_a: Vec<NativeSocketObservation>,
    pids_a: &[&[u32]],
    reads_a: &[(u32, ProcessRead)],
    rows_b: Vec<NativeSocketObservation>,
    pids_b: &[&[u32]],
    reads_b: &[(u32, ProcessRead)],
) {
    steps.push(Step::Clock(started));
    steps.push(Step::Pass(native_pass(rows_a, pids_a)));
    steps.extend(
        reads_a
            .iter()
            .map(|(pid, read)| Step::Process(*pid, MetadataProfile::IdentityOnly, read.clone())),
    );
    steps.push(Step::Pass(native_pass(rows_b, pids_b)));
    steps.extend(
        reads_b
            .iter()
            .map(|(pid, read)| Step::Process(*pid, MetadataProfile::Display, read.clone())),
    );
    steps.push(Step::Clock(started + 1));
}

fn table_of(processes: Vec<(ProcessIdentity, ProcessObservation)>) -> ProcessTable {
    ProcessTable {
        entries: processes
            .into_iter()
            .map(|(identity, observation)| ProcessEntry { identity, observation })
            .collect(),
    }
}

fn sized_process(name: usize, path: usize, command: usize) -> ProcessObservation {
    ProcessObservation {
        name: Some("n".repeat(name)),
        executable_path: Some("p".repeat(path).into_bytes()),
        command_line: Some("c".repeat(command)),
        parent_pid: None,
        parent_process_name: None,
        metadata_omission: None,
        metadata_completeness: MetadataCompleteness::Complete,
    }
}

/// How many bytes a read holds beyond the identity.
fn process_read_metadata_bytes(read: &ProcessRead) -> usize {
    match read {
        ProcessRead::Verified { observation, .. } => {
            observation.name.as_ref().map_or(0, String::len)
                + observation.executable_path.as_ref().map_or(0, Vec::len)
                + observation.parent_process_name.as_ref().map_or(0, String::len)
                + observation.command_line.as_ref().map_or(0, String::len)
        }
        ProcessRead::Unverified(_) => 0,
    }
}

#[test]
fn process_name_path_and_command_boundaries_use_actual_limits() {
    let identity = || ProcessIdentity {
        pid: 7,
        start_marker: ProcessStartMarker::linux(7).unwrap(),
    };

    let cases = [
        (PROCESS_NAME_MAX_BYTES, 0, 0),
        (0, EXECUTABLE_PATH_MAX_BYTES, 0),
        (0, 0, PROCESS_COMMAND_LINE_MAX_BYTES),
    ];
    for (name_bytes, path_bytes, command_bytes) in cases {
        let mut processes = table_of(vec![(
            identity(),
            sized_process(name_bytes, path_bytes, command_bytes),
        )]);
        let mut gaps = Vec::new();
        let mut omitted = 0;
        apply_metadata_budget(
            &mut processes,
            &mut gaps,
            &mut omitted,
            ObservationLimits::production(),
        );
        let process = processes.get(identity()).unwrap();
        assert_eq!(
            process.name.as_ref().map(|value| value.len()),
            Some(name_bytes)
        );
        assert_eq!(
            process
                .executable_path
                .as_ref()
                .map(|value| value.len()),
            Some(path_bytes)
        );
        assert_eq!(
            process.command_line.as_ref().map(|value| value.len()),
            Some(command_bytes)
        );
        assert!(gaps.is_empty());
    }

    // Each over-limit case pins exactly which field the budget must drop,
    // as a literal expectation rather than re-deriving it from the limits.
    let over_cases = [
        (PROCESS_NAME_MAX_BYTES + 1, 0, 0, true, false, false),
        (0, EXECUTABLE_PATH_MAX_BYTES + 1, 0, false, true, false),
        (0, 0, PROCESS_COMMAND_LINE_MAX_BYTES + 1, false, false, true),
    ];
    for (name_bytes, path_bytes, command_bytes, name_dropped, path_dropped, command_dropped) in
        over_cases
    {
        let mut processes = table_of(vec![(
            identity(),
            sized_process(name_bytes, path_bytes, command_bytes),
        )]);
        let mut gaps = Vec::new();
        let mut omitted = 0;
        apply_metadata_budget(
            &mut processes,
            &mut gaps,
            &mut omitted,
            ObservationLimits::production(),
        );
        let process = processes.get(identity()).unwrap();
        assert_eq!(process.name.is_none(), name_dropped);
        assert_eq!(process.executable_path.is_none(), path_dropped);
        assert_eq!(process.command_line.is_none(), command_dropped);
        assert_eq!(process.metadata_completeness, MetadataCompleteness::Partial);
        assert_eq!(gaps.len(), 1);
    }
}

#[test]
fn stable_collection_returns_pass_b_and_exact_call_order() {
    let row = socket(80);
    let mut source = FakeSource::new(stable_steps(vec![row], &[&[42]]));
    let snapshot =
        collect(&mut source, scope(), MetadataProfile::Display, limits(8))
            .expect("stable observation succeeds");
    assert_eq!(snapshot.completeness, SnapshotCompleteness::Complete);
    assert_eq!(
        snapshot
            .processes
            .entries
            .first()
            .and_then(|entry| entry.observation.name.as_deref()),
        Some("p")
    );
    assert_eq!(
        source.calls,
        [
            "clock",
            "pass",
            "process:42:IdentityOnly",
            "pass",
            "process:42:Display",
            "clock"
        ]
    );
    assert!(source.steps.is_empty());
    assert_eq!(source.process_batch_calls, 2);
}

#[test]
fn process_read_table_accepts_only_the_exact_sorted_pid_batch() {
    let expected = [1, 2];
    let valid = ProcessReadTable::from_expected(
        &expected,
        vec![(1, verified(1, None)), (2, verified(2, None))],
    )
    .expect("the exact sorted batch is valid");
    assert_eq!(valid.len(), 2);
    assert!(valid.get(1).is_some());
    assert!(valid.get(2).is_some());
    assert!(valid.get(3).is_none());

    let malformed_batches = [
        vec![(1, verified(1, None))],
        vec![
            (1, verified(1, None)),
            (2, verified(2, None)),
            (3, verified(3, None)),
        ],
        vec![(1, verified(1, None)), (1, verified(1, None))],
        vec![(2, verified(2, None)), (1, verified(1, None))],
        vec![(1, verified(1, None)), (3, verified(3, None))],
    ];
    for batch in malformed_batches {
        assert_eq!(
            ProcessReadTable::from_expected(&expected, batch)
                .expect_err("missing, extra, duplicate, unordered, or wrong PIDs are malformed"),
            ObservationError::NativeDataMalformed
        );
    }
}

#[test]
fn collection_rejects_an_unordered_process_read_batch() {
    let mut source = FakeSource::new(vec![
        Step::Clock(1),
        Step::Pass(native_pass(vec![socket(80)], &[&[1, 2]])),
        Step::ProcessBatch(vec![(2, verified(2, None)), (1, verified(1, None))]),
    ]);

    assert_eq!(
        collect(&mut source, scope(), MetadataProfile::Display, limits(4)),
        Err(ObservationError::NativeDataMalformed)
    );
    assert_eq!(source.process_batch_calls, 1);
}

#[test]
fn canonicalization_keeps_each_socket_owner_completeness_and_timer_bundled() {
    let mut socket_80 = socket(80);
    socket_80.timer = Some(TcpTimerObservation::from_linux_native(1, 8, Some(100)));
    let mut socket_81 = socket(81);
    socket_81.timer = Some(TcpTimerObservation::from_linux_native(1, 9, Some(100)));
    let partial = OwnerCompleteness::partial(&[EvidenceGapCode::OwnerAttributionIncomplete])
        .expect("one reason fits");
    let row_80 = NativeSocketRow {
        socket: socket_80,
        owner_pids: vec![1],
        owner_completeness: OwnerCompleteness::Complete,
    };
    let row_81 = NativeSocketRow {
        socket: socket_81,
        owner_pids: vec![2],
        owner_completeness: partial.clone(),
    };
    let pass = |rows| NativeObservationPass {
        rows,
        global_owner_completeness: partial.clone(),
        evidence_gaps: Vec::new(),
        omitted_evidence_gap_count: 0,
    };
    let steps = vec![
        Step::Clock(1),
        Step::Pass(pass(vec![row_81.clone(), row_80.clone()])),
        Step::Process(1, MetadataProfile::IdentityOnly, verified(1, None)),
        Step::Process(2, MetadataProfile::IdentityOnly, verified(2, None)),
        Step::Pass(pass(vec![row_80, row_81])),
        Step::Process(1, MetadataProfile::Display, verified(1, Some("one"))),
        Step::Process(2, MetadataProfile::Display, verified(2, Some("two"))),
        Step::Clock(2),
    ];
    let mut source = FakeSource::new(steps);

    let snapshot =
        collect(&mut source, scope(), MetadataProfile::Display, limits(8))
            .expect("bundled rows canonicalize without detaching per-socket facts");

    assert_eq!(snapshot.sockets[0].local_endpoint.port, 80);
    assert_eq!(
        snapshot.sockets[0].timer.map(|timer| timer.raw_ticks),
        Some(8)
    );
    assert_eq!(
        snapshot.sockets[0].owner_completeness,
        OwnerCompleteness::Complete
    );
    assert!(matches!(
        snapshot.sockets[0].owners.as_slice(),
        [OwnerObservation::Verified(identity)] if identity.pid == 1
    ));
    assert_eq!(snapshot.sockets[1].local_endpoint.port, 81);
    assert_eq!(
        snapshot.sockets[1].timer.map(|timer| timer.raw_ticks),
        Some(9)
    );
    assert_eq!(snapshot.sockets[1].owner_completeness, partial);
    assert!(matches!(
        snapshot.sockets[1].owners.as_slice(),
        [OwnerObservation::Verified(identity)] if identity.pid == 2
    ));
}

#[test]
fn timer_changes_do_not_create_socket_races_and_pass_b_is_retained() {
    let mut pass_a = socket(80);
    pass_a.timer = Some(TcpTimerObservation::from_linux_native(1, 20, Some(100)));
    let mut pass_b = pass_a.clone();
    pass_b.timer = Some(TcpTimerObservation::from_linux_native(1, 10, Some(100)));
    let mut source = FakeSource::new(vec![
        Step::Clock(10),
        Step::Pass(native_pass(vec![pass_a], &[&[]])),
        Step::Pass(native_pass(vec![pass_b], &[&[]])),
        Step::Clock(20),
    ]);

    let snapshot =
        collect(&mut source, scope(), MetadataProfile::Display, limits(1))
            .expect("timer-only movement remains a stable socket observation");

    assert_eq!(snapshot.completeness, SnapshotCompleteness::Complete);
    assert_eq!(
        snapshot.sockets[0].timer,
        Some(TcpTimerObservation::from_linux_native(1, 10, Some(100)))
    );
}

#[test]
fn duplicate_timer_rows_have_deterministic_timer_order() {
    let mut earlier = socket(80);
    earlier.token = None;
    earlier.timer = Some(TcpTimerObservation::from_linux_native(1, 20, Some(100)));
    let mut later = earlier.clone();
    later.timer = Some(TcpTimerObservation::from_linux_native(1, 10, Some(100)));
    let mut source = FakeSource::new(stable_steps(vec![earlier, later], &[&[], &[]]));

    let snapshot =
        collect(&mut source, scope(), MetadataProfile::Display, limits(2))
            .expect("duplicate timer rows collect deterministically");

    assert_eq!(
        snapshot
            .sockets
            .iter()
            .map(|socket| socket.timer.expect("fixture timer").raw_ticks)
            .collect::<Vec<_>>(),
        [10, 20]
    );
}

#[test]
fn platform_socket_tokens_survive_collection() {
    let linux = socket(80);
    let macos = NativeSocketObservation {
        endpoint: endpoint(81),
        state: SocketState::Listen,
        timer: None,
        token: PlatformSocketToken::macos_socket_id(0xCAFE),
    };
    let mut source = FakeSource::new(stable_steps(
        vec![linux.clone(), macos.clone()],
        &[&[], &[]],
    ));

    let snapshot =
        collect(&mut source, scope(), MetadataProfile::Display, limits(4))
            .expect("typed socket tokens collect");

    assert_eq!(snapshot.sockets[0].socket_token, linux.token);
    assert_eq!(snapshot.sockets[1].socket_token, macos.token);
}

#[test]
fn complete_owner_scan_can_return_an_empty_owner_set() {
    let mut source = FakeSource::new(stable_steps(vec![socket(80)], &[&[]]));

    let snapshot =
        collect(&mut source, scope(), MetadataProfile::Display, limits(2))
            .expect("an exhaustively ownerless socket is valid");

    assert_eq!(snapshot.owner_completeness, OwnerCompleteness::Complete);
    assert_eq!(
        snapshot.sockets[0].owner_completeness,
        OwnerCompleteness::Complete
    );
    assert!(snapshot.sockets[0].owners.is_empty());
    assert!(snapshot.evidence_gaps.is_empty());
}

#[test]
fn attributable_vanished_pid_merges_into_global_completeness() {
    let row = socket(80);
    let steps = vec![
        Step::Clock(1),
        Step::Pass(native_pass(vec![row.clone()], &[&[42]])),
        Step::Process(
            42,
            MetadataProfile::IdentityOnly,
            ProcessRead::Unverified(UnverifiedOwnerReason::Disappeared),
        ),
        Step::Pass(native_pass(vec![row], &[&[42]])),
        Step::Process(
            42,
            MetadataProfile::Display,
            ProcessRead::Unverified(UnverifiedOwnerReason::Disappeared),
        ),
        Step::Clock(2),
    ];
    let mut source = FakeSource::new(steps);

    let snapshot =
        collect(&mut source, scope(), MetadataProfile::Display, limits(4))
            .expect("a vanished attributed PID remains explicit");

    assert_eq!(
        snapshot.owner_completeness,
        OwnerCompleteness::partial(&[EvidenceGapCode::OwnerDisappeared]).unwrap()
    );
    assert_eq!(
        snapshot.sockets[0].owner_completeness,
        OwnerCompleteness::partial(&[EvidenceGapCode::OwnerDisappeared]).unwrap()
    );
    assert!(snapshot.evidence_gaps.iter().any(|gap| {
        gap.code == EvidenceGapCode::OwnerDisappeared
            && gap.endpoint.as_ref() == Some(&endpoint(80))
            && gap.pid == Some(42)
    }));
}

#[test]
fn duplicate_rows_are_compared_as_a_multiset() {
    let row = socket(80);
    let mut source = FakeSource::new(stable_steps(vec![row.clone(), row], &[&[], &[]]));
    let snapshot =
        collect(&mut source, scope(), MetadataProfile::Display, limits(8))
            .expect("equal duplicate multiplicity is stable");
    assert_eq!(snapshot.sockets.len(), 2);
    assert_eq!(snapshot.completeness, SnapshotCompleteness::Complete);
}

#[test]
fn large_duplicate_group_merges_local_uncertainty_linearly() {
    let row = socket(80);
    let disappeared = OwnerCompleteness::partial(&[EvidenceGapCode::OwnerDisappeared]).unwrap();
    let denied = OwnerCompleteness::partial(&[EvidenceGapCode::OwnerPermissionDenied]).unwrap();
    let mut local_a = vec![OwnerCompleteness::Complete; 32_768];
    local_a[0] = disappeared;
    local_a[32_768 - 1] = denied;
    let rows = |local_completeness: Vec<OwnerCompleteness>| {
        local_completeness
            .into_iter()
            .map(|owner_completeness| NativeSocketRow {
                socket: row.clone(),
                owner_pids: Vec::new(),
                owner_completeness,
            })
            .collect()
    };
    let pass_a = CollectedPass {
        rows: rows(local_a),
        global_owner_completeness: OwnerCompleteness::Complete,
        evidence_gaps: Vec::new(),
        processes_by_pid: ProcessReadTable::empty(),
        omitted_evidence_gap_count: 0,
    };
    let mut pass_b = CollectedPass {
        rows: rows(vec![OwnerCompleteness::Complete; 32_768]),
        global_owner_completeness: OwnerCompleteness::Complete,
        evidence_gaps: Vec::new(),
        processes_by_pid: ProcessReadTable::empty(),
        omitted_evidence_gap_count: 0,
    };

    merge_attempt_uncertainty(&pass_a, &mut pass_b).expect("bounded reasons merge");

    let expected = OwnerCompleteness::partial(&[
        EvidenceGapCode::OwnerPermissionDenied,
        EvidenceGapCode::OwnerDisappeared,
    ])
    .unwrap();
    assert!(
        pass_b
            .rows
            .iter()
            .all(|row| row.owner_completeness == expected)
    );
}

#[test]
fn attempt_merge_keeps_global_and_socket_local_owner_reasons_separate() {
    let global_a = OwnerCompleteness::partial(&[
        EvidenceGapCode::OwnerPermissionDenied,
        EvidenceGapCode::OwnerPermissionDenied,
    ])
    .unwrap();
    let global_b = OwnerCompleteness::partial(&[EvidenceGapCode::OwnerDisappeared]).unwrap();
    let local_a =
        OwnerCompleteness::partial(&[EvidenceGapCode::ProcessIdentityUnavailable]).unwrap();
    let local_b =
        OwnerCompleteness::partial(&[EvidenceGapCode::OwnerAttributionIncomplete]).unwrap();
    let rows = |owner_completeness| {
        vec![NativeSocketRow {
            socket: socket(80),
            owner_pids: Vec::new(),
            owner_completeness,
        }]
    };
    let pass_a = CollectedPass {
        rows: rows(local_a),
        global_owner_completeness: global_a,
        evidence_gaps: Vec::new(),
        processes_by_pid: ProcessReadTable::empty(),
        omitted_evidence_gap_count: 0,
    };
    let mut pass_b = CollectedPass {
        rows: rows(local_b),
        global_owner_completeness: global_b,
        evidence_gaps: Vec::new(),
        processes_by_pid: ProcessReadTable::empty(),
        omitted_evidence_gap_count: 0,
    };

    merge_attempt_uncertainty(&pass_a, &mut pass_b).expect("bounded reasons merge");

    assert_eq!(
        pass_b.global_owner_completeness,
        OwnerCompleteness::partial(&[
            EvidenceGapCode::OwnerDisappeared,
            EvidenceGapCode::OwnerPermissionDenied,
        ])
        .unwrap()
    );
    assert_eq!(
        pass_b.rows[0].owner_completeness,
        OwnerCompleteness::partial(&[
            EvidenceGapCode::OwnerAttributionIncomplete,
            EvidenceGapCode::ProcessIdentityUnavailable,
        ])
        .unwrap()
    );
}

#[test]
fn merged_source_omission_counts_saturate() {
    let pass_a = CollectedPass {
        rows: Vec::new(),
        global_owner_completeness: OwnerCompleteness::Complete,
        evidence_gaps: Vec::new(),
        processes_by_pid: ProcessReadTable::empty(),
        omitted_evidence_gap_count: u64::MAX,
    };
    let mut pass_b = CollectedPass {
        rows: Vec::new(),
        global_owner_completeness: OwnerCompleteness::Complete,
        evidence_gaps: Vec::new(),
        processes_by_pid: ProcessReadTable::empty(),
        omitted_evidence_gap_count: 1,
    };

    merge_attempt_uncertainty(&pass_a, &mut pass_b).expect("empty passes merge");

    assert_eq!(pass_b.omitted_evidence_gap_count, u64::MAX);
}

#[test]
fn multiplicity_owner_edges_and_identity_races_are_independent() {
    let row = socket(80);
    let pass = |sockets: Vec<NativeSocketObservation>, pids: &[&[u32]], read: ProcessRead| {
        let unique = pids
            .iter()
            .flat_map(|pids| pids.iter().copied())
            .collect::<BTreeSet<_>>();
        CollectedPass {
            rows: native_pass(sockets, pids).rows,
            global_owner_completeness: OwnerCompleteness::Complete,
            evidence_gaps: Vec::new(),
            processes_by_pid: ProcessReadTable {
                entries: unique.into_iter().map(|pid| (pid, read.clone())).collect(),
            },
            omitted_evidence_gap_count: 0,
        }
    };

    let two = pass(
        vec![row.clone(), row.clone()],
        &[&[7], &[7]],
        verified(7, None),
    );
    let one = pass(vec![row.clone()], &[&[7]], verified(7, None));
    let change = compare_passes(&two, &one);
    assert!(change.socket_set);
    assert!(
        change.ownership,
        "duplicate owner-edge multiplicity also changed"
    );

    let owner_a = pass(vec![row.clone()], &[&[7]], verified(7, None));
    let owner_b = pass(vec![row.clone()], &[&[8]], verified(7, None));
    let change = compare_passes(&owner_a, &owner_b);
    assert!(!change.socket_set);
    assert!(change.ownership);

    let marker_a = pass(vec![row.clone()], &[&[7]], verified(7, None));
    let marker_b = pass(vec![row.clone()], &[&[7]], verified(8, None));
    let change = compare_passes(&marker_a, &marker_b);
    assert!(!change.socket_set);
    assert!(change.ownership);

    let unverified = pass(
        vec![row],
        &[&[7]],
        ProcessRead::Unverified(UnverifiedOwnerReason::Raced),
    );
    assert!(compare_passes(&marker_a, &unverified).ownership);
}

#[test]
fn orchestrator_reports_multiplicity_only_races() {
    let row = socket(80);
    let mut steps = Vec::new();
    for started in [1, 3] {
        append_attempt(
            &mut steps,
            started,
            vec![row.clone(), row.clone()],
            &[&[], &[]],
            &[],
            vec![row.clone()],
            &[&[]],
            &[],
        );
    }
    let mut source = FakeSource::new(steps);

    let snapshot =
        collect(&mut source, scope(), MetadataProfile::Display, limits(8))
            .expect("bounded raced snapshot");

    assert_eq!(snapshot.completeness, SnapshotCompleteness::Raced);
    assert!(snapshot.evidence_gaps.iter().any(|gap| {
        gap.code == EvidenceGapCode::ObservationRaced && gap.impact == EvidenceImpact::SocketSet
    }));
    assert!(!snapshot.evidence_gaps.iter().any(|gap| {
        gap.code == EvidenceGapCode::ObservationRaced && gap.impact == EvidenceImpact::Ownership
    }));
    assert_eq!(snapshot.owner_completeness, OwnerCompleteness::Complete);
}

#[test]
fn orchestrator_reports_owner_edge_only_races() {
    let row = socket(80);
    let mut steps = Vec::new();
    for started in [1, 3] {
        append_attempt(
            &mut steps,
            started,
            vec![row.clone()],
            &[&[1]],
            &[(1, verified(10, None))],
            vec![row.clone()],
            &[&[2]],
            &[(2, verified(20, Some("p")))],
        );
    }
    let mut source = FakeSource::new(steps);

    let snapshot =
        collect(&mut source, scope(), MetadataProfile::Display, limits(8))
            .expect("bounded raced snapshot");

    assert_eq!(snapshot.sockets.len(), 1);
    assert!(snapshot.evidence_gaps.iter().any(|gap| {
        gap.code == EvidenceGapCode::ObservationRaced && gap.impact == EvidenceImpact::Ownership
    }));
    assert!(!snapshot.evidence_gaps.iter().any(|gap| {
        gap.code == EvidenceGapCode::ObservationRaced && gap.impact == EvidenceImpact::SocketSet
    }));
}

#[test]
fn orchestrator_reports_marker_only_races() {
    let row = socket(80);
    let mut steps = Vec::new();
    for started in [1, 3] {
        append_attempt(
            &mut steps,
            started,
            vec![row.clone()],
            &[&[1]],
            &[(1, verified(10, None))],
            vec![row.clone()],
            &[&[1]],
            &[(1, verified(11, Some("p")))],
        );
    }
    let mut source = FakeSource::new(steps);

    let snapshot =
        collect(&mut source, scope(), MetadataProfile::Display, limits(8))
            .expect("bounded raced snapshot");

    assert_eq!(snapshot.completeness, SnapshotCompleteness::Raced);
    assert!(matches!(
        snapshot.sockets[0].owners[0],
        OwnerObservation::Verified(ProcessIdentity {
            start_marker: ProcessStartMarker::LinuxStartTicks(marker),
            ..
        }) if marker == 11
    ));
}

#[test]
fn orchestrator_reports_verified_to_unverified_races() {
    let row = socket(80);
    let mut steps = Vec::new();
    for started in [1, 3] {
        append_attempt(
            &mut steps,
            started,
            vec![row.clone()],
            &[&[1]],
            &[(1, verified(10, None))],
            vec![row.clone()],
            &[&[1]],
            &[(
                1,
                ProcessRead::Unverified(UnverifiedOwnerReason::IdentityUnavailable),
            )],
        );
    }
    let mut source = FakeSource::new(steps);

    let snapshot =
        collect(&mut source, scope(), MetadataProfile::Display, limits(8))
            .expect("bounded raced snapshot");

    assert!(matches!(
        snapshot.sockets[0].owners[0],
        OwnerObservation::UnverifiedPid {
            pid: 1,
            reason: UnverifiedOwnerReason::IdentityUnavailable
        }
    ));
    assert!(snapshot.processes.entries.is_empty());
}

#[test]
fn orchestrator_treats_one_pass_only_pids_as_races() {
    let row = socket(80);
    let mut steps = Vec::new();
    for started in [1, 3] {
        append_attempt(
            &mut steps,
            started,
            vec![row.clone()],
            &[&[1]],
            &[(1, verified(10, None))],
            vec![row.clone()],
            &[&[]],
            &[],
        );
    }
    let mut source = FakeSource::new(steps);

    let snapshot =
        collect(&mut source, scope(), MetadataProfile::Display, limits(8))
            .expect("bounded raced snapshot");

    assert!(snapshot.sockets[0].owners.is_empty());
    assert_eq!(
        snapshot.sockets[0].owner_completeness,
        OwnerCompleteness::Raced
    );
    assert_eq!(snapshot.owner_completeness, OwnerCompleteness::Raced);
}

#[test]
fn stable_output_is_independent_of_native_source_order() {
    let rows_a = vec![socket(81), socket(80)];
    let rows_b = vec![socket(80), socket(81)];
    let mut source_a = FakeSource::new(stable_steps(rows_a, &[&[2, 1], &[3]]));
    let mut source_b = FakeSource::new(stable_steps(rows_b, &[&[3], &[1, 2]]));
    let snapshot_a =
        collect(&mut source_a, scope(), MetadataProfile::Display, limits(8))
            .expect("first ordering collects");
    let snapshot_b =
        collect(&mut source_b, scope(), MetadataProfile::Display, limits(8))
            .expect("second ordering collects");
    assert_eq!(snapshot_a.sockets, snapshot_b.sockets);
    assert_eq!(snapshot_a.processes, snapshot_b.processes);
}

#[test]
fn evidence_gaps_and_projected_rows_have_deterministic_order() {
    let gap = |port| {
        EvidenceGap::new(
            EvidenceImpact::Metadata,
            EvidenceGapCode::ProcessMetadataUnavailable,
            Some(endpoint(port)),
            Some(port),
            "missing",
        )
    };
    let mut pass_a = native_pass(vec![socket(81), socket(80)], &[&[2], &[1]]);
    pass_a.evidence_gaps = vec![gap(81), gap(80)];
    let mut pass_b = native_pass(vec![socket(80), socket(81)], &[&[1], &[2]]);
    pass_b.evidence_gaps = vec![gap(80), gap(81)];
    let steps = vec![
        Step::Clock(1),
        Step::Pass(pass_a),
        Step::Process(1, MetadataProfile::IdentityOnly, verified(1, None)),
        Step::Process(2, MetadataProfile::IdentityOnly, verified(2, None)),
        Step::Pass(pass_b),
        Step::Process(1, MetadataProfile::Display, verified(1, Some("one"))),
        Step::Process(2, MetadataProfile::Display, verified(2, Some("two"))),
        Step::Clock(2),
    ];
    let mut source = FakeSource::new(steps);

    let snapshot =
        collect(&mut source, scope(), MetadataProfile::Display, limits(16))
            .expect("stable deterministic snapshot");
    let gap_ports = snapshot
        .evidence_gaps
        .iter()
        .map(|gap| gap.endpoint.as_ref().unwrap().port)
        .collect::<Vec<_>>();
    // Both passes report the same two gaps in opposite orders. The result
    // is that pair once, in canonical order: reporting order does not
    // reach the snapshot, and observing one gap twice does not make it two.
    assert_eq!(gap_ports, vec![80, 81]);

    let projected = project_legacy(&snapshot).expect("legacy projection");
    assert_eq!(
        projected
            .iter()
            .map(|row| (row.local_port, row.pid))
            .collect::<Vec<_>>(),
        vec![(80, Some(1)), (81, Some(2))]
    );
}

#[test]
fn partial_and_denied_ownership_remain_explicit() {
    let row = socket(80);
    let gap = EvidenceGap::new(
        EvidenceImpact::Ownership,
        EvidenceGapCode::OwnerPermissionDenied,
        Some(row.endpoint),
        Some(42),
        "denied",
    );
    let partial = OwnerCompleteness::partial(&[EvidenceGapCode::OwnerPermissionDenied])
        .expect("one reason fits");
    let pass = NativeObservationPass {
        rows: vec![NativeSocketRow {
            socket: row.clone(),
            owner_pids: vec![42],
            owner_completeness: partial.clone(),
        }],
        global_owner_completeness: partial,
        evidence_gaps: vec![gap.clone()],
        omitted_evidence_gap_count: 0,
    };
    let steps = vec![
        Step::Clock(1),
        Step::Pass(pass.clone()),
        Step::Process(
            42,
            MetadataProfile::IdentityOnly,
            ProcessRead::Unverified(UnverifiedOwnerReason::PermissionDenied),
        ),
        Step::Pass(pass),
        Step::Process(
            42,
            MetadataProfile::Display,
            ProcessRead::Unverified(UnverifiedOwnerReason::PermissionDenied),
        ),
        Step::Clock(2),
    ];
    let mut source = FakeSource::new(steps);
    let snapshot =
        collect(&mut source, scope(), MetadataProfile::Display, limits(8))
            .expect("permission loss is a partial snapshot, not an error");
    assert_eq!(snapshot.completeness, SnapshotCompleteness::Partial);
    assert!(snapshot.evidence_gaps.contains(&gap));
    assert!(
        snapshot
            .evidence_gaps
            .iter()
            .all(|gap| gap.code == EvidenceGapCode::OwnerPermissionDenied)
    );
    assert!(matches!(
        snapshot.sockets[0].owners[0],
        OwnerObservation::UnverifiedPid {
            reason: UnverifiedOwnerReason::PermissionDenied,
            ..
        }
    ));
    assert!(snapshot.processes.entries.is_empty());
}

#[test]
fn second_unstable_attempt_returns_its_pass_b_without_a_third_attempt() {
    let a1 = socket(80);
    let b1 = socket(81);
    let a2 = socket(82);
    let b2 = socket(83);
    let steps = vec![
        Step::Clock(1),
        Step::Pass(native_pass(vec![a1], &[&[]])),
        Step::Pass(native_pass(vec![b1], &[&[]])),
        Step::Clock(2),
        Step::Clock(3),
        Step::Pass(native_pass(vec![a2], &[&[]])),
        Step::Pass(native_pass(vec![b2.clone()], &[&[]])),
        Step::Clock(4),
    ];
    let mut source = FakeSource::new(steps);
    let snapshot =
        collect(&mut source, scope(), MetadataProfile::Display, limits(8))
            .expect("the second raced pass B is returned");
    assert_eq!(snapshot.completeness, SnapshotCompleteness::Raced);
    assert_eq!(snapshot.sockets[0].local_endpoint, b2.endpoint);
    assert_eq!(snapshot.owner_completeness, OwnerCompleteness::Complete);
    assert_eq!(
        snapshot.sockets[0].owner_completeness,
        OwnerCompleteness::Raced
    );
    assert_eq!(
        source.calls.iter().filter(|call| *call == "pass").count(),
        4
    );
    assert!(source.steps.is_empty(), "no third attempt may be consumed");
}

#[test]
fn stable_retry_is_accepted_on_attempt_two() {
    let mut steps = vec![
        Step::Clock(1),
        Step::Pass(native_pass(vec![socket(80)], &[&[]])),
        Step::Pass(native_pass(vec![socket(81)], &[&[]])),
        Step::Clock(2),
    ];
    steps.extend(stable_steps(vec![socket(82)], &[&[]]));
    let mut source = FakeSource::new(steps);
    let snapshot =
        collect(&mut source, scope(), MetadataProfile::Display, limits(8))
            .expect("stable retry succeeds");
    assert_eq!(snapshot.completeness, SnapshotCompleteness::Complete);
    assert_eq!(snapshot.sockets[0].local_endpoint, endpoint(82));
    assert_eq!(
        source.calls.iter().filter(|call| *call == "pass").count(),
        4
    );
}

#[test]
fn injectable_limits_cover_zero_max_and_max_plus_one() {
    let mut empty = FakeSource::new(stable_steps(Vec::new(), &[]));
    let snapshot =
        collect(&mut empty, scope(), MetadataProfile::Display, limits(2))
            .expect("zero rows are valid");
    assert!(snapshot.sockets.is_empty());

    let rows = vec![socket(80), socket(81)];
    let mut maximum = FakeSource::new(stable_steps(rows, &[&[], &[]]));
    assert!(
        collect(&mut maximum, scope(), MetadataProfile::Display, limits(2))
            .is_ok()
    );

    let mut over = FakeSource::new(vec![
        Step::Clock(1),
        Step::Pass(native_pass(
            vec![socket(80), socket(81), socket(82)],
            &[&[], &[], &[]],
        )),
    ]);
    assert_eq!(
        collect(&mut over, scope(), MetadataProfile::Display, limits(2)),
        Err(ObservationError::SocketObservationLimitExceeded)
    );
    assert_eq!(over.calls, ["clock", "pass"]);
}

#[test]
fn legacy_projection_preserves_owner_metadata_and_checks_projection_bounds() {
    let mut empty_source = FakeSource::new(stable_steps(Vec::new(), &[]));
    let empty = collect(
        &mut empty_source,
        scope(),
        MetadataProfile::Display,
        limits(4),
    )
    .expect("empty snapshot is valid");
    assert!(
        project_legacy_with_limit(&empty, 0, EVERY_ROW)
            .expect("zero rows fit a zero limit")
            .is_empty()
    );

    let mut source = FakeSource::new(stable_steps(vec![socket(80)], &[&[1, 1]]));
    let mut snapshot =
        collect(&mut source, scope(), MetadataProfile::Display, limits(4))
            .expect("duplicate owner edges remain countable");
    let process = &mut snapshot
        .processes
        .entries
        .first_mut()
        .expect("shared owner has process metadata")
        .observation;
    process.name = Some("process".to_owned());
    process.executable_path = Some(b"/usr/bin/process".to_vec());
    process.command_line = Some("process --serve".to_owned());
    process.parent_process_name = Some("parent".to_owned());
    let projected = project_legacy_with_limit(&snapshot, 2, EVERY_ROW)
        .expect("exact projection maximum is accepted");
    assert_eq!(projected.len(), 2);
    for entry in &projected {
        assert_eq!(entry.process_name.as_deref(), Some("process"));
        assert_eq!(
            entry.executable_path.as_deref(),
            Some(b"/usr/bin/process".as_slice())
        );
        assert_eq!(entry.command_line.as_deref(), Some("process --serve"));
        assert_eq!(entry.parent_process_name.as_deref(), Some("parent"));
        assert!(!entry.protected);
    }
    assert_eq!(
        project_legacy_with_limit(&snapshot, 1, EVERY_ROW),
        Err(ObservationError::LegacyProjectionLimitExceeded)
    );
}

#[test]
fn targeted_descriptors_ignore_unrelated_rows_over_global_projection_limit() {
    let mut source = FakeSource::new(stable_steps(vec![socket(80)], &[&[1]]));
    let mut snapshot =
        collect(&mut source, scope(), MetadataProfile::Display, limits(4))
            .expect("target fixture collects");
    let mut unrelated = snapshot.sockets[0].clone();
    unrelated.local_endpoint = endpoint(81);
    unrelated.owners = vec![snapshot.sockets[0].owners[0].clone(); DERIVED_PORT_ENTRIES_MAX + 1];
    snapshot.sockets.push(unrelated);

    assert_eq!(
        snapshot
            .port_entries_matching(RowFilter { pid: None, port: Some(80) }, &Vec::new())
            .expect("unrelated rows do not consume the targeted limit")
            .len(),
        1,
    );
    assert_eq!(
        snapshot.port_entries(&Vec::new()),
        Err(ObservationError::LegacyProjectionLimitExceeded),
    );
}

#[test]
fn many_sockets_for_one_owner_use_one_process_record() {
    let rows = vec![socket(80), socket(81), socket(82)];
    let mut source = FakeSource::new(stable_steps(rows, &[&[7], &[7], &[7]]));
    let snapshot =
        collect(&mut source, scope(), MetadataProfile::Display, limits(8))
            .expect("shared owner snapshot");

    assert_eq!(snapshot.processes.entries.len(), 1);
    let process = &snapshot.processes.entries[0].observation;
    assert_eq!(process.name.as_ref().map(|name| name.len()), Some(1));
    let rows = project_legacy(&snapshot).expect("legacy rows");
    assert_eq!(rows.len(), 3);
    for row in &rows {
        assert_eq!(row.process_name.as_deref(), Some("p"));
    }
}

#[test]
fn identity_limit_refuses_before_any_process_read() {
    let mut small = limits(3);
    small.owner_edges = 3;
    small.candidate_pids = 2;
    let mut source = FakeSource::new(vec![
        Step::Clock(1),
        Step::Pass(native_pass(vec![socket(80)], &[&[1, 2, 3]])),
    ]);
    assert_eq!(
        collect(&mut source, scope(), MetadataProfile::Display, small),
        Err(ObservationError::ProcessIdentityLimitExceeded)
    );
    assert!(!source.calls.iter().any(|call| call.starts_with("process:")));
}

#[test]
fn owner_edge_limit_accepts_max_and_refuses_max_plus_one_before_identity_reads() {
    let row = socket(80);
    let exact_pids: &[&[u32]] = &[&[1, 1]];
    let mut exact = FakeSource::new(stable_steps(vec![row.clone()], exact_pids));
    let mut small = limits(8);
    small.owner_edges = 2;
    assert!(
        collect(&mut exact, scope(), MetadataProfile::Display, small)
            .is_ok()
    );

    let mut over = FakeSource::new(vec![
        Step::Clock(1),
        Step::Pass(native_pass(vec![row], &[&[1, 1, 1]])),
    ]);
    assert_eq!(
        collect(&mut over, scope(), MetadataProfile::Display, small),
        Err(ObservationError::OwnerAttributionLimitExceeded)
    );
    assert!(!over.calls.iter().any(|call| call.starts_with("process:")));
}

#[test]
fn identity_reads_are_bounded_across_both_passes_of_an_attempt() {
    let row = socket(80);
    let mut small = limits(8);
    small.identity_reads_per_attempt = 2;
    let mut exact = FakeSource::new(stable_steps(vec![row.clone()], &[&[1]]));
    assert!(
        collect(&mut exact, scope(), MetadataProfile::Display, small)
            .is_ok()
    );

    let mut over = FakeSource::new(vec![
        Step::Clock(1),
        Step::Pass(native_pass(vec![row.clone()], &[&[1]])),
        Step::Process(1, MetadataProfile::IdentityOnly, verified(1, None)),
        Step::Pass(native_pass(vec![row], &[&[1, 2]])),
    ]);
    assert_eq!(
        collect(&mut over, scope(), MetadataProfile::Display, small),
        Err(ObservationError::ProcessIdentityLimitExceeded)
    );
    assert_eq!(
        over.calls
            .iter()
            .filter(|call| call.starts_with("process:"))
            .count(),
        1
    );
}

#[test]
fn total_identity_bound_is_exact_and_refuses_before_excess_read() {
    let row = socket(80);
    let mut exact_limits = limits(4);
    exact_limits.identity_reads_total = 2;
    let mut exact = FakeSource::new(stable_steps(vec![row.clone()], &[&[1]]));
    assert!(
            collect(
                &mut exact,
                scope(),
                MetadataProfile::Display,
                exact_limits,
            )
            .is_ok()
        );
    assert_eq!(exact.process_budgets.len(), 2);

    let mut over_limits = exact_limits;
    over_limits.identity_reads_total = 1;
    let mut over = FakeSource::new(vec![
        Step::Clock(1),
        Step::Pass(native_pass(vec![row.clone()], &[&[1]])),
        Step::Process(1, MetadataProfile::IdentityOnly, verified(1, None)),
        Step::Pass(native_pass(vec![row], &[&[1]])),
    ]);
    assert_eq!(
        collect(&mut over, scope(), MetadataProfile::Display, over_limits,),
        Err(ObservationError::ProcessIdentityLimitExceeded)
    );
    assert_eq!(
        over.process_budgets,
        [(1, over_limits.optional_metadata_bytes)]
    );
}

#[test]
fn readers_receive_remaining_metadata_budget_in_pid_order() {
    let rows = vec![socket(80), socket(81)];
    let mut small = limits(4);
    small.optional_metadata_bytes = 3;
    let mut source = FakeSource::new(stable_steps(rows, &[&[2], &[1]]));

    collect(&mut source, scope(), MetadataProfile::Display, small)
        .expect("bounded metadata collection succeeds");

    assert_eq!(source.process_budgets, [(1, 3), (2, 3), (1, 3), (2, 2)]);
}

#[test]
fn omitted_metadata_truncation_gaps_are_counted() {
    let row = socket(80);
    let steps = vec![
        Step::Clock(1),
        Step::Pass(native_pass(vec![row.clone()], &[&[1]])),
        Step::Process(1, MetadataProfile::IdentityOnly, verified(1, None)),
        Step::Pass(native_pass(vec![row], &[&[1]])),
        Step::Process(1, MetadataProfile::Display, verified(1, Some("xx"))),
        Step::Clock(2),
    ];
    let mut source = FakeSource::new(steps);
    let mut small = limits(2);
    small.evidence_gaps = 0;
    small.optional_metadata_bytes = 1;

    let snapshot =
        collect(&mut source, scope(), MetadataProfile::Display, small)
            .expect("metadata truncation retains the snapshot");

    assert!(snapshot.evidence_gaps.is_empty());
    assert_eq!(snapshot.omitted_evidence_gap_count, 1);
    assert_eq!(snapshot.completeness, SnapshotCompleteness::Partial);
}

#[test]
fn evidence_gap_overflow_is_counted_and_forces_partial() {
    let row = socket(80);
    // Four gaps that differ by PID. Overflow accounting has to be driven
    // by evidence that genuinely differs, because repeating one gap is
    // merged down to a single retained gap rather than filling the budget.
    let gap = |pid| {
        EvidenceGap::new(
            EvidenceImpact::Metadata,
            EvidenceGapCode::ProcessMetadataUnavailable,
            None,
            Some(pid),
            "missing",
        )
    };
    let mut pass = native_pass(vec![row], &[&[]]);
    pass.evidence_gaps = vec![gap(1), gap(2), gap(3), gap(4)];
    let steps = vec![
        Step::Clock(1),
        Step::Pass(pass.clone()),
        Step::Pass(pass),
        Step::Clock(2),
    ];
    let mut source = FakeSource::new(steps);
    let mut small = limits(8);
    small.evidence_gaps = 1;
    let snapshot =
        collect(&mut source, scope(), MetadataProfile::Display, small)
            .expect("gap truncation retains the snapshot");
    assert_eq!(snapshot.evidence_gaps.len(), 1);
    assert_eq!(snapshot.omitted_evidence_gap_count, 3);
    assert_eq!(snapshot.completeness, SnapshotCompleteness::Partial);
}

/// Both consistency passes read the same host, so a real collector reports
/// the same per-PID gaps in each one. Retaining both copies would spend
/// half the gap budget on evidence already recorded, and the resulting
/// overflow would make an otherwise usable observation refuse a watch diff
/// and a kill.
#[test]
fn a_gap_observed_in_both_passes_is_retained_once_and_costs_one_budget_slot() {
    let row = socket(80);
    let gap = |pid| {
        EvidenceGap::new(
            EvidenceImpact::Ownership,
            EvidenceGapCode::OwnerPermissionDenied,
            None,
            Some(pid),
            "denied",
        )
    };
    let mut pass = native_pass(vec![row], &[&[]]);
    pass.evidence_gaps = vec![gap(1), gap(2)];
    let steps = vec![
        Step::Clock(1),
        Step::Pass(pass.clone()),
        Step::Pass(pass),
        Step::Clock(2),
    ];
    let mut source = FakeSource::new(steps);
    // A budget of exactly two: the distinct pair fits, a doubled pair
    // would not, so this also pins that the copies never reach the budget.
    let mut exact = limits(8);
    exact.evidence_gaps = 2;

    let snapshot =
        collect(&mut source, scope(), MetadataProfile::Display, exact)
            .expect("duplicate gaps do not fail collection");

    assert_eq!(
        snapshot
            .evidence_gaps
            .iter()
            .map(|gap| gap.pid)
            .collect::<Vec<_>>(),
        vec![Some(1), Some(2)],
    );
    assert_eq!(snapshot.omitted_evidence_gap_count, 0);
}

#[test]
fn aggregate_gap_counts_merge_by_max_without_inventing_a_cross_pass_union() {
    let row = socket(80);
    let aggregate = |count| {
        EvidenceGap::aggregate_for_pids(
            EvidenceImpact::Ownership,
            EvidenceGapCode::OwnerPermissionDenied,
            None,
            count,
            "at least the reported number of PIDs were denied",
        )
    };
    let pass = |count| {
        let mut pass = native_pass(vec![row.clone()], &[&[]]);
        pass.global_owner_completeness =
            OwnerCompleteness::partial(&[EvidenceGapCode::OwnerPermissionDenied])
                .expect("one reason fits");
        pass.evidence_gaps = vec![aggregate(count)];
        pass
    };
    let steps = vec![
        Step::Clock(1),
        Step::Pass(pass(4_096)),
        Step::Pass(pass(4_100)),
        Step::Clock(2),
    ];
    let mut source = FakeSource::new(steps);

    let snapshot =
        collect(&mut source, scope(), MetadataProfile::Display, limits(8))
            .expect("aggregate gaps merge within one slot");

    assert_eq!(snapshot.evidence_gaps.len(), 1);
    assert_eq!(snapshot.evidence_gaps[0].affected_pid_count(), Some(4_100));
    assert_eq!(snapshot.omitted_evidence_gap_count, 0);
}

#[test]
fn metadata_budget_is_pid_then_field_order_and_omits_before_overflow() {
    let mut processes = table_of(vec![
        (
            ProcessIdentity {
                pid: 2,
                start_marker: ProcessStartMarker::linux(2).unwrap(),
            },
            ProcessObservation {
                name: Some("bb".to_owned()),
                executable_path: None,
                command_line: None,
                parent_pid: None,
                parent_process_name: None,
                metadata_omission: None,
                metadata_completeness: MetadataCompleteness::Complete,
            },
        ),
        (
            ProcessIdentity {
                pid: 1,
                start_marker: ProcessStartMarker::linux(1).unwrap(),
            },
            ProcessObservation {
                name: Some("aa".to_owned()),
                executable_path: Some(b"x".to_vec()),
                command_line: None,
                parent_pid: None,
                parent_process_name: None,
                metadata_omission: None,
                metadata_completeness: MetadataCompleteness::Complete,
            },
        ),
    ]);
    let mut gaps = Vec::new();
    let mut omitted = 0;
    let mut small = limits(8);
    small.optional_metadata_bytes = 3;
    apply_metadata_budget(&mut processes, &mut gaps, &mut omitted, small);
    let of_pid = |pid: u32| {
        &processes.entries.iter().find(|entry| entry.identity.pid == pid).unwrap().observation
    };
    let pid1 = of_pid(1);
    let pid2 = of_pid(2);
    assert_eq!(pid1.name.as_deref(), Some("aa"));
    assert_eq!(pid1.executable_path.as_deref(), Some(b"x".as_slice()));
    assert_eq!(pid2.name, None);
    assert_eq!(
        pid2.metadata_omission,
        Some(MetadataOmission::BudgetExceeded)
    );
    assert_eq!(pid2.metadata_completeness, MetadataCompleteness::Partial);
    assert_eq!(
        gaps.iter().map(|gap| gap.code).collect::<Vec<_>>(),
        [EvidenceGapCode::NoncriticalEvidenceTruncated]
    );
    assert_eq!(omitted, 0);
}

#[test]
fn metadata_budget_omits_fields_in_order_without_changing_identity_or_socket() {
    let expected_fields = [
        (None, None, None, None),
        (Some("n"), None, None, None),
        (Some("n"), Some(b"x".as_slice()), None, None),
        (Some("n"), Some(b"x".as_slice()), Some("p"), None),
        (Some("n"), Some(b"x".as_slice()), Some("p"), Some("c")),
    ];

    for (budget, expected) in expected_fields.into_iter().enumerate() {
        let row = socket(80);
        let token = row.token;
        let full = ProcessRead::Verified {
            marker: ProcessStartMarker::linux(7).unwrap(),
            observation: ProcessObservation {
                name: Some("n".to_owned()),
                executable_path: Some(b"x".to_vec()),
                command_line: Some("c".to_owned()),
                parent_pid: Some(99),
                parent_process_name: Some("p".to_owned()),
                metadata_omission: None,
                metadata_completeness: MetadataCompleteness::Complete,
            },
        };
        let steps = vec![
            Step::Clock(1),
            Step::Pass(native_pass(vec![row.clone()], &[&[42]])),
            Step::Process(42, MetadataProfile::IdentityOnly, verified(7, None)),
            Step::Pass(native_pass(vec![row], &[&[42]])),
            Step::Process(42, MetadataProfile::Display, full),
            Step::Clock(2),
        ];
        let mut source = FakeSource::new(steps);
        let mut test_limits = limits(8);
        test_limits.optional_metadata_bytes = budget;

        let snapshot = collect(
            &mut source,
            scope(),
            MetadataProfile::Display,
            test_limits,
        )
        .expect("metadata omission retains authoritative identity");
        let owner = snapshot.sockets[0].owners[0].clone();
        let OwnerObservation::Verified(identity) = owner else {
            panic!("owner identity must remain verified");
        };
        let process = snapshot.processes.get(identity).unwrap();

        assert_eq!(identity.pid, 42);
        assert_eq!(identity.start_marker, ProcessStartMarker::linux(7).unwrap());
        assert_eq!(snapshot.sockets[0].local_endpoint, endpoint(80));
        assert_eq!(snapshot.sockets[0].socket_token, token);
        assert_eq!(process.name.as_deref(), expected.0);
        assert_eq!(process.executable_path.as_deref(), expected.1);
        assert_eq!(process.parent_process_name.as_deref(), expected.2);
        assert_eq!(process.command_line.as_deref(), expected.3);
        assert_eq!(process.parent_pid, Some(99));
        assert_eq!(
            process.metadata_omission,
            (budget < 4).then_some(MetadataOmission::BudgetExceeded)
        );
    }
}

#[test]
fn clock_errors_are_operational_and_reverse_intervals_are_rejected() {
    assert_eq!(
        validate_wall_clock_interval(
            SystemTime::from_unix_millis(2_000),
            SystemTime::from_unix_millis(1_000)
        ),
        Err(ObservationError::InvalidWallClockInterval)
    );
    let mut source = FakeSource::new(vec![Step::Error(ObservationError::ClockUnavailable)]);
    assert_eq!(
        collect(&mut source, scope(), MetadataProfile::Display, limits(2)),
        Err(ObservationError::ClockUnavailable)
    );
}
