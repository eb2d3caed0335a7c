use kickoutchi::address::{ip_address_text, normalize_ip_address, IpAddr};
use kickoutchi::config::{EndpointLabel, LabelRegistry};
use kickoutchi::evidence::{
    owner_reason_names, EndpointIdentity, EvidenceGapCode, EvidenceImpact, OwnerCompleteness,
    OwnerReasonLimitExceeded, OWNER_COMPLETENESS_REASONS_MAX,
};
use kickoutchi::lossy::{lossy_utf8_len, push_utf8_lossy};
use kickoutchi::model::{
    human_endpoint_text, state_rank, EndpointIdentityError, Ipv6Scope, PermissionStatus, Platform,
    Protocol, SocketState,
};
use kickoutchi::observation::{
    bounded_scope_limitations, gap_key_of, gap_precedes_or_ties, EvidenceGap,
    MetadataCompleteness, NetworkSnapshot, ObservationError, ObservationScope,
    ObservationScopeKind, OwnerObservation, PlatformSocketToken, ProcessIdentity,
    ProcessMarkerError, ProcessObservation, ProcessStartMarker, ProcessTable, ScopeLimitation,
    SnapshotCompleteness, SocketObservation, TcpTimerKind, TcpTimerObservation,
    SCOPE_IDENTIFIER_MAX_BYTES, SCOPE_LIMITATIONS_MAX,
};
use kickoutchi::order::stable_order;
use kickoutchi::ports::mark_protected;
use kickoutchi::projection::{
    project_legacy, project_legacy_with_limit, RowFilter, DERIVED_PORT_ENTRIES_MAX,
};
use kickoutchi::time::SystemTime;

const EVERY_ROW: RowFilter = RowFilter { pid: None, port: None };

fn endpoint(port: u32) -> EndpointIdentity {
    EndpointIdentity::new(Protocol::Tcp, IpAddr::v4_localhost(), port, None)
        .expect("fixture endpoint is valid")
}

fn process(name: Option<&str>) -> ProcessObservation {
    ProcessObservation {
        name: name.map(str::to_owned),
        executable_path: None,
        command_line: None,
        parent_pid: None,
        parent_process_name: None,
        metadata_omission: None,
        metadata_completeness: MetadataCompleteness::Complete,
    }
}

fn owned_socket(port: u32, owners: Vec<ProcessIdentity>) -> SocketObservation {
    SocketObservation {
        local_endpoint: endpoint(port),
        state: SocketState::Listen,
        timer: None,
        socket_token: None,
        owners: owners.into_iter().map(OwnerObservation::Verified).collect(),
        owner_completeness: OwnerCompleteness::Complete,
    }
}

fn snapshot_of(
    kind: ObservationScopeKind,
    sockets: Vec<SocketObservation>,
    processes: ProcessTable,
) -> NetworkSnapshot {
    NetworkSnapshot {
        scope: ObservationScope::new(kind, None, &[]).unwrap(),
        capture_started_at: SystemTime::from_unix_millis(1),
        capture_completed_at: SystemTime::from_unix_millis(2),
        completeness: SnapshotCompleteness::Complete,
        owner_completeness: OwnerCompleteness::Complete,
        sockets,
        processes,
        evidence_gaps: Vec::new(),
        omitted_evidence_gap_count: 0,
    }
}

fn node() -> ProcessIdentity {
    ProcessIdentity { pid: 18_422, start_marker: ProcessStartMarker::linux(18_423).unwrap() }
}

fn node_snapshot() -> NetworkSnapshot {
    let mut processes = ProcessTable::empty();
    processes.insert(node(), process(Some("node")));
    snapshot_of(
        ObservationScopeKind::CurrentNetworkNamespace,
        vec![owned_socket(3000, vec![node()])],
        processes,
    )
}

#[test]
fn macos_executable_protection_agrees_between_borrowed_and_owned_rows() {
    let protected_names = vec!["postgres".to_owned()];
    for (name, path, expected) in [
        (Some("worker"), "/opt/postgres", true),
        (None, "/opt/postgres", true),
        (Some("worker"), "/opt/postgres-backup-helper", false),
    ] {
        let identity = ProcessIdentity {
            pid: 42,
            start_marker: ProcessStartMarker::macos(10, 1).unwrap(),
        };
        let mut observed = process(name);
        observed.executable_path = Some(path.as_bytes().to_vec());
        let mut processes = ProcessTable::empty();
        processes.insert(identity, observed);
        let snapshot = snapshot_of(
            ObservationScopeKind::CurrentHostProcessVisibleSockets,
            vec![owned_socket(5432, vec![identity])],
            processes,
        );

        let marked = snapshot.port_entries(&protected_names).unwrap();
        let mut owned = project_legacy(&snapshot).unwrap();
        mark_protected(&mut owned, &protected_names);

        assert_eq!(owned[0].platform, Platform::Macos);
        assert_eq!(owned[0].protected, expected, "{name:?}: {path}");
        assert_eq!(marked[0].protected, expected, "{name:?}: {path}");
    }
}

#[test]
fn scoped_ipv6_identity_survives_borrowed_and_owned_projection() {
    let mut snapshot = node_snapshot();
    let scope = Ipv6Scope::interface_index(7).expect("test scope is valid");
    let socket = snapshot.sockets.first_mut().expect("fixture has a socket");
    socket.local_endpoint.address = IpAddr::v6_localhost();
    socket.local_endpoint.ipv6_scope = Some(scope);

    assert_eq!(
        snapshot.port_entries(&Vec::new()).expect("projection fits")[0].ipv6_scope,
        Some(scope)
    );
    assert_eq!(
        project_legacy(&snapshot).expect("owned projection fits")[0].ipv6_scope,
        Some(scope)
    );
}

#[test]
fn legacy_permission_partial_does_not_imply_permission_denial() {
    let mut snapshot = node_snapshot();
    snapshot.sockets[0].owner_completeness =
        OwnerCompleteness::partial(&[EvidenceGapCode::OwnerDisappeared]).expect("one reason fits");

    let rows = project_legacy(&snapshot).expect("legacy projection fits");
    let row = rows
        .iter()
        .find(|row| row.local_port == 3000)
        .expect("selected row is projected");

    assert_eq!(row.permission, PermissionStatus::Partial);
}

#[test]
fn lossy_utf8_length_matches_conversion() {
    for bytes in [b"a\xffb\xf0\x80\x80\x80c".as_slice(), b"trailing\xf0\x9f".as_slice()] {
        let expected = String::from_utf8_lossy(bytes);
        let len = lossy_utf8_len(bytes).expect("small decoded length fits");
        assert_eq!(len, expected.len());

        let mut actual = String::with_capacity(len);
        push_utf8_lossy(&mut actual, bytes);
        assert_eq!(actual, expected);
    }
}

#[test]
fn lossy_text_replaces_what_could_begin_a_character_as_one() {
    for bytes in [
        b"".as_slice(),
        b"plain".as_slice(),
        "añ€😀".as_bytes(),
        b"\xe2\x82".as_slice(),
        b"\xe2\x82z".as_slice(),
        b"\xf0\x9f\x98z".as_slice(),
        b"\xf0\x9f\x98".as_slice(),
        b"\xed\xa0\x80".as_slice(),
        b"\xe0\x80\x80".as_slice(),
        b"\xf4\x90\x80\x80".as_slice(),
        b"\xc0\xaf\xc3".as_slice(),
        b"\xf1\x80\x80\xc3\xa9".as_slice(),
        b"\x80\xbf\xf5".as_slice(),
    ] {
        let expected = String::from_utf8_lossy(bytes);
        let mut actual = String::new();
        push_utf8_lossy(&mut actual, bytes);
        assert_eq!(actual, expected, "{bytes:?}");
        assert_eq!(lossy_utf8_len(bytes), Some(expected.len()));
    }
}

#[test]
fn owner_reason_and_scope_boundaries_use_the_contract_limits() {
    let reasons = [
        EvidenceGapCode::OwnerPermissionDenied,
        EvidenceGapCode::OwnerAttributionIncomplete,
        EvidenceGapCode::OwnerDisappeared,
        EvidenceGapCode::ProcessIdentityUnavailable,
        EvidenceGapCode::ProcessMetadataUnavailable,
        EvidenceGapCode::NativeFieldUnavailable,
        EvidenceGapCode::ScopeExcluded,
        EvidenceGapCode::NoncriticalEvidenceTruncated,
        EvidenceGapCode::ObservationRaced,
    ];
    assert_eq!(OwnerCompleteness::partial(&[]).unwrap(), OwnerCompleteness::Complete);
    let exact = OwnerCompleteness::partial(&reasons[..OWNER_COMPLETENESS_REASONS_MAX])
        .expect("eight distinct owner reasons fit");
    assert!(matches!(exact, OwnerCompleteness::Partial { reasons } if reasons.len() == 8));
    assert_eq!(OwnerCompleteness::partial(&reasons), Err(OwnerReasonLimitExceeded));

    assert!(
        ObservationScope::new(ObservationScopeKind::CurrentHostNetworkStack, None, &[]).is_ok()
    );
    let identifier = "s".repeat(SCOPE_IDENTIFIER_MAX_BYTES);
    assert_eq!(
        ObservationScope::new(
            ObservationScopeKind::CurrentHostNetworkStack,
            Some(&identifier),
            &[
                ScopeLimitation::OtherNetworkNamespacesExcluded,
                ScopeLimitation::ProcessFirstSocketVisibilityLimited,
                ScopeLimitation::WslNetworkStackExcluded,
                ScopeLimitation::ProcessMetadataPermissionLimited,
                ScopeLimitation::Ipv6ScopeUnavailable,
                ScopeLimitation::ScopedIpv6ExactMatchingUnavailable,
                ScopeLimitation::NativeFieldUnavailable,
                ScopeLimitation::PollingIntervalBlindSpot,
            ],
        )
        .expect("exact scope bounds")
        .limitations
        .len(),
        SCOPE_LIMITATIONS_MAX
    );
    let oversized = "s".repeat(SCOPE_IDENTIFIER_MAX_BYTES + 1);
    assert_eq!(
        ObservationScope::new(
            ObservationScopeKind::CurrentHostNetworkStack,
            Some(&oversized),
            &[]
        ),
        Err(ObservationError::ScopeIdentifierOversized)
    );
}

#[test]
fn owner_reasons_are_deduplicated_in_public_name_order() {
    let completeness = OwnerCompleteness::partial(&[
        EvidenceGapCode::ScopeExcluded,
        EvidenceGapCode::OwnerPermissionDenied,
        EvidenceGapCode::NativeFieldUnavailable,
        EvidenceGapCode::OwnerPermissionDenied,
        EvidenceGapCode::ObservationRaced,
    ])
    .expect("distinct reasons fit");
    let OwnerCompleteness::Partial { reasons } = completeness else {
        panic!("nonempty reasons must remain partial");
    };

    assert_eq!(
        owner_reason_names(reasons),
        [
            "native_field_unavailable",
            "observation_raced",
            "owner_permission_denied",
            "scope_excluded",
        ]
    );
}

#[test]
fn ninth_scope_limitation_is_rejected() {
    let nine: Vec<usize> = (0..=SCOPE_LIMITATIONS_MAX).collect();
    assert_eq!(
        bounded_scope_limitations(&nine),
        Err(ObservationError::ScopeLimitationLimitExceeded),
    );
}

#[test]
fn endpoints_reject_zero_and_overflow_and_accept_exact_maxima() {
    let v4 = IpAddr::v4_localhost();
    assert_eq!(
        EndpointIdentity::new(Protocol::Tcp, v4, 0, None),
        Err(EndpointIdentityError::InvalidPort)
    );
    assert!(EndpointIdentity::new(Protocol::Tcp, v4, u32::from(u16::MAX), None).is_ok());
    assert_eq!(
        EndpointIdentity::new(Protocol::Tcp, v4, u32::from(u16::MAX) + 1, None),
        Err(EndpointIdentityError::InvalidPort)
    );
    let ipv6 = IpAddr::v6_localhost();
    let maximum_scope =
        Ipv6Scope::interface_index(u64::from(u32::MAX)).expect("maximum interface index is valid");
    assert_eq!(
        EndpointIdentity::new(Protocol::Tcp, ipv6, 1, Some(maximum_scope))
            .expect("maximum interface index is valid")
            .ipv6_scope,
        Some(Ipv6Scope::InterfaceIndex(u32::MAX))
    );
    assert_eq!(
        Ipv6Scope::interface_index(u64::from(u32::MAX) + 1),
        Err(EndpointIdentityError::InvalidInterfaceIndex)
    );
    assert_eq!(
        EndpointIdentity::new(Protocol::Tcp, v4, 1, Some(maximum_scope)),
        Err(EndpointIdentityError::Ipv4WithScope)
    );
    let mapped = EndpointIdentity::new(
        Protocol::Tcp,
        IpAddr::V6(0xffff_7f00_0001),
        1,
        Some(Ipv6Scope::Unavailable),
    )
    .expect("mapped IPv6 canonicalizes to IPv4");
    assert_eq!(mapped.address, v4);
    assert_eq!(mapped.ipv6_scope, None);
}

#[test]
fn typed_markers_and_tokens_reject_zero() {
    assert_eq!(ProcessStartMarker::linux(0), Err(ProcessMarkerError::Zero));
    assert_eq!(ProcessStartMarker::windows(0), Err(ProcessMarkerError::Zero));
    assert_eq!(ProcessStartMarker::macos(0, 0), Err(ProcessMarkerError::Zero));
    assert_eq!(
        ProcessStartMarker::macos(1, 1_000_000),
        Err(ProcessMarkerError::InvalidMicroseconds)
    );
    assert!(ProcessStartMarker::macos(u64::MAX, 999_999).is_ok());
    assert_eq!(PlatformSocketToken::linux_inode(0), None);
    assert!(PlatformSocketToken::macos_socket_id(u64::MAX).is_some());
}

#[test]
fn socket_state_order_is_frozen_and_unknown_retains_native_code() {
    let mut states = vec![
        SocketState::Unknown(9),
        SocketState::Bound,
        SocketState::Closed,
        SocketState::Unknown(2),
        SocketState::NewSynReceived,
        SocketState::DeleteTcb,
        SocketState::TimeWait,
        SocketState::LastAck,
        SocketState::Closing,
        SocketState::CloseWait,
        SocketState::FinWait2,
        SocketState::FinWait1,
        SocketState::Established,
        SocketState::SynReceived,
        SocketState::SynSent,
        SocketState::Listen,
    ];
    let mut ranked = states.clone();
    states.sort();
    ranked.sort_by_key(|state| state_rank(*state));
    assert_eq!(
        states,
        vec![
            SocketState::Closed,
            SocketState::Listen,
            SocketState::SynSent,
            SocketState::SynReceived,
            SocketState::Established,
            SocketState::FinWait1,
            SocketState::FinWait2,
            SocketState::CloseWait,
            SocketState::Closing,
            SocketState::LastAck,
            SocketState::TimeWait,
            SocketState::DeleteTcb,
            SocketState::NewSynReceived,
            SocketState::Bound,
            SocketState::Unknown(2),
            SocketState::Unknown(9)
        ]
    );
    assert_eq!(ranked, states);
}

#[test]
fn linux_tcp_timer_mapping_and_ceiling_conversion_are_frozen() {
    let expected = [
        TcpTimerKind::NoTimer,
        TcpTimerKind::Retransmit,
        TcpTimerKind::Other,
        TcpTimerKind::TimeWait,
        TcpTimerKind::ZeroWindowProbe,
    ];
    for (native, expected) in expected.into_iter().enumerate() {
        assert_eq!(
            TcpTimerKind::from_linux_native(u32::try_from(native).expect("small code")),
            expected
        );
    }
    assert_eq!(TcpTimerKind::from_linux_native(255), TcpTimerKind::Unknown(255));

    let timer = TcpTimerObservation::from_linux_native(1, 1, Some(128));
    assert_eq!(timer.kind, TcpTimerKind::Retransmit);
    assert_eq!(timer.native_code, None);
    assert_eq!(timer.raw_ticks, 1);
    assert_eq!(timer.estimated_remaining_milliseconds, Some(8));
    assert_eq!(
        TcpTimerObservation::from_linux_native(255, 1, Some(100)).native_code,
        Some(255)
    );
    assert_eq!(
        TcpTimerObservation::from_linux_native(3, u64::MAX, Some(1))
            .estimated_remaining_milliseconds,
        None
    );
    assert_eq!(
        TcpTimerObservation::from_linux_native(0, 0, None).estimated_remaining_milliseconds,
        None
    );
}

/// The gaps in their canonical order.
fn sorted(gaps: Vec<EvidenceGap>) -> Vec<EvidenceGap> {
    let keys: Vec<Vec<u128>> = gaps.iter().map(gap_key_of).collect();
    stable_order(&keys).into_iter().map(|index| gaps[index].clone()).collect()
}

#[test]
fn evidence_gap_order_uses_public_code_names() {
    let gap = |code, message| EvidenceGap::new(EvidenceImpact::Metadata, code, None, None, message);
    let gaps = sorted(vec![
        gap(EvidenceGapCode::ProcessMetadataUnavailable, "process"),
        gap(EvidenceGapCode::NativeFieldUnavailable, "native"),
        gap(EvidenceGapCode::NoncriticalEvidenceTruncated, "truncated"),
    ]);

    assert_eq!(
        gaps.iter().map(|gap| gap.code.name()).collect::<Vec<_>>(),
        [
            "native_field_unavailable",
            "noncritical_evidence_truncated",
            "process_metadata_unavailable",
        ]
    );
}

#[test]
fn evidence_gap_endpoint_order_uses_scope_before_port() {
    let address = IpAddr::V6(0xfe80_0000_0000_0000_0000_0000_0000_0001);
    let scope_two = Ipv6Scope::interface_index(2).unwrap();
    let scope_three = Ipv6Scope::interface_index(3).unwrap();
    let gap = |port, scope, message| {
        EvidenceGap::new(
            EvidenceImpact::Metadata,
            EvidenceGapCode::ProcessMetadataUnavailable,
            Some(EndpointIdentity::new(Protocol::Tcp, address, port, Some(scope)).unwrap()),
            None,
            message,
        )
    };
    let gaps = sorted(vec![
        gap(8_000, scope_three, "scope three"),
        gap(9_000, scope_two, "scope two"),
    ]);

    assert_eq!(gaps[0].endpoint.as_ref().unwrap().ipv6_scope, Some(scope_two));
    assert_eq!(gaps[0].endpoint.as_ref().unwrap().port, 9_000);
    assert_eq!(gaps[1].endpoint.as_ref().unwrap().ipv6_scope, Some(scope_three));
    assert_eq!(gaps[1].endpoint.as_ref().unwrap().port, 8_000);
    assert!(gap_precedes_or_ties(&gaps[0], &gaps[1]));
    assert!(!gap_precedes_or_ties(&gaps[1], &gaps[0]));
}

#[test]
fn targeted_rows_ignore_unrelated_rows_over_the_projection_limit() {
    let mut snapshot = node_snapshot();
    snapshot.sockets.push(owned_socket(81, vec![node(); DERIVED_PORT_ENTRIES_MAX + 1]));

    assert_eq!(
        snapshot
            .port_entries_matching(RowFilter { pid: None, port: Some(3000) }, &Vec::new())
            .expect("unrelated rows do not consume the targeted limit")
            .len(),
        1,
    );
    assert_eq!(
        snapshot.port_entries(&Vec::new()),
        Err(ObservationError::LegacyProjectionLimitExceeded),
    );
}

#[test]
fn projection_repeats_owner_facts_and_stops_at_its_limit() {
    let mut snapshot = node_snapshot();
    snapshot.sockets[0].owners.push(OwnerObservation::Verified(node()));
    let rows = project_legacy_with_limit(&snapshot, 2, EVERY_ROW).unwrap();
    assert_eq!(rows.len(), 2);
    assert!(rows.iter().all(|row| row.process_name.as_deref() == Some("node")));
    assert_eq!(
        project_legacy_with_limit(&snapshot, 1, EVERY_ROW),
        Err(ObservationError::LegacyProjectionLimitExceeded)
    );
}

#[test]
fn addresses_read_as_people_write_them() {
    let text = |address| ip_address_text(address);
    assert_eq!(text(IpAddr::V4(0xc0a8_010a)), "192.168.1.10");
    assert_eq!(text(IpAddr::V6(0)), "::");
    assert_eq!(text(IpAddr::v6_localhost()), "::1");
    assert_eq!(text(IpAddr::V6(0x2001_0db8_0000_0000_0001_0000_0000_0001)), "2001:db8::1:0:0:1");
    assert_eq!(normalize_ip_address(IpAddr::V6(0xffff_7f00_0001)), IpAddr::v4_localhost());
    assert_eq!(
        human_endpoint_text(
            IpAddr::V6(0xfe80_0000_0000_0000_0000_0000_0000_0001),
            80,
            Some(Ipv6Scope::InterfaceIndex(4))
        ),
        "[fe80::1%4]:80"
    );
    assert_eq!(human_endpoint_text(IpAddr::v4_localhost(), 80, None), "127.0.0.1:80");
}

#[test]
fn a_label_for_one_interface_wins_over_a_label_for_all() {
    let address = IpAddr::V6(0xfe80_0000_0000_0000_0000_0000_0000_0001);
    let label = |scope_id, label: &str| EndpointLabel {
        protocol: Protocol::Tcp,
        address,
        port: 80,
        scope_id,
        label: label.to_owned(),
    };
    let registry = LabelRegistry { labels: vec![label(None, "any"), label(Some(3), "third")] };
    let at = |index| {
        EndpointIdentity::new(
            Protocol::Tcp,
            address,
            80,
            Some(Ipv6Scope::interface_index(index).unwrap()),
        )
        .unwrap()
    };
    assert_eq!(registry.resolve(at(3)), Some("third"));
    assert_eq!(registry.resolve(at(2)), Some("any"));
    assert_eq!(registry.resolve(endpoint(80)), None);
}
