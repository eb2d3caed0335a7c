//! The port table as rows: one row per socket and owner.

use vstd::prelude::*;
use vstd::string::*;
use crate::collector::CollectorError;
use crate::evidence::{EvidenceGapCode, OwnerCompleteness};
use crate::model::{PermissionStatus, Platform};
use crate::observation::{
    owner_pid_of, scope_platform, MetadataCompleteness, NetworkSnapshot, ObservationError,
    OwnerObservation, ProcessIdentity, ProcessObservation, SnapshotCompleteness,
    SocketObservation,
};
use crate::ports::{mark_protected, marked_rows, PortEntry};
use crate::text::opt_text;
use crate::watch_filter::owner_pid;

verus! {

/// The most rows that one observation may be projected to.
pub const DERIVED_PORT_ENTRIES_MAX: usize = 131_072;

/// Where a row comes from: a socket, and one of its owners where it has any.
pub struct RowSource {
    pub socket: int,
    pub owner: Option<int>,
}

/// Which rows are wanted.
#[derive(Debug, Clone, Copy, PartialEq, Eq, Structural)]
pub struct RowFilter {
    pub pid: Option<u32>,
    pub port: Option<u16>,
}

impl RowFilter {
    /// The socket is on the wanted port.
    pub open spec fn takes_socket(self, socket: SocketObservation) -> bool {
        self.port is Some ==> self.port->0 == socket.local_endpoint.port
    }

    /// The owner has the wanted PID.
    pub open spec fn takes_owner(self, owner: OwnerObservation) -> bool {
        self.pid is Some ==> self.pid->0 == owner_pid_of(owner)
    }
}

/// The rows of the first `n` owners of a socket.
pub open spec fn owner_sources(
    owners: Seq<OwnerObservation>,
    socket: int,
    filter: RowFilter,
    n: int,
) -> Seq<RowSource>
    decreases n,
{
    if n <= 0 {
        Seq::empty()
    } else {
        let head = owner_sources(owners, socket, filter, n - 1);
        if filter.takes_owner(owners[n - 1]) {
            head.push(RowSource { socket, owner: Some(n - 1) })
        } else {
            head
        }
    }
}

/// The rows of a socket: one per owner, or one without an owner where there is none.
pub open spec fn socket_sources(
    sockets: Seq<SocketObservation>,
    at: int,
    filter: RowFilter,
) -> Seq<RowSource> {
    if !filter.takes_socket(sockets[at]) {
        Seq::empty()
    } else if sockets[at].owners.len() == 0 {
        if filter.pid is None {
            seq![RowSource { socket: at, owner: None }]
        } else {
            Seq::empty()
        }
    } else {
        owner_sources(sockets[at].owners@, at, filter, sockets[at].owners.len() as int)
    }
}

/// The rows of the first `n` sockets, in their order.
pub open spec fn sources(
    sockets: Seq<SocketObservation>,
    filter: RowFilter,
    n: int,
) -> Seq<RowSource>
    decreases n,
{
    if n <= 0 {
        Seq::empty()
    } else {
        sources(sockets, filter, n - 1) + socket_sources(sockets, n - 1, filter)
    }
}

/// All wanted rows of an observation.
pub open spec fn all_sources(snapshot: NetworkSnapshot, filter: RowFilter) -> Seq<RowSource> {
    sources(snapshot.sockets@, filter, snapshot.sockets.len() as int)
}

/// The identity that an owner was verified as.
pub open spec fn identity_of(owner: Option<OwnerObservation>) -> Option<ProcessIdentity> {
    match owner {
        Some(OwnerObservation::Verified(identity)) => Some(identity),
        _ => None,
    }
}

/// What is known about an owner's process.
pub open spec fn facts_of(snapshot: NetworkSnapshot, owner: Option<OwnerObservation>) -> Option<
    ProcessObservation,
> {
    match identity_of(owner) {
        Some(identity) => snapshot.processes.row(identity),
        None => None,
    }
}

/// Everything about a row's owner could be read: its socket's owners are all known, and
/// the facts of a known owner are complete.
pub open spec fn fully_read(
    snapshot: NetworkSnapshot,
    socket: SocketObservation,
    owner: Option<OwnerObservation>,
) -> bool {
    &&& socket.owner_completeness.complete()
    &&& owner is Some ==> facts_of(snapshot, owner) is Some && facts_of(
        snapshot,
        owner,
    )->0.metadata_completeness == MetadataCompleteness::Complete
}

/// The row tells of this socket and this owner. Protection is not told yet.
pub open spec fn row_of(
    row: PortEntry,
    snapshot: NetworkSnapshot,
    socket: SocketObservation,
    owner: Option<OwnerObservation>,
) -> bool {
    let facts = facts_of(snapshot, owner);
    &&& row.protocol == socket.local_endpoint.protocol
    &&& row.local_addr == socket.local_endpoint.address
    &&& row.local_port == socket.local_endpoint.port
    &&& row.ipv6_scope == socket.local_endpoint.ipv6_scope
    &&& row.state == socket.state
    &&& row.pid == (match owner {
        Some(owner) => Some(owner_pid_of(owner)),
        None => None,
    })
    &&& row.process_identity == identity_of(owner)
    &&& row.platform == scope_platform(snapshot.scope.kind)
    &&& row.permission == (if fully_read(snapshot, socket, owner) {
        PermissionStatus::Full
    } else {
        PermissionStatus::Partial
    })
    &&& !row.protected
    &&& match facts {
        Some(facts) => {
            &&& opt_text(row.process_name) == opt_text(facts.name)
            &&& crate::protection::opt_bytes(row.executable_path) == crate::protection::opt_bytes(
                facts.executable_path,
            )
            &&& opt_text(row.command_line) == opt_text(facts.command_line)
            &&& row.parent_pid == facts.parent_pid
            &&& opt_text(row.parent_process_name) == opt_text(facts.parent_process_name)
        },
        None => {
            &&& row.process_name is None
            &&& row.executable_path is None
            &&& row.command_line is None
            &&& row.parent_pid is None
            &&& row.parent_process_name is None
        },
    }
}

/// The owner that a source names.
pub open spec fn source_owner(sockets: Seq<SocketObservation>, source: RowSource) -> Option<
    OwnerObservation,
> {
    match source.owner {
        Some(at) => Some(sockets[source.socket].owners@[at]),
        None => None,
    }
}

/// The rows are those of the sources, one for one and in order.
pub open spec fn rows_of(
    rows: Seq<PortEntry>,
    snapshot: NetworkSnapshot,
    from: Seq<RowSource>,
) -> bool {
    &&& rows.len() == from.len()
    &&& forall|i: int|
        0 <= i < rows.len() ==> row_of(
            #[trigger] rows[i],
            snapshot,
            snapshot.sockets@[from[i].socket],
            source_owner(snapshot.sockets@, from[i]),
        )
}

fn row_from(
    snapshot: &NetworkSnapshot,
    socket: &SocketObservation,
    owner: Option<OwnerObservation>,
) -> (r: PortEntry)
    ensures
        row_of(r, *snapshot, *socket, owner),
{
    let identity = match owner {
        Some(OwnerObservation::Verified(identity)) => Some(identity),
        _ => None,
    };
    let facts = match identity {
        Some(identity) => snapshot.processes.get(identity),
        None => None,
    };
    let full: bool = socket.owner_completeness.is_complete() && match owner {
        Some(_) => match facts {
            Some(facts) => facts.metadata_completeness == MetadataCompleteness::Complete,
            None => false,
        },
        None => true,
    };
    let copy = match facts {
        Some(facts) => facts.duplicate(),
        None => ProcessObservation {
            name: None,
            executable_path: None,
            command_line: None,
            parent_pid: None,
            parent_process_name: None,
            metadata_omission: None,
            metadata_completeness: MetadataCompleteness::Partial,
        },
    };
    PortEntry {
        protocol: socket.local_endpoint.protocol,
        local_addr: socket.local_endpoint.address,
        local_port: socket.local_endpoint.port,
        state: socket.state,
        pid: match owner {
            Some(owner) => Some(owner_pid(owner)),
            None => None,
        },
        process_name: copy.name,
        executable_path: copy.executable_path,
        command_line: copy.command_line,
        parent_pid: copy.parent_pid,
        parent_process_name: copy.parent_process_name,
        protected: false,
        platform: snapshot.platform(),
        permission: if full {
            PermissionStatus::Full
        } else {
            PermissionStatus::Partial
        },
        process_identity: identity,
        ipv6_scope: socket.local_endpoint.ipv6_scope,
    }
}

proof fn lemma_sources_grow(sockets: Seq<SocketObservation>, filter: RowFilter, m: int, n: int)
    requires
        0 <= m <= n,
    ensures
        sources(sockets, filter, m).len() <= sources(sockets, filter, n).len(),
    decreases n - m,
{
    if m < n {
        lemma_sources_grow(sockets, filter, m, n - 1);
    }
}

proof fn lemma_owner_sources_grow(
    owners: Seq<OwnerObservation>,
    socket: int,
    filter: RowFilter,
    m: int,
    n: int,
)
    requires
        0 <= m <= n,
    ensures
        owner_sources(owners, socket, filter, m).len() <= owner_sources(
            owners,
            socket,
            filter,
            n,
        ).len(),
    decreases n - m,
{
    if m < n {
        lemma_owner_sources_grow(owners, socket, filter, m, n - 1);
    }
}

/// Append the wanted rows of one socket, unless there are more than `limit` in all.
fn append_socket(
    snapshot: &NetworkSnapshot,
    at: usize,
    filter: RowFilter,
    limit: usize,
    rows: &mut Vec<PortEntry>,
) -> (r: bool)
    requires
        at < snapshot.sockets.len(),
        old(rows).len() <= limit,
        rows_of(old(rows)@, *snapshot, sources(snapshot.sockets@, filter, at as int)),
    ensures
        r == (sources(snapshot.sockets@, filter, at + 1).len() <= limit),
        r ==> rows_of(final(rows)@, *snapshot, sources(snapshot.sockets@, filter, at + 1))
            && final(rows).len() <= limit,
{
    let socket = &snapshot.sockets[at];
    let ghost head = sources(snapshot.sockets@, filter, at as int);
    let ghost own = socket_sources(snapshot.sockets@, at as int, filter);
    assert(sources(snapshot.sockets@, filter, at + 1) == head + own);
    let on_port: bool = match filter.port {
        Some(port) => port == socket.local_endpoint.port,
        None => true,
    };
    if !on_port {
        assert(head + own =~= head);
        return true;
    }
    if socket.owners.len() == 0 {
        if filter.pid.is_some() {
            assert(head + own =~= head);
            return true;
        }
        if rows.len() >= limit {
            return false;
        }
        rows.push(row_from(snapshot, socket, None));
        assert(head + own =~= head.push(RowSource { socket: at as int, owner: None }));
        return true;
    }
    let mut i: usize = 0;
    assert(head + owner_sources(socket.owners@, at as int, filter, 0) =~= head);
    while i < socket.owners.len()
        invariant
            i <= socket.owners.len(),
            at < snapshot.sockets.len(),
            *socket == snapshot.sockets@[at as int],
            rows.len() <= limit,
            head == sources(snapshot.sockets@, filter, at as int),
            own == owner_sources(
                socket.owners@,
                at as int,
                filter,
                socket.owners.len() as int,
            ),
            sources(snapshot.sockets@, filter, at + 1) == head + own,
            rows_of(
                rows@,
                *snapshot,
                head + owner_sources(socket.owners@, at as int, filter, i as int),
            ),
        decreases socket.owners.len() - i,
    {
        let owner = socket.owners[i];
        let wanted: bool = match filter.pid {
            Some(pid) => pid == owner_pid(owner),
            None => true,
        };
        let ghost before = head + owner_sources(socket.owners@, at as int, filter, i as int);
        let ghost after = head + owner_sources(socket.owners@, at as int, filter, i + 1);
        if wanted {
            assert(after =~= before.push(RowSource { socket: at as int, owner: Some(i as int) }));
            if rows.len() >= limit {
                proof {
                    lemma_owner_sources_grow(
                        socket.owners@,
                        at as int,
                        filter,
                        i + 1,
                        socket.owners.len() as int,
                    );
                }
                return false;
            }
            rows.push(row_from(snapshot, socket, Some(owner)));
        } else {
            assert(after =~= before);
        }
        i = i + 1;
    }
    true
}

/// The wanted rows, where there are no more than `limit`. No row is marked protected.
pub fn project_legacy_with_limit(
    snapshot: &NetworkSnapshot,
    limit: usize,
    filter: RowFilter,
) -> (r: Result<Vec<PortEntry>, ObservationError>)
    ensures
        all_sources(*snapshot, filter).len() <= limit ==> r is Ok && rows_of(
            r->Ok_0@,
            *snapshot,
            all_sources(*snapshot, filter),
        ),
        all_sources(*snapshot, filter).len() > limit ==> r == Err::<
            Vec<PortEntry>,
            ObservationError,
        >(ObservationError::LegacyProjectionLimitExceeded),
{
    let mut rows: Vec<PortEntry> = Vec::new();
    let mut i: usize = 0;
    while i < snapshot.sockets.len()
        invariant
            i <= snapshot.sockets.len(),
            rows.len() <= limit,
            rows_of(rows@, *snapshot, sources(snapshot.sockets@, filter, i as int)),
        decreases snapshot.sockets.len() - i,
    {
        if !append_socket(snapshot, i, filter, limit, &mut rows) {
            proof {
                lemma_sources_grow(
                    snapshot.sockets@,
                    filter,
                    i + 1,
                    snapshot.sockets.len() as int,
                );
            }
            return Err(ObservationError::LegacyProjectionLimitExceeded);
        }
        i = i + 1;
    }
    Ok(rows)
}

/// Every row of an observation, none marked protected.
pub fn project_legacy(snapshot: &NetworkSnapshot) -> (r: Result<Vec<PortEntry>, ObservationError>)
    ensures
        ({
            let from = all_sources(*snapshot, RowFilter { pid: None, port: None });
            &&& from.len() <= DERIVED_PORT_ENTRIES_MAX ==> r is Ok && rows_of(
                r->Ok_0@,
                *snapshot,
                from,
            )
            &&& from.len() > DERIVED_PORT_ENTRIES_MAX ==> r == Err::<
                Vec<PortEntry>,
                ObservationError,
            >(ObservationError::LegacyProjectionLimitExceeded)
        }),
{
    project_legacy_with_limit(
        snapshot,
        DERIVED_PORT_ENTRIES_MAX,
        RowFilter { pid: None, port: None },
    )
}

/// The wanted rows were projected and the protected ones among them marked.
pub open spec fn entries_projected(
    snapshot: NetworkSnapshot,
    filter: RowFilter,
    names: Seq<String>,
    r: Result<Vec<PortEntry>, ObservationError>,
) -> bool {
    let from = all_sources(snapshot, filter);
    if from.len() > DERIVED_PORT_ENTRIES_MAX {
        r == Err::<Vec<PortEntry>, ObservationError>(
            ObservationError::LegacyProjectionLimitExceeded,
        )
    } else {
        r is Ok && exists|plain: Seq<PortEntry>| #[trigger]
            rows_of(plain, snapshot, from) && r->Ok_0@ == marked_rows(plain, names)
    }
}

impl NetworkSnapshot {
    /// The rows of an observation that match, with the protected ones marked. Only
    /// matching rows count towards the limit.
    pub fn port_entries_matching(&self, filter: RowFilter, names: &[String]) -> (r: Result<
        Vec<PortEntry>,
        ObservationError,
    >)
        ensures
            entries_projected(*self, filter, names@, r),
    {
        let mut rows = match project_legacy_with_limit(self, DERIVED_PORT_ENTRIES_MAX, filter) {
            Ok(rows) => rows,
            Err(error) => {
                return Err(error);
            },
        };
        let ghost plain = rows@;
        assert(rows_of(plain, *self, all_sources(*self, filter)));
        mark_protected(&mut rows, names);
        Ok(rows)
    }

    /// Every row of an observation, with the protected ones marked.
    pub fn port_entries(&self, names: &[String]) -> (r: Result<Vec<PortEntry>, ObservationError>)
        ensures
            entries_projected(*self, RowFilter { pid: None, port: None }, names@, r),
    {
        self.port_entries_matching(RowFilter { pid: None, port: None }, names)
    }
}

/// The owners that a kill rests on are not all known.
pub open spec fn owners_unsure(completeness: OwnerCompleteness) -> bool {
    !completeness.complete()
}

/// A socket that a kill rests on: on the wanted port, or owned by the wanted PID.
pub open spec fn concerns(socket: SocketObservation, filter: RowFilter) -> bool {
    ||| filter.port is Some && filter.port->0 == socket.local_endpoint.port
    ||| filter.pid is Some && exists|i: int|
        0 <= i < socket.owners.len() && owner_pid_of(#[trigger] socket.owners@[i])
            == filter.pid->0
}

fn socket_concerns(socket: &SocketObservation, filter: RowFilter) -> (r: bool)
    ensures
        r == concerns(*socket, filter),
{
    if let Some(port) = filter.port {
        if port == socket.local_endpoint.port {
            return true;
        }
    }
    if let Some(pid) = filter.pid {
        let mut i: usize = 0;
        while i < socket.owners.len()
            invariant
                i <= socket.owners.len(),
                filter.pid == Some(pid),
                forall|j: int| 0 <= j < i ==> owner_pid_of(#[trigger] socket.owners@[j]) != pid,
            decreases socket.owners.len() - i,
        {
            if owner_pid(socket.owners[i]) == pid {
                return true;
            }
            i = i + 1;
        }
    }
    false
}

/// The first socket from `from` on that a kill rests on and whose owners are unsure.
pub open spec fn first_unsure(
    sockets: Seq<SocketObservation>,
    filter: RowFilter,
    from: int,
) -> Option<OwnerCompleteness>
    decreases sockets.len() - from,
{
    if from < 0 || from >= sockets.len() {
        None
    } else if concerns(sockets[from], filter) && owners_unsure(sockets[from].owner_completeness) {
        Some(sockets[from].owner_completeness)
    } else {
        first_unsure(sockets, filter, from + 1)
    }
}

/// Why owners that are unsure refuse a kill: a permission that is missing is told apart.
pub open spec fn unsure_refusal(completeness: OwnerCompleteness, error: CollectorError) -> bool {
    match completeness {
        OwnerCompleteness::Partial { reasons } => if reasons.has(
            EvidenceGapCode::OwnerPermissionDenied,
        ) {
            error == CollectorError::OwnershipPermissionDenied
        } else {
            error matches CollectorError::Platform { message } && message@
                == "socket ownership is incomplete"@
        },
        _ => error == CollectorError::Observation(ObservationError::ObservationRaced),
    }
}

fn refuse_unsure(completeness: OwnerCompleteness) -> (r: CollectorError)
    requires
        owners_unsure(completeness),
    ensures
        unsure_refusal(completeness, r),
{
    match completeness {
        OwnerCompleteness::Partial { reasons } => if reasons.contains(
            EvidenceGapCode::OwnerPermissionDenied,
        ) {
            CollectorError::OwnershipPermissionDenied
        } else {
            CollectorError::Platform { message: "socket ownership is incomplete".to_owned() }
        },
        _ => CollectorError::Observation(ObservationError::ObservationRaced),
    }
}

/// The rows that a kill may rest on. They are given only where no socket can be missing
/// and the owners of every socket that matters are all known.
pub open spec fn kill_rows(
    snapshot: NetworkSnapshot,
    filter: RowFilter,
    r: Result<Vec<PortEntry>, CollectorError>,
) -> bool {
    if snapshot.completeness == SnapshotCompleteness::Raced {
        r == Err::<Vec<PortEntry>, CollectorError>(
            CollectorError::Observation(ObservationError::ObservationRaced),
        )
    } else if !snapshot.diff_safe() {
        r == Err::<Vec<PortEntry>, CollectorError>(
            CollectorError::Observation(ObservationError::PartialSocketSet),
        )
    } else {
        match first_unsure(snapshot.sockets@, filter, 0) {
            Some(completeness) => r is Err && unsure_refusal(completeness, r->Err_0),
            None => {
                let from = all_sources(snapshot, RowFilter { pid: None, port: None });
                if from.len() <= DERIVED_PORT_ENTRIES_MAX {
                    r is Ok && rows_of(r->Ok_0@, snapshot, from)
                } else {
                    r == Err::<Vec<PortEntry>, CollectorError>(
                        CollectorError::Observation(
                            ObservationError::LegacyProjectionLimitExceeded,
                        ),
                    )
                }
            },
        }
    }
}

/// The rows of an observation, for a kill of the process with a PID or on a port.
pub fn kill_ports_from_snapshot(
    snapshot: &NetworkSnapshot,
    pid: Option<u32>,
    port: Option<u16>,
) -> (r: Result<Vec<PortEntry>, CollectorError>)
    ensures
        kill_rows(*snapshot, RowFilter { pid, port }, r),
{
    if snapshot.completeness == SnapshotCompleteness::Raced {
        return Err(CollectorError::Observation(ObservationError::ObservationRaced));
    }
    if !snapshot.socket_set_diff_safe() {
        return Err(CollectorError::Observation(ObservationError::PartialSocketSet));
    }
    let filter = RowFilter { pid, port };
    let mut i: usize = 0;
    while i < snapshot.sockets.len()
        invariant
            i <= snapshot.sockets.len(),
            snapshot.completeness != SnapshotCompleteness::Raced,
            snapshot.diff_safe(),
            filter == (RowFilter { pid, port }),
            first_unsure(snapshot.sockets@, filter, 0) == first_unsure(
                snapshot.sockets@,
                filter,
                i as int,
            ),
        decreases snapshot.sockets.len() - i,
    {
        if socket_concerns(&snapshot.sockets[i], filter)
            && !snapshot.sockets[i].owner_completeness.is_complete() {
            return Err(refuse_unsure(snapshot.sockets[i].owner_completeness));
        }
        i = i + 1;
    }
    match project_legacy(snapshot) {
        Ok(rows) => Ok(rows),
        Err(error) => Err(CollectorError::Observation(error)),
    }
}

/// Rows for a kill are never given where a socket that the kill rests on may have other
/// owners than those listed.
pub proof fn law_kill_rows_have_known_owners(
    snapshot: NetworkSnapshot,
    filter: RowFilter,
    r: Result<Vec<PortEntry>, CollectorError>,
    i: int,
)
    requires
        kill_rows(snapshot, filter, r),
        r is Ok,
        0 <= i < snapshot.sockets.len(),
        concerns(snapshot.sockets@[i], filter),
    ensures
        snapshot.sockets@[i].owner_completeness.complete(),
        snapshot.diff_safe(),
{
    lemma_none_unsure(snapshot.sockets@, filter, 0, i);
}

proof fn lemma_none_unsure(
    sockets: Seq<SocketObservation>,
    filter: RowFilter,
    from: int,
    i: int,
)
    requires
        0 <= from <= i < sockets.len(),
        first_unsure(sockets, filter, from) is None,
        concerns(sockets[i], filter),
    ensures
        sockets[i].owner_completeness.complete(),
    decreases i - from,
{
    if from < i {
        lemma_none_unsure(sockets, filter, from + 1, i);
    }
}

} // verus!
