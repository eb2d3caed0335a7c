//! Two passes over one host, compared and put together.

use vstd::prelude::*;
use crate::bags::{
    count_key, key_bag, key_views, keys_equal, keys_sorted, lemma_order_rearranges, picked,
    same_keys, sorted_keys,
};
use crate::evidence::{EvidenceGapCode, OwnerCompleteness, OwnerReasons};
use crate::native::{
    socket_key, socket_key_of, CollectedPass, NativeSocketObservation, NativeSocketRow,
    ProcessRead, ProcessReadTable,
};
use crate::observation::ProcessStartMarker;
use crate::order::{key_le, lemma_key_antisymmetric, orders_range, stable_order};

verus! {

pub open spec fn marker_key(marker: ProcessStartMarker) -> Seq<u128> {
    match marker {
        ProcessStartMarker::LinuxStartTicks(ticks) => seq![1u128, ticks as u128, 0u128],
        ProcessStartMarker::MacosStartTime { seconds, microseconds } => seq![
            2u128,
            seconds as u128,
            microseconds as u128,
        ],
        ProcessStartMarker::WindowsCreationTime(time) => seq![3u128, time as u128, 0u128],
    }
}

/// The key of an owner: its PID and the process that was found there, if one was.
pub open spec fn owner_key(pid: u32, read: Option<ProcessRead>) -> Seq<u128> {
    seq![pid as u128] + match read {
        Some(ProcessRead::Verified { marker, .. }) => marker_key(marker),
        _ => seq![0u128, 0u128, 0u128],
    }
}

fn owner_key_of(pid: u32, read: Option<&ProcessRead>) -> (r: Vec<u128>)
    ensures
        r@ == owner_key(
            pid,
            match read {
                Some(read) => Some(*read),
                None => None,
            },
        ),
{
    let mut key: Vec<u128> = Vec::new();
    key.push(pid as u128);
    match read {
        Some(ProcessRead::Verified { marker, .. }) => match *marker {
            ProcessStartMarker::LinuxStartTicks(ticks) => {
                key.push(1);
                key.push(ticks as u128);
                key.push(0);
            },
            ProcessStartMarker::MacosStartTime { seconds, microseconds } => {
                key.push(2);
                key.push(seconds as u128);
                key.push(microseconds as u128);
            },
            ProcessStartMarker::WindowsCreationTime(time) => {
                key.push(3);
                key.push(time as u128);
                key.push(0);
            },
        },
        _ => {
            key.push(0);
            key.push(0);
            key.push(0);
        },
    }
    assert(key@ =~= owner_key(
        pid,
        match read {
            Some(read) => Some(*read),
            None => None,
        },
    ));
    key
}

pub open spec fn socket_keys(rows: Seq<NativeSocketRow>) -> Seq<Seq<u128>> {
    rows.map_values(|row: NativeSocketRow| socket_key(row.socket))
}

/// The edge from a socket to one of its owners.
pub open spec fn edge_key(
    socket: NativeSocketObservation,
    pid: u32,
    table: ProcessReadTable,
) -> Seq<u128> {
    socket_key(socket) + owner_key(pid, table.read(pid))
}

pub open spec fn row_edges(row: NativeSocketRow, table: ProcessReadTable) -> Seq<Seq<u128>> {
    row.owner_pids@.map_values(|pid: u32| edge_key(row.socket, pid, table))
}

/// The edges of all rows.
pub open spec fn pass_edges(rows: Seq<NativeSocketRow>, table: ProcessReadTable) -> Seq<Seq<u128>>
    decreases rows.len(),
{
    if rows.len() == 0 {
        Seq::empty()
    } else {
        pass_edges(rows.drop_last(), table) + row_edges(rows.last(), table)
    }
}

pub fn socket_keys_of(rows: &Vec<NativeSocketRow>) -> (r: Vec<Vec<u128>>)
    ensures
        key_views(r@) == socket_keys(rows@),
        r.len() == rows.len(),
{
    let mut keys: Vec<Vec<u128>> = Vec::new();
    let mut i: usize = 0;
    while i < rows.len()
        invariant
            i <= rows.len(),
            keys.len() == i,
            forall|k: int| 0 <= k < i ==> (#[trigger] keys@[k])@ == socket_key(rows@[k].socket),
        decreases rows.len() - i,
    {
        keys.push(socket_key_of(rows[i].socket));
        i = i + 1;
    }
    assert(key_views(keys@) =~= socket_keys(rows@));
    keys
}

fn pass_edges_of(rows: &Vec<NativeSocketRow>, table: &ProcessReadTable) -> (r: Vec<Vec<u128>>)
    requires
        table.sorted(),
    ensures
        key_views(r@) == pass_edges(rows@, *table),
{
    let mut keys: Vec<Vec<u128>> = Vec::new();
    let mut i: usize = 0;
    assert(key_views(keys@) =~= pass_edges(rows@.take(0), *table));
    while i < rows.len()
        invariant
            i <= rows.len(),
            table.sorted(),
            key_views(keys@) == pass_edges(rows@.take(i as int), *table),
        decreases rows.len() - i,
    {
        let row = &rows[i];
        let ghost before = key_views(keys@);
        let ghost edges = row_edges(*row, *table);
        let mut k: usize = 0;
        assert(before + edges.take(0) =~= before);
        while k < row.owner_pids.len()
            invariant
                k <= row.owner_pids.len(),
                table.sorted(),
                edges == row_edges(*row, *table),
                key_views(keys@) == before + edges.take(k as int),
            decreases row.owner_pids.len() - k,
        {
            let pid: u32 = row.owner_pids[k];
            let mut key = socket_key_of(row.socket);
            let mut owner = owner_key_of(pid, table.get(pid));
            key.append(&mut owner);
            assert(key@ =~= edge_key(row.socket, pid, *table));
            let ghost listed = keys@;
            keys.push(key);
            assert(edges.take(k + 1) =~= edges.take(k as int).push(edges[k as int]));
            assert(key_views(keys@) =~= key_views(listed).push(edges[k as int]));
            assert(key_views(keys@) =~= before + edges.take(k + 1));
            k = k + 1;
        }
        assert(edges.take(edges.len() as int) =~= edges);
        assert(rows@.take(i + 1).drop_last() =~= rows@.take(i as int));
        assert(rows@.take(i + 1).last() == *row);
        i = i + 1;
    }
    assert(rows@.take(rows.len() as int) =~= rows@);
    keys
}

/// What differs between two passes.
#[derive(Debug, Clone, Copy, PartialEq, Eq, Structural)]
pub struct PassChange {
    pub socket_set: bool,
    pub ownership: bool,
}

impl PassChange {
    pub open spec fn raced(self) -> bool {
        self.socket_set || self.ownership
    }
}

/// Passes agree on sockets where they report the same ones equally often, and on owners
/// where the same processes own the same sockets equally often. Timers may move.
pub open spec fn change_between(a: CollectedPass, b: CollectedPass) -> PassChange {
    PassChange {
        socket_set: socket_keys(a.rows@).to_multiset() != socket_keys(b.rows@).to_multiset(),
        ownership: pass_edges(a.rows@, a.processes_by_pid).to_multiset() != pass_edges(
            b.rows@,
            b.processes_by_pid,
        ).to_multiset(),
    }
}

/// Compare two passes.
pub fn compare_passes(a: &CollectedPass, b: &CollectedPass) -> (r: PassChange)
    requires
        a.processes_by_pid.sorted(),
        b.processes_by_pid.sorted(),
    ensures
        r == change_between(*a, *b),
{
    let sockets_a = socket_keys_of(&a.rows);
    let sockets_b = socket_keys_of(&b.rows);
    let edges_a = pass_edges_of(&a.rows, &a.processes_by_pid);
    let edges_b = pass_edges_of(&b.rows, &b.processes_by_pid);
    PassChange {
        socket_set: !same_keys(&sockets_a, &sockets_b),
        ownership: !same_keys(&edges_a, &edges_b),
    }
}

/// A timer that moves between two passes is no race: passes that report the same sockets
/// and owners, with whatever timers, agree.
pub proof fn law_timers_do_not_race(a: CollectedPass, b: CollectedPass)
    requires
        a.rows.len() == b.rows.len(),
        a.processes_by_pid == b.processes_by_pid,
        forall|i: int|
            0 <= i < a.rows.len() ==> (#[trigger] a.rows@[i]).socket == (NativeSocketObservation {
                timer: a.rows@[i].socket.timer,
                ..b.rows@[i].socket
            }) && a.rows@[i].owner_pids@ == b.rows@[i].owner_pids@,
    ensures
        !change_between(a, b).raced(),
{
    assert(socket_keys(a.rows@) =~= socket_keys(b.rows@)) by {
        assert forall|i: int| 0 <= i < a.rows.len() implies socket_keys(a.rows@)[i] == socket_keys(
            b.rows@,
        )[i] by {
            assert(a.rows@[i].socket.endpoint == b.rows@[i].socket.endpoint);
        }
    }
    lemma_edges_alike(a.rows@, b.rows@, a.processes_by_pid);
}

proof fn lemma_edges_alike(
    a: Seq<NativeSocketRow>,
    b: Seq<NativeSocketRow>,
    table: ProcessReadTable,
)
    requires
        a.len() == b.len(),
        forall|i: int|
            0 <= i < a.len() ==> (#[trigger] a[i]).socket == (NativeSocketObservation {
                timer: a[i].socket.timer,
                ..b[i].socket
            }) && a[i].owner_pids@ == b[i].owner_pids@,
    ensures
        pass_edges(a, table) == pass_edges(b, table),
    decreases a.len(),
{
    if a.len() > 0 {
        assert forall|i: int| 0 <= i < a.drop_last().len() implies (
        #[trigger] a.drop_last()[i]).socket == (NativeSocketObservation {
            timer: a.drop_last()[i].socket.timer,
            ..b.drop_last()[i].socket
        }) && a.drop_last()[i].owner_pids@ == b.drop_last()[i].owner_pids@ by {
            assert(a[i].socket.endpoint == b[i].socket.endpoint);
        }
        lemma_edges_alike(a.drop_last(), b.drop_last(), table);
        let last = a.len() - 1;
        assert(a[last].socket.endpoint == b[last].socket.endpoint);
        assert(row_edges(a.last(), table) =~= row_edges(b.last(), table));
    }
}

/// The owners of a row as one key.
pub open spec fn owners_key(pids: Seq<u32>, table: ProcessReadTable) -> Seq<u128>
    decreases pids.len(),
{
    if pids.len() == 0 {
        Seq::empty()
    } else {
        owners_key(pids.drop_last(), table) + owner_key(pids.last(), table.read(pids.last()))
    }
}

/// A socket together with all its owners.
pub open spec fn bundle_key(row: NativeSocketRow, table: ProcessReadTable) -> Seq<u128> {
    socket_key(row.socket) + owners_key(row.owner_pids@, table)
}

pub open spec fn bundle_keys(rows: Seq<NativeSocketRow>, table: ProcessReadTable) -> Seq<
    Seq<u128>,
> {
    rows.map_values(|row: NativeSocketRow| bundle_key(row, table))
}

fn bundle_key_of(row: &NativeSocketRow, table: &ProcessReadTable) -> (r: Vec<u128>)
    requires
        table.sorted(),
    ensures
        r@ == bundle_key(*row, *table),
{
    let mut key = socket_key_of(row.socket);
    let ghost head = key@;
    let mut k: usize = 0;
    assert(head + owners_key(row.owner_pids@.take(0), *table) =~= head);
    while k < row.owner_pids.len()
        invariant
            k <= row.owner_pids.len(),
            table.sorted(),
            key@ == head + owners_key(row.owner_pids@.take(k as int), *table),
        decreases row.owner_pids.len() - k,
    {
        let pid: u32 = row.owner_pids[k];
        let mut owner = owner_key_of(pid, table.get(pid));
        key.append(&mut owner);
        assert(row.owner_pids@.take(k + 1).drop_last() =~= row.owner_pids@.take(k as int));
        assert(row.owner_pids@.take(k + 1).last() == pid);
        assert(key@ =~= head + owners_key(row.owner_pids@.take(k + 1), *table));
        k = k + 1;
    }
    assert(row.owner_pids@.take(row.owner_pids.len() as int) =~= row.owner_pids@);
    key
}

fn bundle_keys_of(rows: &Vec<NativeSocketRow>, table: &ProcessReadTable) -> (r: Vec<Vec<u128>>)
    requires
        table.sorted(),
    ensures
        key_views(r@) == bundle_keys(rows@, *table),
        r.len() == rows.len(),
{
    let mut keys: Vec<Vec<u128>> = Vec::new();
    let mut i: usize = 0;
    while i < rows.len()
        invariant
            i <= rows.len(),
            table.sorted(),
            keys.len() == i,
            forall|k: int| 0 <= k < i ==> (#[trigger] keys@[k])@ == bundle_key(rows@[k], *table),
        decreases rows.len() - i,
    {
        keys.push(bundle_key_of(&rows[i], table));
        i = i + 1;
    }
    assert(key_views(keys@) =~= bundle_keys(rows@, *table));
    keys
}

/// The socket of a row, with just these owners, was not reported equally often by both
/// passes.
pub open spec fn row_raced(a: CollectedPass, b: CollectedPass, row: int) -> bool {
    let bundle = bundle_key(b.rows@[row], b.processes_by_pid);
    bundle_keys(a.rows@, a.processes_by_pid).to_multiset().count(bundle) != bundle_keys(
        b.rows@,
        b.processes_by_pid,
    ).to_multiset().count(bundle)
}

/// Which rows of the second pass the first one did not see alike.
pub fn raced_rows(a: &CollectedPass, b: &CollectedPass) -> (r: Vec<bool>)
    requires
        a.processes_by_pid.sorted(),
        b.processes_by_pid.sorted(),
    ensures
        r.len() == b.rows.len(),
        forall|i: int| 0 <= i < r.len() ==> #[trigger] r@[i] == row_raced(*a, *b, i),
{
    let bundles_a = sorted_keys(&bundle_keys_of(&a.rows, &a.processes_by_pid));
    let bundles = bundle_keys_of(&b.rows, &b.processes_by_pid);
    let bundles_b = sorted_keys(&bundles);
    let mut out: Vec<bool> = Vec::new();
    let mut i: usize = 0;
    while i < bundles.len()
        invariant
            i <= bundles.len(),
            bundles.len() == b.rows.len(),
            out.len() == i,
            keys_sorted(key_views(bundles_a@)),
            keys_sorted(key_views(bundles_b@)),
            key_bag(bundles_a@) == bundle_keys(a.rows@, a.processes_by_pid).to_multiset(),
            key_bag(bundles_b@) == bundle_keys(b.rows@, b.processes_by_pid).to_multiset(),
            key_views(bundles@) == bundle_keys(b.rows@, b.processes_by_pid),
            forall|k: int| 0 <= k < i ==> #[trigger] out@[k] == row_raced(*a, *b, k),
        decreases bundles.len() - i,
    {
        let here: usize = count_key(&bundles_b, &bundles[i]);
        let there: usize = count_key(&bundles_a, &bundles[i]);
        assert(bundles@[i as int]@ == bundle_key(b.rows@[i as int], b.processes_by_pid)) by {
            assert(key_views(bundles@)[i as int] == bundles@[i as int]@);
        }
        out.push(here != there);
        i = i + 1;
    }
    out
}

/// How far an owner set may be from the truth.
#[derive(Debug, Clone, Copy, PartialEq, Eq, Structural)]
pub struct Uncertainty {
    pub raced: bool,
    pub reasons: OwnerReasons,
}

impl Uncertainty {
    pub open spec fn of(completeness: OwnerCompleteness) -> Uncertainty {
        Uncertainty {
            raced: completeness is Raced,
            reasons: match completeness {
                OwnerCompleteness::Partial { reasons } => reasons,
                _ => OwnerReasons::of(|code: EvidenceGapCode| false),
            },
        }
    }

    pub fn from_completeness(completeness: OwnerCompleteness) -> (r: Uncertainty)
        ensures
            r == Uncertainty::of(completeness),
    {
        let none = OwnerReasons::empty();
        assert(none == OwnerReasons::of(|code: EvidenceGapCode| false));
        match completeness {
            OwnerCompleteness::Complete => Uncertainty { raced: false, reasons: none },
            OwnerCompleteness::Partial { reasons } => Uncertainty { raced: false, reasons },
            OwnerCompleteness::Raced => Uncertainty { raced: true, reasons: none },
        }
    }

    pub open spec fn joined(self, other: Uncertainty) -> Uncertainty {
        Uncertainty {
            raced: self.raced || other.raced,
            reasons: self.reasons.joined(other.reasons),
        }
    }

    pub fn join(self, other: Uncertainty) -> (r: Uncertainty)
        ensures
            r == self.joined(other),
    {
        Uncertainty {
            raced: self.raced || other.raced,
            reasons: self.reasons.union(other.reasons),
        }
    }

    /// The completeness of an owner set with this uncertainty; a race says more than any
    /// reason, and too many reasons have none.
    pub open spec fn completeness(self) -> Option<OwnerCompleteness> {
        if self.raced {
            Some(OwnerCompleteness::Raced)
        } else {
            OwnerCompleteness::from_set(self.reasons)
        }
    }

    pub fn to_completeness(self) -> (r: Option<OwnerCompleteness>)
        ensures
            r == self.completeness(),
    {
        if self.raced {
            return Some(OwnerCompleteness::Raced);
        }
        match OwnerCompleteness::from_reasons(self.reasons) {
            Ok(completeness) => Some(completeness),
            Err(_) => None,
        }
    }
}

/// What is said of a key at the positions before `end`, and nothing else.
pub open spec fn says_before(
    keys: Seq<Seq<u128>>,
    said: Seq<Uncertainty>,
    end: int,
    key: Seq<u128>,
    u: Uncertainty,
) -> bool {
    &&& u.raced <==> exists|i: int| 0 <= i < end && #[trigger] keys[i] == key && said[i].raced
    &&& forall|code: EvidenceGapCode| #[trigger]
        u.reasons.has(code) <==> exists|i: int|
            0 <= i < end && #[trigger] keys[i] == key && said[i].reasons.has(code)
}

/// What is said of a key in all.
pub open spec fn group_says(
    keys: Seq<Seq<u128>>,
    said: Seq<Uncertainty>,
    key: Seq<u128>,
    u: Uncertainty,
) -> bool {
    says_before(keys, said, keys.len() as int, key, u)
}

proof fn lemma_joined_has(a: Uncertainty, b: Uncertainty, code: EvidenceGapCode)
    ensures
        a.joined(b).reasons.has(code) == (a.reasons.has(code) || b.reasons.has(code)),
{
}

/// Sorted keys that are equal at two places are equal in between.
proof fn lemma_run(keys: Seq<Seq<u128>>, i: int, m: int, j: int)
    requires
        keys_sorted(keys),
        0 <= i <= m <= j < keys.len(),
        keys[i] == keys[j],
    ensures
        keys[m] == keys[i],
{
    if i < m && m < j {
        assert(key_le(keys[i], keys[m]));
        assert(key_le(keys[m], keys[j]));
        lemma_key_antisymmetric(keys[i], keys[m]);
    }
}

/// For each position, everything that is said of its key.
pub fn group_unions(keys: &Vec<Vec<u128>>, said: &Vec<Uncertainty>) -> (r: Vec<Uncertainty>)
    requires
        keys.len() == said.len(),
    ensures
        r.len() == keys.len(),
        forall|i: int|
            0 <= i < r.len() ==> group_says(
                key_views(keys@),
                said@,
                key_views(keys@)[i],
                #[trigger] r@[i],
            ),
{
    let positions = stable_order(keys);
    let ghost sk = key_views(picked(keys@, positions@));
    let ghost ss = picked(said@, positions@);
    proof {
        lemma_order_rearranges(keys@, positions@);
    }
    let mut acc: Vec<Uncertainty> = Vec::new();
    let mut p: usize = 0;
    while p < positions.len()
        invariant
            p <= positions.len(),
            keys.len() == said.len(),
            orders_range(keys@, 0, keys.len() as int, positions@),
            sk == key_views(picked(keys@, positions@)),
            ss == picked(said@, positions@),
            keys_sorted(sk),
            acc.len() == p,
            forall|q: int| 0 <= q < p ==> says_before(sk, ss, q + 1, sk[q], #[trigger] acc@[q]),
        decreases positions.len() - p,
    {
        let own = said[positions[p]];
        assert(own == ss[p as int]);
        assert(sk[p as int] == keys@[positions@[p as int] as int]@);
        let joins: bool = if p > 0 {
            keys_equal(&keys[positions[p]], &keys[positions[p - 1]])
        } else {
            false
        };
        let next = if joins {
            acc[p - 1].join(own)
        } else {
            own
        };
        proof {
            let key = sk[p as int];
            if p > 0 {
                assert(sk[p - 1] == keys@[positions@[p - 1] as int]@);
            }
            if joins {
                let prior = acc@[p - 1];
                assert(says_before(sk, ss, p as int, key, prior));
                assert forall|code: EvidenceGapCode| #[trigger] next.reasons.has(code) <==> exists|
                    i: int,
                |
                    0 <= i < p + 1 && #[trigger] sk[i] == key && ss[i].reasons.has(code) by {
                    lemma_joined_has(prior, own, code);
                    if prior.reasons.has(code) {
                        let i = choose|i: int|
                            0 <= i < p && #[trigger] sk[i] == key && ss[i].reasons.has(code);
                        assert(sk[i] == key);
                    }
                    if own.reasons.has(code) {
                        assert(sk[p as int] == key && ss[p as int].reasons.has(code));
                    }
                }
                if prior.raced {
                    let i = choose|i: int| 0 <= i < p && #[trigger] sk[i] == key && ss[i].raced;
                    assert(sk[i] == key);
                }
                if own.raced {
                    assert(sk[p as int] == key && ss[p as int].raced);
                }
            } else {
                assert forall|i: int| 0 <= i < p implies #[trigger] sk[i] != key by {
                    if sk[i] == key {
                        lemma_run(sk, i, p - 1, p as int);
                    }
                }
                assert(sk[p as int] == key);
            }
            assert(says_before(sk, ss, p + 1, key, next));
        }
        acc.push(next);
        p = p + 1;
    }
    let mut end: usize = positions.len();
    while end > 0
        invariant
            end <= positions.len(),
            keys.len() == said.len(),
            orders_range(keys@, 0, keys.len() as int, positions@),
            sk == key_views(picked(keys@, positions@)),
            keys_sorted(sk),
            acc.len() == positions.len(),
            forall|q: int|
                0 <= q < end ==> says_before(sk, ss, q + 1, sk[q], #[trigger] acc@[q]),
            forall|q: int|
                end <= q < positions.len() ==> group_says(sk, ss, sk[q], #[trigger] acc@[q]),
        decreases end,
    {
        let at: usize = end - 1;
        let ghost before = acc@;
        assert(sk[at as int] == keys@[positions@[at as int] as int]@);
        let joins: bool = if end < positions.len() {
            assert(sk[end as int] == keys@[positions@[end as int] as int]@);
            keys_equal(&keys[positions[at]], &keys[positions[end]])
        } else {
            false
        };
        if joins {
            let whole = acc[end];
            acc.set(at, whole);
        } else {
            proof {
                let u = acc@[at as int];
                let key = sk[at as int];
                assert forall|i: int| end <= i < sk.len() implies #[trigger] sk[i] != key by {
                    if sk[i] == key {
                        lemma_run(sk, at as int, end as int, i);
                    }
                }
                assert(says_before(sk, ss, end as int, key, u));
                assert(group_says(sk, ss, key, u)) by {
                    assert forall|code: EvidenceGapCode| #[trigger] u.reasons.has(code) <==> exists|
                        i: int,
                    |
                        0 <= i < sk.len() && #[trigger] sk[i] == key && ss[i].reasons.has(code) by {
                        if u.reasons.has(code) {
                            let i = choose|i: int|
                                0 <= i < end && #[trigger] sk[i] == key && ss[i].reasons.has(code);
                            assert(sk[i] == key);
                        }
                    }
                    if u.raced {
                        let i = choose|i: int|
                            0 <= i < end && #[trigger] sk[i] == key && ss[i].raced;
                        assert(sk[i] == key);
                    }
                }
            }
        }
        proof {
            assert forall|q: int| at <= q < positions.len() implies group_says(
                sk,
                ss,
                sk[q],
                #[trigger] acc@[q],
            ) by {
                if q > at {
                    assert(acc@[q] == before[q]);
                }
            }
            assert forall|q: int| 0 <= q < at implies says_before(
                sk,
                ss,
                q + 1,
                sk[q],
                #[trigger] acc@[q],
            ) by {
                assert(acc@[q] == before[q]);
            }
        }
        end = at;
    }
    let mut out: Vec<Uncertainty> = Vec::new();
    let mut i: usize = 0;
    while i < said.len()
        invariant
            i <= said.len(),
            out.len() == i,
        decreases said.len() - i,
    {
        out.push(said[i]);
        i = i + 1;
    }
    let ghost views = key_views(keys@);
    let mut at: usize = 0;
    while at < positions.len()
        invariant
            at <= positions.len(),
            keys.len() == said.len(),
            out.len() == keys.len(),
            views == key_views(keys@),
            orders_range(keys@, 0, keys.len() as int, positions@),
            crate::bags::rearranges(positions@, keys@.len()),
            sk == key_views(picked(keys@, positions@)),
            ss == picked(said@, positions@),
            acc.len() == positions.len(),
            forall|q: int|
                0 <= q < positions.len() ==> group_says(sk, ss, sk[q], #[trigger] acc@[q]),
            forall|q: int|
                #![trigger positions@[q]]
                0 <= q < at ==> group_says(
                    views,
                    said@,
                    views[positions@[q] as int],
                    out@[positions@[q] as int],
                ),
        decreases positions.len() - at,
    {
        let target: usize = positions[at];
        let u = acc[at];
        let ghost before = out@;
        proof {
            let key = views[target as int];
            assert(sk[at as int] == key);
            assert(group_says(sk, ss, key, u));
            lemma_group_moves(keys@, said@, positions@, key, u);
        }
        out.set(target, u);
        proof {
            assert forall|q: int| #![trigger positions@[q]] 0 <= q < at + 1 implies group_says(
                views,
                said@,
                views[positions@[q] as int],
                out@[positions@[q] as int],
            ) by {
                if q < at {
                    assert(positions@[q] != positions@[at as int]);
                    assert(out@[positions@[q] as int] == before[positions@[q] as int]);
                }
            }
        }
        at = at + 1;
    }
    proof {
        assert forall|i: int| 0 <= i < out.len() implies group_says(
            views,
            said@,
            views[i],
            #[trigger] out@[i],
        ) by {
            assert(positions@.contains(i as usize));
            let q = choose|q: int| 0 <= q < positions.len() && positions@[q] == i as usize;
            assert(positions@[q] as int == i);
        }
    }
    out
}

/// What is said of a key does not depend on the order in which it is said.
proof fn lemma_group_moves(
    keys: Seq<Vec<u128>>,
    said: Seq<Uncertainty>,
    positions: Seq<usize>,
    key: Seq<u128>,
    u: Uncertainty,
)
    requires
        keys.len() == said.len(),
        keys.len() <= usize::MAX,
        crate::bags::rearranges(positions, keys.len()),
        group_says(key_views(picked(keys, positions)), picked(said, positions), key, u),
    ensures
        group_says(key_views(keys), said, key, u),
{
    let sk = key_views(picked(keys, positions));
    let ss = picked(said, positions);
    let views = key_views(keys);
    assert forall|i: int| #![trigger views[i]] 0 <= i < views.len() implies exists|q: int|
        0 <= q < sk.len() && #[trigger] sk[q] == views[i] && ss[q] == said[i] by {
        assert(positions.contains(i as usize));
        let q = choose|q: int| 0 <= q < positions.len() && positions[q] == i as usize;
        assert(sk[q] == views[i] && ss[q] == said[i]);
    }
    assert forall|q: int| 0 <= q < sk.len() implies #[trigger] sk[q] == views[positions[q] as int]
        && ss[q] == said[positions[q] as int] by {}
    assert(u.raced <==> exists|i: int|
        0 <= i < views.len() && #[trigger] views[i] == key && said[i].raced) by {
        if u.raced {
            let q = choose|q: int| 0 <= q < sk.len() && #[trigger] sk[q] == key && ss[q].raced;
            assert(views[positions[q] as int] == key && said[positions[q] as int].raced);
        }
        if exists|i: int| 0 <= i < views.len() && #[trigger] views[i] == key && said[i].raced {
            let i = choose|i: int|
                0 <= i < views.len() && #[trigger] views[i] == key && said[i].raced;
            let q = choose|q: int|
                0 <= q < sk.len() && #[trigger] sk[q] == views[i] && ss[q] == said[i];
            assert(sk[q] == key && ss[q].raced);
        }
    }
    assert forall|code: EvidenceGapCode| #[trigger] u.reasons.has(code) <==> exists|i: int|
        0 <= i < views.len() && #[trigger] views[i] == key && said[i].reasons.has(code) by {
        if u.reasons.has(code) {
            let q = choose|q: int|
                0 <= q < sk.len() && #[trigger] sk[q] == key && ss[q].reasons.has(code);
            assert(views[positions[q] as int] == key && said[positions[q] as int].reasons.has(
                code,
            ));
        }
        if exists|i: int|
            0 <= i < views.len() && #[trigger] views[i] == key && said[i].reasons.has(code) {
            let i = choose|i: int|
                0 <= i < views.len() && #[trigger] views[i] == key && said[i].reasons.has(code);
            let q = choose|q: int|
                0 <= q < sk.len() && #[trigger] sk[q] == views[i] && ss[q] == said[i];
            assert(sk[q] == key && ss[q].reasons.has(code));
        }
    }
}

} // verus!
