//! The canonical form of a pass: rows and owners in order, whatever order they came in.

use vstd::prelude::*;
use crate::bags::{
    key_views, keys_sorted, lemma_order_rearranges, lemma_picked_bag, lemma_sorted_bags_equal,
    picked,
};
use crate::model::law_state_rank_is_injective;
use crate::native::{
    completeness_key, pid_key, row_key, row_key_of, socket_key, timer_key, token_key,
    NativeSocketObservation, NativeSocketRow,
};
use crate::observation::endpoint_key;
use crate::order::{key_le, orders_range, stable_order};

verus! {

pub open spec fn pids_sorted(pids: Seq<u32>) -> bool {
    forall|i: int, j: int|
        #![trigger pids[i], pids[j]]
        0 <= i < j < pids.len() ==> pids[i] <= pids[j]
}

/// PIDs in ascending order, each as often as it was given.
pub fn sorted_pids(pids: &Vec<u32>) -> (r: Vec<u32>)
    ensures
        pids_sorted(r@),
        r@.to_multiset() == pids@.to_multiset(),
        r.len() == pids.len(),
{
    let mut keys: Vec<Vec<u128>> = Vec::new();
    let mut i: usize = 0;
    while i < pids.len()
        invariant
            i <= pids.len(),
            keys.len() == i,
            forall|k: int| 0 <= k < i ==> (#[trigger] keys@[k])@ == seq![pids@[k] as u128],
        decreases pids.len() - i,
    {
        let mut key: Vec<u128> = Vec::new();
        key.push(pids[i] as u128);
        assert(key@ =~= seq![pids@[i as int] as u128]);
        keys.push(key);
        i = i + 1;
    }
    let positions = stable_order(&keys);
    let mut out: Vec<u32> = Vec::new();
    let mut at: usize = 0;
    while at < positions.len()
        invariant
            at <= positions.len(),
            keys.len() == pids.len(),
            orders_range(keys@, 0, keys.len() as int, positions@),
            out.len() == at,
            forall|k: int| 0 <= k < at ==> #[trigger] out@[k] == pids@[positions@[k] as int],
        decreases positions.len() - at,
    {
        out.push(pids[positions[at]]);
        at = at + 1;
    }
    proof {
        lemma_order_rearranges(keys@, positions@);
        lemma_picked_bag(pids@, positions@);
        assert(out@ =~= picked(pids@, positions@));
        let views = key_views(picked(keys@, positions@));
        assert forall|i: int, j: int| #![trigger out@[i], out@[j]] 0 <= i < j < out.len() implies out@[i]
            <= out@[j] by {
            assert(views[i] == seq![out@[i] as u128]);
            assert(views[j] == seq![out@[j] as u128]);
            assert(key_le(views[i], views[j]));
        }
    }
    out
}

/// The row with its owners in order.
pub open spec fn settled(row: NativeSocketRow, r: NativeSocketRow) -> bool {
    &&& r.socket == row.socket
    &&& r.owner_completeness == row.owner_completeness
    &&& pids_sorted(r.owner_pids@)
    &&& r.owner_pids@.to_multiset() == row.owner_pids@.to_multiset()
}

fn settle_row(row: &NativeSocketRow) -> (r: NativeSocketRow)
    ensures
        settled(*row, r),
        r.owner_pids.len() == row.owner_pids.len(),
{
    NativeSocketRow {
        socket: row.socket,
        owner_pids: sorted_pids(&row.owner_pids),
        owner_completeness: row.owner_completeness,
    }
}

pub open spec fn row_keys(rows: Seq<NativeSocketRow>) -> Seq<Seq<u128>> {
    rows.map_values(|row: NativeSocketRow| row_key(row))
}

/// The rows in canonical order: each row of the pass once, its owners in order, the rows
/// by their keys.
pub open spec fn canonical(rows: Seq<NativeSocketRow>, r: Seq<NativeSocketRow>) -> bool {
    &&& keys_sorted(row_keys(r))
    &&& exists|positions: Seq<usize>| #[trigger]
        canonical_by(rows, r, positions)
}

pub open spec fn canonical_by(
    rows: Seq<NativeSocketRow>,
    r: Seq<NativeSocketRow>,
    positions: Seq<usize>,
) -> bool {
    &&& crate::bags::rearranges(positions, rows.len())
    &&& r.len() == rows.len()
    &&& forall|i: int|
        0 <= i < r.len() ==> settled(rows[positions[i] as int], #[trigger] r[i])
}

/// Bring rows into canonical order.
pub fn canonical_rows(rows: &Vec<NativeSocketRow>) -> (r: Vec<NativeSocketRow>)
    ensures
        canonical(rows@, r@),
        r.len() == rows.len(),
{
    let mut settled_rows: Vec<NativeSocketRow> = Vec::new();
    let mut keys: Vec<Vec<u128>> = Vec::new();
    let mut i: usize = 0;
    while i < rows.len()
        invariant
            i <= rows.len(),
            settled_rows.len() == i,
            keys.len() == i,
            forall|k: int| 0 <= k < i ==> settled(rows@[k], #[trigger] settled_rows@[k]),
            forall|k: int| 0 <= k < i ==> (#[trigger] keys@[k])@ == row_key(settled_rows@[k]),
        decreases rows.len() - i,
    {
        let row = settle_row(&rows[i]);
        keys.push(row_key_of(&row));
        settled_rows.push(row);
        i = i + 1;
    }
    let positions = stable_order(&keys);
    let mut out: Vec<NativeSocketRow> = Vec::new();
    let mut at: usize = 0;
    while at < positions.len()
        invariant
            at <= positions.len(),
            keys.len() == rows.len(),
            settled_rows.len() == rows.len(),
            orders_range(keys@, 0, keys.len() as int, positions@),
            forall|k: int|
                0 <= k < rows.len() ==> settled(rows@[k], #[trigger] settled_rows@[k]),
            forall|k: int|
                0 <= k < rows.len() ==> (#[trigger] keys@[k])@ == row_key(settled_rows@[k]),
            out.len() == at,
            forall|k: int|
                0 <= k < at ==> (#[trigger] out@[k]).same_row(settled_rows@[positions@[k] as int]),
        decreases positions.len() - at,
    {
        let row = &settled_rows[positions[at]];
        out.push(
            NativeSocketRow {
                socket: row.socket,
                owner_pids: row.owner_pids.clone(),
                owner_completeness: row.owner_completeness,
            },
        );
        at = at + 1;
    }
    proof {
        lemma_order_rearranges(keys@, positions@);
        let views = key_views(picked(keys@, positions@));
        assert forall|k: int| 0 <= k < out.len() implies settled(
            rows@[positions@[k] as int],
            #[trigger] out@[k],
        ) by {
            assert(settled(rows@[positions@[k] as int], settled_rows@[positions@[k] as int]));
        }
        assert(canonical_by(rows@, out@, positions@));
        assert(row_keys(out@) =~= views) by {
            assert forall|k: int| 0 <= k < out.len() implies row_keys(out@)[k] == views[k] by {
                assert(out@[k].same_row(settled_rows@[positions@[k] as int]));
            }
        }
    }
    out
}

/// How many owners the rows name in all.
pub open spec fn owner_edges(rows: Seq<NativeSocketRow>) -> nat
    decreases rows.len(),
{
    if rows.len() == 0 {
        0
    } else {
        owner_edges(rows.drop_last()) + rows.last().owner_pids@.len()
    }
}

proof fn lemma_edges_grow(rows: Seq<NativeSocketRow>, n: int)
    requires
        0 <= n <= rows.len(),
    ensures
        owner_edges(rows.take(n)) <= owner_edges(rows),
    decreases rows.len() - n,
{
    if n == rows.len() {
        assert(rows.take(n) =~= rows);
    } else {
        assert(rows.take(n + 1).drop_last() =~= rows.take(n));
        lemma_edges_grow(rows, n + 1);
    }
}

/// Whether the rows name more owners than allowed.
pub fn edges_exceed(rows: &Vec<NativeSocketRow>, limit: usize) -> (r: bool)
    ensures
        r == (owner_edges(rows@) > limit),
{
    let mut left: usize = limit;
    let mut i: usize = 0;
    while i < rows.len()
        invariant
            i <= rows.len(),
            left <= limit,
            owner_edges(rows@.take(i as int)) + left == limit,
        decreases rows.len() - i,
    {
        let count: usize = rows[i].owner_pids.len();
        assert(rows@.take(i + 1).drop_last() =~= rows@.take(i as int));
        if count > left {
            proof {
                lemma_edges_grow(rows@, i + 1);
            }
            return true;
        }
        left = left - count;
        i = i + 1;
    }
    assert(rows@.take(rows.len() as int) =~= rows@);
    false
}

/// Some row names the PID as an owner.
pub open spec fn names_pid(rows: Seq<NativeSocketRow>, pid: u32) -> bool {
    exists|i: int, k: int|
        0 <= i < rows.len() && 0 <= k < rows[i].owner_pids@.len() && #[trigger] rows[i].owner_pids@[k]
            == pid
}

pub open spec fn pids_ascending(pids: Seq<u32>) -> bool {
    forall|i: int, j: int|
        #![trigger pids[i], pids[j]]
        0 <= i < j < pids.len() ==> pids[i] < pids[j]
}

/// The PIDs that the rows name, each once, in ascending order.
pub fn candidate_pids(rows: &Vec<NativeSocketRow>) -> (r: Vec<u32>)
    ensures
        pids_ascending(r@),
        forall|pid: u32| #[trigger] r@.contains(pid) <==> names_pid(rows@, pid),
{
    let mut all: Vec<u32> = Vec::new();
    let mut i: usize = 0;
    while i < rows.len()
        invariant
            i <= rows.len(),
            forall|pid: u32| #[trigger] all@.contains(pid) <==> names_pid(rows@.take(i as int), pid),
        decreases rows.len() - i,
    {
        let owners = &rows[i].owner_pids;
        let ghost before = all@;
        let mut k: usize = 0;
        while k < owners.len()
            invariant
                k <= owners.len(),
                all@ == before + owners@.take(k as int),
            decreases owners.len() - k,
        {
            all.push(owners[k]);
            assert(owners@.take(k + 1) =~= owners@.take(k as int).push(owners@[k as int]));
            assert(all@ =~= before + owners@.take(k + 1));
            k = k + 1;
        }
        proof {
            let next = rows@.take(i + 1);
            let head = rows@.take(i as int);
            assert(owners@.take(owners.len() as int) =~= owners@);
            assert forall|pid: u32| #[trigger] all@.contains(pid) <==> names_pid(next, pid) by {
                assert(before.contains(pid) <==> names_pid(head, pid));
                if all@.contains(pid) {
                    let at = choose|at: int| 0 <= at < all.len() && all@[at] == pid;
                    if at < before.len() {
                        assert(before[at] == pid);
                        let (a, b) = choose|a: int, b: int|
                            0 <= a < head.len() && 0 <= b < head[a].owner_pids@.len()
                                && #[trigger] head[a].owner_pids@[b] == pid;
                        assert(next[a].owner_pids@[b] == pid);
                    } else {
                        assert(next[i as int].owner_pids@[at - before.len()] == pid);
                    }
                }
                if names_pid(next, pid) {
                    let (a, b) = choose|a: int, b: int|
                        0 <= a < next.len() && 0 <= b < next[a].owner_pids@.len()
                            && #[trigger] next[a].owner_pids@[b] == pid;
                    if a < i {
                        assert(head[a].owner_pids@[b] == pid);
                        let at = choose|at: int| 0 <= at < before.len() && before[at] == pid;
                        assert(all@[at] == pid);
                    } else {
                        assert(all@[before.len() + b] == pid);
                    }
                }
            }
        }
        i = i + 1;
    }
    assert(rows@.take(rows.len() as int) =~= rows@);
    let ordered = sorted_pids(&all);
    proof {
        broadcast use vstd::seq_lib::group_to_multiset_ensures;

        assert forall|pid: u32| #[trigger] ordered@.contains(pid) <==> all@.contains(pid) by {
            assert(ordered@.to_multiset().count(pid) == all@.to_multiset().count(pid));
        }
    }
    let mut out: Vec<u32> = Vec::new();
    let mut at: usize = 0;
    while at < ordered.len()
        invariant
            at <= ordered.len(),
            pids_sorted(ordered@),
            pids_ascending(out@),
            forall|pid: u32| #[trigger]
                out@.contains(pid) <==> ordered@.take(at as int).contains(pid),
            at > 0 ==> out.len() > 0 && out@.last() == ordered@[at - 1],
            at == 0 ==> out.len() == 0,
        decreases ordered.len() - at,
    {
        let pid: u32 = ordered[at];
        let ghost before = out@;
        let ghost head = ordered@.take(at as int);
        let ghost next = ordered@.take(at + 1);
        assert(next =~= head.push(pid));
        if out.len() == 0 || out[out.len() - 1] != pid {
            proof {
                if at > 0 {
                    assert(ordered@[at - 1] <= ordered@[at as int]);
                }
                assert forall|k: int| 0 <= k < before.len() implies #[trigger] before[k] < pid by {
                    assert(before[k] <= before.last());
                }
            }
            out.push(pid);
        }
        proof {
            assert forall|other: u32| #[trigger] out@.contains(other) <==> next.contains(other) by {
                assert(before.contains(other) <==> head.contains(other));
                if out@.contains(other) {
                    let k = choose|k: int| 0 <= k < out.len() && out@[k] == other;
                    if k < before.len() {
                        assert(before[k] == other);
                        let m = choose|m: int| 0 <= m < head.len() && head[m] == other;
                        assert(next[m] == other);
                    } else {
                        assert(next[at as int] == other);
                    }
                }
                if next.contains(other) {
                    let m = choose|m: int| 0 <= m < next.len() && next[m] == other;
                    if m < at {
                        assert(head[m] == other);
                        let k = choose|k: int| 0 <= k < before.len() && before[k] == other;
                        assert(out@[k] == other);
                    } else {
                        assert(out@.last() == pid);
                        assert(out@[out.len() - 1] == other);
                    }
                }
            }
        }
        at = at + 1;
    }
    assert(ordered@.take(ordered.len() as int) =~= ordered@);
    out
}

/// The key of a socket tells its endpoint, state and token.
pub proof fn lemma_socket_key_injective(a: NativeSocketObservation, b: NativeSocketObservation)
    requires
        socket_key(a) == socket_key(b),
    ensures
        a.endpoint == b.endpoint,
        a.state == b.state,
        a.token == b.token,
{
    let ka = socket_key(a);
    let kb = socket_key(b);
    let ea = endpoint_key(Some(a.endpoint));
    let eb = endpoint_key(Some(b.endpoint));
    assert forall|i: int| 0 <= i < 6 implies ea[i] == eb[i] by {
        assert(ka[i] == ea[i] && kb[i] == eb[i]);
    }
    assert(ea[0] == eb[0] && ea[1] == eb[1] && ea[2] == eb[2] && ea[3] == eb[3] && ea[4] == eb[4]
        && ea[5] == eb[5]);
    assert(ka[6] == kb[6]);
    law_state_rank_is_injective(a.state, b.state);
    assert(ka[7] == token_key(a.token)[0] && kb[7] == token_key(b.token)[0]);
    assert(ka[8] == token_key(a.token)[1] && kb[8] == token_key(b.token)[1]);
}

/// The key of a row tells the whole row.
pub proof fn lemma_row_key_injective(a: NativeSocketRow, b: NativeSocketRow)
    requires
        row_key(a) == row_key(b),
    ensures
        a.same_row(b),
{
    let ka = row_key(a);
    let kb = row_key(b);
    let sa = socket_key(a.socket);
    let sb = socket_key(b.socket);
    assert(sa.len() == 9 && sb.len() == 9);
    assert(sa =~= ka.take(9));
    assert(sb =~= kb.take(9));
    lemma_socket_key_injective(a.socket, b.socket);
    let ta = timer_key(a.socket.timer);
    let tb = timer_key(b.socket.timer);
    assert(ta =~= ka.subrange(9, 14));
    assert(tb =~= kb.subrange(9, 14));
    assert(ta[0] == tb[0] && ta[1] == tb[1] && ta[2] == tb[2] && ta[3] == tb[3] && ta[4] == tb[4]);
    assert(a.socket.timer == b.socket.timer);
    let ca = completeness_key(a.owner_completeness);
    let cb = completeness_key(b.owner_completeness);
    assert(ca =~= ka.subrange(14, 24));
    assert(cb =~= kb.subrange(14, 24));
    assert(ca[0] == cb[0] && ca[1] == cb[1] && ca[2] == cb[2] && ca[3] == cb[3] && ca[4] == cb[4]);
    assert(ca[5] == cb[5] && ca[6] == cb[6] && ca[7] == cb[7] && ca[8] == cb[8] && ca[9] == cb[9]);
    assert(a.owner_completeness == b.owner_completeness);
    let pa = pid_key(a.owner_pids@);
    let pb = pid_key(b.owner_pids@);
    assert(pa =~= ka.skip(24));
    assert(pb =~= kb.skip(24));
    assert(a.owner_pids@ =~= b.owner_pids@) by {
        assert(pa.len() == a.owner_pids@.len() && pb.len() == b.owner_pids@.len());
        assert forall|i: int| 0 <= i < a.owner_pids@.len() implies a.owner_pids@[i]
            == b.owner_pids@[i] by {
            assert(pa[i] == pb[i]);
        }
    }
}

/// Ascending PIDs are told by how often each occurs.
proof fn lemma_sorted_pids_equal(a: Seq<u32>, b: Seq<u32>)
    requires
        pids_sorted(a),
        pids_sorted(b),
        a.to_multiset() == b.to_multiset(),
    ensures
        a == b,
    decreases a.len(),
{
    broadcast use vstd::seq_lib::group_to_multiset_ensures;
    broadcast use vstd::multiset::group_multiset_axioms;

    assert(a.to_multiset().len() == a.len() && b.to_multiset().len() == b.len());
    if a.len() == 0 {
        assert(a =~= b);
    } else {
        assert(b.contains(a[0])) by {
            assert(a.contains(a[0]));
            assert(a.to_multiset().count(a[0]) > 0);
            assert(b.to_multiset().count(a[0]) > 0);
        }
        assert(a.contains(b[0])) by {
            assert(b.contains(b[0]));
            assert(b.to_multiset().count(b[0]) > 0);
            assert(a.to_multiset().count(b[0]) > 0);
        }
        let i = choose|i: int| 0 <= i < b.len() && b[i] == a[0];
        let j = choose|j: int| 0 <= j < a.len() && a[j] == b[0];
        assert(b[0] <= b[i] && a[0] <= a[j]);
        let ra = a.remove(0);
        let rb = b.remove(0);
        assert(ra.to_multiset() == a.to_multiset().remove(a[0]));
        assert(rb.to_multiset() == b.to_multiset().remove(b[0]));
        lemma_sorted_pids_equal(ra, rb);
        assert(a =~= seq![a[0]] + ra);
        assert(b =~= seq![b[0]] + rb);
    }
}

/// Settling a row in two ways gives one row.
proof fn lemma_settled_once(row: NativeSocketRow, a: NativeSocketRow, b: NativeSocketRow)
    requires
        settled(row, a),
        settled(row, b),
    ensures
        a.same_row(b),
{
    lemma_sorted_pids_equal(a.owner_pids@, b.owner_pids@);
}

/// The order in which the host reports sockets does not matter: the same reports in
/// another order have the same canonical form, row by row.
pub proof fn law_source_order_does_not_matter(
    rows: Seq<NativeSocketRow>,
    order: Seq<usize>,
    a: Seq<NativeSocketRow>,
    b: Seq<NativeSocketRow>,
)
    requires
        rows.len() <= usize::MAX,
        crate::bags::rearranges(order, rows.len()),
        canonical(rows, a),
        canonical(picked(rows, order), b),
    ensures
        a.len() == b.len(),
        forall|i: int| 0 <= i < a.len() ==> (#[trigger] a[i]).same_row(b[i]),
{
    let pa = choose|positions: Seq<usize>| #[trigger] canonical_by(rows, a, positions);
    let pb = choose|positions: Seq<usize>| #[trigger]
        canonical_by(picked(rows, order), b, positions);
    // One settled form of each reported row, taken from the first result.
    let forms = Seq::new(
        rows.len(),
        |i: int| row_key(a[choose|k: int| 0 <= k < pa.len() && #[trigger] pa[k] == i as usize]),
    );
    assert forall|i: int| #![trigger rows[i]] 0 <= i < rows.len() implies exists|k: int|
        0 <= k < pa.len() && #[trigger] pa[k] == i as usize by {
        assert(pa.contains(i as usize));
    }
    assert(row_keys(a) =~= picked(forms, pa)) by {
        assert forall|k: int| 0 <= k < a.len() implies row_keys(a)[k] == picked(forms, pa)[k] by {
            let i = pa[k] as int;
            assert(0 <= i < rows.len());
            let m = choose|m: int| 0 <= m < pa.len() && #[trigger] pa[m] == i as usize;
            assert(pa[k] == i as usize);
            assert(m == k) by {
                if m != k {
                    assert(pa[m] != pa[k]);
                }
            }
        }
    }
    let moved = picked(forms, order);
    assert(row_keys(b) =~= picked(moved, pb)) by {
        assert forall|k: int| 0 <= k < b.len() implies row_keys(b)[k] == picked(moved, pb)[k] by {
            let i = order[pb[k] as int] as int;
            assert(0 <= pb[k] < rows.len());
            assert(0 <= i < rows.len());
            assert(picked(rows, order)[pb[k] as int] == rows[i]);
            let m = choose|m: int| 0 <= m < pa.len() && #[trigger] pa[m] == i as usize;
            assert(settled(rows[pa[m] as int], a[m]));
            assert(settled(rows[i], b[k]));
            lemma_settled_once(rows[i], a[m], b[k]);
            assert(row_key(a[m]) == row_key(b[k]));
        }
    }
    lemma_picked_bag(forms, pa);
    lemma_picked_bag(forms, order);
    lemma_picked_bag(moved, pb);
    lemma_sorted_bags_equal(row_keys(a), row_keys(b));
    assert forall|i: int| 0 <= i < a.len() implies (#[trigger] a[i]).same_row(b[i]) by {
        assert(row_keys(a)[i] == row_keys(b)[i]);
        lemma_row_key_injective(a[i], b[i]);
    }
}

} // verus!
