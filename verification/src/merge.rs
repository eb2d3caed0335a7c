//! What two passes leave uncertain, put together.

use vstd::prelude::*;
use crate::bags::key_views;
use crate::evidence::{EvidenceGapCode, OwnerCompleteness};
use crate::native::{opt_number, socket_key, CollectedPass, NativeSocketRow};
use crate::observation::{gap_key, gap_key_of, EvidenceGap, ObservationError};
use crate::order::{before, key_le, lemma_key_antisymmetric, lemma_key_transitive, orders_range, stable_order};
use crate::passes::{group_says, group_unions, socket_keys, socket_keys_of, Uncertainty};

verus! {

/// Some gap of the list says what this one says, and for at least as many PIDs.
pub open spec fn covers_gap(gaps: Seq<EvidenceGap>, gap: EvidenceGap) -> bool {
    exists|i: int|
        0 <= i < gaps.len() && gap_key(#[trigger] gaps[i]) == gap_key(gap) && opt_number(
            gap.affected_pids,
        ) <= opt_number(gaps[i].affected_pids)
}

/// Gaps in their order, no two of which say the same.
pub open spec fn gaps_distinct(gaps: Seq<EvidenceGap>) -> bool {
    forall|i: int, j: int|
        #![trigger gaps[i], gaps[j]]
        0 <= i < j < gaps.len() ==> key_le(gap_key(gaps[i]), gap_key(gaps[j])) && gap_key(gaps[i])
            != gap_key(gaps[j])
}

/// The gaps of a list, each said once: where several say the same, the one for the most
/// PIDs.
pub open spec fn gaps_merged(all: Seq<EvidenceGap>, r: Seq<EvidenceGap>) -> bool {
    &&& gaps_distinct(r)
    &&& forall|i: int| 0 <= i < r.len() ==> all.contains(#[trigger] r[i])
    &&& forall|i: int| 0 <= i < all.len() ==> covers_gap(r, #[trigger] all[i])
}

/// Put gaps in order and say each once.
pub fn merge_gaps(all: &Vec<EvidenceGap>) -> (r: Vec<EvidenceGap>)
    ensures
        gaps_merged(all@, r@),
        r.len() <= all.len(),
{
    let mut keys: Vec<Vec<u128>> = Vec::new();
    let mut i: usize = 0;
    while i < all.len()
        invariant
            i <= all.len(),
            keys.len() == i,
            forall|k: int| 0 <= k < i ==> (#[trigger] keys@[k])@ == gap_key(all@[k]),
        decreases all.len() - i,
    {
        keys.push(gap_key_of(&all[i]));
        i = i + 1;
    }
    let positions = stable_order(&keys);
    let mut out: Vec<EvidenceGap> = Vec::new();
    let mut p: usize = 0;
    while p < positions.len()
        invariant
            p <= positions.len(),
            keys.len() == all.len(),
            orders_range(keys@, 0, keys.len() as int, positions@),
            forall|k: int| 0 <= k < all.len() ==> (#[trigger] keys@[k])@ == gap_key(all@[k]),
            out.len() <= p,
            gaps_distinct(out@),
            forall|k: int| 0 <= k < out.len() ==> all@.contains(#[trigger] out@[k]),
            forall|q: int|
                #![trigger positions@[q]]
                0 <= q < p ==> covers_gap(out@, all@[positions@[q] as int]),
            p > 0 ==> out.len() > 0 && gap_key(out@.last()) == keys@[positions@[p - 1] as int]@,
        decreases positions.len() - p,
    {
        let at: usize = positions[p];
        let gap = &all[at];
        let ghost listed = out@;
        let repeats: bool = if out.len() > 0 {
            crate::bags::keys_equal(&gap_key_of(&out[out.len() - 1]), &keys[at])
        } else {
            false
        };
        if repeats {
            let last: usize = out.len() - 1;
            let more: bool = match (gap.affected_pids, out[last].affected_pids) {
                (Some(new), Some(old_count)) => new > old_count,
                (Some(_), None) => true,
                (None, _) => false,
            };
            if more {
                out.set(last, gap.duplicate());
            }
            proof {
                assert forall|k: int| 0 <= k < out.len() implies gap_key(#[trigger] out@[k])
                    == gap_key(listed[k]) by {}
                assert forall|k: int| 0 <= k < out.len() implies all@.contains(
                    #[trigger] out@[k],
                ) by {
                    if k == last && more {
                        assert(all@[at as int] == out@[k]);
                    } else {
                        assert(out@[k] == listed[k]);
                    }
                }
                assert forall|a: int, b: int| #![trigger out@[a], out@[b]] 0 <= a < b
                    < out.len() implies key_le(gap_key(out@[a]), gap_key(out@[b])) && gap_key(
                    out@[a],
                ) != gap_key(out@[b]) by {
                    assert(gap_key(out@[a]) == gap_key(listed[a]));
                    assert(gap_key(out@[b]) == gap_key(listed[b]));
                }
                assert forall|q: int| #![trigger positions@[q]] 0 <= q < p + 1 implies covers_gap(
                    out@,
                    all@[positions@[q] as int],
                ) by {
                    if q < p {
                        let said = all@[positions@[q] as int];
                        assert(covers_gap(listed, said));
                        let k = choose|k: int|
                            0 <= k < listed.len() && gap_key(#[trigger] listed[k]) == gap_key(said)
                                && opt_number(said.affected_pids) <= opt_number(
                                listed[k].affected_pids,
                            );
                        assert(gap_key(out@[k]) == gap_key(said));
                    } else {
                        assert(gap_key(out@[last as int]) == gap_key(*gap));
                    }
                }
            }
        } else {
            out.push(gap.duplicate());
            proof {
                assert(out@ =~= listed.push(*gap));
                assert(all@[at as int] == out@[listed.len() as int]);
                assert forall|a: int, b: int| #![trigger out@[a], out@[b]] 0 <= a < b
                    < out.len() implies key_le(gap_key(out@[a]), gap_key(out@[b])) && gap_key(
                    out@[a],
                ) != gap_key(out@[b]) by {
                    if b == listed.len() {
                        let top = listed.last();
                        assert(before(
                            keys@,
                            positions@[p - 1] as int,
                            positions@[p as int] as int,
                        ));
                        assert(key_le(gap_key(top), gap_key(*gap)));
                        if a < listed.len() - 1 {
                            assert(listed[listed.len() - 1] == top);
                            assert(key_le(gap_key(listed[a]), gap_key(top)));
                            lemma_key_transitive(gap_key(listed[a]), gap_key(top), gap_key(*gap));
                            if gap_key(listed[a]) == gap_key(*gap) {
                                lemma_key_antisymmetric(gap_key(top), gap_key(*gap));
                            }
                        }
                    }
                }
                assert forall|q: int| #![trigger positions@[q]] 0 <= q < p + 1 implies covers_gap(
                    out@,
                    all@[positions@[q] as int],
                ) by {
                    if q < p {
                        let said = all@[positions@[q] as int];
                        assert(covers_gap(listed, said));
                        let k = choose|k: int|
                            0 <= k < listed.len() && gap_key(#[trigger] listed[k]) == gap_key(said)
                                && opt_number(said.affected_pids) <= opt_number(
                                listed[k].affected_pids,
                            );
                        assert(gap_key(out@[k]) == gap_key(said));
                    } else {
                        assert(gap_key(out@[listed.len() as int]) == gap_key(*gap));
                    }
                }
            }
        }
        p = p + 1;
    }
    proof {
        assert forall|k: int| 0 <= k < all.len() implies covers_gap(out@, #[trigger] all@[k]) by {
            assert(positions@.contains(k as usize));
            let q = choose|q: int| 0 <= q < positions.len() && positions@[q] == k as usize;
            assert(covers_gap(out@, all@[positions@[q] as int]));
        }
    }
    out
}

pub open spec fn uncertainties(rows: Seq<NativeSocketRow>) -> Seq<Uncertainty> {
    rows.map_values(|row: NativeSocketRow| Uncertainty::of(row.owner_completeness))
}

/// All that either pass says of a socket's owners comes to this.
pub open spec fn socket_says(
    a: Seq<NativeSocketRow>,
    b: Seq<NativeSocketRow>,
    key: Seq<u128>,
    u: Uncertainty,
) -> bool {
    group_says(socket_keys(a + b), uncertainties(a + b), key, u)
}

/// What both passes say of a socket's owners, as a completeness.
pub open spec fn socket_completeness(
    a: Seq<NativeSocketRow>,
    b: Seq<NativeSocketRow>,
    key: Seq<u128>,
    completeness: OwnerCompleteness,
) -> bool {
    exists|u: Uncertainty| #[trigger]
        socket_says(a, b, key, u) && u.completeness() == Some(completeness)
}

/// The row of the second pass, with what both passes say of its socket.
pub open spec fn row_merged(
    a: Seq<NativeSocketRow>,
    b: Seq<NativeSocketRow>,
    row: NativeSocketRow,
    r: NativeSocketRow,
) -> bool {
    &&& r.socket == row.socket
    &&& r.owner_pids == row.owner_pids
    &&& socket_completeness(a, b, socket_key(row.socket), r.owner_completeness)
}

/// A number of two parts that stays at its largest value.
pub open spec fn saturating_sum(a: u64, b: u64) -> u64 {
    if a + b <= u64::MAX {
        (a + b) as u64
    } else {
        u64::MAX
    }
}

/// The second pass with the doubts of both.
pub open spec fn passes_merged(a: CollectedPass, b: CollectedPass, r: CollectedPass) -> bool {
    &&& r.rows.len() == b.rows.len()
    &&& forall|i: int|
        0 <= i < r.rows.len() ==> row_merged(a.rows@, b.rows@, b.rows@[i], #[trigger] r.rows@[i])
    &&& Uncertainty::of(a.global_owner_completeness).joined(
        Uncertainty::of(b.global_owner_completeness),
    ).completeness() == Some(r.global_owner_completeness)
    &&& gaps_merged(a.evidence_gaps@ + b.evidence_gaps@, r.evidence_gaps@)
    &&& r.processes_by_pid == b.processes_by_pid
    &&& r.omitted_evidence_gap_count == saturating_sum(
        a.omitted_evidence_gap_count,
        b.omitted_evidence_gap_count,
    )
}

/// The reasons of some socket, or of the whole, are too many.
pub open spec fn too_many_reasons(a: CollectedPass, b: CollectedPass) -> bool {
    ||| Uncertainty::of(a.global_owner_completeness).joined(
        Uncertainty::of(b.global_owner_completeness),
    ).completeness() is None
    ||| exists|i: int, u: Uncertainty|
        0 <= i < b.rows.len() && #[trigger] socket_says(
            a.rows@,
            b.rows@,
            socket_key(b.rows@[i].socket),
            u,
        ) && u.completeness() is None
}

/// The doubts of a group are one value.
proof fn lemma_says_one(
    keys: Seq<Seq<u128>>,
    said: Seq<Uncertainty>,
    key: Seq<u128>,
    u: Uncertainty,
    v: Uncertainty,
)
    requires
        group_says(keys, said, key, u),
        group_says(keys, said, key, v),
    ensures
        u == v,
{
    assert(u.reasons.has(EvidenceGapCode::NativeFieldUnavailable) == v.reasons.has(
        EvidenceGapCode::NativeFieldUnavailable,
    ));
    assert(u.reasons.has(EvidenceGapCode::NoncriticalEvidenceTruncated) == v.reasons.has(
        EvidenceGapCode::NoncriticalEvidenceTruncated,
    ));
    assert(u.reasons.has(EvidenceGapCode::ObservationRaced) == v.reasons.has(
        EvidenceGapCode::ObservationRaced,
    ));
    assert(u.reasons.has(EvidenceGapCode::OwnerAttributionIncomplete) == v.reasons.has(
        EvidenceGapCode::OwnerAttributionIncomplete,
    ));
    assert(u.reasons.has(EvidenceGapCode::OwnerDisappeared) == v.reasons.has(
        EvidenceGapCode::OwnerDisappeared,
    ));
    assert(u.reasons.has(EvidenceGapCode::OwnerPermissionDenied) == v.reasons.has(
        EvidenceGapCode::OwnerPermissionDenied,
    ));
    assert(u.reasons.has(EvidenceGapCode::ProcessIdentityUnavailable) == v.reasons.has(
        EvidenceGapCode::ProcessIdentityUnavailable,
    ));
    assert(u.reasons.has(EvidenceGapCode::ProcessMetadataUnavailable) == v.reasons.has(
        EvidenceGapCode::ProcessMetadataUnavailable,
    ));
    assert(u.reasons.has(EvidenceGapCode::ScopeExcluded) == v.reasons.has(
        EvidenceGapCode::ScopeExcluded,
    ));
}

/// What both passes say of each socket of the second, as a completeness; `None` where the
/// reasons of one are too many.
fn merged_completeness(a: &Vec<NativeSocketRow>, b: &Vec<NativeSocketRow>) -> (r: Option<
    Vec<OwnerCompleteness>,
>)
    ensures
        match r {
            Some(list) => list.len() == b.len() && forall|i: int|
                0 <= i < b.len() ==> socket_completeness(
                    a@,
                    b@,
                    socket_key(b@[i].socket),
                    #[trigger] list@[i],
                ),
            None => exists|i: int, u: Uncertainty|
                0 <= i < b.len() && #[trigger] socket_says(a@, b@, socket_key(b@[i].socket), u)
                    && u.completeness() is None,
        },
{
    let mut keys = socket_keys_of(a);
    let ghost keys_a = keys@;
    let mut keys_b = socket_keys_of(b);
    let ghost keys_second = keys_b@;
    keys.append(&mut keys_b);
    proof {
        assert(keys@ =~= keys_a + keys_second);
        assert(key_views(keys@) =~= key_views(keys_a) + key_views(keys_second));
        assert(socket_keys(a@ + b@) =~= socket_keys(a@) + socket_keys(b@));
    }
    let mut said: Vec<Uncertainty> = Vec::new();
    let mut i: usize = 0;
    while i < a.len()
        invariant
            i <= a.len(),
            said@ == uncertainties(a@.take(i as int)),
        decreases a.len() - i,
    {
        said.push(Uncertainty::from_completeness(a[i].owner_completeness));
        assert(uncertainties(a@.take(i + 1)) =~= uncertainties(a@.take(i as int)).push(
            Uncertainty::of(a@[i as int].owner_completeness),
        ));
        i = i + 1;
    }
    assert(a@.take(a.len() as int) =~= a@);
    let mut j: usize = 0;
    assert(said@ =~= uncertainties(a@ + b@.take(0)));
    while j < b.len()
        invariant
            j <= b.len(),
            said@ == uncertainties(a@ + b@.take(j as int)),
        decreases b.len() - j,
    {
        said.push(Uncertainty::from_completeness(b[j].owner_completeness));
        assert(uncertainties(a@ + b@.take(j + 1)) =~= uncertainties(a@ + b@.take(j as int)).push(
            Uncertainty::of(b@[j as int].owner_completeness),
        ));
        j = j + 1;
    }
    assert(b@.take(b.len() as int) =~= b@);
    let unions = group_unions(&keys, &said);
    let mut list: Vec<OwnerCompleteness> = Vec::new();
    let mut k: usize = 0;
    while k < b.len()
        invariant
            k <= b.len(),
            unions.len() == a.len() + b.len(),
            list.len() == k,
            key_views(keys@) == socket_keys(a@ + b@),
            said@ == uncertainties(a@ + b@),
            forall|i: int|
                0 <= i < unions.len() ==> group_says(
                    key_views(keys@),
                    said@,
                    key_views(keys@)[i],
                    #[trigger] unions@[i],
                ),
            forall|i: int|
                0 <= i < k ==> socket_completeness(
                    a@,
                    b@,
                    socket_key(b@[i].socket),
                    #[trigger] list@[i],
                ),
        decreases b.len() - k,
    {
        let union = unions[a.len() + k];
        assert(socket_keys(a@ + b@)[a.len() + k] == socket_key(b@[k as int].socket));
        assert(socket_says(a@, b@, socket_key(b@[k as int].socket), union));
        match union.to_completeness() {
            Some(completeness) => {
                list.push(completeness);
            },
            None => {
                return None;
            },
        }
        k = k + 1;
    }
    Some(list)
}

/// Add the doubts of the first pass to the second.
pub fn merge_attempt_uncertainty(pass_a: &CollectedPass, pass_b: &mut CollectedPass) -> (r: Result<
    (),
    ObservationError,
>)
    ensures
        r is Ok <==> !too_many_reasons(*pass_a, *old(pass_b)),
        r is Ok ==> passes_merged(*pass_a, *old(pass_b), *final(pass_b)),
        r is Err ==> r->Err_0 == ObservationError::OwnerReasonLimitExceeded && *final(pass_b)
            == *old(pass_b),
{
    let global = match Uncertainty::from_completeness(pass_a.global_owner_completeness).join(
        Uncertainty::from_completeness(pass_b.global_owner_completeness),
    ).to_completeness() {
        Some(global) => global,
        None => {
            return Err(ObservationError::OwnerReasonLimitExceeded);
        },
    };
    let list = match merged_completeness(&pass_a.rows, &pass_b.rows) {
        Some(list) => list,
        None => {
            return Err(ObservationError::OwnerReasonLimitExceeded);
        },
    };
    let ghost a = pass_a.rows@;
    let ghost b = pass_b.rows@;
    proof {
        assert(!too_many_reasons(*pass_a, *pass_b)) by {
            assert forall|i: int, u: Uncertainty|
                0 <= i < b.len() && #[trigger] socket_says(
                    a,
                    b,
                    socket_key(b[i].socket),
                    u,
                ) implies u.completeness() is Some by {
                assert(socket_completeness(a, b, socket_key(b[i].socket), list@[i]));
                let v = choose|v: Uncertainty| #[trigger]
                    socket_says(a, b, socket_key(b[i].socket), v) && v.completeness() == Some(
                        list@[i],
                    );
                lemma_says_one(
                    socket_keys(a + b),
                    uncertainties(a + b),
                    socket_key(b[i].socket),
                    u,
                    v,
                );
            }
        }
    }
    let mut all: Vec<EvidenceGap> = Vec::new();
    let mut g: usize = 0;
    assert(pass_a.evidence_gaps@.take(0) =~= Seq::empty());
    while g < pass_a.evidence_gaps.len()
        invariant
            g <= pass_a.evidence_gaps.len(),
            all@ == pass_a.evidence_gaps@.take(g as int),
        decreases pass_a.evidence_gaps.len() - g,
    {
        all.push(pass_a.evidence_gaps[g].duplicate());
        assert(all@ =~= pass_a.evidence_gaps@.take(g + 1));
        g = g + 1;
    }
    assert(pass_a.evidence_gaps@.take(pass_a.evidence_gaps.len() as int) =~= pass_a.evidence_gaps@);
    let ghost gaps_b = pass_b.evidence_gaps@;
    all.append(&mut pass_b.evidence_gaps);
    assert(all@ =~= pass_a.evidence_gaps@ + gaps_b);
    pass_b.evidence_gaps = merge_gaps(&all);
    pass_b.global_owner_completeness = global;
    pass_b.omitted_evidence_gap_count = pass_a.omitted_evidence_gap_count.saturating_add(
        pass_b.omitted_evidence_gap_count,
    );
    let mut i: usize = 0;
    while i < pass_b.rows.len()
        invariant
            i <= pass_b.rows.len(),
            pass_b.rows.len() == b.len(),
            list.len() == b.len(),
            forall|k: int| i <= k < b.len() ==> #[trigger] pass_b.rows@[k] == b[k],
            forall|k: int|
                0 <= k < b.len() ==> socket_completeness(
                    a,
                    b,
                    socket_key(b[k].socket),
                    #[trigger] list@[k],
                ),
            forall|k: int| 0 <= k < i ==> row_merged(a, b, b[k], #[trigger] pass_b.rows@[k]),
            gaps_merged(pass_a.evidence_gaps@ + gaps_b, pass_b.evidence_gaps@),
            pass_b.global_owner_completeness == global,
            pass_b.processes_by_pid == old(pass_b).processes_by_pid,
            pass_b.omitted_evidence_gap_count == saturating_sum(
                pass_a.omitted_evidence_gap_count,
                old(pass_b).omitted_evidence_gap_count,
            ),
        decreases pass_b.rows.len() - i,
    {
        pass_b.rows[i].owner_completeness = list[i];
        i = i + 1;
    }
    Ok(())
}

} // verus!
