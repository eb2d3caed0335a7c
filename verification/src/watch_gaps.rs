//! The gaps that a written event reports: bounded, ordered and counted.

use std::collections::HashMap;
use vstd::prelude::*;
use crate::evidence::{EndpointIdentity, EvidenceImpact};
use crate::observation::{
    gap_key, gap_not_after, gap_precedes_or_ties, owner_pid_of, EvidenceGap, NetworkSnapshot,
    OwnerObservation, SocketObservation,
};
use crate::order::{lemma_key_reflexive, lemma_key_total, lemma_key_transitive};
use crate::query::FilterTerm;
use crate::watch_event::WatchEvent;
use crate::watch_filter::{owner_pid, owner_pid_constraint, pid_constraint, OwnerPidConstraint};

verus! {

/// The most gaps that one event writes out.
pub const WATCH_EVENT_GAPS_MAX: usize = 8;

/// Gaps in order, equal ones in order of arrival.
pub open spec fn gaps_sorted(gaps: Seq<&EvidenceGap>) -> bool {
    forall|i: int, j: int|
        #![trigger gaps[i], gaps[j]]
        0 <= i <= j < gaps.len() ==> gap_not_after(*gaps[i], *gaps[j])
}

/// Where a new gap goes: behind every retained gap that is not after it.
pub open spec fn insertion_point(gaps: Seq<&EvidenceGap>, gap: EvidenceGap) -> int
    decreases gaps.len(),
{
    if gaps.len() == 0 || !gap_not_after(*gaps[0], gap) {
        0
    } else {
        1 + insertion_point(gaps.drop_first(), gap)
    }
}

/// The bounded list with a gap added: the first ones of the ordered list that
/// includes it.
pub open spec fn bounded_insert<'a>(gaps: Seq<&'a EvidenceGap>, gap: &'a EvidenceGap) -> Seq<
    &'a EvidenceGap,
> {
    let all = gaps.insert(insertion_point(gaps, *gap), gap);
    if all.len() <= WATCH_EVENT_GAPS_MAX {
        all
    } else {
        all.take(WATCH_EVENT_GAPS_MAX as int)
    }
}

proof fn lemma_insertion_point(gaps: Seq<&EvidenceGap>, gap: EvidenceGap)
    ensures
        0 <= insertion_point(gaps, gap) <= gaps.len(),
        forall|i: int|
            0 <= i < insertion_point(gaps, gap) ==> gap_not_after(*#[trigger] gaps[i], gap),
        insertion_point(gaps, gap) < gaps.len() ==> !gap_not_after(
            *gaps[insertion_point(gaps, gap)],
            gap,
        ),
    decreases gaps.len(),
{
    if gaps.len() > 0 && gap_not_after(*gaps[0], gap) {
        let rest = gaps.drop_first();
        lemma_insertion_point(rest, gap);
        assert forall|i: int| 0 <= i < insertion_point(gaps, gap) implies gap_not_after(
            *#[trigger] gaps[i],
            gap,
        ) by {
            if i > 0 {
                assert(rest[i - 1] == gaps[i]);
            }
        }
        if insertion_point(gaps, gap) < gaps.len() {
            assert(rest[insertion_point(rest, gap)] == gaps[insertion_point(gaps, gap)]);
        }
    }
}

proof fn lemma_inserted_sorted<'a>(gaps: Seq<&'a EvidenceGap>, gap: &'a EvidenceGap)
    requires
        gaps_sorted(gaps),
    ensures
        gaps_sorted(gaps.insert(insertion_point(gaps, *gap), gap)),
{
    let p = insertion_point(gaps, *gap);
    lemma_insertion_point(gaps, *gap);
    let all = gaps.insert(p, gap);
    assert forall|i: int, j: int|
        #![trigger all[i], all[j]]
        0 <= i <= j < all.len() implies gap_not_after(*all[i], *all[j]) by {
        if i == j {
            lemma_key_reflexive(gap_key(*all[i]));
        } else if j < p {
            assert(all[i] == gaps[i] && all[j] == gaps[j]);
        } else if j == p {
            assert(all[i] == gaps[i]);
        } else if i < p {
            assert(all[i] == gaps[i] && all[j] == gaps[j - 1]);
        } else if i == p {
            assert(all[j] == gaps[j - 1]);
            lemma_key_total(gap_key(*gap), gap_key(*gaps[p]));
            assert(gap_not_after(*gaps[p], *gaps[j - 1]));
            lemma_key_transitive(gap_key(*gap), gap_key(*gaps[p]), gap_key(*gaps[j - 1]));
        } else {
            assert(all[i] == gaps[i - 1] && all[j] == gaps[j - 1]);
        }
    }
}

/// Adding a gap keeps the list bounded and in order, and what is left out, if
/// anything, comes after everything kept.
pub proof fn law_bounded_insert_keeps_the_first_gaps(gaps: Seq<&EvidenceGap>, gap: &EvidenceGap)
    requires
        gaps_sorted(gaps),
        gaps.len() <= WATCH_EVENT_GAPS_MAX,
    ensures
        gaps_sorted(bounded_insert(gaps, gap)),
        bounded_insert(gaps, gap).len() == if gaps.len() < WATCH_EVENT_GAPS_MAX {
            (gaps.len() + 1) as nat
        } else {
            WATCH_EVENT_GAPS_MAX as nat
        },
        forall|i: int, j: int|
            #![trigger bounded_insert(gaps, gap)[i], gaps.insert(insertion_point(gaps, *gap), gap)[j]]
            0 <= i < bounded_insert(gaps, gap).len() && bounded_insert(gaps, gap).len() <= j
                < gaps.len() + 1 ==> gap_not_after(
                *bounded_insert(gaps, gap)[i],
                *gaps.insert(insertion_point(gaps, *gap), gap)[j],
            ),
{
    lemma_insertion_point(gaps, *gap);
    lemma_inserted_sorted(gaps, gap);
}

/// Keep a gap if it is among the first ones.
pub fn retain_bounded_gap<'a>(gaps: &mut Vec<&'a EvidenceGap>, gap: &'a EvidenceGap)
    requires
        gaps_sorted(old(gaps)@),
        old(gaps).len() <= WATCH_EVENT_GAPS_MAX,
    ensures
        final(gaps)@ == bounded_insert(old(gaps)@, gap),
        gaps_sorted(final(gaps)@),
        final(gaps).len() <= WATCH_EVENT_GAPS_MAX,
{
    let mut position: usize = 0;
    let ghost before = gaps@;
    assert(before.skip(0) =~= before);
    while position < gaps.len() && gap_precedes_or_ties(gaps[position], gap)
        invariant
            position <= gaps.len(),
            gaps@ == before,
            insertion_point(before, *gap) == position + insertion_point(
                before.skip(position as int),
                *gap,
            ),
        decreases gaps.len() - position,
    {
        assert(before.skip(position as int).drop_first() =~= before.skip(position + 1));
        position = position + 1;
    }
    proof {
        law_bounded_insert_keeps_the_first_gaps(before, gap);
        lemma_insertion_point(before, *gap);
        if position < before.len() {
            assert(before.skip(position as int)[0] == before[position as int]);
        }
        assert(insertion_point(before, *gap) == position);
    }
    if gaps.len() < WATCH_EVENT_GAPS_MAX {
        gaps.insert(position, gap);
    } else if position < WATCH_EVENT_GAPS_MAX {
        gaps.insert(position, gap);
        gaps.truncate(WATCH_EVENT_GAPS_MAX);
        assert(gaps@ =~= bounded_insert(before, gap));
    } else {
        assert(gaps@ =~= bounded_insert(before, gap));
    }
}

/// Positions of gaps of one class: the first ones and how many there are.
#[derive(Debug)]
pub struct GapBucket {
    pub indices: Vec<usize>,
    pub total: u64,
}

impl GapBucket {
    /// The bucket stands for these positions.
    pub open spec fn holds(self, positions: Seq<usize>) -> bool {
        &&& self.indices@ == if positions.len() <= WATCH_EVENT_GAPS_MAX {
            positions
        } else {
            positions.take(WATCH_EVENT_GAPS_MAX as int)
        }
        &&& self.total == if positions.len() <= u64::MAX {
            positions.len()
        } else {
            u64::MAX as nat
        }
    }

    pub fn empty() -> (r: GapBucket)
        ensures
            r.holds(Seq::empty()),
            r.indices@.len() == 0,
            r.total == 0,
    {
        GapBucket { indices: Vec::new(), total: 0 }
    }

    /// Count one more position and keep it while there is room.
    pub fn add(&mut self, index: usize)
        ensures
            final(self).total == if old(self).total < u64::MAX {
                (old(self).total + 1) as u64
            } else {
                u64::MAX
            },
            final(self).indices@ == if old(self).indices.len() < WATCH_EVENT_GAPS_MAX {
                old(self).indices@.push(index)
            } else {
                old(self).indices@
            },
            forall|positions: Seq<usize>| #[trigger]
                old(self).holds(positions) ==> final(self).holds(positions.push(index)),
    {
        let ghost before = *self;
        self.total = self.total.saturating_add(1);
        if self.indices.len() < WATCH_EVENT_GAPS_MAX {
            self.indices.push(index);
        }
        assert forall|positions: Seq<usize>| #[trigger] before.holds(positions) implies self.holds(
            positions.push(index),
        ) by {
            let next = positions.push(index);
            if next.len() > WATCH_EVENT_GAPS_MAX {
                assert(next.take(WATCH_EVENT_GAPS_MAX as int) =~= self.indices@);
            }
        }
    }
}

/// The bucket of one endpoint.
#[derive(Debug)]
pub struct GapSlot {
    pub key: EndpointIdentity,
    pub bucket: GapBucket,
}

/// Buckets by endpoint; no endpoint occurs twice.
#[derive(Debug)]
pub struct GapBuckets {
    pub slots: Vec<GapSlot>,
}

impl GapBuckets {
    pub open spec fn wf(self) -> bool {
        forall|i: int, j: int|
            0 <= i < self.slots.len() && 0 <= j < self.slots.len() && (#[trigger] self.slots@[i]).key
                == (#[trigger] self.slots@[j]).key ==> i == j
    }

    /// Every key's bucket stands for the positions that `positions` gives it; a key
    /// without a bucket has none.
    pub open spec fn indexes(self, positions: spec_fn(EndpointIdentity) -> Seq<usize>) -> bool {
        &&& forall|i: int|
            0 <= i < self.slots.len() ==> (#[trigger] self.slots@[i]).bucket.holds(
                positions(self.slots@[i].key),
            )
        &&& forall|key: EndpointIdentity|
            #![trigger positions(key)]
            positions(key).len() > 0 ==> exists|i: int|
                0 <= i < self.slots.len() && (#[trigger] self.slots@[i]).key == key
    }

    pub fn empty() -> (r: GapBuckets)
        ensures
            r.slots@.len() == 0,
            r.wf(),
            r.indexes(|key: EndpointIdentity| Seq::<usize>::empty()),
    {
        GapBuckets { slots: Vec::new() }
    }

    fn find(&self, key: EndpointIdentity) -> (r: Option<usize>)
        ensures
            match r {
                Some(i) => i < self.slots.len() && self.slots@[i as int].key == key,
                None => forall|i: int|
                    0 <= i < self.slots.len() ==> (#[trigger] self.slots@[i]).key != key,
            },
    {
        let mut i: usize = 0;
        while i < self.slots.len()
            invariant
                i <= self.slots.len(),
                forall|j: int| 0 <= j < i ==> (#[trigger] self.slots@[j]).key != key,
            decreases self.slots.len() - i,
        {
            if self.slots[i].key == key {
                return Some(i);
            }
            i = i + 1;
        }
        None
    }

    /// The bucket of a key.
    pub fn get(&self, key: EndpointIdentity) -> (r: Option<&GapBucket>)
        ensures
            match r {
                Some(bucket) => exists|i: int|
                    0 <= i < self.slots.len() && (#[trigger] self.slots@[i]).key == key
                        && self.slots@[i].bucket == *bucket,
                None => forall|i: int|
                    0 <= i < self.slots.len() ==> (#[trigger] self.slots@[i]).key != key,
            },
    {
        match self.find(key) {
            Some(i) => {
                assert(self.slots@[i as int].key == key);
                Some(&self.slots[i].bucket)
            },
            None => None,
        }
    }

    /// Add a position under a key.
    fn add(
        &mut self,
        key: EndpointIdentity,
        index: usize,
        Ghost(positions): Ghost<spec_fn(EndpointIdentity) -> Seq<usize>>,
        Ghost(next): Ghost<spec_fn(EndpointIdentity) -> Seq<usize>>,
    )
        requires
            old(self).wf(),
            old(self).indexes(positions),
            next(key) == positions(key).push(index),
            forall|other: EndpointIdentity| other != key ==> #[trigger] next(other) == positions(other),
        ensures
            final(self).wf(),
            final(self).indexes(next),
    {
        let ghost before = self.slots@;
        match self.find(key) {
            Some(i) => {
                let slot = &mut self.slots[i];
                slot.bucket.add(index);
                assert(self.slots@[i as int].key == key);
                assert forall|j: int| 0 <= j < self.slots.len() implies (
                #[trigger] self.slots@[j]).bucket.holds(next(self.slots@[j].key)) by {
                    assert(before[j].bucket.holds(positions(before[j].key)));
                    if j != i {
                        assert(self.slots@[j] == before[j]);
                        assert(before[j].key != before[i as int].key);
                    }
                }
                assert forall|k: EndpointIdentity|
                    #![trigger next(k)]
                    next(k).len() > 0 implies exists|j: int|
                    0 <= j < self.slots.len() && (#[trigger] self.slots@[j]).key == k by {
                    if k != key {
                        assert(positions(k).len() > 0);
                        let j = choose|j: int| 0 <= j < before.len() && (#[trigger] before[j]).key == k;
                        assert(self.slots@[j].key == k);
                    }
                }
                assert(self.wf()) by {
                    assert forall|a: int, b: int|
                        0 <= a < self.slots.len() && 0 <= b < self.slots.len() && (
                        #[trigger] self.slots@[a]).key == (#[trigger] self.slots@[b]).key implies a
                        == b by {
                        assert(before[a].key == before[b].key);
                    }
                }
            },
            None => {
                let mut bucket = GapBucket::empty();
                proof {
                    if positions(key).len() > 0 {
                        let j = choose|j: int| 0 <= j < before.len() && (#[trigger] before[j]).key
                            == key;
                        assert(false);
                    }
                    assert(positions(key) =~= Seq::empty());
                }
                bucket.add(index);
                self.slots.push(GapSlot { key, bucket });
                let ghost last = before.len() as int;
                assert(self.slots@[last].key == key);
                assert forall|j: int| 0 <= j < self.slots.len() implies (
                #[trigger] self.slots@[j]).bucket.holds(next(self.slots@[j].key)) by {
                    if j < last {
                        assert(self.slots@[j] == before[j]);
                        assert(before[j].bucket.holds(positions(before[j].key)));
                    }
                }
                assert forall|k: EndpointIdentity|
                    #![trigger next(k)]
                    next(k).len() > 0 implies exists|j: int|
                    0 <= j < self.slots.len() && (#[trigger] self.slots@[j]).key == k by {
                    if k != key {
                        assert(positions(k).len() > 0);
                        let j = choose|j: int| 0 <= j < before.len() && (#[trigger] before[j]).key == k;
                        assert(self.slots@[j].key == k);
                    }
                }
            },
        }
    }
}

/// Every PID's bucket stands for the positions that `positions` gives it; a PID without a
/// bucket has none.
pub open spec fn pids_index(
    buckets: Map<u32, GapBucket>,
    positions: spec_fn(u32) -> Seq<usize>,
) -> bool {
    &&& forall|pid: u32| #[trigger]
        buckets.contains_key(pid) ==> buckets[pid].holds(positions(pid))
    &&& forall|pid: u32|
        #![trigger positions(pid)]
        positions(pid).len() > 0 ==> buckets.contains_key(pid)
}

/// Add a position under a PID.
fn add_under_pid(
    buckets: &mut HashMap<u32, GapBucket>,
    pid: u32,
    index: usize,
    Ghost(positions): Ghost<spec_fn(u32) -> Seq<usize>>,
    Ghost(next): Ghost<spec_fn(u32) -> Seq<usize>>,
)
    requires
        pids_index(old(buckets)@, positions),
        next(pid) == positions(pid).push(index),
        forall|other: u32| other != pid ==> #[trigger] next(other) == positions(other),
    ensures
        pids_index(final(buckets)@, next),
{
    broadcast use vstd::std_specs::hash::group_hash_axioms;

    let ghost before = buckets@;
    let mut bucket = match buckets.remove(&pid) {
        Some(bucket) => bucket,
        None => {
            assert(!before.contains_key(pid));
            assert(positions(pid) =~= Seq::empty());
            GapBucket::empty()
        },
    };
    assert(bucket.holds(positions(pid)));
    bucket.add(index);
    buckets.insert(pid, bucket);
    assert forall|other: u32| #[trigger] buckets@.contains_key(other) implies buckets@[other].holds(
        next(other),
    ) by {
        if other != pid {
            assert(before.contains_key(other));
        }
    }
}

/// The positions of the gaps of a class, in order.
pub open spec fn positions_of(
    gaps: Seq<EvidenceGap>,
    class: spec_fn(EvidenceGap) -> bool,
) -> Seq<usize>
    decreases gaps.len(),
{
    if gaps.len() == 0 {
        Seq::empty()
    } else {
        let head = positions_of(gaps.drop_last(), class);
        if class(gaps.last()) {
            head.push((gaps.len() - 1) as usize)
        } else {
            head
        }
    }
}

/// A gap about the whole observation.
pub open spec fn is_global(gap: EvidenceGap) -> bool {
    gap.endpoint is None && gap.pid is None
}

/// A gap about what some PID owns, with no endpoint known.
pub open spec fn is_endpointless_ownership(gap: EvidenceGap) -> bool {
    gap.endpoint is None && gap.pid is Some && gap.impact == EvidenceImpact::Ownership
}

/// A gap about what one PID owns, with no endpoint known.
pub open spec fn is_ownership_of(gap: EvidenceGap, pid: u32) -> bool {
    is_endpointless_ownership(gap) && pid == gap.pid->0
}

/// A gap at one endpoint.
pub open spec fn is_at_endpoint(gap: EvidenceGap, key: EndpointIdentity) -> bool {
    gap.endpoint is Some && key == gap.endpoint->0
}

/// A gap about other facts of one PID.
pub open spec fn is_about_pid(gap: EvidenceGap, pid: u32) -> bool {
    gap.endpoint is None && gap.pid is Some && gap.impact != EvidenceImpact::Ownership && pid
        == gap.pid->0
}

pub open spec fn global_positions(gaps: Seq<EvidenceGap>) -> Seq<usize> {
    positions_of(gaps, |gap: EvidenceGap| is_global(gap))
}

pub open spec fn endpointless_ownership_positions(gaps: Seq<EvidenceGap>) -> Seq<usize> {
    positions_of(gaps, |gap: EvidenceGap| is_endpointless_ownership(gap))
}

pub open spec fn ownership_positions(gaps: Seq<EvidenceGap>, pid: u32) -> Seq<usize> {
    positions_of(gaps, |gap: EvidenceGap| is_ownership_of(gap, pid))
}

pub open spec fn endpoint_positions(
    gaps: Seq<EvidenceGap>,
    key: EndpointIdentity,
) -> Seq<usize> {
    positions_of(gaps, |gap: EvidenceGap| is_at_endpoint(gap, key))
}

pub open spec fn pid_positions(gaps: Seq<EvidenceGap>, pid: u32) -> Seq<usize> {
    positions_of(gaps, |gap: EvidenceGap| is_about_pid(gap, pid))
}

proof fn lemma_positions_in_range(gaps: Seq<EvidenceGap>, class: spec_fn(EvidenceGap) -> bool)
    requires
        gaps.len() <= usize::MAX,
    ensures
        positions_of(gaps, class).len() <= gaps.len(),
        forall|i: int|
            0 <= i < positions_of(gaps, class).len() ==> (#[trigger] positions_of(gaps, class)[i])
                < gaps.len(),
    decreases gaps.len(),
{
    if gaps.len() > 0 {
        lemma_positions_in_range(gaps.drop_last(), class);
    }
}

/// The gaps of a snapshot by what they are about, so that an event finds its own
/// without a scan.
#[derive(Debug)]
pub struct GapIndex {
    pub global: GapBucket,
    pub endpointless_ownership: GapBucket,
    pub ownership_by_pid: HashMap<u32, GapBucket>,
    pub by_endpoint: GapBuckets,
    pub by_pid: HashMap<u32, GapBucket>,
    pub omitted_endpointless_ownership: u64,
}

impl GapIndex {
    /// The buckets stand for exactly the gaps of the list, each in its class.
    pub open spec fn covers(self, gaps: Seq<EvidenceGap>) -> bool {
        &&& self.global.holds(global_positions(gaps))
        &&& self.endpointless_ownership.holds(endpointless_ownership_positions(gaps))
        &&& pids_index(self.ownership_by_pid@, |pid: u32| ownership_positions(gaps, pid))
        &&& self.by_endpoint.wf()
        &&& self.by_endpoint.indexes(|key: EndpointIdentity| endpoint_positions(gaps, key))
        &&& pids_index(self.by_pid@, |pid: u32| pid_positions(gaps, pid))
    }

    /// The index of a snapshot. Gaps that were not kept count as ownership gaps
    /// without an endpoint where ownership is known to be incomplete.
    pub open spec fn reflects(self, snapshot: NetworkSnapshot) -> bool {
        &&& self.covers(snapshot.evidence_gaps@)
        &&& self.omitted_endpointless_ownership == if snapshot.owner_completeness.complete() {
            0
        } else {
            snapshot.omitted_evidence_gap_count
        }
    }

    pub fn new(snapshot: &NetworkSnapshot) -> (r: GapIndex)
        ensures
            r.reflects(*snapshot),
    {
        let omitted: u64 = if snapshot.owner_completeness.is_complete() {
            0
        } else {
            snapshot.omitted_evidence_gap_count
        };
        let mut global = GapBucket::empty();
        let mut endpointless = GapBucket::empty();
        let mut ownership: HashMap<u32, GapBucket> = HashMap::new();
        let mut by_endpoint = GapBuckets::empty();
        let mut by_pid: HashMap<u32, GapBucket> = HashMap::new();
        let ghost all = snapshot.evidence_gaps@;
        let ghost none = all.take(0);
        proof {
            assert(none.len() == 0);
            assert((|key: EndpointIdentity| Seq::<usize>::empty()) =~= (|key: EndpointIdentity|
                endpoint_positions(none, key)));
        }
        let mut i: usize = 0;
        while i < snapshot.evidence_gaps.len()
            invariant
                i <= snapshot.evidence_gaps.len(),
                all == snapshot.evidence_gaps@,
                global.holds(global_positions(all.take(i as int))),
                endpointless.holds(endpointless_ownership_positions(all.take(i as int))),
                pids_index(
                    ownership@,
                    |pid: u32| ownership_positions(all.take(i as int), pid),
                ),
                by_endpoint.wf(),
                by_endpoint.indexes(|key: EndpointIdentity| endpoint_positions(all.take(i as int), key)),
                pids_index(by_pid@, |pid: u32| pid_positions(all.take(i as int), pid)),
            decreases snapshot.evidence_gaps.len() - i,
        {
            let gap = &snapshot.evidence_gaps[i];
            let ghost head = all.take(i as int);
            let ghost next = all.take(i + 1);
            proof {
                assert(next.drop_last() =~= head);
                assert(next.last() == *gap);
                assert(next.len() - 1 == i);
            }
            let ghost own_before = |pid: u32| ownership_positions(head, pid);
            let ghost own_after = |pid: u32| ownership_positions(next, pid);
            let ghost end_before = |key: EndpointIdentity| endpoint_positions(head, key);
            let ghost end_after = |key: EndpointIdentity| endpoint_positions(next, key);
            let ghost pid_before = |pid: u32| pid_positions(head, pid);
            let ghost pid_after = |pid: u32| pid_positions(next, pid);
            match (gap.endpoint, gap.pid) {
                (Some(endpoint), _) => {
                    by_endpoint.add(endpoint, i, Ghost(end_before), Ghost(end_after));
                    proof {
                        assert(own_before =~= own_after);
                        assert(pid_before =~= pid_after);
                    }
                },
                (None, Some(pid)) => {
                    if gap.impact == EvidenceImpact::Ownership {
                        endpointless.add(i);
                        add_under_pid(
                            &mut ownership,
                            pid,
                            i,
                            Ghost(own_before),
                            Ghost(own_after),
                        );
                        proof {
                            assert(end_before =~= end_after);
                            assert(pid_before =~= pid_after);
                        }
                    } else {
                        add_under_pid(
                            &mut by_pid,
                            pid,
                            i,
                            Ghost(pid_before),
                            Ghost(pid_after),
                        );
                        proof {
                            assert(own_before =~= own_after);
                            assert(end_before =~= end_after);
                        }
                    }
                },
                (None, None) => {
                    global.add(i);
                    proof {
                        assert(own_before =~= own_after);
                        assert(end_before =~= end_after);
                        assert(pid_before =~= pid_after);
                    }
                },
            }
            i = i + 1;
        }
        assert(all.take(all.len() as int) =~= all);
        GapIndex {
            global,
            endpointless_ownership: endpointless,
            ownership_by_pid: ownership,
            by_endpoint,
            by_pid,
            omitted_endpointless_ownership: omitted,
        }
    }
}

/// The positions that a bucket keeps.
pub open spec fn kept(positions: Seq<usize>) -> Seq<usize> {
    if positions.len() <= WATCH_EVENT_GAPS_MAX {
        positions
    } else {
        positions.take(WATCH_EVENT_GAPS_MAX as int)
    }
}

/// The bounded list with the gaps at these positions added one by one.
pub open spec fn insert_all<'a>(
    list: Seq<&'a EvidenceGap>,
    gaps: Seq<&'a EvidenceGap>,
    positions: Seq<usize>,
) -> Seq<&'a EvidenceGap>
    decreases positions.len(),
{
    if positions.len() == 0 {
        list
    } else {
        bounded_insert(
            insert_all(list, gaps, positions.drop_last()),
            gaps[positions.last() as int],
        )
    }
}

/// Gaps in their order, equal ones in order of arrival.
pub open spec fn ordered<'a>(gaps: Seq<&'a EvidenceGap>) -> Seq<&'a EvidenceGap>
    decreases gaps.len(),
{
    if gaps.len() == 0 {
        gaps
    } else {
        let before = ordered(gaps.drop_last());
        before.insert(insertion_point(before, *gaps.last()), gaps.last())
    }
}

/// As many of the first gaps as one event writes out.
pub open spec fn first_gaps<'a>(gaps: Seq<&'a EvidenceGap>) -> Seq<&'a EvidenceGap> {
    if gaps.len() <= WATCH_EVENT_GAPS_MAX {
        gaps
    } else {
        gaps.take(WATCH_EVENT_GAPS_MAX as int)
    }
}

/// The gaps at these positions, one behind the other.
pub open spec fn picked<'a>(gaps: Seq<&'a EvidenceGap>, positions: Seq<usize>) -> Seq<
    &'a EvidenceGap,
> {
    Seq::new(positions.len(), |i: int| gaps[positions[i] as int])
}

proof fn lemma_insertion_point_of_first(gaps: Seq<&EvidenceGap>, gap: EvidenceGap, n: int)
    requires
        0 <= n <= gaps.len(),
    ensures
        insertion_point(gaps.take(n), gap) == if insertion_point(gaps, gap) <= n {
            insertion_point(gaps, gap)
        } else {
            n
        },
    decreases n,
{
    lemma_insertion_point(gaps, gap);
    if n > 0 && gap_not_after(*gaps[0], gap) {
        assert(gaps.take(n).drop_first() =~= gaps.drop_first().take(n - 1));
        lemma_insertion_point_of_first(gaps.drop_first(), gap, n - 1);
    }
}

proof fn lemma_first_of_inserted<'a>(gaps: Seq<&'a EvidenceGap>, gap: &'a EvidenceGap)
    ensures
        bounded_insert(first_gaps(gaps), gap) == first_gaps(
            gaps.insert(insertion_point(gaps, *gap), gap),
        ),
{
    let n = WATCH_EVENT_GAPS_MAX as int;
    let p = insertion_point(gaps, *gap);
    lemma_insertion_point(gaps, *gap);
    if gaps.len() > n {
        lemma_insertion_point_of_first(gaps, *gap, n);
    }
    assert(bounded_insert(first_gaps(gaps), gap) =~= first_gaps(gaps.insert(p, gap)));
}

/// Putting gaps in order loses none and adds none.
pub proof fn law_ordered_gaps_are_the_same_gaps<'a>(gaps: Seq<&'a EvidenceGap>)
    ensures
        gaps_sorted(ordered(gaps)),
        ordered(gaps).to_multiset() == gaps.to_multiset(),
    decreases gaps.len(),
{
    if gaps.len() > 0 {
        let before = ordered(gaps.drop_last());
        let gap = gaps.last();
        let p = insertion_point(before, *gap);
        law_ordered_gaps_are_the_same_gaps(gaps.drop_last());
        lemma_insertion_point(before, *gap);
        lemma_inserted_sorted(before, gap);
        vstd::seq_lib::to_multiset_insert(before, p, gap);
        vstd::seq_lib::to_multiset_build(gaps.drop_last(), gap);
        assert(gaps.drop_last().push(gap) =~= gaps);
        assert(gaps.to_multiset() == gaps.drop_last().to_multiset().insert(gap));
    }
}

/// Whatever gaps are fed to an empty list, one by one and in any order: what is left are
/// the first of them all.
pub proof fn law_fed_gaps_leave_the_first<'a>(gaps: Seq<&'a EvidenceGap>, positions: Seq<usize>)
    ensures
        insert_all(Seq::empty(), gaps, positions) == first_gaps(
            ordered(picked(gaps, positions)),
        ),
    decreases positions.len(),
{
    let all = picked(gaps, positions);
    if positions.len() > 0 {
        let rest = positions.drop_last();
        law_fed_gaps_leave_the_first(gaps, rest);
        assert(picked(gaps, rest) =~= all.drop_last());
        assert(all.last() == gaps[positions.last() as int]);
        lemma_first_of_inserted(ordered(all.drop_last()), all.last());
    } else {
        assert(first_gaps(ordered(all)) =~= Seq::<&'a EvidenceGap>::empty());
    }
}

/// The gaps of a snapshot, borrowed.
pub open spec fn borrowed<'a>(gaps: Seq<EvidenceGap>) -> Seq<&'a EvidenceGap> {
    Seq::new(gaps.len(), |i: int| &gaps[i])
}

/// `a + b`, held at the largest count.
pub open spec fn saturated(a: u64, b: nat) -> u64 {
    if a + b <= u64::MAX {
        (a + b) as u64
    } else {
        u64::MAX
    }
}

/// Add the kept gaps of a bucket to the bounded list, and its count to the total.
pub fn append_gap_bucket<'a>(
    bucket: &GapBucket,
    snapshot: &'a NetworkSnapshot,
    gaps: &mut Vec<&'a EvidenceGap>,
    total: &mut u64,
)
    requires
        forall|i: int|
            0 <= i < bucket.indices.len() ==> (#[trigger] bucket.indices@[i])
                < snapshot.evidence_gaps.len(),
        gaps_sorted(old(gaps)@),
        old(gaps).len() <= WATCH_EVENT_GAPS_MAX,
    ensures
        final(gaps)@ == insert_all(
            old(gaps)@,
            borrowed(snapshot.evidence_gaps@),
            bucket.indices@,
        ),
        gaps_sorted(final(gaps)@),
        final(gaps).len() <= WATCH_EVENT_GAPS_MAX,
        final(gaps).len() <= old(gaps).len() + bucket.indices.len(),
        *final(total) == saturated(*old(total), bucket.total as nat),
{
    *total = total.saturating_add(bucket.total);
    let ghost before = gaps@;
    let mut i: usize = 0;
    assert(bucket.indices@.take(0) =~= Seq::empty());
    while i < bucket.indices.len()
        invariant
            i <= bucket.indices.len(),
            forall|j: int|
                0 <= j < bucket.indices.len() ==> (#[trigger] bucket.indices@[j])
                    < snapshot.evidence_gaps.len(),
            gaps_sorted(gaps@),
            gaps.len() <= WATCH_EVENT_GAPS_MAX,
            gaps.len() <= before.len() + i,
            gaps@ == insert_all(
                before,
                borrowed(snapshot.evidence_gaps@),
                bucket.indices@.take(i as int),
            ),
        decreases bucket.indices.len() - i,
    {
        let ghost prior = gaps@;
        let index: usize = bucket.indices[i];
        retain_bounded_gap(gaps, &snapshot.evidence_gaps[index]);
        proof {
            let next = bucket.indices@.take(i + 1);
            assert(next.drop_last() =~= bucket.indices@.take(i as int));
            assert(next.last() == index);
            law_bounded_insert_keeps_the_first_gaps(prior, &snapshot.evidence_gaps@[index as int]);
        }
        i = i + 1;
    }
    assert(bucket.indices@.take(bucket.indices@.len() as int) =~= bucket.indices@);
}

/// The ownership positions that matter under a PID constraint.
pub open spec fn constrained_positions(
    gaps: Seq<EvidenceGap>,
    constraint: OwnerPidConstraint,
) -> Seq<usize> {
    match constraint {
        OwnerPidConstraint::Any => endpointless_ownership_positions(gaps),
        OwnerPidConstraint::Exact(pid) => ownership_positions(gaps, pid),
        OwnerPidConstraint::Impossible => Seq::empty(),
    }
}

/// The bounded list after the gaps about each owner's other facts.
pub open spec fn insert_owner_gaps<'a>(
    list: Seq<&'a EvidenceGap>,
    gaps: Seq<EvidenceGap>,
    owners: Seq<OwnerObservation>,
) -> Seq<&'a EvidenceGap>
    decreases owners.len(),
{
    if owners.len() == 0 {
        list
    } else {
        insert_all(
            insert_owner_gaps(list, gaps, owners.drop_last()),
            borrowed(gaps),
            kept(pid_positions(gaps, owner_pid_of(owners.last()))),
        )
    }
}

/// How many gaps there are about other facts of the owners.
pub open spec fn owner_gap_count(gaps: Seq<EvidenceGap>, owners: Seq<OwnerObservation>) -> nat
    decreases owners.len(),
{
    if owners.len() == 0 {
        0
    } else {
        owner_gap_count(gaps, owners.drop_last()) + pid_positions(
            gaps,
            owner_pid_of(owners.last()),
        ).len()
    }
}

/// The bounded list after every gap of a snapshot that concerns a socket.
pub open spec fn insert_applicable<'a>(
    list: Seq<&'a EvidenceGap>,
    snapshot: NetworkSnapshot,
    socket: SocketObservation,
    constraint: OwnerPidConstraint,
) -> Seq<&'a EvidenceGap> {
    let gaps = snapshot.evidence_gaps@;
    let with_global = insert_all(list, borrowed(gaps), kept(global_positions(gaps)));
    let with_ownership = insert_all(
        with_global,
        borrowed(gaps),
        kept(constrained_positions(gaps, constraint)),
    );
    let with_endpoint = insert_all(
        with_ownership,
        borrowed(gaps),
        kept(endpoint_positions(gaps, socket.local_endpoint)),
    );
    insert_owner_gaps(with_endpoint, gaps, socket.owners@)
}

/// How many gaps of a snapshot concern a socket, gaps that were not kept
/// included.
pub open spec fn applicable_count(
    snapshot: NetworkSnapshot,
    socket: SocketObservation,
    constraint: OwnerPidConstraint,
) -> nat {
    let gaps = snapshot.evidence_gaps@;
    let omitted: nat = if constraint == OwnerPidConstraint::Impossible
        || snapshot.owner_completeness.complete() {
        0
    } else {
        snapshot.omitted_evidence_gap_count as nat
    };
    global_positions(gaps).len() + constrained_positions(gaps, constraint).len() + omitted
        + endpoint_positions(gaps, socket.local_endpoint).len()
        + owner_gap_count(gaps, socket.owners@)
}

proof fn lemma_saturated_twice(total: u64, a: nat, b: nat)
    ensures
        saturated(saturated(total, a), b) == saturated(total, a + b),
{
}

impl GapIndex {
    /// Add the gaps that concern a socket to the bounded list and count them all.
    pub fn append<'a>(
        &self,
        snapshot: &'a NetworkSnapshot,
        socket: &SocketObservation,
        owner_pid_constraint: OwnerPidConstraint,
        gaps: &mut Vec<&'a EvidenceGap>,
        total: &mut u64,
    )
        requires
            self.reflects(*snapshot),
            gaps_sorted(old(gaps)@),
            old(gaps).len() <= WATCH_EVENT_GAPS_MAX,
        ensures
            final(gaps)@ == insert_applicable(
                old(gaps)@,
                *snapshot,
                *socket,
                owner_pid_constraint,
            ),
            *final(total) == saturated(
                *old(total),
                applicable_count(*snapshot, *socket, owner_pid_constraint),
            ),
            gaps_sorted(final(gaps)@),
            final(gaps).len() <= WATCH_EVENT_GAPS_MAX,
            old(gaps).len() <= *old(total) ==> final(gaps).len() <= *final(total),
    {
        broadcast use vstd::std_specs::hash::group_hash_axioms;

        let ghost all = snapshot.evidence_gaps@;
        let ghost start = *total;
        proof {
            assert(all.len() == snapshot.evidence_gaps.len());
            lemma_positions_in_range(all, |gap: EvidenceGap| is_global(gap));
            lemma_positions_in_range(all, |gap: EvidenceGap| is_endpointless_ownership(gap));
        }
        append_gap_bucket(&self.global, snapshot, gaps, total);
        let ghost mut counted: nat = global_positions(all).len();
        match owner_pid_constraint {
            OwnerPidConstraint::Any => {
                append_gap_bucket(&self.endpointless_ownership, snapshot, gaps, total);
            },
            OwnerPidConstraint::Exact(pid) => {
                proof {
                    lemma_positions_in_range(all, |gap: EvidenceGap| is_ownership_of(gap, pid));
                }
                let ghost positions = |pid: u32| ownership_positions(all, pid);
                if let Some(bucket) = self.ownership_by_pid.get(&pid) {
                    assert(bucket.holds(positions(pid)));
                    append_gap_bucket(bucket, snapshot, gaps, total);
                } else {
                    assert(positions(pid).len() == 0);
                    assert(kept(positions(pid)) =~= Seq::empty());
                }
            },
            OwnerPidConstraint::Impossible => {},
        }
        proof {
            lemma_saturated_twice(
                start,
                counted,
                constrained_positions(all, owner_pid_constraint).len(),
            );
            counted = counted + constrained_positions(all, owner_pid_constraint).len();
        }
        if owner_pid_constraint != OwnerPidConstraint::Impossible {
            *total = total.saturating_add(self.omitted_endpointless_ownership);
            proof {
                lemma_saturated_twice(start, counted, self.omitted_endpointless_ownership as nat);
                counted = counted + self.omitted_endpointless_ownership as nat;
            }
        }
        let ghost endpoint_key = socket.local_endpoint;
        let ghost endpoint_index = |key: EndpointIdentity| endpoint_positions(all, key);
        proof {
            lemma_positions_in_range(all, |gap: EvidenceGap| is_at_endpoint(gap, endpoint_key));
        }
        if let Some(bucket) = self.by_endpoint.get(socket.local_endpoint) {
            assert(bucket.holds(endpoint_index(endpoint_key)));
            append_gap_bucket(bucket, snapshot, gaps, total);
        } else {
            assert(endpoint_index(endpoint_key).len() == 0);
            assert(kept(endpoint_index(endpoint_key)) =~= Seq::empty());
        }
        proof {
            lemma_saturated_twice(start, counted, endpoint_index(endpoint_key).len());
            counted = counted + endpoint_index(endpoint_key).len();
        }
        let ghost with_endpoint = gaps@;
        let mut i: usize = 0;
        assert(socket.owners@.take(0) =~= Seq::empty());
        while i < socket.owners.len()
            invariant
                i <= socket.owners.len(),
                all == snapshot.evidence_gaps@,
                self.reflects(*snapshot),
                gaps_sorted(gaps@),
                gaps.len() <= WATCH_EVENT_GAPS_MAX,
                old(gaps).len() <= *old(total) ==> gaps.len() <= *total,
                gaps@ == insert_owner_gaps(with_endpoint, all, socket.owners@.take(i as int)),
                *total == saturated(
                    start,
                    counted + owner_gap_count(all, socket.owners@.take(i as int)),
                ),
            decreases socket.owners.len() - i,
        {
            let pid: u32 = owner_pid(socket.owners[i]);
            let ghost positions = |pid: u32| pid_positions(all, pid);
            proof {
                assert(all.len() == snapshot.evidence_gaps.len());
                lemma_positions_in_range(all, |gap: EvidenceGap| is_about_pid(gap, pid));
                let next = socket.owners@.take(i + 1);
                assert(next.drop_last() =~= socket.owners@.take(i as int));
                assert(next.last() == socket.owners@[i as int]);
                lemma_saturated_twice(
                    start,
                    counted + owner_gap_count(all, socket.owners@.take(i as int)),
                    positions(pid).len(),
                );
            }
            if let Some(bucket) = self.by_pid.get(&pid) {
                assert(bucket.holds(positions(pid)));
                append_gap_bucket(bucket, snapshot, gaps, total);
            } else {
                assert(positions(pid).len() == 0);
                assert(kept(positions(pid)) =~= Seq::empty());
            }
            i = i + 1;
        }
        assert(socket.owners@.take(socket.owners@.len() as int) =~= socket.owners@);
    }
}

/// Which sides of an event have an index of their snapshot's gaps.
pub struct IndexedSides {
    pub previous: bool,
    pub current: bool,
}

/// The gaps that an event reports under the terms of a filter. A side without an index
/// contributes none.
pub open spec fn event_gaps<'a>(
    event: WatchEvent<'a>,
    indexed: IndexedSides,
    terms: Seq<FilterTerm>,
) -> Seq<&'a EvidenceGap> {
    let constraint = pid_constraint(terms);
    let previous = if indexed.previous && event.previous_snapshot is Some
        && event.previous_socket is Some {
        insert_applicable(
            Seq::empty(),
            *event.previous_snapshot->0,
            *event.previous_socket->0,
            constraint,
        )
    } else {
        Seq::empty()
    };
    if indexed.current && event.current_snapshot is Some && event.current_socket is Some {
        insert_applicable(
            previous,
            *event.current_snapshot->0,
            *event.current_socket->0,
            constraint,
        )
    } else {
        previous
    }
}

/// How many gaps concern an event on the sides that have an index, written out or not.
pub open spec fn event_gap_count(
    event: WatchEvent,
    indexed: IndexedSides,
    terms: Seq<FilterTerm>,
) -> nat {
    let constraint = pid_constraint(terms);
    (if indexed.previous && event.previous_snapshot is Some && event.previous_socket is Some {
        applicable_count(*event.previous_snapshot->0, *event.previous_socket->0, constraint)
    } else {
        0
    }) + (if indexed.current && event.current_snapshot is Some && event.current_socket is Some {
        applicable_count(*event.current_snapshot->0, *event.current_socket->0, constraint)
    } else {
        0
    })
}

/// An index of the snapshot on one side, where the event has that side.
pub open spec fn index_fits(index: Option<&GapIndex>, snapshot: Option<&NetworkSnapshot>) -> bool {
    index is Some && snapshot is Some ==> index->0.reflects(*snapshot->0)
}

/// The sides for which an index is at hand.
pub open spec fn sides_of(
    previous_index: Option<&GapIndex>,
    current_index: Option<&GapIndex>,
) -> IndexedSides {
    IndexedSides { previous: previous_index is Some, current: current_index is Some }
}

/// The gaps that an event reports, and how many more there are.
pub fn event_gap_dtos<'a>(
    event: WatchEvent<'a>,
    filter_terms: &[FilterTerm],
    previous_index: Option<&GapIndex>,
    current_index: Option<&GapIndex>,
) -> (r: (Vec<&'a EvidenceGap>, u64))
    requires
        index_fits(previous_index, event.previous_snapshot),
        index_fits(current_index, event.current_snapshot),
    ensures
        r.0@ == event_gaps(event, sides_of(previous_index, current_index), filter_terms@),
        r.0.len() <= WATCH_EVENT_GAPS_MAX,
        gaps_sorted(r.0@),
        r.0.len() + r.1 == saturated(
            0,
            event_gap_count(event, sides_of(previous_index, current_index), filter_terms@),
        ),
{
    let mut gaps: Vec<&'a EvidenceGap> = Vec::new();
    let mut total: u64 = 0;
    let constraint = owner_pid_constraint(filter_terms);
    match (event.previous_snapshot, event.previous_socket, previous_index) {
        (Some(snapshot), Some(socket), Some(index)) => {
            index.append(snapshot, socket, constraint, &mut gaps, &mut total);
        },
        _ => {},
    }
    match (event.current_snapshot, event.current_socket, current_index) {
        (Some(snapshot), Some(socket), Some(index)) => {
            index.append(snapshot, socket, constraint, &mut gaps, &mut total);
        },
        _ => {},
    }
    let retained: usize = gaps.len();
    let omitted: u64 = total.saturating_sub(retained as u64);
    (gaps, omitted)
}

} // verus!
