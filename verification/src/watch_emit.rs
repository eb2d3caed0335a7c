//! The order in which events are written, and writing them in it.

use std::collections::HashMap;
use vstd::prelude::*;
use vstd::string::*;
use vstd::utf8::encode_utf8;
use crate::config::Config;
use crate::exit::ExitReason;
use crate::observation::NetworkSnapshot;
use crate::sink::{
    lemma_said_more, lemma_said_nothing, problem_line, said, write_diagnostic, IoError, Sink,
};
use crate::time::Duration;
use crate::watch_event::{Certainty, EventKind, WatchEvent};
use crate::watch_filter::{evaluate_event, event_result, FilterCache, FilterResult};
use crate::watch_gaps::{GapBucket, GapBuckets, GapIndex, IndexedSides};
use crate::watch_options::WatchOptions;
use crate::watch_output::{
    flush_exit, flush_lines, flush_reason, io_failure, output_failure, output_lines, output_reason,
    ObservationTimes, OutputError,
};
use crate::watch_record::{
    event_line, event_refused, event_written, intake, write_endpoint_event, Intake, Serialized,
    WatchRecord,
};
use crate::watch_runtime::{
    kept_on, lemma_kept_on_joins, lemma_kept_on_more, look_stopped, stop_requested, stopped_on,
    RuntimeCall, WatchRuntime,
};

verus! {

/// How many events are handled between two looks for a cancellation, and how many
/// are written between two flushes.
pub const WATCH_EVENT_BATCH_MAX: usize = 256;

/// How many ranks there are: three filter results times four certainties.
pub const EVENT_ORDER_RANK_COUNT: u32 = 12;

/// The rank of an event among those of its group: decided events first, then by
/// certainty.
pub open spec fn order_rank(filter_result: FilterResult, certainty: Certainty) -> u32 {
    let filter_rank: u32 = match filter_result {
        FilterResult::NotApplied => 0,
        FilterResult::Matched => 1,
        FilterResult::Indeterminate => 2,
    };
    let certainty_rank: u32 = match certainty {
        Certainty::Proven => 0,
        Certainty::Estimated => 1,
        Certainty::Heuristic => 2,
        Certainty::Unknown => 3,
    };
    (filter_rank * 4 + certainty_rank) as u32
}

pub fn event_order_rank(filter_result: FilterResult, certainty: Certainty) -> (r: u32)
    ensures
        r == order_rank(filter_result, certainty),
        r < EVENT_ORDER_RANK_COUNT,
{
    let filter_rank: u32 = match filter_result {
        FilterResult::NotApplied => 0,
        FilterResult::Matched => 1,
        FilterResult::Indeterminate => 2,
    };
    let certainty_rank: u32 = match certainty {
        Certainty::Proven => 0,
        Certainty::Estimated => 1,
        Certainty::Heuristic => 2,
        Certainty::Unknown => 3,
    };
    filter_rank * 4 + certainty_rank
}

/// Ranks do not collide and stay below the number of ranks.
pub proof fn law_order_rank_is_injective(
    a: FilterResult,
    b: Certainty,
    c: FilterResult,
    d: Certainty,
)
    ensures
        order_rank(a, b) < EVENT_ORDER_RANK_COUNT,
        order_rank(a, b) == order_rank(c, d) <==> a == c && b == d,
{
}

/// The lookups kept for one snapshot.
#[derive(Debug)]
pub struct SnapshotIndex {
    pub filter: FilterCache,
    pub gaps: GapIndex,
}

impl SnapshotIndex {
    /// The lookups are those of a snapshot, where there is one.
    pub open spec fn serves(self, snapshot: Option<&NetworkSnapshot>) -> bool {
        snapshot is Some ==> self.filter.reflects(*snapshot->0) && self.gaps.reflects(*snapshot->0)
    }

    /// The lookups of no snapshot.
    pub fn blank() -> (r: SnapshotIndex)
        ensures
            r.serves(None),
            r.filter.processes@.len() == 0,
            r.gaps.global.holds(Seq::empty()),
            r.gaps.endpointless_ownership.holds(Seq::empty()),
            r.gaps.ownership_by_pid@ == Map::<u32, GapBucket>::empty(),
            r.gaps.by_endpoint.slots@.len() == 0,
            r.gaps.by_pid@ == Map::<u32, GapBucket>::empty(),
            r.gaps.omitted_endpointless_ownership == 0,
    {
        SnapshotIndex {
            filter: FilterCache::empty(),
            gaps: GapIndex {
                global: GapBucket::empty(),
                endpointless_ownership: GapBucket::empty(),
                ownership_by_pid: HashMap::new(),
                by_endpoint: GapBuckets::empty(),
                by_pid: HashMap::new(),
                omitted_endpointless_ownership: 0,
            },
        }
    }

    pub fn new(snapshot: &NetworkSnapshot) -> (r: SnapshotIndex)
        ensures
            r.serves(Some(snapshot)),
            r.filter.processes@.len() == 0,
    {
        SnapshotIndex { filter: FilterCache::empty(), gaps: GapIndex::new(snapshot) }
    }
}

/// An event as the comparison of two snapshots names it. Events next to each other
/// with one group number differ in nothing that orders them.
#[derive(Debug, Clone, Copy, PartialEq, Eq, Structural)]
pub struct EventDraft {
    pub kind: EventKind,
    pub previous_socket: Option<usize>,
    pub current_socket: Option<usize>,
    pub multiplicity: u32,
    pub certainty: Certainty,
    pub group: u64,
}

/// What a comparison gave: the events in order, and why it ended early if it did.
#[derive(Debug)]
pub struct EventStream {
    pub drafts: Vec<EventDraft>,
    pub failure: Option<String>,
}

/// A stream of events without a failure: the whole of a baseline.
pub fn baseline_event_result(drafts: Vec<EventDraft>) -> (r: EventStream)
    ensures
        r.drafts@ == drafts@,
        r.failure is None,
{
    EventStream { drafts, failure: None }
}

/// A draft names sockets that were observed, and those that its kind needs.
pub open spec fn drawable(
    previous: Option<&NetworkSnapshot>,
    current: &NetworkSnapshot,
    draft: EventDraft,
) -> bool {
    &&& draft.previous_socket is Some ==> previous is Some && draft.previous_socket->0
        < previous->0.sockets.len()
    &&& draft.current_socket is Some ==> draft.current_socket->0 < current.sockets.len()
    &&& match draft.kind {
        EventKind::Baseline | EventKind::Bind => draft.current_socket is Some,
        EventKind::Release => draft.previous_socket is Some,
        EventKind::Replacement => draft.previous_socket is Some && draft.current_socket is Some,
    }
}

/// The event is the one that a draft names.
pub open spec fn drawn_from<'a>(
    event: WatchEvent<'a>,
    previous: Option<&'a NetworkSnapshot>,
    current: &'a NetworkSnapshot,
    draft: EventDraft,
) -> bool {
    &&& event.kind == draft.kind
    &&& event.previous_snapshot == previous
    &&& event.current_snapshot == Some(current)
    &&& event.multiplicity == draft.multiplicity
    &&& event.certainty == draft.certainty
    &&& match draft.previous_socket {
        Some(i) => event.previous_socket is Some && *event.previous_socket->0
            == previous->0.sockets@[i as int],
        None => event.previous_socket is None,
    }
    &&& match draft.current_socket {
        Some(i) => event.current_socket is Some && *event.current_socket->0
            == current.sockets@[i as int],
        None => event.current_socket is None,
    }
}

fn draw_event<'a>(
    previous: Option<&'a NetworkSnapshot>,
    current: &'a NetworkSnapshot,
    draft: EventDraft,
) -> (r: Option<WatchEvent<'a>>)
    ensures
        r is Some <==> drawable(previous, current, draft),
        r is Some ==> drawn_from(r->0, previous, current, draft) && r->0.wf(),
{
    let previous_socket = match draft.previous_socket {
        Some(i) => match previous {
            Some(snapshot) => if i < snapshot.sockets.len() {
                Some(&snapshot.sockets[i])
            } else {
                return None;
            },
            None => {
                return None;
            },
        },
        None => None,
    };
    let current_socket = match draft.current_socket {
        Some(i) => if i < current.sockets.len() {
            Some(&current.sockets[i])
        } else {
            return None;
        },
        None => None,
    };
    let complete: bool = match draft.kind {
        EventKind::Baseline => current_socket.is_some(),
        EventKind::Bind => current_socket.is_some(),
        EventKind::Release => previous_socket.is_some(),
        EventKind::Replacement => previous_socket.is_some() && current_socket.is_some(),
    };
    if !complete {
        return None;
    }
    Some(
        WatchEvent {
            kind: draft.kind,
            previous_snapshot: previous,
            current_snapshot: Some(current),
            previous_socket,
            current_socket,
            multiplicity: draft.multiplicity,
            certainty: draft.certainty,
        },
    )
}

/// The events of one comparison, with their groups.
#[derive(Debug)]
pub struct DrawnEvents<'a> {
    pub previous: Option<&'a NetworkSnapshot>,
    pub current: &'a NetworkSnapshot,
    pub events: Vec<WatchEvent<'a>>,
    pub groups: Vec<u64>,
    pub failure: Option<String>,
}

impl<'a> DrawnEvents<'a> {
    pub open spec fn wf(self) -> bool {
        &&& self.events.len() == self.groups.len()
        &&& forall|i: int|
            0 <= i < self.events.len() ==> {
                let event = #[trigger] self.events@[i];
                &&& event.wf()
                &&& event.previous_snapshot == self.previous
                &&& event.current_snapshot == Some(self.current)
            }
    }
}

/// The events of a stream whose sockets were looked up in two snapshots. A draft that
/// names an unobserved socket ends the events there.
pub open spec fn draws<'a>(
    drawn: DrawnEvents<'a>,
    previous: Option<&'a NetworkSnapshot>,
    current: &'a NetworkSnapshot,
    stream: EventStream,
) -> bool {
    &&& drawn.wf()
    &&& drawn.previous == previous
    &&& drawn.current == current
    &&& drawn.events.len() <= stream.drafts.len()
    &&& forall|i: int|
        #![trigger drawn.events@[i]]
        0 <= i < drawn.events.len() ==> drawn_from(
            drawn.events@[i],
            previous,
            current,
            stream.drafts@[i],
        ) && drawn.groups@[i] == stream.drafts@[i].group
    &&& drawn.events.len() < stream.drafts.len() ==> {
        &&& !drawable(previous, current, stream.drafts@[drawn.events.len() as int])
        &&& drawn.failure is Some
        &&& drawn.failure->0@ == "event names a socket that was not observed"@
    }
    &&& drawn.events.len() == stream.drafts.len() ==> crate::text::opt_text(drawn.failure)
        == crate::text::opt_text(stream.failure)
}

/// Look up the sockets that a stream's drafts name. A draft that names an
/// unobserved socket ends the events there.
pub fn draw_events<'a>(
    previous: Option<&'a NetworkSnapshot>,
    current: &'a NetworkSnapshot,
    stream: &EventStream,
) -> (r: DrawnEvents<'a>)
    ensures
        draws(r, previous, current, *stream),
{
    let mut events: Vec<WatchEvent<'a>> = Vec::new();
    let mut groups: Vec<u64> = Vec::new();
    let mut i: usize = 0;
    while i < stream.drafts.len()
        invariant
            i <= stream.drafts.len(),
            events.len() == i,
            groups.len() == i,
            forall|j: int|
                #![trigger events@[j]]
                0 <= j < i ==> drawn_from(events@[j], previous, current, stream.drafts@[j])
                    && events@[j].wf() && groups@[j] == stream.drafts@[j].group,
        decreases stream.drafts.len() - i,
    {
        match draw_event(previous, current, stream.drafts[i]) {
            Some(event) => {
                events.push(event);
                groups.push(stream.drafts[i].group);
            },
            None => {
                return DrawnEvents {
                    previous,
                    current,
                    events,
                    groups,
                    failure: Some("event names a socket that was not observed".to_owned()),
                };
            },
        }
        i = i + 1;
    }
    let failure = match &stream.failure {
        Some(text) => Some(text.clone()),
        None => None,
    };
    DrawnEvents { previous, current, events, groups, failure }
}

/// The rank of each event that is written, in the order of the events.
pub open spec fn event_ranks(
    events: Seq<WatchEvent>,
    options: WatchOptions,
    config: Config,
) -> Seq<Option<u32>> {
    Seq::new(
        events.len(),
        |i: int|
            match event_result(events[i], options, config) {
                Some(result) => Some(order_rank(result, events[i].certainty)),
                None => None,
            },
    )
}

/// The positions from `lo` up to `hi` that have a rank, ascending.
pub open spec fn ranked_positions(
    ranks: Seq<Option<u32>>,
    lo: int,
    hi: int,
    rank: u32,
) -> Seq<int>
    decreases hi - lo,
{
    if hi <= lo {
        Seq::empty()
    } else {
        let head = ranked_positions(ranks, lo, hi - 1, rank);
        if ranks[hi - 1] == Some(rank) {
            head.push(hi - 1)
        } else {
            head
        }
    }
}

/// The order within a group: by rank, events of one rank as they come.
pub open spec fn group_order(
    ranks: Seq<Option<u32>>,
    lo: int,
    hi: int,
    passes: nat,
) -> Seq<int>
    decreases passes,
{
    if passes == 0 {
        Seq::empty()
    } else {
        group_order(ranks, lo, hi, (passes - 1) as nat) + ranked_positions(
            ranks,
            lo,
            hi,
            (passes - 1) as u32,
        )
    }
}

/// Where the group that holds `start` ends, looking from `from` on.
pub open spec fn group_end(groups: Seq<u64>, start: int, from: int) -> int
    decreases groups.len() - from,
{
    if from >= groups.len() || groups[from] != groups[start] {
        from
    } else {
        group_end(groups, start, from + 1)
    }
}

proof fn lemma_group_end(groups: Seq<u64>, start: int, from: int)
    requires
        0 <= start < from <= groups.len(),
    ensures
        from <= group_end(groups, start, from) <= groups.len(),
        group_end(groups, start, from) < groups.len() ==> groups[group_end(groups, start, from)]
            != groups[start],
    decreases groups.len() - from,
{
    if from >= groups.len() || groups[from] != groups[start] {
    } else {
        lemma_group_end(groups, start, from + 1);
    }
}

/// The order in which events are written from a group's start on: group after
/// group.
pub open spec fn emission_order(
    ranks: Seq<Option<u32>>,
    groups: Seq<u64>,
    start: int,
) -> Seq<int>
    decreases groups.len() - start,
    when 0 <= start <= groups.len()
    via emission_order_ends
{
    if start >= groups.len() {
        Seq::empty()
    } else {
        let end = group_end(groups, start, start + 1);
        group_order(ranks, start, end, EVENT_ORDER_RANK_COUNT as nat) + emission_order(
            ranks,
            groups,
            end,
        )
    }
}

#[via_fn]
proof fn emission_order_ends(ranks: Seq<Option<u32>>, groups: Seq<u64>, start: int) {
    if start < groups.len() {
        lemma_group_end(groups, start, start + 1);
    }
}

/// How events are written.
#[derive(Debug)]
pub struct EventSettings<'a, F> {
    pub options: &'a WatchOptions,
    pub config: &'a Config,
    pub observation: ObservationTimes,
    pub serialize: &'a F,
}

/// How often the passes over a group ask whether the run is over: in the pass of each rank
/// that occurs, once before each event of the group and once behind the last.
pub open spec fn group_looks(ranks: Seq<Option<u32>>, lo: int, hi: int, passes: nat) -> nat
    decreases passes,
{
    if passes == 0 {
        0
    } else {
        group_looks(ranks, lo, hi, (passes - 1) as nat) + if ranked_positions(
            ranks,
            lo,
            hi,
            (passes - 1) as u32,
        ).len() > 0 {
            (hi - lo + 1) as nat
        } else {
            0
        }
    }
}

/// How often the passes over all groups from a group's start on ask that.
pub open spec fn pass_looks(ranks: Seq<Option<u32>>, groups: Seq<u64>, start: int) -> nat
    decreases groups.len() - start,
    when 0 <= start <= groups.len()
    via pass_looks_ends
{
    if start >= groups.len() {
        0
    } else {
        let end = group_end(groups, start, start + 1);
        group_looks(ranks, start, end, EVENT_ORDER_RANK_COUNT as nat) + pass_looks(
            ranks,
            groups,
            end,
        )
    }
}

#[via_fn]
proof fn pass_looks_ends(ranks: Seq<Option<u32>>, groups: Seq<u64>, start: int) {
    if start < groups.len() {
        lemma_group_end(groups, start, start + 1);
    }
}

/// How often that is asked while as many events are first read: once for every whole batch
/// of them.
pub open spec fn scan_looks(count: int) -> int {
    count / WATCH_EVENT_BATCH_MAX as int
}

/// How often it was asked whether the run is over by the time the events of a rank are
/// handed to the output, where the pass begins after `from` times: once more for each event
/// of the group, up to the one that is handed on.
pub open spec fn rank_times(
    ranks: Seq<Option<u32>>,
    lo: int,
    hi: int,
    rank: u32,
    from: nat,
) -> Seq<nat>
    decreases hi - lo,
{
    if hi <= lo {
        Seq::empty()
    } else {
        let head = rank_times(ranks, lo, hi - 1, rank, from);
        if ranks[hi - 1] == Some(rank) {
            head.push((from + (hi - lo)) as nat)
        } else {
            head
        }
    }
}

/// The same for the events of a group, in the order in which they are written.
pub open spec fn group_times(
    ranks: Seq<Option<u32>>,
    lo: int,
    hi: int,
    passes: nat,
    from: nat,
) -> Seq<nat>
    decreases passes,
{
    if passes == 0 {
        Seq::empty()
    } else {
        group_times(ranks, lo, hi, (passes - 1) as nat, from) + rank_times(
            ranks,
            lo,
            hi,
            (passes - 1) as u32,
            from + group_looks(ranks, lo, hi, (passes - 1) as nat),
        )
    }
}

/// How often it was asked once the group that begins at `start` was read.
pub open spec fn group_begin(groups: Seq<u64>, start: int, from: nat) -> nat {
    (from + scan_looks(group_end(groups, start, start + 1)) - scan_looks(start)) as nat
}

/// The same for all events from a group's start on, in the order in which they are written.
pub open spec fn emission_times(
    ranks: Seq<Option<u32>>,
    groups: Seq<u64>,
    start: int,
    from: nat,
) -> Seq<nat>
    decreases groups.len() - start,
    when 0 <= start <= groups.len()
    via emission_times_end
{
    if start >= groups.len() {
        Seq::empty()
    } else {
        let end = group_end(groups, start, start + 1);
        let begin = group_begin(groups, start, from);
        let passes = EVENT_ORDER_RANK_COUNT as nat;
        group_times(ranks, start, end, passes, begin) + emission_times(
            ranks,
            groups,
            end,
            begin + group_looks(ranks, start, end, passes),
        )
    }
}

#[via_fn]
proof fn emission_times_end(ranks: Seq<Option<u32>>, groups: Seq<u64>, start: int, from: nat) {
    if start < groups.len() {
        lemma_group_end(groups, start, start + 1);
    }
}

/// All of these come after `from`.
pub open spec fn all_after(times: Seq<nat>, from: nat) -> bool {
    forall|k: int| 0 <= k < times.len() ==> from < #[trigger] times[k]
}

proof fn lemma_rank_times(
    ranks: Seq<Option<u32>>,
    lo: int,
    mid: int,
    hi: int,
    rank: u32,
    from: nat,
)
    requires
        lo <= mid <= hi,
    ensures
        rank_times(ranks, lo, hi, rank, from).len() == ranked_positions(ranks, lo, hi, rank).len(),
        exists|rest: Seq<nat>|
            rank_times(ranks, lo, hi, rank, from) == #[trigger] (rank_times(
                ranks,
                lo,
                mid,
                rank,
                from,
            ) + rest) && all_after(rest, (from + (mid - lo)) as nat),
    decreases hi - lo,
{
    if mid == hi {
        let rest = Seq::<nat>::empty();
        assert(rank_times(ranks, lo, hi, rank, from) =~= rank_times(ranks, lo, mid, rank, from)
            + rest);
        if lo < hi {
            lemma_rank_times(ranks, lo, hi - 1, hi - 1, rank, from);
        }
    } else {
        lemma_rank_times(ranks, lo, mid, hi - 1, rank, from);
        let head = rank_times(ranks, lo, mid, rank, from);
        let rest = choose|rest: Seq<nat>|
            rank_times(ranks, lo, hi - 1, rank, from) == #[trigger] (head + rest) && all_after(
                rest,
                (from + (mid - lo)) as nat,
            );
        if ranks[hi - 1] == Some(rank) {
            let more = rest.push((from + (hi - lo)) as nat);
            assert(rank_times(ranks, lo, hi, rank, from) =~= head + more);
            assert(all_after(more, (from + (mid - lo)) as nat));
        } else {
            assert(rank_times(ranks, lo, hi, rank, from) == head + rest);
        }
    }
}

proof fn lemma_group_times(
    ranks: Seq<Option<u32>>,
    lo: int,
    hi: int,
    passes: nat,
    all: nat,
    from: nat,
)
    requires
        lo <= hi,
        passes <= all,
    ensures
        group_times(ranks, lo, hi, all, from).len() == group_order(ranks, lo, hi, all).len(),
        exists|rest: Seq<nat>|
            group_times(ranks, lo, hi, all, from) == #[trigger] (group_times(
                ranks,
                lo,
                hi,
                passes,
                from,
            ) + rest) && all_after(rest, from + group_looks(ranks, lo, hi, passes)),
        group_looks(ranks, lo, hi, passes) <= group_looks(ranks, lo, hi, all),
    decreases all,
{
    if all > 0 {
        let last = (all - 1) as nat;
        let begin = from + group_looks(ranks, lo, hi, last);
        let here = rank_times(ranks, lo, hi, last as u32, begin);
        lemma_rank_times(ranks, lo, lo, hi, last as u32, begin);
        let pass = choose|pass: Seq<nat>|
            here == #[trigger] (rank_times(ranks, lo, lo, last as u32, begin) + pass) && all_after(
                pass,
                (begin + (lo - lo)) as nat,
            );
        assert(pass =~= here);
        if passes == all {
            let rest = Seq::<nat>::empty();
            lemma_group_times(ranks, lo, hi, last, last, from);
            assert(group_times(ranks, lo, hi, all, from) =~= group_times(
                ranks,
                lo,
                hi,
                passes,
                from,
            ) + rest);
        } else {
            lemma_group_times(ranks, lo, hi, passes, last, from);
            let head = group_times(ranks, lo, hi, passes, from);
            let rest = choose|rest: Seq<nat>|
                group_times(ranks, lo, hi, last, from) == #[trigger] (head + rest) && all_after(
                    rest,
                    from + group_looks(ranks, lo, hi, passes),
                );
            assert(group_times(ranks, lo, hi, all, from) =~= head + (rest + here));
            assert(all_after(rest + here, from + group_looks(ranks, lo, hi, passes)));
        }
    } else {
        assert(group_times(ranks, lo, hi, all, from) =~= group_times(ranks, lo, hi, passes, from)
            + Seq::<nat>::empty());
    }
}

proof fn lemma_emission_times(ranks: Seq<Option<u32>>, groups: Seq<u64>, start: int, from: nat)
    requires
        0 <= start <= groups.len(),
    ensures
        emission_times(ranks, groups, start, from).len() == emission_order(
            ranks,
            groups,
            start,
        ).len(),
        all_after(emission_times(ranks, groups, start, from), from),
        start < groups.len() ==> all_after(
            emission_times(ranks, groups, start, from),
            group_begin(groups, start, from),
        ),
    decreases groups.len() - start,
{
    if start < groups.len() {
        let end = group_end(groups, start, start + 1);
        let begin = group_begin(groups, start, from);
        let passes = EVENT_ORDER_RANK_COUNT as nat;
        lemma_group_end(groups, start, start + 1);
        assert(from <= begin);
        lemma_group_times(ranks, start, end, 0, passes, begin);
        let here = group_times(ranks, start, end, passes, begin);
        let rest = choose|rest: Seq<nat>|
            here == #[trigger] (group_times(ranks, start, end, 0, begin) + rest) && all_after(
                rest,
                begin + group_looks(ranks, start, end, 0),
            );
        assert(rest =~= here);
        lemma_emission_times(
            ranks,
            groups,
            end,
            begin + group_looks(ranks, start, end, passes),
        );
    }
}

/// One event was handed to the output under a sequence number, with this result.
#[verifier::opaque]
pub open spec fn wrote_one<'a, F: Fn(&WatchRecord<'a>) -> Serialized>(
    settings: EventSettings<'a, F>,
    event: WatchEvent<'a>,
    sequence: int,
    before: Intake,
    after: Intake,
    r: Result<(), OutputError>,
) -> bool {
    event_written(
        *settings.serialize,
        settings.options.json,
        sequence as u64,
        settings.observation,
        event,
        IndexedSides { previous: true, current: true },
        event_result(event, *settings.options, *settings.config)->0,
        settings.options.terms@,
        *settings.config,
        before,
        after,
        r,
    )
}

/// The serializer refused the record of one event under a sequence number.
#[verifier::opaque]
pub open spec fn refused_one<'a, F: Fn(&WatchRecord<'a>) -> Serialized>(
    settings: EventSettings<'a, F>,
    event: WatchEvent<'a>,
    sequence: int,
    error: OutputError,
) -> bool {
    event_refused(
        *settings.serialize,
        settings.options.json,
        sequence as u64,
        settings.observation,
        event,
        IndexedSides { previous: true, current: true },
        event_result(event, *settings.options, *settings.config)->0,
        settings.options.terms@,
        *settings.config,
        error,
    )
}

/// Events were written one after the other in this order, under consecutive
/// sequence numbers from `first` on.
pub open spec fn wrote<'a, F: Fn(&WatchRecord<'a>) -> Serialized>(
    settings: EventSettings<'a, F>,
    events: Seq<WatchEvent<'a>>,
    order: Seq<int>,
    first: int,
    before: Intake,
    after: Intake,
) -> bool
    decreases order.len(),
{
    if order.len() == 0 {
        before == after
    } else {
        exists|mid: Intake|
            wrote(settings, events, order.drop_last(), first, before, mid) && #[trigger] wrote_one(
                settings,
                events[order.last()],
                first + order.len() - 1,
                mid,
                after,
                Ok(()),
            )
    }
}

/// The next sequence number after `count` events; the last number is never left.
pub open spec fn sequence_after(first: int, count: int) -> int {
    if first + count <= u64::MAX {
        first + count
    } else {
        u64::MAX as int
    }
}

/// What a run has done so far: its uses of the surroundings, what its output took and
/// refused, the flushes of it, its next sequence number and its diagnostics.
pub struct Ledger<D> {
    pub calls: Seq<RuntimeCall>,
    pub written: Intake,
    pub flushed: Seq<Result<(), IoError>>,
    pub sequence: int,
    pub diagnostics: D,
}

impl<D> Ledger<D> {
    /// The same but for the uses of the surroundings.
    pub open spec fn at(self, calls: Seq<RuntimeCall>) -> Ledger<D> {
        Ledger { calls, ..self }
    }
}

/// The ledger of a run.
pub open spec fn ledger<W: Sink, D: Sink>(
    calls: Seq<RuntimeCall>,
    output: W,
    diagnostics: D,
    sequence: u64,
) -> Ledger<D> {
    Ledger {
        calls,
        written: intake(output),
        flushed: output.flushed(),
        sequence: sequence as int,
        diagnostics,
    }
}

/// Between `before` and `after` there was one flush for every whole batch of `count`
/// events, and none failed.
pub open spec fn paced(
    before: Seq<Result<(), IoError>>,
    after: Seq<Result<(), IoError>>,
    count: int,
) -> bool {
    &&& before.is_prefix_of(after)
    &&& after.len() == before.len() + count / WATCH_EVENT_BATCH_MAX as int
    &&& forall|i: int| before.len() <= i < after.len() ==> (#[trigger] after[i]) is Ok
}

/// The events in `done` were written, in this order and with nothing reported. It was
/// asked that often whether the run was over, and it never was; `timed` tells how often by
/// the time of each event.
pub open spec fn under_way<'a, D: Sink, F: Fn(&WatchRecord<'a>) -> Serialized>(
    settings: EventSettings<'a, F>,
    events: Seq<WatchEvent<'a>>,
    deadline: Option<Duration>,
    start: Ledger<D>,
    done: Seq<int>,
    now: Ledger<D>,
    looks: nat,
    timed: Seq<nat>,
) -> bool {
    &&& timed.len() == done.len()
    &&& timed.len() > 0 ==> timed.last() <= looks
    &&& wrote(settings, events, done, start.sequence, start.written, now.written)
    &&& now.sequence == start.sequence + done.len()
    &&& kept_on(start.calls, deadline, now.calls, looks)
    &&& paced(start.flushed, now.flushed, done.len() as int)
    &&& said(start.diagnostics, now.diagnostics, Seq::empty())
}

/// Why writing stopped on the way.
pub enum Halt {
    /// The run was over.
    Over,
    /// An event was not written.
    Unwritten(OutputError),
    /// The flush after a batch failed.
    Unflushed,
    /// There was no next sequence number.
    Overflow,
}

/// Writing stopped after the first `count` events of the order, with the output at
/// `middle`, and the run ends with this reason. It was asked that often whether the run
/// was over; `times` tells how often by the time of each event of the order, so that what
/// was written is what had its time.
pub open spec fn halted_by<'a, D: Sink, F: Fn(&WatchRecord<'a>) -> Serialized>(
    settings: EventSettings<'a, F>,
    events: Seq<WatchEvent<'a>>,
    deadline: Option<Duration>,
    order: Seq<int>,
    times: Seq<nat>,
    start: Ledger<D>,
    now: Ledger<D>,
    reason: ExitReason,
    count: int,
    middle: Intake,
    halt: Halt,
    looks: nat,
) -> bool {
    let last = now.flushed.last();
    &&& 0 <= count <= order.len()
    &&& times.len() == order.len()
    &&& wrote(settings, events, order.take(count), start.sequence, start.written, middle)
    &&& now.sequence == sequence_after(start.sequence, count)
    &&& match halt {
        Halt::Over => {
            &&& now.written == middle
            &&& stopped_on(start.calls, deadline, now.calls, looks)
            &&& count > 0 ==> times[count - 1] <= looks
            &&& count < times.len() ==> looks < times[count]
            &&& now.flushed.len() > 0
            &&& paced(start.flushed, now.flushed.drop_last(), count)
            &&& reason == flush_reason(last, ExitReason::Success)
            &&& said(start.diagnostics, now.diagnostics, flush_lines(last))
        },
        Halt::Unwritten(error) => {
            &&& count < order.len()
            &&& wrote_one(
                settings,
                events[order[count]],
                start.sequence + count,
                middle,
                now.written,
                Err(error),
            )
            &&& now.written.refused == middle.refused ==> refused_one(
                settings,
                events[order[count]],
                start.sequence + count,
                error,
            )
            &&& times[count] == looks
            &&& kept_on(start.calls, deadline, now.calls, looks)
            &&& paced(start.flushed, now.flushed, count)
            &&& reason == output_reason(error)
            &&& said(start.diagnostics, now.diagnostics, output_lines(error))
        },
        Halt::Unflushed => {
            &&& now.written == middle
            &&& kept_on(start.calls, deadline, now.calls, looks)
            &&& now.flushed.len() > 0
            &&& last is Err
            &&& count > 0 && count % WATCH_EVENT_BATCH_MAX as int == 0
            &&& times[count - 1] == looks
            &&& paced(start.flushed, now.flushed.drop_last(), count - 1)
            &&& reason == flush_reason(last, ExitReason::Success)
            &&& said(start.diagnostics, now.diagnostics, flush_lines(last))
        },
        Halt::Overflow => {
            &&& now.written == middle
            &&& kept_on(start.calls, deadline, now.calls, looks)
            &&& count > 0 && start.sequence + count > u64::MAX
            &&& times[count - 1] == looks
            &&& now.flushed.len() > 0
            &&& paced(start.flushed, now.flushed.drop_last(), count - 1)
            &&& reason == flush_reason(last, ExitReason::Failure)
            &&& said(
                start.diagnostics,
                now.diagnostics,
                seq![problem_line("watch sequence overflowed"@)] + flush_lines(last),
            )
        },
    }
}

/// Writing stopped on the way, for one of these reasons.
pub open spec fn halted<'a, D: Sink, F: Fn(&WatchRecord<'a>) -> Serialized>(
    settings: EventSettings<'a, F>,
    events: Seq<WatchEvent<'a>>,
    deadline: Option<Duration>,
    order: Seq<int>,
    times: Seq<nat>,
    start: Ledger<D>,
    now: Ledger<D>,
    reason: ExitReason,
) -> bool {
    exists|bound: nat| #[trigger]
        halted_within(settings, events, deadline, order, times, start, now, reason, bound)
}

/// The same, and it was not asked more often than `bound` says whether the run was over.
pub open spec fn halted_within<'a, D: Sink, F: Fn(&WatchRecord<'a>) -> Serialized>(
    settings: EventSettings<'a, F>,
    events: Seq<WatchEvent<'a>>,
    deadline: Option<Duration>,
    order: Seq<int>,
    times: Seq<nat>,
    start: Ledger<D>,
    now: Ledger<D>,
    reason: ExitReason,
    bound: nat,
) -> bool {
    exists|count: int, middle: Intake, halt: Halt, looks: nat|
        looks <= bound && #[trigger] halted_by(
            settings,
            events,
            deadline,
            order,
            times,
            start,
            now,
            reason,
            count,
            middle,
            halt,
            looks,
        )
}

/// All groups but the last, which begins at `group`, were written, and it was asked whether
/// the run was over as often as the events that were read and those groups call for.
pub open spec fn cut_at<'a, D: Sink, F: Fn(&WatchRecord<'a>) -> Serialized>(
    settings: EventSettings<'a, F>,
    drawn: DrawnEvents<'a>,
    deadline: Option<Duration>,
    start: Ledger<D>,
    now: Ledger<D>,
    group: int,
    done: Seq<int>,
    looks: nat,
) -> bool {
    let ranks = event_ranks(drawn.events@, *settings.options, *settings.config);
    &&& 0 <= group <= drawn.groups.len()
    &&& drawn.groups.len() > 0 ==> group < drawn.groups.len() && group_end(
        drawn.groups@,
        group,
        group + 1,
    ) == drawn.groups.len()
    &&& emission_order(ranks, drawn.groups@, 0) == done + emission_order(
        ranks,
        drawn.groups@,
        group,
    )
    &&& looks + pass_looks(ranks, drawn.groups@, group) == scan_looks(
        drawn.events.len() as int,
    ) + pass_looks(ranks, drawn.groups@, 0)
    &&& kept_on(start.calls, deadline, now.calls, looks)
    &&& wrote(settings, drawn.events@, done, start.sequence, start.written, now.written)
    &&& now.sequence == start.sequence + done.len()
    &&& paced(start.flushed, now.flushed.drop_last(), done.len() as int)
}

/// The comparison itself had failed behind its events: all groups but the last were
/// written, the failure was reported, and the run ends with this reason. It was asked
/// whether the run was over as often as the events that were read and the groups that were
/// written call for.
pub open spec fn cut_short<'a, D: Sink, F: Fn(&WatchRecord<'a>) -> Serialized>(
    settings: EventSettings<'a, F>,
    drawn: DrawnEvents<'a>,
    deadline: Option<Duration>,
    start: Ledger<D>,
    now: Ledger<D>,
    reason: ExitReason,
) -> bool {
    let last = now.flushed.last();
    &&& drawn.failure is Some
    &&& exists|group: int, done: Seq<int>, looks: nat| #[trigger]
        cut_at(settings, drawn, deadline, start, now, group, done, looks)
    &&& now.flushed.len() > 0
    &&& reason == flush_reason(last, ExitReason::Failure)
    &&& said(
        start.diagnostics,
        now.diagnostics,
        seq![problem_line(drawn.failure->0@)] + flush_lines(last),
    )
}

/// What writing a comparison's events came to: all of them were written, and it was asked
/// exactly as often as they call for whether the run was over; or the run ends.
pub open spec fn emitted_all<'a, D: Sink, F: Fn(&WatchRecord<'a>) -> Serialized>(
    settings: EventSettings<'a, F>,
    drawn: DrawnEvents<'a>,
    deadline: Option<Duration>,
    start: Ledger<D>,
    now: Ledger<D>,
    r: Option<ExitReason>,
) -> bool {
    let ranks = event_ranks(drawn.events@, *settings.options, *settings.config);
    let order = emission_order(ranks, drawn.groups@, 0);
    let times = emission_times(ranks, drawn.groups@, 0, 0);
    match r {
        None => drawn.failure is None && under_way(
            settings,
            drawn.events@,
            deadline,
            start,
            order,
            now,
            (scan_looks(drawn.events.len() as int) + pass_looks(ranks, drawn.groups@, 0)) as nat,
            times,
        ),
        Some(reason) => halted(settings, drawn.events@, deadline, order, times, start, now, reason)
            || cut_short(settings, drawn, deadline, start, now, reason),
    }
}

proof fn lemma_halted_extends<'a, D: Sink, F: Fn(&WatchRecord<'a>) -> Serialized>(
    settings: EventSettings<'a, F>,
    events: Seq<WatchEvent<'a>>,
    deadline: Option<Duration>,
    part: Seq<int>,
    part_times: Seq<nat>,
    rest: Seq<int>,
    rest_times: Seq<nat>,
    start: Ledger<D>,
    now: Ledger<D>,
    reason: ExitReason,
    bound: nat,
    wider: nat,
)
    requires
        halted_within(settings, events, deadline, part, part_times, start, now, reason, bound),
        rest.len() == rest_times.len(),
        all_after(rest_times, bound),
        bound <= wider,
    ensures
        halted_within(
            settings,
            events,
            deadline,
            part + rest,
            part_times + rest_times,
            start,
            now,
            reason,
            wider,
        ),
{
    let (count, middle, halt, looks) = choose|
        count: int,
        middle: Intake,
        halt: Halt,
        looks: nat,
    |
        looks <= bound && #[trigger] halted_by(
            settings,
            events,
            deadline,
            part,
            part_times,
            start,
            now,
            reason,
            count,
            middle,
            halt,
            looks,
        );
    assert((part + rest).take(count) =~= part.take(count));
    if count < part.len() {
        assert((part + rest)[count] == part[count]);
    }
    assert(halted_by(
        settings,
        events,
        deadline,
        part + rest,
        part_times + rest_times,
        start,
        now,
        reason,
        count,
        middle,
        halt,
        looks,
    ));
}

/// The run was over while writing was under way, and was flushed.
proof fn lemma_halted_over<'a, D: Sink, F: Fn(&WatchRecord<'a>) -> Serialized>(
    settings: EventSettings<'a, F>,
    events: Seq<WatchEvent<'a>>,
    deadline: Option<Duration>,
    done: Seq<int>,
    timed: Seq<nat>,
    rest: Seq<int>,
    rest_times: Seq<nat>,
    start: Ledger<D>,
    middle: Ledger<D>,
    looks: nat,
    now: Ledger<D>,
    reason: ExitReason,
    bound: nat,
)
    requires
        under_way(settings, events, deadline, start, done, middle, looks, timed),
        rest.len() == rest_times.len(),
        all_after(rest_times, looks),
        looks <= bound,
        look_stopped(middle.calls, deadline, now.calls),
        now.written == middle.written,
        now.sequence == middle.sequence,
        middle.sequence <= u64::MAX,
        now.flushed.len() > 0,
        now.flushed.drop_last() == middle.flushed,
        reason == flush_reason(now.flushed.last(), ExitReason::Success),
        said(middle.diagnostics, now.diagnostics, flush_lines(now.flushed.last())),
    ensures
        halted_within(
            settings,
            events,
            deadline,
            done + rest,
            timed + rest_times,
            start,
            now,
            reason,
            bound,
        ),
{
    let lines = flush_lines(now.flushed.last());
    lemma_said_more(
        start.diagnostics,
        middle.diagnostics,
        now.diagnostics,
        Seq::empty(),
        lines,
    );
    assert(Seq::<Seq<char>>::empty() + lines =~= lines);
    assert((done + rest).take(done.len() as int) =~= done);
    assert(stopped_on(start.calls, deadline, now.calls, looks));
    assert(halted_by(
        settings,
        events,
        deadline,
        done + rest,
        timed + rest_times,
        start,
        now,
        reason,
        done.len() as int,
        now.written,
        Halt::Over,
        looks,
    ));
}

proof fn lemma_paced_more(
    before: Seq<Result<(), IoError>>,
    after: Seq<Result<(), IoError>>,
    count: int,
    flushed: Result<(), IoError>,
)
    requires
        count >= 0,
        paced(before, after, count),
    ensures
        (count + 1) % WATCH_EVENT_BATCH_MAX as int != 0 ==> paced(before, after, count + 1),
        (count + 1) % WATCH_EVENT_BATCH_MAX as int == 0 && flushed is Ok ==> paced(
            before,
            after.push(flushed),
            count + 1,
        ),
{
    let longer = after.push(flushed);
    assert(longer.take(before.len() as int) =~= after.take(before.len() as int));
    assert forall|i: int| before.len() <= i < longer.len() && flushed is Ok implies (
    #[trigger] longer[i]) is Ok by {
        if i < after.len() {
            assert(longer[i] == after[i]);
        }
    }
    assert(before.is_prefix_of(longer));
}

proof fn lemma_wrote_push<'a, F: Fn(&WatchRecord<'a>) -> Serialized>(
    settings: EventSettings<'a, F>,
    events: Seq<WatchEvent<'a>>,
    order: Seq<int>,
    position: int,
    first: int,
    before: Intake,
    mid: Intake,
    after: Intake,
)
    requires
        wrote(settings, events, order, first, before, mid),
        wrote_one(settings, events[position], first + order.len(), mid, after, Ok(())),
    ensures
        wrote(settings, events, order.push(position), first, before, after),
{
    let longer = order.push(position);
    assert(longer.drop_last() =~= order);
    assert(wrote(settings, events, longer.drop_last(), first, before, mid));
    assert(wrote_one(
        settings,
        events[longer.last()],
        first + longer.len() - 1,
        mid,
        after,
        Ok(()),
    ));
}

proof fn lemma_rank_positions_split(
    ranks: Seq<Option<u32>>,
    lo: int,
    mid: int,
    hi: int,
    rank: u32,
)
    requires
        lo <= mid <= hi,
    ensures
        exists|rest: Seq<int>|
            ranked_positions(ranks, lo, hi, rank) == #[trigger] (ranked_positions(
                ranks,
                lo,
                mid,
                rank,
            ) + rest),
    decreases hi - mid,
{
    if mid == hi {
        assert(ranked_positions(ranks, lo, hi, rank) =~= ranked_positions(ranks, lo, mid, rank)
            + Seq::<int>::empty());
    } else {
        lemma_rank_positions_split(ranks, lo, mid, hi - 1, rank);
        let rest = choose|rest: Seq<int>|
            ranked_positions(ranks, lo, hi - 1, rank) == #[trigger] (ranked_positions(
                ranks,
                lo,
                mid,
                rank,
            ) + rest);
        if ranks[hi - 1] == Some(rank) {
            assert(ranked_positions(ranks, lo, hi, rank) =~= ranked_positions(ranks, lo, mid, rank)
                + rest.push(hi - 1));
        }
    }
}

/// Write one event and count it.
#[verifier::rlimit(30)]
fn write_next_event<'a, W: Sink, D: Sink, F: Fn(&WatchRecord<'a>) -> Serialized>(
    drawn: &DrawnEvents<'a>,
    settings: &EventSettings<'a, F>,
    output: &mut W,
    diagnostics: &mut D,
    sequence: &mut u64,
    batch_count: &mut usize,
    previous: &SnapshotIndex,
    current: &SnapshotIndex,
    position: usize,
    filter_result: FilterResult,
    Ghost(done): Ghost<Seq<int>>,
    Ghost(deadline): Ghost<Option<Duration>>,
    Ghost(start): Ghost<Ledger<D>>,
    Ghost(calls): Ghost<Seq<RuntimeCall>>,
    Ghost(looks): Ghost<nat>,
    Ghost(timed): Ghost<Seq<nat>>,
) -> (r: Option<ExitReason>)
    requires
        drawn.wf(),
        position < drawn.events.len(),
        previous.serves(drawn.previous),
        current.serves(Some(drawn.current)),
        forall|record: &WatchRecord<'a>| call_requires(*settings.serialize, (record,)),
        event_result(drawn.events@[position as int], *settings.options, *settings.config) == Some(
            filter_result,
        ),
        under_way(
            *settings,
            drawn.events@,
            deadline,
            start,
            done,
            ledger(calls, *old(output), *old(diagnostics), *old(sequence)),
            looks,
            timed,
        ),
        *old(batch_count) == done.len() % WATCH_EVENT_BATCH_MAX as nat,
    ensures
        old(output).failed() ==> final(output).failed(),
        match r {
            None => {
                &&& under_way(
                    *settings,
                    drawn.events@,
                    deadline,
                    start,
                    done.push(position as int),
                    ledger(calls, *final(output), *final(diagnostics), *final(sequence)),
                    looks,
                    timed.push(looks),
                )
                &&& *final(batch_count) == (done.len() + 1) % WATCH_EVENT_BATCH_MAX as nat
            },
            Some(reason) => halted_within(
                *settings,
                drawn.events@,
                deadline,
                done.push(position as int),
                timed.push(looks),
                start,
                ledger(calls, *final(output), *final(diagnostics), *final(sequence)),
                reason,
                looks,
            ),
        },
{
    let ghost mid = intake(*output);
    let ghost longer = done.push(position as int);
    let ghost said_before = *diagnostics;
    let ghost flushed_before = output.flushed();
    let event = drawn.events[position];
    let written = write_endpoint_event(
        output,
        settings.options.json,
        *sequence,
        settings.observation,
        event,
        filter_result,
        settings.options.terms.as_slice(),
        settings.config,
        Some(&previous.gaps),
        Some(&current.gaps),
        settings.serialize,
    );
    assert(wrote_one(
        *settings,
        drawn.events@[position as int],
        start.sequence + done.len(),
        mid,
        intake(*output),
        written,
    )) by {
        reveal(wrote_one);
    }
    let ghost outcome = written;
    match written {
        Ok(unit) => {
            assert(unit == ());
            assert(outcome == Ok::<(), OutputError>(unit));
        },
        Err(error) => {
            let reason = output_failure(diagnostics, &error);
            proof {
                assert(longer.take(done.len() as int) =~= done);
                assert(longer[done.len() as int] == position as int);
                if output.refused() == mid.refused {
                    assert(refused_one(
                        *settings,
                        drawn.events@[position as int],
                        start.sequence + done.len(),
                        error,
                    )) by {
                        reveal(refused_one);
                    }
                }
                lemma_said_more(
                    start.diagnostics,
                    said_before,
                    *diagnostics,
                    Seq::empty(),
                    output_lines(error),
                );
                assert(Seq::<Seq<char>>::empty() + output_lines(error) =~= output_lines(error));
                assert(halted_by(
                    *settings,
                    drawn.events@,
                    deadline,
                    longer,
                    timed.push(looks),
                    start,
                    ledger(calls, *output, *diagnostics, *sequence),
                    reason,
                    done.len() as int,
                    mid,
                    Halt::Unwritten(error),
                    looks,
                ));
            }
            return Some(reason);
        },
    }
    proof {
        lemma_wrote_push(
            *settings,
            drawn.events@,
            done,
            position as int,
            start.sequence,
            start.written,
            mid,
            intake(*output),
        );
        lemma_paced_more(start.flushed, flushed_before, done.len() as int, Ok(()));
        assert(longer.take(longer.len() as int) =~= longer);
    }
    match sequence.checked_add(1) {
        Some(next_sequence) => {
            *sequence = next_sequence;
        },
        None => {
            write_diagnostic(diagnostics, "watch sequence overflowed");
            let ghost told = *diagnostics;
            let reason = flush_exit(output, diagnostics, ExitReason::Failure);
            proof {
                let line = seq![problem_line("watch sequence overflowed"@)];
                lemma_said_more(start.diagnostics, said_before, told, Seq::empty(), line);
                assert(Seq::<Seq<char>>::empty() + line =~= line);
                lemma_said_more(
                    start.diagnostics,
                    told,
                    *diagnostics,
                    line,
                    flush_lines(output.flushed().last()),
                );
                assert(halted_by(
                    *settings,
                    drawn.events@,
                    deadline,
                    longer,
                    timed.push(looks),
                    start,
                    ledger(calls, *output, *diagnostics, *sequence),
                    reason,
                    longer.len() as int,
                    intake(*output),
                    Halt::Overflow,
                    looks,
                ));
            }
            return Some(reason);
        },
    }
    *batch_count = *batch_count + 1;
    if *batch_count == WATCH_EVENT_BATCH_MAX {
        *batch_count = 0;
        let flushed = output.flush();
        let ghost came = flushed;
        proof {
            lemma_paced_more(start.flushed, flushed_before, done.len() as int, came);
            assert(output.flushed().drop_last() =~= flushed_before);
        }
        match flushed {
            Ok(()) => {},
            Err(error) => {
                let reason = io_failure(diagnostics, &error);
                proof {
                    let lines = flush_lines(came);
                    lemma_said_more(
                        start.diagnostics,
                        said_before,
                        *diagnostics,
                        Seq::empty(),
                        lines,
                    );
                    assert(Seq::<Seq<char>>::empty() + lines =~= lines);
                    assert(halted_by(
                        *settings,
                        drawn.events@,
                        deadline,
                        longer,
                        timed.push(looks),
                        start,
                        ledger(calls, *output, *diagnostics, *sequence),
                        reason,
                        longer.len() as int,
                        intake(*output),
                        Halt::Unflushed,
                        looks,
                    ));
                }
                return Some(reason);
            },
        }
    }
    None
}

/// Write the events of one rank in a group, in order.
#[verifier::rlimit(30)]
fn write_rank_pass<'a, R: WatchRuntime, W: Sink, D: Sink, F: Fn(&WatchRecord<'a>) -> Serialized>(
    drawn: &DrawnEvents<'a>,
    settings: &EventSettings<'a, F>,
    runtime: &mut R,
    deadline: Option<Duration>,
    output: &mut W,
    diagnostics: &mut D,
    sequence: &mut u64,
    batch_count: &mut usize,
    previous: &mut SnapshotIndex,
    current: &mut SnapshotIndex,
    start: usize,
    end: usize,
    rank: u32,
    Ghost(done): Ghost<Seq<int>>,
    Ghost(begun): Ghost<Ledger<D>>,
    Ghost(looks): Ghost<nat>,
    Ghost(timed): Ghost<Seq<nat>>,
) -> (r: Option<ExitReason>)
    requires
        drawn.wf(),
        start <= end <= drawn.events.len(),
        old(previous).serves(drawn.previous),
        old(current).serves(Some(drawn.current)),
        forall|record: &WatchRecord<'a>| call_requires(*settings.serialize, (record,)),
        under_way(
            *settings,
            drawn.events@,
            deadline,
            begun,
            done,
            ledger(old(runtime).calls(), *old(output), *old(diagnostics), *old(sequence)),
            looks,
            timed,
        ),
        *old(batch_count) == done.len() % WATCH_EVENT_BATCH_MAX as nat,
    ensures
        final(previous).serves(drawn.previous),
        final(current).serves(Some(drawn.current)),
        old(output).failed() ==> final(output).failed(),
        ({
            let ranks = event_ranks(drawn.events@, *settings.options, *settings.config);
            let full = done + ranked_positions(ranks, start as int, end as int, rank);
            let full_times = timed + rank_times(ranks, start as int, end as int, rank, looks);
            let later = (looks + (end - start) + 1) as nat;
            let now = ledger(
                final(runtime).calls(),
                *final(output),
                *final(diagnostics),
                *final(sequence),
            );
            match r {
                None => {
                    &&& under_way(
                        *settings,
                        drawn.events@,
                        deadline,
                        begun,
                        full,
                        now,
                        later,
                        full_times,
                    )
                    &&& *final(batch_count) == full.len() % WATCH_EVENT_BATCH_MAX as nat
                },
                Some(reason) => halted_within(
                    *settings,
                    drawn.events@,
                    deadline,
                    full,
                    full_times,
                    begun,
                    now,
                    reason,
                    later,
                ),
            }
        }),
{
    let ghost ranks = event_ranks(drawn.events@, *settings.options, *settings.config);
    let ghost full = done + ranked_positions(ranks, start as int, end as int, rank);
    let ghost full_times = timed + rank_times(ranks, start as int, end as int, rank, looks);
    let mut i: usize = start;
    assert(done + ranked_positions(ranks, start as int, start as int, rank) =~= done);
    assert(timed + rank_times(ranks, start as int, start as int, rank, looks) =~= timed);
    loop
        invariant
            drawn.wf(),
            start <= i <= end <= drawn.events.len(),
            previous.serves(drawn.previous),
            current.serves(Some(drawn.current)),
            forall|record: &WatchRecord<'a>| call_requires(*settings.serialize, (record,)),
            ranks == event_ranks(drawn.events@, *settings.options, *settings.config),
            full == done + ranked_positions(ranks, start as int, end as int, rank),
            full_times == timed + rank_times(ranks, start as int, end as int, rank, looks),
            under_way(
                *settings,
                drawn.events@,
                deadline,
                begun,
                done + ranked_positions(ranks, start as int, i as int, rank),
                ledger(runtime.calls(), *output, *diagnostics, *sequence),
                (looks + (i - start)) as nat,
                timed + rank_times(ranks, start as int, i as int, rank, looks),
            ),
            *batch_count == (done + ranked_positions(ranks, start as int, i as int, rank)).len()
                % WATCH_EVENT_BATCH_MAX as nat,
            old(output).failed() ==> output.failed(),
        decreases end - i,
    {
        let ghost part = ranked_positions(ranks, start as int, i as int, rank);
        let ghost so_far = done + part;
        proof {
            lemma_rank_positions_split(ranks, start as int, i as int, end as int, rank);
            lemma_rank_times(ranks, start as int, i as int, i as int, rank, looks);
            lemma_rank_times(ranks, start as int, i as int, end as int, rank, looks);
        }
        let ghost part_times = rank_times(ranks, start as int, i as int, rank, looks);
        let ghost times_so_far = timed + part_times;
        let ghost rest_times = choose|rest: Seq<nat>|
            rank_times(ranks, start as int, end as int, rank, looks) == #[trigger] (part_times
                + rest) && all_after(rest, (looks + (i - start)) as nat);
        assert(times_so_far + rest_times =~= full_times);
        let ghost rest = choose|rest: Seq<int>|
            ranked_positions(ranks, start as int, end as int, rank) == #[trigger] (part + rest);
        assert(so_far + rest =~= full);
        let ghost middle = ledger(runtime.calls(), *output, *diagnostics, *sequence);
        let ghost looked = (looks + (i - start)) as nat;
        if stop_requested(runtime, deadline) {
            let reason = flush_exit(output, diagnostics, ExitReason::Success);
            proof {
                lemma_halted_over(
                    *settings,
                    drawn.events@,
                    deadline,
                    so_far,
                    times_so_far,
                    rest,
                    rest_times,
                    begun,
                    middle,
                    looked,
                    ledger(runtime.calls(), *output, *diagnostics, *sequence),
                    reason,
                    (looks + (end - start) + 1) as nat,
                );
            }
            return Some(reason);
        }
        proof {
            lemma_kept_on_more(begun.calls, deadline, middle.calls, runtime.calls(), looked);
        }
        if i >= end {
            return None;
        }
        let event = drawn.events[i];
        let result = evaluate_event(
            event,
            settings.options,
            settings.config,
            &mut previous.filter,
            &mut current.filter,
        );
        let chosen: Option<FilterResult> = match result {
            Some(found) => if event_order_rank(found, event.certainty) == rank {
                Some(found)
            } else {
                None
            },
            None => None,
        };
        assert(chosen is Some <==> ranks[i as int] == Some(rank));
        match chosen {
            None => {},
            Some(filter_result) => {
                proof {
                    lemma_rank_positions_split(ranks, start as int, i + 1, end as int, rank);
                    lemma_rank_times(ranks, start as int, i + 1, end as int, rank, looks);
                    lemma_rank_times(ranks, start as int, i + 1, i + 1, rank, looks);
                }
                let ghost later = choose|later: Seq<int>|
                    ranked_positions(ranks, start as int, end as int, rank) == #[trigger] (
                    ranked_positions(ranks, start as int, i + 1, rank) + later);
                assert(ranked_positions(ranks, start as int, i + 1, rank) == part.push(i as int));
                assert(so_far.push(i as int) + later =~= full);
                assert(done + part.push(i as int) =~= so_far.push(i as int));
                let ghost later_times = choose|rest: Seq<nat>|
                    rank_times(ranks, start as int, end as int, rank, looks) == #[trigger] (
                    rank_times(ranks, start as int, i + 1, rank, looks) + rest) && all_after(
                        rest,
                        (looks + (i + 1 - start)) as nat,
                    );
                assert(rank_times(ranks, start as int, i + 1, rank, looks) == part_times.push(
                    looked + 1,
                ));
                assert(times_so_far.push(looked + 1) + later_times =~= full_times);
                assert(timed + part_times.push(looked + 1) =~= times_so_far.push(looked + 1));
                let ghost calls = runtime.calls();
                match write_next_event(
                    drawn,
                    settings,
                    output,
                    diagnostics,
                    sequence,
                    batch_count,
                    previous,
                    current,
                    i,
                    filter_result,
                    Ghost(so_far),
                    Ghost(deadline),
                    Ghost(begun),
                    Ghost(calls),
                    Ghost(looked + 1),
                    Ghost(times_so_far),
                ) {
                    None => {},
                    Some(reason) => {
                        proof {
                            lemma_halted_extends(
                                *settings,
                                drawn.events@,
                                deadline,
                                so_far.push(i as int),
                                times_so_far.push(looked + 1),
                                later,
                                later_times,
                                begun,
                                ledger(runtime.calls(), *output, *diagnostics, *sequence),
                                reason,
                                looked + 1,
                                (looks + (end - start) + 1) as nat,
                            );
                        }
                        return Some(reason);
                    },
                }
            },
        }
        i = i + 1;
    }
}

proof fn lemma_group_order_split(
    ranks: Seq<Option<u32>>,
    lo: int,
    hi: int,
    passes: nat,
    all: nat,
)
    requires
        passes <= all,
    ensures
        exists|rest: Seq<int>|
            group_order(ranks, lo, hi, all) == #[trigger] (group_order(ranks, lo, hi, passes)
                + rest),
    decreases all,
{
    if passes == all {
        assert(group_order(ranks, lo, hi, all) =~= group_order(ranks, lo, hi, passes)
            + Seq::<int>::empty());
    } else {
        lemma_group_order_split(ranks, lo, hi, passes, (all - 1) as nat);
        let rest = choose|rest: Seq<int>|
            group_order(ranks, lo, hi, (all - 1) as nat) == #[trigger] (group_order(
                ranks,
                lo,
                hi,
                passes,
            ) + rest);
        let last = ranked_positions(ranks, lo, hi, (all - 1) as u32);
        assert(group_order(ranks, lo, hi, all) =~= group_order(ranks, lo, hi, passes) + (rest
            + last));
    }
}

/// Find where a group ends and which ranks occur in it.
fn scan_group<'a, R: WatchRuntime, W: Sink, D: Sink, F: Fn(&WatchRecord<'a>) -> Serialized>(
    drawn: &DrawnEvents<'a>,
    settings: &EventSettings<'a, F>,
    runtime: &mut R,
    deadline: Option<Duration>,
    output: &mut W,
    diagnostics: &mut D,
    scanned: &mut usize,
    previous: &mut SnapshotIndex,
    current: &mut SnapshotIndex,
    start: usize,
) -> (r: Result<(usize, Vec<bool>), ExitReason>)
    requires
        drawn.wf(),
        start < drawn.events.len(),
        old(previous).serves(drawn.previous),
        old(current).serves(Some(drawn.current)),
        *old(scanned) == start % WATCH_EVENT_BATCH_MAX,
    ensures
        final(previous).serves(drawn.previous),
        final(current).serves(Some(drawn.current)),
        intake(*final(output)) == intake(*old(output)),
        old(output).failed() ==> final(output).failed(),
        match r {
            Ok((end, seen)) => {
                let ranks = event_ranks(drawn.events@, *settings.options, *settings.config);
                &&& end == group_end(drawn.groups@, start as int, start + 1)
                &&& start < end <= drawn.events.len()
                &&& seen.len() == EVENT_ORDER_RANK_COUNT
                &&& *final(scanned) == end % WATCH_EVENT_BATCH_MAX
                &&& forall|rank: int|
                    0 <= rank < seen.len() ==> #[trigger] seen@[rank] == (ranked_positions(
                        ranks,
                        start as int,
                        end as int,
                        rank as u32,
                    ).len() > 0)
                &&& kept_on(
                    old(runtime).calls(),
                    deadline,
                    final(runtime).calls(),
                    (scan_looks(end as int) - scan_looks(start as int)) as nat,
                )
                &&& *final(output) == *old(output)
                &&& *final(diagnostics) == *old(diagnostics)
            },
            Err(reason) => {
                &&& exists|looks: nat| #[trigger]
                    stopped_on(old(runtime).calls(), deadline, final(runtime).calls(), looks)
                        && looks <= group_begin(drawn.groups@, start as int, 0)
                &&& final(output).flushed().len() > 0
                &&& final(output).flushed().drop_last() == old(output).flushed()
                &&& reason == flush_reason(final(output).flushed().last(), ExitReason::Success)
                &&& said(
                    *old(diagnostics),
                    *final(diagnostics),
                    flush_lines(final(output).flushed().last()),
                )
            },
        },
{
    let ghost ranks = event_ranks(drawn.events@, *settings.options, *settings.config);
    let mut seen: Vec<bool> = vec![
        false,
        false,
        false,
        false,
        false,
        false,
        false,
        false,
        false,
        false,
        false,
        false,
    ];
    let mut end: usize = start;
    while end < drawn.events.len() && drawn.groups[end] == drawn.groups[start]
        invariant
            drawn.wf(),
            start <= end <= drawn.events.len(),
            start < drawn.events.len(),
            previous.serves(drawn.previous),
            current.serves(Some(drawn.current)),
            *scanned == end % WATCH_EVENT_BATCH_MAX,
            *output == *old(output),
            *diagnostics == *old(diagnostics),
            kept_on(
                old(runtime).calls(),
                deadline,
                runtime.calls(),
                (scan_looks(end as int) - scan_looks(start as int)) as nat,
            ),
            ranks == event_ranks(drawn.events@, *settings.options, *settings.config),
            end > start ==> group_end(drawn.groups@, start as int, start + 1) == group_end(
                drawn.groups@,
                start as int,
                end as int,
            ),
            seen.len() == EVENT_ORDER_RANK_COUNT,
            forall|rank: int|
                0 <= rank < seen.len() ==> #[trigger] seen@[rank] == (ranked_positions(
                    ranks,
                    start as int,
                    end as int,
                    rank as u32,
                ).len() > 0),
        decreases drawn.events.len() - end,
    {
        let event = drawn.events[end];
        match evaluate_event(
            event,
            settings.options,
            settings.config,
            &mut previous.filter,
            &mut current.filter,
        ) {
            Some(filter_result) => {
                let rank: u32 = event_order_rank(filter_result, event.certainty);
                seen.set(rank as usize, true);
            },
            None => {},
        }
        *scanned = *scanned + 1;
        if *scanned == WATCH_EVENT_BATCH_MAX {
            *scanned = 0;
            let ghost middle = runtime.calls();
            let ghost looks = (scan_looks(end as int) - scan_looks(start as int)) as nat;
            if stop_requested(runtime, deadline) {
                assert(look_stopped(middle, deadline, runtime.calls()));
                assert(stopped_on(old(runtime).calls(), deadline, runtime.calls(), looks));
                proof {
                    lemma_group_end(drawn.groups@, start as int, start + 1);
                    if end > start {
                        lemma_group_end(drawn.groups@, start as int, end as int);
                    }
                    assert(end <= group_end(drawn.groups@, start as int, start + 1));
                }
                return Err(flush_exit(output, diagnostics, ExitReason::Success));
            }
            proof {
                lemma_kept_on_more(old(runtime).calls(), deadline, middle, runtime.calls(), looks);
            }
        }
        end = end + 1;
    }
    Ok((end, seen))
}

/// Write the events of one group, rank after rank.
fn write_group<'a, R: WatchRuntime, W: Sink, D: Sink, F: Fn(&WatchRecord<'a>) -> Serialized>(
    drawn: &DrawnEvents<'a>,
    settings: &EventSettings<'a, F>,
    runtime: &mut R,
    deadline: Option<Duration>,
    output: &mut W,
    diagnostics: &mut D,
    sequence: &mut u64,
    batch_count: &mut usize,
    previous: &mut SnapshotIndex,
    current: &mut SnapshotIndex,
    start: usize,
    end: usize,
    seen: &Vec<bool>,
    Ghost(done): Ghost<Seq<int>>,
    Ghost(begun): Ghost<Ledger<D>>,
    Ghost(looks): Ghost<nat>,
    Ghost(timed): Ghost<Seq<nat>>,
) -> (r: Option<ExitReason>)
    requires
        drawn.wf(),
        start <= end <= drawn.events.len(),
        old(previous).serves(drawn.previous),
        old(current).serves(Some(drawn.current)),
        forall|record: &WatchRecord<'a>| call_requires(*settings.serialize, (record,)),
        under_way(
            *settings,
            drawn.events@,
            deadline,
            begun,
            done,
            ledger(old(runtime).calls(), *old(output), *old(diagnostics), *old(sequence)),
            looks,
            timed,
        ),
        *old(batch_count) == done.len() % WATCH_EVENT_BATCH_MAX as nat,
        seen.len() == EVENT_ORDER_RANK_COUNT,
        forall|rank: int|
            0 <= rank < seen.len() ==> #[trigger] seen@[rank] == (ranked_positions(
                event_ranks(drawn.events@, *settings.options, *settings.config),
                start as int,
                end as int,
                rank as u32,
            ).len() > 0),
    ensures
        final(previous).serves(drawn.previous),
        final(current).serves(Some(drawn.current)),
        old(output).failed() ==> final(output).failed(),
        ({
            let ranks = event_ranks(drawn.events@, *settings.options, *settings.config);
            let full = done + group_order(
                ranks,
                start as int,
                end as int,
                EVENT_ORDER_RANK_COUNT as nat,
            );
            let full_times = timed + group_times(
                ranks,
                start as int,
                end as int,
                EVENT_ORDER_RANK_COUNT as nat,
                looks,
            );
            let later = looks + group_looks(
                ranks,
                start as int,
                end as int,
                EVENT_ORDER_RANK_COUNT as nat,
            );
            let now = ledger(
                final(runtime).calls(),
                *final(output),
                *final(diagnostics),
                *final(sequence),
            );
            match r {
                None => {
                    &&& under_way(
                        *settings,
                        drawn.events@,
                        deadline,
                        begun,
                        full,
                        now,
                        later,
                        full_times,
                    )
                    &&& *final(batch_count) == full.len() % WATCH_EVENT_BATCH_MAX as nat
                },
                Some(reason) => halted_within(
                    *settings,
                    drawn.events@,
                    deadline,
                    full,
                    full_times,
                    begun,
                    now,
                    reason,
                    later,
                ),
            }
        }),
{
    let ghost ranks = event_ranks(drawn.events@, *settings.options, *settings.config);
    let ghost lo = start as int;
    let ghost hi = end as int;
    let ghost all = EVENT_ORDER_RANK_COUNT as nat;
    let ghost full = done + group_order(ranks, lo, hi, all);
    let ghost full_times = timed + group_times(ranks, lo, hi, all, looks);
    let mut rank: u32 = 0;
    assert(done + group_order(ranks, lo, hi, 0) =~= done);
    assert(timed + group_times(ranks, lo, hi, 0, looks) =~= timed);
    while rank < EVENT_ORDER_RANK_COUNT
        invariant
            drawn.wf(),
            start <= end <= drawn.events.len(),
            lo == start,
            hi == end,
            rank <= EVENT_ORDER_RANK_COUNT,
            previous.serves(drawn.previous),
            current.serves(Some(drawn.current)),
            forall|record: &WatchRecord<'a>| call_requires(*settings.serialize, (record,)),
            ranks == event_ranks(drawn.events@, *settings.options, *settings.config),
            all == EVENT_ORDER_RANK_COUNT as nat,
            full == done + group_order(ranks, lo, hi, all),
            full_times == timed + group_times(ranks, lo, hi, all, looks),
            under_way(
                *settings,
                drawn.events@,
                deadline,
                begun,
                done + group_order(ranks, lo, hi, rank as nat),
                ledger(runtime.calls(), *output, *diagnostics, *sequence),
                looks + group_looks(ranks, lo, hi, rank as nat),
                timed + group_times(ranks, lo, hi, rank as nat, looks),
            ),
            *batch_count == (done + group_order(ranks, lo, hi, rank as nat)).len()
                % WATCH_EVENT_BATCH_MAX as nat,
            seen.len() == EVENT_ORDER_RANK_COUNT,
            forall|r: int|
                0 <= r < seen.len() ==> #[trigger] seen@[r] == (ranked_positions(
                    ranks,
                    lo,
                    hi,
                    r as u32,
                ).len() > 0),
            old(output).failed() ==> output.failed(),
        decreases EVENT_ORDER_RANK_COUNT - rank,
    {
        let ghost so_far = done + group_order(ranks, lo, hi, rank as nat);
        let ghost next = done + group_order(ranks, lo, hi, (rank + 1) as nat);
        let ghost here = ranked_positions(ranks, lo, hi, rank);
        assert(next =~= so_far + here);
        let ghost looked = looks + group_looks(ranks, lo, hi, rank as nat);
        let ghost times_so_far = timed + group_times(ranks, lo, hi, rank as nat, looks);
        let ghost next_times = timed + group_times(ranks, lo, hi, (rank + 1) as nat, looks);
        let ghost here_times = rank_times(ranks, lo, hi, rank, looked);
        assert(next_times =~= times_so_far + here_times);
        proof {
            lemma_rank_times(ranks, lo, hi, hi, rank, looked);
        }
        if seen[rank as usize] {
            match write_rank_pass(
                drawn,
                settings,
                runtime,
                deadline,
                output,
                diagnostics,
                sequence,
                batch_count,
                previous,
                current,
                start,
                end,
                rank,
                Ghost(so_far),
                Ghost(begun),
                Ghost(looked),
                Ghost(times_so_far),
            ) {
                None => {},
                Some(reason) => {
                    proof {
                        lemma_group_order_split(
                            ranks,
                            lo,
                            hi,
                            (rank + 1) as nat,
                            EVENT_ORDER_RANK_COUNT as nat,
                        );
                        let rest = choose|rest: Seq<int>|
                            group_order(ranks, lo, hi, EVENT_ORDER_RANK_COUNT as nat)
                                == #[trigger] (group_order(ranks, lo, hi, (rank + 1) as nat)
                                + rest);
                        assert(full =~= next + rest);
                        lemma_group_times(ranks, lo, hi, (rank + 1) as nat, all, looks);
                        lemma_group_times(
                            ranks,
                            lo,
                            hi,
                            (rank + 1) as nat,
                            (rank + 1) as nat,
                            looks,
                        );
                        let rest_times = choose|rest: Seq<nat>|
                            group_times(ranks, lo, hi, all, looks) == #[trigger] (group_times(
                                ranks,
                                lo,
                                hi,
                                (rank + 1) as nat,
                                looks,
                            ) + rest) && all_after(
                                rest,
                                looks + group_looks(ranks, lo, hi, (rank + 1) as nat),
                            );
                        assert(full_times =~= next_times + rest_times);
                        lemma_halted_extends(
                            *settings,
                            drawn.events@,
                            deadline,
                            next,
                            next_times,
                            rest,
                            rest_times,
                            begun,
                            ledger(runtime.calls(), *output, *diagnostics, *sequence),
                            reason,
                            looks + group_looks(ranks, lo, hi, (rank + 1) as nat),
                            looks + group_looks(ranks, lo, hi, all),
                        );
                    }
                    return Some(reason);
                },
            }
        } else {
            assert(here =~= Seq::empty());
            assert(next =~= so_far);
            assert(here_times =~= Seq::empty());
            assert(next_times =~= times_so_far);
        }
        rank = rank + 1;
    }
    None
}

/// Write the events of one comparison: group after group, within a group by rank,
/// events of one rank as they come. `None` where all were written; the run's end
/// otherwise. A comparison that ended early leaves its last group unwritten.
#[verifier::rlimit(30)]
pub fn write_ordered_events<
    'a,
    R: WatchRuntime,
    W: Sink,
    D: Sink,
    F: Fn(&WatchRecord<'a>) -> Serialized,
>(
    drawn: &DrawnEvents<'a>,
    settings: &EventSettings<'a, F>,
    runtime: &mut R,
    deadline: Option<Duration>,
    output: &mut W,
    diagnostics: &mut D,
    sequence: &mut u64,
    previous: &mut SnapshotIndex,
    current: &mut SnapshotIndex,
) -> (r: Option<ExitReason>)
    requires
        drawn.wf(),
        old(previous).serves(drawn.previous),
        old(current).serves(Some(drawn.current)),
        forall|record: &WatchRecord<'a>| call_requires(*settings.serialize, (record,)),
    ensures
        final(previous).serves(drawn.previous),
        final(current).serves(Some(drawn.current)),
        old(output).failed() ==> final(output).failed(),
        emitted_all(
            *settings,
            *drawn,
            deadline,
            ledger(old(runtime).calls(), *old(output), *old(diagnostics), *old(sequence)),
            ledger(final(runtime).calls(), *final(output), *final(diagnostics), *final(sequence)),
            r,
        ),
{
    let ghost ranks = event_ranks(drawn.events@, *settings.options, *settings.config);
    let ghost groups = drawn.groups@;
    let ghost begun = ledger(runtime.calls(), *output, *diagnostics, *sequence);
    let ghost order = emission_order(ranks, groups, 0);
    let ghost mut done = Seq::<int>::empty();
    let ghost mut looks: nat = 0;
    let ghost mut timed = Seq::<nat>::empty();
    let ghost times = emission_times(ranks, groups, 0, 0);
    let mut batch_count: usize = 0;
    let mut scanned: usize = 0;
    let mut start: usize = 0;
    assert(done + order =~= order);
    assert(timed + times =~= times);
    proof {
        lemma_said_nothing(*diagnostics);
    }
    while start < drawn.events.len()
        invariant
            drawn.wf(),
            start <= drawn.events.len(),
            previous.serves(drawn.previous),
            current.serves(Some(drawn.current)),
            forall|record: &WatchRecord<'a>| call_requires(*settings.serialize, (record,)),
            ranks == event_ranks(drawn.events@, *settings.options, *settings.config),
            groups == drawn.groups@,
            begun == ledger(old(runtime).calls(), *old(output), *old(diagnostics), *old(sequence)),
            order == emission_order(ranks, groups, 0),
            order == done + emission_order(ranks, groups, start as int),
            under_way(
                *settings,
                drawn.events@,
                deadline,
                begun,
                done,
                ledger(runtime.calls(), *output, *diagnostics, *sequence),
                looks,
                timed,
            ),
            times == emission_times(ranks, groups, 0, 0),
            times == timed + emission_times(ranks, groups, start as int, looks),
            looks + pass_looks(ranks, groups, start as int) == scan_looks(start as int)
                + pass_looks(ranks, groups, 0),
            batch_count == done.len() % WATCH_EVENT_BATCH_MAX as nat,
            scanned == start % WATCH_EVENT_BATCH_MAX,
            old(output).failed() ==> output.failed(),
            start == drawn.events.len() ==> start == 0 || drawn.failure is None,
        decreases drawn.events.len() - start,
    {
        let ghost later = emission_order(ranks, groups, start as int);
        let ghost later_times = emission_times(ranks, groups, start as int, looks);
        proof {
            lemma_emission_times(ranks, groups, start as int, looks);
        }
        let ghost before = ledger(runtime.calls(), *output, *diagnostics, *sequence);
        let (end, seen): (usize, Vec<bool>) = match scan_group(
            drawn,
            settings,
            runtime,
            deadline,
            output,
            diagnostics,
            &mut scanned,
            previous,
            current,
            start,
        ) {
            Ok(found) => found,
            Err(reason) => {
                proof {
                    let now = ledger(runtime.calls(), *output, *diagnostics, *sequence);
                    let more = choose|more: nat| #[trigger]
                        stopped_on(before.calls, deadline, now.calls, more) && more <= group_begin(
                            groups,
                            start as int,
                            0,
                        );
                    lemma_group_end(groups, start as int, start + 1);
                    assert(looks + more <= group_begin(groups, start as int, looks));
                    assert(all_after(later_times, looks + more));
                    let calls = choose|calls: Seq<RuntimeCall>|
                        kept_on(before.calls, deadline, calls, more) && #[trigger] look_stopped(
                            calls,
                            deadline,
                            now.calls,
                        );
                    lemma_kept_on_joins(begun.calls, deadline, before.calls, looks, calls, more);
                    lemma_halted_over(
                        *settings,
                        drawn.events@,
                        deadline,
                        done,
                        timed,
                        later,
                        later_times,
                        begun,
                        before.at(calls),
                        looks + more,
                        now,
                        reason,
                        looks + more,
                    );
                }
                return Some(reason);
            },
        };
        proof {
            let more = (scan_looks(end as int) - scan_looks(start as int)) as nat;
            lemma_kept_on_joins(
                begun.calls,
                deadline,
                before.calls,
                looks,
                runtime.calls(),
                more,
            );
            looks = looks + more;
        }
        if end == drawn.events.len() {
            if let Some(error) = &drawn.failure {
                return Some(
                    report_cut(
                        drawn,
                        settings,
                        output,
                        diagnostics,
                        *sequence,
                        error,
                        Ghost(deadline),
                        Ghost(begun),
                        Ghost(runtime.calls()),
                        Ghost(start as int),
                        Ghost(done),
                        Ghost(looks),
                        Ghost(timed),
                    ),
                );
            }
        }
        let ghost here = group_order(ranks, start as int, end as int, EVENT_ORDER_RANK_COUNT as nat);
        let ghost rest = emission_order(ranks, groups, end as int);
        assert(later == here + rest);
        assert(order =~= (done + here) + rest);
        let ghost passes = EVENT_ORDER_RANK_COUNT as nat;
        let ghost here_times = group_times(ranks, start as int, end as int, passes, looks);
        let ghost behind = looks + group_looks(ranks, start as int, end as int, passes);
        let ghost rest_times = emission_times(ranks, groups, end as int, behind);
        assert(later_times == here_times + rest_times);
        assert(times =~= (timed + here_times) + rest_times);
        proof {
            lemma_emission_times(ranks, groups, end as int, behind);
        }
        match write_group(
            drawn,
            settings,
            runtime,
            deadline,
            output,
            diagnostics,
            sequence,
            &mut batch_count,
            previous,
            current,
            start,
            end,
            &seen,
            Ghost(done),
            Ghost(begun),
            Ghost(looks),
            Ghost(timed),
        ) {
            None => {},
            Some(reason) => {
                proof {
                    lemma_halted_extends(
                        *settings,
                        drawn.events@,
                        deadline,
                        done + here,
                        timed + here_times,
                        rest,
                        rest_times,
                        begun,
                        ledger(runtime.calls(), *output, *diagnostics, *sequence),
                        reason,
                        behind,
                        behind,
                    );
                }
                return Some(reason);
            },
        }
        proof {
            done = done + here;
            timed = timed + here_times;
            looks = behind;
        }
        start = end;
    }
    assert(emission_order(ranks, groups, start as int) =~= Seq::empty());
    assert(done =~= order);
    assert(emission_times(ranks, groups, start as int, looks) =~= Seq::empty());
    assert(timed =~= times);
    if let Some(error) = &drawn.failure {
        return Some(
            report_cut(
                drawn,
                settings,
                output,
                diagnostics,
                *sequence,
                error,
                Ghost(deadline),
                Ghost(begun),
                Ghost(runtime.calls()),
                Ghost(start as int),
                Ghost(done),
                Ghost(looks),
                Ghost(timed),
            ),
        );
    }
    None
}

/// Report that the comparison itself had failed, and flush what was written of it.
fn report_cut<'a, W: Sink, D: Sink, F: Fn(&WatchRecord<'a>) -> Serialized>(
    drawn: &DrawnEvents<'a>,
    settings: &EventSettings<'a, F>,
    output: &mut W,
    diagnostics: &mut D,
    sequence: u64,
    error: &String,
    Ghost(deadline): Ghost<Option<Duration>>,
    Ghost(begun): Ghost<Ledger<D>>,
    Ghost(calls): Ghost<Seq<RuntimeCall>>,
    Ghost(group): Ghost<int>,
    Ghost(done): Ghost<Seq<int>>,
    Ghost(looks): Ghost<nat>,
    Ghost(timed): Ghost<Seq<nat>>,
) -> (r: ExitReason)
    requires
        drawn.failure == Some(*error),
        under_way(
            *settings,
            drawn.events@,
            deadline,
            begun,
            done,
            ledger(calls, *old(output), *old(diagnostics), sequence),
            looks,
            timed,
        ),
        ({
            let ranks = event_ranks(drawn.events@, *settings.options, *settings.config);
            &&& emission_order(ranks, drawn.groups@, 0) == done + emission_order(
                ranks,
                drawn.groups@,
                group,
            )
            &&& looks + pass_looks(ranks, drawn.groups@, group) == scan_looks(
                drawn.events.len() as int,
            ) + pass_looks(ranks, drawn.groups@, 0)
        }),
        0 <= group <= drawn.groups.len(),
        drawn.groups.len() > 0 ==> group < drawn.groups.len() && group_end(
            drawn.groups@,
            group,
            group + 1,
        ) == drawn.groups.len(),
    ensures
        old(output).failed() ==> final(output).failed(),
        cut_short(
            *settings,
            *drawn,
            deadline,
            begun,
            ledger(calls, *final(output), *final(diagnostics), sequence),
            r,
        ),
{
    let ghost said_before = *diagnostics;
    let ghost flushed_before = output.flushed();
    write_diagnostic(diagnostics, error.as_str());
    let ghost told = *diagnostics;
    let reason = flush_exit(output, diagnostics, ExitReason::Failure);
    proof {
        let line = seq![problem_line(error@)];
        lemma_said_more(begun.diagnostics, said_before, told, Seq::empty(), line);
        assert(Seq::<Seq<char>>::empty() + line =~= line);
        lemma_said_more(
            begun.diagnostics,
            told,
            *diagnostics,
            line,
            flush_lines(output.flushed().last()),
        );
        assert(output.flushed().drop_last() =~= flushed_before);
        assert(cut_at(
            *settings,
            *drawn,
            deadline,
            begun,
            ledger(calls, *output, *diagnostics, sequence),
            group,
            done,
            looks,
        ));
    }
    reason
}

proof fn lemma_ranked_positions(
    ranks: Seq<Option<u32>>,
    lo: int,
    hi: int,
    rank: u32,
)
    ensures
        forall|p: int|
            #![trigger ranked_positions(ranks, lo, hi, rank).contains(p)]
            ranked_positions(ranks, lo, hi, rank).contains(p) <==> lo <= p < hi && ranks[p] == Some(
                rank,
            ),
        forall|a: int, b: int|
            0 <= a < b < ranked_positions(ranks, lo, hi, rank).len() ==> ranked_positions(
                ranks,
                lo,
                hi,
                rank,
            )[a] < ranked_positions(ranks, lo, hi, rank)[b],
    decreases hi - lo,
{
    if hi > lo {
        lemma_ranked_positions(ranks, lo, hi - 1, rank);
        let head = ranked_positions(ranks, lo, hi - 1, rank);
        let all = ranked_positions(ranks, lo, hi, rank);
        assert forall|p: int| #[trigger] all.contains(p) <==> lo <= p < hi && ranks[p] == Some(
            rank,
        ) by {
            if all.contains(p) {
                let k = choose|k: int| 0 <= k < all.len() && all[k] == p;
                if k < head.len() {
                    assert(head[k] == p);
                    assert(head.contains(p));
                }
            }
            if lo <= p < hi && ranks[p] == Some(rank) {
                if p < hi - 1 {
                    assert(head.contains(p));
                    let k = choose|k: int| 0 <= k < head.len() && head[k] == p;
                    assert(all[k] == p);
                } else {
                    assert(all.last() == p);
                }
            }
        }
        assert forall|a: int, b: int| 0 <= a < b < all.len() implies all[a] < all[b] by {
            assert(head.contains(head[a]) || a >= head.len());
            if b < head.len() {
                assert(head[a] < head[b]);
            } else {
                assert(head.contains(head[a]));
            }
        }
    }
}

/// One position comes before another of its group: its rank is lower or, within a
/// rank, it is the earlier one.
pub open spec fn precedes(ranks: Seq<Option<u32>>, a: int, b: int) -> bool {
    ranks[a]->0 < ranks[b]->0 || (ranks[a] == ranks[b] && a < b)
}

proof fn lemma_group_order(ranks: Seq<Option<u32>>, lo: int, hi: int, passes: nat)
    requires
        passes <= u32::MAX,
    ensures
        forall|p: int|
            #![trigger group_order(ranks, lo, hi, passes).contains(p)]
            group_order(ranks, lo, hi, passes).contains(p) <==> lo <= p < hi && ranks[p] is Some
                && ranks[p]->0 < passes,
        forall|a: int, b: int|
            0 <= a < b < group_order(ranks, lo, hi, passes).len() ==> precedes(
                ranks,
                #[trigger] group_order(ranks, lo, hi, passes)[a],
                #[trigger] group_order(ranks, lo, hi, passes)[b],
            ),
    decreases passes,
{
    if passes > 0 {
        let rank = (passes - 1) as u32;
        lemma_group_order(ranks, lo, hi, (passes - 1) as nat);
        lemma_ranked_positions(ranks, lo, hi, rank);
        let head = group_order(ranks, lo, hi, (passes - 1) as nat);
        let tail = ranked_positions(ranks, lo, hi, rank);
        let all = group_order(ranks, lo, hi, passes);
        assert(all == head + tail);
        assert forall|p: int| #[trigger] all.contains(p) <==> lo <= p < hi && ranks[p] is Some
            && ranks[p]->0 < passes by {
            if all.contains(p) {
                let k = choose|k: int| 0 <= k < all.len() && all[k] == p;
                if k < head.len() {
                    assert(head[k] == p && head.contains(p));
                } else {
                    assert(tail[k - head.len()] == p && tail.contains(p));
                }
            }
            if lo <= p < hi && ranks[p] is Some && ranks[p]->0 < passes {
                if ranks[p]->0 < passes - 1 {
                    assert(head.contains(p));
                    let k = choose|k: int| 0 <= k < head.len() && head[k] == p;
                    assert(all[k] == p);
                } else {
                    assert(tail.contains(p));
                    let k = choose|k: int| 0 <= k < tail.len() && tail[k] == p;
                    assert(all[head.len() + k] == p);
                }
            }
        }
        assert forall|a: int, b: int| 0 <= a < b < all.len() implies precedes(
            ranks,
            #[trigger] all[a],
            #[trigger] all[b],
        ) by {
            if b < head.len() {
                assert(precedes(ranks, head[a], head[b]));
            } else {
                let later = tail[b - head.len()];
                assert(tail.contains(later));
                if a < head.len() {
                    assert(head.contains(head[a]));
                } else {
                    assert(tail.contains(tail[a - head.len()]));
                    assert(tail[a - head.len()] < later);
                }
            }
        }
    }
}

proof fn lemma_same_group(groups: Seq<u64>, start: int, from: int, p: int)
    requires
        0 <= start < from <= p < group_end(groups, start, from),
    ensures
        p < groups.len(),
        groups[p] == groups[start],
    decreases groups.len() - from,
{
    if from >= groups.len() || groups[from] != groups[start] {
    } else if p > from {
        lemma_same_group(groups, start, from + 1, p);
    }
}

/// Two positions lie in one group: nothing between them belongs to another.
pub open spec fn one_group(groups: Seq<u64>, p: int, q: int) -> bool {
    forall|k: int|
        (p <= k <= q || q <= k <= p) ==> #[trigger] groups[k] == groups[p]
}

/// All events that pass the filter, and no others, are written exactly once. Within
/// a group they come by rank, and events of one rank in the order of the
/// comparison; a group is done before the next one begins.
pub proof fn law_passing_events_are_written_once_in_order(
    ranks: Seq<Option<u32>>,
    groups: Seq<u64>,
    start: int,
)
    requires
        0 <= start <= groups.len(),
        ranks.len() == groups.len(),
        forall|i: int|
            0 <= i < ranks.len() && (#[trigger] ranks[i]) is Some ==> ranks[i]->0
                < EVENT_ORDER_RANK_COUNT,
    ensures
        forall|p: int|
            #![trigger emission_order(ranks, groups, start).contains(p)]
            emission_order(ranks, groups, start).contains(p) <==> start <= p < groups.len()
                && ranks[p] is Some,
        forall|a: int, b: int|
            #![trigger emission_order(ranks, groups, start)[a], emission_order(ranks, groups, start)[b]]
            0 <= a < b < emission_order(ranks, groups, start).len() ==> {
                let p = emission_order(ranks, groups, start)[a];
                let q = emission_order(ranks, groups, start)[b];
                if one_group(groups, p, q) {
                    precedes(ranks, p, q)
                } else {
                    p < q
                }
            },
        emission_order(ranks, groups, start).no_duplicates(),
    decreases groups.len() - start,
{
    if start < groups.len() {
        let end = group_end(groups, start, start + 1);
        lemma_group_end(groups, start, start + 1);
        law_passing_events_are_written_once_in_order(ranks, groups, end);
        lemma_group_order(ranks, start, end, EVENT_ORDER_RANK_COUNT as nat);
        let head = group_order(ranks, start, end, EVENT_ORDER_RANK_COUNT as nat);
        let tail = emission_order(ranks, groups, end);
        let all = emission_order(ranks, groups, start);
        assert(all == head + tail);
        assert forall|p: int| #[trigger] all.contains(p) <==> start <= p < groups.len() && ranks[p]
            is Some by {
            if all.contains(p) {
                let k = choose|k: int| 0 <= k < all.len() && all[k] == p;
                if k < head.len() {
                    assert(head[k] == p && head.contains(p));
                } else {
                    assert(tail[k - head.len()] == p && tail.contains(p));
                }
            }
            if start <= p < groups.len() && ranks[p] is Some {
                if p < end {
                    assert(head.contains(p));
                    let k = choose|k: int| 0 <= k < head.len() && head[k] == p;
                    assert(all[k] == p);
                } else {
                    assert(tail.contains(p));
                    let k = choose|k: int| 0 <= k < tail.len() && tail[k] == p;
                    assert(all[head.len() + k] == p);
                }
            }
        }
        assert forall|a: int, b: int|
            #![trigger all[a], all[b]]
            0 <= a < b < all.len() implies {
            let p = all[a];
            let q = all[b];
            &&& p != q
            &&& if one_group(groups, p, q) {
                precedes(ranks, p, q)
            } else {
                p < q
            }
        } by {
            if b < head.len() {
                assert(head.contains(head[a]) && head.contains(head[b]));
                assert(precedes(ranks, head[a], head[b]));
                assert forall|k: int| start <= k < end implies #[trigger] groups[k]
                    == groups[start] by {
                    if k > start {
                        lemma_same_group(groups, start, start + 1, k);
                    }
                }
            } else {
                let q = tail[b - head.len()];
                assert(tail.contains(q));
                if a < head.len() {
                    assert(head.contains(head[a]));
                    if head[a] > start {
                        lemma_same_group(groups, start, start + 1, head[a]);
                    }
                    assert(groups[end] != groups[head[a]]);
                } else {
                    let p = tail[a - head.len()];
                    assert(tail.contains(p));
                    assert(p != q);
                }
            }
        }
    } else {
        assert(emission_order(ranks, groups, start) =~= Seq::empty());
    }
}

/// The lines of events in this order.
pub open spec fn event_lines<'a, F>(
    settings: EventSettings<'a, F>,
    events: Seq<WatchEvent<'a>>,
    order: Seq<int>,
) -> Seq<u8>
    decreases order.len(),
{
    if order.len() == 0 {
        Seq::empty()
    } else {
        let event = events[order.last()];
        event_lines(settings, events, order.drop_last()) + encode_utf8(
            event_line(
                settings.observation,
                event,
                event_result(event, *settings.options, *settings.config)->0,
                *settings.config,
            ),
        )
    }
}

/// Output for people is exactly the lines of the written events, one after the other, and
/// none of them was refused.
pub proof fn law_human_output_is_the_lines_in_order<'a, F: Fn(&WatchRecord<'a>) -> Serialized>(
    settings: EventSettings<'a, F>,
    events: Seq<WatchEvent<'a>>,
    order: Seq<int>,
    first: int,
    before: Intake,
    after: Intake,
)
    requires
        !settings.options.json,
        wrote(settings, events, order, first, before, after),
    ensures
        after.bytes == before.bytes + event_lines(settings, events, order),
        after.refused == before.refused,
    decreases order.len(),
{
    if order.len() == 0 {
        assert(before.bytes + event_lines(settings, events, order) =~= before.bytes);
    } else {
        let mid = choose|mid: Intake|
            wrote(settings, events, order.drop_last(), first, before, mid) && #[trigger] wrote_one(
                settings,
                events[order.last()],
                first + order.len() - 1,
                mid,
                after,
                Ok(()),
            );
        law_human_output_is_the_lines_in_order(
            settings,
            events,
            order.drop_last(),
            first,
            before,
            mid,
        );
        reveal(wrote_one);
        assert(after.bytes =~= before.bytes + event_lines(settings, events, order));
    }
}

} // verus!
