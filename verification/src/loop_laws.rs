//! How a watch run goes: what an attempt amounts to, when it waits, and in which order and
//! under which numbers its events are written.

use vstd::prelude::*;
use vstd::string::*;
use vstd::utf8::encode_utf8;
use crate::collector::{clock_error_of, CollectorError};
use crate::config::Config;
use crate::exit::ExitReason;
use crate::observation::{NetworkSnapshot, ObservationError, SnapshotCompleteness};
use crate::sink::{said, Sink};
use crate::text::sanitized;
use crate::time::{Duration, SystemTime};
use crate::watch_emit::{
    drawable, drawn_from, event_ranks, order_rank, sequence_after, wrote, wrote_one, EventDraft,
    EventSettings, Ledger,
};
use crate::watch_event::{Certainty, EventKind, WatchEvent};
use crate::watch_filter::{event_result, FilterResult};
use crate::watch_gaps::IndexedSides;
use crate::watch_loop::{
    attempt_verdict, closed_with, deadline_set, due_after, failed_with, failures_after, gap_closed,
    gap_told, initial_verdict, Attempt, InitialRefusal,
};
use crate::watch_options::WatchOptions;
use crate::watch_output::{clock_failure_text, times_of, ObservationTimes};
use crate::watch_record::{
    event_line, event_record, record_written, GapData, Intake, RecordData, Serialized, WatchRecord,
};
use crate::watch_runtime::{stops, waits, WaitStep};

verus! {

/// Events that the filter let through without a doubt come before those it left open, and
/// among these the surer ones first.
pub proof fn law_decided_and_sure_events_first(
    a: FilterResult,
    b: FilterResult,
    sure: Certainty,
    less: Certainty,
)
    ensures
        order_rank(FilterResult::NotApplied, less) < order_rank(FilterResult::Matched, sure),
        order_rank(FilterResult::Matched, less) < order_rank(FilterResult::Indeterminate, sure),
        order_rank(a, Certainty::Proven) < order_rank(a, Certainty::Estimated),
        order_rank(a, Certainty::Estimated) < order_rank(a, Certainty::Heuristic),
        order_rank(a, Certainty::Heuristic) < order_rank(a, Certainty::Unknown),
        a != b ==> (order_rank(a, sure) < order_rank(b, sure) <==> order_rank(a, less)
            < order_rank(b, less)),
{
}

/// An event has a place in the order exactly where the filter does not leave it out.
pub proof fn law_only_events_that_pass_have_a_place(
    events: Seq<WatchEvent>,
    options: WatchOptions,
    config: Config,
    i: int,
)
    requires
        0 <= i < events.len(),
    ensures
        event_ranks(events, options, config).len() == events.len(),
        event_ranks(events, options, config)[i] is Some <==> event_result(
            events[i],
            options,
            config,
        ) is Some,
        event_ranks(events, options, config)[i] matches Some(rank) ==> rank == order_rank(
            event_result(events[i], options, config)->0,
            events[i].certainty,
        ),
{
}

/// Events that are written one after the other carry numbers that follow on one another,
/// each event its own, in the order in which they are written.
pub proof fn law_numbers_follow_on_one_another<'a, F: Fn(&WatchRecord<'a>) -> Serialized>(
    settings: EventSettings<'a, F>,
    events: Seq<WatchEvent<'a>>,
    order: Seq<int>,
    first: int,
    before: Intake,
    after: Intake,
    k: int,
)
    requires
        wrote(settings, events, order, first, before, after),
        0 <= k < order.len(),
    ensures
        exists|start: Intake, end: Intake| #[trigger]
            wrote_one(settings, events[order[k]], first + k, start, end, Ok(())),
    decreases order.len(),
{
    let mid = choose|mid: Intake|
        wrote(settings, events, order.drop_last(), first, before, mid) && #[trigger] wrote_one(
            settings,
            events[order.last()],
            first + order.len() - 1,
            mid,
            after,
            Ok(()),
        );
    if k < order.len() - 1 {
        law_numbers_follow_on_one_another(
            settings,
            events,
            order.drop_last(),
            first,
            before,
            mid,
            k,
        );
        let (start, end) = choose|start: Intake, end: Intake| #[trigger]
            wrote_one(
                settings,
                events[order.drop_last()[k]],
                first + k,
                start,
                end,
                Ok(()),
            );
        assert(order.drop_last()[k] == order[k]);
        assert(wrote_one(settings, events[order[k]], first + k, start, end, Ok(())));
    } else {
        assert(first + order.len() - 1 == first + k);
        assert(wrote_one(settings, events[order[k]], first + k, mid, after, Ok(())));
    }
}

/// An event that is written for programs is one record: under its number, by the name of its
/// kind, with the times it was observed at. One that is written for people is its line.
pub proof fn law_written_event_is_its_record_or_line<'a, F: Fn(&WatchRecord<'a>) -> Serialized>(
    settings: EventSettings<'a, F>,
    event: WatchEvent<'a>,
    sequence: u64,
    before: Intake,
    after: Intake,
)
    requires
        wrote_one(settings, event, sequence as int, before, after, Ok(())),
    ensures
        settings.options.json ==> exists|record: WatchRecord<'a>|
            {
                &&& #[trigger] record_written(
                    *settings.serialize,
                    record,
                    before,
                    after,
                    Ok(()),
                )
                &&& record.sequence == sequence
                &&& record.event@ == event.kind.name_text()
                &&& record.observation == settings.observation
                &&& record.data is Endpoint
                &&& record.data->Endpoint_0.endpoint == event.socket().local_endpoint
            },
        !settings.options.json ==> after.bytes == before.bytes + encode_utf8(
            event_line(
                settings.observation,
                event,
                event_result(event, *settings.options, *settings.config)->0,
                *settings.config,
            ),
        ),
{
    reveal(wrote_one);
    let result = event_result(event, *settings.options, *settings.config)->0;
    if settings.options.json {
        let record = choose|record: WatchRecord<'a>|
            #[trigger] event_record(
                record,
                sequence,
                settings.observation,
                event,
                IndexedSides { previous: true, current: true },
                result,
                settings.options.terms@,
                *settings.config,
            ) && record_written(*settings.serialize, record, before, after, Ok(()));
        assert(record_written(*settings.serialize, record, before, after, Ok(())));
    }
}

/// An event that is drawn is the one that was named: of its kind, with the sockets that were
/// seen at its places, and as sure and as often as was said.
pub proof fn law_drawn_events<'a>(
    event: WatchEvent<'a>,
    previous: Option<&'a NetworkSnapshot>,
    current: &'a NetworkSnapshot,
    draft: EventDraft,
)
    requires
        drawn_from(event, previous, current, draft),
        drawable(previous, current, draft),
    ensures
        event.kind == draft.kind && event.certainty == draft.certainty && event.multiplicity
            == draft.multiplicity,
        draft.current_socket matches Some(i) ==> event.current_socket is Some
            && *event.current_socket->0 == current.sockets@[i as int],
        draft.previous_socket matches Some(i) ==> event.previous_socket is Some
            && *event.previous_socket->0 == previous->0.sockets@[i as int],
        event.current_socket is Some <==> draft.current_socket is Some,
        event.previous_socket is Some <==> draft.previous_socket is Some,
        event.kind != EventKind::Release ==> event.current_socket is Some,
        event.kind == EventKind::Release || event.kind == EventKind::Replacement
            ==> event.previous_socket is Some,
        event.wf(),
{
}

/// An event is about its current socket, and about the one that went where there is no
/// current one.
pub proof fn law_events_are_about_what_is_there(event: WatchEvent)
    ensures
        event.current_socket matches Some(socket) ==> event.socket() == *socket,
        event.current_socket is None && event.previous_socket is Some ==> event.socket()
            == *event.previous_socket->0,
        event.wf() && event.kind == EventKind::Bind ==> event.current_socket is Some,
        event.wf() && event.kind == EventKind::Release ==> event.previous_socket is Some,
{
}

/// The next number is one more for each event, and the last number is never left.
pub proof fn law_next_number(first: int, count: int)
    requires
        0 <= first <= u64::MAX,
        count >= 0,
    ensures
        sequence_after(first, count) <= u64::MAX,
        first + count <= u64::MAX ==> sequence_after(first, count) == first + count,
        sequence_after(first, 0) == first,
{
}

/// A run is over where it was cancelled, or at its end and after it.
pub proof fn law_when_a_run_is_over(cancelled: bool, now: Duration, end: Duration)
    ensures
        stops(true, None),
        !stops(false, None),
        stops(true, Some((now, end))),
        stops(false, Some((now, end))) <==> end.nanos <= now.nanos,
{
}

/// A waiting run stops at its own end, goes on when the wait is over, and otherwise sleeps:
/// for what is left up to the nearer of the two, and never longer than a fortieth of a
/// second.
pub proof fn law_how_a_run_waits(now: Duration, due: Duration, end: Option<Duration>)
    ensures
        waits(now, due, end) is Stop <==> end is Some && end->0.nanos <= now.nanos,
        waits(now, due, end) is Ready <==> due.nanos <= now.nanos && !(end is Some && end->0.nanos
            <= now.nanos),
        waits(now, due, end) matches WaitStep::Sleep(span) ==> {
            &&& span.nanos <= 25_000_000
            &&& span.nanos == 25_000_000 || now.nanos + span.nanos == due.nanos || (end is Some
                && now.nanos + span.nanos == end->0.nanos)
            &&& now.nanos + span.nanos <= due.nanos
            &&& end is Some ==> now.nanos + span.nanos <= end->0.nanos
        },
{
}

/// The end of a run is its length after its start, and the next attempt is due one interval
/// after the moment it is counted from.
pub proof fn law_deadlines(
    started: Duration,
    length: Option<Duration>,
    end: Option<Duration>,
    anchor: Duration,
    interval: Duration,
    due: Duration,
)
    requires
        deadline_set(started, length, end),
        due_after(anchor, interval, due),
    ensures
        end is Some <==> length is Some,
        length is Some ==> end->0.nanos - started.nanos == length->0.nanos,
        due.nanos - anchor.nanos == interval.nanos,
{
}

/// A run starts from a snapshot exactly where the clock went forward, the collection worked
/// and its socket set is complete; otherwise the fault that counts first is told.
pub proof fn law_when_a_run_starts(
    started: SystemTime,
    completed: SystemTime,
    collected: Result<NetworkSnapshot, CollectorError>,
)
    ensures
        ({
            let r = initial_verdict(started, completed, collected);
            &&& r is Ok <==> started.nanos <= completed.nanos && collected is Ok
                && collected->Ok_0.diff_safe()
            &&& r is Ok ==> collected is Ok && r->Ok_0 == collected->Ok_0
            &&& started.nanos > completed.nanos ==> r is Err && r->Err_0 is Clock
            &&& r is Err && r->Err_0 is Raced ==> collected is Ok && collected->Ok_0.completeness
                == SnapshotCompleteness::Raced
            &&& r is Err && r->Err_0 is PartialSocketSet ==> collected is Ok
                && collected->Ok_0.completeness != SnapshotCompleteness::Raced
            &&& r is Err && r->Err_0 is Failed ==> collected is Err && r->Err_0->Failed_0
                == collected->Err_0 && clock_error_of(collected) is None
        }),
{
}

/// What a refused start says.
pub proof fn law_refused_starts(error: ObservationError, failure: CollectorError)
    ensures
        InitialRefusal::Raced.text() == "initial observation raced"@,
        InitialRefusal::PartialSocketSet.text() == "initial observation has a partial socket set"@,
        InitialRefusal::Clock(error).text() == clock_failure_text(error),
        InitialRefusal::Failed(failure).text() == "initial collection failed: "@ + sanitized(
            failure.text(),
        ),
{
}

/// A later attempt gives something to compare exactly where the clock went forward through
/// all of it, its times can be told, the collection worked and its socket set is complete. It
/// is a gap where only the collection is at fault, and the end of the run where a clock is.
pub proof fn law_what_an_attempt_amounts_to(
    previous: SystemTime,
    started: SystemTime,
    completed: SystemTime,
    collected: Result<NetworkSnapshot, CollectorError>,
)
    ensures
        ({
            let attempt = attempt_verdict(previous, started, completed, collected);
            let told = times_of(Some(previous), started, completed) is Some;
            let usable = collected is Ok && collected->Ok_0.diff_safe();
            &&& attempt is Fresh <==> started.nanos <= completed.nanos && told && usable
                && previous.nanos <= collected->Ok_0.capture_started_at.nanos
            &&& attempt is Fresh ==> attempt->Fresh_0 == collected->Ok_0
            &&& attempt is Gap <==> started.nanos <= completed.nanos && told && !usable
                && clock_error_of(collected) is None
            &&& attempt is Gap ==> attempt->result == collected && Some(attempt->times) == times_of(
                Some(previous),
                started,
                completed,
            )
            &&& clock_error_of(collected) is Some ==> attempt is Clock
            &&& started.nanos > completed.nanos ==> attempt is Clock
            &&& attempt is Output ==> !told
        }),
{
}

/// A gap counts one more failure in a row; anything else starts the count again.
pub proof fn law_failures_in_a_row(failures: nat, attempt: Attempt)
    ensures
        attempt is Gap ==> failures_after(failures, attempt) == failures + 1,
        !(attempt is Gap) ==> failures_after(failures, attempt) == 0,
{
}

/// The third gap in a row ends the run as a failure; an earlier one does not end it. Each
/// gap that is told takes one number.
pub proof fn law_third_gap_in_a_row_ends_the_run<D: Sink>(
    failures: nat,
    from: Ledger<D>,
    end: Ledger<D>,
    r: Option<ExitReason>,
)
    requires
        gap_closed(failures, from, end, r),
        from.sequence < u64::MAX,
        end.flushed.last() is Ok,
    ensures
        failures == 2 ==> r == Some(ExitReason::Failure),
        failures < 2 ==> r is None,
        end.sequence == from.sequence + 1,
        end.flushed.len() == from.flushed.len() + 1,
{
}

/// A gap is told as the one after the failures before it, with what failed.
pub proof fn law_gap_is_told_with_its_count<'a, F: Fn(&WatchRecord<'a>) -> Serialized>(
    serialize: &'a F,
    result: Result<NetworkSnapshot, CollectorError>,
    times: ObservationTimes,
    failures: nat,
    sequence: u64,
    before: Intake,
    after: Intake,
)
    requires
        gap_told(serialize, true, result, times, failures, sequence as int, before, after, Ok(())),
        failures < 3,
    ensures
        exists|record: WatchRecord<'a>|
            {
                &&& #[trigger] record_written(*serialize, record, before, after, Ok(()))
                &&& record.sequence == sequence
                &&& record.event@ == "collection_gap"@
                &&& record.observation == times
                &&& record.data is Gap
                &&& record.data->Gap_0.consecutive_failures == failures + 1
            },
{
    let gap = choose|gap: GapData<'a>|
        #[trigger] gap.reports(result, (failures + 1) as u8)
            && crate::watch_record::gap_written(
            *serialize,
            true,
            sequence,
            times,
            gap,
            before,
            after,
            Ok(()),
        );
    let record = choose|record: WatchRecord<'a>|
        #[trigger] record.headed(sequence, "collection_gap"@, times) && record.data
            == RecordData::Gap(&gap) && record_written(*serialize, record, before, after, Ok(()));
    assert(record_written(*serialize, record, before, after, Ok(())));
}

/// A run that is over ends as a success where its last flush works, after one flush and
/// without a word; one that fails ends as a failure, with one line on why and without one.
pub proof fn law_how_runs_end<D: Sink>(
    from: Ledger<D>,
    over: Ledger<D>,
    failed: Ledger<D>,
    text: Seq<char>,
    r: Option<ExitReason>,
    f: Option<ExitReason>,
)
    requires
        closed_with(from, over, r),
        failed_with(from, failed, text, f),
    ensures
        over.flushed.len() == from.flushed.len() + 1,
        over.flushed.last() is Ok ==> r == Some(ExitReason::Success) && said(
            from.diagnostics,
            over.diagnostics,
            Seq::empty(),
        ),
        over.written == from.written && over.sequence == from.sequence,
        f == Some(ExitReason::Failure),
        failed.flushed == from.flushed && failed.written == from.written,
        said(from.diagnostics, failed.diagnostics, seq!["error: "@ + sanitized(text)]),
{
}

} // verus!
