//! The polling loop of a watch run.

use vstd::prelude::*;
use vstd::string::*;
use vstd::utf8::encode_utf8;
use crate::address::IpAddr;
use crate::collector::{clock_error_of, collector_clock_error, CollectorError};
use crate::config::Config;
use crate::exit::ExitReason;
use crate::observation::{NetworkSnapshot, ObservationError, SnapshotCompleteness};
use crate::query::FilterTerm;
use crate::sink::{
    accepted_part, diagnostic_line, lemma_said_nothing, problem_line, said, write_diagnostic, Sink,
};
use crate::text::{sanitize, sanitized};
use crate::time::{Duration, SystemTime, DURATION_NANOS_MAX};
use crate::watch_emit::{
    draw_events, draws, emitted_all, ledger, write_ordered_events, DrawnEvents, EventSettings,
    EventStream, Ledger, SnapshotIndex,
};
use crate::watch_options::{options_of, options_refusal, WatchArgs, WatchOptions};
use crate::watch_output::{
    clock_failure, clock_failure_text, flush_exit, flush_lines, flush_reason, io_failure,
    observation_times, output_failure, output_lines, output_reason, times_of,
    validate_wall_interval, ObservationTimes, OutputError, PublicOutputError,
};
use crate::watch_record::{
    gap_from_result, gap_refused, gap_written, intake, write_gap, GapData, Intake, Serialized,
    WatchRecord,
};
use crate::watch_runtime::{
    look_passed, look_stopped, next_poll_after, stop_requested, wait_given_up, wait_over,
    wait_ready, wait_until, waited, RuntimeCall, WatchRuntime,
};
use crate::watch_source::{event_call, EventCall, EventRecord, EventSource};

verus! {

/// How many attempts in a row may fail before a run gives up.
pub const WATCH_FAILURES_MAX: u8 = 3;

/// Why a run cannot start.
#[derive(Debug)]
pub enum InitialRefusal {
    Clock(ObservationError),
    Raced,
    PartialSocketSet,
    Failed(CollectorError),
}

/// What the first attempt amounts to. A failed clock is told before a failed
/// collection.
pub open spec fn initial_verdict(
    started: SystemTime,
    completed: SystemTime,
    collected: Result<NetworkSnapshot, CollectorError>,
) -> Result<NetworkSnapshot, InitialRefusal> {
    if started.nanos > completed.nanos {
        Err(InitialRefusal::Clock(ObservationError::InvalidWallClockInterval))
    } else if clock_error_of(collected) is Some {
        Err(InitialRefusal::Clock(clock_error_of(collected)->0))
    } else {
        match collected {
            Ok(snapshot) => if snapshot.diff_safe() {
                Ok(snapshot)
            } else if snapshot.completeness == SnapshotCompleteness::Raced {
                Err(InitialRefusal::Raced)
            } else {
                Err(InitialRefusal::PartialSocketSet)
            },
            Err(error) => Err(InitialRefusal::Failed(error)),
        }
    }
}

pub fn judge_initial(
    started: SystemTime,
    completed: SystemTime,
    collected: Result<NetworkSnapshot, CollectorError>,
) -> (r: Result<NetworkSnapshot, InitialRefusal>)
    ensures
        r == initial_verdict(started, completed, collected),
{
    match validate_wall_interval(started, completed) {
        Ok(()) => {},
        Err(error) => {
            return Err(InitialRefusal::Clock(error));
        },
    }
    if let Some(error) = collector_clock_error(&collected) {
        return Err(InitialRefusal::Clock(error.duplicate()));
    }
    match collected {
        Ok(snapshot) => if snapshot.socket_set_diff_safe() {
            Ok(snapshot)
        } else if snapshot.completeness == SnapshotCompleteness::Raced {
            Err(InitialRefusal::Raced)
        } else {
            Err(InitialRefusal::PartialSocketSet)
        },
        Err(error) => Err(InitialRefusal::Failed(error)),
    }
}

impl InitialRefusal {
    pub open spec fn text(self) -> Seq<char> {
        match self {
            InitialRefusal::Clock(error) => "wall clock failed: "@ + error.text(),
            InitialRefusal::Raced => "initial observation raced"@,
            InitialRefusal::PartialSocketSet => "initial observation has a partial socket set"@,
            InitialRefusal::Failed(error) => "initial collection failed: "@ + sanitized(
                error.text(),
            ),
        }
    }

    /// The sentence that reports the refusal.
    pub fn message(&self) -> (r: String)
        ensures
            r@ == self.text(),
    {
        match self {
            InitialRefusal::Clock(error) => "wall clock failed: ".to_owned().concat(
                error.message().as_str(),
            ),
            InitialRefusal::Raced => "initial observation raced".to_owned(),
            InitialRefusal::PartialSocketSet => {
                "initial observation has a partial socket set".to_owned()
            },
            InitialRefusal::Failed(error) => "initial collection failed: ".to_owned().concat(
                sanitize(error.message().as_str()).as_str(),
            ),
        }
    }
}

/// What the readings after a started first attempt amount to.
pub open spec fn initial_judged(
    started: SystemTime,
    second: Result<SystemTime, ObservationError>,
    collected: Result<NetworkSnapshot, CollectorError>,
) -> Result<NetworkSnapshot, InitialRefusal> {
    match second {
        Err(error) => Err(InitialRefusal::Clock(error)),
        Ok(completed) => initial_verdict(started, completed, collected),
    }
}

/// The first attempt after its first clock reading. Nothing is collected where that
/// reading failed.
pub open spec fn initial_continued(
    calls: Seq<RuntimeCall>,
    first: Result<SystemTime, ObservationError>,
    after: Seq<RuntimeCall>,
    outcome: Result<NetworkSnapshot, InitialRefusal>,
) -> bool {
    match first {
        Err(error) => after == calls && outcome == Err::<NetworkSnapshot, InitialRefusal>(
            InitialRefusal::Clock(error),
        ),
        Ok(started) => exists|
            collected: Result<NetworkSnapshot, CollectorError>,
            second: Result<SystemTime, ObservationError>,
        |
            after == calls.push(RuntimeCall::Collected(collected)).push(RuntimeCall::Wall(second))
                && outcome == #[trigger] initial_judged(started, second, collected),
    }
}

/// The first attempt: the wall clock, a collection, the wall clock, and what they amount
/// to.
pub open spec fn initial_made(
    before: Seq<RuntimeCall>,
    after: Seq<RuntimeCall>,
    outcome: Result<NetworkSnapshot, InitialRefusal>,
) -> bool {
    exists|first: Result<SystemTime, ObservationError>|
        #[trigger] initial_continued(
            before.push(RuntimeCall::Wall(first)),
            first,
            after,
            outcome,
        )
}

/// What the caller is told of the first attempt: the snapshot, or one line on why there
/// is none.
pub open spec fn initial_told<D: Sink>(
    outcome: Result<NetworkSnapshot, InitialRefusal>,
    before: D,
    after: D,
    r: Result<NetworkSnapshot, ExitReason>,
) -> bool {
    match outcome {
        Ok(snapshot) => r == Ok::<NetworkSnapshot, ExitReason>(snapshot) && after == before,
        Err(refusal) => {
            &&& r == Err::<NetworkSnapshot, ExitReason>(ExitReason::Failure)
            &&& said(before, after, seq![problem_line(refusal.text())])
        },
    }
}

/// Make the first observation, or report why there is none.
pub fn collect_initial_snapshot<R: WatchRuntime, D: Sink>(
    runtime: &mut R,
    diagnostics: &mut D,
) -> (r: Result<NetworkSnapshot, ExitReason>)
    ensures
        exists|outcome: Result<NetworkSnapshot, InitialRefusal>|
            #[trigger] initial_made(old(runtime).calls(), final(runtime).calls(), outcome)
                && initial_told(outcome, *old(diagnostics), *final(diagnostics), r),
        r matches Ok(snapshot) ==> snapshot.diff_safe(),
{
    let ghost before = runtime.calls();
    let first = runtime.wall_now();
    let ghost read_first = first;
    let ghost begun = runtime.calls();
    let started = match first {
        Ok(time) => time,
        Err(error) => {
            let ghost outcome = Err::<NetworkSnapshot, InitialRefusal>(
                InitialRefusal::Clock(error),
            );
            assert(initial_continued(begun, read_first, runtime.calls(), outcome));
            assert(initial_made(before, runtime.calls(), outcome));
            return Err(clock_failure(diagnostics, &error));
        },
    };
    let collected = runtime.collect();
    let ghost made = collected;
    let second = runtime.wall_now();
    let ghost read_second = second;
    let ghost outcome = initial_judged(started, read_second, made);
    assert(initial_continued(begun, read_first, runtime.calls(), outcome));
    assert(initial_made(before, runtime.calls(), outcome));
    let completed = match second {
        Ok(time) => time,
        Err(error) => {
            return Err(clock_failure(diagnostics, &error));
        },
    };
    match judge_initial(started, completed, collected) {
        Ok(snapshot) => Ok(snapshot),
        Err(refusal) => {
            write_diagnostic(diagnostics, refusal.message().as_str());
            Err(ExitReason::Failure)
        },
    }
}

/// The first observation succeeds exactly where both clock readings do and what was
/// collected between them is in order; what it costs is two readings and one collection.
pub proof fn law_first_observation(
    before: Seq<RuntimeCall>,
    after: Seq<RuntimeCall>,
    outcome: Result<NetworkSnapshot, InitialRefusal>,
)
    requires
        initial_made(before, after, outcome),
    ensures
        outcome is Ok <==> {
            &&& after.len() == before.len() + 3
            &&& after[before.len() as int] matches RuntimeCall::Wall(Ok(started))
                && after[before.len() as int + 1] matches RuntimeCall::Collected(collected)
                && after[before.len() as int + 2] matches RuntimeCall::Wall(Ok(completed))
                && initial_verdict(started, completed, collected) is Ok
        },
        after.len() == before.len() + 1 || after.len() == before.len() + 3,
{
    let first = choose|first: Result<SystemTime, ObservationError>|
        #[trigger] initial_continued(before.push(RuntimeCall::Wall(first)), first, after, outcome);
    let begun = before.push(RuntimeCall::Wall(first));
    assert(begun[before.len() as int] == RuntimeCall::Wall(first));
    if first is Ok {
        let (collected, second) = choose|
            collected: Result<NetworkSnapshot, CollectorError>,
            second: Result<SystemTime, ObservationError>,
        |
            after == begun.push(RuntimeCall::Collected(collected)).push(RuntimeCall::Wall(second))
                && outcome == #[trigger] initial_judged(first->Ok_0, second, collected);
        assert(after[before.len() as int] == RuntimeCall::Wall(first));
        assert(after[before.len() as int + 1] == RuntimeCall::Collected(collected));
        assert(after[before.len() as int + 2] == RuntimeCall::Wall(second));
    }
}

/// What a later attempt amounts to.
#[derive(Debug)]
pub enum Attempt {
    Clock(ObservationError),
    Output(OutputError),
    /// Nothing to compare: the previous snapshot stays the one to compare with.
    Gap { times: ObservationTimes, result: Result<NetworkSnapshot, CollectorError> },
    Fresh(NetworkSnapshot),
}

/// The verdict on an attempt. Clocks come first: a clock that failed or ran
/// backwards ends the run and is never told as a gap.
pub open spec fn attempt_verdict(
    previous_completed: SystemTime,
    started: SystemTime,
    completed: SystemTime,
    collected: Result<NetworkSnapshot, CollectorError>,
) -> Attempt {
    if started.nanos > completed.nanos {
        Attempt::Clock(ObservationError::InvalidWallClockInterval)
    } else if clock_error_of(collected) is Some {
        Attempt::Clock(clock_error_of(collected)->0)
    } else {
        match times_of(Some(previous_completed), started, completed) {
            None => Attempt::Output(OutputError::Public(PublicOutputError::ClockUnavailable)),
            Some(times) => if collected is Ok && collected->Ok_0.diff_safe() {
                if previous_completed.nanos > collected->Ok_0.capture_started_at.nanos {
                    Attempt::Clock(ObservationError::InvalidWallClockInterval)
                } else {
                    Attempt::Fresh(collected->Ok_0)
                }
            } else {
                Attempt::Gap { times, result: collected }
            },
        }
    }
}

pub fn judge_attempt(
    previous_completed: SystemTime,
    started: SystemTime,
    completed: SystemTime,
    collected: Result<NetworkSnapshot, CollectorError>,
) -> (r: Attempt)
    ensures
        r == attempt_verdict(previous_completed, started, completed, collected),
{
    match validate_wall_interval(started, completed) {
        Ok(()) => {},
        Err(error) => {
            return Attempt::Clock(error);
        },
    }
    if let Some(error) = collector_clock_error(&collected) {
        return Attempt::Clock(error.duplicate());
    }
    let times = match observation_times(Some(previous_completed), started, completed) {
        Ok(times) => times,
        Err(error) => {
            return Attempt::Output(error);
        },
    };
    match collected {
        Ok(snapshot) => if snapshot.socket_set_diff_safe() {
            match validate_wall_interval(previous_completed, snapshot.capture_started_at) {
                Ok(()) => Attempt::Fresh(snapshot),
                Err(error) => Attempt::Clock(error),
            }
        } else {
            Attempt::Gap { times, result: Ok(snapshot) }
        },
        Err(error) => Attempt::Gap { times, result: Err(error) },
    }
}

/// The failures in a row after one more attempt: a usable snapshot clears them.
pub open spec fn failures_after(failures: nat, attempt: Attempt) -> nat {
    match attempt {
        Attempt::Gap { .. } => failures + 1,
        _ => 0,
    }
}

/// The failures in a row after a run of attempts.
pub open spec fn failures_over(attempts: Seq<Attempt>) -> nat
    decreases attempts.len(),
{
    if attempts.len() == 0 {
        0
    } else {
        failures_after(failures_over(attempts.drop_last()), attempts.last())
    }
}

/// A usable snapshot gives the whole budget back, and the budget is used up exactly
/// by as many gaps in a row as it allows.
pub proof fn law_failure_budget(attempts: Seq<Attempt>)
    ensures
        attempts.len() > 0 && attempts.last() is Fresh ==> failures_over(attempts) == 0,
        failures_over(attempts) >= WATCH_FAILURES_MAX ==> attempts.len() >= WATCH_FAILURES_MAX
            && forall|i: int|
            attempts.len() - WATCH_FAILURES_MAX <= i < attempts.len() ==> (#[trigger] attempts[i])
                is Gap,
        attempts.len() >= WATCH_FAILURES_MAX && (forall|i: int|
            attempts.len() - WATCH_FAILURES_MAX <= i < attempts.len() ==> (#[trigger] attempts[i])
                is Gap) ==> failures_over(attempts) >= WATCH_FAILURES_MAX,
{
    reveal_with_fuel(failures_over, 4);
    let n = attempts.len() as int;
    if n >= 1 {
        assert(attempts.drop_last().len() == n - 1);
    }
    if n >= 2 {
        assert(attempts.drop_last().last() == attempts[n - 2]);
    }
    if n >= 3 {
        assert(attempts.drop_last().drop_last().last() == attempts[n - 3]);
        assert(attempts.last() == attempts[n - 1]);
    }
}

/// A run ended in failure with one line on why, and its output as it was.
pub open spec fn failed_with<D: Sink>(
    from: Ledger<D>,
    end: Ledger<D>,
    text: Seq<char>,
    r: Option<ExitReason>,
) -> bool {
    &&& end.written == from.written
    &&& end.flushed == from.flushed
    &&& end.sequence == from.sequence
    &&& r == Some(ExitReason::Failure)
    &&& said(from.diagnostics, end.diagnostics, seq![problem_line(text)])
}

/// A run was over: its output was flushed once, and it ended in success unless that
/// failed.
pub open spec fn closed_with<D: Sink>(
    from: Ledger<D>,
    end: Ledger<D>,
    r: Option<ExitReason>,
) -> bool {
    &&& end.written == from.written
    &&& end.sequence == from.sequence
    &&& end.flushed.len() > 0
    &&& end.flushed.drop_last() == from.flushed
    &&& r == Some(flush_reason(end.flushed.last(), ExitReason::Success))
    &&& said(from.diagnostics, end.diagnostics, flush_lines(end.flushed.last()))
}

/// What follows a comparison's events: where all were written, one flush.
pub open spec fn comparison_closed<D: Sink>(
    emitted: Ledger<D>,
    outcome: Option<ExitReason>,
    end: Ledger<D>,
    r: Option<ExitReason>,
) -> bool {
    match outcome {
        Some(_) => end == emitted && r == outcome,
        None => {
            &&& end.calls == emitted.calls
            &&& end.written == emitted.written
            &&& end.sequence == emitted.sequence
            &&& end.flushed.len() > 0
            &&& end.flushed.drop_last() == emitted.flushed
            &&& said(emitted.diagnostics, end.diagnostics, flush_lines(end.flushed.last()))
            &&& r == match end.flushed.last() {
                Ok(()) => None,
                Err(_) => Some(flush_reason(end.flushed.last(), ExitReason::Success)),
            }
        },
    }
}

/// A comparison that was answered: the answer's events were written, or its failure was
/// reported.
pub open spec fn comparison_answered<'a, D: Sink, F: Fn(&WatchRecord<'a>) -> Serialized>(
    serialize: &'a F,
    options: &'a WatchOptions,
    config: &'a Config,
    deadline: Option<Duration>,
    times: ObservationTimes,
    previous: Option<&'a NetworkSnapshot>,
    current: &'a NetworkSnapshot,
    answer: Result<EventStream, String>,
    from: Ledger<D>,
    end: Ledger<D>,
    r: Option<ExitReason>,
) -> bool {
    match answer {
        Err(problem) => end.calls == from.calls && failed_with(from, end, problem@, r),
        Ok(stream) => exists|
            drawn: DrawnEvents<'a>,
            emitted: Ledger<D>,
            outcome: Option<ExitReason>,
        |
            {
                &&& draws(drawn, previous, current, stream)
                &&& #[trigger] emitted_all(
                    EventSettings { options, config, observation: times, serialize },
                    drawn,
                    deadline,
                    from,
                    emitted,
                    outcome,
                )
                &&& comparison_closed(emitted, outcome, end, r)
            },
    }
}

/// When the snapshot to compare with was complete.
pub open spec fn completed_at(previous: Option<&NetworkSnapshot>) -> Option<SystemTime> {
    match previous {
        Some(snapshot) => Some(snapshot.capture_completed_at),
        None => None,
    }
}

/// A comparison was asked for and told; without a previous snapshot it is the baseline.
/// Nothing is asked for where the times of the snapshots cannot be told.
pub open spec fn comparison_made<'a, D: Sink, F: Fn(&WatchRecord<'a>) -> Serialized>(
    serialize: &'a F,
    options: &'a WatchOptions,
    config: &'a Config,
    deadline: Option<Duration>,
    previous: Option<&'a NetworkSnapshot>,
    current: &'a NetworkSnapshot,
    asked: Seq<EventCall>,
    from: Ledger<D>,
    asked_then: Seq<EventCall>,
    end: Ledger<D>,
    r: Option<ExitReason>,
) -> bool {
    match times_of(
        completed_at(previous),
        current.capture_started_at,
        current.capture_completed_at,
    ) {
        None => {
            &&& asked_then == asked
            &&& end.calls == from.calls
            &&& failed_with(
                from,
                end,
                "preparing watch event failed: wall clock is unavailable"@,
                r,
            )
        },
        Some(times) => exists|answer: Result<EventStream, String>|
            {
                &&& asked_then == asked.push(event_call(previous, current, answer))
                &&& #[trigger] comparison_answered(
                    serialize,
                    options,
                    config,
                    deadline,
                    times,
                    previous,
                    current,
                    answer,
                    from,
                    end,
                    r,
                )
            },
    }
}

/// Compare, and write the events of the comparison; without a previous snapshot the
/// baseline.
fn write_comparison<R: WatchRuntime, S: EventSource, W: Sink, D: Sink, F>(
    previous: Option<&NetworkSnapshot>,
    current: &NetworkSnapshot,
    options: &WatchOptions,
    config: &Config,
    runtime: &mut R,
    source: &mut EventRecord<S>,
    deadline: Option<Duration>,
    output: &mut W,
    diagnostics: &mut D,
    sequence: &mut u64,
    previous_index: &mut SnapshotIndex,
    current_index: &mut SnapshotIndex,
    serialize: &F,
) -> (r: Option<ExitReason>) where F: Fn(&WatchRecord<'_>) -> Serialized
    requires
        old(previous_index).serves(previous),
        old(current_index).serves(Some(current)),
        forall|record: &WatchRecord| call_requires(*serialize, (record,)),
    ensures
        final(previous_index).serves(previous),
        final(current_index).serves(Some(current)),
        old(output).failed() ==> final(output).failed(),
        comparison_made(
            serialize,
            options,
            config,
            deadline,
            previous,
            current,
            old(source).asked(),
            ledger(old(runtime).calls(), *old(output), *old(diagnostics), *old(sequence)),
            final(source).asked(),
            ledger(final(runtime).calls(), *final(output), *final(diagnostics), *final(sequence)),
            r,
        ),
{
    let ghost from = ledger(runtime.calls(), *output, *diagnostics, *sequence);
    let times = match observation_times(
        match previous {
            Some(snapshot) => Some(snapshot.capture_completed_at),
            None => None,
        },
        current.capture_started_at,
        current.capture_completed_at,
    ) {
        Ok(times) => times,
        Err(error) => {
            return Some(output_failure(diagnostics, &error));
        },
    };
    assert(times_of(
        completed_at(previous),
        current.capture_started_at,
        current.capture_completed_at,
    ) == Some(times));
    let compared = source.compare(previous, current);
    let ghost answer = compared;
    assert(source.asked() == old(source).asked().push(event_call(previous, current, answer)));
    let settings = EventSettings { options, config, observation: times, serialize };
    let stream = match compared {
        Ok(stream) => stream,
        Err(error) => {
            write_diagnostic(diagnostics, error.as_str());
            assert(comparison_answered(
                serialize,
                options,
                config,
                deadline,
                times,
                previous,
                current,
                answer,
                from,
                ledger(runtime.calls(), *output, *diagnostics, *sequence),
                Some(ExitReason::Failure),
            ));
            return Some(ExitReason::Failure);
        },
    };
    let drawn = draw_events(previous, current, &stream);
    let written = write_ordered_events(
        &drawn,
        &settings,
        runtime,
        deadline,
        output,
        diagnostics,
        sequence,
        previous_index,
        current_index,
    );
    let ghost emitted = ledger(runtime.calls(), *output, *diagnostics, *sequence);
    assert(emitted_all(settings, drawn, deadline, from, emitted, written));
    match written {
        Some(reason) => {
            assert(comparison_closed(emitted, written, emitted, Some(reason)));
            assert(comparison_answered(
                serialize,
                options,
                config,
                deadline,
                times,
                previous,
                current,
                answer,
                from,
                emitted,
                Some(reason),
            ));
            return Some(reason);
        },
        None => {},
    }
    let flushed = output.flush();
    let ghost came = flushed;
    assert(output.flushed().drop_last() =~= emitted.flushed);
    proof {
        lemma_said_nothing(*diagnostics);
    }
    let r = match flushed {
        Ok(()) => None,
        Err(error) => Some(io_failure(diagnostics, &error)),
    };
    assert(output.flushed().last() == came);
    assert(comparison_closed(
        emitted,
        written,
        ledger(runtime.calls(), *output, *diagnostics, *sequence),
        r,
    ));
    assert(comparison_answered(
        serialize,
        options,
        config,
        deadline,
        times,
        previous,
        current,
        answer,
        from,
        ledger(runtime.calls(), *output, *diagnostics, *sequence),
        r,
    ));
    r
}

/// An attempt that gave nothing to compare was handed to the output as the gap after
/// `failures` others in a row, with this result.
pub open spec fn gap_told<'a, F: Fn(&WatchRecord<'a>) -> Serialized>(
    serialize: &'a F,
    json: bool,
    result: Result<NetworkSnapshot, CollectorError>,
    times: ObservationTimes,
    failures: nat,
    sequence: int,
    before: Intake,
    after: Intake,
    r: Result<(), OutputError>,
) -> bool {
    exists|gap: GapData<'a>|
        #[trigger] gap.reports(result, (failures + 1) as u8) && gap_written(
            *serialize,
            json,
            sequence as u64,
            times,
            gap,
            before,
            after,
            r,
        )
}

/// The serializer refused the record of that gap.
pub open spec fn gap_turned_down<'a, F: Fn(&WatchRecord<'a>) -> Serialized>(
    serialize: &'a F,
    json: bool,
    result: Result<NetworkSnapshot, CollectorError>,
    times: ObservationTimes,
    failures: nat,
    sequence: int,
    error: OutputError,
) -> bool {
    exists|gap: GapData<'a>|
        #[trigger] gap.reports(result, (failures + 1) as u8) && gap_refused(
            *serialize,
            json,
            sequence as u64,
            times,
            gap,
            error,
        )
}

/// What follows a gap that was written: one flush, then the next sequence number. The
/// last failure that the budget allows ends the run, without a word.
pub open spec fn gap_closed<D: Sink>(
    failures: nat,
    from: Ledger<D>,
    end: Ledger<D>,
    r: Option<ExitReason>,
) -> bool {
    &&& end.flushed.len() > 0
    &&& end.flushed.drop_last() == from.flushed
    &&& if end.flushed.last() is Err {
        &&& end.sequence == from.sequence
        &&& r == Some(flush_reason(end.flushed.last(), ExitReason::Success))
        &&& said(from.diagnostics, end.diagnostics, flush_lines(end.flushed.last()))
    } else if from.sequence == u64::MAX {
        &&& end.sequence == from.sequence
        &&& r == Some(ExitReason::Failure)
        &&& said(
            from.diagnostics,
            end.diagnostics,
            seq![problem_line("watch sequence overflowed"@)],
        )
    } else {
        &&& end.sequence == from.sequence + 1
        &&& end.diagnostics == from.diagnostics
        &&& r == if failures + 1 == WATCH_FAILURES_MAX {
            Some(ExitReason::Failure)
        } else {
            None
        }
    }
}

/// A gap was reported, and the run goes on or ends.
pub open spec fn gap_made<'a, D: Sink, F: Fn(&WatchRecord<'a>) -> Serialized>(
    serialize: &'a F,
    json: bool,
    result: Result<NetworkSnapshot, CollectorError>,
    times: ObservationTimes,
    failures: nat,
    from: Ledger<D>,
    end: Ledger<D>,
    r: Option<ExitReason>,
) -> bool {
    &&& end.calls == from.calls
    &&& exists|outcome: Result<(), OutputError>|
        {
            &&& #[trigger] gap_told(
                serialize,
                json,
                result,
                times,
                failures,
                from.sequence,
                from.written,
                end.written,
                outcome,
            )
            &&& match outcome {
                Ok(()) => gap_closed(failures, from, end, r),
                Err(error) => {
                    &&& end.written.refused == from.written.refused ==> gap_turned_down(
                        serialize,
                        json,
                        result,
                        times,
                        failures,
                        from.sequence,
                        error,
                    )
                    &&& end.flushed == from.flushed
                    &&& end.sequence == from.sequence
                    &&& r == Some(output_reason(error))
                    &&& said(from.diagnostics, end.diagnostics, output_lines(error))
                },
            }
        }
}

/// Report an attempt that gave nothing to compare; the last one that the budget
/// allows ends the run.
#[verifier::rlimit(30)]
fn report_gap<W: Sink, D: Sink, F>(
    result: Result<NetworkSnapshot, CollectorError>,
    times: ObservationTimes,
    json: bool,
    output: &mut W,
    diagnostics: &mut D,
    sequence: &mut u64,
    consecutive_failures: &mut u8,
    serialize: &F,
    Ghost(calls): Ghost<Seq<RuntimeCall>>,
) -> (r: Option<ExitReason>) where F: Fn(&WatchRecord<'_>) -> Serialized
    requires
        forall|record: &WatchRecord| call_requires(*serialize, (record,)),
        *old(consecutive_failures) < WATCH_FAILURES_MAX,
    ensures
        old(output).failed() ==> final(output).failed(),
        *final(consecutive_failures) == *old(consecutive_failures) + 1,
        gap_made(
            serialize,
            json,
            result,
            times,
            *old(consecutive_failures) as nat,
            ledger(calls, *old(output), *old(diagnostics), *old(sequence)),
            ledger(calls, *final(output), *final(diagnostics), *final(sequence)),
            r,
        ),
{
    let ghost failures = *consecutive_failures as nat;
    *consecutive_failures = *consecutive_failures + 1;
    let gap = gap_from_result(&result, *consecutive_failures);
    let ghost from = ledger(calls, *output, *diagnostics, *sequence);
    let written = write_gap(output, json, *sequence, times, &gap, serialize);
    let ghost outcome = written;
    assert(gap.reports(result, (failures + 1) as u8));
    assert(gap_told(
        serialize,
        json,
        result,
        times,
        failures,
        from.sequence,
        from.written,
        intake(*output),
        outcome,
    ));
    match written {
        Ok(unit) => {
            assert(unit == ());
            assert(outcome == Ok::<(), OutputError>(unit));
        },
        Err(error) => {
            let reason = output_failure(diagnostics, &error);
            proof {
                let end = ledger(calls, *output, *diagnostics, *sequence);
                assert(gap_told(
                    serialize,
                    json,
                    result,
                    times,
                    failures,
                    from.sequence,
                    from.written,
                    end.written,
                    outcome,
                ));
                if end.written.refused == from.written.refused {
                    assert(gap_turned_down(
                        serialize,
                        json,
                        result,
                        times,
                        failures,
                        from.sequence,
                        error,
                    ));
                }
            }
            return Some(reason);
        },
    }
    let flushed = output.flush();
    let ghost came = flushed;
    assert(output.flushed().drop_last() =~= from.flushed);
    assert(output.flushed().last() == came);
    match flushed {
        Ok(()) => {},
        Err(error) => {
            let reason = io_failure(diagnostics, &error);
            assert(gap_told(
                serialize,
                json,
                result,
                times,
                failures,
                from.sequence,
                from.written,
                ledger(calls, *output, *diagnostics, *sequence).written,
                outcome,
            ));
            assert(gap_closed(
                failures,
                from,
                ledger(calls, *output, *diagnostics, *sequence),
                Some(reason),
            ));
            return Some(reason);
        },
    }
    match sequence.checked_add(1) {
        Some(next) => {
            *sequence = next;
        },
        None => {
            write_diagnostic(diagnostics, "watch sequence overflowed");
            assert(gap_told(
                serialize,
                json,
                result,
                times,
                failures,
                from.sequence,
                from.written,
                ledger(calls, *output, *diagnostics, *sequence).written,
                outcome,
            ));
            assert(gap_closed(
                failures,
                from,
                ledger(calls, *output, *diagnostics, *sequence),
                Some(ExitReason::Failure),
            ));
            return Some(ExitReason::Failure);
        },
    }
    let r = if *consecutive_failures == WATCH_FAILURES_MAX {
        Some(ExitReason::Failure)
    } else {
        None
    };
    assert(gap_told(
        serialize,
        json,
        result,
        times,
        failures,
        from.sequence,
        from.written,
        ledger(calls, *output, *diagnostics, *sequence).written,
        outcome,
    ));
    assert(gap_closed(failures, from, ledger(calls, *output, *diagnostics, *sequence), r));
    r
}

/// Where a run stands between two attempts: the snapshot to compare with, the failures in
/// a row, when the next attempt is due, and what the run has asked and done.
pub struct Standing<D> {
    pub previous: NetworkSnapshot,
    pub failures: nat,
    pub next_poll: Duration,
    pub asked: Seq<EventCall>,
    pub ledger: Ledger<D>,
}

/// How a run ended: what it has asked and done, and its reason; none where it was given
/// up.
pub struct Ending<D> {
    pub asked: Seq<EventCall>,
    pub ledger: Ledger<D>,
    pub reason: Option<ExitReason>,
}

/// The end of a run that started at `started`.
pub open spec fn deadline_set(
    started: Duration,
    duration: Option<Duration>,
    deadline: Option<Duration>,
) -> bool {
    match duration {
        None => deadline is None,
        Some(span) => deadline is Some && deadline->0.nanos == started.nanos + span.nanos,
    }
}

/// The clock cannot express when a time is over.
pub open spec fn clock_overflows(started: Duration, span: Duration) -> bool {
    started.nanos + span.nanos > DURATION_NANOS_MAX
}

/// The next attempt is due one interval after `anchor`.
pub open spec fn due_after(anchor: Duration, interval: Duration, next_poll: Duration) -> bool {
    next_poll.nanos == anchor.nanos + interval.nanos
}

/// A run read the clock once and was not cancelled.
pub open spec fn run_opened(
    before: Seq<RuntimeCall>,
    duration: Option<Duration>,
    deadline: Option<Duration>,
    after: Seq<RuntimeCall>,
) -> bool {
    exists|started: Duration|
        #[trigger] deadline_set(started, duration, deadline) && after == before.push(
            RuntimeCall::Monotonic(started),
        ).push(RuntimeCall::Cancelled(false))
}

/// A run opened, and its first attempt gave a snapshot.
pub open spec fn run_observed(
    before: Seq<RuntimeCall>,
    duration: Option<Duration>,
    deadline: Option<Duration>,
    snapshot: NetworkSnapshot,
    after: Seq<RuntimeCall>,
) -> bool {
    exists|opened: Seq<RuntimeCall>|
        #[trigger] run_opened(before, duration, deadline, opened) && initial_made(
            opened,
            after,
            Ok(snapshot),
        )
}

/// A run told its baseline. It had still not been over after the first observation, and
/// its next attempt is due one interval after the baseline was flushed.
pub open spec fn run_based<'a, D: Sink, F: Fn(&WatchRecord<'a>) -> Serialized>(
    serialize: &'a F,
    options: &'a WatchOptions,
    config: &'a Config,
    deadline: Option<Duration>,
    asked: Seq<EventCall>,
    from: Ledger<D>,
    to: Standing<D>,
) -> bool {
    exists|
        seen: Seq<RuntimeCall>,
        passed: Seq<RuntimeCall>,
        told: Ledger<D>,
        now: Duration,
    |
        {
            &&& #[trigger] run_observed(from.calls, options.duration, deadline, to.previous, seen)
            &&& #[trigger] look_passed(seen, deadline, passed)
            &&& #[trigger] comparison_made(
                serialize,
                options,
                config,
                deadline,
                None,
                &to.previous,
                asked,
                from.at(passed),
                to.asked,
                told,
                None,
            )
            &&& #[trigger] due_after(now, options.interval, to.next_poll)
            &&& to.ledger == told.at(told.calls.push(RuntimeCall::Monotonic(now)))
            &&& to.failures == 0
            &&& to.previous.diff_safe()
        }
}

/// A run ended before its first attempt: its end cannot be expressed; it was cancelled;
/// there was no first observation; it was over by then; its baseline ended it; or the
/// time of its first attempt cannot be expressed.
pub open spec fn run_unstarted<'a, D: Sink, F: Fn(&WatchRecord<'a>) -> Serialized>(
    serialize: &'a F,
    options: &'a WatchOptions,
    config: &'a Config,
    asked: Seq<EventCall>,
    from: Ledger<D>,
    end: Ending<D>,
) -> bool {
    ||| end.asked == asked && exists|started: Duration|
        {
            &&& options.duration is Some && #[trigger] clock_overflows(
                started,
                options.duration->0,
            )
            &&& end.ledger.calls == from.calls.push(RuntimeCall::Monotonic(started))
            &&& failed_with(
                from,
                end.ledger,
                "watch duration overflowed the monotonic clock"@,
                end.reason,
            )
        }
    ||| end.asked == asked && exists|started: Duration, deadline: Option<Duration>|
        {
            &&& #[trigger] deadline_set(started, options.duration, deadline)
            &&& end.ledger.calls == from.calls.push(RuntimeCall::Monotonic(started)).push(
                RuntimeCall::Cancelled(true),
            )
            &&& closed_with(from, end.ledger, end.reason)
        }
    ||| end.asked == asked && exists|
        deadline: Option<Duration>,
        opened: Seq<RuntimeCall>,
        refusal: InitialRefusal,
    |
        {
            &&& #[trigger] run_opened(from.calls, options.duration, deadline, opened)
            &&& initial_made(opened, end.ledger.calls, Err(refusal))
            &&& failed_with(from, end.ledger, #[trigger] refusal.text(), end.reason)
        }
    ||| exists|deadline: Option<Duration>, snapshot: NetworkSnapshot, seen: Seq<RuntimeCall>|
        {
            &&& #[trigger] run_observed(
                from.calls,
                options.duration,
                deadline,
                snapshot,
                seen,
            )
            &&& baseline_ended(
                serialize,
                options,
                config,
                deadline,
                snapshot,
                asked,
                from.at(seen),
                end,
            )
        }
}

/// A run ended at its baseline.
pub open spec fn baseline_ended<'a, D: Sink, F: Fn(&WatchRecord<'a>) -> Serialized>(
    serialize: &'a F,
    options: &'a WatchOptions,
    config: &'a Config,
    deadline: Option<Duration>,
    snapshot: NetworkSnapshot,
    asked: Seq<EventCall>,
    from: Ledger<D>,
    end: Ending<D>,
) -> bool {
    ||| {
        &&& end.asked == asked
        &&& look_stopped(from.calls, deadline, end.ledger.calls)
        &&& closed_with(from, end.ledger, end.reason)
    }
    ||| exists|passed: Seq<RuntimeCall>|
        {
            &&& #[trigger] look_passed(from.calls, deadline, passed)
            &&& end.reason is Some
            &&& comparison_made(
                serialize,
                options,
                config,
                deadline,
                None,
                &snapshot,
                asked,
                from.at(passed),
                end.asked,
                end.ledger,
                end.reason,
            )
        }
    ||| exists|passed: Seq<RuntimeCall>, told: Ledger<D>, now: Duration|
        {
            &&& #[trigger] look_passed(from.calls, deadline, passed)
            &&& #[trigger] comparison_made(
                serialize,
                options,
                config,
                deadline,
                None,
                &snapshot,
                asked,
                from.at(passed),
                end.asked,
                told,
                None,
            )
            &&& #[trigger] clock_overflows(now, options.interval)
            &&& end.ledger.calls == told.calls.push(RuntimeCall::Monotonic(now))
            &&& failed_with(told, end.ledger, "watch poll deadline overflowed"@, end.reason)
        }
}

/// A run waited for its next attempt, read both clocks, collected and read the wall clock
/// again, which amounts to this attempt. No attempt starts before the snapshot to compare
/// with was complete.
pub open spec fn attempt_reached<D: Sink>(
    deadline: Option<Duration>,
    steps_max: u64,
    from: Standing<D>,
    anchor: Duration,
    attempt: Attempt,
    calls: Seq<RuntimeCall>,
) -> bool {
    exists|
        waiting: Seq<RuntimeCall>,
        started: SystemTime,
        completed: SystemTime,
        collected: Result<NetworkSnapshot, CollectorError>,
    |
        {
            &&& #[trigger] wait_ready(waiting, from.next_poll, deadline, steps_max)
            &&& calls == (from.ledger.calls + waiting).push(RuntimeCall::Monotonic(anchor)).push(
                RuntimeCall::Wall(Ok(started)),
            ).push(RuntimeCall::Collected(collected)).push(RuntimeCall::Wall(Ok(completed)))
            &&& from.previous.capture_completed_at.nanos <= started.nanos
            &&& attempt == #[trigger] attempt_verdict(
                from.previous.capture_completed_at,
                started,
                completed,
                collected,
            )
        }
}

/// A run did not come to its next attempt: it was over while waiting, gave up waiting, or
/// the wall clock failed or ran backwards.
pub open spec fn attempt_missed<D: Sink>(
    deadline: Option<Duration>,
    steps_max: u64,
    from: Standing<D>,
    end: Ending<D>,
) -> bool {
    &&& end.asked == from.asked
    &&& {
        ||| exists|waiting: Seq<RuntimeCall>|
            {
                &&& #[trigger] wait_over(waiting, from.next_poll, deadline, steps_max)
                &&& end.ledger.calls == from.ledger.calls + waiting
                &&& closed_with(from.ledger, end.ledger, end.reason)
            }
        ||| exists|waiting: Seq<RuntimeCall>|
            {
                &&& #[trigger] wait_given_up(waiting, from.next_poll, deadline, steps_max)
                &&& end.ledger == from.ledger.at(from.ledger.calls + waiting)
                &&& end.reason is None
            }
        ||| exists|
            waiting: Seq<RuntimeCall>,
            anchor: Duration,
            wall: Result<SystemTime, ObservationError>,
        |
            {
                &&& #[trigger] wait_ready(waiting, from.next_poll, deadline, steps_max)
                &&& end.ledger.calls == #[trigger] (from.ledger.calls + waiting).push(
                    RuntimeCall::Monotonic(anchor),
                ).push(RuntimeCall::Wall(wall))
                &&& wall matches Ok(started) ==> started.nanos
                    < from.previous.capture_completed_at.nanos
                &&& failed_with(
                    from.ledger,
                    end.ledger,
                    clock_failure_text(
                        match wall {
                            Ok(_) => ObservationError::InvalidWallClockInterval,
                            Err(error) => error,
                        },
                    ),
                    end.reason,
                )
            }
        ||| exists|
            waiting: Seq<RuntimeCall>,
            anchor: Duration,
            started: SystemTime,
            collected: Result<NetworkSnapshot, CollectorError>,
            error: ObservationError,
        |
            {
                &&& #[trigger] wait_ready(waiting, from.next_poll, deadline, steps_max)
                &&& from.previous.capture_completed_at.nanos <= started.nanos
                &&& end.ledger.calls == #[trigger] (from.ledger.calls + waiting).push(
                    RuntimeCall::Monotonic(anchor),
                ).push(RuntimeCall::Wall(Ok(started))).push(
                    RuntimeCall::Collected(collected),
                ).push(RuntimeCall::Wall(Err(error)))
                &&& failed_with(from.ledger, end.ledger, clock_failure_text(error), end.reason)
            }
    }
}

/// An attempt takes a run from one standing to the next, and the run is still not over. A
/// gap is told and counted, the snapshot to compare with stays, and the next attempt is
/// due one interval after the gap was told. A usable snapshot is compared with the one
/// before it and takes its place, and the next attempt is due one interval after this one
/// began.
pub open spec fn round_told<'a, D: Sink, F: Fn(&WatchRecord<'a>) -> Serialized>(
    serialize: &'a F,
    options: &'a WatchOptions,
    config: &'a Config,
    deadline: Option<Duration>,
    from: Standing<D>,
    anchor: Duration,
    calls: Seq<RuntimeCall>,
    attempt: Attempt,
    to: Standing<D>,
) -> bool {
    match attempt {
        Attempt::Gap { times, result } => exists|
            told: Ledger<D>,
            passed: Seq<RuntimeCall>,
            now: Duration,
        |
            {
                &&& #[trigger] gap_made(
                    serialize,
                    options.json,
                    result,
                    times,
                    from.failures,
                    from.ledger.at(calls),
                    told,
                    None,
                )
                &&& #[trigger] look_passed(told.calls, deadline, passed)
                &&& #[trigger] due_after(now, options.interval, to.next_poll)
                &&& to.ledger == told.at(passed.push(RuntimeCall::Monotonic(now)))
                &&& to.previous == from.previous
                &&& to.failures == from.failures + 1
                &&& to.failures < WATCH_FAILURES_MAX
                &&& to.asked == from.asked
            },
        Attempt::Fresh(snapshot) => exists|passed: Seq<RuntimeCall>|
            {
                &&& #[trigger] look_passed(calls, deadline, passed)
                &&& comparison_made(
                    serialize,
                    options,
                    config,
                    deadline,
                    Some(&from.previous),
                    &snapshot,
                    from.asked,
                    from.ledger.at(passed),
                    to.asked,
                    to.ledger,
                    None,
                )
                &&& due_after(anchor, options.interval, to.next_poll)
                &&& to.previous == snapshot
                &&& to.failures == 0
            },
        _ => false,
    }
}

/// One attempt that a run got past.
pub open spec fn round_made<'a, D: Sink, F: Fn(&WatchRecord<'a>) -> Serialized>(
    serialize: &'a F,
    options: &'a WatchOptions,
    config: &'a Config,
    deadline: Option<Duration>,
    steps_max: u64,
    from: Standing<D>,
    attempt: Attempt,
    to: Standing<D>,
) -> bool {
    exists|anchor: Duration, calls: Seq<RuntimeCall>|
        #[trigger] attempt_reached(deadline, steps_max, from, anchor, attempt, calls)
            && round_told(
            serialize,
            options,
            config,
            deadline,
            from,
            anchor,
            calls,
            attempt,
            to,
        )
}

/// The attempt that a run did not get past. A clock that failed ends it in failure with
/// nothing written. A gap ends it where it could not be told or used up the budget; once
/// told, the run may be over, or the time of the next attempt cannot be expressed. At a
/// usable snapshot the run may be over, the comparison may end it, or again the time of
/// the next attempt cannot be expressed.
pub open spec fn attempt_ended<'a, D: Sink, F: Fn(&WatchRecord<'a>) -> Serialized>(
    serialize: &'a F,
    options: &'a WatchOptions,
    config: &'a Config,
    deadline: Option<Duration>,
    from: Standing<D>,
    anchor: Duration,
    calls: Seq<RuntimeCall>,
    attempt: Attempt,
    end: Ending<D>,
) -> bool {
    let reached = from.ledger.at(calls);
    match attempt {
        Attempt::Clock(error) => {
            &&& end.asked == from.asked
            &&& end.ledger.calls == calls
            &&& failed_with(reached, end.ledger, clock_failure_text(error), end.reason)
        },
        Attempt::Output(error) => {
            &&& end.asked == from.asked
            &&& end.ledger.calls == calls
            &&& end.ledger.written == from.ledger.written
            &&& end.ledger.flushed == from.ledger.flushed
            &&& end.ledger.sequence == from.ledger.sequence
            &&& end.reason == Some(output_reason(error))
            &&& said(from.ledger.diagnostics, end.ledger.diagnostics, output_lines(error))
        },
        Attempt::Gap { times, result } => {
            &&& end.asked == from.asked
            &&& {
                ||| end.reason is Some && gap_made(
                    serialize,
                    options.json,
                    result,
                    times,
                    from.failures,
                    reached,
                    end.ledger,
                    end.reason,
                )
                ||| exists|told: Ledger<D>|
                    {
                        &&& #[trigger] gap_made(
                            serialize,
                            options.json,
                            result,
                            times,
                            from.failures,
                            reached,
                            told,
                            None,
                        )
                        &&& gap_followed(options, deadline, told, end)
                    }
            }
        },
        Attempt::Fresh(snapshot) => {
            ||| {
                &&& end.asked == from.asked
                &&& look_stopped(calls, deadline, end.ledger.calls)
                &&& closed_with(reached, end.ledger, end.reason)
            }
            ||| exists|passed: Seq<RuntimeCall>|
                {
                    &&& #[trigger] look_passed(calls, deadline, passed)
                    &&& end.reason is Some
                    &&& comparison_made(
                        serialize,
                        options,
                        config,
                        deadline,
                        Some(&from.previous),
                        &snapshot,
                        from.asked,
                        from.ledger.at(passed),
                        end.asked,
                        end.ledger,
                        end.reason,
                    )
                }
            ||| exists|passed: Seq<RuntimeCall>, told: Ledger<D>|
                {
                    &&& #[trigger] look_passed(calls, deadline, passed)
                    &&& #[trigger] comparison_made(
                        serialize,
                        options,
                        config,
                        deadline,
                        Some(&from.previous),
                        &snapshot,
                        from.asked,
                        from.ledger.at(passed),
                        end.asked,
                        told,
                        None,
                    )
                    &&& clock_overflows(anchor, options.interval)
                    &&& end.ledger.calls == told.calls
                    &&& failed_with(
                        told,
                        end.ledger,
                        "watch poll deadline overflowed"@,
                        end.reason,
                    )
                }
        },
    }
}

/// A run ended behind a gap that was told: it was over, or the time of the next attempt
/// cannot be expressed.
pub open spec fn gap_followed<D: Sink>(
    options: &WatchOptions,
    deadline: Option<Duration>,
    told: Ledger<D>,
    end: Ending<D>,
) -> bool {
    ||| look_stopped(told.calls, deadline, end.ledger.calls) && closed_with(
        told,
        end.ledger,
        end.reason,
    )
    ||| exists|passed: Seq<RuntimeCall>, now: Duration|
        {
            &&& #[trigger] look_passed(told.calls, deadline, passed)
            &&& #[trigger] clock_overflows(now, options.interval)
            &&& end.ledger.calls == passed.push(RuntimeCall::Monotonic(now))
            &&& failed_with(told, end.ledger, "watch poll deadline overflowed"@, end.reason)
        }
}

/// How a run ended from a standing.
pub open spec fn run_ended<'a, D: Sink, F: Fn(&WatchRecord<'a>) -> Serialized>(
    serialize: &'a F,
    options: &'a WatchOptions,
    config: &'a Config,
    deadline: Option<Duration>,
    steps_max: u64,
    from: Standing<D>,
    end: Ending<D>,
) -> bool {
    ||| attempt_missed(deadline, steps_max, from, end)
    ||| exists|anchor: Duration, attempt: Attempt, calls: Seq<RuntimeCall>|
        #[trigger] attempt_reached(deadline, steps_max, from, anchor, attempt, calls)
            && attempt_ended(
            serialize,
            options,
            config,
            deadline,
            from,
            anchor,
            calls,
            attempt,
            end,
        )
}

/// The attempts that a run got past, in order, from its baseline on.
pub open spec fn rounds_made<'a, D: Sink, F: Fn(&WatchRecord<'a>) -> Serialized>(
    serialize: &'a F,
    options: &'a WatchOptions,
    config: &'a Config,
    deadline: Option<Duration>,
    steps_max: u64,
    asked: Seq<EventCall>,
    from: Ledger<D>,
    standings: Seq<Standing<D>>,
    attempts: Seq<Attempt>,
) -> bool {
    &&& standings.len() == attempts.len() + 1
    &&& run_based(serialize, options, config, deadline, asked, from, standings[0])
    &&& forall|i: int|
        #![trigger attempts[i]]
        0 <= i < attempts.len() ==> round_made(
            serialize,
            options,
            config,
            deadline,
            steps_max,
            standings[i],
            attempts[i],
            standings[i + 1],
        )
}

/// A whole run, by what it asked and did: it ended before its first attempt, at an
/// attempt, or was given up after `rounds_max` attempts.
pub open spec fn run_made<'a, D: Sink, F: Fn(&WatchRecord<'a>) -> Serialized>(
    serialize: &'a F,
    options: &'a WatchOptions,
    config: &'a Config,
    rounds_max: u64,
    asked: Seq<EventCall>,
    from: Ledger<D>,
    end: Ending<D>,
) -> bool {
    ||| run_unstarted(serialize, options, config, asked, from, end)
    ||| exists|
        deadline: Option<Duration>,
        standings: Seq<Standing<D>>,
        attempts: Seq<Attempt>,
    |
        {
            &&& #[trigger] rounds_made(
                serialize,
                options,
                config,
                deadline,
                rounds_max,
                asked,
                from,
                standings,
                attempts,
            )
            &&& attempts.len() <= rounds_max
            &&& if attempts.len() == rounds_max {
                &&& end.asked == standings.last().asked
                &&& end.ledger == standings.last().ledger
                &&& end.reason is None
            } else {
                run_ended(
                    serialize,
                    options,
                    config,
                    deadline,
                    rounds_max,
                    standings.last(),
                    end,
                )
            }
        }
}

/// The failures counted in a run are those of its attempts, and a run that goes on has
/// met no more gaps in a row than its budget leaves.
pub proof fn law_run_stays_within_its_budget<'a, D: Sink, F: Fn(&WatchRecord<'a>) -> Serialized>(
    serialize: &'a F,
    options: &'a WatchOptions,
    config: &'a Config,
    deadline: Option<Duration>,
    steps_max: u64,
    asked: Seq<EventCall>,
    from: Ledger<D>,
    standings: Seq<Standing<D>>,
    attempts: Seq<Attempt>,
)
    requires
        rounds_made(
            serialize,
            options,
            config,
            deadline,
            steps_max,
            asked,
            from,
            standings,
            attempts,
        ),
    ensures
        standings.last().failures == failures_over(attempts),
        failures_over(attempts) < WATCH_FAILURES_MAX,
    decreases attempts.len(),
{
    if attempts.len() > 0 {
        let last = attempts.len() - 1;
        let earlier = attempts.drop_last();
        assert forall|i: int| #![trigger earlier[i]] 0 <= i < earlier.len() implies round_made(
            serialize,
            options,
            config,
            deadline,
            steps_max,
            standings.drop_last()[i],
            earlier[i],
            standings.drop_last()[i + 1],
        ) by {
            assert(earlier[i] == attempts[i]);
        }
        law_run_stays_within_its_budget(
            serialize,
            options,
            config,
            deadline,
            steps_max,
            asked,
            from,
            standings.drop_last(),
            earlier,
        );
        assert(attempts[last] == attempts.last());
        assert(standings[last] == standings.drop_last().last());
        assert(standings[last + 1] == standings.last());
    }
}

/// The gap that uses the budget up ends the run in failure, with nothing said and nothing
/// more asked: neither the end of the run nor a cancellation masks it.
pub proof fn law_used_up_budget_is_not_masked<'a, D: Sink, F: Fn(&WatchRecord<'a>) -> Serialized>(
    serialize: &'a F,
    options: &'a WatchOptions,
    config: &'a Config,
    deadline: Option<Duration>,
    from: Standing<D>,
    anchor: Duration,
    calls: Seq<RuntimeCall>,
    attempt: Attempt,
    end: Ending<D>,
)
    requires
        attempt is Gap,
        attempt_ended(
            serialize,
            options,
            config,
            deadline,
            from,
            anchor,
            calls,
            attempt,
            end,
        ),
        from.failures + 1 == WATCH_FAILURES_MAX,
        from.ledger.sequence < u64::MAX,
        end.ledger.flushed.len() > from.ledger.flushed.len(),
        end.ledger.flushed.last() is Ok,
    ensures
        end.reason == Some(ExitReason::Failure),
        end.ledger.calls == calls,
        end.ledger.flushed.len() == from.ledger.flushed.len() + 1,
        end.ledger.sequence == from.ledger.sequence + 1,
        end.ledger.diagnostics == from.ledger.diagnostics,
        end.asked == from.asked,
{
}

/// A gap never replaces the snapshot to compare with, asks for no comparison and takes one
/// sequence number; a usable snapshot is the next one to compare with.
pub proof fn law_gaps_keep_the_last_usable_snapshot<
    'a,
    D: Sink,
    F: Fn(&WatchRecord<'a>) -> Serialized,
>(
    serialize: &'a F,
    options: &'a WatchOptions,
    config: &'a Config,
    deadline: Option<Duration>,
    steps_max: u64,
    asked: Seq<EventCall>,
    from: Ledger<D>,
    standings: Seq<Standing<D>>,
    attempts: Seq<Attempt>,
    lo: int,
    hi: int,
)
    requires
        rounds_made(
            serialize,
            options,
            config,
            deadline,
            steps_max,
            asked,
            from,
            standings,
            attempts,
        ),
        0 <= lo <= hi <= attempts.len(),
        forall|i: int| lo <= i < hi ==> (#[trigger] attempts[i]) is Gap,
    ensures
        standings[hi].previous == standings[lo].previous,
        standings[hi].asked == standings[lo].asked,
        standings[hi].ledger.sequence == standings[lo].ledger.sequence + (hi - lo),
        lo > 0 && attempts[lo - 1] is Fresh ==> standings[lo].previous == attempts[lo - 1]->Fresh_0,
    decreases hi - lo,
{
    if lo > 0 {
        assert(attempts[lo - 1] == attempts[lo - 1]);
    }
    if lo < hi {
        law_gaps_keep_the_last_usable_snapshot(
            serialize,
            options,
            config,
            deadline,
            steps_max,
            asked,
            from,
            standings,
            attempts,
            lo,
            hi - 1,
        );
        assert(attempts[hi - 1] is Gap);
    }
}

/// One more attempt that a run got past.
proof fn lemma_rounds_grow<'a, D: Sink, F: Fn(&WatchRecord<'a>) -> Serialized>(
    serialize: &'a F,
    options: &'a WatchOptions,
    config: &'a Config,
    deadline: Option<Duration>,
    steps_max: u64,
    asked: Seq<EventCall>,
    from: Ledger<D>,
    standings: Seq<Standing<D>>,
    attempts: Seq<Attempt>,
    attempt: Attempt,
    next: Standing<D>,
)
    requires
        rounds_made(
            serialize,
            options,
            config,
            deadline,
            steps_max,
            asked,
            from,
            standings,
            attempts,
        ),
        round_made(
            serialize,
            options,
            config,
            deadline,
            steps_max,
            standings.last(),
            attempt,
            next,
        ),
    ensures
        rounds_made(
            serialize,
            options,
            config,
            deadline,
            steps_max,
            asked,
            from,
            standings.push(next),
            attempts.push(attempt),
        ),
{
    let longer = attempts.push(attempt);
    assert forall|i: int| #![trigger longer[i]] 0 <= i < longer.len() implies round_made(
        serialize,
        options,
        config,
        deadline,
        steps_max,
        standings.push(next)[i],
        longer[i],
        standings.push(next)[i + 1],
    ) by {
        if i < attempts.len() {
            assert(longer[i] == attempts[i]);
        }
    }
}

/// What a run keeps between two attempts.
struct RunState {
    previous: NetworkSnapshot,
    index: SnapshotIndex,
    failures: u8,
    sequence: u64,
    next_poll: Duration,
}

impl RunState {
    spec fn wf(self) -> bool {
        &&& self.index.serves(Some(&self.previous))
        &&& self.failures < WATCH_FAILURES_MAX
    }

    spec fn standing<W: Sink, D: Sink>(
        self,
        calls: Seq<RuntimeCall>,
        asked: Seq<EventCall>,
        output: W,
        diagnostics: D,
    ) -> Standing<D> {
        Standing {
            previous: self.previous,
            failures: self.failures as nat,
            next_poll: self.next_poll,
            asked,
            ledger: ledger(calls, output, diagnostics, self.sequence),
        }
    }
}

/// Open a run, make the first observation and tell the baseline.
#[verifier::rlimit(40)]
fn begin_run<R: WatchRuntime, S: EventSource, W: Sink, D: Sink, F>(
    options: &WatchOptions,
    config: &Config,
    runtime: &mut R,
    source: &mut EventRecord<S>,
    output: &mut W,
    diagnostics: &mut D,
    serialize: &F,
) -> (r: Result<(RunState, Option<Duration>), ExitReason>) where
    F: Fn(&WatchRecord<'_>) -> Serialized,

    requires
        forall|record: &WatchRecord| call_requires(*serialize, (record,)),
    ensures
        old(output).failed() ==> final(output).failed(),
        match r {
            Ok((state, deadline)) => {
                &&& state.wf()
                &&& run_based(
                    serialize,
                    options,
                    config,
                    deadline,
                    old(source).asked(),
                    ledger(old(runtime).calls(), *old(output), *old(diagnostics), 0),
                    state.standing(
                        final(runtime).calls(),
                        final(source).asked(),
                        *final(output),
                        *final(diagnostics),
                    ),
                )
            },
            Err(reason) => exists|sequence: u64|
                run_unstarted(
                    serialize,
                    options,
                    config,
                    old(source).asked(),
                    ledger(old(runtime).calls(), *old(output), *old(diagnostics), 0),
                    Ending {
                        asked: final(source).asked(),
                        ledger: #[trigger] ledger(
                            final(runtime).calls(),
                            *final(output),
                            *final(diagnostics),
                            sequence,
                        ),
                        reason: Some(reason),
                    },
                ),
        },
{
    let ghost asked = source.asked();
    let ghost from = ledger(runtime.calls(), *output, *diagnostics, 0);
    let started = runtime.monotonic_now();
    let deadline: Option<Duration> = match options.duration {
        Some(duration) => match started.checked_add(duration) {
            Some(deadline) => Some(deadline),
            None => {
                write_diagnostic(diagnostics, "watch duration overflowed the monotonic clock");
                assert(clock_overflows(started, options.duration->0));
                let ghost end = ledger(runtime.calls(), *output, *diagnostics, 0);
                assert(failed_with(
                    from,
                    end,
                    "watch duration overflowed the monotonic clock"@,
                    Some(ExitReason::Failure),
                ));
                return Err(ExitReason::Failure);
            },
        },
        None => None,
    };
    assert(deadline_set(started, options.duration, deadline));
    if runtime.cancelled() {
        let reason = flush_exit(output, diagnostics, ExitReason::Success);
        let ghost end = ledger(runtime.calls(), *output, *diagnostics, 0);
        assert(closed_with(from, end, Some(reason)));
        return Err(reason);
    }
    let ghost opened = runtime.calls();
    assert(run_opened(from.calls, options.duration, deadline, opened));
    let ghost told_before = *diagnostics;
    let observed = collect_initial_snapshot(runtime, diagnostics);
    let ghost came = observed;
    let ghost outcome = choose|outcome: Result<NetworkSnapshot, InitialRefusal>|
        #[trigger] initial_made(opened, runtime.calls(), outcome) && initial_told(
            outcome,
            told_before,
            *diagnostics,
            came,
        );
    let previous = match observed {
        Ok(snapshot) => snapshot,
        Err(reason) => {
            proof {
                let refusal = outcome->Err_0;
                let end = ledger(runtime.calls(), *output, *diagnostics, 0);
                assert(initial_made(opened, end.calls, Err(refusal)));
                assert(failed_with(from, end, refusal.text(), Some(reason)));
            }
            return Err(reason);
        },
    };
    let ghost seen = runtime.calls();
    assert(initial_made(opened, seen, Ok(previous)));
    assert(run_observed(from.calls, options.duration, deadline, previous, seen));
    let ghost based = from.at(seen);
    if stop_requested(runtime, deadline) {
        let reason = flush_exit(output, diagnostics, ExitReason::Success);
        proof {
            let end = Ending {
                asked,
                ledger: ledger(runtime.calls(), *output, *diagnostics, 0),
                reason: Some(reason),
            };
            assert(closed_with(based, end.ledger, end.reason));
            assert(baseline_ended(
                serialize,
                options,
                config,
                deadline,
                previous,
                asked,
                based,
                end,
            ));
        }
        return Err(reason);
    }
    let ghost passed = runtime.calls();
    assert(look_passed(seen, deadline, passed));
    assert(look_passed(based.calls, deadline, passed));
    let mut sequence: u64 = 0;
    let mut index = SnapshotIndex::new(&previous);
    let mut no_index = SnapshotIndex::blank();
    let ghost start = ledger(runtime.calls(), *output, *diagnostics, sequence);
    assert(start == based.at(passed));
    let written = write_comparison(
        None,
        &previous,
        options,
        config,
        runtime,
        source,
        deadline,
        output,
        diagnostics,
        &mut sequence,
        &mut no_index,
        &mut index,
        serialize,
    );
    let ghost told = ledger(runtime.calls(), *output, *diagnostics, sequence);
    assert(comparison_made(
        serialize,
        options,
        config,
        deadline,
        None,
        &previous,
        asked,
        based.at(passed),
        source.asked(),
        told,
        written,
    ));
    match written {
        Some(reason) => {
            proof {
                let end = Ending { asked: source.asked(), ledger: told, reason: Some(reason) };
                assert(baseline_ended(
                    serialize,
                    options,
                    config,
                    deadline,
                    previous,
                    asked,
                    based,
                    end,
                ));
            }
            return Err(reason);
        },
        None => {},
    }
    let now = runtime.monotonic_now();
    let next_poll = match next_poll_after(now, options.interval) {
        Some(next) => next,
        None => {
            write_diagnostic(diagnostics, "watch poll deadline overflowed");
            proof {
                let end = Ending {
                    asked: source.asked(),
                    ledger: ledger(runtime.calls(), *output, *diagnostics, sequence),
                    reason: Some(ExitReason::Failure),
                };
                assert(clock_overflows(now, options.interval));
                assert(failed_with(
                    told,
                    end.ledger,
                    "watch poll deadline overflowed"@,
                    end.reason,
                ));
                assert(baseline_ended(
                    serialize,
                    options,
                    config,
                    deadline,
                    previous,
                    asked,
                    based,
                    end,
                ));
            }
            return Err(ExitReason::Failure);
        },
    };
    assert(due_after(now, options.interval, next_poll));
    assert(based.at(passed) == from.at(passed));
    let state = RunState { previous, index, failures: 0, sequence, next_poll };
    proof {
        let to = state.standing(runtime.calls(), source.asked(), *output, *diagnostics);
        assert(run_observed(from.calls, options.duration, deadline, to.previous, seen));
        assert(comparison_made(
            serialize,
            options,
            config,
            deadline,
            None,
            &to.previous,
            asked,
            from.at(passed),
            to.asked,
            told,
            None,
        ));
        assert(due_after(now, options.interval, to.next_poll));
        assert(to.ledger == told.at(told.calls.push(RuntimeCall::Monotonic(now))));
        assert(run_based(serialize, options, config, deadline, asked, from, to));
    }
    Ok((state, deadline))
}

/// Wait until the next attempt is due, and make it.
#[verifier::rlimit(40)]
fn make_attempt<R: WatchRuntime, W: Sink, D: Sink>(
    state: &RunState,
    deadline: Option<Duration>,
    runtime: &mut R,
    output: &mut W,
    diagnostics: &mut D,
    rounds_max: u64,
    Ghost(asked): Ghost<Seq<EventCall>>,
) -> (r: Result<(Duration, Attempt), Option<ExitReason>>)
    ensures
        old(output).failed() ==> final(output).failed(),
        match r {
            Ok((anchor, attempt)) => {
                &&& *final(output) == *old(output)
                &&& *final(diagnostics) == *old(diagnostics)
                &&& attempt_reached(
                    deadline,
                    rounds_max,
                    state.standing(old(runtime).calls(), asked, *old(output), *old(diagnostics)),
                    anchor,
                    attempt,
                    final(runtime).calls(),
                )
            },
            Err(reason) => attempt_missed(
                deadline,
                rounds_max,
                state.standing(old(runtime).calls(), asked, *old(output), *old(diagnostics)),
                Ending {
                    asked,
                    ledger: ledger(
                        final(runtime).calls(),
                        *final(output),
                        *final(diagnostics),
                        state.sequence,
                    ),
                    reason,
                },
            ),
        },
{
    let ghost from = state.standing(runtime.calls(), asked, *output, *diagnostics);
    let waited_out = wait_until(runtime, state.next_poll, deadline, rounds_max);
    let ghost waiting = choose|waiting: Seq<RuntimeCall>|
        runtime.calls() == from.ledger.calls + waiting && #[trigger] waited(
            waiting,
            state.next_poll,
            deadline,
            rounds_max,
            waited_out,
        );
    match waited_out {
        Some(true) => {
            let reason = flush_exit(output, diagnostics, ExitReason::Success);
            assert(wait_over(waiting, from.next_poll, deadline, rounds_max));
            assert(closed_with(
                from.ledger,
                ledger(runtime.calls(), *output, *diagnostics, state.sequence),
                Some(reason),
            ));
            return Err(Some(reason));
        },
        Some(false) => {},
        None => {
            assert(wait_given_up(waiting, from.next_poll, deadline, rounds_max));
            return Err(None);
        },
    }
    assert(wait_ready(waiting, from.next_poll, deadline, rounds_max));
    let anchor = runtime.monotonic_now();
    let wall = runtime.wall_now();
    let ghost first = wall;
    let ghost reading = (from.ledger.calls + waiting).push(RuntimeCall::Monotonic(anchor)).push(
        RuntimeCall::Wall(first),
    );
    assert(runtime.calls() == reading);
    let started = match wall {
        Ok(time) => time,
        Err(error) => {
            let reason = clock_failure(diagnostics, &error);
            assert(failed_with(
                from.ledger,
                ledger(runtime.calls(), *output, *diagnostics, state.sequence),
                clock_failure_text(error),
                Some(reason),
            ));
            return Err(Some(reason));
        },
    };
    match validate_wall_interval(state.previous.capture_completed_at, started) {
        Ok(()) => {},
        Err(error) => {
            let reason = clock_failure(diagnostics, &error);
            assert(failed_with(
                from.ledger,
                ledger(runtime.calls(), *output, *diagnostics, state.sequence),
                clock_failure_text(ObservationError::InvalidWallClockInterval),
                Some(reason),
            ));
            return Err(Some(reason));
        },
    }
    let collected = runtime.collect();
    let ghost made = collected;
    let second = runtime.wall_now();
    let ghost read = second;
    assert(runtime.calls() == (from.ledger.calls + waiting).push(
        RuntimeCall::Monotonic(anchor),
    ).push(RuntimeCall::Wall(Ok(started))).push(RuntimeCall::Collected(made)).push(
        RuntimeCall::Wall(read),
    ));
    let completed = match second {
        Ok(time) => time,
        Err(error) => {
            let reason = clock_failure(diagnostics, &error);
            assert(failed_with(
                from.ledger,
                ledger(runtime.calls(), *output, *diagnostics, state.sequence),
                clock_failure_text(error),
                Some(reason),
            ));
            return Err(Some(reason));
        },
    };
    let attempt = judge_attempt(
        state.previous.capture_completed_at,
        started,
        completed,
        collected,
    );
    assert(attempt == attempt_verdict(
        from.previous.capture_completed_at,
        started,
        completed,
        made,
    ));
    Ok((anchor, attempt))
}

/// Tell a gap and put off the next attempt.
#[verifier::rlimit(40)]
fn pass_gap<R: WatchRuntime, W: Sink, D: Sink, F>(
    state: &mut RunState,
    deadline: Option<Duration>,
    options: &WatchOptions,
    config: &Config,
    runtime: &mut R,
    output: &mut W,
    diagnostics: &mut D,
    serialize: &F,
    anchor: Duration,
    times: ObservationTimes,
    result: Result<NetworkSnapshot, CollectorError>,
    Ghost(from): Ghost<Standing<D>>,
) -> (r: Option<ExitReason>) where F: Fn(&WatchRecord<'_>) -> Serialized
    requires
        forall|record: &WatchRecord| call_requires(*serialize, (record,)),
        old(state).wf(),
        from.ledger.at(old(runtime).calls()) == ledger(
            old(runtime).calls(),
            *old(output),
            *old(diagnostics),
            old(state).sequence,
        ),
        from.previous == old(state).previous,
        from.failures == old(state).failures,
        from.next_poll == old(state).next_poll,
    ensures
        old(output).failed() ==> final(output).failed(),
        match r {
            None => final(state).wf() && round_told(
                serialize,
                options,
                config,
                deadline,
                from,
                anchor,
                old(runtime).calls(),
                Attempt::Gap { times, result },
                final(state).standing(
                    final(runtime).calls(),
                    from.asked,
                    *final(output),
                    *final(diagnostics),
                ),
            ),
            Some(reason) => attempt_ended(
                serialize,
                options,
                config,
                deadline,
                from,
                anchor,
                old(runtime).calls(),
                Attempt::Gap { times, result },
                Ending {
                    asked: from.asked,
                    ledger: ledger(
                        final(runtime).calls(),
                        *final(output),
                        *final(diagnostics),
                        final(state).sequence,
                    ),
                    reason: Some(reason),
                },
            ),
        },
{
    let ghost calls = runtime.calls();
    let ghost reached = from.ledger.at(calls);
    let mut sequence: u64 = state.sequence;
    let mut failures: u8 = state.failures;
    let reported = report_gap(
        result,
        times,
        options.json,
        output,
        diagnostics,
        &mut sequence,
        &mut failures,
        serialize,
        Ghost(calls),
    );
    state.sequence = sequence;
    state.failures = failures;
    let ghost told = ledger(calls, *output, *diagnostics, sequence);
    assert(gap_made(
        serialize,
        options.json,
        result,
        times,
        from.failures,
        reached,
        told,
        reported,
    ));
    match reported {
        Some(reason) => {
            return Some(reason);
        },
        None => {},
    }
    if stop_requested(runtime, deadline) {
        let reason = flush_exit(output, diagnostics, ExitReason::Success);
        proof {
            let end = Ending {
                asked: from.asked,
                ledger: ledger(runtime.calls(), *output, *diagnostics, state.sequence),
                reason: Some(reason),
            };
            assert(closed_with(told, end.ledger, end.reason));
            assert(gap_followed(options, deadline, told, end));
        }
        return Some(reason);
    }
    let ghost passed = runtime.calls();
    assert(look_passed(told.calls, deadline, passed));
    let now = runtime.monotonic_now();
    match next_poll_after(now, options.interval) {
        Some(next) => {
            state.next_poll = next;
            proof {
                let to = state.standing(runtime.calls(), from.asked, *output, *diagnostics);
                assert(gap_made(
                    serialize,
                    options.json,
                    result,
                    times,
                    from.failures,
                    from.ledger.at(calls),
                    told,
                    None,
                ));
                assert(due_after(now, options.interval, to.next_poll));
                assert(to.ledger == told.at(passed.push(RuntimeCall::Monotonic(now))));
                assert(to.failures == from.failures + 1);
                assert(to.failures < WATCH_FAILURES_MAX);
                assert(round_told(
                    serialize,
                    options,
                    config,
                    deadline,
                    from,
                    anchor,
                    calls,
                    Attempt::Gap { times, result },
                    to,
                ));
            }
            None
        },
        None => {
            write_diagnostic(diagnostics, "watch poll deadline overflowed");
            proof {
                let end = Ending {
                    asked: from.asked,
                    ledger: ledger(runtime.calls(), *output, *diagnostics, state.sequence),
                    reason: Some(ExitReason::Failure),
                };
                assert(clock_overflows(now, options.interval));
                assert(failed_with(
                    told,
                    end.ledger,
                    "watch poll deadline overflowed"@,
                    end.reason,
                ));
                assert(gap_followed(options, deadline, told, end));
            }
            Some(ExitReason::Failure)
        },
    }
}

/// Compare a usable snapshot with the one before it, and put it in its place.
#[verifier::rlimit(40)]
fn pass_snapshot<R: WatchRuntime, S: EventSource, W: Sink, D: Sink, F>(
    state: &mut RunState,
    deadline: Option<Duration>,
    options: &WatchOptions,
    config: &Config,
    runtime: &mut R,
    source: &mut EventRecord<S>,
    output: &mut W,
    diagnostics: &mut D,
    serialize: &F,
    anchor: Duration,
    current: NetworkSnapshot,
    Ghost(from): Ghost<Standing<D>>,
) -> (r: Option<ExitReason>) where F: Fn(&WatchRecord<'_>) -> Serialized
    requires
        forall|record: &WatchRecord| call_requires(*serialize, (record,)),
        old(state).wf(),
        from.ledger.at(old(runtime).calls()) == ledger(
            old(runtime).calls(),
            *old(output),
            *old(diagnostics),
            old(state).sequence,
        ),
        from.previous == old(state).previous,
        from.asked == old(source).asked(),
    ensures
        old(output).failed() ==> final(output).failed(),
        match r {
            None => final(state).wf() && round_told(
                serialize,
                options,
                config,
                deadline,
                from,
                anchor,
                old(runtime).calls(),
                Attempt::Fresh(current),
                final(state).standing(
                    final(runtime).calls(),
                    final(source).asked(),
                    *final(output),
                    *final(diagnostics),
                ),
            ),
            Some(reason) => attempt_ended(
                serialize,
                options,
                config,
                deadline,
                from,
                anchor,
                old(runtime).calls(),
                Attempt::Fresh(current),
                Ending {
                    asked: final(source).asked(),
                    ledger: ledger(
                        final(runtime).calls(),
                        *final(output),
                        *final(diagnostics),
                        final(state).sequence,
                    ),
                    reason: Some(reason),
                },
            ),
        },
{
    let ghost calls = runtime.calls();
    let ghost reached = from.ledger.at(calls);
    if stop_requested(runtime, deadline) {
        let reason = flush_exit(output, diagnostics, ExitReason::Success);
        assert(closed_with(
            reached,
            ledger(runtime.calls(), *output, *diagnostics, state.sequence),
            Some(reason),
        ));
        return Some(reason);
    }
    let ghost passed = runtime.calls();
    assert(look_passed(calls, deadline, passed));
    let mut current_index = SnapshotIndex::new(&current);
    let mut sequence: u64 = state.sequence;
    assert(ledger(runtime.calls(), *output, *diagnostics, sequence) == from.ledger.at(passed));
    let written = write_comparison(
        Some(&state.previous),
        &current,
        options,
        config,
        runtime,
        source,
        deadline,
        output,
        diagnostics,
        &mut sequence,
        &mut state.index,
        &mut current_index,
        serialize,
    );
    state.sequence = sequence;
    let ghost told = ledger(runtime.calls(), *output, *diagnostics, sequence);
    assert(comparison_made(
        serialize,
        options,
        config,
        deadline,
        Some(&from.previous),
        &current,
        from.asked,
        from.ledger.at(passed),
        source.asked(),
        told,
        written,
    ));
    match written {
        Some(reason) => {
            return Some(reason);
        },
        None => {},
    }
    match next_poll_after(anchor, options.interval) {
        Some(next) => {
            state.next_poll = next;
        },
        None => {
            write_diagnostic(diagnostics, "watch poll deadline overflowed");
            assert(failed_with(
                told,
                ledger(runtime.calls(), *output, *diagnostics, state.sequence),
                "watch poll deadline overflowed"@,
                Some(ExitReason::Failure),
            ));
            return Some(ExitReason::Failure);
        },
    }
    state.previous = current;
    state.index = current_index;
    state.failures = 0;
    assert(due_after(anchor, options.interval, state.next_poll));
    None
}

/// Make one attempt and tell what it amounts to.
#[verifier::rlimit(40)]
fn run_round<R: WatchRuntime, S: EventSource, W: Sink, D: Sink, F>(
    state: &mut RunState,
    deadline: Option<Duration>,
    options: &WatchOptions,
    config: &Config,
    runtime: &mut R,
    source: &mut EventRecord<S>,
    output: &mut W,
    diagnostics: &mut D,
    serialize: &F,
    rounds_max: u64,
) -> (r: Result<(), Option<ExitReason>>) where F: Fn(&WatchRecord<'_>) -> Serialized
    requires
        forall|record: &WatchRecord| call_requires(*serialize, (record,)),
        old(state).wf(),
    ensures
        old(output).failed() ==> final(output).failed(),
        match r {
            Ok(()) => final(state).wf() && exists|attempt: Attempt|
                #[trigger] round_made(
                    serialize,
                    options,
                    config,
                    deadline,
                    rounds_max,
                    old(state).standing(
                        old(runtime).calls(),
                        old(source).asked(),
                        *old(output),
                        *old(diagnostics),
                    ),
                    attempt,
                    final(state).standing(
                        final(runtime).calls(),
                        final(source).asked(),
                        *final(output),
                        *final(diagnostics),
                    ),
                ),
            Err(reason) => run_ended(
                serialize,
                options,
                config,
                deadline,
                rounds_max,
                old(state).standing(
                    old(runtime).calls(),
                    old(source).asked(),
                    *old(output),
                    *old(diagnostics),
                ),
                Ending {
                    asked: final(source).asked(),
                    ledger: ledger(
                        final(runtime).calls(),
                        *final(output),
                        *final(diagnostics),
                        final(state).sequence,
                    ),
                    reason,
                },
            ),
        },
{
    let ghost asked = source.asked();
    let ghost from = state.standing(runtime.calls(), asked, *output, *diagnostics);
    let (anchor, attempt): (Duration, Attempt) = match make_attempt(
        state,
        deadline,
        runtime,
        output,
        diagnostics,
        rounds_max,
        Ghost(asked),
    ) {
        Ok(made) => made,
        Err(reason) => {
            return Err(reason);
        },
    };
    let ghost calls = runtime.calls();
    let ghost made = attempt;
    assert(attempt_reached(deadline, rounds_max, from, anchor, made, calls));
    match attempt {
        Attempt::Clock(error) => {
            let reason = clock_failure(diagnostics, &error);
            proof {
                let end = Ending {
                    asked,
                    ledger: ledger(runtime.calls(), *output, *diagnostics, state.sequence),
                    reason: Some(reason),
                };
                assert(attempt_ended(
                    serialize,
                    options,
                    config,
                    deadline,
                    from,
                    anchor,
                    calls,
                    made,
                    end,
                ));
            }
            Err(Some(reason))
        },
        Attempt::Output(error) => {
            let reason = output_failure(diagnostics, &error);
            proof {
                let end = Ending {
                    asked,
                    ledger: ledger(runtime.calls(), *output, *diagnostics, state.sequence),
                    reason: Some(reason),
                };
                assert(attempt_ended(
                    serialize,
                    options,
                    config,
                    deadline,
                    from,
                    anchor,
                    calls,
                    made,
                    end,
                ));
            }
            Err(Some(reason))
        },
        Attempt::Gap { times, result } => {
            match pass_gap(
                state,
                deadline,
                options,
                config,
                runtime,
                output,
                diagnostics,
                serialize,
                anchor,
                times,
                result,
                Ghost(from),
            ) {
                None => {
                    assert(round_made(
                        serialize,
                        options,
                        config,
                        deadline,
                        rounds_max,
                        from,
                        made,
                        state.standing(runtime.calls(), source.asked(), *output, *diagnostics),
                    ));
                    Ok(())
                },
                Some(reason) => Err(Some(reason)),
            }
        },
        Attempt::Fresh(current) => {
            match pass_snapshot(
                state,
                deadline,
                options,
                config,
                runtime,
                source,
                output,
                diagnostics,
                serialize,
                anchor,
                current,
                Ghost(from),
            ) {
                None => {
                    assert(round_made(
                        serialize,
                        options,
                        config,
                        deadline,
                        rounds_max,
                        from,
                        made,
                        state.standing(runtime.calls(), source.asked(), *output, *diagnostics),
                    ));
                    Ok(())
                },
                Some(reason) => Err(Some(reason)),
            }
        },
    }
}

/// A run ended as `run_made` says, with some sequence number for the next event.
pub open spec fn run_done<'a, W: Sink, D: Sink, F: Fn(&WatchRecord<'a>) -> Serialized>(
    serialize: &'a F,
    options: &'a WatchOptions,
    config: &'a Config,
    rounds_max: u64,
    asked: Seq<EventCall>,
    from: Ledger<D>,
    asked_then: Seq<EventCall>,
    calls: Seq<RuntimeCall>,
    output: W,
    diagnostics: D,
    r: Option<ExitReason>,
) -> bool {
    exists|sequence: u64|
        run_made(
            serialize,
            options,
            config,
            rounds_max,
            asked,
            from,
            Ending {
                asked: asked_then,
                ledger: #[trigger] ledger(calls, output, diagnostics, sequence),
                reason: r,
            },
        )
}

/// Watch until the run is over. A gap leaves the snapshot to compare with as it is,
/// and the next attempt waits from its end; a usable snapshot takes its place, and
/// the next attempt waits from the start of this one. The run gives up without a
/// reason after `rounds_max` attempts, or sleeps in one wait.
#[verifier::rlimit(30)]
pub fn run_watch_loop<R: WatchRuntime, S: EventSource, W: Sink, D: Sink, F>(
    options: &WatchOptions,
    config: &Config,
    runtime: &mut R,
    source: &mut EventRecord<S>,
    output: &mut W,
    diagnostics: &mut D,
    serialize: &F,
    rounds_max: u64,
) -> (r: Option<ExitReason>) where F: Fn(&WatchRecord<'_>) -> Serialized
    requires
        forall|record: &WatchRecord| call_requires(*serialize, (record,)),
    ensures
        old(output).failed() ==> final(output).failed(),
        run_done(
            serialize,
            options,
            config,
            rounds_max,
            old(source).asked(),
            ledger(old(runtime).calls(), *old(output), *old(diagnostics), 0),
            final(source).asked(),
            final(runtime).calls(),
            *final(output),
            *final(diagnostics),
            r,
        ),
{
    let ghost asked = source.asked();
    let ghost from = ledger(runtime.calls(), *output, *diagnostics, 0);
    let (mut state, deadline): (RunState, Option<Duration>) = match begin_run(
        options,
        config,
        runtime,
        source,
        output,
        diagnostics,
        serialize,
    ) {
        Ok(begun) => begun,
        Err(reason) => {
            return Some(reason);
        },
    };
    let ghost mut attempts = Seq::<Attempt>::empty();
    let ghost mut standings = seq![
        state.standing(runtime.calls(), source.asked(), *output, *diagnostics),
    ];
    assert(rounds_made(
        serialize,
        options,
        config,
        deadline,
        rounds_max,
        asked,
        from,
        standings,
        attempts,
    ));
    let mut rounds: u64 = 0;
    while rounds < rounds_max
        invariant
            forall|record: &WatchRecord| call_requires(*serialize, (record,)),
            state.wf(),
            rounds <= rounds_max,
            attempts.len() == rounds,
            old(output).failed() ==> output.failed(),
            asked == old(source).asked(),
            from == ledger(old(runtime).calls(), *old(output), *old(diagnostics), 0),
            rounds_made(
                serialize,
                options,
                config,
                deadline,
                rounds_max,
                asked,
                from,
                standings,
                attempts,
            ),
            standings.last() == state.standing(
                runtime.calls(),
                source.asked(),
                *output,
                *diagnostics,
            ),
        decreases rounds_max - rounds,
    {
        let ghost here = standings.last();
        match run_round(
            &mut state,
            deadline,
            options,
            config,
            runtime,
            source,
            output,
            diagnostics,
            serialize,
            rounds_max,
        ) {
            Ok(()) => {},
            Err(reason) => {
                proof {
                    let end = Ending {
                        asked: source.asked(),
                        ledger: ledger(runtime.calls(), *output, *diagnostics, state.sequence),
                        reason,
                    };
                    assert(run_ended(
                        serialize,
                        options,
                        config,
                        deadline,
                        rounds_max,
                        here,
                        end,
                    ));
                    assert(run_made(serialize, options, config, rounds_max, asked, from, end));
                }
                return reason;
            },
        }
        proof {
            let next = state.standing(runtime.calls(), source.asked(), *output, *diagnostics);
            let attempt = choose|attempt: Attempt|
                #[trigger] round_made(
                    serialize,
                    options,
                    config,
                    deadline,
                    rounds_max,
                    here,
                    attempt,
                    next,
                );
            lemma_rounds_grow(
                serialize,
                options,
                config,
                deadline,
                rounds_max,
                asked,
                from,
                standings,
                attempts,
                attempt,
                next,
            );
            standings = standings.push(next);
            attempts = attempts.push(attempt);
        }
        rounds = rounds + 1;
    }
    proof {
        let end = Ending {
            asked: source.asked(),
            ledger: ledger(runtime.calls(), *output, *diagnostics, state.sequence),
            reason: None,
        };
        assert(end.ledger == standings.last().ledger);
        assert(run_made(serialize, options, config, rounds_max, asked, from, end));
    }
    None
}

/// Check the arguments of a watch run, then watch. `literal` and `terms` are what the
/// address text and the filter text parsed to.
pub fn run_watch<R: WatchRuntime, S: EventSource, W: Sink, D: Sink, F>(
    args: &WatchArgs,
    literal: Option<IpAddr>,
    terms: Result<Vec<FilterTerm>, String>,
    config: &Config,
    runtime: &mut R,
    source: &mut EventRecord<S>,
    output: &mut W,
    diagnostics: &mut D,
    serialize: &F,
    rounds_max: u64,
) -> (r: Option<ExitReason>) where F: Fn(&WatchRecord<'_>) -> Serialized
    requires
        forall|record: &WatchRecord| call_requires(*serialize, (record,)),
    ensures
        match options_refusal(*args, literal, terms) {
            Some(text) => {
                &&& r == Some(ExitReason::InvalidArguments)
                &&& *final(runtime) == *old(runtime)
                &&& *final(source) == *old(source)
                &&& *final(output) == *old(output)
                &&& said(*old(diagnostics), *final(diagnostics), seq![problem_line(text)])
                &&& accepted_part(
                    old(diagnostics).written(),
                    final(diagnostics).written(),
                    encode_utf8(diagnostic_line(text)),
                )
            },
            None => run_done(
                serialize,
                &options_of(*args, literal, terms),
                config,
                rounds_max,
                old(source).asked(),
                ledger(old(runtime).calls(), *old(output), *old(diagnostics), 0),
                final(source).asked(),
                final(runtime).calls(),
                *final(output),
                *final(diagnostics),
                r,
            ),
        },
{
    let options = match WatchOptions::parse(args, literal, terms) {
        Ok(options) => options,
        Err(error) => {
            write_diagnostic(diagnostics, error.as_str());
            return Some(ExitReason::InvalidArguments);
        },
    };
    run_watch_loop(
        &options,
        config,
        runtime,
        source,
        output,
        diagnostics,
        serialize,
        rounds_max,
    )
}

} // verus!
