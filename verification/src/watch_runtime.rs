//! What a watch run asks of its surroundings: observations, two clocks, waiting
//! and cancellation.

use vstd::prelude::*;
use crate::collector::CollectorError;
use crate::observation::{NetworkSnapshot, ObservationError};
use crate::time::{Duration, SystemTime};

verus! {

/// One use of the surroundings, with what came of it.
#[derive(Debug)]
pub enum RuntimeCall {
    Collected(Result<NetworkSnapshot, CollectorError>),
    Monotonic(Duration),
    Wall(Result<SystemTime, ObservationError>),
    Slept(Duration),
    Cancelled(bool),
}

/// The surroundings of a watch run.
pub trait WatchRuntime {
    /// Every use so far, the oldest first.
    spec fn calls(&self) -> Seq<RuntimeCall>;

    fn collect(&mut self) -> (r: Result<NetworkSnapshot, CollectorError>)
        ensures
            final(self).calls() == old(self).calls().push(RuntimeCall::Collected(r)),
    ;

    fn monotonic_now(&mut self) -> (r: Duration)
        ensures
            final(self).calls() == old(self).calls().push(RuntimeCall::Monotonic(r)),
    ;

    fn wall_now(&mut self) -> (r: Result<SystemTime, ObservationError>)
        ensures
            final(self).calls() == old(self).calls().push(RuntimeCall::Wall(r)),
    ;

    fn sleep(&mut self, duration: Duration)
        ensures
            final(self).calls() == old(self).calls().push(RuntimeCall::Slept(duration)),
    ;

    fn cancelled(&mut self) -> (r: bool)
        ensures
            final(self).calls() == old(self).calls().push(RuntimeCall::Cancelled(r)),
    ;
}

/// The host that a production run works on.
pub trait WatchHost {
    fn collect(&mut self) -> (r: Result<NetworkSnapshot, CollectorError>);

    /// A reading of the monotonic clock.
    fn monotonic(&mut self) -> (r: Duration);

    fn wall(&mut self) -> (r: Result<SystemTime, ObservationError>);

    fn sleep(&mut self, duration: Duration);

    fn cancelled(&mut self) -> (r: bool);
}

/// The surroundings in production. Monotonic time counts from when the runtime
/// was made.
pub struct ProductionRuntime<H> {
    pub started: Duration,
    pub host: H,
    pub used: Ghost<Seq<RuntimeCall>>,
}

impl<H: WatchHost> ProductionRuntime<H> {
    pub fn new(host: H) -> (r: ProductionRuntime<H>)
        ensures
            r.calls().len() == 0,
    {
        let mut host = host;
        let started = host.monotonic();
        ProductionRuntime {
            started,
            host,
            used: Ghost(Seq::empty()),
        }
    }
}

impl<H: WatchHost> WatchRuntime for ProductionRuntime<H> {
    open spec fn calls(&self) -> Seq<RuntimeCall> {
        self.used@
    }

    fn collect(&mut self) -> (r: Result<NetworkSnapshot, CollectorError>) {
        let result = self.host.collect();
        proof {
            self.used@ = self.used@.push(RuntimeCall::Collected(result));
        }
        result
    }

    fn monotonic_now(&mut self) -> (r: Duration) {
        let now = self.host.monotonic().saturating_sub(self.started);
        proof {
            self.used@ = self.used@.push(RuntimeCall::Monotonic(now));
        }
        now
    }

    fn wall_now(&mut self) -> (r: Result<SystemTime, ObservationError>) {
        let time = self.host.wall();
        proof {
            self.used@ = self.used@.push(RuntimeCall::Wall(time));
        }
        time
    }

    fn sleep(&mut self, duration: Duration) {
        self.host.sleep(duration);
        proof {
            self.used@ = self.used@.push(RuntimeCall::Slept(duration));
        }
    }

    fn cancelled(&mut self) -> (r: bool) {
        let cancelled = self.host.cancelled();
        proof {
            self.used@ = self.used@.push(RuntimeCall::Cancelled(cancelled));
        }
        cancelled
    }
}

/// The next time to poll, where the clock can express it.
pub fn next_poll_after(anchor: Duration, interval: Duration) -> (r: Option<Duration>)
    ensures
        match r {
            Some(next) => next.nanos == anchor.nanos + interval.nanos && next.wf(),
            None => !(anchor.nanos + interval.nanos <= crate::time::DURATION_NANOS_MAX),
        },
{
    anchor.checked_add(interval)
}

/// Whether a run is over: it was cancelled, or its time is up.
pub open spec fn stops(cancelled: bool, deadline_check: Option<(Duration, Duration)>) -> bool {
    cancelled || (deadline_check matches Some((now, deadline)) && now.nanos >= deadline.nanos)
}

pub fn should_stop(cancelled: bool, deadline_check: Option<(Duration, Duration)>) -> (r: bool)
    ensures
        r == stops(cancelled, deadline_check),
{
    cancelled || match deadline_check {
        Some((now, deadline)) => now.nanos >= deadline.nanos,
        None => false,
    }
}

/// The surroundings were asked whether the run is over: for a cancellation and, where the
/// run has an end, for the time.
pub open spec fn stop_asked(
    before: Seq<RuntimeCall>,
    deadline: Option<Duration>,
    after: Seq<RuntimeCall>,
    r: bool,
) -> bool {
    match deadline {
        Some(end) => exists|cancelled: bool, now: Duration|
            after == before.push(RuntimeCall::Cancelled(cancelled)).push(
                RuntimeCall::Monotonic(now),
            ) && r == #[trigger] stops(cancelled, Some((now, end))),
        None => after == before.push(RuntimeCall::Cancelled(r)),
    }
}

/// The surroundings were asked whether the run is over, and it is not.
pub open spec fn look_passed(
    before: Seq<RuntimeCall>,
    deadline: Option<Duration>,
    after: Seq<RuntimeCall>,
) -> bool {
    stop_asked(before, deadline, after, false)
}

/// The surroundings were asked whether the run is over, and it is.
pub open spec fn look_stopped(
    before: Seq<RuntimeCall>,
    deadline: Option<Duration>,
    after: Seq<RuntimeCall>,
) -> bool {
    stop_asked(before, deadline, after, true)
}

/// All that the surroundings were asked is whether the run is over, as many times as
/// `looks` says, and it never was.
pub open spec fn kept_on(
    before: Seq<RuntimeCall>,
    deadline: Option<Duration>,
    after: Seq<RuntimeCall>,
    looks: nat,
) -> bool
    decreases looks,
{
    if looks == 0 {
        after == before
    } else {
        exists|middle: Seq<RuntimeCall>|
            kept_on(before, deadline, middle, (looks - 1) as nat) && #[trigger] look_passed(
                middle,
                deadline,
                after,
            )
    }
}

/// The same, and then it was asked once more: this time it was over.
pub open spec fn stopped_on(
    before: Seq<RuntimeCall>,
    deadline: Option<Duration>,
    after: Seq<RuntimeCall>,
    looks: nat,
) -> bool {
    exists|middle: Seq<RuntimeCall>|
        kept_on(before, deadline, middle, looks) && #[trigger] look_stopped(
            middle,
            deadline,
            after,
        )
}

pub proof fn lemma_kept_on_more(
    before: Seq<RuntimeCall>,
    deadline: Option<Duration>,
    middle: Seq<RuntimeCall>,
    after: Seq<RuntimeCall>,
    looks: nat,
)
    requires
        kept_on(before, deadline, middle, looks),
        look_passed(middle, deadline, after),
    ensures
        kept_on(before, deadline, after, looks + 1),
{
}

pub proof fn lemma_kept_on_joins(
    before: Seq<RuntimeCall>,
    deadline: Option<Duration>,
    middle: Seq<RuntimeCall>,
    looks: nat,
    after: Seq<RuntimeCall>,
    more: nat,
)
    requires
        kept_on(before, deadline, middle, looks),
        kept_on(middle, deadline, after, more),
    ensures
        kept_on(before, deadline, after, looks + more),
    decreases more,
{
    if more > 0 {
        let earlier = choose|earlier: Seq<RuntimeCall>|
            kept_on(middle, deadline, earlier, (more - 1) as nat) && #[trigger] look_passed(
                earlier,
                deadline,
                after,
            );
        lemma_kept_on_joins(before, deadline, middle, looks, earlier, (more - 1) as nat);
        lemma_kept_on_more(before, deadline, earlier, after, (looks + more - 1) as nat);
    }
}

/// Ask the surroundings whether the run is over.
pub fn stop_requested<R: WatchRuntime>(runtime: &mut R, deadline: Option<Duration>) -> (r: bool)
    ensures
        stop_asked(old(runtime).calls(), deadline, final(runtime).calls(), r),
{
    let cancelled = runtime.cancelled();
    let deadline_check: Option<(Duration, Duration)> = match deadline {
        Some(end) => Some((runtime.monotonic_now(), end)),
        None => None,
    };
    should_stop(cancelled, deadline_check)
}

/// The longest sleep between two looks for a cancellation.
pub const CANCELLATION_POLL_NANOS: u128 = 25_000_000;

/// What a waiting run does next.
#[derive(Debug, Clone, Copy, PartialEq, Eq, Structural)]
pub enum WaitStep {
    /// The run's own time is up.
    Stop,
    /// The wait is over.
    Ready,
    Sleep(Duration),
}

/// A waiting run stops at its own end, goes on once the wait is over, and otherwise
/// sleeps until the nearer of the two, but never long.
pub open spec fn waits(now: Duration, deadline: Duration, watch_deadline: Option<Duration>) -> WaitStep {
    if watch_deadline is Some && now.nanos >= watch_deadline->0.nanos {
        WaitStep::Stop
    } else if now.nanos >= deadline.nanos {
        WaitStep::Ready
    } else {
        let remaining = deadline.nanos - now.nanos;
        let nearer = if watch_deadline is Some && watch_deadline->0.nanos - now.nanos < remaining {
            watch_deadline->0.nanos - now.nanos
        } else {
            remaining
        };
        WaitStep::Sleep(
            Duration {
                nanos: (if nearer < CANCELLATION_POLL_NANOS {
                    nearer
                } else {
                    CANCELLATION_POLL_NANOS as int
                }) as u128,
            },
        )
    }
}

pub fn wait_step(now: Duration, deadline: Duration, watch_deadline: Option<Duration>) -> (r: WaitStep)
    ensures
        r == waits(now, deadline, watch_deadline),
{
    if let Some(end) = watch_deadline {
        if now.nanos >= end.nanos {
            return WaitStep::Stop;
        }
    }
    if now.nanos >= deadline.nanos {
        return WaitStep::Ready;
    }
    let remaining = deadline.saturating_sub(now);
    let duration_remaining = match watch_deadline {
        Some(end) => end.saturating_sub(now),
        None => remaining,
    };
    WaitStep::Sleep(
        remaining.shorter(duration_remaining).shorter(Duration { nanos: CANCELLATION_POLL_NANOS }),
    )
}

/// A sleep is never empty, never longer than the wait and never past the run's end.
pub proof fn law_wait_makes_progress(
    now: Duration,
    deadline: Duration,
    watch_deadline: Option<Duration>,
)
    ensures
        waits(now, deadline, watch_deadline) matches WaitStep::Sleep(span) ==> {
            &&& 0 < span.nanos <= CANCELLATION_POLL_NANOS
            &&& now.nanos + span.nanos <= deadline.nanos
            &&& watch_deadline is Some ==> now.nanos + span.nanos <= watch_deadline->0.nanos
        },
{
}

/// Look `i` of a wait found nothing, and the run slept for what was then left.
pub open spec fn slept_round(
    calls: Seq<RuntimeCall>,
    i: int,
    deadline: Duration,
    watch_deadline: Option<Duration>,
) -> bool {
    &&& calls[3 * i] == RuntimeCall::Cancelled(false)
    &&& calls[3 * i + 1] matches RuntimeCall::Monotonic(now) && calls[3 * i
        + 2] matches RuntimeCall::Slept(span) && waits(now, deadline, watch_deadline)
        == WaitStep::Sleep(span)
}

/// The first `rounds` looks of a wait found nothing.
pub open spec fn slept_rounds(
    calls: Seq<RuntimeCall>,
    rounds: int,
    deadline: Duration,
    watch_deadline: Option<Duration>,
) -> bool {
    &&& calls.len() >= 3 * rounds
    &&& forall|i: int|
        0 <= i < rounds ==> #[trigger] slept_round(calls, i, deadline, watch_deadline)
}

/// The look after `rounds` others ended a wait: for a cancellation, or for the time.
pub open spec fn wait_ended(
    calls: Seq<RuntimeCall>,
    rounds: int,
    deadline: Duration,
    watch_deadline: Option<Duration>,
    over: bool,
) -> bool {
    ||| over && calls.len() == 3 * rounds + 1 && calls[3 * rounds] == RuntimeCall::Cancelled(true)
    ||| calls.len() == 3 * rounds + 2 && calls[3 * rounds] == RuntimeCall::Cancelled(false) && (
    calls[3 * rounds + 1] matches RuntimeCall::Monotonic(now) && waits(
        now,
        deadline,
        watch_deadline,
    ) == if over {
        WaitStep::Stop
    } else {
        WaitStep::Ready
    })
}

/// A wait made these uses of the surroundings. It ends with the first look that finds a
/// cancellation, the run's end or the end of the wait, and is given up after `steps_max`
/// looks that found nothing.
pub open spec fn waited(
    calls: Seq<RuntimeCall>,
    deadline: Duration,
    watch_deadline: Option<Duration>,
    steps_max: u64,
    r: Option<bool>,
) -> bool {
    match r {
        Some(over) => exists|rounds: int|
            0 <= rounds < steps_max && #[trigger] slept_rounds(
                calls,
                rounds,
                deadline,
                watch_deadline,
            ) && wait_ended(calls, rounds, deadline, watch_deadline, over),
        None => calls.len() == 3 * steps_max && slept_rounds(
            calls,
            steps_max as int,
            deadline,
            watch_deadline,
        ),
    }
}

/// A wait that ended because it was over: the next attempt is due.
pub open spec fn wait_ready(
    calls: Seq<RuntimeCall>,
    deadline: Duration,
    watch_deadline: Option<Duration>,
    steps_max: u64,
) -> bool {
    waited(calls, deadline, watch_deadline, steps_max, Some(false))
}

/// A wait in which the run was over.
pub open spec fn wait_over(
    calls: Seq<RuntimeCall>,
    deadline: Duration,
    watch_deadline: Option<Duration>,
    steps_max: u64,
) -> bool {
    waited(calls, deadline, watch_deadline, steps_max, Some(true))
}

/// A wait that was given up.
pub open spec fn wait_given_up(
    calls: Seq<RuntimeCall>,
    deadline: Duration,
    watch_deadline: Option<Duration>,
    steps_max: u64,
) -> bool {
    waited(calls, deadline, watch_deadline, steps_max, None)
}

proof fn lemma_rounds_stay(
    calls: Seq<RuntimeCall>,
    more: Seq<RuntimeCall>,
    rounds: int,
    deadline: Duration,
    watch_deadline: Option<Duration>,
)
    requires
        slept_rounds(calls, rounds, deadline, watch_deadline),
    ensures
        slept_rounds(calls + more, rounds, deadline, watch_deadline),
{
    assert forall|i: int| 0 <= i < rounds implies #[trigger] slept_round(
        calls + more,
        i,
        deadline,
        watch_deadline,
    ) by {
        assert(slept_round(calls, i, deadline, watch_deadline));
    }
}

/// Wait until a deadline; true where the run is over instead. The wait gives up
/// after `steps_max` sleeps.
pub fn wait_until<R: WatchRuntime>(
    runtime: &mut R,
    deadline: Duration,
    watch_deadline: Option<Duration>,
    steps_max: u64,
) -> (r: Option<bool>)
    ensures
        exists|calls: Seq<RuntimeCall>|
            final(runtime).calls() == old(runtime).calls() + calls && #[trigger] waited(
                calls,
                deadline,
                watch_deadline,
                steps_max,
                r,
            ),
{
    let ghost before = runtime.calls();
    let ghost mut calls: Seq<RuntimeCall> = Seq::empty();
    assert(before + calls =~= before);
    let mut steps: u64 = 0;
    while steps < steps_max
        invariant
            before == old(runtime).calls(),
            steps <= steps_max,
            runtime.calls() == before + calls,
            calls.len() == 3 * steps,
            slept_rounds(calls, steps as int, deadline, watch_deadline),
        decreases steps_max - steps,
    {
        let ghost rounds = steps as int;
        if runtime.cancelled() {
            proof {
                let look = seq![RuntimeCall::Cancelled(true)];
                lemma_rounds_stay(calls, look, rounds, deadline, watch_deadline);
                assert(runtime.calls() =~= before + (calls + look));
                assert(wait_ended(calls + look, rounds, deadline, watch_deadline, true));
                assert(waited(calls + look, deadline, watch_deadline, steps_max, Some(true)));
            }
            return Some(true);
        }
        let now = runtime.monotonic_now();
        let ghost look = seq![RuntimeCall::Cancelled(false), RuntimeCall::Monotonic(now)];
        proof {
            lemma_rounds_stay(calls, look, rounds, deadline, watch_deadline);
            assert(runtime.calls() =~= before + (calls + look));
        }
        match wait_step(now, deadline, watch_deadline) {
            WaitStep::Stop => {
                assert(wait_ended(calls + look, rounds, deadline, watch_deadline, true));
                assert(waited(calls + look, deadline, watch_deadline, steps_max, Some(true)));
                return Some(true);
            },
            WaitStep::Ready => {
                assert(wait_ended(calls + look, rounds, deadline, watch_deadline, false));
                assert(waited(calls + look, deadline, watch_deadline, steps_max, Some(false)));
                return Some(false);
            },
            WaitStep::Sleep(span) => {
                runtime.sleep(span);
                proof {
                    let round = look.push(RuntimeCall::Slept(span));
                    lemma_rounds_stay(calls, round, rounds, deadline, watch_deadline);
                    assert(runtime.calls() =~= before + (calls + round));
                    assert(slept_round(calls + round, rounds, deadline, watch_deadline));
                    calls = calls + round;
                }
            },
        }
        steps = steps + 1;
    }
    assert(waited(calls, deadline, watch_deadline, steps_max, None));
    None
}

} // verus!
