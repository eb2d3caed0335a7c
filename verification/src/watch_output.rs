//! What a watch run writes: event lines, records, gap reports and failures.

use vstd::prelude::*;
use vstd::string::*;
use vstd::utf8::encode_utf8;
use crate::exit::ExitReason;
use crate::observation::ObservationError;
use crate::sink::{
    accepted_part, diagnostic_line, lemma_said_nothing, problem_line, said, write_diagnostic, IoError,
    IoErrorKind, Sink,
};
use crate::time::{unix_milliseconds, unix_millis_of, SystemTime};

verus! {

/// The clock readings around one attempt, in milliseconds since the epoch.
#[derive(Debug, Clone, Copy, PartialEq, Eq, Structural)]
pub struct ObservationTimes {
    pub previous_completed_unix_ms: Option<u64>,
    pub attempt_started_unix_ms: u64,
    pub attempt_completed_unix_ms: u64,
}

/// Why a record could not be prepared.
#[derive(Debug, PartialEq, Eq)]
pub enum PublicOutputError {
    Io(IoError),
    Serialization(String),
    ClockUnavailable,
}

/// Why a record was not written.
#[derive(Debug, PartialEq, Eq)]
pub enum OutputError {
    BrokenPipe,
    Io(IoError),
    Public(PublicOutputError),
    EventLimit,
}

impl OutputError {
    pub open spec fn of_io(error: IoError) -> OutputError {
        if error.kind == IoErrorKind::BrokenPipe {
            OutputError::BrokenPipe
        } else {
            OutputError::Io(error)
        }
    }

    pub fn from_io(error: IoError) -> (r: OutputError)
        ensures
            r == Self::of_io(error),
    {
        if error.kind == IoErrorKind::BrokenPipe {
            OutputError::BrokenPipe
        } else {
            OutputError::Io(error)
        }
    }

    pub open spec fn of_public(error: PublicOutputError) -> OutputError {
        if error matches PublicOutputError::Io(io) && io.kind == IoErrorKind::BrokenPipe {
            OutputError::BrokenPipe
        } else {
            OutputError::Public(error)
        }
    }

    pub fn from_public(error: PublicOutputError) -> (r: OutputError)
        ensures
            r == Self::of_public(error),
    {
        let broken: bool = match &error {
            PublicOutputError::Io(io) => io.kind == IoErrorKind::BrokenPipe,
            _ => false,
        };
        if broken {
            OutputError::BrokenPipe
        } else {
            OutputError::Public(error)
        }
    }
}

/// The clock readings of an attempt, where all of them can be expressed.
pub open spec fn times_of(
    previous: Option<SystemTime>,
    started: SystemTime,
    completed: SystemTime,
) -> Option<ObservationTimes> {
    if (previous is Some ==> unix_millis_of(previous->0) is Some) && unix_millis_of(started) is Some
        && unix_millis_of(completed) is Some {
        Some(
            ObservationTimes {
                previous_completed_unix_ms: match previous {
                    Some(time) => unix_millis_of(time),
                    None => None,
                },
                attempt_started_unix_ms: unix_millis_of(started)->0,
                attempt_completed_unix_ms: unix_millis_of(completed)->0,
            },
        )
    } else {
        None
    }
}

pub fn observation_times(
    previous_completed_at: Option<SystemTime>,
    attempt_started_at: SystemTime,
    attempt_completed_at: SystemTime,
) -> (r: Result<ObservationTimes, OutputError>)
    ensures
        r == match times_of(previous_completed_at, attempt_started_at, attempt_completed_at) {
            Some(times) => Ok::<ObservationTimes, OutputError>(times),
            None => Err(OutputError::Public(PublicOutputError::ClockUnavailable)),
        },
{
    let previous: Option<u64> = match previous_completed_at {
        Some(time) => match unix_milliseconds(time) {
            Ok(millis) => Some(millis),
            Err(_) => {
                return Err(OutputError::Public(PublicOutputError::ClockUnavailable));
            },
        },
        None => None,
    };
    let started: u64 = match unix_milliseconds(attempt_started_at) {
        Ok(millis) => millis,
        Err(_) => {
            return Err(OutputError::Public(PublicOutputError::ClockUnavailable));
        },
    };
    let completed: u64 = match unix_milliseconds(attempt_completed_at) {
        Ok(millis) => millis,
        Err(_) => {
            return Err(OutputError::Public(PublicOutputError::ClockUnavailable));
        },
    };
    Ok(
        ObservationTimes {
            previous_completed_unix_ms: previous,
            attempt_started_unix_ms: started,
            attempt_completed_unix_ms: completed,
        },
    )
}

/// The sentence for an output failure; a closed pipe has none.
pub open spec fn output_failure_text(error: OutputError) -> Option<Seq<char>> {
    match error {
        OutputError::BrokenPipe => None,
        OutputError::Io(io) => Some("writing watch output failed: "@ + io.message@),
        OutputError::Public(PublicOutputError::Io(io)) => Some(
            "writing watch output failed: "@ + io.message@,
        ),
        OutputError::Public(PublicOutputError::Serialization(detail)) => Some(
            "serializing watch event failed: "@ + detail@,
        ),
        OutputError::Public(PublicOutputError::ClockUnavailable) => Some(
            "preparing watch event failed: wall clock is unavailable"@,
        ),
        OutputError::EventLimit => Some("watch event exceeded its 64 KiB record limit"@),
    }
}

/// How a run ends that an output failure ends: a closed pipe ends it without complaint.
pub open spec fn output_reason(error: OutputError) -> ExitReason {
    if output_failure_text(error) is Some {
        ExitReason::Failure
    } else {
        ExitReason::Success
    }
}

/// What is reported of an output failure.
pub open spec fn output_lines(error: OutputError) -> Seq<Seq<char>> {
    match output_failure_text(error) {
        Some(text) => seq![problem_line(text)],
        None => Seq::empty(),
    }
}

/// Report an output failure. A closed pipe ends the run without complaint.
pub fn output_failure<D: Sink>(diagnostics: &mut D, error: &OutputError) -> (r: ExitReason)
    ensures
        r == output_reason(*error),
        said(*old(diagnostics), *final(diagnostics), output_lines(*error)),
        match output_failure_text(*error) {
            None => *final(diagnostics) == *old(diagnostics),
            Some(text) => accepted_part(
                old(diagnostics).written(),
                final(diagnostics).written(),
                encode_utf8(diagnostic_line(text)),
            ),
        },
{
    let message: String = match error {
        OutputError::BrokenPipe => {
            proof {
                lemma_said_nothing(*diagnostics);
            }
            return ExitReason::Success;
        },
        OutputError::Io(io) => "writing watch output failed: ".to_owned().concat(
            io.message.as_str(),
        ),
        OutputError::Public(public) => match public {
            PublicOutputError::Io(io) => "writing watch output failed: ".to_owned().concat(
                io.message.as_str(),
            ),
            PublicOutputError::Serialization(detail) => {
                "serializing watch event failed: ".to_owned().concat(detail.as_str())
            },
            PublicOutputError::ClockUnavailable => {
                "preparing watch event failed: wall clock is unavailable".to_owned()
            },
        },
        OutputError::EventLimit => "watch event exceeded its 64 KiB record limit".to_owned(),
    };
    write_diagnostic(diagnostics, message.as_str());
    ExitReason::Failure
}

/// What a failed write or flush of the output means.
pub fn io_failure<D: Sink>(diagnostics: &mut D, error: &IoError) -> (r: ExitReason)
    ensures
        r == output_reason(OutputError::of_io(*error)),
        said(*old(diagnostics), *final(diagnostics), output_lines(OutputError::of_io(*error))),
        error.kind == IoErrorKind::BrokenPipe ==> r == ExitReason::Success && *final(diagnostics)
            == *old(diagnostics),
        error.kind != IoErrorKind::BrokenPipe ==> r == ExitReason::Failure && accepted_part(
            old(diagnostics).written(),
            final(diagnostics).written(),
            encode_utf8(diagnostic_line("writing watch output failed: "@ + error.message@)),
        ),
{
    if error.kind == IoErrorKind::BrokenPipe {
        proof {
            lemma_said_nothing(*diagnostics);
        }
        ExitReason::Success
    } else {
        let message = "writing watch output failed: ".to_owned().concat(error.message.as_str());
        write_diagnostic(diagnostics, message.as_str());
        ExitReason::Failure
    }
}

/// How a run ends whose last flush came to this, where it was to end with `reason`.
pub open spec fn flush_reason(flushed: Result<(), IoError>, reason: ExitReason) -> ExitReason {
    match flushed {
        Ok(()) => reason,
        Err(error) => output_reason(OutputError::of_io(error)),
    }
}

/// What is reported of a run's last flush.
pub open spec fn flush_lines(flushed: Result<(), IoError>) -> Seq<Seq<char>> {
    match flushed {
        Ok(()) => Seq::empty(),
        Err(error) => output_lines(OutputError::of_io(error)),
    }
}

/// What a finished flush means for a run that was to end with `reason`.
pub fn exit_after_flush<D: Sink>(
    flushed: Result<(), IoError>,
    diagnostics: &mut D,
    reason: ExitReason,
) -> (r: ExitReason)
    ensures
        r == flush_reason(flushed, reason),
        said(*old(diagnostics), *final(diagnostics), flush_lines(flushed)),
        flushed is Ok ==> *final(diagnostics) == *old(diagnostics),
{
    match flushed {
        Ok(()) => {
            proof {
                lemma_said_nothing(*diagnostics);
            }
            reason
        },
        Err(error) => io_failure(diagnostics, &error),
    }
}

/// Flush the output once and end with `reason`, unless the flush fails; the flush is
/// the output's, and `exit_after_flush` says what becomes of it.
pub fn flush_exit<W: Sink, D: Sink>(
    output: &mut W,
    diagnostics: &mut D,
    reason: ExitReason,
) -> (r: ExitReason)
    ensures
        final(output).written() == old(output).written(),
        final(output).refused() == old(output).refused(),
        final(output).flushed().len() > 0,
        final(output).flushed().drop_last() == old(output).flushed(),
        r == flush_reason(final(output).flushed().last(), reason),
        said(*old(diagnostics), *final(diagnostics), flush_lines(final(output).flushed().last())),
        final(output).flushed().last() is Err ==> final(output).failed(),
        old(output).failed() ==> final(output).failed(),
{
    let flushed = output.flush();
    assert(output.flushed().drop_last() =~= old(output).flushed());
    exit_after_flush(flushed, diagnostics, reason)
}

/// The sentence that reports a failed wall clock.
pub open spec fn clock_failure_text(error: ObservationError) -> Seq<char> {
    "wall clock failed: "@ + error.text()
}

/// Report a failed wall clock.
pub fn clock_failure<D: Sink>(diagnostics: &mut D, error: &ObservationError) -> (r: ExitReason)
    ensures
        r == ExitReason::Failure,
        said(*old(diagnostics), *final(diagnostics), seq![problem_line(clock_failure_text(*error))]),
        accepted_part(
            old(diagnostics).written(),
            final(diagnostics).written(),
            encode_utf8(diagnostic_line(clock_failure_text(*error))),
        ),
{
    let message = "wall clock failed: ".to_owned().concat(error.message().as_str());
    write_diagnostic(diagnostics, message.as_str());
    ExitReason::Failure
}

/// A wall-clock interval does not run backwards.
pub fn validate_wall_interval(started: SystemTime, completed: SystemTime) -> (r: Result<
    (),
    ObservationError,
>)
    ensures
        r == if started.nanos <= completed.nanos {
            Ok::<(), ObservationError>(())
        } else {
            Err(ObservationError::InvalidWallClockInterval)
        },
{
    if started.nanos <= completed.nanos {
        Ok(())
    } else {
        Err(ObservationError::InvalidWallClockInterval)
    }
}

} // verus!
