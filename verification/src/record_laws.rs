//! What is written of an event or a gap, for people and for programs.

use vstd::prelude::*;
use vstd::string::*;
use crate::collector::{clock_error_of, collector_code, observation_code, CollectorError};
use crate::config::{displayed_label, resolved_label, Config};
use crate::evidence::OwnerCompleteness;
use crate::exit::ExitReason;
use crate::model::{endpoint_text, socket_state_text, BindScope, Protocol};
use crate::observation::{
    owner_pid_of, NetworkSnapshot, ObservationError, OwnerObservation, SnapshotCompleteness,
};
use crate::query::FilterTerm;
use crate::sink::{problem_line, IoError, IoErrorKind};
use crate::text::{decimal, sanitized};
use crate::time::{unix_millis_of, SystemTime};
use crate::watch_event::{Certainty, EventKind, WatchEvent};
use crate::watch_filter::FilterResult;
use crate::watch_gaps::IndexedSides;
use crate::watch_output::{
    flush_reason, output_failure_text, output_lines, output_reason, times_of, ObservationTimes,
    OutputError, PublicOutputError,
};
use crate::watch_record::{
    bounded_message, evidence_fits, event_line, framed, gap_line, joined_pids, owner_column,
    times_column, EndpointEventData, EvidenceItem, GapData, OwnerSet, Serialized, WatchRecord,
};

verus! {

/// A character in capitals, as far as it is a small letter of ASCII.
pub open spec fn capital(ch: char) -> char {
    if 'a' <= ch <= 'z' {
        ((ch as u32 - 32) as u32) as char
    } else {
        ch
    }
}

/// The heading of an event is its public name in capitals, character for character.
pub proof fn law_heading_is_the_name_in_capitals(kind: EventKind)
    ensures
        kind.heading_text().len() == kind.name_text().len(),
        forall|i: int|
            0 <= i < kind.name_text().len() ==> #[trigger] kind.heading_text()[i] == capital(
                kind.name_text()[i],
            ),
        forall|i: int|
            0 <= i < kind.name_text().len() ==> 'a' <= #[trigger] kind.name_text()[i] <= 'z',
{
    reveal_strlit("baseline");
    reveal_strlit("bind");
    reveal_strlit("release");
    reveal_strlit("replacement");
    reveal_strlit("BASELINE");
    reveal_strlit("BIND");
    reveal_strlit("RELEASE");
    reveal_strlit("REPLACEMENT");
}

/// What comes into being is told as a bind and what goes as a release: events that show a
/// socket for the first time, that show it gone and that show it under another owner never
/// go by each other's name.
pub proof fn law_kinds_are_told_apart(a: EventKind, b: EventKind)
    requires
        a != b,
    ensures
        a.name_text() != b.name_text(),
        a.heading_text() != b.heading_text(),
        EventKind::Bind.name_text() == seq!['b', 'i', 'n', 'd'],
        EventKind::Release.name_text() == seq!['r', 'e', 'l', 'e', 'a', 's', 'e'],
        EventKind::Baseline.name_text().len() == 8 && EventKind::Baseline.name_text()[1] == 'a',
        EventKind::Replacement.name_text().len() == 11 && EventKind::Replacement.name_text()[2]
            == 'p',
{
    reveal_strlit("baseline");
    reveal_strlit("bind");
    reveal_strlit("release");
    reveal_strlit("replacement");
    law_heading_is_the_name_in_capitals(a);
    law_heading_is_the_name_in_capitals(b);
    assert("bind"@ =~= seq!['b', 'i', 'n', 'd']);
    assert("release"@ =~= seq!['r', 'e', 'l', 'e', 'a', 's', 'e']);
    assert("baseline"@.len() == 8);
    assert("replacement"@.len() == 11);
}

/// A line about an event begins with the name of its kind in capitals, then its protocol and
/// its endpoint; so lines about different kinds of events differ in their first word.
pub proof fn law_event_lines_begin_with_the_kind(
    times: ObservationTimes,
    event: WatchEvent,
    filter_result: FilterResult,
    config: Config,
)
    ensures
        ({
            let line = event_line(times, event, filter_result, config);
            let name = event.kind.name_text();
            let endpoint = event.socket().local_endpoint;
            &&& line.len() > name.len()
            &&& forall|i: int| 0 <= i < name.len() ==> #[trigger] line[i] == capital(name[i])
            &&& line[name.len() as int] == ' '
            &&& (event.kind.heading_text() + " "@ + endpoint.protocol.label_text() + " "@
                + endpoint_text(endpoint.address, endpoint.port, endpoint.ipv6_scope)
                + " "@).is_prefix_of(line)
            &&& line.last() == '\n'
        }),
{
    law_heading_is_the_name_in_capitals(event.kind);
    reveal_strlit(" ");
    reveal_strlit("\n");
    let line = event_line(times, event, filter_result, config);
    let endpoint = event.socket().local_endpoint;
    let heading = event.kind.heading_text();
    let head = heading + " "@ + endpoint.protocol.label_text() + " "@ + endpoint_text(
        endpoint.address,
        endpoint.port,
        endpoint.ipv6_scope,
    ) + " "@;
    assert(line.len() > head.len() && head =~= line.take(head.len() as int));
    assert forall|i: int| 0 <= i < heading.len() implies #[trigger] line[i] == heading[i] by {
        assert(head[i] == heading[i]);
    }
    assert(head[heading.len() as int] == ' ');
}

/// What stands behind the endpoint of a line: the state, the owners, the label if there is
/// one, what the filter said, how sure it is, and when it was observed.
pub proof fn law_columns_of_an_event_line(
    times: ObservationTimes,
    event: WatchEvent,
    filter_result: FilterResult,
    config: Config,
)
    ensures
        ({
            let socket = event.socket();
            let endpoint = socket.local_endpoint;
            let head = event.kind.heading_text() + " "@ + endpoint.protocol.label_text() + " "@
                + endpoint_text(endpoint.address, endpoint.port, endpoint.ipv6_scope) + " "@;
            let label = resolved_label(config.labels.labels@, endpoint);
            event_line(times, event, filter_result, config) == head + (socket_state_text(
                socket.state,
            ) + " owners="@ + owner_column(socket.owners@) + (if label is Some {
                " label="@ + displayed_label(label->0)
            } else {
                Seq::empty()
            }) + " filter="@ + filter_result.name_text() + " certainty="@
                + event.certainty.name_text() + times_column(times))
        }),
{
    let socket = event.socket();
    let endpoint = socket.local_endpoint;
    let head = event.kind.heading_text() + " "@ + endpoint.protocol.label_text() + " "@
        + endpoint_text(endpoint.address, endpoint.port, endpoint.ipv6_scope) + " "@;
    let label = resolved_label(config.labels.labels@, endpoint);
    let rest = socket_state_text(socket.state) + " owners="@ + owner_column(socket.owners@) + (
    if label is Some {
        " label="@ + displayed_label(label->0)
    } else {
        Seq::empty()
    }) + " filter="@ + filter_result.name_text() + " certainty="@ + event.certainty.name_text()
        + times_column(times);
    assert(event_line(times, event, filter_result, config) =~= head + rest);
}

/// The times of a line are the start and the end of its attempt, in this order, and the end
/// of the one before it, or a dash.
pub proof fn law_times_of_a_line(times: ObservationTimes)
    ensures
        (" observed="@ + decimal(times.attempt_started_unix_ms as nat) + ".."@ + decimal(
            times.attempt_completed_unix_ms as nat,
        ) + " previous_completed="@).is_prefix_of(times_column(times)),
        times.previous_completed_unix_ms is None ==> times_column(times) == " observed="@ + decimal(
            times.attempt_started_unix_ms as nat,
        ) + ".."@ + decimal(times.attempt_completed_unix_ms as nat) + " previous_completed="@
            + "-"@ + "\n"@,
        times.previous_completed_unix_ms matches Some(millis) ==> times_column(times)
            == " observed="@ + decimal(times.attempt_started_unix_ms as nat) + ".."@ + decimal(
            times.attempt_completed_unix_ms as nat,
        ) + " previous_completed="@ + decimal(millis as nat) + "\n"@,
{
    let head = " observed="@ + decimal(times.attempt_started_unix_ms as nat) + ".."@ + decimal(
        times.attempt_completed_unix_ms as nat,
    ) + " previous_completed="@;
    let text = times_column(times);
    assert(text.len() >= head.len() && head =~= text.take(head.len() as int));
}

/// Owners are shown by their PIDs with commas between them: a dash where there is none, and
/// from the sixty-fifth on only how many more there are.
pub proof fn law_owner_column(owners: Seq<OwnerObservation>, owner: OwnerObservation)
    ensures
        owners.len() == 0 ==> owner_column(owners) == seq!['-'],
        owners.len() == 0 ==> owner_column(owners.push(owner)) == decimal(
            owner_pid_of(owner) as nat,
        ),
        0 < owners.len() < 64 ==> owner_column(owners.push(owner)) == owner_column(owners)
            + seq![','] + decimal(owner_pid_of(owner) as nat),
        owners.len() == 64 ==> owner_column(owners.push(owner)) == owner_column(owners) + ",+"@
            + decimal(1),
        owners.len() > 64 ==> owner_column(owners) == owner_column(owners.take(64)) + ",+"@
            + decimal((owners.len() - 64) as nat),
{
    let more = owners.push(owner);
    assert(more.drop_last() =~= owners);
    assert(more.last() == owner);
    if owners.len() == 0 {
        assert(more[0] == owner);
    } else if owners.len() < 64 {
        assert(joined_pids(more) =~= joined_pids(owners) + seq![','] + decimal(
            owner_pid_of(owner) as nat,
        ));
    } else if owners.len() == 64 {
        assert(more.take(64) =~= owners);
    }
    if owners.len() > 64 {
        assert(owners.take(64).len() == 64);
    }
}

/// A record shows the first sixty-four owners of a side and counts the others.
pub proof fn law_recorded_owners(
    set: OwnerSet,
    owners: Seq<OwnerObservation>,
    completeness: OwnerCompleteness,
)
    requires
        set.shows(owners, completeness),
    ensures
        set.owners.len() <= 64,
        set.omitted_owner_count == (if owners.len() > 64 {
            owners.len() - 64
        } else {
            0
        }),
        forall|i: int|
            0 <= i < set.owners.len() ==> i < owners.len() && #[trigger] set.owners@[i]
                == owners[i],
        completeness is Complete <==> set.completeness@ == "complete"@,
        completeness is Raced <==> set.completeness@ == "raced"@,
        completeness is Partial <==> set.completeness@ == "partial"@,
        !(completeness is Partial) ==> set.reasons.len() == 0,
{
    reveal_strlit("complete");
    reveal_strlit("raced");
    reveal_strlit("partial");
    assert("complete"@.len() == 8 && "raced"@.len() == 5 && "partial"@.len() == 7);
}

/// Only a replacement carries evidence: that the process changed, and that this is proven.
pub proof fn law_evidence_of_events(evidence: Seq<EvidenceItem>, kind: EventKind)
    requires
        evidence_fits(evidence, kind),
    ensures
        evidence.len() == 1 <==> kind == EventKind::Replacement,
        kind != EventKind::Replacement ==> evidence.len() == 0,
        kind == EventKind::Replacement ==> evidence[0].code@ == "process_identity_changed"@
            && evidence[0].certainty@ == Certainty::Proven.name_text() && evidence[0].source@
            == "analysis"@,
{
}

/// How sure an event is goes by four different names.
pub proof fn law_certainties_are_told_apart(a: Certainty, b: Certainty)
    requires
        a != b,
    ensures
        a.name_text() != b.name_text(),
        Certainty::Proven.name_text() == "proven"@,
        Certainty::Estimated.name_text() == "estimated"@,
        Certainty::Heuristic.name_text()[0] == 'h',
        Certainty::Unknown.name_text() == "unknown"@,
{
    reveal_strlit("proven");
    reveal_strlit("estimated");
    reveal_strlit("heuristic");
    reveal_strlit("unknown");
    assert("proven"@[0] == 'p' && "estimated"@[0] == 'e' && "heuristic"@[0] == 'h'
        && "unknown"@[0] == 'u');
}

/// A record is one line of at most sixty-four kibibytes: what was serialized, and a line
/// break behind it. What does not fit is refused whole.
pub proof fn law_record_is_one_bounded_line(serialized: Serialized)
    ensures
        framed(serialized) is Ok <==> serialized.result is Ok && serialized.record.bytes.len()
            < 65_536,
        framed(serialized) matches Ok(line) ==> line.len() <= 65_536 && line.last() == 10u8
            && line.drop_last() == serialized.record.bytes@,
        serialized.result is Ok && serialized.record.bytes.len() >= 65_536 ==> framed(serialized)
            == Err::<Seq<u8>, OutputError>(OutputError::EventLimit),
        serialized.result is Err && serialized.record.limit_exceeded ==> framed(serialized)
            == Err::<Seq<u8>, OutputError>(OutputError::EventLimit),
        serialized.result is Err && !serialized.record.limit_exceeded ==> framed(serialized)->Err_0
            != OutputError::EventLimit,
{
    if framed(serialized) is Ok {
        assert(framed(serialized)->Ok_0.drop_last() =~= serialized.record.bytes@);
    }
}

/// Every record names its schema and version, and the number, kind and times it was given.
pub proof fn law_records_are_headed(
    record: WatchRecord,
    sequence: u64,
    event: Seq<char>,
    times: ObservationTimes,
)
    requires
        record.headed(sequence, event, times),
    ensures
        record.schema@ == "kickoutchi.watch_event"@,
        record.version == 1,
        record.sequence == sequence,
        record.event@ == event,
        record.observation.attempt_started_unix_ms == times.attempt_started_unix_ms,
        record.observation.attempt_completed_unix_ms == times.attempt_completed_unix_ms,
        record.observation.previous_completed_unix_ms == times.previous_completed_unix_ms,
{
}

/// The record of an event is about its socket: the endpoint and state of the current side
/// where there is one, the owners of each side that it has, and the filter's word. Gaps are
/// told only of an event whose filter stayed open.
pub proof fn law_event_records_are_about_their_socket<'a>(
    data: EndpointEventData<'a>,
    event: WatchEvent<'a>,
    indexed: IndexedSides,
    filter_result: FilterResult,
    terms: Seq<FilterTerm>,
    config: Config,
)
    requires
        data.tells_of(event, indexed, filter_result, terms, config),
    ensures
        event.current_socket matches Some(socket) ==> data.endpoint == socket.local_endpoint
            && data.state == socket.state,
        event.current_socket is None && event.previous_socket is Some ==> data.endpoint
            == event.previous_socket->0.local_endpoint && data.state
            == event.previous_socket->0.state,
        data.previous_owners is Some <==> event.previous_socket is Some,
        data.current_owners is Some <==> event.current_socket is Some,
        event.previous_socket matches Some(socket) ==> data.previous_socket_token
            == socket.socket_token,
        event.current_socket matches Some(socket) ==> data.current_socket_token
            == socket.socket_token,
        data.multiplicity == event.multiplicity,
        data.filter_result@ == filter_result.name_text(),
        data.certainty@ == event.certainty.name_text(),
        filter_result != FilterResult::Indeterminate ==> data.evidence_gaps.len() == 0
            && data.omitted_evidence_gap_count == 0,
{
}

/// A message in a report is safe for a terminal, a start of the whole, and at most five
/// hundred and twelve characters long.
pub proof fn law_messages_are_bounded(text: Seq<char>)
    ensures
        bounded_message(text).len() <= 512,
        bounded_message(text).is_prefix_of(sanitized(text)),
        sanitized(text).len() <= 512 ==> bounded_message(text) == sanitized(text),
{
    if sanitized(text).len() > 512 {
        assert(bounded_message(text).is_prefix_of(sanitized(text)));
    }
}

/// What is made safe for a terminal holds no control character, keeps every other character
/// in order, and turns line breaks and tabs into spaces. Making it safe again changes
/// nothing.
pub proof fn law_sanitized_text(text: Seq<char>, ch: char)
    ensures
        forall|i: int|
            0 <= i < sanitized(text).len() ==> (#[trigger] sanitized(text)[i]) as u32 >= 32 && !(127
                <= sanitized(text)[i] as u32 && (sanitized(text)[i] as u32) < 160),
        ch as u32 >= 32 && !(127 <= ch as u32 && (ch as u32) < 160) ==> sanitized(text.push(ch))
            == sanitized(text).push(ch),
        ch == '\n' || ch == '\r' || ch == '\t' ==> sanitized(text.push(ch)) == sanitized(text).push(
            ' ',
        ),
        (ch as u32) < 32 && ch != '\n' && ch != '\r' && ch != '\t' ==> sanitized(text.push(ch))
            == sanitized(text),
        127 <= ch as u32 && (ch as u32) < 160 ==> sanitized(text.push(ch)) == sanitized(text),
        sanitized(Seq::empty()) == Seq::<char>::empty(),
        sanitized(sanitized(text)) == sanitized(text),
    decreases text.len(),
{
    assert(text.push(ch).drop_last() =~= text);
    if text.len() > 0 {
        let head = text.drop_last();
        law_sanitized_text(head, text.last());
        assert(head.push(text.last()) =~= text);
        if sanitized(text).len() > sanitized(head).len() {
            let safe = sanitized(text);
            assert(safe.drop_last() =~= sanitized(head));
        }
    }
}

/// A report of a gap tells how many attempts failed in a row and what of: an error by its
/// code and message, a snapshot that raced or is partial by that. It shows up to eight gaps
/// of such a snapshot and counts the others.
pub proof fn law_gap_reports(
    gap: GapData,
    result: Result<NetworkSnapshot, CollectorError>,
    failures: u8,
)
    requires
        gap.reports(result, failures),
    ensures
        gap.consecutive_failures == failures,
        gap.certainty@ == Certainty::Unknown.name_text(),
        gap.evidence_gaps.len() <= 8,
        result matches Err(error) ==> gap.error_code@ == collector_code(error)
            && gap.error_message@ == bounded_message(error.text()) && gap.completeness is None
            && gap.evidence_gaps.len() == 0 && gap.omitted_evidence_gap_count == 0,
        result matches Ok(snapshot) ==> gap.completeness is Some && (gap.completeness->0@
            == "raced"@ <==> snapshot.completeness == SnapshotCompleteness::Raced) && (
        gap.error_code@ == "observation_raced"@ <==> snapshot.completeness
            == SnapshotCompleteness::Raced),
        result matches Ok(snapshot) ==> snapshot.evidence_gaps.len() <= 8
            ==> gap.evidence_gaps.len() == snapshot.evidence_gaps.len()
            && gap.omitted_evidence_gap_count == snapshot.omitted_evidence_gap_count,
{
    reveal_strlit("raced");
    reveal_strlit("partial");
    reveal_strlit("observation_raced");
    reveal_strlit("partial_socket_set");
    assert("raced"@.len() == 5 && "partial"@.len() == 7);
    assert("observation_raced"@.len() == 17 && "partial_socket_set"@.len() == 18);
}

/// A line about a gap is told from every line about an event by its first word, and tells
/// how often it failed.
pub proof fn law_gap_lines(times: ObservationTimes, message: Seq<char>, failures: u8)
    ensures
        gap_line(times, message, failures) == "COLLECTION_GAP "@ + sanitized(message)
            + " failures="@ + decimal(failures as nat) + " certainty=unknown"@ + times_column(
            times,
        ),
        gap_line(times, message, failures)[0] == 'C',
        EventKind::Baseline.heading_text()[0] != 'C' && EventKind::Bind.heading_text()[0] != 'C'
            && EventKind::Release.heading_text()[0] != 'C'
            && EventKind::Replacement.heading_text()[0] != 'C',
{
    reveal_strlit("COLLECTION_GAP ");
    reveal_strlit("BASELINE");
    reveal_strlit("BIND");
    reveal_strlit("RELEASE");
    reveal_strlit("REPLACEMENT");
}

/// A reading of the wall clock is told in whole milliseconds since the epoch, rounded down,
/// and not at all where it lies before it or does not fit.
pub proof fn law_readings_are_rounded_down(time: SystemTime)
    ensures
        unix_millis_of(time) matches Some(millis) ==> millis * 1_000_000 <= time.nanos < (millis
            + 1) * 1_000_000,
        unix_millis_of(time) is Some <==> 0 <= time.nanos && time.nanos < 0x1_0000_0000_0000_0000
            * 1_000_000,
{
}

/// The times of an attempt are all told or none, each of its own reading.
pub proof fn law_times_are_told_together(
    previous: Option<SystemTime>,
    started: SystemTime,
    completed: SystemTime,
)
    ensures
        times_of(previous, started, completed) matches Some(times) ==> {
            &&& unix_millis_of(started) == Some(times.attempt_started_unix_ms)
            &&& unix_millis_of(completed) == Some(times.attempt_completed_unix_ms)
            &&& previous is None ==> times.previous_completed_unix_ms is None
            &&& previous matches Some(time) ==> times.previous_completed_unix_ms is Some
                && unix_millis_of(time) == times.previous_completed_unix_ms
            &&& started.nanos <= completed.nanos ==> times.attempt_started_unix_ms
                <= times.attempt_completed_unix_ms
        },
        times_of(previous, started, completed) is None <==> unix_millis_of(started) is None
            || unix_millis_of(completed) is None || (previous is Some && unix_millis_of(
            previous->0,
        ) is None),
{
}

/// A closed pipe ends a run without a word and as a success; every other failure of the
/// output is told in one line and is a failure.
pub proof fn law_output_failures(error: OutputError, io: IoError)
    ensures
        output_failure_text(error) is None <==> error is BrokenPipe,
        output_reason(error) == ExitReason::Success <==> error is BrokenPipe,
        output_reason(error) == ExitReason::Failure <==> !(error is BrokenPipe),
        output_lines(error).len() == 0 <==> error is BrokenPipe,
        output_lines(error).len() <= 1,
        OutputError::of_io(io) is BrokenPipe <==> io.kind == IoErrorKind::BrokenPipe,
        io.kind != IoErrorKind::BrokenPipe ==> OutputError::of_io(io) == OutputError::Io(io),
        OutputError::of_public(PublicOutputError::Io(io)) is BrokenPipe <==> io.kind
            == IoErrorKind::BrokenPipe,
        !(OutputError::of_public(PublicOutputError::ClockUnavailable) is BrokenPipe),
        !(OutputError::of_io(io) is EventLimit),
{
}

/// What the failures of an output say.
pub proof fn law_output_failures_are_told(io: IoError, detail: String)
    ensures
        output_failure_text(OutputError::Io(io)) == Some(
            "writing watch output failed: "@ + io.message@,
        ),
        output_failure_text(OutputError::Public(PublicOutputError::Io(io))) == output_failure_text(
            OutputError::Io(io),
        ),
        output_failure_text(OutputError::Public(PublicOutputError::Serialization(detail))) == Some(
            "serializing watch event failed: "@ + detail@,
        ),
        output_failure_text(OutputError::EventLimit) == Some(
            "watch event exceeded its 64 KiB record limit"@,
        ),
        output_failure_text(OutputError::Public(PublicOutputError::ClockUnavailable)) == Some(
            "preparing watch event failed: wall clock is unavailable"@,
        ),
{
}

/// A run whose last flush works ends as it was to end; one whose last flush fails ends by
/// that failure.
pub proof fn law_last_flush(flushed: Result<(), IoError>, reason: ExitReason)
    ensures
        flushed is Ok ==> flush_reason(flushed, reason) == reason,
        flushed is Err ==> flush_reason(flushed, reason) == if flushed->Err_0.kind
            == IoErrorKind::BrokenPipe {
            ExitReason::Success
        } else {
            ExitReason::Failure
        },
{
}

/// A problem is told behind the word for it.
pub proof fn law_problems_are_errors(message: Seq<char>)
    ensures
        problem_line(message) == "error: "@ + sanitized(message),
{
}

/// The small label of a protocol is its label in small letters, and the two protocols have
/// different ones.
pub proof fn law_protocol_labels(protocol: Protocol)
    ensures
        protocol.label_text().len() == 3 && protocol.lower_label_text().len() == 3,
        forall|i: int|
            0 <= i < 3 ==> #[trigger] protocol.label_text()[i] == capital(
                protocol.lower_label_text()[i],
            ),
        Protocol::Tcp.lower_label_text()[0] == 't',
        Protocol::Udp.lower_label_text()[0] == 'u',
        protocol.lower_label_text()[1] == (if protocol == Protocol::Tcp {
            'c'
        } else {
            'd'
        }),
        protocol.lower_label_text()[2] == 'p',
{
    reveal_strlit("TCP");
    reveal_strlit("UDP");
    reveal_strlit("tcp");
    reveal_strlit("udp");
}

/// Every reach goes by its own name.
pub proof fn law_reach_labels(scope: BindScope)
    ensures
        scope.label_text()[0] == 'p' <==> scope == BindScope::Public,
        scope.label_text().len() == 8 <==> scope == BindScope::Loopback,
        scope.label_text() == "local"@ <==> scope == BindScope::Local,
        BindScope::Public.label_text() == "public"@,
        BindScope::Loopback.label_text() == "loopback"@,
{
    reveal_strlit("public");
    reveal_strlit("loopback");
    reveal_strlit("local");
    assert("public"@.len() == 6 && "loopback"@.len() == 8 && "local"@.len() == 5);
    assert("public"@[0] == 'p' && "loopback"@[0] == 'l' && "local"@[0] == 'l');
}

/// An endpoint is told by its address and port, an IPv6 address in brackets with its
/// interface, if that is known.
pub proof fn law_endpoint_texts(
    bits: u32,
    wide: u128,
    port: u16,
    index: u32,
    scope: Option<crate::model::Ipv6Scope>,
)
    ensures
        endpoint_text(crate::address::IpAddr::V4(bits), port, scope) == crate::address::ip_text(
            crate::address::IpAddr::V4(bits),
        ) + ":"@ + decimal(port as nat),
        endpoint_text(crate::address::IpAddr::V6(wide), port, None) == "["@
            + crate::address::ip_text(crate::address::IpAddr::V6(wide)) + "]:"@ + decimal(
            port as nat,
        ),
        endpoint_text(
            crate::address::IpAddr::V6(wide),
            port,
            Some(crate::model::Ipv6Scope::Unavailable),
        ) == endpoint_text(crate::address::IpAddr::V6(wide), port, None),
        endpoint_text(
            crate::address::IpAddr::V6(wide),
            port,
            Some(crate::model::Ipv6Scope::InterfaceIndex(index)),
        ) == "["@ + crate::address::ip_text(crate::address::IpAddr::V6(wide)) + "%"@ + decimal(
            index as nat,
        ) + "]:"@ + decimal(port as nat),
{
    reveal_strlit(":");
    reveal_strlit("[");
    reveal_strlit("]:");
    reveal_strlit("%");
    assert(":"@ =~= seq![':']);
    assert("["@ =~= seq!['[']);
    assert("]:"@ =~= seq![']', ':']);
    assert("%"@ =~= seq!['%']);
    let text = crate::address::ip_text(crate::address::IpAddr::V6(wide));
    assert(seq!['['] + text + Seq::<char>::empty() =~= seq!['['] + text);
    assert(seq!['['] + text + (seq!['%'] + decimal(index as nat)) =~= seq!['['] + text + seq!['%']
        + decimal(index as nat));
}

/// A failed collection goes by the code of what failed: permission for a refusal of it, the
/// platform for the platform and for a worker that went away, and an observation by its own
/// code.
pub proof fn law_collection_codes(error: CollectorError)
    ensures
        error is OwnershipPermissionDenied ==> collector_code(error)
            == "socket_table_permission_denied"@,
        error matches CollectorError::Read { kind, .. } ==> collector_code(error) == if kind
            == IoErrorKind::PermissionDenied {
            "socket_table_permission_denied"@
        } else {
            "socket_table_unavailable"@
        },
        error is Platform || error is WorkerExited ==> collector_code(error)
            == "platform_api_failed"@,
        error matches CollectorError::Observation(inner) ==> collector_code(error)
            == observation_code(inner),
        observation_code(ObservationError::SocketTablePermissionDenied)
            == "socket_table_permission_denied"@,
        observation_code(ObservationError::SocketTableUnavailable) == "socket_table_unavailable"@,
        observation_code(ObservationError::ClockUnavailable) == observation_code(
            ObservationError::InvalidWallClockInterval,
        ),
        observation_code(ObservationError::ClockUnavailable) == "clock_unavailable"@,
        observation_code(ObservationError::ScopeIdentifierOversized) == observation_code(
            ObservationError::NativeDataOversized,
        ),
        observation_code(ObservationError::ScopeLimitationLimitExceeded) == observation_code(
            ObservationError::NativeDataOversized,
        ),
        observation_code(ObservationError::NativeDataOversized) == "native_data_oversized"@,
        observation_code(ObservationError::NativeDataMalformed) == "native_data_malformed"@,
        observation_code(ObservationError::ObservationRaced) == "observation_raced"@,
        observation_code(ObservationError::PartialSocketSet) == "partial_socket_set"@,
        observation_code(ObservationError::SocketObservationLimitExceeded)
            == "socket_observation_limit_exceeded"@,
        observation_code(ObservationError::ProcessIdentityLimitExceeded)
            == "process_identity_limit_exceeded"@,
        observation_code(ObservationError::OwnerAttributionLimitExceeded)
            == "owner_attribution_limit_exceeded"@,
        observation_code(ObservationError::LegacyProjectionLimitExceeded)
            == "legacy_projection_limit_exceeded"@,
        observation_code(ObservationError::OwnerReasonLimitExceeded)
            == "owner_reason_limit_exceeded"@,
{
}

/// A clock that failed is told from every other failure.
pub proof fn law_clock_failures(result: Result<NetworkSnapshot, CollectorError>)
    ensures
        clock_error_of(result) is Some <==> result is Err && result->Err_0 is Observation && (
        result->Err_0->Observation_0 is ClockUnavailable || result->Err_0->Observation_0
            is InvalidWallClockInterval),
        clock_error_of(result) matches Some(error) ==> result->Err_0->Observation_0 == error,
{
}

} // verus!
