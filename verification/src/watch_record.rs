//! The lines and records that a watch run writes.

use vstd::prelude::*;
use vstd::string::*;
use vstd::utf8::encode_utf8;
use crate::collector::{collector_code, collector_error_code, CollectorError};
use crate::config::{displayed_label, label_display_text, resolved_label, Config};
use crate::evidence::{
    ordered_codes, owner_reason_names, EndpointIdentity, OwnerCompleteness,
};
use crate::model::{
    endpoint_text, human_endpoint_text, socket_state_name, socket_state_text, SocketState,
};
use crate::observation::{
    owner_pid_of, EvidenceGap, NetworkSnapshot, OwnerObservation, PlatformSocketToken,
    SnapshotCompleteness, SocketObservation, SERIALIZED_OWNERS_MAX,
};
use crate::query::FilterTerm;
use crate::sink::{accepted_part, BoundedRecord, IoError, Sink, WATCH_RECORD_MAX_BYTES};
use crate::text::{decimal, decimal_text, opt_str_text, push_char, sanitize, sanitized};
use crate::watch_event::{EventKind, WatchEvent};
use crate::watch_filter::{owner_pid, FilterResult};
use crate::watch_gaps::{
    event_gap_count, event_gap_dtos, event_gaps, index_fits, saturated, sides_of, GapIndex,
    IndexedSides,
    WATCH_EVENT_GAPS_MAX,
};
use crate::watch_output::{ObservationTimes, OutputError, PublicOutputError};

verus! {

/// The most evidence items that one event writes out.
pub const WATCH_EVENT_EVIDENCE_MAX: usize = 8;

/// The longest failure message in a gap report, in characters.
pub const GAP_MESSAGE_MAX_CHARS: usize = 512;

/// What an output took and what it refused.
pub struct Intake {
    pub bytes: Seq<u8>,
    pub refused: Seq<IoError>,
}

/// What an output has taken and refused so far.
pub open spec fn intake<W: Sink>(output: W) -> Intake {
    Intake { bytes: output.written(), refused: output.refused() }
}

/// What a finished write of `bytes` means: all of them were accepted, or the output
/// refused them, once, and the error is told as what it is.
pub open spec fn emitted(
    before: Intake,
    after: Intake,
    bytes: Seq<u8>,
    r: Result<(), OutputError>,
) -> bool {
    match r {
        Ok(()) => after.bytes == before.bytes + bytes && after.refused == before.refused,
        Err(error) => {
            &&& accepted_part(before.bytes, after.bytes, bytes)
            &&& after.refused == before.refused.push(after.refused.last())
            &&& error == OutputError::of_io(after.refused.last())
        },
    }
}

/// Write bytes to the output.
pub fn emit<W: Sink>(writer: &mut W, bytes: &[u8]) -> (r: Result<(), OutputError>)
    ensures
        emitted(intake(*old(writer)), intake(*final(writer)), bytes@, r),
        r is Err ==> final(writer).failed(),
        final(writer).flushed() == old(writer).flushed(),
        old(writer).failed() ==> final(writer).failed(),
{
    match writer.write_all(bytes) {
        Ok(()) => Ok(()),
        Err(error) => Err(OutputError::from_io(error)),
    }
}

/// The PIDs of owners, with commas between them.
pub open spec fn joined_pids(owners: Seq<OwnerObservation>) -> Seq<char>
    decreases owners.len(),
{
    if owners.len() == 0 {
        Seq::empty()
    } else if owners.len() == 1 {
        decimal(owner_pid_of(owners[0]) as nat)
    } else {
        joined_pids(owners.drop_last()).push(',') + decimal(owner_pid_of(owners.last()) as nat)
    }
}

/// The owner column: the first PIDs, then how many more there are; a dash where
/// there is none.
pub open spec fn owner_column(owners: Seq<OwnerObservation>) -> Seq<char> {
    if owners.len() == 0 {
        seq!['-']
    } else if owners.len() <= SERIALIZED_OWNERS_MAX {
        joined_pids(owners)
    } else {
        joined_pids(owners.take(SERIALIZED_OWNERS_MAX as int)) + ",+"@ + decimal(
            (owners.len() - SERIALIZED_OWNERS_MAX) as nat,
        )
    }
}

fn owner_column_text(owners: &Vec<OwnerObservation>) -> (r: String)
    ensures
        r@ == owner_column(owners@),
{
    let mut text = String::new();
    if owners.len() == 0 {
        push_char(&mut text, '-');
        assert(text@ =~= seq!['-']);
        return text;
    }
    let shown: usize = if owners.len() <= SERIALIZED_OWNERS_MAX {
        owners.len()
    } else {
        SERIALIZED_OWNERS_MAX
    };
    let mut i: usize = 0;
    assert(owners@.take(0) =~= Seq::empty());
    while i < shown
        invariant
            i <= shown <= owners.len(),
            text@ == joined_pids(owners@.take(i as int)),
        decreases shown - i,
    {
        let ghost part = owners@.take(i + 1);
        assert(part.drop_last() =~= owners@.take(i as int));
        assert(part.last() == owners@[i as int]);
        if i > 0 {
            push_char(&mut text, ',');
        }
        text.append(decimal_text(owner_pid(owners[i]) as u128).as_str());
        assert(text@ =~= joined_pids(part));
        i = i + 1;
    }
    if owners.len() > SERIALIZED_OWNERS_MAX {
        text.append(",+");
        text.append(decimal_text((owners.len() - SERIALIZED_OWNERS_MAX) as u128).as_str());
    } else {
        assert(owners@.take(shown as int) =~= owners@);
    }
    text
}

/// The end of a line: when the attempt ran, and when the one before it ended.
pub open spec fn times_column(times: ObservationTimes) -> Seq<char> {
    " observed="@ + decimal(times.attempt_started_unix_ms as nat) + ".."@ + decimal(
        times.attempt_completed_unix_ms as nat,
    ) + " previous_completed="@ + (match times.previous_completed_unix_ms {
        Some(millis) => decimal(millis as nat),
        None => "-"@,
    }) + "\n"@
}

fn append_times(text: &mut String, times: ObservationTimes)
    ensures
        final(text)@ == old(text)@ + times_column(times),
{
    let ghost before = text@;
    text.append(" observed=");
    text.append(decimal_text(times.attempt_started_unix_ms as u128).as_str());
    text.append("..");
    text.append(decimal_text(times.attempt_completed_unix_ms as u128).as_str());
    text.append(" previous_completed=");
    match times.previous_completed_unix_ms {
        Some(millis) => text.append(decimal_text(millis as u128).as_str()),
        None => text.append("-"),
    }
    text.append("\n");
    assert(text@ =~= before + times_column(times));
}

/// The line that tells people about an event.
pub open spec fn event_line(
    times: ObservationTimes,
    event: WatchEvent,
    filter_result: FilterResult,
    config: Config,
) -> Seq<char> {
    let socket = event.socket();
    let endpoint = socket.local_endpoint;
    event.kind.heading_text() + " "@ + endpoint.protocol.label_text() + " "@ + endpoint_text(
        endpoint.address,
        endpoint.port,
        endpoint.ipv6_scope,
    ) + " "@ + socket_state_text(socket.state) + " owners="@ + owner_column(socket.owners@) + (
    match resolved_label(config.labels.labels@, endpoint) {
        Some(label) => " label="@ + displayed_label(label),
        None => Seq::empty(),
    }) + " filter="@ + filter_result.name_text() + " certainty="@ + event.certainty.name_text()
        + times_column(times)
}

/// Write the line for an event.
pub fn write_human_event<W: Sink>(
    writer: &mut W,
    observation: ObservationTimes,
    event: WatchEvent<'_>,
    filter_result: FilterResult,
    config: &Config,
) -> (r: Result<(), OutputError>)
    requires
        event.wf(),
    ensures
        emitted(
            intake(*old(writer)),
            intake(*final(writer)),
            encode_utf8(event_line(observation, event, filter_result, *config)),
            r,
        ),
        r is Err ==> final(writer).failed(),
        final(writer).flushed() == old(writer).flushed(),
        old(writer).failed() ==> final(writer).failed(),
{
    let socket = event.event_socket();
    let endpoint = socket.local_endpoint;
    let mut line = event.kind.heading().to_owned();
    line.append(" ");
    line.append(endpoint.protocol.label());
    line.append(" ");
    line.append(
        human_endpoint_text(endpoint.address, endpoint.port, endpoint.ipv6_scope).as_str(),
    );
    line.append(" ");
    line.append(socket_state_name(socket.state));
    line.append(" owners=");
    line.append(owner_column_text(&socket.owners).as_str());
    let ghost head = line@;
    match config.labels.resolve(endpoint) {
        Some(label) => {
            line.append(" label=");
            line.append(label_display_text(label).as_str());
        },
        None => {},
    }
    assert(line@ =~= head + (match resolved_label(config.labels.labels@, endpoint) {
        Some(label) => " label="@ + displayed_label(label),
        None => Seq::empty(),
    }));
    line.append(" filter=");
    line.append(filter_result.name());
    line.append(" certainty=");
    line.append(event.certainty.name());
    append_times(&mut line, observation);
    assert(line@ =~= event_line(observation, event, filter_result, *config));
    emit(writer, line.as_str().as_bytes())
}

/// One item of evidence behind an event.
#[derive(Debug, Clone, Copy, PartialEq, Eq)]
pub struct EvidenceItem {
    pub code: &'static str,
    pub source: &'static str,
    pub certainty: &'static str,
    pub message: &'static str,
}

impl EvidenceItem {
    pub fn literal(
        code: &'static str,
        source: &'static str,
        certainty: &'static str,
        message: &'static str,
    ) -> (r: EvidenceItem)
        ensures
            r.code@ == code@,
            r.source@ == source@,
            r.certainty@ == certainty@,
            r.message@ == message@,
    {
        EvidenceItem { code, source, certainty, message }
    }
}

/// Keep the first evidence items and count the rest.
pub fn retain_event_evidence(evidence: Vec<EvidenceItem>) -> (r: (Vec<EvidenceItem>, u64))
    ensures
        evidence.len() <= WATCH_EVENT_EVIDENCE_MAX ==> r.0@ == evidence@ && r.1 == 0,
        evidence.len() > WATCH_EVENT_EVIDENCE_MAX ==> {
            &&& r.0@ == evidence@.take(WATCH_EVENT_EVIDENCE_MAX as int)
            &&& r.1 == evidence.len() - WATCH_EVENT_EVIDENCE_MAX
        },
{
    let mut kept = evidence;
    let omitted: usize = kept.len().saturating_sub(WATCH_EVENT_EVIDENCE_MAX);
    if kept.len() > WATCH_EVENT_EVIDENCE_MAX {
        kept.truncate(WATCH_EVENT_EVIDENCE_MAX);
    }
    (kept, omitted as u64)
}

/// The owners of a socket as a record shows them.
#[derive(Debug, PartialEq, Eq)]
pub struct OwnerSet {
    pub owners: Vec<OwnerObservation>,
    pub omitted_owner_count: u64,
    pub completeness: &'static str,
    pub reasons: Vec<&'static str>,
}

impl OwnerSet {
    /// The set shows these owners: the first of them, how many more there are, and
    /// why they may not be all.
    pub open spec fn shows(
        self,
        owners: Seq<OwnerObservation>,
        completeness: OwnerCompleteness,
    ) -> bool {
        &&& self.owners@ == (if owners.len() <= SERIALIZED_OWNERS_MAX {
            owners
        } else {
            owners.take(SERIALIZED_OWNERS_MAX as int)
        })
        &&& self.owners.len() + self.omitted_owner_count == owners.len()
        &&& self.completeness@ == completeness_text(completeness)
        &&& names_reasons(self.reasons@, completeness)
    }

    pub fn new(owners: &Vec<OwnerObservation>, completeness: &OwnerCompleteness) -> (r: OwnerSet)
        ensures
            r.shows(owners@, *completeness),
    {
        let mut shown: Vec<OwnerObservation> = Vec::new();
        let mut i: usize = 0;
        while i < owners.len() && i < SERIALIZED_OWNERS_MAX
            invariant
                i <= owners.len(),
                i <= SERIALIZED_OWNERS_MAX,
                shown@ == owners@.take(i as int),
            decreases owners.len() - i,
        {
            shown.push(owners[i]);
            i = i + 1;
            assert(shown@ =~= owners@.take(i as int));
        }
        assert(owners.len() <= SERIALIZED_OWNERS_MAX ==> owners@.take(i as int) =~= owners@);
        let (completeness, reasons): (&'static str, Vec<&'static str>) = match completeness {
            OwnerCompleteness::Complete => ("complete", Vec::new()),
            OwnerCompleteness::Partial { reasons } => ("partial", owner_reason_names(*reasons)),
            OwnerCompleteness::Raced => ("raced", Vec::new()),
        };
        OwnerSet {
            owners: shown,
            omitted_owner_count: (owners.len() - i) as u64,
            completeness,
            reasons,
        }
    }
}

/// The public name of how complete a set of owners is.
pub open spec fn completeness_text(completeness: OwnerCompleteness) -> Seq<char> {
    match completeness {
        OwnerCompleteness::Complete => "complete"@,
        OwnerCompleteness::Partial { .. } => "partial"@,
        OwnerCompleteness::Raced => "raced"@,
    }
}

/// The reasons are those of a partial set, by public name and in order; only a
/// partial set has any.
pub open spec fn names_reasons(names: Seq<&'static str>, completeness: OwnerCompleteness) -> bool {
    match completeness {
        OwnerCompleteness::Partial { reasons } => {
            &&& names.len() == ordered_codes(reasons).len()
            &&& forall|i: int|
                0 <= i < names.len() ==> (#[trigger] names[i])@
                    == ordered_codes(reasons)[i].name_text()
        },
        _ => names.len() == 0,
    }
}

/// The owners of one side of an event, where the event has that side.
pub open spec fn shows_side(shown: Option<OwnerSet>, socket: Option<&SocketObservation>) -> bool {
    match (shown, socket) {
        (Some(set), Some(socket)) => set.shows(socket.owners@, socket.owner_completeness),
        (None, None) => true,
        _ => false,
    }
}

pub open spec fn side_token(socket: Option<&SocketObservation>) -> Option<PlatformSocketToken> {
    match socket {
        Some(socket) => socket.socket_token,
        None => None,
    }
}

/// The body of an endpoint event.
#[derive(Debug)]
pub struct EndpointEventData<'a> {
    pub endpoint: EndpointIdentity,
    pub state: SocketState,
    pub previous_owners: Option<OwnerSet>,
    pub current_owners: Option<OwnerSet>,
    pub previous_socket_token: Option<PlatformSocketToken>,
    pub current_socket_token: Option<PlatformSocketToken>,
    pub multiplicity: u32,
    pub label: Option<&'a str>,
    pub filter_result: &'static str,
    pub certainty: &'static str,
    pub evidence: Vec<EvidenceItem>,
    pub omitted_evidence_count: u64,
    pub evidence_gaps: Vec<&'a EvidenceGap>,
    pub omitted_evidence_gap_count: u64,
}

/// The evidence of an event: a replacement names the changed process.
pub open spec fn evidence_fits(evidence: Seq<EvidenceItem>, kind: EventKind) -> bool {
    if kind == EventKind::Replacement {
        &&& evidence.len() == 1
        &&& evidence[0].code@ == "process_identity_changed"@
        &&& evidence[0].source@ == "analysis"@
        &&& evidence[0].certainty@ == "proven"@
        &&& evidence[0].message@ == "verified process identity changed between observations"@
    } else {
        evidence.len() == 0
    }
}

impl<'a> EndpointEventData<'a> {
    /// The body tells of this event: its socket, both sides where it has them, the
    /// label, and the gaps that leave its filter open.
    pub open spec fn tells_of(
        self,
        event: WatchEvent<'a>,
        indexed: IndexedSides,
        filter_result: FilterResult,
        terms: Seq<FilterTerm>,
        config: Config,
    ) -> bool {
        let socket = event.socket();
        &&& self.endpoint == socket.local_endpoint
        &&& self.state == socket.state
        &&& shows_side(self.previous_owners, event.previous_socket)
        &&& shows_side(self.current_owners, event.current_socket)
        &&& self.previous_socket_token == side_token(event.previous_socket)
        &&& self.current_socket_token == side_token(event.current_socket)
        &&& self.multiplicity == event.multiplicity
        &&& opt_str_text(self.label) == resolved_label(
            config.labels.labels@,
            socket.local_endpoint,
        )
        &&& self.filter_result@ == filter_result.name_text()
        &&& self.certainty@ == event.certainty.name_text()
        &&& evidence_fits(self.evidence@, event.kind)
        &&& self.omitted_evidence_count == 0
        &&& if filter_result == FilterResult::Indeterminate {
            &&& self.evidence_gaps@ == event_gaps(event, indexed, terms)
            &&& self.evidence_gaps.len() + self.omitted_evidence_gap_count == saturated(
                0,
                event_gap_count(event, indexed, terms),
            )
        } else {
            self.evidence_gaps.len() == 0 && self.omitted_evidence_gap_count == 0
        }
    }
}

/// The body of a gap report.
#[derive(Debug)]
pub struct GapData<'a> {
    pub error_code: &'static str,
    pub error_message: String,
    pub certainty: &'static str,
    pub consecutive_failures: u8,
    pub completeness: Option<&'static str>,
    pub evidence_gaps: Vec<&'a EvidenceGap>,
    pub omitted_evidence_gap_count: u64,
}

/// What a record carries.
#[derive(Debug)]
pub enum RecordData<'a> {
    Endpoint(EndpointEventData<'a>),
    Gap(&'a GapData<'a>),
}

/// One record of machine output.
#[derive(Debug)]
pub struct WatchRecord<'a> {
    pub schema: &'static str,
    pub version: u32,
    pub sequence: u64,
    pub event: &'static str,
    pub observation: ObservationTimes,
    pub data: RecordData<'a>,
}

impl<'a> WatchRecord<'a> {
    /// The fields that every record has.
    pub open spec fn headed(self, sequence: u64, event: Seq<char>, times: ObservationTimes) -> bool {
        &&& self.schema@ == "kickoutchi.watch_event"@
        &&& self.version == 1
        &&& self.sequence == sequence
        &&& self.event@ == event
        &&& self.observation == times
    }
}

/// What a serializer made of a record: the bytes that fitted, and how it ended.
pub struct Serialized {
    pub record: BoundedRecord,
    pub result: Result<(), PublicOutputError>,
}

/// The line that a serialized record becomes. A record that outgrew its bound is
/// refused whole, and so is one whose line break no longer fits.
pub open spec fn framed(serialized: Serialized) -> Result<Seq<u8>, OutputError> {
    match serialized.result {
        Ok(()) => if serialized.record.bytes.len() < WATCH_RECORD_MAX_BYTES {
            Ok(serialized.record.bytes@.push(10u8))
        } else {
            Err(OutputError::EventLimit)
        },
        Err(error) => if serialized.record.limit_exceeded {
            Err(OutputError::EventLimit)
        } else {
            Err(OutputError::of_public(error))
        },
    }
}

/// Write what a serializer made of a record, as one line or not at all.
pub fn write_serialized<W: Sink>(writer: &mut W, serialized: Serialized) -> (r: Result<
    (),
    OutputError,
>)
    ensures
        match framed(serialized) {
            Ok(bytes) => emitted(intake(*old(writer)), intake(*final(writer)), bytes, r),
            Err(error) => r == Err::<(), OutputError>(error) && intake(*final(writer)) == intake(
                *old(writer),
            ),
        },
        old(writer).failed() ==> final(writer).failed(),
        framed(serialized) is Ok && r is Err ==> final(writer).failed(),
        final(writer).flushed() == old(writer).flushed(),
{
    let Serialized { record, result } = serialized;
    match result {
        Ok(()) => {},
        Err(error) => {
            return if record.limit_exceeded {
                Err(OutputError::EventLimit)
            } else {
                Err(OutputError::from_public(error))
            };
        },
    }
    let mut record = record;
    let line_break: [u8; 1] = [10u8];
    let ghost body = record.bytes@;
    match record.write(line_break.as_slice()) {
        Ok(_) => {},
        Err(_) => {
            return Err(OutputError::EventLimit);
        },
    }
    assert(record.bytes@ =~= body.push(10u8));
    emit(writer, record.bytes.as_slice())
}

/// The output after a record: some run of the serializer on it, written as
/// `write_serialized` does.
pub open spec fn record_written<'a, F: Fn(&WatchRecord<'a>) -> Serialized>(
    serialize: F,
    record: WatchRecord<'a>,
    before: Intake,
    after: Intake,
    r: Result<(), OutputError>,
) -> bool {
    exists|serialized: Serialized|
        #![trigger framed(serialized)]
        call_ensures(serialize, (&record,), serialized) && match framed(serialized) {
            Ok(bytes) => emitted(before, after, bytes, r),
            Err(error) => r == Err::<(), OutputError>(error) && after == before,
        }
}

/// Some run of the serializer on a record gave no line: the record outgrew its bound, or
/// could not be serialized.
pub open spec fn record_refused<'a, F: Fn(&WatchRecord<'a>) -> Serialized>(
    serialize: F,
    record: WatchRecord<'a>,
    error: OutputError,
) -> bool {
    exists|serialized: Serialized|
        #![trigger framed(serialized)]
        call_ensures(serialize, (&record,), serialized) && framed(serialized) == Err::<
            Seq<u8>,
            OutputError,
        >(error)
}

/// Serialize a record and write it.
pub fn write_json_record<'a, W: Sink, F: Fn(&WatchRecord<'a>) -> Serialized>(
    writer: &mut W,
    record: &WatchRecord<'a>,
    serialize: &F,
) -> (r: Result<(), OutputError>)
    requires
        call_requires(*serialize, (record,)),
    ensures
        record_written(
            *serialize,
            *record,
            intake(*old(writer)),
            intake(*final(writer)),
            r,
        ),
        r is Err && final(writer).refused() == old(writer).refused() ==> record_refused(
            *serialize,
            *record,
            r->Err_0,
        ),
        final(writer).flushed() == old(writer).flushed(),
        old(writer).failed() ==> final(writer).failed(),
{
    let serialized = serialize(record);
    let ghost made = serialized;
    let r = write_serialized(writer, serialized);
    proof {
        let _ = framed(made);
        assert(call_ensures(*serialize, (record,), made));
    }
    r
}

/// Gather the body of an event's record.
pub fn endpoint_event_data<'a>(
    event: WatchEvent<'a>,
    filter_result: FilterResult,
    filter_terms: &[FilterTerm],
    config: &'a Config,
    previous_gap_index: Option<&GapIndex>,
    current_gap_index: Option<&GapIndex>,
) -> (r: EndpointEventData<'a>)
    requires
        event.wf(),
        gap_indexes_fit(event, previous_gap_index, current_gap_index),
    ensures
        r.tells_of(
            event,
            sides_of(previous_gap_index, current_gap_index),
            filter_result,
            filter_terms@,
            *config,
        ),
{
    let socket = event.event_socket();
    let (evidence_gaps, omitted_evidence_gap_count): (Vec<&'a EvidenceGap>, u64) =
        if filter_result == FilterResult::Indeterminate {
        event_gap_dtos(event, filter_terms, previous_gap_index, current_gap_index)
    } else {
        (Vec::new(), 0)
    };
    let evidence: Vec<EvidenceItem> = if event.kind == EventKind::Replacement {
        let item = EvidenceItem::literal(
            "process_identity_changed",
            "analysis",
            "proven",
            "verified process identity changed between observations",
        );
        vec![item]
    } else {
        Vec::new()
    };
    let (evidence, omitted_evidence_count): (Vec<EvidenceItem>, u64) = retain_event_evidence(
        evidence,
    );
    EndpointEventData {
        endpoint: socket.local_endpoint,
        state: socket.state,
        previous_owners: match event.previous_socket {
            Some(side) => Some(OwnerSet::new(&side.owners, &side.owner_completeness)),
            None => None,
        },
        current_owners: match event.current_socket {
            Some(side) => Some(OwnerSet::new(&side.owners, &side.owner_completeness)),
            None => None,
        },
        previous_socket_token: match event.previous_socket {
            Some(side) => side.socket_token,
            None => None,
        },
        current_socket_token: match event.current_socket {
            Some(side) => side.socket_token,
            None => None,
        },
        multiplicity: event.multiplicity,
        label: config.labels.resolve(socket.local_endpoint),
        filter_result: filter_result.name(),
        certainty: event.certainty.name(),
        evidence,
        omitted_evidence_count,
        evidence_gaps,
        omitted_evidence_gap_count,
    }
}

/// An index that is at hand for a side is one of it.
pub open spec fn gap_indexes_fit(
    event: WatchEvent,
    previous_index: Option<&GapIndex>,
    current_index: Option<&GapIndex>,
) -> bool {
    &&& index_fits(previous_index, event.previous_snapshot)
    &&& index_fits(current_index, event.current_snapshot)
}

/// The record is the one of this event.
pub open spec fn event_record<'a>(
    record: WatchRecord<'a>,
    sequence: u64,
    times: ObservationTimes,
    event: WatchEvent<'a>,
    indexed: IndexedSides,
    filter_result: FilterResult,
    terms: Seq<FilterTerm>,
    config: Config,
) -> bool {
    &&& record.headed(sequence, event.kind.name_text(), times)
    &&& record.data matches RecordData::Endpoint(data) && data.tells_of(
        event,
        indexed,
        filter_result,
        terms,
        config,
    )
}

/// What writing an event does: the line for people, or one serialized record.
pub open spec fn event_written<'a, F: Fn(&WatchRecord<'a>) -> Serialized>(
    serialize: F,
    json: bool,
    sequence: u64,
    times: ObservationTimes,
    event: WatchEvent<'a>,
    indexed: IndexedSides,
    filter_result: FilterResult,
    terms: Seq<FilterTerm>,
    config: Config,
    before: Intake,
    after: Intake,
    r: Result<(), OutputError>,
) -> bool {
    if json {
        exists|record: WatchRecord<'a>|
            #[trigger] event_record(
                record,
                sequence,
                times,
                event,
                indexed,
                filter_result,
                terms,
                config,
            )
                && record_written(serialize, record, before, after, r)
    } else {
        emitted(before, after, encode_utf8(event_line(times, event, filter_result, config)), r)
    }
}

/// The serializer refused the record of an event.
pub open spec fn event_refused<'a, F: Fn(&WatchRecord<'a>) -> Serialized>(
    serialize: F,
    json: bool,
    sequence: u64,
    times: ObservationTimes,
    event: WatchEvent<'a>,
    indexed: IndexedSides,
    filter_result: FilterResult,
    terms: Seq<FilterTerm>,
    config: Config,
    error: OutputError,
) -> bool {
    json && exists|record: WatchRecord<'a>|
        #[trigger] event_record(
            record,
            sequence,
            times,
            event,
            indexed,
            filter_result,
            terms,
            config,
        ) && record_refused(serialize, record, error)
}

/// Write an event, as a line for people or as a record.
pub fn write_endpoint_event<'a, W: Sink, F: Fn(&WatchRecord<'a>) -> Serialized>(
    writer: &mut W,
    json: bool,
    sequence: u64,
    observation: ObservationTimes,
    event: WatchEvent<'a>,
    filter_result: FilterResult,
    filter_terms: &[FilterTerm],
    config: &'a Config,
    previous_gap_index: Option<&GapIndex>,
    current_gap_index: Option<&GapIndex>,
    serialize: &F,
) -> (r: Result<(), OutputError>)
    requires
        event.wf(),
        gap_indexes_fit(event, previous_gap_index, current_gap_index),
        forall|record: &WatchRecord<'a>| call_requires(*serialize, (record,)),
    ensures
        event_written(
            *serialize,
            json,
            sequence,
            observation,
            event,
            sides_of(previous_gap_index, current_gap_index),
            filter_result,
            filter_terms@,
            *config,
            intake(*old(writer)),
            intake(*final(writer)),
            r,
        ),
        r is Err && final(writer).refused() == old(writer).refused() ==> event_refused(
            *serialize,
            json,
            sequence,
            observation,
            event,
            sides_of(previous_gap_index, current_gap_index),
            filter_result,
            filter_terms@,
            *config,
            r->Err_0,
        ),
        final(writer).flushed() == old(writer).flushed(),
        old(writer).failed() ==> final(writer).failed(),
{
    if !json {
        return write_human_event(writer, observation, event, filter_result, config);
    }
    let record = WatchRecord {
        schema: "kickoutchi.watch_event",
        version: 1,
        sequence,
        event: event.kind.name(),
        observation,
        data: RecordData::Endpoint(
            endpoint_event_data(
                event,
                filter_result,
                filter_terms,
                config,
                previous_gap_index,
                current_gap_index,
            ),
        ),
    };
    assert(event_record(
        record,
        sequence,
        observation,
        event,
        sides_of(previous_gap_index, current_gap_index),
        filter_result,
        filter_terms@,
        *config,
    ));
    write_json_record(writer, &record, serialize)
}

/// A message made safe for output and cut to its bound.
pub open spec fn bounded_message(text: Seq<char>) -> Seq<char> {
    let safe = sanitized(text);
    if safe.len() <= GAP_MESSAGE_MAX_CHARS {
        safe
    } else {
        safe.take(GAP_MESSAGE_MAX_CHARS as int)
    }
}

/// Make a message safe for output and cut it to its bound.
pub fn sanitize_bounded(text: &str) -> (r: String)
    ensures
        r@ == bounded_message(text@),
{
    let safe = sanitize(text);
    if safe.as_str().unicode_len() <= GAP_MESSAGE_MAX_CHARS {
        safe
    } else {
        safe.as_str().substring_char(0, GAP_MESSAGE_MAX_CHARS).to_owned()
    }
}

impl<'a> GapData<'a> {
    /// The report tells of this failed attempt: an error by its code and message,
    /// an unusable snapshot by what spoiled it and by its first gaps.
    pub open spec fn reports(
        self,
        result: Result<NetworkSnapshot, CollectorError>,
        failures: u8,
    ) -> bool {
        &&& self.certainty@ == "unknown"@
        &&& self.consecutive_failures == failures
        &&& match result {
            Err(error) => {
                &&& self.error_code@ == collector_code(error)
                &&& self.error_message@ == bounded_message(error.text())
                &&& self.completeness is None
                &&& self.evidence_gaps.len() == 0
                &&& self.omitted_evidence_gap_count == 0
            },
            Ok(snapshot) => {
                let raced = snapshot.completeness == SnapshotCompleteness::Raced;
                let gaps = snapshot.evidence_gaps@;
                let shown = if gaps.len() <= WATCH_EVENT_GAPS_MAX {
                    gaps.len() as int
                } else {
                    WATCH_EVENT_GAPS_MAX as int
                };
                &&& self.error_code@ == if raced {
                    "observation_raced"@
                } else {
                    "partial_socket_set"@
                }
                &&& self.error_message@ == if raced {
                    "observation raced during collection"@
                } else {
                    "socket set was partial during collection"@
                }
                &&& self.completeness is Some
                &&& self.completeness->0@ == if raced {
                    "raced"@
                } else {
                    "partial"@
                }
                &&& self.evidence_gaps.len() == shown
                &&& forall|i: int|
                    0 <= i < shown ==> *(#[trigger] self.evidence_gaps@[i]) == gaps[i]
                &&& self.omitted_evidence_gap_count == saturated(
                    snapshot.omitted_evidence_gap_count,
                    (gaps.len() - shown) as nat,
                )
            },
        }
    }
}

/// Report an attempt that gave nothing to compare.
pub fn gap_from_result<'a>(
    result: &'a Result<NetworkSnapshot, CollectorError>,
    consecutive_failures: u8,
) -> (r: GapData<'a>)
    ensures
        r.reports(*result, consecutive_failures),
{
    match result {
        Err(error) => GapData {
            error_code: collector_error_code(error),
            error_message: sanitize_bounded(error.message().as_str()),
            certainty: "unknown",
            consecutive_failures,
            completeness: None,
            evidence_gaps: Vec::new(),
            omitted_evidence_gap_count: 0,
        },
        Ok(snapshot) => {
            let raced: bool = snapshot.completeness == SnapshotCompleteness::Raced;
            let mut gaps: Vec<&'a EvidenceGap> = Vec::new();
            let mut i: usize = 0;
            while i < snapshot.evidence_gaps.len() && i < WATCH_EVENT_GAPS_MAX
                invariant
                    i <= snapshot.evidence_gaps.len(),
                    i <= WATCH_EVENT_GAPS_MAX,
                    gaps.len() == i,
                    forall|j: int|
                        0 <= j < i ==> *(#[trigger] gaps@[j]) == snapshot.evidence_gaps@[j],
                decreases snapshot.evidence_gaps.len() - i,
            {
                gaps.push(&snapshot.evidence_gaps[i]);
                i = i + 1;
            }
            let unshown: u64 = (snapshot.evidence_gaps.len() - i) as u64;
            GapData {
                error_code: if raced {
                    "observation_raced"
                } else {
                    "partial_socket_set"
                },
                error_message: if raced {
                    "observation raced during collection".to_owned()
                } else {
                    "socket set was partial during collection".to_owned()
                },
                certainty: "unknown",
                consecutive_failures,
                completeness: if raced {
                    Some("raced")
                } else {
                    Some("partial")
                },
                evidence_gaps: gaps,
                omitted_evidence_gap_count: snapshot.omitted_evidence_gap_count.saturating_add(
                    unshown,
                ),
            }
        },
    }
}

/// The line that tells people about a gap.
pub open spec fn gap_line(times: ObservationTimes, message: Seq<char>, failures: u8) -> Seq<char> {
    "COLLECTION_GAP "@ + sanitized(message) + " failures="@ + decimal(failures as nat)
        + " certainty=unknown"@ + times_column(times)
}

/// What writing a gap report does: the line for people, or one serialized record.
pub open spec fn gap_written<'a, F: Fn(&WatchRecord<'a>) -> Serialized>(
    serialize: F,
    json: bool,
    sequence: u64,
    times: ObservationTimes,
    gap: GapData<'a>,
    before: Intake,
    after: Intake,
    r: Result<(), OutputError>,
) -> bool {
    if json {
        exists|record: WatchRecord<'a>|
            #[trigger] record.headed(sequence, "collection_gap"@, times) && record.data
                == RecordData::Gap(&gap) && record_written(serialize, record, before, after, r)
    } else {
        emitted(
            before,
            after,
            encode_utf8(gap_line(times, gap.error_message@, gap.consecutive_failures)),
            r,
        )
    }
}

/// The serializer refused the record of a gap report.
pub open spec fn gap_refused<'a, F: Fn(&WatchRecord<'a>) -> Serialized>(
    serialize: F,
    json: bool,
    sequence: u64,
    times: ObservationTimes,
    gap: GapData<'a>,
    error: OutputError,
) -> bool {
    json && exists|record: WatchRecord<'a>|
        #[trigger] record.headed(sequence, "collection_gap"@, times) && record.data
            == RecordData::Gap(&gap) && record_refused(serialize, record, error)
}

/// Write a gap report, as a line for people or as a record.
pub fn write_gap<'a, W: Sink, F: Fn(&WatchRecord<'a>) -> Serialized>(
    writer: &mut W,
    json: bool,
    sequence: u64,
    observation: ObservationTimes,
    gap: &'a GapData<'a>,
    serialize: &F,
) -> (r: Result<(), OutputError>)
    requires
        forall|record: &WatchRecord<'a>| call_requires(*serialize, (record,)),
    ensures
        gap_written(
            *serialize,
            json,
            sequence,
            observation,
            *gap,
            intake(*old(writer)),
            intake(*final(writer)),
            r,
        ),
        r is Err && final(writer).refused() == old(writer).refused() ==> gap_refused(
            *serialize,
            json,
            sequence,
            observation,
            *gap,
            r->Err_0,
        ),
        final(writer).flushed() == old(writer).flushed(),
        old(writer).failed() ==> final(writer).failed(),
{
    if !json {
        let mut line = "COLLECTION_GAP ".to_owned();
        line.append(sanitize(gap.error_message.as_str()).as_str());
        line.append(" failures=");
        line.append(decimal_text(gap.consecutive_failures as u128).as_str());
        line.append(" certainty=unknown");
        append_times(&mut line, observation);
        assert(line@ =~= gap_line(observation, gap.error_message@, gap.consecutive_failures));
        return emit(writer, line.as_str().as_bytes());
    }
    let record = WatchRecord {
        schema: "kickoutchi.watch_event",
        version: 1,
        sequence,
        event: "collection_gap",
        observation,
        data: RecordData::Gap(gap),
    };
    assert(record.headed(sequence, "collection_gap"@, observation));
    write_json_record(writer, &record, serialize)
}

} // verus!
