//! Command lines stay out of what a watch writes.

use vstd::prelude::*;
use crate::config::{resolved_label, Config};
use crate::observation::{
    process_row, NetworkSnapshot, OwnerObservation, ProcessEntry, ProcessIdentity,
    ProcessObservation, SocketObservation,
};
use crate::query::FilterTerm;
use crate::watch_event::WatchEvent;
use crate::watch_filter::{
    common_matches, endpoint_refutes, event_result, hidden_owner_possible, known_protection,
    owner_terms_truth, owner_truth, side_truth, term_truth, term_truth_at,
    FilterResult,
};
use crate::watch_gaps::{event_gap_count, event_gaps, IndexedSides};
use crate::watch_options::WatchOptions;
use crate::watch_output::{ObservationTimes, OutputError};
use crate::watch_record::{
    event_line, event_record, event_written, Intake, RecordData, Serialized, WatchRecord,
};

verus! {

/// Two processes that differ in their command lines at most.
pub open spec fn processes_alike(a: ProcessObservation, b: ProcessObservation) -> bool {
    a == (ProcessObservation { command_line: a.command_line, ..b })
}

/// Two process tables that differ in command lines at most.
pub open spec fn tables_alike(a: Seq<ProcessEntry>, b: Seq<ProcessEntry>) -> bool {
    &&& a.len() == b.len()
    &&& forall|i: int|
        #![trigger a[i]]
        #![trigger b[i]]
        0 <= i < a.len() ==> a[i].identity == b[i].identity && processes_alike(
            a[i].observation,
            b[i].observation,
        )
}

/// Two snapshots that differ in command lines at most.
pub open spec fn snapshots_alike(a: NetworkSnapshot, b: NetworkSnapshot) -> bool {
    &&& a == (NetworkSnapshot { processes: a.processes, ..b })
    &&& tables_alike(a.processes.entries@, b.processes.entries@)
}

/// The same side of two events.
pub open spec fn sides_alike(a: Option<&NetworkSnapshot>, b: Option<&NetworkSnapshot>) -> bool {
    match (a, b) {
        (Some(a), Some(b)) => snapshots_alike(*a, *b),
        (None, None) => true,
        _ => false,
    }
}

/// Two events that differ in command lines at most.
pub open spec fn events_alike<'a>(a: WatchEvent<'a>, b: WatchEvent<'a>) -> bool {
    &&& a == (WatchEvent {
        previous_snapshot: a.previous_snapshot,
        current_snapshot: a.current_snapshot,
        ..b
    })
    &&& sides_alike(a.previous_snapshot, b.previous_snapshot)
    &&& sides_alike(a.current_snapshot, b.current_snapshot)
}

proof fn lemma_rows_alike(a: Seq<ProcessEntry>, b: Seq<ProcessEntry>, identity: ProcessIdentity)
    requires
        tables_alike(a, b),
    ensures
        match (process_row(a, identity), process_row(b, identity)) {
            (Some(a), Some(b)) => processes_alike(a, b),
            (None, None) => true,
            _ => false,
        },
    decreases a.len(),
{
    if a.len() > 0 {
        assert(a[0].identity == b[0].identity);
        let (x, y) = (a.drop_first(), b.drop_first());
        assert forall|i: int|
            #![trigger x[i]]
            #![trigger y[i]]
            0 <= i < x.len() implies x[i].identity == y[i].identity && processes_alike(
            x[i].observation,
            y[i].observation,
        ) by {
            assert(x[i] == a[i + 1] && y[i] == b[i + 1]);
        }
        lemma_rows_alike(x, y, identity);
    }
}

proof fn lemma_terms_alike(
    a: NetworkSnapshot,
    b: NetworkSnapshot,
    socket: SocketObservation,
    owner: Option<OwnerObservation>,
    label: Option<Seq<char>>,
    term: FilterTerm,
    common: bool,
    names: Seq<String>,
)
    requires
        snapshots_alike(a, b),
    ensures
        term_truth(a, socket, owner, label, term, common, names) == term_truth(
            b,
            socket,
            owner,
            label,
            term,
            common,
            names,
        ),
{
    match owner {
        Some(OwnerObservation::Verified(identity)) => {
            lemma_rows_alike(a.processes.entries@, b.processes.entries@, identity);
        },
        _ => {},
    }
    if owner is Some {
        assert(known_protection(a, owner->0, names) == known_protection(b, owner->0, names));
    }
}

proof fn lemma_owners_alike(
    a: NetworkSnapshot,
    b: NetworkSnapshot,
    socket: SocketObservation,
    owner: Option<OwnerObservation>,
    label: Option<Seq<char>>,
    terms: Seq<FilterTerm>,
    names: Seq<String>,
)
    requires
        snapshots_alike(a, b),
    ensures
        owner_truth(a, socket, label, terms, names, owner) == owner_truth(
            b,
            socket,
            label,
            terms,
            names,
            owner,
        ),
{
    let commons = common_matches(socket, label, terms);
    assert forall|i: int|
        #![trigger term_truth_at(a, socket, owner, label, terms, commons, names, i)]
        #![trigger term_truth_at(b, socket, owner, label, terms, commons, names, i)]
        term_truth_at(a, socket, owner, label, terms, commons, names, i) == term_truth_at(
            b,
            socket,
            owner,
            label,
            terms,
            commons,
            names,
            i,
        ) by {
        lemma_terms_alike(a, b, socket, owner, label, terms[i], commons[i], names);
    }
    assert(owner_terms_truth(a, socket, owner, label, terms, commons, names)
        == owner_terms_truth(b, socket, owner, label, terms, commons, names));
}

proof fn lemma_side_alike(
    a: NetworkSnapshot,
    b: NetworkSnapshot,
    socket: SocketObservation,
    terms: Seq<FilterTerm>,
    label: Option<Seq<char>>,
    names: Seq<String>,
)
    requires
        snapshots_alike(a, b),
    ensures
        side_truth(a, socket, terms, label, names) == side_truth(b, socket, terms, label, names),
{
    assert(endpoint_refutes(a, socket, label, terms, names) == endpoint_refutes(
        b,
        socket,
        label,
        terms,
        names,
    )) by {
        assert forall|i: int| #![trigger terms[i]] term_truth(
            a,
            socket,
            None,
            label,
            terms[i],
            false,
            names,
        ) == term_truth(b, socket, None, label, terms[i], false, names) by {
            lemma_terms_alike(a, b, socket, None, label, terms[i], false, names);
        }
    }
    assert(hidden_owner_possible(a, terms) == hidden_owner_possible(b, terms));
    lemma_owners_alike(a, b, socket, None, label, terms, names);
    assert forall|i: int| #![trigger socket.owners@[i]] owner_truth(
        a,
        socket,
        label,
        terms,
        names,
        Some(socket.owners@[i]),
    ) == owner_truth(b, socket, label, terms, names, Some(socket.owners@[i])) by {
        lemma_owners_alike(a, b, socket, Some(socket.owners@[i]), label, terms, names);
    }
}

/// Command lines decide nothing: two events that differ in them at most pass the filter
/// alike.
pub proof fn law_command_lines_decide_nothing<'a>(
    a: WatchEvent<'a>,
    b: WatchEvent<'a>,
    options: WatchOptions,
    config: Config,
)
    requires
        events_alike(a, b),
        a.wf(),
    ensures
        event_result(a, options, config) == event_result(b, options, config),
{
    reveal(event_result);
    let names = config.protected_processes@;
    let terms = options.terms@;
    if a.previous_snapshot is Some && a.previous_socket is Some {
        let socket = *a.previous_socket->0;
        lemma_side_alike(
            *a.previous_snapshot->0,
            *b.previous_snapshot->0,
            socket,
            terms,
            resolved_label(config.labels.labels@, socket.local_endpoint),
            names,
        );
    }
    if a.current_snapshot is Some && a.current_socket is Some {
        let socket = *a.current_socket->0;
        lemma_side_alike(
            *a.current_snapshot->0,
            *b.current_snapshot->0,
            socket,
            terms,
            resolved_label(config.labels.labels@, socket.local_endpoint),
            names,
        );
    }
}

/// Command lines are never written: two events that differ in them at most have the same
/// line and the same record, so that whatever is written for the one may be written for
/// the other.
pub proof fn law_command_lines_are_not_written<'a, F: Fn(&WatchRecord<'a>) -> Serialized>(
    a: WatchEvent<'a>,
    b: WatchEvent<'a>,
    serialize: F,
    json: bool,
    sequence: u64,
    times: ObservationTimes,
    indexed: IndexedSides,
    filter_result: FilterResult,
    terms: Seq<FilterTerm>,
    config: Config,
    before: Intake,
    after: Intake,
    r: Result<(), OutputError>,
)
    requires
        events_alike(a, b),
    ensures
        event_line(times, a, filter_result, config) == event_line(times, b, filter_result, config),
        forall|record: WatchRecord<'a>| #[trigger]
            event_record(record, sequence, times, a, indexed, filter_result, terms, config)
                == event_record(record, sequence, times, b, indexed, filter_result, terms, config),
        event_written(
            serialize,
            json,
            sequence,
            times,
            a,
            indexed,
            filter_result,
            terms,
            config,
            before,
            after,
            r,
        ) == event_written(
            serialize,
            json,
            sequence,
            times,
            b,
            indexed,
            filter_result,
            terms,
            config,
            before,
            after,
            r,
        ),
{
    assert(event_gaps(a, indexed, terms) == event_gaps(b, indexed, terms));
    assert(event_gap_count(a, indexed, terms) == event_gap_count(b, indexed, terms));
    assert forall|record: WatchRecord<'a>|
        #![trigger event_record(record, sequence, times, a, indexed, filter_result, terms, config)]
        #![trigger event_record(record, sequence, times, b, indexed, filter_result, terms, config)]
        event_record(record, sequence, times, a, indexed, filter_result, terms, config)
            == event_record(
            record,
            sequence,
            times,
            b,
            indexed,
            filter_result,
            terms,
            config,
        ) by {
        match record.data {
            RecordData::Endpoint(data) => {
                assert(data.tells_of(a, indexed, filter_result, terms, config) == data.tells_of(
                    b,
                    indexed,
                    filter_result,
                    terms,
                    config,
                ));
            },
            _ => {},
        }
    }
}

} // verus!
