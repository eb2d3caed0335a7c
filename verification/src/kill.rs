//! Ending one process: resolve it, confirm it, look again, then signal it.

use vstd::prelude::*;
use vstd::string::*;
use crate::banner::{kill_banner_lines, print_kill_banner};
use crate::collector::CollectorError;
use crate::config::Config;
use crate::exit::ExitReason;
use crate::model::{endpoint_text, human_endpoint_text};
use crate::operations::{
    no_release, Asks, Operation, Prepares, ReadsContext, ReadsPorts, Recorded, Signals,
    WatchesPorts,
};
use crate::order::{has_text, sorted_distinct_texts, texts_ascend};
use crate::ports::{mark_protected, marked_rows, PortEntry, ProcessContext};
use crate::process::{
    accept_fresh_target, accepts, confirmation_requirement, confirmed_port_owner_unavailable,
    delivery_evidence, entries_of_pid, kill_target_has_port, outcome_text, owner_hidden,
    requirement_of, rows_of_pid, still_matches, tells_gap, unsafe_pid_reason, unsafe_reason,
    validate_single_delivery_evidence, HostFacts, KillMode, KillTarget, KillTargetPort,
    TerminationOutcome, UnsafePidReason,
};
use crate::sink::{
    lemma_said_more, lemma_said_nothing, problem_line, said, write_diagnostic, write_line, IoError,
    Sink,
};
use crate::text::{decimal, decimal_text, sanitize, sanitized};
use crate::time::Duration;

verus! {

/// What a kill command was asked to do.
#[derive(Debug, Clone, Copy, PartialEq, Eq, Structural)]
pub struct KillArgs {
    pub pid: Option<u32>,
    pub port: Option<u16>,
    pub force: bool,
    pub yes: bool,
    pub tree: bool,
    pub group: bool,
}

impl KillArgs {
    /// Exactly one target is named.
    pub open spec fn wf(self) -> bool {
        self.pid is Some <==> self.port is None
    }
}

/// Why no target was found.
#[derive(Debug, PartialEq, Eq)]
pub enum KillTargetError {
    NoMatch,
    MissingPid { port: u16 },
    AmbiguousPort { port: u16, candidates: Vec<String> },
    UnsafePid(UnsafePidReason),
}

/// The rows on a port, in order.
pub open spec fn rows_on_port<'a>(rows: Seq<PortEntry>, port: u16) -> Seq<&'a PortEntry>
    decreases rows.len(),
{
    if rows.len() == 0 {
        Seq::empty()
    } else {
        let head = rows_on_port(rows.drop_last(), port);
        if rows.last().local_port == port {
            head.push(&rows.last())
        } else {
            head
        }
    }
}

fn entries_on_port<'a>(rows: &'a Vec<PortEntry>, port: u16) -> (r: Vec<&'a PortEntry>)
    ensures
        r@ == rows_on_port(rows@, port),
{
    let mut found: Vec<&'a PortEntry> = Vec::new();
    let mut i: usize = 0;
    assert(rows@.take(0) =~= Seq::empty());
    while i < rows.len()
        invariant
            i <= rows.len(),
            found@ == rows_on_port(rows@.take(i as int), port),
        decreases rows.len() - i,
    {
        assert(rows@.take(i + 1).drop_last() =~= rows@.take(i as int));
        assert(rows@.take(i + 1).last() == rows@[i as int]);
        if rows[i].local_port == port {
            found.push(&rows[i]);
        }
        i = i + 1;
    }
    assert(rows@.take(rows@.len() as int) =~= rows@);
    found
}

/// How a row is offered to choose from.
pub open spec fn candidate_text(row: PortEntry) -> Seq<char> {
    "PID "@ + decimal(row.pid->0 as nat) + " ("@ + sanitized(
        match row.process_name {
            Some(name) => name@,
            None => "<unknown>"@,
        },
    ) + ") "@ + row.protocol.label_text() + " "@ + endpoint_text(
        row.local_addr,
        row.local_port,
        row.ipv6_scope,
    )
}

/// The candidates are the rows with an owner, each once, in the order of their texts.
pub open spec fn lists_candidates(candidates: Seq<String>, rows: Seq<&PortEntry>) -> bool {
    &&& texts_ascend(candidates)
    &&& forall|text: Seq<char>| #[trigger]
        has_text(candidates, text) <==> offers(rows, text)
}

/// Some row with an owner is offered under this text.
pub open spec fn offers(rows: Seq<&PortEntry>, text: Seq<char>) -> bool {
    exists|i: int|
        0 <= i < rows.len() && (#[trigger] rows[i]).pid is Some && candidate_text(*rows[i]) == text
}

/// The rows to choose from, as texts.
pub fn candidate_labels(rows: &Vec<&PortEntry>) -> (r: Vec<String>)
    ensures
        lists_candidates(r@, rows@),
{
    let mut labels: Vec<String> = Vec::new();
    let mut i: usize = 0;
    while i < rows.len()
        invariant
            i <= rows.len(),
            forall|k: int|
                0 <= k < labels.len() ==> offers(rows@, (#[trigger] labels@[k])@),
            forall|j: int|
                0 <= j < i && (#[trigger] rows@[j]).pid is Some ==> has_text(
                    labels@,
                    candidate_text(*rows@[j]),
                ),
        decreases rows.len() - i,
    {
        let row = rows[i];
        let ghost before = labels@;
        if let Some(pid) = row.pid {
            let mut label = "PID ".to_owned();
            label.append(decimal_text(pid as u128).as_str());
            label.append(" (");
            let name: &str = match &row.process_name {
                Some(name) => name.as_str(),
                None => "<unknown>",
            };
            label.append(sanitize(name).as_str());
            label.append(") ");
            label.append(row.protocol.label());
            label.append(" ");
            label.append(
                human_endpoint_text(row.local_addr, row.local_port, row.ipv6_scope).as_str(),
            );
            assert(label@ =~= candidate_text(*row));
            labels.push(label);
            proof {
                assert(rows@[i as int].pid is Some);
                assert(labels@.last()@ == candidate_text(*rows@[i as int]));
                assert forall|j: int| 0 <= j < i + 1 && (#[trigger] rows@[j]).pid is Some implies has_text(
                    labels@,
                    candidate_text(*rows@[j]),
                ) by {
                    if j < i {
                        let k = choose|k: int|
                            0 <= k < before.len() && (#[trigger] before[k])@ == candidate_text(
                                *rows@[j],
                            );
                        assert(labels@[k] == before[k]);
                    } else {
                        assert(labels@[labels@.len() - 1]@ == candidate_text(*rows@[j]));
                    }
                }
            }
        }
        i = i + 1;
    }
    let r = sorted_distinct_texts(&labels);
    proof {
        assert forall|text: Seq<char>| #[trigger] has_text(r@, text) <==> offers(rows@, text) by {
            if has_text(r@, text) {
                assert(has_text(labels@, text));
                let k = choose|k: int| 0 <= k < labels.len() && (#[trigger] labels@[k])@ == text;
                assert(offers(rows@, labels@[k]@));
            }
            if offers(rows@, text) {
                let j = choose|j: int|
                    0 <= j < rows.len() && (#[trigger] rows@[j]).pid is Some && candidate_text(
                        *rows@[j],
                    ) == text;
                assert(has_text(labels@, candidate_text(*rows@[j])));
            }
        }
    }
    r
}

/// Some row's owner is hidden.
pub open spec fn some_hidden(rows: Seq<&PortEntry>) -> bool {
    exists|i: int| 0 <= i < rows.len() && (#[trigger] rows[i]).pid is None
}

/// All rows have the first row's owner.
pub open spec fn one_owner(rows: Seq<&PortEntry>) -> bool {
    forall|i: int| 0 <= i < rows.len() ==> (#[trigger] rows[i]).pid == rows[0].pid
}

/// The single owner of a port, or why there is none: nothing on the port, an owner
/// that cannot be seen, or several owners.
pub open spec fn owns_port(
    port: u16,
    own: Seq<&PortEntry>,
    r: Result<(u32, Seq<&PortEntry>), KillTargetError>,
) -> bool {
    if own.len() == 0 {
        r matches Err(KillTargetError::NoMatch)
    } else if some_hidden(own) {
        r matches Err(KillTargetError::MissingPid { port: p }) && p == port
    } else if one_owner(own) {
        r matches Ok((pid, rows)) && Some(pid) == own[0].pid && rows == own
    } else {
        r matches Err(KillTargetError::AmbiguousPort { port: p, candidates }) && p == port
            && lists_candidates(candidates@, own)
    }
}

/// The view of a resolution.
pub open spec fn owner_view<'a>(r: Result<(u32, Vec<&'a PortEntry>), KillTargetError>) -> Result<
    (u32, Seq<&'a PortEntry>),
    KillTargetError,
> {
    match r {
        Ok((pid, rows)) => Ok((pid, rows@)),
        Err(error) => Err(error),
    }
}

/// Resolve the single owner of a port. Nothing is guessed where owners are hidden or
/// several.
pub fn resolve_single_port_owner<'a>(port: u16, entries: &'a Vec<PortEntry>) -> (r: Result<
    (u32, Vec<&'a PortEntry>),
    KillTargetError,
>)
    ensures
        owns_port(port, rows_on_port(entries@, port), owner_view(r)),
        r is Ok ==> r->Ok_0.1.len() > 0,
{
    let rows = entries_on_port(entries, port);
    if rows.len() == 0 {
        return Err(KillTargetError::NoMatch);
    }
    let mut i: usize = 0;
    while i < rows.len()
        invariant
            i <= rows.len(),
            rows@ == rows_on_port(entries@, port),
            forall|j: int| 0 <= j < i ==> (#[trigger] rows@[j]).pid is Some,
        decreases rows.len() - i,
    {
        if rows[i].pid.is_none() {
            assert(rows@[i as int].pid is None);
            return Err(KillTargetError::MissingPid { port });
        }
        i = i + 1;
    }
    let pid: u32 = rows[0].pid.unwrap();
    let mut i: usize = 0;
    while i < rows.len()
        invariant
            i <= rows.len(),
            rows@ == rows_on_port(entries@, port),
            rows.len() > 0,
            rows@[0].pid == Some(pid),
            forall|j: int| 0 <= j < rows.len() ==> (#[trigger] rows@[j]).pid is Some,
            forall|j: int| 0 <= j < i ==> (#[trigger] rows@[j]).pid == rows@[0].pid,
        decreases rows.len() - i,
    {
        let other: u32 = rows[i].pid.unwrap();
        if other != pid {
            assert(rows@[i as int].pid != rows@[0].pid);
            return Err(
                KillTargetError::AmbiguousPort { port, candidates: candidate_labels(&rows) },
            );
        }
        i = i + 1;
    }
    Ok((pid, rows))
}

/// A target was gathered from rows and the context that was read for its PID.
pub open spec fn gathered<H>(
    pid: u32,
    rows: Seq<&PortEntry>,
    before: Seq<Operation<H>>,
    after: Seq<Operation<H>>,
    r: Result<KillTarget, KillTargetError>,
) -> bool {
    match r {
        Ok(target) => exists|context: ProcessContext|
            after == before.push(Operation::Context(pid, context)) && #[trigger] target.tells(
                pid,
                rows,
                Some(&context),
            ),
        Err(_) => false,
    }
}

/// What a PID resolves to. An unsafe PID is refused before anything is looked up, and the
/// context is read only of a PID that has rows.
pub open spec fn resolves_pid<H>(
    pid: u32,
    entries: Seq<PortEntry>,
    host: HostFacts,
    before: Seq<Operation<H>>,
    after: Seq<Operation<H>>,
    r: Result<KillTarget, KillTargetError>,
) -> bool {
    match unsafe_reason(pid, host) {
        Some(reason) => after == before && r == Err::<KillTarget, KillTargetError>(
            KillTargetError::UnsafePid(reason),
        ),
        None => if rows_of_pid(entries, pid).len() == 0 {
            after == before && r == Err::<KillTarget, KillTargetError>(KillTargetError::NoMatch)
        } else {
            gathered(pid, rows_of_pid(entries, pid), before, after, r)
        },
    }
}

pub fn resolve_pid_target<T: ReadsContext, H>(
    pid: u32,
    entries: &Vec<PortEntry>,
    host: HostFacts,
    tools: &mut Recorded<T, H>,
) -> (r: Result<KillTarget, KillTargetError>)
    ensures
        resolves_pid(pid, entries@, host, old(tools).log(), final(tools).log(), r),
{
    if let Some(reason) = unsafe_pid_reason(pid, host) {
        return Err(KillTargetError::UnsafePid(reason));
    }
    let rows = entries_of_pid(entries, pid);
    if rows.len() == 0 {
        return Err(KillTargetError::NoMatch);
    }
    let context = tools.context(pid);
    let target = KillTarget::from_entries(pid, &rows, Some(&context));
    assert(target.tells(pid, rows_of_pid(entries@, pid), Some(&context)));
    assert(gathered(
        pid,
        rows_of_pid(entries@, pid),
        old(tools).log(),
        tools.log(),
        Ok(target),
    ));
    Ok(target)
}

/// What a port resolves to. The context is read only of its single, safe owner.
pub open spec fn resolves_port<H>(
    port: u16,
    entries: Seq<PortEntry>,
    host: HostFacts,
    before: Seq<Operation<H>>,
    after: Seq<Operation<H>>,
    r: Result<KillTarget, KillTargetError>,
) -> bool {
    let own = rows_on_port(entries, port);
    if own.len() > 0 && !some_hidden(own) && one_owner(own) {
        let pid = own[0].pid->0;
        match unsafe_reason(pid, host) {
            Some(reason) => after == before && r == Err::<KillTarget, KillTargetError>(
                KillTargetError::UnsafePid(reason),
            ),
            None => gathered(pid, own, before, after, r),
        }
    } else {
        after == before && r is Err && owns_port(port, own, Err(r->Err_0))
    }
}

pub fn resolve_port_target<T: ReadsContext, H>(
    port: u16,
    entries: &Vec<PortEntry>,
    host: HostFacts,
    tools: &mut Recorded<T, H>,
) -> (r: Result<KillTarget, KillTargetError>)
    ensures
        resolves_port(port, entries@, host, old(tools).log(), final(tools).log(), r),
{
    let (pid, rows): (u32, Vec<&PortEntry>) = match resolve_single_port_owner(port, entries) {
        Ok(owner) => owner,
        Err(error) => {
            return Err(error);
        },
    };
    if let Some(reason) = unsafe_pid_reason(pid, host) {
        return Err(KillTargetError::UnsafePid(reason));
    }
    let context = tools.context(pid);
    let target = KillTarget::from_entries(pid, &rows, Some(&context));
    proof {
        let own = rows_on_port(entries@, port);
        assert(target.tells(own[0].pid->0, own, Some(&context)));
        assert(gathered(own[0].pid->0, own, old(tools).log(), tools.log(), Ok(target)));
    }
    Ok(target)
}

/// What a command's target resolves to.
pub open spec fn resolves<H>(
    args: KillArgs,
    entries: Seq<PortEntry>,
    host: HostFacts,
    before: Seq<Operation<H>>,
    after: Seq<Operation<H>>,
    r: Result<KillTarget, KillTargetError>,
) -> bool {
    match args.pid {
        Some(pid) => resolves_pid(pid, entries, host, before, after, r),
        None => resolves_port(args.port->0, entries, host, before, after, r),
    }
}

/// Resolve the target of a command.
pub fn resolve_kill_target<T: ReadsContext, H>(
    args: &KillArgs,
    entries: &Vec<PortEntry>,
    host: HostFacts,
    tools: &mut Recorded<T, H>,
) -> (r: Result<KillTarget, KillTargetError>)
    requires
        args.wf(),
    ensures
        resolves(*args, entries@, host, old(tools).log(), final(tools).log(), r),
{
    match args.pid {
        Some(pid) => resolve_pid_target(pid, entries, host, tools),
        None => resolve_port_target(args.port.unwrap(), entries, host, tools),
    }
}

/// A resolved target is never an unsafe PID, and a PID that was asked for resolves to
/// itself. All it takes is one look at the context of the process, and none where there is
/// no target.
pub proof fn law_resolved_target_is_safe<H>(
    args: KillArgs,
    entries: Seq<PortEntry>,
    host: HostFacts,
    before: Seq<Operation<H>>,
    after: Seq<Operation<H>>,
    r: Result<KillTarget, KillTargetError>,
)
    requires
        args.wf(),
        resolves(args, entries, host, before, after, r),
    ensures
        r is Err ==> after == before,
        r matches Ok(target) ==> {
            &&& unsafe_reason(target.pid, host) is None
            &&& args.pid is Some ==> args.pid == Some(target.pid)
            &&& after.len() == before.len() + 1
            &&& after.drop_last() == before
            &&& after.last() matches Operation::Context(pid, _) && pid == target.pid
        },
{
    if r is Ok {
        assert(after.drop_last() =~= before);
    }
}

/// The exit reason for a target that was not found.
pub open spec fn target_error_reason(error: KillTargetError) -> ExitReason {
    match error {
        KillTargetError::NoMatch => ExitReason::NoMatch,
        KillTargetError::MissingPid { .. } => ExitReason::PermissionDenied,
        KillTargetError::AmbiguousPort { .. } => ExitReason::Failure,
        KillTargetError::UnsafePid(_) => ExitReason::Failure,
    }
}

/// The sentence about a target that was not found.
pub open spec fn target_error_text(error: KillTargetError) -> Seq<char> {
    match error {
        KillTargetError::NoMatch => "error: no open port matches the requested target"@,
        KillTargetError::MissingPid { port } => "error: port "@ + decimal(port as nat)
            + " is visible, but no owning PID is available; rerun with higher privileges or pass --pid when known"@,
        KillTargetError::AmbiguousPort { port, .. } => "error: port "@ + decimal(port as nat)
            + " is owned by multiple PIDs; refusing to guess. Use --pid with one of:"@,
        KillTargetError::UnsafePid(reason) => "error: unsafe PID blocked: "@ + reason.text(),
    }
}

impl KillTargetError {
    pub fn exit_reason(&self) -> (r: ExitReason)
        ensures
            r == target_error_reason(*self),
    {
        match self {
            KillTargetError::NoMatch => ExitReason::NoMatch,
            KillTargetError::MissingPid { .. } => ExitReason::PermissionDenied,
            KillTargetError::AmbiguousPort { .. } => ExitReason::Failure,
            KillTargetError::UnsafePid(_) => ExitReason::Failure,
        }
    }

    /// The sentence that reports the error; candidates follow it, one to a line.
    pub fn message(&self) -> (r: String)
        ensures
            r@ == target_error_text(*self),
    {
        match self {
            KillTargetError::NoMatch => {
                "error: no open port matches the requested target".to_owned()
            },
            KillTargetError::MissingPid { port } => {
                let mut text = "error: port ".to_owned();
                text.append(decimal_text(*port as u128).as_str());
                text.append(
                    " is visible, but no owning PID is available; rerun with higher privileges or pass --pid when known",
                );
                text
            },
            KillTargetError::AmbiguousPort { port, .. } => {
                let mut text = "error: port ".to_owned();
                text.append(decimal_text(*port as u128).as_str());
                text.append(
                    " is owned by multiple PIDs; refusing to guess. Use --pid with one of:",
                );
                text
            },
            KillTargetError::UnsafePid(reason) => "error: unsafe PID blocked: ".to_owned().concat(
                reason.message(),
            ),
        }
    }
}

/// The exit reason for an outcome.
pub open spec fn outcome_reason(outcome: TerminationOutcome) -> ExitReason {
    match outcome {
        TerminationOutcome::Success => ExitReason::Success,
        TerminationOutcome::PermissionDenied => ExitReason::PermissionDenied,
        TerminationOutcome::OwnershipUnavailable => ExitReason::PermissionDenied,
        TerminationOutcome::AlreadyExited => ExitReason::NoMatch,
        TerminationOutcome::TargetChanged => ExitReason::NoMatch,
        TerminationOutcome::Cancelled => ExitReason::KillCancelled,
        TerminationOutcome::ProtectedProcess => ExitReason::ProtectedNeedsConfirmation,
        TerminationOutcome::UnsafePid(_) => ExitReason::Failure,
        TerminationOutcome::UnknownFailure(_) => ExitReason::Failure,
        TerminationOutcome::ThawFailed { .. } => ExitReason::Failure,
    }
}

pub fn exit_reason_for_outcome(outcome: &TerminationOutcome) -> (r: ExitReason)
    ensures
        r == outcome_reason(*outcome),
{
    match outcome {
        TerminationOutcome::Success => ExitReason::Success,
        TerminationOutcome::PermissionDenied => ExitReason::PermissionDenied,
        TerminationOutcome::OwnershipUnavailable => ExitReason::PermissionDenied,
        TerminationOutcome::AlreadyExited => ExitReason::NoMatch,
        TerminationOutcome::TargetChanged => ExitReason::NoMatch,
        TerminationOutcome::Cancelled => ExitReason::KillCancelled,
        TerminationOutcome::ProtectedProcess => ExitReason::ProtectedNeedsConfirmation,
        TerminationOutcome::UnsafePid(_) => ExitReason::Failure,
        TerminationOutcome::UnknownFailure(_) => ExitReason::Failure,
        TerminationOutcome::ThawFailed { .. } => ExitReason::Failure,
    }
}

/// The lines about candidates, one to a line.
pub open spec fn candidate_lines(candidates: Seq<String>) -> Seq<Seq<char>> {
    candidates.map_values(|candidate: String| "  "@ + candidate@)
}

/// The lines about a target that was not found: the sentence, then the candidates.
pub open spec fn target_error_lines(error: KillTargetError) -> Seq<Seq<char>> {
    seq![target_error_text(error)] + match error {
        KillTargetError::AmbiguousPort { candidates, .. } => candidate_lines(candidates@),
        _ => Seq::empty(),
    }
}

/// Report a target that was not found.
pub fn print_target_error<D: Sink>(diagnostics: &mut D, error: &KillTargetError) -> (r: ExitReason)
    ensures
        r == target_error_reason(*error),
        said(*old(diagnostics), *final(diagnostics), target_error_lines(*error)),
{
    write_line(diagnostics, error.message().as_str());
    let ghost middle = *diagnostics;
    if let KillTargetError::AmbiguousPort { candidates, .. } = error {
        print_candidates(diagnostics, candidates);
        proof {
            lemma_said_more(
                *old(diagnostics),
                middle,
                *diagnostics,
                seq![target_error_text(*error)],
                candidate_lines(candidates@),
            );
        }
    } else {
        assert(target_error_lines(*error) =~= seq![target_error_text(*error)]);
    }
    error.exit_reason()
}

fn print_candidates<D: Sink>(diagnostics: &mut D, candidates: &Vec<String>)
    ensures
        said(*old(diagnostics), *final(diagnostics), candidate_lines(candidates@)),
{
    let ghost all = candidate_lines(candidates@);
    let mut i: usize = 0;
    proof {
        lemma_said_nothing(*old(diagnostics));
        assert(all.take(0) =~= Seq::empty());
    }
    while i < candidates.len()
        invariant
            i <= candidates.len(),
            all == candidate_lines(candidates@),
            said(*old(diagnostics), *diagnostics, all.take(i as int)),
        decreases candidates.len() - i,
    {
        let ghost middle = *diagnostics;
        let line = "  ".to_owned().concat(candidates[i].as_str());
        write_line(diagnostics, line.as_str());
        proof {
            lemma_said_more(
                *old(diagnostics),
                middle,
                *diagnostics,
                all.take(i as int),
                seq![line@],
            );
            assert(all.take(i + 1) =~= all.take(i as int) + seq![line@]);
        }
        i = i + 1;
    }
    assert(all.take(all.len() as int) =~= all);
}

/// What a fresh resolution means for a confirmed target.
pub open spec fn judged(
    confirmed: KillTarget,
    resolved: Result<KillTarget, KillTargetError>,
    require_protection_name: bool,
    r: Result<KillTarget, TerminationOutcome>,
) -> bool {
    match resolved {
        Err(KillTargetError::NoMatch) => r == Err::<KillTarget, TerminationOutcome>(
            TerminationOutcome::TargetChanged,
        ),
        Err(KillTargetError::MissingPid { .. }) => r == Err::<KillTarget, TerminationOutcome>(
            TerminationOutcome::OwnershipUnavailable,
        ),
        Err(KillTargetError::AmbiguousPort { .. }) => r == Err::<KillTarget, TerminationOutcome>(
            TerminationOutcome::TargetChanged,
        ),
        Err(KillTargetError::UnsafePid(reason)) => r == Err::<KillTarget, TerminationOutcome>(
            TerminationOutcome::UnsafePid(reason),
        ),
        Ok(fresh) => if require_protection_name && !delivery_evidence(confirmed, fresh) {
            r is Err && tells_gap(r->Err_0, confirmed, fresh)
        } else {
            accepts(confirmed, fresh, r)
        },
    }
}

/// The line about a port that more than one process came to own.
pub open spec fn ambiguity_text(port: u16) -> Seq<char> {
    "error: port "@ + decimal(port as nat)
        + " became ambiguous before termination; refusing to guess. Use --pid with one of:"@
}

/// What a second look says beside its result: nothing, unless the port became
/// ambiguous, which names the candidates.
pub open spec fn aside_of(resolved: Result<KillTarget, KillTargetError>) -> Seq<Seq<char>> {
    match resolved {
        Err(KillTargetError::AmbiguousPort { port, candidates }) => seq![ambiguity_text(port)]
            + candidate_lines(candidates@),
        _ => Seq::empty(),
    }
}

/// What freshly collected rows mean for a confirmed target, and what is said beside.
pub open spec fn rejudged<H>(
    args: KillArgs,
    config: Config,
    confirmed: KillTarget,
    host: HostFacts,
    require_protection_name: bool,
    rows: Seq<PortEntry>,
    before: Seq<Operation<H>>,
    after: Seq<Operation<H>>,
    r: Result<KillTarget, TerminationOutcome>,
    aside: Seq<Seq<char>>,
) -> bool {
    let fresh = marked_rows(rows, config.protected_processes@);
    if owner_hidden(confirmed.ports@, fresh) {
        &&& after == before
        &&& r == Err::<KillTarget, TerminationOutcome>(TerminationOutcome::OwnershipUnavailable)
        &&& aside == Seq::<Seq<char>>::empty()
    } else {
        exists|resolved: Result<KillTarget, KillTargetError>|
            #[trigger] resolves(args, fresh, host, before, after, resolved) && judged(
                confirmed,
                resolved,
                require_protection_name,
                r,
            ) && aside == aside_of(resolved)
    }
}

/// What a failed collection means for a confirmed target.
pub open spec fn collection_refusal(error: CollectorError, r: TerminationOutcome) -> bool {
    if error is OwnershipPermissionDenied {
        r == TerminationOutcome::OwnershipUnavailable
    } else {
        r matches TerminationOutcome::UnknownFailure(text) && text@
            == "collecting ports before kill failed: "@ + error.text()
    }
}

/// What a collection of the ports means for a confirmed target. No context is read where
/// it failed.
pub open spec fn relooked<H>(
    args: KillArgs,
    config: Config,
    confirmed: KillTarget,
    host: HostFacts,
    require_protection_name: bool,
    collected: Result<Vec<PortEntry>, CollectorError>,
    before: Seq<Operation<H>>,
    after: Seq<Operation<H>>,
    r: Result<KillTarget, TerminationOutcome>,
    aside: Seq<Seq<char>>,
) -> bool {
    match collected {
        Err(error) => {
            &&& after == before
            &&& r is Err && collection_refusal(error, r->Err_0)
            &&& aside == Seq::<Seq<char>>::empty()
        },
        Ok(rows) => rejudged(
            args,
            config,
            confirmed,
            host,
            require_protection_name,
            rows@,
            before,
            after,
            r,
            aside,
        ),
    }
}

/// A confirmed target was looked up again: the ports were collected once and judged, and
/// this was said beside the result.
pub open spec fn revalidated<H>(
    args: KillArgs,
    config: Config,
    confirmed: KillTarget,
    host: HostFacts,
    require_protection_name: bool,
    before: Seq<Operation<H>>,
    after: Seq<Operation<H>>,
    r: Result<KillTarget, TerminationOutcome>,
    aside: Seq<Seq<char>>,
) -> bool {
    exists|collected: Result<Vec<PortEntry>, CollectorError>|
        #[trigger] relooked(
            args,
            config,
            confirmed,
            host,
            require_protection_name,
            collected,
            before.push(Operation::KillPorts(collected)),
            after,
            r,
            aside,
        )
}

/// Judge a fresh resolution.
pub fn judge_fresh_target(
    confirmed: &KillTarget,
    resolved: Result<KillTarget, KillTargetError>,
    require_protection_name: bool,
) -> (r: Result<KillTarget, TerminationOutcome>)
    ensures
        judged(*confirmed, resolved, require_protection_name, r),
{
    let fresh = match resolved {
        Ok(fresh) => fresh,
        Err(error) => {
            return Err(
                match error {
                    KillTargetError::NoMatch => TerminationOutcome::TargetChanged,
                    KillTargetError::MissingPid { .. } => TerminationOutcome::OwnershipUnavailable,
                    KillTargetError::AmbiguousPort { .. } => TerminationOutcome::TargetChanged,
                    KillTargetError::UnsafePid(reason) => TerminationOutcome::UnsafePid(reason),
                },
            );
        },
    };
    if require_protection_name {
        match validate_single_delivery_evidence(confirmed, &fresh) {
            Ok(()) => {},
            Err(outcome) => {
                return Err(outcome);
            },
        }
    }
    accept_fresh_target(confirmed, fresh)
}

/// How a kill ends whose ports could not be collected in the first place.
pub open spec fn uncollected_reason(error: CollectorError) -> ExitReason {
    if error is OwnershipPermissionDenied {
        ExitReason::PermissionDenied
    } else {
        ExitReason::Failure
    }
}

/// Take the rows that a kill starts from: protected processes are marked. Where there are
/// none to take, say so and end the kill.
pub fn gather_kill_rows<D: Sink>(
    collected: Result<Vec<PortEntry>, CollectorError>,
    config: &Config,
    diagnostics: &mut D,
) -> (r: Result<Vec<PortEntry>, ExitReason>)
    ensures
        match collected {
            Ok(rows) => {
                &&& r is Ok
                &&& r->Ok_0@ == marked_rows(rows@, config.protected_processes@)
                &&& *final(diagnostics) == *old(diagnostics)
            },
            Err(error) => {
                &&& r == Err::<Vec<PortEntry>, ExitReason>(uncollected_reason(error))
                &&& said(
                    *old(diagnostics),
                    *final(diagnostics),
                    seq![problem_line("collecting ports failed: "@ + error.text())],
                )
            },
        },
{
    match collected {
        Ok(rows) => {
            let mut marked = rows;
            mark_protected(&mut marked, config.protected_processes.as_slice());
            Ok(marked)
        },
        Err(error) => {
            let text = "collecting ports failed: ".to_owned().concat(error.message().as_str());
            write_diagnostic(diagnostics, text.as_str());
            Err(
                if error.is_ownership_permission_denied() {
                    ExitReason::PermissionDenied
                } else {
                    ExitReason::Failure
                },
            )
        },
    }
}

/// The outcome of a confirmed target whose ports could not be collected.
pub fn collection_failure_outcome(error: &CollectorError) -> (r: TerminationOutcome)
    ensures
        collection_refusal(*error, r),
{
    if error.is_ownership_permission_denied() {
        TerminationOutcome::OwnershipUnavailable
    } else {
        TerminationOutcome::UnknownFailure(
            "collecting ports before kill failed: ".to_owned().concat(error.message().as_str()),
        )
    }
}

/// Look a confirmed target up again right before it is signalled. A confirmed port
/// whose owner is hidden refuses before anything is resolved.
#[verifier::rlimit(30)]
pub fn revalidate_cli_target_with<T: ReadsContext + ReadsPorts, H, D: Sink>(
    args: &KillArgs,
    config: &Config,
    confirmed: &KillTarget,
    host: HostFacts,
    tools: &mut Recorded<T, H>,
    diagnostics: &mut D,
    require_protection_name: bool,
) -> (r: Result<KillTarget, TerminationOutcome>)
    requires
        args.wf(),
    ensures
        exists|aside: Seq<Seq<char>>|
            #[trigger] revalidated(
                *args,
                *config,
                *confirmed,
                host,
                require_protection_name,
                old(tools).log(),
                final(tools).log(),
                r,
                aside,
            ) && said(*old(diagnostics), *final(diagnostics), aside),
{
    proof {
        lemma_said_nothing(*old(diagnostics));
    }
    let ghost before = tools.log();
    let collected = tools.kill_ports();
    let ghost answer = collected;
    let ghost middle = tools.log();
    let mut rows = match collected {
        Ok(rows) => rows,
        Err(error) => {
            let refusal = collection_failure_outcome(&error);
            assert(relooked(
                *args,
                *config,
                *confirmed,
                host,
                require_protection_name,
                answer,
                middle,
                tools.log(),
                Err(refusal),
                Seq::empty(),
            ));
            assert(revalidated(
                *args,
                *config,
                *confirmed,
                host,
                require_protection_name,
                before,
                tools.log(),
                Err(refusal),
                Seq::empty(),
            ));
            return Err(refusal);
        },
    };
    let ghost read = rows@;
    mark_protected(&mut rows, config.protected_processes.as_slice());
    if confirmed_port_owner_unavailable(confirmed, &rows) {
        assert(relooked(
            *args,
            *config,
            *confirmed,
            host,
            require_protection_name,
            answer,
            middle,
            tools.log(),
            Err(TerminationOutcome::OwnershipUnavailable),
            Seq::empty(),
        ));
        assert(revalidated(
            *args,
            *config,
            *confirmed,
            host,
            require_protection_name,
            before,
            tools.log(),
            Err(TerminationOutcome::OwnershipUnavailable),
            Seq::empty(),
        ));
        return Err(TerminationOutcome::OwnershipUnavailable);
    }
    let resolved = resolve_kill_target(args, &rows, host, tools);
    let ghost found = resolved;
    if let Err(KillTargetError::AmbiguousPort { port, candidates }) = &resolved {
        let mut text = "error: port ".to_owned();
        text.append(decimal_text(*port as u128).as_str());
        text.append(
            " became ambiguous before termination; refusing to guess. Use --pid with one of:",
        );
        write_line(diagnostics, text.as_str());
        let ghost told = *diagnostics;
        print_candidates(diagnostics, candidates);
        proof {
            lemma_said_more(
                *old(diagnostics),
                told,
                *diagnostics,
                seq![ambiguity_text(*port)],
                candidate_lines(candidates@),
            );
        }
    }
    assert(said(*old(diagnostics), *diagnostics, aside_of(found)));
    let r = judge_fresh_target(confirmed, resolved, require_protection_name);
    assert(resolves(*args, rows@, host, middle, tools.log(), found));
    assert(rejudged(
        *args,
        *config,
        *confirmed,
        host,
        require_protection_name,
        read,
        middle,
        tools.log(),
        r,
        aside_of(found),
    ));
    assert(relooked(
        *args,
        *config,
        *confirmed,
        host,
        require_protection_name,
        answer,
        middle,
        tools.log(),
        r,
        aside_of(found),
    ));
    assert(revalidated(
        *args,
        *config,
        *confirmed,
        host,
        require_protection_name,
        before,
        tools.log(),
        r,
        aside_of(found),
    ));
    r
}

/// Look a confirmed root up again, for a scope that checks names itself.
pub fn revalidate_cli_target<T: ReadsContext + ReadsPorts, H, D: Sink>(
    args: &KillArgs,
    config: &Config,
    confirmed: &KillTarget,
    host: HostFacts,
    tools: &mut Recorded<T, H>,
    diagnostics: &mut D,
) -> (r: Result<KillTarget, TerminationOutcome>)
    requires
        args.wf(),
    ensures
        exists|aside: Seq<Seq<char>>|
            #[trigger] revalidated(
                *args,
                *config,
                *confirmed,
                host,
                false,
                old(tools).log(),
                final(tools).log(),
                r,
                aside,
            ) && said(*old(diagnostics), *final(diagnostics), aside),
{
    revalidate_cli_target_with(args, config, confirmed, host, tools, diagnostics, false)
}

/// Look a single confirmed process up again; its name and start must be readable.
pub fn revalidate_single_cli_target<T: ReadsContext + ReadsPorts, H, D: Sink>(
    args: &KillArgs,
    config: &Config,
    confirmed: &KillTarget,
    host: HostFacts,
    tools: &mut Recorded<T, H>,
    diagnostics: &mut D,
) -> (r: Result<KillTarget, TerminationOutcome>)
    requires
        args.wf(),
    ensures
        exists|aside: Seq<Seq<char>>|
            #[trigger] revalidated(
                *args,
                *config,
                *confirmed,
                host,
                true,
                old(tools).log(),
                final(tools).log(),
                r,
                aside,
            ) && said(*old(diagnostics), *final(diagnostics), aside),
{
    revalidate_cli_target_with(args, config, confirmed, host, tools, diagnostics, true)
}

/// How often the ports are read after a kill. Ending a process takes a moment: one
/// look right after the signal would find ports that are about to close.
pub const POST_KILL_SETTLE_ATTEMPTS_MAX: usize = 10;

/// The pause between two of those looks, in milliseconds.
pub const POST_KILL_SETTLE_RETRY_MILLIS: u64 = 100;

/// What became of the confirmed ports.
#[derive(Debug, PartialEq, Eq)]
pub enum PostKillPortsStatus {
    Cleared,
    StillVisible,
    RefreshFailed(String),
}

/// Some confirmed port is among the rows.
pub open spec fn ports_visible(ports: Seq<KillTargetPort>, rows: Seq<PortEntry>) -> bool {
    exists|i: int|
        0 <= i < rows.len() && ports.contains(KillTargetPort::of(#[trigger] rows[i]))
}

pub fn confirmed_ports_visible(target: &KillTarget, rows: &Vec<PortEntry>) -> (r: bool)
    ensures
        r == ports_visible(target.ports@, rows@),
{
    let mut i: usize = 0;
    while i < rows.len()
        invariant
            i <= rows.len(),
            forall|j: int|
                0 <= j < i ==> !target.ports@.contains(KillTargetPort::of(#[trigger] rows@[j])),
        decreases rows.len() - i,
    {
        if kill_target_has_port(&target.ports, KillTargetPort::from_row(&rows[i])) {
            return true;
        }
        i = i + 1;
    }
    false
}

/// A look at the ports found some confirmed one.
pub open spec fn look_finds(
    ports: Seq<KillTargetPort>,
    look: Result<Vec<PortEntry>, CollectorError>,
) -> bool {
    look is Ok && ports_visible(ports, look->Ok_0@)
}

/// The pause between two looks at the ports.
pub open spec fn settle_pause() -> Duration {
    Duration { nanos: (POST_KILL_SETTLE_RETRY_MILLIS * 1_000_000) as u128 }
}

/// Looks at the ports, with one pause between two of them.
pub open spec fn looks_made<H>(
    before: Seq<Operation<H>>,
    looks: Seq<Result<Vec<PortEntry>, CollectorError>>,
) -> Seq<Operation<H>>
    decreases looks.len(),
{
    if looks.len() == 0 {
        before
    } else {
        let earlier = looks_made(before, looks.drop_last());
        let rested = if looks.len() == 1 {
            earlier
        } else {
            earlier.push(Operation::Slept(settle_pause()))
        };
        rested.push(Operation::VisibilityPorts(looks.last()))
    }
}

/// Looks at the ports come to a status. Every look but the last found a confirmed port;
/// the last found none, or failed, or was the last one allowed and found one too.
pub open spec fn looks_settle(
    ports: Seq<KillTargetPort>,
    looks: Seq<Result<Vec<PortEntry>, CollectorError>>,
    status: PostKillPortsStatus,
) -> bool {
    &&& 0 < looks.len() <= POST_KILL_SETTLE_ATTEMPTS_MAX
    &&& forall|i: int| 0 <= i < looks.len() - 1 ==> look_finds(ports, #[trigger] looks[i])
    &&& match status {
        PostKillPortsStatus::Cleared => looks.last() is Ok && !look_finds(ports, looks.last()),
        PostKillPortsStatus::StillVisible => looks.len() == POST_KILL_SETTLE_ATTEMPTS_MAX
            && look_finds(ports, looks.last()),
        PostKillPortsStatus::RefreshFailed(text) => looks.last() is Err && text@
            == looks.last()->Err_0.text(),
    }
}

/// Some looks at the ports come to a status.
pub open spec fn settled<H>(
    ports: Seq<KillTargetPort>,
    before: Seq<Operation<H>>,
    after: Seq<Operation<H>>,
    status: PostKillPortsStatus,
) -> bool {
    exists|looks: Seq<Result<Vec<PortEntry>, CollectorError>>|
        #[trigger] looks_settle(ports, looks, status) && after == looks_made(before, looks)
}

/// Look at the ports until the confirmed ones are gone or the looks run out. A failed
/// look is told at once: it never counts as cleared. There is one pause between two
/// looks, and none after the last.
pub fn wait_for_confirmed_ports_to_clear<T: WatchesPorts, H>(
    target: &KillTarget,
    tools: &mut Recorded<T, H>,
) -> (r: PostKillPortsStatus)
    ensures
        settled(target.ports@, old(tools).log(), final(tools).log(), r),
{
    let ghost before = tools.log();
    let ghost mut looks = Seq::<Result<Vec<PortEntry>, CollectorError>>::empty();
    let mut attempt: usize = 0;
    loop
        invariant
            attempt < POST_KILL_SETTLE_ATTEMPTS_MAX,
            attempt == looks.len(),
            before == old(tools).log(),
            tools.log() == if attempt == 0 {
                before
            } else {
                looks_made(before, looks).push(Operation::Slept(settle_pause()))
            },
            forall|i: int|
                0 <= i < looks.len() ==> look_finds(target.ports@, #[trigger] looks[i]),
        decreases POST_KILL_SETTLE_ATTEMPTS_MAX - attempt,
    {
        let collected = tools.visibility_ports();
        proof {
            let longer = looks.push(collected);
            assert(longer.drop_last() =~= looks);
            assert(attempt == 0 ==> looks_made(before, looks) == before);
            assert(tools.log() == looks_made(before, longer));
            looks = longer;
        }
        let rows = match collected {
            Ok(rows) => rows,
            Err(error) => {
                let status = PostKillPortsStatus::RefreshFailed(error.message());
                assert(looks_settle(target.ports@, looks, status));
                return status;
            },
        };
        if !confirmed_ports_visible(target, &rows) {
            assert(looks_settle(target.ports@, looks, PostKillPortsStatus::Cleared));
            return PostKillPortsStatus::Cleared;
        }
        attempt = attempt + 1;
        if attempt >= POST_KILL_SETTLE_ATTEMPTS_MAX {
            assert(looks_settle(target.ports@, looks, PostKillPortsStatus::StillVisible));
            return PostKillPortsStatus::StillVisible;
        }
        let pause = Duration::from_millis(POST_KILL_SETTLE_RETRY_MILLIS);
        assert(pause == settle_pause());
        tools.sleep(pause);
    }
}

/// As many pauses as looks but one: the operations of a wait for the ports.
pub proof fn law_one_pause_between_two_looks<H>(
    before: Seq<Operation<H>>,
    looks: Seq<Result<Vec<PortEntry>, CollectorError>>,
)
    requires
        looks.len() > 0,
    ensures
        looks_made(before, looks).len() == before.len() + 2 * looks.len() - 1,
        looks_made(before, looks).take(before.len() as int) == before,
        forall|i: int|
            0 <= i < looks.len() ==> looks_made(before, looks)[before.len() + 2 * i]
                == Operation::<H>::VisibilityPorts(#[trigger] looks[i]),
        forall|i: int|
            0 <= i < looks.len() - 1 ==> #[trigger] looks_made(before, looks)[before.len() + 2 * i
                + 1] == Operation::<H>::Slept(settle_pause()),
    decreases looks.len(),
{
    let made = looks_made(before, looks);
    let less = looks.drop_last();
    if looks.len() == 1 {
        assert(looks_made(before, less) == before);
        assert(made.take(before.len() as int) =~= before);
    } else {
        law_one_pause_between_two_looks(before, less);
        let earlier = looks_made(before, less);
        assert(made == earlier.push(Operation::Slept(settle_pause())).push(
            Operation::VisibilityPorts(looks.last()),
        ));
        assert(made.take(before.len() as int) =~= earlier.take(before.len() as int));
        assert forall|i: int| 0 <= i < looks.len() implies made[before.len() + 2 * i]
            == Operation::<H>::VisibilityPorts(#[trigger] looks[i]) by {
            if i < less.len() {
                assert(less[i] == looks[i]);
                assert(made[before.len() + 2 * i] == earlier[before.len() + 2 * i]);
            }
        }
        assert forall|i: int| 0 <= i < looks.len() - 1 implies #[trigger] made[before.len() + 2 * i
            + 1] == Operation::<H>::Slept(settle_pause()) by {
            if i < less.len() - 1 {
                assert(made[before.len() + 2 * i + 1] == earlier[before.len() + 2 * i + 1]);
            }
        }
    }
}

/// The sentence about the ports after a kill.
pub open spec fn status_text(status: PostKillPortsStatus) -> Seq<char> {
    match status {
        PostKillPortsStatus::Cleared => "confirmed target ports are no longer visible"@,
        PostKillPortsStatus::StillVisible =>
            "warning: one or more confirmed ports are still visible after termination; another process may own them or shutdown may still be completing"@,
        PostKillPortsStatus::RefreshFailed(error) =>
            "warning: collecting ports after termination failed; refresh manually to verify the port disappeared: "@
            + error@,
    }
}

impl PostKillPortsStatus {
    pub fn message(&self) -> (r: String)
        ensures
            r@ == status_text(*self),
    {
        match self {
            PostKillPortsStatus::Cleared => {
                "confirmed target ports are no longer visible".to_owned()
            },
            PostKillPortsStatus::StillVisible => {
                "warning: one or more confirmed ports are still visible after termination; another process may own them or shutdown may still be completing".to_owned()
            },
            PostKillPortsStatus::RefreshFailed(error) => {
                "warning: collecting ports after termination failed; refresh manually to verify the port disappeared: ".to_owned().concat(
                    error.as_str(),
                )
            },
        }
    }
}

/// The sentence about the ports after a kill; a target without ports has none, and is not
/// looked for.
pub fn post_kill_refresh_status_message<T: WatchesPorts, H>(
    target: &KillTarget,
    tools: &mut Recorded<T, H>,
) -> (r: Option<String>)
    ensures
        r is None <==> target.ports.len() == 0,
        r is None ==> final(tools).log() == old(tools).log(),
        r is Some ==> exists|status: PostKillPortsStatus|
            #[trigger] settled(target.ports@, old(tools).log(), final(tools).log(), status)
                && r->0@ == status_text(status),
{
    if target.ports.len() == 0 {
        return None;
    }
    let status = wait_for_confirmed_ports_to_clear(target, tools);
    Some(status.message())
}

/// Report how an attempt ended.
pub fn print_termination_outcome<D: Sink>(
    diagnostics: &mut D,
    target: &KillTarget,
    mode: KillMode,
    outcome: &TerminationOutcome,
)
    ensures
        said(*old(diagnostics), *final(diagnostics), seq![ending_text(*outcome, *target, mode)]),
{
    let description = outcome.status_description(target, mode);
    let text = match outcome {
        TerminationOutcome::Success => description,
        TerminationOutcome::AlreadyExited => description,
        TerminationOutcome::Cancelled => description,
        TerminationOutcome::PermissionDenied => "error: ".to_owned().concat(
            description.as_str(),
        ).concat("; rerun with higher privileges"),
        TerminationOutcome::ProtectedProcess => "error: ".to_owned().concat(
            description.as_str(),
        ).concat(
            "; it became protected after confirmation, so no termination was sent; rerun to confirm the protected process",
        ),
        _ => "error: ".to_owned().concat(description.as_str()),
    };
    write_line(diagnostics, text.as_str());
}

/// The line about how an attempt ended.
pub open spec fn ending_text(
    outcome: TerminationOutcome,
    target: KillTarget,
    mode: KillMode,
) -> Seq<char> {
    let description = outcome_text(outcome, target, mode);
    match outcome {
        TerminationOutcome::Success => description,
        TerminationOutcome::AlreadyExited => description,
        TerminationOutcome::Cancelled => description,
        TerminationOutcome::PermissionDenied => "error: "@ + description
            + "; rerun with higher privileges"@,
        TerminationOutcome::ProtectedProcess => "error: "@ + description
            + "; it became protected after confirmation, so no termination was sent; rerun to confirm the protected process"@,
        _ => "error: "@ + description,
    }
}

/// Lines, then what became of the ports, if there are any.
pub open spec fn then_ports<H>(
    ports: Seq<KillTargetPort>,
    before: Seq<Operation<H>>,
    after: Seq<Operation<H>>,
    head: Seq<Seq<char>>,
    lines: Seq<Seq<char>>,
) -> bool {
    if ports.len() == 0 {
        after == before && lines == head
    } else {
        exists|status: PostKillPortsStatus|
            #[trigger] settled(ports, before, after, status) && lines == head.push(
                status_text(status),
            )
    }
}

/// Tell what became of the ports; `head` is what was told before.
pub(crate) fn print_post_kill_refresh_status<T: WatchesPorts, H, D: Sink>(
    target: &KillTarget,
    tools: &mut Recorded<T, H>,
    diagnostics: &mut D,
    Ghost(start): Ghost<D>,
    Ghost(head): Ghost<Seq<Seq<char>>>,
)
    requires
        said(start, *old(diagnostics), head),
    ensures
        exists|lines: Seq<Seq<char>>|
            said(start, *final(diagnostics), lines) && #[trigger] then_ports(
                target.ports@,
                old(tools).log(),
                final(tools).log(),
                head,
                lines,
            ),
{
    let ghost middle = *diagnostics;
    if let Some(message) = post_kill_refresh_status_message(target, tools) {
        write_line(diagnostics, message.as_str());
        proof {
            lemma_said_more(start, middle, *diagnostics, head, seq![message@]);
            assert(head + seq![message@] =~= head.push(message@));
            assert(then_ports(
                target.ports@,
                old(tools).log(),
                tools.log(),
                head,
                head.push(message@),
            ));
        }
    } else {
        assert(then_ports(target.ports@, old(tools).log(), tools.log(), head, head));
    }
}

/// The lines about how a delivered signal ended: the outcome, and after a success what
/// became of the ports. The ports are looked at only after a success.
pub open spec fn ending_lines<H>(
    target: KillTarget,
    mode: KillMode,
    outcome: TerminationOutcome,
    before: Seq<Operation<H>>,
    after: Seq<Operation<H>>,
    lines: Seq<Seq<char>>,
) -> bool {
    let ending = seq![ending_text(outcome, target, mode)];
    if outcome is Success {
        then_ports(target.ports@, before, after, ending, lines)
    } else {
        after == before && lines == ending
    }
}

/// The signal went once through a handle to a fresh target, and its outcome is the reason.
pub open spec fn delivered<H>(
    handle: H,
    fresh: KillTarget,
    names: Vec<String>,
    mode: KillMode,
    before: Seq<Operation<H>>,
    after: Seq<Operation<H>>,
    r: ExitReason,
    lines: Seq<Seq<char>>,
) -> bool {
    exists|outcome: TerminationOutcome|
        r == outcome_reason(outcome) && #[trigger] ending_lines(
            fresh,
            mode,
            outcome,
            before.push(Operation::Signalled(handle, fresh, names, mode, outcome)),
            after,
            lines,
        )
}

/// A prepared target was looked up again, and signalled where it passed.
pub open spec fn looked_again<H>(
    args: KillArgs,
    config: Config,
    host: HostFacts,
    target: KillTarget,
    handle: H,
    before: Seq<Operation<H>>,
    after: Seq<Operation<H>>,
    r: ExitReason,
    lines: Seq<Seq<char>>,
) -> bool {
    exists|
        fresh: Result<KillTarget, TerminationOutcome>,
        aside: Seq<Seq<char>>,
        middle: Seq<Operation<H>>,
    |
        #[trigger] revalidated(args, config, target, host, true, before, middle, fresh, aside)
            && match fresh {
            Err(outcome) => after == middle && r == outcome_reason(outcome) && lines == aside
                + seq![ending_text(outcome, target, KillMode::of_force(args.force))],
            Ok(fresh) => delivered(
                handle,
                fresh,
                config.protected_processes,
                KillMode::of_force(args.force),
                middle,
                after,
                r,
                lines,
            ),
        }
}

/// What the answer to a request for a handle led to. Without a handle nothing more is
/// read.
pub open spec fn held<H>(
    args: KillArgs,
    config: Config,
    host: HostFacts,
    target: KillTarget,
    handle: Result<H, TerminationOutcome>,
    before: Seq<Operation<H>>,
    after: Seq<Operation<H>>,
    r: ExitReason,
    lines: Seq<Seq<char>>,
) -> bool {
    match handle {
        Err(outcome) => after == before && r == outcome_reason(outcome) && lines == seq![
            ending_text(outcome, target, KillMode::of_force(args.force)),
        ],
        Ok(handle) => looked_again(args, config, host, target, handle, before, after, r, lines),
    }
}

/// A confirmed target got a handle, and went on where that worked.
pub open spec fn prepared<H>(
    args: KillArgs,
    config: Config,
    host: HostFacts,
    target: KillTarget,
    before: Seq<Operation<H>>,
    after: Seq<Operation<H>>,
    r: ExitReason,
    lines: Seq<Seq<char>>,
) -> bool {
    exists|handle: Result<H, TerminationOutcome>|
        #[trigger] held(
            args,
            config,
            host,
            target,
            handle,
            before.push(Operation::Prepared(target.pid, handle)),
            after,
            r,
            lines,
        )
}

/// What the user's answer led to.
pub open spec fn answered<H>(
    args: KillArgs,
    config: Config,
    host: HostFacts,
    target: KillTarget,
    answer: Result<bool, IoError>,
    before: Seq<Operation<H>>,
    after: Seq<Operation<H>>,
    r: ExitReason,
    lines: Seq<Seq<char>>,
) -> bool {
    let mode = KillMode::of_force(args.force);
    let banner = kill_banner_lines(target, mode, host);
    match answer {
        Err(error) => after == before && r == ExitReason::Failure && lines == banner.push(
            "error: reading confirmation failed: "@ + error.message@,
        ),
        Ok(false) => after == before && r == ExitReason::KillCancelled && lines == banner.push(
            ending_text(TerminationOutcome::Cancelled, target, mode),
        ),
        Ok(true) => banner.is_prefix_of(lines) && prepared(
            args,
            config,
            host,
            target,
            before,
            after,
            r,
            lines.skip(banner.len() as int),
        ),
    }
}

/// A resolved target was confirmed, and went on where the user agreed or nothing was
/// asked.
pub open spec fn asked<H>(
    args: KillArgs,
    config: Config,
    host: HostFacts,
    target: KillTarget,
    before: Seq<Operation<H>>,
    after: Seq<Operation<H>>,
    r: ExitReason,
    lines: Seq<Seq<char>>,
) -> bool {
    let mode = KillMode::of_force(args.force);
    let banner = kill_banner_lines(target, mode, host);
    match requirement_of(target.protected, mode, args.yes, config.confirm_force_kill) {
        Err(outcome) => after == before && r == outcome_reason(outcome) && lines == seq![
            "error: "@ + outcome_text(outcome, target, mode)
                + "; --yes cannot bypass protected-process confirmation"@,
        ],
        Ok(None) => banner.is_prefix_of(lines) && prepared(
            args,
            config,
            host,
            target,
            before,
            after,
            r,
            lines.skip(banner.len() as int),
        ),
        Ok(Some(requirement)) => exists|answer: Result<bool, IoError>|
            #[trigger] answered(
                args,
                config,
                host,
                target,
                answer,
                before.push(Operation::Asked(target, mode, requirement, answer)),
                after,
                r,
                lines,
            ),
    }
}

/// The whole of a kill, by the operations that it made: resolve, confirm, prepare, look
/// again, signal, with the lines told on the way. Each step goes on only where the one
/// before it allows it.
pub open spec fn killed<H>(
    args: KillArgs,
    config: Config,
    entries: Seq<PortEntry>,
    host: HostFacts,
    before: Seq<Operation<H>>,
    after: Seq<Operation<H>>,
    r: ExitReason,
    lines: Seq<Seq<char>>,
) -> bool {
    exists|resolved: Result<KillTarget, KillTargetError>, middle: Seq<Operation<H>>|
        #[trigger] resolves(args, entries, host, before, middle, resolved) && match resolved {
            Err(error) => after == middle && r == target_error_reason(error) && lines
                == target_error_lines(error),
            Ok(target) => asked(args, config, host, target, middle, after, r, lines),
        }
}

fn deliver_prepared<T: ReadsContext + ReadsPorts + WatchesPorts + Signals<H>, H, D: Sink>(
    args: &KillArgs,
    config: &Config,
    host: HostFacts,
    tools: &mut Recorded<T, H>,
    diagnostics: &mut D,
    target: &KillTarget,
    handle: H,
) -> (r: ExitReason)
    requires
        args.wf(),
    ensures
        exists|lines: Seq<Seq<char>>|
            said(*old(diagnostics), *final(diagnostics), lines) && #[trigger] looked_again(
                *args,
                *config,
                host,
                *target,
                handle,
                old(tools).log(),
                final(tools).log(),
                r,
                lines,
            ),
{
    let mode = KillMode::from_force(args.force);
    let ghost before = tools.log();
    let looked = revalidate_single_cli_target(args, config, target, host, tools, diagnostics);
    let ghost answer = looked;
    let ghost told = *diagnostics;
    let ghost middle = tools.log();
    let ghost aside = choose|aside: Seq<Seq<char>>|
        #[trigger] revalidated(
            *args,
            *config,
            *target,
            host,
            true,
            before,
            middle,
            answer,
            aside,
        ) && said(*old(diagnostics), told, aside);
    let fresh = match looked {
        Ok(fresh) => fresh,
        Err(outcome) => {
            print_termination_outcome(diagnostics, target, mode, &outcome);
            proof {
                let ending = seq![ending_text(outcome, *target, mode)];
                lemma_said_more(*old(diagnostics), told, *diagnostics, aside, ending);
                assert(looked_again(
                    *args,
                    *config,
                    host,
                    *target,
                    handle,
                    before,
                    middle,
                    outcome_reason(outcome),
                    aside + ending,
                ));
            }
            return exit_reason_for_outcome(&outcome);
        },
    };
    proof {
        law_found_again_is_the_confirmed_target(
            *args,
            *config,
            *target,
            host,
            true,
            before,
            middle,
            fresh,
            aside,
        );
    }
    let outcome = tools.terminate(&handle, &fresh, &config.protected_processes, mode);
    let ghost signalled = tools.log();
    print_ending(diagnostics, &fresh, mode, &outcome, tools);
    proof {
        let rest = choose|rest: Seq<Seq<char>>|
            said(told, *diagnostics, rest) && #[trigger] ending_lines(
                fresh,
                mode,
                outcome,
                signalled,
                tools.log(),
                rest,
            );
        lemma_said_more(*old(diagnostics), told, *diagnostics, aside, rest);
        assert(aside + rest =~= rest);
        assert(delivered(
            handle,
            fresh,
            config.protected_processes,
            mode,
            middle,
            tools.log(),
            outcome_reason(outcome),
            rest,
        ));
        assert(looked_again(
            *args,
            *config,
            host,
            *target,
            handle,
            before,
            tools.log(),
            outcome_reason(outcome),
            rest,
        ));
    }
    exit_reason_for_outcome(&outcome)
}

/// Report how a delivered signal ended, and after a success what became of the ports.
fn print_ending<T: WatchesPorts, H, D: Sink>(
    diagnostics: &mut D,
    target: &KillTarget,
    mode: KillMode,
    outcome: &TerminationOutcome,
    tools: &mut Recorded<T, H>,
)
    ensures
        exists|lines: Seq<Seq<char>>|
            said(*old(diagnostics), *final(diagnostics), lines) && #[trigger] ending_lines(
                *target,
                mode,
                *outcome,
                old(tools).log(),
                final(tools).log(),
                lines,
            ),
{
    let ghost ending = seq![ending_text(*outcome, *target, mode)];
    let ghost before = tools.log();
    print_termination_outcome(diagnostics, target, mode, outcome);
    if let TerminationOutcome::Success = outcome {
        print_post_kill_refresh_status(
            target,
            tools,
            diagnostics,
            Ghost(*old(diagnostics)),
            Ghost(ending),
        );
        proof {
            let lines = choose|lines: Seq<Seq<char>>|
                said(*old(diagnostics), *diagnostics, lines) && #[trigger] then_ports(
                    target.ports@,
                    before,
                    tools.log(),
                    ending,
                    lines,
                );
            assert(ending_lines(*target, mode, *outcome, before, tools.log(), lines));
        }
    } else {
        assert(ending_lines(*target, mode, *outcome, before, tools.log(), ending));
    }
}

fn prepare_confirmed<
    T: ReadsContext + ReadsPorts + WatchesPorts + Prepares<H> + Signals<H>,
    H,
    D: Sink,
>(
    args: &KillArgs,
    config: &Config,
    host: HostFacts,
    tools: &mut Recorded<T, H>,
    diagnostics: &mut D,
    target: &KillTarget,
) -> (r: ExitReason)
    requires
        args.wf(),
    ensures
        exists|lines: Seq<Seq<char>>|
            said(*old(diagnostics), *final(diagnostics), lines) && #[trigger] prepared(
                *args,
                *config,
                host,
                *target,
                old(tools).log(),
                final(tools).log(),
                r,
                lines,
            ),
{
    let ghost before = tools.log();
    let opened = tools.prepare(target.pid);
    let ghost answer = opened;
    let ghost middle = tools.log();
    let handle = match opened {
        Ok(handle) => handle,
        Err(outcome) => {
            print_termination_outcome(
                diagnostics,
                target,
                KillMode::from_force(args.force),
                &outcome,
            );
            proof {
                let ending = seq![ending_text(outcome, *target, KillMode::of_force(args.force))];
                assert(held(
                    *args,
                    *config,
                    host,
                    *target,
                    answer,
                    middle,
                    tools.log(),
                    outcome_reason(outcome),
                    ending,
                ));
                assert(prepared(
                    *args,
                    *config,
                    host,
                    *target,
                    before,
                    tools.log(),
                    outcome_reason(outcome),
                    ending,
                ));
            }
            return exit_reason_for_outcome(&outcome);
        },
    };
    let ghost told = *diagnostics;
    let ghost kept = handle;
    let reason = deliver_prepared(args, config, host, tools, diagnostics, target, handle);
    proof {
        let lines = choose|lines: Seq<Seq<char>>|
            said(told, *diagnostics, lines) && #[trigger] looked_again(
                *args,
                *config,
                host,
                *target,
                kept,
                middle,
                tools.log(),
                reason,
                lines,
            );
        assert(held(
            *args,
            *config,
            host,
            *target,
            answer,
            middle,
            tools.log(),
            reason,
            lines,
        ));
        assert(prepared(
            *args,
            *config,
            host,
            *target,
            before,
            tools.log(),
            reason,
            lines,
        ));
    }
    reason
}

/// End one process. Nothing is signalled but a target that was resolved, confirmed,
/// prepared and found again, and it is signalled once.
#[verifier::spinoff_prover]
#[verifier::rlimit(50)]
pub fn run_kill_with<
    T: ReadsContext + ReadsPorts + WatchesPorts + Asks + Prepares<H> + Signals<H>,
    H,
    D: Sink,
>(
    args: &KillArgs,
    config: &Config,
    entries: &Vec<PortEntry>,
    host: HostFacts,
    tools: &mut Recorded<T, H>,
    diagnostics: &mut D,
) -> (r: ExitReason)
    requires
        args.wf(),
    ensures
        exists|lines: Seq<Seq<char>>|
            said(*old(diagnostics), *final(diagnostics), lines) && #[trigger] killed(
                *args,
                *config,
                entries@,
                host,
                old(tools).log(),
                final(tools).log(),
                r,
                lines,
            ),
{
    let mode = KillMode::from_force(args.force);
    let ghost before = tools.log();
    let resolved = resolve_kill_target(args, entries, host, tools);
    let ghost found = resolved;
    let ghost middle = tools.log();
    assert(resolves(*args, entries@, host, before, middle, found));
    let target = match resolved {
        Ok(target) => target,
        Err(error) => {
            assert(killed(
                *args,
                *config,
                entries@,
                host,
                before,
                tools.log(),
                target_error_reason(error),
                target_error_lines(error),
            ));
            return print_target_error(diagnostics, &error);
        },
    };
    let ghost banner = kill_banner_lines(target, mode, host);
    let requirement = match confirmation_requirement(
        target.protected,
        mode,
        args.yes,
        config.confirm_force_kill,
    ) {
        Ok(requirement) => requirement,
        Err(outcome) => {
            let mut text = "error: ".to_owned();
            text.append(outcome.status_description(&target, mode).as_str());
            text.append("; --yes cannot bypass protected-process confirmation");
            write_line(diagnostics, text.as_str());
            assert(asked(
                *args,
                *config,
                host,
                target,
                middle,
                tools.log(),
                outcome_reason(outcome),
                seq![text@],
            ));
            assert(killed(
                *args,
                *config,
                entries@,
                host,
                before,
                tools.log(),
                outcome_reason(outcome),
                seq![text@],
            ));
            return exit_reason_for_outcome(&outcome);
        },
    };
    print_kill_banner(diagnostics, &target, mode, host);
    let ghost shown = *diagnostics;
    let ghost mut given: Option<Result<bool, IoError>> = None;
    if let Some(requirement) = requirement {
        let answer = tools.prompt(&target, mode, requirement);
        let ghost reply = answer;
        let ghost asking = tools.log();
        proof {
            given = Some(reply);
        }
        match answer {
            Ok(true) => {
                assert(reply == Ok::<bool, IoError>(true));
            },
            Ok(false) => {
                assert(reply == Ok::<bool, IoError>(false));
                print_termination_outcome(
                    diagnostics,
                    &target,
                    mode,
                    &TerminationOutcome::Cancelled,
                );
                proof {
                    let ending = ending_text(TerminationOutcome::Cancelled, target, mode);
                    lemma_said_more(*old(diagnostics), shown, *diagnostics, banner, seq![ending]);
                    assert(banner + seq![ending] =~= banner.push(ending));
                    assert(answered(
                        *args,
                        *config,
                        host,
                        target,
                        reply,
                        asking,
                        tools.log(),
                        ExitReason::KillCancelled,
                        banner.push(ending),
                    ));
                    assert(asked(
                        *args,
                        *config,
                        host,
                        target,
                        middle,
                        tools.log(),
                        ExitReason::KillCancelled,
                        banner.push(ending),
                    ));
                    assert(killed(
                        *args,
                        *config,
                        entries@,
                        host,
                        before,
                        tools.log(),
                        ExitReason::KillCancelled,
                        banner.push(ending),
                    ));
                }
                return ExitReason::KillCancelled;
            },
            Err(error) => {
                write_line(
                    diagnostics,
                    "error: reading confirmation failed: ".to_owned().concat(
                        error.message.as_str(),
                    ).as_str(),
                );
                proof {
                    let line = "error: reading confirmation failed: "@ + error.message@;
                    lemma_said_more(*old(diagnostics), shown, *diagnostics, banner, seq![line]);
                    assert(banner + seq![line] =~= banner.push(line));
                    assert(answered(
                        *args,
                        *config,
                        host,
                        target,
                        reply,
                        asking,
                        tools.log(),
                        ExitReason::Failure,
                        banner.push(line),
                    ));
                    assert(asked(
                        *args,
                        *config,
                        host,
                        target,
                        middle,
                        tools.log(),
                        ExitReason::Failure,
                        banner.push(line),
                    ));
                    assert(killed(
                        *args,
                        *config,
                        entries@,
                        host,
                        before,
                        tools.log(),
                        ExitReason::Failure,
                        banner.push(line),
                    ));
                }
                return ExitReason::Failure;
            },
        }
    }
    let ghost confirmed = tools.log();
    let reason = prepare_confirmed(args, config, host, tools, diagnostics, &target);
    proof {
        let rest = choose|rest: Seq<Seq<char>>|
            said(shown, *diagnostics, rest) && #[trigger] prepared(
                *args,
                *config,
                host,
                target,
                confirmed,
                tools.log(),
                reason,
                rest,
            );
        lemma_said_more(*old(diagnostics), shown, *diagnostics, banner, rest);
        assert((banner + rest).skip(banner.len() as int) =~= rest);
        assert(banner.is_prefix_of(banner + rest));
        if given is Some {
            assert(answered(
                *args,
                *config,
                host,
                target,
                given->0,
                confirmed,
                tools.log(),
                reason,
                banner + rest,
            ));
        }
        assert(asked(
            *args,
            *config,
            host,
            target,
            middle,
            tools.log(),
            reason,
            banner + rest,
        ));
        assert(killed(
            *args,
            *config,
            entries@,
            host,
            before,
            tools.log(),
            reason,
            banner + rest,
        ));
    }
    reason
}

/// A target that was found again is the confirmed process with all of its ports, and is
/// protected only where that was confirmed; finding it says nothing.
pub proof fn law_found_again_is_the_confirmed_target<H>(
    args: KillArgs,
    config: Config,
    confirmed: KillTarget,
    host: HostFacts,
    require_protection_name: bool,
    before: Seq<Operation<H>>,
    after: Seq<Operation<H>>,
    fresh: KillTarget,
    aside: Seq<Seq<char>>,
)
    requires
        revalidated(
            args,
            config,
            confirmed,
            host,
            require_protection_name,
            before,
            after,
            Ok(fresh),
            aside,
        ),
    ensures
        still_matches(confirmed, fresh),
        fresh.protected ==> confirmed.protected,
        require_protection_name ==> delivery_evidence(confirmed, fresh),
        aside == Seq::<Seq<char>>::empty(),
{
}

/// A look that asks for a readable name and start finds only what a look without that
/// finds too.
pub proof fn law_single_look_is_stricter<H>(
    args: KillArgs,
    config: Config,
    confirmed: KillTarget,
    host: HostFacts,
    before: Seq<Operation<H>>,
    after: Seq<Operation<H>>,
    fresh: KillTarget,
    aside: Seq<Seq<char>>,
)
    requires
        revalidated(args, config, confirmed, host, true, before, after, Ok(fresh), aside),
    ensures
        revalidated(args, config, confirmed, host, false, before, after, Ok(fresh), aside),
        delivery_evidence(confirmed, fresh),
{
    let r = Ok::<KillTarget, TerminationOutcome>(fresh);
    let collected = choose|collected: Result<Vec<PortEntry>, CollectorError>|
        #[trigger] relooked(
            args,
            config,
            confirmed,
            host,
            true,
            collected,
            before.push(Operation::KillPorts(collected)),
            after,
            r,
            aside,
        );
    let middle = before.push(Operation::KillPorts(collected));
    let rows = marked_rows(collected->Ok_0@, config.protected_processes@);
    let resolved = choose|resolved: Result<KillTarget, KillTargetError>|
        #[trigger] resolves(args, rows, host, middle, after, resolved) && judged(
            confirmed,
            resolved,
            true,
            r,
        ) && aside == aside_of(resolved);
    assert(judged(confirmed, resolved, false, r));
    assert(relooked(
        args,
        config,
        confirmed,
        host,
        false,
        collected,
        middle,
        after,
        r,
        aside,
    ));
}

/// A log went on without anything being killed.
pub open spec fn no_signal<H>(before: Seq<Operation<H>>, after: Seq<Operation<H>>) -> bool {
    &&& before.is_prefix_of(after)
    &&& forall|i: int| before.len() <= i < after.len() ==> !(#[trigger] after[i]).kills()
}

/// Two stretches without a kill are one.
pub proof fn lemma_no_signal_joins<H>(
    before: Seq<Operation<H>>,
    middle: Seq<Operation<H>>,
    after: Seq<Operation<H>>,
)
    requires
        no_signal(before, middle),
        no_signal(middle, after),
    ensures
        no_signal(before, after),
{
    assert forall|i: int| before.len() <= i < after.len() implies !(#[trigger] after[i]).kills() by {
        if i < middle.len() {
            assert(after[i] == middle[i]);
        }
    }
}

/// Looking at the ports after a kill kills nothing.
pub proof fn lemma_ports_signal_nothing<H>(
    ports: Seq<KillTargetPort>,
    before: Seq<Operation<H>>,
    after: Seq<Operation<H>>,
    head: Seq<Seq<char>>,
    lines: Seq<Seq<char>>,
)
    requires
        then_ports(ports, before, after, head, lines),
    ensures
        no_signal(before, after),
{
    if ports.len() > 0 {
        let status = choose|status: PostKillPortsStatus| #[trigger]
            settled(ports, before, after, status);
        let looks = choose|looks: Seq<Result<Vec<PortEntry>, CollectorError>>| #[trigger]
            looks_settle(ports, looks, status) && after == looks_made(before, looks);
        lemma_looks_signal_nothing(before, looks);
    }
}

/// The confirmation that a target needs was given: nothing was asked for, or the user
/// agreed.
pub open spec fn agreed<H>(
    args: KillArgs,
    config: Config,
    target: KillTarget,
    before: Seq<Operation<H>>,
    after: Seq<Operation<H>>,
) -> bool {
    let mode = KillMode::of_force(args.force);
    match requirement_of(target.protected, mode, args.yes, config.confirm_force_kill) {
        Err(_) => false,
        Ok(None) => after == before,
        Ok(Some(requirement)) => after == before.push(
            Operation::Asked(target, mode, requirement, Ok::<bool, IoError>(true)),
        ),
    }
}

/// A signal may go to a fresh target: from `before` to `now` some target was resolved,
/// confirmed, prepared under this handle, and passed the second look as this one.
pub open spec fn cleared<H>(
    args: KillArgs,
    config: Config,
    entries: Seq<PortEntry>,
    host: HostFacts,
    before: Seq<Operation<H>>,
    now: Seq<Operation<H>>,
    handle: H,
    fresh: KillTarget,
) -> bool {
    exists|target: KillTarget, resolved: Seq<Operation<H>>, confirmed: Seq<Operation<H>>|
        {
            &&& #[trigger] resolves(args, entries, host, before, resolved, Ok(target))
            &&& #[trigger] agreed(args, config, target, resolved, confirmed)
            &&& revalidated(
                args,
                config,
                target,
                host,
                true,
                confirmed.push(Operation::Prepared(target.pid, Ok(handle))),
                now,
                Ok(fresh),
                Seq::empty(),
            )
        }
}

/// Looking a target up again kills nothing.
pub proof fn lemma_look_signals_nothing<H>(
    args: KillArgs,
    config: Config,
    confirmed: KillTarget,
    host: HostFacts,
    require_protection_name: bool,
    before: Seq<Operation<H>>,
    after: Seq<Operation<H>>,
    r: Result<KillTarget, TerminationOutcome>,
    aside: Seq<Seq<char>>,
)
    requires
        revalidated(
            args,
            config,
            confirmed,
            host,
            require_protection_name,
            before,
            after,
            r,
            aside,
        ),
    ensures
        no_signal(before, after),
        no_release(before, after),
{
}

proof fn lemma_looks_signal_nothing<H>(
    before: Seq<Operation<H>>,
    looks: Seq<Result<Vec<PortEntry>, CollectorError>>,
)
    ensures
        no_signal(before, looks_made(before, looks)),
    decreases looks.len(),
{
    if looks.len() > 0 {
        lemma_looks_signal_nothing(before, looks.drop_last());
    }
}

/// A kill sends one signal at most. It goes to a target that was resolved, confirmed,
/// prepared and found again, in this order, through the handle of that target, and what
/// comes behind it signals nothing.
#[verifier::rlimit(30)]
pub proof fn law_at_most_one_signal<H>(
    args: KillArgs,
    config: Config,
    entries: Seq<PortEntry>,
    host: HostFacts,
    before: Seq<Operation<H>>,
    after: Seq<Operation<H>>,
    r: ExitReason,
    lines: Seq<Seq<char>>,
)
    requires
        killed(args, config, entries, host, before, after, r, lines),
    ensures
        no_signal(before, after) || exists|
            now: Seq<Operation<H>>,
            handle: H,
            fresh: KillTarget,
            outcome: TerminationOutcome,
        |
            {
                &&& #[trigger] cleared(args, config, entries, host, before, now, handle, fresh)
                &&& no_signal(before, now)
                &&& #[trigger] no_signal(
                    now.push(
                        Operation::Signalled(
                            handle,
                            fresh,
                            config.protected_processes,
                            KillMode::of_force(args.force),
                            outcome,
                        ),
                    ),
                    after,
                )
                &&& r == outcome_reason(outcome)
            },
{
    let mode = KillMode::of_force(args.force);
    let names = config.protected_processes;
    let (found, resolved) = choose|
        found: Result<KillTarget, KillTargetError>,
        resolved: Seq<Operation<H>>,
    |
        #[trigger] resolves(args, entries, host, before, resolved, found) && match found {
            Err(error) => after == resolved && r == target_error_reason(error) && lines
                == target_error_lines(error),
            Ok(target) => asked(args, config, host, target, resolved, after, r, lines),
        };
    assert(no_signal(before, resolved));
    if found is Ok {
        let target = found->Ok_0;
        let banner = kill_banner_lines(target, mode, host);
        let rest = lines.skip(banner.len() as int);
        let requirement = requirement_of(
            target.protected,
            mode,
            args.yes,
            config.confirm_force_kill,
        );
        if requirement is Ok {
            let confirmed = if requirement->Ok_0 is None {
                resolved
            } else {
                let answer = choose|answer: Result<bool, IoError>|
                    #[trigger] answered(
                        args,
                        config,
                        host,
                        target,
                        answer,
                        resolved.push(
                            Operation::Asked(target, mode, requirement->Ok_0->0, answer),
                        ),
                        after,
                        r,
                        lines,
                    );
                resolved.push(Operation::Asked(target, mode, requirement->Ok_0->0, answer))
            };
            if after != confirmed {
                assert(agreed(args, config, target, resolved, confirmed));
                assert(prepared(args, config, host, target, confirmed, after, r, rest));
                let handle = choose|handle: Result<H, TerminationOutcome>|
                    #[trigger] held(
                        args,
                        config,
                        host,
                        target,
                        handle,
                        confirmed.push(Operation::Prepared(target.pid, handle)),
                        after,
                        r,
                        rest,
                    );
                let ready = confirmed.push(Operation::Prepared(target.pid, handle));
                if handle is Ok {
                    let (fresh, aside, now) = choose|
                        fresh: Result<KillTarget, TerminationOutcome>,
                        aside: Seq<Seq<char>>,
                        now: Seq<Operation<H>>,
                    |
                        #[trigger] revalidated(
                            args,
                            config,
                            target,
                            host,
                            true,
                            ready,
                            now,
                            fresh,
                            aside,
                        ) && match fresh {
                            Err(outcome) => after == now && r == outcome_reason(outcome) && rest
                                == aside + seq![ending_text(outcome, target, mode)],
                            Ok(fresh) => delivered(
                                handle->Ok_0,
                                fresh,
                                names,
                                mode,
                                now,
                                after,
                                r,
                                rest,
                            ),
                        };
                    lemma_look_signals_nothing(
                        args,
                        config,
                        target,
                        host,
                        true,
                        ready,
                        now,
                        fresh,
                        aside,
                    );
                    lemma_no_signal_joins(before, resolved, ready);
                    lemma_no_signal_joins(before, ready, now);
                    if fresh is Ok {
                        law_found_again_is_the_confirmed_target(
                            args,
                            config,
                            target,
                            host,
                            true,
                            ready,
                            now,
                            fresh->Ok_0,
                            aside,
                        );
                        let outcome = choose|outcome: TerminationOutcome|
                            r == outcome_reason(outcome) && #[trigger] ending_lines(
                                fresh->Ok_0,
                                mode,
                                outcome,
                                now.push(
                                    Operation::Signalled(
                                        handle->Ok_0,
                                        fresh->Ok_0,
                                        names,
                                        mode,
                                        outcome,
                                    ),
                                ),
                                after,
                                rest,
                            );
                        let sent = now.push(
                            Operation::Signalled(handle->Ok_0, fresh->Ok_0, names, mode, outcome),
                        );
                        if outcome is Success {
                            lemma_ports_signal_nothing(
                                fresh->Ok_0.ports@,
                                sent,
                                after,
                                seq![ending_text(outcome, fresh->Ok_0, mode)],
                                rest,
                            );
                        }
                        assert(no_signal(sent, after));
                        assert(cleared(
                            args,
                            config,
                            entries,
                            host,
                            before,
                            now,
                            handle->Ok_0,
                            fresh->Ok_0,
                        ));
                    }
                }
            }
        }
    }
}

/// Nothing but a confirmed, unchanged target passes for signalling, and a protected one
/// only where the user confirmed it as protected.
pub proof fn law_cleared_target_was_confirmed<H>(
    args: KillArgs,
    config: Config,
    entries: Seq<PortEntry>,
    host: HostFacts,
    before: Seq<Operation<H>>,
    now: Seq<Operation<H>>,
    handle: H,
    fresh: KillTarget,
)
    requires
        args.wf(),
        cleared(args, config, entries, host, before, now, handle, fresh),
    ensures
        unsafe_reason(fresh.pid, host) is None,
        fresh.process_name is Some && fresh.process_start_time_marker is Some,
        exists|target: KillTarget, resolved: Seq<Operation<H>>, confirmed: Seq<Operation<H>>|
            {
                &&& #[trigger] resolves(args, entries, host, before, resolved, Ok(target))
                &&& #[trigger] agreed(args, config, target, resolved, confirmed)
                &&& still_matches(target, fresh)
                &&& fresh.protected ==> target.protected && !args.yes
            },
{
    let (target, resolved, confirmed) = choose|
        target: KillTarget,
        resolved: Seq<Operation<H>>,
        confirmed: Seq<Operation<H>>,
    |
        {
            &&& #[trigger] resolves(args, entries, host, before, resolved, Ok(target))
            &&& #[trigger] agreed(args, config, target, resolved, confirmed)
            &&& revalidated(
                args,
                config,
                target,
                host,
                true,
                confirmed.push(Operation::Prepared(target.pid, Ok(handle))),
                now,
                Ok(fresh),
                Seq::empty(),
            )
        };
    law_resolved_target_is_safe(args, entries, host, before, resolved, Ok(target));
    law_found_again_is_the_confirmed_target(
        args,
        config,
        target,
        host,
        true,
        confirmed.push(Operation::Prepared(target.pid, Ok(handle))),
        now,
        fresh,
        Seq::empty(),
    );
    assert(still_matches(target, fresh));
}

/// Run the scope that a kill command asks for: the process tree, the process group, or
/// the process alone.
pub fn run_kill<A, B, C>(args: &KillArgs, tree: A, group: B, single: C) -> (r: ExitReason) where
    A: FnOnce() -> ExitReason,
    B: FnOnce() -> ExitReason,
    C: FnOnce() -> ExitReason,

    requires
        args.tree ==> call_requires(tree, ()),
        !args.tree && args.group ==> call_requires(group, ()),
        !args.tree && !args.group ==> call_requires(single, ()),
    ensures
        args.tree ==> call_ensures(tree, (), r),
        !args.tree && args.group ==> call_ensures(group, (), r),
        !args.tree && !args.group ==> call_ensures(single, (), r),
{
    if args.tree {
        return tree();
    }
    if args.group {
        return group();
    }
    single()
}

} // verus!
