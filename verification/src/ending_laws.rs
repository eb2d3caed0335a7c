//! What is told where something ends, or cannot go on.

use vstd::prelude::*;
use vstd::string::*;
use crate::answer::answers;
use crate::app_execute::table_looked_again;
use crate::app_kill::target_resolved;
use crate::app_state::{App, TreeConfirmStage, TreeKillConfirmation};
use crate::app_tree::{preview_applied, submit_means, table_tree_looked_again, TreeSubmitVerdict};
use crate::banner::windows_tree_lines;
use crate::collector::CollectorError;
use crate::config::Config;
use crate::exit::ExitReason;
use crate::kill::{
    answered, ending_text, target_error_lines, target_error_reason, target_error_text, then_ports,
    KillArgs, KillTargetError,
};
use crate::model::Platform;
use crate::native::CollectedPass;
use crate::observation::{NetworkSnapshot, ObservationError};
use crate::operations::Operation;
use crate::passes::PassChange;
use crate::ports::PortEntry;
use crate::process::{
    identity_text, outcome_text, rows_of_pid, unsafe_reason, HostFacts, KillMode, KillTarget,
    TerminationOutcome, UnsafePidReason,
};
use crate::scoped::{
    or_unknown, preflight_checked, preflight_text, resolves_in_table, resolves_root,
    root_gone_text, scope_confirmed, scope_ending_lines, step_told, tree_outcome_text,
    tree_tabled, TreeConfirmDecision,
};
use crate::scoped_group::group_tabled;
use crate::scoped_laws::law_root_of_the_table;
use crate::sink::{said, IoError, IoErrorKind, Sink};
use crate::snapshot::{attempt_settled, overall_uncertainty};
use crate::metadata::ObservationLimits;
use crate::text::{decimal, opt_text, sanitized};
use crate::time::Duration;
use crate::tree::{
    first_with_pid, is_group, joined, preflight_clear, ProcessGroupTarget, ProcessTreeTarget,
    ScopeAuthorization, TreeKillOutcome, TreeProcessInfo,
};
use crate::watch_emit::Ledger;
use crate::watch_loop::{gap_closed, gap_followed, Ending};
use crate::watch_options::{duration_of, WatchOptions};
use crate::watch_output::clock_failure_text;
use crate::windows_tree::windows_tabled;

verus! {

/// A step of a confirmation goes on exactly after a yes. A no is told as cancelled, and an
/// answer that could not be read is a failure.
pub proof fn law_only_a_yes_goes_on(
    answer: Result<bool, IoError>,
    r: Option<ExitReason>,
    lines: Seq<Seq<char>>,
)
    requires
        step_told(answer, r, lines),
    ensures
        r is None <==> answer == Ok::<bool, IoError>(true),
        r is None ==> lines.len() == 0,
        r == Some(ExitReason::KillCancelled) <==> answer == Ok::<bool, IoError>(false),
        answer == Ok::<bool, IoError>(false) ==> lines == seq!["kill cancelled"@],
        answer is Err ==> r == Some(ExitReason::Failure) && lines == seq![
            "error: reading confirmation failed: "@ + answer->Err_0.message@,
        ],
{
}

/// A kill of one process goes on exactly after a yes: after a no it ends as cancelled and
/// after an unreadable answer as a failure, with nothing further done.
pub proof fn law_kill_answers<H>(
    args: KillArgs,
    config: Config,
    host: HostFacts,
    target: KillTarget,
    answer: Result<bool, IoError>,
    before: Seq<Operation<H>>,
    after: Seq<Operation<H>>,
    r: ExitReason,
    lines: Seq<Seq<char>>,
)
    requires
        answered(args, config, host, target, answer, before, after, r, lines),
    ensures
        answer == Ok::<bool, IoError>(false) ==> r == ExitReason::KillCancelled && after == before
            && lines.last() == "kill cancelled"@,
        answer is Err ==> r == ExitReason::Failure && after == before && lines.last()
            == "error: reading confirmation failed: "@ + answer->Err_0.message@,
{
}

/// After a scope was killed, or its root was found gone, the ports are looked at; otherwise
/// the outcome alone is told and nothing more is done.
pub proof fn law_ports_follow_a_killed_scope<H>(
    target: KillTarget,
    mode: KillMode,
    outcome: TreeKillOutcome,
    before: Seq<Operation<H>>,
    after: Seq<Operation<H>>,
    lines: Seq<Seq<char>>,
)
    requires
        scope_ending_lines(target, mode, outcome, before, after, lines),
    ensures
        !(outcome is Completed) && !(outcome is RootAlreadyExited) ==> after == before && lines
            == seq![tree_outcome_text(target, mode, outcome)],
        outcome is Completed ==> then_ports(
            target.ports@,
            before,
            after,
            seq![tree_outcome_text(target, mode, outcome)],
            lines,
        ),
        outcome is RootAlreadyExited ==> then_ports(
            target.ports@,
            before,
            after,
            seq![tree_outcome_text(target, mode, outcome)],
            lines,
        ),
{
}

/// A set of processes is let through without a word exactly where it is clear, and refused
/// with one line otherwise.
pub proof fn law_unclear_sets_are_refused(
    members: ProcessTreeTarget,
    noun: Seq<char>,
    host: HostFacts,
    r: Option<ExitReason>,
    lines: Seq<Seq<char>>,
)
    requires
        preflight_checked(members, noun, host, r, lines),
    ensures
        r is None <==> preflight_clear(members, host),
        r is None ==> lines.len() == 0,
        r is Some ==> lines.len() == 1 && r != Some(ExitReason::Success),
{
}

/// A process table that cannot be read ends a scoped kill as a failure, before anything is
/// asked or done.
pub proof fn law_unread_tables_end_scoped_kills<H>(
    args: KillArgs,
    config: Config,
    entries: Seq<PortEntry>,
    platform: Platform,
    host: HostFacts,
    mode: KillMode,
    error: String,
    failure: CollectorError,
    before: Seq<Operation<H>>,
    after: Seq<Operation<H>>,
    r: ExitReason,
    lines: Seq<Seq<char>>,
)
    ensures
        tree_tabled(
            args,
            config,
            entries,
            platform,
            host,
            mode,
            Err(error),
            before,
            after,
            r,
            lines,
        ) ==> after == before && r == ExitReason::Failure && lines == seq![
            "error: enumerating the process tree failed: "@ + sanitized(error@),
        ],
        group_tabled(
            args,
            config,
            entries,
            platform,
            host,
            mode,
            Err(error),
            before,
            after,
            r,
            lines,
        ) ==> after == before && r == ExitReason::Failure && lines == seq![
            "error: enumerating the process group failed: "@ + sanitized(error@),
        ],
        windows_tabled(
            args,
            config,
            entries,
            platform,
            host,
            mode,
            Err(failure),
            before,
            after,
            r,
            lines,
        ) ==> after == before && r == ExitReason::Failure && lines == seq![
            "error: enumerating the process table failed: "@ + failure.text(),
        ],
{
}

/// A protected root is never skipped past: with a standing yes it is refused and told so.
pub proof fn law_standing_yes_does_not_reach_protected_roots<H>(
    root: KillTarget,
    members: ProcessTreeTarget,
    before: Seq<Operation<H>>,
    after: Seq<Operation<H>>,
    r: Result<ScopeAuthorization, ExitReason>,
    lines: Seq<Seq<char>>,
)
    requires
        scope_confirmed(
            root,
            members,
            TreeConfirmDecision::RefuseProtectedYes,
            before,
            after,
            r,
            lines,
        ),
    ensures
        after == before,
        r == Err::<ScopeAuthorization, ExitReason>(ExitReason::ProtectedNeedsConfirmation),
        lines == seq![
            "error: "@ + identity_text(root)
                + " is protected; --yes cannot bypass protected-process confirmation"@,
        ],
{
}

/// The sentences about outcomes of a scoped kill.
pub proof fn law_scope_outcome_sentences(
    target: KillTarget,
    mode: KillMode,
    pid: u32,
    limit: usize,
    name: Option<String>,
    reason: UnsafePidReason,
    error: String,
    pids: Vec<u32>,
    cause: TreeKillOutcome,
)
    ensures
        tree_outcome_text(target, mode, TreeKillOutcome::Completed { signalled: limit })
            == "sent "@ + mode.delivery_text(target.platform) + " to "@ + decimal(limit as nat)
            + " process(es)"@,
        tree_outcome_text(target, mode, TreeKillOutcome::Truncated { limit })
            == "error: more than "@ + decimal(limit as nat)
            + " processes; refusing to kill a part of them"@,
        tree_outcome_text(target, mode, TreeKillOutcome::UnsafePid { pid, reason })
            == "error: unsafe PID "@ + decimal(pid as nat) + " blocked: "@ + reason.text(),
        tree_outcome_text(target, mode, TreeKillOutcome::ProtectedDescendant { pid, name })
            == "error: protected process PID "@ + decimal(pid as nat) + " ("@ + sanitized(
            or_unknown(name),
        ) + ") refuses the kill"@,
        tree_outcome_text(target, mode, TreeKillOutcome::ProtectedRoot { pid, name })
            == "error: protected root PID "@ + decimal(pid as nat) + " ("@ + sanitized(
            or_unknown(name),
        ) + ") was not confirmed as protected"@,
        tree_outcome_text(target, mode, TreeKillOutcome::OwnershipUnavailable { pid })
            == "error: the owner of a port of PID "@ + decimal(pid as nat)
            + " can no longer be read"@,
        tree_outcome_text(target, mode, TreeKillOutcome::RootAlreadyExited)
            == "the root process already exited"@,
        tree_outcome_text(target, mode, TreeKillOutcome::TargetChanged { pid }) == "error: PID "@
            + decimal(pid as nat) + " is no longer the confirmed process"@,
        tree_outcome_text(target, mode, TreeKillOutcome::PermissionDenied { pid })
            == "error: permission denied for PID "@ + decimal(pid as nat),
        tree_outcome_text(target, mode, TreeKillOutcome::PartialMetadata { pid })
            == "error: facts about PID "@ + decimal(pid as nat) + " could not be read"@,
        tree_outcome_text(target, mode, TreeKillOutcome::FreshConfirmationRequired)
            == "error: the processes gained warnings after --yes; rerun to confirm them"@,
        tree_outcome_text(target, mode, TreeKillOutcome::SnapshotFailed(error))
            == "error: enumerating the processes failed: "@ + sanitized(error@),
        tree_outcome_text(
            target,
            mode,
            TreeKillOutcome::ThawFailed { pids, cause: Box::new(cause) },
        ) == "error: stopped processes could not be resumed; "@ + tree_outcome_text(
            target,
            mode,
            cause,
        ),
{
    reveal_with_fuel(tree_outcome_text, 2);
}

/// The sentences about a refused set of processes.
pub proof fn law_refused_set_sentences(
    noun: Seq<char>,
    pid: u32,
    limit: usize,
    name: Option<String>,
    reason: UnsafePidReason,
)
    ensures
        preflight_text(noun, TreeKillOutcome::Truncated { limit }) == "error: process "@ + noun
            + " exceeds the "@ + decimal(limit as nat)
            + " process cap; refusing to kill a partial "@ + noun,
        preflight_text(noun, TreeKillOutcome::UnsafePid { pid, reason }) == "error: process "@
            + noun + " contains unsafe PID "@ + decimal(pid as nat) + "; refusing "@ + noun
            + " kill"@,
        preflight_text(noun, TreeKillOutcome::ProtectedDescendant { pid, name })
            == "error: process "@ + noun + " contains protected process PID "@ + decimal(pid as nat)
            + " ("@ + sanitized(or_unknown(name)) + "); refusing "@ + noun + " kill"@,
        preflight_text(noun, TreeKillOutcome::RootAlreadyExited) == "error: process "@ + noun
            + " pre-flight refused the kill"@,
{
}

/// The sentences about outcomes of a kill of one process, and about a target that was not
/// found or is not to be signalled.
pub proof fn law_kill_sentences(
    target: KillTarget,
    mode: KillMode,
    reason: UnsafePidReason,
    error: String,
    pid: u32,
    prior: TerminationOutcome,
    port: u16,
    candidates: Vec<String>,
)
    ensures
        UnsafePidReason::Zero.text() == "PID 0 addresses a whole process group"@,
        UnsafePidReason::One.text() == "PID 1 is the init process"@,
        UnsafePidReason::CurrentProcess.text() == "the PID is this program itself"@,
        outcome_text(TerminationOutcome::Success, target, mode) == "sent "@ + mode.delivery_text(
            target.platform,
        ) + " to "@ + identity_text(target),
        outcome_text(TerminationOutcome::PermissionDenied, target, mode)
            == "permission denied for "@ + identity_text(target),
        outcome_text(TerminationOutcome::OwnershipUnavailable, target, mode) == identity_text(
            target,
        ) + ": the owner of a confirmed port can no longer be read"@,
        outcome_text(TerminationOutcome::AlreadyExited, target, mode) == identity_text(target)
            + " already exited"@,
        outcome_text(TerminationOutcome::TargetChanged, target, mode) == identity_text(target)
            + " no longer owns the confirmed ports"@,
        outcome_text(TerminationOutcome::Cancelled, target, mode) == "kill cancelled"@,
        outcome_text(TerminationOutcome::ProtectedProcess, target, mode) == identity_text(target)
            + " is protected"@,
        outcome_text(TerminationOutcome::UnsafePid(reason), target, mode)
            == "unsafe PID blocked: "@ + reason.text(),
        outcome_text(TerminationOutcome::UnknownFailure(error), target, mode) == "terminating "@
            + identity_text(target) + " failed: "@ + sanitized(error@),
        outcome_text(
            TerminationOutcome::ThawFailed { pid, prior: Box::new(prior) },
            target,
            mode,
        ) == "resuming PID "@ + decimal(pid as nat) + " failed"@,
        ending_text(TerminationOutcome::Success, target, mode) == outcome_text(
            TerminationOutcome::Success,
            target,
            mode,
        ),
        ending_text(TerminationOutcome::PermissionDenied, target, mode) == "error: "@
            + outcome_text(TerminationOutcome::PermissionDenied, target, mode)
            + "; rerun with higher privileges"@,
        ending_text(TerminationOutcome::ProtectedProcess, target, mode) == "error: "@
            + outcome_text(TerminationOutcome::ProtectedProcess, target, mode)
            + "; it became protected after confirmation, so no termination was sent; rerun to confirm the protected process"@,
        target_error_text(KillTargetError::NoMatch)
            == "error: no open port matches the requested target"@,
        target_error_text(KillTargetError::MissingPid { port }) == "error: port "@ + decimal(
            port as nat,
        )
            + " is visible, but no owning PID is available; rerun with higher privileges or pass --pid when known"@,
        target_error_text(KillTargetError::AmbiguousPort { port, candidates }) == "error: port "@
            + decimal(port as nat)
            + " is owned by multiple PIDs; refusing to guess. Use --pid with one of:"@,
        target_error_text(KillTargetError::UnsafePid(reason)) == "error: unsafe PID blocked: "@
            + reason.text(),
{
}

/// The table names a target exactly where the selected row has a PID that may be signalled;
/// otherwise it says which of these is missing and changes nothing else.
pub proof fn law_targets_of_the_table(
    before: App,
    host: HostFacts,
    after: App,
    target: Option<KillTarget>,
    start: Option<int>,
)
    requires
        target_resolved(before, host, after, target, start),
    ensures
        target is Some <==> before.selected() is Some && before.rows@[before.selected()->0].pid
            is Some && unsafe_reason(before.rows@[before.selected()->0].pid->0, host) is None,
        target is Some ==> target->0.pid == before.rows@[before.selected()->0].pid->0,
        target is None ==> start is None && after.modal == before.modal && after.rows
            == before.rows,
        before.selected() is None ==> opt_text(after.kill_status) == Some(
            "no selected process to terminate"@,
        ),
        before.selected() is Some && before.rows@[before.selected()->0].pid is None ==> opt_text(
            after.kill_status,
        ) == Some("selected row has no PID; cannot terminate"@),
{
}

/// Where the ports could not be read before a kill from the table, nothing is sent and that
/// is told.
pub proof fn law_unread_ports_stop_the_table<H>(
    app: App,
    confirmed: KillTarget,
    mode: KillMode,
    host: HostFacts,
    handle: H,
    before: Seq<Operation<H>>,
    after: Seq<Operation<H>>,
    app_then: App,
    start: bool,
    error: CollectorError,
)
    requires
        after == before.push(Operation::KillPorts(Err(error))),
    ensures
        table_looked_again(app, confirmed, mode, handle, before, after, app_then, start) ==> !start
            && opt_text(app_then.kill_status) == Some(
            "collecting ports before kill failed; no termination was sent: "@ + error.text(),
        ),
        table_tree_looked_again(app, confirmed, mode, host, before, after, app_then, start)
            ==> !start && opt_text(app_then.kill_status) == Some(
            "collecting ports before tree kill failed; no termination was sent: "@ + error.text(),
        ),
{
    assert(after.len() == before.len() + 1);
    assert(after.last() == Operation::<H>::KillPorts(Err(error)));
    assert(after[before.len() as int] == Operation::<H>::KillPorts(Err(error)));
}

/// A preview that does not come to its confirmation says why.
pub proof fn law_lost_previews_are_told(
    before: App,
    worker_pid: u32,
    result: Result<ProcessTreeTarget, String>,
    host: HostFacts,
    after: App,
)
    requires
        preview_applied(before, worker_pid, result, host, after),
        before.modal is ConfirmTreeKill,
    ensures
        before.modal->ConfirmTreeKill_0.target.pid != worker_pid ==> opt_text(after.kill_status)
            == Some(
            "tree preview no longer matches the requested process; press t or T to retry"@,
        ),
        before.modal->ConfirmTreeKill_0.target.pid == worker_pid && result is Err ==> opt_text(
            after.kill_status,
        ) == Some("enumerating the process tree failed: "@ + result->Err_0@),
{
}

/// What Enter asks for where it does not yet run a tree kill.
pub proof fn law_what_enter_asks_for(
    confirmation: TreeKillConfirmation,
    verdict: TreeSubmitVerdict,
)
    requires
        submit_means(confirmation, verdict),
    ensures
        confirmation.preview is None ==> verdict is Reject && verdict->Reject_0@
            == "still enumerating the process tree; wait for the count"@,
        confirmation.preview is Some && confirmation.stage == TreeConfirmStage::Word && verdict
            is Reject && confirmation.mode == KillMode::Terminate ==> verdict->Reject_0@ == "type "@
            + "tree"@ + " and press Enter to send "@ + KillMode::Terminate.delivery_text(
            confirmation.target.platform,
        ) + " to the tree"@,
        confirmation.preview is Some && confirmation.stage == TreeConfirmStage::Word
            ==> !(verdict is AdvanceToWord),
        confirmation.stage == TreeConfirmStage::ProtectedRoot ==> !(verdict is Execute),
{
}

/// A refresh waits while a confirmation of either kind is open, and is measured from the end
/// of the last attempt.
pub proof fn law_refreshes_wait_for_confirmations(app: App, now: Duration)
    ensures
        app.modal is ConfirmKill ==> app.confirming(),
        app.modal is ConfirmTreeKill ==> app.confirming(),
        app.confirming() ==> app.modal is ConfirmKill || app.modal is ConfirmTreeKill,
        app.last_refresh_attempt.nanos <= now.nanos ==> app.since_attempt(now)
            + app.last_refresh_attempt.nanos == now.nanos,
        app.last_refresh_attempt.nanos > now.nanos ==> app.since_attempt(now) == 0,
{
}

/// All owners are in doubt where ownership raced between the passes, or within one of them.
pub proof fn law_raced_ownership_is_never_complete(pass: CollectedPass, change: PassChange)
    ensures
        overall_uncertainty(pass, change).raced <==> change.ownership
            || pass.global_owner_completeness is Raced,
        change.ownership ==> overall_uncertainty(pass, change).completeness() == Some(
            crate::evidence::OwnerCompleteness::Raced,
        ),
{
}

/// An attempt that cannot be shown has too many reasons for doubt; nothing else fails it.
pub proof fn law_settled_attempts(
    a: CollectedPass,
    b: CollectedPass,
    limits: ObservationLimits,
    r: Result<NetworkSnapshot, ObservationError>,
)
    requires
        attempt_settled(a, b, limits, r),
    ensures
        r is Err ==> r->Err_0 == ObservationError::OwnerReasonLimitExceeded,
        r is Ok ==> r->Ok_0.sockets.len() == b.rows.len(),
{
}

/// What is said of a span that is not accepted.
pub proof fn law_refused_spans(
    token: Seq<char>,
    minimum: Duration,
    maximum: Duration,
)
    ensures
        duration_of(token, minimum, maximum) is Err ==> {
            let text = duration_of(token, minimum, maximum)->Err_0;
            ||| text == "expected one unsigned integer followed by ms, s, m, h, or d"@
            ||| text == "duration value is too large"@
            ||| text == "value must be between "@ + decimal((minimum.nanos / 1_000_000) as nat)
                + "ms and "@ + decimal((maximum.nanos / 1_000_000) as nat) + "ms"@
        },
        token.len() == 0 ==> duration_of(token, minimum, maximum) == Err::<Duration, Seq<char>>(
            "expected one unsigned integer followed by ms, s, m, h, or d"@,
        ),
{
}

/// A failed clock is told as one, and an answer that is too long with its bound.
pub proof fn law_failures_of_input_and_clock(
    error: ObservationError,
    line: Seq<u8>,
    max_bytes: nat,
    r: Result<String, IoError>,
)
    requires
        answers(line, max_bytes, r),
    ensures
        clock_failure_text(error) == "wall clock failed: "@ + error.text(),
        r is Err && r->Err_0.kind == IoErrorKind::InvalidInput ==> r->Err_0.message@
            == "confirmation input exceeds the "@ + decimal(max_bytes) + "-byte limit"@,
{
}

/// A run whose numbers are used up ends as a failure that says so.
pub proof fn law_used_up_numbers_end_a_run<D: Sink>(
    failures: nat,
    from: Ledger<D>,
    end: Ledger<D>,
    r: Option<ExitReason>,
)
    requires
        gap_closed(failures, from, end, r),
        from.sequence == u64::MAX,
        end.flushed.last() is Ok,
    ensures
        r == Some(ExitReason::Failure),
        end.sequence == from.sequence,
        said(
            from.diagnostics,
            end.diagnostics,
            seq!["error: "@ + sanitized("watch sequence overflowed"@)],
        ),
{
}

/// What is told of a tree on Windows before it is ended.
pub proof fn law_windows_trees_are_warned_about()
    ensures
        windows_tree_lines(Platform::Windows) == seq![
            "Warning: Windows tree kill uses Job Object containment and hard termination; close apps normally first when possible."@,
            "Warning: Windows may also terminate newly spawned job-contained children that were not visible in this preview."@,
        ],
        windows_tree_lines(Platform::Linux).len() == 0,
        windows_tree_lines(Platform::Macos).len() == 0,
{
}

/// The group that is planned is that of the root, as the first entry of its PID has it; every
/// other member is an entry of that group.
pub proof fn law_planned_group_is_that_of_the_root(
    target: ProcessGroupTarget,
    root_pid: u32,
    snapshot: Seq<TreeProcessInfo>,
    names: Seq<String>,
    platform: Platform,
    limit: usize,
    at: int,
    k: int,
)
    requires
        is_group(target, root_pid, snapshot, names, platform, limit),
        0 <= at < snapshot.len(),
        snapshot[at].pid == root_pid,
        forall|i: int| 0 <= i < at ==> (#[trigger] snapshot[i]).pid != root_pid,
    ensures
        snapshot[at].process_group == Some(target.pgid),
        target.members.nodes@[0].pid == root_pid,
        target.members.nodes@[0].depth == 0,
        1 <= k < target.members.nodes@.len() ==> exists|j: int|
            0 <= j < snapshot.len() && (#[trigger] snapshot[j]).pid == target.members.nodes@[k].pid
                && snapshot[j].process_group == Some(target.pgid),
{
    let found = choose|found: int|
        #[trigger] first_with_pid(snapshot, root_pid, found)
            && target.members.nodes@[0].describes(snapshot[found], 0, names, platform)
            && snapshot[found].process_group == Some(target.pgid);
    assert(found == at) by {
        if found < at {
            assert(snapshot[found].pid != root_pid);
        } else if at < found {
            assert(snapshot[at].pid != root_pid);
        }
    }
    if 1 <= k < target.members.nodes@.len() {
        assert(joined(target.members.nodes@, k, target.pgid, snapshot, names, platform));
    }
}

/// After a gap a run that does not flush has run out of time to tell, and ends as a failure
/// that says so.
pub proof fn law_overflowed_polls_end_a_run<D: Sink>(
    options: &WatchOptions,
    deadline: Option<Duration>,
    told: Ledger<D>,
    end: Ending<D>,
)
    requires
        gap_followed(options, deadline, told, end),
        end.ledger.flushed == told.flushed,
    ensures
        end.reason == Some(ExitReason::Failure),
        said(
            told.diagnostics,
            end.ledger.diagnostics,
            seq!["error: "@ + sanitized("watch poll deadline overflowed"@)],
        ),
{
}

/// A process that holds no port is still the root that its PID names, as long as it runs and
/// may be signalled; where it does not run, that is told and ends as no match.
pub proof fn law_roots_without_ports<H>(
    args: KillArgs,
    config: Config,
    entries: Seq<PortEntry>,
    snapshot: Seq<TreeProcessInfo>,
    platform: Platform,
    host: HostFacts,
    before: Seq<Operation<H>>,
    after: Seq<Operation<H>>,
    r: Result<KillTarget, ExitReason>,
    lines: Seq<Seq<char>>,
)
    requires
        resolves_root(
            args,
            config,
            entries,
            snapshot,
            platform,
            host,
            before,
            after,
            r,
            lines,
        ),
        args.pid is Some,
        args.pid->0 > 1,
        args.pid->0 != host.own_pid,
        rows_of_pid(entries, args.pid->0).len() == 0,
    ensures
        after == before,
        r is Ok <==> exists|i: int|
            0 <= i < snapshot.len() && (#[trigger] snapshot[i]).pid == args.pid->0,
        r is Ok ==> r->Ok_0.pid == args.pid->0 && r->Ok_0.ports.len() == 0 && lines.len() == 0,
        r is Err ==> r->Err_0 == ExitReason::NoMatch && lines == seq![
            "error: root PID "@ + decimal(args.pid->0 as nat)
                + " is no longer running; nothing to terminate"@,
        ],
{
    let pid = args.pid->0;
    assert(unsafe_reason(pid, host) is None);
    let listed = choose|listed: Result<KillTarget, KillTargetError>| #[trigger]
        resolves_in_table(pid, snapshot, config.protected_processes@, platform, host, listed)
            && match listed {
            Ok(target) => r == Ok::<KillTarget, ExitReason>(target) && lines == Seq::<
                Seq<char>,
            >::empty(),
            Err(error) => r == Err::<KillTarget, ExitReason>(target_error_reason(error)) && lines
                == if error is NoMatch {
                seq![root_gone_text(pid)]
            } else {
                target_error_lines(error)
            },
        };
    law_root_of_the_table(
        pid,
        snapshot,
        config.protected_processes@,
        platform,
        host,
        listed,
    );
}

} // verus!
