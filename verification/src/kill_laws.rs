//! What the kill of one process from the command line comes to.

use vstd::prelude::*;
use vstd::string::*;
use crate::banner::{kill_banner_lines, kill_command_text, WarningScope};
use crate::collector::CollectorError;
use crate::config::Config;
use crate::exit::ExitReason;
use crate::kill::{
    answered, asked, candidate_text, collection_refusal, delivered, ending_lines, ending_text,
    held, judged, killed, look_finds, looks_settle, outcome_reason, prepared, resolves,
    revalidated, rows_on_port, settle_pause, settled, some_hidden, status_text, target_error_lines,
    target_error_reason, target_error_text, uncollected_reason, KillArgs, KillTargetError,
    PostKillPortsStatus,
};
use crate::operations::Operation;
use crate::ports::PortEntry;
use crate::process::{
    identity_text, outcome_text, requirement_of, rows_of_pid, HostFacts, KillMode, KillTarget,
    KillTargetPort, TerminationOutcome,
};
use crate::sink::IoError;
use crate::text::{decimal, sanitized};

verus! {

/// The force of a kill is that of its arguments.
pub proof fn law_force_means_force(force: bool)
    ensures
        KillMode::of_force(force) == KillMode::Force <==> force,
        KillMode::of_force(force) == KillMode::Terminate <==> !force,
{
}

proof fn lemma_rows_on_port_are_rows(rows: Seq<PortEntry>, port: u16, k: int)
    requires
        0 <= k < rows_on_port(rows, port).len(),
    ensures
        exists|i: int|
            0 <= i < rows.len() && #[trigger] rows[i] == *rows_on_port(rows, port)[k]
                && rows[i].local_port == port,
    decreases rows.len(),
{
    if rows.len() > 0 {
        let shorter = rows.drop_last();
        let head = rows_on_port(shorter, port);
        if k < head.len() {
            lemma_rows_on_port_are_rows(shorter, port, k);
            let i = choose|i: int|
                0 <= i < shorter.len() && #[trigger] shorter[i] == *head[k]
                    && shorter[i].local_port == port;
            assert(rows[i] == *rows_on_port(rows, port)[k]);
        } else {
            assert(rows[rows.len() - 1] == *rows_on_port(rows, port)[k]);
        }
    }
}

proof fn lemma_every_row_on_port(rows: Seq<PortEntry>, port: u16, i: int)
    requires
        0 <= i < rows.len(),
        rows[i].local_port == port,
    ensures
        exists|k: int|
            0 <= k < rows_on_port(rows, port).len() && *#[trigger] rows_on_port(rows, port)[k]
                == rows[i],
    decreases rows.len(),
{
    let all = rows_on_port(rows, port);
    let shorter = rows.drop_last();
    let head = rows_on_port(shorter, port);
    if i < shorter.len() {
        lemma_every_row_on_port(shorter, port, i);
        let k = choose|k: int| 0 <= k < head.len() && *#[trigger] head[k] == shorter[i];
        assert(*all[k] == rows[i]);
    } else {
        assert(*all[all.len() - 1] == rows[i]);
    }
}

proof fn lemma_row_of_pid_found(rows: Seq<PortEntry>, pid: u32, i: int)
    requires
        0 <= i < rows.len(),
        rows[i].pid == Some(pid),
    ensures
        rows_of_pid(rows, pid).len() > 0,
    decreases rows.len(),
{
    if i < rows.len() - 1 {
        lemma_row_of_pid_found(rows.drop_last(), pid, i);
    }
}

proof fn lemma_rows_of_pid_are_rows(rows: Seq<PortEntry>, pid: u32)
    requires
        rows_of_pid(rows, pid).len() > 0,
    ensures
        exists|i: int| 0 <= i < rows.len() && (#[trigger] rows[i]).pid == Some(pid),
    decreases rows.len(),
{
    if rows.len() > 0 {
        if rows.last().pid == Some(pid) {
            assert(rows[rows.len() - 1].pid == Some(pid));
        } else {
            lemma_rows_of_pid_are_rows(rows.drop_last(), pid);
            let i = choose|i: int|
                0 <= i < rows.drop_last().len() && (#[trigger] rows.drop_last()[i]).pid == Some(
                    pid,
                );
            assert(rows[i].pid == Some(pid));
        }
    }
}

/// A target named by its PID is that PID, if some row is of it and it may be signalled at
/// all. PID 0, PID 1 and this program are refused as such, and a PID without a row as no
/// match.
pub proof fn law_pid_resolves_to_itself<H>(
    args: KillArgs,
    entries: Seq<PortEntry>,
    host: HostFacts,
    before: Seq<Operation<H>>,
    after: Seq<Operation<H>>,
    r: Result<KillTarget, KillTargetError>,
)
    requires
        args.pid is Some,
        resolves(args, entries, host, before, after, r),
    ensures
        r is Ok ==> r->Ok_0.pid == args.pid->0,
        r is Ok <==> args.pid->0 > 1 && args.pid->0 != host.own_pid && exists|i: int|
            0 <= i < entries.len() && (#[trigger] entries[i]).pid == args.pid,
        r is Err ==> r->Err_0 is UnsafePid || r->Err_0 is NoMatch,
        r is Err && r->Err_0 is UnsafePid <==> args.pid->0 <= 1 || args.pid->0 == host.own_pid,
{
    let pid = args.pid->0;
    if rows_of_pid(entries, pid).len() > 0 {
        lemma_rows_of_pid_are_rows(entries, pid);
    }
    if exists|i: int| 0 <= i < entries.len() && (#[trigger] entries[i]).pid == args.pid {
        let i = choose|i: int| 0 <= i < entries.len() && (#[trigger] entries[i]).pid == args.pid;
        lemma_row_of_pid_found(entries, pid, i);
    }
}

/// A target named by its port is the one process that every row on the port is of.
pub proof fn law_port_resolves_to_its_only_owner<H>(
    args: KillArgs,
    entries: Seq<PortEntry>,
    host: HostFacts,
    before: Seq<Operation<H>>,
    after: Seq<Operation<H>>,
    target: KillTarget,
    i: int,
)
    requires
        args.pid is None,
        args.port is Some,
        resolves(args, entries, host, before, after, Ok(target)),
        0 <= i < entries.len(),
        entries[i].local_port == args.port->0,
    ensures
        entries[i].pid == Some(target.pid),
        target.pid > 1 && target.pid != host.own_pid,
{
    let own = rows_on_port(entries, args.port->0);
    lemma_every_row_on_port(entries, args.port->0, i);
    let k = choose|k: int| 0 <= k < own.len() && *#[trigger] own[k] == entries[i];
    assert(own[k].pid == own[0].pid);
}

/// A port without rows is no match, one with an owner that is hidden says so, and one with
/// two owners is ambiguous; each of these is told only of such a port.
pub proof fn law_port_is_refused_for_a_reason<H>(
    args: KillArgs,
    entries: Seq<PortEntry>,
    host: HostFacts,
    before: Seq<Operation<H>>,
    after: Seq<Operation<H>>,
    r: Result<KillTarget, KillTargetError>,
)
    requires
        args.pid is None,
        args.port is Some,
        resolves(args, entries, host, before, after, r),
    ensures
        r is Err && r->Err_0 is NoMatch <==> !exists|i: int|
            0 <= i < entries.len() && (#[trigger] entries[i]).local_port == args.port->0,
        r is Err && r->Err_0 is MissingPid <==> exists|i: int|
            0 <= i < entries.len() && (#[trigger] entries[i]).local_port == args.port->0
                && entries[i].pid is None,
        r is Err && r->Err_0 is AmbiguousPort ==> exists|i: int, j: int|
            0 <= i < entries.len() && 0 <= j < entries.len() && (#[trigger] entries[i]).local_port
                == args.port->0 && (#[trigger] entries[j]).local_port == args.port->0
                && entries[i].pid is Some && entries[j].pid is Some && entries[i].pid
                != entries[j].pid,
        r is Err && r->Err_0 is MissingPid ==> r->Err_0->MissingPid_port == args.port->0,
        r is Err && r->Err_0 is AmbiguousPort ==> r->Err_0->AmbiguousPort_port == args.port->0,
{
    let port = args.port->0;
    let own = rows_on_port(entries, port);
    if own.len() > 0 {
        lemma_rows_on_port_are_rows(entries, port, 0);
    }
    if exists|i: int| 0 <= i < entries.len() && (#[trigger] entries[i]).local_port == port {
        let i = choose|i: int|
            0 <= i < entries.len() && (#[trigger] entries[i]).local_port == port;
        lemma_every_row_on_port(entries, port, i);
    }
    if some_hidden(own) {
        let k = choose|k: int| 0 <= k < own.len() && (#[trigger] own[k]).pid is None;
        lemma_rows_on_port_are_rows(entries, port, k);
    }
    if exists|i: int|
        0 <= i < entries.len() && (#[trigger] entries[i]).local_port == port && entries[i].pid
            is None {
        let i = choose|i: int|
            0 <= i < entries.len() && (#[trigger] entries[i]).local_port == port && entries[i].pid
                is None;
        lemma_every_row_on_port(entries, port, i);
        let k = choose|k: int| 0 <= k < own.len() && *#[trigger] own[k] == entries[i];
        assert(own[k].pid is None);
    }
    if r is Err && r->Err_0 is AmbiguousPort {
        let k = choose|k: int| 0 <= k < own.len() && (#[trigger] own[k]).pid != own[0].pid;
        lemma_rows_on_port_are_rows(entries, port, 0);
        lemma_rows_on_port_are_rows(entries, port, k);
        assert(own[0].pid is Some && own[k].pid is Some);
        let i = choose|i: int|
            0 <= i < entries.len() && #[trigger] entries[i] == *own[0] && entries[i].local_port
                == port;
        let j = choose|j: int|
            0 <= j < entries.len() && #[trigger] entries[j] == *own[k] && entries[j].local_port
                == port;
        assert(entries[i].pid != entries[j].pid);
    }
}

/// Two owners that are both known make a port ambiguous, whatever else is on it that is
/// known.
pub proof fn law_two_owners_are_never_guessed_between<H>(
    args: KillArgs,
    entries: Seq<PortEntry>,
    host: HostFacts,
    before: Seq<Operation<H>>,
    after: Seq<Operation<H>>,
    r: Result<KillTarget, KillTargetError>,
    i: int,
    j: int,
)
    requires
        args.pid is None,
        args.port is Some,
        resolves(args, entries, host, before, after, r),
        0 <= i < entries.len() && 0 <= j < entries.len(),
        entries[i].local_port == args.port->0 && entries[j].local_port == args.port->0,
        entries[i].pid != entries[j].pid,
    ensures
        r is Err,
        after == before,
{
    let own = rows_on_port(entries, args.port->0);
    lemma_every_row_on_port(entries, args.port->0, i);
    lemma_every_row_on_port(entries, args.port->0, j);
    let a = choose|k: int| 0 <= k < own.len() && *#[trigger] own[k] == entries[i];
    let b = choose|k: int| 0 <= k < own.len() && *#[trigger] own[k] == entries[j];
    assert(own[a].pid != own[b].pid);
}

/// The candidates of an ambiguous port are each told with their PID, protocol and endpoint.
pub proof fn law_candidates_are_told_by_pid(row: PortEntry)
    requires
        row.pid is Some,
    ensures
        ("PID "@ + decimal(row.pid->0 as nat) + " ("@).is_prefix_of(candidate_text(row)),
{
    let head = "PID "@ + decimal(row.pid->0 as nat) + " ("@;
    let name = sanitized(
        match row.process_name {
            Some(name) => name@,
            None => "<unknown>"@,
        },
    );
    let rest = name + ") "@ + row.protocol.label_text() + " "@ + crate::model::endpoint_text(
        row.local_addr,
        row.local_port,
        row.ipv6_scope,
    );
    assert(candidate_text(row) =~= head + rest);
    assert(head.is_prefix_of(head + rest));
}

/// Which exit tells what of a target that was not found.
pub proof fn law_exits_of_unresolved_targets(error: KillTargetError)
    ensures
        target_error_reason(error) == ExitReason::NoMatch <==> error is NoMatch,
        target_error_reason(error) == ExitReason::PermissionDenied <==> error is MissingPid,
        target_error_reason(error) == ExitReason::Failure <==> error is AmbiguousPort || error
            is UnsafePid,
        "error: "@.is_prefix_of(target_error_text(error)),
        target_error_lines(error).len() >= 1,
        target_error_lines(error)[0] == target_error_text(error),
        !(error is AmbiguousPort) ==> target_error_lines(error).len() == 1,
        error is AmbiguousPort ==> target_error_lines(error).len()
            == error->AmbiguousPort_candidates.len() + 1,
{
    reveal_strlit("error: ");
    reveal_strlit("error: port ");
    reveal_strlit("error: unsafe PID blocked: ");
    reveal_strlit("error: no open port matches the requested target");
    let text = target_error_text(error);
    assert("error: "@ =~= text.take(7));
}

/// Which exit tells what of an attempt: success is success alone; a refusal of permission or
/// a hidden owner is permission denied; a process that is gone or changed is no match.
pub proof fn law_exits_of_outcomes(outcome: TerminationOutcome)
    ensures
        outcome_reason(outcome) == ExitReason::Success <==> outcome is Success,
        outcome_reason(outcome) == ExitReason::PermissionDenied <==> outcome is PermissionDenied
            || outcome is OwnershipUnavailable,
        outcome_reason(outcome) == ExitReason::NoMatch <==> outcome is AlreadyExited || outcome
            is TargetChanged,
        outcome_reason(outcome) == ExitReason::KillCancelled <==> outcome is Cancelled,
        outcome_reason(outcome) == ExitReason::ProtectedNeedsConfirmation <==> outcome
            is ProtectedProcess,
        outcome_reason(outcome) == ExitReason::Failure <==> outcome is UnsafePid || outcome
            is UnknownFailure || outcome is ThawFailed,
{
}

/// Everything but a success, an exit that came first and a cancelled kill is told as an
/// error, and a refusal of permission with what to do about it.
pub proof fn law_endings_are_errors_or_not(
    outcome: TerminationOutcome,
    target: KillTarget,
    mode: KillMode,
)
    ensures
        "error: "@.is_prefix_of(ending_text(outcome, target, mode)) <==> !(outcome is Success
            || outcome is AlreadyExited || outcome is Cancelled),
        outcome is Success || outcome is AlreadyExited || outcome is Cancelled ==> ending_text(
            outcome,
            target,
            mode,
        ) == outcome_text(outcome, target, mode),
        outcome is PermissionDenied ==> ending_text(outcome, target, mode) == "error: "@
            + outcome_text(outcome, target, mode) + "; rerun with higher privileges"@,
{
    reveal_strlit("error: ");
    reveal_strlit("sent ");
    reveal_strlit("PID ");
    reveal_strlit("kill cancelled");
    let text = ending_text(outcome, target, mode);
    if outcome is Success || outcome is AlreadyExited || outcome is Cancelled {
        assert(text[0] != 'e');
        assert("error: "@[0] == 'e');
    } else {
        assert("error: "@ =~= text.take(7));
    }
}

/// A second look at a target hands on what the first would have refused, and lets the
/// target through only as the process that was confirmed, with name and start where a
/// single process is to be signalled.
pub proof fn law_second_look(
    confirmed: KillTarget,
    resolved: Result<KillTarget, KillTargetError>,
    single: bool,
    r: Result<KillTarget, TerminationOutcome>,
)
    requires
        judged(confirmed, resolved, single, r),
    ensures
        r is Ok ==> resolved == Ok::<KillTarget, KillTargetError>(r->Ok_0),
        r is Ok ==> r->Ok_0.pid == confirmed.pid && r->Ok_0.process_start_time_marker
            == confirmed.process_start_time_marker,
        r is Ok ==> (r->Ok_0.protected ==> confirmed.protected),
        r is Ok && single ==> r->Ok_0.process_name is Some && r->Ok_0.process_start_time_marker
            is Some,
        resolved is Err && resolved->Err_0 is MissingPid ==> r is Err && r->Err_0
            is OwnershipUnavailable,
        resolved is Err && (resolved->Err_0 is NoMatch || resolved->Err_0 is AmbiguousPort) ==> r
            is Err && r->Err_0 is TargetChanged,
        resolved is Err && resolved->Err_0 is UnsafePid ==> r is Err && r->Err_0 is UnsafePid,
        r is Err ==> !(r->Err_0 is Success) && !(r->Err_0 is Cancelled),
{
}

/// Ports that could not be read before a kill refuse it, and are told as what they are.
pub proof fn law_unread_ports_refuse_a_kill(error: CollectorError, outcome: TerminationOutcome)
    requires
        collection_refusal(error, outcome),
    ensures
        error is OwnershipPermissionDenied <==> outcome is OwnershipUnavailable,
        outcome is OwnershipUnavailable || outcome is UnknownFailure,
        outcome is UnknownFailure ==> outcome->UnknownFailure_0@
            == "collecting ports before kill failed: "@ + error.text(),
        outcome_reason(outcome) == uncollected_reason(error),
{
}

/// After a kill its ports are looked at up to ten times, a tenth of a second apart, until
/// none of them is there any more: by protocol, address, port and interface.
pub proof fn law_ports_are_awaited<H>(
    ports: Seq<KillTargetPort>,
    before: Seq<Operation<H>>,
    after: Seq<Operation<H>>,
    status: PostKillPortsStatus,
)
    requires
        settled(ports, before, after, status),
    ensures
        exists|looks: Seq<Result<Vec<PortEntry>, CollectorError>>|
            {
                &&& 1 <= looks.len() <= 10
                &&& #[trigger] looks_settle(ports, looks, status)
                &&& forall|i: int|
                    0 <= i < looks.len() - 1 ==> (#[trigger] looks[i]) is Ok && exists|k: int|
                        0 <= k < looks[i]->Ok_0.len() && ports.contains(
                            KillTargetPort::of(#[trigger] looks[i]->Ok_0@[k]),
                        )
                &&& status is Cleared ==> looks.last() is Ok && forall|k: int|
                    0 <= k < looks.last()->Ok_0.len() ==> !ports.contains(
                        KillTargetPort::of(#[trigger] looks.last()->Ok_0@[k]),
                    )
                &&& status is StillVisible ==> looks.len() == 10 && looks.last() is Ok
                    && exists|k: int|
                    0 <= k < looks.last()->Ok_0.len() && ports.contains(
                        KillTargetPort::of(#[trigger] looks.last()->Ok_0@[k]),
                    )
                &&& status is RefreshFailed <==> looks.last() is Err
            },
        settle_pause().nanos == 100_000_000,
{
    let looks = choose|looks: Seq<Result<Vec<PortEntry>, CollectorError>>|
        #[trigger] looks_settle(ports, looks, status) && after == crate::kill::looks_made(
            before,
            looks,
        );
    assert forall|i: int| 0 <= i < looks.len() - 1 implies (#[trigger] looks[i]) is Ok
        && exists|k: int|
        0 <= k < looks[i]->Ok_0.len() && ports.contains(
            KillTargetPort::of(#[trigger] looks[i]->Ok_0@[k]),
        ) by {
        assert(look_finds(ports, looks[i]));
    }
}

/// The endpoint of a row is its protocol, address, port and interface: rows that agree in
/// these are one endpoint, and rows that differ in one are not.
pub proof fn law_endpoints_are_told_apart(a: PortEntry, b: PortEntry)
    ensures
        KillTargetPort::of(a) == KillTargetPort::of(b) <==> a.protocol == b.protocol
            && a.local_addr == b.local_addr && a.local_port == b.local_port && a.ipv6_scope
            == b.ipv6_scope,
{
}

/// Only ports that are gone are told without a warning.
pub proof fn law_remaining_ports_are_a_warning(status: PostKillPortsStatus)
    ensures
        "warning: "@.is_prefix_of(status_text(status)) <==> !(status is Cleared),
        status is Cleared ==> status_text(status) == "confirmed target ports are no longer visible"@,
{
    reveal_strlit("warning: ");
    reveal_strlit("confirmed target ports are no longer visible");
    reveal_strlit(
        "warning: one or more confirmed ports are still visible after termination; another process may own them or shutdown may still be completing",
    );
    reveal_strlit(
        "warning: collecting ports after termination failed; refresh manually to verify the port disappeared: ",
    );
    let text = status_text(status);
    if status is Cleared {
        assert(text[0] == 'c');
        assert("warning: "@[0] == 'w');
    } else {
        assert("warning: "@ =~= text.take(9));
    }
}

/// A kill that exits as a success sent its signal, with the force that was asked for, and
/// the signal succeeded. (A handle that is refused by a success is left out.)
#[verifier::rlimit(30)]
pub proof fn law_success_means_a_signal_succeeded<H>(
    args: KillArgs,
    config: Config,
    entries: Seq<PortEntry>,
    host: HostFacts,
    before: Seq<Operation<H>>,
    after: Seq<Operation<H>>,
    lines: Seq<Seq<char>>,
)
    requires
        args.wf(),
        killed(args, config, entries, host, before, after, ExitReason::Success, lines),
        forall|i: int|
            before.len() <= i < after.len() ==> !((#[trigger] after[i]) matches Operation::Prepared(
                _,
                Err(TerminationOutcome::Success),
            )),
    ensures
        exists|i: int|
            before.len() <= i < after.len() && ((#[trigger] after[i]) matches Operation::Signalled(
                _,
                target,
                names,
                mode,
                outcome,
            ) && outcome is Success && names == config.protected_processes && (mode
                == KillMode::Force <==> args.force) && (args.pid is Some ==> args.pid == Some(
                target.pid,
            ))),
{
    let mode = KillMode::of_force(args.force);
    let names = config.protected_processes;
    let r = ExitReason::Success;
    let (found, resolved) = choose|
        found: Result<KillTarget, KillTargetError>,
        resolved: Seq<Operation<H>>,
    |
        #[trigger] resolves(args, entries, host, before, resolved, found) && match found {
            Err(error) => after == resolved && r == target_error_reason(error) && lines
                == target_error_lines(error),
            Ok(target) => asked(args, config, host, target, resolved, after, r, lines),
        };
    assert(before.is_prefix_of(resolved));
    let target = found->Ok_0;
    let banner = kill_banner_lines(target, mode, host);
    let rest = lines.skip(banner.len() as int);
    let requirement = requirement_of(target.protected, mode, args.yes, config.confirm_force_kill);
    let confirmed = if requirement->Ok_0 is None {
        resolved
    } else {
        let answer = choose|answer: Result<bool, IoError>|
            #[trigger] answered(
                args,
                config,
                host,
                target,
                answer,
                resolved.push(Operation::Asked(target, mode, requirement->Ok_0->0, answer)),
                after,
                r,
                lines,
            );
        resolved.push(Operation::Asked(target, mode, requirement->Ok_0->0, answer))
    };
    assert(prepared(args, config, host, target, confirmed, after, r, rest));
    let handle = choose|handle: Result<H, TerminationOutcome>|
        #[trigger] held(
            args,
            config,
            host,
            target,
            handle,
            confirmed.push(Operation::Prepared(target.pid, handle)),
            after,
            r,
            rest,
        );
    let ready = confirmed.push(Operation::Prepared(target.pid, handle));
    if handle is Err {
        assert(after == ready);
        assert(after[confirmed.len() as int] == Operation::Prepared(target.pid, handle));
        assert(false);
    }
    let (fresh, aside, now) = choose|
        fresh: Result<KillTarget, TerminationOutcome>,
        aside: Seq<Seq<char>>,
        now: Seq<Operation<H>>,
    |
        #[trigger] revalidated(args, config, target, host, true, ready, now, fresh, aside)
            && match fresh {
            Err(outcome) => after == now && r == outcome_reason(outcome) && rest == aside + seq![
                ending_text(outcome, target, mode),
            ],
            Ok(fresh) => delivered(handle->Ok_0, fresh, names, mode, now, after, r, rest),
        };
    crate::kill::lemma_look_signals_nothing(
        args,
        config,
        target,
        host,
        true,
        ready,
        now,
        fresh,
        aside,
    );
    lemma_refused_look_is_no_success(args, config, target, host, ready, now, fresh, aside);
    let outcome = choose|outcome: TerminationOutcome|
        r == outcome_reason(outcome) && #[trigger] ending_lines(
            fresh->Ok_0,
            mode,
            outcome,
            now.push(Operation::Signalled(handle->Ok_0, fresh->Ok_0, names, mode, outcome)),
            after,
            rest,
        );
    let sent = now.push(Operation::Signalled(handle->Ok_0, fresh->Ok_0, names, mode, outcome));
    crate::kill::lemma_ports_signal_nothing(
        fresh->Ok_0.ports@,
        sent,
        after,
        seq![ending_text(outcome, fresh->Ok_0, mode)],
        rest,
    );
    crate::kill::law_found_again_is_the_confirmed_target(
        args,
        config,
        target,
        host,
        true,
        ready,
        now,
        fresh->Ok_0,
        aside,
    );
    assert(after[now.len() as int] == sent[now.len() as int]);
    assert(now.len() >= before.len());
}

proof fn lemma_refused_look_is_no_success<H>(
    args: KillArgs,
    config: Config,
    confirmed: KillTarget,
    host: HostFacts,
    before: Seq<Operation<H>>,
    after: Seq<Operation<H>>,
    r: Result<KillTarget, TerminationOutcome>,
    aside: Seq<Seq<char>>,
)
    requires
        revalidated(args, config, confirmed, host, true, before, after, r, aside),
    ensures
        r is Err ==> !(r->Err_0 is Success),
        r is Ok ==> r->Ok_0.pid == confirmed.pid,
{
}

/// A kill that its user declined or whose answer could not be read sends nothing and looks
/// at nothing more.
pub proof fn law_declined_kill_goes_no_further<H>(
    args: KillArgs,
    config: Config,
    host: HostFacts,
    target: KillTarget,
    answer: Result<bool, IoError>,
    before: Seq<Operation<H>>,
    after: Seq<Operation<H>>,
    r: ExitReason,
    lines: Seq<Seq<char>>,
)
    requires
        answered(args, config, host, target, answer, before, after, r, lines),
        answer != Ok::<bool, IoError>(true),
    ensures
        after == before,
        answer is Ok ==> r == ExitReason::KillCancelled,
        answer is Err ==> r == ExitReason::Failure,
        answer is Ok ==> lines.last() == "kill cancelled"@,
{
}

/// What is shown of a process before its kill: what is done to it first, then its scope, its
/// ports and the command that does the same; a forced kill with its warning, and one line
/// for each warning about the process.
pub proof fn law_banner_of_a_kill(target: KillTarget, mode: KillMode, host: HostFacts)
    ensures
        kill_banner_lines(target, mode, host).len() == 4 + (if mode == KillMode::Force {
            1int
        } else {
            0
        }) + target.warned(host).len(),
        kill_banner_lines(target, mode, host)[0] == (if mode == KillMode::Force {
            "Force kill"@
        } else {
            "Terminate"@
        }) + " "@ + identity_text(target),
        kill_banner_lines(target, mode, host)[1] == "Scope: process"@,
        "Ports: "@.is_prefix_of(kill_banner_lines(target, mode, host)[2]),
        "Command: "@.is_prefix_of(kill_banner_lines(target, mode, host)[3]),
        forall|i: int|
            4 <= i < kill_banner_lines(target, mode, host).len() ==> "Warning: "@.is_prefix_of(
                #[trigger] kill_banner_lines(target, mode, host)[i],
            ),
{
    let lines = kill_banner_lines(target, mode, host);
    let ports = if target.ports.len() == 0 {
        "-"@
    } else {
        crate::process::joined_ports(target.ports@)
    };
    assert("Ports: "@.is_prefix_of("Ports: "@ + sanitized(ports)));
    assert("Command: "@.is_prefix_of(
        "Command: "@ + sanitized(kill_command_text(target.platform, target.pid, mode)),
    ));
    assert forall|i: int| 4 <= i < lines.len() implies "Warning: "@.is_prefix_of(
        #[trigger] lines[i],
    ) by {
        let forced = crate::banner::force_lines(mode, target.platform);
        if i < 4 + forced.len() {
            assert(lines[i] == forced[i - 4]);
            assert("Warning: "@.is_prefix_of(
                "Warning: "@ + sanitized(
                    crate::banner::force_warning_text(mode, target.platform)->0,
                ),
            ));
        } else {
            let warnings = target.warned(host);
            let k = i - 4 - forced.len();
            let text = sanitized(
                crate::banner::warning_text(warnings[k], WarningScope::Process),
            );
            assert(lines[i] == "Warning: "@ + text + "."@);
            assert(lines[i] =~= "Warning: "@ + (text + "."@));
            assert("Warning: "@.is_prefix_of("Warning: "@ + (text + "."@)));
        }
    }
}

/// The command that is shown ends the process that is asked about, with the force that is.
pub proof fn law_shown_command_does_the_same(pid: u32, mode: KillMode)
    ensures
        kill_command_text(crate::model::Platform::Windows, pid, mode) == "taskkill /PID "@
            + decimal(pid as nat) + (if mode == KillMode::Force {
            " /F"@
        } else {
            Seq::empty()
        }),
        kill_command_text(crate::model::Platform::Linux, pid, mode) == kill_command_text(
            crate::model::Platform::Macos,
            pid,
            mode,
        ),
        kill_command_text(crate::model::Platform::Linux, pid, mode) == (if mode
            == KillMode::Force {
            "kill -KILL "@
        } else {
            "kill -TERM "@
        }) + decimal(pid as nat),
{
}

} // verus!
