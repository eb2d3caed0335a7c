//! What confirms a kill, what is never killed, and what makes a process the same one.

use vstd::prelude::*;
use vstd::string::*;
use vstd::utf8::encode_utf8;
use crate::model::{PermissionStatus, Platform};
use crate::ports::{marked_rows, system_process, PortEntry, ProcessContext};
use crate::process::{
    confirms, delivery_evidence, first_marker, first_name, identity_text, is_blank, outcome_text,
    accepts, name_text, requirement_of, revalidates, right_trimmed, rows_of_pid,
    system_row, tells_gap, trimmed, unsafe_reason, ConfirmationRequirement, HostFacts, KillMode,
    KillTarget, KillTargetPort, KillWarning, TerminationOutcome, UnsafePidReason,
};
use crate::protection::{file_name, name_matches, opt_bytes, protected_process};
use crate::text::{decimal, lowercase, opt_text, sanitized};

verus! {

/// An answer without blanks around it confirms by being the thing that is asked for: `y` in
/// either case, the word `force`, or the PID or the name of the process.
pub proof fn law_answers_are_literal(input: Seq<char>, target: KillTarget)
    requires
        input.len() > 0,
        input[0] != ' ' && input[0] != '\t' && input[0] != '\r' && input[0] != '\n',
        input.last() != ' ' && input.last() != '\t' && input.last() != '\r' && input.last()
            != '\n',
    ensures
        confirms(input, target, ConfirmationRequirement::Yes) <==> input == seq!['y'] || input
            == seq!['Y'],
        confirms(input, target, ConfirmationRequirement::ForceWord) <==> input == seq![
            'f',
            'o',
            'r',
            'c',
            'e',
        ],
        confirms(input, target, ConfirmationRequirement::ProtectedProcess) <==> input == decimal(
            target.pid as nat,
        ) || (target.process_name is Some && target.process_name->0@ == input),
{
    reveal_strlit("y");
    reveal_strlit("Y");
    reveal_strlit("force");
    assert("y"@ =~= seq!['y']);
    assert("Y"@ =~= seq!['Y']);
    assert("force"@ =~= seq!['f', 'o', 'r', 'c', 'e']);
}

/// Nothing is confirmed by an empty answer, unless the process has an empty name.
pub proof fn law_empty_answer_confirms_nothing(
    target: KillTarget,
    requirement: ConfirmationRequirement,
)
    requires
        target.process_name is Some ==> target.process_name->0@.len() > 0,
    ensures
        !confirms(Seq::empty(), target, requirement),
{
    reveal_strlit("y");
    reveal_strlit("Y");
    reveal_strlit("force");
    assert(trimmed(Seq::empty()) =~= Seq::empty());
    assert(decimal(target.pid as nat).len() > 0);
}

/// A space, tab or line break in front of or behind an answer does not matter.
pub proof fn law_blanks_around_an_answer_do_not_matter(
    input: Seq<char>,
    blank: char,
    target: KillTarget,
    requirement: ConfirmationRequirement,
)
    requires
        blank == ' ' || blank == '\t' || blank == '\r' || blank == '\n',
    ensures
        confirms(seq![blank] + input, target, requirement) == confirms(input, target, requirement),
        confirms(input.push(blank), target, requirement) == confirms(input, target, requirement),
{
    assert((seq![blank] + input).drop_first() =~= input);
    lemma_trimmed_behind(input, blank);
}

proof fn lemma_trimmed_behind(input: Seq<char>, blank: char)
    requires
        is_blank(blank),
    ensures
        trimmed(input.push(blank)) == trimmed(input),
    decreases input.len(),
{
    let longer = input.push(blank);
    if input.len() == 0 {
        assert(longer.drop_first() =~= input);
        assert(trimmed(longer) == trimmed(longer.drop_first()));
    } else if is_blank(input[0]) {
        assert(longer.drop_first() =~= input.drop_first().push(blank));
        lemma_trimmed_behind(input.drop_first(), blank);
    } else {
        assert(longer.drop_last() =~= input);
        assert(right_trimmed(longer) == right_trimmed(input));
    }
}

/// `--yes` stands for a yes alone: not for a protected process, which it may not end, and
/// not for the word of a forced kill, where that is asked for. Without it something is
/// always asked for.
pub proof fn law_yes_stands_for_a_yes_alone(
    protected: bool,
    mode: KillMode,
    yes: bool,
    confirm_force_kill: bool,
)
    ensures
        requirement_of(protected, mode, yes, confirm_force_kill) is Err <==> protected && yes,
        protected && yes ==> requirement_of(protected, mode, yes, confirm_force_kill)->Err_0
            is ProtectedProcess,
        requirement_of(protected, mode, yes, confirm_force_kill) == Ok::<
            Option<ConfirmationRequirement>,
            TerminationOutcome,
        >(None) <==> yes && !protected && !(mode == KillMode::Force && confirm_force_kill),
        requirement_of(protected, mode, false, confirm_force_kill) is Ok && requirement_of(
            protected,
            mode,
            false,
            confirm_force_kill,
        )->Ok_0 is Some,
        protected ==> requirement_of(protected, mode, false, confirm_force_kill)->Ok_0
            == Some(ConfirmationRequirement::ProtectedProcess),
        !protected ==> (requirement_of(protected, mode, false, confirm_force_kill)->Ok_0
            == Some(ConfirmationRequirement::ForceWord) <==> mode == KillMode::Force
            && confirm_force_kill),
{
}

/// Exactly PID 0, PID 1 and this program are never signalled.
pub proof fn law_three_processes_are_never_signalled(pid: u32, host: HostFacts)
    ensures
        unsafe_reason(pid, host) is None <==> pid > 1 && pid != host.own_pid,
{
}

/// What a target says of its rows grows with the rows: one more row can add a warning sign
/// and never take one away, and it adds its endpoint behind the others. What an earlier row
/// named or dated stays.
pub proof fn law_target_grows_with_its_rows(
    pid: u32,
    rows: Seq<&PortEntry>,
    row: &PortEntry,
    context: Option<&ProcessContext>,
    fewer: KillTarget,
    more: KillTarget,
)
    requires
        rows.len() > 0,
        fewer.tells(pid, rows, context),
        more.tells(pid, rows.push(row), context),
    ensures
        more.pid == pid && fewer.pid == pid,
        more.platform == fewer.platform,
        more.protected <==> fewer.protected || row.protected,
        more.permission is Partial <==> fewer.permission is Partial || row.permission is Partial,
        more.system_process <==> fewer.system_process || system_row(*row),
        more.ports.len() == fewer.ports.len() + 1,
        more.ports@.last().local_port == row.local_port,
        more.ports@.last().local_addr == row.local_addr,
        more.ports@.last().protocol == row.protocol,
        more.ports@.last().ipv6_scope == row.ipv6_scope,
        forall|i: int| 0 <= i < fewer.ports.len() ==> more.ports@[i] == #[trigger] fewer.ports@[i],
        fewer.process_name is Some ==> opt_text(more.process_name) == opt_text(fewer.process_name),
        fewer.process_name is None ==> opt_text(more.process_name) == opt_text(row.process_name),
        fewer.process_start_time_marker is Some ==> more.process_start_time_marker
            == fewer.process_start_time_marker,
        more.owner_uid == fewer.owner_uid,
        more.child_count == fewer.child_count,
{
    let all = rows.push(row);
    assert(all.drop_last() =~= rows);
    assert(all.last() == row);
    assert(forall|i: int| 0 <= i < rows.len() ==> all[i] == #[trigger] rows[i]);
    assert(all[rows.len() as int] == row);
}

/// A target of one row is that row: its platform, mark, endpoint and name, and its start
/// where the row is of the PID.
pub proof fn law_target_of_one_row(
    pid: u32,
    row: &PortEntry,
    context: Option<&ProcessContext>,
    target: KillTarget,
)
    requires
        target.tells(pid, seq![row], context),
    ensures
        target.platform == row.platform,
        target.protected == row.protected,
        target.permission == row.permission,
        target.system_process == system_process(
            row.platform,
            opt_text(row.process_name),
            opt_text(row.parent_process_name),
        ),
        opt_text(target.process_name) == opt_text(row.process_name),
        target.ports.len() == 1,
        target.ports@[0].local_port == row.local_port,
        row.process_identity is Some && row.process_identity->0.pid == pid
            ==> target.process_start_time_marker == Some(row.process_identity->0.start_marker),
        row.process_identity is None || row.process_identity->0.pid != pid
            ==> target.process_start_time_marker is None,
        context matches Some(facts) ==> target.owner_uid == facts.owner_uid && target.child_count
            == facts.children.children.len() && target.children_truncated
            == facts.children.truncated,
        context is None ==> target.owner_uid is None && target.child_count == 0,
{
    let rows = seq![row];
    reveal_with_fuel(first_name, 2);
    reveal_with_fuel(first_marker, 2);
    assert(rows.drop_last() =~= Seq::empty());
    assert(rows[0] == row);
    if row.permission is Partial {
        assert(rows[0].permission == PermissionStatus::Partial);
    }
}

/// A target that is found again is the same process by its PID and its start, goes by the
/// name that was confirmed if one was, holds every endpoint that was confirmed, and did not
/// become protected. No confirmed endpoint is there with its owner hidden.
pub proof fn law_found_again_by_pid_start_name_and_ports(
    confirmed: KillTarget,
    rows: Seq<PortEntry>,
    context: Option<&ProcessContext>,
    fresh: KillTarget,
    i: int,
)
    requires
        revalidates(confirmed, rows, context, Ok(fresh)),
    ensures
        fresh.pid == confirmed.pid,
        fresh.process_start_time_marker == confirmed.process_start_time_marker,
        confirmed.process_name is Some ==> fresh.process_name is Some && fresh.process_name->0@
            == confirmed.process_name->0@,
        0 <= i < confirmed.ports.len() ==> fresh.ports@.contains(confirmed.ports@[i]),
        fresh.protected ==> confirmed.protected,
        0 <= i < rows.len() && rows[i].pid is None ==> !confirmed.ports@.contains(
            KillTargetPort {
                protocol: rows[i].protocol,
                local_addr: rows[i].local_addr,
                local_port: rows[i].local_port,
                ipv6_scope: rows[i].ipv6_scope,
            },
        ),
{
    if 0 <= i < rows.len() && rows[i].pid is None {
        assert(KillTargetPort::of(rows[i]) == (KillTargetPort {
            protocol: rows[i].protocol,
            local_addr: rows[i].local_addr,
            local_port: rows[i].local_port,
            ipv6_scope: rows[i].ipv6_scope,
        }));
    }
    if 0 <= i < confirmed.ports.len() {
        assert(fresh.ports@.contains(confirmed.ports@[i]));
    }
}

/// A target that is refused at the second look is refused for a reason that holds: an owner
/// that is hidden, a process that is gone or another one, or protection that is new.
pub proof fn law_refused_again_for_a_reason(
    confirmed: KillTarget,
    rows: Seq<PortEntry>,
    context: Option<&ProcessContext>,
    outcome: TerminationOutcome,
)
    requires
        revalidates(confirmed, rows, context, Err(outcome)),
    ensures
        outcome is OwnershipUnavailable || outcome is TargetChanged || outcome
            is ProtectedProcess,
        outcome is OwnershipUnavailable <==> exists|i: int|
            0 <= i < rows.len() && (#[trigger] rows[i]).pid is None && confirmed.ports@.contains(
                KillTargetPort::of(rows[i]),
            ),
        outcome is ProtectedProcess ==> !confirmed.protected && exists|i: int|
            0 <= i < rows.len() && (#[trigger] rows[i]).pid == Some(confirmed.pid)
                && rows[i].protected,
{
    if outcome is ProtectedProcess {
        let own = rows_of_pid(rows, confirmed.pid);
        let fresh = choose|fresh: KillTarget|
            #[trigger] fresh.tells(confirmed.pid, own, context) && accepts(
                confirmed,
                fresh,
                Err(outcome),
            );
        let k = choose|k: int| 0 <= k < own.len() && (#[trigger] own[k]).protected;
        lemma_row_of_pid_is_a_row(rows, confirmed.pid, k);
    }
}

proof fn lemma_row_of_pid_is_a_row(rows: Seq<PortEntry>, pid: u32, k: int)
    requires
        0 <= k < rows_of_pid(rows, pid).len(),
    ensures
        exists|i: int|
            0 <= i < rows.len() && #[trigger] rows[i] == *rows_of_pid(rows, pid)[k] && rows[i].pid
                == Some(pid),
    decreases rows.len(),
{
    if rows.len() > 0 {
        let shorter = rows.drop_last();
        let head = rows_of_pid(shorter, pid);
        if k < head.len() {
            lemma_row_of_pid_is_a_row(shorter, pid, k);
            let i = choose|i: int|
                0 <= i < shorter.len() && #[trigger] shorter[i] == *head[k] && shorter[i].pid
                    == Some(pid);
            assert(rows[i] == *rows_of_pid(rows, pid)[k]);
        } else {
            assert(rows[rows.len() - 1] == *rows_of_pid(rows, pid)[k]);
        }
    }
}

/// Rows that were read again and say what the confirmed target says let it pass.
pub proof fn law_unchanged_target_is_found_again(
    confirmed: KillTarget,
    rows: Seq<PortEntry>,
    context: Option<&ProcessContext>,
    r: Result<KillTarget, TerminationOutcome>,
)
    requires
        revalidates(confirmed, rows, context, r),
        rows_of_pid(rows, confirmed.pid).len() > 0,
        confirmed.tells(confirmed.pid, rows_of_pid(rows, confirmed.pid), context),
        forall|i: int| 0 <= i < rows.len() ==> (#[trigger] rows[i]).pid is Some,
    ensures
        r is Ok,
{
    let own = rows_of_pid(rows, confirmed.pid);
    let fresh = choose|fresh: KillTarget|
        #[trigger] fresh.tells(confirmed.pid, own, context) && accepts(
            confirmed,
            fresh,
            r,
        );
    assert(fresh.ports@ == confirmed.ports@);
    assert forall|i: int| 0 <= i < confirmed.ports.len() implies fresh.ports@.contains(
        #[trigger] confirmed.ports@[i],
    ) by {
        assert(fresh.ports@[i] == confirmed.ports@[i]);
    }
}

/// A signal rests on the confirmed PID and on a known name and start; what is missing of
/// these is told, in this order.
pub proof fn law_signal_rests_on_pid_name_and_start(
    confirmed: KillTarget,
    fresh: KillTarget,
    outcome: TerminationOutcome,
)
    ensures
        delivery_evidence(confirmed, fresh) <==> fresh.pid == confirmed.pid && fresh.process_name
            is Some && fresh.process_start_time_marker is Some,
        tells_gap(outcome, confirmed, fresh) ==> outcome is UnknownFailure,
        tells_gap(outcome, confirmed, fresh) && fresh.pid == confirmed.pid && fresh.process_name
            is None ==> outcome->UnknownFailure_0@ == "the process name could not be read again"@,
        tells_gap(outcome, confirmed, fresh) && fresh.pid == confirmed.pid && fresh.process_name
            is Some ==> outcome->UnknownFailure_0@
            == "the process start time could not be read again"@,
        tells_gap(outcome, confirmed, fresh) && fresh.pid != confirmed.pid
            ==> outcome->UnknownFailure_0@ == "the confirmed port now belongs to another process"@,
{
}

/// Each warning about a target is there exactly for its cause.
pub proof fn law_warnings_have_their_causes(target: KillTarget, host: HostFacts)
    ensures
        target.warned(host).contains(KillWarning::PartialMetadata) <==> target.permission
            is Partial,
        target.warned(host).contains(KillWarning::SystemProcess) <==> target.system_process,
        (exists|i: int|
            0 <= i < target.warned(host).len() && (#[trigger] target.warned(host)[i])
                is OtherOwner) <==> target.owner_uid is Some && target.owner_uid->0
            != host.user_id,
        (exists|i: int|
            0 <= i < target.warned(host).len() && (#[trigger] target.warned(host)[i])
                is HasChildren) <==> target.child_count > 0,
        target.warned(host).len() == 0 <==> target.permission is Full && !target.system_process
            && (target.owner_uid is None || target.owner_uid == Some(host.user_id))
            && target.child_count == 0,
{
    let partial = if target.permission == PermissionStatus::Partial {
        seq![KillWarning::PartialMetadata]
    } else {
        Seq::empty()
    };
    let system = if target.system_process {
        seq![KillWarning::SystemProcess]
    } else {
        Seq::empty()
    };
    let other = if target.owner_uid is Some && target.owner_uid->0 != host.user_id {
        seq![KillWarning::OtherOwner { owner_uid: target.owner_uid->0, user_id: host.user_id }]
    } else {
        Seq::empty()
    };
    let children = if target.child_count > 0 {
        seq![
            KillWarning::HasChildren {
                count: target.child_count,
                truncated: target.children_truncated,
            },
        ]
    } else {
        Seq::empty()
    };
    let all = partial + system + other + children;
    assert(target.warned(host) =~= all);
    if target.permission is Partial {
        assert(all[0] == KillWarning::PartialMetadata);
    }
    if target.system_process {
        assert(all[partial.len() as int] == KillWarning::SystemProcess);
    }
    if target.owner_uid is Some && target.owner_uid->0 != host.user_id {
        assert(all[(partial + system).len() as int] is OtherOwner);
    }
    if target.child_count > 0 {
        assert(all[(partial + system + other).len() as int] is HasChildren);
    }
}

/// A forced kill is told apart from an ordinary one where the system does: by the signal on
/// Linux and macOS. Windows knows one way to end a process.
pub proof fn law_signals_are_told_by_name(platform: Platform)
    ensures
        platform == Platform::Windows ==> KillMode::Terminate.delivery_text(platform)
            == "TerminateProcess"@ && KillMode::Force.delivery_text(platform)
            == "TerminateProcess"@,
        platform != Platform::Windows ==> KillMode::Terminate.delivery_text(platform)
            == "SIGTERM"@ && KillMode::Force.delivery_text(platform) == "SIGKILL"@,
{
}

/// Only a success is told as something that was sent, and it is told with the signal and
/// the process it went to.
pub proof fn law_only_a_success_was_sent(
    outcome: TerminationOutcome,
    target: KillTarget,
    mode: KillMode,
)
    ensures
        "sent "@.is_prefix_of(outcome_text(outcome, target, mode)) <==> outcome is Success,
        outcome is Success ==> outcome_text(outcome, target, mode) == "sent "@
            + mode.delivery_text(target.platform) + " to "@ + identity_text(target),
{
    let text = outcome_text(outcome, target, mode);
    reveal_strlit("sent ");
    reveal_strlit("permission denied for ");
    reveal_strlit("PID ");
    reveal_strlit("kill cancelled");
    reveal_strlit("unsafe PID blocked: ");
    reveal_strlit("terminating ");
    reveal_strlit("resuming PID ");
    if outcome is Success {
        assert(text =~= "sent "@ + (mode.delivery_text(target.platform) + " to "@
            + identity_text(target)));
    } else {
        assert(text[0] != 's');
        assert("sent "@[0] == 's');
    }
}

/// The sentence about an outcome tells what came of the attempt.
pub proof fn law_outcomes_are_told_apart(
    target: KillTarget,
    mode: KillMode,
    reason: UnsafePidReason,
    error: String,
)
    ensures
        outcome_text(TerminationOutcome::AlreadyExited, target, mode) == identity_text(target)
            + " already exited"@,
        outcome_text(TerminationOutcome::TargetChanged, target, mode) == identity_text(target)
            + " no longer owns the confirmed ports"@,
        outcome_text(TerminationOutcome::ProtectedProcess, target, mode) == identity_text(target)
            + " is protected"@,
        outcome_text(TerminationOutcome::OwnershipUnavailable, target, mode) == identity_text(
            target,
        ) + ": the owner of a confirmed port can no longer be read"@,
        outcome_text(TerminationOutcome::Cancelled, target, mode) == "kill cancelled"@,
        outcome_text(TerminationOutcome::PermissionDenied, target, mode)
            == "permission denied for "@ + identity_text(target),
        "unsafe PID blocked: "@.is_prefix_of(
            outcome_text(TerminationOutcome::UnsafePid(reason), target, mode),
        ),
        ("terminating "@ + identity_text(target) + " failed: "@).is_prefix_of(
            outcome_text(TerminationOutcome::UnknownFailure(error), target, mode),
        ),
        ("PID "@ + decimal(target.pid as nat) + " ("@).is_prefix_of(identity_text(target)),
{
    assert("unsafe PID blocked: "@.is_prefix_of("unsafe PID blocked: "@ + reason.text()));
    let head = "terminating "@ + identity_text(target) + " failed: "@;
    assert(head.is_prefix_of(head + sanitized(error@)));
    let start = "PID "@ + decimal(target.pid as nat) + " ("@;
    let rest = sanitized(name_text(target)) + ")"@;
    assert(identity_text(target) =~= start + rest);
    assert(start.is_prefix_of(start + rest));
}

/// On Linux a process is protected exactly by its whole name, as it is written. On Windows
/// case does not matter. On macOS the file name of its executable protects it as well.
pub proof fn law_what_protects_a_process(
    name: Option<Seq<char>>,
    path: Option<Seq<u8>>,
    names: Seq<String>,
)
    ensures
        protected_process(Platform::Linux, name, path, names) <==> name is Some && exists|i: int|
            0 <= i < names.len() && (#[trigger] names[i])@ == name->0,
        protected_process(Platform::Windows, name, path, names) <==> name is Some && exists|i: int|
            0 <= i < names.len() && lowercase((#[trigger] names[i])@)
                == lowercase(name->0),
        protected_process(Platform::Macos, name, path, names) <==> {
            ||| name is Some && exists|i: int| 0 <= i < names.len() && (#[trigger] names[i])@
                == name->0
            ||| path is Some && exists|i: int|
                0 <= i < names.len() && encode_utf8((#[trigger] names[i])@) == file_name(path->0)
        },
{
    if name is Some {
        if exists|i: int| 0 <= i < names.len() && (#[trigger] names[i])@ == name->0 {
            let i = choose|i: int| 0 <= i < names.len() && (#[trigger] names[i])@ == name->0;
            assert(name_matches(Platform::Linux, names[i]@, name->0));
            assert(name_matches(Platform::Macos, names[i]@, name->0));
        }
        if exists|i: int|
            0 <= i < names.len() && lowercase((#[trigger] names[i])@)
                == lowercase(name->0) {
            let i = choose|i: int|
                0 <= i < names.len() && lowercase((#[trigger] names[i])@)
                    == lowercase(name->0);
            assert(name_matches(Platform::Windows, names[i]@, name->0));
        }
    }
}

/// The file name of a path is what stands behind its last slash.
pub proof fn law_file_name_is_behind_the_last_slash(directory: Seq<u8>, file: Seq<u8>)
    requires
        !file.contains(47u8),
    ensures
        file_name(directory.push(47u8) + file) == file,
        file_name(file) == file,
    decreases file.len(),
{
    let path = directory.push(47u8) + file;
    if file.len() == 0 {
        assert(path =~= directory.push(47u8));
    } else {
        let shorter = file.drop_last();
        assert(!shorter.contains(47u8)) by {
            if shorter.contains(47u8) {
                let i = choose|i: int| 0 <= i < shorter.len() && shorter[i] == 47u8;
                assert(file[i] == 47u8);
            }
        }
        law_file_name_is_behind_the_last_slash(directory, shorter);
        assert(file.last() != 47u8) by {
            assert(file[file.len() - 1] == file.last());
        }
        assert(path.drop_last() =~= directory.push(47u8) + shorter);
        assert(path.last() == file.last());
        assert(shorter.push(file.last()) =~= file);
    }
}

/// Marking adds protection to rows by the list of names and takes none away; it changes
/// nothing else, and marking twice is marking once.
pub proof fn law_marking_only_adds_protection(rows: Seq<PortEntry>, names: Seq<String>, i: int)
    requires
        0 <= i < rows.len(),
    ensures
        marked_rows(rows, names).len() == rows.len(),
        rows[i].protected ==> marked_rows(rows, names)[i].protected,
        protected_process(
            rows[i].platform,
            opt_text(rows[i].process_name),
            opt_bytes(rows[i].executable_path),
            names,
        ) ==> marked_rows(rows, names)[i].protected,
        marked_rows(rows, names)[i].protected ==> rows[i].protected || names.len() > 0,
        marked_rows(rows, names)[i] == (PortEntry {
            protected: marked_rows(rows, names)[i].protected,
            ..rows[i]
        }),
        marked_rows(marked_rows(rows, names), names) == marked_rows(rows, names),
{
    assert(marked_rows(marked_rows(rows, names), names) =~= marked_rows(rows, names));
}

/// A process of the system is a service manager of its platform or, on Windows alone, what
/// a service manager started.
pub proof fn law_system_processes(
    platform: Platform,
    name: Option<Seq<char>>,
    parent: Option<Seq<char>>,
)
    ensures
        name is None && parent is None ==> !system_process(platform, name, parent),
        platform != Platform::Windows ==> system_process(platform, name, parent) == system_process(
            platform,
            name,
            None,
        ),
        platform == Platform::Windows && parent == Some("services.exe"@) ==> system_process(
            platform,
            name,
            parent,
        ),
        system_process(Platform::Linux, name, None) <==> name == Some("systemd"@) || name == Some(
            "init"@,
        ) || name == Some("kthreadd"@),
        system_process(Platform::Macos, name, None) <==> name == Some("launchd"@) || name == Some(
            "kernel_task"@,
        ),
        system_process(Platform::Windows, name, None) <==> name == Some("services.exe"@) || name
            == Some("wininit.exe"@) || name == Some("lsass.exe"@) || name == Some("System"@),
{
}

} // verus!
