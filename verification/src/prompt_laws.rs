//! What is asked before a kill, and what is read and told around it.

use vstd::prelude::*;
use vstd::string::*;
use vstd::utf8::{decode_utf8, encode_utf8, valid_utf8};
use crate::answer::{answers, line_answered, line_done, unframed, within_line, Input};
use crate::banner::{
    first_foreign, foreign_count, force_warning_text, group_node_line, is_foreign,
    kill_command_text, node_name, scope_command_text, tree_node_line, tree_preview_lines,
    warning_lines, warning_text, WarningScope,
};
use crate::exit::ExitReason;
use crate::model::Platform;
use crate::process::{
    identity_text, name_text, ConfirmationRequirement, HostFacts, KillMode, KillTarget,
    KillWarning,
};
use crate::prompts::{asked_for, kill_question, scope_prompted, scope_question};
use crate::scoped::{or_unknown, tree_answer, tree_reason, TreeConfirmation};
use crate::sink::{
    diagnostic_line, forgiven, handed_on, line_texts, problem_line, IoError, IoErrorKind, Sink,
};
use crate::text::{decimal, sanitized};
use crate::tree::{TreeKillOutcome, TreeNode};
use crate::windows_report::{
    cleanup_text, completed_text, issue_text, listed_pids, partial_text, report_reason,
    system_failure_lines, windows_reason, WindowsTreeCleanupIssue, WindowsTreeKillOutcome,
    WindowsTreeKillReport, WindowsTreePostCommitIssue, WindowsTreeTerminationState,
};

verus! {

/// A line break is what ends a line, with or without a carriage return before it, and it is
/// not part of the answer. Text without a line break is the answer as it is.
pub proof fn law_line_breaks_are_not_part_of_an_answer(body: Seq<u8>)
    ensures
        body.len() == 0 || body.last() != 10 ==> unframed(body) == body,
        body.len() == 0 || body.last() != 13 ==> unframed(body.push(10)) == body,
        unframed(body.push(13).push(10)) == body,
{
    assert(body.push(10).drop_last() == body);
    assert(body.push(13).push(10).drop_last() == body.push(13));
    assert(body.push(13).drop_last() == body);
}

/// A short line of text is answered with that text, whichever way it is ended.
pub proof fn law_short_text_is_the_answer(
    body: Seq<u8>,
    line: Seq<u8>,
    max_bytes: nat,
    r: Result<String, IoError>,
)
    requires
        answers(line, max_bytes, r),
        line == body.push(10) || line == body.push(13).push(10) || line == body,
        body.len() == 0 || (body.last() != 10 && body.last() != 13),
    ensures
        r is Ok <==> body.len() <= max_bytes && valid_utf8(body),
        r is Ok ==> r->Ok_0@ == decode_utf8(body),
        body.len() > max_bytes ==> r is Err && r->Err_0.kind == IoErrorKind::InvalidInput,
        body.len() <= max_bytes && !valid_utf8(body) ==> r is Err && r->Err_0.kind
            == IoErrorKind::InvalidData,
{
    law_line_breaks_are_not_part_of_an_answer(body);
}

/// Reading an answer takes no byte behind the line break, nor more than two bytes beyond the
/// limit; and it stops before them only where the source ended or failed.
pub proof fn law_reading_stays_within_a_line<B>(
    before: Input<B>,
    after: Input<B>,
    max_bytes: usize,
    r: Result<String, IoError>,
)
    requires
        line_answered(before, after, max_bytes, r),
        max_bytes + 2 <= usize::MAX,
    ensures
        before.taken@.is_prefix_of(after.taken@),
        after.taken@.len() <= before.taken@.len() + max_bytes + 2,
        forall|i: int|
            before.taken@.len() <= i < after.taken@.len() - 1 ==> #[trigger] after.taken@[i] != 10,
        after.failures@ == before.failures@ && after.ends@ == before.ends@ ==> (
        after.taken@.len() == before.taken@.len() + max_bytes + 2 || (after.taken@.len()
            > before.taken@.len() && after.taken@.last() == 10)),
        after.failures@ != before.failures@ ==> r is Err && after.failures@ == before.failures@.push(
            r->Err_0,
        ),
{
    let line = after.taken@.skip(before.taken@.len() as int);
    assert(within_line(line, (max_bytes + 2) as nat));
    assert(before.taken@ =~= after.taken@.take(before.taken@.len() as int));
    assert forall|i: int|
        before.taken@.len() <= i < after.taken@.len() - 1 implies #[trigger] after.taken@[i]
        != 10 by {
        assert(line[i - before.taken@.len()] != 10);
    }
    if r is Err {
        assert(before.failures@.push(r->Err_0).len() == before.failures@.len() + 1);
    }
    if after.failures@ == before.failures@ && after.ends@ == before.ends@ {
        assert(line_done(line, (max_bytes + 2) as nat));
    }
}

/// A question is shown before anything is read, and where it cannot be handed on nothing is
/// read and that failure is the answer.
pub proof fn law_nothing_is_read_unasked<D: Sink, B>(
    before: D,
    after: D,
    unread: Input<B>,
    read: Input<B>,
    question: Seq<char>,
    r: Result<String, IoError>,
)
    requires
        asked_for(before, after, unread, read, question, r),
    ensures
        after.flushed().len() == before.flushed().len() + 1,
        after.flushed().last() is Err ==> read == unread && r is Err && r->Err_0
            == after.flushed().last()->Err_0,
        after.refused() == before.refused() ==> after.written() == before.written() + encode_utf8(
            question,
        ),
{
}

/// The question about one process names the answer that will do: the letter, the word, or
/// what a protected process is known by.
pub proof fn law_kill_questions_name_their_answer(target: KillTarget, mode: KillMode)
    ensures
        kill_question(target, mode, ConfirmationRequirement::Yes)
            == "Type y to confirm, or press Enter to cancel: "@,
        kill_question(target, mode, ConfirmationRequirement::ForceWord)
            == "Type force to confirm "@ + mode.delivery_text(target.platform) + ": "@,
        kill_question(target, mode, ConfirmationRequirement::ProtectedProcess)
            == "Protected process: type PID "@ + decimal(target.pid as nat) + " or process name "@
            + sanitized(name_text(target)) + " to confirm: "@,
{
}

/// The question about a scope names the word and how many processes it would end, and that of
/// a protected root what it is known by.
pub proof fn law_scope_questions_name_their_answer(
    root: KillTarget,
    count: nat,
    place: Seq<char>,
    word: &'static str,
)
    ensures
        scope_question(root, count, place, TreeConfirmation::TypedWord(word)) == "Type "@ + word@
            + " to terminate all "@ + decimal(count) + " processes"@ + place
            + ", or press Enter to cancel: "@,
        scope_question(root, count, place, TreeConfirmation::ProtectedRoot)
            == "Protected root: type PID "@ + decimal(root.pid as nat) + " or process name "@
            + sanitized(name_text(root)) + " to confirm: "@,
{
}

/// A question about a scope is answered with a yes only where something was read and it is
/// the answer that was asked for; a failure is never taken for an answer.
pub proof fn law_scope_yes_was_read<D: Sink, B>(
    before: D,
    after: D,
    unread: Input<B>,
    read: Input<B>,
    root: KillTarget,
    count: nat,
    place: Seq<char>,
    requirement: TreeConfirmation,
    r: Result<bool, IoError>,
)
    requires
        scope_prompted(before, after, unread, read, root, count, place, requirement, r),
    ensures
        r is Ok ==> after.flushed().last() is Ok && read.failures@ == unread.failures@,
        after.flushed().last() is Err ==> r is Err,
        r == Ok::<bool, IoError>(true) ==> exists|text: String|
            #[trigger] tree_answer(text@, root, requirement),
        after.refused() == before.refused() ==> after.written() == before.written() + encode_utf8(
            scope_question(root, count, place, requirement),
        ),
{
    let answer = choose|answer: Result<String, IoError>|
        {
            &&& #[trigger] asked_for(
                before,
                after,
                unread,
                read,
                scope_question(root, count, place, requirement),
                answer,
            )
            &&& r == match answer {
                Ok(text) => Ok::<bool, IoError>(tree_answer(text@, root, requirement)),
                Err(error) => Err(error),
            }
        };
    if r == Ok::<bool, IoError>(true) {
        assert(tree_answer(answer->Ok_0@, root, requirement));
    }
}

/// Only a reader that has gone away is forgiven; every other failure stays one.
pub proof fn law_only_a_gone_reader_is_forgiven(result: Result<(), IoError>)
    ensures
        forgiven(result) is Err <==> result is Err && result->Err_0.kind != IoErrorKind::BrokenPipe,
        forgiven(result) is Err ==> forgiven(result) == result,
        forgiven(forgiven(result)) == forgiven(result),
{
}

/// What a command hands on is its whole text and one flush, or the start of the text and
/// none; it succeeds where neither failed, or where the reader has gone away.
pub proof fn law_handed_on_text<W: Sink>(
    before: W,
    after: W,
    bytes: Seq<u8>,
    r: Result<(), IoError>,
)
    requires
        handed_on(before, after, bytes, r),
    ensures
        after.refused() == before.refused() ==> after.written() == before.written() + bytes
            && after.flushed().len() == before.flushed().len() + 1,
        after.refused() == before.refused() && after.flushed().last() is Ok ==> r is Ok,
        after.refused() != before.refused() ==> after.flushed() == before.flushed()
            && after.refused().len() == before.refused().len() + 1,
        r is Err ==> r->Err_0.kind != IoErrorKind::BrokenPipe,
        r is Err ==> Err::<(), IoError>(r->Err_0) == after.flushed().last() || r->Err_0
            == after.refused().last(),
{
    assert(before.refused().push(after.refused().last()).len() == before.refused().len() + 1);
}

/// A problem is told as an error, without control characters, on a line of its own.
pub proof fn law_problems_are_told_on_one_line(message: Seq<char>)
    ensures
        problem_line(message) == "error: "@ + sanitized(message),
        diagnostic_line(message) == "error: "@ + sanitized(message) + "\n"@,
{
    reveal_strlit("\n");
    assert(seq!['\n'] == "\n"@);
}

/// Lines are told in their order, each as it is.
pub proof fn law_lines_are_told_as_they_are(lines: Seq<String>, i: int)
    requires
        0 <= i < lines.len(),
    ensures
        line_texts(lines).len() == lines.len(),
        line_texts(lines)[i] == lines[i]@,
{
}

/// A kill on Windows succeeds only where every process ended and nothing is left to tell, and
/// then always. What needs a confirmation after all ends as such.
pub proof fn law_windows_success_is_complete(report: WindowsTreeKillReport)
    ensures
        report_reason(report) == ExitReason::Success <==> {
            &&& report.termination_state == WindowsTreeTerminationState::Complete
            &&& report.post_commit_issue is None
            &&& report.secondary_post_commit_issue is None
            &&& report.cleanup_issue is None
        },
        report_reason(report) == ExitReason::ProtectedNeedsConfirmation <==> {
            &&& report.post_commit_issue is Some
            &&& (report.post_commit_issue->0 is ProtectedDescendant
                || report.post_commit_issue->0 is ProtectedRoot)
        },
        report_reason(report) != ExitReason::Success && report_reason(report)
            != ExitReason::ProtectedNeedsConfirmation ==> report_reason(report)
            == ExitReason::Failure,
{
}

/// A tree kill on Windows that was refused ends as the refusal does, and one that the system
/// failed ends as a failure. Where nothing was committed, a failed reading stays one.
pub proof fn law_windows_endings(
    refusal: TreeKillOutcome,
    report: WindowsTreeKillReport,
    error: String,
)
    ensures
        windows_reason(WindowsTreeKillOutcome::Refused(refusal)) == tree_reason(refusal),
        windows_reason(WindowsTreeKillOutcome::SnapshotFailed(error)) == ExitReason::Failure,
        windows_reason(
            WindowsTreeKillOutcome::JobTerminateFailed { error, report: Box::new(report) },
        ) == ExitReason::Failure,
        windows_reason(WindowsTreeKillOutcome::Completed(report)) == ExitReason::Success
            ==> report.termination_state == WindowsTreeTerminationState::Complete,
        refusal is SnapshotFailed ==> WindowsTreeKillOutcome::precommit(refusal)
            == WindowsTreeKillOutcome::SnapshotFailed(refusal->SnapshotFailed_0),
        !(refusal is SnapshotFailed) ==> WindowsTreeKillOutcome::precommit(refusal)
            == WindowsTreeKillOutcome::Refused(refusal),
{
}

/// What went wrong after the commit is told by its own sentence.
pub proof fn law_post_commit_sentences(pid: u32, name: Option<String>, error: String)
    ensures
        issue_text(WindowsTreePostCommitIssue::ProtectedDescendant { pid, name })
            == "protected descendant PID "@ + decimal(pid as nat) + " ("@ + sanitized(
            or_unknown(name),
        ) + ") appeared after commit"@,
        issue_text(WindowsTreePostCommitIssue::ProtectedRoot { pid, name }) == "root PID "@
            + decimal(pid as nat) + " ("@ + sanitized(or_unknown(name))
            + ") became protected after commit; rerun to confirm the protected process"@,
        issue_text(WindowsTreePostCommitIssue::FreshConfirmationRequired)
            == "the process tree gained warnings after --yes; rerun to confirm it"@,
        issue_text(WindowsTreePostCommitIssue::SnapshotFailed(error))
            == "enumerating the Windows process tree failed after commit: "@ + sanitized(error@),
        cleanup_text(WindowsTreeCleanupIssue::WithheldJobThawFailed(error))
            == "thawing the withheld Windows Job Object failed: "@ + sanitized(error@),
        cleanup_text(WindowsTreeCleanupIssue::FailedTerminationThawFailed(error))
            == "thawing the Windows Job Object after TerminateJobObject failed: "@ + sanitized(
            error@,
        ),
{
}

/// A list of identifiers grows by a comma and the next identifier, and holds nothing else.
pub proof fn law_identifier_lists_grow(pids: Seq<u32>, pid: u32)
    ensures
        listed_pids(Seq::empty()) == Seq::<char>::empty(),
        pids.len() == 0 ==> listed_pids(pids.push(pid)) == decimal(pid as nat),
        pids.len() > 0 ==> listed_pids(pids.push(pid)) == listed_pids(pids) + ", "@ + decimal(
            pid as nat,
        ),
{
    assert(pids.push(pid).drop_last() == pids);
}

/// A completed kill is told as terminated exactly where it is clean; otherwise as an error
/// that starts with how many of how many processes ended.
pub proof fn law_completed_kills_are_told(root: KillTarget, report: WindowsTreeKillReport)
    ensures
        report_reason(report) == ExitReason::Success ==> completed_text(root, report)
            == "terminated "@ + decimal(report.total as nat) + " process(es) of the tree of "@
            + identity_text(root),
        report_reason(report) != ExitReason::Success ==> completed_text(root, report) == "error: "@
            + partial_text(root, report),
        ("job-terminated "@ + decimal(report.job_terminated_pids.len() as nat) + " of "@ + decimal(
            report.total as nat,
        ) + " processes of the tree of "@ + identity_text(root)).is_prefix_of(
            partial_text(root, report),
        ),
        report.job_terminated_pids.len() == 0 && report.already_exited_pids.len() == 0
            && report.not_terminated.len() == 0 && report.clean() ==> partial_text(root, report)
            == "job-terminated "@ + decimal(0) + " of "@ + decimal(report.total as nat)
            + " processes of the tree of "@ + identity_text(root),
{
    let head = "job-terminated "@ + decimal(report.job_terminated_pids.len() as nat) + " of "@
        + decimal(report.total as nat) + " processes of the tree of "@ + identity_text(root);
    let text = partial_text(root, report);
    assert(head =~= text.take(head.len() as int));
}

/// A report that did not close the tree says so at its end, before what could not be undone;
/// and it lists exactly those that ended, had ended and did not end.
pub proof fn law_partial_reports_tell_everything(root: KillTarget, report: WindowsTreeKillReport)
    requires
        report.job_terminated_pids.len() > 0,
        report.already_exited_pids.len() > 0,
        report.not_terminated.len() > 0,
        report.termination_state != WindowsTreeTerminationState::Complete,
        report.post_commit_issue is Some,
        report.secondary_post_commit_issue is Some,
        report.cleanup_issue is Some,
    ensures
        partial_text(root, report) == "job-terminated "@ + decimal(
            report.job_terminated_pids.len() as nat,
        ) + " of "@ + decimal(report.total as nat) + " processes of the tree of "@ + identity_text(
            root,
        ) + " (PIDs: "@ + listed_pids(report.job_terminated_pids@) + ")"@ + "; "@ + decimal(
            report.already_exited_pids.len() as nat,
        ) + " already exited (PIDs: "@ + listed_pids(report.already_exited_pids@) + ")"@
            + "; not confirmed terminated: "@ + listed_pids(report.not_terminated@)
            + "; post-commit issue: "@ + issue_text(report.post_commit_issue->0)
            + "; secondary post-commit issue: "@ + issue_text(
            report.secondary_post_commit_issue->0,
        ) + "; strict tree closure could not be established"@ + "; cleanup issue: "@ + cleanup_text(
            report.cleanup_issue->0,
        ),
{
    let a = "job-terminated "@ + decimal(report.job_terminated_pids.len() as nat) + " of "@
        + decimal(report.total as nat) + " processes of the tree of "@ + identity_text(root);
    lemma_three(a, " (PIDs: "@, listed_pids(report.job_terminated_pids@), ")"@);
    let b = a + " (PIDs: "@ + listed_pids(report.job_terminated_pids@) + ")"@;
    let n = decimal(report.already_exited_pids.len() as nat);
    lemma_three(b, "; "@, n, " already exited (PIDs: "@);
    let b1 = b + "; "@ + n + " already exited (PIDs: "@;
    lemma_three(
        b,
        "; "@ + n + " already exited (PIDs: "@,
        listed_pids(report.already_exited_pids@),
        ")"@,
    );
    let c = b1 + listed_pids(report.already_exited_pids@) + ")"@;
    lemma_three(c, "; not confirmed terminated: "@, listed_pids(report.not_terminated@), ""@);
    lemma_two(c, "; not confirmed terminated: "@, listed_pids(report.not_terminated@));
    let d = c + "; not confirmed terminated: "@ + listed_pids(report.not_terminated@);
    lemma_two(d, "; post-commit issue: "@, issue_text(report.post_commit_issue->0));
    let e = d + "; post-commit issue: "@ + issue_text(report.post_commit_issue->0);
    lemma_two(
        e,
        "; secondary post-commit issue: "@,
        issue_text(report.secondary_post_commit_issue->0),
    );
    let f = e + "; secondary post-commit issue: "@ + issue_text(
        report.secondary_post_commit_issue->0,
    ) + "; strict tree closure could not be established"@;
    lemma_two(f, "; cleanup issue: "@, cleanup_text(report.cleanup_issue->0));
}

proof fn lemma_two(a: Seq<char>, b: Seq<char>, c: Seq<char>)
    ensures
        a + (b + c) == a + b + c,
{
    assert(a + (b + c) =~= a + b + c);
}

proof fn lemma_three(a: Seq<char>, b: Seq<char>, c: Seq<char>, d: Seq<char>)
    ensures
        a + (b + c + d) == a + b + c + d,
{
    assert(a + (b + c + d) =~= a + b + c + d);
}

/// Each warning is about its own subject and tells its own facts.
pub proof fn law_warning_sentences(
    scope: WarningScope,
    owner_uid: u32,
    user_id: u32,
    count: usize,
)
    ensures
        warning_text(KillWarning::PartialMetadata, scope) == "some facts about "@
            + scope.subject_text() + " could not be read"@,
        warning_text(KillWarning::SystemProcess, scope) == scope.subject_text()
            + " looks like a system service"@,
        warning_text(KillWarning::OtherOwner { owner_uid, user_id }, scope)
            == scope.subject_text() + " is owned by uid "@ + decimal(owner_uid as nat)
            + ", current effective uid is "@ + decimal(user_id as nat),
        warning_text(KillWarning::HasChildren { count, truncated: true }, scope)
            == scope.subject_text() + " has "@ + "at least "@ + decimal(count as nat)
            + " child process(es)"@,
        warning_text(KillWarning::HasChildren { count, truncated: false }, scope)
            == scope.subject_text() + " has "@ + decimal(count as nat) + " child process(es)"@,
        WarningScope::Process.subject_text() == "the process"@,
        WarningScope::Tree.subject_text() == "the tree root"@,
        WarningScope::Group.subject_text() == "the group target"@,
{
    assert(scope.subject_text() + " has "@ + Seq::<char>::empty() =~= scope.subject_text()
        + " has "@);
}

/// The lines about warnings are one for each warning, in their order.
pub proof fn law_one_line_for_each_warning(
    warnings: Seq<KillWarning>,
    scope: WarningScope,
    i: int,
)
    requires
        0 <= i < warnings.len(),
    ensures
        warning_lines(warnings, scope).len() == warnings.len(),
        warning_lines(warnings, scope)[i] == "Warning: "@ + sanitized(
            warning_text(warnings[i], scope),
        ) + "."@,
{
}

/// The command that is shown ends the process that is meant, and forces it exactly where the
/// kill does.
pub proof fn law_shown_commands(platform: Platform, pid: u32, flag: Seq<char>)
    ensures
        kill_command_text(Platform::Windows, pid, KillMode::Terminate) == "taskkill /PID "@
            + decimal(pid as nat),
        kill_command_text(Platform::Windows, pid, KillMode::Force) == "taskkill /PID "@ + decimal(
            pid as nat,
        ) + " /F"@,
        platform != Platform::Windows ==> kill_command_text(platform, pid, KillMode::Terminate)
            == "kill -TERM "@ + decimal(pid as nat),
        platform != Platform::Windows ==> kill_command_text(platform, pid, KillMode::Force)
            == "kill -KILL "@ + decimal(pid as nat),
        scope_command_text(pid, flag, KillMode::Terminate) == "kick kill --pid "@ + decimal(
            pid as nat,
        ) + flag,
        scope_command_text(pid, flag, KillMode::Force) == "kick kill --pid "@ + decimal(pid as nat)
            + flag + " --force"@,
        force_warning_text(KillMode::Terminate, platform) is None,
        force_warning_text(KillMode::Force, platform) == Some(
            KillMode::Force.delivery_text(platform)
                + " cannot be handled; unsaved work may be lost."@,
        ),
{
    let shown = "taskkill /PID "@ + decimal(pid as nat);
    assert(shown + Seq::<char>::empty() =~= shown);
    let command = "kick kill --pid "@ + decimal(pid as nat) + flag;
    assert(command + Seq::<char>::empty() =~= command);
}

/// A process is foreign exactly where its owner is known and is another user. The count grows
/// by one with each foreign process and by none otherwise, and the first one stays the first.
pub proof fn law_foreign_processes_are_counted(
    nodes: Seq<TreeNode>,
    node: TreeNode,
    host: HostFacts,
)
    ensures
        is_foreign(node, host) <==> node.owner_uid is Some && node.owner_uid != Some(host.user_id),
        foreign_count(Seq::empty(), host) == 0,
        node.owner_uid is Some && node.owner_uid != Some(host.user_id) ==> foreign_count(
            nodes.push(node),
            host,
        ) == foreign_count(nodes, host) + 1,
        node.owner_uid is None || node.owner_uid == Some(host.user_id) ==> foreign_count(
            nodes.push(node),
            host,
        ) == foreign_count(nodes, host),
        first_foreign(nodes, host) is Some ==> first_foreign(nodes.push(node), host)
            == first_foreign(nodes, host),
        first_foreign(nodes, host) is None && node.owner_uid is Some && node.owner_uid != Some(
            host.user_id,
        ) ==> first_foreign(nodes.push(node), host) == Some(node),
{
    assert(nodes.push(node).drop_last() == nodes);
}

/// A process in a preview is shown by its identifier and name; in a tree two blanks further
/// for each step from the root, in a group with a mark on the one that was confirmed.
pub proof fn law_preview_lines(node: TreeNode, deeper: TreeNode)
    requires
        deeper == (TreeNode { depth: deeper.depth, ..node }),
        deeper.depth == node.depth + 1,
    ensures
        tree_node_line(deeper) == "  "@ + tree_node_line(node),
        node.depth == 0 ==> tree_node_line(node) == "  "@ + "PID "@ + decimal(node.pid as nat)
            + " ("@ + sanitized(node_name(node)) + ")"@,
        node.depth == 0 ==> group_node_line(node) == "  PID "@ + decimal(node.pid as nat) + " ("@
            + sanitized(node_name(node)) + ")"@ + " [confirmed target]"@,
        group_node_line(deeper) == "  PID "@ + decimal(node.pid as nat) + " ("@ + sanitized(
            node_name(node),
        ) + ")"@,
        node.process_name matches Some(name) ==> node_name(node) == name@,
        node.process_name is None ==> node_name(node) == "<unknown>"@,
{
    reveal_strlit("  ");
    assert(tree_node_line(deeper) =~= "  "@ + tree_node_line(node));
    if node.depth == 0 {
        assert(Seq::new(2nat, |i: int| ' ') =~= "  "@);
    }
    let line = "  PID "@ + decimal(node.pid as nat) + " ("@ + sanitized(node_name(node)) + ")"@;
    assert(line + Seq::<char>::empty() =~= line);
}

/// A preview of a tree shows at most a dozen processes, the first ones in their order, and
/// how many more there are.
pub proof fn law_tree_previews(nodes: Seq<TreeNode>, i: int)
    ensures
        nodes.len() <= 12 ==> tree_preview_lines(nodes).len() == nodes.len(),
        nodes.len() > 12 ==> tree_preview_lines(nodes).len() == 13 && tree_preview_lines(
            nodes,
        ).last() == "  ... and "@ + decimal((nodes.len() - 12) as nat) + " more"@,
        0 <= i < nodes.len() && i < 12 ==> tree_preview_lines(nodes)[i] == tree_node_line(nodes[i]),
{
}

/// A failure of the system is told as one; only where a job already held the processes does
/// the report on them follow.
pub proof fn law_system_failures_are_told<H>(
    root: KillTarget,
    error: String,
    before: Seq<crate::operations::Operation<H>>,
    after: Seq<crate::operations::Operation<H>>,
    lines: Seq<Seq<char>>,
)
    requires
        system_failure_lines(
            root,
            WindowsTreeKillOutcome::SnapshotFailed(error),
            before,
            after,
            lines,
        ),
    ensures
        after == before,
        lines.len() == 1,
        lines[0] == "error: enumerating the Windows process tree failed: "@ + sanitized(error@),
{
}

} // verus!
