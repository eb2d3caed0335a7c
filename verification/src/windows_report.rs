//! How a tree kill through a Windows Job Object ended, and how that is told.

use vstd::prelude::*;
use vstd::string::*;
use crate::exit::ExitReason;
use crate::kill::{print_post_kill_refresh_status, then_ports};
use crate::operations::{Operation, Recorded, WatchesPorts};
use crate::process::{identity_text, KillMode, KillTarget};
use crate::scoped::{
    about_pid, or_unknown, report_scope_outcome, scope_ending_lines, shown_name, tree_reason,
};
use crate::sink::{lemma_said_more, said, write_line, Sink};
use crate::text::{decimal, decimal_text, sanitize, sanitized};
use crate::tree::TreeKillOutcome;

verus! {

/// How much of a committed Job Object was terminated.
#[derive(Debug, Clone, Copy, PartialEq, Eq, Structural)]
pub enum WindowsTreeTerminationState {
    Complete,
    Partial,
    Withheld,
}

/// What went wrong after the Job Object held the processes.
#[derive(Debug, PartialEq, Eq)]
pub enum WindowsTreePostCommitIssue {
    ProtectedDescendant { pid: u32, name: Option<String> },
    ProtectedRoot { pid: u32, name: Option<String> },
    FreshConfirmationRequired,
    SnapshotFailed(String),
}

/// What could not be undone at the end.
#[derive(Debug, PartialEq, Eq)]
pub enum WindowsTreeCleanupIssue {
    WithheldJobThawFailed(String),
    FailedTerminationThawFailed(String),
}

/// What became of each process of a committed tree kill.
#[derive(Debug, PartialEq, Eq)]
pub struct WindowsTreeKillReport {
    pub total: usize,
    pub job_terminated_pids: Vec<u32>,
    pub already_exited_pids: Vec<u32>,
    pub not_terminated: Vec<u32>,
    pub termination_state: WindowsTreeTerminationState,
    pub post_commit_issue: Option<WindowsTreePostCommitIssue>,
    pub secondary_post_commit_issue: Option<WindowsTreePostCommitIssue>,
    pub cleanup_issue: Option<WindowsTreeCleanupIssue>,
}

/// How a tree kill ended.
#[derive(Debug, PartialEq, Eq)]
pub enum WindowsTreeKillOutcome {
    /// Nothing was committed.
    Refused(TreeKillOutcome),
    /// The Job Object was terminated, at least in part.
    Completed(WindowsTreeKillReport),
    /// The Job Object held the processes and could not be terminated.
    JobTerminateFailed { error: String, report: Box<WindowsTreeKillReport> },
    /// The process table could not be read.
    SnapshotFailed(String),
}

impl WindowsTreeKillOutcome {
    pub open spec fn precommit(outcome: TreeKillOutcome) -> WindowsTreeKillOutcome {
        match outcome {
            TreeKillOutcome::SnapshotFailed(error) => WindowsTreeKillOutcome::SnapshotFailed(error),
            _ => WindowsTreeKillOutcome::Refused(outcome),
        }
    }

    /// The outcome of a kill that ended before anything was committed.
    pub fn from_precommit_outcome(outcome: TreeKillOutcome) -> (r: WindowsTreeKillOutcome)
        ensures
            r == WindowsTreeKillOutcome::precommit(outcome),
    {
        match outcome {
            TreeKillOutcome::SnapshotFailed(error) => WindowsTreeKillOutcome::SnapshotFailed(error),
            _ => WindowsTreeKillOutcome::Refused(outcome),
        }
    }

    /// The outcome of a kill whose process table could not be read.
    pub fn snapshot_failed(error: String) -> (r: WindowsTreeKillOutcome)
        ensures
            r == WindowsTreeKillOutcome::SnapshotFailed(error),
    {
        WindowsTreeKillOutcome::SnapshotFailed(error)
    }
}

/// The sentence about an issue after the commit.
pub open spec fn issue_text(issue: WindowsTreePostCommitIssue) -> Seq<char> {
    match issue {
        WindowsTreePostCommitIssue::ProtectedDescendant { pid, name } =>
            "protected descendant PID "@ + decimal(pid as nat) + " ("@ + sanitized(or_unknown(name))
            + ") appeared after commit"@,
        WindowsTreePostCommitIssue::ProtectedRoot { pid, name } => "root PID "@ + decimal(
            pid as nat,
        ) + " ("@ + sanitized(or_unknown(name))
            + ") became protected after commit; rerun to confirm the protected process"@,
        WindowsTreePostCommitIssue::FreshConfirmationRequired =>
            "the process tree gained warnings after --yes; rerun to confirm it"@,
        WindowsTreePostCommitIssue::SnapshotFailed(error) =>
            "enumerating the Windows process tree failed after commit: "@ + sanitized(error@),
    }
}

pub fn windows_post_commit_issue_text(issue: &WindowsTreePostCommitIssue) -> (r: String)
    ensures
        r@ == issue_text(*issue),
{
    match issue {
        WindowsTreePostCommitIssue::ProtectedDescendant { pid, name } => about_pid(
            "protected descendant PID ",
            *pid,
            " (",
        ).concat(shown_name(name).as_str()).concat(") appeared after commit"),
        WindowsTreePostCommitIssue::ProtectedRoot { pid, name } => about_pid(
            "root PID ",
            *pid,
            " (",
        ).concat(shown_name(name).as_str()).concat(
            ") became protected after commit; rerun to confirm the protected process",
        ),
        WindowsTreePostCommitIssue::FreshConfirmationRequired => {
            "the process tree gained warnings after --yes; rerun to confirm it".to_owned()
        },
        WindowsTreePostCommitIssue::SnapshotFailed(error) => {
            "enumerating the Windows process tree failed after commit: ".to_owned().concat(
                sanitize(error.as_str()).as_str(),
            )
        },
    }
}

/// The exit reason for an issue after the commit.
pub open spec fn issue_reason(issue: WindowsTreePostCommitIssue) -> ExitReason {
    match issue {
        WindowsTreePostCommitIssue::ProtectedDescendant { .. } =>
            ExitReason::ProtectedNeedsConfirmation,
        WindowsTreePostCommitIssue::ProtectedRoot { .. } => ExitReason::ProtectedNeedsConfirmation,
        WindowsTreePostCommitIssue::FreshConfirmationRequired => ExitReason::Failure,
        WindowsTreePostCommitIssue::SnapshotFailed(_) => ExitReason::Failure,
    }
}

pub fn windows_post_commit_issue_exit_reason(issue: &WindowsTreePostCommitIssue) -> (r: ExitReason)
    ensures
        r == issue_reason(*issue),
{
    match issue {
        WindowsTreePostCommitIssue::ProtectedDescendant { .. } => {
            ExitReason::ProtectedNeedsConfirmation
        },
        WindowsTreePostCommitIssue::ProtectedRoot { .. } => ExitReason::ProtectedNeedsConfirmation,
        WindowsTreePostCommitIssue::FreshConfirmationRequired => ExitReason::Failure,
        WindowsTreePostCommitIssue::SnapshotFailed(_) => ExitReason::Failure,
    }
}

/// The sentence about what could not be undone.
pub open spec fn cleanup_text(issue: WindowsTreeCleanupIssue) -> Seq<char> {
    match issue {
        WindowsTreeCleanupIssue::WithheldJobThawFailed(error) =>
            "thawing the withheld Windows Job Object failed: "@ + sanitized(error@),
        WindowsTreeCleanupIssue::FailedTerminationThawFailed(error) =>
            "thawing the Windows Job Object after TerminateJobObject failed: "@ + sanitized(error@),
    }
}

pub fn windows_cleanup_issue_text(issue: &WindowsTreeCleanupIssue) -> (r: String)
    ensures
        r@ == cleanup_text(*issue),
{
    match issue {
        WindowsTreeCleanupIssue::WithheldJobThawFailed(error) => {
            "thawing the withheld Windows Job Object failed: ".to_owned().concat(
                sanitize(error.as_str()).as_str(),
            )
        },
        WindowsTreeCleanupIssue::FailedTerminationThawFailed(error) => {
            "thawing the Windows Job Object after TerminateJobObject failed: ".to_owned().concat(
                sanitize(error.as_str()).as_str(),
            )
        },
    }
}

/// Process identifiers, in their order, with a comma and a blank between them.
pub open spec fn listed_pids(pids: Seq<u32>) -> Seq<char>
    decreases pids.len(),
{
    if pids.len() == 0 {
        Seq::empty()
    } else if pids.len() == 1 {
        decimal(pids[0] as nat)
    } else {
        listed_pids(pids.drop_last()) + ", "@ + decimal(pids.last() as nat)
    }
}

fn list_pids(pids: &Vec<u32>) -> (r: String)
    ensures
        r@ == listed_pids(pids@),
{
    let mut text = String::new();
    let mut i: usize = 0;
    assert(pids@.take(0) =~= Seq::empty());
    while i < pids.len()
        invariant
            i <= pids.len(),
            text@ == listed_pids(pids@.take(i as int)),
        decreases pids.len() - i,
    {
        let ghost part = pids@.take(i + 1);
        assert(part.drop_last() =~= pids@.take(i as int));
        assert(part.last() == pids@[i as int]);
        if i > 0 {
            text.append(", ");
        }
        text.append(decimal_text(pids[i] as u128).as_str());
        assert(text@ =~= listed_pids(part));
        i = i + 1;
    }
    assert(pids@.take(i as int) =~= pids@);
    text
}

/// The report of a kill that did not end every process.
pub open spec fn partial_text(root: KillTarget, report: WindowsTreeKillReport) -> Seq<char> {
    let counts = "job-terminated "@ + decimal(report.job_terminated_pids.len() as nat) + " of "@
        + decimal(report.total as nat) + " processes of the tree of "@ + identity_text(root);
    let ended = if report.job_terminated_pids.len() == 0 {
        Seq::empty()
    } else {
        " (PIDs: "@ + listed_pids(report.job_terminated_pids@) + ")"@
    };
    let exited = if report.already_exited_pids.len() == 0 {
        Seq::empty()
    } else {
        "; "@ + decimal(report.already_exited_pids.len() as nat) + " already exited (PIDs: "@
            + listed_pids(report.already_exited_pids@) + ")"@
    };
    let left = if report.not_terminated.len() == 0 {
        Seq::empty()
    } else {
        "; not confirmed terminated: "@ + listed_pids(report.not_terminated@)
    };
    let issue = match report.post_commit_issue {
        Some(issue) => "; post-commit issue: "@ + issue_text(issue),
        None => Seq::empty(),
    };
    let second = match report.secondary_post_commit_issue {
        Some(issue) => "; secondary post-commit issue: "@ + issue_text(issue),
        None => Seq::empty(),
    };
    let closure = if report.termination_state == WindowsTreeTerminationState::Complete {
        Seq::empty()
    } else {
        "; strict tree closure could not be established"@
    };
    let cleanup = match report.cleanup_issue {
        Some(issue) => "; cleanup issue: "@ + cleanup_text(issue),
        None => Seq::empty(),
    };
    counts + ended + exited + left + issue + second + closure + cleanup
}

pub fn windows_tree_partial_report_text(
    root: &KillTarget,
    report: &WindowsTreeKillReport,
) -> (r: String)
    ensures
        r@ == partial_text(*root, *report),
{
    let mut text = "job-terminated ".to_owned();
    text.append(decimal_text(report.job_terminated_pids.len() as u128).as_str());
    text.append(" of ");
    text.append(decimal_text(report.total as u128).as_str());
    text.append(" processes of the tree of ");
    text.append(root.identity().as_str());
    let mut ended = String::new();
    if report.job_terminated_pids.len() > 0 {
        ended = " (PIDs: ".to_owned();
        ended.append(list_pids(&report.job_terminated_pids).as_str());
        ended.append(")");
    }
    let mut exited = String::new();
    if report.already_exited_pids.len() > 0 {
        exited = "; ".to_owned();
        exited.append(decimal_text(report.already_exited_pids.len() as u128).as_str());
        exited.append(" already exited (PIDs: ");
        exited.append(list_pids(&report.already_exited_pids).as_str());
        exited.append(")");
    }
    let mut left = String::new();
    if report.not_terminated.len() > 0 {
        left = "; not confirmed terminated: ".to_owned();
        left.append(list_pids(&report.not_terminated).as_str());
    }
    let issue = match &report.post_commit_issue {
        Some(issue) => "; post-commit issue: ".to_owned().concat(
            windows_post_commit_issue_text(issue).as_str(),
        ),
        None => String::new(),
    };
    let second = match &report.secondary_post_commit_issue {
        Some(issue) => "; secondary post-commit issue: ".to_owned().concat(
            windows_post_commit_issue_text(issue).as_str(),
        ),
        None => String::new(),
    };
    let closure = if report.termination_state == WindowsTreeTerminationState::Complete {
        String::new()
    } else {
        "; strict tree closure could not be established".to_owned()
    };
    let cleanup = match &report.cleanup_issue {
        Some(issue) => "; cleanup issue: ".to_owned().concat(
            windows_cleanup_issue_text(issue).as_str(),
        ),
        None => String::new(),
    };
    text.append(ended.as_str());
    text.append(exited.as_str());
    text.append(left.as_str());
    text.append(issue.as_str());
    text.append(second.as_str());
    text.append(closure.as_str());
    text.append(cleanup.as_str());
    text
}

impl WindowsTreeKillReport {
    /// Every process ended, and nothing is left to tell.
    pub open spec fn clean(self) -> bool {
        self.termination_state == WindowsTreeTerminationState::Complete && self.post_commit_issue
            is None && self.secondary_post_commit_issue is None && self.cleanup_issue is None
    }

    pub fn is_clean(&self) -> (r: bool)
        ensures
            r == self.clean(),
    {
        self.termination_state == WindowsTreeTerminationState::Complete
            && self.post_commit_issue.is_none() && self.secondary_post_commit_issue.is_none()
            && self.cleanup_issue.is_none()
    }
}

/// The exit reason for a committed kill.
pub open spec fn report_reason(report: WindowsTreeKillReport) -> ExitReason {
    if report.clean() {
        ExitReason::Success
    } else {
        match report.post_commit_issue {
            Some(issue) => issue_reason(issue),
            None => ExitReason::Failure,
        }
    }
}

/// The line about a committed kill.
pub open spec fn completed_text(root: KillTarget, report: WindowsTreeKillReport) -> Seq<char> {
    if report.clean() {
        "terminated "@ + decimal(report.total as nat) + " process(es) of the tree of "@
            + identity_text(root)
    } else {
        "error: "@ + partial_text(root, report)
    }
}

fn completed_line(root: &KillTarget, report: &WindowsTreeKillReport) -> (r: String)
    ensures
        r@ == completed_text(*root, *report),
{
    if report.is_clean() {
        let mut text = "terminated ".to_owned();
        text.append(decimal_text(report.total as u128).as_str());
        text.append(" process(es) of the tree of ");
        text.append(root.identity().as_str());
        text
    } else {
        "error: ".to_owned().concat(windows_tree_partial_report_text(root, report).as_str())
    }
}

/// The lines about a committed kill: how it ended, then what became of the ports.
pub open spec fn completed_lines<H>(
    root: KillTarget,
    report: WindowsTreeKillReport,
    before: Seq<Operation<H>>,
    after: Seq<Operation<H>>,
    lines: Seq<Seq<char>>,
) -> bool {
    then_ports(root.ports@, before, after, seq![completed_text(root, report)], lines)
}

/// Tell how a committed kill ended, then look at the ports.
pub fn map_windows_tree_completed_outcome<T: WatchesPorts, H, D: Sink>(
    root: &KillTarget,
    report: &WindowsTreeKillReport,
    tools: &mut Recorded<T, H>,
    diagnostics: &mut D,
) -> (r: ExitReason)
    ensures
        r == report_reason(*report),
        exists|lines: Seq<Seq<char>>|
            said(*old(diagnostics), *final(diagnostics), lines) && #[trigger] completed_lines(
                *root,
                *report,
                old(tools).log(),
                final(tools).log(),
                lines,
            ),
{
    let ghost head = seq![completed_text(*root, *report)];
    let ghost before = tools.log();
    write_line(diagnostics, completed_line(root, report).as_str());
    print_post_kill_refresh_status(
        root,
        tools,
        diagnostics,
        Ghost(*old(diagnostics)),
        Ghost(head),
    );
    proof {
        let lines = choose|lines: Seq<Seq<char>>|
            said(*old(diagnostics), *diagnostics, lines) && #[trigger] then_ports(
                root.ports@,
                before,
                tools.log(),
                head,
                lines,
            );
        assert(completed_lines(*root, *report, before, tools.log(), lines));
    }
    if report.is_clean() {
        return ExitReason::Success;
    }
    match &report.post_commit_issue {
        Some(issue) => windows_post_commit_issue_exit_reason(issue),
        None => ExitReason::Failure,
    }
}

/// The lines about a kill that the system failed: where a Job Object already held the
/// processes, the report and the ports follow.
pub open spec fn system_failure_lines<H>(
    root: KillTarget,
    outcome: WindowsTreeKillOutcome,
    before: Seq<Operation<H>>,
    after: Seq<Operation<H>>,
    lines: Seq<Seq<char>>,
) -> bool {
    match outcome {
        WindowsTreeKillOutcome::JobTerminateFailed { error, report } => then_ports(
            root.ports@,
            before,
            after,
            seq![
                "error: TerminateJobObject failed: "@ + sanitized(error@),
                "error: "@ + partial_text(root, *report),
            ],
            lines,
        ),
        WindowsTreeKillOutcome::SnapshotFailed(error) => after == before && lines == seq![
            "error: enumerating the Windows process tree failed: "@ + sanitized(error@),
        ],
        _ => after == before && lines == Seq::<Seq<char>>::empty(),
    }
}

/// Tell of a kill that the system failed. Where a Job Object already held the
/// processes, the report and the ports follow.
pub fn map_windows_tree_system_failure<T: WatchesPorts, H, D: Sink>(
    root: &KillTarget,
    outcome: &WindowsTreeKillOutcome,
    tools: &mut Recorded<T, H>,
    diagnostics: &mut D,
) -> (r: ExitReason)
    requires
        outcome is JobTerminateFailed || outcome is SnapshotFailed,
    ensures
        r == ExitReason::Failure,
        exists|lines: Seq<Seq<char>>|
            said(*old(diagnostics), *final(diagnostics), lines) && #[trigger] system_failure_lines(
                *root,
                *outcome,
                old(tools).log(),
                final(tools).log(),
                lines,
            ),
{
    let ghost before = tools.log();
    match outcome {
        WindowsTreeKillOutcome::JobTerminateFailed { error, report } => {
            let first = "error: TerminateJobObject failed: ".to_owned().concat(
                sanitize(error.as_str()).as_str(),
            );
            let second = "error: ".to_owned().concat(
                windows_tree_partial_report_text(root, report).as_str(),
            );
            let ghost head = seq![first@, second@];
            write_line(diagnostics, first.as_str());
            let ghost middle = *diagnostics;
            write_line(diagnostics, second.as_str());
            proof {
                lemma_said_more(
                    *old(diagnostics),
                    middle,
                    *diagnostics,
                    seq![first@],
                    seq![second@],
                );
                assert(seq![first@] + seq![second@] =~= seq![first@, second@]);
            }
            print_post_kill_refresh_status(
                root,
                tools,
                diagnostics,
                Ghost(*old(diagnostics)),
                Ghost(head),
            );
            proof {
                let lines = choose|lines: Seq<Seq<char>>|
                    said(*old(diagnostics), *diagnostics, lines) && #[trigger] then_ports(
                        root.ports@,
                        before,
                        tools.log(),
                        head,
                        lines,
                    );
                assert(system_failure_lines(*root, *outcome, before, tools.log(), lines));
            }
        },
        WindowsTreeKillOutcome::SnapshotFailed(error) => {
            let line = "error: enumerating the Windows process tree failed: ".to_owned().concat(
                sanitize(error.as_str()).as_str(),
            );
            write_line(diagnostics, line.as_str());
            assert(system_failure_lines(
                *root,
                *outcome,
                before,
                tools.log(),
                seq![line@],
            ));
        },
        _ => {},
    }
    ExitReason::Failure
}

/// The exit reason for a tree kill.
pub open spec fn windows_reason(outcome: WindowsTreeKillOutcome) -> ExitReason {
    match outcome {
        WindowsTreeKillOutcome::Refused(outcome) => tree_reason(outcome),
        WindowsTreeKillOutcome::Completed(report) => report_reason(report),
        WindowsTreeKillOutcome::JobTerminateFailed { .. } => ExitReason::Failure,
        WindowsTreeKillOutcome::SnapshotFailed(_) => ExitReason::Failure,
    }
}

/// The lines about how a tree kill ended.
pub open spec fn windows_ending_lines<H>(
    root: KillTarget,
    mode: KillMode,
    outcome: WindowsTreeKillOutcome,
    before: Seq<Operation<H>>,
    after: Seq<Operation<H>>,
    lines: Seq<Seq<char>>,
) -> bool {
    match outcome {
        WindowsTreeKillOutcome::Refused(refusal) => scope_ending_lines(
            root,
            mode,
            refusal,
            before,
            after,
            lines,
        ),
        WindowsTreeKillOutcome::Completed(report) => completed_lines(
            root,
            report,
            before,
            after,
            lines,
        ),
        _ => system_failure_lines(root, outcome, before, after, lines),
    }
}

/// Tell how a tree kill ended.
pub fn map_windows_tree_outcome<T: WatchesPorts, H, D: Sink>(
    root: &KillTarget,
    mode: KillMode,
    outcome: &WindowsTreeKillOutcome,
    tools: &mut Recorded<T, H>,
    diagnostics: &mut D,
) -> (r: ExitReason)
    ensures
        r == windows_reason(*outcome),
        exists|lines: Seq<Seq<char>>|
            said(*old(diagnostics), *final(diagnostics), lines) && #[trigger] windows_ending_lines(
                *root,
                mode,
                *outcome,
                old(tools).log(),
                final(tools).log(),
                lines,
            ),
{
    let ghost before = tools.log();
    match outcome {
        WindowsTreeKillOutcome::Refused(refusal) => {
            let reason = report_scope_outcome(
                root,
                mode,
                refusal,
                tools,
                diagnostics,
            );
            proof {
                let lines = choose|lines: Seq<Seq<char>>|
                    said(*old(diagnostics), *diagnostics, lines) && #[trigger] scope_ending_lines(
                        *root,
                        mode,
                        *refusal,
                        before,
                        tools.log(),
                        lines,
                    );
                assert(windows_ending_lines(*root, mode, *outcome, before, tools.log(), lines));
            }
            reason
        },
        WindowsTreeKillOutcome::Completed(report) => {
            let reason = map_windows_tree_completed_outcome(
                root,
                report,
                tools,
                diagnostics,
            );
            proof {
                let lines = choose|lines: Seq<Seq<char>>|
                    said(*old(diagnostics), *diagnostics, lines) && #[trigger] completed_lines(
                        *root,
                        *report,
                        before,
                        tools.log(),
                        lines,
                    );
                assert(windows_ending_lines(*root, mode, *outcome, before, tools.log(), lines));
            }
            reason
        },
        _ => {
            let reason = map_windows_tree_system_failure(
                root,
                outcome,
                tools,
                diagnostics,
            );
            proof {
                let lines = choose|lines: Seq<Seq<char>>|
                    said(*old(diagnostics), *diagnostics, lines) && #[trigger] system_failure_lines(
                        *root,
                        *outcome,
                        before,
                        tools.log(),
                        lines,
                    );
                assert(windows_ending_lines(*root, mode, *outcome, before, tools.log(), lines));
            }
            reason
        },
    }
}

} // verus!
