//! Kills of a process tree or a process group. One confirmed root authorizes a bounded
//! set of processes.

use vstd::prelude::*;
use vstd::string::*;
use crate::banner::{
    group_banner_lines, print_group_kill_banner, print_tree_kill_banner, tree_banner_lines,
};
use crate::config::Config;
use crate::exit::ExitReason;
use crate::kill::{
    law_found_again_is_the_confirmed_target, print_post_kill_refresh_status, print_target_error,
    resolve_kill_target, resolves, revalidate_cli_target, revalidated, target_error_lines,
    target_error_reason, then_ports, KillArgs, KillTargetError,
};
use crate::model::{PermissionStatus, Platform};
use crate::operations::{
    AsksScope, KillsScope, Operation, PinsRoot, ReadsContext, ReadsPorts, ReadsTable, Recorded,
    WatchesPorts,
};
use crate::ports::{is_system_process, system_process, PortEntry};
use crate::process::{
    confirmation_input_matches, confirms, identity_text, still_matches, trimmed,
    unsafe_pid_reason, unsafe_reason, word_confirmation_matches, ConfirmationRequirement, HostFacts, KillMode, KillTarget,
    KillWarning, TerminationOutcome,
};
use crate::protection::{is_protected_process_name, protected_name};
use crate::sink::{
    lemma_said_more, lemma_said_nothing, said, write_line, IoError, Sink,
};
use crate::text::{decimal, decimal_text, opt_str, opt_text, sanitize, sanitized, str_eq};
use crate::tree::{
    find_pid, first_with_pid, group_planned, group_scope_word, group_word, has_pid, names_root,
    nodes_warned, plan_error_outcome, plan_process_group, plan_process_tree, plan_refused,
    preflight_clear, preflight_outcome, preflight_refused, root_protection_outcome, tree_planned,
    tree_scope_word, tree_word, GroupPlanError, ProcessGroupTarget, ProcessTreeTarget,
    ScopeAuthorization, TreeKillOutcome, TreePlanError, TreeProcessInfo,
    GROUP_YES_SKIP_MAX_PROCESSES, MAX_GROUP_PROCESSES, MAX_TREE_PROCESSES,
};

verus! {

/// What the user is asked to type.
#[derive(Debug, Clone, Copy, PartialEq, Eq)]
pub enum TreeConfirmation {
    TypedWord(&'static str),
    /// The PID or the name of the protected root.
    ProtectedRoot,
}

/// What is asked before a scoped kill.
#[derive(Debug, Clone, Copy, PartialEq, Eq)]
pub enum TreeConfirmDecision {
    Skip,
    PromptWord(&'static str),
    PromptProtectedThenWord(&'static str),
    /// `--yes` cannot authorize a protected root.
    RefuseProtectedYes,
}

/// A warning about the root other than that it has children blocks the skip: the
/// preview shows the children anyway.
pub open spec fn root_blocks_skip(root: KillTarget, host: HostFacts) -> bool {
    exists|i: int|
        0 <= i < root.warned(host).len() && !((#[trigger] root.warned(host)[i]) is HasChildren)
}

pub fn root_has_tree_yes_blocking_warning(root: &KillTarget, host: HostFacts) -> (r: bool)
    ensures
        r == root_blocks_skip(*root, host),
{
    let warnings = root.warnings(host);
    let mut i: usize = 0;
    while i < warnings.len()
        invariant
            i <= warnings.len(),
            warnings@ == root.warned(host),
            forall|j: int| 0 <= j < i ==> (#[trigger] root.warned(host)[j]) is HasChildren,
        decreases warnings.len() - i,
    {
        match warnings[i] {
            KillWarning::HasChildren { .. } => {},
            _ => {
                assert(!(root.warned(host)[i as int] is HasChildren));
                return true;
            },
        }
        i = i + 1;
    }
    false
}

/// `--yes` may stand for the word of a tree: nothing in it has a warning.
pub open spec fn tree_skippable(
    root: KillTarget,
    preview: ProcessTreeTarget,
    host: HostFacts,
) -> bool {
    !nodes_warned(preview.nodes@, host) && !root_blocks_skip(root, host)
}

pub fn tree_yes_skip_allowed(
    root: &KillTarget,
    preview: &ProcessTreeTarget,
    host: HostFacts,
) -> (r: bool)
    ensures
        r == tree_skippable(*root, *preview, host),
{
    !preview.has_warnings(host) && !root_has_tree_yes_blocking_warning(root, host)
}

/// `--yes` may stand for the word of a group: nothing in it has a warning, and it is
/// tiny.
pub open spec fn group_skippable(
    root: KillTarget,
    members: ProcessTreeTarget,
    host: HostFacts,
) -> bool {
    members.nodes.len() <= GROUP_YES_SKIP_MAX_PROCESSES && tree_skippable(root, members, host)
}

pub fn group_yes_skip_allowed(
    root: &KillTarget,
    members: &ProcessTreeTarget,
    host: HostFacts,
) -> (r: bool)
    ensures
        r == group_skippable(*root, *members, host),
{
    members.len() <= GROUP_YES_SKIP_MAX_PROCESSES && !members.has_warnings(host)
        && !root_has_tree_yes_blocking_warning(root, host)
}

/// The root counts as protected where either its row or the scan says so.
pub open spec fn root_is_protected(root: KillTarget, members: ProcessTreeTarget) -> bool {
    root.protected || members.root_protected()
}

/// What is asked for a scope, given whether its word may be skipped. Protection comes
/// first.
pub open spec fn decides(
    protected: bool,
    yes: bool,
    skippable: bool,
    word: Seq<char>,
    decision: TreeConfirmDecision,
) -> bool {
    if protected {
        if yes {
            decision is RefuseProtectedYes
        } else {
            decision matches TreeConfirmDecision::PromptProtectedThenWord(asked) && asked@ == word
        }
    } else if yes && skippable {
        decision is Skip
    } else {
        decision matches TreeConfirmDecision::PromptWord(asked) && asked@ == word
    }
}

/// What is asked before a tree kill.
pub fn tree_confirmation(
    root: &KillTarget,
    preview: &ProcessTreeTarget,
    mode: KillMode,
    yes: bool,
    host: HostFacts,
) -> (r: TreeConfirmDecision)
    ensures
        decides(
            root_is_protected(*root, *preview),
            yes,
            tree_skippable(*root, *preview, host),
            tree_word(mode),
            r,
        ),
{
    let scanned: bool = match preview.root() {
        Some(node) => node.protected,
        None => false,
    };
    let word = tree_scope_word(mode);
    if root.protected || scanned {
        if yes {
            return TreeConfirmDecision::RefuseProtectedYes;
        }
        return TreeConfirmDecision::PromptProtectedThenWord(word);
    }
    if yes && tree_yes_skip_allowed(root, preview, host) {
        return TreeConfirmDecision::Skip;
    }
    TreeConfirmDecision::PromptWord(word)
}

/// What is asked before a group kill. A group has no tie to the target but being
/// started together, so only a tiny one may be skipped.
pub fn group_confirmation(
    root: &KillTarget,
    group: &ProcessGroupTarget,
    mode: KillMode,
    yes: bool,
    host: HostFacts,
) -> (r: TreeConfirmDecision)
    ensures
        decides(
            root_is_protected(*root, group.members),
            yes,
            group_skippable(*root, group.members, host),
            group_word(mode),
            r,
        ),
{
    let members = group.members();
    let scanned: bool = match members.root() {
        Some(node) => node.protected,
        None => false,
    };
    let word = group_scope_word(mode);
    if root.protected || scanned {
        if yes {
            return TreeConfirmDecision::RefuseProtectedYes;
        }
        return TreeConfirmDecision::PromptProtectedThenWord(word);
    }
    if yes && group_yes_skip_allowed(root, members, host) {
        return TreeConfirmDecision::Skip;
    }
    TreeConfirmDecision::PromptWord(word)
}

/// `--yes` never authorizes a protected root, in any scope.
pub proof fn law_yes_never_authorizes_a_protected_root(
    skippable: bool,
    word: Seq<char>,
    decision: TreeConfirmDecision,
)
    requires
        decides(true, true, skippable, word, decision),
    ensures
        decision is RefuseProtectedYes,
{
}

/// A group is never skipped where the same processes as a tree would not be.
pub proof fn law_group_skip_is_stricter(
    root: KillTarget,
    members: ProcessTreeTarget,
    host: HostFacts,
)
    requires
        group_skippable(root, members, host),
    ensures
        tree_skippable(root, members, host),
{
}

/// An answer that meets a requirement.
pub open spec fn tree_answer(
    input: Seq<char>,
    root: KillTarget,
    requirement: TreeConfirmation,
) -> bool {
    match requirement {
        TreeConfirmation::TypedWord(word) => trimmed(input) == word@,
        TreeConfirmation::ProtectedRoot => confirms(
            input,
            root,
            ConfirmationRequirement::ProtectedProcess,
        ),
    }
}

pub fn tree_confirmation_matches(
    input: &str,
    root: &KillTarget,
    requirement: TreeConfirmation,
) -> (r: bool)
    ensures
        r == tree_answer(input@, *root, requirement),
{
    match requirement {
        TreeConfirmation::TypedWord(word) => word_confirmation_matches(input, word),
        TreeConfirmation::ProtectedRoot => confirmation_input_matches(
            input,
            root,
            ConfirmationRequirement::ProtectedProcess,
        ),
    }
}

/// The target is what the process table says of a process: it holds no ports, and it
/// counts as fully read where its name and its start are known.
pub open spec fn tells_info(
    target: KillTarget,
    info: TreeProcessInfo,
    names: Seq<String>,
    platform: Platform,
) -> bool {
    &&& target.pid == info.pid
    &&& opt_text(target.process_name) == opt_text(info.process_name)
    &&& target.platform == platform
    &&& target.permission == (if info.process_name is Some && info.start_time_marker is Some {
        PermissionStatus::Full
    } else {
        PermissionStatus::Partial
    })
    &&& target.protected == (info.process_name is Some && protected_name(
        platform,
        info.process_name->0@,
        names,
    ))
    &&& target.system_process == system_process(
        platform,
        opt_text(info.process_name),
        opt_text(info.parent_process_name),
    )
    &&& target.ports.len() == 0
    &&& target.owner_uid == info.owner_uid
    &&& target.process_start_time_marker == info.start_time_marker
    &&& target.child_count == 0
    &&& !target.children_truncated
}

pub fn kill_target_from_tree_info(
    info: &TreeProcessInfo,
    protected_names: &[String],
    platform: Platform,
) -> (r: KillTarget)
    ensures
        tells_info(r, *info, protected_names@, platform),
{
    let complete: bool = info.process_name.is_some() && info.start_time_marker.is_some();
    KillTarget {
        pid: info.pid,
        process_name: match &info.process_name {
            Some(name) => Some(name.clone()),
            None => None,
        },
        platform,
        permission: if complete {
            PermissionStatus::Full
        } else {
            PermissionStatus::Partial
        },
        protected: match &info.process_name {
            Some(name) => is_protected_process_name(platform, name.as_str(), protected_names),
            None => false,
        },
        system_process: is_system_process(
            platform,
            opt_str(&info.process_name),
            opt_str(&info.parent_process_name),
        ),
        ports: Vec::new(),
        owner_uid: info.owner_uid,
        process_start_time_marker: info.start_time_marker,
        child_count: 0,
        children_truncated: false,
    }
}

/// What a PID without a visible port resolves to in the process table.
pub open spec fn resolves_in_table(
    pid: u32,
    snapshot: Seq<TreeProcessInfo>,
    names: Seq<String>,
    platform: Platform,
    host: HostFacts,
    r: Result<KillTarget, KillTargetError>,
) -> bool {
    match unsafe_reason(pid, host) {
        Some(reason) => r == Err::<KillTarget, KillTargetError>(KillTargetError::UnsafePid(reason)),
        None => if !has_pid(snapshot, pid) {
            r == Err::<KillTarget, KillTargetError>(KillTargetError::NoMatch)
        } else {
            r is Ok && exists|at: int| #[trigger]
                first_with_pid(snapshot, pid, at) && tells_info(
                    r->Ok_0,
                    snapshot[at],
                    names,
                    platform,
                )
        },
    }
}

pub fn resolve_pid_tree_root_from_snapshot(
    pid: u32,
    snapshot: &Vec<TreeProcessInfo>,
    protected_names: &[String],
    platform: Platform,
    host: HostFacts,
) -> (r: Result<KillTarget, KillTargetError>)
    ensures
        resolves_in_table(pid, snapshot@, protected_names@, platform, host, r),
{
    if let Some(reason) = unsafe_pid_reason(pid, host) {
        return Err(KillTargetError::UnsafePid(reason));
    }
    match find_pid(snapshot, pid) {
        Some(at) => Ok(kill_target_from_tree_info(&snapshot[at], protected_names, platform)),
        None => Err(KillTargetError::NoMatch),
    }
}

/// The line about a root that ended.
pub open spec fn root_gone_text(pid: u32) -> Seq<char> {
    "error: root PID "@ + decimal(pid as nat) + " is no longer running; nothing to terminate"@
}

/// The root of a scoped kill: what the port table resolves and, for a PID without a
/// visible port, what the process table does.
pub open spec fn resolves_root<H>(
    args: KillArgs,
    config: Config,
    entries: Seq<PortEntry>,
    snapshot: Seq<TreeProcessInfo>,
    platform: Platform,
    host: HostFacts,
    before: Seq<Operation<H>>,
    after: Seq<Operation<H>>,
    r: Result<KillTarget, ExitReason>,
    lines: Seq<Seq<char>>,
) -> bool {
    exists|resolved: Result<KillTarget, KillTargetError>| #[trigger]
        resolves(args, entries, host, before, after, resolved) && match resolved {
            Ok(target) => r == Ok::<KillTarget, ExitReason>(target) && lines == Seq::<
                Seq<char>,
            >::empty(),
            Err(error) => if error is NoMatch && args.pid is Some {
                exists|listed: Result<KillTarget, KillTargetError>| #[trigger]
                    resolves_in_table(
                        args.pid->0,
                        snapshot,
                        config.protected_processes@,
                        platform,
                        host,
                        listed,
                    ) && match listed {
                        Ok(target) => r == Ok::<KillTarget, ExitReason>(target) && lines == Seq::<
                            Seq<char>,
                        >::empty(),
                        Err(error) => r == Err::<KillTarget, ExitReason>(
                            target_error_reason(error),
                        ) && lines == if error is NoMatch {
                            seq![root_gone_text(args.pid->0)]
                        } else {
                            target_error_lines(error)
                        },
                    }
            } else {
                r == Err::<KillTarget, ExitReason>(target_error_reason(error)) && lines
                    == target_error_lines(error)
            },
        }
}

/// Resolve the root of a scoped kill, and report why there is none.
#[verifier::rlimit(30)]
pub fn resolve_scoped_kill_root<T: ReadsContext, H, D: Sink>(
    args: &KillArgs,
    config: &Config,
    entries: &Vec<PortEntry>,
    snapshot: &Vec<TreeProcessInfo>,
    platform: Platform,
    host: HostFacts,
    tools: &mut Recorded<T, H>,
    diagnostics: &mut D,
) -> (r: Result<KillTarget, ExitReason>)
    requires
        args.wf(),
    ensures
        exists|lines: Seq<Seq<char>>|
            said(*old(diagnostics), *final(diagnostics), lines) && #[trigger] resolves_root(
                *args,
                *config,
                entries@,
                snapshot@,
                platform,
                host,
                old(tools).log(),
                final(tools).log(),
                r,
                lines,
            ),
{
    proof {
        lemma_said_nothing(*old(diagnostics));
    }
    let ghost before = tools.log();
    let resolved = resolve_kill_target(args, entries, host, tools);
    let ghost found = resolved;
    assert(resolves(*args, entries@, host, before, tools.log(), found));
    let error = match resolved {
        Ok(target) => {
            assert(resolves_root(
                *args,
                *config,
                entries@,
                snapshot@,
                platform,
                host,
                before,
                tools.log(),
                Ok(target),
                Seq::empty(),
            ));
            return Ok(target);
        },
        Err(error) => error,
    };
    let no_match: bool = match &error {
        KillTargetError::NoMatch => true,
        _ => false,
    };
    if no_match {
        if let Some(pid) = args.pid {
            let listed = resolve_pid_tree_root_from_snapshot(
                pid,
                snapshot,
                config.protected_processes.as_slice(),
                platform,
                host,
            );
            let ghost seen = listed;
            assert(resolves_in_table(
                pid,
                snapshot@,
                config.protected_processes@,
                platform,
                host,
                seen,
            ));
            return match listed {
                Ok(target) => {
                    assert(resolves_root(
                        *args,
                        *config,
                        entries@,
                        snapshot@,
                        platform,
                        host,
                        before,
                        tools.log(),
                        Ok(target),
                        Seq::empty(),
                    ));
                    Ok(target)
                },
                Err(KillTargetError::NoMatch) => {
                    print_root_gone(diagnostics, pid);
                    assert(resolves_root(
                        *args,
                        *config,
                        entries@,
                        snapshot@,
                        platform,
                        host,
                        before,
                        tools.log(),
                        Err(ExitReason::NoMatch),
                        seq![root_gone_text(pid)],
                    ));
                    Err(ExitReason::NoMatch)
                },
                Err(error) => {
                    assert(resolves_root(
                        *args,
                        *config,
                        entries@,
                        snapshot@,
                        platform,
                        host,
                        before,
                        tools.log(),
                        Err(target_error_reason(error)),
                        target_error_lines(error),
                    ));
                    Err(print_target_error(diagnostics, &error))
                },
            };
        }
    }
    assert(resolves_root(
        *args,
        *config,
        entries@,
        snapshot@,
        platform,
        host,
        before,
        tools.log(),
        Err(target_error_reason(error)),
        target_error_lines(error),
    ));
    Err(print_target_error(diagnostics, &error))
}

pub(crate) fn print_root_gone<D: Sink>(diagnostics: &mut D, pid: u32)
    ensures
        said(*old(diagnostics), *final(diagnostics), seq![root_gone_text(pid)]),
{
    let mut text = "error: root PID ".to_owned();
    text.append(decimal_text(pid as u128).as_str());
    text.append(" is no longer running; nothing to terminate");
    write_line(diagnostics, text.as_str());
}

/// What the process table says about a confirmed root without ports: it must still run,
/// be the same process by start and name, and not have become protected.
pub open spec fn portless_judged(
    confirmed: KillTarget,
    snapshot: Seq<TreeProcessInfo>,
    names: Seq<String>,
    platform: Platform,
    r: Result<KillTarget, TreeKillOutcome>,
) -> bool {
    if !has_pid(snapshot, confirmed.pid) {
        r == Err::<KillTarget, TreeKillOutcome>(TreeKillOutcome::RootAlreadyExited)
    } else {
        exists|at: int| #[trigger]
            first_with_pid(snapshot, confirmed.pid, at) && portless_info_judged(
                confirmed,
                snapshot[at],
                names,
                platform,
                r,
            )
    }
}

pub open spec fn portless_info_judged(
    confirmed: KillTarget,
    info: TreeProcessInfo,
    names: Seq<String>,
    platform: Platform,
    r: Result<KillTarget, TreeKillOutcome>,
) -> bool {
    let protected = info.process_name is Some && protected_name(
        platform,
        info.process_name->0@,
        names,
    );
    if confirmed.process_start_time_marker is None || info.start_time_marker is None {
        r == Err::<KillTarget, TreeKillOutcome>(
            TreeKillOutcome::PartialMetadata { pid: confirmed.pid },
        )
    } else if confirmed.process_start_time_marker != info.start_time_marker || (
    confirmed.process_name is Some && opt_text(info.process_name) != opt_text(
        confirmed.process_name,
    )) {
        r == Err::<KillTarget, TreeKillOutcome>(
            TreeKillOutcome::TargetChanged { pid: confirmed.pid },
        )
    } else if protected && !confirmed.protected {
        r is Err && (r->Err_0 matches TreeKillOutcome::ProtectedRoot { pid, name } && pid
            == info.pid && opt_text(name) == opt_text(info.process_name))
    } else {
        r is Ok && tells_info(r->Ok_0, info, names, platform)
    }
}

pub fn revalidate_portless_tree_root(
    confirmed: &KillTarget,
    snapshot: &Vec<TreeProcessInfo>,
    protected_names: &[String],
    platform: Platform,
) -> (r: Result<KillTarget, TreeKillOutcome>)
    ensures
        portless_judged(*confirmed, snapshot@, protected_names@, platform, r),
{
    let at: usize = match find_pid(snapshot, confirmed.pid) {
        Some(at) => at,
        None => {
            return Err(TreeKillOutcome::RootAlreadyExited);
        },
    };
    let info = &snapshot[at];
    assert(first_with_pid(snapshot@, confirmed.pid, at as int));
    if confirmed.process_start_time_marker.is_none() || info.start_time_marker.is_none() {
        return Err(TreeKillOutcome::PartialMetadata { pid: confirmed.pid });
    }
    if confirmed.process_start_time_marker != info.start_time_marker {
        return Err(TreeKillOutcome::TargetChanged { pid: confirmed.pid });
    }
    let same_name: bool = match &confirmed.process_name {
        Some(expected) => match &info.process_name {
            Some(name) => str_eq(name.as_str(), expected.as_str()),
            None => false,
        },
        None => true,
    };
    if !same_name {
        return Err(TreeKillOutcome::TargetChanged { pid: confirmed.pid });
    }
    let fresh = kill_target_from_tree_info(info, protected_names, platform);
    if fresh.protected && !confirmed.protected {
        return Err(TreeKillOutcome::ProtectedRoot { pid: fresh.pid, name: fresh.process_name });
    }
    Ok(fresh)
}

/// A refusal of a single process, told of a scope.
pub open spec fn scope_outcome(
    confirmed: KillTarget,
    outcome: TerminationOutcome,
    r: TreeKillOutcome,
) -> bool
    decreases outcome,
{
    match outcome {
        TerminationOutcome::ProtectedProcess => r matches TreeKillOutcome::ProtectedRoot {
            pid,
            name,
        } && pid == confirmed.pid && opt_text(name) == opt_text(confirmed.process_name),
        TerminationOutcome::UnsafePid(reason) => r == (TreeKillOutcome::UnsafePid {
            pid: confirmed.pid,
            reason,
        }),
        TerminationOutcome::OwnershipUnavailable => r == (TreeKillOutcome::OwnershipUnavailable {
            pid: confirmed.pid,
        }),
        TerminationOutcome::AlreadyExited => r == TreeKillOutcome::RootAlreadyExited,
        TerminationOutcome::TargetChanged => r == (TreeKillOutcome::TargetChanged {
            pid: confirmed.pid,
        }),
        TerminationOutcome::Success => r == (TreeKillOutcome::TargetChanged {
            pid: confirmed.pid,
        }),
        TerminationOutcome::Cancelled => r == (TreeKillOutcome::TargetChanged {
            pid: confirmed.pid,
        }),
        TerminationOutcome::PermissionDenied => r == (TreeKillOutcome::PermissionDenied {
            pid: confirmed.pid,
        }),
        TerminationOutcome::UnknownFailure(error) => r == TreeKillOutcome::SnapshotFailed(error),
        TerminationOutcome::ThawFailed { pid, prior } => if confirmed.platform
            == Platform::Windows {
            r matches TreeKillOutcome::SnapshotFailed(text) && text@
                == "unexpected thaw failure in Windows tree preparation"@
        } else {
            r matches TreeKillOutcome::ThawFailed { pids, cause } && pids@ == seq![pid]
                && scope_outcome(confirmed, *prior, *cause)
        },
    }
}

/// Tell a refusal of a single process of a scope.
pub fn tree_outcome_from_termination(
    confirmed: &KillTarget,
    outcome: TerminationOutcome,
) -> (r: TreeKillOutcome)
    ensures
        scope_outcome(*confirmed, outcome, r),
    decreases outcome,
{
    match outcome {
        TerminationOutcome::ProtectedProcess => TreeKillOutcome::ProtectedRoot {
            pid: confirmed.pid,
            name: match &confirmed.process_name {
                Some(name) => Some(name.clone()),
                None => None,
            },
        },
        TerminationOutcome::UnsafePid(reason) => TreeKillOutcome::UnsafePid {
            pid: confirmed.pid,
            reason,
        },
        TerminationOutcome::OwnershipUnavailable => TreeKillOutcome::OwnershipUnavailable {
            pid: confirmed.pid,
        },
        TerminationOutcome::AlreadyExited => TreeKillOutcome::RootAlreadyExited,
        TerminationOutcome::TargetChanged => TreeKillOutcome::TargetChanged {
            pid: confirmed.pid,
        },
        TerminationOutcome::Success => TreeKillOutcome::TargetChanged { pid: confirmed.pid },
        TerminationOutcome::Cancelled => TreeKillOutcome::TargetChanged { pid: confirmed.pid },
        TerminationOutcome::PermissionDenied => TreeKillOutcome::PermissionDenied {
            pid: confirmed.pid,
        },
        TerminationOutcome::UnknownFailure(error) => TreeKillOutcome::SnapshotFailed(error),
        TerminationOutcome::ThawFailed { pid, prior } => {
            if confirmed.platform == Platform::Windows {
                return TreeKillOutcome::SnapshotFailed(
                    "unexpected thaw failure in Windows tree preparation".to_owned(),
                );
            }
            let ghost before = *prior;
            let cause = tree_outcome_from_termination(confirmed, *prior);
            let pids: Vec<u32> = vec![pid];
            assert(pids@ =~= seq![pid]);
            assert(scope_outcome(*confirmed, before, cause));
            TreeKillOutcome::ThawFailed { pids, cause: Box::new(cause) }
        },
    }
}

/// The exit reason for the outcome of a scoped kill.
pub open spec fn tree_reason(outcome: TreeKillOutcome) -> ExitReason {
    match outcome {
        TreeKillOutcome::Completed { .. } => ExitReason::Success,
        TreeKillOutcome::ProtectedDescendant { .. } => ExitReason::ProtectedNeedsConfirmation,
        TreeKillOutcome::ProtectedRoot { .. } => ExitReason::ProtectedNeedsConfirmation,
        TreeKillOutcome::OwnershipUnavailable { .. } => ExitReason::PermissionDenied,
        TreeKillOutcome::PermissionDenied { .. } => ExitReason::PermissionDenied,
        TreeKillOutcome::RootAlreadyExited => ExitReason::NoMatch,
        _ => ExitReason::Failure,
    }
}

pub fn exit_reason_for_tree_outcome(outcome: &TreeKillOutcome) -> (r: ExitReason)
    ensures
        r == tree_reason(*outcome),
{
    match outcome {
        TreeKillOutcome::Completed { .. } => ExitReason::Success,
        TreeKillOutcome::ProtectedDescendant { .. } => ExitReason::ProtectedNeedsConfirmation,
        TreeKillOutcome::ProtectedRoot { .. } => ExitReason::ProtectedNeedsConfirmation,
        TreeKillOutcome::OwnershipUnavailable { .. } => ExitReason::PermissionDenied,
        TreeKillOutcome::PermissionDenied { .. } => ExitReason::PermissionDenied,
        TreeKillOutcome::RootAlreadyExited => ExitReason::NoMatch,
        _ => ExitReason::Failure,
    }
}

/// A fresh tree passes the gates again: it is planned, its members may be signalled,
/// protection of the root was confirmed, and a skipped word is still skippable.
pub open spec fn tree_gates(
    root: KillTarget,
    preview: ProcessTreeTarget,
    confirmation: ScopeAuthorization,
    host: HostFacts,
    r: Result<(), TreeKillOutcome>,
) -> bool {
    if !preflight_clear(preview, host) {
        r is Err && preflight_refused(preview, host, r->Err_0)
    } else if preview.root_protected() && !confirmation.root_confirmed() {
        r is Err && names_root(preview.nodes@[0], r->Err_0)
    } else if confirmation.skipped() && !tree_skippable(root, preview, host) {
        r == Err::<(), TreeKillOutcome>(TreeKillOutcome::FreshConfirmationRequired)
    } else {
        r is Ok
    }
}

/// Refuse a skipped word that could no longer be skipped.
pub fn fresh_tree_yes_outcome(
    root: &KillTarget,
    preview: &ProcessTreeTarget,
    confirmation: ScopeAuthorization,
    host: HostFacts,
) -> (r: Result<(), TreeKillOutcome>)
    ensures
        r is Ok <==> !(confirmation.skipped() && !tree_skippable(*root, *preview, host)),
        r is Err ==> r->Err_0 == TreeKillOutcome::FreshConfirmationRequired,
{
    if confirmation.prompt_skipped() && !tree_yes_skip_allowed(root, preview, host) {
        return Err(TreeKillOutcome::FreshConfirmationRequired);
    }
    Ok(())
}

/// What a fresh process table means for a revalidated root.
pub open spec fn fresh_tree_judged(
    root: KillTarget,
    snapshot: Seq<TreeProcessInfo>,
    config: Config,
    confirmation: ScopeAuthorization,
    host: HostFacts,
    r: Result<(), TreeKillOutcome>,
) -> bool {
    exists|planned: Result<ProcessTreeTarget, TreePlanError>| #[trigger]
        tree_planned(
            root.pid,
            snapshot,
            config.protected_processes@,
            root.platform,
            MAX_TREE_PROCESSES,
            planned,
        ) && match planned {
            Err(error) => r is Err && plan_refused(error, r->Err_0),
            Ok(preview) => tree_gates(root, preview, confirmation, host, r),
        }
}

/// Hold a fresh tree to the gates of a tree kill.
pub fn hold_tree(
    root: &KillTarget,
    preview: &ProcessTreeTarget,
    confirmation: ScopeAuthorization,
    host: HostFacts,
) -> (r: Result<(), TreeKillOutcome>)
    ensures
        tree_gates(*root, *preview, confirmation, host, r),
{
    match preflight_outcome(preview, host) {
        Ok(()) => {},
        Err(outcome) => {
            return Err(outcome);
        },
    }
    match root_protection_outcome(preview, confirmation.protected_root_confirmed()) {
        Ok(()) => {},
        Err(outcome) => {
            return Err(outcome);
        },
    }
    fresh_tree_yes_outcome(root, preview, confirmation, host)
}

/// Hold a fresh process table to the gates of a tree kill.
pub fn fresh_tree_gates(
    root: &KillTarget,
    snapshot: &Vec<TreeProcessInfo>,
    config: &Config,
    confirmation: ScopeAuthorization,
    host: HostFacts,
) -> (r: Result<(), TreeKillOutcome>)
    ensures
        fresh_tree_judged(*root, snapshot@, *config, confirmation, host, r),
{
    let planned = plan_process_tree(
        root.pid,
        snapshot,
        config.protected_processes.as_slice(),
        root.platform,
        MAX_TREE_PROCESSES,
    );
    let ghost plan = planned;
    assert(tree_planned(
        root.pid,
        snapshot@,
        config.protected_processes@,
        root.platform,
        MAX_TREE_PROCESSES,
        plan,
    ));
    match planned {
        Ok(preview) => hold_tree(root, &preview, confirmation, host),
        Err(error) => Err(plan_error_outcome(error)),
    }
}

/// A fresh group passes the gates again: besides those of a tree, the root is still in
/// the confirmed group.
pub open spec fn group_gates(
    root: KillTarget,
    group: ProcessGroupTarget,
    pgid: u32,
    confirmation: ScopeAuthorization,
    host: HostFacts,
    r: Result<(), TreeKillOutcome>,
) -> bool {
    if group.pgid != pgid {
        r == Err::<(), TreeKillOutcome>(TreeKillOutcome::TargetChanged { pid: root.pid })
    } else if !preflight_clear(group.members, host) {
        r is Err && preflight_refused(group.members, host, r->Err_0)
    } else if group.members.root_protected() && !confirmation.root_confirmed() {
        r is Err && names_root(group.members.nodes@[0], r->Err_0)
    } else if confirmation.skipped() && !group_skippable(root, group.members, host) {
        r == Err::<(), TreeKillOutcome>(TreeKillOutcome::FreshConfirmationRequired)
    } else {
        r is Ok
    }
}

/// What a fresh process table means for a revalidated root of a group.
pub open spec fn fresh_group_judged(
    root: KillTarget,
    snapshot: Seq<TreeProcessInfo>,
    config: Config,
    pgid: u32,
    confirmation: ScopeAuthorization,
    host: HostFacts,
    r: Result<(), TreeKillOutcome>,
) -> bool {
    exists|planned: Result<ProcessGroupTarget, GroupPlanError>| #[trigger]
        group_planned(
            root.pid,
            snapshot,
            config.protected_processes@,
            root.platform,
            MAX_GROUP_PROCESSES,
            planned,
        ) && match planned {
            Err(GroupPlanError::RootMissing) => r == Err::<(), TreeKillOutcome>(
                TreeKillOutcome::RootAlreadyExited,
            ),
            Err(GroupPlanError::GroupUnavailable) => r == Err::<(), TreeKillOutcome>(
                TreeKillOutcome::TargetChanged { pid: root.pid },
            ),
            Ok(group) => group_gates(root, group, pgid, confirmation, host, r),
        }
}

/// The group that the user confirmed, and how.
#[derive(Debug, Clone, Copy, PartialEq, Eq, Structural)]
pub struct ConfirmedGroupFacts {
    pub pgid: u32,
    pub confirmation: ScopeAuthorization,
}

/// Hold a fresh process table to the gates of a group kill.
pub fn fresh_group_gates(
    root: &KillTarget,
    snapshot: &Vec<TreeProcessInfo>,
    config: &Config,
    confirmed_group: ConfirmedGroupFacts,
    host: HostFacts,
) -> (r: Result<(), TreeKillOutcome>)
    ensures
        fresh_group_judged(
            *root,
            snapshot@,
            *config,
            confirmed_group.pgid,
            confirmed_group.confirmation,
            host,
            r,
        ),
{
    let planned = plan_process_group(
        root.pid,
        snapshot,
        config.protected_processes.as_slice(),
        root.platform,
        MAX_GROUP_PROCESSES,
    );
    let ghost plan = planned;
    assert(group_planned(
        root.pid,
        snapshot@,
        config.protected_processes@,
        root.platform,
        MAX_GROUP_PROCESSES,
        plan,
    ));
    let group = match planned {
        Ok(group) => group,
        Err(GroupPlanError::RootMissing) => {
            return Err(TreeKillOutcome::RootAlreadyExited);
        },
        Err(GroupPlanError::GroupUnavailable) => {
            return Err(TreeKillOutcome::TargetChanged { pid: root.pid });
        },
    };
    if group.pgid() != confirmed_group.pgid {
        return Err(TreeKillOutcome::TargetChanged { pid: root.pid });
    }
    match preflight_outcome(group.members(), host) {
        Ok(()) => {},
        Err(outcome) => {
            return Err(outcome);
        },
    }
    match root_protection_outcome(
        group.members(),
        confirmed_group.confirmation.protected_root_confirmed(),
    ) {
        Ok(()) => {},
        Err(outcome) => {
            return Err(outcome);
        },
    }
    if confirmed_group.confirmation.prompt_skipped() && !group_yes_skip_allowed(
        root,
        group.members(),
        host,
    ) {
        return Err(TreeKillOutcome::FreshConfirmationRequired);
    }
    Ok(())
}

/// Which part of the process table is wanted.
#[derive(Debug, Clone, Copy, PartialEq, Eq, Structural)]
pub enum TreeSnapshotScope {
    Whole,
    Tree { root_pid: u32 },
    Group { root_pid: u32, pgid: u32 },
}

/// The part of the table that a scope needs around a root.
pub open spec fn scope_around(root_pid: u32, pgid: Option<u32>) -> TreeSnapshotScope {
    match pgid {
        Some(pgid) => TreeSnapshotScope::Group { root_pid, pgid },
        None => TreeSnapshotScope::Tree { root_pid },
    }
}

/// What a fresh process table means for a revalidated root: of a group where the user
/// confirmed one, of a tree otherwise.
pub open spec fn fresh_scope_judged(
    root: KillTarget,
    snapshot: Seq<TreeProcessInfo>,
    config: Config,
    pgid: Option<u32>,
    confirmation: ScopeAuthorization,
    host: HostFacts,
    r: Result<(), TreeKillOutcome>,
) -> bool {
    match pgid {
        Some(pgid) => fresh_group_judged(root, snapshot, config, pgid, confirmation, host, r),
        None => fresh_tree_judged(root, snapshot, config, confirmation, host, r),
    }
}

/// A root goes on where the gates let it.
pub open spec fn gated(
    root: KillTarget,
    snapshot: Seq<TreeProcessInfo>,
    config: Config,
    pgid: Option<u32>,
    confirmation: ScopeAuthorization,
    host: HostFacts,
    r: Result<KillTarget, TreeKillOutcome>,
) -> bool {
    exists|gates: Result<(), TreeKillOutcome>| #[trigger]
        fresh_scope_judged(root, snapshot, config, pgid, confirmation, host, gates) && match gates {
            Ok(_) => r == Ok::<KillTarget, TreeKillOutcome>(root),
            Err(outcome) => r == Err::<KillTarget, TreeKillOutcome>(outcome),
        }
}

/// What a process table that was taken means for a root without ports.
pub open spec fn portless_looked(
    confirmed: KillTarget,
    config: Config,
    pgid: Option<u32>,
    confirmation: ScopeAuthorization,
    platform: Platform,
    host: HostFacts,
    taken: Result<Vec<TreeProcessInfo>, String>,
    r: Result<KillTarget, TreeKillOutcome>,
) -> bool {
    match taken {
        Err(error) => r == Err::<KillTarget, TreeKillOutcome>(
            TreeKillOutcome::SnapshotFailed(error),
        ),
        Ok(infos) => exists|root: Result<KillTarget, TreeKillOutcome>| #[trigger]
            portless_judged(
                confirmed,
                infos@,
                config.protected_processes@,
                platform,
                root,
            ) && match root {
                Err(outcome) => r == Err::<KillTarget, TreeKillOutcome>(outcome),
                Ok(root) => gated(root, infos@, config, pgid, confirmation, host, r),
            },
    }
}

/// A root without ports is looked up in one fresh process table, and held to the gates
/// with it. Neither ports nor contexts are read.
pub open spec fn portless_revalidated<H>(
    confirmed: KillTarget,
    config: Config,
    pgid: Option<u32>,
    confirmation: ScopeAuthorization,
    platform: Platform,
    host: HostFacts,
    before: Seq<Operation<H>>,
    after: Seq<Operation<H>>,
    r: Result<KillTarget, TreeKillOutcome>,
) -> bool {
    exists|taken: Result<Vec<TreeProcessInfo>, String>|
        after == before.push(Operation::Table(scope_around(confirmed.pid, pgid), taken))
            && #[trigger] portless_looked(
            confirmed,
            config,
            pgid,
            confirmation,
            platform,
            host,
            taken,
            r,
        )
}

/// What a process table that was taken means for a root that the port table found again.
pub open spec fn ported_looked(
    root: KillTarget,
    config: Config,
    pgid: Option<u32>,
    confirmation: ScopeAuthorization,
    host: HostFacts,
    taken: Result<Vec<TreeProcessInfo>, String>,
    r: Result<KillTarget, TreeKillOutcome>,
) -> bool {
    match taken {
        Err(error) => r == Err::<KillTarget, TreeKillOutcome>(
            TreeKillOutcome::SnapshotFailed(error),
        ),
        Ok(infos) => gated(root, infos@, config, pgid, confirmation, host, r),
    }
}

/// A root with ports is looked up in the port table, then held to the gates with a
/// fresh process table.
pub open spec fn ported_revalidated<H>(
    args: KillArgs,
    confirmed: KillTarget,
    config: Config,
    pgid: Option<u32>,
    confirmation: ScopeAuthorization,
    host: HostFacts,
    before: Seq<Operation<H>>,
    after: Seq<Operation<H>>,
    r: Result<KillTarget, TreeKillOutcome>,
    aside: Seq<Seq<char>>,
) -> bool {
    exists|looked: Result<KillTarget, TerminationOutcome>, middle: Seq<Operation<H>>| #[trigger]
        revalidated(args, config, confirmed, host, false, before, middle, looked, aside)
            && match looked {
            Err(outcome) => after == middle && r is Err && scope_outcome(
                confirmed,
                outcome,
                r->Err_0,
            ),
            Ok(root) => exists|taken: Result<Vec<TreeProcessInfo>, String>|
                after == middle.push(Operation::Table(scope_around(root.pid, pgid), taken))
                    && #[trigger] ported_looked(root, config, pgid, confirmation, host, taken, r),
        }
}

/// A confirmed root was looked up again and held to the gates, and this was said beside
/// the result. Only the port table has something to say: of a port that became ambiguous.
pub open spec fn scope_revalidated<H>(
    args: KillArgs,
    confirmed: KillTarget,
    config: Config,
    pgid: Option<u32>,
    confirmation: ScopeAuthorization,
    platform: Platform,
    host: HostFacts,
    before: Seq<Operation<H>>,
    after: Seq<Operation<H>>,
    r: Result<KillTarget, TreeKillOutcome>,
    aside: Seq<Seq<char>>,
) -> bool {
    if confirmed.ports.len() == 0 {
        portless_revalidated(
            confirmed,
            config,
            pgid,
            confirmation,
            platform,
            host,
            before,
            after,
            r,
        ) && aside == Seq::<Seq<char>>::empty()
    } else {
        ported_revalidated(
            args,
            confirmed,
            config,
            pgid,
            confirmation,
            host,
            before,
            after,
            r,
            aside,
        )
    }
}

fn hold_to_gates(
    root: KillTarget,
    snapshot: &Vec<TreeProcessInfo>,
    config: &Config,
    pgid: Option<u32>,
    confirmation: ScopeAuthorization,
    host: HostFacts,
) -> (r: Result<KillTarget, TreeKillOutcome>)
    ensures
        gated(root, snapshot@, *config, pgid, confirmation, host, r),
{
    let gates = match pgid {
        Some(pgid) => fresh_group_gates(
            &root,
            snapshot,
            config,
            ConfirmedGroupFacts { pgid, confirmation },
            host,
        ),
        None => fresh_tree_gates(&root, snapshot, config, confirmation, host),
    };
    let ghost held = gates;
    assert(fresh_scope_judged(root, snapshot@, *config, pgid, confirmation, host, held));
    match gates {
        Ok(()) => Ok(root),
        Err(outcome) => Err(outcome),
    }
}

fn snapshot_scope(root_pid: u32, pgid: Option<u32>) -> (r: TreeSnapshotScope)
    ensures
        r == scope_around(root_pid, pgid),
{
    match pgid {
        Some(pgid) => TreeSnapshotScope::Group { root_pid, pgid },
        None => TreeSnapshotScope::Tree { root_pid },
    }
}

#[verifier::rlimit(30)]
fn revalidate_scope_root<T: ReadsTable + ReadsContext + ReadsPorts, H, D: Sink>(
    args: &KillArgs,
    config: &Config,
    confirmed: &KillTarget,
    pgid: Option<u32>,
    confirmation: ScopeAuthorization,
    platform: Platform,
    host: HostFacts,
    tools: &mut Recorded<T, H>,
    diagnostics: &mut D,
) -> (r: Result<KillTarget, TreeKillOutcome>)
    requires
        args.wf(),
    ensures
        exists|aside: Seq<Seq<char>>| #[trigger]
            scope_revalidated(
                *args,
                *confirmed,
                *config,
                pgid,
                confirmation,
                platform,
                host,
                old(tools).log(),
                final(tools).log(),
                r,
                aside,
            ) && said(*old(diagnostics), *final(diagnostics), aside),
{
    proof {
        lemma_said_nothing(*old(diagnostics));
    }
    let ghost before = tools.log();
    if confirmed.ports.len() == 0 {
        let taken = tools.take_snapshot(snapshot_scope(confirmed.pid, pgid));
        let ghost seen = taken;
        let infos = match taken {
            Ok(infos) => infos,
            Err(error) => {
                let refusal = Err(TreeKillOutcome::SnapshotFailed(error));
                assert(portless_looked(
                    *confirmed,
                    *config,
                    pgid,
                    confirmation,
                    platform,
                    host,
                    seen,
                    refusal,
                ));
                assert(scope_revalidated(
                    *args,
                    *confirmed,
                    *config,
                    pgid,
                    confirmation,
                    platform,
                    host,
                    before,
                    tools.log(),
                    refusal,
                    Seq::empty(),
                ));
                return refusal;
            },
        };
        let looked = revalidate_portless_tree_root(
            confirmed,
            &infos,
            config.protected_processes.as_slice(),
            platform,
        );
        let ghost found = looked;
        assert(portless_judged(
            *confirmed,
            infos@,
            config.protected_processes@,
            platform,
            found,
        ));
        let r = match looked {
            Ok(root) => hold_to_gates(root, &infos, config, pgid, confirmation, host),
            Err(outcome) => Err(outcome),
        };
        assert(portless_looked(
            *confirmed,
            *config,
            pgid,
            confirmation,
            platform,
            host,
            seen,
            r,
        ));
        assert(scope_revalidated(
            *args,
            *confirmed,
            *config,
            pgid,
            confirmation,
            platform,
            host,
            before,
            tools.log(),
            r,
            Seq::empty(),
        ));
        return r;
    }
    let looked = revalidate_cli_target(
        args,
        config,
        confirmed,
        host,
        tools,
        diagnostics,
    );
    let ghost found = looked;
    let ghost middle = tools.log();
    let ghost aside = choose|aside: Seq<Seq<char>>| #[trigger]
        revalidated(
            *args,
            *config,
            *confirmed,
            host,
            false,
            before,
            middle,
            found,
            aside,
        ) && said(*old(diagnostics), *diagnostics, aside);
    let root = match looked {
        Ok(root) => root,
        Err(outcome) => {
            let refusal = Err(tree_outcome_from_termination(confirmed, outcome));
            assert(scope_revalidated(
                *args,
                *confirmed,
                *config,
                pgid,
                confirmation,
                platform,
                host,
                before,
                tools.log(),
                refusal,
                aside,
            ));
            return refusal;
        },
    };
    let taken = tools.take_snapshot(snapshot_scope(root.pid, pgid));
    let ghost seen = taken;
    let ghost kept = root;
    let r = match taken {
        Ok(infos) => hold_to_gates(root, &infos, config, pgid, confirmation, host),
        Err(error) => Err(TreeKillOutcome::SnapshotFailed(error)),
    };
    assert(ported_looked(kept, *config, pgid, confirmation, host, seen, r));
    assert(scope_revalidated(
        *args,
        *confirmed,
        *config,
        pgid,
        confirmation,
        platform,
        host,
        before,
        tools.log(),
        r,
        aside,
    ));
    r
}

/// Look the confirmed root of a tree up again, and hold the fresh tree to the gates.
pub fn revalidate_tree_root_before_freeze<T: ReadsTable + ReadsContext + ReadsPorts, H, D: Sink>(
    args: &KillArgs,
    config: &Config,
    confirmed: &KillTarget,
    confirmation: ScopeAuthorization,
    platform: Platform,
    host: HostFacts,
    tools: &mut Recorded<T, H>,
    diagnostics: &mut D,
) -> (r: Result<KillTarget, TreeKillOutcome>)
    requires
        args.wf(),
    ensures
        exists|aside: Seq<Seq<char>>| #[trigger]
            scope_revalidated(
                *args,
                *confirmed,
                *config,
                None,
                confirmation,
                platform,
                host,
                old(tools).log(),
                final(tools).log(),
                r,
                aside,
            ) && said(*old(diagnostics), *final(diagnostics), aside),
{
    revalidate_scope_root(
        args,
        config,
        confirmed,
        None,
        confirmation,
        platform,
        host,
        tools,
        diagnostics,
    )
}

/// Look the confirmed root of a group up again, and hold the fresh group to the gates.
/// Members may have come and gone; the root must still be in the confirmed group.
pub fn revalidate_group_root_before_freeze<T: ReadsTable + ReadsContext + ReadsPorts, H, D: Sink>(
    args: &KillArgs,
    config: &Config,
    confirmed: &KillTarget,
    confirmed_group: ConfirmedGroupFacts,
    platform: Platform,
    host: HostFacts,
    tools: &mut Recorded<T, H>,
    diagnostics: &mut D,
) -> (r: Result<KillTarget, TreeKillOutcome>)
    requires
        args.wf(),
    ensures
        exists|aside: Seq<Seq<char>>| #[trigger]
            scope_revalidated(
                *args,
                *confirmed,
                *config,
                Some(confirmed_group.pgid),
                confirmed_group.confirmation,
                platform,
                host,
                old(tools).log(),
                final(tools).log(),
                r,
                aside,
            ) && said(*old(diagnostics), *final(diagnostics), aside),
{
    revalidate_scope_root(
        args,
        config,
        confirmed,
        Some(confirmed_group.pgid),
        confirmed_group.confirmation,
        platform,
        host,
        tools,
        diagnostics,
    )
}

/// One question to the user: no reason to end where they agreed.
pub open spec fn stepped<H>(
    root: KillTarget,
    members: ProcessTreeTarget,
    requirement: TreeConfirmation,
    before: Seq<Operation<H>>,
    after: Seq<Operation<H>>,
    r: Option<ExitReason>,
    lines: Seq<Seq<char>>,
) -> bool {
    exists|answer: Result<bool, IoError>|
        after == before.push(Operation::ScopeAsked(root, members, requirement, answer))
            && #[trigger] step_told(answer, r, lines)
}

/// What an answer leads to.
pub open spec fn step_told(
    answer: Result<bool, IoError>,
    r: Option<ExitReason>,
    lines: Seq<Seq<char>>,
) -> bool {
    match answer {
        Err(error) => r == Some(ExitReason::Failure) && lines == seq![
            "error: reading confirmation failed: "@ + error.message@,
        ],
        Ok(true) => r is None && lines == Seq::<Seq<char>>::empty(),
        Ok(false) => r == Some(ExitReason::KillCancelled) && lines == seq!["kill cancelled"@],
    }
}

/// Ask the user one question.
pub fn prompt_tree_step<T: AsksScope, H, D: Sink>(
    root: &KillTarget,
    members: &ProcessTreeTarget,
    requirement: TreeConfirmation,
    tools: &mut Recorded<T, H>,
    diagnostics: &mut D,
) -> (r: Option<ExitReason>)
    ensures
        exists|lines: Seq<Seq<char>>|
            said(*old(diagnostics), *final(diagnostics), lines) && #[trigger] stepped(
                *root,
                *members,
                requirement,
                old(tools).log(),
                final(tools).log(),
                r,
                lines,
            ),
{
    proof {
        lemma_said_nothing(*old(diagnostics));
    }
    let ghost before = tools.log();
    let answer = tools.scope_prompt(root, members, requirement);
    let ghost given = answer;
    match answer {
        Ok(true) => {
            assert(given == Ok::<bool, IoError>(true));
            assert(step_told(given, None, Seq::empty()));
            assert(stepped(
                *root,
                *members,
                requirement,
                before,
                tools.log(),
                None,
                Seq::empty(),
            ));
            None
        },
        Ok(false) => {
            assert(given == Ok::<bool, IoError>(false));
            write_line(diagnostics, "kill cancelled");
            assert(step_told(given, Some(ExitReason::KillCancelled), seq!["kill cancelled"@]));
            assert(stepped(
                *root,
                *members,
                requirement,
                before,
                tools.log(),
                Some(ExitReason::KillCancelled),
                seq!["kill cancelled"@],
            ));
            Some(ExitReason::KillCancelled)
        },
        Err(error) => {
            let line = "error: reading confirmation failed: ".to_owned().concat(
                error.message.as_str(),
            );
            write_line(diagnostics, line.as_str());
            assert(step_told(given, Some(ExitReason::Failure), seq![line@]));
            assert(stepped(
                *root,
                *members,
                requirement,
                before,
                tools.log(),
                Some(ExitReason::Failure),
                seq![line@],
            ));
            Some(ExitReason::Failure)
        },
    }
}

/// What the questions of a decision lead to: one question for the word; for a protected
/// root its identity first, and the word only after that.
pub open spec fn scope_confirmed<H>(
    root: KillTarget,
    members: ProcessTreeTarget,
    decision: TreeConfirmDecision,
    before: Seq<Operation<H>>,
    after: Seq<Operation<H>>,
    r: Result<ScopeAuthorization, ExitReason>,
    lines: Seq<Seq<char>>,
) -> bool {
    match decision {
        TreeConfirmDecision::RefuseProtectedYes => after == before && r == Err::<
            ScopeAuthorization,
            ExitReason,
        >(ExitReason::ProtectedNeedsConfirmation) && lines == seq![
            "error: "@ + identity_text(root)
                + " is protected; --yes cannot bypass protected-process confirmation"@,
        ],
        TreeConfirmDecision::Skip => after == before && r == Ok::<ScopeAuthorization, ExitReason>(
            ScopeAuthorization::SkippedAllClear,
        ) && lines == Seq::<Seq<char>>::empty(),
        TreeConfirmDecision::PromptWord(word) => word_asked(
            root,
            members,
            word,
            ScopeAuthorization::TypedWordConfirmed,
            before,
            after,
            r,
            lines,
        ),
        TreeConfirmDecision::PromptProtectedThenWord(word) => exists|
            step: Option<ExitReason>,
            first: Seq<Seq<char>>,
            middle: Seq<Operation<H>>,
        | #[trigger]
            stepped(root, members, TreeConfirmation::ProtectedRoot, before, middle, step, first)
                && match step {
                Some(reason) => after == middle && r == Err::<ScopeAuthorization, ExitReason>(
                    reason,
                ) && lines == first,
                None => word_asked(
                    root,
                    members,
                    word,
                    ScopeAuthorization::ProtectedRootAndWordConfirmed,
                    middle,
                    after,
                    r,
                    lines,
                ),
            },
    }
}

/// The word of a scope was asked for, and typing it gives an authorization.
pub open spec fn word_asked<H>(
    root: KillTarget,
    members: ProcessTreeTarget,
    word: &'static str,
    granted: ScopeAuthorization,
    before: Seq<Operation<H>>,
    after: Seq<Operation<H>>,
    r: Result<ScopeAuthorization, ExitReason>,
    lines: Seq<Seq<char>>,
) -> bool {
    exists|step: Option<ExitReason>| #[trigger]
        stepped(root, members, TreeConfirmation::TypedWord(word), before, after, step, lines)
            && r == match step {
            Some(reason) => Err::<ScopeAuthorization, ExitReason>(reason),
            None => Ok(granted),
        }
}

/// Ask what a decision calls for.
#[verifier::rlimit(30)]
pub fn confirm_scoped_kill<T: AsksScope, H, D: Sink>(
    root: &KillTarget,
    members: &ProcessTreeTarget,
    decision: TreeConfirmDecision,
    tools: &mut Recorded<T, H>,
    diagnostics: &mut D,
) -> (r: Result<ScopeAuthorization, ExitReason>)
    ensures
        exists|lines: Seq<Seq<char>>|
            said(*old(diagnostics), *final(diagnostics), lines) && #[trigger] scope_confirmed(
                *root,
                *members,
                decision,
                old(tools).log(),
                final(tools).log(),
                r,
                lines,
            ),
{
    proof {
        lemma_said_nothing(*old(diagnostics));
    }
    let ghost before = tools.log();
    match decision {
        TreeConfirmDecision::RefuseProtectedYes => {
            let mut text = "error: ".to_owned();
            text.append(root.identity().as_str());
            text.append(" is protected; --yes cannot bypass protected-process confirmation");
            write_line(diagnostics, text.as_str());
            assert(scope_confirmed(
                *root,
                *members,
                decision,
                before,
                tools.log(),
                Err(ExitReason::ProtectedNeedsConfirmation),
                seq![text@],
            ));
            Err(ExitReason::ProtectedNeedsConfirmation)
        },
        TreeConfirmDecision::Skip => {
            assert(scope_confirmed(
                *root,
                *members,
                decision,
                before,
                tools.log(),
                Ok(ScopeAuthorization::SkippedAllClear),
                Seq::empty(),
            ));
            Ok(ScopeAuthorization::SkippedAllClear)
        },
        TreeConfirmDecision::PromptWord(word) => {
            let r = ask_for_word(
                root,
                members,
                word,
                ScopeAuthorization::TypedWordConfirmed,
                tools,
                diagnostics,
            );
            proof {
                let lines = choose|lines: Seq<Seq<char>>|
                    said(*old(diagnostics), *diagnostics, lines) && #[trigger] word_asked(
                        *root,
                        *members,
                        word,
                        ScopeAuthorization::TypedWordConfirmed,
                        before,
                        tools.log(),
                        r,
                        lines,
                    );
                assert(scope_confirmed(*root, *members, decision, before, tools.log(), r, lines));
            }
            r
        },
        TreeConfirmDecision::PromptProtectedThenWord(word) => {
            let step = prompt_tree_step(
                root,
                members,
                TreeConfirmation::ProtectedRoot,
                tools,
                diagnostics,
            );
            let ghost told = *diagnostics;
            let ghost middle = tools.log();
            let ghost first = choose|first: Seq<Seq<char>>|
                said(*old(diagnostics), told, first) && #[trigger] stepped(
                    *root,
                    *members,
                    TreeConfirmation::ProtectedRoot,
                    before,
                    middle,
                    step,
                    first,
                );
            if let Some(reason) = step {
                assert(scope_confirmed(
                    *root,
                    *members,
                    decision,
                    before,
                    tools.log(),
                    Err(reason),
                    first,
                ));
                return Err(reason);
            }
            let r = ask_for_word(
                root,
                members,
                word,
                ScopeAuthorization::ProtectedRootAndWordConfirmed,
                tools,
                diagnostics,
            );
            proof {
                let lines = choose|lines: Seq<Seq<char>>|
                    said(told, *diagnostics, lines) && #[trigger] word_asked(
                        *root,
                        *members,
                        word,
                        ScopeAuthorization::ProtectedRootAndWordConfirmed,
                        middle,
                        tools.log(),
                        r,
                        lines,
                    );
                lemma_said_more(*old(diagnostics), told, *diagnostics, first, lines);
                assert(first + lines =~= lines);
                assert(scope_confirmed(*root, *members, decision, before, tools.log(), r, lines));
            }
            r
        },
    }
}

fn ask_for_word<T: AsksScope, H, D: Sink>(
    root: &KillTarget,
    members: &ProcessTreeTarget,
    word: &'static str,
    granted: ScopeAuthorization,
    tools: &mut Recorded<T, H>,
    diagnostics: &mut D,
) -> (r: Result<ScopeAuthorization, ExitReason>)
    ensures
        exists|lines: Seq<Seq<char>>|
            said(*old(diagnostics), *final(diagnostics), lines) && #[trigger] word_asked(
                *root,
                *members,
                word,
                granted,
                old(tools).log(),
                final(tools).log(),
                r,
                lines,
            ),
{
    let ghost before = tools.log();
    let step = prompt_tree_step(
        root,
        members,
        TreeConfirmation::TypedWord(word),
        tools,
        diagnostics,
    );
    let r: Result<ScopeAuthorization, ExitReason> = match step {
        Some(reason) => Err(reason),
        None => Ok(granted),
    };
    proof {
        let lines = choose|lines: Seq<Seq<char>>|
            said(*old(diagnostics), *diagnostics, lines) && #[trigger] stepped(
                *root,
                *members,
                TreeConfirmation::TypedWord(word),
                before,
                tools.log(),
                step,
                lines,
            );
        assert(word_asked(*root, *members, word, granted, before, tools.log(), r, lines));
    }
    r
}

/// A banner was shown, unless the decision refuses outright, and then the questions of
/// the decision were asked.
pub open spec fn shown_and_confirmed<H>(
    root: KillTarget,
    members: ProcessTreeTarget,
    decision: TreeConfirmDecision,
    banner: Seq<Seq<char>>,
    before: Seq<Operation<H>>,
    after: Seq<Operation<H>>,
    r: Result<ScopeAuthorization, ExitReason>,
    lines: Seq<Seq<char>>,
) -> bool {
    if decision is RefuseProtectedYes {
        scope_confirmed(root, members, decision, before, after, r, lines)
    } else {
        banner.is_prefix_of(lines) && scope_confirmed(
            root,
            members,
            decision,
            before,
            after,
            r,
            lines.skip(banner.len() as int),
        )
    }
}

/// The confirmation of a tree: the questions of its decision.
pub open spec fn tree_confirmed<H>(
    root: KillTarget,
    preview: ProcessTreeTarget,
    mode: KillMode,
    yes: bool,
    host: HostFacts,
    before: Seq<Operation<H>>,
    after: Seq<Operation<H>>,
    r: Result<ScopeAuthorization, ExitReason>,
    lines: Seq<Seq<char>>,
) -> bool {
    exists|decision: TreeConfirmDecision| #[trigger]
        decides(
            root_is_protected(root, preview),
            yes,
            tree_skippable(root, preview, host),
            tree_word(mode),
            decision,
        ) && shown_and_confirmed(
            root,
            preview,
            decision,
            tree_banner_lines(root, preview.nodes@, mode, host),
            before,
            after,
            r,
            lines,
        )
}

/// Confirm a tree kill.
pub fn confirm_tree_kill<T: AsksScope, H, D: Sink>(
    root: &KillTarget,
    preview: &ProcessTreeTarget,
    mode: KillMode,
    yes: bool,
    host: HostFacts,
    tools: &mut Recorded<T, H>,
    diagnostics: &mut D,
) -> (r: Result<ScopeAuthorization, ExitReason>)
    ensures
        exists|lines: Seq<Seq<char>>|
            said(*old(diagnostics), *final(diagnostics), lines) && #[trigger] tree_confirmed(
                *root,
                *preview,
                mode,
                yes,
                host,
                old(tools).log(),
                final(tools).log(),
                r,
                lines,
            ),
{
    let decision = tree_confirmation(root, preview, mode, yes, host);
    proof {
        lemma_said_nothing(*old(diagnostics));
    }
    let ghost before = tools.log();
    match decision {
        TreeConfirmDecision::RefuseProtectedYes => {},
        _ => {
            print_tree_kill_banner(diagnostics, root, preview, mode, host);
        },
    }
    let ghost banner = tree_banner_lines(*root, preview.nodes@, mode, host);
    let ghost shown = if decision is RefuseProtectedYes {
        Seq::empty()
    } else {
        banner
    };
    let ghost middle = *diagnostics;
    let r = confirm_scoped_kill(root, preview, decision, tools, diagnostics);
    proof {
        let rest = choose|rest: Seq<Seq<char>>|
            said(middle, *diagnostics, rest) && #[trigger] scope_confirmed(
                *root,
                *preview,
                decision,
                before,
                tools.log(),
                r,
                rest,
            );
        lemma_said_more(*old(diagnostics), middle, *diagnostics, shown, rest);
        if decision is RefuseProtectedYes {
            assert(shown + rest =~= rest);
        } else {
            assert((shown + rest).skip(banner.len() as int) =~= rest);
            assert(banner.is_prefix_of(shown + rest));
        }
        assert(shown_and_confirmed(
            *root,
            *preview,
            decision,
            banner,
            before,
            tools.log(),
            r,
            shown + rest,
        ));
        assert(tree_confirmed(
            *root,
            *preview,
            mode,
            yes,
            host,
            before,
            tools.log(),
            r,
            shown + rest,
        ));
    }
    r
}

/// The confirmation of a group: the questions of its decision.
pub open spec fn group_confirmed<H>(
    root: KillTarget,
    group: ProcessGroupTarget,
    mode: KillMode,
    yes: bool,
    host: HostFacts,
    before: Seq<Operation<H>>,
    after: Seq<Operation<H>>,
    r: Result<ScopeAuthorization, ExitReason>,
    lines: Seq<Seq<char>>,
) -> bool {
    exists|decision: TreeConfirmDecision| #[trigger]
        decides(
            root_is_protected(root, group.members),
            yes,
            group_skippable(root, group.members, host),
            group_word(mode),
            decision,
        ) && shown_and_confirmed(
            root,
            group.members,
            decision,
            group_banner_lines(root, group.pgid, group.members.nodes@, mode, host),
            before,
            after,
            r,
            lines,
        )
}

/// Confirm a group kill.
pub fn confirm_group_kill<T: AsksScope, H, D: Sink>(
    root: &KillTarget,
    group: &ProcessGroupTarget,
    mode: KillMode,
    yes: bool,
    host: HostFacts,
    tools: &mut Recorded<T, H>,
    diagnostics: &mut D,
) -> (r: Result<ScopeAuthorization, ExitReason>)
    ensures
        exists|lines: Seq<Seq<char>>|
            said(*old(diagnostics), *final(diagnostics), lines) && #[trigger] group_confirmed(
                *root,
                *group,
                mode,
                yes,
                host,
                old(tools).log(),
                final(tools).log(),
                r,
                lines,
            ),
{
    let decision = group_confirmation(root, group, mode, yes, host);
    proof {
        lemma_said_nothing(*old(diagnostics));
    }
    let ghost before = tools.log();
    match decision {
        TreeConfirmDecision::RefuseProtectedYes => {},
        _ => {
            print_group_kill_banner(diagnostics, root, group, mode, host);
        },
    }
    let ghost banner = group_banner_lines(
        *root,
        group.pgid,
        group.members.nodes@,
        mode,
        host,
    );
    let ghost shown = if decision is RefuseProtectedYes {
        Seq::empty()
    } else {
        banner
    };
    let ghost middle = *diagnostics;
    let r = confirm_scoped_kill(root, group.members(), decision, tools, diagnostics);
    proof {
        let rest = choose|rest: Seq<Seq<char>>|
            said(middle, *diagnostics, rest) && #[trigger] scope_confirmed(
                *root,
                group.members,
                decision,
                before,
                tools.log(),
                r,
                rest,
            );
        lemma_said_more(*old(diagnostics), middle, *diagnostics, shown, rest);
        if decision is RefuseProtectedYes {
            assert(shown + rest =~= rest);
        } else {
            assert((shown + rest).skip(banner.len() as int) =~= rest);
            assert(banner.is_prefix_of(shown + rest));
        }
        assert(shown_and_confirmed(
            *root,
            group.members,
            decision,
            banner,
            before,
            tools.log(),
            r,
            shown + rest,
        ));
        assert(group_confirmed(
            *root,
            *group,
            mode,
            yes,
            host,
            before,
            tools.log(),
            r,
            shown + rest,
        ));
    }
    r
}

/// The lines about how a scoped kill ended: the outcome and, where processes ended, what
/// became of the root's ports.
pub open spec fn scope_ending_lines<H>(
    target: KillTarget,
    mode: KillMode,
    outcome: TreeKillOutcome,
    before: Seq<Operation<H>>,
    after: Seq<Operation<H>>,
    lines: Seq<Seq<char>>,
) -> bool {
    let ending = seq![tree_outcome_text(target, mode, outcome)];
    if outcome is Completed || outcome is RootAlreadyExited {
        then_ports(target.ports@, before, after, ending, lines)
    } else {
        after == before && lines == ending
    }
}

/// The lines about a root that the second look refused: what the look said, then the
/// outcome.
pub open spec fn scope_refusal_lines<H>(
    root: KillTarget,
    mode: KillMode,
    outcome: TreeKillOutcome,
    aside: Seq<Seq<char>>,
    before: Seq<Operation<H>>,
    after: Seq<Operation<H>>,
    lines: Seq<Seq<char>>,
) -> bool {
    exists|rest: Seq<Seq<char>>|
        lines == aside + rest && #[trigger] scope_ending_lines(
            root,
            mode,
            outcome,
            before,
            after,
            rest,
        )
}

/// The kill ran once on a fresh root, and its outcome is the reason.
pub open spec fn scope_executed<H>(
    fresh: KillTarget,
    pgid: Option<u32>,
    mode: KillMode,
    names: Vec<String>,
    authorization: ScopeAuthorization,
    before: Seq<Operation<H>>,
    after: Seq<Operation<H>>,
    r: ExitReason,
    lines: Seq<Seq<char>>,
) -> bool {
    exists|outcome: TreeKillOutcome|
        r == tree_reason(outcome) && #[trigger] scope_ending_lines(
            fresh,
            mode,
            outcome,
            before.push(
                Operation::ScopeKilled(fresh, pgid, mode, names, authorization, outcome),
            ),
            after,
            lines,
        )
}

/// What holding on to the root led to: it was looked up again, and killed where it passed.
pub open spec fn scope_pinned<H>(
    args: KillArgs,
    config: Config,
    platform: Platform,
    host: HostFacts,
    mode: KillMode,
    root: KillTarget,
    pgid: Option<u32>,
    authorization: ScopeAuthorization,
    pinned: Result<(), TreeKillOutcome>,
    before: Seq<Operation<H>>,
    after: Seq<Operation<H>>,
    r: ExitReason,
    lines: Seq<Seq<char>>,
) -> bool {
    match pinned {
        Err(outcome) => r == tree_reason(outcome) && scope_ending_lines(
            root,
            mode,
            outcome,
            before,
            after,
            lines,
        ),
        Ok(_) => exists|
            fresh: Result<KillTarget, TreeKillOutcome>,
            aside: Seq<Seq<char>>,
            middle: Seq<Operation<H>>,
        |
            #[trigger]
            scope_revalidated(
                args,
                root,
                config,
                pgid,
                authorization,
                platform,
                host,
                before,
                middle,
                fresh,
                aside,
            ) && match fresh {
                Err(outcome) => r == tree_reason(outcome) && scope_refusal_lines(
                    root,
                    mode,
                    outcome,
                    aside,
                    middle,
                    after,
                    lines,
                ),
                Ok(fresh) => scope_executed(
                    fresh,
                    pgid,
                    mode,
                    config.protected_processes,
                    authorization,
                    middle,
                    after,
                    r,
                    lines,
                ),
            },
    }
}

/// A confirmed scope was pinned, looked up again, and killed where it passed.
pub open spec fn scope_committed<H>(
    args: KillArgs,
    config: Config,
    platform: Platform,
    host: HostFacts,
    mode: KillMode,
    root: KillTarget,
    pgid: Option<u32>,
    authorization: ScopeAuthorization,
    before: Seq<Operation<H>>,
    after: Seq<Operation<H>>,
    r: ExitReason,
    lines: Seq<Seq<char>>,
) -> bool {
    exists|pinned: Result<(), TreeKillOutcome>| #[trigger]
        scope_pinned(
            args,
            config,
            platform,
            host,
            mode,
            root,
            pgid,
            authorization,
            pinned,
            before.push(Operation::Pinned(root.pid, pinned)),
            after,
            r,
            lines,
        )
}

/// Report how a scoped kill ended. The ports are looked at again where processes ended.
pub(crate) fn report_scope_outcome<T: WatchesPorts, H, D: Sink>(
    target: &KillTarget,
    mode: KillMode,
    outcome: &TreeKillOutcome,
    tools: &mut Recorded<T, H>,
    diagnostics: &mut D,
) -> (r: ExitReason)
    ensures
        r == tree_reason(*outcome),
        exists|lines: Seq<Seq<char>>|
            said(*old(diagnostics), *final(diagnostics), lines) && #[trigger] scope_ending_lines(
                *target,
                mode,
                *outcome,
                old(tools).log(),
                final(tools).log(),
                lines,
            ),
{
    let ghost ending = seq![tree_outcome_text(*target, mode, *outcome)];
    let ghost before = tools.log();
    write_line(diagnostics, tree_kill_status_line(target, mode, outcome).as_str());
    let ended: bool = match outcome {
        TreeKillOutcome::Completed { .. } => true,
        TreeKillOutcome::RootAlreadyExited => true,
        _ => false,
    };
    if ended {
        print_post_kill_refresh_status(
            target,
            tools,
            diagnostics,
            Ghost(*old(diagnostics)),
            Ghost(ending),
        );
        proof {
            let lines = choose|lines: Seq<Seq<char>>|
                said(*old(diagnostics), *diagnostics, lines) && #[trigger] then_ports(
                    target.ports@,
                    before,
                    tools.log(),
                    ending,
                    lines,
                );
            assert(scope_ending_lines(*target, mode, *outcome, before, tools.log(), lines));
        }
    } else {
        assert(scope_ending_lines(*target, mode, *outcome, before, tools.log(), ending));
    }
    exit_reason_for_tree_outcome(outcome)
}

#[verifier::rlimit(30)]
pub(crate) fn commit_scope<
    T: ReadsTable + PinsRoot + ReadsContext + ReadsPorts + WatchesPorts + KillsScope,
    H,
    D: Sink,
>(
    args: &KillArgs,
    config: &Config,
    platform: Platform,
    host: HostFacts,
    mode: KillMode,
    tools: &mut Recorded<T, H>,
    root: &KillTarget,
    pgid: Option<u32>,
    authorization: ScopeAuthorization,
    diagnostics: &mut D,
) -> (r: ExitReason)
    requires
        args.wf(),
    ensures
        exists|lines: Seq<Seq<char>>|
            said(*old(diagnostics), *final(diagnostics), lines) && #[trigger] scope_committed(
                *args,
                *config,
                platform,
                host,
                mode,
                *root,
                pgid,
                authorization,
                old(tools).log(),
                final(tools).log(),
                r,
                lines,
            ),
{
    let ghost before = tools.log();
    let pinned = tools.pin_root(root.pid);
    let ghost held = pinned;
    let ghost holding = tools.log();
    match pinned {
        Ok(()) => {},
        Err(outcome) => {
            let reason = report_scope_outcome(root, mode, &outcome, tools, diagnostics);
            proof {
                let rest = choose|rest: Seq<Seq<char>>|
                    said(*old(diagnostics), *diagnostics, rest) && #[trigger] scope_ending_lines(
                        *root,
                        mode,
                        outcome,
                        holding,
                        tools.log(),
                        rest,
                    );
                assert(scope_pinned(
                    *args,
                    *config,
                    platform,
                    host,
                    mode,
                    *root,
                    pgid,
                    authorization,
                    held,
                    holding,
                    tools.log(),
                    reason,
                    rest,
                ));
                assert(scope_committed(
                    *args,
                    *config,
                    platform,
                    host,
                    mode,
                    *root,
                    pgid,
                    authorization,
                    before,
                    tools.log(),
                    reason,
                    rest,
                ));
            }
            return reason;
        },
    }
    let looked = revalidate_scope_root(
        args,
        config,
        root,
        pgid,
        authorization,
        platform,
        host,
        tools,
        diagnostics,
    );
    let ghost found = looked;
    let ghost told = *diagnostics;
    let ghost middle = tools.log();
    let ghost aside = choose|aside: Seq<Seq<char>>| #[trigger]
        scope_revalidated(
            *args,
            *root,
            *config,
            pgid,
            authorization,
            platform,
            host,
            holding,
            middle,
            found,
            aside,
        ) && said(*old(diagnostics), told, aside);
    let fresh = match looked {
        Ok(fresh) => fresh,
        Err(outcome) => {
            let reason = report_scope_outcome(root, mode, &outcome, tools, diagnostics);
            proof {
                let rest = choose|rest: Seq<Seq<char>>|
                    said(told, *diagnostics, rest) && #[trigger] scope_ending_lines(
                        *root,
                        mode,
                        outcome,
                        middle,
                        tools.log(),
                        rest,
                    );
                lemma_said_more(*old(diagnostics), told, *diagnostics, aside, rest);
                assert(scope_refusal_lines(
                    *root,
                    mode,
                    outcome,
                    aside,
                    middle,
                    tools.log(),
                    aside + rest,
                ));
                assert(scope_pinned(
                    *args,
                    *config,
                    platform,
                    host,
                    mode,
                    *root,
                    pgid,
                    authorization,
                    held,
                    holding,
                    tools.log(),
                    reason,
                    aside + rest,
                ));
                assert(scope_committed(
                    *args,
                    *config,
                    platform,
                    host,
                    mode,
                    *root,
                    pgid,
                    authorization,
                    before,
                    tools.log(),
                    reason,
                    aside + rest,
                ));
            }
            return reason;
        },
    };
    proof {
        law_scope_root_is_the_confirmed_one(
            *args,
            *root,
            *config,
            pgid,
            authorization,
            platform,
            host,
            holding,
            middle,
            fresh,
            aside,
        );
    }
    let outcome = tools.execute(&fresh, pgid, mode, &config.protected_processes, authorization);
    let ghost ran = tools.log();
    let reason = report_scope_outcome(&fresh, mode, &outcome, tools, diagnostics);
    proof {
        let rest = choose|rest: Seq<Seq<char>>|
            said(told, *diagnostics, rest) && #[trigger] scope_ending_lines(
                fresh,
                mode,
                outcome,
                ran,
                tools.log(),
                rest,
            );
        lemma_said_more(*old(diagnostics), told, *diagnostics, aside, rest);
        assert(aside + rest =~= rest);
        assert(scope_executed(
            fresh,
            pgid,
            mode,
            config.protected_processes,
            authorization,
            middle,
            tools.log(),
            reason,
            rest,
        ));
        assert(scope_pinned(
            *args,
            *config,
            platform,
            host,
            mode,
            *root,
            pgid,
            authorization,
            held,
            holding,
            tools.log(),
            reason,
            rest,
        ));
        assert(scope_committed(
            *args,
            *config,
            platform,
            host,
            mode,
            *root,
            pgid,
            authorization,
            before,
            tools.log(),
            reason,
            rest,
        ));
    }
    reason
}

/// The sentence about how a scoped kill ended.
pub open spec fn tree_outcome_text(
    target: KillTarget,
    mode: KillMode,
    outcome: TreeKillOutcome,
) -> Seq<char>
    decreases outcome,
{
    match outcome {
        TreeKillOutcome::Completed { signalled } => "sent "@ + mode.delivery_text(target.platform)
            + " to "@ + decimal(signalled as nat) + " process(es)"@,
        TreeKillOutcome::Truncated { limit } => "error: more than "@ + decimal(limit as nat)
            + " processes; refusing to kill a part of them"@,
        TreeKillOutcome::UnsafePid { pid, reason } => "error: unsafe PID "@ + decimal(pid as nat)
            + " blocked: "@ + reason.text(),
        TreeKillOutcome::ProtectedDescendant { pid, name } => "error: protected process PID "@
            + decimal(pid as nat) + " ("@ + sanitized(or_unknown(name)) + ") refuses the kill"@,
        TreeKillOutcome::ProtectedRoot { pid, name } => "error: protected root PID "@ + decimal(
            pid as nat,
        ) + " ("@ + sanitized(or_unknown(name)) + ") was not confirmed as protected"@,
        TreeKillOutcome::OwnershipUnavailable { pid } => "error: the owner of a port of PID "@
            + decimal(pid as nat) + " can no longer be read"@,
        TreeKillOutcome::RootAlreadyExited => "the root process already exited"@,
        TreeKillOutcome::TargetChanged { pid } => "error: PID "@ + decimal(pid as nat)
            + " is no longer the confirmed process"@,
        TreeKillOutcome::PermissionDenied { pid } => "error: permission denied for PID "@ + decimal(
            pid as nat,
        ),
        TreeKillOutcome::PartialMetadata { pid } => "error: facts about PID "@ + decimal(pid as nat)
            + " could not be read"@,
        TreeKillOutcome::FreshConfirmationRequired =>
            "error: the processes gained warnings after --yes; rerun to confirm them"@,
        TreeKillOutcome::SnapshotFailed(error) => "error: enumerating the processes failed: "@
            + sanitized(error@),
        TreeKillOutcome::ThawFailed { cause, .. } =>
            "error: stopped processes could not be resumed; "@ + tree_outcome_text(
            target,
            mode,
            *cause,
        ),
    }
}

pub open spec fn or_unknown(name: Option<String>) -> Seq<char> {
    match name {
        Some(name) => name@,
        None => "<unknown>"@,
    }
}

pub(crate) fn shown_name(name: &Option<String>) -> (r: String)
    ensures
        r@ == sanitized(or_unknown(*name)),
{
    match name {
        Some(name) => sanitize(name.as_str()),
        None => sanitize("<unknown>"),
    }
}

pub(crate) fn about_pid(head: &str, pid: u32, tail: &str) -> (r: String)
    ensures
        r@ == head@ + decimal(pid as nat) + tail@,
{
    let mut text = head.to_owned();
    text.append(decimal_text(pid as u128).as_str());
    text.append(tail);
    text
}

/// The sentence about how a scoped kill ended.
pub fn tree_kill_status_line(
    target: &KillTarget,
    mode: KillMode,
    outcome: &TreeKillOutcome,
) -> (r: String)
    ensures
        r@ == tree_outcome_text(*target, mode, *outcome),
    decreases *outcome,
{
    match outcome {
        TreeKillOutcome::Completed { signalled } => {
            let mut text = "sent ".to_owned();
            text.append(mode.delivery_label(target.platform));
            text.append(" to ");
            text.append(decimal_text(*signalled as u128).as_str());
            text.append(" process(es)");
            text
        },
        TreeKillOutcome::Truncated { limit } => {
            let mut text = "error: more than ".to_owned();
            text.append(decimal_text(*limit as u128).as_str());
            text.append(" processes; refusing to kill a part of them");
            text
        },
        TreeKillOutcome::UnsafePid { pid, reason } => about_pid(
            "error: unsafe PID ",
            *pid,
            " blocked: ",
        ).concat(reason.message()),
        TreeKillOutcome::ProtectedDescendant { pid, name } => about_pid(
            "error: protected process PID ",
            *pid,
            " (",
        ).concat(shown_name(name).as_str()).concat(") refuses the kill"),
        TreeKillOutcome::ProtectedRoot { pid, name } => about_pid(
            "error: protected root PID ",
            *pid,
            " (",
        ).concat(shown_name(name).as_str()).concat(") was not confirmed as protected"),
        TreeKillOutcome::OwnershipUnavailable { pid } => about_pid(
            "error: the owner of a port of PID ",
            *pid,
            " can no longer be read",
        ),
        TreeKillOutcome::RootAlreadyExited => "the root process already exited".to_owned(),
        TreeKillOutcome::TargetChanged { pid } => about_pid(
            "error: PID ",
            *pid,
            " is no longer the confirmed process",
        ),
        TreeKillOutcome::PermissionDenied { pid } => "error: permission denied for PID ".to_owned().concat(
            decimal_text(*pid as u128).as_str(),
        ),
        TreeKillOutcome::PartialMetadata { pid } => about_pid(
            "error: facts about PID ",
            *pid,
            " could not be read",
        ),
        TreeKillOutcome::FreshConfirmationRequired => {
            "error: the processes gained warnings after --yes; rerun to confirm them".to_owned()
        },
        TreeKillOutcome::SnapshotFailed(error) => {
            "error: enumerating the processes failed: ".to_owned().concat(
                sanitize(error.as_str()).as_str(),
            )
        },
        TreeKillOutcome::ThawFailed { cause, .. } => {
            "error: stopped processes could not be resumed; ".to_owned().concat(
                tree_kill_status_line(target, mode, cause).as_str(),
            )
        },
    }
}

/// The reason for a plan that could not be made.
pub open spec fn plan_reason(error: TreePlanError) -> ExitReason {
    match error {
        TreePlanError::RootMissing => ExitReason::NoMatch,
        TreePlanError::SnapshotLimitExceeded { .. } => ExitReason::Failure,
    }
}

/// The line about a plan that could not be made.
pub open spec fn plan_text(pid: u32, error: TreePlanError) -> Seq<char> {
    match error {
        TreePlanError::RootMissing => root_gone_text(pid),
        TreePlanError::SnapshotLimitExceeded { limit } =>
            "error: process snapshot exceeds the bounded "@ + decimal(limit as nat)
            + "-PID index"@,
    }
}

/// A tree to show was planned, or it was reported why there is none.
pub open spec fn preview_planned(
    root: KillTarget,
    snapshot: Seq<TreeProcessInfo>,
    names: Seq<String>,
    r: Result<ProcessTreeTarget, ExitReason>,
    lines: Seq<Seq<char>>,
) -> bool {
    exists|planned: Result<ProcessTreeTarget, TreePlanError>| #[trigger]
        tree_planned(root.pid, snapshot, names, root.platform, MAX_TREE_PROCESSES, planned)
            && match planned {
            Ok(preview) => r == Ok::<ProcessTreeTarget, ExitReason>(preview) && lines == Seq::<
                Seq<char>,
            >::empty(),
            Err(error) => r == Err::<ProcessTreeTarget, ExitReason>(plan_reason(error)) && lines
                == seq![plan_text(root.pid, error)],
        }
}

/// Plan the tree to show, and report why there is none.
pub fn plan_tree_preview<D: Sink>(
    root: &KillTarget,
    snapshot: &Vec<TreeProcessInfo>,
    protected_names: &Vec<String>,
    diagnostics: &mut D,
) -> (r: Result<ProcessTreeTarget, ExitReason>)
    ensures
        exists|lines: Seq<Seq<char>>|
            said(*old(diagnostics), *final(diagnostics), lines) && #[trigger] preview_planned(
                *root,
                snapshot@,
                protected_names@,
                r,
                lines,
            ),
{
    proof {
        lemma_said_nothing(*old(diagnostics));
    }
    let planned = plan_process_tree(
        root.pid,
        snapshot,
        protected_names.as_slice(),
        root.platform,
        MAX_TREE_PROCESSES,
    );
    let ghost plan = planned;
    assert(tree_planned(
        root.pid,
        snapshot@,
        protected_names@,
        root.platform,
        MAX_TREE_PROCESSES,
        plan,
    ));
    match planned {
        Ok(preview) => {
            assert(preview_planned(
                *root,
                snapshot@,
                protected_names@,
                Ok(preview),
                Seq::empty(),
            ));
            Ok(preview)
        },
        Err(TreePlanError::RootMissing) => {
            print_root_gone(diagnostics, root.pid);
            assert(preview_planned(
                *root,
                snapshot@,
                protected_names@,
                Err(ExitReason::NoMatch),
                seq![root_gone_text(root.pid)],
            ));
            Err(ExitReason::NoMatch)
        },
        Err(TreePlanError::SnapshotLimitExceeded { limit }) => {
            let mut text = "error: process snapshot exceeds the bounded ".to_owned();
            text.append(decimal_text(limit as u128).as_str());
            text.append("-PID index");
            write_line(diagnostics, text.as_str());
            assert(preview_planned(
                *root,
                snapshot@,
                protected_names@,
                Err(ExitReason::Failure),
                seq![text@],
            ));
            Err(ExitReason::Failure)
        },
    }
}

/// The line about a scope that must not be killed.
pub open spec fn preflight_text(noun: Seq<char>, outcome: TreeKillOutcome) -> Seq<char> {
    match outcome {
        TreeKillOutcome::Truncated { limit } => "error: process "@ + noun + " exceeds the "@
            + decimal(limit as nat) + " process cap; refusing to kill a partial "@ + noun,
        TreeKillOutcome::UnsafePid { pid, .. } => "error: process "@ + noun
            + " contains unsafe PID "@ + decimal(pid as nat) + "; refusing "@ + noun + " kill"@,
        TreeKillOutcome::ProtectedDescendant { pid, name } => "error: process "@ + noun
            + " contains protected process PID "@ + decimal(pid as nat) + " ("@ + sanitized(
            or_unknown(name),
        ) + "); refusing "@ + noun + " kill"@,
        _ => "error: process "@ + noun + " pre-flight refused the kill"@,
    }
}

/// A scope was checked: nothing is said where it is clear, and a refusal is reported.
pub open spec fn preflight_checked(
    members: ProcessTreeTarget,
    noun: Seq<char>,
    host: HostFacts,
    r: Option<ExitReason>,
    lines: Seq<Seq<char>>,
) -> bool {
    if preflight_clear(members, host) {
        r is None && lines == Seq::<Seq<char>>::empty()
    } else {
        exists|outcome: TreeKillOutcome| #[trigger]
            preflight_refused(members, host, outcome) && r == Some(tree_reason(outcome)) && lines
                == seq![preflight_text(noun, outcome)]
    }
}

/// Refuse a scope that must not be killed, and report why. The noun changes the wording
/// alone.
pub fn scoped_preflight_refusal<D: Sink>(
    preview: &ProcessTreeTarget,
    scope_noun: &str,
    host: HostFacts,
    diagnostics: &mut D,
) -> (r: Option<ExitReason>)
    ensures
        exists|lines: Seq<Seq<char>>|
            said(*old(diagnostics), *final(diagnostics), lines) && #[trigger] preflight_checked(
                *preview,
                scope_noun@,
                host,
                r,
                lines,
            ),
{
    proof {
        lemma_said_nothing(*old(diagnostics));
    }
    let outcome = match preflight_outcome(preview, host) {
        Ok(()) => {
            assert(preflight_checked(*preview, scope_noun@, host, None, Seq::empty()));
            return None;
        },
        Err(outcome) => outcome,
    };
    let head = "error: process ".to_owned().concat(scope_noun);
    let text: String = match &outcome {
        TreeKillOutcome::Truncated { limit } => head.concat(" exceeds the ").concat(
            decimal_text(*limit as u128).as_str(),
        ).concat(" process cap; refusing to kill a partial ").concat(scope_noun),
        TreeKillOutcome::UnsafePid { pid, .. } => head.concat(" contains unsafe PID ").concat(
            decimal_text(*pid as u128).as_str(),
        ).concat("; refusing ").concat(scope_noun).concat(" kill"),
        TreeKillOutcome::ProtectedDescendant { pid, name } => head.concat(
            " contains protected process PID ",
        ).concat(decimal_text(*pid as u128).as_str()).concat(" (").concat(
            shown_name(name).as_str(),
        ).concat("); refusing ").concat(scope_noun).concat(" kill"),
        _ => head.concat(" pre-flight refused the kill"),
    };
    write_line(diagnostics, text.as_str());
    assert(preflight_checked(
        *preview,
        scope_noun@,
        host,
        Some(tree_reason(outcome)),
        seq![text@],
    ));
    Some(exit_reason_for_tree_outcome(&outcome))
}

/// A planned tree was checked, confirmed and committed.
pub open spec fn tree_offered<H>(
    args: KillArgs,
    config: Config,
    platform: Platform,
    host: HostFacts,
    mode: KillMode,
    root: KillTarget,
    preview: ProcessTreeTarget,
    before: Seq<Operation<H>>,
    after: Seq<Operation<H>>,
    r: ExitReason,
    lines: Seq<Seq<char>>,
) -> bool {
    if !preflight_clear(preview, host) {
        after == before && preflight_checked(preview, "tree"@, host, Some(r), lines)
    } else {
        exists|
            authorization: Result<ScopeAuthorization, ExitReason>,
            first: Seq<Seq<char>>,
            middle: Seq<Operation<H>>,
        |
            #[trigger]
            tree_confirmed(
                root,
                preview,
                mode,
                args.yes,
                host,
                before,
                middle,
                authorization,
                first,
            ) && match authorization {
                Err(reason) => after == middle && r == reason && lines == first,
                Ok(authorization) => first.is_prefix_of(lines) && scope_committed(
                    args,
                    config,
                    platform,
                    host,
                    mode,
                    root,
                    None,
                    authorization,
                    middle,
                    after,
                    r,
                    lines.skip(first.len() as int),
                ),
            }
    }
}

/// What a process table that was taken led to.
pub open spec fn tree_tabled<H>(
    args: KillArgs,
    config: Config,
    entries: Seq<PortEntry>,
    platform: Platform,
    host: HostFacts,
    mode: KillMode,
    taken: Result<Vec<TreeProcessInfo>, String>,
    before: Seq<Operation<H>>,
    after: Seq<Operation<H>>,
    r: ExitReason,
    lines: Seq<Seq<char>>,
) -> bool {
    match taken {
        Err(error) => after == before && r == ExitReason::Failure && lines == seq![
            "error: enumerating the process tree failed: "@ + sanitized(error@),
        ],
        Ok(infos) => exists|
            root: Result<KillTarget, ExitReason>,
            first: Seq<Seq<char>>,
            middle: Seq<Operation<H>>,
        |
            #[trigger]
            resolves_root(
                args,
                config,
                entries,
                infos@,
                platform,
                host,
                before,
                middle,
                root,
                first,
            ) && match root {
                Err(reason) => after == middle && r == reason && lines == first,
                Ok(root) => tree_previewed(
                    args,
                    config,
                    platform,
                    host,
                    mode,
                    root,
                    infos@,
                    middle,
                    after,
                    r,
                    lines,
                ),
            },
    }
}

/// The whole of a tree kill, by the operations that it made: read the process table,
/// resolve the root, plan the tree, check it, confirm it, pin the root, look again, kill,
/// with the lines told on the way. Each step goes on only where the one before it allows
/// it.
pub open spec fn tree_killed<H>(
    args: KillArgs,
    config: Config,
    entries: Seq<PortEntry>,
    platform: Platform,
    host: HostFacts,
    mode: KillMode,
    before: Seq<Operation<H>>,
    after: Seq<Operation<H>>,
    r: ExitReason,
    lines: Seq<Seq<char>>,
) -> bool {
    exists|taken: Result<Vec<TreeProcessInfo>, String>| #[trigger]
        tree_tabled(
            args,
            config,
            entries,
            platform,
            host,
            mode,
            taken,
            before.push(Operation::Table(TreeSnapshotScope::Whole, taken)),
            after,
            r,
            lines,
        )
}

/// The tree of a resolved root was planned, and offered where that worked.
pub open spec fn tree_previewed<H>(
    args: KillArgs,
    config: Config,
    platform: Platform,
    host: HostFacts,
    mode: KillMode,
    root: KillTarget,
    infos: Seq<TreeProcessInfo>,
    before: Seq<Operation<H>>,
    after: Seq<Operation<H>>,
    r: ExitReason,
    lines: Seq<Seq<char>>,
) -> bool {
    exists|preview: Result<ProcessTreeTarget, ExitReason>, first: Seq<Seq<char>>| #[trigger]
        preview_planned(root, infos, config.protected_processes@, preview, first)
            && match preview {
            Err(reason) => after == before && r == reason && lines == first,
            Ok(preview) => tree_offered(
                args,
                config,
                platform,
                host,
                mode,
                root,
                preview,
                before,
                after,
                r,
                lines,
            ),
        }
}

/// Kill a process tree. The kill runs only on a root that was resolved, planned,
/// confirmed, pinned and found again, and it runs once.
#[verifier::spinoff_prover]
#[verifier::rlimit(50)]
pub fn run_tree_kill_with<
    T: ReadsTable + PinsRoot + ReadsContext + AsksScope + ReadsPorts + WatchesPorts + KillsScope,
    H,
    D: Sink,
>(
    args: &KillArgs,
    config: &Config,
    entries: &Vec<PortEntry>,
    platform: Platform,
    host: HostFacts,
    mode: KillMode,
    tools: &mut Recorded<T, H>,
    diagnostics: &mut D,
) -> (r: ExitReason)
    requires
        args.wf(),
    ensures
        exists|lines: Seq<Seq<char>>|
            said(*old(diagnostics), *final(diagnostics), lines) && #[trigger] tree_killed(
                *args,
                *config,
                entries@,
                platform,
                host,
                mode,
                old(tools).log(),
                final(tools).log(),
                r,
                lines,
            ),
{
    let ghost before = tools.log();
    let taken = tools.take_snapshot(TreeSnapshotScope::Whole);
    let ghost seen = taken;
    let ghost tabled = tools.log();
    let infos = match taken {
        Ok(infos) => infos,
        Err(error) => {
            let line = "error: enumerating the process tree failed: ".to_owned().concat(
                sanitize(error.as_str()).as_str(),
            );
            write_line(diagnostics, line.as_str());
            assert(tree_tabled(
                *args,
                *config,
                entries@,
                platform,
                host,
                mode,
                seen,
                tabled,
                tools.log(),
                ExitReason::Failure,
                seq![line@],
            ));
            assert(tree_killed(
                *args,
                *config,
                entries@,
                platform,
                host,
                mode,
                before,
                tools.log(),
                ExitReason::Failure,
                seq![line@],
            ));
            return ExitReason::Failure;
        },
    };
    let resolved = resolve_scoped_kill_root(
        args,
        config,
        entries,
        &infos,
        platform,
        host,
        tools,
        diagnostics,
    );
    let ghost found = resolved;
    let ghost rooted = tools.log();
    let ghost resolving = *diagnostics;
    let ghost told = choose|told: Seq<Seq<char>>|
        said(*old(diagnostics), resolving, told) && #[trigger] resolves_root(
            *args,
            *config,
            entries@,
            infos@,
            platform,
            host,
            tabled,
            rooted,
            found,
            told,
        );
    let root = match resolved {
        Ok(root) => root,
        Err(reason) => {
            assert(tree_tabled(
                *args,
                *config,
                entries@,
                platform,
                host,
                mode,
                seen,
                tabled,
                tools.log(),
                reason,
                told,
            ));
            assert(tree_killed(
                *args,
                *config,
                entries@,
                platform,
                host,
                mode,
                before,
                tools.log(),
                reason,
                told,
            ));
            return reason;
        },
    };
    assert(told == Seq::<Seq<char>>::empty());
    let planned = plan_tree_preview(&root, &infos, &config.protected_processes, diagnostics);
    let ghost plan = planned;
    let ghost planning = *diagnostics;
    let ghost planned_lines = choose|lines: Seq<Seq<char>>|
        said(resolving, planning, lines) && #[trigger] preview_planned(
            root,
            infos@,
            config.protected_processes@,
            plan,
            lines,
        );
    proof {
        lemma_said_more(*old(diagnostics), resolving, planning, told, planned_lines);
        assert(told + planned_lines =~= planned_lines);
    }
    let preview = match planned {
        Ok(preview) => preview,
        Err(reason) => {
            assert(tree_previewed(
                *args,
                *config,
                platform,
                host,
                mode,
                root,
                infos@,
                rooted,
                tools.log(),
                reason,
                planned_lines,
            ));
            assert(tree_tabled(
                *args,
                *config,
                entries@,
                platform,
                host,
                mode,
                seen,
                tabled,
                tools.log(),
                reason,
                planned_lines,
            ));
            assert(tree_killed(
                *args,
                *config,
                entries@,
                platform,
                host,
                mode,
                before,
                tools.log(),
                reason,
                planned_lines,
            ));
            return reason;
        },
    };
    let refused = scoped_preflight_refusal(&preview, "tree", host, diagnostics);
    let ghost checking = *diagnostics;
    let ghost checked_lines = choose|lines: Seq<Seq<char>>|
        said(planning, checking, lines) && #[trigger] preflight_checked(
            preview,
            "tree"@,
            host,
            refused,
            lines,
        );
    proof {
        lemma_said_more(*old(diagnostics), planning, checking, planned_lines, checked_lines);
        assert(planned_lines + checked_lines =~= checked_lines);
    }
    if let Some(reason) = refused {
        assert(tree_offered(
            *args,
            *config,
            platform,
            host,
            mode,
            root,
            preview,
            rooted,
            tools.log(),
            reason,
            checked_lines,
        ));
        assert(tree_previewed(
            *args,
            *config,
            platform,
            host,
            mode,
            root,
            infos@,
            rooted,
            tools.log(),
            reason,
            checked_lines,
        ));
        assert(tree_tabled(
            *args,
            *config,
            entries@,
            platform,
            host,
            mode,
            seen,
            tabled,
            tools.log(),
            reason,
            checked_lines,
        ));
        assert(tree_killed(
            *args,
            *config,
            entries@,
            platform,
            host,
            mode,
            before,
            tools.log(),
            reason,
            checked_lines,
        ));
        return reason;
    }
    let confirmed = confirm_tree_kill(
        &root,
        &preview,
        mode,
        args.yes,
        host,
        tools,
        diagnostics,
    );
    let ghost agreed = confirmed;
    let ghost consented = tools.log();
    let ghost asking = *diagnostics;
    let ghost asked_lines = choose|lines: Seq<Seq<char>>|
        said(checking, asking, lines) && #[trigger] tree_confirmed(
            root,
            preview,
            mode,
            args.yes,
            host,
            rooted,
            consented,
            agreed,
            lines,
        );
    proof {
        lemma_said_more(*old(diagnostics), checking, asking, checked_lines, asked_lines);
        assert(checked_lines + asked_lines =~= asked_lines);
    }
    let authorization = match confirmed {
        Ok(authorization) => authorization,
        Err(reason) => {
            assert(tree_offered(
                *args,
                *config,
                platform,
                host,
                mode,
                root,
                preview,
                rooted,
                tools.log(),
                reason,
                asked_lines,
            ));
            assert(tree_previewed(
                *args,
                *config,
                platform,
                host,
                mode,
                root,
                infos@,
                rooted,
                tools.log(),
                reason,
                asked_lines,
            ));
            assert(tree_tabled(
                *args,
                *config,
                entries@,
                platform,
                host,
                mode,
                seen,
                tabled,
                tools.log(),
                reason,
                asked_lines,
            ));
            assert(tree_killed(
                *args,
                *config,
                entries@,
                platform,
                host,
                mode,
                before,
                tools.log(),
                reason,
                asked_lines,
            ));
            return reason;
        },
    };
    let reason = commit_scope(
        args,
        config,
        platform,
        host,
        mode,
        tools,
        &root,
        None,
        authorization,
        diagnostics,
    );
    proof {
        let rest = choose|rest: Seq<Seq<char>>|
            said(asking, *diagnostics, rest) && #[trigger] scope_committed(
                *args,
                *config,
                platform,
                host,
                mode,
                root,
                None,
                authorization,
                consented,
                tools.log(),
                reason,
                rest,
            );
        let lines = asked_lines + rest;
        lemma_said_more(*old(diagnostics), asking, *diagnostics, asked_lines, rest);
        assert(lines.skip(asked_lines.len() as int) =~= rest);
        assert(asked_lines.is_prefix_of(lines));
        assert(tree_offered(
            *args,
            *config,
            platform,
            host,
            mode,
            root,
            preview,
            rooted,
            tools.log(),
            reason,
            lines,
        ));
        assert(tree_previewed(
            *args,
            *config,
            platform,
            host,
            mode,
            root,
            infos@,
            rooted,
            tools.log(),
            reason,
            lines,
        ));
        assert(tree_tabled(
            *args,
            *config,
            entries@,
            platform,
            host,
            mode,
            seen,
            tabled,
            tools.log(),
            reason,
            lines,
        ));
        assert(tree_killed(
            *args,
            *config,
            entries@,
            platform,
            host,
            mode,
            before,
            tools.log(),
            reason,
            lines,
        ));
    }
    reason
}

/// Kill a process tree in the mode that the command asks for.
pub fn run_tree_kill<
    T: ReadsTable + PinsRoot + ReadsContext + AsksScope + ReadsPorts + WatchesPorts + KillsScope,
    H,
    D: Sink,
>(
    args: &KillArgs,
    config: &Config,
    entries: &Vec<PortEntry>,
    platform: Platform,
    host: HostFacts,
    tools: &mut Recorded<T, H>,
    diagnostics: &mut D,
) -> (r: ExitReason)
    requires
        args.wf(),
    ensures
        exists|lines: Seq<Seq<char>>|
            said(*old(diagnostics), *final(diagnostics), lines) && #[trigger] tree_killed(
                *args,
                *config,
                entries@,
                platform,
                host,
                KillMode::of_force(args.force),
                old(tools).log(),
                final(tools).log(),
                r,
                lines,
            ),
{
    run_tree_kill_with(
        args,
        config,
        entries,
        platform,
        host,
        KillMode::from_force(args.force),
        tools,
        diagnostics,
    )
}

/// The question for the word of a scope, answered with it.
pub open spec fn word_typed<H>(
    root: KillTarget,
    members: ProcessTreeTarget,
    asked: &'static str,
) -> Operation<H> {
    Operation::ScopeAsked(root, members, TreeConfirmation::TypedWord(asked), Ok(true))
}

/// An authorization tells what was confirmed, in any scope: one without a question only
/// where `--yes` may stand for the word, one by the word only for a root that is not
/// protected, and a protected root only after both its identity and the word were typed.
pub proof fn law_authorization_tells_what_was_confirmed<H>(
    root: KillTarget,
    members: ProcessTreeTarget,
    protected: bool,
    yes: bool,
    skippable: bool,
    word: Seq<char>,
    decision: TreeConfirmDecision,
    before: Seq<Operation<H>>,
    after: Seq<Operation<H>>,
    authorization: ScopeAuthorization,
    lines: Seq<Seq<char>>,
)
    requires
        decides(protected, yes, skippable, word, decision),
        scope_confirmed(root, members, decision, before, after, Ok(authorization), lines),
    ensures
        authorization.skipped() <==> !protected && yes && skippable,
        authorization.root_confirmed() <==> protected,
        authorization.skipped() ==> after == before,
        protected ==> !yes && exists|asked: &'static str|
            asked@ == word && after == before.push(
                Operation::ScopeAsked(root, members, TreeConfirmation::ProtectedRoot, Ok(true)),
            ).push(#[trigger] word_typed::<H>(root, members, asked)),
        !protected && !authorization.skipped() ==> exists|asked: &'static str|
            asked@ == word && after == before.push(#[trigger] word_typed::<H>(root, members, asked)),
{
    match decision {
        TreeConfirmDecision::PromptWord(asked) => {
            assert(after == before.push(word_typed::<H>(root, members, asked)));
        },
        TreeConfirmDecision::PromptProtectedThenWord(asked) => {
            assert(after == before.push(
                Operation::ScopeAsked(root, members, TreeConfirmation::ProtectedRoot, Ok(true)),
            ).push(word_typed::<H>(root, members, asked)));
        },
        _ => {},
    }
}

/// A root that was found again for a scope is the confirmed process, and is protected
/// only where that was confirmed; finding it says nothing.
pub proof fn law_scope_root_is_the_confirmed_one<H>(
    args: KillArgs,
    confirmed: KillTarget,
    config: Config,
    pgid: Option<u32>,
    confirmation: ScopeAuthorization,
    platform: Platform,
    host: HostFacts,
    before: Seq<Operation<H>>,
    after: Seq<Operation<H>>,
    fresh: KillTarget,
    aside: Seq<Seq<char>>,
)
    requires
        scope_revalidated(
            args,
            confirmed,
            config,
            pgid,
            confirmation,
            platform,
            host,
            before,
            after,
            Ok(fresh),
            aside,
        ),
    ensures
        still_matches(confirmed, fresh),
        fresh.protected ==> confirmed.protected,
        aside == Seq::<Seq<char>>::empty(),
{
    if confirmed.ports.len() > 0 {
        let (looked, middle) = choose|
            looked: Result<KillTarget, TerminationOutcome>,
            middle: Seq<Operation<H>>,
        | #[trigger]
            revalidated(args, config, confirmed, host, false, before, middle, looked, aside)
                && match looked {
                Err(_) => false,
                Ok(root) => root == fresh,
            };
        law_found_again_is_the_confirmed_target(
            args,
            config,
            confirmed,
            host,
            false,
            before,
            middle,
            fresh,
            aside,
        );
    }
}

/// A fresh process table lets a tree through only where its members may be signalled,
/// a protected root was confirmed as one, and a skipped word could be skipped again.
pub proof fn law_fresh_tree_passes_every_gate(
    root: KillTarget,
    snapshot: Seq<TreeProcessInfo>,
    config: Config,
    confirmation: ScopeAuthorization,
    host: HostFacts,
)
    requires
        fresh_tree_judged(root, snapshot, config, confirmation, host, Ok(())),
    ensures
        exists|preview: ProcessTreeTarget| #[trigger]
            tree_planned(
                root.pid,
                snapshot,
                config.protected_processes@,
                root.platform,
                MAX_TREE_PROCESSES,
                Ok(preview),
            ) && preflight_clear(preview, host) && (preview.root_protected()
                ==> confirmation.root_confirmed()) && (confirmation.skipped() ==> tree_skippable(
                root,
                preview,
                host,
            )),
{
}

/// A fresh process table lets a group through only where the root is still in the
/// confirmed group, besides what is asked of a tree; a skipped word needs a tiny group.
pub proof fn law_fresh_group_is_the_confirmed_one(
    root: KillTarget,
    snapshot: Seq<TreeProcessInfo>,
    config: Config,
    pgid: u32,
    confirmation: ScopeAuthorization,
    host: HostFacts,
)
    requires
        fresh_group_judged(root, snapshot, config, pgid, confirmation, host, Ok(())),
    ensures
        exists|group: ProcessGroupTarget| #[trigger]
            group_planned(
                root.pid,
                snapshot,
                config.protected_processes@,
                root.platform,
                MAX_GROUP_PROCESSES,
                Ok(group),
            ) && group.pgid == pgid && preflight_clear(group.members, host) && (
            group.members.root_protected() ==> confirmation.root_confirmed()) && (
            confirmation.skipped() ==> group_skippable(root, group.members, host)),
{
}

} // verus!
