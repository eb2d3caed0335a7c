//! What is asked before a tree or a group is killed, what belongs to it, and what stops it.

use vstd::prelude::*;
use vstd::string::*;
use crate::banner::{
    foreign_count, group_banner_lines, group_node_line, owner_warning_text, tree_banner_lines,
    tree_node_line, tree_preview_lines,
};
use crate::exit::ExitReason;
use crate::kill::KillTargetError;
use crate::model::Platform;
use crate::operations::Operation;
use crate::ports::system_process;
use crate::process::{
    identity_text, unsafe_reason, HostFacts, KillMode, KillTarget, KillWarning, TerminationOutcome,
};
use crate::process_laws::law_warnings_have_their_causes;
use crate::protection::protected_name;
use crate::scoped::{
    decides, group_confirmed, group_gates, group_skippable, portless_info_judged, portless_judged,
    preflight_text, resolves_in_table, root_blocks_skip, root_is_protected, scope_outcome,
    step_told, tells_info, tree_answer, tree_confirmed, tree_gates, tree_outcome_text, tree_reason,
    tree_skippable, TreeConfirmDecision, TreeConfirmation,
};
use crate::sink::IoError;
use crate::text::{decimal, opt_text, sanitized};
use crate::tree::{
    first_with_pid, group_planned, group_word, has_pid, holds_pid, joined, nodes_warned,
    preflight_clear, preflight_refused, reached, tree_planned, tree_word, GroupPlanError,
    ProcessGroupTarget, ProcessTreeTarget, ScopeAuthorization, TreeKillOutcome, TreeNode,
    TreePlanError, TreeProcessInfo,
};

verus! {

/// Nothing about a process asks for a second look: its name and start are known, it is no
/// process of the system, and it belongs to the user or to nobody known.
pub open spec fn all_clear(node: TreeNode, user_id: u32) -> bool {
    node.complete && !node.system_process && (node.owner_uid is None || node.owner_uid == Some(
        user_id,
    ))
}

/// Nothing about a root asks for a second look, but that it has children.
pub open spec fn root_clear(root: KillTarget, user_id: u32) -> bool {
    root.permission is Full && !root.system_process && (root.owner_uid is None || root.owner_uid
        == Some(user_id))
}

proof fn lemma_clear_nodes(nodes: Seq<TreeNode>, host: HostFacts)
    ensures
        nodes_warned(nodes, host) <==> exists|i: int|
            0 <= i < nodes.len() && !all_clear(#[trigger] nodes[i], host.user_id),
{
    if nodes_warned(nodes, host) {
        let i = choose|i: int| 0 <= i < nodes.len() && (#[trigger] nodes[i]).warned(host);
        assert(!all_clear(nodes[i], host.user_id));
    }
    if exists|i: int| 0 <= i < nodes.len() && !all_clear(#[trigger] nodes[i], host.user_id) {
        let i = choose|i: int|
            0 <= i < nodes.len() && !all_clear(#[trigger] nodes[i], host.user_id);
        assert(nodes[i].warned(host));
    }
}

proof fn lemma_clear_root(root: KillTarget, host: HostFacts)
    ensures
        root_blocks_skip(root, host) <==> !root_clear(root, host.user_id),
{
    law_warnings_have_their_causes(root, host);
    let warnings = root.warned(host);
    if !root_clear(root, host.user_id) {
        if root.permission is Partial {
            let i = choose|i: int|
                0 <= i < warnings.len() && warnings[i] == KillWarning::PartialMetadata;
            assert(!(warnings[i] is HasChildren));
        } else if root.system_process {
            let i = choose|i: int|
                0 <= i < warnings.len() && warnings[i] == KillWarning::SystemProcess;
            assert(!(warnings[i] is HasChildren));
        } else {
            let i = choose|i: int| 0 <= i < warnings.len() && (#[trigger] warnings[i]) is OtherOwner;
            assert(!(warnings[i] is HasChildren));
        }
    }
    if root_blocks_skip(root, host) {
        let i = choose|i: int| 0 <= i < warnings.len() && !((#[trigger] warnings[i]) is HasChildren);
        match warnings[i] {
            KillWarning::PartialMetadata => {
                assert(warnings.contains(KillWarning::PartialMetadata));
            },
            KillWarning::SystemProcess => {
                assert(warnings.contains(KillWarning::SystemProcess));
            },
            _ => {},
        }
    }
}

/// `--yes` on a tree in which every process is all clear asks nothing: by the fields of the
/// processes. That the root has children does not matter.
pub proof fn law_clear_tree_is_not_asked_about(
    root: KillTarget,
    preview: ProcessTreeTarget,
    mode: KillMode,
    host: HostFacts,
    decision: TreeConfirmDecision,
)
    requires
        decides(
            root_is_protected(root, preview),
            true,
            tree_skippable(root, preview, host),
            tree_word(mode),
            decision,
        ),
        !root.protected,
        preview.nodes.len() > 0 ==> !preview.nodes@[0].protected,
    ensures
        decision is Skip <==> root_clear(root, host.user_id) && forall|i: int|
            0 <= i < preview.nodes.len() ==> all_clear(
                #[trigger] preview.nodes@[i],
                host.user_id,
            ),
        !(decision is Skip) ==> decision is PromptWord,
{
    lemma_clear_nodes(preview.nodes@, host);
    lemma_clear_root(root, host);
}

/// `--yes` on a group asks nothing exactly where the group is of at most four processes and
/// every one of them is all clear.
pub proof fn law_clear_small_group_is_not_asked_about(
    root: KillTarget,
    group: ProcessGroupTarget,
    mode: KillMode,
    host: HostFacts,
    decision: TreeConfirmDecision,
)
    requires
        decides(
            root_is_protected(root, group.members),
            true,
            group_skippable(root, group.members, host),
            group_word(mode),
            decision,
        ),
        !root.protected,
        group.members.nodes.len() > 0 ==> !group.members.nodes@[0].protected,
    ensures
        decision is Skip <==> group.members.nodes.len() <= 4 && root_clear(root, host.user_id)
            && forall|i: int|
            0 <= i < group.members.nodes.len() ==> all_clear(
                #[trigger] group.members.nodes@[i],
                host.user_id,
            ),
        !(decision is Skip) ==> decision is PromptWord,
{
    lemma_clear_nodes(group.members.nodes@, host);
    lemma_clear_root(root, host);
}

/// A process of somebody else in a tree is always asked about.
pub proof fn law_foreign_process_is_asked_about(
    root: KillTarget,
    preview: ProcessTreeTarget,
    yes: bool,
    mode: KillMode,
    host: HostFacts,
    decision: TreeConfirmDecision,
    i: int,
    owner: u32,
)
    requires
        decides(
            root_is_protected(root, preview),
            yes,
            tree_skippable(root, preview, host),
            tree_word(mode),
            decision,
        ),
        0 <= i < preview.nodes.len(),
        preview.nodes@[i].owner_uid == Some(owner),
        owner != host.user_id,
    ensures
        !(decision is Skip),
{
    assert(preview.nodes@[i].warned(host));
}

/// Without `--yes` every tree and every group is asked about, by the word for its kind:
/// `tree`, `group`, or for a forced kill `force`.
pub proof fn law_scopes_are_asked_about_by_their_word(
    protected: bool,
    yes: bool,
    skippable: bool,
    mode: KillMode,
    tree: TreeConfirmDecision,
    group: TreeConfirmDecision,
)
    requires
        decides(protected, yes, skippable, tree_word(mode), tree),
        decides(protected, yes, skippable, group_word(mode), group),
    ensures
        !yes ==> !(tree is Skip) && !(tree is RefuseProtectedYes),
        tree is PromptWord <==> !protected && !(yes && skippable),
        tree is PromptProtectedThenWord <==> protected && !yes,
        tree is RefuseProtectedYes <==> protected && yes,
        tree is PromptWord ==> tree->PromptWord_0@ == if mode == KillMode::Force {
            "force"@
        } else {
            "tree"@
        },
        group is PromptWord ==> group->PromptWord_0@ == if mode == KillMode::Force {
            "force"@
        } else {
            "group"@
        },
        tree is PromptProtectedThenWord ==> tree->PromptProtectedThenWord_0@ == if mode
            == KillMode::Force {
            "force"@
        } else {
            "tree"@
        },
        group is PromptProtectedThenWord ==> group->PromptProtectedThenWord_0@ == if mode
            == KillMode::Force {
            "force"@
        } else {
            "group"@
        },
{
}

/// A tree that `--yes` covers is confirmed without a question; of any other tree something
/// is asked, or it is refused.
pub proof fn law_confirmed_tree_was_asked_or_clear<H>(
    root: KillTarget,
    preview: ProcessTreeTarget,
    mode: KillMode,
    yes: bool,
    host: HostFacts,
    before: Seq<Operation<H>>,
    after: Seq<Operation<H>>,
    r: Result<ScopeAuthorization, ExitReason>,
    lines: Seq<Seq<char>>,
)
    requires
        tree_confirmed(root, preview, mode, yes, host, before, after, r, lines),
        preview.nodes.len() > 0,
    ensures
        ({
            let protected = root.protected || preview.nodes@[0].protected;
            let clear = root_clear(root, host.user_id) && forall|i: int|
                0 <= i < preview.nodes.len() ==> all_clear(
                    #[trigger] preview.nodes@[i],
                    host.user_id,
                );
            &&& yes && !protected && clear ==> after == before && r == Ok::<
                ScopeAuthorization,
                ExitReason,
            >(ScopeAuthorization::SkippedAllClear)
            &&& !(yes && !protected && clear) ==> r != Ok::<ScopeAuthorization, ExitReason>(
                ScopeAuthorization::SkippedAllClear,
            )
            &&& yes && protected ==> after == before && r == Err::<ScopeAuthorization, ExitReason>(
                ExitReason::ProtectedNeedsConfirmation,
            )
            &&& !protected && !(yes && clear) ==> after.len() == before.len() + 1
            &&& protected && r is Ok ==> after.len() == before.len() + 2 && r->Ok_0
                == ScopeAuthorization::ProtectedRootAndWordConfirmed
            &&& !protected && r is Ok && !(yes && clear) ==> r->Ok_0
                == ScopeAuthorization::TypedWordConfirmed
        }),
{
    lemma_clear_nodes(preview.nodes@, host);
    lemma_clear_root(root, host);
}

/// A group that `--yes` covers is confirmed without a question; of any other group something
/// is asked, or it is refused.
pub proof fn law_confirmed_group_was_asked_or_clear<H>(
    root: KillTarget,
    group: ProcessGroupTarget,
    mode: KillMode,
    yes: bool,
    host: HostFacts,
    before: Seq<Operation<H>>,
    after: Seq<Operation<H>>,
    r: Result<ScopeAuthorization, ExitReason>,
    lines: Seq<Seq<char>>,
)
    requires
        group_confirmed(root, group, mode, yes, host, before, after, r, lines),
        group.members.nodes.len() > 0,
    ensures
        ({
            let nodes = group.members.nodes@;
            let protected = root.protected || nodes[0].protected;
            let clear = nodes.len() <= 4 && root_clear(root, host.user_id) && forall|i: int|
                0 <= i < nodes.len() ==> all_clear(#[trigger] nodes[i], host.user_id);
            &&& yes && !protected && clear ==> after == before && r == Ok::<
                ScopeAuthorization,
                ExitReason,
            >(ScopeAuthorization::SkippedAllClear)
            &&& !(yes && !protected && clear) ==> r != Ok::<ScopeAuthorization, ExitReason>(
                ScopeAuthorization::SkippedAllClear,
            )
            &&& yes && protected ==> after == before && r == Err::<ScopeAuthorization, ExitReason>(
                ExitReason::ProtectedNeedsConfirmation,
            )
            &&& !protected && !(yes && clear) ==> after.len() == before.len() + 1
            &&& protected && r is Ok ==> after.len() == before.len() + 2 && r->Ok_0
                == ScopeAuthorization::ProtectedRootAndWordConfirmed
            &&& !protected && r is Ok && !(yes && clear) ==> r->Ok_0
                == ScopeAuthorization::TypedWordConfirmed
        }),
{
    lemma_clear_nodes(group.members.nodes@, host);
    lemma_clear_root(root, host);
}

/// A question lets the kill go on exactly where it is agreed to; declining cancels it, and
/// an answer that cannot be read fails it.
pub proof fn law_one_question(
    answer: Result<bool, IoError>,
    r: Option<ExitReason>,
    lines: Seq<Seq<char>>,
)
    requires
        step_told(answer, r, lines),
    ensures
        r is None <==> answer == Ok::<bool, IoError>(true),
        answer == Ok::<bool, IoError>(false) ==> r == Some(ExitReason::KillCancelled),
        answer is Err ==> r == Some(ExitReason::Failure),
        lines.len() == 0 <==> r is None,
{
}

/// The word of a scope is met by that word between blanks, a protected root by its PID or
/// name, and neither by the other.
pub proof fn law_scope_answers_are_literal(
    input: Seq<char>,
    root: KillTarget,
    word: &'static str,
)
    requires
        input.len() > 0,
        input[0] != ' ' && input[0] != '\t' && input[0] != '\r' && input[0] != '\n',
        input.last() != ' ' && input.last() != '\t' && input.last() != '\r' && input.last()
            != '\n',
    ensures
        tree_answer(input, root, TreeConfirmation::TypedWord(word)) <==> input == word@,
        tree_answer(input, root, TreeConfirmation::ProtectedRoot) <==> input == decimal(
            root.pid as nat,
        ) || (root.process_name is Some && root.process_name->0@ == input),
{
    crate::process_laws::law_answers_are_literal(input, root);
}

/// What the process table says of a root: its own fields, protected by its name, without
/// ports, and counted as fully read where its name and start are known.
pub proof fn law_root_of_the_table(
    pid: u32,
    snapshot: Seq<TreeProcessInfo>,
    names: Seq<String>,
    platform: Platform,
    host: HostFacts,
    r: Result<KillTarget, KillTargetError>,
)
    requires
        resolves_in_table(pid, snapshot, names, platform, host, r),
    ensures
        r is Ok <==> pid > 1 && pid != host.own_pid && exists|i: int|
            0 <= i < snapshot.len() && (#[trigger] snapshot[i]).pid == pid,
        r is Err && r->Err_0 is UnsafePid <==> pid <= 1 || pid == host.own_pid,
        r is Err ==> r->Err_0 is UnsafePid || r->Err_0 is NoMatch,
        r is Ok ==> r->Ok_0.pid == pid && r->Ok_0.ports.len() == 0 && r->Ok_0.platform == platform,
        r is Ok ==> exists|at: int|
            0 <= at < snapshot.len() && (#[trigger] snapshot[at]).pid == pid && opt_text(
                r->Ok_0.process_name,
            ) == opt_text(snapshot[at].process_name) && r->Ok_0.process_start_time_marker
                == snapshot[at].start_time_marker && r->Ok_0.owner_uid == snapshot[at].owner_uid
                && (r->Ok_0.permission is Full <==> snapshot[at].process_name is Some
                && snapshot[at].start_time_marker is Some) && (r->Ok_0.protected
                <==> snapshot[at].process_name is Some && protected_name(
                platform,
                snapshot[at].process_name->0@,
                names,
            )),
{
    if r is Ok {
        let at = choose|at: int| #[trigger]
            first_with_pid(snapshot, pid, at) && tells_info(
                r->Ok_0,
                snapshot[at],
                names,
                platform,
            );
        assert(snapshot[at].pid == pid);
    }
}

/// A root without ports is found again as the process that started when the confirmed one
/// did, under the confirmed name, and not newly protected; otherwise it is told what is
/// wrong with it.
pub proof fn law_portless_root_is_found_again(
    confirmed: KillTarget,
    snapshot: Seq<TreeProcessInfo>,
    names: Seq<String>,
    platform: Platform,
    r: Result<KillTarget, TreeKillOutcome>,
)
    requires
        portless_judged(confirmed, snapshot, names, platform, r),
    ensures
        r is Ok ==> r->Ok_0.pid == confirmed.pid && r->Ok_0.process_start_time_marker is Some
            && r->Ok_0.process_start_time_marker == confirmed.process_start_time_marker,
        r is Ok && confirmed.process_name is Some ==> opt_text(r->Ok_0.process_name) == opt_text(
            confirmed.process_name,
        ),
        r is Ok ==> (r->Ok_0.protected ==> confirmed.protected),
        r is Err && r->Err_0 is RootAlreadyExited <==> !exists|i: int|
            0 <= i < snapshot.len() && (#[trigger] snapshot[i]).pid == confirmed.pid,
        r is Err && r->Err_0 is ProtectedRoot ==> !confirmed.protected,
        r is Err ==> r->Err_0 is RootAlreadyExited || r->Err_0 is PartialMetadata || r->Err_0
            is TargetChanged || r->Err_0 is ProtectedRoot,
        confirmed.process_start_time_marker is None && r is Err ==> r->Err_0 is RootAlreadyExited
            || r->Err_0 is PartialMetadata,
        confirmed.process_start_time_marker is None ==> r is Err,
{
    if !has_pid(snapshot, confirmed.pid) {
    } else {
        let at = choose|at: int| #[trigger]
            first_with_pid(snapshot, confirmed.pid, at) && portless_info_judged(
                confirmed,
                snapshot[at],
                names,
                platform,
                r,
            );
        assert(snapshot[at].pid == confirmed.pid);
    }
}

/// A refusal of one process is told of the scope as the same refusal, of the same process.
pub proof fn law_refusals_carry_over_to_scopes(
    confirmed: KillTarget,
    outcome: TerminationOutcome,
    r: TreeKillOutcome,
)
    requires
        scope_outcome(confirmed, outcome, r),
    ensures
        r is ProtectedRoot <==> outcome is ProtectedProcess,
        r is ProtectedRoot ==> r->ProtectedRoot_pid == confirmed.pid,
        r is UnsafePid <==> outcome is UnsafePid,
        r is OwnershipUnavailable <==> outcome is OwnershipUnavailable,
        r is RootAlreadyExited <==> outcome is AlreadyExited,
        r is PermissionDenied <==> outcome is PermissionDenied,
        r is PermissionDenied ==> r->PermissionDenied_pid == confirmed.pid,
        r is TargetChanged <==> outcome is TargetChanged || outcome is Success || outcome
            is Cancelled,
        r is TargetChanged ==> r->TargetChanged_pid == confirmed.pid,
        r is ThawFailed <==> outcome is ThawFailed && confirmed.platform != Platform::Windows,
        !(r is Completed),
{
}

/// Which exit tells what of a scoped kill.
pub proof fn law_exits_of_scoped_kills(outcome: TreeKillOutcome)
    ensures
        tree_reason(outcome) == ExitReason::Success <==> outcome is Completed,
        tree_reason(outcome) == ExitReason::ProtectedNeedsConfirmation <==> outcome
            is ProtectedDescendant || outcome is ProtectedRoot,
        tree_reason(outcome) == ExitReason::PermissionDenied <==> outcome is OwnershipUnavailable
            || outcome is PermissionDenied,
        tree_reason(outcome) == ExitReason::NoMatch <==> outcome is RootAlreadyExited,
        tree_reason(outcome) != ExitReason::KillCancelled && tree_reason(outcome)
            != ExitReason::InvalidArguments,
{
}

/// A set of processes may be signalled exactly where it is whole, none of them is PID 0, PID
/// 1 or this program, and none but the root is protected.
pub proof fn law_what_may_be_signalled(target: ProcessTreeTarget, host: HostFacts)
    ensures
        preflight_clear(target, host) <==> {
            &&& target.truncated_at is None
            &&& forall|i: int|
                0 <= i < target.nodes.len() ==> (#[trigger] target.nodes@[i]).pid > 1
                    && target.nodes@[i].pid != host.own_pid
            &&& forall|i: int|
                1 <= i < target.nodes.len() ==> !(#[trigger] target.nodes@[i]).protected
        },
{
    let nodes = target.nodes@;
    assert forall|i: int| 0 <= i < nodes.len() implies (unsafe_reason(
        (#[trigger] nodes[i]).pid,
        host,
    ) is None <==> nodes[i].pid > 1 && nodes[i].pid != host.own_pid) by {}
}

/// A set that may not be signalled is refused for what it is: cut off, else for its first
/// process that is never signalled, else for its first protected process below the root.
pub proof fn law_refused_set_is_told_why(
    target: ProcessTreeTarget,
    host: HostFacts,
    outcome: TreeKillOutcome,
)
    requires
        !preflight_clear(target, host),
        preflight_refused(target, host, outcome),
    ensures
        outcome is Truncated <==> target.truncated_at is Some,
        outcome is Truncated ==> Some(outcome->limit) == target.truncated_at,
        outcome is Truncated || outcome is UnsafePid || outcome is ProtectedDescendant,
        outcome is UnsafePid ==> outcome->UnsafePid_pid <= 1 || outcome->UnsafePid_pid
            == host.own_pid,
        outcome is UnsafePid ==> exists|i: int|
            0 <= i < target.nodes.len() && (#[trigger] target.nodes@[i]).pid
                == outcome->UnsafePid_pid,
        outcome is ProtectedDescendant ==> exists|i: int|
            1 <= i < target.nodes.len() && (#[trigger] target.nodes@[i]).pid
                == outcome->ProtectedDescendant_pid && target.nodes@[i].protected,
        tree_reason(outcome) == ExitReason::ProtectedNeedsConfirmation <==> outcome
            is ProtectedDescendant,
{
}

/// A fresh tree goes through exactly where it may be signalled, a protected root was
/// confirmed as protected, and a question that was skipped would be skipped again.
pub proof fn law_fresh_tree_goes_through(
    root: KillTarget,
    preview: ProcessTreeTarget,
    confirmation: ScopeAuthorization,
    host: HostFacts,
    r: Result<(), TreeKillOutcome>,
)
    requires
        tree_gates(root, preview, confirmation, host, r),
        preview.nodes.len() > 0,
    ensures
        r is Ok <==> {
            &&& preflight_clear(preview, host)
            &&& preview.nodes@[0].protected ==> confirmation
                == ScopeAuthorization::ProtectedRootAndWordConfirmed
            &&& confirmation == ScopeAuthorization::SkippedAllClear ==> root_clear(
                root,
                host.user_id,
            ) && forall|i: int|
                0 <= i < preview.nodes.len() ==> all_clear(
                    #[trigger] preview.nodes@[i],
                    host.user_id,
                )
        },
        r is Err && r->Err_0 is FreshConfirmationRequired ==> confirmation
            == ScopeAuthorization::SkippedAllClear,
        r is Err && r->Err_0 is ProtectedRoot ==> preview.nodes@[0].protected
            && r->Err_0->ProtectedRoot_pid == preview.nodes@[0].pid,
{
    lemma_clear_nodes(preview.nodes@, host);
    lemma_clear_root(root, host);
}

/// A fresh group goes through exactly where it is the confirmed group besides.
pub proof fn law_fresh_group_goes_through(
    root: KillTarget,
    group: ProcessGroupTarget,
    pgid: u32,
    confirmation: ScopeAuthorization,
    host: HostFacts,
    r: Result<(), TreeKillOutcome>,
)
    requires
        group_gates(root, group, pgid, confirmation, host, r),
        group.members.nodes.len() > 0,
    ensures
        r is Ok <==> {
            &&& group.pgid == pgid
            &&& preflight_clear(group.members, host)
            &&& group.members.nodes@[0].protected ==> confirmation
                == ScopeAuthorization::ProtectedRootAndWordConfirmed
            &&& confirmation == ScopeAuthorization::SkippedAllClear ==> group.members.nodes.len()
                <= 4 && root_clear(root, host.user_id) && forall|i: int|
                0 <= i < group.members.nodes.len() ==> all_clear(
                    #[trigger] group.members.nodes@[i],
                    host.user_id,
                )
        },
        group.pgid != pgid ==> r is Err && r->Err_0 is TargetChanged,
        r is Err && r->Err_0 is FreshConfirmationRequired ==> confirmation
            == ScopeAuthorization::SkippedAllClear,
{
    lemma_clear_nodes(group.members.nodes@, host);
    lemma_clear_root(root, host);
}

/// A planned tree is the root and what stems from it: the root first, at no depth; every
/// other process the child of an earlier one, one deeper; each process once. Where it is not
/// cut off, every child of a process of the tree is in it.
pub proof fn law_planned_tree_is_closed_under_children(
    root_pid: u32,
    snapshot: Seq<TreeProcessInfo>,
    names: Seq<String>,
    platform: Platform,
    limit: usize,
    target: ProcessTreeTarget,
    k: int,
    j: int,
)
    requires
        tree_planned(root_pid, snapshot, names, platform, limit, Ok(target)),
    ensures
        1 <= target.nodes.len() <= limit,
        target.nodes@[0].pid == root_pid && target.nodes@[0].depth == 0,
        1 <= k < target.nodes.len() ==> exists|j: int, p: int|
            0 <= j < snapshot.len() && 0 <= p < k && (#[trigger] snapshot[j]).pid
                == target.nodes@[k].pid && snapshot[j].parent_pid == Some(
                (#[trigger] target.nodes@[p]).pid,
            ) && target.nodes@[k].depth == target.nodes@[p].depth + 1,
        1 <= k < target.nodes.len() ==> target.nodes@[k].pid != root_pid,
        target.truncated_at is Some ==> target.truncated_at == Some(limit) && target.nodes.len()
            == limit,
        target.truncated_at is None && 0 <= j < snapshot.len() && 0 <= k < target.nodes.len()
            && snapshot[j].parent_pid == Some(target.nodes@[k].pid) ==> exists|n: int|
            0 <= n < target.nodes.len() && (#[trigger] target.nodes@[n]).pid == snapshot[j].pid,
        snapshot.len() <= 65_536,
{
    let nodes = target.nodes@;
    if 1 <= k < nodes.len() {
        assert(reached(nodes, k, snapshot, names, platform));
        assert(nodes[0].pid != nodes[k].pid);
    }
    if target.truncated_at is None && 0 <= j < snapshot.len() && 0 <= k < nodes.len()
        && snapshot[j].parent_pid == Some(nodes[k].pid) {
        assert(holds_pid(nodes, snapshot[j].pid));
    }
}

/// What a process of a tree or group is shown as is what the table says of it.
pub proof fn law_nodes_are_what_the_table_says(
    node: TreeNode,
    info: TreeProcessInfo,
    depth: nat,
    names: Seq<String>,
    platform: Platform,
)
    requires
        node.describes(info, depth, names, platform),
    ensures
        node.pid == info.pid && node.depth == depth && node.owner_uid == info.owner_uid,
        node.complete <==> info.process_name is Some && info.start_time_marker is Some,
        node.protected <==> info.process_name is Some && protected_name(
            platform,
            info.process_name->0@,
            names,
        ),
        node.system_process <==> system_process(
            platform,
            opt_text(info.process_name),
            opt_text(info.parent_process_name),
        ),
        opt_text(node.process_name) == opt_text(info.process_name),
{
}

/// A tree is planned exactly of a root that is in a table of at most 65536 processes.
pub proof fn law_when_a_tree_is_planned(
    root_pid: u32,
    snapshot: Seq<TreeProcessInfo>,
    names: Seq<String>,
    platform: Platform,
    limit: usize,
    r: Result<ProcessTreeTarget, TreePlanError>,
)
    requires
        tree_planned(root_pid, snapshot, names, platform, limit, r),
    ensures
        r is Ok <==> snapshot.len() <= 65_536 && exists|i: int|
            0 <= i < snapshot.len() && (#[trigger] snapshot[i]).pid == root_pid,
        r is Err && r->Err_0 is SnapshotLimitExceeded <==> snapshot.len() > 65_536,
        r is Err && r->Err_0 is SnapshotLimitExceeded ==> r->Err_0->limit == 65_536,
{
}

/// A planned group is the root and the other processes of its group, each once. Where it is
/// not cut off, every process of the group is in it.
pub proof fn law_planned_group_is_the_group(
    root_pid: u32,
    snapshot: Seq<TreeProcessInfo>,
    names: Seq<String>,
    platform: Platform,
    limit: usize,
    target: ProcessGroupTarget,
    k: int,
    j: int,
)
    requires
        group_planned(root_pid, snapshot, names, platform, limit, Ok(target)),
    ensures
        1 <= target.members.nodes.len() <= limit,
        target.members.nodes@[0].pid == root_pid,
        0 <= k < target.members.nodes.len() ==> exists|j: int|
            0 <= j < snapshot.len() && (#[trigger] snapshot[j]).pid == target.members.nodes@[k].pid
                && snapshot[j].process_group == Some(target.pgid),
        1 <= k < target.members.nodes.len() ==> target.members.nodes@[k].pid != root_pid
            && target.members.nodes@[k].depth == 1,
        target.members.truncated_at is Some ==> target.members.nodes.len() == limit,
        target.members.truncated_at is None && 0 <= j < snapshot.len()
            && snapshot[j].process_group == Some(target.pgid) ==> exists|n: int|
            0 <= n < target.members.nodes.len() && (#[trigger] target.members.nodes@[n]).pid
                == snapshot[j].pid,
{
    let nodes = target.members.nodes@;
    if 1 <= k < nodes.len() {
        assert(joined(nodes, k, target.pgid, snapshot, names, platform));
        assert(nodes[0].pid != nodes[k].pid);
    }
    if target.members.truncated_at is None && 0 <= j < snapshot.len()
        && snapshot[j].process_group == Some(target.pgid) {
        assert(holds_pid(nodes, snapshot[j].pid));
    }
}

/// Trees are killed up to 256 processes and groups up to 512.
pub proof fn law_scopes_are_bounded(
    root: KillTarget,
    snapshot: Seq<TreeProcessInfo>,
    config: crate::config::Config,
    pgid: u32,
    confirmation: ScopeAuthorization,
    host: HostFacts,
    tree: Result<(), TreeKillOutcome>,
    group: Result<(), TreeKillOutcome>,
)
    requires
        crate::scoped::fresh_tree_judged(root, snapshot, config, confirmation, host, tree),
        crate::scoped::fresh_group_judged(root, snapshot, config, pgid, confirmation, host, group),
    ensures
        tree is Ok ==> exists|preview: ProcessTreeTarget| #[trigger]
            preflight_clear(preview, host) && preview.nodes.len() <= 256 && preview.nodes@[0].pid
                == root.pid,
        group is Ok ==> exists|planned: ProcessGroupTarget| #[trigger]
            preflight_clear(planned.members, host) && planned.members.nodes.len() <= 512
                && planned.members.nodes@[0].pid == root.pid && planned.pgid == pgid,
{
    if tree is Ok {
        let planned = choose|planned: Result<ProcessTreeTarget, TreePlanError>| #[trigger]
            tree_planned(
                root.pid,
                snapshot,
                config.protected_processes@,
                root.platform,
                crate::tree::MAX_TREE_PROCESSES,
                planned,
            ) && match planned {
                Err(error) => tree is Err && crate::tree::plan_refused(error, tree->Err_0),
                Ok(preview) => tree_gates(root, preview, confirmation, host, tree),
            };
        assert(preflight_clear(planned->Ok_0, host));
    }
    if group is Ok {
        let planned = choose|planned: Result<ProcessGroupTarget, GroupPlanError>| #[trigger]
            group_planned(
                root.pid,
                snapshot,
                config.protected_processes@,
                root.platform,
                crate::tree::MAX_GROUP_PROCESSES,
                planned,
            ) && match planned {
                Err(GroupPlanError::RootMissing) => group == Err::<(), TreeKillOutcome>(
                    TreeKillOutcome::RootAlreadyExited,
                ),
                Err(GroupPlanError::GroupUnavailable) => group == Err::<(), TreeKillOutcome>(
                    TreeKillOutcome::TargetChanged { pid: root.pid },
                ),
                Ok(planned) => group_gates(root, planned, pgid, confirmation, host, group),
            };
        assert(preflight_clear(planned->Ok_0.members, host));
    }
}

/// Only processes that were signalled are told as something that was sent, with how many
/// there were; all else but a root that was gone is an error.
pub proof fn law_scoped_endings_are_errors_or_not(
    target: KillTarget,
    mode: KillMode,
    outcome: TreeKillOutcome,
)
    ensures
        "error: "@.is_prefix_of(tree_outcome_text(target, mode, outcome)) <==> !(outcome
            is Completed || outcome is RootAlreadyExited),
        outcome is Completed ==> tree_outcome_text(target, mode, outcome) == "sent "@
            + mode.delivery_text(target.platform) + " to "@ + decimal(outcome->signalled as nat)
            + " process(es)"@,
        outcome is RootAlreadyExited ==> tree_outcome_text(target, mode, outcome)
            == "the root process already exited"@,
{
    reveal_strlit("error: ");
    reveal_strlit("sent ");
    reveal_strlit("the root process already exited");
    reveal_strlit("error: more than ");
    reveal_strlit("error: unsafe PID ");
    reveal_strlit("error: protected process PID ");
    reveal_strlit("error: protected root PID ");
    reveal_strlit("error: the owner of a port of PID ");
    reveal_strlit("error: PID ");
    reveal_strlit("error: permission denied for PID ");
    reveal_strlit("error: facts about PID ");
    reveal_strlit("error: the processes gained warnings after --yes; rerun to confirm them");
    reveal_strlit("error: enumerating the processes failed: ");
    reveal_strlit("error: stopped processes could not be resumed; ");
    let text = tree_outcome_text(target, mode, outcome);
    if outcome is Completed || outcome is RootAlreadyExited {
        assert(text[0] != 'e');
        assert("error: "@[0] == 'e');
    } else {
        assert("error: "@ =~= text.take(7));
    }
}

/// A refusal before the question names the kind of scope and the process it is about.
pub proof fn law_refusals_name_the_scope(noun: Seq<char>, outcome: TreeKillOutcome)
    ensures
        ("error: process "@ + noun).is_prefix_of(preflight_text(noun, outcome)),
        outcome is UnsafePid ==> preflight_text(noun, outcome) == "error: process "@ + noun
            + " contains unsafe PID "@ + decimal(outcome->UnsafePid_pid as nat) + "; refusing "@
            + noun + " kill"@,
        outcome is Truncated ==> preflight_text(noun, outcome) == "error: process "@ + noun
            + " exceeds the "@ + decimal(outcome->limit as nat)
            + " process cap; refusing to kill a partial "@ + noun,
{
    let head = "error: process "@ + noun;
    let text = preflight_text(noun, outcome);
    assert(text.len() >= head.len() && head =~= text.take(head.len() as int));
}

/// A tree is shown with its root, its size, its ports and the command that does the same;
/// then its first twelve processes and how many more there are.
pub proof fn law_banner_of_a_tree(
    root: KillTarget,
    nodes: Seq<TreeNode>,
    mode: KillMode,
    host: HostFacts,
    k: int,
)
    ensures
        ({
            let lines = tree_banner_lines(root, nodes, mode, host);
            &&& lines.len() >= 4
            &&& lines[0] == (if mode == KillMode::Force {
                "Force kill"@
            } else {
                "Terminate"@
            }) + " process tree from "@ + identity_text(root)
            &&& lines[1] == "Scope: tree ("@ + decimal(nodes.len()) + " processes)"@
            &&& lines[3] == "Command: "@ + sanitized(
                "kick kill --pid "@ + decimal(root.pid as nat) + " --tree"@ + (if mode
                    == KillMode::Force {
                    " --force"@
                } else {
                    Seq::empty()
                }),
            )
            &&& 0 <= k < nodes.len() && k < 12 ==> lines.len() > 4 + k && lines[4 + k]
                == tree_node_line(nodes[k])
            &&& nodes.len() > 12 ==> lines.len() > 16 && lines[16] == "  ... and "@ + decimal(
                (nodes.len() - 12) as nat,
            ) + " more"@
        }),
{
    let lines = tree_banner_lines(root, nodes, mode, host);
    let shown = tree_preview_lines(nodes);
    assert(forall|i: int| 0 <= i < shown.len() ==> lines[4 + i] == #[trigger] shown[i]);
    if 0 <= k < nodes.len() && k < 12 {
        assert(lines[4 + k] == shown[k]);
    }
    if nodes.len() > 12 {
        assert(lines[4 + 12int] == shown[12]);
    }
}

/// A group is shown with its root, its number, its size, its ports and the command that does
/// the same; then every process of it, the root marked as the confirmed target.
pub proof fn law_banner_of_a_group(
    root: KillTarget,
    pgid: u32,
    nodes: Seq<TreeNode>,
    mode: KillMode,
    host: HostFacts,
    k: int,
)
    ensures
        ({
            let lines = group_banner_lines(root, pgid, nodes, mode, host);
            &&& lines.len() >= 4 + nodes.len() + 1
            &&& lines[0] == (if mode == KillMode::Force {
                "Force kill"@
            } else {
                "Terminate"@
            }) + " process group "@ + decimal(pgid as nat) + " of "@ + identity_text(root)
            &&& lines[1] == "Scope: group "@ + decimal(pgid as nat) + " ("@ + decimal(nodes.len())
                + " processes)"@
            &&& lines[3] == "Command: "@ + sanitized(
                "kick kill --pid "@ + decimal(root.pid as nat) + " --group"@ + (if mode
                    == KillMode::Force {
                    " --force"@
                } else {
                    Seq::empty()
                }),
            )
            &&& 0 <= k < nodes.len() ==> lines[4 + k] == group_node_line(nodes[k])
        }),
        0 <= k < nodes.len() && nodes[k].depth == 0 ==> exists|name: Seq<char>| #[trigger]
            group_node_line(nodes[k]) == "  PID "@ + decimal(nodes[k].pid as nat) + " ("@ + name
                + ")"@ + " [confirmed target]"@,
        0 <= k < nodes.len() && nodes[k].depth != 0 ==> exists|name: Seq<char>| #[trigger]
            group_node_line(nodes[k]) == "  PID "@ + decimal(nodes[k].pid as nat) + " ("@ + name
                + ")"@,
{
    let lines = group_banner_lines(root, pgid, nodes, mode, host);
    let members = nodes.map_values(|node: TreeNode| group_node_line(node));
    assert(forall|i: int| 0 <= i < members.len() ==> lines[4 + i] == #[trigger] members[i]);
    if 0 <= k < nodes.len() {
        assert(lines[4 + k] == members[k]);
        assert(members[k] == group_node_line(nodes[k]));
    }
}

/// Processes of other users in a scope are warned of where the system knows owners, with
/// their number and the first of them; a scope without any is not warned of.
pub proof fn law_foreign_processes_are_warned_of(
    nodes: Seq<TreeNode>,
    noun: Seq<char>,
    platform: Platform,
    host: HostFacts,
)
    ensures
        owner_warning_text(nodes, noun, platform, host) is Some <==> platform != Platform::Windows
            && exists|i: int|
            0 <= i < nodes.len() && (#[trigger] nodes[i]).owner_uid is Some && nodes[i].owner_uid
                != Some(host.user_id),
        foreign_count(nodes, host) == 0 <==> forall|i: int|
            0 <= i < nodes.len() ==> (#[trigger] nodes[i]).owner_uid is None || nodes[i].owner_uid
                == Some(host.user_id),
        foreign_count(nodes, host) <= nodes.len(),
    decreases nodes.len(),
{
    if nodes.len() > 0 {
        let head = nodes.drop_last();
        law_foreign_processes_are_warned_of(head, noun, Platform::Linux, host);
        let last = nodes[nodes.len() - 1];
        if exists|i: int|
            0 <= i < nodes.len() && (#[trigger] nodes[i]).owner_uid is Some && nodes[i].owner_uid
                != Some(host.user_id) {
            let i = choose|i: int|
                0 <= i < nodes.len() && (#[trigger] nodes[i]).owner_uid is Some
                    && nodes[i].owner_uid != Some(host.user_id);
            if i < head.len() {
                assert(head[i] == nodes[i]);
            }
        }
        if exists|i: int|
            0 <= i < head.len() && (#[trigger] head[i]).owner_uid is Some && head[i].owner_uid
                != Some(host.user_id) {
            let i = choose|i: int|
                0 <= i < head.len() && (#[trigger] head[i]).owner_uid is Some && head[i].owner_uid
                    != Some(host.user_id);
            assert(nodes[i] == head[i]);
        }
        assert(forall|i: int| 0 <= i < head.len() ==> nodes[i] == #[trigger] head[i]);
    }
}

} // verus!
