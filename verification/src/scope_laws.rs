//! A scoped kill kills once at most, and nothing before it was confirmed and found again.

use vstd::prelude::*;
use crate::collector::CollectorError;
use crate::config::Config;
use crate::exit::ExitReason;
use crate::kill::{
    lemma_look_signals_nothing, lemma_no_signal_joins, lemma_ports_signal_nothing, no_signal,
    revalidated, KillArgs,
};
use crate::model::Platform;
use crate::operations::{let_go, no_release, Operation};
use crate::ports::PortEntry;
use crate::process::{HostFacts, KillMode, KillTarget, TerminationOutcome};
use crate::scoped::{
    group_confirmed, ported_looked, preview_planned, resolves_root, scope_around, scope_committed,
    scope_ending_lines, scope_executed, scope_outcome, scope_pinned, scope_refusal_lines,
    scope_revalidated, tree_confirmed, tree_killed, tree_offered, tree_outcome_text,
    tree_previewed, tree_reason, tree_tabled, TreeSnapshotScope,
};
use crate::scoped_group::{
    group_killed, group_offered, group_plan_reason, group_plan_text, group_previewed,
    group_tabled,
};
use crate::tree::{
    group_planned, preflight_clear, GroupPlanError, ProcessGroupTarget, ProcessTreeTarget,
    ScopeAuthorization, TreeKillOutcome, TreeProcessInfo, MAX_GROUP_PROCESSES,
};
use crate::windows_report::{
    completed_text, partial_text, windows_ending_lines, windows_reason, WindowsTreeKillOutcome,
};
use crate::windows_tree::{
    windows_committed, windows_executed, windows_held, windows_killed, windows_looked_again,
    windows_offered, windows_ported, windows_previewed, windows_refusal_lines, windows_revalidated, windows_tabled,
};
use crate::text::sanitized;

verus! {

proof fn lemma_root_kills_nothing<H>(
    args: KillArgs,
    config: Config,
    entries: Seq<PortEntry>,
    snapshot: Seq<TreeProcessInfo>,
    platform: Platform,
    host: HostFacts,
    before: Seq<Operation<H>>,
    after: Seq<Operation<H>>,
    r: Result<KillTarget, ExitReason>,
    lines: Seq<Seq<char>>,
)
    requires
        resolves_root(
            args,
            config,
            entries,
            snapshot,
            platform,
            host,
            before,
            after,
            r,
            lines,
        ),
    ensures
        no_signal(before, after),
{
}

proof fn lemma_tree_confirmed_kills_nothing<H>(
    root: KillTarget,
    preview: ProcessTreeTarget,
    mode: KillMode,
    yes: bool,
    host: HostFacts,
    before: Seq<Operation<H>>,
    after: Seq<Operation<H>>,
    r: Result<ScopeAuthorization, ExitReason>,
    lines: Seq<Seq<char>>,
)
    requires
        tree_confirmed(root, preview, mode, yes, host, before, after, r, lines),
    ensures
        no_signal(before, after),
{
}

proof fn lemma_group_confirmed_kills_nothing<H>(
    root: KillTarget,
    group: ProcessGroupTarget,
    mode: KillMode,
    yes: bool,
    host: HostFacts,
    before: Seq<Operation<H>>,
    after: Seq<Operation<H>>,
    r: Result<ScopeAuthorization, ExitReason>,
    lines: Seq<Seq<char>>,
)
    requires
        group_confirmed(root, group, mode, yes, host, before, after, r, lines),
    ensures
        no_signal(before, after),
{
}

proof fn lemma_scope_look_kills_nothing<H>(
    args: KillArgs,
    confirmed: KillTarget,
    config: Config,
    pgid: Option<u32>,
    confirmation: ScopeAuthorization,
    platform: Platform,
    host: HostFacts,
    before: Seq<Operation<H>>,
    after: Seq<Operation<H>>,
    r: Result<KillTarget, TreeKillOutcome>,
    aside: Seq<Seq<char>>,
)
    requires
        scope_revalidated(
            args,
            confirmed,
            config,
            pgid,
            confirmation,
            platform,
            host,
            before,
            after,
            r,
            aside,
        ),
    ensures
        no_signal(before, after),
{
    if confirmed.ports.len() > 0 {
        let (looked, middle) = choose|
            looked: Result<KillTarget, TerminationOutcome>,
            middle: Seq<Operation<H>>,
        |
            #[trigger] revalidated(
                args,
                config,
                confirmed,
                host,
                false,
                before,
                middle,
                looked,
                aside,
            ) && match looked {
                Err(outcome) => after == middle && r is Err && scope_outcome(
                    confirmed,
                    outcome,
                    r->Err_0,
                ),
                Ok(root) => exists|taken: Result<Vec<TreeProcessInfo>, String>|
                    after == middle.push(Operation::Table(scope_around(root.pid, pgid), taken))
                        && #[trigger] ported_looked(
                        root,
                        config,
                        pgid,
                        confirmation,
                        host,
                        taken,
                        r,
                    ),
            };
        lemma_look_signals_nothing(
            args,
            config,
            confirmed,
            host,
            false,
            before,
            middle,
            looked,
            aside,
        );
        assert(no_signal(middle, after));
        lemma_no_signal_joins(before, middle, after);
    }
}

proof fn lemma_ending_kills_nothing<H>(
    target: KillTarget,
    mode: KillMode,
    outcome: TreeKillOutcome,
    before: Seq<Operation<H>>,
    after: Seq<Operation<H>>,
    lines: Seq<Seq<char>>,
)
    requires
        scope_ending_lines(target, mode, outcome, before, after, lines),
    ensures
        no_signal(before, after),
{
    if outcome is Completed || outcome is RootAlreadyExited {
        lemma_ports_signal_nothing(
            target.ports@,
            before,
            after,
            seq![tree_outcome_text(target, mode, outcome)],
            lines,
        );
    }
}

/// A confirmed tree or group is killed once at most: after its root was pinned and found
/// again, as the user confirmed it. What comes behind the kill kills nothing.
#[verifier::rlimit(30)]
pub proof fn law_scope_is_killed_once<H>(
    args: KillArgs,
    config: Config,
    platform: Platform,
    host: HostFacts,
    mode: KillMode,
    root: KillTarget,
    pgid: Option<u32>,
    authorization: ScopeAuthorization,
    before: Seq<Operation<H>>,
    after: Seq<Operation<H>>,
    r: ExitReason,
    lines: Seq<Seq<char>>,
)
    requires
        scope_committed(
            args,
            config,
            platform,
            host,
            mode,
            root,
            pgid,
            authorization,
            before,
            after,
            r,
            lines,
        ),
    ensures
        no_signal(before, after) || exists|
            pinned: Result<(), TreeKillOutcome>,
            now: Seq<Operation<H>>,
            fresh: KillTarget,
            aside: Seq<Seq<char>>,
            outcome: TreeKillOutcome,
        |
            {
                &&& pinned is Ok
                &&& #[trigger] scope_revalidated(
                    args,
                    root,
                    config,
                    pgid,
                    authorization,
                    platform,
                    host,
                    before.push(Operation::Pinned(root.pid, pinned)),
                    now,
                    Ok(fresh),
                    aside,
                )
                &&& no_signal(before, now)
                &&& #[trigger] no_signal(
                    now.push(
                        Operation::ScopeKilled(
                            fresh,
                            pgid,
                            mode,
                            config.protected_processes,
                            authorization,
                            outcome,
                        ),
                    ),
                    after,
                )
                &&& r == tree_reason(outcome)
            },
{
    let names = config.protected_processes;
    let pinned = choose|pinned: Result<(), TreeKillOutcome>|
        #[trigger] scope_pinned(
            args,
            config,
            platform,
            host,
            mode,
            root,
            pgid,
            authorization,
            pinned,
            before.push(Operation::Pinned(root.pid, pinned)),
            after,
            r,
            lines,
        );
    let held = before.push(Operation::Pinned(root.pid, pinned));
    assert(no_signal(before, held));
    match pinned {
        Err(outcome) => {
            lemma_ending_kills_nothing(root, mode, outcome, held, after, lines);
            lemma_no_signal_joins(before, held, after);
        },
        Ok(_) => {
            let (fresh, aside, now) = choose|
                fresh: Result<KillTarget, TreeKillOutcome>,
                aside: Seq<Seq<char>>,
                now: Seq<Operation<H>>,
            |
                #[trigger] scope_revalidated(
                    args,
                    root,
                    config,
                    pgid,
                    authorization,
                    platform,
                    host,
                    held,
                    now,
                    fresh,
                    aside,
                ) && match fresh {
                    Err(outcome) => r == tree_reason(outcome) && scope_refusal_lines(
                        root,
                        mode,
                        outcome,
                        aside,
                        now,
                        after,
                        lines,
                    ),
                    Ok(fresh) => scope_executed(
                        fresh,
                        pgid,
                        mode,
                        names,
                        authorization,
                        now,
                        after,
                        r,
                        lines,
                    ),
                };
            lemma_scope_look_kills_nothing(
                args,
                root,
                config,
                pgid,
                authorization,
                platform,
                host,
                held,
                now,
                fresh,
                aside,
            );
            lemma_no_signal_joins(before, held, now);
            match fresh {
                Err(outcome) => {
                    let rest = choose|rest: Seq<Seq<char>>|
                        lines == aside + rest && #[trigger] scope_ending_lines(
                            root,
                            mode,
                            outcome,
                            now,
                            after,
                            rest,
                        );
                    lemma_ending_kills_nothing(root, mode, outcome, now, after, rest);
                    lemma_no_signal_joins(before, now, after);
                },
                Ok(fresh) => {
                    let outcome = choose|outcome: TreeKillOutcome|
                        r == tree_reason(outcome) && #[trigger] scope_ending_lines(
                            fresh,
                            mode,
                            outcome,
                            now.push(
                                Operation::ScopeKilled(
                                    fresh,
                                    pgid,
                                    mode,
                                    names,
                                    authorization,
                                    outcome,
                                ),
                            ),
                            after,
                            lines,
                        );
                    let killed = now.push(
                        Operation::ScopeKilled(fresh, pgid, mode, names, authorization, outcome),
                    );
                    lemma_ending_kills_nothing(fresh, mode, outcome, killed, after, lines);
                    assert(scope_revalidated(
                        args,
                        root,
                        config,
                        pgid,
                        authorization,
                        platform,
                        host,
                        before.push(Operation::Pinned(root.pid, pinned)),
                        now,
                        Ok(fresh),
                        aside,
                    ));
                    assert(no_signal(killed, after));
                },
            }
        },
    }
}

/// A tree that may be signalled was shown and confirmed, nothing was killed before that,
/// and the kill of a confirmed scope followed.
pub open spec fn tree_kill_follows<H>(
    args: KillArgs,
    config: Config,
    platform: Platform,
    host: HostFacts,
    mode: KillMode,
    before: Seq<Operation<H>>,
    after: Seq<Operation<H>>,
    r: ExitReason,
    lines: Seq<Seq<char>>,
) -> bool {
    exists|
        root: KillTarget,
        preview: ProcessTreeTarget,
        authorization: ScopeAuthorization,
        unasked: Seq<Operation<H>>,
        confirmed: Seq<Operation<H>>,
        first: Seq<Seq<char>>,
    |
        {
            &&& preflight_clear(preview, host)
            &&& #[trigger] tree_confirmed(
                root,
                preview,
                mode,
                args.yes,
                host,
                unasked,
                confirmed,
                Ok(authorization),
                first,
            )
            &&& no_signal(before, confirmed)
            &&& scope_committed(
                args,
                config,
                platform,
                host,
                mode,
                root,
                None,
                authorization,
                confirmed,
                after,
                r,
                lines.skip(first.len() as int),
            )
        }
}

#[verifier::spinoff_prover]
proof fn lemma_tree_offered_follows<H>(
    args: KillArgs,
    config: Config,
    platform: Platform,
    host: HostFacts,
    mode: KillMode,
    root: KillTarget,
    preview: ProcessTreeTarget,
    before: Seq<Operation<H>>,
    now: Seq<Operation<H>>,
    after: Seq<Operation<H>>,
    r: ExitReason,
    lines: Seq<Seq<char>>,
)
    requires
        no_signal(before, now),
        tree_offered(args, config, platform, host, mode, root, preview, now, after, r, lines),
    ensures
        no_signal(before, after) || tree_kill_follows(
            args,
            config,
            platform,
            host,
            mode,
            before,
            after,
            r,
            lines,
        ),
{
    if preflight_clear(preview, host) {
        let (authorization, first, confirmed) = choose|
            authorization: Result<ScopeAuthorization, ExitReason>,
            first: Seq<Seq<char>>,
            confirmed: Seq<Operation<H>>,
        |
            #[trigger] tree_confirmed(
                root,
                preview,
                mode,
                args.yes,
                host,
                now,
                confirmed,
                authorization,
                first,
            ) && match authorization {
                Err(reason) => after == confirmed && r == reason && lines == first,
                Ok(authorization) => first.is_prefix_of(lines) && scope_committed(
                    args,
                    config,
                    platform,
                    host,
                    mode,
                    root,
                    None,
                    authorization,
                    confirmed,
                    after,
                    r,
                    lines.skip(first.len() as int),
                ),
            };
        lemma_tree_confirmed_kills_nothing(
            root,
            preview,
            mode,
            args.yes,
            host,
            now,
            confirmed,
            authorization,
            first,
        );
        lemma_no_signal_joins(before, now, confirmed);
        if authorization is Ok {
            assert(tree_confirmed(
                root,
                preview,
                mode,
                args.yes,
                host,
                now,
                confirmed,
                Ok(authorization->Ok_0),
                first,
            ));
        }
    }
}

#[verifier::spinoff_prover]
proof fn lemma_tree_previewed_follows<H>(
    args: KillArgs,
    config: Config,
    platform: Platform,
    host: HostFacts,
    mode: KillMode,
    root: KillTarget,
    infos: Seq<TreeProcessInfo>,
    before: Seq<Operation<H>>,
    now: Seq<Operation<H>>,
    after: Seq<Operation<H>>,
    r: ExitReason,
    lines: Seq<Seq<char>>,
)
    requires
        no_signal(before, now),
        tree_previewed(args, config, platform, host, mode, root, infos, now, after, r, lines),
    ensures
        no_signal(before, after) || tree_kill_follows(
            args,
            config,
            platform,
            host,
            mode,
            before,
            after,
            r,
            lines,
        ),
{
    let (planned, told) = choose|
        planned: Result<ProcessTreeTarget, ExitReason>,
        told: Seq<Seq<char>>,
    |
        #[trigger] preview_planned(root, infos, config.protected_processes@, planned, told)
            && match planned {
            Err(reason) => after == now && r == reason && lines == told,
            Ok(preview) => tree_offered(
                args,
                config,
                platform,
                host,
                mode,
                root,
                preview,
                now,
                after,
                r,
                lines,
            ),
        };
    if planned is Ok {
        lemma_tree_offered_follows(
            args,
            config,
            platform,
            host,
            mode,
            root,
            planned->Ok_0,
            before,
            now,
            after,
            r,
            lines,
        );
    }
}

/// Nothing is killed in a tree kill before a tree that may be signalled was shown and
/// confirmed; from there on the kill of a confirmed scope runs.
#[verifier::spinoff_prover]
pub proof fn law_tree_kill_follows_its_confirmation<H>(
    args: KillArgs,
    config: Config,
    entries: Seq<PortEntry>,
    platform: Platform,
    host: HostFacts,
    mode: KillMode,
    before: Seq<Operation<H>>,
    after: Seq<Operation<H>>,
    r: ExitReason,
    lines: Seq<Seq<char>>,
)
    requires
        tree_killed(args, config, entries, platform, host, mode, before, after, r, lines),
    ensures
        no_signal(before, after) || tree_kill_follows(
            args,
            config,
            platform,
            host,
            mode,
            before,
            after,
            r,
            lines,
        ),
{
    let taken = choose|taken: Result<Vec<TreeProcessInfo>, String>|
        #[trigger] tree_tabled(
            args,
            config,
            entries,
            platform,
            host,
            mode,
            taken,
            before.push(Operation::Table(TreeSnapshotScope::Whole, taken)),
            after,
            r,
            lines,
        );
    let tabled = before.push(Operation::Table(TreeSnapshotScope::Whole, taken));
    assert(no_signal(before, tabled));
    if taken is Ok {
        let infos = taken->Ok_0@;
        let (root, first, resolved) = choose|
            root: Result<KillTarget, ExitReason>,
            first: Seq<Seq<char>>,
            resolved: Seq<Operation<H>>,
        |
            #[trigger] resolves_root(
                args,
                config,
                entries,
                infos,
                platform,
                host,
                tabled,
                resolved,
                root,
                first,
            ) && match root {
                Err(reason) => after == resolved && r == reason && lines == first,
                Ok(root) => tree_previewed(
                    args,
                    config,
                    platform,
                    host,
                    mode,
                    root,
                    infos,
                    resolved,
                    after,
                    r,
                    lines,
                ),
            };
        lemma_root_kills_nothing(
            args,
            config,
            entries,
            infos,
            platform,
            host,
            tabled,
            resolved,
            root,
            first,
        );
        lemma_no_signal_joins(before, tabled, resolved);
        if root is Ok {
            lemma_tree_previewed_follows(
                args,
                config,
                platform,
                host,
                mode,
                root->Ok_0,
                infos,
                before,
                resolved,
                after,
                r,
                lines,
            );
        }
    }
}

/// A group that may be signalled was shown and confirmed, nothing was killed before that,
/// and the kill of a confirmed scope followed, in that group.
pub open spec fn group_kill_follows<H>(
    args: KillArgs,
    config: Config,
    platform: Platform,
    host: HostFacts,
    mode: KillMode,
    before: Seq<Operation<H>>,
    after: Seq<Operation<H>>,
    r: ExitReason,
    lines: Seq<Seq<char>>,
) -> bool {
    exists|
        root: KillTarget,
        group: ProcessGroupTarget,
        authorization: ScopeAuthorization,
        unasked: Seq<Operation<H>>,
        confirmed: Seq<Operation<H>>,
        first: Seq<Seq<char>>,
    |
        {
            &&& preflight_clear(group.members, host)
            &&& #[trigger] group_confirmed(
                root,
                group,
                mode,
                args.yes,
                host,
                unasked,
                confirmed,
                Ok(authorization),
                first,
            )
            &&& no_signal(before, confirmed)
            &&& scope_committed(
                args,
                config,
                platform,
                host,
                mode,
                root,
                Some(group.pgid),
                authorization,
                confirmed,
                after,
                r,
                lines.skip(first.len() as int),
            )
        }
}

#[verifier::spinoff_prover]
proof fn lemma_group_offered_follows<H>(
    args: KillArgs,
    config: Config,
    platform: Platform,
    host: HostFacts,
    mode: KillMode,
    root: KillTarget,
    group: ProcessGroupTarget,
    before: Seq<Operation<H>>,
    now: Seq<Operation<H>>,
    after: Seq<Operation<H>>,
    r: ExitReason,
    lines: Seq<Seq<char>>,
)
    requires
        no_signal(before, now),
        group_offered(args, config, platform, host, mode, root, group, now, after, r, lines),
    ensures
        no_signal(before, after) || group_kill_follows(
            args,
            config,
            platform,
            host,
            mode,
            before,
            after,
            r,
            lines,
        ),
{
    if preflight_clear(group.members, host) {
        let (authorization, first, confirmed) = choose|
            authorization: Result<ScopeAuthorization, ExitReason>,
            first: Seq<Seq<char>>,
            confirmed: Seq<Operation<H>>,
        |
            #[trigger] group_confirmed(
                root,
                group,
                mode,
                args.yes,
                host,
                now,
                confirmed,
                authorization,
                first,
            ) && match authorization {
                Err(reason) => after == confirmed && r == reason && lines == first,
                Ok(authorization) => first.is_prefix_of(lines) && scope_committed(
                    args,
                    config,
                    platform,
                    host,
                    mode,
                    root,
                    Some(group.pgid),
                    authorization,
                    confirmed,
                    after,
                    r,
                    lines.skip(first.len() as int),
                ),
            };
        lemma_group_confirmed_kills_nothing(
            root,
            group,
            mode,
            args.yes,
            host,
            now,
            confirmed,
            authorization,
            first,
        );
        lemma_no_signal_joins(before, now, confirmed);
        if authorization is Ok {
            assert(group_confirmed(
                root,
                group,
                mode,
                args.yes,
                host,
                now,
                confirmed,
                Ok(authorization->Ok_0),
                first,
            ));
        }
    }
}

#[verifier::spinoff_prover]
proof fn lemma_group_previewed_follows<H>(
    args: KillArgs,
    config: Config,
    platform: Platform,
    host: HostFacts,
    mode: KillMode,
    root: KillTarget,
    infos: Seq<TreeProcessInfo>,
    before: Seq<Operation<H>>,
    now: Seq<Operation<H>>,
    after: Seq<Operation<H>>,
    r: ExitReason,
    lines: Seq<Seq<char>>,
)
    requires
        no_signal(before, now),
        group_previewed(args, config, platform, host, mode, root, infos, now, after, r, lines),
    ensures
        no_signal(before, after) || group_kill_follows(
            args,
            config,
            platform,
            host,
            mode,
            before,
            after,
            r,
            lines,
        ),
{
    let planned = choose|planned: Result<ProcessGroupTarget, GroupPlanError>|
        #[trigger] group_planned(
            root.pid,
            infos,
            config.protected_processes@,
            root.platform,
            MAX_GROUP_PROCESSES,
            planned,
        ) && match planned {
            Err(error) => now == after && r == group_plan_reason(error) && lines == seq![
                group_plan_text(root.pid, error),
            ],
            Ok(group) => group_offered(
                args,
                config,
                platform,
                host,
                mode,
                root,
                group,
                now,
                after,
                r,
                lines,
            ),
        };
    if planned is Ok {
        lemma_group_offered_follows(
            args,
            config,
            platform,
            host,
            mode,
            root,
            planned->Ok_0,
            before,
            now,
            after,
            r,
            lines,
        );
    }
}

/// Nothing is killed in a group kill before a group that may be signalled was shown and
/// confirmed; from there on the kill of a confirmed scope runs, in that group.
#[verifier::spinoff_prover]
pub proof fn law_group_kill_follows_its_confirmation<H>(
    args: KillArgs,
    config: Config,
    entries: Seq<PortEntry>,
    platform: Platform,
    host: HostFacts,
    mode: KillMode,
    before: Seq<Operation<H>>,
    after: Seq<Operation<H>>,
    r: ExitReason,
    lines: Seq<Seq<char>>,
)
    requires
        group_killed(args, config, entries, platform, host, mode, before, after, r, lines),
    ensures
        no_signal(before, after) || group_kill_follows(
            args,
            config,
            platform,
            host,
            mode,
            before,
            after,
            r,
            lines,
        ),
{
    let taken = choose|taken: Result<Vec<TreeProcessInfo>, String>|
        #[trigger] group_tabled(
            args,
            config,
            entries,
            platform,
            host,
            mode,
            taken,
            before.push(Operation::Table(TreeSnapshotScope::Whole, taken)),
            after,
            r,
            lines,
        );
    let tabled = before.push(Operation::Table(TreeSnapshotScope::Whole, taken));
    assert(no_signal(before, tabled));
    if taken is Ok {
        let infos = taken->Ok_0@;
        let (root, first, resolved) = choose|
            root: Result<KillTarget, ExitReason>,
            first: Seq<Seq<char>>,
            resolved: Seq<Operation<H>>,
        |
            #[trigger] resolves_root(
                args,
                config,
                entries,
                infos,
                platform,
                host,
                tabled,
                resolved,
                root,
                first,
            ) && match root {
                Err(reason) => after == resolved && r == reason && lines == first,
                Ok(root) => group_previewed(
                    args,
                    config,
                    platform,
                    host,
                    mode,
                    root,
                    infos,
                    resolved,
                    after,
                    r,
                    lines,
                ),
            };
        lemma_root_kills_nothing(
            args,
            config,
            entries,
            infos,
            platform,
            host,
            tabled,
            resolved,
            root,
            first,
        );
        lemma_no_signal_joins(before, tabled, resolved);
        if root is Ok {
            lemma_group_previewed_follows(
                args,
                config,
                platform,
                host,
                mode,
                root->Ok_0,
                infos,
                before,
                resolved,
                after,
                r,
                lines,
            );
        }
    }
}

proof fn lemma_windows_look_kills_nothing<H>(
    args: KillArgs,
    config: Config,
    confirmed: KillTarget,
    confirmation: ScopeAuthorization,
    platform: Platform,
    host: HostFacts,
    before: Seq<Operation<H>>,
    after: Seq<Operation<H>>,
    r: Result<KillTarget, WindowsTreeKillOutcome>,
    aside: Seq<Seq<char>>,
)
    requires
        windows_revalidated(
            args,
            config,
            confirmed,
            confirmation,
            platform,
            host,
            before,
            after,
            r,
            aside,
        ),
    ensures
        no_signal(before, after),
        no_release(before, after),
{
    if confirmed.ports.len() > 0 {
        let (looked, middle) = choose|
            looked: Result<KillTarget, TerminationOutcome>,
            middle: Seq<Operation<H>>,
        |
            #[trigger] revalidated(
                args,
                config,
                confirmed,
                host,
                false,
                before,
                middle,
                looked,
                aside,
            ) && match looked {
                Err(refusal) => after == middle && exists|outcome: TreeKillOutcome| #[trigger]
                    scope_outcome(confirmed, refusal, outcome) && r == Err::<
                        KillTarget,
                        WindowsTreeKillOutcome,
                    >(WindowsTreeKillOutcome::precommit(outcome)),
                Ok(root) => exists|taken: Result<Vec<TreeProcessInfo>, CollectorError>|
                    after == middle.push(Operation::Tree(taken)) && #[trigger] windows_ported(
                        root,
                        config,
                        confirmation,
                        host,
                        taken,
                        r,
                    ),
            };
        lemma_look_signals_nothing(
            args,
            config,
            confirmed,
            host,
            false,
            before,
            middle,
            looked,
            aside,
        );
        assert(no_signal(middle, after));
        lemma_no_signal_joins(before, middle, after);
    }
}

proof fn lemma_windows_ending_kills_nothing<H>(
    root: KillTarget,
    mode: KillMode,
    outcome: WindowsTreeKillOutcome,
    before: Seq<Operation<H>>,
    after: Seq<Operation<H>>,
    lines: Seq<Seq<char>>,
)
    requires
        windows_ending_lines(root, mode, outcome, before, after, lines),
    ensures
        no_signal(before, after),
{
    match outcome {
        WindowsTreeKillOutcome::Refused(refusal) => {
            lemma_ending_kills_nothing(root, mode, refusal, before, after, lines);
        },
        WindowsTreeKillOutcome::Completed(report) => {
            lemma_ports_signal_nothing(
                root.ports@,
                before,
                after,
                seq![completed_text(root, report)],
                lines,
            );
        },
        WindowsTreeKillOutcome::JobTerminateFailed { error, report } => {
            lemma_ports_signal_nothing(
                root.ports@,
                before,
                after,
                seq![
                    "error: TerminateJobObject failed: "@ + sanitized(error@),
                    "error: "@ + partial_text(root, *report),
                ],
                lines,
            );
        },
        _ => {},
    }
}

proof fn lemma_windows_tree_is_killed_once<H>(
    held: Option<H>,
    args: KillArgs,
    config: Config,
    platform: Platform,
    host: HostFacts,
    mode: KillMode,
    root: KillTarget,
    authorization: ScopeAuthorization,
    before: Seq<Operation<H>>,
    after: Seq<Operation<H>>,
    r: ExitReason,
    lines: Seq<Seq<char>>,
)
    requires
        windows_looked_again(
            held,
            args,
            config,
            platform,
            host,
            mode,
            root,
            authorization,
            before,
            after,
            r,
            lines,
        ),
    ensures
        no_signal(before, after) || windows_killed_once(
            held,
            args,
            config,
            platform,
            host,
            root,
            authorization,
            before,
            after,
            r,
        ),
{
    let names = config.protected_processes;
    let (fresh, aside, now) = choose|
        fresh: Result<KillTarget, WindowsTreeKillOutcome>,
        aside: Seq<Seq<char>>,
        now: Seq<Operation<H>>,
    |
        #[trigger] windows_revalidated(
            args,
            config,
            root,
            authorization,
            platform,
            host,
            before,
            now,
            fresh,
            aside,
        ) && match fresh {
            Err(outcome) => r == windows_reason(outcome) && windows_refusal_lines(
                held,
                root,
                mode,
                outcome,
                aside,
                now,
                after,
                lines,
            ),
            Ok(fresh) => windows_executed(
                held,
                fresh,
                names,
                authorization,
                mode,
                now,
                after,
                r,
                lines,
            ),
        };
    lemma_windows_look_kills_nothing(
        args,
        config,
        root,
        authorization,
        platform,
        host,
        before,
        now,
        fresh,
        aside,
    );
    match fresh {
        Err(outcome) => {
            let (rest, told) = choose|rest: Seq<Seq<char>>, told: Seq<Operation<H>>|
                lines == aside + rest && after == let_go(held, told)
                    && #[trigger] windows_ending_lines(root, mode, outcome, now, told, rest);
            lemma_windows_ending_kills_nothing(root, mode, outcome, now, told, rest);
            lemma_no_signal_joins(before, now, told);
            assert(no_signal(told, after));
            lemma_no_signal_joins(before, told, after);
        },
        Ok(fresh) => {
            let outcome = choose|outcome: WindowsTreeKillOutcome|
                r == windows_reason(outcome) && #[trigger] windows_ending_lines(
                    fresh,
                    mode,
                    outcome,
                    let_go(
                        held,
                        now.push(Operation::TreeKilled(fresh, names, authorization, outcome)),
                    ),
                    after,
                    lines,
                );
            let killed = let_go(
                held,
                now.push(Operation::TreeKilled(fresh, names, authorization, outcome)),
            );
            lemma_windows_ending_kills_nothing(fresh, mode, outcome, killed, after, lines);
            assert(no_signal(killed, after));
        },
    }
}

/// A tree was killed once on Windows: after its root was found again, as the user
/// confirmed it. A root that was held on to was let go of behind the kill and not before
/// it, and what came behind the kill killed nothing.
pub open spec fn windows_killed_once<H>(
    held: Option<H>,
    args: KillArgs,
    config: Config,
    platform: Platform,
    host: HostFacts,
    root: KillTarget,
    authorization: ScopeAuthorization,
    before: Seq<Operation<H>>,
    after: Seq<Operation<H>>,
    r: ExitReason,
) -> bool {
    exists|
        now: Seq<Operation<H>>,
        fresh: KillTarget,
        aside: Seq<Seq<char>>,
        outcome: WindowsTreeKillOutcome,
    |
        {
            &&& #[trigger] windows_revalidated(
                args,
                config,
                root,
                authorization,
                platform,
                host,
                before,
                now,
                Ok(fresh),
                aside,
            )
            &&& no_signal(before, now)
            &&& no_release(before, now)
            &&& #[trigger] no_signal(
                let_go(
                    held,
                    now.push(
                        Operation::TreeKilled(
                            fresh,
                            config.protected_processes,
                            authorization,
                            outcome,
                        ),
                    ),
                ),
                after,
            )
            &&& r == windows_reason(outcome)
        }
}

/// A confirmed tree is killed once at most on Windows, and a root that was named by a port
/// only while it is held on to: it is let go of directly behind the kill.
pub proof fn law_windows_tree_is_killed_once<H>(
    args: KillArgs,
    config: Config,
    platform: Platform,
    host: HostFacts,
    mode: KillMode,
    root: KillTarget,
    authorization: ScopeAuthorization,
    before: Seq<Operation<H>>,
    after: Seq<Operation<H>>,
    r: ExitReason,
    lines: Seq<Seq<char>>,
)
    requires
        windows_committed(
            args,
            config,
            platform,
            host,
            mode,
            root,
            authorization,
            before,
            after,
            r,
            lines,
        ),
    ensures
        no_signal(before, after) || if args.port is Some {
            exists|handle: H|
                windows_killed_once(
                    Some(handle),
                    args,
                    config,
                    platform,
                    host,
                    root,
                    authorization,
                    #[trigger] before.push(Operation::Prepared(root.pid, Ok(handle))),
                    after,
                    r,
                )
        } else {
            windows_killed_once(
                None,
                args,
                config,
                platform,
                host,
                root,
                authorization,
                before,
                after,
                r,
            )
        },
{
    if args.port is Some {
        let held = choose|held: Result<H, TerminationOutcome>|
            #[trigger] windows_held(
                args,
                config,
                platform,
                host,
                mode,
                root,
                authorization,
                held,
                before.push(Operation::Prepared(root.pid, held)),
                after,
                r,
                lines,
            );
        let ready = before.push(Operation::Prepared(root.pid, held));
        assert(no_signal(before, ready));
        match held {
            Err(refusal) => {
                let outcome = choose|outcome: TreeKillOutcome|
                    #[trigger] scope_outcome(root, refusal, outcome) && windows_ending_lines(
                        root,
                        mode,
                        WindowsTreeKillOutcome::precommit(outcome),
                        ready,
                        after,
                        lines,
                    );
                lemma_windows_ending_kills_nothing(
                    root,
                    mode,
                    WindowsTreeKillOutcome::precommit(outcome),
                    ready,
                    after,
                    lines,
                );
                lemma_no_signal_joins(before, ready, after);
            },
            Ok(handle) => {
                assert(ready == before.push(Operation::Prepared(root.pid, Ok(handle))));
                lemma_windows_tree_is_killed_once(
                    Some(handle),
                    args,
                    config,
                    platform,
                    host,
                    mode,
                    root,
                    authorization,
                    ready,
                    after,
                    r,
                    lines,
                );
                if no_signal(ready, after) {
                    lemma_no_signal_joins(before, ready, after);
                }
            },
        }
    } else {
        lemma_windows_tree_is_killed_once(
            None,
            args,
            config,
            platform,
            host,
            mode,
            root,
            authorization,
            before,
            after,
            r,
            lines,
        );
    }
}

/// A tree that may be signalled was shown and confirmed, nothing was killed before that,
/// and the kill of a confirmed tree on Windows followed.
pub open spec fn windows_kill_follows<H>(
    args: KillArgs,
    config: Config,
    platform: Platform,
    host: HostFacts,
    mode: KillMode,
    before: Seq<Operation<H>>,
    after: Seq<Operation<H>>,
    r: ExitReason,
    lines: Seq<Seq<char>>,
) -> bool {
    exists|
        root: KillTarget,
        preview: ProcessTreeTarget,
        authorization: ScopeAuthorization,
        unasked: Seq<Operation<H>>,
        confirmed: Seq<Operation<H>>,
        first: Seq<Seq<char>>,
    |
        {
            &&& preflight_clear(preview, host)
            &&& #[trigger] tree_confirmed(
                root,
                preview,
                mode,
                args.yes,
                host,
                unasked,
                confirmed,
                Ok(authorization),
                first,
            )
            &&& no_signal(before, confirmed)
            &&& windows_committed(
                args,
                config,
                platform,
                host,
                mode,
                root,
                authorization,
                confirmed,
                after,
                r,
                lines.skip(first.len() as int),
            )
        }
}

#[verifier::spinoff_prover]
proof fn lemma_windows_offered_follows<H>(
    args: KillArgs,
    config: Config,
    platform: Platform,
    host: HostFacts,
    mode: KillMode,
    root: KillTarget,
    preview: ProcessTreeTarget,
    before: Seq<Operation<H>>,
    now: Seq<Operation<H>>,
    after: Seq<Operation<H>>,
    r: ExitReason,
    lines: Seq<Seq<char>>,
)
    requires
        no_signal(before, now),
        windows_offered(args, config, platform, host, mode, root, preview, now, after, r, lines),
    ensures
        no_signal(before, after) || windows_kill_follows(
            args,
            config,
            platform,
            host,
            mode,
            before,
            after,
            r,
            lines,
        ),
{
    if preflight_clear(preview, host) {
        let (authorization, first, confirmed) = choose|
            authorization: Result<ScopeAuthorization, ExitReason>,
            first: Seq<Seq<char>>,
            confirmed: Seq<Operation<H>>,
        |
            #[trigger] tree_confirmed(
                root,
                preview,
                mode,
                args.yes,
                host,
                now,
                confirmed,
                authorization,
                first,
            ) && match authorization {
                Err(reason) => after == confirmed && r == reason && lines == first,
                Ok(authorization) => first.is_prefix_of(lines) && windows_committed(
                    args,
                    config,
                    platform,
                    host,
                    mode,
                    root,
                    authorization,
                    confirmed,
                    after,
                    r,
                    lines.skip(first.len() as int),
                ),
            };
        lemma_tree_confirmed_kills_nothing(
            root,
            preview,
            mode,
            args.yes,
            host,
            now,
            confirmed,
            authorization,
            first,
        );
        lemma_no_signal_joins(before, now, confirmed);
        if authorization is Ok {
            assert(tree_confirmed(
                root,
                preview,
                mode,
                args.yes,
                host,
                now,
                confirmed,
                Ok(authorization->Ok_0),
                first,
            ));
        }
    }
}

#[verifier::spinoff_prover]
proof fn lemma_windows_previewed_follows<H>(
    args: KillArgs,
    config: Config,
    platform: Platform,
    host: HostFacts,
    mode: KillMode,
    root: KillTarget,
    infos: Seq<TreeProcessInfo>,
    before: Seq<Operation<H>>,
    now: Seq<Operation<H>>,
    after: Seq<Operation<H>>,
    r: ExitReason,
    lines: Seq<Seq<char>>,
)
    requires
        no_signal(before, now),
        windows_previewed(args, config, platform, host, mode, root, infos, now, after, r, lines),
    ensures
        no_signal(before, after) || windows_kill_follows(
            args,
            config,
            platform,
            host,
            mode,
            before,
            after,
            r,
            lines,
        ),
{
    let (planned, told) = choose|
        planned: Result<ProcessTreeTarget, ExitReason>,
        told: Seq<Seq<char>>,
    |
        #[trigger] preview_planned(root, infos, config.protected_processes@, planned, told)
            && match planned {
            Err(reason) => after == now && r == reason && lines == told,
            Ok(preview) => windows_offered(
                args,
                config,
                platform,
                host,
                mode,
                root,
                preview,
                now,
                after,
                r,
                lines,
            ),
        };
    if planned is Ok {
        lemma_windows_offered_follows(
            args,
            config,
            platform,
            host,
            mode,
            root,
            planned->Ok_0,
            before,
            now,
            after,
            r,
            lines,
        );
    }
}

/// Nothing is killed in a tree kill on Windows before a tree that may be signalled was
/// shown and confirmed.
#[verifier::spinoff_prover]
pub proof fn law_windows_kill_follows_its_confirmation<H>(
    args: KillArgs,
    config: Config,
    entries: Seq<PortEntry>,
    platform: Platform,
    host: HostFacts,
    mode: KillMode,
    before: Seq<Operation<H>>,
    after: Seq<Operation<H>>,
    r: ExitReason,
    lines: Seq<Seq<char>>,
)
    requires
        windows_killed(args, config, entries, platform, host, mode, before, after, r, lines),
    ensures
        no_signal(before, after) || windows_kill_follows(
            args,
            config,
            platform,
            host,
            mode,
            before,
            after,
            r,
            lines,
        ),
{
    let taken = choose|taken: Result<Vec<TreeProcessInfo>, CollectorError>|
        #[trigger] windows_tabled(
            args,
            config,
            entries,
            platform,
            host,
            mode,
            taken,
            before.push(Operation::Tree(taken)),
            after,
            r,
            lines,
        );
    let tabled = before.push(Operation::Tree(taken));
    assert(no_signal(before, tabled));
    if taken is Ok {
        let infos = taken->Ok_0@;
        let (root, first, resolved) = choose|
            root: Result<KillTarget, ExitReason>,
            first: Seq<Seq<char>>,
            resolved: Seq<Operation<H>>,
        |
            #[trigger] resolves_root(
                args,
                config,
                entries,
                infos,
                platform,
                host,
                tabled,
                resolved,
                root,
                first,
            ) && match root {
                Err(reason) => after == resolved && r == reason && lines == first,
                Ok(root) => windows_previewed(
                    args,
                    config,
                    platform,
                    host,
                    mode,
                    root,
                    infos,
                    resolved,
                    after,
                    r,
                    lines,
                ),
            };
        lemma_root_kills_nothing(
            args,
            config,
            entries,
            infos,
            platform,
            host,
            tabled,
            resolved,
            root,
            first,
        );
        lemma_no_signal_joins(before, tabled, resolved);
        if root is Ok {
            lemma_windows_previewed_follows(
                args,
                config,
                platform,
                host,
                mode,
                root->Ok_0,
                infos,
                before,
                resolved,
                after,
                r,
                lines,
            );
        }
    }
}

} // verus!
