//! Kills of a process group.

use vstd::prelude::*;
use vstd::string::*;
use crate::config::Config;
use crate::exit::ExitReason;
use crate::kill::KillArgs;
use crate::model::Platform;
use crate::operations::{
    AsksScope, KillsScope, Operation, PinsRoot, ReadsContext, ReadsPorts, ReadsTable, Recorded,
    WatchesPorts,
};
use crate::ports::PortEntry;
use crate::process::{HostFacts, KillMode, KillTarget};
use crate::scoped::{
    commit_scope, confirm_group_kill, group_confirmed, preflight_checked, print_root_gone,
    resolve_scoped_kill_root, resolves_root, root_gone_text, scope_committed,
    scoped_preflight_refusal, TreeSnapshotScope,
};
use crate::sink::{lemma_said_more, said, write_line, Sink};
use crate::text::{decimal, decimal_text, sanitize, sanitized};
use crate::tree::{
    group_planned, plan_process_group, preflight_clear, GroupPlanError, ProcessGroupTarget,
    ScopeAuthorization, TreeProcessInfo, MAX_GROUP_PROCESSES,
};

verus! {

/// The reason for a group that could not be planned.
pub open spec fn group_plan_reason(error: GroupPlanError) -> ExitReason {
    match error {
        GroupPlanError::RootMissing => ExitReason::NoMatch,
        GroupPlanError::GroupUnavailable => ExitReason::Failure,
    }
}

/// The line about a group that could not be planned.
pub open spec fn group_plan_text(pid: u32, error: GroupPlanError) -> Seq<char> {
    match error {
        GroupPlanError::RootMissing => root_gone_text(pid),
        GroupPlanError::GroupUnavailable => "error: PID "@ + decimal(pid as nat)
            + " has no targetable process group; refusing group kill"@,
    }
}

/// A planned group was checked, confirmed and committed.
pub open spec fn group_offered<H>(
    args: KillArgs,
    config: Config,
    platform: Platform,
    host: HostFacts,
    mode: KillMode,
    root: KillTarget,
    group: ProcessGroupTarget,
    before: Seq<Operation<H>>,
    after: Seq<Operation<H>>,
    r: ExitReason,
    lines: Seq<Seq<char>>,
) -> bool {
    if !preflight_clear(group.members, host) {
        after == before && preflight_checked(group.members, "group"@, host, Some(r), lines)
    } else {
        exists|
            authorization: Result<ScopeAuthorization, ExitReason>,
            first: Seq<Seq<char>>,
            middle: Seq<Operation<H>>,
        |
            #[trigger]
            group_confirmed(
                root,
                group,
                mode,
                args.yes,
                host,
                before,
                middle,
                authorization,
                first,
            ) && match authorization {
                Err(reason) => after == middle && r == reason && lines == first,
                Ok(authorization) => first.is_prefix_of(lines) && scope_committed(
                    args,
                    config,
                    platform,
                    host,
                    mode,
                    root,
                    Some(group.pgid),
                    authorization,
                    middle,
                    after,
                    r,
                    lines.skip(first.len() as int),
                ),
            }
    }
}

/// The group of a resolved root was planned, and offered where that worked.
pub open spec fn group_previewed<H>(
    args: KillArgs,
    config: Config,
    platform: Platform,
    host: HostFacts,
    mode: KillMode,
    root: KillTarget,
    infos: Seq<TreeProcessInfo>,
    before: Seq<Operation<H>>,
    after: Seq<Operation<H>>,
    r: ExitReason,
    lines: Seq<Seq<char>>,
) -> bool {
    exists|planned: Result<ProcessGroupTarget, GroupPlanError>| #[trigger]
        group_planned(
            root.pid,
            infos,
            config.protected_processes@,
            root.platform,
            MAX_GROUP_PROCESSES,
            planned,
        ) && match planned {
            Err(error) => after == before && r == group_plan_reason(error) && lines == seq![
                group_plan_text(root.pid, error),
            ],
            Ok(group) => group_offered(
                args,
                config,
                platform,
                host,
                mode,
                root,
                group,
                before,
                after,
                r,
                lines,
            ),
        }
}

/// What a process table that was taken led to.
pub open spec fn group_tabled<H>(
    args: KillArgs,
    config: Config,
    entries: Seq<PortEntry>,
    platform: Platform,
    host: HostFacts,
    mode: KillMode,
    taken: Result<Vec<TreeProcessInfo>, String>,
    before: Seq<Operation<H>>,
    after: Seq<Operation<H>>,
    r: ExitReason,
    lines: Seq<Seq<char>>,
) -> bool {
    match taken {
        Err(error) => after == before && r == ExitReason::Failure && lines == seq![
            "error: enumerating the process group failed: "@ + sanitized(error@),
        ],
        Ok(infos) => exists|
            root: Result<KillTarget, ExitReason>,
            first: Seq<Seq<char>>,
            middle: Seq<Operation<H>>,
        |
            #[trigger]
            resolves_root(
                args,
                config,
                entries,
                infos@,
                platform,
                host,
                before,
                middle,
                root,
                first,
            ) && match root {
                Err(reason) => after == middle && r == reason && lines == first,
                Ok(root) => group_previewed(
                    args,
                    config,
                    platform,
                    host,
                    mode,
                    root,
                    infos@,
                    middle,
                    after,
                    r,
                    lines,
                ),
            },
    }
}

/// The whole of a group kill, by the operations that it made: read the process table,
/// resolve the root, plan its group, check it, confirm it, pin the root, look again, kill,
/// with the lines told on the way. Each step goes on only where the one before it allows
/// it.
pub open spec fn group_killed<H>(
    args: KillArgs,
    config: Config,
    entries: Seq<PortEntry>,
    platform: Platform,
    host: HostFacts,
    mode: KillMode,
    before: Seq<Operation<H>>,
    after: Seq<Operation<H>>,
    r: ExitReason,
    lines: Seq<Seq<char>>,
) -> bool {
    exists|taken: Result<Vec<TreeProcessInfo>, String>| #[trigger]
        group_tabled(
            args,
            config,
            entries,
            platform,
            host,
            mode,
            taken,
            before.push(Operation::Table(TreeSnapshotScope::Whole, taken)),
            after,
            r,
            lines,
        )
}

/// Kill a process group. The kill runs only on a root that was resolved, planned with
/// its group, confirmed, pinned and found again in that group, and it runs once.
#[verifier::spinoff_prover]
#[verifier::rlimit(50)]
pub fn run_group_kill_with<
    T: ReadsTable + PinsRoot + ReadsContext + AsksScope + ReadsPorts + WatchesPorts + KillsScope,
    H,
    D: Sink,
>(
    args: &KillArgs,
    config: &Config,
    entries: &Vec<PortEntry>,
    platform: Platform,
    host: HostFacts,
    mode: KillMode,
    tools: &mut Recorded<T, H>,
    diagnostics: &mut D,
) -> (r: ExitReason)
    requires
        args.wf(),
    ensures
        exists|lines: Seq<Seq<char>>|
            said(*old(diagnostics), *final(diagnostics), lines) && #[trigger] group_killed(
                *args,
                *config,
                entries@,
                platform,
                host,
                mode,
                old(tools).log(),
                final(tools).log(),
                r,
                lines,
            ),
{
    let ghost before = tools.log();
    let taken = tools.take_snapshot(TreeSnapshotScope::Whole);
    let ghost seen = taken;
    let ghost tabled = tools.log();
    let infos = match taken {
        Ok(infos) => infos,
        Err(error) => {
            let line = "error: enumerating the process group failed: ".to_owned().concat(
                sanitize(error.as_str()).as_str(),
            );
            write_line(diagnostics, line.as_str());
            assert(group_tabled(
                *args,
                *config,
                entries@,
                platform,
                host,
                mode,
                seen,
                tabled,
                tools.log(),
                ExitReason::Failure,
                seq![line@],
            ));
            assert(group_killed(
                *args,
                *config,
                entries@,
                platform,
                host,
                mode,
                before,
                tools.log(),
                ExitReason::Failure,
                seq![line@],
            ));
            return ExitReason::Failure;
        },
    };
    let resolved = resolve_scoped_kill_root(
        args,
        config,
        entries,
        &infos,
        platform,
        host,
        tools,
        diagnostics,
    );
    let ghost found = resolved;
    let ghost rooted = tools.log();
    let ghost resolving = *diagnostics;
    let ghost told = choose|told: Seq<Seq<char>>|
        said(*old(diagnostics), resolving, told) && #[trigger] resolves_root(
            *args,
            *config,
            entries@,
            infos@,
            platform,
            host,
            tabled,
            rooted,
            found,
            told,
        );
    let root = match resolved {
        Ok(root) => root,
        Err(reason) => {
            assert(group_tabled(
                *args,
                *config,
                entries@,
                platform,
                host,
                mode,
                seen,
                tabled,
                tools.log(),
                reason,
                told,
            ));
            assert(group_killed(
                *args,
                *config,
                entries@,
                platform,
                host,
                mode,
                before,
                tools.log(),
                reason,
                told,
            ));
            return reason;
        },
    };
    assert(told == Seq::<Seq<char>>::empty());
    let planned = plan_process_group(
        root.pid,
        &infos,
        config.protected_processes.as_slice(),
        root.platform,
        MAX_GROUP_PROCESSES,
    );
    let ghost plan = planned;
    assert(group_planned(
        root.pid,
        infos@,
        config.protected_processes@,
        root.platform,
        MAX_GROUP_PROCESSES,
        plan,
    ));
    let group = match planned {
        Ok(group) => group,
        Err(GroupPlanError::RootMissing) => {
            print_root_gone(diagnostics, root.pid);
            proof {
                let line = seq![root_gone_text(root.pid)];
                lemma_said_more(*old(diagnostics), resolving, *diagnostics, told, line);
                assert(told + line =~= line);
                assert(group_previewed(
                    *args,
                    *config,
                    platform,
                    host,
                    mode,
                    root,
                    infos@,
                    rooted,
                    tools.log(),
                    ExitReason::NoMatch,
                    line,
                ));
                assert(group_tabled(
                    *args,
                    *config,
                    entries@,
                    platform,
                    host,
                    mode,
                    seen,
                    tabled,
                    tools.log(),
                    ExitReason::NoMatch,
                    line,
                ));
                assert(group_killed(
                    *args,
                    *config,
                    entries@,
                    platform,
                    host,
                    mode,
                    before,
                    tools.log(),
                    ExitReason::NoMatch,
                    line,
                ));
            }
            return ExitReason::NoMatch;
        },
        Err(GroupPlanError::GroupUnavailable) => {
            let mut text = "error: PID ".to_owned();
            text.append(decimal_text(root.pid as u128).as_str());
            text.append(" has no targetable process group; refusing group kill");
            write_line(diagnostics, text.as_str());
            proof {
                let line = seq![text@];
                lemma_said_more(*old(diagnostics), resolving, *diagnostics, told, line);
                assert(told + line =~= line);
                assert(group_previewed(
                    *args,
                    *config,
                    platform,
                    host,
                    mode,
                    root,
                    infos@,
                    rooted,
                    tools.log(),
                    ExitReason::Failure,
                    line,
                ));
                assert(group_tabled(
                    *args,
                    *config,
                    entries@,
                    platform,
                    host,
                    mode,
                    seen,
                    tabled,
                    tools.log(),
                    ExitReason::Failure,
                    line,
                ));
                assert(group_killed(
                    *args,
                    *config,
                    entries@,
                    platform,
                    host,
                    mode,
                    before,
                    tools.log(),
                    ExitReason::Failure,
                    line,
                ));
            }
            return ExitReason::Failure;
        },
    };
    let refused = scoped_preflight_refusal(group.members(), "group", host, diagnostics);
    let ghost checking = *diagnostics;
    let ghost checked_lines = choose|lines: Seq<Seq<char>>|
        said(resolving, checking, lines) && #[trigger] preflight_checked(
            group.members,
            "group"@,
            host,
            refused,
            lines,
        );
    proof {
        lemma_said_more(*old(diagnostics), resolving, checking, told, checked_lines);
        assert(told + checked_lines =~= checked_lines);
    }
    if let Some(reason) = refused {
        assert(group_offered(
            *args,
            *config,
            platform,
            host,
            mode,
            root,
            group,
            rooted,
            tools.log(),
            reason,
            checked_lines,
        ));
        assert(group_previewed(
            *args,
            *config,
            platform,
            host,
            mode,
            root,
            infos@,
            rooted,
            tools.log(),
            reason,
            checked_lines,
        ));
        assert(group_tabled(
            *args,
            *config,
            entries@,
            platform,
            host,
            mode,
            seen,
            tabled,
            tools.log(),
            reason,
            checked_lines,
        ));
        assert(group_killed(
            *args,
            *config,
            entries@,
            platform,
            host,
            mode,
            before,
            tools.log(),
            reason,
            checked_lines,
        ));
        return reason;
    }
    let confirmed = confirm_group_kill(
        &root,
        &group,
        mode,
        args.yes,
        host,
        tools,
        diagnostics,
    );
    let ghost agreed = confirmed;
    let ghost consented = tools.log();
    let ghost asking = *diagnostics;
    let ghost asked_lines = choose|lines: Seq<Seq<char>>|
        said(checking, asking, lines) && #[trigger] group_confirmed(
            root,
            group,
            mode,
            args.yes,
            host,
            rooted,
            consented,
            agreed,
            lines,
        );
    proof {
        lemma_said_more(*old(diagnostics), checking, asking, checked_lines, asked_lines);
        assert(checked_lines + asked_lines =~= asked_lines);
    }
    let authorization = match confirmed {
        Ok(authorization) => authorization,
        Err(reason) => {
            assert(group_offered(
                *args,
                *config,
                platform,
                host,
                mode,
                root,
                group,
                rooted,
                tools.log(),
                reason,
                asked_lines,
            ));
            assert(group_previewed(
                *args,
                *config,
                platform,
                host,
                mode,
                root,
                infos@,
                rooted,
                tools.log(),
                reason,
                asked_lines,
            ));
            assert(group_tabled(
                *args,
                *config,
                entries@,
                platform,
                host,
                mode,
                seen,
                tabled,
                tools.log(),
                reason,
                asked_lines,
            ));
            assert(group_killed(
                *args,
                *config,
                entries@,
                platform,
                host,
                mode,
                before,
                tools.log(),
                reason,
                asked_lines,
            ));
            return reason;
        },
    };
    let pgid: u32 = group.pgid();
    let reason = commit_scope(
        args,
        config,
        platform,
        host,
        mode,
        tools,
        &root,
        Some(pgid),
        authorization,
        diagnostics,
    );
    proof {
        let rest = choose|rest: Seq<Seq<char>>|
            said(asking, *diagnostics, rest) && #[trigger] scope_committed(
                *args,
                *config,
                platform,
                host,
                mode,
                root,
                Some(pgid),
                authorization,
                consented,
                tools.log(),
                reason,
                rest,
            );
        let lines = asked_lines + rest;
        lemma_said_more(*old(diagnostics), asking, *diagnostics, asked_lines, rest);
        assert(lines.skip(asked_lines.len() as int) =~= rest);
        assert(asked_lines.is_prefix_of(lines));
        assert(group_offered(
            *args,
            *config,
            platform,
            host,
            mode,
            root,
            group,
            rooted,
            tools.log(),
            reason,
            lines,
        ));
        assert(group_previewed(
            *args,
            *config,
            platform,
            host,
            mode,
            root,
            infos@,
            rooted,
            tools.log(),
            reason,
            lines,
        ));
        assert(group_tabled(
            *args,
            *config,
            entries@,
            platform,
            host,
            mode,
            seen,
            tabled,
            tools.log(),
            reason,
            lines,
        ));
        assert(group_killed(
            *args,
            *config,
            entries@,
            platform,
            host,
            mode,
            before,
            tools.log(),
            reason,
            lines,
        ));
    }
    reason
}

/// Kill a process group in the mode that the command asks for.
pub fn run_group_kill<
    T: ReadsTable + PinsRoot + ReadsContext + AsksScope + ReadsPorts + WatchesPorts + KillsScope,
    H,
    D: Sink,
>(
    args: &KillArgs,
    config: &Config,
    entries: &Vec<PortEntry>,
    platform: Platform,
    host: HostFacts,
    tools: &mut Recorded<T, H>,
    diagnostics: &mut D,
) -> (r: ExitReason)
    requires
        args.wf(),
    ensures
        exists|lines: Seq<Seq<char>>|
            said(*old(diagnostics), *final(diagnostics), lines) && #[trigger] group_killed(
                *args,
                *config,
                entries@,
                platform,
                host,
                KillMode::of_force(args.force),
                old(tools).log(),
                final(tools).log(),
                r,
                lines,
            ),
{
    run_group_kill_with(
        args,
        config,
        entries,
        platform,
        host,
        KillMode::from_force(args.force),
        tools,
        diagnostics,
    )
}

} // verus!
