//! Tree kills through a Windows Job Object.

use vstd::prelude::*;
use vstd::string::*;
use crate::collector::CollectorError;
use crate::config::Config;
use crate::exit::ExitReason;
use crate::kill::{
    law_found_again_is_the_confirmed_target, revalidate_cli_target, revalidated, KillArgs,
};
use crate::model::Platform;
use crate::operations::{
    let_go, AsksScope, CollectsTree, KillsTree, Operation, Prepares, ReadsContext, ReadsPorts,
    Recorded, WatchesPorts,
};
use crate::ports::PortEntry;
use crate::process::{still_matches, HostFacts, KillMode, KillTarget, TerminationOutcome};
use crate::scoped::{
    confirm_tree_kill, hold_tree, plan_tree_preview, portless_judged, preflight_checked,
    preview_planned, resolve_scoped_kill_root, resolves_root, revalidate_portless_tree_root,
    scope_outcome, scoped_preflight_refusal, tree_confirmed, tree_gates,
    tree_outcome_from_termination,
};
use crate::sink::{
    lemma_said_more, lemma_said_nothing, said, write_line, Sink,
};
use crate::tree::{
    plan_error_outcome, plan_process_tree, plan_refused, preflight_clear, tree_planned,
    ProcessTreeTarget, ScopeAuthorization, TreeKillOutcome, TreeNode, TreePlanError,
    TreeProcessInfo, MAX_TREE_PROCESSES,
};
use crate::windows_report::{
    map_windows_tree_outcome, windows_ending_lines, windows_reason, WindowsTreeKillOutcome,
};

verus! {

/// Nodes before `at` are complete, and the one there is not.
pub open spec fn first_incomplete(nodes: Seq<TreeNode>, at: int) -> bool {
    &&& 0 <= at < nodes.len()
    &&& !nodes[at].complete
    &&& forall|j: int| 0 <= j < at ==> (#[trigger] nodes[j]).complete
}

/// The first node of which the name or the start is unknown.
pub fn find_incomplete(preview: &ProcessTreeTarget) -> (r: Option<usize>)
    ensures
        match r {
            Some(at) => first_incomplete(preview.nodes@, at as int),
            None => forall|j: int|
                0 <= j < preview.nodes.len() ==> (#[trigger] preview.nodes@[j]).complete,
        },
{
    let mut i: usize = 0;
    while i < preview.nodes.len()
        invariant
            i <= preview.nodes.len(),
            forall|j: int| 0 <= j < i ==> (#[trigger] preview.nodes@[j]).complete,
        decreases preview.nodes.len() - i,
    {
        if !preview.nodes[i].complete {
            return Some(i);
        }
        i = i + 1;
    }
    None
}

/// What a planned tree means for a revalidated root: besides the gates of any tree
/// kill, everything about every process must be known before a Job Object takes it.
pub open spec fn windows_gates(
    root: KillTarget,
    preview: ProcessTreeTarget,
    confirmation: ScopeAuthorization,
    host: HostFacts,
    r: Result<(), WindowsTreeKillOutcome>,
) -> bool {
    exists|gates: Result<(), TreeKillOutcome>| #[trigger]
        tree_gates(root, preview, confirmation, host, gates) && match gates {
            Err(outcome) => r == Err::<(), WindowsTreeKillOutcome>(
                WindowsTreeKillOutcome::precommit(outcome),
            ),
            Ok(_) => if r is Ok {
                forall|j: int|
                    0 <= j < preview.nodes.len() ==> (#[trigger] preview.nodes@[j]).complete
            } else {
                exists|at: int| #[trigger]
                    first_incomplete(preview.nodes@, at) && r == Err::<(), WindowsTreeKillOutcome>(
                        WindowsTreeKillOutcome::Refused(
                            TreeKillOutcome::PartialMetadata { pid: preview.nodes@[at].pid },
                        ),
                    )
            },
        }
}

/// What a fresh process table means for a revalidated root.
pub open spec fn windows_judged(
    root: KillTarget,
    snapshot: Seq<TreeProcessInfo>,
    config: Config,
    confirmation: ScopeAuthorization,
    host: HostFacts,
    r: Result<(), WindowsTreeKillOutcome>,
) -> bool {
    exists|planned: Result<ProcessTreeTarget, TreePlanError>| #[trigger]
        tree_planned(
            root.pid,
            snapshot,
            config.protected_processes@,
            root.platform,
            MAX_TREE_PROCESSES,
            planned,
        ) && match planned {
            Err(error) => exists|outcome: TreeKillOutcome| #[trigger]
                plan_refused(error, outcome) && r == Err::<(), WindowsTreeKillOutcome>(
                    WindowsTreeKillOutcome::precommit(outcome),
                ),
            Ok(preview) => windows_gates(root, preview, confirmation, host, r),
        }
}

/// Hold a fresh process table to the gates of a tree kill.
pub fn windows_fresh_tree_gates(
    root: &KillTarget,
    snapshot: &Vec<TreeProcessInfo>,
    config: &Config,
    confirmation: ScopeAuthorization,
    host: HostFacts,
) -> (r: Result<(), WindowsTreeKillOutcome>)
    ensures
        windows_judged(*root, snapshot@, *config, confirmation, host, r),
{
    let planned = plan_process_tree(
        root.pid,
        snapshot,
        config.protected_processes.as_slice(),
        root.platform,
        MAX_TREE_PROCESSES,
    );
    let ghost plan = planned;
    assert(tree_planned(
        root.pid,
        snapshot@,
        config.protected_processes@,
        root.platform,
        MAX_TREE_PROCESSES,
        plan,
    ));
    let preview = match planned {
        Ok(preview) => preview,
        Err(error) => {
            let outcome = plan_error_outcome(error);
            assert(plan_refused(error, outcome));
            return Err(WindowsTreeKillOutcome::from_precommit_outcome(outcome));
        },
    };
    let gates = hold_tree(root, &preview, confirmation, host);
    let ghost held = gates;
    assert(tree_gates(*root, preview, confirmation, host, held));
    match gates {
        Ok(()) => {},
        Err(outcome) => {
            return Err(WindowsTreeKillOutcome::from_precommit_outcome(outcome));
        },
    }
    match find_incomplete(&preview) {
        Some(at) => {
            assert(first_incomplete(preview.nodes@, at as int));
            Err(
                WindowsTreeKillOutcome::Refused(
                    TreeKillOutcome::PartialMetadata { pid: preview.nodes[at].pid },
                ),
            )
        },
        None => Ok(()),
    }
}

/// A root goes on where the gates let it.
pub open spec fn windows_gated(
    root: KillTarget,
    snapshot: Seq<TreeProcessInfo>,
    config: Config,
    confirmation: ScopeAuthorization,
    host: HostFacts,
    r: Result<KillTarget, WindowsTreeKillOutcome>,
) -> bool {
    exists|gates: Result<(), WindowsTreeKillOutcome>| #[trigger]
        windows_judged(root, snapshot, config, confirmation, host, gates) && match gates {
            Ok(_) => r == Ok::<KillTarget, WindowsTreeKillOutcome>(root),
            Err(outcome) => r == Err::<KillTarget, WindowsTreeKillOutcome>(outcome),
        }
}

fn hold_root(
    root: KillTarget,
    snapshot: &Vec<TreeProcessInfo>,
    config: &Config,
    confirmation: ScopeAuthorization,
    host: HostFacts,
) -> (r: Result<KillTarget, WindowsTreeKillOutcome>)
    ensures
        windows_gated(root, snapshot@, *config, confirmation, host, r),
{
    let gates = windows_fresh_tree_gates(&root, snapshot, config, confirmation, host);
    let ghost held = gates;
    assert(windows_judged(root, snapshot@, *config, confirmation, host, held));
    match gates {
        Ok(()) => Ok(root),
        Err(outcome) => Err(outcome),
    }
}

/// The process table could not be read.
pub open spec fn unreadable(
    error: CollectorError,
    r: Result<KillTarget, WindowsTreeKillOutcome>,
) -> bool {
    r matches Err(WindowsTreeKillOutcome::SnapshotFailed(text)) && text@ == error.text()
}

/// What a process table that was taken means for a root without ports.
pub open spec fn windows_portless(
    config: Config,
    confirmed: KillTarget,
    confirmation: ScopeAuthorization,
    platform: Platform,
    host: HostFacts,
    taken: Result<Vec<TreeProcessInfo>, CollectorError>,
    r: Result<KillTarget, WindowsTreeKillOutcome>,
) -> bool {
    match taken {
        Err(error) => unreadable(error, r),
        Ok(infos) => exists|root: Result<KillTarget, TreeKillOutcome>| #[trigger]
            portless_judged(
                confirmed,
                infos@,
                config.protected_processes@,
                platform,
                root,
            ) && match root {
                Err(outcome) => r == Err::<KillTarget, WindowsTreeKillOutcome>(
                    WindowsTreeKillOutcome::precommit(outcome),
                ),
                Ok(root) => windows_gated(root, infos@, config, confirmation, host, r),
            },
    }
}

/// What a process table that was taken means for a root that the port table found again.
pub open spec fn windows_ported(
    root: KillTarget,
    config: Config,
    confirmation: ScopeAuthorization,
    host: HostFacts,
    taken: Result<Vec<TreeProcessInfo>, CollectorError>,
    r: Result<KillTarget, WindowsTreeKillOutcome>,
) -> bool {
    match taken {
        Err(error) => unreadable(error, r),
        Ok(infos) => windows_gated(root, infos@, config, confirmation, host, r),
    }
}

/// A confirmed root was looked up again and held to the gates: one without ports in the
/// process table alone, one with ports in the port table first, which has something to say
/// of a port that became ambiguous.
pub open spec fn windows_revalidated<H>(
    args: KillArgs,
    config: Config,
    confirmed: KillTarget,
    confirmation: ScopeAuthorization,
    platform: Platform,
    host: HostFacts,
    before: Seq<Operation<H>>,
    after: Seq<Operation<H>>,
    r: Result<KillTarget, WindowsTreeKillOutcome>,
    aside: Seq<Seq<char>>,
) -> bool {
    if confirmed.ports.len() == 0 {
        aside == Seq::<Seq<char>>::empty() && exists|
            taken: Result<Vec<TreeProcessInfo>, CollectorError>,
        |
            after == before.push(Operation::Tree(taken)) && #[trigger] windows_portless(
                config,
                confirmed,
                confirmation,
                platform,
                host,
                taken,
                r,
            )
    } else {
        exists|looked: Result<KillTarget, TerminationOutcome>, middle: Seq<Operation<H>>|
            #[trigger]
            revalidated(args, config, confirmed, host, false, before, middle, looked, aside)
                && match looked {
                Err(refusal) => after == middle && exists|outcome: TreeKillOutcome| #[trigger]
                    scope_outcome(confirmed, refusal, outcome) && r == Err::<
                        KillTarget,
                        WindowsTreeKillOutcome,
                    >(WindowsTreeKillOutcome::precommit(outcome)),
                Ok(root) => exists|taken: Result<Vec<TreeProcessInfo>, CollectorError>|
                    after == middle.push(Operation::Tree(taken)) && #[trigger] windows_ported(
                        root,
                        config,
                        confirmation,
                        host,
                        taken,
                        r,
                    ),
            }
    }
}

/// Look the confirmed root up again, and hold the fresh tree to the gates.
#[verifier::rlimit(30)]
pub fn revalidate_windows_tree_root_before_commit<
    T: CollectsTree + ReadsContext + ReadsPorts,
    H,
    D: Sink,
>(
    args: &KillArgs,
    config: &Config,
    confirmed: &KillTarget,
    confirmation: ScopeAuthorization,
    platform: Platform,
    host: HostFacts,
    tools: &mut Recorded<T, H>,
    diagnostics: &mut D,
) -> (r: Result<KillTarget, WindowsTreeKillOutcome>)
    requires
        args.wf(),
    ensures
        exists|aside: Seq<Seq<char>>| #[trigger]
            windows_revalidated(
                *args,
                *config,
                *confirmed,
                confirmation,
                platform,
                host,
                old(tools).log(),
                final(tools).log(),
                r,
                aside,
            ) && said(*old(diagnostics), *final(diagnostics), aside),
{
    proof {
        lemma_said_nothing(*old(diagnostics));
    }
    let ghost before = tools.log();
    if confirmed.ports.len() == 0 {
        let taken = tools.collect_tree();
        let ghost seen = taken;
        let infos = match taken {
            Ok(infos) => infos,
            Err(error) => {
                let refusal = Err(WindowsTreeKillOutcome::snapshot_failed(error.message()));
                assert(windows_portless(
                    *config,
                    *confirmed,
                    confirmation,
                    platform,
                    host,
                    seen,
                    refusal,
                ));
                assert(windows_revalidated(
                    *args,
                    *config,
                    *confirmed,
                    confirmation,
                    platform,
                    host,
                    before,
                    tools.log(),
                    refusal,
                    Seq::empty(),
                ));
                return refusal;
            },
        };
        let looked = revalidate_portless_tree_root(
            confirmed,
            &infos,
            config.protected_processes.as_slice(),
            platform,
        );
        let ghost found = looked;
        assert(portless_judged(
            *confirmed,
            infos@,
            config.protected_processes@,
            platform,
            found,
        ));
        let r = match looked {
            Ok(root) => hold_root(root, &infos, config, confirmation, host),
            Err(outcome) => Err(WindowsTreeKillOutcome::from_precommit_outcome(outcome)),
        };
        assert(windows_portless(
            *config,
            *confirmed,
            confirmation,
            platform,
            host,
            seen,
            r,
        ));
        assert(windows_revalidated(
            *args,
            *config,
            *confirmed,
            confirmation,
            platform,
            host,
            before,
            tools.log(),
            r,
            Seq::empty(),
        ));
        return r;
    }
    let looked = revalidate_cli_target(
        args,
        config,
        confirmed,
        host,
        tools,
        diagnostics,
    );
    let ghost found = looked;
    let ghost middle = tools.log();
    let ghost aside = choose|aside: Seq<Seq<char>>| #[trigger]
        revalidated(
            *args,
            *config,
            *confirmed,
            host,
            false,
            before,
            middle,
            found,
            aside,
        ) && said(*old(diagnostics), *diagnostics, aside);
    let root = match looked {
        Ok(root) => root,
        Err(refusal) => {
            let outcome = tree_outcome_from_termination(confirmed, refusal);
            assert(scope_outcome(*confirmed, refusal, outcome));
            let refused = Err(WindowsTreeKillOutcome::from_precommit_outcome(outcome));
            assert(windows_revalidated(
                *args,
                *config,
                *confirmed,
                confirmation,
                platform,
                host,
                before,
                tools.log(),
                refused,
                aside,
            ));
            return refused;
        },
    };
    let taken = tools.collect_tree();
    let ghost seen = taken;
    let ghost kept = root;
    let r = match taken {
        Ok(infos) => hold_root(root, &infos, config, confirmation, host),
        Err(error) => Err(WindowsTreeKillOutcome::snapshot_failed(error.message())),
    };
    assert(windows_ported(kept, *config, confirmation, host, seen, r));
    assert(windows_revalidated(
        *args,
        *config,
        *confirmed,
        confirmation,
        platform,
        host,
        before,
        tools.log(),
        r,
        aside,
    ));
    r
}

/// The kill ran once on a fresh root, which was let go of after that, and its outcome is
/// the reason.
pub open spec fn windows_executed<H>(
    held: Option<H>,
    fresh: KillTarget,
    names: Vec<String>,
    authorization: ScopeAuthorization,
    mode: KillMode,
    before: Seq<Operation<H>>,
    after: Seq<Operation<H>>,
    r: ExitReason,
    lines: Seq<Seq<char>>,
) -> bool {
    exists|outcome: WindowsTreeKillOutcome|
        r == windows_reason(outcome) && #[trigger] windows_ending_lines(
            fresh,
            mode,
            outcome,
            let_go(held, before.push(Operation::TreeKilled(fresh, names, authorization, outcome))),
            after,
            lines,
        )
}

/// A root that the second look refused: what the look said is told, then the outcome, and
/// the root is let go of last.
pub open spec fn windows_refusal_lines<H>(
    held: Option<H>,
    root: KillTarget,
    mode: KillMode,
    outcome: WindowsTreeKillOutcome,
    aside: Seq<Seq<char>>,
    before: Seq<Operation<H>>,
    after: Seq<Operation<H>>,
    lines: Seq<Seq<char>>,
) -> bool {
    exists|rest: Seq<Seq<char>>, told: Seq<Operation<H>>|
        lines == aside + rest && after == let_go(held, told) && #[trigger] windows_ending_lines(
            root,
            mode,
            outcome,
            before,
            told,
            rest,
        )
}

/// A root was looked up again, and killed where it passed.
pub open spec fn windows_looked_again<H>(
    held: Option<H>,
    args: KillArgs,
    config: Config,
    platform: Platform,
    host: HostFacts,
    mode: KillMode,
    root: KillTarget,
    authorization: ScopeAuthorization,
    before: Seq<Operation<H>>,
    after: Seq<Operation<H>>,
    r: ExitReason,
    lines: Seq<Seq<char>>,
) -> bool {
    exists|
        fresh: Result<KillTarget, WindowsTreeKillOutcome>,
        aside: Seq<Seq<char>>,
        middle: Seq<Operation<H>>,
    | #[trigger]
        windows_revalidated(
            args,
            config,
            root,
            authorization,
            platform,
            host,
            before,
            middle,
            fresh,
            aside,
        ) && match fresh {
            Err(outcome) => r == windows_reason(outcome) && windows_refusal_lines(
                held,
                root,
                mode,
                outcome,
                aside,
                middle,
                after,
                lines,
            ),
            Ok(fresh) => windows_executed(
                held,
                fresh,
                config.protected_processes,
                authorization,
                mode,
                middle,
                after,
                r,
                lines,
            ),
        }
}

/// What the answer to a request for a handle on the root led to.
pub open spec fn windows_held<H>(
    args: KillArgs,
    config: Config,
    platform: Platform,
    host: HostFacts,
    mode: KillMode,
    root: KillTarget,
    authorization: ScopeAuthorization,
    held: Result<H, TerminationOutcome>,
    before: Seq<Operation<H>>,
    after: Seq<Operation<H>>,
    r: ExitReason,
    lines: Seq<Seq<char>>,
) -> bool {
    match held {
        Err(refusal) => exists|outcome: TreeKillOutcome| #[trigger]
            scope_outcome(root, refusal, outcome) && r == windows_reason(
                WindowsTreeKillOutcome::precommit(outcome),
            ) && windows_ending_lines(
                root,
                mode,
                WindowsTreeKillOutcome::precommit(outcome),
                before,
                after,
                lines,
            ),
        Ok(handle) => windows_looked_again(
            Some(handle),
            args,
            config,
            platform,
            host,
            mode,
            root,
            authorization,
            before,
            after,
            r,
            lines,
        ),
    }
}

/// A confirmed root was held on to where it was named by a port, then looked up again.
pub open spec fn windows_committed<H>(
    args: KillArgs,
    config: Config,
    platform: Platform,
    host: HostFacts,
    mode: KillMode,
    root: KillTarget,
    authorization: ScopeAuthorization,
    before: Seq<Operation<H>>,
    after: Seq<Operation<H>>,
    r: ExitReason,
    lines: Seq<Seq<char>>,
) -> bool {
    if args.port is Some {
        exists|held: Result<H, TerminationOutcome>| #[trigger]
            windows_held(
                args,
                config,
                platform,
                host,
                mode,
                root,
                authorization,
                held,
                before.push(Operation::Prepared(root.pid, held)),
                after,
                r,
                lines,
            )
    } else {
        windows_looked_again(
            None,
            args,
            config,
            platform,
            host,
            mode,
            root,
            authorization,
            before,
            after,
            r,
            lines,
        )
    }
}

/// A planned tree was checked, confirmed and committed.
pub open spec fn windows_offered<H>(
    args: KillArgs,
    config: Config,
    platform: Platform,
    host: HostFacts,
    mode: KillMode,
    root: KillTarget,
    preview: ProcessTreeTarget,
    before: Seq<Operation<H>>,
    after: Seq<Operation<H>>,
    r: ExitReason,
    lines: Seq<Seq<char>>,
) -> bool {
    if !preflight_clear(preview, host) {
        after == before && preflight_checked(preview, "tree"@, host, Some(r), lines)
    } else {
        exists|
            authorization: Result<ScopeAuthorization, ExitReason>,
            first: Seq<Seq<char>>,
            middle: Seq<Operation<H>>,
        |
            #[trigger]
            tree_confirmed(
                root,
                preview,
                mode,
                args.yes,
                host,
                before,
                middle,
                authorization,
                first,
            ) && match authorization {
                Err(reason) => after == middle && r == reason && lines == first,
                Ok(authorization) => first.is_prefix_of(lines) && windows_committed(
                    args,
                    config,
                    platform,
                    host,
                    mode,
                    root,
                    authorization,
                    middle,
                    after,
                    r,
                    lines.skip(first.len() as int),
                ),
            }
    }
}

/// The tree of a resolved root was planned, and offered where that worked.
pub open spec fn windows_previewed<H>(
    args: KillArgs,
    config: Config,
    platform: Platform,
    host: HostFacts,
    mode: KillMode,
    root: KillTarget,
    infos: Seq<TreeProcessInfo>,
    before: Seq<Operation<H>>,
    after: Seq<Operation<H>>,
    r: ExitReason,
    lines: Seq<Seq<char>>,
) -> bool {
    exists|preview: Result<ProcessTreeTarget, ExitReason>, first: Seq<Seq<char>>| #[trigger]
        preview_planned(root, infos, config.protected_processes@, preview, first)
            && match preview {
            Err(reason) => after == before && r == reason && lines == first,
            Ok(preview) => windows_offered(
                args,
                config,
                platform,
                host,
                mode,
                root,
                preview,
                before,
                after,
                r,
                lines,
            ),
        }
}

/// What a process table that was taken led to.
pub open spec fn windows_tabled<H>(
    args: KillArgs,
    config: Config,
    entries: Seq<PortEntry>,
    platform: Platform,
    host: HostFacts,
    mode: KillMode,
    taken: Result<Vec<TreeProcessInfo>, CollectorError>,
    before: Seq<Operation<H>>,
    after: Seq<Operation<H>>,
    r: ExitReason,
    lines: Seq<Seq<char>>,
) -> bool {
    match taken {
        Err(error) => after == before && r == ExitReason::Failure && lines == seq![
            "error: enumerating the process table failed: "@ + error.text(),
        ],
        Ok(infos) => exists|
            root: Result<KillTarget, ExitReason>,
            first: Seq<Seq<char>>,
            middle: Seq<Operation<H>>,
        |
            #[trigger]
            resolves_root(
                args,
                config,
                entries,
                infos@,
                platform,
                host,
                before,
                middle,
                root,
                first,
            ) && match root {
                Err(reason) => after == middle && r == reason && lines == first,
                Ok(root) => windows_previewed(
                    args,
                    config,
                    platform,
                    host,
                    mode,
                    root,
                    infos@,
                    middle,
                    after,
                    r,
                    lines,
                ),
            },
    }
}

/// The whole of a tree kill, by the operations that it made: read the process table,
/// resolve the root, plan its tree, check it, confirm it, hold on to a root named by a
/// port, look again, kill, with the lines told on the way.
pub open spec fn windows_killed<H>(
    args: KillArgs,
    config: Config,
    entries: Seq<PortEntry>,
    platform: Platform,
    host: HostFacts,
    mode: KillMode,
    before: Seq<Operation<H>>,
    after: Seq<Operation<H>>,
    r: ExitReason,
    lines: Seq<Seq<char>>,
) -> bool {
    exists|taken: Result<Vec<TreeProcessInfo>, CollectorError>| #[trigger]
        windows_tabled(
            args,
            config,
            entries,
            platform,
            host,
            mode,
            taken,
            before.push(Operation::Tree(taken)),
            after,
            r,
            lines,
        )
}

/// Let go of a root that was held on to, if one was.
fn release_root<T, H>(tools: &mut Recorded<T, H>, prepared_root: Option<H>)
    ensures
        final(tools).log() == let_go(prepared_root, old(tools).log()),
{
    match prepared_root {
        Some(handle) => tools.release(handle),
        None => {},
    }
}

#[verifier::rlimit(30)]
fn look_again_and_kill<
    T: CollectsTree + ReadsContext + ReadsPorts + WatchesPorts + KillsTree,
    H,
    D: Sink,
>(
    args: &KillArgs,
    config: &Config,
    platform: Platform,
    host: HostFacts,
    mode: KillMode,
    tools: &mut Recorded<T, H>,
    root: &KillTarget,
    authorization: ScopeAuthorization,
    prepared_root: Option<H>,
    diagnostics: &mut D,
) -> (r: ExitReason)
    requires
        args.wf(),
    ensures
        exists|lines: Seq<Seq<char>>|
            said(*old(diagnostics), *final(diagnostics), lines) && #[trigger] windows_looked_again(
                prepared_root,
                *args,
                *config,
                platform,
                host,
                mode,
                *root,
                authorization,
                old(tools).log(),
                final(tools).log(),
                r,
                lines,
            ),
{
    let ghost before = tools.log();
    let ghost held = prepared_root;
    let looked = revalidate_windows_tree_root_before_commit(
        args,
        config,
        root,
        authorization,
        platform,
        host,
        tools,
        diagnostics,
    );
    let ghost found = looked;
    let ghost told = *diagnostics;
    let ghost middle = tools.log();
    let ghost aside = choose|aside: Seq<Seq<char>>| #[trigger]
        windows_revalidated(
            *args,
            *config,
            *root,
            authorization,
            platform,
            host,
            before,
            middle,
            found,
            aside,
        ) && said(*old(diagnostics), told, aside);
    let fresh = match looked {
        Ok(fresh) => fresh,
        Err(outcome) => {
            let reason = map_windows_tree_outcome(root, mode, &outcome, tools, diagnostics);
            let ghost mapped = tools.log();
            release_root(tools, prepared_root);
            proof {
                let rest = choose|rest: Seq<Seq<char>>|
                    said(told, *diagnostics, rest) && #[trigger] windows_ending_lines(
                        *root,
                        mode,
                        outcome,
                        middle,
                        mapped,
                        rest,
                    );
                lemma_said_more(*old(diagnostics), told, *diagnostics, aside, rest);
                assert(windows_refusal_lines(
                    held,
                    *root,
                    mode,
                    outcome,
                    aside,
                    middle,
                    tools.log(),
                    aside + rest,
                ));
                assert(windows_looked_again(
                    held,
                    *args,
                    *config,
                    platform,
                    host,
                    mode,
                    *root,
                    authorization,
                    before,
                    tools.log(),
                    reason,
                    aside + rest,
                ));
            }
            return reason;
        },
    };
    proof {
        law_windows_root_is_the_confirmed_one(
            *args,
            *config,
            *root,
            authorization,
            platform,
            host,
            before,
            middle,
            fresh,
            aside,
        );
    }
    let outcome = tools.execute_tree(&fresh, &config.protected_processes, authorization);
    release_root(tools, prepared_root);
    let ghost ran = tools.log();
    let reason = map_windows_tree_outcome(&fresh, mode, &outcome, tools, diagnostics);
    proof {
        let rest = choose|rest: Seq<Seq<char>>|
            said(told, *diagnostics, rest) && #[trigger] windows_ending_lines(
                fresh,
                mode,
                outcome,
                ran,
                tools.log(),
                rest,
            );
        lemma_said_more(*old(diagnostics), told, *diagnostics, aside, rest);
        assert(aside + rest =~= rest);
        assert(windows_executed(
            held,
            fresh,
            config.protected_processes,
            authorization,
            mode,
            middle,
            tools.log(),
            reason,
            rest,
        ));
        assert(windows_looked_again(
            held,
            *args,
            *config,
            platform,
            host,
            mode,
            *root,
            authorization,
            before,
            tools.log(),
            reason,
            rest,
        ));
    }
    reason
}

#[verifier::rlimit(30)]
fn hold_and_kill<
    T: CollectsTree + ReadsContext + ReadsPorts + WatchesPorts + Prepares<H> + KillsTree,
    H,
    D: Sink,
>(
    args: &KillArgs,
    config: &Config,
    platform: Platform,
    host: HostFacts,
    mode: KillMode,
    tools: &mut Recorded<T, H>,
    root: &KillTarget,
    authorization: ScopeAuthorization,
    diagnostics: &mut D,
) -> (r: ExitReason)
    requires
        args.wf(),
    ensures
        exists|lines: Seq<Seq<char>>|
            said(*old(diagnostics), *final(diagnostics), lines) && #[trigger] windows_committed(
                *args,
                *config,
                platform,
                host,
                mode,
                *root,
                authorization,
                old(tools).log(),
                final(tools).log(),
                r,
                lines,
            ),
{
    let ghost before = tools.log();
    let mut prepared_root: Option<H> = None;
    let ghost mut answer: Option<Result<H, TerminationOutcome>> = None;
    if args.port.is_some() {
        let prepared = tools.prepare(root.pid);
        let ghost held = prepared;
        let ghost holding = tools.log();
        proof {
            answer = Some(held);
        }
        match prepared {
            Ok(handle) => {
                prepared_root = Some(handle);
            },
            Err(refusal) => {
                let refused = tree_outcome_from_termination(root, refusal);
                assert(scope_outcome(*root, refusal, refused));
                let outcome = WindowsTreeKillOutcome::from_precommit_outcome(refused);
                let reason = map_windows_tree_outcome(root, mode, &outcome, tools, diagnostics);
                proof {
                    let rest = choose|rest: Seq<Seq<char>>|
                        said(*old(diagnostics), *diagnostics, rest) && #[trigger] windows_ending_lines(
                            *root,
                            mode,
                            outcome,
                            holding,
                            tools.log(),
                            rest,
                        );
                    assert(windows_held(
                        *args,
                        *config,
                        platform,
                        host,
                        mode,
                        *root,
                        authorization,
                        held,
                        holding,
                        tools.log(),
                        reason,
                        rest,
                    ));
                    assert(windows_committed(
                        *args,
                        *config,
                        platform,
                        host,
                        mode,
                        *root,
                        authorization,
                        before,
                        tools.log(),
                        reason,
                        rest,
                    ));
                }
                return reason;
            },
        }
    }
    let ghost middle = tools.log();
    let ghost root_held = prepared_root;
    let reason = look_again_and_kill(
        args,
        config,
        platform,
        host,
        mode,
        tools,
        root,
        authorization,
        prepared_root,
        diagnostics,
    );
    proof {
        let lines = choose|lines: Seq<Seq<char>>|
            said(*old(diagnostics), *diagnostics, lines) && #[trigger] windows_looked_again(
                root_held,
                *args,
                *config,
                platform,
                host,
                mode,
                *root,
                authorization,
                middle,
                tools.log(),
                reason,
                lines,
            );
        if answer is Some {
            assert(windows_held(
                *args,
                *config,
                platform,
                host,
                mode,
                *root,
                authorization,
                answer->0,
                middle,
                tools.log(),
                reason,
                lines,
            ));
        }
        assert(windows_committed(
            *args,
            *config,
            platform,
            host,
            mode,
            *root,
            authorization,
            before,
            tools.log(),
            reason,
            lines,
        ));
    }
    reason
}

/// Kill a process tree. A root that was named by a port is held on to before the ports
/// are read for the last time. The kill runs only on a root that was resolved, planned,
/// confirmed and found again, and it runs once.
#[verifier::spinoff_prover]
#[verifier::rlimit(50)]
pub fn run_windows_tree_kill_with<
    T: CollectsTree + ReadsContext + AsksScope + ReadsPorts + WatchesPorts + Prepares<H>
        + KillsTree,
    H,
    D: Sink,
>(
    args: &KillArgs,
    config: &Config,
    entries: &Vec<PortEntry>,
    platform: Platform,
    host: HostFacts,
    mode: KillMode,
    tools: &mut Recorded<T, H>,
    diagnostics: &mut D,
) -> (r: ExitReason)
    requires
        args.wf(),
    ensures
        exists|lines: Seq<Seq<char>>|
            said(*old(diagnostics), *final(diagnostics), lines) && #[trigger] windows_killed(
                *args,
                *config,
                entries@,
                platform,
                host,
                mode,
                old(tools).log(),
                final(tools).log(),
                r,
                lines,
            ),
{
    let ghost before = tools.log();
    let taken = tools.collect_tree();
    let ghost seen = taken;
    let ghost tabled = tools.log();
    let infos = match taken {
        Ok(infos) => infos,
        Err(error) => {
            let line = "error: enumerating the process table failed: ".to_owned().concat(
                error.message().as_str(),
            );
            write_line(diagnostics, line.as_str());
            assert(windows_tabled(
                *args,
                *config,
                entries@,
                platform,
                host,
                mode,
                seen,
                tabled,
                tools.log(),
                ExitReason::Failure,
                seq![line@],
            ));
            assert(windows_killed(
                *args,
                *config,
                entries@,
                platform,
                host,
                mode,
                before,
                tools.log(),
                ExitReason::Failure,
                seq![line@],
            ));
            return ExitReason::Failure;
        },
    };
    let resolved = resolve_scoped_kill_root(
        args,
        config,
        entries,
        &infos,
        platform,
        host,
        tools,
        diagnostics,
    );
    let ghost found = resolved;
    let ghost rooted = tools.log();
    let ghost resolving = *diagnostics;
    let ghost told = choose|told: Seq<Seq<char>>|
        said(*old(diagnostics), resolving, told) && #[trigger] resolves_root(
            *args,
            *config,
            entries@,
            infos@,
            platform,
            host,
            tabled,
            rooted,
            found,
            told,
        );
    let root = match resolved {
        Ok(root) => root,
        Err(reason) => {
            assert(windows_tabled(
                *args,
                *config,
                entries@,
                platform,
                host,
                mode,
                seen,
                tabled,
                tools.log(),
                reason,
                told,
            ));
            assert(windows_killed(
                *args,
                *config,
                entries@,
                platform,
                host,
                mode,
                before,
                tools.log(),
                reason,
                told,
            ));
            return reason;
        },
    };
    assert(told == Seq::<Seq<char>>::empty());
    let planned = plan_tree_preview(&root, &infos, &config.protected_processes, diagnostics);
    let ghost plan = planned;
    let ghost planning = *diagnostics;
    let ghost planned_lines = choose|lines: Seq<Seq<char>>|
        said(resolving, planning, lines) && #[trigger] preview_planned(
            root,
            infos@,
            config.protected_processes@,
            plan,
            lines,
        );
    proof {
        lemma_said_more(*old(diagnostics), resolving, planning, told, planned_lines);
        assert(told + planned_lines =~= planned_lines);
    }
    let preview = match planned {
        Ok(preview) => preview,
        Err(reason) => {
            assert(windows_previewed(
                *args,
                *config,
                platform,
                host,
                mode,
                root,
                infos@,
                rooted,
                tools.log(),
                reason,
                planned_lines,
            ));
            assert(windows_tabled(
                *args,
                *config,
                entries@,
                platform,
                host,
                mode,
                seen,
                tabled,
                tools.log(),
                reason,
                planned_lines,
            ));
            assert(windows_killed(
                *args,
                *config,
                entries@,
                platform,
                host,
                mode,
                before,
                tools.log(),
                reason,
                planned_lines,
            ));
            return reason;
        },
    };
    let refused = scoped_preflight_refusal(&preview, "tree", host, diagnostics);
    let ghost checking = *diagnostics;
    let ghost checked_lines = choose|lines: Seq<Seq<char>>|
        said(planning, checking, lines) && #[trigger] preflight_checked(
            preview,
            "tree"@,
            host,
            refused,
            lines,
        );
    proof {
        lemma_said_more(*old(diagnostics), planning, checking, planned_lines, checked_lines);
        assert(planned_lines + checked_lines =~= checked_lines);
    }
    if let Some(reason) = refused {
        assert(windows_offered(
            *args,
            *config,
            platform,
            host,
            mode,
            root,
            preview,
            rooted,
            tools.log(),
            reason,
            checked_lines,
        ));
        assert(windows_previewed(
            *args,
            *config,
            platform,
            host,
            mode,
            root,
            infos@,
            rooted,
            tools.log(),
            reason,
            checked_lines,
        ));
        assert(windows_tabled(
            *args,
            *config,
            entries@,
            platform,
            host,
            mode,
            seen,
            tabled,
            tools.log(),
            reason,
            checked_lines,
        ));
        assert(windows_killed(
            *args,
            *config,
            entries@,
            platform,
            host,
            mode,
            before,
            tools.log(),
            reason,
            checked_lines,
        ));
        return reason;
    }
    let confirmed = confirm_tree_kill(
        &root,
        &preview,
        mode,
        args.yes,
        host,
        tools,
        diagnostics,
    );
    let ghost agreed = confirmed;
    let ghost consented = tools.log();
    let ghost asking = *diagnostics;
    let ghost asked_lines = choose|lines: Seq<Seq<char>>|
        said(checking, asking, lines) && #[trigger] tree_confirmed(
            root,
            preview,
            mode,
            args.yes,
            host,
            rooted,
            consented,
            agreed,
            lines,
        );
    proof {
        lemma_said_more(*old(diagnostics), checking, asking, checked_lines, asked_lines);
        assert(checked_lines + asked_lines =~= asked_lines);
    }
    let authorization = match confirmed {
        Ok(authorization) => authorization,
        Err(reason) => {
            assert(windows_offered(
                *args,
                *config,
                platform,
                host,
                mode,
                root,
                preview,
                rooted,
                tools.log(),
                reason,
                asked_lines,
            ));
            assert(windows_previewed(
                *args,
                *config,
                platform,
                host,
                mode,
                root,
                infos@,
                rooted,
                tools.log(),
                reason,
                asked_lines,
            ));
            assert(windows_tabled(
                *args,
                *config,
                entries@,
                platform,
                host,
                mode,
                seen,
                tabled,
                tools.log(),
                reason,
                asked_lines,
            ));
            assert(windows_killed(
                *args,
                *config,
                entries@,
                platform,
                host,
                mode,
                before,
                tools.log(),
                reason,
                asked_lines,
            ));
            return reason;
        },
    };
    let reason = hold_and_kill(
        args,
        config,
        platform,
        host,
        mode,
        tools,
        &root,
        authorization,
        diagnostics,
    );
    proof {
        let rest = choose|rest: Seq<Seq<char>>|
            said(asking, *diagnostics, rest) && #[trigger] windows_committed(
                *args,
                *config,
                platform,
                host,
                mode,
                root,
                authorization,
                consented,
                tools.log(),
                reason,
                rest,
            );
        let lines = asked_lines + rest;
        lemma_said_more(*old(diagnostics), asking, *diagnostics, asked_lines, rest);
        assert(lines.skip(asked_lines.len() as int) =~= rest);
        assert(asked_lines.is_prefix_of(lines));
        assert(windows_offered(
            *args,
            *config,
            platform,
            host,
            mode,
            root,
            preview,
            rooted,
            tools.log(),
            reason,
            lines,
        ));
        assert(windows_previewed(
            *args,
            *config,
            platform,
            host,
            mode,
            root,
            infos@,
            rooted,
            tools.log(),
            reason,
            lines,
        ));
        assert(windows_tabled(
            *args,
            *config,
            entries@,
            platform,
            host,
            mode,
            seen,
            tabled,
            tools.log(),
            reason,
            lines,
        ));
        assert(windows_killed(
            *args,
            *config,
            entries@,
            platform,
            host,
            mode,
            before,
            tools.log(),
            reason,
            lines,
        ));
    }
    reason
}

/// Kill a process tree in the mode that the command asks for.
pub fn run_windows_tree_kill<
    T: CollectsTree + ReadsContext + AsksScope + ReadsPorts + WatchesPorts + Prepares<H>
        + KillsTree,
    H,
    D: Sink,
>(
    args: &KillArgs,
    config: &Config,
    entries: &Vec<PortEntry>,
    platform: Platform,
    host: HostFacts,
    tools: &mut Recorded<T, H>,
    diagnostics: &mut D,
) -> (r: ExitReason)
    requires
        args.wf(),
    ensures
        exists|lines: Seq<Seq<char>>|
            said(*old(diagnostics), *final(diagnostics), lines) && #[trigger] windows_killed(
                *args,
                *config,
                entries@,
                platform,
                host,
                KillMode::of_force(args.force),
                old(tools).log(),
                final(tools).log(),
                r,
                lines,
            ),
{
    run_windows_tree_kill_with(
        args,
        config,
        entries,
        platform,
        host,
        KillMode::from_force(args.force),
        tools,
        diagnostics,
    )
}

/// A fresh process table lets a tree through on Windows only where the name and the
/// start of every process in it are known, besides what is asked of any tree.
pub proof fn law_windows_tree_is_fully_known(
    root: KillTarget,
    snapshot: Seq<TreeProcessInfo>,
    config: Config,
    confirmation: ScopeAuthorization,
    host: HostFacts,
)
    requires
        windows_judged(root, snapshot, config, confirmation, host, Ok(())),
    ensures
        exists|preview: ProcessTreeTarget| #[trigger]
            tree_planned(
                root.pid,
                snapshot,
                config.protected_processes@,
                root.platform,
                MAX_TREE_PROCESSES,
                Ok(preview),
            ) && preflight_clear(preview, host) && (preview.root_protected()
                ==> confirmation.root_confirmed()) && (forall|j: int|
                0 <= j < preview.nodes.len() ==> (#[trigger] preview.nodes@[j]).complete),
{
}

/// A root that was found again is the confirmed process, and is protected only where that
/// was confirmed; finding it says nothing.
pub proof fn law_windows_root_is_the_confirmed_one<H>(
    args: KillArgs,
    config: Config,
    confirmed: KillTarget,
    confirmation: ScopeAuthorization,
    platform: Platform,
    host: HostFacts,
    before: Seq<Operation<H>>,
    after: Seq<Operation<H>>,
    fresh: KillTarget,
    aside: Seq<Seq<char>>,
)
    requires
        windows_revalidated(
            args,
            config,
            confirmed,
            confirmation,
            platform,
            host,
            before,
            after,
            Ok(fresh),
            aside,
        ),
    ensures
        still_matches(confirmed, fresh),
        fresh.protected ==> confirmed.protected,
        aside == Seq::<Seq<char>>::empty(),
{
    if confirmed.ports.len() > 0 {
        let (looked, middle) = choose|
            looked: Result<KillTarget, TerminationOutcome>,
            middle: Seq<Operation<H>>,
        | #[trigger]
            revalidated(args, config, confirmed, host, false, before, middle, looked, aside)
                && match looked {
                Err(_) => false,
                Ok(root) => root == fresh,
            };
        law_found_again_is_the_confirmed_target(
            args,
            config,
            confirmed,
            host,
            false,
            before,
            middle,
            fresh,
            aside,
        );
    }
}

} // verus!
