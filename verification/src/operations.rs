//! The outside operations of a kill, and a record of those that were made.

use vstd::prelude::*;
use crate::collector::CollectorError;
use crate::ports::{PortEntry, ProcessContext};
use crate::process::{ConfirmationRequirement, KillMode, KillTarget, TerminationOutcome};
use crate::scoped::{TreeConfirmation, TreeSnapshotScope};
use crate::sink::IoError;
use crate::time::Duration;
use crate::tree::{ProcessTreeTarget, ScopeAuthorization, TreeKillOutcome, TreeProcessInfo};
use crate::windows_report::WindowsTreeKillOutcome;

verus! {

/// Reads the context of a process.
pub trait ReadsContext {
    fn context(&mut self, pid: u32) -> (r: ProcessContext);
}

/// Reads the ports that a kill is judged by.
pub trait ReadsPorts {
    fn kill_ports(&mut self) -> (r: Result<Vec<PortEntry>, CollectorError>);
}

/// Looks at the ports after a kill, and waits between two looks.
pub trait WatchesPorts {
    fn visibility_ports(&mut self) -> (r: Result<Vec<PortEntry>, CollectorError>);

    fn sleep(&mut self, span: Duration);
}

/// Asks the user about one process.
pub trait Asks {
    fn prompt(
        &mut self,
        target: &KillTarget,
        mode: KillMode,
        requirement: ConfirmationRequirement,
    ) -> (r: Result<bool, IoError>);
}

/// Holds on to a process through a handle.
pub trait Prepares<H> {
    fn prepare(&mut self, pid: u32) -> (r: Result<H, TerminationOutcome>);
}

/// Signals a process through a handle.
pub trait Signals<H> {
    fn terminate(
        &mut self,
        handle: &H,
        target: &KillTarget,
        protected_names: &Vec<String>,
        mode: KillMode,
    ) -> (r: TerminationOutcome);
}

/// Reads the process table, or a part of it.
pub trait ReadsTable {
    fn take_snapshot(&mut self, scope: TreeSnapshotScope) -> (r: Result<
        Vec<TreeProcessInfo>,
        String,
    >);
}

/// Holds on to the root of a scope.
pub trait PinsRoot {
    fn pin_root(&mut self, pid: u32) -> (r: Result<(), TreeKillOutcome>);
}

/// Asks the user about a scope.
pub trait AsksScope {
    fn scope_prompt(
        &mut self,
        root: &KillTarget,
        members: &ProcessTreeTarget,
        requirement: TreeConfirmation,
    ) -> (r: Result<bool, IoError>);
}

/// Kills a tree or a group.
pub trait KillsScope {
    fn execute(
        &mut self,
        root: &KillTarget,
        pgid: Option<u32>,
        mode: KillMode,
        protected_names: &Vec<String>,
        authorization: ScopeAuthorization,
    ) -> (r: TreeKillOutcome);
}

/// Reads the process table of a host whose trees have no groups.
pub trait CollectsTree {
    fn collect_tree(&mut self) -> (r: Result<Vec<TreeProcessInfo>, CollectorError>);
}

/// Kills a tree on such a host.
pub trait KillsTree {
    fn execute_tree(
        &mut self,
        root: &KillTarget,
        protected_names: &Vec<String>,
        authorization: ScopeAuthorization,
    ) -> (r: WindowsTreeKillOutcome);
}

/// One operation that was made, with what came of it.
pub enum Operation<H> {
    Context(u32, ProcessContext),
    KillPorts(Result<Vec<PortEntry>, CollectorError>),
    VisibilityPorts(Result<Vec<PortEntry>, CollectorError>),
    Slept(Duration),
    Asked(KillTarget, KillMode, ConfirmationRequirement, Result<bool, IoError>),
    Prepared(u32, Result<H, TerminationOutcome>),
    Released(H),
    Signalled(H, KillTarget, Vec<String>, KillMode, TerminationOutcome),
    Table(TreeSnapshotScope, Result<Vec<TreeProcessInfo>, String>),
    Pinned(u32, Result<(), TreeKillOutcome>),
    ScopeAsked(KillTarget, ProcessTreeTarget, TreeConfirmation, Result<bool, IoError>),
    ScopeKilled(
        KillTarget,
        Option<u32>,
        KillMode,
        Vec<String>,
        ScopeAuthorization,
        TreeKillOutcome,
    ),
    Tree(Result<Vec<TreeProcessInfo>, CollectorError>),
    TreeKilled(KillTarget, Vec<String>, ScopeAuthorization, WindowsTreeKillOutcome),
}

impl<H> Operation<H> {
    /// The operation signals a process, or kills a tree or a group.
    pub open spec fn kills(self) -> bool {
        self is Signalled || self is ScopeKilled || self is TreeKilled
    }
}

/// The log where a process that was held on to, if one was, is let go of.
pub open spec fn let_go<H>(held: Option<H>, log: Seq<Operation<H>>) -> Seq<Operation<H>> {
    match held {
        Some(handle) => log.push(Operation::Released(handle)),
        None => log,
    }
}

/// A log went on without a process that was held on to being let go of.
pub open spec fn no_release<H>(before: Seq<Operation<H>>, after: Seq<Operation<H>>) -> bool {
    forall|i: int| before.len() <= i < after.len() ==> !((#[trigger] after[i]) is Released)
}

/// A host of outside operations, with those that were made on it.
pub struct Recorded<T, H> {
    host: T,
    made: Ghost<Seq<Operation<H>>>,
}

impl<T, H> Recorded<T, H> {
    /// Every operation so far, the oldest first.
    pub closed spec fn log(&self) -> Seq<Operation<H>> {
        self.made@
    }

    pub fn new(host: T) -> (r: Recorded<T, H>)
        ensures
            r.log().len() == 0,
    {
        Recorded { host, made: Ghost(Seq::empty()) }
    }
}

impl<T, H> Recorded<T, H> {
    /// Let go of a process that was held on to: its handle is dropped here.
    pub fn release(&mut self, _handle: H)
        ensures
            final(self).log() == old(self).log().push(Operation::Released(_handle)),
    {
        proof {
            self.made@ = self.made@.push(Operation::Released(_handle));
        }
    }
}

impl<T: ReadsContext, H> Recorded<T, H> {
    pub fn context(&mut self, pid: u32) -> (r: ProcessContext)
        ensures
            final(self).log() == old(self).log().push(Operation::Context(pid, r)),
    {
        let context = self.host.context(pid);
        proof {
            self.made@ = self.made@.push(Operation::Context(pid, context));
        }
        context
    }
}

impl<T: ReadsPorts, H> Recorded<T, H> {
    pub fn kill_ports(&mut self) -> (r: Result<Vec<PortEntry>, CollectorError>)
        ensures
            final(self).log() == old(self).log().push(Operation::KillPorts(r)),
    {
        let rows = self.host.kill_ports();
        proof {
            self.made@ = self.made@.push(Operation::KillPorts(rows));
        }
        rows
    }
}

impl<T: WatchesPorts, H> Recorded<T, H> {
    pub fn visibility_ports(&mut self) -> (r: Result<Vec<PortEntry>, CollectorError>)
        ensures
            final(self).log() == old(self).log().push(Operation::VisibilityPorts(r)),
    {
        let rows = self.host.visibility_ports();
        proof {
            self.made@ = self.made@.push(Operation::VisibilityPorts(rows));
        }
        rows
    }

    pub fn sleep(&mut self, span: Duration)
        ensures
            final(self).log() == old(self).log().push(Operation::Slept(span)),
    {
        self.host.sleep(span);
        proof {
            self.made@ = self.made@.push(Operation::Slept(span));
        }
    }
}

impl<T: Asks, H> Recorded<T, H> {
    pub fn prompt(
        &mut self,
        target: &KillTarget,
        mode: KillMode,
        requirement: ConfirmationRequirement,
    ) -> (r: Result<bool, IoError>)
        ensures
            final(self).log() == old(self).log().push(
                Operation::Asked(*target, mode, requirement, r),
            ),
    {
        let answer = self.host.prompt(target, mode, requirement);
        proof {
            self.made@ = self.made@.push(Operation::Asked(*target, mode, requirement, answer));
        }
        answer
    }
}

impl<H, T: Prepares<H>> Recorded<T, H> {
    pub fn prepare(&mut self, pid: u32) -> (r: Result<H, TerminationOutcome>)
        ensures
            final(self).log() == old(self).log().push(Operation::Prepared(pid, r)),
    {
        let handle = self.host.prepare(pid);
        proof {
            self.made@ = self.made@.push(Operation::Prepared(pid, handle));
        }
        handle
    }
}

impl<H, T: Signals<H>> Recorded<T, H> {
    pub fn terminate(
        &mut self,
        handle: &H,
        target: &KillTarget,
        protected_names: &Vec<String>,
        mode: KillMode,
    ) -> (r: TerminationOutcome)
        ensures
            final(self).log() == old(self).log().push(
                Operation::Signalled(*handle, *target, *protected_names, mode, r),
            ),
    {
        let outcome = self.host.terminate(handle, target, protected_names, mode);
        proof {
            self.made@ = self.made@.push(
                Operation::Signalled(*handle, *target, *protected_names, mode, outcome),
            );
        }
        outcome
    }
}

impl<T: ReadsTable, H> Recorded<T, H> {
    pub fn take_snapshot(&mut self, scope: TreeSnapshotScope) -> (r: Result<
        Vec<TreeProcessInfo>,
        String,
    >)
        ensures
            final(self).log() == old(self).log().push(Operation::Table(scope, r)),
    {
        let taken = self.host.take_snapshot(scope);
        proof {
            self.made@ = self.made@.push(Operation::Table(scope, taken));
        }
        taken
    }
}

impl<T: PinsRoot, H> Recorded<T, H> {
    pub fn pin_root(&mut self, pid: u32) -> (r: Result<(), TreeKillOutcome>)
        ensures
            final(self).log() == old(self).log().push(Operation::Pinned(pid, r)),
    {
        let pinned = self.host.pin_root(pid);
        proof {
            self.made@ = self.made@.push(Operation::Pinned(pid, pinned));
        }
        pinned
    }
}

impl<T: AsksScope, H> Recorded<T, H> {
    pub fn scope_prompt(
        &mut self,
        root: &KillTarget,
        members: &ProcessTreeTarget,
        requirement: TreeConfirmation,
    ) -> (r: Result<bool, IoError>)
        ensures
            final(self).log() == old(self).log().push(
                Operation::ScopeAsked(*root, *members, requirement, r),
            ),
    {
        let answer = self.host.scope_prompt(root, members, requirement);
        proof {
            self.made@ = self.made@.push(
                Operation::ScopeAsked(*root, *members, requirement, answer),
            );
        }
        answer
    }
}

impl<T: KillsScope, H> Recorded<T, H> {
    pub fn execute(
        &mut self,
        root: &KillTarget,
        pgid: Option<u32>,
        mode: KillMode,
        protected_names: &Vec<String>,
        authorization: ScopeAuthorization,
    ) -> (r: TreeKillOutcome)
        ensures
            final(self).log() == old(self).log().push(
                Operation::ScopeKilled(*root, pgid, mode, *protected_names, authorization, r),
            ),
    {
        let outcome = self.host.execute(root, pgid, mode, protected_names, authorization);
        proof {
            self.made@ = self.made@.push(
                Operation::ScopeKilled(
                    *root,
                    pgid,
                    mode,
                    *protected_names,
                    authorization,
                    outcome,
                ),
            );
        }
        outcome
    }
}

impl<T: CollectsTree, H> Recorded<T, H> {
    pub fn collect_tree(&mut self) -> (r: Result<Vec<TreeProcessInfo>, CollectorError>)
        ensures
            final(self).log() == old(self).log().push(Operation::Tree(r)),
    {
        let taken = self.host.collect_tree();
        proof {
            self.made@ = self.made@.push(Operation::Tree(taken));
        }
        taken
    }
}

impl<T: KillsTree, H> Recorded<T, H> {
    pub fn execute_tree(
        &mut self,
        root: &KillTarget,
        protected_names: &Vec<String>,
        authorization: ScopeAuthorization,
    ) -> (r: WindowsTreeKillOutcome)
        ensures
            final(self).log() == old(self).log().push(
                Operation::TreeKilled(*root, *protected_names, authorization, r),
            ),
    {
        let outcome = self.host.execute_tree(root, protected_names, authorization);
        proof {
            self.made@ = self.made@.push(
                Operation::TreeKilled(*root, *protected_names, authorization, outcome),
            );
        }
        outcome
    }
}

} // verus!
