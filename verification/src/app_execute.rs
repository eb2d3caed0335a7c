//! Running the kill of one process that was confirmed in the table.

use vstd::prelude::*;
use vstd::string::*;
use crate::app_kill::{kill_begun, status_told};
use crate::app_refresh::refresh_owed;
use crate::app_state::{App, KillConfirmation, Modal};
use crate::collector::CollectorError;
use crate::operations::{Operation, Prepares, ReadsContext, ReadsPorts, Recorded, Signals};
use crate::ports::{mark_protected, marked_rows, PortEntry, ProcessContext};
use crate::process::{
    delivery_evidence, law_revalidated_target_is_the_confirmed_one, outcome_text,
    revalidate_confirmed_target, revalidates, still_matches, tells_gap, termination_status_line, validate_single_delivery_evidence, KillMode, KillTarget,
    TerminationOutcome,
};
use crate::text::{opt_text, sanitized};

verus! {

/// An outcome was told, and a refresh asked for.
pub open spec fn told_and_refreshed(before: App, text: Seq<char>, after: App, start: bool) -> bool {
    exists|told: App| #[trigger] status_told(before, text, told) && refresh_owed(told, after, start)
}

/// The line about an outcome.
pub open spec fn outcome_line(
    outcome: TerminationOutcome,
    target: KillTarget,
    mode: KillMode,
) -> Seq<char> {
    sanitized(outcome_text(outcome, target, mode))
}

/// The ports could not be read: no signal was sent, and that is told.
pub open spec fn collection_failed(
    before: App,
    head: Seq<char>,
    error: CollectorError,
    after: App,
) -> bool {
    &&& after == (App {
        latest_error: after.latest_error,
        kill_status: after.kill_status,
        ..before
    })
    &&& opt_text(after.latest_error) == Some(error.text())
    &&& opt_text(after.kill_status) == Some(head + error.text())
}

/// The confirmed target was looked up again in fresh rows and a fresh context, which was
/// read once the rows were.
pub open spec fn table_revalidated<H>(
    names: Seq<String>,
    confirmed: KillTarget,
    before: Seq<Operation<H>>,
    after: Seq<Operation<H>>,
    r: Result<KillTarget, TerminationOutcome>,
) -> bool {
    exists|rows: Vec<PortEntry>, context: ProcessContext|
        after == before.push(Operation::KillPorts(Ok(rows))).push(
            Operation::Context(confirmed.pid, context),
        ) && #[trigger] revalidates(confirmed, marked_rows(rows@, names), Some(&context), r)
}

/// A signal may be sent to a fresh target: it is the confirmed process, and everything a
/// signal rests on is known.
pub open spec fn table_cleared<H>(
    names: Seq<String>,
    confirmed: KillTarget,
    before: Seq<Operation<H>>,
    after: Seq<Operation<H>>,
    fresh: KillTarget,
) -> bool {
    table_revalidated(names, confirmed, before, after, Ok(fresh)) && delivery_evidence(
        confirmed,
        fresh,
    )
}

/// What a signal rests on is not all known: that is told.
pub open spec fn evidence_missing(
    before: App,
    confirmed: KillTarget,
    fresh: KillTarget,
    mode: KillMode,
    after: App,
    start: bool,
) -> bool {
    exists|outcome: TerminationOutcome|
        tells_gap(outcome, confirmed, fresh) && told_and_refreshed(
            before,
            #[trigger] outcome_line(outcome, confirmed, mode),
            after,
            start,
        )
}

/// A fresh target was signalled once through a handle.
pub open spec fn table_delivered<H>(
    app: App,
    handle: H,
    fresh: KillTarget,
    mode: KillMode,
    before: Seq<Operation<H>>,
    after: Seq<Operation<H>>,
    app_then: App,
    start: bool,
) -> bool {
    exists|outcome: TerminationOutcome|
        after == before.push(
            Operation::Signalled(handle, fresh, app.protected_processes, mode, outcome),
        ) && told_and_refreshed(
            app,
            #[trigger] outcome_line(outcome, fresh, mode),
            app_then,
            start,
        )
}

/// With a handle on the process, the ports were read, the target looked up again and,
/// where it passed, signalled. No context is read where the ports could not be.
pub open spec fn table_looked_again<H>(
    app: App,
    confirmed: KillTarget,
    mode: KillMode,
    handle: H,
    before: Seq<Operation<H>>,
    after: Seq<Operation<H>>,
    app_then: App,
    start: bool,
) -> bool {
    ||| !start && exists|error: CollectorError|
        after == before.push(Operation::KillPorts(Err(error))) && #[trigger] collection_failed(
            app,
            "collecting ports before kill failed; no termination was sent: "@,
            error,
            app_then,
        )
    ||| exists|fresh: Result<KillTarget, TerminationOutcome>, middle: Seq<Operation<H>>| #[trigger]
        table_revalidated(app.protected_processes@, confirmed, before, middle, fresh)
            && match fresh {
            Err(outcome) => after == middle && told_and_refreshed(
                app,
                outcome_line(outcome, confirmed, mode),
                app_then,
                start,
            ),
            Ok(fresh) => if delivery_evidence(confirmed, fresh) {
                table_delivered(app, handle, fresh, mode, middle, after, app_then, start)
            } else {
                after == middle && evidence_missing(app, confirmed, fresh, mode, app_then, start)
            },
        }
}

/// What the answer to a request for a handle led to. Without a handle nothing more is
/// read.
pub open spec fn table_held<H>(
    closed: App,
    confirmation: KillConfirmation,
    handle: Result<H, TerminationOutcome>,
    before: Seq<Operation<H>>,
    after: Seq<Operation<H>>,
    app_then: App,
    start: bool,
) -> bool {
    match handle {
        Err(outcome) => {
            let text = outcome_line(outcome, confirmation.target, confirmation.mode);
            &&& after == before
            &&& if outcome is AlreadyExited {
                told_and_refreshed(closed, text, app_then, start)
            } else {
                !start && status_told(closed, text, app_then)
            }
        },
        Ok(handle) => table_looked_again(
            closed,
            confirmation.target,
            confirmation.mode,
            handle,
            before,
            after,
            app_then,
            start,
        ),
    }
}

/// The whole of a confirmed kill, by the operations that it made: wait for facts that are
/// still read, else close the confirmation, take a handle, look again, signal, and refresh.
pub open spec fn table_killed<H>(
    app: App,
    before: Seq<Operation<H>>,
    after: Seq<Operation<H>>,
    app_then: App,
    start: bool,
) -> bool {
    match app.modal {
        Modal::ConfirmKill(confirmation) => if app.loading_for(confirmation.target.pid) {
            after == before && !start && kill_begun(app, confirmation, app_then, false)
        } else {
            exists|handle: Result<H, TerminationOutcome>| #[trigger]
                table_held(
                    App { modal: Modal::Closed, ..app },
                    confirmation,
                    handle,
                    before.push(Operation::Prepared(confirmation.target.pid, handle)),
                    after,
                    app_then,
                    start,
                )
        },
        _ => after == before && !start && app_then == app,
    }
}

impl App {
    fn tell_and_refresh(&mut self, text: String) -> (start: bool)
        requires
            old(self).wf(),
        ensures
            told_and_refreshed(*old(self), text@, *final(self), start),
            final(self).wf(),
    {
        self.kill_status = Some(text);
        let ghost told = *self;
        assert(status_told(*old(self), text@, told));
        self.refresh_after_kill()
    }

    fn look_again_and_signal<T: ReadsContext + ReadsPorts + Signals<H>, H>(
        &mut self,
        confirmed: &KillTarget,
        mode: KillMode,
        handle: &H,
        tools: &mut Recorded<T, H>,
    ) -> (start: bool)
        requires
            old(self).wf(),
        ensures
            table_looked_again(
                *old(self),
                *confirmed,
                mode,
                *handle,
                old(tools).log(),
                final(tools).log(),
                *final(self),
                start,
            ),
            final(self).wf(),
    {
        let ghost before = tools.log();
        let collected = tools.kill_ports();
        let ghost seen = collected;
        let mut rows = match collected {
            Ok(rows) => rows,
            Err(error) => {
                let text = error.message();
                self.latest_error = Some(error.message());
                self.kill_status = Some(
                    "collecting ports before kill failed; no termination was sent: ".to_owned().concat(
                        text.as_str(),
                    ),
                );
                assert(collection_failed(
                    *old(self),
                    "collecting ports before kill failed; no termination was sent: "@,
                    error,
                    *self,
                ));
                return false;
            },
        };
        let ghost found = rows;
        mark_protected(&mut rows, self.protected_processes.as_slice());
        let context = tools.context(confirmed.pid);
        let looked = revalidate_confirmed_target(confirmed, &rows, Some(&context));
        let ghost judged = looked;
        let ghost middle = tools.log();
        assert(revalidates(
            *confirmed,
            marked_rows(found@, old(self).protected_processes@),
            Some(&context),
            judged,
        ));
        assert(table_revalidated(
            old(self).protected_processes@,
            *confirmed,
            before,
            middle,
            judged,
        ));
        let fresh = match looked {
            Ok(fresh) => fresh,
            Err(outcome) => {
                return self.tell_and_refresh(termination_status_line(confirmed, mode, &outcome));
            },
        };
        match validate_single_delivery_evidence(confirmed, &fresh) {
            Ok(()) => {},
            Err(outcome) => {
                let start = self.tell_and_refresh(
                    termination_status_line(confirmed, mode, &outcome),
                );
                assert(told_and_refreshed(
                    *old(self),
                    outcome_line(outcome, *confirmed, mode),
                    *self,
                    start,
                ));
                return start;
            },
        }
        let outcome = tools.terminate(handle, &fresh, &self.protected_processes, mode);
        let start = self.tell_and_refresh(termination_status_line(&fresh, mode, &outcome));
        assert(told_and_refreshed(
            *old(self),
            outcome_line(outcome, fresh, mode),
            *self,
            start,
        ));
        assert(table_delivered(
            *old(self),
            *handle,
            fresh,
            mode,
            middle,
            tools.log(),
            *self,
            start,
        ));
        start
    }

    /// Run the confirmed kill. True where a refresh is to be started. One signal is sent at
    /// most, and only to a process that was found again as the confirmed one.
    pub fn execute_kill_confirmation_with<
        T: ReadsContext + ReadsPorts + Prepares<H> + Signals<H>,
        H,
    >(&mut self, tools: &mut Recorded<T, H>) -> (start: bool)
        requires
            old(self).wf(),
        ensures
            table_killed(
                *old(self),
                old(tools).log(),
                final(tools).log(),
                *final(self),
                start,
            ),
            final(self).wf(),
    {
        let pid: u32 = match &self.modal {
            Modal::ConfirmKill(confirmation) => confirmation.target.pid,
            _ => {
                return false;
            },
        };
        if self.process_context_loading_for_pid(pid) {
            let _ = self.begin_kill();
            return false;
        }
        let confirmation = match self.take_kill_confirmation() {
            Some(confirmation) => confirmation,
            None => {
                return false;
            },
        };
        let ghost closed = *self;
        let prepared = tools.prepare(pid);
        let ghost held = prepared;
        let ghost holding = tools.log();
        let handle = match prepared {
            Ok(handle) => handle,
            Err(outcome) => {
                let text = termination_status_line(
                    &confirmation.target,
                    confirmation.mode,
                    &outcome,
                );
                let gone: bool = match outcome {
                    TerminationOutcome::AlreadyExited => true,
                    _ => false,
                };
                if gone {
                    let start = self.tell_and_refresh(text);
                    assert(table_held(
                        closed,
                        confirmation,
                        held,
                        holding,
                        tools.log(),
                        *self,
                        start,
                    ));
                    return start;
                }
                self.kill_status = Some(text);
                assert(table_held(
                    closed,
                    confirmation,
                    held,
                    holding,
                    tools.log(),
                    *self,
                    false,
                ));
                return false;
            },
        };
        let ghost kept = handle;
        let start = self.look_again_and_signal(
            &confirmation.target,
            confirmation.mode,
            &handle,
            tools,
        );
        assert(held == Ok::<H, TerminationOutcome>(kept));
        assert(table_held(closed, confirmation, held, holding, tools.log(), *self, start));
        start
    }

    /// Close the confirmation of a kill and hand it out.
    pub fn take_kill_confirmation(&mut self) -> (r: Option<KillConfirmation>)
        ensures
            match old(self).modal {
                Modal::ConfirmKill(confirmation) => r == Some(confirmation) && *final(self) == (App {
                    modal: Modal::Closed,
                    ..*old(self)
                }),
                _ => r is None && *final(self) == *old(self),
            },
    {
        if self.kill_confirmation().is_none() {
            return None;
        }
        let mut taken = Modal::Closed;
        std::mem::swap(&mut taken, &mut self.modal);
        match taken {
            Modal::ConfirmKill(confirmation) => Some(confirmation),
            _ => None,
        }
    }
}

/// A kill that is not confirmed in an open confirmation changes nothing and makes no
/// operation.
pub proof fn law_no_kill_without_a_confirmation<H>(
    app: App,
    before: Seq<Operation<H>>,
    after: Seq<Operation<H>>,
    app_then: App,
    start: bool,
)
    requires
        !(app.modal is ConfirmKill),
        table_killed(app, before, after, app_then, start),
    ensures
        app_then == app,
        after == before,
        !start,
{
}

/// A kill from the table makes four operations at most, in this order: it takes a handle on
/// the confirmed process, reads the ports, reads the context of that process, and signals
/// it through the handle. A signal goes only to the confirmed process, with its name and
/// start known.
pub proof fn law_table_kill_in_order<H>(
    app: App,
    before: Seq<Operation<H>>,
    after: Seq<Operation<H>>,
    app_then: App,
    start: bool,
)
    requires
        table_killed(app, before, after, app_then, start),
    ensures
        before.len() <= after.len() <= before.len() + 4,
        after.len() > before.len() ==> app.modal is ConfirmKill && (
        after[before.len() as int] matches Operation::Prepared(pid, _) && pid
            == app.modal->ConfirmKill_0.target.pid),
        after.len() > before.len() + 1 ==> {
            &&& after[before.len() as int]->Prepared_1 is Ok
            &&& after[before.len() as int + 1] is KillPorts
        },
        after.len() > before.len() + 2 ==> {
            &&& after[before.len() as int + 1]->KillPorts_0 is Ok
            &&& after[before.len() as int + 2] matches Operation::Context(pid, _) && pid
                == app.modal->ConfirmKill_0.target.pid
        },
        after.len() > before.len() + 3 ==> {
            &&& after.last() matches Operation::Signalled(handle, fresh, _, _, _)
                && after[before.len() as int] == Operation::Prepared(
                app.modal->ConfirmKill_0.target.pid,
                Ok::<H, TerminationOutcome>(handle),
            ) && still_matches(app.modal->ConfirmKill_0.target, fresh) && (fresh.protected
                ==> app.modal->ConfirmKill_0.target.protected) && fresh.process_name is Some
                && fresh.process_start_time_marker is Some
        },
{
    if app.modal is ConfirmKill && !app.loading_for(app.modal->ConfirmKill_0.target.pid) {
        let confirmation = app.modal->ConfirmKill_0;
        let closed = App { modal: Modal::Closed, ..app };
        let handle = choose|handle: Result<H, TerminationOutcome>| #[trigger]
            table_held(
                closed,
                confirmation,
                handle,
                before.push(Operation::Prepared(confirmation.target.pid, handle)),
                after,
                app_then,
                start,
            );
        let held = before.push(Operation::Prepared(confirmation.target.pid, handle));
        assert(held[before.len() as int] == Operation::Prepared(confirmation.target.pid, handle));
        if handle is Ok {
            let failed = !start && exists|error: CollectorError|
                after == held.push(Operation::KillPorts(Err(error)))
                    && #[trigger] collection_failed(
                    closed,
                    "collecting ports before kill failed; no termination was sent: "@,
                    error,
                    app_then,
                );
            if failed {
                assert(after[before.len() as int] == held[before.len() as int]);
            } else {
                lemma_table_look_in_order(
                    closed,
                    confirmation,
                    handle->Ok_0,
                    before,
                    held,
                    after,
                    app_then,
                    start,
                );
            }
        }
    }
}

proof fn lemma_table_look_in_order<H>(
    closed: App,
    confirmation: KillConfirmation,
    handle: H,
    before: Seq<Operation<H>>,
    held: Seq<Operation<H>>,
    after: Seq<Operation<H>>,
    app_then: App,
    start: bool,
)
    requires
        held == before.push(
            Operation::Prepared(
                confirmation.target.pid,
                Ok::<H, TerminationOutcome>(handle),
            ),
        ),
        exists|fresh: Result<KillTarget, TerminationOutcome>, middle: Seq<Operation<H>>| #[trigger]
            table_revalidated(
                closed.protected_processes@,
                confirmation.target,
                held,
                middle,
                fresh,
            ) && match fresh {
                Err(outcome) => after == middle,
                Ok(fresh) => if delivery_evidence(confirmation.target, fresh) {
                    table_delivered(
                        closed,
                        handle,
                        fresh,
                        confirmation.mode,
                        middle,
                        after,
                        app_then,
                        start,
                    )
                } else {
                    after == middle
                },
            },
    ensures
        before.len() + 3 <= after.len() <= before.len() + 4,
        after[before.len() as int] == held[before.len() as int],
        after[before.len() as int + 1] matches Operation::KillPorts(Ok(_)),
        after[before.len() as int + 2] matches Operation::Context(pid, _) && pid
            == confirmation.target.pid,
        after.len() > before.len() + 3 ==> {
            &&& after.last() matches Operation::Signalled(sent_through, fresh, _, _, _)
                && sent_through == handle && still_matches(confirmation.target, fresh) && (
            fresh.protected ==> confirmation.target.protected) && fresh.process_name is Some
                && fresh.process_start_time_marker is Some
        },
{
    let names = closed.protected_processes@;
    let (looked, middle) = choose|
        looked: Result<KillTarget, TerminationOutcome>,
        middle: Seq<Operation<H>>,
    | #[trigger]
        table_revalidated(names, confirmation.target, held, middle, looked) && match looked {
            Err(outcome) => after == middle,
            Ok(fresh) => if delivery_evidence(confirmation.target, fresh) {
                table_delivered(
                    closed,
                    handle,
                    fresh,
                    confirmation.mode,
                    middle,
                    after,
                    app_then,
                    start,
                )
            } else {
                after == middle
            },
        };
    assert(middle.len() == held.len() + 2);
    assert(middle[before.len() as int] == held[before.len() as int]);
    if looked is Ok {
        lemma_table_revalidated(names, confirmation.target, held, middle, looked->Ok_0);
    }
    assert forall|i: int| 0 <= i < middle.len() implies after[i] == #[trigger] middle[i] by {
    }
}

/// A target that passes for signalling from the table is the confirmed process with all
/// of its ports, protected only where that was confirmed, and its name and start are
/// known.
pub proof fn law_cleared_table_target_is_the_confirmed_one<H>(
    names: Seq<String>,
    confirmed: KillTarget,
    before: Seq<Operation<H>>,
    after: Seq<Operation<H>>,
    fresh: KillTarget,
)
    requires
        table_cleared(names, confirmed, before, after, fresh),
    ensures
        still_matches(confirmed, fresh),
        fresh.protected ==> confirmed.protected,
        fresh.process_name is Some && fresh.process_start_time_marker is Some,
{
    lemma_table_revalidated(names, confirmed, before, after, fresh);
}

pub(crate) proof fn lemma_table_revalidated<H>(
    names: Seq<String>,
    confirmed: KillTarget,
    before: Seq<Operation<H>>,
    after: Seq<Operation<H>>,
    fresh: KillTarget,
)
    requires
        table_revalidated(names, confirmed, before, after, Ok(fresh)),
    ensures
        still_matches(confirmed, fresh),
        fresh.protected ==> confirmed.protected,
{
    let (rows, context) = choose|rows: Vec<PortEntry>, context: ProcessContext|
        after == before.push(Operation::KillPorts(Ok(rows))).push(
            Operation::Context(confirmed.pid, context),
        ) && #[trigger] revalidates(
            confirmed,
            marked_rows(rows@, names),
            Some(&context),
            Ok(fresh),
        );
    law_revalidated_target_is_the_confirmed_one(
        confirmed,
        marked_rows(rows@, names),
        Some(&context),
        fresh,
    );
}

} // verus!
