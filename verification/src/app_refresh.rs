//! Refreshes of the table, and reads of the selected row's process context.

use vstd::prelude::*;
use vstd::string::*;
use crate::app_query::{answers, fallback_of, rebuilt, QueryResult};
use crate::app_state::{
    App, ContextWorker, Modal, Received, RefreshWorker, RowKey, FILTER_TEXT_MAX_BYTES,
};
use crate::collector::CollectorError;
use crate::config::{Config, SortMode};
use crate::input::ModalKind;
use crate::observation::{NetworkSnapshot, ObservationError};
use crate::ports::{PortEntry, ProcessContext};
use crate::process::{entries_of_pid, rows_of_pid, KillTarget};
use crate::projection::{entries_projected, RowFilter};
use crate::text::{opt_text, utf8_len};
use crate::time::Duration;

verus! {

/// A refresh was asked for: one that is under way already is left alone.
pub open spec fn refresh_asked(before: App, after: App, start: bool) -> bool {
    &&& start == (before.refresh_worker is None)
    &&& if start {
        after == (App {
            redraw_needed: true,
            refresh_worker: Some(RefreshWorker { stale: false }),
            ..before
        })
    } else {
        after == before
    }
}

/// A refresh after a kill: one that is under way may have looked before the kill, so
/// its result will be thrown away and another one follow it.
pub open spec fn refresh_owed(before: App, after: App, start: bool) -> bool {
    match before.refresh_worker {
        Some(_) => !start && after == (App {
            refresh_worker: Some(RefreshWorker { stale: true }),
            refresh_after_kill: true,
            ..before
        }),
        None => refresh_asked(before, after, start),
    }
}

/// The context of the selected row was asked for. At most one read is under way; a
/// wish that has to wait is remembered, and served for the row selected then.
pub open spec fn context_asked(before: App, after: App, start: Option<int>) -> bool {
    let key = before.key_selected();
    if before.selected_context_key == key && before.selected_process_context is Some {
        &&& start is None
        &&& after == (App { context_requested: false, ..before })
    } else if before.context_worker is Some {
        &&& start is None
        &&& if Some(before.context_worker->0.key) == key && !before.context_worker->0.stale {
            after == before
        } else {
            after == (App {
                context_requested: true,
                selected_context_key: None,
                selected_process_context: None,
                ..before
            })
        }
    } else {
        match before.selected() {
            Some(at) => {
                &&& start == Some(at)
                &&& after == (App {
                    context_requested: false,
                    selected_context_key: None,
                    selected_process_context: None,
                    context_worker: Some(
                        ContextWorker { key: RowKey::of(before.rows@[at]), stale: false },
                    ),
                    ..before
                })
            },
            None => {
                &&& start is None
                &&& after == (App {
                    context_requested: false,
                    selected_context_key: None,
                    selected_process_context: None,
                    ..before
                })
            },
        }
    }
}

/// A wish that waited is served.
pub open spec fn pending_served(before: App, after: App, start: Option<int>) -> bool {
    if before.context_requested {
        context_asked(App { context_requested: false, ..before }, after, start)
    } else {
        start is None && after == before
    }
}

/// The table after an observation was taken over, before its rows are queried.
pub open spec fn taken_over(
    before: App,
    snapshot: NetworkSnapshot,
    rows: Vec<PortEntry>,
    now: Duration,
    after: App,
) -> bool {
    after == (App {
        redraw_needed: true,
        refresh_worker: match before.refresh_worker {
            Some(_) => Some(RefreshWorker { stale: true }),
            None => None,
        },
        network_snapshot: Some(snapshot),
        rows,
        sorted_row_indices: None,
        last_successful_refresh: Some(now),
        latest_error: None,
        context_worker: match before.context_worker {
            Some(worker) => Some(ContextWorker { key: worker.key, stale: true }),
            None => None,
        },
        context_requested: false,
        selected_context_key: None,
        selected_process_context: None,
        ..before
    })
}

/// New rows were queried; where details are open, the context of the row is asked for.
pub open spec fn reshown<Q>(
    before: App,
    key: Option<RowKey>,
    fallback: int,
    query: Q,
    after: App,
    start: Option<int>,
) -> bool where
    Q: Fn(&Vec<PortEntry>, Option<&Vec<usize>>, &String, SortMode, bool) -> Result<
        QueryResult,
        String,
    >,
 {
    exists|shown: App| #[trigger]
        rebuilt(before, key, fallback, query, shown) && if shown.modal is Details {
            context_asked(shown, after, start)
        } else {
            start is None && after == shown
        }
}

/// An observation became the table. One that does not fit leaves the table as it was
/// and says why.
pub open spec fn applied<Q>(
    before: App,
    snapshot: NetworkSnapshot,
    now: Duration,
    query: Q,
    after: App,
    start: Option<int>,
) -> bool where
    Q: Fn(&Vec<PortEntry>, Option<&Vec<usize>>, &String, SortMode, bool) -> Result<
        QueryResult,
        String,
    >,
 {
    exists|projected: Result<Vec<PortEntry>, ObservationError>| #[trigger]
        entries_projected(
            snapshot,
            RowFilter { pid: None, port: None },
            before.protected_processes@,
            projected,
        ) && match projected {
            Err(error) => {
                &&& start is None
                &&& after == (App {
                    redraw_needed: true,
                    latest_error: after.latest_error,
                    ..before
                })
                &&& opt_text(after.latest_error) == Some(error.text())
            },
            Ok(rows) => exists|taken: App| #[trigger]
                taken_over(before, snapshot, rows, now, taken) && reshown(
                    taken,
                    before.key_selected(),
                    fallback_of(before),
                    query,
                    after,
                    start,
                ),
        }
}

/// A refresh ended.
pub open spec fn attempt_finished<Q>(
    before: App,
    result: Result<NetworkSnapshot, CollectorError>,
    now: Duration,
    query: Q,
    after: App,
    start: Option<int>,
) -> bool where
    Q: Fn(&Vec<PortEntry>, Option<&Vec<usize>>, &String, SortMode, bool) -> Result<
        QueryResult,
        String,
    >,
 {
    let ended = App { redraw_needed: true, last_refresh_attempt: now, ..before };
    match result {
        Ok(snapshot) => applied(ended, snapshot, now, query, after, start),
        Err(error) => {
            &&& start is None
            &&& after == (App { latest_error: after.latest_error, ..ended })
            &&& opt_text(after.latest_error) == Some(error.text())
        },
    }
}

/// What a poll of the workers wants started.
#[derive(Debug, Clone, Copy, PartialEq, Eq, Structural)]
pub struct Started {
    pub refresh: bool,
    /// The row whose process context is to be read.
    pub context: Option<usize>,
}

pub open spec fn place(at: Option<usize>) -> Option<int> {
    match at {
        Some(at) => Some(at as int),
        None => None,
    }
}

/// A refresh's channel was looked at. A stale result is thrown away; a refresh that a
/// kill asked for follows.
pub open spec fn refresh_polled<Q>(
    before: App,
    received: Received<Result<NetworkSnapshot, CollectorError>>,
    now: Duration,
    query: Q,
    after: App,
    started: Started,
) -> bool where
    Q: Fn(&Vec<PortEntry>, Option<&Vec<usize>>, &String, SortMode, bool) -> Result<
        QueryResult,
        String,
    >,
 {
    match before.refresh_worker {
        None => after == before && started == (Started { refresh: false, context: None }),
        Some(worker) => match received {
            Received::Pending => after == before && started == (Started {
                refresh: false,
                context: None,
            }),
            Received::Failed(failure) => {
                &&& after == (App {
                    refresh_worker: None,
                    worker_failure: Some(failure),
                    ..before
                })
                &&& started == (Started { refresh: false, context: None })
            },
            _ => exists|ended: App, context: Option<int>|
                #![trigger refresh_ended(before, received, now, query, ended, context)]
                refresh_ended(before, received, now, query, ended, context) && place(
                    started.context,
                ) == context && if ended.refresh_after_kill {
                    refresh_asked(
                        App { refresh_after_kill: false, ..ended },
                        after,
                        started.refresh,
                    )
                } else {
                    !started.refresh && after == ended
                },
        },
    }
}

/// A refresh sent its result, or went away.
pub open spec fn refresh_ended<Q>(
    before: App,
    received: Received<Result<NetworkSnapshot, CollectorError>>,
    now: Duration,
    query: Q,
    after: App,
    context: Option<int>,
) -> bool where
    Q: Fn(&Vec<PortEntry>, Option<&Vec<usize>>, &String, SortMode, bool) -> Result<
        QueryResult,
        String,
    >,
 {
    let cleared = App { refresh_worker: None, ..before };
    if before.refresh_worker is Some && before.refresh_worker->0.stale {
        context is None && after == cleared
    } else {
        let result = match received {
            Received::Value(result) => result,
            _ => Err(CollectorError::WorkerExited),
        };
        attempt_finished(cleared, result, now, query, after, context)
    }
}

/// A confirmation's target after its process was read again: protected as soon as either
/// read says so, and otherwise what was read last.
pub open spec fn target_updated(before: KillTarget, read: KillTarget, after: KillTarget) -> bool {
    after == (KillTarget { protected: read.protected || before.protected, ..read })
}

/// A target that was read again reached the open confirmation, if it is its own.
pub open spec fn confirmations_updated(before: Modal, read: KillTarget, after: Modal) -> bool {
    match before {
        Modal::ConfirmKill(confirmation) => if confirmation.target.pid == read.pid {
            after matches Modal::ConfirmKill(now) && target_updated(
                confirmation.target,
                read,
                now.target,
            ) && now.mode == confirmation.mode && now.requirement == confirmation.requirement
                && now.input == confirmation.input && now.error == confirmation.error
        } else {
            after == before
        },
        Modal::ConfirmTreeKill(confirmation) => if confirmation.target.pid == read.pid {
            after matches Modal::ConfirmTreeKill(now) && target_updated(
                confirmation.target,
                read,
                now.target,
            ) && now.mode == confirmation.mode && now.preview == confirmation.preview
                && now.stage == confirmation.stage && now.input == confirmation.input
                && now.error == confirmation.error
        } else {
            after == before
        },
        _ => after == before,
    }
}

/// The confirmation's target is what all rows of a PID and a context say.
pub open spec fn target_read(app: App, pid: u32, context: Option<&ProcessContext>, r: Option<
    KillTarget,
>) -> bool {
    let own = rows_of_pid(app.rows@, pid);
    match r {
        Some(target) => own.len() > 0 && target.tells(pid, own, context),
        None => own.len() == 0,
    }
}

/// A context that is not stale reached the row that is still selected, and the
/// confirmation of its process.
pub open spec fn context_arrived(
    before: App,
    key: RowKey,
    context: ProcessContext,
    after: App,
) -> bool {
    let shown = if before.key_selected() == Some(key) {
        App {
            selected_context_key: Some(key),
            selected_process_context: Some(context),
            ..before
        }
    } else {
        before
    };
    match key.pid {
        None => after == shown,
        Some(pid) => exists|target: Option<KillTarget>| #[trigger]
            target_read(before, pid, Some(&context), target) && match target {
                None => after == shown,
                Some(target) => after == (App { modal: after.modal, ..shown })
                    && confirmations_updated(before.modal, target, after.modal),
            },
    }
}

/// A context read's channel was looked at.
pub open spec fn context_polled(
    before: App,
    received: Received<ProcessContext>,
    after: App,
    start: Option<int>,
) -> bool {
    match before.context_worker {
        None => after == before && start is None,
        Some(worker) => match received {
            Received::Pending => after == before && start is None,
            Received::Failed(failure) => {
                &&& after == (App {
                    context_worker: None,
                    worker_failure: Some(failure),
                    ..before
                })
                &&& start is None
            },
            Received::Disconnected => exists|told: App| #[trigger]
                pending_served(told, after, start) && told == (App {
                    context_worker: None,
                    redraw_needed: true,
                    latest_error: told.latest_error,
                    ..before
                }) && opt_text(told.latest_error) == Some(
                    "details worker exited before returning context"@,
                ),
            Received::Value(context) => {
                let drained = App { context_worker: None, redraw_needed: true, ..before };
                if worker.stale {
                    pending_served(drained, after, start)
                } else {
                    exists|arrived: App| #[trigger]
                        context_arrived(drained, worker.key, context, arrived) && pending_served(
                            arrived,
                            after,
                            start,
                        )
                }
            },
        },
    }
}

impl App {
    /// A table with its first snapshot, which was collected before anything is shown.
    /// Handed back beside it is the row whose process context is to be read.
    pub fn new<Q>(
        config: &Config,
        collected: Result<NetworkSnapshot, CollectorError>,
        now: Duration,
        query: &Q,
    ) -> (r: (App, Option<usize>)) where
        Q: Fn(&Vec<PortEntry>, Option<&Vec<usize>>, &String, SortMode, bool) -> Result<
            QueryResult,
            String,
        >,

        requires
            answers(*query),
        ensures
            exists|empty: App| #[trigger]
                empty.blank(*config, now) && attempt_finished(
                    empty,
                    collected,
                    now,
                    *query,
                    r.0,
                    place(r.1),
                ),
            r.1 is Some ==> r.1->0 < r.0.rows.len(),
            r.0.wf(),
    {
        let mut app = App::empty(config, now);
        let ghost empty = app;
        let context = app.finish_snapshot_refresh_attempt(collected, now, query);
        assert(empty.blank(*config, now));
        (app, context)
    }

    /// Ask for a refresh. True where a worker is to be started.
    pub fn refresh(&mut self) -> (start: bool)
        requires
            old(self).wf(),
        ensures
            refresh_asked(*old(self), *final(self), start),
            final(self).wf(),
    {
        if self.refresh_worker.is_some() {
            return false;
        }
        self.redraw_needed = true;
        self.refresh_worker = Some(RefreshWorker { stale: false });
        true
    }

    /// The refresh that was to be started could not be.
    pub fn refresh_start_failed(&mut self, error: &str, now: Duration)
        requires
            old(self).wf(),
        ensures
            *final(self) == (App {
                refresh_worker: None,
                last_refresh_attempt: now,
                latest_error: final(self).latest_error,
                ..*old(self)
            }),
            opt_text(final(self).latest_error) == Some(
                "starting refresh worker failed: "@ + error@,
            ),
            final(self).wf(),
    {
        self.refresh_worker = None;
        self.last_refresh_attempt = now;
        self.latest_error = Some("starting refresh worker failed: ".to_owned().concat(error));
    }

    /// Ask for the refresh that follows a kill. True where a worker is to be started.
    pub fn refresh_after_kill(&mut self) -> (start: bool)
        requires
            old(self).wf(),
        ensures
            refresh_owed(*old(self), *final(self), start),
            final(self).wf(),
    {
        if self.refresh_worker.is_some() {
            self.refresh_worker = Some(RefreshWorker { stale: true });
            self.refresh_after_kill = true;
            return false;
        }
        self.refresh()
    }

    /// Whether a refresh is under way.
    pub fn refresh_in_progress(&self) -> (r: bool)
        ensures
            r == (self.refresh_worker is Some),
    {
        self.refresh_worker.is_some()
    }

    /// Ask for the context of the selected row. The row whose context is to be read now,
    /// if one is.
    pub fn load_selected_process_context(&mut self) -> (start: Option<usize>)
        requires
            old(self).wf(),
        ensures
            context_asked(*old(self), *final(self), place(start)),
            start is Some ==> start->0 < final(self).rows.len(),
            final(self).wf(),
    {
        let key = self.selected_key();
        if self.selected_context_key == key && self.selected_process_context.is_some() {
            self.context_requested = false;
            return None;
        }
        if let Some(worker) = self.context_worker {
            if Some(worker.key) == key && !worker.stale {
                return None;
            }
            self.context_requested = true;
            self.selected_context_key = None;
            self.selected_process_context = None;
            return None;
        }
        let selected = self.selected_row_index();
        self.selected_context_key = None;
        self.selected_process_context = None;
        self.context_requested = false;
        match selected {
            Some(at) => {
                let key = RowKey::from_row(&self.rows[at]);
                self.context_worker = Some(ContextWorker { key, stale: false });
                Some(at)
            },
            None => None,
        }
    }

    /// The context read that was to be started could not be.
    pub fn context_start_failed(&mut self, error: &str)
        requires
            old(self).wf(),
        ensures
            *final(self) == (App {
                context_requested: false,
                context_worker: None,
                latest_error: final(self).latest_error,
                ..*old(self)
            }),
            opt_text(final(self).latest_error) == Some(
                "starting details worker failed: "@ + error@,
            ),
            final(self).wf(),
    {
        self.context_requested = false;
        self.context_worker = None;
        self.latest_error = Some("starting details worker failed: ".to_owned().concat(error));
    }

    /// Serve a context read that had to wait.
    pub fn start_pending_process_context_request(&mut self) -> (start: Option<usize>)
        requires
            old(self).wf(),
        ensures
            pending_served(*old(self), *final(self), place(start)),
            start is Some ==> start->0 < final(self).rows.len(),
            final(self).wf(),
    {
        if !self.context_requested {
            return None;
        }
        self.context_requested = false;
        self.load_selected_process_context()
    }

    /// Gather a kill target from all rows of a PID; a PID without rows has none.
    pub fn kill_target_with_optional_context(
        &self,
        pid: u32,
        context: Option<&ProcessContext>,
    ) -> (r: Option<KillTarget>)
        ensures
            target_read(*self, pid, context, r),
    {
        let own = entries_of_pid(&self.rows, pid);
        if own.len() == 0 {
            return None;
        }
        Some(KillTarget::from_entries(pid, &own, context))
    }

    /// Take an observation over as the table. The row whose context is to be read, if
    /// one is.
    pub fn apply_network_snapshot<Q>(
        &mut self,
        snapshot: NetworkSnapshot,
        now: Duration,
        query: &Q,
    ) -> (start: Option<usize>) where
        Q: Fn(&Vec<PortEntry>, Option<&Vec<usize>>, &String, SortMode, bool) -> Result<
            QueryResult,
            String,
        >,

        requires
            answers(*query),
            old(self).wf(),
        ensures
            applied(*old(self), snapshot, now, *query, *final(self), place(start)),
            start is Some ==> start->0 < final(self).rows.len(),
            final(self).wf(),
    {
        let projected = snapshot.port_entries(self.protected_processes.as_slice());
        let ghost seen = projected;
        assert(entries_projected(
            snapshot,
            RowFilter { pid: None, port: None },
            self.protected_processes@,
            seen,
        ));
        let rows = match projected {
            Ok(rows) => rows,
            Err(error) => {
                self.redraw_needed = true;
                self.latest_error = Some(error.message());
                return None;
            },
        };
        let key = self.selected_key();
        let fallback: usize = match self.selected_index {
            Some(index) => index,
            None => 0,
        };
        let ghost held = rows;
        self.take_over(snapshot, rows, now);
        assert(taken_over(*old(self), snapshot, held, now, *self));
        self.reshow(key, fallback, query)
    }

    fn take_over(&mut self, snapshot: NetworkSnapshot, rows: Vec<PortEntry>, now: Duration)
        ensures
            taken_over(*old(self), snapshot, rows, now, *final(self)),
    {
        self.redraw_needed = true;
        if self.refresh_worker.is_some() {
            self.refresh_worker = Some(RefreshWorker { stale: true });
        }
        self.network_snapshot = Some(snapshot);
        self.rows = rows;
        self.sorted_row_indices = None;
        self.last_successful_refresh = Some(now);
        self.latest_error = None;
        if let Some(worker) = self.context_worker {
            self.context_worker = Some(ContextWorker { key: worker.key, stale: true });
        }
        self.context_requested = false;
        self.selected_context_key = None;
        self.selected_process_context = None;
    }

    fn reshow<Q>(&mut self, key: Option<RowKey>, fallback: usize, query: &Q) -> (start: Option<
        usize,
    >) where
        Q: Fn(&Vec<PortEntry>, Option<&Vec<usize>>, &String, SortMode, bool) -> Result<
            QueryResult,
            String,
        >,

        requires
            answers(*query),
            old(self).sorted_row_indices is None,
            utf8_len(old(self).filter_text@) <= FILTER_TEXT_MAX_BYTES,
            old(self).modal.bounded(),
        ensures
            reshown(*old(self), key, fallback as int, *query, *final(self), place(start)),
            start is Some ==> start->0 < final(self).rows.len(),
            final(self).wf(),
    {
        self.rebuild_visible_rows_preserving(key, fallback, query);
        let ghost shown = *self;
        assert(rebuilt(*old(self), key, fallback as int, *query, shown));
        if self.modal() == ModalKind::Details {
            self.load_selected_process_context()
        } else {
            None
        }
    }

    /// End a refresh with its result. The row whose context is to be read, if one is.
    pub fn finish_snapshot_refresh_attempt<Q>(
        &mut self,
        result: Result<NetworkSnapshot, CollectorError>,
        completed_at: Duration,
        query: &Q,
    ) -> (start: Option<usize>) where
        Q: Fn(&Vec<PortEntry>, Option<&Vec<usize>>, &String, SortMode, bool) -> Result<
            QueryResult,
            String,
        >,

        requires
            answers(*query),
            old(self).wf(),
        ensures
            attempt_finished(
                *old(self),
                result,
                completed_at,
                *query,
                *final(self),
                place(start),
            ),
            start is Some ==> start->0 < final(self).rows.len(),
            final(self).wf(),
    {
        self.redraw_needed = true;
        self.last_refresh_attempt = completed_at;
        match result {
            Ok(snapshot) => self.apply_network_snapshot(snapshot, completed_at, query),
            Err(error) => {
                self.latest_error = Some(error.message());
                None
            },
        }
    }

    /// Take what a refresh's channel held.
    pub fn poll_refresh<Q>(
        &mut self,
        received: Received<Result<NetworkSnapshot, CollectorError>>,
        now: Duration,
        query: &Q,
    ) -> (started: Started) where
        Q: Fn(&Vec<PortEntry>, Option<&Vec<usize>>, &String, SortMode, bool) -> Result<
            QueryResult,
            String,
        >,

        requires
            answers(*query),
            old(self).wf(),
        ensures
            refresh_polled(*old(self), received, now, *query, *final(self), started),
            started.context is Some ==> started.context->0 < final(self).rows.len(),
            final(self).wf(),
    {
        let nothing = Started { refresh: false, context: None };
        let worker = match self.refresh_worker {
            Some(worker) => worker,
            None => {
                return nothing;
            },
        };
        let ghost whole = received;
        let result = match received {
            Received::Pending => {
                return nothing;
            },
            Received::Failed(failure) => {
                self.refresh_worker = None;
                self.worker_failure = Some(failure);
                return nothing;
            },
            Received::Value(result) => result,
            Received::Disconnected => Err(CollectorError::WorkerExited),
        };
        self.refresh_worker = None;
        let context = if worker.stale {
            None
        } else {
            self.finish_snapshot_refresh_attempt(result, now, query)
        };
        assert(refresh_ended(*old(self), whole, now, *query, *self, place(context)));
        let ghost ended = *self;
        let refresh = if self.refresh_after_kill {
            self.refresh_after_kill = false;
            self.refresh()
        } else {
            false
        };
        Started { refresh, context }
    }

    /// Bring a target that was read again to the open confirmation of its process. The
    /// confirmation never loses the mark of a protected process.
    pub fn apply_context_target_to_confirmations(&mut self, target: KillTarget)
        requires
            old(self).wf(),
        ensures
            *final(self) == (App { modal: final(self).modal, ..*old(self) }),
            confirmations_updated(old(self).modal, target, final(self).modal),
            final(self).wf(),
    {
        match &mut self.modal {
            Modal::ConfirmKill(confirmation) => {
                if confirmation.target.pid == target.pid {
                    let mut target = target;
                    target.protected = target.protected || confirmation.target.protected;
                    confirmation.target = target;
                }
            },
            Modal::ConfirmTreeKill(confirmation) => {
                if confirmation.target.pid == target.pid {
                    let mut target = target;
                    target.protected = target.protected || confirmation.target.protected;
                    confirmation.target = target;
                }
            },
            _ => {},
        }
    }

    fn take_context(&mut self, key: RowKey, context: ProcessContext)
        requires
            old(self).wf(),
        ensures
            context_arrived(*old(self), key, context, *final(self)),
            final(self).wf(),
    {
        let target = match key.pid {
            Some(pid) => {
                let target = self.kill_target_with_optional_context(pid, Some(&context));
                assert(target_read(*old(self), pid, Some(&context), target));
                target
            },
            None => None,
        };
        if self.selected_key() == Some(key) {
            self.selected_context_key = Some(key);
            self.selected_process_context = Some(context);
        }
        if let Some(target) = target {
            self.apply_context_target_to_confirmations(target);
        }
    }

    /// Take what a context read's channel held. The row whose context is to be read
    /// next, if one is.
    pub fn poll_process_context(&mut self, received: Received<ProcessContext>) -> (start: Option<
        usize,
    >)
        requires
            old(self).wf(),
        ensures
            context_polled(*old(self), received, *final(self), place(start)),
            start is Some ==> start->0 < final(self).rows.len(),
            final(self).wf(),
    {
        let worker = match self.context_worker {
            Some(worker) => worker,
            None => {
                return None;
            },
        };
        match received {
            Received::Pending => None,
            Received::Failed(failure) => {
                self.context_worker = None;
                self.worker_failure = Some(failure);
                None
            },
            Received::Disconnected => {
                self.context_worker = None;
                self.redraw_needed = true;
                self.latest_error = Some(
                    "details worker exited before returning context".to_owned(),
                );
                let ghost told = *self;
                let start = self.start_pending_process_context_request();
                assert(pending_served(told, *self, place(start)));
                start
            },
            Received::Value(context) => {
                self.redraw_needed = true;
                self.context_worker = None;
                let ghost drained = *self;
                if !worker.stale {
                    self.take_context(worker.key, context);
                    assert(context_arrived(drained, worker.key, context, *self));
                }
                self.start_pending_process_context_request()
            },
        }
    }

    /// A confirmation of a kill is open.
    pub open spec fn confirming(self) -> bool {
        self.modal is ConfirmKill || self.modal is ConfirmTreeKill
    }

    /// Whether a confirmation of a kill is open.
    pub fn confirmation_modal_open(&self) -> (r: bool)
        ensures
            r == self.confirming(),
    {
        match &self.modal {
            Modal::ConfirmKill(_) => true,
            Modal::ConfirmTreeKill(_) => true,
            _ => false,
        }
    }

    /// Time since the last refresh ended.
    pub open spec fn since_attempt(self, now: Duration) -> int {
        if self.last_refresh_attempt.nanos <= now.nanos {
            now.nanos - self.last_refresh_attempt.nanos
        } else {
            0
        }
    }

    /// Whether the next refresh is due. None is while a confirmation is open, so that
    /// what the user reads does not change, nor while one is under way.
    pub fn refresh_due_at(&self, now: Duration, refresh_interval: Duration) -> (r: bool)
        ensures
            r == (!self.confirming() && self.refresh_worker is None && self.since_attempt(now)
                >= refresh_interval.nanos),
    {
        if self.confirmation_modal_open() {
            return false;
        }
        if self.refresh_worker.is_some() {
            return false;
        }
        now.saturating_sub(self.last_refresh_attempt).nanos >= refresh_interval.nanos
    }

    /// How long to wait until the next refresh is looked for.
    pub fn time_until_refresh_at(&self, now: Duration, refresh_interval: Duration) -> (r: Duration)
        ensures
            r.nanos == (if self.confirming() || self.refresh_worker is Some {
                refresh_interval.nanos as int
            } else if self.since_attempt(now) >= refresh_interval.nanos {
                0
            } else {
                refresh_interval.nanos - self.since_attempt(now)
            }),
    {
        if self.confirmation_modal_open() {
            return refresh_interval;
        }
        if self.refresh_worker.is_some() {
            return refresh_interval;
        }
        refresh_interval.saturating_sub(now.saturating_sub(self.last_refresh_attempt))
    }
}

/// A wait of the length that the table asks for ends exactly when the refresh is due,
/// unless a confirmation or another refresh is in the way.
pub proof fn law_refresh_is_due_after_the_wait(
    app: App,
    now: Duration,
    refresh_interval: Duration,
    wait: int,
)
    requires
        !app.confirming(),
        app.refresh_worker is None,
        app.last_refresh_attempt.nanos <= now.nanos,
        wait == (if app.since_attempt(now) >= refresh_interval.nanos {
            0
        } else {
            refresh_interval.nanos - app.since_attempt(now)
        }),
        now.nanos + wait <= u128::MAX,
    ensures
        app.since_attempt(Duration { nanos: (now.nanos + wait) as u128 })
            >= refresh_interval.nanos,
        forall|early: Duration|
            now.nanos <= early.nanos < now.nanos + wait ==> #[trigger] app.since_attempt(early)
                < refresh_interval.nanos,
{
}

/// A refresh that was under way when a kill ended never becomes the table: its result is
/// thrown away and another refresh is started.
pub proof fn law_refresh_before_a_kill_is_discarded<Q>(
    before: App,
    killed: App,
    received: Received<Result<NetworkSnapshot, CollectorError>>,
    now: Duration,
    query: Q,
    after: App,
    started: Started,
) where
    Q: Fn(&Vec<PortEntry>, Option<&Vec<usize>>, &String, SortMode, bool) -> Result<
        QueryResult,
        String,
    >,

    requires
        before.refresh_worker is Some,
        refresh_owed(before, killed, false),
        received is Value || received is Disconnected,
        refresh_polled(killed, received, now, query, after, started),
    ensures
        after.rows == before.rows,
        after.network_snapshot == before.network_snapshot,
        started.refresh,
        after.refresh_worker == Some(RefreshWorker { stale: false }),
{
}

} // verus!
