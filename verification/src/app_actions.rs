//! Actions on the interactive table.

use vstd::prelude::*;
use vstd::string::*;
use crate::app_kill::{kill_cancelled, kill_erased, kill_requested, kill_submitted, kill_typed};
use crate::app_query::{answers, fallback_of, rebuilt, search_changed, QueryResult};
use crate::app_refresh::{context_asked, place, refresh_asked};
use crate::app_state::{App, Modal, Received, FILTER_TEXT_MAX_BYTES};
use crate::app_tree::{
    tree_cancelled, tree_erased, tree_requested, tree_submitted, tree_typed, PreviewRequest,
};
use crate::config::SortMode;
use crate::input::{Action, ModalKind};
use crate::ports::PortEntry;
use crate::process::{HostFacts, KillMode};
use crate::app_kill::shortened;
use crate::text::{opt_text, utf8_len};
use crate::tree::ProcessTreeTarget;

verus! {

/// Which confirmed kill is to run.
#[derive(Debug, Clone, Copy, PartialEq, Eq, Structural)]
pub enum Execution {
    Single,
    Tree,
}

/// What an action asks of the outside: workers to start, a kill to run.
#[derive(Debug, Clone, Copy, PartialEq, Eq, Structural)]
pub struct Effects {
    pub refresh: bool,
    /// The row whose process context is to be read.
    pub context: Option<usize>,
    pub preview: Option<PreviewRequest>,
    pub execute: Option<Execution>,
}

impl Effects {
    pub open spec fn nothing() -> Effects {
        Effects { refresh: false, context: None, preview: None, execute: None }
    }

    pub fn none() -> (r: Effects)
        ensures
            r == Effects::nothing(),
    {
        Effects { refresh: false, context: None, preview: None, execute: None }
    }

    pub open spec fn only_context(self) -> bool {
        self == (Effects { context: self.context, ..Effects::nothing() })
    }

    /// The kill of this kind is to run, or nothing is.
    pub open spec fn runs(self, execution: Execution, execute: bool) -> bool {
        self == (Effects {
            execute: if execute {
                Some(execution)
            } else {
                None
            },
            ..Effects::nothing()
        })
    }
}

/// Details were opened, where a row is selected.
pub open spec fn details_opened(before: App, after: App, start: Option<int>) -> bool {
    if before.selected() is None {
        start is None && after == before
    } else {
        exists|asked: App| #[trigger]
            context_asked(
                App { search_mode: false, modal_scroll: 0, ..before },
                asked,
                start,
            ) && after == (App { modal: Modal::Details, ..asked })
    }
}

/// An answer was submitted to whichever confirmation is open.
pub open spec fn submitted(before: App, after: App, effects: Effects) -> bool {
    if before.modal is ConfirmTreeKill {
        exists|execute: bool| #[trigger]
            tree_submitted(before, after, execute) && effects.runs(Execution::Tree, execute)
    } else {
        exists|execute: bool| #[trigger]
            kill_submitted(before, after, execute) && effects.runs(Execution::Single, execute)
    }
}

/// A character was typed into whichever confirmation is open.
pub open spec fn typed(before: App, ch: char, after: App, effects: Effects) -> bool {
    if before.modal is ConfirmTreeKill {
        tree_typed(before, ch, after) && effects == Effects::nothing()
    } else {
        exists|execute: bool| #[trigger]
            kill_typed(before, ch, after, execute) && effects.runs(Execution::Single, execute)
    }
}

/// The open confirmation was called off.
pub open spec fn cancelled(before: App, after: App) -> bool {
    if before.modal is ConfirmTreeKill {
        tree_cancelled(before, after)
    } else {
        kill_cancelled(before, after)
    }
}

/// What an action on the search or the order does.
#[verifier::opaque]
pub open spec fn searched<Q>(before: App, action: Action, query: Q, after: App) -> bool where
    Q: Fn(&Vec<PortEntry>, Option<&Vec<usize>>, &String, SortMode, bool) -> Result<
        QueryResult,
        String,
    >,
 {
    match action {
        Action::StartSearch => after == (App { search_mode: true, ..before }),
        Action::SearchAppend(ch) => {
            let text = before.filter_text@.push(ch);
            if before.search_mode && utf8_len(text) <= FILTER_TEXT_MAX_BYTES {
                search_changed(before, text, query, after)
            } else {
                after == before
            }
        },
        Action::SearchBackspace => if before.search_mode {
            search_changed(before, shortened(before.filter_text@), query, after)
        } else {
            after == before
        },
        Action::FinishSearch => after == (App { search_mode: false, ..before }),
        Action::CancelSearch => {
            let left = App { search_mode: false, ..before };
            if before.filter_text@.len() > 0 {
                search_changed(left, Seq::empty(), query, after)
            } else {
                after == left
            }
        },
        Action::CycleSort => {
            let next = App { sort_mode: before.sort_mode.following(), ..before };
            rebuilt(next, next.key_selected(), fallback_of(next), query, after)
        },
        _ => after == before,
    }
}

/// What an action on a kill or its confirmation does.
#[verifier::opaque]
pub open spec fn kill_acted(
    before: App,
    action: Action,
    host: HostFacts,
    previewed: Received<Result<ProcessTreeTarget, String>>,
    after: App,
    effects: Effects,
) -> bool {
    let quiet = effects == Effects::nothing();
    match action {
        Action::RequestTerminate => effects.only_context() && kill_requested(
            before,
            KillMode::Terminate,
            host,
            after,
            place(effects.context),
        ),
        Action::RequestForceKill => effects.only_context() && kill_requested(
            before,
            KillMode::Force,
            host,
            after,
            place(effects.context),
        ),
        Action::RequestTreeTerminate => effects == (Effects {
            context: effects.context,
            preview: effects.preview,
            ..Effects::nothing()
        }) && tree_requested(
            before,
            KillMode::Terminate,
            host,
            previewed,
            after,
            place(effects.context),
            effects.preview,
        ),
        Action::RequestTreeForceKill => effects == (Effects {
            context: effects.context,
            preview: effects.preview,
            ..Effects::nothing()
        }) && tree_requested(
            before,
            KillMode::Force,
            host,
            previewed,
            after,
            place(effects.context),
            effects.preview,
        ),
        Action::SubmitKillConfirmation => submitted(before, after, effects),
        Action::KillInputAppend(ch) => typed(before, ch, after, effects),
        Action::KillInputBackspace => quiet && if before.modal is ConfirmTreeKill {
            tree_erased(before, after)
        } else {
            kill_erased(before, after)
        },
        Action::CancelKill => quiet && cancelled(before, after),
        _ => quiet && after == before,
    }
}

/// What an action does. Everything but no action asks for a redraw.
pub open spec fn acted<Q>(
    start: App,
    action: Action,
    host: HostFacts,
    previewed: Received<Result<ProcessTreeTarget, String>>,
    query: Q,
    after: App,
    effects: Effects,
) -> bool where
    Q: Fn(&Vec<PortEntry>, Option<&Vec<usize>>, &String, SortMode, bool) -> Result<
        QueryResult,
        String,
    >,
 {
    let before = App { redraw_needed: start.redraw_needed || action != Action::Noop, ..start };
    let quiet = effects == Effects::nothing();
    match action {
        Action::MoveDown => quiet && after == before.moved_down(),
        Action::MoveUp => quiet && after == before.moved_up(),
        Action::OpenDetails => effects.only_context() && details_opened(
            before,
            after,
            place(effects.context),
        ),
        Action::OpenHelp => quiet && after == (App {
            modal_scroll: 0,
            modal: Modal::Help,
            ..before
        }),
        Action::CloseModal => quiet && after == (App {
            modal: Modal::Closed,
            modal_scroll: 0,
            context_requested: false,
            ..before
        }),
        Action::RequestTerminate => kill_acted(before, action, host, previewed, after, effects),
        Action::RequestForceKill => kill_acted(before, action, host, previewed, after, effects),
        Action::RequestTreeTerminate => kill_acted(before, action, host, previewed, after, effects),
        Action::RequestTreeForceKill => kill_acted(before, action, host, previewed, after, effects),
        Action::SubmitKillConfirmation => kill_acted(before, action, host, previewed, after, effects),
        Action::KillInputAppend(_) => kill_acted(before, action, host, previewed, after, effects),
        Action::KillInputBackspace => kill_acted(before, action, host, previewed, after, effects),
        Action::CancelKill => kill_acted(before, action, host, previewed, after, effects),
        Action::Refresh => effects == (Effects { refresh: effects.refresh, ..Effects::nothing() })
            && refresh_asked(before, after, effects.refresh),
        Action::StartSearch => quiet && searched(before, action, query, after),
        Action::SearchAppend(_) => quiet && searched(before, action, query, after),
        Action::SearchBackspace => quiet && searched(before, action, query, after),
        Action::FinishSearch => quiet && searched(before, action, query, after),
        Action::CancelSearch => quiet && searched(before, action, query, after),
        Action::CycleSort => quiet && searched(before, action, query, after),
        Action::Quit => quiet && after == (App { should_quit: true, ..before }),
        Action::Noop => quiet && after == before,
    }
}

impl App {
    /// Open the details of the selected row. The row whose context is to be read, if one
    /// is.
    pub fn open_details(&mut self) -> (start: Option<usize>)
        requires
            old(self).wf(),
        ensures
            details_opened(*old(self), *final(self), place(start)),
            start is Some ==> start->0 < final(self).rows.len(),
            final(self).wf(),
    {
        if self.selected_row().is_none() {
            return None;
        }
        self.search_mode = false;
        self.modal_scroll = 0;
        let ghost before = *self;
        let start = self.load_selected_process_context();
        assert(context_asked(before, *self, place(start)));
        self.modal = Modal::Details;
        start
    }

    /// Submit the answer to whichever confirmation is open.
    pub fn submit_confirmation(&mut self) -> (effects: Effects)
        requires
            old(self).wf(),
        ensures
            submitted(*old(self), *final(self), effects),
            final(self).wf(),
    {
        if self.modal() == ModalKind::ConfirmTreeKill {
            let execute = self.submit_tree_confirmation();
            assert(tree_submitted(*old(self), *self, execute));
            return run_effects(Execution::Tree, execute);
        }
        let execute = self.submit_kill_confirmation();
        assert(kill_submitted(*old(self), *self, execute));
        run_effects(Execution::Single, execute)
    }

    /// Type a character into whichever confirmation is open.
    pub fn append_confirmation_input(&mut self, ch: char) -> (effects: Effects)
        requires
            old(self).wf(),
        ensures
            typed(*old(self), ch, *final(self), effects),
            final(self).wf(),
    {
        if self.modal() == ModalKind::ConfirmTreeKill {
            self.append_tree_input(ch);
            return Effects::none();
        }
        let execute = self.append_kill_input(ch);
        assert(kill_typed(*old(self), ch, *self, execute));
        run_effects(Execution::Single, execute)
    }

    /// Take the last character of whichever confirmation is open away.
    pub fn backspace_confirmation_input(&mut self)
        requires
            old(self).wf(),
        ensures
            if old(self).modal is ConfirmTreeKill {
                tree_erased(*old(self), *final(self))
            } else {
                kill_erased(*old(self), *final(self))
            },
            final(self).wf(),
    {
        if self.modal() == ModalKind::ConfirmTreeKill {
            self.backspace_tree_input();
            return;
        }
        self.backspace_kill_input();
    }

    /// Call the open confirmation off.
    pub fn cancel_confirmation(&mut self)
        requires
            old(self).wf(),
        ensures
            cancelled(*old(self), *final(self)),
            final(self).wf(),
    {
        if self.modal() == ModalKind::ConfirmTreeKill {
            self.cancel_tree_confirmation();
            return;
        }
        self.cancel_kill_confirmation();
    }

    /// Call the open confirmation off because the terminal cannot show all of it.
    pub fn cancel_confirmation_for_layout(&mut self)
        requires
            old(self).wf(),
        ensures
            *final(self) == (App {
                context_requested: false,
                modal: Modal::Closed,
                kill_status: final(self).kill_status,
                ..*old(self)
            }),
            opt_text(final(self).kill_status) == Some(
                "confirmation cancelled: terminal cannot show all mandatory safety text"@,
            ),
            final(self).wf(),
    {
        self.cancel_confirmation();
        self.kill_status = Some(
            "confirmation cancelled: terminal cannot show all mandatory safety text".to_owned(),
        );
    }

    fn apply_search_action<Q>(&mut self, action: Action, query: &Q) where
        Q: Fn(&Vec<PortEntry>, Option<&Vec<usize>>, &String, SortMode, bool) -> Result<
            QueryResult,
            String,
        >,

        requires
            answers(*query),
            old(self).wf(),
        ensures
            searched(*old(self), action, *query, *final(self)),
            final(self).wf(),
    {
        reveal(searched);
        match action {
            Action::StartSearch => {
                self.search_mode = true;
            },
            Action::SearchAppend(ch) => self.append_search_char(ch, query),
            Action::SearchBackspace => self.backspace_search(query),
            Action::FinishSearch => {
                self.search_mode = false;
            },
            Action::CancelSearch => self.cancel_search(query),
            Action::CycleSort => self.cycle_sort(query),
            _ => {},
        }
    }

    fn apply_kill_action(
        &mut self,
        action: Action,
        host: HostFacts,
        previewed: Received<Result<ProcessTreeTarget, String>>,
    ) -> (effects: Effects)
        requires
            old(self).wf(),
        ensures
            kill_acted(*old(self), action, host, previewed, *final(self), effects),
            effects.context is Some ==> effects.context->0 < final(self).rows.len(),
            final(self).wf(),
    {
        reveal(kill_acted);
        let mut effects = Effects::none();
        match action {
            Action::RequestTerminate => {
                effects.context = self.request_kill(KillMode::Terminate, host);
            },
            Action::RequestForceKill => {
                effects.context = self.request_kill(KillMode::Force, host);
            },
            Action::RequestTreeTerminate => {
                let (context, preview) = self.request_tree_kill(
                    KillMode::Terminate,
                    host,
                    previewed,
                );
                effects.context = context;
                effects.preview = preview;
            },
            Action::RequestTreeForceKill => {
                let (context, preview) = self.request_tree_kill(
                    KillMode::Force,
                    host,
                    previewed,
                );
                effects.context = context;
                effects.preview = preview;
            },
            Action::SubmitKillConfirmation => {
                effects = self.submit_confirmation();
            },
            Action::KillInputAppend(ch) => {
                effects = self.append_confirmation_input(ch);
            },
            Action::KillInputBackspace => self.backspace_confirmation_input(),
            Action::CancelKill => self.cancel_confirmation(),
            _ => {},
        }
        effects
    }

    /// Apply one action. What it asks of the outside is handed back. What the channel of an
    /// enumeration holds is taken by a request for a tree kill only: with every other
    /// action, hand in that nothing was received, so that nothing is lost.
    pub fn apply_action<Q>(
        &mut self,
        action: Action,
        host: HostFacts,
        previewed: Received<Result<ProcessTreeTarget, String>>,
        query: &Q,
    ) -> (effects: Effects) where
        Q: Fn(&Vec<PortEntry>, Option<&Vec<usize>>, &String, SortMode, bool) -> Result<
            QueryResult,
            String,
        >,

        requires
            answers(*query),
            old(self).wf(),
        ensures
            acted(*old(self), action, host, previewed, *query, *final(self), effects),
            effects.context is Some ==> effects.context->0 < final(self).rows.len(),
            final(self).wf(),
    {
        let mut effects = Effects::none();
        self.redraw_needed = self.redraw_needed || action != Action::Noop;
        match action {
            Action::MoveDown => self.select_next(),
            Action::MoveUp => self.select_previous(),
            Action::OpenDetails => {
                effects.context = self.open_details();
            },
            Action::OpenHelp => {
                self.modal_scroll = 0;
                self.modal = Modal::Help;
            },
            Action::CloseModal => {
                self.modal = Modal::Closed;
                self.modal_scroll = 0;
                self.context_requested = false;
            },
            Action::RequestTerminate => {
                effects = self.apply_kill_action(action, host, previewed);
            },
            Action::RequestForceKill => {
                effects = self.apply_kill_action(action, host, previewed);
            },
            Action::RequestTreeTerminate => {
                effects = self.apply_kill_action(action, host, previewed);
            },
            Action::RequestTreeForceKill => {
                effects = self.apply_kill_action(action, host, previewed);
            },
            Action::SubmitKillConfirmation => {
                effects = self.apply_kill_action(action, host, previewed);
            },
            Action::KillInputAppend(_) => {
                effects = self.apply_kill_action(action, host, previewed);
            },
            Action::KillInputBackspace => {
                effects = self.apply_kill_action(action, host, previewed);
            },
            Action::CancelKill => {
                effects = self.apply_kill_action(action, host, previewed);
            },
            Action::Refresh => {
                effects.refresh = self.refresh();
            },
            Action::StartSearch => self.apply_search_action(action, query),
            Action::SearchAppend(_) => self.apply_search_action(action, query),
            Action::SearchBackspace => self.apply_search_action(action, query),
            Action::FinishSearch => self.apply_search_action(action, query),
            Action::CancelSearch => self.apply_search_action(action, query),
            Action::CycleSort => self.apply_search_action(action, query),
            Action::Quit => {
                self.should_quit = true;
            },
            Action::Noop => {},
        }
        effects
    }
}

fn run_effects(execution: Execution, execute: bool) -> (r: Effects)
    ensures
        r.runs(execution, execute),
{
    let mut effects = Effects::none();
    if execute {
        effects.execute = Some(execution);
    }
    effects
}

/// An action runs a kill only where its confirmation is open.
pub proof fn law_kills_run_from_an_open_confirmation<Q>(
    before: App,
    action: Action,
    host: HostFacts,
    previewed: Received<Result<ProcessTreeTarget, String>>,
    query: Q,
    after: App,
    effects: Effects,
) where
    Q: Fn(&Vec<PortEntry>, Option<&Vec<usize>>, &String, SortMode, bool) -> Result<
        QueryResult,
        String,
    >,

    requires
        acted(before, action, host, previewed, query, after, effects),
        effects.execute is Some,
    ensures
        effects.execute == Some(Execution::Single) ==> before.modal is ConfirmKill,
        effects.execute == Some(Execution::Tree) ==> before.modal is ConfirmTreeKill,
        action == Action::SubmitKillConfirmation || action is KillInputAppend,
{
    reveal(kill_acted);
}

} // verus!
