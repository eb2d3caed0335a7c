//! Confirming and running the kill of a process tree from the table.

use vstd::prelude::*;
use vstd::string::*;
use crate::app_execute::{
    collection_failed, lemma_table_revalidated, outcome_line, table_revalidated,
    told_and_refreshed,
};
use crate::app_kill::{
    capped_message, capped_text, protected_prompt, protected_prompt_text, shortened, status_told,
    target_resolved, waiting_text,
};
use crate::app_refresh::place;
use crate::app_state::{
    App, Modal, Received, TreeConfirmStage, TreeKillConfirmation, TreePreviewWorker,
};
use crate::collector::CollectorError;
use crate::kill::{lemma_no_signal_joins, no_signal};
use crate::model::Platform;
use crate::operations::{
    KillsScope, Operation, PinsRoot, ReadsContext, ReadsPorts, ReadsTable, Recorded,
};
use crate::ports::{mark_protected, marked_rows};
use crate::process::{
    confirmation_input_matches, confirms, revalidate_confirmed_target, revalidates, still_matches,
    termination_status_line, trimmed, word_confirmation_matches, ConfirmationRequirement, HostFacts, KillMode, KillTarget,
    TerminationOutcome, CONFIRMATION_INPUT_MAX_BYTES,
};
use crate::scoped::{
    hold_tree, tree_gates, tree_kill_status_line, tree_outcome_text, TreeSnapshotScope,
};
use crate::text::{
    char_utf8_len, decimal, decimal_text, lemma_utf8_drop_last, lemma_utf8_push, opt_text, pop_char, push_char, text_len,
    utf8_len,
};
use crate::tree::{
    plan_error_outcome, plan_process_tree, plan_refused, preflight_clear, preflight_outcome,
    preflight_refused, tree_planned, tree_word, ProcessTreeTarget, ScopeAuthorization,
    TreeKillOutcome, TreePlanError, TreeProcessInfo, MAX_TREE_PROCESSES,
};

verus! {

/// A tree that is to be enumerated, for the user to see.
#[derive(Debug, Clone, Copy, PartialEq, Eq, Structural)]
pub struct PreviewRequest {
    pub root_pid: u32,
    pub platform: Platform,
}

/// What the user is told where a tree could not be enumerated.
pub open spec fn plan_error_text(error: TreePlanError, root_pid: u32) -> Seq<char> {
    match error {
        TreePlanError::RootMissing => "root PID "@ + decimal(root_pid as nat)
            + " is no longer running"@,
        TreePlanError::SnapshotLimitExceeded { limit } => "process snapshot exceeds the bounded "@
            + decimal(limit as nat) + "-PID index"@,
    }
}

/// Enumerate the tree that a preview asks for, from the process table.
pub fn preview_tree(
    request: PreviewRequest,
    table: Result<Vec<TreeProcessInfo>, String>,
    protected_names: &[String],
) -> (r: Result<ProcessTreeTarget, String>)
    ensures
        match table {
            Err(error) => r == Err::<ProcessTreeTarget, String>(error),
            Ok(infos) => exists|planned: Result<ProcessTreeTarget, TreePlanError>| #[trigger]
                tree_planned(
                    request.root_pid,
                    infos@,
                    protected_names@,
                    request.platform,
                    MAX_TREE_PROCESSES,
                    planned,
                ) && match planned {
                    Ok(tree) => r == Ok::<ProcessTreeTarget, String>(tree),
                    Err(error) => r is Err && r->Err_0@ == plan_error_text(error, request.root_pid),
                },
        },
{
    let infos = match table {
        Ok(infos) => infos,
        Err(error) => {
            return Err(error);
        },
    };
    let planned = plan_process_tree(
        request.root_pid,
        &infos,
        protected_names,
        request.platform,
        MAX_TREE_PROCESSES,
    );
    let ghost plan = planned;
    assert(tree_planned(
        request.root_pid,
        infos@,
        protected_names@,
        request.platform,
        MAX_TREE_PROCESSES,
        plan,
    ));
    match planned {
        Ok(tree) => Ok(tree),
        Err(TreePlanError::RootMissing) => {
            let mut text = "root PID ".to_owned();
            text.append(decimal_text(request.root_pid as u128).as_str());
            text.append(" is no longer running");
            Err(text)
        },
        Err(TreePlanError::SnapshotLimitExceeded { limit }) => {
            let mut text = "process snapshot exceeds the bounded ".to_owned();
            text.append(decimal_text(limit as u128).as_str());
            text.append("-PID index");
            Err(text)
        },
    }
}

/// A tree confirmation as it opens.
pub open spec fn fresh_tree_confirmation(
    confirmation: TreeKillConfirmation,
    target: KillTarget,
    mode: KillMode,
) -> bool {
    &&& confirmation.target == target
    &&& confirmation.mode == mode
    &&& confirmation.preview is None
    &&& confirmation.stage == TreeKillConfirmation::first_stage(target)
    &&& confirmation.input@.len() == 0
    &&& confirmation.error is None
}

/// The kill of a tree was asked for. What an earlier enumeration sent is taken first;
/// while that enumeration still runs, nothing is opened.
pub open spec fn tree_requested(
    before: App,
    mode: KillMode,
    host: HostFacts,
    previewed: Received<Result<ProcessTreeTarget, String>>,
    after: App,
    start: Option<int>,
    preview: Option<PreviewRequest>,
) -> bool {
    exists|drained: App| #[trigger]
        preview_polled(
            App { search_mode: false, kill_status: None, ..before },
            previewed,
            host,
            drained,
        ) && tree_opened(drained, mode, host, after, start, preview)
}

/// The confirmation of a tree kill was opened, unless an enumeration still runs.
pub open spec fn tree_opened(
    asked: App,
    mode: KillMode,
    host: HostFacts,
    after: App,
    start: Option<int>,
    preview: Option<PreviewRequest>,
) -> bool {
    if asked.tree_preview_worker is Some {
        start is None && preview is None && status_told(
            asked,
            "tree preview is still finishing; retry shortly"@,
            after,
        )
    } else {
        exists|resolved: App, target: Option<KillTarget>| #[trigger]
            target_resolved(asked, host, resolved, target, start) && match target {
                None => preview is None && after == resolved,
                Some(target) => {
                    &&& preview == Some(
                        PreviewRequest { root_pid: target.pid, platform: target.platform },
                    )
                    &&& after == (App {
                        modal: after.modal,
                        tree_preview_worker: Some(TreePreviewWorker { root_pid: target.pid }),
                        ..resolved
                    })
                    &&& after.modal matches Modal::ConfirmTreeKill(confirmation)
                        && fresh_tree_confirmation(confirmation, target, mode)
                },
            }
    }
}

/// The confirmation after its tree was enumerated: typed input is gone, and a root that
/// the enumeration knows as protected asks for the confirmation of a protected root.
pub open spec fn preview_shown(
    before: TreeKillConfirmation,
    preview: ProcessTreeTarget,
    after: TreeKillConfirmation,
) -> bool {
    let upgraded = preview.root_protected() && !before.target.protected;
    &&& after.target == (KillTarget {
        protected: before.target.protected || preview.root_protected(),
        ..before.target
    })
    &&& after.mode == before.mode
    &&& after.preview == Some(preview)
    &&& after.stage == (if upgraded {
        TreeConfirmStage::ProtectedRoot
    } else {
        before.stage
    })
    &&& after.input@.len() == 0
    &&& after.error is None
}

fn show_preview(confirmation: TreeKillConfirmation, preview: ProcessTreeTarget) -> (r:
    TreeKillConfirmation)
    ensures
        preview_shown(confirmation, preview, r),
        utf8_len(r.input@) == 0,
{
    let mut shown = confirmation;
    let protected: bool = match preview.root() {
        Some(node) => node.protected,
        None => false,
    };
    if protected && !shown.target.protected {
        shown.target.protected = true;
        shown.stage = TreeConfirmStage::ProtectedRoot;
    }
    shown.input = String::new();
    shown.error = None;
    shown.preview = Some(preview);
    shown
}

/// The result of an enumeration reached the table. Without an open confirmation it is
/// dropped; a tree that must not be killed closes the confirmation.
pub open spec fn preview_applied(
    before: App,
    worker_pid: u32,
    result: Result<ProcessTreeTarget, String>,
    host: HostFacts,
    after: App,
) -> bool {
    let closed = App { modal: Modal::Closed, ..before };
    match before.modal {
        Modal::ConfirmTreeKill(confirmation) => if confirmation.target.pid != worker_pid {
            status_told(
                closed,
                "tree preview no longer matches the requested process; press t or T to retry"@,
                after,
            )
        } else {
            match result {
                Err(error) => status_told(
                    closed,
                    "enumerating the process tree failed: "@ + error@,
                    after,
                ),
                Ok(preview) => if preflight_clear(preview, host) {
                    &&& after == (App { modal: after.modal, ..before })
                    &&& after.modal matches Modal::ConfirmTreeKill(now) && preview_shown(
                        confirmation,
                        preview,
                        now,
                    )
                } else {
                    exists|outcome: TreeKillOutcome| #[trigger]
                        preflight_refused(preview, host, outcome) && status_told(
                            closed,
                            tree_outcome_text(confirmation.target, confirmation.mode, outcome),
                            after,
                        )
                },
            }
        },
        _ => after == before,
    }
}

/// An enumeration's channel was looked at.
pub open spec fn preview_polled(
    before: App,
    received: Received<Result<ProcessTreeTarget, String>>,
    host: HostFacts,
    after: App,
) -> bool {
    match before.tree_preview_worker {
        None => after == before,
        Some(worker) => match received {
            Received::Pending => after == before,
            Received::Failed(failure) => after == (App {
                tree_preview_worker: None,
                worker_failure: Some(failure),
                ..before
            }),
            Received::Disconnected => exists|result: Result<ProcessTreeTarget, String>| #[trigger]
                preview_applied(
                    App { redraw_needed: true, tree_preview_worker: None, ..before },
                    worker.root_pid,
                    result,
                    host,
                    after,
                ) && result is Err && result->Err_0@
                    == "tree preview worker exited before returning"@,
            Received::Value(result) => preview_applied(
                App { redraw_needed: true, tree_preview_worker: None, ..before },
                worker.root_pid,
                result,
                host,
                after,
            ),
        },
    }
}

/// The tree kill was called off.
pub open spec fn tree_cancelled(before: App, after: App) -> bool {
    &&& after == (App {
        context_requested: false,
        modal: Modal::Closed,
        kill_status: after.kill_status,
        ..before
    })
    &&& opt_text(after.kill_status) == Some("tree kill cancelled"@)
}

/// The last character of a tree confirmation was taken away.
pub open spec fn tree_erased(before: App, after: App) -> bool {
    match before.modal {
        Modal::ConfirmTreeKill(confirmation) => if confirmation.preview is None {
            after == before
        } else {
            &&& after == (App { modal: after.modal, ..before })
            &&& after.modal matches Modal::ConfirmTreeKill(now) && now == (TreeKillConfirmation {
                input: now.input,
                error: None,
                ..confirmation
            }) && now.input@ == shortened(confirmation.input@)
        },
        _ => after == before,
    }
}

/// What one press of Enter on the confirmation of a tree kill means.
#[derive(Debug)]
pub enum TreeSubmitVerdict {
    Execute,
    AdvanceToWord,
    Reject(String),
}

/// What is asked for where the word did not match.
pub open spec fn word_prompt(confirmation: TreeKillConfirmation) -> Seq<char> {
    "type "@ + tree_word(confirmation.mode) + " and press Enter to send "@
        + confirmation.mode.delivery_text(confirmation.target.platform) + " to the tree"@
}

/// The meaning of Enter: nothing before the tree was enumerated; a protected root is
/// confirmed first, then the word.
pub open spec fn submit_means(confirmation: TreeKillConfirmation, verdict: TreeSubmitVerdict) -> bool {
    if confirmation.preview is None {
        verdict matches TreeSubmitVerdict::Reject(text) && text@
            == "still enumerating the process tree; wait for the count"@
    } else if confirmation.stage == TreeConfirmStage::ProtectedRoot {
        if confirms(
            confirmation.input@,
            confirmation.target,
            ConfirmationRequirement::ProtectedProcess,
        ) {
            verdict is AdvanceToWord
        } else {
            verdict matches TreeSubmitVerdict::Reject(text) && text@ == protected_prompt(
                confirmation.target,
            )
        }
    } else if trimmed(confirmation.input@) == tree_word(confirmation.mode) {
        verdict is Execute
    } else {
        verdict matches TreeSubmitVerdict::Reject(text) && text@ == word_prompt(confirmation)
    }
}

/// A confirmed tree kill has to wait for facts that are still read.
pub open spec fn tree_waits(app: App, confirmation: TreeKillConfirmation) -> bool {
    confirmation.target.process_start_time_marker is None && app.loading_for(
        confirmation.target.pid,
    )
}

/// A tree confirmation with another error.
pub open spec fn tree_error_told(
    before: App,
    confirmation: TreeKillConfirmation,
    text: Seq<char>,
    after: App,
) -> bool {
    &&& after == (App { modal: after.modal, ..before })
    &&& after.modal matches Modal::ConfirmTreeKill(now) && now == (TreeKillConfirmation {
        error: now.error,
        ..confirmation
    }) && opt_text(now.error) == Some(text)
}

/// A confirmed tree kill may start now, or the confirmation says that it has to wait.
pub open spec fn tree_begun(
    before: App,
    confirmation: TreeKillConfirmation,
    after: App,
    execute: bool,
) -> bool {
    &&& execute == !tree_waits(before, confirmation)
    &&& if execute {
        after == before
    } else {
        tree_error_told(before, confirmation, waiting_text(), after)
    }
}

/// An answer to a tree confirmation was submitted.
pub open spec fn tree_submitted(before: App, after: App, execute: bool) -> bool {
    match before.modal {
        Modal::ConfirmTreeKill(confirmation) => exists|verdict: TreeSubmitVerdict| #[trigger]
            submit_means(confirmation, verdict) && match verdict {
                TreeSubmitVerdict::Execute => tree_begun(before, confirmation, after, execute),
                TreeSubmitVerdict::AdvanceToWord => {
                    &&& !execute
                    &&& after == (App { modal: after.modal, ..before })
                    &&& after.modal matches Modal::ConfirmTreeKill(now) && now == (
                    TreeKillConfirmation {
                        stage: TreeConfirmStage::Word,
                        input: now.input,
                        error: None,
                        ..confirmation
                    }) && now.input@.len() == 0
                },
                TreeSubmitVerdict::Reject(text) => !execute && tree_error_told(
                    before,
                    confirmation,
                    text@,
                    after,
                ),
            },
        _ => !execute && after == before,
    }
}

/// A character was typed into a tree confirmation. Before the tree was enumerated
/// nothing can be typed, so that no word is ready before its count is seen.
pub open spec fn tree_typed(before: App, ch: char, after: App) -> bool {
    match before.modal {
        Modal::ConfirmTreeKill(confirmation) => if confirmation.preview is None {
            tree_error_told(
                before,
                confirmation,
                "still enumerating the process tree; wait for the count before typing"@,
                after,
            )
        } else if utf8_len(confirmation.input@.push(ch)) > CONFIRMATION_INPUT_MAX_BYTES {
            tree_error_told(before, confirmation, capped_text(), after)
        } else {
            &&& after == (App { modal: after.modal, ..before })
            &&& after.modal matches Modal::ConfirmTreeKill(now) && now == (TreeKillConfirmation {
                input: now.input,
                error: None,
                ..confirmation
            }) && now.input@ == confirmation.input@.push(ch)
        },
        _ => after == before,
    }
}

impl App {
    /// Ask for the kill of the selected row's process tree. What the channel of an earlier
    /// enumeration holds is taken first, so that one that has finished is in nobody's way.
    pub fn request_tree_kill(
        &mut self,
        mode: KillMode,
        host: HostFacts,
        previewed: Received<Result<ProcessTreeTarget, String>>,
    ) -> (r: (Option<usize>, Option<PreviewRequest>))
        requires
            old(self).wf(),
        ensures
            tree_requested(*old(self), mode, host, previewed, *final(self), place(r.0), r.1),
            r.0 is Some ==> r.0->0 < final(self).rows.len(),
            final(self).wf(),
    {
        self.search_mode = false;
        self.kill_status = None;
        self.poll_tree_preview(previewed, host);
        let ghost asked = *self;
        if self.tree_preview_worker.is_some() {
            self.kill_status = Some("tree preview is still finishing; retry shortly".to_owned());
            return (None, None);
        }
        let resolved = self.resolve_selected_kill_target(host);
        let ghost mid = *self;
        let ghost made = resolved.target;
        assert(target_resolved(asked, host, mid, made, place(resolved.context)));
        let target = match resolved.target {
            Some(target) => target,
            None => {
                return (resolved.context, None);
            },
        };
        let root_pid: u32 = target.pid;
        let platform = target.platform;
        let confirmation = TreeKillConfirmation::new(target, mode);
        assert(utf8_len(confirmation.input@) == 0);
        self.modal = Modal::ConfirmTreeKill(confirmation);
        self.tree_preview_worker = Some(TreePreviewWorker { root_pid });
        (resolved.context, Some(PreviewRequest { root_pid, platform }))
    }

    /// The enumeration that was to be started could not be.
    pub fn tree_preview_start_failed(&mut self, error: &str)
        requires
            old(self).wf(),
        ensures
            *final(self) == (App {
                tree_preview_worker: None,
                modal: Modal::Closed,
                kill_status: final(self).kill_status,
                ..*old(self)
            }),
            opt_text(final(self).kill_status) == Some(
                "starting tree preview worker failed: "@ + error@,
            ),
            final(self).wf(),
    {
        self.tree_preview_worker = None;
        self.modal = Modal::Closed;
        self.kill_status = Some("starting tree preview worker failed: ".to_owned().concat(error));
    }

    /// Take the result of an enumeration.
    pub fn apply_tree_preview(
        &mut self,
        worker_pid: u32,
        result: Result<ProcessTreeTarget, String>,
        host: HostFacts,
    )
        requires
            old(self).wf(),
        ensures
            preview_applied(*old(self), worker_pid, result, host, *final(self)),
            final(self).wf(),
    {
        let confirmation = match self.take_tree_confirmation() {
            Some(confirmation) => confirmation,
            None => {
                return;
            },
        };
        if confirmation.target.pid != worker_pid {
            self.kill_status = Some(
                "tree preview no longer matches the requested process; press t or T to retry".to_owned(),
            );
            return;
        }
        let preview = match result {
            Ok(preview) => preview,
            Err(error) => {
                self.kill_status = Some(
                    "enumerating the process tree failed: ".to_owned().concat(error.as_str()),
                );
                return;
            },
        };
        match preflight_outcome(&preview, host) {
            Ok(()) => {
                self.modal = Modal::ConfirmTreeKill(show_preview(confirmation, preview));
            },
            Err(outcome) => {
                assert(preflight_refused(preview, host, outcome));
                self.kill_status = Some(
                    tree_kill_status_line(&confirmation.target, confirmation.mode, &outcome),
                );
            },
        }
    }

    /// Take what an enumeration's channel held.
    pub fn poll_tree_preview(
        &mut self,
        received: Received<Result<ProcessTreeTarget, String>>,
        host: HostFacts,
    )
        requires
            old(self).wf(),
        ensures
            preview_polled(*old(self), received, host, *final(self)),
            final(self).wf(),
    {
        let worker = match self.tree_preview_worker {
            Some(worker) => worker,
            None => {
                return;
            },
        };
        let result = match received {
            Received::Pending => {
                return;
            },
            Received::Failed(failure) => {
                self.tree_preview_worker = None;
                self.worker_failure = Some(failure);
                return;
            },
            Received::Disconnected => {
                Err("tree preview worker exited before returning".to_owned())
            },
            Received::Value(result) => result,
        };
        self.redraw_needed = true;
        self.tree_preview_worker = None;
        self.apply_tree_preview(worker.root_pid, result, host);
    }

    /// Close the confirmation of a tree kill and hand it out.
    pub fn take_tree_confirmation(&mut self) -> (r: Option<TreeKillConfirmation>)
        ensures
            match old(self).modal {
                Modal::ConfirmTreeKill(confirmation) => r == Some(confirmation) && *final(self)
                    == (App { modal: Modal::Closed, ..*old(self) }),
                _ => r is None && *final(self) == *old(self),
            },
    {
        if self.tree_confirmation().is_none() {
            return None;
        }
        let mut taken = Modal::Closed;
        std::mem::swap(&mut taken, &mut self.modal);
        match taken {
            Modal::ConfirmTreeKill(confirmation) => Some(confirmation),
            _ => None,
        }
    }

    /// Type a character into the confirmation of a tree kill.
    pub fn append_tree_input(&mut self, ch: char)
        requires
            old(self).wf(),
        ensures
            tree_typed(*old(self), ch, *final(self)),
            final(self).wf(),
    {
        if let Modal::ConfirmTreeKill(confirmation) = &mut self.modal {
            if confirmation.preview.is_none() {
                confirmation.error = Some(
                    "still enumerating the process tree; wait for the count before typing".to_owned(),
                );
                return;
            }
            proof {
                lemma_utf8_push(confirmation.input@, ch);
            }
            if text_len(confirmation.input.as_str()) + char_utf8_len(ch)
                > CONFIRMATION_INPUT_MAX_BYTES {
                confirmation.error = Some(capped_message());
                return;
            }
            push_char(&mut confirmation.input, ch);
            confirmation.error = None;
        }
    }

    /// Take the last character of a tree confirmation away.
    pub fn backspace_tree_input(&mut self)
        requires
            old(self).wf(),
        ensures
            tree_erased(*old(self), *final(self)),
            final(self).wf(),
    {
        if let Modal::ConfirmTreeKill(confirmation) = &mut self.modal {
            if confirmation.preview.is_none() {
                return;
            }
            proof {
                if confirmation.input@.len() > 0 {
                    lemma_utf8_drop_last(confirmation.input@);
                }
            }
            let _ = pop_char(&mut confirmation.input);
            confirmation.error = None;
        }
    }

    /// Call the tree kill off.
    pub fn cancel_tree_confirmation(&mut self)
        requires
            old(self).wf(),
        ensures
            tree_cancelled(*old(self), *final(self)),
            final(self).wf(),
    {
        self.context_requested = false;
        self.modal = Modal::Closed;
        self.kill_status = Some("tree kill cancelled".to_owned());
    }

    /// What one press of Enter means, where a tree confirmation is open.
    pub fn tree_submit_verdict(&self) -> (r: Option<TreeSubmitVerdict>)
        ensures
            match self.modal {
                Modal::ConfirmTreeKill(confirmation) => r is Some && submit_means(
                    confirmation,
                    r->0,
                ),
                _ => r is None,
            },
    {
        let confirmation = match self.tree_confirmation() {
            Some(confirmation) => confirmation,
            None => {
                return None;
            },
        };
        if confirmation.preview.is_none() {
            return Some(
                TreeSubmitVerdict::Reject(
                    "still enumerating the process tree; wait for the count".to_owned(),
                ),
            );
        }
        match confirmation.stage {
            TreeConfirmStage::ProtectedRoot => if confirmation_input_matches(
                confirmation.input.as_str(),
                &confirmation.target,
                ConfirmationRequirement::ProtectedProcess,
            ) {
                Some(TreeSubmitVerdict::AdvanceToWord)
            } else {
                Some(TreeSubmitVerdict::Reject(protected_prompt_text(&confirmation.target)))
            },
            TreeConfirmStage::Word => {
                let word = confirmation.scope_word();
                if word_confirmation_matches(confirmation.input.as_str(), word) {
                    Some(TreeSubmitVerdict::Execute)
                } else {
                    let mut text = "type ".to_owned();
                    text.append(word);
                    text.append(" and press Enter to send ");
                    text.append(confirmation.mode.delivery_label(confirmation.target.platform));
                    text.append(" to the tree");
                    Some(TreeSubmitVerdict::Reject(text))
                }
            },
        }
    }

    /// Start a confirmed tree kill, unless facts about its root are still read.
    pub fn begin_tree_kill(&mut self) -> (execute: bool)
        requires
            old(self).wf(),
        ensures
            match old(self).modal {
                Modal::ConfirmTreeKill(confirmation) => tree_begun(
                    *old(self),
                    confirmation,
                    *final(self),
                    execute,
                ),
                _ => !execute && *final(self) == *old(self),
            },
            final(self).wf(),
    {
        let (pid, known): (u32, bool) = match &self.modal {
            Modal::ConfirmTreeKill(confirmation) => (
                confirmation.target.pid,
                confirmation.target.process_start_time_marker.is_some(),
            ),
            _ => {
                return false;
            },
        };
        if known || !self.process_context_loading_for_pid(pid) {
            return true;
        }
        if let Modal::ConfirmTreeKill(confirmation) = &mut self.modal {
            confirmation.error = Some(
                "still reading process metadata; retry once it finishes".to_owned(),
            );
        }
        false
    }

    /// Submit the answer that was typed. True where the tree kill is to run.
    pub fn submit_tree_confirmation(&mut self) -> (execute: bool)
        requires
            old(self).wf(),
        ensures
            tree_submitted(*old(self), *final(self), execute),
            final(self).wf(),
    {
        let verdict = match self.tree_submit_verdict() {
            Some(verdict) => verdict,
            None => {
                return false;
            },
        };
        let ghost meant = verdict;
        assert(match self.modal {
            Modal::ConfirmTreeKill(confirmation) => submit_means(confirmation, meant),
            _ => false,
        });
        match verdict {
            TreeSubmitVerdict::Execute => self.begin_tree_kill(),
            TreeSubmitVerdict::AdvanceToWord => {
                if let Modal::ConfirmTreeKill(confirmation) = &mut self.modal {
                    confirmation.stage = TreeConfirmStage::Word;
                    confirmation.input = String::new();
                    confirmation.error = None;
                    assert(utf8_len(confirmation.input@) == 0);
                }
                false
            },
            TreeSubmitVerdict::Reject(message) => {
                if let Modal::ConfirmTreeKill(confirmation) = &mut self.modal {
                    confirmation.error = Some(message);
                }
                false
            },
        }
    }
}

/// What a confirmed tree kill is allowed to do.
pub open spec fn authorization_of(target: KillTarget) -> ScopeAuthorization {
    if target.protected {
        ScopeAuthorization::ProtectedRootAndWordConfirmed
    } else {
        ScopeAuthorization::TypedWordConfirmed
    }
}

/// What a fresh process table means for a root that was found again.
pub open spec fn table_tree_judged(
    root: KillTarget,
    taken: Result<Vec<TreeProcessInfo>, String>,
    names: Seq<String>,
    authorization: ScopeAuthorization,
    host: HostFacts,
    r: Result<(), TreeKillOutcome>,
) -> bool {
    match taken {
        Err(error) => r == Err::<(), TreeKillOutcome>(TreeKillOutcome::SnapshotFailed(error)),
        Ok(infos) => exists|planned: Result<ProcessTreeTarget, TreePlanError>| #[trigger]
            tree_planned(root.pid, infos@, names, root.platform, MAX_TREE_PROCESSES, planned)
                && match planned {
                Err(error) => r is Err && plan_refused(error, r->Err_0),
                Ok(preview) => tree_gates(root, preview, authorization, host, r),
            },
    }
}

/// Hold a fresh process table to the gates of a tree kill.
pub fn judge_table_tree(
    root: &KillTarget,
    taken: Result<Vec<TreeProcessInfo>, String>,
    names: &Vec<String>,
    authorization: ScopeAuthorization,
    host: HostFacts,
) -> (r: Result<(), TreeKillOutcome>)
    ensures
        table_tree_judged(*root, taken, names@, authorization, host, r),
{
    let infos = match taken {
        Ok(infos) => infos,
        Err(error) => {
            return Err(TreeKillOutcome::SnapshotFailed(error));
        },
    };
    let planned = plan_process_tree(
        root.pid,
        &infos,
        names.as_slice(),
        root.platform,
        MAX_TREE_PROCESSES,
    );
    let ghost plan = planned;
    assert(tree_planned(root.pid, infos@, names@, root.platform, MAX_TREE_PROCESSES, plan));
    match planned {
        Ok(preview) => hold_tree(root, &preview, authorization, host),
        Err(error) => Err(plan_error_outcome(error)),
    }
}

/// A tree outcome was told; where the root is gone, a refresh follows.
pub open spec fn tree_refused(
    before: App,
    target: KillTarget,
    mode: KillMode,
    outcome: TreeKillOutcome,
    after: App,
    start: bool,
) -> bool {
    let text = tree_outcome_text(target, mode, outcome);
    if outcome is RootAlreadyExited {
        told_and_refreshed(before, text, after, start)
    } else {
        !start && status_told(before, text, after)
    }
}

/// A root may be handed to the kill: from `before` to `now` the confirmed process was held
/// on to and found again as this one, and a fresh process table let its tree through.
pub open spec fn table_tree_cleared<H>(
    names: Seq<String>,
    confirmed: KillTarget,
    host: HostFacts,
    before: Seq<Operation<H>>,
    now: Seq<Operation<H>>,
    fresh: KillTarget,
) -> bool {
    exists|
        pinned: Result<(), TreeKillOutcome>,
        looked: Seq<Operation<H>>,
        taken: Result<Vec<TreeProcessInfo>, String>,
        gates: Result<(), TreeKillOutcome>,
    |
        {
            &&& pinned is Ok
            &&& #[trigger] table_revalidated(
                names,
                confirmed,
                before.push(Operation::Pinned(confirmed.pid, pinned)),
                looked,
                Ok(fresh),
            )
            &&& now == looked.push(
                Operation::Table(TreeSnapshotScope::Tree { root_pid: fresh.pid }, taken),
            )
            &&& #[trigger] table_tree_judged(
                fresh,
                taken,
                names,
                authorization_of(confirmed),
                host,
                gates,
            )
            &&& gates is Ok
        }
}

/// The gates were held, and the kill run where they let the tree through.
pub open spec fn table_tree_gated<H>(
    app: App,
    confirmed: KillTarget,
    fresh: KillTarget,
    mode: KillMode,
    host: HostFacts,
    before: Seq<Operation<H>>,
    after: Seq<Operation<H>>,
    app_then: App,
    start: bool,
) -> bool {
    exists|taken: Result<Vec<TreeProcessInfo>, String>, gates: Result<(), TreeKillOutcome>|
        #[trigger] table_tree_judged(
            fresh,
            taken,
            app.protected_processes@,
            authorization_of(confirmed),
            host,
            gates,
        ) && table_tree_passed(
            app,
            confirmed,
            fresh,
            mode,
            gates,
            before.push(
                Operation::Table(TreeSnapshotScope::Tree { root_pid: fresh.pid }, taken),
            ),
            after,
            app_then,
            start,
        )
}

/// What the gates led to.
pub open spec fn table_tree_passed<H>(
    app: App,
    confirmed: KillTarget,
    fresh: KillTarget,
    mode: KillMode,
    gates: Result<(), TreeKillOutcome>,
    before: Seq<Operation<H>>,
    after: Seq<Operation<H>>,
    app_then: App,
    start: bool,
) -> bool {
    match gates {
        Err(outcome) => after == before && tree_refused(
            app,
            fresh,
            mode,
            outcome,
            app_then,
            start,
        ),
        Ok(_) => table_tree_ran(
            app,
            fresh,
            mode,
            authorization_of(confirmed),
            before,
            after,
            app_then,
            start,
        ),
    }
}

/// The kill ran once, and its outcome was told.
pub open spec fn table_tree_ran<H>(
    app: App,
    fresh: KillTarget,
    mode: KillMode,
    authorization: ScopeAuthorization,
    before: Seq<Operation<H>>,
    after: Seq<Operation<H>>,
    app_then: App,
    start: bool,
) -> bool {
    exists|outcome: TreeKillOutcome|
        after == before.push(
            Operation::ScopeKilled(
                fresh,
                None::<u32>,
                mode,
                app.protected_processes,
                authorization,
                outcome,
            ),
        ) && told_and_refreshed(
            app,
            #[trigger] tree_outcome_text(fresh, mode, outcome),
            app_then,
            start,
        )
}

/// With the root held, the ports were read and the target looked up again. No context is
/// read where the ports could not be.
pub open spec fn table_tree_looked_again<H>(
    app: App,
    confirmed: KillTarget,
    mode: KillMode,
    host: HostFacts,
    before: Seq<Operation<H>>,
    after: Seq<Operation<H>>,
    app_then: App,
    start: bool,
) -> bool {
    ||| !start && exists|error: CollectorError|
        after == before.push(Operation::KillPorts(Err(error))) && #[trigger] collection_failed(
            app,
            "collecting ports before tree kill failed; no termination was sent: "@,
            error,
            app_then,
        )
    ||| exists|fresh: Result<KillTarget, TerminationOutcome>, middle: Seq<Operation<H>>| #[trigger]
        table_revalidated(app.protected_processes@, confirmed, before, middle, fresh)
            && match fresh {
            Err(outcome) => after == middle && told_and_refreshed(
                app,
                outcome_line(outcome, confirmed, mode),
                app_then,
                start,
            ),
            Ok(fresh) => table_tree_gated(
                app,
                confirmed,
                fresh,
                mode,
                host,
                middle,
                after,
                app_then,
                start,
            ),
        }
}

/// What holding on to the root led to.
pub open spec fn table_tree_pinned<H>(
    closed: App,
    confirmation: TreeKillConfirmation,
    host: HostFacts,
    pinned: Result<(), TreeKillOutcome>,
    before: Seq<Operation<H>>,
    after: Seq<Operation<H>>,
    app_then: App,
    start: bool,
) -> bool {
    match pinned {
        Err(outcome) => after == before && tree_refused(
            closed,
            confirmation.target,
            confirmation.mode,
            outcome,
            app_then,
            start,
        ),
        Ok(_) => table_tree_looked_again(
            closed,
            confirmation.target,
            confirmation.mode,
            host,
            before,
            after,
            app_then,
            start,
        ),
    }
}

/// The whole of a confirmed tree kill, by the operations that it made: wait for facts that
/// are still read, else close the confirmation, hold on to the root, look again, hold the
/// gates, kill, and refresh.
pub open spec fn table_tree_killed<H>(
    app: App,
    host: HostFacts,
    before: Seq<Operation<H>>,
    after: Seq<Operation<H>>,
    app_then: App,
    start: bool,
) -> bool {
    match app.modal {
        Modal::ConfirmTreeKill(confirmation) => if tree_waits(app, confirmation) {
            after == before && !start && tree_begun(app, confirmation, app_then, false)
        } else {
            exists|pinned: Result<(), TreeKillOutcome>| #[trigger]
                table_tree_pinned(
                    App { modal: Modal::Closed, tree_preview_worker: None, ..app },
                    confirmation,
                    host,
                    pinned,
                    before.push(Operation::Pinned(confirmation.target.pid, pinned)),
                    after,
                    app_then,
                    start,
                )
        },
        _ => after == before && !start && app_then == app,
    }
}

impl App {
    /// Tell a refusal of a tree kill. True where a refresh is to be started.
    pub fn apply_tree_pin_refusal(
        &mut self,
        target: &KillTarget,
        mode: KillMode,
        outcome: &TreeKillOutcome,
    ) -> (start: bool)
        requires
            old(self).wf(),
        ensures
            tree_refused(*old(self), *target, mode, *outcome, *final(self), start),
            final(self).wf(),
    {
        let text = tree_kill_status_line(target, mode, outcome);
        let ghost line = text@;
        self.kill_status = Some(text);
        let ghost told = *self;
        assert(status_told(*old(self), line, told));
        match outcome {
            TreeKillOutcome::RootAlreadyExited => self.refresh_after_kill(),
            _ => false,
        }
    }

    fn tell_tree_and_refresh(&mut self, text: String) -> (start: bool)
        requires
            old(self).wf(),
        ensures
            told_and_refreshed(*old(self), text@, *final(self), start),
            final(self).wf(),
    {
        self.kill_status = Some(text);
        let ghost told = *self;
        assert(status_told(*old(self), text@, told));
        self.refresh_after_kill()
    }

    fn hold_gates_and_kill<T: ReadsTable + KillsScope, H>(
        &mut self,
        confirmed: &KillTarget,
        fresh: &KillTarget,
        mode: KillMode,
        host: HostFacts,
        tools: &mut Recorded<T, H>,
    ) -> (start: bool)
        requires
            old(self).wf(),
        ensures
            table_tree_gated(
                *old(self),
                *confirmed,
                *fresh,
                mode,
                host,
                old(tools).log(),
                final(tools).log(),
                *final(self),
                start,
            ),
            final(self).wf(),
    {
        let authorization = if confirmed.protected {
            ScopeAuthorization::ProtectedRootAndWordConfirmed
        } else {
            ScopeAuthorization::TypedWordConfirmed
        };
        let taken = tools.take_snapshot(TreeSnapshotScope::Tree { root_pid: fresh.pid });
        let ghost seen = taken;
        let ghost tabled = tools.log();
        let gates = judge_table_tree(
            fresh,
            taken,
            &self.protected_processes,
            authorization,
            host,
        );
        let ghost held = gates;
        assert(table_tree_judged(
            *fresh,
            seen,
            old(self).protected_processes@,
            authorization_of(*confirmed),
            host,
            held,
        ));
        match gates {
            Ok(unit) => {
                assert(unit == ());
                assert(held == Ok::<(), TreeKillOutcome>(unit));
            },
            Err(outcome) => {
                let start = self.apply_tree_pin_refusal(fresh, mode, &outcome);
                assert(table_tree_passed(
                    *old(self),
                    *confirmed,
                    *fresh,
                    mode,
                    held,
                    tabled,
                    tools.log(),
                    *self,
                    start,
                ));
                return start;
            },
        }
        let outcome = tools.execute(fresh, None, mode, &self.protected_processes, authorization);
        let start = self.tell_tree_and_refresh(tree_kill_status_line(fresh, mode, &outcome));
        assert(told_and_refreshed(
            *old(self),
            tree_outcome_text(*fresh, mode, outcome),
            *self,
            start,
        ));
        assert(table_tree_passed(
            *old(self),
            *confirmed,
            *fresh,
            mode,
            held,
            tabled,
            tools.log(),
            *self,
            start,
        ));
        start
    }

    fn look_again_at_root<T: ReadsContext + ReadsPorts + ReadsTable + KillsScope, H>(
        &mut self,
        confirmed: &KillTarget,
        mode: KillMode,
        host: HostFacts,
        tools: &mut Recorded<T, H>,
    ) -> (start: bool)
        requires
            old(self).wf(),
        ensures
            table_tree_looked_again(
                *old(self),
                *confirmed,
                mode,
                host,
                old(tools).log(),
                final(tools).log(),
                *final(self),
                start,
            ),
            final(self).wf(),
    {
        let ghost before = tools.log();
        let collected = tools.kill_ports();
        let mut rows = match collected {
            Ok(rows) => rows,
            Err(error) => {
                let text = error.message();
                self.latest_error = Some(error.message());
                self.kill_status = Some(
                    "collecting ports before tree kill failed; no termination was sent: ".to_owned().concat(
                        text.as_str(),
                    ),
                );
                assert(collection_failed(
                    *old(self),
                    "collecting ports before tree kill failed; no termination was sent: "@,
                    error,
                    *self,
                ));
                return false;
            },
        };
        let ghost found = rows;
        mark_protected(&mut rows, self.protected_processes.as_slice());
        let context = tools.context(confirmed.pid);
        let looked = revalidate_confirmed_target(confirmed, &rows, Some(&context));
        let ghost judged = looked;
        assert(revalidates(
            *confirmed,
            marked_rows(found@, old(self).protected_processes@),
            Some(&context),
            judged,
        ));
        assert(table_revalidated(
            old(self).protected_processes@,
            *confirmed,
            before,
            tools.log(),
            judged,
        ));
        match looked {
            Ok(fresh) => self.hold_gates_and_kill(confirmed, &fresh, mode, host, tools),
            Err(outcome) => self.tell_tree_and_refresh(
                termination_status_line(confirmed, mode, &outcome),
            ),
        }
    }

    /// Run the confirmed tree kill. True where a refresh is to be started. What the user
    /// was shown does not choose what is killed: every gate is held again, and the kill
    /// runs once at most, only on a root that was held on to and found again as the
    /// confirmed process.
    pub fn execute_tree_kill_confirmation_with<
        T: ReadsContext + ReadsPorts + PinsRoot + ReadsTable + KillsScope,
        H,
    >(&mut self, host: HostFacts, tools: &mut Recorded<T, H>) -> (start: bool)
        requires
            old(self).wf(),
        ensures
            table_tree_killed(
                *old(self),
                host,
                old(tools).log(),
                final(tools).log(),
                *final(self),
                start,
            ),
            final(self).wf(),
    {
        if self.tree_confirmation().is_none() {
            return false;
        }
        if !self.begin_tree_kill() {
            return false;
        }
        let confirmation = match self.take_tree_confirmation() {
            Some(confirmation) => confirmation,
            None => {
                return false;
            },
        };
        self.tree_preview_worker = None;
        let ghost closed = *self;
        let pinned = tools.pin_root(confirmation.target.pid);
        let ghost held = pinned;
        let ghost holding = tools.log();
        match pinned {
            Ok(()) => {},
            Err(outcome) => {
                let start = self.apply_tree_pin_refusal(
                    &confirmation.target,
                    confirmation.mode,
                    &outcome,
                );
                assert(table_tree_pinned(
                    closed,
                    confirmation,
                    host,
                    held,
                    holding,
                    tools.log(),
                    *self,
                    start,
                ));
                return start;
            },
        }
        let start = self.look_again_at_root(&confirmation.target, confirmation.mode, host, tools);
        assert(table_tree_pinned(
            closed,
            confirmation,
            host,
            held,
            holding,
            tools.log(),
            *self,
            start,
        ));
        start
    }
}

/// An enumeration only ever makes the confirmation of a root stricter, and what was
/// typed before its result is seen never counts.
pub proof fn law_preview_never_loosens_a_confirmation(
    before: TreeKillConfirmation,
    preview: ProcessTreeTarget,
    after: TreeKillConfirmation,
)
    requires
        preview_shown(before, preview, after),
    ensures
        before.target.protected ==> after.target.protected,
        preview.root_protected() ==> after.target.protected,
        before.stage == TreeConfirmStage::ProtectedRoot ==> after.stage
            == TreeConfirmStage::ProtectedRoot,
        !before.target.protected && after.target.protected ==> after.stage
            == TreeConfirmStage::ProtectedRoot,
        after.input@.len() == 0,
{
}

/// Enter runs a tree kill only from the last stage, with the tree enumerated and the
/// word typed.
pub proof fn law_tree_kill_needs_the_word(before: App, after: App)
    requires
        tree_submitted(before, after, true),
    ensures
        before.modal matches Modal::ConfirmTreeKill(confirmation) && confirmation.preview is Some
            && confirmation.stage == TreeConfirmStage::Word && trimmed(confirmation.input@)
            == tree_word(confirmation.mode),
{
}

/// A root that passes for a tree kill from the table is the confirmed process, protected
/// only where that was confirmed, and a fresh process table let its tree through.
pub proof fn law_cleared_table_root_is_the_confirmed_one<H>(
    names: Seq<String>,
    confirmed: KillTarget,
    host: HostFacts,
    before: Seq<Operation<H>>,
    now: Seq<Operation<H>>,
    fresh: KillTarget,
)
    requires
        table_tree_cleared(names, confirmed, host, before, now, fresh),
    ensures
        still_matches(confirmed, fresh),
        fresh.protected ==> confirmed.protected,
        now.len() == before.len() + 4,
        now.last() matches Operation::Table(_, Ok(infos)) && exists|preview: ProcessTreeTarget|
            #[trigger] tree_planned(
                fresh.pid,
                infos@,
                names,
                fresh.platform,
                MAX_TREE_PROCESSES,
                Ok(preview),
            ) && preflight_clear(preview, host) && (preview.root_protected()
                ==> confirmed.protected),
{
    let (pinned, looked, taken, gates) = choose|
        pinned: Result<(), TreeKillOutcome>,
        looked: Seq<Operation<H>>,
        taken: Result<Vec<TreeProcessInfo>, String>,
        gates: Result<(), TreeKillOutcome>,
    |
        {
            &&& pinned is Ok
            &&& #[trigger] table_revalidated(
                names,
                confirmed,
                before.push(Operation::Pinned(confirmed.pid, pinned)),
                looked,
                Ok(fresh),
            )
            &&& now == looked.push(
                Operation::Table(TreeSnapshotScope::Tree { root_pid: fresh.pid }, taken),
            )
            &&& #[trigger] table_tree_judged(
                fresh,
                taken,
                names,
                authorization_of(confirmed),
                host,
                gates,
            )
            &&& gates is Ok
        };
    lemma_table_revalidated(
        names,
        confirmed,
        before.push(Operation::Pinned(confirmed.pid, pinned)),
        looked,
        fresh,
    );
    assert(taken is Ok);
}

/// A tree kill from the table kills once at most, as its last operation, and only a root
/// that was held on to, found again and let through by a fresh process table.
pub proof fn law_table_tree_is_killed_once<H>(
    app: App,
    host: HostFacts,
    before: Seq<Operation<H>>,
    after: Seq<Operation<H>>,
    app_then: App,
    start: bool,
)
    requires
        table_tree_killed(app, host, before, after, app_then, start),
    ensures
        no_signal(before, after) || (app.modal matches Modal::ConfirmTreeKill(confirmation)
            && exists|now: Seq<Operation<H>>, fresh: KillTarget, outcome: TreeKillOutcome|
            {
                &&& #[trigger] table_tree_cleared(
                    app.protected_processes@,
                    confirmation.target,
                    host,
                    before,
                    now,
                    fresh,
                )
                &&& no_signal(before, now)
                &&& after == #[trigger] now.push(
                    Operation::ScopeKilled(
                        fresh,
                        None,
                        confirmation.mode,
                        app.protected_processes,
                        authorization_of(confirmation.target),
                        outcome,
                    ),
                )
            }),
{
    if app.modal is ConfirmTreeKill && !tree_waits(app, app.modal->ConfirmTreeKill_0) {
        let confirmation = app.modal->ConfirmTreeKill_0;
        let target = confirmation.target;
        let mode = confirmation.mode;
        let closed = App { modal: Modal::Closed, tree_preview_worker: None, ..app };
        let pinned = choose|pinned: Result<(), TreeKillOutcome>| #[trigger]
            table_tree_pinned(
                closed,
                confirmation,
                host,
                pinned,
                before.push(Operation::Pinned(target.pid, pinned)),
                after,
                app_then,
                start,
            );
        let held = before.push(Operation::Pinned(target.pid, pinned));
        assert(no_signal(before, held));
        if pinned is Ok && !no_signal(held, after) {
            let (looked, middle) = choose|
                looked: Result<KillTarget, TerminationOutcome>,
                middle: Seq<Operation<H>>,
            | #[trigger]
                table_revalidated(app.protected_processes@, target, held, middle, looked)
                    && match looked {
                    Err(outcome) => after == middle && told_and_refreshed(
                        closed,
                        outcome_line(outcome, target, mode),
                        app_then,
                        start,
                    ),
                    Ok(fresh) => table_tree_gated(
                        closed,
                        target,
                        fresh,
                        mode,
                        host,
                        middle,
                        after,
                        app_then,
                        start,
                    ),
                };
            assert(no_signal(held, middle));
            let fresh = looked->Ok_0;
            let (taken, gates) = choose|
                taken: Result<Vec<TreeProcessInfo>, String>,
                gates: Result<(), TreeKillOutcome>,
            | #[trigger]
                table_tree_judged(
                    fresh,
                    taken,
                    app.protected_processes@,
                    authorization_of(target),
                    host,
                    gates,
                ) && table_tree_passed(
                    closed,
                    target,
                    fresh,
                    mode,
                    gates,
                    middle.push(
                        Operation::Table(TreeSnapshotScope::Tree { root_pid: fresh.pid }, taken),
                    ),
                    after,
                    app_then,
                    start,
                );
            let now = middle.push(
                Operation::Table(TreeSnapshotScope::Tree { root_pid: fresh.pid }, taken),
            );
            assert(no_signal(middle, now));
            lemma_no_signal_joins(held, middle, now);
            lemma_no_signal_joins(before, held, now);
            assert(gates is Ok);
            assert(table_revalidated(app.protected_processes@, target, held, middle, Ok(fresh)));
            assert(table_tree_cleared(
                app.protected_processes@,
                target,
                host,
                before,
                now,
                fresh,
            ));
        } else if no_signal(held, after) {
            lemma_no_signal_joins(before, held, after);
        }
    }
}

} // verus!
