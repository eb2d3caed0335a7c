//! Confirming and running the kill of one process from the table.

use vstd::prelude::*;
use vstd::string::*;
use crate::app_refresh::{context_asked, place};
use crate::app_state::{App, KillConfirmation, Modal};
use crate::ports::PortEntry;
use crate::process::{
    confirmation_input_matches, confirmation_requirement, confirms, name_text, requirement_of,
    rows_of_pid, unsafe_pid_reason, unsafe_reason, ConfirmationRequirement, HostFacts, KillMode,
    KillTarget, CONFIRMATION_INPUT_MAX_BYTES,
};
use crate::text::{
    char_utf8_len, decimal, decimal_text, lemma_utf8_drop_last, lemma_utf8_push, opt_text,
    pop_char, push_char, sanitize, sanitized, text_len, utf8_len,
};

verus! {

/// A status line was set, and nothing else.
pub open spec fn status_told(before: App, text: Seq<char>, after: App) -> bool {
    &&& after == (App { kill_status: after.kill_status, ..before })
    &&& opt_text(after.kill_status) == Some(text)
}

/// Of a selected row, a kill target is made or a refusal told. Where the context of its
/// process is not there yet, it is asked for.
pub open spec fn target_resolved(
    before: App,
    host: HostFacts,
    after: App,
    target: Option<KillTarget>,
    start: Option<int>,
) -> bool {
    let pid = match before.selected() {
        Some(at) => before.rows@[at].pid,
        None => None,
    };
    if before.selected() is None {
        target is None && start is None && status_told(
            before,
            "no selected process to terminate"@,
            after,
        )
    } else if pid is None {
        target is None && start is None && status_told(
            before,
            "selected row has no PID; cannot terminate"@,
            after,
        )
    } else if unsafe_reason(pid->0, host) is Some {
        target is None && start is None && status_told(
            before,
            "unsafe PID blocked: "@ + unsafe_reason(pid->0, host)->0.text(),
            after,
        )
    } else {
        let own = rows_of_pid(before.rows@, pid->0);
        &&& target is Some
        &&& match before.context_shown() {
            Some(context) => target->0.tells(pid->0, own, Some(&context)) && start is None && after
                == before,
            None => target->0.tells(pid->0, own, None) && context_asked(before, after, start),
        }
    }
}

/// A confirmation as it opens.
pub open spec fn fresh_confirmation(
    confirmation: KillConfirmation,
    target: KillTarget,
    mode: KillMode,
    requirement: ConfirmationRequirement,
) -> bool {
    &&& confirmation.target == target
    &&& confirmation.mode == mode
    &&& confirmation.requirement == requirement
    &&& confirmation.input@.len() == 0
    &&& confirmation.error is None
}

/// A kill was asked for: a confirmation opened, or a refusal was told. The table never
/// skips the confirmation.
pub open spec fn kill_requested(
    before: App,
    mode: KillMode,
    host: HostFacts,
    after: App,
    start: Option<int>,
) -> bool {
    let asked = App { search_mode: false, kill_status: None, ..before };
    exists|resolved: App, target: Option<KillTarget>| #[trigger]
        target_resolved(asked, host, resolved, target, start) && match target {
            None => after == resolved,
            Some(target) => {
                &&& after == (App { modal: after.modal, ..resolved })
                &&& after.modal matches Modal::ConfirmKill(confirmation) && fresh_confirmation(
                    confirmation,
                    target,
                    mode,
                    requirement_of(
                        target.protected,
                        mode,
                        false,
                        before.confirm_force_kill,
                    )->Ok_0->0,
                )
            },
        }
}

/// A confirmation with another error.
pub open spec fn error_told(
    before: KillConfirmation,
    text: Option<Seq<char>>,
    after: KillConfirmation,
) -> bool {
    &&& after == (KillConfirmation { error: after.error, ..before })
    &&& opt_text(after.error) == text
}

/// What is shown while facts about the process are still read.
pub open spec fn waiting_text() -> Seq<char> {
    "still reading process metadata; retry once it finishes"@
}

/// A confirmed kill may start now, or the confirmation says that it has to wait.
pub open spec fn kill_begun(
    before: App,
    confirmation: KillConfirmation,
    after: App,
    execute: bool,
) -> bool {
    &&& execute == !before.loading_for(confirmation.target.pid)
    &&& if execute {
        after == before
    } else {
        &&& after == (App { modal: after.modal, ..before })
        &&& after.modal matches Modal::ConfirmKill(now) && error_told(
            confirmation,
            Some(waiting_text()),
            now,
        )
    }
}

/// The kill was called off.
pub open spec fn kill_cancelled(before: App, after: App) -> bool {
    &&& after == (App {
        context_requested: false,
        modal: Modal::Closed,
        kill_status: after.kill_status,
        ..before
    })
    &&& opt_text(after.kill_status) == Some("kill cancelled"@)
}

/// The text for input that does not fit.
pub open spec fn capped_text() -> Seq<char> {
    "confirmation input is capped at "@ + decimal(CONFIRMATION_INPUT_MAX_BYTES as nat) + " bytes"@
}

/// A character was typed into the confirmation of a kill.
pub open spec fn kill_typed(before: App, ch: char, after: App, execute: bool) -> bool {
    match before.modal {
        Modal::ConfirmKill(confirmation) => if confirmation.requirement
            == ConfirmationRequirement::Yes {
            if ch == 'y' || ch == 'Y' {
                kill_begun(before, confirmation, after, execute)
            } else if ch == 'n' || ch == 'N' {
                !execute && kill_cancelled(before, after)
            } else {
                &&& !execute
                &&& after == (App { modal: after.modal, ..before })
                &&& after.modal matches Modal::ConfirmKill(now) && error_told(
                    confirmation,
                    Some("press y to confirm or Esc to cancel"@),
                    now,
                )
            }
        } else {
            &&& !execute
            &&& after == (App { modal: after.modal, ..before })
            &&& after.modal matches Modal::ConfirmKill(now) && if utf8_len(
                confirmation.input@.push(ch),
            ) > CONFIRMATION_INPUT_MAX_BYTES {
                error_told(confirmation, Some(capped_text()), now)
            } else {
                &&& now == (KillConfirmation { input: now.input, error: None, ..confirmation })
                &&& now.input@ == confirmation.input@.push(ch)
            }
        },
        _ => !execute && after == before,
    }
}

/// A text with its last character taken away.
pub open spec fn shortened(text: Seq<char>) -> Seq<char> {
    if text.len() == 0 {
        text
    } else {
        text.drop_last()
    }
}

/// The last character of a kill's confirmation was taken away.
pub open spec fn kill_erased(before: App, after: App) -> bool {
    match before.modal {
        Modal::ConfirmKill(confirmation) => {
            &&& after == (App { modal: after.modal, ..before })
            &&& after.modal matches Modal::ConfirmKill(now) && now == (KillConfirmation {
                input: now.input,
                error: None,
                ..confirmation
            }) && now.input@ == shortened(confirmation.input@)
        },
        _ => after == before,
    }
}

/// What a confirmation asks for once an answer did not match.
pub open spec fn asked_again_text(confirmation: KillConfirmation) -> Seq<char> {
    match confirmation.requirement {
        ConfirmationRequirement::Yes => "press y to confirm or Esc to cancel"@,
        ConfirmationRequirement::ForceWord => "type force and press Enter to confirm "@
            + confirmation.mode.delivery_text(confirmation.target.platform),
        ConfirmationRequirement::ProtectedProcess => protected_prompt(confirmation.target),
    }
}

/// How a protected process is confirmed.
pub open spec fn protected_prompt(target: KillTarget) -> Seq<char> {
    "type PID "@ + decimal(target.pid as nat) + " or process name "@ + sanitized(name_text(target))
        + " to confirm"@
}

/// Say how a protected process is confirmed.
pub fn protected_prompt_text(target: &KillTarget) -> (r: String)
    ensures
        r@ == protected_prompt(*target),
{
    let mut text = "type PID ".to_owned();
    text.append(decimal_text(target.pid as u128).as_str());
    text.append(" or process name ");
    text.append(sanitize(target.process_name_or_unknown()).as_str());
    text.append(" to confirm");
    text
}

/// An answer was submitted. Only one that confirms starts the kill.
pub open spec fn kill_submitted(before: App, after: App, execute: bool) -> bool {
    match before.modal {
        Modal::ConfirmKill(confirmation) => if confirms(
            confirmation.input@,
            confirmation.target,
            confirmation.requirement,
        ) {
            kill_begun(before, confirmation, after, execute)
        } else {
            &&& !execute
            &&& after == (App { modal: after.modal, ..before })
            &&& after.modal matches Modal::ConfirmKill(now) && error_told(
                confirmation,
                Some(asked_again_text(confirmation)),
                now,
            )
        },
        _ => !execute && after == before,
    }
}

proof fn lemma_row_has_pid(rows: Seq<PortEntry>, at: int, pid: u32)
    requires
        0 <= at < rows.len(),
        rows[at].pid == Some(pid),
    ensures
        rows_of_pid(rows, pid).len() > 0,
    decreases rows.len(),
{
    if at < rows.len() - 1 {
        lemma_row_has_pid(rows.drop_last(), at, pid);
    }
}

/// What the selected row was resolved to, and the row whose context is to be read.
#[derive(Debug)]
pub struct Resolved {
    pub target: Option<KillTarget>,
    pub context: Option<usize>,
}

impl App {
    /// Make a kill target of the selected row, or tell why there is none.
    pub fn resolve_selected_kill_target(&mut self, host: HostFacts) -> (r: Resolved)
        requires
            old(self).wf(),
        ensures
            target_resolved(*old(self), host, *final(self), r.target, place(r.context)),
            r.context is Some ==> r.context->0 < final(self).rows.len(),
            final(self).wf(),
    {
        let at: usize = match self.selected_row_index() {
            Some(at) => at,
            None => {
                self.kill_status = Some("no selected process to terminate".to_owned());
                return Resolved { target: None, context: None };
            },
        };
        let pid: u32 = match self.rows[at].pid {
            Some(pid) => pid,
            None => {
                self.kill_status = Some("selected row has no PID; cannot terminate".to_owned());
                return Resolved { target: None, context: None };
            },
        };
        if let Some(reason) = unsafe_pid_reason(pid, host) {
            self.kill_status = Some("unsafe PID blocked: ".to_owned().concat(reason.message()));
            return Resolved { target: None, context: None };
        }
        proof {
            lemma_row_has_pid(self.rows@, at as int, pid);
        }
        let shown = self.selected_process_context();
        if shown.is_some() {
            let target = self.kill_target_with_optional_context(pid, shown);
            return Resolved { target, context: None };
        }
        let target = self.kill_target_with_optional_context(pid, None);
        let context = self.load_selected_process_context();
        Resolved { target, context }
    }

    /// Ask for the kill of the selected row's process. The row whose context is to be
    /// read, if one is.
    pub fn request_kill(&mut self, mode: KillMode, host: HostFacts) -> (start: Option<usize>)
        requires
            old(self).wf(),
        ensures
            kill_requested(*old(self), mode, host, *final(self), place(start)),
            start is Some ==> start->0 < final(self).rows.len(),
            final(self).wf(),
    {
        self.search_mode = false;
        self.kill_status = None;
        let ghost asked = *self;
        let resolved = self.resolve_selected_kill_target(host);
        let ghost mid = *self;
        let ghost made = resolved.target;
        assert(target_resolved(asked, host, mid, made, place(resolved.context)));
        let target = match resolved.target {
            Some(target) => target,
            None => {
                return resolved.context;
            },
        };
        let requirement = match confirmation_requirement(
            target.protected,
            mode,
            false,
            self.confirm_force_kill,
        ) {
            Ok(Some(requirement)) => requirement,
            _ => ConfirmationRequirement::Yes,
        };
        let confirmation = KillConfirmation::new(target, mode, requirement);
        assert(utf8_len(confirmation.input@) == 0);
        self.modal = Modal::ConfirmKill(confirmation);
        resolved.context
    }

    /// Start a confirmed kill, unless facts about its process are still read.
    pub fn begin_kill(&mut self) -> (execute: bool)
        requires
            old(self).wf(),
        ensures
            match old(self).modal {
                Modal::ConfirmKill(confirmation) => kill_begun(
                    *old(self),
                    confirmation,
                    *final(self),
                    execute,
                ),
                _ => !execute && *final(self) == *old(self),
            },
            final(self).wf(),
    {
        let pid: u32 = match &self.modal {
            Modal::ConfirmKill(confirmation) => confirmation.target.pid,
            _ => {
                return false;
            },
        };
        if !self.process_context_loading_for_pid(pid) {
            return true;
        }
        if let Modal::ConfirmKill(confirmation) = &mut self.modal {
            confirmation.error = Some(
                "still reading process metadata; retry once it finishes".to_owned(),
            );
        }
        false
    }

    /// Type a character into the confirmation of a kill. True where the kill is to run.
    pub fn append_kill_input(&mut self, ch: char) -> (execute: bool)
        requires
            old(self).wf(),
        ensures
            kill_typed(*old(self), ch, *final(self), execute),
            final(self).wf(),
    {
        let requirement = match &self.modal {
            Modal::ConfirmKill(confirmation) => confirmation.requirement,
            _ => {
                return false;
            },
        };
        if requirement == ConfirmationRequirement::Yes {
            if ch == 'y' || ch == 'Y' {
                return self.begin_kill();
            }
            if ch == 'n' || ch == 'N' {
                self.cancel_kill_confirmation();
                return false;
            }
            if let Modal::ConfirmKill(confirmation) = &mut self.modal {
                confirmation.error = Some("press y to confirm or Esc to cancel".to_owned());
            }
            return false;
        }
        if let Modal::ConfirmKill(confirmation) = &mut self.modal {
            proof {
                lemma_utf8_push(confirmation.input@, ch);
            }
            if text_len(confirmation.input.as_str()) + char_utf8_len(ch)
                > CONFIRMATION_INPUT_MAX_BYTES {
                confirmation.error = Some(capped_message());
            } else {
                push_char(&mut confirmation.input, ch);
                confirmation.error = None;
            }
        }
        false
    }

    /// Take the last character of a kill's confirmation away.
    pub fn backspace_kill_input(&mut self)
        requires
            old(self).wf(),
        ensures
            kill_erased(*old(self), *final(self)),
            final(self).wf(),
    {
        if let Modal::ConfirmKill(confirmation) = &mut self.modal {
            proof {
                if confirmation.input@.len() > 0 {
                    lemma_utf8_drop_last(confirmation.input@);
                }
            }
            let _ = pop_char(&mut confirmation.input);
            confirmation.error = None;
        }
    }

    /// Call the kill off.
    pub fn cancel_kill_confirmation(&mut self)
        requires
            old(self).wf(),
        ensures
            kill_cancelled(*old(self), *final(self)),
            final(self).wf(),
    {
        self.context_requested = false;
        self.modal = Modal::Closed;
        self.kill_status = Some("kill cancelled".to_owned());
    }

    /// Submit the answer that was typed. True where the kill is to run.
    pub fn submit_kill_confirmation(&mut self) -> (execute: bool)
        requires
            old(self).wf(),
        ensures
            kill_submitted(*old(self), *final(self), execute),
            final(self).wf(),
    {
        let confirmed: bool = match &self.modal {
            Modal::ConfirmKill(confirmation) => confirmation_input_matches(
                confirmation.input.as_str(),
                &confirmation.target,
                confirmation.requirement,
            ),
            _ => {
                return false;
            },
        };
        if confirmed {
            return self.begin_kill();
        }
        if let Modal::ConfirmKill(confirmation) = &mut self.modal {
            let text = match confirmation.requirement {
                ConfirmationRequirement::Yes => "press y to confirm or Esc to cancel".to_owned(),
                ConfirmationRequirement::ForceWord => {
                    "type force and press Enter to confirm ".to_owned().concat(
                        confirmation.mode.delivery_label(confirmation.target.platform),
                    )
                },
                ConfirmationRequirement::ProtectedProcess => protected_prompt_text(
                    &confirmation.target,
                ),
            };
            confirmation.error = Some(text);
        }
        false
    }
}

/// Say that input does not fit.
pub fn capped_message() -> (r: String)
    ensures
        r@ == capped_text(),
{
    let mut text = "confirmation input is capped at ".to_owned();
    text.append(decimal_text(CONFIRMATION_INPUT_MAX_BYTES as u128).as_str());
    text.append(" bytes");
    text
}

/// A submitted answer that does not confirm never starts a kill; all that changes is the
/// error shown, and what was typed stays.
pub proof fn law_wrong_answer_changes_only_the_error(
    before: App,
    confirmation: KillConfirmation,
    after: App,
    execute: bool,
)
    requires
        before.modal == Modal::ConfirmKill(confirmation),
        !confirms(confirmation.input@, confirmation.target, confirmation.requirement),
        kill_submitted(before, after, execute),
    ensures
        !execute,
        after == (App { modal: after.modal, ..before }),
        after.modal matches Modal::ConfirmKill(now) && now == (KillConfirmation {
            error: now.error,
            ..confirmation
        }) && now.error is Some,
{
}

} // verus!
