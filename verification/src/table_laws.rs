//! What an action at the table leads to, told by the state before and after it.

use vstd::prelude::*;
use vstd::string::*;
use crate::app_actions::{acted, kill_acted, searched, Effects, Execution};
use crate::app_query::QueryResult;
use crate::app_refresh::place;
use crate::app_state::{App, Modal, Received, RefreshWorker, TreeConfirmStage};
use crate::app_tree::{preview_polled, tree_opened, tree_requested};
use crate::config::SortMode;
use crate::input::Action;
use crate::ports::PortEntry;
use crate::process::{
    confirms, name_text, rows_of_pid, trimmed, ConfirmationRequirement, HostFacts, KillMode,
};
use crate::text::{decimal, opt_text, sanitized, utf8_len};
use crate::tree::ProcessTreeTarget;

verus! {

/// One who is asked for a yes ends the process by `y`, or by an answer that says yes and
/// Enter, and by nothing else.
pub proof fn law_only_a_yes_ends_the_process<Q>(
    before: App,
    action: Action,
    host: HostFacts,
    previewed: Received<Result<ProcessTreeTarget, String>>,
    query: Q,
    after: App,
    effects: Effects,
) where
    Q: Fn(&Vec<PortEntry>, Option<&Vec<usize>>, &String, SortMode, bool) -> Result<
        QueryResult,
        String,
    >,

    requires
        acted(before, action, host, previewed, query, after, effects),
        before.modal matches Modal::ConfirmKill(confirmation) && confirmation.requirement
            == ConfirmationRequirement::Yes,
        effects.execute is Some,
    ensures
        effects.execute == Some(Execution::Single),
        action == Action::KillInputAppend('y') || action == Action::KillInputAppend('Y') || (action
            == Action::SubmitKillConfirmation && confirms(
            before.modal->ConfirmKill_0.input@,
            before.modal->ConfirmKill_0.target,
            ConfirmationRequirement::Yes,
        )),
{
    reveal(kill_acted);
}

/// `n` where a yes is asked for calls the kill off: the confirmation closes, that is told,
/// and nothing is run.
pub proof fn law_no_calls_the_kill_off<Q>(
    before: App,
    action: Action,
    host: HostFacts,
    previewed: Received<Result<ProcessTreeTarget, String>>,
    query: Q,
    after: App,
    effects: Effects,
) where
    Q: Fn(&Vec<PortEntry>, Option<&Vec<usize>>, &String, SortMode, bool) -> Result<
        QueryResult,
        String,
    >,

    requires
        acted(before, action, host, previewed, query, after, effects),
        before.modal matches Modal::ConfirmKill(confirmation) && confirmation.requirement
            == ConfirmationRequirement::Yes,
        action == Action::KillInputAppend('n') || action == Action::KillInputAppend('N'),
    ensures
        effects.execute is None && effects.context is None && effects.preview is None
            && !effects.refresh,
        after.modal is Closed,
        opt_text(after.kill_status) == Some("kill cancelled"@),
        !after.context_requested,
        after.rows == before.rows && after.selected_index == before.selected_index,
        after.should_quit == before.should_quit,
{
    reveal(kill_acted);
}

/// `y` where a yes is asked for runs the kill, unless facts about the process are still
/// being read: then the confirmation stays open and says so.
pub proof fn law_yes_runs_the_kill<Q>(
    before: App,
    action: Action,
    host: HostFacts,
    previewed: Received<Result<ProcessTreeTarget, String>>,
    query: Q,
    after: App,
    effects: Effects,
) where
    Q: Fn(&Vec<PortEntry>, Option<&Vec<usize>>, &String, SortMode, bool) -> Result<
        QueryResult,
        String,
    >,

    requires
        acted(before, action, host, previewed, query, after, effects),
        before.modal matches Modal::ConfirmKill(confirmation) && confirmation.requirement
            == ConfirmationRequirement::Yes,
        action == Action::KillInputAppend('y') || action == Action::KillInputAppend('Y'),
        before.context_worker is None,
        !before.context_requested,
    ensures
        effects.execute == Some(Execution::Single),
        after.modal == before.modal,
{
    reveal(kill_acted);
}

/// Any other character where a yes is asked for leaves the confirmation open with what
/// was typed, and says what to press.
pub proof fn law_other_characters_ask_again<Q>(
    before: App,
    action: Action,
    host: HostFacts,
    previewed: Received<Result<ProcessTreeTarget, String>>,
    query: Q,
    after: App,
    effects: Effects,
) where
    Q: Fn(&Vec<PortEntry>, Option<&Vec<usize>>, &String, SortMode, bool) -> Result<
        QueryResult,
        String,
    >,

    requires
        acted(before, action, host, previewed, query, after, effects),
        before.modal matches Modal::ConfirmKill(confirmation) && confirmation.requirement
            == ConfirmationRequirement::Yes,
        action is KillInputAppend,
        action->KillInputAppend_0 != 'y' && action->KillInputAppend_0 != 'Y',
        action->KillInputAppend_0 != 'n' && action->KillInputAppend_0 != 'N',
    ensures
        effects.execute is None,
        after.modal is ConfirmKill,
        after.modal->ConfirmKill_0.target == before.modal->ConfirmKill_0.target,
        after.modal->ConfirmKill_0.input == before.modal->ConfirmKill_0.input,
        opt_text(after.modal->ConfirmKill_0.error) == Some("press y to confirm or Esc to cancel"@),
{
    reveal(kill_acted);
}

/// Where more than a yes is asked for, a character is only typed: it goes behind what was
/// typed, as far as two hundred and fifty-six bytes, and runs nothing.
pub proof fn law_typing_runs_nothing<Q>(
    before: App,
    action: Action,
    host: HostFacts,
    previewed: Received<Result<ProcessTreeTarget, String>>,
    query: Q,
    after: App,
    effects: Effects,
) where
    Q: Fn(&Vec<PortEntry>, Option<&Vec<usize>>, &String, SortMode, bool) -> Result<
        QueryResult,
        String,
    >,

    requires
        acted(before, action, host, previewed, query, after, effects),
        before.modal matches Modal::ConfirmKill(confirmation) && confirmation.requirement
            != ConfirmationRequirement::Yes,
        action is KillInputAppend,
    ensures
        effects.execute is None,
        after.modal is ConfirmKill,
        after.modal->ConfirmKill_0.target == before.modal->ConfirmKill_0.target,
        after.modal->ConfirmKill_0.mode == before.modal->ConfirmKill_0.mode,
        after.modal->ConfirmKill_0.requirement == before.modal->ConfirmKill_0.requirement,
        utf8_len(before.modal->ConfirmKill_0.input@.push(action->KillInputAppend_0)) <= 256
            ==> after.modal->ConfirmKill_0.input@ == before.modal->ConfirmKill_0.input@.push(
            action->KillInputAppend_0,
        ) && after.modal->ConfirmKill_0.error is None,
        utf8_len(before.modal->ConfirmKill_0.input@.push(action->KillInputAppend_0)) > 256
            ==> after.modal->ConfirmKill_0.input == before.modal->ConfirmKill_0.input
            && after.modal->ConfirmKill_0.error is Some,
{
    reveal(kill_acted);
}

/// A kill of one process runs only for a process about which nothing is being read, and its
/// confirmation stays as it is until then.
pub proof fn law_kill_waits_for_its_facts<Q>(
    before: App,
    action: Action,
    host: HostFacts,
    previewed: Received<Result<ProcessTreeTarget, String>>,
    query: Q,
    after: App,
    effects: Effects,
) where
    Q: Fn(&Vec<PortEntry>, Option<&Vec<usize>>, &String, SortMode, bool) -> Result<
        QueryResult,
        String,
    >,

    requires
        acted(before, action, host, previewed, query, after, effects),
        before.modal is ConfirmKill,
        action == Action::SubmitKillConfirmation || action is KillInputAppend,
        before.context_worker matches Some(worker) && worker.key.pid == Some(
            before.modal->ConfirmKill_0.target.pid,
        ),
    ensures
        effects.execute is None,
        after.modal is ConfirmKill ==> after.modal->ConfirmKill_0.target
            == before.modal->ConfirmKill_0.target,
{
    reveal(kill_acted);
}

/// Enter with an answer that confirms runs the kill, where no facts are being read.
pub proof fn law_confirming_answer_runs_the_kill<Q>(
    before: App,
    action: Action,
    host: HostFacts,
    previewed: Received<Result<ProcessTreeTarget, String>>,
    query: Q,
    after: App,
    effects: Effects,
) where
    Q: Fn(&Vec<PortEntry>, Option<&Vec<usize>>, &String, SortMode, bool) -> Result<
        QueryResult,
        String,
    >,

    requires
        acted(before, action, host, previewed, query, after, effects),
        before.modal is ConfirmKill,
        action == Action::SubmitKillConfirmation,
        before.context_worker is None,
        !before.context_requested,
        confirms(
            before.modal->ConfirmKill_0.input@,
            before.modal->ConfirmKill_0.target,
            before.modal->ConfirmKill_0.requirement,
        ),
    ensures
        effects.execute == Some(Execution::Single),
        after.modal == before.modal,
{
    reveal(kill_acted);
}

/// Enter with any other answer runs nothing, keeps what was typed, and says what is missing:
/// the key, the word, or the process.
pub proof fn law_other_answers_are_told<Q>(
    before: App,
    action: Action,
    host: HostFacts,
    previewed: Received<Result<ProcessTreeTarget, String>>,
    query: Q,
    after: App,
    effects: Effects,
) where
    Q: Fn(&Vec<PortEntry>, Option<&Vec<usize>>, &String, SortMode, bool) -> Result<
        QueryResult,
        String,
    >,

    requires
        acted(before, action, host, previewed, query, after, effects),
        before.modal is ConfirmKill,
        action == Action::SubmitKillConfirmation,
        !confirms(
            before.modal->ConfirmKill_0.input@,
            before.modal->ConfirmKill_0.target,
            before.modal->ConfirmKill_0.requirement,
        ),
    ensures
        effects.execute is None,
        after.modal is ConfirmKill,
        after.modal->ConfirmKill_0.target == before.modal->ConfirmKill_0.target,
        after.modal->ConfirmKill_0.input == before.modal->ConfirmKill_0.input,
        after.modal->ConfirmKill_0.error is Some,
        before.modal->ConfirmKill_0.requirement == ConfirmationRequirement::Yes
            ==> after.modal->ConfirmKill_0.error->0@ == "press y to confirm or Esc to cancel"@,
        before.modal->ConfirmKill_0.requirement == ConfirmationRequirement::ForceWord
            ==> "type force and press Enter to confirm "@.is_prefix_of(
            after.modal->ConfirmKill_0.error->0@,
        ),
        before.modal->ConfirmKill_0.requirement == ConfirmationRequirement::ProtectedProcess ==> (
        "type PID "@ + decimal(before.modal->ConfirmKill_0.target.pid as nat)
            + " or process name "@).is_prefix_of(after.modal->ConfirmKill_0.error->0@),
{
    reveal(kill_acted);
    let head = "type force and press Enter to confirm "@;
    let mode = before.modal->ConfirmKill_0.mode;
    let target = before.modal->ConfirmKill_0.target;
    assert(head.is_prefix_of(head + mode.delivery_text(target.platform)));
    let start = "type PID "@ + decimal(target.pid as nat) + " or process name "@;
    let name = sanitized(name_text(target));
    assert(start + name + " to confirm"@ =~= start + (name + " to confirm"@));
    assert(start.is_prefix_of(start + (name + " to confirm"@)));
}

/// Escape calls off whichever kill is asked about: the confirmation closes, that is told,
/// and nothing is run.
pub proof fn law_escape_calls_off<Q>(
    before: App,
    action: Action,
    host: HostFacts,
    previewed: Received<Result<ProcessTreeTarget, String>>,
    query: Q,
    after: App,
    effects: Effects,
) where
    Q: Fn(&Vec<PortEntry>, Option<&Vec<usize>>, &String, SortMode, bool) -> Result<
        QueryResult,
        String,
    >,

    requires
        acted(before, action, host, previewed, query, after, effects),
        action == Action::CancelKill,
    ensures
        effects == (Effects { refresh: false, context: None, preview: None, execute: None }),
        after.modal is Closed,
        !after.context_requested,
        before.modal is ConfirmTreeKill ==> opt_text(after.kill_status) == Some(
            "tree kill cancelled"@,
        ),
        !(before.modal is ConfirmTreeKill) ==> opt_text(after.kill_status) == Some(
            "kill cancelled"@,
        ),
        after.rows == before.rows && after.selected_index == before.selected_index,
        after.tree_preview_worker == before.tree_preview_worker,
{
    reveal(kill_acted);
}

/// Backspace in a confirmation takes back the last character that was typed: typing one and
/// erasing it leaves the answer as it was.
pub proof fn law_backspace_takes_back_a_character<Q>(
    before: App,
    action: Action,
    host: HostFacts,
    previewed: Received<Result<ProcessTreeTarget, String>>,
    query: Q,
    after: App,
    effects: Effects,
    typed: Seq<char>,
    ch: char,
) where
    Q: Fn(&Vec<PortEntry>, Option<&Vec<usize>>, &String, SortMode, bool) -> Result<
        QueryResult,
        String,
    >,

    requires
        acted(before, action, host, previewed, query, after, effects),
        action == Action::KillInputBackspace,
    ensures
        effects.execute is None,
        before.modal is ConfirmKill ==> after.modal is ConfirmKill
            && after.modal->ConfirmKill_0.target == before.modal->ConfirmKill_0.target
            && after.modal->ConfirmKill_0.requirement == before.modal->ConfirmKill_0.requirement
            && after.modal->ConfirmKill_0.error is None,
        before.modal is ConfirmKill && before.modal->ConfirmKill_0.input@ == typed.push(ch)
            ==> after.modal->ConfirmKill_0.input@ == typed,
        before.modal is ConfirmKill && before.modal->ConfirmKill_0.input@.len() == 0
            ==> after.modal->ConfirmKill_0.input@.len() == 0,
        before.modal is ConfirmTreeKill ==> after.modal is ConfirmTreeKill
            && after.modal->ConfirmTreeKill_0.target == before.modal->ConfirmTreeKill_0.target
            && after.modal->ConfirmTreeKill_0.stage == before.modal->ConfirmTreeKill_0.stage
            && after.modal->ConfirmTreeKill_0.preview == before.modal->ConfirmTreeKill_0.preview,
        before.modal is ConfirmTreeKill && before.modal->ConfirmTreeKill_0.preview is Some
            && before.modal->ConfirmTreeKill_0.input@ == typed.push(ch)
            ==> after.modal->ConfirmTreeKill_0.input@ == typed,
{
    reveal(kill_acted);
    assert(typed.push(ch).drop_last() =~= typed);
}

/// The kill of a tree runs on Enter alone, from the last of its questions, once its tree was
/// enumerated, by the word for its kind typed between blanks: `tree` for an ordinary kill and
/// `force` for a forced one.
pub proof fn law_tree_kill_runs_on_its_word<Q>(
    before: App,
    action: Action,
    host: HostFacts,
    previewed: Received<Result<ProcessTreeTarget, String>>,
    query: Q,
    after: App,
    effects: Effects,
) where
    Q: Fn(&Vec<PortEntry>, Option<&Vec<usize>>, &String, SortMode, bool) -> Result<
        QueryResult,
        String,
    >,

    requires
        acted(before, action, host, previewed, query, after, effects),
        before.modal is ConfirmTreeKill,
        effects.execute is Some,
    ensures
        effects.execute == Some(Execution::Tree),
        action == Action::SubmitKillConfirmation,
        before.modal->ConfirmTreeKill_0.preview is Some,
        before.modal->ConfirmTreeKill_0.stage == TreeConfirmStage::Word,
        before.modal->ConfirmTreeKill_0.mode == KillMode::Terminate
            ==> trimmed(before.modal->ConfirmTreeKill_0.input@) == "tree"@,
        before.modal->ConfirmTreeKill_0.mode == KillMode::Force
            ==> trimmed(before.modal->ConfirmTreeKill_0.input@) == "force"@,
        before.modal->ConfirmTreeKill_0.target.process_start_time_marker is Some
            || before.context_worker is None || before.context_worker->0.key.pid != Some(
            before.modal->ConfirmTreeKill_0.target.pid,
        ),
{
    reveal(kill_acted);
}

/// Enter on the word of an enumerated tree runs its kill, where its root is known well enough
/// or no facts are being read.
pub proof fn law_word_runs_the_tree_kill<Q>(
    before: App,
    action: Action,
    host: HostFacts,
    previewed: Received<Result<ProcessTreeTarget, String>>,
    query: Q,
    after: App,
    effects: Effects,
) where
    Q: Fn(&Vec<PortEntry>, Option<&Vec<usize>>, &String, SortMode, bool) -> Result<
        QueryResult,
        String,
    >,

    requires
        acted(before, action, host, previewed, query, after, effects),
        before.modal is ConfirmTreeKill,
        action == Action::SubmitKillConfirmation,
        before.modal->ConfirmTreeKill_0.preview is Some,
        before.modal->ConfirmTreeKill_0.stage == TreeConfirmStage::Word,
        before.modal->ConfirmTreeKill_0.target.process_start_time_marker is Some || (
        before.context_worker is None && !before.context_requested),
        before.modal->ConfirmTreeKill_0.mode == KillMode::Terminate ==> trimmed(
            before.modal->ConfirmTreeKill_0.input@,
        ) == "tree"@,
        before.modal->ConfirmTreeKill_0.mode == KillMode::Force ==> trimmed(
            before.modal->ConfirmTreeKill_0.input@,
        ) == "force"@,
    ensures
        effects.execute == Some(Execution::Tree),
        after.modal == before.modal,
{
    reveal(kill_acted);
}

/// At a protected root Enter only ever leads to the question for the word, and there by the
/// root's PID or name; what was typed for the one does not count for the other.
pub proof fn law_protected_root_is_asked_twice<Q>(
    before: App,
    action: Action,
    host: HostFacts,
    previewed: Received<Result<ProcessTreeTarget, String>>,
    query: Q,
    after: App,
    effects: Effects,
) where
    Q: Fn(&Vec<PortEntry>, Option<&Vec<usize>>, &String, SortMode, bool) -> Result<
        QueryResult,
        String,
    >,

    requires
        acted(before, action, host, previewed, query, after, effects),
        before.modal is ConfirmTreeKill,
        before.modal->ConfirmTreeKill_0.stage == TreeConfirmStage::ProtectedRoot,
        action == Action::SubmitKillConfirmation,
    ensures
        effects.execute is None,
        after.modal is ConfirmTreeKill,
        after.modal->ConfirmTreeKill_0.target == before.modal->ConfirmTreeKill_0.target,
        after.modal->ConfirmTreeKill_0.mode == before.modal->ConfirmTreeKill_0.mode,
        after.modal->ConfirmTreeKill_0.stage == TreeConfirmStage::Word <==> before.modal
            ->ConfirmTreeKill_0.preview is Some && confirms(
            before.modal->ConfirmTreeKill_0.input@,
            before.modal->ConfirmTreeKill_0.target,
            ConfirmationRequirement::ProtectedProcess,
        ),
        after.modal->ConfirmTreeKill_0.stage == TreeConfirmStage::Word
            ==> after.modal->ConfirmTreeKill_0.input@.len() == 0
            && after.modal->ConfirmTreeKill_0.error is None,
        after.modal->ConfirmTreeKill_0.stage == TreeConfirmStage::ProtectedRoot
            ==> after.modal->ConfirmTreeKill_0.input == before.modal->ConfirmTreeKill_0.input
            && after.modal->ConfirmTreeKill_0.error is Some,
{
    reveal(kill_acted);
}

/// Nothing can be typed or confirmed before the tree was enumerated and its count is shown.
pub proof fn law_no_word_before_the_count<Q>(
    before: App,
    action: Action,
    host: HostFacts,
    previewed: Received<Result<ProcessTreeTarget, String>>,
    query: Q,
    after: App,
    effects: Effects,
) where
    Q: Fn(&Vec<PortEntry>, Option<&Vec<usize>>, &String, SortMode, bool) -> Result<
        QueryResult,
        String,
    >,

    requires
        acted(before, action, host, previewed, query, after, effects),
        before.modal is ConfirmTreeKill,
        before.modal->ConfirmTreeKill_0.preview is None,
        action is KillInputAppend || action == Action::SubmitKillConfirmation,
    ensures
        effects == (Effects { refresh: false, context: None, preview: None, execute: None }),
        after.modal is ConfirmTreeKill,
        after.modal->ConfirmTreeKill_0.input == before.modal->ConfirmTreeKill_0.input,
        after.modal->ConfirmTreeKill_0.stage == before.modal->ConfirmTreeKill_0.stage,
        after.modal->ConfirmTreeKill_0.preview is None,
        after.modal->ConfirmTreeKill_0.error is Some,
{
    reveal(kill_acted);
}

/// A character typed about an enumerated tree goes behind what was typed, as far as two
/// hundred and fifty-six bytes, and runs nothing.
pub proof fn law_typing_about_a_tree_runs_nothing<Q>(
    before: App,
    action: Action,
    host: HostFacts,
    previewed: Received<Result<ProcessTreeTarget, String>>,
    query: Q,
    after: App,
    effects: Effects,
) where
    Q: Fn(&Vec<PortEntry>, Option<&Vec<usize>>, &String, SortMode, bool) -> Result<
        QueryResult,
        String,
    >,

    requires
        acted(before, action, host, previewed, query, after, effects),
        before.modal is ConfirmTreeKill,
        before.modal->ConfirmTreeKill_0.preview is Some,
        action is KillInputAppend,
    ensures
        effects == (Effects { refresh: false, context: None, preview: None, execute: None }),
        after.modal is ConfirmTreeKill,
        after.modal->ConfirmTreeKill_0.target == before.modal->ConfirmTreeKill_0.target,
        after.modal->ConfirmTreeKill_0.stage == before.modal->ConfirmTreeKill_0.stage,
        after.modal->ConfirmTreeKill_0.preview == before.modal->ConfirmTreeKill_0.preview,
        utf8_len(before.modal->ConfirmTreeKill_0.input@.push(action->KillInputAppend_0)) <= 256
            ==> after.modal->ConfirmTreeKill_0.input@
            == before.modal->ConfirmTreeKill_0.input@.push(action->KillInputAppend_0)
            && after.modal->ConfirmTreeKill_0.error is None,
        utf8_len(before.modal->ConfirmTreeKill_0.input@.push(action->KillInputAppend_0)) > 256
            ==> after.modal->ConfirmTreeKill_0.input == before.modal->ConfirmTreeKill_0.input
            && after.modal->ConfirmTreeKill_0.error is Some,
{
    reveal(kill_acted);
}

/// An asked-for kill is about the process of the selected row, is of the kind that was asked
/// for, and is never of PID 0, of PID 1 or of this program. It opens a confirmation: by the PID
/// or name of a process that any of its rows shows as protected, else by the word where forced
/// kills are to be confirmed by it, else by a yes.
pub proof fn law_requested_kill_is_of_the_selected_row<Q>(
    before: App,
    action: Action,
    host: HostFacts,
    previewed: Received<Result<ProcessTreeTarget, String>>,
    query: Q,
    after: App,
    effects: Effects,
) where
    Q: Fn(&Vec<PortEntry>, Option<&Vec<usize>>, &String, SortMode, bool) -> Result<
        QueryResult,
        String,
    >,

    requires
        acted(before, action, host, previewed, query, after, effects),
        before.wf(),
        action == Action::RequestTerminate || action == Action::RequestForceKill,
        before.selected_index is Some,
    ensures
        ({
            let row = before.rows@[before.visible_row_indices@[before.selected_index->0 as int]
                as int];
            let refused = row.pid is None || row.pid == Some(0u32) || row.pid == Some(1u32)
                || row.pid == Some(host.own_pid);
            let protected = exists|i: int|
                0 <= i < before.rows.len() && (#[trigger] before.rows@[i]).pid == row.pid
                    && before.rows@[i].protected;
            &&& effects.execute is None && effects.preview is None && !effects.refresh
            &&& refused ==> after.modal == before.modal && after.kill_status is Some
                && effects.context is None
            &&& !refused ==> after.modal is ConfirmKill && after.kill_status is None
            &&& !refused ==> Some(after.modal->ConfirmKill_0.target.pid) == row.pid
            &&& !refused ==> after.modal->ConfirmKill_0.input@.len() == 0
                && after.modal->ConfirmKill_0.error is None
            &&& !refused ==> (after.modal->ConfirmKill_0.mode == KillMode::Force <==> action
                == Action::RequestForceKill)
            &&& !refused ==> after.modal->ConfirmKill_0.target.protected == protected
            &&& !refused ==> after.modal->ConfirmKill_0.requirement == if protected {
                ConfirmationRequirement::ProtectedProcess
            } else if action == Action::RequestForceKill && before.confirm_force_kill {
                ConfirmationRequirement::ForceWord
            } else {
                ConfirmationRequirement::Yes
            }
        }),
{
    reveal(kill_acted);
    let at = before.visible_row_indices@[before.selected_index->0 as int] as int;
    if before.rows@[at].pid is Some {
        lemma_rows_of_pid(before.rows@, before.rows@[at].pid->0);
    }
}

/// Without a selected row a kill that is asked for is refused, and that is told.
pub proof fn law_nothing_selected_nothing_to_end<Q>(
    before: App,
    action: Action,
    host: HostFacts,
    previewed: Received<Result<ProcessTreeTarget, String>>,
    query: Q,
    after: App,
    effects: Effects,
) where
    Q: Fn(&Vec<PortEntry>, Option<&Vec<usize>>, &String, SortMode, bool) -> Result<
        QueryResult,
        String,
    >,

    requires
        acted(before, action, host, previewed, query, after, effects),
        before.wf(),
        before.selected_index is None,
        action == Action::RequestTerminate || action == Action::RequestForceKill,
    ensures
        effects == (Effects { refresh: false, context: None, preview: None, execute: None }),
        after.modal == before.modal,
        opt_text(after.kill_status) == Some("no selected process to terminate"@),
{
    reveal(kill_acted);
}

/// The kill of a tree that is asked for while no tree is being enumerated is about the process
/// of the selected row, is of the kind that was asked for, and starts the enumeration of that
/// process's tree. A protected root is asked about first; every other tree for its word.
pub proof fn law_requested_tree_kill_is_of_the_selected_row<Q>(
    before: App,
    action: Action,
    host: HostFacts,
    previewed: Received<Result<ProcessTreeTarget, String>>,
    query: Q,
    after: App,
    effects: Effects,
) where
    Q: Fn(&Vec<PortEntry>, Option<&Vec<usize>>, &String, SortMode, bool) -> Result<
        QueryResult,
        String,
    >,

    requires
        acted(before, action, host, previewed, query, after, effects),
        before.wf(),
        action == Action::RequestTreeTerminate || action == Action::RequestTreeForceKill,
        before.selected_index is Some,
        before.tree_preview_worker is None,
    ensures
        ({
            let row = before.rows@[before.visible_row_indices@[before.selected_index->0 as int]
                as int];
            let refused = row.pid is None || row.pid == Some(0u32) || row.pid == Some(1u32)
                || row.pid == Some(host.own_pid);
            let protected = exists|i: int|
                0 <= i < before.rows.len() && (#[trigger] before.rows@[i]).pid == row.pid
                    && before.rows@[i].protected;
            &&& effects.execute is None && !effects.refresh
            &&& refused ==> after.modal == before.modal && after.kill_status is Some
                && effects.preview is None && after.tree_preview_worker is None
            &&& !refused ==> after.modal is ConfirmTreeKill && after.kill_status is None
            &&& !refused ==> Some(after.modal->ConfirmTreeKill_0.target.pid) == row.pid
            &&& !refused ==> effects.preview is Some && Some(effects.preview->0.root_pid) == row.pid
            &&& !refused ==> after.tree_preview_worker is Some && Some(
                after.tree_preview_worker->0.root_pid,
            ) == row.pid
            &&& !refused ==> after.modal->ConfirmTreeKill_0.input@.len() == 0
                && after.modal->ConfirmTreeKill_0.preview is None
                && after.modal->ConfirmTreeKill_0.error is None
            &&& !refused ==> (after.modal->ConfirmTreeKill_0.mode == KillMode::Force <==> action
                == Action::RequestTreeForceKill)
            &&& !refused ==> (after.modal->ConfirmTreeKill_0.stage
                == TreeConfirmStage::ProtectedRoot <==> protected)
        }),
{
    reveal(kill_acted);
    let at = before.visible_row_indices@[before.selected_index->0 as int] as int;
    if before.rows@[at].pid is Some {
        lemma_rows_of_pid(before.rows@, before.rows@[at].pid->0);
    }
}

/// While a tree is being enumerated no other one is asked about.
pub proof fn law_one_tree_at_a_time<Q>(
    before: App,
    action: Action,
    host: HostFacts,
    previewed: Received<Result<ProcessTreeTarget, String>>,
    query: Q,
    after: App,
    effects: Effects,
) where
    Q: Fn(&Vec<PortEntry>, Option<&Vec<usize>>, &String, SortMode, bool) -> Result<
        QueryResult,
        String,
    >,

    requires
        acted(before, action, host, previewed, query, after, effects),
        action == Action::RequestTreeTerminate || action == Action::RequestTreeForceKill,
        before.tree_preview_worker is Some,
        previewed is Pending,
    ensures
        effects == (Effects { refresh: false, context: None, preview: None, execute: None }),
        after.modal == before.modal,
        after.tree_preview_worker == before.tree_preview_worker,
        opt_text(after.kill_status) == Some("tree preview is still finishing; retry shortly"@),
{
    reveal(kill_acted);
}

/// Moving goes one shown row down or up and stops at the ends; up undoes down, and down
/// undoes up, wherever there was a row to go to.
pub proof fn law_moves_are_one_row<Q>(
    before: App,
    action: Action,
    host: HostFacts,
    previewed: Received<Result<ProcessTreeTarget, String>>,
    query: Q,
    after: App,
    effects: Effects,
) where
    Q: Fn(&Vec<PortEntry>, Option<&Vec<usize>>, &String, SortMode, bool) -> Result<
        QueryResult,
        String,
    >,

    requires
        acted(before, action, host, previewed, query, after, effects),
        before.wf(),
        action == Action::MoveDown || action == Action::MoveUp,
    ensures
        effects == (Effects { refresh: false, context: None, preview: None, execute: None }),
        after.visible_row_indices == before.visible_row_indices && after.rows == before.rows,
        after.modal == before.modal && after.filter_text == before.filter_text,
        after.selected_index is Some <==> before.selected_index is Some,
        before.selected_index matches Some(at) ==> after.selected_index is Some && ({
            let then = after.selected_index->0 as int;
            let last = before.visible_row_indices.len() - 1;
            &&& action == Action::MoveDown && at < last ==> then == at + 1
            &&& action == Action::MoveDown && at == last ==> then == at
            &&& action == Action::MoveUp && at > 0 ==> then == at - 1
            &&& action == Action::MoveUp && at == 0 ==> then == at
        }),
{
}

/// Quitting is asked for by quitting alone.
pub proof fn law_only_quit_quits<Q>(
    before: App,
    action: Action,
    host: HostFacts,
    previewed: Received<Result<ProcessTreeTarget, String>>,
    query: Q,
    after: App,
    effects: Effects,
) where
    Q: Fn(&Vec<PortEntry>, Option<&Vec<usize>>, &String, SortMode, bool) -> Result<
        QueryResult,
        String,
    >,

    requires
        acted(before, action, host, previewed, query, after, effects),
    ensures
        action == Action::Quit ==> after.should_quit,
        action != Action::Quit ==> after.should_quit == before.should_quit,
{
    let acting = App { redraw_needed: before.redraw_needed || action != Action::Noop, ..before };
    if kill_acted(acting, action, host, previewed, after, effects) {
        lemma_kill_action_keeps(acting, action, host, previewed, after, effects);
    }
    if searched(acting, action, query, after) {
        lemma_search_action_keeps(acting, action, query, after);
    }
}

/// A search or another order never quits, runs or asks for anything, and leaves the rows and
/// what is open as they are.
pub proof fn law_search_changes_only_what_is_shown<Q>(
    before: App,
    action: Action,
    host: HostFacts,
    previewed: Received<Result<ProcessTreeTarget, String>>,
    query: Q,
    after: App,
    effects: Effects,
) where
    Q: Fn(&Vec<PortEntry>, Option<&Vec<usize>>, &String, SortMode, bool) -> Result<
        QueryResult,
        String,
    >,

    requires
        acted(before, action, host, previewed, query, after, effects),
        action == Action::CycleSort || action is SearchAppend || action == Action::SearchBackspace
            || action == Action::CancelSearch || action == Action::StartSearch || action
            == Action::FinishSearch,
    ensures
        effects == (Effects { refresh: false, context: None, preview: None, execute: None }),
        after.should_quit == before.should_quit,
        after.rows == before.rows,
        after.modal == before.modal,
        after.kill_status == before.kill_status,
        after.refresh_worker == before.refresh_worker,
        after.context_worker == before.context_worker,
        after.protected_processes == before.protected_processes,
{
    reveal(searched);
}

/// A search is begun by starting it and ends by finishing or cancelling it. What is typed into
/// it goes behind its text as far as two hundred and fifty-six bytes, Backspace takes the last
/// character back, and cancelling leaves no text. The text stays as it is otherwise.
pub proof fn law_search_text<Q>(
    before: App,
    action: Action,
    host: HostFacts,
    previewed: Received<Result<ProcessTreeTarget, String>>,
    query: Q,
    after: App,
    effects: Effects,
    typed: Seq<char>,
    ch: char,
) where
    Q: Fn(&Vec<PortEntry>, Option<&Vec<usize>>, &String, SortMode, bool) -> Result<
        QueryResult,
        String,
    >,

    requires
        acted(before, action, host, previewed, query, after, effects),
        action == Action::CycleSort || action is SearchAppend || action == Action::SearchBackspace
            || action == Action::CancelSearch || action == Action::StartSearch || action
            == Action::FinishSearch,
    ensures
        action == Action::StartSearch ==> after.search_mode && after.filter_text
            == before.filter_text,
        action == Action::FinishSearch ==> !after.search_mode && after.filter_text
            == before.filter_text,
        action == Action::CancelSearch ==> !after.search_mode && after.filter_text@.len() == 0,
        action == Action::CycleSort || action is SearchAppend || action == Action::SearchBackspace
            ==> after.search_mode == before.search_mode,
        action == Action::CycleSort ==> after.filter_text == before.filter_text,
        action is SearchAppend && before.search_mode && utf8_len(
            before.filter_text@.push(action->SearchAppend_0),
        ) <= 256 ==> after.filter_text@ == before.filter_text@.push(action->SearchAppend_0),
        action is SearchAppend && !(before.search_mode && utf8_len(
            before.filter_text@.push(action->SearchAppend_0),
        ) <= 256) ==> after.filter_text == before.filter_text,
        action == Action::SearchBackspace && before.search_mode && before.filter_text@
            == typed.push(ch) ==> after.filter_text@ == typed,
        action == Action::SearchBackspace && !before.search_mode ==> after.filter_text
            == before.filter_text,
{
    reveal(searched);
    assert(typed.push(ch).drop_last() =~= typed);
}

/// Another order is asked for by asking for it alone, and is never the one that was.
pub proof fn law_order_changes_when_asked<Q>(
    before: App,
    action: Action,
    host: HostFacts,
    previewed: Received<Result<ProcessTreeTarget, String>>,
    query: Q,
    after: App,
    effects: Effects,
) where
    Q: Fn(&Vec<PortEntry>, Option<&Vec<usize>>, &String, SortMode, bool) -> Result<
        QueryResult,
        String,
    >,

    requires
        acted(before, action, host, previewed, query, after, effects),
    ensures
        action == Action::CycleSort ==> after.sort_mode != before.sort_mode,
        action != Action::CycleSort ==> after.sort_mode == before.sort_mode,
{
    let acting = App { redraw_needed: before.redraw_needed || action != Action::Noop, ..before };
    if kill_acted(acting, action, host, previewed, after, effects) {
        lemma_kill_action_keeps(acting, action, host, previewed, after, effects);
    }
    if searched(acting, action, query, after) {
        lemma_search_action_keeps(acting, action, query, after);
    }
}

/// A refresh is started when it is asked for, unless one is under way.
pub proof fn law_one_refresh_at_a_time<Q>(
    before: App,
    action: Action,
    host: HostFacts,
    previewed: Received<Result<ProcessTreeTarget, String>>,
    query: Q,
    after: App,
    effects: Effects,
) where
    Q: Fn(&Vec<PortEntry>, Option<&Vec<usize>>, &String, SortMode, bool) -> Result<
        QueryResult,
        String,
    >,

    requires
        acted(before, action, host, previewed, query, after, effects),
        action == Action::Refresh,
    ensures
        effects.execute is None && effects.context is None && effects.preview is None,
        effects.refresh <==> before.refresh_worker is None,
        effects.refresh ==> after.refresh_worker == Some(RefreshWorker { stale: false }),
        !effects.refresh ==> after.refresh_worker == before.refresh_worker,
        after.rows == before.rows && after.modal == before.modal,
{
}

/// Only asking for a refresh starts one.
pub proof fn law_nothing_else_refreshes<Q>(
    before: App,
    action: Action,
    host: HostFacts,
    previewed: Received<Result<ProcessTreeTarget, String>>,
    query: Q,
    after: App,
    effects: Effects,
) where
    Q: Fn(&Vec<PortEntry>, Option<&Vec<usize>>, &String, SortMode, bool) -> Result<
        QueryResult,
        String,
    >,

    requires
        acted(before, action, host, previewed, query, after, effects),
        action != Action::Refresh,
    ensures
        !effects.refresh,
        after.refresh_worker == before.refresh_worker,
        after.rows == before.rows,
        after.network_snapshot == before.network_snapshot,
{
    let acting = App { redraw_needed: before.redraw_needed || action != Action::Noop, ..before };
    if kill_acted(acting, action, host, previewed, after, effects) {
        lemma_kill_action_keeps(acting, action, host, previewed, after, effects);
    }
    if searched(acting, action, query, after) {
        lemma_search_action_keeps(acting, action, query, after);
    }
}

/// Details open over a selected row and help over everything, both from their top; closing
/// leaves the bare table and forgets a wish for details.
pub proof fn law_details_and_help<Q>(
    before: App,
    action: Action,
    host: HostFacts,
    previewed: Received<Result<ProcessTreeTarget, String>>,
    query: Q,
    after: App,
    effects: Effects,
) where
    Q: Fn(&Vec<PortEntry>, Option<&Vec<usize>>, &String, SortMode, bool) -> Result<
        QueryResult,
        String,
    >,

    requires
        acted(before, action, host, previewed, query, after, effects),
        before.wf(),
        action == Action::OpenDetails || action == Action::OpenHelp || action == Action::CloseModal,
    ensures
        effects.execute is None && effects.preview is None && !effects.refresh,
        action == Action::OpenHelp ==> after.modal is Help && after.modal_scroll == 0,
        action == Action::CloseModal ==> after.modal is Closed && after.modal_scroll == 0
            && !after.context_requested,
        action == Action::OpenDetails && before.selected_index is Some ==> after.modal is Details
            && after.modal_scroll == 0 && !after.search_mode,
        action == Action::OpenDetails && before.selected_index is None ==> after.modal
            == before.modal,
        action != Action::OpenDetails ==> effects.context is None,
        effects.context is Some ==> effects.context->0
            == before.visible_row_indices@[before.selected_index->0 as int],
        action == Action::OpenDetails && before.selected_index is Some && before.context_worker
            is None && before.selected_process_context is None ==> effects.context is Some,
        after.rows == before.rows && after.selected_index == before.selected_index,
        after.kill_status == before.kill_status,
{
}

/// Doing nothing changes nothing, and everything else is drawn again.
pub proof fn law_everything_else_is_drawn<Q>(
    before: App,
    action: Action,
    host: HostFacts,
    previewed: Received<Result<ProcessTreeTarget, String>>,
    query: Q,
    after: App,
    effects: Effects,
) where
    Q: Fn(&Vec<PortEntry>, Option<&Vec<usize>>, &String, SortMode, bool) -> Result<
        QueryResult,
        String,
    >,

    requires
        acted(before, action, host, previewed, query, after, effects),
    ensures
        action == Action::Noop ==> after == before,
        action != Action::Noop ==> after.redraw_needed,
{
    let acting = App { redraw_needed: before.redraw_needed || action != Action::Noop, ..before };
    if kill_acted(acting, action, host, previewed, after, effects) {
        lemma_kill_action_keeps(acting, action, host, previewed, after, effects);
    }
    if searched(acting, action, query, after) {
        lemma_search_action_keeps(acting, action, query, after);
    }
}

/// What an action on a kill leaves alone.
#[verifier::spinoff_prover]
#[verifier::rlimit(50)]
proof fn lemma_kill_action_keeps(
    before: App,
    action: Action,
    host: HostFacts,
    previewed: Received<Result<ProcessTreeTarget, String>>,
    after: App,
    effects: Effects,
)
    requires
        kill_acted(before, action, host, previewed, after, effects),
    ensures
        !effects.refresh,
        after.should_quit == before.should_quit,
        after.sort_mode == before.sort_mode,
        after.refresh_worker == before.refresh_worker,
        after.rows == before.rows,
        after.network_snapshot == before.network_snapshot,
        before.redraw_needed ==> after.redraw_needed,
{
    reveal(kill_acted);
    match action {
        Action::RequestTreeTerminate => {
            lemma_tree_request_keeps(before, KillMode::Terminate, host, previewed, after, effects);
        },
        Action::RequestTreeForceKill => {
            lemma_tree_request_keeps(before, KillMode::Force, host, previewed, after, effects);
        },
        _ => {},
    }
}

#[verifier::spinoff_prover]
#[verifier::rlimit(50)]
proof fn lemma_tree_request_keeps(
    before: App,
    mode: KillMode,
    host: HostFacts,
    previewed: Received<Result<ProcessTreeTarget, String>>,
    after: App,
    effects: Effects,
)
    requires
        tree_requested(
            before,
            mode,
            host,
            previewed,
            after,
            place(effects.context),
            effects.preview,
        ),
    ensures
        after.should_quit == before.should_quit,
        after.sort_mode == before.sort_mode,
        after.refresh_worker == before.refresh_worker,
        after.rows == before.rows,
        after.network_snapshot == before.network_snapshot,
        before.redraw_needed ==> after.redraw_needed,
{
    let asked = App { search_mode: false, kill_status: None, ..before };
    let drained = choose|drained: App| #[trigger]
        preview_polled(asked, previewed, host, drained) && tree_opened(
            drained,
            mode,
            host,
            after,
            place(effects.context),
            effects.preview,
        );
    assert(drained.should_quit == before.should_quit && drained.sort_mode == before.sort_mode
        && drained.refresh_worker == before.refresh_worker && drained.rows == before.rows
        && drained.network_snapshot == before.network_snapshot && (before.redraw_needed
        ==> drained.redraw_needed));
}

/// What an action on the search or the order leaves alone.
#[verifier::spinoff_prover]
proof fn lemma_search_action_keeps<Q>(before: App, action: Action, query: Q, after: App) where
    Q: Fn(&Vec<PortEntry>, Option<&Vec<usize>>, &String, SortMode, bool) -> Result<
        QueryResult,
        String,
    >,

    requires
        searched(before, action, query, after),
    ensures
        after.should_quit == before.should_quit,
        action != Action::CycleSort ==> after.sort_mode == before.sort_mode,
        action == Action::CycleSort ==> after.sort_mode != before.sort_mode,
        after.refresh_worker == before.refresh_worker,
        after.rows == before.rows,
        after.network_snapshot == before.network_snapshot,
        before.redraw_needed ==> after.redraw_needed,
{
    reveal(searched);
}

proof fn lemma_rows_of_pid(rows: Seq<PortEntry>, pid: u32)
    ensures
        (exists|i: int|
            0 <= i < rows_of_pid(rows, pid).len() && (#[trigger] rows_of_pid(rows, pid)[i]).protected)
            <==> exists|i: int|
            0 <= i < rows.len() && (#[trigger] rows[i]).pid == Some(pid) && rows[i].protected,
    decreases rows.len(),
{
    let own = rows_of_pid(rows, pid);
    if rows.len() > 0 {
        let shorter = rows.drop_last();
        let head = rows_of_pid(shorter, pid);
        lemma_rows_of_pid(shorter, pid);
        if exists|i: int| 0 <= i < own.len() && (#[trigger] own[i]).protected {
            let i = choose|i: int| 0 <= i < own.len() && (#[trigger] own[i]).protected;
            if i < head.len() {
                assert(head[i].protected);
                let k = choose|k: int|
                    0 <= k < shorter.len() && (#[trigger] shorter[k]).pid == Some(pid)
                        && shorter[k].protected;
                assert(rows[k].pid == Some(pid) && rows[k].protected);
            } else {
                assert(rows[rows.len() - 1].protected);
            }
        }
        if exists|i: int|
            0 <= i < rows.len() && (#[trigger] rows[i]).pid == Some(pid) && rows[i].protected {
            let i = choose|i: int|
                0 <= i < rows.len() && (#[trigger] rows[i]).pid == Some(pid) && rows[i].protected;
            if i < shorter.len() {
                assert(shorter[i].pid == Some(pid) && shorter[i].protected);
                let k = choose|k: int| 0 <= k < head.len() && (#[trigger] head[k]).protected;
                assert(own[k].protected);
            } else {
                assert(own[own.len() - 1].protected);
            }
        }
    }
}

/// The orders of the table come round after all four, each once.
pub proof fn law_orders_come_round(order: SortMode)
    ensures
        order.following() != order,
        order.following().following() != order,
        order.following().following().following() != order,
        order.following().following().following().following() == order,
        order == SortMode::Port ==> order.following() == SortMode::Pid,
        order == SortMode::Process ==> order.following() == SortMode::Port,
{
}

} // verus!
