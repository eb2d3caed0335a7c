//! How the table takes in what its workers send: observations, contexts and previews.

use vstd::prelude::*;
use vstd::string::*;
use crate::app_execute::{collection_failed, told_and_refreshed};
use crate::app_kill::capped_text;
use crate::app_query::{key_mask, selection_kept, shows, QueryResult};
use crate::app_refresh::{
    attempt_finished, confirmations_updated, context_asked, context_polled, pending_served,
    refresh_asked, refresh_owed, refresh_polled, taken_over, Started,
};
use crate::app_state::{
    App, Modal, Received, RowKey, TreeConfirmStage, TreeKillConfirmation,
};
use crate::app_tree::{
    authorization_of, plan_error_text, preview_applied, preview_polled, preview_shown,
    table_tree_judged, tree_opened, tree_refused, tree_submitted, tree_typed, PreviewRequest,
};
use crate::collector::CollectorError;
use crate::config::{Config, SortMode};
use crate::observation::NetworkSnapshot;
use crate::ports::{PortEntry, ProcessContext};
use crate::process::{trimmed, HostFacts, KillMode, KillTarget};
use crate::scoped::tree_outcome_text;
use crate::text::{decimal, opt_text};
use crate::time::Duration;
use crate::tree::{
    preflight_clear, ProcessTreeTarget, ScopeAuthorization, TreeKillOutcome, TreePlanError,
};

verus! {

/// At most one refresh runs: a new one starts exactly where none is under way, and what is
/// shown stays as it is until it ends.
pub proof fn law_one_refresh_at_a_time(before: App, after: App, start: bool)
    requires
        refresh_asked(before, after, start),
    ensures
        start <==> before.refresh_worker is None,
        after.refresh_worker is Some,
        start ==> !after.refresh_worker->0.stale && after.redraw_needed,
        !start ==> after.refresh_worker == before.refresh_worker,
        after.rows == before.rows,
        after.selected_index == before.selected_index,
        after.modal == before.modal,
        after.kill_status == before.kill_status,
        after.latest_error == before.latest_error,
        after.refresh_after_kill == before.refresh_after_kill,
{
}

/// After a kill nothing that was looked at before it is shown: a refresh that runs is thrown
/// away and another one is owed; where none runs, one starts.
pub proof fn law_refresh_after_a_kill_is_fresh(before: App, after: App, start: bool)
    requires
        refresh_owed(before, after, start),
    ensures
        start <==> before.refresh_worker is None,
        after.refresh_worker is Some,
        before.refresh_worker is Some <==> after.refresh_worker->0.stale,
        before.refresh_worker is Some ==> after.refresh_after_kill,
        before.refresh_worker is None ==> after.refresh_after_kill == before.refresh_after_kill,
        after.rows == before.rows,
        after.kill_status == before.kill_status,
{
}

/// A stale result changes nothing of what is shown. A refresh that was owed starts as soon
/// as the one under way has ended, once.
pub proof fn law_stale_refreshes_are_thrown_away<Q>(
    before: App,
    received: Received<Result<NetworkSnapshot, CollectorError>>,
    now: Duration,
    query: Q,
    after: App,
    started: Started,
) where
    Q: Fn(&Vec<PortEntry>, Option<&Vec<usize>>, &String, SortMode, bool) -> Result<
        QueryResult,
        String,
    >,

    requires
        refresh_polled(before, received, now, query, after, started),
        before.refresh_worker is Some,
        before.refresh_worker->0.stale,
        received is Value || received is Disconnected,
    ensures
        after.rows == before.rows,
        after.network_snapshot == before.network_snapshot,
        after.latest_error == before.latest_error,
        after.last_refresh_attempt == before.last_refresh_attempt,
        started.context is None,
        started.refresh <==> before.refresh_after_kill,
        !after.refresh_after_kill,
        after.refresh_worker is Some <==> before.refresh_after_kill,
{
}

/// Nothing changes while a refresh still runs, or while none does; a worker that broke is
/// reported and gone.
pub proof fn law_polls_wait_for_a_result<Q>(
    before: App,
    received: Received<Result<NetworkSnapshot, CollectorError>>,
    now: Duration,
    query: Q,
    after: App,
    started: Started,
) where
    Q: Fn(&Vec<PortEntry>, Option<&Vec<usize>>, &String, SortMode, bool) -> Result<
        QueryResult,
        String,
    >,

    requires
        refresh_polled(before, received, now, query, after, started),
    ensures
        before.refresh_worker is None || received is Pending ==> after == before
            && !started.refresh && started.context is None,
        before.refresh_worker is Some && received is Failed ==> after.refresh_worker is None
            && after.worker_failure == Some(received->Failed_0) && after.rows == before.rows
            && !started.refresh && started.context is None,
{
}

/// A refresh that failed leaves the rows, says why and counts as an attempt.
pub proof fn law_failed_refresh_leaves_the_rows<Q>(
    before: App,
    error: CollectorError,
    now: Duration,
    query: Q,
    after: App,
    start: Option<int>,
) where
    Q: Fn(&Vec<PortEntry>, Option<&Vec<usize>>, &String, SortMode, bool) -> Result<
        QueryResult,
        String,
    >,

    requires
        attempt_finished(before, Err(error), now, query, after, start),
    ensures
        after.rows == before.rows,
        after.network_snapshot == before.network_snapshot,
        after.visible_row_indices == before.visible_row_indices,
        after.selected_index == before.selected_index,
        after.last_successful_refresh == before.last_successful_refresh,
        after.last_refresh_attempt == now,
        opt_text(after.latest_error) == Some(error.text()),
        after.redraw_needed,
        start is None,
{
}

/// A refresh that worked either becomes the table, with its time and without an old error,
/// or leaves the rows and says why it does not fit.
pub proof fn law_refresh_becomes_the_table<Q>(
    before: App,
    snapshot: NetworkSnapshot,
    now: Duration,
    query: Q,
    after: App,
    start: Option<int>,
) where
    Q: Fn(&Vec<PortEntry>, Option<&Vec<usize>>, &String, SortMode, bool) -> Result<
        QueryResult,
        String,
    >,

    requires
        attempt_finished(before, Ok(snapshot), now, query, after, start),
    ensures
        after.last_refresh_attempt == now,
        after.redraw_needed,
        after.latest_error is None ==> {
            &&& after.network_snapshot == Some(snapshot)
            &&& after.last_successful_refresh == Some(now)
        },
        after.latest_error is Some ==> {
            &&& after.rows == before.rows
            &&& after.network_snapshot == before.network_snapshot
            &&& after.last_successful_refresh == before.last_successful_refresh
            &&& start is None
        },
        after.filter_text == before.filter_text,
        after.sort_mode == before.sort_mode,
        after.modal == before.modal,
        after.kill_status == before.kill_status,
{
}

/// Taking over an observation forgets what was known of the old rows: their order, and the
/// context that was read or is being read for one of them.
pub proof fn law_new_rows_forget_the_old_ones(
    before: App,
    snapshot: NetworkSnapshot,
    rows: Vec<PortEntry>,
    now: Duration,
    after: App,
)
    requires
        taken_over(before, snapshot, rows, now, after),
    ensures
        after.rows == rows,
        after.network_snapshot == Some(snapshot),
        after.sorted_row_indices is None,
        after.selected_context_key is None,
        after.selected_process_context is None,
        !after.context_requested,
        after.latest_error is None,
        after.last_successful_refresh == Some(now),
        after.context_worker is Some <==> before.context_worker is Some,
        after.context_worker is Some ==> after.context_worker->0.stale
            && after.context_worker->0.key == before.context_worker->0.key,
        after.refresh_worker is Some <==> before.refresh_worker is Some,
        after.refresh_worker is Some ==> after.refresh_worker->0.stale,
        after.filter_text == before.filter_text,
{
}

/// A context is read for the selected row, one at a time, and not again where it is there.
pub proof fn law_one_context_read_at_a_time(before: App, after: App, start: Option<int>)
    requires
        context_asked(before, after, start),
    ensures
        start is Some ==> {
            &&& before.context_worker is None
            &&& start == before.selected()
            &&& after.context_worker is Some
            &&& after.context_worker->0.key == RowKey::of(before.rows@[start->0])
            &&& !after.context_worker->0.stale
            &&& !after.context_requested
        },
        before.selected_context_key == before.key_selected() && before.selected_process_context
            is Some ==> start is None && after.selected_process_context
            == before.selected_process_context,
        start is None ==> after.context_worker == before.context_worker,
        before.context_worker is None && before.selected() is Some && !(before.selected_context_key
            == before.key_selected() && before.selected_process_context is Some) ==> start is Some,
        after.context_requested && !before.context_requested ==> before.context_worker is Some
            && after.selected_process_context is None,
        after.rows == before.rows && after.modal == before.modal,
{
}

/// A context that waited is read as soon as it can be; without a wish nothing starts.
pub proof fn law_waiting_contexts_are_served(before: App, after: App, start: Option<int>)
    requires
        pending_served(before, after, start),
    ensures
        !before.context_requested ==> start is None && after == before,
        start is Some ==> before.context_requested && start == before.selected(),
        before.context_requested && before.context_worker is None && before.selected() is Some
            && before.selected_context_key is None ==> start == before.selected(),
{
}

/// A context that is stale is not shown, nor one of a row that is no longer selected.
pub proof fn law_stale_contexts_are_not_shown(
    before: App,
    received: Received<ProcessContext>,
    after: App,
    start: Option<int>,
)
    requires
        context_polled(before, received, after, start),
        before.context_worker is Some,
        received is Value,
        !before.context_requested,
    ensures
        start is None,
        after.context_worker is None,
        before.context_worker->0.stale ==> after.selected_process_context
            == before.selected_process_context && after.selected_context_key
            == before.selected_context_key && after.modal == before.modal,
        !before.context_worker->0.stale && before.key_selected() == Some(
            before.context_worker->0.key,
        ) ==> after.selected_process_context == Some(received->Value_0)
            && after.selected_context_key == Some(before.context_worker->0.key),
        before.key_selected() != Some(before.context_worker->0.key)
            ==> after.selected_process_context == before.selected_process_context
            && after.selected_context_key == before.selected_context_key,
        after.rows == before.rows,
{
}

/// A poll for a context changes nothing while it is read; a reader that went away is told
/// and one that broke is reported.
pub proof fn law_context_polls_wait(
    before: App,
    received: Received<ProcessContext>,
    after: App,
    start: Option<int>,
)
    requires
        context_polled(before, received, after, start),
    ensures
        before.context_worker is None || received is Pending ==> after == before && start is None,
        before.context_worker is Some && received is Failed ==> after.context_worker is None
            && after.worker_failure == Some(received->Failed_0) && start is None,
        before.context_worker is Some && received is Disconnected && !before.context_requested
            ==> after.context_worker is None && opt_text(after.latest_error) == Some(
            "details worker exited before returning context"@,
        ),
{
}

/// A process that was read again never loses its protection in an open confirmation, and a
/// confirmation of another process is left alone, as is everything but the target.
pub proof fn law_protection_is_never_lost(before: Modal, read: KillTarget, after: Modal)
    requires
        confirmations_updated(before, read, after),
    ensures
        before is ConfirmKill ==> after is ConfirmKill,
        before is ConfirmTreeKill ==> after is ConfirmTreeKill,
        before is ConfirmKill && before->ConfirmKill_0.target.pid != read.pid ==> after == before,
        before is ConfirmTreeKill && before->ConfirmTreeKill_0.target.pid != read.pid ==> after
            == before,
        !(before is ConfirmKill) && !(before is ConfirmTreeKill) ==> after == before,
        before is ConfirmKill && before->ConfirmKill_0.target.pid == read.pid ==> {
            let was = before->ConfirmKill_0;
            let now = after->ConfirmKill_0;
            &&& now.target.protected == (was.target.protected || read.protected)
            &&& now.target.pid == was.target.pid
            &&& now.target.process_start_time_marker == read.process_start_time_marker
            &&& now.target.ports == read.ports
            &&& now.requirement == was.requirement
            &&& now.mode == was.mode
            &&& now.input == was.input
        },
        before is ConfirmTreeKill && before->ConfirmTreeKill_0.target.pid == read.pid ==> {
            let was = before->ConfirmTreeKill_0;
            let now = after->ConfirmTreeKill_0;
            &&& now.target.protected == (was.target.protected || read.protected)
            &&& now.target.pid == was.target.pid
            &&& now.target.process_start_time_marker == read.process_start_time_marker
            &&& now.stage == was.stage
            &&& now.preview == was.preview
            &&& now.mode == was.mode
            &&& now.input == was.input
        },
{
}

/// What is shown of a context is that of the selected row and of no other.
pub proof fn law_shown_context_is_of_the_selected_row(app: App)
    ensures
        app.context_shown() is Some <==> app.selected_process_context is Some
            && app.selected_context_key is Some && app.selected_context_key == app.key_selected(),
        app.context_shown() is Some ==> app.context_shown() == app.selected_process_context,
        app.context_requested ==> app.context_loading(),
        !app.context_requested && app.context_worker is None ==> !app.context_loading(),
        !app.context_requested && app.context_worker is Some && app.selected() is Some ==> (
        app.context_loading() <==> app.context_worker->0.key == RowKey::of(
            app.rows@[app.selected()->0],
        )),
{
}

/// The facts on a process are awaited where they are being read for it, or wished for while
/// one of its rows is selected.
pub proof fn law_awaited_facts(app: App, pid: u32)
    ensures
        app.context_worker is Some && app.context_worker->0.key.pid == Some(pid)
            ==> app.loading_for(pid),
        !app.context_requested && app.loading_for(pid) ==> app.context_worker is Some
            && app.context_worker->0.key.pid == Some(pid),
        app.context_worker is None && app.loading_for(pid) ==> app.context_requested
            && app.selected() is Some && app.rows@[app.selected()->0].pid == Some(pid),
        app.context_requested && app.selected() is Some && app.rows@[app.selected()->0].pid
            == Some(pid) ==> app.loading_for(pid),
{
}

/// Scrolling goes as many rows as asked, up or down, but never above the top; and what was
/// scrolled down can be scrolled up again.
pub proof fn law_scrolling(from: u16, rows: i32)
    ensures
        0 <= App::scrolled(from, rows) <= u16::MAX,
        0 <= from + rows <= u16::MAX ==> App::scrolled(from, rows) == from + rows,
        from + rows < 0 ==> App::scrolled(from, rows) == 0,
        from + rows > u16::MAX ==> App::scrolled(from, rows) == u16::MAX,
        App::scrolled(from, 0) == from,
{
}

/// A table that was just opened shows nothing, asks nothing and runs nothing, and follows the
/// configuration.
pub proof fn law_blank_table(app: App, config: Config, now: Duration)
    requires
        app.blank(config, now),
    ensures
        app.rows@.len() == 0 && app.visible_row_indices@.len() == 0,
        app.selected() is None,
        app.filter_text@.len() == 0 && !app.search_mode,
        app.sort_mode == config.default_sort,
        app.hide_system_processes == config.hide_system_processes,
        app.confirm_force_kill == config.confirm_force_kill,
        app.docker_enrichment == config.docker_enrichment,
        app.protected_processes@ == config.protected_processes@,
        app.refresh_worker is None && app.context_worker is None && app.tree_preview_worker is None,
        !app.refresh_after_kill && !app.context_requested,
        app.last_successful_refresh is None,
        app.last_refresh_attempt == now,
        app.kill_status is None,
{
}

/// The selection is a shown row: the first one that is the row selected before, or else the
/// old place, or the last row where there is no such place any more.
pub proof fn law_selection_after_a_query(
    before: App,
    key: Option<RowKey>,
    fallback: int,
    answer: Result<QueryResult, String>,
    after: App,
)
    requires
        shows(before, key, fallback, answer, after),
        fallback >= 0,
    ensures
        answer is Ok ==> after.visible_row_indices@ == answer->Ok_0.indices@
            && after.filter_error is None,
        answer is Err ==> after.visible_row_indices@.len() == 0 && after.filter_error == Some(
            answer->Err_0,
        ),
        after.selected_index is Some <==> after.visible_row_indices@.len() > 0,
        after.selected_index is Some ==> after.selected_index->0 < after.visible_row_indices@.len(),
        key is None && after.selected_index is Some ==> after.selected_index->0 == if fallback
            < after.visible_row_indices@.len() {
            fallback
        } else {
            after.visible_row_indices@.len() - 1
        },
        after.rows == before.rows,
        after.filter_text == before.filter_text,
        after.sort_mode == before.sort_mode,
        after.modal == before.modal,
{
}

/// Every row is marked exactly where it is the row that is looked for.
pub proof fn law_marked_rows(rows: Seq<PortEntry>, key: RowKey, i: int)
    requires
        0 <= i < rows.len(),
    ensures
        key_mask(rows, key).len() == rows.len(),
        key_mask(rows, key)[i] <==> RowKey::of(rows[i]) == key,
{
}

/// A selection falls back to where it was, as far as there are rows, where its row is gone.
pub proof fn law_lost_selections_fall_back(visible: Seq<usize>, mask: Seq<bool>, fallback: int)
    requires
        forall|i: int|
            0 <= i < visible.len() ==> !((#[trigger] visible[i]) < mask.len()
                && mask[visible[i] as int]),
        fallback >= 0,
    ensures
        visible.len() == 0 <==> selection_kept(visible, Some(mask), fallback) is None,
        0 <= fallback < visible.len() ==> selection_kept(visible, Some(mask), fallback) == Some(
            fallback,
        ),
        visible.len() > 0 && fallback >= visible.len() ==> selection_kept(
            visible,
            Some(mask),
            fallback,
        ) == Some(visible.len() - 1),
{
    lemma_unmarked(visible, mask, 0);
}

proof fn lemma_unmarked(visible: Seq<usize>, mask: Seq<bool>, from: int)
    requires
        forall|i: int|
            0 <= i < visible.len() ==> !((#[trigger] visible[i]) < mask.len()
                && mask[visible[i] as int]),
        from >= 0,
    ensures
        crate::app_query::first_marked(visible, mask, from) is None,
    decreases visible.len() - from,
{
    if from < visible.len() {
        lemma_unmarked(visible, mask, from + 1);
    }
}

/// The table moves by one row at a time and stays within its rows; going down and up again
/// comes back, except at the ends.
pub proof fn law_moves_are_one_row(app: App)
    requires
        app.selected_index is Some,
        app.selected_index->0 < app.visible_row_indices.len(),
    ensures
        app.selected_index->0 + 1 < app.visible_row_indices.len()
            ==> app.moved_down().selected_index->0 == app.selected_index->0 + 1
            && app.moved_down().moved_up() == app,
        app.selected_index->0 > 0 ==> app.moved_up().selected_index->0 == app.selected_index->0 - 1
            && app.moved_up().moved_down() == app,
        app.selected_index->0 == 0 ==> app.moved_up() == app,
        app.selected_index->0 + 1 == app.visible_row_indices.len() ==> app.moved_down() == app,
{
}

/// A preview of a tree reaches only the confirmation that it was made for. Where the tree
/// must not be killed, could not be read or is of another process, the confirmation closes.
pub proof fn law_previews_reach_their_confirmation(
    before: App,
    worker_pid: u32,
    result: Result<ProcessTreeTarget, String>,
    host: HostFacts,
    after: App,
)
    requires
        preview_applied(before, worker_pid, result, host, after),
    ensures
        !(before.modal is ConfirmTreeKill) ==> after == before,
        before.modal is ConfirmTreeKill && (before.modal->ConfirmTreeKill_0.target.pid
            != worker_pid || result is Err || !preflight_clear(result->Ok_0, host)) ==> after.modal
            is Closed && after.kill_status is Some,
        before.modal is ConfirmTreeKill && before.modal->ConfirmTreeKill_0.target.pid == worker_pid
            && result is Ok && preflight_clear(result->Ok_0, host) ==> {
            let was = before.modal->ConfirmTreeKill_0;
            let now = after.modal->ConfirmTreeKill_0;
            &&& after.modal is ConfirmTreeKill
            &&& now.preview == Some(result->Ok_0)
            &&& now.input@.len() == 0
            &&& now.target.protected == (was.target.protected || result->Ok_0.root_protected())
            &&& now.mode == was.mode
            &&& after.kill_status == before.kill_status
        },
        after.rows == before.rows,
{
}

/// A root that turns out protected is confirmed as such first; one that was known as
/// protected, and one that is not, stay where the confirmation was.
pub proof fn law_previews_raise_the_confirmation(
    before: TreeKillConfirmation,
    preview: ProcessTreeTarget,
    after: TreeKillConfirmation,
)
    requires
        preview_shown(before, preview, after),
    ensures
        preview.root_protected() && !before.target.protected ==> after.stage
            == TreeConfirmStage::ProtectedRoot && after.target.protected,
        !preview.root_protected() || before.target.protected ==> after.stage == before.stage,
        before.target.protected ==> after.target.protected,
        after.target.pid == before.target.pid,
        after.target.process_start_time_marker == before.target.process_start_time_marker,
        after.error is None,
{
}

/// The poll for a preview changes nothing while it runs, and ends it otherwise.
pub proof fn law_preview_polls(
    before: App,
    received: Received<Result<ProcessTreeTarget, String>>,
    host: HostFacts,
    after: App,
)
    requires
        preview_polled(before, received, host, after),
    ensures
        before.tree_preview_worker is None || received is Pending ==> after == before,
        before.tree_preview_worker is Some && !(received is Pending) ==> after.tree_preview_worker
            is None,
        before.tree_preview_worker is Some && received is Failed ==> after.worker_failure == Some(
            received->Failed_0,
        ) && after.modal == before.modal,
        before.tree_preview_worker is Some && received is Disconnected && before.modal
            is ConfirmTreeKill ==> after.modal is Closed && after.kill_status is Some,
        after.rows == before.rows,
{
}

/// The confirmation of a tree opens on the selected process, without an answer and without a
/// preview, and the preview that is asked for is of that process. While another preview
/// still runs nothing opens.
pub proof fn law_tree_confirmations_open_empty(
    asked: App,
    mode: KillMode,
    host: HostFacts,
    after: App,
    start: Option<int>,
    preview: Option<PreviewRequest>,
)
    requires
        tree_opened(asked, mode, host, after, start, preview),
    ensures
        asked.tree_preview_worker is Some ==> preview is None && start is None && after.modal
            == asked.modal && opt_text(after.kill_status) == Some(
            "tree preview is still finishing; retry shortly"@,
        ),
        preview is Some ==> {
            let now = after.modal->ConfirmTreeKill_0;
            &&& after.modal is ConfirmTreeKill
            &&& now.preview is None
            &&& now.input@.len() == 0
            &&& now.error is None
            &&& now.mode == mode
            &&& preview->0.root_pid == now.target.pid
            &&& preview->0.platform == now.target.platform
            &&& after.tree_preview_worker is Some
            &&& after.tree_preview_worker->0.root_pid == now.target.pid
            &&& now.stage == TreeConfirmStage::ProtectedRoot <==> now.target.protected
        },
{
}

/// Nothing can be typed before the tree was counted; afterwards a character is added to the
/// answer, as long as there is room.
pub proof fn law_typing_waits_for_the_count(before: App, ch: char, after: App)
    requires
        tree_typed(before, ch, after),
        before.modal is ConfirmTreeKill,
    ensures
        after.modal is ConfirmTreeKill,
        ({
            let was = before.modal->ConfirmTreeKill_0;
            let now = after.modal->ConfirmTreeKill_0;
            &&& was.preview is None ==> now.input == was.input && opt_text(now.error) == Some(
                "still enumerating the process tree; wait for the count before typing"@,
            )
            &&& now.input@ == was.input@ || now.input@ == was.input@.push(ch)
            &&& was.preview is Some && now.input@ != was.input@.push(ch) ==> opt_text(now.error)
                == Some(capped_text())
            &&& now.target == was.target && now.stage == was.stage && now.preview == was.preview
                && now.mode == was.mode
        }),
{
}

/// A tree kill runs only from the last stage, once the tree was counted, the word typed and
/// the facts that are being read have arrived.
pub proof fn law_tree_kill_needs_count_and_word(before: App, after: App, execute: bool)
    requires
        tree_submitted(before, after, execute),
        execute,
    ensures
        before.modal is ConfirmTreeKill,
        before.modal->ConfirmTreeKill_0.preview is Some,
        before.modal->ConfirmTreeKill_0.stage == TreeConfirmStage::Word,
        before.modal->ConfirmTreeKill_0.mode == KillMode::Terminate ==> trimmed(
            before.modal->ConfirmTreeKill_0.input@,
        ) == "tree"@,
        before.modal->ConfirmTreeKill_0.mode == KillMode::Force ==> trimmed(
            before.modal->ConfirmTreeKill_0.input@,
        ) == "force"@,
        before.modal->ConfirmTreeKill_0.target.process_start_time_marker is Some
            || !before.loading_for(before.modal->ConfirmTreeKill_0.target.pid),
        after == before,
{
}

/// Where a tree could not be planned, the user is told of the root that is gone or of the
/// bound that was passed.
pub proof fn law_plan_errors_are_told(root_pid: u32, limit: usize)
    ensures
        plan_error_text(TreePlanError::RootMissing, root_pid) == "root PID "@ + decimal(
            root_pid as nat,
        ) + " is no longer running"@,
        plan_error_text(TreePlanError::SnapshotLimitExceeded { limit }, root_pid)
            == "process snapshot exceeds the bounded "@ + decimal(limit as nat) + "-PID index"@,
{
}

/// Only a protected root was confirmed as one.
pub proof fn law_tree_authorization(target: KillTarget)
    ensures
        authorization_of(target) == ScopeAuthorization::ProtectedRootAndWordConfirmed
            <==> target.protected,
        authorization_of(target) == ScopeAuthorization::TypedWordConfirmed <==> !target.protected,
{
}

/// A process table that could not be read lets no tree through.
pub proof fn law_unread_tables_let_no_tree_through(
    root: KillTarget,
    error: String,
    names: Seq<String>,
    authorization: ScopeAuthorization,
    host: HostFacts,
    r: Result<(), TreeKillOutcome>,
)
    requires
        table_tree_judged(root, Err(error), names, authorization, host, r),
    ensures
        r is Err,
        r->Err_0 == TreeKillOutcome::SnapshotFailed(error),
{
}

/// A refused tree kill is told, and a refresh follows exactly where its root has gone and
/// none is under way.
pub proof fn law_refused_trees_are_told(
    before: App,
    target: KillTarget,
    mode: KillMode,
    outcome: TreeKillOutcome,
    after: App,
    start: bool,
)
    requires
        tree_refused(before, target, mode, outcome, after, start),
    ensures
        after.kill_status is Some,
        start <==> outcome is RootAlreadyExited && before.refresh_worker is None,
        !(outcome is RootAlreadyExited) ==> after.refresh_worker == before.refresh_worker,
        outcome is RootAlreadyExited ==> after.refresh_worker is Some,
        after.rows == before.rows,
        opt_text(after.kill_status) == Some(tree_outcome_text(target, mode, outcome)),
{
}

/// An outcome is told as it is, and the table is refreshed.
pub proof fn law_outcomes_are_told_and_refreshed(
    before: App,
    text: Seq<char>,
    after: App,
    start: bool,
)
    requires
        told_and_refreshed(before, text, after, start),
    ensures
        opt_text(after.kill_status) == Some(text),
        after.refresh_worker is Some,
        start <==> before.refresh_worker is None,
        before.refresh_worker is Some ==> after.refresh_worker->0.stale && after.refresh_after_kill,
        after.rows == before.rows,
        after.modal == before.modal,
{
}

/// Where the ports could not be read, that is told and stays as the latest error; nothing
/// else changes.
pub proof fn law_failed_collections_are_told(
    before: App,
    head: Seq<char>,
    error: CollectorError,
    after: App,
)
    requires
        collection_failed(before, head, error, after),
    ensures
        opt_text(after.latest_error) == Some(error.text()),
        opt_text(after.kill_status) == Some(head + error.text()),
        after.rows == before.rows,
        after.refresh_worker == before.refresh_worker,
        after.modal == before.modal,
{
}

/// A context that cannot be read at once, because another one is under way, is remembered and
/// none is shown meanwhile; one that is under way for the selected row already is awaited.
pub proof fn law_wishes_for_a_context_are_kept(before: App, after: App, start: Option<int>)
    requires
        context_asked(before, after, start),
        before.context_worker is Some,
        before.selected_process_context is None,
    ensures
        start is None,
        Some(before.context_worker->0.key) != before.key_selected()
            || before.context_worker->0.stale ==> after.context_requested
            && after.selected_process_context is None && after.selected_context_key is None,
        Some(before.context_worker->0.key) == before.key_selected()
            && !before.context_worker->0.stale ==> after == before,
{
}

/// The selected row is the one shown at the selected place, and there is none where nothing
/// is selected or the place is beyond the rows that are shown.
pub proof fn law_selected_row(app: App)
    ensures
        app.selected() is Some <==> app.selected_index is Some && app.selected_index->0
            < app.visible_row_indices@.len(),
        app.selected() is Some ==> app.selected()->0
            == app.visible_row_indices@[app.selected_index->0 as int],
        app.key_selected() is Some <==> app.selected() is Some,
        app.selected() is Some ==> app.key_selected() == Some(
            RowKey::of(app.rows@[app.selected()->0]),
        ),
{
}

} // verus!
