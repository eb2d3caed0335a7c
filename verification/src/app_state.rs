//! The state of the interactive table: rows, selection, search and order, and the
//! modal on top. Work on other threads is asked for and reported back; the state holds
//! only which of it is under way.

use vstd::prelude::*;
use vstd::string::*;
use crate::address::IpAddr;
use crate::config::{Config, SortMode};
use crate::input::ModalKind;
use crate::model::{Ipv6Scope, Protocol};
use crate::observation::{NetworkSnapshot, ProcessObservation};
use crate::ports::{PortEntry, ProcessContext};
use crate::process::{
    ConfirmationRequirement, KillMode, KillTarget, CONFIRMATION_INPUT_MAX_BYTES,
};
use crate::text::{opt_str, opt_str_text, opt_text, utf8_len};
use crate::time::Duration;
use crate::tree::{tree_scope_word, tree_word, ProcessTreeTarget};

verus! {

/// The longest search text, in bytes.
pub const FILTER_TEXT_MAX_BYTES: usize = 256;

/// What makes a row the same row in another observation.
#[derive(Debug, Clone, Copy, PartialEq, Eq, Structural)]
pub struct RowKey {
    pub pid: Option<u32>,
    pub protocol: Protocol,
    pub local_addr: IpAddr,
    pub local_port: u16,
    pub ipv6_scope: Option<Ipv6Scope>,
}

impl RowKey {
    pub open spec fn of(row: PortEntry) -> RowKey {
        RowKey {
            pid: row.pid,
            protocol: row.protocol,
            local_addr: row.local_addr,
            local_port: row.local_port,
            ipv6_scope: row.ipv6_scope,
        }
    }

    pub fn from_row(row: &PortEntry) -> (r: RowKey)
        ensures
            r == RowKey::of(*row),
    {
        RowKey {
            pid: row.pid,
            protocol: row.protocol,
            local_addr: row.local_addr,
            local_port: row.local_port,
            ipv6_scope: row.ipv6_scope,
        }
    }
}

/// The order of all rows, for one way of ordering them.
#[derive(Debug)]
pub struct SortedRowIndices {
    pub sort_mode: SortMode,
    pub indices: Vec<usize>,
}

/// A refresh under way. The result of a stale one is thrown away.
#[derive(Debug, Clone, Copy, PartialEq, Eq, Structural)]
pub struct RefreshWorker {
    pub stale: bool,
}

/// A read of a row's process context under way.
#[derive(Debug, Clone, Copy, PartialEq, Eq, Structural)]
pub struct ContextWorker {
    pub key: RowKey,
    pub stale: bool,
}

/// An enumeration of a process tree under way.
#[derive(Debug, Clone, Copy, PartialEq, Eq, Structural)]
pub struct TreePreviewWorker {
    pub root_pid: u32,
}

/// A worker that did not end in an ordinary way.
#[derive(Debug, PartialEq, Eq)]
pub struct WorkerFailure {
    pub worker: String,
    pub message: String,
}

impl WorkerFailure {
    pub fn text(&self) -> (r: String)
        ensures
            r@ == "TUI worker "@ + self.worker@ + " panicked: "@ + self.message@,
    {
        let mut text = "TUI worker ".to_owned();
        text.append(self.worker.as_str());
        text.append(" panicked: ");
        text.append(self.message.as_str());
        text
    }
}

/// What a worker's channel held when it was looked at.
#[derive(Debug)]
pub enum Received<T> {
    /// Nothing yet.
    Pending,
    Value(T),
    /// The worker failed.
    Failed(WorkerFailure),
    /// The worker went away without a word.
    Disconnected,
}

/// The open confirmation of a kill.
#[derive(Debug)]
pub struct KillConfirmation {
    pub target: KillTarget,
    pub mode: KillMode,
    pub requirement: ConfirmationRequirement,
    pub input: String,
    pub error: Option<String>,
}

impl KillConfirmation {
    pub fn new(
        target: KillTarget,
        mode: KillMode,
        requirement: ConfirmationRequirement,
    ) -> (r: KillConfirmation)
        ensures
            r.target == target,
            r.mode == mode,
            r.requirement == requirement,
            r.input@.len() == 0,
            r.error is None,
    {
        KillConfirmation { target, mode, requirement, input: String::new(), error: None }
    }
}

/// Which fact the confirmation of a tree kill asks for. A protected root takes both
/// stages: its PID or name, then the word.
#[derive(Debug, Clone, Copy, PartialEq, Eq, Structural)]
pub enum TreeConfirmStage {
    ProtectedRoot,
    Word,
}

/// The open confirmation of a tree kill. The preview is what the user is shown; what is
/// killed is looked up again.
#[derive(Debug)]
pub struct TreeKillConfirmation {
    pub target: KillTarget,
    pub mode: KillMode,
    pub preview: Option<ProcessTreeTarget>,
    pub stage: TreeConfirmStage,
    pub input: String,
    pub error: Option<String>,
}

impl TreeKillConfirmation {
    /// The stage that a target starts at.
    pub open spec fn first_stage(target: KillTarget) -> TreeConfirmStage {
        if target.protected {
            TreeConfirmStage::ProtectedRoot
        } else {
            TreeConfirmStage::Word
        }
    }

    pub fn new(target: KillTarget, mode: KillMode) -> (r: TreeKillConfirmation)
        ensures
            r.target == target,
            r.mode == mode,
            r.preview is None,
            r.stage == TreeKillConfirmation::first_stage(target),
            r.input@.len() == 0,
            r.error is None,
    {
        let stage = if target.protected {
            TreeConfirmStage::ProtectedRoot
        } else {
            TreeConfirmStage::Word
        };
        TreeKillConfirmation {
            target,
            mode,
            preview: None,
            stage,
            input: String::new(),
            error: None,
        }
    }

    /// The word that this kill asks for.
    pub fn scope_word(&self) -> (r: &'static str)
        ensures
            r@ == tree_word(self.mode),
    {
        tree_scope_word(self.mode)
    }
}

/// The modal over the table, with its state.
#[derive(Debug)]
pub enum Modal {
    Closed,
    Details,
    Help,
    ConfirmKill(KillConfirmation),
    ConfirmTreeKill(TreeKillConfirmation),
}

impl Modal {
    pub open spec fn kind(self) -> ModalKind {
        match self {
            Modal::Closed => ModalKind::Closed,
            Modal::Details => ModalKind::Details,
            Modal::Help => ModalKind::Help,
            Modal::ConfirmKill(_) => ModalKind::ConfirmKill,
            Modal::ConfirmTreeKill(_) => ModalKind::ConfirmTreeKill,
        }
    }

    /// Typed input stays within its bound.
    pub open spec fn bounded(self) -> bool {
        match self {
            Modal::ConfirmKill(confirmation) => utf8_len(confirmation.input@)
                <= CONFIRMATION_INPUT_MAX_BYTES,
            Modal::ConfirmTreeKill(confirmation) => utf8_len(confirmation.input@)
                <= CONFIRMATION_INPUT_MAX_BYTES,
            _ => true,
        }
    }
}

/// The state of the table.
#[derive(Debug)]
pub struct App {
    pub rows: Vec<PortEntry>,
    pub visible_row_indices: Vec<usize>,
    pub sorted_row_indices: Option<SortedRowIndices>,
    pub selected_index: Option<usize>,
    pub filter_text: String,
    pub search_mode: bool,
    pub sort_mode: SortMode,
    pub hide_system_processes: bool,
    pub confirm_force_kill: bool,
    pub docker_enrichment: bool,
    pub protected_processes: Vec<String>,
    pub network_snapshot: Option<NetworkSnapshot>,
    pub selected_context_key: Option<RowKey>,
    pub selected_process_context: Option<ProcessContext>,
    pub context_worker: Option<ContextWorker>,
    pub context_requested: bool,
    pub tree_preview_worker: Option<TreePreviewWorker>,
    pub kill_status: Option<String>,
    pub refresh_worker: Option<RefreshWorker>,
    pub refresh_after_kill: bool,
    pub last_successful_refresh: Option<Duration>,
    pub last_refresh_attempt: Duration,
    pub modal: Modal,
    pub modal_scroll: u16,
    pub latest_error: Option<String>,
    pub worker_failure: Option<WorkerFailure>,
    pub filter_error: Option<String>,
    pub should_quit: bool,
    pub redraw_needed: bool,
}

/// Every index points into a table of `count` rows.
pub open spec fn indices_valid(indices: Seq<usize>, count: nat) -> bool {
    forall|i: int| 0 <= i < indices.len() ==> #[trigger] indices[i] < count
}

impl App {
    /// What every operation keeps: indices point at rows, something is selected exactly
    /// where something is shown, and typed text stays within its bounds.
    pub open spec fn wf(self) -> bool {
        &&& indices_valid(self.visible_row_indices@, self.rows@.len())
        &&& match self.selected_index {
            Some(index) => index < self.visible_row_indices.len(),
            None => self.visible_row_indices.len() == 0,
        }
        &&& self.sorted_row_indices is Some ==> indices_valid(
            self.sorted_row_indices->0.indices@,
            self.rows@.len(),
        )
        &&& utf8_len(self.filter_text@) <= FILTER_TEXT_MAX_BYTES
        &&& self.modal.bounded()
    }

    /// The selected row's place in the table of rows.
    pub open spec fn selected(self) -> Option<int> {
        match self.selected_index {
            Some(index) => if index < self.visible_row_indices.len() {
                Some(self.visible_row_indices@[index as int] as int)
            } else {
                None
            },
            None => None,
        }
    }

    /// The key of the selected row.
    pub open spec fn key_selected(self) -> Option<RowKey> {
        match self.selected() {
            Some(at) => Some(RowKey::of(self.rows@[at])),
            None => None,
        }
    }

    /// The table is empty, under a policy, and nothing was asked of it yet.
    pub open spec fn blank(self, config: Config, now: Duration) -> bool {
        &&& self.rows@.len() == 0
        &&& self.visible_row_indices@.len() == 0
        &&& self.sorted_row_indices is None
        &&& self.selected_index is None
        &&& self.filter_text@.len() == 0
        &&& !self.search_mode
        &&& self.sort_mode == config.default_sort
        &&& self.hide_system_processes == config.hide_system_processes
        &&& self.confirm_force_kill == config.confirm_force_kill
        &&& self.docker_enrichment == config.docker_enrichment
        &&& self.protected_processes@ == config.protected_processes@
        &&& self.network_snapshot is None
        &&& self.selected_context_key is None
        &&& self.selected_process_context is None
        &&& self.context_worker is None
        &&& !self.context_requested
        &&& self.tree_preview_worker is None
        &&& self.kill_status is None
        &&& self.refresh_worker is None
        &&& !self.refresh_after_kill
        &&& self.last_successful_refresh is None
        &&& self.last_refresh_attempt == now
        &&& self.modal == Modal::Closed
        &&& self.modal_scroll == 0
        &&& self.latest_error is None
        &&& self.worker_failure is None
        &&& self.filter_error is None
        &&& !self.should_quit
        &&& self.redraw_needed
    }

    /// An empty table under a policy.
    pub fn empty(config: &Config, now: Duration) -> (r: App)
        ensures
            r.wf(),
            r.blank(*config, now),
    {
        let mut protected_processes: Vec<String> = Vec::new();
        let mut i: usize = 0;
        while i < config.protected_processes.len()
            invariant
                i <= config.protected_processes.len(),
                protected_processes@ == config.protected_processes@.take(i as int),
            decreases config.protected_processes.len() - i,
        {
            let ghost names = config.protected_processes@;
            protected_processes.push(config.protected_processes[i].clone());
            assert(names.take(i + 1) =~= names.take(i as int).push(names[i as int]));
            i = i + 1;
        }
        assert(config.protected_processes@.take(i as int) =~= config.protected_processes@);
        let filter_text = String::new();
        App {
            rows: Vec::new(),
            visible_row_indices: Vec::new(),
            sorted_row_indices: None,
            selected_index: None,
            filter_text,
            search_mode: false,
            sort_mode: config.default_sort,
            hide_system_processes: config.hide_system_processes,
            confirm_force_kill: config.confirm_force_kill,
            docker_enrichment: config.docker_enrichment,
            protected_processes,
            network_snapshot: None,
            selected_context_key: None,
            selected_process_context: None,
            context_worker: None,
            context_requested: false,
            tree_preview_worker: None,
            kill_status: None,
            refresh_worker: None,
            refresh_after_kill: false,
            last_successful_refresh: None,
            last_refresh_attempt: now,
            modal: Modal::Closed,
            modal_scroll: 0,
            latest_error: None,
            worker_failure: None,
            filter_error: None,
            should_quit: false,
            redraw_needed: true,
        }
    }

    pub fn selected_row_index(&self) -> (r: Option<usize>)
        requires
            self.wf(),
        ensures
            match r {
                Some(at) => self.selected() == Some(at as int) && at < self.rows.len(),
                None => self.selected() is None,
            },
    {
        match self.selected_index {
            Some(index) => Some(self.visible_row_indices[index]),
            None => None,
        }
    }

    /// The selected row.
    pub fn selected_row(&self) -> (r: Option<&PortEntry>)
        requires
            self.wf(),
        ensures
            match r {
                Some(row) => self.selected() is Some && *row == self.rows@[self.selected()->0],
                None => self.selected() is None,
            },
    {
        match self.selected_row_index() {
            Some(at) => Some(&self.rows[at]),
            None => None,
        }
    }

    pub fn selected_key(&self) -> (r: Option<RowKey>)
        requires
            self.wf(),
        ensures
            r == self.key_selected(),
    {
        match self.selected_row() {
            Some(row) => Some(RowKey::from_row(row)),
            None => None,
        }
    }

    /// How many rows are shown.
    pub fn visible_row_count(&self) -> (r: usize)
        ensures
            r == self.visible_row_indices.len(),
    {
        self.visible_row_indices.len()
    }

    /// The row shown at a position.
    pub fn visible_row(&self, position: usize) -> (r: Option<&PortEntry>)
        requires
            self.wf(),
        ensures
            r is Some <==> position < self.visible_row_indices.len(),
            r is Some ==> *r->0 == self.rows@[self.visible_row_indices@[position as int] as int],
    {
        if position < self.visible_row_indices.len() {
            Some(&self.rows[self.visible_row_indices[position]])
        } else {
            None
        }
    }

    pub fn total_row_count(&self) -> (r: usize)
        ensures
            r == self.rows.len(),
    {
        self.rows.len()
    }

    /// What the observation says about the selected row's process.
    pub fn selected_process_metadata(&self) -> (r: Option<&ProcessObservation>)
        requires
            self.wf(),
        ensures
            ({
                let known = match self.selected() {
                    Some(at) => match self.rows@[at].process_identity {
                        Some(identity) => match self.network_snapshot {
                            Some(snapshot) => snapshot.processes.row(identity),
                            None => None,
                        },
                        None => None,
                    },
                    None => None,
                };
                match r {
                    Some(facts) => known == Some(*facts),
                    None => known is None,
                }
            }),
    {
        let row = match self.selected_row() {
            Some(row) => row,
            None => {
                return None;
            },
        };
        match row.process_identity {
            Some(identity) => match &self.network_snapshot {
                Some(snapshot) => snapshot.processes.get(identity),
                None => None,
            },
            None => None,
        }
    }

    pub fn request_redraw(&mut self)
        ensures
            *final(self) == (App { redraw_needed: true, ..*old(self) }),
    {
        self.redraw_needed = true;
    }

    /// Whether a redraw was asked for; asking is forgotten.
    pub fn take_redraw_request(&mut self) -> (r: bool)
        ensures
            r == old(self).redraw_needed,
            *final(self) == (App { redraw_needed: false, ..*old(self) }),
    {
        let wanted = self.redraw_needed;
        self.redraw_needed = false;
        wanted
    }

    /// The context of the selected row, where it is the one that was read.
    pub open spec fn context_shown(self) -> Option<ProcessContext> {
        if self.key_selected() is Some && self.selected_context_key == self.key_selected() {
            self.selected_process_context
        } else {
            None
        }
    }

    pub fn selected_process_context(&self) -> (r: Option<&ProcessContext>)
        requires
            self.wf(),
        ensures
            match r {
                Some(context) => self.context_shown() == Some(*context),
                None => self.context_shown() is None,
            },
    {
        let key = self.selected_key();
        if key.is_none() || self.selected_context_key != key {
            return None;
        }
        match &self.selected_process_context {
            Some(context) => Some(context),
            None => None,
        }
    }

    /// The context of the selected row is being read, or will be.
    pub open spec fn context_loading(self) -> bool {
        self.context_requested || (self.context_worker is Some && Some(self.context_worker->0.key)
            == self.key_selected())
    }

    pub fn selected_process_context_loading(&self) -> (r: bool)
        requires
            self.wf(),
        ensures
            r == self.context_loading(),
    {
        let key = self.selected_key();
        self.context_requested || match self.context_worker {
            Some(worker) => Some(worker.key) == key,
            None => false,
        }
    }

    /// The context of a process is being read, or will be.
    pub open spec fn loading_for(self, pid: u32) -> bool {
        ||| self.context_worker is Some && self.context_worker->0.key.pid == Some(pid)
        ||| self.context_requested && self.selected() is Some && self.rows@[self.selected()->0].pid
            == Some(pid)
    }

    pub fn process_context_loading_for_pid(&self, pid: u32) -> (r: bool)
        requires
            self.wf(),
        ensures
            r == self.loading_for(pid),
    {
        let running: bool = match self.context_worker {
            Some(worker) => worker.key.pid == Some(pid),
            None => false,
        };
        if running {
            return true;
        }
        if !self.context_requested {
            return false;
        }
        match self.selected_row() {
            Some(row) => row.pid == Some(pid),
            None => false,
        }
    }

    pub fn kill_confirmation(&self) -> (r: Option<&KillConfirmation>)
        ensures
            match r {
                Some(confirmation) => self.modal == Modal::ConfirmKill(*confirmation),
                None => !(self.modal is ConfirmKill),
            },
    {
        match &self.modal {
            Modal::ConfirmKill(confirmation) => Some(confirmation),
            _ => None,
        }
    }

    pub fn tree_confirmation(&self) -> (r: Option<&TreeKillConfirmation>)
        ensures
            match r {
                Some(confirmation) => self.modal == Modal::ConfirmTreeKill(*confirmation),
                None => !(self.modal is ConfirmTreeKill),
            },
    {
        match &self.modal {
            Modal::ConfirmTreeKill(confirmation) => Some(confirmation),
            _ => None,
        }
    }

    pub fn modal(&self) -> (r: ModalKind)
        ensures
            r == self.modal.kind(),
    {
        match &self.modal {
            Modal::Closed => ModalKind::Closed,
            Modal::Details => ModalKind::Details,
            Modal::Help => ModalKind::Help,
            Modal::ConfirmKill(_) => ModalKind::ConfirmKill,
            Modal::ConfirmTreeKill(_) => ModalKind::ConfirmTreeKill,
        }
    }

    pub fn kill_status(&self) -> (r: Option<&str>)
        ensures
            opt_str_text(r) == opt_text(self.kill_status),
    {
        opt_str(&self.kill_status)
    }

    pub fn latest_error(&self) -> (r: Option<&str>)
        ensures
            opt_str_text(r) == opt_text(self.latest_error),
    {
        opt_str(&self.latest_error)
    }

    pub fn filter_error(&self) -> (r: Option<&str>)
        ensures
            opt_str_text(r) == opt_text(self.filter_error),
    {
        opt_str(&self.filter_error)
    }

    pub fn filter_text(&self) -> (r: &str)
        ensures
            r@ == self.filter_text@,
    {
        self.filter_text.as_str()
    }

    pub fn selected_index(&self) -> (r: Option<usize>)
        ensures
            r == self.selected_index,
    {
        self.selected_index
    }

    pub fn search_mode(&self) -> (r: bool)
        ensures
            r == self.search_mode,
    {
        self.search_mode
    }

    pub fn sort_mode(&self) -> (r: SortMode)
        ensures
            r == self.sort_mode,
    {
        self.sort_mode
    }

    pub fn should_quit(&self) -> (r: bool)
        ensures
            r == self.should_quit,
    {
        self.should_quit
    }

    pub fn modal_scroll(&self) -> (r: u16)
        ensures
            r == self.modal_scroll,
    {
        self.modal_scroll
    }

    /// How far a modal is scrolled after scrolling by some rows: never above the top,
    /// never beyond what can be counted.
    pub open spec fn scrolled(from: u16, rows: i32) -> int {
        if from + rows < 0 {
            0
        } else if from + rows > u16::MAX {
            u16::MAX as int
        } else {
            from + rows
        }
    }

    pub fn scroll_modal_by(&mut self, rows: i32)
        ensures
            *final(self) == (App {
                redraw_needed: true,
                modal_scroll: App::scrolled(old(self).modal_scroll, rows) as u16,
                ..*old(self)
            }),
    {
        self.redraw_needed = true;
        let target: i64 = self.modal_scroll as i64 + rows as i64;
        self.modal_scroll = if target < 0 {
            0
        } else if target > u16::MAX as i64 {
            u16::MAX
        } else {
            target as u16
        };
    }

    pub fn set_modal_scroll(&mut self, rows: u16)
        ensures
            *final(self) == (App {
                redraw_needed: old(self).redraw_needed || old(self).modal_scroll != rows,
                modal_scroll: rows,
                ..*old(self)
            }),
    {
        self.redraw_needed = self.redraw_needed || self.modal_scroll != rows;
        self.modal_scroll = rows;
    }

    /// A worker's failure, handed out once.
    pub fn take_worker_failure(&mut self) -> (r: Option<WorkerFailure>)
        ensures
            r == old(self).worker_failure,
            *final(self) == (App { worker_failure: None, ..*old(self) }),
    {
        self.worker_failure.take()
    }

    /// How long ago the table was last refreshed.
    pub fn refresh_age(&self, now: Duration) -> (r: Option<Duration>)
        ensures
            match self.last_successful_refresh {
                Some(at) => r is Some && r->0.nanos == (if at.nanos <= now.nanos {
                    now.nanos - at.nanos
                } else {
                    0
                }),
                None => r is None,
            },
    {
        match self.last_successful_refresh {
            Some(at) => Some(now.saturating_sub(at)),
            None => None,
        }
    }
}

} // verus!
