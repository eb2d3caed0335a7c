//! Key presses as actions for the interactive table.

use vstd::prelude::*;

verus! {

/// A key of the keyboard, as far as the table knows keys.
#[derive(Debug, Clone, Copy, PartialEq, Eq, Structural)]
pub enum KeyCode {
    Char(char),
    Esc,
    Enter,
    Backspace,
    Up,
    Down,
    Other,
}

/// What happened to the key.
#[derive(Debug, Clone, Copy, PartialEq, Eq, Structural)]
pub enum KeyEventKind {
    Press,
    Repeat,
    Release,
}

/// The modifier keys held down.
#[derive(Debug, Clone, Copy, PartialEq, Eq, Structural)]
pub struct KeyModifiers {
    pub shift: bool,
    pub control: bool,
    pub alt: bool,
}

impl KeyModifiers {
    pub open spec fn unmodified() -> KeyModifiers {
        KeyModifiers { shift: false, control: false, alt: false }
    }

    /// No modifier key.
    pub fn none() -> (r: KeyModifiers)
        ensures
            r == KeyModifiers::unmodified(),
    {
        KeyModifiers { shift: false, control: false, alt: false }
    }
}

/// One key event.
#[derive(Debug, Clone, Copy, PartialEq, Eq, Structural)]
pub struct KeyEvent {
    pub code: KeyCode,
    pub modifiers: KeyModifiers,
    pub kind: KeyEventKind,
}

impl KeyEvent {
    /// A key press.
    pub fn new(code: KeyCode, modifiers: KeyModifiers) -> (r: KeyEvent)
        ensures
            r == (KeyEvent { code, modifiers, kind: KeyEventKind::Press }),
    {
        KeyEvent { code, modifiers, kind: KeyEventKind::Press }
    }

    /// The character that the key types, where neither Control nor Alt is held.
    pub open spec fn typed(self) -> Option<char> {
        match self.code {
            KeyCode::Char(ch) => if self.modifiers.control || self.modifiers.alt {
                None
            } else {
                Some(ch)
            },
            _ => None,
        }
    }

    pub fn typed_char(self) -> (r: Option<char>)
        ensures
            r == self.typed(),
    {
        match self.code {
            KeyCode::Char(ch) => if self.modifiers.control || self.modifiers.alt {
                None
            } else {
                Some(ch)
            },
            _ => None,
        }
    }
}

/// Whichever modal is over the table.
#[derive(Debug, Clone, Copy, PartialEq, Eq, Structural)]
pub enum ModalKind {
    Closed,
    Details,
    Help,
    ConfirmKill,
    ConfirmTreeKill,
}

/// One state transition requested by a key event.
#[derive(Debug, Clone, Copy, PartialEq, Eq, Structural)]
pub enum Action {
    MoveDown,
    MoveUp,
    OpenDetails,
    OpenHelp,
    CloseModal,
    RequestTerminate,
    RequestForceKill,
    RequestTreeTerminate,
    RequestTreeForceKill,
    SubmitKillConfirmation,
    KillInputAppend(char),
    KillInputBackspace,
    CancelKill,
    Refresh,
    StartSearch,
    SearchAppend(char),
    SearchBackspace,
    FinishSearch,
    CancelSearch,
    CycleSort,
    Quit,
    Noop,
}

/// The action of a key while a confirmation is open.
pub open spec fn confirmation_action(key: KeyEvent) -> Action {
    match key.code {
        KeyCode::Esc => Action::CancelKill,
        KeyCode::Enter => Action::SubmitKillConfirmation,
        KeyCode::Backspace => Action::KillInputBackspace,
        _ => match key.typed() {
            Some(ch) => Action::KillInputAppend(ch),
            None => Action::Noop,
        },
    }
}

pub fn kill_confirmation_action_for_key(key: KeyEvent) -> (r: Action)
    ensures
        r == confirmation_action(key),
{
    match key.code {
        KeyCode::Esc => Action::CancelKill,
        KeyCode::Enter => Action::SubmitKillConfirmation,
        KeyCode::Backspace => Action::KillInputBackspace,
        _ => match key.typed_char() {
            Some(ch) => Action::KillInputAppend(ch),
            None => Action::Noop,
        },
    }
}

/// The action of a key while a search is typed.
pub open spec fn search_action(key: KeyEvent) -> Action {
    match key.code {
        KeyCode::Esc => Action::CancelSearch,
        KeyCode::Enter => Action::FinishSearch,
        KeyCode::Backspace => Action::SearchBackspace,
        _ => match key.typed() {
            Some(ch) => Action::SearchAppend(ch),
            None => Action::Noop,
        },
    }
}

pub fn search_action_for_key(key: KeyEvent) -> (r: Action)
    ensures
        r == search_action(key),
{
    match key.code {
        KeyCode::Esc => Action::CancelSearch,
        KeyCode::Enter => Action::FinishSearch,
        KeyCode::Backspace => Action::SearchBackspace,
        _ => match key.typed_char() {
            Some(ch) => Action::SearchAppend(ch),
            None => Action::Noop,
        },
    }
}

/// Whether the table can end process trees on the platform it runs on.
#[derive(Debug, Clone, Copy, PartialEq, Eq, Structural)]
pub struct TreeSupport {
    pub available: bool,
}

/// The action of a key that asks for a kill. A kill is forced by Shift alone: an upper
/// case letter from Caps Lock asks for an ordinary one.
pub open spec fn kill_key_action(key: KeyEvent, tree: TreeSupport) -> Option<Action> {
    match key.typed() {
        Some(ch) => if ch == 'x' || ch == 'X' {
            Some(
                if key.modifiers.shift {
                    Action::RequestForceKill
                } else {
                    Action::RequestTerminate
                },
            )
        } else if tree.available && (ch == 't' || ch == 'T') {
            Some(
                if key.modifiers.shift {
                    Action::RequestTreeForceKill
                } else {
                    Action::RequestTreeTerminate
                },
            )
        } else {
            None
        },
        None => None,
    }
}

fn kill_key(key: KeyEvent, tree: TreeSupport) -> (r: Option<Action>)
    ensures
        r == kill_key_action(key, tree),
{
    match key.typed_char() {
        Some(ch) => if ch == 'x' || ch == 'X' {
            if key.modifiers.shift {
                Some(Action::RequestForceKill)
            } else {
                Some(Action::RequestTerminate)
            }
        } else if tree.available && (ch == 't' || ch == 'T') {
            if key.modifiers.shift {
                Some(Action::RequestTreeForceKill)
            } else {
                Some(Action::RequestTreeTerminate)
            }
        } else {
            None
        },
        None => None,
    }
}

/// The action of a key over the bare table.
pub open spec fn table_action(key: KeyEvent, tree: TreeSupport) -> Action {
    match key.code {
        KeyCode::Char('r') => Action::Refresh,
        KeyCode::Char('/') => Action::StartSearch,
        KeyCode::Char('s') => Action::CycleSort,
        KeyCode::Char('j') => Action::MoveDown,
        KeyCode::Char('k') => Action::MoveUp,
        KeyCode::Down => Action::MoveDown,
        KeyCode::Up => Action::MoveUp,
        KeyCode::Enter => Action::OpenDetails,
        _ => match kill_key_action(key, tree) {
            Some(action) => action,
            None => Action::Noop,
        },
    }
}

fn table_key(key: KeyEvent, tree: TreeSupport) -> (r: Action)
    ensures
        r == table_action(key, tree),
{
    match key.code {
        KeyCode::Char('r') => Action::Refresh,
        KeyCode::Char('/') => Action::StartSearch,
        KeyCode::Char('s') => Action::CycleSort,
        KeyCode::Char('j') => Action::MoveDown,
        KeyCode::Char('k') => Action::MoveUp,
        KeyCode::Down => Action::MoveDown,
        KeyCode::Up => Action::MoveUp,
        KeyCode::Enter => Action::OpenDetails,
        _ => match kill_key(key, tree) {
            Some(action) => action,
            None => Action::Noop,
        },
    }
}

/// The action of a key event. Only presses act. Control and `c` always quit. A
/// confirmation takes every key; then a search that is typed does. Escape closes a
/// modal, then clears a filter, then quits.
pub open spec fn key_action(
    key: KeyEvent,
    modal: ModalKind,
    search_mode: bool,
    filter_active: bool,
    tree: TreeSupport,
) -> Action {
    if key.kind != KeyEventKind::Press {
        Action::Noop
    } else if key.code == KeyCode::Char('c') && key.modifiers.control {
        Action::Quit
    } else if modal == ModalKind::ConfirmKill || modal == ModalKind::ConfirmTreeKill {
        confirmation_action(key)
    } else if search_mode {
        search_action(key)
    } else {
        match key.code {
            KeyCode::Esc => if modal != ModalKind::Closed {
                Action::CloseModal
            } else if filter_active {
                Action::CancelSearch
            } else {
                Action::Quit
            },
            KeyCode::Char('q') => Action::Quit,
            KeyCode::Char('?') => Action::OpenHelp,
            _ => if modal != ModalKind::Closed {
                Action::Noop
            } else {
                table_action(key, tree)
            },
        }
    }
}

/// Turn a key event into an action.
pub fn action_for_key(
    key: KeyEvent,
    modal: ModalKind,
    search_mode: bool,
    filter_active: bool,
    tree: TreeSupport,
) -> (r: Action)
    ensures
        r == key_action(key, modal, search_mode, filter_active, tree),
{
    if key.kind != KeyEventKind::Press {
        return Action::Noop;
    }
    if key.code == KeyCode::Char('c') && key.modifiers.control {
        return Action::Quit;
    }
    if modal == ModalKind::ConfirmKill || modal == ModalKind::ConfirmTreeKill {
        return kill_confirmation_action_for_key(key);
    }
    if search_mode {
        return search_action_for_key(key);
    }
    match key.code {
        KeyCode::Esc => if modal != ModalKind::Closed {
            Action::CloseModal
        } else if filter_active {
            Action::CancelSearch
        } else {
            Action::Quit
        },
        KeyCode::Char('q') => Action::Quit,
        KeyCode::Char('?') => Action::OpenHelp,
        _ => if modal != ModalKind::Closed {
            Action::Noop
        } else {
            table_key(key, tree)
        },
    }
}

/// No key can ask for a kill while a modal is open or a search is typed.
pub proof fn law_kills_start_at_the_bare_table(
    key: KeyEvent,
    modal: ModalKind,
    search_mode: bool,
    filter_active: bool,
    tree: TreeSupport,
)
    requires
        modal != ModalKind::Closed || search_mode,
    ensures
        ({
            let action = key_action(key, modal, search_mode, filter_active, tree);
            &&& action != Action::RequestTerminate
            &&& action != Action::RequestForceKill
            &&& action != Action::RequestTreeTerminate
            &&& action != Action::RequestTreeForceKill
        }),
{
}

/// A confirmation is submitted by Enter alone.
pub proof fn law_only_enter_submits(
    key: KeyEvent,
    modal: ModalKind,
    search_mode: bool,
    filter_active: bool,
    tree: TreeSupport,
)
    requires
        key_action(key, modal, search_mode, filter_active, tree) == Action::SubmitKillConfirmation,
    ensures
        key.kind == KeyEventKind::Press,
        key.code == KeyCode::Enter,
        modal == ModalKind::ConfirmKill || modal == ModalKind::ConfirmTreeKill,
{
}

/// Without Shift no key forces a kill.
pub proof fn law_force_needs_shift(
    key: KeyEvent,
    modal: ModalKind,
    search_mode: bool,
    filter_active: bool,
    tree: TreeSupport,
)
    requires
        !key.modifiers.shift,
    ensures
        key_action(key, modal, search_mode, filter_active, tree) != Action::RequestForceKill,
        key_action(key, modal, search_mode, filter_active, tree) != Action::RequestTreeForceKill,
{
}

} // verus!
