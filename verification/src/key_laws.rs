//! Which keys do what, told from what happens back to the keys.

use vstd::prelude::*;
use crate::input::{
    key_action, Action, KeyCode, KeyEvent, KeyEventKind, ModalKind, TreeSupport,
};

verus! {

/// A key that is let go of or held down does nothing.
pub proof fn law_only_presses_act(
    key: KeyEvent,
    modal: ModalKind,
    search_mode: bool,
    filter_active: bool,
    tree: TreeSupport,
)
    requires
        key.kind != KeyEventKind::Press,
    ensures
        key_action(key, modal, search_mode, filter_active, tree) == Action::Noop,
{
}

/// Control and `c` quit, whatever is open or typed.
pub proof fn law_control_c_always_quits(
    key: KeyEvent,
    modal: ModalKind,
    search_mode: bool,
    filter_active: bool,
    tree: TreeSupport,
)
    requires
        key.kind == KeyEventKind::Press,
        key.code == KeyCode::Char('c'),
        key.modifiers.control,
    ensures
        key_action(key, modal, search_mode, filter_active, tree) == Action::Quit,
{
}

/// Nothing quits but Control and `c`, and outside of confirmations and searches `q`, or
/// Escape where there is no modal to close and no filter to clear.
pub proof fn law_what_quits(
    key: KeyEvent,
    modal: ModalKind,
    search_mode: bool,
    filter_active: bool,
    tree: TreeSupport,
)
    ensures
        key_action(key, modal, search_mode, filter_active, tree) == Action::Quit <==> key.kind
            == KeyEventKind::Press && {
            ||| key.code == KeyCode::Char('c') && key.modifiers.control
            ||| modal != ModalKind::ConfirmKill && modal != ModalKind::ConfirmTreeKill
                && !search_mode && key.code == KeyCode::Char('q')
            ||| modal == ModalKind::Closed && !search_mode && !filter_active && key.code
                == KeyCode::Esc
        },
{
}

/// An open confirmation takes every other press: Escape calls off, Enter submits,
/// Backspace erases, a character without Control and Alt is typed, and nothing else acts.
pub proof fn law_confirmation_takes_every_key(
    key: KeyEvent,
    modal: ModalKind,
    search_mode: bool,
    filter_active: bool,
    tree: TreeSupport,
)
    requires
        modal == ModalKind::ConfirmKill || modal == ModalKind::ConfirmTreeKill,
        key.kind == KeyEventKind::Press,
        !(key.code == KeyCode::Char('c') && key.modifiers.control),
    ensures
        ({
            let action = key_action(key, modal, search_mode, filter_active, tree);
            &&& action == Action::CancelKill <==> key.code == KeyCode::Esc
            &&& action == Action::SubmitKillConfirmation <==> key.code == KeyCode::Enter
            &&& action == Action::KillInputBackspace <==> key.code == KeyCode::Backspace
            &&& action is KillInputAppend <==> key.code is Char && !key.modifiers.control
                && !key.modifiers.alt
            &&& action is KillInputAppend ==> key.code == KeyCode::Char(
                action->KillInputAppend_0,
            )
            &&& action is CancelKill || action is SubmitKillConfirmation || action
                is KillInputBackspace || action is KillInputAppend || action is Noop
        }),
{
}

/// The keys of a confirmation do nothing of the kind elsewhere.
pub proof fn law_confirmations_are_answered_where_one_is_open(
    key: KeyEvent,
    modal: ModalKind,
    search_mode: bool,
    filter_active: bool,
    tree: TreeSupport,
)
    requires
        modal != ModalKind::ConfirmKill,
        modal != ModalKind::ConfirmTreeKill,
    ensures
        ({
            let action = key_action(key, modal, search_mode, filter_active, tree);
            !(action is CancelKill) && !(action is SubmitKillConfirmation) && !(action
                is KillInputBackspace) && !(action is KillInputAppend)
        }),
{
}

/// A search that is typed takes every other press: Escape clears it, Enter ends it,
/// Backspace erases, a character without Control and Alt is typed, and nothing else acts.
pub proof fn law_search_takes_every_key(
    key: KeyEvent,
    modal: ModalKind,
    filter_active: bool,
    tree: TreeSupport,
)
    requires
        modal != ModalKind::ConfirmKill,
        modal != ModalKind::ConfirmTreeKill,
        key.kind == KeyEventKind::Press,
        !(key.code == KeyCode::Char('c') && key.modifiers.control),
    ensures
        ({
            let action = key_action(key, modal, true, filter_active, tree);
            &&& action == Action::CancelSearch <==> key.code == KeyCode::Esc
            &&& action == Action::FinishSearch <==> key.code == KeyCode::Enter
            &&& action == Action::SearchBackspace <==> key.code == KeyCode::Backspace
            &&& action is SearchAppend <==> key.code is Char && !key.modifiers.control
                && !key.modifiers.alt
            &&& action is SearchAppend ==> key.code == KeyCode::Char(action->SearchAppend_0)
            &&& action is CancelSearch || action is FinishSearch || action is SearchBackspace
                || action is SearchAppend || action is Noop
        }),
{
}

/// Outside of a search only Escape over a filtered, bare table clears the search, and
/// nothing is typed into one.
pub proof fn law_searches_are_typed_in_a_search(
    key: KeyEvent,
    modal: ModalKind,
    filter_active: bool,
    tree: TreeSupport,
)
    ensures
        ({
            let action = key_action(key, modal, false, filter_active, tree);
            &&& action == Action::CancelSearch <==> key.kind == KeyEventKind::Press && key.code
                == KeyCode::Esc && modal == ModalKind::Closed && filter_active
            &&& !(action is FinishSearch) && !(action is SearchBackspace) && !(action
                is SearchAppend)
        }),
{
}

/// Details and help are closed by Escape alone, and under them only quitting and help act.
pub proof fn law_keys_under_a_modal(
    key: KeyEvent,
    modal: ModalKind,
    filter_active: bool,
    tree: TreeSupport,
)
    requires
        modal == ModalKind::Details || modal == ModalKind::Help,
        key.kind == KeyEventKind::Press,
    ensures
        ({
            let action = key_action(key, modal, false, filter_active, tree);
            &&& action == Action::CloseModal <==> key.code == KeyCode::Esc
            &&& action is CloseModal || action is Quit || action is OpenHelp || action is Noop
        }),
{
}

/// A modal is closed by a key only where one without an answer is open.
pub proof fn law_what_closes_a_modal(
    key: KeyEvent,
    modal: ModalKind,
    search_mode: bool,
    filter_active: bool,
    tree: TreeSupport,
)
    requires
        key_action(key, modal, search_mode, filter_active, tree) == Action::CloseModal,
    ensures
        key.kind == KeyEventKind::Press && key.code == KeyCode::Esc,
        modal == ModalKind::Details || modal == ModalKind::Help,
        !search_mode,
{
}

/// Over the bare table each thing that can be done has its own keys.
pub proof fn law_keys_of_the_bare_table(key: KeyEvent, filter_active: bool, tree: TreeSupport)
    requires
        key.kind == KeyEventKind::Press,
        !(key.code == KeyCode::Char('c') && key.modifiers.control),
    ensures
        ({
            let action = key_action(key, ModalKind::Closed, false, filter_active, tree);
            let plain = !key.modifiers.control && !key.modifiers.alt;
            let x = key.code == KeyCode::Char('x') || key.code == KeyCode::Char('X');
            let t = key.code == KeyCode::Char('t') || key.code == KeyCode::Char('T');
            &&& action == Action::MoveDown <==> key.code == KeyCode::Down || key.code
                == KeyCode::Char('j')
            &&& action == Action::MoveUp <==> key.code == KeyCode::Up || key.code
                == KeyCode::Char('k')
            &&& action == Action::OpenDetails <==> key.code == KeyCode::Enter
            &&& action == Action::OpenHelp <==> key.code == KeyCode::Char('?')
            &&& action == Action::Refresh <==> key.code == KeyCode::Char('r')
            &&& action == Action::StartSearch <==> key.code == KeyCode::Char('/')
            &&& action == Action::CycleSort <==> key.code == KeyCode::Char('s')
            &&& action == Action::RequestTerminate <==> x && plain && !key.modifiers.shift
            &&& action == Action::RequestForceKill <==> x && plain && key.modifiers.shift
            &&& action == Action::RequestTreeTerminate <==> t && plain && !key.modifiers.shift
                && tree.available
            &&& action == Action::RequestTreeForceKill <==> t && plain && key.modifiers.shift
                && tree.available
        }),
{
}

} // verus!
