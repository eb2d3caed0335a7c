use kickoutchi::input::{
    action_for_key, Action, KeyCode, KeyEvent, KeyEventKind, KeyModifiers, ModalKind, TreeSupport,
};

const TREES: TreeSupport = TreeSupport { available: true };
const SHIFT: KeyModifiers = KeyModifiers { shift: true, control: false, alt: false };
const CONTROL: KeyModifiers = KeyModifiers { shift: false, control: true, alt: false };

fn key(code: KeyCode) -> KeyEvent {
    KeyEvent::new(code, KeyModifiers::none())
}

fn modified(code: KeyCode, modifiers: KeyModifiers) -> Action {
    action_for_key(KeyEvent::new(code, modifiers), ModalKind::Closed, false, false, TREES)
}

/// What a key does without an active filter.
fn act(code: KeyCode, modal: ModalKind, search_mode: bool) -> Action {
    action_for_key(key(code), modal, search_mode, false, TREES)
}

#[test]
fn quit_keys_quit() {
    assert_eq!(act(KeyCode::Char('q'), ModalKind::Closed, false), Action::Quit);
    assert_eq!(act(KeyCode::Esc, ModalKind::Closed, false), Action::Quit);
    assert_eq!(modified(KeyCode::Char('c'), CONTROL), Action::Quit);
}

#[test]
fn navigation_keys_move_when_no_modal_is_open() {
    assert_eq!(act(KeyCode::Char('j'), ModalKind::Closed, false), Action::MoveDown);
    assert_eq!(act(KeyCode::Down, ModalKind::Closed, false), Action::MoveDown);
    assert_eq!(act(KeyCode::Char('k'), ModalKind::Closed, false), Action::MoveUp);
    assert_eq!(act(KeyCode::Up, ModalKind::Closed, false), Action::MoveUp);
}

#[test]
fn modal_keys_are_contextual() {
    assert_eq!(act(KeyCode::Enter, ModalKind::Closed, false), Action::OpenDetails);
    assert_eq!(act(KeyCode::Char('?'), ModalKind::Closed, false), Action::OpenHelp);
    assert_eq!(act(KeyCode::Esc, ModalKind::Help, false), Action::CloseModal);
    assert_eq!(act(KeyCode::Down, ModalKind::Help, false), Action::Noop);
    assert_eq!(act(KeyCode::Char('q'), ModalKind::Help, false), Action::Quit);
}

#[test]
fn refresh_search_and_sort_keys_work_without_modal() {
    assert_eq!(act(KeyCode::Char('r'), ModalKind::Closed, false), Action::Refresh);
    assert_eq!(act(KeyCode::Char('/'), ModalKind::Closed, false), Action::StartSearch);
    assert_eq!(act(KeyCode::Char('s'), ModalKind::Closed, false), Action::CycleSort);
}

#[test]
fn kill_keys_request_termination_without_modal() {
    assert_eq!(act(KeyCode::Char('x'), ModalKind::Closed, false), Action::RequestTerminate);
    assert_eq!(modified(KeyCode::Char('X'), SHIFT), Action::RequestForceKill);
}

#[test]
fn caps_lock_x_stays_on_the_normal_termination_path() {
    assert_eq!(act(KeyCode::Char('X'), ModalKind::Closed, false), Action::RequestTerminate);
    assert_eq!(modified(KeyCode::Char('x'), CONTROL), Action::Noop);
}

#[test]
fn tree_keys_mirror_the_kill_keys_including_caps_lock() {
    assert_eq!(act(KeyCode::Char('t'), ModalKind::Closed, false), Action::RequestTreeTerminate);
    assert_eq!(modified(KeyCode::Char('T'), SHIFT), Action::RequestTreeForceKill);
    assert_eq!(act(KeyCode::Char('T'), ModalKind::Closed, false), Action::RequestTreeTerminate);
    assert_eq!(modified(KeyCode::Char('t'), CONTROL), Action::Noop);
}

#[test]
fn tree_keys_do_nothing_where_trees_cannot_be_killed() {
    assert_eq!(
        action_for_key(
            key(KeyCode::Char('t')),
            ModalKind::Closed,
            false,
            false,
            TreeSupport { available: false }
        ),
        Action::Noop,
    );
}

#[test]
fn tree_confirmation_modal_captures_text_until_submit_or_cancel() {
    let modal = ModalKind::ConfirmTreeKill;
    assert_eq!(act(KeyCode::Char('q'), modal, false), Action::KillInputAppend('q'));
    assert_eq!(act(KeyCode::Backspace, modal, false), Action::KillInputBackspace);
    assert_eq!(act(KeyCode::Enter, modal, false), Action::SubmitKillConfirmation);
    assert_eq!(act(KeyCode::Esc, modal, false), Action::CancelKill);
}

#[test]
fn kill_confirmation_modal_captures_text_until_submit_or_cancel() {
    let modal = ModalKind::ConfirmKill;
    assert_eq!(act(KeyCode::Char('q'), modal, false), Action::KillInputAppend('q'));
    assert_eq!(act(KeyCode::Backspace, modal, false), Action::KillInputBackspace);
    assert_eq!(act(KeyCode::Enter, modal, false), Action::SubmitKillConfirmation);
    assert_eq!(act(KeyCode::Esc, modal, false), Action::CancelKill);
}

#[test]
fn search_mode_treats_plain_keys_as_query_text() {
    assert_eq!(act(KeyCode::Char('q'), ModalKind::Closed, true), Action::SearchAppend('q'));
    assert_eq!(act(KeyCode::Backspace, ModalKind::Closed, true), Action::SearchBackspace);
    assert_eq!(act(KeyCode::Enter, ModalKind::Closed, true), Action::FinishSearch);
    assert_eq!(act(KeyCode::Esc, ModalKind::Closed, true), Action::CancelSearch);
}

#[test]
fn esc_clears_an_applied_filter_before_quitting() {
    let esc = |modal, filter_active| {
        action_for_key(key(KeyCode::Esc), modal, false, filter_active, TREES)
    };
    assert_eq!(esc(ModalKind::Closed, true), Action::CancelSearch);
    assert_eq!(esc(ModalKind::Closed, false), Action::Quit);
    assert_eq!(esc(ModalKind::Help, true), Action::CloseModal);
}

#[test]
fn only_key_press_events_act() {
    let release = KeyEvent { kind: KeyEventKind::Release, ..key(KeyCode::Char('q')) };
    assert_eq!(action_for_key(release, ModalKind::Closed, false, false, TREES), Action::Noop);
}
