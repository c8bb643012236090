//! What the keys are for.

use vstd::prelude::*;

use crate::app_state::{Coordinate, Ui};
use crate::shortcuts;
use crate::shortcuts::{Action, Here, Key, Mode};
use crate::state;

verus! {

/// What a key without modifiers is for while one moves about.
pub open spec fn moving_key(key: Key) -> Option<Action> {
    match key {
        Key::Escape => Some(Action::Escape),
        Key::Up | Key::K => Some(Action::Up),
        Key::Down | Key::J => Some(Action::Down),
        Key::Left | Key::H => Some(Action::Left),
        Key::Right | Key::L => Some(Action::Right),
        Key::PageUp => Some(Action::PageUp),
        Key::PageDown => Some(Action::PageDown),
        Key::Home => Some(Action::Home),
        Key::End => Some(Action::End),
        Key::Tab => Some(Action::Tab),
        Key::Colon => Some(Action::Colon),
        Key::F5 => Some(Action::Refresh),
        Key::I => Some(Action::Insert),
        Key::A => Some(Action::InsertAtEnd),
        Key::Space => Some(Action::EnterOperator),
        _ => None,
    }
}

/// What a key without modifiers is for while a text is edited. The enter key
/// hands what was typed over, or writes it to the tree.
pub open spec fn editing_key(key: Key, editor: bool) -> Option<Action> {
    match key {
        Key::Escape => Some(Action::Escape),
        Key::Up => Some(Action::UpInsert),
        Key::Down => Some(Action::DownInsert),
        Key::Left => Some(Action::CursorLeft),
        Key::Right => Some(Action::CursorRight),
        Key::Home => Some(Action::Home),
        Key::End => Some(Action::End),
        Key::Backspace => Some(Action::Backspace),
        Key::Delete => Some(Action::DeleteForward),
        Key::Return | Key::KpEnter => Some(
            if editor {
                Action::ConfirmEditor
            } else {
                Action::EnterInsert
            },
        ),
        _ => None,
    }
}

/// What a key without modifiers is for while the list is searched, or while a
/// command is chosen.
pub open spec fn searching_key(key: Key, command: bool) -> Option<Action> {
    match key {
        Key::Escape => Some(Action::Escape),
        Key::Up => Some(Action::Up),
        Key::Down => Some(Action::Down),
        Key::PageUp => Some(Action::PageUp),
        Key::PageDown => Some(Action::PageDown),
        Key::Backspace => Some(Action::Backspace),
        Key::Delete => Some(Action::DeleteForward),
        Key::Return | Key::KpEnter => Some(
            if command {
                Action::EnterCommand
            } else {
                Action::EnterSearch
            },
        ),
        _ => None,
    }
}

/// What a key with the control key is for where a text is edited.
pub open spec fn text_key(key: Key) -> Option<Action> {
    match key {
        Key::A => Some(Action::SelectAll),
        Key::X => Some(Action::Cut),
        Key::C => Some(Action::Copy),
        Key::V => Some(Action::Paste),
        Key::Z => Some(Action::Undo),
        Key::F => Some(Action::Find),
        _ => None,
    }
}

/// What a key with the control key is for in the editor.
pub open spec fn tree_key(key: Key) -> Option<Action> {
    match key {
        Key::I => Some(Action::InsertElement),
        Key::A => Some(Action::AppendElement),
        Key::D => Some(Action::DeleteElement),
        Key::X => Some(Action::Cut),
        Key::C => Some(Action::Copy),
        Key::V => Some(Action::Paste),
        Key::Z => Some(Action::Undo),
        Key::F => Some(Action::Find),
        _ => None,
    }
}

/// What a key with the control key is for outside the editor.
pub open spec fn file_key(key: Key) -> Option<Action> {
    match key {
        Key::I => Some(Action::InsertPlaceholder),
        Key::A => Some(Action::AppendPlaceholder),
        Key::X => Some(Action::Cut),
        Key::C => Some(Action::Copy),
        Key::V => Some(Action::Paste),
        Key::Z => Some(Action::Undo),
        Key::S => Some(Action::Save),
        Key::O => Some(Action::Open),
        Key::F => Some(Action::Find),
        _ => None,
    }
}

/// What a key is for in a mode, with or without the control key.
pub open spec fn meant(key: Key, ctrl: bool, mode: Mode) -> Option<Action> {
    match (mode, ctrl) {
        (Mode::Operator, false) | (Mode::Editor, false) => moving_key(key),
        (Mode::Operator, true) => file_key(key),
        (Mode::Editor, true) => tree_key(key),
        (Mode::OperatorInsert, false) => editing_key(key, false),
        (Mode::EditorInsert, false) => editing_key(key, true),
        (Mode::OperatorInsert, true) | (Mode::EditorInsert, true) => text_key(key),
        (Mode::SimpleSearch, false) | (Mode::ExtendedSearch, false) => searching_key(key, false),
        (Mode::Command, false) => searching_key(key, true),
        (Mode::SimpleSearch, true) | (Mode::ExtendedSearch, true) | (Mode::Command, true) =>
            text_key(key),
        _ => None,
    }
}

/// The mode that the shortcuts of `u` are those of.
pub open spec fn mode_here(u: Ui) -> Option<Mode> {
    match (u.coordinate, state::in_editor(u)) {
        (Coordinate::General, false) => Some(Mode::Operator),
        (Coordinate::General, true) => Some(Mode::Editor),
        (Coordinate::Insert, false) => Some(Mode::OperatorInsert),
        (Coordinate::Insert, true) => Some(Mode::EditorInsert),
        (Coordinate::SimpleSearch, _) => Some(Mode::SimpleSearch),
        (Coordinate::ExtendedSearch, _) => Some(Mode::ExtendedSearch),
        (Coordinate::Command, _) => Some(Mode::Command),
        _ => None,
    }
}

proof fn lemma_row(key: Key, ctrl: bool, mode: Mode, i: int)
    requires
        meant(key, ctrl, mode) is Some,
        0 <= i < shortcuts::SHORTCUTS,
        shortcuts::is_bound(shortcuts::shortcut_at(i), key, ctrl, false),
        shortcuts::includes(shortcuts::shortcut_at(i).modes, mode),
    ensures
        Some(shortcuts::shortcut_at(i).handle) == meant(key, ctrl, mode),
{
    reveal(shortcuts::shortcut_at);
}

/// A key does what it is for in the mode that it is pressed in, where it does
/// anything.
pub proof fn law_keys_do_what_they_are_for(
    u: Ui,
    here: Here,
    key: Key,
    ctrl: bool,
    mode: Mode,
    res: Option<Action>,
)
    requires
        shortcuts::is_action(u, here, Some(key), ctrl, false, res),
        mode_here(u) == Some(mode),
        meant(key, ctrl, mode) is Some,
    ensures
        res is Some ==> res == meant(key, ctrl, mode),
{
    if res is Some {
        let i = choose|i: int|
            #[trigger] shortcuts::is_first(u, here, key, ctrl, false, i) && res == Some(
                shortcuts::shortcut_at(i).handle,
            );
        assert(shortcuts::answers(u, here, key, ctrl, false, i));
        lemma_row(key, ctrl, mode, i);
    }
}

/// Whether a key does something whatever element the position is at.
pub open spec fn always_works(key: Key, ctrl: bool, mode: Mode) -> bool {
    match (mode, ctrl) {
        (Mode::Operator, false) | (Mode::Editor, false) => meant(key, ctrl, mode) is Some && !(key
            is I) && !(key is A) && !(key is Space),
        (Mode::Operator, true) => key is F,
        (Mode::Editor, true) => key is F || key is Z,
        _ => meant(key, ctrl, mode) is Some,
    }
}

spec fn row_index(key: Key, mode: Mode) -> int {
    match key {
        Key::Escape => 1,
        Key::Up => if mode is OperatorInsert || mode is EditorInsert {
            4
        } else {
            2
        },
        Key::K => 2,
        Key::Down => if mode is OperatorInsert || mode is EditorInsert {
            8
        } else {
            6
        },
        Key::J => 6,
        Key::Right => if mode is OperatorInsert || mode is EditorInsert {
            13
        } else {
            11
        },
        Key::L => 11,
        Key::Left => if mode is OperatorInsert || mode is EditorInsert {
            19
        } else {
            17
        },
        Key::H => 17,
        Key::PageUp => 23,
        Key::PageDown => 25,
        Key::Home => 27,
        Key::End => 29,
        Key::Tab => 34,
        Key::Colon => if mode is Operator {
            49
        } else {
            51
        },
        Key::F5 => if mode is Operator {
            91
        } else {
            92
        },
        Key::Backspace => 37,
        Key::Delete => 38,
        Key::Return | Key::KpEnter => match mode {
            Mode::EditorInsert => 46,
            Mode::OperatorInsert => 47,
            Mode::Command => 44,
            _ => 43,
        },
        Key::A => 62,
        Key::X => 81,
        Key::C => 83,
        Key::V => 85,
        Key::F => 86,
        _ => 88,
    }
}

/// The keys that move about, edit a text or search work whatever element the
/// position is at, but for those that are left alone while a file is chosen.
pub proof fn law_keys_work(
    u: Ui,
    here: Here,
    key: Key,
    ctrl: bool,
    mode: Mode,
    res: Option<Action>,
)
    requires
        shortcuts::is_action(u, here, Some(key), ctrl, false, res),
        mode_here(u) == Some(mode),
        always_works(key, ctrl, mode),
        !u.pending_file_browser_open,
    ensures
        res == meant(key, ctrl, mode),
{
    law_keys_do_what_they_are_for(u, here, key, ctrl, mode, res);
    reveal(shortcuts::shortcut_at);
    assert(shortcuts::answers(u, here, key, ctrl, false, row_index(key, mode)));
}

} // verus!
