//! The shortcuts: which key does what in which mode, and the hints on them.
//!
//! One table says both what a key does and which hints are shown, so the two
//! cannot disagree.

use vstd::prelude::*;

use crate::app_state::{AppRenderer, Coordinate, Ui};
use crate::ffon;
use crate::ffon::{FfonElement, Node};
use crate::handlers;
use crate::list;
use crate::markup;
use crate::moves;
use crate::provider;
use crate::state;
use crate::text;

verus! {

/// A key on the keyboard.
#[derive(Debug, Clone, Copy, PartialEq, Eq, Structural)]
pub enum Key {
    Escape,
    Up,
    Down,
    Left,
    Right,
    PageUp,
    PageDown,
    Home,
    End,
    Tab,
    Backspace,
    Delete,
    Return,
    KpEnter,
    Semicolon,
    Colon,
    Space,
    F5,
    A,
    C,
    D,
    F,
    H,
    I,
    J,
    K,
    L,
    M,
    O,
    S,
    V,
    X,
    Z,
    /// A key that no shortcut names.
    Other,
}

/// What decides which shortcuts there are: the mode, with the general mode and
/// the insert mode told apart by whether edits work on the tree.
///
/// To the user the operator and the editor are one mode. Which of the two holds
/// follows from the provider at the position, and no key switches between them:
/// the space key is for checkboxes and radio buttons alone.
#[derive(Debug, Clone, Copy, PartialEq, Eq, Structural)]
pub enum Mode {
    /// The general mode, where edits go through the provider.
    Operator,
    /// The general mode, where edits work on the tree.
    Editor,
    /// The insert mode, where edits go through the provider.
    OperatorInsert,
    /// The insert mode, where edits work on the tree.
    EditorInsert,
    Normal,
    Visual,
    SimpleSearch,
    ExtendedSearch,
    Command,
    Scroll,
    ScrollSearch,
    InputSearch,
    Meta,
    Dashboard,
    /// A mode without shortcuts.
    Unmapped,
}

/// The modes that a shortcut is for.
#[derive(Debug, Clone, Copy, PartialEq, Eq, Structural)]
pub enum Modes {
    /// Where the escape key means something.
    Everywhere,
    /// Where the arrow keys go through a list.
    Lists,
    InputSearch,
    /// Where text is edited.
    Insert,
    General,
    Search,
    Command,
    /// Where there is text with a cursor.
    Text,
    /// Where a page can be turned.
    Paged,
    /// All but the dashboard and the hints.
    Most,
    /// Where there is one line of text.
    Line,
    OperatorInsert,
    EditorInsert,
    Operator,
    Editor,
    /// Where the backspace key erases.
    Erase,
    /// Where the delete key erases.
    EraseForward,
    AnyInsert,
    /// Where an edit of the tree is confirmed.
    EditorConfirm,
    /// Where steps are undone without a look at the position.
    Undoing,
}

/// What else has to hold for a shortcut.
#[derive(Debug, Clone, Copy, PartialEq, Eq, Structural)]
pub enum When {
    Always,
    /// The position is in a provider.
    NotAtRoot,
    /// The element at the position has children.
    HasChildren,
    /// The element at the position is a link.
    OnLink,
    /// The element at the position is a button.
    OnButton,
    /// The element at the position can be edited.
    OnInput,
    /// The element at the position is a box.
    OnCheckbox,
    /// The element at the position is a group of buttons.
    OnRadio,
    InFileBrowser,
    /// The position is in the body of a message that is being written.
    InBody,
    /// Elements can be put beside the one at the position.
    Reshaping,
    HasDashboard,
    /// The provider can be saved to a file.
    Saves,
    /// The position is in a provider that can be saved to a file.
    SavesHere,
}

/// What a shortcut does.
#[derive(Debug, Clone, Copy, PartialEq, Eq, Structural)]
pub enum Action {
    Escape,
    Up,
    InputSearchUp,
    UpInsert,
    ShiftUpInsert,
    Down,
    InputSearchDown,
    DownInsert,
    ShiftDownInsert,
    Right,
    SearchRight,
    CursorRight,
    CommandRight,
    ShiftRight,
    Left,
    SearchLeft,
    CursorLeft,
    ShiftLeft,
    PageUp,
    PageDown,
    Home,
    End,
    CtrlHome,
    CtrlEnd,
    ShiftHome,
    ShiftEnd,
    Tab,
    Backspace,
    DeleteForward,
    EnterOperator,
    Append,
    EnterSearch,
    EnterCommand,
    Newline,
    ConfirmEditor,
    EnterInsert,
    Colon,
    Insert,
    InsertAtEnd,
    InsertPlaceholder,
    AppendPlaceholder,
    InsertElement,
    AppendElement,
    InsertOnward,
    AppendOnward,
    SelectAll,
    Dashboard,
    Scroll,
    Meta,
    DeleteElement,
    DeleteBodyElement,
    DeleteFile,
    Cut,
    Copy,
    Paste,
    Find,
    Undo,
    Redo,
    Refresh,
    Save,
    SaveAs,
    Open,
}

/// What only the provider that the position is in can tell.
#[derive(Debug, Clone, Copy, PartialEq, Eq, Structural)]
pub struct Here {
    /// Whether the provider can be saved to a file.
    pub supports_config_files: bool,
    /// Whether the position is in the body of a message that is being written.
    pub in_compose_body: bool,
}

/// One row of the table.
#[derive(Debug, Clone, Copy)]
pub struct Shortcut {
    pub key: Key,
    /// Another key that does the same.
    pub key2: Option<Key>,
    pub ctrl: bool,
    pub shift: bool,
    pub modes: Modes,
    /// The hint; empty where none is shown.
    pub label: &'static str,
    pub is_available: When,
    pub handle: Action,
}

/// A row of the table.
pub open spec fn row(
    key: Key,
    key2: Option<Key>,
    ctrl: bool,
    shift: bool,
    modes: Modes,
    label: &'static str,
    is_available: When,
    handle: Action,
) -> Shortcut {
    Shortcut { key, key2, ctrl, shift, modes, label, is_available, handle }
}

fn make_row(
    key: Key,
    key2: Option<Key>,
    ctrl: bool,
    shift: bool,
    modes: Modes,
    label: &'static str,
    is_available: When,
    handle: Action,
) -> (s: Shortcut)
    ensures
        s == row(key, key2, ctrl, shift, modes, label, is_available, handle),
{
    Shortcut { key, key2, ctrl, shift, modes, label, is_available, handle }
}

/// How many rows the table has.
pub const SHORTCUTS: usize = 99;

/// The row `i` of the table.
#[verifier::opaque]
pub open spec fn shortcut_at(i: int) -> Shortcut {
    if i == 0 {
        row(
            Key::Escape, None, false, false, Modes::Everywhere,
            "Esc    Back", When::NotAtRoot, Action::Escape,
        )
    } else if i == 1 {
        row(Key::Escape, None, false, false, Modes::Everywhere, "", When::Always, Action::Escape)
    } else if i == 2 {
        row(
            Key::Up, Some(Key::K), false, false, Modes::Lists,
            "Up     Previous", When::Always, Action::Up,
        )
    } else if i == 3 {
        row(
            Key::Up, None, false, false, Modes::InputSearch,
            "Up     Scroll up", When::Always, Action::InputSearchUp,
        )
    } else if i == 4 {
        row(
            Key::Up, None, false, false, Modes::Insert,
            "Up     Previous", When::Always, Action::UpInsert,
        )
    } else if i == 5 {
        row(
            Key::Up, None, false, true, Modes::Insert,
            "Shift+Up Select up", When::Always, Action::ShiftUpInsert,
        )
    } else if i == 6 {
        row(
            Key::Down, Some(Key::J), false, false, Modes::Lists,
            "Down   Next", When::Always, Action::Down,
        )
    } else if i == 7 {
        row(
            Key::Down, None, false, false, Modes::InputSearch,
            "Down   Scroll dn", When::Always, Action::InputSearchDown,
        )
    } else if i == 8 {
        row(
            Key::Down, None, false, false, Modes::Insert,
            "Down   Next", When::Always, Action::DownInsert,
        )
    } else if i == 9 {
        row(
            Key::Down, None, false, true, Modes::Insert,
            "Shift+Down Select dn", When::Always, Action::ShiftDownInsert,
        )
    } else if i == 10 {
        row(
            Key::Right, Some(Key::L), false, false, Modes::General,
            "Right  Open", When::HasChildren, Action::Right,
        )
    } else if i == 11 {
        row(
            Key::Right, Some(Key::L), false, false, Modes::General,
            "", When::Always, Action::Right,
        )
    } else if i == 12 {
        row(
            Key::Right, None, false, false, Modes::Search,
            "Right  Navigate", When::Always, Action::SearchRight,
        )
    } else if i == 13 {
        row(
            Key::Right, None, false, false, Modes::Insert,
            "Right  Cursor right", When::Always, Action::CursorRight,
        )
    } else if i == 14 {
        row(
            Key::Right, None, false, false, Modes::Command,
            "Right  Cursor right", When::Always, Action::CommandRight,
        )
    } else if i == 15 {
        row(
            Key::Right, None, false, true, Modes::Text,
            "Shift+Right Select right", When::Always, Action::ShiftRight,
        )
    } else if i == 16 {
        row(
            Key::Left, Some(Key::H), false, false, Modes::General,
            "Left   Back", When::NotAtRoot, Action::Left,
        )
    } else if i == 17 {
        row(Key::Left, Some(Key::H), false, false, Modes::General, "", When::Always, Action::Left)
    } else if i == 18 {
        row(
            Key::Left, None, false, false, Modes::Search,
            "Left   Navigate", When::Always, Action::SearchLeft,
        )
    } else if i == 19 {
        row(
            Key::Left, None, false, false, Modes::Insert,
            "Left   Cursor left", When::Always, Action::CursorLeft,
        )
    } else if i == 20 {
        row(
            Key::Left, None, false, false, Modes::Command,
            "Left   Cursor left", When::Always, Action::CursorLeft,
        )
    } else if i == 21 {
        row(
            Key::Left, None, false, true, Modes::Text,
            "Shift+Left Select left", When::Always, Action::ShiftLeft,
        )
    } else if i == 22 {
        row(
            Key::PageUp, None, false, false, Modes::Paged,
            "PgUp   Page up", When::NotAtRoot, Action::PageUp,
        )
    } else if i == 23 {
        row(Key::PageUp, None, false, false, Modes::Paged, "", When::Always, Action::PageUp)
    } else if i == 24 {
        row(
            Key::PageDown, None, false, false, Modes::Paged,
            "PgDn   Page dn", When::NotAtRoot, Action::PageDown,
        )
    } else if i == 25 {
        row(Key::PageDown, None, false, false, Modes::Paged, "", When::Always, Action::PageDown)
    } else if i == 26 {
        row(
            Key::Home, None, false, false, Modes::Most,
            "Home   First", When::NotAtRoot, Action::Home,
        )
    } else if i == 27 {
        row(Key::Home, None, false, false, Modes::Most, "", When::Always, Action::Home)
    } else if i == 28 {
        row(
            Key::End, None, false, false, Modes::Most,
            "End    Last", When::NotAtRoot, Action::End,
        )
    } else if i == 29 {
        row(Key::End, None, false, false, Modes::Most, "", When::Always, Action::End)
    } else if i == 30 {
        row(
            Key::Home, None, true, false, Modes::Line,
            "Ctrl+Home Line start", When::Always, Action::CtrlHome,
        )
    } else if i == 31 {
        row(
            Key::End, None, true, false, Modes::Line,
            "Ctrl+End  Line end", When::Always, Action::CtrlEnd,
        )
    } else if i == 32 {
        row(
            Key::Home, None, false, true, Modes::Text,
            "Shift+Home Sel. start", When::Always, Action::ShiftHome,
        )
    } else if i == 33 {
        row(
            Key::End, None, false, true, Modes::Text,
            "Shift+End  Sel. end", When::Always, Action::ShiftEnd,
        )
    } else if i == 34 {
        row(
            Key::Tab, None, false, false, Modes::General,
            "Tab    Search", When::Always, Action::Tab,
        )
    } else if i == 35 {
        row(
            Key::Tab, None, false, false, Modes::OperatorInsert,
            "Tab    Next field", When::Always, Action::Tab,
        )
    } else if i == 36 {
        row(
            Key::Backspace, None, false, false, Modes::Operator,
            "Bspc   Backspace", When::NotAtRoot, Action::Backspace,
        )
    } else if i == 37 {
        row(
            Key::Backspace, None, false, false, Modes::Erase,
            "Bspc   Backspace", When::Always, Action::Backspace,
        )
    } else if i == 38 {
        row(
            Key::Delete, None, false, false, Modes::EraseForward,
            "Del    Delete fwd", When::Always, Action::DeleteForward,
        )
    } else if i == 39 {
        row(
            Key::Return, Some(Key::KpEnter), false, false, Modes::Operator,
            "Enter  Follow link", When::OnLink, Action::EnterOperator,
        )
    } else if i == 40 {
        row(
            Key::Return, Some(Key::KpEnter), false, false, Modes::Operator,
            "Enter  Activate", When::OnButton, Action::EnterOperator,
        )
    } else if i == 41 {
        row(
            Key::Return, Some(Key::KpEnter), false, false, Modes::Operator,
            "Enter  Open", When::NotAtRoot, Action::EnterOperator,
        )
    } else if i == 42 {
        row(
            Key::Return, Some(Key::KpEnter), false, false, Modes::Editor,
            "Enter  Append", When::Always, Action::Append,
        )
    } else if i == 43 {
        row(
            Key::Return, Some(Key::KpEnter), false, false, Modes::Search,
            "Enter  Confirm", When::Always, Action::EnterSearch,
        )
    } else if i == 44 {
        row(
            Key::Return, Some(Key::KpEnter), false, false, Modes::Command,
            "Enter  Execute", When::Always, Action::EnterCommand,
        )
    } else if i == 45 {
        row(
            Key::Return, Some(Key::KpEnter), true, false, Modes::AnyInsert,
            "Ctrl+Enter Newline", When::Always, Action::Newline,
        )
    } else if i == 46 {
        row(
            Key::Return, Some(Key::KpEnter), false, false, Modes::EditorConfirm,
            "Enter  Confirm", When::Always, Action::ConfirmEditor,
        )
    } else if i == 47 {
        row(
            Key::Return, Some(Key::KpEnter), false, false, Modes::OperatorInsert,
            "Enter  Confirm", When::Always, Action::EnterInsert,
        )
    } else if i == 48 {
        row(
            Key::Semicolon, None, false, true, Modes::Operator,
            ":      Command", When::Always, Action::Colon,
        )
    } else if i == 49 {
        row(
            Key::Colon, None, false, false, Modes::Operator,
            ":      Command", When::Always, Action::Colon,
        )
    } else if i == 50 {
        row(
            Key::Semicolon, None, false, true, Modes::Editor,
            ":      Command", When::Always, Action::Colon,
        )
    } else if i == 51 {
        row(
            Key::Colon, None, false, false, Modes::Editor,
            ":      Command", When::Always, Action::Colon,
        )
    } else if i == 52 {
        row(
            Key::I, None, false, false, Modes::General,
            "I      Edit input", When::InFileBrowser, Action::Insert,
        )
    } else if i == 53 {
        row(
            Key::I, None, false, false, Modes::General,
            "I      Edit input", When::OnInput, Action::Insert,
        )
    } else if i == 54 {
        row(
            Key::A, None, false, false, Modes::General,
            "A      Append", When::InFileBrowser, Action::InsertAtEnd,
        )
    } else if i == 55 {
        row(
            Key::A, None, false, false, Modes::General,
            "A      Append", When::OnInput, Action::InsertAtEnd,
        )
    } else if i == 56 {
        row(
            Key::I, None, true, false, Modes::Operator,
            "Ctrl+I Insert before", When::Reshaping, Action::InsertPlaceholder,
        )
    } else if i == 57 {
        row(
            Key::A, None, true, false, Modes::Operator,
            "Ctrl+A Insert after", When::Reshaping, Action::AppendPlaceholder,
        )
    } else if i == 58 {
        row(
            Key::I, None, true, false, Modes::Editor,
            "Ctrl+I Insert before", When::Reshaping, Action::InsertElement,
        )
    } else if i == 59 {
        row(
            Key::A, None, true, false, Modes::Editor,
            "Ctrl+A Insert after", When::Reshaping, Action::AppendElement,
        )
    } else if i == 60 {
        row(
            Key::I, None, true, true, Modes::EditorInsert,
            "Ctrl+Shift+I Insert before", When::Reshaping, Action::InsertOnward,
        )
    } else if i == 61 {
        row(
            Key::A, None, true, true, Modes::EditorInsert,
            "Ctrl+Shift+A Insert after", When::Reshaping, Action::AppendOnward,
        )
    } else if i == 62 {
        row(
            Key::A, None, true, false, Modes::Text,
            "Ctrl+A Select all", When::Always, Action::SelectAll,
        )
    } else if i == 63 {
        row(
            Key::Space, None, false, false, Modes::General,
            "Space  Toggle", When::OnCheckbox, Action::EnterOperator,
        )
    } else if i == 64 {
        row(
            Key::Space, None, false, false, Modes::General,
            "Space  Select", When::OnRadio, Action::EnterOperator,
        )
    } else if i == 65 {
        row(
            Key::D, None, false, false, Modes::Operator,
            "D      Dashboard", When::HasDashboard, Action::Dashboard,
        )
    } else if i == 66 {
        row(Key::D, None, false, false, Modes::Operator, "", When::Always, Action::Dashboard)
    } else if i == 67 {
        row(
            Key::S, None, false, false, Modes::Operator,
            "S      Scroll", When::NotAtRoot, Action::Scroll,
        )
    } else if i == 68 {
        row(
            Key::M, None, false, false, Modes::Operator,
            "M      Meta", When::Always, Action::Meta,
        )
    } else if i == 69 {
        row(
            Key::D, None, true, false, Modes::Editor,
            "Ctrl+D Delete", When::Reshaping, Action::DeleteElement,
        )
    } else if i == 70 {
        row(
            Key::D, None, true, false, Modes::Operator,
            "Ctrl+D Delete", When::InBody, Action::DeleteBodyElement,
        )
    } else if i == 71 {
        row(
            Key::D, None, true, false, Modes::Operator,
            "Ctrl+D Delete", When::InFileBrowser, Action::DeleteFile,
        )
    } else if i == 72 {
        row(
            Key::Delete, None, false, false, Modes::Operator,
            "Del    Delete", When::InBody, Action::DeleteBodyElement,
        )
    } else if i == 73 {
        row(
            Key::Delete, None, false, false, Modes::Operator,
            "Del    Delete", When::InFileBrowser, Action::DeleteFile,
        )
    } else if i == 74 {
        row(Key::X, None, true, false, Modes::Operator, "Ctrl+X Cut", When::InBody, Action::Cut)
    } else if i == 75 {
        row(Key::C, None, true, false, Modes::Operator, "Ctrl+C Copy", When::InBody, Action::Copy)
    } else if i == 76 {
        row(
            Key::V, None, true, false, Modes::Operator,
            "Ctrl+V Paste", When::InBody, Action::Paste,
        )
    } else if i == 77 {
        row(
            Key::X, None, true, false, Modes::Operator,
            "Ctrl+X Cut", When::InFileBrowser, Action::Cut,
        )
    } else if i == 78 {
        row(
            Key::C, None, true, false, Modes::Operator,
            "Ctrl+C Copy", When::InFileBrowser, Action::Copy,
        )
    } else if i == 79 {
        row(
            Key::V, None, true, false, Modes::Operator,
            "Ctrl+V Paste", When::InFileBrowser, Action::Paste,
        )
    } else if i == 80 {
        row(Key::X, None, true, false, Modes::Editor, "Ctrl+X Cut", When::Reshaping, Action::Cut)
    } else if i == 81 {
        row(Key::X, None, true, false, Modes::Text, "Ctrl+X Cut", When::Always, Action::Cut)
    } else if i == 82 {
        row(
            Key::C, None, true, false, Modes::Editor,
            "Ctrl+C Copy", When::Reshaping, Action::Copy,
        )
    } else if i == 83 {
        row(Key::C, None, true, false, Modes::Text, "Ctrl+C Copy", When::Always, Action::Copy)
    } else if i == 84 {
        row(
            Key::V, None, true, false, Modes::Editor,
            "Ctrl+V Paste", When::Reshaping, Action::Paste,
        )
    } else if i == 85 {
        row(Key::V, None, true, false, Modes::Text, "Ctrl+V Paste", When::Always, Action::Paste)
    } else if i == 86 {
        row(
            Key::F, None, true, false, Modes::Most,
            "Ctrl+F Extended search", When::Always, Action::Find,
        )
    } else if i == 87 {
        row(
            Key::Z, None, true, false, Modes::Operator,
            "Ctrl+Z Undo", When::NotAtRoot, Action::Undo,
        )
    } else if i == 88 {
        row(Key::Z, None, true, false, Modes::Undoing, "Ctrl+Z Undo", When::Always, Action::Undo)
    } else if i == 89 {
        row(
            Key::Z, None, true, true, Modes::Operator,
            "Ctrl+Shift+Z Redo", When::NotAtRoot, Action::Redo,
        )
    } else if i == 90 {
        row(
            Key::Z, None, true, true, Modes::Undoing,
            "Ctrl+Shift+Z Redo", When::Always, Action::Redo,
        )
    } else if i == 91 {
        row(
            Key::F5, None, false, false, Modes::Operator,
            "F5     Refresh", When::Always, Action::Refresh,
        )
    } else if i == 92 {
        row(
            Key::F5, None, false, false, Modes::Editor,
            "F5     Refresh", When::Always, Action::Refresh,
        )
    } else if i == 93 {
        row(
            Key::S, None, true, false, Modes::Operator,
            "Ctrl+S Save", When::SavesHere, Action::Save,
        )
    } else if i == 94 {
        row(Key::S, None, true, false, Modes::Operator, "", When::Saves, Action::Save)
    } else if i == 95 {
        row(
            Key::S, None, true, true, Modes::Operator,
            "Ctrl+Shift+S Save as", When::SavesHere, Action::SaveAs,
        )
    } else if i == 96 {
        row(Key::S, None, true, true, Modes::Operator, "", When::Saves, Action::SaveAs)
    } else if i == 97 {
        row(
            Key::O, None, true, false, Modes::Operator,
            "Ctrl+O Open", When::SavesHere, Action::Open,
        )
    } else {
        row(Key::O, None, true, false, Modes::Operator, "", When::Saves, Action::Open)
    }
}

/// The row `i` of the table.
pub fn shortcut(i: usize) -> (s: Shortcut)
    requires
        i < SHORTCUTS,
    ensures
        s == shortcut_at(i as int),
{
    proof {
        reveal(shortcut_at);
    }
    match i {
        0 => make_row(
            Key::Escape, None, false, false, Modes::Everywhere,
            "Esc    Back", When::NotAtRoot, Action::Escape,
        ),
        1 => make_row(
            Key::Escape, None, false, false, Modes::Everywhere,
            "", When::Always, Action::Escape,
        ),
        2 => make_row(
            Key::Up, Some(Key::K), false, false, Modes::Lists,
            "Up     Previous", When::Always, Action::Up,
        ),
        3 => make_row(
            Key::Up, None, false, false, Modes::InputSearch,
            "Up     Scroll up", When::Always, Action::InputSearchUp,
        ),
        4 => make_row(
            Key::Up, None, false, false, Modes::Insert,
            "Up     Previous", When::Always, Action::UpInsert,
        ),
        5 => make_row(
            Key::Up, None, false, true, Modes::Insert,
            "Shift+Up Select up", When::Always, Action::ShiftUpInsert,
        ),
        6 => make_row(
            Key::Down, Some(Key::J), false, false, Modes::Lists,
            "Down   Next", When::Always, Action::Down,
        ),
        7 => make_row(
            Key::Down, None, false, false, Modes::InputSearch,
            "Down   Scroll dn", When::Always, Action::InputSearchDown,
        ),
        8 => make_row(
            Key::Down, None, false, false, Modes::Insert,
            "Down   Next", When::Always, Action::DownInsert,
        ),
        9 => make_row(
            Key::Down, None, false, true, Modes::Insert,
            "Shift+Down Select dn", When::Always, Action::ShiftDownInsert,
        ),
        10 => make_row(
            Key::Right, Some(Key::L), false, false, Modes::General,
            "Right  Open", When::HasChildren, Action::Right,
        ),
        11 => make_row(
            Key::Right, Some(Key::L), false, false, Modes::General,
            "", When::Always, Action::Right,
        ),
        12 => make_row(
            Key::Right, None, false, false, Modes::Search,
            "Right  Navigate", When::Always, Action::SearchRight,
        ),
        13 => make_row(
            Key::Right, None, false, false, Modes::Insert,
            "Right  Cursor right", When::Always, Action::CursorRight,
        ),
        14 => make_row(
            Key::Right, None, false, false, Modes::Command,
            "Right  Cursor right", When::Always, Action::CommandRight,
        ),
        15 => make_row(
            Key::Right, None, false, true, Modes::Text,
            "Shift+Right Select right", When::Always, Action::ShiftRight,
        ),
        16 => make_row(
            Key::Left, Some(Key::H), false, false, Modes::General,
            "Left   Back", When::NotAtRoot, Action::Left,
        ),
        17 => make_row(
            Key::Left, Some(Key::H), false, false, Modes::General,
            "", When::Always, Action::Left,
        ),
        18 => make_row(
            Key::Left, None, false, false, Modes::Search,
            "Left   Navigate", When::Always, Action::SearchLeft,
        ),
        19 => make_row(
            Key::Left, None, false, false, Modes::Insert,
            "Left   Cursor left", When::Always, Action::CursorLeft,
        ),
        20 => make_row(
            Key::Left, None, false, false, Modes::Command,
            "Left   Cursor left", When::Always, Action::CursorLeft,
        ),
        21 => make_row(
            Key::Left, None, false, true, Modes::Text,
            "Shift+Left Select left", When::Always, Action::ShiftLeft,
        ),
        22 => make_row(
            Key::PageUp, None, false, false, Modes::Paged,
            "PgUp   Page up", When::NotAtRoot, Action::PageUp,
        ),
        23 => make_row(
            Key::PageUp, None, false, false, Modes::Paged,
            "", When::Always, Action::PageUp,
        ),
        24 => make_row(
            Key::PageDown, None, false, false, Modes::Paged,
            "PgDn   Page dn", When::NotAtRoot, Action::PageDown,
        ),
        25 => make_row(
            Key::PageDown, None, false, false, Modes::Paged,
            "", When::Always, Action::PageDown,
        ),
        26 => make_row(
            Key::Home, None, false, false, Modes::Most,
            "Home   First", When::NotAtRoot, Action::Home,
        ),
        27 => make_row(
            Key::Home, None, false, false, Modes::Most,
            "", When::Always, Action::Home,
        ),
        28 => make_row(
            Key::End, None, false, false, Modes::Most,
            "End    Last", When::NotAtRoot, Action::End,
        ),
        29 => make_row(
            Key::End, None, false, false, Modes::Most,
            "", When::Always, Action::End,
        ),
        30 => make_row(
            Key::Home, None, true, false, Modes::Line,
            "Ctrl+Home Line start", When::Always, Action::CtrlHome,
        ),
        31 => make_row(
            Key::End, None, true, false, Modes::Line,
            "Ctrl+End  Line end", When::Always, Action::CtrlEnd,
        ),
        32 => make_row(
            Key::Home, None, false, true, Modes::Text,
            "Shift+Home Sel. start", When::Always, Action::ShiftHome,
        ),
        33 => make_row(
            Key::End, None, false, true, Modes::Text,
            "Shift+End  Sel. end", When::Always, Action::ShiftEnd,
        ),
        34 => make_row(
            Key::Tab, None, false, false, Modes::General,
            "Tab    Search", When::Always, Action::Tab,
        ),
        35 => make_row(
            Key::Tab, None, false, false, Modes::OperatorInsert,
            "Tab    Next field", When::Always, Action::Tab,
        ),
        36 => make_row(
            Key::Backspace, None, false, false, Modes::Operator,
            "Bspc   Backspace", When::NotAtRoot, Action::Backspace,
        ),
        37 => make_row(
            Key::Backspace, None, false, false, Modes::Erase,
            "Bspc   Backspace", When::Always, Action::Backspace,
        ),
        38 => make_row(
            Key::Delete, None, false, false, Modes::EraseForward,
            "Del    Delete fwd", When::Always, Action::DeleteForward,
        ),
        39 => make_row(
            Key::Return, Some(Key::KpEnter), false, false, Modes::Operator,
            "Enter  Follow link", When::OnLink, Action::EnterOperator,
        ),
        40 => make_row(
            Key::Return, Some(Key::KpEnter), false, false, Modes::Operator,
            "Enter  Activate", When::OnButton, Action::EnterOperator,
        ),
        41 => make_row(
            Key::Return, Some(Key::KpEnter), false, false, Modes::Operator,
            "Enter  Open", When::NotAtRoot, Action::EnterOperator,
        ),
        42 => make_row(
            Key::Return, Some(Key::KpEnter), false, false, Modes::Editor,
            "Enter  Append", When::Always, Action::Append,
        ),
        43 => make_row(
            Key::Return, Some(Key::KpEnter), false, false, Modes::Search,
            "Enter  Confirm", When::Always, Action::EnterSearch,
        ),
        44 => make_row(
            Key::Return, Some(Key::KpEnter), false, false, Modes::Command,
            "Enter  Execute", When::Always, Action::EnterCommand,
        ),
        45 => make_row(
            Key::Return, Some(Key::KpEnter), true, false, Modes::AnyInsert,
            "Ctrl+Enter Newline", When::Always, Action::Newline,
        ),
        46 => make_row(
            Key::Return, Some(Key::KpEnter), false, false, Modes::EditorConfirm,
            "Enter  Confirm", When::Always, Action::ConfirmEditor,
        ),
        47 => make_row(
            Key::Return, Some(Key::KpEnter), false, false, Modes::OperatorInsert,
            "Enter  Confirm", When::Always, Action::EnterInsert,
        ),
        48 => make_row(
            Key::Semicolon, None, false, true, Modes::Operator,
            ":      Command", When::Always, Action::Colon,
        ),
        49 => make_row(
            Key::Colon, None, false, false, Modes::Operator,
            ":      Command", When::Always, Action::Colon,
        ),
        50 => make_row(
            Key::Semicolon, None, false, true, Modes::Editor,
            ":      Command", When::Always, Action::Colon,
        ),
        51 => make_row(
            Key::Colon, None, false, false, Modes::Editor,
            ":      Command", When::Always, Action::Colon,
        ),
        52 => make_row(
            Key::I, None, false, false, Modes::General,
            "I      Edit input", When::InFileBrowser, Action::Insert,
        ),
        53 => make_row(
            Key::I, None, false, false, Modes::General,
            "I      Edit input", When::OnInput, Action::Insert,
        ),
        54 => make_row(
            Key::A, None, false, false, Modes::General,
            "A      Append", When::InFileBrowser, Action::InsertAtEnd,
        ),
        55 => make_row(
            Key::A, None, false, false, Modes::General,
            "A      Append", When::OnInput, Action::InsertAtEnd,
        ),
        56 => make_row(
            Key::I, None, true, false, Modes::Operator,
            "Ctrl+I Insert before", When::Reshaping, Action::InsertPlaceholder,
        ),
        57 => make_row(
            Key::A, None, true, false, Modes::Operator,
            "Ctrl+A Insert after", When::Reshaping, Action::AppendPlaceholder,
        ),
        58 => make_row(
            Key::I, None, true, false, Modes::Editor,
            "Ctrl+I Insert before", When::Reshaping, Action::InsertElement,
        ),
        59 => make_row(
            Key::A, None, true, false, Modes::Editor,
            "Ctrl+A Insert after", When::Reshaping, Action::AppendElement,
        ),
        60 => make_row(
            Key::I, None, true, true, Modes::EditorInsert,
            "Ctrl+Shift+I Insert before", When::Reshaping, Action::InsertOnward,
        ),
        61 => make_row(
            Key::A, None, true, true, Modes::EditorInsert,
            "Ctrl+Shift+A Insert after", When::Reshaping, Action::AppendOnward,
        ),
        62 => make_row(
            Key::A, None, true, false, Modes::Text,
            "Ctrl+A Select all", When::Always, Action::SelectAll,
        ),
        63 => make_row(
            Key::Space, None, false, false, Modes::General,
            "Space  Toggle", When::OnCheckbox, Action::EnterOperator,
        ),
        64 => make_row(
            Key::Space, None, false, false, Modes::General,
            "Space  Select", When::OnRadio, Action::EnterOperator,
        ),
        65 => make_row(
            Key::D, None, false, false, Modes::Operator,
            "D      Dashboard", When::HasDashboard, Action::Dashboard,
        ),
        66 => make_row(
            Key::D, None, false, false, Modes::Operator,
            "", When::Always, Action::Dashboard,
        ),
        67 => make_row(
            Key::S, None, false, false, Modes::Operator,
            "S      Scroll", When::NotAtRoot, Action::Scroll,
        ),
        68 => make_row(
            Key::M, None, false, false, Modes::Operator,
            "M      Meta", When::Always, Action::Meta,
        ),
        69 => make_row(
            Key::D, None, true, false, Modes::Editor,
            "Ctrl+D Delete", When::Reshaping, Action::DeleteElement,
        ),
        70 => make_row(
            Key::D, None, true, false, Modes::Operator,
            "Ctrl+D Delete", When::InBody, Action::DeleteBodyElement,
        ),
        71 => make_row(
            Key::D, None, true, false, Modes::Operator,
            "Ctrl+D Delete", When::InFileBrowser, Action::DeleteFile,
        ),
        72 => make_row(
            Key::Delete, None, false, false, Modes::Operator,
            "Del    Delete", When::InBody, Action::DeleteBodyElement,
        ),
        73 => make_row(
            Key::Delete, None, false, false, Modes::Operator,
            "Del    Delete", When::InFileBrowser, Action::DeleteFile,
        ),
        74 => make_row(
            Key::X, None, true, false, Modes::Operator,
            "Ctrl+X Cut", When::InBody, Action::Cut,
        ),
        75 => make_row(
            Key::C, None, true, false, Modes::Operator,
            "Ctrl+C Copy", When::InBody, Action::Copy,
        ),
        76 => make_row(
            Key::V, None, true, false, Modes::Operator,
            "Ctrl+V Paste", When::InBody, Action::Paste,
        ),
        77 => make_row(
            Key::X, None, true, false, Modes::Operator,
            "Ctrl+X Cut", When::InFileBrowser, Action::Cut,
        ),
        78 => make_row(
            Key::C, None, true, false, Modes::Operator,
            "Ctrl+C Copy", When::InFileBrowser, Action::Copy,
        ),
        79 => make_row(
            Key::V, None, true, false, Modes::Operator,
            "Ctrl+V Paste", When::InFileBrowser, Action::Paste,
        ),
        80 => make_row(
            Key::X, None, true, false, Modes::Editor,
            "Ctrl+X Cut", When::Reshaping, Action::Cut,
        ),
        81 => make_row(
            Key::X, None, true, false, Modes::Text,
            "Ctrl+X Cut", When::Always, Action::Cut,
        ),
        82 => make_row(
            Key::C, None, true, false, Modes::Editor,
            "Ctrl+C Copy", When::Reshaping, Action::Copy,
        ),
        83 => make_row(
            Key::C, None, true, false, Modes::Text,
            "Ctrl+C Copy", When::Always, Action::Copy,
        ),
        84 => make_row(
            Key::V, None, true, false, Modes::Editor,
            "Ctrl+V Paste", When::Reshaping, Action::Paste,
        ),
        85 => make_row(
            Key::V, None, true, false, Modes::Text,
            "Ctrl+V Paste", When::Always, Action::Paste,
        ),
        86 => make_row(
            Key::F, None, true, false, Modes::Most,
            "Ctrl+F Extended search", When::Always, Action::Find,
        ),
        87 => make_row(
            Key::Z, None, true, false, Modes::Operator,
            "Ctrl+Z Undo", When::NotAtRoot, Action::Undo,
        ),
        88 => make_row(
            Key::Z, None, true, false, Modes::Undoing,
            "Ctrl+Z Undo", When::Always, Action::Undo,
        ),
        89 => make_row(
            Key::Z, None, true, true, Modes::Operator,
            "Ctrl+Shift+Z Redo", When::NotAtRoot, Action::Redo,
        ),
        90 => make_row(
            Key::Z, None, true, true, Modes::Undoing,
            "Ctrl+Shift+Z Redo", When::Always, Action::Redo,
        ),
        91 => make_row(
            Key::F5, None, false, false, Modes::Operator,
            "F5     Refresh", When::Always, Action::Refresh,
        ),
        92 => make_row(
            Key::F5, None, false, false, Modes::Editor,
            "F5     Refresh", When::Always, Action::Refresh,
        ),
        93 => make_row(
            Key::S, None, true, false, Modes::Operator,
            "Ctrl+S Save", When::SavesHere, Action::Save,
        ),
        94 => make_row(
            Key::S, None, true, false, Modes::Operator,
            "", When::Saves, Action::Save,
        ),
        95 => make_row(
            Key::S, None, true, true, Modes::Operator,
            "Ctrl+Shift+S Save as", When::SavesHere, Action::SaveAs,
        ),
        96 => make_row(
            Key::S, None, true, true, Modes::Operator,
            "", When::Saves, Action::SaveAs,
        ),
        97 => make_row(
            Key::O, None, true, false, Modes::Operator,
            "Ctrl+O Open", When::SavesHere, Action::Open,
        ),
        _ => make_row(
            Key::O, None, true, false, Modes::Operator,
            "", When::Saves, Action::Open,
        ),
    }
}

/// Whether `modes` holds `mode`.
pub open spec fn includes(modes: Modes, mode: Mode) -> bool {
    match modes {
        Modes::Everywhere => mode is Operator || mode is Editor || mode is EditorInsert || mode is Normal || mode is Visual || mode is OperatorInsert || mode is SimpleSearch || mode is ExtendedSearch || mode is Command || mode is Scroll || mode is ScrollSearch || mode is InputSearch || mode is Meta || mode is Dashboard,
        Modes::Lists => mode is Operator || mode is Editor || mode is SimpleSearch || mode is ExtendedSearch || mode is Command || mode is Scroll || mode is ScrollSearch || mode is Meta,
        Modes::InputSearch => mode is InputSearch,
        Modes::Insert => mode is EditorInsert || mode is Normal || mode is Visual || mode is OperatorInsert,
        Modes::General => mode is Operator || mode is Editor,
        Modes::Search => mode is SimpleSearch || mode is ExtendedSearch,
        Modes::Command => mode is Command,
        Modes::Text => mode is EditorInsert || mode is Normal || mode is Visual || mode is OperatorInsert || mode is SimpleSearch || mode is ExtendedSearch || mode is Command,
        Modes::Paged => mode is Operator || mode is Editor || mode is SimpleSearch || mode is ExtendedSearch || mode is Command || mode is Scroll || mode is ScrollSearch || mode is InputSearch,
        Modes::Most => mode is Operator || mode is Editor || mode is EditorInsert || mode is Normal || mode is Visual || mode is OperatorInsert || mode is SimpleSearch || mode is ExtendedSearch || mode is Command || mode is Scroll || mode is ScrollSearch || mode is InputSearch,
        Modes::Line => mode is SimpleSearch || mode is ExtendedSearch || mode is Command,
        Modes::OperatorInsert => mode is OperatorInsert,
        Modes::EditorInsert => mode is EditorInsert,
        Modes::Operator => mode is Operator,
        Modes::Editor => mode is Editor,
        Modes::Erase => mode is Editor || mode is EditorInsert || mode is Normal || mode is Visual || mode is OperatorInsert || mode is SimpleSearch || mode is ExtendedSearch || mode is Command || mode is ScrollSearch || mode is InputSearch,
        Modes::EraseForward => mode is EditorInsert || mode is Normal || mode is Visual || mode is OperatorInsert || mode is SimpleSearch || mode is ExtendedSearch || mode is Command || mode is ScrollSearch || mode is InputSearch,
        Modes::AnyInsert => mode is EditorInsert || mode is OperatorInsert,
        Modes::EditorConfirm => mode is EditorInsert || mode is Normal,
        Modes::Undoing => mode is Editor || mode is SimpleSearch || mode is ExtendedSearch || mode is EditorInsert || mode is Normal || mode is Visual || mode is OperatorInsert || mode is Command || mode is Scroll || mode is ScrollSearch,
    }
}

/// Whether `modes` holds `mode`.
pub fn contains_mode(modes: Modes, mode: Mode) -> (b: bool)
    ensures
        b == includes(modes, mode),
{
    match modes {
        Modes::Everywhere => matches!(mode, Mode::Operator | Mode::Editor | Mode::EditorInsert | Mode::Normal | Mode::Visual | Mode::OperatorInsert | Mode::SimpleSearch | Mode::ExtendedSearch | Mode::Command | Mode::Scroll | Mode::ScrollSearch | Mode::InputSearch | Mode::Meta | Mode::Dashboard),
        Modes::Lists => matches!(mode, Mode::Operator | Mode::Editor | Mode::SimpleSearch | Mode::ExtendedSearch | Mode::Command | Mode::Scroll | Mode::ScrollSearch | Mode::Meta),
        Modes::InputSearch => matches!(mode, Mode::InputSearch),
        Modes::Insert => matches!(mode, Mode::EditorInsert | Mode::Normal | Mode::Visual | Mode::OperatorInsert),
        Modes::General => matches!(mode, Mode::Operator | Mode::Editor),
        Modes::Search => matches!(mode, Mode::SimpleSearch | Mode::ExtendedSearch),
        Modes::Command => matches!(mode, Mode::Command),
        Modes::Text => matches!(mode, Mode::EditorInsert | Mode::Normal | Mode::Visual | Mode::OperatorInsert | Mode::SimpleSearch | Mode::ExtendedSearch | Mode::Command),
        Modes::Paged => matches!(mode, Mode::Operator | Mode::Editor | Mode::SimpleSearch | Mode::ExtendedSearch | Mode::Command | Mode::Scroll | Mode::ScrollSearch | Mode::InputSearch),
        Modes::Most => matches!(mode, Mode::Operator | Mode::Editor | Mode::EditorInsert | Mode::Normal | Mode::Visual | Mode::OperatorInsert | Mode::SimpleSearch | Mode::ExtendedSearch | Mode::Command | Mode::Scroll | Mode::ScrollSearch | Mode::InputSearch),
        Modes::Line => matches!(mode, Mode::SimpleSearch | Mode::ExtendedSearch | Mode::Command),
        Modes::OperatorInsert => matches!(mode, Mode::OperatorInsert),
        Modes::EditorInsert => matches!(mode, Mode::EditorInsert),
        Modes::Operator => matches!(mode, Mode::Operator),
        Modes::Editor => matches!(mode, Mode::Editor),
        Modes::Erase => matches!(mode, Mode::Editor | Mode::EditorInsert | Mode::Normal | Mode::Visual | Mode::OperatorInsert | Mode::SimpleSearch | Mode::ExtendedSearch | Mode::Command | Mode::ScrollSearch | Mode::InputSearch),
        Modes::EraseForward => matches!(mode, Mode::EditorInsert | Mode::Normal | Mode::Visual | Mode::OperatorInsert | Mode::SimpleSearch | Mode::ExtendedSearch | Mode::Command | Mode::ScrollSearch | Mode::InputSearch),
        Modes::AnyInsert => matches!(mode, Mode::EditorInsert | Mode::OperatorInsert),
        Modes::EditorConfirm => matches!(mode, Mode::EditorInsert | Mode::Normal),
        Modes::Undoing => matches!(mode, Mode::Editor | Mode::SimpleSearch | Mode::ExtendedSearch | Mode::EditorInsert | Mode::Normal | Mode::Visual | Mode::OperatorInsert | Mode::Command | Mode::Scroll | Mode::ScrollSearch),
    }
}

/// What decides which shortcuts there are in the mode `c`.
pub open spec fn mode_in(c: Coordinate, editor: bool) -> Mode {
    match c {
        Coordinate::General => if editor {
            Mode::Editor
        } else {
            Mode::Operator
        },
        Coordinate::Insert => if editor {
            Mode::EditorInsert
        } else {
            Mode::OperatorInsert
        },
        Coordinate::Normal => Mode::Normal,
        Coordinate::Visual => Mode::Visual,
        Coordinate::SimpleSearch => Mode::SimpleSearch,
        Coordinate::ExtendedSearch => Mode::ExtendedSearch,
        Coordinate::Command => Mode::Command,
        Coordinate::Scroll => Mode::Scroll,
        Coordinate::ScrollSearch => Mode::ScrollSearch,
        Coordinate::InputSearch => Mode::InputSearch,
        Coordinate::Meta => Mode::Meta,
        Coordinate::Dashboard => Mode::Dashboard,
        Coordinate::ScrollPrefixSearch => Mode::Unmapped,
        Coordinate::TimelineView => Mode::Unmapped,
        Coordinate::ConfirmCloseTab => Mode::Unmapped,
    }
}

/// What decides which shortcuts there are in the mode `c`.
pub fn find_mode(c: Coordinate, editor: bool) -> (m: Mode)
    ensures
        m == mode_in(c, editor),
{
    match c {
        Coordinate::General => if editor {
            Mode::Editor
        } else {
            Mode::Operator
        },
        Coordinate::Insert => if editor {
            Mode::EditorInsert
        } else {
            Mode::OperatorInsert
        },
        Coordinate::Normal => Mode::Normal,
        Coordinate::Visual => Mode::Visual,
        Coordinate::SimpleSearch => Mode::SimpleSearch,
        Coordinate::ExtendedSearch => Mode::ExtendedSearch,
        Coordinate::Command => Mode::Command,
        Coordinate::Scroll => Mode::Scroll,
        Coordinate::ScrollSearch => Mode::ScrollSearch,
        Coordinate::InputSearch => Mode::InputSearch,
        Coordinate::Meta => Mode::Meta,
        Coordinate::Dashboard => Mode::Dashboard,
        Coordinate::ScrollPrefixSearch => Mode::Unmapped,
        Coordinate::TimelineView => Mode::Unmapped,
        Coordinate::ConfirmCloseTab => Mode::Unmapped,
    }
}

/// Whether the position is in a provider.
pub open spec fn below_root(u: Ui) -> bool {
    u.current_id.len() > 1
}

/// Whether the element at the position has children.
pub open spec fn on_parent(u: Ui) -> bool {
    moves::focused_node(u) matches Some(Node::Obj { children, .. }) && children.len() > 0
}

/// Whether the element at the position has children.
pub fn focused_has_children(r: &AppRenderer) -> (b: bool)
    ensures
        b == on_parent(r@),
{
    match moves::element_ref(&r.ffon, &r.current_id) {
        Some(e) => {
            proof {
                reveal_with_fuel(ffon::node, 2);
            }
            match e {
                FfonElement::Obj(o) => o.children.len() > 0,
                FfonElement::Str(_) => false,
            }
        },
        None => false,
    }
}

/// The text of the element at the position.
pub open spec fn text_here(u: Ui) -> Option<Seq<char>> {
    match moves::focused_node(u) {
        Some(n) => Some(ffon::node_text(n)),
        None => None,
    }
}

/// Whether the element at the position is a checkbox.
pub fn focused_is_checkbox(r: &AppRenderer) -> (b: bool)
    ensures
        b == (text_here(r@) matches Some(s) && (markup::is_checkbox(s)
            || markup::is_checkbox_checked(s))),
{
    match moves::element_ref(&r.ffon, &r.current_id) {
        Some(e) => sicompass_sdk::tags::has_checkbox(e.text())
            || sicompass_sdk::tags::has_checkbox_checked(e.text()),
        None => false,
    }
}

/// Whether the element at the position is a group of radio buttons.
pub fn focused_is_radio(r: &AppRenderer) -> (b: bool)
    ensures
        b == (text_here(r@) matches Some(s) && markup::is_radio(s)),
{
    match moves::element_ref(&r.ffon, &r.current_id) {
        Some(e) => sicompass_sdk::tags::has_radio(e.text()),
        None => false,
    }
}

/// Whether the element at the position is a button.
pub fn focused_is_button(r: &AppRenderer) -> (b: bool)
    ensures
        b == (text_here(r@) matches Some(s) && markup::is_button(s)),
{
    match moves::element_ref(&r.ffon, &r.current_id) {
        Some(e) => sicompass_sdk::tags::has_button(e.text()),
        None => false,
    }
}

/// Whether the element at the position is a link.
pub fn focused_is_link(r: &AppRenderer) -> (b: bool)
    ensures
        b == (text_here(r@) matches Some(s) && markup::is_link(s)),
{
    match moves::element_ref(&r.ffon, &r.current_id) {
        Some(e) => sicompass_sdk::tags::has_link(e.text()),
        None => false,
    }
}

/// Whether the element at the position can be edited.
pub fn focused_is_input(r: &AppRenderer) -> (b: bool)
    ensures
        b == (text_here(r@) matches Some(s) && (markup::is_input(s) || markup::is_input_all(s))),
{
    match moves::element_ref(&r.ffon, &r.current_id) {
        Some(e) => sicompass_sdk::tags::has_input(e.text()) || markup::has_input_all(e.text()),
        None => false,
    }
}

/// Whether an element of a layer can be edited.
pub open spec fn some_input(layer: Seq<Node>) -> bool {
    exists|i: int| 0 <= i < layer.len() && markup::is_input(ffon::node_text(#[trigger] layer[i]))
}

fn has_some_input(layer: &Vec<FfonElement>) -> (b: bool)
    ensures
        b == some_input(ffon::forest(layer@)),
{
    let ghost nodes = ffon::forest(layer@);
    let mut i: usize = 0;
    while i < layer.len()
        invariant
            i <= layer.len(),
            nodes == ffon::forest(layer@),
            forall|j: int| 0 <= j < i ==> !markup::is_input(ffon::node_text(#[trigger] nodes[j])),
        decreases layer.len() - i,
    {
        assert(nodes[i as int] == layer@[i as int]@);
        if sicompass_sdk::tags::has_input(layer[i].text()) {
            return true;
        }
        i = i + 1;
    }
    false
}

/// Whether an element of the layer of the position can be edited.
pub fn children_have_input(r: &AppRenderer) -> (b: bool)
    ensures
        b == (ffon::layer_at(r@.ffon, r@.current_id) matches Some(layer) && some_input(layer)),
{
    match ffon::get_ffon_at_id(&r.ffon, &r.current_id) {
        Some(layer) => has_some_input(layer),
        None => false,
    }
}

/// Whether an element offers to add elements.
pub open spec fn is_adder(n: Node) -> bool {
    n matches Node::Obj { key, .. } && key == "Add element:"@
}

/// Whether an element of a layer offers to add elements.
pub open spec fn some_adder(layer: Seq<Node>) -> bool {
    exists|i: int| 0 <= i < layer.len() && is_adder(#[trigger] layer[i])
}

fn has_some_adder(layer: &Vec<FfonElement>) -> (b: bool)
    ensures
        b == some_adder(ffon::forest(layer@)),
{
    let ghost nodes = ffon::forest(layer@);
    let mut i: usize = 0;
    while i < layer.len()
        invariant
            i <= layer.len(),
            nodes == ffon::forest(layer@),
            forall|j: int| 0 <= j < i ==> !is_adder(#[trigger] nodes[j]),
        decreases layer.len() - i,
    {
        assert(nodes[i as int] == layer@[i as int]@);
        if let FfonElement::Obj(o) = &layer[i] {
            if text::same(o.key.as_str(), "Add element:") {
                assert(is_adder(nodes[i as int]));
                return true;
            }
        }
        i = i + 1;
    }
    false
}

/// Whether an element of the layer of the position offers to add elements.
pub open spec fn can_add(u: Ui) -> bool {
    ffon::layer_at(u.ffon, u.current_id) matches Some(layer) && some_adder(layer)
}

/// Whether an element of the layer of the position offers to add elements.
pub fn has_add_element_sibling(r: &AppRenderer) -> (b: bool)
    ensures
        b == can_add(r@),
{
    match ffon::get_ffon_at_id(&r.ffon, &r.current_id) {
        Some(layer) => has_some_adder(layer),
        None => false,
    }
}

/// Whether a message is being written at the path.
pub open spec fn composes(path: Seq<char>) -> bool {
    exists|i: int|
        0 <= i < path_parts(path).len() && is_compose_root(#[trigger] path_parts(path)[i])
}

/// The parts of a path.
pub open spec fn path_parts(path: Seq<char>) -> Seq<Seq<char>> {
    text::nonempty(text::split(path, '/', '/'))
}

/// Whether a message is written below the part of a path.
pub open spec fn is_compose_root(part: Seq<char>) -> bool {
    part == "compose"@ || part == "reply"@ || part == "reply all"@ || part == "forward"@
}

/// Whether a message is being written at the position.
pub fn in_email_compose(r: &AppRenderer) -> (b: bool)
    ensures
        b == (composes(provider::path_here(r@)) && below_root(r@)),
{
    let path = provider::current_path(r);
    let parts = text::split_nonempty(path.as_str(), '/', '/');
    let ghost views = path_parts(path@);
    let mut i: usize = 0;
    while i < parts.len()
        invariant
            i <= parts.len(),
            views == path_parts(path@),
            text::texts(parts@) == views,
            path@ == provider::path_here(r@),
            forall|j: int| 0 <= j < i ==> !is_compose_root(#[trigger] views[j]),
        decreases parts.len() - i,
    {
        assert(views[i as int] == parts@[i as int]@);
        let part = parts[i].as_str();
        if text::same(part, "compose") || text::same(part, "reply") || text::same(
            part,
            "reply all",
        ) || text::same(part, "forward") {
            assert(is_compose_root(views[i as int]));
            return r.current_id.depth() > 1;
        }
        i = i + 1;
    }
    assert(views.len() == parts@.len());
    false
}

/// Whether what a shortcut asks for holds.
pub open spec fn holds(u: Ui, here: Here, when: When) -> bool {
    match when {
        When::Always => true,
        When::NotAtRoot => below_root(u),
        When::HasChildren => on_parent(u),
        When::OnLink => below_root(u) && (text_here(u) matches Some(s) && markup::is_link(s)),
        When::OnButton => below_root(u) && (text_here(u) matches Some(s) && markup::is_button(s)),
        When::OnInput => below_root(u) && (text_here(u) matches Some(s) && (markup::is_input(s)
            || markup::is_input_all(s))),
        When::OnCheckbox => text_here(u) matches Some(s) && (markup::is_checkbox(s)
            || markup::is_checkbox_checked(s)),
        When::OnRadio => text_here(u) matches Some(s) && markup::is_radio(s),
        When::InFileBrowser => below_root(u) && handlers::in_filebrowser(u),
        When::InBody => below_root(u) && here.in_compose_body,
        When::Reshaping => below_root(u) && (handlers::in_filebrowser(u) || here.in_compose_body
            || can_add(u)),
        When::HasDashboard => list::active_provider(u) matches Some(p)
            && p.dashboard_image_path is Some,
        When::Saves => list::active_provider(u) is Some && here.supports_config_files,
        When::SavesHere => below_root(u) && list::active_provider(u) is Some
            && here.supports_config_files,
    }
}

/// Whether what a shortcut asks for holds.
pub fn check(r: &AppRenderer, here: Here, when: When) -> (b: bool)
    ensures
        b == holds(r@, here, when),
{
    let below = r.current_id.depth() > 1;
    match when {
        When::Always => true,
        When::NotAtRoot => below,
        When::HasChildren => focused_has_children(r),
        When::OnLink => below && focused_is_link(r),
        When::OnButton => below && focused_is_button(r),
        When::OnInput => below && focused_is_input(r),
        When::OnCheckbox => focused_is_checkbox(r),
        When::OnRadio => focused_is_radio(r),
        When::InFileBrowser => below && handlers::active_provider_is_filebrowser(r),
        When::InBody => below && here.in_compose_body,
        When::Reshaping => below && (handlers::active_provider_is_filebrowser(r)
            || here.in_compose_body || has_add_element_sibling(r)),
        When::HasDashboard => match list::get_active_provider_ref(r) {
            Some(p) => p.dashboard_image_path.is_some(),
            None => false,
        },
        When::Saves => list::get_active_provider_ref(r).is_some() && here.supports_config_files,
        When::SavesHere => below && list::get_active_provider_ref(r).is_some()
            && here.supports_config_files,
    }
}

/// Whether a key is left alone while a file to open is asked for: in a list
/// only the keys that move, choose, search and go back work, and no search
/// text is cut, pasted over or undone.
pub open spec fn left_alone(u: Ui, key: Key, ctrl: bool) -> bool {
    u.pending_file_browser_open && match u.coordinate {
        Coordinate::General => !is_choosing_key(key) || ctrl && key != Key::F,
        Coordinate::SimpleSearch => ctrl && changes_text(key),
        Coordinate::ExtendedSearch => ctrl && changes_text(key),
        _ => false,
    }
}

/// Whether a key moves, chooses, searches or goes back.
pub open spec fn is_choosing_key(key: Key) -> bool {
    ||| key is Up
    ||| key is K
    ||| key is Down
    ||| key is J
    ||| key is Right
    ||| key is L
    ||| key is Left
    ||| key is H
    ||| key is PageUp
    ||| key is PageDown
    ||| key is Home
    ||| key is End
    ||| key is Return
    ||| key is KpEnter
    ||| key is Escape
    ||| key is Backspace
    ||| key is Tab
    ||| key is F
}

/// Whether a key changes text with the control key.
pub open spec fn changes_text(key: Key) -> bool {
    key is X || key is V || key is Z
}

fn is_left_alone(r: &AppRenderer, key: Key, ctrl: bool) -> (b: bool)
    ensures
        b == left_alone(r@, key, ctrl),
{
    let choosing = matches!(
        key,
        Key::Up | Key::K | Key::Down | Key::J | Key::Right | Key::L | Key::Left | Key::H
            | Key::PageUp | Key::PageDown | Key::Home | Key::End | Key::Return | Key::KpEnter
            | Key::Escape | Key::Backspace | Key::Tab | Key::F
    );
    let changing = matches!(key, Key::X | Key::V | Key::Z);
    let find = matches!(key, Key::F);
    r.pending_file_browser_open && match r.coordinate {
        Coordinate::General => !choosing || ctrl && !find,
        Coordinate::SimpleSearch => ctrl && changing,
        Coordinate::ExtendedSearch => ctrl && changing,
        _ => false,
    }
}

/// Whether a row is for a key.
pub open spec fn is_bound(s: Shortcut, key: Key, ctrl: bool, shift: bool) -> bool {
    s.ctrl == ctrl && s.shift == shift && (s.key == key || s.key2 == Some(key))
}

/// Whether the row `i` of the table says what a key does.
pub open spec fn answers(u: Ui, here: Here, key: Key, ctrl: bool, shift: bool, i: int) -> bool {
    let s = shortcut_at(i);
    is_bound(s, key, ctrl, shift) && includes(
        s.modes,
        mode_in(u.coordinate, state::in_editor(u)),
    ) && holds(u, here, s.is_available)
}

/// Whether the row `i` is the first of the table that says what a key does.
pub open spec fn is_first(u: Ui, here: Here, key: Key, ctrl: bool, shift: bool, i: int) -> bool {
    &&& 0 <= i < SHORTCUTS
    &&& answers(u, here, key, ctrl, shift, i)
    &&& forall|j: int| 0 <= j < i ==> !#[trigger] answers(u, here, key, ctrl, shift, j)
}

/// Whether `res` is what a key does: nothing while it is left alone, else what
/// the first row of the table says that is for it, for the mode, and for what
/// holds at the position.
pub open spec fn is_action(
    u: Ui,
    here: Here,
    key: Option<Key>,
    ctrl: bool,
    shift: bool,
    res: Option<Action>,
) -> bool {
    match (key, res) {
        (Some(k), Some(action)) => !left_alone(u, k, ctrl) && exists|i: int|
            #[trigger] is_first(u, here, k, ctrl, shift, i) && action == shortcut_at(i).handle,
        (Some(k), None) => left_alone(u, k, ctrl) || forall|i: int|
            0 <= i < SHORTCUTS ==> !#[trigger] answers(u, here, k, ctrl, shift, i),
        (None, _) => res is None,
    }
}

/// What a key does.
pub fn find_action(
    r: &AppRenderer,
    here: Here,
    key: Option<Key>,
    ctrl: bool,
    shift: bool,
) -> (res: Option<Action>)
    ensures
        is_action(r@, here, key, ctrl, shift, res),
{
    let k = match key {
        Some(k) => k,
        None => {
            return None;
        },
    };
    if is_left_alone(r, k, ctrl) {
        return None;
    }
    let mode = find_mode(r.coordinate, handlers::is_in_editor(r));
    let mut i: usize = 0;
    while i < SHORTCUTS
        invariant
            i <= SHORTCUTS,
            mode == mode_in(r@.coordinate, state::in_editor(r@)),
            forall|j: int| 0 <= j < i ==> !#[trigger] answers(r@, here, k, ctrl, shift, j),
            !left_alone(r@, k, ctrl),
            key == Some(k),
        decreases SHORTCUTS - i,
    {
        let s = shortcut(i);
        let alias = match s.key2 {
            Some(other) => other == k,
            None => false,
        };
        if s.ctrl == ctrl && s.shift == shift && (s.key == k || alias) && contains_mode(
            s.modes,
            mode,
        ) && check(r, here, s.is_available) {
            assert(is_first(r@, here, k, ctrl, shift, i as int));
            return Some(s.handle);
        }
        i = i + 1;
    }
    None
}

/// Two keys pressed in the same state do the same, and a key does at most one
/// thing.
pub proof fn law_one_action(
    u: Ui,
    here: Here,
    key: Option<Key>,
    ctrl: bool,
    shift: bool,
    a: Option<Action>,
    b: Option<Action>,
)
    requires
        is_action(u, here, key, ctrl, shift, a),
        is_action(u, here, key, ctrl, shift, b),
    ensures
        a == b,
{
    if let Some(k) = key {
        if a is Some && b is Some {
            let i = choose|i: int|
                #[trigger] is_first(u, here, k, ctrl, shift, i) && a == Some(
                    shortcut_at(i).handle,
                );
            let j = choose|j: int|
                #[trigger] is_first(u, here, k, ctrl, shift, j) && b == Some(
                    shortcut_at(j).handle,
                );
            assert(is_first(u, here, k, ctrl, shift, i));
            assert(is_first(u, here, k, ctrl, shift, j));
            assert(answers(u, here, k, ctrl, shift, i));
            assert(answers(u, here, k, ctrl, shift, j));
            if i < j {
                assert(!answers(u, here, k, ctrl, shift, i));
            }
            if j < i {
                assert(!answers(u, here, k, ctrl, shift, j));
            }
        } else if a is Some {
            let i = choose|i: int| #[trigger] is_first(u, here, k, ctrl, shift, i);
            assert(answers(u, here, k, ctrl, shift, i));
        } else if b is Some {
            let i = choose|i: int| #[trigger] is_first(u, here, k, ctrl, shift, i);
            assert(answers(u, here, k, ctrl, shift, i));
        }
    }
}

/// The mode that the hints are for: where they are shown, the mode before.
pub open spec fn hinted_mode(u: Ui) -> Mode {
    mode_in(
        if u.coordinate is Meta {
            u.previous_coordinate
        } else {
            u.coordinate
        },
        state::in_editor(u),
    )
}

/// Whether the row `i` of the table is hinted at.
pub open spec fn is_hinted(u: Ui, here: Here, i: int) -> bool {
    let s = shortcut_at(i);
    s.label@.len() > 0 && includes(s.modes, hinted_mode(u)) && holds(u, here, s.is_available)
}

/// The hints of the first `n` rows of the table, each once, in their order.
pub open spec fn hints(u: Ui, here: Here, n: int) -> Seq<Seq<char>>
    decreases n,
{
    if n <= 0 {
        Seq::empty()
    } else {
        let before = hints(u, here, n - 1);
        let label = shortcut_at(n - 1).label@;
        if is_hinted(u, here, n - 1) && !before.contains(label) {
            before.push(label)
        } else {
            before
        }
    }
}

fn has_text(list: &Vec<String>, s: &str) -> (b: bool)
    ensures
        b == text::texts(list@).contains(s@),
{
    let ghost views = text::texts(list@);
    let mut i: usize = 0;
    while i < list.len()
        invariant
            i <= list.len(),
            views == text::texts(list@),
            forall|j: int| 0 <= j < i ==> #[trigger] views[j] != s@,
        decreases list.len() - i,
    {
        assert(views[i as int] == list@[i as int]@);
        if text::same(list[i].as_str(), s) {
            return true;
        }
        i = i + 1;
    }
    false
}

/// The hints that are shown.
pub fn hints_for(r: &AppRenderer, here: Here) -> (res: Vec<String>)
    ensures
        text::texts(res@) == hints(r@, here, SHORTCUTS as int),
{
    let c = match r.coordinate {
        Coordinate::Meta => r.previous_coordinate,
        _ => r.coordinate,
    };
    let mode = find_mode(c, handlers::is_in_editor(r));
    let mut res: Vec<String> = Vec::new();
    let mut i: usize = 0;
    assert(text::texts(res@) =~= Seq::empty());
    while i < SHORTCUTS
        invariant
            i <= SHORTCUTS,
            mode == hinted_mode(r@),
            text::texts(res@) == hints(r@, here, i as int),
        decreases SHORTCUTS - i,
    {
        let s = shortcut(i);
        if s.label.unicode_len() > 0 && contains_mode(s.modes, mode) && check(
            r,
            here,
            s.is_available,
        ) && !has_text(&res, s.label) {
            let ghost before = text::texts(res@);
            res.push(s.label.to_owned());
            assert(text::texts(res@) =~= before.push(s.label@));
        }
        i = i + 1;
    }
    res
}

/// No hint is shown twice.
pub proof fn law_hints_are_distinct(u: Ui, here: Here, n: int)
    ensures
        hints(u, here, n).no_duplicates(),
    decreases n,
{
    if n > 0 {
        law_hints_are_distinct(u, here, n - 1);
        let before = hints(u, here, n - 1);
        let after = hints(u, here, n);
        let label = shortcut_at(n - 1).label@;
        assert forall|i: int, j: int| 0 <= i < after.len() && 0 <= j < after.len() && i != j implies
            after[i] != after[j] by {
            if i < before.len() && j < before.len() {
                assert(before[i] != before[j]);
            } else if i < before.len() {
                assert(before.contains(before[i]));
            } else if j < before.len() {
                assert(before.contains(before[j]));
            }
        }
    }
}

/// A hint is shown if and only if a row of the table with that hint is for the
/// mode and for what holds at the position.
pub proof fn law_hints_are_complete(u: Ui, here: Here, n: int, label: Seq<char>)
    ensures
        hints(u, here, n).contains(label) <==> exists|i: int|
            0 <= i < n && #[trigger] is_hinted(u, here, i) && shortcut_at(i).label@ == label,
    decreases n,
{
    if n > 0 {
        law_hints_are_complete(u, here, n - 1, label);
        let before = hints(u, here, n - 1);
        let after = hints(u, here, n);
        let last = shortcut_at(n - 1).label@;
        if before.contains(label) {
            let i = choose|i: int| 0 <= i < before.len() && before[i] == label;
            assert(after[i] == label);
            assert(after.contains(label));
        }
        if is_hinted(u, here, n - 1) && last == label {
            if !before.contains(label) {
                assert(after[before.len() as int] == label);
            }
            assert(after.contains(label));
        }
        if after.contains(label) && !before.contains(label) {
            let i = choose|i: int| 0 <= i < after.len() && after[i] == label;
            if i < before.len() {
                assert(before[i] == label);
            }
            assert(is_hinted(u, here, n - 1) && last == label);
        }
    }
}

} // verus!
