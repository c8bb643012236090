//! What a key does: the shortcut is found, its action is done, and the active
//! tab is brought up to date.

use vstd::prelude::*;

use crate::actions;
use crate::app_state;
use crate::app_state::{AppRenderer, History, TabView, Ui};
use crate::commands;
use crate::ffon;
use crate::files;
use crate::handlers;
use crate::history;
use crate::insert;
use crate::offsets;
use crate::provider;
use crate::provider::{LeftEnd, Step, StepView, ThenView};
use crate::saving;
use crate::search;
use crate::shortcuts;
use crate::shortcuts::{Action, Here, Key};
use crate::steps;
use crate::steps::Outcome;
use crate::text;
use crate::typing;

verus! {

/// What an action that moves about leads to.
#[verifier::opaque]
pub open spec fn moved(u: Ui, action: Action, now: u64) -> Outcome {
    match action {
        Action::Up => (handlers::after_up(u, now), StepView::Done),
        Action::Down => (handlers::after_down(u, now), StepView::Done),
        Action::PageUp => (handlers::after_page_up(u), StepView::Done),
        Action::PageDown => (handlers::after_page_down(u), StepView::Done),
        Action::CtrlHome => (handlers::at_top(u), StepView::Done),
        Action::CtrlEnd => (handlers::at_bottom(u), StepView::Done),
        Action::Home => steps::after_home(u, now),
        Action::End => (handlers::after_end(u, now), StepView::Done),
        Action::Right => steps::after_right(u, now),
        Action::Left => steps::left_raw(u, LeftEnd::Key, now),
        _ => (u, StepView::Done),
    }
}

/// Whether an action that moves about can be done: nothing overflows,
/// and the cursor is where the action can start from.
#[verifier::opaque]
pub open spec fn moved_fits(u: Ui, action: Action) -> bool {
    match action {
        Action::Up => {
            u.coordinate is Scroll
                ==> i32::MIN <= u.text_scroll_offset - handlers::line_step(u)
        },
        Action::Down => {
            u.coordinate is Scroll
                ==> handlers::heights_ok(u) && u.text_scroll_offset + handlers::line_step(u) <= i32::MAX
        },
        Action::PageUp => {
            &&& u.coordinate is InputSearch
                ==> i32::MIN <= u.input_search_scroll_offset - handlers::page_size(u)
            &&& u.coordinate is Scroll || u.coordinate is ScrollSearch ==> {
                &&& i32::MIN <= u.window_height - handlers::line_step(u)
                &&& i32::MIN <= u.text_scroll_offset - (u.window_height - handlers::line_step(u)) <= i32::MAX
            }
        },
        Action::PageDown => {
            &&& u.coordinate is InputSearch
                ==> u.input_search_scroll_offset + handlers::page_size(u) <= i32::MAX
            &&& u.coordinate is Scroll || u.coordinate is ScrollSearch ==> {
                &&& handlers::heights_ok(u)
                &&& i32::MIN <= u.text_scroll_offset + (u.window_height - handlers::line_step(u)) <= i32::MAX
            }
            &&& u.list_index + handlers::page_size(u) <= usize::MAX
            &&& ffon::last_or_zero(u.current_id) + handlers::page_size(u) <= usize::MAX
        },
        Action::Home => {
            !(u.coordinate is Scroll) && !(u.coordinate is General)
                ==> u.cursor_position <= offsets::byte_len(typing::text_here(u))
        },
        Action::End => {
            u.coordinate is Scroll ==> handlers::heights_ok(u)
        },
        _ => true,
    }
}

fn go(r: &mut AppRenderer, action: Action, now: u64) -> (res: Step)
    requires
        app_state::tabs_ok(old(r)@),
        moved_fits(old(r)@, action),
    ensures
        (final(r)@, res@) == moved(old(r)@, action, now),
        app_state::tabs_ok(final(r)@),
{
    proof {
        reveal(moved);
        reveal(moved_fits);
    }
    match action {
        Action::Up => {
            handlers::handle_up(r, now);
            Step::Done
        },
        Action::Down => {
            handlers::handle_down(r, now);
            Step::Done
        },
        Action::PageUp => {
            handlers::handle_page_up(r);
            Step::Done
        },
        Action::PageDown => {
            handlers::handle_page_down(r);
            Step::Done
        },
        Action::CtrlHome => {
            handlers::handle_ctrl_home(r);
            Step::Done
        },
        Action::CtrlEnd => {
            handlers::handle_ctrl_end(r);
            Step::Done
        },
        Action::Home => steps::handle_home(r, now),
        Action::End => {
            handlers::handle_end(r, now);
            Step::Done
        },
        Action::Right => steps::handle_right(r, now),
        Action::Left => steps::handle_left(r, now),
        _ => Step::Done,
    }
}

/// What an action that moves the cursor in the text leads to.
#[verifier::opaque]
pub open spec fn typed(u: Ui, action: Action, now: u64) -> Outcome {
    match action {
        Action::UpInsert => (typing::after_up_insert(u, now), StepView::Done),
        Action::DownInsert => (typing::after_down_insert(u, now), StepView::Done),
        Action::ShiftUpInsert => (typing::after_shift_up(u, now), StepView::Done),
        Action::ShiftDownInsert => (typing::after_shift_down(u, now), StepView::Done),
        Action::ShiftLeft => (typing::after_shift_left(u, now), StepView::Done),
        Action::ShiftRight => (typing::after_shift_right(u, now), StepView::Done),
        Action::ShiftHome => (typing::after_shift_home(u, now), StepView::Done),
        Action::ShiftEnd => (typing::after_shift_end(u, now), StepView::Done),
        Action::SelectAll => (typing::all_selected(u, now), StepView::Done),
        _ => (u, StepView::Done),
    }
}

/// Whether an action that moves the cursor in the text can be done: nothing overflows,
/// and the cursor is where the action can start from.
#[verifier::opaque]
pub open spec fn typed_fits(u: Ui, action: Action) -> bool {
    match action {
        Action::UpInsert => offsets::at_char(typing::text_here(u), u.cursor_position as int),
        Action::DownInsert => offsets::at_char(typing::text_here(u), u.cursor_position as int),
        Action::ShiftUpInsert => offsets::at_char(typing::text_here(u), u.cursor_position as int),
        Action::ShiftDownInsert => offsets::at_char(typing::text_here(u), u.cursor_position as int),
        Action::ShiftLeft => {
            u.cursor_position > 0
                ==> offsets::at_char(typing::text_here(u), u.cursor_position as int)
        },
        Action::ShiftRight => {
            u.cursor_position < offsets::byte_len(typing::text_here(u))
                ==> offsets::at_char(typing::text_here(u), u.cursor_position as int)
        },
        Action::ShiftHome => u.cursor_position <= offsets::byte_len(typing::text_here(u)),
        _ => true,
    }
}

fn step(r: &mut AppRenderer, action: Action, now: u64) -> (res: Step)
    requires
        app_state::tabs_ok(old(r)@),
        typed_fits(old(r)@, action),
    ensures
        (final(r)@, res@) == typed(old(r)@, action, now),
        app_state::tabs_ok(final(r)@),
{
    proof {
        reveal(typed);
        reveal(typed_fits);
    }
    match action {
        Action::UpInsert => {
            typing::handle_up_insert(r, now);
            Step::Done
        },
        Action::DownInsert => {
            typing::handle_down_insert(r, now);
            Step::Done
        },
        Action::ShiftUpInsert => {
            typing::handle_shift_up_insert(r, now);
            Step::Done
        },
        Action::ShiftDownInsert => {
            typing::handle_shift_down_insert(r, now);
            Step::Done
        },
        Action::ShiftLeft => {
            typing::handle_shift_left(r, now);
            Step::Done
        },
        Action::ShiftRight => {
            typing::handle_shift_right(r, now);
            Step::Done
        },
        Action::ShiftHome => {
            typing::handle_shift_home(r, now);
            Step::Done
        },
        Action::ShiftEnd => {
            typing::handle_shift_end(r, now);
            Step::Done
        },
        Action::SelectAll => {
            typing::handle_select_all(r, now);
            Step::Done
        },
        _ => Step::Done,
    }
}

/// What an action that changes the text leads to.
#[verifier::opaque]
pub open spec fn erased(u: Ui, action: Action, now: u64) -> Outcome {
    match action {
        Action::Backspace => (typing::after_backspace(u, now), StepView::Done),
        Action::DeleteForward => (typing::after_delete_forward(u, now), StepView::Done),
        Action::Newline => (handlers::after_newline(u, now), StepView::Done),
        _ => (u, StepView::Done),
    }
}

/// Whether an action that changes the text can be done: nothing overflows,
/// and the cursor is where the action can start from.
#[verifier::opaque]
pub open spec fn erased_fits(u: Ui, action: Action) -> bool {
    match action {
        Action::Backspace => {
            &&& u.coordinate is SimpleSearch
                ==> typing::can_type(u.search_string, u.cursor_position)
            &&& typing::edits_buffer(u.coordinate) ==> typing::cursor_ok(u)
        },
        Action::DeleteForward => {
            &&& typing::selecting(u) ==> typing::cursor_ok(u)
            &&& u.cursor_position < offsets::byte_len(typing::text_here(u))
                ==> offsets::at_char(typing::text_here(u), u.cursor_position as int)
        },
        Action::Newline => typing::typing_ok(u),
        _ => true,
    }
}

fn erase(r: &mut AppRenderer, action: Action, now: u64) -> (res: Step)
    requires
        app_state::tabs_ok(old(r)@),
        erased_fits(old(r)@, action),
    ensures
        (final(r)@, res@) == erased(old(r)@, action, now),
        app_state::tabs_ok(final(r)@),
{
    proof {
        reveal(erased);
        reveal(erased_fits);
    }
    match action {
        Action::Backspace => {
            typing::handle_backspace(r, now);
            Step::Done
        },
        Action::DeleteForward => {
            typing::handle_delete_forward(r, now);
            Step::Done
        },
        Action::Newline => {
            handlers::handle_ctrl_enter(r, now);
            Step::Done
        },
        _ => Step::Done,
    }
}

/// What an action that switches the mode leads to.
#[verifier::opaque]
pub open spec fn switched(u: Ui, action: Action, now: u64) -> Outcome {
    match action {
        Action::Escape => (handlers::escaped(u, now), StepView::Done),
        Action::ConfirmEditor => (handlers::escaped(u, now), StepView::Done),
        Action::Tab => (handlers::search_started(u), StepView::Done),
        Action::Colon => (handlers::command_started(u), StepView::Done),
        Action::Insert => (handlers::editing_started(u, false, now), StepView::Done),
        Action::InsertAtEnd => (handlers::editing_started(u, true, now), StepView::Done),
        Action::Dashboard => (handlers::dashboard_opened(u), StepView::Done),
        Action::Scroll => (handlers::scrolling_started(u), StepView::Done),
        Action::Meta => (handlers::hints_opened(u), StepView::Done),
        Action::Find => (handlers::after_find(u, now), StepView::Done),
        _ => (u, StepView::Done),
    }
}

fn switch(r: &mut AppRenderer, action: Action, now: u64) -> (res: Step)
    requires
        app_state::tabs_ok(old(r)@),
    ensures
        (final(r)@, res@) == switched(old(r)@, action, now),
        app_state::tabs_ok(final(r)@),
{
    proof {
        reveal(switched);
    }
    match action {
        Action::Escape => {
            handlers::handle_escape(r, now);
            Step::Done
        },
        Action::ConfirmEditor => {
            handlers::handle_escape(r, now);
            Step::Done
        },
        Action::Tab => {
            handlers::handle_tab(r);
            Step::Done
        },
        Action::Colon => {
            handlers::handle_colon(r);
            Step::Done
        },
        Action::Insert => {
            handlers::handle_i(r, now);
            Step::Done
        },
        Action::InsertAtEnd => {
            handlers::handle_a(r, now);
            Step::Done
        },
        Action::Dashboard => {
            handlers::handle_dashboard(r);
            Step::Done
        },
        Action::Scroll => {
            handlers::handle_s(r);
            Step::Done
        },
        Action::Meta => {
            handlers::handle_meta(r);
            Step::Done
        },
        Action::Find => {
            handlers::handle_ctrl_f(r, now);
            Step::Done
        },
        _ => Step::Done,
    }
}

/// What an action that edits the tree or the files leads to.
#[verifier::opaque]
pub open spec fn edited(u: Ui, action: Action, pasted: Option<Seq<char>>, now: u64) -> Outcome {
    match action {
        Action::Append => (handlers::after_append(u, now), StepView::Done),
        Action::InsertPlaceholder => (handlers::after_placeholder(u, false, now), StepView::Done),
        Action::AppendPlaceholder => (handlers::after_placeholder(u, true, now), StepView::Done),
        Action::DeleteElement => (handlers::after_delete(u, History::NoHistory, now), StepView::Done),
        Action::DeleteFile => (u, files::deleting_file(u)),
        Action::Paste => files::after_paste(u, pasted, now),
        _ => (u, StepView::Done),
    }
}

/// Whether an action that edits the tree or the files can be done: nothing overflows,
/// and the cursor is where the action can start from.
#[verifier::opaque]
pub open spec fn edited_fits(u: Ui, action: Action) -> bool {
    match action {
        Action::Append => ffon::last_or_zero(u.current_id) < usize::MAX,
        Action::Paste => {
            files::edits_text(u.coordinate) ==> if typing::selecting(u) {
                typing::cursor_ok(u)
            } else {
                typing::can_type(typing::text_here(u), u.cursor_position)
            }
        },
        _ => true,
    }
}

fn edit(r: &mut AppRenderer, action: Action, pasted: Option<String>, now: u64) -> (res: Step)
    requires
        app_state::tabs_ok(old(r)@),
        edited_fits(old(r)@, action),
    ensures
        (final(r)@, res@) == edited(old(r)@, action, text::opt_text(pasted), now),
        app_state::tabs_ok(final(r)@),
{
    proof {
        reveal(edited);
        reveal(edited_fits);
    }
    match action {
        Action::Append => {
            handlers::handle_append(r, now);
            Step::Done
        },
        Action::InsertPlaceholder => {
            handlers::handle_ctrl_i_operator(r, now);
            Step::Done
        },
        Action::AppendPlaceholder => {
            handlers::handle_ctrl_a_operator(r, now);
            Step::Done
        },
        Action::DeleteElement => {
            handlers::handle_delete(r, History::NoHistory, now);
            Step::Done
        },
        Action::DeleteFile => files::handle_file_delete(r),
        Action::Paste => files::handle_ctrl_v(r, pasted, now),
        _ => Step::Done,
    }
}

/// What an action that confirms, undoes or saves leads to.
#[verifier::opaque]
pub open spec fn entered(u: Ui, action: Action, save_dir: Seq<char>, now: u64) -> Outcome {
    match action {
        Action::EnterOperator => actions::after_enter(u),
        Action::EnterSearch => search::search_entered(u, now),
        Action::EnterCommand => commands::command_entered(u, now),
        Action::EnterInsert => insert::edit_entered(u, save_dir, now),
        Action::Undo => history::after_undo(u, now),
        Action::Redo => history::after_redo(u, now),
        Action::Refresh => (u, provider::fetching(u, ThenView::F5)),
        Action::Save => saving::save_started(u, save_dir),
        Action::SaveAs => saving::save_as_started(u, save_dir),
        _ => (u, StepView::Done),
    }
}

fn enter(r: &mut AppRenderer, action: Action, save_dir: &str, now: u64) -> (res: Step)
    requires
        app_state::tabs_ok(old(r)@),
    ensures
        (final(r)@, res@) == entered(old(r)@, action, save_dir@, now),
        app_state::tabs_ok(final(r)@),
{
    proof {
        reveal(entered);
    }
    match action {
        Action::EnterOperator => actions::handle_enter_operator(r),
        Action::EnterSearch => search::handle_enter_search(r, now),
        Action::EnterCommand => commands::handle_enter_command(r, now),
        Action::EnterInsert => insert::handle_enter_operator_insert(r, save_dir, now),
        Action::Undo => history::handle_undo(r, now),
        Action::Redo => history::handle_redo(r, now),
        Action::Refresh => steps::handle_f5(r),
        Action::Save => saving::handle_save_provider_config(r, save_dir),
        Action::SaveAs => saving::handle_save_as_provider_config(r, save_dir),
        _ => Step::Done,
    }
}

/// What an action leads to, apart from what is done next outside.
pub struct Effects {
    /// What to do next outside.
    pub step: Step,
    /// What to put on the clipboard of the system.
    pub copied: Option<String>,
    /// Whether an element is put first once the step is done.
    pub insert_first: bool,
    /// The action, where it is left to whoever holds the window.
    pub left: Option<Action>,
}

/// What an action leads to, as values.
pub struct EffectsView {
    pub step: StepView,
    pub copied: Option<Seq<char>>,
    pub insert_first: bool,
    pub left: Option<Action>,
}

impl View for Effects {
    type V = EffectsView;

    open spec fn view(&self) -> EffectsView {
        EffectsView {
            step: self.step@,
            copied: text::opt_text(self.copied),
            insert_first: self.insert_first,
            left: self.left,
        }
    }
}

/// The effects of a step alone.
pub open spec fn only(step: StepView) -> EffectsView {
    EffectsView { step, copied: None, insert_first: false, left: None }
}

fn step_only(step: Step) -> (res: Effects)
    ensures
        res@ == only(step@),
{
    Effects { step, copied: None, insert_first: false, left: None }
}

/// The effects of a step alone, with the state that goes with it.
pub open spec fn outcome(o: Outcome) -> (Ui, EffectsView) {
    (o.0, only(o.1))
}

/// What lies outside when a key is pressed.
pub struct Outside {
    pub here: Here,
    /// Where what is cut is kept.
    pub cache_dir: String,
    /// Where files are saved.
    pub save_dir: String,
    /// What is on the clipboard of the system.
    pub clipboard: Option<String>,
    /// The time in milliseconds.
    pub now: u64,
}

/// What lies outside when a key is pressed, as values.
pub struct OutsideView {
    pub here: Here,
    pub cache_dir: Seq<char>,
    pub save_dir: Seq<char>,
    pub clipboard: Option<Seq<char>>,
    pub now: u64,
}

impl View for Outside {
    type V = OutsideView;

    open spec fn view(&self) -> OutsideView {
        OutsideView {
            here: self.here,
            cache_dir: self.cache_dir@,
            save_dir: self.save_dir@,
            clipboard: text::opt_text(self.clipboard),
            now: self.now,
        }
    }
}

/// The kinds of actions.
#[derive(Debug, Clone, Copy, PartialEq, Eq, Structural)]
pub enum Kind {
    Moving,
    Stepping,
    Erasing,
    Switching,
    Editing,
    Entering,
    Cutting,
    Copying,
    Inserting,
    Left,
}

/// The kind of an action.
pub open spec fn kind_of(action: Action) -> Kind {
    match action {
        Action::Up => Kind::Moving,
        Action::Down => Kind::Moving,
        Action::Right => Kind::Moving,
        Action::Left => Kind::Moving,
        Action::PageUp => Kind::Moving,
        Action::PageDown => Kind::Moving,
        Action::Home => Kind::Moving,
        Action::End => Kind::Moving,
        Action::CtrlHome => Kind::Moving,
        Action::CtrlEnd => Kind::Moving,
        Action::UpInsert => Kind::Stepping,
        Action::ShiftUpInsert => Kind::Stepping,
        Action::DownInsert => Kind::Stepping,
        Action::ShiftDownInsert => Kind::Stepping,
        Action::ShiftRight => Kind::Stepping,
        Action::ShiftLeft => Kind::Stepping,
        Action::ShiftHome => Kind::Stepping,
        Action::ShiftEnd => Kind::Stepping,
        Action::SelectAll => Kind::Stepping,
        Action::Backspace => Kind::Erasing,
        Action::DeleteForward => Kind::Erasing,
        Action::Newline => Kind::Erasing,
        Action::Escape => Kind::Switching,
        Action::Tab => Kind::Switching,
        Action::ConfirmEditor => Kind::Switching,
        Action::Colon => Kind::Switching,
        Action::Insert => Kind::Switching,
        Action::InsertAtEnd => Kind::Switching,
        Action::Dashboard => Kind::Switching,
        Action::Scroll => Kind::Switching,
        Action::Meta => Kind::Switching,
        Action::Find => Kind::Switching,
        Action::Append => Kind::Editing,
        Action::InsertPlaceholder => Kind::Editing,
        Action::AppendPlaceholder => Kind::Editing,
        Action::DeleteElement => Kind::Editing,
        Action::DeleteFile => Kind::Editing,
        Action::Paste => Kind::Editing,
        Action::EnterOperator => Kind::Entering,
        Action::EnterSearch => Kind::Entering,
        Action::EnterCommand => Kind::Entering,
        Action::EnterInsert => Kind::Entering,
        Action::Undo => Kind::Entering,
        Action::Redo => Kind::Entering,
        Action::Refresh => Kind::Entering,
        Action::Save => Kind::Entering,
        Action::SaveAs => Kind::Entering,
        Action::Cut => Kind::Cutting,
        Action::Copy => Kind::Copying,
        Action::InsertElement => Kind::Inserting,
        Action::InputSearchUp => Kind::Left,
        Action::InputSearchDown => Kind::Left,
        Action::SearchRight => Kind::Left,
        Action::CursorRight => Kind::Left,
        Action::CommandRight => Kind::Left,
        Action::SearchLeft => Kind::Left,
        Action::CursorLeft => Kind::Left,
        Action::AppendElement => Kind::Left,
        Action::InsertOnward => Kind::Left,
        Action::AppendOnward => Kind::Left,
        Action::DeleteBodyElement => Kind::Left,
        Action::Open => Kind::Left,
    }
}

pub(crate) fn find_kind(action: Action) -> (k: Kind)
    ensures
        k == kind_of(action),
{
    match action {
        Action::Up => Kind::Moving,
        Action::Down => Kind::Moving,
        Action::Right => Kind::Moving,
        Action::Left => Kind::Moving,
        Action::PageUp => Kind::Moving,
        Action::PageDown => Kind::Moving,
        Action::Home => Kind::Moving,
        Action::End => Kind::Moving,
        Action::CtrlHome => Kind::Moving,
        Action::CtrlEnd => Kind::Moving,
        Action::UpInsert => Kind::Stepping,
        Action::ShiftUpInsert => Kind::Stepping,
        Action::DownInsert => Kind::Stepping,
        Action::ShiftDownInsert => Kind::Stepping,
        Action::ShiftRight => Kind::Stepping,
        Action::ShiftLeft => Kind::Stepping,
        Action::ShiftHome => Kind::Stepping,
        Action::ShiftEnd => Kind::Stepping,
        Action::SelectAll => Kind::Stepping,
        Action::Backspace => Kind::Erasing,
        Action::DeleteForward => Kind::Erasing,
        Action::Newline => Kind::Erasing,
        Action::Escape => Kind::Switching,
        Action::Tab => Kind::Switching,
        Action::ConfirmEditor => Kind::Switching,
        Action::Colon => Kind::Switching,
        Action::Insert => Kind::Switching,
        Action::InsertAtEnd => Kind::Switching,
        Action::Dashboard => Kind::Switching,
        Action::Scroll => Kind::Switching,
        Action::Meta => Kind::Switching,
        Action::Find => Kind::Switching,
        Action::Append => Kind::Editing,
        Action::InsertPlaceholder => Kind::Editing,
        Action::AppendPlaceholder => Kind::Editing,
        Action::DeleteElement => Kind::Editing,
        Action::DeleteFile => Kind::Editing,
        Action::Paste => Kind::Editing,
        Action::EnterOperator => Kind::Entering,
        Action::EnterSearch => Kind::Entering,
        Action::EnterCommand => Kind::Entering,
        Action::EnterInsert => Kind::Entering,
        Action::Undo => Kind::Entering,
        Action::Redo => Kind::Entering,
        Action::Refresh => Kind::Entering,
        Action::Save => Kind::Entering,
        Action::SaveAs => Kind::Entering,
        Action::Cut => Kind::Cutting,
        Action::Copy => Kind::Copying,
        Action::InsertElement => Kind::Inserting,
        Action::InputSearchUp => Kind::Left,
        Action::InputSearchDown => Kind::Left,
        Action::SearchRight => Kind::Left,
        Action::CursorRight => Kind::Left,
        Action::CommandRight => Kind::Left,
        Action::SearchLeft => Kind::Left,
        Action::CursorLeft => Kind::Left,
        Action::AppendElement => Kind::Left,
        Action::InsertOnward => Kind::Left,
        Action::AppendOnward => Kind::Left,
        Action::DeleteBodyElement => Kind::Left,
        Action::Open => Kind::Left,
    }
}

/// Whether nothing overflows in an action, and the cursor is where the action
/// can start from.
#[verifier::opaque]
pub open spec fn fits(u: Ui, action: Action) -> bool {
    match kind_of(action) {
        Kind::Moving => moved_fits(u, action),
        Kind::Stepping => typed_fits(u, action),
        Kind::Erasing => erased_fits(u, action),
        Kind::Editing => edited_fits(u, action),
        Kind::Cutting => files::edits_text(u.coordinate) && typing::selecting(u)
            ==> typing::cursor_ok(u),
        Kind::Copying => files::edits_text(u.coordinate) && typing::selecting(u)
            ==> typing::cursor_ok(u),
        _ => true,
    }
}

/// What an action leads to.
#[verifier::opaque]
pub open spec fn performed(u: Ui, action: Action, o: OutsideView) -> (Ui, EffectsView) {
    match kind_of(action) {
        Kind::Moving => outcome(moved(u, action, o.now)),
        Kind::Stepping => outcome(typed(u, action, o.now)),
        Kind::Erasing => outcome(erased(u, action, o.now)),
        Kind::Switching => outcome(switched(u, action, o.now)),
        Kind::Editing => outcome(edited(u, action, o.clipboard, o.now)),
        Kind::Entering => outcome(entered(u, action, o.save_dir, o.now)),
        Kind::Cutting => {
            let cut = files::after_cut(u, o.cache_dir, o.now);
            (cut.0, EffectsView { step: cut.2, copied: cut.1, insert_first: false, left: None })
        },
        Kind::Copying => {
            let copy = files::after_copy(u);
            (
                copy.0,
                EffectsView {
                    step: StepView::Done,
                    copied: copy.1,
                    insert_first: false,
                    left: None,
                },
            )
        },
        Kind::Inserting => {
            let put = history::after_insert_key(u, History::NoHistory, o.now);
            (put.0, EffectsView { step: put.1, copied: None, insert_first: put.2, left: None })
        },
        Kind::Left => (
            u,
            EffectsView {
                step: StepView::Done,
                copied: None,
                insert_first: false,
                left: Some(action),
            },
        ),
    }
}

/// Do an action.
pub fn perform(r: &mut AppRenderer, action: Action, o: Outside) -> (res: Effects)
    requires
        app_state::tabs_ok(old(r)@),
        fits(old(r)@, action),
    ensures
        (final(r)@, res@) == performed(old(r)@, action, o@),
        app_state::tabs_ok(final(r)@),
{
    proof {
        reveal(performed);
        reveal(fits);
    }
    match find_kind(action) {
        Kind::Moving => step_only(go(r, action, o.now)),
        Kind::Stepping => step_only(step(r, action, o.now)),
        Kind::Erasing => step_only(erase(r, action, o.now)),
        Kind::Switching => step_only(switch(r, action, o.now)),
        Kind::Editing => step_only(edit(r, action, o.clipboard, o.now)),
        Kind::Entering => step_only(enter(r, action, o.save_dir.as_str(), o.now)),
        Kind::Cutting => {
            let (copied, step) = files::handle_ctrl_x(r, o.cache_dir.as_str(), o.now);
            Effects { step, copied, insert_first: false, left: None }
        },
        Kind::Copying => {
            let copied = files::handle_ctrl_c(r);
            Effects { step: Step::Done, copied, insert_first: false, left: None }
        },
        Kind::Inserting => {
            let (step, insert_first) = history::handle_ctrl_i(r, History::NoHistory, o.now);
            Effects { step, copied: None, insert_first, left: None }
        },
        Kind::Left => Effects {
            step: Step::Done,
            copied: None,
            insert_first: false,
            left: Some(action),
        },
    }
}

/// The tabs with the active one brought up to date.
pub open spec fn tabs_noted(u: Ui) -> Seq<TabView> {
    if u.active_tab < u.tabs.len() {
        u.tabs.update(
            u.active_tab as int,
            TabView {
                current_id: u.current_id,
                provider_path: app_state::provider_path(u),
                ..u.tabs[u.active_tab as int]
            },
        )
    } else {
        u.tabs
    }
}

/// `u` with the active tab brought up to date.
#[verifier::opaque]
pub open spec fn tab_noted(u: Ui) -> Ui {
    Ui { tabs: tabs_noted(u), ..u }
}

/// Whether the active tab is not where the position is.
pub open spec fn tab_stale(u: Ui) -> bool {
    u.active_tab < u.tabs.len() && (u.tabs[u.active_tab as int].current_id != u.current_id
        || u.tabs[u.active_tab as int].provider_path != app_state::provider_path(u))
}

/// Bring the active tab up to date; says whether that changed it.
pub fn note_tab(r: &mut AppRenderer) -> (changed: bool)
    ensures
        final(r)@ == tab_noted(old(r)@),
        changed == tab_stale(old(r)@),
        app_state::tabs_ok(old(r)@) ==> app_state::tabs_ok(final(r)@),
{
    proof {
        reveal(tab_noted);
    }
    let path = app_state::active_provider_path(r);
    let id = r.current_id.clone();
    let i = r.active_tab;
    if i < r.tabs.len() {
        let ghost before = app_state::tabs(r.tabs@);
        let stale = !r.tabs[i].current_id.same(&id) || !text::same(
            r.tabs[i].provider_path.as_str(),
            path.as_str(),
        );
        let tab = &mut r.tabs[i];
        tab.current_id = id;
        tab.provider_path = path;
        assert(app_state::tabs(r.tabs@) =~= tabs_noted(old(r)@));
        stale
    } else {
        assert(app_state::tabs(r.tabs@) =~= tabs_noted(old(r)@));
        false
    }
}

/// Whether nothing overflows in what a key does, and the cursor is where it can
/// start from.
pub open spec fn ready(u: Ui, here: Here, key: Option<Key>, ctrl: bool, shift: bool) -> bool {
    forall|action: Action|
        shortcuts::is_action(u, here, key, ctrl, shift, Some(action)) ==> #[trigger] fits(u, action)
}

/// What a key leads to, where its action is `action`: what the action leads
/// to, with the active tab brought up to date, and whether the tabs are to be
/// kept on disk. They are where the active tab is no longer what it was, and
/// the action neither switched the tab nor opened or closed one.
#[verifier::opaque]
pub open spec fn dispatched(u: Ui, action: Option<Action>, o: OutsideView) -> (
    Ui,
    EffectsView,
    bool,
) {
    let (v, effects) = match action {
        Some(a) => performed(u, a, o),
        None => (u, only(StepView::Done)),
    };
    (
        tab_noted(v),
        effects,
        tab_stale(v) && v.active_tab == u.active_tab && v.tabs.len() == u.tabs.len(),
    )
}

/// Do what a key does; says also whether the tabs are to be kept on disk.
pub fn dispatch_key(
    r: &mut AppRenderer,
    key: Option<Key>,
    ctrl: bool,
    shift: bool,
    o: Outside,
) -> (res: (Effects, bool))
    requires
        app_state::tabs_ok(old(r)@),
        ready(old(r)@, o.here, key, ctrl, shift),
    ensures
        exists|action: Option<Action>|
            #[trigger] shortcuts::is_action(old(r)@, o.here, key, ctrl, shift, action) && (
            final(r)@,
            res.0@,
            res.1,
            ) == dispatched(old(r)@, action, o@),
        app_state::tabs_ok(final(r)@),
{
    proof {
        reveal(dispatched);
    }
    let active = r.active_tab;
    let count = r.tabs.len();
    let action = shortcuts::find_action(r, o.here, key, ctrl, shift);
    let effects = match action {
        Some(a) => {
            assert(fits(r@, a));
            perform(r, a, o)
        },
        None => step_only(Step::Done),
    };
    let same = r.active_tab == active && r.tabs.len() == count;
    let changed = note_tab(r);
    assert(shortcuts::is_action(old(r)@, o.here, key, ctrl, shift, action));
    (effects, changed && same)
}

/// A key that is not given does nothing but bring the active tab up to date.
pub proof fn law_no_key(u: Ui, here: Here, ctrl: bool, shift: bool, o: OutsideView)
    ensures
        shortcuts::is_action(u, here, None, ctrl, shift, None),
        dispatched(u, None, o).0 == tab_noted(u),
        dispatched(u, None, o).1 == only(StepView::Done),
{
    reveal(dispatched);
}

/// After any key the active tab is where the position is.
pub proof fn law_tab_follows(u: Ui, action: Option<Action>, o: OutsideView)
    ensures
        !tab_stale(dispatched(u, action, o).0),
{
    reveal(dispatched);
    reveal(tab_noted);
}

/// Any key can be pressed before anything is loaded.
pub proof fn law_new_ui_is_ready(here: Here, key: Option<Key>, ctrl: bool, shift: bool)
    ensures
        ready(app_state::new_ui(), here, key, ctrl, shift),
{
    let u = app_state::new_ui();
    offsets::lemma_offset_ends(Seq::empty());
    assert(offsets::at_char(Seq::empty(), 0)) by {
        reveal(offsets::at_char);
        assert(offsets::offset(Seq::<char>::empty(), 0) == 0);
    }
    assert(handlers::line_step(u) == 20);
    assert((u.window_height as int) / handlers::line_step(u) == 30) by (nonlinear_arith)
        requires
            u.window_height == 600,
            handlers::line_step(u) == 20,
    ;
    assert forall|action: Action| #[trigger] fits(u, action) by {
        reveal(fits);
        reveal(moved_fits);
        reveal(typed_fits);
        reveal(erased_fits);
        reveal(edited_fits);
    }
}

} // verus!
