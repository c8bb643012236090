//! Whether an action can be done: nothing overflows in it, and the cursor is
//! where it can start from. Who holds the window asks before a key is given on.

use vstd::prelude::*;

use crate::app_state::{AppRenderer, Coordinate};
use crate::events;
use crate::events::Kind;
use crate::files;
use crate::handlers;
use crate::offsets;
use crate::shortcuts;
use crate::shortcuts::{Action, Here, Key};
use crate::typing;

verus! {

fn fits_i32(n: i64) -> (b: bool)
    ensures
        b == (i32::MIN <= n <= i32::MAX),
{
    n >= i32::MIN as i64 && n <= i32::MAX as i64
}

fn are_heights_ok(r: &AppRenderer) -> (b: bool)
    ensures
        b == handlers::heights_ok(r@),
{
    let view: i64 = r.window_height as i64 - handlers::line_height(r) as i64;
    view >= i32::MIN as i64 && fits_i32(r.text_scroll_total_height as i64 - view)
}

fn is_cursor_ok(r: &AppRenderer) -> (b: bool)
    ensures
        b == typing::cursor_ok(r@),
{
    offsets::is_at_char(typing::text_ref(r), r.cursor_position) && match r.selection_anchor {
        Some(a) => offsets::is_at_char(typing::text_ref(r), a),
        None => true,
    }
}

fn can_type_in(s: &str, pos: usize) -> (b: bool)
    ensures
        b == typing::can_type(s@, pos),
{
    let n: usize = offsets::byte_length(s);
    offsets::is_at_char(
        s,
        if pos <= n {
            pos
        } else {
            n
        },
    )
}

/// Whether text can be typed.
pub fn can_type(r: &AppRenderer) -> (b: bool)
    ensures
        b == typing::typing_ok(r@),
{
    match r.coordinate {
        Coordinate::SimpleSearch => can_type_in(typing::text_ref(r), r.cursor_position),
        Coordinate::Command | Coordinate::Insert => if typing::has_selection(r) {
            is_cursor_ok(r)
        } else {
            can_type_in(typing::text_ref(r), r.cursor_position)
        },
        Coordinate::ScrollSearch | Coordinate::ExtendedSearch => can_type_in(
            typing::text_ref(r),
            r.cursor_position,
        ),
        _ => true,
    }
}

fn can_turn_up(r: &AppRenderer) -> (b: bool)
    ensures
        b == events::moved_fits(r@, Action::PageUp),
{
    proof {
        reveal(events::moved_fits);
    }
    let view: i64 = r.window_height as i64 - handlers::line_height(r) as i64;
    match r.coordinate {
        Coordinate::InputSearch => r.input_search_scroll_offset as i64 - handlers::page_lines(
            r,
        ) as i64 >= i32::MIN as i64,
        Coordinate::Scroll | Coordinate::ScrollSearch => view >= i32::MIN as i64 && fits_i32(
            r.text_scroll_offset as i64 - view,
        ),
        _ => true,
    }
}

fn can_turn_down(r: &AppRenderer) -> (b: bool)
    ensures
        b == events::moved_fits(r@, Action::PageDown),
{
    proof {
        reveal(events::moved_fits);
    }
    let page: i32 = handlers::page_lines(r);
    let view: i64 = r.window_height as i64 - handlers::line_height(r) as i64;
    let scrolls = match r.coordinate {
        Coordinate::InputSearch => r.input_search_scroll_offset as i64 + page as i64
            <= i32::MAX as i64,
        Coordinate::Scroll | Coordinate::ScrollSearch => are_heights_ok(r) && fits_i32(
            r.text_scroll_offset as i64 + view,
        ),
        _ => true,
    };
    let last: usize = match r.current_id.last() {
        Some(i) => i,
        None => 0,
    };
    scrolls && r.list_index <= usize::MAX - page as usize && last <= usize::MAX - page as usize
}

fn can_move(r: &AppRenderer, action: Action) -> (b: bool)
    ensures
        b == events::moved_fits(r@, action),
{
    proof {
        reveal(events::moved_fits);
    }
    match action {
        Action::Up => r.coordinate != Coordinate::Scroll || r.text_scroll_offset as i64
            - handlers::line_height(r) as i64 >= i32::MIN as i64,
        Action::Down => r.coordinate != Coordinate::Scroll || (are_heights_ok(r)
            && r.text_scroll_offset as i64 + handlers::line_height(r) as i64 <= i32::MAX as i64),
        Action::PageUp => can_turn_up(r),
        Action::PageDown => can_turn_down(r),
        Action::Home => r.coordinate == Coordinate::Scroll || r.coordinate == Coordinate::General
            || r.cursor_position <= offsets::byte_length(typing::text_ref(r)),
        Action::End => r.coordinate != Coordinate::Scroll || are_heights_ok(r),
        _ => true,
    }
}

fn can_step(r: &AppRenderer, action: Action) -> (b: bool)
    ensures
        b == events::typed_fits(r@, action),
{
    proof {
        reveal(events::typed_fits);
    }
    let buffer = typing::text_ref(r);
    match action {
        Action::UpInsert
        | Action::DownInsert
        | Action::ShiftUpInsert
        | Action::ShiftDownInsert => offsets::is_at_char(buffer, r.cursor_position),
        Action::ShiftLeft => r.cursor_position == 0 || offsets::is_at_char(
            buffer,
            r.cursor_position,
        ),
        Action::ShiftRight => r.cursor_position >= offsets::byte_length(buffer)
            || offsets::is_at_char(buffer, r.cursor_position),
        Action::ShiftHome => r.cursor_position <= offsets::byte_length(buffer),
        _ => true,
    }
}

fn is_buffer_edited(r: &AppRenderer) -> (b: bool)
    ensures
        b == typing::edits_buffer(r@.coordinate),
{
    match r.coordinate {
        Coordinate::Command
        | Coordinate::Insert
        | Coordinate::ScrollSearch
        | Coordinate::ExtendedSearch => true,
        _ => false,
    }
}

fn can_erase(r: &AppRenderer, action: Action) -> (b: bool)
    ensures
        b == events::erased_fits(r@, action),
{
    proof {
        reveal(events::erased_fits);
    }
    match action {
        Action::Backspace => {
            (r.coordinate != Coordinate::SimpleSearch || can_type_in(
                typing::text_ref(r),
                r.cursor_position,
            )) && (!is_buffer_edited(r) || is_cursor_ok(r))
        },
        Action::DeleteForward => {
            (!typing::has_selection(r) || is_cursor_ok(r)) && (r.cursor_position
                >= offsets::byte_length(typing::text_ref(r)) || offsets::is_at_char(
                typing::text_ref(r),
                r.cursor_position,
            ))
        },
        Action::Newline => can_type(r),
        _ => true,
    }
}

fn can_edit(r: &AppRenderer, action: Action) -> (b: bool)
    ensures
        b == events::edited_fits(r@, action),
{
    proof {
        reveal(events::edited_fits);
    }
    match action {
        Action::Append => match r.current_id.last() {
            Some(i) => i < usize::MAX,
            None => true,
        },
        Action::Paste => !files::is_text_edit_mode(r) || if typing::has_selection(r) {
            is_cursor_ok(r)
        } else {
            can_type_in(typing::text_ref(r), r.cursor_position)
        },
        _ => true,
    }
}

/// Whether an action can be done.
pub fn can_perform(r: &AppRenderer, action: Action) -> (b: bool)
    ensures
        b == events::fits(r@, action),
{
    proof {
        reveal(events::fits);
    }
    match events::find_kind(action) {
        Kind::Moving => can_move(r, action),
        Kind::Stepping => can_step(r, action),
        Kind::Erasing => can_erase(r, action),
        Kind::Editing => can_edit(r, action),
        Kind::Cutting | Kind::Copying => !files::is_text_edit_mode(r) || !typing::has_selection(r)
            || is_cursor_ok(r),
        _ => true,
    }
}

/// Whether what a key does can be done.
pub fn can_dispatch(
    r: &AppRenderer,
    here: Here,
    key: Option<Key>,
    ctrl: bool,
    shift: bool,
) -> (b: bool)
    ensures
        b == events::ready(r@, here, key, ctrl, shift),
{
    match shortcuts::find_action(r, here, key, ctrl, shift) {
        Some(action) => {
            proof {
                assert forall|other: Action|
                    shortcuts::is_action(r@, here, key, ctrl, shift, Some(other)) implies other
                    == action by {
                    shortcuts::law_one_action(r@, here, key, ctrl, shift, Some(action), Some(other));
                }
            }
            can_perform(r, action)
        },
        None => {
            proof {
                assert forall|other: Action|
                    !shortcuts::is_action(r@, here, key, ctrl, shift, Some(other)) by {
                    if shortcuts::is_action(r@, here, key, ctrl, shift, Some(other)) {
                        shortcuts::law_one_action(r@, here, key, ctrl, shift, None, Some(other));
                    }
                }
            }
            true
        },
    }
}

} // verus!
