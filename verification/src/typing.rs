//! Keys that edit the text that is being typed.

use vstd::prelude::*;

use crate::app_state;
use crate::app_state::{AppRenderer, Coordinate, Ui};
use crate::editing;
use crate::list;
use crate::moves;
use crate::offsets;
use crate::text;

verus! {

/// The text that the cursor is in: what is searched for in the list, and else
/// the buffer.
pub open spec fn text_here(u: Ui) -> Seq<char> {
    if u.coordinate is SimpleSearch {
        u.search_string
    } else {
        u.input_buffer
    }
}

/// `u` with `s` for the text that the cursor is in.
pub open spec fn with_text(u: Ui, s: Seq<char>) -> Ui {
    if u.coordinate is SimpleSearch {
        Ui { search_string: s, ..u }
    } else {
        Ui { input_buffer: s, ..u }
    }
}

/// The text that the cursor is in.
pub(crate) fn text_ref(r: &AppRenderer) -> (s: &str)
    ensures
        s@ == text_here(r@),
{
    if r.coordinate == Coordinate::SimpleSearch {
        r.search_string.as_str()
    } else {
        r.input_buffer.as_str()
    }
}

fn set_text(r: &mut AppRenderer, s: String)
    ensures
        final(r)@ == with_text(old(r)@, s@),
        app_state::tabs_ok(old(r)@) ==> app_state::tabs_ok(final(r)@),
{
    if r.coordinate == Coordinate::SimpleSearch {
        r.search_string = s;
    } else {
        r.input_buffer = s;
    }
}

/// Whether the cursor, and the start of the selection where there is one, are
/// at characters of the text.
pub open spec fn cursor_ok(u: Ui) -> bool {
    &&& offsets::at_char(text_here(u), u.cursor_position as int)
    &&& u.selection_anchor matches Some(a) ==> offsets::at_char(text_here(u), a as int)
}

/// Whether some text is selected.
pub open spec fn selecting(u: Ui) -> bool {
    u.selection_anchor matches Some(a) && a != u.cursor_position
}

/// Where the selection starts and ends.
pub open spec fn selected_range(u: Ui) -> Option<(usize, usize)> {
    match u.selection_anchor {
        Some(a) => if a <= u.cursor_position {
            Some((a, u.cursor_position))
        } else {
            Some((u.cursor_position, a))
        },
        None => None,
    }
}

/// Whether some text is selected.
pub fn has_selection(r: &AppRenderer) -> (b: bool)
    ensures
        b == selecting(r@),
{
    match r.selection_anchor {
        Some(a) => a != r.cursor_position,
        None => false,
    }
}

/// Select nothing.
pub fn clear_selection(r: &mut AppRenderer)
    ensures
        final(r)@ == (Ui { selection_anchor: None, ..old(r)@ }),
{
    r.selection_anchor = None;
}

/// Where the selection starts and ends.
pub fn selection_range(r: &AppRenderer) -> (res: Option<(usize, usize)>)
    ensures
        res == selected_range(r@),
{
    match r.selection_anchor {
        Some(a) => if a <= r.cursor_position {
            Some((a, r.cursor_position))
        } else {
            Some((r.cursor_position, a))
        },
        None => None,
    }
}

/// `u` without the selected text.
#[verifier::opaque]
pub open spec fn selection_deleted(u: Ui) -> Ui {
    match selected_range(u) {
        Some((start, end)) => Ui {
            cursor_position: start,
            selection_anchor: None,
            ..with_text(
                u,
                editing::spliced(text_here(u), start as int, end as int, Seq::empty()),
            )
        },
        None => u,
    }
}

/// Delete the selected text.
pub fn delete_selection(r: &mut AppRenderer)
    requires
        cursor_ok(old(r)@),
    ensures
        final(r)@ == selection_deleted(old(r)@),
        cursor_ok(final(r)@),
        app_state::tabs_ok(old(r)@) ==> app_state::tabs_ok(final(r)@),
{
    proof {
        reveal(selection_deleted);
    }
    if let Some((start, end)) = selection_range(r) {
        proof {
            reveal_strlit("");
            assert(""@ =~= Seq::<char>::empty());
        }
        let rest = editing::splice(text_ref(r), start, end, "");
        set_text(r, rest);
        r.cursor_position = start;
        r.selection_anchor = None;
    }
}

/// The place in `s` that an offset is cut to.
pub open spec fn cut_to(s: Seq<char>, pos: usize) -> int {
    if pos <= offsets::byte_len(s) {
        pos as int
    } else {
        offsets::byte_len(s) as int
    }
}

/// `u` with `t` typed at the cursor.
pub open spec fn typed(u: Ui, t: Seq<char>) -> Ui {
    let pos = cut_to(text_here(u), u.cursor_position);
    Ui {
        cursor_position: (pos + offsets::byte_len(t)) as usize,
        ..with_text(u, editing::spliced(text_here(u), pos, pos, t))
    }
}

/// Whether text can be typed into `s` at an offset: it is at a character, or
/// behind the end.
pub open spec fn can_type(s: Seq<char>, pos: usize) -> bool {
    offsets::at_char(s, cut_to(s, pos))
}

/// `s` with `t` put in at `pos`, and the offset behind it.
fn type_at(s: &str, pos: usize, t: &str) -> (res: (String, usize))
    requires
        can_type(s@, pos),
    ensures
        res.0@ == editing::spliced(s@, cut_to(s@, pos), cut_to(s@, pos), t@),
        res.1 == cut_to(s@, pos) + offsets::byte_len(t@),
        offsets::at_char(res.0@, res.1 as int),
        offsets::at_char(res.0@, cut_to(s@, pos)),
{
    let n: usize = offsets::byte_length(s);
    let at: usize = if pos <= n {
        pos
    } else {
        n
    };
    let new = editing::splice(s, at, at, t);
    let total: usize = offsets::byte_length(new.as_str());
    proof {
        offsets::lemma_at_char(s@, at as int);
    }
    let end: usize = at + offsets::byte_length(t);
    (new, end)
}

/// Type `t` at the cursor.
fn type_text(r: &mut AppRenderer, t: &str)
    requires
        can_type(text_here(old(r)@), old(r)@.cursor_position),
    ensures
        final(r)@ == typed(old(r)@, t@),
        offsets::at_char(text_here(final(r)@), final(r)@.cursor_position as int),
{
    let (new, end) = type_at(text_ref(r), r.cursor_position, t);
    set_text(r, new);
    r.cursor_position = end;
}

/// `u` with its list built anew and searched again, in the modes that search.
#[verifier::opaque]
pub open spec fn searched_again(u: Ui) -> Ui {
    match u.coordinate {
        Coordinate::SimpleSearch => list::filtered(list::listed(u), u.search_string),
        Coordinate::Command => list::filtered(list::listed(u), u.input_buffer),
        Coordinate::ExtendedSearch => list::filtered(list::search_listed(u), u.input_buffer),
        _ => u,
    }
}

/// Build the list anew and search it again, in the modes that search.
pub fn maybe_update_search(r: &mut AppRenderer)
    requires
        app_state::tabs_ok(old(r)@),
    ensures
        final(r)@ == searched_again(old(r)@),
        app_state::tabs_ok(final(r)@),
{
    proof {
        reveal(searched_again);
    }
    match r.coordinate {
        Coordinate::SimpleSearch => {
            let s = r.search_string.clone();
            list::create_list_current_layer(r);
            proof {
                list::law_filtering_keeps_the_rest(r@, s@);
            }
            list::populate_list_current_layer(r, s.as_str());
        },
        Coordinate::Command => {
            let s = r.input_buffer.clone();
            list::create_list_current_layer(r);
            proof {
                list::law_filtering_keeps_the_rest(r@, s@);
            }
            list::populate_list_current_layer(r, s.as_str());
        },
        Coordinate::ExtendedSearch => {
            let s = r.input_buffer.clone();
            proof {
                list::law_search_listing_keeps_the_rest(r@);
            }
            list::create_list_extended_search(r);
            proof {
                list::law_filtering_keeps_the_rest(r@, s@);
            }
            list::populate_list_current_layer(r, s.as_str());
        },
        _ => {},
    }
}

/// `u` without the selected text, where some is selected.
#[verifier::opaque]
pub open spec fn without_selection(u: Ui) -> Ui {
    if selecting(u) {
        selection_deleted(u)
    } else {
        u
    }
}

/// `u` after `t` is typed into the buffer at `now`, over what is selected.
pub open spec fn typed_over(u: Ui, t: Seq<char>, now: u64) -> Ui {
    moves::touched(typed(without_selection(u), t), now)
}

/// `u` after `t` is typed at `now`.
#[verifier::opaque]
pub open spec fn after_input(u: Ui, t: Seq<char>, now: u64) -> Ui {
    if t.len() == 0 {
        u
    } else {
        match u.coordinate {
            Coordinate::SimpleSearch => moves::redrawn(searched_again(typed(u, t))),
            Coordinate::Command => if u.input_buffer.len() == 0 && t == ":"@ {
                u
            } else {
                searched_again(typed_over(u, t, now))
            },
            Coordinate::Insert => typed_over(u, t, now),
            Coordinate::ScrollSearch => moves::redrawn(typed(u, t)),
            Coordinate::ExtendedSearch => moves::redrawn(searched_again(typed(u, t))),
            _ => u,
        }
    }
}

/// Whether the cursor is where text can be typed in the mode that `u` is in.
pub open spec fn typing_ok(u: Ui) -> bool {
    match u.coordinate {
        Coordinate::SimpleSearch => can_type(text_here(u), u.cursor_position),
        Coordinate::Command | Coordinate::Insert => if selecting(u) {
            cursor_ok(u)
        } else {
            can_type(text_here(u), u.cursor_position)
        },
        Coordinate::ScrollSearch | Coordinate::ExtendedSearch => can_type(
            text_here(u),
            u.cursor_position,
        ),
        _ => true,
    }
}

proof fn lemma_cut_of_ok(s: Seq<char>, pos: usize)
    requires
        offsets::at_char(s, pos as int),
    ensures
        can_type(s, pos),
        cut_to(s, pos) == pos,
{
    offsets::lemma_at_char(s, pos as int);
}

/// Type `t` over what is selected.
pub(crate) fn type_over(r: &mut AppRenderer, t: &str, now: u64)
    requires
        if selecting(old(r)@) {
            cursor_ok(old(r)@)
        } else {
            can_type(text_here(old(r)@), old(r)@.cursor_position)
        },
    ensures
        final(r)@ == typed_over(old(r)@, t@, now),
        app_state::tabs_ok(old(r)@) ==> app_state::tabs_ok(final(r)@),
        offsets::at_char(text_here(final(r)@), final(r)@.cursor_position as int),
{
    proof {
        reveal(moves::touched);
        reveal(without_selection);
    }
    if has_selection(r) {
        delete_selection(r);
        proof {
            lemma_cut_of_ok(text_here(r@), r@.cursor_position);
        }
    }
    type_text(r, t);
    moves::touch(r, now);
}

/// Type `t` into the text to search for, and search again.
fn type_searched(r: &mut AppRenderer, t: &str)
    requires
        app_state::tabs_ok(old(r)@),
        can_type(text_here(old(r)@), old(r)@.cursor_position),
    ensures
        final(r)@ == moves::redrawn(searched_again(typed(old(r)@, t@))),
        app_state::tabs_ok(final(r)@),
{
    type_text(r, t);
    maybe_update_search(r);
    moves::redraw(r);
}

/// Type `t` into the text to scroll to.
fn type_scroll(r: &mut AppRenderer, t: &str)
    requires
        app_state::tabs_ok(old(r)@),
        can_type(text_here(old(r)@), old(r)@.cursor_position),
    ensures
        final(r)@ == moves::redrawn(typed(old(r)@, t@)),
        app_state::tabs_ok(final(r)@),
{
    type_text(r, t);
    moves::redraw(r);
}

/// Type `t`.
pub fn handle_input(r: &mut AppRenderer, t: &str, now: u64)
    requires
        app_state::tabs_ok(old(r)@),
        typing_ok(old(r)@),
    ensures
        final(r)@ == after_input(old(r)@, t@, now),
        app_state::tabs_ok(final(r)@),
{
    proof {
        reveal(after_input);
    }
    if t.is_empty() {
        return;
    }
    match r.coordinate {
        Coordinate::SimpleSearch => type_searched(r, t),
        Coordinate::Command => {
            if r.input_buffer.as_str().is_empty() && text::same(t, ":") {
                return;
            }
            type_over(r, t, now);
            maybe_update_search(r);
        },
        Coordinate::Insert => type_over(r, t, now),
        Coordinate::ScrollSearch => type_scroll(r, t),
        Coordinate::ExtendedSearch => type_searched(r, t),
        _ => {},
    }
}

/// `u` without the character before the cursor in the search string.
pub open spec fn search_backspaced(u: Ui) -> Ui {
    let pos = cut_to(u.search_string, u.cursor_position);
    let to = editing::prev_offset(u.search_string, pos);
    Ui {
        search_string: editing::spliced(u.search_string, to as int, pos, Seq::empty()),
        cursor_position: to as usize,
        ..u
    }
}

/// `u` without the character before the cursor.
pub open spec fn backspaced(u: Ui) -> Ui {
    let to = editing::prev_offset(text_here(u), u.cursor_position as int);
    Ui {
        cursor_position: to as usize,
        ..with_text(
            u,
            editing::spliced(text_here(u), to as int, u.cursor_position as int, Seq::empty()),
        )
    }
}

/// Whether the buffer is edited with the backspace key in the mode `c`.
pub open spec fn edits_buffer(c: Coordinate) -> bool {
    c is Command || c is Insert || c is ScrollSearch || c is ExtendedSearch
}

/// `u` after the backspace key at `now`.
#[verifier::opaque]
pub open spec fn after_backspace(u: Ui, now: u64) -> Ui {
    if u.coordinate is SimpleSearch {
        if u.cursor_position > 0 {
            moves::redrawn(searched_again(search_backspaced(u)))
        } else {
            u
        }
    } else if !edits_buffer(u.coordinate) {
        u
    } else if selecting(u) {
        moves::redrawn(searched_again(moves::touched(selection_deleted(u), now)))
    } else if u.cursor_position > 0 {
        moves::redrawn(searched_again(moves::touched(backspaced(u), now)))
    } else {
        u
    }
}

/// `s` without the character before `pos`, and where that was.
fn delete_before(s: &str, pos: usize) -> (res: (String, usize))
    requires
        offsets::at_char(s@, pos as int),
    ensures
        res.1 == editing::prev_offset(s@, pos as int),
        res.0@ == editing::spliced(s@, res.1 as int, pos as int, Seq::empty()),
        offsets::at_char(res.0@, res.1 as int),
{
    let to: usize = editing::previous_char(s, pos);
    proof {
        reveal_strlit("");
        assert(""@ =~= Seq::<char>::empty());
    }
    (editing::splice(s, to, pos, ""), to)
}

/// Delete the character before the cursor in the search string.
fn backspace_search(r: &mut AppRenderer)
    requires
        can_type(old(r)@.search_string, old(r)@.cursor_position),
    ensures
        final(r)@ == search_backspaced(old(r)@),
{
    let n: usize = offsets::byte_length(r.search_string.as_str());
    let pos: usize = if r.cursor_position <= n {
        r.cursor_position
    } else {
        n
    };
    let (rest, to) = delete_before(r.search_string.as_str(), pos);
    r.search_string = rest;
    r.cursor_position = to;
}

/// Delete the character before the cursor.
fn backspace_buffer(r: &mut AppRenderer)
    requires
        offsets::at_char(text_here(old(r)@), old(r)@.cursor_position as int),
    ensures
        final(r)@ == backspaced(old(r)@),
        offsets::at_char(text_here(final(r)@), final(r)@.cursor_position as int),
{
    let (rest, to) = delete_before(text_ref(r), r.cursor_position);
    set_text(r, rest);
    r.cursor_position = to;
}

/// Note a change of the text at `now`, and search again.
pub(crate) fn changed(r: &mut AppRenderer, now: u64)
    requires
        app_state::tabs_ok(old(r)@),
    ensures
        final(r)@ == moves::redrawn(searched_again(moves::touched(old(r)@, now))),
        app_state::tabs_ok(final(r)@),
{
    moves::touch(r, now);
    maybe_update_search(r);
    moves::redraw(r);
}

/// Delete the character before the cursor, or what is selected.
pub fn handle_backspace(r: &mut AppRenderer, now: u64)
    requires
        app_state::tabs_ok(old(r)@),
        old(r)@.coordinate is SimpleSearch ==> can_type(
            old(r)@.search_string,
            old(r)@.cursor_position,
        ),
        edits_buffer(old(r)@.coordinate) ==> cursor_ok(old(r)@),
    ensures
        final(r)@ == after_backspace(old(r)@, now),
        app_state::tabs_ok(final(r)@),
{
    proof {
        reveal(after_backspace);
    }
    match r.coordinate {
        Coordinate::SimpleSearch => {
            if r.cursor_position > 0 {
                backspace_search(r);
                maybe_update_search(r);
                moves::redraw(r);
            }
        },
        Coordinate::Command
        | Coordinate::Insert
        | Coordinate::ScrollSearch
        | Coordinate::ExtendedSearch => {
            if has_selection(r) {
                delete_selection(r);
                changed(r, now);
            } else if r.cursor_position > 0 {
                backspace_buffer(r);
                changed(r, now);
            }
        },
        _ => {},
    }
}

/// `u` without the character at the cursor.
pub open spec fn deleted_at(u: Ui) -> Ui {
    with_text(
        u,
        editing::spliced(
            text_here(u),
            u.cursor_position as int,
            editing::next_offset(text_here(u), u.cursor_position as int) as int,
            Seq::empty(),
        ),
    )
}

/// `u` after the delete key at `now`.
#[verifier::opaque]
pub open spec fn after_delete_forward(u: Ui, now: u64) -> Ui {
    if selecting(u) {
        moves::redrawn(searched_again(moves::touched(selection_deleted(u), now)))
    } else if u.cursor_position < offsets::byte_len(text_here(u)) {
        moves::redrawn(searched_again(moves::touched(deleted_at(u), now)))
    } else {
        u
    }
}

/// Delete the character at the cursor.
fn delete_buffer(r: &mut AppRenderer)
    requires
        offsets::at_char(text_here(old(r)@), old(r)@.cursor_position as int),
    ensures
        final(r)@ == deleted_at(old(r)@),
{
    let end: usize = editing::next_char(text_ref(r), r.cursor_position);
    proof {
        reveal_strlit("");
        assert(""@ =~= Seq::<char>::empty());
    }
    let rest = editing::splice(text_ref(r), r.cursor_position, end, "");
    set_text(r, rest);
}

/// Delete the character at the cursor, or what is selected.
pub fn handle_delete_forward(r: &mut AppRenderer, now: u64)
    requires
        app_state::tabs_ok(old(r)@),
        selecting(old(r)@) ==> cursor_ok(old(r)@),
        old(r)@.cursor_position < offsets::byte_len(text_here(old(r)@)) ==> offsets::at_char(
            text_here(old(r)@),
            old(r)@.cursor_position as int,
        ),
    ensures
        final(r)@ == after_delete_forward(old(r)@, now),
        app_state::tabs_ok(final(r)@),
{
    proof {
        reveal(after_delete_forward);
    }
    if has_selection(r) {
        delete_selection(r);
        changed(r, now);
    } else if r.cursor_position < offsets::byte_length(text_ref(r)) {
        delete_buffer(r);
        changed(r, now);
    }
}

/// `u` after everything is selected at `now`.
pub open spec fn all_selected(u: Ui, now: u64) -> Ui {
    if text_here(u).len() == 0 {
        u
    } else {
        moves::touched(
            Ui {
                selection_anchor: Some(0),
                cursor_position: offsets::byte_len(text_here(u)) as usize,
                ..u
            },
            now,
        )
    }
}

/// Select everything.
pub fn handle_select_all(r: &mut AppRenderer, now: u64)
    ensures
        final(r)@ == all_selected(old(r)@, now),
        app_state::tabs_ok(old(r)@) ==> app_state::tabs_ok(final(r)@),
{
    proof {
        reveal(moves::touched);
    }
    if text_ref(r).is_empty() {
        return;
    }
    r.selection_anchor = Some(0);
    r.cursor_position = offsets::byte_length(text_ref(r));
    r.caret.reset(now);
    r.needs_redraw = true;
}

/// `u` with the cursor at `to`, and the selection kept.
pub open spec fn extended_to(u: Ui, to: int, now: u64) -> Ui {
    moves::touched(
        Ui {
            selection_anchor: match u.selection_anchor {
                Some(a) => Some(a),
                None => Some(u.cursor_position),
            },
            cursor_position: to as usize,
            ..u
        },
        now,
    )
}

/// `u` with the cursor at `to`, and nothing selected.
pub open spec fn moved_to(u: Ui, to: int, now: u64) -> Ui {
    moves::touched(Ui { selection_anchor: None, cursor_position: to as usize, ..u }, now)
}

fn extend_to(r: &mut AppRenderer, to: usize, now: u64)
    ensures
        final(r)@ == extended_to(old(r)@, to as int, now),
        app_state::tabs_ok(old(r)@) ==> app_state::tabs_ok(final(r)@),
{
    proof {
        reveal(moves::touched);
    }
    if r.selection_anchor.is_none() {
        r.selection_anchor = Some(r.cursor_position);
    }
    r.cursor_position = to;
    r.caret.reset(now);
    r.needs_redraw = true;
}

fn move_to(r: &mut AppRenderer, to: usize, now: u64)
    ensures
        final(r)@ == moved_to(old(r)@, to as int, now),
        app_state::tabs_ok(old(r)@) ==> app_state::tabs_ok(final(r)@),
{
    proof {
        reveal(moves::touched);
    }
    r.selection_anchor = None;
    r.cursor_position = to;
    r.caret.reset(now);
    r.needs_redraw = true;
}

/// `u` after the selection is moved left at `now`.
pub open spec fn after_shift_left(u: Ui, now: u64) -> Ui {
    if u.cursor_position == 0 {
        u
    } else {
        extended_to(
            u,
            editing::prev_offset(text_here(u), u.cursor_position as int) as int,
            now,
        )
    }
}

/// Select one character more to the left.
pub fn handle_shift_left(r: &mut AppRenderer, now: u64)
    requires
        old(r)@.cursor_position > 0 ==> offsets::at_char(
            text_here(old(r)@),
            old(r)@.cursor_position as int,
        ),
    ensures
        final(r)@ == after_shift_left(old(r)@, now),
        cursor_ok(old(r)@) ==> cursor_ok(final(r)@),
        app_state::tabs_ok(old(r)@) ==> app_state::tabs_ok(final(r)@),
{
    proof {
        reveal(moves::touched);
    }
    if r.cursor_position == 0 {
        return;
    }
    let to: usize = editing::previous_char(text_ref(r), r.cursor_position);
    extend_to(r, to, now);
}

/// `u` after the selection is moved right at `now`.
pub open spec fn after_shift_right(u: Ui, now: u64) -> Ui {
    if u.cursor_position >= offsets::byte_len(text_here(u)) {
        u
    } else {
        extended_to(
            u,
            editing::next_offset(text_here(u), u.cursor_position as int) as int,
            now,
        )
    }
}

/// Select one character more to the right.
pub fn handle_shift_right(r: &mut AppRenderer, now: u64)
    requires
        old(r)@.cursor_position < offsets::byte_len(text_here(old(r)@)) ==> offsets::at_char(
            text_here(old(r)@),
            old(r)@.cursor_position as int,
        ),
    ensures
        final(r)@ == after_shift_right(old(r)@, now),
        cursor_ok(old(r)@) ==> cursor_ok(final(r)@),
        app_state::tabs_ok(old(r)@) ==> app_state::tabs_ok(final(r)@),
{
    proof {
        reveal(moves::touched);
    }
    if r.cursor_position >= offsets::byte_length(text_ref(r)) {
        return;
    }
    let to: usize = editing::next_char(text_ref(r), r.cursor_position);
    extend_to(r, to, now);
}

/// Move the cursor to the start of its line.
pub fn line_home(r: &mut AppRenderer, now: u64)
    requires
        old(r)@.cursor_position <= offsets::byte_len(text_here(old(r)@)),
    ensures
        final(r)@ == moved_to(
            old(r)@,
            editing::line_start_at(text_here(old(r)@), old(r)@.cursor_position as int) as int,
            now,
        ),
        cursor_ok(final(r)@),
        app_state::tabs_ok(old(r)@) ==> app_state::tabs_ok(final(r)@),
{
    proof {
        reveal(moves::touched);
    }
    let to: usize = editing::find_line_start(text_ref(r), r.cursor_position);
    move_to(r, to, now);
}

/// Move the cursor to the end of its line.
pub fn line_end(r: &mut AppRenderer, now: u64)
    ensures
        final(r)@ == moved_to(
            old(r)@,
            editing::line_end_at(text_here(old(r)@), old(r)@.cursor_position as int) as int,
            now,
        ),
        cursor_ok(final(r)@),
        app_state::tabs_ok(old(r)@) ==> app_state::tabs_ok(final(r)@),
{
    proof {
        reveal(moves::touched);
    }
    let to: usize = editing::find_line_end(text_ref(r), r.cursor_position);
    move_to(r, to, now);
}

/// `u` after the selection is moved to the start of the line at `now`.
pub open spec fn after_shift_home(u: Ui, now: u64) -> Ui {
    extended_to(
        u,
        editing::line_start_at(text_here(u), u.cursor_position as int) as int,
        now,
    )
}

/// Select to the start of the line.
pub fn handle_shift_home(r: &mut AppRenderer, now: u64)
    requires
        old(r)@.cursor_position <= offsets::byte_len(text_here(old(r)@)),
    ensures
        final(r)@ == after_shift_home(old(r)@, now),
        cursor_ok(old(r)@) ==> cursor_ok(final(r)@),
        app_state::tabs_ok(old(r)@) ==> app_state::tabs_ok(final(r)@),
{
    proof {
        reveal(moves::touched);
    }
    let to: usize = editing::find_line_start(text_ref(r), r.cursor_position);
    extend_to(r, to, now);
}

/// `u` after the selection is moved to the end of the line at `now`.
pub open spec fn after_shift_end(u: Ui, now: u64) -> Ui {
    extended_to(
        u,
        editing::line_end_at(text_here(u), u.cursor_position as int) as int,
        now,
    )
}

/// Select to the end of the line.
pub fn handle_shift_end(r: &mut AppRenderer, now: u64)
    ensures
        final(r)@ == after_shift_end(old(r)@, now),
        cursor_ok(old(r)@) ==> cursor_ok(final(r)@),
        app_state::tabs_ok(old(r)@) ==> app_state::tabs_ok(final(r)@),
{
    proof {
        reveal(moves::touched);
    }
    let to: usize = editing::find_line_end(text_ref(r), r.cursor_position);
    extend_to(r, to, now);
}

/// `u` with the cursor moved to `to`, where that is anywhere.
pub open spec fn moved_if(u: Ui, to: Option<int>, now: u64) -> Ui {
    match to {
        Some(p) => moved_to(u, p, now),
        None => u,
    }
}

/// `u` with the selection extended to `to`, where that is anywhere.
pub open spec fn extended_if(u: Ui, to: Option<int>, now: u64) -> Ui {
    match to {
        Some(p) => extended_to(u, p, now),
        None => u,
    }
}

/// `u` after the cursor is moved a line up at `now`.
pub open spec fn after_up_insert(u: Ui, now: u64) -> Ui {
    moved_if(
        u,
        editing::above(text_here(u), u.cursor_position as int),
        now,
    )
}

/// Move the cursor up a line, in its column.
pub fn handle_up_insert(r: &mut AppRenderer, now: u64)
    requires
        offsets::at_char(text_here(old(r)@), old(r)@.cursor_position as int),
    ensures
        final(r)@ == after_up_insert(old(r)@, now),
        cursor_ok(old(r)@) ==> cursor_ok(final(r)@),
        app_state::tabs_ok(old(r)@) ==> app_state::tabs_ok(final(r)@),
{
    proof {
        reveal(moves::touched);
    }
    if let Some(to) = editing::line_above(text_ref(r), r.cursor_position) {
        move_to(r, to, now);
    }
}

/// `u` after the cursor is moved a line down at `now`.
pub open spec fn after_down_insert(u: Ui, now: u64) -> Ui {
    moved_if(
        u,
        editing::below(text_here(u), u.cursor_position as int),
        now,
    )
}

/// Move the cursor down a line, in its column.
pub fn handle_down_insert(r: &mut AppRenderer, now: u64)
    requires
        offsets::at_char(text_here(old(r)@), old(r)@.cursor_position as int),
    ensures
        final(r)@ == after_down_insert(old(r)@, now),
        cursor_ok(old(r)@) ==> cursor_ok(final(r)@),
        app_state::tabs_ok(old(r)@) ==> app_state::tabs_ok(final(r)@),
{
    proof {
        reveal(moves::touched);
    }
    if let Some(to) = editing::line_below(text_ref(r), r.cursor_position) {
        move_to(r, to, now);
    }
}

/// `u` after the selection is moved a line up at `now`.
pub open spec fn after_shift_up(u: Ui, now: u64) -> Ui {
    extended_if(
        u,
        editing::above(text_here(u), u.cursor_position as int),
        now,
    )
}

/// Select up a line, in the cursor's column.
pub fn handle_shift_up_insert(r: &mut AppRenderer, now: u64)
    requires
        offsets::at_char(text_here(old(r)@), old(r)@.cursor_position as int),
    ensures
        final(r)@ == after_shift_up(old(r)@, now),
        cursor_ok(old(r)@) ==> cursor_ok(final(r)@),
        app_state::tabs_ok(old(r)@) ==> app_state::tabs_ok(final(r)@),
{
    proof {
        reveal(moves::touched);
    }
    if let Some(to) = editing::line_above(text_ref(r), r.cursor_position) {
        extend_to(r, to, now);
    }
}

/// `u` after the selection is moved a line down at `now`.
pub open spec fn after_shift_down(u: Ui, now: u64) -> Ui {
    extended_if(
        u,
        editing::below(text_here(u), u.cursor_position as int),
        now,
    )
}

/// Select down a line, in the cursor's column.
pub fn handle_shift_down_insert(r: &mut AppRenderer, now: u64)
    requires
        offsets::at_char(text_here(old(r)@), old(r)@.cursor_position as int),
    ensures
        final(r)@ == after_shift_down(old(r)@, now),
        cursor_ok(old(r)@) ==> cursor_ok(final(r)@),
        app_state::tabs_ok(old(r)@) ==> app_state::tabs_ok(final(r)@),
{
    proof {
        reveal(moves::touched);
    }
    if let Some(to) = editing::line_below(text_ref(r), r.cursor_position) {
        extend_to(r, to, now);
    }
}

/// A character that is typed is taken back by the backspace key.
pub proof fn law_backspace_takes_back_typing(u: Ui, c: char)
    requires
        offsets::at_char(text_here(u), u.cursor_position as int),
        u.cursor_position + offsets::byte_len(seq![c]) <= usize::MAX,
    ensures
        backspaced(typed(u, seq![c])) == u,
{
    let s = text_here(u);
    let pos = u.cursor_position as int;
    let t = seq![c];
    offsets::lemma_at_char(s, pos);
    offsets::lemma_offset_ends(s);
    let k = offsets::chars_before(s, pos);
    offsets::lemma_offset_monotone(s, k, s.len() as int);
    assert(cut_to(s, u.cursor_position) == pos);
    let n = editing::spliced(s, pos, pos, t);
    editing::law_splice_undone(s, pos, t);
    assert(n == s.take(k) + t + s.skip(k)) by {
        reveal(editing::spliced);
    }
    assert(n.take(k) =~= s.take(k));
    assert(n.take(k + 1) =~= s.take(k) + t);
    offsets::lemma_byte_len_concat(s.take(k), t);
    offsets::lemma_chars_before_offset(n, k + 1);
    assert(editing::prev_offset(n, pos + offsets::byte_len(t)) == pos) by {
        reveal(editing::prev_offset);
    }
}

} // verus!
