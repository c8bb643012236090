//! Single changes of the user interface, which the keys put together.

use vstd::prelude::*;

use crate::app_state;
use crate::app_state::{AppRenderer, CommandPhase, Coordinate, RenderListItem, Ui};
use crate::caret;
use crate::ffon;
use crate::ffon::{FfonElement, IdArray};
use crate::list;

verus! {

/// `u`, to be drawn again.
#[verifier::opaque]
pub open spec fn redrawn(u: Ui) -> Ui {
    Ui { needs_redraw: true, ..u }
}

/// Draw the window again.
pub(crate) fn redraw(r: &mut AppRenderer)
    ensures
        final(r)@ == redrawn(old(r)@),
        app_state::tabs_ok(old(r)@) ==> app_state::tabs_ok(final(r)@),
{
    proof {
        reveal(redrawn);
    }
    r.needs_redraw = true;
}

/// `u` after a change at the cursor at `now`.
#[verifier::opaque]
pub open spec fn touched(u: Ui, now: u64) -> Ui {
    Ui { caret: caret::caret_at(now), needs_redraw: true, ..u }
}

/// Note a change at the cursor at `now`.
pub(crate) fn touch(r: &mut AppRenderer, now: u64)
    ensures
        final(r)@ == touched(old(r)@, now),
        app_state::tabs_ok(old(r)@) ==> app_state::tabs_ok(final(r)@),
{
    proof {
        reveal(touched);
    }
    r.caret.reset(now);
    r.needs_redraw = true;
}

/// `u` in the mode `c`, with the mode before remembered.
#[verifier::opaque]
pub open spec fn entered(u: Ui, c: Coordinate) -> Ui {
    Ui { previous_coordinate: u.coordinate, coordinate: c, ..u }
}

/// Go into the mode `c`, and remember the one before.
pub(crate) fn enter_mode(r: &mut AppRenderer, c: Coordinate)
    ensures
        final(r)@ == entered(old(r)@, c),
        app_state::tabs_ok(old(r)@) ==> app_state::tabs_ok(final(r)@),
{
    proof {
        reveal(entered);
    }
    r.previous_coordinate = r.coordinate;
    r.coordinate = c;
}

/// `u` in the mode `c`.
#[verifier::opaque]
pub open spec fn in_mode(u: Ui, c: Coordinate) -> Ui {
    Ui { coordinate: c, ..u }
}

/// Go into the mode `c`.
pub(crate) fn set_mode(r: &mut AppRenderer, c: Coordinate)
    ensures
        final(r)@ == in_mode(old(r)@, c),
        app_state::tabs_ok(old(r)@) ==> app_state::tabs_ok(final(r)@),
{
    proof {
        reveal(in_mode);
    }
    r.coordinate = c;
}

/// `u` in the mode `c`, with `before` as the mode before.
#[verifier::opaque]
pub open spec fn with_modes(u: Ui, c: Coordinate, before: Coordinate) -> Ui {
    Ui { coordinate: c, previous_coordinate: before, ..u }
}

/// Go into the mode `c`, with `before` as the mode before.
pub(crate) fn set_modes(r: &mut AppRenderer, c: Coordinate, before: Coordinate)
    ensures
        final(r)@ == with_modes(old(r)@, c, before),
        app_state::tabs_ok(old(r)@) ==> app_state::tabs_ok(final(r)@),
{
    proof {
        reveal(with_modes);
    }
    r.coordinate = c;
    r.previous_coordinate = before;
}

/// `u` back in the mode before.
#[verifier::opaque]
pub open spec fn left_mode(u: Ui) -> Ui {
    Ui { coordinate: u.previous_coordinate, ..u }
}

/// Go back into the mode before.
pub(crate) fn leave_mode(r: &mut AppRenderer)
    ensures
        final(r)@ == left_mode(old(r)@),
        app_state::tabs_ok(old(r)@) ==> app_state::tabs_ok(final(r)@),
{
    proof {
        reveal(left_mode);
    }
    r.coordinate = r.previous_coordinate;
}

/// `u` with no text selected.
#[verifier::opaque]
pub open spec fn unselected(u: Ui) -> Ui {
    Ui { selection_anchor: None, ..u }
}

/// Select no text.
pub(crate) fn clear_selection(r: &mut AppRenderer)
    ensures
        final(r)@ == unselected(old(r)@),
        app_state::tabs_ok(old(r)@) ==> app_state::tabs_ok(final(r)@),
{
    proof {
        reveal(unselected);
    }
    r.selection_anchor = None;
}

/// `u` with nothing typed.
#[verifier::opaque]
pub open spec fn without_input(u: Ui) -> Ui {
    Ui { input_buffer: Seq::empty(), cursor_position: 0, ..u }
}

/// Forget what is typed.
pub(crate) fn clear_input(r: &mut AppRenderer)
    ensures
        final(r)@ == without_input(old(r)@),
        app_state::tabs_ok(old(r)@) ==> app_state::tabs_ok(final(r)@),
{
    proof {
        reveal(without_input);
    }
    r.input_buffer = String::new();
    r.cursor_position = 0;
    assert(r@.input_buffer =~= Seq::<char>::empty());
}

/// `u` with nothing searched for.
#[verifier::opaque]
pub open spec fn without_search(u: Ui) -> Ui {
    Ui { search_string: Seq::empty(), ..u }
}

/// Forget what is searched for.
pub(crate) fn clear_search(r: &mut AppRenderer)
    ensures
        final(r)@ == without_search(old(r)@),
        app_state::tabs_ok(old(r)@) ==> app_state::tabs_ok(final(r)@),
{
    proof {
        reveal(without_search);
    }
    r.search_string = String::new();
    assert(r@.search_string =~= Seq::<char>::empty());
}

/// `u` with the cursor at `pos`.
#[verifier::opaque]
pub open spec fn with_cursor(u: Ui, pos: usize) -> Ui {
    Ui { cursor_position: pos, ..u }
}

/// Put the cursor at `pos`.
pub(crate) fn set_cursor(r: &mut AppRenderer, pos: usize)
    ensures
        final(r)@ == with_cursor(old(r)@, pos),
        app_state::tabs_ok(old(r)@) ==> app_state::tabs_ok(final(r)@),
{
    proof {
        reveal(with_cursor);
    }
    r.cursor_position = pos;
}

/// `u` with its place in the list at its position.
#[verifier::opaque]
pub open spec fn at_position(u: Ui) -> Ui {
    Ui { list_index: ffon::last_or_zero(u.current_id), ..u }
}

/// Put the place in the list at the position.
pub(crate) fn point_at_position(r: &mut AppRenderer)
    ensures
        final(r)@ == at_position(old(r)@),
        app_state::tabs_ok(old(r)@) ==> app_state::tabs_ok(final(r)@),
{
    proof {
        reveal(at_position);
    }
    let i: usize = r.current_id.last().unwrap_or(0);
    r.list_index = i;
}

/// `u` with its place in the list at `i`.
#[verifier::opaque]
pub open spec fn at_item(u: Ui, i: usize) -> Ui {
    Ui { list_index: i, ..u }
}

/// Put the place in the list at `i`.
pub(crate) fn set_list_index(r: &mut AppRenderer, i: usize)
    ensures
        final(r)@ == at_item(old(r)@, i),
        app_state::tabs_ok(old(r)@) ==> app_state::tabs_ok(final(r)@),
{
    proof {
        reveal(at_item);
    }
    r.list_index = i;
}

/// `u` with the list scrolled to `n`.
#[verifier::opaque]
pub open spec fn list_scrolled(u: Ui, n: i32) -> Ui {
    Ui { scroll_offset: n, ..u }
}

/// Scroll the list to `n`.
pub(crate) fn set_scroll(r: &mut AppRenderer, n: i32)
    ensures
        final(r)@ == list_scrolled(old(r)@, n),
        app_state::tabs_ok(old(r)@) ==> app_state::tabs_ok(final(r)@),
{
    proof {
        reveal(list_scrolled);
    }
    r.scroll_offset = n;
}

/// `u` with its position at `id`.
#[verifier::opaque]
pub open spec fn placed(u: Ui, id: Seq<usize>) -> Ui {
    Ui { current_id: id, ..u }
}

/// Put the position at `id`.
pub(crate) fn set_position(r: &mut AppRenderer, id: IdArray)
    ensures
        final(r)@ == placed(old(r)@, id@),
        app_state::tabs_ok(old(r)@) ==> app_state::tabs_ok(final(r)@),
{
    proof {
        reveal(placed);
    }
    r.current_id = id;
}

/// `u` with its position at the element `i` of its layer.
#[verifier::opaque]
pub open spec fn placed_last(u: Ui, i: usize) -> Ui {
    Ui { current_id: ffon::with_last(u.current_id, i), ..u }
}

/// Put the position at the element `i` of its layer.
pub(crate) fn set_last(r: &mut AppRenderer, i: usize)
    ensures
        final(r)@ == placed_last(old(r)@, i),
        app_state::tabs_ok(old(r)@) ==> app_state::tabs_ok(final(r)@),
{
    proof {
        reveal(placed_last);
    }
    r.current_id.set_last(i);
}

/// `u` with an error.
#[verifier::opaque]
pub open spec fn with_error(u: Ui, message: Seq<char>) -> Ui {
    Ui { error_message: message, ..u }
}

/// Show an error.
pub(crate) fn set_error(r: &mut AppRenderer, message: String)
    ensures
        final(r)@ == with_error(old(r)@, message@),
        app_state::tabs_ok(old(r)@) ==> app_state::tabs_ok(final(r)@),
{
    proof {
        reveal(with_error);
    }
    r.error_message = message;
}

/// `u` without an error.
#[verifier::opaque]
pub open spec fn without_error(u: Ui) -> Ui {
    Ui { error_message: Seq::empty(), ..u }
}

/// Show no error.
pub(crate) fn clear_error(r: &mut AppRenderer)
    ensures
        final(r)@ == without_error(old(r)@),
        app_state::tabs_ok(old(r)@) ==> app_state::tabs_ok(final(r)@),
{
    proof {
        reveal(without_error);
    }
    r.error_message = String::new();
    assert(r@.error_message =~= Seq::<char>::empty());
}

/// `u` with the list of `phase` in command mode.
#[verifier::opaque]
pub open spec fn in_phase(u: Ui, phase: CommandPhase) -> Ui {
    Ui { current_command: phase, ..u }
}

/// Show the list of `phase` in command mode.
pub(crate) fn set_phase(r: &mut AppRenderer, phase: CommandPhase)
    ensures
        final(r)@ == in_phase(old(r)@, phase),
        app_state::tabs_ok(old(r)@) ==> app_state::tabs_ok(final(r)@),
{
    proof {
        reveal(in_phase);
    }
    r.current_command = phase;
}

/// `u` with a key pressed last at `now`.
#[verifier::opaque]
pub open spec fn tapped(u: Ui, now: u64) -> Ui {
    Ui { last_keypress_time: now, ..u }
}

/// Note that a key is pressed at `now`.
pub(crate) fn note_tap(r: &mut AppRenderer, now: u64)
    ensures
        final(r)@ == tapped(old(r)@, now),
        app_state::tabs_ok(old(r)@) ==> app_state::tabs_ok(final(r)@),
{
    proof {
        reveal(tapped);
    }
    r.last_keypress_time = now;
}

/// `u` with the buffer and what stands around it.
#[verifier::opaque]
pub open spec fn with_parts(u: Ui, parts: (Seq<char>, Seq<char>, Seq<char>)) -> Ui {
    Ui { input_buffer: parts.0, input_prefix: parts.1, input_suffix: parts.2, ..u }
}

/// Fill the buffer, and note what stands around it.
pub(crate) fn set_parts(r: &mut AppRenderer, buffer: String, prefix: String, suffix: String)
    ensures
        final(r)@ == with_parts(old(r)@, (buffer@, prefix@, suffix@)),
        app_state::tabs_ok(old(r)@) ==> app_state::tabs_ok(final(r)@),
{
    proof {
        reveal(with_parts);
    }
    r.input_buffer = buffer;
    r.input_prefix = prefix;
    r.input_suffix = suffix;
}

/// `u` with `n` put into the layer of its position at `idx`.
#[verifier::opaque]
pub open spec fn node_inserted(u: Ui, idx: usize, n: ffon::Node) -> Ui {
    Ui { ffon: ffon::inserted(u.ffon, u.current_id, idx as int, n), ..u }
}

/// Put an element into the layer of the position.
pub(crate) fn insert_node(r: &mut AppRenderer, idx: usize, elem: FfonElement)
    ensures
        final(r)@ == node_inserted(old(r)@, idx, elem@),
        app_state::tabs_ok(old(r)@) ==> app_state::tabs_ok(final(r)@),
{
    proof {
        reveal(node_inserted);
    }
    ffon::insert_at(&mut r.ffon, &r.current_id, idx, elem);
}

/// `u` with the element at `idx` of the layer of its position replaced.
#[verifier::opaque]
pub open spec fn node_replaced(u: Ui, idx: usize, n: ffon::Node) -> Ui {
    Ui { ffon: ffon::replaced(u.ffon, u.current_id, idx as int, n), ..u }
}

/// Replace an element in the layer of the position.
pub(crate) fn replace_node(r: &mut AppRenderer, idx: usize, elem: FfonElement)
    ensures
        final(r)@ == node_replaced(old(r)@, idx, elem@),
        app_state::tabs_ok(old(r)@) ==> app_state::tabs_ok(final(r)@),
{
    proof {
        reveal(node_replaced);
    }
    ffon::replace_at(&mut r.ffon, &r.current_id, idx, elem);
}

/// `u` with the element at `id` replaced.
#[verifier::opaque]
pub open spec fn replaced_at(u: Ui, id: Seq<usize>, n: ffon::Node) -> Ui {
    Ui { ffon: ffon::replaced(u.ffon, id, ffon::last_or_zero(id) as int, n), ..u }
}

/// Replace the element at `id`.
pub(crate) fn replace_at_id(r: &mut AppRenderer, id: &IdArray, elem: FfonElement)
    ensures
        final(r)@ == replaced_at(old(r)@, id@, elem@),
        app_state::tabs_ok(old(r)@) ==> app_state::tabs_ok(final(r)@),
{
    proof {
        reveal(replaced_at);
    }
    let idx: usize = id.last().unwrap_or(0);
    ffon::replace_at(&mut r.ffon, id, idx, elem);
}

/// `u` with an element put in at `id`.
#[verifier::opaque]
pub open spec fn inserted_at(u: Ui, id: Seq<usize>, n: ffon::Node) -> Ui {
    Ui { ffon: ffon::inserted(u.ffon, id, ffon::last_or_zero(id) as int, n), ..u }
}

/// Put an element in at `id`.
pub(crate) fn insert_at_id(r: &mut AppRenderer, id: &IdArray, elem: FfonElement)
    ensures
        final(r)@ == inserted_at(old(r)@, id@, elem@),
        app_state::tabs_ok(old(r)@) ==> app_state::tabs_ok(final(r)@),
{
    proof {
        reveal(inserted_at);
    }
    let idx: usize = id.last().unwrap_or(0);
    ffon::insert_at(&mut r.ffon, id, idx, elem);
}

/// `u` with the clipboard `n`.
#[verifier::opaque]
pub open spec fn with_clipboard(u: Ui, n: Option<ffon::Node>) -> Ui {
    Ui { clipboard: n, ..u }
}

/// Put `elem` on the clipboard.
pub(crate) fn set_clipboard(r: &mut AppRenderer, elem: Option<FfonElement>)
    ensures
        final(r)@ == with_clipboard(old(r)@, ffon::opt_node(elem)),
        app_state::tabs_ok(old(r)@) ==> app_state::tabs_ok(final(r)@),
{
    proof {
        reveal(with_clipboard);
    }
    r.clipboard = elem;
}

/// Build the list anew.
pub(crate) fn relist(r: &mut AppRenderer)
    requires
        app_state::tabs_ok(old(r)@),
    ensures
        final(r)@ == list::listed(old(r)@),
        app_state::tabs_ok(final(r)@),
{
    list::create_list_current_layer(r);
}

/// List everything at and below the position.
pub(crate) fn relist_search(r: &mut AppRenderer)
    requires
        app_state::tabs_ok(old(r)@),
    ensures
        final(r)@ == list::search_listed(old(r)@),
        app_state::tabs_ok(final(r)@),
{
    proof {
        list::law_search_listing_keeps_the_rest(r@);
    }
    list::create_list_extended_search(r);
}

/// The element of the layer of `id` that `id` ends with.
#[verifier::opaque]
pub open spec fn node_at(root: Seq<ffon::Node>, id: Seq<usize>) -> Option<ffon::Node> {
    match ffon::layer_at(root, id) {
        Some(layer) if ffon::last_or_zero(id) < layer.len() => Some(
            layer[ffon::last_or_zero(id) as int],
        ),
        _ => None,
    }
}

/// The element that the position is at.
pub open spec fn focused_node(u: Ui) -> Option<ffon::Node> {
    node_at(u.ffon, u.current_id)
}

/// The element at `id`, where the empty path stands for the first root.
pub fn element_ref<'a>(ffon: &'a Vec<FfonElement>, id: &IdArray) -> (res: Option<&'a FfonElement>)
    ensures
        match res {
            Some(e) => node_at(ffon::forest(ffon@), id@) == Some(e@),
            None => node_at(ffon::forest(ffon@), id@) is None,
        },
{
    proof {
        reveal(node_at);
    }
    let idx: usize = id.last().unwrap_or(0);
    match ffon::get_ffon_at_id(ffon, id) {
        Some(layer) => if idx < layer.len() {
            Some(&layer[idx])
        } else {
            None
        },
        None => None,
    }
}

/// A copy of the element at the position.
pub(crate) fn focused(r: &AppRenderer) -> (res: Option<FfonElement>)
    ensures
        ffon::opt_node(res) == focused_node(r@),
{
    match element_ref(&r.ffon, &r.current_id) {
        Some(e) => Some(e.clone()),
        None => None,
    }
}

/// A copy of the selected item.
pub(crate) fn selected(r: &AppRenderer) -> (res: Option<RenderListItem>)
    ensures
        match res {
            Some(item) => app_state::selected_item(r@) == Some(item@),
            None => app_state::selected_item(r@) is None,
        },
{
    match r.current_list_item() {
        Some(item) => Some(item.clone()),
        None => None,
    }
}

} // verus!
