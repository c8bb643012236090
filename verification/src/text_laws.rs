//! What editing a text comes to: which text is there after a key, where the
//! cursor is in it, and what is selected.
//!
//! The laws take a text apart at the cursor, and say how it is put together
//! again.

use vstd::prelude::*;

use crate::app_state::{Coordinate, Ui};
use crate::editing;
use crate::events;
use crate::events::OutsideView;
use crate::files;
use crate::handlers;
use crate::list;
use crate::moves;
use crate::offsets;
use crate::offsets::byte_len;
use crate::provider::StepView;
use crate::shortcuts::Action;
use crate::steps;
use crate::typing;

verus! {

/// The text that is edited: in a search of the list what is searched for, and
/// else what is typed.
pub open spec fn written(u: Ui) -> Seq<char> {
    if u.coordinate == Coordinate::SimpleSearch {
        u.search_string
    } else {
        u.input_buffer
    }
}

/// Whether the cursor is behind `a`, and nothing is selected.
pub open spec fn cursor_behind(u: Ui, a: Seq<char>) -> bool {
    u.cursor_position == byte_len(a) && u.selection_anchor is None
}

/// Whether `b`, which stands behind `a`, is selected: the selection starts at
/// one end of it, and the cursor is at the other.
pub open spec fn is_selected(u: Ui, a: Seq<char>, b: Seq<char>) -> bool {
    &&& b.len() > 0
    &&& u.selection_anchor matches Some(s) && {
        ||| s == byte_len(a) && u.cursor_position == byte_len(a + b)
        ||| s == byte_len(a + b) && u.cursor_position == byte_len(a)
    }
}

/// Whether `v` is `u` but for the text that is typed, the cursor, the selection
/// and how they are drawn.
#[verifier::opaque]
pub open spec fn only_text_differs(u: Ui, v: Ui) -> bool {
    v == (Ui {
        input_buffer: v.input_buffer,
        search_string: v.search_string,
        cursor_position: v.cursor_position,
        selection_anchor: v.selection_anchor,
        caret: v.caret,
        needs_redraw: v.needs_redraw,
        ..u
    })
}

/// Whether `v` differs from `u` only in the text, the cursor, the selection, and
/// the list that is searched for the text.
#[verifier::opaque]
pub open spec fn only_search_differs(u: Ui, v: Ui) -> bool {
    v == (Ui {
        input_buffer: v.input_buffer,
        search_string: v.search_string,
        cursor_position: v.cursor_position,
        selection_anchor: v.selection_anchor,
        caret: v.caret,
        needs_redraw: v.needs_redraw,
        total_list: v.total_list,
        filtered_list_indices: v.filtered_list_indices,
        fuzzy_match_positions: v.fuzzy_match_positions,
        list_index: v.list_index,
        error_message: v.error_message,
        ..u
    })
}

proof fn lemma_place(a: Seq<char>, c: Seq<char>)
    ensures
        offsets::chars_before(a + c, byte_len(a) as int) == a.len(),
        offsets::at_char(a + c, byte_len(a) as int),
        byte_len(a) <= byte_len(a + c),
{
    assert((a + c).take(a.len() as int) =~= a);
    offsets::lemma_chars_before_offset(a + c, a.len() as int);
    offsets::lemma_byte_len_concat(a, c);
}

pub(crate) proof fn lemma_parts(a: Seq<char>, b: Seq<char>, c: Seq<char>)
    ensures
        offsets::chars_before(a + b + c, byte_len(a) as int) == a.len(),
        offsets::chars_before(a + b + c, byte_len(a + b) as int) == a.len() + b.len(),
        offsets::at_char(a + b + c, byte_len(a) as int),
        offsets::at_char(a + b + c, byte_len(a + b) as int),
        byte_len(a + b) == byte_len(a) + byte_len(b),
        byte_len(a + b + c) == byte_len(a) + byte_len(b) + byte_len(c),
        b.len() > 0 ==> byte_len(b) > 0,
        (a + b + c).take(a.len() as int) == a,
        (a + b + c).skip(a.len() as int) == b + c,
        (a + b + c).skip((a + b).len() as int) == c,
        (a + b + c).subrange(a.len() as int, (a + b).len() as int) == b,
{
    assert(a + b + c =~= a + (b + c));
    lemma_place(a, b + c);
    lemma_place(a + b, c);
    offsets::lemma_byte_len_concat(a, b);
    offsets::lemma_byte_len_concat(a + b, c);
    if b.len() > 0 {
        offsets::lemma_offset_monotone(b, 0, b.len() as int);
        offsets::lemma_offset_ends(b);
    }
    assert((a + b + c).take(a.len() as int) =~= a);
    assert((a + b + c).skip(a.len() as int) =~= b + c);
    assert((a + b + c).skip((a + b).len() as int) =~= c);
    assert((a + b + c).subrange(a.len() as int, (a + b).len() as int) =~= b);
}

/// `u` with the text `s`, the cursor at `pos` and a selection from `anchor`.
#[verifier::opaque]
spec fn text_set(u: Ui, s: Seq<char>, pos: usize, anchor: Option<usize>) -> Ui {
    Ui { cursor_position: pos, selection_anchor: anchor, ..typing::with_text(u, s) }
}

proof fn lemma_set_set(
    u: Ui,
    s: Seq<char>,
    pos: usize,
    anchor: Option<usize>,
    t: Seq<char>,
    to: usize,
    end: Option<usize>,
)
    ensures
        text_set(text_set(u, s, pos, anchor), t, to, end) == text_set(u, t, to, end),
        text_set(u, s, pos, anchor).cursor_position == pos,
        text_set(u, s, pos, anchor).selection_anchor == anchor,
        text_set(u, s, pos, anchor).coordinate == u.coordinate,
        typing::text_here(text_set(u, s, pos, anchor)) == s,
        written(text_set(u, s, pos, anchor)) == s,
{
    reveal(text_set);
}

/// Whether `v` is in the mode of `u`, with the text `s`, the cursor at `pos` and
/// a selection from `anchor`.
spec fn is_set(u: Ui, v: Ui, s: Seq<char>, pos: usize, anchor: Option<usize>) -> bool {
    &&& written(v) == s
    &&& v.cursor_position == pos
    &&& v.selection_anchor == anchor
    &&& v.coordinate == u.coordinate
}

proof fn lemma_set(u: Ui, s: Seq<char>, pos: usize, anchor: Option<usize>, now: u64)
    ensures
        ({
            let x = text_set(u, s, pos, anchor);
            let y = moves::touched(x, now);
            &&& is_set(u, x, s, pos, anchor)
            &&& is_set(u, y, s, pos, anchor)
            &&& is_set(u, moves::redrawn(x), s, pos, anchor)
            &&& only_text_differs(u, x)
            &&& only_text_differs(u, y)
            &&& only_text_differs(u, moves::redrawn(x))
            &&& only_search_differs(u, x)
            &&& only_search_differs(u, y)
            &&& only_search_differs(u, moves::redrawn(x))
            &&& y.needs_redraw
            &&& moves::redrawn(x).needs_redraw
        }),
{
    reveal(text_set);
    reveal(moves::touched);
    reveal(moves::redrawn);
    reveal(only_text_differs);
    reveal(only_search_differs);
}

proof fn lemma_transitive(u: Ui, v: Ui, w: Ui)
    requires
        only_search_differs(u, v),
        only_search_differs(v, w),
    ensures
        only_search_differs(u, w),
{
    reveal(only_search_differs);
}

proof fn lemma_redrawn_differs(v: Ui)
    ensures
        only_search_differs(v, moves::redrawn(v)),
        only_text_differs(v, moves::redrawn(v)),
        moves::redrawn(v).needs_redraw,
        is_set(v, moves::redrawn(v), written(v), v.cursor_position, v.selection_anchor),
{
    reveal(moves::redrawn);
    reveal(only_search_differs);
    reveal(only_text_differs);
}

proof fn lemma_searched(v: Ui)
    ensures
        ({
            let w = typing::searched_again(v);
            &&& is_set(v, w, written(v), v.cursor_position, v.selection_anchor)
            &&& only_search_differs(v, w)
            &&& w.needs_redraw == v.needs_redraw
            &&& v.coordinate is Insert || v.coordinate is ScrollSearch ==> w == v
        }),
{
    reveal(typing::searched_again);
    reveal(only_search_differs);
    list::law_listing_keeps_the_rest(v);
    list::law_search_listing_keeps_the_rest(v);
    list::law_filtering_keeps_the_rest(list::listed(v), v.search_string);
    list::law_filtering_keeps_the_rest(list::listed(v), v.input_buffer);
    list::law_filtering_keeps_the_rest(list::search_listed(v), v.input_buffer);
}

/// What the laws say of an edit that leaves the text `s`, the cursor at `pos` and
/// a selection from `anchor`.
proof fn lemma_edit(u: Ui, s: Seq<char>, pos: usize, anchor: Option<usize>, now: u64)
    ensures
        ({
            let x = text_set(u, s, pos, anchor);
            let y = moves::touched(x, now);
            let w = typing::searched_again(y);
            &&& is_set(u, w, s, pos, anchor)
            &&& is_set(u, moves::redrawn(w), s, pos, anchor)
            &&& w.needs_redraw
            &&& moves::redrawn(w).needs_redraw
            &&& only_search_differs(u, w)
            &&& only_search_differs(u, moves::redrawn(w))
            &&& u.coordinate is Insert ==> only_text_differs(u, w) && only_text_differs(
                u,
                moves::redrawn(w),
            )
        }),
        ({
            let w = moves::redrawn(typing::searched_again(text_set(u, s, pos, anchor)));
            &&& is_set(u, w, s, pos, anchor)
            &&& w.needs_redraw
            &&& only_search_differs(u, w)
        }),
{
    let x = text_set(u, s, pos, anchor);
    let y = moves::touched(x, now);
    let w = typing::searched_again(y);
    lemma_set(u, s, pos, anchor, now);
    lemma_searched(y);
    lemma_transitive(u, y, w);
    lemma_redrawn_differs(w);
    lemma_transitive(u, w, moves::redrawn(w));
    if u.coordinate is Insert {
        assert(only_text_differs(u, moves::redrawn(y))) by {
            reveal(only_text_differs);
            reveal(moves::redrawn);
        }
    }
    let z = typing::searched_again(x);
    lemma_searched(x);
    lemma_transitive(u, x, z);
    lemma_redrawn_differs(z);
    lemma_transitive(u, z, moves::redrawn(z));
}

proof fn lemma_typed(u: Ui, a: Seq<char>, c: Seq<char>, t: Seq<char>)
    requires
        typing::text_here(u) == a + c,
        u.cursor_position == byte_len(a),
        byte_len(a + t) <= usize::MAX,
    ensures
        typing::typed(u, t) == text_set(
            u,
            a + t + c,
            byte_len(a + t) as usize,
            u.selection_anchor,
        ),
{
    reveal(text_set);
    reveal(editing::spliced);
    lemma_place(a, c);
    offsets::lemma_byte_len_concat(a, t);
    assert((a + c).take(a.len() as int) =~= a);
    assert((a + c).skip(a.len() as int) =~= c);
}

proof fn lemma_selection_deleted(u: Ui, a: Seq<char>, b: Seq<char>, c: Seq<char>)
    requires
        typing::text_here(u) == a + b + c,
        is_selected(u, a, b),
    ensures
        typing::selecting(u),
        typing::selection_deleted(u) == text_set(u, a + c, byte_len(a) as usize, None),
{
    reveal(text_set);
    reveal(typing::selection_deleted);
    reveal(editing::spliced);
    lemma_parts(a, b, c);
    assert(a + Seq::<char>::empty() + c =~= a + c);
}

/// Typing over a selection, or at the cursor.
proof fn lemma_typed_over(u: Ui, a: Seq<char>, b: Seq<char>, c: Seq<char>, t: Seq<char>, now: u64)
    requires
        typing::text_here(u) == a + b + c,
        b.len() == 0 && cursor_behind(u, a) || is_selected(u, a, b),
        byte_len(a + t) <= usize::MAX,
    ensures
        typing::typed_over(u, t, now) == moves::touched(
            text_set(u, a + t + c, byte_len(a + t) as usize, None),
            now,
        ),
{
    reveal(typing::without_selection);
    if is_selected(u, a, b) {
        lemma_selection_deleted(u, a, b, c);
        let d = typing::selection_deleted(u);
        lemma_set_set(
            u,
            a + c,
            byte_len(a) as usize,
            None,
            a + t + c,
            byte_len(a + t) as usize,
            None,
        );
        lemma_parts(a, b, c);
        lemma_typed(d, a, c, t);
    } else {
        assert(a + b + c =~= a + c);
        lemma_typed(u, a, c, t);
    }
}

/// What is typed takes the place of what is selected: the text before the
/// selection, what is typed, and the text behind the selection. The cursor is
/// behind what is typed, nothing is selected any more, and nothing else changes
/// while an element is edited.
pub proof fn law_typing_replaces_the_selection(
    u: Ui,
    a: Seq<char>,
    b: Seq<char>,
    c: Seq<char>,
    t: Seq<char>,
    now: u64,
)
    requires
        u.coordinate is Insert || u.coordinate is Command,
        u.input_buffer == a + b + c,
        is_selected(u, a, b),
        t.len() > 0,
        byte_len(a + t) <= usize::MAX,
    ensures
        ({
            let v = typing::after_input(u, t, now);
            &&& v.input_buffer == a + t + c
            &&& cursor_behind(v, a + t)
            &&& v.coordinate == u.coordinate
            &&& v.needs_redraw
            &&& u.coordinate is Insert ==> only_text_differs(u, v)
            &&& only_search_differs(u, v)
        }),
{
    reveal(typing::after_input);
    assert((a + b + c).len() > 0);
    lemma_typed_over(u, a, b, c, t, now);
    lemma_edit(u, a + t + c, byte_len(a + t) as usize, None, now);
    lemma_set(u, a + t + c, byte_len(a + t) as usize, None, now);
}

/// What is typed goes in where the cursor is, and the cursor is behind it then.
/// The text on both sides stays.
pub proof fn law_typing_goes_in_at_the_cursor(
    u: Ui,
    a: Seq<char>,
    c: Seq<char>,
    t: Seq<char>,
    now: u64,
)
    requires
        u.coordinate is Insert || u.coordinate is Command || u.coordinate is SimpleSearch
            || u.coordinate is ExtendedSearch || u.coordinate is ScrollSearch,
        u.coordinate is Command ==> a + c != Seq::<char>::empty() || t != ":"@,
        written(u) == a + c,
        cursor_behind(u, a),
        t.len() > 0,
        byte_len(a + t) <= usize::MAX,
    ensures
        ({
            let v = typing::after_input(u, t, now);
            &&& written(v) == a + t + c
            &&& cursor_behind(v, a + t)
            &&& v.coordinate == u.coordinate
            &&& v.needs_redraw
            &&& u.coordinate is Insert || u.coordinate is ScrollSearch ==> only_text_differs(u, v)
            &&& only_search_differs(u, v)
        }),
{
    reveal(typing::after_input);
    let none = Seq::<char>::empty();
    let pos = byte_len(a + t) as usize;
    assert(a + none + c =~= a + c);
    assert((a + c).len() == 0 ==> a + c =~= none);
    lemma_typed_over(u, a, none, c, t, now);
    lemma_typed(u, a, c, t);
    lemma_edit(u, a + t + c, pos, None, now);
    lemma_set(u, a + t + c, pos, None, now);
}

/// With everything selected, what is typed is all that is there.
pub proof fn law_typing_over_everything(u: Ui, t: Seq<char>, o: OutsideView, now: u64)
    requires
        u.coordinate is Insert,
        u.input_buffer.len() > 0,
        byte_len(u.input_buffer) <= usize::MAX,
        t.len() > 0,
        byte_len(t) <= usize::MAX,
    ensures
        ({
            let v = events::performed(u, Action::SelectAll, o).0;
            let w = typing::after_input(v, t, now);
            &&& v.input_buffer == u.input_buffer
            &&& is_selected(v, Seq::empty(), u.input_buffer)
            &&& w.input_buffer == t
            &&& w.cursor_position == byte_len(t)
            &&& w.selection_anchor is None
        }),
{
    law_select_all_selects_everything(u, o);
    let none = Seq::<char>::empty();
    let v = events::performed(u, Action::SelectAll, o).0;
    assert(none + u.input_buffer + none =~= u.input_buffer);
    assert(none + t + none =~= t);
    assert(none + t =~= t);
    law_typing_replaces_the_selection(v, none, u.input_buffer, none, t, now);
}

/// The key that selects everything does so, with the cursor at the end, and
/// changes no text.
pub proof fn law_select_all_selects_everything(u: Ui, o: OutsideView)
    requires
        written(u).len() > 0,
        byte_len(written(u)) <= usize::MAX,
    ensures
        ({
            let v = events::performed(u, Action::SelectAll, o).0;
            &&& written(v) == written(u)
            &&& is_selected(v, Seq::empty(), written(u))
            &&& v.cursor_position == byte_len(written(u))
            &&& v.coordinate == u.coordinate
            &&& only_text_differs(u, v)
        }),
{
    reveal(events::performed);
    reveal(events::typed);
    let n = byte_len(written(u)) as usize;
    assert(Seq::<char>::empty() + written(u) =~= written(u));
    lemma_set(u, written(u), n, Some(0), o.now);
    assert(typing::all_selected(u, o.now) == moves::touched(
        text_set(u, written(u), n, Some(0)),
        o.now,
    )) by {
        reveal(text_set);
    }
}

/// The backspace key deletes what is selected, or else the character before the
/// cursor, and nothing at the start of the text.
pub proof fn law_backspace_erases(
    u: Ui,
    a: Seq<char>,
    b: Seq<char>,
    c: Seq<char>,
    o: OutsideView,
)
    requires
        u.coordinate is Insert || u.coordinate is Command || u.coordinate is ExtendedSearch
            || u.coordinate is ScrollSearch || u.coordinate is SimpleSearch,
        written(u) == a + b + c,
        b.len() == 1 && cursor_behind(u, a + b) || u.coordinate != Coordinate::SimpleSearch
            && is_selected(u, a, b),
    ensures
        ({
            let v = events::performed(u, Action::Backspace, o).0;
            &&& written(v) == a + c
            &&& cursor_behind(v, a)
            &&& v.coordinate == u.coordinate
            &&& v.needs_redraw
            &&& u.coordinate is Insert ==> only_text_differs(u, v)
            &&& only_search_differs(u, v)
        }),
{
    reveal(events::performed);
    reveal(events::erased);
    reveal(typing::after_backspace);
    lemma_parts(a, b, c);
    let now = o.now;
    let pos = byte_len(a) as usize;
    assert(typing::text_here(u) == a + b + c);
    lemma_edit(u, a + c, pos, None, now);
    if is_selected(u, a, b) && u.coordinate != Coordinate::SimpleSearch {
        lemma_selection_deleted(u, a, b, c);
    } else {
        assert((a + b + c).take((a + b).len() - 1) =~= a);
        assert(a + Seq::<char>::empty() + c =~= a + c);
        if u.coordinate is SimpleSearch {
            assert(typing::search_backspaced(u) == text_set(u, a + c, pos, None)) by {
                reveal(text_set);
                reveal(editing::prev_offset);
                reveal(editing::spliced);
            }
        } else {
            assert(typing::backspaced(u) == text_set(u, a + c, pos, None)) by {
                reveal(text_set);
                reveal(editing::prev_offset);
                reveal(editing::spliced);
            }
        }
    }
}

/// At the start of the text the backspace key does nothing, where nothing is
/// selected.
pub proof fn law_backspace_stops_at_the_start(u: Ui, o: OutsideView)
    requires
        cursor_behind(u, Seq::empty()),
    ensures
        events::performed(u, Action::Backspace, o).0 == u,
{
    reveal(events::performed);
    reveal(events::erased);
    reveal(typing::after_backspace);
    assert(byte_len(Seq::<char>::empty()) == 0);
}

/// The delete key deletes what is selected, or else the character behind the
/// cursor.
pub proof fn law_delete_erases(u: Ui, a: Seq<char>, b: Seq<char>, c: Seq<char>, o: OutsideView)
    requires
        written(u) == a + b + c,
        b.len() == 1 && cursor_behind(u, a) || is_selected(u, a, b),
    ensures
        ({
            let v = events::performed(u, Action::DeleteForward, o).0;
            &&& written(v) == a + c
            &&& cursor_behind(v, a)
            &&& v.coordinate == u.coordinate
            &&& v.needs_redraw
            &&& u.coordinate is Insert ==> only_text_differs(u, v)
            &&& only_search_differs(u, v)
        }),
{
    reveal(events::performed);
    reveal(events::erased);
    reveal(typing::after_delete_forward);
    lemma_parts(a, b, c);
    let now = o.now;
    let pos = byte_len(a) as usize;
    assert(typing::text_here(u) == a + b + c);
    lemma_edit(u, a + c, pos, None, now);
    if is_selected(u, a, b) {
        lemma_selection_deleted(u, a, b, c);
    } else {
        assert((a + b + c).take(a.len() as int + 1) =~= a + b);
        assert(a + Seq::<char>::empty() + c =~= a + c);
        assert(typing::deleted_at(u) == text_set(u, a + c, pos, None)) by {
            reveal(text_set);
            reveal(editing::next_offset);
            reveal(editing::spliced);
        }
    }
}

/// At the end of the text the delete key does nothing, where nothing is
/// selected.
pub proof fn law_delete_stops_at_the_end(u: Ui, o: OutsideView)
    requires
        cursor_behind(u, written(u)),
    ensures
        events::performed(u, Action::DeleteForward, o).0 == u,
{
    reveal(events::performed);
    reveal(events::erased);
    reveal(typing::after_delete_forward);
}

/// Whether text is edited in the mode `c` with a clipboard.
pub open spec fn has_clipboard(c: Coordinate) -> bool {
    c is Insert || c is SimpleSearch || c is ExtendedSearch || c is Command
}

/// Cutting takes what is selected out of the text and hands it over; copying
/// hands it over and leaves the text and the selection as they are.
pub proof fn law_cut_and_copy_hand_over_the_selection(
    u: Ui,
    a: Seq<char>,
    b: Seq<char>,
    c: Seq<char>,
    o: OutsideView,
)
    requires
        has_clipboard(u.coordinate),
        written(u) == a + b + c,
        is_selected(u, a, b),
    ensures
        ({
            let (v, effects) = events::performed(u, Action::Cut, o);
            &&& effects.copied == Some(b)
            &&& effects.step == StepView::Done
            &&& written(v) == a + c
            &&& cursor_behind(v, a)
            &&& v.coordinate == u.coordinate
            &&& only_search_differs(u, v)
        }),
        ({
            let (v, effects) = events::performed(u, Action::Copy, o);
            &&& effects.copied == Some(b)
            &&& effects.step == StepView::Done
            &&& v == (Ui { needs_redraw: true, ..u })
        }),
{
    reveal(events::performed);
    reveal(files::after_cut);
    reveal(files::after_copy);
    reveal(editing::between_offsets);
    lemma_parts(a, b, c);
    assert(typing::text_here(u) == a + b + c);
    lemma_selection_deleted(u, a, b, c);
    lemma_edit(u, a + c, byte_len(a) as usize, None, o.now);
    assert(moves::redrawn(u) == Ui { needs_redraw: true, ..u }) by {
        reveal(moves::redrawn);
    }
}

/// Where nothing is selected, cutting and copying do nothing to a text and hand
/// nothing over.
pub proof fn law_nothing_selected_is_not_cut(u: Ui, o: OutsideView)
    requires
        has_clipboard(u.coordinate),
        u.selection_anchor is None,
    ensures
        events::performed(u, Action::Cut, o).0 == u,
        events::performed(u, Action::Cut, o).1.copied is None,
        events::performed(u, Action::Copy, o).0 == u,
        events::performed(u, Action::Copy, o).1.copied is None,
{
    reveal(events::performed);
    reveal(files::after_cut);
    reveal(files::after_copy);
}

/// Pasting puts the text of the clipboard in at the cursor, or in place of what
/// is selected.
pub proof fn law_paste_puts_the_clipboard_in(
    u: Ui,
    a: Seq<char>,
    b: Seq<char>,
    c: Seq<char>,
    t: Seq<char>,
    o: OutsideView,
)
    requires
        has_clipboard(u.coordinate),
        written(u) == a + b + c,
        b.len() == 0 && cursor_behind(u, a) || is_selected(u, a, b),
        o.clipboard == Some(t),
        byte_len(a + t) <= usize::MAX,
    ensures
        ({
            let (v, effects) = events::performed(u, Action::Paste, o);
            &&& effects.step == StepView::Done
            &&& written(v) == a + t + c
            &&& cursor_behind(v, a + t)
            &&& v.coordinate == u.coordinate
            &&& only_search_differs(u, v)
        }),
{
    reveal(events::performed);
    reveal(events::edited);
    reveal(files::after_paste);
    assert(typing::text_here(u) == a + b + c);
    lemma_typed_over(u, a, b, c, t, o.now);
    lemma_edit(u, a + t + c, byte_len(a + t) as usize, None, o.now);
}

/// What is cut and pasted again is back where it was.
pub proof fn law_cut_and_paste_give_the_text_back(
    u: Ui,
    a: Seq<char>,
    b: Seq<char>,
    c: Seq<char>,
    o: OutsideView,
    p: OutsideView,
)
    requires
        has_clipboard(u.coordinate),
        written(u) == a + b + c,
        is_selected(u, a, b),
        p.clipboard == events::performed(u, Action::Cut, o).1.copied,
    ensures
        ({
            let v = events::performed(u, Action::Cut, o).0;
            let w = events::performed(v, Action::Paste, p).0;
            written(w) == written(u)
        }),
{
    law_cut_and_copy_hand_over_the_selection(u, a, b, c, o);
    let v = events::performed(u, Action::Cut, o).0;
    let none = Seq::<char>::empty();
    assert(a + none + c =~= a + c);
    lemma_parts(a, b, c);
    law_paste_puts_the_clipboard_in(v, a, none, c, b, p);
}

proof fn lemma_extended(u: Ui, to: usize, now: u64)
    ensures
        ({
            let anchor = if u.selection_anchor is None {
                Some(u.cursor_position)
            } else {
                u.selection_anchor
            };
            let v = typing::extended_to(u, to as int, now);
            &&& is_set(u, v, written(u), to, anchor)
            &&& only_text_differs(u, v)
        }),
        ({
            let v = typing::moved_to(u, to as int, now);
            &&& is_set(u, v, written(u), to, None)
            &&& only_text_differs(u, v)
        }),
{
    reveal(only_text_differs);
    reveal(moves::touched);
}

/// The left key with shift moves the cursor over the character before it, and
/// the right key over the one behind it. The selection starts where the cursor
/// was, or stays where it started, and no text changes.
pub proof fn law_shift_moves_the_cursor_over_a_character(
    u: Ui,
    a: Seq<char>,
    x: char,
    c: Seq<char>,
    o: OutsideView,
)
    requires
        written(u) == a + seq![x] + c,
        byte_len(a + seq![x]) <= usize::MAX,
    ensures
        u.cursor_position == byte_len(a + seq![x]) ==> {
            let v = events::performed(u, Action::ShiftLeft, o).0;
            &&& v.cursor_position == byte_len(a)
            &&& v.selection_anchor == if u.selection_anchor is None {
                Some(u.cursor_position)
            } else {
                u.selection_anchor
            }
            &&& written(v) == written(u)
            &&& only_text_differs(u, v)
        },
        u.cursor_position == byte_len(a) ==> {
            let v = events::performed(u, Action::ShiftRight, o).0;
            &&& v.cursor_position == byte_len(a + seq![x])
            &&& v.selection_anchor == if u.selection_anchor is None {
                Some(u.cursor_position)
            } else {
                u.selection_anchor
            }
            &&& written(v) == written(u)
            &&& only_text_differs(u, v)
        },
{
    reveal(events::performed);
    reveal(events::typed);
    reveal(editing::prev_offset);
    reveal(editing::next_offset);
    let b = seq![x];
    lemma_parts(a, b, c);
    assert(typing::text_here(u) == a + b + c);
    assert((a + b + c).take((a + b).len() - 1) =~= a);
    assert((a + b + c).take(a.len() as int + 1) =~= a + b);
    lemma_extended(u, byte_len(a) as usize, o.now);
    lemma_extended(u, byte_len(a + b) as usize, o.now);
}

/// Whether `l` has no line break in it.
pub open spec fn is_one_line(l: Seq<char>) -> bool {
    forall|i: int| 0 <= i < l.len() ==> l[i] != '\n'
}

/// Whether `a` ends where a line starts.
pub open spec fn ends_a_line(a: Seq<char>) -> bool {
    a.len() == 0 || a.last() == '\n'
}

/// Whether `c` starts where a line ends.
pub open spec fn starts_with_break(c: Seq<char>) -> bool {
    c.len() == 0 || c[0] == '\n'
}

proof fn lemma_line_start_is(s: Seq<char>, k: int, m: int)
    requires
        0 <= m <= k <= s.len(),
        m == 0 || s[m - 1] == '\n',
        forall|i: int| m <= i < k ==> s[i] != '\n',
    ensures
        editing::line_start(s, k) == m,
    decreases k,
{
    if k > m {
        lemma_line_start_is(s, k - 1, m);
    }
}

proof fn lemma_line_end_is(s: Seq<char>, k: int, m: int)
    requires
        0 <= k <= m <= s.len(),
        m == s.len() || s[m] == '\n',
        forall|i: int| k <= i < m ==> s[i] != '\n',
    ensures
        editing::line_end(s, k) == m,
    decreases m - k,
{
    if k < m {
        lemma_line_end_is(s, k + 1, m);
    }
}

proof fn lemma_line(a: Seq<char>, l: Seq<char>, m: Seq<char>, c: Seq<char>)
    requires
        ends_a_line(a),
        is_one_line(l),
        is_one_line(m),
        starts_with_break(c),
    ensures
        ({
            let s = a + l + m + c;
            &&& editing::line_start_at(s, byte_len(a + l) as int) == byte_len(a)
            &&& editing::line_end_at(s, byte_len(a + l) as int) == byte_len(a + l + m)
            &&& offsets::chars_before(s, byte_len(a + l) as int) == a.len() + l.len()
            &&& byte_len(a + l) <= byte_len(s)
        }),
{
    reveal(editing::line_start_at);
    reveal(editing::line_end_at);
    let s = a + l + m + c;
    assert(s =~= (a + l) + (m + c));
    lemma_place(a + l, m + c);
    let k = (a + l).len() as int;
    assert forall|i: int| a.len() <= i < k implies s[i] != '\n' by {
        assert(s[i] == l[i - a.len()]);
    }
    assert forall|i: int| k <= i < k + m.len() implies s[i] != '\n' by {
        assert(s[i] == m[i - k]);
    }
    if a.len() > 0 {
        assert(s[a.len() - 1] == a.last());
    }
    if c.len() > 0 {
        assert(s[k + m.len()] == c[0]);
    }
    lemma_line_start_is(s, k, a.len() as int);
    lemma_line_end_is(s, k, k + m.len());
    assert(s.take(a.len() as int) =~= a);
    assert(s.take(k + m.len()) =~= a + l + m);
}

/// While a text is edited, the home key moves the cursor to the start of its
/// line and the end key to the end of it; nothing is selected then. With shift
/// the selection starts where the cursor was.
pub proof fn law_home_and_end_move_within_the_line(
    u: Ui,
    a: Seq<char>,
    l: Seq<char>,
    m: Seq<char>,
    c: Seq<char>,
    o: OutsideView,
)
    requires
        u.coordinate is Insert || u.coordinate is SimpleSearch || u.coordinate is ExtendedSearch
            || u.coordinate is Command || u.coordinate is ScrollSearch,
        written(u) == a + l + m + c,
        u.cursor_position == byte_len(a + l),
        ends_a_line(a),
        is_one_line(l),
        is_one_line(m),
        starts_with_break(c),
        byte_len(written(u)) <= usize::MAX,
    ensures
        ({
            let (v, effects) = events::performed(u, Action::Home, o);
            &&& effects.step == StepView::Done
            &&& cursor_behind(v, a)
            &&& written(v) == written(u)
            &&& only_text_differs(u, v)
        }),
        ({
            let v = events::performed(u, Action::End, o).0;
            &&& cursor_behind(v, a + l + m)
            &&& written(v) == written(u)
            &&& only_text_differs(u, v)
        }),
        ({
            let v = events::performed(u, Action::ShiftHome, o).0;
            &&& v.cursor_position == byte_len(a)
            &&& u.selection_anchor is None ==> v.selection_anchor == Some(u.cursor_position)
            &&& u.selection_anchor is Some ==> v.selection_anchor == u.selection_anchor
            &&& written(v) == written(u)
            &&& only_text_differs(u, v)
        }),
        ({
            let v = events::performed(u, Action::ShiftEnd, o).0;
            &&& v.cursor_position == byte_len(a + l + m)
            &&& u.selection_anchor is None ==> v.selection_anchor == Some(u.cursor_position)
            &&& u.selection_anchor is Some ==> v.selection_anchor == u.selection_anchor
            &&& written(v) == written(u)
            &&& only_text_differs(u, v)
        }),
{
    reveal(events::performed);
    reveal(events::moved);
    reveal(events::typed);
    reveal(steps::after_home);
    reveal(handlers::after_end);
    lemma_line(a, l, m, c);
    lemma_parts(a + l, m, c);
    offsets::lemma_byte_len_concat(a, l);
    assert(typing::text_here(u) == a + l + m + c);
    lemma_extended(u, byte_len(a) as usize, o.now);
    lemma_extended(u, byte_len(a + l + m) as usize, o.now);
}

/// The first characters of a line, as many as there are in `l` or fewer.
pub open spec fn column_of(line: Seq<char>, l: Seq<char>) -> Seq<char> {
    if l.len() < line.len() {
        line.take(l.len() as int)
    } else {
        line
    }
}

/// Going on from the start of a line by as many characters as `l` has leads to
/// that column of the line, or to its end.
proof fn lemma_column(p: Seq<char>, line: Seq<char>, rest: Seq<char>, l: Seq<char>)
    ensures
        editing::advanced(
            p + line + rest,
            byte_len(p) as int,
            l.len() as int,
            byte_len(p + line) as int,
        ) == byte_len(p + column_of(line, l)),
{
    let s = p + line + rest;
    assert(s =~= p + (line + rest));
    lemma_place(p, line + rest);
    reveal(editing::advanced);
    let k = p.len() + l.len();
    if l.len() < line.len() {
        assert(s.take(k as int) =~= p + line.take(l.len() as int));
        assert(s.take((p + line).len() as int) =~= p + line);
        offsets::lemma_offset_monotone(s, k as int, (p + line).len() as int);
    } else {
        let end = if k <= s.len() {
            k as int
        } else {
            s.len() as int
        };
        assert(s.take((p + line).len() as int) =~= p + line);
        offsets::lemma_offset_monotone(s, (p + line).len() as int, end);
    }
}

proof fn lemma_break(a: Seq<char>)
    ensures
        byte_len(a + seq!['\n']) == byte_len(a) + 1,
{
    assert((a + seq!['\n']).drop_last() =~= a);
}

/// The place above the cursor.
proof fn lemma_above(
    p: Seq<char>,
    line: Seq<char>,
    l: Seq<char>,
    m: Seq<char>,
    c: Seq<char>,
)
    requires
        ends_a_line(p),
        is_one_line(line),
        is_one_line(l),
        is_one_line(m),
        starts_with_break(c),
    ensures
        ({
            let a = p + line + seq!['\n'];
            editing::above(a + l + m + c, byte_len(a + l) as int) == Some(
                byte_len(p + column_of(line, l)) as int,
            )
        }),
{
    let nl = seq!['\n'];
    let a = p + line + nl;
    let s = a + l + m + c;
    let none = Seq::<char>::empty();
    lemma_line(a, l, m, c);
    lemma_break(p + line);
    let rest = nl + l + m + c;
    assert(s =~= p + line + none + rest);
    assert(s =~= p + line + rest);
    assert(s =~= a + (l + m + c));
    lemma_line(p, line, none, rest);
    lemma_place(a, l + m + c);
    lemma_column(p, line, rest, l);
    reveal(editing::above);
}

/// The place below the cursor.
proof fn lemma_below(
    a: Seq<char>,
    l: Seq<char>,
    m: Seq<char>,
    line: Seq<char>,
    c: Seq<char>,
)
    requires
        ends_a_line(a),
        is_one_line(l),
        is_one_line(m),
        is_one_line(line),
        starts_with_break(c),
    ensures
        ({
            let b = a + l + m + seq!['\n'];
            editing::below(b + line + c, byte_len(a + l) as int) == Some(
                byte_len(b + column_of(line, l)) as int,
            )
        }),
{
    let nl = seq!['\n'];
    let b = a + l + m + nl;
    let s = b + line + c;
    let none = Seq::<char>::empty();
    let rest = nl + line + c;
    assert(s =~= a + l + m + rest);
    lemma_line(a, l, m, rest);
    lemma_break(a + l + m);
    assert(s =~= b + none + line + c);
    assert(b + none =~= b);
    lemma_line(b, none, line, c);
    lemma_column(b, line, c, l);
    assert(s =~= b + (line + c));
    lemma_place(b, line + c);
    assert(s =~= a + (l + m + rest));
    lemma_place(a, l + m + rest);
    reveal(editing::below);
}

/// While a text is edited, the up key moves the cursor to the line above, into
/// the column that it is in or to the end of a shorter line; nothing is selected
/// then. With shift the selection starts where the cursor was.
pub proof fn law_up_moves_to_the_line_above(
    u: Ui,
    p: Seq<char>,
    line: Seq<char>,
    l: Seq<char>,
    m: Seq<char>,
    c: Seq<char>,
    o: OutsideView,
)
    requires
        u.coordinate is Insert,
        written(u) == p + line + seq!['\n'] + l + m + c,
        u.cursor_position == byte_len(p + line + seq!['\n'] + l),
        ends_a_line(p),
        is_one_line(line),
        is_one_line(l),
        is_one_line(m),
        starts_with_break(c),
    ensures
        ({
            let v = events::performed(u, Action::UpInsert, o).0;
            &&& cursor_behind(v, p + column_of(line, l))
            &&& only_text_differs(u, v)
            &&& written(v) == written(u)
        }),
        ({
            let v = events::performed(u, Action::ShiftUpInsert, o).0;
            &&& v.cursor_position == byte_len(p + column_of(line, l))
            &&& u.selection_anchor is None ==> v.selection_anchor == Some(u.cursor_position)
            &&& u.selection_anchor is Some ==> v.selection_anchor == u.selection_anchor
            &&& only_text_differs(u, v)
            &&& written(v) == written(u)
        }),
{
    reveal(events::performed);
    reveal(events::typed);
    lemma_above(p, line, l, m, c);
    let to = byte_len(p + column_of(line, l));
    let a = p + line + seq!['\n'];
    assert(to <= byte_len(a + l)) by {
        lemma_break(p + line);
        offsets::lemma_byte_len_concat(a, l);
        let rest = line.skip(column_of(line, l).len() as int);
        assert(p + line =~= p + column_of(line, l) + rest);
        offsets::lemma_byte_len_concat(p + column_of(line, l), rest);
    }
    lemma_extended(u, to as usize, o.now);
}

/// While a text is edited, the down key moves the cursor to the line below, into
/// the column that it is in or to the end of a shorter line; nothing is selected
/// then. With shift the selection starts where the cursor was.
pub proof fn law_down_moves_to_the_line_below(
    u: Ui,
    a: Seq<char>,
    l: Seq<char>,
    m: Seq<char>,
    line: Seq<char>,
    c: Seq<char>,
    o: OutsideView,
)
    requires
        u.coordinate is Insert,
        written(u) == a + l + m + seq!['\n'] + line + c,
        u.cursor_position == byte_len(a + l),
        ends_a_line(a),
        is_one_line(l),
        is_one_line(m),
        is_one_line(line),
        starts_with_break(c),
        byte_len(written(u)) <= usize::MAX,
    ensures
        ({
            let v = events::performed(u, Action::DownInsert, o).0;
            &&& cursor_behind(v, a + l + m + seq!['\n'] + column_of(line, l))
            &&& only_text_differs(u, v)
            &&& written(v) == written(u)
        }),
        ({
            let v = events::performed(u, Action::ShiftDownInsert, o).0;
            &&& v.cursor_position == byte_len(a + l + m + seq!['\n'] + column_of(line, l))
            &&& u.selection_anchor is None ==> v.selection_anchor == Some(u.cursor_position)
            &&& u.selection_anchor is Some ==> v.selection_anchor == u.selection_anchor
            &&& only_text_differs(u, v)
            &&& written(v) == written(u)
        }),
{
    reveal(events::performed);
    reveal(events::typed);
    lemma_below(a, l, m, line, c);
    let b = a + l + m + seq!['\n'];
    let to = byte_len(b + column_of(line, l));
    assert(to <= byte_len(b + line + c)) by {
        let rest = line.skip(column_of(line, l).len() as int) + c;
        assert(b + line + c =~= b + column_of(line, l) + rest);
        offsets::lemma_byte_len_concat(b + column_of(line, l), rest);
    }
    lemma_extended(u, to as usize, o.now);
}

/// On the first line the up key moves nothing, and on the last one the down key.
pub proof fn law_no_line_above_or_below(
    u: Ui,
    l: Seq<char>,
    m: Seq<char>,
    c: Seq<char>,
    o: OutsideView,
)
    requires
        u.coordinate is Insert,
        is_one_line(l),
        is_one_line(m),
    ensures
        u.input_buffer == l + m + c && u.cursor_position == byte_len(l) && starts_with_break(c)
            ==> events::performed(u, Action::UpInsert, o).0 == u,
        u.input_buffer == c + l + m && u.cursor_position == byte_len(c + l) && ends_a_line(c)
            ==> events::performed(u, Action::DownInsert, o).0 == u,
{
    reveal(events::performed);
    reveal(events::typed);
    let none = Seq::<char>::empty();
    if starts_with_break(c) {
        assert(none + l + m + c =~= l + m + c);
        assert(none + l =~= l);
        lemma_line(none, l, m, c);
        reveal(editing::above);
    }
    if ends_a_line(c) {
        assert(c + l + m + none =~= c + l + m);
        lemma_line(c, l, m, none);
        reveal(editing::below);
    }
}

} // verus!
