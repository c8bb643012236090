//! Keys that move about, change the mode and edit the tree.

use vstd::prelude::*;

use crate::app_state;
use crate::app_state::{AppRenderer, CommandPhase, Coordinate, History, Task, Ui};
use crate::editing;
use crate::ffon;
use crate::ffon::{FfonElement, IdArray};
use crate::list;
use crate::markup;
use crate::moves;
use crate::offsets;
use crate::state;
use crate::text;
use crate::typing;

verus! {

/// How long a second tap on a key counts as a double tap, in milliseconds.
pub const DELTA_MS: u64 = 400;

/// The scroll offset that shows the selected item at the end of the window.
pub const AT_END: i32 = -1;

/// The height of a line, at least one pixel.
pub open spec fn line_step(u: Ui) -> int {
    if u.cached_line_height >= 1 {
        u.cached_line_height as int
    } else {
        1
    }
}

/// The height of a line, at least one pixel.
pub(crate) fn line_height(r: &AppRenderer) -> (n: i32)
    ensures
        n == line_step(r@),
{
    if r.cached_line_height >= 1 {
        r.cached_line_height
    } else {
        1
    }
}

/// The larger of `n` and 0.
pub open spec fn at_least_zero(n: int) -> int {
    if n >= 0 {
        n
    } else {
        0
    }
}

/// How far the text can be scrolled: what does not fit below the header.
pub open spec fn max_scroll(u: Ui) -> int {
    at_least_zero(u.text_scroll_total_height - (u.window_height - line_step(u)))
}

/// Whether the heights are small enough to add and subtract them.
pub open spec fn heights_ok(u: Ui) -> bool {
    &&& i32::MIN <= u.window_height - line_step(u)
    &&& i32::MIN <= u.text_scroll_total_height - (u.window_height - line_step(u)) <= i32::MAX
}

fn max_scroll_offset(r: &AppRenderer) -> (n: i32)
    requires
        heights_ok(r@),
    ensures
        n == max_scroll(r@),
{
    let viewport: i32 = r.window_height - line_height(r);
    let rest: i32 = r.text_scroll_total_height - viewport;
    if rest >= 0 {
        rest
    } else {
        0
    }
}

/// `u` with the text scrolled to `n`.
#[verifier::opaque]
pub open spec fn scrolled(u: Ui, n: int) -> Ui {
    Ui { text_scroll_offset: n as i32, needs_redraw: true, ..u }
}

pub(crate) fn scroll_text(r: &mut AppRenderer, n: i32)
    ensures
        final(r)@ == scrolled(old(r)@, n as int),
        app_state::tabs_ok(old(r)@) ==> app_state::tabs_ok(final(r)@),
{
    proof {
        reveal(scrolled);
    }
    r.text_scroll_offset = n;
    r.needs_redraw = true;
}

/// `u` with its place in the list moved to `i`, and the position with it in
/// the modes that search.
#[verifier::opaque]
pub open spec fn picked(u: Ui, i: int) -> Ui {
    if u.coordinate is Command || u.coordinate is Meta {
        moves::at_item(u, i as usize)
    } else {
        app_state::synced(moves::at_item(u, i as usize))
    }
}

fn pick(r: &mut AppRenderer, i: usize)
    ensures
        final(r)@ == picked(old(r)@, i as int),
        app_state::tabs_ok(old(r)@) ==> app_state::tabs_ok(final(r)@),
{
    proof {
        reveal(picked);
    }
    let follow = r.coordinate != Coordinate::Command && r.coordinate != Coordinate::Meta;
    moves::set_list_index(r, i);
    if follow {
        r.sync_current_id_from_list();
    }
}

/// `u` with the match `i` as the current one.
#[verifier::opaque]
pub open spec fn at_match(u: Ui, i: usize) -> Ui {
    Ui {
        scroll_search_current_match: i,
        scroll_search_snap: true,
        scroll_search_needs_position: false,
        ..u
    }
}

fn set_match(r: &mut AppRenderer, i: usize)
    ensures
        final(r)@ == at_match(old(r)@, i),
        app_state::tabs_ok(old(r)@) ==> app_state::tabs_ok(final(r)@),
{
    proof {
        reveal(at_match);
    }
    r.scroll_search_current_match = i;
    r.scroll_search_snap = true;
    r.scroll_search_needs_position = false;
}

/// `u` with the match before the current one as the current one; the last one
/// behind the first.
pub open spec fn previous_match(u: Ui) -> Ui {
    if u.scroll_search_match_count == 0 {
        moves::redrawn(u)
    } else if u.scroll_search_current_match > 0 {
        moves::redrawn(at_match(u, (u.scroll_search_current_match - 1) as usize))
    } else {
        moves::redrawn(at_match(u, (u.scroll_search_match_count - 1) as usize))
    }
}

/// `u` with the match behind the current one as the current one; the first one
/// behind the last.
pub open spec fn next_match(u: Ui) -> Ui {
    if u.scroll_search_match_count == 0 {
        moves::redrawn(u)
    } else if u.scroll_search_current_match < u.scroll_search_match_count - 1 {
        moves::redrawn(at_match(u, (u.scroll_search_current_match + 1) as usize))
    } else {
        moves::redrawn(at_match(u, 0))
    }
}

fn go_previous_match(r: &mut AppRenderer)
    ensures
        final(r)@ == previous_match(old(r)@),
        app_state::tabs_ok(old(r)@) ==> app_state::tabs_ok(final(r)@),
{
    if r.scroll_search_match_count > 0 {
        let i: usize = if r.scroll_search_current_match > 0 {
            r.scroll_search_current_match - 1
        } else {
            r.scroll_search_match_count - 1
        };
        set_match(r, i);
    }
    moves::redraw(r);
}

fn go_next_match(r: &mut AppRenderer)
    ensures
        final(r)@ == next_match(old(r)@),
        app_state::tabs_ok(old(r)@) ==> app_state::tabs_ok(final(r)@),
{
    if r.scroll_search_match_count > 0 {
        let i: usize = if r.scroll_search_current_match < r.scroll_search_match_count - 1 {
            r.scroll_search_current_match + 1
        } else {
            0
        };
        set_match(r, i);
    }
    moves::redraw(r);
}

/// `u` after the up key at `now`.
#[verifier::opaque]
pub open spec fn after_up(u: Ui, now: u64) -> Ui {
    match u.coordinate {
        Coordinate::ScrollSearch => previous_match(u),
        Coordinate::Scroll => scrolled(u, at_least_zero(u.text_scroll_offset - line_step(u))),
        Coordinate::SimpleSearch
        | Coordinate::Command
        | Coordinate::ExtendedSearch
        | Coordinate::Meta => {
            let v = moves::without_error(u);
            if u.list_index > 0 {
                moves::redrawn(picked(v, u.list_index - 1))
            } else {
                moves::redrawn(v)
            }
        },
        Coordinate::Insert => moves::redrawn(u),
        _ => moves::redrawn(state::updated(u, Task::ArrowUp, History::NoHistory, now)),
    }
}

/// Move up.
pub fn handle_up(r: &mut AppRenderer, now: u64)
    requires
        app_state::tabs_ok(old(r)@),
        old(r)@.coordinate is Scroll ==> i32::MIN <= old(r)@.text_scroll_offset - line_step(
            old(r)@,
        ),
    ensures
        final(r)@ == after_up(old(r)@, now),
        app_state::tabs_ok(final(r)@),
{
    proof {
        reveal(after_up);
    }
    match r.coordinate {
        Coordinate::ScrollSearch => go_previous_match(r),
        Coordinate::Scroll => {
            let to: i32 = r.text_scroll_offset - line_height(r);
            scroll_text(
                r,
                if to >= 0 {
                    to
                } else {
                    0
                },
            );
        },
        Coordinate::SimpleSearch
        | Coordinate::Command
        | Coordinate::ExtendedSearch
        | Coordinate::Meta => {
            let at: usize = r.list_index;
            moves::clear_error(r);
            if at > 0 {
                pick(r, at - 1);
            }
            moves::redraw(r);
        },
        Coordinate::Insert => moves::redraw(r),
        _ => {
            state::update_state(r, Task::ArrowUp, History::NoHistory, now);
            moves::redraw(r);
        },
    }
}

/// `u` after the down key at `now`.
#[verifier::opaque]
pub open spec fn after_down(u: Ui, now: u64) -> Ui {
    match u.coordinate {
        Coordinate::ScrollSearch => next_match(u),
        Coordinate::Scroll => scrolled(
            u,
            if u.text_scroll_offset + line_step(u) <= max_scroll(u) {
                u.text_scroll_offset + line_step(u)
            } else {
                max_scroll(u)
            },
        ),
        Coordinate::SimpleSearch
        | Coordinate::Command
        | Coordinate::ExtendedSearch
        | Coordinate::Meta => {
            let v = moves::without_error(u);
            if u.list_index + 1 < app_state::active_len(u) {
                moves::redrawn(picked(v, u.list_index + 1))
            } else {
                moves::redrawn(v)
            }
        },
        Coordinate::Insert => u,
        _ => moves::redrawn(state::updated(u, Task::ArrowDown, History::NoHistory, now)),
    }
}

/// Move down.
pub fn handle_down(r: &mut AppRenderer, now: u64)
    requires
        app_state::tabs_ok(old(r)@),
        old(r)@.coordinate is Scroll ==> heights_ok(old(r)@) && old(r)@.text_scroll_offset
            + line_step(old(r)@) <= i32::MAX,
    ensures
        final(r)@ == after_down(old(r)@, now),
        app_state::tabs_ok(final(r)@),
{
    proof {
        reveal(after_down);
    }
    match r.coordinate {
        Coordinate::ScrollSearch => go_next_match(r),
        Coordinate::Scroll => {
            let max: i32 = max_scroll_offset(r);
            let to: i32 = r.text_scroll_offset + line_height(r);
            scroll_text(
                r,
                if to <= max {
                    to
                } else {
                    max
                },
            );
        },
        Coordinate::SimpleSearch
        | Coordinate::Command
        | Coordinate::ExtendedSearch
        | Coordinate::Meta => {
            let at: usize = r.list_index;
            let len: usize = r.active_list_len();
            moves::clear_error(r);
            if len > 0 && at < len - 1 {
                pick(r, at + 1);
            }
            moves::redraw(r);
        },
        Coordinate::Insert => {},
        _ => {
            state::update_state(r, Task::ArrowDown, History::NoHistory, now);
            moves::redraw(r);
        },
    }
}

/// The number of lines that a page key moves by.
pub open spec fn page_size(u: Ui) -> int {
    let n = (u.window_height as int) / line_step(u) - 3;
    if u.window_height > 0 && n >= 1 {
        n
    } else {
        1
    }
}

/// The number of lines that a page key moves by.
pub(crate) fn page_lines(r: &AppRenderer) -> (n: i32)
    ensures
        n == page_size(r@),
        n >= 1,
{
    if r.window_height <= 0 {
        return 1;
    }
    let n: i32 = (r.window_height as u32 / line_height(r) as u32) as i32 - 3;
    if n >= 1 {
        n
    } else {
        1
    }
}

/// `u` moved to the element `i` of its layer, with the list scrolled there.
#[verifier::opaque]
pub open spec fn paged(u: Ui, i: int, to_end: bool) -> Ui {
    let v = list::listed(moves::placed_last(u, i as usize));
    moves::list_scrolled(
        v,
        if to_end {
            AT_END
        } else {
            v.list_index as i32
        },
    )
}

fn page_to(r: &mut AppRenderer, i: usize, to_end: bool)
    requires
        app_state::tabs_ok(old(r)@),
    ensures
        final(r)@ == paged(old(r)@, i as int, to_end),
        app_state::tabs_ok(final(r)@),
{
    proof {
        reveal(paged);
    }
    moves::set_last(r, i);
    moves::relist(r);
    let n: i32 = if to_end {
        AT_END
    } else {
        #[verifier::truncate]
        (r.list_index as i32)
    };
    moves::set_scroll(r, n);
}

/// The element `to` of the layer of the position, or its last one.
pub open spec fn page_target(u: Ui, to: int) -> Option<int> {
    match ffon::layer_at(u.ffon, u.current_id) {
        Some(layer) => Some(
            if to <= at_least_zero(layer.len() - 1) {
                to
            } else {
                at_least_zero(layer.len() - 1)
            },
        ),
        None => None,
    }
}

/// `u` moved to the element `to` of its layer, or to the last one.
#[verifier::opaque]
pub open spec fn layer_paged(u: Ui, to: int, to_end: bool) -> Ui {
    match page_target(u, to) {
        Some(i) => moves::redrawn(paged(u, i, to_end)),
        None => moves::redrawn(u),
    }
}

fn find_page_target(r: &AppRenderer, to: usize) -> (res: Option<usize>)
    ensures
        match res {
            Some(i) => page_target(r@, to as int) == Some(i as int),
            None => page_target(r@, to as int) is None,
        },
{
    match layer_length(r) {
        Some(n) => {
            let max: usize = if n > 0 {
                n - 1
            } else {
                0
            };
            Some(
                if to <= max {
                    to
                } else {
                    max
                },
            )
        },
        None => None,
    }
}

fn page_layer(r: &mut AppRenderer, to: usize, to_end: bool)
    requires
        app_state::tabs_ok(old(r)@),
    ensures
        final(r)@ == layer_paged(old(r)@, to as int, to_end),
        app_state::tabs_ok(final(r)@),
{
    proof {
        reveal(layer_paged);
    }
    if let Some(i) = find_page_target(r, to) {
        page_to(r, i, to_end);
    }
    moves::redraw(r);
}

/// `u` with its place in the list moved up by `page`.
pub open spec fn list_paged_up(u: Ui, page: int) -> Ui {
    let i = at_least_zero(u.list_index - page) as usize;
    moves::redrawn(moves::list_scrolled(moves::at_item(moves::without_error(u), i), i as i32))
}

/// `u` with its place in the list moved down by `page`.
pub open spec fn list_paged_down(u: Ui, page: int) -> Ui {
    let n = app_state::active_len(u);
    let v = moves::without_error(u);
    if n == 0 {
        moves::redrawn(v)
    } else if u.list_index + page <= n - 1 {
        moves::redrawn(
            moves::list_scrolled(moves::at_item(v, (u.list_index + page) as usize), AT_END),
        )
    } else {
        moves::redrawn(moves::list_scrolled(moves::at_item(v, (n - 1) as usize), AT_END))
    }
}

/// `u` with the results of a search in the text scrolled to `n`.
#[verifier::opaque]
pub open spec fn results_scrolled(u: Ui, n: int) -> Ui {
    Ui { input_search_scroll_offset: n as i32, needs_redraw: true, ..u }
}

/// `u` after the page up key.
#[verifier::opaque]
pub open spec fn after_page_up(u: Ui) -> Ui {
    match u.coordinate {
        Coordinate::Insert => u,
        Coordinate::InputSearch => results_scrolled(
            u,
            at_least_zero(u.input_search_scroll_offset - page_size(u)),
        ),
        Coordinate::Scroll | Coordinate::ScrollSearch => scrolled(
            u,
            at_least_zero(u.text_scroll_offset - (u.window_height - line_step(u))),
        ),
        Coordinate::SimpleSearch
        | Coordinate::Command
        | Coordinate::ExtendedSearch => list_paged_up(u, page_size(u)),
        Coordinate::General => layer_paged(
            u,
            at_least_zero(ffon::last_or_zero(u.current_id) - page_size(u)),
            false,
        ),
        _ => moves::redrawn(u),
    }
}

fn set_input_search_scroll(r: &mut AppRenderer, n: i32)
    ensures
        final(r)@ == results_scrolled(old(r)@, n as int),
        app_state::tabs_ok(old(r)@) ==> app_state::tabs_ok(final(r)@),
{
    proof {
        reveal(results_scrolled);
    }
    r.input_search_scroll_offset = n;
    r.needs_redraw = true;
}

fn page_list_up(r: &mut AppRenderer, page: i32)
    requires
        page >= 0,
    ensures
        final(r)@ == list_paged_up(old(r)@, page as int),
        app_state::tabs_ok(old(r)@) ==> app_state::tabs_ok(final(r)@),
{
    let page: usize = page as usize;
    let i: usize = if r.list_index >= page {
        r.list_index - page
    } else {
        0
    };
    moves::clear_error(r);
    moves::set_list_index(r, i);
    moves::set_scroll(r, #[verifier::truncate] (i as i32));
    moves::redraw(r);
}

/// Move a page up.
pub fn handle_page_up(r: &mut AppRenderer)
    requires
        app_state::tabs_ok(old(r)@),
        old(r)@.coordinate is InputSearch ==> i32::MIN <= old(r)@.input_search_scroll_offset
            - page_size(old(r)@),
        old(r)@.coordinate is Scroll || old(r)@.coordinate is ScrollSearch ==> {
            &&& i32::MIN <= old(r)@.window_height - line_step(old(r)@)
            &&& i32::MIN <= old(r)@.text_scroll_offset - (old(r)@.window_height - line_step(
                old(r)@,
            )) <= i32::MAX
        },
    ensures
        final(r)@ == after_page_up(old(r)@),
        app_state::tabs_ok(final(r)@),
{
    proof {
        reveal(after_page_up);
    }
    let page: i32 = page_lines(r);
    match r.coordinate {
        Coordinate::Insert => {},
        Coordinate::InputSearch => {
            let to: i32 = r.input_search_scroll_offset - page;
            set_input_search_scroll(
                r,
                if to >= 0 {
                    to
                } else {
                    0
                },
            );
        },
        Coordinate::Scroll | Coordinate::ScrollSearch => {
            let viewport: i32 = r.window_height - line_height(r);
            let to: i32 = r.text_scroll_offset - viewport;
            scroll_text(
                r,
                if to >= 0 {
                    to
                } else {
                    0
                },
            );
        },
        Coordinate::SimpleSearch | Coordinate::Command | Coordinate::ExtendedSearch => {
            page_list_up(r, page);
        },
        Coordinate::General => {
            let at: usize = r.current_id.last().unwrap_or(0);
            let to: usize = if at >= page as usize {
                at - page as usize
            } else {
                0
            };
            page_layer(r, to, false);
        },
        _ => moves::redraw(r),
    }
}

pub(crate) fn layer_length(r: &AppRenderer) -> (n: Option<usize>)
    ensures
        match n {
            Some(k) => ffon::layer_at(r@.ffon, r@.current_id) matches Some(layer) && layer.len()
                == k,
            None => ffon::layer_at(r@.ffon, r@.current_id) is None,
        },
{
    match ffon::get_ffon_at_id(&r.ffon, &r.current_id) {
        Some(layer) => Some(layer.len()),
        None => None,
    }
}

/// `u` after the page down key.
#[verifier::opaque]
pub open spec fn after_page_down(u: Ui) -> Ui {
    match u.coordinate {
        Coordinate::Insert => u,
        Coordinate::InputSearch => results_scrolled(
            u,
            u.input_search_scroll_offset + page_size(u),
        ),
        Coordinate::Scroll | Coordinate::ScrollSearch => {
            let to = u.text_scroll_offset + (u.window_height - line_step(u));
            scrolled(
                u,
                if to <= max_scroll(u) {
                    to
                } else {
                    max_scroll(u)
                },
            )
        },
        Coordinate::SimpleSearch
        | Coordinate::Command
        | Coordinate::ExtendedSearch => list_paged_down(u, page_size(u)),
        Coordinate::General => layer_paged(
            u,
            ffon::last_or_zero(u.current_id) + page_size(u),
            true,
        ),
        _ => moves::redrawn(u),
    }
}

fn page_list_down(r: &mut AppRenderer, page: i32)
    requires
        page >= 0,
        old(r)@.list_index + page <= usize::MAX,
    ensures
        final(r)@ == list_paged_down(old(r)@, page as int),
        app_state::tabs_ok(old(r)@) ==> app_state::tabs_ok(final(r)@),
{
    let count: usize = r.active_list_len();
    let to: usize = r.list_index + page as usize;
    moves::clear_error(r);
    if count > 0 {
        moves::set_list_index(
            r,
            if to <= count - 1 {
                to
            } else {
                count - 1
            },
        );
        moves::set_scroll(r, AT_END);
    }
    moves::redraw(r);
}

/// Move a page down.
pub fn handle_page_down(r: &mut AppRenderer)
    requires
        app_state::tabs_ok(old(r)@),
        old(r)@.coordinate is InputSearch ==> old(r)@.input_search_scroll_offset + page_size(
            old(r)@,
        ) <= i32::MAX,
        old(r)@.coordinate is Scroll || old(r)@.coordinate is ScrollSearch ==> {
            &&& heights_ok(old(r)@)
            &&& i32::MIN <= old(r)@.text_scroll_offset + (old(r)@.window_height - line_step(
                old(r)@,
            )) <= i32::MAX
        },
        old(r)@.list_index + page_size(old(r)@) <= usize::MAX,
        ffon::last_or_zero(old(r)@.current_id) + page_size(old(r)@) <= usize::MAX,
    ensures
        final(r)@ == after_page_down(old(r)@),
        app_state::tabs_ok(final(r)@),
{
    proof {
        reveal(after_page_down);
    }
    let page: i32 = page_lines(r);
    match r.coordinate {
        Coordinate::Insert => {},
        Coordinate::InputSearch => {
            let to: i32 = r.input_search_scroll_offset + page;
            set_input_search_scroll(r, to);
        },
        Coordinate::Scroll | Coordinate::ScrollSearch => {
            let viewport: i32 = r.window_height - line_height(r);
            let to: i32 = r.text_scroll_offset + viewport;
            let max: i32 = max_scroll_offset(r);
            scroll_text(
                r,
                if to <= max {
                    to
                } else {
                    max
                },
            );
        },
        Coordinate::SimpleSearch | Coordinate::Command | Coordinate::ExtendedSearch => {
            page_list_down(r, page);
        },
        Coordinate::General => {
            let to: usize = r.current_id.last().unwrap_or(0) + page as usize;
            page_layer(r, to, true);
        },
        _ => moves::redraw(r),
    }
}

/// `u` at the item `i` of its list, scrolled to `n`.
pub open spec fn jumped(u: Ui, i: usize, n: i32) -> Ui {
    moves::redrawn(app_state::synced(moves::list_scrolled(moves::at_item(u, i), n)))
}

fn jump(r: &mut AppRenderer, i: usize, n: i32)
    ensures
        final(r)@ == jumped(old(r)@, i, n),
        app_state::tabs_ok(old(r)@) ==> app_state::tabs_ok(final(r)@),
{
    moves::set_list_index(r, i);
    moves::set_scroll(r, n);
    r.sync_current_id_from_list();
    moves::redraw(r);
}

/// `u` with the first item selected.
pub open spec fn at_top(u: Ui) -> Ui {
    if app_state::active_len(u) > 0 {
        jumped(u, 0, 0)
    } else {
        moves::redrawn(u)
    }
}

/// Go to the first item.
pub fn handle_ctrl_home(r: &mut AppRenderer)
    ensures
        final(r)@ == at_top(old(r)@),
        app_state::tabs_ok(old(r)@) ==> app_state::tabs_ok(final(r)@),
{
    if r.active_list_len() > 0 {
        jump(r, 0, 0);
    } else {
        moves::redraw(r);
    }
}

/// `u` with the last item selected.
pub open spec fn at_bottom(u: Ui) -> Ui {
    if app_state::active_len(u) > 0 {
        jumped(u, (app_state::active_len(u) - 1) as usize, AT_END)
    } else {
        moves::redrawn(u)
    }
}

/// Go to the last item.
pub fn handle_ctrl_end(r: &mut AppRenderer)
    ensures
        final(r)@ == at_bottom(old(r)@),
        app_state::tabs_ok(old(r)@) ==> app_state::tabs_ok(final(r)@),
{
    let len: usize = r.active_list_len();
    if len > 0 {
        jump(r, len - 1, AT_END);
    } else {
        moves::redraw(r);
    }
}

/// `u` after the end key at `now`.
#[verifier::opaque]
pub open spec fn after_end(u: Ui, now: u64) -> Ui {
    match u.coordinate {
        Coordinate::Scroll => scrolled(u, max_scroll(u)),
        Coordinate::General => match ffon::layer_at(u.ffon, u.current_id) {
            Some(layer) => moves::redrawn(paged(u, at_least_zero(layer.len() - 1), true)),
            None => moves::redrawn(u),
        },
        _ => typing::moved_to(
            u,
            editing::line_end_at(typing::text_here(u), u.cursor_position as int) as int,
            now,
        ),
    }
}

/// Go to the end of the text, of the layer or of the line.
pub fn handle_end(r: &mut AppRenderer, now: u64)
    requires
        app_state::tabs_ok(old(r)@),
        old(r)@.coordinate is Scroll ==> heights_ok(old(r)@),
    ensures
        final(r)@ == after_end(old(r)@, now),
        app_state::tabs_ok(old(r)@) ==> app_state::tabs_ok(final(r)@),
{
    proof {
        reveal(after_end);
    }
    match r.coordinate {
        Coordinate::Scroll => {
            let max: i32 = max_scroll_offset(r);
            scroll_text(r, max);
        },
        Coordinate::General => {
            if let Some(n) = layer_length(r) {
                page_to(
                    r,
                    if n > 0 {
                        n - 1
                    } else {
                        0
                    },
                    true,
                );
            }
            moves::redraw(r);
        },
        _ => typing::line_end(r, now),
    }
}

/// The buffer for editing an element: what stands between its tags, and what
/// stands before and behind them.
pub open spec fn input_parts(n: Option<ffon::Node>) -> (Seq<char>, Seq<char>, Seq<char>) {
    match n {
        Some(e) => match editable_text(ffon::node_text(e)) {
            Some(content) => {
                let key = ffon::node_text(e);
                if markup::is_input_all(key) {
                    around(key, content, "<input-all>"@, "</input-all>"@)
                } else {
                    around(key, content, "<input>"@, "</input>"@)
                }
            },
            None => match e {
                ffon::Node::Str(s) => (s, Seq::empty(), Seq::empty()),
                ffon::Node::Obj { key, .. } => (key + ":"@, Seq::empty(), Seq::empty()),
            },
        },
        None => (Seq::empty(), Seq::empty(), Seq::empty()),
    }
}

/// The part of a text between its tags that can be edited.
pub open spec fn editable_text(key: Seq<char>) -> Option<Seq<char>> {
    if markup::is_input_all(key) {
        markup::between(key, "<input-all>"@, "</input-all>"@)
    } else if markup::is_input(key) {
        markup::input_text(key)
    } else {
        None
    }
}

/// `content`, and what stands in `key` before `open` and behind `close`.
pub open spec fn around(
    key: Seq<char>,
    content: Seq<char>,
    open: Seq<char>,
    close: Seq<char>,
) -> (Seq<char>, Seq<char>, Seq<char>) {
    match markup::find_from(key, open, 0) {
        Some(i) => match markup::find_from(key, close, i + open.len()) {
            Some(j) => (content, key.take(i), key.skip(j + close.len())),
            None => (content, key.take(i), Seq::empty()),
        },
        None => (content, Seq::empty(), Seq::empty()),
    }
}

/// The part of a text that can be edited.
pub(crate) fn find_editable(key: &str) -> (res: Option<String>)
    ensures
        text::opt_text(res) == editable_text(key@),
{
    if markup::has_input_all(key) {
        markup::extract_input_all(key)
    } else if sicompass_sdk::tags::has_input(key) {
        sicompass_sdk::tags::extract_input(key)
    } else {
        None
    }
}

fn find_around(key: &str, content: String, open: &str, close: &str) -> (res: (
    String,
    String,
    String,
))
    ensures
        (res.0@, res.1@, res.2@) == around(key@, content@, open@, close@),
{
    let chars = text::to_chars(key);
    let open_chars = text::to_chars(open);
    let close_chars = text::to_chars(close);
    proof {
        reveal_strlit("");
        assert(""@ =~= Seq::<char>::empty());
        markup::lemma_find_from(key@, open@, 0);
    }
    match markup::find(&chars, &open_chars, 0) {
        Some(i) => {
            let prefix = text::substring(key, 0, i);
            proof {
                assert(prefix@ =~= key@.take(i as int));
                assert(i + open@.len() <= chars.len());
                markup::lemma_find_from(key@, close@, i + open@.len());
            }
            match markup::find(&chars, &close_chars, i + open_chars.len()) {
                Some(j) => {
                    assert(j + close@.len() <= chars.len());
                    let suffix = text::substring(key, j + close_chars.len(), chars.len());
                    assert(suffix@ =~= key@.skip(j + close@.len()));
                    (content, prefix, suffix)
                },
                None => (content, prefix, "".to_owned()),
            }
        },
        None => (content, "".to_owned(), "".to_owned()),
    }
}

fn find_input_parts(elem: &Option<FfonElement>) -> (res: (String, String, String))
    ensures
        (res.0@, res.1@, res.2@) == input_parts(ffon::opt_node(*elem)),
{
    proof {
        reveal_strlit("");
        assert(""@ =~= Seq::<char>::empty());
    }
    match elem {
        Some(e) => {
            let key = e.text();
            match find_editable(key) {
                Some(content) => if markup::has_input_all(key) {
                    find_around(key, content, "<input-all>", "</input-all>")
                } else {
                    find_around(key, content, "<input>", "</input>")
                },
                None => match e {
                    FfonElement::Str(s) => (s.clone(), "".to_owned(), "".to_owned()),
                    FfonElement::Obj(o) => (
                        text::concat(o.key.as_str(), ":"),
                        "".to_owned(),
                        "".to_owned(),
                    ),
                },
            }
        },
        None => ("".to_owned(), "".to_owned(), "".to_owned()),
    }
}

/// `u` with the buffer filled from the element at its position.
pub open spec fn populated(u: Ui) -> Ui {
    moves::with_parts(u, input_parts(moves::focused_node(u)))
}

/// Fill the buffer from the element at the position.
pub(crate) fn populate_input_buffer(r: &mut AppRenderer)
    ensures
        final(r)@ == populated(old(r)@),
        app_state::tabs_ok(old(r)@) ==> app_state::tabs_ok(final(r)@),
{
    let (buffer, prefix, suffix) = find_input_parts(&moves::focused(r));
    moves::set_parts(r, buffer, prefix, suffix);
}

/// `u` after editing of the element starts at `now`, with the cursor before
/// or behind its text.
#[verifier::opaque]
pub open spec fn editing_started(u: Ui, at_end: bool, now: u64) -> Ui {
    if u.coordinate is General {
        let v = populated(moves::entered(u, Coordinate::Insert));
        let pos = if at_end {
            offsets::byte_len(v.input_buffer) as usize
        } else {
            0
        };
        moves::touched(moves::unselected(moves::with_cursor(v, pos)), now)
    } else {
        u
    }
}

fn start_editing(r: &mut AppRenderer, at_end: bool, now: u64)
    ensures
        final(r)@ == editing_started(old(r)@, at_end, now),
        app_state::tabs_ok(old(r)@) ==> app_state::tabs_ok(final(r)@),
{
    proof {
        reveal(editing_started);
    }
    if !r.coordinate.is_general() {
        return;
    }
    moves::enter_mode(r, Coordinate::Insert);
    populate_input_buffer(r);
    let pos: usize = if at_end {
        offsets::byte_length(r.input_buffer.as_str())
    } else {
        0
    };
    moves::set_cursor(r, pos);
    moves::clear_selection(r);
    moves::touch(r, now);
}

/// Edit the element, with the cursor before its text.
pub fn handle_i(r: &mut AppRenderer, now: u64)
    ensures
        final(r)@ == editing_started(old(r)@, false, now),
        app_state::tabs_ok(old(r)@) ==> app_state::tabs_ok(final(r)@),
{
    start_editing(r, false, now);
}

/// Edit the element, with the cursor behind its text.
pub fn handle_a(r: &mut AppRenderer, now: u64)
    ensures
        final(r)@ == editing_started(old(r)@, true, now),
        app_state::tabs_ok(old(r)@) ==> app_state::tabs_ok(final(r)@),
{
    start_editing(r, true, now);
}

/// Whether the position is in the mode and the place of an operator.
pub open spec fn operating(u: Ui) -> bool {
    u.coordinate is General && !state::in_editor(u)
}

/// Whether edits at the position work on the tree.
pub(crate) fn is_in_editor(r: &AppRenderer) -> (b: bool)
    ensures
        b == state::in_editor(r@),
{
    match list::get_active_provider_ref(r) {
        Some(p) => p.has_editor_semantics,
        None => false,
    }
}

pub(crate) fn is_operating(r: &AppRenderer) -> (b: bool)
    ensures
        b == operating(r@),
{
    r.coordinate.is_general() && !is_in_editor(r)
}

/// `u` with the text to be scrolled from where its selected item is.
#[verifier::opaque]
pub open spec fn scroll_unset(u: Ui, n: i32) -> Ui {
    Ui { text_scroll_offset: n, text_scroll_total_height: 0, ..u }
}

fn unset_scroll(r: &mut AppRenderer, n: i32)
    ensures
        final(r)@ == scroll_unset(old(r)@, n),
        app_state::tabs_ok(old(r)@) ==> app_state::tabs_ok(final(r)@),
{
    proof {
        reveal(scroll_unset);
    }
    r.text_scroll_offset = n;
    r.text_scroll_total_height = 0;
}

/// `u` after the key that starts scrolling.
pub open spec fn scrolling_started(u: Ui) -> Ui {
    if operating(u) {
        moves::redrawn(
            scroll_unset(moves::entered(u, Coordinate::Scroll), AT_END),
        )
    } else {
        u
    }
}

/// Scroll the text.
pub fn handle_s(r: &mut AppRenderer)
    ensures
        final(r)@ == scrolling_started(old(r)@),
        app_state::tabs_ok(old(r)@) ==> app_state::tabs_ok(final(r)@),
{
    if is_operating(r) {
        moves::enter_mode(r, Coordinate::Scroll);
        unset_scroll(r, AT_END);
        moves::redraw(r);
    }
}

/// `u` after the key that shows the hints.
pub open spec fn hints_opened(u: Ui) -> Ui {
    if operating(u) {
        moves::redrawn(
            list::listed(moves::at_item(moves::entered(u, Coordinate::Meta), 0)),
        )
    } else {
        u
    }
}

/// Show the hints on shortcuts.
pub fn handle_meta(r: &mut AppRenderer)
    requires
        app_state::tabs_ok(old(r)@),
    ensures
        final(r)@ == hints_opened(old(r)@),
        app_state::tabs_ok(old(r)@) ==> app_state::tabs_ok(final(r)@),
{
    if is_operating(r) {
        moves::enter_mode(r, Coordinate::Meta);
        moves::set_list_index(r, 0);
        moves::relist(r);
        moves::redraw(r);
    }
}

/// `u` after the key that starts a search.
pub open spec fn search_started(u: Ui) -> Ui {
    if u.coordinate is General || u.coordinate is Insert
        && !state::in_editor(u) {
        moves::redrawn(
            list::listed(
                moves::with_cursor(
                    moves::without_search(
                        moves::entered(u, Coordinate::SimpleSearch),
                    ),
                    0,
                ),
            ),
        )
    } else {
        u
    }
}

/// Search the list.
pub fn handle_tab(r: &mut AppRenderer)
    requires
        app_state::tabs_ok(old(r)@),
    ensures
        final(r)@ == search_started(old(r)@),
        app_state::tabs_ok(old(r)@) ==> app_state::tabs_ok(final(r)@),
{
    if r.coordinate.is_general() || r.coordinate == Coordinate::Insert && !is_in_editor(r) {
        moves::enter_mode(r, Coordinate::SimpleSearch);
        moves::clear_search(r);
        moves::set_cursor(r, 0);
        moves::relist(r);
        moves::redraw(r);
    }
}

/// `u` with `name` as the chosen command.
#[verifier::opaque]
pub open spec fn with_command(u: Ui, name: Seq<char>) -> Ui {
    Ui { provider_command_name: name, ..u }
}

pub(crate) fn set_command(r: &mut AppRenderer, name: String)
    ensures
        final(r)@ == with_command(old(r)@, name@),
        app_state::tabs_ok(old(r)@) ==> app_state::tabs_ok(final(r)@),
{
    proof {
        reveal(with_command);
    }
    r.provider_command_name = name;
}

/// `u` after the key that asks for a command.
pub open spec fn command_started(u: Ui) -> Ui {
    if u.current_id.len() <= 1 {
        u
    } else {
        moves::redrawn(
            list::listed(
                moves::without_input(
                    with_command(
                        moves::in_phase(
                            moves::entered(u, Coordinate::Command),
                            CommandPhase::NoCommand,
                        ),
                        Seq::empty(),
                    ),
                ),
            ),
        )
    }
}

/// Choose a command.
pub fn handle_colon(r: &mut AppRenderer)
    requires
        app_state::tabs_ok(old(r)@),
    ensures
        final(r)@ == command_started(old(r)@),
        app_state::tabs_ok(old(r)@) ==> app_state::tabs_ok(final(r)@),
{
    if r.current_id.depth() <= 1 {
        return;
    }
    moves::enter_mode(r, Coordinate::Command);
    moves::set_phase(r, CommandPhase::NoCommand);
    proof {
        reveal_strlit("");
        assert(""@ =~= Seq::<char>::empty());
    }
    set_command(r, "".to_owned());
    moves::clear_input(r);
    moves::relist(r);
    moves::redraw(r);
}

/// Do `task` in the tree.
fn do_and_redraw(r: &mut AppRenderer, task: Task, history: History, now: u64)
    requires
        app_state::tabs_ok(old(r)@),
        state::can_do(old(r)@, task),
    ensures
        final(r)@ == moves::redrawn(state::updated(old(r)@, task, history, now)),
        app_state::tabs_ok(final(r)@),
{
    state::update_state(r, task, history, now);
    moves::redraw(r);
}

/// `u` after an element is put behind the position at `now`.
pub open spec fn after_append(u: Ui, now: u64) -> Ui {
    moves::redrawn(
        state::updated(u, Task::Append, History::NoHistory, now),
    )
}

/// Add an empty element behind the current one.
pub fn handle_append(r: &mut AppRenderer, now: u64)
    requires
        app_state::tabs_ok(old(r)@),
        ffon::last_or_zero(old(r)@.current_id) < usize::MAX,
    ensures
        final(r)@ == after_append(old(r)@, now),
        app_state::tabs_ok(final(r)@),
{
    do_and_redraw(r, Task::Append, History::NoHistory, now);
}

/// `u` after an element is put before the position at `now`.
pub open spec fn after_insert(u: Ui, now: u64) -> Ui {
    moves::redrawn(
        state::updated(u, Task::Insert, History::NoHistory, now),
    )
}

/// Add an empty element before the current one.
pub fn handle_insert(r: &mut AppRenderer, now: u64)
    requires
        app_state::tabs_ok(old(r)@),
    ensures
        final(r)@ == after_insert(old(r)@, now),
        app_state::tabs_ok(final(r)@),
{
    do_and_redraw(r, Task::Insert, History::NoHistory, now);
}

/// `u` after the element at the position is deleted at `now`.
pub open spec fn after_delete(u: Ui, history: History, now: u64) -> Ui {
    moves::redrawn(state::updated(u, Task::Delete, history, now))
}

/// Delete the current element.
pub fn handle_delete(r: &mut AppRenderer, history: History, now: u64)
    requires
        app_state::tabs_ok(old(r)@),
    ensures
        final(r)@ == after_delete(old(r)@, history, now),
        app_state::tabs_ok(final(r)@),
{
    do_and_redraw(r, Task::Delete, history, now);
}

/// `u` after a line break is typed at `now`.
pub open spec fn after_newline(u: Ui, now: u64) -> Ui {
    if u.coordinate is Insert {
        typing::after_input(u, "\n"@, now)
    } else {
        u
    }
}

/// Start a new line while an element is edited.
pub fn handle_ctrl_enter(r: &mut AppRenderer, now: u64)
    requires
        app_state::tabs_ok(old(r)@),
        typing::typing_ok(old(r)@),
    ensures
        final(r)@ == after_newline(old(r)@, now),
        app_state::tabs_ok(final(r)@),
{
    if r.coordinate == Coordinate::Insert {
        typing::handle_input(r, "\n", now);
    }
}

/// `u` back in the mode before with its list built anew and shown from the
/// start.
pub open spec fn list_left(u: Ui) -> Ui {
    moves::list_scrolled(moves::at_position(list::listed(u)), 0)
}

pub(crate) fn leave_list(r: &mut AppRenderer)
    requires
        app_state::tabs_ok(old(r)@),
    ensures
        final(r)@ == list_left(old(r)@),
        app_state::tabs_ok(final(r)@),
{
    moves::relist(r);
    moves::point_at_position(r);
    moves::set_scroll(r, 0);
}

/// `u` without matches in the text.
#[verifier::opaque]
pub open spec fn without_matches(u: Ui, needs_position: bool) -> Ui {
    Ui {
        scroll_search_match_count: 0,
        scroll_search_current_match: 0,
        scroll_search_needs_position: needs_position,
        ..u
    }
}

fn clear_matches(r: &mut AppRenderer, needs_position: bool)
    ensures
        final(r)@ == without_matches(old(r)@, needs_position),
        app_state::tabs_ok(old(r)@) ==> app_state::tabs_ok(final(r)@),
{
    proof {
        reveal(without_matches);
    }
    r.scroll_search_match_count = 0;
    r.scroll_search_current_match = 0;
    r.scroll_search_needs_position = needs_position;
}

/// `u`, with no text selected, after the escape key ends editing.
pub open spec fn edit_ended(u: Ui, in_editor: bool, now: u64) -> Ui {
    if in_editor {
        moves::in_mode(
            state::updated(moves::unselected(u), Task::Input, History::NoHistory, now),
            Coordinate::General,
        )
    } else {
        moves::in_mode(moves::unselected(u), Coordinate::General)
    }
}

fn end_edit(r: &mut AppRenderer, in_editor: bool, now: u64)
    requires
        app_state::tabs_ok(old(r)@),
    ensures
        final(r)@ == edit_ended(old(r)@, in_editor, now),
        app_state::tabs_ok(final(r)@),
{
    moves::clear_selection(r);
    if in_editor {
        state::update_state(r, Task::Input, History::NoHistory, now);
    }
    moves::set_mode(r, Coordinate::General);
}

/// `u` after the escape key at `now`.
#[verifier::opaque]
pub open spec fn escaped(u: Ui, now: u64) -> Ui {
    let v = moves::unselected(u);
    match u.coordinate {
        Coordinate::Insert => moves::touched(edit_ended(u, state::in_editor(u), now), now),
        Coordinate::Command => moves::touched(
            list_left(moves::without_input(moves::left_mode(v))),
            now,
        ),
        Coordinate::SimpleSearch => moves::touched(
            list_left(moves::without_search(moves::left_mode(v))),
            now,
        ),
        Coordinate::ExtendedSearch => moves::redrawn(
            list_left(moves::without_input(moves::left_mode(v))),
        ),
        Coordinate::Meta => moves::touched(list_left(moves::left_mode(v)), now),
        Coordinate::Dashboard => moves::touched(moves::left_mode(v), now),
        Coordinate::ScrollSearch => moves::touched(
            without_matches(
                moves::in_mode(v, Coordinate::Scroll),
                u.scroll_search_needs_position,
            ),
            now,
        ),
        Coordinate::Scroll => moves::touched(scroll_unset(moves::left_mode(v), 0), now),
        _ => moves::touched(moves::in_mode(v, Coordinate::General), now),
    }
}

/// Go back to the mode before.
pub fn handle_escape(r: &mut AppRenderer, now: u64)
    requires
        app_state::tabs_ok(old(r)@),
    ensures
        final(r)@ == escaped(old(r)@, now),
        app_state::tabs_ok(final(r)@),
{
    proof {
        reveal(escaped);
    }
    match r.coordinate {
        Coordinate::Insert => {
            let in_editor = is_in_editor(r);
            end_edit(r, in_editor, now);
            moves::touch(r, now);
        },
        Coordinate::Command => {
            moves::clear_selection(r);
            moves::leave_mode(r);
            moves::clear_input(r);
            leave_list(r);
            moves::touch(r, now);
        },
        Coordinate::SimpleSearch => {
            moves::clear_selection(r);
            moves::leave_mode(r);
            moves::clear_search(r);
            leave_list(r);
            moves::touch(r, now);
        },
        Coordinate::ExtendedSearch => {
            moves::clear_selection(r);
            moves::leave_mode(r);
            moves::clear_input(r);
            leave_list(r);
            moves::redraw(r);
        },
        Coordinate::Meta => {
            moves::clear_selection(r);
            moves::leave_mode(r);
            leave_list(r);
            moves::touch(r, now);
        },
        Coordinate::Dashboard => {
            moves::clear_selection(r);
            moves::leave_mode(r);
            moves::touch(r, now);
        },
        Coordinate::ScrollSearch => {
            let needs_position = r.scroll_search_needs_position;
            moves::clear_selection(r);
            moves::set_mode(r, Coordinate::Scroll);
            clear_matches(r, needs_position);
            moves::touch(r, now);
        },
        Coordinate::Scroll => {
            moves::clear_selection(r);
            moves::leave_mode(r);
            unset_scroll(r, 0);
            moves::touch(r, now);
        },
        _ => {
            moves::clear_selection(r);
            moves::set_mode(r, Coordinate::General);
            moves::touch(r, now);
        },
    }
}

/// Whether a key pressed at `now` is the second tap of a double tap.
pub open spec fn double_tap(u: Ui, now: u64) -> bool {
    now - u.last_keypress_time <= DELTA_MS
}

pub(crate) fn is_double_tap(r: &AppRenderer, now: u64) -> (b: bool)
    ensures
        b == double_tap(r@, now),
{
    now <= r.last_keypress_time || now - r.last_keypress_time <= DELTA_MS
}

/// The root that a position is in.
pub open spec fn root_of(id: Seq<usize>) -> Seq<usize> {
    if id.len() > 1 {
        id.take(1)
    } else {
        id
    }
}

fn root_position(id: &IdArray) -> (res: IdArray)
    ensures
        res@ == root_of(id@),
{
    if id.depth() > 1 {
        let root = IdArray::single(id.ids[0]);
        assert(root@ =~= id@.take(1));
        root
    } else {
        id.clone()
    }
}

/// `u` with an empty search of everything below its position.
pub open spec fn search_opened(u: Ui) -> Ui {
    list::search_listed(
        moves::list_scrolled(moves::unselected(moves::without_input(u)), 0),
    )
}

fn open_search(r: &mut AppRenderer)
    requires
        app_state::tabs_ok(old(r)@),
    ensures
        final(r)@ == search_opened(old(r)@),
        app_state::tabs_ok(final(r)@),
{
    moves::clear_input(r);
    moves::clear_selection(r);
    moves::set_scroll(r, 0);
    moves::relist_search(r);
}

/// `u` after the find key at `now`.
#[verifier::opaque]
pub open spec fn after_find(u: Ui, now: u64) -> Ui {
    match u.coordinate {
        Coordinate::Scroll => moves::redrawn(
            without_matches(
                moves::unselected(
                    moves::without_input(moves::in_mode(u, Coordinate::ScrollSearch)),
                ),
                true,
            ),
        ),
        Coordinate::ScrollSearch | Coordinate::InputSearch | Coordinate::Command => u,
        Coordinate::Insert => moves::redrawn(
            moves::unselected(moves::without_input(moves::entered(u, Coordinate::InputSearch))),
        ),
        Coordinate::ExtendedSearch => if double_tap(u, now) {
            moves::redrawn(
                moves::tapped(
                    moves::at_item(search_opened(moves::placed(u, root_of(u.current_id))), 0),
                    now,
                ),
            )
        } else {
            moves::redrawn(moves::tapped(u, now))
        },
        Coordinate::SimpleSearch => moves::redrawn(
            moves::tapped(
                moves::at_position(search_opened(moves::in_mode(u, Coordinate::ExtendedSearch))),
                now,
            ),
        ),
        _ => moves::redrawn(
            moves::tapped(
                moves::at_position(search_opened(moves::entered(u, Coordinate::ExtendedSearch))),
                now,
            ),
        ),
    }
}

/// Search: the text that is scrolled or edited, or everything below the
/// position. A second tap searches from the root.
pub fn handle_ctrl_f(r: &mut AppRenderer, now: u64)
    requires
        app_state::tabs_ok(old(r)@),
    ensures
        final(r)@ == after_find(old(r)@, now),
        app_state::tabs_ok(final(r)@),
{
    proof {
        reveal(after_find);
    }
    match r.coordinate {
        Coordinate::Scroll => {
            moves::set_mode(r, Coordinate::ScrollSearch);
            moves::clear_input(r);
            moves::clear_selection(r);
            clear_matches(r, true);
            moves::redraw(r);
        },
        Coordinate::ScrollSearch | Coordinate::InputSearch | Coordinate::Command => {},
        Coordinate::Insert => {
            moves::enter_mode(r, Coordinate::InputSearch);
            moves::clear_input(r);
            moves::clear_selection(r);
            moves::redraw(r);
        },
        Coordinate::ExtendedSearch => {
            if is_double_tap(r, now) {
                let root = root_position(&r.current_id);
                moves::set_position(r, root);
                open_search(r);
                moves::set_list_index(r, 0);
            }
            moves::note_tap(r, now);
            moves::redraw(r);
        },
        Coordinate::SimpleSearch => {
            moves::set_mode(r, Coordinate::ExtendedSearch);
            open_search(r);
            moves::point_at_position(r);
            moves::note_tap(r, now);
            moves::redraw(r);
        },
        _ => {
            moves::enter_mode(r, Coordinate::ExtendedSearch);
            open_search(r);
            moves::point_at_position(r);
            moves::note_tap(r, now);
            moves::redraw(r);
        },
    }
}

/// The image that the provider of the position shows.
pub open spec fn dashboard_image(u: Ui) -> Option<Seq<char>> {
    let idx = if u.current_id.len() > 0 {
        u.current_id[0]
    } else {
        0
    };
    if idx < u.providers.len() {
        u.providers[idx as int].dashboard_image_path
    } else {
        None
    }
}

/// `u` with `path` as the image of the dashboard.
#[verifier::opaque]
pub open spec fn with_dashboard(u: Ui, path: Seq<char>) -> Ui {
    Ui { dashboard_image_path: path, ..u }
}

fn set_dashboard(r: &mut AppRenderer, path: String)
    ensures
        final(r)@ == with_dashboard(old(r)@, path@),
        app_state::tabs_ok(old(r)@) ==> app_state::tabs_ok(final(r)@),
{
    proof {
        reveal(with_dashboard);
    }
    r.dashboard_image_path = path;
}

fn find_dashboard_image(r: &AppRenderer) -> (res: Option<String>)
    ensures
        text::opt_text(res) == dashboard_image(r@),
{
    let idx: usize = r.current_id.get(0).unwrap_or(0);
    if idx < r.providers.len() {
        text::clone_opt(&r.providers[idx].dashboard_image_path)
    } else {
        None
    }
}

/// `u` after the key that shows the dashboard.
pub open spec fn dashboard_opened(u: Ui) -> Ui {
    match dashboard_image(u) {
        Some(path) => moves::redrawn(
            moves::entered(with_dashboard(u, path), Coordinate::Dashboard),
        ),
        None => u,
    }
}

/// Show the dashboard of the provider, where it has one.
pub fn handle_dashboard(r: &mut AppRenderer)
    ensures
        final(r)@ == dashboard_opened(old(r)@),
        app_state::tabs_ok(old(r)@) ==> app_state::tabs_ok(final(r)@),
{
    if let Some(path) = find_dashboard_image(r) {
        set_dashboard(r, path);
        moves::enter_mode(r, Coordinate::Dashboard);
        moves::redraw(r);
    }
}

/// An empty element to be filled in.
pub open spec fn placeholder() -> ffon::Node {
    ffon::Node::Str("<input></input>"@)
}

/// Whether the position is in the file browser.
pub open spec fn in_filebrowser(u: Ui) -> bool {
    list::active_provider(u) matches Some(p) && p.name == "filebrowser"@
}

/// Whether the position is in the file browser.
pub fn active_provider_is_filebrowser(r: &AppRenderer) -> (b: bool)
    ensures
        b == in_filebrowser(r@),
{
    match list::get_active_provider_ref(r) {
        Some(p) => text::same(p.name.as_str(), "filebrowser"),
        None => false,
    }
}

/// `u` with names that tell files from directories asked for, or not.
#[verifier::opaque]
pub open spec fn asking_for_names(u: Ui, yes: bool) -> Ui {
    Ui { placeholder_insert_mode: yes, ..u }
}

pub(crate) fn set_asking(r: &mut AppRenderer, yes: bool)
    ensures
        final(r)@ == asking_for_names(old(r)@, yes),
        app_state::tabs_ok(old(r)@) ==> app_state::tabs_ok(final(r)@),
{
    proof {
        reveal(asking_for_names);
    }
    r.placeholder_insert_mode = yes;
}

/// `u` with an empty element put in at `idx` and edited.
pub open spec fn placeholder_inserted(u: Ui, idx: usize, now: u64) -> Ui {
    match ffon::layer_of(u.ffon, u.current_id) {
        Some(_) => editing_started(
            moves::list_scrolled(
                moves::at_item(
                    list::listed(
                        asking_for_names(
                            moves::placed_last(moves::node_inserted(u, idx, placeholder()), idx),
                            in_filebrowser(u),
                        ),
                    ),
                    idx,
                ),
                0,
            ),
            false,
            now,
        ),
        None => u,
    }
}

fn insert_operator_placeholder(r: &mut AppRenderer, insert_idx: usize, now: u64)
    requires
        app_state::tabs_ok(old(r)@),
    ensures
        final(r)@ == placeholder_inserted(old(r)@, insert_idx, now),
        app_state::tabs_ok(final(r)@),
{
    let in_browser = active_provider_is_filebrowser(r);
    if ffon::navigate_to_slice(&r.ffon, &r.current_id).is_none() {
        return;
    }
    moves::insert_node(r, insert_idx, FfonElement::new_str("<input></input>"));
    moves::set_last(r, insert_idx);
    set_asking(r, in_browser);
    moves::relist(r);
    moves::set_list_index(r, insert_idx);
    moves::set_scroll(r, 0);
    handle_i(r, now);
}

/// Where an empty element goes before or behind the current one.
pub open spec fn placeholder_index(u: Ui, behind: bool) -> Option<int> {
    match ffon::layer_at(u.ffon, u.current_id) {
        Some(layer) => if layer.len() == 0 {
            if u.current_id.len() <= 1 {
                None
            } else {
                Some(0)
            }
        } else {
            let at = if ffon::last_or_zero(u.current_id) <= layer.len() - 1 {
                ffon::last_or_zero(u.current_id) as int
            } else {
                layer.len() - 1
            };
            Some(
                if behind {
                    at + 1
                } else {
                    at
                },
            )
        },
        None => None,
    }
}

fn find_placeholder_index(r: &AppRenderer, behind: bool) -> (res: Option<usize>)
    ensures
        match res {
            Some(i) => placeholder_index(r@, behind) == Some(i as int),
            None => placeholder_index(r@, behind) is None,
        },
{
    match layer_length(r) {
        Some(n) => if n == 0 {
            if r.current_id.depth() <= 1 {
                None
            } else {
                Some(0)
            }
        } else {
            let last: usize = r.current_id.last().unwrap_or(0);
            let at: usize = if last <= n - 1 {
                last
            } else {
                n - 1
            };
            Some(
                if behind {
                    at + 1
                } else {
                    at
                },
            )
        },
        None => None,
    }
}

/// `u` after an empty element is put in before or behind the current one.
#[verifier::opaque]
pub open spec fn after_placeholder(u: Ui, behind: bool, now: u64) -> Ui {
    if !operating(u) {
        u
    } else {
        match placeholder_index(u, behind) {
            Some(i) => placeholder_inserted(u, i as usize, now),
            None => u,
        }
    }
}

fn add_placeholder(r: &mut AppRenderer, behind: bool, now: u64)
    requires
        app_state::tabs_ok(old(r)@),
    ensures
        final(r)@ == after_placeholder(old(r)@, behind, now),
        app_state::tabs_ok(final(r)@),
{
    proof {
        reveal(after_placeholder);
    }
    if is_operating(r) {
        if let Some(i) = find_placeholder_index(r, behind) {
            insert_operator_placeholder(r, i, now);
        }
    }
}

/// Put an empty element in before the current one, and edit it.
pub fn handle_ctrl_i_operator(r: &mut AppRenderer, now: u64)
    requires
        app_state::tabs_ok(old(r)@),
    ensures
        final(r)@ == after_placeholder(old(r)@, false, now),
        app_state::tabs_ok(final(r)@),
{
    add_placeholder(r, false, now);
}

/// Put an empty element in behind the current one, and edit it.
pub fn handle_ctrl_a_operator(r: &mut AppRenderer, now: u64)
    requires
        app_state::tabs_ok(old(r)@),
    ensures
        final(r)@ == after_placeholder(old(r)@, true, now),
        app_state::tabs_ok(final(r)@),
{
    add_placeholder(r, true, now);
}

/// `u` with its list built anew, and its error kept where it has one.
#[verifier::opaque]
pub open spec fn listed_with_error(u: Ui) -> Ui {
    if u.error_message.len() > 0 {
        moves::with_error(list::listed(u), u.error_message)
    } else {
        list::listed(u)
    }
}

pub(crate) fn relist_with_error(r: &mut AppRenderer)
    requires
        app_state::tabs_ok(old(r)@),
    ensures
        final(r)@ == listed_with_error(old(r)@),
        app_state::tabs_ok(final(r)@),
{
    proof {
        reveal(listed_with_error);
    }
    let saved = r.error_message.clone();
    moves::relist(r);
    if saved.as_str().unicode_len() > 0 {
        moves::set_error(r, saved);
    }
}

/// `u` after an edit of an element is done at `now`.
pub open spec fn edit_closed(u: Ui, now: u64) -> Ui {
    moves::list_scrolled(
        moves::at_position(listed_with_error(moves::without_input(escaped(u, now)))),
        0,
    )
}

/// End the edit of an element.
pub(crate) fn close_edit(r: &mut AppRenderer, now: u64)
    requires
        app_state::tabs_ok(old(r)@),
    ensures
        final(r)@ == edit_closed(old(r)@, now),
        app_state::tabs_ok(final(r)@),
{
    handle_escape(r, now);
    moves::clear_input(r);
    relist_with_error(r);
    moves::point_at_position(r);
    moves::set_scroll(r, 0);
}

/// What is said of a character that is typed or passed: of a password only
/// that there is one.
pub open spec fn spoken_char(u: Ui, c: char) -> Seq<char> {
    if u.input_is_password {
        seq!['*']
    } else {
        seq![c]
    }
}

/// Say a character that is typed or passed.
pub fn announce_char(r: &mut AppRenderer, c: char)
    ensures
        final(r)@ == app_state::announced(old(r)@, spoken_char(old(r)@, c)),
        app_state::tabs_ok(old(r)@) ==> app_state::tabs_ok(final(r)@),
{
    let hidden: char = if r.input_is_password {
        '*'
    } else {
        c
    };
    let said = text::of_char(hidden);
    r.announce(said.as_str());
}

} // verus!
