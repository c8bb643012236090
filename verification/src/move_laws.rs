//! Where the keys that move about lead: which element the position is at
//! afterwards, and which item of the list is selected.

use vstd::prelude::*;

use crate::app_state;
use crate::app_state::{History, ItemView, Task, Ui};
use crate::events;
use crate::events::OutsideView;
use crate::ffon;
use crate::ffon::Node;
use crate::handlers;
use crate::list;
use crate::markup;
use crate::moves;
use crate::provider;
use crate::provider::{OpView, ReplyView, RightEnd, StepView, ThenView};
use crate::resume;
use crate::shortcuts::Action;
use crate::state;
use crate::steps;

verus! {

/// The item that is selected in the list: of all items, or of those that match
/// where the list is searched.
pub open spec fn item_shown(v: Ui) -> Option<ItemView> {
    if v.filtered_list_indices.len() == 0 {
        if v.list_index < v.total_list.len() {
            Some(v.total_list[v.list_index as int])
        } else {
            None
        }
    } else if v.list_index < v.filtered_list_indices.len()
        && v.filtered_list_indices[v.list_index as int] < v.total_list.len() {
        Some(v.total_list[v.filtered_list_indices[v.list_index as int] as int])
    } else {
        None
    }
}

/// Whether the position is at `id`, where the tree has the element `n`, and the
/// item of that element is selected.
pub open spec fn is_at(v: Ui, id: Seq<usize>, n: Node) -> bool {
    &&& v.current_id == id
    &&& ffon::element_at(v.ffon, id) == Some(n)
    &&& item_shown(v) matches Some(item) && item.id == id
}

/// Whether a layer is shown as it is: nothing is searched for, and no file is
/// being chosen.
pub open spec fn shows_all(u: Ui) -> bool {
    u.search_string.len() == 0 && !u.pending_file_browser_open
}

/// The place of the element `i` in the layer of `id`.
pub open spec fn sibling(id: Seq<usize>, i: int) -> Seq<usize> {
    id.drop_last().push(i as usize)
}

pub(crate) proof fn lemma_sibling(tree: Seq<Node>, id: Seq<usize>, i: usize)
    requires
        id.len() > 0,
    ensures
        ffon::with_last(id, i) == sibling(id, i as int),
        ffon::layer_of(tree, sibling(id, i as int)) == ffon::layer_of(tree, id),
        ffon::layer_at(tree, id) == ffon::layer_of(tree, id),
        sibling(id, id.last() as int) == id,
{
    reveal(ffon::layer_of);
    assert(ffon::with_last(id, i) =~= sibling(id, i as int));
    assert(sibling(id, i as int).drop_last() =~= id.drop_last());
    assert(sibling(id, id.last() as int) =~= id);
}

/// A list that is built where the position is at an element selects it.
pub(crate) proof fn lemma_listed_at(u: Ui, n: Node)
    requires
        u.coordinate is General || u.coordinate is Insert,
        shows_all(u),
        ffon::element_at(u.ffon, u.current_id) == Some(n),
        ffon::layer_len(u.ffon, u.current_id) <= usize::MAX,
    ensures
        is_at(list::listed(u), u.current_id, n),
        list::listed(u).ffon == u.ffon,
        list::listed(u).coordinate == u.coordinate,
        list::listed(u).search_string == u.search_string,
        list::listed(u).pending_file_browser_open == u.pending_file_browser_open,
        app_state::synced(list::listed(u)).current_id == u.current_id,
{
    list::law_listing_selects_the_position(u);
    list::law_listing_keeps_the_rest(u);
}

proof fn lemma_paged(u: Ui, layer: Seq<Node>, i: int, to_end: bool)
    requires
        u.coordinate is General,
        shows_all(u),
        u.current_id.len() > 0,
        ffon::layer_of(u.ffon, u.current_id) == Some(layer),
        0 <= i < layer.len() <= usize::MAX,
    ensures
        ({
            let v = moves::redrawn(handlers::paged(u, i, to_end));
            &&& is_at(v, sibling(u.current_id, i), layer[i])
            &&& v.ffon == u.ffon
            &&& v.coordinate == u.coordinate
            &&& v.needs_redraw
        }),
{
    reveal(handlers::paged);
    reveal(moves::list_scrolled);
    reveal(moves::redrawn);
    reveal(moves::placed_last);
    lemma_sibling(u.ffon, u.current_id, i as usize);
    let p = moves::placed_last(u, i as usize);
    lemma_listed_at(p, layer[i]);
}

/// The end key selects the last element of the layer.
pub proof fn law_end_goes_to_the_last_element(u: Ui, layer: Seq<Node>, o: OutsideView)
    requires
        u.coordinate is General,
        shows_all(u),
        u.current_id.len() > 0,
        ffon::layer_of(u.ffon, u.current_id) == Some(layer),
        0 < layer.len() <= usize::MAX,
    ensures
        ({
            let (v, effects) = events::performed(u, Action::End, o);
            &&& is_at(v, sibling(u.current_id, layer.len() - 1), layer.last())
            &&& v.ffon == u.ffon
            &&& v.coordinate == u.coordinate
            &&& v.needs_redraw
            &&& effects.step == StepView::Done
        }),
{
    reveal(events::performed);
    reveal(events::moved);
    reveal(handlers::after_end);
    lemma_sibling(u.ffon, u.current_id, 0);
    lemma_paged(u, layer, layer.len() - 1, true);
}

/// The home key selects the first element of the layer, but for a second tap.
pub proof fn law_home_goes_to_the_first_element(u: Ui, layer: Seq<Node>, o: OutsideView)
    requires
        u.coordinate is General,
        shows_all(u),
        u.current_id.len() > 0,
        ffon::layer_of(u.ffon, u.current_id) == Some(layer),
        0 < layer.len() <= usize::MAX,
        o.now - u.last_keypress_time > 400 || u.current_id.len() == 1,
    ensures
        ({
            let (v, effects) = events::performed(u, Action::Home, o);
            &&& is_at(v, sibling(u.current_id, 0), layer[0])
            &&& v.ffon == u.ffon
            &&& v.coordinate == u.coordinate
            &&& v.last_keypress_time == o.now
            &&& v.needs_redraw
            &&& effects.step == StepView::Done
        }),
{
    reveal(events::performed);
    reveal(events::moved);
    reveal(steps::after_home);
    reveal(moves::list_scrolled);
    reveal(moves::redrawn);
    reveal(moves::placed_last);
    reveal(moves::tapped);
    lemma_sibling(u.ffon, u.current_id, 0);
    let p = moves::tapped(moves::placed_last(u, 0), o.now);
    lemma_listed_at(p, layer[0]);
    list::law_listing_keeps_the_rest(p);
}

/// How many elements a page key moves by: the lines that fit below and above
/// what is always shown, and at least one.
pub open spec fn page_of(u: Ui) -> int {
    let line = if u.cached_line_height > 1 {
        u.cached_line_height as int
    } else {
        1
    };
    let lines = (u.window_height as int) / line - 3;
    if u.window_height > 0 && lines > 1 {
        lines
    } else {
        1
    }
}

/// The page keys move by a page through the layer, and not over its ends.
pub proof fn law_page_keys_move_by_a_page(u: Ui, layer: Seq<Node>, o: OutsideView)
    requires
        u.coordinate is General,
        shows_all(u),
        u.current_id.len() > 0,
        ffon::layer_of(u.ffon, u.current_id) == Some(layer),
        u.current_id.last() < layer.len() <= usize::MAX,
    ensures
        ({
            let i = u.current_id.last() as int;
            let to = if i > page_of(u) {
                i - page_of(u)
            } else {
                0
            };
            let v = events::performed(u, Action::PageUp, o).0;
            &&& is_at(v, sibling(u.current_id, to), layer[to])
            &&& v.ffon == u.ffon
            &&& v.coordinate == u.coordinate
        }),
        ({
            let i = u.current_id.last() as int;
            let to = if i + page_of(u) < layer.len() {
                i + page_of(u)
            } else {
                layer.len() - 1
            };
            let v = events::performed(u, Action::PageDown, o).0;
            &&& is_at(v, sibling(u.current_id, to), layer[to])
            &&& v.ffon == u.ffon
            &&& v.coordinate == u.coordinate
        }),
{
    reveal(events::performed);
    reveal(events::moved);
    reveal(handlers::after_page_up);
    reveal(handlers::after_page_down);
    reveal(handlers::layer_paged);
    let i = u.current_id.last() as int;
    lemma_sibling(u.ffon, u.current_id, 0);
    lemma_paged(
        u,
        layer,
        if i > page_of(u) {
            i - page_of(u)
        } else {
            0
        },
        false,
    );
    lemma_paged(
        u,
        layer,
        if i + page_of(u) < layer.len() {
            i + page_of(u)
        } else {
            layer.len() - 1
        },
        true,
    );
}

pub(crate) proof fn lemma_arrow(u: Ui, task: Task, now: u64)
    requires
        task == Task::ArrowUp || task == Task::ArrowDown,
    ensures
        ({
            let v = state::updated(u, task, History::NoHistory, now);
            let idx = ffon::last_or_zero(u.current_id);
            &&& v.current_id == if task == Task::ArrowUp && idx > 0 {
                ffon::with_last(u.current_id, (idx - 1) as usize)
            } else if task == Task::ArrowDown && idx < ffon::max_index(u.ffon, u.current_id) {
                ffon::with_last(u.current_id, (idx + 1) as usize)
            } else {
                u.current_id
            }
            &&& v.coordinate == u.coordinate
        }),
{
    reveal(state::tasked);
    let t = state::tasked(u, task, History::NoHistory, now);
    list::law_listing_keeps_the_rest(t);
}

/// The arrow keys move the position by one element, and not over the ends of
/// the layer. Where edits go through the provider the tree stays as it is, and
/// the element is selected.
pub proof fn law_arrow_keys_move_by_one(u: Ui, layer: Seq<Node>, o: OutsideView)
    requires
        u.coordinate is General,
        shows_all(u),
        u.current_id.len() > 1,
        ffon::layer_of(u.ffon, u.current_id) == Some(layer),
        u.current_id.last() < layer.len() <= usize::MAX,
    ensures
        ({
            let i = u.current_id.last() as int;
            let to = if i > 0 {
                i - 1
            } else {
                0
            };
            let v = events::performed(u, Action::Up, o).0;
            &&& v.current_id == sibling(u.current_id, to)
            &&& v.coordinate == u.coordinate
            &&& !state::in_editor(u) ==> v.ffon == u.ffon && is_at(
                v,
                sibling(u.current_id, to),
                layer[to],
            )
        }),
        ({
            let i = u.current_id.last() as int;
            let to = if i + 1 < layer.len() {
                i + 1
            } else {
                i
            };
            let v = events::performed(u, Action::Down, o).0;
            &&& v.current_id == sibling(u.current_id, to)
            &&& v.coordinate == u.coordinate
            &&& !state::in_editor(u) ==> v.ffon == u.ffon && is_at(
                v,
                sibling(u.current_id, to),
                layer[to],
            )
        }),
{
    reveal(events::performed);
    reveal(events::moved);
    reveal(handlers::after_up);
    reveal(handlers::after_down);
    reveal(moves::redrawn);
    let i = u.current_id.last() as int;
    lemma_arrow(u, Task::ArrowUp, o.now);
    lemma_arrow(u, Task::ArrowDown, o.now);
    lemma_sibling(u.ffon, u.current_id, u.current_id.last());
    if i > 0 {
        lemma_sibling(u.ffon, u.current_id, (i - 1) as usize);
    }
    if i + 1 < layer.len() {
        lemma_sibling(u.ffon, u.current_id, (i + 1) as usize);
    }
    if !state::in_editor(u) {
        lemma_arrow_keeps(u, Task::ArrowUp, o.now);
        lemma_arrow_keeps(u, Task::ArrowDown, o.now);
        let a = state::tasked(u, Task::ArrowUp, History::NoHistory, o.now);
        let b = state::tasked(u, Task::ArrowDown, History::NoHistory, o.now);
        list::law_listing_keeps_the_rest(a);
        list::law_listing_keeps_the_rest(b);
        lemma_listed_at(
            a,
            layer[if i > 0 {
                i - 1
            } else {
                0
            }],
        );
        lemma_listed_at(
            b,
            layer[if i + 1 < layer.len() {
                i + 1
            } else {
                i
            }],
        );
    }
}

proof fn lemma_arrow_keeps(u: Ui, task: Task, now: u64)
    requires
        task == Task::ArrowUp || task == Task::ArrowDown,
        u.current_id.len() > 1,
        u.ffon.len() > 0 || u.current_id.len() > 1,
        !state::in_editor(u),
    ensures
        ({
            let t = state::tasked(u, task, History::NoHistory, now);
            &&& t.ffon == u.ffon
            &&& t.coordinate == u.coordinate
            &&& t.search_string == u.search_string
            &&& t.pending_file_browser_open == u.pending_file_browser_open
        }),
{
    reveal(state::tasked);
}

/// In a search, and among commands and hints, the arrow keys select the item
/// before or behind the selected one, and not over the ends of the list.
pub proof fn law_arrow_keys_move_through_the_list(u: Ui, o: OutsideView)
    requires
        u.coordinate is SimpleSearch || u.coordinate is ExtendedSearch || u.coordinate is Command
            || u.coordinate is Meta,
        u.total_list.len() <= usize::MAX,
        u.filtered_list_indices.len() <= usize::MAX,
    ensures
        ({
            let v = events::performed(u, Action::Up, o).0;
            &&& v.list_index == if u.list_index > 0 {
                u.list_index - 1
            } else {
                0
            }
            &&& v.total_list == u.total_list
            &&& v.filtered_list_indices == u.filtered_list_indices
            &&& v.coordinate == u.coordinate
            &&& v.ffon == u.ffon
        }),
        ({
            let v = events::performed(u, Action::Down, o).0;
            let n = if u.filtered_list_indices.len() == 0 {
                u.total_list.len()
            } else {
                u.filtered_list_indices.len()
            };
            &&& v.list_index == if u.list_index + 1 < n {
                u.list_index + 1
            } else {
                u.list_index as int
            }
            &&& v.total_list == u.total_list
            &&& v.filtered_list_indices == u.filtered_list_indices
            &&& v.coordinate == u.coordinate
            &&& v.ffon == u.ffon
        }),
{
    reveal(events::performed);
    reveal(events::moved);
    reveal(handlers::after_up);
    reveal(handlers::after_down);
    reveal(handlers::picked);
    reveal(moves::at_item);
    reveal(moves::without_error);
    reveal(moves::redrawn);
    reveal(app_state::synced);
}

/// The first and the last item of the list are selected by the home key and the
/// end key with ctrl.
pub proof fn law_ctrl_keys_go_to_the_ends_of_the_list(u: Ui, o: OutsideView)
    requires
        0 < u.total_list.len() <= usize::MAX,
        u.filtered_list_indices.len() <= usize::MAX,
    ensures
        ({
            let v = events::performed(u, Action::CtrlHome, o).0;
            &&& v.list_index == 0
            &&& v.total_list == u.total_list
            &&& v.filtered_list_indices == u.filtered_list_indices
        }),
        ({
            let v = events::performed(u, Action::CtrlEnd, o).0;
            &&& v.list_index == if u.filtered_list_indices.len() == 0 {
                u.total_list.len() - 1
            } else {
                u.filtered_list_indices.len() - 1
            }
            &&& v.total_list == u.total_list
            &&& v.filtered_list_indices == u.filtered_list_indices
        }),
{
    reveal(events::performed);
    reveal(events::moved);
    reveal(moves::at_item);
    reveal(moves::list_scrolled);
    reveal(moves::redrawn);
    reveal(app_state::synced);
}

/// How far a text can be scrolled: what does not fit into the window below the
/// line at its top.
pub open spec fn scroll_end(u: Ui) -> int {
    let line = if u.cached_line_height > 1 {
        u.cached_line_height as int
    } else {
        1
    };
    let rest = u.text_scroll_total_height - (u.window_height - line);
    if rest > 0 {
        rest
    } else {
        0
    }
}

/// While a text is scrolled, the arrow keys scroll it by a line and the home key
/// and the end key to its ends. It never goes over them.
pub proof fn law_text_is_scrolled_within_its_ends(u: Ui, o: OutsideView)
    requires
        u.coordinate is Scroll,
        events::fits(u, Action::Up),
        events::fits(u, Action::Down),
        events::fits(u, Action::End),
        0 <= u.text_scroll_offset <= scroll_end(u),
    ensures
        ({
            let line = if u.cached_line_height > 1 {
                u.cached_line_height as int
            } else {
                1
            };
            let up = events::performed(u, Action::Up, o).0;
            let down = events::performed(u, Action::Down, o).0;
            let home = events::performed(u, Action::Home, o).0;
            let end = events::performed(u, Action::End, o).0;
            &&& up.text_scroll_offset == if u.text_scroll_offset > line {
                u.text_scroll_offset - line
            } else {
                0
            }
            &&& down.text_scroll_offset == if u.text_scroll_offset + line < scroll_end(u) {
                u.text_scroll_offset + line
            } else {
                scroll_end(u)
            }
            &&& home.text_scroll_offset == 0
            &&& end.text_scroll_offset == scroll_end(u)
        }),
{
    reveal(events::performed);
    reveal(events::moved);
    reveal(events::fits);
    reveal(events::moved_fits);
    reveal(handlers::after_up);
    reveal(handlers::after_down);
    reveal(handlers::after_end);
    reveal(steps::after_home);
    reveal(handlers::scrolled);
}

/// While a text is scrolled or searched, the page keys scroll it by a window
/// without a line, and not over its ends; the results of a search in an edited
/// text are scrolled by a page.
pub proof fn law_page_keys_scroll_the_text(u: Ui, o: OutsideView)
    requires
        events::fits(u, Action::PageUp),
        events::fits(u, Action::PageDown),
    ensures
        u.coordinate is Scroll || u.coordinate is ScrollSearch ==> {
            let line = if u.cached_line_height > 1 {
                u.cached_line_height as int
            } else {
                1
            };
            let page = u.window_height - line;
            let up = events::performed(u, Action::PageUp, o).0;
            let down = events::performed(u, Action::PageDown, o).0;
            &&& up.text_scroll_offset == if u.text_scroll_offset > page {
                u.text_scroll_offset - page
            } else {
                0
            }
            &&& down.text_scroll_offset == if u.text_scroll_offset + page < scroll_end(u) {
                u.text_scroll_offset + page
            } else {
                scroll_end(u)
            }
            &&& up.coordinate == u.coordinate
            &&& down.coordinate == u.coordinate
        },
        u.coordinate is InputSearch ==> {
            let up = events::performed(u, Action::PageUp, o).0;
            let down = events::performed(u, Action::PageDown, o).0;
            &&& up.input_search_scroll_offset == if u.input_search_scroll_offset > page_of(u) {
                u.input_search_scroll_offset - page_of(u)
            } else {
                0
            }
            &&& down.input_search_scroll_offset == u.input_search_scroll_offset + page_of(u)
        },
{
    reveal(events::performed);
    reveal(events::moved);
    reveal(events::fits);
    reveal(events::moved_fits);
    reveal(handlers::after_page_up);
    reveal(handlers::after_page_down);
    reveal(handlers::scrolled);
    reveal(handlers::results_scrolled);
    assert(handlers::page_size(u) == page_of(u));
}

/// In a search of a scrolled text, the arrow keys go from match to match, and
/// around at the ends.
pub proof fn law_matches_are_visited_in_turn(u: Ui, o: OutsideView)
    requires
        u.coordinate is ScrollSearch,
        0 < u.scroll_search_match_count,
        u.scroll_search_current_match < u.scroll_search_match_count,
    ensures
        ({
            let n = u.scroll_search_match_count as int;
            let i = u.scroll_search_current_match as int;
            let down = events::performed(u, Action::Down, o).0;
            let up = events::performed(u, Action::Up, o).0;
            &&& down.scroll_search_current_match == (if i + 1 == n { 0 } else { i + 1 })
            &&& up.scroll_search_current_match == (if i == 0 { n - 1 } else { i - 1 })
        }),
{
    reveal(events::performed);
    reveal(events::moved);
    reveal(handlers::after_up);
    reveal(handlers::after_down);
    reveal(handlers::at_match);
    reveal(moves::redrawn);
}

proof fn lemma_arrived_at(u: Ui, n: Node, now: u64)
    requires
        u.coordinate is General,
        shows_all(u),
        ffon::element_at(u.ffon, u.current_id) == Some(n),
        ffon::layer_len(u.ffon, u.current_id) <= usize::MAX,
    ensures
        is_at(steps::arrived(u, now), u.current_id, n),
        steps::arrived(u, now).ffon == u.ffon,
        steps::arrived(u, now).coordinate == u.coordinate,
        steps::arrived(u, now).providers == u.providers,
{
    reveal(moves::touched);
    reveal(app_state::synced);
    lemma_listed_at(u, n);
    list::law_listing_keeps_the_rest(u);
}

pub(crate) proof fn lemma_children(tree: Seq<Node>, id: Seq<usize>, key: Seq<char>, children: Seq<Node>)
    requires
        ffon::element_at(tree, id) == Some(Node::Obj { key, children }),
    ensures
        id.len() > 0,
        ffon::layer_of(tree, id.push(0)) == Some(children),
        children.len() > 0 ==> ffon::element_at(tree, id.push(0)) == Some(children[0]),
{
    reveal(ffon::layer_of);
    let layer = ffon::layer_of(tree, id)->0;
    ffon::lemma_descend_into(tree, id.drop_last(), id.last(), layer);
    assert(id.push(0).drop_last() =~= id);
    assert(id.drop_last().push(id.last()) =~= id);
}

/// The right key goes into the selected branch: the position is at its first
/// child.
pub proof fn law_right_goes_into_the_branch(
    u: Ui,
    id: Seq<usize>,
    key: Seq<char>,
    children: Seq<Node>,
    o: OutsideView,
)
    requires
        u.coordinate is General,
        shows_all(u),
        item_shown(u) matches Some(item) && item.id == id,
        ffon::element_at(u.ffon, id) == Some(Node::Obj { key, children }),
        0 < children.len() <= usize::MAX,
    ensures
        ({
            let (v, effects) = events::performed(u, Action::Right, o);
            &&& is_at(v, id.push(0), children[0])
            &&& v.ffon == u.ffon
            &&& v.coordinate == u.coordinate
            &&& effects.step == StepView::Done
        }),
{
    reveal(events::performed);
    reveal(events::moved);
    reveal(steps::after_right);
    reveal(steps::right_raw);
    reveal(steps::right_done);
    reveal(moves::placed);
    lemma_children(u.ffon, id, key, children);
    lemma_arrived_at(steps::down_one(moves::placed(u, id)), children[0], o.now);
}

/// The right key on a leaf goes nowhere.
pub proof fn law_right_stays_at_a_leaf(u: Ui, id: Seq<usize>, s: Seq<char>, o: OutsideView)
    requires
        item_shown(u) matches Some(item) && item.id == id,
        ffon::element_at(u.ffon, id) == Some(Node::Str(s)),
    ensures
        events::performed(u, Action::Right, o).0 == (Ui { current_id: id, ..u }),
        events::performed(u, Action::Right, o).1.step == StepView::Done,
{
    reveal(events::performed);
    reveal(events::moved);
    reveal(steps::after_right);
    reveal(steps::right_raw);
    reveal(steps::right_done);
    reveal(moves::placed);
}

/// The right key on a branch without children asks its provider for them, by the
/// name that is shown. What comes back is what is in the root of the provider
/// then, and the position is at the first of it.
pub proof fn law_right_shows_what_the_provider_has(
    u: Ui,
    id: Seq<usize>,
    key: Seq<char>,
    o: OutsideView,
    reply: ReplyView,
    now: u64,
)
    requires
        u.coordinate is General,
        shows_all(u),
        item_shown(u) matches Some(item) && item.id == id,
        ffon::element_at(u.ffon, id) == Some(Node::Obj { key, children: Seq::empty() }),
        !markup::is_link(key),
        id[0] < u.providers.len(),
        id[0] < u.ffon.len(),
        0 < reply.children.len() <= usize::MAX,
    ensures
        ({
            let (v, effects) = events::performed(u, Action::Right, o);
            &&& effects.step matches StepView::Ask { provider, ops, then } && {
                &&& provider == Some(id[0])
                &&& ops.len() > 1
                &&& ops[0] == OpView::PushPath(markup::display_text(key))
                &&& ops[1] == OpView::Fetch
                &&& v.ffon == u.ffon
                &&& ({
                    let (w, end) = resume::resumed(v, provider, then, reply, now);
                    &&& is_at(w, seq![id[0], 0], reply.children[0])
                    &&& w.ffon.len() == u.ffon.len()
                    &&& ffon::layer_of(w.ffon, w.current_id) == Some(reply.children)
                    &&& forall|i: int|
                        0 <= i < u.ffon.len() && i != id[0] ==> w.ffon[i] == u.ffon[i]
                    &&& end == StepView::Done
                })
            }
        }),
{
    reveal(events::performed);
    reveal(events::moved);
    reveal(steps::after_right);
    reveal(steps::right_raw);
    reveal(moves::placed);
    lemma_children(u.ffon, id, key, Seq::empty());
    let v = moves::placed(u, id);
    let p = Some(id[0]);
    let known = provider::learned(v, p, reply.info);
    let answer = resume::answer_of(reply);
    assert(known.ffon == u.ffon && known.current_id == id && known.coordinate == u.coordinate
        && shows_all(known) && known.providers.len() == u.providers.len()) by {
        reveal(provider::learned);
    }
    let w = steps::layer_entered(known, p, answer);
    assert(w.ffon.len() == u.ffon.len() && w.current_id == seq![id[0], 0usize] && w.coordinate
        == u.coordinate && shows_all(w) && w.ffon[id[0] as int] is Obj && w.ffon[id[0] as int]->children
        == reply.children && forall|i: int|
        0 <= i < u.ffon.len() && i != id[0] ==> w.ffon[i] == u.ffon[i]) by {
        reveal(provider::refreshed);
        reveal(steps::with_root_filled);
    }
    lemma_root_layer(w.ffon, id[0]);
    lemma_arrived_at(w, reply.children[0], now);
    reveal(resume::going_on);
    reveal(steps::right_done);
}

pub(crate) proof fn lemma_root_layer(tree: Seq<Node>, i: usize)
    requires
        i < tree.len(),
        tree[i as int] is Obj,
    ensures
        ffon::layer_of(tree, seq![i, 0]) == Some(tree[i as int]->children),
{
    reveal(ffon::layer_of);
    let path = seq![i, 0usize].drop_last();
    assert(path =~= seq![i]);
    assert(path.drop_first() =~= Seq::<usize>::empty());
    assert(ffon::descend(tree[i as int]->children, Seq::<usize>::empty()) == Some(
        tree[i as int]->children,
    ));
}

/// The right key on a link loads what it leads to. That becomes the children of
/// the link, and the position is at the first of them; where nothing comes back
/// the position stays at the link.
pub proof fn law_right_follows_a_link(
    u: Ui,
    id: Seq<usize>,
    key: Seq<char>,
    url: Seq<char>,
    o: OutsideView,
    reply: ReplyView,
    now: u64,
)
    requires
        u.coordinate is General,
        shows_all(u),
        item_shown(u) matches Some(item) && item.id == id,
        ffon::element_at(u.ffon, id) == Some(Node::Obj { key, children: Seq::empty() }),
        markup::is_link(key),
        markup::link_text(key) == Some(url),
        reply.children.len() <= usize::MAX,
    ensures
        ({
            let (v, effects) = events::performed(u, Action::Right, o);
            &&& effects.step matches StepView::Ask { provider, ops, then } && {
                &&& ops == seq![OpView::ResolveLink(url)]
                &&& ({
                    let (w, end) = resume::resumed(v, provider, then, reply, now);
                    &&& end == StepView::Done
                    &&& reply.children.len() > 0 ==> {
                        &&& is_at(w, id.push(0), reply.children[0])
                        &&& ffon::element_at(w.ffon, id) == Some(
                            Node::Obj { key, children: reply.children },
                        )
                    }
                    &&& reply.children.len() == 0 ==> w.current_id == id && w.ffon == u.ffon
                })
            }
        }),
{
    lemma_children(u.ffon, id, key, Seq::empty());
    let v = moves::placed(u, id);
    let then = ThenView::RightLinked { end: RightEnd::Key };
    assert(v.ffon == u.ffon && v.current_id == id && v.coordinate == u.coordinate && shows_all(v))
        by {
        reveal(moves::placed);
    }
    assert(events::performed(u, Action::Right, o).0 == v && events::performed(
        u,
        Action::Right,
        o,
    ).1.step == StepView::Ask { provider: None, ops: seq![OpView::ResolveLink(url)], then }) by {
        reveal(events::performed);
        reveal(events::moved);
        reveal(steps::after_right);
        reveal(steps::right_raw);
    }
    let answer = resume::answer_of(reply);
    assert(resume::resumed(v, None, then, reply, now) == steps::linked(
        v,
        answer,
        RightEnd::Key,
        now,
    )) by {
        reveal(provider::learned);
        reveal(resume::going_on);
    }
    reveal(steps::linked);
    reveal(steps::right_done);
    if reply.children.len() > 0 {
        let n = Node::Obj { key, children: reply.children };
        let w = steps::children_set(v, reply.children);
        lemma_sibling(u.ffon, id, 0);
        lemma_replaced(u.ffon, id, n);
        assert(w.ffon == ffon::replaced(u.ffon, id, id.last() as int, n) && w.current_id == id
            && w.coordinate == u.coordinate && shows_all(w)) by {
            reveal(steps::children_set);
            reveal(moves::node_at);
        }
        lemma_children(w.ffon, id, key, reply.children);
        let d = steps::down_one(w);
        assert(d.ffon == w.ffon && d.current_id == id.push(0) && d.coordinate == u.coordinate
            && shows_all(d)) by {
            reveal(moves::placed);
        }
        lemma_arrived_at(d, reply.children[0], now);
    }
}

pub(crate) proof fn lemma_replaced(tree: Seq<Node>, id: Seq<usize>, n: Node)
    requires
        ffon::element_at(tree, id) is Some,
    ensures
        ffon::element_at(ffon::replaced(tree, id, id.last() as int, n), id) == Some(n),
{
    reveal(ffon::layer_of);
    let layer = ffon::layer_of(tree, id)->0;
    ffon::law_graft_descend(tree, id.drop_last(), layer.update(id.last() as int, n));
}

/// At a root the left key goes nowhere.
pub proof fn law_left_stays_at_a_root(u: Ui, o: OutsideView)
    requires
        u.current_id.len() <= 1,
    ensures
        events::performed(u, Action::Left, o).0 == u,
        events::performed(u, Action::Left, o).1.step == StepView::Done,
{
    reveal(events::performed);
    reveal(events::moved);
    reveal(steps::left_raw);
    reveal(steps::left_done);
}

/// Below the layer that a provider fetches, the left key goes out to the branch
/// that the position is in, with the tree as it is. The provider is asked to go
/// out of the last part of its path, but for what a link leads to and the hints.
pub proof fn law_left_goes_out_to_the_branch(
    u: Ui,
    n: Node,
    o: OutsideView,
    reply: ReplyView,
    now: u64,
)
    requires
        u.coordinate is General,
        shows_all(u),
        u.current_id.len() > 2,
        ffon::element_at(u.ffon, u.current_id.drop_last()) == Some(n),
        ffon::layer_len(u.ffon, u.current_id.drop_last()) <= usize::MAX,
    ensures
        ({
            let (v, effects) = events::performed(u, Action::Left, o);
            let local = markup::is_link(ffon::node_text(n)) || ffon::node_text(n) == "meta"@;
            &&& n is Obj && local ==> {
                &&& effects.step == StepView::Done
                &&& is_at(v, u.current_id.drop_last(), n)
                &&& v.ffon == u.ffon
            }
            &&& !(n is Obj && local) ==> {
                &&& v == u
                &&& effects.step matches StepView::Ask { provider, ops, then } && {
                    let (w, end) = resume::resumed(v, provider, then, reply, now);
                    &&& ops == seq![OpView::PopPath]
                    &&& is_at(w, u.current_id.drop_last(), n)
                    &&& w.ffon == u.ffon
                    &&& end == StepView::Done
                }
            }
        }),
{
    reveal(events::performed);
    reveal(events::moved);
    reveal(steps::left_raw);
    reveal(steps::left_done);
    reveal(moves::placed);
    reveal(moves::node_at);
    let up = u.current_id.drop_last();
    lemma_sibling(u.ffon, up, 0);
    lemma_arrived_at(steps::up_one(u), n, o.now);
    let p = provider::active_index(u);
    let k = provider::learned(u, p, reply.info);
    assert(k.ffon == u.ffon && k.current_id == u.current_id && k.coordinate == u.coordinate
        && shows_all(k)) by {
        reveal(provider::learned);
    }
    reveal(resume::going_on);
    reveal(steps::popped);
    lemma_arrived_at(steps::up_one(k), n, now);
}

/// In the layer that a provider fetches, the left key has the provider go out
/// of the last part of its path. Where the path is another one then, what is
/// there is fetched and shown, with the position at the first branch that is
/// shown under the name that was left.
pub proof fn law_left_shows_the_directory_above(
    u: Ui,
    o: OutsideView,
    first: ReplyView,
    info: app_state::ProviderView,
    second: ReplyView,
    i: int,
    now: u64,
)
    requires
        u.coordinate is General,
        shows_all(u),
        u.current_id.len() == 2,
        u.current_id[0] < u.providers.len(),
        u.current_id[0] < u.ffon.len(),
        u.ffon[u.current_id[0] as int] matches Node::Obj { key, .. } && !markup::is_link(key)
            && key != "meta"@,
        first.info == Some(info),
        info.current_path != u.providers[u.current_id[0] as int].current_path,
        second.children.len() <= usize::MAX,
        0 <= i < second.children.len(),
        second.children[i] is Obj,
        first.left_name == Some(markup::display_text(ffon::node_text(second.children[i]))),
        forall|k: int|
            0 <= k < i && (#[trigger] second.children[k]) is Obj ==> markup::display_text(
                ffon::node_text(second.children[k]),
            ) != first.left_name->0,
    ensures
        ({
            let root = u.current_id[0];
            let (v, effects) = events::performed(u, Action::Left, o);
            &&& effects.step matches StepView::Ask { provider, ops, then } && {
                let (w, next) = resume::resumed(v, provider, then, first, now);
                &&& provider == Some(root)
                &&& ops == seq![OpView::PopPath]
                &&& next matches StepView::Ask { provider: again, ops: fetch, then: on } && {
                    let (x, end) = resume::resumed(w, again, on, second, now);
                    &&& again == Some(root)
                    &&& fetch[0] == OpView::Fetch
                    &&& is_at(x, seq![root, i as usize], second.children[i])
                    &&& ffon::layer_of(x.ffon, x.current_id) == Some(second.children)
                    &&& end == StepView::Done
                }
            }
        }),
{
    reveal(events::performed);
    reveal(events::moved);
    reveal(steps::left_raw);
    reveal(moves::node_at);
    reveal(resume::going_on);
    reveal(steps::popped);
    let root = u.current_id[0];
    let up = u.current_id.drop_last();
    assert(up =~= seq![root]);
    assert(ffon::layer_at(u.ffon, up) == Some(u.ffon)) by {
        reveal(ffon::layer_of);
        assert(up.drop_last() =~= Seq::<usize>::empty());
    }
    let p = Some(root);
    let w = provider::learned(u, p, first.info);
    assert(w.ffon == u.ffon && w.current_id == u.current_id && w.coordinate == u.coordinate
        && shows_all(w) && w.providers.len() == u.providers.len() && w.providers[root as int]
        == info) by {
        reveal(provider::learned);
    }
    let k = provider::learned(w, p, second.info);
    assert(k.ffon == u.ffon && k.current_id == u.current_id && k.coordinate == u.coordinate
        && shows_all(k) && k.providers.len() == u.providers.len()) by {
        reveal(provider::learned);
    }
    let answer = resume::answer_of(second);
    let f = provider::refreshed(k, p, answer);
    assert(f.ffon.len() == u.ffon.len() && f.current_id == u.current_id && f.coordinate
        == u.coordinate && shows_all(f) && f.ffon[root as int] is Obj
        && f.ffon[root as int]->children == second.children) by {
        reveal(provider::refreshed);
    }
    lemma_shown_as(second.children, first.left_name->0, i, 0);
    lemma_root_layer(f.ffon, root);
    let d = steps::folder_left(k, p, answer, first.left_name);
    reveal(moves::placed_last);
    assert(d.current_id =~= seq![root, i as usize]);
    assert(ffon::layer_of(f.ffon, seq![root, i as usize]) == Some(second.children)) by {
        reveal(ffon::layer_of);
        assert(seq![root, i as usize].drop_last() =~= seq![root, 0usize].drop_last());
    }
    lemma_arrived_at(d, second.children[i], now);
    reveal(steps::left_done);
}

proof fn lemma_shown_as(layer: Seq<Node>, name: Seq<char>, i: int, from: int)
    requires
        0 <= from <= i < layer.len(),
        layer[i] is Obj,
        markup::display_text(ffon::node_text(layer[i])) == name,
        forall|k: int|
            from <= k < i && (#[trigger] layer[k]) is Obj ==> markup::display_text(
                ffon::node_text(layer[k]),
            ) != name,
    ensures
        steps::shown_as(layer, name, true, from) == Some(i),
    decreases i - from,
{
    if from < i {
        assert(layer[from] is Obj ==> markup::display_text(ffon::node_text(layer[from])) != name);
        lemma_shown_as(layer, name, i, from + 1);
    }
}

} // verus!
