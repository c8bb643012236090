//! The enter key in the modes that search.

use vstd::prelude::*;

use crate::actions;
use crate::app_state;
use crate::app_state::{AppRenderer, Coordinate, ItemView, RenderListItem, Ui};
use crate::elements;
use crate::ffon;
use crate::ffon::{FfonElement, IdArray, Node};
use crate::handlers;
use crate::list;
use crate::markup;
use crate::moves;
use crate::paths;
use crate::provider;
use crate::provider::{PathEnd, Step, StepView, Then, ThenView};
use crate::steps;
use crate::text;

verus! {

/// `u` out of the search, with what was searched for forgotten.
pub open spec fn search_closed(u: Ui, extended: bool) -> Ui {
    if extended {
        list::listed(moves::without_input(moves::left_mode(u)))
    } else {
        list::listed(moves::without_search(moves::left_mode(u)))
    }
}

fn close_search(r: &mut AppRenderer, extended: bool)
    requires
        app_state::tabs_ok(old(r)@),
    ensures
        final(r)@ == search_closed(old(r)@, extended),
        app_state::tabs_ok(final(r)@),
{
    moves::leave_mode(r);
    if extended {
        moves::clear_input(r);
    } else {
        moves::clear_search(r);
    }
    moves::relist(r);
}

/// `u` with its place in the list at its position, or at the last item.
#[verifier::opaque]
pub open spec fn at_position_or_last(u: Ui) -> Ui {
    let last = handlers::at_least_zero(app_state::active_len(u) - 1);
    moves::at_item(
        u,
        if ffon::last_or_zero(u.current_id) <= last {
            ffon::last_or_zero(u.current_id)
        } else {
            last as usize
        },
    )
}

fn point_at_position_or_last(r: &mut AppRenderer)
    ensures
        final(r)@ == at_position_or_last(old(r)@),
        app_state::tabs_ok(old(r)@) ==> app_state::tabs_ok(final(r)@),
{
    proof {
        reveal(at_position_or_last);
    }
    let n: usize = r.active_list_len();
    let last: usize = if n > 0 {
        n - 1
    } else {
        0
    };
    let at: usize = r.current_id.last().unwrap_or(0);
    moves::set_list_index(
        r,
        if at <= last {
            at
        } else {
            last
        },
    );
}

/// `u` after the box at `id` is given the text `s`.
pub open spec fn found_box_set(u: Ui, id: Seq<usize>, n: Node, s: Seq<char>) -> Ui {
    moves::replaced_at(u, id, elements::retitled(n, s))
}

/// What using the found element at `id` leads to, where it is a box or a
/// button of a group.
#[verifier::opaque]
pub open spec fn found_used(u: Ui, id: Seq<usize>, extended: bool) -> Option<steps::Outcome> {
    match boxes_at(u, id) {
        Some((n, s)) => Some(
            (
                found_box_set(u, id, n, s),
                StepView::Ask {
                    provider: provider::active_index(found_box_set(u, id, n, s)),
                    ops: actions::box_change(s),
                    then: ThenView::SearchToggled { index: u.list_index, extended },
                },
            ),
        ),
        None => if elements::radio_chosen(u.ffon, id) is Some {
            let v = actions::button_chosen(moves::placed(u, id));
            Some((v, actions::choosing(v, ThenView::SearchChosen { extended })))
        } else {
            None
        },
    }
}

/// The box at `id`, and its text after it is checked or unchecked.
pub open spec fn boxes_at(u: Ui, id: Seq<usize>) -> Option<(Node, Seq<char>)> {
    match moves::node_at(u.ffon, id) {
        Some(n) => match elements::toggled_text(ffon::node_text(n)) {
            Some(s) => Some((n, s)),
            None => None,
        },
        None => None,
    }
}

fn find_box(r: &AppRenderer, id: &IdArray) -> (res: Option<(FfonElement, String)>)
    ensures
        match res {
            Some((e, s)) => boxes_at(r@, id@) == Some((e@, s@)),
            None => boxes_at(r@, id@) is None,
        },
{
    match moves::element_ref(&r.ffon, id) {
        Some(e) => match elements::toggle_checkbox(e) {
            Some(s) => Some((e.clone(), s)),
            None => None,
        },
        None => None,
    }
}

proof fn lemma_placed(u: Ui, id: Seq<usize>)
    ensures
        moves::placed(u, id).ffon == u.ffon,
        moves::placed(u, id).current_id == id,
        moves::placed(moves::placed(u, id), u.current_id) == u,
{
    reveal(moves::placed);
}

proof fn lemma_not_chosen(u: Ui)
    requires
        elements::radio_chosen(u.ffon, u.current_id) is None,
    ensures
        actions::button_chosen(u) == u,
{
    reveal(actions::button_chosen);
}

fn use_found(r: &mut AppRenderer, id: &IdArray, extended: bool) -> (res: Option<Step>)
    requires
        app_state::tabs_ok(old(r)@),
    ensures
        match res {
            Some(step) => found_used(old(r)@, id@, extended) == Some((final(r)@, step@)),
            None => found_used(old(r)@, id@, extended) is None && final(r)@ == old(r)@,
        },
        app_state::tabs_ok(final(r)@),
{
    proof {
        reveal(found_used);
    }
    let index: usize = r.list_index;
    if let Some((elem, s)) = find_box(r, id) {
        let new = elements::retitle(&elem, s.as_str());
        moves::replace_at_id(r, id, new);
        return Some(
            actions::notify_checkbox_changed(
                r,
                s.as_str(),
                Then::SearchToggled { index, extended },
            ),
        );
    }
    let saved = r.current_id.clone();
    let ghost before = r@;
    proof {
        lemma_placed(before, id@);
    }
    moves::set_position(r, id.clone());
    if actions::choose_here(r) {
        return Some(actions::notify_radio_changed(r, Then::SearchChosen { extended }));
    }
    proof {
        lemma_not_chosen(moves::placed(before, id@));
    }
    moves::set_position(r, saved);
    None
}

/// `u` after a box was checked in the search, which goes on.
#[verifier::opaque]
pub open spec fn search_goes_on(u: Ui, index: usize, extended: bool) -> Ui {
    if extended {
        moves::redrawn(moves::at_item(list::search_listed(u), index))
    } else {
        moves::redrawn(moves::at_item(list::listed(u), index))
    }
}

/// Go on when the provider knows of a box that was checked in the search.
pub fn search_toggled(r: &mut AppRenderer, index: usize, extended: bool)
    requires
        app_state::tabs_ok(old(r)@),
    ensures
        final(r)@ == search_goes_on(old(r)@, index, extended),
        app_state::tabs_ok(final(r)@),
{
    proof {
        reveal(search_goes_on);
    }
    if extended {
        moves::relist_search(r);
    } else {
        moves::relist(r);
    }
    moves::set_list_index(r, index);
    moves::redraw(r);
}

/// `u` after a button was chosen in the search, which ends.
#[verifier::opaque]
pub open spec fn search_chose(u: Ui, extended: bool) -> Ui {
    if extended {
        paths::found(u)
    } else {
        moves::redrawn(moves::at_position(search_closed(u, false)))
    }
}

/// Go on when the provider knows of a button that was chosen in the search.
pub fn search_chosen(r: &mut AppRenderer, extended: bool)
    requires
        app_state::tabs_ok(old(r)@),
    ensures
        final(r)@ == search_chose(old(r)@, extended),
        app_state::tabs_ok(final(r)@),
{
    proof {
        reveal(search_chose);
    }
    if extended {
        paths::leave_search(r);
    } else {
        close_search(r, false);
        moves::point_at_position(r);
        moves::redraw(r);
    }
}

/// `u` out of the search, with nothing found.
pub open spec fn nothing_found(u: Ui, extended: bool) -> Ui {
    moves::redrawn(search_closed(u, extended))
}

/// `u` out of the search, at `id`.
pub open spec fn found_at(u: Ui, id: Seq<usize>) -> Ui {
    moves::redrawn(at_position_or_last(search_closed(moves::placed(u, id), false)))
}

/// What the enter key leads to in a search of the list.
#[verifier::opaque]
pub open spec fn list_search_entered(u: Ui) -> steps::Outcome {
    match app_state::selected_item(u) {
        Some(item) => match found_used(u, item.id, false) {
            Some(outcome) => outcome,
            None => (found_at(u, item.id), StepView::Done),
        },
        None => (nothing_found(u, false), StepView::Done),
    }
}

fn enter_list_search(r: &mut AppRenderer) -> (res: Step)
    requires
        app_state::tabs_ok(old(r)@),
    ensures
        (final(r)@, res@) == list_search_entered(old(r)@),
        app_state::tabs_ok(final(r)@),
{
    proof {
        reveal(list_search_entered);
    }
    match r.current_list_item_id() {
        Some(id) => {
            if let Some(step) = use_found(r, &id, false) {
                return step;
            }
            moves::set_position(r, id);
            close_search(r, false);
            point_at_position_or_last(r);
            moves::redraw(r);
            Step::Done
        },
        None => {
            close_search(r, false);
            moves::redraw(r);
            Step::Done
        },
    }
}

/// Whether an element of `layer` is a branch.
pub open spec fn has_branch(layer: Seq<Node>) -> bool {
    exists|i: int| 0 <= i < layer.len() && (#[trigger] layer[i]) is Obj
}

/// How many of the first `n` elements are chosen buttons.
pub open spec fn chosen_count(layer: Seq<Node>, n: int) -> nat
    decreases n,
{
    if n <= 0 || n > layer.len() {
        0
    } else {
        chosen_count(layer, n - 1) + match layer[n - 1] {
            Node::Str(s) if markup::is_checked(s) => 1nat,
            _ => 0nat,
        }
    }
}

/// What is wrong with the group `n`: it has a branch in it, or more than one
/// chosen button.
pub open spec fn group_error(n: Option<Node>) -> Option<Seq<char>> {
    match n {
        Some(Node::Obj { key, children }) if markup::is_radio(key) => if has_branch(children) {
            Some("Radio group children must be strings, not objects"@)
        } else if chosen_count(children, children.len() as int) > 1 {
            Some("Radio group must have at most one checked item"@)
        } else {
            None
        },
        _ => None,
    }
}

fn find_group_error(elem: Option<&FfonElement>) -> (res: Option<String>)
    ensures
        text::opt_text(res) == group_error(
            match elem {
                Some(e) => Some(e@),
                None => None,
            },
        ),
{
    match elem {
        Some(FfonElement::Obj(o)) => {
            proof {
                ffon::lemma_obj_view(*o);
            }
            if !sicompass_sdk::tags::has_radio(o.key.as_str()) {
                return None;
            }
            let ghost layer = ffon::forest(o.children@);
            let mut i: usize = 0;
            let mut count: usize = 0;
            while i < o.children.len()
                invariant
                    i <= o.children.len(),
                    layer == ffon::forest(o.children@),
                    elem matches Some(e) && e@ == (Node::Obj { key: o.key@, children: layer }),
                    markup::is_radio(o.key@),
                    count == chosen_count(layer, i as int),
                    count <= i,
                    forall|k: int| 0 <= k < i ==> !((#[trigger] layer[k]) is Obj),
                decreases o.children.len() - i,
            {
                assert(layer[i as int] == o.children@[i as int]@);
                match &o.children[i] {
                    FfonElement::Obj(_) => {
                        assert(has_branch(layer));
                        return Some(
                            "Radio group children must be strings, not objects".to_owned(),
                        );
                    },
                    FfonElement::Str(s) => {
                        if sicompass_sdk::tags::has_checked(s.as_str()) {
                            count += 1;
                        }
                    },
                }
                i += 1;
            }
            if count > 1 {
                Some("Radio group must have at most one checked item".to_owned())
            } else {
                None
            }
        },
        _ => None,
    }
}

/// The first group above the element at `id`, from the depth `d` on, that
/// something is wrong with, and what.
pub open spec fn blocking(tree: Seq<Node>, id: Seq<usize>, d: int) -> Option<
    (Seq<usize>, Seq<char>),
>
    decreases id.len() - d,
{
    if d < 0 || d >= id.len() - 1 {
        None
    } else {
        match group_error(moves::node_at(tree, id.take(d + 1))) {
            Some(error) => Some((id.take(d + 1), error)),
            None => blocking(tree, id, d + 1),
        }
    }
}

fn find_blocking(tree: &Vec<FfonElement>, id: &IdArray) -> (res: Option<(IdArray, String)>)
    ensures
        match res {
            Some((at, error)) => blocking(ffon::forest(tree@), id@, 1) == Some((at@, error@)),
            None => blocking(ffon::forest(tree@), id@, 1) is None,
        },
{
    let n: usize = id.depth();
    let mut d: usize = 1;
    while n > 0 && d < n - 1
        invariant
            n == id@.len(),
            1 <= d,
            n > 0 ==> d <= n,
            blocking(ffon::forest(tree@), id@, 1) == blocking(ffon::forest(tree@), id@, d as int),
        decreases n - d,
    {
        let mut above = id.clone();
        let mut k: usize = n;
        while k > d + 1
            invariant
                d + 1 <= k <= n,
                d < n - 1,
                n == id@.len(),
                above@ == id@.take(k as int),
            decreases k,
        {
            above.pop();
            assert(id@.take(k as int).drop_last() =~= id@.take(k - 1));
            k -= 1;
        }
        if let Some(error) = find_group_error(moves::element_ref(tree, &above)) {
            return Some((above, error));
        }
        d += 1;
    }
    None
}

/// `u` out of the search, at the group that something is wrong with.
pub open spec fn blocked_at(u: Ui, id: Seq<usize>, error: Seq<char>) -> Ui {
    moves::redrawn(
        moves::list_scrolled(
            moves::at_position(
                moves::with_error(search_closed(moves::placed(u, id), true), error),
            ),
            handlers::AT_END,
        ),
    )
}

fn block(r: &mut AppRenderer, id: IdArray, error: String)
    requires
        app_state::tabs_ok(old(r)@),
    ensures
        final(r)@ == blocked_at(old(r)@, id@, error@),
        app_state::tabs_ok(final(r)@),
{
    moves::set_position(r, id);
    close_search(r, true);
    moves::set_error(r, error);
    moves::point_at_position(r);
    moves::set_scroll(r, handlers::AT_END);
    moves::redraw(r);
}

/// `u` out of the search of everything below, at `id`.
pub open spec fn found_below(u: Ui, id: Seq<usize>) -> Ui {
    moves::redrawn(
        moves::list_scrolled(
            at_position_or_last(search_closed(moves::placed(u, id), true)),
            handlers::AT_END,
        ),
    )
}

/// What going to the found item leads to.
#[verifier::opaque]
pub open spec fn item_reached(u: Ui, item: ItemView, now: u64) -> steps::Outcome {
    match item.nav_path {
        Some(path) => paths::way_started(
            u,
            steps::root_index(item.id),
            elements::nav_parts(path).0,
            elements::nav_parts(path).1,
            PathEnd::Search,
            now,
        ),
        None => (found_below(u, item.id), StepView::Done),
    }
}

fn reach_item(r: &mut AppRenderer, item: RenderListItem, now: u64) -> (res: Step)
    requires
        app_state::tabs_ok(old(r)@),
    ensures
        (final(r)@, res@) == item_reached(old(r)@, item@, now),
        app_state::tabs_ok(final(r)@),
{
    proof {
        reveal(item_reached);
    }
    match item.nav_path {
        Some(path) => {
            let root: usize = item.id.get(0).unwrap_or(0);
            let (dir, file) = elements::split_nav_path(path.as_str());
            paths::start_way(r, root, dir.as_str(), file, PathEnd::Search, now)
        },
        None => {
            moves::set_position(r, item.id);
            close_search(r, true);
            point_at_position_or_last(r);
            moves::set_scroll(r, handlers::AT_END);
            moves::redraw(r);
            Step::Done
        },
    }
}

/// What the enter key leads to in a search of everything below.
#[verifier::opaque]
pub open spec fn deep_search_entered(u: Ui, now: u64) -> steps::Outcome {
    match app_state::selected_item(u) {
        Some(item) => match blocking(u.ffon, item.id, 1) {
            Some((id, error)) => (blocked_at(u, id, error), StepView::Done),
            None => match found_used(u, item.id, true) {
                Some(outcome) => outcome,
                None => item_reached(u, item, now),
            },
        },
        None => (nothing_found(u, true), StepView::Done),
    }
}

fn handle_enter_extended_search(r: &mut AppRenderer, now: u64) -> (res: Step)
    requires
        app_state::tabs_ok(old(r)@),
    ensures
        (final(r)@, res@) == deep_search_entered(old(r)@, now),
        app_state::tabs_ok(final(r)@),
{
    proof {
        reveal(deep_search_entered);
    }
    match moves::selected(r) {
        Some(item) => {
            if let Some((id, error)) = find_blocking(&r.ffon, &item.id) {
                block(r, id, error);
                return Step::Done;
            }
            if let Some(step) = use_found(r, &item.id, true) {
                return step;
            }
            reach_item(r, item, now)
        },
        None => {
            close_search(r, true);
            moves::redraw(r);
            Step::Done
        },
    }
}

/// What the enter key leads to in the modes that search.
pub open spec fn search_entered(u: Ui, now: u64) -> steps::Outcome {
    if u.coordinate is ExtendedSearch {
        deep_search_entered(u, now)
    } else {
        list_search_entered(u)
    }
}

/// Go to what was found. A box is checked and the search goes on; a button is
/// chosen and the search ends.
pub fn handle_enter_search(r: &mut AppRenderer, now: u64) -> (res: Step)
    requires
        app_state::tabs_ok(old(r)@),
    ensures
        (final(r)@, res@) == search_entered(old(r)@, now),
        app_state::tabs_ok(final(r)@),
{
    if r.coordinate == Coordinate::ExtendedSearch {
        handle_enter_extended_search(r, now)
    } else {
        enter_list_search(r)
    }
}

} // verus!
