//! What a search of everything below the position lists, and where it leads.

use vstd::prelude::*;

use crate::app_state;
use crate::app_state::{Coordinate, Ui};
use crate::elements;
use crate::enter_laws;
use crate::events;
use crate::events::OutsideView;
use crate::ffon;
use crate::ffon::Node;
use crate::fuzzy;
use crate::handlers;
use crate::list;
use crate::markup;
use crate::move_laws;
use crate::moves;
use crate::offsets;
use crate::provider::{OpView, StepView};
use crate::search;
use crate::shortcuts::Action;
use crate::text_laws;
use crate::tree_laws;
use crate::typing;

verus! {

/// Whether the place `a` comes before the place `b` when a tree is read from its
/// start: a branch before what is in it, and an element before those behind it.
pub open spec fn precedes(a: Seq<usize>, b: Seq<usize>) -> bool {
    exists|d: int|
        0 <= d <= a.len() && d < b.len() && #[trigger] a.take(d) == b.take(d) && (d == a.len()
            || a[d] < b[d])
}

/// Whether `id` is at or below a place in the layer of `base`.
pub open spec fn is_within(base: Seq<usize>, id: Seq<usize>) -> bool {
    base.len() > 0 && id.len() >= base.len() && id.take(base.len() - 1) == base.drop_last()
}

/// The names of the branches that `path` leads through from the depth `from` on,
/// each with an arrow behind it.
pub open spec fn trail(root: Seq<Node>, path: Seq<usize>, from: int) -> Seq<char>
    decreases path.len() - from,
{
    if from < 0 || from >= path.len() - 1 {
        Seq::empty()
    } else {
        let name = match ffon::element_at(root, path.take(from + 1)) {
            Some(n) => ffon::node_text(n),
            None => Seq::empty(),
        };
        markup::display_text(name) + " > "@ + trail(root, path, from + 1)
    }
}

/// Whether the branch that the element at `id` is in is a group of radio
/// buttons.
pub open spec fn in_group(root: Seq<Node>, id: Seq<usize>) -> bool {
    ffon::element_at(root, id.drop_last()) matches Some(n) && n is Obj && markup::is_radio(
        ffon::node_text(n),
    )
}

proof fn lemma_on_the_way(root: Seq<Node>, path: Seq<usize>, k: int)
    requires
        ffon::descend(root, path) is Some,
        0 <= k < path.len(),
    ensures
        ffon::descend(root, path.take(k)) matches Some(layer) && path[k] < layer.len()
            && layer[path[k] as int] is Obj && ffon::descend(root, path.take(k + 1)) == Some(
            layer[path[k] as int]->children,
        ),
    decreases path.len(),
{
    let o = root[path[0] as int];
    assert(path.take(k + 1).drop_first() =~= path.drop_first().take(k));
    if k == 0 {
        assert(path.take(0) =~= Seq::<usize>::empty());
        assert(path.drop_first().take(0) =~= Seq::<usize>::empty());
        assert(ffon::descend(o->children, Seq::<usize>::empty()) == Some(o->children));
    } else {
        assert(path.take(k).drop_first() =~= path.drop_first().take(k - 1));
        lemma_on_the_way(o->children, path.drop_first(), k - 1);
    }
}

/// What is on the way to an element.
proof fn lemma_way_to(root: Seq<Node>, id: Seq<usize>, k: int)
    requires
        ffon::element_at(root, id) is Some,
        0 <= k < id.len(),
    ensures
        ffon::descend(root, id.take(k)) matches Some(layer) && id[k] < layer.len() && (k < id.len()
            - 1 ==> layer[id[k] as int] is Obj),
{
    reveal(ffon::layer_of);
    let path = id.drop_last();
    if k < path.len() {
        lemma_on_the_way(root, path, k);
        assert(path.take(k) =~= id.take(k));
    } else {
        assert(id.take(k) =~= path);
    }
}

/// The items of a layer and of everything below it, up to the element `n`: each
/// is at or below a place in the layer, and they are in the order of the tree.
proof fn lemma_order(
    arr: Seq<Node>,
    base: Seq<usize>,
    crumb: Seq<char>,
    radio: bool,
    n: int,
)
    requires
        base.len() > 0,
        list::countable(arr),
        0 <= n <= arr.len(),
    ensures
        ({
            let rows = list::deep_items(arr, base, crumb, radio, n);
            &&& forall|j: int|
                0 <= j < rows.len() ==> is_within(base, (#[trigger] rows[j]).id)
                    && rows[j].id[base.len() - 1] < n
            &&& forall|j: int, k: int|
                0 <= j < k < rows.len() ==> precedes(
                    (#[trigger] rows[j]).id,
                    (#[trigger] rows[k]).id,
                )
        }),
    decreases arr, n,
{
    if n > 0 {
        lemma_order(arr, base, crumb, radio, n - 1);
        let e = arr[n - 1];
        let i = (n - 1) as usize;
        let b = base.len() - 1;
        let id = ffon::with_last(base, i);
        let before = list::deep_items(arr, base, crumb, radio, n - 1);
        let rows = list::deep_items(arr, base, crumb, radio, n);
        let m = before.len() as int;
        assert(id.take(b) =~= base.drop_last());
        assert(id.drop_last() =~= base.drop_last());
        let below = match e {
            Node::Obj { key, children } => {
                let c = crumb + markup::display_text(key) + " > "@;
                let g = markup::is_radio(key);
                lemma_order(children, id.push(0), c, g, children.len() as int);
                list::deep_items(children, id.push(0), c, g, children.len() as int)
            },
            Node::Str(_) => Seq::empty(),
        };
        assert(id.push(0).drop_last() =~= id);
        assert(rows.len() == m + 1 + below.len());
        assert(rows[m].id == id);
        assert forall|j: int| 0 <= j < rows.len() implies is_within(base, (#[trigger] rows[j]).id)
            && rows[j].id[b] < n && (j >= m ==> rows[j].id[b] == i && rows[j].id.take(base.len() as int)
            == id) && (j > m ==> rows[j].id.len() > base.len()) by {
            if j < m {
                assert(rows[j] == before[j]);
            } else if j == m {
                assert(id.take(base.len() as int) =~= id);
            } else {
                assert(rows[j] == below[j - m - 1]);
                let x = rows[j].id;
                assert(is_within(id.push(0), x));
                assert(x.take(base.len() as int) == id);
                assert(x.take(b) =~= x.take(base.len() as int).take(b));
                assert(x[b] == x.take(base.len() as int)[b]);
            }
        }
        assert forall|j: int, k: int| 0 <= j < k < rows.len() implies precedes(
            (#[trigger] rows[j]).id,
            (#[trigger] rows[k]).id,
        ) by {
            let x = rows[j].id;
            let y = rows[k].id;
            assert(is_within(base, x));
            assert(is_within(base, y));
            if k < m {
                assert(rows[j] == before[j] && rows[k] == before[k]);
            } else if j < m {
                assert(rows[j] == before[j]);
                assert(x.take(b) == y.take(b));
            } else if j == m {
                assert(x =~= y.take(base.len() as int));
                assert(x.take(base.len() as int) == y.take(base.len() as int));
            } else {
                assert(rows[j] == below[j - m - 1] && rows[k] == below[k - m - 1]);
            }
        }
    }
}

/// Every element at or below the first `n` of a layer has an item.
proof fn lemma_complete(
    root: Seq<Node>,
    arr: Seq<Node>,
    base: Seq<usize>,
    crumb: Seq<char>,
    radio: bool,
    n: int,
    id: Seq<usize>,
) -> (j: int)
    requires
        base.len() > 0,
        ffon::descend(root, base.drop_last()) == Some(arr),
        list::countable(arr),
        0 <= n <= arr.len(),
        is_within(base, id),
        id[base.len() - 1] < n,
        ffon::element_at(root, id) is Some,
    ensures
        0 <= j < list::deep_items(arr, base, crumb, radio, n).len(),
        list::deep_items(arr, base, crumb, radio, n)[j].id == id,
        list::deep_items(arr, base, crumb, radio, n)[j].label == list::node_label(
            ffon::element_at(root, id)->0,
            if id.len() == base.len() {
                radio
            } else {
                in_group(root, id)
            },
        ),
        ({
            let path = crumb + trail(root, id, base.len() - 1);
            list::deep_items(arr, base, crumb, radio, n)[j].data == if path.len() == 0 {
                None
            } else {
                Some(path)
            }
        }),
    decreases arr, n,
{
    let b = base.len() - 1;
    let i = (n - 1) as usize;
    let before = list::deep_items(arr, base, crumb, radio, n - 1);
    let rows = list::deep_items(arr, base, crumb, radio, n);
    let own = ffon::with_last(base, i);
    let e = arr[n - 1];
    assert(own.drop_last() =~= base.drop_last());
    if id[b] < n - 1 {
        let j = lemma_complete(root, arr, base, crumb, radio, n - 1, id);
        assert(rows[j] == before[j]);
        j
    } else if id.len() == base.len() {
        assert(id.drop_last() =~= id.take(b));
        assert forall|k: int| 0 <= k < id.len() implies own[k] == id[k] by {
            if k < b {
                assert(id[k] == id.take(b)[k]);
                assert(base[k] == base.drop_last()[k]);
            }
        }
        assert(own =~= id);
        assert(ffon::element_at(root, id) == Some(e)) by {
            reveal(ffon::layer_of);
        }
        assert(crumb + Seq::<char>::empty() =~= crumb);
        assert(rows[before.len() as int].id == id);
        before.len() as int
    } else {
        lemma_way_to(root, id, b);
        lemma_way_to(root, id, b + 1);
        assert(id.take(b + 1) =~= own);
        assert(own.drop_last().push(i) =~= own);
        ffon::lemma_descend_into(root, base.drop_last(), i, arr);
        let key = e->key;
        let children = e->children;
        let c = crumb + markup::display_text(key) + " > "@;
        let g = markup::is_radio(key);
        assert(own.push(0).drop_last() =~= own);
        assert(ffon::element_at(root, own) == Some(e)) by {
            reveal(ffon::layer_of);
        }
        let j = lemma_complete(
            root,
            children,
            own.push(0),
            c,
            g,
            children.len() as int,
            id,
        );
        let below = list::deep_items(children, own.push(0), c, g, children.len() as int);
        assert(rows[before.len() + 1 + j] == below[j]);
        assert(id.len() == base.len() + 1 ==> id.drop_last() =~= own);
        assert(trail(root, id, b) == markup::display_text(key) + " > "@ + trail(root, id, b + 1));
        assert(c + trail(root, id, b + 1) =~= crumb + trail(root, id, b));
        before.len() + 1 + j
    }
}

/// A search of everything below the position is complete: every element of the
/// tree that is at or below a place in the layer of the position, however deep,
/// has an item, with its label and the names of the branches above it.
pub proof fn law_search_list_is_complete(u: Ui, layer: Seq<Node>, id: Seq<usize>) -> (j: int)
    requires
        u.current_id.len() > 0,
        ffon::layer_of(u.ffon, u.current_id) == Some(layer),
        list::countable(layer),
        is_within(u.current_id, id),
        ffon::element_at(u.ffon, id) is Some,
    ensures
        ({
            let rows = list::search_listed(u).total_list;
            let path = trail(u.ffon, id, u.current_id.len() - 1);
            &&& 0 <= j < rows.len()
            &&& rows[j].id == id
            &&& rows[j].label == list::node_label(
                ffon::element_at(u.ffon, id)->0,
                id.len() > u.current_id.len() && in_group(u.ffon, id),
            )
            &&& rows[j].data == if path.len() == 0 {
                None
            } else {
                Some(path)
            }
        }),
{
    reveal(list::search_listed);
    reveal(ffon::layer_of);
    let b = u.current_id.len() - 1;
    lemma_way_to(u.ffon, id, b);
    let none = Seq::<char>::empty();
    assert(none + trail(u.ffon, id, b) =~= trail(u.ffon, id, b));
    lemma_complete(u.ffon, layer, u.current_id, none, false, layer.len() as int, id)
}

/// A search of everything below the position lists each place once, in the order
/// of the tree, and nothing outside of the layer of the position.
pub proof fn law_search_list_is_in_order(u: Ui, layer: Seq<Node>)
    requires
        u.current_id.len() > 0,
        ffon::layer_of(u.ffon, u.current_id) == Some(layer),
        list::countable(layer),
    ensures
        ({
            let rows = list::search_listed(u).total_list;
            &&& forall|j: int|
                0 <= j < rows.len() ==> is_within(u.current_id, (#[trigger] rows[j]).id)
            &&& forall|j: int, k: int|
                0 <= j < k < rows.len() ==> precedes(
                    (#[trigger] rows[j]).id,
                    (#[trigger] rows[k]).id,
                )
        }),
{
    reveal(list::search_listed);
    reveal(ffon::layer_of);
    lemma_order(layer, u.current_id, Seq::empty(), false, layer.len() as int);
}

/// The find key lists everything below the position: in the general mode it
/// starts a search, in which nothing is typed yet.
pub proof fn law_find_lists_everything_below(u: Ui, layer: Seq<Node>, id: Seq<usize>, o: OutsideView)
    requires
        u.coordinate is General,
        u.current_id.len() > 0,
        ffon::layer_of(u.ffon, u.current_id) == Some(layer),
        list::countable(layer),
        is_within(u.current_id, id),
        ffon::element_at(u.ffon, id) is Some,
    ensures
        ({
            let v = events::performed(u, Action::Find, o).0;
            &&& v.coordinate is ExtendedSearch
            &&& v.previous_coordinate == u.coordinate
            &&& v.input_buffer.len() == 0
            &&& v.cursor_position == 0
            &&& v.selection_anchor is None
            &&& v.filtered_list_indices.len() == 0
            &&& v.ffon == u.ffon
            &&& v.current_id == u.current_id
            &&& exists|j: int|
                0 <= j < v.total_list.len() && (#[trigger] v.total_list[j]).id == id
                    && v.total_list[j].label == list::node_label(
                    ffon::element_at(u.ffon, id)->0,
                    id.len() > u.current_id.len() && in_group(u.ffon, id),
                )
        }),
{
    reveal(events::performed);
    reveal(events::switched);
    reveal(handlers::after_find);
    reveal(moves::entered);
    reveal(moves::without_input);
    reveal(moves::unselected);
    reveal(moves::list_scrolled);
    reveal(moves::at_position);
    reveal(moves::tapped);
    reveal(moves::redrawn);
    let s = moves::list_scrolled(
        moves::unselected(moves::without_input(moves::entered(u, Coordinate::ExtendedSearch))),
        0,
    );
    let j = law_search_list_is_complete(s, layer, id);
    list::law_search_listing_keeps_the_rest(s);
    let v = events::performed(u, Action::Find, o).0;
    assert(v.total_list == list::search_listed(s).total_list);
    assert(v.filtered_list_indices.len() == 0) by {
        reveal(list::search_listed);
    }
    assert(v.total_list[j].id == id);
}

/// Whether the list shows what matches `q`: every item that matches, once, and
/// no other; the better match first, and of equal matches the one that is first
/// in the list. Where nothing is searched for everything is shown.
pub open spec fn shows_matches(v: Ui, q: Seq<char>) -> bool {
    let shown = v.filtered_list_indices;
    if q.len() == 0 {
        shown.len() == 0
    } else {
        &&& shown.no_duplicates()
        &&& forall|i: usize|
            #[trigger] shown.contains(i) <==> i < v.total_list.len() && fuzzy::label_match(
                q,
                v.total_list[i as int].label,
            ) is Some
        &&& forall|j: int, k: int|
            0 <= j < k < shown.len() ==> {
                let a = fuzzy::label_match(q, v.total_list[#[trigger] shown[j] as int].label)->0;
                let b = fuzzy::label_match(q, v.total_list[#[trigger] shown[k] as int].label)->0;
                a.0 > b.0 || a.0 == b.0 && shown[j] < shown[k]
            }
        &&& v.list_index < shown.len() || v.list_index == 0
    }
}

/// Building the list and searching it, in the modes that search.
proof fn lemma_searched(s: Ui)
    requires
        s.coordinate is SimpleSearch || s.coordinate is Command || s.coordinate is ExtendedSearch,
    ensures
        ({
            let v = moves::redrawn(typing::searched_again(s));
            &&& v.total_list.len() <= usize::MAX ==> shows_matches(v, text_laws::written(s))
            &&& text_laws::written(v) == text_laws::written(s)
            &&& v.ffon == s.ffon
            &&& v.current_id == s.current_id
            &&& v.coordinate == s.coordinate
            &&& s.coordinate is SimpleSearch ==> v.total_list == list::listed(s).total_list
        }),
{
    reveal(typing::searched_again);
    reveal(moves::redrawn);
    let q = text_laws::written(s);
    let l = if s.coordinate is ExtendedSearch {
        list::search_listed(s)
    } else {
        list::listed(s)
    };
    list::law_listing_keeps_the_rest(s);
    list::law_search_listing_keeps_the_rest(s);
    assert(typing::searched_again(s) == list::filtered(l, q));
    list::law_filtering_keeps_the_rest(l, q);
    reveal(list::filtered);
    if l.total_list.len() <= usize::MAX {
        list::law_search_shows_the_matches(l.total_list, q);
    }
}

/// What is typed in a search is what the list is searched for: the list shows
/// what matches.
pub proof fn law_typing_searches_the_list(
    u: Ui,
    a: Seq<char>,
    c: Seq<char>,
    t: Seq<char>,
    now: u64,
)
    requires
        u.coordinate is SimpleSearch || u.coordinate is ExtendedSearch,
        text_laws::written(u) == a + c,
        text_laws::cursor_behind(u, a),
        t.len() > 0,
        offsets::byte_len(a + t) <= usize::MAX,
        typing::after_input(u, t, now).total_list.len() <= usize::MAX,
    ensures
        ({
            let v = typing::after_input(u, t, now);
            &&& text_laws::written(v) == a + t + c
            &&& shows_matches(v, a + t + c)
            &&& v.ffon == u.ffon
            &&& v.current_id == u.current_id
        }),
{
    text_laws::law_typing_goes_in_at_the_cursor(u, a, c, t, now);
    let v = typing::after_input(u, t, now);
    reveal(typing::after_input);
    assert(v.ffon == u.ffon && v.current_id == u.current_id) by {
        reveal(text_laws::only_search_differs);
    }
    let s = typing::typed(u, t);
    assert(v == moves::redrawn(typing::searched_again(s)));
    assert(s.coordinate == u.coordinate) by {
        reveal(typing::typed);
    }
    lemma_searched(s);
}

/// Erasing in a search searches the list anew for what is left.
pub proof fn law_erasing_searches_the_list(
    u: Ui,
    a: Seq<char>,
    b: Seq<char>,
    c: Seq<char>,
    o: OutsideView,
)
    requires
        u.coordinate is SimpleSearch || u.coordinate is ExtendedSearch || u.coordinate is Command,
        text_laws::written(u) == a + b + c,
        b.len() == 1,
        text_laws::cursor_behind(u, a + b),
        events::performed(u, Action::Backspace, o).0.total_list.len() <= usize::MAX,
    ensures
        ({
            let v = events::performed(u, Action::Backspace, o).0;
            &&& text_laws::written(v) == a + c
            &&& shows_matches(v, a + c)
        }),
{
    text_laws::law_backspace_erases(u, a, b, c, o);
    let v = events::performed(u, Action::Backspace, o).0;
    text_laws::lemma_parts(a, b, c);
    assert(u.cursor_position > 0);
    let s = if u.coordinate is SimpleSearch {
        typing::search_backspaced(u)
    } else {
        moves::touched(typing::backspaced(u), o.now)
    };
    assert(v == moves::redrawn(typing::searched_again(s))) by {
        reveal(events::performed);
        reveal(events::erased);
        reveal(typing::after_backspace);
    }
    assert(s.coordinate == u.coordinate) by {
        reveal(typing::search_backspaced);
        reveal(typing::backspaced);
        reveal(moves::touched);
    }
    lemma_searched(s);
}

/// A search of the list lists the layer of the position: an item for each
/// element, in its order.
pub proof fn law_search_lists_the_layer(u: Ui, layer: Seq<Node>, o: OutsideView)
    requires
        u.coordinate is General,
        !u.pending_file_browser_open,
        u.current_id.len() > 0,
        ffon::layer_of(u.ffon, u.current_id) == Some(layer),
        layer.len() <= usize::MAX,
    ensures
        ({
            let v = events::performed(u, Action::Tab, o).0;
            &&& v.total_list.len() == layer.len()
            &&& v.filtered_list_indices.len() == 0
            &&& forall|i: int|
                0 <= i < layer.len() ==> (#[trigger] v.total_list[i]).id == move_laws::sibling(
                    u.current_id,
                    i,
                )
        }),
{
    let s = moves::with_cursor(
        moves::without_search(moves::entered(u, Coordinate::SimpleSearch)),
        0,
    );
    let v = events::performed(u, Action::Tab, o).0;
    assert(v == moves::redrawn(list::listed(s))) by {
        reveal(events::performed);
        reveal(events::switched);
        reveal(handlers::search_started);
    }
    assert(s.ffon == u.ffon && s.current_id == u.current_id && s.coordinate
        == Coordinate::SimpleSearch && s.search_string.len() == 0 && !s.pending_file_browser_open)
        by {
        reveal(moves::entered);
        reveal(moves::without_search);
        reveal(moves::with_cursor);
    }
    reveal(moves::redrawn);
    reveal(list::listed);
    reveal(list::layer_listed);
    let radio = list::radio_above(s.ffon, s.current_id);
    list::law_list_shows_the_layer(layer, s.current_id, radio, layer.len() as int);
    assert forall|i: int| 0 <= i < layer.len() implies (#[trigger] v.total_list[i]).id
        == move_laws::sibling(u.current_id, i) by {
        move_laws::lemma_sibling(u.ffon, u.current_id, i as usize);
    }
}

/// Whether the element at `id` is one to go to: it holds no tags, and it is not
/// in a group of buttons.
pub open spec fn is_plain_at(tree: Seq<Node>, id: Seq<usize>, n: Node) -> bool {
    &&& ffon::element_at(tree, id) == Some(n)
    &&& enter_laws::untagged(ffon::node_text(n))
    &&& forall|d: int|
        1 <= d < id.len() ==> (ffon::element_at(tree, #[trigger] id.take(d)) matches Some(m)
            && !markup::is_radio(ffon::node_text(m)))
}

proof fn lemma_plain(u: Ui, id: Seq<usize>, n: Node, extended: bool)
    requires
        is_plain_at(u.ffon, id, n),
    ensures
        search::found_used(u, id, extended) is None,
        search::blocking(u.ffon, id, 1) is None,
{
    enter_laws::lemma_focused_at(u.ffon, id, n);
    enter_laws::lemma_no_box_here(ffon::node_text(n));
    reveal(search::found_used);
    assert(elements::radio_chosen(u.ffon, id) is None) by {
        reveal(elements::radio_chosen);
        if id.len() >= 2 {
            let up = id.take(id.len() - 1);
            assert(up =~= id.drop_last());
            enter_laws::lemma_focused_at(u.ffon, up, ffon::element_at(u.ffon, up)->0);
        }
    }
    lemma_not_blocked(u.ffon, id, 1);
}

proof fn lemma_not_blocked(tree: Seq<Node>, id: Seq<usize>, d: int)
    requires
        1 <= d,
        forall|d: int|
            1 <= d < id.len() ==> (ffon::element_at(tree, #[trigger] id.take(d)) matches Some(m)
                && !markup::is_radio(ffon::node_text(m))),
    ensures
        search::blocking(tree, id, d) is None,
    decreases id.len() - d,
{
    if d < id.len() - 1 {
        let up = id.take(d + 1);
        enter_laws::lemma_focused_at(tree, up, ffon::element_at(tree, up)->0);
        lemma_not_blocked(tree, id, d + 1);
    }
}

/// The enter key in a search goes to the element of the selected item; the
/// search is over and forgotten then, and the tree is as it was.
pub proof fn law_enter_goes_to_what_was_found(u: Ui, id: Seq<usize>, n: Node, o: OutsideView)
    requires
        u.coordinate is SimpleSearch || u.coordinate is ExtendedSearch,
        move_laws::item_shown(u) matches Some(item) && item.id == id && item.nav_path is None,
        is_plain_at(u.ffon, id, n),
    ensures
        ({
            let (v, effects) = events::performed(u, Action::EnterSearch, o);
            &&& v.current_id == id
            &&& v.ffon == u.ffon
            &&& v.coordinate == u.previous_coordinate
            &&& u.coordinate is SimpleSearch ==> v.search_string.len() == 0
            &&& u.coordinate is ExtendedSearch ==> v.input_buffer.len() == 0
            &&& effects.step == StepView::Done
        }),
{
    let extended = u.coordinate is ExtendedSearch;
    let item = move_laws::item_shown(u)->0;
    assert(app_state::selected_item(u) == Some(item));
    lemma_plain(u, id, n, extended);
    let p = moves::placed(u, id);
    let e = if extended {
        moves::without_input(moves::left_mode(p))
    } else {
        moves::without_search(moves::left_mode(p))
    };
    assert(e.current_id == id && e.ffon == u.ffon && e.coordinate == u.previous_coordinate && (
    extended ==> e.input_buffer.len() == 0) && (!extended ==> e.search_string.len() == 0)) by {
        reveal(moves::placed);
        reveal(moves::left_mode);
        reveal(moves::without_input);
        reveal(moves::without_search);
    }
    let l = list::listed(e);
    list::law_listing_keeps_the_rest(e);
    assert(search::search_closed(p, extended) == l) by {
        reveal(search::search_closed);
    }
    let v = if extended {
        search::found_below(u, id)
    } else {
        search::found_at(u, id)
    };
    assert(events::performed(u, Action::EnterSearch, o) == (v, events::only(StepView::Done))) by {
        reveal(events::performed);
        reveal(events::entered);
        reveal(search::list_search_entered);
        reveal(search::deep_search_entered);
        reveal(search::item_reached);
    }
    reveal(search::at_position_or_last);
    reveal(moves::at_item);
    reveal(moves::list_scrolled);
    reveal(moves::redrawn);
}

/// Where the search was started from moving about, the element that was found is
/// selected in its layer.
pub proof fn law_what_was_found_is_selected(
    u: Ui,
    id: Seq<usize>,
    layer: Seq<Node>,
    n: Node,
    o: OutsideView,
)
    requires
        u.coordinate is SimpleSearch || u.coordinate is ExtendedSearch && u.search_string.len()
            == 0,
        u.previous_coordinate is General,
        !u.pending_file_browser_open,
        move_laws::item_shown(u) matches Some(item) && item.id == id && item.nav_path is None,
        is_plain_at(u.ffon, id, n),
        ffon::layer_of(u.ffon, id) == Some(layer),
        layer.len() <= usize::MAX,
    ensures
        move_laws::is_at(events::performed(u, Action::EnterSearch, o).0, id, n),
{
    let extended = u.coordinate is ExtendedSearch;
    let item = move_laws::item_shown(u)->0;
    assert(app_state::selected_item(u) == Some(item));
    lemma_plain(u, id, n, extended);
    let p = moves::placed(u, id);
    let e = if extended {
        moves::without_input(moves::left_mode(p))
    } else {
        moves::without_search(moves::left_mode(p))
    };
    assert(e.current_id == id && e.ffon == u.ffon && e.coordinate == u.previous_coordinate
        && e.search_string.len() == 0 && !e.pending_file_browser_open) by {
        reveal(moves::placed);
        reveal(moves::left_mode);
        reveal(moves::without_input);
        reveal(moves::without_search);
    }
    let l = list::listed(e);
    list::law_listing_keeps_the_rest(e);
    lemma_layer_listed(e, layer);
    assert(search::search_closed(p, extended) == l) by {
        reveal(search::search_closed);
    }
    let v = if extended {
        search::found_below(u, id)
    } else {
        search::found_at(u, id)
    };
    assert(events::performed(u, Action::EnterSearch, o) == (v, events::only(StepView::Done))) by {
        reveal(events::performed);
        reveal(events::entered);
        reveal(search::list_search_entered);
        reveal(search::deep_search_entered);
        reveal(search::item_reached);
    }
    assert(id.len() > 0) by {
        reveal(ffon::layer_of);
    }
    assert(v.current_id == id && v.ffon == u.ffon && v.total_list == l.total_list
        && v.filtered_list_indices == l.filtered_list_indices && v.list_index == id.last()) by {
        reveal(search::at_position_or_last);
        reveal(moves::at_item);
        reveal(moves::list_scrolled);
        reveal(moves::redrawn);
    }
    move_laws::lemma_sibling(u.ffon, id, id.last());
    assert(v.total_list[id.last() as int].id == move_laws::sibling(id, id.last() as int));
}

/// The list of a layer that is shown as it is.
proof fn lemma_layer_listed(e: Ui, layer: Seq<Node>)
    requires
        e.coordinate is General,
        e.search_string.len() == 0,
        !e.pending_file_browser_open,
        ffon::layer_of(e.ffon, e.current_id) == Some(layer),
        layer.len() <= usize::MAX,
    ensures
        ({
            let l = list::listed(e);
            &&& l.total_list.len() == layer.len()
            &&& l.filtered_list_indices.len() == 0
            &&& forall|i: int|
                0 <= i < layer.len() ==> (#[trigger] l.total_list[i]).id == move_laws::sibling(
                    e.current_id,
                    i,
                )
        }),
{
    reveal(list::listed);
    reveal(list::layer_listed);
    assert(e.current_id.len() > 0) by {
        reveal(ffon::layer_of);
    }
    let radio = list::radio_above(e.ffon, e.current_id);
    list::law_list_shows_the_layer(layer, e.current_id, radio, layer.len() as int);
    let l = list::listed(e);
    assert forall|i: int| 0 <= i < layer.len() implies (#[trigger] l.total_list[i]).id
        == move_laws::sibling(e.current_id, i) by {
        move_laws::lemma_sibling(e.ffon, e.current_id, i as usize);
    }
}

/// The enter key on a box that was found checks it, or unchecks it, and tells
/// the provider; the search goes on.
pub proof fn law_enter_checks_a_box_that_was_found(
    u: Ui,
    id: Seq<usize>,
    layer: Seq<Node>,
    checked: bool,
    label: Seq<char>,
    o: OutsideView,
)
    requires
        u.coordinate is SimpleSearch,
        move_laws::item_shown(u) matches Some(item) && item.id == id,
        id.len() > 0,
        ffon::layer_of(u.ffon, id) == Some(layer),
        id.last() < layer.len(),
        ffon::node_text(layer[id.last() as int]) == enter_laws::box_text(checked, label),
        enter_laws::untagged(label),
    ensures
        ({
            let (v, effects) = events::performed(u, Action::EnterSearch, o);
            let i = id.last() as int;
            let changed = enter_laws::with_text(
                layer[i],
                enter_laws::box_text(!checked, label),
            );
            &&& tree_laws::differ_at(
                u.ffon,
                v.ffon,
                id.drop_last(),
                layer,
                layer.update(i, changed),
            )
            &&& v.coordinate == u.coordinate
            &&& v.search_string == u.search_string
            &&& v.current_id == u.current_id
            &&& effects.step matches StepView::Ask { ops, .. } && ops == seq![
                OpView::CheckboxChange { label, checked: !checked },
            ]
        }),
{
    let i = id.last() as int;
    let item = move_laws::item_shown(u)->0;
    assert(app_state::selected_item(u) == Some(item));
    enter_laws::lemma_focused_at(u.ffon, id, layer[i]);
    enter_laws::lemma_box(checked, label);
    enter_laws::lemma_box(!checked, label);
    let changed = enter_laws::with_text(layer[i], enter_laws::box_text(!checked, label));
    tree_laws::lemma_layered(u.ffon, id, layer, layer.update(i, changed));
    reveal(events::performed);
    reveal(events::entered);
    reveal(search::list_search_entered);
    reveal(search::found_used);
    reveal(moves::replaced_at);
}

/// In a list the page keys move the selection by a page, and not over its ends.
pub proof fn law_page_keys_move_through_the_list(u: Ui, o: OutsideView)
    requires
        u.coordinate is SimpleSearch || u.coordinate is ExtendedSearch || u.coordinate is Command,
        u.total_list.len() <= usize::MAX,
        u.filtered_list_indices.len() <= usize::MAX,
    ensures
        ({
            let v = events::performed(u, Action::PageUp, o).0;
            &&& v.list_index == if u.list_index > move_laws::page_of(u) {
                u.list_index - move_laws::page_of(u)
            } else {
                0
            }
            &&& v.coordinate == u.coordinate
            &&& v.total_list == u.total_list
            &&& v.filtered_list_indices == u.filtered_list_indices
        }),
        ({
            let v = events::performed(u, Action::PageDown, o).0;
            let n = if u.filtered_list_indices.len() > 0 {
                u.filtered_list_indices.len()
            } else {
                u.total_list.len()
            };
            &&& n > 0 ==> v.list_index == if u.list_index + move_laws::page_of(u) < n {
                u.list_index + move_laws::page_of(u)
            } else {
                n - 1
            }
            &&& v.coordinate == u.coordinate
            &&& v.total_list == u.total_list
            &&& v.filtered_list_indices == u.filtered_list_indices
        }),
{
    reveal(events::performed);
    reveal(events::moved);
    reveal(handlers::after_page_up);
    reveal(handlers::after_page_down);
    assert(handlers::page_size(u) == move_laws::page_of(u));
    reveal(moves::redrawn);
    reveal(moves::list_scrolled);
    reveal(moves::at_item);
    reveal(moves::without_error);
}

} // verus!
