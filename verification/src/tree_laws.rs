//! What the keys that edit the tree do to it, and that a step back takes it back.

use vstd::prelude::*;

use crate::app_state;
use crate::app_state::{Coordinate, History, Task, Ui};
use crate::disk_laws;
use crate::events;
use crate::events::{EffectsView, OutsideView};
use crate::ffon;
use crate::ffon::Node;
use crate::files;
use crate::handlers;
use crate::history;
use crate::laws;
use crate::list;
use crate::move_laws;
use crate::moves;
use crate::provider;
use crate::provider::{OpView, ReplyView, StepView, ThenView};
use crate::resume;
use crate::shortcuts::Action;
use crate::state;
use crate::timeline::{EntryView, NavKind};

verus! {

/// The element that the indices of `id` lead to, one layer after the other.
pub open spec fn found(tree: Seq<Node>, id: Seq<usize>) -> Option<Node>
    decreases id.len(),
{
    if id.len() == 0 || id[0] >= tree.len() {
        None
    } else if id.len() == 1 {
        Some(tree[id[0] as int])
    } else {
        match tree[id[0] as int] {
            Node::Obj { children, .. } => found(children, id.drop_first()),
            Node::Str(_) => None,
        }
    }
}

/// Whether `a` and `b` differ in the layer below `path` alone, which is `before`
/// in `a` and `after` in `b`.
pub open spec fn differ_at(
    a: Seq<Node>,
    b: Seq<Node>,
    path: Seq<usize>,
    before: Seq<Node>,
    after: Seq<Node>,
) -> bool
    decreases path.len(),
{
    if path.len() == 0 {
        a == before && b == after
    } else {
        let i = path[0] as int;
        &&& a.len() == b.len()
        &&& i < a.len()
        &&& forall|j: int| 0 <= j < a.len() && j != i ==> a[j] == b[j]
        &&& match (a[i], b[i]) {
            (Node::Obj { key: k, children: c }, Node::Obj { key: l, children: d }) => k == l
                && differ_at(c, d, path.drop_first(), before, after),
            _ => false,
        }
    }
}

/// An element is where the indices of its place lead to.
pub proof fn law_element_is_found(tree: Seq<Node>, id: Seq<usize>)
    ensures
        ffon::element_at(tree, id) == found(tree, id),
    decreases id.len(),
{
    reveal(ffon::layer_of);
    if id.len() == 1 {
        assert(id.drop_last() =~= Seq::<usize>::empty());
    } else if id.len() > 1 {
        let p = id.drop_last();
        if id[0] < tree.len() && tree[id[0] as int] is Obj {
            law_element_is_found(tree[id[0] as int]->children, id.drop_first());
            assert(id.drop_first().drop_last() =~= p.drop_first());
        }
    }
}

proof fn lemma_grafted(tree: Seq<Node>, path: Seq<usize>, before: Seq<Node>, after: Seq<Node>)
    requires
        ffon::descend(tree, path) == Some(before),
    ensures
        differ_at(tree, ffon::graft(tree, path, after), path, before, after),
    decreases path.len(),
{
    if path.len() > 0 {
        lemma_grafted(tree[path[0] as int]->children, path.drop_first(), before, after);
    }
}

/// A tree with the layer of `id` replaced.
pub(crate) proof fn lemma_layered(tree: Seq<Node>, id: Seq<usize>, before: Seq<Node>, after: Seq<Node>)
    requires
        ffon::layer_of(tree, id) == Some(before),
    ensures
        id.len() > 0,
        differ_at(tree, ffon::with_layer(tree, id, after), id.drop_last(), before, after),
        ffon::layer_of(ffon::with_layer(tree, id, after), id) == Some(after),
{
    reveal(ffon::layer_of);
    lemma_grafted(tree, id.drop_last(), before, after);
    ffon::law_graft_descend(tree, id.drop_last(), after);
}

/// A key that does a task and shows the tree again.
proof fn lemma_shown(u: Ui, task: Task, now: u64)
    ensures
        ({
            let t = state::tasked(u, task, History::NoHistory, now);
            let v = moves::redrawn(state::updated(u, task, History::NoHistory, now));
            &&& v.ffon == t.ffon
            &&& v.current_id == t.current_id
            &&& v.tab_timelines == t.tab_timelines
            &&& v.active_tab == u.active_tab
            &&& v.coordinate == u.coordinate
            &&& v.clipboard == u.clipboard
            &&& v.in_history_action == u.in_history_action
            &&& v.needs_redraw
        }),
{
    let t = state::tasked(u, task, History::NoHistory, now);
    list::law_listing_keeps_the_rest(t);
    reveal(moves::redrawn);
    assert(t.active_tab == u.active_tab && t.coordinate == u.coordinate && t.clipboard
        == u.clipboard && t.in_history_action == u.in_history_action) by {
        reveal(state::tasked);
    }
}

/// A key that does a task shows the element that the position is at then.
proof fn lemma_shown_at(u: Ui, task: Task, n: Node, now: u64)
    requires
        u.coordinate is General,
        move_laws::shows_all(u),
        ({
            let t = state::tasked(u, task, History::NoHistory, now);
            &&& ffon::element_at(t.ffon, t.current_id) == Some(n)
            &&& ffon::layer_len(t.ffon, t.current_id) <= usize::MAX
        }),
    ensures
        ({
            let t = state::tasked(u, task, History::NoHistory, now);
            move_laws::is_at(
                moves::redrawn(state::updated(u, task, History::NoHistory, now)),
                t.current_id,
                n,
            )
        }),
{
    let t = state::tasked(u, task, History::NoHistory, now);
    assert(t.coordinate == u.coordinate && t.search_string == u.search_string
        && t.pending_file_browser_open == u.pending_file_browser_open) by {
        reveal(state::tasked);
    }
    move_laws::lemma_listed_at(t, n);
    reveal(moves::redrawn);
}

/// A task that puts in an empty element, as the tree shows it.
proof fn lemma_put(u: Ui, task: Task, layer: Seq<Node>, i: int, now: u64)
    requires
        laws::can_be_undone(u, task),
        state::makes_room(task),
        move_laws::shows_all(u),
        ffon::layer_of(u.ffon, u.current_id) == Some(layer),
        layer.len() < usize::MAX,
        i == laws::room_place(u, task).last(),
    ensures
        ({
            let v = moves::redrawn(state::updated(u, task, History::NoHistory, now));
            let empty = Node::Str(Seq::empty());
            &&& differ_at(u.ffon, v.ffon, u.current_id.drop_last(), layer, layer.insert(i, empty))
            &&& move_laws::is_at(v, move_laws::sibling(u.current_id, i), empty)
            &&& v.coordinate == u.coordinate
            &&& v.clipboard == u.clipboard
        }),
{
    let at = laws::room_place(u, task);
    let empty = Node::Str(Seq::<char>::empty());
    let id = u.current_id;
    laws::lemma_room(u, task, now);
    lemma_shown(u, task, now);
    move_laws::lemma_sibling(u.ffon, id, at.last());
    assert(at =~= move_laws::sibling(id, i));
    assert(at.drop_last() =~= id.drop_last());
    lemma_layered(u.ffon, id, layer, layer.insert(i, empty));
    let t = state::tasked(u, task, History::NoHistory, now);
    assert(t.ffon == ffon::with_layer(u.ffon, id, layer.insert(i, empty)));
    move_laws::lemma_sibling(t.ffon, id, at.last());
    lemma_shown_at(u, task, empty, now);
}

/// The append key puts an empty element behind the current one, and goes to it.
pub proof fn law_append_puts_an_empty_element_behind(u: Ui, layer: Seq<Node>, o: OutsideView)
    requires
        laws::can_be_undone(u, Task::Append),
        move_laws::shows_all(u),
        ffon::layer_of(u.ffon, u.current_id) == Some(layer),
        layer.len() < usize::MAX,
    ensures
        ({
            let v = events::performed(u, Action::Append, o).0;
            let i = u.current_id.last() + 1;
            let empty = Node::Str(Seq::empty());
            &&& differ_at(u.ffon, v.ffon, u.current_id.drop_last(), layer, layer.insert(i, empty))
            &&& move_laws::is_at(v, move_laws::sibling(u.current_id, i), empty)
            &&& v.coordinate == u.coordinate
            &&& v.clipboard == u.clipboard
        }),
{
    reveal(events::performed);
    reveal(events::edited);
    reveal(handlers::after_append);
    assert(u.current_id.last() + 1 <= layer.len()) by {
        reveal(ffon::layer_of);
    }
    assert(laws::room_place(u, Task::Append).last() == u.current_id.last() + 1);
    lemma_put(u, Task::Append, layer, u.current_id.last() + 1, o.now);
}

/// The insert key puts an empty element before the current one, and goes to it.
pub proof fn law_insert_puts_an_empty_element_before(u: Ui, layer: Seq<Node>, o: OutsideView)
    requires
        laws::can_be_undone(u, Task::Insert),
        move_laws::shows_all(u),
        ffon::layer_of(u.ffon, u.current_id) == Some(layer),
        layer.len() < usize::MAX,
        o.now - u.last_keypress_time > 400,
    ensures
        ({
            let (v, effects) = events::performed(u, Action::InsertElement, o);
            let i = u.current_id.last() as int;
            let empty = Node::Str(Seq::empty());
            &&& differ_at(u.ffon, v.ffon, u.current_id.drop_last(), layer, layer.insert(i, empty))
            &&& move_laws::is_at(v, u.current_id, empty)
            &&& v.coordinate == u.coordinate
            &&& v.clipboard == u.clipboard
            &&& v.last_keypress_time == o.now
            &&& !effects.insert_first
        }),
{
    reveal(events::performed);
    reveal(history::after_insert_key);
    reveal(moves::tapped);
    reveal(moves::redrawn);
    lemma_put(u, Task::Insert, layer, u.current_id.last() as int, o.now);
    move_laws::lemma_sibling(u.ffon, u.current_id, u.current_id.last());
}

/// After a second tap on the insert key an empty element is put first in the
/// layer, and the position is at it.
pub proof fn law_second_tap_puts_an_empty_element_first(u: Ui, layer: Seq<Node>, tap: u64, now: u64)
    requires
        laws::can_be_undone(u, Task::InsertInsert),
        move_laws::shows_all(u),
        ffon::layer_of(u.ffon, u.current_id) == Some(layer),
        layer.len() < usize::MAX,
    ensures
        ({
            let v = history::first_inserted(u, tap, now);
            let empty = Node::Str(Seq::empty());
            &&& differ_at(u.ffon, v.ffon, u.current_id.drop_last(), layer, layer.insert(0, empty))
            &&& move_laws::is_at(v, move_laws::sibling(u.current_id, 0), empty)
            &&& v.coordinate == u.coordinate
            &&& v.last_keypress_time == tap
        }),
{
    reveal(history::first_inserted);
    reveal(moves::tapped);
    reveal(moves::redrawn);
    lemma_put(u, Task::InsertInsert, layer, 0, now);
}

/// A task that takes an element out of a layer with others.
proof fn lemma_taken(u: Ui, task: Task, layer: Seq<Node>, now: u64)
    requires
        task == Task::Delete || task == Task::Cut,
        u.coordinate is General,
        move_laws::shows_all(u),
        u.current_id.len() > 0,
        ffon::layer_of(u.ffon, u.current_id) == Some(layer),
        u.current_id.last() < layer.len(),
        1 < layer.len() <= usize::MAX,
    ensures
        ({
            let v = moves::redrawn(state::updated(u, task, History::NoHistory, now));
            let i = u.current_id.last() as int;
            let to = if i > 0 {
                i - 1
            } else {
                0
            };
            &&& differ_at(u.ffon, v.ffon, u.current_id.drop_last(), layer, layer.remove(i))
            &&& move_laws::is_at(v, move_laws::sibling(u.current_id, to), layer.remove(i)[to])
            &&& v.coordinate == u.coordinate
            &&& v.clipboard == u.clipboard
        }),
{
    let id = u.current_id;
    let i = id.last() as int;
    let to = if i > 0 {
        i - 1
    } else {
        0
    };
    let rest = layer.remove(i);
    laws::lemma_root_not_empty(u.ffon, id);
    laws::lemma_tasked(u, task, now);
    lemma_shown(u, task, now);
    lemma_layered(u.ffon, id, layer, rest);
    move_laws::lemma_sibling(u.ffon, id, to as usize);
    let t = state::tasked(u, task, History::NoHistory, now);
    assert(t.ffon == ffon::with_layer(u.ffon, id, rest));
    assert(t.current_id == move_laws::sibling(id, to));
    move_laws::lemma_sibling(t.ffon, id, to as usize);
    lemma_shown_at(u, task, rest[to], now);
}

/// The delete key takes the current element out of its layer, and no other; the
/// position is at the element before it, or at the first one.
pub proof fn law_delete_takes_the_element_out(u: Ui, layer: Seq<Node>, o: OutsideView)
    requires
        u.coordinate is General,
        move_laws::shows_all(u),
        u.current_id.len() > 0,
        ffon::layer_of(u.ffon, u.current_id) == Some(layer),
        u.current_id.last() < layer.len(),
        1 < layer.len() <= usize::MAX,
    ensures
        ({
            let v = events::performed(u, Action::DeleteElement, o).0;
            let i = u.current_id.last() as int;
            let to = if i > 0 {
                i - 1
            } else {
                0
            };
            &&& differ_at(u.ffon, v.ffon, u.current_id.drop_last(), layer, layer.remove(i))
            &&& move_laws::is_at(v, move_laws::sibling(u.current_id, to), layer.remove(i)[to])
            &&& v.coordinate == u.coordinate
            &&& v.clipboard == u.clipboard
        }),
{
    reveal(events::performed);
    reveal(events::edited);
    reveal(handlers::after_delete);
    lemma_taken(u, Task::Delete, layer, o.now);
}

/// A layer in a branch is not left empty: where its only element is deleted an
/// empty one is put in its place.
pub proof fn law_delete_leaves_no_empty_layer(u: Ui, n: Node, o: OutsideView)
    requires
        u.coordinate is General,
        move_laws::shows_all(u),
        u.current_id.len() > 1,
        u.current_id.last() == 0,
        ffon::layer_of(u.ffon, u.current_id) == Some(seq![n]),
    ensures
        ({
            let v = events::performed(u, Action::DeleteElement, o).0;
            let empty = if state::in_editor(u) {
                Node::Str(Seq::empty())
            } else {
                Node::Str("<input></input>"@)
            };
            &&& differ_at(u.ffon, v.ffon, u.current_id.drop_last(), seq![n], seq![empty])
            &&& move_laws::is_at(v, u.current_id, empty)
            &&& v.coordinate == u.coordinate
        }),
{
    reveal(events::performed);
    reveal(events::edited);
    reveal(handlers::after_delete);
    let id = u.current_id;
    let layer = seq![n];
    let empty = if state::in_editor(u) {
        Node::Str(Seq::<char>::empty())
    } else {
        Node::Str("<input></input>"@)
    };
    let none = Seq::<Node>::empty();
    laws::lemma_root_not_empty(u.ffon, id);
    laws::lemma_tasked(u, Task::Delete, o.now);
    lemma_shown(u, Task::Delete, o.now);
    lemma_layered(u.ffon, id, layer, none);
    assert(layer.remove(0) =~= none);
    let t = state::tasked(u, Task::Delete, History::NoHistory, o.now);
    assert(none.insert(0, empty) =~= seq![empty]);
    assert(ffon::descend(u.ffon, id.drop_last()) is Some) by {
        reveal(ffon::layer_of);
    }
    ffon::law_graft_graft(u.ffon, id.drop_last(), none, seq![empty]);
    lemma_layered(u.ffon, id, layer, seq![empty]);
    move_laws::lemma_sibling(u.ffon, id, 0);
    assert(ffon::with_last(id, 0) =~= id);
    assert(t.ffon == ffon::with_layer(u.ffon, id, seq![empty])) by {
        reveal(ffon::layer_of);
    }
    assert(t.current_id == id);
    lemma_shown_at(u, Task::Delete, empty, o.now);
}

/// The selected element goes to the clipboard.
proof fn lemma_clipped(u: Ui, n: Node)
    requires
        move_laws::is_at(u, u.current_id, n),
    ensures
        files::element_clipped(u) == moves::with_clipboard(u, Some(n)),
        ({
            let c = files::element_clipped(u);
            &&& c.clipboard == Some(n)
            &&& c.ffon == u.ffon
            &&& c.current_id == u.current_id
            &&& c.coordinate == u.coordinate
            &&& c.providers == u.providers
            &&& c.search_string == u.search_string
            &&& c.pending_file_browser_open == u.pending_file_browser_open
            &&& c.tab_timelines == u.tab_timelines
            &&& c.active_tab == u.active_tab
            &&& c.tabs == u.tabs
            &&& c.in_history_action == u.in_history_action
        }),
{
    reveal(files::element_clipped);
    reveal(moves::with_clipboard);
    assert(app_state::selected_item(u) == move_laws::item_shown(u));
    laws::lemma_root_not_empty(u.ffon, u.current_id);
}

/// In the editor the copy key puts the current element on the clipboard and
/// leaves the tree as it is; the paste key puts what is on the clipboard in
/// place of the current element; and the cut key puts the current element on
/// the clipboard and takes it out.
pub proof fn law_elements_are_copied_cut_and_pasted(
    u: Ui,
    layer: Seq<Node>,
    n: Node,
    clip: Node,
    o: OutsideView,
)
    requires
        u.coordinate is General,
        state::in_editor(u),
        move_laws::shows_all(u),
        move_laws::is_at(u, u.current_id, n),
        ffon::layer_of(u.ffon, u.current_id) == Some(layer),
        layer.len() <= usize::MAX,
    ensures
        ({
            let v = events::performed(u, Action::Copy, o).0;
            &&& v.clipboard == Some(n)
            &&& v.ffon == u.ffon
            &&& v.current_id == u.current_id
            &&& v.coordinate == u.coordinate
        }),
        u.clipboard == Some(clip) ==> {
            let v = events::performed(u, Action::Paste, o).0;
            let i = u.current_id.last() as int;
            &&& differ_at(u.ffon, v.ffon, u.current_id.drop_last(), layer, layer.update(i, clip))
            &&& move_laws::is_at(v, u.current_id, clip)
            &&& v.clipboard == u.clipboard
            &&& v.coordinate == u.coordinate
        },
        layer.len() > 1 ==> {
            let v = events::performed(u, Action::Cut, o).0;
            let i = u.current_id.last() as int;
            let to = if i > 0 {
                i - 1
            } else {
                0
            };
            &&& v.clipboard == Some(n)
            &&& differ_at(u.ffon, v.ffon, u.current_id.drop_last(), layer, layer.remove(i))
            &&& move_laws::is_at(v, move_laws::sibling(u.current_id, to), layer.remove(i)[to])
            &&& v.coordinate == u.coordinate
        },
{
    reveal(events::performed);
    reveal(events::edited);
    reveal(files::after_copy);
    reveal(files::after_cut);
    reveal(files::after_paste);
    let id = u.current_id;
    laws::lemma_root_not_empty(u.ffon, id);
    lemma_clipped(u, n);
    assert(events::performed(u, Action::Copy, o).0 == moves::redrawn(files::element_clipped(u)));
    assert(moves::redrawn(files::element_clipped(u)).clipboard == Some(n) && moves::redrawn(
        files::element_clipped(u),
    ).ffon == u.ffon && moves::redrawn(files::element_clipped(u)).current_id == id
        && moves::redrawn(files::element_clipped(u)).coordinate == u.coordinate) by {
        reveal(moves::redrawn);
    }
    if u.clipboard == Some(clip) {
        lemma_pasted(u, layer, clip, o.now);
    }
    if layer.len() > 1 {
        lemma_taken(files::element_clipped(u), Task::Cut, layer, o.now);
    }
}

/// The task that puts the clipboard in place of an element.
proof fn lemma_pasted(u: Ui, layer: Seq<Node>, clip: Node, now: u64)
    requires
        u.coordinate is General,
        move_laws::shows_all(u),
        u.current_id.len() > 0,
        ffon::layer_of(u.ffon, u.current_id) == Some(layer),
        u.current_id.last() < layer.len() <= usize::MAX,
        u.clipboard == Some(clip),
    ensures
        ({
            let v = moves::redrawn(state::updated(u, Task::Paste, History::NoHistory, now));
            let i = u.current_id.last() as int;
            &&& differ_at(u.ffon, v.ffon, u.current_id.drop_last(), layer, layer.update(i, clip))
            &&& move_laws::is_at(v, u.current_id, clip)
            &&& v.clipboard == u.clipboard
            &&& v.coordinate == u.coordinate
        }),
{
    let id = u.current_id;
    let i = id.last() as int;
    laws::lemma_root_not_empty(u.ffon, id);
    laws::lemma_tasked(u, Task::Paste, now);
    lemma_shown(u, Task::Paste, now);
    lemma_layered(u.ffon, id, layer, layer.update(i, clip));
    let t = state::tasked(u, Task::Paste, History::NoHistory, now);
    assert(t.ffon == ffon::with_layer(u.ffon, id, layer.update(i, clip)));
    assert(t.current_id == id);
    lemma_shown_at(u, Task::Paste, clip, now);
}

/// What an element becomes when `line` is written to it: a line that ends with a
/// colon names a branch, which keeps the children of the one that it replaces;
/// any other line is a leaf.
pub open spec fn committed(n: Node, line: Seq<char>) -> Node {
    if line.len() > 0 && line.last() == ':' {
        Node::Obj {
            key: line.drop_last(),
            children: match n {
                Node::Obj { children, .. } => children,
                Node::Str(_) => seq![Node::Str(Seq::empty())],
            },
        }
    } else {
        Node::Str(line)
    }
}

/// In the editor the escape key writes what is typed to the current element and
/// goes back to moving about; elsewhere it goes back and leaves the tree as it
/// is.
pub proof fn law_escape_writes_what_is_typed(u: Ui, layer: Seq<Node>, action: Action, o: OutsideView)
    requires
        action == Action::Escape || action == Action::ConfirmEditor,
        u.coordinate is Insert,
        u.current_id.len() > 0,
        ffon::layer_of(u.ffon, u.current_id) == Some(layer),
        u.current_id.last() < layer.len(),
    ensures
        ({
            let v = events::performed(u, action, o).0;
            let i = u.current_id.last() as int;
            &&& v.coordinate == Coordinate::General
            &&& v.current_id == u.current_id
            &&& v.selection_anchor is None
            &&& state::in_editor(u) ==> differ_at(
                u.ffon,
                v.ffon,
                u.current_id.drop_last(),
                layer,
                layer.update(i, committed(layer[i], u.input_buffer)),
            )
            &&& !state::in_editor(u) ==> v.ffon == u.ffon
        }),
{
    reveal(events::performed);
    reveal(events::switched);
    reveal(handlers::escaped);
    reveal(handlers::edit_ended);
    reveal(moves::touched);
    reveal(moves::in_mode);
    let id = u.current_id;
    let i = id.last() as int;
    let s = moves::unselected(u);
    assert(s.ffon == u.ffon && s.current_id == id && s.coordinate == u.coordinate
        && s.input_buffer == u.input_buffer && s.providers == u.providers && s.selection_anchor
        is None) by {
        reveal(moves::unselected);
    }
    let c = committed(layer[i], u.input_buffer);
    laws::lemma_root_not_empty(u.ffon, id);
    laws::lemma_tasked(s, Task::Input, o.now);
    lemma_layered(u.ffon, id, layer, layer.update(i, c));
    let t = state::tasked(s, Task::Input, History::NoHistory, o.now);
    assert(t.selection_anchor is None) by {
        reveal(state::tasked);
    }
    list::law_listing_keeps_the_rest(t);
    if state::in_editor(u) {
        assert(t.ffon == ffon::with_layer(u.ffon, id, layer.update(i, c)));
    }
}

/// The step that a task leaves in the timeline is the next to be taken back.
proof fn lemma_recorded(u: Ui, task: Task, now: u64)
    requires
        laws::can_be_undone(u, task),
        task != Task::Input,
        app_state::tabs_ok(u),
        !u.in_history_action,
    ensures
        laws::task_entry(u, task) is Some,
        laws::task_entry(u, task)->0 is Structure,
        ({
            let t = state::tasked(u, task, History::NoHistory, now);
            &&& t.active_tab == u.active_tab
            &&& disk_laws::is_next_back(t, laws::task_entry(u, task)->0)
            &&& t.tab_timelines[t.active_tab as int].position == 0
        }),
{
    reveal(app_state::timelines_ok);
    let e = laws::task_entry(u, task);
    laws::law_task_is_recorded(u, task, now);
    laws::law_undo_restores_the_tree(
        u,
        task,
        now,
        state::tasked(u, task, History::NoHistory, now),
        now,
    );
    assert(state::tasked(u, task, History::NoHistory, now).active_tab == u.active_tab) by {
        reveal(state::tasked);
    }
}

/// What a task did to the tree is taken back by the undo key, and done again by
/// the redo key when the step back has ended. `v` is the state after the task.
proof fn lemma_back_and_forth(
    u: Ui,
    task: Task,
    v: Ui,
    o: OutsideView,
    reply: ReplyView,
    p: OutsideView,
    now: u64,
    later: u64,
)
    requires
        laws::can_be_undone(u, task),
        task != Task::Input,
        app_state::tabs_ok(u),
        !u.in_history_action,
        v.coordinate is General,
        v.ffon == state::tasked(u, task, History::NoHistory, now).ffon,
        v.tab_timelines == state::tasked(u, task, History::NoHistory, now).tab_timelines,
        v.active_tab == u.active_tab,
    ensures
        ({
            let (w, effects) = events::performed(v, Action::Undo, o);
            let (x, end) = disk_laws::answered(w, effects.step, reply, later);
            let y = events::performed(x, Action::Redo, p).0;
            &&& w.ffon == u.ffon
            &&& end == StepView::Done
            &&& x.ffon == u.ffon
            &&& !x.in_history_action
            &&& y.ffon == v.ffon
            &&& task == Task::Delete || task == Task::Cut || task == Task::Paste ==> {
                &&& w.current_id == u.current_id
                &&& x.current_id == u.current_id
            }
        }),
{
    let entry = laws::task_entry(u, task)->0;
    lemma_recorded(u, task, now);
    disk_laws::lemma_undo(v, entry, o);
    let at = history::walking(
        handlers::escaped(v, o.now),
        v.tab_timelines[v.active_tab as int].position + 1,
    );
    laws::law_undo_restores_the_tree(u, task, now, at, o.now);
    let (w, effects) = events::performed(v, Action::Undo, o);
    assert(w.ffon == u.ffon) by {
        reveal(moves::redrawn);
    }
    assert(task == Task::Delete || task == Task::Cut || task == Task::Paste ==> w.current_id
        == u.current_id) by {
        reveal(history::undone);
        reveal(history::structure_undone);
        reveal(moves::placed);
        reveal(moves::redrawn);
    }
    lemma_walking(v, v.tab_timelines[v.active_tab as int].position + 1, o.now);
    lemma_undone_keeps(at, entry, o.now);
    let x = disk_laws::answered(w, effects.step, reply, later).0;
    lemma_step_ends(w, effects.step, reply, later);
    assert(w.coordinate == at.coordinate && w.tab_timelines == at.tab_timelines && w.active_tab
        == at.active_tab) by {
        reveal(moves::redrawn);
    }
    assert(disk_laws::is_next_forth(x, entry));
    disk_laws::lemma_redo(x, entry, p);
    let forth = history::walking(
        handlers::escaped(x, p.now),
        x.tab_timelines[x.active_tab as int].position - 1,
    );
    laws::law_redo_does_the_task_again(u, task, now, forth, p.now);
    reveal(moves::redrawn);
}

/// The state on the way through the timeline.
proof fn lemma_walking(u: Ui, position: int, now: u64)
    requires
        u.coordinate is General,
        u.active_tab < u.tab_timelines.len(),
        0 <= position <= usize::MAX,
    ensures
        ({
            let w = history::walking(handlers::escaped(u, now), position);
            &&& w.coordinate == u.coordinate
            &&& w.active_tab == u.active_tab
            &&& w.tab_timelines.len() == u.tab_timelines.len()
            &&& w.tab_timelines[w.active_tab as int].entries
                == u.tab_timelines[u.active_tab as int].entries
            &&& w.tab_timelines[w.active_tab as int].position == position
            &&& w.in_history_action
        }),
{
    reveal(handlers::escaped);
    reveal(moves::touched);
    reveal(moves::in_mode);
    reveal(moves::unselected);
    reveal(history::walking);
}

/// What undoing a change of the tree leaves alone, and that it ends the step.
proof fn lemma_undone_keeps(u: Ui, entry: EntryView, now: u64)
    requires
        entry is Structure || entry is TextChunk,
        u.in_history_action,
    ensures
        ({
            let (v, step) = history::undone(u, entry, now);
            &&& v.coordinate == u.coordinate
            &&& v.active_tab == u.active_tab
            &&& v.tab_timelines == u.tab_timelines
            &&& step matches StepView::Ask { then, .. } && then == ThenView::Undone
        }),
{
    reveal(history::undone);
    reveal(history::structure_undone);
    match entry {
        EntryView::TextChunk { id, before, .. } => {
            reveal(moves::placed);
            reveal(moves::replaced_at);
        },
        EntryView::Structure { id, op, payload } => {
            if op is Append || op is Insert {
                let at = moves::placed(u, id);
                let t = state::tasked(at, Task::Delete, History::Undo, now);
                assert(t.coordinate == u.coordinate && t.active_tab == u.active_tab
                    && t.tab_timelines == u.tab_timelines) by {
                    reveal(state::tasked);
                    reveal(moves::placed);
                }
                list::law_listing_keeps_the_rest(t);
                reveal(moves::redrawn);
                reveal(history::placeholder_upgraded);
                reveal(history::one_before);
                reveal(moves::placed_last);
            } else {
                reveal(moves::placed);
                reveal(moves::replaced_at);
                reveal(moves::inserted_at);
                reveal(history::placeholder_cleared);
            }
        },
        _ => {},
    }
}

/// The answer that ends a step back or forth: the tree stays, and the list is
/// shown again.
proof fn lemma_step_ends(u: Ui, step: StepView, reply: ReplyView, now: u64)
    requires
        step matches StepView::Ask { then, .. } && then == ThenView::Undone,
    ensures
        ({
            let (v, end) = disk_laws::answered(u, step, reply, now);
            &&& end == StepView::Done
            &&& v.ffon == u.ffon
            &&& v.current_id == u.current_id
            &&& v.coordinate == u.coordinate
            &&& v.active_tab == u.active_tab
            &&& v.tab_timelines == u.tab_timelines
            &&& !v.in_history_action
        }),
{
    reveal(resume::going_on);
    reveal(resume::command_going_on);
    reveal(resume::search_going_on);
    reveal(resume::file_going_on);
    reveal(resume::edit_going_on);
    reveal(resume::save_going_on);
    reveal(resume::undo_going_on);
    let p = step->provider;
    let k = provider::learned(u, p, reply.info);
    disk_laws::lemma_learned(u, p, reply);
    assert(k.active_tab == u.active_tab && k.tab_timelines == u.tab_timelines) by {
        reveal(provider::learned);
    }
    reveal(history::walk_ended);
    reveal(history::not_walking);
    reveal(handlers::list_left);
    reveal(moves::redrawn);
    reveal(moves::at_position);
    reveal(moves::list_scrolled);
    list::law_listing_keeps_the_rest(history::not_walking(k));
}

/// The undo key takes back what the append key did to the tree, and the redo
/// key does it again.
pub proof fn law_append_is_taken_back(
    u: Ui,
    o: OutsideView,
    undo: OutsideView,
    reply: ReplyView,
    redo: OutsideView,
    later: u64,
)
    requires
        laws::can_be_undone(u, Task::Append),
        app_state::tabs_ok(u),
        !u.in_history_action,
    ensures
        ({
            let v = events::performed(u, Action::Append, o).0;
            let (w, effects) = events::performed(v, Action::Undo, undo);
            let x = disk_laws::answered(w, effects.step, reply, later).0;
            let y = events::performed(x, Action::Redo, redo).0;
            &&& w.ffon == u.ffon
            &&& x.ffon == u.ffon
            &&& y.ffon == v.ffon
        }),
{
    let v = events::performed(u, Action::Append, o).0;
    assert(v == moves::redrawn(state::updated(u, Task::Append, History::NoHistory, o.now))) by {
        reveal(events::performed);
        reveal(events::edited);
        reveal(handlers::after_append);
    }
    lemma_shown(u, Task::Append, o.now);
    lemma_back_and_forth(u, Task::Append, v, undo, reply, redo, o.now, later);
}

/// The undo key takes back what the insert key did to the tree, and the redo
/// key does it again.
pub proof fn law_insertion_is_taken_back(
    u: Ui,
    o: OutsideView,
    undo: OutsideView,
    reply: ReplyView,
    redo: OutsideView,
    later: u64,
)
    requires
        laws::can_be_undone(u, Task::Insert),
        app_state::tabs_ok(u),
        !u.in_history_action,
        o.now - u.last_keypress_time > 400,
    ensures
        ({
            let v = events::performed(u, Action::InsertElement, o).0;
            let (w, effects) = events::performed(v, Action::Undo, undo);
            let x = disk_laws::answered(w, effects.step, reply, later).0;
            let y = events::performed(x, Action::Redo, redo).0;
            &&& w.ffon == u.ffon
            &&& x.ffon == u.ffon
            &&& y.ffon == v.ffon
        }),
{
    let v = events::performed(u, Action::InsertElement, o).0;
    assert(v == moves::redrawn(
        moves::tapped(state::updated(u, Task::Insert, History::NoHistory, o.now), o.now),
    )) by {
        reveal(events::performed);
        reveal(history::after_insert_key);
    }
    lemma_shown(u, Task::Insert, o.now);
    reveal(moves::redrawn);
    reveal(moves::tapped);
    lemma_back_and_forth(u, Task::Insert, v, undo, reply, redo, o.now, later);
}

/// The undo key puts back what the delete key took out, and the redo key takes
/// it out again.
pub proof fn law_deletion_is_taken_back(
    u: Ui,
    o: OutsideView,
    undo: OutsideView,
    reply: ReplyView,
    redo: OutsideView,
    later: u64,
)
    requires
        u.coordinate is General,
        laws::can_be_undone(u, Task::Delete),
        app_state::tabs_ok(u),
        !u.in_history_action,
    ensures
        ({
            let v = events::performed(u, Action::DeleteElement, o).0;
            let (w, effects) = events::performed(v, Action::Undo, undo);
            let x = disk_laws::answered(w, effects.step, reply, later).0;
            let y = events::performed(x, Action::Redo, redo).0;
            &&& w.ffon == u.ffon
            &&& x.current_id == u.current_id
            &&& x.ffon == u.ffon
            &&& y.ffon == v.ffon
        }),
{
    let v = events::performed(u, Action::DeleteElement, o).0;
    assert(v == moves::redrawn(state::updated(u, Task::Delete, History::NoHistory, o.now))) by {
        reveal(events::performed);
        reveal(events::edited);
        reveal(handlers::after_delete);
    }
    lemma_shown(u, Task::Delete, o.now);
    lemma_back_and_forth(u, Task::Delete, v, undo, reply, redo, o.now, later);
}

/// The undo key takes back what cutting and pasting an element did to the tree,
/// and the redo key does it again.
pub proof fn law_cutting_and_pasting_are_taken_back(
    u: Ui,
    n: Node,
    action: Action,
    o: OutsideView,
    undo: OutsideView,
    reply: ReplyView,
    redo: OutsideView,
    later: u64,
)
    requires
        u.coordinate is General,
        state::in_editor(u),
        app_state::tabs_ok(u),
        !u.in_history_action,
        move_laws::is_at(u, u.current_id, n),
        action == Action::Cut && laws::can_be_undone(u, Task::Cut) || action == Action::Paste
            && laws::can_be_undone(u, Task::Paste),
    ensures
        ({
            let v = events::performed(u, action, o).0;
            let (w, effects) = events::performed(v, Action::Undo, undo);
            let x = disk_laws::answered(w, effects.step, reply, later).0;
            let y = events::performed(x, Action::Redo, redo).0;
            &&& w.ffon == u.ffon
            &&& x.current_id == u.current_id
            &&& x.ffon == u.ffon
            &&& y.ffon == v.ffon
        }),
{
    let v = events::performed(u, action, o).0;
    let (from, task) = if action == Action::Cut {
        (files::element_clipped(u), Task::Cut)
    } else {
        (u, Task::Paste)
    };
    lemma_clipped(u, n);
    assert(v == moves::redrawn(state::updated(from, task, History::NoHistory, o.now))) by {
        reveal(events::performed);
        reveal(events::edited);
        reveal(files::after_cut);
        reveal(files::after_paste);
    }
    lemma_shown(from, task, o.now);
    lemma_back_and_forth(from, task, v, undo, reply, redo, o.now, later);
}

/// Whether what is written at `id` is a step of its own: it does not go on with
/// what was typed there just before.
pub open spec fn starts_a_step(u: Ui, id: Seq<usize>) -> bool {
    let tl = u.tab_timelines[u.active_tab as int];
    ||| tl.position > 0
    ||| tl.coalesce_break
    ||| tl.entries.len() == 0
    ||| !(tl.entries.last() is TextChunk)
    ||| tl.last_text_id != Some(id)
}

/// The undo key takes back what was typed into an element, and the redo key
/// writes it again.
pub proof fn law_typed_text_is_taken_back(
    u: Ui,
    n: Node,
    o: OutsideView,
    undo: OutsideView,
    reply: ReplyView,
    redo: OutsideView,
    later: u64,
)
    requires
        u.coordinate is Insert,
        state::in_editor(u),
        app_state::tabs_ok(u),
        !u.in_history_action,
        ffon::element_at(u.ffon, u.current_id) == Some(n),
        starts_a_step(u, u.current_id),
    ensures
        ({
            let v = events::performed(u, Action::Escape, o).0;
            let (w, effects) = events::performed(v, Action::Undo, undo);
            let x = disk_laws::answered(w, effects.step, reply, later).0;
            let y = events::performed(x, Action::Redo, redo).0;
            &&& w.ffon == u.ffon
            &&& w.current_id == u.current_id
            &&& x.ffon == u.ffon
            &&& y.ffon == v.ffon
            &&& y.current_id == u.current_id
        }),
{
    reveal(app_state::timelines_ok);
    let id = u.current_id;
    let s = moves::unselected(u);
    let t = state::tasked(s, Task::Input, History::NoHistory, o.now);
    let v = events::performed(u, Action::Escape, o).0;
    assert(s.ffon == u.ffon && s.current_id == id && s.coordinate == u.coordinate
        && s.input_buffer == u.input_buffer && s.providers == u.providers && s.tab_timelines
        == u.tab_timelines && s.active_tab == u.active_tab && s.tabs == u.tabs
        && !s.in_history_action) by {
        reveal(moves::unselected);
    }
    assert(v.ffon == t.ffon && v.current_id == t.current_id && v.tab_timelines == t.tab_timelines
        && v.active_tab == u.active_tab && v.coordinate is General) by {
        reveal(events::performed);
        reveal(events::switched);
        reveal(handlers::escaped);
        reveal(handlers::edit_ended);
        reveal(moves::touched);
        reveal(moves::in_mode);
        list::law_listing_keeps_the_rest(t);
        reveal(state::tasked);
    }
    laws::lemma_typed(s, o.now);
    laws::law_task_is_recorded(s, Task::Input, o.now);
    laws::lemma_tasked(s, Task::Input, o.now);
    let after = ffon::element_at(v.ffon, id)->0;
    let tl = u.tab_timelines[u.active_tab as int];
    let entry = EntryView::TextChunk { id, before: n, after, chunk_seq: tl.next_chunk_seq };
    assert(laws::task_entry(s, Task::Input) == Some(
        EntryView::TextChunk { id, before: n, after, chunk_seq: 0 },
    )) by {
        reveal(state::tasked);
    }
    assert(disk_laws::is_next_back(v, entry));
    laws::lemma_root_not_empty(u.ffon, id);
    disk_laws::lemma_undo(v, entry, undo);
    let at = history::walking(
        handlers::escaped(v, undo.now),
        v.tab_timelines[v.active_tab as int].position + 1,
    );
    let (w, effects) = events::performed(v, Action::Undo, undo);
    lemma_walking(v, 1, undo.now);
    lemma_undone_keeps(at, entry, undo.now);
    assert(w.ffon == u.ffon && w.current_id == id && w.coordinate is General && w.tab_timelines
        == at.tab_timelines && w.active_tab == at.active_tab) by {
        reveal(history::undone);
        reveal(moves::redrawn);
        reveal(moves::placed);
        reveal(moves::replaced_at);
    }
    let x = disk_laws::answered(w, effects.step, reply, later).0;
    lemma_step_ends(w, effects.step, reply, later);
    assert(disk_laws::is_next_forth(x, entry));
    disk_laws::lemma_redo(x, entry, redo);
    assert(events::performed(x, Action::Redo, redo).0.ffon == v.ffon && events::performed(
        x,
        Action::Redo,
        redo,
    ).0.current_id == id) by {
        reveal(history::redone);
        reveal(moves::redrawn);
        reveal(moves::placed);
        reveal(moves::replaced_at);
    }
}

/// Where nothing is left to be undone, or to be done again, the key says so and
/// leaves everything else as it is.
pub proof fn law_nothing_is_taken_back(u: Ui, o: OutsideView)
    requires
        app_state::tabs_ok(u),
    ensures
        ({
            let tl = u.tab_timelines[u.active_tab as int];
            let (v, effects) = events::performed(u, Action::Undo, o);
            tl.position == tl.entries.len() ==> {
                &&& v == Ui { error_message: v.error_message, needs_redraw: true, ..u }
                &&& v.error_message == if tl.entries.len() == 0 {
                    "No undo history"@
                } else {
                    "Nothing to undo"@
                }
                &&& effects.step == StepView::Done
            }
        }),
        ({
            let tl = u.tab_timelines[u.active_tab as int];
            let (v, effects) = events::performed(u, Action::Redo, o);
            tl.position == 0 ==> {
                &&& v == Ui { error_message: v.error_message, needs_redraw: true, ..u }
                &&& v.error_message == if tl.entries.len() == 0 {
                    "No undo history"@
                } else {
                    "Nothing to redo"@
                }
                &&& effects.step == StepView::Done
            }
        }),
{
    let tl = u.tab_timelines[u.active_tab as int];
    let back = if tl.entries.len() == 0 {
        "No undo history"@
    } else {
        "Nothing to undo"@
    };
    let forth = if tl.entries.len() == 0 {
        "No undo history"@
    } else {
        "Nothing to redo"@
    };
    if tl.position == tl.entries.len() {
        assert(events::performed(u, Action::Undo, o) == (
            moves::redrawn(moves::with_error(u, back)),
            events::only(StepView::Done),
        )) by {
            reveal(events::performed);
            reveal(events::entered);
            reveal(history::walked_back);
        }
        lemma_said(u, back);
    }
    if tl.position == 0 {
        assert(events::performed(u, Action::Redo, o) == (
            moves::redrawn(moves::with_error(u, forth)),
            events::only(StepView::Done),
        )) by {
            reveal(events::performed);
            reveal(events::entered);
            reveal(history::walked_forward);
        }
        lemma_said(u, forth);
    }
}

proof fn lemma_said(u: Ui, message: Seq<char>)
    ensures
        moves::redrawn(moves::with_error(u, message)) == (Ui {
            error_message: message,
            needs_redraw: true,
            ..u
        }),
{
    reveal(moves::with_error);
    reveal(moves::redrawn);
}

/// The undo key goes back to where a step of navigation came from, and the redo
/// key to where it led; the provider is told the path of that place.
pub proof fn law_navigation_goes_back_and_forth(
    u: Ui,
    i: usize,
    from_id: Seq<usize>,
    to_id: Seq<usize>,
    from_path: Seq<char>,
    to_path: Seq<char>,
    kind: NavKind,
    o: OutsideView,
)
    requires
        u.coordinate is General,
        i < u.providers.len(),
        u.current_id.len() > 0,
        u.current_id[0] == i,
    ensures
        disk_laws::is_next_back(
            u,
            (EntryView::Navigate {
                provider_idx: i,
                from_id,
                to_id,
                from_path: Some(from_path),
                to_path: Some(to_path),
                kind,
            }),
        ) ==> goes_to(u, events::performed(u, Action::Undo, o), i, from_id, from_path),
        disk_laws::is_next_forth(
            u,
            (EntryView::Navigate {
                provider_idx: i,
                from_id,
                to_id,
                from_path: Some(from_path),
                to_path: Some(to_path),
                kind,
            }),
        ) ==> goes_to(u, events::performed(u, Action::Redo, o), i, to_id, to_path),
{
    let entry = EntryView::Navigate {
        provider_idx: i,
        from_id,
        to_id,
        from_path: Some(from_path),
        to_path: Some(to_path),
        kind,
    };
    reveal(moves::redrawn);
    reveal(moves::placed);
    if disk_laws::is_next_back(u, entry) {
        disk_laws::lemma_undo(u, entry, o);
        reveal(history::undone);
        reveal(history::navigated);
    }
    if disk_laws::is_next_forth(u, entry) {
        disk_laws::lemma_redo(u, entry, o);
        reveal(history::redone);
        reveal(history::navigated);
    }
}

/// Whether the provider `i` is told the path `path`, and the position is at `id`:
/// at once, or when it was fetched what the provider has there.
pub open spec fn goes_to(
    u: Ui,
    led: (Ui, EffectsView),
    i: usize,
    id: Seq<usize>,
    path: Seq<char>,
) -> bool {
    let (v, effects) = led;
    &&& v.ffon == u.ffon
    &&& effects.step matches StepView::Ask { provider, ops, then } && {
        &&& provider == Some(i)
        &&& ops.len() > 0
        &&& ops[0] == OpView::SetPath(path)
        &&& if u.providers[i as int].refresh_on_navigate {
            disk_laws::fetches(effects.step) && then == ThenView::UndoFetched { id }
        } else {
            v.current_id == id && then == ThenView::Undone
        }
    }
}

} // verus!
