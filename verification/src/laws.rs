//! What holds of several operations together: what is done can be undone, and
//! what is left alone stays as it is.

use vstd::prelude::*;

use crate::app_state;
use crate::app_state::{History, Task, TimelineState, Ui, TIMELINE_CAPACITY};
use crate::ffon;
use crate::ffon::Node;
use crate::history;
use crate::list;
use crate::moves;
use crate::state;
use crate::timeline::EntryView;

verus! {

/// What a timeline records of a task that is done at `u`.
pub open spec fn task_entry(u: Ui, task: Task) -> Option<EntryView> {
    let (line, is_obj) = state::current_line(
        u.coordinate,
        u.input_buffer,
        ffon::element_at(u.ffon, u.current_id),
    );
    let is_key = state::names_branch(line) || is_obj;
    let v = state::edited(
        state::moved(u, is_key, task, History::NoHistory),
        line,
        is_key,
        task,
        History::NoHistory,
    );
    state::edit_entry(
        task,
        if state::takes_out(task) || task == Task::Paste {
            u.current_id
        } else {
            v.current_id
        },
        ffon::element_at(u.ffon, u.current_id),
        ffon::element_at(v.ffon, v.current_id),
    )
}

/// Whether an edit beside an element leaves the element as it is: a leaf does
/// not name a branch, and the key of a branch has no colon at its end.
pub open spec fn is_plain(n: Node) -> bool {
    match n {
        Node::Str(s) => !state::names_branch(s),
        Node::Obj { key, .. } => state::branch_name(key) == key,
    }
}

/// Whether the element `s` is alone in a layer deep enough to be the body of a
/// message.
pub open spec fn is_alone(tree: Seq<Node>, id: Seq<usize>, s: Seq<char>) -> bool {
    id.len() >= 3 && ffon::layer_of(tree, id) == Some(seq![Node::Str(s)])
}

/// Whether a task at `u` is one that a step back takes back exactly.
///
/// Left out are the edits that do more than the task asks for. A layer does not
/// stay empty, so the only element of one is not taken out, and what stands for
/// an empty body of a message is replaced on the way. A leaf that names a
/// branch becomes one when something is put beside it.
pub open spec fn can_be_undone(u: Ui, task: Task) -> bool {
    let id = u.current_id;
    &&& ffon::element_at(u.ffon, id) is Some
    &&& match task {
        Task::Input => true,
        Task::Append | Task::AppendAppend | Task::Insert | Task::InsertInsert => {
            &&& u.coordinate is General
            &&& state::in_editor(u)
            &&& id.len() >= 2
            &&& ffon::layer_len(u.ffon, id) <= usize::MAX
            &&& is_plain(ffon::element_at(u.ffon, id)->0)
            &&& !is_alone(u.ffon, id, "<input></input>"@)
            &&& !is_alone(u.ffon, id, "i <input></input>"@)
        },
        Task::Delete | Task::Cut => {
            &&& ffon::layer_len(u.ffon, id) > 1
            &&& !is_alone(ffon::removed(u.ffon, id, id.last() as int), id, "i <input></input>"@)
            &&& !is_alone(ffon::removed(u.ffon, id, id.last() as int), id, "<input></input>"@)
        },
        Task::Paste => u.clipboard is Some,
        _ => false,
    }
}

proof fn lemma_layer_of_moved(tree: Seq<Node>, id: Seq<usize>, i: usize)
    requires
        id.len() > 0,
    ensures
        ffon::layer_of(tree, ffon::with_last(id, i)) == ffon::layer_of(tree, id),
        forall|layer: Seq<Node>|
            #[trigger] ffon::with_layer(tree, ffon::with_last(id, i), layer) == ffon::with_layer(
                tree,
                id,
                layer,
            ),
{
    reveal(ffon::layer_of);
    assert(ffon::with_last(id, i).drop_last() =~= id.drop_last());
}

/// Replacing an element by itself changes nothing.
pub(crate) proof fn lemma_replace_same(tree: Seq<Node>, id: Seq<usize>)
    requires
        ffon::element_at(tree, id) is Some,
    ensures
        ffon::replaced(tree, id, id.last() as int, ffon::element_at(tree, id)->0) == tree,
{
    reveal(ffon::layer_of);
    let layer = ffon::layer_of(tree, id)->0;
    assert(layer.update(id.last() as int, layer[id.last() as int]) =~= layer);
    ffon::law_graft_same(tree, id.drop_last());
}

/// A task without history, in terms of what it does to the tree.
pub(crate) proof fn lemma_tasked(u: Ui, task: Task, now: u64)
    ensures
        ({
            let (line, is_obj) = state::current_line(
                u.coordinate,
                u.input_buffer,
                ffon::element_at(u.ffon, u.current_id),
            );
            let is_key = state::names_branch(line) || is_obj;
            let m = state::moved(u, is_key, task, History::NoHistory);
            let (tree, id) = state::edit_result(
                u.ffon,
                u.current_id,
                m.current_id,
                u.clipboard,
                line,
                is_key,
                task,
                History::NoHistory,
                state::in_editor(m),
            );
            &&& state::tasked(u, task, History::NoHistory, now).ffon == tree
            &&& state::tasked(u, task, History::NoHistory, now).current_id == id
        }),
{
    reveal(state::tasked);
}

/// The tree after the element at `id` is taken out of a layer with others, on
/// the way through the timeline.
pub(crate) proof fn lemma_taken_back(u: Ui, id: Seq<usize>, h: History, now: u64)
    requires
        h != History::NoHistory,
        ffon::element_at(u.ffon, id) is Some,
        ffon::layer_len(u.ffon, id) > 1,
        !is_alone(ffon::removed(u.ffon, id, id.last() as int), id, "<input></input>"@),
    ensures
        history::taken_back(u, id, h, now).ffon == ffon::removed(u.ffon, id, id.last() as int),
{
    let p = moves::placed(u, id);
    let t = state::tasked(p, Task::Delete, h, now);
    let rest = ffon::removed(u.ffon, id, id.last() as int);
    assert(p.ffon == u.ffon && p.current_id == id) by {
        reveal(moves::placed);
    }
    lemma_removed_len(u.ffon, id);
    assert(t.ffon == rest) by {
        reveal(state::tasked);
        reveal(ffon::layer_of);
    }
    list::law_listing_keeps_the_rest(t);
    reveal(moves::redrawn);
    reveal(history::placeholder_upgraded);
}

pub(crate) proof fn lemma_removed_len(tree: Seq<Node>, id: Seq<usize>)
    requires
        ffon::element_at(tree, id) is Some,
    ensures
        ffon::layer_len(ffon::removed(tree, id, id.last() as int), id) == ffon::layer_len(tree, id)
            - 1,
{
    reveal(ffon::layer_of);
    let layer = ffon::layer_of(tree, id)->0;
    ffon::law_graft_descend(tree, id.drop_last(), layer.remove(id.last() as int));
}

/// Where a task makes room: beside the position, or at an end of its layer.
pub(crate) open spec fn room_place(u: Ui, task: Task) -> Seq<usize> {
    let id = u.current_id;
    match task {
        Task::Append => ffon::with_last(id, (id.last() + 1) as usize),
        Task::AppendAppend => ffon::with_last(id, ffon::layer_len(u.ffon, id) as usize),
        Task::InsertInsert => ffon::with_last(id, 0),
        _ => id,
    }
}

/// What a task that makes room does to the tree.
pub(crate) proof fn lemma_room(u: Ui, task: Task, now: u64)
    requires
        can_be_undone(u, task),
        state::makes_room(task),
    ensures
        ({
            let at = room_place(u, task);
            let v = state::tasked(u, task, History::NoHistory, now);
            &&& v.ffon == ffon::inserted(u.ffon, at, at.last() as int, state::blank())
            &&& v.current_id == at
            &&& ffon::layer_of(u.ffon, at) == ffon::layer_of(u.ffon, u.current_id)
            &&& at.last() <= ffon::layer_len(u.ffon, u.current_id)
            &&& at.len() == u.current_id.len()
        }),
{
    let id = u.current_id;
    let n = ffon::element_at(u.ffon, id)->0;
    let idx = id.last();
    lemma_tasked(u, task, now);
    lemma_replace_same(u.ffon, id);
    let at = room_place(u, task);
    reveal(ffon::layer_of);
    lemma_layer_of_moved(u.ffon, id, at.last());
    let (line, is_obj) = state::current_line(u.coordinate, u.input_buffer, Some(n));
    let is_key = state::names_branch(line) || is_obj;
    let m = state::moved(u, is_key, task, History::NoHistory);
    assert(m.current_id == at);
    assert(at[0] == id[0]);
    assert(state::in_editor(m) == state::in_editor(u));
    let set = state::written(u.ffon, id, at.last(), line, is_key, false);
    assert(set == u.ffon) by {
        match n {
            Node::Str(s) => {},
            Node::Obj { key, children } => {
                assert(ffon::is_branch_at(u.ffon, id));
                let layer = ffon::layer_of(u.ffon, id)->0;
                assert(layer.update(
                    idx as int,
                    Node::Obj { key: state::branch_name(line), children: layer[idx as int]->children },
                ) =~= layer);
                assert(layer.update(idx as int, n) =~= layer);
            },
        }
    }
}

/// A step back takes a task back: the tree is what it was before. `w` is the
/// state that the step back starts from, with the tree that the task left.
pub proof fn law_undo_restores_the_tree(u: Ui, task: Task, now: u64, w: Ui, later: u64)
    requires
        can_be_undone(u, task),
        w.ffon == state::tasked(u, task, History::NoHistory, now).ffon,
    ensures
        task_entry(u, task) is Some,
        history::undone(w, task_entry(u, task)->0, later).0.ffon == u.ffon,
{
    reveal(history::undone);
    reveal(history::structure_undone);
    let id = u.current_id;
    let n = ffon::element_at(u.ffon, id)->0;
    let v = state::tasked(u, task, History::NoHistory, now);
    lemma_tasked(u, task, now);
    match task {
        Task::Input => {
            lemma_typed(u, now);
            lemma_root_not_empty(u.ffon, id);
            reveal(moves::replaced_at);
            reveal(moves::placed);
        },
        Task::Paste => {
            ffon::law_replace_replace(u.ffon, id, u.clipboard->0);
            lemma_root_not_empty(u.ffon, id);
            reveal(moves::replaced_at);
            reveal(moves::placed);
        },
        Task::Delete | Task::Cut => {
            lemma_removed_len(u.ffon, id);
            lemma_root_not_empty(u.ffon, id);
            ffon::law_remove_insert(u.ffon, id);
            reveal(history::placeholder_cleared);
            reveal(moves::inserted_at);
            reveal(moves::placed);
        },
        _ => {
            lemma_room(u, task, now);
            let at = v.current_id;
            ffon::law_insert_remove(u.ffon, at, state::blank());
            lemma_inserted_len(u.ffon, at, state::blank());
            lemma_taken_back(w, at, History::Undo, later);
            reveal(history::one_before);
            reveal(moves::placed_last);
        },
    }
}

pub(crate) proof fn lemma_root_not_empty(tree: Seq<Node>, id: Seq<usize>)
    requires
        ffon::element_at(tree, id) is Some,
    ensures
        id.len() > 0,
        id.len() == 1 ==> tree.len() > 0,
{
    reveal(ffon::layer_of);
    if id.len() == 1 {
        assert(id.drop_last() =~= Seq::<usize>::empty());
    }
}

proof fn lemma_inserted_len(tree: Seq<Node>, id: Seq<usize>, n: Node)
    requires
        ffon::layer_of(tree, id) matches Some(layer) && id.last() <= layer.len(),
    ensures
        ffon::layer_len(ffon::inserted(tree, id, id.last() as int, n), id) == ffon::layer_len(
            tree,
            id,
        ) + 1,
{
    reveal(ffon::layer_of);
    let layer = ffon::layer_of(tree, id)->0;
    ffon::law_graft_descend(tree, id.drop_last(), layer.insert(id.last() as int, n));
}

/// What a task that writes a line does to the tree: the element at the
/// position is replaced, where edits work on the tree.
pub(crate) proof fn lemma_typed(u: Ui, now: u64)
    requires
        ffon::element_at(u.ffon, u.current_id) is Some,
    ensures
        ({
            let id = u.current_id;
            let v = state::tasked(u, Task::Input, History::NoHistory, now);
            &&& v.current_id == id
            &&& ffon::element_at(v.ffon, id) is Some
            &&& v.ffon == ffon::replaced(
                u.ffon,
                id,
                id.last() as int,
                ffon::element_at(v.ffon, id)->0,
            )
            &&& ffon::replaced(v.ffon, id, id.last() as int, ffon::element_at(u.ffon, id)->0)
                == u.ffon
        }),
{
    let id = u.current_id;
    let n = ffon::element_at(u.ffon, id)->0;
    lemma_tasked(u, Task::Input, now);
    lemma_root_not_empty(u.ffon, id);
    let (line, is_obj) = state::current_line(u.coordinate, u.input_buffer, Some(n));
    let is_key = state::names_branch(line) || is_obj;
    let put = if !state::in_editor(u) {
        n
    } else if !is_key {
        Node::Str(line)
    } else if n is Obj {
        Node::Obj { key: state::branch_name(line), children: n->children }
    } else {
        state::new_branch(state::branch_name(line))
    };
    lemma_replace_same(u.ffon, id);
    ffon::law_replace_replace(u.ffon, id, put);
    let m = state::moved(u, is_key, Task::Input, History::NoHistory);
    assert(state::in_editor(m) == state::in_editor(u));
    let v = state::tasked(u, Task::Input, History::NoHistory, now);
    assert(v.ffon == ffon::replaced(u.ffon, id, id.last() as int, put));
}

/// A step forth does a task again: the tree is what the task left. `x` is the
/// state that the step forth starts from, with the tree before the task.
#[verifier::rlimit(40)]
pub proof fn law_redo_does_the_task_again(u: Ui, task: Task, now: u64, x: Ui, later: u64)
    requires
        can_be_undone(u, task),
        x.ffon == u.ffon,
    ensures
        task_entry(u, task) is Some,
        history::redone(x, task_entry(u, task)->0, later).0.ffon == state::tasked(
            u,
            task,
            History::NoHistory,
            now,
        ).ffon,
{
    reveal(history::redone);
    reveal(history::structure_redone);
    let id = u.current_id;
    let v = state::tasked(u, task, History::NoHistory, now);
    lemma_tasked(u, task, now);
    match task {
        Task::Input => {
            lemma_typed(u, now);
            lemma_root_not_empty(u.ffon, id);
            reveal(moves::replaced_at);
            reveal(moves::placed);
        },
        Task::Paste => {
            ffon::law_replace_replace(u.ffon, id, u.clipboard->0);
            lemma_root_not_empty(u.ffon, id);
            reveal(moves::replaced_at);
            reveal(moves::placed);
        },
        Task::Delete | Task::Cut => {
            lemma_removed_len(u.ffon, id);
            lemma_root_not_empty(u.ffon, id);
            lemma_taken_back(x, id, History::Redo, later);
            reveal(history::not_behind);
            reveal(moves::placed_last);
        },
        _ => {
            lemma_room(u, task, now);
            let at = v.current_id;
            ffon::law_insert_remove(u.ffon, at, state::blank());
            reveal(history::placeholder_cleared);
            reveal(moves::inserted_at);
            reveal(moves::placed);
        },
    }
}

/// A task is recorded as the step that a step back takes back, in the timeline
/// of the active tab and nowhere else.
pub proof fn law_task_is_recorded(u: Ui, task: Task, now: u64)
    requires
        app_state::tabs_ok(u),
        !u.in_history_action,
    ensures
        state::tasked(u, task, History::NoHistory, now).tab_timelines == match task_entry(u, task) {
            Some(e) => u.tab_timelines.update(
                u.active_tab as int,
                state::recorded(u.tab_timelines[u.active_tab as int], e, now),
            ),
            None => u.tab_timelines,
        },
{
    reveal(state::tasked);
}

/// A timeline never holds more than its capacity, and after a step is recorded
/// nothing in it is undone.
pub proof fn law_timeline_is_bounded(tl: TimelineState, entry: EntryView, now: u64)
    requires
        tl.entries.len() <= TIMELINE_CAPACITY,
        tl.position <= tl.entries.len(),
    ensures
        0 < state::recorded(tl, entry, now).entries.len() <= TIMELINE_CAPACITY,
        state::recorded(tl, entry, now).position == 0,
{
}

/// What is undone is gone for good once a new step is recorded, and the steps
/// before it stay; only the oldest leaves a full timeline.
pub proof fn law_new_step_drops_the_undone(tl: TimelineState, entry: EntryView, now: u64)
    requires
        0 < tl.position <= tl.entries.len(),
        tl.entries.len() <= TIMELINE_CAPACITY,
    ensures
        state::recorded(tl, entry, now).entries == tl.entries.take(
            tl.entries.len() - tl.position,
        ).push(state::numbered_entry(entry, tl.next_chunk_seq)),
{
}

/// Nothing is recorded while a step is undone or done again.
pub proof fn law_history_records_nothing(u: Ui, entry: EntryView, now: u64)
    requires
        u.in_history_action,
    ensures
        state::with_recorded(u, entry, now) == u,
{
}

/// Typing at one place without a pause is one step: from what was there first
/// to what is there last.
pub proof fn law_typing_is_one_step(
    tl: TimelineState,
    id: Seq<usize>,
    a: Node,
    b: Node,
    c: Node,
    then: u64,
    now: u64,
)
    requires
        tl.position == 0,
        tl.entries.len() < TIMELINE_CAPACITY,
        then <= now <= then + app_state::TEXT_CHUNK_IDLE_MS,
        !tl.coalesce_break,
        tl.entries.len() > 0 ==> !(tl.entries.last() is TextChunk),
    ensures
        ({
            let first = EntryView::TextChunk { id, before: a, after: b, chunk_seq: 0 };
            let second = EntryView::TextChunk { id, before: b, after: c, chunk_seq: 0 };
            let both = state::recorded(state::recorded(tl, first, then), second, now);
            both.entries == tl.entries.push(
                EntryView::TextChunk { id, before: a, after: c, chunk_seq: tl.next_chunk_seq },
            )
        }),
{
    let first = EntryView::TextChunk { id, before: a, after: b, chunk_seq: 0 };
    let one = state::recorded(tl, first, then);
    assert(state::done_entries(tl) =~= tl.entries);
    assert(one.entries == tl.entries.push(state::numbered_entry(first, tl.next_chunk_seq)));
    assert(state::done_entries(one) =~= one.entries);
    let second = EntryView::TextChunk { id, before: b, after: c, chunk_seq: 0 };
    let both = state::recorded(one, second, now);
    assert(both.entries =~= tl.entries.push(
        EntryView::TextChunk { id, before: a, after: c, chunk_seq: tl.next_chunk_seq },
    ));
}

/// What is pasted is what is on the clipboard, at the position.
pub proof fn law_pasted_element_is_the_clipboard(u: Ui, now: u64)
    requires
        ffon::element_at(u.ffon, u.current_id) is Some,
        u.clipboard is Some,
    ensures
        ffon::element_at(
            state::tasked(u, Task::Paste, History::NoHistory, now).ffon,
            u.current_id,
        ) == u.clipboard,
{
    lemma_tasked(u, Task::Paste, now);
    lemma_root_not_empty(u.ffon, u.current_id);
    ffon::law_replace_replace(u.ffon, u.current_id, u.clipboard->0);
}

} // verus!
