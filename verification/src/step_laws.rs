//! How the undo and redo keys deal with the steps of providers, with what was
//! replaced, and with the body of a message.

use vstd::prelude::*;

use crate::app_state::Ui;
use crate::disk_laws;
use crate::enter_laws;
use crate::events;
use crate::events::OutsideView;
use crate::ffon;
use crate::ffon::Node;
use crate::history;
use crate::markup;
use crate::moves;
use crate::provider;
use crate::provider::{OpView, ReplyView, StepView, ThenView};
use crate::resume;
use crate::shortcuts::Action;
use crate::timeline::{EntryView, PayloadView, StructuralOp};
use crate::tree_laws;

verus! {

/// The provider that a step is one of its own of.
pub open spec fn owner(entry: EntryView) -> Option<usize> {
    match entry {
        EntryView::ImapOp { provider_idx, .. } => Some(provider_idx),
        EntryView::ChatOp { provider_idx, .. } => Some(provider_idx),
        EntryView::ProviderOp { provider_idx, .. } => Some(provider_idx),
        _ => None,
    }
}

/// A step of a provider is undone by that provider, and done again by it; the
/// tree stays as it is. An error of the provider is shown. Where the position is
/// in the provider it is fetched what there is then, and elsewhere it is said
/// that something was undone.
pub proof fn law_provider_undoes_its_steps(
    u: Ui,
    entry: EntryView,
    i: usize,
    redo: bool,
    o: OutsideView,
    reply: ReplyView,
    now: u64,
)
    requires
        u.coordinate is General,
        owner(entry) == Some(i),
        i < u.providers.len(),
        !redo ==> disk_laws::is_next_back(u, entry),
        redo ==> disk_laws::is_next_forth(u, entry),
    ensures
        ({
            let (v, effects) = events::performed(
                u,
                if redo {
                    Action::Redo
                } else {
                    Action::Undo
                },
                o,
            );
            let (w, next) = disk_laws::answered(v, effects.step, reply, now);
            let name = u.providers[i as int].display_name;
            &&& v.ffon == u.ffon
            &&& v.current_id == u.current_id
            &&& effects.step matches StepView::Ask { provider, ops, .. } && {
                &&& provider == Some(i)
                &&& ops == seq![
                    if redo {
                        OpView::Redo(entry)
                    } else {
                        OpView::Undo(entry)
                    },
                ]
            }
            &&& w.ffon == u.ffon
            &&& reply.error is Some ==> w.error_message == reply.error->0
            &&& reply.error is None && u.current_id.len() > 0 && u.current_id[0] == i
                ==> disk_laws::fetches(next) && next->provider == Some(i)
            &&& reply.error is None && !(u.current_id.len() > 0 && u.current_id[0] == i)
                ==> w.error_message == (if redo {
                "redid on "@
            } else {
                "undid on "@
            }) + name
        }),
{
    let (v, effects) = events::performed(
        u,
        if redo {
            Action::Redo
        } else {
            Action::Undo
        },
        o,
    );
    if redo {
        disk_laws::lemma_redo(u, entry, o);
    } else {
        disk_laws::lemma_undo(u, entry, o);
    }
    let name = u.providers[i as int].display_name;
    let then = ThenView::ProviderUndone { provider: i, name: Some(name), redo };
    assert(effects.step == StepView::Ask {
        provider: Some(i),
        ops: seq![
            if redo {
                OpView::Redo(entry)
            } else {
                OpView::Undo(entry)
            },
        ],
        then,
    } && v.ffon == u.ffon && v.current_id == u.current_id && v.providers == u.providers) by {
        reveal(history::undone);
        reveal(history::redone);
        reveal(moves::redrawn);
    }
    let k = provider::learned(v, Some(i), reply.info);
    disk_laws::lemma_learned(v, Some(i), reply);
    let a = resume::answer_of(reply);
    assert(disk_laws::answered(v, effects.step, reply, now) == history::undone_by_provider(
        k,
        a,
        i,
        Some(name),
        redo,
    )) by {
        reveal(resume::going_on);
        reveal(resume::command_going_on);
        reveal(resume::search_going_on);
        reveal(resume::file_going_on);
        reveal(resume::edit_going_on);
        reveal(resume::save_going_on);
        reveal(resume::undo_going_on);
    }
    reveal(history::undone_by_provider);
    reveal(moves::with_error);
    let f = provider::fetching(k, ThenView::HistoryFetched);
    assert(f->ops[0] == OpView::Fetch);
}

/// The undo key puts back what was replaced, and the redo key what replaced it.
pub proof fn law_replacement_goes_back_and_forth(
    u: Ui,
    id: Seq<usize>,
    layer: Seq<Node>,
    before: Node,
    after: Node,
    o: OutsideView,
)
    requires
        u.coordinate is General,
        id.len() > 0,
        ffon::layer_of(u.ffon, id) == Some(layer),
        id.last() < layer.len(),
        enter_laws::untagged(ffon::node_text(before)),
        enter_laws::untagged(ffon::node_text(after)),
    ensures
        ({
            let entry = EntryView::Structure {
                id,
                op: StructuralOp::Replace,
                payload: PayloadView::Replaced { before, after },
            };
            let i = id.last() as int;
            &&& disk_laws::is_next_back(u, entry) ==> {
                let v = events::performed(u, Action::Undo, o).0;
                &&& tree_laws::differ_at(
                    u.ffon,
                    v.ffon,
                    id.drop_last(),
                    layer,
                    layer.update(i, before),
                )
                &&& v.current_id == id
            }
            &&& disk_laws::is_next_forth(u, entry) ==> {
                let v = events::performed(u, Action::Redo, o).0;
                &&& tree_laws::differ_at(
                    u.ffon,
                    v.ffon,
                    id.drop_last(),
                    layer,
                    layer.update(i, after),
                )
                &&& v.current_id == id
            }
        }),
{
    let entry = EntryView::Structure {
        id,
        op: StructuralOp::Replace,
        payload: PayloadView::Replaced { before, after },
    };
    let i = id.last() as int;
    tree_laws::lemma_layered(u.ffon, id, layer, layer.update(i, before));
    tree_laws::lemma_layered(u.ffon, id, layer, layer.update(i, after));
    lemma_no_group(before, id);
    lemma_no_group(after, id);
    reveal(moves::redrawn);
    reveal(moves::placed);
    reveal(moves::replaced_at);
    if disk_laws::is_next_back(u, entry) {
        disk_laws::lemma_undo(u, entry, o);
        reveal(history::undone);
        reveal(history::structure_undone);
    }
    if disk_laws::is_next_forth(u, entry) {
        disk_laws::lemma_redo(u, entry, o);
        reveal(history::redone);
        reveal(history::structure_redone);
    }
}

proof fn lemma_no_group(n: Node, id: Seq<usize>)
    requires
        enter_laws::untagged(ffon::node_text(n)),
    ensures
        history::inside_radio(id, n) == id,
{
    let s = ffon::node_text(n);
    reveal_strlit("<radio>");
    assert forall|i: int| !markup::occurs(s, "<radio>"@, i) by {
        if markup::occurs(s, "<radio>"@, i) {
            assert(s.subrange(i, i + "<radio>"@.len())[0] == s[i]);
        }
    }
    reveal(history::inside_radio);
}

/// For a group of buttons the position is at the chosen one.
pub proof fn law_position_is_at_the_chosen_button(
    id: Seq<usize>,
    key: Seq<char>,
    labels: Seq<Seq<char>>,
    i: int,
)
    requires
        markup::is_radio(key),
        0 <= i < labels.len() <= usize::MAX,
        forall|j: int| 0 <= j < labels.len() ==> enter_laws::untagged(#[trigger] labels[j]),
    ensures
        history::inside_radio(
            id,
            Node::Obj { key, children: enter_laws::buttons(labels, Some(i)) },
        ) == id.push(i as usize),
{
    reveal(history::inside_radio);
    lemma_chosen(labels, i, 0);
}

proof fn lemma_chosen(labels: Seq<Seq<char>>, i: int, from: int)
    requires
        0 <= from <= i < labels.len(),
        forall|j: int| 0 <= j < labels.len() ==> enter_laws::untagged(#[trigger] labels[j]),
    ensures
        history::chosen_from(enter_laws::buttons(labels, Some(i)), from) == Some(i),
    decreases i - from,
{
    enter_laws::lemma_mark(labels[from]);
    if from < i {
        lemma_chosen(labels, i, from + 1);
    }
}

/// When what was typed in the body of a message is taken back, or written again,
/// the provider is handed the lines that the body has then.
pub proof fn law_body_is_handed_over(
    u: Ui,
    id: Seq<usize>,
    layer: Seq<Node>,
    before: Node,
    after: Node,
    chunk_seq: u32,
    o: OutsideView,
)
    requires
        u.coordinate is General,
        id.len() >= 3,
        id[0] < u.providers.len(),
        ffon::layer_of(u.ffon, id) == Some(layer),
        id.last() < layer.len(),
    ensures
        ({
            let entry = EntryView::TextChunk { id, before, after, chunk_seq };
            let i = id.last() as int;
            &&& disk_laws::is_next_back(u, entry) ==> {
                let step = events::performed(u, Action::Undo, o).1.step;
                &&& step is Ask
                &&& step->provider == Some(id[0])
                &&& step->ops.len() > 0
                &&& step->ops[0] == OpView::SyncBody(layer.update(i, before))
            }
            &&& disk_laws::is_next_forth(u, entry) ==> {
                let step = events::performed(u, Action::Redo, o).1.step;
                &&& step is Ask
                &&& step->provider == Some(id[0])
                &&& step->ops.len() > 0
                &&& step->ops[0] == OpView::SyncBody(layer.update(i, after))
            }
        }),
{
    let entry = EntryView::TextChunk { id, before, after, chunk_seq };
    let i = id.last() as int;
    tree_laws::lemma_layered(u.ffon, id, layer, layer.update(i, before));
    tree_laws::lemma_layered(u.ffon, id, layer, layer.update(i, after));
    reveal(moves::placed);
    reveal(moves::replaced_at);
    if disk_laws::is_next_back(u, entry) {
        disk_laws::lemma_undo(u, entry, o);
        reveal(history::undone);
    }
    if disk_laws::is_next_forth(u, entry) {
        disk_laws::lemma_redo(u, entry, o);
        reveal(history::redone);
    }
}

/// A second tap on the insert key takes back the last step, as the undo key
/// does, and asks for an empty element to be put first then.
pub proof fn law_second_tap_takes_back(u: Ui, entry: EntryView, o: OutsideView)
    requires
        u.coordinate is General,
        entry matches EntryView::Structure { op, .. } && op == StructuralOp::Insert,
        disk_laws::is_next_back(u, entry),
        o.now - u.last_keypress_time <= 400,
    ensures
        ({
            let (v, effects) = events::performed(u, Action::InsertElement, o);
            let t = Ui { last_keypress_time: 0, ..u };
            let (w, undone) = events::performed(t, Action::Undo, o);
            &&& effects.insert_first
            &&& v.ffon == w.ffon
            &&& v.current_id == w.current_id
            &&& effects.step == undone.step
        }),
{
    let t = Ui { last_keypress_time: 0, ..u };
    reveal(moves::tapped);
    assert(moves::tapped(u, 0) == t);
    reveal(events::performed);
    reveal(events::entered);
    reveal(history::after_insert_key);
    reveal(moves::redrawn);
}

} // verus!
