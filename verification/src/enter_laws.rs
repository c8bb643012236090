//! What the enter key does with the element that the position is at.

use vstd::prelude::*;

use crate::actions;
use crate::app_state::Ui;
use crate::disk_laws;
use crate::elements;
use crate::events;
use crate::events::OutsideView;
use crate::ffon;
use crate::ffon::Node;
use crate::handlers;
use crate::list;
use crate::markup;
use crate::move_laws;
use crate::moves;
use crate::provider;
use crate::provider::{OpView, ReplyView, StepView, ThenView};
use crate::resume;
use crate::shortcuts::Action;
use crate::text;
use crate::tree_laws;

verus! {

/// Whether a text holds no tags.
pub open spec fn untagged(s: Seq<char>) -> bool {
    forall|j: int| 0 <= j < s.len() ==> #[trigger] s[j] != '<'
}

/// Whether `t` is a tag: it starts with a bracket and holds no other.
pub open spec fn is_tag(t: Seq<char>) -> bool {
    t.len() > 0 && t[0] == '<' && forall|j: int| 0 < j < t.len() ==> #[trigger] t[j] != '<'
}

/// Where the only brackets of `s` behind `from` are at `j`, a tag is found there
/// or nowhere.
pub(crate) proof fn lemma_tag_at(s: Seq<char>, tag: Seq<char>, from: int, j: int)
    requires
        is_tag(tag),
        0 <= from <= j <= s.len(),
        forall|k: int| from <= k < j ==> #[trigger] s[k] != '<',
    ensures
        markup::occurs(s, tag, j) ==> markup::find_from(s, tag, from) == Some(j),
        markup::occurs_unescaped(s, tag, j) ==> markup::find_tag_from(s, tag, from) == Some(j),
        j == s.len() ==> markup::find_from(s, tag, from) is None && markup::find_tag_from(
            s,
            tag,
            from,
        ) is None,
    decreases j - from,
{
    if from < j {
        if markup::occurs(s, tag, from) {
            assert(s.subrange(from, from + tag.len())[0] == s[from]);
        }
        lemma_tag_at(s, tag, from + 1, j);
    }
}

/// What stands between two tags is found there, whatever stands before and
/// behind them.
pub proof fn law_text_is_found_between_tags(
    before: Seq<char>,
    open: Seq<char>,
    t: Seq<char>,
    close: Seq<char>,
    rest: Seq<char>,
)
    requires
        untagged(before),
        untagged(t),
        is_tag(open),
        is_tag(close),
        before.len() > 0 ==> before.last() != '\\',
        t.len() > 0 ==> t.last() != '\\',
        open.last() != '\\',
    ensures
        markup::between(before + open + t + close + rest, open, close) == Some(t),
        markup::behind(before + open + t + close + rest, open, close) == Some(t),
        markup::has_tag(before + open + t + close + rest, open),
        markup::has_tag(before + open + t + close + rest, close),
{
    let s = before + open + t + close + rest;
    let i = before.len() as int;
    let j = i + open.len() + t.len();
    assert(s.subrange(i, i + open.len()) =~= open);
    assert(s.subrange(j, j + close.len()) =~= close);
    assert(i > 0 ==> s[i - 1] == before[i - 1]);
    assert(markup::occurs_unescaped(s, open, i));
    if t.len() > 0 {
        assert(s[j - 1] == t[t.len() - 1]);
    } else {
        assert(s[j - 1] == open[open.len() - 1]);
    }
    assert(markup::occurs_unescaped(s, close, j));
    assert forall|k: int| 0 <= k < i implies #[trigger] s[k] != '<' by {
        assert(s[k] == before[k]);
    }
    lemma_tag_at(s, open, 0, i);
    assert forall|k: int| i + open.len() <= k < j implies #[trigger] s[k] != '<' by {
        assert(s[k] == t[k - i - open.len()]);
    }
    lemma_tag_at(s, close, i + open.len(), j);
    assert(s.subrange(i + open.len(), j) =~= t);
}

/// What stands behind a tag is found there, up to the end of the text.
pub proof fn law_text_is_found_behind_a_tag(open: Seq<char>, close: Seq<char>, t: Seq<char>)
    requires
        untagged(t),
        is_tag(open),
        is_tag(close),
    ensures
        markup::behind(open + t, open, close) == Some(t),
        markup::has_tag(open + t, open),
        markup::between(open + t, open, close) is None,
{
    let s = open + t;
    assert(s.subrange(0, open.len() as int) =~= open);
    assert(markup::occurs_unescaped(s, open, 0));
    lemma_tag_at(s, open, 0, 0);
    assert forall|k: int| open.len() <= k < s.len() implies #[trigger] s[k] != '<' by {
        assert(s[k] == t[k - open.len()]);
    }
    lemma_tag_at(s, close, open.len() as int, s.len() as int);
    assert(s.skip(open.len() as int) =~= t);
}

/// The texts of a box: whether it is checked, and its label.
pub open spec fn box_text(checked: bool, label: Seq<char>) -> Seq<char> {
    if checked {
        "<checkbox checked>"@ + label
    } else {
        "<checkbox>"@ + label
    }
}

/// The element `n` with another text.
pub open spec fn with_text(n: Node, s: Seq<char>) -> Node {
    match n {
        Node::Str(_) => Node::Str(s),
        Node::Obj { children, .. } => Node::Obj { key: s, children },
    }
}

pub(crate) proof fn lemma_box(checked: bool, label: Seq<char>)
    requires
        untagged(label),
    ensures
        elements::toggled_text(box_text(checked, label)) == Some(box_text(!checked, label)),
        actions::box_change(box_text(checked, label)) == seq![
            OpView::CheckboxChange { label, checked },
        ],
{
    elements::law_checkbox_there_and_back(label);
    assert(markup::checkbox_text("<checkbox>"@ + label) == Some(label)) by {
        reveal_strlit("<checkbox>");
        reveal_strlit("</checkbox>");
        law_text_is_found_behind_a_tag("<checkbox>"@, "</checkbox>"@, label);
    }
    assert(markup::checkbox_checked_text("<checkbox checked>"@ + label) == Some(label)) by {
        reveal_strlit("<checkbox checked>");
        reveal_strlit("</checkbox>");
        law_text_is_found_behind_a_tag("<checkbox checked>"@, "</checkbox>"@, label);
    }
}

/// The element that the position is at.
pub(crate) proof fn lemma_focused(u: Ui, n: Node)
    requires
        ffon::element_at(u.ffon, u.current_id) == Some(n),
    ensures
        moves::focused_node(u) == Some(n),
        u.current_id.len() > 0,
        ffon::layer_of(u.ffon, u.current_id) is Some,
{
    reveal(ffon::layer_of);
    reveal(moves::node_at);
}

/// The enter key checks the box that the position is at, or unchecks it, and
/// tells the provider; the label stays, and so does the rest of the tree.
pub proof fn law_enter_checks_a_box(
    u: Ui,
    layer: Seq<Node>,
    checked: bool,
    label: Seq<char>,
    o: OutsideView,
)
    requires
        untagged(label),
        u.current_id.len() > 0,
        ffon::layer_of(u.ffon, u.current_id) == Some(layer),
        u.current_id.last() < layer.len(),
        u.current_id[0] < u.providers.len(),
        ffon::node_text(layer[u.current_id.last() as int]) == box_text(checked, label),
    ensures
        ({
            let (v, effects) = events::performed(u, Action::EnterOperator, o);
            let i = u.current_id.last() as int;
            let changed = layer.update(i, with_text(layer[i], box_text(!checked, label)));
            &&& tree_laws::differ_at(u.ffon, v.ffon, u.current_id.drop_last(), layer, changed)
            &&& v.current_id == u.current_id
            &&& v.coordinate == u.coordinate
            &&& effects.step matches StepView::Ask { provider, ops, .. } && {
                &&& provider == Some(u.current_id[0])
                &&& ops == seq![OpView::CheckboxChange { label, checked: !checked }]
            }
        }),
{
    reveal(events::performed);
    reveal(events::entered);
    reveal(actions::after_enter);
    reveal(actions::element_used);
    reveal(moves::node_replaced);
    let i = u.current_id.last() as int;
    lemma_focused(u, layer[i]);
    lemma_box(checked, label);
    lemma_box(!checked, label);
    let changed = layer.update(i, with_text(layer[i], box_text(!checked, label)));
    tree_laws::lemma_layered(u.ffon, u.current_id, layer, changed);
}

/// The enter key on a button has the provider do what the button stands for, and
/// fetches what there is then.
pub proof fn law_enter_presses_the_button(
    u: Ui,
    function: Seq<char>,
    shown: Seq<char>,
    o: OutsideView,
)
    requires
        untagged(function),
        function.len() > 0 ==> function.last() != '\\',
        untagged(shown),
        ffon::element_at(u.ffon, u.current_id) == Some(
            Node::Str("<button>"@ + function + "</button>"@ + shown),
        ),
        u.current_id.len() == 2,
        u.current_id[0] < u.providers.len(),
        u.current_id[0] < u.ffon.len(),
        !markup::is_radio(ffon::node_text(u.ffon[u.current_id[0] as int])),
    ensures
        ({
            let (v, effects) = events::performed(u, Action::EnterOperator, o);
            &&& v == u
            &&& effects.step matches StepView::Ask { provider, ops, .. } && {
                &&& provider == Some(u.current_id[0])
                &&& ops.len() > 0
                &&& ops[0] == OpView::ButtonPress(function)
            }
            &&& disk_laws::fetches(effects.step)
        }),
{
    let s = "<button>"@ + function + "</button>"@ + shown;
    lemma_focused(u, Node::Str(s));
    lemma_no_box(s, function, shown);
    lemma_button(s, function, shown);
    assert(elements::radio_chosen(u.ffon, u.current_id) is None) by {
        lemma_no_group(u.ffon, u.current_id);
    }
    let step = actions::pressing(u, function);
    assert(events::performed(u, Action::EnterOperator, o) == (u, events::only(step))) by {
        reveal(events::performed);
        reveal(events::entered);
        reveal(actions::after_enter);
        reveal(actions::element_used);
        reveal(actions::after_press);
    }
    assert(step->ops[2] == OpView::Fetch);
}

proof fn lemma_no_group(tree: Seq<Node>, id: Seq<usize>)
    requires
        id.len() == 2,
        id[0] < tree.len(),
        !markup::is_radio(ffon::node_text(tree[id[0] as int])),
    ensures
        elements::radio_chosen(tree, id) is None,
{
    reveal(elements::radio_chosen);
    reveal(ffon::layer_of);
    reveal(moves::node_at);
    let up = id.drop_last();
    assert(up =~= seq![id[0]]);
    assert(up.drop_last() =~= Seq::<usize>::empty());
    assert(ffon::descend(tree, up.drop_last()) == Some(tree));
}

proof fn lemma_button(s: Seq<char>, function: Seq<char>, shown: Seq<char>)
    requires
        untagged(function),
        function.len() > 0 ==> function.last() != '\\',
        s == "<button>"@ + function + "</button>"@ + shown,
    ensures
        markup::is_button(s),
        markup::button_text(s) == Some(function),
{
    reveal_strlit("<button>");
    reveal_strlit("</button>");
    let none = Seq::<char>::empty();
    law_text_is_found_between_tags(none, "<button>"@, function, "</button>"@, shown);
    assert(none + "<button>"@ + function + "</button>"@ + shown =~= s);
}

/// A text whose brackets start the tags of a button holds no box.
proof fn lemma_no_box(s: Seq<char>, function: Seq<char>, shown: Seq<char>)
    requires
        untagged(function),
        untagged(shown),
        s == "<button>"@ + function + "</button>"@ + shown,
    ensures
        elements::toggled_text(s) is None,
{
    reveal_strlit("<button>");
    reveal_strlit("</button>");
    reveal_strlit("<checkbox>");
    reveal_strlit("<checkbox checked>");
    assert forall|i: int| !markup::occurs(s, "<checkbox>"@, i) by {
        if markup::occurs(s, "<checkbox>"@, i) {
            lemma_bracket(s, function, shown, i, "<checkbox>"@);
        }
    }
    assert forall|i: int| !markup::occurs(s, "<checkbox checked>"@, i) by {
        if markup::occurs(s, "<checkbox checked>"@, i) {
            lemma_bracket(s, function, shown, i, "<checkbox checked>"@);
        }
    }
}

proof fn lemma_bracket(s: Seq<char>, function: Seq<char>, shown: Seq<char>, i: int, tag: Seq<char>)
    requires
        untagged(function),
        untagged(shown),
        s == "<button>"@ + function + "</button>"@ + shown,
        markup::occurs(s, tag, i),
        tag.len() > 2,
        tag[0] == '<',
    ensures
        tag[1] == 'b' || tag[1] == '/',
{
    reveal_strlit("<button>");
    reveal_strlit("</button>");
    let sub = s.subrange(i, i + tag.len());
    assert(sub[0] == s[i]);
    assert(sub[1] == s[i + 1]);
    let j = 8 + function.len();
    if 8 <= i < j {
        assert(s[i] == function[i - 8]);
    } else if i >= j + 9 {
        assert(s[i] == shown[i - j - 9]);
    }
}

/// The buttons of a group with these labels, of which one is chosen or none.
pub open spec fn buttons(labels: Seq<Seq<char>>, chosen: Option<int>) -> Seq<Node> {
    Seq::new(
        labels.len(),
        |j: int|
            Node::Str(
                if chosen == Some(j) {
                    "<checked>"@ + labels[j]
                } else {
                    labels[j]
                },
            ),
    )
}

pub(crate) proof fn lemma_mark(label: Seq<char>)
    requires
        untagged(label),
    ensures
        !markup::is_checked(label),
        markup::is_checked("<checked>"@ + label),
        markup::checked_text("<checked>"@ + label) == Some(label),
{
    reveal_strlit("<checked>");
    reveal_strlit("</checked>");
    law_text_is_found_behind_a_tag("<checked>"@, "</checked>"@, label);
    assert forall|i: int| !markup::occurs(label, "<checked>"@, i) by {
        if markup::occurs(label, "<checked>"@, i) {
            assert(label.subrange(i, i + "<checked>"@.len())[0] == label[i]);
        }
    }
}

proof fn lemma_chosen_value(labels: Seq<Seq<char>>, i: int, from: int)
    requires
        0 <= from <= i < labels.len(),
        forall|j: int| 0 <= j < labels.len() ==> untagged(#[trigger] labels[j]),
    ensures
        actions::chosen_value(buttons(labels, Some(i)), from) == labels[i],
    decreases i - from,
{
    lemma_mark(labels[from]);
    if from < i {
        lemma_chosen_value(labels, i, from + 1);
    }
}

/// The enter key on a button of a group chooses that button and no other, and
/// tells the provider which one it is.
pub proof fn law_enter_chooses_a_button(
    u: Ui,
    key: Seq<char>,
    labels: Seq<Seq<char>>,
    chosen: Option<int>,
    o: OutsideView,
)
    requires
        u.current_id.len() >= 2,
        u.current_id.last() < labels.len(),
        u.current_id[0] < u.providers.len(),
        ffon::element_at(u.ffon, u.current_id.drop_last()) == Some(
            Node::Obj { key, children: buttons(labels, chosen) },
        ),
        markup::is_radio(key),
        forall|j: int| 0 <= j < labels.len() ==> untagged(#[trigger] labels[j]),
        untagged(markup::display_text(labels[u.current_id.last() as int])),
    ensures
        ({
            let (v, effects) = events::performed(u, Action::EnterOperator, o);
            let i = u.current_id.last() as int;
            let label = markup::display_text(labels[i]);
            &&& tree_laws::differ_at(
                u.ffon,
                v.ffon,
                u.current_id.drop_last(),
                buttons(labels, chosen),
                buttons(labels.update(i, label), Some(i)),
            )
            &&& v.current_id == u.current_id
            &&& v.coordinate == u.coordinate
            &&& effects.step matches StepView::Ask { provider, ops, .. } && {
                &&& provider == Some(u.current_id[0])
                &&& ops == seq![
                    OpView::RadioChange { group: markup::display_text(key), value: label },
                ]
            }
        }),
{
    let id = u.current_id;
    let up = id.drop_last();
    let i = id.last() as int;
    let label = markup::display_text(labels[i]);
    let layer = buttons(labels, chosen);
    let after = buttons(labels.update(i, label), Some(i));
    assert(ffon::layer_of(u.ffon, id) == Some(layer)) by {
        move_laws::lemma_children(u.ffon, up, key, layer);
        move_laws::lemma_sibling(u.ffon, up.push(0), id.last());
        assert(move_laws::sibling(up.push(0), id.last() as int) =~= id);
    }
    lemma_focused(u, layer[i]);
    lemma_focused_at(u.ffon, up, Node::Obj { key, children: layer });
    assert forall|j: int| 0 <= j < labels.len() implies !markup::is_checked(#[trigger] labels[j])
        && markup::is_checked("<checked>"@ + labels[j]) && markup::checked_text(
        "<checked>"@ + labels[j],
    ) == Some(labels[j]) by {
        lemma_mark(labels[j]);
    }
    assert(elements::chosen_layer(layer, i) =~= after);
    tree_laws::lemma_layered(u.ffon, id, layer, after);
    assert(elements::radio_chosen(u.ffon, id) == Some(ffon::with_layer(u.ffon, id, after))) by {
        reveal(elements::radio_chosen);
    }
    assert(elements::toggled_text(ffon::node_text(layer[i])) is None) by {
        lemma_no_box_here(labels[i]);
    }
    let v = actions::button_chosen(u);
    assert(v.ffon == ffon::with_layer(u.ffon, id, after) && v.current_id == id && v.providers
        == u.providers && v.coordinate == u.coordinate) by {
        reveal(actions::button_chosen);
    }
    assert(events::performed(u, Action::EnterOperator, o) == (
        v,
        events::only(actions::choosing(v, ThenView::Relisted)),
    )) by {
        reveal(events::performed);
        reveal(events::entered);
        reveal(actions::after_enter);
        reveal(actions::element_used);
    }
    let told = labels.update(i, label);
    assert forall|j: int| 0 <= j < told.len() implies untagged(#[trigger] told[j]) by {
        if j != i {
            assert(told[j] == labels[j]);
        }
    }
    lemma_chosen_value(told, i, 0);
    lemma_group_key(u.ffon, id, layer, after, key);
}

pub(crate) proof fn lemma_focused_at(tree: Seq<Node>, id: Seq<usize>, n: Node)
    requires
        ffon::element_at(tree, id) == Some(n),
    ensures
        moves::node_at(tree, id) == Some(n),
{
    reveal(moves::node_at);
    reveal(ffon::layer_of);
}

/// The name of a group stays when one of its buttons is chosen.
proof fn lemma_group_key(
    tree: Seq<Node>,
    id: Seq<usize>,
    before: Seq<Node>,
    after: Seq<Node>,
    key: Seq<char>,
)
    requires
        id.len() >= 2,
        ffon::element_at(tree, id.drop_last()) == Some(Node::Obj { key, children: before }),
    ensures
        moves::node_at(ffon::with_layer(tree, id, after), id.drop_last()) == Some(
            Node::Obj { key, children: after },
        ),
{
    let up = id.drop_last();
    let n = Node::Obj { key, children: after };
    lemma_graft_up(tree, up, key, before, after);
    ffon::law_replace_replace(tree, up, n);
    lemma_focused_at(ffon::with_layer(tree, id, after), up, n);
}

/// Replacing the children of a branch is replacing the branch by one with the
/// same key.
proof fn lemma_graft_up(
    tree: Seq<Node>,
    id: Seq<usize>,
    key: Seq<char>,
    before: Seq<Node>,
    after: Seq<Node>,
)
    requires
        id.len() > 0,
        ffon::element_at(tree, id) == Some(Node::Obj { key, children: before }),
    ensures
        ffon::graft(tree, id, after) == ffon::replaced(
            tree,
            id,
            id.last() as int,
            Node::Obj { key, children: after },
        ),
    decreases id.len(),
{
    reveal(ffon::layer_of);
    let n = Node::Obj { key, children: after };
    if id.len() == 1 {
        assert(id.drop_last() =~= Seq::<usize>::empty());
        assert(id.drop_first() =~= Seq::<usize>::empty());
        assert(ffon::graft(before, id.drop_first(), after) == after);
    } else {
        let c = tree[id[0] as int]->children;
        let rest = id.drop_first();
        assert(id.drop_last().drop_first() =~= rest.drop_last());
        assert(id.drop_last()[0] == id[0]);
        lemma_graft_up(c, rest, key, before, after);
    }
}

/// A text without tags, marked as chosen or not, is no box.
pub(crate) proof fn lemma_no_box_here(label: Seq<char>)
    requires
        untagged(label),
    ensures
        elements::toggled_text(label) is None,
        elements::toggled_text("<checked>"@ + label) is None,
{
    reveal_strlit("<checked>");
    reveal_strlit("<checkbox>");
    reveal_strlit("<checkbox checked>");
    let marked = "<checked>"@ + label;
    let a = "<checkbox>"@;
    let b = "<checkbox checked>"@;
    assert forall|i: int|
        !markup::occurs(label, a, i) && !markup::occurs(label, b, i) && !markup::occurs(
            marked,
            a,
            i,
        ) && !markup::occurs(marked, b, i) by {
        if markup::occurs(label, a, i) {
            assert(label.subrange(i, i + a.len())[0] == label[i]);
        }
        if markup::occurs(label, b, i) {
            assert(label.subrange(i, i + b.len())[0] == label[i]);
        }
        if markup::occurs(marked, a, i) {
            assert(marked.subrange(i, i + a.len())[0] == marked[i]);
            assert(marked.subrange(i, i + a.len())[6] == marked[i + 6]);
            if i >= 9 {
                assert(marked[i] == label[i - 9]);
            }
        }
        if markup::occurs(marked, b, i) {
            assert(marked.subrange(i, i + b.len())[0] == marked[i]);
            assert(marked.subrange(i, i + b.len())[6] == marked[i + 6]);
            if i >= 9 {
                assert(marked[i] == label[i - 9]);
            }
        }
    }
}

/// A button in the part of a branch that offers new elements has the provider
/// make one. It is put in before that part, and the position is at it; the offer
/// stays, where it can be taken again.
pub proof fn law_offered_element_is_put_in(
    u: Ui,
    layer: Seq<Node>,
    offers: Seq<Node>,
    function: Seq<char>,
    shown: Seq<char>,
    new: Node,
    o: OutsideView,
    reply: ReplyView,
    now: u64,
)
    requires
        u.current_id.len() >= 3,
        u.current_id[0] < u.providers.len(),
        ffon::layer_of(u.ffon, u.current_id.drop_last()) == Some(layer),
        layer.len() == u.current_id.drop_last().last() + 1,
        layer.last() == (Node::Obj { key: "Add element:"@, children: offers }),
        u.current_id.last() < offers.len(),
        offers[u.current_id.last() as int] == Node::Str(
            "<button>"@ + function + "</button>"@ + shown,
        ),
        untagged(function),
        function.len() > 0 ==> function.last() != '\\',
        untagged(shown),
        !markup::starts_with(function, "one-opt:"@),
        reply.element == Some(new),
    ensures
        ({
            let (v, effects) = events::performed(u, Action::EnterOperator, o);
            let (w, end) = disk_laws::answered(v, effects.step, reply, now);
            let section = u.current_id.drop_last();
            &&& v == u
            &&& effects.step matches StepView::Ask { provider, ops, .. } && {
                &&& provider == Some(u.current_id[0])
                &&& ops == seq![OpView::PopPath, OpView::CreateElement(function)]
            }
            &&& tree_laws::differ_at(
                u.ffon,
                w.ffon,
                section.drop_last(),
                layer,
                layer.insert(layer.len() - 1, new),
            )
            &&& w.current_id == section
            &&& end == StepView::Done
        }),
{
    let id = u.current_id;
    let section = id.drop_last();
    let s = "<button>"@ + function + "</button>"@ + shown;
    let key = "Add element:"@;
    let branch = Node::Obj { key, children: offers };
    lemma_section(u.ffon, id, layer, branch);
    lemma_focused(u, Node::Str(s));
    lemma_no_box(s, function, shown);
    lemma_button(s, function, shown);
    let step = StepView::Ask {
        provider: Some(id[0]),
        ops: seq![OpView::PopPath, OpView::CreateElement(function)],
        then: ThenView::ElementCreated { function },
    };
    assert(events::performed(u, Action::EnterOperator, o) == (u, events::only(step))) by {
        reveal(events::performed);
        reveal(events::entered);
        reveal(actions::after_enter);
        reveal(actions::element_used);
        reveal(actions::after_press);
        reveal(actions::offers_elements);
    }
    let k = provider::learned(u, step->provider, reply.info);
    disk_laws::lemma_learned(u, step->provider, reply);
    assert(disk_laws::answered(u, step, reply, now) == actions::element_made(
        k,
        resume::answer_of(reply),
        function,
    )) by {
        reveal(resume::going_on);
        reveal(resume::command_going_on);
    }
    let m = actions::with_element(k, new, function);
    tree_laws::lemma_layered(u.ffon, section, layer, layer.insert(layer.len() - 1, new));
    assert(m.ffon == ffon::with_layer(u.ffon, section, layer.insert(layer.len() - 1, new))
        && m.current_id == section) by {
        reveal(actions::with_element);
        reveal(actions::element_added);
    }
    list::law_listing_keeps_the_rest(m);
    let w = actions::button_done(m);
    assert(w.ffon == m.ffon && w.current_id == m.current_id) by {
        reveal(moves::at_position);
        reveal(moves::redrawn);
    }
    assert(actions::element_made(k, resume::answer_of(reply), function) == (w, StepView::Done)) by {
        reveal(actions::element_made);
    }
}

/// Where the part of a branch is that offers new elements.
proof fn lemma_section(tree: Seq<Node>, id: Seq<usize>, layer: Seq<Node>, branch: Node)
    requires
        id.len() >= 3,
        ffon::layer_of(tree, id.drop_last()) == Some(layer),
        layer.len() == id.drop_last().last() + 1,
        layer.last() == branch,
        branch is Obj,
        ffon::node_text(branch) == "Add element:"@,
        id.last() < branch->children.len(),
    ensures
        ffon::element_at(tree, id) == Some(branch->children[id.last() as int]),
        moves::node_at(tree, id.drop_last()) == Some(branch),
        moves::node_at(tree, id.drop_last().drop_last()) matches Some(n) && n is Obj,
        elements::radio_chosen(tree, id) is None,
{
    let section = id.drop_last();
    let up = section.drop_last();
    lemma_focused_at(tree, section, branch);
    move_laws::lemma_children(tree, section, branch->key, branch->children);
    move_laws::lemma_sibling(tree, section.push(0), id.last());
    assert(move_laws::sibling(section.push(0), id.last() as int) =~= id);
    assert(ffon::layer_of(tree, id) == Some(branch->children));
    assert(ffon::descend(tree, up) is Some) by {
        reveal(ffon::layer_of);
    }
    lemma_up(tree, up);
    reveal_strlit("Add element:");
    reveal_strlit("<radio>");
    let key = "Add element:"@;
    assert forall|i: int| !markup::occurs(key, "<radio>"@, i) by {
        if markup::occurs(key, "<radio>"@, i) {
            assert(key.subrange(i, i + "<radio>"@.len())[0] == key[i]);
        }
    }
    reveal(elements::radio_chosen);
}

/// A layer below a path is the children of the branch at that path.
proof fn lemma_up(tree: Seq<Node>, path: Seq<usize>)
    requires
        path.len() > 0,
        ffon::descend(tree, path) is Some,
    ensures
        moves::node_at(tree, path) matches Some(n) && n is Obj,
{
    reveal(ffon::layer_of);
    reveal(moves::node_at);
    lemma_descend_up(tree, path);
}

proof fn lemma_descend_up(tree: Seq<Node>, path: Seq<usize>)
    requires
        path.len() > 0,
        ffon::descend(tree, path) is Some,
    ensures
        ffon::descend(tree, path.drop_last()) matches Some(l) && path.last() < l.len()
            && l[path.last() as int] is Obj,
    decreases path.len(),
{
    if path.len() == 1 {
        assert(path.drop_last() =~= Seq::<usize>::empty());
    } else {
        lemma_descend_up(tree[path[0] as int]->children, path.drop_first());
        assert(path.drop_first().drop_last() =~= path.drop_last().drop_first());
    }
}

/// In the file browser the enter key opens the file that the position is at; in
/// another provider it hands over what stands in the input.
pub proof fn law_enter_opens_a_file(u: Ui, f: Seq<char>, o: OutsideView)
    requires
        untagged(f),
        f.len() > 0 ==> f.last() != '\\',
        ffon::element_at(u.ffon, u.current_id) == Some(
            Node::Str("<input>"@ + f + "</input>"@),
        ),
        u.current_id.len() == 2,
        u.current_id[0] < u.providers.len(),
        u.current_id[0] < u.ffon.len(),
        !markup::is_radio(ffon::node_text(u.ffon[u.current_id[0] as int])),
        u.providers[u.current_id[0] as int].current_path.len() > 0 ==> u.providers[u.current_id[0] as int].current_path.last() != '/',
    ensures
        handlers::in_filebrowser(u) ==> {
            let step = events::performed(u, Action::EnterOperator, o).1.step;
            &&& step is Ask
            &&& step->ops == seq![
                OpView::OpenFile(
                    u.providers[u.current_id[0] as int].current_path + "/"@ + f,
                ),
            ]
        },
        !handlers::in_filebrowser(u) ==> {
            let step = events::performed(u, Action::EnterOperator, o).1.step;
            &&& step is Ask
            &&& step->provider == Some(u.current_id[0])
            &&& step->ops.len() > 0
            &&& step->ops[0] == OpView::CommitEdit { before: f, after: f }
        },
{
    let s = "<input>"@ + f + "</input>"@;
    lemma_focused(u, Node::Str(s));
    lemma_input_here(s, f);
    lemma_no_group(u.ffon, u.current_id);
    assert(events::performed(u, Action::EnterOperator, o) == events::outcome(
        actions::leaf_used(u, s),
    )) by {
        reveal(events::performed);
        reveal(events::entered);
        reveal(actions::after_enter);
        reveal(actions::element_used);
    }
    let path = u.providers[u.current_id[0] as int].current_path;
    assert(text::without_trailing(path, '/') == path);
    reveal(actions::leaf_used);
}

/// A text with one input is that alone.
proof fn lemma_input_here(s: Seq<char>, f: Seq<char>)
    requires
        untagged(f),
        f.len() > 0 ==> f.last() != '\\',
        s == "<input>"@ + f + "</input>"@,
    ensures
        markup::is_input(s),
        !markup::is_input_all(s),
        markup::input_text(s) == Some(f),
        !markup::is_button(s),
        elements::toggled_text(s) is None,
{
    let none = Seq::<char>::empty();
    let open = "<input>"@;
    let close = "</input>"@;
    assert(is_tag(open) && is_tag(close) && open.last() != '\\') by {
        reveal_strlit("<input>");
        reveal_strlit("</input>");
    }
    assert(none + open + f + close + none =~= s);
    law_text_is_found_between_tags(none, open, f, close, none);
    reveal_strlit("<input-all>");
    reveal_strlit("<button>");
    reveal_strlit("<checkbox>");
    reveal_strlit("<checkbox checked>");
    lemma_not_in_input(s, f, "<input-all>"@);
    lemma_not_in_input(s, f, "<button>"@);
    lemma_not_in_input(s, f, "<checkbox>"@);
    lemma_not_in_input(s, f, "<checkbox checked>"@);
}

proof fn lemma_not_in_input(s: Seq<char>, f: Seq<char>, tag: Seq<char>)
    requires
        untagged(f),
        s == "<input>"@ + f + "</input>"@,
        tag.len() > 6,
        tag[0] == '<',
        tag[1] != '/',
        tag[1] != 'i' || tag[6] != '>',
    ensures
        !markup::has_tag(s, tag),
{
    reveal_strlit("<input>");
    reveal_strlit("</input>");
    assert forall|k: int| !markup::occurs(s, tag, k) by {
        if markup::occurs(s, tag, k) {
            let sub = s.subrange(k, k + tag.len());
            assert(sub[0] == s[k]);
            assert(sub[1] == s[k + 1]);
            assert(sub[6] == s[k + 6]);
            let j = 7 + f.len();
            if 7 <= k < j {
                assert(s[k] == f[k - 7]);
            }
        }
    }
}

} // verus!
