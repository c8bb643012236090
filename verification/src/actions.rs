//! Keys that use the selected element: boxes, buttons, inputs and files.

use vstd::prelude::*;

use crate::app_state;
use crate::app_state::{AppRenderer, Ui};
use crate::elements;
use crate::ffon;
use crate::ffon::{FfonElement, IdArray, Node};
use crate::handlers;
use crate::list;
use crate::markup;
use crate::moves;
use crate::provider;
use crate::provider::{Op, OpView, Reply, ReplyView, Step, StepView, Then, ThenView};
use crate::steps;
use crate::text;

verus! {

/// The change of a box that has the text `s` now.
pub open spec fn box_change(s: Seq<char>) -> Seq<OpView> {
    if markup::is_checkbox_checked(s) {
        seq![
            OpView::CheckboxChange {
                label: elements::or_empty(markup::checkbox_checked_text(s)),
                checked: true,
            },
        ]
    } else if markup::is_checkbox(s) {
        seq![
            OpView::CheckboxChange {
                label: elements::or_empty(markup::checkbox_text(s)),
                checked: false,
            },
        ]
    } else {
        Seq::empty()
    }
}

/// Tell the provider of the position that a box has the text `s` now.
pub fn notify_checkbox_changed(r: &AppRenderer, s: &str, then: Then) -> (res: Step)
    ensures
        res@ == (StepView::Ask {
            provider: provider::active_index(r@),
            ops: box_change(s@),
            then: then@,
        }),
{
    let ops = if sicompass_sdk::tags::has_checkbox_checked(s) {
        let label = elements::text_or_empty(sicompass_sdk::tags::extract_checkbox_checked(s));
        provider::one_op(Op::CheckboxChange { label, checked: true })
    } else if sicompass_sdk::tags::has_checkbox(s) {
        let label = elements::text_or_empty(sicompass_sdk::tags::extract_checkbox(s));
        provider::one_op(Op::CheckboxChange { label, checked: false })
    } else {
        steps::no_ops()
    };
    Step::Ask { provider: provider::present_provider_index(r), ops, then }
}

/// The name of the group that the position is in.
pub open spec fn group_name(u: Ui) -> Seq<char> {
    match moves::node_at(u.ffon, app_state::but_last(u.current_id)) {
        Some(Node::Obj { key, .. }) => markup::display_text(key),
        _ => Seq::empty(),
    }
}

/// The text of the first button at or behind `from` that is chosen.
pub open spec fn chosen_value(layer: Seq<Node>, from: int) -> Seq<char>
    decreases layer.len() - from,
{
    if from < 0 || from >= layer.len() {
        Seq::empty()
    } else {
        match layer[from] {
            Node::Str(s) if markup::is_checked(s) => match markup::checked_text(s) {
                Some(t) => t,
                None => s,
            },
            _ => chosen_value(layer, from + 1),
        }
    }
}

fn find_chosen_value(layer: &Vec<FfonElement>) -> (res: String)
    ensures
        res@ == chosen_value(ffon::forest(layer@), 0),
{
    let mut i: usize = 0;
    while i < layer.len()
        invariant
            i <= layer.len(),
            chosen_value(ffon::forest(layer@), 0) == chosen_value(ffon::forest(layer@), i as int),
        decreases layer.len() - i,
    {
        assert(ffon::forest(layer@)[i as int] == layer@[i as int]@);
        if let FfonElement::Str(s) = &layer[i] {
            if sicompass_sdk::tags::has_checked(s.as_str()) {
                return match sicompass_sdk::tags::extract_checked(s.as_str()) {
                    Some(t) => t,
                    None => s.clone(),
                };
            }
        }
        i += 1;
    }
    proof {
        reveal_strlit("");
        assert(""@ =~= Seq::<char>::empty());
    }
    "".to_owned()
}

/// The text of the chosen button in the layer of the position.
pub open spec fn group_value(u: Ui) -> Seq<char> {
    match ffon::layer_at(u.ffon, u.current_id) {
        Some(layer) => chosen_value(layer, 0),
        None => Seq::empty(),
    }
}

/// The choice of a button in the group that the position is in.
pub open spec fn choosing(u: Ui, then: ThenView) -> StepView {
    StepView::Ask {
        provider: provider::active_index(u),
        ops: seq![OpView::RadioChange { group: group_name(u), value: group_value(u) }],
        then,
    }
}

/// Tell the provider of the position which button of a group is chosen.
pub fn notify_radio_changed(r: &AppRenderer, then: Then) -> (res: Step)
    ensures
        res@ == choosing(r@, then@),
{
    proof {
        reveal_strlit("");
        assert(""@ =~= Seq::<char>::empty());
    }
    let mut parent = r.current_id.clone();
    parent.pop();
    let group = match moves::element_ref(&r.ffon, &parent) {
        Some(FfonElement::Obj(o)) => sicompass_sdk::tags::strip_display(o.key.as_str()),
        _ => "".to_owned(),
    };
    let value = match ffon::get_ffon_at_id(&r.ffon, &r.current_id) {
        Some(layer) => find_chosen_value(layer),
        None => "".to_owned(),
    };
    Step::Ask {
        provider: provider::present_provider_index(r),
        ops: provider::one_op(Op::RadioChange { group, value }),
        then,
    }
}

/// `u` after the button at its position is chosen.
#[verifier::opaque]
pub open spec fn button_chosen(u: Ui) -> Ui {
    Ui {
        ffon: match elements::radio_chosen(u.ffon, u.current_id) {
            Some(tree) => tree,
            None => u.ffon,
        },
        ..u
    }
}

/// Choose the button at the position. Whether there is one is told.
pub(crate) fn choose_here(r: &mut AppRenderer) -> (res: bool)
    ensures
        res == elements::radio_chosen(old(r)@.ffon, old(r)@.current_id) is Some,
        final(r)@ == button_chosen(old(r)@),
        app_state::tabs_ok(old(r)@) ==> app_state::tabs_ok(final(r)@),
{
    proof {
        reveal(button_chosen);
    }
    elements::toggle_radio(&mut r.ffon, &r.current_id)
}

/// `u` with its list built anew.
pub open spec fn relisted(u: Ui) -> Ui {
    moves::redrawn(list::listed(u))
}

/// Build the list anew, and show it.
pub fn relist_and_redraw(r: &mut AppRenderer)
    requires
        app_state::tabs_ok(old(r)@),
    ensures
        final(r)@ == relisted(old(r)@),
        app_state::tabs_ok(final(r)@),
{
    moves::relist(r);
    moves::redraw(r);
}

/// The name of the function of the button at the position.
pub open spec fn function_here(u: Ui) -> Option<Seq<char>> {
    match moves::focused_node(u) {
        Some(Node::Str(s)) => markup::button_text(s),
        _ => None,
    }
}

fn find_function(r: &AppRenderer) -> (res: Option<String>)
    ensures
        text::opt_text(res) == function_here(r@),
{
    match moves::element_ref(&r.ffon, &r.current_id) {
        Some(FfonElement::Str(s)) => sicompass_sdk::tags::extract_button_function_name(s.as_str()),
        _ => None,
    }
}

/// Whether the position is in the part of a branch that offers new elements.
pub open spec fn offers_elements(u: Ui) -> bool {
    &&& u.current_id.len() >= 3
    &&& moves::node_at(u.ffon, app_state::but_last(u.current_id)) matches Some(n) && n is Obj
        && ffon::node_text(n) == "Add element:"@
    &&& moves::node_at(
        u.ffon,
        app_state::but_last(app_state::but_last(u.current_id)),
    ) matches Some(n) && n is Obj
}

fn is_offering(r: &AppRenderer) -> (b: bool)
    ensures
        b == offers_elements(r@),
{
    if r.current_id.depth() < 3 {
        return false;
    }
    let mut id = r.current_id.clone();
    id.pop();
    let is_section = match moves::element_ref(&r.ffon, &id) {
        Some(FfonElement::Obj(o)) => text::same(o.key.as_str(), "Add element:"),
        _ => false,
    };
    id.pop();
    let above = match moves::element_ref(&r.ffon, &id) {
        Some(FfonElement::Obj(_)) => true,
        _ => false,
    };
    is_section && above
}

/// `u` after a button was pressed.
pub open spec fn button_done(u: Ui) -> Ui {
    moves::redrawn(moves::at_position(list::listed(u)))
}

fn finish_button(r: &mut AppRenderer)
    requires
        app_state::tabs_ok(old(r)@),
    ensures
        final(r)@ == button_done(old(r)@),
        app_state::tabs_ok(final(r)@),
{
    moves::relist(r);
    moves::point_at_position(r);
    moves::redraw(r);
}

/// The press of the button that calls `function`.
pub open spec fn pressing(u: Ui, function: Seq<char>) -> StepView {
    StepView::Ask {
        provider: provider::active_index(u),
        ops: seq![
            OpView::ButtonPress(function),
            OpView::TakeError,
            OpView::Fetch,
            OpView::TakeError,
        ],
        then: ThenView::Pressed,
    }
}

fn press(r: &AppRenderer, function: String) -> (res: Step)
    ensures
        res@ == pressing(r@, function@),
{
    Step::Ask {
        provider: provider::present_provider_index(r),
        ops: provider::four_ops(Op::ButtonPress(function), Op::TakeError, Op::Fetch, Op::TakeError),
        then: Then::Pressed,
    }
}

/// What pressing the button at the position leads to.
#[verifier::opaque]
pub open spec fn after_press(u: Ui) -> steps::Outcome {
    match function_here(u) {
        Some(function) if u.current_id.len() > 0 => if offers_elements(u) {
            (
                u,
                StepView::Ask {
                    provider: provider::active_index(u),
                    ops: seq![OpView::PopPath, OpView::CreateElement(function)],
                    then: ThenView::ElementCreated { function },
                },
            )
        } else {
            (u, pressing(u, function))
        },
        _ => (button_done(u), StepView::Done),
    }
}

/// Press the button at the position. In the part of a branch that offers new
/// elements, the provider is asked for one first.
pub fn notify_button_pressed(r: &mut AppRenderer) -> (res: Step)
    requires
        app_state::tabs_ok(old(r)@),
    ensures
        (final(r)@, res@) == after_press(old(r)@),
        app_state::tabs_ok(final(r)@),
{
    proof {
        reveal(after_press);
    }
    match find_function(r) {
        Some(function) => if r.current_id.depth() > 0 {
            if is_offering(r) {
                Step::Ask {
                    provider: provider::present_provider_index(r),
                    ops: provider::two_ops(Op::PopPath, Op::CreateElement(function.clone())),
                    then: Then::ElementCreated { function },
                }
            } else {
                press(r, function)
            }
        } else {
            finish_button(r);
            Step::Done
        },
        None => {
            finish_button(r);
            Step::Done
        },
    }
}

/// Go on when the provider knows that a button was pressed.
pub fn button_pressed(r: &mut AppRenderer, p: Option<usize>, reply: Reply)
    requires
        app_state::tabs_ok(old(r)@),
    ensures
        final(r)@ == button_done(provider::refreshed(old(r)@, p, reply@)),
        app_state::tabs_ok(final(r)@),
{
    provider::apply_refresh(r, p, reply);
    finish_button(r);
}

/// The first button at or behind `from` that calls `function`.
pub open spec fn button_for(layer: Seq<Node>, function: Seq<char>, from: int) -> Option<int>
    decreases layer.len() - from,
{
    if from < 0 || from >= layer.len() {
        None
    } else {
        match layer[from] {
            Node::Str(s) if markup::button_text(s) == Some(function) => Some(from),
            _ => button_for(layer, function, from + 1),
        }
    }
}

fn find_button_for(layer: &Vec<FfonElement>, function: &str) -> (res: Option<usize>)
    ensures
        match res {
            Some(i) => button_for(ffon::forest(layer@), function@, 0) == Some(i as int) && i
                < layer.len(),
            None => button_for(ffon::forest(layer@), function@, 0) is None,
        },
{
    let mut i: usize = 0;
    while i < layer.len()
        invariant
            i <= layer.len(),
            button_for(ffon::forest(layer@), function@, 0) == button_for(
                ffon::forest(layer@),
                function@,
                i as int,
            ),
        decreases layer.len() - i,
    {
        assert(ffon::forest(layer@)[i as int] == layer@[i as int]@);
        if let FfonElement::Str(s) = &layer[i] {
            if let Some(f) = sicompass_sdk::tags::extract_button_function_name(s.as_str()) {
                if text::same(f.as_str(), function) {
                    return Some(i);
                }
            }
        }
        i += 1;
    }
    None
}

/// The offers without the one that calls `function`.
pub open spec fn offers_without(offers: Seq<Node>, function: Seq<char>) -> Seq<Node> {
    match button_for(offers, function, 0) {
        Some(i) => offers.remove(i),
        None => offers,
    }
}

/// The layer with `function` no longer offered by the branch at `k`.
pub open spec fn offer_taken(layer: Seq<Node>, k: int, function: Seq<char>) -> Seq<Node> {
    if 0 <= k < layer.len() && layer[k] is Obj {
        layer.update(
            k,
            Node::Obj {
                key: layer[k]->key,
                children: offers_without(layer[k]->children, function),
            },
        )
    } else {
        layer
    }
}

/// Whether the branch at `k` offers nothing.
pub open spec fn offers_nothing(layer: Seq<Node>, k: int) -> bool {
    0 <= k < layer.len() && layer[k] is Obj && layer[k]->children.len() == 0
}

/// Take the offer of `function` out of the branch at `k`. Whether it offers
/// nothing now is told.
fn take_offer(layer: &mut Vec<FfonElement>, k: usize, function: &str) -> (res: bool)
    ensures
        ffon::forest(final(layer)@) == offer_taken(
            ffon::forest(old(layer)@),
            k as int,
            function@,
        ),
        res == offers_nothing(ffon::forest(final(layer)@), k as int),
        final(layer)@.len() == old(layer)@.len(),
{
    if k >= layer.len() {
        return false;
    }
    let ghost before = layer@;
    assert(ffon::forest(before)[k as int] == before[k as int]@);
    let section = match &layer[k] {
        FfonElement::Obj(o) => {
            proof {
                ffon::lemma_obj_view(*o);
            }
            let mut offers = ffon::clone_elements(&o.children);
            if let Some(i) = find_button_for(&offers, function) {
                let ghost all = offers@;
                offers.remove(i);
                assert(ffon::forest(offers@) =~= ffon::forest(all).remove(i as int));
            }
            Some((o.key.clone(), offers))
        },
        FfonElement::Str(_) => None,
    };
    match section {
        Some((key, offers)) => {
            let left = offers.len();
            let branch = FfonElement::Obj(ffon::FfonObject { key, children: offers });
            proof {
                ffon::lemma_obj_view(branch->Obj_0);
            }
            layer[k] = branch;
            assert(ffon::forest(layer@) =~= ffon::forest(before).update(k as int, branch@));
            assert(ffon::forest(layer@)[k as int] == branch@);
            left == 0
        },
        None => {
            assert(ffon::forest(layer@) =~= ffon::forest(before));
            false
        },
    }
}

/// The layer with `new` put in before the part at `at` that offers elements.
/// Where there is another such part at the end, the one behind `new` was a
/// copy, which goes; an offer that can be taken once goes, and so does a part
/// that offers nothing then.
pub open spec fn element_added(
    layer: Seq<Node>,
    at: int,
    new: Node,
    function: Seq<char>,
) -> Seq<Node> {
    let full = layer.insert(at, new);
    let once = markup::starts_with(function, "one-opt:"@);
    if at + 1 < full.len() - 1 {
        let rest = full.remove(at + 1);
        if once {
            offer_taken(rest, rest.len() - 1, function)
        } else {
            rest
        }
    } else if once {
        let rest = offer_taken(full, at + 1, function);
        if offers_nothing(rest, at + 1) {
            rest.remove(at + 1)
        } else {
            rest
        }
    } else {
        full
    }
}

fn add_element(layer: &mut Vec<FfonElement>, at: usize, new: FfonElement, function: &str)
    requires
        at < old(layer)@.len(),
    ensures
        ffon::forest(final(layer)@) == element_added(
            ffon::forest(old(layer)@),
            at as int,
            new@,
            function@,
        ),
{
    let ghost before = layer@;
    layer.insert(at, new);
    let ghost full = layer@;
    assert(ffon::forest(full) =~= ffon::forest(before).insert(at as int, new@));
    let once = text::starts_with(function, "one-opt:");
    let len: usize = layer.len();
    if at + 1 < len - 1 {
        layer.remove(at + 1);
        assert(ffon::forest(layer@) =~= ffon::forest(full).remove(at + 1));
        if once {
            let last: usize = layer.len() - 1;
            take_offer(layer, last, function);
        }
    } else if once {
        let none_left = take_offer(layer, at + 1, function);
        if none_left {
            let ghost rest = layer@;
            layer.remove(at + 1);
            assert(ffon::forest(layer@) =~= ffon::forest(rest).remove(at + 1));
        }
    }
}

/// The tree with `new` put in before the part that the position `id` is in.
pub open spec fn tree_with_element(
    tree: Seq<Node>,
    id: Seq<usize>,
    new: Node,
    function: Seq<char>,
) -> Seq<Node> {
    let section = app_state::but_last(id);
    match ffon::layer_of(tree, section) {
        Some(layer) if section.last() < layer.len() => ffon::with_layer(
            tree,
            section,
            element_added(layer, section.last() as int, new, function),
        ),
        _ => tree,
    }
}

/// `u` with `new` put in before the part that its position is in, at `new`.
#[verifier::opaque]
pub open spec fn with_element(u: Ui, new: Node, function: Seq<char>) -> Ui {
    Ui {
        ffon: tree_with_element(u.ffon, u.current_id, new, function),
        current_id: app_state::but_last(u.current_id),
        ..u
    }
}

fn put_element(tree: &mut Vec<FfonElement>, section: &IdArray, new: FfonElement, function: &str)
    ensures
        ffon::forest(final(tree)@) == (match ffon::layer_of(
            ffon::forest(old(tree)@),
            section@,
        ) {
            Some(layer) if section@.last() < layer.len() => ffon::with_layer(
                ffon::forest(old(tree)@),
                section@,
                element_added(layer, section@.last() as int, new@, function@),
            ),
            _ => ffon::forest(old(tree)@),
        }),
{
    if section.depth() == 0 {
        proof {
            reveal(ffon::layer_of);
        }
        return;
    }
    let at: usize = section.ids[section.depth() - 1];
    let fits = match ffon::navigate_to_slice(tree, section) {
        Some(layer) => {
            assert(ffon::forest(layer@).len() == layer@.len());
            at < layer.len()
        },
        None => false,
    };
    if fits {
        if let Some(layer) = ffon::navigate_to_slice_mut(tree, section) {
            assert(at < ffon::forest(layer@).len());
            add_element(layer, at, new, function);
        }
    }
}

fn insert_element(r: &mut AppRenderer, new: FfonElement, function: &str)
    ensures
        final(r)@ == with_element(old(r)@, new@, function@),
        app_state::tabs_ok(old(r)@) ==> app_state::tabs_ok(final(r)@),
{
    proof {
        reveal(with_element);
    }
    let mut section = r.current_id.clone();
    section.pop();
    put_element(&mut r.ffon, &section, new, function);
    r.current_id = section;
}

/// What follows when the provider was asked for a new element.
#[verifier::opaque]
pub open spec fn element_made(u: Ui, reply: ReplyView, function: Seq<char>) -> steps::Outcome {
    match reply.element {
        Some(new) => (button_done(with_element(u, new, function)), StepView::Done),
        None => (u, pressing(u, function)),
    }
}

/// Go on when the provider was asked for a new element.
pub fn element_created(r: &mut AppRenderer, reply: Reply, function: String) -> (res: Step)
    requires
        app_state::tabs_ok(old(r)@),
    ensures
        (final(r)@, res@) == element_made(old(r)@, reply@, function@),
        app_state::tabs_ok(final(r)@),
{
    proof {
        reveal(element_made);
    }
    match reply.element {
        Some(new) => {
            insert_element(r, new, function.as_str());
            finish_button(r);
            Step::Done
        },
        None => press(r, function),
    }
}

/// The file that an element of the file browser stands for.
pub open spec fn file_of(key: Seq<char>) -> Option<Seq<char>> {
    if markup::is_input(key) {
        markup::input_text(key)
    } else if markup::is_input_all(key) {
        markup::between(key, "<input-all>"@, "</input-all>"@)
    } else {
        None
    }
}

fn find_file(key: &str) -> (res: Option<String>)
    ensures
        text::opt_text(res) == file_of(key@),
{
    if sicompass_sdk::tags::has_input(key) {
        sicompass_sdk::tags::extract_input(key)
    } else if markup::has_input_all(key) {
        markup::extract_input_all(key)
    } else {
        None
    }
}

/// The path of `name` in the directory `dir`.
pub open spec fn path_in(dir: Seq<char>, name: Seq<char>) -> Seq<char> {
    dir + "/"@ + name
}

/// `u` with the box at its position given the text `s`.
pub open spec fn box_set(u: Ui, n: Node, s: Seq<char>) -> Ui {
    moves::node_replaced(u, ffon::last_or_zero(u.current_id), elements::retitled(n, s))
}

fn set_box(r: &mut AppRenderer, elem: &FfonElement, s: &str)
    ensures
        final(r)@ == box_set(old(r)@, elem@, s@),
        app_state::tabs_ok(old(r)@) ==> app_state::tabs_ok(final(r)@),
{
    let idx: usize = r.current_id.last().unwrap_or(0);
    let new = elements::retitle(elem, s);
    moves::replace_node(r, idx, new);
}

/// What using the leaf with the text `s` leads to.
pub open spec fn leaf_used(u: Ui, s: Seq<char>) -> steps::Outcome {
    if (markup::is_input(s) || markup::is_input_all(s)) && !handlers::in_filebrowser(u) {
        let content = elements::or_empty(handlers::editable_text(s));
        (
            u,
            StepView::Ask {
                provider: provider::active_index(u),
                ops: seq![
                    OpView::CommitEdit { before: content, after: content },
                    OpView::TakeErrorOfFailure,
                ],
                then: ThenView::InputCommitted,
            },
        )
    } else {
        match file_of(s) {
            Some(file) => (
                moves::redrawn(u),
                StepView::Ask {
                    provider: None,
                    ops: seq![
                        OpView::OpenFile(
                            path_in(text::without_trailing(provider::path_here(u), '/'), file),
                        ),
                    ],
                    then: ThenView::Finished,
                },
            ),
            None => (moves::redrawn(u), StepView::Done),
        }
    }
}

fn use_leaf(r: &mut AppRenderer, s: &str) -> (res: Step)
    ensures
        (final(r)@, res@) == leaf_used(old(r)@, s@),
        app_state::tabs_ok(old(r)@) ==> app_state::tabs_ok(final(r)@),
{
    let in_browser = handlers::active_provider_is_filebrowser(r);
    if (sicompass_sdk::tags::has_input(s) || markup::has_input_all(s)) && !in_browser {
        let content = elements::text_or_empty(handlers::find_editable(s));
        return Step::Ask {
            provider: provider::present_provider_index(r),
            ops: provider::two_ops(
                Op::CommitEdit { before: content.clone(), after: content },
                Op::TakeErrorOfFailure,
            ),
            then: Then::InputCommitted,
        };
    }
    match find_file(s) {
        Some(file) => {
            let path = provider::current_path(r);
            let dir = text::trim_end_matches(path.as_str(), '/');
            let full = text::concat3(dir.as_str(), "/", file.as_str());
            moves::redraw(r);
            Step::Ask {
                provider: None,
                ops: provider::one_op(Op::OpenFile(full)),
                then: Then::Finished,
            }
        },
        None => {
            moves::redraw(r);
            Step::Done
        },
    }
}

/// What the enter key leads to where the position is at `n`.
#[verifier::opaque]
pub open spec fn element_used(u: Ui, n: Node) -> steps::Outcome {
    match elements::toggled_text(ffon::node_text(n)) {
        Some(s) => (
            box_set(u, n, s),
            StepView::Ask {
                provider: provider::active_index(box_set(u, n, s)),
                ops: box_change(s),
                then: ThenView::Relisted,
            },
        ),
        None => if elements::radio_chosen(u.ffon, u.current_id) is Some {
            (button_chosen(u), choosing(button_chosen(u), ThenView::Relisted))
        } else if markup::is_button(ffon::node_text(n)) {
            after_press(u)
        } else {
            match n {
                Node::Str(s) => leaf_used(u, s),
                Node::Obj { .. } => (moves::redrawn(u), StepView::Done),
            }
        },
    }
}

fn use_element(r: &mut AppRenderer, elem: &FfonElement) -> (res: Step)
    requires
        app_state::tabs_ok(old(r)@),
    ensures
        (final(r)@, res@) == element_used(old(r)@, elem@),
        app_state::tabs_ok(final(r)@),
{
    proof {
        reveal(element_used);
    }
    if let Some(s) = elements::toggle_checkbox(elem) {
        set_box(r, elem, s.as_str());
        return notify_checkbox_changed(r, s.as_str(), Then::Relisted);
    }
    let ghost before = r@;
    if choose_here(r) {
        return notify_radio_changed(r, Then::Relisted);
    }
    proof {
        lemma_nothing_chosen(before);
    }
    if sicompass_sdk::tags::has_button(elem.text()) {
        return notify_button_pressed(r);
    }
    match elem {
        FfonElement::Str(s) => use_leaf(r, s.as_str()),
        FfonElement::Obj(_) => {
            moves::redraw(r);
            Step::Done
        },
    }
}

proof fn lemma_nothing_chosen(u: Ui)
    requires
        elements::radio_chosen(u.ffon, u.current_id) is None,
    ensures
        button_chosen(u) == u,
{
    reveal(button_chosen);
}

/// What the enter key leads to.
pub open spec fn after_enter(u: Ui) -> steps::Outcome {
    match moves::focused_node(u) {
        Some(n) => element_used(u, n),
        None => (moves::redrawn(u), StepView::Done),
    }
}

/// Use the element at the position: check a box, choose or press a button,
/// hand over an input, or open a file.
pub fn handle_enter_operator(r: &mut AppRenderer) -> (res: Step)
    requires
        app_state::tabs_ok(old(r)@),
    ensures
        (final(r)@, res@) == after_enter(old(r)@),
        app_state::tabs_ok(final(r)@),
{
    match moves::focused(r) {
        Some(elem) => use_element(r, &elem),
        None => {
            moves::redraw(r);
            Step::Done
        },
    }
}

/// What follows when an input was handed over.
pub open spec fn input_handed_over(u: Ui, p: Option<usize>, reply: ReplyView) -> steps::Outcome {
    let v = provider::failure_noted(u, p, reply);
    (v, provider::fetching(v, ThenView::InputFetched))
}

/// Go on when an input was handed over.
pub fn input_committed(r: &mut AppRenderer, p: Option<usize>, reply: Reply) -> (res: Step)
    ensures
        (final(r)@, res@) == input_handed_over(old(r)@, p, reply@),
        app_state::tabs_ok(old(r)@) ==> app_state::tabs_ok(final(r)@),
{
    provider::note_failure(r, p, &reply);
    provider::refresh_current_directory(r, Then::InputFetched)
}

/// `u` after a fetch, with its list built anew.
pub open spec fn fetched_and_listed(u: Ui, p: Option<usize>, reply: ReplyView) -> Ui {
    relisted(provider::refreshed(u, p, reply))
}

/// Go on when the provider fetched what it has, and show it.
pub fn fetched(r: &mut AppRenderer, p: Option<usize>, reply: Reply)
    requires
        app_state::tabs_ok(old(r)@),
    ensures
        final(r)@ == fetched_and_listed(old(r)@, p, reply@),
        app_state::tabs_ok(final(r)@),
{
    provider::apply_refresh(r, p, reply);
    relist_and_redraw(r);
}

} // verus!
