//! Undoing steps, and doing them again.

use vstd::prelude::*;

use crate::app_state;
use crate::app_state::{AppRenderer, History, Task, TimelineState, Ui};
use crate::commands;
use crate::ffon;
use crate::ffon::{FfonElement, IdArray, Node};
use crate::handlers;
use crate::markup;
use crate::moves;
use crate::provider;
use crate::provider::{Op, OpView, Reply, ReplyView, Step, StepView, Then, ThenView};
use crate::state;
use crate::steps;
use crate::text;
use crate::timeline::{
    EntryView,
    FsOpKind,
    PayloadView,
    StructuralOp,
    StructuralPayload,
    TimelineEntry,
};

verus! {

/// The end of a step back or forth: what the providers recorded on the way is
/// thrown away.
pub open spec fn ending() -> StepView {
    StepView::Ask { provider: None, ops: seq![OpView::DiscardSteps], then: ThenView::Undone }
}

fn end_step() -> (res: Step)
    ensures
        res@ == ending(),
{
    Step::Ask { provider: None, ops: provider::one_op(Op::DiscardSteps), then: Then::Undone }
}

/// The provider at `i`, where there is one.
pub open spec fn provider_at(u: Ui, i: usize) -> Option<usize> {
    if i < u.providers.len() {
        Some(i)
    } else {
        None
    }
}

fn find_provider_at(r: &AppRenderer, i: usize) -> (res: Option<usize>)
    ensures
        res == provider_at(r@, i),
{
    if i < r.providers.len() {
        Some(i)
    } else {
        None
    }
}

/// The lines of the body that the element at `id` is in are handed over, where
/// it can be in one, and the step ends.
pub open spec fn syncing(u: Ui, id: Seq<usize>) -> StepView {
    match ffon::layer_at(u.ffon, id) {
        Some(layer) if id.len() >= 3 => StepView::Ask {
            provider: provider_at(u, id[0]),
            ops: seq![OpView::SyncBody(layer), OpView::DiscardSteps],
            then: ThenView::Undone,
        },
        _ => ending(),
    }
}

/// Hand over the lines of the body that the element at `id` is in, where it
/// can be in one, and end the step.
pub fn sync_compose_body_if_body_element(r: &AppRenderer, id: &IdArray) -> (res: Step)
    ensures
        res@ == syncing(r@, id@),
{
    if id.depth() < 3 {
        return end_step();
    }
    match ffon::get_ffon_at_id(&r.ffon, id) {
        Some(layer) => {
            let children = ffon::clone_elements(layer);
            Step::Ask {
                provider: find_provider_at(r, id.ids[0]),
                ops: provider::two_ops(Op::SyncBody(children), Op::DiscardSteps),
                then: Then::Undone,
            }
        },
        None => end_step(),
    }
}

/// The tree with the empty element that is alone in the layer of `id` taken
/// out of it.
pub open spec fn sole_cleared(tree: Seq<Node>, id: Seq<usize>) -> Seq<Node> {
    if id.len() >= 3 && ffon::layer_of(tree, id) == Some(
        seq![Node::Str("i <input></input>"@)],
    ) {
        ffon::with_layer(tree, id, Seq::empty())
    } else {
        tree
    }
}

/// The tree with the bare input that is alone in the layer of `id` replaced by
/// the place to insert an element.
pub open spec fn sole_upgraded(tree: Seq<Node>, id: Seq<usize>) -> Seq<Node> {
    if id.len() >= 3 && ffon::layer_of(tree, id) == Some(seq![handlers::placeholder()]) {
        ffon::with_layer(tree, id, seq![Node::Str("i <input></input>"@)])
    } else {
        tree
    }
}

/// `u` without the empty element that is alone in the layer of `id`.
#[verifier::opaque]
pub open spec fn placeholder_cleared(u: Ui, id: Seq<usize>) -> Ui {
    Ui { ffon: sole_cleared(u.ffon, id), ..u }
}

/// `u` with the place to insert an element in place of a bare input that is
/// alone in the layer of `id`.
#[verifier::opaque]
pub open spec fn placeholder_upgraded(u: Ui, id: Seq<usize>) -> Ui {
    Ui { ffon: sole_upgraded(u.ffon, id), ..u }
}

/// Whether the layer of `id` holds the leaf `s` alone.
fn holds_only(tree: &Vec<FfonElement>, id: &IdArray, s: &str) -> (b: bool)
    ensures
        b == (ffon::layer_of(ffon::forest(tree@), id@) == Some(seq![Node::Str(s@)])),
{
    match ffon::navigate_to_slice(tree, id) {
        Some(layer) => {
            let ghost nodes = ffon::forest(layer@);
            if layer.len() != 1 {
                assert(nodes.len() != seq![Node::Str(s@)].len());
                return false;
            }
            assert(nodes[0] == layer@[0]@);
            match &layer[0] {
                FfonElement::Str(t) => {
                    let hit = text::same(t.as_str(), s);
                    proof {
                        if hit {
                            assert(nodes =~= seq![Node::Str(s@)]);
                        } else {
                            assert(seq![Node::Str(s@)][0] == Node::Str(s@));
                        }
                    }
                    hit
                },
                FfonElement::Obj(_) => {
                    assert(seq![Node::Str(s@)][0] == Node::Str(s@));
                    false
                },
            }
        },
        None => false,
    }
}

fn clear_sole(tree: &mut Vec<FfonElement>, id: &IdArray)
    ensures
        ffon::forest(final(tree)@) == sole_cleared(ffon::forest(old(tree)@), id@),
{
    if id.depth() < 3 {
        return;
    }
    let blank = markup::i_placeholder();
    if holds_only(tree, id, blank.as_str()) {
        if let Some(layer) = ffon::navigate_to_slice_mut(tree, id) {
            layer.clear();
            assert(ffon::forest(layer@) =~= Seq::<Node>::empty());
        }
    }
}

fn upgrade_sole(tree: &mut Vec<FfonElement>, id: &IdArray)
    ensures
        ffon::forest(final(tree)@) == sole_upgraded(ffon::forest(old(tree)@), id@),
{
    if id.depth() < 3 {
        return;
    }
    if holds_only(tree, id, "<input></input>") {
        if let Some(layer) = ffon::navigate_to_slice_mut(tree, id) {
            layer.clear();
            layer.push(FfonElement::Str(markup::i_placeholder()));
            assert(ffon::forest(layer@) =~= seq![Node::Str("i <input></input>"@)]);
        }
    }
}

fn clear_sole_i_placeholder_if_body_element(r: &mut AppRenderer, id: &IdArray)
    ensures
        final(r)@ == placeholder_cleared(old(r)@, id@),
        app_state::tabs_ok(old(r)@) ==> app_state::tabs_ok(final(r)@),
{
    proof {
        reveal(placeholder_cleared);
    }
    clear_sole(&mut r.ffon, id);
}

fn upgrade_body_bare_placeholder(r: &mut AppRenderer, id: &IdArray)
    ensures
        final(r)@ == placeholder_upgraded(old(r)@, id@),
        app_state::tabs_ok(old(r)@) ==> app_state::tabs_ok(final(r)@),
{
    proof {
        reveal(placeholder_upgraded);
    }
    upgrade_sole(&mut r.ffon, id);
}

/// The first chosen button at or behind `from`.
pub open spec fn chosen_from(layer: Seq<Node>, from: int) -> Option<int>
    decreases layer.len() - from,
{
    if from < 0 || from >= layer.len() {
        None
    } else if layer[from] matches Node::Str(s) && markup::is_checked(s) {
        Some(from)
    } else {
        chosen_from(layer, from + 1)
    }
}

/// The position for the element `n` at `id`: the chosen button, where it is a
/// group of buttons.
pub open spec fn inside_radio(id: Seq<usize>, n: Node) -> Seq<usize> {
    match n {
        Node::Obj { key, children } => if markup::is_radio(key) {
            match chosen_from(children, 0) {
                Some(i) => id.push(i as usize),
                None => id,
            }
        } else {
            id
        },
        _ => id,
    }
}

/// The position for the element `elem` at `id`: the chosen button, where it is
/// a group of buttons.
pub fn cursor_inside_radio(id: &IdArray, elem: &FfonElement) -> (res: IdArray)
    ensures
        res@ == inside_radio(id@, elem@),
{
    let mut cursor = id.clone();
    if let FfonElement::Obj(o) = elem {
        proof {
            ffon::lemma_obj_view(*o);
        }
        if sicompass_sdk::tags::has_radio(o.key.as_str()) {
            if let Some(i) = find_chosen(&o.children) {
                cursor.push(i);
            }
        }
    }
    cursor
}

fn find_chosen(layer: &Vec<FfonElement>) -> (res: Option<usize>)
    ensures
        match res {
            Some(i) => chosen_from(ffon::forest(layer@), 0) == Some(i as int),
            None => chosen_from(ffon::forest(layer@), 0) is None,
        },
{
    let mut i: usize = 0;
    while i < layer.len()
        invariant
            i <= layer.len(),
            chosen_from(ffon::forest(layer@), 0) == chosen_from(ffon::forest(layer@), i as int),
        decreases layer.len() - i,
    {
        assert(ffon::forest(layer@)[i as int] == layer@[i as int]@);
        if let FfonElement::Str(s) = &layer[i] {
            if sicompass_sdk::tags::has_checked(s.as_str()) {
                return Some(i);
            }
        }
        i += 1;
    }
    None
}

/// What going to `id` leads to, where the provider `i` was at `path` then.
#[verifier::opaque]
pub open spec fn navigated(u: Ui, i: usize, id: Seq<usize>, path: Option<Seq<char>>) -> steps::Outcome {
    match path {
        Some(p) => if i < u.providers.len() && u.providers[i as int].refresh_on_navigate {
            let v = moves::placed(u, seq![i]);
            (
                v,
                StepView::Ask {
                    provider: provider::active_index(v),
                    ops: seq![OpView::SetPath(p), OpView::Fetch, OpView::TakeError],
                    then: ThenView::UndoFetched { id },
                },
            )
        } else {
            (
                moves::placed(u, id),
                StepView::Ask {
                    provider: provider::active_index(u),
                    ops: seq![OpView::SetPath(p), OpView::DiscardSteps],
                    then: ThenView::Undone,
                },
            )
        },
        None => (moves::placed(u, id), ending()),
    }
}

fn navigate(r: &mut AppRenderer, i: usize, id: &IdArray, path: &Option<String>) -> (res: Step)
    ensures
        (final(r)@, res@) == navigated(old(r)@, i, id@, text::opt_text(*path)),
        app_state::tabs_ok(old(r)@) ==> app_state::tabs_ok(final(r)@),
{
    proof {
        reveal(navigated);
    }
    match path {
        Some(p) => if i < r.providers.len() && r.providers[i].refresh_on_navigate {
            let root = IdArray::single(i);
            assert(root@ =~= seq![i]);
            moves::set_position(r, root);
            Step::Ask {
                provider: provider::present_provider_index(r),
                ops: provider::three_ops(Op::SetPath(p.clone()), Op::Fetch, Op::TakeError),
                then: Then::UndoFetched { id: id.clone() },
            }
        } else {
            let at = provider::present_provider_index(r);
            moves::set_position(r, id.clone());
            Step::Ask {
                provider: at,
                ops: provider::two_ops(Op::SetPath(p.clone()), Op::DiscardSteps),
                then: Then::Undone,
            }
        },
        None => {
            moves::set_position(r, id.clone());
            end_step()
        },
    }
}

/// `u` with the element at `id` replaced, at it.
pub open spec fn put_back(u: Ui, id: Seq<usize>, n: Node) -> Ui {
    moves::placed(moves::replaced_at(u, id, n), id)
}

fn put(r: &mut AppRenderer, id: &IdArray, elem: &FfonElement)
    ensures
        final(r)@ == put_back(old(r)@, id@, elem@),
        app_state::tabs_ok(old(r)@) ==> app_state::tabs_ok(final(r)@),
{
    moves::replace_at_id(r, id, elem.clone());
    moves::set_position(r, id.clone());
}

/// `u` with an element put in at `id`, in place of the place to insert one
/// where that is alone there, at it.
pub open spec fn put_in(u: Ui, id: Seq<usize>, n: Node) -> Ui {
    moves::placed(moves::inserted_at(placeholder_cleared(u, id), id, n), id)
}

fn insert_back(r: &mut AppRenderer, id: &IdArray, elem: &FfonElement)
    ensures
        final(r)@ == put_in(old(r)@, id@, elem@),
        app_state::tabs_ok(old(r)@) ==> app_state::tabs_ok(final(r)@),
{
    clear_sole_i_placeholder_if_body_element(r, id);
    moves::insert_at_id(r, id, elem.clone());
    moves::set_position(r, id.clone());
}

/// `u` with the element at `id` taken out.
pub open spec fn taken_back(u: Ui, id: Seq<usize>, history: History, now: u64) -> Ui {
    placeholder_upgraded(
        moves::redrawn(state::updated(moves::placed(u, id), Task::Delete, history, now)),
        id,
    )
}

fn take_back(r: &mut AppRenderer, id: &IdArray, history: History, now: u64)
    requires
        app_state::tabs_ok(old(r)@),
    ensures
        final(r)@ == taken_back(old(r)@, id@, history, now),
        app_state::tabs_ok(final(r)@),
{
    moves::set_position(r, id.clone());
    handlers::handle_delete(r, history, now);
    upgrade_body_bare_placeholder(r, id);
}

/// `u` one element before its position, where there is one.
#[verifier::opaque]
pub open spec fn one_before(u: Ui) -> Ui {
    if ffon::last_or_zero(u.current_id) > 0 {
        moves::placed_last(u, (ffon::last_or_zero(u.current_id) - 1) as usize)
    } else {
        u
    }
}

fn go_one_before(r: &mut AppRenderer)
    ensures
        final(r)@ == one_before(old(r)@),
        app_state::tabs_ok(old(r)@) ==> app_state::tabs_ok(final(r)@),
{
    proof {
        reveal(one_before);
    }
    let at: usize = r.current_id.last().unwrap_or(0);
    if at > 0 {
        moves::set_last(r, at - 1);
    }
}

/// `u` at the last element of the layer of `id`, where its position is behind
/// that.
#[verifier::opaque]
pub open spec fn not_behind(u: Ui, id: Seq<usize>) -> Ui {
    let n = ffon::layer_len(u.ffon, id);
    if u.current_id.len() > 0 && u.current_id.last() >= n && n > 0 {
        moves::placed_last(u, (n - 1) as usize)
    } else {
        u
    }
}

fn stay_before_end(r: &mut AppRenderer, id: &IdArray)
    ensures
        final(r)@ == not_behind(old(r)@, id@),
        app_state::tabs_ok(old(r)@) ==> app_state::tabs_ok(final(r)@),
{
    proof {
        reveal(not_behind);
    }
    let n: usize = ffon::get_parent_len(&r.ffon, id);
    if let Some(at) = r.current_id.last() {
        if at >= n && n > 0 {
            moves::set_last(r, n - 1);
        }
    }
}

/// What undoing a change of the tree leads to.
#[verifier::opaque]
pub open spec fn structure_undone(
    u: Ui,
    id: Seq<usize>,
    op: StructuralOp,
    payload: PayloadView,
    now: u64,
) -> steps::Outcome {
    match (op, payload) {
        (StructuralOp::Append, _) | (StructuralOp::Insert, _) => {
            let v = taken_back(u, id, History::Undo, now);
            (one_before(v), syncing(v, id))
        },
        (StructuralOp::Delete, PayloadView::Removed(n)) | (
            StructuralOp::Cut,
            PayloadView::Removed(n),
        ) => (put_in(u, id, n), syncing(put_in(u, id, n), id)),
        (StructuralOp::Paste, PayloadView::Pasted { before, .. }) => (
            put_back(u, id, before),
            ending(),
        ),
        (StructuralOp::Replace, PayloadView::Replaced { before, .. }) => (
            moves::placed(moves::replaced_at(u, id, before), inside_radio(id, before)),
            ending(),
        ),
        _ => (u, ending()),
    }
}

fn undo_structure(
    r: &mut AppRenderer,
    id: &IdArray,
    op: StructuralOp,
    payload: &StructuralPayload,
    now: u64,
) -> (res: Step)
    requires
        app_state::tabs_ok(old(r)@),
    ensures
        (final(r)@, res@) == structure_undone(old(r)@, id@, op, payload@, now),
        app_state::tabs_ok(final(r)@),
{
    proof {
        reveal(structure_undone);
    }
    match (op, payload) {
        (StructuralOp::Append, _) | (StructuralOp::Insert, _) => {
            take_back(r, id, History::Undo, now);
            let step = sync_compose_body_if_body_element(r, id);
            go_one_before(r);
            step
        },
        (StructuralOp::Delete, StructuralPayload::Removed(e)) | (
            StructuralOp::Cut,
            StructuralPayload::Removed(e),
        ) => {
            insert_back(r, id, e);
            sync_compose_body_if_body_element(r, id)
        },
        (StructuralOp::Paste, StructuralPayload::Pasted { before, .. }) => {
            put(r, id, before);
            end_step()
        },
        (StructuralOp::Replace, StructuralPayload::Replaced { before, .. }) => {
            moves::replace_at_id(r, id, before.clone());
            moves::set_position(r, cursor_inside_radio(id, before));
            end_step()
        },
        _ => end_step(),
    }
}

/// What doing a change of the tree again leads to.
#[verifier::opaque]
pub open spec fn structure_redone(
    u: Ui,
    id: Seq<usize>,
    op: StructuralOp,
    payload: PayloadView,
    now: u64,
) -> steps::Outcome {
    match (op, payload) {
        (StructuralOp::Append, PayloadView::Inserted(n)) | (
            StructuralOp::Insert,
            PayloadView::Inserted(n),
        ) => (put_in(u, id, n), syncing(put_in(u, id, n), id)),
        (StructuralOp::Delete, _) | (StructuralOp::Cut, _) => {
            let v = taken_back(u, id, History::Redo, now);
            (not_behind(v, id), syncing(v, id))
        },
        (StructuralOp::Paste, PayloadView::Pasted { after, .. }) => (
            put_back(u, id, after),
            ending(),
        ),
        (StructuralOp::Replace, PayloadView::Replaced { after, .. }) => (
            moves::placed(moves::replaced_at(u, id, after), inside_radio(id, after)),
            ending(),
        ),
        _ => (u, ending()),
    }
}

fn redo_structure(
    r: &mut AppRenderer,
    id: &IdArray,
    op: StructuralOp,
    payload: &StructuralPayload,
    now: u64,
) -> (res: Step)
    requires
        app_state::tabs_ok(old(r)@),
    ensures
        (final(r)@, res@) == structure_redone(old(r)@, id@, op, payload@, now),
        app_state::tabs_ok(final(r)@),
{
    proof {
        reveal(structure_redone);
    }
    match (op, payload) {
        (StructuralOp::Append, StructuralPayload::Inserted(e)) | (
            StructuralOp::Insert,
            StructuralPayload::Inserted(e),
        ) => {
            insert_back(r, id, e);
            sync_compose_body_if_body_element(r, id)
        },
        (StructuralOp::Delete, _) | (StructuralOp::Cut, _) => {
            take_back(r, id, History::Redo, now);
            let step = sync_compose_body_if_body_element(r, id);
            stay_before_end(r, id);
            step
        },
        (StructuralOp::Paste, StructuralPayload::Pasted { after, .. }) => {
            put(r, id, after);
            end_step()
        },
        (StructuralOp::Replace, StructuralPayload::Replaced { after, .. }) => {
            moves::replace_at_id(r, id, after.clone());
            moves::set_position(r, cursor_inside_radio(id, after));
            end_step()
        },
        _ => end_step(),
    }
}

/// How many parts the path of the provider has below `name` and `id`.
pub open spec fn parts_below(u: Ui, id: Seq<usize>, n: Node) -> int {
    let name = ffon::node_text(n);
    let path = provider::path_here(u);
    let inside = n is Obj && (markup::ends_with(path, "/"@ + name) || path == name);
    let target = if id.len() > 1 {
        id.len() as int
    } else {
        1
    };
    (if inside {
        1int
    } else {
        0
    }) + handlers::at_least_zero(u.current_id.len() - target)
}

fn count_parts_below(r: &AppRenderer, id: &IdArray, elem: &FfonElement) -> (n: usize)
    ensures
        n == parts_below(r@, id@, elem@),
{
    let name = elem.text();
    let path = provider::current_path(r);
    let tail = text::concat("/", name);
    let inside = elem.is_obj() && (text::ends_with(path.as_str(), tail.as_str()) || text::same(
        path.as_str(),
        name,
    ));
    let target: usize = if id.depth() > 1 {
        id.depth()
    } else {
        1
    };
    let deep: usize = if r.current_id.depth() > target {
        r.current_id.depth() - target
    } else {
        0
    };
    if inside {
        deep + 1
    } else {
        deep
    }
}

/// Going out of `n` parts of the path.
pub open spec fn pops(n: nat) -> Seq<OpView> {
    Seq::new(n, |i: int| OpView::PopPath)
}

fn make_pops(n: usize) -> (res: Vec<Op>)
    ensures
        provider::ops_of(res@) == pops(n as nat),
{
    proof {
        reveal(provider::ops_of);
    }
    let mut res: Vec<Op> = Vec::new();
    let mut i: usize = 0;
    while i < n
        invariant
            i <= n,
            res.len() == i,
            forall|k: int| 0 <= k < i ==> (#[trigger] res@[k])@ == OpView::PopPath,
        decreases n - i,
    {
        res.push(Op::PopPath);
        i += 1;
    }
    assert(provider::ops_of(res@) =~= pops(n as nat));
    res
}

/// What undoing the step `entry` on files leads to.
#[verifier::opaque]
pub open spec fn files_undone(
    u: Ui,
    entry: EntryView,
    i: usize,
    id: Seq<usize>,
    op: FsOpKind,
    before: Option<Node>,
    after: Option<Node>,
) -> steps::Outcome {
    match op {
        FsOpKind::Create => match after {
            Some(n) => (
                u,
                StepView::Ask {
                    provider: provider::active_index(u),
                    ops: pops(parts_below(u, id, n) as nat),
                    then: ThenView::FsLeft { id, name: ffon::node_text(n) },
                },
            ),
            None => (u, ending()),
        },
        FsOpKind::Rename => match (before, after) {
            (Some(b), Some(a)) => (
                moves::placed(u, id),
                renaming(moves::placed(u, id), id, ffon::node_text(a), b),
            ),
            _ => (u, ending()),
        },
        FsOpKind::Paste => match after {
            Some(n) => (
                moves::placed(u, id),
                deleting(
                    moves::placed(u, id),
                    id,
                    markup::display_text(ffon::node_text(n)),
                ),
            ),
            None => (u, ending()),
        },
        FsOpKind::Delete | FsOpKind::Move => (
            u,
            StepView::Ask {
                provider: provider_at(u, i),
                ops: seq![OpView::Undo(entry)],
                then: ThenView::FsUndone { id, element: before },
            },
        ),
    }
}

/// The deletion of `name`, after which the directory is fetched.
pub open spec fn deleting(u: Ui, id: Seq<usize>, name: Seq<char>) -> StepView {
    StepView::Ask {
        provider: provider::active_index(u),
        ops: seq![
            OpView::DeleteItem(name),
            OpView::TakeErrorOfFailure,
            OpView::Fetch,
            OpView::TakeError,
        ],
        then: ThenView::FsTidied { id },
    }
}

fn delete(r: &AppRenderer, id: IdArray, name: String) -> (res: Step)
    ensures
        res@ == deleting(r@, id@, name@),
{
    Step::Ask {
        provider: provider::present_provider_index(r),
        ops: provider::four_ops(
            Op::DeleteItem(name),
            Op::TakeErrorOfFailure,
            Op::Fetch,
            Op::TakeError,
        ),
        then: Then::FsTidied { id },
    }
}

/// The renaming of `from` to the text of `to`, after which the directory is
/// fetched.
pub open spec fn renaming(u: Ui, id: Seq<usize>, from: Seq<char>, to: Node) -> StepView {
    StepView::Ask {
        provider: provider::active_index(u),
        ops: seq![
            OpView::CommitEdit { before: from, after: ffon::node_text(to) },
            OpView::TakeErrorOfFailure,
            OpView::Fetch,
            OpView::TakeError,
        ],
        then: ThenView::FsRenamed { id, element: to },
    }
}

fn rename(r: &AppRenderer, id: IdArray, from: String, to: FfonElement) -> (res: Step)
    ensures
        res@ == renaming(r@, id@, from@, to@),
{
    let after = to.text().to_owned();
    Step::Ask {
        provider: provider::present_provider_index(r),
        ops: provider::four_ops(
            Op::CommitEdit { before: from, after },
            Op::TakeErrorOfFailure,
            Op::Fetch,
            Op::TakeError,
        ),
        then: Then::FsRenamed { id, element: to },
    }
}

fn apply_fs_op_undo(
    r: &mut AppRenderer,
    entry: &TimelineEntry,
    i: usize,
    id: &IdArray,
    op: FsOpKind,
    before: &Option<FfonElement>,
    after: &Option<FfonElement>,
) -> (res: Step)
    requires
        app_state::tabs_ok(old(r)@),
    ensures
        (final(r)@, res@) == files_undone(
            old(r)@,
            entry@,
            i,
            id@,
            op,
            ffon::opt_node(*before),
            ffon::opt_node(*after),
        ),
        app_state::tabs_ok(final(r)@),
{
    proof {
        reveal(files_undone);
    }
    match op {
        FsOpKind::Create => match after {
            Some(e) => {
                let n: usize = count_parts_below(r, id, e);
                Step::Ask {
                    provider: provider::present_provider_index(r),
                    ops: make_pops(n),
                    then: Then::FsLeft { id: id.clone(), name: e.text().to_owned() },
                }
            },
            None => end_step(),
        },
        FsOpKind::Rename => match (before, after) {
            (Some(b), Some(a)) => {
                moves::set_position(r, id.clone());
                rename(r, id.clone(), a.text().to_owned(), b.clone())
            },
            _ => end_step(),
        },
        FsOpKind::Paste => match after {
            Some(e) => {
                moves::set_position(r, id.clone());
                delete(r, id.clone(), sicompass_sdk::tags::strip_display(e.text()))
            },
            None => end_step(),
        },
        FsOpKind::Delete | FsOpKind::Move => Step::Ask {
            provider: find_provider_at(r, i),
            ops: provider::one_op(Op::Undo(entry.clone())),
            then: Then::FsUndone {
                id: id.clone(),
                element: match before {
                    Some(b) => Some(b.clone()),
                    None => None,
                },
            },
        },
    }
}

/// The directory and the name of the file that was pasted.
pub open spec fn source_parts(path: Seq<char>) -> (Seq<char>, Seq<char>) {
    let slash = match text::last_index_before(path, '/', path.len() as int) {
        Some(i) => i,
        None => 0,
    };
    (path.take(slash), path.skip(slash + 1))
}

fn split_source(path: &str) -> (res: (String, String))
    requires
        path@.len() > 0,
    ensures
        (res.0@, res.1@) == source_parts(path@),
{
    let n: usize = path.unicode_len();
    let slash: usize = match text::rfind_char(path, '/') {
        Some(i) => i,
        None => 0,
    };
    let dir = text::substring(path, 0, slash);
    let name = text::substring(path, slash + 1, n);
    assert(dir@ =~= path@.take(slash as int));
    assert(name@ =~= path@.skip(slash + 1));
    (dir, name)
}

/// What doing the step `entry` on files again leads to.
#[verifier::opaque]
pub open spec fn files_redone(
    u: Ui,
    entry: EntryView,
    i: usize,
    id: Seq<usize>,
    op: FsOpKind,
    before: Option<Node>,
    after: Option<Node>,
) -> steps::Outcome {
    let v = moves::placed(u, id);
    match op {
        FsOpKind::Create => match after {
            Some(n) => if n is Obj {
                (
                    v,
                    StepView::Ask {
                        provider: provider::active_index(v),
                        ops: seq![
                            OpView::CreateDirectory(ffon::node_text(n)),
                            OpView::TakeErrorOfFailure,
                            OpView::PushPath(ffon::node_text(n)),
                            OpView::Fetch,
                            OpView::TakeError,
                        ],
                        then: ThenView::FsEntered,
                    },
                )
            } else {
                (
                    v,
                    StepView::Ask {
                        provider: provider::active_index(v),
                        ops: seq![
                            OpView::CreateFile(ffon::node_text(n)),
                            OpView::TakeErrorOfFailure,
                            OpView::Fetch,
                            OpView::TakeError,
                        ],
                        then: ThenView::UndoFetched { id },
                    },
                )
            },
            None => (u, ending()),
        },
        FsOpKind::Rename => match (before, after) {
            (Some(b), Some(a)) => (v, renaming(v, id, ffon::node_text(b), a)),
            _ => (u, ending()),
        },
        FsOpKind::Paste => match (before, after) {
            (Some(b), Some(a)) if ffon::node_text(b).len() > 0 => (
                v,
                StepView::Ask {
                    provider: provider::active_index(v),
                    ops: seq![
                        OpView::CopyItem {
                            from_dir: source_parts(ffon::node_text(b)).0,
                            from_name: source_parts(ffon::node_text(b)).1,
                            to_dir: provider::path_here(v),
                            to_name: markup::display_text(ffon::node_text(a)),
                        },
                        OpView::TakeErrorOfFailure,
                        OpView::Fetch,
                        OpView::TakeError,
                    ],
                    then: ThenView::UndoFetched { id },
                },
            ),
            _ => (u, ending()),
        },
        FsOpKind::Delete | FsOpKind::Move => (
            u,
            StepView::Ask {
                provider: provider_at(u, i),
                ops: seq![OpView::Redo(entry)],
                then: ThenView::FsUndone { id, element: None },
            },
        ),
    }
}

fn apply_fs_op_redo(
    r: &mut AppRenderer,
    entry: &TimelineEntry,
    i: usize,
    id: &IdArray,
    op: FsOpKind,
    before: &Option<FfonElement>,
    after: &Option<FfonElement>,
) -> (res: Step)
    requires
        app_state::tabs_ok(old(r)@),
    ensures
        (final(r)@, res@) == files_redone(
            old(r)@,
            entry@,
            i,
            id@,
            op,
            ffon::opt_node(*before),
            ffon::opt_node(*after),
        ),
        app_state::tabs_ok(final(r)@),
{
    proof {
        reveal(files_redone);
    }
    match op {
        FsOpKind::Create => match after {
            Some(e) => {
                moves::set_position(r, id.clone());
                let name = e.text().to_owned();
                if e.is_obj() {
                    Step::Ask {
                        provider: provider::present_provider_index(r),
                        ops: provider::five_ops(
                            Op::CreateDirectory(name.clone()),
                            Op::TakeErrorOfFailure,
                            Op::PushPath(name),
                            Op::Fetch,
                            Op::TakeError,
                        ),
                        then: Then::FsEntered,
                    }
                } else {
                    Step::Ask {
                        provider: provider::present_provider_index(r),
                        ops: provider::four_ops(
                            Op::CreateFile(name),
                            Op::TakeErrorOfFailure,
                            Op::Fetch,
                            Op::TakeError,
                        ),
                        then: Then::UndoFetched { id: id.clone() },
                    }
                }
            },
            None => end_step(),
        },
        FsOpKind::Rename => match (before, after) {
            (Some(b), Some(a)) => {
                moves::set_position(r, id.clone());
                rename(r, id.clone(), b.text().to_owned(), a.clone())
            },
            _ => end_step(),
        },
        FsOpKind::Paste => match (before, after) {
            (Some(b), Some(a)) => if b.text().unicode_len() > 0 {
                moves::set_position(r, id.clone());
                let (from_dir, from_name) = split_source(b.text());
                Step::Ask {
                    provider: provider::present_provider_index(r),
                    ops: provider::four_ops(
                        Op::CopyItem {
                            from_dir,
                            from_name,
                            to_dir: provider::current_path(r),
                            to_name: sicompass_sdk::tags::strip_display(a.text()),
                        },
                        Op::TakeErrorOfFailure,
                        Op::Fetch,
                        Op::TakeError,
                    ),
                    then: Then::UndoFetched { id: id.clone() },
                }
            } else {
                end_step()
            },
            _ => end_step(),
        },
        FsOpKind::Delete | FsOpKind::Move => Step::Ask {
            provider: find_provider_at(r, i),
            ops: provider::one_op(Op::Redo(entry.clone())),
            then: Then::FsUndone { id: id.clone(), element: None },
        },
    }
}

/// Having the provider `i` undo a step of its own, or do it again.
pub open spec fn dispatched(u: Ui, i: usize, entry: EntryView, redo: bool) -> StepView {
    StepView::Ask {
        provider: provider_at(u, i),
        ops: seq![
            if redo {
                OpView::Redo(entry)
            } else {
                OpView::Undo(entry)
            },
        ],
        then: ThenView::ProviderUndone {
            provider: i,
            name: if i < u.providers.len() {
                Some(u.providers[i as int].display_name)
            } else {
                None
            },
            redo,
        },
    }
}

fn dispatch(r: &AppRenderer, i: usize, entry: &TimelineEntry, redo: bool) -> (res: Step)
    ensures
        res@ == dispatched(r@, i, entry@, redo),
{
    let name = if i < r.providers.len() {
        Some(r.providers[i].display_name.clone())
    } else {
        None
    };
    let op = if redo {
        Op::Redo(entry.clone())
    } else {
        Op::Undo(entry.clone())
    };
    Step::Ask {
        provider: find_provider_at(r, i),
        ops: provider::one_op(op),
        then: Then::ProviderUndone { provider: i, name, redo },
    }
}

/// What undoing the step `entry` leads to.
#[verifier::opaque]
pub open spec fn undone(u: Ui, entry: EntryView, now: u64) -> steps::Outcome {
    match entry {
        EntryView::Navigate { provider_idx, from_id, from_path, .. } => navigated(
            u,
            provider_idx,
            from_id,
            from_path,
        ),
        EntryView::TextChunk { id, before, .. } => (
            put_back(u, id, before),
            syncing(put_back(u, id, before), id),
        ),
        EntryView::Structure { id, op, payload } => structure_undone(u, id, op, payload, now),
        EntryView::FsOp { provider_idx, id, op, before, after, .. } => files_undone(
            u,
            entry,
            provider_idx,
            id,
            op,
            before,
            after,
        ),
        EntryView::ImapOp { provider_idx, .. } => (
            u,
            dispatched(u, provider_idx, entry, false),
        ),
        EntryView::ChatOp { provider_idx, .. } => (
            u,
            dispatched(u, provider_idx, entry, false),
        ),
        EntryView::ProviderOp { provider_idx, .. } => (
            u,
            dispatched(u, provider_idx, entry, false),
        ),
    }
}

fn apply_undo(r: &mut AppRenderer, entry: &TimelineEntry, now: u64) -> (res: Step)
    requires
        app_state::tabs_ok(old(r)@),
    ensures
        (final(r)@, res@) == undone(old(r)@, entry@, now),
        app_state::tabs_ok(final(r)@),
{
    proof {
        reveal(undone);
    }
    match entry {
        TimelineEntry::Navigate { provider_idx, from_id, from_path, .. } => navigate(
            r,
            *provider_idx,
            from_id,
            from_path,
        ),
        TimelineEntry::TextChunk { id, before, .. } => {
            put(r, id, before);
            sync_compose_body_if_body_element(r, id)
        },
        TimelineEntry::Structure { id, op, payload } => undo_structure(r, id, *op, payload, now),
        TimelineEntry::FsOp { provider_idx, id, op, before, after, .. } => apply_fs_op_undo(
            r,
            entry,
            *provider_idx,
            id,
            *op,
            before,
            after,
        ),
        TimelineEntry::ImapOp { provider_idx, .. } => dispatch(r, *provider_idx, entry, false),
        TimelineEntry::ChatOp { provider_idx, .. } => dispatch(r, *provider_idx, entry, false),
        TimelineEntry::ProviderOp { provider_idx, .. } => dispatch(r, *provider_idx, entry, false),
    }
}

/// What doing the step `entry` again leads to.
#[verifier::opaque]
pub open spec fn redone(u: Ui, entry: EntryView, now: u64) -> steps::Outcome {
    match entry {
        EntryView::Navigate { provider_idx, to_id, to_path, .. } => navigated(
            u,
            provider_idx,
            to_id,
            to_path,
        ),
        EntryView::TextChunk { id, after, .. } => (
            put_back(u, id, after),
            syncing(put_back(u, id, after), id),
        ),
        EntryView::Structure { id, op, payload } => structure_redone(u, id, op, payload, now),
        EntryView::FsOp { provider_idx, id, op, before, after, .. } => files_redone(
            u,
            entry,
            provider_idx,
            id,
            op,
            before,
            after,
        ),
        EntryView::ImapOp { provider_idx, .. } => (u, dispatched(u, provider_idx, entry, true)),
        EntryView::ChatOp { provider_idx, .. } => (u, dispatched(u, provider_idx, entry, true)),
        EntryView::ProviderOp { provider_idx, .. } => (
            u,
            dispatched(u, provider_idx, entry, true),
        ),
    }
}

fn apply_redo(r: &mut AppRenderer, entry: &TimelineEntry, now: u64) -> (res: Step)
    requires
        app_state::tabs_ok(old(r)@),
    ensures
        (final(r)@, res@) == redone(old(r)@, entry@, now),
        app_state::tabs_ok(final(r)@),
{
    proof {
        reveal(redone);
    }
    match entry {
        TimelineEntry::Navigate { provider_idx, to_id, to_path, .. } => navigate(
            r,
            *provider_idx,
            to_id,
            to_path,
        ),
        TimelineEntry::TextChunk { id, after, .. } => {
            put(r, id, after);
            sync_compose_body_if_body_element(r, id)
        },
        TimelineEntry::Structure { id, op, payload } => redo_structure(r, id, *op, payload, now),
        TimelineEntry::FsOp { provider_idx, id, op, before, after, .. } => apply_fs_op_redo(
            r,
            entry,
            *provider_idx,
            id,
            *op,
            before,
            after,
        ),
        TimelineEntry::ImapOp { provider_idx, .. } => dispatch(r, *provider_idx, entry, true),
        TimelineEntry::ChatOp { provider_idx, .. } => dispatch(r, *provider_idx, entry, true),
        TimelineEntry::ProviderOp { provider_idx, .. } => dispatch(r, *provider_idx, entry, true),
    }
}

/// Go on when the provider is out of what is to be deleted.
pub fn files_left(r: &mut AppRenderer, id: IdArray, name: String) -> (res: Step)
    ensures
        (final(r)@, res@) == (
            moves::placed(old(r)@, id@),
            deleting(moves::placed(old(r)@, id@), id@, name@),
        ),
        app_state::tabs_ok(old(r)@) ==> app_state::tabs_ok(final(r)@),
{
    moves::set_position(r, id.clone());
    delete(r, id, name)
}

/// `u` with an empty element in the layer of `id`.
#[verifier::opaque]
pub open spec fn blank_inserted(u: Ui, id: Seq<usize>) -> Ui {
    Ui { ffon: ffon::inserted(u.ffon, id, 0, handlers::placeholder()), ..u }
}

fn insert_blank(r: &mut AppRenderer, id: &IdArray)
    ensures
        final(r)@ == blank_inserted(old(r)@, id@),
        app_state::tabs_ok(old(r)@) ==> app_state::tabs_ok(final(r)@),
{
    proof {
        reveal(blank_inserted);
    }
    ffon::insert_at(&mut r.ffon, id, 0, FfonElement::new_str("<input></input>"));
}

/// `u` with the layer of `id` not left empty, and its position in it.
#[verifier::opaque]
pub open spec fn layer_tidied(u: Ui, id: Seq<usize>) -> Ui {
    if ffon::layer_len(u.ffon, id) == 0 {
        moves::placed_last(blank_inserted(u, id), 0)
    } else {
        not_behind(u, id)
    }
}

/// Go on when the directory was fetched that something was deleted in.
pub fn files_tidied(r: &mut AppRenderer, p: Option<usize>, reply: Reply, id: IdArray) -> (res: Step)
    ensures
        (final(r)@, res@) == (
            layer_tidied(provider::refreshed(old(r)@, p, reply@), id@),
            ending(),
        ),
        app_state::tabs_ok(old(r)@) ==> app_state::tabs_ok(final(r)@),
{
    proof {
        reveal(layer_tidied);
    }
    provider::apply_refresh(r, p, reply);
    if ffon::get_parent_len(&r.ffon, &id) == 0 {
        insert_blank(r, &id);
        moves::set_last(r, 0);
    } else {
        stay_before_end(r, &id);
    }
    end_step()
}

/// Go on when the directory was fetched that something was renamed in.
pub fn files_renamed(
    r: &mut AppRenderer,
    p: Option<usize>,
    reply: Reply,
    id: IdArray,
    element: FfonElement,
) -> (res: Step)
    ensures
        (final(r)@, res@) == (
            moves::placed(
                provider::refreshed(moves::replaced_at(old(r)@, id@, element@), p, reply@),
                id@,
            ),
            ending(),
        ),
        app_state::tabs_ok(old(r)@) ==> app_state::tabs_ok(final(r)@),
{
    moves::replace_at_id(r, &id, element);
    provider::apply_refresh(r, p, reply);
    moves::set_position(r, id);
    end_step()
}

/// Go on when it was fetched what the provider has.
pub fn undo_fetched(r: &mut AppRenderer, p: Option<usize>, reply: Reply, id: IdArray) -> (res: Step)
    ensures
        (final(r)@, res@) == (
            moves::placed(provider::refreshed(old(r)@, p, reply@), id@),
            ending(),
        ),
        app_state::tabs_ok(old(r)@) ==> app_state::tabs_ok(final(r)@),
{
    provider::apply_refresh(r, p, reply);
    moves::set_position(r, id);
    end_step()
}

/// Go on when it was fetched what the provider has, at the same position.
pub fn history_fetched(r: &mut AppRenderer, p: Option<usize>, reply: Reply) -> (res: Step)
    ensures
        (final(r)@, res@) == (provider::refreshed(old(r)@, p, reply@), ending()),
        app_state::tabs_ok(old(r)@) ==> app_state::tabs_ok(final(r)@),
{
    provider::apply_refresh(r, p, reply);
    end_step()
}

/// Go on when the provider is in a directory that was made again.
pub fn files_entered(r: &mut AppRenderer, p: Option<usize>, reply: Reply) -> (res: Step)
    ensures
        (final(r)@, res@) == (steps::layer_entered(old(r)@, p, reply@), ending()),
        app_state::tabs_ok(old(r)@) ==> app_state::tabs_ok(final(r)@),
{
    steps::enter_layer(r, p, reply);
    end_step()
}

/// `u` after the provider undid a deletion, with the element back.
#[verifier::opaque]
pub open spec fn files_restored(
    u: Ui,
    reply: ReplyView,
    id: Seq<usize>,
    element: Option<Node>,
) -> Ui {
    let v = commands::error_reported(u, reply);
    match element {
        Some(n) => put_in(v, id, n),
        None => v,
    }
}

/// Go on when the provider undid a deletion or a move, or did it again.
pub fn files_undone_by_provider(
    r: &mut AppRenderer,
    reply: Reply,
    id: IdArray,
    element: Option<FfonElement>,
) -> (res: Step)
    ensures
        (final(r)@, res@) == (
            files_restored(old(r)@, reply@, id@, ffon::opt_node(element)),
            ending(),
        ),
        app_state::tabs_ok(old(r)@) ==> app_state::tabs_ok(final(r)@),
{
    proof {
        reveal(files_restored);
    }
    commands::report_error(r, &reply);
    if let Some(e) = element {
        insert_back(r, &id, &e);
    }
    end_step()
}

/// What is said of a step of a provider that is not shown.
pub open spec fn undone_elsewhere(name: Option<Seq<char>>, redo: bool) -> Seq<char> {
    (if redo {
        "redid on "@
    } else {
        "undid on "@
    }) + match name {
        Some(n) => n,
        None => "provider"@,
    }
}

fn say_undone(name: &Option<String>, redo: bool) -> (res: String)
    ensures
        res@ == undone_elsewhere(text::opt_text(*name), redo),
{
    let verb = if redo {
        "redid on "
    } else {
        "undid on "
    };
    match name {
        Some(n) => text::concat(verb, n.as_str()),
        None => text::concat(verb, "provider"),
    }
}

/// What follows when a provider undid a step of its own, or did it again.
#[verifier::opaque]
pub open spec fn undone_by_provider(
    u: Ui,
    reply: ReplyView,
    i: usize,
    name: Option<Seq<char>>,
    redo: bool,
) -> steps::Outcome {
    match reply.error {
        Some(e) => (moves::with_error(u, e), ending()),
        None => if u.current_id.len() > 0 && u.current_id[0] == i {
            (u, provider::fetching(u, ThenView::HistoryFetched))
        } else {
            (moves::with_error(u, undone_elsewhere(name, redo)), ending())
        },
    }
}

/// Go on when a provider undid a step of its own, or did it again.
pub fn provider_undone(
    r: &mut AppRenderer,
    reply: Reply,
    i: usize,
    name: Option<String>,
    redo: bool,
) -> (res: Step)
    ensures
        (final(r)@, res@) == undone_by_provider(
            old(r)@,
            reply@,
            i,
            text::opt_text(name),
            redo,
        ),
        app_state::tabs_ok(old(r)@) ==> app_state::tabs_ok(final(r)@),
{
    proof {
        reveal(undone_by_provider);
    }
    if let Some(e) = reply.error {
        moves::set_error(r, e);
        return end_step();
    }
    let here = match r.current_id.get(0) {
        Some(root) => root == i,
        None => false,
    };
    if here {
        provider::refresh_current_directory(r, Then::HistoryFetched)
    } else {
        moves::set_error(r, say_undone(&name, redo));
        end_step()
    }
}

/// The timeline of the active tab.
pub open spec fn timeline_of(u: Ui) -> TimelineState {
    u.tab_timelines[u.active_tab as int]
}

/// `u` on the way through its timeline, with `position` of its steps undone.
#[verifier::opaque]
pub open spec fn walking(u: Ui, position: int) -> Ui {
    Ui {
        in_history_action: true,
        tab_timelines: u.tab_timelines.update(
            u.active_tab as int,
            TimelineState {
                position: position as usize,
                coalesce_break: true,
                ..timeline_of(u)
            },
        ),
        ..u
    }
}

fn set_walking(r: &mut AppRenderer, position: usize)
    requires
        app_state::tabs_ok(old(r)@),
        position <= timeline_of(old(r)@).entries.len(),
    ensures
        final(r)@ == walking(old(r)@, position as int),
        app_state::tabs_ok(final(r)@),
{
    proof {
        reveal(walking);
    }
    set_position_of_timeline(r, position);
    r.in_history_action = true;
}

fn set_position_of_timeline(r: &mut AppRenderer, position: usize)
    requires
        app_state::tabs_ok(old(r)@),
        position <= timeline_of(old(r)@).entries.len(),
    ensures
        final(r)@ == app_state::with_timeline(
            old(r)@,
            TimelineState { position, coalesce_break: true, ..timeline_of(old(r)@) },
        ),
        app_state::tabs_ok(final(r)@),
{
    proof {
        reveal(app_state::timelines_ok);
    }
    let tl = r.active_timeline_mut();
    tl.position = position;
    tl.coalesce_break = true;
}

/// What a step back leads to.
#[verifier::opaque]
pub open spec fn walked_back(u: Ui, now: u64) -> steps::Outcome {
    if timeline_of(u).entries.len() == 0 {
        (moves::with_error(u, "No undo history"@), StepView::Done)
    } else if timeline_of(u).position >= timeline_of(u).entries.len() {
        (moves::with_error(u, "Nothing to undo"@), StepView::Done)
    } else {
        step_back(handlers::escaped(u, now), now)
    }
}

/// What undoing the last step that is not undone leads to, where there is one.
#[verifier::opaque]
pub open spec fn step_back(u: Ui, now: u64) -> steps::Outcome {
    let tl = timeline_of(u);
    if tl.position < tl.entries.len() {
        undone(
            walking(u, tl.position + 1),
            tl.entries[tl.entries.len() - tl.position - 1],
            now,
        )
    } else {
        (u, StepView::Done)
    }
}

fn entry_copy(r: &AppRenderer, i: usize) -> (res: TimelineEntry)
    requires
        app_state::tabs_ok(r@),
        i < timeline_of(r@).entries.len(),
    ensures
        res@ == timeline_of(r@).entries[i as int],
{
    let tl = r.active_timeline();
    assert(tl@.entries[i as int] == tl.entries@[i as int]@);
    tl.entries[i].clone()
}

fn go_step_back(r: &mut AppRenderer, now: u64) -> (res: Step)
    requires
        app_state::tabs_ok(old(r)@),
    ensures
        (final(r)@, res@) == step_back(old(r)@, now),
        app_state::tabs_ok(final(r)@),
{
    proof {
        reveal(step_back);
    }
    let n: usize = r.active_timeline().entries.len();
    let position: usize = r.active_timeline().position;
    if position < n {
        let entry = entry_copy(r, n - position - 1);
        set_walking(r, position + 1);
        apply_undo(r, &entry, now)
    } else {
        Step::Done
    }
}

/// Undo the last step that is not undone.
pub fn walk_back(r: &mut AppRenderer, now: u64) -> (res: Step)
    requires
        app_state::tabs_ok(old(r)@),
    ensures
        (final(r)@, res@) == walked_back(old(r)@, now),
        app_state::tabs_ok(final(r)@),
{
    proof {
        reveal(walked_back);
    }
    let n: usize = r.active_timeline().entries.len();
    let position: usize = r.active_timeline().position;
    if n == 0 {
        moves::set_error(r, "No undo history".to_owned());
        return Step::Done;
    }
    if position >= n {
        moves::set_error(r, "Nothing to undo".to_owned());
        return Step::Done;
    }
    handlers::handle_escape(r, now);
    go_step_back(r, now)
}

/// What a step forth leads to.
#[verifier::opaque]
pub open spec fn walked_forward(u: Ui, now: u64) -> steps::Outcome {
    if timeline_of(u).entries.len() == 0 {
        (moves::with_error(u, "No undo history"@), StepView::Done)
    } else if timeline_of(u).position == 0 {
        (moves::with_error(u, "Nothing to redo"@), StepView::Done)
    } else {
        step_forth(handlers::escaped(u, now), now)
    }
}

/// What doing the first undone step again leads to, where there is one.
#[verifier::opaque]
pub open spec fn step_forth(u: Ui, now: u64) -> steps::Outcome {
    let tl = timeline_of(u);
    if 0 < tl.position <= tl.entries.len() {
        redone(
            walking(u, tl.position - 1),
            tl.entries[tl.entries.len() - tl.position],
            now,
        )
    } else {
        (u, StepView::Done)
    }
}

fn go_step_forth(r: &mut AppRenderer, now: u64) -> (res: Step)
    requires
        app_state::tabs_ok(old(r)@),
    ensures
        (final(r)@, res@) == step_forth(old(r)@, now),
        app_state::tabs_ok(final(r)@),
{
    proof {
        reveal(step_forth);
    }
    let n: usize = r.active_timeline().entries.len();
    let position: usize = r.active_timeline().position;
    if 0 < position && position <= n {
        let entry = entry_copy(r, n - position);
        set_walking(r, position - 1);
        apply_redo(r, &entry, now)
    } else {
        Step::Done
    }
}

/// Do the first undone step again.
pub fn walk_forward(r: &mut AppRenderer, now: u64) -> (res: Step)
    requires
        app_state::tabs_ok(old(r)@),
    ensures
        (final(r)@, res@) == walked_forward(old(r)@, now),
        app_state::tabs_ok(final(r)@),
{
    proof {
        reveal(walked_forward);
    }
    let n: usize = r.active_timeline().entries.len();
    let position: usize = r.active_timeline().position;
    if n == 0 {
        moves::set_error(r, "No undo history".to_owned());
        return Step::Done;
    }
    if position == 0 {
        moves::set_error(r, "Nothing to redo".to_owned());
        return Step::Done;
    }
    handlers::handle_escape(r, now);
    go_step_forth(r, now)
}

/// `u` out of its timeline again.
#[verifier::opaque]
pub open spec fn not_walking(u: Ui) -> Ui {
    Ui { in_history_action: false, ..u }
}

fn stop_walking(r: &mut AppRenderer)
    ensures
        final(r)@ == not_walking(old(r)@),
        app_state::tabs_ok(old(r)@) ==> app_state::tabs_ok(final(r)@),
{
    proof {
        reveal(not_walking);
    }
    r.in_history_action = false;
}

/// `u` after a step back or forth.
pub open spec fn walk_ended(u: Ui) -> Ui {
    moves::redrawn(handlers::list_left(not_walking(u)))
}

/// End a step back or forth.
pub fn end_walk(r: &mut AppRenderer)
    requires
        app_state::tabs_ok(old(r)@),
    ensures
        final(r)@ == walk_ended(old(r)@),
        app_state::tabs_ok(final(r)@),
{
    stop_walking(r);
    handlers::leave_list(r);
    moves::redraw(r);
}

/// What the undo key leads to at `now`.
pub open spec fn after_undo(u: Ui, now: u64) -> steps::Outcome {
    (
        moves::redrawn(walked_back(u, now).0),
        walked_back(u, now).1,
    )
}

/// Undo the last step.
pub fn handle_undo(r: &mut AppRenderer, now: u64) -> (res: Step)
    requires
        app_state::tabs_ok(old(r)@),
    ensures
        (final(r)@, res@) == after_undo(old(r)@, now),
        app_state::tabs_ok(final(r)@),
{
    let step = walk_back(r, now);
    moves::redraw(r);
    step
}

/// What the redo key leads to at `now`.
pub open spec fn after_redo(u: Ui, now: u64) -> steps::Outcome {
    (
        moves::redrawn(walked_forward(u, now).0),
        walked_forward(u, now).1,
    )
}

/// Do the last undone step again.
pub fn handle_redo(r: &mut AppRenderer, now: u64) -> (res: Step)
    requires
        app_state::tabs_ok(old(r)@),
    ensures
        (final(r)@, res@) == after_redo(old(r)@, now),
        app_state::tabs_ok(final(r)@),
{
    let step = walk_forward(r, now);
    moves::redraw(r);
    step
}

/// What the insert key leads to at `now`; a second tap undoes the first one,
/// and an element is inserted first in the layer when that is done.
#[verifier::opaque]
pub open spec fn after_insert_key(u: Ui, history: History, now: u64) -> (Ui, StepView, bool) {
    if handlers::double_tap(u, now) {
        let (v, step) = walked_back(moves::tapped(u, 0), now);
        (v, step, true)
    } else {
        (
            moves::redrawn(
                moves::tapped(state::updated(u, Task::Insert, history, now), now),
            ),
            StepView::Done,
            false,
        )
    }
}

/// Insert an element before the current one. Where the key is tapped twice,
/// the insertion is undone, and it is told that [`insert_first`] follows when
/// the step is done.
pub fn handle_ctrl_i(r: &mut AppRenderer, history: History, now: u64) -> (res: (Step, bool))
    requires
        app_state::tabs_ok(old(r)@),
    ensures
        (final(r)@, res.0@, res.1) == after_insert_key(old(r)@, history, now),
        app_state::tabs_ok(final(r)@),
{
    proof {
        reveal(after_insert_key);
    }
    if handlers::is_double_tap(r, now) {
        moves::note_tap(r, 0);
        (walk_back(r, now), true)
    } else {
        state::update_state(r, Task::Insert, history, now);
        moves::note_tap(r, now);
        moves::redraw(r);
        (Step::Done, false)
    }
}

/// `u` with an element inserted first in its layer, for a tap at `tap`.
pub open spec fn first_inserted(u: Ui, tap: u64, now: u64) -> Ui {
    moves::redrawn(
        moves::tapped(
            state::updated(u, Task::InsertInsert, History::NoHistory, now),
            tap,
        ),
    )
}

/// Insert an element first in the layer, for a tap at `tap`.
pub fn insert_first(r: &mut AppRenderer, tap: u64, now: u64)
    requires
        app_state::tabs_ok(old(r)@),
    ensures
        final(r)@ == first_inserted(old(r)@, tap, now),
        app_state::tabs_ok(final(r)@),
{
    state::update_state(r, Task::InsertInsert, History::NoHistory, now);
    moves::note_tap(r, tap);
    moves::redraw(r);
}

} // verus!
