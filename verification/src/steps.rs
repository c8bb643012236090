//! Keys that go into and out of elements, for which the providers fetch what
//! is there.

use vstd::prelude::*;

use crate::app_state;
use crate::app_state::{AppRenderer, Coordinate, Ui};
use crate::editing;
use crate::ffon;
use crate::ffon::{FfonElement, FfonObject, IdArray, Node};
use crate::handlers;
use crate::list;
use crate::markup;
use crate::moves;
use crate::offsets;
use crate::provider;
use crate::provider::{
    LeftEnd,
    Op,
    OpView,
    Reply,
    ReplyView,
    RightEnd,
    Step,
    StepView,
    Then,
    ThenView,
};
use crate::text;
use crate::typing;

verus! {

/// What a key leads to: the user interface, and what to do outside.
pub type Outcome = (Ui, StepView);

/// The tree with the children of the branch at `id` replaced.
pub open spec fn with_children(tree: Seq<Node>, id: Seq<usize>, children: Seq<Node>) -> Seq<Node> {
    match moves::node_at(tree, id) {
        Some(Node::Obj { key, .. }) if id.len() > 0 => ffon::replaced(
            tree,
            id,
            id.last() as int,
            Node::Obj { key, children },
        ),
        _ => tree,
    }
}

/// `u` with the children of the branch at its position replaced.
#[verifier::opaque]
pub open spec fn children_set(u: Ui, children: Seq<Node>) -> Ui {
    Ui { ffon: with_children(u.ffon, u.current_id, children), ..u }
}

fn put_children(tree: &mut Vec<FfonElement>, id: &IdArray, children: Vec<FfonElement>)
    ensures
        ffon::forest(final(tree)@) == with_children(
            ffon::forest(old(tree)@),
            id@,
            ffon::forest(children@),
        ),
{
    let key = match moves::element_ref(tree, id) {
        Some(FfonElement::Obj(o)) => Some(o.key.clone()),
        _ => None,
    };
    if id.depth() == 0 {
        return;
    }
    if let Some(k) = key {
        let branch = FfonElement::Obj(FfonObject { key: k, children });
        proof {
            ffon::lemma_obj_view(branch->Obj_0);
        }
        let idx: usize = id.ids[id.depth() - 1];
        ffon::replace_at(tree, id, idx, branch);
    }
}

pub(crate) fn set_children(r: &mut AppRenderer, children: Vec<FfonElement>)
    ensures
        final(r)@ == children_set(old(r)@, ffon::forest(children@)),
        app_state::tabs_ok(old(r)@) ==> app_state::tabs_ok(final(r)@),
{
    proof {
        reveal(children_set);
    }
    put_children(&mut r.ffon, &r.current_id, children);
}

/// The roots with an empty element in the one at `i`, where it has none.
pub open spec fn root_filled(tree: Seq<Node>, i: usize) -> Seq<Node> {
    if i < tree.len() && tree[i as int] is Obj && tree[i as int]->children.len() == 0 {
        tree.update(
            i as int,
            Node::Obj { key: tree[i as int]->key, children: seq![handlers::placeholder()] },
        )
    } else {
        tree
    }
}

/// `u` with an empty element in the root `i`, where it has none.
#[verifier::opaque]
pub open spec fn with_root_filled(u: Ui, i: usize) -> Ui {
    Ui { ffon: root_filled(u.ffon, i), ..u }
}

fn fill_root_of(tree: &mut Vec<FfonElement>, i: usize)
    ensures
        ffon::forest(final(tree)@) == root_filled(ffon::forest(old(tree)@), i),
{
    if i < tree.len() {
        let ghost before = tree@;
        let key = match &tree[i] {
            FfonElement::Obj(o) => {
                proof {
                    ffon::lemma_obj_view(*o);
                }
                if o.children.len() == 0 {
                    Some(o.key.clone())
                } else {
                    None
                }
            },
            FfonElement::Str(_) => None,
        };
        if let Some(k) = key {
            let blank = FfonElement::new_str("<input></input>");
            let root = FfonElement::Obj(FfonObject { key: k, children: vec![blank] });
            proof {
                ffon::lemma_obj_view(root->Obj_0);
                assert(ffon::forest(root->Obj_0.children@) =~= seq![handlers::placeholder()]);
            }
            tree[i] = root;
            assert(ffon::forest(tree@) =~= ffon::forest(before).update(i as int, root@));
        }
    }
}

/// Put an empty element into the root `i`, where it has none.
pub(crate) fn fill_root(r: &mut AppRenderer, i: usize)
    ensures
        final(r)@ == with_root_filled(old(r)@, i),
        app_state::tabs_ok(old(r)@) ==> app_state::tabs_ok(final(r)@),
{
    proof {
        reveal(with_root_filled);
    }
    fill_root_of(&mut r.ffon, i);
}

/// `u` one layer down.
pub open spec fn down_one(u: Ui) -> Ui {
    moves::placed(u, u.current_id.push(0))
}

pub(crate) fn go_down(r: &mut AppRenderer)
    ensures
        final(r)@ == down_one(old(r)@),
        app_state::tabs_ok(old(r)@) ==> app_state::tabs_ok(final(r)@),
{
    let mut id = r.current_id.clone();
    id.push(0);
    moves::set_position(r, id);
}

/// The root that the position is in; the first one for the empty path.
pub open spec fn root_index(id: Seq<usize>) -> usize {
    if id.len() > 0 {
        id[0]
    } else {
        0
    }
}

/// `u` after the position moved, with its list built anew.
pub open spec fn arrived(u: Ui, now: u64) -> Ui {
    moves::touched(app_state::synced(list::listed(u)), now)
}

fn arrive(r: &mut AppRenderer, now: u64)
    requires
        app_state::tabs_ok(old(r)@),
    ensures
        final(r)@ == arrived(old(r)@, now),
        app_state::tabs_ok(final(r)@),
{
    moves::relist(r);
    r.sync_current_id_from_list();
    moves::touch(r, now);
}

/// What follows where the position went into an element, or could not.
#[verifier::opaque]
pub open spec fn right_done(u: Ui, moved: bool, end: RightEnd, now: u64) -> Outcome {
    match end {
        RightEnd::Key => if moved {
            (arrived(u, now), StepView::Done)
        } else {
            (u, StepView::Done)
        },
        RightEnd::Commit => (handlers::edit_closed(u, now), StepView::Done),
    }
}

fn finish_right(r: &mut AppRenderer, moved: bool, end: RightEnd, now: u64) -> (res: Step)
    requires
        app_state::tabs_ok(old(r)@),
    ensures
        (final(r)@, res@) == right_done(old(r)@, moved, end, now),
        app_state::tabs_ok(final(r)@),
{
    proof {
        reveal(right_done);
    }
    match end {
        RightEnd::Key => {
            if moved {
                arrive(r, now);
            }
        },
        RightEnd::Commit => handlers::close_edit(r, now),
    }
    Step::Done
}

/// How the position goes into the element it is at.
pub enum RightPlan {
    /// It cannot: the element has no layer.
    Stay,
    /// The layer is there.
    Down,
    /// The layer is what a link leads to.
    Link(String),
    /// The provider fetches the layer.
    Enter(String),
}

/// What a [`RightPlan`] is, as values.
pub enum RightPlanView {
    Stay,
    Down,
    Link(Seq<char>),
    Enter(Seq<char>),
}

impl View for RightPlan {
    type V = RightPlanView;

    open spec fn view(&self) -> RightPlanView {
        match self {
            RightPlan::Stay => RightPlanView::Stay,
            RightPlan::Down => RightPlanView::Down,
            RightPlan::Link(s) => RightPlanView::Link(s@),
            RightPlan::Enter(s) => RightPlanView::Enter(s@),
        }
    }
}

/// How the position goes into the element `n`.
pub open spec fn way_into(n: Option<Node>) -> RightPlanView {
    match n {
        Some(Node::Obj { key, children }) => {
            if children.len() > 0 {
                RightPlanView::Down
            } else if markup::is_link(key) && markup::link_text(key) is Some {
                RightPlanView::Link(markup::link_text(key)->0)
            } else {
                RightPlanView::Enter(markup::display_text(key))
            }
        },
        _ => RightPlanView::Stay,
    }
}

fn find_way_into(tree: &Vec<FfonElement>, id: &IdArray) -> (res: RightPlan)
    ensures
        res@ == way_into(ffon::element_at(ffon::forest(tree@), id@)),
{
    match ffon::get_element_at(tree, id) {
        Some(FfonElement::Obj(o)) => {
            proof {
                ffon::lemma_obj_view(*o);
            }
            if o.children.len() > 0 {
                RightPlan::Down
            } else {
                let link = if sicompass_sdk::tags::has_link(o.key.as_str()) {
                    sicompass_sdk::tags::extract_link(o.key.as_str())
                } else {
                    None
                };
                match link {
                    Some(url) => RightPlan::Link(url),
                    None => RightPlan::Enter(sicompass_sdk::tags::strip_display(o.key.as_str())),
                }
            }
        },
        _ => RightPlan::Stay,
    }
}

/// What going into the element at the position leads to.
#[verifier::opaque]
pub open spec fn right_raw(u: Ui, end: RightEnd, now: u64) -> Outcome {
    match way_into(ffon::element_at(u.ffon, u.current_id)) {
        RightPlanView::Stay => right_done(u, false, end, now),
        RightPlanView::Down => right_done(down_one(u), true, end, now),
        RightPlanView::Link(url) => (
            u,
            StepView::Ask {
                provider: None,
                ops: seq![OpView::ResolveLink(url)],
                then: ThenView::RightLinked { end },
            },
        ),
        RightPlanView::Enter(segment) => (
            u,
            StepView::Ask {
                provider: provider::active_index(u),
                ops: seq![OpView::PushPath(segment), OpView::Fetch, OpView::TakeError],
                then: ThenView::RightEntered { end },
            },
        ),
    }
}

/// Go into the element at the position.
pub fn navigate_right_raw(r: &mut AppRenderer, end: RightEnd, now: u64) -> (res: Step)
    requires
        app_state::tabs_ok(old(r)@),
    ensures
        (final(r)@, res@) == right_raw(old(r)@, end, now),
        app_state::tabs_ok(final(r)@),
{
    proof {
        reveal(right_raw);
    }
    match find_way_into(&r.ffon, &r.current_id) {
        RightPlan::Stay => finish_right(r, false, end, now),
        RightPlan::Down => {
            go_down(r);
            finish_right(r, true, end, now)
        },
        RightPlan::Link(url) => Step::Ask {
            provider: None,
            ops: provider::one_op(Op::ResolveLink(url)),
            then: Then::RightLinked { end },
        },
        RightPlan::Enter(segment) => Step::Ask {
            provider: provider::present_provider_index(r),
            ops: provider::three_ops(Op::PushPath(segment), Op::Fetch, Op::TakeError),
            then: Then::RightEntered { end },
        },
    }
}

/// What follows when it is loaded what a link leads to.
#[verifier::opaque]
pub open spec fn linked(u: Ui, reply: ReplyView, end: RightEnd, now: u64) -> Outcome {
    if reply.children.len() == 0 {
        right_done(u, false, end, now)
    } else {
        right_done(down_one(children_set(u, reply.children)), true, end, now)
    }
}

/// Go on when it is loaded what a link leads to.
pub fn link_loaded(r: &mut AppRenderer, reply: Reply, end: RightEnd, now: u64) -> (res: Step)
    requires
        app_state::tabs_ok(old(r)@),
    ensures
        (final(r)@, res@) == linked(old(r)@, reply@, end, now),
        app_state::tabs_ok(final(r)@),
{
    proof {
        reveal(linked);
    }
    if reply.children.len() == 0 {
        finish_right(r, false, end, now)
    } else {
        set_children(r, reply.children);
        go_down(r);
        finish_right(r, true, end, now)
    }
}

/// `u` in the layer that its provider fetched, which is not left empty.
pub open spec fn layer_entered(u: Ui, p: Option<usize>, reply: ReplyView) -> Ui {
    let i = root_index(u.current_id);
    moves::placed(with_root_filled(provider::refreshed(u, p, reply), i), seq![i, 0])
}

/// Go into the layer that the provider fetched.
pub(crate) fn enter_layer(r: &mut AppRenderer, p: Option<usize>, reply: Reply)
    ensures
        final(r)@ == layer_entered(old(r)@, p, reply@),
        app_state::tabs_ok(old(r)@) ==> app_state::tabs_ok(final(r)@),
{
    let i: usize = r.current_id.get(0).unwrap_or(0);
    provider::apply_refresh(r, p, reply);
    fill_root(r, i);
    let mut id = IdArray::single(i);
    id.push(0);
    assert(id@ =~= seq![i, 0]);
    moves::set_position(r, id);
}

/// Go on when the provider fetched the layer of an element.
pub fn layer_fetched(
    r: &mut AppRenderer,
    p: Option<usize>,
    reply: Reply,
    end: RightEnd,
    now: u64,
) -> (res: Step)
    requires
        app_state::tabs_ok(old(r)@),
    ensures
        (final(r)@, res@) == right_done(layer_entered(old(r)@, p, reply@), true, end, now),
        app_state::tabs_ok(final(r)@),
{
    enter_layer(r, p, reply);
    finish_right(r, true, end, now)
}

/// What the right key leads to.
#[verifier::opaque]
pub open spec fn after_right(u: Ui, now: u64) -> Outcome {
    match app_state::selected_item(u) {
        Some(item) => right_raw(moves::placed(u, item.id), RightEnd::Key, now),
        None => (u, StepView::Done),
    }
}

/// Go into the selected element.
pub fn handle_right(r: &mut AppRenderer, now: u64) -> (res: Step)
    requires
        app_state::tabs_ok(old(r)@),
    ensures
        (final(r)@, res@) == after_right(old(r)@, now),
        app_state::tabs_ok(final(r)@),
{
    proof {
        reveal(after_right);
    }
    match r.current_list_item_id() {
        Some(id) => {
            moves::set_position(r, id);
            navigate_right_raw(r, RightEnd::Key, now)
        },
        None => Step::Done,
    }
}

/// `u` one layer up.
pub open spec fn up_one(u: Ui) -> Ui {
    moves::placed(u, app_state::but_last(u.current_id))
}

pub(crate) fn go_up(r: &mut AppRenderer)
    ensures
        final(r)@ == up_one(old(r)@),
        app_state::tabs_ok(old(r)@) ==> app_state::tabs_ok(final(r)@),
{
    let mut id = r.current_id.clone();
    id.pop();
    moves::set_position(r, id);
}

/// What follows where the position went out of an element, or could not.
#[verifier::opaque]
pub open spec fn left_done(u: Ui, moved: bool, end: LeftEnd, now: u64) -> Outcome {
    match end {
        LeftEnd::Key => if moved {
            (arrived(u, now), StepView::Done)
        } else {
            (u, StepView::Done)
        },
        LeftEnd::Home { tap } => (
            if moved {
                arrived(u, now)
            } else {
                u
            },
            StepView::Ask { provider: None, ops: Seq::empty(), then: ThenView::HomeOn { tap } },
        ),
        LeftEnd::Toggle => (
            u,
            StepView::Ask { provider: None, ops: Seq::empty(), then: ThenView::ToggleOn },
        ),
    }
}

pub(crate) fn no_ops() -> (res: Vec<Op>)
    ensures
        provider::ops_of(res@) == Seq::<OpView>::empty(),
{
    proof {
        reveal(provider::ops_of);
    }
    let res: Vec<Op> = Vec::new();
    assert(provider::ops_of(res@) =~= Seq::<OpView>::empty());
    res
}

fn finish_left(r: &mut AppRenderer, moved: bool, end: LeftEnd, now: u64) -> (res: Step)
    requires
        app_state::tabs_ok(old(r)@),
    ensures
        (final(r)@, res@) == left_done(old(r)@, moved, end, now),
        app_state::tabs_ok(final(r)@),
{
    proof {
        reveal(left_done);
    }
    match end {
        LeftEnd::Key => {
            if moved {
                arrive(r, now);
            }
            Step::Done
        },
        LeftEnd::Home { tap } => {
            if moved {
                arrive(r, now);
            }
            Step::Ask { provider: None, ops: no_ops(), then: Then::HomeOn { tap } }
        },
        LeftEnd::Toggle => Step::Ask { provider: None, ops: no_ops(), then: Then::ToggleOn },
    }
}

/// Whether the layer above is one that the provider knows nothing of: it is
/// what a link leads to, or the hints.
pub open spec fn above_is_local(u: Ui) -> bool {
    moves::node_at(u.ffon, app_state::but_last(u.current_id)) matches Some(n) && n is Obj && (
    markup::is_link(ffon::node_text(n)) || ffon::node_text(n) == "meta"@)
}

fn is_above_local(r: &AppRenderer) -> (b: bool)
    ensures
        b == above_is_local(r@),
{
    let mut parent = r.current_id.clone();
    parent.pop();
    match moves::element_ref(&r.ffon, &parent) {
        Some(FfonElement::Obj(o)) => sicompass_sdk::tags::has_link(o.key.as_str()) || text::same(
            o.key.as_str(),
            "meta",
        ),
        _ => false,
    }
}

/// What going out of the element that the position is in leads to.
#[verifier::opaque]
pub open spec fn left_raw(u: Ui, end: LeftEnd, now: u64) -> Outcome {
    if u.current_id.len() <= 1 {
        left_done(u, false, end, now)
    } else if above_is_local(u) {
        left_done(up_one(u), true, end, now)
    } else {
        (
            u,
            StepView::Ask {
                provider: provider::active_index(u),
                ops: seq![OpView::PopPath],
                then: ThenView::LeftPopped {
                    before: if u.current_id.len() == 2 {
                        Some(provider::path_here(u))
                    } else {
                        None
                    },
                    end,
                },
            },
        )
    }
}

/// Go out of the element that the position is in.
pub fn navigate_left_raw(r: &mut AppRenderer, end: LeftEnd, now: u64) -> (res: Step)
    requires
        app_state::tabs_ok(old(r)@),
    ensures
        (final(r)@, res@) == left_raw(old(r)@, end, now),
        app_state::tabs_ok(final(r)@),
{
    proof {
        reveal(left_raw);
    }
    if r.current_id.depth() <= 1 {
        return finish_left(r, false, end, now);
    }
    if is_above_local(r) {
        go_up(r);
        return finish_left(r, true, end, now);
    }
    let before = if r.current_id.depth() == 2 {
        Some(provider::current_path(r))
    } else {
        None
    };
    Step::Ask {
        provider: provider::present_provider_index(r),
        ops: provider::one_op(Op::PopPath),
        then: Then::LeftPopped { before, end },
    }
}

/// What follows when the provider went out of the last part of its path.
#[verifier::opaque]
pub open spec fn popped(
    u: Ui,
    before: Option<Seq<char>>,
    left_name: Option<Seq<char>>,
    end: LeftEnd,
    now: u64,
) -> Outcome {
    if before matches Some(path) && path != provider::path_here(u) {
        (u, provider::fetching(u, ThenView::LeftFetched { name: left_name, end }))
    } else {
        left_done(up_one(u), true, end, now)
    }
}

/// Go on when the provider went out of the last part of its path.
pub fn path_popped(
    r: &mut AppRenderer,
    before: Option<String>,
    left_name: Option<String>,
    end: LeftEnd,
    now: u64,
) -> (res: Step)
    requires
        app_state::tabs_ok(old(r)@),
    ensures
        (final(r)@, res@) == popped(
            old(r)@,
            text::opt_text(before),
            text::opt_text(left_name),
            end,
            now,
        ),
        app_state::tabs_ok(final(r)@),
{
    proof {
        reveal(popped);
    }
    let changed = match before {
        Some(path) => !text::same(path.as_str(), provider::current_path(r).as_str()),
        None => false,
    };
    if changed {
        provider::refresh_current_directory(r, Then::LeftFetched { name: left_name, end })
    } else {
        go_up(r);
        finish_left(r, true, end, now)
    }
}

/// The first element at or behind `from` that is shown as `name`; only
/// branches count where they are asked for.
pub open spec fn shown_as(
    layer: Seq<Node>,
    name: Seq<char>,
    branches: bool,
    from: int,
) -> Option<int>
    decreases layer.len() - from,
{
    if from < 0 || from >= layer.len() {
        None
    } else if (layer[from] is Obj || !branches) && markup::display_text(
        ffon::node_text(layer[from]),
    ) == name {
        Some(from)
    } else {
        shown_as(layer, name, branches, from + 1)
    }
}

/// The first element that is shown as `name`.
pub(crate) fn find_shown(layer: &Vec<FfonElement>, name: &str, branches: bool) -> (res: Option<
    usize,
>)
    ensures
        match res {
            Some(i) => shown_as(ffon::forest(layer@), name@, branches, 0) == Some(i as int) && i
                < layer.len(),
            None => shown_as(ffon::forest(layer@), name@, branches, 0) is None,
        },
{
    let mut i: usize = 0;
    while i < layer.len()
        invariant
            i <= layer.len(),
            shown_as(ffon::forest(layer@), name@, branches, 0) == shown_as(
                ffon::forest(layer@),
                name@,
                branches,
                i as int,
            ),
        decreases layer.len() - i,
    {
        let e = &layer[i];
        let counts = e.is_obj() || !branches;
        assert(ffon::forest(layer@)[i as int] == e@);
        let shown = sicompass_sdk::tags::strip_display(e.text());
        if counts && text::same(shown.as_str(), name) {
            return Some(i);
        }
        i += 1;
    }
    None
}

/// The index of the directory `name` in the root that the position is in.
pub open spec fn folder_index(tree: Seq<Node>, id: Seq<usize>, name: Option<Seq<char>>) -> int {
    match name {
        Some(n) => if id.len() > 0 && id[0] < tree.len() && tree[id[0] as int] is Obj {
            match shown_as(tree[id[0] as int]->children, n, true, 0) {
                Some(i) => i,
                None => 0,
            }
        } else {
            0
        },
        None => 0,
    }
}

fn find_folder(tree: &Vec<FfonElement>, id: &IdArray, name: Option<String>) -> (res: usize)
    ensures
        res == folder_index(ffon::forest(tree@), id@, text::opt_text(name)),
{
    match (name, id.get(0)) {
        (Some(n), Some(root)) => if root < tree.len() {
            match &tree[root] {
                FfonElement::Obj(o) => {
                    proof {
                        ffon::lemma_obj_view(*o);
                        assert(ffon::forest(tree@)[root as int] == tree@[root as int]@);
                    }
                    match find_shown(&o.children, n.as_str(), true) {
                        Some(i) => i,
                        None => 0,
                    }
                },
                FfonElement::Str(_) => {
                    assert(ffon::forest(tree@)[root as int] == tree@[root as int]@);
                    0
                },
            }
        } else {
            0
        },
        _ => 0,
    }
}

/// `u` in the directory above, which its provider fetched, at the directory
/// that it came from.
pub open spec fn folder_left(
    u: Ui,
    p: Option<usize>,
    reply: ReplyView,
    name: Option<Seq<char>>,
) -> Ui {
    let v = provider::refreshed(u, p, reply);
    moves::placed_last(v, folder_index(v.ffon, v.current_id, name) as usize)
}

/// Go on when the provider fetched the directory above.
pub fn folder_fetched(
    r: &mut AppRenderer,
    p: Option<usize>,
    reply: Reply,
    name: Option<String>,
    end: LeftEnd,
    now: u64,
) -> (res: Step)
    requires
        app_state::tabs_ok(old(r)@),
    ensures
        (final(r)@, res@) == left_done(
            folder_left(old(r)@, p, reply@, text::opt_text(name)),
            true,
            end,
            now,
        ),
        app_state::tabs_ok(final(r)@),
{
    provider::apply_refresh(r, p, reply);
    let i: usize = find_folder(&r.ffon, &r.current_id, name);
    moves::set_last(r, i);
    finish_left(r, true, end, now)
}

/// Go out of the element that the position is in.
pub fn handle_left(r: &mut AppRenderer, now: u64) -> (res: Step)
    requires
        app_state::tabs_ok(old(r)@),
    ensures
        (final(r)@, res@) == left_raw(old(r)@, LeftEnd::Key, now),
        app_state::tabs_ok(final(r)@),
{
    navigate_left_raw(r, LeftEnd::Key, now)
}

/// `u` after the home key at `tap`, at the start of its layer.
pub open spec fn home_reached(u: Ui, tap: u64) -> Ui {
    let v = list::listed(moves::tapped(u, tap));
    moves::redrawn(moves::list_scrolled(v, v.list_index as i32))
}

fn reach_home(r: &mut AppRenderer, tap: u64)
    requires
        app_state::tabs_ok(old(r)@),
    ensures
        final(r)@ == home_reached(old(r)@, tap),
        app_state::tabs_ok(final(r)@),
{
    moves::note_tap(r, tap);
    moves::relist(r);
    let n: i32 = #[verifier::truncate] (r.list_index as i32);
    moves::set_scroll(r, n);
    moves::redraw(r);
}

/// What the home key leads to.
#[verifier::opaque]
pub open spec fn after_home(u: Ui, now: u64) -> Outcome {
    match u.coordinate {
        Coordinate::Scroll => (handlers::scrolled(u, 0), StepView::Done),
        Coordinate::General => if handlers::double_tap(u, now) && u.current_id.len() > 1 {
            left_raw(u, LeftEnd::Home { tap: now }, now)
        } else {
            (home_reached(moves::placed_last(u, 0), now), StepView::Done)
        },
        _ => (
            typing::moved_to(
                u,
                editing::line_start_at(typing::text_here(u), u.cursor_position as int) as int,
                now,
            ),
            StepView::Done,
        ),
    }
}

/// Go to the start of the text, of the layer or of the line; a second tap goes
/// to the root.
pub fn handle_home(r: &mut AppRenderer, now: u64) -> (res: Step)
    requires
        app_state::tabs_ok(old(r)@),
        !(old(r)@.coordinate is Scroll) && !(old(r)@.coordinate is General)
            ==> old(r)@.cursor_position <= offsets::byte_len(typing::text_here(old(r)@)),
    ensures
        (final(r)@, res@) == after_home(old(r)@, now),
        app_state::tabs_ok(old(r)@) ==> app_state::tabs_ok(final(r)@),
{
    proof {
        reveal(after_home);
    }
    match r.coordinate {
        Coordinate::Scroll => {
            handlers::scroll_text(r, 0);
            Step::Done
        },
        Coordinate::General => if handlers::is_double_tap(r, now) && r.current_id.depth() > 1 {
            navigate_left_raw(r, LeftEnd::Home { tap: now }, now)
        } else {
            moves::set_last(r, 0);
            reach_home(r, now);
            Step::Done
        },
        _ => {
            typing::line_home(r, now);
            Step::Done
        },
    }
}

/// What follows on the way to the root.
#[verifier::opaque]
pub open spec fn on_the_way_home(u: Ui, tap: u64, now: u64) -> Outcome {
    if u.current_id.len() > 1 {
        left_raw(u, LeftEnd::Home { tap }, now)
    } else {
        (home_reached(u, tap), StepView::Done)
    }
}

/// Go on to the root.
pub fn go_home(r: &mut AppRenderer, tap: u64, now: u64) -> (res: Step)
    requires
        app_state::tabs_ok(old(r)@),
    ensures
        (final(r)@, res@) == on_the_way_home(old(r)@, tap, now),
        app_state::tabs_ok(final(r)@),
{
    proof {
        reveal(on_the_way_home);
    }
    if r.current_id.depth() > 1 {
        navigate_left_raw(r, LeftEnd::Home { tap }, now)
    } else {
        reach_home(r, tap);
        Step::Done
    }
}

/// Fetch anew what the provider of the position has.
pub fn handle_f5(r: &AppRenderer) -> (res: Step)
    ensures
        res@ == provider::fetching(r@, ThenView::F5),
{
    provider::refresh_current_directory(r, Then::F5)
}

/// `u` after it is fetched anew what its provider has.
pub open spec fn fetched_anew(u: Ui, p: Option<usize>, reply: ReplyView) -> Ui {
    moves::redrawn(app_state::synced(list::listed(provider::refreshed(u, p, reply))))
}

/// Go on when it is fetched anew what the provider has.
pub fn refetched(r: &mut AppRenderer, p: Option<usize>, reply: Reply)
    requires
        app_state::tabs_ok(old(r)@),
    ensures
        final(r)@ == fetched_anew(old(r)@, p, reply@),
        app_state::tabs_ok(final(r)@),
{
    provider::apply_refresh(r, p, reply);
    moves::relist(r);
    r.sync_current_id_from_list();
    moves::redraw(r);
}

/// Fetch anew what the provider of the position has, where it asks for it.
pub fn refresh_if_needed(r: &AppRenderer) -> (res: Step)
    ensures
        res@ == (if provider::active_index(r@) matches Some(i) && r@.providers[i as int].needs_refresh {
            provider::fetching(r@, ThenView::Refreshed)
        } else {
            StepView::Done
        }),
{
    match provider::present_provider_index(r) {
        Some(i) => if r.providers[i].needs_refresh {
            provider::refresh_current_directory(r, Then::Refreshed)
        } else {
            Step::Done
        },
        None => Step::Done,
    }
}

/// A list that is built anew where the position is at an element keeps the
/// position and the tree.
proof fn lemma_arrived(u: Ui, now: u64)
    requires
        u.coordinate is General,
        u.search_string.len() == 0,
        !u.pending_file_browser_open,
        ffon::element_at(u.ffon, u.current_id) is Some,
        ffon::layer_len(u.ffon, u.current_id) <= usize::MAX,
    ensures
        arrived(u, now).current_id == u.current_id,
        arrived(u, now).ffon == u.ffon,
        arrived(u, now).coordinate == u.coordinate,
        arrived(u, now).search_string == u.search_string,
        arrived(u, now).pending_file_browser_open == u.pending_file_browser_open,
{
    list::law_listing_selects_the_position(u);
    list::law_listing_keeps_the_rest(u);
    reveal(moves::touched);
    reveal(app_state::synced);
}

/// Going into a branch that has its layer and out of it again leads back to
/// the branch, with the tree as it was.
pub proof fn law_in_and_out_again(u: Ui, name: Option<Seq<char>>, now: u64, later: u64)
    requires
        u.coordinate is General,
        u.search_string.len() == 0,
        !u.pending_file_browser_open,
        ffon::element_at(u.ffon, u.current_id) matches Some(n) && (n matches Node::Obj {
            children,
            ..
        } && 0 < children.len() <= usize::MAX),
        ffon::layer_len(u.ffon, u.current_id) <= usize::MAX,
    ensures
        ({
            let (v, step) = right_raw(u, RightEnd::Key, now);
            let (w, end) = popped(v, None, name, LeftEnd::Key, later);
            &&& step == StepView::Done
            &&& end == StepView::Done
            &&& v.current_id == u.current_id.push(0)
            &&& w.current_id == u.current_id
            &&& v.ffon == u.ffon
            &&& w.ffon == u.ffon
        }),
{
    reveal(right_raw);
    reveal(right_done);
    reveal(popped);
    reveal(left_done);
    reveal(moves::placed);
    let id = u.current_id;
    let below = id.push(0);
    let d = down_one(u);
    let layer = ffon::layer_of(u.ffon, id)->0;
    assert(ffon::layer_of(u.ffon, below) == Some(layer[id.last() as int]->children)) by {
        reveal(ffon::layer_of);
        ffon::lemma_descend_into(u.ffon, id.drop_last(), id.last(), layer);
        assert(below.drop_last() =~= id);
        assert(id.drop_last().push(id.last()) =~= id);
    }
    lemma_arrived(d, now);
    let v = right_raw(u, RightEnd::Key, now).0;
    assert(v.current_id.drop_last() =~= id);
    lemma_arrived(up_one(v), later);
}

} // verus!
