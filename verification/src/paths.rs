//! Leading a provider to a directory, one part of its path after the other.

use vstd::prelude::*;

use crate::app_state;
use crate::app_state::{AppRenderer, Coordinate, Ui};
use crate::ffon;
use crate::ffon::{FfonElement, FfonObject, IdArray, Node};
use crate::handlers;
use crate::list;
use crate::markup;
use crate::moves;
use crate::provider;
use crate::provider::{Op, OpView, PathEnd, Reply, ReplyView, Step, StepView, Then, ThenView};
use crate::steps;
use crate::text;

verus! {

/// `u` out of the search, at its position.
pub open spec fn found(u: Ui) -> Ui {
    moves::redrawn(
        moves::list_scrolled(
            moves::at_position(list::listed(moves::without_input(moves::left_mode(u)))),
            handlers::AT_END,
        ),
    )
}

/// Leave the search, at the position.
pub(crate) fn leave_search(r: &mut AppRenderer)
    requires
        app_state::tabs_ok(old(r)@),
    ensures
        final(r)@ == found(old(r)@),
        app_state::tabs_ok(final(r)@),
{
    moves::leave_mode(r);
    moves::clear_input(r);
    moves::relist(r);
    moves::point_at_position(r);
    moves::set_scroll(r, handlers::AT_END);
    moves::redraw(r);
}

/// `u` waiting for the name of a file to save to, or not.
#[verifier::opaque]
pub open spec fn saving_as(u: Ui, yes: bool) -> Ui {
    Ui { pending_file_browser_save_as: yes, ..u }
}

pub(crate) fn set_saving_as(r: &mut AppRenderer, yes: bool)
    ensures
        final(r)@ == saving_as(old(r)@, yes),
        app_state::tabs_ok(old(r)@) ==> app_state::tabs_ok(final(r)@),
{
    proof {
        reveal(saving_as);
    }
    r.pending_file_browser_save_as = yes;
}

/// `u` with an empty element first in its layer, where it is below a root.
pub open spec fn name_asked(u: Ui) -> Ui {
    if u.current_id.len() >= 2 {
        moves::node_inserted(u, 0, handlers::placeholder())
    } else {
        u
    }
}

/// `u` in the folder to save to, asking for the name of a file.
#[verifier::opaque]
pub open spec fn save_as_ready(u: Ui, now: u64) -> Ui {
    let v = moves::placed_last(name_asked(list::listed(u)), 0);
    let w = list::listed(moves::in_mode(saving_as(v, true), Coordinate::General));
    moves::redrawn(
        handlers::editing_started(
            handlers::asking_for_names(moves::list_scrolled(moves::at_item(w, 0), 0), false),
            false,
            now,
        ),
    )
}

fn ask_for_name(r: &mut AppRenderer, now: u64)
    requires
        app_state::tabs_ok(old(r)@),
    ensures
        final(r)@ == save_as_ready(old(r)@, now),
        app_state::tabs_ok(final(r)@),
{
    proof {
        reveal(save_as_ready);
    }
    moves::relist(r);
    if r.current_id.depth() >= 2 {
        moves::insert_node(r, 0, FfonElement::new_str("<input></input>"));
    }
    moves::set_last(r, 0);
    set_saving_as(r, true);
    moves::set_mode(r, Coordinate::General);
    moves::relist(r);
    moves::set_list_index(r, 0);
    moves::set_scroll(r, 0);
    handlers::set_asking(r, false);
    handlers::handle_i(r, now);
    moves::redraw(r);
}

/// `u` where the way ended.
#[verifier::opaque]
pub open spec fn path_done(u: Ui, end: PathEnd, now: u64) -> Ui {
    match end {
        PathEnd::Search => found(u),
        PathEnd::SaveAs => save_as_ready(u, now),
    }
}

fn finish_path(r: &mut AppRenderer, end: PathEnd, now: u64)
    requires
        app_state::tabs_ok(old(r)@),
    ensures
        final(r)@ == path_done(old(r)@, end, now),
        app_state::tabs_ok(final(r)@),
{
    proof {
        reveal(path_done);
    }
    match end {
        PathEnd::Search => leave_search(r),
        PathEnd::SaveAs => ask_for_name(r, now),
    }
}

/// The parts of a path.
pub open spec fn path_parts(dir: Seq<char>) -> Seq<Seq<char>> {
    text::nonempty(text::split(text::without_leading(dir, '/'), '/', '\\'))
}

/// Where the way to a directory goes on: at the root of a provider, or in a
/// part of the path; then the parts that are left, and the file there.
pub enum Leg {
    Root { root: usize, rest: Vec<String>, target: String },
    Part { rest: Vec<String>, target: String },
}

/// What a [`Leg`] is, as values.
pub enum LegView {
    Root { root: usize, rest: Seq<Seq<char>>, target: Seq<char> },
    Part { rest: Seq<Seq<char>>, target: Seq<char> },
}

impl View for Leg {
    type V = LegView;

    open spec fn view(&self) -> LegView {
        match self {
            Leg::Root { root, rest, target } => LegView::Root {
                root: *root,
                rest: text::texts(rest@),
                target: target@,
            },
            Leg::Part { rest, target } => LegView::Part {
                rest: text::texts(rest@),
                target: target@,
            },
        }
    }
}

/// The way to a directory: what a provider is asked for next, or its end, and
/// whether the directory was reached.
pub enum Way {
    Ask { provider: Option<usize>, ops: Vec<Op>, leg: Leg },
    Ended(bool),
}

/// What a [`Way`] is, as values.
pub enum WayView {
    Ask { provider: Option<usize>, ops: Seq<OpView>, leg: LegView },
    Ended(bool),
}

impl View for Way {
    type V = WayView;

    open spec fn view(&self) -> WayView {
        match self {
            Way::Ask { provider, ops, leg } => WayView::Ask {
                provider: *provider,
                ops: provider::ops_of(ops@),
                leg: leg@,
            },
            Way::Ended(reached) => WayView::Ended(*reached),
        }
    }
}

/// How the way of the provider `root` to `dir` begins.
pub open spec fn way_begun(u: Ui, root: usize, dir: Seq<char>, target: Seq<char>) -> WayView {
    if root >= u.providers.len() {
        WayView::Ended(false)
    } else {
        WayView::Ask {
            provider: Some(root),
            ops: seq![OpView::SetPath("/"@), OpView::Fetch],
            leg: LegView::Root { root, rest: path_parts(dir), target },
        }
    }
}

/// Lead the provider `root_idx` to `absolute_dir`, and select
/// `target_filename` there. [`walk`] goes on with what the provider fetched.
pub fn navigate_to_path(
    r: &AppRenderer,
    root_idx: usize,
    absolute_dir: &str,
    target_filename: String,
) -> (res: Way)
    ensures
        res@ == way_begun(r@, root_idx, absolute_dir@, target_filename@),
{
    if root_idx >= r.providers.len() {
        return Way::Ended(false);
    }
    let stripped = text::trim_start_matches(absolute_dir, '/');
    let rest = text::split_nonempty(stripped.as_str(), '/', '\\');
    Way::Ask {
        provider: Some(root_idx),
        ops: provider::two_ops(Op::SetPath("/".to_owned()), Op::Fetch),
        leg: Leg::Root { root: root_idx, rest, target: target_filename },
    }
}

/// What goes on in a leg of the way that `end` ends.
pub open spec fn leg_then(leg: LegView, end: PathEnd) -> ThenView {
    match leg {
        LegView::Root { root, rest, target } => ThenView::PathFetched { root, rest, target, end },
        LegView::Part { rest, target } => ThenView::PathEntered { rest, target, end },
    }
}

/// What the way leads to, where `end` follows on its end. Nothing depends on
/// whether the directory was reached.
#[verifier::opaque]
pub open spec fn led(u: Ui, way: WayView, end: PathEnd, now: u64) -> steps::Outcome {
    match way {
        WayView::Ask { provider, ops, leg } => (
            u,
            StepView::Ask { provider, ops, then: leg_then(leg, end) },
        ),
        WayView::Ended(_) => (path_done(u, end, now), StepView::Done),
    }
}

fn lead(r: &mut AppRenderer, way: Way, end: PathEnd, now: u64) -> (res: Step)
    requires
        app_state::tabs_ok(old(r)@),
    ensures
        (final(r)@, res@) == led(old(r)@, way@, end, now),
        app_state::tabs_ok(final(r)@),
{
    proof {
        reveal(led);
    }
    match way {
        Way::Ask { provider, ops, leg } => {
            let then = match leg {
                Leg::Root { root, rest, target } => Then::PathFetched { root, rest, target, end },
                Leg::Part { rest, target } => Then::PathEntered { rest, target, end },
            };
            Step::Ask { provider, ops, then }
        },
        Way::Ended(_) => {
            finish_path(r, end, now);
            Step::Done
        },
    }
}

/// What leading the provider `root` to `dir` starts with, where `end` follows.
pub open spec fn way_started(
    u: Ui,
    root: usize,
    dir: Seq<char>,
    target: Seq<char>,
    end: PathEnd,
    now: u64,
) -> steps::Outcome {
    led(u, way_begun(u, root, dir, target), end, now)
}

/// Lead the provider `root` to `dir`, select `target` there, and go on with
/// `end`.
pub fn start_way(
    r: &mut AppRenderer,
    root: usize,
    dir: &str,
    target: String,
    end: PathEnd,
    now: u64,
) -> (res: Step)
    requires
        app_state::tabs_ok(old(r)@),
    ensures
        (final(r)@, res@) == way_started(old(r)@, root, dir@, target@, end, now),
        app_state::tabs_ok(final(r)@),
{
    let way = navigate_to_path(r, root, dir, target);
    lead(r, way, end, now)
}

/// `u` with the children of the root `i` replaced, in it.
#[verifier::opaque]
pub open spec fn root_opened(u: Ui, i: usize, children: Seq<Node>) -> Ui {
    Ui {
        ffon: provider::with_root(u.ffon, i, ffon::node_text(u.ffon[i as int]), children),
        current_id: seq![i, 0],
        ..u
    }
}

fn set_root_children(tree: &mut Vec<FfonElement>, i: usize, children: Vec<FfonElement>)
    requires
        i < old(tree)@.len(),
        old(tree)@[i as int]@ is Obj,
    ensures
        ffon::forest(final(tree)@) == provider::with_root(
            ffon::forest(old(tree)@),
            i,
            ffon::node_text(old(tree)@[i as int]@),
            ffon::forest(children@),
        ),
{
    let ghost before = tree@;
    let key = tree[i].text().to_owned();
    let root = FfonElement::Obj(FfonObject { key, children });
    proof {
        ffon::lemma_obj_view(root->Obj_0);
    }
    tree[i] = root;
    assert(ffon::forest(tree@) =~= ffon::forest(before).update(i as int, root@));
}

fn open_root(r: &mut AppRenderer, i: usize, children: Vec<FfonElement>)
    requires
        i < old(r)@.ffon.len(),
        old(r)@.ffon[i as int] is Obj,
    ensures
        final(r)@ == root_opened(old(r)@, i, ffon::forest(children@)),
        app_state::tabs_ok(old(r)@) ==> app_state::tabs_ok(final(r)@),
{
    proof {
        reveal(root_opened);
        assert(r@.ffon[i as int] == r.ffon@[i as int]@);
    }
    set_root_children(&mut r.ffon, i, children);
    let mut id = IdArray::single(i);
    id.push(0);
    assert(id@ =~= seq![i, 0]);
    r.current_id = id;
}

/// The element of the layer of the position that is shown as `name`.
pub open spec fn shown_here(u: Ui, name: Seq<char>) -> Option<int> {
    match ffon::layer_at(u.ffon, u.current_id) {
        Some(layer) => steps::shown_as(layer, name, false, 0),
        None => None,
    }
}

/// The element of the layer of the position that is shown as `name`.
pub(crate) fn find_here(r: &AppRenderer, name: &str) -> (res: Option<usize>)
    ensures
        match res {
            Some(i) => shown_here(r@, name@) == Some(i as int),
            None => shown_here(r@, name@) is None,
        },
{
    match ffon::get_ffon_at_id(&r.ffon, &r.current_id) {
        Some(layer) => steps::find_shown(layer, name, false),
        None => None,
    }
}

/// `u` with the file `target` selected, where it is there.
pub open spec fn target_selected(u: Ui, target: Seq<char>) -> Ui {
    if target.len() == 0 {
        u
    } else {
        match shown_here(u, target) {
            Some(i) => moves::placed_last(u, i as usize),
            None => u,
        }
    }
}

/// Where the way goes next: into the next part of the path, or to the file
/// where there is none.
#[verifier::opaque]
pub open spec fn next_leg(u: Ui, rest: Seq<Seq<char>>, target: Seq<char>) -> (Ui, WayView) {
    if rest.len() == 0 {
        (target_selected(u, target), WayView::Ended(true))
    } else {
        match shown_here(u, rest[0]) {
            Some(i) => {
                let v = moves::placed_last(u, i as usize);
                match moves::focused_node(v) {
                    Some(Node::Obj { key, .. }) => (
                        v,
                        WayView::Ask {
                            provider: provider::active_index(v),
                            ops: seq![OpView::PushPath(markup::display_text(key)), OpView::Fetch],
                            leg: LegView::Part { rest: rest.drop_first(), target },
                        },
                    ),
                    _ => (v, WayView::Ended(false)),
                }
            },
            None => (u, WayView::Ended(false)),
        }
    }
}

fn tail(rest: &Vec<String>) -> (res: Vec<String>)
    requires
        rest.len() > 0,
    ensures
        text::texts(res@) == text::texts(rest@).drop_first(),
{
    let mut res: Vec<String> = Vec::new();
    let mut i: usize = 1;
    while i < rest.len()
        invariant
            1 <= i <= rest.len(),
            res.len() == i - 1,
            forall|k: int| 0 <= k < i - 1 ==> (#[trigger] res@[k])@ == rest@[k + 1]@,
        decreases rest.len() - i,
    {
        res.push(rest[i].clone());
        i += 1;
    }
    assert(text::texts(res@) =~= text::texts(rest@).drop_first());
    res
}

fn go_on(r: &mut AppRenderer, rest: Vec<String>, target: String) -> (res: Way)
    ensures
        (final(r)@, res@) == next_leg(old(r)@, text::texts(rest@), target@),
        app_state::tabs_ok(old(r)@) ==> app_state::tabs_ok(final(r)@),
{
    proof {
        reveal(next_leg);
    }
    if rest.len() == 0 {
        if target.as_str().unicode_len() > 0 {
            if let Some(i) = find_here(r, target.as_str()) {
                moves::set_last(r, i);
            }
        }
        return Way::Ended(true);
    }
    assert(text::texts(rest@)[0] == rest@[0]@);
    match find_here(r, rest[0].as_str()) {
        Some(i) => {
            moves::set_last(r, i);
            let segment = match moves::element_ref(&r.ffon, &r.current_id) {
                Some(FfonElement::Obj(o)) => Some(
                    sicompass_sdk::tags::strip_display(o.key.as_str()),
                ),
                _ => None,
            };
            match segment {
                Some(s) => Way::Ask {
                    provider: provider::present_provider_index(r),
                    ops: provider::two_ops(Op::PushPath(s), Op::Fetch),
                    leg: Leg::Part { rest: tail(&rest), target },
                },
                None => Way::Ended(false),
            }
        },
        None => Way::Ended(false),
    }
}

/// Where a leg of the way leads, when the provider `p` did what it was asked
/// for.
#[verifier::opaque]
pub open spec fn leg_walked(u: Ui, p: Option<usize>, reply: ReplyView, leg: LegView) -> (
    Ui,
    WayView,
) {
    match leg {
        LegView::Root { root, rest, target } => if root < u.ffon.len()
            && u.ffon[root as int] is Obj {
            next_leg(root_opened(u, root, reply.children), rest, target)
        } else {
            (u, WayView::Ended(false))
        },
        LegView::Part { rest, target } => if p is Some {
            next_leg(steps::down_one(steps::children_set(u, reply.children)), rest, target)
        } else {
            (u, WayView::Ended(false))
        },
    }
}

/// Go on with a leg of the way, when the provider `p` did what it was asked
/// for.
pub fn walk(r: &mut AppRenderer, p: Option<usize>, reply: Reply, leg: Leg) -> (res: Way)
    ensures
        (final(r)@, res@) == leg_walked(old(r)@, p, reply@, leg@),
        app_state::tabs_ok(old(r)@) ==> app_state::tabs_ok(final(r)@),
{
    proof {
        reveal(leg_walked);
    }
    match leg {
        Leg::Root { root, rest, target } => {
            let is_branch = if root < r.ffon.len() {
                assert(r@.ffon[root as int] == r.ffon@[root as int]@);
                r.ffon[root].is_obj()
            } else {
                false
            };
            if is_branch {
                open_root(r, root, reply.children);
                go_on(r, rest, target)
            } else {
                Way::Ended(false)
            }
        },
        Leg::Part { rest, target } => if p.is_some() {
            steps::set_children(r, reply.children);
            steps::go_down(r);
            go_on(r, rest, target)
        } else {
            Way::Ended(false)
        },
    }
}

/// What follows in a leg of the way that `end` ends.
pub open spec fn leg_led(
    u: Ui,
    p: Option<usize>,
    reply: ReplyView,
    leg: LegView,
    end: PathEnd,
    now: u64,
) -> steps::Outcome {
    let (v, way) = leg_walked(u, p, reply, leg);
    led(v, way, end, now)
}

/// Go on with a leg of the way that `end` ends.
pub fn lead_on(
    r: &mut AppRenderer,
    p: Option<usize>,
    reply: Reply,
    leg: Leg,
    end: PathEnd,
    now: u64,
) -> (res: Step)
    requires
        app_state::tabs_ok(old(r)@),
    ensures
        (final(r)@, res@) == leg_led(old(r)@, p, reply@, leg@, end, now),
        app_state::tabs_ok(final(r)@),
{
    let way = walk(r, p, reply, leg);
    lead(r, way, end, now)
}

/// Where the way has come to, after the provider was asked as often as there
/// are answers.
pub open spec fn way_run(u: Ui, way: WayView, answers: Seq<(Option<usize>, ReplyView)>) -> (
    Ui,
    WayView,
)
    decreases answers.len(),
{
    match way {
        WayView::Ask { leg, .. } if answers.len() > 0 => {
            let (v, next) = leg_walked(u, answers[0].0, answers[0].1, leg);
            way_run(v, next, answers.drop_first())
        },
        _ => (u, way),
    }
}

/// The place of `target` in the layer of the position; the first place where
/// no file is asked for or it is not there.
pub open spec fn target_place(u: Ui, target: Seq<char>) -> usize {
    match shown_here(u, target) {
        Some(i) if target.len() > 0 => i as usize,
        _ => 0,
    }
}

/// Whether `u` is `depth` deep in the tree of the provider `root`, at `target`.
pub open spec fn is_there(u: Ui, root: usize, depth: nat, target: Seq<char>) -> bool {
    &&& u.current_id.len() == depth
    &&& u.current_id[0] == root
    &&& u.current_id.last() == target_place(u, target)
}

proof fn lemma_same_layer(u: Ui, i: usize, name: Seq<char>)
    requires
        u.current_id.len() >= 2,
    ensures
        shown_here(moves::placed_last(u, i), name) == shown_here(u, name),
        moves::placed_last(u, i).current_id.len() == u.current_id.len(),
        moves::placed_last(u, i).current_id[0] == u.current_id[0],
        moves::placed_last(u, i).current_id.last() == i,
{
    reveal(moves::placed_last);
    reveal(ffon::layer_of);
    assert(ffon::with_last(u.current_id, i).drop_last() =~= u.current_id.drop_last());
}

proof fn lemma_way_run(
    u: Ui,
    rest: Seq<Seq<char>>,
    target: Seq<char>,
    root: usize,
    answers: Seq<(Option<usize>, ReplyView)>,
)
    requires
        u.current_id.len() >= 2,
        u.current_id[0] == root,
        u.current_id.last() == 0,
    ensures
        ({
            let (v, way) = next_leg(u, rest, target);
            let (w, last) = way_run(v, way, answers);
            last == WayView::Ended(true) ==> is_there(
                w,
                root,
                u.current_id.len() + rest.len(),
                target,
            )
        }),
    decreases rest.len(),
{
    reveal(next_leg);
    reveal_with_fuel(way_run, 2);
    let (v, way) = next_leg(u, rest, target);
    if rest.len() == 0 {
        if let Some(i) = shown_here(u, target) {
            lemma_same_layer(u, i as usize, target);
        }
    } else if let Some(i) = shown_here(u, rest[0]) {
        lemma_same_layer(u, i as usize, target);
        if way is Ask && answers.len() > 0 && answers[0].0 is Some {
            reveal(leg_walked);
            let below = steps::down_one(steps::children_set(v, answers[0].1.children));
            assert(below.current_id == v.current_id.push(0)) by {
                reveal(moves::placed);
                reveal(steps::children_set);
            }
            assert(way->leg == (LegView::Part { rest: rest.drop_first(), target }));
            lemma_way_run(below, rest.drop_first(), target, root, answers.drop_first());
        } else if way is Ask && answers.len() > 0 {
            reveal(leg_walked);
        }
    }
}

/// The way to a directory ends in success only where the provider was led to
/// it: as deep below its root as the path has parts, at the file that was asked
/// for, or first where there is none. Without the provider nothing happens, and
/// the way does not succeed.
pub proof fn law_the_way_ends_in_the_directory(
    u: Ui,
    root: usize,
    dir: Seq<char>,
    target: Seq<char>,
    answers: Seq<(Option<usize>, ReplyView)>,
)
    ensures
        ({
            let (v, way) = way_run(u, way_begun(u, root, dir, target), answers);
            &&& root >= u.providers.len() ==> v == u && way == WayView::Ended(false)
            &&& way == WayView::Ended(true) ==> is_there(
                v,
                root,
                2 + path_parts(dir).len(),
                target,
            )
        }),
{
    reveal_with_fuel(way_run, 2);
    if root < u.providers.len() && answers.len() > 0 {
        reveal(leg_walked);
        if root < u.ffon.len() && u.ffon[root as int] is Obj {
            let opened = root_opened(u, root, answers[0].1.children);
            reveal(root_opened);
            lemma_way_run(opened, path_parts(dir), target, root, answers.drop_first());
        }
    }
}

/// The provider of the position goes into the branch at the position.
pub open spec fn going_in(u: Ui) -> StepView {
    match moves::focused_node(u) {
        Some(Node::Obj { key, .. }) => StepView::Ask {
            provider: provider::active_index(u),
            ops: seq![OpView::PushPath(markup::display_text(key)), OpView::Fetch],
            then: ThenView::Entered,
        },
        _ => StepView::Done,
    }
}

/// Have the provider of the position go into the branch at the position.
pub fn navigate_right(r: &AppRenderer) -> (res: Step)
    ensures
        res@ == going_in(r@),
{
    match moves::element_ref(&r.ffon, &r.current_id) {
        Some(FfonElement::Obj(o)) => {
            let segment = sicompass_sdk::tags::strip_display(o.key.as_str());
            Step::Ask {
                provider: provider::present_provider_index(r),
                ops: provider::two_ops(Op::PushPath(segment), Op::Fetch),
                then: Then::Entered,
            }
        },
        _ => Step::Done,
    }
}

/// `u` when the provider `p` went into the branch at the position.
pub open spec fn gone_in(u: Ui, p: Option<usize>, reply: ReplyView) -> Ui {
    if p is Some {
        steps::down_one(steps::children_set(u, reply.children))
    } else {
        u
    }
}

/// Go on when the provider `p` went into the branch at the position. Whether
/// there was one is told.
pub fn entered(r: &mut AppRenderer, p: Option<usize>, reply: Reply) -> (ok: bool)
    ensures
        final(r)@ == gone_in(old(r)@, p, reply@),
        ok == (p is Some),
        app_state::tabs_ok(old(r)@) ==> app_state::tabs_ok(final(r)@),
{
    if p.is_some() {
        steps::set_children(r, reply.children);
        steps::go_down(r);
    }
    p.is_some()
}

} // verus!
