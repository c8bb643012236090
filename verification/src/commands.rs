//! The enter key in command mode.

use vstd::prelude::*;

use crate::app_state;
use crate::app_state::{AppRenderer, CommandPhase, Coordinate, ItemView, Ui};
use crate::elements;
use crate::ffon;
use crate::ffon::{FfonElement, IdArray, Node};
use crate::handlers;
use crate::list;
use crate::moves;
use crate::provider;
use crate::provider::{LeftEnd, Op, OpView, Reply, ReplyView, Step, StepView, Then, ThenView};
use crate::steps;

verus! {

/// The tree with the element at `idx` of the layer of `id` replaced; the
/// empty path stands for the roots.
pub open spec fn here_replaced(tree: Seq<Node>, id: Seq<usize>, idx: int, n: Node) -> Seq<Node> {
    if id.len() > 0 {
        ffon::replaced(tree, id, idx, n)
    } else if 0 <= idx < tree.len() {
        tree.update(idx, n)
    } else {
        tree
    }
}

/// The tree with `n` put into the layer of `id` at `idx`, where the layer is
/// that long; the empty path stands for the roots.
pub open spec fn here_inserted(tree: Seq<Node>, id: Seq<usize>, idx: int, n: Node) -> Seq<Node> {
    match ffon::layer_at(tree, id) {
        Some(layer) if 0 <= idx <= layer.len() => if id.len() > 0 {
            ffon::inserted(tree, id, idx, n)
        } else {
            tree.insert(idx, n)
        },
        _ => tree,
    }
}

/// Replace the element at `replace_idx` in the layer of `id`.
pub fn replace_ffon_element(
    tree: &mut Vec<FfonElement>,
    id: &IdArray,
    replace_idx: usize,
    elem: FfonElement,
)
    ensures
        ffon::forest(final(tree)@) == here_replaced(
            ffon::forest(old(tree)@),
            id@,
            replace_idx as int,
            elem@,
        ),
{
    if id.depth() > 0 {
        ffon::replace_at(tree, id, replace_idx, elem);
    } else if replace_idx < tree.len() {
        let ghost before = tree@;
        tree[replace_idx] = elem;
        assert(ffon::forest(tree@) =~= ffon::forest(before).update(replace_idx as int, elem@));
    }
}

/// Put an element into the layer of `id` at `insert_idx`, where the layer is
/// that long.
pub fn insert_ffon_element(
    tree: &mut Vec<FfonElement>,
    id: &IdArray,
    insert_idx: usize,
    elem: FfonElement,
)
    ensures
        ffon::forest(final(tree)@) == here_inserted(
            ffon::forest(old(tree)@),
            id@,
            insert_idx as int,
            elem@,
        ),
{
    let fits = match ffon::get_ffon_at_id(tree, id) {
        Some(layer) => {
            assert(ffon::forest(layer@).len() == layer@.len());
            insert_idx <= layer.len()
        },
        None => false,
    };
    if fits {
        if id.depth() > 0 {
            ffon::insert_at(tree, id, insert_idx, elem);
        } else {
            let ghost before = tree@;
            tree.insert(insert_idx, elem);
            assert(ffon::forest(tree@) =~= ffon::forest(before).insert(insert_idx as int, elem@));
        }
    }
}

/// `u` with the element at its position replaced.
#[verifier::opaque]
pub open spec fn element_replaced(u: Ui, n: Node) -> Ui {
    Ui {
        ffon: here_replaced(u.ffon, u.current_id, ffon::last_or_zero(u.current_id) as int, n),
        ..u
    }
}

/// The index behind the position.
pub open spec fn next_index(u: Ui) -> usize {
    ffon::last_or_zero(u.current_id).wrapping_add(1)
}

/// `u` with an element put in behind its position, at that.
#[verifier::opaque]
pub open spec fn element_inserted(u: Ui, n: Node) -> Ui {
    Ui {
        ffon: here_inserted(u.ffon, u.current_id, next_index(u) as int, n),
        current_id: ffon::with_last(u.current_id, next_index(u)),
        ..u
    }
}

fn replace_element(r: &mut AppRenderer, elem: FfonElement)
    ensures
        final(r)@ == element_replaced(old(r)@, elem@),
        app_state::tabs_ok(old(r)@) ==> app_state::tabs_ok(final(r)@),
{
    proof {
        reveal(element_replaced);
    }
    let idx: usize = r.current_id.last().unwrap_or(0);
    replace_ffon_element(&mut r.ffon, &r.current_id, idx, elem);
}

fn insert_element(r: &mut AppRenderer, elem: FfonElement)
    ensures
        final(r)@ == element_inserted(old(r)@, elem@),
        app_state::tabs_ok(old(r)@) ==> app_state::tabs_ok(final(r)@),
{
    proof {
        reveal(element_inserted);
    }
    let idx: usize = r.current_id.last().unwrap_or(0).wrapping_add(1);
    insert_ffon_element(&mut r.ffon, &r.current_id, idx, elem);
    r.current_id.set_last(idx);
}

/// `u` with the error that a call reported.
#[verifier::opaque]
pub open spec fn error_reported(u: Ui, reply: ReplyView) -> Ui {
    Ui {
        error_message: match reply.error {
            Some(e) => e,
            None => u.error_message,
        },
        ..u
    }
}

/// Show the error that a call reported.
pub(crate) fn report_error(r: &mut AppRenderer, reply: &Reply)
    ensures
        final(r)@ == error_reported(old(r)@, reply@),
        app_state::tabs_ok(old(r)@) ==> app_state::tabs_ok(final(r)@),
{
    proof {
        reveal(error_reported);
    }
    let message = match &reply.error {
        Some(e) => e.clone(),
        None => r.error_message.clone(),
    };
    r.error_message = message;
}

/// What an item offered for a command stands for.
pub open spec fn offered_value(item: ItemView) -> Seq<char> {
    match item.nav_path {
        Some(path) => path,
        None => match item.data {
            Some(data) => data,
            None => item.label,
        },
    }
}

/// What the choice of a command leads to.
#[verifier::opaque]
pub open spec fn command_chosen(u: Ui, now: u64) -> steps::Outcome {
    match (app_state::selected_item(u), moves::focused_node(u)) {
        (Some(item), Some(n)) => {
            let v = moves::in_phase(
                handlers::with_command(u, item.label),
                CommandPhase::Provider,
            );
            (
                v,
                StepView::Ask {
                    provider: provider::active_index(v),
                    ops: seq![
                        OpView::HandleCommand {
                            command: item.label,
                            key: ffon::node_text(n),
                            is_branch: n is Obj,
                        },
                    ],
                    then: ThenView::CommandDone,
                },
            )
        },
        _ => (handlers::escaped(u, now), StepView::Done),
    }
}

fn choose_command(r: &mut AppRenderer, now: u64) -> (res: Step)
    requires
        app_state::tabs_ok(old(r)@),
    ensures
        (final(r)@, res@) == command_chosen(old(r)@, now),
        app_state::tabs_ok(final(r)@),
{
    proof {
        reveal(command_chosen);
    }
    match (moves::selected(r), moves::focused(r)) {
        (Some(item), Some(elem)) => {
            handlers::set_command(r, item.label.clone());
            moves::set_phase(r, CommandPhase::Provider);
            let is_branch = elem.is_obj();
            Step::Ask {
                provider: provider::present_provider_index(r),
                ops: provider::one_op(
                    Op::HandleCommand {
                        command: item.label,
                        key: elem.text().to_owned(),
                        is_branch,
                    },
                ),
                then: Then::CommandDone,
            }
        },
        _ => {
            handlers::handle_escape(r, now);
            Step::Done
        },
    }
}

/// What the choice of something that a command offers leads to.
#[verifier::opaque]
pub open spec fn offer_chosen(u: Ui, now: u64) -> steps::Outcome {
    match app_state::selected_item(u) {
        Some(item) => (
            u,
            StepView::Ask {
                provider: provider::active_index(u),
                ops: seq![
                    OpView::ExecuteCommand {
                        command: u.provider_command_name,
                        item: offered_value(item),
                    },
                ],
                then: ThenView::CommandExecuted,
            },
        ),
        None => (handlers::escaped(u, now), StepView::Done),
    }
}

fn choose_offer(r: &mut AppRenderer, now: u64) -> (res: Step)
    requires
        app_state::tabs_ok(old(r)@),
    ensures
        (final(r)@, res@) == offer_chosen(old(r)@, now),
        app_state::tabs_ok(final(r)@),
{
    proof {
        reveal(offer_chosen);
    }
    match moves::selected(r) {
        Some(item) => {
            let value = match item.nav_path {
                Some(path) => path,
                None => match item.data {
                    Some(data) => data,
                    None => item.label,
                },
            };
            Step::Ask {
                provider: provider::present_provider_index(r),
                ops: provider::one_op(
                    Op::ExecuteCommand { command: r.provider_command_name.clone(), item: value },
                ),
                then: Then::CommandExecuted,
            }
        },
        None => {
            handlers::handle_escape(r, now);
            Step::Done
        },
    }
}

/// What the enter key leads to in command mode.
pub open spec fn command_entered(u: Ui, now: u64) -> steps::Outcome {
    match u.current_command {
        CommandPhase::NoCommand => command_chosen(u, now),
        CommandPhase::Provider => offer_chosen(u, now),
    }
}

/// Choose a command, or something that the chosen command offers.
pub fn handle_enter_command(r: &mut AppRenderer, now: u64) -> (res: Step)
    requires
        app_state::tabs_ok(old(r)@),
    ensures
        (final(r)@, res@) == command_entered(old(r)@, now),
        app_state::tabs_ok(final(r)@),
{
    match r.current_command {
        CommandPhase::NoCommand => choose_command(r, now),
        CommandPhase::Provider => choose_offer(r, now),
    }
}

/// `u` out of command mode.
pub open spec fn command_left(u: Ui) -> Ui {
    list::listed(
        moves::in_mode(moves::in_phase(u, CommandPhase::NoCommand), Coordinate::General),
    )
}

fn leave_command(r: &mut AppRenderer)
    requires
        app_state::tabs_ok(old(r)@),
    ensures
        final(r)@ == command_left(old(r)@),
        app_state::tabs_ok(final(r)@),
{
    moves::set_phase(r, CommandPhase::NoCommand);
    moves::set_mode(r, Coordinate::General);
    moves::relist(r);
}

/// Whether the element at the position is an empty one to be filled in.
pub open spec fn at_blank(u: Ui) -> bool {
    moves::focused_node(u) matches Some(Node::Str(s)) && elements::is_blank_input(s)
}

fn is_at_blank(r: &AppRenderer) -> (b: bool)
    ensures
        b == at_blank(r@),
{
    match moves::element_ref(&r.ffon, &r.current_id) {
        Some(FfonElement::Str(s)) => elements::is_empty_placeholder(s.as_str()),
        _ => false,
    }
}

/// `u` with the element that a command made, which is edited.
#[verifier::opaque]
pub open spec fn command_made(u: Ui, new: Node, now: u64) -> Ui {
    let v = if at_blank(u) {
        element_replaced(u, new)
    } else {
        element_inserted(u, new)
    };
    handlers::editing_started(
        moves::list_scrolled(moves::at_position(command_left(v)), 0),
        false,
        now,
    )
}

fn take_made(r: &mut AppRenderer, new: FfonElement, now: u64)
    requires
        app_state::tabs_ok(old(r)@),
    ensures
        final(r)@ == command_made(old(r)@, new@, now),
        app_state::tabs_ok(final(r)@),
{
    proof {
        reveal(command_made);
    }
    if is_at_blank(r) {
        replace_element(r, new);
    } else {
        insert_element(r, new);
    }
    leave_command(r);
    moves::point_at_position(r);
    moves::set_scroll(r, 0);
    handlers::handle_i(r, now);
}

/// `u` with what the command offers listed.
pub open spec fn offers_listed(u: Ui) -> Ui {
    moves::list_scrolled(list::listed(moves::without_input(u)), 0)
}

/// What follows where a command offers nothing: it changed the state of the
/// provider, which starts anew at its root.
pub open spec fn state_toggled(u: Ui) -> steps::Outcome {
    let v = moves::with_modes(
        moves::in_phase(u, CommandPhase::NoCommand),
        u.previous_coordinate,
        Coordinate::General,
    );
    (v, StepView::Ask { provider: None, ops: Seq::empty(), then: ThenView::ToggleOn })
}

/// What follows when the provider handled a command.
#[verifier::opaque]
pub open spec fn command_handled(u: Ui, reply: ReplyView, now: u64) -> steps::Outcome {
    let v = error_reported(u, reply);
    match reply.element {
        Some(new) => (command_made(v, new, now), StepView::Done),
        None => if v.error_message.len() > 0 {
            (moves::redrawn(command_left(v)), StepView::Done)
        } else if offers_listed(v).total_list.len() == 0 {
            state_toggled(offers_listed(v))
        } else {
            (moves::redrawn(offers_listed(v)), StepView::Done)
        },
    }
}

/// Go on when the provider handled a command.
pub fn command_done(r: &mut AppRenderer, reply: Reply, now: u64) -> (res: Step)
    requires
        app_state::tabs_ok(old(r)@),
    ensures
        (final(r)@, res@) == command_handled(old(r)@, reply@, now),
        app_state::tabs_ok(final(r)@),
{
    proof {
        reveal(command_handled);
    }
    report_error(r, &reply);
    if let Some(new) = reply.element {
        take_made(r, new, now);
        return Step::Done;
    }
    if r.error_message.as_str().unicode_len() > 0 {
        leave_command(r);
        moves::redraw(r);
        return Step::Done;
    }
    moves::clear_input(r);
    moves::relist(r);
    moves::set_scroll(r, 0);
    if r.total_list.len() == 0 {
        let before = r.previous_coordinate;
        moves::set_phase(r, CommandPhase::NoCommand);
        moves::set_modes(r, before, Coordinate::General);
        return Step::Ask { provider: None, ops: steps::no_ops(), then: Then::ToggleOn };
    }
    moves::redraw(r);
    Step::Done
}

/// What follows on the way to the root of the provider.
#[verifier::opaque]
pub open spec fn toggle_goes_on(u: Ui, now: u64) -> steps::Outcome {
    if u.current_id.len() > 2 {
        steps::left_raw(u, LeftEnd::Toggle, now)
    } else {
        (u, provider::fetching(u, ThenView::ToggleFetched))
    }
}

/// Go on to the root of the provider, which fetches what it has then.
pub fn toggle_on(r: &mut AppRenderer, now: u64) -> (res: Step)
    requires
        app_state::tabs_ok(old(r)@),
    ensures
        (final(r)@, res@) == toggle_goes_on(old(r)@, now),
        app_state::tabs_ok(final(r)@),
{
    proof {
        reveal(toggle_goes_on);
    }
    if r.current_id.depth() > 2 {
        steps::navigate_left_raw(r, LeftEnd::Toggle, now)
    } else {
        provider::refresh_current_directory(r, Then::ToggleFetched)
    }
}

/// `u` after a command was executed.
pub open spec fn executed(u: Ui) -> Ui {
    moves::redrawn(
        handlers::list_left(moves::left_mode(moves::in_phase(u, CommandPhase::NoCommand))),
    )
}

/// Go on when a command was executed.
pub fn command_executed(r: &mut AppRenderer)
    requires
        app_state::tabs_ok(old(r)@),
    ensures
        final(r)@ == executed(old(r)@),
        app_state::tabs_ok(final(r)@),
{
    moves::set_phase(r, CommandPhase::NoCommand);
    moves::leave_mode(r);
    handlers::leave_list(r);
    moves::redraw(r);
}

} // verus!
