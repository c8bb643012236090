//! Deleting, copying, cutting and pasting files and elements.

use vstd::prelude::*;

use crate::actions;
use crate::app_state;
use crate::app_state::{AppRenderer, Coordinate, History, Task, Ui};
use crate::editing;
use crate::ffon;
use crate::ffon::{FfonElement, Node};
use crate::handlers;
use crate::list;
use crate::markup;
use crate::moves;
use crate::paths;
use crate::provider;
use crate::provider::{Op, OpView, Reply, ReplyView, Step, StepView, Then, ThenView};
use crate::state;
use crate::steps;
use crate::text;
use crate::typing;

verus! {

/// What the element at the position is shown as.
pub open spec fn name_here(u: Ui) -> Option<Seq<char>> {
    match moves::focused_node(u) {
        Some(n) => Some(markup::display_text(ffon::node_text(n))),
        None => None,
    }
}

fn find_name_here(r: &AppRenderer) -> (res: Option<String>)
    ensures
        text::opt_text(res) == name_here(r@),
{
    match moves::element_ref(&r.ffon, &r.current_id) {
        Some(e) => Some(sicompass_sdk::tags::strip_display(e.text())),
        None => None,
    }
}

/// The name of the file at the position, where it has one.
pub open spec fn file_here(u: Ui) -> Option<Seq<char>> {
    match name_here(u) {
        Some(name) if name.len() > 0 => Some(name),
        _ => None,
    }
}

fn find_file_here(r: &AppRenderer) -> (res: Option<String>)
    ensures
        text::opt_text(res) == file_here(r@),
{
    match find_name_here(r) {
        Some(name) => if name.as_str().unicode_len() > 0 {
            Some(name)
        } else {
            None
        },
        None => None,
    }
}

/// The file at the position is deleted.
pub open spec fn deleting_file(u: Ui) -> StepView {
    (StepView::Ask {
        provider: provider::active_index(u),
        ops: seq![
            OpView::DeleteItem(
                match name_here(u) {
                    Some(name) => name,
                    None => Seq::empty(),
                },
            ),
        ],
        then: ThenView::FileDeleted,
    })
}

/// Delete the file at the position.
pub fn handle_file_delete(r: &AppRenderer) -> (res: Step)
    ensures
        res@ == deleting_file(r@),
{
    proof {
        reveal_strlit("");
        assert(""@ =~= Seq::<char>::empty());
    }
    let name = match find_name_here(r) {
        Some(name) => name,
        None => "".to_owned(),
    };
    Step::Ask {
        provider: provider::present_provider_index(r),
        ops: provider::one_op(Op::DeleteItem(name)),
        then: Then::FileDeleted,
    }
}

/// What follows when the provider was asked to delete a file.
pub open spec fn deletion_done(u: Ui, p: Option<usize>, reply: ReplyView) -> StepView {
    if p is Some && reply.ok {
        provider::fetching(u, ThenView::FilesFetched)
    } else {
        StepView::Done
    }
}

/// Go on when the provider was asked to delete a file.
pub fn file_deleted(r: &AppRenderer, p: Option<usize>, reply: Reply) -> (res: Step)
    ensures
        res@ == deletion_done(r@, p, reply@),
{
    if p.is_some() && reply.ok {
        provider::refresh_current_directory(r, Then::FilesFetched)
    } else {
        Step::Done
    }
}

/// Whether the root that the position is in is empty.
pub open spec fn root_is_empty(u: Ui) -> bool {
    let i = steps::root_index(u.current_id);
    i < u.ffon.len() && u.ffon[i as int] is Obj && u.ffon[i as int]->children.len() == 0
}

fn is_root_empty(r: &AppRenderer) -> (b: bool)
    ensures
        b == root_is_empty(r@),
{
    let i: usize = r.current_id.get(0).unwrap_or(0);
    if i < r.ffon.len() {
        assert(r@.ffon[i as int] == r.ffon@[i as int]@);
        match &r.ffon[i] {
            FfonElement::Obj(o) => {
                proof {
                    ffon::lemma_obj_view(*o);
                }
                o.children.len() == 0
            },
            FfonElement::Str(_) => false,
        }
    } else {
        false
    }
}

/// `u` with an empty element in the root that its position is in, where it is
/// empty, and at that.
#[verifier::opaque]
pub open spec fn not_empty(u: Ui) -> Ui {
    if root_is_empty(u) {
        moves::placed_last(steps::with_root_filled(u, steps::root_index(u.current_id)), 0)
    } else {
        u
    }
}

fn keep_from_empty(r: &mut AppRenderer)
    ensures
        final(r)@ == not_empty(old(r)@),
        app_state::tabs_ok(old(r)@) ==> app_state::tabs_ok(final(r)@),
{
    proof {
        reveal(not_empty);
    }
    if is_root_empty(r) {
        let i: usize = r.current_id.get(0).unwrap_or(0);
        steps::fill_root(r, i);
        moves::set_last(r, 0);
    }
}

/// `u` with its position at the last element of its layer, where it is behind
/// that.
#[verifier::opaque]
pub open spec fn within_layer(u: Ui) -> Ui {
    match ffon::layer_at(u.ffon, u.current_id) {
        Some(layer) if layer.len() > 0 && ffon::last_or_zero(u.current_id) >= layer.len() =>
            moves::placed_last(u, (layer.len() - 1) as usize),
        _ => u,
    }
}

/// Move the position to the last element of its layer, where it is behind
/// that.
pub(crate) fn stay_within_layer(r: &mut AppRenderer)
    ensures
        final(r)@ == within_layer(old(r)@),
        app_state::tabs_ok(old(r)@) ==> app_state::tabs_ok(final(r)@),
{
    proof {
        reveal(within_layer);
    }
    if let Some(n) = handlers::layer_length(r) {
        let at: usize = r.current_id.last().unwrap_or(0);
        if n > 0 && at >= n {
            moves::set_last(r, n - 1);
        }
    }
}

/// `u` after a file was deleted and the directory was fetched.
pub open spec fn directory_tidied(u: Ui, p: Option<usize>, reply: ReplyView) -> Ui {
    actions::relisted(within_layer(not_empty(provider::refreshed(u, p, reply))))
}

/// Go on when the directory was fetched that a file was deleted in.
pub fn files_fetched(r: &mut AppRenderer, p: Option<usize>, reply: Reply)
    requires
        app_state::tabs_ok(old(r)@),
    ensures
        final(r)@ == directory_tidied(old(r)@, p, reply@),
        app_state::tabs_ok(final(r)@),
{
    provider::apply_refresh(r, p, reply);
    keep_from_empty(r);
    stay_within_layer(r);
    actions::relist_and_redraw(r);
}

/// `u` with a file on the clipboard.
#[verifier::opaque]
pub open spec fn with_file(u: Ui, path: Seq<char>, is_cut: bool) -> Ui {
    Ui { file_clipboard_path: path, file_clipboard_is_cut: is_cut, ..u }
}

fn set_file(r: &mut AppRenderer, path: String, is_cut: bool)
    ensures
        final(r)@ == with_file(old(r)@, path@, is_cut),
        app_state::tabs_ok(old(r)@) ==> app_state::tabs_ok(final(r)@),
{
    proof {
        reveal(with_file);
    }
    r.file_clipboard_path = path;
    r.file_clipboard_is_cut = is_cut;
}

/// `u` after the file at its position was copied.
#[verifier::opaque]
pub open spec fn file_copied(u: Ui) -> Ui {
    match file_here(u) {
        Some(name) if handlers::in_filebrowser(u) => moves::redrawn(
            with_file(u, actions::path_in(provider::path_here(u), name), false),
        ),
        _ => u,
    }
}

/// Copy the file at the position: remember its path. Nothing happens outside
/// the file browser.
pub fn handle_file_copy(r: &mut AppRenderer)
    ensures
        final(r)@ == file_copied(old(r)@),
        app_state::tabs_ok(old(r)@) ==> app_state::tabs_ok(final(r)@),
{
    proof {
        reveal(file_copied);
    }
    if !handlers::active_provider_is_filebrowser(r) {
        return;
    }
    if let Some(name) = find_file_here(r) {
        let dir = provider::current_path(r);
        let path = text::concat3(dir.as_str(), "/", name.as_str());
        set_file(r, path, false);
        moves::redraw(r);
    }
}

/// What cutting the file at the position starts with: a copy in `cache_dir`.
pub open spec fn cut_started(u: Ui, cache_dir: Seq<char>) -> StepView {
    match file_here(u) {
        Some(name) if handlers::in_filebrowser(u) => StepView::Ask {
            provider: provider::active_index(u),
            ops: seq![
                OpView::CopyItem {
                    from_dir: provider::path_here(u),
                    from_name: name,
                    to_dir: cache_dir,
                    to_name: name,
                },
                OpView::TakeErrorOfFailure,
            ],
            then: ThenView::CutCopied { name, cached: actions::path_in(cache_dir, name) },
        },
        _ => StepView::Done,
    }
}

/// Cut the file at the position: keep a copy in `cache_dir`, and delete it.
/// Nothing happens outside the file browser.
pub fn handle_file_cut(r: &AppRenderer, cache_dir: &str) -> (res: Step)
    ensures
        res@ == cut_started(r@, cache_dir@),
{
    if !handlers::active_provider_is_filebrowser(r) {
        return Step::Done;
    }
    match find_file_here(r) {
        Some(name) => {
            let cached = text::concat3(cache_dir, "/", name.as_str());
            Step::Ask {
                provider: provider::present_provider_index(r),
                ops: provider::two_ops(
                    Op::CopyItem {
                        from_dir: provider::current_path(r),
                        from_name: name.clone(),
                        to_dir: cache_dir.to_owned(),
                        to_name: name.clone(),
                    },
                    Op::TakeErrorOfFailure,
                ),
                then: Then::CutCopied { name, cached },
            }
        },
        None => Step::Done,
    }
}

/// What follows when the copy of a file to be cut was made, or not.
#[verifier::opaque]
pub open spec fn cut_kept(
    u: Ui,
    p: Option<usize>,
    reply: ReplyView,
    name: Seq<char>,
    cached: Seq<char>,
) -> steps::Outcome {
    let v = provider::failure_noted(u, p, reply);
    if p is Some && reply.ok {
        (
            v,
            StepView::Ask {
                provider: provider::active_index(v),
                ops: seq![OpView::DeleteItem(name), OpView::TakeErrorOfFailure],
                then: ThenView::CutDeleted { cached },
            },
        )
    } else {
        (
            moves::with_error(v, "Cut: failed to copy file to clipboard cache"@),
            StepView::Done,
        )
    }
}

/// Go on when the copy of a file to be cut was made, or not.
pub fn cut_copied(
    r: &mut AppRenderer,
    p: Option<usize>,
    reply: Reply,
    name: String,
    cached: String,
) -> (res: Step)
    ensures
        (final(r)@, res@) == cut_kept(old(r)@, p, reply@, name@, cached@),
        app_state::tabs_ok(old(r)@) ==> app_state::tabs_ok(final(r)@),
{
    proof {
        reveal(cut_kept);
    }
    if provider::note_failure(r, p, &reply) {
        Step::Ask {
            provider: provider::present_provider_index(r),
            ops: provider::two_ops(Op::DeleteItem(name), Op::TakeErrorOfFailure),
            then: Then::CutDeleted { cached },
        }
    } else {
        moves::set_error(r, "Cut: failed to copy file to clipboard cache".to_owned());
        Step::Done
    }
}

/// `u` after the file that was cut was deleted, or not.
#[verifier::opaque]
pub open spec fn cut_done(
    u: Ui,
    p: Option<usize>,
    reply: ReplyView,
    cached: Seq<char>,
    now: u64,
) -> Ui {
    let v = provider::failure_noted(u, p, reply);
    if p is Some && reply.ok {
        moves::redrawn(
            moves::at_position(
                state::updated(
                    with_file(v, cached, true),
                    Task::Delete,
                    History::NoHistory,
                    now,
                ),
            ),
        )
    } else {
        moves::with_error(v, "Cut: failed to delete original file"@)
    }
}

/// Go on when the file that was cut was deleted, or not.
pub fn cut_deleted(
    r: &mut AppRenderer,
    p: Option<usize>,
    reply: Reply,
    cached: String,
    now: u64,
)
    requires
        app_state::tabs_ok(old(r)@),
    ensures
        final(r)@ == cut_done(old(r)@, p, reply@, cached@, now),
        app_state::tabs_ok(final(r)@),
{
    proof {
        reveal(cut_done);
    }
    if provider::note_failure(r, p, &reply) {
        set_file(r, cached, true);
        state::update_state(r, Task::Delete, History::NoHistory, now);
        moves::point_at_position(r);
        moves::redraw(r);
    } else {
        moves::set_error(r, "Cut: failed to delete original file".to_owned());
    }
}

/// The directory and the name of the file on the clipboard.
pub open spec fn clipboard_parts(path: Seq<char>) -> Option<(Seq<char>, Seq<char>)> {
    match text::last_index_before(path, '/', path.len() as int) {
        Some(i) => if path.skip(i + 1).len() > 0 {
            Some((path.take(i), path.skip(i + 1)))
        } else {
            None
        },
        None => None,
    }
}

fn split_clipboard(path: &str) -> (res: Option<(String, String)>)
    ensures
        match res {
            Some((dir, name)) => clipboard_parts(path@) == Some((dir@, name@)),
            None => clipboard_parts(path@) is None,
        },
{
    let n: usize = path.unicode_len();
    match text::rfind_char(path, '/') {
        Some(i) => if i + 1 < n {
            let dir = text::substring(path, 0, i);
            let name = text::substring(path, i + 1, n);
            assert(dir@ =~= path@.take(i as int));
            assert(name@ =~= path@.skip(i + 1));
            Some((dir, name))
        } else {
            None
        },
        None => None,
    }
}

/// Whether there is a file `candidate` in the directory.
pub open spec fn name_tried(
    from_dir: Seq<char>,
    from_name: Seq<char>,
    to_dir: Seq<char>,
    candidate: Seq<char>,
    n: u32,
) -> StepView {
    StepView::Ask {
        provider: None,
        ops: seq![OpView::Exists(actions::path_in(to_dir, candidate))],
        then: ThenView::PasteTried { from_dir, from_name, to_dir, candidate, n },
    }
}

fn try_name(
    from_dir: String,
    from_name: String,
    to_dir: String,
    candidate: String,
    n: u32,
) -> (res: Step)
    ensures
        res@ == name_tried(from_dir@, from_name@, to_dir@, candidate@, n),
{
    let full = text::concat3(to_dir.as_str(), "/", candidate.as_str());
    Step::Ask {
        provider: None,
        ops: provider::one_op(Op::Exists(full)),
        then: Then::PasteTried { from_dir, from_name, to_dir, candidate, n },
    }
}

/// What pasting the file on the clipboard starts with.
pub open spec fn paste_started(u: Ui) -> StepView {
    match clipboard_parts(u.file_clipboard_path) {
        Some((dir, name)) => name_tried(dir, name, provider::path_here(u), name, 0),
        None => StepView::Done,
    }
}

/// Paste the file on the clipboard, under a name that is free.
pub fn handle_file_paste(r: &AppRenderer) -> (res: Step)
    ensures
        res@ == paste_started(r@),
{
    match split_clipboard(r.file_clipboard_path.as_str()) {
        Some((dir, name)) => {
            let candidate = name.clone();
            try_name(dir, name, provider::current_path(r), candidate, 0)
        },
        None => Step::Done,
    }
}

/// The name of the copy `n` of a file.
pub open spec fn copy_name(name: Seq<char>, n: u32) -> Seq<char> {
    name + " (copy "@ + text::decimal(n as nat) + ")"@
}

/// The name of the copy `n` of a file.
pub(crate) fn name_copy(name: &str, n: u32) -> (res: String)
    ensures
        res@ == copy_name(name@, n),
{
    let head = text::concat3(name, " (copy ", text::number(n as u64).as_str());
    text::concat(head.as_str(), ")")
}

/// What follows when it is known whether a name is taken.
#[verifier::opaque]
pub open spec fn name_checked(
    u: Ui,
    taken: bool,
    from_dir: Seq<char>,
    from_name: Seq<char>,
    to_dir: Seq<char>,
    candidate: Seq<char>,
    n: u32,
) -> StepView {
    if taken {
        let next = n.wrapping_add(1);
        name_tried(from_dir, from_name, to_dir, copy_name(from_name, next), next)
    } else {
        StepView::Ask {
            provider: provider::active_index(u),
            ops: seq![
                OpView::CopyItem { from_dir, from_name, to_dir, to_name: candidate },
                OpView::TakeErrorOfFailure,
            ],
            then: ThenView::PasteCopied { name: candidate },
        }
    }
}

/// Go on when it is known whether a name is taken.
pub fn paste_tried(
    r: &AppRenderer,
    taken: bool,
    from_dir: String,
    from_name: String,
    to_dir: String,
    candidate: String,
    n: u32,
) -> (res: Step)
    ensures
        res@ == name_checked(
            r@,
            taken,
            from_dir@,
            from_name@,
            to_dir@,
            candidate@,
            n,
        ),
{
    proof {
        reveal(name_checked);
    }
    if taken {
        let next: u32 = n.wrapping_add(1);
        let name = name_copy(from_name.as_str(), next);
        try_name(from_dir, from_name, to_dir, name, next)
    } else {
        Step::Ask {
            provider: provider::present_provider_index(r),
            ops: provider::two_ops(
                Op::CopyItem { from_dir, from_name, to_dir, to_name: candidate.clone() },
                Op::TakeErrorOfFailure,
            ),
            then: Then::PasteCopied { name: candidate },
        }
    }
}

/// What follows when a file was pasted, or not.
#[verifier::opaque]
pub open spec fn paste_done(
    u: Ui,
    p: Option<usize>,
    reply: ReplyView,
    name: Seq<char>,
) -> steps::Outcome {
    let v = provider::failure_noted(u, p, reply);
    if p is Some && reply.ok {
        (v, provider::fetching(v, ThenView::PasteFetched { name }))
    } else {
        (moves::with_error(v, "Paste: failed to copy file"@), StepView::Done)
    }
}

/// Go on when a file was pasted, or not.
pub fn paste_copied(r: &mut AppRenderer, p: Option<usize>, reply: Reply, name: String) -> (res:
    Step)
    ensures
        (final(r)@, res@) == paste_done(old(r)@, p, reply@, name@),
        app_state::tabs_ok(old(r)@) ==> app_state::tabs_ok(final(r)@),
{
    proof {
        reveal(paste_done);
    }
    if provider::note_failure(r, p, &reply) {
        provider::refresh_current_directory(r, Then::PasteFetched { name })
    } else {
        moves::set_error(r, "Paste: failed to copy file".to_owned());
        Step::Done
    }
}

/// `u` after the directory was fetched that a file was pasted in, at the file.
#[verifier::opaque]
pub open spec fn paste_shown(u: Ui, p: Option<usize>, reply: ReplyView, name: Seq<char>) -> Ui {
    let v = list::listed(provider::refreshed(u, p, reply));
    match paths::shown_here(v, name) {
        Some(i) => moves::redrawn(moves::at_item(moves::placed_last(v, i as usize), i as usize)),
        None => moves::redrawn(v),
    }
}

/// Go on when the directory was fetched that a file was pasted in.
pub fn paste_fetched(r: &mut AppRenderer, p: Option<usize>, reply: Reply, name: String)
    requires
        app_state::tabs_ok(old(r)@),
    ensures
        final(r)@ == paste_shown(old(r)@, p, reply@, name@),
        app_state::tabs_ok(final(r)@),
{
    proof {
        reveal(paste_shown);
    }
    provider::apply_refresh(r, p, reply);
    moves::relist(r);
    if let Some(i) = paths::find_here(r, name.as_str()) {
        moves::set_last(r, i);
        moves::set_list_index(r, i);
    }
    moves::redraw(r);
}

/// Whether text is edited in the mode `c`.
pub open spec fn edits_text(c: Coordinate) -> bool {
    c is Insert || c is SimpleSearch || c is ExtendedSearch || c is Command
}

/// Whether text is edited.
pub(crate) fn is_text_edit_mode(r: &AppRenderer) -> (b: bool)
    ensures
        b == edits_text(r@.coordinate),
{
    match r.coordinate {
        Coordinate::Insert
        | Coordinate::SimpleSearch
        | Coordinate::ExtendedSearch
        | Coordinate::Command => true,
        _ => false,
    }
}

/// The selected text.
pub open spec fn selected_text(u: Ui) -> Option<Seq<char>> {
    match typing::selected_range(u) {
        Some((start, end)) if start != end => Some(
            editing::between_offsets(typing::text_here(u), start as int, end as int),
        ),
        _ => None,
    }
}

fn find_selected_text(r: &AppRenderer) -> (res: Option<String>)
    requires
        typing::selecting(r@) ==> typing::cursor_ok(r@),
    ensures
        text::opt_text(res) == selected_text(r@),
        res is Some <==> typing::selecting(r@),
{
    if !typing::has_selection(r) {
        return None;
    }
    match typing::selection_range(r) {
        Some((start, end)) => Some(editing::slice(typing::text_ref(r), start, end)),
        None => None,
    }
}

/// What the selected item puts on the clipboard.
pub open spec fn clip_of(u: Ui) -> Option<Option<Node>> {
    match app_state::selected_item(u) {
        Some(item) => match ffon::layer_at(u.ffon, item.id) {
            Some(layer) if item.id.len() > 0 => Some(
                if item.id.last() < layer.len() {
                    Some(layer[item.id.last() as int])
                } else {
                    None
                },
            ),
            _ => None,
        },
        None => None,
    }
}

/// `u` with the selected element on the clipboard.
#[verifier::opaque]
pub open spec fn element_clipped(u: Ui) -> Ui {
    match clip_of(u) {
        Some(n) => moves::with_clipboard(u, n),
        None => u,
    }
}

fn clip_element(r: &mut AppRenderer)
    ensures
        final(r)@ == element_clipped(old(r)@),
        app_state::tabs_ok(old(r)@) ==> app_state::tabs_ok(final(r)@),
{
    proof {
        reveal(element_clipped);
    }
    let clip = match r.current_list_item() {
        Some(item) => match (ffon::get_ffon_at_id(&r.ffon, &item.id), item.id.last()) {
            (Some(layer), Some(idx)) => Some(
                if idx < layer.len() {
                    Some(layer[idx].clone())
                } else {
                    None
                },
            ),
            _ => None,
        },
        None => None,
    };
    if let Some(elem) = clip {
        moves::set_clipboard(r, elem);
    }
}

/// `u` after the selected text was deleted at `now`.
pub open spec fn text_cut(u: Ui, now: u64) -> Ui {
    moves::redrawn(
        typing::searched_again(moves::touched(typing::selection_deleted(u), now)),
    )
}

/// What the cut key leads to: the user interface, the text for the clipboard
/// of the system, and what to do outside.
#[verifier::opaque]
pub open spec fn after_cut(u: Ui, cache_dir: Seq<char>, now: u64) -> (
    Ui,
    Option<Seq<char>>,
    StepView,
) {
    if edits_text(u.coordinate) {
        if typing::selecting(u) {
            (text_cut(u, now), selected_text(u), StepView::Done)
        } else {
            (u, None, StepView::Done)
        }
    } else if handlers::operating(u) && handlers::in_filebrowser(u) {
        (u, None, cut_started(u, cache_dir))
    } else if u.coordinate is General && state::in_editor(u) {
        (
            moves::redrawn(
                state::updated(element_clipped(u), Task::Cut, History::NoHistory, now),
            ),
            None,
            StepView::Done,
        )
    } else {
        (u, None, StepView::Done)
    }
}

/// Cut the selected text, the file or the element. The text for the clipboard
/// of the system is given back.
pub fn handle_ctrl_x(r: &mut AppRenderer, cache_dir: &str, now: u64) -> (res: (
    Option<String>,
    Step,
))
    requires
        app_state::tabs_ok(old(r)@),
        edits_text(old(r)@.coordinate) && typing::selecting(old(r)@) ==> typing::cursor_ok(
            old(r)@,
        ),
    ensures
        (final(r)@, text::opt_text(res.0), res.1@) == after_cut(old(r)@, cache_dir@, now),
        app_state::tabs_ok(final(r)@),
{
    proof {
        reveal(after_cut);
    }
    if is_text_edit_mode(r) {
        let cut = find_selected_text(r);
        if cut.is_some() {
            typing::delete_selection(r);
            typing::changed(r, now);
        }
        return (cut, Step::Done);
    }
    if handlers::is_operating(r) && handlers::active_provider_is_filebrowser(r) {
        return (None, handle_file_cut(r, cache_dir));
    }
    if r.coordinate.is_general() && handlers::is_in_editor(r) {
        clip_element(r);
        state::update_state(r, Task::Cut, History::NoHistory, now);
        moves::redraw(r);
    }
    (None, Step::Done)
}

/// What the copy key leads to: the user interface, and the text for the
/// clipboard of the system.
#[verifier::opaque]
pub open spec fn after_copy(u: Ui) -> (Ui, Option<Seq<char>>) {
    if edits_text(u.coordinate) {
        if typing::selecting(u) {
            (moves::redrawn(u), selected_text(u))
        } else {
            (u, None)
        }
    } else if handlers::operating(u) && handlers::in_filebrowser(u) {
        (file_copied(u), None)
    } else if u.coordinate is General && state::in_editor(u) {
        (moves::redrawn(element_clipped(u)), None)
    } else {
        (u, None)
    }
}

/// Copy the selected text, the path of the file or the element. The text for
/// the clipboard of the system is given back.
pub fn handle_ctrl_c(r: &mut AppRenderer) -> (res: Option<String>)
    requires
        edits_text(old(r)@.coordinate) && typing::selecting(old(r)@) ==> typing::cursor_ok(
            old(r)@,
        ),
    ensures
        (final(r)@, text::opt_text(res)) == after_copy(old(r)@),
        app_state::tabs_ok(old(r)@) ==> app_state::tabs_ok(final(r)@),
{
    proof {
        reveal(after_copy);
    }
    if is_text_edit_mode(r) {
        let copied = find_selected_text(r);
        if copied.is_some() {
            moves::redraw(r);
        }
        return copied;
    }
    if handlers::is_operating(r) && handlers::active_provider_is_filebrowser(r) {
        handle_file_copy(r);
    } else if r.coordinate.is_general() && handlers::is_in_editor(r) {
        clip_element(r);
        moves::redraw(r);
    }
    None
}

/// What the paste key leads to, with `pasted` on the clipboard of the system.
#[verifier::opaque]
pub open spec fn after_paste(u: Ui, pasted: Option<Seq<char>>, now: u64) -> steps::Outcome {
    if edits_text(u.coordinate) {
        match pasted {
            Some(t) => (
                moves::redrawn(typing::searched_again(typing::typed_over(u, t, now))),
                StepView::Done,
            ),
            None => (u, StepView::Done),
        }
    } else if handlers::operating(u) && handlers::in_filebrowser(u) {
        (u, paste_started(u))
    } else if u.coordinate is General && state::in_editor(u) {
        (
            moves::redrawn(state::updated(u, Task::Paste, History::NoHistory, now)),
            StepView::Done,
        )
    } else {
        (u, StepView::Done)
    }
}

/// Paste the text `pasted` from the clipboard of the system, the file or the
/// element.
pub fn handle_ctrl_v(r: &mut AppRenderer, pasted: Option<String>, now: u64) -> (res: Step)
    requires
        app_state::tabs_ok(old(r)@),
        edits_text(old(r)@.coordinate) ==> if typing::selecting(old(r)@) {
            typing::cursor_ok(old(r)@)
        } else {
            typing::can_type(typing::text_here(old(r)@), old(r)@.cursor_position)
        },
    ensures
        (final(r)@, res@) == after_paste(old(r)@, text::opt_text(pasted), now),
        app_state::tabs_ok(final(r)@),
{
    proof {
        reveal(after_paste);
    }
    if is_text_edit_mode(r) {
        if let Some(t) = pasted {
            typing::type_over(r, t.as_str(), now);
            typing::maybe_update_search(r);
            moves::redraw(r);
        }
        return Step::Done;
    }
    if handlers::is_operating(r) && handlers::active_provider_is_filebrowser(r) {
        return handle_file_paste(r);
    }
    if r.coordinate.is_general() && handlers::is_in_editor(r) {
        state::update_state(r, Task::Paste, History::NoHistory, now);
        moves::redraw(r);
    }
    Step::Done
}

} // verus!
