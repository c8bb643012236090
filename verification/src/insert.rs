//! The enter key while an element of a provider is edited.

use vstd::prelude::*;

use crate::app_state;
use crate::app_state::{AppRenderer, Coordinate, ItemView, Ui};
use crate::elements;
use crate::ffon;
use crate::ffon::{FfonElement, IdArray, Node};
use crate::handlers;
use crate::list;
use crate::markup;
use crate::moves;
use crate::provider;
use crate::provider::{
    Creation,
    Op,
    OpView,
    Reply,
    ReplyView,
    RightEnd,
    Step,
    StepView,
    Then,
    ThenView,
};
use crate::saving;
use crate::state;
use crate::steps;
use crate::text;
use crate::timeline::{EntryView, FsOpKind, FsSideEffect, SideEffectView, TimelineEntry};

verus! {

/// The step that creates a file or a directory.
pub open spec fn creation_entry(id: Seq<usize>, is_dir: bool, name: Seq<char>) -> EntryView {
    EntryView::FsOp {
        provider_idx: steps::root_index(id),
        id,
        op: FsOpKind::Create,
        before: None,
        after: Some(
            if is_dir {
                Node::Obj { key: name, children: Seq::empty() }
            } else {
                Node::Str(name)
            },
        ),
        side_effect: SideEffectView::NoSideEffect,
    }
}

/// `u` with the creation of a file or a directory recorded, in place of the
/// empty element that its name was typed into.
pub open spec fn creation_recorded(
    u: Ui,
    id: Seq<usize>,
    is_dir: bool,
    name: Seq<char>,
    now: u64,
) -> Ui {
    state::with_recorded(state::step_dropped(u), creation_entry(id, is_dir, name), now)
}

fn record_creation(r: &mut AppRenderer, id: IdArray, is_dir: bool, name: &str, now: u64)
    requires
        app_state::tabs_ok(old(r)@),
    ensures
        final(r)@ == creation_recorded(old(r)@, id@, is_dir, name@, now),
        app_state::tabs_ok(final(r)@),
{
    state::drop_placeholder_step(r);
    let after = if is_dir {
        FfonElement::new_obj(name)
    } else {
        FfonElement::new_str(name)
    };
    let entry = TimelineEntry::FsOp {
        provider_idx: id.get(0).unwrap_or(0),
        id,
        op: FsOpKind::Create,
        before: None,
        after: Some(after),
        side_effect: FsSideEffect::NoSideEffect,
    };
    state::record_entry(r, entry, now);
}

/// The creation of `name`.
pub open spec fn creating(
    u: Ui,
    is_dir: bool,
    name: Seq<char>,
    way: Creation,
) -> StepView {
    StepView::Ask {
        provider: provider::active_index(u),
        ops: seq![
            if is_dir {
                OpView::CreateDirectory(name)
            } else {
                OpView::CreateFile(name)
            },
            OpView::TakeErrorOfFailure,
        ],
        then: ThenView::Created { name, id: u.current_id, is_dir, way },
    }
}

fn create(r: &AppRenderer, is_dir: bool, name: String, way: Creation) -> (res: Step)
    ensures
        res@ == creating(r@, is_dir, name@, way),
{
    let op = if is_dir {
        Op::CreateDirectory(name.clone())
    } else {
        Op::CreateFile(name.clone())
    };
    Step::Ask {
        provider: provider::present_provider_index(r),
        ops: provider::two_ops(op, Op::TakeErrorOfFailure),
        then: Then::Created { name, id: r.current_id.clone(), is_dir, way },
    }
}

/// What a name that tells a file from a directory leads to.
#[verifier::opaque]
pub open spec fn prefixed_entered(u: Ui) -> steps::Outcome {
    let (is_file, is_dir, name) = elements::creation(u.input_buffer);
    if (!is_file && !is_dir) || name.len() == 0 {
        (
            moves::redrawn(
                moves::with_error(
                    u,
                    "Enter a name (prefix with '- ' for file or '+ ' for directory)"@,
                ),
            ),
            StepView::Done,
        )
    } else {
        (u, creating(u, !is_file, name, Creation::Prefixed))
    }
}

fn enter_prefixed(r: &mut AppRenderer) -> (res: Step)
    ensures
        (final(r)@, res@) == prefixed_entered(old(r)@),
        app_state::tabs_ok(old(r)@) ==> app_state::tabs_ok(final(r)@),
{
    proof {
        reveal(prefixed_entered);
    }
    let (is_file, is_dir, name) = elements::parse_creation_prefix(r.input_buffer.as_str());
    if (!is_file && !is_dir) || name.as_str().unicode_len() == 0 {
        moves::set_error(
            r,
            "Enter a name (prefix with '- ' for file or '+ ' for directory)".to_owned(),
        );
        moves::redraw(r);
        Step::Done
    } else {
        create(r, !is_file, name, Creation::Prefixed)
    }
}

/// What a name in an element that spans it leads to: a colon behind it asks
/// for a directory.
pub open spec fn spanning_entered(u: Ui) -> StepView {
    let name = u.input_buffer;
    if name.len() > 0 && name.last() == ':' {
        creating(
            u,
            true,
            text::trimmed(text::without_trailing(name, ':')),
            Creation::Spanning,
        )
    } else {
        creating(u, false, name, Creation::Spanning)
    }
}

fn enter_spanning(r: &AppRenderer) -> (res: Step)
    ensures
        res@ == spanning_entered(r@),
{
    let name = r.input_buffer.as_str();
    if text::ends_with_char(name, ':') {
        let bare = text::trim_end_matches(name, ':');
        create(r, true, text::trim(bare.as_str()), Creation::Spanning)
    } else {
        create(r, false, name.to_owned(), Creation::Spanning)
    }
}

/// The part of the path of the provider that the text before an input names.
pub open spec fn label_of(prefix: Seq<char>) -> Seq<char> {
    text::trimmed(text::without_trailing(text::without_trailing(prefix, ' '), ':'))
}

fn find_label(prefix: &str) -> (res: String)
    ensures
        res@ == label_of(prefix@),
{
    let a = text::trim_end_matches(prefix, ' ');
    let b = text::trim_end_matches(a.as_str(), ':');
    text::trim(b.as_str())
}

/// What committing an edit asks of the provider.
pub open spec fn commit_ops(label: Seq<char>, before: Seq<char>, after: Seq<char>) -> Seq<OpView> {
    if label.len() > 0 {
        seq![
            OpView::PushPath(label),
            OpView::CommitEdit { before, after },
            OpView::TakeErrorOfFailure,
            OpView::PopPath,
        ]
    } else {
        seq![OpView::CommitEdit { before, after }, OpView::TakeErrorOfFailure]
    }
}

/// The element with the text that was typed between its tags.
pub open spec fn edited_element(u: Ui, key: Seq<char>, is_branch: bool) -> Node {
    let s = if markup::is_input_all(key) {
        u.input_prefix + "<input-all>"@ + u.input_buffer + "</input-all>"@ + u.input_suffix
    } else {
        u.input_prefix + "<input>"@ + u.input_buffer + "</input>"@ + u.input_suffix
    };
    if is_branch {
        Node::Obj { key: s, children: Seq::empty() }
    } else {
        Node::Str(s)
    }
}

fn wrap(prefix: &str, open: &str, content: &str, close: &str, suffix: &str) -> (res: String)
    ensures
        res@ == prefix@ + open@ + content@ + close@ + suffix@,
{
    let head = text::concat3(prefix, open, content);
    text::concat3(head.as_str(), close, suffix)
}

fn make_edited(r: &AppRenderer, key: &str, is_branch: bool) -> (res: FfonElement)
    ensures
        res@ == edited_element(r@, key@, is_branch),
{
    let prefix = r.input_prefix.as_str();
    let suffix = r.input_suffix.as_str();
    let content = r.input_buffer.as_str();
    let s = if markup::has_input_all(key) {
        wrap(prefix, "<input-all>", content, "</input-all>", suffix)
    } else {
        wrap(prefix, "<input>", content, "</input>", suffix)
    };
    if is_branch {
        FfonElement::new_obj(s.as_str())
    } else {
        FfonElement::new_str(s.as_str())
    }
}

/// What committing the edit of the element with the text `key` leads to.
pub open spec fn commit_started(u: Ui, key: Seq<char>, is_branch: bool) -> StepView {
    StepView::Ask {
        provider: provider::active_index(u),
        ops: commit_ops(
            label_of(u.input_prefix),
            elements::or_empty(handlers::editable_text(key)),
            u.input_buffer,
        ),
        then: ThenView::EditCommitted { element: edited_element(u, key, is_branch) },
    }
}

fn start_commit(r: &AppRenderer, key: &str, is_branch: bool, before: String) -> (res: Step)
    requires
        before@ == elements::or_empty(handlers::editable_text(key@)),
    ensures
        res@ == commit_started(r@, key@, is_branch),
{
    let label = find_label(r.input_prefix.as_str());
    let element = make_edited(r, key, is_branch);
    let edit = Op::CommitEdit { before, after: r.input_buffer.clone() };
    let ops = if label.as_str().unicode_len() > 0 {
        provider::four_ops(Op::PushPath(label), edit, Op::TakeErrorOfFailure, Op::PopPath)
    } else {
        provider::two_ops(edit, Op::TakeErrorOfFailure)
    };
    Step::Ask {
        provider: provider::present_provider_index(r),
        ops,
        then: Then::EditCommitted { element },
    }
}

/// What is asked for when something is typed into an element.
pub enum Entry {
    /// Nothing: the text is as it was.
    Unchanged,
    /// The name of a file to save to.
    SaveName,
    /// A name that tells a file from a directory.
    Prefixed,
    /// A name in an element that spans it.
    Spanning,
    /// A name for a directory.
    Branch,
    /// A name for a file.
    Leaf,
    /// Another text.
    Edit,
}

/// What is asked for when `new` is typed in place of `before` into an element
/// with the text `key`.
pub open spec fn entry_kind(
    u: Ui,
    key: Seq<char>,
    is_branch: bool,
    before: Seq<char>,
) -> Entry {
    let bare = before.len() == 0 && u.input_prefix.len() == 0 && u.input_buffer.len() > 0;
    if before == u.input_buffer {
        Entry::Unchanged
    } else if u.pending_file_browser_save_as && before.len() == 0 {
        Entry::SaveName
    } else if before.len() == 0 && u.placeholder_insert_mode {
        Entry::Prefixed
    } else if bare && markup::is_input_all(key) {
        Entry::Spanning
    } else if bare && is_branch {
        Entry::Branch
    } else if bare {
        Entry::Leaf
    } else {
        Entry::Edit
    }
}

fn find_entry_kind(r: &AppRenderer, key: &str, is_branch: bool, before: &str) -> (res: Entry)
    ensures
        res == entry_kind(r@, key@, is_branch, before@),
{
    let bare = before.unicode_len() == 0 && r.input_prefix.as_str().unicode_len() == 0
        && r.input_buffer.as_str().unicode_len() > 0;
    if text::same(before, r.input_buffer.as_str()) {
        Entry::Unchanged
    } else if r.pending_file_browser_save_as && before.unicode_len() == 0 {
        Entry::SaveName
    } else if before.unicode_len() == 0 && r.placeholder_insert_mode {
        Entry::Prefixed
    } else if bare && markup::has_input_all(key) {
        Entry::Spanning
    } else if bare && is_branch {
        Entry::Branch
    } else if bare {
        Entry::Leaf
    } else {
        Entry::Edit
    }
}

/// What the text typed into the element with the text `key` leads to, with
/// `dir` as the folder to save in.
#[verifier::opaque]
pub open spec fn text_entered(
    u: Ui,
    key: Seq<char>,
    is_branch: bool,
    dir: Seq<char>,
) -> steps::Outcome {
    match entry_kind(u, key, is_branch, elements::or_empty(handlers::editable_text(key))) {
        Entry::Unchanged => (u, provider::fetching(u, ThenView::EditUnchanged)),
        Entry::SaveName => (u, saving::naming_started(dir, u.input_buffer)),
        Entry::Prefixed => prefixed_entered(u),
        Entry::Spanning => (u, spanning_entered(u)),
        Entry::Branch => (u, creating(u, true, u.input_buffer, Creation::Branch)),
        Entry::Leaf => (u, creating(u, false, u.input_buffer, Creation::Leaf)),
        Entry::Edit => (u, commit_started(u, key, is_branch)),
    }
}

fn enter_text(r: &mut AppRenderer, key: &str, is_branch: bool, dir: &str) -> (res: Step)
    ensures
        (final(r)@, res@) == text_entered(old(r)@, key@, is_branch, dir@),
        app_state::tabs_ok(old(r)@) ==> app_state::tabs_ok(final(r)@),
{
    proof {
        reveal(text_entered);
    }
    let before = elements::text_or_empty(handlers::find_editable(key));
    match find_entry_kind(r, key, is_branch, before.as_str()) {
        Entry::Unchanged => provider::refresh_current_directory(r, Then::EditUnchanged),
        Entry::SaveName => saving::start_naming(dir, r.input_buffer.as_str()),
        Entry::Prefixed => enter_prefixed(r),
        Entry::Spanning => enter_spanning(r),
        Entry::Branch => create(r, true, r.input_buffer.clone(), Creation::Branch),
        Entry::Leaf => create(r, false, r.input_buffer.clone(), Creation::Leaf),
        Entry::Edit => start_commit(r, key, is_branch, before),
    }
}

/// What the enter key leads to while an element is edited, with `dir` as the
/// folder to save in.
#[verifier::opaque]
pub open spec fn edit_entered(u: Ui, dir: Seq<char>, now: u64) -> steps::Outcome {
    match moves::focused_node(u) {
        Some(n) => if markup::is_input_all(ffon::node_text(n)) || markup::is_input(
            ffon::node_text(n),
        ) {
            text_entered(u, ffon::node_text(n), n is Obj, dir)
        } else {
            (handlers::escaped(u, now), StepView::Done)
        },
        None => (handlers::escaped(u, now), StepView::Done),
    }
}

/// Hand over what was typed into the element: to be saved to, created or
/// committed by the provider.
pub fn handle_enter_operator_insert(r: &mut AppRenderer, save_dir: &str, now: u64) -> (res: Step)
    requires
        app_state::tabs_ok(old(r)@),
    ensures
        (final(r)@, res@) == edit_entered(old(r)@, save_dir@, now),
        app_state::tabs_ok(final(r)@),
{
    proof {
        reveal(edit_entered);
    }
    match moves::focused(r) {
        Some(elem) => {
            let key = elem.text();
            if markup::has_input_all(key) || sicompass_sdk::tags::has_input(key) {
                enter_text(r, key, elem.is_obj(), save_dir)
            } else {
                handlers::handle_escape(r, now);
                Step::Done
            }
        },
        None => {
            handlers::handle_escape(r, now);
            Step::Done
        },
    }
}

/// Go on when it was fetched anew what the provider has, after an edit that
/// changed nothing.
pub fn edit_unchanged(r: &mut AppRenderer, p: Option<usize>, reply: Reply, now: u64)
    requires
        app_state::tabs_ok(old(r)@),
    ensures
        final(r)@ == handlers::edit_closed(provider::refreshed(old(r)@, p, reply@), now),
        app_state::tabs_ok(final(r)@),
{
    provider::apply_refresh(r, p, reply);
    handlers::close_edit(r, now);
}

/// `u` with nothing edited any more.
pub open spec fn typing_left(u: Ui) -> Ui {
    moves::without_input(moves::with_modes(u, Coordinate::General, Coordinate::General))
}

fn leave_typing(r: &mut AppRenderer)
    ensures
        final(r)@ == typing_left(old(r)@),
        app_state::tabs_ok(old(r)@) ==> app_state::tabs_ok(final(r)@),
{
    moves::set_modes(r, Coordinate::General, Coordinate::General);
    moves::clear_input(r);
}

/// `u` with its position at the element that `s` was typed into, which has
/// the text `s` now.
pub open spec fn renamed_here(u: Ui, s: Seq<char>) -> Ui {
    moves::node_replaced(u, ffon::last_or_zero(u.current_id), Node::Str(s))
}

fn rename_here(r: &mut AppRenderer, s: &str)
    ensures
        final(r)@ == renamed_here(old(r)@, s@),
        app_state::tabs_ok(old(r)@) ==> app_state::tabs_ok(final(r)@),
{
    let idx: usize = r.current_id.last().unwrap_or(0);
    moves::replace_node(r, idx, FfonElement::new_str(s));
}

/// `u` where the provider does not create anything, and the name becomes the
/// text of the element.
pub open spec fn name_kept(u: Ui, name: Seq<char>, is_dir: bool) -> Ui {
    let v = renamed_here(
        u,
        if is_dir {
            name
        } else {
            "<input>"@ + name + "</input>"@
        },
    );
    moves::redrawn(
        moves::list_scrolled(moves::at_position(typing_left(list::listed(v))), 0),
    )
}

fn keep_name(r: &mut AppRenderer, name: &str, is_dir: bool)
    requires
        app_state::tabs_ok(old(r)@),
    ensures
        final(r)@ == name_kept(old(r)@, name@, is_dir),
        app_state::tabs_ok(final(r)@),
{
    if is_dir {
        rename_here(r, name);
    } else {
        let s = sicompass_sdk::tags::format_input(name);
        rename_here(r, s.as_str());
    }
    moves::relist(r);
    leave_typing(r);
    moves::point_at_position(r);
    moves::set_scroll(r, 0);
    moves::redraw(r);
}

/// What follows where the provider did not create `name`.
#[verifier::opaque]
pub open spec fn creation_failed(
    u: Ui,
    name: Seq<char>,
    is_dir: bool,
    way: Creation,
    now: u64,
) -> Ui {
    let silent = u.error_message.len() == 0;
    match way {
        Creation::Prefixed => if silent {
            moves::redrawn(moves::with_error(u, "Failed to create item"@))
        } else {
            moves::redrawn(u)
        },
        Creation::Spanning => if silent {
            name_kept(u, name, is_dir)
        } else {
            moves::redrawn(u)
        },
        Creation::Branch => if silent {
            u
        } else {
            moves::redrawn(u)
        },
        Creation::Leaf => if silent {
            handlers::escaped(renamed_here(u, "<input>"@ + name + "</input>"@), now)
        } else {
            moves::redrawn(u)
        },
    }
}

fn fail_creation(r: &mut AppRenderer, name: &str, is_dir: bool, way: Creation, now: u64)
    requires
        app_state::tabs_ok(old(r)@),
    ensures
        final(r)@ == creation_failed(old(r)@, name@, is_dir, way, now),
        app_state::tabs_ok(final(r)@),
{
    proof {
        reveal(creation_failed);
    }
    if r.error_message.as_str().unicode_len() > 0 {
        moves::redraw(r);
        return;
    }
    match way {
        Creation::Prefixed => {
            moves::set_error(r, "Failed to create item".to_owned());
            moves::redraw(r);
        },
        Creation::Spanning => keep_name(r, name, is_dir),
        Creation::Branch => {},
        Creation::Leaf => {
            let s = sicompass_sdk::tags::format_input(name);
            rename_here(r, s.as_str());
            handlers::handle_escape(r, now);
        },
    }
}

/// `u` after a creation, with a name no longer asked for where it was.
pub open spec fn creation_kept(
    u: Ui,
    id: Seq<usize>,
    is_dir: bool,
    name: Seq<char>,
    way: Creation,
    now: u64,
) -> Ui {
    if way == Creation::Prefixed {
        handlers::asking_for_names(creation_recorded(u, id, is_dir, name, now), false)
    } else {
        creation_recorded(u, id, is_dir, name, now)
    }
}

/// What follows when a file or a directory was created, or not.
#[verifier::opaque]
pub open spec fn creation_done(
    u: Ui,
    p: Option<usize>,
    reply: ReplyView,
    name: Seq<char>,
    id: Seq<usize>,
    is_dir: bool,
    way: Creation,
    now: u64,
) -> steps::Outcome {
    let v = provider::failure_noted(u, p, reply);
    if p is Some && reply.ok {
        let w = creation_kept(v, id, is_dir, name, way, now);
        (w, provider::fetching(w, ThenView::CreatedFetched { name, way }))
    } else {
        (creation_failed(v, name, is_dir, way, now), StepView::Done)
    }
}

/// Go on when a file or a directory was created, or not.
pub fn created(
    r: &mut AppRenderer,
    p: Option<usize>,
    reply: Reply,
    name: String,
    id: IdArray,
    is_dir: bool,
    way: Creation,
    now: u64,
) -> (res: Step)
    requires
        app_state::tabs_ok(old(r)@),
    ensures
        (final(r)@, res@) == creation_done(
            old(r)@,
            p,
            reply@,
            name@,
            id@,
            is_dir,
            way,
            now,
        ),
        app_state::tabs_ok(final(r)@),
{
    proof {
        reveal(creation_done);
    }
    if provider::note_failure(r, p, &reply) {
        record_creation(r, id, is_dir, name.as_str(), now);
        if way == Creation::Prefixed {
            handlers::set_asking(r, false);
        }
        provider::refresh_current_directory(r, Then::CreatedFetched { name, way })
    } else {
        fail_creation(r, name.as_str(), is_dir, way, now);
        Step::Done
    }
}

/// What an item shows behind its prefix.
pub open spec fn item_content(label: Seq<char>) -> Seq<char> {
    match text::split_at_first(label, ' ') {
        Some((_, rest)) => rest,
        None => label,
    }
}

/// The first item at or behind `from` that shows `name`.
pub open spec fn item_named(items: Seq<ItemView>, name: Seq<char>, from: int) -> Option<int>
    decreases items.len() - from,
{
    if from < 0 || from >= items.len() {
        None
    } else if item_content(items[from].label) == name {
        Some(from)
    } else {
        item_named(items, name, from + 1)
    }
}

fn find_item_named(r: &AppRenderer, name: &str) -> (res: Option<usize>)
    ensures
        match res {
            Some(i) => item_named(r@.total_list, name@, 0) == Some(i as int) && i
                < r@.total_list.len(),
            None => item_named(r@.total_list, name@, 0) is None,
        },
{
    let mut i: usize = 0;
    while i < r.total_list.len()
        invariant
            i <= r.total_list.len(),
            item_named(r@.total_list, name@, 0) == item_named(r@.total_list, name@, i as int),
        decreases r.total_list.len() - i,
    {
        assert(r@.total_list[i as int] == r.total_list@[i as int]@);
        let label = r.total_list[i].label.as_str();
        let hit = match text::split_once(label, ' ') {
            Some((_, rest)) => text::same(rest.as_str(), name),
            None => text::same(label, name),
        };
        if hit {
            return Some(i);
        }
        i += 1;
    }
    None
}

/// `u` at the item that shows `name`, where there is one.
#[verifier::opaque]
pub open spec fn at_item_named(u: Ui, name: Seq<char>, select: bool) -> Ui {
    match item_named(u.total_list, name, 0) {
        Some(i) => if select {
            moves::at_item(moves::placed(u, u.total_list[i].id), i as usize)
        } else {
            moves::placed(u, u.total_list[i].id)
        },
        None => u,
    }
}

fn go_to_item_named(r: &mut AppRenderer, name: &str, select: bool)
    ensures
        final(r)@ == at_item_named(old(r)@, name@, select),
        app_state::tabs_ok(old(r)@) ==> app_state::tabs_ok(final(r)@),
{
    proof {
        reveal(at_item_named);
    }
    if let Some(i) = find_item_named(r, name) {
        assert(r@.total_list[i as int] == r.total_list@[i as int]@);
        let id = r.total_list[i].id.clone();
        moves::set_position(r, id);
        if select {
            moves::set_list_index(r, i);
        }
    }
}

/// `u` after the directory was fetched that something was created in, at what
/// was created.
#[verifier::opaque]
pub open spec fn creation_shown(
    u: Ui,
    p: Option<usize>,
    reply: ReplyView,
    name: Seq<char>,
    way: Creation,
) -> Ui {
    let v = list::listed(provider::refreshed(u, p, reply));
    match way {
        Creation::Prefixed => moves::redrawn(typing_left(at_item_named(v, name, true))),
        Creation::Spanning => moves::redrawn(
            moves::list_scrolled(
                moves::at_position(typing_left(at_item_named(v, name, false))),
                0,
            ),
        ),
        _ => moves::redrawn(moves::at_position(typing_left(at_item_named(v, name, false)))),
    }
}

/// Go on when the directory was fetched that something was created in.
pub fn created_fetched(
    r: &mut AppRenderer,
    p: Option<usize>,
    reply: Reply,
    name: String,
    way: Creation,
)
    requires
        app_state::tabs_ok(old(r)@),
    ensures
        final(r)@ == creation_shown(old(r)@, p, reply@, name@, way),
        app_state::tabs_ok(final(r)@),
{
    proof {
        reveal(creation_shown);
    }
    provider::apply_refresh(r, p, reply);
    moves::relist(r);
    go_to_item_named(r, name.as_str(), way == Creation::Prefixed);
    leave_typing(r);
    if way != Creation::Prefixed {
        moves::point_at_position(r);
    }
    if way == Creation::Spanning {
        moves::set_scroll(r, 0);
    }
    moves::redraw(r);
}

/// What follows when an edit was committed, or not.
#[verifier::opaque]
pub open spec fn edit_done(
    u: Ui,
    p: Option<usize>,
    reply: ReplyView,
    element: Node,
    now: u64,
) -> steps::Outcome {
    let v = provider::failure_noted(u, p, reply);
    let w = moves::node_replaced(v, ffon::last_or_zero(v.current_id), element);
    if p is Some && reply.ok {
        (w, provider::fetching(w, ThenView::EditFetched))
    } else {
        (handlers::edit_closed(w, now), StepView::Done)
    }
}

/// Go on when an edit was committed, or not: the element has the new text
/// either way.
pub fn edit_committed(
    r: &mut AppRenderer,
    p: Option<usize>,
    reply: Reply,
    element: FfonElement,
    now: u64,
) -> (res: Step)
    requires
        app_state::tabs_ok(old(r)@),
    ensures
        (final(r)@, res@) == edit_done(old(r)@, p, reply@, element@, now),
        app_state::tabs_ok(final(r)@),
{
    proof {
        reveal(edit_done);
    }
    let ok = provider::note_failure(r, p, &reply);
    let idx: usize = r.current_id.last().unwrap_or(0);
    moves::replace_node(r, idx, element);
    if ok {
        provider::refresh_current_directory(r, Then::EditFetched)
    } else {
        handlers::close_edit(r, now);
        Step::Done
    }
}

/// Go on when it was fetched what the provider has after an edit: go into the
/// element, where it has a layer now.
pub fn edit_fetched(r: &mut AppRenderer, p: Option<usize>, reply: Reply, now: u64) -> (res: Step)
    requires
        app_state::tabs_ok(old(r)@),
    ensures
        (final(r)@, res@) == steps::right_raw(
            provider::refreshed(old(r)@, p, reply@),
            RightEnd::Commit,
            now,
        ),
        app_state::tabs_ok(final(r)@),
{
    provider::apply_refresh(r, p, reply);
    steps::navigate_right_raw(r, RightEnd::Commit, now)
}

} // verus!
