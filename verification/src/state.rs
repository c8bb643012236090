//! Edits of the tree, and the timeline that undoes them.

use vstd::prelude::*;

use crate::app_state;
use crate::app_state::{
    AppRenderer, Coordinate, History, Task, Timeline, TimelineState, Ui, TEXT_CHUNK_IDLE_MS,
    TIMELINE_CAPACITY,
};
use crate::ffon;
use crate::ffon::{FfonElement, FfonObject, IdArray, Node};
use crate::list;
use crate::text;
use crate::timeline::{
    EntryView, PayloadView, StructuralOp, StructuralPayload, TimelineEntry,
};

verus! {

/// Whether a line names a branch.
pub open spec fn names_branch(line: Seq<char>) -> bool {
    line.len() > 0 && line.last() == ':'
}

/// The name of a branch in a line.
pub open spec fn branch_name(line: Seq<char>) -> Seq<char> {
    if names_branch(line) {
        line.drop_last()
    } else {
        line
    }
}

/// Whether the last character of `line` is a colon.
pub fn is_line_key(line: &str) -> (r: bool)
    ensures
        r == names_branch(line@),
{
    text::ends_with_char(line, ':')
}

/// `s` without a colon at its end.
pub fn strip_trailing_colon(s: &str) -> (r: String)
    ensures
        r@ == branch_name(s@),
{
    if is_line_key(s) {
        let n: usize = s.unicode_len();
        assert(s@.subrange(0, n - 1) =~= s@.drop_last());
        text::substring(s, 0, n - 1)
    } else {
        s.to_owned()
    }
}

/// The layer that holds the element at `id`, to be changed in place.
pub fn navigate_to_slice_pub<'a>(ffon: &'a mut Vec<FfonElement>, id: &IdArray) -> (r: Option<
    &'a mut Vec<FfonElement>,
>)
    ensures
        match r {
            Some(v) => {
                &&& ffon::layer_of(ffon::forest(old(ffon)@), id@) == Some(ffon::forest(v@))
                &&& ffon::forest(final(ffon)@) == ffon::with_layer(
                    ffon::forest(old(ffon)@),
                    id@,
                    ffon::forest(final(v)@),
                )
            },
            None => {
                &&& ffon::layer_of(ffon::forest(old(ffon)@), id@) is None
                &&& ffon::forest(final(ffon)@) == ffon::forest(old(ffon)@)
            },
        },
{
    ffon::navigate_to_slice_mut(ffon, id)
}

/// Where a task moves the position `id`.
pub open spec fn moved_id(
    root: Seq<Node>,
    id: Seq<usize>,
    general: bool,
    is_key: bool,
    task: Task,
) -> Seq<usize> {
    let idx = ffon::last_or_zero(id);
    let max = ffon::max_index(root, id);
    match task {
        Task::ArrowUp => if idx > 0 {
            ffon::with_last(id, (idx - 1) as usize)
        } else {
            id
        },
        Task::ArrowDown => if idx < max {
            ffon::with_last(id, (idx + 1) as usize)
        } else {
            id
        },
        Task::ArrowLeft => if id.len() > 1 {
            id.drop_last()
        } else {
            id
        },
        Task::ArrowRight => if ffon::is_branch_at(root, id) {
            id.push(0)
        } else {
            id
        },
        Task::Append => if !general {
            id
        } else if !is_key || ffon::is_branch_at(root, id) {
            ffon::with_last(id, (idx + 1) as usize)
        } else {
            id.push(0)
        },
        Task::AppendAppend => if general {
            ffon::with_last(id, (max + 1) as usize)
        } else {
            id
        },
        Task::InsertInsert => if general {
            ffon::with_last(id, 0)
        } else {
            id
        },
        _ => id,
    }
}

/// `u` with its position remembered and moved as a task asks; a task that is
/// undone or done again does not move it.
pub open spec fn moved(u: Ui, is_key: bool, task: Task, history: History) -> Ui {
    Ui {
        previous_id: u.current_id,
        current_id: if history == History::NoHistory {
            moved_id(u.ffon, u.current_id, u.coordinate == Coordinate::General, is_key, task)
        } else {
            u.current_id
        },
        ..u
    }
}

/// Whether the index behind the position can be counted, where a task needs
/// it.
pub open spec fn can_do(u: Ui, task: Task) -> bool {
    task == Task::Append ==> ffon::last_or_zero(u.current_id) < usize::MAX
}

fn next_id(
    ffon: &Vec<FfonElement>,
    id: &IdArray,
    general: bool,
    is_key: bool,
    task: Task,
) -> (r: IdArray)
    requires
        task == Task::Append ==> ffon::last_or_zero(id@) < usize::MAX,
    ensures
        r@ == moved_id(ffon::forest(ffon@), id@, general, is_key, task),
{
    let max_id: usize = ffon::get_ffon_max_id_at_path(ffon, id);
    let current_idx: usize = id.last().unwrap_or(0);
    let mut next = id.clone();
    match task {
        Task::ArrowUp => {
            if current_idx > 0 {
                next.set_last(current_idx - 1);
            }
        },
        Task::ArrowDown => {
            if current_idx < max_id {
                next.set_last(current_idx + 1);
            }
        },
        Task::ArrowLeft => {
            if next.depth() > 1 {
                next.pop();
            }
        },
        Task::ArrowRight => {
            if ffon::next_layer_exists(ffon, id) {
                next.push(0);
            }
        },
        Task::Append => {
            if general {
                if !is_key || ffon::next_layer_exists(ffon, id) {
                    next.set_last(current_idx + 1);
                } else {
                    next.push(0);
                }
            }
        },
        Task::AppendAppend => {
            if general {
                next.set_last(max_id + 1);
            }
        },
        Task::InsertInsert => {
            if general {
                next.set_last(0);
            }
        },
        _ => {},
    }
    next
}

/// Remember the position, and move it as `task` asks.
pub fn update_ids(r: &mut AppRenderer, is_key: bool, task: Task, history: History)
    requires
        can_do(old(r)@, task),
    ensures
        final(r)@ == moved(old(r)@, is_key, task, history),
{
    let before = r.current_id.clone();
    if history == History::NoHistory {
        let next = next_id(&r.ffon, &before, r.coordinate.is_general(), is_key, task);
        r.current_id = next;
    }
    r.previous_id = before;
}

/// Whether a task makes room for a new element.
pub open spec fn makes_room(task: Task) -> bool {
    task == Task::Append || task == Task::AppendAppend || task == Task::Insert || task
        == Task::InsertInsert
}

/// Whether a task takes an element out.
pub open spec fn takes_out(task: Task) -> bool {
    task == Task::Delete || task == Task::Cut
}

/// Whether edits at the position work on the tree.
pub open spec fn in_editor(u: Ui) -> bool {
    list::active_provider(u) matches Some(p) && p.has_editor_semantics
}

/// An empty leaf.
pub open spec fn blank() -> Node {
    Node::Str(Seq::empty())
}

/// A branch with one empty leaf.
pub open spec fn new_branch(name: Seq<char>) -> Node {
    Node::Obj { key: name, children: seq![blank()] }
}

/// The element that a line stands for.
pub open spec fn line_node(line: Seq<char>, is_key: bool) -> Node {
    if is_key {
        new_branch(branch_name(line))
    } else {
        Node::Str(line)
    }
}

/// The tree and the position `cur` after the element at `prev` is taken out.
/// A layer inside a branch does not stay empty, nor does one that the editor
/// does not own.
pub open spec fn taken_out(
    root: Seq<Node>,
    prev: Seq<usize>,
    cur: Seq<usize>,
    is_key: bool,
    editor: bool,
) -> (Seq<Node>, Seq<usize>) {
    let idx = prev.last();
    let rest = ffon::removed(root, prev, idx as int);
    let left = ffon::layer_len(rest, prev);
    let at = ffon::last_or_zero(cur);
    let stepped = if at > 0 {
        ffon::with_last(cur, (at - 1) as usize)
    } else {
        cur
    };
    if !editor {
        if left == 0 {
            (
                ffon::inserted(rest, prev, 0, Node::Str("<input></input>"@)),
                ffon::with_last(cur, 0),
            )
        } else {
            (rest, stepped)
        }
    } else if is_key {
        if prev.len() != 1 && left == 0 {
            (ffon::inserted(rest, prev, 0, blank()), cur)
        } else if left > 0 && idx > 0 {
            (rest, ffon::with_last(cur, (idx - 1) as usize))
        } else {
            (rest, cur)
        }
    } else if cur.len() > 0 && at == 0 && left == 0 && prev.len() != 1 {
        (ffon::inserted(rest, prev, idx as int, blank()), cur)
    } else {
        (rest, stepped)
    }
}

/// The tree after an editor edit that writes `line` to `prev` and, for some
/// tasks, makes room at `at`.
pub open spec fn written(
    root: Seq<Node>,
    prev: Seq<usize>,
    at: usize,
    line: Seq<char>,
    is_key: bool,
    room: bool,
) -> Seq<Node> {
    let idx = prev.last() as int;
    let set = if !is_key {
        ffon::replaced(root, prev, idx, Node::Str(line))
    } else if ffon::is_branch_at(root, prev) {
        ffon::rekeyed(root, prev, idx, branch_name(line))
    } else {
        ffon::replaced(root, prev, idx, new_branch(branch_name(line)))
    };
    if room {
        ffon::inserted(set, prev, at as int, blank())
    } else {
        set
    }
}

/// The tree and the position `cur` after the edit that `task` asks for at
/// `prev`.
pub open spec fn edit_result(
    root: Seq<Node>,
    prev: Seq<usize>,
    cur: Seq<usize>,
    clipboard: Option<Node>,
    line: Seq<char>,
    is_key: bool,
    task: Task,
    history: History,
    editor: bool,
) -> (Seq<Node>, Seq<usize>) {
    if prev.len() == 0 {
        (root, cur)
    } else if root.len() == 0 && prev.len() == 1 {
        if makes_room(task) || task == Task::Input {
            (seq![line_node(line, is_key)], cur)
        } else {
            (root, cur)
        }
    } else if task == Task::Paste {
        match clipboard {
            Some(n) => (ffon::replaced(root, prev, prev.last() as int, n), cur),
            None => (root, cur),
        }
    } else if takes_out(task) {
        taken_out(root, prev, cur, is_key, editor)
    } else if editor {
        let room = makes_room(task) && history != History::Redo;
        (written(root, prev, ffon::last_or_zero(cur), line, is_key, room), cur)
    } else {
        (root, cur)
    }
}

/// `u` after the edit that `task` asks for, at the remembered position.
pub open spec fn edited(u: Ui, line: Seq<char>, is_key: bool, task: Task, history: History) -> Ui {
    let (root, id) = edit_result(
        u.ffon,
        u.previous_id,
        u.current_id,
        u.clipboard,
        line,
        is_key,
        task,
        history,
        in_editor(u),
    );
    Ui { ffon: root, current_id: id, ..u }
}

fn editor_active(r: &AppRenderer) -> (b: bool)
    ensures
        b == in_editor(r@),
{
    match list::get_active_provider_ref(r) {
        Some(p) => p.has_editor_semantics,
        None => false,
    }
}

fn is_making_room(task: Task) -> (b: bool)
    ensures
        b == makes_room(task),
{
    match task {
        Task::Append | Task::AppendAppend | Task::Insert | Task::InsertInsert => true,
        _ => false,
    }
}

fn blank_element() -> (e: FfonElement)
    ensures
        e@ == blank(),
{
    FfonElement::Str(String::new())
}

fn branch_element(name: String) -> (e: FfonElement)
    ensures
        e@ == new_branch(name@),
{
    let mut children: Vec<FfonElement> = Vec::new();
    children.push(blank_element());
    let o = FfonObject { key: name, children };
    proof {
        ffon::lemma_obj_view(o);
        assert(ffon::forest(o.children@) =~= seq![blank()]);
    }
    FfonElement::Obj(o)
}

fn take_out(
    ffon: &mut Vec<FfonElement>,
    prev: &IdArray,
    cur: &mut IdArray,
    is_key: bool,
    editor: bool,
)
    requires
        prev@.len() > 0,
    ensures
        (ffon::forest(final(ffon)@), final(cur)@) == taken_out(
            ffon::forest(old(ffon)@),
            prev@,
            old(cur)@,
            is_key,
            editor,
        ),
{
    let prev_idx: usize = prev.ids[prev.ids.len() - 1];
    let depth: usize = prev.depth();
    let at: usize = cur.last().unwrap_or(0);
    ffon::remove_at(ffon, prev, prev_idx);
    let left: usize = ffon::get_parent_len(ffon, prev);
    if !editor {
        if left == 0 {
            ffon::insert_at(ffon, prev, 0, FfonElement::new_str("<input></input>"));
            cur.set_last(0);
        } else if at > 0 {
            cur.set_last(at - 1);
        }
    } else if is_key {
        if depth != 1 && left == 0 {
            ffon::insert_at(ffon, prev, 0, blank_element());
        } else if left > 0 && prev_idx > 0 {
            cur.set_last(prev_idx - 1);
        }
    } else if cur.depth() > 0 && at == 0 && left == 0 && depth != 1 {
        ffon::insert_at(ffon, prev, prev_idx, blank_element());
    } else if at > 0 {
        cur.set_last(at - 1);
    }
}

fn write_line(
    ffon: &mut Vec<FfonElement>,
    prev: &IdArray,
    at: usize,
    line: &str,
    is_key: bool,
    room: bool,
)
    requires
        prev@.len() > 0,
    ensures
        ffon::forest(final(ffon)@) == written(
            ffon::forest(old(ffon)@),
            prev@,
            at,
            line@,
            is_key,
            room,
        ),
{
    let prev_idx: usize = prev.ids[prev.ids.len() - 1];
    if !is_key {
        ffon::replace_at(ffon, prev, prev_idx, FfonElement::new_str(line));
    } else {
        let name = strip_trailing_colon(line);
        if ffon::next_layer_exists(ffon, prev) {
            ffon::rekey_obj_at(ffon, prev, prev_idx, name);
        } else {
            ffon::replace_at(ffon, prev, prev_idx, branch_element(name));
        }
    }
    if room {
        ffon::insert_at(ffon, prev, at, blank_element());
    }
}

fn edit(
    ffon: &mut Vec<FfonElement>,
    prev: &IdArray,
    cur: &mut IdArray,
    clipboard: &Option<FfonElement>,
    line: &str,
    is_key: bool,
    task: Task,
    history: History,
    editor: bool,
)
    ensures
        (ffon::forest(final(ffon)@), final(cur)@) == edit_result(
            ffon::forest(old(ffon)@),
            prev@,
            old(cur)@,
            ffon::opt_node(*clipboard),
            line@,
            is_key,
            task,
            history,
            editor,
        ),
{
    let depth: usize = prev.depth();
    if depth == 0 {
        return;
    }
    if ffon.len() == 0 && depth == 1 {
        if is_making_room(task) || task == Task::Input {
            let new_elem = if is_key {
                branch_element(strip_trailing_colon(line))
            } else {
                FfonElement::new_str(line)
            };
            ffon.push(new_elem);
            assert(ffon::forest(ffon@) =~= seq![line_node(line@, is_key)]);
        }
    } else if task == Task::Paste {
        if let Some(e) = clipboard {
            ffon::replace_at(ffon, prev, prev.ids[depth - 1], e.clone());
        }
    } else if task == Task::Delete || task == Task::Cut {
        take_out(ffon, prev, cur, is_key, editor);
    } else if editor {
        let at: usize = cur.last().unwrap_or(0);
        let room = is_making_room(task) && history != History::Redo;
        write_line(ffon, prev, at, line, is_key, room);
    }
}

/// Do the edit that `task` asks for, at the remembered position.
pub fn update_ffon(r: &mut AppRenderer, line: &str, is_key: bool, task: Task, history: History)
    ensures
        final(r)@ == edited(old(r)@, line@, is_key, task, history),
{
    let editor = editor_active(r);
    edit(
        &mut r.ffon,
        &r.previous_id,
        &mut r.current_id,
        &r.clipboard,
        line,
        is_key,
        task,
        history,
        editor,
    );
}

/// Whether two steps are navigations that make one: in the same provider, to
/// the same path.
pub open spec fn navigations_merge(tail: EntryView, entry: EntryView) -> bool {
    match (tail, entry) {
        (
            EntryView::Navigate { provider_idx: p, to_path: q, .. },
            EntryView::Navigate { provider_idx, to_path, .. },
        ) => p == provider_idx && q == to_path,
        _ => false,
    }
}

/// The navigation from the start of `tail` to the end of `entry`.
pub open spec fn merged_navigation(tail: EntryView, entry: EntryView) -> EntryView {
    match (tail, entry) {
        (
            EntryView::Navigate { provider_idx, from_id, from_path, .. },
            EntryView::Navigate { to_id, to_path, kind, .. },
        ) => EntryView::Navigate { provider_idx, from_id, to_id, from_path, to_path, kind },
        _ => tail,
    }
}

/// Whether typing at `id` goes on with the last typing.
pub open spec fn typing_goes_on(tl: TimelineState, id: Seq<usize>, now: u64) -> bool {
    tl.last_text_id == Some(id) && (tl.last_text_edit_at matches Some(t) && now - t
        <= TEXT_CHUNK_IDLE_MS)
}

/// `tail` with what `entry` was typed to.
pub open spec fn merged_typing(tail: EntryView, entry: EntryView) -> EntryView {
    match (tail, entry) {
        (
            EntryView::TextChunk { id, before, chunk_seq, .. },
            EntryView::TextChunk { after, .. },
        ) => EntryView::TextChunk { id, before, after, chunk_seq },
        _ => tail,
    }
}

/// `entry` with its number, where it is typing.
pub open spec fn numbered_entry(entry: EntryView, seq: u32) -> EntryView {
    match entry {
        EntryView::TextChunk { id, before, after, .. } => EntryView::TextChunk {
            id,
            before,
            after,
            chunk_seq: seq,
        },
        _ => entry,
    }
}

/// The steps of a timeline that are not undone.
pub open spec fn done_entries(tl: TimelineState) -> Seq<EntryView> {
    if tl.position <= tl.entries.len() {
        tl.entries.take(tl.entries.len() - tl.position)
    } else {
        Seq::empty()
    }
}

/// `tl` after the step `entry` at the time `now`. Undone steps are dropped.
/// Arrow keys that change no path, and typing at one place without a pause,
/// extend the last step; anything else is a new one, and the oldest leaves a
/// full timeline.
pub open spec fn recorded(tl: TimelineState, entry: EntryView, now: u64) -> TimelineState {
    let branched = tl.position > 0;
    let done = done_entries(tl);
    let fresh = branched || tl.coalesce_break;
    let base = TimelineState {
        entries: done,
        position: 0,
        coalesce_break: branched && tl.coalesce_break,
        ..tl
    };
    if !fresh && done.len() > 0 && navigations_merge(done.last(), entry) {
        TimelineState {
            entries: done.update(done.len() - 1, merged_navigation(done.last(), entry)),
            last_text_id: None,
            last_text_edit_at: None,
            ..base
        }
    } else if !fresh && done.len() > 0 && done.last() is TextChunk && (
    entry matches EntryView::TextChunk { id, .. } && typing_goes_on(tl, id, now)) {
        TimelineState {
            entries: done.update(done.len() - 1, merged_typing(done.last(), entry)),
            last_text_edit_at: Some(now),
            ..base
        }
    } else {
        let room = if done.len() >= TIMELINE_CAPACITY {
            done.drop_first()
        } else {
            done
        };
        TimelineState {
            entries: room.push(numbered_entry(entry, tl.next_chunk_seq)),
            last_text_id: match entry {
                EntryView::TextChunk { id, .. } => Some(id),
                _ => None,
            },
            last_text_edit_at: if entry is TextChunk {
                Some(now)
            } else {
                None
            },
            next_chunk_seq: if entry is TextChunk {
                tl.next_chunk_seq.wrapping_add(1)
            } else {
                tl.next_chunk_seq
            },
            ..base
        }
    }
}

fn merges_navigation(tail: &TimelineEntry, entry: &TimelineEntry) -> (b: bool)
    ensures
        b == navigations_merge(tail@, entry@),
{
    match (tail, entry) {
        (
            TimelineEntry::Navigate { provider_idx: p, to_path: q, .. },
            TimelineEntry::Navigate { provider_idx, to_path, .. },
        ) => *p == *provider_idx && text::same_opt(q, to_path),
        _ => false,
    }
}

fn goes_on_typing(tl: &Timeline, entry: &TimelineEntry, now: u64) -> (b: bool)
    ensures
        b == (entry@ matches EntryView::TextChunk { id, .. } && typing_goes_on(tl@, id, now)),
{
    match entry {
        TimelineEntry::TextChunk { id, .. } => {
            let same_place = match &tl.last_text_id {
                Some(last) => last.same(id),
                None => false,
            };
            match tl.last_text_edit_at {
                Some(t) => same_place && now.saturating_sub(t) <= TEXT_CHUNK_IDLE_MS,
                None => false,
            }
        },
        _ => false,
    }
}

fn extend_navigation(tail: &mut TimelineEntry, entry: TimelineEntry)
    requires
        navigations_merge(old(tail)@, entry@),
    ensures
        final(tail)@ == merged_navigation(old(tail)@, entry@),
{
    if let TimelineEntry::Navigate { to_id, to_path, kind, .. } = entry {
        if let TimelineEntry::Navigate { to_id: t, to_path: p, kind: k, .. } = tail {
            *t = to_id;
            *p = to_path;
            *k = kind;
        }
    }
}

fn extend_typing(tail: &mut TimelineEntry, entry: TimelineEntry)
    requires
        old(tail)@ is TextChunk,
        entry@ is TextChunk,
    ensures
        final(tail)@ == merged_typing(old(tail)@, entry@),
{
    if let TimelineEntry::TextChunk { after, .. } = entry {
        if let TimelineEntry::TextChunk { after: a, .. } = tail {
            *a = after;
        }
    }
}

fn number_entry(entry: TimelineEntry, seq: u32) -> (r: TimelineEntry)
    ensures
        r@ == numbered_entry(entry@, seq),
{
    match entry {
        TimelineEntry::TextChunk { id, before, after, .. } => TimelineEntry::TextChunk {
            id,
            before,
            after,
            chunk_seq: seq,
        },
        other => other,
    }
}

fn record(tl: &mut Timeline, entry: TimelineEntry, now: u64)
    ensures
        final(tl)@ == recorded(old(tl)@, entry@, now),
{
    let ghost before = tl@;
    let branched = tl.position > 0;
    if branched {
        let keep: usize = if tl.position <= tl.entries.len() {
            tl.entries.len() - tl.position
        } else {
            0
        };
        let ghost all = tl.entries@;
        tl.entries.truncate(keep);
        assert(tl.entries@ =~= all.take(keep as int));
        tl.position = 0;
    }
    assert(app_state::entries(tl.entries@) =~= done_entries(before));
    let fresh = branched || tl.coalesce_break;
    if !branched {
        tl.coalesce_break = false;
    }
    let n: usize = tl.entries.len();
    let ghost done = tl.entries@;
    if !fresh && n > 0 && merges_navigation(&tl.entries[n - 1], &entry) {
        extend_navigation(&mut tl.entries[n - 1], entry);
        assert(app_state::entries(tl.entries@) =~= app_state::entries(done).update(
            n - 1,
            merged_navigation(done[n - 1]@, entry@),
        ));
        tl.last_text_id = None;
        tl.last_text_edit_at = None;
        return;
    }
    let is_typing = match &entry {
        TimelineEntry::TextChunk { .. } => true,
        _ => false,
    };
    let tail_is_typing = n > 0 && (match &tl.entries[n - 1] {
        TimelineEntry::TextChunk { .. } => true,
        _ => false,
    });
    if !fresh && tail_is_typing && goes_on_typing(tl, &entry, now) {
        extend_typing(&mut tl.entries[n - 1], entry);
        assert(app_state::entries(tl.entries@) =~= app_state::entries(done).update(
            n - 1,
            merged_typing(done[n - 1]@, entry@),
        ));
        tl.last_text_edit_at = Some(now);
        return;
    }
    match &entry {
        TimelineEntry::TextChunk { id, .. } => {
            tl.last_text_id = Some(id.clone());
            tl.last_text_edit_at = Some(now);
        },
        _ => {
            tl.last_text_id = None;
            tl.last_text_edit_at = None;
        },
    }
    if n >= TIMELINE_CAPACITY {
        tl.entries.remove(0);
        assert(app_state::entries(tl.entries@) =~= app_state::entries(done).drop_first());
    }
    let seq: u32 = tl.next_chunk_seq;
    if is_typing {
        tl.next_chunk_seq = seq.wrapping_add(1);
    }
    let ghost room = tl.entries@;
    let last = number_entry(entry, seq);
    tl.entries.push(last);
    assert(app_state::entries(tl.entries@) =~= app_state::entries(room).push(last@));
}

/// `u` after the step `entry` at the time `now`; nothing is recorded while a
/// step is undone or done again.
pub open spec fn with_recorded(u: Ui, entry: EntryView, now: u64) -> Ui {
    if u.in_history_action {
        u
    } else {
        app_state::with_timeline(
            u,
            recorded(u.tab_timelines[u.active_tab as int], entry, now),
        )
    }
}

/// Record a step in the timeline of the active tab.
pub fn record_entry(r: &mut AppRenderer, entry: TimelineEntry, now: u64)
    requires
        app_state::tabs_ok(old(r)@),
    ensures
        final(r)@ == with_recorded(old(r)@, entry@, now),
        app_state::tabs_ok(final(r)@),
{
    if r.in_history_action {
        return;
    }
    proof {
        reveal(app_state::timelines_ok);
    }
    let tl = r.active_timeline_mut();
    record(tl, entry, now);
}

/// The line that an edit works with, and whether it is the key of a branch:
/// what is being typed, or else the element at the position.
pub open spec fn current_line(
    coordinate: Coordinate,
    input: Seq<char>,
    element: Option<Node>,
) -> (Seq<char>, bool) {
    if coordinate == Coordinate::Insert {
        (input, false)
    } else {
        match element {
            Some(Node::Str(s)) => (s, false),
            Some(Node::Obj { key, .. }) => (key, true),
            None => (Seq::empty(), false),
        }
    }
}

/// The step that an edit is, given the element before and after it, and its
/// place.
pub open spec fn edit_entry(
    task: Task,
    id: Seq<usize>,
    before: Option<Node>,
    after: Option<Node>,
) -> Option<EntryView> {
    match task {
        Task::Input => match (before, after) {
            (Some(b), Some(a)) => Some(
                EntryView::TextChunk { id, before: b, after: a, chunk_seq: 0 },
            ),
            _ => None,
        },
        Task::Append | Task::AppendAppend => match after {
            Some(a) => Some(
                EntryView::Structure {
                    id,
                    op: StructuralOp::Append,
                    payload: PayloadView::Inserted(a),
                },
            ),
            None => None,
        },
        Task::Insert | Task::InsertInsert => match after {
            Some(a) => Some(
                EntryView::Structure {
                    id,
                    op: StructuralOp::Insert,
                    payload: PayloadView::Inserted(a),
                },
            ),
            None => None,
        },
        Task::Delete => match before {
            Some(b) => Some(
                EntryView::Structure {
                    id,
                    op: StructuralOp::Delete,
                    payload: PayloadView::Removed(b),
                },
            ),
            None => None,
        },
        Task::Cut => match before {
            Some(b) => Some(
                EntryView::Structure {
                    id,
                    op: StructuralOp::Cut,
                    payload: PayloadView::Removed(b),
                },
            ),
            None => None,
        },
        Task::Paste => match (before, after) {
            (Some(b), Some(a)) => Some(
                EntryView::Structure {
                    id,
                    op: StructuralOp::Paste,
                    payload: PayloadView::Pasted { before: b, after: a },
                },
            ),
            _ => None,
        },
        _ => None,
    }
}

/// `u` after `task`, before its list is built anew: the edit is done, and it
/// is recorded where it is a new one.
#[verifier::opaque]
pub open spec fn tasked(u: Ui, task: Task, history: History, now: u64) -> Ui {
    let (line, is_obj) = current_line(
        u.coordinate,
        u.input_buffer,
        ffon::element_at(u.ffon, u.current_id),
    );
    let is_key = names_branch(line) || is_obj;
    let v = edited(moved(u, is_key, task, history), line, is_key, task, history);
    let place = if takes_out(task) || task == Task::Paste {
        u.current_id
    } else {
        v.current_id
    };
    let entry = edit_entry(
        task,
        place,
        ffon::element_at(u.ffon, u.current_id),
        ffon::element_at(v.ffon, v.current_id),
    );
    match entry {
        Some(e) if history == History::NoHistory => with_recorded(v, e, now),
        _ => v,
    }
}

/// `u` after `task`.
pub open spec fn updated(u: Ui, task: Task, history: History, now: u64) -> Ui {
    list::listed(tasked(u, task, history, now))
}

fn get_current_line(r: &AppRenderer) -> (res: (String, bool))
    ensures
        (res.0@, res.1) == current_line(
            r@.coordinate,
            r@.input_buffer,
            ffon::element_at(r@.ffon, r@.current_id),
        ),
{
    if r.coordinate == Coordinate::Insert {
        return (r.input_buffer.clone(), false);
    }
    match ffon::get_element_at(&r.ffon, &r.current_id) {
        Some(FfonElement::Str(s)) => (s.clone(), false),
        Some(FfonElement::Obj(o)) => (o.key.clone(), true),
        None => (String::new(), false),
    }
}

fn element_copy(ffon: &Vec<FfonElement>, id: &IdArray) -> (r: Option<FfonElement>)
    ensures
        ffon::opt_node(r) == ffon::element_at(ffon::forest(ffon@), id@),
{
    match ffon::get_element_at(ffon, id) {
        Some(e) => Some(e.clone()),
        None => None,
    }
}

/// What an optional step is.
pub open spec fn opt_entry(e: Option<TimelineEntry>) -> Option<EntryView> {
    match e {
        Some(x) => Some(x@),
        None => None,
    }
}

fn make_entry(
    task: Task,
    id: IdArray,
    before: Option<FfonElement>,
    after: Option<FfonElement>,
) -> (r: Option<TimelineEntry>)
    ensures
        opt_entry(r) == edit_entry(task, id@, ffon::opt_node(before), ffon::opt_node(after)),
{
    match task {
        Task::Input => match (before, after) {
            (Some(b), Some(a)) => Some(
                TimelineEntry::TextChunk { id, before: b, after: a, chunk_seq: 0 },
            ),
            _ => None,
        },
        Task::Append | Task::AppendAppend => match after {
            Some(a) => Some(
                TimelineEntry::Structure {
                    id,
                    op: StructuralOp::Append,
                    payload: StructuralPayload::Inserted(a),
                },
            ),
            None => None,
        },
        Task::Insert | Task::InsertInsert => match after {
            Some(a) => Some(
                TimelineEntry::Structure {
                    id,
                    op: StructuralOp::Insert,
                    payload: StructuralPayload::Inserted(a),
                },
            ),
            None => None,
        },
        Task::Delete => match before {
            Some(b) => Some(
                TimelineEntry::Structure {
                    id,
                    op: StructuralOp::Delete,
                    payload: StructuralPayload::Removed(b),
                },
            ),
            None => None,
        },
        Task::Cut => match before {
            Some(b) => Some(
                TimelineEntry::Structure {
                    id,
                    op: StructuralOp::Cut,
                    payload: StructuralPayload::Removed(b),
                },
            ),
            None => None,
        },
        Task::Paste => match (before, after) {
            (Some(b), Some(a)) => Some(
                TimelineEntry::Structure {
                    id,
                    op: StructuralOp::Paste,
                    payload: StructuralPayload::Pasted { before: b, after: a },
                },
            ),
            _ => None,
        },
        _ => None,
    }
}

fn do_task(r: &mut AppRenderer, task: Task, history: History, now: u64)
    requires
        app_state::tabs_ok(old(r)@),
        can_do(old(r)@, task),
    ensures
        final(r)@ == tasked(old(r)@, task, history, now),
        app_state::tabs_ok(final(r)@),
{
    proof {
        reveal(tasked);
    }
    let old_id = r.current_id.clone();
    let before = element_copy(&r.ffon, &r.current_id);
    let (line, is_obj) = get_current_line(r);
    let is_key = is_line_key(line.as_str()) || is_obj;
    update_ids(r, is_key, task, history);
    update_ffon(r, line.as_str(), is_key, task, history);
    if history == History::NoHistory {
        let after = element_copy(&r.ffon, &r.current_id);
        let place = if task == Task::Delete || task == Task::Cut || task == Task::Paste {
            old_id
        } else {
            r.current_id.clone()
        };
        if let Some(entry) = make_entry(task, place, before, after) {
            record_entry(r, entry, now);
        }
    }
}

/// Do `task`, record it, and build the list anew.
pub fn update_state(r: &mut AppRenderer, task: Task, history: History, now: u64)
    requires
        app_state::tabs_ok(old(r)@),
        can_do(old(r)@, task),
    ensures
        final(r)@ == updated(old(r)@, task, history, now),
        app_state::tabs_ok(final(r)@),
{
    do_task(r, task, history, now);
    list::create_list_current_layer(r);
}

/// `tl` without its last step, where that put in an empty element.
pub open spec fn placeholder_dropped(tl: TimelineState) -> TimelineState {
    if tl.entries.len() > 0 && (tl.entries.last() matches EntryView::Structure { op, .. } && (op
        == StructuralOp::Append || op == StructuralOp::Insert)) {
        TimelineState {
            entries: tl.entries.drop_last(),
            position: if tl.position < tl.entries.len() {
                tl.position
            } else {
                (tl.entries.len() - 1) as usize
            },
            ..tl
        }
    } else {
        tl
    }
}

fn drop_placeholder(tl: &mut Timeline)
    requires
        old(tl)@.position <= old(tl)@.entries.len(),
    ensures
        final(tl)@ == placeholder_dropped(old(tl)@),
        final(tl)@.position <= final(tl)@.entries.len(),
{
    let n: usize = tl.entries.len();
    if n == 0 {
        return;
    }
    assert(tl@.entries.last() == tl.entries@[n - 1]@);
    let is_placeholder = match &tl.entries[n - 1] {
        TimelineEntry::Structure { op, .. } => match op {
            StructuralOp::Append | StructuralOp::Insert => true,
            _ => false,
        },
        _ => false,
    };
    if is_placeholder {
        let ghost before = tl@;
        tl.entries.pop();
        if tl.position >= n {
            tl.position = n - 1;
        }
        assert(tl@.entries =~= before.entries.drop_last());
    }
}

/// `u` without the last step of its timeline, where that put in an empty
/// element.
#[verifier::opaque]
pub open spec fn step_dropped(u: Ui) -> Ui {
    app_state::with_timeline(
        u,
        placeholder_dropped(u.tab_timelines[u.active_tab as int]),
    )
}

/// Forget the last step, where that put in an empty element.
pub(crate) fn drop_placeholder_step(r: &mut AppRenderer)
    requires
        app_state::tabs_ok(old(r)@),
    ensures
        final(r)@ == step_dropped(old(r)@),
        app_state::tabs_ok(final(r)@),
{
    proof {
        reveal(step_dropped);
        reveal(app_state::timelines_ok);
    }
    let tl = r.active_timeline_mut();
    drop_placeholder(tl);
}

/// `u` without steps in its timeline.
#[verifier::opaque]
pub open spec fn steps_forgotten(u: Ui) -> Ui {
    app_state::with_timeline(
        u,
        TimelineState {
            entries: Seq::empty(),
            position: 0,
            ..u.tab_timelines[u.active_tab as int]
        },
    )
}

/// Forget all steps.
pub(crate) fn forget_steps(r: &mut AppRenderer)
    requires
        app_state::tabs_ok(old(r)@),
    ensures
        final(r)@ == steps_forgotten(old(r)@),
        app_state::tabs_ok(final(r)@),
{
    proof {
        reveal(steps_forgotten);
        reveal(app_state::timelines_ok);
    }
    let tl = r.active_timeline_mut();
    tl.entries.clear();
    tl.position = 0;
    assert(tl@.entries =~= Seq::<EntryView>::empty());
}

} // verus!
