//! What becomes of the files of a provider that does what it is asked for.
//!
//! A [`Disk`] is the files that there are and the way to the directory that the
//! provider is in. The laws follow what the user interface asks for, answer by
//! answer, and say which files there are in the end.

use vstd::prelude::*;

use crate::app_state;
use crate::app_state::Ui;
use crate::events;
use crate::events::OutsideView;
use crate::ffon;
use crate::ffon::Node;
use crate::files;
use crate::handlers;
use crate::history;
use crate::list;
use crate::markup;
use crate::moves;
use crate::provider;
use crate::provider::{OpView, ReplyView, StepView, ThenView};
use crate::resume;
use crate::shortcuts::Action;
use crate::state;
use crate::text;
use crate::timeline::{EntryView, FsOpKind, SideEffectView};

verus! {

/// Files, each by its directory and its name, and the way to the directory that
/// the provider is in: the paths of the directories that it went through.
pub struct Disk {
    pub way: Seq<Seq<char>>,
    pub files: Set<(Seq<char>, Seq<char>)>,
}

/// The directory that the provider is in.
pub open spec fn dir_of(d: Disk) -> Seq<char> {
    d.way.last()
}

/// The disk after a provider did what it was asked for.
pub open spec fn obeyed(d: Disk, op: OpView) -> Disk {
    match op {
        OpView::PushPath(s) => Disk { way: d.way.push(dir_of(d) + "/"@ + s), ..d },
        OpView::PopPath => Disk { way: d.way.drop_last(), ..d },
        OpView::CreateFile(n) => Disk { files: d.files.insert((dir_of(d), n)), ..d },
        OpView::CreateDirectory(n) => Disk { files: d.files.insert((dir_of(d), n)), ..d },
        OpView::DeleteItem(n) => Disk { files: d.files.remove((dir_of(d), n)), ..d },
        OpView::CommitEdit { before, after } => if d.files.contains((dir_of(d), before)) {
            Disk {
                files: d.files.remove((dir_of(d), before)).insert((dir_of(d), after)),
                ..d
            }
        } else {
            d
        },
        OpView::CopyItem { from_dir, from_name, to_dir, to_name } => if d.files.contains(
            (from_dir, from_name),
        ) {
            Disk { files: d.files.insert((to_dir, to_name)), ..d }
        } else {
            d
        },
        _ => d,
    }
}

/// The disk after a provider did the first `n` things that it was asked for.
pub open spec fn obeyed_first(d: Disk, ops: Seq<OpView>, n: int) -> Disk
    decreases n,
{
    if n <= 0 {
        d
    } else {
        obeyed(obeyed_first(d, ops, n - 1), ops[n - 1])
    }
}

/// The disk after a provider did everything that a step asks for.
pub open spec fn obeyed_all(d: Disk, step: StepView) -> Disk {
    match step {
        StepView::Ask { ops, .. } => obeyed_first(d, ops, ops.len() as int),
        StepView::Done => d,
    }
}

/// Where an answer to what a step asks for leads.
pub open spec fn answered(u: Ui, step: StepView, reply: ReplyView, now: u64) -> (Ui, StepView) {
    match step {
        StepView::Ask { provider, then, .. } => resume::resumed(u, provider, then, reply, now),
        StepView::Done => (u, step),
    }
}

/// Whether what a step asks for ends with a fetch of what the provider has.
pub open spec fn fetches(step: StepView) -> bool {
    step matches StepView::Ask { ops, .. } && exists|i: int|
        0 <= i < ops.len() && #[trigger] ops[i] == OpView::Fetch
}

/// Whether `entry` is the step that the undo key takes back next in `u`.
pub open spec fn is_next_back(u: Ui, entry: EntryView) -> bool {
    let tl = u.tab_timelines[u.active_tab as int];
    &&& u.active_tab < u.tab_timelines.len()
    &&& tl.position < tl.entries.len()
    &&& tl.entries[tl.entries.len() - 1 - tl.position] == entry
}

/// Whether `entry` is the step that the redo key does again next in `u`.
pub open spec fn is_next_forth(u: Ui, entry: EntryView) -> bool {
    let tl = u.tab_timelines[u.active_tab as int];
    &&& u.active_tab < u.tab_timelines.len()
    &&& 0 < tl.position <= tl.entries.len()
    &&& tl.entries[tl.entries.len() - tl.position] == entry
}

/// The path of the provider of the position, as it told it.
pub open spec fn told_path(u: Ui) -> Seq<char> {
    u.providers[u.current_id[0] as int].current_path
}

pub(crate) proof fn lemma_undo(u: Ui, entry: EntryView, o: OutsideView)
    requires
        u.coordinate is General,
        is_next_back(u, entry),
    ensures
        ({
            let w = history::walking(
                handlers::escaped(u, o.now),
                u.tab_timelines[u.active_tab as int].position + 1,
            );
            let (v, effects) = events::performed(u, Action::Undo, o);
            &&& v == moves::redrawn(history::undone(w, entry, o.now).0)
            &&& effects.step == history::undone(w, entry, o.now).1
            &&& w.ffon == u.ffon
            &&& w.current_id == u.current_id
            &&& w.providers == u.providers
            &&& w.coordinate == u.coordinate
        }),
{
    reveal(events::performed);
    reveal(events::entered);
    reveal(history::walked_back);
    reveal(history::step_back);
    let e = handlers::escaped(u, o.now);
    assert(e.ffon == u.ffon && e.current_id == u.current_id && e.providers == u.providers
        && e.coordinate == u.coordinate && e.tab_timelines == u.tab_timelines && e.active_tab
        == u.active_tab) by {
        reveal(handlers::escaped);
        reveal(moves::touched);
        reveal(moves::in_mode);
        reveal(moves::unselected);
    }
    reveal(history::walking);
}

pub(crate) proof fn lemma_redo(u: Ui, entry: EntryView, o: OutsideView)
    requires
        u.coordinate is General,
        is_next_forth(u, entry),
    ensures
        ({
            let w = history::walking(
                handlers::escaped(u, o.now),
                u.tab_timelines[u.active_tab as int].position - 1,
            );
            let (v, effects) = events::performed(u, Action::Redo, o);
            &&& v == moves::redrawn(history::redone(w, entry, o.now).0)
            &&& effects.step == history::redone(w, entry, o.now).1
            &&& w.ffon == u.ffon
            &&& w.current_id == u.current_id
            &&& w.providers == u.providers
            &&& w.coordinate == u.coordinate
        }),
{
    reveal(events::performed);
    reveal(events::entered);
    reveal(history::walked_forward);
    reveal(history::step_forth);
    let e = handlers::escaped(u, o.now);
    assert(e.ffon == u.ffon && e.current_id == u.current_id && e.providers == u.providers
        && e.coordinate == u.coordinate && e.tab_timelines == u.tab_timelines && e.active_tab
        == u.active_tab) by {
        reveal(handlers::escaped);
        reveal(moves::touched);
        reveal(moves::in_mode);
        reveal(moves::unselected);
    }
    reveal(history::walking);
}

/// Answers to a step back or forth on files.
proof fn lemma_answered(u: Ui, p: Option<usize>, then: ThenView, reply: ReplyView, now: u64)
    requires
        then is FsLeft || then is FsTidied || then is FsRenamed || then is FsUndone || then
            is FsEntered || then is UndoFetched,
    ensures
        resume::resumed(u, p, then, reply, now) == resume::undo_going_on(
            provider::learned(u, p, reply.info),
            p,
            then,
            resume::answer_of(reply),
            now,
        ),
{
    reveal(resume::going_on);
    reveal(resume::command_going_on);
    reveal(resume::search_going_on);
    reveal(resume::file_going_on);
    reveal(resume::edit_going_on);
    reveal(resume::save_going_on);
}

pub(crate) proof fn lemma_learned(u: Ui, p: Option<usize>, reply: ReplyView)
    ensures
        ({
            let k = provider::learned(u, p, reply.info);
            &&& k.ffon == u.ffon
            &&& k.current_id == u.current_id
            &&& k.coordinate == u.coordinate
            &&& k.providers.len() == u.providers.len()
            &&& k.error_message == u.error_message
            &&& k.file_clipboard_path == u.file_clipboard_path
            &&& p is None ==> k == u
        }),
{
    reveal(provider::learned);
}

proof fn lemma_pops(d: Disk, n: nat)
    requires
        n <= d.way.len(),
    ensures
        obeyed_first(d, history::pops(n), n as int) == (Disk {
            way: d.way.take(d.way.len() - n),
            ..d
        }),
    decreases n,
{
    if n == 0 {
        assert(d.way.take(d.way.len() as int) =~= d.way);
    } else {
        lemma_pops(d, (n - 1) as nat);
        lemma_same_ops(d, history::pops(n), history::pops((n - 1) as nat), n - 1);
        let before = d.way.take(d.way.len() - (n - 1));
        assert(before.drop_last() =~= d.way.take(d.way.len() - n));
    }
}

proof fn lemma_same_ops(d: Disk, a: Seq<OpView>, b: Seq<OpView>, n: int)
    requires
        0 <= n <= a.len(),
        n <= b.len(),
        forall|i: int| 0 <= i < n ==> a[i] == b[i],
    ensures
        obeyed_first(d, a, n) == obeyed_first(d, b, n),
    decreases n,
{
    if n > 0 {
        lemma_same_ops(d, a, b, n - 1);
    }
}

proof fn lemma_deleting(d: Disk, u: Ui, id: Seq<usize>, name: Seq<char>)
    ensures
        obeyed_all(d, history::deleting(u, id, name)) == (Disk {
            files: d.files.remove((dir_of(d), name)),
            ..d
        }),
        fetches(history::deleting(u, id, name)),
{
    let step = history::deleting(u, id, name);
    reveal_with_fuel(obeyed_first, 5);
    assert(step->ops[2] == OpView::Fetch);
}

/// How far the provider is below the place `id` where the element `n` was
/// created: a part of its path for each layer that the position is deeper, and
/// one more where it is in the directory itself.
pub open spec fn depth_below(u: Ui, id: Seq<usize>, n: Node) -> int {
    let name = ffon::node_text(n);
    let inside = n is Obj && (told_path(u) == name || exists|before: Seq<char>|
        told_path(u) == before + #[trigger] ("/"@ + name));
    u.current_id.len() - id.len() + if inside {
        1int
    } else {
        0
    }
}

proof fn lemma_ends_with(s: Seq<char>, p: Seq<char>)
    ensures
        markup::ends_with(s, p) <==> exists|before: Seq<char>| s == #[trigger] (before + p),
{
    if markup::ends_with(s, p) {
        let before = s.take(s.len() - p.len());
        assert(s =~= before + p);
    }
    if exists|before: Seq<char>| s == #[trigger] (before + p) {
        let before = choose|before: Seq<char>| s == #[trigger] (before + p);
        assert(s.subrange(s.len() - p.len(), s.len() as int) =~= p);
    }
}

/// Undoing the creation of a file or a directory deletes it where it was
/// created, and no other file, and fetches what is there then. The layer shows
/// what was fetched, and the position is in it.
pub proof fn law_undo_deletes_what_was_created(
    u: Ui,
    i: usize,
    id: Seq<usize>,
    before: Option<Node>,
    n: Node,
    side_effect: SideEffectView,
    d: Disk,
    dir: Seq<char>,
    o: OutsideView,
    first: ReplyView,
    second: ReplyView,
    now: u64,
)
    requires
        u.coordinate is General,
        is_next_back(
            u,
            (EntryView::FsOp {
                provider_idx: i,
                id,
                op: FsOpKind::Create,
                before,
                after: Some(n),
                side_effect,
            }),
        ),
        id.len() > 0,
        u.current_id.len() >= id.len(),
        u.current_id[0] == id[0],
        id[0] < u.providers.len(),
        id[0] < u.ffon.len(),
        d.way.len() > depth_below(u, id, n),
        dir == d.way[d.way.len() - 1 - depth_below(u, id, n)],
        second.children.len() <= usize::MAX,
    ensures
        ({
            let (v, effects) = events::performed(u, Action::Undo, o);
            let (w, next) = answered(v, effects.step, first, now);
            let (x, end) = answered(w, next, second, now);
            let e = obeyed_all(d, effects.step);
            let f = obeyed_all(e, next);
            &&& effects.step is Ask
            &&& effects.step->provider == Some(id[0])
            &&& next is Ask
            &&& next->provider == Some(id[0])
            &&& dir_of(e) == dir
            &&& f.files == d.files.remove((dir, ffon::node_text(n)))
            &&& dir_of(f) == dir
            &&& fetches(next)
            &&& id.len() == 2 && second.children.len() > 0 ==> {
                &&& ffon::layer_of(x.ffon, id) == Some(second.children)
                &&& x.current_id == if id.last() < second.children.len() {
                    id
                } else {
                    seq![id[0], (second.children.len() - 1) as usize]
                }
            }
        }),
{
    let entry = EntryView::FsOp {
        provider_idx: i,
        id,
        op: FsOpKind::Create,
        before,
        after: Some(n),
        side_effect,
    };
    lemma_undo(u, entry, o);
    let w0 = history::walking(
        handlers::escaped(u, o.now),
        u.tab_timelines[u.active_tab as int].position + 1,
    );
    let name = ffon::node_text(n);
    let k = depth_below(u, id, n);
    lemma_ends_with(told_path(u), "/"@ + name);
    assert(history::parts_below(w0, id, n) == k);
    let (v, effects) = events::performed(u, Action::Undo, o);
    let then = ThenView::FsLeft { id, name };
    assert(effects.step == StepView::Ask {
        provider: Some(id[0]),
        ops: history::pops(k as nat),
        then,
    } && v.providers == u.providers && v.ffon == u.ffon) by {
        reveal(history::undone);
        reveal(history::files_undone);
        reveal(moves::redrawn);
    }
    lemma_pops(d, k as nat);
    let e = obeyed_all(d, effects.step);
    assert(e.way.last() == dir);
    lemma_answered(v, Some(id[0]), then, first, now);
    lemma_learned(v, Some(id[0]), first);
    let v1 = provider::learned(v, Some(id[0]), first.info);
    let (w, next) = answered(v, effects.step, first, now);
    assert(w == moves::placed(v1, id) && next == history::deleting(w, id, name)) by {
        reveal(resume::undo_going_on);
    }
    assert(w.providers.len() == u.providers.len() && w.current_id == id && w.ffon == u.ffon) by {
        reveal(moves::placed);
    }
    lemma_deleting(e, w, id, name);
    if id.len() == 2 {
        lemma_tidied(w, id, second, now);
    }
}

/// The layer of a provider after a fetch in a step back.
proof fn lemma_tidied(w: Ui, id: Seq<usize>, reply: ReplyView, now: u64)
    requires
        id.len() == 2,
        w.current_id == id,
        id[0] < w.providers.len(),
        id[0] < w.ffon.len(),
        reply.children.len() <= usize::MAX,
    ensures
        ({
            let (x, end) = resume::resumed(
                w,
                Some(id[0]),
                ThenView::FsTidied { id },
                reply,
                now,
            );
            reply.children.len() > 0 ==> {
                &&& ffon::layer_of(x.ffon, id) == Some(reply.children)
                &&& x.current_id == if id.last() < reply.children.len() {
                    id
                } else {
                    seq![id[0], (reply.children.len() - 1) as usize]
                }
            }
        }),
{
    let p = Some(id[0]);
    let then = ThenView::FsTidied { id };
    lemma_answered(w, p, then, reply, now);
    lemma_learned(w, p, reply);
    let k = provider::learned(w, p, reply.info);
    let answer = resume::answer_of(reply);
    let f = provider::refreshed(k, p, answer);
    assert(f.current_id == id && f.ffon.len() == w.ffon.len() && f.ffon[id[0] as int] is Obj
        && f.ffon[id[0] as int]->children == reply.children) by {
        reveal(provider::refreshed);
    }
    lemma_root_children(f.ffon, id);
    if reply.children.len() > 0 {
        reveal(resume::undo_going_on);
        reveal(history::layer_tidied);
        reveal(history::not_behind);
        reveal(moves::placed_last);
        let last = (reply.children.len() - 1) as usize;
        assert(ffon::with_last(id, last) =~= seq![id[0], last]);
    }
}

proof fn lemma_root_children(tree: Seq<Node>, id: Seq<usize>)
    requires
        id.len() == 2,
        id[0] < tree.len(),
        tree[id[0] as int] is Obj,
    ensures
        ffon::layer_of(tree, id) == Some(tree[id[0] as int]->children),
{
    reveal(ffon::layer_of);
    let path = id.drop_last();
    assert(path =~= seq![id[0]]);
    assert(path.drop_first() =~= Seq::<usize>::empty());
    assert(ffon::descend(tree[id[0] as int]->children, Seq::<usize>::empty()) == Some(
        tree[id[0] as int]->children,
    ));
}

/// Doing the creation of a file or a directory again creates it where the
/// provider is, and no other file.
pub proof fn law_redo_creates_it_again(
    u: Ui,
    i: usize,
    id: Seq<usize>,
    before: Option<Node>,
    n: Node,
    side_effect: SideEffectView,
    d: Disk,
    o: OutsideView,
)
    requires
        u.coordinate is General,
        is_next_forth(
            u,
            (EntryView::FsOp {
                provider_idx: i,
                id,
                op: FsOpKind::Create,
                before,
                after: Some(n),
                side_effect,
            }),
        ),
        id.len() > 0,
        id[0] < u.providers.len(),
        d.way.len() > 0,
    ensures
        ({
            let (v, effects) = events::performed(u, Action::Redo, o);
            let e = obeyed_all(d, effects.step);
            &&& effects.step is Ask
            &&& effects.step->provider == Some(id[0])
            &&& effects.step->ops[0] == if n is Obj {
                OpView::CreateDirectory(ffon::node_text(n))
            } else {
                OpView::CreateFile(ffon::node_text(n))
            }
            &&& v.current_id == id
            &&& e.files == d.files.insert((dir_of(d), ffon::node_text(n)))
            &&& e.way == if n is Obj {
                d.way.push(dir_of(d) + "/"@ + ffon::node_text(n))
            } else {
                d.way
            }
            &&& fetches(effects.step)
        }),
{
    let entry = EntryView::FsOp {
        provider_idx: i,
        id,
        op: FsOpKind::Create,
        before,
        after: Some(n),
        side_effect,
    };
    lemma_redo(u, entry, o);
    reveal(history::redone);
    reveal(history::files_redone);
    reveal(moves::redrawn);
    reveal(moves::placed);
    reveal_with_fuel(obeyed_first, 6);
    let step = events::performed(u, Action::Redo, o).1.step;
    if n is Obj {
        assert(step->ops[3] == OpView::Fetch);
    } else {
        assert(step->ops[2] == OpView::Fetch);
    }
}

/// A file that is created and whose creation is undone at the same place leaves
/// the files as they were before.
pub proof fn law_creation_and_undoing_it_keep_the_files(
    u: Ui,
    w: Ui,
    i: usize,
    id: Seq<usize>,
    s: Seq<char>,
    side_effect: SideEffectView,
    d: Disk,
    o: OutsideView,
    first: ReplyView,
    second: ReplyView,
    now: u64,
)
    requires
        ({
            let entry = EntryView::FsOp {
                provider_idx: i,
                id,
                op: FsOpKind::Create,
                before: None,
                after: Some(Node::Str(s)),
                side_effect,
            };
            is_next_forth(u, entry) && is_next_back(w, entry)
        }),
        u.coordinate is General,
        w.coordinate is General,
        id.len() > 0,
        w.current_id.len() == id.len(),
        w.current_id[0] == id[0],
        id[0] < u.providers.len(),
        id[0] < w.providers.len(),
        id[0] < w.ffon.len(),
        d.way.len() > 0,
        !d.files.contains((dir_of(d), s)),
        second.children.len() <= usize::MAX,
    ensures
        ({
            let made = obeyed_all(d, events::performed(u, Action::Redo, o).1.step);
            let (v, effects) = events::performed(w, Action::Undo, o);
            let next = answered(v, effects.step, first, now).1;
            &&& made.files.contains((dir_of(d), s))
            &&& obeyed_all(obeyed_all(made, effects.step), next).files == d.files
        }),
{
    let n = Node::Str(s);
    law_redo_creates_it_again(u, i, id, None, n, side_effect, d, o);
    let made = obeyed_all(d, events::performed(u, Action::Redo, o).1.step);
    law_undo_deletes_what_was_created(
        w,
        i,
        id,
        None,
        n,
        side_effect,
        made,
        dir_of(d),
        o,
        first,
        second,
        now,
    );
    assert(d.files.insert((dir_of(d), s)).remove((dir_of(d), s)) =~= d.files);
}

proof fn lemma_renaming(d: Disk, u: Ui, id: Seq<usize>, from: Seq<char>, to: Node)
    requires
        d.files.contains((dir_of(d), from)),
    ensures
        obeyed_all(d, history::renaming(u, id, from, to)) == (Disk {
            files: d.files.remove((dir_of(d), from)).insert((dir_of(d), ffon::node_text(to))),
            ..d
        }),
        fetches(history::renaming(u, id, from, to)),
{
    let step = history::renaming(u, id, from, to);
    reveal_with_fuel(obeyed_first, 5);
    assert(step->ops[2] == OpView::Fetch);
}

/// Undoing a renaming gives a file its old name back, and doing it again the new
/// one. No other file changes, and it is fetched what there is then.
pub proof fn law_renaming_goes_back_and_forth(
    u: Ui,
    i: usize,
    id: Seq<usize>,
    b: Node,
    a: Node,
    side_effect: SideEffectView,
    d: Disk,
    o: OutsideView,
)
    requires
        u.coordinate is General,
        id.len() > 0,
        id[0] < u.providers.len(),
    ensures
        ({
            let entry = EntryView::FsOp {
                provider_idx: i,
                id,
                op: FsOpKind::Rename,
                before: Some(b),
                after: Some(a),
                side_effect,
            };
            let old_name = (dir_of(d), ffon::node_text(b));
            let new_name = (dir_of(d), ffon::node_text(a));
            &&& is_next_back(u, entry) && d.files.contains(new_name) ==> {
                let (v, effects) = events::performed(u, Action::Undo, o);
                let e = obeyed_all(d, effects.step);
                &&& effects.step is Ask
                &&& effects.step->provider == Some(id[0])
                &&& e.files == d.files.remove(new_name).insert(old_name)
                &&& fetches(effects.step)
                &&& v.current_id == id
            }
            &&& is_next_forth(u, entry) && d.files.contains(old_name) ==> {
                let (v, effects) = events::performed(u, Action::Redo, o);
                let e = obeyed_all(d, effects.step);
                &&& effects.step is Ask
                &&& effects.step->provider == Some(id[0])
                &&& e.files == d.files.remove(old_name).insert(new_name)
                &&& fetches(effects.step)
                &&& v.current_id == id
            }
        }),
{
    let entry = EntryView::FsOp {
        provider_idx: i,
        id,
        op: FsOpKind::Rename,
        before: Some(b),
        after: Some(a),
        side_effect,
    };
    if is_next_back(u, entry) && d.files.contains((dir_of(d), ffon::node_text(a))) {
        lemma_undo(u, entry, o);
        reveal(history::undone);
        reveal(history::files_undone);
        reveal(moves::redrawn);
        reveal(moves::placed);
        let w = history::walking(
            handlers::escaped(u, o.now),
            u.tab_timelines[u.active_tab as int].position + 1,
        );
        lemma_renaming(d, moves::placed(w, id), id, ffon::node_text(a), b);
    }
    if is_next_forth(u, entry) && d.files.contains((dir_of(d), ffon::node_text(b))) {
        lemma_redo(u, entry, o);
        reveal(history::redone);
        reveal(history::files_redone);
        reveal(moves::redrawn);
        reveal(moves::placed);
        let w = history::walking(
            handlers::escaped(u, o.now),
            u.tab_timelines[u.active_tab as int].position - 1,
        );
        lemma_renaming(d, moves::placed(w, id), id, ffon::node_text(b), a);
    }
}

/// Undoing a paste deletes the copy from the directory that the provider is in,
/// and no other file; doing it again copies the file from where it came from
/// into the directory that the provider is at.
pub proof fn law_pasting_goes_back_and_forth(
    u: Ui,
    i: usize,
    id: Seq<usize>,
    dir: Seq<char>,
    name: Seq<char>,
    a: Node,
    side_effect: SideEffectView,
    d: Disk,
    o: OutsideView,
)
    requires
        u.coordinate is General,
        id.len() > 0,
        id[0] < u.providers.len(),
        d.way.len() > 0,
        forall|k: int| 0 <= k < name.len() ==> name[k] != '/',
    ensures
        ({
            let entry = EntryView::FsOp {
                provider_idx: i,
                id,
                op: FsOpKind::Paste,
                before: Some(Node::Str(dir + "/"@ + name)),
                after: Some(a),
                side_effect,
            };
            let here = u.providers[id[0] as int].current_path;
            let copy = markup::display_text(ffon::node_text(a));
            &&& is_next_back(u, entry) ==> {
                let (v, effects) = events::performed(u, Action::Undo, o);
                let e = obeyed_all(d, effects.step);
                &&& effects.step is Ask
                &&& effects.step->provider == Some(id[0])
                &&& e.files == d.files.remove((dir_of(d), copy))
                &&& fetches(effects.step)
                &&& v.current_id == id
            }
            &&& is_next_forth(u, entry) && d.files.contains((dir, name)) ==> {
                let (v, effects) = events::performed(u, Action::Redo, o);
                let e = obeyed_all(d, effects.step);
                &&& effects.step is Ask
                &&& effects.step->provider == Some(id[0])
                &&& e.files == d.files.insert((here, copy))
                &&& fetches(effects.step)
                &&& v.current_id == id
            }
        }),
{
    let path = dir + "/"@ + name;
    let entry = EntryView::FsOp {
        provider_idx: i,
        id,
        op: FsOpKind::Paste,
        before: Some(Node::Str(path)),
        after: Some(a),
        side_effect,
    };
    if is_next_back(u, entry) {
        lemma_pasted_back(u, entry, d, o);
    }
    if is_next_forth(u, entry) && d.files.contains((dir, name)) {
        lemma_pasted_forth(u, entry, dir, name, d, o);
    }
}

proof fn lemma_pasted_back(u: Ui, entry: EntryView, d: Disk, o: OutsideView)
    requires
        u.coordinate is General,
        entry is FsOp,
        entry->FsOp_op is Paste,
        entry->FsOp_after is Some,
        entry->FsOp_id.len() > 0,
        entry->FsOp_id[0] < u.providers.len(),
        is_next_back(u, entry),
    ensures
        ({
            let id = entry->FsOp_id;
            let copy = markup::display_text(ffon::node_text(entry->FsOp_after->0));
            let (v, effects) = events::performed(u, Action::Undo, o);
            &&& effects.step is Ask
            &&& effects.step->provider == Some(id[0])
            &&& obeyed_all(d, effects.step).files == d.files.remove((dir_of(d), copy))
            &&& fetches(effects.step)
            &&& v.current_id == id
        }),
{
    let id = entry->FsOp_id;
    let w = history::walking(
        handlers::escaped(u, o.now),
        u.tab_timelines[u.active_tab as int].position + 1,
    );
    let copy = markup::display_text(ffon::node_text(entry->FsOp_after->0));
    lemma_undo(u, entry, o);
    assert(history::undone(w, entry, o.now) == (
        moves::placed(w, id),
        history::deleting(moves::placed(w, id), id, copy),
    )) by {
        reveal(history::undone);
        reveal(history::files_undone);
    }
    lemma_deleting(d, moves::placed(w, id), id, copy);
    reveal(moves::redrawn);
    reveal(moves::placed);
}

proof fn lemma_pasted_forth(
    u: Ui,
    entry: EntryView,
    dir: Seq<char>,
    name: Seq<char>,
    d: Disk,
    o: OutsideView,
)
    requires
        u.coordinate is General,
        entry is FsOp,
        entry->FsOp_op is Paste,
        entry->FsOp_before == Some(Node::Str(dir + "/"@ + name)),
        entry->FsOp_after is Some,
        entry->FsOp_id.len() > 0,
        entry->FsOp_id[0] < u.providers.len(),
        d.files.contains((dir, name)),
        forall|k: int| 0 <= k < name.len() ==> name[k] != '/',
        is_next_forth(u, entry),
    ensures
        ({
            let id = entry->FsOp_id;
            let here = u.providers[id[0] as int].current_path;
            let copy = markup::display_text(ffon::node_text(entry->FsOp_after->0));
            let (v, effects) = events::performed(u, Action::Redo, o);
            &&& effects.step is Ask
            &&& effects.step->provider == Some(id[0])
            &&& obeyed_all(d, effects.step).files == d.files.insert((here, copy))
            &&& fetches(effects.step)
            &&& v.current_id == id
        }),
{
    let id = entry->FsOp_id;
    let path = dir + "/"@ + name;
    let copy = markup::display_text(ffon::node_text(entry->FsOp_after->0));
    let w = history::walking(
        handlers::escaped(u, o.now),
        u.tab_timelines[u.active_tab as int].position - 1,
    );
    let at = moves::placed(w, id);
    lemma_redo(u, entry, o);
    lemma_last_slash(dir, name);
    assert(path.len() > 0) by {
        reveal_strlit("/");
    }
    let ops = seq![
        OpView::CopyItem {
            from_dir: dir,
            from_name: name,
            to_dir: provider::path_here(at),
            to_name: copy,
        },
        OpView::TakeErrorOfFailure,
        OpView::Fetch,
        OpView::TakeError,
    ];
    assert(history::source_parts(path) == (dir, name));
    assert(history::redone(w, entry, o.now) == (
        at,
        StepView::Ask {
            provider: provider::active_index(at),
            ops,
            then: ThenView::UndoFetched { id },
        },
    )) by {
        reveal(history::redone);
        reveal(history::files_redone);
    }
    reveal(moves::redrawn);
    reveal(moves::placed);
    reveal_with_fuel(obeyed_first, 5);
    assert(ops[2] == OpView::Fetch);
}

/// The last slash of a path is before its name.
proof fn lemma_last_slash(dir: Seq<char>, name: Seq<char>)
    requires
        forall|k: int| 0 <= k < name.len() ==> name[k] != '/',
    ensures
        ({
            let path = dir + "/"@ + name;
            &&& text::last_index_before(path, '/', path.len() as int) == Some(dir.len() as int)
            &&& path.take(dir.len() as int) == dir
            &&& path.skip(dir.len() as int + 1) == name
        }),
{
    reveal_strlit("/");
    let path = dir + "/"@ + name;
    assert(path.take(dir.len() as int) =~= dir);
    assert(path.skip(dir.len() as int + 1) =~= name);
    assert(path[dir.len() as int] == '/');
    assert forall|k: int| dir.len() < k < path.len() implies path[k] != '/' by {
        assert(path[k] == name[k - dir.len() - 1]);
    }
    lemma_last_index(path, '/', path.len() as int, dir.len() as int);
}

proof fn lemma_last_index(s: Seq<char>, c: char, n: int, m: int)
    requires
        0 <= m < n <= s.len(),
        s[m] == c,
        forall|k: int| m < k < n ==> s[k] != c,
    ensures
        text::last_index_before(s, c, n) == Some(m),
    decreases n - m,
{
    if m < n - 1 {
        lemma_last_index(s, c, n - 1, m);
    }
}

/// Undoing a deletion or a move is the provider's: it is handed the step. What
/// was there before is back in the tree then, at its place.
pub proof fn law_undo_of_a_deletion_brings_it_back(
    u: Ui,
    i: usize,
    id: Seq<usize>,
    moved: bool,
    n: Node,
    after: Option<Node>,
    side_effect: SideEffectView,
    layer: Seq<Node>,
    o: OutsideView,
    reply: ReplyView,
    now: u64,
)
    requires
        u.coordinate is General,
        i < u.providers.len(),
        ffon::layer_of(u.ffon, id) == Some(layer),
        id.last() <= layer.len(),
        layer != seq![Node::Str("i <input></input>"@)],
        is_next_back(
            u,
            (EntryView::FsOp {
                provider_idx: i,
                id,
                op: if moved {
                    FsOpKind::Move
                } else {
                    FsOpKind::Delete
                },
                before: Some(n),
                after,
                side_effect,
            }),
        ),
    ensures
        ({
            let entry = EntryView::FsOp {
                provider_idx: i,
                id,
                op: if moved {
                    FsOpKind::Move
                } else {
                    FsOpKind::Delete
                },
                before: Some(n),
                after,
                side_effect,
            };
            let (v, effects) = events::performed(u, Action::Undo, o);
            let (w, end) = answered(v, effects.step, reply, now);
            &&& effects.step is Ask
            &&& effects.step->provider == Some(i)
            &&& effects.step->ops == seq![OpView::Undo(entry)]
            &&& ffon::layer_of(w.ffon, id) == Some(layer.insert(id.last() as int, n))
            &&& w.current_id == id
        }),
{
    let entry = EntryView::FsOp {
        provider_idx: i,
        id,
        op: if moved {
            FsOpKind::Move
        } else {
            FsOpKind::Delete
        },
        before: Some(n),
        after,
        side_effect,
    };
    lemma_undo(u, entry, o);
    let (v, effects) = events::performed(u, Action::Undo, o);
    let then = ThenView::FsUndone { id, element: Some(n) };
    assert(effects.step == StepView::Ask {
        provider: Some(i),
        ops: seq![OpView::Undo(entry)],
        then,
    } && v.ffon == u.ffon) by {
        reveal(history::undone);
        reveal(history::files_undone);
        reveal(moves::redrawn);
    }
    lemma_answered(v, Some(i), then, reply, now);
    lemma_learned(v, Some(i), reply);
    let k = provider::learned(v, Some(i), reply.info);
    let r = crate::commands::error_reported(k, resume::answer_of(reply));
    assert(r.ffon == u.ffon) by {
        reveal(crate::commands::error_reported);
    }
    let w = history::put_in(r, id, n);
    assert(answered(v, effects.step, reply, now).0 == w) by {
        reveal(resume::undo_going_on);
        reveal(history::files_restored);
    }
    assert(id.len() > 0) by {
        reveal(ffon::layer_of);
    }
    assert(w.current_id == id && w.ffon == ffon::inserted(u.ffon, id, id.last() as int, n)) by {
        reveal(moves::placed);
        reveal(moves::inserted_at);
        reveal(history::placeholder_cleared);
    }
    reveal(ffon::layer_of);
    ffon::law_graft_descend(u.ffon, id.drop_last(), layer.insert(id.last() as int, n));
}

/// The name under which a file is copied the time `k` that its name is taken.
pub open spec fn nth_name(name: Seq<char>, k: int) -> Seq<char> {
    if k == 0 {
        name
    } else {
        name + " (copy "@ + text::decimal(k as nat) + ")"@
    }
}

/// What is asked for after the names of the first `answers` were all taken.
pub open spec fn after_taken(u: Ui, step: StepView, answers: Seq<ReplyView>, now: u64) -> (
    Ui,
    StepView,
)
    decreases answers.len(),
{
    if answers.len() == 0 {
        (u, step)
    } else {
        let (v, before) = after_taken(u, step, answers.drop_last(), now);
        answered(v, before, answers.last(), now)
    }
}

/// Whether the position is in the file browser, where files are shown.
pub open spec fn browses_files(u: Ui) -> bool {
    &&& u.coordinate is General
    &&& u.current_id.len() > 0
    &&& u.current_id[0] < u.providers.len()
    &&& u.providers[u.current_id[0] as int].name == "filebrowser"@
    &&& !u.providers[u.current_id[0] as int].has_editor_semantics
}

proof fn lemma_pasting(
    u: Ui,
    dir: Seq<char>,
    name: Seq<char>,
    o: OutsideView,
    answers: Seq<ReplyView>,
    now: u64,
)
    requires
        browses_files(u),
        u.file_clipboard_path == dir + "/"@ + name,
        name.len() > 0,
        forall|k: int| 0 <= k < name.len() ==> name[k] != '/',
        answers.len() <= u32::MAX,
        forall|k: int| 0 <= k < answers.len() ==> (#[trigger] answers[k]).ok,
    ensures
        after_taken(
            u,
            events::performed(u, Action::Paste, o).1.step,
            answers,
            now,
        ) == (
            u,
            files::name_tried(
                dir,
                name,
                told_path(u),
                nth_name(name, answers.len() as int),
                answers.len() as u32,
            ),
        ),
        events::performed(u, Action::Paste, o).0 == u,
    decreases answers.len(),
{
    if answers.len() == 0 {
        lemma_last_slash(dir, name);
        reveal(events::performed);
        reveal(events::edited);
        reveal(files::after_paste);
    } else {
        let rest = answers.drop_last();
        let m = rest.len();
        lemma_pasting(u, dir, name, o, rest, now);
        let then = ThenView::PasteTried {
            from_dir: dir,
            from_name: name,
            to_dir: told_path(u),
            candidate: nth_name(name, m as int),
            n: m as u32,
        };
        lemma_file_answered(u, None, then, answers.last(), now);
        lemma_learned(u, None, answers.last());
        assert(answers.last().ok);
        reveal(resume::file_going_on);
        reveal(files::name_checked);
    }
}

proof fn lemma_file_answered(u: Ui, p: Option<usize>, then: ThenView, reply: ReplyView, now: u64)
    requires
        then is PasteTried || then is PasteCopied || then is PasteFetched || then is FileDeleted
            || then is FilesFetched || then is CutCopied || then is CutDeleted,
    ensures
        resume::resumed(u, p, then, reply, now) == resume::file_going_on(
            provider::learned(u, p, reply.info),
            p,
            then,
            resume::answer_of(reply),
            now,
        ),
{
    reveal(resume::going_on);
    reveal(resume::command_going_on);
    reveal(resume::search_going_on);
}

/// Pasting a file looks for a name that is free in the directory that the
/// provider is at: that of the file, and then those of copies, one after the
/// other. Once one is free, the file of the clipboard is copied there under
/// that name.
pub proof fn law_paste_copies_into_the_directory(
    u: Ui,
    dir: Seq<char>,
    name: Seq<char>,
    o: OutsideView,
    taken: Seq<ReplyView>,
    free: ReplyView,
    d: Disk,
    now: u64,
)
    requires
        browses_files(u),
        u.file_clipboard_path == dir + "/"@ + name,
        name.len() > 0,
        forall|k: int| 0 <= k < name.len() ==> name[k] != '/',
        taken.len() <= u32::MAX,
        forall|k: int| 0 <= k < taken.len() ==> (#[trigger] taken[k]).ok,
        !free.ok,
        d.files.contains((dir, name)),
    ensures
        ({
            let here = u.providers[u.current_id[0] as int].current_path;
            let candidate = nth_name(name, taken.len() as int);
            let first = events::performed(u, Action::Paste, o).1.step;
            let (v, asking) = after_taken(u, first, taken, now);
            let (w, copying) = answered(v, asking, free, now);
            &&& asking is Ask
            &&& asking->ops == seq![OpView::Exists(here + "/"@ + candidate)]
            &&& copying is Ask
            &&& copying->provider == Some(u.current_id[0])
            &&& copying->ops[0] == (OpView::CopyItem {
                from_dir: dir,
                from_name: name,
                to_dir: here,
                to_name: candidate,
            })
            &&& obeyed_all(d, copying).files == d.files.insert((here, candidate))
            &&& w.ffon == u.ffon
        }),
{
    lemma_pasting(u, dir, name, o, taken, now);
    let here = told_path(u);
    let candidate = nth_name(name, taken.len() as int);
    let then = ThenView::PasteTried {
        from_dir: dir,
        from_name: name,
        to_dir: here,
        candidate,
        n: taken.len() as u32,
    };
    lemma_file_answered(u, None, then, free, now);
    lemma_learned(u, None, free);
    reveal(resume::file_going_on);
    reveal(files::name_checked);
    reveal_with_fuel(obeyed_first, 3);
}

/// The file that the position is at, by the name that is shown.
pub open spec fn is_at_file(u: Ui, name: Seq<char>) -> bool {
    &&& name.len() > 0
    &&& ffon::element_at(u.ffon, u.current_id) matches Some(n) && markup::display_text(
        ffon::node_text(n),
    ) == name
}

proof fn lemma_at_file(u: Ui, name: Seq<char>)
    requires
        is_at_file(u, name),
    ensures
        files::name_here(u) == Some(name),
        files::file_here(u) == Some(name),
{
    reveal(moves::node_at);
    reveal(ffon::layer_of);
}

/// Copying a file in the file browser remembers where it is, and changes no
/// file.
pub proof fn law_copy_remembers_the_file(u: Ui, name: Seq<char>, o: OutsideView)
    requires
        browses_files(u),
        is_at_file(u, name),
    ensures
        ({
            let (v, effects) = events::performed(u, Action::Copy, o);
            &&& v == (Ui {
                file_clipboard_path: told_path(u) + "/"@ + name,
                file_clipboard_is_cut: false,
                needs_redraw: true,
                ..u
            })
            &&& effects.step == StepView::Done
            &&& effects.copied is None
        }),
{
    reveal(events::performed);
    reveal(files::after_copy);
    reveal(files::file_copied);
    reveal(files::with_file);
    reveal(moves::redrawn);
    lemma_at_file(u, name);
}

/// A file that is copied in one directory and pasted in another, where its name
/// is free, is copied from the one to the other.
pub proof fn law_copy_and_paste_copy_the_file(
    u: Ui,
    name: Seq<char>,
    w: Ui,
    o: OutsideView,
    p: OutsideView,
    free: ReplyView,
    d: Disk,
    now: u64,
)
    requires
        browses_files(u),
        is_at_file(u, name),
        forall|k: int| 0 <= k < name.len() ==> name[k] != '/',
        browses_files(w),
        w.file_clipboard_path == events::performed(u, Action::Copy, o).0.file_clipboard_path,
        !free.ok,
        d.files.contains((told_path(u), name)),
    ensures
        ({
            let (v, asking) = events::performed(w, Action::Paste, p);
            let copying = answered(v, asking.step, free, now).1;
            &&& asking.step is Ask
            &&& asking.step->ops == seq![OpView::Exists(told_path(w) + "/"@ + name)]
            &&& obeyed_all(d, copying).files == d.files.insert((told_path(w), name))
        }),
{
    law_copy_remembers_the_file(u, name, o);
    lemma_pasting(w, told_path(u), name, p, Seq::empty(), now);
    law_paste_copies_into_the_directory(
        w,
        told_path(u),
        name,
        p,
        Seq::empty(),
        free,
        d,
        now,
    );
}

/// Deleting a file in the file browser deletes that file and no other, and what
/// is there then is fetched.
pub proof fn law_delete_deletes_the_file(
    u: Ui,
    name: Seq<char>,
    o: OutsideView,
    reply: ReplyView,
    d: Disk,
    now: u64,
)
    requires
        browses_files(u),
        is_at_file(u, name),
    ensures
        ({
            let (v, effects) = events::performed(u, Action::DeleteFile, o);
            let (w, next) = answered(v, effects.step, reply, now);
            &&& v == u
            &&& effects.step is Ask
            &&& effects.step->provider == Some(u.current_id[0])
            &&& obeyed_all(d, effects.step).files == d.files.remove((dir_of(d), name))
            &&& w.ffon == u.ffon
            &&& fetches(next) == reply.ok
            &&& obeyed_all(d, next) == d
        }),
{
    reveal(events::performed);
    reveal(events::edited);
    lemma_at_file(u, name);
    let step = events::performed(u, Action::DeleteFile, o).1.step;
    reveal_with_fuel(obeyed_first, 3);
    lemma_file_answered(u, Some(u.current_id[0]), ThenView::FileDeleted, reply, now);
    lemma_learned(u, Some(u.current_id[0]), reply);
    reveal(resume::file_going_on);
    let next = answered(u, step, reply, now).1;
    if reply.ok {
        assert(next->ops[0] == OpView::Fetch);
    }
}

/// Cutting a file in the file browser first keeps a copy of it, and deletes it
/// only where that went well. Then the copy is on the clipboard.
pub proof fn law_cut_keeps_a_copy_and_deletes_the_file(
    u: Ui,
    name: Seq<char>,
    o: OutsideView,
    kept: ReplyView,
    deleted: ReplyView,
    d: Disk,
    now: u64,
)
    requires
        browses_files(u),
        is_at_file(u, name),
        d.files.contains((told_path(u), name)),
        dir_of(d) == told_path(u),
        o.cache_dir != told_path(u),
    ensures
        ({
            let (v, effects) = events::performed(u, Action::Cut, o);
            let (w, next) = answered(v, effects.step, kept, now);
            let (x, end) = answered(w, next, deleted, now);
            let e = obeyed_all(d, effects.step);
            &&& v == u
            &&& effects.copied is None
            &&& effects.step is Ask
            &&& effects.step->provider == Some(u.current_id[0])
            &&& e.files == d.files.insert((o.cache_dir, name))
            &&& kept.ok ==> {
                &&& next is Ask
                &&& next->provider == Some(u.current_id[0])
                &&& obeyed_all(e, next).files == d.files.remove((told_path(u), name)).insert(
                    (o.cache_dir, name),
                )
                &&& deleted.ok ==> x.file_clipboard_path == o.cache_dir + "/"@ + name
                    && x.file_clipboard_is_cut
                &&& !deleted.ok ==> x.file_clipboard_path == u.file_clipboard_path
                &&& end == StepView::Done
            }
            &&& !kept.ok ==> {
                &&& next == StepView::Done
                &&& w.error_message == "Cut: failed to copy file to clipboard cache"@
                &&& w.file_clipboard_path == u.file_clipboard_path
            }
        }),
{
    let p = Some(u.current_id[0]);
    let cached = o.cache_dir + "/"@ + name;
    let (v, effects) = events::performed(u, Action::Cut, o);
    let then = ThenView::CutCopied { name, cached };
    lemma_at_file(u, name);
    assert(v == u && effects.copied is None && effects.step == StepView::Ask {
        provider: p,
        ops: seq![
            OpView::CopyItem {
                from_dir: told_path(u),
                from_name: name,
                to_dir: o.cache_dir,
                to_name: name,
            },
            OpView::TakeErrorOfFailure,
        ],
        then,
    }) by {
        reveal(events::performed);
        reveal(files::after_cut);
    }
    reveal_with_fuel(obeyed_first, 3);
    let e = obeyed_all(d, effects.step);
    lemma_file_answered(u, p, then, kept, now);
    lemma_learned(u, p, kept);
    let k = provider::learned(u, p, kept.info);
    let (w, next) = answered(u, effects.step, kept, now);
    let f = provider::failure_noted(k, p, resume::answer_of(kept));
    assert(f.current_id == u.current_id && f.providers.len() == u.providers.len()
        && f.file_clipboard_path == u.file_clipboard_path) by {
        reveal(provider::failure_noted);
    }
    assert((w, next) == files::cut_kept(k, p, resume::answer_of(kept), name, cached)) by {
        reveal(resume::file_going_on);
    }
    reveal(files::cut_kept);
    reveal(moves::with_error);
    if kept.ok {
        assert(w == f);
        assert(obeyed_all(e, next).files =~= d.files.remove((told_path(u), name)).insert(
            (o.cache_dir, name),
        ));
        let on = ThenView::CutDeleted { cached };
        lemma_file_answered(w, p, on, deleted, now);
        lemma_learned(w, p, deleted);
        let l = provider::learned(w, p, deleted.info);
        assert(answered(w, next, deleted, now) == (
            files::cut_done(l, p, resume::answer_of(deleted), cached, now),
            StepView::Done,
        )) by {
            reveal(resume::file_going_on);
        }
        reveal(files::cut_done);
        let g = provider::failure_noted(l, p, resume::answer_of(deleted));
        assert(g.file_clipboard_path == u.file_clipboard_path) by {
            reveal(provider::failure_noted);
        }
        if deleted.ok {
            let c = files::with_file(g, cached, true);
            assert(c.file_clipboard_path == cached && c.file_clipboard_is_cut) by {
                reveal(files::with_file);
            }
            let t = state::tasked(
                c,
                app_state::Task::Delete,
                app_state::History::NoHistory,
                now,
            );
            assert(t.file_clipboard_path == cached && t.file_clipboard_is_cut) by {
                reveal(state::tasked);
            }
            list::law_listing_keeps_the_rest(t);
            reveal(moves::at_position);
            reveal(moves::redrawn);
        }
    }
}

} // verus!
