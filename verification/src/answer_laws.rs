//! What the answers of providers lead to, and what the lists show then.

use vstd::prelude::*;

use crate::app_state;
use crate::app_state::{CommandPhase, Coordinate, ItemView, Ui};
use crate::commands;
use crate::disk_laws;
use crate::edge_laws;
use crate::elements;
use crate::enter_laws;
use crate::entry_laws;
use crate::ffon;
use crate::ffon::Node;
use crate::files;
use crate::insert;
use crate::list;
use crate::markup;
use crate::mode_laws;
use crate::move_laws;
use crate::moves;
use crate::provider;
use crate::provider::{Creation, OpView, ReplyView, StepView, ThenView};
use crate::resume;
use crate::save_laws;
use crate::saving;
use crate::search;
use crate::shortcuts;
use crate::shortcuts::Key;
use crate::state;
use crate::steps;
use crate::text;
use crate::timeline::{EntryView, StructuralOp};
use crate::tree_laws;

verus! {

/// When the directory was fetched that a file was deleted in, its layer holds
/// what came back, and the position is in it; an empty directory holds an empty
/// element.
pub proof fn law_directory_is_shown_after_a_deletion(
    u: Ui,
    ops: Seq<OpView>,
    reply: ReplyView,
    now: u64,
)
    requires
        u.current_id.len() == 2,
        u.current_id[0] < u.providers.len(),
        u.current_id[0] < u.ffon.len(),
        reply.children.len() <= usize::MAX,
    ensures
        ({
            let root = u.current_id[0];
            let step = StepView::Ask {
                provider: Some(root),
                ops,
                then: ThenView::FilesFetched,
            };
            let (v, end) = disk_laws::answered(u, step, reply, now);
            let n = reply.children.len();
            &&& ffon::layer_of(v.ffon, v.current_id) == Some(
                if n == 0 {
                    seq![Node::Str("<input></input>"@)]
                } else {
                    reply.children
                },
            )
            &&& v.current_id == seq![
                root,
                if u.current_id[1] < n {
                    u.current_id[1]
                } else if n > 0 {
                    (n - 1) as usize
                } else {
                    0
                },
            ]
            &&& end == StepView::Done
        }),
{
    let root = u.current_id[0];
    let p = Some(root);
    let step = StepView::Ask { provider: p, ops, then: ThenView::FilesFetched };
    let a = resume::answer_of(reply);
    let k = provider::learned(u, p, reply.info);
    disk_laws::lemma_learned(u, p, reply);
    assert(disk_laws::answered(u, step, reply, now) == (
        files::directory_tidied(k, p, a),
        StepView::Done,
    )) by {
        reveal(resume::going_on);
        reveal(resume::command_going_on);
        reveal(resume::search_going_on);
        reveal(resume::file_going_on);
    }
    let r = provider::refreshed(k, p, a);
    let id = u.current_id;
    assert(id =~= seq![root, id[1]]);
    assert(r.current_id == id && r.ffon.len() == u.ffon.len() && r.ffon[root as int] is Obj
        && r.ffon[root as int]->children == reply.children) by {
        reveal(provider::refreshed);
    }
    let e = files::not_empty(r);
    assert(e.ffon.len() == u.ffon.len() && e.ffon[root as int] is Obj) by {
        reveal(files::not_empty);
        reveal(moves::placed_last);
        reveal(steps::with_root_filled);
    }
    lemma_two(e.ffon, root, id[1]);
    lemma_two(e.ffon, root, 0);
    lemma_filled(r, root, id[1]);
    let w = files::within_layer(e);
    assert(w.ffon == e.ffon) by {
        reveal(files::within_layer);
        reveal(moves::placed_last);
    }
    list::law_listing_keeps_the_rest(w);
    if reply.children.len() > 0 {
        let last = (reply.children.len() - 1) as usize;
        lemma_two(e.ffon, root, last);
        assert(ffon::with_last(id, last) =~= seq![root, last]);
    }
    reveal(files::within_layer);
    reveal(moves::placed_last);
    reveal(files::directory_tidied);
    reveal(moves::redrawn);
}

proof fn lemma_two(tree: Seq<Node>, root: usize, i: usize)
    requires
        root < tree.len(),
        tree[root as int] is Obj,
    ensures
        ffon::layer_of(tree, seq![root, i]) == Some(tree[root as int]->children),
        ffon::layer_at(tree, seq![root, i]) == Some(tree[root as int]->children),
        seq![root, i].last() == i,
        seq![root, i].len() == 2,
{
    move_laws::lemma_root_layer(tree, root);
    move_laws::lemma_sibling(tree, seq![root, 0], i);
    assert(move_laws::sibling(seq![root, 0], i as int) =~= seq![root, i]);
}

proof fn lemma_filled(r: Ui, root: usize, i: usize)
    requires
        r.current_id == seq![root, i],
        root < r.ffon.len(),
        r.ffon[root as int] is Obj,
    ensures
        ({
            let e = files::not_empty(r);
            let c = r.ffon[root as int]->children;
            if c.len() == 0 {
                &&& e.current_id == seq![root, 0]
                &&& e.ffon[root as int]->children == seq![Node::Str("<input></input>"@)]
            } else {
                e == r
            }
        }),
{
    reveal(files::not_empty);
    reveal(moves::placed_last);
    reveal(steps::with_root_filled);
    assert(ffon::with_last(seq![root, i], 0) =~= seq![root, 0]);
}

/// The element that a command made takes the place of an empty one.
pub proof fn law_made_element_takes_an_empty_place(
    u: Ui,
    layer: Seq<Node>,
    new: Node,
    step: StepView,
    reply: ReplyView,
    now: u64,
)
    requires
        step is Ask,
        step->then is CommandDone,
        reply.element == Some(new),
        u.current_id.len() > 0,
        ffon::layer_of(u.ffon, u.current_id) == Some(layer),
        u.current_id.last() < layer.len(),
        layer[u.current_id.last() as int] == Node::Str("<input></input>"@),
    ensures
        ({
            let (v, end) = disk_laws::answered(u, step, reply, now);
            let i = u.current_id.last() as int;
            &&& tree_laws::differ_at(
                u.ffon,
                v.ffon,
                u.current_id.drop_last(),
                layer,
                layer.update(i, new),
            )
            &&& v.current_id == u.current_id
            &&& v.coordinate == Coordinate::Insert
            &&& end == StepView::Done
        }),
{
    entry_laws::lemma_going_on(u, step, reply, now);
    let p = step->provider;
    let k = provider::learned(u, p, reply.info);
    disk_laws::lemma_learned(u, p, reply);
    let e = commands::error_reported(k, resume::answer_of(reply));
    assert(e.ffon == u.ffon && e.current_id == u.current_id) by {
        reveal(commands::error_reported);
    }
    let id = u.current_id;
    let i = id.last() as int;
    enter_laws::lemma_focused(e, layer[i]);
    entry_laws::lemma_empty(layer[i]);
    lemma_blank();
    assert(commands::at_blank(e));
    let m = commands::element_replaced(e, new);
    tree_laws::lemma_layered(u.ffon, id, layer, layer.update(i, new));
    assert(m.ffon == ffon::with_layer(u.ffon, id, layer.update(i, new)) && m.current_id == id) by {
        reveal(commands::element_replaced);
    }
    let s = moves::in_mode(moves::in_phase(m, CommandPhase::NoCommand), Coordinate::General);
    assert(s.ffon == m.ffon && s.current_id == m.current_id && s.coordinate is General) by {
        reveal(moves::in_mode);
        reveal(moves::in_phase);
    }
    list::law_listing_keeps_the_rest(s);
    let t = moves::list_scrolled(moves::at_position(list::listed(s)), 0);
    assert(t.ffon == m.ffon && t.current_id == m.current_id && t.coordinate is General) by {
        reveal(moves::list_scrolled);
        reveal(moves::at_position);
    }
    mode_laws::lemma_editing(t, false, now);
    reveal(commands::command_handled);
    reveal(commands::command_made);
    reveal(commands::command_left);
}

proof fn lemma_blank()
    ensures
        elements::is_blank_input("<input></input>"@),
{
    let none = Seq::<char>::empty();
    let open = "<input>"@;
    let close = "</input>"@;
    assert(none + open + none + close + none =~= "<input></input>"@ && enter_laws::is_tag(open)
        && enter_laws::is_tag(close) && open.last() != '\\') by {
        reveal_strlit("<input>");
        reveal_strlit("</input>");
        reveal_strlit("<input></input>");
    }
    enter_laws::law_text_is_found_between_tags(none, open, none, close, none);
}

/// Where a file or a directory could not be created, the error is shown and
/// everything else stays as it is.
pub proof fn law_failed_creation_is_told(
    u: Ui,
    ops: Seq<OpView>,
    name: Seq<char>,
    is_dir: bool,
    reply: ReplyView,
    now: u64,
)
    requires
        u.current_id.len() > 0,
        u.current_id[0] < u.providers.len(),
        !reply.ok,
        u.error_message.len() == 0,
    ensures
        ({
            let step = StepView::Ask {
                provider: Some(u.current_id[0]),
                ops,
                then: ThenView::Created {
                    name,
                    id: u.current_id,
                    is_dir,
                    way: Creation::Prefixed,
                },
            };
            let (v, end) = disk_laws::answered(u, step, reply, now);
            &&& v.ffon == u.ffon
            &&& v.current_id == u.current_id
            &&& v.coordinate == u.coordinate
            &&& v.tab_timelines == u.tab_timelines
            &&& v.error_message == if reply.error is Some && reply.error->0.len() > 0 {
                reply.error->0
            } else {
                "Failed to create item"@
            }
            &&& end == StepView::Done
        }),
{
    let p = Some(u.current_id[0]);
    let step = StepView::Ask {
        provider: p,
        ops,
        then: ThenView::Created { name, id: u.current_id, is_dir, way: Creation::Prefixed },
    };
    entry_laws::lemma_going_on(u, step, reply, now);
    let k = provider::learned(u, p, reply.info);
    disk_laws::lemma_learned(u, p, reply);
    assert(k.tab_timelines == u.tab_timelines) by {
        reveal(provider::learned);
    }
    reveal(insert::creation_done);
    reveal(insert::creation_failed);
    reveal(provider::failure_noted);
    reveal(moves::with_error);
    reveal(moves::redrawn);
}

/// Whether the item `i` is the first that shows `name` behind its prefix.
pub open spec fn is_first_named(items: Seq<ItemView>, name: Seq<char>, i: int) -> bool {
    &&& 0 <= i < items.len()
    &&& shows_name(items[i].label, name)
    &&& forall|j: int| 0 <= j < i ==> !shows_name((#[trigger] items[j]).label, name)
}

/// Whether a label is a prefix, a space and `name`.
pub open spec fn shows_name(label: Seq<char>, name: Seq<char>) -> bool {
    exists|prefix: Seq<char>|
        (forall|k: int| 0 <= k < prefix.len() ==> prefix[k] != ' ') && label == #[trigger] (prefix
            + seq![' ']) + name
}

proof fn lemma_shows_name(label: Seq<char>, name: Seq<char>)
    requires
        text::split_at_first(label, ' ') is Some,
    ensures
        insert::item_content(label) == name <==> shows_name(label, name),
{
    if shows_name(label, name) {
        let prefix = choose|prefix: Seq<char>|
            (forall|k: int| 0 <= k < prefix.len() ==> prefix[k] != ' ') && label == #[trigger] (
            prefix + seq![' ']) + name;
        edge_laws::law_text_is_split_at_the_first(prefix, ' ', name);
    }
    if insert::item_content(label) == name {
        lemma_split(label);
        let (prefix, rest) = text::split_at_first(label, ' ')->0;
        assert(label == (prefix + seq![' ']) + name);
    }
}

proof fn lemma_split(label: Seq<char>)
    requires
        text::split_at_first(label, ' ') is Some,
    ensures
        ({
            let (prefix, rest) = text::split_at_first(label, ' ')->0;
            &&& label == prefix + seq![' '] + rest
            &&& forall|k: int| 0 <= k < prefix.len() ==> prefix[k] != ' '
        }),
{
    lemma_first_index(label, 0);
    let i = text::index_from(label, ' ', 0)->0;
    assert(label =~= label.take(i) + seq![' '] + label.skip(i + 1));
}

proof fn lemma_first_index(s: Seq<char>, from: int)
    requires
        0 <= from,
    ensures
        text::index_from(s, ' ', from) matches Some(i) ==> from <= i < s.len() && s[i] == ' '
            && forall|k: int| from <= k < i ==> s[k] != ' ',
    decreases s.len() - from,
{
    if from < s.len() && s[from] != ' ' {
        lemma_first_index(s, from + 1);
    }
}

proof fn lemma_first_named(items: Seq<ItemView>, name: Seq<char>, i: int, from: int)
    requires
        is_first_named(items, name, i),
        0 <= from <= i,
        forall|j: int|
            0 <= j < items.len() ==> text::split_at_first((#[trigger] items[j]).label, ' ')
                is Some,
    ensures
        insert::item_named(items, name, from) == Some(i),
    decreases i - from,
{
    lemma_shows_name(items[from].label, name);
    if from < i {
        lemma_first_named(items, name, i, from + 1);
    }
}

/// When the directory was fetched that a file or a directory was created in, the
/// position is at what was created, and nothing is edited any more.
pub proof fn law_created_file_is_selected(
    u: Ui,
    ops: Seq<OpView>,
    name: Seq<char>,
    i: int,
    reply: ReplyView,
    now: u64,
)
    requires
        u.current_id.len() > 0,
        u.current_id[0] < u.providers.len(),
    ensures
        ({
            let step = StepView::Ask {
                provider: Some(u.current_id[0]),
                ops,
                then: ThenView::CreatedFetched { name, way: Creation::Prefixed },
            };
            let (v, end) = disk_laws::answered(u, step, reply, now);
            &&& v.coordinate == Coordinate::General
            &&& v.input_buffer.len() == 0
            &&& (forall|j: int|
                0 <= j < v.total_list.len() ==> text::split_at_first(
                    (#[trigger] v.total_list[j]).label,
                    ' ',
                ) is Some) && is_first_named(v.total_list, name, i) && v.total_list.len()
                <= usize::MAX ==> {
                &&& v.current_id == v.total_list[i].id
                &&& v.list_index == i
            }
            &&& end == StepView::Done
        }),
{
    let p = Some(u.current_id[0]);
    let step = StepView::Ask {
        provider: p,
        ops,
        then: ThenView::CreatedFetched { name, way: Creation::Prefixed },
    };
    let a = resume::answer_of(reply);
    let k = provider::learned(u, p, reply.info);
    assert(disk_laws::answered(u, step, reply, now) == (
        insert::creation_shown(k, p, a, name, Creation::Prefixed),
        StepView::Done,
    )) by {
        reveal(resume::going_on);
        reveal(resume::command_going_on);
        reveal(resume::search_going_on);
        reveal(resume::file_going_on);
        reveal(resume::edit_going_on);
    }
    let l = list::listed(provider::refreshed(k, p, a));
    let at = insert::at_item_named(l, name, true);
    assert(at.total_list == l.total_list) by {
        reveal(insert::at_item_named);
        reveal(moves::at_item);
        reveal(moves::placed);
    }
    let v = moves::redrawn(insert::typing_left(at));
    assert(v.total_list == l.total_list && v.coordinate == Coordinate::General
        && v.input_buffer.len() == 0 && v.current_id == at.current_id && v.list_index
        == at.list_index) by {
        reveal(moves::redrawn);
        reveal(insert::typing_left);
        reveal(moves::without_input);
        reveal(moves::with_modes);
    }
    assert(insert::creation_shown(k, p, a, name, Creation::Prefixed) == v) by {
        reveal(insert::creation_shown);
    }
    if (forall|j: int|
        0 <= j < v.total_list.len() ==> text::split_at_first((#[trigger] v.total_list[j]).label, ' ')
            is Some) && is_first_named(v.total_list, name, i) && v.total_list.len() <= usize::MAX {
        lemma_first_named(l.total_list, name, i, 0);
        reveal(insert::at_item_named);
        reveal(moves::at_item);
        reveal(moves::placed);
    }
}

/// The step that created a file takes the place of the step that put in the
/// empty element for its name.
pub proof fn law_creation_takes_the_place_of_the_insertion(
    u: Ui,
    id: Seq<usize>,
    is_dir: bool,
    name: Seq<char>,
    now: u64,
)
    requires
        app_state::tabs_ok(u),
        !u.in_history_action,
        u.tab_timelines[u.active_tab as int].position == 0,
        0 < u.tab_timelines[u.active_tab as int].entries.len() <= app_state::TIMELINE_CAPACITY,
        u.tab_timelines[u.active_tab as int].entries.last() matches EntryView::Structure { op, .. }
            && (op == StructuralOp::Append || op == StructuralOp::Insert),
    ensures
        ({
            let v = insert::creation_recorded(u, id, is_dir, name, now);
            let before = u.tab_timelines[u.active_tab as int].entries;
            v.tab_timelines[v.active_tab as int].entries == before.drop_last().push(
                insert::creation_entry(id, is_dir, name),
            )
        }),
{
    reveal(app_state::timelines_ok);
    reveal(insert::creation_recorded);
    reveal(state::step_dropped);
    let d = state::step_dropped(u);
    let before = u.tab_timelines[u.active_tab as int].entries;
    assert(d.tab_timelines[d.active_tab as int].entries == before.drop_last());
    assert(state::done_entries(d.tab_timelines[d.active_tab as int]) =~= before.drop_last());
}

/// Where the folder to save in is not there, that is said and nothing else
/// happens.
pub proof fn law_missing_folder_is_told(
    u: Ui,
    ops: Seq<OpView>,
    dir: Seq<char>,
    browser: usize,
    reply: ReplyView,
    now: u64,
)
    requires
        !reply.ok,
    ensures
        ({
            let step = StepView::Ask {
                provider: None,
                ops,
                then: ThenView::SaveFolderChecked { dir, browser },
            };
            let (v, end) = disk_laws::answered(u, step, reply, now);
            &&& v.error_message == "Save folder does not exist: "@ + dir
            &&& v.ffon == u.ffon
            &&& v.current_id == u.current_id
            &&& v.coordinate == u.coordinate
            &&& end == StepView::Done
        }),
{
    let step = StepView::Ask {
        provider: None,
        ops,
        then: ThenView::SaveFolderChecked { dir, browser },
    };
    save_laws::lemma_save_goes_on(u, step, reply, now);
    disk_laws::lemma_learned(u, None, reply);
    reveal(resume::save_going_on);
    reveal(saving::folder_checked);
    reveal(moves::with_error);
    reveal(moves::redrawn);
}

/// When a file was written under a new name, the element that the name was typed
/// into is taken out again, and the file browser goes back to its root.
pub proof fn law_name_is_taken_out_again(
    u: Ui,
    layer: Seq<Node>,
    ops: Seq<OpView>,
    path: Seq<char>,
    reply: ReplyView,
    now: u64,
)
    requires
        u.current_id.len() >= 2,
        u.current_id[0] < u.providers.len(),
        ffon::layer_of(u.ffon, u.current_id) == Some(layer),
        u.current_id.last() < layer.len(),
    ensures
        ({
            let step = StepView::Ask {
                provider: None,
                ops,
                then: ThenView::SaveWritten { path },
            };
            let (v, next) = disk_laws::answered(u, step, reply, now);
            &&& tree_laws::differ_at(
                u.ffon,
                v.ffon,
                u.current_id.drop_last(),
                layer,
                layer.remove(u.current_id.last() as int),
            )
            &&& next matches StepView::Ask { provider, ops, then } && {
                &&& provider == Some(u.current_id[0])
                &&& ops == seq![OpView::SetPath("/"@), OpView::Fetch]
                &&& then matches ThenView::SaveReset { path: q, error } && q == path && (error
                    is None <==> reply.ok)
            }
        }),
{
    let step = StepView::Ask { provider: None, ops, then: ThenView::SaveWritten { path } };
    save_laws::lemma_save_goes_on(u, step, reply, now);
    disk_laws::lemma_learned(u, None, reply);
    tree_laws::lemma_layered(
        u.ffon,
        u.current_id,
        layer,
        layer.remove(u.current_id.last() as int),
    );
    reveal(resume::save_going_on);
    reveal(saving::browser_reset);
    reveal(saving::name_taken_out);
}

/// While a file is chosen the keys that would change something are left alone.
pub proof fn law_nothing_changes_while_a_file_is_chosen(u: Ui, key: Key, ctrl: bool)
    requires
        u.pending_file_browser_open,
        u.coordinate is General,
        key is I || key is A || key is D || key is X || key is V || key is Z || key is S || key
            is Delete || key is Space || key is M,
    ensures
        shortcuts::left_alone(u, key, ctrl),
        !shortcuts::left_alone(u, Key::Return, false),
        !shortcuts::left_alone(u, Key::Up, false),
        !shortcuts::left_alone(u, Key::Escape, false),
        !shortcuts::left_alone(u, Key::F, true),
{
}

/// While a file is chosen the list shows the branches, and the leaves that name a
/// file of the right kind.
pub proof fn law_only_files_that_can_be_opened_are_listed(
    layer: Seq<Node>,
    id: Seq<usize>,
    radio: bool,
    n: int,
    i: usize,
)
    requires
        id.len() > 0,
        0 <= n <= layer.len() <= usize::MAX,
        i < n,
    ensures
        ({
            let items = list::layer_items(layer, id, radio, true, n);
            (exists|k: int|
                0 <= k < items.len() && (#[trigger] items[k]).id == move_laws::sibling(
                    id,
                    i as int,
                )) <==> layer[i as int] is Obj || layer[i as int] is Str && markup::ends_with(
                match markup::input_text(layer[i as int]->Str_0) {
                    Some(x) => x,
                    None => layer[i as int]->Str_0,
                },
                ".json"@,
            )
        }),
    decreases n,
{
    let items = list::layer_items(layer, id, radio, true, n);
    let before = list::layer_items(layer, id, radio, true, n - 1);
    let at = move_laws::sibling(id, i as int);
    move_laws::lemma_sibling(Seq::empty(), id, i);
    move_laws::lemma_sibling(Seq::empty(), id, (n - 1) as usize);
    assert(at.last() == i);
    assert(move_laws::sibling(id, n - 1).last() == n - 1);
    if i < n - 1 {
        law_only_files_that_can_be_opened_are_listed(layer, id, radio, n - 1, i);
        if exists|k: int| 0 <= k < before.len() && (#[trigger] before[k]).id == at {
            let k = choose|k: int| 0 <= k < before.len() && (#[trigger] before[k]).id == at;
            assert(items[k] == before[k]);
        }
        if exists|k: int| 0 <= k < items.len() && (#[trigger] items[k]).id == at {
            let k = choose|k: int| 0 <= k < items.len() && (#[trigger] items[k]).id == at;
            assert(k < before.len());
            assert(items[k] == before[k]);
        }
    } else {
        lemma_listed_before(layer, id, radio, n - 1);
        if !list::hidden(layer[i as int]) {
            assert(items[before.len() as int].id == at);
        }
        if exists|k: int| 0 <= k < items.len() && (#[trigger] items[k]).id == at {
            let k = choose|k: int| 0 <= k < items.len() && (#[trigger] items[k]).id == at;
            if k < before.len() {
                assert(items[k] == before[k]);
            }
        }
    }
}

proof fn lemma_listed_before(layer: Seq<Node>, id: Seq<usize>, radio: bool, n: int)
    requires
        id.len() > 0,
        0 <= n <= layer.len() <= usize::MAX,
    ensures
        forall|k: int|
            0 <= k < list::layer_items(layer, id, radio, true, n).len() ==> {
                let item = #[trigger] list::layer_items(layer, id, radio, true, n)[k];
                item.id.len() > 0 && item.id.last() < n
            },
    decreases n,
{
    if n > 0 {
        lemma_listed_before(layer, id, radio, n - 1);
        let items = list::layer_items(layer, id, radio, true, n);
        let before = list::layer_items(layer, id, radio, true, n - 1);
        move_laws::lemma_sibling(Seq::empty(), id, (n - 1) as usize);
        assert(move_laws::sibling(id, n - 1).last() == n - 1);
        assert forall|k: int| 0 <= k < items.len() implies (#[trigger] items[k]).id.len() > 0
            && items[k].id.last() < n by {
            if k < before.len() {
                assert(items[k] == before[k]);
            }
        }
    }
}

/// After a box was checked in a search the search goes on with the same item
/// selected; after a button was chosen there the search is over.
pub proof fn law_search_goes_on_after_a_box(
    u: Ui,
    ops: Seq<OpView>,
    p: Option<usize>,
    index: usize,
    reply: ReplyView,
    now: u64,
)
    ensures
        ({
            let step = StepView::Ask {
                provider: p,
                ops,
                then: ThenView::SearchToggled { index, extended: false },
            };
            let (v, end) = disk_laws::answered(u, step, reply, now);
            &&& v.list_index == index
            &&& v.coordinate == u.coordinate
            &&& v.search_string == u.search_string
            &&& v.ffon == u.ffon
            &&& end == StepView::Done
        }),
        ({
            let step = StepView::Ask {
                provider: p,
                ops,
                then: ThenView::SearchChosen { extended: false },
            };
            let (v, end) = disk_laws::answered(u, step, reply, now);
            &&& v.coordinate == u.previous_coordinate
            &&& v.search_string.len() == 0
            &&& v.ffon == u.ffon
            &&& v.current_id == u.current_id
            &&& v.list_index == ffon::last_or_zero(u.current_id)
            &&& end == StepView::Done
        }),
{
    let k = provider::learned(u, p, reply.info);
    disk_laws::lemma_learned(u, p, reply);
    assert(k.search_string == u.search_string && k.previous_coordinate == u.previous_coordinate)
        by {
        reveal(provider::learned);
    }
    reveal(resume::going_on);
    reveal(resume::command_going_on);
    reveal(resume::search_going_on);
    list::law_listing_keeps_the_rest(k);
    let s = moves::without_search(moves::left_mode(k));
    assert(s.coordinate == u.previous_coordinate && s.search_string.len() == 0 && s.ffon
        == u.ffon && s.current_id == u.current_id) by {
        reveal(moves::without_search);
        reveal(moves::left_mode);
    }
    list::law_listing_keeps_the_rest(s);
    reveal(search::search_goes_on);
    reveal(search::search_chose);
    reveal(search::search_closed);
    reveal(moves::redrawn);
    reveal(moves::at_item);
    reveal(moves::at_position);
}

} // verus!
