//! What is written to a file and read from it, and what a fetch brings.

use vstd::prelude::*;

use crate::app_state;
use crate::app_state::{Coordinate, Ui};
use crate::disk_laws;
use crate::events;
use crate::events::OutsideView;
use crate::ffon;
use crate::ffon::Node;
use crate::handlers;
use crate::list;
use crate::markup;
use crate::moves;
use crate::paths;
use crate::provider;
use crate::provider::{OpView, ReplyView, StepView, ThenView};
use crate::resume;
use crate::saving;
use crate::shortcuts::Action;
use crate::state;
use crate::steps;
use crate::text;

verus! {

/// Answers to what saving and loading ask for.
pub(crate) proof fn lemma_save_goes_on(u: Ui, step: StepView, reply: ReplyView, now: u64)
    requires
        step is Ask,
        step->then is SaveTried || step->then is SaveWritten || step->then is SaveReset
            || step->then is SaveFolderChecked || step->then is Saved || step->then is Loaded
            || step->then is LoadReset,
    ensures
        disk_laws::answered(u, step, reply, now) == resume::save_going_on(
            provider::learned(u, step->provider, reply.info),
            step->provider,
            step->then,
            resume::answer_of(reply),
            now,
        ),
{
    reveal(resume::going_on);
    reveal(resume::command_going_on);
    reveal(resume::search_going_on);
    reveal(resume::file_going_on);
    reveal(resume::edit_going_on);
}

/// The save key writes the root that the position is in to the file that it was
/// saved to before, and says whether that worked. The tree stays as it is.
pub proof fn law_save_writes_the_root(u: Ui, o: OutsideView, reply: ReplyView, now: u64)
    requires
        u.current_save_path.len() > 0,
        u.current_id.len() > 0,
        u.current_id[0] < u.ffon.len(),
        u.ffon[u.current_id[0] as int] is Obj,
    ensures
        ({
            let (v, effects) = events::performed(u, Action::Save, o);
            let (w, end) = disk_laws::answered(v, effects.step, reply, now);
            &&& v == u
            &&& effects.step matches StepView::Ask { ops, .. } && ops == seq![
                OpView::SaveTree {
                    path: u.current_save_path,
                    tree: u.ffon[u.current_id[0] as int],
                },
            ]
            &&& w.ffon == u.ffon
            &&& w.current_id == u.current_id
            &&& reply.ok ==> w.error_message == "Saved to "@ + u.current_save_path
            &&& !reply.ok && reply.error is Some ==> w.error_message == "Failed to save: "@
                + reply.error->0
            &&& end == StepView::Done
        }),
{
    let step = StepView::Ask {
        provider: None,
        ops: seq![
            OpView::SaveTree {
                path: u.current_save_path,
                tree: u.ffon[u.current_id[0] as int],
            },
        ],
        then: ThenView::Saved { path: u.current_save_path },
    };
    assert(events::performed(u, Action::Save, o) == (u, events::only(step))) by {
        reveal(events::performed);
        reveal(events::entered);
        reveal(saving::save_started);
    }
    lemma_save_goes_on(u, step, reply, now);
    disk_laws::lemma_learned(u, None, reply);
    reveal(resume::save_going_on);
    reveal(moves::with_error);
    reveal(moves::redrawn);
}

/// What is read from a file becomes the children of the root that the position
/// is in, under the name that it has; the other roots stay as they are. Where
/// the file cannot be read the tree stays as it is.
pub proof fn law_load_puts_in_what_was_read(
    u: Ui,
    path: Seq<char>,
    key: Seq<char>,
    children: Seq<Node>,
    reply: ReplyView,
    now: u64,
)
    requires
        path.len() > 0,
        u.current_id.len() > 0,
        u.current_id[0] < u.ffon.len(),
        u.ffon[u.current_id[0] as int] == (Node::Obj { key, children }),
    ensures
        ({
            let step = saving::load_started(u, path);
            let (v, next) = disk_laws::answered(u, step, reply, now);
            let i = u.current_id[0] as int;
            &&& step matches StepView::Ask { ops, .. } && ops == seq![OpView::LoadTree(path)]
            &&& reply.ok ==> {
                &&& v.ffon == u.ffon.update(i, Node::Obj { key, children: reply.children })
                &&& v.current_id == u.current_id
                &&& next matches StepView::Ask { ops, .. } && ops == seq![
                    OpView::SetPath("/"@),
                ]
            }
            &&& !reply.ok ==> v.ffon == u.ffon && next == StepView::Done
        }),
{
    reveal(saving::load_started);
    let step = saving::load_started(u, path);
    lemma_save_goes_on(u, step, reply, now);
    disk_laws::lemma_learned(u, None, reply);
    reveal(resume::save_going_on);
    reveal(saving::load_done);
    reveal(saving::root_children_set);
    reveal(moves::with_error);
    reveal(moves::redrawn);
}

/// What was saved is there again when it is loaded: reading back what the save
/// key wrote gives the root that it had, whatever became of the root in between.
/// `w` is the state that it is loaded in.
pub proof fn law_load_gives_back_what_was_saved(
    u: Ui,
    o: OutsideView,
    w: Ui,
    reply: ReplyView,
    now: u64,
)
    requires
        u.current_save_path.len() > 0,
        u.current_id.len() > 0,
        u.current_id[0] < u.ffon.len(),
        u.ffon[u.current_id[0] as int] is Obj,
        w.current_id == u.current_id,
        w.current_id[0] < w.ffon.len(),
        w.ffon[w.current_id[0] as int] is Obj,
        ffon::node_text(w.ffon[w.current_id[0] as int]) == ffon::node_text(
            u.ffon[u.current_id[0] as int],
        ),
        reply.ok,
    ensures
        ({
            let saved = events::performed(u, Action::Save, o).1.step;
            let x = disk_laws::answered(
                w,
                saving::load_started(w, u.current_save_path),
                reply,
                now,
            ).0;
            saved is Ask && saved->ops.len() == 1 && (saved->ops[0] matches OpView::SaveTree {
                path,
                tree,
            } && path == u.current_save_path && (reply.children == tree->children
                ==> x.ffon[u.current_id[0] as int] == u.ffon[u.current_id[0] as int]))
        }),
{
    law_save_writes_the_root(u, o, reply, now);
    let i = u.current_id[0] as int;
    law_load_puts_in_what_was_read(
        w,
        u.current_save_path,
        w.ffon[i]->key,
        w.ffon[i]->children,
        reply,
        now,
    );
}

/// A loaded file is the one that is saved to from then on, and nothing that was
/// done before can be taken back.
pub proof fn law_loaded_file_is_saved_to(u: Ui, path: Seq<char>, p: Option<usize>, reply: ReplyView, now: u64)
    requires
        u.active_tab < u.tab_timelines.len(),
    ensures
        ({
            let step = StepView::Ask {
                provider: p,
                ops: seq![OpView::SetPath("/"@)],
                then: ThenView::LoadReset { path },
            };
            let (v, end) = disk_laws::answered(u, step, reply, now);
            &&& v.current_save_path == path
            &&& v.ffon == u.ffon
            &&& v.tab_timelines[v.active_tab as int].entries.len() == 0
            &&& v.error_message == "Loaded from "@ + path
            &&& end == StepView::Done
        }),
{
    let step = StepView::Ask {
        provider: p,
        ops: seq![OpView::SetPath("/"@)],
        then: ThenView::LoadReset { path },
    };
    lemma_save_goes_on(u, step, reply, now);
    let k = provider::learned(u, p, reply.info);
    disk_laws::lemma_learned(u, p, reply);
    assert(k.tab_timelines == u.tab_timelines && k.active_tab == u.active_tab) by {
        reveal(provider::learned);
    }
    let s = saving::with_save_path(state::steps_forgotten(k), path);
    assert(s.current_save_path == path && s.ffon == u.ffon && s.active_tab == u.active_tab
        && s.tab_timelines[s.active_tab as int].entries.len() == 0) by {
        reveal(saving::with_save_path);
        reveal(state::steps_forgotten);
    }
    list::law_listing_keeps_the_rest(s);
    reveal(resume::save_going_on);
    reveal(saving::load_shown);
    reveal(moves::with_error);
    reveal(moves::redrawn);
}

/// Where nothing was saved yet the save key asks for a name, as the key for
/// saving under a new name does: the folder is looked for, and it is kept where
/// to go back to.
pub proof fn law_save_asks_for_a_name(u: Ui, i: int, o: OutsideView)
    requires
        u.current_id.len() > 0,
        0 <= i < u.providers.len() <= usize::MAX,
        u.providers[i].name == "filebrowser"@,
        forall|j: int| 0 <= j < i ==> (#[trigger] u.providers[j]).name != "filebrowser"@,
    ensures
        u.current_save_path.len() == 0 ==> events::performed(u, Action::Save, o)
            == events::performed(u, Action::SaveAs, o),
        ({
            let (v, effects) = events::performed(u, Action::SaveAs, o);
            &&& v.save_as_return_id == u.current_id
            &&& v.save_as_source_root_idx == u.current_id[0]
            &&& v.ffon == u.ffon
            &&& v.current_id == u.current_id
            &&& effects.step == StepView::Ask {
                provider: None,
                ops: seq![OpView::IsDirectory(o.save_dir)],
                then: ThenView::SaveFolderChecked { dir: o.save_dir, browser: i as usize },
            }
        }),
{
    reveal(events::performed);
    reveal(events::entered);
    reveal(saving::save_started);
    reveal(saving::save_as_started);
    reveal(saving::leaving_to_save);
    lemma_browser(u.providers, i, 0);
}

proof fn lemma_browser(names: Seq<app_state::ProviderView>, i: int, from: int)
    requires
        0 <= from <= i < names.len(),
        names[i].name == "filebrowser"@,
        forall|j: int| 0 <= j < i ==> (#[trigger] names[j]).name != "filebrowser"@,
    ensures
        saving::browser_from(names, from) == Some(i),
    decreases i - from,
{
    if from < i {
        lemma_browser(names, i, from + 1);
    }
}

/// The name that is saved under ends with its suffix, once.
pub proof fn law_saved_name_has_its_suffix(dir: Seq<char>, name: Seq<char>)
    requires
        !markup::ends_with(name, ".json"@),
    ensures
        saving::naming_started(dir, name) == (StepView::Ask {
            provider: None,
            ops: seq![OpView::Exists(dir + "/"@ + (name + ".json"@))],
            then: ThenView::SaveTried { dir, base: name, candidate: name + ".json"@, n: 0 },
        }),
        saving::naming_started(dir, name + ".json"@) == saving::naming_started(dir, name),
{
    assert(".json"@.len() > 0) by {
        reveal_strlit(".json");
    }
    let full = name + ".json"@;
    assert(full.take(full.len() - ".json"@.len()) =~= name);
    assert(full.subrange(full.len() - ".json"@.len(), full.len() as int) =~= ".json"@);
}

/// Where a name is free the root to be saved is written under it; where it is
/// taken the next copy of the name is tried.
pub proof fn law_a_free_name_is_written(
    u: Ui,
    dir: Seq<char>,
    base: Seq<char>,
    candidate: Seq<char>,
    n: u32,
    reply: ReplyView,
    now: u64,
)
    requires
        u.save_as_source_root_idx < u.ffon.len(),
        u.ffon[u.save_as_source_root_idx as int] is Obj,
        n < u32::MAX,
    ensures
        ({
            let step = StepView::Ask {
                provider: None,
                ops: seq![OpView::Exists(dir + "/"@ + candidate)],
                then: ThenView::SaveTried { dir, base, candidate, n },
            };
            let (v, next) = disk_laws::answered(u, step, reply, now);
            let path = dir + "/"@ + candidate;
            let another = base + " (copy "@ + text::decimal((n + 1) as nat) + ")"@ + ".json"@;
            &&& v == u
            &&& !reply.ok ==> next == StepView::Ask {
                provider: None,
                ops: seq![
                    OpView::SaveTree { path, tree: u.ffon[u.save_as_source_root_idx as int] },
                ],
                then: ThenView::SaveWritten { path },
            }
            &&& reply.ok ==> next == StepView::Ask {
                provider: None,
                ops: seq![OpView::Exists(dir + "/"@ + another)],
                then: ThenView::SaveTried {
                    dir,
                    base,
                    candidate: another,
                    n: (n + 1) as u32,
                },
            }
        }),
{
    let step = StepView::Ask {
        provider: None,
        ops: seq![OpView::Exists(dir + "/"@ + candidate)],
        then: ThenView::SaveTried { dir, base, candidate, n },
    };
    lemma_save_goes_on(u, step, reply, now);
    disk_laws::lemma_learned(u, None, reply);
    reveal(resume::save_going_on);
    reveal(saving::file_checked);
}

/// When a file was saved under a new name the position is back where it was, it
/// is said what came of it, and where that went well the file is the one that is
/// saved to from then on.
pub proof fn law_saving_goes_back(
    u: Ui,
    p: Option<usize>,
    ops: Seq<OpView>,
    path: Seq<char>,
    error: Option<Seq<char>>,
    reply: ReplyView,
    now: u64,
)
    ensures
        ({
            let step = StepView::Ask {
                provider: p,
                ops,
                then: ThenView::SaveReset { path, error },
            };
            let (v, end) = disk_laws::answered(u, step, reply, now);
            &&& v.current_id == u.save_as_return_id
            &&& v.coordinate == Coordinate::General
            &&& v.input_buffer.len() == 0
            &&& !v.pending_file_browser_save_as
            &&& error is None ==> v.current_save_path == path && v.error_message == "Saved to "@
                + path
            &&& error is Some ==> v.current_save_path == u.current_save_path && v.error_message
                == "Failed to save: "@ + error->0
            &&& end == StepView::Done
        }),
{
    let step = StepView::Ask { provider: p, ops, then: ThenView::SaveReset { path, error } };
    lemma_save_goes_on(u, step, reply, now);
    let k = provider::learned(u, p, reply.info);
    assert(k.save_as_return_id == u.save_as_return_id && k.current_save_path
        == u.current_save_path) by {
        reveal(provider::learned);
    }
    let a = resume::answer_of(reply);
    let c = saving::root_children_set(
        k,
        steps::root_index(k.current_id),
        saving::browser_children(p, a),
    );
    let s = moves::without_input(
        moves::with_modes(
            paths::saving_as(moves::placed(c, k.save_as_return_id), false),
            Coordinate::General,
            Coordinate::General,
        ),
    );
    assert(s.current_id == u.save_as_return_id && s.coordinate == Coordinate::General
        && s.input_buffer.len() == 0 && !s.pending_file_browser_save_as && s.current_save_path
        == u.current_save_path) by {
        reveal(saving::root_children_set);
        reveal(moves::placed);
        reveal(paths::saving_as);
        reveal(moves::with_modes);
        reveal(moves::without_input);
    }
    list::law_listing_keeps_the_rest(s);
    let l = handlers::list_left(s);
    assert(l.current_id == u.save_as_return_id && l.coordinate == Coordinate::General
        && l.input_buffer.len() == 0 && !l.pending_file_browser_save_as && l.current_save_path
        == u.current_save_path) by {
        reveal(handlers::list_left);
        reveal(moves::list_scrolled);
        reveal(moves::at_position);
    }
    let w = if error is None {
        saving::with_save_path(l, path)
    } else {
        l
    };
    let said = moves::redrawn(moves::with_error(w, saving::save_message(path, error)));
    assert(disk_laws::answered(u, step, reply, now) == (said, StepView::Done)) by {
        reveal(resume::save_going_on);
        reveal(saving::save_finished);
    }
    reveal(saving::with_save_path);
    reveal(moves::with_error);
    reveal(moves::redrawn);
}

/// The key for a refresh fetches anew what the provider of the position has. The
/// root of the provider holds what came back, and the other roots stay as they
/// are.
pub proof fn law_refresh_shows_what_there_is(u: Ui, o: OutsideView, reply: ReplyView, now: u64)
    requires
        u.current_id.len() > 0,
        u.current_id[0] < u.providers.len(),
        u.current_id[0] < u.ffon.len(),
    ensures
        ({
            let (v, effects) = events::performed(u, Action::Refresh, o);
            let (w, end) = disk_laws::answered(v, effects.step, reply, now);
            let i = u.current_id[0] as int;
            &&& v == u
            &&& disk_laws::fetches(effects.step)
            &&& effects.step->provider == Some(u.current_id[0])
            &&& w.ffon.len() == u.ffon.len()
            &&& w.ffon[i] is Obj
            &&& w.ffon[i]->children == reply.children
            &&& forall|j: int| 0 <= j < u.ffon.len() && j != i ==> w.ffon[j] == u.ffon[j]
            &&& end == StepView::Done
        }),
{
    let step = provider::fetching(u, ThenView::F5);
    assert(events::performed(u, Action::Refresh, o) == (u, events::only(step))) by {
        reveal(events::performed);
        reveal(events::entered);
    }
    assert(step->ops[0] == OpView::Fetch);
    let p = step->provider;
    let k = provider::learned(u, p, reply.info);
    disk_laws::lemma_learned(u, p, reply);
    reveal(resume::going_on);
    let r = provider::refreshed(k, p, resume::answer_of(reply));
    assert(r.ffon == provider::fetched_tree(k.providers, k.ffon, p, resume::answer_of(reply))) by {
        reveal(provider::refreshed);
    }
    list::law_listing_keeps_the_rest(r);
    reveal(app_state::synced);
    reveal(moves::redrawn);
}

} // verus!
