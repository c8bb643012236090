//! Where a way that takes more than one step ends, and what is shown there.

use vstd::prelude::*;

use crate::accesskit_sdl;
use crate::app_state;
use crate::app_state::{PaletteTheme, ProviderView, TimelineState, Ui};
use crate::auth;
use crate::auth::CredentialView;
use crate::commands;
use crate::disk_laws;
use crate::disk_laws::Disk;
use crate::ffon;
use crate::ffon::Node;
use crate::files;
use crate::image;
use crate::image::CacheView;
use crate::list;
use crate::markup;
use crate::move_laws;
use crate::moves;
use crate::paths;
use crate::provider;
use crate::provider::{OpView, PathEnd, ReplyView, StepView, ThenView};
use crate::rebuild;
use crate::rebuild::RebuildView;
use crate::resume;
use crate::state;
use crate::steps;
use crate::timeline::EntryView;

verus! {

/// When a file was copied, it is fetched what there is now; when it could not be
/// copied, the user is told so, and nothing else is asked for.
pub proof fn law_copied_file_is_fetched(
    u: Ui,
    root: usize,
    ops: Seq<OpView>,
    name: Seq<char>,
    reply: ReplyView,
    now: u64,
)
    requires
        u.current_id.len() > 0,
        u.current_id[0] < u.providers.len(),
    ensures
        ({
            let step = StepView::Ask {
                provider: Some(root),
                ops,
                then: ThenView::PasteCopied { name },
            };
            let (v, next) = disk_laws::answered(u, step, reply, now);
            &&& v.ffon == u.ffon
            &&& v.current_id == u.current_id
            &&& reply.ok ==> {
                &&& disk_laws::fetches(next)
                &&& next->provider == Some(u.current_id[0])
                &&& next->then == ThenView::PasteFetched { name }
                &&& v.error_message == u.error_message
            }
            &&& !reply.ok ==> {
                &&& next is Done
                &&& v.error_message == "Paste: failed to copy file"@
            }
        }),
{
    let step = StepView::Ask { provider: Some(root), ops, then: ThenView::PasteCopied { name } };
    let next = disk_laws::answered(u, step, reply, now).1;
    reveal(provider::learned);
    reveal(resume::going_on);
    reveal(resume::command_going_on);
    reveal(resume::search_going_on);
    reveal(resume::file_going_on);
    reveal(files::paste_done);
    reveal(provider::failure_noted);
    reveal(moves::with_error);
    if reply.ok {
        assert(next->ops[0] == OpView::Fetch);
    }
}

/// On its way to the start, the position goes out of one element after the
/// other: out of one that is no provider's at once, and out of others when the
/// provider went out of them. At the root it stays, and the way ends.
pub proof fn law_way_home_leads_to_the_root(
    u: Ui,
    ops: Seq<OpView>,
    tap: u64,
    reply: ReplyView,
    now: u64,
)
    requires
        u.current_id.len() > 0,
        u.current_id[0] < u.providers.len(),
    ensures
        ({
            let step = StepView::Ask { provider: None, ops, then: ThenView::HomeOn { tap } };
            let (v, next) = disk_laws::answered(u, step, reply, now);
            &&& v.ffon == u.ffon
            &&& u.current_id.len() == 1 ==> {
                &&& next is Done
                &&& v.current_id == u.current_id
            }
            &&& u.current_id.len() > 1 && steps::above_is_local(u) ==> {
                &&& v.current_id.len() == u.current_id.len() - 1
                &&& v.current_id.drop_last() == u.current_id.take(u.current_id.len() - 2)
                &&& next is Ask
                &&& next->then == ThenView::HomeOn { tap }
            }
            &&& u.current_id.len() > 1 && !steps::above_is_local(u) ==> {
                &&& v.current_id == u.current_id
                &&& next is Ask
                &&& next->provider == Some(u.current_id[0])
                &&& next->ops == seq![OpView::PopPath]
                &&& next->then matches ThenView::LeftPopped { end, .. } && end
                    == provider::LeftEnd::Home { tap }
            }
        }),
{
    reveal(provider::learned);
    reveal(resume::going_on);
    reveal(steps::on_the_way_home);
    reveal(steps::left_raw);
    reveal(steps::left_done);
    reveal(steps::arrived);
    reveal(moves::placed);
    reveal(moves::tapped);
    reveal(moves::redrawn);
    reveal(moves::list_scrolled);
    let k = provider::learned(u, None, reply.info);
    assert(k == u);
    list::law_listing_keeps_the_rest(moves::tapped(u, tap));
    list::law_listing_keeps_the_rest(steps::up_one(u));
    reveal(app_state::synced);
    reveal(moves::touched);
    if u.current_id.len() > 1 {
        let id = u.current_id.drop_last();
        assert(id.drop_last() =~= u.current_id.take(u.current_id.len() - 2));
        assert forall|i: usize| (#[trigger] ffon::with_last(id, i)).drop_last() == id.drop_last()
            && ffon::with_last(id, i).len() == id.len() by {
            assert(ffon::with_last(id, i).drop_last() =~= id.drop_last());
        }
    }
}

/// A provider whose state a command changed goes out to its first layer, and is
/// fetched there.
pub proof fn law_changed_provider_is_fetched_at_its_root(
    u: Ui,
    ops: Seq<OpView>,
    reply: ReplyView,
    now: u64,
)
    requires
        u.current_id.len() > 0,
        u.current_id[0] < u.providers.len(),
    ensures
        ({
            let step = StepView::Ask { provider: None, ops, then: ThenView::ToggleOn };
            let (v, next) = disk_laws::answered(u, step, reply, now);
            &&& v.ffon == u.ffon
            &&& next is Ask
            &&& u.current_id.len() <= 2 ==> {
                &&& v.current_id == u.current_id
                &&& disk_laws::fetches(next)
                &&& next->provider == Some(u.current_id[0])
                &&& next->then is ToggleFetched
            }
            &&& u.current_id.len() > 2 && steps::above_is_local(u) ==> {
                &&& v.current_id == u.current_id.drop_last()
                &&& next->then is ToggleOn
            }
            &&& u.current_id.len() > 2 && !steps::above_is_local(u) ==> {
                &&& v.current_id == u.current_id
                &&& next->provider == Some(u.current_id[0])
                &&& next->ops == seq![OpView::PopPath]
            }
        }),
{
    let step = StepView::Ask { provider: None, ops, then: ThenView::ToggleOn };
    let next = disk_laws::answered(u, step, reply, now).1;
    reveal(provider::learned);
    reveal(resume::going_on);
    reveal(resume::command_going_on);
    reveal(commands::toggle_goes_on);
    reveal(steps::left_raw);
    reveal(steps::left_done);
    reveal(moves::placed);
    assert(provider::learned(u, None, reply.info) == u);
    if u.current_id.len() <= 2 {
        assert(next->ops[0] == OpView::Fetch);
    }
}

/// The error of a command is shown, and nothing else follows from it.
pub proof fn law_error_of_a_command_is_shown(
    u: Ui,
    root: usize,
    ops: Seq<OpView>,
    reply: ReplyView,
    now: u64,
)
    ensures
        ({
            let step = StepView::Ask { provider: Some(root), ops, then: ThenView::Commanded };
            let (v, next) = disk_laws::answered(u, step, reply, now);
            &&& next is Done
            &&& v.ffon == u.ffon
            &&& v.current_id == u.current_id
            &&& v.coordinate == u.coordinate
            &&& v.error_message == match reply.error {
                Some(e) => e,
                None => u.error_message,
            }
        }),
{
    reveal(provider::learned);
    reveal(resume::going_on);
    reveal(resume::command_going_on);
    reveal(resume::search_going_on);
    reveal(provider::command_noted);
}

/// Where a tree was built for a provider, it is that of this provider, and no
/// other one changes. A position that leads to an element in the tree is taken,
/// and the element selected in its layer.
pub proof fn law_rebuilt_tree_is_shown(u: Ui, v: RebuildView, id: Seq<usize>)
    requires
        v.provider < u.ffon.len(),
    ensures
        ({
            let w = rebuild::position_restored(rebuild::installed(u, v), id);
            &&& w.ffon.len() == u.ffon.len()
            &&& w.ffon[v.provider as int] == (Node::Obj { key: v.key, children: v.tree })
            &&& forall|i: int|
                0 <= i < u.ffon.len() && i != v.provider ==> #[trigger] w.ffon[i] == u.ffon[i]
            &&& ffon::element_at(w.ffon, id) is Some ==> {
                &&& w.current_id == id
                &&& w.list_index == id.last()
            }
            &&& w.providers == u.providers
            &&& w.coordinate == u.coordinate
        }),
{
    reveal(rebuild::installed);
    reveal(rebuild::position_restored);
    let w = rebuild::position_restored(rebuild::installed(u, v), id);
    if ffon::element_at(w.ffon, id) is Some {
        reveal(ffon::layer_of);
        rebuild::law_clamped_keeps(w.ffon, id);
    }
}

/// An image that is drawn again stays where it is, and is not given up for
/// another one as long as there is one that was not drawn in this frame.
pub proof fn law_drawn_image_is_kept(v: CacheView, i: int, j: int, path: Seq<char>)
    requires
        image::holds(v.cache, i, path),
        0 <= j < v.cache.len(),
        v.cache[j] matches Some(t) ==> t.last_used_frame < v.current_frame,
        i != j,
    ensures
        ({
            let w = image::drawn_now(v, i);
            &&& image::holds(w.cache, i, path)
            &&& w.cache[j] == v.cache[j]
            &&& w.draws == v.draws
            &&& !image::is_evicted(w.cache, i)
        }),
{
    let w = image::drawn_now(v, i);
    if image::is_evicted(w.cache, i) {
        image::law_longest_unused_goes_first(w.cache, i, j);
    }
}

/// What is sent to a server for a key is the key behind the word that names its
/// kind, and only to an address that starts with the origin of the key.
pub proof fn law_key_is_sent_to_its_origin(registry: Seq<CredentialView>, url: Seq<char>)
    ensures
        match auth::header_for(registry, url) {
            Some(h) => exists|i: int|
                #![trigger registry[i]]
                {
                    &&& 0 <= i < registry.len()
                    &&& url.len() >= registry[i].origin.len()
                    &&& url.take(registry[i].origin.len() as int) == registry[i].origin
                    &&& h == seq!['B', 'e', 'a', 'r', 'e', 'r', ' '] + registry[i].api_key
                },
            None => forall|i: int|
                0 <= i < registry.len() ==> !((#[trigger] registry[i]).origin.len() <= url.len()
                    && url.take(registry[i].origin.len() as int) == registry[i].origin),
        },
    decreases registry.len(),
{
    reveal_strlit("Bearer ");
    assert("Bearer "@ =~= seq!['B', 'e', 'a', 'r', 'e', 'r', ' ']);
    if registry.len() > 0 {
        let rest = registry.drop_first();
        if !markup::starts_with(url, registry[0].origin) {
            law_key_is_sent_to_its_origin(rest, url);
            if auth::header_for(rest, url) is Some {
                let h = auth::header_for(rest, url)->0;
                let i = choose|i: int|
                    #![trigger rest[i]]
                    {
                        &&& 0 <= i < rest.len()
                        &&& url.len() >= rest[i].origin.len()
                        &&& url.take(rest[i].origin.len() as int) == rest[i].origin
                        &&& h == seq!['B', 'e', 'a', 'r', 'e', 'r', ' '] + rest[i].api_key
                    };
                assert(registry[i + 1] == rest[i]);
            } else {
                assert forall|i: int| 0 <= i < registry.len() implies !((
                #[trigger] registry[i]).origin.len() <= url.len() && url.take(
                    registry[i].origin.len() as int,
                ) == registry[i].origin) by {
                    if i > 0 {
                        assert(registry[i] == rest[i - 1]);
                    }
                }
            }
        } else {
            assert(registry[0] == registry[0]);
        }
    }
}

/// The tree that speaks a text holds it as what changes in its last element,
/// and the selected item stays focused.
pub proof fn law_spoken_text_is_in_the_tree(
    u: Ui,
    spoken: Seq<char>,
    lang: Seq<char>,
    locale: Seq<char>,
)
    ensures
        ({
            let tree = accesskit_sdl::spoken_tree(u, spoken, lang, locale);
            let plain = accesskit_sdl::access_tree(u, locale);
            &&& tree.nodes.len() == 3
            &&& tree.nodes[0] == plain.nodes[0]
            &&& tree.nodes[1] == plain.nodes[1]
            &&& tree.nodes[2].id == plain.nodes[2].id
            &&& tree.nodes[2].live
            &&& tree.nodes[2].value == if spoken.len() == 0 {
                None
            } else {
                Some(spoken)
            }
            &&& tree.nodes[2].language == if lang.len() == 0 {
                locale
            } else {
                lang
            }
            &&& tree.focus == tree.nodes[1].id
        }),
{
}

/// The dark colours and the light ones have text and background the other way
/// round, and an error has one colour in both.
pub proof fn law_themes_are_each_other_reversed()
    ensures
        ({
            let dark = app_state::theme_palette(PaletteTheme::Dark);
            let light = app_state::theme_palette(PaletteTheme::Light);
            &&& dark.background == light.text
            &&& dark.text == light.background
            &&& dark.text == 0xFFFFFFFF
            &&& dark.background == 0x000000FF
            &&& dark.error == light.error
            &&& dark.error == 0xFF0000FF
        }),
{
}

/// A provider goes into the branch at the position, by its name without tags,
/// and it is fetched what is there; nothing is asked for at another element.
pub proof fn law_branch_is_gone_into(u: Ui, d: Disk)
    requires
        u.current_id.len() > 0,
        u.current_id[0] < u.providers.len(),
    ensures
        match moves::focused_node(u) {
            Some(Node::Obj { key, .. }) => {
                let step = paths::going_in(u);
                &&& step is Ask
                &&& step->provider == Some(u.current_id[0])
                &&& disk_laws::obeyed_all(d, step) == (Disk {
                    way: d.way.push(disk_laws::dir_of(d) + "/"@ + markup::display_text(key)),
                    ..d
                })
                &&& disk_laws::fetches(step)
            },
            _ => paths::going_in(u) is Done,
        },
{
    if moves::focused_node(u) matches Some(Node::Obj { key, .. }) {
        reveal_with_fuel(disk_laws::obeyed_first, 3);
        assert(paths::going_in(u)->ops[1] == OpView::Fetch);
    }
}

/// A tab that is entered shows its own providers and the settings, and selects
/// what was selected there; the tab that is left keeps its position and path.
pub proof fn law_tab_shows_what_it_kept(u: Ui, target: usize)
    requires
        u.active_tab < u.tabs.len(),
        target < u.tabs.len(),
        target != u.active_tab,
        u.providers.len() > 0,
        u.ffon.len() > 0,
        u.current_id.len() > 0,
        u.current_id[0] < u.providers.len(),
        u.tabs[target as int].current_id.len() > 0,
    ensures
        ({
            let v = app_state::tab_switched(u, target);
            let tab = u.tabs[target as int];
            &&& v.active_tab == target
            &&& v.current_id == tab.current_id
            &&& v.list_index == tab.current_id.last()
            &&& v.providers == tab.providers.push(u.providers.last())
            &&& v.ffon == tab.ffon.push(u.ffon.last())
            &&& v.tabs[u.active_tab as int].current_id == u.current_id
            &&& v.tabs[u.active_tab as int].provider_path
                == u.providers[u.current_id[0] as int].current_path
            &&& v.tabs[u.active_tab as int].providers.push(u.providers.last()) == u.providers
            &&& v.coordinate == u.coordinate
        }),
{
    let v = app_state::tab_switched(u, target);
    let tab = u.tabs[target as int];
    assert(v.providers =~= tab.providers.push(u.providers.last()));
    assert(v.ffon =~= tab.ffon.push(u.ffon.last()));
    assert(v.tabs[u.active_tab as int].providers.push(u.providers.last()) =~= u.providers);
}

/// The tree of a provider of files is built from a directory above, under the
/// name of the provider: from the highest one of those that were gone into as
/// long as each has a name, down through the names to the path.
pub proof fn law_tree_is_built_from_above(
    p: ProviderView,
    i: usize,
    path: Seq<char>,
    depth: nat,
    above: Seq<rebuild::AncestorView>,
)
    requires
        p.name != "settings"@,
        p.path_is_filesystem,
        above.len() > 0,
        depth > 1,
    ensures
        ({
            let v = rebuild::started(p, i, path, depth, above);
            let k = v.segments.len() as int;
            &&& v.key == p.display_name
            &&& v.provider == i
            &&& v.native
            &&& v.found == 0
            &&& !v.done
            &&& k < above.len()
            &&& k <= depth - 2
            &&& v.root == above[k].path
            &&& forall|j: int|
                0 <= j < k ==> #[trigger] above[k - 1 - j].name == Some(v.segments[j])
            &&& k < depth - 2 ==> k + 1 >= above.len() || above[k].name is None
        }),
{
    lemma_named(above, (depth - 2) as nat);
}

proof fn lemma_named(above: Seq<rebuild::AncestorView>, n: nat)
    requires
        above.len() > 0,
    ensures
        rebuild::named(above, n) <= n,
        rebuild::named(above, n) < above.len(),
        forall|j: int| 0 <= j < rebuild::named(above, n) ==> (#[trigger] above[j]).name is Some,
        rebuild::named(above, n) < n ==> rebuild::named(above, n) + 1 >= above.len()
            || above[rebuild::named(above, n) as int].name is None,
    decreases n,
{
    if n > 0 {
        lemma_named(above, (n - 1) as nat);
    }
}

/// When a layer of a tree that is built is there, it goes on below the branch
/// that leads to the path, and is done where there is none.
pub proof fn law_building_goes_into_the_branch(v: RebuildView, level: Seq<Node>, i: int)
    requires
        v.id.len() > 0,
        v.found < v.segments.len() < usize::MAX,
        0 <= i < level.len() <= usize::MAX,
        level[i] is Obj,
        markup::display_text(ffon::node_text(level[i])) == v.segments[v.found as int],
        forall|k: int|
            0 <= k < i && (#[trigger] level[k]) is Obj ==> markup::display_text(
                ffon::node_text(level[k]),
            ) != v.segments[v.found as int],
    ensures
        ({
            let w = rebuild::fetched(v, level);
            &&& w.id == move_laws::sibling(v.id, i).push(0)
            &&& w.found == v.found + 1
            &&& w.done == v.done
            &&& w.key == v.key
            &&& w.segments == v.segments
        }),
{
    lemma_branch_named(level, v.segments[v.found as int], i, 0);
    assert(ffon::with_last(v.id, i as usize) =~= move_laws::sibling(v.id, i));
}

proof fn lemma_branch_named(level: Seq<Node>, name: Seq<char>, i: int, from: int)
    requires
        0 <= from <= i < level.len(),
        level[i] is Obj,
        markup::display_text(ffon::node_text(level[i])) == name,
        forall|k: int|
            0 <= k < i && (#[trigger] level[k]) is Obj ==> markup::display_text(
                ffon::node_text(level[k]),
            ) != name,
    ensures
        rebuild::branch_named(level, name, from) == Some(i),
    decreases i - from,
{
    if from < i {
        assert(level[from] is Obj ==> markup::display_text(ffon::node_text(level[from])) != name);
        lemma_branch_named(level, name, i, from + 1);
    }
}

/// A step that put in an empty element is forgotten when what was meant is
/// created: the steps before it stay, and no more of them is undone than before.
pub proof fn law_step_of_an_empty_element_is_forgotten(tl: TimelineState, entry: EntryView)
    requires
        tl.entries.len() > 0,
        tl.entries.last() == entry,
        tl.position <= tl.entries.len(),
        entry is Structure,
    ensures
        ({
            let after = state::placeholder_dropped(tl);
            let empty = entry->Structure_op is Append || entry->Structure_op is Insert;
            &&& empty ==> {
                &&& after.entries == tl.entries.take(tl.entries.len() - 1)
                &&& tl.position < tl.entries.len() ==> after.position == tl.position
                &&& tl.position == tl.entries.len() ==> after.position == after.entries.len()
            }
            &&& !empty ==> after == tl
        }),
{
    assert(tl.entries.drop_last() =~= tl.entries.take(tl.entries.len() - 1));
}

} // verus!
