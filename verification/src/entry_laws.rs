//! What is asked of a provider when something is typed into an element or a
//! command is chosen, and what its answer leads to.

use vstd::prelude::*;

use crate::app_state;
use crate::app_state::{CommandPhase, Coordinate, ItemView, Ui};
use crate::commands;
use crate::disk_laws;
use crate::elements;
use crate::enter_laws;
use crate::events;
use crate::events::OutsideView;
use crate::ffon;
use crate::ffon::Node;
use crate::handlers;
use crate::insert;
use crate::list;
use crate::markup;
use crate::mode_laws;
use crate::move_laws;
use crate::moves;
use crate::provider;
use crate::provider::{OpView, ReplyView, StepView, ThenView};
use crate::resume;
use crate::save_laws;
use crate::shortcuts::Action;
use crate::state;
use crate::text;
use crate::timeline::{EntryView, FsOpKind};
use crate::tree_laws;

verus! {

/// An answer, and what the user interface knows of the provider then.
pub(crate) proof fn lemma_going_on(u: Ui, step: StepView, reply: ReplyView, now: u64)
    requires
        step is Ask,
        step->then is CommandDone || step->then is CommandExecuted || step->then is Created
            || step->then is EditCommitted,
    ensures
        ({
            let p = step->provider;
            let k = provider::learned(u, p, reply.info);
            let a = resume::answer_of(reply);
            let x = disk_laws::answered(u, step, reply, now);
            match step->then {
                ThenView::CommandDone => x == commands::command_handled(k, a, now),
                ThenView::CommandExecuted => x == (commands::executed(k), StepView::Done),
                ThenView::Created { name, id, is_dir, way } => x == insert::creation_done(
                    k,
                    p,
                    a,
                    name,
                    id,
                    is_dir,
                    way,
                    now,
                ),
                ThenView::EditCommitted { element } => x == insert::edit_done(
                    k,
                    p,
                    a,
                    element,
                    now,
                ),
                _ => true,
            }
        }),
{
    reveal(resume::going_on);
    reveal(resume::command_going_on);
    reveal(resume::search_going_on);
    reveal(resume::file_going_on);
    reveal(resume::edit_going_on);
}

/// The enter key on a command hands the command to the provider of the position,
/// with the element that it is for. What it offers then is a choice for that
/// command.
pub proof fn law_chosen_command_is_handed_over(u: Ui, item: ItemView, n: Node, o: OutsideView)
    requires
        u.coordinate is Command,
        u.current_command == CommandPhase::NoCommand,
        move_laws::item_shown(u) == Some(item),
        ffon::element_at(u.ffon, u.current_id) == Some(n),
        u.current_id[0] < u.providers.len(),
    ensures
        ({
            let (v, effects) = events::performed(u, Action::EnterCommand, o);
            &&& v.current_command == CommandPhase::Provider
            &&& v.provider_command_name == item.label
            &&& v.ffon == u.ffon
            &&& v.current_id == u.current_id
            &&& v.coordinate == u.coordinate
            &&& effects.step matches StepView::Ask { provider, ops, then } && {
                &&& provider == Some(u.current_id[0])
                &&& ops == seq![
                    OpView::HandleCommand {
                        command: item.label,
                        key: ffon::node_text(n),
                        is_branch: n is Obj,
                    },
                ]
                &&& then is CommandDone
            }
        }),
{
    reveal(events::performed);
    reveal(events::entered);
    reveal(commands::command_entered);
    reveal(commands::command_chosen);
    enter_laws::lemma_focused(u, n);
    assert(app_state::selected_item(u) == Some(item));
    reveal(moves::in_phase);
    reveal(handlers::with_command);
}

/// Where a command offers something, the enter key has the provider execute that
/// command with what was chosen; the command mode is left when that is done.
pub proof fn law_chosen_offer_is_executed(
    u: Ui,
    item: ItemView,
    o: OutsideView,
    reply: ReplyView,
    now: u64,
)
    requires
        u.coordinate is Command,
        u.current_command == CommandPhase::Provider,
        move_laws::item_shown(u) == Some(item),
        u.current_id.len() > 0,
        u.current_id[0] < u.providers.len(),
    ensures
        ({
            let (v, effects) = events::performed(u, Action::EnterCommand, o);
            let (w, end) = disk_laws::answered(v, effects.step, reply, now);
            let value = if item.nav_path is Some {
                item.nav_path->0
            } else if item.data is Some {
                item.data->0
            } else {
                item.label
            };
            &&& v == u
            &&& effects.step matches StepView::Ask { provider, ops, .. } && {
                &&& provider == Some(u.current_id[0])
                &&& ops == seq![
                    OpView::ExecuteCommand { command: u.provider_command_name, item: value },
                ]
            }
            &&& w.coordinate == u.previous_coordinate
            &&& w.current_command == CommandPhase::NoCommand
            &&& w.ffon == u.ffon
            &&& w.current_id == u.current_id
            &&& end == StepView::Done
        }),
{
    assert(app_state::selected_item(u) == Some(item));
    let (v, effects) = events::performed(u, Action::EnterCommand, o);
    assert((v, effects) == events::outcome(commands::offer_chosen(u, o.now))) by {
        reveal(events::performed);
        reveal(events::entered);
        reveal(commands::command_entered);
    }
    reveal(commands::offer_chosen);
    lemma_going_on(v, effects.step, reply, now);
    let k = provider::learned(u, effects.step->provider, reply.info);
    disk_laws::lemma_learned(u, effects.step->provider, reply);
    assert(k.previous_coordinate == u.previous_coordinate) by {
        reveal(provider::learned);
    }
    let s = moves::left_mode(moves::in_phase(k, CommandPhase::NoCommand));
    assert(s.coordinate == u.previous_coordinate && s.current_command == CommandPhase::NoCommand
        && s.ffon == u.ffon && s.current_id == u.current_id) by {
        reveal(moves::left_mode);
        reveal(moves::in_phase);
    }
    list::law_listing_keeps_the_rest(s);
    reveal(commands::executed);
    reveal(handlers::list_left);
    reveal(moves::list_scrolled);
    reveal(moves::at_position);
    reveal(moves::redrawn);
}

/// The element that a command made is put behind the current one, and edited.
pub proof fn law_made_element_is_put_in_and_edited(
    u: Ui,
    layer: Seq<Node>,
    new: Node,
    step: StepView,
    reply: ReplyView,
    now: u64,
)
    requires
        step is Ask,
        step->then is CommandDone,
        reply.element == Some(new),
        u.current_id.len() > 0,
        ffon::layer_of(u.ffon, u.current_id) == Some(layer),
        u.current_id.last() < layer.len() < usize::MAX,
        enter_laws::untagged(ffon::node_text(layer[u.current_id.last() as int])),
    ensures
        ({
            let (v, end) = disk_laws::answered(u, step, reply, now);
            let i = u.current_id.last() + 1;
            &&& tree_laws::differ_at(
                u.ffon,
                v.ffon,
                u.current_id.drop_last(),
                layer,
                layer.insert(i, new),
            )
            &&& v.current_id == move_laws::sibling(u.current_id, i)
            &&& v.coordinate == Coordinate::Insert
            &&& v.current_command == CommandPhase::NoCommand
            &&& end == StepView::Done
        }),
{
    lemma_going_on(u, step, reply, now);
    let p = step->provider;
    let k = provider::learned(u, p, reply.info);
    disk_laws::lemma_learned(u, p, reply);
    let e = commands::error_reported(k, resume::answer_of(reply));
    assert(e.ffon == u.ffon && e.current_id == u.current_id) by {
        reveal(commands::error_reported);
    }
    let id = u.current_id;
    let i = (id.last() + 1) as usize;
    let n = layer[id.last() as int];
    enter_laws::lemma_focused(e, n);
    mode_laws::lemma_no_input(ffon::node_text(n));
    lemma_not_blank(ffon::node_text(n));
    assert(!commands::at_blank(e));
    let m = commands::element_inserted(e, new);
    tree_laws::lemma_layered(u.ffon, id, layer, layer.insert(i as int, new));
    move_laws::lemma_sibling(u.ffon, id, i);
    assert(m.ffon == ffon::with_layer(u.ffon, id, layer.insert(i as int, new)) && m.current_id
        == move_laws::sibling(id, i as int)) by {
        reveal(commands::element_inserted);
    }
    let s = moves::in_mode(
        moves::in_phase(m, CommandPhase::NoCommand),
        Coordinate::General,
    );
    assert(s.ffon == m.ffon && s.current_id == m.current_id && s.coordinate is General
        && s.current_command == CommandPhase::NoCommand) by {
        reveal(moves::in_mode);
        reveal(moves::in_phase);
    }
    list::law_listing_keeps_the_rest(s);
    let t = moves::list_scrolled(moves::at_position(list::listed(s)), 0);
    assert(t.ffon == m.ffon && t.current_id == m.current_id && t.coordinate is General
        && t.current_command == CommandPhase::NoCommand) by {
        reveal(moves::list_scrolled);
        reveal(moves::at_position);
    }
    mode_laws::lemma_editing(t, false, now);
    assert(handlers::editing_started(t, false, now).current_command == t.current_command) by {
        reveal(handlers::editing_started);
        reveal(moves::entered);
        reveal(handlers::populated);
        reveal(moves::with_parts);
        reveal(moves::with_cursor);
        reveal(moves::unselected);
        reveal(moves::touched);
    }
    reveal(commands::command_handled);
    reveal(commands::command_made);
    reveal(commands::command_left);
}

/// A text without tags is no empty element.
proof fn lemma_not_blank(s: Seq<char>)
    requires
        enter_laws::untagged(s),
    ensures
        !elements::is_blank_input(s),
{
    assert(enter_laws::is_tag("<input>"@) && enter_laws::is_tag("<input-all>"@)) by {
        reveal_strlit("<input>");
        reveal_strlit("<input-all>");
    }
    enter_laws::lemma_tag_at(s, "<input>"@, 0, s.len() as int);
    enter_laws::lemma_tag_at(s, "<input-all>"@, 0, s.len() as int);
}

/// What the enter key leads to in a leaf with one input.
proof fn lemma_leaf_entered(u: Ui, t: Seq<char>, o: OutsideView)
    requires
        ffon::element_at(u.ffon, u.current_id) == Some(
            Node::Str("<input>"@ + t + "</input>"@),
        ),
        enter_laws::untagged(t),
        t.len() > 0 ==> t.last() != '\\',
    ensures
        ({
            let key = "<input>"@ + t + "</input>"@;
            &&& events::performed(u, Action::EnterInsert, o) == events::outcome(
                insert::text_entered(u, key, false, o.save_dir),
            )
            &&& handlers::editable_text(key) == Some(t)
            &&& !markup::is_input_all(key)
        }),
{
    let none = Seq::<char>::empty();
    let key = "<input>"@ + t + "</input>"@;
    let n = Node::Str(key);
    assert(none + "<input>"@ + t + "</input>"@ + none =~= key);
    mode_laws::lemma_input_parts(n, none, t, none);
    enter_laws::lemma_focused(u, n);
    reveal(events::performed);
    reveal(events::entered);
    reveal(insert::edit_entered);
}

/// The element of a leaf with one input when another text was typed into it.
proof fn lemma_leaf_edited(u: Ui, t: Seq<char>)
    requires
        !markup::is_input_all("<input>"@ + t + "</input>"@),
        u.input_prefix.len() == 0,
        u.input_suffix.len() == 0,
    ensures
        insert::edited_element(u, "<input>"@ + t + "</input>"@, false) == Node::Str(
            "<input>"@ + u.input_buffer + "</input>"@,
        ),
        insert::label_of(u.input_prefix).len() == 0,
{
    let none = Seq::<char>::empty();
    assert(u.input_prefix =~= none && u.input_suffix =~= none);
    assert(none + "<input>"@ + u.input_buffer + "</input>"@ + none =~= "<input>"@
        + u.input_buffer + "</input>"@);
}

/// What is asked for when another text was typed into a leaf with one input.
spec fn edit_asked(u: Ui, t: Seq<char>) -> StepView {
    StepView::Ask {
        provider: Some(u.current_id[0]),
        ops: seq![
            OpView::CommitEdit { before: t, after: u.input_buffer },
            OpView::TakeErrorOfFailure,
        ],
        then: ThenView::EditCommitted {
            element: Node::Str("<input>"@ + u.input_buffer + "</input>"@),
        },
    }
}

proof fn lemma_edit_asked(u: Ui, t: Seq<char>, o: OutsideView)
    requires
        ffon::element_at(u.ffon, u.current_id) == Some(
            Node::Str("<input>"@ + t + "</input>"@),
        ),
        u.current_id.len() > 0,
        u.current_id[0] < u.providers.len(),
        enter_laws::untagged(t),
        t.len() > 0,
        t.last() != '\\',
        u.input_buffer != t,
        u.input_prefix.len() == 0,
        u.input_suffix.len() == 0,
    ensures
        events::performed(u, Action::EnterInsert, o) == (u, events::only(edit_asked(u, t))),
{
    let key = "<input>"@ + t + "</input>"@;
    lemma_leaf_entered(u, t, o);
    lemma_leaf_edited(u, t);
    assert(insert::entry_kind(u, key, false, t) == insert::Entry::Edit);
    assert(insert::text_entered(u, key, false, o.save_dir) == (
        u,
        insert::commit_started(u, key, false),
    )) by {
        reveal(insert::text_entered);
    }
}

/// The enter key hands what was typed into an element to the provider, together
/// with what was there before, and the element has the new text between its tags
/// then.
pub proof fn law_typed_text_is_handed_over(
    u: Ui,
    layer: Seq<Node>,
    t: Seq<char>,
    o: OutsideView,
    reply: ReplyView,
    now: u64,
)
    requires
        u.coordinate is Insert,
        u.current_id.len() > 0,
        u.current_id[0] < u.providers.len(),
        ffon::layer_of(u.ffon, u.current_id) == Some(layer),
        u.current_id.last() < layer.len(),
        layer[u.current_id.last() as int] == Node::Str("<input>"@ + t + "</input>"@),
        enter_laws::untagged(t),
        t.len() > 0,
        t.last() != '\\',
        u.input_buffer != t,
        u.input_prefix.len() == 0,
        u.input_suffix.len() == 0,
        reply.ok,
    ensures
        ({
            let (v, effects) = events::performed(u, Action::EnterInsert, o);
            let (w, next) = disk_laws::answered(v, effects.step, reply, now);
            let i = u.current_id.last() as int;
            let new = Node::Str("<input>"@ + u.input_buffer + "</input>"@);
            &&& v == u
            &&& effects.step matches StepView::Ask { provider, ops, .. } && {
                &&& provider == Some(u.current_id[0])
                &&& ops.len() > 0
                &&& ops[0] == OpView::CommitEdit { before: t, after: u.input_buffer }
            }
            &&& tree_laws::differ_at(
                u.ffon,
                w.ffon,
                u.current_id.drop_last(),
                layer,
                layer.update(i, new),
            )
            &&& w.current_id == u.current_id
            &&& disk_laws::fetches(next)
        }),
{
    let id = u.current_id;
    let i = id.last() as int;
    let new = Node::Str("<input>"@ + u.input_buffer + "</input>"@);
    let step = edit_asked(u, t);
    lemma_edit_asked(u, t, o);
    lemma_going_on(u, step, reply, now);
    let p = step->provider;
    let k = provider::learned(u, p, reply.info);
    disk_laws::lemma_learned(u, p, reply);
    let a = resume::answer_of(reply);
    let f = provider::failure_noted(k, p, a);
    assert(f.ffon == u.ffon && f.current_id == id && f.providers.len() == u.providers.len()) by {
        reveal(provider::failure_noted);
    }
    tree_laws::lemma_layered(u.ffon, id, layer, layer.update(i, new));
    let w = moves::node_replaced(f, id.last(), new);
    assert(w.ffon == ffon::with_layer(u.ffon, id, layer.update(i, new)) && w.current_id == id) by {
        reveal(moves::node_replaced);
    }
    let next = provider::fetching(w, ThenView::EditFetched);
    assert(disk_laws::answered(u, step, reply, now) == (w, next)) by {
        reveal(insert::edit_done);
    }
    assert(next->ops[0] == OpView::Fetch);
}

/// Whether a name has no white space at its ends and no colon behind it.
pub open spec fn is_name(s: Seq<char>) -> bool {
    s.len() > 0 && !text::is_white(s[0]) && !text::is_white(s.last()) && s.last() != ':'
}

/// What a name that is typed into the file browser asks for: a minus before it
/// asks for a file and a plus for a directory; without either a colon behind it
/// asks for a directory, and anything else for a file.
pub proof fn law_names_tell_files_from_directories(name: Seq<char>)
    requires
        is_name(name),
    ensures
        elements::creation(seq!['-'] + name) == (true, false, name),
        elements::creation(seq!['-', ' '] + name) == (true, false, name),
        elements::creation(seq!['+'] + name) == (false, true, name),
        elements::creation(seq!['+', ' '] + name) == (false, true, name),
        name[0] != '-' && name[0] != '+' ==> {
            &&& elements::creation(name) == (true, false, name)
            &&& elements::creation(name + seq![':']) == (false, true, name)
        },
{
    assert((seq!['-'] + name).drop_first() =~= name);
    assert((seq!['+'] + name).drop_first() =~= name);
    let spaced = seq![' '] + name;
    assert((seq!['-', ' '] + name).drop_first() =~= spaced);
    assert((seq!['+', ' '] + name).drop_first() =~= spaced);
    assert(spaced.drop_first() =~= name);
    assert(text::trimmed_start(name) == name);
    assert(text::trimmed_start(spaced) == name);
    assert(text::trimmed(name) == name);
    let c = name + seq![':'];
    assert(c.drop_last() =~= name);
    assert(text::trimmed_start(c) == c);
    assert(text::trimmed(c) == c);
    assert(text::without_trailing(c, ':') == text::without_trailing(name, ':'));
}

/// A name that is typed into an empty element of the file browser has a file or
/// a directory of that name created, and when that is done the step can be taken
/// back.
pub proof fn law_typed_name_creates_a_file(
    u: Ui,
    n: Node,
    name: Seq<char>,
    is_dir: bool,
    o: OutsideView,
    reply: ReplyView,
    now: u64,
)
    requires
        u.coordinate is Insert,
        app_state::tabs_ok(u),
        !u.in_history_action,
        u.current_id.len() > 0,
        u.current_id[0] < u.providers.len(),
        ffon::element_at(u.ffon, u.current_id) == Some(n),
        ffon::node_text(n) == "<input></input>"@,
        u.placeholder_insert_mode,
        !u.pending_file_browser_save_as,
        is_name(name),
        u.input_buffer == (if is_dir {
            seq!['+', ' ']
        } else {
            seq!['-', ' ']
        }) + name,
        reply.ok,
    ensures
        ({
            let (v, effects) = events::performed(u, Action::EnterInsert, o);
            let (w, next) = disk_laws::answered(v, effects.step, reply, now);
            &&& v == u
            &&& effects.step matches StepView::Ask { provider, ops, .. } && {
                &&& provider == Some(u.current_id[0])
                &&& ops.len() > 0
                &&& ops[0] == if is_dir {
                    OpView::CreateDirectory(name)
                } else {
                    OpView::CreateFile(name)
                }
            }
            &&& w.tab_timelines[w.active_tab as int].entries.len() > 0
            &&& w.tab_timelines[w.active_tab as int].position == 0
            &&& w.tab_timelines[w.active_tab as int].entries.last() matches EntryView::FsOp {
                provider_idx,
                id,
                op,
                after,
                ..
            } && {
                &&& provider_idx == u.current_id[0]
                &&& id == u.current_id
                &&& op == FsOpKind::Create
                &&& after == Some(
                    if is_dir {
                        Node::Obj { key: name, children: Seq::empty() }
                    } else {
                        Node::Str(name)
                    },
                )
            }
            &&& !w.placeholder_insert_mode
            &&& disk_laws::fetches(next)
        }),
{
    let step = insert::creating(u, is_dir, name, provider::Creation::Prefixed);
    lemma_name_entered(u, n, name, is_dir, o);
    lemma_going_on(u, step, reply, now);
    let p = step->provider;
    let k = provider::learned(u, p, reply.info);
    assert(k.tab_timelines == u.tab_timelines && k.active_tab == u.active_tab && k.tabs == u.tabs
        && !k.in_history_action) by {
        reveal(provider::learned);
    }
    let f = provider::failure_noted(k, p, resume::answer_of(reply));
    assert(f.tab_timelines == u.tab_timelines && f.active_tab == u.active_tab && f.tabs == u.tabs
        && !f.in_history_action) by {
        reveal(provider::failure_noted);
    }
    lemma_creation_recorded(f, u.current_id, is_dir, name, now);
    let r = insert::creation_recorded(f, u.current_id, is_dir, name, now);
    let w = handlers::asking_for_names(r, false);
    let next = provider::fetching(
        w,
        ThenView::CreatedFetched { name, way: provider::Creation::Prefixed },
    );
    assert(w.tab_timelines == r.tab_timelines && w.active_tab == r.active_tab
        && !w.placeholder_insert_mode) by {
        reveal(handlers::asking_for_names);
    }
    assert(disk_laws::answered(u, step, reply, now) == (w, next)) by {
        reveal(insert::creation_done);
    }
    assert(next->ops[0] == OpView::Fetch);
}

proof fn lemma_name_entered(u: Ui, n: Node, name: Seq<char>, is_dir: bool, o: OutsideView)
    requires
        ffon::element_at(u.ffon, u.current_id) == Some(n),
        ffon::node_text(n) == "<input></input>"@,
        u.placeholder_insert_mode,
        !u.pending_file_browser_save_as,
        is_name(name),
        u.input_buffer == (if is_dir {
            seq!['+', ' ']
        } else {
            seq!['-', ' ']
        }) + name,
    ensures
        events::performed(u, Action::EnterInsert, o) == (
            u,
            events::only(insert::creating(u, is_dir, name, provider::Creation::Prefixed)),
        ),
{
    let key = ffon::node_text(n);
    lemma_empty(n);
    enter_laws::lemma_focused(u, n);
    assert(elements::creation(u.input_buffer) == (!is_dir, is_dir, name)) by {
        law_names_tell_files_from_directories(name);
    }
    assert(u.input_buffer.len() > 0);
    let kind = insert::entry_kind(
        u,
        key,
        n is Obj,
        elements::or_empty(handlers::editable_text(key)),
    );
    assert(kind == insert::Entry::Prefixed);
    assert(insert::prefixed_entered(u) == (
        u,
        insert::creating(u, is_dir, name, provider::Creation::Prefixed),
    )) by {
        reveal(insert::prefixed_entered);
    }
    assert(insert::text_entered(u, key, n is Obj, o.save_dir) == insert::prefixed_entered(u)) by {
        reveal(insert::text_entered);
    }
    reveal(events::performed);
    reveal(events::entered);
    reveal(insert::edit_entered);
}

pub(crate) proof fn lemma_empty(n: Node)
    requires
        ffon::node_text(n) == "<input></input>"@,
    ensures
        markup::is_input(ffon::node_text(n)),
        elements::or_empty(handlers::editable_text(ffon::node_text(n))) == Seq::<char>::empty(),
{
    let none = Seq::<char>::empty();
    assert(none + "<input>"@ + none + "</input>"@ + none =~= "<input></input>"@) by {
        reveal_strlit("<input>");
        reveal_strlit("</input>");
        reveal_strlit("<input></input>");
    }
    mode_laws::lemma_input_parts(n, none, none, none);
}

proof fn lemma_creation_recorded(f: Ui, id: Seq<usize>, is_dir: bool, name: Seq<char>, now: u64)
    requires
        app_state::tabs_ok(f),
        !f.in_history_action,
    ensures
        ({
            let r = insert::creation_recorded(f, id, is_dir, name, now);
            let tl = r.tab_timelines[r.active_tab as int];
            &&& r.active_tab == f.active_tab
            &&& tl.entries.len() > 0
            &&& tl.position == 0
            &&& tl.entries.last() == insert::creation_entry(id, is_dir, name)
        }),
{
    reveal(app_state::timelines_ok);
    reveal(insert::creation_recorded);
    reveal(state::step_dropped);
    let d = state::step_dropped(f);
    assert(d.tab_timelines.len() == f.tab_timelines.len() && d.active_tab == f.active_tab
        && !d.in_history_action);
}

/// What is asked for when a name is typed into an empty element: in a branch a
/// directory, in a leaf a file; where the input spans the element a colon behind
/// the name tells a directory.
pub proof fn law_typed_name_is_created(
    u: Ui,
    n: Node,
    spanning: bool,
    o: OutsideView,
)
    requires
        u.coordinate is Insert,
        u.current_id.len() > 0,
        u.current_id[0] < u.providers.len(),
        ffon::element_at(u.ffon, u.current_id) == Some(n),
        ffon::node_text(n) == (if spanning {
            "<input-all></input-all>"@
        } else {
            "<input></input>"@
        }),
        !u.placeholder_insert_mode,
        !u.pending_file_browser_save_as,
        u.input_prefix.len() == 0,
        is_name(u.input_buffer) || spanning && u.input_buffer.len() > 1 && u.input_buffer.last()
            == ':' && is_name(u.input_buffer.drop_last()),
    ensures
        ({
            let (v, effects) = events::performed(u, Action::EnterInsert, o);
            let t = u.input_buffer;
            &&& v == u
            &&& effects.step matches StepView::Ask { provider, ops, then } && {
                &&& provider == Some(u.current_id[0])
                &&& ops.len() > 0
                &&& ops[0] == if spanning && t.last() == ':' {
                    OpView::CreateDirectory(t.drop_last())
                } else if !spanning && n is Obj {
                    OpView::CreateDirectory(t)
                } else {
                    OpView::CreateFile(t)
                }
                &&& then matches ThenView::Created { id, .. } && id == u.current_id
            }
        }),
{
    let key = ffon::node_text(n);
    if spanning {
        lemma_empty_spanning(key);
    } else {
        lemma_empty(n);
        lemma_empty_not_spanning(key);
    }
    enter_laws::lemma_focused(u, n);
    let t = u.input_buffer;
    let kind = insert::entry_kind(
        u,
        key,
        n is Obj,
        elements::or_empty(handlers::editable_text(key)),
    );
    assert(kind == if spanning {
        insert::Entry::Spanning
    } else if n is Obj {
        insert::Entry::Branch
    } else {
        insert::Entry::Leaf
    });
    if spanning && t.last() == ':' {
        let name = t.drop_last();
        assert(text::without_trailing(t, ':') == text::without_trailing(name, ':'));
        assert(text::without_trailing(name, ':') == name);
        assert(text::trimmed(name) == name);
    }
    reveal(events::performed);
    reveal(events::entered);
    reveal(insert::edit_entered);
    reveal(insert::text_entered);
    reveal(insert::spanning_entered);
}

proof fn lemma_empty_spanning(key: Seq<char>)
    requires
        key == "<input-all></input-all>"@,
    ensures
        markup::is_input_all(key),
        elements::or_empty(handlers::editable_text(key)) == Seq::<char>::empty(),
{
    let none = Seq::<char>::empty();
    let open = "<input-all>"@;
    let close = "</input-all>"@;
    assert(none + open + none + close + none =~= key && enter_laws::is_tag(open)
        && enter_laws::is_tag(close) && open.last() != '\\') by {
        reveal_strlit("<input-all>");
        reveal_strlit("</input-all>");
        reveal_strlit("<input-all></input-all>");
    }
    enter_laws::law_text_is_found_between_tags(none, open, none, close, none);
}

proof fn lemma_empty_not_spanning(key: Seq<char>)
    requires
        key == "<input></input>"@,
    ensures
        !markup::is_input_all(key),
{
    let none = Seq::<char>::empty();
    assert(none + "<input>"@ + none + "</input>"@ + none =~= "<input></input>"@) by {
        reveal_strlit("<input>");
        reveal_strlit("</input>");
        reveal_strlit("<input></input>");
    }
    mode_laws::lemma_not_spanning(none, none, none);
}

/// Where the text of an element was not changed, the enter key fetches what there
/// is and hands nothing over; where a name to save under is asked for, it is
/// looked whether a file of that name is there.
pub proof fn law_other_entries(u: Ui, t: Seq<char>, o: OutsideView)
    requires
        u.coordinate is Insert,
        u.current_id.len() > 0,
        u.current_id[0] < u.providers.len(),
        ffon::element_at(u.ffon, u.current_id) == Some(
            Node::Str("<input>"@ + t + "</input>"@),
        ),
        enter_laws::untagged(t),
        t.len() > 0 ==> t.last() != '\\',
    ensures
        u.input_buffer == t ==> {
            let (v, effects) = events::performed(u, Action::EnterInsert, o);
            &&& v == u
            &&& effects.step matches StepView::Ask { provider, ops, .. } && provider == Some(
                u.current_id[0],
            ) && ops == seq![OpView::Fetch, OpView::TakeError]
        },
        t.len() == 0 && u.input_buffer.len() > 0 && u.pending_file_browser_save_as
            && !markup::ends_with(u.input_buffer, ".json"@) ==> {
            let (v, effects) = events::performed(u, Action::EnterInsert, o);
            &&& v == u
            &&& effects.step matches StepView::Ask { ops, .. } && ops == seq![
                OpView::Exists(o.save_dir + "/"@ + (u.input_buffer + ".json"@)),
            ]
        },
{
    let key = "<input>"@ + t + "</input>"@;
    lemma_leaf_entered(u, t, o);
    if u.input_buffer == t {
        assert(insert::text_entered(u, key, false, o.save_dir) == (
            u,
            provider::fetching(u, ThenView::EditUnchanged),
        )) by {
            reveal(insert::text_entered);
        }
    } else if t.len() == 0 && u.pending_file_browser_save_as && !markup::ends_with(
        u.input_buffer,
        ".json"@,
    ) {
        assert(insert::text_entered(u, key, false, o.save_dir) == (
            u,
            crate::saving::naming_started(o.save_dir, u.input_buffer),
        )) by {
            reveal(insert::text_entered);
        }
        save_laws::law_saved_name_has_its_suffix(o.save_dir, u.input_buffer);
    }
}

} // verus!
