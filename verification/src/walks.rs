//! What a whole step back or forth through the timeline leaves alone, whatever
//! the providers answer on the way.

use vstd::prelude::*;

use crate::app_state::{History, TimelineState, Ui};
use crate::commands;
use crate::ffon;
use crate::ffon::Node;
use crate::handlers;
use crate::history;
use crate::list;
use crate::moves;
use crate::provider;
use crate::provider::{ReplyView, StepView, ThenView};
use crate::resume;
use crate::state;
use crate::steps;
use crate::timeline::{EntryView, PayloadView, StructuralOp};

verus! {

/// Where a step has come to, after as many answers as there are.
pub open spec fn run(u: Ui, step: StepView, answers: Seq<ReplyView>, now: u64) -> steps::Outcome
    decreases answers.len(),
{
    match step {
        StepView::Ask { provider, then, .. } if answers.len() > 0 => {
            let (v, next) = resume::resumed(u, provider, then, answers[0], now);
            run(v, next, answers.drop_first(), now)
        },
        _ => (u, step),
    }
}

/// What a step back leads to in the end, with the answers to what it asks for.
pub open spec fn back(u: Ui, answers: Seq<ReplyView>, now: u64) -> steps::Outcome {
    let (v, step) = history::walked_back(u, now);
    run(v, step, answers, now)
}

/// What a step forth leads to in the end, with the answers to what it asks for.
pub open spec fn forth(u: Ui, answers: Seq<ReplyView>, now: u64) -> steps::Outcome {
    let (v, step) = history::walked_forward(u, now);
    run(v, step, answers, now)
}

/// Whether `v` is where `u` is in its timelines, in the same mode.
spec fn keeps(u: Ui, v: Ui) -> bool {
    &&& v.in_history_action == u.in_history_action
    &&& v.active_tab == u.active_tab
    &&& v.tab_timelines == u.tab_timelines
    &&& v.coordinate == u.coordinate
}

/// Whether `then` is a part of a step back or forth.
spec fn is_part(then: ThenView) -> bool {
    then is Undone || then is UndoFetched || then is HistoryFetched || then is ProviderUndone
        || then is FsUndone || then is FsTidied || then is FsRenamed || then is FsEntered
        || then is FsLeft
}

/// Whether a step back or forth goes on with `step`.
spec fn goes_on(step: StepView) -> bool {
    step matches StepView::Ask { then, .. } && is_part(then)
}

proof fn lemma_put_back(u: Ui, id: Seq<usize>, n: Node)
    ensures
        keeps(u, history::put_back(u, id, n)),
        history::put_back(u, id, n).current_id == id,
        history::put_back(u, id, n).ffon == ffon::replaced(
            u.ffon,
            id,
            ffon::last_or_zero(id) as int,
            n,
        ),
{
    reveal(moves::placed);
    reveal(moves::replaced_at);
}

proof fn lemma_put_in(u: Ui, id: Seq<usize>, n: Node)
    ensures
        keeps(u, history::put_in(u, id, n)),
{
    reveal(moves::placed);
    reveal(moves::inserted_at);
    reveal(history::placeholder_cleared);
}

proof fn lemma_taken_back(u: Ui, id: Seq<usize>, h: History, now: u64)
    requires
        h != History::NoHistory,
    ensures
        keeps(u, history::taken_back(u, id, h, now)),
{
    let p = moves::placed(u, id);
    let t = state::tasked(p, crate::app_state::Task::Delete, h, now);
    assert(keeps(u, t)) by {
        reveal(moves::placed);
        reveal(state::tasked);
    }
    list::law_listing_keeps_the_rest(t);
    reveal(moves::redrawn);
    reveal(history::placeholder_upgraded);
}

proof fn lemma_syncing(u: Ui, id: Seq<usize>)
    ensures
        history::syncing(u, id) matches StepView::Ask { then, .. } && then is Undone,
{
}

proof fn lemma_structure(
    u: Ui,
    id: Seq<usize>,
    op: StructuralOp,
    payload: PayloadView,
    now: u64,
)
    ensures
        keeps(u, history::structure_undone(u, id, op, payload, now).0),
        goes_on(history::structure_undone(u, id, op, payload, now).1),
        keeps(u, history::structure_redone(u, id, op, payload, now).0),
        goes_on(history::structure_redone(u, id, op, payload, now).1),
{
    reveal(history::structure_undone);
    reveal(history::structure_redone);
    lemma_taken_back(u, id, History::Undo, now);
    lemma_taken_back(u, id, History::Redo, now);
    match payload {
        PayloadView::Inserted(n) => lemma_put_in(u, id, n),
        PayloadView::Removed(n) => lemma_put_in(u, id, n),
        PayloadView::Pasted { before, after } => {
            lemma_put_back(u, id, before);
            lemma_put_back(u, id, after);
        },
        PayloadView::Replaced { before, after } => {
            reveal(moves::placed);
            reveal(moves::replaced_at);
        },
    }
    reveal(history::one_before);
    reveal(history::not_behind);
    reveal(moves::placed_last);
}

proof fn lemma_undone(u: Ui, entry: EntryView, now: u64)
    ensures
        keeps(u, history::undone(u, entry, now).0),
        goes_on(history::undone(u, entry, now).1),
        keeps(u, history::redone(u, entry, now).0),
        goes_on(history::redone(u, entry, now).1),
{
    reveal(history::undone);
    reveal(history::redone);
    match entry {
        EntryView::Navigate { .. } => {
            reveal(history::navigated);
            reveal(moves::placed);
        },
        EntryView::TextChunk { id, before, after, .. } => {
            lemma_put_back(u, id, before);
            lemma_put_back(u, id, after);
        },
        EntryView::Structure { id, op, payload } => lemma_structure(u, id, op, payload, now),
        EntryView::FsOp { .. } => {
            reveal(history::files_undone);
            reveal(history::files_redone);
            reveal(moves::placed);
        },
        _ => {},
    }
}

/// What follows in a part of a step back or forth, in terms of that step alone.
proof fn lemma_part(u: Ui, p: Option<usize>, then: ThenView, reply: ReplyView, now: u64)
    requires
        is_part(then),
    ensures
        resume::resumed(u, p, then, reply, now) == resume::undo_going_on(
            provider::learned(u, p, reply.info),
            p,
            then,
            resume::answer_of(reply),
            now,
        ),
{
    reveal(resume::going_on);
    reveal(resume::command_going_on);
    reveal(resume::search_going_on);
    reveal(resume::file_going_on);
    reveal(resume::edit_going_on);
    reveal(resume::save_going_on);
}

/// A part of a step back or forth leads to its next part, or to its end.
proof fn lemma_resumed(u: Ui, p: Option<usize>, then: ThenView, reply: ReplyView, now: u64)
    requires
        is_part(then),
    ensures
        ({
            let (v, step) = resume::resumed(u, p, then, reply, now);
            if then is Undone {
                &&& step is Done
                &&& keeps(Ui { in_history_action: false, ..u }, v)
                &&& v.ffon == u.ffon
                &&& v.current_id == u.current_id
            } else {
                keeps(u, v) && goes_on(step)
            }
        }),
{
    lemma_part(u, p, then, reply, now);
    reveal(resume::undo_going_on);
    let k = provider::learned(u, p, reply.info);
    let answer = resume::answer_of(reply);
    assert(keeps(u, k) && k.ffon == u.ffon && k.current_id == u.current_id) by {
        reveal(provider::learned);
    }
    assert(keeps(k, provider::refreshed(k, p, answer))) by {
        reveal(provider::refreshed);
    }
    match then {
        ThenView::Undone => {
            reveal(history::not_walking);
            list::law_listing_keeps_the_rest(history::not_walking(k));
            reveal(moves::redrawn);
            reveal(moves::at_position);
            reveal(moves::list_scrolled);
        },
        ThenView::ProviderUndone { .. } => {
            reveal(history::undone_by_provider);
            reveal(moves::with_error);
        },
        ThenView::FsUndone { id, element } => {
            reveal(history::files_restored);
            assert(keeps(k, commands::error_reported(k, answer))) by {
                reveal(commands::error_reported);
            }
            if let Some(n) = element {
                lemma_put_in(commands::error_reported(k, answer), id, n);
            }
        },
        ThenView::FsTidied { id } => {
            reveal(history::layer_tidied);
            reveal(history::blank_inserted);
            reveal(history::not_behind);
            reveal(moves::placed_last);
        },
        ThenView::FsRenamed { id, element } => {
            reveal(moves::placed);
            reveal(moves::replaced_at);
            reveal(provider::refreshed);
        },
        ThenView::FsEntered => {
            reveal(moves::placed);
            reveal(steps::with_root_filled);
        },
        _ => {
            reveal(moves::placed);
        },
    }
}

/// A step back or forth that is done ends out of the timeline, where it went
/// to at its start.
proof fn lemma_run(u: Ui, step: StepView, answers: Seq<ReplyView>, now: u64)
    requires
        goes_on(step),
    ensures
        run(u, step, answers, now).1 is Done ==> keeps(
            Ui { in_history_action: false, ..u },
            run(u, step, answers, now).0,
        ),
    decreases answers.len(),
{
    reveal_with_fuel(run, 2);
    if answers.len() > 0 {
        let p = step->provider;
        let then = step->then;
        lemma_resumed(u, p, then, answers[0], now);
        let (v, next) = resume::resumed(u, p, then, answers[0], now);
        if !(then is Undone) {
            lemma_run(v, next, answers.drop_first(), now);
        }
    }
}

proof fn lemma_escaped(u: Ui, now: u64)
    requires
        u.coordinate is General,
    ensures
        keeps(u, handlers::escaped(u, now)),
        handlers::escaped(u, now).ffon == u.ffon,
{
    reveal(handlers::escaped);
    reveal(moves::touched);
    reveal(moves::in_mode);
    reveal(moves::unselected);
}

proof fn lemma_walking(u: Ui, position: int)
    requires
        0 <= u.active_tab < u.tab_timelines.len(),
        0 <= position <= usize::MAX,
    ensures
        ({
            let v = history::walking(u, position);
            &&& v.in_history_action
            &&& v.active_tab == u.active_tab
            &&& v.coordinate == u.coordinate
            &&& v.ffon == u.ffon
            &&& v.tab_timelines == u.tab_timelines.update(
                u.active_tab as int,
                TimelineState {
                    position: position as usize,
                    coalesce_break: true,
                    ..history::timeline_of(u)
                },
            )
        }),
{
    reveal(history::walking);
}

/// Where a step back starts: on the way through the timeline, with one more
/// step undone.
proof fn lemma_back(u: Ui, answers: Seq<ReplyView>, now: u64)
    requires
        u.coordinate is General,
        u.active_tab < u.tab_timelines.len(),
        history::timeline_of(u).position < history::timeline_of(u).entries.len() <= usize::MAX,
    ensures
        ({
            let tl = history::timeline_of(u);
            let v = back(u, answers, now).0;
            &&& back(u, answers, now).1 is Done ==> {
                &&& !v.in_history_action
                &&& v.coordinate is General
                &&& v.active_tab == u.active_tab
                &&& v.tab_timelines == u.tab_timelines.update(
                    u.active_tab as int,
                    TimelineState { position: (tl.position + 1) as usize, coalesce_break: true, ..tl },
                )
            }
        }),
{
    reveal(history::walked_back);
    reveal(history::step_back);
    let tl = history::timeline_of(u);
    let e = handlers::escaped(u, now);
    lemma_escaped(u, now);
    lemma_walking(e, tl.position + 1);
    let w = history::walking(e, tl.position + 1);
    let entry = tl.entries[tl.entries.len() - tl.position - 1];
    lemma_undone(w, entry, now);
    let (v, step) = history::undone(w, entry, now);
    lemma_run(v, step, answers, now);
}

/// Where a step forth starts: on the way through the timeline, with one step
/// less undone.
proof fn lemma_forth(u: Ui, answers: Seq<ReplyView>, now: u64)
    requires
        u.coordinate is General,
        u.active_tab < u.tab_timelines.len(),
        0 < history::timeline_of(u).position <= history::timeline_of(u).entries.len(),
    ensures
        ({
            let tl = history::timeline_of(u);
            let v = forth(u, answers, now).0;
            &&& forth(u, answers, now).1 is Done ==> {
                &&& !v.in_history_action
                &&& v.coordinate is General
                &&& v.active_tab == u.active_tab
                &&& v.tab_timelines == u.tab_timelines.update(
                    u.active_tab as int,
                    TimelineState { position: (tl.position - 1) as usize, coalesce_break: true, ..tl },
                )
            }
        }),
{
    reveal(history::walked_forward);
    reveal(history::step_forth);
    let tl = history::timeline_of(u);
    let e = handlers::escaped(u, now);
    lemma_escaped(u, now);
    lemma_walking(e, tl.position - 1);
    let w = history::walking(e, tl.position - 1);
    let entry = tl.entries[tl.entries.len() - tl.position];
    lemma_undone(w, entry, now);
    let (v, step) = history::redone(w, entry, now);
    lemma_run(v, step, answers, now);
}

/// A step back and a step forth give back the timeline as it was: the same
/// steps in the same order, as many of them undone, and no step under way. This
/// holds whatever the step is, and whatever the providers answer.
pub proof fn law_back_and_forth_keeps_the_timeline(
    u: Ui,
    there: Seq<ReplyView>,
    again: Seq<ReplyView>,
    now: u64,
    later: u64,
)
    requires
        u.coordinate is General,
        u.active_tab < u.tab_timelines.len(),
        history::timeline_of(u).position < history::timeline_of(u).entries.len() <= usize::MAX,
    ensures
        ({
            let (v, undoing) = back(u, there, now);
            let (w, redoing) = forth(v, again, later);
            undoing is Done && redoing is Done ==> {
                &&& history::timeline_of(v).position == history::timeline_of(u).position + 1
                &&& history::timeline_of(v).entries == history::timeline_of(u).entries
                &&& history::timeline_of(w).position == history::timeline_of(u).position
                &&& history::timeline_of(w).entries == history::timeline_of(u).entries
                &&& w.active_tab == u.active_tab
                &&& !w.in_history_action
            }
        }),
{
    lemma_back(u, there, now);
    let v = back(u, there, now).0;
    if back(u, there, now).1 is Done {
        lemma_forth(v, again, later);
    }
}

/// A run of the last part of a step leaves the tree and the position alone.
proof fn lemma_last_part(u: Ui, step: StepView, answers: Seq<ReplyView>, now: u64)
    requires
        step matches StepView::Ask { then, .. } && then is Undone,
    ensures
        run(u, step, answers, now).0.ffon == u.ffon,
        run(u, step, answers, now).0.current_id == u.current_id,
{
    reveal_with_fuel(run, 2);
    if answers.len() > 0 {
        lemma_resumed(u, step->provider, step->then, answers[0], now);
    }
}

/// Typing that is undone and done again stands where it was typed, at the
/// position.
pub proof fn law_typing_comes_back(
    u: Ui,
    there: Seq<ReplyView>,
    again: Seq<ReplyView>,
    now: u64,
    later: u64,
)
    requires
        u.coordinate is General,
        u.active_tab < u.tab_timelines.len(),
        history::timeline_of(u).position < history::timeline_of(u).entries.len() <= usize::MAX,
    ensures
        ({
            let tl = history::timeline_of(u);
            let (v, undoing) = back(u, there, now);
            let (w, redoing) = forth(v, again, later);
            match tl.entries[tl.entries.len() - tl.position - 1] {
                EntryView::TextChunk { id, before, after, .. } => undoing is Done
                    && redoing is Done && ffon::element_at(u.ffon, id) is Some ==> {
                    &&& ffon::element_at(v.ffon, id) == Some(before)
                    &&& v.current_id == id
                    &&& ffon::element_at(w.ffon, id) == Some(after)
                    &&& w.current_id == id
                },
                _ => true,
            }
        }),
{
    lemma_back(u, there, now);
    let tl = history::timeline_of(u);
    let (v, undoing) = back(u, there, now);
    let entry = tl.entries[tl.entries.len() - tl.position - 1];
    if let EntryView::TextChunk { id, before, after, .. } = entry {
        if undoing is Done && ffon::element_at(u.ffon, id) is Some {
            reveal(history::walked_back);
            reveal(history::step_back);
            reveal(history::walked_forward);
            reveal(history::step_forth);
            reveal(history::undone);
            reveal(history::redone);
            let e = handlers::escaped(u, now);
            lemma_escaped(u, now);
            lemma_walking(e, tl.position + 1);
            let a = history::walking(e, tl.position + 1);
            lemma_put_back(a, id, before);
            lemma_last_part(
                history::put_back(a, id, before),
                history::syncing(history::put_back(a, id, before), id),
                there,
                now,
            );
            assert(id.len() > 0) by {
                reveal(ffon::layer_of);
            }
            ffon::law_replace_replace(u.ffon, id, before);
            assert(ffon::element_at(v.ffon, id) == Some(before));
            let f = handlers::escaped(v, later);
            lemma_escaped(v, later);
            lemma_walking(f, tl.position as int);
            let b = history::walking(f, tl.position as int);
            lemma_put_back(b, id, after);
            lemma_last_part(
                history::put_back(b, id, after),
                history::syncing(history::put_back(b, id, after), id),
                again,
                later,
            );
            ffon::law_replace_replace(v.ffon, id, after);
        }
    }
}

} // verus!
