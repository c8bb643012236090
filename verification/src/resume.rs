//! Going on when what a key asked for outside is done.

use vstd::prelude::*;

use crate::actions;
use crate::app_state;
use crate::app_state::{AppRenderer, Ui};
use crate::commands;
use crate::files;
use crate::history;
use crate::insert;
use crate::paths;
use crate::paths::{Leg, LegView};
use crate::provider;
use crate::provider::{Reply, ReplyView, Step, StepView, Then, ThenView};
use crate::saving;
use crate::search;
use crate::steps;

verus! {

/// A reply without what is known of the provider.
pub open spec fn answer_of(reply: ReplyView) -> ReplyView {
    ReplyView { info: None, ..reply }
}

/// What follows in the user interface `u` that knows the provider `p` already,
/// after undoing.
#[verifier::opaque]
pub open spec fn undo_going_on(
    u: Ui,
    p: Option<usize>,
    then: ThenView,
    reply: ReplyView,
    now: u64,
) -> steps::Outcome {
    match then {
        ThenView::Undone => (history::walk_ended(u), StepView::Done),
        ThenView::UndoFetched { id } => (
            crate::moves::placed(provider::refreshed(u, p, reply), id),
            history::ending(),
        ),
        ThenView::HistoryFetched => (provider::refreshed(u, p, reply), history::ending()),
        ThenView::ProviderUndone { provider, name, redo } => history::undone_by_provider(
            u,
            reply,
            provider,
            name,
            redo,
        ),
        ThenView::FsUndone { id, element } => (
            history::files_restored(u, reply, id, element),
            history::ending(),
        ),
        ThenView::FsTidied { id } => (
            history::layer_tidied(provider::refreshed(u, p, reply), id),
            history::ending(),
        ),
        ThenView::FsRenamed { id, element } => (
            crate::moves::placed(
                provider::refreshed(crate::moves::replaced_at(u, id, element), p, reply),
                id,
            ),
            history::ending(),
        ),
        ThenView::FsEntered => (steps::layer_entered(u, p, reply), history::ending()),
        ThenView::FsLeft { id, name } => (
            crate::moves::placed(u, id),
            history::deleting(crate::moves::placed(u, id), id, name),
        ),
        _ => (u, StepView::Done),
    }
}

fn go_on_undo(
    r: &mut AppRenderer,
    p: Option<usize>,
    then: Then,
    reply: Reply,
    now: u64,
) -> (res: Step)
    requires
        app_state::tabs_ok(old(r)@),
    ensures
        (final(r)@, res@) == undo_going_on(old(r)@, p, then@, reply@, now),
        app_state::tabs_ok(final(r)@),
{
    proof {
        reveal(undo_going_on);
    }
    match then {
        Then::Undone => {
            history::end_walk(r);
            Step::Done
        },
        Then::UndoFetched { id } => history::undo_fetched(r, p, reply, id),
        Then::HistoryFetched => history::history_fetched(r, p, reply),
        Then::ProviderUndone { provider, name, redo } => history::provider_undone(
            r,
            reply,
            provider,
            name,
            redo,
        ),
        Then::FsUndone { id, element } => history::files_undone_by_provider(r, reply, id, element),
        Then::FsTidied { id } => history::files_tidied(r, p, reply, id),
        Then::FsRenamed { id, element } => history::files_renamed(r, p, reply, id, element),
        Then::FsEntered => history::files_entered(r, p, reply),
        Then::FsLeft { id, name } => history::files_left(r, id, name),
        _ => Step::Done,
    }
}

/// What follows in the user interface `u` that knows the provider `p` already,
/// after saving and loading.
#[verifier::opaque]
pub open spec fn save_going_on(
    u: Ui,
    p: Option<usize>,
    then: ThenView,
    reply: ReplyView,
    now: u64,
) -> steps::Outcome {
    match then {
        ThenView::SaveTried { dir, base, candidate, n } => saving::file_checked(
            u,
            reply.ok,
            dir,
            base,
            candidate,
            n,
        ),
        ThenView::SaveWritten { path } => saving::browser_reset(u, path, saving::failure(reply)),
        ThenView::SaveReset { path, error } => (
            saving::save_finished(u, p, reply, path, error),
            StepView::Done,
        ),
        ThenView::SaveFolderChecked { dir, browser } => saving::folder_checked(
            u,
            reply.ok,
            dir,
            browser,
            now,
        ),
        ThenView::Saved { path } => (
            crate::moves::redrawn(
                crate::moves::with_error(u, saving::save_message(path, saving::failure(reply))),
            ),
            StepView::Done,
        ),
        ThenView::Loaded { path } => saving::load_done(u, reply, path),
        ThenView::LoadReset { path } => (saving::load_shown(u, path), StepView::Done),
        _ => undo_going_on(u, p, then, reply, now),
    }
}

fn go_on_save(
    r: &mut AppRenderer,
    p: Option<usize>,
    then: Then,
    reply: Reply,
    now: u64,
) -> (res: Step)
    requires
        app_state::tabs_ok(old(r)@),
    ensures
        (final(r)@, res@) == save_going_on(old(r)@, p, then@, reply@, now),
        app_state::tabs_ok(final(r)@),
{
    proof {
        reveal(save_going_on);
    }
    match then {
        Then::SaveTried { dir, base, candidate, n } => saving::save_tried(
            r,
            reply.ok,
            dir,
            base,
            candidate,
            n,
        ),
        Then::SaveWritten { path } => saving::save_written(r, reply, path),
        Then::SaveReset { path, error } => {
            saving::save_reset(r, p, reply, path, error);
            Step::Done
        },
        Then::SaveFolderChecked { dir, browser } => saving::save_folder_checked(
            r,
            reply.ok,
            dir,
            browser,
            now,
        ),
        Then::Saved { path } => {
            saving::saved(r, reply, path);
            Step::Done
        },
        Then::Loaded { path } => saving::loaded(r, reply, path),
        Then::LoadReset { path } => {
            saving::load_reset(r, path);
            Step::Done
        },
        other => go_on_undo(r, p, other, reply, now),
    }
}

/// What follows in the user interface `u` that knows the provider `p` already,
/// after edits.
#[verifier::opaque]
pub open spec fn edit_going_on(
    u: Ui,
    p: Option<usize>,
    then: ThenView,
    reply: ReplyView,
    now: u64,
) -> steps::Outcome {
    match then {
        ThenView::EditUnchanged => (
            crate::handlers::edit_closed(provider::refreshed(u, p, reply), now),
            StepView::Done,
        ),
        ThenView::Created { name, id, is_dir, way } => insert::creation_done(
            u,
            p,
            reply,
            name,
            id,
            is_dir,
            way,
            now,
        ),
        ThenView::CreatedFetched { name, way } => (
            insert::creation_shown(u, p, reply, name, way),
            StepView::Done,
        ),
        ThenView::EditCommitted { element } => insert::edit_done(u, p, reply, element, now),
        ThenView::EditFetched => steps::right_raw(
            provider::refreshed(u, p, reply),
            provider::RightEnd::Commit,
            now,
        ),
        _ => save_going_on(u, p, then, reply, now),
    }
}

fn go_on_edit(
    r: &mut AppRenderer,
    p: Option<usize>,
    then: Then,
    reply: Reply,
    now: u64,
) -> (res: Step)
    requires
        app_state::tabs_ok(old(r)@),
    ensures
        (final(r)@, res@) == edit_going_on(old(r)@, p, then@, reply@, now),
        app_state::tabs_ok(final(r)@),
{
    proof {
        reveal(edit_going_on);
    }
    match then {
        Then::EditUnchanged => {
            insert::edit_unchanged(r, p, reply, now);
            Step::Done
        },
        Then::Created { name, id, is_dir, way } => insert::created(
            r,
            p,
            reply,
            name,
            id,
            is_dir,
            way,
            now,
        ),
        Then::CreatedFetched { name, way } => {
            insert::created_fetched(r, p, reply, name, way);
            Step::Done
        },
        Then::EditCommitted { element } => insert::edit_committed(r, p, reply, element, now),
        Then::EditFetched => insert::edit_fetched(r, p, reply, now),
        other => go_on_save(r, p, other, reply, now),
    }
}

/// What follows in the user interface `u` that knows the provider `p` already,
/// after files.
#[verifier::opaque]
pub open spec fn file_going_on(
    u: Ui,
    p: Option<usize>,
    then: ThenView,
    reply: ReplyView,
    now: u64,
) -> steps::Outcome {
    match then {
        ThenView::FileDeleted => (u, files::deletion_done(u, p, reply)),
        ThenView::FilesFetched => (files::directory_tidied(u, p, reply), StepView::Done),
        ThenView::CutCopied { name, cached } => files::cut_kept(u, p, reply, name, cached),
        ThenView::CutDeleted { cached } => (
            files::cut_done(u, p, reply, cached, now),
            StepView::Done,
        ),
        ThenView::PasteTried { from_dir, from_name, to_dir, candidate, n } => (
            u,
            files::name_checked(u, reply.ok, from_dir, from_name, to_dir, candidate, n),
        ),
        ThenView::PasteCopied { name } => files::paste_done(u, p, reply, name),
        ThenView::PasteFetched { name } => (files::paste_shown(u, p, reply, name), StepView::Done),
        _ => edit_going_on(u, p, then, reply, now),
    }
}

fn go_on_file(
    r: &mut AppRenderer,
    p: Option<usize>,
    then: Then,
    reply: Reply,
    now: u64,
) -> (res: Step)
    requires
        app_state::tabs_ok(old(r)@),
    ensures
        (final(r)@, res@) == file_going_on(old(r)@, p, then@, reply@, now),
        app_state::tabs_ok(final(r)@),
{
    proof {
        reveal(file_going_on);
    }
    match then {
        Then::FileDeleted => files::file_deleted(r, p, reply),
        Then::FilesFetched => {
            files::files_fetched(r, p, reply);
            Step::Done
        },
        Then::CutCopied { name, cached } => files::cut_copied(r, p, reply, name, cached),
        Then::CutDeleted { cached } => {
            files::cut_deleted(r, p, reply, cached, now);
            Step::Done
        },
        Then::PasteTried { from_dir, from_name, to_dir, candidate, n } => files::paste_tried(
            r,
            reply.ok,
            from_dir,
            from_name,
            to_dir,
            candidate,
            n,
        ),
        Then::PasteCopied { name } => files::paste_copied(r, p, reply, name),
        Then::PasteFetched { name } => {
            files::paste_fetched(r, p, reply, name);
            Step::Done
        },
        other => go_on_edit(r, p, other, reply, now),
    }
}

/// What follows in the user interface `u` that knows the provider `p` already,
/// after searches and paths.
#[verifier::opaque]
pub open spec fn search_going_on(
    u: Ui,
    p: Option<usize>,
    then: ThenView,
    reply: ReplyView,
    now: u64,
) -> steps::Outcome {
    match then {
        ThenView::SearchToggled { index, extended } => (
            search::search_goes_on(u, index, extended),
            StepView::Done,
        ),
        ThenView::SearchChosen { extended } => (search::search_chose(u, extended), StepView::Done),
        ThenView::Asked => (provider::failure_noted(u, p, reply), StepView::Done),
        ThenView::Commanded => (provider::command_noted(u, reply), StepView::Done),
        ThenView::Entered => (paths::gone_in(u, p, reply), StepView::Done),
        ThenView::PathFetched { root, rest, target, end } => paths::leg_led(
            u,
            p,
            reply,
            LegView::Root { root, rest, target },
            end,
            now,
        ),
        ThenView::PathEntered { rest, target, end } => paths::leg_led(
            u,
            p,
            reply,
            LegView::Part { rest, target },
            end,
            now,
        ),
        _ => file_going_on(u, p, then, reply, now),
    }
}

fn go_on_search(
    r: &mut AppRenderer,
    p: Option<usize>,
    then: Then,
    reply: Reply,
    now: u64,
) -> (res: Step)
    requires
        app_state::tabs_ok(old(r)@),
    ensures
        (final(r)@, res@) == search_going_on(old(r)@, p, then@, reply@, now),
        app_state::tabs_ok(final(r)@),
{
    proof {
        reveal(search_going_on);
    }
    match then {
        Then::SearchToggled { index, extended } => {
            search::search_toggled(r, index, extended);
            Step::Done
        },
        Then::SearchChosen { extended } => {
            search::search_chosen(r, extended);
            Step::Done
        },
        Then::Asked => {
            provider::note_failure(r, p, &reply);
            Step::Done
        },
        Then::Commanded => {
            provider::note_command(r, reply);
            Step::Done
        },
        Then::Entered => {
            paths::entered(r, p, reply);
            Step::Done
        },
        Then::PathFetched { root, rest, target, end } => paths::lead_on(
            r,
            p,
            reply,
            Leg::Root { root, rest, target },
            end,
            now,
        ),
        Then::PathEntered { rest, target, end } => paths::lead_on(
            r,
            p,
            reply,
            Leg::Part { rest, target },
            end,
            now,
        ),
        other => go_on_file(r, p, other, reply, now),
    }
}

/// What follows in the user interface `u` that knows the provider `p` already,
/// after commands, buttons and inputs.
#[verifier::opaque]
pub open spec fn command_going_on(
    u: Ui,
    p: Option<usize>,
    then: ThenView,
    reply: ReplyView,
    now: u64,
) -> steps::Outcome {
    match then {
        ThenView::ToggleOn => commands::toggle_goes_on(u, now),
        ThenView::ToggleFetched => (actions::fetched_and_listed(u, p, reply), StepView::Done),
        ThenView::CommandDone => commands::command_handled(u, reply, now),
        ThenView::CommandExecuted => (commands::executed(u), StepView::Done),
        ThenView::InputCommitted => actions::input_handed_over(u, p, reply),
        ThenView::InputFetched => (actions::fetched_and_listed(u, p, reply), StepView::Done),
        ThenView::Pressed => (
            actions::button_done(provider::refreshed(u, p, reply)),
            StepView::Done,
        ),
        ThenView::ElementCreated { function } => actions::element_made(u, reply, function),
        _ => search_going_on(u, p, then, reply, now),
    }
}

fn go_on_command(
    r: &mut AppRenderer,
    p: Option<usize>,
    then: Then,
    reply: Reply,
    now: u64,
) -> (res: Step)
    requires
        app_state::tabs_ok(old(r)@),
    ensures
        (final(r)@, res@) == command_going_on(old(r)@, p, then@, reply@, now),
        app_state::tabs_ok(final(r)@),
{
    proof {
        reveal(command_going_on);
    }
    match then {
        Then::ToggleOn => commands::toggle_on(r, now),
        Then::ToggleFetched => {
            actions::fetched(r, p, reply);
            Step::Done
        },
        Then::CommandDone => commands::command_done(r, reply, now),
        Then::CommandExecuted => {
            commands::command_executed(r);
            Step::Done
        },
        Then::InputCommitted => actions::input_committed(r, p, reply),
        Then::InputFetched => {
            actions::fetched(r, p, reply);
            Step::Done
        },
        Then::Pressed => {
            actions::button_pressed(r, p, reply);
            Step::Done
        },
        Then::ElementCreated { function } => actions::element_created(r, reply, function),
        other => go_on_search(r, p, other, reply, now),
    }
}

/// What follows in the user interface `u` that knows the provider `p` already,
/// after anything.
#[verifier::opaque]
pub open spec fn going_on(
    u: Ui,
    p: Option<usize>,
    then: ThenView,
    reply: ReplyView,
    now: u64,
) -> steps::Outcome {
    match then {
        ThenView::F5 => (steps::fetched_anew(u, p, reply), StepView::Done),
        ThenView::Finished => (u, StepView::Done),
        ThenView::Refreshed => (provider::refreshed(u, p, reply), StepView::Done),
        ThenView::Relisted => (actions::relisted(u), StepView::Done),
        ThenView::RightLinked { end } => steps::linked(u, reply, end, now),
        ThenView::RightEntered { end } => steps::right_done(
            steps::layer_entered(u, p, reply),
            true,
            end,
            now,
        ),
        ThenView::LeftPopped { before, end } => steps::popped(
            u,
            before,
            reply.left_name,
            end,
            now,
        ),
        ThenView::LeftFetched { name, end } => steps::left_done(
            steps::folder_left(u, p, reply, name),
            true,
            end,
            now,
        ),
        ThenView::HomeOn { tap } => steps::on_the_way_home(u, tap, now),
        _ => command_going_on(u, p, then, reply, now),
    }
}

fn go_on(
    r: &mut AppRenderer,
    p: Option<usize>,
    then: Then,
    reply: Reply,
    now: u64,
) -> (res: Step)
    requires
        app_state::tabs_ok(old(r)@),
    ensures
        (final(r)@, res@) == going_on(old(r)@, p, then@, reply@, now),
        app_state::tabs_ok(final(r)@),
{
    proof {
        reveal(going_on);
    }
    match then {
        Then::F5 => {
            steps::refetched(r, p, reply);
            Step::Done
        },
        Then::Finished => Step::Done,
        Then::Refreshed => {
            provider::apply_refresh(r, p, reply);
            Step::Done
        },
        Then::Relisted => {
            actions::relist_and_redraw(r);
            Step::Done
        },
        Then::RightLinked { end } => steps::link_loaded(r, reply, end, now),
        Then::RightEntered { end } => steps::layer_fetched(r, p, reply, end, now),
        Then::LeftPopped { before, end } => steps::path_popped(
            r,
            before,
            reply.left_name,
            end,
            now,
        ),
        Then::LeftFetched { name, end } => steps::folder_fetched(r, p, reply, name, end, now),
        Then::HomeOn { tap } => steps::go_home(r, tap, now),
        other => go_on_command(r, p, other, reply, now),
    }
}

/// What follows in the user interface `u` when what was asked of the provider
/// `p` is done.
pub open spec fn resumed(
    u: Ui,
    p: Option<usize>,
    then: ThenView,
    reply: ReplyView,
    now: u64,
) -> steps::Outcome {
    going_on(provider::learned(u, p, reply.info), p, then, answer_of(reply), now)
}

/// Go on with `then` when what was asked of the provider `p` is done: `reply`
/// says what came of it.
pub fn resume(r: &mut AppRenderer, p: Option<usize>, then: Then, reply: Reply, now: u64) -> (res:
    Step)
    requires
        app_state::tabs_ok(old(r)@),
    ensures
        (final(r)@, res@) == resumed(old(r)@, p, then@, reply@, now),
        app_state::tabs_ok(final(r)@),
{
    let answer = Reply {
        ok: reply.ok,
        error: reply.error,
        children: reply.children,
        element: reply.element,
        info: None,
        file_name: reply.file_name,
        left_name: reply.left_name,
    };
    provider::learn(r, p, reply.info);
    go_on(r, p, then, answer, now)
}

} // verus!
