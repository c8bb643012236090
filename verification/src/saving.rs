//! Saving what a provider has to a file, and loading it from there.

use vstd::prelude::*;

use crate::actions;
use crate::app_state;
use crate::app_state::{AppRenderer, Coordinate, Ui};
use crate::elements;
use crate::ffon;
use crate::ffon::{FfonElement, FfonObject, IdArray, Node};
use crate::files;
use crate::handlers;
use crate::list;
use crate::moves;
use crate::paths;
use crate::provider;
use crate::provider::{Op, OpView, PathEnd, Reply, ReplyView, Step, StepView, Then, ThenView};
use crate::state;
use crate::steps;
use crate::text;

verus! {

/// The root at `i`, where it is a branch.
pub open spec fn root_branch(tree: Seq<Node>, i: usize) -> Option<Node> {
    if i < tree.len() && tree[i as int] is Obj {
        Some(tree[i as int])
    } else {
        None
    }
}

fn find_root(tree: &Vec<FfonElement>, i: usize) -> (res: Option<FfonElement>)
    ensures
        ffon::opt_node(res) == root_branch(ffon::forest(tree@), i),
{
    if i < tree.len() {
        assert(ffon::forest(tree@)[i as int] == tree@[i as int]@);
        if tree[i].is_obj() {
            Some(tree[i].clone())
        } else {
            None
        }
    } else {
        None
    }
}

/// `u` with the file that it is saved to.
#[verifier::opaque]
pub open spec fn with_save_path(u: Ui, path: Seq<char>) -> Ui {
    Ui { current_save_path: path, ..u }
}

fn set_save_path(r: &mut AppRenderer, path: String)
    ensures
        final(r)@ == with_save_path(old(r)@, path@),
        app_state::tabs_ok(old(r)@) ==> app_state::tabs_ok(final(r)@),
{
    proof {
        reveal(with_save_path);
    }
    r.current_save_path = path;
}

/// `u` with where to go back to when it is saved.
#[verifier::opaque]
pub open spec fn leaving_to_save(u: Ui) -> Ui {
    Ui {
        save_as_source_root_idx: steps::root_index(u.current_id),
        save_as_return_id: u.current_id,
        ..u
    }
}

fn leave_to_save(r: &mut AppRenderer)
    ensures
        final(r)@ == leaving_to_save(old(r)@),
        app_state::tabs_ok(old(r)@) ==> app_state::tabs_ok(final(r)@),
{
    proof {
        reveal(leaving_to_save);
    }
    let id = r.current_id.clone();
    r.save_as_source_root_idx = r.current_id.get(0).unwrap_or(0);
    r.save_as_return_id = id;
}

/// The first provider at or behind `from` that is the file browser.
pub open spec fn browser_from(names: Seq<app_state::ProviderView>, from: int) -> Option<int>
    decreases names.len() - from,
{
    if from < 0 || from >= names.len() {
        None
    } else if names[from].name == "filebrowser"@ {
        Some(from)
    } else {
        browser_from(names, from + 1)
    }
}

fn find_browser(r: &AppRenderer) -> (res: Option<usize>)
    ensures
        match res {
            Some(i) => browser_from(r@.providers, 0) == Some(i as int),
            None => browser_from(r@.providers, 0) is None,
        },
{
    let mut i: usize = 0;
    while i < r.providers.len()
        invariant
            i <= r.providers.len(),
            browser_from(r@.providers, 0) == browser_from(r@.providers, i as int),
        decreases r.providers.len() - i,
    {
        assert(r@.providers[i as int] == r.providers@[i as int]@);
        if text::same(r.providers[i].name.as_str(), "filebrowser") {
            return Some(i);
        }
        i += 1;
    }
    None
}

/// The folder that files are saved in.
pub open spec fn save_folder(
    folder: Seq<char>,
    absolute: bool,
    home: Seq<char>,
    downloads: Option<Seq<char>>,
) -> Seq<char> {
    let name = text::trimmed(folder);
    if name.len() == 0 {
        match downloads {
            Some(d) => d,
            None => "/tmp"@,
        }
    } else if absolute || home.len() == 0 {
        name
    } else {
        actions::path_in(home, name)
    }
}

/// The folder that files are saved in, given whether its name is an absolute
/// path, the home directory and that for downloads.
pub fn resolve_save_folder(
    folder: &str,
    absolute: bool,
    home: &str,
    downloads: &Option<String>,
) -> (res: String)
    ensures
        res@ == save_folder(folder@, absolute, home@, text::opt_text(*downloads)),
{
    let name = text::trim(folder);
    if name.as_str().unicode_len() == 0 {
        match downloads {
            Some(d) => d.clone(),
            None => "/tmp".to_owned(),
        }
    } else if absolute || home.unicode_len() == 0 {
        name
    } else {
        text::concat3(home, "/", name.as_str())
    }
}

/// What saving under a new name in `dir` starts with.
#[verifier::opaque]
pub open spec fn save_as_started(u: Ui, dir: Seq<char>) -> steps::Outcome {
    if u.current_id.len() == 0 {
        (u, StepView::Done)
    } else {
        match browser_from(u.providers, 0) {
            Some(i) => (
                leaving_to_save(u),
                StepView::Ask {
                    provider: None,
                    ops: seq![OpView::IsDirectory(dir)],
                    then: ThenView::SaveFolderChecked { dir, browser: i as usize },
                },
            ),
            None => (
                moves::redrawn(
                    moves::with_error(leaving_to_save(u), "File browser not available"@),
                ),
                StepView::Done,
            ),
        }
    }
}

/// Save what the provider of the position has under a new name in `save_dir`.
pub fn handle_save_as_provider_config(r: &mut AppRenderer, save_dir: &str) -> (res: Step)
    ensures
        (final(r)@, res@) == save_as_started(old(r)@, save_dir@),
        app_state::tabs_ok(old(r)@) ==> app_state::tabs_ok(final(r)@),
{
    proof {
        reveal(save_as_started);
    }
    if r.current_id.depth() == 0 {
        return Step::Done;
    }
    let browser = find_browser(r);
    leave_to_save(r);
    match browser {
        Some(i) => Step::Ask {
            provider: None,
            ops: provider::one_op(Op::IsDirectory(save_dir.to_owned())),
            then: Then::SaveFolderChecked { dir: save_dir.to_owned(), browser: i },
        },
        None => {
            moves::set_error(r, "File browser not available".to_owned());
            moves::redraw(r);
            Step::Done
        },
    }
}

/// What follows when it is known whether the folder to save in is there.
#[verifier::opaque]
pub open spec fn folder_checked(
    u: Ui,
    there: bool,
    dir: Seq<char>,
    browser: usize,
    now: u64,
) -> steps::Outcome {
    if there {
        paths::way_started(u, browser, dir, Seq::empty(), PathEnd::SaveAs, now)
    } else {
        (
            moves::redrawn(moves::with_error(u, "Save folder does not exist: "@ + dir)),
            StepView::Done,
        )
    }
}

/// Go on when it is known whether the folder to save in is there.
pub fn save_folder_checked(
    r: &mut AppRenderer,
    there: bool,
    dir: String,
    browser: usize,
    now: u64,
) -> (res: Step)
    requires
        app_state::tabs_ok(old(r)@),
    ensures
        (final(r)@, res@) == folder_checked(old(r)@, there, dir@, browser, now),
        app_state::tabs_ok(final(r)@),
{
    proof {
        reveal(folder_checked);
        reveal_strlit("");
        assert(""@ =~= Seq::<char>::empty());
    }
    if there {
        paths::start_way(r, browser, dir.as_str(), "".to_owned(), PathEnd::SaveAs, now)
    } else {
        moves::set_error(r, text::concat("Save folder does not exist: ", dir.as_str()));
        moves::redraw(r);
        Step::Done
    }
}

/// What the save key leads to, with `dir` as the folder for new files.
#[verifier::opaque]
pub open spec fn save_started(u: Ui, dir: Seq<char>) -> steps::Outcome {
    if u.current_save_path.len() == 0 {
        save_as_started(u, dir)
    } else if u.current_id.len() == 0 {
        (u, StepView::Done)
    } else {
        match root_branch(u.ffon, u.current_id[0]) {
            Some(tree) => (
                u,
                StepView::Ask {
                    provider: None,
                    ops: seq![OpView::SaveTree { path: u.current_save_path, tree }],
                    then: ThenView::Saved { path: u.current_save_path },
                },
            ),
            None => (moves::redrawn(moves::with_error(u, "Nothing to save"@)), StepView::Done),
        }
    }
}

/// Save what the provider of the position has to the file it was saved to
/// before; a new name is asked for where there is none.
pub fn handle_save_provider_config(r: &mut AppRenderer, save_dir: &str) -> (res: Step)
    ensures
        (final(r)@, res@) == save_started(old(r)@, save_dir@),
        app_state::tabs_ok(old(r)@) ==> app_state::tabs_ok(final(r)@),
{
    proof {
        reveal(save_started);
    }
    if r.current_save_path.as_str().unicode_len() == 0 {
        return handle_save_as_provider_config(r, save_dir);
    }
    match r.current_id.get(0) {
        Some(i) => match find_root(&r.ffon, i) {
            Some(tree) => {
                let path = r.current_save_path.clone();
                Step::Ask {
                    provider: None,
                    ops: provider::one_op(Op::SaveTree { path: path.clone(), tree }),
                    then: Then::Saved { path },
                }
            },
            None => {
                moves::set_error(r, "Nothing to save".to_owned());
                moves::redraw(r);
                Step::Done
            },
        },
        None => Step::Done,
    }
}

/// What is said of a file that was written, or not.
pub open spec fn save_message(path: Seq<char>, error: Option<Seq<char>>) -> Seq<char> {
    match error {
        None => "Saved to "@ + path,
        Some(e) => "Failed to save: "@ + e,
    }
}

fn say_saved(path: &str, error: &Option<String>) -> (res: String)
    ensures
        res@ == save_message(path@, text::opt_text(*error)),
{
    match error {
        None => text::concat("Saved to ", path),
        Some(e) => text::concat("Failed to save: ", e.as_str()),
    }
}

/// The error of a call on the file system, where it failed.
pub open spec fn failure(reply: ReplyView) -> Option<Seq<char>> {
    if reply.ok {
        None
    } else {
        Some(elements::or_empty(reply.error))
    }
}

fn find_failure(reply: Reply) -> (res: Option<String>)
    ensures
        text::opt_text(res) == failure(reply@),
{
    if reply.ok {
        None
    } else {
        Some(elements::text_or_empty(reply.error))
    }
}

/// Go on when the file was written, or not.
pub fn saved(r: &mut AppRenderer, reply: Reply, path: String)
    ensures
        final(r)@ == moves::redrawn(
            moves::with_error(old(r)@, save_message(path@, failure(reply@))),
        ),
        app_state::tabs_ok(old(r)@) ==> app_state::tabs_ok(final(r)@),
{
    let error = find_failure(reply);
    moves::set_error(r, say_saved(path.as_str(), &error));
    moves::redraw(r);
}

/// What loading from `path` starts with.
pub open spec fn load_started(u: Ui, path: Seq<char>) -> StepView {
    if path.len() == 0 || u.current_id.len() == 0 {
        StepView::Done
    } else {
        StepView::Ask {
            provider: None,
            ops: seq![OpView::LoadTree(path)],
            then: ThenView::Loaded { path },
        }
    }
}

/// Load what the provider of the position has from a file.
pub fn handle_load_provider_config(r: &AppRenderer, path: &str) -> (res: Step)
    ensures
        res@ == load_started(r@, path@),
{
    if path.unicode_len() == 0 || r.current_id.depth() == 0 {
        Step::Done
    } else {
        Step::Ask {
            provider: None,
            ops: provider::one_op(Op::LoadTree(path.to_owned())),
            then: Then::Loaded { path: path.to_owned() },
        }
    }
}

/// The roots with the children of the branch at `i` replaced.
pub open spec fn with_root_children(tree: Seq<Node>, i: usize, children: Seq<Node>) -> Seq<Node> {
    match root_branch(tree, i) {
        Some(n) => tree.update(i as int, Node::Obj { key: ffon::node_text(n), children }),
        None => tree,
    }
}

/// `u` with the children of the root `i` replaced, where it is a branch.
#[verifier::opaque]
pub open spec fn root_children_set(u: Ui, i: usize, children: Seq<Node>) -> Ui {
    Ui { ffon: with_root_children(u.ffon, i, children), ..u }
}

fn put_root_children(tree: &mut Vec<FfonElement>, i: usize, children: Vec<FfonElement>)
    ensures
        ffon::forest(final(tree)@) == with_root_children(
            ffon::forest(old(tree)@),
            i,
            ffon::forest(children@),
        ),
{
    if i < tree.len() {
        let ghost before = tree@;
        assert(ffon::forest(before)[i as int] == before[i as int]@);
        if tree[i].is_obj() {
            let key = tree[i].text().to_owned();
            let root = FfonElement::Obj(FfonObject { key, children });
            proof {
                ffon::lemma_obj_view(root->Obj_0);
            }
            tree[i] = root;
            assert(ffon::forest(tree@) =~= ffon::forest(before).update(i as int, root@));
        }
    }
}

pub(crate) fn set_root_children(r: &mut AppRenderer, i: usize, children: Vec<FfonElement>)
    ensures
        final(r)@ == root_children_set(old(r)@, i, ffon::forest(children@)),
        app_state::tabs_ok(old(r)@) ==> app_state::tabs_ok(final(r)@),
{
    proof {
        reveal(root_children_set);
    }
    put_root_children(&mut r.ffon, i, children);
}

/// What follows when a file was read, or not.
#[verifier::opaque]
pub open spec fn load_done(u: Ui, reply: ReplyView, path: Seq<char>) -> steps::Outcome {
    match failure(reply) {
        Some(e) => (
            moves::redrawn(moves::with_error(u, "Failed to load: "@ + e)),
            StepView::Done,
        ),
        None => {
            let v = root_children_set(u, steps::root_index(u.current_id), reply.children);
            (
                v,
                StepView::Ask {
                    provider: provider::active_index(v),
                    ops: seq![OpView::SetPath("/"@)],
                    then: ThenView::LoadReset { path },
                },
            )
        },
    }
}

/// Go on when a file was read, or not.
pub fn loaded(r: &mut AppRenderer, reply: Reply, path: String) -> (res: Step)
    ensures
        (final(r)@, res@) == load_done(old(r)@, reply@, path@),
        app_state::tabs_ok(old(r)@) ==> app_state::tabs_ok(final(r)@),
{
    proof {
        reveal(load_done);
    }
    if !reply.ok {
        let e = elements::text_or_empty(reply.error);
        moves::set_error(r, text::concat("Failed to load: ", e.as_str()));
        moves::redraw(r);
        return Step::Done;
    }
    let i: usize = r.current_id.get(0).unwrap_or(0);
    set_root_children(r, i, reply.children);
    Step::Ask {
        provider: provider::present_provider_index(r),
        ops: provider::one_op(Op::SetPath("/".to_owned())),
        then: Then::LoadReset { path },
    }
}

/// `u` with what was loaded from `path`, and no steps to undo.
pub open spec fn load_shown(u: Ui, path: Seq<char>) -> Ui {
    moves::redrawn(
        moves::with_error(
            list::listed(with_save_path(state::steps_forgotten(u), path)),
            "Loaded from "@ + path,
        ),
    )
}

/// Go on when the provider is at its root again.
pub fn load_reset(r: &mut AppRenderer, path: String)
    requires
        app_state::tabs_ok(old(r)@),
    ensures
        final(r)@ == load_shown(old(r)@, path@),
        app_state::tabs_ok(final(r)@),
{
    let message = text::concat("Loaded from ", path.as_str());
    state::forget_steps(r);
    set_save_path(r, path);
    moves::relist(r);
    moves::set_error(r, message);
    moves::redraw(r);
}

/// Whether the file `candidate` is there already.
pub open spec fn file_tried(
    dir: Seq<char>,
    base: Seq<char>,
    candidate: Seq<char>,
    n: u32,
) -> StepView {
    StepView::Ask {
        provider: None,
        ops: seq![OpView::Exists(actions::path_in(dir, candidate))],
        then: ThenView::SaveTried { dir, base, candidate, n },
    }
}

fn try_file(dir: String, base: String, candidate: String, n: u32) -> (res: Step)
    ensures
        res@ == file_tried(dir@, base@, candidate@, n),
{
    let full = text::concat3(dir.as_str(), "/", candidate.as_str());
    Step::Ask {
        provider: None,
        ops: provider::one_op(Op::Exists(full)),
        then: Then::SaveTried { dir, base, candidate, n },
    }
}

/// What saving under `name` in `dir` starts with.
pub open spec fn naming_started(dir: Seq<char>, name: Seq<char>) -> StepView {
    let base = text::without_suffixes(name, ".json"@);
    file_tried(dir, base, base + ".json"@, 0)
}

/// Save under `name` in `dir`, or under a name like it that is free.
pub(crate) fn start_naming(dir: &str, name: &str) -> (res: Step)
    ensures
        res@ == naming_started(dir@, name@),
{
    proof {
        reveal_strlit(".json");
    }
    let base = text::trim_suffixes(name, ".json");
    let candidate = text::concat(base.as_str(), ".json");
    try_file(dir.to_owned(), base, candidate, 0)
}

/// `u` without the element that the name of a file was typed into.
#[verifier::opaque]
pub open spec fn name_taken_out(u: Ui) -> Ui {
    Ui {
        ffon: if u.current_id.len() >= 2 {
            ffon::removed(u.ffon, u.current_id, u.current_id.last() as int)
        } else {
            u.ffon
        },
        ..u
    }
}

fn take_name(tree: &mut Vec<FfonElement>, id: &IdArray)
    ensures
        ffon::forest(final(tree)@) == if id@.len() >= 2 {
            ffon::removed(ffon::forest(old(tree)@), id@, id@.last() as int)
        } else {
            ffon::forest(old(tree)@)
        },
{
    if id.depth() >= 2 {
        let idx: usize = id.ids[id.depth() - 1];
        ffon::remove_at(tree, id, idx);
    }
}

fn take_name_out(r: &mut AppRenderer)
    ensures
        final(r)@ == name_taken_out(old(r)@),
        app_state::tabs_ok(old(r)@) ==> app_state::tabs_ok(final(r)@),
{
    proof {
        reveal(name_taken_out);
    }
    take_name(&mut r.ffon, &r.current_id);
}

/// What follows when the file was written, or not: the file browser goes back
/// to its root.
pub open spec fn browser_reset(u: Ui, path: Seq<char>, error: Option<Seq<char>>) -> steps::Outcome {
    let v = name_taken_out(u);
    let i = steps::root_index(u.current_id);
    (
        v,
        StepView::Ask {
            provider: if i < v.providers.len() {
                Some(i)
            } else {
                None
            },
            ops: seq![OpView::SetPath("/"@), OpView::Fetch],
            then: ThenView::SaveReset { path, error },
        },
    )
}

fn reset_browser(r: &mut AppRenderer, path: String, error: Option<String>) -> (res: Step)
    ensures
        (final(r)@, res@) == browser_reset(old(r)@, path@, text::opt_text(error)),
        app_state::tabs_ok(old(r)@) ==> app_state::tabs_ok(final(r)@),
{
    let i: usize = r.current_id.get(0).unwrap_or(0);
    take_name_out(r);
    Step::Ask {
        provider: if i < r.providers.len() {
            Some(i)
        } else {
            None
        },
        ops: provider::two_ops(Op::SetPath("/".to_owned()), Op::Fetch),
        then: Then::SaveReset { path, error },
    }
}

/// What follows when it is known whether a file is there already.
#[verifier::opaque]
pub open spec fn file_checked(
    u: Ui,
    taken: bool,
    dir: Seq<char>,
    base: Seq<char>,
    candidate: Seq<char>,
    n: u32,
) -> steps::Outcome {
    if taken {
        let next = n.wrapping_add(1);
        (u, file_tried(dir, base, files::copy_name(base, next) + ".json"@, next))
    } else {
        let path = actions::path_in(dir, candidate);
        match root_branch(u.ffon, u.save_as_source_root_idx) {
            Some(tree) => (
                u,
                StepView::Ask {
                    provider: None,
                    ops: seq![OpView::SaveTree { path, tree }],
                    then: ThenView::SaveWritten { path },
                },
            ),
            None => browser_reset(u, path, Some("source provider not found"@)),
        }
    }
}

/// Go on when it is known whether a file is there already.
pub fn save_tried(
    r: &mut AppRenderer,
    taken: bool,
    dir: String,
    base: String,
    candidate: String,
    n: u32,
) -> (res: Step)
    ensures
        (final(r)@, res@) == file_checked(old(r)@, taken, dir@, base@, candidate@, n),
        app_state::tabs_ok(old(r)@) ==> app_state::tabs_ok(final(r)@),
{
    proof {
        reveal(file_checked);
    }
    if taken {
        let next: u32 = n.wrapping_add(1);
        let name = files::name_copy(base.as_str(), next);
        let other = text::concat(name.as_str(), ".json");
        return try_file(dir, base, other, next);
    }
    let path = text::concat3(dir.as_str(), "/", candidate.as_str());
    match find_root(&r.ffon, r.save_as_source_root_idx) {
        Some(tree) => Step::Ask {
            provider: None,
            ops: provider::one_op(Op::SaveTree { path: path.clone(), tree }),
            then: Then::SaveWritten { path },
        },
        None => reset_browser(r, path, Some("source provider not found".to_owned())),
    }
}

/// Go on when the file was written, or not.
pub fn save_written(r: &mut AppRenderer, reply: Reply, path: String) -> (res: Step)
    ensures
        (final(r)@, res@) == browser_reset(old(r)@, path@, failure(reply@)),
        app_state::tabs_ok(old(r)@) ==> app_state::tabs_ok(final(r)@),
{
    let error = find_failure(reply);
    reset_browser(r, path, error)
}

/// What the file browser has at its root.
pub open spec fn browser_children(p: Option<usize>, reply: ReplyView) -> Seq<Node> {
    if p is Some {
        reply.children
    } else {
        Seq::empty()
    }
}

/// `u` back where it was before it was saved, with what came of that said.
#[verifier::opaque]
pub open spec fn save_finished(
    u: Ui,
    p: Option<usize>,
    reply: ReplyView,
    path: Seq<char>,
    error: Option<Seq<char>>,
) -> Ui {
    let v = root_children_set(u, steps::root_index(u.current_id), browser_children(p, reply));
    let w = handlers::list_left(
        moves::without_input(
            moves::with_modes(
                paths::saving_as(moves::placed(v, u.save_as_return_id), false),
                Coordinate::General,
                Coordinate::General,
            ),
        ),
    );
    moves::redrawn(
        moves::with_error(
            if error is None {
                with_save_path(w, path)
            } else {
                w
            },
            save_message(path, error),
        ),
    )
}

/// Go on when the file browser is at its root again.
pub fn save_reset(
    r: &mut AppRenderer,
    p: Option<usize>,
    reply: Reply,
    path: String,
    error: Option<String>,
)
    requires
        app_state::tabs_ok(old(r)@),
    ensures
        final(r)@ == save_finished(old(r)@, p, reply@, path@, text::opt_text(error)),
        app_state::tabs_ok(final(r)@),
{
    proof {
        reveal(save_finished);
    }
    let i: usize = r.current_id.get(0).unwrap_or(0);
    let back = r.save_as_return_id.clone();
    let children = if p.is_some() {
        reply.children
    } else {
        Vec::new()
    };
    assert(ffon::forest(children@) =~= browser_children(p, reply@));
    set_root_children(r, i, children);
    moves::set_position(r, back);
    paths::set_saving_as(r, false);
    moves::set_modes(r, Coordinate::General, Coordinate::General);
    moves::clear_input(r);
    handlers::leave_list(r);
    let message = say_saved(path.as_str(), &error);
    if error.is_none() {
        set_save_path(r, path);
    }
    moves::set_error(r, message);
    moves::redraw(r);
}

} // verus!
