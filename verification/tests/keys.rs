//! Keys, from the press to what the providers and the file system made of it.

use std::collections::BTreeMap;
use std::ops::{Deref, DerefMut};

use sicompass_ui::app_state::{
    AppRenderer as Ui, CommandPhase, Coordinate, History, ListItem, ProviderInfo, RenderListItem,
    TIMELINE_CAPACITY,
};
use sicompass_ui::auth::{
    authorization, clear_auth_registry, find_api_key_for_url, register_auth, AuthRegistry,
};
use sicompass_ui::clock::sdl_ticks;
use sicompass_ui::events::Outside;
use sicompass_ui::ffon::{FfonElement, FfonObject, IdArray};
use sicompass_ui::handlers::{
    handle_colon, handle_ctrl_end, handle_ctrl_home, handle_page_down, handle_page_up, handle_s,
    handle_tab,
};
use sicompass_ui::list::get_active_provider_ref;
use sicompass_ui::paths::Way;
use sicompass_ui::provider::{active_provider_index, current_path, Op, Reply, Step};
use sicompass_ui::readiness::can_dispatch;
use sicompass_ui::resume::resume;
use sicompass_ui::shortcuts::{Here, Key};
use sicompass_ui::timeline::TimelineEntry;
use sicompass_ui::typing::{clear_selection, delete_selection, has_selection, selection_range};

// --- providers, the file system and the loop that runs the steps ---

/// A provider.
#[allow(unused_variables)]
trait Provider {
    fn name(&self) -> &str;
    fn fetch(&mut self) -> Vec<FfonElement>;

    fn current_path(&self) -> &str {
        "/"
    }
    fn set_current_path(&mut self, path: &str) {}
    fn push_path(&mut self, segment: &str) {}
    fn pop_path(&mut self) {}
    fn take_error(&mut self) -> Option<String> {
        None
    }
    fn commit_edit(&mut self, before: &str, after: &str) -> bool {
        false
    }
    fn create_file(&mut self, name: &str) -> bool {
        false
    }
    fn create_directory(&mut self, name: &str) -> bool {
        false
    }
    fn delete_item(&mut self, name: &str) -> bool {
        false
    }
    fn copy_item(&mut self, from_dir: &str, from: &str, to_dir: &str, to: &str) -> bool {
        false
    }
    fn commands(&self) -> Vec<String> {
        Vec::new()
    }
    fn handle_command(
        &mut self,
        command: &str,
        key: &str,
        kind: i32,
        error: &mut String,
    ) -> Option<FfonElement> {
        None
    }
    fn command_list_items(&self, command: &str) -> Vec<ListItem> {
        Vec::new()
    }
    fn execute_command(&mut self, command: &str, item: &str) -> bool {
        false
    }
    fn on_checkbox_change(&mut self, label: &str, checked: bool) {}
    fn on_radio_change(&mut self, group: &str, value: &str) {}
    fn on_button_press(&mut self, function: &str) {}
    fn create_element(&mut self, function: &str) -> Option<FfonElement> {
        None
    }
    fn has_editor_semantics(&self) -> bool {
        false
    }
    fn refresh_on_navigate(&self) -> bool {
        false
    }
    fn path_is_filesystem(&self) -> bool {
        false
    }
    fn meta(&self) -> Vec<String> {
        Vec::new()
    }
}

/// The user interface, with the providers and the files that it is used with.
struct AppRenderer {
    ui: Ui,
    providers: Vec<Box<dyn Provider>>,
    /// The files, with what was saved in them.
    disk: BTreeMap<String, Vec<FfonElement>>,
    directories: Vec<String>,
    opened: Vec<String>,
    pasteboard: Option<String>,
}

impl Deref for AppRenderer {
    type Target = Ui;

    fn deref(&self) -> &Ui {
        &self.ui
    }
}

impl DerefMut for AppRenderer {
    fn deref_mut(&mut self) -> &mut Ui {
        &mut self.ui
    }
}

fn last_part(path: &str) -> Option<String> {
    path.rsplit('/').next().filter(|n| !n.is_empty()).map(|n| n.to_owned())
}

fn info_of(p: &dyn Provider, handle: usize, command: &str) -> ProviderInfo {
    ProviderInfo {
        handle,
        name: p.name().to_owned(),
        display_name: p.name().to_owned(),
        current_path: p.current_path().to_owned(),
        has_editor_semantics: p.has_editor_semantics(),
        refresh_on_navigate: p.refresh_on_navigate(),
        needs_refresh: false,
        path_is_filesystem: p.path_is_filesystem(),
        dashboard_image_path: None,
        commands: p.commands(),
        command_items: p.command_list_items(command),
        meta: p.meta(),
    }
}

impl AppRenderer {
    fn new() -> Self {
        AppRenderer {
            ui: Ui::new(),
            providers: Vec::new(),
            disk: BTreeMap::new(),
            directories: vec!["/tmp".to_owned()],
            opened: Vec::new(),
            pasteboard: None,
        }
    }

    /// Tell the user interface of the providers.
    fn sync(&mut self) {
        let command = self.ui.provider_command_name.clone();
        self.ui.providers = self
            .providers
            .iter()
            .enumerate()
            .map(|(i, p)| info_of(p.as_ref(), i, &command))
            .collect();
    }

    /// Do what a step asks for, and what follows from it, up to the end. The
    /// last reply is handed back.
    fn run(&mut self, step: Step) -> Reply {
        let mut step = step;
        let mut last = Reply::nothing();
        loop {
            match step {
                Step::Done => return last,
                Step::Ask { provider, ops, then } => {
                    let reply = self.perform(provider, ops);
                    last = Reply::nothing();
                    last.ok = reply.ok;
                    last.error = reply.error.clone();
                    last.element = reply.element.clone();
                    step = resume(&mut self.ui, provider, then, reply, sdl_ticks());
                },
            }
        }
    }

    fn perform(&mut self, provider: Option<usize>, ops: Vec<Op>) -> Reply {
        let mut reply = Reply::nothing();
        let handle = provider.map(|i| self.ui.providers[i].handle);
        if let Some(h) = handle {
            reply.left_name = last_part(self.providers[h].current_path());
        }
        let mut command = self.ui.provider_command_name.clone();
        for op in ops {
            if let Op::HandleCommand { command: c, .. } = &op {
                command = c.clone();
            }
            match op {
                Op::Exists(path) => {
                    reply.ok = self.disk.contains_key(&path) || self.directories.contains(&path);
                },
                Op::IsDirectory(path) => reply.ok = self.directories.contains(&path),
                Op::OpenFile(path) => self.opened.push(path),
                Op::SaveTree { path, tree } => {
                    self.disk.insert(path, vec![tree]);
                    reply.ok = true;
                },
                Op::LoadTree(path) => match self.disk.get(&path) {
                    Some(tree) => {
                        reply.children = tree.clone();
                        reply.ok = true;
                    },
                    None => {
                        reply.error = Some("no such file".to_owned());
                        reply.ok = false;
                    },
                },
                Op::ResolveLink(path) => match self.disk.get(&path) {
                    Some(tree) => {
                        reply.children = tree.clone();
                        reply.ok = true;
                    },
                    None => reply.ok = false,
                },
                Op::DiscardSteps => {},
                other => {
                    if let Some(h) = handle {
                        ask(self.providers[h].as_mut(), other, &mut reply);
                    }
                },
            }
        }
        if let Some(h) = handle {
            let p = self.providers[h].as_ref();
            reply.file_name = last_part(p.current_path());
            reply.info = Some(info_of(p, h, &command));
        }
        reply
    }
}

fn ask(p: &mut dyn Provider, op: Op, reply: &mut Reply) {
    match op {
        Op::PushPath(s) => p.push_path(&s),
        Op::PopPath => p.pop_path(),
        Op::SetPath(s) => p.set_current_path(&s),
        Op::Fetch => reply.children = p.fetch(),
        Op::TakeError => {
            if let Some(e) = p.take_error() {
                reply.error = Some(e);
            }
        },
        Op::TakeErrorOfFailure => {
            if !reply.ok {
                if let Some(e) = p.take_error() {
                    reply.error = Some(e);
                }
            }
        },
        Op::CommitEdit { before, after } => reply.ok = p.commit_edit(&before, &after),
        Op::CreateFile(name) => reply.ok = p.create_file(&name),
        Op::CreateDirectory(name) => reply.ok = p.create_directory(&name),
        Op::DeleteItem(name) => reply.ok = p.delete_item(&name),
        Op::CopyItem { from_dir, from_name, to_dir, to_name } => {
            reply.ok = p.copy_item(&from_dir, &from_name, &to_dir, &to_name);
        },
        Op::HandleCommand { command, key, is_branch } => {
            let mut error = String::new();
            let kind = if is_branch { 1 } else { 0 };
            reply.element = p.handle_command(&command, &key, kind, &mut error);
            reply.ok = error.is_empty();
            if !error.is_empty() {
                reply.error = Some(error);
            }
        },
        Op::ExecuteCommand { command, item } => reply.ok = p.execute_command(&command, &item),
        Op::CheckboxChange { label, checked } => p.on_checkbox_change(&label, checked),
        Op::RadioChange { group, value } => p.on_radio_change(&group, &value),
        Op::ButtonPress(function) => p.on_button_press(&function),
        Op::CreateElement(function) => {
            reply.element = p.create_element(&function);
            reply.ok = reply.element.is_some();
        },
        _ => {},
    }
}

const HERE: Here = Here { supports_config_files: false, in_compose_body: false };

fn push_child(parent: &mut FfonElement, child: FfonElement) {
    match parent {
        FfonElement::Obj(o) => o.push(child),
        FfonElement::Str(_) => panic!("a leaf has no children"),
    }
}

/// A provider whose edits work on the tree.
struct TreeEditor;

impl Provider for TreeEditor {
    fn name(&self) -> &str {
        "editor"
    }
    fn fetch(&mut self) -> Vec<FfonElement> {
        Vec::new()
    }
    fn has_editor_semantics(&self) -> bool {
        true
    }
}

/// Have the first provider be one whose edits work on the tree.
fn edit_the_tree(r: &mut AppRenderer) {
    r.providers.insert(0, Box::new(TreeEditor));
}

/// A provider named for the files of the system.
struct FileBrowser {
    path: String,
}

impl Provider for FileBrowser {
    fn name(&self) -> &str {
        "filebrowser"
    }
    fn fetch(&mut self) -> Vec<FfonElement> {
        vec![]
    }
    fn current_path(&self) -> &str {
        &self.path
    }
}

// --- the keys ---

fn handle_up(r: &mut AppRenderer) {
    r.sync();
    sicompass_ui::handlers::handle_up(&mut r.ui, sdl_ticks());
}

fn handle_down(r: &mut AppRenderer) {
    r.sync();
    sicompass_ui::handlers::handle_down(&mut r.ui, sdl_ticks());
}

fn handle_escape(r: &mut AppRenderer) {
    r.sync();
    sicompass_ui::handlers::handle_escape(&mut r.ui, sdl_ticks());
}

fn handle_ctrl_f(r: &mut AppRenderer) {
    r.sync();
    sicompass_ui::handlers::handle_ctrl_f(&mut r.ui, sdl_ticks());
}

fn handle_ctrl_enter(r: &mut AppRenderer) {
    r.sync();
    sicompass_ui::handlers::handle_ctrl_enter(&mut r.ui, sdl_ticks());
}

fn handle_delete(r: &mut AppRenderer, history: History) {
    r.sync();
    sicompass_ui::handlers::handle_delete(&mut r.ui, history, sdl_ticks());
}

fn handle_input(r: &mut AppRenderer, text: &str) {
    r.sync();
    sicompass_ui::typing::handle_input(&mut r.ui, text, sdl_ticks());
}

fn handle_backspace(r: &mut AppRenderer) {
    r.sync();
    sicompass_ui::typing::handle_backspace(&mut r.ui, sdl_ticks());
}

fn handle_shift_left(r: &mut AppRenderer) {
    r.sync();
    sicompass_ui::typing::handle_shift_left(&mut r.ui, sdl_ticks());
}

fn handle_shift_right(r: &mut AppRenderer) {
    r.sync();
    sicompass_ui::typing::handle_shift_right(&mut r.ui, sdl_ticks());
}

fn handle_shift_home(r: &mut AppRenderer) {
    r.sync();
    sicompass_ui::typing::handle_shift_home(&mut r.ui, sdl_ticks());
}

fn handle_shift_end(r: &mut AppRenderer) {
    r.sync();
    sicompass_ui::typing::handle_shift_end(&mut r.ui, sdl_ticks());
}

fn handle_select_all(r: &mut AppRenderer) {
    r.sync();
    sicompass_ui::typing::handle_select_all(&mut r.ui, sdl_ticks());
}

fn create_list_current_layer(r: &mut AppRenderer) {
    r.sync();
    sicompass_ui::list::create_list_current_layer(&mut r.ui);
}

fn handle_file_copy(r: &mut AppRenderer) {
    r.sync();
    sicompass_ui::files::handle_file_copy(&mut r.ui);
}

fn handle_right(r: &mut AppRenderer) {
    r.sync();
    let step = sicompass_ui::steps::handle_right(&mut r.ui, sdl_ticks());
    r.run(step);
}

fn handle_left(r: &mut AppRenderer) {
    r.sync();
    let step = sicompass_ui::steps::handle_left(&mut r.ui, sdl_ticks());
    r.run(step);
}

fn handle_enter_search(r: &mut AppRenderer) {
    r.sync();
    let step = sicompass_ui::search::handle_enter_search(&mut r.ui, sdl_ticks());
    r.run(step);
}

fn handle_enter_command(r: &mut AppRenderer) {
    r.sync();
    let step = sicompass_ui::commands::handle_enter_command(&mut r.ui, sdl_ticks());
    r.run(step);
}

fn resolve_save_folder(r: &AppRenderer) -> String {
    let absolute = r.save_folder_path.starts_with('/');
    sicompass_ui::saving::resolve_save_folder(&r.save_folder_path, absolute, "/home/user", &None)
}

fn handle_enter_operator_insert(r: &mut AppRenderer) {
    r.sync();
    let dir = resolve_save_folder(r);
    let step = sicompass_ui::insert::handle_enter_operator_insert(&mut r.ui, &dir, sdl_ticks());
    r.run(step);
}

fn handle_save_as_provider_config(r: &mut AppRenderer) {
    r.sync();
    let dir = resolve_save_folder(r);
    let step = sicompass_ui::saving::handle_save_as_provider_config(&mut r.ui, &dir);
    r.run(step);
}

fn handle_save_provider_config(r: &mut AppRenderer) {
    r.sync();
    let dir = resolve_save_folder(r);
    let step = sicompass_ui::saving::handle_save_provider_config(&mut r.ui, &dir);
    r.run(step);
}

fn handle_load_provider_config(r: &mut AppRenderer, path: &str) {
    r.sync();
    let step = sicompass_ui::saving::handle_load_provider_config(&r.ui, path);
    r.run(step);
}

fn handle_ctrl_c(r: &mut AppRenderer) {
    r.sync();
    if let Some(text) = sicompass_ui::files::handle_ctrl_c(&mut r.ui) {
        r.pasteboard = Some(text);
    }
}

fn handle_ctrl_x(r: &mut AppRenderer) {
    r.sync();
    let (text, step) = sicompass_ui::files::handle_ctrl_x(&mut r.ui, "/tmp/cut", sdl_ticks());
    if let Some(text) = text {
        r.pasteboard = Some(text);
    }
    r.run(step);
}

fn handle_ctrl_v(r: &mut AppRenderer) {
    r.sync();
    let text = r.pasteboard.clone();
    let step = sicompass_ui::files::handle_ctrl_v(&mut r.ui, text, sdl_ticks());
    r.run(step);
}

fn handle_ctrl_i(r: &mut AppRenderer, history: History) {
    r.sync();
    let tap = sdl_ticks();
    let (step, first) = sicompass_ui::history::handle_ctrl_i(&mut r.ui, history, tap);
    r.run(step);
    if first {
        sicompass_ui::history::insert_first(&mut r.ui, tap, sdl_ticks());
    }
}

fn push_path(r: &mut AppRenderer, segment: &str) {
    r.sync();
    let step = sicompass_ui::provider::push_path(&r.ui, segment);
    r.run(step);
}

fn pop_path(r: &mut AppRenderer) {
    r.sync();
    let step = sicompass_ui::provider::pop_path(&r.ui);
    r.run(step);
}

fn commit_edit(r: &mut AppRenderer, before: &str, after: &str) -> bool {
    r.sync();
    let step = sicompass_ui::provider::commit_edit(&r.ui, before, after);
    r.run(step).ok
}

fn create_directory(r: &mut AppRenderer, name: &str) -> bool {
    r.sync();
    let step = sicompass_ui::provider::create_directory(&r.ui, name);
    r.run(step).ok
}

fn create_file(r: &mut AppRenderer, name: &str) -> bool {
    r.sync();
    let step = sicompass_ui::provider::create_file(&r.ui, name);
    r.run(step).ok
}

fn delete_item_by_name(r: &mut AppRenderer, name: &str) -> bool {
    r.sync();
    let step = sicompass_ui::provider::delete_item_by_name(&r.ui, name);
    r.run(step).ok
}

fn execute_command(r: &mut AppRenderer, command: &str, item: &str) -> bool {
    r.sync();
    let step = sicompass_ui::provider::execute_command(&r.ui, command, item);
    r.run(step).ok
}

fn get_commands(r: &AppRenderer) -> Vec<String> {
    sicompass_ui::provider::get_commands(&r.ui)
}

fn hints_for(r: &mut AppRenderer) -> Vec<String> {
    r.sync();
    sicompass_ui::shortcuts::hints_for(&r.ui, HERE)
}

/// The keys that are held down.
#[derive(Clone, Copy)]
struct Mod {
    ctrl: bool,
    shift: bool,
}

fn no_mod() -> Mod {
    Mod { ctrl: false, shift: false }
}

fn ctrl() -> Mod {
    Mod { ctrl: true, shift: false }
}

fn shift() -> Mod {
    Mod { ctrl: false, shift: true }
}

fn ctrl_shift() -> Mod {
    Mod { ctrl: true, shift: true }
}

/// Press a key. Whether something is left to whoever holds the window is told.
fn dispatch_key(r: &mut AppRenderer, key: Option<Key>, held: Mod) -> bool {
    r.sync();
    let now = sdl_ticks();
    let outside = Outside {
        here: HERE,
        cache_dir: "/tmp/cut".to_owned(),
        save_dir: resolve_save_folder(r),
        clipboard: r.pasteboard.clone(),
        now,
    };
    assert!(can_dispatch(&r.ui, HERE, key, held.ctrl, held.shift));
    let (effects, _) =
        sicompass_ui::events::dispatch_key(&mut r.ui, key, held.ctrl, held.shift, outside);
    if let Some(text) = effects.copied {
        r.pasteboard = Some(text);
    }
    r.run(effects.step);
    if effects.insert_first {
        sicompass_ui::history::insert_first(&mut r.ui, now, sdl_ticks());
    }
    effects.left.is_some()
}

// --- handlers ---

fn make_renderer() -> AppRenderer {
    let mut root = FfonElement::new_obj("provider");
    push_child(&mut root, FfonElement::new_str("item 0"));
    push_child(&mut root, FfonElement::new_str("item 1"));
    push_child(&mut root, FfonElement::new_str("item 2"));

    let mut section = FfonElement::new_obj("section");
    push_child(&mut section, FfonElement::new_str("child 0"));
    push_child(&mut root, section);

    let mut r = AppRenderer::new();
    r.ffon = vec![root];
    r.current_id = { let mut id = IdArray::new(); id.push(0); id.push(0); id };
    create_list_current_layer(&mut r);
    r
}

#[test]
fn up_moves_index() {
    let mut r = make_renderer();
    r.coordinate = Coordinate::SimpleSearch;
    r.list_index = 1;
    r.sync_current_id_from_list();
    handle_up(&mut r);
    assert_eq!(r.list_index, 0);
}

#[test]
fn up_clamps_at_zero() {
    let mut r = make_renderer();
    r.coordinate = Coordinate::SimpleSearch;
    r.list_index = 0;
    handle_up(&mut r);
    assert_eq!(r.list_index, 0);
}

#[test]
fn down_moves_index() {
    let mut r = make_renderer();
    r.coordinate = Coordinate::SimpleSearch;
    r.list_index = 0;
    handle_down(&mut r);
    assert_eq!(r.list_index, 1);
}

#[test]
fn down_clamps_at_end() {
    let mut r = make_renderer();
    r.coordinate = Coordinate::SimpleSearch;
    let last = r.active_list_len() - 1;
    r.list_index = last;
    handle_down(&mut r);
    assert_eq!(r.list_index, last);
}

#[test]
fn right_navigates_into_section() {
    let mut r = make_renderer();
    // Select "section" (index 3)
    r.list_index = 3;
    r.sync_current_id_from_list();
    handle_right(&mut r);
    assert_eq!(r.current_id.depth(), 3);
    assert_eq!(r.total_list.len(), 1); // "child 0"
}

#[test]
fn right_on_leaf_does_nothing() {
    let mut r = make_renderer();
    r.list_index = 0; // "item 0" — a leaf
    r.sync_current_id_from_list();
    let old_depth = r.current_id.depth();
    handle_right(&mut r);
    assert_eq!(r.current_id.depth(), old_depth);
}

#[test]
fn left_goes_back() {
    let mut r = make_renderer();
    // Navigate into section
    r.list_index = 3;
    r.sync_current_id_from_list();
    handle_right(&mut r);
    assert_eq!(r.current_id.depth(), 3);
    handle_left(&mut r);
    assert_eq!(r.current_id.depth(), 2);
}

#[test]
fn left_at_depth1_does_nothing() {
    let mut r = AppRenderer::new();
    r.ffon = vec![FfonElement::new_obj("p")];
    r.current_id = { let mut id = IdArray::new(); id.push(0); id };
    handle_left(&mut r);
    assert_eq!(r.current_id.depth(), 1);
}

#[test]
fn escape_from_search_clears_and_returns() {
    let mut r = make_renderer();
    r.coordinate = Coordinate::SimpleSearch;
    r.search_string = "query".to_owned();
    handle_escape(&mut r);
    assert_eq!(r.coordinate, Coordinate::General);
    assert!(r.search_string.is_empty());
}

#[test]
fn handle_input_in_search() {
    let mut r = make_renderer();
    r.coordinate = Coordinate::SimpleSearch;
    handle_input(&mut r, "item");
    assert_eq!(r.search_string, "item");
}

#[test]
fn handle_input_basic_insert() {
    let mut r = make_input_renderer("");
    r.cursor_position = 0;
    handle_input(&mut r, "abc");
    assert_eq!(r.input_buffer, "abc");
    assert_eq!(r.cursor_position, 3);
}

#[test]
fn handle_input_insert_at_cursor() {
    let mut r = make_input_renderer("hello");
    r.cursor_position = 2;
    handle_input(&mut r, "X");
    assert_eq!(r.input_buffer, "heXllo");
    assert_eq!(r.cursor_position, 3);
}

#[test]
fn handle_input_ignores_colon_in_empty_command_mode() {
    let mut r = make_renderer();
    r.coordinate = Coordinate::Command;
    r.input_buffer.clear();
    r.cursor_position = 0;
    handle_input(&mut r, ":");
    assert_eq!(r.input_buffer, "");
}

#[test]
fn handle_input_allows_colon_in_non_empty_command() {
    let mut r = make_renderer();
    r.coordinate = Coordinate::Command;
    handle_input(&mut r, "a");
    handle_input(&mut r, ":");
    assert_eq!(r.input_buffer, "a:");
}

#[test]
fn handle_input_sets_needs_redraw() {
    let mut r = make_input_renderer("");
    r.cursor_position = 0;
    handle_input(&mut r, "x");
    assert!(r.needs_redraw);
}

#[test]
fn handle_input_resets_caret() {
    let mut r = make_input_renderer("");
    r.cursor_position = 0;
    r.caret.visible = false;
    handle_input(&mut r, "x");
    assert!(r.caret.visible);
}

#[test]
fn handle_input_noop_in_operator_general() {
    let mut r = make_renderer();
    handle_input(&mut r, "abc");
    assert_eq!(r.input_buffer, "");
}

#[test]
fn handle_backspace_in_search() {
    let mut r = make_renderer();
    r.coordinate = Coordinate::SimpleSearch;
    r.search_string = "abc".to_owned();
    r.cursor_position = 3; // cursor at end, as set by handle_input
    handle_backspace(&mut r);
    assert_eq!(r.search_string, "ab");
    assert_eq!(r.cursor_position, 2);
}

// Input buffer helpers

fn make_input_renderer(text: &str) -> AppRenderer {
    let mut r = AppRenderer::new();
    r.input_buffer = text.to_string();
    r.cursor_position = 0;
    r.selection_anchor = None;
    edit_the_tree(&mut r);
    r.coordinate = Coordinate::Insert;
    r
}

// has_selection
#[test]
fn has_selection_no_anchor() {
    let r = make_input_renderer("hello");
    assert!(!has_selection(&r));
}

#[test]
fn has_selection_anchor_equals_cursor() {
    let mut r = make_input_renderer("hello");
    r.cursor_position = 3;
    r.selection_anchor = Some(3);
    assert!(!has_selection(&r));
}

#[test]
fn has_selection_forward() {
    let mut r = make_input_renderer("hello");
    r.selection_anchor = Some(1);
    r.cursor_position = 4;
    assert!(has_selection(&r));
}

#[test]
fn has_selection_reverse() {
    let mut r = make_input_renderer("hello");
    r.selection_anchor = Some(4);
    r.cursor_position = 1;
    assert!(has_selection(&r));
}

// clear_selection
#[test]
fn clear_selection_resets_anchor() {
    let mut r = make_input_renderer("hello");
    r.selection_anchor = Some(3);
    clear_selection(&mut r);
    assert_eq!(r.selection_anchor, None);
}

// selection_range
#[test]
fn selection_range_forward() {
    let mut r = make_input_renderer("hello");
    r.selection_anchor = Some(1);
    r.cursor_position = 4;
    assert_eq!(selection_range(&r), Some((1, 4)));
}

#[test]
fn selection_range_backward() {
    let mut r = make_input_renderer("hello");
    r.selection_anchor = Some(4);
    r.cursor_position = 1;
    assert_eq!(selection_range(&r), Some((1, 4)));
}

// delete_selection
#[test]
fn delete_selection_no_selection() {
    let mut r = make_input_renderer("hello");
    r.cursor_position = 3;
    delete_selection(&mut r);
    assert_eq!(r.input_buffer, "hello");
    assert_eq!(r.cursor_position, 3);
}

#[test]
fn delete_selection_middle() {
    let mut r = make_input_renderer("hello");
    r.selection_anchor = Some(1);
    r.cursor_position = 4;
    delete_selection(&mut r);
    assert_eq!(r.input_buffer, "ho");
    assert_eq!(r.cursor_position, 1);
    assert_eq!(r.selection_anchor, None);
}

#[test]
fn delete_selection_reverse() {
    let mut r = make_input_renderer("hello");
    r.selection_anchor = Some(4);
    r.cursor_position = 1;
    delete_selection(&mut r);
    assert_eq!(r.input_buffer, "ho");
    assert_eq!(r.cursor_position, 1);
}

#[test]
fn delete_selection_entire_string() {
    let mut r = make_input_renderer("hello");
    r.selection_anchor = Some(0);
    r.cursor_position = 5;
    delete_selection(&mut r);
    assert_eq!(r.input_buffer, "");
    assert_eq!(r.cursor_position, 0);
}

#[test]
fn delete_selection_single_char() {
    let mut r = make_input_renderer("hello");
    r.selection_anchor = Some(2);
    r.cursor_position = 3;
    delete_selection(&mut r);
    assert_eq!(r.input_buffer, "helo");
    assert_eq!(r.input_buffer.len(), 4);
}

// Shift selection handlers

#[test]
fn shift_left_starts_selection() {
    let mut r = make_input_renderer("hello");
    r.cursor_position = 3;
    handle_shift_left(&mut r);
    assert_eq!(r.selection_anchor, Some(3));
    assert_eq!(r.cursor_position, 2);
}

#[test]
fn shift_left_extends_selection() {
    let mut r = make_input_renderer("hello");
    r.cursor_position = 3;
    handle_shift_left(&mut r);
    handle_shift_left(&mut r);
    assert_eq!(r.selection_anchor, Some(3));
    assert_eq!(r.cursor_position, 1);
}

#[test]
fn shift_left_at_start_noop() {
    let mut r = make_input_renderer("hello");
    r.cursor_position = 0;
    handle_shift_left(&mut r);
    assert_eq!(r.selection_anchor, None);
    assert_eq!(r.cursor_position, 0);
}

#[test]
fn shift_left_utf8() {
    // "Aé" = A(1) + é(2) = 3 bytes
    let mut r = make_input_renderer("A\u{00E9}"); // é is 2 UTF-8 bytes
    r.cursor_position = 3; // end
    handle_shift_left(&mut r);
    assert_eq!(r.selection_anchor, Some(3));
    assert_eq!(r.cursor_position, 1); // start of é
}

#[test]
fn shift_right_starts_selection() {
    let mut r = make_input_renderer("hello");
    r.cursor_position = 1;
    handle_shift_right(&mut r);
    assert_eq!(r.selection_anchor, Some(1));
    assert_eq!(r.cursor_position, 2);
}

#[test]
fn shift_right_at_end_noop() {
    let mut r = make_input_renderer("hello");
    r.cursor_position = 5;
    handle_shift_right(&mut r);
    assert_eq!(r.selection_anchor, None);
    assert_eq!(r.cursor_position, 5);
}

#[test]
fn shift_right_utf8() {
    // "éB" = é(2) + B(1) = 3 bytes
    let mut r = make_input_renderer("\u{00E9}B"); // é is 2 UTF-8 bytes
    r.cursor_position = 0;
    handle_shift_right(&mut r);
    assert_eq!(r.selection_anchor, Some(0));
    assert_eq!(r.cursor_position, 2); // past é
}

#[test]
fn shift_home_from_middle() {
    let mut r = make_input_renderer("hello");
    r.cursor_position = 3;
    handle_shift_home(&mut r);
    assert_eq!(r.selection_anchor, Some(3));
    assert_eq!(r.cursor_position, 0);
}

#[test]
fn shift_home_preserves_existing_anchor() {
    let mut r = make_input_renderer("hello");
    r.cursor_position = 3;
    r.selection_anchor = Some(4);
    handle_shift_home(&mut r);
    assert_eq!(r.selection_anchor, Some(4));
    assert_eq!(r.cursor_position, 0);
}

#[test]
fn shift_end_from_middle() {
    let mut r = make_input_renderer("hello");
    r.cursor_position = 2;
    handle_shift_end(&mut r);
    assert_eq!(r.selection_anchor, Some(2));
    assert_eq!(r.cursor_position, 5);
}

#[test]
fn select_all_selects_everything() {
    let mut r = make_input_renderer("hello");
    r.cursor_position = 2;
    handle_select_all(&mut r);
    assert_eq!(r.selection_anchor, Some(0));
    assert_eq!(r.cursor_position, 5);
}

#[test]
fn select_all_empty_buffer_noop() {
    let mut r = make_input_renderer("");
    handle_select_all(&mut r);
    assert_eq!(r.selection_anchor, None);
    assert_eq!(r.cursor_position, 0);
}

// handle_ctrl_home / handle_ctrl_end

#[test]
fn ctrl_home_jumps_to_first() {
    let mut r = make_renderer();
    r.list_index = 3;
    handle_ctrl_home(&mut r);
    assert_eq!(r.list_index, 0);
    assert!(r.needs_redraw);
}

#[test]
fn ctrl_end_jumps_to_last() {
    let mut r = make_renderer();
    r.list_index = 0;
    handle_ctrl_end(&mut r);
    let last = r.active_list_len() - 1;
    assert_eq!(r.list_index, last);
    assert!(r.needs_redraw);
}

#[test]
fn ctrl_end_empty_list_no_change() {
    let mut r = AppRenderer::new();
    r.ffon = vec![FfonElement::new_obj("p")];
    r.current_id = { let mut id = IdArray::new(); id.push(0); id.push(0); id };
    // Empty: no children pushed
    r.list_index = 0;
    handle_ctrl_end(&mut r);
    // Empty list — list_index stays at 0
    assert_eq!(r.list_index, 0);
}

// handle_delete

#[test]
fn delete_sets_needs_redraw() {
    let mut r = make_renderer();
    r.needs_redraw = false;
    handle_delete(&mut r, History::NoHistory);
    assert!(r.needs_redraw);
}

// handle_colon

#[test]
fn colon_enters_command_mode() {
    let mut r = make_renderer();
    r.coordinate = Coordinate::General;
    handle_colon(&mut r);
    assert_eq!(r.coordinate, Coordinate::Command);
    assert_eq!(r.previous_coordinate, Coordinate::General);
}

#[test]
fn colon_clears_input_buffer() {
    let mut r = make_renderer();
    r.input_buffer = "hello".to_string();
    r.cursor_position = 3;
    handle_colon(&mut r);
    assert!(r.input_buffer.is_empty());
    assert_eq!(r.cursor_position, 0);
}

#[test]
fn colon_resets_command_phase_to_none() {
    let mut r = make_renderer();
    r.current_command = CommandPhase::Provider;
    handle_colon(&mut r);
    assert_eq!(r.current_command, CommandPhase::NoCommand);
}

// handle_enter_command

/// A provider that exposes one command ("open") and executes it immediately.
struct CmdProvider {
    cmds: Vec<String>,
    execute_ok: bool,
    handle_result: Option<FfonElement>,
    secondary_items: Vec<ListItem>,
}
impl Provider for CmdProvider {
    fn name(&self) -> &str { "cmdprov" }
    fn fetch(&mut self) -> Vec<FfonElement> { vec![] }
    fn commands(&self) -> Vec<String> { self.cmds.clone() }
    fn execute_command(&mut self, _cmd: &str, _sel: &str) -> bool { self.execute_ok }
    fn handle_command(&mut self, _cmd: &str, _key: &str, _ty: i32, _err: &mut String) -> Option<FfonElement> {
        self.handle_result.clone()
    }
    fn command_list_items(&self, _cmd: &str) -> Vec<ListItem> {
        self.secondary_items.iter().map(|i| ListItem { label: i.label.clone(), data: i.data.clone() }).collect()
    }
}

fn make_renderer_with_cmd_provider(
    commands: &[&str],
    handle_result: Option<FfonElement>,
    secondary_items: Vec<ListItem>,
) -> AppRenderer {
    let mut root = FfonElement::new_obj("cmdprov");
    push_child(&mut root, FfonElement::new_str("- item0"));

    let mut r = AppRenderer::new();
    r.ffon = vec![root];
    r.current_id = { let mut id = IdArray::new(); id.push(0); id.push(0); id };
    r.providers.push(Box::new(CmdProvider {
        cmds: commands.iter().map(|s| s.to_string()).collect(),
        execute_ok: true,
        handle_result,
        secondary_items,
    }));
    create_list_current_layer(&mut r);
    r
}

#[test]
fn enter_command_no_list_item_escapes() {
    let mut r = make_renderer_with_cmd_provider(&[], None, vec![]);
    r.coordinate = Coordinate::Command;
    r.total_list.clear(); // no items
    handle_enter_command(&mut r);
    // should escape back to previous coordinate
    assert_ne!(r.coordinate, Coordinate::Command);
}

#[test]
fn enter_command_phase_none_with_secondary_list_stays_in_command() {
    // Provider returns None + no error + has secondary items
    let items = vec![ListItem { label: "App A".to_string(), data: "/usr/bin/a".to_string() }];
    let mut r = make_renderer_with_cmd_provider(&["open"], None, items);
    r.coordinate = Coordinate::Command;
    r.previous_coordinate = Coordinate::General;
    // Manually populate command list
    create_list_current_layer(&mut r);
    // Should show 1 command: "open"
    assert_eq!(r.total_list.len(), 1);
    r.list_index = 0;

    handle_enter_command(&mut r);

    // Now in Phase 2: CommandPhase::Provider, secondary list visible
    assert_eq!(r.current_command, CommandPhase::Provider);
    assert_eq!(r.coordinate, Coordinate::Command);
    assert_eq!(r.total_list[0].label, "App A");
}

#[test]
fn enter_command_phase_provider_executes_and_returns() {
    let mut r = make_renderer_with_cmd_provider(&["open"], None, vec![]);
    r.coordinate = Coordinate::Command;
    r.previous_coordinate = Coordinate::General;
    r.current_command = CommandPhase::Provider;
    r.provider_command_name = "open".to_string();
    // Build a secondary list manually
    r.total_list = vec![RenderListItem {
        id: { let mut id = IdArray::new(); id.push(0); id },
        label: "App A".to_string(),
        data: Some("/usr/bin/a".to_string()),
        nav_path: None,
    }];
    r.list_index = 0;

    handle_enter_command(&mut r);

    // Should return to previous coordinate and reset phase
    assert_eq!(r.coordinate, Coordinate::General);
    assert_eq!(r.current_command, CommandPhase::NoCommand);
}

// handle_tab

#[test]
fn tab_noop_in_scroll_mode() {
    let mut r = make_renderer();
    r.coordinate = Coordinate::Scroll;
    handle_tab(&mut r);
    assert_eq!(r.coordinate, Coordinate::Scroll);
}

#[test]
fn tab_from_operator_enters_simple_search() {
    let mut r = make_renderer();
    r.coordinate = Coordinate::General;
    handle_tab(&mut r);
    assert_eq!(r.coordinate, Coordinate::SimpleSearch);
    assert_eq!(r.previous_coordinate, Coordinate::General);
    assert!(r.search_string.is_empty());
}

#[test]
fn tab_from_simple_search_is_noop() {
    let mut r = make_renderer();
    r.coordinate = Coordinate::SimpleSearch;
    handle_tab(&mut r);
    assert_eq!(r.coordinate, Coordinate::SimpleSearch);
}

// handle_escape (advanced)

#[test]
fn escape_from_command_mode() {
    let mut r = make_renderer();
    r.coordinate = Coordinate::Command;
    r.previous_coordinate = Coordinate::General;
    handle_escape(&mut r);
    assert_eq!(r.coordinate, Coordinate::General);
}

#[test]
fn escape_from_extended_search() {
    let mut r = make_renderer();
    r.coordinate = Coordinate::ExtendedSearch;
    r.previous_coordinate = Coordinate::General;
    handle_escape(&mut r);
    assert_eq!(r.coordinate, Coordinate::General);
}

#[test]
fn escape_from_scroll_search() {
    let mut r = make_renderer();
    r.coordinate = Coordinate::ScrollSearch;
    handle_escape(&mut r);
    assert_eq!(r.coordinate, Coordinate::Scroll);
}

#[test]
fn escape_from_scroll_returns_to_previous() {
    let mut r = make_renderer();
    r.coordinate = Coordinate::Scroll;
    r.previous_coordinate = Coordinate::General;
    handle_escape(&mut r);
    assert_eq!(r.coordinate, Coordinate::General);
}

#[test]
fn escape_clears_selection_anchor() {
    let mut r = make_input_renderer("hello");
    r.coordinate = Coordinate::Insert;
    r.selection_anchor = Some(5);
    handle_escape(&mut r);
    assert_eq!(r.selection_anchor, None);
}

#[test]
fn escape_from_editor_insert_goes_to_editor_general() {
    let mut r = make_renderer();
    edit_the_tree(&mut r);
    r.coordinate = Coordinate::Insert;
    handle_escape(&mut r);
    assert_eq!(r.coordinate, Coordinate::General);
}

// handle_s

#[test]
fn s_from_operator_enters_scroll() {
    let mut r = make_renderer();
    r.coordinate = Coordinate::General;
    handle_s(&mut r);
    assert_eq!(r.coordinate, Coordinate::Scroll);
    assert_eq!(r.previous_coordinate, Coordinate::General);
    assert_eq!(r.text_scroll_offset, -1); // sentinel: renderer computes initial offset
    assert_eq!(r.text_scroll_total_height, 0);
}

#[test]
fn s_noop_outside_operator() {
    let mut r = make_renderer();
    r.coordinate = Coordinate::SimpleSearch;
    handle_s(&mut r);
    assert_eq!(r.coordinate, Coordinate::SimpleSearch);
}

// handle_ctrl_f

#[test]
fn ctrl_f_from_scroll_enters_scroll_search() {
    let mut r = make_renderer();
    r.coordinate = Coordinate::Scroll;
    handle_ctrl_f(&mut r);
    assert_eq!(r.coordinate, Coordinate::ScrollSearch);
}

#[test]
fn ctrl_f_noop_in_scroll_search() {
    let mut r = make_renderer();
    r.coordinate = Coordinate::ScrollSearch;
    handle_ctrl_f(&mut r);
    assert_eq!(r.coordinate, Coordinate::ScrollSearch);
}

#[test]
fn ctrl_f_from_operator_enters_extended_search() {
    let mut r = make_renderer();
    r.coordinate = Coordinate::General;
    handle_ctrl_f(&mut r);
    assert_eq!(r.coordinate, Coordinate::ExtendedSearch);
    assert_eq!(r.previous_coordinate, Coordinate::General);
}

#[test]
fn ctrl_f_from_insert_enters_input_search() {
    let mut r = make_renderer();
    r.coordinate = Coordinate::Insert;
    handle_ctrl_f(&mut r);
    assert_eq!(r.coordinate, Coordinate::InputSearch);
    assert_eq!(r.previous_coordinate, Coordinate::Insert);
}

// handle_up / handle_down (advanced — with actual list)

#[test]
fn up_in_simple_search_decrements_list_index() {
    let mut r = make_renderer();
    r.coordinate = Coordinate::SimpleSearch;
    r.list_index = 3;
    r.sync_current_id_from_list();
    handle_up(&mut r);
    assert_eq!(r.list_index, 2);
}

#[test]
fn up_at_zero_stays_in_search() {
    let mut r = make_renderer();
    r.coordinate = Coordinate::SimpleSearch;
    r.list_index = 0;
    handle_up(&mut r);
    assert_eq!(r.list_index, 0);
}

#[test]
fn down_in_simple_search_increments_list_index() {
    let mut r = make_renderer();
    r.coordinate = Coordinate::SimpleSearch;
    r.list_index = 0;
    handle_down(&mut r);
    assert_eq!(r.list_index, 1);
}

#[test]
fn down_at_max_stays_in_search() {
    let mut r = make_renderer();
    r.coordinate = Coordinate::SimpleSearch;
    let last = r.active_list_len() - 1;
    r.list_index = last;
    handle_down(&mut r);
    assert_eq!(r.list_index, last);
}

// Clipboard — Ctrl+C / Ctrl+X / Ctrl+V

/// A user interface whose edits work on the tree, whose list shows `items` as string children
/// of provider 0. `list_index` is left at 0 (first child).
fn make_editor_with_items(items: &[&str]) -> AppRenderer {
    let mut root = FfonElement::new_obj("test");
    for &item in items {
        push_child(&mut root, FfonElement::new_str(item));
    }
    let mut r = AppRenderer::new();
    r.ffon = vec![root];
    edit_the_tree(&mut r);
    r.coordinate = Coordinate::General;
    let mut id = IdArray::new();
    id.push(0);
    id.push(0);
    r.current_id = id;
    create_list_current_layer(&mut r);
    r.list_index = 0;
    r
}

// --- Ctrl+C element mode ---

#[test]
fn ctrl_c_copies_first_element_to_clipboard() {
    let mut r = make_editor_with_items(&["hello", "world"]);
    handle_ctrl_c(&mut r);
    assert_eq!(r.clipboard.as_ref().and_then(|e| e.as_str()), Some("hello"));
    // ffon unchanged
    assert_eq!(r.ffon[0].as_obj().unwrap().children.len(), 2);
    assert!(r.needs_redraw);
}

#[test]
fn ctrl_c_copies_second_element() {
    let mut r = make_editor_with_items(&["first", "second"]);
    r.list_index = 1;
    handle_ctrl_c(&mut r);
    assert_eq!(r.clipboard.as_ref().and_then(|e| e.as_str()), Some("second"));
}

#[test]
fn ctrl_c_copies_object_element() {
    let mut root = FfonElement::new_obj("test");
    let mut section = FfonElement::new_obj("mykey");
    push_child(&mut section, FfonElement::new_str("child"));
    push_child(&mut root, FfonElement::new_str("first"));
    push_child(&mut root, section);
    let mut r = AppRenderer::new();
    r.ffon = vec![root];
    edit_the_tree(&mut r);
    r.coordinate = Coordinate::General;
    let mut id = IdArray::new();
    id.push(0); id.push(0);
    r.current_id = id;
    create_list_current_layer(&mut r);
    r.list_index = 1; // second child = "mykey" object
    handle_ctrl_c(&mut r);
    let clip = r.clipboard.as_ref().unwrap();
    assert!(clip.is_obj());
    assert_eq!(clip.as_obj().unwrap().key, "mykey");
    assert_eq!(clip.as_obj().unwrap().children.len(), 1);
}

#[test]
fn ctrl_c_replaces_previous_clipboard() {
    let mut r = make_editor_with_items(&["first", "second"]);
    r.list_index = 0;
    handle_ctrl_c(&mut r);
    assert_eq!(r.clipboard.as_ref().and_then(|e| e.as_str()), Some("first"));
    r.list_index = 1;
    handle_ctrl_c(&mut r);
    assert_eq!(r.clipboard.as_ref().and_then(|e| e.as_str()), Some("second"));
}

// --- Ctrl+C text mode (selection) ---

#[test]
fn ctrl_c_text_no_selection_does_nothing() {
    let mut r = make_input_renderer("hello");
    r.needs_redraw = false;
    handle_ctrl_c(&mut r);
    // no selection → nothing happens
    assert_eq!(r.input_buffer, "hello");
    assert!(!r.needs_redraw);
}

#[test]
fn ctrl_c_text_with_selection_sets_needs_redraw() {
    let mut r = make_input_renderer("hello world");
    r.selection_anchor = Some(0);
    r.cursor_position = 5;
    handle_ctrl_c(&mut r);
    // buffer unchanged (copy, not cut)
    assert_eq!(r.input_buffer, "hello world");
    assert!(r.needs_redraw);
}

// --- Ctrl+X element mode ---

#[test]
fn ctrl_x_sets_clipboard_in_editor_general() {
    let mut r = make_editor_with_items(&["first", "second", "third"]);
    r.list_index = 1;
    handle_ctrl_x(&mut r);
    assert_eq!(r.clipboard.as_ref().and_then(|e| e.as_str()), Some("second"));
    assert!(r.needs_redraw);
}

// --- Ctrl+X text mode ---

#[test]
fn ctrl_x_text_cuts_selection() {
    let mut r = make_input_renderer("hello world");
    r.selection_anchor = Some(6);
    r.cursor_position = 11;
    handle_ctrl_x(&mut r);
    assert_eq!(r.input_buffer, "hello ");
    assert_eq!(r.cursor_position, 6);
    assert!(r.needs_redraw);
}

#[test]
fn ctrl_x_text_no_selection_does_nothing() {
    let mut r = make_input_renderer("hello");
    r.needs_redraw = false;
    handle_ctrl_x(&mut r);
    assert_eq!(r.input_buffer, "hello");
    assert!(!r.needs_redraw);
}

#[test]
fn ctrl_x_text_cuts_middle_selection() {
    let mut r = make_input_renderer("abcdefgh");
    r.selection_anchor = Some(2);
    r.cursor_position = 5;
    handle_ctrl_x(&mut r);
    assert_eq!(r.input_buffer, "abfgh");
    assert_eq!(r.cursor_position, 2);
}

#[test]
fn ctrl_x_text_reverse_selection_cuts_correctly() {
    // anchor > cursor (reverse selection)
    let mut r = make_input_renderer("hello world");
    r.selection_anchor = Some(11);
    r.cursor_position = 6;
    handle_ctrl_x(&mut r);
    assert_eq!(r.input_buffer, "hello ");
    assert_eq!(r.cursor_position, 6);
}

// --- Ctrl+V element mode ---

#[test]
fn ctrl_v_element_mode_sets_needs_redraw() {
    let mut r = make_editor_with_items(&["original"]);
    r.clipboard = Some(FfonElement::Str("pasted".to_string()));
    handle_ctrl_v(&mut r);
    assert!(r.needs_redraw);
}

#[test]
fn ctrl_v_element_mode_no_clipboard_still_redraws() {
    let mut r = make_editor_with_items(&["original"]);
    r.clipboard = None;
    handle_ctrl_v(&mut r);
    assert!(r.needs_redraw);
}

// --- Ctrl+V text mode (no clipboard path) ---

#[test]
fn ctrl_v_text_no_clipboard_does_nothing() {
    let mut r = make_input_renderer("hello");
    r.cursor_position = 5;
    let before = r.input_buffer.clone();
    handle_ctrl_v(&mut r);
    // Buffer unchanged: there is nothing on the clipboard
    assert_eq!(r.input_buffer, before);
}

// --- Ctrl+X actually removes element from FFON ---

#[test]
fn ctrl_x_removes_element_from_ffon() {
    let mut r = make_editor_with_items(&["first", "second", "third"]);
    r.list_index = 1;
    r.sync_current_id_from_list();
    let before_len = r.ffon[0].as_obj().unwrap().children.len();
    handle_ctrl_x(&mut r);
    let after_len = r.ffon[0].as_obj().unwrap().children.len();
    assert_eq!(after_len, before_len - 1);
}

#[test]
fn ctrl_x_cut_first_element_cursor_stays_at_zero() {
    let mut r = make_editor_with_items(&["a", "b", "c"]);
    r.list_index = 0;
    r.sync_current_id_from_list();
    handle_ctrl_x(&mut r);
    assert_eq!(r.list_index, 0);
}

#[test]
fn ctrl_x_cut_last_element_cursor_adjusts() {
    let mut r = make_editor_with_items(&["a", "b", "c"]);
    r.list_index = 2;
    r.sync_current_id_from_list();
    handle_ctrl_x(&mut r);
    let new_len = r.ffon[0].as_obj().unwrap().children.len();
    assert!(r.list_index < new_len.max(1));
}

// --- Ctrl+V actually replaces element ---

#[test]
fn ctrl_v_paste_replaces_current_element() {
    let mut r = make_editor_with_items(&["original"]);
    r.list_index = 0;
    r.sync_current_id_from_list();
    r.clipboard = Some(FfonElement::Str("pasted".to_string()));
    handle_ctrl_v(&mut r);
    let elem = &r.ffon[0].as_obj().unwrap().children[0];
    assert_eq!(elem.as_str(), Some("pasted"));
}

// --- Integration: copy then paste ---

#[test]
fn clipboard_integration_copy_then_paste() {
    let mut r = make_editor_with_items(&["alpha", "beta"]);
    r.list_index = 0;
    r.sync_current_id_from_list();
    handle_ctrl_c(&mut r);
    r.list_index = 1;
    r.sync_current_id_from_list();
    handle_ctrl_v(&mut r);
    let elem = &r.ffon[0].as_obj().unwrap().children[1];
    assert_eq!(elem.as_str(), Some("alpha"));
}

#[test]
fn clipboard_integration_cut_then_paste() {
    let mut r = make_editor_with_items(&["alpha", "beta"]);
    r.list_index = 0;
    r.sync_current_id_from_list();
    handle_ctrl_x(&mut r);
    assert_eq!(r.clipboard.as_ref().and_then(|e| e.as_str()), Some("alpha"));
    // After cut, "beta" is at index 0
    create_list_current_layer(&mut r);
    r.list_index = 0;
    r.sync_current_id_from_list();
    handle_ctrl_v(&mut r);
    let elem = &r.ffon[0].as_obj().unwrap().children[0];
    assert_eq!(elem.as_str(), Some("alpha"));
}

#[test]
fn clipboard_integration_multiple_pastes() {
    let mut r = make_editor_with_items(&["src", "dst1", "dst2"]);
    r.list_index = 0;
    r.sync_current_id_from_list();
    handle_ctrl_c(&mut r);
    r.list_index = 1;
    r.sync_current_id_from_list();
    handle_ctrl_v(&mut r);
    create_list_current_layer(&mut r);
    r.list_index = 2;
    r.sync_current_id_from_list();
    handle_ctrl_v(&mut r);
    let children = &r.ffon[0].as_obj().unwrap().children;
    assert_eq!(children[1].as_str(), Some("src"));
    assert_eq!(children[2].as_str(), Some("src"));
}

// handle_ctrl_home / handle_ctrl_end (filtered list variants)

fn make_renderer_with_items(items: &[&str]) -> AppRenderer {
    let mut root = FfonElement::new_obj("provider");
    for item in items {
        push_child(&mut root, FfonElement::new_str(*item));
    }
    let mut r = AppRenderer::new();
    r.ffon = vec![root];
    r.current_id = { let mut id = IdArray::new(); id.push(0); id.push(0); id };
    create_list_current_layer(&mut r);
    r
}

#[test]
fn ctrl_home_filtered_list_jumps_to_first() {
    let mut r = make_renderer_with_items(&["a", "b", "c", "d", "e"]);
    // Simulate a filtered list with 3 matches
    r.filtered_list_indices = vec![1, 2, 3];
    r.list_index = 2;
    handle_ctrl_home(&mut r);
    assert_eq!(r.list_index, 0);
    assert!(r.needs_redraw);
}

#[test]
fn ctrl_home_empty_list_no_change() {
    let mut r = AppRenderer::new();
    r.ffon = vec![FfonElement::new_obj("empty")];
    r.current_id = { let mut id = IdArray::new(); id.push(0); id.push(0); id };
    r.list_index = 0;
    handle_ctrl_home(&mut r);
    assert_eq!(r.list_index, 0);
    assert!(r.needs_redraw);
}

#[test]
fn ctrl_end_filtered_list_jumps_to_last_filtered() {
    let mut r = make_renderer_with_items(&["a", "b", "c", "d", "e"]);
    // Simulate a filtered list with 3 matches (indices 1,2,3 → display index 0,1,2)
    r.filtered_list_indices = vec![1, 2, 3];
    r.list_index = 0;
    handle_ctrl_end(&mut r);
    assert_eq!(r.list_index, 2); // filteredListCount - 1
    assert!(r.needs_redraw);
}

// handle_delete (no-history variant)

#[test]
fn delete_no_history_passes_none() {
    let mut r = make_renderer_with_items(&["item"]);
    r.list_index = 0;
    r.sync_current_id_from_list();
    // Should not panic; just verify it sets needs_redraw
    handle_delete(&mut r, History::NoHistory);
    assert!(r.needs_redraw);
}

// handle_tab (new variants)

#[test]
fn tab_noop_in_scroll_search_mode() {
    let mut r = make_renderer();
    r.coordinate = Coordinate::ScrollSearch;
    handle_tab(&mut r);
    assert_eq!(r.coordinate, Coordinate::ScrollSearch);
}

#[test]
fn tab_from_editor_enters_simple_search() {
    let mut r = make_renderer();
    edit_the_tree(&mut r);
    r.coordinate = Coordinate::General;
    handle_tab(&mut r);
    assert_eq!(r.coordinate, Coordinate::SimpleSearch);
    assert_eq!(r.previous_coordinate, Coordinate::General);
}

// handle_escape (new variants)

#[test]
fn escape_from_operator_insert_goes_to_operator_general() {
    let mut r = make_renderer();
    r.coordinate = Coordinate::Insert;
    handle_escape(&mut r);
    assert_eq!(r.coordinate, Coordinate::General);
}

#[test]
fn escape_from_simple_search_returns_to_previous() {
    let mut r = make_renderer();
    r.coordinate = Coordinate::SimpleSearch;
    r.previous_coordinate = Coordinate::General;
    r.current_id.set_last(3); // simulate current position
    handle_escape(&mut r);
    assert_eq!(r.coordinate, Coordinate::General);
    // list_index should be synced to currentId
    assert_eq!(r.list_index, 3);
}

#[test]
fn escape_from_unknown_with_operator_previous() {
    let mut r = make_renderer();
    edit_the_tree(&mut r);
    r.coordinate = Coordinate::General;
    r.previous_coordinate = Coordinate::General;
    handle_escape(&mut r);
    assert_eq!(r.coordinate, Coordinate::General);
}

#[test]
fn escape_from_unknown_defaults_to_editor() {
    let mut r = make_renderer();
    edit_the_tree(&mut r);
    r.coordinate = Coordinate::General;
    r.previous_coordinate = Coordinate::General;
    handle_escape(&mut r);
    assert_eq!(r.coordinate, Coordinate::General);
}

#[test]
fn escape_from_dashboard_returns_to_previous() {
    let mut r = make_renderer();
    r.coordinate = Coordinate::Dashboard;
    r.previous_coordinate = Coordinate::General;
    handle_escape(&mut r);
    assert_eq!(r.coordinate, Coordinate::General);
    assert!(r.needs_redraw);
}

#[test]
fn escape_from_scroll_search_resets_match_counts() {
    let mut r = make_renderer();
    r.coordinate = Coordinate::ScrollSearch;
    r.scroll_search_match_count = 5;
    r.scroll_search_current_match = 2;
    handle_escape(&mut r);
    assert_eq!(r.coordinate, Coordinate::Scroll);
    assert_eq!(r.scroll_search_match_count, 0);
    assert_eq!(r.scroll_search_current_match, 0);
}

// handle_ctrl_f (new variants)

#[test]
fn ctrl_f_noop_in_command_mode() {
    let mut r = make_renderer();
    r.coordinate = Coordinate::Command;
    handle_ctrl_f(&mut r);
    assert_eq!(r.coordinate, Coordinate::Command);
}

#[test]
fn ctrl_f_from_simple_search_preserves_previous() {
    let mut r = make_renderer();
    r.coordinate = Coordinate::SimpleSearch;
    r.previous_coordinate = Coordinate::General;
    handle_ctrl_f(&mut r);
    assert_eq!(r.coordinate, Coordinate::ExtendedSearch);
    assert_eq!(r.previous_coordinate, Coordinate::General); // not overwritten
}

#[test]
fn ctrl_f_from_scroll_resets_search_state() {
    let mut r = make_renderer();
    r.coordinate = Coordinate::Scroll;
    r.scroll_search_match_count = 5;
    r.scroll_search_current_match = 3;
    handle_ctrl_f(&mut r);
    assert_eq!(r.coordinate, Coordinate::ScrollSearch);
    assert_eq!(r.scroll_search_match_count, 0);
    assert_eq!(r.scroll_search_current_match, 0);
}

// handle_up (new variants: scroll search, scroll, command mode)

#[test]
fn up_in_scroll_search_wraps_to_last() {
    let mut r = make_renderer();
    r.coordinate = Coordinate::ScrollSearch;
    r.scroll_search_match_count = 5;
    r.scroll_search_current_match = 0;
    handle_up(&mut r);
    assert_eq!(r.scroll_search_current_match, 4); // wraps to last
}

#[test]
fn up_in_scroll_search_decrements() {
    let mut r = make_renderer();
    r.coordinate = Coordinate::ScrollSearch;
    r.scroll_search_match_count = 5;
    r.scroll_search_current_match = 3;
    handle_up(&mut r);
    assert_eq!(r.scroll_search_current_match, 2);
}

#[test]
fn up_in_scroll_mode_decrements_offset() {
    let mut r = make_renderer();
    r.coordinate = Coordinate::Scroll;
    // step = cached_line_height (20); start above step so clamp doesn't apply
    r.text_scroll_offset = 50;
    handle_up(&mut r);
    assert_eq!(r.text_scroll_offset, 30); // 50 - 20
}

#[test]
fn up_in_scroll_mode_clamps_at_zero() {
    let mut r = make_renderer();
    r.coordinate = Coordinate::Scroll;
    r.text_scroll_offset = 0;
    handle_up(&mut r);
    assert_eq!(r.text_scroll_offset, 0);
}

#[test]
fn up_in_search_clears_error_message() {
    let mut r = make_renderer();
    r.coordinate = Coordinate::SimpleSearch;
    r.error_message = "some error".to_owned();
    r.list_index = 2;
    handle_up(&mut r);
    assert!(r.error_message.is_empty());
}

#[test]
fn up_in_command_mode_no_id_copy() {
    // In command mode, listIndex decrements but currentId is NOT updated
    let mut r = make_renderer_with_items(&["a", "b", "c", "d", "e"]);
    r.coordinate = Coordinate::Command;
    r.list_index = 2;
    let saved_id = r.current_id.clone();
    handle_up(&mut r);
    assert_eq!(r.list_index, 1);
    assert_eq!(r.current_id.ids, saved_id.ids); // currentId unchanged
}

#[test]
fn up_in_general_sets_needs_redraw() {
    let mut r = make_renderer();
    r.coordinate = Coordinate::General;
    handle_up(&mut r);
    assert!(r.needs_redraw);
}

#[test]
fn up_noop_in_insert_mode_but_redraws() {
    let mut r = make_renderer();
    edit_the_tree(&mut r);
    r.coordinate = Coordinate::Insert;
    handle_up(&mut r);
    assert!(r.needs_redraw);
}

// handle_down (new variants)

#[test]
fn down_in_scroll_search_wraps_to_first() {
    let mut r = make_renderer();
    r.coordinate = Coordinate::ScrollSearch;
    r.scroll_search_match_count = 5;
    r.scroll_search_current_match = 4;
    handle_down(&mut r);
    assert_eq!(r.scroll_search_current_match, 0); // wraps to first
}

#[test]
fn down_in_scroll_search_increments() {
    let mut r = make_renderer();
    r.coordinate = Coordinate::ScrollSearch;
    r.scroll_search_match_count = 5;
    r.scroll_search_current_match = 2;
    handle_down(&mut r);
    assert_eq!(r.scroll_search_current_match, 3);
}

#[test]
fn down_in_command_mode_no_id_copy() {
    let mut r = make_renderer_with_items(&["a", "b", "c", "d", "e"]);
    r.coordinate = Coordinate::Command;
    r.list_index = 1;
    let saved_id = r.current_id.clone();
    handle_down(&mut r);
    assert_eq!(r.list_index, 2);
    assert_eq!(r.current_id.ids, saved_id.ids); // currentId unchanged
}

#[test]
fn down_in_general_sets_needs_redraw() {
    let mut r = make_renderer();
    edit_the_tree(&mut r);
    r.coordinate = Coordinate::General;
    handle_down(&mut r);
    assert!(r.needs_redraw);
}

#[test]
fn down_noop_in_operator_insert() {
    let mut r = make_renderer_with_items(&["a", "b", "c"]);
    r.coordinate = Coordinate::Insert;
    r.list_index = 1;
    handle_down(&mut r);
    assert_eq!(r.list_index, 1); // unchanged
}

#[test]
fn down_uses_filtered_count_as_max() {
    // ExtendedSearch with filtered list: can't go past filteredListCount - 1
    let mut r = make_renderer_with_items(&["a", "b", "c", "d", "e", "f", "g", "h", "i", "j"]);
    r.coordinate = Coordinate::ExtendedSearch;
    // Simulate 3 filtered matches (display indices 0, 1, 2)
    r.filtered_list_indices = vec![0, 1, 2];
    r.list_index = 2; // already at max filtered index
    handle_down(&mut r);
    assert_eq!(r.list_index, 2); // can't go further
}

#[test]
fn utf8_char_length_ascii() {
    // ASCII char is 1 byte
    let s = "A";
    let len = s.chars().next().map(|c| c.len_utf8()).unwrap_or(0);
    assert_eq!(len, 1);
}

#[test]
fn utf8_char_length_two_byte() {
    // "é" (U+00E9) is 2 bytes
    let s = "\u{00E9}";
    let len = s.chars().next().map(|c| c.len_utf8()).unwrap_or(0);
    assert_eq!(len, 2);
}

#[test]
fn utf8_char_length_three_byte() {
    // "€" (U+20AC) is 3 bytes
    let s = "\u{20AC}";
    let len = s.chars().next().map(|c| c.len_utf8()).unwrap_or(0);
    assert_eq!(len, 3);
}

#[test]
fn utf8_char_length_four_byte() {
    // "𝄞" (U+1D11E) is 4 bytes
    let s = "\u{1D11E}";
    let len = s.chars().next().map(|c| c.len_utf8()).unwrap_or(0);
    assert_eq!(len, 4);
}

#[test]
fn utf8_char_length_at_offset() {
    // "Aé" — char at byte offset 1 is "é" (2 bytes)
    let s = "A\u{00E9}";
    let len = s[1..].chars().next().map(|c| c.len_utf8()).unwrap_or(0);
    assert_eq!(len, 2);
}

#[test]
fn utf8_move_backward_at_start() {
    // At position 0, backspace is a no-op
    let mut r = make_input_renderer("hello");
    r.cursor_position = 0;
    handle_backspace(&mut r);
    assert_eq!(r.cursor_position, 0);
    assert_eq!(r.input_buffer, "hello");
}

#[test]
fn utf8_move_backward_ascii() {
    // From byte 3 in "hello", backspace moves to byte 2
    let mut r = make_input_renderer("hello");
    r.cursor_position = 3;
    handle_backspace(&mut r);
    assert_eq!(r.cursor_position, 2);
}

#[test]
fn utf8_move_backward_two_byte_char() {
    // "Aé": backspace from end (byte 3) removes "é", cursor at byte 1
    let mut r = make_input_renderer("A\u{00E9}");
    r.cursor_position = 3;
    handle_backspace(&mut r);
    assert_eq!(r.cursor_position, 1);
    assert_eq!(r.input_buffer, "A");
}

// handle_ctrl_i

#[test]
fn ctrl_i_single_tap_performs_insert() {
    let mut r = AppRenderer::new();
    r.last_keypress_time = 0; // ensure no double-tap
    r.coordinate = Coordinate::General;
    handle_ctrl_i(&mut r, History::NoHistory);
    assert!(r.needs_redraw);
    assert!(r.last_keypress_time > 0);
}

#[test]
fn ctrl_i_double_tap_updates_timer() {
    let mut r = AppRenderer::new();
    // Simulate first tap just happened (set time far in the past so next call is a "second tap"
    // within DELTA_MS by setting it to now so the delta is near zero)
    let before = sdl_ticks();
    r.last_keypress_time = before; // within DELTA_MS of the upcoming call
    handle_ctrl_i(&mut r, History::NoHistory);
    // After double-tap the timer should be updated to "now" (>= before)
    assert!(r.last_keypress_time >= before);
    assert!(r.needs_redraw);
}

// handle_save_as_provider_config

#[test]
fn save_as_sets_pending_when_filebrowser_present() {

    let fb_root = FfonElement::Obj(FfonObject { key: "file browser".to_string(), children: vec![] });
    let src_root = FfonElement::Obj(FfonObject { key: "myprov".to_string(), children: vec![] });
    let mut r = AppRenderer::new();
    r.ffon = vec![fb_root, src_root];
    r.providers.push(Box::new(FileBrowser { path: "/".to_owned() }));
    // Navigate to provider 1 (source)
    r.current_id = { let mut id = IdArray::new(); id.push(1); id.push(0); id };
    // Set save_folder_path to /tmp (guaranteed to exist)
    r.save_folder_path = "/tmp".to_owned();

    handle_save_as_provider_config(&mut r);

    assert!(r.pending_file_browser_save_as, "save-as flag should be set");
    assert_eq!(r.save_as_source_root_idx, 1);
}

#[test]
fn save_as_no_filebrowser_sets_error() {
    let mut r = AppRenderer::new();
    handle_save_as_provider_config(&mut r);
    assert!(!r.error_message.is_empty());
    assert!(!r.pending_file_browser_save_as);
}

// resolve_save_folder

#[test]
fn resolve_save_folder_absolute_path_unchanged() {
    let mut r = AppRenderer::new();
    r.save_folder_path = "/custom/save/dir".to_owned();
    let result = resolve_save_folder(&r);
    assert_eq!(result, "/custom/save/dir");
}

#[test]
fn resolve_save_folder_relative_appends_home() {
    let mut r = AppRenderer::new();
    r.save_folder_path = "Documents".to_owned();
    let result = resolve_save_folder(&r);
    // Should contain "Documents" somewhere (after HOME/)
    assert!(result.ends_with("/Documents"), "got: {result}");
}

#[test]
fn resolve_save_folder_empty_returns_downloads() {
    let r = AppRenderer::new(); // save_folder_path is empty
    let result = resolve_save_folder(&r);
    // Should be some real path (Downloads or /tmp fallback)
    assert!(!result.is_empty());
}

#[test]
fn utf8_move_backward_three_byte_char() {
    // "A€": backspace from end (byte 4) removes "€", cursor at byte 1
    let mut r = make_input_renderer("A\u{20AC}");
    r.cursor_position = 4;
    handle_backspace(&mut r);
    assert_eq!(r.cursor_position, 1);
    assert_eq!(r.input_buffer, "A");
}

#[test]
fn utf8_move_forward_ascii() {
    // Shift+Right on ASCII "hello" from pos 0 moves to pos 1
    let mut r = make_input_renderer("hello");
    r.cursor_position = 0;
    handle_shift_right(&mut r);
    assert_eq!(r.cursor_position, 1);
}

#[test]
fn utf8_move_forward_at_end() {
    // Shift+Right at end is a no-op
    let mut r = make_input_renderer("hello");
    r.cursor_position = 5;
    handle_shift_right(&mut r);
    assert_eq!(r.cursor_position, 5);
}

// handle_file_copy

fn make_renderer_with_file_elem(dir: &str, filename: &str) -> AppRenderer {
    let entry = FfonElement::new_str(filename);
    let root_obj = FfonObject { key: "file browser".to_string(), children: vec![entry] };
    let root = FfonElement::Obj(root_obj);
    let mut r = AppRenderer::new();
    r.ffon = vec![root];
    r.current_id = { let mut id = IdArray::new(); id.push(0); id.push(0); id };
    r.providers.push(Box::new(FileBrowser { path: dir.to_owned() }));
    r
}

#[test]
fn file_copy_sets_clipboard_path() {
    let mut r = make_renderer_with_file_elem("/home/user/docs", "report.pdf");
    handle_file_copy(&mut r);
    assert_eq!(r.file_clipboard_path, "/home/user/docs/report.pdf");
    assert!(!r.file_clipboard_is_cut);
}

#[test]
fn file_copy_empty_name_is_noop() {
    // An element with an empty (display-stripped) name should not change clipboard
    let mut r = make_renderer_with_file_elem("/home/user", "");
    let before = r.file_clipboard_path.clone();
    handle_file_copy(&mut r);
    assert_eq!(r.file_clipboard_path, before);
}

#[test]
fn file_copy_marks_not_cut() {
    let mut r = make_renderer_with_file_elem("/tmp", "notes.txt");
    r.file_clipboard_is_cut = true; // ensure it's overwritten
    handle_file_copy(&mut r);
    assert!(!r.file_clipboard_is_cut);
}

// handle_ctrl_enter

#[test]
fn ctrl_enter_inserts_newline_in_editor_insert() {
    let mut r = make_input_renderer("hello");
    r.cursor_position = 5;
    edit_the_tree(&mut r);
    r.coordinate = Coordinate::Insert;
    handle_ctrl_enter(&mut r);
    assert!(r.input_buffer.contains('\n'));
}

#[test]
fn ctrl_enter_inserts_newline_in_operator_insert() {
    let mut r = make_input_renderer("abc");
    r.cursor_position = 3;
    r.coordinate = Coordinate::Insert;
    handle_ctrl_enter(&mut r);
    assert!(r.input_buffer.contains('\n'));
}

#[test]
fn ctrl_enter_noop_in_operator_general() {
    let mut r = make_input_renderer("abc");
    r.coordinate = Coordinate::General;
    handle_ctrl_enter(&mut r);
    assert_eq!(r.input_buffer, "abc"); // unchanged
}

// handle_save_provider_config

#[test]
fn save_config_no_path_launches_save_as() {
    // When no path is set, save_provider_config launches save-as.
    // With no filebrowser registered it should set an error about filebrowser unavailability.
    let mut r = AppRenderer::new();
    r.current_save_path = String::new();
    handle_save_provider_config(&mut r);
    // Either the save-as dialog started (pending_file_browser_save_as set) or
    // an error was shown (no filebrowser available in test renderer).
    assert!(r.pending_file_browser_save_as || !r.error_message.is_empty());
    assert!(r.needs_redraw);
}

#[test]
fn save_config_with_path_writes_file() {
    let path = "/tmp/saved.json".to_owned();

    let root = FfonElement::Obj(FfonObject { key: "myprov".to_string(), children: vec![] });
    let mut r = AppRenderer::new();
    r.ffon = vec![root];
    r.current_id = { let mut id = IdArray::new(); id.push(0); id };
    r.current_save_path = path.clone();

    handle_save_provider_config(&mut r);

    assert!(r.error_message.contains(&path), "expected path in message, got: {}", r.error_message);
    assert!(r.disk.contains_key(&path));
}

// handle_load_provider_config

#[test]
fn load_config_empty_path_is_noop() {
    let mut r = AppRenderer::new();
    r.error_message = String::new();
    handle_load_provider_config(&mut r, "");
    assert!(r.error_message.is_empty());
}

#[test]
fn load_config_sets_save_path_and_clears_undo() {
    let path = "/tmp/loaded.json".to_owned();

    let root = FfonElement::Obj(FfonObject { key: "myprov".to_string(), children: vec![] });
    let mut r = AppRenderer::new();
    r.ffon = vec![root];
    r.current_id = { let mut id = IdArray::new(); id.push(0); id };
    r.disk.insert(
        path.clone(),
        vec![FfonElement::new_str("- item1"), FfonElement::new_str("- item2")],
    );
    for _ in 0..3 {
        r.tab_timelines[0].entries.push(TimelineEntry::TextChunk {
            id: IdArray::single(0),
            before: FfonElement::new_str("a"),
            after: FfonElement::new_str("b"),
            chunk_seq: 0,
        });
    }
    r.tab_timelines[0].position = 3;

    handle_load_provider_config(&mut r, &path);

    assert_eq!(r.current_save_path, path);
    assert_eq!(r.active_timeline().position, 0);
    assert!(r.error_message.contains(&path));
}

#[test]
fn load_config_missing_file_sets_error() {
    let mut r = AppRenderer::new();
    handle_load_provider_config(&mut r, "/nonexistent/path/file.json");
    assert!(!r.error_message.is_empty());
    assert!(r.needs_redraw);
}

// handle_page_up / handle_page_down

// Helper: renderer with window_height=40, cached_line_height=10 → page_size=1
fn make_renderer_paged() -> AppRenderer {
    let mut r = make_renderer();
    r.window_height = 40;
    r.cached_line_height = 10;
    r
}

#[test]
fn page_up_noop_in_editor_insert() {
    let mut r = make_renderer_paged();
    edit_the_tree(&mut r);
    r.coordinate = Coordinate::Insert;
    r.list_index = 2;
    handle_page_up(&mut r);
    assert_eq!(r.list_index, 2); // unchanged
}

#[test]
fn page_down_noop_in_operator_insert() {
    let mut r = make_renderer_paged();
    r.coordinate = Coordinate::Insert;
    r.list_index = 0;
    handle_page_down(&mut r);
    assert_eq!(r.list_index, 0); // unchanged
}

#[test]
fn page_up_simple_search_moves_index() {
    let mut r = make_renderer_paged();
    r.coordinate = Coordinate::SimpleSearch;
    r.list_index = 3;
    r.error_message = "err".to_owned();
    handle_page_up(&mut r);
    assert_eq!(r.list_index, 2); // decremented by page_size=1
    assert!(r.error_message.is_empty());
    assert!(r.needs_redraw);
}

#[test]
fn page_up_simple_search_clamps_at_zero() {
    let mut r = make_renderer_paged();
    r.coordinate = Coordinate::SimpleSearch;
    r.list_index = 0;
    handle_page_up(&mut r);
    assert_eq!(r.list_index, 0);
}

#[test]
fn page_down_simple_search_moves_index() {
    let mut r = make_renderer_paged();
    r.coordinate = Coordinate::SimpleSearch;
    r.list_index = 0;
    handle_page_down(&mut r);
    assert_eq!(r.list_index, 1); // incremented by page_size=1
    assert!(r.needs_redraw);
}

#[test]
fn page_down_simple_search_clamps_at_end() {
    let mut r = make_renderer_paged();
    r.coordinate = Coordinate::SimpleSearch;
    let last = r.active_list_len() - 1;
    r.list_index = last;
    handle_page_down(&mut r);
    assert_eq!(r.list_index, last);
}

#[test]
fn page_up_scroll_decreases_offset() {
    let mut r = make_renderer_paged();
    r.coordinate = Coordinate::Scroll;
    // viewport_h = window_height(40) - line_height(10) = 30; start above that
    r.text_scroll_offset = 50;
    handle_page_up(&mut r);
    assert_eq!(r.text_scroll_offset, 20); // 50 - 30
    assert!(r.needs_redraw);
}

#[test]
fn page_up_scroll_clamps_at_zero() {
    let mut r = make_renderer_paged();
    r.coordinate = Coordinate::Scroll;
    r.text_scroll_offset = 0;
    handle_page_up(&mut r);
    assert_eq!(r.text_scroll_offset, 0);
}

#[test]
fn page_down_scroll_increases_offset() {
    let mut r = make_renderer_paged();
    r.coordinate = Coordinate::Scroll;
    r.text_scroll_offset = 0;
    r.text_scroll_total_height = 100;
    handle_page_down(&mut r);
    assert!(r.text_scroll_offset > 0);
    assert!(r.needs_redraw);
}

#[test]
fn page_up_input_search_decreases_offset() {
    let mut r = make_renderer_paged();
    r.coordinate = Coordinate::InputSearch;
    r.input_search_scroll_offset = 3;
    handle_page_up(&mut r);
    assert_eq!(r.input_search_scroll_offset, 2);
    assert!(r.needs_redraw);
}

#[test]
fn page_up_input_search_clamps_at_zero() {
    let mut r = make_renderer_paged();
    r.coordinate = Coordinate::InputSearch;
    r.input_search_scroll_offset = 0;
    handle_page_up(&mut r);
    assert_eq!(r.input_search_scroll_offset, 0);
}

#[test]
fn page_down_input_search_increases_offset() {
    let mut r = make_renderer_paged();
    r.coordinate = Coordinate::InputSearch;
    r.input_search_scroll_offset = 0;
    handle_page_down(&mut r);
    assert_eq!(r.input_search_scroll_offset, 1); // page_size=1
    assert!(r.needs_redraw);
}

// handle_ctrl_home / handle_ctrl_end

#[test]
fn ctrl_home_in_simple_search_resets_scroll_offset() {
    let mut r = make_renderer();
    r.coordinate = Coordinate::SimpleSearch;
    r.list_index = 3;
    r.scroll_offset = 3;
    handle_ctrl_home(&mut r);
    assert_eq!(r.list_index, 0);
    assert_eq!(r.scroll_offset, 0);
    assert!(r.needs_redraw);
}

#[test]
fn ctrl_home_empty_list_no_crash() {
    let mut r = AppRenderer::new();
    handle_ctrl_home(&mut r); // should not panic
    assert!(r.needs_redraw);
}

#[test]
fn ctrl_end_in_simple_search_sets_scroll_offset_minus_one() {
    let mut r = make_renderer();
    r.coordinate = Coordinate::SimpleSearch;
    r.list_index = 0;
    let last = r.active_list_len() - 1;
    handle_ctrl_end(&mut r);
    assert_eq!(r.list_index, last);
    assert_eq!(r.scroll_offset, -1);
    assert!(r.needs_redraw);
}

#[test]
fn ctrl_end_empty_list_no_crash() {
    let mut r = AppRenderer::new();
    handle_ctrl_end(&mut r); // should not panic
    assert!(r.needs_redraw);
}

// handle_enter_search

#[test]
fn enter_search_no_item_returns_to_previous() {
    let mut r = AppRenderer::new();
    r.coordinate = Coordinate::SimpleSearch;
    r.previous_coordinate = Coordinate::General;
    r.search_string = "abc".to_owned();
    // total_list is empty → current_list_item_id() returns None
    handle_enter_search(&mut r);
    assert_eq!(r.coordinate, Coordinate::General);
    assert!(r.search_string.is_empty());
    assert!(r.needs_redraw);
}

#[test]
fn enter_search_selects_item_and_exits() {
    let mut r = make_renderer();
    r.coordinate = Coordinate::SimpleSearch;
    r.previous_coordinate = Coordinate::General;
    r.list_index = 2;
    r.search_string = "item".to_owned();
    r.sync_current_id_from_list();
    handle_enter_search(&mut r);
    assert_eq!(r.coordinate, Coordinate::General);
    assert!(r.search_string.is_empty());
    assert!(r.needs_redraw);
}

#[test]
fn enter_search_extended_empty_list_escapes() {
    let mut r = AppRenderer::new();
    r.coordinate = Coordinate::ExtendedSearch;
    r.previous_coordinate = Coordinate::General;
    // Empty list → handle_enter_extended_search will escape
    handle_enter_search(&mut r);
    assert_eq!(r.coordinate, Coordinate::General);
    assert!(r.needs_redraw);
}

// handle_enter_operator_insert — guard clause paths

#[test]
fn enter_operator_insert_no_element_escapes() {
    let mut r = AppRenderer::new();
    r.coordinate = Coordinate::Insert;
    // ffon is empty → get_ffon_at_id returns None → handle_escape called
    handle_enter_operator_insert(&mut r);
    assert_ne!(r.coordinate, Coordinate::Insert);
}

#[test]
fn enter_operator_insert_no_input_tag_escapes() {
    let mut r = make_renderer_with_items(&["plain text"]);
    r.coordinate = Coordinate::Insert;
    handle_enter_operator_insert(&mut r);
    // No <input> tag → escape
    assert_ne!(r.coordinate, Coordinate::Insert);
}

#[test]
fn enter_operator_insert_unchanged_content_escapes() {
    let mut r = make_renderer_with_items(&["<input>hello</input>"]);
    r.coordinate = Coordinate::Insert;
    r.input_buffer = "hello".to_owned(); // same as element content
    handle_enter_operator_insert(&mut r);
    // Unchanged → escape
    assert_ne!(r.coordinate, Coordinate::Insert);
}

// --- dispatch ---

// --- Tab ---

#[test]
fn tab_in_general_switches_to_simple_search() {
    let mut r = AppRenderer::new();
    dispatch_key(&mut r, Some(Key::Tab), no_mod());
    assert_eq!(r.coordinate, Coordinate::SimpleSearch);
}

// --- Colon (Shift+Semicolon) ---

fn make_renderer_inside_provider() -> AppRenderer {
    let mut root = FfonElement::new_obj("provider");
    push_child(&mut root, FfonElement::new_str("item"));
    let mut r = AppRenderer::new();
    r.ffon = vec![root];
    r.current_id = { let mut id = IdArray::new(); id.push(0); id.push(0); id };
    create_list_current_layer(&mut r);
    r
}

#[test]
fn colon_in_general_switches_to_command() {
    let mut r = make_renderer_inside_provider();
    dispatch_key(&mut r, Some(Key::Semicolon), shift());
    assert_eq!(r.coordinate, Coordinate::Command);
}

#[test]
fn colon_blocked_at_root() {
    let mut r = AppRenderer::new();
    dispatch_key(&mut r, Some(Key::Semicolon), shift());
    assert_eq!(r.coordinate, Coordinate::General);
}

#[test]
fn colon_blocked_in_insert() {
    let mut r = AppRenderer::new();
    r.coordinate = Coordinate::Insert;
    dispatch_key(&mut r, Some(Key::Semicolon), shift());
    assert_eq!(r.coordinate, Coordinate::Insert);
}

// --- Ctrl+F → SimpleSearch (from General) ---

#[test]
fn ctrl_f_in_general_switches_to_extended_search() {
    let mut r = AppRenderer::new();
    dispatch_key(&mut r, Some(Key::F), ctrl());
    assert_eq!(r.coordinate, Coordinate::ExtendedSearch);
}

// --- Escape ---

#[test]
fn escape_in_insert_returns_to_general() {
    let mut r = AppRenderer::new();
    r.coordinate = Coordinate::Insert;
    dispatch_key(&mut r, Some(Key::Escape), no_mod());
    assert_eq!(r.coordinate, Coordinate::General);
}

#[test]
fn dispatch_key_returns_false() {
    let mut r = AppRenderer::new();
    assert!(!dispatch_key(&mut r, Some(Key::Escape), no_mod()));
    assert!(!dispatch_key(&mut r, Some(Key::Other), no_mod()));
    assert!(!dispatch_key(&mut r, Some(Key::Tab), no_mod()));
}

// --- Ctrl+A select all in Insert ---

#[test]
fn ctrl_a_in_insert_selects_all() {
    let mut r = AppRenderer::new();
    r.coordinate = Coordinate::Insert;
    r.input_buffer = "hello".to_string();
    r.cursor_position = 0;
    dispatch_key(&mut r, Some(Key::A), ctrl());
    assert_eq!(r.selection_anchor, Some(0));
    assert_eq!(r.cursor_position, 5);
}

// --- Shift+Left in Insert ---

#[test]
fn shift_left_in_insert_starts_selection() {
    let mut r = AppRenderer::new();
    r.coordinate = Coordinate::Insert;
    r.input_buffer = "hello".to_string();
    r.cursor_position = 3;
    dispatch_key(&mut r, Some(Key::Left), shift());
    assert_eq!(r.selection_anchor, Some(3));
    assert_eq!(r.cursor_position, 2);
}

// --- Shift+Right in SimpleSearch ---

#[test]
fn shift_right_in_simple_search_starts_selection() {
    let mut r = AppRenderer::new();
    r.coordinate = Coordinate::SimpleSearch;
    r.search_string = "hello".to_string();
    r.cursor_position = 2;
    dispatch_key(&mut r, Some(Key::Right), shift());
    assert_eq!(r.selection_anchor, Some(2));
    assert_eq!(r.cursor_position, 3);
}

// --- Ctrl+I in General → handle_insert ---

#[test]
fn ctrl_i_in_general_sets_needs_redraw() {
    let mut r = AppRenderer::new();
    r.coordinate = Coordinate::General;
    dispatch_key(&mut r, Some(Key::I), ctrl());
    assert!(r.needs_redraw);
}

// --- Ctrl+D in General → no crash ---

#[test]
fn ctrl_d_in_general_no_crash() {
    let mut r = AppRenderer::new();
    dispatch_key(&mut r, Some(Key::D), ctrl());
    // handle_file_delete with no providers — no crash
}

// --- Delete key in General → no crash ---

#[test]
fn delete_key_in_general_no_crash() {
    let mut r = AppRenderer::new();
    dispatch_key(&mut r, Some(Key::Delete), no_mod());
}

// --- K/J/Up in navigation modes set needs_redraw ---

#[test]
fn k_in_general_sets_needs_redraw() {
    let mut r = AppRenderer::new();
    dispatch_key(&mut r, Some(Key::K), no_mod());
    assert!(r.needs_redraw);
}

#[test]
fn j_in_general_sets_needs_redraw() {
    let mut r = AppRenderer::new();
    r.coordinate = Coordinate::General;
    dispatch_key(&mut r, Some(Key::J), no_mod());
    assert!(r.needs_redraw);
}

#[test]
fn up_arrow_in_simple_search_sets_needs_redraw() {
    let mut r = AppRenderer::new();
    r.coordinate = Coordinate::SimpleSearch;
    dispatch_key(&mut r, Some(Key::Up), no_mod());
    assert!(r.needs_redraw);
}

// --- Ctrl+Z / Ctrl+Shift+Z set needs_redraw ---

#[test]
fn ctrl_z_in_general_sets_needs_redraw() {
    let mut r = AppRenderer::new();
    r.coordinate = Coordinate::General;
    dispatch_key(&mut r, Some(Key::Z), ctrl());
    assert!(r.needs_redraw);
}

#[test]
fn ctrl_shift_z_in_general_sets_needs_redraw() {
    let mut r = AppRenderer::new();
    r.coordinate = Coordinate::General;
    dispatch_key(&mut r, Some(Key::Z), ctrl_shift());
    assert!(r.needs_redraw);
}

// --- Ctrl+A in General → stays General ---

#[test]
fn ctrl_a_in_general_stays_general() {
    let mut r = AppRenderer::new();
    dispatch_key(&mut r, Some(Key::A), ctrl());
    assert_eq!(r.coordinate, Coordinate::General);
}

// --- Ctrl+A in General → handle_append → sets needs_redraw ---

#[test]
fn ctrl_a_in_general_sets_needs_redraw() {
    let mut r = AppRenderer::new();
    r.coordinate = Coordinate::General;
    dispatch_key(&mut r, Some(Key::A), ctrl());
    assert!(r.needs_redraw);
}

// --- Return in General → handle_append → sets needs_redraw ---

#[test]
fn enter_in_general_sets_needs_redraw() {
    let mut r = AppRenderer::new();
    dispatch_key(&mut r, Some(Key::Return), no_mod());
    assert!(r.needs_redraw);
}

// --- Ctrl+I in General → no crash ---

#[test]
fn ctrl_i_in_general_no_crash() {
    let mut r = AppRenderer::new();
    dispatch_key(&mut r, Some(Key::I), ctrl());
    // empty ffon — no crash
}

// --- Ctrl+X/C/V in General → sets needs_redraw ---

#[test]
fn ctrl_x_in_general_sets_needs_redraw() {
    let mut r = AppRenderer::new();
    r.coordinate = Coordinate::General;
    dispatch_key(&mut r, Some(Key::X), ctrl());
    assert!(r.needs_redraw);
}

#[test]
fn ctrl_c_in_general_sets_needs_redraw() {
    let mut r = AppRenderer::new();
    r.coordinate = Coordinate::General;
    dispatch_key(&mut r, Some(Key::C), ctrl());
    assert!(r.needs_redraw);
}

#[test]
fn ctrl_v_in_general_sets_needs_redraw() {
    let mut r = AppRenderer::new();
    r.coordinate = Coordinate::General;
    dispatch_key(&mut r, Some(Key::V), ctrl());
    assert!(r.needs_redraw);
}

// --- H moves left / L moves right ---

#[test]
fn h_moves_left_in_general_sets_needs_redraw() {
    let mut r = AppRenderer::new();
    dispatch_key(&mut r, Some(Key::H), no_mod());
    assert!(r.needs_redraw);
}

#[test]
fn l_moves_right_in_general_sets_needs_redraw() {
    let mut r = AppRenderer::new();
    r.coordinate = Coordinate::General;
    dispatch_key(&mut r, Some(Key::L), no_mod());
    assert!(r.needs_redraw);
}

// --- D in General → handle_dashboard ---

#[test]
fn d_in_general_no_dashboard_provider_stays_general() {
    let mut r = AppRenderer::new();
    // No provider — handle_dashboard returns early, but dispatch routes to it
    dispatch_key(&mut r, Some(Key::D), no_mod());
    // Coordinate stays General when no provider has a dashboard image
    assert_eq!(r.coordinate, Coordinate::General);
}

// --- Ctrl+Enter in Insert → insert newline ---

#[test]
fn ctrl_enter_in_insert_inserts_newline() {
    let mut r = AppRenderer::new();
    r.coordinate = Coordinate::Insert;
    r.input_buffer = "hello".to_string();
    r.cursor_position = 5;
    dispatch_key(&mut r, Some(Key::Return), ctrl());
    assert!(r.input_buffer.contains('\n'));
    assert!(r.needs_redraw);
}

// --- shortcuts ---

// --- dispatch correctness ---

#[test]
fn tab_in_operator_switches_to_simple_search() {
    let mut r = AppRenderer::new();
    dispatch_key(&mut r, Some(Key::Tab), no_mod());
    assert_eq!(r.coordinate, Coordinate::SimpleSearch);
}

#[test]
fn ctrl_f_in_operator_switches_to_extended_search() {
    let mut r = AppRenderer::new();
    dispatch_key(&mut r, Some(Key::F), ctrl());
    assert_eq!(r.coordinate, Coordinate::ExtendedSearch);
}

#[test]
fn up_key_sets_needs_redraw() {
    let mut r = AppRenderer::new();
    dispatch_key(&mut r, Some(Key::Up), no_mod());
    assert!(r.needs_redraw);
}

#[test]
fn k_sets_needs_redraw() {
    let mut r = AppRenderer::new();
    dispatch_key(&mut r, Some(Key::K), no_mod());
    assert!(r.needs_redraw);
}

#[test]
fn escape_in_editor_insert_returns_to_editor_general() {
    let mut r = AppRenderer::new();
    edit_the_tree(&mut r);
    r.coordinate = Coordinate::Insert;
    dispatch_key(&mut r, Some(Key::Escape), no_mod());
    assert_eq!(r.coordinate, Coordinate::General);
}

// --- hints ---

#[test]
fn hints_for_at_root_contains_search_and_ctrl_f() {
    let mut r = AppRenderer::new();
    let hints = hints_for(&mut r);
    assert!(hints.iter().any(|h| h.contains("Search")));
    assert!(hints.iter().any(|h| h.contains("Ctrl+F")));
}

#[test]
fn hints_for_no_duplicates() {
    let mut r = AppRenderer::new();
    let hints = hints_for(&mut r);
    let mut seen = std::collections::HashSet::new();
    for h in &hints {
        assert!(seen.insert(h.clone()), "duplicate hint: {h}");
    }
}

#[test]
fn hints_for_in_insert_mode_has_navigation_and_editing() {
    let mut r = AppRenderer::new();
    edit_the_tree(&mut r);
    r.coordinate = Coordinate::Insert;
    // Inside a provider.
    r.current_id.push(0);
    r.current_id.push(0);
    let hints = hints_for(&mut r);
    // Insert mode should expose navigation + editing hints.
    assert!(hints.iter().any(|h| h.contains("Ctrl+F")), "Ctrl+F missing, got: {hints:?}");
    assert!(hints.iter().any(|h| h.contains("Up")),     "Up missing, got: {hints:?}");
    assert!(hints.iter().any(|h| h.contains("Esc")),    "Esc missing, got: {hints:?}");
}

// --- what is asked of the providers ---

/// Minimal provider for testing.
struct MockProvider {
    name: String,
    path: String,
    items: Vec<FfonElement>,
    commit_ok: bool,
    create_dir_ok: bool,
    create_file_ok: bool,
    delete_ok: bool,
    execute_ok: bool,
    cmds: Vec<String>,
    last_commit: Option<(String, String)>,
    last_create_dir: Option<String>,
    last_create_file: Option<String>,
    last_delete: Option<String>,
    last_execute: Option<(String, String)>,
}

impl MockProvider {
    fn new(name: &str, items: Vec<FfonElement>) -> Self {
        MockProvider {
            name: name.to_owned(),
            path: "/".to_owned(),
            items,
            commit_ok: true,
            create_dir_ok: true,
            create_file_ok: true,
            delete_ok: true,
            execute_ok: true,
            cmds: vec![],
            last_commit: None,
            last_create_dir: None,
            last_create_file: None,
            last_delete: None,
            last_execute: None,
        }
    }
}

impl Provider for MockProvider {
    fn name(&self) -> &str { &self.name }
    fn fetch(&mut self) -> Vec<FfonElement> { self.items.clone() }
    fn push_path(&mut self, seg: &str) {
        if self.path == "/" { self.path = format!("/{seg}"); }
        else { self.path.push('/'); self.path.push_str(seg); }
    }
    fn pop_path(&mut self) {
        if let Some(s) = self.path.rfind('/') {
            if s == 0 { self.path = "/".to_owned(); } else { self.path.truncate(s); }
        }
    }
    fn current_path(&self) -> &str { &self.path }
    fn commit_edit(&mut self, old: &str, new: &str) -> bool {
        self.last_commit = Some((old.to_owned(), new.to_owned()));
        self.commit_ok
    }
    fn create_directory(&mut self, name: &str) -> bool {
        self.last_create_dir = Some(name.to_owned());
        self.create_dir_ok
    }
    fn create_file(&mut self, name: &str) -> bool {
        self.last_create_file = Some(name.to_owned());
        self.create_file_ok
    }
    fn delete_item(&mut self, name: &str) -> bool {
        self.last_delete = Some(name.to_owned());
        self.delete_ok
    }
    fn commands(&self) -> Vec<String> { self.cmds.clone() }
    fn execute_command(&mut self, cmd: &str, sel: &str) -> bool {
        self.last_execute = Some((cmd.to_owned(), sel.to_owned()));
        self.execute_ok
    }
}

fn make_renderer_with_provider(p: MockProvider) -> AppRenderer {
    let mut r = AppRenderer::new();
    let mut root = FfonElement::new_obj(p.name());
    for item in p.items.iter() { push_child(&mut root, item.clone()); }
    r.ffon = vec![root];
    r.providers = vec![Box::new(p)];
    r.sync();
    r.current_id = { let mut id = IdArray::new(); id.push(0); id };
    r
}

// --- active_provider_index ---

#[test]
fn active_provider_index_returns_first_id() {
    let p = MockProvider::new("test", vec![]);
    let r = make_renderer_with_provider(p);
    assert_eq!(active_provider_index(&r), Some(0));
}

#[test]
fn active_provider_index_second_provider() {
    let p = MockProvider::new("test", vec![]);
    let mut r = make_renderer_with_provider(p);
    // Manually set id to point to index 0 — already done by make_renderer_with_provider
    assert_eq!(active_provider_index(&r), Some(0));
    // Change to index 1 (even if no provider there)
    r.current_id.set_last(1);
    assert_eq!(active_provider_index(&r), Some(1));
}

// --- get_active_provider_ref ---

#[test]
fn get_active_provider_ref_returns_name() {
    let p = MockProvider::new("myprovider", vec![]);
    let r = make_renderer_with_provider(p);
    let name = get_active_provider_ref(&r).map(|p| p.name.clone());
    assert_eq!(name, Some("myprovider".to_owned()));
}

#[test]
fn get_active_provider_ref_none_when_no_providers() {
    let mut r = AppRenderer::new();
    r.current_id = { let mut id = IdArray::new(); id.push(0); id };
    assert!(get_active_provider_ref(&r).is_none());
}

// --- push_path / pop_path / current_path ---

#[test]
fn push_path_updates_provider_path() {
    let p = MockProvider::new("test", vec![]);
    let mut r = make_renderer_with_provider(p);
    push_path(&mut r, "subdir");
    assert_eq!(current_path(&r), "/subdir");
}

#[test]
fn pop_path_restores_root() {
    let p = MockProvider::new("test", vec![]);
    let mut r = make_renderer_with_provider(p);
    push_path(&mut r, "subdir");
    pop_path(&mut r);
    assert_eq!(current_path(&r), "/");
}

#[test]
fn current_path_default_is_slash() {
    let p = MockProvider::new("test", vec![]);
    let r = make_renderer_with_provider(p);
    assert_eq!(current_path(&r), "/");
}

#[test]
fn current_path_returns_slash_when_no_provider() {
    let r = AppRenderer::new();
    assert_eq!(current_path(&r), "/");
}

// --- commit_edit dispatch ---

#[test]
fn commit_edit_dispatches_to_provider() {
    let p = MockProvider::new("test", vec![]);
    let mut r = make_renderer_with_provider(p);
    // MockProvider.commit_ok defaults to true
    let ok = commit_edit(&mut r, "old", "new value");
    assert!(ok);
}

#[test]
fn commit_edit_returns_false_when_no_provider() {
    let mut r = AppRenderer::new();
    r.current_id = { let mut id = IdArray::new(); id.push(0); id };
    assert!(!commit_edit(&mut r, "old", "new"));
}

// --- create_directory dispatch ---

#[test]
fn create_directory_dispatches_to_provider() {
    let p = MockProvider::new("test", vec![]);
    let mut r = make_renderer_with_provider(p);
    let ok = create_directory(&mut r, "newdir");
    assert!(ok);
}

#[test]
fn create_directory_returns_false_when_no_provider() {
    let mut r = AppRenderer::new();
    r.current_id = { let mut id = IdArray::new(); id.push(0); id };
    assert!(!create_directory(&mut r, "dir"));
}

// --- navigate_left (pop_path equivalent) ---

#[test]
fn pop_path_at_root_stays_at_root() {
    let p = MockProvider::new("test", vec![]);
    let mut r = make_renderer_with_provider(p);
    // Already at root "/"
    pop_path(&mut r);
    assert_eq!(current_path(&r), "/");
}

#[test]
fn pop_path_after_push_restores_parent() {
    let p = MockProvider::new("test", vec![]);
    let mut r = make_renderer_with_provider(p);
    push_path(&mut r, "inbox");
    push_path(&mut r, "subfolder");
    pop_path(&mut r);
    assert_eq!(current_path(&r), "/inbox");
}

// --- multiple providers ---

#[test]
fn get_active_provider_selects_correct_index() {
    let p0 = MockProvider::new("alpha", vec![]);
    let p1 = MockProvider::new("beta", vec![]);
    let mut r = AppRenderer::new();
    r.ffon = vec![
        FfonElement::new_obj("alpha"),
        FfonElement::new_obj("beta"),
    ];
    r.providers = vec![Box::new(p0), Box::new(p1)];
    r.sync();
    // Select provider at index 1
    r.current_id = { let mut id = IdArray::new(); id.push(1); id };
    let name = get_active_provider_ref(&r).map(|p| p.name.clone());
    assert_eq!(name, Some("beta".to_owned()));
}

#[test]
fn get_active_provider_out_of_bounds_returns_none() {
    let p = MockProvider::new("only", vec![]);
    let mut r = make_renderer_with_provider(p);
    r.current_id.set_last(99); // out of bounds
    assert!(get_active_provider_ref(&r).is_none());
}

// --- create_file dispatch ---

#[test]
fn create_file_dispatches_to_provider() {
    let p = MockProvider::new("test", vec![]);
    let mut r = make_renderer_with_provider(p);
    assert!(create_file(&mut r, "newfile.txt"));
}

#[test]
fn create_file_returns_false_when_no_provider() {
    let mut r = AppRenderer::new();
    r.current_id = { let mut id = IdArray::new(); id.push(0); id };
    assert!(!create_file(&mut r, "f.txt"));
}

// --- delete_item_by_name dispatch ---

#[test]
fn delete_item_by_name_dispatches_to_provider() {
    let p = MockProvider::new("test", vec![]);
    let mut r = make_renderer_with_provider(p);
    assert!(delete_item_by_name(&mut r, "old.txt"));
}

#[test]
fn delete_item_by_name_returns_false_when_no_provider() {
    let mut r = AppRenderer::new();
    r.current_id = { let mut id = IdArray::new(); id.push(0); id };
    assert!(!delete_item_by_name(&mut r, "f.txt"));
}

// --- get_commands dispatch ---

#[test]
fn get_commands_dispatches_to_provider() {
    let mut p = MockProvider::new("test", vec![]);
    p.cmds = vec!["open".to_string(), "rename".to_string()];
    let r = make_renderer_with_provider(p);
    let cmds = get_commands(&r);
    assert_eq!(cmds, vec!["open", "rename"]);
}

#[test]
fn get_commands_returns_empty_when_no_provider() {
    let r = AppRenderer::new();
    assert!(get_commands(&r).is_empty());
}

// --- execute_command dispatch ---

#[test]
fn execute_command_dispatches_to_provider() {
    let p = MockProvider::new("test", vec![]);
    let mut r = make_renderer_with_provider(p);
    assert!(execute_command(&mut r, "open", "file.txt"));
}

#[test]
fn execute_command_returns_false_when_no_provider() {
    let mut r = AppRenderer::new();
    r.current_id = { let mut id = IdArray::new(); id.push(0); id };
    assert!(!execute_command(&mut r, "open", "f"));
}

// --- auth registry ---

#[test]
fn register_auth_and_find() {
    let mut registry = AuthRegistry::new();
    register_auth(&mut registry, "https://example.com", "secret123");
    let key = find_api_key_for_url(&registry, "https://example.com/api/data");
    assert_eq!(key.as_deref(), Some("secret123"));
    clear_auth_registry(&mut registry);
}

#[test]
fn find_api_key_no_match() {
    let mut registry = AuthRegistry::new();
    register_auth(&mut registry, "https://example.com", "secret");
    assert!(find_api_key_for_url(&registry, "https://other.com/foo").is_none());
    clear_auth_registry(&mut registry);
}

#[test]
fn register_auth_multiple() {
    let mut registry = AuthRegistry::new();
    register_auth(&mut registry, "https://a.com", "key_a");
    register_auth(&mut registry, "https://b.com", "key_b");
    assert_eq!(find_api_key_for_url(&registry, "https://a.com/path").as_deref(), Some("key_a"));
    assert_eq!(find_api_key_for_url(&registry, "https://b.com/path").as_deref(), Some("key_b"));
    clear_auth_registry(&mut registry);
}

#[test]
fn register_auth_prefix_match() {
    let mut registry = AuthRegistry::new();
    register_auth(&mut registry, "https://api.example.com", "bearer_token");
    assert!(find_api_key_for_url(&registry, "https://api.example.com/v1/data").is_some());
    assert!(find_api_key_for_url(&registry, "https://example.com/v1/data").is_none());
    clear_auth_registry(&mut registry);
}

// --- steps of the tree, undone and done again ---

fn editor(items: &[&str]) -> AppRenderer {
    let mut r = make_editor_with_items(items);
    r.sync();
    r
}

fn texts(r: &AppRenderer) -> Vec<String> {
    let root = r.ffon[0].as_obj().unwrap();
    root.children.iter().map(|e| e.text().to_owned()).collect()
}

fn undo(r: &mut AppRenderer) {
    r.sync();
    let step = sicompass_ui::history::handle_undo(&mut r.ui, sdl_ticks());
    r.run(step);
}

fn redo(r: &mut AppRenderer) {
    r.sync();
    let step = sicompass_ui::history::handle_redo(&mut r.ui, sdl_ticks());
    r.run(step);
}

fn go_to(r: &mut AppRenderer, i: usize) {
    create_list_current_layer(r);
    r.list_index = i;
    r.sync_current_id_from_list();
}

#[test]
fn a_cut_element_comes_back_when_undone() {
    let mut r = editor(&["a", "b", "c"]);
    go_to(&mut r, 1);
    handle_ctrl_x(&mut r);
    assert_eq!(texts(&r), vec!["a", "c"]);
    assert_eq!(r.clipboard.as_ref().and_then(|e| e.as_str()), Some("b"));
    assert_eq!(r.active_timeline().entries.len(), 1);
    undo(&mut r);
    assert_eq!(texts(&r), vec!["a", "b", "c"]);
    redo(&mut r);
    assert_eq!(texts(&r), vec!["a", "c"]);
}

#[test]
fn typed_text_goes_when_undone_and_comes_back_when_redone() {
    let mut r = editor(&["a", "b"]);
    go_to(&mut r, 1);
    sicompass_ui::handlers::handle_i(&mut r.ui, sdl_ticks());
    assert_eq!(r.coordinate, Coordinate::Insert);
    r.input_buffer = "z".to_owned();
    dispatch_key(&mut r, Some(Key::Escape), no_mod());
    assert_eq!(texts(&r), vec!["a", "z"]);
    undo(&mut r);
    assert_eq!(texts(&r), vec!["a", "b"]);
    redo(&mut r);
    assert_eq!(texts(&r), vec!["a", "z"]);
}

#[test]
fn an_appended_element_goes_when_undone() {
    let mut r = editor(&["a", "b"]);
    go_to(&mut r, 0);
    r.sync();
    sicompass_ui::handlers::handle_append(&mut r.ui, sdl_ticks());
    assert_eq!(texts(&r), vec!["a", "", "b"]);
    undo(&mut r);
    assert_eq!(texts(&r), vec!["a", "b"]);
    redo(&mut r);
    assert_eq!(texts(&r), vec!["a", "", "b"]);
}

fn do_task(r: &mut AppRenderer, task: sicompass_ui::app_state::Task) {
    r.sync();
    sicompass_ui::state::update_state(&mut r.ui, task, History::NoHistory, sdl_ticks());
}

#[test]
fn an_element_appended_at_the_end_goes_when_undone() {
    let mut r = editor(&["a", "b", "c"]);
    go_to(&mut r, 0);
    do_task(&mut r, sicompass_ui::app_state::Task::AppendAppend);
    assert_eq!(texts(&r), vec!["a", "b", "c", ""]);
    undo(&mut r);
    assert_eq!(texts(&r), vec!["a", "b", "c"]);
    redo(&mut r);
    assert_eq!(texts(&r), vec!["a", "b", "c", ""]);
}

#[test]
fn an_element_inserted_at_the_start_goes_when_undone() {
    let mut r = editor(&["a", "b", "c"]);
    go_to(&mut r, 2);
    do_task(&mut r, sicompass_ui::app_state::Task::InsertInsert);
    assert_eq!(texts(&r), vec!["", "a", "b", "c"]);
    undo(&mut r);
    assert_eq!(texts(&r), vec!["a", "b", "c"]);
    redo(&mut r);
    assert_eq!(texts(&r), vec!["", "a", "b", "c"]);
}

#[test]
fn a_pasted_element_gives_way_when_undone() {
    let mut r = editor(&["a", "b"]);
    handle_ctrl_c(&mut r);
    go_to(&mut r, 1);
    handle_ctrl_v(&mut r);
    assert_eq!(texts(&r), vec!["a", "a"]);
    undo(&mut r);
    assert_eq!(texts(&r), vec!["a", "b"]);
    redo(&mut r);
    assert_eq!(texts(&r), vec!["a", "a"]);
}

#[test]
fn deleted_elements_come_back_one_by_one() {
    let mut r = editor(&["a", "b", "c"]);
    go_to(&mut r, 2);
    handle_delete(&mut r, History::NoHistory);
    go_to(&mut r, 0);
    handle_delete(&mut r, History::NoHistory);
    assert_eq!(texts(&r), vec!["b"]);
    undo(&mut r);
    assert_eq!(texts(&r), vec!["a", "b"]);
    undo(&mut r);
    assert_eq!(texts(&r), vec!["a", "b", "c"]);
    undo(&mut r);
    assert_eq!(texts(&r), vec!["a", "b", "c"]);
}

#[test]
fn a_new_step_drops_the_steps_that_were_undone() {
    let mut r = editor(&["a", "b", "c"]);
    go_to(&mut r, 0);
    handle_delete(&mut r, History::NoHistory);
    undo(&mut r);
    go_to(&mut r, 2);
    handle_delete(&mut r, History::NoHistory);
    assert_eq!(texts(&r), vec!["a", "b"]);
    redo(&mut r);
    assert_eq!(texts(&r), vec!["a", "b"]);
    assert_eq!(r.active_timeline().position, 0);
}

#[test]
fn undoing_records_nothing() {
    let mut r = editor(&["a", "b"]);
    go_to(&mut r, 0);
    handle_delete(&mut r, History::NoHistory);
    let steps = r.active_timeline().entries.len();
    undo(&mut r);
    redo(&mut r);
    assert_eq!(r.active_timeline().entries.len(), steps);
}

#[test]
fn the_timeline_stays_bounded() {
    let mut r = editor(&["a", "b"]);
    for _ in 0..2000 {
        handle_ctrl_c(&mut r);
        handle_ctrl_v(&mut r);
    }
    assert_eq!(r.active_timeline().entries.len(), TIMELINE_CAPACITY);
}

// --- text ---

#[test]
fn a_backspace_takes_back_what_was_typed() {
    let mut r = make_input_renderer("caf");
    r.cursor_position = 3;
    handle_input(&mut r, "\u{e9}");
    assert_eq!(r.input_buffer, "caf\u{e9}");
    handle_backspace(&mut r);
    assert_eq!(r.input_buffer, "caf");
    assert_eq!(r.cursor_position, 3);
}

#[test]
fn text_is_cut_and_pasted_through_the_clipboard_of_the_system() {
    let mut r = make_input_renderer("hello world");
    r.selection_anchor = Some(0);
    r.cursor_position = 6;
    handle_ctrl_x(&mut r);
    assert_eq!(r.pasteboard.as_deref(), Some("hello "));
    r.cursor_position = 5;
    handle_ctrl_v(&mut r);
    assert_eq!(r.input_buffer, "worldhello ");
}

// --- files ---

/// A provider with directories in memory.
struct Directories {
    path: String,
    entries: BTreeMap<String, Vec<String>>,
    error: Option<String>,
}

impl Directories {
    fn child(&self, name: &str) -> String {
        if self.path == "/" {
            format!("/{name}")
        } else {
            format!("{}/{name}", self.path)
        }
    }
}

impl Provider for Directories {
    fn name(&self) -> &str {
        "filebrowser"
    }
    fn fetch(&mut self) -> Vec<FfonElement> {
        let names = self.entries.get(&self.path).cloned().unwrap_or_default();
        names
            .iter()
            .map(|n| {
                if self.entries.contains_key(&self.child(n)) {
                    FfonElement::new_obj(&format!("<input>{n}</input>"))
                } else {
                    FfonElement::new_str(&format!("<input>{n}</input>"))
                }
            })
            .collect()
    }
    fn current_path(&self) -> &str {
        &self.path
    }
    fn set_current_path(&mut self, path: &str) {
        self.path = path.to_owned();
    }
    fn push_path(&mut self, segment: &str) {
        self.path = self.child(segment);
    }
    fn pop_path(&mut self) {
        let end = self.path.rfind('/').unwrap_or(0);
        self.path.truncate(end.max(1));
    }
    fn take_error(&mut self) -> Option<String> {
        self.error.take()
    }
    fn create_file(&mut self, name: &str) -> bool {
        let here = self.entries.entry(self.path.clone()).or_default();
        if here.iter().any(|n| n == name) {
            self.error = Some(format!("{name} is there already"));
            return false;
        }
        here.push(name.to_owned());
        true
    }
    fn create_directory(&mut self, name: &str) -> bool {
        let child = self.child(name);
        self.entries.entry(self.path.clone()).or_default().push(name.to_owned());
        self.entries.insert(child, Vec::new());
        true
    }
    fn delete_item(&mut self, name: &str) -> bool {
        let here = self.entries.entry(self.path.clone()).or_default();
        let before = here.len();
        here.retain(|n| n != name);
        here.len() < before
    }
    fn commit_edit(&mut self, before: &str, after: &str) -> bool {
        for n in self.entries.entry(self.path.clone()).or_default() {
            if n == before {
                *n = after.to_owned();
                return true;
            }
        }
        self.error = Some(format!("no {before}"));
        false
    }
    fn refresh_on_navigate(&self) -> bool {
        true
    }
    fn path_is_filesystem(&self) -> bool {
        true
    }
}

fn in_directories() -> AppRenderer {
    let mut entries = BTreeMap::new();
    entries.insert("/".to_owned(), vec!["docs".to_owned(), "a.txt".to_owned()]);
    entries.insert("/docs".to_owned(), vec!["b.txt".to_owned()]);
    let mut p = Directories { path: "/".to_owned(), entries, error: None };
    let mut r = AppRenderer::new();
    r.ffon = vec![FfonElement::Obj(FfonObject { key: "filebrowser".to_owned(), children: p.fetch() })];
    r.providers.push(Box::new(p));
    r.current_id = IdArray::from_slice(&[0, 0]);
    create_list_current_layer(&mut r);
    r
}

#[test]
fn a_directory_is_entered_and_left_again() {
    let mut r = in_directories();
    handle_right(&mut r);
    assert_eq!(current_path(&r), "/docs");
    assert_eq!(r.total_list.len(), 1);
    assert!(r.total_list[0].label.contains("b.txt"));
    handle_left(&mut r);
    assert_eq!(current_path(&r), "/");
    assert_eq!(r.total_list.len(), 2);
    assert_eq!(r.list_index, 0);
}

#[test]
fn a_file_is_renamed_through_its_provider() {
    let mut r = in_directories();
    go_to(&mut r, 1);
    dispatch_key(&mut r, Some(Key::I), no_mod());
    assert_eq!(r.coordinate, Coordinate::Insert);
    assert_eq!(r.input_buffer, "a.txt");
    r.input_buffer = "z.txt".to_owned();
    r.cursor_position = 5;
    handle_enter_operator_insert(&mut r);
    assert_eq!(r.coordinate, Coordinate::General);
    assert!(r.error_message.is_empty(), "{}", r.error_message);
    assert!(texts(&r).iter().any(|t| t.contains("z.txt")));
    assert!(!texts(&r).iter().any(|t| t.contains("a.txt")));
}

#[test]
fn a_file_is_deleted_through_its_provider() {
    let mut r = in_directories();
    go_to(&mut r, 1);
    let step = sicompass_ui::files::handle_file_delete(&r.ui);
    r.run(step);
    assert_eq!(texts(&r).len(), 1);
    assert_eq!(r.total_list.len(), 1);
}

#[test]
fn what_a_provider_reports_is_shown() {
    let mut r = in_directories();
    assert!(!create_file(&mut r, "a.txt"));
    assert_eq!(r.error_message, "a.txt is there already");
    assert!(!commit_edit(&mut r, "nothing", "something"));
    assert_eq!(r.error_message, "no nothing");
    assert!(create_file(&mut r, "c.txt"));
}

#[test]
fn a_branch_is_entered_through_its_provider() {
    let mut r = in_directories();
    r.sync();
    let step = sicompass_ui::paths::navigate_right(&r.ui);
    r.run(step);
    assert_eq!(r.current_id.ids, vec![0, 0, 0]);
    assert_eq!(current_path(&r), "/docs");
    let step = sicompass_ui::paths::navigate_right(&r.ui);
    assert!(matches!(step, Step::Done));
}

#[test]
fn a_path_is_followed_to_a_file() {
    let mut r = in_directories();
    r.sync();
    let step = sicompass_ui::paths::start_way(
        &mut r.ui,
        0,
        "/docs",
        "b.txt".to_owned(),
        sicompass_ui::provider::PathEnd::Search,
        sdl_ticks(),
    );
    r.run(step);
    assert_eq!(current_path(&r), "/docs");
    assert_eq!(r.current_id.ids, vec![0, 0, 0]);
}

/// Lead a provider to a directory, and say whether it got there.
fn navigate_to_path(r: &mut AppRenderer, root: usize, dir: &str, file: &str) -> bool {
    r.sync();
    let mut way = sicompass_ui::paths::navigate_to_path(&r.ui, root, dir, file.to_owned());
    loop {
        match way {
            Way::Ended(reached) => return reached,
            Way::Ask { provider, ops, leg } => {
                let reply = r.perform(provider, ops);
                r.sync();
                way = sicompass_ui::paths::walk(&mut r.ui, provider, reply, leg);
            },
        }
    }
}

#[test]
fn a_way_says_whether_it_led_to_the_directory() {
    let mut r = in_directories();
    assert!(navigate_to_path(&mut r, 0, "/docs", "b.txt"));
    assert_eq!(current_path(&r), "/docs");
    assert_eq!(r.current_id.ids, vec![0, 0, 0]);
    assert!(navigate_to_path(&mut r, 0, "/", "a.txt"));
    assert_eq!(r.current_id.ids.len(), 2);
    assert!(navigate_to_path(&mut r, 0, "docs", "nothing"));
    assert_eq!(r.current_id.ids, vec![0, 0, 0]);
    assert!(!navigate_to_path(&mut r, 0, "/nowhere", ""));
    assert!(!navigate_to_path(&mut r, 0, "/a.txt", ""));
}

#[test]
fn a_way_of_no_provider_changes_nothing() {
    let mut r = in_directories();
    let before = r.current_id.ids.clone();
    assert!(!navigate_to_path(&mut r, 7, "/docs", "b.txt"));
    assert_eq!(r.current_id.ids, before);
}

#[test]
fn files_are_copied_and_cut_in_the_file_browser_alone() {
    let mut r = editor(&["a.txt"]);
    go_to(&mut r, 0);
    r.sync();
    assert_ne!(r.ui.providers[0].name, "filebrowser");
    sicompass_ui::files::handle_file_copy(&mut r.ui);
    assert_eq!(r.file_clipboard_path, "");
    let step = sicompass_ui::files::handle_file_cut(&r.ui, "/tmp/cut");
    assert!(matches!(step, Step::Done));
    let mut r = in_directories();
    r.current_id = IdArray::from_slice(&[0, 1]);
    r.sync();
    sicompass_ui::files::handle_file_copy(&mut r.ui);
    assert_eq!(r.file_clipboard_path, "//a.txt");
    let step = sicompass_ui::files::handle_file_cut(&r.ui, "/tmp/cut");
    assert!(matches!(step, Step::Ask { .. }));
}

#[test]
fn a_tree_is_saved_and_loaded_again() {
    let mut r = editor(&["a", "b"]);
    r.current_save_path = "/tmp/tree.json".to_owned();
    handle_save_provider_config(&mut r);
    assert!(r.disk.contains_key("/tmp/tree.json"));
    go_to(&mut r, 0);
    handle_delete(&mut r, History::NoHistory);
    assert_eq!(texts(&r), vec!["b"]);
    handle_load_provider_config(&mut r, "/tmp/tree.json");
    assert_eq!(r.current_save_path, "/tmp/tree.json");
    assert_eq!(r.active_timeline().position, 0);
}

// --- boxes, buttons and commands ---

struct Settings {
    changes: std::rc::Rc<std::cell::RefCell<Vec<String>>>,
}

impl Provider for Settings {
    fn name(&self) -> &str {
        "settings"
    }
    fn fetch(&mut self) -> Vec<FfonElement> {
        vec![FfonElement::new_str("fetched")]
    }
    fn on_checkbox_change(&mut self, label: &str, checked: bool) {
        self.changes.borrow_mut().push(format!("{label}={checked}"));
    }
    fn on_radio_change(&mut self, group: &str, value: &str) {
        self.changes.borrow_mut().push(format!("{group}:{value}"));
    }
    fn on_button_press(&mut self, function: &str) {
        self.changes.borrow_mut().push(format!("{function}()"));
    }
}

fn in_settings(children: Vec<FfonElement>) -> (AppRenderer, std::rc::Rc<std::cell::RefCell<Vec<String>>>) {
    let changes = std::rc::Rc::new(std::cell::RefCell::new(Vec::new()));
    let mut r = AppRenderer::new();
    r.ffon = vec![FfonElement::Obj(FfonObject { key: "settings".to_owned(), children })];
    r.providers.push(Box::new(Settings { changes: changes.clone() }));
    r.current_id = IdArray::from_slice(&[0, 0]);
    create_list_current_layer(&mut r);
    (r, changes)
}

#[test]
fn a_box_is_checked_by_the_enter_key() {
    let (mut r, changes) = in_settings(vec![FfonElement::new_str("<checkbox>mail")]);
    dispatch_key(&mut r, Some(Key::Return), no_mod());
    assert_eq!(texts(&r), vec!["<checkbox checked>mail"]);
    assert_eq!(*changes.borrow(), vec!["mail=true"]);
    dispatch_key(&mut r, Some(Key::Return), no_mod());
    assert_eq!(texts(&r), vec!["<checkbox>mail"]);
    assert_eq!(*changes.borrow(), vec!["mail=true", "mail=false"]);
}

#[test]
fn a_button_calls_its_function() {
    let (mut r, changes) = in_settings(vec![FfonElement::new_str("<button>sync</button>Sync")]);
    dispatch_key(&mut r, Some(Key::Return), no_mod());
    assert_eq!(*changes.borrow(), vec!["sync()"]);
}

#[test]
fn a_radio_button_is_chosen_by_the_enter_key() {
    let group = FfonElement::Obj(FfonObject {
        key: "<radio>theme".to_owned(),
        children: vec![FfonElement::new_str("<checked>dark"), FfonElement::new_str("light")],
    });
    let (mut r, changes) = in_settings(vec![group]);
    r.current_id = IdArray::from_slice(&[0, 0, 1]);
    go_to(&mut r, 1);
    dispatch_key(&mut r, Some(Key::Return), no_mod());
    assert_eq!(*changes.borrow(), vec!["theme:light"]);
    let root = r.ffon[0].as_obj().unwrap();
    let group = root.children[0].as_obj().unwrap();
    assert_eq!(group.children[0].as_str(), Some("dark"));
    assert_eq!(group.children[1].as_str(), Some("<checked>light"));
}

#[test]
fn a_command_makes_an_element() {
    let made = Some(FfonElement::new_str("<input>new</input>"));
    let mut r = make_renderer_with_cmd_provider(&["create"], made, vec![]);
    handle_colon(&mut r);
    create_list_current_layer(&mut r);
    handle_enter_command(&mut r);
    assert!(texts(&r).iter().any(|t| t.contains("new")), "{:?}", texts(&r));
}

#[test]
fn a_command_is_handed_over_with_its_answer() {
    let made = Some(FfonElement::new_str("made"));
    let mut r = make_renderer_with_cmd_provider(&["create"], made, vec![]);
    r.sync();
    let step = sicompass_ui::provider::handle_command(&r.ui, "create", "- item0", false);
    let reply = r.run(step);
    assert_eq!(reply.element.unwrap().as_str(), Some("made"));
    assert!(r.error_message.is_empty());
}

#[test]
fn the_screen_of_hints_shows_those_of_the_provider() {
    let mut r = make_renderer();
    r.sync();
    r.root_meta = vec!["F1 Help".to_owned()];
    assert!(sicompass_ui::provider::get_meta(&r.ui).is_empty());
    r.current_id = IdArray::single(0);
    assert_eq!(sicompass_ui::provider::get_meta(&r.ui), vec!["F1 Help"]);
}

// --- searches ---

#[test]
fn a_search_leads_to_what_it_found() {
    let mut r = make_renderer();
    dispatch_key(&mut r, Some(Key::Tab), no_mod());
    handle_input(&mut r, "item 2");
    assert_eq!(r.filtered_list_indices, vec![2]);
    handle_enter_search(&mut r);
    assert_eq!(r.coordinate, Coordinate::General);
    assert_eq!(r.current_id.ids, vec![0, 2]);
}

#[test]
fn a_search_below_shows_where_things_are() {
    let mut r = make_renderer();
    handle_ctrl_f(&mut r);
    assert_eq!(r.coordinate, Coordinate::ExtendedSearch);
    handle_input(&mut r, "child");
    assert_eq!(r.active_list_len(), 1);
    handle_enter_search(&mut r);
    assert_eq!(r.current_id.ids, vec![0, 3, 0]);
}

// --- the tab that is kept ---

#[test]
fn a_key_that_moves_has_the_tabs_kept() {
    let mut r = make_renderer();
    r.sync();
    let outside = || Outside {
        here: HERE,
        cache_dir: String::new(),
        save_dir: String::new(),
        clipboard: None,
        now: 0,
    };
    let (_, kept) =
        sicompass_ui::events::dispatch_key(&mut r.ui, Some(Key::Down), false, false, outside());
    assert!(kept);
    assert_eq!(r.tabs[0].current_id.ids, vec![0, 1]);
    let (_, kept) = sicompass_ui::events::dispatch_key(&mut r.ui, None, false, false, outside());
    assert!(!kept);
}

#[test]
fn the_key_of_a_site_is_sent_with_its_pages() {
    let mut registry = AuthRegistry::new();
    register_auth(&mut registry, "https://a.com", "first");
    register_auth(&mut registry, "https://a.com", "second");
    assert_eq!(
        authorization(&registry, "https://a.com/page").as_deref(),
        Some("Bearer first"),
    );
    assert_eq!(authorization(&registry, "https://b.com/page"), None);
}

#[test]
fn a_key_is_refused_while_the_cursor_is_inside_a_character() {
    let mut r = make_input_renderer("\u{e9}");
    r.sync();
    r.cursor_position = 1;
    assert!(!can_dispatch(&r.ui, HERE, Some(Key::Backspace), false, false));
    assert!(can_dispatch(&r.ui, HERE, Some(Key::Escape), false, false));
    r.cursor_position = 2;
    assert!(can_dispatch(&r.ui, HERE, Some(Key::Backspace), false, false));
}

#[test]
fn the_space_key_checks_a_box_and_says_so() {
    let (mut r, changes) = in_settings(vec![FfonElement::new_str("<checkbox>mail")]);
    assert!(hints_for(&mut r).contains(&"Space  Toggle".to_owned()));
    dispatch_key(&mut r, Some(Key::Space), no_mod());
    assert_eq!(texts(&r), vec!["<checkbox checked>mail"]);
    assert_eq!(*changes.borrow(), vec!["mail=true"]);
    assert!(hints_for(&mut r).contains(&"Space  Toggle".to_owned()));
}

#[test]
fn the_space_key_has_a_hint_on_a_group() {
    let group = FfonElement::Obj(FfonObject {
        key: "<radio>theme".to_owned(),
        children: vec![FfonElement::new_str("dark")],
    });
    let (mut r, _) = in_settings(vec![group, FfonElement::new_str("plain")]);
    assert!(hints_for(&mut r).contains(&"Space  Select".to_owned()));
    r.current_id = IdArray::from_slice(&[0, 1]);
    assert!(!hints_for(&mut r).iter().any(|h| h.starts_with("Space")));
}

#[test]
fn an_input_of_all_the_line_can_be_edited() {
    let (mut r, _) = in_settings(vec![FfonElement::new_str("<input-all>a</input-all>")]);
    assert!(hints_for(&mut r).contains(&"I      Edit input".to_owned()));
    dispatch_key(&mut r, Some(Key::I), no_mod());
    assert_eq!(r.coordinate, Coordinate::Insert);
    assert_eq!(r.input_buffer, "a");
}

// --- the text that is searched for ---

fn searching(text: &str, cursor: usize) -> AppRenderer {
    let mut r = editor(&["hello", "help", "other"]);
    go_to(&mut r, 0);
    dispatch_key(&mut r, Some(Key::Tab), no_mod());
    assert_eq!(r.coordinate, Coordinate::SimpleSearch);
    r.sync();
    sicompass_ui::typing::handle_input(&mut r.ui, text, sdl_ticks());
    r.cursor_position = cursor;
    r
}

#[test]
fn the_text_that_is_searched_for_is_selected() {
    let mut r = searching("hello", 2);
    dispatch_key(&mut r, Some(Key::Right), shift());
    assert_eq!((r.selection_anchor, r.cursor_position), (Some(2), 3));
    dispatch_key(&mut r, Some(Key::End), shift());
    assert_eq!((r.selection_anchor, r.cursor_position), (Some(2), 5));
    dispatch_key(&mut r, Some(Key::Home), shift());
    assert_eq!((r.selection_anchor, r.cursor_position), (Some(2), 0));
    dispatch_key(&mut r, Some(Key::A), ctrl());
    assert_eq!((r.selection_anchor, r.cursor_position), (Some(0), 5));
    dispatch_key(&mut r, Some(Key::Left), shift());
    assert_eq!((r.selection_anchor, r.cursor_position), (Some(0), 4));
}

#[test]
fn selected_search_text_is_deleted_and_searched_again() {
    let mut r = searching("hello", 2);
    assert_eq!(r.filtered_list_indices.len(), 1);
    dispatch_key(&mut r, Some(Key::End), shift());
    dispatch_key(&mut r, Some(Key::Delete), no_mod());
    assert_eq!(r.search_string, "he");
    assert_eq!(r.input_buffer, "");
    assert_eq!((r.selection_anchor, r.cursor_position), (None, 2));
    assert!(r.filtered_list_indices.len() >= 2);
    dispatch_key(&mut r, Some(Key::Home), no_mod());
    assert_eq!(r.cursor_position, 0);
    dispatch_key(&mut r, Some(Key::Delete), no_mod());
    assert_eq!(r.search_string, "e");
}

#[test]
fn selected_search_text_is_cut_and_pasted() {
    let mut r = searching("hello", 0);
    dispatch_key(&mut r, Some(Key::A), ctrl());
    dispatch_key(&mut r, Some(Key::X), ctrl());
    assert_eq!(r.pasteboard.as_deref(), Some("hello"));
    assert_eq!(r.search_string, "");
    dispatch_key(&mut r, Some(Key::V), ctrl());
    assert_eq!(r.search_string, "hello");
    assert_eq!(r.cursor_position, 5);
}

// --- back and forth through the timeline ---

#[test]
fn a_step_back_and_forth_keeps_the_timeline() {
    let mut r = editor(&["a", "b"]);
    go_to(&mut r, 1);
    sicompass_ui::handlers::handle_i(&mut r.ui, sdl_ticks());
    r.input_buffer = "z".to_owned();
    dispatch_key(&mut r, Some(Key::Escape), no_mod());
    let steps = r.active_timeline().entries.len();
    undo(&mut r);
    assert_eq!(r.active_timeline().position, 1);
    assert_eq!(r.active_timeline().entries.len(), steps);
    redo(&mut r);
    assert_eq!(r.active_timeline().position, 0);
    assert_eq!(r.active_timeline().entries.len(), steps);
    assert!(!r.in_history_action);
    assert_eq!(texts(&r), vec!["a", "z"]);
    assert_eq!(r.current_id.ids, vec![0, 1]);
}
