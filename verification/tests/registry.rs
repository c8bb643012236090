//! Providers, their trees and their tabs.

use sicompass_ui::app_state::{AppRenderer, ProviderInfo, TabSnapshot, Timeline};
use sicompass_ui::ffon::{FfonElement, FfonObject, IdArray};
use sicompass_ui::rebuild::{clamp_id, Ancestor, Place, Rebuild};
use sicompass_ui::registry::{init_provider_root, register_provider};

fn info(name: &str, path: &str, native: bool) -> ProviderInfo {
    ProviderInfo {
        handle: 0,
        name: name.to_owned(),
        display_name: name.to_owned(),
        current_path: path.to_owned(),
        has_editor_semantics: false,
        refresh_on_navigate: false,
        needs_refresh: false,
        path_is_filesystem: native,
        dashboard_image_path: None,
        commands: Vec::new(),
        command_items: Vec::new(),
        meta: Vec::new(),
    }
}

fn leaf(text: &str) -> FfonElement {
    FfonElement::new_str(text)
}

fn branch(key: &str, children: Vec<FfonElement>) -> FfonElement {
    FfonElement::Obj(FfonObject { key: key.to_owned(), children })
}

#[test]
fn a_root_bears_the_name_of_its_provider() {
    let root = init_provider_root("mail", vec![leaf("inbox")]);
    assert_eq!(root.as_obj().unwrap().key, "mail");
    assert_eq!(root.as_obj().unwrap().children.len(), 1);
}

#[test]
fn a_provider_is_added_with_its_tree_and_its_error() {
    let mut r = AppRenderer::new();
    register_provider(&mut r, info("mail", "/", false), vec![leaf("inbox")], None);
    register_provider(&mut r, info("chat", "/", false), vec![], Some("offline".to_owned()));
    assert_eq!(r.providers.len(), 2);
    assert_eq!(r.ffon.len(), 2);
    assert_eq!(r.ffon[1].as_obj().unwrap().key, "chat");
    assert_eq!(r.error_message, "offline");
}

// --- positions ---

#[test]
fn a_position_that_leads_nowhere_is_brought_back() {
    let tree = vec![branch("root", vec![leaf("a"), leaf("b")])];
    assert_eq!(clamp_id(&tree, IdArray::from_slice(&[0, 1])).ids, vec![0, 1]);
    assert_eq!(clamp_id(&tree, IdArray::from_slice(&[0, 9])).ids, vec![0, 1]);
    assert_eq!(clamp_id(&tree, IdArray::from_slice(&[0, 1, 4])).ids, vec![0, 1]);
}

// --- fetching a tree again ---

fn place_text(place: Place) -> String {
    match place {
        Place::At(path) => path,
        Place::Native { root, parts } => format!("{root}|{}", parts.join("|")),
    }
}

#[test]
fn a_tree_is_fetched_level_by_level_along_the_path() {
    let mut r = AppRenderer::new();
    register_provider(&mut r, info("mail", "/", false), vec![], None);
    let id = IdArray::from_slice(&[0, 1, 0, 2]);
    let mut rebuild = r.rebuild_and_clamp("/inbox/work", id.clone(), &vec![]).unwrap();
    assert_eq!(place_text(rebuild.place()), "/");
    rebuild.level_fetched(vec![leaf("news"), branch("inbox", vec![])]);
    assert!(!rebuild.done);
    assert_eq!(place_text(rebuild.place()), "/inbox");
    rebuild.level_fetched(vec![branch("work", vec![])]);
    assert_eq!(place_text(rebuild.place()), "/inbox/work");
    rebuild.level_fetched(vec![leaf("1"), leaf("2"), leaf("3")]);
    assert!(rebuild.done);
    r.rebuilt(rebuild, id);
    assert_eq!(r.current_id.ids, vec![0, 1, 0, 2]);
    let work = r.ffon[0].as_obj().unwrap().children[1].as_obj().unwrap().children[0].as_obj();
    assert_eq!(work.unwrap().children.len(), 3);
}

#[test]
fn a_tree_that_ends_early_keeps_what_was_found() {
    let mut r = AppRenderer::new();
    register_provider(&mut r, info("mail", "/", false), vec![], None);
    let id = IdArray::from_slice(&[0, 1, 0, 2]);
    let mut rebuild = r.rebuild_and_clamp("/inbox/work", id.clone(), &vec![]).unwrap();
    rebuild.level_fetched(vec![leaf("news")]);
    assert!(rebuild.done);
    r.rebuilt(rebuild, id);
    assert_eq!(r.ffon[0].as_obj().unwrap().children.len(), 1);
    assert_eq!(r.current_id.ids[0], 0);
    assert!(r.current_id.ids.len() <= 2);
}

#[test]
fn a_native_path_is_left_to_the_file_system() {
    let p = info("filebrowser", "/", true);
    let ancestors = vec![
        Ancestor { name: Some("docs".to_owned()), path: "/home/docs".to_owned() },
        Ancestor { name: Some("home".to_owned()), path: "/home".to_owned() },
        Ancestor { name: None, path: "/".to_owned() },
    ];
    let mut rebuild = Rebuild::begin(&p, 0, "/home/docs", 3, &ancestors);
    assert_eq!(place_text(rebuild.place()), "/home|");
    rebuild.level_fetched(vec![branch("docs", vec![])]);
    assert_eq!(place_text(rebuild.place()), "/home|docs");
}

#[test]
fn a_provider_that_is_there_already_is_not_fetched() {
    let mut r = AppRenderer::new();
    let children = vec![leaf("a"), leaf("b")];
    register_provider(&mut r, info("mail", "/inbox", false), children, None);
    let id = IdArray::from_slice(&[0, 7]);
    assert!(r.rebuild_and_clamp("/inbox", id, &vec![]).is_none());
    assert_eq!(r.current_id.ids, vec![0, 1]);
}

// --- tabs ---

fn two_tabs() -> AppRenderer {
    let mut r = AppRenderer::new();
    register_provider(&mut r, info("mail", "/inbox", false), vec![leaf("a"), leaf("b")], None);
    register_provider(&mut r, info("settings", "/", false), vec![leaf("theme")], None);
    r.current_id = IdArray::from_slice(&[0, 1]);
    let mut other = TabSnapshot::nav_only(IdArray::from_slice(&[0, 0]), "/".to_owned());
    other.providers.push(info("chat", "/", false));
    other.ffon.push(branch("chat", vec![leaf("hello")]));
    r.tabs.push(other);
    r.tab_timelines.push(Timeline::new());
    r
}

#[test]
fn a_tab_is_entered_and_left_again() {
    let mut r = two_tabs();
    r.switch_to_tab(1);
    assert_eq!(r.active_tab, 1);
    let names: Vec<&str> = r.providers.iter().map(|p| p.name.as_str()).collect();
    assert_eq!(names, vec!["chat", "settings"]);
    assert_eq!(r.current_id.ids, vec![0, 0]);
    assert_eq!(r.tabs[0].provider_path, "/inbox");
    r.switch_to_tab(0);
    let names: Vec<&str> = r.providers.iter().map(|p| p.name.as_str()).collect();
    assert_eq!(names, vec!["mail", "settings"]);
    assert_eq!(r.current_id.ids, vec![0, 1]);
    assert_eq!(r.list_index, 1);
    assert_eq!(r.ffon.len(), 2);
}

#[test]
fn a_tab_that_is_not_there_is_not_entered() {
    let mut r = two_tabs();
    r.switch_to_tab(5);
    assert_eq!(r.active_tab, 0);
    assert_eq!(r.providers.len(), 2);
}

#[test]
fn the_active_tab_holds_nothing_itself() {
    let mut r = two_tabs();
    r.switch_to_tab(1);
    assert!(r.tabs[1].providers.is_empty());
    assert!(r.tabs[1].ffon.is_empty());
    assert_eq!(r.tabs[0].providers.len(), 1);
}

#[test]
fn the_position_of_a_tab_is_put_back() {
    let mut r = two_tabs();
    r.tabs[0] = TabSnapshot::nav_only(IdArray::from_slice(&[0, 1]), "/inbox".to_owned());
    r.current_id = IdArray::single(0);
    assert!(r.load_active_tab(&vec![]).is_none());
    assert_eq!(r.current_id.ids, vec![0, 1]);
}
