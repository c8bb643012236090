//! Edits of the tree and the timeline of them.

use sicompass_ui::app_state::{AppRenderer, Coordinate, History, ProviderInfo, Task};
use sicompass_ui::ffon::{FfonElement, IdArray};
use sicompass_ui::state::{
    is_line_key, record_entry, strip_trailing_colon, update_ffon, update_ids, update_state,
};
use sicompass_ui::timeline::TimelineEntry;

fn info(name: &str, has_editor_semantics: bool) -> ProviderInfo {
    ProviderInfo {
        handle: 0,
        name: name.to_owned(),
        display_name: name.to_owned(),
        current_path: "/".to_owned(),
        has_editor_semantics,
        refresh_on_navigate: false,
        needs_refresh: false,
        path_is_filesystem: false,
        dashboard_image_path: None,
        commands: Vec::new(),
        command_items: Vec::new(),
        meta: Vec::new(),
    }
}

fn push_child(parent: &mut FfonElement, child: FfonElement) {
    match parent {
        FfonElement::Obj(o) => o.push(child),
        FfonElement::Str(_) => panic!("a leaf has no children"),
    }
}

fn make_renderer(ffon: Vec<FfonElement>) -> AppRenderer {
    let mut r = AppRenderer::new();
    r.ffon = ffon;
    r.current_id = { let mut id = IdArray::new(); id.push(0); id };
    r.providers.push(info("mock_editor", true));
    r
}

// --- is_line_key ---

#[test]
fn is_line_key_with_colon() {
    assert!(is_line_key("Section:"));
}

#[test]
fn is_line_key_without_colon() {
    assert!(!is_line_key("plain text"));
}

#[test]
fn is_line_key_empty() {
    assert!(!is_line_key(""));
}

// --- strip_trailing_colon ---

#[test]
fn strip_colon_removes_trailing() {
    assert_eq!(strip_trailing_colon("Section:"), "Section");
}

#[test]
fn strip_colon_no_change() {
    assert_eq!(strip_trailing_colon("plain"), "plain");
}

// --- update_ids ---

#[test]
fn update_ids_arrow_up_decrements() {
    let mut r = make_renderer(vec![
        FfonElement::new_str("a"),
        FfonElement::new_str("b"),
    ]);
    r.current_id.set_last(1);
    update_ids(&mut r, false, Task::ArrowUp, History::NoHistory);
    assert_eq!(r.current_id.last(), Some(0));
}

#[test]
fn update_ids_arrow_down_increments() {
    let mut r = make_renderer(vec![
        FfonElement::new_str("a"),
        FfonElement::new_str("b"),
    ]);
    r.current_id.set_last(0);
    update_ids(&mut r, false, Task::ArrowDown, History::NoHistory);
    assert_eq!(r.current_id.last(), Some(1));
}

#[test]
fn update_ids_arrow_down_clamps_at_max() {
    let mut r = make_renderer(vec![FfonElement::new_str("only")]);
    r.current_id.set_last(0);
    update_ids(&mut r, false, Task::ArrowDown, History::NoHistory);
    assert_eq!(r.current_id.last(), Some(0)); // no change, already at max
}

// --- update_ffon (basic) ---

#[test]
fn update_ffon_input_string_value() {
    let mut r = make_renderer(vec![FfonElement::new_str("old")]);
    r.coordinate = Coordinate::Insert;
    r.input_buffer = "new value".to_owned();
    r.previous_id = r.current_id.clone();
    update_ffon(&mut r, "new value", false, Task::Input, History::NoHistory);
    assert_eq!(r.ffon[0].as_str(), Some("new value"));
}

#[test]
fn update_ffon_input_empty_root_creates_string() {
    let mut r = make_renderer(vec![]);
    r.coordinate = Coordinate::Insert;
    r.previous_id = r.current_id.clone();
    update_ffon(&mut r, "hello", false, Task::Input, History::NoHistory);
    assert_eq!(r.ffon.len(), 1);
    assert_eq!(r.ffon[0].as_str(), Some("hello"));
}

#[test]
fn update_ffon_input_empty_root_creates_obj_for_key() {
    let mut r = make_renderer(vec![]);
    r.coordinate = Coordinate::Insert;
    r.previous_id = r.current_id.clone();
    update_ffon(&mut r, "Section:", true, Task::Input, History::NoHistory);
    assert_eq!(r.ffon.len(), 1);
    assert!(r.ffon[0].is_obj());
    assert_eq!(r.ffon[0].as_obj().unwrap().key, "Section");
}

#[test]
fn update_ffon_delete_string_removes_element() {
    let mut r = make_renderer(vec![
        FfonElement::new_str("keep"),
        FfonElement::new_str("remove"),
    ]);
    r.coordinate = Coordinate::General;
    r.current_id.set_last(1);
    r.previous_id = r.current_id.clone();
    update_ffon(&mut r, "remove", false, Task::Delete, History::NoHistory);
    assert_eq!(r.ffon.len(), 1);
    assert_eq!(r.ffon[0].as_str(), Some("keep"));
}

// --- update_state integration ---

#[test]
fn update_state_input_commits_value() {
    let mut r = make_renderer(vec![FfonElement::new_str("old")]);
    r.coordinate = Coordinate::Insert;
    r.input_buffer = "updated".to_owned();
    update_state(&mut r, Task::Input, History::NoHistory, 0);
    assert_eq!(r.ffon[0].as_str(), Some("updated"));
}

#[test]
fn update_state_records_undo_for_input() {
    let mut r = make_renderer(vec![FfonElement::new_str("before")]);
    r.coordinate = Coordinate::Insert;
    r.input_buffer = "after".to_owned();
    update_state(&mut r, Task::Input, History::NoHistory, 0);
    let tl = r.active_timeline();
    assert_eq!(tl.entries.len(), 1);
    assert!(matches!(
        tl.entries[0],
        TimelineEntry::TextChunk { .. }
    ));
}

// --- is_line_key (additional) ---

#[test]
fn is_line_key_just_colon() {
    assert!(is_line_key(":"));
}

#[test]
fn is_line_key_colon_in_middle() {
    assert!(!is_line_key("key:value"));
}

#[test]
fn is_line_key_multiple_colons() {
    assert!(is_line_key("a:b:c:"));
}

#[test]
fn is_line_key_spaces_before_colon() {
    assert!(is_line_key("my key :"));
}

// --- strip_trailing_colon (additional) ---

#[test]
fn strip_colon_just_colon() {
    assert_eq!(strip_trailing_colon(":"), "");
}

#[test]
fn strip_colon_empty_string() {
    assert_eq!(strip_trailing_colon(""), "");
}

// --- record_entry ---

#[test]
fn record_entry_pushes_text_chunk() {
    let mut r = AppRenderer::new();
    let entry = TimelineEntry::TextChunk {
        id: {
            let mut id = IdArray::new();
            id.push(0);
            id
        },
        before: FfonElement::Str("a".into()),
        after: FfonElement::Str("ab".into()),
        chunk_seq: 0,
    };
    record_entry(&mut r, entry, 0);
    assert_eq!(r.active_timeline().entries.len(), 1);
}

// --- update_ids (additional boundary cases) ---

#[test]
fn update_ids_move_up_at_top_stays() {
    let mut r = make_renderer(vec![FfonElement::new_str("only")]);
    r.current_id.set_last(0);
    update_ids(&mut r, false, Task::ArrowUp, History::NoHistory);
    assert_eq!(r.current_id.last(), Some(0));
}

#[test]
fn update_ids_move_down_at_bottom_stays() {
    let mut r = make_renderer(vec![
        FfonElement::new_str("a"),
        FfonElement::new_str("b"),
    ]);
    r.current_id.set_last(1);
    update_ids(&mut r, false, Task::ArrowDown, History::NoHistory);
    assert_eq!(r.current_id.last(), Some(1));
}

// --- update_ffon (object key modification) ---

#[test]
fn update_ffon_input_key_modifies_object_key() {
    let mut r = make_renderer(vec![{
        let mut root = FfonElement::new_obj("root:");
        let child = FfonElement::new_obj("old key:");
        push_child(&mut root, child);
        root
    }]);
    r.coordinate = Coordinate::Insert;
    r.current_id = {
        let mut id = IdArray::new();
        id.push(0);
        id.push(0);
        id
    };
    r.previous_id = r.current_id.clone();
    update_ffon(&mut r, "new key:", true, Task::Input, History::NoHistory);
    // The child at [0][0] should now have key "new key"
    let root_obj = r.ffon[0].as_obj().unwrap();
    assert_eq!(root_obj.children[0].as_obj().unwrap().key, "new key");
}
