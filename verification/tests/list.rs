//! The lists that are shown.

use sicompass_ui::app_state::{AppRenderer, Coordinate};
use sicompass_ui::ffon::{FfonElement, FfonObject, IdArray};
use sicompass_ui::list::{
    build_obj_label, build_str_label, create_list_current_layer, populate_list_current_layer,
    timeline_entry_label, TimelineProviderInfo,
};
use sicompass_ui::timeline::{NavKind, TimelineEntry};

fn push_child(parent: &mut FfonElement, child: FfonElement) {
    match parent {
        FfonElement::Obj(o) => o.push(child),
        FfonElement::Str(_) => panic!("a leaf has no children"),
    }
}

fn make_renderer_with_ffon(ffon: Vec<FfonElement>) -> AppRenderer {
    let mut r = AppRenderer::new();
    r.ffon = ffon;
    r.current_id = { let mut id = IdArray::new(); id.push(0); id };
    r
}

#[test]
fn list_root_shows_provider() {
    let mut root = FfonElement::new_obj("tutorial");
    push_child(&mut root, FfonElement::new_str("item 0"));

    let mut r = make_renderer_with_ffon(vec![root]);
    create_list_current_layer(&mut r);

    assert_eq!(r.total_list.len(), 1);
    assert!(r.total_list[0].label.contains("tutorial"));
}

#[test]
fn list_depth2_shows_children() {
    let mut root = FfonElement::new_obj("tutorial");
    push_child(&mut root, FfonElement::new_str("Hello"));
    push_child(&mut root, FfonElement::new_str("World"));

    let mut r = make_renderer_with_ffon(vec![root]);
    r.current_id = { let mut id = IdArray::new(); id.push(0); id.push(0); id };
    create_list_current_layer(&mut r);

    assert_eq!(r.total_list.len(), 2);
    assert!(r.total_list[0].label.contains("Hello"));
    assert!(r.total_list[1].label.contains("World"));
}

#[test]
fn obj_element_gets_plus_prefix() {
    let mut root = FfonElement::new_obj("provider");
    let mut section = FfonElement::new_obj("Section");
    push_child(&mut section, FfonElement::new_str("child"));
    push_child(&mut root, section);

    let mut r = make_renderer_with_ffon(vec![root]);
    r.current_id = { let mut id = IdArray::new(); id.push(0); id.push(0); id };
    create_list_current_layer(&mut r);

    assert_eq!(r.total_list.len(), 1);
    assert!(r.total_list[0].label.starts_with('+'));
}

#[test]
fn str_element_gets_minus_prefix() {
    let mut root = FfonElement::new_obj("provider");
    push_child(&mut root, FfonElement::new_str("leaf item"));

    let mut r = make_renderer_with_ffon(vec![root]);
    r.current_id = { let mut id = IdArray::new(); id.push(0); id.push(0); id };
    create_list_current_layer(&mut r);

    assert_eq!(r.total_list.len(), 1);
    assert!(r.total_list[0].label.starts_with('-'));
}

#[test]
fn filter_by_search_string() {
    let mut root = FfonElement::new_obj("provider");
    push_child(&mut root, FfonElement::new_str("apple"));
    push_child(&mut root, FfonElement::new_str("banana"));
    push_child(&mut root, FfonElement::new_str("apricot"));

    let mut r = make_renderer_with_ffon(vec![root]);
    r.current_id = { let mut id = IdArray::new(); id.push(0); id.push(0); id };
    create_list_current_layer(&mut r);
    populate_list_current_layer(&mut r, "ap");

    assert_eq!(r.filtered_list_indices.len(), 2); // apple, apricot
}

#[test]
fn checkbox_str_label() {
    assert!(build_str_label("<checkbox>item", false).starts_with("-c"));
    assert!(build_str_label("<checkbox checked>item", false).starts_with("-cc"));
}

#[test]
fn input_str_label() {
    assert!(build_str_label("edit: <input>value</input>", false).starts_with("-i"));
}

#[test]
fn i_placeholder_str_label_is_i() {
    // I_PLACEHOLDER must render as plain `"i"`, not `"-i "` —
    // the "i " prefix before the empty <input> tag is the sentinel.
    assert_eq!(build_str_label(sicompass_sdk::placeholders::I_PLACEHOLDER, false), "i");
}

#[test]
fn ci_placeholder_str_label_is_ci() {
    // CI_PLACEHOLDER (editor file-content insert sentinel) renders as plain `"ci"`.
    assert_eq!(build_str_label(sicompass_sdk::placeholders::CI_PLACEHOLDER, false), "ci");
}

#[test]
fn file_content_str_label_emits_minus_ci() {
    // <input><src=N>...</input> (file-content line) → `-ci <text>`.
    let label = build_str_label("<input><src=5>line text</input>", false);
    assert!(label.starts_with("-ci "), "expected `-ci ` prefix, got {label:?}");
    assert!(label.contains("line text"));
}

#[test]
fn dir_obj_label_emits_plus_di() {
    let label = build_obj_label(&FfonObject {
        key: "<dir><input>folder</input>".to_owned(),
        children: vec![],
    });
    assert!(label.starts_with("+di "), "expected `+di ` prefix, got {label:?}");
    assert!(label.contains("folder"));
}

#[test]
fn file_obj_label_emits_plus_fi() {
    let label = build_obj_label(&FfonObject {
        key: "<file><input>thing.txt</input>".to_owned(),
        children: vec![],
    });
    assert!(label.starts_with("+fi "), "expected `+fi ` prefix, got {label:?}");
    assert!(label.contains("thing.txt"));
}

#[test]
fn file_content_obj_label_emits_plus_ci() {
    let label = build_obj_label(&FfonObject {
        key: "<input><src=3>section</input>".to_owned(),
        children: vec![],
    });
    assert!(label.starts_with("+ci "), "expected `+ci ` prefix, got {label:?}");
    assert!(label.contains("section"));
}

fn make_renderer_with_items(items: &[&str]) -> AppRenderer {
    let mut root = FfonElement::new_obj("provider");
    for &item in items {
        push_child(&mut root, FfonElement::new_str(item));
    }
    let mut r = make_renderer_with_ffon(vec![root]);
    r.current_id = { let mut id = IdArray::new(); id.push(0); id.push(0); id };
    create_list_current_layer(&mut r);
    r
}

#[test]
fn create_list_clears_previous_items() {
    let mut r = make_renderer_with_items(&["a", "b"]);
    assert_eq!(r.total_list.len(), 2);
    // Replace ffon and rebuild
    r.ffon = vec![{ let mut root = FfonElement::new_obj("p"); push_child(&mut root, FfonElement::new_str("only")); root }];
    r.current_id = { let mut id = IdArray::new(); id.push(0); id.push(0); id };
    create_list_current_layer(&mut r);
    assert_eq!(r.total_list.len(), 1);
}

#[test]
fn create_list_resets_filtered() {
    let mut r = make_renderer_with_items(&["hello", "world"]);
    populate_list_current_layer(&mut r, "hello");
    assert_eq!(r.filtered_list_indices.len(), 1);
    create_list_current_layer(&mut r);
    assert!(r.filtered_list_indices.is_empty());
}

#[test]
fn populate_empty_search_clears_filter() {
    let mut r = make_renderer_with_items(&["hello", "world"]);
    populate_list_current_layer(&mut r, "hello");
    assert_eq!(r.filtered_list_indices.len(), 1);
    populate_list_current_layer(&mut r, ""); // empty search → clear filter
    assert!(r.filtered_list_indices.is_empty());
}

#[test]
fn populate_no_matches() {
    let mut r = make_renderer_with_items(&["hello", "world"]);
    populate_list_current_layer(&mut r, "xyz");
    assert_eq!(r.filtered_list_indices.len(), 0);
}

#[test]
fn populate_case_insensitive() {
    let mut r = make_renderer_with_items(&["Hello", "WORLD"]);
    populate_list_current_layer(&mut r, "hello");
    assert_eq!(r.filtered_list_indices.len(), 1);
}

#[test]
fn populate_clamps_list_index() {
    let mut r = make_renderer_with_items(&["hello", "world"]);
    r.list_index = 5; // out of range
    populate_list_current_layer(&mut r, "hello"); // 1 match
    assert_eq!(r.list_index, 0);
}

#[test]
fn populate_replaces_previous_filter() {
    let mut r = make_renderer_with_items(&["hello", "world", "help"]);
    populate_list_current_layer(&mut r, "hel"); // 2 matches: hello, help
    assert_eq!(r.filtered_list_indices.len(), 2);
    populate_list_current_layer(&mut r, "hello"); // 1 match
    assert_eq!(r.filtered_list_indices.len(), 1);
}

#[test]
fn fuzzy_non_contiguous_match() {
    // "dcmt" should match "Documents" via fuzzy (non-contiguous subsequence)
    let mut r = make_renderer_with_items(&["Documents", "Downloads", "Desktop"]);
    populate_list_current_layer(&mut r, "dcmt");
    assert!(r.filtered_list_indices.len() >= 1);
    let labels: Vec<&str> = r.filtered_list_indices.iter()
        .map(|&i| r.total_list[i].label.as_str())
        .collect();
    assert!(labels.iter().any(|l| l.contains("Documents")), "expected Documents in {labels:?}");
}

#[test]
fn fuzzy_results_sorted_by_score() {
    // Exact match should score higher than a distant fuzzy match
    let mut r = make_renderer_with_items(&["xdocx", "doc"]);
    populate_list_current_layer(&mut r, "doc");
    assert_eq!(r.filtered_list_indices.len(), 2);
    // "doc" is an exact match — should rank first
    let first_label = &r.total_list[r.filtered_list_indices[0]].label;
    assert!(first_label.contains("doc") && !first_label.contains("xdocx"),
        "expected exact match first, got {first_label}");
}

#[test]
fn fuzzy_match_positions_parallel_to_indices() {
    let mut r = make_renderer_with_items(&["hello", "world"]);
    populate_list_current_layer(&mut r, "hel");
    assert_eq!(r.filtered_list_indices.len(), r.fuzzy_match_positions.len());
}

// Timeline-view list builder

fn nav_entry(from: &str, to: &str) -> TimelineEntry {
    TimelineEntry::Navigate {
        provider_idx: 0,
        from_id: IdArray::new(),
        to_id: IdArray::new(),
        from_path: Some(from.to_string()),
        to_path: Some(to.to_string()),
        kind: NavKind::ArrowDown,
    }
}

#[test]
fn timeline_view_empty_shows_placeholder() {
    let mut r = AppRenderer::new();
    r.coordinate = Coordinate::TimelineView;
    create_list_current_layer(&mut r);
    assert_eq!(r.total_list.len(), 1);
    assert!(r.total_list[0].label.contains("(no history)"));
}

#[test]
fn timeline_view_reverses_and_marks_head() {
    let mut r = AppRenderer::new();
    r.tab_timelines[0].entries.push(nav_entry("/a", "/b"));
    r.tab_timelines[0].entries.push(nav_entry("/b", "/c"));
    // position = 0 → HEAD is the most recent entry (entries[1])
    r.coordinate = Coordinate::TimelineView;
    create_list_current_layer(&mut r);

    assert_eq!(r.total_list.len(), 2);
    // First row = most recent (entries[1]) = HEAD → prefixed "> "
    assert!(
        r.total_list[0].label.starts_with("> "),
        "expected `> ` prefix on HEAD row, got: {:?}",
        r.total_list[0].label
    );
    // Provider info is empty here, so the renderer falls back to the
    // breadcrumb path; "/b" and "/c" surface as bare "b" and "c".
    assert!(r.total_list[0].label.contains('b') && r.total_list[0].label.contains('c'));
    // Second row = older (entries[0]) → no marker prefix
    assert!(
        r.total_list[1].label.starts_with("  "),
        "expected blank prefix on older row, got: {:?}",
        r.total_list[1].label
    );
}

#[test]
fn timeline_view_marks_redo_branch_after_undo() {
    let mut r = AppRenderer::new();
    r.tab_timelines[0].entries.push(nav_entry("/a", "/b"));
    r.tab_timelines[0].entries.push(nav_entry("/b", "/c"));
    r.tab_timelines[0].entries.push(nav_entry("/c", "/d"));
    // Simulate two Ctrl+Z presses: HEAD becomes entries[0]; entries[1..3]
    // are in the redo branch.
    r.tab_timelines[0].position = 2;
    r.coordinate = Coordinate::TimelineView;
    create_list_current_layer(&mut r);

    assert_eq!(r.total_list.len(), 3);
    // Most recent (entries[2]) → redo branch
    assert!(r.total_list[0].label.starts_with("\u{00B7} "));
    // entries[1] → redo branch
    assert!(r.total_list[1].label.starts_with("\u{00B7} "));
    // entries[0] → HEAD
    assert!(r.total_list[2].label.starts_with("> "));
}

#[test]
fn timeline_entry_label_provider_op_uses_label() {
    let entry = TimelineEntry::ProviderOp {
        provider_idx: 0,
        command: "radio-toggle".into(),
        payload: FfonElement::Str("payload".into()),
        label: "toggle theme".into(),
    };
    let s = timeline_entry_label(&entry, &Vec::new());
    assert!(s.contains("toggle theme"));
    assert!(s.contains("radio-toggle"));
}

fn provider_info(name: &str, fs: bool) -> TimelineProviderInfo {
    TimelineProviderInfo {
        display_name: name.to_owned(),
        path_is_filesystem: fs,
    }
}

#[test]
fn timeline_entry_label_navigate_falls_back_to_provider_name_when_path_none() {
    let from_id = {
        let mut a = IdArray::new();
        a.push(0);
        a
    };
    let to_id = {
        let mut a = IdArray::new();
        a.push(1);
        a
    };
    let entry = TimelineEntry::Navigate {
        provider_idx: 1,
        from_id,
        to_id,
        from_path: None,
        to_path: None,
        kind: NavKind::ArrowDown,
    };
    let providers = vec![
        provider_info("File Browser", true),
        provider_info("Email Client", false),
    ];
    let s = timeline_entry_label(&entry, &providers);
    assert!(s.contains("File Browser"), "expected origin provider name in {:?}", s);
    assert!(s.contains("Email Client"), "expected destination provider name in {:?}", s);
    assert!(!s.contains("?"), "no `?` when provider names are available: {:?}", s);
}

#[test]
fn timeline_entry_label_filesystem_path_keeps_slashes() {
    let mut id = IdArray::new();
    id.push(0);
    let entry = TimelineEntry::Navigate {
        provider_idx: 0,
        from_id: id.clone(),
        to_id: id,
        from_path: Some("/home/nico".to_owned()),
        to_path: Some("/home/nico/Documents".to_owned()),
        kind: NavKind::ArrowRight,
    };
    let providers = vec![provider_info("file browser", true)];
    let s = timeline_entry_label(&entry, &providers);
    assert!(s.contains("/home/nico"), "fs paths render verbatim: {s}");
    assert!(s.contains("/home/nico/Documents"), "fs paths keep slashes: {s}");
    // The outer from→to join is ` > ` for every Navigate label, but the
    // *segments inside an fs path* must NOT be breadcrumb-split.
    assert!(
        !s.contains("home > nico"),
        "fs path segments must not be split by breadcrumb separator: {s}",
    );
}

#[test]
fn timeline_entry_label_non_filesystem_path_uses_breadcrumb() {
    let mut id = IdArray::new();
    id.push(0);
    let entry = TimelineEntry::Navigate {
        provider_idx: 0,
        from_id: id.clone(),
        to_id: id,
        from_path: Some("/Available programs:".to_owned()),
        to_path: Some("/Available programs:/Email".to_owned()),
        kind: NavKind::ArrowRight,
    };
    let providers = vec![provider_info("settings", false)];
    let s = timeline_entry_label(&entry, &providers);
    // No leading slashes, no `/section/item` separator — replaced with `›`.
    assert!(!s.contains("/Available"), "non-fs paths must drop leading slash: {s}");
    assert!(!s.contains(":/Email"), "non-fs paths must replace `/` with breadcrumb: {s}");
    assert!(s.contains("Available programs:"), "breadcrumb keeps segment text: {s}");
    assert!(s.contains("Email"), "breadcrumb keeps tail segment: {s}");
    assert!(s.contains(" > "), "non-fs descent uses ` > ` separator: {s}");
}

#[test]
fn timeline_entry_label_non_filesystem_root_falls_back_to_display_name() {
    // current_path="/" (provider root) on a non-fs provider must read as
    // the display_name, not an empty / slash-only string.
    let mut id = IdArray::new();
    id.push(0);
    let entry = TimelineEntry::Navigate {
        provider_idx: 0,
        from_id: id.clone(),
        to_id: id,
        from_path: Some("/".to_owned()),
        to_path: Some("/".to_owned()),
        kind: NavKind::ArrowDown,
    };
    let providers = vec![provider_info("settings", false)];
    let s = timeline_entry_label(&entry, &providers);
    assert!(s.contains("settings"), "root non-fs path falls back to display_name: {s}");
    assert!(!s.contains('/'), "root non-fs path must not render a bare slash: {s}");
}

#[test]
fn a_long_search_text_finds_what_it_equals() {
    let long = "a".repeat(2001);
    let mut root = FfonElement::new_obj("tutorial");
    push_child(&mut root, FfonElement::new_str(&long));
    push_child(&mut root, FfonElement::new_str("b"));
    let mut r = make_renderer_with_ffon(vec![root]);
    r.current_id = IdArray::from_slice(&[0, 0]);
    create_list_current_layer(&mut r);
    populate_list_current_layer(&mut r, &long);
    assert_eq!(r.filtered_list_indices, vec![0]);
    assert_eq!(r.fuzzy_match_positions[0].len(), 2001);
    populate_list_current_layer(&mut r, &long[..2000]);
    assert_eq!(r.filtered_list_indices, vec![0]);
}
