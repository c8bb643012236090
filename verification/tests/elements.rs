//! Elements: their labels, and what is chosen, checked and created.

use sicompass_ui::editing::{
    find_line_end, find_line_start, line_above, line_below, next_char, previous_char, slice,
    splice, utf8_advance_n, utf8_count_chars,
};
use sicompass_ui::elements::{
    is_empty_placeholder, parse_creation_prefix, split_nav_path, toggle_checkbox, toggle_radio,
};
use sicompass_ui::ffon::{
    get_element_at, get_ffon_at_id, get_ffon_max_id_at_path, insert_at, next_layer_exists,
    rekey_obj_at, remove_at, replace_at, FfonElement, FfonObject, IdArray,
};
use sicompass_ui::list::{build_label_for_element, build_obj_label, build_str_label};
use sicompass_ui::markup::{extract_input_all, has_input_all};
use sicompass_ui::text::{count_words, join, split_nonempty, split_once, trim};

fn branch(key: &str, children: Vec<FfonElement>) -> FfonElement {
    FfonElement::Obj(FfonObject { key: key.to_owned(), children })
}

fn leaf(text: &str) -> FfonElement {
    FfonElement::new_str(text)
}

// --- labels ---

#[test]
fn a_leaf_is_labelled_by_its_kind() {
    assert_eq!(build_str_label("plain", false), "- plain");
    assert_eq!(build_str_label("plain", true), "-r plain");
    assert_eq!(build_str_label("<checked>plain", true), "-rc plain");
    assert_eq!(build_str_label("<checkbox>box", false), "-c box");
    assert_eq!(build_str_label("<checkbox checked>box", false), "-cc box");
    assert_eq!(build_str_label("<button>go</button>Go", false), "-b Go");
    assert_eq!(build_str_label("name: <input>x</input>", false), "-i name: x");
    assert!(build_str_label("<image>a.png</image>", false).starts_with("-p "));
}

#[test]
fn a_branch_is_labelled_by_its_kind() {
    let label = |key: &str| build_obj_label(&FfonObject { key: key.to_owned(), children: vec![] });
    assert_eq!(label("plain"), "+ plain");
    assert_eq!(label("<checkbox>box"), "+c box");
    assert_eq!(label("<checkbox checked>box"), "+cc box");
    assert!(label("home <link>https://example.com</link>").starts_with("+l "));
    assert_eq!(label("<input>x</input>"), "+i x");
    assert_eq!(label("<radio>theme"), "+R theme []");
}

#[test]
fn a_group_shows_what_is_chosen() {
    let group = branch("<radio>theme", vec![leaf("dark"), leaf("<checked>light")]);
    assert_eq!(build_label_for_element(&group, false), "+R theme [light]");
}

#[test]
fn marks_of_options_are_not_shown() {
    assert_eq!(build_str_label("<many-opt></many-opt>row", false), "- row");
    assert_eq!(build_str_label("<one-opt></one-opt>row", false), "- row");
}

// --- boxes and buttons ---

#[test]
fn a_box_is_checked_and_unchecked_again() {
    let checked = toggle_checkbox(&leaf("<checkbox>mail")).unwrap();
    assert_eq!(checked, "<checkbox checked>mail");
    assert_eq!(toggle_checkbox(&leaf(&checked)).as_deref(), Some("<checkbox>mail"));
    assert_eq!(toggle_checkbox(&leaf("mail")), None);
}

#[test]
fn one_button_of_a_group_is_chosen() {
    let mut tree = vec![branch(
        "settings",
        vec![branch("<radio>theme", vec![leaf("<checked>dark"), leaf("light")])],
    )];
    assert!(toggle_radio(&mut tree, &IdArray::from_slice(&[0, 0, 1])));
    let group = get_element_at(&tree, &IdArray::from_slice(&[0, 0])).unwrap();
    let texts: Vec<&str> =
        group.as_obj().unwrap().children.iter().map(|e| e.as_str().unwrap()).collect();
    assert_eq!(texts, vec!["dark", "<checked>light"]);
}

#[test]
fn a_button_outside_a_group_is_not_chosen() {
    let mut tree = vec![branch("settings", vec![leaf("dark")])];
    assert!(!toggle_radio(&mut tree, &IdArray::from_slice(&[0, 0])));
    assert!(!toggle_radio(&mut tree, &IdArray::from_slice(&[0])));
}

// --- names ---

#[test]
fn a_name_tells_a_file_from_a_directory() {
    assert_eq!(parse_creation_prefix("- a.txt"), (true, false, "a.txt".to_owned()));
    assert_eq!(parse_creation_prefix("+ docs"), (false, true, "docs".to_owned()));
    assert_eq!(parse_creation_prefix("docs:"), (false, true, "docs".to_owned()));
    assert_eq!(parse_creation_prefix("a.txt"), (true, false, "a.txt".to_owned()));
    assert_eq!(parse_creation_prefix("   "), (false, false, String::new()));
}

#[test]
fn a_path_is_its_directory_and_its_name() {
    assert_eq!(split_nav_path("/a/b/c.txt"), ("/a/b".to_owned(), "c.txt".to_owned()));
    assert_eq!(split_nav_path("/c.txt").1, "c.txt");
}

#[test]
fn an_empty_input_is_a_placeholder() {
    assert!(is_empty_placeholder("<input></input>"));
    assert!(!is_empty_placeholder("<input>x</input>"));
}

#[test]
fn an_input_for_all_is_found_by_its_tags() {
    assert!(has_input_all("a <input-all>b</input-all>"));
    assert_eq!(extract_input_all("a <input-all>b</input-all>").as_deref(), Some("b"));
    assert!(!has_input_all("a <input>b</input>"));
    assert!(!has_input_all("a b"));
    assert_eq!(extract_input_all("a b"), None);
}

// --- the tree ---

#[test]
fn what_is_inserted_can_be_removed_again() {
    let mut tree = vec![branch("root", vec![leaf("a"), leaf("c")])];
    let id = IdArray::from_slice(&[0, 1]);
    insert_at(&mut tree, &id, 1, leaf("b"));
    assert_eq!(get_ffon_max_id_at_path(&tree, &id), 2);
    assert_eq!(get_element_at(&tree, &id).and_then(|e| e.as_str()), Some("b"));
    let removed = remove_at(&mut tree, &id, 1).unwrap();
    assert_eq!(removed.as_str(), Some("b"));
    assert_eq!(get_ffon_at_id(&tree, &id).unwrap().len(), 2);
    assert!(remove_at(&mut tree, &id, 7).is_none());
}

#[test]
fn an_element_is_replaced_and_a_branch_renamed() {
    let mut tree = vec![branch("root", vec![leaf("a"), branch("old", vec![leaf("x")])])];
    let id = IdArray::from_slice(&[0, 0]);
    replace_at(&mut tree, &id, 0, leaf("z"));
    rekey_obj_at(&mut tree, &id, 1, "new".to_owned());
    let layer = get_ffon_at_id(&tree, &id).unwrap();
    assert_eq!(layer[0].as_str(), Some("z"));
    assert_eq!(layer[1].as_obj().unwrap().key, "new");
    assert_eq!(layer[1].as_obj().unwrap().children.len(), 1);
}

#[test]
fn only_a_branch_has_a_layer_below() {
    let tree = vec![branch("root", vec![leaf("a"), branch("b", vec![leaf("c")])])];
    assert!(!next_layer_exists(&tree, &IdArray::from_slice(&[0, 0])));
    assert!(next_layer_exists(&tree, &IdArray::from_slice(&[0, 1])));
    assert!(get_ffon_at_id(&tree, &IdArray::from_slice(&[0, 0, 0])).is_none());
    assert_eq!(get_ffon_at_id(&tree, &IdArray::new()).map(|layer| layer.len()), Some(1));
}

// --- the text that is edited ---

#[test]
fn lines_are_found_around_a_position() {
    let buf = "one\ntwo\nthree";
    assert_eq!(find_line_start(buf, 5), 4);
    assert_eq!(find_line_end(buf, 5), 7);
    assert_eq!(find_line_start(buf, 0), 0);
    assert_eq!(find_line_end(buf, 9), buf.len());
}

#[test]
fn a_line_up_and_down_keeps_the_column() {
    let buf = "one\ntwo\nthree";
    assert_eq!(line_below(buf, 1), Some(5));
    assert_eq!(line_above(buf, 5), Some(1));
    assert_eq!(line_above(buf, 1), None);
    assert_eq!(line_below(buf, 9), None);
}

#[test]
fn characters_are_counted_and_passed_whole() {
    let buf = "a\u{e9}\u{20ac}\u{1D11E}";
    assert_eq!(utf8_count_chars(buf, 0, buf.len()), 4);
    assert_eq!(utf8_advance_n(buf, 0, 2, buf.len()), 3);
    assert_eq!(next_char(buf, 1), 3);
    assert_eq!(previous_char(buf, 3), 1);
    assert_eq!(previous_char(buf, buf.len()), 6);
}

#[test]
fn a_splice_is_undone_by_the_part_that_it_replaced() {
    let buf = "caf\u{e9} au lait";
    let cut = slice(buf, 0, 5);
    assert_eq!(cut, "caf\u{e9}");
    let spliced = splice(buf, 0, 5, "th\u{e9}");
    assert_eq!(spliced, "th\u{e9} au lait");
    assert_eq!(splice(&spliced, 0, 4, &cut), buf);
}

#[test]
fn texts_are_split_trimmed_and_joined() {
    assert_eq!(split_nonempty("/a//b\\c", '/', '\\'), vec!["a", "b", "c"]);
    assert_eq!(join(&vec!["a".to_owned(), "b".to_owned()], " > "), "a > b");
    assert_eq!(split_once("k:v:w", ':'), Some(("k".to_owned(), "v:w".to_owned())));
    assert_eq!(split_once("kv", ':'), None);
    assert_eq!(trim(" \u{a0}a b\n"), "a b");
    assert_eq!(count_words("  one two\tthree "), 3);
}
