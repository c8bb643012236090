//! What a screen reader is handed.

use sicompass_ui::accesskit_sdl::{
    build_tree, build_tree_macos, detect_language, label_to_speech, AccessTree, Role,
    SpeechChannel, ANNOUNCEMENT_ID, ELEMENT_ID, ROOT_ID,
};
use sicompass_ui::app_state::{AppRenderer, Coordinate, RenderListItem};
use sicompass_ui::ffon::IdArray;
use sicompass_ui::handlers::announce_char;

/// The mark that tells two equal announcements apart.
const PARITY_SENTINEL: char = '\u{200B}';

/// Strip the parity sentinel (U+200B) appended by `speak_mode_change` and
/// `announce_char` to force AccessKit tree diffs on consecutive identical
/// announcements. Tests use this to assert the logical text without caring
/// about parity cycle state.
fn announced_text(r: &AppRenderer) -> Option<String> {
    r.pending_announcement
        .as_deref()
        .map(|s| s.trim_end_matches('\u{200B}').to_string())
}

fn make_renderer_with_list(labels: &[&str]) -> AppRenderer {
    let mut r = AppRenderer::new();
    for &label in labels {
        r.total_list.push(RenderListItem {
            id: IdArray::new(),
            label: label.to_string(),
            data: None,
            nav_path: None,
        });
    }
    r
}

#[test]
fn build_tree_empty_list() {
    let r = AppRenderer::new();
    let tree = build_tree(&r);
    // root + single element placeholder + announcement node
    assert_eq!(tree.nodes.len(), 3, "root + element + announcement node");
    assert_eq!(tree.nodes[0].id, ROOT_ID);
    assert_eq!(tree.focus, ROOT_ID);
}

#[test]
fn build_tree_with_items() {
    let r = make_renderer_with_list(&["Files", "Tutorial", "Settings"]);
    let tree = build_tree(&r);
    // always: root + single element + announcement (regardless of list size)
    assert_eq!(tree.nodes.len(), 3);
    assert_eq!(tree.nodes[0].id, ROOT_ID);
    assert_eq!(tree.nodes[1].id, ELEMENT_ID);
    assert_eq!(tree.nodes[2].id, ANNOUNCEMENT_ID);
}

#[test]
fn build_tree_focus_tracks_list_index() {
    let mut r = make_renderer_with_list(&["a", "b", "c"]);
    r.list_index = 2;
    let tree = build_tree(&r);
    // Focus always lands on ELEMENT_ID; the label reflects the selected item.
    assert_eq!(tree.focus, ELEMENT_ID);
    assert_eq!(tree.nodes[1].label.as_deref(), Some("c"));
}

#[test]
fn build_tree_focus_clamps_to_last_item() {
    let mut r = make_renderer_with_list(&["only"]);
    r.list_index = 99; // out of bounds
    let tree = build_tree(&r);
    assert_eq!(tree.focus, ELEMENT_ID);
    assert_eq!(tree.nodes[1].label.as_deref(), Some("only"));
}

#[test]
fn build_tree_item_role_is_list_item() {
    let r = make_renderer_with_list(&["x"]);
    let tree = build_tree(&r);
    assert_eq!(tree.nodes[1].role, Role::ListItem);
}

#[test]
fn build_tree_root_role_is_window() {
    let r = AppRenderer::new();
    let tree = build_tree(&r);
    assert_eq!(tree.nodes[0].role, Role::Window);
}

// --- label_to_speech ---

#[test]
fn label_to_speech_no_space_returns_raw() {
    assert_eq!(label_to_speech("Files"), "Files");
}

// --- detect_language ---
//
// whatlang only classifies Latin-script text confidently once there's a
// sentence or two of signal (short fragments get a low score and fall back
// by design), so these use realistic message-length passages.

const NL_PASSAGE: &str = "Goedemorgen, dit is een belangrijk bericht over de vergadering van volgende week. Laat ons alstublieft weten of u aanwezig kunt zijn want wij moeten de zaal op tijd reserveren.";
const EN_PASSAGE: &str = "Good morning, this is an important message about next week's meeting. Please let us know whether you will be able to attend because we need to reserve the room in time.";
const FR_PASSAGE: &str =
    "Bonjour, ceci est un message important concernant la réunion de la semaine prochaine.";
const DE_PASSAGE: &str =
    "Guten Morgen, dies ist eine wichtige Nachricht über das Treffen der nächsten Woche.";

#[test]
fn detect_language_dutch_passage() {
    assert_eq!(detect_language(NL_PASSAGE).as_deref(), Some("nl"));
}

#[test]
fn detect_language_french_passage() {
    assert_eq!(detect_language(FR_PASSAGE).as_deref(), Some("fr"));
}

#[test]
fn detect_language_german_passage() {
    assert_eq!(detect_language(DE_PASSAGE).as_deref(), Some("de"));
}

#[test]
fn detect_language_english_passage() {
    assert_eq!(detect_language(EN_PASSAGE).as_deref(), Some("en"));
}

#[test]
fn detect_language_short_single_word_is_none() {
    // Too few words to classify — fall back to the UI locale.
    assert_eq!(detect_language("newfile.txt"), None);
}

#[test]
fn detect_language_too_short_is_none() {
    // Under the minimum character threshold.
    assert_eq!(detect_language("a b c"), None);
}

#[test]
fn detect_language_ignores_parity_sentinel() {
    // The trailing U+200B announcement-parity marker must not break detection.
    let with_sentinel = format!("{FR_PASSAGE}\u{200B}");
    assert_eq!(detect_language(&with_sentinel).as_deref(), Some("fr"));
}

#[test]
fn label_to_speech_minus_i() {
    assert_eq!(label_to_speech("-i newfile.txt"), "minus i newfile.txt");
}

#[test]
fn label_to_speech_bare_minus() {
    assert_eq!(label_to_speech("- something"), "minus something");
}

#[test]
fn label_to_speech_plus_l() {
    assert_eq!(label_to_speech("+l foo"), "plus l foo");
}

#[test]
fn label_to_speech_unknown_prefix_drops_prefix() {
    // Of an unknown prefix only the content is spoken.
    assert_eq!(label_to_speech("-z thing"), "thing");
}

#[test]
fn label_to_speech_timeline_head_arrow_says_current() {
    assert_eq!(
        label_to_speech("> nav ArrowRight /home/nico"),
        "current nav ArrowRight /home/nico",
    );
}

#[test]
fn label_to_speech_timeline_redo_branch_dot_says_undone() {
    assert_eq!(
        label_to_speech("\u{00B7} nav ArrowRight /home/nico"),
        "undone nav ArrowRight /home/nico",
    );
}

#[test]
fn label_to_speech_timeline_head_minus_arrow_says_minus_current() {
    assert_eq!(
        label_to_speech("- > nav ArrowRight /home/nico"),
        "minus current nav ArrowRight /home/nico",
    );
}

#[test]
fn label_to_speech_timeline_redo_minus_dot_says_minus_undone() {
    assert_eq!(
        label_to_speech("- \u{00B7} nav ArrowRight /home/nico"),
        "minus undone nav ArrowRight /home/nico",
    );
}

#[test]
fn build_tree_translates_list_item_names() {
    // First item (index 0)
    let r = make_renderer_with_list(&["-i newfile.txt", "+l dir"]);
    let tree = build_tree(&r);
    assert_eq!(
        tree.nodes[1].label.as_deref(),
        Some("minus i newfile.txt")
    );
    // Second item (index 1)
    let mut r2 = make_renderer_with_list(&["-i newfile.txt", "+l dir"]);
    r2.list_index = 1;
    let tree2 = build_tree(&r2);
    assert_eq!(tree2.nodes[1].label.as_deref(), Some("plus l dir"));
}

#[test]
fn build_tree_item_labels_match() {
    // First item (index 0)
    let r = make_renderer_with_list(&["Files", "Tutorial"]);
    let tree = build_tree(&r);
    assert_eq!(tree.nodes[1].label.as_deref(), Some("Files"));
    // Second item (index 1)
    let mut r2 = make_renderer_with_list(&["Files", "Tutorial"]);
    r2.list_index = 1;
    let tree2 = build_tree(&r2);
    assert_eq!(tree2.nodes[1].label.as_deref(), Some("Tutorial"));
}

// --- per-item language tagging ---

#[test]
fn build_tree_element_language_detected_from_content() {
    // A Dutch item is tagged "nl" regardless of the UI locale. The "-"
    // FFON prefix is stripped before detection by `speech_content`.
    let label = format!("- {NL_PASSAGE}");
    let r = make_renderer_with_list(&[label.as_str()]);
    let tree = build_tree(&r);
    assert_eq!(tree.nodes[1].language, "nl");
}

#[test]
fn build_tree_element_language_falls_back_to_ui_locale() {
    // Short, undetectable content keeps the active UI locale's voice.
    let r = make_renderer_with_list(&["-i newfile.txt"]);
    let tree = build_tree(&r);
    let ui = sicompass_sdk::localize::current_locale();
    assert_eq!(tree.nodes[1].language, ui.as_str());
}

#[test]
fn build_tree_announcement_language_is_ui_locale() {
    let mut r = AppRenderer::new();
    r.pending_announcement = Some("search".to_string());
    let tree = build_tree(&r);
    let ui = sicompass_sdk::localize::current_locale();
    let ann = tree.nodes.iter().find(|n| n.id == ANNOUNCEMENT_ID).unwrap();
    assert_eq!(ann.language, ui.as_str());
}

#[test]
fn build_tree_root_name_is_sicompass() {
    let r = AppRenderer::new();
    let tree = build_tree(&r);
    assert_eq!(tree.nodes[0].label.as_deref(), Some("sicompass"));
}

#[test]
fn build_tree_has_correct_tree() {
    let r = AppRenderer::new();
    let tree = build_tree(&r);
    assert_eq!(tree.nodes[0].id, ROOT_ID);
    assert_eq!(tree.nodes[0].children, vec![ELEMENT_ID, ANNOUNCEMENT_ID]);
}

// --- announcement live-region ---

#[test]
fn build_tree_includes_announcement_node_always() {
    // The announcement node is always present; when pending it carries the text.
    let mut r = AppRenderer::new();
    r.pending_announcement = Some("search".to_string());
    let tree = build_tree(&r);
    let ann = tree.nodes.iter().find(|n| n.id == ANNOUNCEMENT_ID);
    assert!(ann.is_some(), "announcement node should always be present");
    let node = ann.unwrap();
    assert_eq!(node.label.as_deref().unwrap(), "search");
    assert!(node.live);
}

#[test]
fn build_tree_announcement_node_empty_when_no_pending() {
    // The announcement node is still in the tree but with empty name when idle.
    let r = AppRenderer::new();
    let tree = build_tree(&r);
    let ann = tree.nodes.iter().find(|n| n.id == ANNOUNCEMENT_ID);
    assert!(ann.is_some(), "announcement node should always be present");
    let node = ann.unwrap();
    assert_eq!(node.label.as_deref().unwrap_or(""), "");
    assert!(node.live);
}

// --- AppRenderer::speak_mode_change ---

#[test]
fn speak_mode_change_simple_search_no_context() {
    let mut r = AppRenderer::new();
    r.coordinate = Coordinate::SimpleSearch;
    r.speak_mode_change(&None);
    assert_eq!(announced_text(&r).as_deref(), Some("search mode"));
}

#[test]
fn speak_mode_change_with_context() {
    let mut r = AppRenderer::new();
    r.coordinate = Coordinate::Insert;
    r.speak_mode_change(&Some("filename.txt".to_string()));
    assert_eq!(
        announced_text(&r).as_deref(),
        Some("insert mode - filename.txt")
    );
}

#[test]
fn speak_mode_change_masks_password_context() {
    // A password field's value must never be spoken: the context is masked
    // to one asterisk per character.
    let mut r = AppRenderer::new();
    r.coordinate = Coordinate::Insert;
    r.input_is_password = true;
    r.speak_mode_change(&Some("s3cr3t".to_string()));
    assert_eq!(announced_text(&r).as_deref(), Some("insert mode - ******"));
}

#[test]
fn announce_char_masks_password() {
    // Each typed/cursored character is echoed as `*` while editing a
    // password, not the real character.
    let mut r = AppRenderer::new();
    r.input_is_password = true;
    announce_char(&mut r, 'k');
    assert_eq!(announced_text(&r).as_deref(), Some("*"));
    // Non-password edits announce the real character.
    r.input_is_password = false;
    announce_char(&mut r, 'k');
    assert_eq!(announced_text(&r).as_deref(), Some("k"));
}

#[test]
fn speak_mode_change_empty_context_gives_mode_only() {
    let mut r = AppRenderer::new();
    r.coordinate = Coordinate::Command;
    r.speak_mode_change(&Some(String::new()));
    assert_eq!(announced_text(&r).as_deref(), Some("command mode"));
}

#[test]
fn speak_mode_change_general() {
    let mut r = AppRenderer::new(); // default is General
    r.speak_mode_change(&None);
    assert_eq!(announced_text(&r).as_deref(), Some("general mode"));
}

#[test]
fn speak_mode_change_insert_with_context() {
    let mut r = AppRenderer::new();
    r.coordinate = Coordinate::Insert;
    r.speak_mode_change(&Some("Documents".to_string()));
    assert_eq!(
        announced_text(&r).as_deref(),
        Some("insert mode - Documents")
    );
}

#[test]
fn speak_mode_change_normal() {
    let mut r = AppRenderer::new();
    r.coordinate = Coordinate::Normal;
    r.speak_mode_change(&None);
    assert_eq!(announced_text(&r).as_deref(), Some("normal mode"));
}

#[test]
fn speak_mode_change_visual() {
    let mut r = AppRenderer::new();
    r.coordinate = Coordinate::Visual;
    r.speak_mode_change(&None);
    assert_eq!(announced_text(&r).as_deref(), Some("visual mode"));
}

#[test]
fn speak_mode_change_extended_search() {
    let mut r = AppRenderer::new();
    r.coordinate = Coordinate::ExtendedSearch;
    r.speak_mode_change(&None);
    assert_eq!(announced_text(&r).as_deref(), Some("extended search mode"));
}

#[test]
fn speak_mode_change_scroll() {
    let mut r = AppRenderer::new();
    r.coordinate = Coordinate::Scroll;
    r.speak_mode_change(&None);
    assert_eq!(announced_text(&r).as_deref(), Some("scroll mode"));
}

#[test]
fn speak_mode_change_dashboard() {
    let mut r = AppRenderer::new();
    r.coordinate = Coordinate::Dashboard;
    r.speak_mode_change(&None);
    assert_eq!(announced_text(&r).as_deref(), Some("dashboard mode"));
}

#[test]
fn speak_mode_change_input_search() {
    let mut r = AppRenderer::new();
    r.coordinate = Coordinate::InputSearch;
    r.speak_mode_change(&None);
    assert_eq!(announced_text(&r).as_deref(), Some("input search mode"));
}

// --- the single announcement channel ---

/// Advance the channel the way `update_if_active` does, and return what
/// the live region would carry.
fn publish(channel: &mut SpeechChannel, r: &AppRenderer) -> String {
    *channel = channel.next(r, &sicompass_sdk::localize::current_locale());
    channel.published.value.clone()
}

fn announcement_value(tree: &AccessTree) -> Option<String> {
    let node = tree.nodes.last().expect("announcement node");
    assert_eq!(node.id, ANNOUNCEMENT_ID);
    node.value.clone()
}

#[test]
fn tree_shape_is_root_anchor_announcement() {
    let r = make_renderer_with_list(&["a"]);
    let tree = build_tree_macos(&r, "hello", "en", "en-US");
    assert_eq!(tree.nodes.len(), 3);
    assert_eq!(tree.nodes[0].id, ROOT_ID);
    assert_eq!(tree.nodes[1].id, ELEMENT_ID);
    assert_eq!(tree.nodes[2].id, ANNOUNCEMENT_ID);
}

#[test]
fn announcement_node_carries_value_and_anchor_does_not() {
    let r = make_renderer_with_list(&["a"]);
    let tree = build_tree_macos(&r, "hello", "en", "en-US");
    // The value is what accesskit_macos turns into
    // NSAccessibilityAnnouncementRequested; a label alone is silent.
    assert_eq!(announcement_value(&tree).as_deref(), Some("hello"));
    assert_eq!(tree.nodes[2].live, true);
    // The anchor stays label-only: a value there would post an extra
    // NSAccessibilityValueChanged for the focused node.
    assert_eq!(tree.nodes[1].label.as_deref(), Some("a"));
    assert!(tree.nodes[1].value.is_none());
}

#[test]
fn empty_spoken_leaves_value_unset() {
    let r = make_renderer_with_list(&["a"]);
    let tree = build_tree_macos(&r, "", "", "en-US");
    // None, not Some(""), so no announcement is posted at startup.
    assert!(announcement_value(&tree).is_none());
}

#[test]
fn focus_is_the_anchor_even_when_list_is_empty() {
    // Role::Window is excluded by can_be_focused, so focusing the root
    // would leave accessibilityFocusedUIElement nil.
    let tree = build_tree_macos(&AppRenderer::new(), "", "", "en-US");
    assert_eq!(tree.focus, ELEMENT_ID);
    let tree = build_tree_macos(&make_renderer_with_list(&["a"]), "", "", "en-US");
    assert_eq!(tree.focus, ELEMENT_ID);
}

#[test]
fn announcement_wins_over_element_label() {
    let mut r = make_renderer_with_list(&["item"]);
    r.speak_mode_change(&None);
    let expected = r.pending_announcement.clone().unwrap();
    let mut channel = SpeechChannel::new();
    assert_eq!(publish(&mut channel, &r), expected);
}

#[test]
fn changed_element_label_is_published_without_an_announcement() {
    let mut r = make_renderer_with_list(&["first", "second"]);
    let mut channel = SpeechChannel::new();
    assert_eq!(publish(&mut channel, &r), "first");
    r.list_index = 1;
    assert_eq!(publish(&mut channel, &r), "second");
}

#[test]
fn unchanged_state_republishes_verbatim() {
    let r = make_renderer_with_list(&["only"]);
    let mut channel = SpeechChannel::new();
    let first = publish(&mut channel, &r);
    // Identical value => no tree diff => no repeated announcement.
    assert_eq!(publish(&mut channel, &r), first);
    assert_eq!(publish(&mut channel, &r), first);
}

#[test]
fn repeated_identical_announcement_still_changes_the_value() {
    let mut r = AppRenderer::new();
    r.speak_mode_change(&None);
    let mut channel = SpeechChannel::new();
    let first = publish(&mut channel, &r);
    // Same text, opposite parity sentinel: the value must differ or
    // accesskit_macos suppresses the second announcement.
    r.speak_mode_change(&None);
    let second = publish(&mut channel, &r);
    assert_ne!(first, second);
    assert_eq!(
        first.trim_end_matches(PARITY_SENTINEL),
        second.trim_end_matches(PARITY_SENTINEL)
    );
}

#[test]
fn filter_mode_item_is_not_spoken_twice() {
    // speak_current_element pushes the selected item through
    // pending_announcement *with* a parity sentinel. The next frame
    // must not re-publish the same item as a bare element label.
    let mut r = make_renderer_with_list(&["alpha", "beta"]);
    r.list_index = 1;
    r.speak_current_element();
    let mut channel = SpeechChannel::new();
    let announced = publish(&mut channel, &r);
    assert_eq!(announced.trim_end_matches(PARITY_SENTINEL), "beta");
    assert_eq!(publish(&mut channel, &r), announced, "spoken twice");
}

/// An announcement must not be followed by a re-read of the unchanged
/// element label.  VoiceOver replaces a queued medium-priority
/// announcement with the next one, so a spurious follow-up one frame
/// later (~16 ms) swallows whatever was just said.
#[test]
fn announcement_is_not_followed_by_an_element_re_read() {
    // Single token: `label_to_speech` treats a leading word as a list
    // prefix and drops it, which would obscure what this test checks.
    let mut r = make_renderer_with_list(&["alpha"]);
    let mut channel = SpeechChannel::new();
    // Settle on the element label first, as normal-mode navigation does.
    assert_eq!(publish(&mut channel, &r), "alpha");

    r.speak_mode_change(&None);
    let spoken = publish(&mut channel, &r);
    assert_ne!(spoken, "alpha");
    // The next frames must republish it verbatim, not the list item.
    assert_eq!(publish(&mut channel, &r), spoken);
    assert_eq!(publish(&mut channel, &r), spoken);
}

/// Typing in Insert mode echoes one character per keystroke; each echo
/// must be the last thing published until the next keystroke.
#[test]
fn typed_characters_are_echoed_one_per_keystroke() {
    let mut r = make_renderer_with_list(&["alpha"]);
    let mut channel = SpeechChannel::new();
    publish(&mut channel, &r);

    for ch in ['a', 'b', 'c'] {
        announce_char(&mut r, ch);
        let echoed = publish(&mut channel, &r);
        assert_eq!(
            echoed.trim_end_matches(PARITY_SENTINEL),
            ch.to_string(),
            "keystroke not echoed"
        );
        // Idle frame between keystrokes: nothing new may be published.
        assert_eq!(publish(&mut channel, &r), echoed);
    }
}

/// Entering Insert mode speaks the mode plus the existing text, and that
/// must not be clobbered either.
#[test]
fn insert_mode_entry_announces_the_existing_text() {
    let mut r = make_renderer_with_list(&["alpha"]);
    r.coordinate = Coordinate::Insert;
    let mut channel = SpeechChannel::new();
    publish(&mut channel, &r);

    r.speak_mode_change(&Some("existing".to_string()));
    let spoken = publish(&mut channel, &r);
    assert!(spoken.contains("existing"), "existing text not spoken");
    assert_eq!(publish(&mut channel, &r), spoken);
}

#[test]
fn stale_announcement_does_not_resurface_after_navigation() {
    // pending_announcement is never cleared, so it must not win again
    // once a later element change has been published.
    let mut r = make_renderer_with_list(&["alpha", "beta"]);
    r.speak_mode_change(&None);
    let mut channel = SpeechChannel::new();
    let mode = publish(&mut channel, &r);
    r.list_index = 1;
    assert_eq!(publish(&mut channel, &r), "beta");
    assert_ne!(publish(&mut channel, &r), mode);
}
