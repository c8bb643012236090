//! The state of the user interface.

use sicompass_ui::app_state::{AppRenderer, Coordinate, Task};

fn register_belgian_texts() {
    for (locale, texts) in [
        (
            "nl-BE",
            "mode-general = algemene modus\nmode-insert = invoegmodus\nspeak-tab-change = tabblad { $idx }/{ $total }: { $label }\n",
        ),
        ("fr-BE", "mode-general = mode général\nmode-insert = mode insertion\n"),
        ("de-BE", "mode-general = allgemeiner Modus\nmode-insert = Einfügemodus\n"),
    ] {
        sicompass_sdk::localize::register_bundle(locale, texts).unwrap();
    }
}

// --- Coordinate::display_label (i18n) ---

#[test]
fn coordinate_display_label_en_us_matches_as_str() {
    sicompass_sdk::localize::set_locale("en-US");
    assert_eq!(Coordinate::General.display_label(), "general mode");
    assert_eq!(Coordinate::Insert.display_label(), "insert mode");
    assert_eq!(Coordinate::SimpleSearch.display_label(), "search");
    sicompass_sdk::localize::set_locale("en-US");
}

#[test]
fn coordinate_display_label_translates_to_belgian_locales() {
    register_belgian_texts();
    sicompass_sdk::localize::set_locale("nl-BE");
    assert_eq!(Coordinate::General.display_label(), "algemene modus");
    assert_eq!(Coordinate::Insert.display_label(), "invoegmodus");

    sicompass_sdk::localize::set_locale("fr-BE");
    assert_eq!(Coordinate::General.display_label(), "mode général");
    assert_eq!(Coordinate::Insert.display_label(), "mode insertion");

    sicompass_sdk::localize::set_locale("de-BE");
    assert_eq!(Coordinate::General.display_label(), "allgemeiner Modus");
    assert_eq!(Coordinate::Insert.display_label(), "Einfügemodus");

    sicompass_sdk::localize::set_locale("en-US");
}

#[test]
fn speak_tab_change_uses_translated_template() {
    register_belgian_texts();
    let mut r = AppRenderer::new();
    sicompass_sdk::localize::set_locale("nl-BE");
    r.speak_tab_change("bestandsverkenner");
    // Strip parity sentinel (zero-width space) before asserting.
    let ann = r.pending_announcement.as_ref().expect("ann set");
    let ann = ann.trim_end_matches('\u{200B}');
    assert!(
        ann.starts_with("tabblad ") && ann.contains(": bestandsverkenner"),
        "nl-BE tab announcement should use 'tabblad' template, got: {ann:?}"
    );
    sicompass_sdk::localize::set_locale("en-US");
}

// --- Coordinate::as_str ---

#[test]
fn coordinate_as_str_general() {
    assert_eq!(Coordinate::General.as_str(), "general mode");
}

#[test]
fn coordinate_as_str_insert() {
    assert_eq!(Coordinate::Insert.as_str(), "insert mode");
}

#[test]
fn coordinate_as_str_normal() {
    assert_eq!(Coordinate::Normal.as_str(), "normal mode");
}

#[test]
fn coordinate_as_str_visual() {
    assert_eq!(Coordinate::Visual.as_str(), "visual mode");
}

#[test]
fn coordinate_as_str_simple_search() {
    assert_eq!(Coordinate::SimpleSearch.as_str(), "search");
}

#[test]
fn coordinate_as_str_extended_search() {
    assert_eq!(Coordinate::ExtendedSearch.as_str(), "extended search");
}

#[test]
fn coordinate_as_str_command() {
    assert_eq!(Coordinate::Command.as_str(), "command");
}

#[test]
fn coordinate_as_str_scroll() {
    assert_eq!(Coordinate::Scroll.as_str(), "scroll mode");
}

#[test]
fn coordinate_as_str_scroll_search() {
    assert_eq!(Coordinate::ScrollSearch.as_str(), "scroll search");
    assert_eq!(Coordinate::ScrollPrefixSearch.as_str(), "scroll prefix search");
}

#[test]
fn coordinate_as_str_input_search() {
    assert_eq!(Coordinate::InputSearch.as_str(), "input search");
}

#[test]
fn coordinate_as_str_dashboard() {
    assert_eq!(Coordinate::Dashboard.as_str(), "dashboard");
}

// --- Task::as_str ---

#[test]
fn task_as_str_none() { assert_eq!(Task::NoTask.as_str(), "none"); }

#[test]
fn task_as_str_input() { assert_eq!(Task::Input.as_str(), "input"); }

#[test]
fn task_as_str_append() { assert_eq!(Task::Append.as_str(), "append"); }

#[test]
fn task_as_str_append_append() { assert_eq!(Task::AppendAppend.as_str(), "append append"); }

#[test]
fn task_as_str_insert() { assert_eq!(Task::Insert.as_str(), "insert"); }

#[test]
fn task_as_str_insert_insert() { assert_eq!(Task::InsertInsert.as_str(), "insert insert"); }

#[test]
fn task_as_str_delete() { assert_eq!(Task::Delete.as_str(), "delete"); }

#[test]
fn task_as_str_arrow_up() { assert_eq!(Task::ArrowUp.as_str(), "up"); }

#[test]
fn task_as_str_arrow_down() { assert_eq!(Task::ArrowDown.as_str(), "down"); }

#[test]
fn task_as_str_arrow_left() { assert_eq!(Task::ArrowLeft.as_str(), "left"); }

#[test]
fn task_as_str_arrow_right() { assert_eq!(Task::ArrowRight.as_str(), "right"); }

#[test]
fn task_as_str_cut() { assert_eq!(Task::Cut.as_str(), "cut"); }

#[test]
fn task_as_str_copy() { assert_eq!(Task::Copy.as_str(), "copy"); }

#[test]
fn task_as_str_paste() { assert_eq!(Task::Paste.as_str(), "paste"); }

// --- AppRenderer.error_message ---

#[test]
fn error_message_simple() {
    let mut r = AppRenderer::new();
    r.error_message = "test error".to_owned();
    assert_eq!(r.error_message, "test error");
}

#[test]
fn error_message_empty() {
    let mut r = AppRenderer::new();
    r.error_message = String::new();
    assert_eq!(r.error_message, "");
}

#[test]
fn error_message_overwrites() {
    let mut r = AppRenderer::new();
    r.error_message = "first".to_owned();
    r.error_message = "second".to_owned();
    assert_eq!(r.error_message, "second");
}

// --- announcements ---

#[test]
fn an_error_is_said_once_and_again_when_it_comes_back() {
    let mut r = AppRenderer::new();
    r.error_message = "disk full".to_owned();
    r.announce_error_if_new();
    let said = r.pending_announcement.clone();
    assert!(said.as_deref().unwrap().starts_with("disk full"));
    r.announce_error_if_new();
    assert_eq!(r.pending_announcement, said);
    r.error_message = String::new();
    r.announce_error_if_new();
    r.error_message = "disk full".to_owned();
    r.announce_error_if_new();
    assert_ne!(r.pending_announcement, said);
}

#[test]
fn a_tab_is_said_by_its_number_and_name() {
    let mut r = AppRenderer::new();
    r.speak_tab_change_as("mail", "speak-tab-change");
    let said = r.pending_announcement.unwrap();
    assert_eq!(said.trim_end_matches('\u{200B}'), "tab 1/1: mail");
}

#[test]
fn a_translated_mode_is_said_as_it_is_translated() {
    let mut r = AppRenderer::new();
    r.coordinate = Coordinate::SimpleSearch;
    r.speak_mode_change_as(&None, "zoeken");
    let said = r.pending_announcement.unwrap();
    assert_eq!(said.trim_end_matches('\u{200B}'), "zoeken");
}

#[test]
fn passwords_of_the_same_length_are_said_alike() {
    let said = |password: &str| {
        let mut r = AppRenderer::new();
        r.coordinate = Coordinate::Insert;
        r.input_is_password = true;
        r.speak_mode_change_as(&Some(password.to_owned()), "mode-insert");
        r.pending_announcement.unwrap()
    };
    assert_eq!(said("abc"), said("xyz"));
}
