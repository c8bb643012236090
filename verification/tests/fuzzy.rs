use sicompass_ui::fuzzy::{match_label, LONGEST_NEEDLE};

fn score(search: &str, label: &str) -> Option<u32> {
    match_label(search, label).map(|(points, _)| points)
}

#[test]
fn a_match_has_a_score_and_places() {
    let (points, places) = match_label("doc", "doc").unwrap();
    assert_eq!(points, 36 + 2 * 26);
    assert_eq!(places, vec![0, 1, 2]);
    assert_eq!(score("doc", "xyz"), None);
    assert_eq!(score("DOC", "doc"), Some(36 + 2 * 26));
}

#[test]
fn the_points_of_the_longest_needle_are_added_up() {
    let letters = "a".repeat(2001);
    assert_eq!(score(&letters, &letters), Some(52036));
    let longest = "a".repeat(LONGEST_NEEDLE);
    assert_eq!(score(&longest, &longest), Some(65530));
}

#[test]
fn a_longer_needle_matches_nothing() {
    let long = "a".repeat(LONGEST_NEEDLE + 1);
    assert_eq!(score(&long, &long), None);
    assert_eq!(score(&long, "a"), None);
    assert_eq!(score(&long, &"a".repeat(LONGEST_NEEDLE)), None);
}

#[test]
fn each_word_has_a_needle_of_its_own() {
    let words = vec!["a"; 3000].join(" ");
    assert_eq!(score(&words, "a"), Some(3000 * 36));
    let two = format!("{} {}", "a".repeat(2000), "a".repeat(2000));
    let label = "a".repeat(2600);
    assert!(score(&two, &label).is_some());
    // An escaped space does not part words.
    let one = format!("{}\\ {}", "a".repeat(2000), "a".repeat(2000));
    let label = format!("{} {}", "a".repeat(2000), "a".repeat(2000));
    assert_eq!(score(&one, &label), None);
}

#[test]
fn a_backslash_counts_twice_beside_other_than_ascii() {
    let label = format!("\u{e9}{}", "\\".repeat(2600));
    let fits = format!("\u{e9}{}", "\\".repeat(1259));
    assert!(score(&fits, &label).is_some());
    let long = format!("\u{e9}{}", "\\".repeat(1260));
    assert_eq!(score(&long, &label), None);
    let ascii = format!("e{}", "\\".repeat(1260));
    let label = format!("e{}", "\\".repeat(2600));
    assert!(score(&ascii, &label).is_some());
}

#[test]
fn a_letter_that_folds_in_lower_case_is_not_matched_beside_accents() {
    assert_eq!(score("s\u{e9}", "\u{17f}as\u{e9}"), None);
    assert!(score("s\u{e9}", "sas\u{e9}").is_some());
    assert!(score("sa", "\u{17f}asa\u{e9}").is_some());
    assert!(score("\u{e9}", "5 \u{b5}m \u{e9}").is_some());
    assert!(score("\u{3c3}\u{3c4}", "\u{3c2}\u{3c3}\u{3c4}").is_some());
}

#[test]
fn a_label_of_many_bytes_is_matched() {
    let label = "e\u{301}".repeat(3000);
    assert!(score("eee", &label).is_some());
}
