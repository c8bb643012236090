//! Session mode.

use sicompass_ui::session_mode::detect;

fn args(list: &[&str]) -> Vec<String> {
    list.iter().map(|s| s.to_string()).collect()
}

#[test]
fn off_by_default() {
    // The guarantee the whole module rests on: a plain launch is a normal
    // desktop application, with nothing switched on behind the user's
    // back.
    assert!(!detect(args(&["sicompass"]), None));
}

#[test]
fn enabled_by_the_flag() {
    assert!(detect(args(&["sicompass", "--session"]), None));
}

#[test]
fn enabled_by_the_environment() {
    assert!(detect(args(&["sicompass"]), Some("1".into())));
    assert!(detect(args(&["sicompass"]), Some("true".into())));
}

#[test]
fn other_values_do_not_enable_it() {
    for value in ["0", "false", "", "yes", "SESSION"] {
        assert!(
            !detect(args(&["sicompass"]), Some(value.into())),
            "{value:?} should not enable session mode"
        );
    }
}

#[test]
fn unrelated_flags_do_not_enable_it() {
    assert!(!detect(args(&["sicompass", "--check", "--sessions"]), None));
    assert!(!detect(args(&["sicompass", "session"]), None));
}

#[test]
fn the_flag_wins_over_a_disabled_environment() {
    assert!(detect(args(&["sicompass", "--session"]), Some("0".into())));
}
