use hush::cleanup::{
    apply_cleanup, lower_leading_capital, remove_beginning_caps, remove_end_period, remove_end_question,
};
use hush::config::CleanupConfig;

#[test]
fn remove_beginning_caps_single_char_with_space() {
    assert_eq!(remove_beginning_caps("H ello"), "h ello");
}

#[test]
fn remove_beginning_caps_single_char_with_lowercase() {
    assert_eq!(remove_beginning_caps("Hello"), "hello");
}

#[test]
fn remove_beginning_caps_no_change_uppercase_followed_by_uppercase() {
    assert_eq!(remove_beginning_caps("HELLO"), "HELLO");
}

#[test]
fn remove_beginning_caps_lowercase() {
    assert_eq!(remove_beginning_caps("hello"), "hello");
}

#[test]
fn remove_beginning_caps_single_char() {
    assert_eq!(remove_beginning_caps("H"), "h");
}

#[test]
fn remove_beginning_caps_empty() {
    assert_eq!(remove_beginning_caps(""), "");
}

#[test]
fn remove_end_period_with_period() {
    assert_eq!(remove_end_period("hello."), "hello");
}

#[test]
fn remove_end_period_without_period() {
    assert_eq!(remove_end_period("hello"), "hello");
}

#[test]
fn remove_end_period_only_period() {
    assert_eq!(remove_end_period("."), ".");
}

#[test]
fn remove_end_period_with_other_punctuation() {
    assert_eq!(remove_end_period("hello?"), "hello?");
}

#[test]
fn remove_end_period_empty() {
    assert_eq!(remove_end_period(""), "");
}

#[test]
fn apply_cleanup_both_disabled() {
    let cfg = CleanupConfig {
        capitalize: false,
        end_period: false,
        end_question: false,
    };
    assert_eq!(apply_cleanup("Hello world.", &cfg), "Hello world.");
}

#[test]
fn apply_cleanup_both_enabled() {
    let cfg = CleanupConfig {
        capitalize: true,
        end_period: true,
        end_question: false,
    };
    assert_eq!(apply_cleanup("Hello world.", &cfg), "hello world");
}

#[test]
fn apply_cleanup_capitalize_only() {
    let cfg = CleanupConfig {
        capitalize: true,
        end_period: false,
        end_question: false,
    };
    assert_eq!(apply_cleanup("Hello world.", &cfg), "hello world.");
}

#[test]
fn apply_cleanup_period_only() {
    let cfg = CleanupConfig {
        capitalize: false,
        end_period: true,
        end_question: false,
    };
    assert_eq!(apply_cleanup("Hello world.", &cfg), "Hello world");
}

#[test]
fn remove_end_question_strips_final_mark() {
    assert_eq!(remove_end_question("really?"), "really");
    assert_eq!(remove_end_question("really?  "), "really");
    assert_eq!(remove_end_question("?"), "?");
    assert_eq!(remove_end_question("   "), "   ");
    assert_eq!(remove_end_question("fine."), "fine.");
}

#[test]
fn remove_end_period_trailing_whitespace() {
    assert_eq!(remove_end_period("done.  \n"), "done");
    assert_eq!(remove_end_period(" \t"), " \t");
}

#[test]
fn remove_beginning_caps_keeps_acronym_and_non_letters() {
    assert_eq!(remove_beginning_caps("NASA rocks"), "NASA rocks");
    assert_eq!(remove_beginning_caps("1st place"), "1st place");
    assert_eq!(remove_beginning_caps("Éclair"), "éclair");
}

#[test]
fn apply_cleanup_question_only() {
    let cfg = CleanupConfig {
        capitalize: false,
        end_period: false,
        end_question: true,
    };
    assert_eq!(apply_cleanup("Is it on?", &cfg), "Is it on");
}

#[test]
fn apply_cleanup_all_enabled_period_then_question() {
    let cfg = CleanupConfig {
        capitalize: true,
        end_period: true,
        end_question: true,
    };
    assert_eq!(apply_cleanup("What?.", &cfg), "what");
}

#[test]
fn lower_leading_capital_decides_from_given_case() {
    assert_eq!(lower_leading_capital("Hello", true, "h", true), "hello");
    assert_eq!(lower_leading_capital("H ello", true, "h", false), "h ello");
    assert_eq!(lower_leading_capital("HELLO", true, "h", false), "HELLO");
    assert_eq!(lower_leading_capital("Hello", false, "h", true), "Hello");
    assert_eq!(lower_leading_capital("É", true, "é", false), "é");
    assert_eq!(lower_leading_capital("", true, "x", true), "");
}
