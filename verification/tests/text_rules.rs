use bashlings::commands::list::Marker;
use bashlings::order::str_le;
use bashlings::style::{caution, emphasis, marker_label, solved_banner, verdict_label};
use bashlings::text::str_eq;
use bashlings::ui::{answer_is_yes, is_blank, is_yes, trim};
use bashlings::workspace::new_run_id;

#[test]
fn run_ids_are_v4_simple_uuids() {
    let a = new_run_id();
    let b = new_run_id();
    assert_eq!(a.len(), 32);
    assert!(a.chars().all(|c| c.is_ascii_digit() || ('a'..='f').contains(&c)));
    assert_eq!(a.as_bytes()[12], b'4');
    assert!(matches!(a.as_bytes()[16], b'8' | b'9' | b'a' | b'b'));
    assert_ne!(a, b);
}

#[test]
fn trimming_and_blankness() {
    assert_eq!(trim("  yes \n"), "yes");
    assert_eq!(trim("\u{3000}a b\u{a0}"), "a b");
    assert_eq!(trim("   "), "");
    assert!(is_blank(""));
    assert!(is_blank(" \t\r\n"));
    assert!(!is_blank(" {} "));
}

#[test]
fn yes_answers() {
    assert!(is_yes("y\n"));
    assert!(is_yes("  YES "));
    assert!(is_yes("Yes"));
    assert!(!is_yes("no"));
    assert!(!is_yes(""));
    assert!(!is_yes("yess"));
    assert!(!is_yes("y e s"));
    assert!(answer_is_yes("yes"));
    assert!(!answer_is_yes("YES"));
}

#[test]
fn styles_are_ansi() {
    assert_eq!(emphasis("m", true), "\x1b[1mm\x1b[0m");
    assert_eq!(emphasis("m", false), "m");
    assert_eq!(caution("x", true), "\x1b[33mx\x1b[39m");
    assert_eq!(solved_banner(true), "\x1b[1m\x1b[32mSolved!\x1b[39m\x1b[0m");
    assert_eq!(solved_banner(false), "Solved!");
    assert_eq!(verdict_label(true, true), "\x1b[32mPASS\x1b[39m");
    assert_eq!(verdict_label(false, true), "\x1b[31mFAIL\x1b[39m");
    assert_eq!(verdict_label(false, false), "FAIL");
    assert_eq!(marker_label(Marker::Solved, true), "\x1b[32m✓\x1b[39m");
    assert_eq!(marker_label(Marker::Open, true), "\x1b[33m·\x1b[39m");
    assert_eq!(marker_label(Marker::Locked, true), "🔒");
    assert_eq!(marker_label(Marker::Solved, false), "[x]");
    assert_eq!(marker_label(Marker::Open, false), "[ ]");
    assert_eq!(marker_label(Marker::Locked, false), "[L]");
}

#[test]
fn string_comparisons() {
    assert!(str_eq("abc", "abc"));
    assert!(!str_eq("abc", "abd"));
    assert!(!str_eq("ab", "abc"));
    assert!(str_le("ab", "abc"));
    assert!(!str_le("abc", "ab"));
    assert!(str_le("a-b", "a/x"));
    assert!(str_le("", ""));
}
