use riff::text::{contains, is_white_space, join, same, strip_prefix, trim};

#[test]
fn white_space_is_that_of_unicode() {
    for code in 0..=0x10ffff_u32 {
        if let Some(c) = char::from_u32(code) {
            assert_eq!(is_white_space(c), c.is_whitespace(), "U+{:04X}", code);
        }
    }
}

#[test]
fn trim_takes_white_space_off_both_ends() {
    assert_eq!(trim("  hola \n"), "hola");
    assert_eq!(trim("\u{3000}¿qué tal?\u{a0}"), "¿qué tal?");
    assert_eq!(trim("a b"), "a b");
    assert_eq!(trim(" \t\r\n"), "");
    assert_eq!(trim(""), "");
}

#[test]
fn trim_twice_is_trim_once() {
    for s in ["", " ", "x", "  a  b  ", "«»", "\u{2028}x\u{2029}"] {
        assert_eq!(trim(trim(s)), trim(s));
        assert_eq!(trim(s), s.trim());
    }
}

#[test]
fn contains_finds_parts() {
    assert!(contains("gracias por ver el vídeo", "el vídeo"));
    assert!(contains("abc", "abc"));
    assert!(contains("abc", ""));
    assert!(contains("", ""));
    assert!(contains("aab", "ab"));
    assert!(!contains("abc", "ac"));
    assert!(!contains("abc", "abcd"));
    assert!(!contains("", "a"));
}

#[test]
fn same_compares_texts() {
    assert!(same("Alt+R", "Alt+R"));
    assert!(!same("Alt+R", "Alt+J"));
    assert!(same("", ""));
}

#[test]
fn strip_prefix_hands_back_the_rest() {
    assert_eq!(strip_prefix("shortcut:Alt+R", "shortcut:"), Some("Alt+R"));
    assert_eq!(strip_prefix("shortcut:", "shortcut:"), Some(""));
    assert_eq!(strip_prefix("shortcut", "shortcut:"), None);
    assert_eq!(strip_prefix("ñandú", "ñan"), Some("dú"));
    assert_eq!(strip_prefix("polish", "shortcut:"), None);
}

#[test]
fn join_puts_a_space_between_neighbours() {
    let none: Vec<String> = Vec::new();
    assert_eq!(join(&none), "");
    assert_eq!(join(&["Hola.".to_string()]), "Hola.");
    assert_eq!(join(&["Hola.".to_string(), "¿Qué tal?".to_string(), "".to_string()]), "Hola. ¿Qué tal? ");
}
