use keyflow::error::KeyflowError;
use keyflow::hotkey::keys::{key_from_name, modifiers, parse_hotkey, parse_modifier, Key};

fn refusal(s: &str) -> (String, String) {
    match parse_hotkey(s) {
        Err(KeyflowError::HotkeyRegistration { hotkey: input, reason }) => (input, reason),
        other => panic!("expected a parse error, got {:?}", other),
    }
}

#[test]
fn refusal_reasons_are_exact() {
    assert_eq!(refusal("   ").1, "empty hotkey string");
    assert_eq!(refusal(" Ctrl+Shift ").1, "no key specified (only modifiers)");
    assert_eq!(refusal("A+B").1, "multiple key names (only one non-modifier key allowed)");
    assert_eq!(refusal("Ctrl+UnknownKey").1, "unknown key name: 'UnknownKey'");
}

#[test]
fn refusal_reports_trimmed_input() {
    assert_eq!(refusal("  Ctrl+Nope  ").0, "Ctrl+Nope");
    assert_eq!(refusal("  Ctrl+Nope  ").1, "unknown key name: 'Nope'");
}

#[test]
fn surrounding_and_inner_space_is_ignored() {
    let a = parse_hotkey("  Ctrl + Shift + F7  ").unwrap();
    let b = parse_hotkey("Ctrl+Shift+F7").unwrap();
    assert_eq!(a, b);
}

#[test]
fn case_does_not_matter() {
    let a = parse_hotkey("CTRL+alt+pageup").unwrap();
    let b = parse_hotkey("ctrl+ALT+PageUp").unwrap();
    assert_eq!(a, b);
    assert_eq!(a.key, Key::PageUp);
    assert_eq!(a.modifiers, modifiers::CONTROL | modifiers::ALT);
}

#[test]
fn parsed_modifiers_stay_within_the_flags() {
    let c = parse_hotkey("Ctrl+Shift+Alt+Super+Win+Meta+Control+X").unwrap();
    assert_eq!(c.modifiers, modifiers::ALL_FLAGS);
    assert_eq!(c.modifiers & !modifiers::ALL_FLAGS, 0);
    assert_eq!(c.key, Key::X);
}

#[test]
fn function_keys_end_at_f24() {
    assert_eq!(key_from_name("F25"), None);
    assert_eq!(key_from_name("F0"), None);
    assert_eq!(key_from_name("F"), Some(Key::F));
    assert_eq!(key_from_name("f10"), Some(Key::F10));
}

#[test]
fn key_aliases() {
    assert_eq!(key_from_name("Escape"), Some(Key::Escape));
    assert_eq!(key_from_name("Return"), Some(Key::Enter));
    assert_eq!(key_from_name("Del"), Some(Key::Delete));
    assert_eq!(key_from_name("Ins"), Some(Key::Insert));
    assert_eq!(key_from_name("PgUp"), Some(Key::PageUp));
    assert_eq!(key_from_name("PgDn"), Some(Key::PageDown));
    assert_eq!(key_from_name("`"), Some(Key::Grave));
    assert_eq!(key_from_name("/"), Some(Key::Slash));
}

#[test]
fn modifier_names_are_not_keys() {
    assert_eq!(parse_modifier("CONTROL"), Some(modifiers::CONTROL));
    assert_eq!(parse_modifier("F7"), None);
    assert_eq!(key_from_name("Ctrl"), None);
}

#[test]
fn order_and_repeated_modifiers_do_not_matter() {
    let a = parse_hotkey("F7+Shift+Ctrl").unwrap();
    let b = parse_hotkey(" Ctrl + Ctrl+Shift+F7 ").unwrap();
    assert_eq!(a, b);
    assert_eq!(a.key, Key::F7);
    assert_eq!(a.modifiers, modifiers::CONTROL | modifiers::SHIFT);
    // A repeated key is refused.
    assert!(parse_hotkey("F7+Ctrl+F7").is_err());
}

#[test]
fn every_listed_key_name_is_recognised() {
    for n in 1..=24 {
        assert!(key_from_name(&format!("F{n}")).is_some());
        assert!(key_from_name(&format!("f{n}")).is_some());
    }
    for c in ('A'..='Z').chain('0'..='9') {
        assert!(key_from_name(&c.to_string()).is_some());
    }
    for w in [
        "Space", "Tab", "Esc", "Enter", "Backspace", "Delete", "Insert", "Home", "End", "PageUp",
        "PageDown", "Up", "Down", "Left", "Right",
    ] {
        assert!(key_from_name(w).is_some());
    }
}
