use cosmic_term::keys::{modifier_from_lowercase, named_key_from_lowercase};
use cosmic_term::keys::{
    is_just_modifier_key, modifiers_to_strings, named_key_to_string, parse_key_string,
    parse_modifier_string, Key, KeyBind, Modifier, Modifiers,
};

fn named(n: &str) -> Key {
    Key::Named(n.to_string())
}

fn mods(control: bool, alt: bool, shift: bool, logo: bool) -> Modifiers {
    Modifiers { control, alt, shift, logo }
}

#[test]
fn single_character_keys() {
    assert_eq!(parse_key_string("a"), Key::Character("a".to_string()));
    assert_eq!(parse_key_string(","), Key::Character(",".to_string()));
    assert_eq!(parse_key_string("T"), Key::Character("T".to_string()));
}

#[test]
fn named_keys_ignore_case() {
    assert_eq!(parse_key_string("Enter"), named("Enter"));
    assert_eq!(parse_key_string("ENTER"), named("Enter"));
    assert_eq!(parse_key_string("pageup"), named("PageUp"));
    assert_eq!(parse_key_string("ArrowDown"), named("ArrowDown"));
    assert_eq!(parse_key_string("ctrl"), named("Control"));
    assert_eq!(parse_key_string("F2"), named("F2"));
}

#[test]
fn unknown_keys_are_unidentified() {
    assert_eq!(parse_key_string("F3"), Key::Unidentified);
    assert_eq!(parse_key_string("space"), Key::Unidentified);
    assert_eq!(parse_key_string(""), Key::Unidentified);
}

#[test]
fn one_non_ascii_character_is_a_character_key() {
    assert_eq!(parse_key_string("é"), Key::Character("é".to_string()));
    assert_eq!(parse_key_string("éé"), Key::Unidentified);
}

#[test]
fn unicode_lowercase_applies_to_names() {
    // KELVIN SIGN lowercases to an ASCII 'k'.
    assert_eq!(parse_key_string("BAC\u{212A}SPACE"), named("Backspace"));
}

#[test]
fn modifier_lists() {
    assert_eq!(parse_modifier_string("Ctrl|Shift"), vec![Modifier::Ctrl, Modifier::Shift]);
    assert_eq!(parse_modifier_string("Control|Shift"), vec![Modifier::Ctrl, Modifier::Shift]);
    assert_eq!(parse_modifier_string("CONTROL"), vec![Modifier::Ctrl]);
    assert_eq!(
        parse_modifier_string(" ctrl | ALT|logo|super"),
        vec![Modifier::Ctrl, Modifier::Alt, Modifier::Super, Modifier::Super]
    );
}

#[test]
fn unknown_and_empty_modifiers_are_ignored() {
    assert_eq!(parse_modifier_string(""), Vec::<Modifier>::new());
    assert_eq!(parse_modifier_string("Meta||"), Vec::<Modifier>::new());
    assert_eq!(parse_modifier_string("|shift|"), vec![Modifier::Shift]);
}

#[test]
fn character_keys_match_without_case() {
    let kb = KeyBind { modifiers: vec![Modifier::Ctrl, Modifier::Shift], key: Key::Character("c".to_string()) };
    assert!(kb.matches(mods(true, false, true, false), &Key::Character("C".to_string())));
    assert!(kb.matches(mods(true, false, true, false), &Key::Character("c".to_string())));
}

#[test]
fn modifiers_must_match_exactly() {
    let kb = KeyBind { modifiers: vec![Modifier::Ctrl, Modifier::Shift], key: Key::Character("c".to_string()) };
    assert!(!kb.matches(mods(true, false, false, false), &Key::Character("c".to_string())));
    assert!(!kb.matches(mods(true, true, true, false), &Key::Character("c".to_string())));
    assert!(!kb.matches(mods(true, false, true, false), &Key::Character("d".to_string())));
}

#[test]
fn named_keys_match_by_name() {
    let kb = KeyBind { modifiers: vec![Modifier::Alt], key: named("Enter") };
    assert!(kb.matches(mods(false, true, false, false), &named("Enter")));
    assert!(!kb.matches(mods(false, true, false, false), &named("Tab")));
    assert!(!kb.matches(mods(false, true, false, false), &Key::Character("\r".to_string())));
}

#[test]
fn modifier_labels_are_sorted() {
    assert_eq!(modifiers_to_strings(mods(true, true, true, true)), vec!["Alt", "Ctrl", "Shift", "Super"]);
    assert_eq!(modifiers_to_strings(mods(true, false, true, false)), vec!["Ctrl", "Shift"]);
    assert_eq!(modifiers_to_strings(mods(false, false, false, false)), Vec::<String>::new());
}

#[test]
fn modifier_keys() {
    assert!(is_just_modifier_key(&named("Shift")));
    assert!(is_just_modifier_key(&named("Control")));
    assert!(!is_just_modifier_key(&named("Enter")));
    assert!(!is_just_modifier_key(&Key::Character("a".to_string())));
}

#[test]
fn named_key_text_is_its_name() {
    assert_eq!(named_key_to_string(&"Space".to_string()), Some("Space".to_string()));
    assert_eq!(named_key_to_string(&"ArrowUp".to_string()), Some("ArrowUp".to_string()));
}

#[test]
fn lowercase_names() {
    assert_eq!(named_key_from_lowercase("arrowleft"), named("ArrowLeft"));
    assert_eq!(named_key_from_lowercase("Enter"), Key::Unidentified);
    assert_eq!(modifier_from_lowercase("logo"), Some(Modifier::Super));
    assert_eq!(modifier_from_lowercase("control"), Some(Modifier::Ctrl));
    assert_eq!(modifier_from_lowercase("Control"), None);
}
