use cosmic_term::action::Action;
use cosmic_term::dialog::{
    binding_display, captured_key_text, captured_modifiers_text, dialog_key_text, CaptureOutcome,
    DialogKeyOutcome, KeyBindingEditor,
};
use cosmic_term::keybinds::{update_keybinds, ConfigKeyBinding, KeyBindMap};
use cosmic_term::keys::{Key, Modifiers};

fn named(n: &str) -> Key {
    Key::Named(n.to_string())
}

fn ch(c: &str) -> Key {
    Key::Character(c.to_string())
}

fn binding(action: Action, key: &str, mods: &str) -> ConfigKeyBinding {
    ConfigKeyBinding { action, key: key.to_string(), mods: mods.to_string() }
}

fn held(control: bool, alt: bool, shift: bool, logo: bool) -> Modifiers {
    Modifiers { control, alt, shift, logo }
}

#[test]
fn opening_shows_the_binding() {
    let bindings = vec![binding(Action::Copy, "c", "Ctrl||Shift")];
    let mut e = KeyBindingEditor::new();
    e.open(0, &bindings);
    assert_eq!(e.keybind_dialog_open_for_index, Some(0));
    assert_eq!(e.keybind_dialog_current_modifiers_text, vec!["Ctrl", "Shift"]);
    assert_eq!(e.keybind_dialog_current_key_text, Some("c".to_string()));
    assert_eq!(e.entered_display(), "Ctrl + Shift + c");
}

#[test]
fn opening_twice_keeps_the_first() {
    let bindings = vec![binding(Action::Copy, "c", "Ctrl"), binding(Action::Paste, "", "")];
    let mut e = KeyBindingEditor::new();
    e.open(0, &bindings);
    e.open(1, &bindings);
    assert_eq!(e.keybind_dialog_open_for_index, Some(0));
}

#[test]
fn empty_dialog_prompts() {
    let bindings = vec![binding(Action::Copy, "", "")];
    let mut e = KeyBindingEditor::new();
    e.open(0, &bindings);
    assert_eq!(e.keybind_dialog_current_key_text, None);
    assert_eq!(e.entered_display(), "<Press key combination>");
}

#[test]
fn entering_a_combination_and_saving() {
    let mut bindings = vec![binding(Action::Copy, "c", "Ctrl|Shift")];
    let mut e = KeyBindingEditor::new();
    e.open(0, &bindings);
    e.clear_keys();
    e.modifiers_changed(held(true, true, false, false));
    assert_eq!(e.keybind_dialog_current_modifiers_text, vec!["Alt", "Ctrl"]);
    assert_eq!(e.key_pressed(&ch("k"), &mut bindings), DialogKeyOutcome::Entered);
    assert!(e.keybind_dialog_current_modifiers_lock);
    assert_eq!(e.keybind_dialog_current_key_text, Some("K".to_string()));
    // Modifiers are locked once a key is entered.
    e.modifiers_changed(held(false, false, false, false));
    assert_eq!(e.keybind_dialog_current_modifiers_text, vec!["Alt", "Ctrl"]);
    assert_eq!(e.key_pressed(&named("Enter"), &mut bindings), DialogKeyOutcome::Saved);
    assert_eq!(bindings[0], binding(Action::Copy, "K", "Alt|Ctrl"));
    assert_eq!(e.keybind_dialog_open_for_index, None);
    assert!(e.keybind_dialog_current_modifiers_text.is_empty());
    assert!(!e.keybind_dialog_current_modifiers_lock);
}

#[test]
fn a_key_without_modifiers_is_not_entered() {
    let mut bindings = vec![binding(Action::Copy, "", "")];
    let mut e = KeyBindingEditor::new();
    e.open(0, &bindings);
    assert_eq!(e.key_pressed(&ch("x"), &mut bindings), DialogKeyOutcome::Entered);
    assert_eq!(e.keybind_dialog_current_key_text, None);
    assert!(!e.keybind_dialog_current_modifiers_lock);
}

#[test]
fn modifier_keys_are_not_entered_as_the_key() {
    let mut bindings = vec![binding(Action::Copy, "", "")];
    let mut e = KeyBindingEditor::new();
    e.open(0, &bindings);
    e.modifiers_changed(held(false, false, true, false));
    e.key_pressed(&named("Shift"), &mut bindings);
    assert_eq!(e.keybind_dialog_current_key_text, None);
}

#[test]
fn control_characters_enter_no_key() {
    let mut bindings = vec![binding(Action::Copy, "", "")];
    let mut e = KeyBindingEditor::new();
    e.open(0, &bindings);
    e.modifiers_changed(held(true, false, false, false));
    e.key_pressed(&ch("\u{3}"), &mut bindings);
    assert_eq!(e.keybind_dialog_current_key_text, None);
    assert!(e.keybind_dialog_current_modifiers_lock);
}

#[test]
fn saving_needs_a_key_and_a_modifier() {
    let mut bindings = vec![binding(Action::Copy, "c", "")];
    let mut e = KeyBindingEditor::new();
    e.open(0, &bindings);
    assert_eq!(e.key_pressed(&named("Enter"), &mut bindings), DialogKeyOutcome::SaveRefused);
    assert_eq!(e.keybind_dialog_open_for_index, Some(0));
    assert!(!e.close_and_save(&mut bindings));
    assert_eq!(bindings[0], binding(Action::Copy, "c", ""));
}

#[test]
fn escape_cancels() {
    let mut bindings = vec![binding(Action::Copy, "c", "Ctrl")];
    let mut e = KeyBindingEditor::new();
    e.open(0, &bindings);
    assert_eq!(e.key_pressed(&named("Escape"), &mut bindings), DialogKeyOutcome::Cancelled);
    assert_eq!(e.keybind_dialog_open_for_index, None);
    assert_eq!(e.keybind_dialog_current_key_text, None);
    assert_eq!(bindings[0], binding(Action::Copy, "c", "Ctrl"));
}

#[test]
fn keys_pass_through_when_closed() {
    let mut bindings = vec![binding(Action::Copy, "c", "Ctrl")];
    let mut e = KeyBindingEditor::new();
    assert_eq!(e.key_pressed(&ch("a"), &mut bindings), DialogKeyOutcome::NotOpen);
}

#[test]
fn default_combination_is_sorted() {
    let bindings = vec![binding(Action::Copy, "x", "Shift")];
    let mut e = KeyBindingEditor::new();
    e.open(0, &bindings);
    e.set_to_default(&binding(Action::Copy, "c", "Shift|Ctrl|"));
    assert_eq!(e.keybind_dialog_current_modifiers_text, vec!["Ctrl", "Shift"]);
    assert_eq!(e.keybind_dialog_current_key_text, Some("c".to_string()));
}

#[test]
fn default_and_clear_do_nothing_when_closed() {
    let mut e = KeyBindingEditor::new();
    e.set_to_default(&binding(Action::Copy, "c", "Ctrl"));
    e.clear_keys();
    assert_eq!(e.keybind_dialog_current_key_text, None);
    assert!(e.keybind_dialog_current_modifiers_text.is_empty());
}

#[test]
fn reopening_and_saving_keeps_the_binding() {
    let original = binding(Action::TabNew, "t", "Ctrl|Shift");
    let mut bindings = vec![original.clone()];
    let mut e = KeyBindingEditor::new();
    e.open(0, &bindings);
    assert!(e.close_and_save(&mut bindings));
    assert_eq!(bindings[0], original);
}

#[test]
fn reopening_and_saving_drops_empty_modifier_parts() {
    let mut bindings = vec![binding(Action::TabNew, "t", "Ctrl||Shift")];
    let mut e = KeyBindingEditor::new();
    e.open(0, &bindings);
    assert!(e.close_and_save(&mut bindings));
    assert_eq!(bindings[0], binding(Action::TabNew, "t", "Ctrl|Shift"));
}

#[test]
fn recording_start_and_cancel() {
    let mut e = KeyBindingEditor::new();
    e.start_recording(2);
    assert_eq!(e.currently_recording_binding_index, Some(2));
    e.cancel_recording(5);
    assert_eq!(e.currently_recording_binding_index, None);
}

#[test]
fn captured_combination_is_stored() {
    let mut bindings = vec![binding(Action::Copy, "c", "Ctrl")];
    let mut e = KeyBindingEditor::new();
    e.start_recording(0);
    let r = e.store_captured(&mut bindings, 0, &ch("Q"), held(true, false, true, false));
    assert_eq!(r, CaptureOutcome::Updated);
    assert_eq!(bindings[0], binding(Action::Copy, "q", "Control|Shift"));
    assert_eq!(e.currently_recording_binding_index, None);
}

#[test]
fn captured_unknown_key_marks_the_binding() {
    let mut bindings = vec![binding(Action::Copy, "c", "Ctrl")];
    let mut e = KeyBindingEditor::new();
    let r = e.store_captured(&mut bindings, 0, &Key::Unidentified, held(true, false, false, false));
    assert_eq!(r, CaptureOutcome::UnknownKey);
    assert_eq!(bindings[0], binding(Action::Copy, "unknown_captured_key", ""));
}

#[test]
fn captured_for_missing_binding_stores_nothing() {
    let mut bindings = vec![binding(Action::Copy, "c", "Ctrl")];
    let mut e = KeyBindingEditor::new();
    let r = e.store_captured(&mut bindings, 4, &named("Tab"), held(false, true, false, false));
    assert_eq!(r, CaptureOutcome::NoSuchBinding);
    assert_eq!(bindings[0], binding(Action::Copy, "c", "Ctrl"));
}

#[test]
fn recorded_combination_triggers_its_action() {
    let mut bindings = vec![binding(Action::Find, "", "")];
    let mut e = KeyBindingEditor::new();
    let pressed = held(false, true, true, true);
    e.store_captured(&mut bindings, 0, &ch("F"), pressed);
    let map = update_keybinds(&KeyBindMap::new(), &bindings);
    assert_eq!(map.find_match(pressed, &ch("F")), Some(Action::Find));
    e.store_captured(&mut bindings, 0, &named("PageDown"), pressed);
    let map = update_keybinds(&KeyBindMap::new(), &bindings);
    assert_eq!(map.find_match(pressed, &named("PageDown")), Some(Action::Find));
}

#[test]
fn entered_combination_triggers_its_action() {
    let mut bindings = vec![binding(Action::Find, "", "")];
    let mut e = KeyBindingEditor::new();
    let pressed = held(true, false, true, false);
    e.open(0, &bindings);
    e.modifiers_changed(pressed);
    assert_eq!(e.key_pressed(&ch("g"), &mut bindings), DialogKeyOutcome::Entered);
    assert_eq!(e.key_pressed(&named("Enter"), &mut bindings), DialogKeyOutcome::Saved);
    assert_eq!(bindings[0], binding(Action::Find, "G", "Ctrl|Shift"));
    let map = update_keybinds(&KeyBindMap::new(), &bindings);
    assert_eq!(map.find_match(pressed, &ch("g")), Some(Action::Find));
    assert_eq!(map.find_match(held(true, false, false, false), &ch("g")), None);
}

#[test]
fn recorded_control_is_read_back() {
    let mut bindings = vec![binding(Action::Find, "", "")];
    let mut e = KeyBindingEditor::new();
    let pressed = held(true, false, false, false);
    e.store_captured(&mut bindings, 0, &ch("a"), pressed);
    assert_eq!(bindings[0], binding(Action::Find, "a", "Control"));
    let map = update_keybinds(&KeyBindMap::new(), &bindings);
    assert_eq!(map.find_match(pressed, &ch("a")), Some(Action::Find));
    assert_eq!(map.find_match(held(false, false, false, false), &ch("a")), None);
}

#[test]
fn only_modifiers_entered_ask_for_a_key() {
    let bindings = vec![binding(Action::Copy, "", "")];
    let mut e = KeyBindingEditor::new();
    e.open(0, &bindings);
    e.modifiers_changed(held(true, false, true, false));
    assert_eq!(e.entered_display(), "Ctrl + Shift + <Key>");
}

#[test]
fn enter_saves_exactly_when_a_key_and_a_modifier_are_entered() {
    let mut bindings = vec![binding(Action::Copy, "c", "Ctrl")];
    let mut e = KeyBindingEditor::new();
    e.open(0, &bindings);
    assert_eq!(e.key_pressed(&named("Enter"), &mut bindings), DialogKeyOutcome::Saved);
    assert_eq!(bindings[0], binding(Action::Copy, "c", "Ctrl"));
    e.open(0, &bindings);
    e.clear_keys();
    assert_eq!(e.key_pressed(&named("Enter"), &mut bindings), DialogKeyOutcome::SaveRefused);
    assert_eq!(e.keybind_dialog_open_for_index, Some(0));
}

#[test]
fn captured_texts() {
    assert_eq!(captured_key_text(&ch("Ä")), Some("ä".to_string()));
    assert_eq!(captured_key_text(&named("ArrowUp")), Some("ArrowUp".to_string()));
    assert_eq!(captured_key_text(&Key::Unidentified), None);
    assert_eq!(captured_modifiers_text(held(true, true, true, true)), "Control|Alt|Shift|Super");
    assert_eq!(captured_modifiers_text(held(false, false, false, false)), "");
}

#[test]
fn dialog_key_texts() {
    assert_eq!(dialog_key_text(&ch("ß")), Some("SS".to_string()));
    assert_eq!(dialog_key_text(&ch("")), None);
    assert_eq!(dialog_key_text(&named("Space")), Some("Space".to_string()));
    assert_eq!(dialog_key_text(&Key::Unidentified), None);
}

#[test]
fn binding_rows() {
    assert_eq!(binding_display(&binding(Action::Copy, "c", "Ctrl|Shift")), "Ctrl + Shift + c");
    assert_eq!(binding_display(&binding(Action::Copy, "c", "")), "c");
    assert_eq!(binding_display(&binding(Action::Copy, "", "Ctrl||Alt")), "Ctrl + Alt");
    assert_eq!(binding_display(&binding(Action::Copy, "c", "||")), "c");
    assert_eq!(binding_display(&binding(Action::Copy, "", "")), "");
}
