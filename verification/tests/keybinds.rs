use cosmic_term::action::Action;
use cosmic_term::keybinds::{update_keybinds, ConfigKeyBinding, KeyBindMap};
use cosmic_term::keys::{Key, KeyBind, Modifier, Modifiers};

fn ch(c: &str) -> Key {
    Key::Character(c.to_string())
}

fn binding(action: Action, key: &str, mods: &str) -> ConfigKeyBinding {
    ConfigKeyBinding { action, key: key.to_string(), mods: mods.to_string() }
}

fn defaults() -> KeyBindMap {
    let mut m = KeyBindMap::new();
    m.insert(KeyBind { modifiers: vec![Modifier::Ctrl, Modifier::Shift], key: ch("c") }, Action::Copy);
    m.insert(KeyBind { modifiers: vec![Modifier::Ctrl, Modifier::Shift], key: ch("v") }, Action::Paste);
    m
}

#[test]
fn insert_replaces_and_returns_previous() {
    let mut m = defaults();
    let kb = KeyBind { modifiers: vec![Modifier::Ctrl, Modifier::Shift], key: ch("c") };
    assert_eq!(m.insert(kb.clone(), Action::SelectAll), Some(Action::Copy));
    assert_eq!(m.get(&kb), Some(Action::SelectAll));
    assert_eq!(m.len(), 2);
}

#[test]
fn modifier_order_makes_a_different_shortcut() {
    let m = defaults();
    let kb = KeyBind { modifiers: vec![Modifier::Shift, Modifier::Ctrl], key: ch("c") };
    assert_eq!(m.get(&kb), None);
}

#[test]
fn configured_binding_overrides_default() {
    let m = update_keybinds(&defaults(), &vec![binding(Action::TabNew, "c", "Ctrl|Shift")]);
    let kb = KeyBind { modifiers: vec![Modifier::Ctrl, Modifier::Shift], key: ch("c") };
    assert_eq!(m.get(&kb), Some(Action::TabNew));
    assert_eq!(m.len(), 2);
}

#[test]
fn later_binding_wins() {
    let m = update_keybinds(
        &KeyBindMap::new(),
        &vec![binding(Action::ZoomIn, "=", "ctrl"), binding(Action::ZoomOut, "=", "Ctrl")],
    );
    let kb = KeyBind { modifiers: vec![Modifier::Ctrl], key: ch("=") };
    assert_eq!(m.get(&kb), Some(Action::ZoomOut));
    assert_eq!(m.len(), 1);
}

#[test]
fn unknown_key_is_skipped() {
    let m = update_keybinds(&defaults(), &vec![binding(Action::Find, "F5", "Ctrl")]);
    assert_eq!(m.len(), 2);
}

#[test]
fn empty_key_binds_the_unidentified_key() {
    let m = update_keybinds(&KeyBindMap::new(), &vec![binding(Action::Find, "", "Ctrl")]);
    let kb = KeyBind { modifiers: vec![Modifier::Ctrl], key: Key::Unidentified };
    assert_eq!(m.get(&kb), Some(Action::Find));
}

#[test]
fn defaults_are_kept() {
    let m = update_keybinds(&defaults(), &vec![binding(Action::Find, "f", "Ctrl|Shift")]);
    let kb = KeyBind { modifiers: vec![Modifier::Ctrl, Modifier::Shift], key: ch("v") };
    assert_eq!(m.get(&kb), Some(Action::Paste));
    assert_eq!(m.len(), 3);
}

#[test]
fn key_press_finds_its_action() {
    let m = defaults();
    let held = Modifiers { control: true, alt: false, shift: true, logo: false };
    assert_eq!(m.find_match(held, &ch("V")), Some(Action::Paste));
    let only_ctrl = Modifiers { control: true, alt: false, shift: false, logo: false };
    assert_eq!(m.find_match(only_ctrl, &ch("v")), None);
}

#[test]
fn copy_keeps_every_shortcut() {
    let m = defaults();
    let c = m.copy();
    assert_eq!(c.len(), 2);
    assert_eq!(c.entries().len(), 2);
}
