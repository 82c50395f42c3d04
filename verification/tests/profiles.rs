use cosmic_term::profiles::program_and_args;
use cosmic_term::action::{ColorSchemeKind, ProfileId};
use cosmic_term::idmap::IdMap;
use cosmic_term::profiles::{
    add_profile, default_profile_choice, edit_profile, launch_options, remove_profile, Profile,
    ProfileEdit,
};

fn profile(name: &str, command: &str, dir: &str, title: &str) -> Profile {
    Profile {
        name: name.to_string(),
        command: command.to_string(),
        working_directory: dir.to_string(),
        hold: false,
        syntax_theme_dark: "COSMIC Dark".to_string(),
        syntax_theme_light: "COSMIC Light".to_string(),
        tab_title: title.to_string(),
    }
}

#[test]
fn first_profile_gets_id_zero_then_next() {
    let mut m = IdMap::new();
    assert_eq!(add_profile(&mut m, profile("a", "", "", "")), ProfileId(0));
    assert_eq!(add_profile(&mut m, profile("b", "", "", "")), ProfileId(1));
    m.remove(0);
    assert_eq!(add_profile(&mut m, profile("c", "", "", "")), ProfileId(2));
    assert_eq!(m.keys(), vec![1, 2]);
}

#[test]
fn removing_a_new_profile_restores_the_list() {
    let mut m = IdMap::new();
    add_profile(&mut m, profile("a", "", "", ""));
    add_profile(&mut m, profile("b", "", "", ""));
    let before = m.keys();
    let id = add_profile(&mut m, profile("c", "", "", ""));
    let mut default = None;
    assert!(!remove_profile(&mut m, &mut default, id));
    assert_eq!(m.keys(), before);
    assert_eq!(m.get(1).map(|p| p.name.clone()), Some("b".to_string()));
}

#[test]
fn removing_the_default_clears_it() {
    let mut m = IdMap::new();
    let id = add_profile(&mut m, profile("a", "", "", ""));
    let mut default = Some(id);
    assert!(remove_profile(&mut m, &mut default, id));
    assert_eq!(default, None);
    assert!(m.is_empty());
}

#[test]
fn removing_another_keeps_the_default() {
    let mut m = IdMap::new();
    let a = add_profile(&mut m, profile("a", "", "", ""));
    let b = add_profile(&mut m, profile("b", "", "", ""));
    let mut default = Some(a);
    assert!(!remove_profile(&mut m, &mut default, b));
    assert_eq!(default, Some(a));
}

#[test]
fn edits_change_one_field() {
    let mut m = IdMap::new();
    let id = add_profile(&mut m, profile("a", "", "", ""));
    assert!(edit_profile(&mut m, id, ProfileEdit::Command("htop".to_string())));
    assert!(edit_profile(&mut m, id, ProfileEdit::Hold(true)));
    assert!(edit_profile(&mut m, id, ProfileEdit::SyntaxTheme(ColorSchemeKind::Light, "Solarized".to_string())));
    let p = m.get(id.0).unwrap();
    assert_eq!(p.command, "htop");
    assert!(p.hold);
    assert_eq!(p.syntax_theme_light, "Solarized");
    assert_eq!(p.syntax_theme_dark, "COSMIC Dark");
    assert!(!edit_profile(&mut m, ProfileId(9), ProfileEdit::Name("x".to_string())));
}

#[test]
fn default_toggle() {
    assert_eq!(default_profile_choice(true, ProfileId(4)), Some(ProfileId(4)));
    assert_eq!(default_profile_choice(false, ProfileId(4)), None);
}

#[test]
fn launch_with_command_line() {
    let o = launch_options(&profile("a", "bash -c 'echo hi'", "/tmp", "Work"));
    let (program, args) = o.shell.unwrap();
    assert_eq!(program, "bash");
    assert_eq!(args, vec!["-c", "echo hi"]);
    assert_eq!(o.working_directory, Some("/tmp".to_string()));
    assert_eq!(o.tab_title_override, Some("Work".to_string()));
    assert!(!o.hold);
}

#[test]
fn launch_with_default_shell() {
    let o = launch_options(&profile("a", "", "", ""));
    assert!(o.shell.is_none());
    assert_eq!(o.working_directory, None);
    assert_eq!(o.tab_title_override, None);
}

#[test]
fn unclosed_quote_falls_back_to_the_shell() {
    let o = launch_options(&profile("a", "echo 'oops", "", ""));
    assert!(o.shell.is_none());
}

#[test]
fn program_from_words() {
    let words = Some(vec!["ssh".to_string(), "host".to_string()]);
    assert_eq!(program_and_args(words), Some(("ssh".to_string(), vec!["host".to_string()])));
    assert_eq!(program_and_args(Some(vec![])), None);
    assert_eq!(program_and_args(None), None);
}
