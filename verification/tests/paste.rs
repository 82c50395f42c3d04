use cosmic_term::paste::joined_or_nothing;
use cosmic_term::paste::dropped_paths_text;

#[test]
fn dropped_paths_are_quoted() {
    let paths = vec![Some("/tmp/a b".to_string()), None, Some("/tmp/c".to_string())];
    assert_eq!(dropped_paths_text(&paths), Some("'/tmp/a b' /tmp/c".to_string()));
}

#[test]
fn no_paths_give_empty_text() {
    assert_eq!(dropped_paths_text(&vec![None]), Some(String::new()));
}

#[test]
fn nul_in_a_path_pastes_nothing() {
    assert_eq!(dropped_paths_text(&vec![Some("a\0b".to_string())]), None);
}

#[test]
fn join_result_to_paste_text() {
    assert_eq!(joined_or_nothing(Ok("a b".to_string())), Some("a b".to_string()));
    assert_eq!(joined_or_nothing(Err(shlex::QuoteError::Nul)), None);
}
