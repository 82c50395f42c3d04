use cosmic_term::tabs::{tab_close_neighbor, tab_jump_position, tab_next_position, tab_prev_position};

#[test]
fn jump_selects_that_tab() {
    assert_eq!(tab_jump_position(0, 5), 0);
    assert_eq!(tab_jump_position(3, 5), 3);
}

#[test]
fn jump_past_the_end_selects_the_last_tab() {
    assert_eq!(tab_jump_position(6, 3), 2);
    assert_eq!(tab_jump_position(3, 3), 2);
}

#[test]
fn ninth_shortcut_selects_the_last_tab() {
    assert_eq!(tab_jump_position(8, 20), 19);
    assert_eq!(tab_jump_position(8, 1), 0);
}

#[test]
fn next_wraps_around() {
    assert_eq!(tab_next_position(0, 3), 1);
    assert_eq!(tab_next_position(2, 3), 0);
    assert_eq!(tab_next_position(0, 1), 0);
}

#[test]
fn prev_wraps_around() {
    assert_eq!(tab_prev_position(Some(2), 3), 1);
    assert_eq!(tab_prev_position(Some(0), 3), 2);
    assert_eq!(tab_prev_position(None, 3), 2);
    assert_eq!(tab_prev_position(None, 0), 0);
}

#[test]
fn next_then_prev_returns() {
    for len in 1..6usize {
        for i in 0..len {
            assert_eq!(tab_prev_position(Some(tab_next_position(i, len)), len), i);
        }
    }
}

#[test]
fn closing_activates_the_neighbor() {
    assert_eq!(tab_close_neighbor(3), 2);
    assert_eq!(tab_close_neighbor(0), 1);
}
