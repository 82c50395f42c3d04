use cosmic_term::action::{
    Action, Axis, ColorSchemeKind, ContextPage, Direction, Message, ProfileId, TabEntity,
};

#[test]
fn about_toggles_about_page() {
    assert_eq!(Action::About.message(None), Message::ToggleContextPage(ContextPage::About));
}

#[test]
fn color_schemes_toggle_their_page() {
    assert_eq!(
        Action::ColorSchemes(ColorSchemeKind::Light).message(None),
        Message::ToggleContextPage(ContextPage::ColorSchemes(ColorSchemeKind::Light))
    );
}

#[test]
fn pane_actions_map_to_directions_and_axes() {
    assert_eq!(Action::PaneFocusDown.message(None), Message::PaneFocusAdjacent(Direction::Down));
    assert_eq!(Action::PaneFocusLeft.message(None), Message::PaneFocusAdjacent(Direction::Left));
    assert_eq!(Action::PaneSplitHorizontal.message(None), Message::PaneSplit(Axis::Horizontal));
    assert_eq!(Action::PaneSplitVertical.message(None), Message::PaneSplit(Axis::Vertical));
}

#[test]
fn tab_activate_shortcuts_jump_to_positions() {
    assert_eq!(Action::TabActivate0.message(None), Message::TabActivateJump(0));
    assert_eq!(Action::TabActivate4.message(None), Message::TabActivateJump(4));
    assert_eq!(Action::TabActivate8.message(None), Message::TabActivateJump(8));
}

#[test]
fn find_opens_the_search_bar() {
    assert_eq!(Action::Find.message(None), Message::Find(true));
}

#[test]
fn payloads_are_passed_on() {
    assert_eq!(Action::ProfileOpen(ProfileId(3)).message(None), Message::ProfileOpen(ProfileId(3)));
    assert_eq!(Action::ShowHeaderBar(false).message(None), Message::ShowHeaderBar(false));
}

#[test]
fn tab_actions_carry_the_tab() {
    let tab = TabEntity(7);
    assert_eq!(Action::Copy.message(Some(tab)), Message::Copy(Some(tab)));
    assert_eq!(Action::TabClose.message(Some(tab)), Message::TabClose(Some(tab)));
    assert_eq!(Action::Paste.message(None), Message::Paste(None));
}

#[test]
fn other_actions_ignore_the_tab() {
    let tab = TabEntity(7);
    assert_eq!(Action::TabNew.message(Some(tab)), Message::TabNew);
    assert_eq!(Action::ZoomReset.message(Some(tab)), Action::ZoomReset.message(None));
}

#[test]
fn menu_message_acts_on_no_particular_tab() {
    assert_eq!(Action::SelectAll.menu_message(), Message::SelectAll(None));
}

#[test]
fn display_name_localizes_fluent_id() {
    let name = Action::ZoomIn.display_name(|id: &str| format!("<{}>", id));
    assert_eq!(name, "<action-name-zoom-in>");
}

#[test]
fn fluent_ids_ignore_payloads() {
    assert_eq!(Action::ProfileOpen(ProfileId(1)).fluent_id(), "action-name-profile-open");
    assert_eq!(Action::ShowHeaderBar(true).fluent_id(), "action-name-show-headerbar");
    assert_eq!(Action::TabNewNoProfile.fluent_id(), "action-name-tab-new-no-profile");
}

#[test]
fn display_names_follow_the_kind_of_action() {
    let localize = |id: &str| format!("<{}>", id);
    assert_eq!(
        Action::ProfileOpen(ProfileId(1)).display_name(localize),
        Action::ProfileOpen(ProfileId(7)).display_name(localize)
    );
    assert_ne!(Action::TabActivate1.display_name(localize), Action::TabActivate2.display_name(localize));
    assert_ne!(Action::Paste.display_name(localize), Action::PastePrimary.display_name(localize));
}
