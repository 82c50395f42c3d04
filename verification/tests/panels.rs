use cosmic_term::action::{ColorSchemeKind, ContextPage};
use cosmic_term::keys::Modifiers;
use cosmic_term::panels::{search_forward_on_submit, Panels};

#[test]
fn toggling_the_same_page_twice_restores() {
    let mut p = Panels::new();
    assert_eq!(p.toggle_context_page(ContextPage::Settings), None);
    assert!(p.show_context);
    p.toggle_context_page(ContextPage::Settings);
    assert!(!p.show_context);
    assert_eq!(p.context_page, ContextPage::Settings);
}

#[test]
fn another_page_is_shown() {
    let mut p = Panels::new();
    p.toggle_context_page(ContextPage::About);
    assert_eq!(p.context_page, ContextPage::About);
    assert!(p.show_context);
    let kind = p.toggle_context_page(ContextPage::ColorSchemes(ColorSchemeKind::Dark));
    assert_eq!(kind, Some(ColorSchemeKind::Dark));
    assert!(p.show_context);
}

#[test]
fn color_scheme_tabs() {
    let mut p = Panels::new();
    p.toggle_context_page(ContextPage::ColorSchemes(ColorSchemeKind::Dark));
    assert_eq!(p.color_scheme_tab_activated(ColorSchemeKind::Dark), None);
    assert_eq!(
        p.color_scheme_tab_activated(ColorSchemeKind::Light),
        Some(ContextPage::ColorSchemes(ColorSchemeKind::Light))
    );
    assert_eq!(p.context_page, ContextPage::ColorSchemes(ColorSchemeKind::Light));
}

#[test]
fn find_takes_the_selection() {
    let mut p = Panels::new();
    p.set_find(true, Some("needle".to_string()));
    assert!(p.find);
    assert_eq!(p.find_search_value, "needle");
    assert!(p.has_search());
    p.set_find(true, None);
    assert_eq!(p.find_search_value, "needle");
    p.set_find(false, Some("x".to_string()));
    assert!(!p.find);
    assert!(!p.has_search());
}

#[test]
fn escape_closes_drawer_then_search() {
    let mut p = Panels::new();
    p.set_find(true, Some("x".to_string()));
    p.toggle_context_page(ContextPage::About);
    p.escape();
    assert!(!p.show_context);
    assert!(p.find);
    p.escape();
    assert!(!p.find);
    assert_eq!(p.find_search_value, "");
}

#[test]
fn shift_searches_forward() {
    assert!(search_forward_on_submit(Modifiers { control: false, alt: false, shift: true, logo: false }));
    assert!(!search_forward_on_submit(Modifiers { control: false, alt: false, shift: false, logo: false }));
}
