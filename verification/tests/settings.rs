use cosmic_term::action::{ColorSchemeId, ColorSchemeKind};
use cosmic_term::settings::{
    app_theme_at, app_theme_index, builtin_scheme_name, choice_at, color_schemes_config_key,
    commit_url, decimal_text, export_file_name, focus_target, font_change_at, font_size_choices,
    opacity_setting, position_of_text, position_of_u16, short_commit_hash, theme_name_at,
    title_after_change, title_after_reset, window_background_word, window_titles, zoom_adjusted,
    zoom_step_choices, AppTheme, ColorSchemePage, FocusTarget,
};

#[test]
fn theme_positions_round_trip() {
    for t in [AppTheme::Dark, AppTheme::Light, AppTheme::System] {
        assert_eq!(app_theme_at(app_theme_index(t)), t);
    }
    assert_eq!(app_theme_index(AppTheme::System), 0);
    assert_eq!(app_theme_at(5), AppTheme::System);
}

#[test]
fn opacity_is_at_most_100() {
    assert_eq!(opacity_setting(42), 42);
    assert_eq!(opacity_setting(100), 100);
    assert_eq!(opacity_setting(255), 100);
}

#[test]
fn positions() {
    let v = vec!["a".to_string(), "b".to_string(), "b".to_string()];
    assert_eq!(position_of_text(&v, "b"), Some(1));
    assert_eq!(position_of_text(&v, "c"), None);
    assert_eq!(position_of_u16(&vec![4, 12, 14], 14), Some(2));
    assert_eq!(position_of_u16(&vec![4, 12, 14], 13), None);
}

#[test]
fn font_sizes_are_4_to_32() {
    let (names, sizes) = font_size_choices();
    assert_eq!(sizes.len(), 29);
    assert_eq!(sizes[0], 4);
    assert_eq!(sizes[28], 32);
    assert_eq!(names[0], "4px");
    assert_eq!(names[8], "12px");
    assert_eq!(names[28], "32px");
}

#[test]
fn decimal_texts() {
    assert_eq!(decimal_text(0), "0");
    assert_eq!(decimal_text(7), "7");
    assert_eq!(decimal_text(1234567890), "1234567890");
}

#[test]
fn zoom_steps() {
    assert_eq!(zoom_step_choices(), vec![25, 50, 75, 100, 150, 200]);
}

#[test]
fn titles() {
    assert_eq!(
        window_titles(Some("vim"), "COSMIC Terminal"),
        ("vim".to_string(), "vim — COSMIC Terminal".to_string())
    );
    assert_eq!(window_titles(None, "COSMIC Terminal"), (String::new(), "COSMIC Terminal".to_string()));
    assert_eq!(title_after_reset(Some("Work"), "New Terminal"), "Work");
    assert_eq!(title_after_reset(None, "New Terminal"), "New Terminal");
    assert_eq!(title_after_change(true, "x".to_string()), None);
    assert_eq!(title_after_change(false, "x".to_string()), Some("x".to_string()));
}

#[test]
fn about_links() {
    assert_eq!(short_commit_hash("0123456789abcdef"), "0123456");
    assert_eq!(short_commit_hash("abc"), "abc");
    assert_eq!(
        commit_url("https://github.com/pop-os/cosmic-term", "abc"),
        "https://github.com/pop-os/cosmic-term/commits/abc"
    );
}

#[test]
fn color_scheme_names() {
    assert_eq!(builtin_scheme_name(ColorSchemeKind::Dark), "COSMIC Dark");
    assert_eq!(export_file_name("COSMIC Light"), "COSMIC Light.ron");
    assert_eq!(color_schemes_config_key(ColorSchemeKind::Light), "color_schemes_light");
}

#[test]
fn theme_lookup() {
    let dark = vec!["A".to_string(), "B".to_string()];
    let light = vec!["L".to_string()];
    assert_eq!(theme_name_at(&dark, &light, ColorSchemeKind::Dark, 1), Some("B".to_string()));
    assert_eq!(theme_name_at(&dark, &light, ColorSchemeKind::Light, 1), None);
}

#[test]
fn background_word() {
    assert_eq!(window_background_word(0x12, 0x34, 0x56), 0xFF12_3456);
    assert_eq!(window_background_word(0, 0, 0), 0xFF00_0000);
}

#[test]
fn zoom_saturates() {
    assert_eq!(zoom_adjusted(0, true), 1);
    assert_eq!(zoom_adjusted(0, false), -1);
    assert_eq!(zoom_adjusted(127, true), 127);
    assert_eq!(zoom_adjusted(-128, false), -128);
}

#[test]
fn focus() {
    assert_eq!(focus_target(true, true), FocusTarget::Search);
    assert_eq!(focus_target(false, true), FocusTarget::Terminal);
    assert_eq!(focus_target(false, false), FocusTarget::Nothing);
}

#[test]
fn choices() {
    assert_eq!(choice_at(&vec![25, 50], 1), Some(50));
    assert_eq!(choice_at(&vec![25, 50], 2), None);
    let names = vec!["A".to_string(), "B".to_string()];
    assert_eq!(font_change_at(&names, 1, "A"), Some("B".to_string()));
    assert_eq!(font_change_at(&names, 0, "A"), None);
    assert_eq!(font_change_at(&names, 2, "A"), None);
}

#[test]
fn color_scheme_page() {
    let mut page = ColorSchemePage::new();
    page.expand(ColorSchemeKind::Dark, Some(ColorSchemeId(3)));
    assert_eq!(page.expanded, Some((ColorSchemeKind::Dark, Some(ColorSchemeId(3)))));
    assert!(page.rename(ColorSchemeKind::Dark, ColorSchemeId(3), "N".to_string()));
    assert_eq!(page.expanded, None);
    assert!(!page.rename(ColorSchemeKind::Dark, ColorSchemeId(3), "Ne".to_string()));
    assert_eq!(page.take_rename(), Some((ColorSchemeKind::Dark, ColorSchemeId(3), "Ne".to_string())));
    assert_eq!(page.take_rename(), None);
    page.errors.push("bad".to_string());
    page.expand(ColorSchemeKind::Light, None);
    page.reset();
    assert_eq!(page.expanded, None);
    assert!(page.errors.is_empty());
}
