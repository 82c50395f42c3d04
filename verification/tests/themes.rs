use cosmic_term::action::ColorSchemeKind;
use cosmic_term::themes::merge_theme_names;

fn t(name: &str, kind: ColorSchemeKind) -> (String, ColorSchemeKind) {
    (name.to_string(), kind)
}

#[test]
fn names_by_kind_without_repeats() {
    let builtin = vec![
        t("COSMIC Dark", ColorSchemeKind::Dark),
        t("COSMIC Light", ColorSchemeKind::Light),
        t("Solarized", ColorSchemeKind::Dark),
        t("Solarized", ColorSchemeKind::Light),
    ];
    let custom = vec![t("Mine", ColorSchemeKind::Dark), t("Solarized", ColorSchemeKind::Dark), t("Mine", ColorSchemeKind::Dark)];
    let r = merge_theme_names(&builtin, &custom);
    let mut dark = r.dark.clone();
    dark.sort();
    assert_eq!(dark, vec!["COSMIC Dark", "Mine", "Solarized"]);
    let mut light = r.light.clone();
    light.sort();
    assert_eq!(light, vec!["COSMIC Light", "Solarized"]);
    assert_eq!(r.replaced, vec![t("Solarized", ColorSchemeKind::Dark), t("Mine", ColorSchemeKind::Dark)]);
}
