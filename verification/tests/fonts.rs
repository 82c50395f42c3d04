use cosmic_term::fonts::{stretch_name, weight_name, FontFace, FontMap};

fn face(family: &str, weight: u16, stretch: u16) -> FontFace {
    FontFace {
        family: Some(family.to_string()),
        post_script_name: format!("{}-{}", family, weight),
        monospaced: true,
        weight,
        stretch,
    }
}

fn sample() -> FontMap {
    let mut faces = vec![
        face("Mono B", 400, 5),
        face("Mono B", 700, 5),
        face("Mono B", 300, 3),
        face("Mono A", 400, 5),
        face("Mono A", 700, 5),
        face("Mono A", 500, 5),
        face("Mono A", 500, 5),
        face("Mono A", 300, 7),
        // Only regular: not offered.
        face("Lonely", 400, 5),
        // Black is offered like the other named weights.
        face("Mono A", 900, 5),
        // A weight between the named ones is not offered.
        face("Mono A", 950, 5),
    ];
    // Proportional faces are not offered.
    let mut proportional = face("Sans", 400, 5);
    proportional.monospaced = false;
    faces.push(proportional);
    let mut sans_bold = face("Sans", 700, 5);
    sans_bold.monospaced = false;
    faces.push(sans_bold);
    // A face without a family is listed by its PostScript name.
    faces.push(FontFace { family: None, post_script_name: "Anon".to_string(), monospaced: true, weight: 400, stretch: 5 });
    faces.push(FontFace { family: None, post_script_name: "Anon".to_string(), monospaced: true, weight: 700, stretch: 5 });
    FontMap::from_faces(&faces)
}

#[test]
fn offered_fonts_are_sorted_and_filtered() {
    assert_eq!(sample().font_names(), vec!["Anon", "Mono A", "Mono B"]);
}

#[test]
fn no_faces_no_fonts() {
    assert!(FontMap::from_faces(&vec![]).is_empty());
    assert!(!sample().is_empty());
}

#[test]
fn configured_font_and_weights_kept() {
    let sel = sample().select(&"Mono A".to_string(), 5, 5, 500, 400, 700);
    assert!(!sel.font_name_replaced);
    assert_eq!(sel.font_name, "Mono A");
    assert_eq!(sel.stretches, vec![5, 7]);
    assert_eq!(sel.stretch_names, vec!["Normal", "Expanded"]);
    assert_eq!(sel.weights, vec![400, 500, 700, 900]);
    assert_eq!(sel.weight_names, vec!["Normal", "Medium", "Bold", "Black"]);
    assert_eq!((sel.font_stretch, sel.font_weight, sel.dim_font_weight, sel.bold_font_weight), (5, 500, 400, 700));
}

#[test]
fn missing_font_falls_back_to_the_first() {
    let sel = sample().select(&"Missing".to_string(), 5, 5, 400, 400, 700);
    assert!(sel.font_name_replaced);
    assert_eq!(sel.font_name, "Anon");
}

#[test]
fn missing_stretch_falls_back_to_normal() {
    let sel = sample().select(&"Mono B".to_string(), 9, 9, 300, 300, 800);
    assert_eq!(sel.stretches, vec![3, 5]);
    assert_eq!(sel.font_stretch, 5);
    assert_eq!(sel.weights, vec![400, 700]);
    assert_eq!((sel.font_weight, sel.dim_font_weight, sel.bold_font_weight), (400, 400, 700));
}

#[test]
fn unavailable_weights_fall_back_even_when_absent() {
    // At the condensed stretch only the light face exists, yet the regular
    // and bold weights are what missing weights fall back to.
    let sel = sample().select(&"Mono B".to_string(), 3, 3, 500, 300, 900);
    assert_eq!(sel.font_stretch, 3);
    assert_eq!(sel.weights, vec![300]);
    assert_eq!((sel.font_weight, sel.dim_font_weight, sel.bold_font_weight), (400, 300, 700));
}

#[test]
fn style_names() {
    assert_eq!(stretch_name(1), "UltraCondensed");
    assert_eq!(stretch_name(9), "UltraExpanded");
    assert_eq!(weight_name(100), "Thin");
    assert_eq!(weight_name(600), "Semibold");
    assert_eq!(weight_name(800), "ExtraBold");
    assert_eq!(weight_name(900), "Black");
}

#[test]
fn settling_twice_changes_nothing() {
    let map = sample();
    let first = map.select(&"Missing".to_string(), 9, 9, 300, 950, 800);
    let again = map.select(
        &first.font_name,
        first.font_stretch,
        first.font_stretch,
        first.font_weight,
        first.dim_font_weight,
        first.bold_font_weight,
    );
    assert_eq!(again.font_name, first.font_name);
    assert!(!again.font_name_replaced);
    assert_eq!(
        (again.font_stretch, again.font_weight, again.dim_font_weight, again.bold_font_weight),
        (first.font_stretch, first.font_weight, first.dim_font_weight, first.bold_font_weight)
    );
    assert!(first.stretches.contains(&5));
}
