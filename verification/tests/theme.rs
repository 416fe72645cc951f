use videre::ui::theme::{
    apply_font_size, apply_theme, get_stored_font_size, get_stored_theme, initialize_theme,
    set_font_size, set_stored_font_size, set_stored_theme, set_theme, FontSize, ThemeName,
    FONT_SIZE_KEY, THEME_KEY,
};

fn classes(list: &[&str]) -> Vec<String> {
    list.iter().map(|s| s.to_string()).collect()
}

#[test]
fn theme_as_str_returns_css_class() {
    assert_eq!(ThemeName::Swiss.as_str(), "swiss");
    assert_eq!(ThemeName::CassetteFuturism.as_str(), "cassette-futurism");
}

#[test]
fn theme_from_str_known_values() {
    assert_eq!(ThemeName::from_str("swiss"), ThemeName::Swiss);
    assert_eq!(
        ThemeName::from_str("cassette-futurism"),
        ThemeName::CassetteFuturism
    );
}

#[test]
fn theme_from_str_unknown_defaults_to_swiss() {
    assert_eq!(ThemeName::from_str(""), ThemeName::Swiss);
    assert_eq!(ThemeName::from_str("neon-glow"), ThemeName::Swiss);
    assert_eq!(ThemeName::from_str("NATURE"), ThemeName::Swiss);
}

#[test]
fn theme_round_trip_through_str() {
    for theme in ThemeName::ALL {
        assert_eq!(ThemeName::from_str(theme.as_str()), theme);
    }
}

#[test]
fn theme_all_has_two_variants() {
    assert_eq!(ThemeName::ALL.len(), 2);
}

#[test]
fn theme_display_name_is_human_readable() {
    assert_eq!(ThemeName::Swiss.display_name(), "Swiss");
    assert_eq!(
        ThemeName::CassetteFuturism.display_name(),
        "Cassette Futurism"
    );
}

#[test]
fn theme_description_not_empty() {
    for theme in ThemeName::ALL {
        assert!(!theme.description().is_empty());
    }
}

#[test]
fn theme_descriptions_are_exact() {
    assert_eq!(ThemeName::Swiss.description(), "Precision engineering");
    assert_eq!(
        ThemeName::CassetteFuturism.description(),
        "Phosphor, scanlines, ALL CAPS"
    );
}

#[test]
fn font_size_round_trip_through_str() {
    for size in FontSize::ALL {
        assert_eq!(FontSize::from_str(size.as_str()), size);
    }
    assert_eq!(FontSize::ALL.len(), 4);
}

#[test]
fn font_size_names_and_unknown_default() {
    assert_eq!(FontSize::Small.as_str(), "fs-small");
    assert_eq!(FontSize::XLarge.as_str(), "fs-xl");
    assert_eq!(FontSize::XLarge.display_name(), "X-Large");
    assert_eq!(FontSize::Large.description(), "Comfortable");
    assert_eq!(FontSize::from_str("fs-huge"), FontSize::Normal);
    assert_eq!(FontSize::from_str(""), FontSize::Normal);
}

#[test]
fn stored_values_default_when_missing() {
    assert_eq!(get_stored_theme(None), ThemeName::Swiss);
    assert_eq!(get_stored_theme(Some("cassette-futurism")), ThemeName::CassetteFuturism);
    assert_eq!(get_stored_theme(Some("garbage")), ThemeName::Swiss);
    assert_eq!(get_stored_font_size(None), FontSize::Normal);
    assert_eq!(get_stored_font_size(Some("fs-large")), FontSize::Large);
}

#[test]
fn storing_writes_the_class_under_its_key() {
    let t = set_stored_theme(ThemeName::CassetteFuturism);
    assert_eq!(t.key, THEME_KEY);
    assert_eq!(t.key, "videre-theme");
    assert_eq!(t.value, "cassette-futurism");
    let f = set_stored_font_size(FontSize::Small);
    assert_eq!(f.key, FONT_SIZE_KEY);
    assert_eq!(f.key, "videre-font-size");
    assert_eq!(f.value, "fs-small");
}

#[test]
fn applying_a_theme_leaves_exactly_its_class() {
    let mut cl = classes(&["app", "swiss", "fs-large", "swiss", "cassette-futurism"]);
    apply_theme(&mut cl, ThemeName::CassetteFuturism);
    assert_eq!(cl, classes(&["app", "fs-large", "cassette-futurism"]));
    apply_theme(&mut cl, ThemeName::Swiss);
    assert_eq!(cl, classes(&["app", "fs-large", "swiss"]));
}

#[test]
fn applying_the_same_theme_twice_changes_nothing_more() {
    let mut cl = classes(&["dark"]);
    apply_theme(&mut cl, ThemeName::Swiss);
    let once = cl.clone();
    apply_theme(&mut cl, ThemeName::Swiss);
    assert_eq!(cl, once);
    assert_eq!(cl, classes(&["dark", "swiss"]));
}

#[test]
fn normal_font_size_has_no_class() {
    let mut cl = classes(&["fs-small", "swiss", "fs-xl"]);
    apply_font_size(&mut cl, FontSize::Normal);
    assert_eq!(cl, classes(&["swiss"]));
    apply_font_size(&mut cl, FontSize::XLarge);
    assert_eq!(cl, classes(&["swiss", "fs-xl"]));
    apply_font_size(&mut cl, FontSize::Small);
    assert_eq!(cl, classes(&["swiss", "fs-small"]));
}

#[test]
fn initialize_applies_stored_preferences() {
    let mut cl = Vec::new();
    initialize_theme(&mut cl, Some("cassette-futurism"), Some("fs-large"));
    assert_eq!(cl, classes(&["cassette-futurism", "fs-large"]));
    let mut cl2 = Vec::new();
    initialize_theme(&mut cl2, None, None);
    assert_eq!(cl2, classes(&["swiss"]));
}

#[test]
fn set_theme_and_font_size_persist_and_apply() {
    let mut cl = classes(&["swiss"]);
    let item = set_theme(&mut cl, ThemeName::CassetteFuturism);
    assert_eq!(item.value, "cassette-futurism");
    assert_eq!(cl, classes(&["cassette-futurism"]));
    let item = set_font_size(&mut cl, FontSize::Large);
    assert_eq!(item.value, "fs-large");
    assert_eq!(cl, classes(&["cassette-futurism", "fs-large"]));
}

#[test]
fn font_previews_grow_with_the_size() {
    assert_eq!(FontSize::Small.preview_size(), "0.75rem");
    assert_eq!(FontSize::Normal.preview_size(), "0.8125rem");
    assert_eq!(FontSize::XLarge.preview_size(), "1.0625rem");
}
