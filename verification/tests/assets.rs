use xtop::assets::{assets_up_to_date, default_theme_names, seed_file_name, ASSETS_VERSION};

/// Every shipped theme file is embedded as a seeding template; the docs
/// count exactly 12 themes.
#[test]
fn every_theme_file_is_embedded_as_a_seed() {
    let names: Vec<&str> = default_theme_names();
    assert_eq!(names.len(), 12, "docs claim 12 themes");
    for shipped in [
        "x", "berlin", "bogota", "helsinki", "lahabana", "london", "madrid", "miami", "oslo", "paris", "praha", "tokio",
    ] {
        assert!(names.contains(&shipped), "missing embedded theme: {shipped}");
    }
}

#[test]
fn marker_with_the_current_version_is_up_to_date() {
    assert_eq!(ASSETS_VERSION, "2");
    assert!(assets_up_to_date(Some("2")));
    assert!(assets_up_to_date(Some(" 2\n")));
    assert!(!assets_up_to_date(Some("1")));
    assert!(!assets_up_to_date(Some("")));
    assert!(!assets_up_to_date(None));
}

#[test]
fn seeds_are_jsonc_files() {
    assert_eq!(seed_file_name("miami"), "miami.jsonc");
}
