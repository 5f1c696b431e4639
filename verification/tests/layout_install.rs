use xtop::commands::layouts::{find_layout, layout_keys, LAYOUTS_REPO};

fn files(v: &[&str]) -> Vec<String> {
    v.iter().map(|s| s.to_string()).collect()
}

#[test]
fn a_layout_is_found_by_file_stem_or_name_ignoring_case() {
    let fs = files(&["README.md", "Grid.jsonc", "wide.json", "notes.txt", "focus.jsonc"]);
    let parsed = vec![None, Some("Grid".to_string()), Some("Wide Screen".to_string()), None, Some("Focus Mode".to_string())];
    assert_eq!(find_layout(&fs, &parsed, "grid"), Some(1));
    assert_eq!(find_layout(&fs, &parsed, "WIDE"), Some(2));
    assert_eq!(find_layout(&fs, &parsed, "wide screen"), Some(2));
    assert_eq!(find_layout(&fs, &parsed, "focus mode"), Some(4));
    assert_eq!(find_layout(&fs, &parsed, "notes"), None);
    assert_eq!(find_layout(&fs, &parsed, "readme"), None);
    assert_eq!(LAYOUTS_REPO, "https://github.com/xtop-cli/layouts");
}

#[test]
fn layout_keys_of_a_file() {
    let k = layout_keys("Big.JSON", Some("Big One"));
    assert!(!k.is_layout);
    assert_eq!(k.stem, "big");
    assert_eq!(k.name.as_deref(), Some("big one"));
    let k = layout_keys(".jsonc", None);
    assert!(!k.is_layout);
    assert_eq!(k.stem, ".jsonc");
    assert!(k.name.is_none());
}
