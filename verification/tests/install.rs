use xtop::commands::install::{
    add_optional_dependency, edit_pack_table_text, feature_line, git_dependency_line, is_git_url, is_local_path,
    pack_table_arm, pack_table_row, path_dependency_line, PackTableEdit, ARM_INSTALL_MARKER,
    LOCAL_PLUGINS_MARKER, LOCAL_WIDGETS_MARKER, TABLE_INSTALL_MARKER,
};

/// A minimal pack_table.rs fixture with both markers present.
fn edit_helpers_fixture() -> String {
    "//! Pack catalog fixture.\nuse std::collections::HashMap;\nuse std::sync::OnceLock;\n\npub(crate) const PACK_TABLE: &[PackRow] = &[\n    PackRow {\n        feature: \"default\",\n        label: \"default\",\n    },\n    // (xtop widget install appends installed-pack rows above this line.)\n    PackRow {\n        feature: \"widget-blocks\",\n        label: \"blocks\",\n    },\n];\n\nfn push_optional_pack(v: &mut Vec<Pack>, row: &PackRow) {\n    match row.feature {\n        // (xtop widget install appends installed-pack arms above this line.)\n        #[cfg(feature = \"widget-blocks\")]\n        \"widget-blocks\" => v.push(Pack {\n            name: row.label,\n            renderers: BLOCKS_PACK.get_or_init(xtop_widget_blocks::registry),\n        }),\n        _ => {}\n    }\n}\n"
        .to_string()
}

#[test]
fn generated_table_row_matches_the_shipped_shape() {
    // The row a fresh install inserts is byte-shaped like the shipped
    // rows, so the file stays rustfmt-clean after the self-edit.
    let row = "    PackRow {\n        feature: \"widget-demo\",\n        label: \"demo\",\n    },\n";
    let table = "pub(crate) const PACK_TABLE: &[PackRow] = &[\n    PackRow {\n        feature: \"default\",\n        label: \"default\",\n    },\n    // (xtop widget install appends installed-pack rows above this line.)\n];\n";
    let edited = table.replacen(TABLE_INSTALL_MARKER, &format!("{row}{TABLE_INSTALL_MARKER}"), 1);
    assert!(edited.contains("feature: \"widget-demo\""));
    assert_eq!(edited.matches(TABLE_INSTALL_MARKER).count(), 1);
    // The row lands above the marker, before the closing `];`.
    let marker_at = edited.find(TABLE_INSTALL_MARKER).unwrap();
    assert!(edited[..marker_at].contains("widget-demo"));
    assert!(edited[marker_at..].contains("];"));
}

#[test]
fn generated_arm_is_self_contained_and_marker_stays() {
    let mut h = edit_helpers_fixture();
    let row = "    PackRow {\n        feature: \"widget-demo\",\n        label: \"demo\",\n    },\n".to_string();
    let arm = "        #[cfg(feature = \"widget-demo\")]\n\
         \"widget-demo\" => {\n\
         \x20           static XTOP_WIDGET_DEMO_PACK: OnceLock<HashMap<&'static str, WidgetRenderer>> =\n\
         \x20               OnceLock::new();\n\
         \x20           v.push(Pack {\n\
         \x20               name: row.label,\n\
         \x20               renderers: XTOP_WIDGET_DEMO_PACK.get_or_init(xtop_widget_demo::registry),\n\
         \x20           });\n\
         \x20       },\n"
        .to_string();
    h = h.replacen(TABLE_INSTALL_MARKER, &format!("{row}{TABLE_INSTALL_MARKER}"), 1);
    h = h.replacen(ARM_INSTALL_MARKER, &format!("{arm}{ARM_INSTALL_MARKER}"), 1);
    // Both the row and the arm reference the same feature, and the arm
    // statics + registry reference survive in the text.
    assert_eq!(h.matches("feature: \"widget-demo\"").count(), 1);
    assert!(h.contains("XTOP_WIDGET_DEMO_PACK.get_or_init(xtop_widget_demo::registry)"));
    // Markers survive for repeated installs.
    assert!(h.contains(TABLE_INSTALL_MARKER));
    assert!(h.contains(ARM_INSTALL_MARKER));
}

#[test]
fn url_and_path_detection() {
    assert!(is_git_url("https://github.com/xtop-cli/widgets"));
    assert!(is_git_url("git@github.com:me/xtop-widget-x.git"));
    assert!(is_local_path("/home/me/widgets"));
    assert!(is_local_path("./widgets-dev/xtop-widget-x"));
    assert!(is_local_path("~/code/xtop-widget-x"));
    assert!(!is_local_path("github.com/xtop-cli/widgets"));
}

#[test]
fn bare_names_are_neither_urls_nor_paths() {
    assert!(!is_git_url("demo"));
    assert!(!is_local_path("demo"));
    assert!(!is_local_path(""));
    assert!(is_git_url("ssh://host/repo"));
}

#[test]
fn library_row_and_arm_have_the_shipped_shape() {
    assert_eq!(
        pack_table_row("widget-demo", "demo"),
        "    PackRow {\n        feature: \"widget-demo\",\n        label: \"demo\",\n    },\n"
    );
    let arm = pack_table_arm("widget-demo", "xtop_widget_demo");
    assert!(arm.starts_with("        #[cfg(feature = \"widget-demo\")]\n        \"widget-demo\" => {\n"));
    assert!(arm.contains("static XTOP_WIDGET_DEMO_PACK: OnceLock<HashMap<&'static str, WidgetRenderer>> ="));
    assert!(arm.contains("renderers: XTOP_WIDGET_DEMO_PACK.get_or_init(xtop_widget_demo::registry),"));
    assert!(arm.ends_with("            });\n        },\n"));
}

#[test]
fn editing_the_catalog_inserts_row_and_arm_above_their_anchors() {
    let fixture = edit_helpers_fixture();
    let edited = match edit_pack_table_text(&fixture, "demo", "widget-demo", "xtop_widget_demo") {
        PackTableEdit::Edited(t) => t,
        other => panic!("unexpected {other:?}"),
    };
    let row = pack_table_row("widget-demo", "demo");
    let arm = pack_table_arm("widget-demo", "xtop_widget_demo");
    assert!(edited.contains(&format!("{row}    {TABLE_INSTALL_MARKER}")));
    assert!(edited.contains(&format!("{arm}        {ARM_INSTALL_MARKER}")));
    assert_eq!(edited.matches(TABLE_INSTALL_MARKER).count(), 1);
    assert_eq!(edited.matches(ARM_INSTALL_MARKER).count(), 1);
    assert_eq!(edited.matches("feature: \"widget-demo\"").count(), 1);
    assert!(edited.contains("XTOP_WIDGET_DEMO_PACK.get_or_init(xtop_widget_demo::registry)"));
    // A second install of the same pack leaves the catalog alone.
    assert_eq!(
        edit_pack_table_text(&edited, "demo", "widget-demo", "xtop_widget_demo"),
        PackTableEdit::AlreadyPresent
    );
}

#[test]
fn editing_a_catalog_without_anchors_is_refused() {
    assert_eq!(
        edit_pack_table_text("const PACK_TABLE: &[PackRow] = &[];\n", "demo", "widget-demo", "xtop_widget_demo"),
        PackTableEdit::MarkersMissing
    );
}

#[test]
fn dependency_and_feature_lines() {
    assert_eq!(
        git_dependency_line("xtop-plugin-x", "https://h/r"),
        "xtop-plugin-x = { git = \"https://h/r\", optional = true }"
    );
    assert_eq!(
        path_dependency_line("xtop-widget-x", "/w/x"),
        "xtop-widget-x = { path = \"/w/x\", optional = true }"
    );
    assert_eq!(feature_line("widget-x", "xtop-widget-x"), "widget-x = [\"dep:xtop-widget-x\"]");
}

#[test]
fn manifest_gets_marker_dependency_and_feature() {
    let manifest = "[package]\nname = \"xtop\"\n\n[dependencies]\nserde = \"1\"\n\n[features]\ndefault = []\n";
    let dep = git_dependency_line("xtop-plugin-x", "https://h/r");
    let feat = feature_line("xtop_plugin_x", "xtop-plugin-x");
    let (edited, declared) = add_optional_dependency(manifest, "xtop-plugin-x", &dep, &feat, LOCAL_PLUGINS_MARKER);
    assert!(!declared);
    assert_eq!(
        edited,
        format!(
            "[package]\nname = \"xtop\"\n\n[dependencies]\n{LOCAL_PLUGINS_MARKER}\n{dep}\nserde = \"1\"\n\n[features]\n{feat}\ndefault = []\n"
        )
    );
    // Running it again changes nothing and reports the dependency.
    let (again, declared) = add_optional_dependency(&edited, "xtop-plugin-x", &dep, &feat, LOCAL_PLUGINS_MARKER);
    assert!(declared);
    assert_eq!(again, edited);
}

#[test]
fn existing_marker_is_reused() {
    let manifest = format!("[dependencies]\n{LOCAL_WIDGETS_MARKER}\nold = \"1\"\n[features]\n");
    let dep = path_dependency_line("xtop-widget-x", "/w/x");
    let feat = feature_line("widget-x", "xtop-widget-x");
    let (edited, declared) = add_optional_dependency(&manifest, "xtop-widget-x", &dep, &feat, LOCAL_WIDGETS_MARKER);
    assert!(!declared);
    assert_eq!(edited, format!("[dependencies]\n{LOCAL_WIDGETS_MARKER}\n{dep}\nold = \"1\"\n[features]\n{feat}\n"));
}
