use xtop::commands::widget_list::{cargo_widget_features, installed_packs, table_rows};
use xtop::commands::install::{add_optional_dependency, edit_pack_table_text, feature_line, git_dependency_line, PackTableEdit, LOCAL_WIDGETS_MARKER};
use xtop::commands::source::widget_pack_names;

fn sample_manifest() -> &'static str {
    "[dependencies]\n\
     xtop-plugin-api = { git = \"https://github.com/xtop-cli/api\" }\n\
     xtop-widgets = { git = \"https://github.com/xtop-cli/widgets\" }\n\
     xtop-widget-blocks = { git = \"https://github.com/xtop-cli/widgets\", optional = true }\n\
     \n\
     [features]\n\
     default = [\"plugin-samurai\", \"mcp-extension\"]\n\
     plugin-samurai = [\"dep:xtop-plugin-samurai\"]\n\
     widget-blocks = [\"dep:xtop-widget-blocks\"]\n\
     widget-spark = [\"dep:xtop-widget-spark\"]\n"
}

fn sample_table() -> &'static str {
    "pub(crate) const PACK_TABLE: &[PackRow] = &[\n\
         PackRow { feature: \"default\", label: \"default\" },\n\
         // (xtop widget install appends installed-pack rows above this line.)\n\
         PackRow { feature: \"widget-blocks\", label: \"blocks\" },\n\
     ];\n"
}

#[test]
fn parses_widget_feature_entries_from_the_manifest() {
    let features = cargo_widget_features(sample_manifest());
    assert_eq!(features, ["widget-blocks", "widget-spark"]);
}

#[test]
fn parses_catalog_rows_in_table_order() {
    let rows = table_rows(sample_table());
    assert_eq!(rows, [("default", "default"), ("widget-blocks", "blocks"),]);
}

#[test]
fn parses_rustfmt_multiline_rows() {
    let table = "pub(crate) const PACK_TABLE: &[PackRow] = &[\n    PackRow {\n        feature: \"default\",\n        label: \"default\",\n    },\n    PackRow {\n        feature: \"widget-blocks\",\n        label: \"blocks\",\n    },\n];\n";
    assert_eq!(
        table_rows(table),
        [("default", "default"), ("widget-blocks", "blocks")]
    );
}

#[test]
fn ignores_catalog_rows_without_matching_features() {
    let manifest =
        sample_manifest().replace("widget-spark = [\"dep:xtop-widget-spark\"]\n", "");
    let features = cargo_widget_features(&manifest);
    let installed: Vec<(&str, &str)> = table_rows(sample_table())
        .iter()
        .filter(|(f, _)| f == &"default" || features.iter().any(|x| x == f))
        .map(|(f, l)| (*f, *l))
        .collect();
    assert_eq!(
        installed,
        [("default", "default"), ("widget-blocks", "blocks")]
    );
}

#[test]
fn an_installed_widget_pack_is_listed() {
    let manifest = "[dependencies]\nserde = \"1\"\n\n[features]\ndefault = []\n";
    let table = "pub(crate) const PACK_TABLE: &[PackRow] = &[\n    PackRow {\n        feature: \"default\",\n        label: \"default\",\n    },\n    // (xtop widget install appends installed-pack rows above this line.)\n];\n\nfn push_optional_pack(v: &mut Vec<Pack>, row: &PackRow) {\n    match row.feature {\n        // (xtop widget install appends installed-pack arms above this line.)\n        _ => {}\n    }\n}\n";
    let names = widget_pack_names("xtop-widget-spark").unwrap();
    let dep = git_dependency_line("xtop-widget-spark", "https://github.com/xtop-cli/widgets");
    let feature = feature_line(&names.feature, "xtop-widget-spark");
    let (new_manifest, declared) =
        add_optional_dependency(manifest, "xtop-widget-spark", &dep, &feature, LOCAL_WIDGETS_MARKER);
    assert!(!declared);
    let new_table = match edit_pack_table_text(table, &names.label, &names.feature, &names.crate_ident) {
        PackTableEdit::Edited(t) => t,
        other => panic!("unexpected edit outcome: {:?}", other),
    };
    let rows = table_rows(&new_table);
    let features = cargo_widget_features(&new_manifest);
    assert_eq!(features, vec!["widget-spark".to_string()]);
    assert_eq!(
        installed_packs(&rows, &features),
        vec![("default", "default"), ("widget-spark", "spark")]
    );
}
