use xtop::commands::source::{
    expand_tilde, find_crate, pack_candidates, package_name_of, path_extension, path_file_stem, plugin_candidates,
    plugin_source, repo_hint, select_candidate, trim_start_matches, underscored, widget_pack_names, widget_source,
    InstallSource, PackNameError,
};

#[test]
fn prefixes_are_trimmed_repeatedly() {
    assert_eq!(trim_start_matches("xtop-widget-xtop-widget-a", "xtop-widget-"), "a");
    assert_eq!(trim_start_matches("abc", ""), "abc");
    assert_eq!(trim_start_matches("abc", "x"), "abc");
    assert_eq!(underscored("xtop-plugin-a-b"), "xtop_plugin_a_b");
}

#[test]
fn file_stems_and_extensions_follow_std() {
    let cases = [
        "https://github.com/me/xtop-widget-x.git",
        "/a/b/",
        "/a/..",
        ".hidden",
        "a.b.c",
        "/",
        "",
        "foo.",
        "dir/./",
        "layout.jsonc",
        "..",
        ".",
    ];
    for c in cases {
        let p = std::path::Path::new(c);
        assert_eq!(path_file_stem(c).as_deref(), p.file_stem().and_then(|s| s.to_str()), "stem of {c:?}");
        assert_eq!(path_extension(c).as_deref(), p.extension().and_then(|s| s.to_str()), "extension of {c:?}");
    }
}

#[test]
fn widget_install_arguments() {
    assert!(matches!(widget_source("  ./packs/x/ "), InstallSource::Local(p) if p == "./packs/x"));
    assert!(matches!(widget_source("https://h/r//"), InstallSource::GitUrl(u) if u == "https://h/r"));
    assert!(matches!(widget_source("xtop-widget-demo"), InstallSource::Named(n) if n == "demo"));
    assert!(matches!(widget_source("~/w"), InstallSource::Local(p) if p == "~/w"));
}

#[test]
fn plugin_install_arguments() {
    assert!(matches!(plugin_source(" xtop-plugin-foo "), InstallSource::Named(n) if n == "foo"));
    assert!(matches!(plugin_source(" https://github.com/a/b "), InstallSource::GitUrl(u) if u == " https://github.com/a/b "));
}

#[test]
fn hints_and_candidates() {
    assert_eq!(repo_hint("https://github.com/me/xtop-widget-x.git", "widget", "xtop-widget-"), "x");
    assert_eq!(repo_hint("https://github.com/xtop-cli/plugins", "plugin", "xtop-plugin-"), "plugins");
    assert_eq!(repo_hint("", "widget", "xtop-widget-"), "widget");
    assert_eq!(
        pack_candidates("/tmp/r", "demo"),
        [
            "/tmp/r/packs/xtop-widget-demo",
            "/tmp/r/xtop-widget-demo",
            "/tmp/r/packs/demo",
            "/tmp/r/widgets/xtop-widget-demo",
            "/tmp/r",
        ]
    );
    assert_eq!(
        plugin_candidates("/tmp/p", "sam"),
        [
            "/tmp/p/plugins/xtop-plugin-sam",
            "/tmp/p/plugins/sam",
            "/tmp/p/crates/xtop-plugin-sam",
            "/tmp/p/crates/sam",
            "/tmp/p",
        ]
    );
}

#[test]
fn package_names_come_from_the_toml_crate() {
    assert_eq!(package_name_of("[package]\nname = \"xtop-widget-demo\"\nversion = \"0.1.0\"\n").as_deref(), Some("xtop-widget-demo"));
    assert_eq!(package_name_of("[workspace]\nmembers = []\n"), None);
    assert_eq!(package_name_of("[package\nname = "), None);
    assert_eq!(package_name_of("[package]\nname = 3\n"), None);
}

#[test]
fn the_first_candidate_with_a_matching_package_wins() {
    let manifests = vec![
        None,
        Some("[package]\nname = \"other\"\n".to_string()),
        Some(String::new()),
        Some("[package]\nname = \"xtop-widget-a\"\n".to_string()),
        Some("[package]\nname = \"xtop-widget-b\"\n".to_string()),
    ];
    assert_eq!(find_crate(&manifests, "xtop-widget-"), Some((3, "xtop-widget-a".to_string())));
    assert_eq!(find_crate(&manifests, "xtop-plugin-"), None);
    let names = vec![None, Some("xtop-plugin-x".to_string())];
    assert_eq!(select_candidate(&names, "xtop-plugin-"), Some((1, "xtop-plugin-x".to_string())));
}

#[test]
fn widget_pack_name_parts() {
    let n = widget_pack_names("xtop-widget-my-pack").ok().unwrap();
    assert_eq!(n.label, "my-pack");
    assert_eq!(n.feature, "widget-my-pack");
    assert_eq!(n.crate_ident, "xtop_widget_my_pack");
    assert_eq!(widget_pack_names("xtop-plugin-x").err(), Some(PackNameError::NotAWidgetPack));
    assert_eq!(widget_pack_names("xtop-widget-").err(), Some(PackNameError::EmptyLabel));
}

#[test]
fn tilde_expansion() {
    assert_eq!(expand_tilde("~/code/x", Some("/home/me")), "/home/me/code/x");
    assert_eq!(expand_tilde("~", Some("/h")), "/h/");
    assert_eq!(expand_tilde("~x", Some("/h")), "~x");
    assert_eq!(expand_tilde("/abs", Some("/h")), "/abs");
    assert_eq!(expand_tilde("~/a", None), "~/a");
    let std_way = |p: &str, home: &str| std::path::Path::new(home).join(std::path::Path::new(p).strip_prefix("~/").unwrap());
    for p in ["~/a/b", "~//a", "~/./a/", "~/a/."] {
        assert_eq!(expand_tilde(p, Some("/h")), std_way(p, "/h").to_str().unwrap(), "{p:?}");
    }
}
