use xtop::commands::cli::{layout_subcommand, main_command, plugin_subcommand, widget_subcommand, MainCommand, Subcommand};
use xtop::commands::plugins::installed_plugins;
use xtop::commands::install::{add_optional_dependency, feature_line, git_dependency_line, LOCAL_PLUGINS_MARKER};

fn args(v: &[&str]) -> Vec<String> {
    v.iter().map(|s| s.to_string()).collect()
}

const MANIFEST: &str = "[package]\nname = \"xtop\"\n\n[dependencies]\nxtop-plugin-api = { git = \"https://github.com/xtop-cli/api\" }\nxtop-plugin-samurai = { git = \"https://github.com/xtop-cli/plugins\", optional = true }\n# xtop-plugin-old = { path = \"old\", optional = true }\n  xtop-plugin-foo = { path = \"x\", optional = true }\n\n[features]\ndefault = [\"plugin-samurai\"]\nplugin-samurai = [\"dep:xtop-plugin-samurai\"]\nxtop_plugin_foo = [\"dep:xtop-plugin-foo\"]\n";

#[test]
fn wired_plugins_are_listed_in_manifest_order() {
    assert_eq!(installed_plugins(MANIFEST), ["xtop-plugin-samurai", "xtop-plugin-foo"]);
}

#[test]
fn without_dep_features_nothing_is_installed() {
    let m = "[dependencies]\nxtop-plugin-samurai = { git = \"g\" }\n# dep:xtop-plugin-samurai\n[features]\ndefault = []\n";
    assert!(installed_plugins(m).is_empty());
    assert!(installed_plugins("").is_empty());
}

#[test]
fn main_commands() {
    assert_eq!(main_command(&args(&["xtop"])), MainCommand::Run);
    assert_eq!(main_command(&args(&["xtop", "mcp"])), MainCommand::Mcp);
    assert_eq!(main_command(&args(&["xtop", "plugin", "list"])), MainCommand::Plugin);
    assert_eq!(main_command(&args(&["xtop", "-h"])), MainCommand::Help);
    assert_eq!(main_command(&args(&["xtop", "--help"])), MainCommand::Help);
    assert_eq!(main_command(&args(&["xtop", "--version"])), MainCommand::Run);
}

#[test]
fn plugin_subcommands() {
    assert_eq!(plugin_subcommand(&args(&["xtop", "plugin"])), Subcommand::Usage("Usage: xtop plugin <list|install|scaffold>".to_string()));
    assert_eq!(plugin_subcommand(&args(&["xtop", "plugin", "list"])), Subcommand::List);
    assert_eq!(plugin_subcommand(&args(&["xtop", "plugin", "install"])), Subcommand::Usage("Usage: xtop plugin install <git-url|name>".to_string()));
    assert_eq!(plugin_subcommand(&args(&["xtop", "plugin", "install", "sam"])), Subcommand::Install("sam".to_string()));
    assert_eq!(plugin_subcommand(&args(&["xtop", "plugin", "scaffold", "x"])), Subcommand::Scaffold("x".to_string()));
    assert_eq!(plugin_subcommand(&args(&["xtop", "plugin", "scaffold"])), Subcommand::Usage("Usage: xtop plugin scaffold <name>".to_string()));
    assert_eq!(plugin_subcommand(&args(&["xtop", "plugin", "remove"])), Subcommand::Unknown("remove".to_string()));
}

#[test]
fn widget_and_layout_subcommands() {
    assert_eq!(widget_subcommand(&args(&["xtop", "widget"])), Subcommand::Usage("Usage: xtop widget <list|install|scaffold>".to_string()));
    assert_eq!(widget_subcommand(&args(&["xtop", "widget", "install"])), Subcommand::Usage("Usage: xtop widget install <repo|path|name>".to_string()));
    assert_eq!(widget_subcommand(&args(&["xtop", "widget", "list", "extra"])), Subcommand::List);
    assert_eq!(layout_subcommand(&args(&["xtop", "layout"])), Subcommand::Usage("Usage: xtop layout <install|check>".to_string()));
    assert_eq!(layout_subcommand(&args(&["xtop", "layout", "check", "a.jsonc"])), Subcommand::Check("a.jsonc".to_string()));
    assert_eq!(layout_subcommand(&args(&["xtop", "layout", "check"])), Subcommand::Usage("Usage: xtop layout check <file.jsonc|file.json>".to_string()));
    assert_eq!(layout_subcommand(&args(&["xtop", "layout", "install", "grid"])), Subcommand::Install("grid".to_string()));
    assert_eq!(layout_subcommand(&args(&["xtop", "layout", "list"])), Subcommand::Unknown("list".to_string()));
}

#[test]
fn an_installed_plugin_is_listed_and_a_second_install_changes_nothing() {
    let manifest = "[package]\nname = \"xtop\"\n\n[dependencies]\nserde = \"1\"\n\n[features]\ndefault = []\n";
    let pkg = "xtop-plugin-sentinel";
    let dep = git_dependency_line(pkg, "https://github.com/xtop-cli/plugins");
    let feature = feature_line("xtop_plugin_sentinel", pkg);
    assert_eq!(installed_plugins(manifest), Vec::<String>::new());
    let (once, declared) = add_optional_dependency(manifest, pkg, &dep, &feature, LOCAL_PLUGINS_MARKER);
    assert!(!declared);
    assert_eq!(
        once,
        "[package]\nname = \"xtop\"\n\n[dependencies]\n# Local plugin installs (xtop plugin install)\nxtop-plugin-sentinel = { git = \"https://github.com/xtop-cli/plugins\", optional = true }\nserde = \"1\"\n\n[features]\nxtop_plugin_sentinel = [\"dep:xtop-plugin-sentinel\"]\ndefault = []\n"
    );
    assert_eq!(installed_plugins(&once), vec!["xtop-plugin-sentinel".to_string()]);
    let (twice, declared_again) = add_optional_dependency(&once, pkg, &dep, &feature, LOCAL_PLUGINS_MARKER);
    assert!(declared_again);
    assert_eq!(twice, once);
}
