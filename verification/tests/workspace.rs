use xtop::commands::workspace::{
    add_cli_plugin, add_workspace_member, workspace_plugin_candidates, workspace_plugin_cargo_toml,
    workspace_plugin_lib_rs, workspace_plugins, OPTIONAL_PLUGINS_MARKER,
};

const WS: &str = "[workspace]\nresolver = \"2\"\nmembers = [\n    \"crates/xtop-core\",\n    \"crates/xtop-cli\",\n    \"plugins/xtop-plugin-samurai\",\n    \"crates/xtop-plugin-extra\",\n]\n\n[workspace.package]\nversion = \"0.1.0\"\n";

#[test]
fn workspace_members_that_are_plugins() {
    assert_eq!(workspace_plugins(WS), ["plugins/xtop-plugin-samurai", "crates/xtop-plugin-extra"]);
    assert!(workspace_plugins("[workspace]\n").is_empty());
}

#[test]
fn adding_a_member_after_the_anchor_plugin() {
    let ws = add_workspace_member(WS, "xtop_plugin_x", "samurai").unwrap();
    assert!(ws.contains("    \"plugins/xtop-plugin-samurai\",\n    \"plugins/xtop_plugin_x\",\n    \"crates/xtop-plugin-extra\","));
    assert_eq!(add_workspace_member(&ws, "xtop_plugin_x", "samurai"), None);
}

#[test]
fn adding_a_member_without_the_anchor() {
    let ws = add_workspace_member(WS, "xtop_plugin_y", "sentinel").unwrap();
    // The entry goes before the first `]` of the file, here the one of `[workspace]`.
    assert!(ws.starts_with("[workspace      \"plugins/xtop_plugin_y\",\n]\nresolver"));
    assert_eq!(add_workspace_member(&ws, "xtop_plugin_y", "sentinel"), None);
}

#[test]
fn wiring_a_plugin_into_the_cli_manifest() {
    let cli = format!("[dependencies]\n{OPTIONAL_PLUGINS_MARKER}\nxtop-plugin-samurai = {{ path = \"../../plugins/xtop-plugin-samurai\", optional = true }}\n\n[features]\ndefault = []\nplugin-samurai = [\"dep:xtop-plugin-samurai\"]\n");
    let out = add_cli_plugin(&cli, "xtop-plugin-x", "xtop_plugin_x", "xtop_plugin_x", "samurai");
    assert_eq!(
        out,
        format!("[dependencies]\n{OPTIONAL_PLUGINS_MARKER}\nxtop-plugin-x = {{ path = \"../../plugins/xtop_plugin_x\", optional = true }}\nxtop-plugin-samurai = {{ path = \"../../plugins/xtop-plugin-samurai\", optional = true }}\n\n[features]\ndefault = []\nplugin-samurai = [\"dep:xtop-plugin-samurai\"]\nxtop_plugin_x = [\"dep:xtop-plugin-x\"]\n")
    );
    assert_eq!(add_cli_plugin(&out, "xtop-plugin-x", "xtop_plugin_x", "xtop_plugin_x", "samurai"), out);
    let bare = "[features]\ndefault = []\n";
    assert_eq!(
        add_cli_plugin(bare, "xtop-plugin-x", "d", "f", "sentinel"),
        "[features]\nf = [\"dep:xtop-plugin-x\"]\ndefault = []\n"
    );
}

#[test]
fn workspace_scaffold_and_candidates() {
    assert_eq!(workspace_plugin_candidates("x"), ["plugins/xtop-plugin-x", "plugins/x"]);
    let cargo = workspace_plugin_cargo_toml("demo");
    assert!(cargo.starts_with("[package]\nname = \"xtop-plugin-demo\"\nversion.workspace = true\n"));
    assert!(cargo.ends_with("[dependencies]\nxtop-core = { path = \"../../crates/xtop-core\" }\nratatui.workspace = true\n"));
    let lib = workspace_plugin_lib_rs("demo", "xtop_core::domain::plugin");
    assert!(lib.starts_with("use xtop_core::domain::plugin::{Plugin, PluginCapability, PluginContext, PluginError, PluginManifest};\n\npub struct DemoPlugin;"));
}
