use xtop::commands::scaffold::{capitalized, plugin_cargo_toml, plugin_lib_rs, widget_cargo_toml, widget_lib_rs, widget_readme};

#[test]
fn names_are_capitalized() {
    assert_eq!(capitalized("demo"), "Demo");
    assert_eq!(capitalized(""), "");
    assert_eq!(capitalized("Demo"), "Demo");
    assert_eq!(capitalized("élan"), "Élan");
    assert_eq!(capitalized("ßx"), "SSx");
    assert_eq!(capitalized("9lives"), "9lives");
}

#[test]
fn plugin_scaffold_files() {
    let name = "demo";
    let cargo = format!(
        r#"[package]
name = "xtop-plugin-{name}"
version = "0.1.0"
edition = "2021"
license = "MIT"
description = "xtop plugin: {name}"

[dependencies]
xtop-plugin-api = {{ git = "https://github.com/xtop-cli/api" }}
"#
    );
    assert_eq!(plugin_cargo_toml(name), cargo);
    let lib = plugin_lib_rs(name);
    assert!(lib.starts_with("//! Demo plugin for xtop.\nuse xtop_plugin_api::{Plugin, PluginCapability, PluginContext, PluginError, PluginManifest};\n"));
    assert!(lib.contains("pub struct DemoPlugin;\n\nimpl DemoPlugin {\n"));
    assert!(lib.contains("impl Plugin for DemoPlugin {\n"));
    assert!(lib.contains("            id: \"demo\".to_string(),\n            name: \"Demo\".to_string(),\n"));
    assert!(lib.contains("description: \"xtop plugin: demo\".to_string(),"));
    assert!(lib.ends_with("    fn on_tick(&mut self, _ctx: &mut PluginContext) -> Result<(), PluginError> {\n        Ok(())\n    }\n}\n"));
}

#[test]
fn widget_scaffold_files() {
    let name = "gauge";
    let cargo = format!(
        r#"[package]
name = "xtop-widget-{name}"
version = "0.1.0"
edition = "2021"
rust-version = "1.87"
license = "MIT"
description = "xtop widget pack: {name}"

[dependencies]
ratatui = "0.30.2"
xtop-widget-api = {{ git = "https://github.com/xtop-cli/api" }}
xtop-plugin-api = {{ git = "https://github.com/xtop-cli/api" }}
"#
    );
    assert_eq!(widget_cargo_toml(name), cargo);
    let readme = format!(
        "# xtop-widget-{name}\n\n\
         A single-widget xtop pack scaffolded by `xtop widget scaffold {name}`.\n\n\
         The crate registers one widget named `{name}` and draws a placeholder\n\
         panel from the live snapshot (process count, CPU and memory gauges).\n\
         Replace the body of `render` in `src/lib.rs` with your own drawing;\n\
         keep `registry()` as the pack entry point the kernel calls.\n\n\
         Install it into the kernel with `xtop widget install <repo|path>` and\n\
         enable the `widget-{name}` feature to rebuild xtop with it. Authoring\n\
         guidance lives in the widgets repo docs (`docs/authoring.md`).\n"
    );
    assert_eq!(widget_readme(name), readme);
    let lib = widget_lib_rs(name);
    assert!(lib.starts_with("//! Gauge widget pack for xtop: a single-widget crate scaffolded by\n//! `xtop widget scaffold gauge`.\n"));
    assert!(lib.contains("pub const WIDGET_NAME: &str = \"gauge\";"));
    assert!(lib.contains("format!(\" {WIDGET_NAME} \"),"));
    assert!(lib.contains("format!(\" {:<4} {:>3.0}% \", label, percent),"));
    assert!(lib.contains("fn registry() -> HashMap<&'static str, WidgetRenderer> {\n"));
    assert!(lib.ends_with("        Span::styled(\"  \", Style::default().fg(accent)),\n    ])\n}\n"));
}

#[test]
fn identifiers_upper_case_for_statics() {
    assert_eq!(xtop::commands::scaffold::upper_cased("xtop_widget_demo"), "XTOP_WIDGET_DEMO");
    assert_eq!(xtop::commands::scaffold::upper_cased(""), "");
}
