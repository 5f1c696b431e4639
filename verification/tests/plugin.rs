use xtop::keybinding::Keybindings;
use xtop::layout::mode::LayoutMode;
use xtop::plugin::{PluginCapability, PluginContext, PluginError, PluginManifest};
use xtop::plugin_host::{
    extension_error, key_dispatch, manifest_grants, plugin_data_dir, plugin_index, plugin_not_found,
    plugins_granted, unknown_action, ExtensionError, KeyDispatch,
};
use xtop::providers::{NoopBatteryProvider, NoopDockerProvider, NoopGpuProvider};
use xtop::state::AppState;
use xtop::theme::{default_theme, make_theme};

const GREY: [&str; 16] = [
    "#000000", "#111111", "#222222", "#333333", "#444444", "#555555", "#666666", "#777777", "#888888",
    "#999999", "#aaaaaa", "#bbbbbb", "#cccccc", "#dddddd", "#eeeeee", "#ffffff",
];

fn state() -> AppState {
    AppState::new(vec![default_theme(), make_theme("grey", GREY)], "x", LayoutMode::Dashboard, 1000, Keybindings::default())
}

fn manifest(id: &str, caps: Vec<PluginCapability>) -> PluginManifest {
    PluginManifest {
        id: id.to_string(),
        name: id.to_string(),
        version: "0.1.0".to_string(),
        description: String::new(),
        capabilities: caps,
    }
}

#[test]
fn a_plugin_with_modify_config_changes_settings() {
    let mut st = state();
    {
        let mut ctx = PluginContext::new(&mut st, "/data/p".to_string(), vec![PluginCapability::ModifyConfig]);
        assert_eq!(ctx.data_dir(), "/data/p");
        assert!(ctx.set_update_interval(250).is_ok());
        assert!(ctx.set_theme_by_name("grey").unwrap());
        assert!(!ctx.set_theme_by_name("none").unwrap());
        assert!(ctx.set_layout_by_name("Horizontal").unwrap());
        assert_eq!(ctx.state().update_interval_ms, 250);
    }
    assert_eq!(st.update_interval_ms, 250);
    assert_eq!(st.current_theme.name, "grey");
    assert_eq!(st.layout_mode, LayoutMode::Horizontal);
}

#[test]
fn a_plugin_without_the_capability_is_refused_and_changes_nothing() {
    let mut st = state();
    {
        let mut ctx = PluginContext::new(&mut st, String::new(), vec![PluginCapability::ReadSystemInfo]);
        match ctx.set_update_interval(5) {
            Err(PluginError::Recoverable(m)) => {
                assert_eq!(m, "plugin does not have required capability: ModifyConfig")
            }
            other => panic!("unexpected {other:?}"),
        }
        assert!(ctx.set_theme_by_name("grey").is_err());
        assert!(ctx.set_layout_by_name("Horizontal").is_err());
    }
    assert_eq!(st.update_interval_ms, 1000);
    assert_eq!(st.current_theme.name, "x");
    assert_eq!(st.layout_mode, LayoutMode::Dashboard);
}

#[test]
fn capability_checks_name_custom_capabilities_in_debug_form() {
    let mut st = state();
    let ctx = PluginContext::new(&mut st, String::new(), vec![PluginCapability::Custom("net".to_string())]);
    assert!(ctx.check_capability(&PluginCapability::Custom("net".to_string())).is_ok());
    match ctx.check_capability(&PluginCapability::Custom("a\"b".to_string())) {
        Err(PluginError::Recoverable(m)) => {
            assert_eq!(m, "plugin does not have required capability: Custom(\"a\\\"b\")")
        }
        other => panic!("unexpected {other:?}"),
    }
    assert_eq!(PluginCapability::KillProcesses.debug_string(), format!("{:?}", PluginCapability::KillProcesses));
    assert!(PluginCapability::RenderWidgets.same_as(&PluginCapability::RenderWidgets));
    assert!(!PluginCapability::RenderWidgets.same_as(&PluginCapability::KillProcesses));
}

#[test]
fn plugin_error_messages() {
    assert_eq!(PluginError::Recoverable("busy".to_string()).message(), "busy");
    assert_eq!(PluginError::Fatal("boom".to_string()).message(), "FATAL: boom");
    assert_eq!(PluginError::UnknownAction("x.y".to_string()).message(), "unknown action: x.y");
    match unknown_action("do.it") {
        PluginError::UnknownAction(a) => assert_eq!(a, "do.it"),
        other => panic!("unexpected {other:?}"),
    }
}

#[test]
fn host_routes_commands_by_id() {
    let ms = vec![
        manifest("a", vec![PluginCapability::ReadSystemInfo]),
        manifest("sentinel", vec![PluginCapability::RenderWidgets, PluginCapability::ReadSystemInfo]),
        manifest("sentinel", vec![]),
    ];
    assert_eq!(plugin_index(&ms, "sentinel"), Some(1));
    assert_eq!(plugin_index(&ms, "none"), None);
    match plugin_not_found("none") {
        PluginError::Recoverable(m) => assert_eq!(m, "plugin not found: none"),
        other => panic!("unexpected {other:?}"),
    }
    assert_eq!(plugins_granted(&ms, &PluginCapability::ReadSystemInfo), vec![0, 1]);
    assert_eq!(plugins_granted(&ms, &PluginCapability::RenderWidgets), vec![1]);
    assert!(plugins_granted(&ms, &PluginCapability::KillProcesses).is_empty());
    assert!(manifest_grants(&ms[1], &PluginCapability::RenderWidgets));
    assert!(!manifest_grants(&ms[2], &PluginCapability::RenderWidgets));
    assert_eq!(plugin_data_dir("/home/me/.config/xtop/plugins", "sentinel"), "/home/me/.config/xtop/plugins/sentinel");
}

#[test]
fn key_handler_answers() {
    assert_eq!(key_dispatch(&Ok(true)), KeyDispatch::Consumed);
    assert_eq!(key_dispatch(&Ok(false)), KeyDispatch::Next);
    assert_eq!(key_dispatch(&Err(PluginError::Fatal("x".to_string()))), KeyDispatch::Failed("FATAL: x".to_string()));
}

#[test]
fn plugin_errors_as_extension_errors() {
    assert_eq!(extension_error(PluginError::Recoverable("r".to_string())), ExtensionError::Recoverable("r".to_string()));
    assert_eq!(extension_error(PluginError::Fatal("f".to_string())), ExtensionError::Fatal("f".to_string()));
    assert_eq!(
        extension_error(PluginError::UnknownAction("a.b".to_string())),
        ExtensionError::Recoverable("unknown action: a.b".to_string())
    );
}

#[test]
fn noop_providers_are_plain_values() {
    let _ = NoopBatteryProvider::new();
    let _ = NoopDockerProvider::new();
    let _ = NoopGpuProvider::new();
    let _: NoopGpuProvider = Default::default();
}
