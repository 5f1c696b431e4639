use xtop::paths::{config_dir, config_path, join_unix, join_windows, layouts_dir, themes_dir};
use xtop::platform;

#[test]
fn unix_join_follows_path_join() {
    assert_eq!(join_unix("/home/me", "xtop"), "/home/me/xtop");
    assert_eq!(join_unix("/home/me/", "xtop"), "/home/me/xtop");
    assert_eq!(join_unix("", "xtop"), "xtop");
    assert_eq!(join_unix("/home/me", "/etc"), "/etc");
    assert_eq!(join_unix("/home/me", ""), "/home/me/");
}

#[test]
fn windows_join_follows_path_join() {
    assert_eq!(join_windows("C:\\Users\\me", "xtop"), "C:\\Users\\me\\xtop");
    assert_eq!(join_windows("C:\\Users\\me\\", "xtop"), "C:\\Users\\me\\xtop");
    assert_eq!(join_windows("C:", "xtop"), "C:xtop");
    assert_eq!(join_windows("", "xtop"), "xtop");
}

#[test]
fn config_locations_from_the_environment() {
    assert_eq!(config_dir(Some("/xdg"), Some("/home/me")), "/xdg/xtop");
    assert_eq!(config_dir(None, Some("/home/me")), "/home/me/.config/xtop");
    assert_eq!(config_dir(None, None), "./.config/xtop");
    assert_eq!(config_path("/xdg/xtop"), "/xdg/xtop/config.json");
    assert_eq!(themes_dir(None, Some("/h")), "/h/.config/xtop/themes");
    assert_eq!(layouts_dir(Some("/c"), None), "/c/xtop/layouts");
}

#[test]
fn platform_config_dirs() {
    assert_eq!(platform::linux::config_dir(None, Some("/home/me")), "/home/me/.config/xtop");
    assert_eq!(platform::macos::config_dir(Some("/Users/me")), "/Users/me/Library/Application Support/xtop");
    assert_eq!(platform::macos::config_dir(None), "./Library/Application Support/xtop");
    assert_eq!(platform::other::config_dir(None), ".config/xtop");
    assert_eq!(platform::windows::config_dir(Some("C:\\AppData")), "C:\\AppData\\xtop");
    assert_eq!(platform::windows::config_dir(None), "xtop");
}
