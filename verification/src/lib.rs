//! Verified core of the xtop system monitor: layout modes, themes,
//! keybindings, configuration paths and the text processing behind the
//! plugin and widget-pack commands.

pub mod assets;
pub mod commands;
pub mod jsonc;
pub mod keybinding;
pub mod layout;
pub mod mcp;
pub mod paths;
pub mod plugin;
pub mod plugin_host;
pub mod providers;
pub mod platform;
pub mod screen;
pub mod state;
pub mod style;
pub mod sysparse;
pub mod text;
pub mod theme;
