//! The text processing behind the command-line subcommands: reading the
//! kernel manifest and pack catalog, and the edits `install` makes to them.

pub mod cli;
pub mod install;
pub mod layouts;
pub mod plugins;
pub mod scaffold;
pub mod source;
pub mod workspace;
pub mod widget_list;
