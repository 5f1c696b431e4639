//! The config directory of each platform. The caller reads the environment
//! variables (unset variables are `None`) and picks the function of its OS.

pub mod linux;
pub mod macos;
pub mod other;
pub mod windows;
