//! Plugin metadata and errors, and the plugin context: the capability check
//! that guards every change a plugin makes to the application state.

use vstd::prelude::*;
use crate::state::{first_theme_named, mode_named, select_theme, AppState, AppStateView};
use crate::text::str_eq;

verus! {

/// What a plugin may do; declared in its manifest and checked on each call.
#[derive(Clone, Debug)]
#[non_exhaustive]
pub enum PluginCapability {
    /// Read system metrics (CPU, memory, network, disks, processes).
    ReadSystemInfo,
    /// Terminate processes.
    KillProcesses,
    /// Modify configuration (themes, layouts, alerts, interval).
    ModifyConfig,
    /// Register custom widgets in the TUI.
    RenderWidgets,
    /// Anything not covered above.
    Custom(String),
}

impl PluginCapability {
    /// Two capabilities are the same: the same variant, and for `Custom` the
    /// same text.
    pub open spec fn same(&self, other: &PluginCapability) -> bool {
        match (self, other) {
            (PluginCapability::ReadSystemInfo, PluginCapability::ReadSystemInfo) => true,
            (PluginCapability::KillProcesses, PluginCapability::KillProcesses) => true,
            (PluginCapability::ModifyConfig, PluginCapability::ModifyConfig) => true,
            (PluginCapability::RenderWidgets, PluginCapability::RenderWidgets) => true,
            (PluginCapability::Custom(a), PluginCapability::Custom(b)) => a@ == b@,
            _ => false,
        }
    }

    /// The `{:?}` text of the capability.
    pub open spec fn debug_text(&self) -> Seq<char> {
        match self {
            PluginCapability::ReadSystemInfo => "ReadSystemInfo"@,
            PluginCapability::KillProcesses => "KillProcesses"@,
            PluginCapability::ModifyConfig => "ModifyConfig"@,
            PluginCapability::RenderWidgets => "RenderWidgets"@,
            PluginCapability::Custom(s) => "Custom("@ + spec_debug_str(s@) + ")"@,
        }
    }

    /// Whether the two capabilities are the same (see `same`).
    pub fn same_as(&self, other: &PluginCapability) -> (r: bool)
        ensures
            r == self.same(other),
    {
        match (self, other) {
            (PluginCapability::ReadSystemInfo, PluginCapability::ReadSystemInfo) => true,
            (PluginCapability::KillProcesses, PluginCapability::KillProcesses) => true,
            (PluginCapability::ModifyConfig, PluginCapability::ModifyConfig) => true,
            (PluginCapability::RenderWidgets, PluginCapability::RenderWidgets) => true,
            (PluginCapability::Custom(a), PluginCapability::Custom(b)) => str_eq(a.as_str(), b.as_str()),
            _ => false,
        }
    }

    /// The `{:?}` text of the capability, as the error messages show it.
    pub fn debug_string(&self) -> (r: String)
        ensures
            r@ == self.debug_text(),
    {
        match self {
            PluginCapability::ReadSystemInfo => "ReadSystemInfo".to_string(),
            PluginCapability::KillProcesses => "KillProcesses".to_string(),
            PluginCapability::ModifyConfig => "ModifyConfig".to_string(),
            PluginCapability::RenderWidgets => "RenderWidgets".to_string(),
            PluginCapability::Custom(s) => {
                let mut r = "Custom(".to_string();
                let d = debug_str(s.as_str());
                r.append(d.as_str());
                r.append(")");
                proof {
                    reveal_strlit("Custom(");
                    reveal_strlit(")");
                }
                r
            },
        }
    }
}

/// What `{:?}` prints for a string: the text in double quotes with quotes,
/// backslashes and non-printable characters escaped.
pub uninterp spec fn spec_debug_str(s: Seq<char>) -> Seq<char>;

/// The `Debug` formatting of `str` (`format!("{:?}", s)`); its result is a
/// function of the text alone.
#[verifier::external_body]
fn debug_str(s: &str) -> (r: String)
    ensures
        r@ == spec_debug_str(s@),
{
    format!("{:?}", s)
}

/// Static metadata about a plugin.
#[derive(Clone, Debug)]
pub struct PluginManifest {
    pub id: String,
    pub name: String,
    pub version: String,
    pub description: String,
    pub capabilities: Vec<PluginCapability>,
}

/// Error type for plugin operations.
#[derive(Debug)]
pub enum PluginError {
    /// A recoverable error (e.g. invalid params, resource busy).
    Recoverable(String),
    /// A fatal error (the plugin should be disabled).
    Fatal(String),
    /// Action not understood by this plugin.
    UnknownAction(String),
}

/// The message shown for a plugin error.
pub open spec fn error_message(e: PluginError) -> Seq<char> {
    match e {
        PluginError::Recoverable(m) => m@,
        PluginError::Fatal(m) => "FATAL: "@ + m@,
        PluginError::UnknownAction(a) => "unknown action: "@ + a@,
    }
}

impl PluginError {
    /// The message shown for the error: the text itself, `FATAL: <text>`, or
    /// `unknown action: <action>`.
    pub fn message(&self) -> (r: String)
        ensures
            r@ == error_message(*self),
    {
        match self {
            PluginError::Recoverable(m) => m.clone(),
            PluginError::Fatal(m) => {
                let mut r = "FATAL: ".to_string();
                r.append(m.as_str());
                r
            },
            PluginError::UnknownAction(a) => {
                let mut r = "unknown action: ".to_string();
                r.append(a.as_str());
                r
            },
        }
    }
}

/// Whether a capability list grants `cap`.
pub open spec fn grants(caps: Seq<PluginCapability>, cap: PluginCapability) -> bool {
    exists|i: int| 0 <= i < caps.len() && (#[trigger] caps[i]).same(&cap)
}

/// The message of the error a plugin gets for a capability it lacks.
pub open spec fn missing_capability_message(cap: PluginCapability) -> Seq<char> {
    "plugin does not have required capability: "@ + cap.debug_text()
}

/// What a plugin sees while one of its hooks runs: the application state,
/// its own data directory and the capabilities its manifest declares.
pub struct PluginContext<'a> {
    pub state: &'a mut AppState,
    pub plugin_data_dir: String,
    pub capabilities: Vec<PluginCapability>,
}

impl<'a> PluginContext<'a> {
    /// A context over `state` for a plugin with this data directory and
    /// these capabilities.
    pub fn new(state: &'a mut AppState, plugin_data_dir: String, capabilities: Vec<PluginCapability>) -> (r: Self)
        ensures
            *r.state == *old(state),
            *final(r.state) == *final(state),
            r.plugin_data_dir@ == plugin_data_dir@,
            r.capabilities@ == capabilities@,
    {
        PluginContext { state, plugin_data_dir, capabilities }
    }

    /// `Ok` when the manifest declares `cap`, else a recoverable error that
    /// names it.
    pub fn check_capability(&self, cap: &PluginCapability) -> (r: Result<(), PluginError>)
        ensures
            r is Ok <==> grants(self.capabilities@, *cap),
            r matches Err(e) ==> e matches PluginError::Recoverable(m) && m@ == missing_capability_message(*cap),
    {
        let mut i: usize = 0;
        while i < self.capabilities.len()
            invariant
                0 <= i <= self.capabilities.len(),
                forall|j: int| 0 <= j < i ==> !(#[trigger] self.capabilities@[j]).same(cap),
            decreases self.capabilities.len() - i,
        {
            if self.capabilities[i].same_as(cap) {
                return Ok(());
            }
            i = i + 1;
        }
        let mut m = "plugin does not have required capability: ".to_string();
        let d = cap.debug_string();
        m.append(d.as_str());
        proof {
            reveal_strlit("plugin does not have required capability: ");
        }
        Err(PluginError::Recoverable(m))
    }

    /// Switch to a theme by name; `Ok(true)` when found. Requires
    /// `ModifyConfig`.
    pub fn set_theme_by_name(&mut self, name: &str) -> (r: Result<bool, PluginError>)
        requires
            (*old(self).state).inv(),
        ensures
            (*final(self).state).inv(),
            *final(final(self).state) == *final(old(self).state),
            final(self).capabilities@ == old(self).capabilities@,
            final(self).plugin_data_dir@ == old(self).plugin_data_dir@,
            r is Ok <==> grants(old(self).capabilities@, PluginCapability::ModifyConfig),
            r matches Err(e) ==> e matches PluginError::Recoverable(m)
                && m@ == missing_capability_message(PluginCapability::ModifyConfig)
                && (*final(self).state)@ == (*old(self).state)@,
            r matches Ok(found) ==> {
                &&& found == first_theme_named((*old(self).state).themes@, name@) is Some
                &&& match first_theme_named((*old(self).state).themes@, name@) {
                    Some(i) => (*final(self).state)@ == select_theme((*old(self).state)@, i),
                    None => (*final(self).state)@ == (*old(self).state)@,
                }
            },
    {
        match self.check_capability(&PluginCapability::ModifyConfig) {
            Err(e) => Err(e),
            Ok(()) => Ok(self.state.set_theme_by_name(name)),
        }
    }

    /// Switch to a layout by its label; `Ok(true)` when found. Requires
    /// `ModifyConfig`.
    pub fn set_layout_by_name(&mut self, name: &str) -> (r: Result<bool, PluginError>)
        ensures
            *final(final(self).state) == *final(old(self).state),
            final(self).capabilities@ == old(self).capabilities@,
            final(self).plugin_data_dir@ == old(self).plugin_data_dir@,
            r is Ok <==> grants(old(self).capabilities@, PluginCapability::ModifyConfig),
            r matches Err(e) ==> e matches PluginError::Recoverable(m)
                && m@ == missing_capability_message(PluginCapability::ModifyConfig)
                && (*final(self).state)@ == (*old(self).state)@,
            r matches Ok(found) ==> {
                &&& found == mode_named(name@) is Some
                &&& match mode_named(name@) {
                    Some(m) => (*final(self).state)@ == (AppStateView { layout_mode: m, ..(*old(self).state)@ }),
                    None => (*final(self).state)@ == (*old(self).state)@,
                }
            },
    {
        match self.check_capability(&PluginCapability::ModifyConfig) {
            Err(e) => Err(e),
            Ok(()) => Ok(self.state.set_layout_by_name(name)),
        }
    }

    /// Set the update interval in milliseconds. Requires `ModifyConfig`.
    pub fn set_update_interval(&mut self, ms: u64) -> (r: Result<(), PluginError>)
        ensures
            *final(final(self).state) == *final(old(self).state),
            final(self).capabilities@ == old(self).capabilities@,
            final(self).plugin_data_dir@ == old(self).plugin_data_dir@,
            r is Ok <==> grants(old(self).capabilities@, PluginCapability::ModifyConfig),
            r matches Err(e) ==> e matches PluginError::Recoverable(m)
                && m@ == missing_capability_message(PluginCapability::ModifyConfig)
                && (*final(self).state)@ == (*old(self).state)@,
            r is Ok ==> (*final(self).state)@ == (AppStateView { update_interval_ms: ms, ..(*old(self).state)@ }),
    {
        match self.check_capability(&PluginCapability::ModifyConfig) {
            Err(e) => Err(e),
            Ok(()) => {
                self.state.update_interval_ms = ms;
                Ok(())
            },
        }
    }

    /// The plugin's own data directory.
    pub fn data_dir(&self) -> (r: &str)
        ensures
            r@ == self.plugin_data_dir@,
    {
        self.plugin_data_dir.as_str()
    }

    /// The application state, read-only.
    pub fn state(&self) -> (r: &AppState)
        ensures
            *r == *old(self.state),
    {
        self.state
    }
}

} // verus!
