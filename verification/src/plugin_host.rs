//! The host side of plugins: which plugin a command is routed to, which
//! plugins may contribute data providers or widgets, where a plugin keeps
//! its data, what a key handler's answer means for dispatch, and how plugin
//! errors are reported to extensions. The caller holds the plugin objects
//! and calls their hooks.

use vstd::prelude::*;
use crate::paths::{join_unix, unix_join};
use crate::plugin::{grants, PluginCapability, PluginError, PluginManifest};
use crate::text::str_eq;

verus! {

/// The views of the plugin ids.
pub open spec fn id_views(manifests: Seq<PluginManifest>) -> Seq<Seq<char>> {
    manifests.map_values(|m: PluginManifest| m.id@)
}

/// The first plugin whose manifest has this id.
pub fn plugin_index(manifests: &Vec<PluginManifest>, id: &str) -> (r: Option<usize>)
    ensures
        match r {
            Some(i) => i < manifests@.len() && manifests@[i as int].id@ == id@ && forall|j: int|
                0 <= j < i ==> (#[trigger] manifests@[j]).id@ != id@,
            None => forall|j: int| 0 <= j < manifests@.len() ==> (#[trigger] manifests@[j]).id@ != id@,
        },
{
    for i in 0..manifests.len()
        invariant
            forall|j: int| 0 <= j < i ==> (#[trigger] manifests@[j]).id@ != id@,
    {
        if str_eq(manifests[i].id.as_str(), id) {
            return Some(i);
        }
    }
    None
}

/// The error of a command for a plugin that is not loaded:
/// `plugin not found: <id>`.
pub fn plugin_not_found(id: &str) -> (r: PluginError)
    ensures
        r matches PluginError::Recoverable(m) && m@ == "plugin not found: "@ + id@,
{
    let mut m = "plugin not found: ".to_string();
    m.append(id);
    PluginError::Recoverable(m)
}

/// Whether the manifest declares `cap`.
pub fn manifest_grants(manifest: &PluginManifest, cap: &PluginCapability) -> (r: bool)
    ensures
        r == grants(manifest.capabilities@, *cap),
{
    for i in 0..manifest.capabilities.len()
        invariant
            forall|j: int| 0 <= j < i ==> !(#[trigger] manifest.capabilities@[j]).same(cap),
    {
        if manifest.capabilities[i].same_as(cap) {
            return true;
        }
    }
    false
}

/// The plugins, in order, whose manifests declare `cap`: only they may add
/// data providers (`ReadSystemInfo`) or widgets (`RenderWidgets`).
pub fn plugins_granted(manifests: &Vec<PluginManifest>, cap: &PluginCapability) -> (r: Vec<usize>)
    ensures
        forall|k: int| 0 <= k < r@.len() ==> (#[trigger] r@[k]) < manifests@.len(),
        forall|k: int, l: int| 0 <= k < l < r@.len() ==> r@[k] < r@[l],
        forall|i: int|
            0 <= i < manifests@.len() ==> (grants(manifests@[i].capabilities@, *cap) <==> r@.contains(i as usize)),
{
    let mut r: Vec<usize> = Vec::new();
    for i in 0..manifests.len()
        invariant
            forall|k: int| 0 <= k < r@.len() ==> (#[trigger] r@[k]) < i,
            forall|k: int, l: int| 0 <= k < l < r@.len() ==> r@[k] < r@[l],
            forall|j: int| 0 <= j < i ==> (grants(manifests@[j].capabilities@, *cap) <==> r@.contains(j as usize)),
    {
        let ghost before = r@;
        if manifest_grants(&manifests[i], cap) {
            r.push(i);
            proof {
                assert(r@[r@.len() - 1] == i);
            }
        }
        proof {
            assert forall|j: int| 0 <= j < i + 1 implies (grants(manifests@[j].capabilities@, *cap) <==> r@.contains(
                j as usize,
            )) by {
                if j < i {
                    if before.contains(j as usize) {
                        let k = choose|k: int| 0 <= k < before.len() && before[k] == j as usize;
                        assert(r@[k] == j as usize);
                    }
                    if r@.contains(j as usize) {
                        let k = choose|k: int| 0 <= k < r@.len() && r@[k] == j as usize;
                        if k < before.len() {
                            assert(before[k] == j as usize);
                        }
                    }
                } else {
                    if r@.contains(j as usize) {
                        let k = choose|k: int| 0 <= k < r@.len() && r@[k] == j as usize;
                        if k < before.len() {
                            assert(before[k] < i);
                        }
                    }
                }
            }
        }
    }
    r
}

/// A plugin's data directory: its id under the plugins base directory.
pub fn plugin_data_dir(base: &str, id: &str) -> (r: String)
    ensures
        r@ == unix_join(base@, id@),
{
    join_unix(base, id)
}

/// What the host does after a plugin's key handler answered.
#[derive(Debug, PartialEq, Eq)]
pub enum KeyDispatch {
    /// The plugin consumed the key: stop, the key is handled.
    Consumed,
    /// The plugin did not want the key: ask the next one.
    Next,
    /// The handler failed: report this message and ask the next one.
    Failed(String),
}

/// The dispatch step for a key handler's answer.
pub fn key_dispatch(answer: &Result<bool, PluginError>) -> (r: KeyDispatch)
    ensures
        match answer {
            Ok(true) => r == KeyDispatch::Consumed,
            Ok(false) => r == KeyDispatch::Next,
            Err(e) => r matches KeyDispatch::Failed(m) && m@ == crate::plugin::error_message(*e),
        },
{
    match answer {
        Ok(true) => KeyDispatch::Consumed,
        Ok(false) => KeyDispatch::Next,
        Err(e) => KeyDispatch::Failed(e.message()),
    }
}

/// An error reported to an extension: recoverable or fatal.
#[derive(Debug, PartialEq, Eq)]
pub enum ExtensionError {
    Recoverable(String),
    Fatal(String),
}

/// A plugin error as an extension sees it: an unknown action becomes a
/// recoverable `unknown action: <action>`, the others keep their kind and
/// text.
pub fn extension_error(e: PluginError) -> (r: ExtensionError)
    ensures
        match e {
            PluginError::Recoverable(m) => r matches ExtensionError::Recoverable(t) && t@ == m@,
            PluginError::Fatal(m) => r matches ExtensionError::Fatal(t) && t@ == m@,
            PluginError::UnknownAction(a) => r matches ExtensionError::Recoverable(t) && t@ == "unknown action: "@
                + a@,
        },
{
    match e {
        PluginError::Recoverable(m) => ExtensionError::Recoverable(m),
        PluginError::Fatal(m) => ExtensionError::Fatal(m),
        PluginError::UnknownAction(a) => {
            let mut t = "unknown action: ".to_string();
            t.append(a.as_str());
            ExtensionError::Recoverable(t)
        },
    }
}

/// The default answer of a plugin to an action it does not implement.
pub fn unknown_action(action: &str) -> (r: PluginError)
    ensures
        r matches PluginError::UnknownAction(a) && a@ == action@,
{
    PluginError::UnknownAction(action.to_string())
}

} // verus!
