//! Linux: `$XDG_CONFIG_HOME/xtop`, falling back to `$HOME/.config/xtop`.

use vstd::prelude::*;
use crate::paths::{join_unix, spec_config_dir};

verus! {

/// The Linux config directory from `XDG_CONFIG_HOME` and `HOME` (`./.config/xtop`
/// when neither is set).
pub fn config_dir(xdg_config_home: Option<&str>, home: Option<&str>) -> (r: String)
    ensures
        r@ == spec_config_dir(
            match xdg_config_home { Some(x) => Some(x@), None => None },
            match home { Some(h) => Some(h@), None => None },
        ),
{
    let base = match xdg_config_home {
        Some(x) => x.to_string(),
        None => match home {
            Some(h) => join_unix(h, ".config"),
            None => join_unix(".", ".config"),
        },
    };
    join_unix(base.as_str(), "xtop")
}

} // verus!
