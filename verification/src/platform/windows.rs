//! Windows: `%APPDATA%\xtop`.

use vstd::prelude::*;
use crate::paths::{join_windows, windows_join};

verus! {

/// The Windows config directory from `APPDATA` (the relative `xtop` when unset).
pub fn config_dir(appdata: Option<&str>) -> (r: String)
    ensures
        r@ == windows_join(match appdata { Some(a) => a@, None => Seq::empty() }, "xtop"@),
{
    proof {
        reveal_strlit("");
    }
    match appdata {
        Some(a) => join_windows(a, "xtop"),
        None => join_windows("", "xtop"),
    }
}

} // verus!
