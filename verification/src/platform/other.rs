//! Other Unix-likes: `$HOME/.config/xtop`.

use vstd::prelude::*;
use crate::paths::{join_unix, unix_join};

verus! {

/// The config directory from `HOME` (the relative `.config/xtop` when unset).
pub fn config_dir(home: Option<&str>) -> (r: String)
    ensures
        r@ == unix_join(
            unix_join(match home { Some(h) => h@, None => Seq::empty() }, ".config"@),
            "xtop"@,
        ),
{
    let base = match home {
        Some(h) => join_unix(h, ".config"),
        None => join_unix("", ".config"),
    };
    proof {
        reveal_strlit("");
    }
    join_unix(base.as_str(), "xtop")
}

} // verus!
