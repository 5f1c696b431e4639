//! macOS: `$HOME/Library/Application Support/xtop`.

use vstd::prelude::*;
use crate::paths::{join_unix, unix_join};

verus! {

/// The macOS config directory from `HOME` (relative to `.` when unset).
pub fn config_dir(home: Option<&str>) -> (r: String)
    ensures
        r@ == unix_join(
            unix_join(
                unix_join(match home { Some(h) => h@, None => "."@ }, "Library"@),
                "Application Support"@,
            ),
            "xtop"@,
        ),
{
    let base = match home {
        Some(h) => join_unix(h, "Library"),
        None => join_unix(".", "Library"),
    };
    let support = join_unix(base.as_str(), "Application Support");
    join_unix(support.as_str(), "xtop")
}

} // verus!
