//! The example themes xtop seeds into the user config directory, and when a
//! directory needs seeding. The template texts ship with the binary; the
//! caller writes the files.

use vstd::prelude::*;
use crate::text::{chars_of, str_eq, trim, trim_range};
use vstd::string::StrSliceExecFns;

verus! {

/// The version of the seeded templates, written to the `.xtop_initialized`
/// marker. Bumped when the shipped defaults change, so existing installs get
/// new templates (files the user edited are never overwritten).
pub const ASSETS_VERSION: &'static str = "2";

/// The name of the marker file in a seeded directory.
pub const SEED_MARKER: &'static str = ".xtop_initialized";

/// The shipped example themes, in seeding order.
pub open spec fn spec_default_theme_names() -> Seq<Seq<char>> {
    seq![
        "x"@, "madrid"@, "lahabana"@, "paris"@, "tokio"@, "oslo"@, "helsinki"@, "berlin"@,
        "london"@, "praha"@, "bogota"@, "miami"@,
    ]
}

/// The names of the shipped example themes, in seeding order.
pub fn default_theme_names() -> (r: Vec<&'static str>)
    ensures
        r@.map_values(|s: &str| s@) == spec_default_theme_names(),
{
    let r = vec![
        "x", "madrid", "lahabana", "paris", "tokio", "oslo", "helsinki", "berlin", "london", "praha",
        "bogota", "miami",
    ];
    assert(r@.map_values(|s: &str| s@) =~= spec_default_theme_names());
    r
}

/// A directory is up to date when its marker file exists and holds the
/// current version (surrounding whitespace ignored).
pub open spec fn spec_assets_up_to_date(marker: Option<Seq<char>>) -> bool {
    match marker {
        Some(m) => trim(m) == ASSETS_VERSION@,
        None => false,
    }
}

/// Whether a directory with this marker content (`None`: no readable
/// marker) needs no seeding.
pub fn assets_up_to_date(marker: Option<&str>) -> (r: bool)
    ensures
        r == spec_assets_up_to_date(match marker { Some(m) => Some(m@), None => None }),
{
    match marker {
        None => false,
        Some(m) => {
            let c = chars_of(m);
            let (a, b) = trim_range(&c, 0, c.len());
            proof {
                assert(c@.subrange(0, c@.len() as int) =~= m@);
            }
            str_eq(m.substring_char(a, b), ASSETS_VERSION)
        },
    }
}

/// The file a template is seeded to: `<name>.jsonc`.
pub fn seed_file_name(name: &str) -> (r: String)
    ensures
        r@ == name@ + ".jsonc"@,
{
    let mut r = name.to_string();
    r.append(".jsonc");
    r
}

} // verus!
