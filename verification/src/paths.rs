//! Where xtop keeps its files: the config directory of each platform and the
//! config file, themes and layouts under it. The environment is read by the
//! caller; these functions join the path from the values it found.

use vstd::prelude::*;
use crate::text::{chars_of, push_char};

verus! {

/// `PathBuf::join` on Unix: an absolute component replaces the base; otherwise
/// nothing is added to an empty base, and one `/` is put between them unless
/// the base already ends in one.
pub open spec fn unix_join(base: Seq<char>, part: Seq<char>) -> Seq<char> {
    if part.len() > 0 && part[0] == '/' {
        part
    } else if base.len() == 0 {
        part
    } else if base.last() == '/' {
        base + part
    } else {
        base.push('/') + part
    }
}

/// A Windows drive prefix alone, such as `C:`.
pub open spec fn is_bare_drive(base: Seq<char>) -> bool {
    base.len() == 2 && base[1] == ':' && (('a' <= base[0] <= 'z') || ('A' <= base[0] <= 'Z'))
}

/// `PathBuf::join` on Windows for a relative component: a `\\` is put between
/// them unless the base is empty, already ends in a separator, or is a bare
/// drive prefix such as `C:`.
pub open spec fn windows_join(base: Seq<char>, part: Seq<char>) -> Seq<char> {
    if base.len() == 0 || base.last() == '/' || base.last() == '\\' || is_bare_drive(base) {
        base + part
    } else {
        base.push('\\') + part
    }
}

fn append_str(s: &mut String, t: &str)
    ensures
        final(s)@ == old(s)@ + t@,
{
    s.append(t);
}

/// Join a component to a Unix path (`Path::join`).
pub fn join_unix(base: &str, part: &str) -> (r: String)
    ensures
        r@ == unix_join(base@, part@),
{
    let pc = chars_of(part);
    if pc.len() > 0 && pc[0] == '/' {
        return part.to_string();
    }
    let b = chars_of(base);
    let mut r = String::new();
    append_str(&mut r, base);
    if b.len() > 0 && b[b.len() - 1] != '/' {
        push_char(&mut r, '/');
    }
    append_str(&mut r, part);
    proof {
        assert(r@ =~= unix_join(base@, part@)) by {
            reveal_strlit("");
        }
    }
    r
}

/// Join a relative component to a Windows path.
pub fn join_windows(base: &str, part: &str) -> (r: String)
    ensures
        r@ == windows_join(base@, part@),
{
    let b = chars_of(base);
    let n = b.len();
    let mut r = String::new();
    append_str(&mut r, base);
    let bare_drive = n == 2 && b[1] == ':' && (('a' <= b[0] && b[0] <= 'z') || ('A' <= b[0] && b[0] <= 'Z'));
    if n > 0 && b[n - 1] != '/' && b[n - 1] != '\\' && !bare_drive {
        push_char(&mut r, '\\');
    }
    append_str(&mut r, part);
    assert(r@ =~= windows_join(base@, part@));
    r
}

/// The config directory xtop used before the platform split:
/// `$XDG_CONFIG_HOME/xtop`, else `$HOME/.config/xtop`, else `./.config/xtop`.
pub open spec fn spec_config_dir(xdg_config_home: Option<Seq<char>>, home: Option<Seq<char>>) -> Seq<char> {
    match xdg_config_home {
        Some(x) => unix_join(x, "xtop"@),
        None => unix_join(unix_join(match home { Some(h) => h, None => "."@ }, ".config"@), "xtop"@),
    }
}

/// The config directory from the values of `XDG_CONFIG_HOME` and `HOME`
/// (`None` for a variable that is unset or not valid Unicode).
pub fn config_dir(xdg_config_home: Option<&str>, home: Option<&str>) -> (r: String)
    ensures
        r@ == spec_config_dir(
            match xdg_config_home { Some(x) => Some(x@), None => None },
            match home { Some(h) => Some(h@), None => None },
        ),
{
    match xdg_config_home {
        Some(x) => join_unix(x, "xtop"),
        None => {
            let base = match home {
                Some(h) => join_unix(h, ".config"),
                None => join_unix(".", ".config"),
            };
            join_unix(base.as_str(), "xtop")
        },
    }
}

/// The config file inside a config directory: `<dir>/config.json`.
pub fn config_path(config_dir: &str) -> (r: String)
    ensures
        r@ == unix_join(config_dir@, "config.json"@),
{
    join_unix(config_dir, "config.json")
}

/// The directory of `kind` (`themes` or `layouts`) under the config dir:
/// `$XDG_CONFIG_HOME/xtop/<kind>`, else `$HOME/.config/xtop/<kind>`, else
/// `./.config/xtop/<kind>`.
pub open spec fn spec_asset_dir(
    xdg_config_home: Option<Seq<char>>,
    home: Option<Seq<char>>,
    kind: Seq<char>,
) -> Seq<char> {
    unix_join(spec_config_dir(xdg_config_home, home), kind)
}

/// The user themes directory from `XDG_CONFIG_HOME` and `HOME`.
pub fn themes_dir(xdg_config_home: Option<&str>, home: Option<&str>) -> (r: String)
    ensures
        r@ == spec_asset_dir(
            match xdg_config_home { Some(x) => Some(x@), None => None },
            match home { Some(h) => Some(h@), None => None },
            "themes"@,
        ),
{
    let dir = config_dir(xdg_config_home, home);
    join_unix(dir.as_str(), "themes")
}

/// The user layouts directory from `XDG_CONFIG_HOME` and `HOME`.
pub fn layouts_dir(xdg_config_home: Option<&str>, home: Option<&str>) -> (r: String)
    ensures
        r@ == spec_asset_dir(
            match xdg_config_home { Some(x) => Some(x@), None => None },
            match home { Some(h) => Some(h@), None => None },
            "layouts"@,
        ),
{
    let dir = config_dir(xdg_config_home, home);
    join_unix(dir.as_str(), "layouts")
}

} // verus!
