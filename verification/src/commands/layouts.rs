//! `xtop layout install <name>`: which file of the community layouts folder
//! is the one asked for. A file qualifies when it is a `.json` or `.jsonc`
//! file whose stem, or whose layout name, equals the requested name ignoring
//! case. The caller clones the repository, lists the folder, parses each
//! file and copies the chosen one.

use vstd::prelude::*;
use crate::commands::source::{file_extension, file_stem, path_extension, path_file_stem};
use crate::text::{chars_of, lowercase_of, str_eq, str_lowercase};

verus! {

/// The community layouts repository.
pub const LAYOUTS_REPO: &'static str = "https://github.com/xtop-cli/layouts";

/// The comparison keys of a file of the layouts folder: whether it is a
/// layout file (`.json` or `.jsonc`), its stem lower-cased, and its layout
/// name lower-cased when it parses.
pub struct LayoutKeys {
    pub is_layout: bool,
    pub stem: String,
    pub name: Option<String>,
}

/// Whether a file name has the `.json` or `.jsonc` extension.
pub open spec fn is_layout_file(file: Seq<char>) -> bool {
    file_extension(file) == Some("json"@) || file_extension(file) == Some("jsonc"@)
}

fn has_layout_extension(file: &str) -> (r: bool)
    ensures
        r == is_layout_file(file@),
{
    proof {
        reveal_strlit("json");
        reveal_strlit("jsonc");
    }
    match path_extension(file) {
        None => false,
        Some(e) => str_eq(e.as_str(), "json") || str_eq(e.as_str(), "jsonc"),
    }
}

/// The stem of a file name, empty when it has none.
pub open spec fn stem_or_empty(file: Seq<char>) -> Seq<char> {
    match file_stem(file) {
        Some(s) => s,
        None => Seq::empty(),
    }
}

/// The comparison keys of a listed file and the name its content parses to
/// (none when it does not parse as a layout).
pub fn layout_keys(file: &str, parsed_name: Option<&str>) -> (r: LayoutKeys)
    ensures
        r.is_layout == is_layout_file(file@),
        r.stem@ == str_lowercase(stem_or_empty(file@)),
        match parsed_name {
            Some(n) => r.name matches Some(m) && m@ == str_lowercase(n@),
            None => r.name is None,
        },
{
    let stem = match path_file_stem(file) {
        Some(s) => s,
        None => String::new(),
    };
    LayoutKeys {
        is_layout: has_layout_extension(file),
        stem: lowercase_of(stem.as_str()),
        name: match parsed_name {
            Some(n) => Some(lowercase_of(n)),
            None => None,
        },
    }
}

/// Whether the keys of a file match the lower-cased requested name.
pub open spec fn keys_match(k: LayoutKeys, needle: Seq<char>) -> bool {
    k.is_layout && (k.stem@ == needle || (k.name matches Some(n) && n@ == needle))
}

/// The first file whose keys match the lower-cased requested name.
pub fn first_matching_layout(keys: &Vec<LayoutKeys>, needle: &str) -> (r: Option<usize>)
    ensures
        match r {
            Some(i) => i < keys@.len() && keys_match(keys@[i as int], needle@) && forall|j: int|
                0 <= j < i ==> !keys_match(#[trigger] keys@[j], needle@),
            None => forall|j: int| 0 <= j < keys@.len() ==> !keys_match(#[trigger] keys@[j], needle@),
        },
{
    for i in 0..keys.len()
        invariant
            forall|j: int| 0 <= j < i ==> !keys_match(#[trigger] keys@[j], needle@),
    {
        let k = &keys[i];
        let hit = k.is_layout && (str_eq(k.stem.as_str(), needle) || match &k.name {
            Some(n) => str_eq(n.as_str(), needle),
            None => false,
        });
        if hit {
            return Some(i);
        }
    }
    None
}

/// The file of the listing to install for `name`: `files[i]` is a file name
/// of the layouts folder and `parsed_names[i]` the layout name its content
/// parses to. The first `.json`/`.jsonc` file whose stem or layout name
/// equals `name` ignoring case is chosen.
pub fn find_layout(files: &Vec<String>, parsed_names: &Vec<Option<String>>, name: &str) -> (r: Option<usize>)
    requires
        files@.len() == parsed_names@.len(),
    ensures
        match r {
            Some(i) => i < files@.len() && layout_matches(files@[i as int]@, parsed_names@[i as int], name@)
                && forall|j: int| 0 <= j < i ==> !layout_matches(#[trigger] files@[j]@, parsed_names@[j], name@),
            None => forall|j: int|
                0 <= j < files@.len() ==> !layout_matches(#[trigger] files@[j]@, parsed_names@[j], name@),
        },
{
    let needle = lowercase_of(name);
    let mut keys: Vec<LayoutKeys> = Vec::new();
    for i in 0..files.len()
        invariant
            files@.len() == parsed_names@.len(),
            needle@ == str_lowercase(name@),
            keys@.len() == i,
            forall|j: int| 0 <= j < i ==> (keys_match(#[trigger] keys@[j], needle@) <==> layout_matches(
                files@[j]@,
                parsed_names@[j],
                name@,
            )),
    {
        let parsed = match &parsed_names[i] {
            Some(n) => Some(n.as_str()),
            None => None,
        };
        let k = layout_keys(files[i].as_str(), parsed);
        keys.push(k);
    }
    let r = first_matching_layout(&keys, needle.as_str());
    proof {
        assert forall|j: int| 0 <= j < files@.len() implies (keys_match(keys@[j], needle@) <==> layout_matches(
            #[trigger] files@[j]@,
            parsed_names@[j],
            name@,
        )) by {}
    }
    r
}

/// A listed file is the layout asked for: a `.json`/`.jsonc` file whose
/// stem, or whose parsed layout name, lower-cases to the lower-cased name.
pub open spec fn layout_matches(file: Seq<char>, parsed_name: Option<String>, name: Seq<char>) -> bool {
    is_layout_file(file) && (str_lowercase(stem_or_empty(file)) == str_lowercase(name) || (parsed_name matches Some(
        n,
    ) && str_lowercase(n@) == str_lowercase(name)))
}

} // verus!
