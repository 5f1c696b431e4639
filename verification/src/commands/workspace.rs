//! The plugin workflow of the workspace layout, where each plugin is a
//! workspace member under `plugins/` and a path dependency of the CLI crate:
//! listing the members, registering a new one, and the files of a plugin
//! scaffolded in place.

use vstd::prelude::*;
use crate::commands::scaffold::{capitalized, spec_capitalized};
use crate::text::{
    cat, chars_of, concat_views, contains_seq, contains_str, line_ranges, range_starts_with,
    ranges_texts, ranges_within, replace_all, replace_all_str, replace_first, replace_first_str,
    spec_lines, starts_with, trim, trim_range, find_from, lemma_find_from_found, lemma_occurs_found,
};
use vstd::string::StrSliceExecFns;

verus! {

/// Every leading `c` removed.
pub open spec fn strip_leading_char(s: Seq<char>, c: char) -> Seq<char>
    decreases s.len(),
{
    if s.len() > 0 && s[0] == c {
        strip_leading_char(s.skip(1), c)
    } else {
        s
    }
}

/// Every trailing `c` removed.
pub open spec fn strip_trailing_char(s: Seq<char>, c: char) -> Seq<char>
    decreases s.len(),
{
    if s.len() > 0 && s.last() == c {
        strip_trailing_char(s.drop_last(), c)
    } else {
        s
    }
}

/// `str::trim_matches(c)`: `c` removed from both ends.
pub open spec fn trim_char(s: Seq<char>, c: char) -> Seq<char> {
    strip_trailing_char(strip_leading_char(s, c), c)
}

/// The member path written on a trimmed line of the members list: commas,
/// then spaces, then quotes removed from both ends.
pub open spec fn member_path(t: Seq<char>) -> Seq<char> {
    trim_char(trim(trim_char(t, ',')), '"')
}

/// A member path that is a plugin crate.
pub open spec fn is_plugin_member(p: Seq<char>) -> bool {
    starts_with(p, "plugins/xtop-plugin-"@) || starts_with(p, "crates/xtop-plugin-"@)
}

/// The state of the members scan: inside the list, past its end, and the
/// plugin members found so far.
pub struct MembersScan {
    pub inside: bool,
    pub done: bool,
    pub found: Seq<Seq<char>>,
}

/// One line of the members scan: a line starting with `members` opens the
/// list, `]` closes it, and inside it every plugin member is kept.
pub open spec fn members_step(st: MembersScan, line: Seq<char>) -> MembersScan {
    let t = trim(line);
    if st.done {
        st
    } else if starts_with(t, "members"@) {
        MembersScan { inside: true, ..st }
    } else if !st.inside {
        st
    } else if t == "]"@ {
        MembersScan { done: true, ..st }
    } else if is_plugin_member(member_path(t)) {
        MembersScan { found: st.found.push(member_path(t)), ..st }
    } else {
        st
    }
}

/// The members scan over a list of lines.
pub open spec fn members_scan(lines: Seq<Seq<char>>) -> MembersScan
    decreases lines.len(),
{
    if lines.len() == 0 {
        MembersScan { inside: false, done: false, found: Seq::empty() }
    } else {
        members_step(members_scan(lines.drop_last()), lines.last())
    }
}

/// The plugin crates listed as workspace members (`plugins/xtop-plugin-*`
/// or `crates/xtop-plugin-*`), in order.
pub open spec fn spec_workspace_plugins(manifest: Seq<char>) -> Seq<Seq<char>> {
    members_scan(spec_lines(manifest)).found
}

/// `x` removed from both ends of `[lo, hi)` of `c`.
fn trim_char_range(c: &Vec<char>, lo: usize, hi: usize, x: char) -> (r: (usize, usize))
    requires
        lo <= hi <= c@.len(),
    ensures
        lo <= r.0 <= r.1 <= hi,
        c@.subrange(r.0 as int, r.1 as int) == trim_char(c@.subrange(lo as int, hi as int), x),
{
    let mut a = lo;
    assert(c@.subrange(lo as int, hi as int).skip(0) =~= c@.subrange(lo as int, hi as int));
    while a < hi && c[a] == x
        invariant
            lo <= a <= hi <= c@.len(),
            strip_leading_char(c@.subrange(lo as int, hi as int), x) == strip_leading_char(
                c@.subrange(a as int, hi as int),
                x,
            ),
        decreases hi - a,
    {
        assert(c@.subrange(a as int, hi as int).skip(1) =~= c@.subrange(a + 1, hi as int));
        a += 1;
    }
    let mut b = hi;
    while b > a && c[b - 1] == x
        invariant
            lo <= a <= b <= hi <= c@.len(),
            strip_trailing_char(c@.subrange(a as int, hi as int), x) == strip_trailing_char(
                c@.subrange(a as int, b as int),
                x,
            ),
        decreases b - a,
    {
        assert(c@.subrange(a as int, b as int).drop_last() =~= c@.subrange(a as int, b - 1));
        b -= 1;
    }
    (a, b)
}

/// Whether the range is exactly `]`.
fn is_close_bracket(c: &Vec<char>, lo: usize, hi: usize) -> (r: bool)
    requires
        lo <= hi <= c@.len(),
    ensures
        r == (c@.subrange(lo as int, hi as int) == "]"@),
{
    proof {
        reveal_strlit("]");
    }
    let r = hi - lo == 1 && c[lo] == ']';
    proof {
        let s = c@.subrange(lo as int, hi as int);
        if r {
            assert(s =~= "]"@);
        } else if s.len() == 1 {
            assert(s[0] != "]"@[0]);
        }
    }
    r
}

/// The plugin crates listed in the workspace `members` (see
/// `spec_workspace_plugins`).
pub fn workspace_plugins(manifest: &str) -> (r: Vec<String>)
    ensures
        r@.map_values(|s: String| s@) == spec_workspace_plugins(manifest@),
{
    let c = chars_of(manifest);
    let lines = line_ranges(&c);
    let ghost all = spec_lines(manifest@);
    let members = chars_of("members");
    let p1 = chars_of("plugins/xtop-plugin-");
    let p2 = chars_of("crates/xtop-plugin-");
    let mut inside = false;
    let mut done = false;
    let mut r: Vec<String> = Vec::new();
    proof {
        assert(all.take(0).len() == 0);
        assert(r@.map_values(|s: String| s@) =~= Seq::<Seq<char>>::empty());
    }
    for i in 0..lines.len()
        invariant
            c@ == manifest@,
            all == spec_lines(c@),
            ranges_texts(c@, lines@) == all,
            ranges_within(c@, lines@),
            members@ == "members"@,
            p1@ == "plugins/xtop-plugin-"@,
            p2@ == "crates/xtop-plugin-"@,
            members_scan(all.take(i as int)) == (MembersScan {
                inside,
                done,
                found: r@.map_values(|s: String| s@),
            }),
    {
        let (lo, hi) = lines[i];
        proof {
            assert(all[i as int] == c@.subrange(lo as int, hi as int));
            assert(all.take(i + 1).drop_last() =~= all.take(i as int));
        }
        let ghost before = r@;
        if !done {
            let (a, b) = trim_range(&c, lo, hi);
            if range_starts_with(&c, a, b, &members) {
                inside = true;
            } else if inside {
                if is_close_bracket(&c, a, b) {
                    done = true;
                } else {
                    let (x1, y1) = trim_char_range(&c, a, b, ',');
                    let (x2, y2) = trim_range(&c, x1, y1);
                    let (x3, y3) = trim_char_range(&c, x2, y2, '"');
                    if range_starts_with(&c, x3, y3, &p1) || range_starts_with(&c, x3, y3, &p2) {
                        r.push(manifest.substring_char(x3, y3).to_string());
                        proof {
                            assert(r@.map_values(|s: String| s@) =~= before.map_values(|s: String| s@).push(
                                c@.subrange(x3 as int, y3 as int),
                            ));
                        }
                    }
                }
            }
        }
    }
    proof {
        assert(all.take(lines@.len() as int) =~= all);
    }
    r
}

/// The members-list entry of a plugin directory: `    "plugins/<dir>"`.
pub open spec fn member_entry(dir: Seq<char>) -> Seq<char> {
    "    \"plugins/"@ + dir + "\""@
}

/// The workspace manifest with a plugin directory added to its members:
/// none when it is already listed; otherwise put after the anchor plugin's
/// entry when there is one, else before the first `]`.
pub open spec fn spec_add_workspace_member(ws: Seq<char>, dir: Seq<char>, anchor: Seq<char>) -> Option<Seq<char>> {
    let entry = member_entry(dir);
    if contains_seq(ws, entry) {
        None
    } else {
        let anchor_entry = "    \"plugins/xtop-plugin-"@ + anchor + "\","@;
        Some(
            if contains_seq(ws, anchor_entry) {
                replace_all(ws, anchor_entry, anchor_entry + "\n"@ + entry + ","@)
            } else {
                replace_first(ws, "]"@, "  "@ + entry + ",\n]"@)
            },
        )
    }
}

/// Add `plugins/<dir>` to the workspace members (see
/// `spec_add_workspace_member`); `None` when it is already a member.
/// `anchor` is the short name of the plugin whose entry the new one follows.
pub fn add_workspace_member(ws: &str, dir: &str, anchor: &str) -> (r: Option<String>)
    ensures
        match spec_add_workspace_member(ws@, dir@, anchor@) {
            Some(t) => r matches Some(s) && s@ == t,
            None => r is None,
        },
{
    let entry = cat(&["    \"plugins/", dir, "\""]);
    proof {
        reveal_with_fuel(concat_views, 4);
    }
    if contains_str(ws, entry.as_str()) {
        return None;
    }
    let anchor_entry = cat(&["    \"plugins/xtop-plugin-", anchor, "\","]);
    proof {
        reveal_with_fuel(concat_views, 4);
        reveal_strlit("    \"plugins/xtop-plugin-");
    }
    if contains_str(ws, anchor_entry.as_str()) {
        let with = cat(&[anchor_entry.as_str(), "\n", entry.as_str(), ","]);
        proof {
            reveal_with_fuel(concat_views, 5);
        }
        Some(replace_all_str(ws, anchor_entry.as_str(), with.as_str()))
    } else {
        let with = cat(&["  ", entry.as_str(), ",\n]"]);
        proof {
            reveal_with_fuel(concat_views, 4);
        }
        Some(replace_first_str(ws, "]", with.as_str()))
    }
}

/// A plugin directory is registered once: after it is added to a members
/// list that has the anchor entry or a closing `]`, adding it again is
/// refused.
pub proof fn lemma_member_added_once(ws: Seq<char>, dir: Seq<char>, anchor: Seq<char>)
    requires
        spec_add_workspace_member(ws, dir, anchor) is Some,
        contains_seq(ws, "    \"plugins/xtop-plugin-"@ + anchor + "\","@) || contains_seq(ws, "]"@),
    ensures
        spec_add_workspace_member(spec_add_workspace_member(ws, dir, anchor)->0, dir, anchor) is None,
{
    let entry = member_entry(dir);
    let anchor_entry = "    \"plugins/xtop-plugin-"@ + anchor + "\","@;
    let t = spec_add_workspace_member(ws, dir, anchor)->0;
    reveal_strlit("    \"plugins/xtop-plugin-");
    reveal_strlit("]");
    if contains_seq(ws, anchor_entry) {
        let with = anchor_entry + "\n"@ + entry + ","@;
        lemma_find_from_found(ws, anchor_entry, 0);
        let i = find_from(ws, anchor_entry, 0)->0;
        assert(anchor_entry.len() > 0);
        assert(t == ws.take(i) + with + replace_all(ws.skip(i + anchor_entry.len()), anchor_entry, with));
        reveal_strlit("\n");
        assert("\n"@.len() == 1);
        assert(t.subrange(i, i + with.len()) =~= with);
        let p = i + anchor_entry.len() + 1;
        assert(with.subrange(anchor_entry.len() + 1 as int, (anchor_entry.len() + 1 + entry.len()) as int) =~= entry);
        assert(t.subrange(p, p + entry.len()) =~= entry);
        lemma_occurs_found(t, entry, 0, p);
    } else {
        let with = "  "@ + entry + ",\n]"@;
        lemma_find_from_found(ws, "]"@, 0);
        let i = find_from(ws, "]"@, 0)->0;
        assert(t == ws.take(i) + with + ws.skip(i + 1));
        reveal_strlit("  ");
        assert("  "@.len() == 2);
        assert(t.subrange(i, i + with.len()) =~= with);
        let p = i + 2;
        assert(with.subrange(2, 2 + entry.len() as int) =~= entry);
        assert(t.subrange(p, p + entry.len()) =~= entry);
        lemma_occurs_found(t, entry, 0, p);
    }
}

/// The comment in the CLI manifest under which plugin path dependencies go.
pub const OPTIONAL_PLUGINS_MARKER: &'static str = "# Optional plugins (behind feature flags)";

/// The CLI manifest with a plugin wired in: its path dependency under the
/// marker comment (unless that exact line is there), and its feature line
/// (unless there) after the anchor plugin's feature, else right after
/// `[features]`.
pub open spec fn spec_add_cli_plugin(
    cli: Seq<char>,
    pkg: Seq<char>,
    dir: Seq<char>,
    feature: Seq<char>,
    anchor: Seq<char>,
) -> Seq<char> {
    let dep_line = pkg + " = { path = \"../../plugins/"@ + dir + "\", optional = true }"@;
    let marker = OPTIONAL_PLUGINS_MARKER@;
    let with_dep = if contains_seq(cli, dep_line) {
        cli
    } else {
        replace_all(cli, marker, marker + "\n"@ + dep_line)
    };
    let feature_line = feature + " = [\"dep:"@ + pkg + "\"]"@;
    let anchor_feature = "plugin-"@ + anchor + " = [\"dep:xtop-plugin-"@ + anchor + "\"]"@;
    if contains_seq(with_dep, feature_line) {
        with_dep
    } else if contains_seq(with_dep, anchor_feature) {
        replace_all(with_dep, anchor_feature, anchor_feature + "\n"@ + feature_line)
    } else {
        replace_first(with_dep, "[features]"@, "[features]\n"@ + feature_line)
    }
}

/// Wire a workspace plugin into the CLI manifest (see `spec_add_cli_plugin`).
pub fn add_cli_plugin(cli: &str, pkg: &str, dir: &str, feature: &str, anchor: &str) -> (r: String)
    ensures
        r@ == spec_add_cli_plugin(cli@, pkg@, dir@, feature@, anchor@),
{
    proof {
        reveal_strlit("# Optional plugins (behind feature flags)");
        reveal_strlit("plugin-");
    }
    let dep_line = cat(&[pkg, " = { path = \"../../plugins/", dir, "\", optional = true }"]);
    proof {
        reveal_with_fuel(concat_views, 5);
    }
    let with_dep = if contains_str(cli, dep_line.as_str()) {
        cli.to_string()
    } else {
        let with = cat(&[OPTIONAL_PLUGINS_MARKER, "\n", dep_line.as_str()]);
        proof {
            reveal_with_fuel(concat_views, 4);
        }
        replace_all_str(cli, OPTIONAL_PLUGINS_MARKER, with.as_str())
    };
    let feature_line = cat(&[feature, " = [\"dep:", pkg, "\"]"]);
    let anchor_feature = cat(&["plugin-", anchor, " = [\"dep:xtop-plugin-", anchor, "\"]"]);
    proof {
        reveal_with_fuel(concat_views, 6);
    }
    if contains_str(with_dep.as_str(), feature_line.as_str()) {
        with_dep
    } else if contains_str(with_dep.as_str(), anchor_feature.as_str()) {
        let with = cat(&[anchor_feature.as_str(), "\n", feature_line.as_str()]);
        proof {
            reveal_with_fuel(concat_views, 4);
        }
        replace_all_str(with_dep.as_str(), anchor_feature.as_str(), with.as_str())
    } else {
        let with = cat(&["[features]\n", feature_line.as_str()]);
        proof {
            reveal_with_fuel(concat_views, 3);
            reveal_strlit("[features]");
        }
        replace_first_str(with_dep.as_str(), "[features]", with.as_str())
    }
}

/// Where a plugin named on the command line is looked for in the cloned
/// repository: `plugins/xtop-plugin-<name>`, then `plugins/<name>`.
pub fn workspace_plugin_candidates(name: &str) -> (r: Vec<String>)
    ensures
        r@.len() == 2,
        r@[0]@ == "plugins/xtop-plugin-"@ + name@,
        r@[1]@ == "plugins/"@ + name@,
{
    let mut r = Vec::new();
    r.push(cat(&["plugins/xtop-plugin-", name]));
    r.push(cat(&["plugins/", name]));
    proof {
        reveal_with_fuel(concat_views, 3);
    }
    r
}

/// The `Cargo.toml` of a plugin scaffolded inside the workspace, part 1 of 3.
pub const WORKSPACE_PLUGIN_CARGO_TOML_0: &'static str = "[package]\nname = \"xtop-plugin-";

/// The `Cargo.toml` of a plugin scaffolded inside the workspace, part 2 of 3.
pub const WORKSPACE_PLUGIN_CARGO_TOML_1: &'static str = "\"\nversion.workspace = true\nedition.workspace = true\nlicense.workspace = true\ndescription = \"xtop plugin: ";

/// The `Cargo.toml` of a plugin scaffolded inside the workspace, part 3 of 3.
pub const WORKSPACE_PLUGIN_CARGO_TOML_2: &'static str = "\"\n\n[dependencies]\nxtop-core = { path = \"../../crates/xtop-core\" }\nratatui.workspace = true\n";

/// The `Cargo.toml` of a plugin scaffolded as a workspace member (versions inherited from the workspace).
pub open spec fn spec_workspace_plugin_cargo_toml(name: Seq<char>) -> Seq<char> {
    WORKSPACE_PLUGIN_CARGO_TOML_0@
        + name
        + WORKSPACE_PLUGIN_CARGO_TOML_1@
        + name
        + WORKSPACE_PLUGIN_CARGO_TOML_2@
}

/// The `Cargo.toml` of a plugin scaffolded as a workspace member (versions inherited from the workspace).
pub fn workspace_plugin_cargo_toml(name: &str) -> (r: String)
    ensures
        r@ == spec_workspace_plugin_cargo_toml(name@),
{
    let r = cat(&[
        WORKSPACE_PLUGIN_CARGO_TOML_0,
        name,
        WORKSPACE_PLUGIN_CARGO_TOML_1,
        name,
        WORKSPACE_PLUGIN_CARGO_TOML_2,
    ]);
    proof {
        reveal_with_fuel(concat_views, 6);
    }
    r
}

/// The `src/lib.rs` of a plugin scaffolded inside the workspace, part 1 of 8.
pub const WORKSPACE_PLUGIN_LIB_RS_0: &'static str = "use ";

/// The `src/lib.rs` of a plugin scaffolded inside the workspace, part 2 of 8.
pub const WORKSPACE_PLUGIN_LIB_RS_1: &'static str = "::{Plugin, PluginCapability, PluginContext, PluginError, PluginManifest};\n\npub struct ";

/// The `src/lib.rs` of a plugin scaffolded inside the workspace, part 3 of 8.
pub const WORKSPACE_PLUGIN_LIB_RS_2: &'static str = "Plugin;\n\nimpl ";

/// The `src/lib.rs` of a plugin scaffolded inside the workspace, part 4 of 8.
pub const WORKSPACE_PLUGIN_LIB_RS_3: &'static str = "Plugin {\n    pub fn new() -> Self {\n        Self\n    }\n}\n\nimpl Plugin for ";

/// The `src/lib.rs` of a plugin scaffolded inside the workspace, part 5 of 8.
pub const WORKSPACE_PLUGIN_LIB_RS_4: &'static str = "Plugin {\n    fn manifest(&self) -> PluginManifest {\n        PluginManifest {\n            id: \"";

/// The `src/lib.rs` of a plugin scaffolded inside the workspace, part 6 of 8.
pub const WORKSPACE_PLUGIN_LIB_RS_5: &'static str = "\".to_string(),\n            name: \"";

/// The `src/lib.rs` of a plugin scaffolded inside the workspace, part 7 of 8.
pub const WORKSPACE_PLUGIN_LIB_RS_6: &'static str = "\".to_string(),\n            version: \"0.1.0\".to_string(),\n            description: \"xtop plugin: ";

/// The `src/lib.rs` of a plugin scaffolded inside the workspace, part 8 of 8.
pub const WORKSPACE_PLUGIN_LIB_RS_7: &'static str = "\".to_string(),\n            capabilities: vec![PluginCapability::ReadSystemInfo],\n        }\n    }\n\n    fn on_tick(&mut self, _ctx: &mut PluginContext) -> Result<(), PluginError> {\n        Ok(())\n    }\n}\n";

/// The `src/lib.rs` of a plugin scaffolded as a workspace member; `api` is the module path the plugin contract is imported from.
pub open spec fn spec_workspace_plugin_lib_rs(name: Seq<char>, api: Seq<char>, cap: Seq<char>) -> Seq<char> {
    WORKSPACE_PLUGIN_LIB_RS_0@
        + api
        + WORKSPACE_PLUGIN_LIB_RS_1@
        + cap
        + WORKSPACE_PLUGIN_LIB_RS_2@
        + cap
        + WORKSPACE_PLUGIN_LIB_RS_3@
        + cap
        + WORKSPACE_PLUGIN_LIB_RS_4@
        + name
        + WORKSPACE_PLUGIN_LIB_RS_5@
        + cap
        + WORKSPACE_PLUGIN_LIB_RS_6@
        + name
        + WORKSPACE_PLUGIN_LIB_RS_7@
}

/// The `src/lib.rs` of a plugin scaffolded as a workspace member; `api` is the module path the plugin contract is imported from.
pub fn workspace_plugin_lib_rs(name: &str, api: &str) -> (r: String)
    ensures
        r@ == spec_workspace_plugin_lib_rs(name@, api@, spec_capitalized(name@)),
{
    let cap = capitalized(name);
    let r = cat(&[
        WORKSPACE_PLUGIN_LIB_RS_0,
        api,
        WORKSPACE_PLUGIN_LIB_RS_1,
        cap.as_str(),
        WORKSPACE_PLUGIN_LIB_RS_2,
        cap.as_str(),
        WORKSPACE_PLUGIN_LIB_RS_3,
        cap.as_str(),
        WORKSPACE_PLUGIN_LIB_RS_4,
        name,
        WORKSPACE_PLUGIN_LIB_RS_5,
        cap.as_str(),
        WORKSPACE_PLUGIN_LIB_RS_6,
        name,
        WORKSPACE_PLUGIN_LIB_RS_7,
    ]);
    proof {
        reveal_with_fuel(concat_views, 16);
    }
    r
}

} // verus!
