//! The edits `xtop plugin install` and `xtop widget install` make to the
//! kernel sources: an optional dependency plus a feature flag in the kernel
//! manifest, and for widget packs a row and a registry arm in the pack
//! catalog. These functions compute the new file text; the caller reads and
//! writes the files.

use vstd::prelude::*;
use crate::text::{
    contains_seq, contains_str, line_ranges, range_starts_with, ranges_texts, ranges_within,
    replace_all, replace_all_str, replace_first, replace_first_str, spec_lines, starts_with,
    starts_with_str, trim, trim_range, chars_of, push_char, cat, concat_views, find_from, occurs_at,
    lemma_find_from_found, lemma_occurs_found, lemma_replace_first_inserts, occ_count, marker_like,
    lemma_insert_keeps_marker_count,
};
use crate::commands::scaffold::{spec_upper_cased, upper_cased, char_uppercase};

verus! {

/// The anchor comment in the pack catalog above which rows are inserted.
pub const TABLE_INSTALL_MARKER: &'static str = "// (xtop widget install appends installed-pack rows above this line.)";

/// The anchor comment in the pack catalog above which registry arms are inserted.
pub const ARM_INSTALL_MARKER: &'static str = "// (xtop widget install appends installed-pack arms above this line.)";

/// The manifest comment under which locally installed widget packs are listed.
pub const LOCAL_WIDGETS_MARKER: &'static str = "# Local widget pack installs (xtop widget install)";

/// The manifest comment under which locally installed plugins are listed.
pub const LOCAL_PLUGINS_MARKER: &'static str = "# Local plugin installs (xtop plugin install)";

/// The repository of community widget packs.
pub const WIDGETS_REPO: &'static str = "https://github.com/xtop-cli/widgets";

/// The repository of community plugins.
pub const PLUGINS_REPO: &'static str = "https://github.com/xtop-cli/plugins";

/// Whether a source names a git repository rather than a bare name.
pub open spec fn spec_is_git_url(s: Seq<char>) -> bool {
    contains_seq(s, "://"@) || contains_seq(s, "github.com"@) || contains_seq(s, "git@"@)
}

/// Whether a source names a local directory (absolute, relative or `~`).
pub open spec fn spec_is_local_path(s: Seq<char>) -> bool {
    s.len() > 0 && (s[0] == '/' || s[0] == '.' || s[0] == '~')
}

/// A source that looks like a git URL: it has `://`, `github.com` or `git@`.
pub fn is_git_url(s: &str) -> (r: bool)
    ensures
        r == spec_is_git_url(s@),
{
    contains_str(s, "://") || contains_str(s, "github.com") || contains_str(s, "git@")
}

/// A source that looks like a local path: it starts with `/`, `.` or `~`.
pub fn is_local_path(s: &str) -> (r: bool)
    ensures
        r == spec_is_local_path(s@),
{
    let c = chars_of(s);
    c.len() > 0 && (c[0] == '/' || c[0] == '.' || c[0] == '~')
}

/// The pack catalog row a widget pack install inserts (rustfmt layout).
pub open spec fn spec_pack_table_row(feature: Seq<char>, label: Seq<char>) -> Seq<char> {
    "    PackRow {\n        feature: \""@ + feature + "\",\n        label: \""@ + label + "\",\n    },\n"@
}

/// The registry match arm a widget pack install inserts (rustfmt layout):
/// its static is named by the upper-cased crate identifier and `_PACK`.
pub open spec fn spec_pack_table_arm(feature: Seq<char>, crate_ident: Seq<char>) -> Seq<char> {
    "        #[cfg(feature = \""@ + feature + "\")]\n        \""@ + feature + "\" => {\n            static "@
        + spec_upper_cased(crate_ident) + "_PACK: OnceLock<HashMap<&'static str, WidgetRenderer>> =\n                OnceLock::new();\n            v.push(Pack {\n                name: row.label,\n                renderers: "@
        + spec_upper_cased(crate_ident) + "_PACK.get_or_init("@ + crate_ident + "::registry),\n            });\n        },\n"@
}

/// The catalog row for a pack with this feature and label.
pub fn pack_table_row(feature: &str, label: &str) -> (r: String)
    ensures
        r@ == spec_pack_table_row(feature@, label@),
{
    let r = cat(&["    PackRow {\n        feature: \"", feature, "\",\n        label: \"", label, "\",\n    },\n"]);
    proof {
        reveal_with_fuel(concat_views, 6);
    }
    r
}

/// The registry arm for a pack with this feature and crate identifier.
pub fn pack_table_arm(feature: &str, crate_ident: &str) -> (r: String)
    ensures
        r@ == spec_pack_table_arm(feature@, crate_ident@),
{
    let upper = upper_cased(crate_ident);
    let r = cat(&[
        "        #[cfg(feature = \"",
        feature,
        "\")]\n        \"",
        feature,
        "\" => {\n            static ",
        upper.as_str(),
        "_PACK: OnceLock<HashMap<&'static str, WidgetRenderer>> =\n                OnceLock::new();\n            v.push(Pack {\n                name: row.label,\n                renderers: ",
        upper.as_str(),
        "_PACK.get_or_init(",
        crate_ident,
        "::registry),\n            });\n        },\n",
    ]);
    proof {
        reveal_with_fuel(concat_views, 12);
    }
    r
}

/// The outcome of adding a pack to the catalog text.
#[derive(Debug, PartialEq, Eq)]
pub enum PackTableEdit {
    /// The catalog already has a row for the feature: nothing to do.
    AlreadyPresent,
    /// One of the two anchor comments is missing: the file is not recognised.
    MarkersMissing,
    /// The new catalog text.
    Edited(String),
}

/// Four spaces, the indentation of the row anchor.
pub open spec fn indent4() -> Seq<char> {
    "    "@
}

/// Eight spaces, the indentation of the arm anchor.
pub open spec fn indent8() -> Seq<char> {
    "        "@
}

/// The catalog text after installing a pack: unchanged when a row for the
/// feature exists, refused when an anchor is missing, and otherwise the row
/// inserted above the (indented) row anchor and the arm above the (indented)
/// arm anchor, at their first occurrence.
pub open spec fn spec_edit_pack_table(
    content: Seq<char>,
    label: Seq<char>,
    feature: Seq<char>,
    crate_ident: Seq<char>,
) -> Option<Option<Seq<char>>> {
    if contains_seq(content, "feature: \""@ + feature + "\""@) {
        None
    } else if !contains_seq(content, TABLE_INSTALL_MARKER@) || !contains_seq(content, ARM_INSTALL_MARKER@) {
        Some(None)
    } else {
        let table_anchor = indent4() + TABLE_INSTALL_MARKER@;
        let arm_anchor = indent8() + ARM_INSTALL_MARKER@;
        let with_row = replace_first(content, table_anchor, spec_pack_table_row(feature, label) + table_anchor);
        Some(Some(replace_first(with_row, arm_anchor, spec_pack_table_arm(feature, crate_ident) + arm_anchor)))
    }
}

/// Add a widget pack to the pack catalog text: one row and one feature-gated
/// registry arm, each inserted directly above its anchor comment so repeated
/// installs keep working.
pub fn edit_pack_table_text(content: &str, label: &str, feature: &str, crate_ident: &str) -> (r: PackTableEdit)
    ensures
        match spec_edit_pack_table(content@, label@, feature@, crate_ident@) {
            None => r == PackTableEdit::AlreadyPresent,
            Some(None) => r == PackTableEdit::MarkersMissing,
            Some(Some(t)) => r matches PackTableEdit::Edited(e) && e@ == t,
        },
{
    let probe = cat(&["feature: \"", feature, "\""]);
    proof {
        reveal_with_fuel(concat_views, 4);
    }
    if contains_str(content, probe.as_str()) {
        return PackTableEdit::AlreadyPresent;
    }
    if !contains_str(content, TABLE_INSTALL_MARKER) || !contains_str(content, ARM_INSTALL_MARKER) {
        return PackTableEdit::MarkersMissing;
    }
    let row = pack_table_row(feature, label);
    let arm = pack_table_arm(feature, crate_ident);
    let table_anchor = cat(&["    ", TABLE_INSTALL_MARKER]);
    let arm_anchor = cat(&["        ", ARM_INSTALL_MARKER]);
    let new_row = cat(&[row.as_str(), table_anchor.as_str()]);
    let new_arm = cat(&[arm.as_str(), arm_anchor.as_str()]);
    proof {
        reveal_with_fuel(concat_views, 3);
    }
    let with_row = replace_first_str(content, table_anchor.as_str(), new_row.as_str());
    let edited = replace_first_str(with_row.as_str(), arm_anchor.as_str(), new_arm.as_str());
    PackTableEdit::Edited(edited)
}

/// Installing a pack twice changes the catalog once: after an install, the
/// catalog has the pack's row, so installing the same pack again leaves it
/// alone. This holds when the row anchor stands at its usual indentation
/// and the feature name does not itself hold the arm anchor's text (the arm
/// could otherwise be put inside the new row).
pub proof fn lemma_install_is_idempotent(content: Seq<char>, label: Seq<char>, feature: Seq<char>, crate_ident: Seq<char>)
    requires
        contains_seq(content, indent4() + TABLE_INSTALL_MARKER@),
        !contains_seq(feature, arm_anchor()),
        spec_edit_pack_table(content, label, feature, crate_ident) is Some,
        spec_edit_pack_table(content, label, feature, crate_ident)->0 is Some,
    ensures
        spec_edit_pack_table(spec_edit_pack_table(content, label, feature, crate_ident)->0->0, label, feature, crate_ident)
            is None,
{
    reveal_strlit("feature: \"");
    reveal_strlit("\"");
    reveal_strlit("    ");
    reveal_strlit("        ");
    reveal_strlit("    PackRow {\n        feature: \"");
    reveal_strlit("    PackRow {\n        ");
    reveal_strlit("\",\n        label: \"");
    let probe = "feature: \""@ + feature + "\""@;
    let table_anchor = indent4() + TABLE_INSTALL_MARKER@;
    let arm_anchor = indent8() + ARM_INSTALL_MARKER@;
    let row = spec_pack_table_row(feature, label);
    let arm = spec_pack_table_arm(feature, crate_ident);
    let lead = "    PackRow {\n        "@;
    assert(lead.len() == 22);
    assert("    PackRow {\n        feature: \""@ =~= lead + "feature: \""@);
    assert(row =~= lead + probe + ("\",\n        label: \""@ + label + "\",\n    },\n"@).skip(1));
    // The row goes in right before the first row anchor.
    lemma_replace_first_inserts(content, table_anchor, row);
    lemma_find_from_found(content, table_anchor, 0);
    let q1 = find_from(content, table_anchor, 0)->0;
    let with_row = replace_first(content, table_anchor, row + table_anchor);
    assert(with_row == content.take(q1) + row + content.skip(q1));
    let p = q1 + lead.len();
    assert(occurs_at(with_row, probe, p)) by {
        assert(with_row.subrange(p, p + probe.len()) =~= probe);
    }
    // The arm goes in right before the first arm anchor, which cannot start
    // inside the row's `feature: "..."` text: that text has no two spaces in
    // a row, and the anchor starts with two.
    lemma_replace_first_inserts(with_row, arm_anchor, arm);
    lemma_find_from_found(with_row, arm_anchor, 0);
    let t = replace_first(with_row, arm_anchor, arm + arm_anchor);
    assert(spec_edit_pack_table(content, label, feature, crate_ident)->0->0 == t);
    match find_from(with_row, arm_anchor, 0) {
        None => {
            lemma_occurs_found(t, probe, 0, p);
        },
        Some(q2) => {
            assert(t == with_row.take(q2) + arm + with_row.skip(q2));
            if q2 >= p + probe.len() {
                assert(t.subrange(p, p + probe.len()) =~= with_row.subrange(p, p + probe.len()));
                lemma_occurs_found(t, probe, 0, p);
            } else if q2 <= p {
                let p2 = p + arm.len();
                assert(t.subrange(p2, p2 + probe.len()) =~= with_row.subrange(p, p + probe.len()));
                lemma_occurs_found(t, probe, 0, p2);
            } else {
                lemma_arm_anchor_not_in_probe(with_row, p, feature, q2);
                assert(false);
            }
        },
    }
}

/// The arm anchor does not start inside a `feature: "<feature>"` text when
/// the feature does not hold the anchor's text.
proof fn lemma_arm_anchor_not_in_probe(with_row: Seq<char>, p: int, feature: Seq<char>, q2: int)
    requires
        0 <= p,
        p + feature.len() + 11 <= with_row.len(),
        with_row.subrange(p, p + feature.len() + 11) == "feature: \""@ + feature + "\""@,
        occurs_at(with_row, arm_anchor(), q2),
        !contains_seq(feature, arm_anchor()),
    ensures
        !(p < q2 && q2 < p + feature.len() + 11),
{
    reveal_strlit("feature: \"");
    reveal_strlit("\"");
    let probe = "feature: \""@ + feature + "\""@;
    let arm_anchor = arm_anchor();
    if p < q2 && q2 < p + probe.len() {
        lemma_anchor_chars();
        let f0 = p + 10;
        let f1 = f0 + feature.len();
        assert(forall|i: int| 0 <= i < probe.len() ==> with_row[p + i] == probe[i]) by {
            assert forall|i: int| 0 <= i < probe.len() implies with_row[p + i] == probe[i] by {
                assert(with_row[p + i] == with_row.subrange(p, p + probe.len())[i]);
            }
        }
        assert(forall|i: int| 0 <= i < 77 ==> with_row[q2 + i] == arm_anchor[i]) by {
            assert forall|i: int| 0 <= i < 77 implies with_row[q2 + i] == arm_anchor[i] by {
                assert(with_row[q2 + i] == with_row.subrange(q2, q2 + 77)[i]);
            }
        }
        if q2 < f0 {
            let d = q2 - p;
            assert(with_row[p + d] == probe[d]);
            assert(probe[d] == "feature: \""@[d]);
            assert(with_row[q2 + 0] == arm_anchor[0]);
            assert(d == 8);
            assert(with_row[p + 9] == probe[9]);
            assert(with_row[q2 + 1] == arm_anchor[1]);
        } else if q2 + 77 <= f1 {
            assert(feature.subrange(q2 - f0, q2 - f0 + 77) =~= arm_anchor) by {
                assert forall|i: int| 0 <= i < 77 implies feature.subrange(q2 - f0, q2 - f0 + 77)[i]
                    == arm_anchor[i] by {
                    assert(with_row[q2 + i] == arm_anchor[i]);
                    assert(with_row[p + (q2 - p + i)] == probe[q2 - p + i]);
                    assert(probe[q2 - p + i] == feature[q2 - f0 + i]);
                }
            }
            lemma_occurs_found(feature, arm_anchor, 0, q2 - f0);
        } else {
            let e = f1 - q2;
            assert(with_row[p + (probe.len() - 1)] == probe[probe.len() - 1]);
            assert(probe[probe.len() - 1] == '"');
            assert(with_row[q2 + e] == arm_anchor[e]);
            assert(arm_anchor[e] != '"');
        }
    }
}

/// The manifest line of an optional git dependency.
pub open spec fn spec_git_dependency(pkg: Seq<char>, url: Seq<char>) -> Seq<char> {
    pkg + " = { git = \""@ + url + "\", optional = true }"@
}

/// The manifest line of an optional path dependency.
pub open spec fn spec_path_dependency(pkg: Seq<char>, dir: Seq<char>) -> Seq<char> {
    pkg + " = { path = \""@ + dir + "\", optional = true }"@
}

/// The manifest line of a feature enabling a dependency.
pub open spec fn spec_feature_line(feature: Seq<char>, pkg: Seq<char>) -> Seq<char> {
    feature + " = [\"dep:"@ + pkg + "\"]"@
}

/// `pkg = { git = "url", optional = true }`.
pub fn git_dependency_line(pkg: &str, url: &str) -> (r: String)
    ensures
        r@ == spec_git_dependency(pkg@, url@),
{
    let r = cat(&[pkg, " = { git = \"", url, "\", optional = true }"]);
    proof {
        reveal_with_fuel(concat_views, 5);
    }
    r
}

/// `pkg = { path = "dir", optional = true }`.
pub fn path_dependency_line(pkg: &str, dir: &str) -> (r: String)
    ensures
        r@ == spec_path_dependency(pkg@, dir@),
{
    let r = cat(&[pkg, " = { path = \"", dir, "\", optional = true }"]);
    proof {
        reveal_with_fuel(concat_views, 5);
    }
    r
}

/// `feature = ["dep:pkg"]`.
pub fn feature_line(feature: &str, pkg: &str) -> (r: String)
    ensures
        r@ == spec_feature_line(feature@, pkg@),
{
    let r = cat(&[feature, " = [\"dep:", pkg, "\"]"]);
    proof {
        reveal_with_fuel(concat_views, 5);
    }
    r
}

/// Whether some manifest line, trimmed, starts with `prefix`.
pub open spec fn some_line_starts_with(text: Seq<char>, prefix: Seq<char>) -> bool {
    exists|k: int| 0 <= k < spec_lines(text).len() && starts_with(trim(#[trigger] spec_lines(text)[k]), prefix)
}

/// The manifest text after registering an optional dependency: when no line
/// declares `pkg` yet, the dependency line goes under every occurrence of the
/// marker comment (added right after `[dependencies]` when missing); the
/// feature line goes right after the first `[features]` unless the manifest
/// already has it. Also tells whether `pkg` was already declared.
pub open spec fn spec_add_optional_dependency(
    content: Seq<char>,
    pkg: Seq<char>,
    dep_line: Seq<char>,
    feature_line: Seq<char>,
    marker: Seq<char>,
) -> (Seq<char>, bool) {
    let declared = some_line_starts_with(content, pkg + " ="@);
    let with_dep = if declared {
        content
    } else {
        let with_marker = if contains_seq(content, marker) {
            content
        } else {
            replace_all(content, "[dependencies]"@, "[dependencies]\n"@ + marker)
        };
        replace_all(with_marker, marker, marker + "\n"@ + dep_line)
    };
    let with_feature = if contains_seq(content, feature_line) {
        with_dep
    } else {
        replace_first(with_dep, "[features]"@, "[features]\n"@ + feature_line)
    };
    (with_feature, declared)
}

fn some_line_starts(text: &str, prefix: &str) -> (r: bool)
    ensures
        r == some_line_starts_with(text@, prefix@),
{
    let c = chars_of(text);
    let p = chars_of(prefix);
    let lines = line_ranges(&c);
    for i in 0..lines.len()
        invariant
            c@ == text@,
            p@ == prefix@,
            ranges_texts(c@, lines@) == spec_lines(c@),
            ranges_within(c@, lines@),
            forall|k: int| 0 <= k < i ==> !starts_with(trim(#[trigger] spec_lines(c@)[k]), p@),
    {
        let (lo, hi) = lines[i];
        proof {
            assert(spec_lines(c@)[i as int] == c@.subrange(lo as int, hi as int));
        }
        let (a, b) = trim_range(&c, lo, hi);
        if range_starts_with(&c, a, b, &p) {
            return true;
        }
    }
    false
}

/// Register an optional dependency and its feature in the kernel manifest
/// text (see `spec_add_optional_dependency`); the flag tells whether the
/// package was already a dependency.
pub fn add_optional_dependency(
    content: &str,
    pkg: &str,
    dep_line: &str,
    feature_line: &str,
    marker: &str,
) -> (r: (String, bool))
    requires
        marker@.len() > 0,
    ensures
        (r.0@, r.1) == spec_add_optional_dependency(content@, pkg@, dep_line@, feature_line@, marker@),
{
    let key = cat(&[pkg, " ="]);
    proof {
        reveal_with_fuel(concat_views, 3);
    }
    let declared = some_line_starts(content, key.as_str());
    let with_dep = if declared {
        content.to_string()
    } else {
        let with_marker = if contains_str(content, marker) {
            content.to_string()
        } else {
            let header = cat(&["[dependencies]\n", marker]);
            proof {
                reveal_with_fuel(concat_views, 3);
                reveal_strlit("[dependencies]");
            }
            replace_all_str(content, "[dependencies]", header.as_str())
        };
        let entry = cat(&[marker, "\n", dep_line]);
        proof {
            reveal_with_fuel(concat_views, 4);
        }
        replace_all_str(with_marker.as_str(), marker, entry.as_str())
    };
    let with_feature = if contains_str(content, feature_line) {
        with_dep
    } else {
        let header = cat(&["[features]\n", feature_line]);
        proof {
            reveal_with_fuel(concat_views, 3);
        }
        replace_first_str(with_dep.as_str(), "[features]", header.as_str())
    };
    (with_feature, declared)
}

/// No `/` in `s`.
pub open spec fn no_slash(s: Seq<char>) -> bool {
    forall|k: int| 0 <= k < s.len() ==> s[k] != '/'
}

proof fn lemma_no_slash_add(a: Seq<char>, b: Seq<char>)
    requires
        no_slash(a),
        no_slash(b),
    ensures
        no_slash(a + b),
{
    assert forall|k: int| 0 <= k < (a + b).len() implies (a + b)[k] != '/' by {
        if k < a.len() {
            assert((a + b)[k] == a[k]);
        } else {
            assert((a + b)[k] == b[k - a.len()]);
        }
    }
}

/// Upper-casing ASCII text without `/` gives ASCII text without `/`.
proof fn lemma_upper_no_slash(s: Seq<char>)
    requires
        forall|k: int| 0 <= k < s.len() ==> (s[k] as u32) < 128 && s[k] != '/',
    ensures
        no_slash(spec_upper_cased(s)),
    decreases s.len(),
{
    if s.len() > 0 {
        lemma_upper_no_slash(s.drop_last());
        let c = s.last();
        assert((c as u32) < 128 && c != '/');
        assert(no_slash(char_uppercase(c))) by {
            if 'a' <= c <= 'z' {
                let u = ((c as u32) - 32) as char;
                assert(u != '/');
            }
        }
        lemma_no_slash_add(spec_upper_cased(s.drop_last()), char_uppercase(c));
    }
}

/// Both anchor comments of the pack catalog are marker-like.
proof fn lemma_catalog_markers_like()
    ensures
        marker_like(TABLE_INSTALL_MARKER@),
        marker_like(ARM_INSTALL_MARKER@),
{
    reveal_strlit("// (xtop widget install appends installed-pack rows above this line.)");
    reveal_strlit("// (xtop widget install appends installed-pack arms above this line.)");
}

/// The catalog row: two leading spaces, no `/`, a final line feed.
proof fn lemma_row_text(feature: Seq<char>, label: Seq<char>)
    requires
        no_slash(feature),
        no_slash(label),
    ensures
        spec_pack_table_row(feature, label).len() >= 2,
        spec_pack_table_row(feature, label)[0] == ' ',
        spec_pack_table_row(feature, label)[1] == ' ',
        spec_pack_table_row(feature, label).last() == '\n',
        no_slash(spec_pack_table_row(feature, label)),
{
    let a = "    PackRow {\n        feature: \""@;
    let b = "\",\n        label: \""@;
    let c = "\",\n    },\n"@;
    reveal_strlit("    PackRow {\n        feature: \"");
    reveal_strlit("\",\n        label: \"");
    reveal_strlit("\",\n    },\n");
    lemma_no_slash_add(a, feature);
    lemma_no_slash_add(a + feature, b);
    lemma_no_slash_add(a + feature + b, label);
    lemma_no_slash_add(a + feature + b + label, c);
}

/// The registry arm: two leading spaces, no `/`, a final line feed.
proof fn lemma_arm_text(feature: Seq<char>, crate_ident: Seq<char>)
    requires
        no_slash(feature),
        forall|k: int| 0 <= k < crate_ident.len() ==> (crate_ident[k] as u32) < 128 && crate_ident[k] != '/',
    ensures
        spec_pack_table_arm(feature, crate_ident).len() >= 2,
        spec_pack_table_arm(feature, crate_ident)[0] == ' ',
        spec_pack_table_arm(feature, crate_ident)[1] == ' ',
        spec_pack_table_arm(feature, crate_ident).last() == '\n',
        no_slash(spec_pack_table_arm(feature, crate_ident)),
{
    let p0 = "        #[cfg(feature = \""@;
    let p1 = "\")]\n        \""@;
    let p2 = "\" => {\n            static "@;
    let up = spec_upper_cased(crate_ident);
    let p3 = "_PACK: OnceLock<HashMap<&'static str, WidgetRenderer>> =\n                OnceLock::new();\n            v.push(Pack {\n                name: row.label,\n                renderers: "@;
    let p4 = "_PACK.get_or_init("@;
    let p5 = "::registry),\n            });\n        },\n"@;
    reveal_strlit("        #[cfg(feature = \"");
    reveal_strlit("\")]\n        \"");
    reveal_strlit("\" => {\n            static ");
    reveal_strlit("_PACK: OnceLock<HashMap<&'static str, WidgetRenderer>> =\n                OnceLock::new();\n            v.push(Pack {\n                name: row.label,\n                renderers: ");
    reveal_strlit("_PACK.get_or_init(");
    reveal_strlit("::registry),\n            });\n        },\n");
    lemma_upper_no_slash(crate_ident);
    assert(no_slash(crate_ident));
    let s1 = p0 + feature;
    lemma_no_slash_add(p0, feature);
    lemma_no_slash_add(s1, p1);
    lemma_no_slash_add(s1 + p1, feature);
    lemma_no_slash_add(s1 + p1 + feature, p2);
    lemma_no_slash_add(s1 + p1 + feature + p2, up);
    lemma_no_slash_add(s1 + p1 + feature + p2 + up, p3);
    lemma_no_slash_add(s1 + p1 + feature + p2 + up + p3, up);
    lemma_no_slash_add(s1 + p1 + feature + p2 + up + p3 + up, p4);
    lemma_no_slash_add(s1 + p1 + feature + p2 + up + p3 + up + p4, crate_ident);
    lemma_no_slash_add(s1 + p1 + feature + p2 + up + p3 + up + p4 + crate_ident, p5);
    assert(spec_pack_table_arm(feature, crate_ident) == s1 + p1 + feature + p2 + up + p3 + up + p4 + crate_ident + p5);
}

/// The row anchor of the pack catalog: four spaces and the row marker.
pub open spec fn table_anchor() -> Seq<char> {
    indent4() + TABLE_INSTALL_MARKER@
}

/// The arm anchor of the pack catalog: eight spaces and the arm marker.
pub open spec fn arm_anchor() -> Seq<char> {
    indent8() + ARM_INSTALL_MARKER@
}

/// The characters of the two anchors that the placement argument uses.
proof fn lemma_anchor_chars()
    ensures
        table_anchor().len() == 73,
        TABLE_INSTALL_MARKER@.len() == 69,
        forall|i: int| 0 <= i < 4 ==> table_anchor()[i] == ' ',
        table_anchor()[4] == '/',
        table_anchor()[51] == 'r',
        forall|i: int| 0 <= i < 4 ==> (#[trigger] table_anchor()[i + 4]) == TABLE_INSTALL_MARKER@[i],
        forall|i: int| 4 <= i < 73 ==> table_anchor()[i] == TABLE_INSTALL_MARKER@[i - 4],
        arm_anchor().len() == 77,
        forall|i: int| 0 <= i < 8 ==> arm_anchor()[i] == ' ',
        arm_anchor()[8] == '/',
        forall|i: int| 0 <= i < 77 && arm_anchor()[i] == '/' ==> i == 8 || i == 9,
        forall|i: int| 0 <= i < 77 ==> arm_anchor()[i] != '\n',
        arm_anchor()[55] == 'a',
        arm_anchor()[76] == ')',
        forall|i: int| 0 <= i < 77 ==> arm_anchor()[i] != '"',
{
    reveal_strlit("    ");
    reveal_strlit("        ");
    reveal_strlit("// (xtop widget install appends installed-pack rows above this line.)");
    reveal_strlit("// (xtop widget install appends installed-pack arms above this line.)");
}

/// Inserting the row above the row anchor keeps an arm anchor in the text.
proof fn lemma_arm_anchor_kept(content: Seq<char>, k: int, row: Seq<char>, j: int)
    requires
        occurs_at(content, table_anchor(), k),
        occurs_at(content, arm_anchor(), j),
    ensures
        contains_seq(content.take(k) + row + content.skip(k), arm_anchor()),
{
    lemma_anchor_chars();
    let ta = table_anchor();
    let aa = arm_anchor();
    let w = content.take(k) + row + content.skip(k);
    if j + 77 <= k {
        assert(w.subrange(j, j + 77) =~= content.subrange(j, j + 77));
        lemma_occurs_found(w, aa, 0, j);
    } else if j >= k {
        assert(w.subrange(j + row.len(), j + row.len() + 77) =~= content.subrange(j, j + 77));
        lemma_occurs_found(w, aa, 0, j + row.len());
    } else {
        let d = k - j;
        assert(content[k + 4] == content.subrange(k, k + 73)[4]);
        if d + 4 < 77 {
            assert(content[k + 4] == content.subrange(j, j + 77)[d + 4]);
            assert(content.subrange(j, j + 77)[d + 4] == aa[d + 4]);
            assert(content.subrange(k, k + 73)[4] == ta[4]);
            assert(aa[d + 4] == '/');
            assert(d + 4 == 8 || d + 4 == 9);
            if d == 5 {
                assert(content[k + 3] == content.subrange(k, k + 73)[3]);
                assert(content[k + 3] == content.subrange(j, j + 77)[8]);
                assert(ta[3] == ' ');
            } else {
                assert(d == 4);
                assert(content[k + 51] == content.subrange(k, k + 73)[51]);
                assert(content[k + 51] == content.subrange(j, j + 77)[55]);
            }
        } else {
            let e = j + 76;
            assert(content[e] == content.subrange(j, j + 77)[76]);
            assert(content[e] == content.subrange(k, k + 73)[e - k]);
            assert(ta[e - k] == ' ');
        }
    }
}

/// The arm anchor does not begin inside the row or its anchor.
proof fn lemma_arm_point_outside(w: Seq<char>, k: int, row: Seq<char>, k2: int)
    requires
        0 <= k,
        k + row.len() + 73 <= w.len(),
        w.subrange(k, k + row.len() + 73) == row + table_anchor(),
        row.len() > 0,
        row.last() == '\n',
        no_slash(row),
        occurs_at(w, arm_anchor(), k2),
        marker_like(TABLE_INSTALL_MARKER@),
    ensures
        k2 <= k || k + row.len() + 73 <= k2,
{
    lemma_anchor_chars();
    let n = row.len() as int;
    let ta = table_anchor();
    let aa = arm_anchor();
    let ra = row + ta;
    let m = TABLE_INSTALL_MARKER@;
    if k < k2 && k2 < k + n + 73 {
        assert(forall|i: int| 0 <= i < n + 73 ==> w[k + i] == ra[i]) by {
            assert forall|i: int| 0 <= i < n + 73 implies w[k + i] == ra[i] by {
                assert(w[k + i] == w.subrange(k, k + n + 73)[i]);
            }
        }
        assert(forall|i: int| 0 <= i < 77 ==> w[k2 + i] == aa[i]) by {
            assert forall|i: int| 0 <= i < 77 implies w[k2 + i] == aa[i] by {
                assert(w[k2 + i] == w.subrange(k2, k2 + 77)[i]);
            }
        }
        if k2 < k + n {
            if k2 + 8 < k + n {
                let i = k2 + 8 - k;
                assert(w[k + i] == ra[i]);
                assert(ra[i] == row[i]);
                assert(w[k2 + 8] == aa[8]);
            } else {
                let i = n - 1;
                assert(w[k + i] == ra[i]);
                assert(ra[i] == row[i]);
                assert(w[k2 + (k + i - k2)] == aa[k + i - k2]);
            }
        } else {
            let d = k2 - (k + n);
            if d <= 3 {
                assert(w[k + (n + 4)] == ra[n + 4]);
                assert(ra[n + 4] == ta[4]);
                assert(w[k2 + (4 - d)] == aa[4 - d]);
            } else if d + 1 < 73 {
                assert(w[k + (n + d)] == ra[n + d]);
                assert(w[k + (n + d + 1)] == ra[n + d + 1]);
                assert(ra[n + d] == ta[d]);
                assert(ra[n + d + 1] == ta[d + 1]);
                assert(w[k2 + 0] == aa[0]);
                assert(w[k2 + 1] == aa[1]);
                assert(ta[d] == m[d - 4]);
                assert(ta[d + 1] == m[d - 3]);
                assert(!(m[d - 4] == ' ' && m[d - 3] == ' '));
            } else {
                assert(w[k + (n + 72)] == ra[n + 72]);
                assert(ra[n + 72] == ta[72]);
                assert(ta[72] == m[68]);
                assert(m.len() == 69);
                assert(w[k2 + 0] == aa[0]);
            }
        }
    }
}

/// Installing a pack places its row directly above the row anchor and its
/// arm directly above the arm anchor, and keeps the number of each marker
/// comment: so a second install still finds both anchors. This holds when
/// both anchors stand at their usual indentation, the feature and label
/// hold no `/`, and the crate identifier is ASCII without `/` (as crate
/// names are).
#[verifier::rlimit(50)]
pub proof fn lemma_pack_edit_places_and_keeps_markers(
    content: Seq<char>,
    label: Seq<char>,
    feature: Seq<char>,
    crate_ident: Seq<char>,
)
    requires
        spec_edit_pack_table(content, label, feature, crate_ident) matches Some(Some(_)),
        contains_seq(content, table_anchor()),
        contains_seq(content, arm_anchor()),
        no_slash(feature),
        no_slash(label),
        forall|k: int| 0 <= k < crate_ident.len() ==> (crate_ident[k] as u32) < 128 && crate_ident[k] != '/',
    ensures
        contains_seq(
            spec_edit_pack_table(content, label, feature, crate_ident)->0->0,
            spec_pack_table_row(feature, label) + table_anchor(),
        ),
        contains_seq(
            spec_edit_pack_table(content, label, feature, crate_ident)->0->0,
            spec_pack_table_arm(feature, crate_ident) + arm_anchor(),
        ),
        occ_count(spec_edit_pack_table(content, label, feature, crate_ident)->0->0, TABLE_INSTALL_MARKER@)
            == occ_count(content, TABLE_INSTALL_MARKER@),
        occ_count(spec_edit_pack_table(content, label, feature, crate_ident)->0->0, ARM_INSTALL_MARKER@)
            == occ_count(content, ARM_INSTALL_MARKER@),
{
    let ta = table_anchor();
    let aa = arm_anchor();
    let row = spec_pack_table_row(feature, label);
    let arm = spec_pack_table_arm(feature, crate_ident);
    lemma_catalog_markers_like();
    lemma_row_text(feature, label);
    lemma_arm_text(feature, crate_ident);
    lemma_anchor_chars();
    // The row, above the row anchor.
    lemma_find_from_found(content, ta, 0);
    let k = find_from(content, ta, 0)->0;
    lemma_replace_first_inserts(content, ta, row);
    let a = content.take(k);
    let b = content.skip(k);
    let w = replace_first(content, ta, row + ta);
    assert(w == a + row + b);
    assert(b[0] == content.subrange(k, k + 73)[0] && b[1] == content.subrange(k, k + 73)[1]);
    assert(a + b =~= content);
    lemma_insert_keeps_marker_count(a, row, b, TABLE_INSTALL_MARKER@);
    lemma_insert_keeps_marker_count(a, row, b, ARM_INSTALL_MARKER@);
    assert(w.subrange(k, k + row.len() + 73) =~= row + ta) by {
        assert(b.subrange(0, 73) =~= content.subrange(k, k + 73));
    }
    // The arm, above the arm anchor.
    lemma_find_from_found(content, aa, 0);
    lemma_arm_anchor_kept(content, k, row, find_from(content, aa, 0)->0);
    lemma_find_from_found(w, aa, 0);
    let k2 = find_from(w, aa, 0)->0;
    lemma_replace_first_inserts(w, aa, arm);
    let a2 = w.take(k2);
    let b2 = w.skip(k2);
    let t = replace_first(w, aa, arm + aa);
    assert(t == spec_edit_pack_table(content, label, feature, crate_ident)->0->0);
    assert(t == a2 + arm + b2);
    assert(b2[0] == w.subrange(k2, k2 + 77)[0] && b2[1] == w.subrange(k2, k2 + 77)[1]);
    assert(a2 + b2 =~= w);
    lemma_insert_keeps_marker_count(a2, arm, b2, TABLE_INSTALL_MARKER@);
    lemma_insert_keeps_marker_count(a2, arm, b2, ARM_INSTALL_MARKER@);
    assert(t.subrange(k2, k2 + arm.len() + 77) =~= arm + aa) by {
        assert(b2.subrange(0, 77) =~= w.subrange(k2, k2 + 77));
    }
    lemma_occurs_found(t, arm + aa, 0, k2);
    lemma_arm_point_outside(w, k, row, k2);
    if k2 <= k {
        let p = k + arm.len();
        assert(t.subrange(p, p + row.len() + 73) =~= w.subrange(k, k + row.len() + 73));
        lemma_occurs_found(t, row + ta, 0, p);
    } else {
        assert(t.subrange(k, k + row.len() + 73) =~= w.subrange(k, k + row.len() + 73));
        lemma_occurs_found(t, row + ta, 0, k);
    }
}

} // verus!
