//! `xtop widget list`: which widget packs are wired into the kernel. A pack
//! counts when it has a row in the pack catalog and its Cargo feature is
//! declared in the kernel manifest (the base pack `default` always counts).
//! An install (manifest and catalog edits) shows in that listing.

use vstd::prelude::*;
use crate::text::{
    chars_of, find_char_from, find_from, find_in_range, lemma_find_char_from_bounds, line_ranges,
    range_ends_with, range_starts_with, range_text, ranges_texts, spec_lines, starts_with, ends_with,
    contains_seq, ranges_within, trim, trim_range, lemma_find_from_found, occurs_at, lemma_find_char_prefix,
    lemma_trim_padded, at_line_start, nl_count, lemma_next_line, replace_first, lemma_occurs_found,
    is_white, lemma_trim_keeps_prefix, lemma_trim_word_space,
};
use crate::commands::plugins::{
    headers_at_line_starts, with_dependency, lemma_markers_usable, lemma_dependency_added, lemma_feature_added,
    lemma_feature_line_shape,
};
use crate::commands::install::{
    spec_edit_pack_table, spec_pack_table_row, spec_pack_table_arm, indent4, indent8, TABLE_INSTALL_MARKER,
    ARM_INSTALL_MARKER, spec_add_optional_dependency, spec_feature_line, some_line_starts_with,
    LOCAL_WIDGETS_MARKER,
};
use vstd::string::StrSliceExecFns;
use crate::text::str_eq;

verus! {

/// A manifest line (trimmed) that declares a widget feature, such as
/// `widget-blocks = ["dep:xtop-widget-blocks"]`.
pub open spec fn is_widget_feature_line(l: Seq<char>) -> bool {
    starts_with(l, "widget-"@) && contains_seq(l, "dep:xtop-widget-"@)
}

/// The feature name of such a line: the text before the first `=`, trimmed.
pub open spec fn feature_name(l: Seq<char>) -> Seq<char> {
    trim(l.take(find_char_from(l, '=', 0)))
}

/// The widget feature names declared by a list of manifest lines, in order.
pub open spec fn widget_features_of(lines: Seq<Seq<char>>) -> Seq<Seq<char>>
    decreases lines.len(),
{
    if lines.len() == 0 {
        Seq::empty()
    } else {
        let l = trim(lines.last());
        widget_features_of(lines.drop_last()) + if is_widget_feature_line(l) {
            seq![feature_name(l)]
        } else {
            Seq::empty()
        }
    }
}

/// The `widget-*` feature names a kernel manifest declares with a
/// `dep:xtop-widget-*` dependency, in manifest order.
pub fn cargo_widget_features(manifest: &str) -> (r: Vec<String>)
    ensures
        r@.map_values(|s: String| s@) == widget_features_of(spec_lines(manifest@)),
{
    let c = chars_of(manifest);
    let lines = line_ranges(&c);
    let prefix = chars_of("widget-");
    let dep = chars_of("dep:xtop-widget-");
    let mut r: Vec<String> = Vec::new();
    let ghost all = spec_lines(c@);
    for i in 0..lines.len()
        invariant
            c@ == manifest@,
            all == spec_lines(c@),
            ranges_texts(c@, lines@) == all,
            ranges_within(c@, lines@),
            prefix@ == "widget-"@,
            dep@ == "dep:xtop-widget-"@,
            r@.map_values(|s: String| s@) == widget_features_of(all.take(i as int)),
    {
        let (lo, hi) = lines[i];
        proof {
            assert(all[i as int] == c@.subrange(lo as int, hi as int));
            assert(all.take(i + 1).drop_last() =~= all.take(i as int));
        }
        let (a, b) = trim_range(&c, lo, hi);
        let ghost l = c@.subrange(a as int, b as int);
        let starts = range_starts_with(&c, a, b, &prefix);
        let has_dep = find_in_range(&c, a, b, a, &dep).is_some();
        let ghost before = r@;
        if starts && has_dep {
            let eq = find_char_in(&c, a, b, '=');
            let (fa, fb) = trim_range(&c, a, eq);
            proof {
                assert(l.take(eq - a) =~= c@.subrange(a as int, eq as int));
            }
            r.push(manifest.substring_char(fa, fb).to_string());
        }
        proof {
            assert(r@.map_values(|s: String| s@) =~= widget_features_of(all.take(i + 1)));
        }
    }
    proof {
        assert(all.take(lines@.len() as int) =~= all);
    }
    r
}

/// The position of the first `x` in `[lo, hi)` of `c`, or `hi`.
fn find_char_in(c: &Vec<char>, lo: usize, hi: usize, x: char) -> (r: usize)
    requires
        lo <= hi <= c@.len(),
    ensures
        lo <= r <= hi,
        r - lo == find_char_from(c@.subrange(lo as int, hi as int), x, 0),
{
    let ghost s = c@.subrange(lo as int, hi as int);
    let mut k = lo;
    while k < hi && c[k] != x
        invariant
            lo <= k <= hi <= c@.len(),
            s == c@.subrange(lo as int, hi as int),
            find_char_from(s, x, 0) == find_char_from(s, x, k - lo),
        decreases hi - k,
    {
        k += 1;
    }
    k
}

/// What the catalog reader remembers between lines: whether it is inside a
/// `PackRow { .. }`, the feature and label seen in it so far, and the rows
/// completed so far.
pub struct CatalogScan {
    pub in_row: bool,
    pub feature: Option<Seq<char>>,
    pub label: Option<Seq<char>>,
    pub rows: Seq<(Seq<char>, Seq<char>)>,
}

/// The quoted value after `key` in a line: the text between the end of the
/// first occurrence of `key` and the next `"`.
pub open spec fn slot_value(l: Seq<char>, key: Seq<char>) -> Option<Seq<char>> {
    match find_from(l, key, 0) {
        Some(idx) => {
            let rest = l.skip(idx + key.len());
            let end = find_char_from(rest, '"', 0);
            if end < rest.len() {
                Some(rest.take(end))
            } else {
                None
            }
        },
        None => None,
    }
}

/// One catalog line: outside a row only a line starting with `PackRow {`
/// opens one; inside, `feature: "..."` and `label: "..."` are picked up and a
/// line ending in `},` closes the row once both are known.
pub open spec fn catalog_step(st: CatalogScan, line: Seq<char>) -> CatalogScan {
    let l = trim(line);
    if !st.in_row && !starts_with(l, "PackRow {"@) {
        st
    } else {
        let f = match slot_value(l, "feature: \""@) {
            Some(v) => Some(v),
            None => st.feature,
        };
        let lab = match slot_value(l, "label: \""@) {
            Some(v) => Some(v),
            None => st.label,
        };
        if ends_with(l, "},"@) && f is Some && lab is Some {
            CatalogScan { in_row: false, feature: None, label: None, rows: st.rows.push((f->0, lab->0)) }
        } else {
            CatalogScan { in_row: true, feature: f, label: lab, rows: st.rows }
        }
    }
}

/// The reader's state after a list of catalog lines.
pub open spec fn catalog_scan(lines: Seq<Seq<char>>) -> CatalogScan
    decreases lines.len(),
{
    if lines.len() == 0 {
        CatalogScan { in_row: false, feature: None, label: None, rows: Seq::empty() }
    } else {
        catalog_step(catalog_scan(lines.drop_last()), lines.last())
    }
}

/// The `(feature, label)` rows of a pack catalog source, in table order.
pub open spec fn spec_table_rows(table: Seq<char>) -> Seq<(Seq<char>, Seq<char>)> {
    catalog_scan(spec_lines(table)).rows
}

/// The quoted value after `key` in `[a, b)` of `c`, as a range.
fn slot_range(c: &Vec<char>, a: usize, b: usize, key: &Vec<char>) -> (r: Option<(usize, usize)>)
    requires
        a <= b <= c@.len(),
    ensures
        r matches Some(v) ==> a <= v.0 <= v.1 <= b,
        slot_value(c@.subrange(a as int, b as int), key@) == match r {
            Some(v) => Some(c@.subrange(v.0 as int, v.1 as int)),
            None => None::<Seq<char>>,
        },
{
    let ghost l = c@.subrange(a as int, b as int);
    match find_in_range(c, a, b, a, key) {
        Some(idx) => {
            proof {
                let k = idx - a;
                assert(k + key@.len() <= l.len()) by {
                    lemma_find_from_found(l, key@, 0);
                }
            }
            let start = idx + key.len();
            let end = find_char_in(c, start, b, '"');
            proof {
                let rest = l.skip(idx - a + key@.len());
                assert(rest =~= c@.subrange(start as int, b as int));
                lemma_find_char_from_bounds(rest, '"', 0);
            }
            if end < b {
                proof {
                    let rest = l.skip(idx - a + key@.len());
                    assert(rest.take(end - start) =~= c@.subrange(start as int, end as int));
                }
                Some((start, end))
            } else {
                None
            }
        },
        None => None,
    }
}

/// The `(feature, label)` rows of the pack catalog source (`PackRow { feature:
/// "..", label: ".." },` on one line or spread over several, as rustfmt writes
/// it), in table order; other lines are skipped.
pub fn table_rows(table: &str) -> (rows: Vec<(&str, &str)>)
    ensures
        rows@.map_values(|r: (&str, &str)| (r.0@, r.1@)) == spec_table_rows(table@),
{
    let c = chars_of(table);
    let lines = line_ranges(&c);
    let open = chars_of("PackRow {");
    let fkey = chars_of("feature: \"");
    let lkey = chars_of("label: \"");
    let close = chars_of("},");
    let mut rows: Vec<(&str, &str)> = Vec::new();
    let mut in_row = false;
    let mut feature: Option<(usize, usize)> = None;
    let mut label: Option<(usize, usize)> = None;
    let ghost all = spec_lines(c@);
    for i in 0..lines.len()
        invariant
            c@ == table@,
            all == spec_lines(c@),
            ranges_texts(c@, lines@) == all,
            ranges_within(c@, lines@),
            open@ == "PackRow {"@,
            fkey@ == "feature: \""@,
            lkey@ == "label: \""@,
            close@ == "},"@,
            feature matches Some(v) ==> v.0 <= v.1 <= c@.len(),
            label matches Some(v) ==> v.0 <= v.1 <= c@.len(),
            ({
                let st = catalog_scan(all.take(i as int));
                &&& st.in_row == in_row
                &&& st.feature == match feature { Some(v) => Some(c@.subrange(v.0 as int, v.1 as int)), None => None::<Seq<char>> }
                &&& st.label == match label { Some(v) => Some(c@.subrange(v.0 as int, v.1 as int)), None => None::<Seq<char>> }
                &&& st.rows == rows@.map_values(|r: (&str, &str)| (r.0@, r.1@))
            }),
    {
        let (lo, hi) = lines[i];
        proof {
            assert(all[i as int] == c@.subrange(lo as int, hi as int));
            assert(all.take(i + 1).drop_last() =~= all.take(i as int));
            assert(all.take(i + 1).last() == all[i as int]);
        }
        let (a, b) = trim_range(&c, lo, hi);
        if in_row || range_starts_with(&c, a, b, &open) {
            if let Some(v) = slot_range(&c, a, b, &fkey) {
                feature = Some(v);
            }
            if let Some(v) = slot_range(&c, a, b, &lkey) {
                label = Some(v);
            }
            let closes = range_ends_with(&c, a, b, &close);
            if closes && feature.is_some() && label.is_some() {
                let (fa, fb) = feature.unwrap();
                let (la, lb) = label.unwrap();
                let ghost before = rows@;
                rows.push((table.substring_char(fa, fb), table.substring_char(la, lb)));
                proof {
                    assert(rows@.map_values(|r: (&str, &str)| (r.0@, r.1@)) =~= before.map_values(
                        |r: (&str, &str)| (r.0@, r.1@),
                    ).push((c@.subrange(fa as int, fb as int), c@.subrange(la as int, lb as int))));
                }
                in_row = false;
                feature = None;
                label = None;
            } else {
                in_row = true;
            }
        }
    }
    proof {
        assert(all.take(lines@.len() as int) =~= all);
    }
    rows
}

/// The catalog rows of packs that are wired in: the base pack `default` and
/// every pack whose feature the manifest declares, in table order.
pub open spec fn spec_installed_packs(
    rows: Seq<(Seq<char>, Seq<char>)>,
    features: Seq<Seq<char>>,
) -> Seq<(Seq<char>, Seq<char>)> {
    rows.filter(|r: (Seq<char>, Seq<char>)| r.0 == "default"@ || features.contains(r.0))
}

/// Keep the catalog rows whose pack is wired in (see `spec_installed_packs`).
pub fn installed_packs<'a>(rows: &Vec<(&'a str, &'a str)>, features: &Vec<String>) -> (r: Vec<(&'a str, &'a str)>)
    ensures
        r@.map_values(|x: (&str, &str)| (x.0@, x.1@)) == spec_installed_packs(
            rows@.map_values(|x: (&str, &str)| (x.0@, x.1@)),
            features@.map_values(|s: String| s@),
        ),
{
    let ghost fs = features@.map_values(|s: String| s@);
    let ghost rv = rows@.map_values(|x: (&str, &str)| (x.0@, x.1@));
    let ghost pred = |r: (Seq<char>, Seq<char>)| r.0 == "default"@ || fs.contains(r.0);
    let mut out: Vec<(&'a str, &'a str)> = Vec::new();
    for i in 0..rows.len()
        invariant
            fs == features@.map_values(|s: String| s@),
            rv == rows@.map_values(|x: (&str, &str)| (x.0@, x.1@)),
            pred == (|r: (Seq<char>, Seq<char>)| r.0 == "default"@ || fs.contains(r.0)),
            out@.map_values(|x: (&str, &str)| (x.0@, x.1@)) == rv.take(i as int).filter(pred),
    {
        let (f, l) = rows[i];
        let mut keep = str_eq(f, "default");
        let mut j: usize = 0;
        while !keep && j < features.len()
            invariant
                fs == features@.map_values(|s: String| s@),
                j <= features@.len(),
                keep == (f@ == "default"@ || exists|k: int| 0 <= k < j && fs[k] == f@),
            decreases features@.len() - j,
        {
            assert(fs[j as int] == features@[j as int]@);
            if str_eq(features[j].as_str(), f) {
                keep = true;
            }
            j += 1;
        }
        proof {
            if keep && f@ != "default"@ {
                let k = choose|k: int| 0 <= k < j && fs[k] == f@;
                assert(fs.contains(f@));
            }
            if !keep {
                assert(!fs.contains(f@));
            }
            assert(rv.take(i + 1).drop_last() =~= rv.take(i as int));
            assert(rv.take(i + 1).last() == (f@, l@));
            reveal(Seq::filter);
        }
        let ghost before = out@;
        if keep {
            out.push((f, l));
            proof {
                assert(out@.map_values(|x: (&str, &str)| (x.0@, x.1@)) =~= before.map_values(
                    |x: (&str, &str)| (x.0@, x.1@),
                ).push((f@, l@)));
            }
        }
    }
    proof {
        assert(rv.take(rows@.len() as int) =~= rv);
    }
    out
}

/// A text is not found where the character at `j` of it could only stand at
/// positions of `s` before `j`.
proof fn lemma_not_found(s: Seq<char>, t: Seq<char>, j: int)
    requires
        0 <= j < t.len(),
        forall|k: int| 0 <= k < s.len() && s[k] == t[j] ==> k < j,
    ensures
        find_from(s, t, 0) is None,
{
    lemma_find_from_found(s, t, 0);
    if let Some(k) = find_from(s, t, 0) {
        assert(s[k + j] == s.subrange(k, k + t.len())[j]);
    }
}

/// The quoted value after `key` where the line begins with `key`.
proof fn lemma_slot_at_start(l: Seq<char>, key: Seq<char>, v: Seq<char>, tail: Seq<char>)
    requires
        l == key + v + "\","@ + tail,
        forall|k: int| 0 <= k < v.len() ==> v[k] != '"',
    ensures
        slot_value(l, key) == Some(v),
{
    reveal_strlit("\",");
    assert(l.subrange(0, key.len() as int) =~= key);
    assert(occurs_at(l, key, 0));
    assert(find_from(l, key, 0) == Some(0int));
    let rest = l.skip(key.len() as int);
    assert(rest =~= v + "\","@ + tail);
    lemma_find_char_prefix(rest, '"', 0, v.len() as int);
    assert(rest[v.len() as int] == '"');
    assert(find_char_from(rest, '"', v.len() as int) == v.len());
    assert(rest.take(v.len() as int) =~= v);
}

/// The four lines of the catalog row `xtop widget install` writes add that
/// row, whatever the reader's state before them.
proof fn lemma_row_scanned(st: CatalogScan, f: Seq<char>, l: Seq<char>)
    requires
        forall|k: int| 0 <= k < f.len() ==> f[k] != '"' && f[k] != ':',
        forall|k: int| 0 <= k < l.len() ==> l[k] != '"' && l[k] != ':',
    ensures
        catalog_step(
            catalog_step(
                catalog_step(catalog_step(st, "    PackRow {"@), "        feature: \""@ + f + "\","@),
                "        label: \""@ + l + "\","@,
            ),
            "    },"@,
        ).rows == st.rows.push((f, l)),
{
    let fkey = "feature: \""@;
    let lkey = "label: \""@;
    let q = "\","@;
    reveal_strlit("    PackRow {");
    reveal_strlit("PackRow {");
    reveal_strlit("    ");
    reveal_strlit("        ");
    reveal_strlit("feature: \"");
    reveal_strlit("        feature: \"");
    reveal_strlit("label: \"");
    reveal_strlit("        label: \"");
    reveal_strlit("\",");
    reveal_strlit("    },");
    reveal_strlit("},");
    // The trimmed lines.
    let t0 = "PackRow {"@;
    assert("    PackRow {"@ =~= "    "@ + t0);
    lemma_trim_padded("    "@, t0);
    let t1 = fkey + f + q;
    assert("        feature: \""@ + f + q =~= "        "@ + t1);
    assert(t1[0] == 'f' && t1.last() == ',');
    lemma_trim_padded("        "@, t1);
    let t2 = lkey + l + q;
    assert("        label: \""@ + l + q =~= "        "@ + t2);
    assert(t2[0] == 'l' && t2.last() == ',');
    lemma_trim_padded("        "@, t2);
    let t3 = "},"@;
    assert("    },"@ =~= "    "@ + t3);
    lemma_trim_padded("    "@, t3);
    // First line: opens a row, no value.
    assert(starts_with(t0, "PackRow {"@)) by {
        assert(t0.take(9) =~= t0);
    }
    lemma_not_found(t0, fkey, 7);
    lemma_not_found(t0, lkey, 5);
    assert(!ends_with(t0, "},"@)) by {
        assert(t0.skip(7)[1] == '{');
    }
    let st1 = catalog_step(st, "    PackRow {"@);
    assert(st1 == CatalogScan { in_row: true, feature: st.feature, label: st.label, rows: st.rows });
    // Second line: the feature.
    assert(t1 =~= fkey + f + q + Seq::<char>::empty());
    lemma_slot_at_start(t1, fkey, f, Seq::<char>::empty());
    assert(!ends_with(t1, "},"@)) by {
        assert(t1.skip(t1.len() - 2)[0] == '"');
    }
    let st2 = catalog_step(st1, "        feature: \""@ + f + q);
    assert(st2.in_row && st2.feature == Some(f) && st2.rows == st.rows);
    // Third line: the label, and no feature.
    assert(t2 =~= lkey + l + q + Seq::<char>::empty());
    lemma_slot_at_start(t2, lkey, l, Seq::<char>::empty());
    assert forall|k: int| 0 <= k < t2.len() && t2[k] == fkey[7] implies k < 7 by {
        if k >= 8 && k < 8 + l.len() {
            assert(t2[k] == l[k - 8]);
        }
    }
    lemma_not_found(t2, fkey, 7);
    assert(!ends_with(t2, "},"@)) by {
        assert(t2.skip(t2.len() - 2)[0] == '"');
    }
    let st3 = catalog_step(st2, "        label: \""@ + l + q);
    assert(st3.in_row && st3.feature == Some(f) && st3.label == Some(l) && st3.rows == st.rows);
    // Fourth line: closes the row.
    lemma_not_found(t3, fkey, 7);
    lemma_not_found(t3, lkey, 5);
    assert(ends_with(t3, "},"@)) by {
        assert(t3.skip(0) =~= t3);
    }
}

/// The rows a catalog reader has completed only grow.
proof fn lemma_scan_rows_grow(lines: Seq<Seq<char>>, n: int)
    requires
        0 <= n <= lines.len(),
    ensures
        catalog_scan(lines.take(n)).rows.len() <= catalog_scan(lines).rows.len(),
        catalog_scan(lines).rows.take(catalog_scan(lines.take(n)).rows.len() as int) == catalog_scan(lines.take(n)).rows,
    decreases lines.len(),
{
    if n == lines.len() {
        assert(lines.take(n) =~= lines);
        assert(catalog_scan(lines).rows.take(catalog_scan(lines).rows.len() as int) =~= catalog_scan(lines).rows);
    } else {
        let prev = lines.drop_last();
        assert(prev.take(n) =~= lines.take(n));
        lemma_scan_rows_grow(prev, n);
        let a = catalog_scan(lines.take(n)).rows;
        let b = catalog_scan(prev).rows;
        let c = catalog_scan(lines).rows;
        assert(c == b || c == b.push(c.last()));
        assert(c.take(a.len() as int) =~= b.take(a.len() as int));
    }
}

/// The row anchor of the pack catalog, at its usual indentation.
pub open spec fn row_anchor() -> Seq<char> {
    indent4() + TABLE_INSTALL_MARKER@
}

/// A pack feature name or label as the catalog row can carry it: no quote,
/// colon, slash or line feed.
pub open spec fn row_safe(v: Seq<char>) -> bool {
    forall|k: int| 0 <= k < v.len() ==> v[k] != '"' && v[k] != ':' && v[k] != '/' && v[k] != '\n'
}

/// The catalog row of a pack: its four lines, each ended by a line feed,
/// and no slash.
proof fn lemma_row_shape(f: Seq<char>, l: Seq<char>)
    requires
        row_safe(f),
        row_safe(l),
    ensures
        spec_pack_table_row(f, l) == "    PackRow {"@ + "\n"@ + ("        feature: \""@ + f + "\","@) + "\n"@ + (
        "        label: \""@ + l + "\","@) + "\n"@ + "    },"@ + "\n"@,
        forall|k: int| 0 <= k < spec_pack_table_row(f, l).len() ==> spec_pack_table_row(f, l)[k] != '/',
        spec_pack_table_row(f, l).len() > 0,
        spec_pack_table_row(f, l).last() == '\n',
{
    let row = spec_pack_table_row(f, l);
    reveal_strlit("    PackRow {\n        feature: \"");
    reveal_strlit("\",\n        label: \"");
    reveal_strlit("\",\n    },\n");
    reveal_strlit("    PackRow {");
    reveal_strlit("        feature: \"");
    reveal_strlit("        label: \"");
    reveal_strlit("\",");
    reveal_strlit("    },");
    reveal_strlit("\n");
    let a = "    PackRow {\n        feature: \""@;
    let b = "\",\n        label: \""@;
    let c = "\",\n    },\n"@;
    assert(row =~= "    PackRow {"@ + "\n"@ + ("        feature: \""@ + f + "\","@) + "\n"@ + (
    "        label: \""@ + l + "\","@) + "\n"@ + "    },"@ + "\n"@);
    assert forall|k: int| 0 <= k < row.len() implies row[k] != '/' by {
        if k < a.len() {
            assert(row[k] == a[k]);
        } else if k < a.len() + f.len() {
            assert(row[k] == f[k - a.len()]);
        } else if k < a.len() + f.len() + b.len() {
            assert(row[k] == b[k - a.len() - f.len()]);
        } else if k < a.len() + f.len() + b.len() + l.len() {
            assert(row[k] == l[k - a.len() - f.len() - b.len()]);
        } else {
            assert(row[k] == c[k - a.len() - f.len() - b.len() - l.len()]);
        }
    }
}

/// The registry arm ends with a line feed; its anchor begins with eight
/// spaces and a slash.
proof fn lemma_arm_shape(feature: Seq<char>, crate_ident: Seq<char>)
    ensures
        spec_pack_table_arm(feature, crate_ident).last() == '\n',
        forall|k: int| 0 <= k < 8 ==> (indent8() + ARM_INSTALL_MARKER@)[k] == ' ',
        (indent8() + ARM_INSTALL_MARKER@)[8] == '/',
        (indent8() + ARM_INSTALL_MARKER@).len() > 8,
{
    reveal_strlit("        ");
    reveal_strlit("// (xtop widget install appends installed-pack arms above this line.)");
    reveal_strlit("::registry),\n            });\n        },\n");
}

/// The arm anchor does not begin inside the row: the row holds no slash and
/// ends with a line feed, where the anchor has eight spaces then a slash.
proof fn lemma_arm_anchor_misses_row(w: Seq<char>, a: int, row: Seq<char>, aa: Seq<char>, b: int)
    requires
        0 <= a,
        a + row.len() <= w.len(),
        w.subrange(a, a + row.len()) == row,
        row.len() > 0,
        row.last() == '\n',
        forall|k: int| 0 <= k < row.len() ==> row[k] != '/',
        occurs_at(w, aa, b),
        aa.len() > 8,
        forall|k: int| 0 <= k < 8 ==> aa[k] == ' ',
        aa[8] == '/',
    ensures
        !(a < b && b < a + row.len()),
{
    if a < b && b < a + row.len() {
        if b + 8 < a + row.len() {
            assert(w[b + 8] == w.subrange(b, b + aa.len())[8]);
            assert(w[b + 8] == w.subrange(a, a + row.len())[b + 8 - a]);
        } else {
            let e = a + row.len() - 1;
            assert(w[e] == w.subrange(b, b + aa.len())[e - b]);
            assert(w[e] == w.subrange(a, a + row.len())[row.len() - 1]);
        }
    }
}

/// The edited catalog holds the pack's row at the start of a line, at the
/// returned position.
#[verifier::rlimit(80)]
proof fn lemma_row_inserted(table: Seq<char>, label: Seq<char>, feature: Seq<char>, crate_ident: Seq<char>) -> (pr: int)
    requires
        spec_edit_pack_table(table, label, feature, crate_ident) matches Some(Some(_)),
        contains_seq(table, row_anchor()),
        at_line_start(table, find_from(table, row_anchor(), 0)->0),
        row_safe(feature),
        row_safe(label),
    ensures
        0 <= pr,
        pr + spec_pack_table_row(feature, label).len() <= spec_edit_pack_table(table, label, feature, crate_ident)->0->0.len(),
        spec_edit_pack_table(table, label, feature, crate_ident)->0->0.subrange(
            pr,
            pr + spec_pack_table_row(feature, label).len(),
        ) == spec_pack_table_row(feature, label),
        at_line_start(spec_edit_pack_table(table, label, feature, crate_ident)->0->0, pr),
{
    let ta = row_anchor();
    let aa = indent8() + ARM_INSTALL_MARKER@;
    let row = spec_pack_table_row(feature, label);
    let arm = spec_pack_table_arm(feature, crate_ident);
    lemma_row_shape(feature, label);
    lemma_arm_shape(feature, crate_ident);
    lemma_find_from_found(table, ta, 0);
    let a = find_from(table, ta, 0)->0;
    let with_row = replace_first(table, ta, row + ta);
    assert(with_row =~= table.take(a) + row + table.skip(a)) by {
        assert(table.skip(a) =~= ta + table.skip(a + ta.len()));
    }
    assert(with_row.subrange(a, a + row.len()) =~= row);
    let t = replace_first(with_row, aa, arm + aa);
    assert(t == spec_edit_pack_table(table, label, feature, crate_ident)->0->0);
    lemma_find_from_found(with_row, aa, 0);
    match find_from(with_row, aa, 0) {
        None => {
            if a > 0 {
                assert(with_row[a - 1] == table[a - 1]);
            }
            a
        },
        Some(b) => {
            assert(with_row.skip(b) =~= aa + with_row.skip(b + aa.len()));
            assert(t =~= with_row.take(b) + arm + with_row.skip(b));
            lemma_arm_anchor_misses_row(with_row, a, row, aa, b);
            if b >= a + row.len() {
                if a > 0 {
                    assert(t[a - 1] == with_row[a - 1]);
                    assert(with_row[a - 1] == table[a - 1]);
                }
                assert(t.subrange(a, a + row.len()) =~= row);
                a
            } else {
                let pr = a + arm.len();
                if b < a {
                    assert(t[pr - 1] == with_row[a - 1]);
                    assert(with_row[a - 1] == table[a - 1]);
                } else {
                    assert(t[pr - 1] == arm[arm.len() - 1]);
                }
                assert(t.subrange(pr, pr + row.len()) =~= row);
                pr
            }
        },
    }
}

/// A catalog that holds a pack's row at the start of a line has the row's
/// four lines from the returned index on.
proof fn lemma_row_lines(t: Seq<char>, pr: int, f: Seq<char>, l: Seq<char>) -> (k0: int)
    requires
        row_safe(f),
        row_safe(l),
        0 <= pr,
        pr + spec_pack_table_row(f, l).len() <= t.len(),
        t.subrange(pr, pr + spec_pack_table_row(f, l).len()) == spec_pack_table_row(f, l),
        at_line_start(t, pr),
    ensures
        0 <= k0,
        k0 + 3 < spec_lines(t).len(),
        spec_lines(t)[k0] == "    PackRow {"@,
        spec_lines(t)[k0 + 1] == "        feature: \""@ + f + "\","@,
        spec_lines(t)[k0 + 2] == "        label: \""@ + l + "\","@,
        spec_lines(t)[k0 + 3] == "    },"@,
{
    let row = spec_pack_table_row(f, l);
    let l0 = "    PackRow {"@;
    let l1 = "        feature: \""@ + f + "\","@;
    let l2 = "        label: \""@ + l + "\","@;
    let l3 = "    },"@;
    let nl = "\n"@;
    lemma_row_shape(f, l);
    reveal_strlit("    PackRow {");
    reveal_strlit("        feature: \"");
    reveal_strlit("        label: \"");
    reveal_strlit("\",");
    reveal_strlit("    },");
    reveal_strlit("\n");
    let p1 = pr + l0.len() + 1;
    let p2 = p1 + l1.len() + 1;
    let p3 = p2 + l2.len() + 1;
    assert(row.len() == l0.len() + l1.len() + l2.len() + l3.len() + 4);
    assert(forall|k: int| 0 <= k < row.len() ==> t[pr + k] == row[k]) by {
        assert forall|k: int| 0 <= k < row.len() implies t[pr + k] == row[k] by {
            assert(t[pr + k] == t.subrange(pr, pr + row.len())[k]);
        }
    }
    let o1 = l0.len() + 1int;
    let o2 = o1 + l1.len() + 1;
    let o3 = o2 + l2.len() + 1;
    assert(row.subrange(0, l0.len() as int) =~= l0);
    assert(row.subrange(o1, o1 + l1.len()) =~= l1);
    assert(row.subrange(o2, o2 + l2.len()) =~= l2);
    assert(row.subrange(o3, o3 + l3.len()) =~= l3);
    assert(t.subrange(pr, pr + l0.len()) =~= row.subrange(0, l0.len() as int));
    assert(t.subrange(p1, p1 + l1.len()) =~= row.subrange(o1, o1 + l1.len()));
    assert(t.subrange(p2, p2 + l2.len()) =~= row.subrange(o2, o2 + l2.len()));
    assert(t.subrange(p3, p3 + l3.len()) =~= row.subrange(o3, o3 + l3.len()));
    assert(row[o1 - 1] == '\n' && row[o2 - 1] == '\n' && row[o3 - 1] == '\n' && row[o3 + l3.len()] == '\n');
    assert(t[pr + (o1 - 1)] == row[o1 - 1]);
    assert(t[pr + (o2 - 1)] == row[o2 - 1]);
    assert(t[pr + (o3 - 1)] == row[o3 - 1]);
    assert(t[pr + (o3 + l3.len())] == row[o3 + l3.len()]);
    assert(t[pr + l0.len()] == '\n');
    assert(t[p1 + l1.len()] == '\n');
    assert(t[p2 + l2.len()] == '\n');
    assert(t[p3 + l3.len()] == '\n');
    assert forall|k: int| 0 <= k < l1.len() implies l1[k] != '\n' by {
        if 18 <= k < 18 + f.len() {
            assert(l1[k] == f[k - 18]);
        }
    }
    assert forall|k: int| 0 <= k < l2.len() implies l2[k] != '\n' by {
        if 16 <= k < 16 + l.len() {
            assert(l2[k] == l[k - 16]);
        }
    }
    let lines = spec_lines(t);
    lemma_next_line(t, pr, l0);
    lemma_next_line(t, p1, l1);
    lemma_next_line(t, p2, l2);
    lemma_next_line(t, p3, l3);
    let k0 = nl_count(t.take(pr)) as int;
    assert(lines[k0] == l0 && lines[k0 + 1] == l1 && lines[k0 + 2] == l2 && lines[k0 + 3] == l3);
    k0
}

/// Lines holding a pack's row from `k0` on make the reader return it.
proof fn lemma_scan_four(lines: Seq<Seq<char>>, k0: int, f: Seq<char>, l: Seq<char>)
    requires
        row_safe(f),
        row_safe(l),
        0 <= k0,
        k0 + 3 < lines.len(),
        lines[k0] == "    PackRow {"@,
        lines[k0 + 1] == "        feature: \""@ + f + "\","@,
        lines[k0 + 2] == "        label: \""@ + l + "\","@,
        lines[k0 + 3] == "    },"@,
    ensures
        catalog_scan(lines).rows.contains((f, l)),
{
    let st = catalog_scan(lines.take(k0));
    assert(lines.take(k0 + 1).drop_last() =~= lines.take(k0));
    assert(lines.take(k0 + 2).drop_last() =~= lines.take(k0 + 1));
    assert(lines.take(k0 + 3).drop_last() =~= lines.take(k0 + 2));
    assert(lines.take(k0 + 4).drop_last() =~= lines.take(k0 + 3));
    let s1 = catalog_scan(lines.take(k0 + 1));
    let s2 = catalog_scan(lines.take(k0 + 2));
    let s3 = catalog_scan(lines.take(k0 + 3));
    let s4 = catalog_scan(lines.take(k0 + 4));
    assert(s1 == catalog_step(st, lines[k0]));
    assert(s2 == catalog_step(s1, lines[k0 + 1]));
    assert(s3 == catalog_step(s2, lines[k0 + 2]));
    assert(s4 == catalog_step(s3, lines[k0 + 3]));
    lemma_row_scanned(st, f, l);
    assert(s4.rows == st.rows.push((f, l)));
    lemma_scan_rows_grow(lines, k0 + 4);
    let all = catalog_scan(lines).rows;
    assert(all[st.rows.len() as int] == s4.rows[st.rows.len() as int]);
    assert(all.contains((f, l)));
}

/// A pack that `xtop widget install` adds to the catalog is read back from
/// it: when the row anchor is there at the start of a line, the edited
/// catalog's rows hold the pack's `(feature, label)`.
pub proof fn lemma_pack_row_read_back(table: Seq<char>, label: Seq<char>, feature: Seq<char>, crate_ident: Seq<char>)
    requires
        spec_edit_pack_table(table, label, feature, crate_ident) matches Some(Some(_)),
        contains_seq(table, row_anchor()),
        at_line_start(table, find_from(table, row_anchor(), 0)->0),
        row_safe(feature),
        row_safe(label),
    ensures
        spec_table_rows(spec_edit_pack_table(table, label, feature, crate_ident)->0->0).contains((feature, label)),
{
    let pr = lemma_row_inserted(table, label, feature, crate_ident);
    let t = spec_edit_pack_table(table, label, feature, crate_ident)->0->0;
    let k0 = lemma_row_lines(t, pr, feature, label);
    lemma_scan_four(spec_lines(t), k0, feature, label);
}

/// A manifest line that declares the widget feature `n` makes `n` one of
/// the declared widget features.
proof fn lemma_widget_features_contains(lines: Seq<Seq<char>>, j: int, n: Seq<char>)
    requires
        0 <= j < lines.len(),
        is_widget_feature_line(trim(lines[j])),
        feature_name(trim(lines[j])) == n,
    ensures
        widget_features_of(lines).contains(n),
    decreases lines.len(),
{
    let prev = widget_features_of(lines.drop_last());
    if j == lines.len() - 1 {
        assert(widget_features_of(lines) == prev + seq![n]);
        assert(widget_features_of(lines)[prev.len() as int] == n);
    } else {
        assert(lines.drop_last()[j] == lines[j]);
        lemma_widget_features_contains(lines.drop_last(), j, n);
        let k = choose|k: int| 0 <= k < prev.len() && prev[k] == n;
        assert(widget_features_of(lines)[k] == n);
    }
}

/// The requirements of the widget install law: a pack label without white
/// space, quotes, colons, slashes, `=` or `[`; a dependency line on one
/// line without `[`; a manifest that does not declare the pack nor hold its
/// feature line yet, with the local widget packs marker or a
/// `[dependencies]` table, and a `[features]` table, each `[features]` at
/// the start of a line; a catalog without the pack's row, with both anchors,
/// the row anchor at its usual indentation at the start of a line.
pub open spec fn fresh_pack_install(
    manifest: Seq<char>,
    table: Seq<char>,
    label: Seq<char>,
    crate_ident: Seq<char>,
    dep: Seq<char>,
) -> bool {
    let pkg = "xtop-widget-"@ + label;
    let feature = "widget-"@ + label;
    &&& label.len() > 0
    &&& forall|k: int|
        0 <= k < label.len() ==> !is_white(#[trigger] label[k]) && label[k] != '"' && label[k] != ':' && label[k]
            != '/' && label[k] != '=' && label[k] != '['
    &&& dep.len() > 0
    &&& dep.last() != '\r'
    &&& forall|k: int| 0 <= k < dep.len() ==> #[trigger] dep[k] != '\n' && dep[k] != '['
    &&& !some_line_starts_with(manifest, pkg + " ="@)
    &&& !contains_seq(manifest, spec_feature_line(feature, pkg))
    &&& (contains_seq(manifest, LOCAL_WIDGETS_MARKER@) || contains_seq(manifest, "[dependencies]"@))
    &&& contains_seq(manifest, "[features]"@)
    &&& headers_at_line_starts(manifest)
    &&& spec_edit_pack_table(table, label, feature, crate_ident) matches Some(Some(_))
    &&& contains_seq(table, row_anchor())
    &&& at_line_start(table, find_from(table, row_anchor(), 0)->0)
}

/// The manifest side of a widget pack install: the pack's feature is one of
/// the widget features the edited manifest declares.
proof fn lemma_pack_feature_declared(
    manifest: Seq<char>,
    table: Seq<char>,
    label: Seq<char>,
    crate_ident: Seq<char>,
    dep: Seq<char>,
)
    requires
        fresh_pack_install(manifest, table, label, crate_ident, dep),
    ensures
        widget_features_of(
            spec_lines(
                spec_add_optional_dependency(
                    manifest,
                    "xtop-widget-"@ + label,
                    dep,
                    spec_feature_line("widget-"@ + label, "xtop-widget-"@ + label),
                    LOCAL_WIDGETS_MARKER@,
                ).0,
            ),
        ).contains("widget-"@ + label),
{
    let m = LOCAL_WIDGETS_MARKER@;
    let pkg = "xtop-widget-"@ + label;
    let feature = "widget-"@ + label;
    let fl = spec_feature_line(feature, pkg);
    let dp = "dep:"@ + pkg;
    reveal_strlit("xtop-widget-");
    reveal_strlit("widget-");
    reveal_strlit("dep:");
    reveal_strlit("dep:xtop-widget-");
    assert forall|k: int| 0 <= k < pkg.len() implies !is_white(#[trigger] pkg[k]) by {
        if k >= 12 {
            assert(pkg[k] == label[k - 12]);
        }
    }
    assert forall|k: int| 0 <= k < feature.len() implies !is_white(#[trigger] feature[k]) && feature[k] != '='
        && feature[k] != '\n' by {
        if k >= 7 {
            assert(feature[k] == label[k - 7]);
        }
    }
    lemma_markers_usable();
    let q = lemma_dependency_added(manifest, dep, m);
    let x = with_dependency(manifest, dep, m);
    let res = spec_add_optional_dependency(manifest, pkg, dep, fl, m);
    assert(res.0 == replace_first(x, "[features]"@, "[features]\n"@ + fl));
    lemma_feature_line_shape(feature, pkg);
    assert(dp.take(4) =~= "dep:"@);
    let off = feature.len() + 5int;
    let kf = lemma_feature_added(x, fl, dep, q, off, dp).1;
    let lines = spec_lines(res.0);
    assert(fl[0] == feature[0]);
    lemma_trim_keeps_prefix(lines[kf], fl);
    let tl = trim(lines[kf]);
    let n = feature.len() as int;
    assert(forall|k: int| 0 <= k < fl.len() ==> tl[k] == fl[k]) by {
        assert forall|k: int| 0 <= k < fl.len() implies tl[k] == fl[k] by {
            assert(tl[k] == tl.take(fl.len() as int)[k]);
        }
    }
    assert(tl.take(7) =~= "widget-"@);
    assert(tl.subrange(off, off + 16) =~= "dep:xtop-widget-"@) by {
        assert(tl.subrange(off, off + 16) =~= dp.take(16));
    }
    lemma_occurs_found(tl, "dep:xtop-widget-"@, 0, off);
    assert(is_widget_feature_line(tl));
    reveal_strlit(" = [\"dep:");
    assert(fl[n] == ' ' && fl[n + 1] == '=');
    assert(tl[n] == ' ' && tl[n + 1] == '=');
    lemma_find_char_prefix(tl, '=', 0, n + 1);
    assert(find_char_from(tl, '=', n + 1) == n + 1);
    assert(tl.take(n + 1) =~= feature + seq![' ']);
    lemma_trim_word_space(feature);
    lemma_widget_features_contains(lines, kf, feature);
}

/// A widget pack that `xtop widget install` wires in shows in `xtop widget
/// list`: after a fresh install (see `fresh_pack_install`) edits the kernel
/// manifest and the pack catalog, the installed packs read from both hold
/// the pack's `(feature, label)`.
pub proof fn lemma_installed_pack_is_listed(
    manifest: Seq<char>,
    table: Seq<char>,
    label: Seq<char>,
    crate_ident: Seq<char>,
    dep: Seq<char>,
)
    requires
        fresh_pack_install(manifest, table, label, crate_ident, dep),
    ensures
        spec_installed_packs(
            spec_table_rows(spec_edit_pack_table(table, label, "widget-"@ + label, crate_ident)->0->0),
            widget_features_of(
                spec_lines(
                    spec_add_optional_dependency(
                        manifest,
                        "xtop-widget-"@ + label,
                        dep,
                        spec_feature_line("widget-"@ + label, "xtop-widget-"@ + label),
                        LOCAL_WIDGETS_MARKER@,
                    ).0,
                ),
            ),
        ).contains(("widget-"@ + label, label)),
{
    broadcast use vstd::seq_lib::group_filter_ensures;
    let feature = "widget-"@ + label;
    reveal_strlit("widget-");
    assert forall|k: int| 0 <= k < feature.len() implies feature[k] != '"' && feature[k] != ':' && feature[k] != '/'
        && feature[k] != '\n' by {
        if k >= 7 {
            assert(feature[k] == label[k - 7]);
        }
    }
    lemma_pack_feature_declared(manifest, table, label, crate_ident, dep);
    lemma_pack_row_read_back(table, label, feature, crate_ident);
    let rows = spec_table_rows(spec_edit_pack_table(table, label, feature, crate_ident)->0->0);
    let i = choose|i: int| 0 <= i < rows.len() && rows[i] == (feature, label);
    assert(rows[i] == (feature, label));
}

/// What a filter keeps comes from the filtered sequence.
proof fn lemma_filter_member(rows: Seq<(Seq<char>, Seq<char>)>, pred: spec_fn((Seq<char>, Seq<char>)) -> bool, j: int)
    requires
        0 <= j < rows.filter(pred).len(),
    ensures
        rows.contains(rows.filter(pred)[j]),
    decreases rows.len(),
{
    reveal(Seq::filter);
    let p = rows.drop_last();
    let fp = p.filter(pred);
    assert(rows.filter(pred) == if pred(rows.last()) { fp.push(rows.last()) } else { fp });
    if j < fp.len() {
        lemma_filter_member(p, pred, j);
        let k = choose|k: int| 0 <= k < p.len() && p[k] == fp[j];
        assert(rows[k] == p[k]);
    } else {
        assert(rows.filter(pred)[j] == rows[rows.len() - 1]);
    }
}

/// `xtop widget list` lists a catalog row exactly when it is the base pack
/// `default` or the manifest declares its feature: every listed row is such
/// a catalog row, and every such catalog row is listed.
pub proof fn lemma_installed_packs_are_the_wired_rows(
    rows: Seq<(Seq<char>, Seq<char>)>,
    features: Seq<Seq<char>>,
)
    ensures
        spec_installed_packs(rows, features).len() <= rows.len(),
        forall|j: int|
            0 <= j < spec_installed_packs(rows, features).len() ==> {
                let r = #[trigger] spec_installed_packs(rows, features)[j];
                &&& (r.0 == "default"@ || features.contains(r.0))
                &&& rows.contains(r)
            },
        forall|i: int|
            0 <= i < rows.len() && (#[trigger] rows[i].0 == "default"@ || features.contains(rows[i].0))
                ==> spec_installed_packs(rows, features).contains(rows[i]),
{
    broadcast use vstd::seq_lib::group_filter_ensures;
    let pred = |r: (Seq<char>, Seq<char>)| r.0 == "default"@ || features.contains(r.0);
    let out = rows.filter(pred);
    assert(spec_installed_packs(rows, features) == out);
    assert forall|j: int| 0 <= j < out.len() implies {
        let r = #[trigger] out[j];
        &&& (r.0 == "default"@ || features.contains(r.0))
        &&& rows.contains(r)
    } by {
        assert(pred(out[j]));
        lemma_filter_member(rows, pred, j);
    }
    assert forall|i: int| 0 <= i < rows.len() && (#[trigger] rows[i].0 == "default"@ || features.contains(rows[i].0))
        implies out.contains(rows[i]) by {
        assert(pred(rows[i]));
    }
}

/// A catalog row added at the end of the table is listed after the others,
/// when its pack is `default` or its feature is declared, and is not listed
/// otherwise: the listing keeps the table order.
pub proof fn lemma_installed_packs_append(
    rows: Seq<(Seq<char>, Seq<char>)>,
    row: (Seq<char>, Seq<char>),
    features: Seq<Seq<char>>,
)
    ensures
        spec_installed_packs(rows.push(row), features) == if row.0 == "default"@ || features.contains(row.0) {
            spec_installed_packs(rows, features).push(row)
        } else {
            spec_installed_packs(rows, features)
        },
{
    reveal(Seq::filter);
    assert(rows.push(row).drop_last() =~= rows);
    assert(rows.push(row).last() == row);
}

} // verus!
