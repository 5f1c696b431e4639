//! `xtop plugin list`: the plugins wired into the kernel manifest, and how
//! the manifest edits of `xtop plugin install` show in that listing.

use vstd::prelude::*;
use crate::text::{
    chars_of, contains_seq, find_char_from, find_in_range, line_ranges, range_starts_with, ranges_texts,
    ranges_within, spec_lines, starts_with, trim, trim_range, occurs_at, find_from, replace_all,
    lemma_find_from_found, lemma_occurs_found, replace_first, is_white, at_line_start, line_text_at,
    nl_count, lemma_line_at, lemma_nl_count_add, lemma_line_text_starts, lemma_trim_keeps_prefix,
    lemma_trim_word_space, lemma_find_char_prefix,
};
use crate::commands::install::{
    spec_add_optional_dependency, spec_git_dependency, spec_feature_line, some_line_starts_with,
    LOCAL_PLUGINS_MARKER, LOCAL_WIDGETS_MARKER,
};
use vstd::string::StrSliceExecFns;

verus! {

/// A trimmed manifest line that declares a plugin dependency
/// (`xtop-plugin-<x> = ...`), and the name before its first `=`, trimmed.
pub open spec fn plugin_entry_name(l: Seq<char>) -> Option<Seq<char>> {
    if starts_with(l, "xtop-plugin-"@) && contains_seq(l, "="@) && !starts_with(l, "#"@) {
        Some(trim(l.take(find_char_from(l, '=', 0))))
    } else {
        None
    }
}

/// Some line of the manifest contains `t`.
pub open spec fn some_line_contains(lines: Seq<Seq<char>>, t: Seq<char>) -> bool {
    exists|j: int| 0 <= j < lines.len() && contains_seq(#[trigger] lines[j], t)
}

/// From the first line that starts (trimmed) with `[features]` on, some
/// line mentions a `dep:` entry.
pub open spec fn features_use_deps(lines: Seq<Seq<char>>) -> bool {
    exists|k: int, j: int|
        0 <= k <= j < lines.len() && starts_with(trim(#[trigger] lines[k]), "[features]"@) && contains_seq(
            #[trigger] lines[j],
            "dep:"@,
        )
}

/// The plugins declared by `lines` (in order) whose `dep:<name>` appears in
/// some line of `all`.
pub open spec fn wired_plugins(lines: Seq<Seq<char>>, all: Seq<Seq<char>>) -> Seq<Seq<char>>
    decreases lines.len(),
{
    if lines.len() == 0 {
        Seq::empty()
    } else {
        wired_plugins(lines.drop_last(), all) + match plugin_entry_name(trim(lines.last())) {
            Some(n) => if n.len() > 0 && some_line_contains(all, "dep:"@ + n) {
                seq![n]
            } else {
                Seq::empty()
            },
            None => Seq::empty(),
        }
    }
}

/// The plugins wired into a kernel manifest: none unless the `[features]`
/// part has a `dep:` entry; otherwise every declared `xtop-plugin-*`
/// dependency that some feature line enables, in manifest order.
pub open spec fn spec_installed_plugins(manifest: Seq<char>) -> Seq<Seq<char>> {
    let lines = spec_lines(manifest);
    if features_use_deps(lines) {
        wired_plugins(lines, lines)
    } else {
        Seq::empty()
    }
}

/// Whether some line (a range of `c`) contains `t`.
fn any_line_contains(c: &Vec<char>, lines: &Vec<(usize, usize)>, t: &Vec<char>) -> (r: bool)
    requires
        ranges_within(c@, lines@),
    ensures
        r == some_line_contains(ranges_texts(c@, lines@), t@),
{
    let ghost all = ranges_texts(c@, lines@);
    for i in 0..lines.len()
        invariant
            all == ranges_texts(c@, lines@),
            ranges_within(c@, lines@),
            forall|j: int| 0 <= j < i ==> !contains_seq(#[trigger] all[j], t@),
    {
        let (lo, hi) = lines[i];
        proof {
            assert(all[i as int] == c@.subrange(lo as int, hi as int));
        }
        if find_in_range(c, lo, hi, lo, t).is_some() {
            return true;
        }
    }
    false
}

/// The position of the first `x` in `[lo, hi)` of `c`, or `hi`.
fn first_char_in(c: &Vec<char>, lo: usize, hi: usize, x: char) -> (r: usize)
    requires
        lo <= hi <= c@.len(),
    ensures
        lo <= r <= hi,
        r - lo == find_char_from(c@.subrange(lo as int, hi as int), x, 0),
{
    let ghost s = c@.subrange(lo as int, hi as int);
    let mut k = lo;
    while k < hi && c[k] != x
        invariant
            lo <= k <= hi <= c@.len(),
            s == c@.subrange(lo as int, hi as int),
            find_char_from(s, x, 0) == find_char_from(s, x, k - lo),
        decreases hi - k,
    {
        k += 1;
    }
    k
}

/// The plugins wired into the kernel manifest (see `spec_installed_plugins`);
/// empty means that none is.
pub fn installed_plugins(manifest: &str) -> (r: Vec<String>)
    ensures
        r@.map_values(|s: String| s@) == spec_installed_plugins(manifest@),
{
    let c = chars_of(manifest);
    let lines = line_ranges(&c);
    let ghost all = spec_lines(manifest@);
    let features = chars_of("[features]");
    let dep = chars_of("dep:");
    let eq = chars_of("=");
    let prefix = chars_of("xtop-plugin-");
    let hash = chars_of("#");
    let mut seen = false;
    let mut uses_deps = false;
    let mut i: usize = 0;
    while i < lines.len() && !uses_deps
        invariant
            c@ == manifest@,
            all == spec_lines(c@),
            ranges_texts(c@, lines@) == all,
            ranges_within(c@, lines@),
            features@ == "[features]"@,
            dep@ == "dep:"@,
            i <= lines@.len(),
            seen == exists|k: int| 0 <= k < i && starts_with(trim(#[trigger] all[k]), "[features]"@),
            uses_deps ==> features_use_deps(all),
            !uses_deps ==> forall|k: int, j: int|
                0 <= k <= j < i ==> !(starts_with(trim(#[trigger] all[k]), "[features]"@) && contains_seq(
                    #[trigger] all[j],
                    "dep:"@,
                )),
        decreases lines@.len() - i,
    {
        let (lo, hi) = lines[i];
        proof {
            assert(all[i as int] == c@.subrange(lo as int, hi as int));
        }
        let (a, b) = trim_range(&c, lo, hi);
        if range_starts_with(&c, a, b, &features) {
            seen = true;
        }
        if seen && find_in_range(&c, lo, hi, lo, &dep).is_some() {
            uses_deps = true;
            proof {
                let k = choose|k: int| 0 <= k <= i && starts_with(trim(#[trigger] all[k]), "[features]"@);
                assert(contains_seq(all[i as int], "dep:"@));
                assert(starts_with(trim(all[k]), "[features]"@));
            }
        }
        i = i + 1;
    }
    let mut r: Vec<String> = Vec::new();
    if !uses_deps {
        proof {
            assert(!features_use_deps(all));
        }
        return r;
    }
    for i in 0..lines.len()
        invariant
            c@ == manifest@,
            all == spec_lines(c@),
            ranges_texts(c@, lines@) == all,
            ranges_within(c@, lines@),
            features_use_deps(all),
            eq@ == "="@,
            prefix@ == "xtop-plugin-"@,
            hash@ == "#"@,
            r@.map_values(|s: String| s@) == wired_plugins(all.take(i as int), all),
    {
        let (lo, hi) = lines[i];
        proof {
            assert(all[i as int] == c@.subrange(lo as int, hi as int));
            assert(all.take(i + 1).drop_last() =~= all.take(i as int));
            assert(all.take(i + 1).last() == all[i as int]);
        }
        let (a, b) = trim_range(&c, lo, hi);
        let ghost l = c@.subrange(a as int, b as int);
        let is_entry = range_starts_with(&c, a, b, &prefix) && find_in_range(&c, a, b, a, &eq).is_some()
            && !range_starts_with(&c, a, b, &hash);
        if is_entry {
            let e = first_char_in(&c, a, b, '=');
            let (na, nb) = trim_range(&c, a, e);
            proof {
                assert(l.take(e - a) =~= c@.subrange(a as int, e as int));
            }
            if na < nb {
                let mut t = chars_of("dep:");
                let mut k = na;
                while k < nb
                    invariant
                        na <= k <= nb <= c@.len(),
                        t@ == "dep:"@ + c@.subrange(na as int, k as int),
                    decreases nb - k,
                {
                    t.push(c[k]);
                    proof {
                        assert(c@.subrange(na as int, k + 1) =~= c@.subrange(na as int, k as int).push(c@[k as int]));
                    }
                    k += 1;
                }
                let ghost before = r@;
                if any_line_contains(&c, &lines, &t) {
                    r.push(manifest.substring_char(na, nb).to_string());
                    proof {
                        assert(r@.map_values(|s: String| s@) =~= before.map_values(|s: String| s@).push(
                            c@.subrange(na as int, nb as int),
                        ));
                    }
                }
            }
        }
        proof {
            assert(r@.map_values(|s: String| s@) =~= wired_plugins(all.take(i + 1), all));
        }
    }
    proof {
        assert(all.take(lines@.len() as int) =~= all);
    }
    r
}

/// Every `[features]` of `s` past its first character begins a line.
pub open spec fn headers_at_line_starts(s: Seq<char>) -> bool {
    forall|p: int| 0 < p && #[trigger] occurs_at(s, "[features]"@, p) ==> s[p - 1] == '\n'
}

/// Inserting a line break and a text without `[` after every occurrence of
/// a pattern keeps every `[features]` at the start of a line, adds none at
/// the very start, and removes none.
proof fn lemma_insertions_keep_headers(s: Seq<char>, pat: Seq<char>, j: Seq<char>)
    requires
        pat.len() > 0,
        pat.last() != '\n',
        forall|k: int| 0 <= k < 9 ==> "[features]"@[k] != pat.last(),
        j.len() > 0,
        j[0] == '\n',
        forall|k: int| 0 <= k < j.len() ==> j[k] != '[',
        headers_at_line_starts(s),
    ensures
        headers_at_line_starts(replace_all(s, pat, pat + j)),
        occurs_at(replace_all(s, pat, pat + j), "[features]"@, 0) ==> occurs_at(s, "[features]"@, 0),
        contains_seq(s, "[features]"@) ==> contains_seq(replace_all(s, pat, pat + j), "[features]"@),
    decreases s.len(),
{
    let f = "[features]"@;
    reveal_strlit("[features]");
    assert(f.len() == 10);
    assert(f[0] == '[');
    assert(forall|k: int| 0 <= k < 10 ==> f[k] != '\n');
    let x = replace_all(s, pat, pat + j);
    lemma_find_from_found(s, pat, 0);
    match find_from(s, pat, 0) {
        None => {
            assert(x == s);
        },
        Some(i) => {
            let a = i + pat.len();
            let s1 = s.skip(a);
            let x1 = replace_all(s1, pat, pat + j);
            assert(x == s.take(i) + (pat + j) + x1);
            assert(s.subrange(i, a) == pat);
            assert(s.take(i) + (pat + j) + x1 =~= s.take(a) + j + x1);
            let b = a + j.len();
            assert(s[a - 1] == pat.last()) by {
                assert(s[a - 1] == s.subrange(i, a)[pat.len() - 1]);
            }
            assert(headers_at_line_starts(s1)) by {
                assert forall|p: int| 0 < p && #[trigger] occurs_at(s1, f, p) implies s1[p - 1] == '\n' by {
                    assert(s.subrange(p + a, p + a + 10) =~= s1.subrange(p, p + 10));
                    assert(occurs_at(s, f, p + a));
                }
            }
            lemma_insertions_keep_headers(s1, pat, j);
            assert(x.len() == b + x1.len());
            assert(forall|k: int| 0 <= k < a ==> x[k] == s[k]);
            assert(forall|k: int| a <= k < b ==> x[k] == j[k - a]);
            assert(forall|k: int| b <= k < x.len() ==> x[k] == x1[k - b]);
            assert forall|p: int| #[trigger] occurs_at(x, f, p) implies (p == 0 && occurs_at(s, f, 0)) || (p > 0
                && x[p - 1] == '\n') by {
                if p + 10 <= a {
                    assert(x.subrange(p, p + 10) =~= s.subrange(p, p + 10));
                    assert(occurs_at(s, f, p));
                } else if p < a {
                    assert(x[a] == x.subrange(p, p + 10)[a - p]);
                } else if p < b {
                    assert(x[p] == x.subrange(p, p + 10)[0]);
                } else {
                    assert(x1.subrange(p - b, p - b + 10) =~= x.subrange(p, p + 10));
                    assert(occurs_at(x1, f, p - b));
                    if p == b {
                        assert(s.subrange(a, a + 10) =~= s1.subrange(0, 10));
                        assert(occurs_at(s, f, a));
                    }
                }
            }
            if contains_seq(s, f) {
                lemma_find_from_found(s, f, 0);
                let p0 = find_from(s, f, 0)->0;
                if p0 + 10 <= a {
                    assert(x.subrange(p0, p0 + 10) =~= s.subrange(p0, p0 + 10));
                    lemma_occurs_found(x, f, 0, p0);
                } else if p0 < a {
                    assert(s[a - 1] == s.subrange(p0, p0 + 10)[a - 1 - p0]);
                } else {
                    assert(s1.subrange(p0 - a, p0 - a + 10) =~= s.subrange(p0, p0 + 10));
                    lemma_occurs_found(s1, f, 0, p0 - a);
                    lemma_find_from_found(x1, f, 0);
                    let p1 = find_from(x1, f, 0)->0;
                    assert(x.subrange(b + p1, b + p1 + 10) =~= x1.subrange(p1, p1 + 10));
                    lemma_occurs_found(x, f, 0, b + p1);
                }
            }
        },
    }
}

/// A declared plugin whose feature line some line holds is listed.
proof fn lemma_wired_contains(lines: Seq<Seq<char>>, all: Seq<Seq<char>>, j: int, n: Seq<char>)
    requires
        0 <= j < lines.len(),
        plugin_entry_name(trim(lines[j])) == Some(n),
        n.len() > 0,
        some_line_contains(all, "dep:"@ + n),
    ensures
        wired_plugins(lines, all).contains(n),
    decreases lines.len(),
{
    let prev = wired_plugins(lines.drop_last(), all);
    if j == lines.len() - 1 {
        assert(wired_plugins(lines, all) == prev + seq![n]);
        assert(wired_plugins(lines, all)[prev.len() as int] == n);
    } else {
        assert(lines.drop_last()[j] == lines[j]);
        lemma_wired_contains(lines.drop_last(), all, j, n);
        let k = choose|k: int| 0 <= k < prev.len() && prev[k] == n;
        assert(wired_plugins(lines, all)[k] == n);
    }
}

/// The dependency line of a plugin package: no `[` and no line feed,
/// between an `x` and a `}`, and it begins with `<pkg> =`.
proof fn lemma_dependency_line_shape(pkg: Seq<char>, url: Seq<char>)
    requires
        starts_with(pkg, "xtop-plugin-"@),
        forall|k: int| 0 <= k < pkg.len() ==> !is_white(#[trigger] pkg[k]) && pkg[k] != '=' && pkg[k] != '[',
        forall|k: int| 0 <= k < url.len() ==> #[trigger] url[k] != '\n' && url[k] != '[',
    ensures
        forall|k: int|
            0 <= k < spec_git_dependency(pkg, url).len() ==> #[trigger] spec_git_dependency(pkg, url)[k] != '['
                && spec_git_dependency(pkg, url)[k] != '\n',
        spec_git_dependency(pkg, url)[0] == 'x',
        spec_git_dependency(pkg, url).last() == '}',
        pkg.len() + 2 < spec_git_dependency(pkg, url).len(),
        spec_git_dependency(pkg, url).subrange(0, pkg.len() + 2int) == pkg + " ="@,
{
    let dep = spec_git_dependency(pkg, url);
    let a = " = { git = \""@;
    let b = "\", optional = true }"@;
    reveal_strlit(" = { git = \"");
    reveal_strlit("\", optional = true }");
    reveal_strlit("xtop-plugin-");
    reveal_strlit(" =");
    assert(pkg.len() >= 12);
    assert(pkg[0] == pkg.take(12)[0]);
    assert forall|k: int| 0 <= k < dep.len() implies dep[k] != '[' && dep[k] != '\n' by {
        if k < pkg.len() {
            assert(dep[k] == pkg[k]);
        } else if k < pkg.len() + a.len() {
            assert(dep[k] == a[k - pkg.len()]);
        } else if k < pkg.len() + a.len() + url.len() {
            assert(dep[k] == url[k - pkg.len() - a.len()]);
        } else {
            assert(dep[k] == b[k - pkg.len() - a.len() - url.len()]);
        }
    }
    assert(dep.subrange(0, pkg.len() + 2int) =~= pkg + " ="@);
}

/// The feature line of a plugin: no line feed, ends with `]`, and holds
/// `dep:<pkg>` after the feature name and ` = ["`.
pub(crate) proof fn lemma_feature_line_shape(feat: Seq<char>, pkg: Seq<char>)
    requires
        forall|k: int| 0 <= k < pkg.len() ==> !is_white(#[trigger] pkg[k]),
        forall|k: int| 0 <= k < feat.len() ==> #[trigger] feat[k] != '\n',
    ensures
        forall|k: int| 0 <= k < spec_feature_line(feat, pkg).len() ==> #[trigger] spec_feature_line(feat, pkg)[k] != '\n',
        spec_feature_line(feat, pkg).last() == ']',
        feat.len() + 9 + pkg.len() <= spec_feature_line(feat, pkg).len(),
        spec_feature_line(feat, pkg).subrange(feat.len() + 5int, feat.len() + 9int + pkg.len()) == "dep:"@ + pkg,
{
    let fl = spec_feature_line(feat, pkg);
    let fa = " = [\"dep:"@;
    let fb = "\"]"@;
    reveal_strlit(" = [\"dep:");
    reveal_strlit("\"]");
    reveal_strlit("dep:");
    assert forall|k: int| 0 <= k < fl.len() implies fl[k] != '\n' by {
        if k < feat.len() {
            assert(fl[k] == feat[k]);
        } else if k < feat.len() + fa.len() {
            assert(fl[k] == fa[k - feat.len()]);
        } else if k < feat.len() + fa.len() + pkg.len() {
            assert(fl[k] == pkg[k - feat.len() - fa.len()]);
            assert(!is_white(pkg[k - feat.len() - fa.len()]));
        } else {
            assert(fl[k] == fb[k - feat.len() - fa.len() - pkg.len()]);
        }
    }
    assert(fl.subrange(feat.len() + 5int, feat.len() + 9int + pkg.len()) =~= "dep:"@ + pkg);
}

/// The manifest text once the dependency line is in under the marker
/// comment `m` (the marker added first when missing).
pub open spec fn with_dependency(content: Seq<char>, dep: Seq<char>, m: Seq<char>) -> Seq<char> {
    let w = if contains_seq(content, m) {
        content
    } else {
        replace_all(content, "[dependencies]"@, "[dependencies]\n"@ + m)
    };
    replace_all(w, m, m + "\n"@ + dep)
}

/// A marker comment that the insertions can work with: no `[`, and a last
/// character that is neither a line feed nor one of `[feature`.
pub open spec fn usable_marker(m: Seq<char>) -> bool {
    &&& m.len() > 0
    &&& m.last() != '\n'
    &&& forall|k: int| 0 <= k < 9 ==> "[features]"@[k] != m.last()
    &&& forall|k: int| 0 <= k < m.len() ==> m[k] != '['
}

/// Both marker comments of the kernel manifest are usable.
pub(crate) proof fn lemma_markers_usable()
    ensures
        usable_marker(LOCAL_PLUGINS_MARKER@),
        usable_marker(LOCAL_WIDGETS_MARKER@),
{
    reveal_strlit("# Local plugin installs (xtop plugin install)");
    reveal_strlit("# Local widget pack installs (xtop widget install)");
    reveal_strlit("[features]");
    assert(LOCAL_PLUGINS_MARKER@.last() == ')');
    assert(LOCAL_WIDGETS_MARKER@.last() == ')');
}

/// Adding the dependency line keeps the `[features]` tables at line starts
/// and puts the line itself at the start of a line, at `q`.
pub(crate) proof fn lemma_dependency_added(content: Seq<char>, dep: Seq<char>, m: Seq<char>) -> (q: int)
    requires
        usable_marker(m),
        forall|k: int| 0 <= k < dep.len() ==> #[trigger] dep[k] != '[',
        contains_seq(content, m) || contains_seq(content, "[dependencies]"@),
        contains_seq(content, "[features]"@),
        headers_at_line_starts(content),
    ensures
        headers_at_line_starts(with_dependency(content, dep, m)),
        contains_seq(with_dependency(content, dep, m), "[features]"@),
        0 < q,
        q + dep.len() <= with_dependency(content, dep, m).len(),
        with_dependency(content, dep, m).subrange(q, q + dep.len()) == dep,
        with_dependency(content, dep, m)[q - 1] == '\n',
{
    let d = "[dependencies]"@;
    let nl = "\n"@;
    reveal_strlit("[features]");
    reveal_strlit("[dependencies]");
    reveal_strlit("\n");
    reveal_strlit("[dependencies]\n");
    assert(nl.len() == 1 && nl[0] == '\n');
    let w = if contains_seq(content, m) {
        content
    } else {
        replace_all(content, d, "[dependencies]\n"@ + m)
    };
    assert(headers_at_line_starts(w) && contains_seq(w, "[features]"@) && contains_seq(w, m)) by {
        if !contains_seq(content, m) {
            let j = nl + m;
            assert("[dependencies]\n"@ + m =~= d + j);
            lemma_insertions_keep_headers(content, d, j);
            lemma_find_from_found(content, d, 0);
            let i0 = find_from(content, d, 0)->0;
            assert(w == content.take(i0) + (d + j) + replace_all(content.skip(i0 + d.len()), d, d + j));
            assert(w.subrange(i0 + 15, i0 + 15 + m.len()) =~= m);
            lemma_occurs_found(w, m, 0, i0 + 15);
        }
    }
    let jd = nl + dep;
    assert(m + nl + dep =~= m + jd);
    let x = replace_all(w, m, m + jd);
    assert(x == with_dependency(content, dep, m));
    lemma_insertions_keep_headers(w, m, jd);
    lemma_find_from_found(w, m, 0);
    let i = find_from(w, m, 0)->0;
    assert(x == w.take(i) + (m + jd) + replace_all(w.skip(i + m.len()), m, m + jd));
    let q = i + m.len() + 1;
    assert(x.subrange(q, q + dep.len()) =~= dep);
    assert(x[q - 1] == '\n');
    q
}

/// A trimmed line that begins with a plugin's dependency line declares that
/// plugin.
proof fn lemma_entry_name(tl: Seq<char>, pkg: Seq<char>, dep: Seq<char>)
    requires
        starts_with(pkg, "xtop-plugin-"@),
        forall|k: int| 0 <= k < pkg.len() ==> !is_white(#[trigger] pkg[k]) && pkg[k] != '=',
        pkg.len() + 2 < dep.len(),
        dep.subrange(0, pkg.len() + 2int) == pkg + " ="@,
        starts_with(tl, dep),
    ensures
        plugin_entry_name(tl) == Some(pkg),
{
    reveal_strlit("xtop-plugin-");
    reveal_strlit(" =");
    reveal_strlit("=");
    reveal_strlit("#");
    let n = pkg.len() as int;
    assert(n >= 12);
    assert(tl.subrange(0, n + 2) =~= pkg + " ="@) by {
        assert(tl.subrange(0, n + 2) =~= dep.subrange(0, n + 2));
    }
    assert(forall|k: int| 0 <= k < n ==> tl[k] == pkg[k]) by {
        assert forall|k: int| 0 <= k < n implies tl[k] == pkg[k] by {
            assert(tl[k] == tl.subrange(0, n + 2)[k]);
        }
    }
    assert(tl[n] == ' ') by {
        assert(tl[n] == tl.subrange(0, n + 2)[n]);
    }
    assert(tl[n + 1] == '=') by {
        assert(tl[n + 1] == tl.subrange(0, n + 2)[n + 1]);
    }
    assert(tl.take(12) =~= pkg.take(12));
    assert(starts_with(tl, "xtop-plugin-"@));
    assert(tl.subrange(n + 1, n + 2) =~= "="@);
    lemma_occurs_found(tl, "="@, 0, n + 1);
    assert(!starts_with(tl, "#"@)) by {
        assert(tl[0] == pkg[0]);
        assert(pkg[0] == pkg.take(12)[0]);
        if starts_with(tl, "#"@) {
            assert(tl[0] == tl.take(1)[0]);
        }
    }
    lemma_find_char_prefix(tl, '=', 0, n + 1);
    assert(find_char_from(tl, '=', n + 1) == n + 1);
    assert(tl.take(n + 1) =~= pkg + seq![' ']);
    lemma_trim_word_space(pkg);
}

/// Putting the feature line right after the first `[features]` (which
/// begins a line) makes the `[features]` table enable a dependency, keeps a
/// line that holds `dp`, and keeps the dependency line at `q` as the start
/// of a line (whose index is returned).
pub(crate) proof fn lemma_feature_added(x: Seq<char>, fl: Seq<char>, dep: Seq<char>, q: int, off: int, dp: Seq<char>) -> (ks: (int, int))
    requires
        headers_at_line_starts(x),
        contains_seq(x, "[features]"@),
        0 < q,
        q + dep.len() <= x.len(),
        x.subrange(q, q + dep.len()) == dep,
        x[q - 1] == '\n',
        dep.len() > 0,
        dep.last() != '\r',
        forall|k: int| 0 <= k < dep.len() ==> #[trigger] dep[k] != '[' && dep[k] != '\n',
        forall|k: int| 0 <= k < fl.len() ==> #[trigger] fl[k] != '\n',
        fl.last() == ']',
        0 <= off,
        off + dp.len() <= fl.len(),
        fl.subrange(off, off + dp.len()) == dp,
        dp.len() >= 4,
        dp.take(4) == "dep:"@,
    ensures
        features_use_deps(spec_lines(replace_first(x, "[features]"@, "[features]\n"@ + fl))),
        some_line_contains(spec_lines(replace_first(x, "[features]"@, "[features]\n"@ + fl)), dp),
        0 <= ks.0 < spec_lines(replace_first(x, "[features]"@, "[features]\n"@ + fl)).len(),
        starts_with(spec_lines(replace_first(x, "[features]"@, "[features]\n"@ + fl))[ks.0], dep),
        0 <= ks.1 < spec_lines(replace_first(x, "[features]"@, "[features]\n"@ + fl)).len(),
        starts_with(spec_lines(replace_first(x, "[features]"@, "[features]\n"@ + fl))[ks.1], fl),
        contains_seq(replace_first(x, "[features]"@, "[features]\n"@ + fl), fl),
{
    let f = "[features]"@;
    reveal_strlit("[features]");
    reveal_strlit("[features]\n");
    reveal_strlit("dep:");
    assert(f.len() == 10);
    assert(f[0] == '[');
    assert(forall|k: int| 0 <= k < 10 ==> f[k] != '\n');
    let r = replace_first(x, f, "[features]\n"@ + fl);
    lemma_find_from_found(x, f, 0);
    let ff = find_from(x, f, 0)->0;
    assert(occurs_at(x, f, ff));
    let h = "[features]\n"@ + fl;
    assert(r == x.take(ff) + h + x.skip(ff + 10));
    let hl = h.len() as int;
    assert(hl == 11 + fl.len());
    assert(r.len() == x.len() + 1 + fl.len());
    assert(forall|k: int| 0 <= k < ff ==> r[k] == x[k]);
    assert(forall|k: int| ff + hl <= k < r.len() ==> r[k] == x[k - hl + 10]);
    assert(r.subrange(ff, ff + 10) =~= f);
    assert(r[ff + 10] == '\n');
    assert(r.subrange(ff + 11, ff + 11 + fl.len()) =~= fl);
    lemma_occurs_found(r, fl, 0, ff + 11);
    assert(at_line_start(r, ff)) by {
        if ff > 0 {
            assert(x[ff - 1] == '\n');
        }
    }
    let lines = spec_lines(r);
    // The `[features]` line and the feature line right under it.
    lemma_line_at(r, ff);
    let k1 = nl_count(r.take(ff)) as int;
    lemma_line_text_starts(r, ff, f);
    lemma_trim_keeps_prefix(lines[k1], f);
    assert(at_line_start(r, ff + 11));
    lemma_line_at(r, ff + 11);
    let k2 = nl_count(r.take(ff + 11)) as int;
    assert(r.take(ff + 11) =~= r.take(ff) + r.subrange(ff, ff + 11));
    lemma_nl_count_add(r.take(ff), r.subrange(ff, ff + 11));
    lemma_line_text_starts(r, ff + 11, fl);
    let l2 = lines[k2];
    assert(l2.subrange(off, off + dp.len()) =~= dp) by {
        assert(l2.subrange(off, off + dp.len()) =~= fl.subrange(off, off + dp.len()));
    }
    lemma_occurs_found(l2, dp, 0, off);
    assert(l2.subrange(off, off + 4) =~= "dep:"@) by {
        assert(l2.subrange(off, off + 4) =~= dp.take(4));
    }
    lemma_occurs_found(l2, "dep:"@, 0, off);
    assert(starts_with(trim(lines[k1]), f) && contains_seq(lines[k2], "dep:"@) && k1 <= k2);
    assert(features_use_deps(lines));
    assert(contains_seq(lines[k2], dp));
    assert(some_line_contains(lines, dp));
    // The dependency line, moved past the feature line when that comes first.
    assert(ff + 10 <= q - 1 || q + dep.len() <= ff) by {
        if ff <= q - 1 && q - 1 < ff + 10 {
            assert(x[q - 1] == x.subrange(ff, ff + 10)[q - 1 - ff]);
        } else if q <= ff && ff < q + dep.len() {
            assert(x[ff] == x.subrange(ff, ff + 10)[0]);
            assert(x[ff] == x.subrange(q, q + dep.len())[ff - q]);
        }
    }
    let qr = if q + dep.len() <= ff {
        q
    } else {
        q + hl - 10
    };
    assert(r.subrange(qr, qr + dep.len()) =~= x.subrange(q, q + dep.len()));
    assert(r[qr - 1] == '\n');
    lemma_line_at(r, qr);
    let kd = nl_count(r.take(qr)) as int;
    lemma_line_text_starts(r, qr, dep);
    (kd, k2)
}

/// The requirements of the install laws: a plugin package name without
/// white space, `=` or `[`; a repository address and a feature name on one
/// line (the address without `[`); a manifest that does not declare the
/// package nor hold its feature line yet, that has the local plugins marker
/// or a `[dependencies]` table, and a `[features]` table, each `[features]`
/// at the start of a line.
pub open spec fn fresh_plugin_install(content: Seq<char>, pkg: Seq<char>, url: Seq<char>, feat: Seq<char>) -> bool {
    &&& starts_with(pkg, "xtop-plugin-"@)
    &&& forall|k: int| 0 <= k < pkg.len() ==> !is_white(#[trigger] pkg[k]) && pkg[k] != '=' && pkg[k] != '['
    &&& forall|k: int| 0 <= k < url.len() ==> #[trigger] url[k] != '\n' && url[k] != '['
    &&& forall|k: int| 0 <= k < feat.len() ==> #[trigger] feat[k] != '\n'
    &&& !some_line_starts_with(content, pkg + " ="@)
    &&& !contains_seq(content, spec_feature_line(feat, pkg))
    &&& (contains_seq(content, LOCAL_PLUGINS_MARKER@) || contains_seq(content, "[dependencies]"@))
    &&& contains_seq(content, "[features]"@)
    &&& headers_at_line_starts(content)
}

/// The manifest after `xtop plugin install` registered a package from `url`
/// under the feature `feat`.
pub open spec fn plugin_installed(content: Seq<char>, pkg: Seq<char>, url: Seq<char>, feat: Seq<char>) -> (Seq<char>, bool) {
    spec_add_optional_dependency(
        content,
        pkg,
        spec_git_dependency(pkg, url),
        spec_feature_line(feat, pkg),
        LOCAL_PLUGINS_MARKER@,
    )
}

/// What a fresh install leaves in the manifest: its `[features]` table
/// enables a dependency, a line enables the package, the line at `kd`
/// declares it, and the feature line is there.
proof fn lemma_install_result(content: Seq<char>, pkg: Seq<char>, url: Seq<char>, feat: Seq<char>) -> (kd: int)
    requires
        fresh_plugin_install(content, pkg, url, feat),
    ensures
        features_use_deps(spec_lines(plugin_installed(content, pkg, url, feat).0)),
        some_line_contains(spec_lines(plugin_installed(content, pkg, url, feat).0), "dep:"@ + pkg),
        0 <= kd < spec_lines(plugin_installed(content, pkg, url, feat).0).len(),
        starts_with(trim(spec_lines(plugin_installed(content, pkg, url, feat).0)[kd]), spec_git_dependency(pkg, url)),
        contains_seq(plugin_installed(content, pkg, url, feat).0, spec_feature_line(feat, pkg)),
        !plugin_installed(content, pkg, url, feat).1,
{
    let m = LOCAL_PLUGINS_MARKER@;
    let dep = spec_git_dependency(pkg, url);
    let fl = spec_feature_line(feat, pkg);
    let dp = "dep:"@ + pkg;
    reveal_strlit("dep:");
    reveal_strlit("xtop-plugin-");
    assert(pkg.len() >= 12);
    lemma_dependency_line_shape(pkg, url);
    lemma_feature_line_shape(feat, pkg);
    lemma_markers_usable();
    let q = lemma_dependency_added(content, dep, m);
    let x = with_dependency(content, dep, m);
    let res = plugin_installed(content, pkg, url, feat);
    assert(res.0 == replace_first(x, "[features]"@, "[features]\n"@ + fl));
    assert(dp.take(4) =~= "dep:"@);
    let kd = lemma_feature_added(x, fl, dep, q, feat.len() + 5int, dp).0;
    lemma_trim_keeps_prefix(spec_lines(res.0)[kd], dep);
    kd
}

/// A plugin that `xtop plugin install` registers shows in `xtop plugin
/// list`: a fresh install (see `fresh_plugin_install`) lists the package.
pub proof fn lemma_installed_plugin_is_listed(content: Seq<char>, pkg: Seq<char>, url: Seq<char>, feat: Seq<char>)
    requires
        fresh_plugin_install(content, pkg, url, feat),
    ensures
        spec_installed_plugins(plugin_installed(content, pkg, url, feat).0).contains(pkg),
{
    let dep = spec_git_dependency(pkg, url);
    reveal_strlit("xtop-plugin-");
    assert(pkg.len() >= 12);
    lemma_dependency_line_shape(pkg, url);
    let kd = lemma_install_result(content, pkg, url, feat);
    let lines = spec_lines(plugin_installed(content, pkg, url, feat).0);
    lemma_entry_name(trim(lines[kd]), pkg, dep);
    lemma_wired_contains(lines, lines, kd, pkg);
}

/// Installing a plugin a second time changes nothing: after a fresh install
/// (see `fresh_plugin_install`) the same install leaves the manifest as it
/// is and reports the package as already declared.
pub proof fn lemma_plugin_install_twice(content: Seq<char>, pkg: Seq<char>, url: Seq<char>, feat: Seq<char>)
    requires
        fresh_plugin_install(content, pkg, url, feat),
    ensures
        plugin_installed(plugin_installed(content, pkg, url, feat).0, pkg, url, feat) == (
        plugin_installed(content, pkg, url, feat).0,
        true,
        ),
{
    let once = plugin_installed(content, pkg, url, feat).0;
    let dep = spec_git_dependency(pkg, url);
    let key = pkg + " ="@;
    reveal_strlit("xtop-plugin-");
    assert(pkg.len() >= 12);
    lemma_dependency_line_shape(pkg, url);
    let kd = lemma_install_result(content, pkg, url, feat);
    let lines = spec_lines(once);
    let tl = trim(lines[kd]);
    assert(tl.take(key.len() as int) =~= key) by {
        assert(tl.take(key.len() as int) =~= dep.subrange(0, key.len() as int));
    }
    assert(starts_with(trim(lines[kd]), key));
    assert(some_line_starts_with(once, key));
}

} // verus!
