//! Where `xtop plugin install` and `xtop widget install` find the crate to
//! register: how the argument is read (local directory, git URL or a name in
//! the community repository), the names derived from a package name, the
//! directories searched for the crate, and the package name read from a
//! candidate's `Cargo.toml`. The caller clones, lists and reads the files.

use vstd::prelude::*;
use crate::commands::install::{is_git_url, is_local_path, spec_is_git_url, spec_is_local_path};
use crate::paths::{join_unix, unix_join};
use crate::text::{chars_of, ends_with, push_char, push_range, starts_with, starts_with_str, trim, trim_range};

verus! {

/// `str::trim_start_matches` with a string pattern: every leading copy of
/// `p` removed (nothing for an empty pattern).
pub open spec fn strip_leading(s: Seq<char>, p: Seq<char>) -> Seq<char>
    decreases s.len(),
{
    if p.len() > 0 && starts_with(s, p) {
        strip_leading(s.skip(p.len() as int), p)
    } else {
        s
    }
}

/// `str::trim_end_matches` with a character: every trailing `c` removed.
pub open spec fn strip_trailing(s: Seq<char>, c: char) -> Seq<char>
    decreases s.len(),
{
    if s.len() > 0 && s.last() == c {
        strip_trailing(s.drop_last(), c)
    } else {
        s
    }
}

/// Every leading copy of `p` removed from `s`.
pub fn trim_start_matches(s: &str, p: &str) -> (r: String)
    ensures
        r@ == strip_leading(s@, p@),
{
    let c = chars_of(s);
    let pc = chars_of(p);
    let n = c.len();
    let m = pc.len();
    let mut i: usize = 0;
    assert(s@.skip(0) =~= s@);
    if m > 0 {
        while i <= n && n - i >= m && crate::text::occurs_at_exec(&c, &pc, i)
            invariant
                c@ == s@,
                pc@ == p@,
                n == c@.len(),
                m == pc@.len(),
                m > 0,
                i <= n,
                strip_leading(s@, p@) == strip_leading(s@.skip(i as int), p@),
            decreases n - i,
        {
            proof {
                let t = s@.skip(i as int);
                assert(t.take(m as int) =~= c@.subrange(i as int, i + m));
                assert(t.skip(m as int) =~= s@.skip(i + m));
            }
            i = i + m;
        }
        proof {
            let t = s@.skip(i as int);
            if starts_with(t, p@) {
                assert(t.take(m as int) =~= c@.subrange(i as int, i + m));
            }
        }
    }
    let mut r = String::new();
    push_range(&mut r, &c, i, n);
    proof {
        assert(s@.skip(i as int) =~= c@.subrange(i as int, n as int));
    }
    r
}

/// The position of the last `c` in `s`, or -1.
pub open spec fn last_index(s: Seq<char>, c: char) -> int
    decreases s.len(),
{
    if s.len() == 0 {
        -1
    } else if s.last() == c {
        s.len() - 1
    } else {
        last_index(s.drop_last(), c)
    }
}

proof fn lemma_last_index_bounds(s: Seq<char>, c: char)
    ensures
        -1 <= last_index(s, c) < s.len(),
        last_index(s, c) >= 0 ==> s[last_index(s, c)] == c,
        forall|k: int| last_index(s, c) < k < s.len() ==> s[k] != c,
    decreases s.len(),
{
    if s.len() > 0 && s.last() != c {
        lemma_last_index_bounds(s.drop_last(), c);
        assert forall|k: int| last_index(s, c) < k < s.len() implies s[k] != c by {
            if k < s.len() - 1 {
                assert(s.drop_last()[k] == s[k]);
            }
        }
    }
}

/// The last position of `x` in `[0, hi)` of `c`, if any.
fn last_index_in(c: &Vec<char>, hi: usize, x: char) -> (r: Option<usize>)
    requires
        hi <= c@.len(),
    ensures
        match r {
            Some(k) => k < hi && last_index(c@.take(hi as int), x) == k,
            None => last_index(c@.take(hi as int), x) == -1,
        },
{
    let mut j = hi;
    while j > 0 && c[j - 1] != x
        invariant
            j <= hi <= c@.len(),
            last_index(c@.take(hi as int), x) == last_index(c@.take(j as int), x),
        decreases j,
    {
        proof {
            assert(c@.take(j as int).drop_last() =~= c@.take(j - 1));
        }
        j = j - 1;
    }
    if j == 0 {
        None
    } else {
        Some(j - 1)
    }
}

/// `Path::file_name` of a Unix path: its last component when that is a
/// name, skipping empty components and `.`; none for a path that ends in
/// `..` or has no name at all.
pub open spec fn file_name(p: Seq<char>) -> Option<Seq<char>>
    decreases p.len(),
{
    if p.len() == 0 {
        None
    } else {
        let k = last_index(p, '/');
        let piece = p.subrange(k + 1, p.len() as int);
        if piece.len() == 0 || piece == "."@ {
            if k < 0 || k >= p.len() {
                None
            } else {
                file_name(p.take(k))
            }
        } else if piece == ".."@ {
            None
        } else {
            Some(piece)
        }
    }
}

/// `Path::file_stem`: the file name without its last extension (a name
/// whose only dot is its first character keeps it).
pub open spec fn file_stem(p: Seq<char>) -> Option<Seq<char>> {
    match file_name(p) {
        None => None,
        Some(name) => {
            let d = last_index(name, '.');
            if d <= 0 {
                Some(name)
            } else {
                Some(name.take(d))
            }
        },
    }
}

fn is_dot_piece(c: &Vec<char>, lo: usize, hi: usize, dots: usize) -> (r: bool)
    requires
        lo <= hi <= c@.len(),
        1 <= dots <= 2,
    ensures
        r == (c@.subrange(lo as int, hi as int) == if dots == 1 { "."@ } else { ".."@ }),
{
    proof {
        reveal_strlit(".");
        reveal_strlit("..");
        assert("."@.len() == 1);
        assert(".."@.len() == 2);
    }
    if hi - lo != dots {
        return false;
    }
    let r = c[lo] == '.' && (dots == 1 || c[lo + 1] == '.');
    proof {
        let s = c@.subrange(lo as int, hi as int);
        if dots == 1 {
            if r {
                assert(s =~= "."@);
            } else {
                assert(s[0] != "."@[0]);
            }
        } else {
            if r {
                assert(s =~= ".."@);
            } else if c@[lo as int] != '.' {
                assert(s[0] != ".."@[0]);
            } else {
                assert(s[1] != ".."@[1]);
            }
        }
    }
    r
}

/// The range of the file name of the path in `c` (see `file_name`).
fn file_name_range(c: &Vec<char>) -> (r: Option<(usize, usize)>)
    ensures
        match r {
            Some((lo, hi)) => lo <= hi <= c@.len() && file_name(c@) == Some(c@.subrange(lo as int, hi as int)),
            None => file_name(c@) is None,
        },
{
    let mut hi = c.len();
    assert(c@.take(hi as int) =~= c@);
    while hi > 0
        invariant
            hi <= c@.len(),
            file_name(c@) == file_name(c@.take(hi as int)),
        decreases hi,
    {
        let k = last_index_in(c, hi, '/');
        let lo = match k {
            Some(k) => k + 1,
            None => 0,
        };
        proof {
            lemma_last_index_bounds(c@.take(hi as int), '/');
            assert(c@.take(hi as int).subrange(lo as int, hi as int) =~= c@.subrange(lo as int, hi as int));
        }
        if lo == hi || is_dot_piece(c, lo, hi, 1) {
            match k {
                None => {
                    return None;
                },
                Some(k) => {
                    proof {
                        assert(c@.take(hi as int).take(k as int) =~= c@.take(k as int));
                    }
                    hi = k;
                },
            }
        } else if is_dot_piece(c, lo, hi, 2) {
            return None;
        } else {
            return Some((lo, hi));
        }
    }
    assert(c@.take(hi as int).len() == 0);
    None
}

/// The file stem of a Unix path (`Path::file_stem`), if it has a file name.
pub fn path_file_stem(path: &str) -> (r: Option<String>)
    ensures
        match r {
            Some(t) => file_stem(path@) == Some(t@),
            None => file_stem(path@) is None,
        },
{
    let c = chars_of(path);
    match file_name_range(&c) {
        None => None,
        Some((lo, hi)) => {
            let d = last_index_in(&c, hi, '.');
            let mut r = String::new();
            let ghost nm = c@.subrange(lo as int, hi as int);
            proof {
                lemma_last_index_bounds(c@.take(hi as int), '.');
                lemma_last_index_bounds(nm, '.');
                lemma_last_index_shift(c@.take(hi as int), lo as int, '.');
                assert(c@.take(hi as int).skip(lo as int) =~= nm);
            }
            match d {
                Some(d) if d > lo => {
                    push_range(&mut r, &c, lo, d);
                    proof {
                        assert(nm.take(d - lo) =~= c@.subrange(lo as int, d as int));
                    }
                },
                _ => {
                    push_range(&mut r, &c, lo, hi);
                },
            }
            Some(r)
        },
    }
}

/// `Path::extension`: what follows the last dot of the file name, unless
/// that dot is its first character.
pub open spec fn file_extension(p: Seq<char>) -> Option<Seq<char>> {
    match file_name(p) {
        None => None,
        Some(name) => {
            let d = last_index(name, '.');
            if d <= 0 {
                None
            } else {
                Some(name.skip(d + 1))
            }
        },
    }
}

/// The extension of a Unix path (`Path::extension`), if it has one.
pub fn path_extension(path: &str) -> (r: Option<String>)
    ensures
        match r {
            Some(t) => file_extension(path@) == Some(t@),
            None => file_extension(path@) is None,
        },
{
    let c = chars_of(path);
    match file_name_range(&c) {
        None => None,
        Some((lo, hi)) => {
            let d = last_index_in(&c, hi, '.');
            let ghost nm = c@.subrange(lo as int, hi as int);
            proof {
                lemma_last_index_bounds(c@.take(hi as int), '.');
                lemma_last_index_bounds(nm, '.');
                lemma_last_index_shift(c@.take(hi as int), lo as int, '.');
                assert(c@.take(hi as int).skip(lo as int) =~= nm);
            }
            match d {
                Some(d) if d > lo => {
                    let mut r = String::new();
                    push_range(&mut r, &c, d + 1, hi);
                    proof {
                        assert(nm.skip(d - lo + 1) =~= c@.subrange(d + 1, hi as int));
                    }
                    Some(r)
                },
                _ => None,
            }
        },
    }
}

proof fn lemma_last_index_shift(s: Seq<char>, lo: int, c: char)
    requires
        0 <= lo <= s.len(),
    ensures
        last_index(s.skip(lo), c) == if last_index(s, c) >= lo { last_index(s, c) - lo } else { -1 },
    decreases s.len(),
{
    if s.len() > lo {
        assert(s.skip(lo).drop_last() =~= s.drop_last().skip(lo));
        lemma_last_index_shift(s.drop_last(), lo, c);
    } else {
        assert(s.skip(lo).len() == 0);
        lemma_last_index_bounds(s, c);
    }
}

/// The text with every `-` turned into `_` (a crate identifier or a plugin
/// feature name from a package name).
pub open spec fn dashes_to_underscores(s: Seq<char>) -> Seq<char> {
    s.map_values(|c: char| if c == '-' { '_' } else { c })
}

/// `str::replace('-', "_")`.
pub fn underscored(s: &str) -> (r: String)
    ensures
        r@ == dashes_to_underscores(s@),
{
    let c = chars_of(s);
    let mut r = String::new();
    for i in 0..c.len()
        invariant
            c@ == s@,
            r@ == dashes_to_underscores(s@.take(i as int)),
    {
        let x = c[i];
        push_char(&mut r, if x == '-' { '_' } else { x });
        proof {
            assert(dashes_to_underscores(s@.take(i + 1)) =~= dashes_to_underscores(s@.take(i as int)).push(
                if x == '-' { '_' } else { x },
            ));
        }
    }
    proof {
        assert(s@.take(c@.len() as int) =~= s@);
    }
    r
}

/// Where an install argument points.
#[derive(Debug)]
pub enum InstallSource {
    /// A local directory (the argument as written, `~` not yet expanded).
    Local(String),
    /// A git repository URL.
    GitUrl(String),
    /// A crate of the community repository, by its short name.
    Named(String),
}

/// The view of an install source: its kind (0 local, 1 git, 2 named) and text.
pub open spec fn source_view(s: InstallSource) -> (int, Seq<char>) {
    match s {
        InstallSource::Local(t) => (0, t@),
        InstallSource::GitUrl(t) => (1, t@),
        InstallSource::Named(t) => (2, t@),
    }
}

/// How `xtop widget install` reads its argument: trimmed and without
/// trailing `/`, a local path, else a git URL, else a pack name (any
/// leading `xtop-widget-` removed).
pub open spec fn spec_widget_source(arg: Seq<char>) -> (int, Seq<char>) {
    let input = strip_trailing(trim(arg), '/');
    if spec_is_local_path(input) {
        (0, input)
    } else if spec_is_git_url(input) {
        (1, input)
    } else {
        (2, strip_leading(input, "xtop-widget-"@))
    }
}

/// How `xtop plugin install` reads its argument: the argument itself when it
/// is a git URL, else a plugin name (trimmed, any leading `xtop-plugin-`
/// removed).
pub open spec fn spec_plugin_source(arg: Seq<char>) -> (int, Seq<char>) {
    if spec_is_git_url(arg) {
        (1, arg)
    } else {
        (2, strip_leading(trim(arg), "xtop-plugin-"@))
    }
}

fn trimmed(s: &str) -> (r: String)
    ensures
        r@ == trim(s@),
{
    let c = chars_of(s);
    let (a, b) = trim_range(&c, 0, c.len());
    let mut r = String::new();
    push_range(&mut r, &c, a, b);
    proof {
        assert(c@.subrange(0, c@.len() as int) =~= c@);
    }
    r
}

fn without_trailing(s: &str, x: char) -> (r: String)
    ensures
        r@ == strip_trailing(s@, x),
{
    let c = chars_of(s);
    let mut n = c.len();
    assert(c@.take(n as int) =~= c@);
    while n > 0 && c[n - 1] == x
        invariant
            n <= c@.len(),
            c@ == s@,
            strip_trailing(s@, x) == strip_trailing(c@.take(n as int), x),
        decreases n,
    {
        proof {
            assert(c@.take(n as int).drop_last() =~= c@.take(n - 1));
        }
        n = n - 1;
    }
    let mut r = String::new();
    push_range(&mut r, &c, 0, n);
    proof {
        assert(c@.subrange(0, n as int) =~= c@.take(n as int));
    }
    r
}

/// Read the argument of `xtop widget install` (see `spec_widget_source`).
pub fn widget_source(arg: &str) -> (r: InstallSource)
    ensures
        source_view(r) == spec_widget_source(arg@),
{
    let t = trimmed(arg);
    let input = without_trailing(t.as_str(), '/');
    if is_local_path(input.as_str()) {
        InstallSource::Local(input)
    } else if is_git_url(input.as_str()) {
        InstallSource::GitUrl(input)
    } else {
        InstallSource::Named(trim_start_matches(input.as_str(), "xtop-widget-"))
    }
}

/// Read the argument of `xtop plugin install` (see `spec_plugin_source`).
pub fn plugin_source(arg: &str) -> (r: InstallSource)
    ensures
        source_view(r) == spec_plugin_source(arg@),
{
    if is_git_url(arg) {
        InstallSource::GitUrl(arg.to_string())
    } else {
        let t = trimmed(arg);
        InstallSource::Named(trim_start_matches(t.as_str(), "xtop-plugin-"))
    }
}

/// The short name guessed from a repository URL: its file stem (or
/// `fallback` when it has none) without any leading `prefix`.
pub open spec fn spec_repo_hint(url: Seq<char>, fallback: Seq<char>, prefix: Seq<char>) -> Seq<char> {
    strip_leading(
        match file_stem(url) {
            Some(s) => s,
            None => fallback,
        },
        prefix,
    )
}

/// The short name of the crate a repository URL probably holds, e.g. `x`
/// for `https://host/me/xtop-widget-x.git` with prefix `xtop-widget-`.
pub fn repo_hint(url: &str, fallback: &str, prefix: &str) -> (r: String)
    ensures
        r@ == spec_repo_hint(url@, fallback@, prefix@),
{
    match path_file_stem(url) {
        Some(stem) => trim_start_matches(stem.as_str(), prefix),
        None => trim_start_matches(fallback, prefix),
    }
}

/// The directories searched for a widget pack crate, in order:
/// `packs/xtop-widget-<name>`, `xtop-widget-<name>`, `packs/<name>`,
/// `widgets/xtop-widget-<name>` and the root itself.
pub open spec fn spec_pack_candidates(root: Seq<char>, name: Seq<char>) -> Seq<Seq<char>> {
    let named = "xtop-widget-"@ + name;
    seq![
        unix_join(unix_join(root, "packs"@), named),
        unix_join(root, named),
        unix_join(unix_join(root, "packs"@), name),
        unix_join(unix_join(root, "widgets"@), named),
        root,
    ]
}

/// The directories searched for a plugin crate, in order:
/// `plugins/xtop-plugin-<name>`, `plugins/<name>`,
/// `crates/xtop-plugin-<name>`, `crates/<name>` and the root itself.
pub open spec fn spec_plugin_candidates(root: Seq<char>, name: Seq<char>) -> Seq<Seq<char>> {
    let named = "xtop-plugin-"@ + name;
    seq![
        unix_join(unix_join(root, "plugins"@), named),
        unix_join(unix_join(root, "plugins"@), name),
        unix_join(unix_join(root, "crates"@), named),
        unix_join(unix_join(root, "crates"@), name),
        root,
    ]
}

/// The views of a list of strings.
pub open spec fn string_views(v: Seq<String>) -> Seq<Seq<char>> {
    v.map_values(|s: String| s@)
}

fn prefixed(prefix: &str, name: &str) -> (r: String)
    ensures
        r@ == prefix@ + name@,
{
    let mut r = prefix.to_string();
    r.append(name);
    r
}

fn sub_join(root: &str, dir: &str, name: &str) -> (r: String)
    ensures
        r@ == unix_join(unix_join(root@, dir@), name@),
{
    let d = join_unix(root, dir);
    join_unix(d.as_str(), name)
}

/// The candidate directories for a widget pack (see `spec_pack_candidates`).
pub fn pack_candidates(root: &str, name: &str) -> (r: Vec<String>)
    ensures
        string_views(r@) == spec_pack_candidates(root@, name@),
{
    let named = prefixed("xtop-widget-", name);
    let mut r = Vec::new();
    r.push(sub_join(root, "packs", named.as_str()));
    r.push(join_unix(root, named.as_str()));
    r.push(sub_join(root, "packs", name));
    r.push(sub_join(root, "widgets", named.as_str()));
    r.push(root.to_string());
    assert(string_views(r@) =~= spec_pack_candidates(root@, name@));
    r
}

/// The candidate directories for a plugin (see `spec_plugin_candidates`).
pub fn plugin_candidates(root: &str, name: &str) -> (r: Vec<String>)
    ensures
        string_views(r@) == spec_plugin_candidates(root@, name@),
{
    let named = prefixed("xtop-plugin-", name);
    let mut r = Vec::new();
    r.push(sub_join(root, "plugins", named.as_str()));
    r.push(sub_join(root, "plugins", name));
    r.push(sub_join(root, "crates", named.as_str()));
    r.push(sub_join(root, "crates", name));
    r.push(root.to_string());
    assert(string_views(r@) =~= spec_plugin_candidates(root@, name@));
    r
}

/// The `package.name` string of a `Cargo.toml` text, as the `toml` crate
/// reads it; none when the text is not a TOML document or has no such
/// string.
pub uninterp spec fn toml_package_name(manifest: Seq<char>) -> Option<Seq<char>>;

/// Parse the manifest as a TOML table (`str::parse::<toml::Table>`) and take
/// the string at `package.name` (`Table::get`, `Value::get`,
/// `Value::as_str`). What it returns is named by `toml_package_name`; the
/// TOML grammar itself is not stated here.
#[verifier::external_body]
fn parse_package_name(manifest: &str) -> (r: Option<String>)
    ensures
        match r {
            Some(n) => toml_package_name(manifest@) == Some(n@),
            None => toml_package_name(manifest@) is None,
        },
{
    let table = manifest.parse::<toml::Table>().ok()?;
    table.get("package")?.get("name")?.as_str().map(|n| n.to_string())
}

/// The package name declared in a crate's `Cargo.toml` text.
pub fn package_name_of(manifest: &str) -> (r: Option<String>)
    ensures
        match r {
            Some(n) => toml_package_name(manifest@) == Some(n@),
            None => toml_package_name(manifest@) is None,
        },
{
    parse_package_name(manifest)
}

/// The views of a list of optional strings.
pub open spec fn option_views(v: Seq<Option<String>>) -> Seq<Option<Seq<char>>> {
    v.map_values(|o: Option<String>| match o {
        Some(s) => Some(s@),
        None => None,
    })
}

/// The first position at or after `i` whose name is present and starts
/// with `prefix`.
pub open spec fn first_with_prefix(names: Seq<Option<Seq<char>>>, prefix: Seq<char>, i: int) -> Option<int>
    decreases names.len() - i,
{
    if i < 0 || i >= names.len() {
        None
    } else if names[i] matches Some(n) && starts_with(n, prefix) {
        Some(i)
    } else {
        first_with_prefix(names, prefix, i + 1)
    }
}

proof fn lemma_first_with_prefix_bounds(names: Seq<Option<Seq<char>>>, prefix: Seq<char>, i: int)
    ensures
        first_with_prefix(names, prefix, i) matches Some(k) ==> (0 <= i <= k < names.len()
            && (names[k] matches Some(n) && starts_with(n, prefix))),
    decreases names.len() - i,
{
    if 0 <= i < names.len() && !(names[i] matches Some(n) && starts_with(n, prefix)) {
        lemma_first_with_prefix_bounds(names, prefix, i + 1);
    }
}

/// The first candidate whose package name starts with `prefix`, with that
/// name; `names[i]` is the package name read at candidate `i` (none when
/// the candidate has no manifest or no name).
pub fn select_candidate(names: &Vec<Option<String>>, prefix: &str) -> (r: Option<(usize, String)>)
    ensures
        match first_with_prefix(option_views(names@), prefix@, 0) {
            Some(k) => r matches Some((i, n)) && i == k && option_views(names@)[k] == Some(n@),
            None => r is None,
        },
{
    let ghost vs = option_views(names@);
    for i in 0..names.len()
        invariant
            vs == option_views(names@),
            first_with_prefix(vs, prefix@, 0) == first_with_prefix(vs, prefix@, i as int),
    {
        match &names[i] {
            Some(n) => {
                if starts_with_str(n.as_str(), prefix) {
                    return Some((i, n.clone()));
                }
            },
            None => {},
        }
    }
    None
}

/// The names `toml_package_name` gives the candidates' manifests (none for
/// a candidate without a manifest).
pub open spec fn manifest_names(manifests: Seq<Option<String>>) -> Seq<Option<Seq<char>>> {
    manifests.map_values(|m: Option<String>| match m {
        Some(t) => toml_package_name(t@),
        None => None,
    })
}

/// Find the crate among the candidates: `manifests[i]` is the `Cargo.toml`
/// text of candidate `i` (none when it has none); the first one whose
/// package name starts with `prefix` is chosen.
pub fn find_crate(manifests: &Vec<Option<String>>, prefix: &str) -> (r: Option<(usize, String)>)
    ensures
        match first_with_prefix(manifest_names(manifests@), prefix@, 0) {
            Some(k) => r matches Some((i, n)) && i == k && manifest_names(manifests@)[k] == Some(n@),
            None => r is None,
        },
{
    let mut names: Vec<Option<String>> = Vec::new();
    for i in 0..manifests.len()
        invariant
            names@.len() == i,
            forall|j: int| 0 <= j < i ==> #[trigger] option_views(names@)[j] == manifest_names(manifests@)[j],
    {
        let n = match &manifests[i] {
            Some(t) => package_name_of(t.as_str()),
            None => None,
        };
        let ghost before = names@;
        names.push(n);
        proof {
            assert forall|j: int| 0 <= j < i + 1 implies #[trigger] option_views(names@)[j] == manifest_names(
                manifests@,
            )[j] by {
                if j < i {
                    assert(names@[j] == before[j]);
                    assert(option_views(before)[j] == manifest_names(manifests@)[j]);
                }
            }
        }
    }
    assert(option_views(names@) =~= manifest_names(manifests@));
    select_candidate(&names, prefix)
}

/// The names a widget pack package gives: its label (the package name
/// without `xtop-widget-`), its feature `widget-<label>` and its crate
/// identifier (dashes as underscores).
pub struct PackNames {
    pub label: String,
    pub feature: String,
    pub crate_ident: String,
}

/// Why a package cannot be installed as a widget pack.
#[derive(Debug, PartialEq, Eq)]
pub enum PackNameError {
    /// The package name does not start with `xtop-widget-`.
    NotAWidgetPack,
    /// The package name is `xtop-widget-` with nothing after it.
    EmptyLabel,
}

/// The names of a widget pack package, or why it is not one.
pub fn widget_pack_names(pkg: &str) -> (r: Result<PackNames, PackNameError>)
    ensures
        !starts_with(pkg@, "xtop-widget-"@) <==> r == Err::<PackNames, PackNameError>(PackNameError::NotAWidgetPack),
        pkg@ == "xtop-widget-"@ <==> r == Err::<PackNames, PackNameError>(PackNameError::EmptyLabel),
        r matches Ok(n) ==> {
            &&& pkg@ == "xtop-widget-"@ + n.label@
            &&& n.label@.len() > 0
            &&& n.feature@ == "widget-"@ + n.label@
            &&& n.crate_ident@ == dashes_to_underscores(pkg@)
        },
{
    let prefix = "xtop-widget-";
    proof {
        reveal_strlit("xtop-widget-");
    }
    if !starts_with_str(pkg, prefix) {
        proof {
            if pkg@ == prefix@ {
                assert(pkg@.take(pkg@.len() as int) =~= pkg@);
            }
        }
        return Err(PackNameError::NotAWidgetPack);
    }
    let label = trim_once(pkg, prefix);
    if label.unicode_len() == 0 {
        assert(pkg@ =~= "xtop-widget-"@);
        return Err(PackNameError::EmptyLabel);
    }
    let mut feature = "widget-".to_string();
    feature.append(label.as_str());
    let crate_ident = underscored(pkg);
    proof {
        assert(pkg@ =~= "xtop-widget-"@ + label@);
        if pkg@ == "xtop-widget-"@ {
            assert(label@.len() == 0);
        }
    }
    Ok(PackNames { label, feature, crate_ident })
}

/// `s` without the prefix `p` it starts with (`str::strip_prefix`).
fn trim_once(s: &str, p: &str) -> (r: String)
    requires
        starts_with(s@, p@),
    ensures
        r@ == s@.skip(p@.len() as int),
{
    let c = chars_of(s);
    let m = p.unicode_len();
    let mut r = String::new();
    push_range(&mut r, &c, m, c.len());
    assert(c@.subrange(m as int, c@.len() as int) =~= s@.skip(m as int));
    r
}

/// The rest of a path after a leading component, as `Path::strip_prefix`
/// gives it: leading separators and `.` components dropped.
pub open spec fn trim_leading_parts(s: Seq<char>) -> Seq<char>
    decreases s.len(),
{
    if s.len() > 0 && s[0] == '/' {
        trim_leading_parts(s.skip(1))
    } else if s.len() > 0 && (s == "."@ || starts_with(s, "./"@)) {
        trim_leading_parts(s.skip(1))
    } else {
        s
    }
}

/// Trailing separators and `.` components dropped from a path.
pub open spec fn trim_trailing_parts(s: Seq<char>) -> Seq<char>
    decreases s.len(),
{
    if s.len() > 0 && s.last() == '/' {
        trim_trailing_parts(s.drop_last())
    } else if s.len() > 0 && (s == "."@ || ends_with(s, "/."@)) {
        trim_trailing_parts(s.drop_last())
    } else {
        s
    }
}

/// Whether a path's first component is `~`.
pub open spec fn starts_with_tilde(path: Seq<char>) -> bool {
    path == "~"@ || starts_with(path, "~/"@)
}

/// A path whose first component is `~`, with that component replaced by the
/// home directory when one is known; any other path unchanged.
pub open spec fn spec_expand_tilde(path: Seq<char>, home: Option<Seq<char>>) -> Seq<char> {
    match home {
        Some(h) if starts_with_tilde(path) => unix_join(h, trim_trailing_parts(trim_leading_parts(path.skip(1)))),
        _ => path,
    }
}

fn is_lit_at(c: &Vec<char>, i: usize, hi: usize, x: char) -> (r: bool)
    requires
        hi <= c@.len(),
    ensures
        r == (i < hi && c@[i as int] == x),
{
    i < hi && c[i] == x
}

/// Expand a leading `~` to the home directory (`$HOME`, read by the caller).
pub fn expand_tilde(path: &str, home: Option<&str>) -> (r: String)
    ensures
        r@ == spec_expand_tilde(path@, match home { Some(h) => Some(h@), None => None }),
{
    proof {
        reveal_strlit("~");
        reveal_strlit("~/");
        reveal_strlit(".");
        reveal_strlit("./");
        reveal_strlit("/.");
    }
    let c = chars_of(path);
    let n = c.len();
    let tilde = n >= 1 && c[0] == '~' && (n == 1 || c[1] == '/');
    proof {
        if n >= 1 && c@[0] == '~' && n == 1 {
            assert(path@ =~= "~"@);
        }
        if n >= 2 && c@[0] == '~' && c@[1] == '/' {
            assert(path@.take(2) =~= "~/"@);
        }
        if path@ == "~"@ {
            assert(path@[0] == '~');
        }
        if starts_with(path@, "~/"@) {
            assert(path@.take(2)[0] == '~' && path@.take(2)[1] == '/');
        }
    }
    match home {
        Some(h) if tilde => {
            let mut a: usize = 1;
            assert(c@.subrange(1, n as int) =~= path@.skip(1));
            while a < n && (c[a] == '/' || (c[a] == '.' && (a + 1 == n || c[a + 1] == '/')))
                invariant
                    1 <= a <= n,
                    n == c@.len(),
                    c@ == path@,
                    trim_leading_parts(path@.skip(1)) == trim_leading_parts(c@.subrange(a as int, n as int)),
                decreases n - a,
            {
                proof {
                    reveal_strlit(".");
                    reveal_strlit("./");
                    let t = c@.subrange(a as int, n as int);
                    assert(t.skip(1) =~= c@.subrange(a + 1, n as int));
                    if c@[a as int] != '/' {
                        if a + 1 == n {
                            assert(t =~= "."@);
                        } else {
                            assert(t.take(2) =~= "./"@);
                        }
                    }
                }
                a = a + 1;
            }
            proof {
                let t = c@.subrange(a as int, n as int);
                if a < n {
                    assert(t[0] == c@[a as int]);
                    if t == "."@ {
                        assert(t[0] == '.');
                    }
                    if starts_with(t, "./"@) {
                        assert(t.take(2)[0] == '.' && t.take(2)[1] == '/');
                        assert(t[1] == c@[a + 1]);
                    }
                }
            }
            let mut b: usize = n;
            while b > a && (c[b - 1] == '/' || (c[b - 1] == '.' && (b - 1 == a || c[b - 2] == '/')))
                invariant
                    1 <= a <= b <= n,
                    n == c@.len(),
                    trim_trailing_parts(c@.subrange(a as int, n as int)) == trim_trailing_parts(
                        c@.subrange(a as int, b as int),
                    ),
                decreases b - a,
            {
                proof {
                    reveal_strlit(".");
                    reveal_strlit("/.");
                    let t = c@.subrange(a as int, b as int);
                    assert(t.drop_last() =~= c@.subrange(a as int, b - 1));
                    if c@[b - 1] != '/' {
                        if b - 1 == a {
                            assert(t =~= "."@);
                        } else {
                            assert(t.skip(t.len() - 2) =~= "/."@);
                        }
                    }
                }
                b = b - 1;
            }
            proof {
                let t = c@.subrange(a as int, b as int);
                if b > a {
                    assert(t.last() == c@[b - 1]);
                    if t == "."@ {
                        assert(t[0] == '.');
                    }
                    if ends_with(t, "/."@) {
                        let u = t.skip(t.len() - 2);
                        assert(u[0] == '/' && u[1] == '.');
                        assert(u[1] == c@[b - 1]);
                        assert(u[0] == c@[b - 2]);
                    }
                }
            }
            let mut rest = String::new();
            push_range(&mut rest, &c, a, b);
            join_unix(h, rest.as_str())
        },
        _ => path.to_string(),
    }
}

} // verus!
