//! Character-level helpers shared by the parsers of the library.

use vstd::prelude::*;
use crate::keybinding::ascii_lower;

verus! {

/// The characters of a string slice, in order.
pub fn chars_of(s: &str) -> (v: Vec<char>)
    ensures
        v@ == s@,
{
    let mut v: Vec<char> = Vec::new();
    for c in it: s.chars()
        invariant
            v@ == it.seq().take(it.index() as int),
    {
        v.push(c);
    }
    v
}

/// Append one character to a string (`String::push`).
#[verifier::external_body]
pub(crate) fn push_char(s: &mut String, c: char)
    ensures
        final(s)@ == old(s)@.push(c),
{
    s.push(c);
}

/// Whether two string slices hold the same characters.
pub fn str_eq(a: &str, b: &str) -> (r: bool)
    ensures
        r == (a@ == b@),
{
    let x = chars_of(a);
    let y = chars_of(b);
    if x.len() != y.len() {
        return false;
    }
    for i in 0..x.len()
        invariant
            x@ == a@,
            y@ == b@,
            x@.len() == y@.len(),
            forall|j: int| 0 <= j < i ==> x@[j] == y@[j],
    {
        if x[i] != y[i] {
            return false;
        }
    }
    assert(a@ =~= b@);
    true
}

/// `char::is_whitespace`: the Unicode `White_Space` characters.
pub open spec fn is_white(c: char) -> bool {
    ||| c == ' '
    ||| ('\t' <= c <= '\r')
    ||| c == '\u{85}'
    ||| c == '\u{A0}'
    ||| c == '\u{1680}'
    ||| ('\u{2000}' <= c <= '\u{200A}')
    ||| c == '\u{2028}'
    ||| c == '\u{2029}'
    ||| c == '\u{202F}'
    ||| c == '\u{205F}'
    ||| c == '\u{3000}'
}

/// Whether a character is white space (`char::is_whitespace`).
pub fn is_whitespace(c: char) -> (r: bool)
    ensures
        r == is_white(c),
{
    c == ' ' || ('\t' <= c && c <= '\r') || c == '\u{85}' || c == '\u{A0}' || c == '\u{1680}'
        || ('\u{2000}' <= c && c <= '\u{200A}') || c == '\u{2028}' || c == '\u{2029}'
        || c == '\u{202F}' || c == '\u{205F}' || c == '\u{3000}'
}

/// `s` without its leading white space.
pub open spec fn trim_start(s: Seq<char>) -> Seq<char>
    decreases s.len(),
{
    if s.len() > 0 && is_white(s[0]) {
        trim_start(s.drop_first())
    } else {
        s
    }
}

/// `s` without its trailing white space.
pub open spec fn trim_end(s: Seq<char>) -> Seq<char>
    decreases s.len(),
{
    if s.len() > 0 && is_white(s.last()) {
        trim_end(s.drop_last())
    } else {
        s
    }
}

/// `str::trim`: `s` without leading and trailing white space.
pub open spec fn trim(s: Seq<char>) -> Seq<char> {
    trim_end(trim_start(s))
}

/// Index of the first `c` at or after `i` in `s`, or the length of `s`.
pub open spec fn find_char_from(s: Seq<char>, c: char, i: int) -> int
    decreases s.len() - i,
{
    if i >= s.len() {
        s.len() as int
    } else if s[i] == c {
        i
    } else {
        find_char_from(s, c, i + 1)
    }
}

/// A line without the carriage return of a `\r\n` line ending.
pub open spec fn strip_cr(line: Seq<char>) -> Seq<char> {
    if line.len() > 0 && line.last() == '\r' {
        line.drop_last()
    } else {
        line
    }
}

/// `str::lines`: the text split at line feeds, without a final empty line,
/// each line ended by `\n` losing a `\r` just before it.
pub open spec fn spec_lines(s: Seq<char>) -> Seq<Seq<char>>
    decreases s.len(),
{
    if s.len() == 0 {
        Seq::empty()
    } else {
        let e = find_char_from(s, '\n', 0);
        if e >= s.len() {
            seq![s]
        } else {
            proof {
                lemma_find_char_from_bounds(s, '\n', 0);
            }
            seq![strip_cr(s.take(e))] + spec_lines(s.skip(e + 1))
        }
    }
}

/// `find_char_from` stays within the text and only skips other characters.
pub proof fn lemma_find_char_from_bounds(s: Seq<char>, c: char, i: int)
    requires
        0 <= i,
    ensures
        i <= find_char_from(s, c, i) || (i > s.len() && find_char_from(s, c, i) == s.len()),
        find_char_from(s, c, i) <= s.len() || i > s.len(),
        find_char_from(s, c, i) < s.len() ==> s[find_char_from(s, c, i)] == c,
        forall|k: int| i <= k < find_char_from(s, c, i) && k < s.len() ==> s[k] != c,
    decreases s.len() - i,
{
    if i < s.len() && s[i] != c {
        lemma_find_char_from_bounds(s, c, i + 1);
    }
}

/// Whether `t` occurs in `s` starting at position `i`.
pub open spec fn occurs_at(s: Seq<char>, t: Seq<char>, i: int) -> bool {
    0 <= i && i + t.len() <= s.len() && s.subrange(i, i + t.len()) == t
}

/// `str::find`: the first position at or after `i` where `t` occurs.
pub open spec fn find_from(s: Seq<char>, t: Seq<char>, i: int) -> Option<int>
    decreases s.len() + 1 - i,
{
    if i < 0 || i + t.len() > s.len() {
        None
    } else if occurs_at(s, t, i) {
        Some(i)
    } else {
        find_from(s, t, i + 1)
    }
}

/// `str::contains`.
pub open spec fn contains_seq(s: Seq<char>, t: Seq<char>) -> bool {
    find_from(s, t, 0) is Some
}

/// `str::starts_with`.
pub open spec fn starts_with(s: Seq<char>, t: Seq<char>) -> bool {
    t.len() <= s.len() && s.take(t.len() as int) == t
}

/// `str::ends_with`.
pub open spec fn ends_with(s: Seq<char>, t: Seq<char>) -> bool {
    t.len() <= s.len() && s.skip(s.len() - t.len()) == t
}

/// The text of a range of positions of `c`.
pub open spec fn range_text(c: Seq<char>, r: (usize, usize)) -> Seq<char> {
    c.subrange(r.0 as int, r.1 as int)
}

/// Whether every range lies within `c`.
pub open spec fn ranges_within(c: Seq<char>, rs: Seq<(usize, usize)>) -> bool {
    forall|k: int| 0 <= k < rs.len() ==> #[trigger] rs[k].0 <= rs[k].1 <= c.len()
}

/// Whether `t` occurs in `c` at position `i` (`i + t.len()` within `c`).
pub fn occurs_at_exec(c: &Vec<char>, t: &Vec<char>, i: usize) -> (r: bool)
    ensures
        r == occurs_at(c@, t@, i as int),
{
    if i > c.len() || c.len() - i < t.len() {
        return false;
    }
    for k in 0..t.len()
        invariant
            i + t@.len() <= c@.len(),
            c@.len() == c.len(),
            forall|j: int| 0 <= j < k ==> c@[i + j] == t@[j],
    {
        if c[i + k] != t[k] {
            assert(c@.subrange(i as int, i + t@.len())[k as int] != t@[k as int]);
            return false;
        }
    }
    assert(c@.subrange(i as int, i + t@.len()) =~= t@);
    true
}

/// The first position in `[lo, hi)` of `c` (at or after `from`) where `t`
/// occurs within the range.
pub fn find_in_range(c: &Vec<char>, lo: usize, hi: usize, from: usize, t: &Vec<char>) -> (r: Option<usize>)
    requires
        lo <= from <= hi <= c@.len(),
    ensures
        r matches Some(i) ==> lo <= from <= i && find_from(c@.subrange(lo as int, hi as int), t@, from - lo)
            == Some((i - lo) as int),
        r is None ==> find_from(c@.subrange(lo as int, hi as int), t@, from - lo) is None,
{
    let ghost s = c@.subrange(lo as int, hi as int);
    let mut i = from;
    while i <= hi && hi - i >= t.len()
        invariant
            lo <= from <= i,
            hi <= c@.len(),
            s == c@.subrange(lo as int, hi as int),
            find_from(s, t@, from - lo) == find_from(s, t@, i - lo),
        decreases hi + 1 - i,
    {
        let hit = occurs_at_exec(c, t, i);
        proof {
            assert(occurs_at(c@, t@, i as int) == occurs_at(s, t@, i - lo)) by {
                if i + t@.len() <= hi {
                    assert(c@.subrange(i as int, i + t@.len()) =~= s.subrange(i - lo, i - lo + t@.len()));
                }
            }
        }
        if hit {
            return Some(i);
        }
        proof {
            if t@.len() == 0 {
                assert(c@.subrange(i as int, i as int) =~= t@);
            }
        }
        i += 1;
    }
    None
}

/// Whether the text of `[lo, hi)` of `c` starts with `t`.
pub fn range_starts_with(c: &Vec<char>, lo: usize, hi: usize, t: &Vec<char>) -> (r: bool)
    requires
        lo <= hi <= c@.len(),
    ensures
        r == starts_with(c@.subrange(lo as int, hi as int), t@),
{
    if hi - lo < t.len() {
        return false;
    }
    let r = occurs_at_exec(c, t, lo);
    assert(r == starts_with(c@.subrange(lo as int, hi as int), t@)) by {
        assert(c@.subrange(lo as int, hi as int).take(t@.len() as int) =~= c@.subrange(lo as int, lo + t@.len()));
    }
    r
}

/// Whether the text of `[lo, hi)` of `c` ends with `t`.
pub fn range_ends_with(c: &Vec<char>, lo: usize, hi: usize, t: &Vec<char>) -> (r: bool)
    requires
        lo <= hi <= c@.len(),
    ensures
        r == ends_with(c@.subrange(lo as int, hi as int), t@),
{
    if hi - lo < t.len() {
        return false;
    }
    let r = occurs_at_exec(c, t, hi - t.len());
    assert(r == ends_with(c@.subrange(lo as int, hi as int), t@)) by {
        let s = c@.subrange(lo as int, hi as int);
        assert(s.skip(s.len() - t@.len()) =~= c@.subrange(hi - t@.len(), hi as int));
    }
    r
}

proof fn lemma_trim_start_skip(s: Seq<char>, k: int)
    requires
        0 <= k <= s.len(),
        forall|j: int| 0 <= j < k ==> is_white(s[j]),
    ensures
        trim_start(s) == trim_start(s.skip(k)),
    decreases k,
{
    if k > 0 {
        assert(s.drop_first().skip(k - 1) =~= s.skip(k));
        lemma_trim_start_skip(s.drop_first(), k - 1);
    } else {
        assert(s.skip(0) =~= s);
    }
}

proof fn lemma_trim_end_take(s: Seq<char>, k: int)
    requires
        0 <= k <= s.len(),
        forall|j: int| k <= j < s.len() ==> is_white(s[j]),
    ensures
        trim_end(s) == trim_end(s.take(k)),
    decreases s.len() - k,
{
    if k < s.len() {
        assert(s.drop_last().take(k) =~= s.take(k));
        lemma_trim_end_take(s.drop_last(), k);
    } else {
        assert(s.take(k) =~= s);
    }
}

/// The trimmed range of `[lo, hi)` of `c` (`str::trim` on that text).
pub fn trim_range(c: &Vec<char>, lo: usize, hi: usize) -> (r: (usize, usize))
    requires
        lo <= hi <= c@.len(),
    ensures
        lo <= r.0 <= r.1 <= hi,
        c@.subrange(r.0 as int, r.1 as int) == trim(c@.subrange(lo as int, hi as int)),
{
    let ghost s = c@.subrange(lo as int, hi as int);
    let mut a = lo;
    while a < hi && is_whitespace(c[a])
        invariant
            lo <= a <= hi <= c@.len(),
            s == c@.subrange(lo as int, hi as int),
            forall|j: int| lo <= j < a ==> is_white(c@[j]),
        decreases hi - a,
    {
        a += 1;
    }
    proof {
        lemma_trim_start_skip(s, a - lo);
        assert(s.skip(a - lo) =~= c@.subrange(a as int, hi as int));
        let t = c@.subrange(a as int, hi as int);
        if a < hi {
            assert(!is_white(t[0]));
        }
        assert(trim_start(t) == t);
    }
    let mut b = hi;
    while b > a && is_whitespace(c[b - 1])
        invariant
            lo <= a <= b <= hi <= c@.len(),
            forall|j: int| b <= j < hi ==> is_white(c@[j]),
        decreases b - a,
    {
        b -= 1;
    }
    proof {
        let t = c@.subrange(a as int, hi as int);
        lemma_trim_end_take(t, b - a);
        assert(t.take(b - a) =~= c@.subrange(a as int, b as int));
        let u = c@.subrange(a as int, b as int);
        if b > a {
            assert(!is_white(u.last()));
        }
        assert(trim_end(u) == u);
    }
    (a, b)
}

proof fn lemma_find_char_skip(c: Seq<char>, x: char, i: int, j: int)
    requires
        0 <= i <= j <= c.len(),
        forall|k: int| i <= k < j ==> c[k] != x,
    ensures
        find_char_from(c.skip(i), x, j - i) == find_char_from(c, x, j) - i,
    decreases c.len() - j,
{
    if j < c.len() && c[j] != x {
        lemma_find_char_skip(c, x, i, j + 1);
    }
}

/// A search that starts past characters other than `x` finds what a search
/// from after them finds.
pub proof fn lemma_find_char_prefix(s: Seq<char>, x: char, a: int, b: int)
    requires
        0 <= a <= b <= s.len(),
        forall|k: int| a <= k < b ==> s[k] != x,
    ensures
        find_char_from(s, x, a) == find_char_from(s, x, b),
    decreases b - a,
{
    if a < b {
        lemma_find_char_prefix(s, x, a + 1, b);
    }
}

/// The number of line feeds in `s`.
pub open spec fn nl_count(s: Seq<char>) -> nat
    decreases s.len(),
{
    if s.len() == 0 {
        0
    } else {
        nl_count(s.drop_last()) + if s.last() == '\n' {
            1nat
        } else {
            0nat
        }
    }
}

/// Line feeds of a concatenation add up.
pub proof fn lemma_nl_count_add(a: Seq<char>, b: Seq<char>)
    ensures
        nl_count(a + b) == nl_count(a) + nl_count(b),
    decreases b.len(),
{
    if b.len() > 0 {
        assert((a + b).drop_last() =~= a + b.drop_last());
        lemma_nl_count_add(a, b.drop_last());
    } else {
        assert(a + b =~= a);
    }
}

/// A text without line feeds counts none.
pub proof fn lemma_nl_count_none(a: Seq<char>)
    requires
        forall|k: int| 0 <= k < a.len() ==> a[k] != '\n',
    ensures
        nl_count(a) == 0,
    decreases a.len(),
{
    if a.len() > 0 {
        lemma_nl_count_none(a.drop_last());
    }
}

/// Position `p` of `s` begins a line: it is the start of the text or follows
/// a line feed.
pub open spec fn at_line_start(s: Seq<char>, p: int) -> bool {
    p == 0 || (0 < p <= s.len() && s[p - 1] == '\n')
}

/// The line of `s` that begins at `p`, as `str::lines` gives it.
pub open spec fn line_text_at(s: Seq<char>, p: int) -> Seq<char> {
    let e = find_char_from(s, '\n', p);
    if e < s.len() {
        strip_cr(s.subrange(p, e))
    } else {
        s.subrange(p, s.len() as int)
    }
}

/// A search in a suffix is the search in the whole text, shifted.
pub proof fn lemma_find_char_shift(c: Seq<char>, x: char, i: int, j: int)
    requires
        0 <= i <= j <= c.len(),
    ensures
        find_char_from(c.skip(i), x, j - i) == find_char_from(c, x, j) - i,
    decreases c.len() - j,
{
    if j < c.len() && c[j] != x {
        lemma_find_char_shift(c, x, i, j + 1);
    }
}

/// The line that begins at `p` is the line of `str::lines` whose index is
/// the number of line feeds before `p`.
pub proof fn lemma_line_at(s: Seq<char>, p: int)
    requires
        0 <= p < s.len(),
        at_line_start(s, p),
    ensures
        nl_count(s.take(p)) < spec_lines(s).len(),
        spec_lines(s)[nl_count(s.take(p)) as int] == line_text_at(s, p),
    decreases s.len(),
{
    let e = find_char_from(s, '\n', 0);
    lemma_find_char_from_bounds(s, '\n', 0);
    if p == 0 {
        assert(s.take(0) =~= Seq::<char>::empty());
        assert(nl_count(s.take(0)) == 0);
        if e >= s.len() {
            assert(s.subrange(0, s.len() as int) =~= s);
        } else {
            assert(s.take(e) =~= s.subrange(0, e));
        }
    } else {
        assert(e <= p - 1);
        let t = s.skip(e + 1);
        let q = p - e - 1;
        assert(at_line_start(t, q)) by {
            if q > 0 {
                assert(t[q - 1] == s[p - 1]);
            }
        }
        lemma_line_at(t, q);
        assert(spec_lines(s) == seq![strip_cr(s.take(e))] + spec_lines(t));
        let nl = seq!['\n'];
        assert(s.take(p) =~= s.take(e) + nl + t.take(q));
        lemma_nl_count_add(s.take(e) + nl, t.take(q));
        lemma_nl_count_add(s.take(e), nl);
        lemma_nl_count_none(s.take(e));
        assert(nl.drop_last() =~= Seq::<char>::empty());
        assert(nl_count(nl.drop_last()) == 0);
        assert(nl.last() == '\n');
        assert(nl_count(nl) == 1);
        lemma_find_char_shift(s, '\n', e + 1, p);
        lemma_find_char_from_bounds(s, '\n', p);
        let e2 = find_char_from(s, '\n', p);
        assert(find_char_from(t, '\n', q) == e2 - e - 1);
        if e2 < s.len() {
            assert(t.subrange(q, e2 - e - 1) =~= s.subrange(p, e2));
        } else {
            assert(t.subrange(q, t.len() as int) =~= s.subrange(p, s.len() as int));
        }
    }
}

/// The line begun at `p` starts with the text there when that text holds
/// no line feed and does not end with a carriage return.
pub proof fn lemma_line_text_starts(s: Seq<char>, p: int, x: Seq<char>)
    requires
        0 <= p,
        p + x.len() <= s.len(),
        s.subrange(p, p + x.len()) == x,
        forall|k: int| 0 <= k < x.len() ==> x[k] != '\n',
        x.len() > 0 ==> x.last() != '\r',
    ensures
        starts_with(line_text_at(s, p), x),
{
    let n = x.len() as int;
    assert forall|k: int| p <= k < p + n implies s[k] != '\n' by {
        assert(s[k] == s.subrange(p, p + n)[k - p]);
    }
    lemma_find_char_prefix(s, '\n', p, p + n);
    lemma_find_char_from_bounds(s, '\n', p + n);
    let e = find_char_from(s, '\n', p);
    assert(p + n <= e);
    let l = line_text_at(s, p);
    if e < s.len() {
        let raw = s.subrange(p, e);
        if raw.len() > 0 && raw.last() == '\r' {
            assert(e > p + n) by {
                if e == p + n {
                    assert(raw.last() == x.last());
                }
            }
            assert(l.take(n) =~= x);
        } else {
            assert(l.take(n) =~= x);
        }
    } else {
        assert(l.take(n) =~= x);
    }
}

/// The line begun at `p` is exactly the text there when a line feed follows
/// it and it holds none and does not end with a carriage return.
pub proof fn lemma_line_text_exact(s: Seq<char>, p: int, x: Seq<char>)
    requires
        0 <= p,
        p + x.len() < s.len(),
        s.subrange(p, p + x.len()) == x,
        s[p + x.len()] == '\n',
        forall|k: int| 0 <= k < x.len() ==> x[k] != '\n',
        x.len() > 0 ==> x.last() != '\r',
    ensures
        line_text_at(s, p) == x,
{
    let n = x.len() as int;
    assert forall|k: int| p <= k < p + n implies s[k] != '\n' by {
        assert(s[k] == s.subrange(p, p + n)[k - p]);
    }
    lemma_find_char_prefix(s, '\n', p, p + n);
    assert(find_char_from(s, '\n', p + n) == p + n);
}

/// A whole line `x` at a line start `p`, followed by a line feed, is the
/// line of `str::lines` counted by the line feeds before `p`, and the next
/// line begins right after it with the next index.
pub proof fn lemma_next_line(s: Seq<char>, p: int, x: Seq<char>)
    requires
        at_line_start(s, p),
        0 <= p,
        p + x.len() < s.len(),
        s.subrange(p, p + x.len()) == x,
        s[p + x.len()] == '\n',
        forall|k: int| 0 <= k < x.len() ==> x[k] != '\n',
        x.len() > 0 ==> x.last() != '\r',
    ensures
        nl_count(s.take(p)) < spec_lines(s).len(),
        spec_lines(s)[nl_count(s.take(p)) as int] == x,
        at_line_start(s, p + x.len() + 1),
        nl_count(s.take(p + x.len() + 1)) == nl_count(s.take(p)) + 1,
{
    let n = x.len() as int;
    lemma_line_at(s, p);
    lemma_line_text_exact(s, p, x);
    let nl = seq!['\n'];
    assert(s.take(p + n + 1) =~= s.take(p) + x + nl);
    lemma_nl_count_add(s.take(p) + x, nl);
    lemma_nl_count_add(s.take(p), x);
    lemma_nl_count_none(x);
    assert(nl.drop_last() =~= Seq::<char>::empty());
    assert(nl_count(nl.drop_last()) == 0);
    assert(nl.last() == '\n');
}

/// White space before a word whose first and last characters are not white
/// space trims away.
pub proof fn lemma_trim_padded(sp: Seq<char>, w: Seq<char>)
    requires
        forall|k: int| 0 <= k < sp.len() ==> is_white(sp[k]),
        w.len() > 0,
        !is_white(w[0]),
        !is_white(w.last()),
    ensures
        trim(sp + w) == w,
    decreases sp.len(),
{
    if sp.len() > 0 {
        assert((sp + w).drop_first() =~= sp.drop_first() + w);
        assert((sp + w)[0] == sp[0]);
        lemma_trim_padded(sp.drop_first(), w);
    } else {
        assert(sp + w =~= w);
        assert(trim_start(w) == w);
        assert(trim_end(w) == w);
    }
}

/// Trimming keeps a leading word whose first and last characters are not
/// white space.
pub proof fn lemma_trim_keeps_prefix(l: Seq<char>, x: Seq<char>)
    requires
        starts_with(l, x),
        x.len() > 0,
        !is_white(x[0]),
        !is_white(x.last()),
    ensures
        starts_with(trim(l), x),
{
    assert(l[0] == x[0]);
    assert(trim_start(l) == l);
    lemma_trim_end_keeps(l, x.len() as int);
    assert(trim(l).take(x.len() as int) =~= l.take(x.len() as int));
}

proof fn lemma_trim_end_keeps(l: Seq<char>, n: int)
    requires
        0 < n <= l.len(),
        !is_white(l[n - 1]),
    ensures
        n <= trim_end(l).len() <= l.len(),
        trim_end(l) == l.take(trim_end(l).len() as int),
    decreases l.len(),
{
    if l.len() > 0 && is_white(l.last()) {
        assert(l.len() > n);
        lemma_trim_end_keeps(l.drop_last(), n);
        let t = trim_end(l.drop_last());
        assert(l.drop_last().take(t.len() as int) =~= l.take(t.len() as int));
    } else {
        assert(l.take(l.len() as int) =~= l);
    }
}

/// A word without white space, followed by one space, trims to itself.
pub proof fn lemma_trim_word_space(w: Seq<char>)
    requires
        w.len() > 0,
        forall|k: int| 0 <= k < w.len() ==> !is_white(w[k]),
    ensures
        trim(w + seq![' ']) == w,
{
    let ws = w + seq![' '];
    assert(ws[0] == w[0]);
    assert(trim_start(ws) == ws);
    assert(ws.drop_last() =~= w);
    assert(trim_end(ws) == trim_end(w));
    assert(w.last() == w[w.len() - 1]);
    assert(trim_end(w) == w);
}

/// The texts of a list of ranges of `c`.
pub open spec fn ranges_texts(c: Seq<char>, rs: Seq<(usize, usize)>) -> Seq<Seq<char>> {
    rs.map_values(|r: (usize, usize)| range_text(c, r))
}

/// The ranges of the lines of `c` (`str::lines`).
pub fn line_ranges(c: &Vec<char>) -> (rs: Vec<(usize, usize)>)
    ensures
        ranges_within(c@, rs@),
        ranges_texts(c@, rs@) == spec_lines(c@),
{
    let n = c.len();
    let mut rs: Vec<(usize, usize)> = Vec::new();
    let mut i: usize = 0;
    proof {
        assert(c@.skip(0) =~= c@);
    }
    while i < n
        invariant
            n == c@.len(),
            i <= n,
            ranges_within(c@, rs@),
            spec_lines(c@) == ranges_texts(c@, rs@) + spec_lines(c@.skip(i as int)),
        decreases n - i,
    {
        let mut e = i;
        while e < n && c[e] != '\n'
            invariant
                i <= e <= n == c@.len(),
                forall|k: int| i <= k < e ==> c@[k] != '\n',
            decreases n - e,
        {
            e += 1;
        }
        let ghost rest = c@.skip(i as int);
        proof {
            lemma_find_char_skip(c@, '\n', i as int, e as int);
            lemma_find_char_prefix(rest, '\n', 0, e - i);
            assert(find_char_from(c@, '\n', e as int) == e);
            assert(find_char_from(rest, '\n', 0) == e - i);
        }
        let ghost before = rs@;
        if e == n {
            rs.push((i, n));
            proof {
                assert(rest =~= c@.subrange(i as int, n as int));
                assert(ranges_texts(c@, rs@) =~= ranges_texts(c@, before).push(rest));
                assert(c@.skip(n as int) =~= Seq::<char>::empty());
                assert(spec_lines(rest) == seq![rest]);
                assert(ranges_texts(c@, before) + seq![rest] =~= ranges_texts(c@, rs@) + spec_lines(c@.skip(n as int)));
            }
            i = n;
        } else {
            let end = if e > i && c[e - 1] == '\r' { e - 1 } else { e };
            rs.push((i, end));
            proof {
                let line = rest.take(e - i);
                assert(line =~= c@.subrange(i as int, e as int));
                assert(strip_cr(line) =~= c@.subrange(i as int, end as int));
                assert(rest.skip(e - i + 1) =~= c@.skip(e + 1));
                assert(spec_lines(rest) == seq![strip_cr(line)] + spec_lines(c@.skip(e + 1)));
                assert(ranges_texts(c@, rs@) =~= ranges_texts(c@, before).push(strip_cr(line)));
                assert(ranges_texts(c@, before) + (seq![strip_cr(line)] + spec_lines(c@.skip(e + 1)))
                    =~= ranges_texts(c@, rs@) + spec_lines(c@.skip(e + 1)));
            }
            i = e + 1;
        }
    }
    proof {
        assert(c@.skip(i as int) =~= Seq::<char>::empty());
        assert(spec_lines(c@) =~= ranges_texts(c@, rs@));
    }
    rs
}

/// `str::replace` for a non-empty pattern: every occurrence, scanning left
/// to right without overlap, is replaced by `with`.
pub open spec fn replace_all(s: Seq<char>, pat: Seq<char>, with: Seq<char>) -> Seq<char>
    decreases s.len(),
{
    if pat.len() == 0 {
        s
    } else {
        match find_from(s, pat, 0) {
            None => s,
            Some(i) => {
                proof {
                    lemma_find_from_found(s, pat, 0);
                }
                s.take(i) + with + replace_all(s.skip(i + pat.len()), pat, with)
            },
        }
    }
}

/// The number of positions at which `m` occurs in `s` (`str::matches`
/// counts these when occurrences cannot overlap).
pub open spec fn occ_count(s: Seq<char>, m: Seq<char>) -> nat
    decreases s.len(),
{
    if s.len() == 0 {
        0
    } else {
        (if occurs_at(s, m, 0) {
            1nat
        } else {
            0nat
        }) + occ_count(s.drop_first(), m)
    }
}

/// Occurrences in a concatenation are those of the two parts when none
/// straddles the seam.
pub proof fn lemma_occ_count_split(a: Seq<char>, y: Seq<char>, m: Seq<char>)
    requires
        m.len() > 0,
        forall|k: int| 0 <= k && a.len() - m.len() < k < a.len() ==> !#[trigger] occurs_at(a + y, m, k),
    ensures
        occ_count(a + y, m) == occ_count(a, m) + occ_count(y, m),
    decreases a.len(),
{
    if a.len() == 0 {
        assert(a + y =~= y);
    } else {
        let a1 = a.drop_first();
        assert((a + y).drop_first() =~= a1 + y);
        assert forall|k: int| 0 <= k && a1.len() - m.len() < k < a1.len() implies !#[trigger] occurs_at(a1 + y, m, k) by {
            assert(!occurs_at(a + y, m, k + 1));
            if occurs_at(a1 + y, m, k) {
                assert((a + y).subrange(k + 1, k + 1 + m.len()) =~= (a1 + y).subrange(k, k + m.len()));
            }
        }
        lemma_occ_count_split(a1, y, m);
        if m.len() <= a.len() {
            assert((a + y).subrange(0, m.len() as int) =~= a.subrange(0, m.len() as int));
        } else {
            assert(!occurs_at(a + y, m, 0));
        }
    }
}

/// A text without the first character of `m` holds no occurrence of it.
pub proof fn lemma_occ_count_none(x: Seq<char>, m: Seq<char>)
    requires
        m.len() > 0,
        forall|k: int| 0 <= k < x.len() ==> x[k] != m[0],
    ensures
        occ_count(x, m) == 0,
    decreases x.len(),
{
    if x.len() > 0 {
        if occurs_at(x, m, 0) {
            assert(x[0] == x.subrange(0, m.len() as int)[0]);
        }
        lemma_occ_count_none(x.drop_first(), m);
    }
}

/// A marker-like text: it starts with `/`, holds no line feed and no two
/// spaces in a row, and does not end with a space.
pub open spec fn marker_like(m: Seq<char>) -> bool {
    &&& m.len() > 0
    &&& m[0] == '/'
    &&& m.last() != ' '
    &&& forall|k: int| 0 <= k < m.len() ==> m[k] != '\n'
    &&& forall|k: int| 0 <= k < m.len() - 1 ==> !(#[trigger] m[k] == ' ' && m[k + 1] == ' ')
}

/// No occurrence of a marker-like text straddles a seam followed by two
/// spaces.
proof fn lemma_no_straddle_before_spaces(s: Seq<char>, n: int, m: Seq<char>)
    requires
        marker_like(m),
        0 <= n,
        n + 2 <= s.len(),
        s[n] == ' ',
        s[n + 1] == ' ',
    ensures
        forall|k: int| 0 <= k && n - m.len() < k < n ==> !#[trigger] occurs_at(s, m, k),
{
    assert forall|k: int| 0 <= k && n - m.len() < k < n implies !#[trigger] occurs_at(s, m, k) by {
        if occurs_at(s, m, k) {
            let d = n - k;
            assert(m[d] == s.subrange(k, k + m.len())[d]);
            if d + 1 < m.len() {
                assert(m[d + 1] == s.subrange(k, k + m.len())[d + 1]);
                assert(m[d] == ' ' && m[d + 1] == ' ');
            }
        }
    }
}

/// Inserting a text that starts with two spaces, holds no `/` and ends with
/// a line feed, right before two spaces, keeps the number of occurrences of
/// a marker-like text.
pub proof fn lemma_insert_keeps_marker_count(a: Seq<char>, x: Seq<char>, b: Seq<char>, m: Seq<char>)
    requires
        marker_like(m),
        x.len() >= 2,
        x[0] == ' ',
        x[1] == ' ',
        x.last() == '\n',
        forall|k: int| 0 <= k < x.len() ==> x[k] != '/',
        b.len() >= 2,
        b[0] == ' ',
        b[1] == ' ',
    ensures
        occ_count(a + x + b, m) == occ_count(a + b, m),
{
    let xb = x + b;
    assert(a + x + b =~= a + xb);
    lemma_no_straddle_before_spaces(a + xb, a.len() as int, m);
    lemma_occ_count_split(a, xb, m);
    assert forall|k: int| 0 <= k && x.len() - m.len() < k < x.len() implies !#[trigger] occurs_at(xb, m, k) by {
        if occurs_at(xb, m, k) {
            let e = x.len() - 1;
            assert(xb[e] == xb.subrange(k, k + m.len())[e - k]);
        }
    }
    lemma_occ_count_split(x, b, m);
    lemma_occ_count_none(x, m);
    lemma_no_straddle_before_spaces(a + b, a.len() as int, m);
    lemma_occ_count_split(a, b, m);
}

/// `str::replacen(pat, with, 1)`: only the first occurrence is replaced.
pub open spec fn replace_first(s: Seq<char>, pat: Seq<char>, with: Seq<char>) -> Seq<char> {
    match find_from(s, pat, 0) {
        None => s,
        Some(i) => s.take(i) + with + s.skip(i + pat.len()),
    }
}

/// A found position leaves room for the searched text, and it occurs there.
pub proof fn lemma_find_from_found(s: Seq<char>, t: Seq<char>, i: int)
    ensures
        find_from(s, t, i) matches Some(k) ==> i <= k && 0 <= k && k + t.len() <= s.len() && s.subrange(k, k + t.len()) == t,
    decreases s.len() + 1 - i,
{
    if !(i < 0 || i + t.len() > s.len()) && !occurs_at(s, t, i) {
        lemma_find_from_found(s, t, i + 1);
    }
}

proof fn lemma_find_from_skip(s: Seq<char>, t: Seq<char>, k: int, i: int)
    requires
        0 <= k <= i,
        k <= s.len(),
    ensures
        find_from(s.skip(k), t, i - k) == match find_from(s, t, i) {
            Some(j) => Some(j - k),
            None => None::<int>,
        },
    decreases s.len() + 1 - i,
{
    let sk = s.skip(k);
    assert(sk.len() == s.len() - k);
    if !(i + t.len() > s.len()) {
        if occurs_at(s, t, i) {
            assert(sk.subrange(i - k, i - k + t.len()) =~= s.subrange(i, i + t.len()));
            assert(occurs_at(sk, t, i - k));
            assert(find_from(sk, t, i - k) == Some(i - k));
        } else {
            assert(!occurs_at(s.skip(k), t, i - k)) by {
                if occurs_at(s.skip(k), t, i - k) {
                    assert(s.skip(k).subrange(i - k, i - k + t.len()) =~= s.subrange(i, i + t.len()));
                }
            }
            lemma_find_from_skip(s, t, k, i + 1);
        }
    }
}

/// A text that occurs at `p` is found by a search from any `i <= p`, at or
/// before `p`.
pub proof fn lemma_occurs_found(s: Seq<char>, t: Seq<char>, i: int, p: int)
    requires
        0 <= i <= p,
        occurs_at(s, t, p),
    ensures
        find_from(s, t, i) matches Some(k) && i <= k <= p,
    decreases p - i,
{
    if !occurs_at(s, t, i) {
        lemma_occurs_found(s, t, i + 1, p);
    }
}

/// Replacing the first occurrence of `pat` by `x + pat` inserts `x` before
/// that occurrence.
pub proof fn lemma_replace_first_inserts(s: Seq<char>, pat: Seq<char>, x: Seq<char>)
    ensures
        match find_from(s, pat, 0) {
            Some(k) => 0 <= k <= s.len() && replace_first(s, pat, x + pat) == s.take(k) + x + s.skip(k),
            None => replace_first(s, pat, x + pat) == s,
        },
{
    lemma_find_from_found(s, pat, 0);
    if let Some(k) = find_from(s, pat, 0) {
        assert(s.take(k) + (x + pat) + s.skip(k + pat.len()) =~= s.take(k) + x + s.skip(k)) by {
            assert(s.skip(k) =~= pat + s.skip(k + pat.len()));
        }
    }
}

pub fn push_range(out: &mut String, c: &Vec<char>, lo: usize, hi: usize)
    requires
        lo <= hi <= c@.len(),
    ensures
        final(out)@ == old(out)@ + c@.subrange(lo as int, hi as int),
{
    let mut k = lo;
    while k < hi
        invariant
            lo <= k <= hi <= c@.len(),
            out@ == old(out)@ + c@.subrange(lo as int, k as int),
        decreases hi - k,
    {
        push_char(out, c[k]);
        assert(c@.subrange(lo as int, k + 1) =~= c@.subrange(lo as int, k as int).push(c@[k as int]));
        k += 1;
    }
}

/// Replace every occurrence of a non-empty pattern (`str::replace`).
pub fn replace_all_str(s: &str, pat: &str, with: &str) -> (r: String)
    requires
        pat@.len() > 0,
    ensures
        r@ == replace_all(s@, pat@, with@),
{
    let c = chars_of(s);
    let p = chars_of(pat);
    let n = c.len();
    let mut out = String::new();
    let mut i: usize = 0;
    proof {
        assert(c@.skip(0) =~= c@);
    }
    while i <= n
        invariant
            c@ == s@,
            p@ == pat@,
            p@.len() > 0,
            n == c@.len(),
            i <= n,
            out@ + replace_all(c@.skip(i as int), p@, with@) == replace_all(c@, p@, with@),
        decreases n + 1 - i,
    {
        let found = find_in_range(&c, 0, n, i, &p);
        proof {
            assert(c@.subrange(0, n as int) =~= c@);
            lemma_find_from_skip(c@, p@, i as int, i as int);
        }
        match found {
            None => {
                push_range(&mut out, &c, i, n);
                proof {
                    assert(c@.subrange(i as int, n as int) =~= c@.skip(i as int));
                }
                return out;
            },
            Some(j) => {
                proof {
                    lemma_find_from_found(c@, p@, i as int);
                    let rest = c@.skip(i as int);
                    assert(rest.take(j - i) =~= c@.subrange(i as int, j as int));
                    assert(rest.skip(j - i + p@.len()) =~= c@.skip(j + p@.len()));
                }
                push_range(&mut out, &c, i, j);
                out.append(with);
                i = j + p.len();
            },
        }
    }
    out
}

/// Replace the first occurrence of a pattern (`str::replacen(_, _, 1)`).
pub fn replace_first_str(s: &str, pat: &str, with: &str) -> (r: String)
    ensures
        r@ == replace_first(s@, pat@, with@),
{
    let c = chars_of(s);
    let p = chars_of(pat);
    let n = c.len();
    let mut out = String::new();
    proof {
        assert(c@.subrange(0, n as int) =~= c@);
    }
    match find_in_range(&c, 0, n, 0, &p) {
        None => {
            push_range(&mut out, &c, 0, n);
        },
        Some(j) => {
            proof {
                lemma_find_from_found(c@, p@, 0);
                assert(c@.take(j as int) =~= c@.subrange(0, j as int));
                assert(c@.skip(j + p@.len()) =~= c@.subrange(j + p@.len(), n as int));
            }
            push_range(&mut out, &c, 0, j);
            out.append(with);
            push_range(&mut out, &c, j + p.len(), n);
        },
    }
    out
}

/// Whether `t` occurs in `s` (`str::contains`).
pub fn contains_str(s: &str, t: &str) -> (r: bool)
    ensures
        r == contains_seq(s@, t@),
{
    let c = chars_of(s);
    let p = chars_of(t);
    proof {
        assert(c@.subrange(0, c@.len() as int) =~= c@);
    }
    find_in_range(&c, 0, c.len(), 0, &p).is_some()
}

/// Whether `s` starts with `t` (`str::starts_with`).
pub fn starts_with_str(s: &str, t: &str) -> (r: bool)
    ensures
        r == starts_with(s@, t@),
{
    let c = chars_of(s);
    let p = chars_of(t);
    proof {
        assert(c@.subrange(0, c@.len() as int) =~= c@);
    }
    range_starts_with(&c, 0, c.len(), &p)
}

/// The texts of a list of string slices, joined (`concat`).
pub fn cat(parts: &[&str]) -> (r: String)
    ensures
        r@ == concat_views(parts@),
{
    let mut r = String::new();
    for i in 0..parts.len()
        invariant
            r@ == concat_views(parts@.take(i as int)),
    {
        r.append(parts[i]);
        proof {
            assert(parts@.take(i + 1).drop_last() =~= parts@.take(i as int));
        }
    }
    proof {
        assert(parts@.take(parts@.len() as int) =~= parts@);
    }
    r
}

/// The texts of a list of string slices, joined.
pub open spec fn concat_views(parts: Seq<&str>) -> Seq<char>
    decreases parts.len(),
{
    if parts.len() == 0 {
        Seq::empty()
    } else {
        concat_views(parts.drop_last()) + parts.last()@
    }
}

/// What `str::to_lowercase` returns for a text.
pub uninterp spec fn str_lowercase(s: Seq<char>) -> Seq<char>;

/// `str::to_lowercase`. Its result is named by `str_lowercase`; for an
/// all-ASCII text the documented result is stated (each ASCII capital made
/// small), the Unicode tables are not.
#[verifier::external_body]
pub(crate) fn lowercase_of(s: &str) -> (r: String)
    ensures
        r@ == str_lowercase(s@),
        (forall|i: int| 0 <= i < s@.len() ==> (s@[i] as u32) < 128) ==> r@ == s@.map_values(
            |c: char| ascii_lower(c),
        ),
{
    s.to_lowercase()
}

} // verus!
