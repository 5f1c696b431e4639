//! JSONC support: removal of `//` line comments and `/* */` block comments
//! before a theme or layout file is handed to the JSON parser.

use vstd::prelude::*;
use crate::text::{chars_of, push_char};

verus! {

/// Index of the first line break at or after `j` (or the end of `c`).
pub open spec fn line_comment_end(c: Seq<char>, j: int) -> int
    decreases c.len() - j,
{
    if j >= c.len() || c[j] == '\n' {
        j
    } else {
        line_comment_end(c, j + 1)
    }
}

/// Index of the `*` of the first `*/` at or after `j`; when there is none,
/// the scan stops at the last character (or at `j` if it is already past it).
pub open spec fn block_comment_end(c: Seq<char>, j: int) -> int
    decreases c.len() - j,
{
    if j + 1 >= c.len() || (c[j] == '*' && c[j + 1] == '/') {
        j
    } else {
        block_comment_end(c, j + 1)
    }
}

/// `c` from position `i` on, with comments removed: `//` drops everything up
/// to (not including) the next line break, `/*` drops everything up to and
/// including the next `*/` (or the rest of the input when it is unclosed).
pub open spec fn strip_comments_from(c: Seq<char>, i: int) -> Seq<char>
    decreases c.len() + 2 - i,
{
    if i < 0 || i >= c.len() {
        Seq::empty()
    } else if c[i] == '/' && i + 1 < c.len() && c[i + 1] == '/' {
        proof {
            lemma_line_comment_end_bounds(c, i + 2);
        }
        strip_comments_from(c, line_comment_end(c, i + 2))
    } else if c[i] == '/' && i + 1 < c.len() && c[i + 1] == '*' {
        proof {
            lemma_block_comment_end_bounds(c, i + 2);
        }
        strip_comments_from(c, block_comment_end(c, i + 2) + 2)
    } else {
        seq![c[i]].add(strip_comments_from(c, i + 1))
    }
}

/// The whole input with its comments removed.
pub open spec fn spec_strip_jsonc(c: Seq<char>) -> Seq<char> {
    strip_comments_from(c, 0)
}


pub proof fn lemma_line_comment_end_bounds(c: Seq<char>, j: int)
    requires
        0 <= j <= c.len(),
    ensures
        j <= line_comment_end(c, j) <= c.len(),
    decreases c.len() - j,
{
    if j < c.len() && c[j] != '\n' {
        lemma_line_comment_end_bounds(c, j + 1);
    }
}

pub proof fn lemma_block_comment_end_bounds(c: Seq<char>, j: int)
    ensures
        j <= block_comment_end(c, j),
        j + 1 < c.len() ==> block_comment_end(c, j) + 1 <= c.len(),
        j <= c.len() ==> block_comment_end(c, j) <= c.len(),
    decreases c.len() - j,
{
    if !(j + 1 >= c.len() || (c[j] == '*' && c[j + 1] == '/')) {
        lemma_block_comment_end_bounds(c, j + 1);
    }
}

/// Remove `//` and `/* */` comments from JSONC text. Every other character
/// is kept in order; comment markers inside JSON strings are not special.
pub fn strip_jsonc_comments(input: &str) -> (out: String)
    ensures
        out@ == spec_strip_jsonc(input@),
{
    let chars = chars_of(input);
    let n = chars.len();
    let mut out = String::new();
    let mut i: usize = 0;
    while i < n
        invariant
            n == chars@.len(),
            chars@ == input@,
            out@ + strip_comments_from(chars@, i as int) == spec_strip_jsonc(chars@),
        decreases n - i,
    {
        if chars[i] == '/' && i + 1 < n {
            if chars[i + 1] == '/' {
                let ghost start = i;
                i += 2;
                while i < n && chars[i] != '\n'
                    invariant
                        start + 2 <= i <= n,
                        n == chars@.len(),
                        line_comment_end(chars@, i as int) == line_comment_end(chars@, start + 2),
                    decreases n - i,
                {
                    i += 1;
                }
                continue;
            }
            if chars[i + 1] == '*' {
                let ghost start = i;
                i += 2;
                while i < n - 1 && !(chars[i] == '*' && chars[i + 1] == '/')
                    invariant
                        start + 2 <= i <= n,
                        n == chars@.len(),
                        block_comment_end(chars@, i as int) == block_comment_end(chars@, start + 2),
                    decreases n - i,
                {
                    i += 1;
                }
                if i >= n - 1 {
                    proof {
                        assert(strip_comments_from(chars@, i + 2) == Seq::<char>::empty());
                    }
                    i = n;
                } else {
                    i += 2;
                }
                continue;
            }
        }
        let ghost before = out@;
        push_char(&mut out, chars[i]);
        proof {
            assert(out@ + strip_comments_from(chars@, i + 1) =~= before + strip_comments_from(chars@, i as int));
        }
        i += 1;
    }
    proof {
        assert(out@ =~= out@ + strip_comments_from(chars@, i as int));
    }
    out
}

/// Text without a `/` has no comment to remove and passes unchanged.
pub proof fn lemma_strip_jsonc_without_slash(c: Seq<char>)
    requires
        !c.contains('/'),
    ensures
        spec_strip_jsonc(c) == c,
{
    lemma_strip_from_without_slash(c, 0);
    assert(c.subrange(0, c.len() as int) =~= c);
}

proof fn lemma_strip_from_without_slash(c: Seq<char>, i: int)
    requires
        !c.contains('/'),
        0 <= i <= c.len(),
    ensures
        strip_comments_from(c, i) == c.subrange(i, c.len() as int),
    decreases c.len() - i,
{
    if i < c.len() {
        assert(c[i] != '/');
        lemma_strip_from_without_slash(c, i + 1);
        assert(seq![c[i]].add(c.subrange(i + 1, c.len() as int)) =~= c.subrange(i, c.len() as int));
    } else {
        assert(c.subrange(i, c.len() as int) =~= Seq::<char>::empty());
    }
}

/// Removing comments never adds characters.
pub proof fn lemma_strip_jsonc_shrinks(c: Seq<char>)
    ensures
        spec_strip_jsonc(c).len() <= c.len(),
{
    lemma_strip_from_len(c, 0);
}

proof fn lemma_strip_from_len(c: Seq<char>, i: int)
    requires
        0 <= i,
    ensures
        strip_comments_from(c, i).len() <= if i <= c.len() { c.len() - i } else { 0 },
    decreases c.len() + 2 - i,
{
    if i < c.len() {
        if c[i] == '/' && i + 1 < c.len() && c[i + 1] == '/' {
            lemma_line_comment_end_bounds(c, i + 2);
            lemma_strip_from_len(c, line_comment_end(c, i + 2));
        } else if c[i] == '/' && i + 1 < c.len() && c[i + 1] == '*' {
            lemma_block_comment_end_bounds(c, i + 2);
            lemma_strip_from_len(c, block_comment_end(c, i + 2) + 2);
        } else {
            lemma_strip_from_len(c, i + 1);
        }
    }
}

/// `a` is a subsequence of `b`: its characters appear in `b` in order.
pub open spec fn is_subsequence(a: Seq<char>, b: Seq<char>) -> bool
    decreases b.len(),
{
    if a.len() == 0 {
        true
    } else if b.len() == 0 {
        false
    } else {
        (a[0] == b[0] && is_subsequence(a.drop_first(), b.drop_first())) || is_subsequence(a, b.drop_first())
    }
}

/// No comment starts in `s`: no `/` is followed by `/` or `*`.
pub open spec fn no_comment_start(s: Seq<char>) -> bool {
    forall|k: int| 0 <= k < s.len() - 1 && #[trigger] s[k] == '/' ==> s[k + 1] != '/' && s[k + 1] != '*'
}

/// Comment removal keeps the rest of the text in order, leaves no comment
/// start behind, and changes nothing when applied again.
pub proof fn lemma_strip_jsonc_laws(c: Seq<char>)
    ensures
        is_subsequence(spec_strip_jsonc(c), c),
        no_comment_start(spec_strip_jsonc(c)),
        spec_strip_jsonc(spec_strip_jsonc(c)) == spec_strip_jsonc(c),
{
    lemma_strip_from_subsequence(c, 0);
    assert(c.subrange(0, c.len() as int) =~= c);
    lemma_strip_from_clean(c, 0);
    let s = spec_strip_jsonc(c);
    lemma_clean_unchanged(s, 0);
    assert(s.subrange(0, s.len() as int) =~= s);
}

/// A subsequence of `b` is one of any text that ends with `b`.
proof fn lemma_subsequence_extend(a: Seq<char>, x: Seq<char>, b: Seq<char>)
    requires
        is_subsequence(a, b),
    ensures
        is_subsequence(a, x + b),
    decreases x.len(),
{
    if x.len() > 0 {
        lemma_subsequence_extend(a, x.drop_first(), b);
        assert((x + b).drop_first() =~= x.drop_first() + b);
    } else {
        assert(x + b =~= b);
    }
}

proof fn lemma_strip_from_subsequence(c: Seq<char>, i: int)
    requires
        0 <= i,
    ensures
        i <= c.len() ==> is_subsequence(strip_comments_from(c, i), c.subrange(i, c.len() as int)),
    decreases c.len() + 2 - i,
{
    if i < c.len() {
        let b = c.subrange(i, c.len() as int);
        if c[i] == '/' && i + 1 < c.len() && c[i + 1] == '/' {
            let e = line_comment_end(c, i + 2);
            lemma_line_comment_end_bounds(c, i + 2);
            lemma_strip_from_subsequence(c, e);
            assert(b =~= c.subrange(i, e) + c.subrange(e, c.len() as int));
            lemma_subsequence_extend(strip_comments_from(c, e), c.subrange(i, e), c.subrange(e, c.len() as int));
        } else if c[i] == '/' && i + 1 < c.len() && c[i + 1] == '*' {
            let e = block_comment_end(c, i + 2) + 2;
            lemma_block_comment_end_bounds(c, i + 2);
            lemma_strip_from_subsequence(c, e);
            if e <= c.len() {
                assert(b =~= c.subrange(i, e) + c.subrange(e, c.len() as int));
                lemma_subsequence_extend(strip_comments_from(c, e), c.subrange(i, e), c.subrange(e, c.len() as int));
            } else {
                assert(strip_comments_from(c, e).len() == 0);
            }
        } else {
            lemma_strip_from_subsequence(c, i + 1);
            let out = strip_comments_from(c, i);
            assert(out == seq![c[i]].add(strip_comments_from(c, i + 1)));
            assert(out.drop_first() =~= strip_comments_from(c, i + 1));
            assert(b.drop_first() =~= c.subrange(i + 1, c.len() as int));
            assert(out[0] == b[0]);
        }
    }
}

/// What remains after removal starts with `c[i]` when that is not a `/`.
proof fn lemma_strip_from_first(c: Seq<char>, i: int)
    requires
        0 <= i < c.len(),
        c[i] != '/',
    ensures
        strip_comments_from(c, i).len() > 0,
        strip_comments_from(c, i)[0] == c[i],
{
}

proof fn lemma_strip_from_clean(c: Seq<char>, i: int)
    requires
        0 <= i,
    ensures
        no_comment_start(strip_comments_from(c, i)),
    decreases c.len() + 2 - i,
{
    if i < c.len() {
        if c[i] == '/' && i + 1 < c.len() && c[i + 1] == '/' {
            lemma_line_comment_end_bounds(c, i + 2);
            lemma_strip_from_clean(c, line_comment_end(c, i + 2));
        } else if c[i] == '/' && i + 1 < c.len() && c[i + 1] == '*' {
            lemma_block_comment_end_bounds(c, i + 2);
            lemma_strip_from_clean(c, block_comment_end(c, i + 2) + 2);
        } else {
            lemma_strip_from_clean(c, i + 1);
            let rest = strip_comments_from(c, i + 1);
            let out = strip_comments_from(c, i);
            assert(out == seq![c[i]].add(rest));
            if c[i] == '/' && i + 1 < c.len() {
                lemma_strip_from_first(c, i + 1);
            }
            assert forall|k: int| 0 <= k < out.len() - 1 && #[trigger] out[k] == '/' implies out[k + 1] != '/' && out[k + 1]
                != '*' by {
                if k > 0 {
                    assert(out[k] == rest[k - 1]);
                    assert(out[k + 1] == rest[k]);
                } else {
                    assert(out[1] == rest[0]);
                }
            }
        }
    }
}

proof fn lemma_clean_unchanged(s: Seq<char>, i: int)
    requires
        no_comment_start(s),
        0 <= i <= s.len(),
    ensures
        strip_comments_from(s, i) == s.subrange(i, s.len() as int),
    decreases s.len() - i,
{
    if i < s.len() {
        lemma_clean_unchanged(s, i + 1);
        assert(seq![s[i]].add(s.subrange(i + 1, s.len() as int)) =~= s.subrange(i, s.len() as int));
    } else {
        assert(s.subrange(i, s.len() as int) =~= Seq::<char>::empty());
    }
}

} // verus!
