//! Reading the kernel's text interfaces that the system provider samples:
//! `/proc/<pid>/status` (thread count), `/proc/self/mountinfo` (mount
//! options), `/proc/net/if_inet6` (IPv6 addresses), the CSV lines of
//! `nvidia-smi`, plus the integer decisions of a sample (process run time,
//! whether a process may be killed). The caller reads the files and runs
//! the programs.

use vstd::prelude::*;
use crate::text::{
    chars_of, find_char_from, is_white, lemma_find_char_from_bounds, is_whitespace, line_ranges, push_char, push_range, range_starts_with,
    range_text, ranges_texts, ranges_within, spec_lines, str_eq, trim, trim_range,
};
use vstd::string::StrSliceExecFns;

verus! {

/// The end of the word of `s` that starts at `i`: the first whitespace at or
/// after `i`, or the end.
pub open spec fn word_end(s: Seq<char>, i: int) -> int
    decreases s.len() - i,
{
    if i < 0 || i >= s.len() || is_white(s[i]) {
        i
    } else {
        word_end(s, i + 1)
    }
}

pub proof fn lemma_word_end(s: Seq<char>, i: int)
    requires
        0 <= i <= s.len(),
    ensures
        i <= word_end(s, i) <= s.len(),
        forall|k: int| i <= k < word_end(s, i) ==> !is_white(s[k]),
        word_end(s, i) < s.len() ==> is_white(s[word_end(s, i)]),
    decreases s.len() - i,
{
    if i < s.len() && !is_white(s[i]) {
        lemma_word_end(s, i + 1);
    }
}

/// The words of `s` from position `i` on (`str::split_whitespace`).
pub open spec fn words_from(s: Seq<char>, i: int) -> Seq<Seq<char>>
    decreases s.len() - i,
{
    if i < 0 || i >= s.len() {
        Seq::empty()
    } else if is_white(s[i]) {
        words_from(s, i + 1)
    } else {
        let k = word_end(s, i);
        proof {
            lemma_word_end(s, i + 1);
        }
        seq![s.subrange(i, k)] + words_from(s, k)
    }
}

/// The words of a text: its maximal runs of non-whitespace characters.
pub open spec fn words(s: Seq<char>) -> Seq<Seq<char>> {
    words_from(s, 0)
}

/// The ranges of the words of `[lo, hi)` of `c`.
fn word_ranges(c: &Vec<char>, lo: usize, hi: usize) -> (rs: Vec<(usize, usize)>)
    requires
        lo <= hi <= c@.len(),
    ensures
        ranges_within(c@, rs@),
        ranges_texts(c@, rs@) == words(c@.subrange(lo as int, hi as int)),
{
    let ghost s = c@.subrange(lo as int, hi as int);
    let mut rs: Vec<(usize, usize)> = Vec::new();
    let mut i = lo;
    while i < hi
        invariant
            lo <= i <= hi <= c@.len(),
            s == c@.subrange(lo as int, hi as int),
            ranges_within(c@, rs@),
            words(s) == ranges_texts(c@, rs@) + words_from(s, i - lo),
        decreases hi - i,
    {
        if is_whitespace(c[i]) {
            proof {
                assert(words_from(s, i - lo) == words_from(s, i - lo + 1));
            }
            i += 1;
        } else {
            let mut j = i + 1;
            proof {
                lemma_word_end(s, i - lo + 1);
                assert(word_end(s, i - lo) == word_end(s, i - lo + 1));
            }
            while j < hi && !is_whitespace(c[j])
                invariant
                    lo <= i < j <= hi <= c@.len(),
                    s == c@.subrange(lo as int, hi as int),
                    word_end(s, i - lo) == word_end(s, j - lo),
                decreases hi - j,
            {
                j += 1;
            }
            let ghost before = rs@;
            rs.push((i, j));
            proof {
                assert(s.subrange(i - lo, j - lo) =~= c@.subrange(i as int, j as int));
                assert(words_from(s, i - lo) == seq![s.subrange(i - lo, j - lo)] + words_from(s, j - lo));
                assert(ranges_texts(c@, rs@) =~= ranges_texts(c@, before).push(c@.subrange(i as int, j as int)));
                assert(ranges_texts(c@, before) + (seq![c@.subrange(i as int, j as int)] + words_from(s, j - lo))
                    =~= ranges_texts(c@, rs@) + words_from(s, j - lo));
            }
            i = j;
        }
    }
    proof {
        assert(words_from(s, i - lo) =~= Seq::<Seq<char>>::empty());
        assert(words(s) =~= ranges_texts(c@, rs@));
    }
    rs
}

/// The value of a decimal digit character.
pub open spec fn digit_value(c: char) -> int {
    (c as int) - 48
}

/// Whether every character is an ASCII digit.
pub open spec fn all_digits(s: Seq<char>) -> bool {
    forall|i: int| 0 <= i < s.len() ==> '0' <= #[trigger] s[i] <= '9'
}

/// The value of a string of decimal digits.
pub open spec fn digits_value(s: Seq<char>) -> int
    decreases s.len(),
{
    if s.len() == 0 {
        0
    } else {
        digits_value(s.drop_last()) * 10 + digit_value(s.last())
    }
}

/// `str::parse::<u64>`: an optional `+`, then one or more decimal digits
/// whose value fits in 64 bits.
pub open spec fn spec_parse_u64(s: Seq<char>) -> Option<u64> {
    let d = if s.len() > 0 && s[0] == '+' { s.skip(1) } else { s };
    if d.len() > 0 && all_digits(d) && digits_value(d) <= u64::MAX {
        Some(digits_value(d) as u64)
    } else {
        None
    }
}

proof fn lemma_digits_value_grows(s: Seq<char>, k: int)
    requires
        0 <= k <= s.len(),
        all_digits(s),
    ensures
        0 <= digits_value(s.take(k)) <= digits_value(s),
    decreases s.len() - k,
{
    if k < s.len() {
        lemma_digits_value_grows(s, k + 1);
        assert(s.take(k + 1).drop_last() =~= s.take(k));
        assert('0' <= s[k] <= '9');
    } else {
        assert(s.take(k) =~= s);
        lemma_digits_value_nonneg(s);
    }
}

proof fn lemma_digits_value_nonneg(s: Seq<char>)
    requires
        all_digits(s),
    ensures
        digits_value(s) >= 0,
    decreases s.len(),
{
    if s.len() > 0 {
        assert(all_digits(s.drop_last())) by {
            assert forall|i: int| 0 <= i < s.drop_last().len() implies '0' <= #[trigger] s.drop_last()[i] <= '9' by {
                assert(s.drop_last()[i] == s[i]);
            }
        }
        lemma_digits_value_nonneg(s.drop_last());
        assert('0' <= s[s.len() - 1] <= '9');
    }
}

/// Parse a decimal `u64` from `[lo, hi)` of `c` (see `spec_parse_u64`).
fn parse_u64_range(c: &Vec<char>, lo: usize, hi: usize) -> (r: Option<u64>)
    requires
        lo <= hi <= c@.len(),
    ensures
        r == spec_parse_u64(c@.subrange(lo as int, hi as int)),
{
    let ghost s = c@.subrange(lo as int, hi as int);
    let start = if lo < hi && c[lo] == '+' { lo + 1 } else { lo };
    let ghost d = c@.subrange(start as int, hi as int);
    proof {
        if lo < hi && c@[lo as int] == '+' {
            assert(s.skip(1) =~= d);
        } else {
            assert(s =~= d);
        }
    }
    if start == hi {
        return None;
    }
    let mut v: u64 = 0;
    let mut k = start;
    assert(d.take(0) =~= Seq::<char>::empty());
    while k < hi
        invariant
            lo <= start <= k <= hi <= c@.len(),
            start < hi,
            d == c@.subrange(start as int, hi as int),
            spec_parse_u64(c@.subrange(lo as int, hi as int)) == (if all_digits(d) && digits_value(d) <= u64::MAX {
                Some(digits_value(d) as u64)
            } else {
                None
            }),
            all_digits(d.take(k - start)),
            v == digits_value(d.take(k - start)),
        decreases hi - k,
    {
        let x = c[k];
        if !('0' <= x && x <= '9') {
            proof {
                assert(d[k - start] == x);
            }
            return None;
        }
        let dv = (x as u32 - 48) as u64;
        proof {
            assert(d.take(k - start + 1).drop_last() =~= d.take(k - start));
            assert(d.take(k - start + 1).last() == x);
            assert(all_digits(d.take(k - start + 1))) by {
                assert forall|i: int| 0 <= i < d.take(k - start + 1).len() implies '0' <= #[trigger] d.take(
                    k - start + 1,
                )[i] <= '9' by {
                    if i < k - start {
                        assert(d.take(k - start + 1)[i] == d.take(k - start)[i]);
                    }
                }
            }
        }
        if v > (u64::MAX - dv) / 10 {
            proof {
                assert(v * 10 + dv > u64::MAX) by (nonlinear_arith)
                    requires
                        v > (u64::MAX - dv) / 10,
                        dv <= 9,
                ;
                // Every further digit only makes the value larger.
                let rest_ok = all_digits(d);
                if rest_ok {
                    lemma_digits_value_grows(d, k - start + 1);
                }
            }
            return None;
        }
        v = v * 10 + dv;
        k += 1;
    }
    proof {
        assert(d.take(hi - start) =~= d);
    }
    Some(v)
}

/// Parse a decimal `u64` (`str::parse::<u64>`).
pub fn parse_u64(s: &str) -> (r: Option<u64>)
    ensures
        r == spec_parse_u64(s@),
{
    let c = chars_of(s);
    proof {
        assert(c@.subrange(0, c@.len() as int) =~= s@);
    }
    parse_u64_range(&c, 0, c.len())
}

/// The thread count in a `/proc/<pid>/status` text: the first line that
/// starts with `Threads:` and a tab, the rest trimmed and read as a number;
/// 0 when there is no such line or its number does not parse.
pub open spec fn spec_thread_count(status: Seq<char>) -> u64 {
    thread_count_in(spec_lines(status))
}

/// The thread count of the first `Threads:\t` line of `lines`.
pub open spec fn thread_count_in(lines: Seq<Seq<char>>) -> u64
    decreases lines.len(),
{
    if lines.len() == 0 {
        0
    } else if crate::text::starts_with(lines[0], "Threads:\t"@) {
        match spec_parse_u64(trim(lines[0].skip(9))) {
            Some(n) => n,
            None => 0,
        }
    } else {
        thread_count_in(lines.skip(1))
    }
}

/// The thread count of a process from its `/proc/<pid>/status` text.
pub fn thread_count(status: &str) -> (r: u64)
    ensures
        r == spec_thread_count(status@),
{
    let c = chars_of(status);
    let lines = line_ranges(&c);
    let key = chars_of("Threads:\t");
    proof {
        reveal_strlit("Threads:\t");
        assert(key@.len() == 9);
    }
    let ghost all = spec_lines(status@);
    assert(all.skip(0) =~= all);
    for i in 0..lines.len()
        invariant
            c@ == status@,
            all == spec_lines(c@),
            ranges_texts(c@, lines@) == all,
            ranges_within(c@, lines@),
            key@ == "Threads:\t"@,
            key@.len() == 9,
            thread_count_in(all) == thread_count_in(all.skip(i as int)),
    {
        let (lo, hi) = lines[i];
        proof {
            assert(all[i as int] == c@.subrange(lo as int, hi as int));
            assert(all.skip(i as int)[0] == all[i as int]);
            assert(all.skip(i as int).skip(1) =~= all.skip(i + 1));
        }
        if range_starts_with(&c, lo, hi, &key) {
            let (a, b) = trim_range(&c, lo + 9, hi);
            proof {
                assert(c@.subrange(lo as int, hi as int).skip(9) =~= c@.subrange(lo + 9, hi as int));
            }
            return match parse_u64_range(&c, a, b) {
                Some(n) => n,
                None => 0,
            };
        }
    }
    proof {
        assert(all.skip(lines@.len() as int).len() == 0);
    }
    0
}

/// How long a process has run, in seconds, at time `now`: 0 when its start
/// time is unknown (0), and never negative.
pub fn process_run_time(now: u64, start: u64) -> (r: u64)
    ensures
        r == if start > 0 && now >= start { (now - start) as u64 } else { 0 },
{
    if start > 0 {
        now.saturating_sub(start)
    } else {
        0
    }
}

/// Whether the monitor may send a termination signal to a process: when
/// both the monitor's user and the process's user are known they must be
/// the same; when either is unknown the signal is sent.
pub fn kill_allowed(current_user: Option<&str>, target_user: Option<&str>) -> (r: bool)
    ensures
        r == match (current_user, target_user) {
            (Some(c), Some(t)) => c@ == t@,
            _ => true,
        },
{
    match (current_user, target_user) {
        (Some(c), Some(t)) => str_eq(c, t),
        _ => true,
    }
}

/// The mount point and options of a `/proc/self/mountinfo` line: its fifth
/// and sixth words, when it has at least six.
pub open spec fn mount_entry(line: Seq<char>) -> Option<(Seq<char>, Seq<char>)> {
    let w = words(line);
    if w.len() >= 6 {
        Some((w[4], w[5]))
    } else {
        None
    }
}

/// The mount entries of a list of lines, in order.
pub open spec fn mount_entries_of(lines: Seq<Seq<char>>) -> Seq<(Seq<char>, Seq<char>)>
    decreases lines.len(),
{
    if lines.len() == 0 {
        Seq::empty()
    } else {
        mount_entries_of(lines.drop_last()) + match mount_entry(lines.last()) {
            Some(e) => seq![e],
            None => Seq::empty(),
        }
    }
}

/// The views of a list of string pairs.
pub open spec fn pair_views(v: Seq<(String, String)>) -> Seq<(Seq<char>, Seq<char>)> {
    v.map_values(|p: (String, String)| (p.0@, p.1@))
}

/// The (mount point, options) entries of a mountinfo text, in line order.
pub fn mount_entries(mountinfo: &str) -> (r: Vec<(String, String)>)
    ensures
        pair_views(r@) == mount_entries_of(spec_lines(mountinfo@)),
{
    let c = chars_of(mountinfo);
    let lines = line_ranges(&c);
    let ghost all = spec_lines(mountinfo@);
    let mut r: Vec<(String, String)> = Vec::new();
    for i in 0..lines.len()
        invariant
            c@ == mountinfo@,
            all == spec_lines(c@),
            ranges_texts(c@, lines@) == all,
            ranges_within(c@, lines@),
            pair_views(r@) == mount_entries_of(all.take(i as int)),
    {
        let (lo, hi) = lines[i];
        proof {
            assert(all[i as int] == c@.subrange(lo as int, hi as int));
            assert(all.take(i + 1).drop_last() =~= all.take(i as int));
        }
        let w = word_ranges(&c, lo, hi);
        let ghost before = r@;
        if w.len() >= 6 {
            let (a4, b4) = w[4];
            let (a5, b5) = w[5];
            r.push((mountinfo.substring_char(a4, b4).to_string(), mountinfo.substring_char(a5, b5).to_string()));
            proof {
                assert(pair_views(r@) =~= pair_views(before).push((c@.subrange(a4 as int, b4 as int), c@.subrange(a5 as int, b5 as int))));
            }
        }
        proof {
            assert(pair_views(r@) =~= mount_entries_of(all.take(i + 1)));
        }
    }
    proof {
        assert(all.take(lines@.len() as int) =~= all);
    }
    r
}

/// The options recorded for a mount point: those of its last entry (later
/// lines replace earlier ones), empty when it has none.
pub open spec fn options_for(entries: Seq<(Seq<char>, Seq<char>)>, mount_point: Seq<char>) -> Seq<char>
    decreases entries.len(),
{
    if entries.len() == 0 {
        Seq::empty()
    } else if entries.last().0 == mount_point {
        entries.last().1
    } else {
        options_for(entries.drop_last(), mount_point)
    }
}

/// The mount options of a mount point (see `options_for`).
pub fn mount_options_for(entries: &Vec<(String, String)>, mount_point: &str) -> (r: String)
    ensures
        r@ == options_for(pair_views(entries@), mount_point@),
{
    let mut i = entries.len();
    let ghost pv = pair_views(entries@);
    assert(pv.take(i as int) =~= pv);
    while i > 0
        invariant
            i <= entries@.len(),
            pv == pair_views(entries@),
            options_for(pv, mount_point@) == options_for(pv.take(i as int), mount_point@),
        decreases i,
    {
        proof {
            assert(pv.take(i as int).drop_last() =~= pv.take(i - 1));
            assert(pv.take(i as int).last() == pv[i - 1]);
        }
        if str_eq(entries[i - 1].0.as_str(), mount_point) {
            return entries[i - 1].1.clone();
        }
        i -= 1;
    }
    String::new()
}

/// Whether a character is a hexadecimal digit.
pub open spec fn is_hex_digit(c: char) -> bool {
    ('0' <= c <= '9') || ('a' <= c <= 'f') || ('A' <= c <= 'F')
}

/// The value of a hexadecimal digit.
pub open spec fn hex_digit_val(c: char) -> int {
    if '0' <= c <= '9' {
        (c as int) - 48
    } else if 'a' <= c <= 'f' {
        (c as int) - 87
    } else {
        (c as int) - 55
    }
}

/// The value of a string of hexadecimal digits.
pub open spec fn hex_value(s: Seq<char>) -> int
    decreases s.len(),
{
    if s.len() == 0 {
        0
    } else {
        hex_value(s.drop_last()) * 16 + hex_digit_val(s.last())
    }
}

/// Whether every character is a hexadecimal digit.
pub open spec fn all_hex(s: Seq<char>) -> bool {
    forall|i: int| 0 <= i < s.len() ==> is_hex_digit(#[trigger] s[i])
}

/// `u16::from_str_radix(s, 16)`: an optional `+`, then one or more
/// hexadecimal digits whose value fits in 16 bits.
pub open spec fn spec_parse_hex_u16(s: Seq<char>) -> Option<u16> {
    let d = if s.len() > 0 && s[0] == '+' { s.skip(1) } else { s };
    if d.len() > 0 && all_hex(d) && hex_value(d) <= 0xffff {
        Some(hex_value(d) as u16)
    } else {
        None
    }
}

/// The lowercase hexadecimal text of a number (`{:x}`).
pub open spec fn hex_text(n: nat) -> Seq<char>
    decreases n,
{
    if n < 16 {
        seq![hex_digit_char(n as int)]
    } else {
        hex_text(n / 16).push(hex_digit_char((n % 16) as int))
    }
}

/// The lowercase hexadecimal digit of a value below 16.
pub open spec fn hex_digit_char(d: int) -> char {
    if d < 10 {
        (d + 48) as char
    } else {
        (d + 87) as char
    }
}

fn push_hex(out: &mut String, n: u16)
    ensures
        final(out)@ == old(out)@ + hex_text(n as nat),
    decreases n,
{
    if n >= 16 {
        push_hex(out, n / 16);
    }
    let d = (n % 16) as u8;
    let ch = if d < 10 { (d + 48) as char } else { (d + 87) as char };
    push_char(out, ch);
}

proof fn lemma_hex_value_bound(s: Seq<char>)
    requires
        all_hex(s),
    ensures
        0 <= hex_value(s),
        s.len() <= 4 ==> hex_value(s) <= 0xffff,
        s.len() <= 4 ==> hex_value(s) < pow16(s.len()),
    decreases s.len(),
{
    if s.len() > 0 {
        assert(all_hex(s.drop_last())) by {
            assert forall|i: int| 0 <= i < s.drop_last().len() implies is_hex_digit(#[trigger] s.drop_last()[i]) by {
                assert(s.drop_last()[i] == s[i]);
            }
        }
        lemma_hex_value_bound(s.drop_last());
        assert(is_hex_digit(s[s.len() - 1]));
        reveal_with_fuel(pow16, 5);
    }
}

/// Sixteen to the power `n`.
pub open spec fn pow16(n: nat) -> int
    decreases n,
{
    if n == 0 {
        1
    } else {
        16 * pow16((n - 1) as nat)
    }
}

/// Parse `[lo, hi)` of `c`, at most four characters, as a hexadecimal
/// `u16` (see `spec_parse_hex_u16`).
fn parse_hex_u16_range(c: &Vec<char>, lo: usize, hi: usize) -> (r: Option<u16>)
    requires
        lo <= hi <= c@.len(),
        hi - lo <= 4,
    ensures
        r == spec_parse_hex_u16(c@.subrange(lo as int, hi as int)),
{
    let ghost s = c@.subrange(lo as int, hi as int);
    let start = if lo < hi && c[lo] == '+' { lo + 1 } else { lo };
    let ghost d = c@.subrange(start as int, hi as int);
    proof {
        if lo < hi && c@[lo as int] == '+' {
            assert(s.skip(1) =~= d);
        } else {
            assert(s =~= d);
        }
    }
    if start == hi {
        return None;
    }
    let mut v: u32 = 0;
    let mut k = start;
    assert(d.take(0) =~= Seq::<char>::empty());
    while k < hi
        invariant
            lo <= start <= k <= hi <= c@.len(),
            start < hi,
            hi - start <= 4,
            d == c@.subrange(start as int, hi as int),
            spec_parse_hex_u16(c@.subrange(lo as int, hi as int)) == (if all_hex(d) && hex_value(d) <= 0xffff {
                Some(hex_value(d) as u16)
            } else {
                None
            }),
            all_hex(d.take(k - start)),
            v == hex_value(d.take(k - start)),
            v < pow16((k - start) as nat),
        decreases hi - k,
    {
        let x = c[k];
        let dv: u32 = if '0' <= x && x <= '9' {
            x as u32 - 48
        } else if 'a' <= x && x <= 'f' {
            x as u32 - 87
        } else if 'A' <= x && x <= 'F' {
            x as u32 - 55
        } else {
            proof {
                assert(d[k - start] == x);
            }
            return None;
        };
        proof {
            assert(d.take(k - start + 1).drop_last() =~= d.take(k - start));
            assert(d.take(k - start + 1).last() == x);
            assert forall|i: int| 0 <= i < d.take(k - start + 1).len() implies is_hex_digit(#[trigger] d.take(
                k - start + 1,
            )[i]) by {
                if i < k - start {
                    assert(d.take(k - start + 1)[i] == d.take(k - start)[i]);
                }
            }
            reveal_with_fuel(pow16, 5);
            assert(pow16((k - start) as nat) <= 4096) by {
                reveal_with_fuel(pow16, 5);
            }
        }
        v = v * 16 + dv;
        k += 1;
    }
    proof {
        assert(d.take(hi - start) =~= d);
        lemma_hex_value_bound(d);
    }
    Some(v as u16)
}

/// The text of one four-digit group of an `if_inet6` address: its value
/// without leading zeros (`0` for zero), in lowercase hexadecimal; a group
/// that does not parse counts as zero.
pub open spec fn group_text(g: Seq<char>) -> Seq<char> {
    let t = strip_leading_char(g, '0');
    let t2 = if t.len() == 0 { "0"@ } else { t };
    hex_text(
        match spec_parse_hex_u16(t2) {
            Some(v) => v as nat,
            None => 0,
        },
    )
}

/// The first `k` groups of a 32-digit address, joined with `:`.
pub open spec fn groups_text(addr: Seq<char>, k: int) -> Seq<char>
    decreases k,
{
    if k <= 0 {
        Seq::empty()
    } else {
        groups_text(addr, k - 1) + (if k > 1 { ":"@ } else { Seq::empty() }) + group_text(
            addr.subrange(4 * (k - 1), 4 * k),
        )
    }
}

/// Whether every character is ASCII.
pub open spec fn all_ascii(s: Seq<char>) -> bool {
    forall|i: int| 0 <= i < s.len() ==> (#[trigger] s[i] as u32) < 128
}

/// The interface and IPv6 address of a `/proc/net/if_inet6` line: when it
/// has at least five words and its first is a 32-digit ASCII address, the
/// fifth word and the address as eight `:`-separated groups.
pub open spec fn inet6_entry(line: Seq<char>) -> Option<(Seq<char>, Seq<char>)> {
    let w = words(line);
    if w.len() >= 5 && w[0].len() == 32 && all_ascii(w[0]) {
        Some((w[4], groups_text(w[0], 8)))
    } else {
        None
    }
}

/// The (interface, address) entries of a list of lines, in order.
pub open spec fn inet6_entries_of(lines: Seq<Seq<char>>) -> Seq<(Seq<char>, Seq<char>)>
    decreases lines.len(),
{
    if lines.len() == 0 {
        Seq::empty()
    } else {
        inet6_entries_of(lines.drop_last()) + match inet6_entry(lines.last()) {
            Some(e) => seq![e],
            None => Seq::empty(),
        }
    }
}

/// Every leading `x` removed.
pub open spec fn strip_leading_char(s: Seq<char>, x: char) -> Seq<char>
    decreases s.len(),
{
    if s.len() > 0 && s[0] == x {
        strip_leading_char(s.skip(1), x)
    } else {
        s
    }
}

fn push_group(out: &mut String, c: &Vec<char>, x: usize)
    requires
        x + 4 <= c@.len(),
    ensures
        final(out)@ == old(out)@ + group_text(c@.subrange(x as int, x + 4)),
{
    let ghost g = c@.subrange(x as int, x + 4);
    let n = c.len();
    let e = x + 4;
    let mut a = x;
    assert(g.skip(0) =~= g);
    while a < e && c[a] == '0'
        invariant
            e == x + 4,
            x <= a <= x + 4 <= c@.len(),
            g == c@.subrange(x as int, x + 4),
            strip_leading_char(g, '0') == strip_leading_char(c@.subrange(a as int, x + 4), '0'),
        decreases x + 4 - a,
    {
        assert(c@.subrange(a as int, x + 4).skip(1) =~= c@.subrange(a + 1, x + 4));
        a += 1;
    }
    let v: u16 = if a == e {
        proof {
            reveal_strlit("0");
            assert("0"@.len() == 1 && "0"@[0] == '0');
            assert("0"@.last() == '0');
            assert("0"@.skip(0) =~= "0"@);
            assert(all_hex("0"@));
            assert("0"@.drop_last() =~= Seq::<char>::empty());
            reveal_with_fuel(hex_value, 2);
            assert(hex_value("0"@) == 0);
        }
        0
    } else {
        match parse_hex_u16_range(c, a, e) {
            Some(v) => v,
            None => 0,
        }
    };
    push_hex(out, v);
}

/// The (interface, IPv6 address) entries of an `if_inet6` text, in line
/// order (see `inet6_entry`).
pub fn inet6_entries(content: &str) -> (r: Vec<(String, String)>)
    ensures
        pair_views(r@) == inet6_entries_of(spec_lines(content@)),
{
    let c = chars_of(content);
    let lines = line_ranges(&c);
    let ghost all = spec_lines(content@);
    let mut r: Vec<(String, String)> = Vec::new();
    for i in 0..lines.len()
        invariant
            c@ == content@,
            all == spec_lines(c@),
            ranges_texts(c@, lines@) == all,
            ranges_within(c@, lines@),
            pair_views(r@) == inet6_entries_of(all.take(i as int)),
    {
        let (lo, hi) = lines[i];
        proof {
            assert(all[i as int] == c@.subrange(lo as int, hi as int));
            assert(all.take(i + 1).drop_last() =~= all.take(i as int));
        }
        let w = word_ranges(&c, lo, hi);
        let ghost before = r@;
        if w.len() >= 5 {
            let (a0, b0) = w[0];
            let ghost addr = c@.subrange(a0 as int, b0 as int);
            let mut ascii = b0 - a0 == 32;
            let mut k = a0;
            while ascii && k < b0
                invariant
                    a0 <= k <= b0 <= c@.len(),
                    addr == c@.subrange(a0 as int, b0 as int),
                    ascii ==> b0 - a0 == 32,
                    ascii ==> forall|j: int| a0 <= j < k ==> (c@[j] as u32) < 128,
                    !ascii ==> !(addr.len() == 32 && all_ascii(addr)),
                decreases b0 - k,
            {
                if (c[k] as u32) >= 128 {
                    ascii = false;
                    proof {
                        assert(addr[k - a0] == c@[k as int]);
                    }
                }
                k += 1;
            }
            if ascii {
                proof {
                    assert forall|j: int| 0 <= j < addr.len() implies (#[trigger] addr[j] as u32) < 128 by {
                        assert(addr[j] == c@[a0 + j]);
                    }
                }
                let mut ip = String::new();
                let mut g: usize = 0;
                while g < 8
                    invariant
                        g <= 8,
                        b0 - a0 == 32,
                        a0 + 32 <= c@.len(),
                        addr == c@.subrange(a0 as int, b0 as int),
                        ip@ == groups_text(addr, g as int),
                    decreases 8 - g,
                {
                    if g > 0 {
                        push_char(&mut ip, ':');
                    }
                    push_group(&mut ip, &c, a0 + 4 * g);
                    proof {
                        assert(addr.subrange(4 * g, 4 * (g + 1)) =~= c@.subrange(a0 + 4 * g, a0 + 4 * g + 4));
                        reveal_strlit(":");
                        assert(groups_text(addr, g + 1) == groups_text(addr, g as int) + (if g + 1 > 1 { ":"@ } else {
                            Seq::empty()
                        }) + group_text(addr.subrange(4 * g, 4 * (g + 1))));
                        if g > 0 {
                            assert(":"@ =~= seq![':']);
                        }
                    }
                    g += 1;
                }
                let (a4, b4) = w[4];
                r.push((content.substring_char(a4, b4).to_string(), ip));
                proof {
                    assert(pair_views(r@) =~= pair_views(before).push((c@.subrange(a4 as int, b4 as int), groups_text(addr, 8))));
                }
            }
        }
        proof {
            assert(pair_views(r@) =~= inet6_entries_of(all.take(i + 1)));
        }
    }
    proof {
        assert(all.take(lines@.len() as int) =~= all);
    }
    r
}

/// The addresses recorded for an interface, in order.
pub open spec fn addresses_of(entries: Seq<(Seq<char>, Seq<char>)>, iface: Seq<char>) -> Seq<Seq<char>>
    decreases entries.len(),
{
    if entries.len() == 0 {
        Seq::empty()
    } else {
        addresses_of(entries.drop_last(), iface) + if entries.last().0 == iface {
            seq![entries.last().1]
        } else {
            Seq::empty()
        }
    }
}

/// The IPv6 addresses of an interface (see `addresses_of`).
pub fn interface_addresses(entries: &Vec<(String, String)>, iface: &str) -> (r: Vec<String>)
    ensures
        r@.map_values(|s: String| s@) == addresses_of(pair_views(entries@), iface@),
{
    let ghost pv = pair_views(entries@);
    let mut r: Vec<String> = Vec::new();
    for i in 0..entries.len()
        invariant
            pv == pair_views(entries@),
            r@.map_values(|s: String| s@) == addresses_of(pv.take(i as int), iface@),
    {
        proof {
            assert(pv.take(i + 1).drop_last() =~= pv.take(i as int));
            assert(pv.take(i + 1).last() == pv[i as int]);
        }
        let ghost before = r@;
        if str_eq(entries[i].0.as_str(), iface) {
            r.push(entries[i].1.clone());
        }
        proof {
            assert(r@.map_values(|s: String| s@) =~= addresses_of(pv.take(i + 1), iface@));
        }
    }
    proof {
        assert(pv.take(entries@.len() as int) =~= pv);
    }
    r
}

/// `str::split` on a character: the pieces between separators, empty ones
/// included.
pub open spec fn split_pieces(s: Seq<char>, sep: char) -> Seq<Seq<char>>
    decreases s.len(),
{
    let k = find_char_from(s, sep, 0);
    if k >= s.len() {
        seq![s]
    } else {
        proof {
            lemma_find_char_from_bounds(s, sep, 0);
        }
        seq![s.take(k)] + split_pieces(s.skip(k + 1), sep)
    }
}

/// The ranges of the pieces of `[lo, hi)` of `c` split at `sep`.
fn piece_ranges(c: &Vec<char>, lo: usize, hi: usize, sep: char) -> (rs: Vec<(usize, usize)>)
    requires
        lo <= hi <= c@.len(),
    ensures
        ranges_within(c@, rs@),
        ranges_texts(c@, rs@) == split_pieces(c@.subrange(lo as int, hi as int), sep),
{
    let mut rs: Vec<(usize, usize)> = Vec::new();
    let mut i = lo;
    loop
        invariant
            lo <= i <= hi <= c@.len(),
            ranges_within(c@, rs@),
            split_pieces(c@.subrange(lo as int, hi as int), sep) == ranges_texts(c@, rs@) + split_pieces(
                c@.subrange(i as int, hi as int),
                sep,
            ),
        decreases hi - i,
    {
        let ghost t = c@.subrange(i as int, hi as int);
        let mut j = i;
        while j < hi && c[j] != sep
            invariant
                i <= j <= hi <= c@.len(),
                t == c@.subrange(i as int, hi as int),
                find_char_from(t, sep, 0) == find_char_from(t, sep, j - i),
            decreases hi - j,
        {
            j += 1;
        }
        let ghost before = rs@;
        rs.push((i, j));
        if j == hi {
            proof {
                assert(find_char_from(t, sep, j - i) == t.len());
                assert(ranges_texts(c@, rs@) =~= ranges_texts(c@, before).push(t));
                assert(c@.subrange(i as int, j as int) =~= t);
            }
            return rs;
        }
        proof {
            assert(find_char_from(t, sep, j - i) == j - i);
            assert(t.take(j - i) =~= c@.subrange(i as int, j as int));
            assert(t.skip(j - i + 1) =~= c@.subrange(j + 1, hi as int));
            assert(ranges_texts(c@, rs@) =~= ranges_texts(c@, before).push(c@.subrange(i as int, j as int)));
            assert(ranges_texts(c@, before) + (seq![c@.subrange(i as int, j as int)] + split_pieces(
                c@.subrange(j + 1, hi as int),
                sep,
            )) =~= ranges_texts(c@, rs@) + split_pieces(c@.subrange(j + 1, hi as int), sep));
        }
        i = j + 1;
    }
}

/// A memory figure of `nvidia-smi` in MiB, as bytes: the number (0 when it
/// does not parse) times 1024 * 1024, wrapping at 64 bits as a release
/// build does.
pub open spec fn mib_bytes(t: Seq<char>) -> u64 {
    vstd::wrapping::u64_specs::wrapping_mul(
        match spec_parse_u64(t) {
            Some(v) => v,
            None => 0,
        },
        1048576,
    )
}

/// One GPU row of `nvidia-smi --format=csv,noheader,nounits`: name, usage
/// and temperature as their texts (the caller reads the numbers), memory
/// totals in bytes.
pub struct GpuCsvRow {
    pub name: String,
    pub usage: String,
    pub memory_total: u64,
    pub memory_used: u64,
    pub temperature: String,
}

/// The fields of a CSV line (pieces between commas, trimmed) when it has at
/// least five: name, usage, total and used memory in bytes, temperature.
pub open spec fn gpu_row(line: Seq<char>) -> Option<(Seq<char>, Seq<char>, u64, u64, Seq<char>)> {
    let p = split_pieces(line, ',');
    if p.len() >= 5 {
        Some((trim(p[0]), trim(p[1]), mib_bytes(trim(p[2])), mib_bytes(trim(p[3])), trim(p[4])))
    } else {
        None
    }
}

/// The GPU rows of the lines of a text, in order.
pub open spec fn gpu_rows_of(lines: Seq<Seq<char>>) -> Seq<(Seq<char>, Seq<char>, u64, u64, Seq<char>)>
    decreases lines.len(),
{
    if lines.len() == 0 {
        Seq::empty()
    } else {
        gpu_rows_of(lines.drop_last()) + match gpu_row(lines.last()) {
            Some(g) => seq![g],
            None => Seq::empty(),
        }
    }
}

/// The value of a GPU row.
pub open spec fn gpu_row_view(g: GpuCsvRow) -> (Seq<char>, Seq<char>, u64, u64, Seq<char>) {
    (g.name@, g.usage@, g.memory_total, g.memory_used, g.temperature@)
}

fn trimmed_text(text: &str, c: &Vec<char>, lo: usize, hi: usize) -> (r: String)
    requires
        c@ == text@,
        lo <= hi <= c@.len(),
    ensures
        r@ == trim(c@.subrange(lo as int, hi as int)),
{
    let (a, b) = trim_range(c, lo, hi);
    text.substring_char(a, b).to_string()
}

/// The GPU rows of the output of `nvidia-smi` (see `gpu_row`).
pub fn gpu_csv_rows(output: &str) -> (r: Vec<GpuCsvRow>)
    ensures
        r@.map_values(|g: GpuCsvRow| gpu_row_view(g)) == gpu_rows_of(spec_lines(output@)),
{
    let c = chars_of(output);
    let lines = line_ranges(&c);
    let ghost all = spec_lines(output@);
    let mut r: Vec<GpuCsvRow> = Vec::new();
    for i in 0..lines.len()
        invariant
            c@ == output@,
            all == spec_lines(c@),
            ranges_texts(c@, lines@) == all,
            ranges_within(c@, lines@),
            r@.map_values(|g: GpuCsvRow| gpu_row_view(g)) == gpu_rows_of(all.take(i as int)),
    {
        let (lo, hi) = lines[i];
        proof {
            assert(all[i as int] == c@.subrange(lo as int, hi as int));
            assert(all.take(i + 1).drop_last() =~= all.take(i as int));
        }
        let p = piece_ranges(&c, lo, hi, ',');
        let ghost before = r@;
        if p.len() >= 5 {
            let (a0, b0) = p[0];
            let (a1, b1) = p[1];
            let (a2, b2) = p[2];
            let (a3, b3) = p[3];
            let (a4, b4) = p[4];
            let (x2, y2) = trim_range(&c, a2, b2);
            let (x3, y3) = trim_range(&c, a3, b3);
            let total = match parse_u64_range(&c, x2, y2) {
                Some(v) => v,
                None => 0,
            };
            let used = match parse_u64_range(&c, x3, y3) {
                Some(v) => v,
                None => 0,
            };
            let row = GpuCsvRow {
                name: trimmed_text(output, &c, a0, b0),
                usage: trimmed_text(output, &c, a1, b1),
                memory_total: total.wrapping_mul(1048576),
                memory_used: used.wrapping_mul(1048576),
                temperature: trimmed_text(output, &c, a4, b4),
            };
            r.push(row);
            proof {
                assert(r@.map_values(|g: GpuCsvRow| gpu_row_view(g)) =~= before.map_values(|g: GpuCsvRow| gpu_row_view(g)).push(
                    gpu_row(all[i as int])->0,
                ));
            }
        }
        proof {
            assert(r@.map_values(|g: GpuCsvRow| gpu_row_view(g)) =~= gpu_rows_of(all.take(i + 1)));
        }
    }
    proof {
        assert(all.take(lines@.len() as int) =~= all);
    }
    r
}

/// Whether a `/sys/class/drm` entry is a GPU card (`cardN`, not a
/// connector such as `card0-HDMI-A-1`).
pub fn is_drm_card(entry: &str) -> (r: bool)
    ensures
        r == (crate::text::starts_with(entry@, "card"@) && !crate::text::contains_seq(entry@, "-"@)),
{
    crate::text::starts_with_str(entry, "card") && !crate::text::contains_str(entry, "-")
}

/// Whether a `/sys/class/power_supply` entry is a battery (`BAT...`).
pub fn is_battery_entry(entry: &str) -> (r: bool)
    ensures
        r == crate::text::starts_with(entry@, "BAT"@),
{
    crate::text::starts_with_str(entry, "BAT")
}

} // verus!
