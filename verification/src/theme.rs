//! Color themes: a name and a 16-entry RGB palette, read from hex strings.

use vstd::prelude::*;

verus! {

/// The value of an ASCII hexadecimal digit byte.
pub open spec fn hex_digit_value(b: u8) -> Option<u8> {
    if 0x30 <= b <= 0x39 {
        Some((b - 0x30) as u8)
    } else if 0x61 <= b <= 0x66 {
        Some((b - 0x61 + 10) as u8)
    } else if 0x41 <= b <= 0x46 {
        Some((b - 0x41 + 10) as u8)
    } else {
        None
    }
}

/// `u8::from_str_radix(_, 16)` on a two-byte string: two hex digits, or a
/// `+` sign followed by one hex digit; anything else is refused.
pub open spec fn parse_hex_pair(x: u8, y: u8) -> Option<u8> {
    if x == 0x2b {
        hex_digit_value(y)
    } else {
        match (hex_digit_value(x), hex_digit_value(y)) {
            (Some(h), Some(l)) => Some((h * 16 + l) as u8),
            _ => None,
        }
    }
}

/// The bytes left after removing every leading `#`.
pub open spec fn trim_leading_hashes(b: Seq<u8>) -> Seq<u8>
    decreases b.len(),
{
    if b.len() > 0 && b[0] == 0x23 {
        trim_leading_hashes(b.drop_first())
    } else {
        b
    }
}

/// Channel `k` of a color: bytes `2k` and `2k + 1` read as hex, 0 when they
/// are missing or unreadable.
pub open spec fn hex_channel(t: Seq<u8>, k: int) -> u8 {
    if 2 * k + 2 <= t.len() {
        match parse_hex_pair(t[2 * k], t[2 * k + 1]) {
            Some(v) => v,
            None => 0,
        }
    } else {
        0
    }
}

/// The RGB triple that a hex color string denotes: after any leading `#`,
/// three byte pairs of the UTF-8 text, each 0 when it cannot be read.
pub open spec fn spec_hex_to_rgb(s: Seq<char>) -> Seq<u8> {
    let t = trim_leading_hashes(vstd::utf8::encode_utf8(s));
    seq![hex_channel(t, 0), hex_channel(t, 1), hex_channel(t, 2)]
}

fn hex_digit(b: u8) -> (r: Option<u8>)
    ensures
        r == hex_digit_value(b),
{
    if 0x30 <= b && b <= 0x39 {
        Some(b - 0x30)
    } else if 0x61 <= b && b <= 0x66 {
        Some(b - 0x61 + 10)
    } else if 0x41 <= b && b <= 0x46 {
        Some(b - 0x41 + 10)
    } else {
        None
    }
}

fn hex_pair(x: u8, y: u8) -> (r: Option<u8>)
    ensures
        r == parse_hex_pair(x, y),
{
    if x == 0x2b {
        hex_digit(y)
    } else {
        match (hex_digit(x), hex_digit(y)) {
            (Some(h), Some(l)) => Some(h * 16 + l),
            _ => None,
        }
    }
}

proof fn lemma_trim_skip(b: Seq<u8>, i: int)
    requires
        0 <= i <= b.len(),
        forall|k: int| 0 <= k < i ==> b[k] == 0x23,
    ensures
        trim_leading_hashes(b) == trim_leading_hashes(b.skip(i)),
    decreases i,
{
    if i > 0 {
        assert(b.skip(1) =~= b.drop_first());
        lemma_trim_skip(b.drop_first(), i - 1);
        assert(b.drop_first().skip(i - 1) =~= b.skip(i));
    } else {
        assert(b.skip(0) =~= b);
    }
}

fn channel(b: &[u8], start: usize, k: usize) -> (r: u8)
    requires
        start <= b@.len(),
        k < 3,
    ensures
        r == hex_channel(b@.skip(start as int), k as int),
{
    let n = b.len();
    if n - start < 2 * k + 2 {
        0
    } else {
        let first = start + 2 * k;
        match hex_pair(b[first], b[first + 1]) {
            Some(v) => v,
            None => 0,
        }
    }
}

fn hex_to_rgb(hex: &str) -> (rgb: [u8; 3])
    ensures
        rgb@ == spec_hex_to_rgb(hex@),
{
    let b = hex.as_bytes();
    let n = b.len();
    let mut start: usize = 0;
    while start < n && b[start] == 0x23
        invariant
            start <= n == b@.len(),
            forall|k: int| 0 <= k < start ==> b@[k] == 0x23,
        decreases n - start,
    {
        start += 1;
    }
    proof {
        lemma_trim_skip(b@, start as int);
        assert(trim_leading_hashes(b@.skip(start as int)) == b@.skip(start as int));
    }
    let rgb = [channel(b, start, 0), channel(b, start, 1), channel(b, start, 2)];
    assert(rgb@ =~= spec_hex_to_rgb(hex@));
    rgb
}

/// Parse a `#rrggbb` color into its red, green and blue bytes; a channel that
/// is missing or not valid hex reads as 0.
pub fn hex_to_rgb_pub(hex: &str) -> (rgb: [u8; 3])
    ensures
        rgb@ == spec_hex_to_rgb(hex@),
{
    hex_to_rgb(hex)
}

/// The lowercase hex digit character for a value below 16.
pub open spec fn hex_digit_char(d: int) -> char {
    if d < 10 {
        (48 + d) as char
    } else {
        (87 + d) as char
    }
}

/// `#rrggbb`: the lowercase hex text of an RGB triple, as themes write it.
pub open spec fn hex_color_text(r: u8, g: u8, b: u8) -> Seq<char> {
    seq![
        '#',
        hex_digit_char((r / 16) as int),
        hex_digit_char((r % 16) as int),
        hex_digit_char((g / 16) as int),
        hex_digit_char((g % 16) as int),
        hex_digit_char((b / 16) as int),
        hex_digit_char((b % 16) as int),
    ]
}

proof fn lemma_hex_digit_char_byte(d: int)
    requires
        0 <= d < 16,
    ensures
        '\0' <= hex_digit_char(d) <= '\u{7f}',
        hex_digit_value(hex_digit_char(d) as u8) == Some(d as u8),
        hex_digit_char(d) as u8 != 0x23,
        hex_digit_char(d) as u8 != 0x2b,
{
}

/// The text after every leading `#`.
pub open spec fn strip_hashes(s: Seq<char>) -> Seq<char>
    decreases s.len(),
{
    if s.len() > 0 && s[0] == '#' {
        strip_hashes(s.drop_first())
    } else {
        s
    }
}

/// Channel `k` read from characters `2k` and `2k + 1`: their value as hex
/// (`u8::from_str_radix(_, 16)`), 0 when they are missing or not hex.
pub open spec fn char_channel(t: Seq<char>, k: int) -> u8 {
    if 2 * k + 2 <= t.len() {
        match parse_hex_pair(t[2 * k] as u8, t[2 * k + 1] as u8) {
            Some(v) => v,
            None => 0,
        }
    } else {
        0
    }
}

proof fn lemma_strip_both(s: Seq<char>, e: Seq<u8>)
    requires
        vstd::utf8::is_ascii_chars(s),
        e.len() == s.len(),
        forall|i: int| 0 <= i < s.len() ==> #[trigger] e[i] == s[i] as u8,
    ensures
        trim_leading_hashes(e).len() == strip_hashes(s).len(),
        forall|i: int| 0 <= i < strip_hashes(s).len() ==> #[trigger] trim_leading_hashes(e)[i] == strip_hashes(s)[i] as u8,
        vstd::utf8::is_ascii_chars(strip_hashes(s)),
    decreases s.len(),
{
    if s.len() > 0 {
        let c = s[0];
        assert('\0' <= c <= '\u{7f}');
        let u = c as u32;
        assert(u <= 0x7f);
        assert((c as u8) == 0x23 <==> c == '#') by {
            assert(u <= 0x7f ==> ((u as u8) == 0x23u8 <==> u == 0x23u32)) by (bit_vector);
        }
        if c == '#' {
            assert(e[0] == 0x23);
            lemma_strip_both(s.drop_first(), e.drop_first());
        } else {
            assert(e[0] != 0x23);
        }
    }
}

/// For a text of ASCII characters, channel `k` of the color is read from
/// characters `2k` and `2k + 1` after every leading `#`: their hex value
/// (as `u8::from_str_radix` reads two characters), 0 when they are missing
/// or not hex. (For any text the byte-level `spec_hex_to_rgb` says the
/// same of byte ranges, as `str::get` takes them.)
pub proof fn lemma_hex_channels(s: Seq<char>, k: int)
    requires
        vstd::utf8::is_ascii_chars(s),
        0 <= k < 3,
    ensures
        spec_hex_to_rgb(s)[k] == char_channel(strip_hashes(s), k),
{
    vstd::utf8::is_ascii_chars_encode_utf8(s);
    let e = vstd::utf8::encode_utf8(s);
    lemma_strip_both(s, e);
    let t = trim_leading_hashes(e);
    let c = strip_hashes(s);
    if 2 * k + 2 <= c.len() {
        assert(t[2 * k] == c[2 * k] as u8);
        assert(t[2 * k + 1] == c[2 * k + 1] as u8);
    }
}

/// Reading back the `#rrggbb` text of any color gives that color: writing a
/// palette entry and parsing it again loses nothing.
pub proof fn lemma_hex_to_rgb_round_trip(r: u8, g: u8, b: u8)
    ensures
        spec_hex_to_rgb(hex_color_text(r, g, b)) == seq![r, g, b],
{
    let c = hex_color_text(r, g, b);
    lemma_hex_digit_char_byte((r / 16) as int);
    lemma_hex_digit_char_byte((r % 16) as int);
    lemma_hex_digit_char_byte((g / 16) as int);
    lemma_hex_digit_char_byte((g % 16) as int);
    lemma_hex_digit_char_byte((b / 16) as int);
    lemma_hex_digit_char_byte((b % 16) as int);
    assert(vstd::utf8::is_ascii_chars(c));
    vstd::utf8::is_ascii_chars_encode_utf8(c);
    let e = vstd::utf8::encode_utf8(c);
    assert(e[0] == 0x23);
    assert(e[1] != 0x23);
    assert(trim_leading_hashes(e.drop_first()) == e.drop_first());
    let t = e.drop_first();
    assert(t.len() == 6);
    assert(hex_channel(t, 0) == r);
    assert(hex_channel(t, 1) == g);
    assert(hex_channel(t, 2) == b);
}

/// A color theme: a name and 16 RGB colors (entry 0 is the background,
/// entry 7 the foreground).
#[derive(Debug)]
pub struct Theme {
    pub name: String,
    pub palette: [[u8; 3]; 16],
}

/// What a theme is, as a value: its name and palette.
pub struct ThemeView {
    pub name: Seq<char>,
    pub palette: Seq<[u8; 3]>,
}

impl View for Theme {
    type V = ThemeView;

    open spec fn view(&self) -> ThemeView {
        ThemeView { name: self.name@, palette: self.palette@ }
    }
}

impl Clone for Theme {
    fn clone(&self) -> (r: Self)
        ensures
            r@ == self@,
    {
        Theme { name: self.name.clone(), palette: self.palette }
    }
}

impl Theme {
    /// The background color (palette entry 0).
    pub fn bg(&self) -> (r: &[u8; 3])
        ensures
            *r == self.palette@[0],
    {
        &self.palette[0]
    }

    /// The foreground color (palette entry 7).
    pub fn fg(&self) -> (r: &[u8; 3])
        ensures
            *r == self.palette@[7],
    {
        &self.palette[7]
    }
}

/// Why the fields of a theme file do not make a theme.
#[derive(Clone, Copy, Debug, PartialEq, Eq, Structural)]
pub enum ThemeError {
    MissingName,
    MissingPalette,
    /// The palette does not hold exactly 16 colors (it held this many).
    PaletteLength(usize),
}

/// Build a theme from a name and 16 hex color strings.
pub fn make_theme(name: &str, colors: [&str; 16]) -> (t: Theme)
    ensures
        t.name@ == name@,
        forall|i: int| 0 <= i < 16 ==> #[trigger] t.palette@[i]@ == spec_hex_to_rgb(colors@[i]@),
{
    let mut palette = [[0u8; 3]; 16];
    for i in 0..16
        invariant
            forall|j: int| 0 <= j < i ==> #[trigger] palette@[j]@ == spec_hex_to_rgb(colors@[j]@),
    {
        palette[i] = hex_to_rgb(colors[i]);
    }
    Theme { name: name.to_string(), palette }
}

/// Build a theme from the fields read out of a theme file: both fields must be
/// present and the palette must hold exactly 16 hex colors.
pub fn theme_from_fields(name: Option<String>, palette: Option<Vec<String>>) -> (r: Result<Theme, ThemeError>)
    ensures
        name is None ==> r == Err::<Theme, ThemeError>(ThemeError::MissingName),
        name is Some && palette is None ==> r == Err::<Theme, ThemeError>(ThemeError::MissingPalette),
        name is Some && palette is Some && palette->0@.len() != 16 ==> r == Err::<Theme, ThemeError>(
            ThemeError::PaletteLength(palette->0@.len() as usize),
        ),
        r is Ok <==> (name is Some && palette is Some && palette->0@.len() == 16),
        r matches Ok(t) ==> {
            &&& t.name@ == name->0@
            &&& forall|i: int| 0 <= i < 16 ==> #[trigger] t.palette@[i]@ == spec_hex_to_rgb(palette->0@[i]@)
        },
{
    let name = match name {
        Some(n) => n,
        None => return Err(ThemeError::MissingName),
    };
    let hexes = match palette {
        Some(p) => p,
        None => return Err(ThemeError::MissingPalette),
    };
    if hexes.len() != 16 {
        return Err(ThemeError::PaletteLength(hexes.len()));
    }
    let mut palette = [[0u8; 3]; 16];
    for i in 0..16
        invariant
            hexes@.len() == 16,
            forall|j: int| 0 <= j < i ==> #[trigger] palette@[j]@ == spec_hex_to_rgb(hexes@[j]@),
    {
        palette[i] = hex_to_rgb(hexes[i].as_str());
    }
    Ok(Theme { name, palette })
}

/// The hex colors of the built-in `x` theme.
pub open spec fn default_theme_hex() -> Seq<Seq<char>> {
    seq![
        "#050505"@, "#fc618d"@, "#7bd88f"@, "#fce566"@, "#fd9353"@, "#948ae3"@, "#5ad4e6"@,
        "#f7f1ff"@, "#0f0f0f"@, "#fc618d"@, "#7bd88f"@, "#fce566"@, "#fd9353"@, "#948ae3"@,
        "#5ad4e6"@, "#f7f1ff"@,
    ]
}

/// Whether `t` is the built-in `x` theme.
pub open spec fn is_default_theme(t: Theme) -> bool {
    &&& t.name@ == "x"@
    &&& forall|i: int| 0 <= i < 16 ==> #[trigger] t.palette@[i]@ == spec_hex_to_rgb(default_theme_hex()[i])
}

/// The built-in `x` theme (black background, neon accents), always available.
pub fn default_theme() -> (t: Theme)
    ensures
        is_default_theme(t),
{
    make_theme(
        "x",
        [
            "#050505", "#fc618d", "#7bd88f", "#fce566", "#fd9353", "#948ae3", "#5ad4e6",
            "#f7f1ff", "#0f0f0f", "#fc618d", "#7bd88f", "#fce566", "#fd9353", "#948ae3",
            "#5ad4e6", "#f7f1ff",
        ],
    )
}

/// The themes compiled into the binary: the `x` theme alone.
pub fn builtin_themes() -> (v: Vec<Theme>)
    ensures
        v@.len() == 1,
        is_default_theme(v@[0]),
{
    let mut v = Vec::new();
    v.push(default_theme());
    v
}

/// Whether some theme of `themes` is called `name`.
pub open spec fn has_theme_named(themes: Seq<ThemeView>, name: Seq<char>) -> bool {
    exists|i: int| 0 <= i < themes.len() && #[trigger] themes[i].name == name
}

/// `known` followed by the themes of `custom` whose name is not taken yet,
/// scanning `custom` in order (the first theme of a name wins).
pub open spec fn merge_themes(known: Seq<ThemeView>, custom: Seq<ThemeView>) -> Seq<ThemeView>
    decreases custom.len(),
{
    if custom.len() == 0 {
        known
    } else if has_theme_named(known, custom[0].name) {
        merge_themes(known, custom.drop_first())
    } else {
        merge_themes(known.push(custom[0]), custom.drop_first())
    }
}

/// The views of a list of themes.
pub open spec fn theme_views(v: Seq<Theme>) -> Seq<ThemeView> {
    v.map_values(|t: Theme| t@)
}

fn has_name(themes: &Vec<Theme>, name: &String) -> (r: bool)
    ensures
        r == has_theme_named(theme_views(themes@), name@),
{
    for i in 0..themes.len()
        invariant
            forall|j: int| 0 <= j < i ==> #[trigger] themes@[j].name@ != name@,
    {
        if themes[i].name == *name {
            assert(theme_views(themes@)[i as int].name == name@);
            return true;
        }
    }
    false
}

proof fn lemma_merge_step(known: Seq<ThemeView>, custom: Seq<ThemeView>, i: int)
    requires
        0 <= i < custom.len(),
    ensures
        merge_themes(known, custom.skip(i)) == if has_theme_named(known, custom[i].name) {
            merge_themes(known, custom.skip(i + 1))
        } else {
            merge_themes(known.push(custom[i]), custom.skip(i + 1))
        },
{
    assert(custom.skip(i).drop_first() =~= custom.skip(i + 1));
    assert(custom.skip(i)[0] == custom[i]);
}

/// All themes available at startup: the built-in `x` theme first, then the
/// user's themes (read from the themes directory) whose name is not taken yet.
pub fn load_all_themes(custom: Vec<Theme>) -> (v: Vec<Theme>)
    ensures
        v@.len() >= 1,
        is_default_theme(v@[0]),
        theme_views(v@) == merge_themes(seq![v@[0]@], theme_views(custom@)),
{
    let mut themes: Vec<Theme> = Vec::new();
    themes.push(default_theme());
    let ghost first = themes@[0];
    let ghost all = theme_views(custom@);
    proof {
        assert(all.skip(0) =~= all);
        assert(theme_views(themes@) =~= seq![first@]);
    }
    let n = custom.len();
    for i in 0..n
        invariant
            n == custom@.len(),
            all == theme_views(custom@),
            themes@.len() >= 1,
            themes@[0] == first,
            merge_themes(seq![first@], all) == merge_themes(theme_views(themes@), all.skip(i as int)),
    {
        proof {
            lemma_merge_step(theme_views(themes@), all, i as int);
        }
        if !has_name(&themes, &custom[i].name) {
            let ghost before = themes@;
            themes.push(custom[i].clone());
            proof {
                assert(theme_views(themes@) =~= theme_views(before).push(all[i as int]));
            }
        }
    }
    proof {
        assert(all.skip(n as int) =~= Seq::<ThemeView>::empty());
    }
    themes
}

/// No two themes of the list share a name.
pub open spec fn theme_names_unique(s: Seq<ThemeView>) -> bool {
    forall|i: int, j: int| 0 <= i < j < s.len() ==> #[trigger] s[i].name != #[trigger] s[j].name
}

/// Merging user themes keeps the known themes in front, in order, adds a
/// theme for every user name and never lets two themes share a name: the
/// theme list `load_all_themes` builds has one theme per name, starting with
/// the built-in one.
pub proof fn lemma_merge_themes(known: Seq<ThemeView>, custom: Seq<ThemeView>)
    requires
        theme_names_unique(known),
    ensures
        theme_names_unique(merge_themes(known, custom)),
        merge_themes(known, custom).len() >= known.len(),
        merge_themes(known, custom).take(known.len() as int) == known,
        forall|k: int| 0 <= k < custom.len() ==> has_theme_named(merge_themes(known, custom), #[trigger] custom[k].name),
        forall|i: int| 0 <= i < merge_themes(known, custom).len() ==>
            has_theme_named(known, #[trigger] merge_themes(known, custom)[i].name)
            || exists|k: int| 0 <= k < custom.len() && custom[k] == merge_themes(known, custom)[i],
    decreases custom.len(),
{
    let m = merge_themes(known, custom);
    if custom.len() == 0 {
        assert(known.take(known.len() as int) =~= known);
        assert forall|i: int| 0 <= i < m.len() implies has_theme_named(known, #[trigger] m[i].name)
            || exists|k: int| 0 <= k < custom.len() && custom[k] == m[i] by {
            assert(known[i].name == m[i].name);
        }
    } else {
        let rest = custom.drop_first();
        let next = if has_theme_named(known, custom[0].name) { known } else { known.push(custom[0]) };
        if !has_theme_named(known, custom[0].name) {
            assert forall|i: int, j: int| 0 <= i < j < next.len() implies #[trigger] next[i].name != #[trigger] next[j].name by {
                if j == known.len() {
                    if next[i].name == next[j].name {
                        assert(known[i].name == custom[0].name);
                    }
                }
            }
        }
        lemma_merge_themes(next, rest);
        assert(m == merge_themes(next, rest));
        assert(m.take(known.len() as int) =~= m.take(next.len() as int).take(known.len() as int));
        assert(next.take(known.len() as int) =~= known);
        assert forall|k: int| 0 <= k < custom.len() implies has_theme_named(m, #[trigger] custom[k].name) by {
            if k == 0 {
                if has_theme_named(known, custom[0].name) {
                    let w = choose|w: int| 0 <= w < known.len() && #[trigger] known[w].name == custom[0].name;
                    assert(m.take(known.len() as int)[w] == known[w]);
                    assert(m[w].name == custom[0].name);
                } else {
                    assert(m.take(next.len() as int)[known.len() as int] == next[known.len() as int]);
                    assert(m[known.len() as int].name == custom[0].name);
                }
            } else {
                assert(rest[k - 1] == custom[k]);
            }
        }
        assert forall|i: int| 0 <= i < m.len() implies has_theme_named(known, #[trigger] m[i].name)
            || exists|k: int| 0 <= k < custom.len() && custom[k] == m[i] by {
            if has_theme_named(next, m[i].name) {
                let w = choose|w: int| 0 <= w < next.len() && #[trigger] next[w].name == m[i].name;
                if w < known.len() {
                    assert(known[w].name == m[i].name);
                } else {
                    assert(custom[0].name == m[i].name);
                    assert(m.take(next.len() as int)[w] == next[w]);
                    assert(theme_names_unique(m));
                    assert(m[w] == custom[0]);
                    if w != i {
                        assert(m[w].name == m[i].name);
                    }
                }
            } else {
                let k = choose|k: int| 0 <= k < rest.len() && rest[k] == m[i];
                assert(custom[k + 1] == m[i]);
            }
        }
    }
}

} // verus!