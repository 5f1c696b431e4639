//! Configurable keybindings: key strings bound to application actions, and
//! the canonical key string of a key press.

use vstd::prelude::*;
use crate::text::{push_char, str_eq};

verus! {

/// The key strings bound to each action (several keys may share an action).
#[derive(Clone, Debug)]
pub struct Keybindings {
    pub quit: Vec<String>,
    pub help: Vec<String>,
    pub next_theme: Vec<String>,
    pub prev_theme: Vec<String>,
    pub next_layout: Vec<String>,
    pub toggle_fullscreen: Vec<String>,
    pub cycle_fullscreen: Vec<String>,
    pub search: Vec<String>,
    pub command_palette: Vec<String>,
    pub cancel: Vec<String>,
}

/// What a key press asks the application to do.
#[derive(Clone, Copy, Debug, PartialEq, Eq, Structural)]
pub enum Action {
    Quit,
    ToggleHelp,
    NextTheme,
    PreviousTheme,
    NextLayout,
    ToggleFullscreen,
    CycleFullscreen,
    Search,
    OpenCommandPalette,
    Cancel,
    SelectTheme(usize),
    SelectLayout(usize),
}

/// Whether `key` is one of the key strings of `keys`.
pub open spec fn bound_to(keys: Seq<String>, key: Seq<char>) -> bool {
    exists|i: int| 0 <= i < keys.len() && #[trigger] keys[i]@ == key
}

/// A list that holds exactly one key string.
pub open spec fn single_key(keys: Seq<String>, key: Seq<char>) -> bool {
    keys.len() == 1 && keys[0]@ == key
}

/// The action a key string triggers: the first action, in the order quit,
/// help, next theme, previous theme, next layout, toggle fullscreen, cycle
/// fullscreen, search, command palette, cancel, to which the key is bound.
pub open spec fn spec_resolve(kb: Keybindings, key: Seq<char>) -> Option<Action> {
    if bound_to(kb.quit@, key) {
        Some(Action::Quit)
    } else if bound_to(kb.help@, key) {
        Some(Action::ToggleHelp)
    } else if bound_to(kb.next_theme@, key) {
        Some(Action::NextTheme)
    } else if bound_to(kb.prev_theme@, key) {
        Some(Action::PreviousTheme)
    } else if bound_to(kb.next_layout@, key) {
        Some(Action::NextLayout)
    } else if bound_to(kb.toggle_fullscreen@, key) {
        Some(Action::ToggleFullscreen)
    } else if bound_to(kb.cycle_fullscreen@, key) {
        Some(Action::CycleFullscreen)
    } else if bound_to(kb.search@, key) {
        Some(Action::Search)
    } else if bound_to(kb.command_palette@, key) {
        Some(Action::OpenCommandPalette)
    } else if bound_to(kb.cancel@, key) {
        Some(Action::Cancel)
    } else {
        None
    }
}

/// The keybindings of a fresh install: `q` quit, `?` help, `t`/`T` next and
/// previous theme, `l` next layout, `f`/`F` toggle and cycle fullscreen, `/`
/// search, `ctrl+p` command palette, `escape` cancel.
pub open spec fn is_default_keybindings(kb: Keybindings) -> bool {
    &&& single_key(kb.quit@, "q"@)
    &&& single_key(kb.help@, "?"@)
    &&& single_key(kb.next_theme@, "t"@)
    &&& single_key(kb.prev_theme@, "T"@)
    &&& single_key(kb.next_layout@, "l"@)
    &&& single_key(kb.toggle_fullscreen@, "f"@)
    &&& single_key(kb.cycle_fullscreen@, "F"@)
    &&& single_key(kb.search@, "/"@)
    &&& single_key(kb.command_palette@, "ctrl+p"@)
    &&& single_key(kb.cancel@, "escape"@)
}

fn one_key(key: &str) -> (v: Vec<String>)
    ensures
        single_key(v@, key@),
{
    let mut v = Vec::new();
    v.push(key.to_string());
    v
}

/// Default quit keys: `q`.
pub fn vec_one_q() -> (v: Vec<String>)
    ensures
        single_key(v@, "q"@),
{
    one_key("q")
}

/// Default help keys: `?`.
pub fn vec_one_question() -> (v: Vec<String>)
    ensures
        single_key(v@, "?"@),
{
    one_key("?")
}

/// Default next-theme keys: `t`.
pub fn vec_one_t() -> (v: Vec<String>)
    ensures
        single_key(v@, "t"@),
{
    one_key("t")
}

/// Default previous-theme keys: `T`.
pub fn vec_one_shift_t() -> (v: Vec<String>)
    ensures
        single_key(v@, "T"@),
{
    one_key("T")
}

/// Default next-layout keys: `l`.
pub fn vec_one_l() -> (v: Vec<String>)
    ensures
        single_key(v@, "l"@),
{
    one_key("l")
}

/// Default toggle-fullscreen keys: `f`.
pub fn vec_one_f() -> (v: Vec<String>)
    ensures
        single_key(v@, "f"@),
{
    one_key("f")
}

/// Default cycle-fullscreen keys: `F`.
pub fn vec_one_shift_f() -> (v: Vec<String>)
    ensures
        single_key(v@, "F"@),
{
    one_key("F")
}

/// Default search keys: `/`.
pub fn vec_one_slash() -> (v: Vec<String>)
    ensures
        single_key(v@, "/"@),
{
    one_key("/")
}

/// Default command-palette keys: `ctrl+p`.
pub fn vec_one_ctrl_p() -> (v: Vec<String>)
    ensures
        single_key(v@, "ctrl+p"@),
{
    one_key("ctrl+p")
}

/// Default cancel keys: `escape`.
pub fn vec_one_escape() -> (v: Vec<String>)
    ensures
        single_key(v@, "escape"@),
{
    one_key("escape")
}

impl Default for Keybindings {
    fn default() -> (kb: Self)
        ensures
            is_default_keybindings(kb),
    {
        Keybindings {
            quit: vec_one_q(),
            help: vec_one_question(),
            next_theme: vec_one_t(),
            prev_theme: vec_one_shift_t(),
            next_layout: vec_one_l(),
            toggle_fullscreen: vec_one_f(),
            cycle_fullscreen: vec_one_shift_f(),
            search: vec_one_slash(),
            command_palette: vec_one_ctrl_p(),
            cancel: vec_one_escape(),
        }
    }
}

fn contains_key(keys: &Vec<String>, key: &str) -> (r: bool)
    ensures
        r == bound_to(keys@, key@),
{
    for i in 0..keys.len()
        invariant
            forall|j: int| 0 <= j < i ==> #[trigger] keys@[j]@ != key@,
    {
        if str_eq(keys[i].as_str(), key) {
            return true;
        }
    }
    false
}

impl Keybindings {
    /// The action bound to a key string, checking the actions in a fixed
    /// order (quit first, cancel last); `None` when the key is unbound.
    pub fn resolve(&self, key_str: &str) -> (r: Option<Action>)
        ensures
            r == spec_resolve(*self, key_str@),
    {
        if contains_key(&self.quit, key_str) {
            return Some(Action::Quit);
        }
        if contains_key(&self.help, key_str) {
            return Some(Action::ToggleHelp);
        }
        if contains_key(&self.next_theme, key_str) {
            return Some(Action::NextTheme);
        }
        if contains_key(&self.prev_theme, key_str) {
            return Some(Action::PreviousTheme);
        }
        if contains_key(&self.next_layout, key_str) {
            return Some(Action::NextLayout);
        }
        if contains_key(&self.toggle_fullscreen, key_str) {
            return Some(Action::ToggleFullscreen);
        }
        if contains_key(&self.cycle_fullscreen, key_str) {
            return Some(Action::CycleFullscreen);
        }
        if contains_key(&self.search, key_str) {
            return Some(Action::Search);
        }
        if contains_key(&self.command_palette, key_str) {
            return Some(Action::OpenCommandPalette);
        }
        if contains_key(&self.cancel, key_str) {
            return Some(Action::Cancel);
        }
        None
    }
}

/// The key of a key press, as far as key strings distinguish keys.
#[derive(Clone, Copy, Debug, PartialEq, Eq, Structural)]
pub enum KeyCode {
    Char(char),
    Esc,
    Enter,
    Backspace,
    Tab,
    Up,
    Down,
    Left,
    Right,
    Delete,
    Home,
    End,
    PageUp,
    PageDown,
    /// Any other key (function keys, media keys, ...): it has no key string.
    Other,
}

/// A key press: the key and the Control and Alt modifiers held with it.
#[derive(Clone, Copy, Debug, PartialEq, Eq, Structural)]
pub struct KeyInput {
    pub code: KeyCode,
    pub ctrl: bool,
    pub alt: bool,
}

/// `char::to_ascii_lowercase`: ASCII capitals become small letters.
pub open spec fn ascii_lower(c: char) -> char {
    if 'A' <= c <= 'Z' {
        ((c as u32) + 32) as char
    } else {
        c
    }
}

/// The name of a named key in key strings.
pub open spec fn named_key(code: KeyCode) -> Seq<char> {
    match code {
        KeyCode::Esc => "escape"@,
        KeyCode::Enter => "enter"@,
        KeyCode::Backspace => "backspace"@,
        KeyCode::Tab => "tab"@,
        KeyCode::Up => "up"@,
        KeyCode::Down => "down"@,
        KeyCode::Left => "left"@,
        KeyCode::Right => "right"@,
        KeyCode::Delete => "delete"@,
        KeyCode::Home => "home"@,
        KeyCode::End => "end"@,
        KeyCode::PageUp => "pageup"@,
        KeyCode::PageDown => "pagedown"@,
        _ => Seq::empty(),
    }
}

/// The modifier prefix of a key string: `ctrl+` then `alt+`, as held.
pub open spec fn modifier_prefix(k: KeyInput) -> Seq<char> {
    (if k.ctrl { "ctrl+"@ } else { Seq::empty() }) + (if k.alt { "alt+"@ } else { Seq::empty() })
}

/// The key string of a key press, as keybindings name it: the modifier
/// prefix and then the character (lowercased under Control) or the key name;
/// the empty string for keys without a name.
pub open spec fn spec_key_str(k: KeyInput) -> Seq<char> {
    match k.code {
        KeyCode::Char(c) => modifier_prefix(k).push(if k.ctrl { ascii_lower(c) } else { c }),
        KeyCode::Other => Seq::empty(),
        _ => modifier_prefix(k) + named_key(k.code),
    }
}

fn to_ascii_lower(c: char) -> (r: char)
    ensures
        r == ascii_lower(c),
{
    if 'A' <= c && c <= 'Z' {
        let b = (c as u8) + 32;
        b as char
    } else {
        c
    }
}

fn key_name(code: KeyCode) -> (r: &'static str)
    ensures
        r@ == named_key(code),
{
    match code {
        KeyCode::Esc => "escape",
        KeyCode::Enter => "enter",
        KeyCode::Backspace => "backspace",
        KeyCode::Tab => "tab",
        KeyCode::Up => "up",
        KeyCode::Down => "down",
        KeyCode::Left => "left",
        KeyCode::Right => "right",
        KeyCode::Delete => "delete",
        KeyCode::Home => "home",
        KeyCode::End => "end",
        KeyCode::PageUp => "pageup",
        KeyCode::PageDown => "pagedown",
        _ => {
            proof {
                reveal_strlit("");
            }
            ""
        },
    }
}

/// The key string of a key press (`ctrl+p`, `alt+x`, `escape`, `T`, ...), the
/// form keybindings are written in; empty for keys without a name.
pub fn key_event_to_str(key: &KeyInput) -> (s: String)
    ensures
        s@ == spec_key_str(*key),
{
    if key.code == KeyCode::Other {
        return String::new();
    }
    let mut s = String::new();
    if key.ctrl {
        s.append("ctrl+");
    }
    if key.alt {
        s.append("alt+");
    }
    assert(s@ =~= modifier_prefix(*key));
    match key.code {
        KeyCode::Char(c) => {
            if key.ctrl {
                push_char(&mut s, to_ascii_lower(c));
            } else {
                push_char(&mut s, c);
            }
        },
        _ => {
            s.append(key_name(key.code));
        },
    }
    s
}

/// The key strings the keybindings give to an action (none for selecting a
/// theme or layout by number, which no key triggers).
pub open spec fn keys_of(kb: Keybindings, a: Action) -> Seq<String> {
    match a {
        Action::Quit => kb.quit@,
        Action::ToggleHelp => kb.help@,
        Action::NextTheme => kb.next_theme@,
        Action::PreviousTheme => kb.prev_theme@,
        Action::NextLayout => kb.next_layout@,
        Action::ToggleFullscreen => kb.toggle_fullscreen@,
        Action::CycleFullscreen => kb.cycle_fullscreen@,
        Action::Search => kb.search@,
        Action::OpenCommandPalette => kb.command_palette@,
        Action::Cancel => kb.cancel@,
        Action::SelectTheme(_) => Seq::empty(),
        Action::SelectLayout(_) => Seq::empty(),
    }
}

/// A key resolves to an action only when it is bound to that action; it
/// resolves to something whenever it is bound to some action; and a key
/// bound to one action only resolves to that action.
pub proof fn lemma_resolve_follows_bindings(kb: Keybindings, key: Seq<char>, a: Action)
    ensures
        spec_resolve(kb, key) == Some(a) ==> bound_to(keys_of(kb, a), key),
        bound_to(keys_of(kb, a), key) ==> spec_resolve(kb, key) is Some,
        bound_to(keys_of(kb, a), key) && (forall|b: Action| b != a ==> !bound_to(keys_of(kb, b), key))
            ==> spec_resolve(kb, key) == Some(a),
{
    if bound_to(keys_of(kb, a), key) && (forall|b: Action| b != a ==> !bound_to(keys_of(kb, b), key)) {
        assert(a != Action::Quit ==> !bound_to(keys_of(kb, Action::Quit), key));
        assert(a != Action::ToggleHelp ==> !bound_to(keys_of(kb, Action::ToggleHelp), key));
        assert(a != Action::NextTheme ==> !bound_to(keys_of(kb, Action::NextTheme), key));
        assert(a != Action::PreviousTheme ==> !bound_to(keys_of(kb, Action::PreviousTheme), key));
        assert(a != Action::NextLayout ==> !bound_to(keys_of(kb, Action::NextLayout), key));
        assert(a != Action::ToggleFullscreen ==> !bound_to(keys_of(kb, Action::ToggleFullscreen), key));
        assert(a != Action::CycleFullscreen ==> !bound_to(keys_of(kb, Action::CycleFullscreen), key));
        assert(a != Action::Search ==> !bound_to(keys_of(kb, Action::Search), key));
        assert(a != Action::OpenCommandPalette ==> !bound_to(keys_of(kb, Action::OpenCommandPalette), key));
    }
}

/// With the default keybindings each default key triggers its own action:
/// `q` quit, `?` help, `t`/`T` next and previous theme, `l` next layout,
/// `f`/`F` toggle and cycle fullscreen, `/` search, `ctrl+p` the command
/// palette, `escape` cancel.
pub proof fn lemma_default_keys(kb: Keybindings)
    requires
        is_default_keybindings(kb),
    ensures
        spec_resolve(kb, "q"@) == Some(Action::Quit),
        spec_resolve(kb, "?"@) == Some(Action::ToggleHelp),
        spec_resolve(kb, "t"@) == Some(Action::NextTheme),
        spec_resolve(kb, "T"@) == Some(Action::PreviousTheme),
        spec_resolve(kb, "l"@) == Some(Action::NextLayout),
        spec_resolve(kb, "f"@) == Some(Action::ToggleFullscreen),
        spec_resolve(kb, "F"@) == Some(Action::CycleFullscreen),
        spec_resolve(kb, "/"@) == Some(Action::Search),
        spec_resolve(kb, "ctrl+p"@) == Some(Action::OpenCommandPalette),
        spec_resolve(kb, "escape"@) == Some(Action::Cancel),
{
    reveal_strlit("q");
    reveal_strlit("?");
    reveal_strlit("t");
    reveal_strlit("T");
    reveal_strlit("l");
    reveal_strlit("f");
    reveal_strlit("F");
    reveal_strlit("/");
    reveal_strlit("ctrl+p");
    reveal_strlit("escape");
    let keys = seq!["q"@, "?"@, "t"@, "T"@, "l"@, "f"@, "F"@, "/"@, "ctrl+p"@, "escape"@];
    assert forall|i: int, j: int| 0 <= i < 10 && 0 <= j < 10 && i != j implies #[trigger] keys[i] != #[trigger] keys[j] by {
        assert(keys[i][0] != keys[j][0] || keys[i].len() != keys[j].len());
    }
    assert forall|l: Seq<String>, k: Seq<char>, x: Seq<char>|
        #![trigger single_key(l, x), bound_to(l, k)]
        single_key(l, x) implies (bound_to(l, k) <==> k == x) by {
        if bound_to(l, k) {
            let i = choose|i: int| 0 <= i < l.len() && #[trigger] l[i]@ == k;
            assert(i == 0);
        }
        if k == x {
            assert(l[0]@ == k);
        }
    }
    assert(keys[0] != keys[1] && keys[0] != keys[2]);
}

} // verus!
