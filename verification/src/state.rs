//! Application state: the theme, layout, fullscreen, help and search state
//! that key presses and plugins change, and the decisions taken on a key press.

use vstd::prelude::*;
use crate::keybinding::{spec_key_str, spec_resolve, key_event_to_str, Action, KeyCode, KeyInput, Keybindings};
use crate::layout::mode::{
    mode_at, mode_from_layout_index, mode_label, spec_next_mode, LayoutMode,
};
use crate::text::{push_char, str_eq};
use crate::theme::{theme_views, Theme, ThemeView};

verus! {

/// The widget shown alone on the whole screen, if any.
#[derive(Clone, Copy, Debug, PartialEq, Eq, Structural)]
pub enum FullScreenWidget {
    Off,
    Cpu,
    Memory,
    Storage,
    Network,
    Processes,
    DiskIO,
    Gpu,
    Battery,
}

/// Position of a fullscreen choice in the cycling order.
pub open spec fn widget_index(w: FullScreenWidget) -> int {
    match w {
        FullScreenWidget::Off => 0,
        FullScreenWidget::Cpu => 1,
        FullScreenWidget::Memory => 2,
        FullScreenWidget::Storage => 3,
        FullScreenWidget::Network => 4,
        FullScreenWidget::Processes => 5,
        FullScreenWidget::DiskIO => 6,
        FullScreenWidget::Gpu => 7,
        FullScreenWidget::Battery => 8,
    }
}

/// The fullscreen choice at a position of the cycling order.
pub open spec fn widget_at(i: int) -> FullScreenWidget {
    if i == 1 {
        FullScreenWidget::Cpu
    } else if i == 2 {
        FullScreenWidget::Memory
    } else if i == 3 {
        FullScreenWidget::Storage
    } else if i == 4 {
        FullScreenWidget::Network
    } else if i == 5 {
        FullScreenWidget::Processes
    } else if i == 6 {
        FullScreenWidget::DiskIO
    } else if i == 7 {
        FullScreenWidget::Gpu
    } else if i == 8 {
        FullScreenWidget::Battery
    } else {
        FullScreenWidget::Off
    }
}

/// One step of the fullscreen cycle.
pub open spec fn spec_next_widget(w: FullScreenWidget) -> FullScreenWidget {
    widget_at((widget_index(w) + 1) % 9)
}

/// The title of a fullscreen choice (empty for no fullscreen widget).
pub open spec fn widget_label(w: FullScreenWidget) -> Seq<char> {
    match w {
        FullScreenWidget::Off => ""@,
        FullScreenWidget::Cpu => "CPU"@,
        FullScreenWidget::Memory => "Memory"@,
        FullScreenWidget::Storage => "Storage"@,
        FullScreenWidget::Network => "Network"@,
        FullScreenWidget::Processes => "Processes"@,
        FullScreenWidget::DiskIO => "Disk I/O"@,
        FullScreenWidget::Gpu => "GPU"@,
        FullScreenWidget::Battery => "Battery"@,
    }
}

impl FullScreenWidget {
    /// The next choice in the cycle none, CPU, memory, storage, network,
    /// processes, disk I/O, GPU, battery, and back to none.
    pub fn next(self) -> (r: Self)
        ensures
            r == spec_next_widget(self),
    {
        match self {
            FullScreenWidget::Off => FullScreenWidget::Cpu,
            FullScreenWidget::Cpu => FullScreenWidget::Memory,
            FullScreenWidget::Memory => FullScreenWidget::Storage,
            FullScreenWidget::Storage => FullScreenWidget::Network,
            FullScreenWidget::Network => FullScreenWidget::Processes,
            FullScreenWidget::Processes => FullScreenWidget::DiskIO,
            FullScreenWidget::DiskIO => FullScreenWidget::Gpu,
            FullScreenWidget::Gpu => FullScreenWidget::Battery,
            FullScreenWidget::Battery => FullScreenWidget::Off,
        }
    }

    /// The title shown for the choice.
    pub fn label(self) -> (r: &'static str)
        ensures
            r@ == widget_label(self),
    {
        match self {
            FullScreenWidget::Off => "",
            FullScreenWidget::Cpu => "CPU",
            FullScreenWidget::Memory => "Memory",
            FullScreenWidget::Storage => "Storage",
            FullScreenWidget::Network => "Network",
            FullScreenWidget::Processes => "Processes",
            FullScreenWidget::DiskIO => "Disk I/O",
            FullScreenWidget::Gpu => "GPU",
            FullScreenWidget::Battery => "Battery",
        }
    }
}

/// `n` steps of the fullscreen cycle.
pub open spec fn next_widget_n(w: FullScreenWidget, n: nat) -> FullScreenWidget
    decreases n,
{
    if n == 0 {
        w
    } else {
        spec_next_widget(next_widget_n(w, (n - 1) as nat))
    }
}

proof fn lemma_next_widget_n_position(w: FullScreenWidget, n: nat)
    ensures
        next_widget_n(w, n) == widget_at((widget_index(w) + n) % 9),
    decreases n,
{
    if n > 0 {
        lemma_next_widget_n_position(w, (n - 1) as nat);
        let j = (widget_index(w) + n - 1) % 9;
        assert(widget_index(widget_at(j)) == j);
        assert((j + 1) % 9 == (widget_index(w) + n) % 9);
    }
}

/// Cycling the fullscreen widget visits every choice once and returns to the
/// start after nine steps.
pub proof fn lemma_fullscreen_cycle(w: FullScreenWidget)
    ensures
        next_widget_n(w, 9) == w,
        forall|k: nat| 0 < k < 9 ==> #[trigger] next_widget_n(w, k) != w,
{
    lemma_next_widget_n_position(w, 9);
    assert forall|k: nat| 0 < k < 9 implies #[trigger] next_widget_n(w, k) != w by {
        lemma_next_widget_n_position(w, k);
        assert(widget_index(widget_at((widget_index(w) + k) % 9)) == (widget_index(w) + k) % 9);
    }
}

/// Whether keys go to the application, to the process search field or to
/// the command palette.
#[derive(Clone, Copy, Debug, PartialEq, Eq, Structural)]
pub enum InputMode {
    Normal,
    Searching,
    CommandPalette,
}

/// The interactive state of the monitor.
pub struct AppState {
    pub should_quit: bool,
    pub layout_mode: LayoutMode,
    pub current_theme: Theme,
    pub themes: Vec<Theme>,
    pub selected_theme_index: usize,
    pub show_help: bool,
    pub input_mode: InputMode,
    pub search_query: String,
    pub palette_query: String,
    pub full_screen_widget: FullScreenWidget,
    pub update_interval_ms: u64,
    pub keybindings: Keybindings,
}

/// Position of the first theme called `name` at or after position `i`.
pub open spec fn first_theme_from(themes: Seq<Theme>, name: Seq<char>, i: int) -> Option<int>
    decreases themes.len() - i,
{
    if i < 0 || i >= themes.len() {
        None
    } else if themes[i].name@ == name {
        Some(i)
    } else {
        first_theme_from(themes, name, i + 1)
    }
}

/// Position of the first theme called `name`, if any.
pub open spec fn first_theme_named(themes: Seq<Theme>, name: Seq<char>) -> Option<int> {
    first_theme_from(themes, name, 0)
}

/// The position found is a theme of that name, and no earlier theme has it.
pub proof fn lemma_first_theme_from(themes: Seq<Theme>, name: Seq<char>, i: int)
    requires
        0 <= i,
    ensures
        first_theme_from(themes, name, i) matches Some(k) ==> i <= k < themes.len()
            && themes[k].name@ == name && forall|j: int| i <= j < k ==> #[trigger] themes[j].name@ != name,
        first_theme_from(themes, name, i) is None ==> forall|j: int| i <= j < themes.len() ==> #[trigger] themes[j].name@ != name,
    decreases themes.len() - i,
{
    if i < themes.len() && themes[i].name@ != name {
        lemma_first_theme_from(themes, name, i + 1);
    }
}

/// Position of the first theme called `name`.
fn position_of_theme(themes: &Vec<Theme>, name: &str) -> (r: Option<usize>)
    ensures
        r matches Some(i) ==> i < themes@.len() && first_theme_named(themes@, name@) == Some(i as int),
        r is None ==> first_theme_named(themes@, name@) is None,
{
    for i in 0..themes.len()
        invariant
            first_theme_named(themes@, name@) == first_theme_from(themes@, name@, i as int),
    {
        if str_eq(themes[i].name.as_str(), name) {
            return Some(i);
        }
    }
    None
}

/// Remove the last character of a string (`String::pop`).
#[verifier::external_body]
pub(crate) fn pop_char(s: &mut String) -> (r: Option<char>)
    ensures
        old(s)@.len() == 0 ==> r is None && final(s)@ == old(s)@,
        old(s)@.len() > 0 ==> r == Some(old(s)@.last()) && final(s)@ == old(s)@.drop_last(),
{
    s.pop()
}

/// What the application state is, as a value.
pub struct AppStateView {
    pub should_quit: bool,
    pub layout_mode: LayoutMode,
    pub current_theme: ThemeView,
    pub themes: Seq<ThemeView>,
    pub selected_theme_index: int,
    pub show_help: bool,
    pub input_mode: InputMode,
    pub search_query: Seq<char>,
    pub palette_query: Seq<char>,
    pub full_screen_widget: FullScreenWidget,
    pub update_interval_ms: u64,
    pub keybindings: Keybindings,
}

impl View for AppState {
    type V = AppStateView;

    open spec fn view(&self) -> AppStateView {
        AppStateView {
            should_quit: self.should_quit,
            layout_mode: self.layout_mode,
            current_theme: self.current_theme@,
            themes: theme_views(self.themes@),
            selected_theme_index: self.selected_theme_index as int,
            show_help: self.show_help,
            input_mode: self.input_mode,
            search_query: self.search_query@,
            palette_query: self.palette_query@,
            full_screen_widget: self.full_screen_widget,
            update_interval_ms: self.update_interval_ms,
            keybindings: self.keybindings,
        }
    }
}

/// The state is consistent: there is at least one theme, the selected index
/// points into the list and the current theme is that entry.
pub open spec fn view_inv(v: AppStateView) -> bool {
    &&& v.themes.len() > 0
    &&& 0 <= v.selected_theme_index < v.themes.len()
    &&& v.current_theme == v.themes[v.selected_theme_index]
}

/// The state with theme `i` of the list selected.
pub open spec fn select_theme(v: AppStateView, i: int) -> AppStateView {
    AppStateView { selected_theme_index: i, current_theme: v.themes[i], ..v }
}

impl AppState {
    /// The state is consistent (see `view_inv`).
    pub open spec fn inv(&self) -> bool {
        view_inv(self@)
    }

    /// The state at startup: the first theme called `theme_name` (the first
    /// theme when none is), the given layout mode, update interval and
    /// keybindings, no help, no search, no fullscreen widget.
    pub fn new(
        themes: Vec<Theme>,
        theme_name: &str,
        layout_mode: LayoutMode,
        update_interval_ms: u64,
        keybindings: Keybindings,
    ) -> (s: Self)
        requires
            themes@.len() > 0,
        ensures
            s.inv(),
            s.themes@ == themes@,
            s.selected_theme_index as int == match first_theme_named(themes@, theme_name@) {
                Some(i) => i,
                None => 0,
            },
            !s.should_quit,
            s.layout_mode == layout_mode,
            !s.show_help,
            s.input_mode == InputMode::Normal,
            s.search_query@.len() == 0,
            s.palette_query@.len() == 0,
            s.full_screen_widget == FullScreenWidget::Off,
            s.update_interval_ms == update_interval_ms,
            s.keybindings == keybindings,
    {
        let selected_theme_index = match position_of_theme(&themes, theme_name) {
            Some(i) => i,
            None => 0,
        };
        let current_theme = themes[selected_theme_index].clone();
        AppState {
            should_quit: false,
            layout_mode,
            current_theme,
            themes,
            selected_theme_index,
            show_help: false,
            input_mode: InputMode::Normal,
            search_query: String::new(),
            palette_query: String::new(),
            full_screen_widget: FullScreenWidget::Off,
            update_interval_ms,
            keybindings,
        }
    }

    fn apply_theme(&mut self)
        requires
            old(self).selected_theme_index < old(self).themes@.len(),
        ensures
            final(self).inv(),
            final(self)@ == select_theme(old(self)@, old(self).selected_theme_index as int),
    {
        self.current_theme = self.themes[self.selected_theme_index].clone();
    }

    /// Select the next theme of the list, wrapping around after the last.
    pub fn next_theme(&mut self)
        requires
            old(self).inv(),
        ensures
            final(self).inv(),
            final(self)@ == select_theme(
                old(self)@,
                (old(self).selected_theme_index + 1) % old(self).themes@.len() as int,
            ),
    {
        let n = self.themes.len();
        if self.selected_theme_index >= n - 1 {
            assert(n as int % n as int == 0) by (nonlinear_arith)
                requires
                    n > 0,
            ;
            self.selected_theme_index = 0;
        } else {
            let k = self.selected_theme_index + 1;
            assert(k as int % n as int == k) by (nonlinear_arith)
                requires
                    0 <= k < n,
            ;
            self.selected_theme_index = k;
        }
        self.apply_theme();
    }

    /// Select the previous theme of the list, wrapping around before the first.
    pub fn previous_theme(&mut self)
        requires
            old(self).inv(),
        ensures
            final(self).inv(),
            final(self)@ == select_theme(
                old(self)@,
                if old(self).selected_theme_index == 0 {
                    old(self).themes@.len() - 1
                } else {
                    old(self).selected_theme_index - 1
                },
            ),
    {
        if self.selected_theme_index == 0 {
            self.selected_theme_index = self.themes.len() - 1;
        } else {
            self.selected_theme_index -= 1;
        }
        self.apply_theme();
    }

    /// Switch to the next layout mode; a fullscreen widget is closed.
    pub fn next_layout(&mut self)
        ensures
            final(self)@ == (AppStateView {
                layout_mode: spec_next_mode(old(self).layout_mode),
                full_screen_widget: FullScreenWidget::Off,
                ..old(self)@
            }),
    {
        self.layout_mode = self.layout_mode.next();
        self.full_screen_widget = FullScreenWidget::Off;
    }

    /// Show the CPU widget fullscreen, or close the fullscreen widget.
    pub fn toggle_fullscreen(&mut self)
        ensures
            final(self)@ == (AppStateView {
                full_screen_widget: if old(self).full_screen_widget == FullScreenWidget::Off {
                    FullScreenWidget::Cpu
                } else {
                    FullScreenWidget::Off
                },
                ..old(self)@
            }),
    {
        self.full_screen_widget = match self.full_screen_widget {
            FullScreenWidget::Off => FullScreenWidget::Cpu,
            _ => FullScreenWidget::Off,
        };
    }

    /// Show the next widget of the fullscreen cycle.
    pub fn cycle_fullscreen_widget(&mut self)
        ensures
            final(self)@ == (AppStateView {
                full_screen_widget: spec_next_widget(old(self).full_screen_widget),
                ..old(self)@
            }),
    {
        self.full_screen_widget = self.full_screen_widget.next();
    }

    /// Enter search mode with an empty query.
    pub fn start_search(&mut self)
        ensures
            final(self)@ == (AppStateView {
                input_mode: InputMode::Searching,
                search_query: Seq::empty(),
                ..old(self)@
            }),
    {
        self.input_mode = InputMode::Searching;
        self.search_query = String::new();
    }

    /// Append a character to the search query.
    pub fn search_push_char(&mut self, c: char)
        ensures
            final(self)@ == (AppStateView { search_query: old(self).search_query@.push(c), ..old(self)@ }),
    {
        push_char(&mut self.search_query, c);
    }

    /// Remove the last character of the search query, if any.
    pub fn search_pop_char(&mut self)
        ensures
            final(self)@ == (AppStateView {
                search_query: if old(self).search_query@.len() == 0 {
                    old(self).search_query@
                } else {
                    old(self).search_query@.drop_last()
                },
                ..old(self)@
            }),
    {
        pop_char(&mut self.search_query);
    }

    /// Leave search mode, keeping the query as the process filter.
    pub fn end_search(&mut self)
        ensures
            final(self)@ == (AppStateView { input_mode: InputMode::Normal, ..old(self)@ }),
    {
        self.input_mode = InputMode::Normal;
    }

    /// Show or hide the help screen.
    pub fn toggle_help(&mut self)
        ensures
            final(self)@ == (AppStateView { show_help: !old(self).show_help, ..old(self)@ }),
    {
        self.show_help = !self.show_help;
    }

    /// Ask the main loop to stop.
    pub fn quit(&mut self)
        ensures
            final(self)@ == (AppStateView { should_quit: true, ..old(self)@ }),
    {
        self.should_quit = true;
    }
}

/// What the caller has to do after a key press was handled.
#[derive(Clone, Copy, Debug, PartialEq, Eq, Structural)]
pub enum KeyEffect {
    Nothing,
    /// Persist the theme, layout and settings to the config file.
    SaveConfig,
    /// Run the command palette's selected entry.
    PaletteRun,
    /// Move the palette selection up.
    PalettePrevious,
    /// Move the palette selection down.
    PaletteNext,
}

/// Who sees a key press first.
#[derive(Clone, Copy, Debug, PartialEq, Eq, Structural)]
pub enum KeyRoute {
    /// The application handles the key itself.
    Application,
    /// Plugins get the key first; the application handles it only when no
    /// plugin consumed it.
    PluginsFirst,
}

impl Action {
    /// Whether the action changes what the config file stores (the theme or
    /// the layout), so that the config is saved after it.
    pub open spec fn spec_persists(self) -> bool {
        match self {
            Action::NextTheme | Action::PreviousTheme | Action::NextLayout
            | Action::SelectTheme(_) | Action::SelectLayout(_) => true,
            _ => false,
        }
    }

    /// Whether the action changes what the config file stores.
    pub fn persists(&self) -> (r: bool)
        ensures
            r == self.spec_persists(),
    {
        match self {
            Action::NextTheme | Action::PreviousTheme | Action::NextLayout
            | Action::SelectTheme(_) | Action::SelectLayout(_) => true,
            _ => false,
        }
    }
}

/// The layout mode whose label is `name`, if any.
pub open spec fn mode_named(name: Seq<char>) -> Option<LayoutMode> {
    if exists|i: int| 0 <= i < 7 && mode_label(#[trigger] mode_at(i)) == name {
        Some(mode_at(choose|i: int| 0 <= i < 7 && mode_label(#[trigger] mode_at(i)) == name))
    } else {
        None
    }
}

/// What an action does to the state (the command palette is opened by the caller).
pub open spec fn spec_execute(v: AppStateView, a: Action) -> AppStateView {
    match a {
        Action::Quit => AppStateView { should_quit: true, ..v },
        Action::ToggleHelp => AppStateView { show_help: !v.show_help, ..v },
        Action::NextTheme => select_theme(v, (v.selected_theme_index + 1) % v.themes.len() as int),
        Action::PreviousTheme => select_theme(
            v,
            if v.selected_theme_index == 0 { v.themes.len() - 1 } else { v.selected_theme_index - 1 },
        ),
        Action::NextLayout => AppStateView {
            layout_mode: spec_next_mode(v.layout_mode),
            full_screen_widget: FullScreenWidget::Off,
            ..v
        },
        Action::ToggleFullscreen => AppStateView {
            full_screen_widget: if v.full_screen_widget == FullScreenWidget::Off {
                FullScreenWidget::Cpu
            } else {
                FullScreenWidget::Off
            },
            ..v
        },
        Action::CycleFullscreen => AppStateView {
            full_screen_widget: spec_next_widget(v.full_screen_widget),
            ..v
        },
        Action::Search => AppStateView {
            input_mode: InputMode::Searching,
            search_query: Seq::empty(),
            ..v
        },
        Action::OpenCommandPalette => v,
        Action::Cancel => if v.show_help { AppStateView { show_help: false, ..v } } else { v },
        Action::SelectTheme(i) => if i < v.themes.len() { select_theme(v, i as int) } else { v },
        Action::SelectLayout(i) => AppStateView { layout_mode: mode_at(i as int), ..v },
    }
}

/// Whether plugins see a key before the application: only in normal mode,
/// and never for `ctrl+c` (quit) or `ctrl+p` (command palette).
pub open spec fn spec_route(v: AppStateView, k: KeyInput) -> KeyRoute {
    if v.input_mode == InputMode::Normal && spec_key_str(k) != "ctrl+c"@ && spec_key_str(k) != "ctrl+p"@ {
        KeyRoute::PluginsFirst
    } else {
        KeyRoute::Application
    }
}

/// The state after a key press, and what the caller must do. In normal mode
/// `ctrl+c` saves and quits and `ctrl+p` opens the command palette whatever
/// the bindings say; a key a plugin consumed is done; otherwise the bound
/// action runs (quit saves first; cancel closes the help screen; actions that
/// change the theme or layout save the config). In search mode escape or
/// `ctrl+c` drop the query, enter keeps it, backspace deletes and characters
/// are typed. Opening the command palette starts it with an empty query; in
/// it escape or `ctrl+c` close it, enter runs the selected entry, up and
/// down move the selection, backspace deletes and characters are typed, and
/// no key runs a normal-mode action.
pub open spec fn spec_handle_key(v: AppStateView, k: KeyInput, consumed: bool) -> (AppStateView, KeyEffect) {
    let ks = spec_key_str(k);
    match v.input_mode {
        InputMode::Normal => if ks == "ctrl+c"@ {
            (AppStateView { should_quit: true, ..v }, KeyEffect::SaveConfig)
        } else if ks == "ctrl+p"@ {
            (open_palette(v), KeyEffect::Nothing)
        } else if consumed {
            (v, KeyEffect::Nothing)
        } else {
            match spec_resolve(v.keybindings, ks) {
                None => (v, KeyEffect::Nothing),
                Some(Action::Quit) => (AppStateView { should_quit: true, ..v }, KeyEffect::SaveConfig),
                Some(Action::OpenCommandPalette) => (open_palette(v), KeyEffect::Nothing),
                Some(a) => (
                    spec_execute(v, a),
                    if a.spec_persists() { KeyEffect::SaveConfig } else { KeyEffect::Nothing },
                ),
            }
        },
        InputMode::Searching => if ks == "ctrl+c"@ || k.code == KeyCode::Esc {
            (AppStateView { search_query: Seq::empty(), input_mode: InputMode::Normal, ..v }, KeyEffect::Nothing)
        } else {
            match k.code {
                KeyCode::Enter => (AppStateView { input_mode: InputMode::Normal, ..v }, KeyEffect::Nothing),
                KeyCode::Backspace => (
                    AppStateView {
                        search_query: if v.search_query.len() == 0 {
                            v.search_query
                        } else {
                            v.search_query.drop_last()
                        },
                        ..v
                    },
                    KeyEffect::Nothing,
                ),
                KeyCode::Char(c) => (AppStateView { search_query: v.search_query.push(c), ..v }, KeyEffect::Nothing),
                _ => (v, KeyEffect::Nothing),
            }
        },
        InputMode::CommandPalette => if ks == "ctrl+c"@ || k.code == KeyCode::Esc {
            (AppStateView { palette_query: Seq::empty(), input_mode: InputMode::Normal, ..v }, KeyEffect::Nothing)
        } else {
            match k.code {
                KeyCode::Enter => (v, KeyEffect::PaletteRun),
                KeyCode::Up => (v, KeyEffect::PalettePrevious),
                KeyCode::Down => (v, KeyEffect::PaletteNext),
                KeyCode::Backspace => (
                    AppStateView {
                        palette_query: if v.palette_query.len() == 0 {
                            v.palette_query
                        } else {
                            v.palette_query.drop_last()
                        },
                        ..v
                    },
                    KeyEffect::Nothing,
                ),
                KeyCode::Char(c) => (AppStateView { palette_query: v.palette_query.push(c), ..v }, KeyEffect::Nothing),
                _ => (v, KeyEffect::Nothing),
            }
        },
    }
}

/// The state with the command palette open and an empty palette query.
pub open spec fn open_palette(v: AppStateView) -> AppStateView {
    AppStateView { input_mode: InputMode::CommandPalette, palette_query: Seq::empty(), ..v }
}

fn mode_by_label(name: &str) -> (r: Option<LayoutMode>)
    ensures
        r == mode_named(name@),
{
    for i in 0..7
        invariant
            forall|j: int| 0 <= j < i ==> mode_label(#[trigger] mode_at(j)) != name@,
    {
        let m = mode_from_layout_index(i);
        if str_eq(m.label(), name) {
            proof {
                crate::layout::mode::lemma_mode_label_injective(
                    m,
                    mode_at(choose|k: int| 0 <= k < 7 && mode_label(#[trigger] mode_at(k)) == name@),
                );
            }
            return Some(m);
        }
    }
    None
}

impl AppState {
    /// Select the first theme called `name`; `false` (and no change) when no
    /// theme has that name.
    pub fn set_theme_by_name(&mut self, name: &str) -> (found: bool)
        requires
            old(self).inv(),
        ensures
            final(self).inv(),
            found == first_theme_named(old(self).themes@, name@) is Some,
            match first_theme_named(old(self).themes@, name@) {
                Some(i) => final(self)@ == select_theme(old(self)@, i),
                None => final(self)@ == old(self)@,
            },
    {
        match position_of_theme(&self.themes, name) {
            Some(i) => {
                self.selected_theme_index = i;
                self.apply_theme();
                true
            },
            None => false,
        }
    }

    /// Switch to the layout mode labelled `name`; `false` (and no change) when
    /// no mode has that label.
    pub fn set_layout_by_name(&mut self, name: &str) -> (found: bool)
        ensures
            found == mode_named(name@) is Some,
            match mode_named(name@) {
                Some(m) => final(self)@ == (AppStateView { layout_mode: m, ..old(self)@ }),
                None => final(self)@ == old(self)@,
            },
    {
        match mode_by_label(name) {
            Some(m) => {
                self.layout_mode = m;
                true
            },
            None => false,
        }
    }

    /// Run an action on the state.
    pub fn execute_action(&mut self, action: &Action)
        requires
            old(self).inv(),
        ensures
            final(self).inv(),
            final(self)@ == spec_execute(old(self)@, *action),
    {
        match action {
            Action::Quit => self.quit(),
            Action::ToggleHelp => self.toggle_help(),
            Action::NextTheme => self.next_theme(),
            Action::PreviousTheme => self.previous_theme(),
            Action::NextLayout => self.next_layout(),
            Action::ToggleFullscreen => self.toggle_fullscreen(),
            Action::CycleFullscreen => self.cycle_fullscreen_widget(),
            Action::Search => self.start_search(),
            Action::OpenCommandPalette => {},
            Action::Cancel => {
                if self.show_help {
                    self.show_help = false;
                }
            },
            Action::SelectTheme(i) => {
                if *i < self.themes.len() {
                    self.selected_theme_index = *i;
                    self.apply_theme();
                }
            },
            Action::SelectLayout(i) => {
                self.layout_mode = mode_from_layout_index(*i);
            },
        }
    }

    /// Whether plugins get a key press before the application.
    pub fn route_key(&self, key: &KeyInput) -> (r: KeyRoute)
        ensures
            r == spec_route(self@, *key),
    {
        let ks = key_event_to_str(key);
        if self.input_mode == InputMode::Normal && !str_eq(ks.as_str(), "ctrl+c") && !str_eq(ks.as_str(), "ctrl+p") {
            KeyRoute::PluginsFirst
        } else {
            KeyRoute::Application
        }
    }

    /// Handle a key press; `consumed_by_plugin` tells whether a plugin already
    /// took the key (see `route_key`).
    pub fn handle_key(&mut self, key: &KeyInput, consumed_by_plugin: bool) -> (effect: KeyEffect)
        requires
            old(self).inv(),
        ensures
            final(self).inv(),
            (final(self)@, effect) == spec_handle_key(old(self)@, *key, consumed_by_plugin),
    {
        let ks = key_event_to_str(key);
        let ctrl_c = str_eq(ks.as_str(), "ctrl+c");
        match self.input_mode {
            InputMode::Normal => {
                if ctrl_c {
                    self.quit();
                    return KeyEffect::SaveConfig;
                }
                if str_eq(ks.as_str(), "ctrl+p") {
                    self.open_palette();
                    return KeyEffect::Nothing;
                }
                if consumed_by_plugin {
                    return KeyEffect::Nothing;
                }
                match self.keybindings.resolve(ks.as_str()) {
                    None => KeyEffect::Nothing,
                    Some(Action::Quit) => {
                        self.quit();
                        KeyEffect::SaveConfig
                    },
                    Some(Action::OpenCommandPalette) => {
                        self.open_palette();
                        KeyEffect::Nothing
                    },
                    Some(action) => {
                        self.execute_action(&action);
                        if action.persists() {
                            KeyEffect::SaveConfig
                        } else {
                            KeyEffect::Nothing
                        }
                    },
                }
            },
            InputMode::Searching => {
                if ctrl_c || key.code == KeyCode::Esc {
                    self.search_query = String::new();
                    self.end_search();
                    return KeyEffect::Nothing;
                }
                match key.code {
                    KeyCode::Enter => self.end_search(),
                    KeyCode::Backspace => self.search_pop_char(),
                    KeyCode::Char(c) => self.search_push_char(c),
                    _ => {},
                }
                KeyEffect::Nothing
            },
            InputMode::CommandPalette => {
                if ctrl_c || key.code == KeyCode::Esc {
                    self.palette_query = String::new();
                    self.input_mode = InputMode::Normal;
                    return KeyEffect::Nothing;
                }
                match key.code {
                    KeyCode::Enter => KeyEffect::PaletteRun,
                    KeyCode::Up => KeyEffect::PalettePrevious,
                    KeyCode::Down => KeyEffect::PaletteNext,
                    KeyCode::Backspace => {
                        let _ = pop_char(&mut self.palette_query);
                        KeyEffect::Nothing
                    },
                    KeyCode::Char(c) => {
                        push_char(&mut self.palette_query, c);
                        KeyEffect::Nothing
                    },
                    _ => KeyEffect::Nothing,
                }
            },
        }
    }

    /// Open the command palette with an empty query.
    pub fn open_palette(&mut self)
        ensures
            final(self)@ == open_palette(old(self)@),
            final(self).inv() == old(self).inv(),
    {
        self.palette_query = String::new();
        self.input_mode = InputMode::CommandPalette;
    }
}

/// Going to the next theme and back to the previous one restores the state,
/// and so does the reverse order.
pub proof fn lemma_theme_steps_undo(v: AppStateView)
    requires
        view_inv(v),
    ensures
        spec_execute(spec_execute(v, Action::NextTheme), Action::PreviousTheme) == v,
        spec_execute(spec_execute(v, Action::PreviousTheme), Action::NextTheme) == v,
{
    let n = v.themes.len() as int;
    let i = v.selected_theme_index;
    if i + 1 < n {
        assert((i + 1) % n == i + 1) by (nonlinear_arith)
            requires
                0 <= i + 1 < n,
        ;
    } else {
        assert((i + 1) % n == 0) by (nonlinear_arith)
            requires
                i + 1 == n,
                n > 0,
        ;
    }
    let p = if i == 0 { n - 1 } else { i - 1 };
    if p + 1 < n {
        assert((p + 1) % n == p + 1) by (nonlinear_arith)
            requires
                0 <= p + 1 < n,
        ;
    } else {
        assert((p + 1) % n == 0) by (nonlinear_arith)
            requires
                p + 1 == n,
                n > 0,
        ;
    }
    assert(spec_execute(spec_execute(v, Action::NextTheme), Action::PreviousTheme) =~= v);
    assert(spec_execute(spec_execute(v, Action::PreviousTheme), Action::NextTheme) =~= v);
}

/// Toggling the help screen twice, or the fullscreen widget twice from the
/// normal view, changes nothing.
pub proof fn lemma_toggles_undo(v: AppStateView)
    ensures
        spec_execute(spec_execute(v, Action::ToggleHelp), Action::ToggleHelp) == v,
        v.full_screen_widget == FullScreenWidget::Off ==> spec_execute(
            spec_execute(v, Action::ToggleFullscreen),
            Action::ToggleFullscreen,
        ) == v,
{
}

/// Escape in search mode returns to normal mode with an empty query, so the
/// process list is unfiltered again.
pub proof fn lemma_search_escape(v: AppStateView, k: KeyInput, consumed: bool)
    requires
        v.input_mode == InputMode::Searching,
        k.code == KeyCode::Esc,
    ensures
        spec_handle_key(v, k, consumed).0 == (AppStateView {
            input_mode: InputMode::Normal,
            search_query: Seq::empty(),
            ..v
        }),
        spec_handle_key(v, k, consumed).1 == KeyEffect::Nothing,
{
}

/// In the command palette no key runs a normal-mode action: a key press
/// changes at most the mode and the palette query.
pub proof fn lemma_palette_keys_stay_in_palette(v: AppStateView, k: KeyInput, consumed: bool)
    requires
        v.input_mode == InputMode::CommandPalette,
    ensures
        spec_handle_key(v, k, consumed).0 == (AppStateView {
            input_mode: spec_handle_key(v, k, consumed).0.input_mode,
            palette_query: spec_handle_key(v, k, consumed).0.palette_query,
            ..v
        }),
        spec_handle_key(v, k, consumed).1 != KeyEffect::SaveConfig,
{
}

/// A key press never changes the theme list, the keybindings or the update
/// interval, and keeps the state consistent.
pub proof fn lemma_handle_key_keeps_settings(v: AppStateView, k: KeyInput, consumed: bool)
    requires
        view_inv(v),
    ensures
        spec_handle_key(v, k, consumed).0.themes == v.themes,
        spec_handle_key(v, k, consumed).0.keybindings == v.keybindings,
        spec_handle_key(v, k, consumed).0.update_interval_ms == v.update_interval_ms,
        view_inv(spec_handle_key(v, k, consumed).0),
{
    let n = v.themes.len() as int;
    let i = v.selected_theme_index;
    assert(0 <= (i + 1) % n < n) by (nonlinear_arith)
        requires
            n > 0,
    ;
}

/// Selecting a theme by name makes it the current theme.
pub proof fn lemma_set_theme_by_name(v: AppStateView, themes: Seq<Theme>, name: Seq<char>)
    requires
        v.themes == theme_views(themes),
        first_theme_named(themes, name) is Some,
    ensures
        select_theme(v, first_theme_named(themes, name)->0).current_theme.name == name,
{
    lemma_first_theme_from(themes, name, 0);
}

} // verus!
