use xtop::keybinding::{key_event_to_str, Action, KeyCode, KeyInput, Keybindings};
use xtop::layout::mode::LayoutMode;
use xtop::state::{AppState, FullScreenWidget, InputMode, KeyEffect, KeyRoute};
use xtop::theme::{default_theme, make_theme, Theme};

const GREY: [&str; 16] = [
    "#000000", "#111111", "#222222", "#333333", "#444444", "#555555", "#666666", "#777777", "#888888",
    "#999999", "#aaaaaa", "#bbbbbb", "#cccccc", "#dddddd", "#eeeeee", "#ffffff",
];

fn themes() -> Vec<Theme> {
    vec![default_theme(), make_theme("grey", GREY), make_theme("mono", GREY)]
}

fn state() -> AppState {
    AppState::new(themes(), "x", LayoutMode::Dashboard, 1000, Keybindings::default())
}

fn key(c: char) -> KeyInput {
    KeyInput { code: KeyCode::Char(c), ctrl: false, alt: false }
}

#[test]
fn new_state_selects_the_named_theme() {
    let themes = themes();
    let second = themes[1].name.clone();
    let s = AppState::new(themes, &second, LayoutMode::CpuFocus, 500, Keybindings::default());
    assert_eq!(s.selected_theme_index, 1);
    assert_eq!(s.current_theme.name, second);
    assert_eq!(s.layout_mode, LayoutMode::CpuFocus);
    assert_eq!(s.update_interval_ms, 500);
    assert!(!s.should_quit && !s.show_help);
    assert_eq!(s.input_mode, InputMode::Normal);
    assert_eq!(s.full_screen_widget, FullScreenWidget::Off);
}

#[test]
fn unknown_theme_name_falls_back_to_the_first() {
    let s = AppState::new(themes(), "no-such-theme", LayoutMode::Dashboard, 1000, Keybindings::default());
    assert_eq!(s.selected_theme_index, 0);
}

#[test]
fn next_then_previous_theme_is_the_same_theme() {
    let mut s = state();
    let n = s.themes.len();
    let before = s.selected_theme_index;
    s.next_theme();
    assert_eq!(s.selected_theme_index, (before + 1) % n);
    assert_eq!(s.current_theme.name, s.themes[s.selected_theme_index].name);
    s.previous_theme();
    assert_eq!(s.selected_theme_index, before);
    s.previous_theme();
    assert_eq!(s.selected_theme_index, (before + n - 1) % n);
}

#[test]
fn toggles_undo_themselves() {
    let mut s = state();
    s.toggle_help();
    assert!(s.show_help);
    s.toggle_help();
    assert!(!s.show_help);
    s.toggle_fullscreen();
    assert_eq!(s.full_screen_widget, FullScreenWidget::Cpu);
    s.toggle_fullscreen();
    assert_eq!(s.full_screen_widget, FullScreenWidget::Off);
}

#[test]
fn cycling_fullscreen_nine_times_comes_back() {
    let mut s = state();
    for _ in 0..9 {
        s.cycle_fullscreen_widget();
    }
    assert_eq!(s.full_screen_widget, FullScreenWidget::Off);
    s.cycle_fullscreen_widget();
    assert_eq!(s.full_screen_widget, FullScreenWidget::Cpu);
}

#[test]
fn search_typing_and_escape() {
    let mut s = state();
    s.start_search();
    assert_eq!(s.input_mode, InputMode::Searching);
    s.search_push_char('a');
    s.search_push_char('b');
    assert_eq!(s.search_query, "ab");
    s.search_pop_char();
    assert_eq!(s.search_query, "a");
    let esc = KeyInput { code: KeyCode::Esc, ctrl: false, alt: false };
    assert_eq!(s.handle_key(&esc, false), KeyEffect::Nothing);
    assert_eq!(s.input_mode, InputMode::Normal);
    assert_eq!(s.search_query, "");
}

#[test]
fn keys_drive_the_state_and_ask_for_saving() {
    let mut s = state();
    let before = s.selected_theme_index;
    assert_eq!(s.handle_key(&key('t'), false), KeyEffect::SaveConfig);
    assert_ne!(s.selected_theme_index, before);
    assert_eq!(s.handle_key(&key('l'), false), KeyEffect::SaveConfig);
    assert_eq!(s.layout_mode, LayoutMode::Vertical);
    assert_eq!(s.handle_key(&key('?'), false), KeyEffect::Nothing);
    assert!(s.show_help);
    let ctrl_p = KeyInput { code: KeyCode::Char('p'), ctrl: true, alt: false };
    assert_eq!(s.handle_key(&ctrl_p, false), KeyEffect::Nothing);
    assert_eq!(s.input_mode, InputMode::CommandPalette);
    // In the palette, keys are typed, not run as actions.
    assert_eq!(s.handle_key(&key('q'), false), KeyEffect::Nothing);
    assert!(!s.should_quit);
    assert_eq!(s.palette_query, "q");
    let enter = KeyInput { code: KeyCode::Enter, ctrl: false, alt: false };
    assert_eq!(s.handle_key(&enter, false), KeyEffect::PaletteRun);
    let down = KeyInput { code: KeyCode::Down, ctrl: false, alt: false };
    assert_eq!(s.handle_key(&down, false), KeyEffect::PaletteNext);
    let esc = KeyInput { code: KeyCode::Esc, ctrl: false, alt: false };
    assert_eq!(s.handle_key(&esc, false), KeyEffect::Nothing);
    assert_eq!(s.input_mode, InputMode::Normal);
    assert_eq!(s.palette_query, "");
    assert_eq!(s.handle_key(&key('q'), false), KeyEffect::SaveConfig);
    assert!(s.should_quit);
}

#[test]
fn a_key_taken_by_a_plugin_does_nothing_else() {
    let mut s = state();
    assert_eq!(s.route_key(&key('t')), KeyRoute::PluginsFirst);
    let before = s.selected_theme_index;
    assert_eq!(s.handle_key(&key('t'), true), KeyEffect::Nothing);
    assert_eq!(s.selected_theme_index, before);
    let ctrl_c = KeyInput { code: KeyCode::Char('c'), ctrl: true, alt: false };
    assert_eq!(s.route_key(&ctrl_c), KeyRoute::Application);
    assert_eq!(s.handle_key(&ctrl_c, true), KeyEffect::SaveConfig);
    assert!(s.should_quit);
}

#[test]
fn theme_and_layout_by_name() {
    let mut s = state();
    let name = s.themes[2].name.clone();
    assert!(s.set_theme_by_name(&name));
    assert_eq!(s.selected_theme_index, 2);
    assert!(!s.set_theme_by_name("nope"));
    assert_eq!(s.selected_theme_index, 2);
    assert!(s.set_layout_by_name("CPU Focus"));
    assert_eq!(s.layout_mode, LayoutMode::CpuFocus);
    assert!(!s.set_layout_by_name("cpu focus"));
    assert_eq!(s.layout_mode, LayoutMode::CpuFocus);
}

#[test]
fn actions_that_persist() {
    assert!(Action::NextTheme.persists());
    assert!(Action::SelectLayout(2).persists());
    assert!(!Action::ToggleHelp.persists());
    assert!(!Action::Quit.persists());
    let mut s = state();
    s.execute_action(&Action::SelectLayout(3));
    assert_eq!(s.layout_mode, LayoutMode::CpuFocus);
}

#[test]
fn default_bindings_resolve() {
    let kb = Keybindings::default();
    assert_eq!(kb.resolve("q"), Some(Action::Quit));
    assert_eq!(kb.resolve("T"), Some(Action::PreviousTheme));
    assert_eq!(kb.resolve("ctrl+p"), Some(Action::OpenCommandPalette));
    assert_eq!(kb.resolve("escape"), Some(Action::Cancel));
    assert_eq!(kb.resolve("z"), None);
}

#[test]
fn key_strings() {
    let k = KeyInput { code: KeyCode::Char('C'), ctrl: true, alt: true };
    assert_eq!(key_event_to_str(&k), "ctrl+alt+c");
    assert_eq!(key_event_to_str(&KeyInput { code: KeyCode::Char('C'), ctrl: false, alt: false }), "C");
    assert_eq!(key_event_to_str(&KeyInput { code: KeyCode::PageDown, ctrl: false, alt: true }), "alt+pagedown");
    assert_eq!(key_event_to_str(&KeyInput { code: KeyCode::Other, ctrl: true, alt: false }), "");
}
