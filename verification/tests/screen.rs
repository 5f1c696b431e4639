use xtop::screen::{core_color_index, cpu_column, cpu_grid, CpuGrid};
use xtop::keybinding::Keybindings;
use xtop::layout::mode::{EffectiveLayout, LayoutMode};
use xtop::screen::{
    header_extras, host_label, process_list_title, process_shown, screen_for, search_box_area, search_box_text,
    shows_search_box, Screen,
};
use xtop::state::{AppState, FullScreenWidget};
use xtop::theme::default_theme;

fn state() -> AppState {
    AppState::new(vec![default_theme()], "x", LayoutMode::Dashboard, 1000, Keybindings::default())
}

#[test]
fn what_the_terminal_shows() {
    let mut s = state();
    assert_eq!(screen_for(39, 30, &s), Screen::TooSmall);
    assert_eq!(screen_for(100, 7, &s), Screen::TooSmall);
    assert_eq!(screen_for(120, 40, &s), Screen::Layout(EffectiveLayout::Dashboard));
    assert_eq!(screen_for(50, 30, &s), Screen::Layout(EffectiveLayout::Minimal));
    s.toggle_fullscreen();
    assert_eq!(screen_for(120, 40, &s), Screen::FullScreen(FullScreenWidget::Cpu));
    s.toggle_help();
    assert_eq!(screen_for(120, 40, &s), Screen::Help);
}

#[test]
fn search_box() {
    let mut s = state();
    let scr = screen_for(120, 40, &s);
    assert!(!shows_search_box(&scr, &s));
    s.start_search();
    assert!(shows_search_box(&scr, &s));
    assert!(!shows_search_box(&Screen::Help, &s));
    assert_eq!(search_box_area(120, 40), (40, 17, 40, 3));
    assert_eq!(search_box_area(30, 2), (0, 0, 30, 2));
    assert_eq!(search_box_text("fire"), "/fire_");
}

#[test]
fn header_and_process_table_texts() {
    let mut s = state();
    assert_eq!(header_extras(&s), "");
    s.cycle_fullscreen_widget();
    s.cycle_fullscreen_widget();
    s.start_search();
    assert_eq!(header_extras(&s), " [Full: Memory] [/] Search");
    assert_eq!(host_label(""), "xtop");
    assert_eq!(host_label("box"), "box");
    assert_eq!(process_list_title(""), "Processes");
    assert_eq!(process_list_title("ssh"), "Processes (filter: ssh)");
    assert!(process_shown("anything", ""));
    assert!(process_shown("FireFox", "fox"));
    assert!(process_shown("sshd", "SSH"));
    assert!(!process_shown("bash", "zsh"));
}

#[test]
fn cpu_gauges_fill_one_or_two_columns() {
    assert_eq!(cpu_grid(40, 8), CpuGrid { cols: 1, per_col: 8 });
    let g = cpu_grid(41, 7);
    assert_eq!(g, CpuGrid { cols: 2, per_col: 4 });
    assert_eq!(cpu_column(g, 7, 0), (0, 4));
    assert_eq!(cpu_column(g, 7, 1), (4, 7));
    assert_eq!(cpu_grid(80, 0), CpuGrid { cols: 2, per_col: 0 });
    assert_eq!(core_color_index(7, false), 2);
    assert_eq!(core_color_index(5, false), 6);
    assert_eq!(core_color_index(7, true), 1);
}
