use xtop::layout::mode::{detect_effective_layout, EffectiveLayout, LayoutMode};
use xtop::state::FullScreenWidget;

#[test]
fn test_layout_mode_next() {
    assert_eq!(LayoutMode::Dashboard.next(), LayoutMode::Vertical);
    assert_eq!(LayoutMode::Vertical.next(), LayoutMode::Horizontal);
    assert_eq!(LayoutMode::Horizontal.next(), LayoutMode::CpuFocus);
    assert_eq!(LayoutMode::CpuFocus.next(), LayoutMode::MemoryFocus);
    assert_eq!(LayoutMode::MemoryFocus.next(), LayoutMode::NetworkFocus);
    assert_eq!(LayoutMode::NetworkFocus.next(), LayoutMode::ProcessFocus);
    assert_eq!(LayoutMode::ProcessFocus.next(), LayoutMode::Dashboard);
}

#[test]
fn test_detect_effective_layout_large() {
    assert_eq!(
        detect_effective_layout(120, 40, LayoutMode::Dashboard),
        EffectiveLayout::Dashboard
    );
}

#[test]
fn test_detect_effective_layout_compact() {
    assert_eq!(
        detect_effective_layout(90, 30, LayoutMode::Dashboard),
        EffectiveLayout::Compact
    );
}

#[test]
fn test_detect_effective_layout_narrow() {
    assert_eq!(
        detect_effective_layout(70, 30, LayoutMode::Dashboard),
        EffectiveLayout::Vertical
    );
}

#[test]
fn test_detect_effective_layout_minimal() {
    assert_eq!(
        detect_effective_layout(50, 15, LayoutMode::Dashboard),
        EffectiveLayout::Minimal
    );
}

#[test]
fn test_detect_effective_layout_focus_respected() {
    assert_eq!(
        detect_effective_layout(80, 30, LayoutMode::CpuFocus),
        EffectiveLayout::CpuFocus
    );
    assert_eq!(
        detect_effective_layout(80, 30, LayoutMode::NetworkFocus),
        EffectiveLayout::NetworkFocus
    );
}

#[test]
fn test_detect_effective_layout_focus_downgrade() {
    assert_eq!(
        detect_effective_layout(50, 30, LayoutMode::CpuFocus),
        EffectiveLayout::Minimal
    );
}

#[test]
fn test_fullscreen_widget_cycle() {
    assert_eq!(FullScreenWidget::Off.next(), FullScreenWidget::Cpu);
    assert_eq!(FullScreenWidget::Battery.next(), FullScreenWidget::Off);
}

#[test]
fn test_layout_mode_label() {
    assert_eq!(LayoutMode::Dashboard.label(), "Dashboard");
    assert_eq!(LayoutMode::CpuFocus.label(), "CPU Focus");
    assert_eq!(LayoutMode::Horizontal.label(), "Horizontal");
}

#[test]
fn test_search_operations() {}
