//! Layout modes and effective-layout detection.

use vstd::prelude::*;

verus! {

/// The layout a user asks for.
#[derive(Clone, Copy, Debug, PartialEq, Eq, Structural)]
pub enum LayoutMode {
    Dashboard,
    Vertical,
    Horizontal,
    CpuFocus,
    MemoryFocus,
    NetworkFocus,
    ProcessFocus,
}

/// Position of a mode in the cycling order.
pub open spec fn mode_index(m: LayoutMode) -> int {
    match m {
        LayoutMode::Dashboard => 0,
        LayoutMode::Vertical => 1,
        LayoutMode::Horizontal => 2,
        LayoutMode::CpuFocus => 3,
        LayoutMode::MemoryFocus => 4,
        LayoutMode::NetworkFocus => 5,
        LayoutMode::ProcessFocus => 6,
    }
}

/// The mode at a position of the cycling order (indices past the end give Dashboard).
pub open spec fn mode_at(i: int) -> LayoutMode {
    if i == 1 {
        LayoutMode::Vertical
    } else if i == 2 {
        LayoutMode::Horizontal
    } else if i == 3 {
        LayoutMode::CpuFocus
    } else if i == 4 {
        LayoutMode::MemoryFocus
    } else if i == 5 {
        LayoutMode::NetworkFocus
    } else if i == 6 {
        LayoutMode::ProcessFocus
    } else {
        LayoutMode::Dashboard
    }
}

impl LayoutMode {
    /// The next mode in the cycle Dashboard, Vertical, Horizontal, CPU, Memory,
    /// Network, Process, and back to Dashboard.
    pub fn next(self) -> (r: Self)
        ensures
            r == spec_next_mode(self),
    {
        match self {
            LayoutMode::Dashboard => LayoutMode::Vertical,
            LayoutMode::Vertical => LayoutMode::Horizontal,
            LayoutMode::Horizontal => LayoutMode::CpuFocus,
            LayoutMode::CpuFocus => LayoutMode::MemoryFocus,
            LayoutMode::MemoryFocus => LayoutMode::NetworkFocus,
            LayoutMode::NetworkFocus => LayoutMode::ProcessFocus,
            LayoutMode::ProcessFocus => LayoutMode::Dashboard,
        }
    }
}

/// The display label of a mode.
pub open spec fn mode_label(m: LayoutMode) -> Seq<char> {
    match m {
        LayoutMode::Dashboard => "Dashboard"@,
        LayoutMode::Vertical => "Vertical"@,
        LayoutMode::Horizontal => "Horizontal"@,
        LayoutMode::CpuFocus => "CPU Focus"@,
        LayoutMode::MemoryFocus => "Memory Focus"@,
        LayoutMode::NetworkFocus => "Network Focus"@,
        LayoutMode::ProcessFocus => "Process Focus"@,
    }
}

impl LayoutMode {
    /// The human readable name of the mode, as shown in the header and help.
    pub fn label(self) -> (r: &'static str)
        ensures
            r@ == mode_label(self),
    {
        match self {
            LayoutMode::Dashboard => "Dashboard",
            LayoutMode::Vertical => "Vertical",
            LayoutMode::Horizontal => "Horizontal",
            LayoutMode::CpuFocus => "CPU Focus",
            LayoutMode::MemoryFocus => "Memory Focus",
            LayoutMode::NetworkFocus => "Network Focus",
            LayoutMode::ProcessFocus => "Process Focus",
        }
    }
}

/// The layout actually drawn, after the terminal size has been taken into account.
#[derive(Clone, Copy, Debug, PartialEq, Eq, Structural)]
pub enum EffectiveLayout {
    Dashboard,
    Compact,
    Vertical,
    Horizontal,
    CpuFocus,
    MemoryFocus,
    NetworkFocus,
    ProcessFocus,
    Minimal,
}

/// The layout drawn for a terminal of `width` x `height` cells when the user
/// asked for `user_mode`.
pub open spec fn spec_effective_layout(width: int, height: int, user_mode: LayoutMode) -> EffectiveLayout {
    if width < 60 || height < 14 {
        EffectiveLayout::Minimal
    } else {
        match user_mode {
            LayoutMode::Dashboard => if width < 80 {
                EffectiveLayout::Vertical
            } else if width < 100 || height < 28 {
                EffectiveLayout::Compact
            } else {
                EffectiveLayout::Dashboard
            },
            LayoutMode::Vertical => EffectiveLayout::Vertical,
            LayoutMode::Horizontal => EffectiveLayout::Horizontal,
            LayoutMode::CpuFocus => EffectiveLayout::CpuFocus,
            LayoutMode::MemoryFocus => EffectiveLayout::MemoryFocus,
            LayoutMode::NetworkFocus => EffectiveLayout::NetworkFocus,
            LayoutMode::ProcessFocus => EffectiveLayout::ProcessFocus,
        }
    }
}

/// Degrade the requested layout to one that fits the terminal: anything
/// narrower than 60 or lower than 14 cells is drawn minimal; the dashboard
/// falls back to the vertical stack below 80 columns and to the compact
/// dashboard below 100 columns or 28 rows; focus modes are kept as asked.
pub fn detect_effective_layout(width: u16, height: u16, user_mode: LayoutMode) -> (r: EffectiveLayout)
    ensures
        r == spec_effective_layout(width as int, height as int, user_mode),
{
    if width < 60 || height < 14 {
        return EffectiveLayout::Minimal;
    }
    match user_mode {
        LayoutMode::Dashboard => {
            if width < 80 {
                EffectiveLayout::Vertical
            } else if width < 100 || height < 28 {
                EffectiveLayout::Compact
            } else {
                EffectiveLayout::Dashboard
            }
        },
        LayoutMode::Vertical => EffectiveLayout::Vertical,
        LayoutMode::Horizontal => EffectiveLayout::Horizontal,
        LayoutMode::CpuFocus => EffectiveLayout::CpuFocus,
        LayoutMode::MemoryFocus => EffectiveLayout::MemoryFocus,
        LayoutMode::NetworkFocus => EffectiveLayout::NetworkFocus,
        LayoutMode::ProcessFocus => EffectiveLayout::ProcessFocus,
    }
}

/// The layout mode stored at a position of the built-in layout list
/// (positions past the built-ins map to Dashboard).
pub fn mode_from_layout_index(index: usize) -> (r: LayoutMode)
    ensures
        r == mode_at(index as int),
{
    match index {
        0 => LayoutMode::Dashboard,
        1 => LayoutMode::Vertical,
        2 => LayoutMode::Horizontal,
        3 => LayoutMode::CpuFocus,
        4 => LayoutMode::MemoryFocus,
        5 => LayoutMode::NetworkFocus,
        6 => LayoutMode::ProcessFocus,
        _ => LayoutMode::Dashboard,
    }
}

/// One step of the layout cycle.
pub open spec fn spec_next_mode(m: LayoutMode) -> LayoutMode {
    mode_at((mode_index(m) + 1) % 7)
}

/// `n` steps of the layout cycle.
pub open spec fn next_mode_n(m: LayoutMode, n: nat) -> LayoutMode
    decreases n,
{
    if n == 0 {
        m
    } else {
        spec_next_mode(next_mode_n(m, (n - 1) as nat))
    }
}

proof fn lemma_next_mode_n_position(m: LayoutMode, n: nat)
    ensures
        next_mode_n(m, n) == mode_at((mode_index(m) + n) % 7),
    decreases n,
{
    if n > 0 {
        lemma_next_mode_n_position(m, (n - 1) as nat);
        let j = (mode_index(m) + n - 1) % 7;
        assert(mode_index(mode_at(j)) == j);
        assert((j + 1) % 7 == (mode_index(m) + n) % 7);
    }
}

/// Cycling through the layout modes with `next` returns to the start after
/// seven steps and not before: every mode is visited once per round.
pub proof fn lemma_layout_mode_cycle(m: LayoutMode)
    ensures
        next_mode_n(m, 7) == m,
        forall|k: nat| 0 < k < 7 ==> #[trigger] next_mode_n(m, k) != m,
{
    lemma_next_mode_n_position(m, 7);
    assert forall|k: nat| 0 < k < 7 implies #[trigger] next_mode_n(m, k) != m by {
        lemma_next_mode_n_position(m, k);
        assert(mode_index(mode_at((mode_index(m) + k) % 7)) == (mode_index(m) + k) % 7);
    }
}

/// Distinct modes have distinct labels, so a label names one mode.
pub proof fn lemma_mode_label_injective(a: LayoutMode, b: LayoutMode)
    ensures
        mode_label(a) == mode_label(b) ==> a == b,
{
    reveal_strlit("Dashboard");
    reveal_strlit("Vertical");
    reveal_strlit("Horizontal");
    reveal_strlit("CPU Focus");
    reveal_strlit("Memory Focus");
    reveal_strlit("Network Focus");
    reveal_strlit("Process Focus");
    if mode_label(a) == mode_label(b) && a != b {
        assert(mode_label(a).len() != mode_label(b).len() || mode_label(a)[0] != mode_label(b)[0]
            || mode_label(a)[1] != mode_label(b)[1]);
    }
}

/// A terminal of at least 60 x 14 cells draws every mode other than the
/// dashboard as itself, and the dashboard as itself from 100 x 28 cells on
/// (vertical below 80 columns, compact otherwise); a smaller terminal draws
/// the minimal layout whatever the mode.
pub proof fn lemma_effective_layout_keeps_mode(width: int, height: int)
    ensures
        width < 60 || height < 14 ==> forall|m: LayoutMode| spec_effective_layout(width, height, m)
            == EffectiveLayout::Minimal,
        width >= 60 && height >= 14 ==> {
            &&& spec_effective_layout(width, height, LayoutMode::Vertical) == EffectiveLayout::Vertical
            &&& spec_effective_layout(width, height, LayoutMode::Horizontal) == EffectiveLayout::Horizontal
            &&& spec_effective_layout(width, height, LayoutMode::CpuFocus) == EffectiveLayout::CpuFocus
            &&& spec_effective_layout(width, height, LayoutMode::MemoryFocus) == EffectiveLayout::MemoryFocus
            &&& spec_effective_layout(width, height, LayoutMode::NetworkFocus) == EffectiveLayout::NetworkFocus
            &&& spec_effective_layout(width, height, LayoutMode::ProcessFocus) == EffectiveLayout::ProcessFocus
            &&& spec_effective_layout(width, height, LayoutMode::Dashboard) == if width < 80 {
                EffectiveLayout::Vertical
            } else if width < 100 || height < 28 {
                EffectiveLayout::Compact
            } else {
                EffectiveLayout::Dashboard
            }
        },
{
}

/// Distinct modes other than the dashboard are drawn differently once the
/// terminal is large enough.
pub proof fn lemma_effective_layout_injective(width: int, height: int, a: LayoutMode, b: LayoutMode)
    requires
        width >= 60,
        height >= 14,
        a != LayoutMode::Dashboard,
        b != LayoutMode::Dashboard,
        a != b,
    ensures
        spec_effective_layout(width, height, a) != spec_effective_layout(width, height, b),
{
}

} // verus!
