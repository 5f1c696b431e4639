//! The built-in layouts, written as layout trees.

use vstd::prelude::*;
use crate::layout::mode::{lemma_mode_label_injective, mode_at, mode_index, mode_label, LayoutMode};
use crate::text::str_eq;
use crate::layout::model::{
    areas_view, lemma_areas_view, node_view, Direction, LayoutArea, LayoutConstraint, LayoutDef, LayoutNode, NodeView,
};

verus! {

/// A widget leaf as a value.
pub open spec fn widget_view(name: Seq<char>) -> NodeView {
    NodeView::Widget(name)
}

/// An area of `size` cells.
fn area(size: u16, node: LayoutNode) -> (a: LayoutArea)
    ensures
        a.constraint == LayoutConstraint::Length(size),
        a.node == node,
{
    LayoutArea { constraint: LayoutConstraint::Length(size), node }
}

/// An area of `pct` percent.
fn pct(percent: u16, node: LayoutNode) -> (a: LayoutArea)
    ensures
        a.constraint == LayoutConstraint::Percentage(percent),
        a.node == node,
{
    LayoutArea { constraint: LayoutConstraint::Percentage(percent), node }
}

/// An area taking what is left.
fn fill(node: LayoutNode) -> (a: LayoutArea)
    ensures
        a.constraint == LayoutConstraint::Fill,
        a.node == node,
{
    LayoutArea { constraint: LayoutConstraint::Fill, node }
}

/// A widget leaf.
fn widget(name: &str) -> (n: LayoutNode)
    ensures
        node_view(n) == widget_view(name@),
{
    LayoutNode::Widget { name: name.to_string() }
}

/// A split side by side.
fn split_h(areas: Vec<LayoutArea>) -> (n: LayoutNode)
    ensures
        node_view(n) == NodeView::Split(Direction::Horizontal, areas_view(areas@)),
{
    LayoutNode::Split { direction: Direction::Horizontal, areas }
}

/// A split one above the other.
fn split_v(areas: Vec<LayoutArea>) -> (n: LayoutNode)
    ensures
        node_view(n) == NodeView::Split(Direction::Vertical, areas_view(areas@)),
{
    LayoutNode::Split { direction: Direction::Vertical, areas }
}

/// The `Dashboard` layout tree.
pub open spec fn dashboard_view() -> NodeView {
    NodeView::Split(
        Direction::Vertical,
        seq![
            (LayoutConstraint::Length(3), widget_view("header"@)),
            (LayoutConstraint::Percentage(45), NodeView::Split(
                Direction::Horizontal,
                seq![
                    (LayoutConstraint::Percentage(50), widget_view("cpu"@)),
                    (LayoutConstraint::Percentage(50), NodeView::Split(
                        Direction::Vertical,
                        seq![
                            (LayoutConstraint::Percentage(33), widget_view("memory"@)),
                            (LayoutConstraint::Percentage(33), widget_view("storage"@)),
                            (LayoutConstraint::Percentage(34), widget_view("network"@)),
                        ],
                    )),
                ],
            )),
            (LayoutConstraint::Percentage(52), widget_view("processes"@)),
        ],
    )
}

fn dashboard_layout() -> (d: LayoutDef)
    ensures
        d.name@ == "Dashboard"@,
        node_view(d.root) == dashboard_view(),
{
    let areas1 = vec![pct(33, widget("memory")), pct(33, widget("storage")), pct(34, widget("network"))];
    proof {
        lemma_areas_view(areas1@);
        assert(areas_view(areas1@) =~= seq![(LayoutConstraint::Percentage(33), widget_view("memory"@)), (LayoutConstraint::Percentage(33), widget_view("storage"@)), (LayoutConstraint::Percentage(34), widget_view("network"@))]);
    }
    let node2 = split_v(areas1);
    let areas3 = vec![pct(50, widget("cpu")), pct(50, node2)];
    proof {
        lemma_areas_view(areas3@);
        assert(areas_view(areas3@) =~= seq![(LayoutConstraint::Percentage(50), widget_view("cpu"@)), (LayoutConstraint::Percentage(50), node_view(areas3@[1].node))]);
    }
    let node4 = split_h(areas3);
    let areas5 = vec![area(3, widget("header")), pct(45, node4), pct(52, widget("processes"))];
    proof {
        lemma_areas_view(areas5@);
        assert(areas_view(areas5@) =~= seq![(LayoutConstraint::Length(3), widget_view("header"@)), (LayoutConstraint::Percentage(45), node_view(areas5@[1].node)), (LayoutConstraint::Percentage(52), widget_view("processes"@))]);
    }
    let node6 = split_v(areas5);
    LayoutDef { name: "Dashboard".to_string(), root: node6 }
}

/// The `Vertical` layout tree.
pub open spec fn vertical_view() -> NodeView {
    NodeView::Split(
        Direction::Vertical,
        seq![
            (LayoutConstraint::Length(3), widget_view("header"@)),
            (LayoutConstraint::Length(8), widget_view("cpu"@)),
            (LayoutConstraint::Length(8), widget_view("memory"@)),
            (LayoutConstraint::Length(6), widget_view("storage"@)),
            (LayoutConstraint::Length(5), widget_view("network"@)),
            (LayoutConstraint::Fill, widget_view("processes"@)),
        ],
    )
}

fn vertical_layout() -> (d: LayoutDef)
    ensures
        d.name@ == "Vertical"@,
        node_view(d.root) == vertical_view(),
{
    let areas7 = vec![area(3, widget("header")), area(8, widget("cpu")), area(8, widget("memory")), area(6, widget("storage")), area(5, widget("network")), fill(widget("processes"))];
    proof {
        lemma_areas_view(areas7@);
        assert(areas_view(areas7@) =~= seq![(LayoutConstraint::Length(3), widget_view("header"@)), (LayoutConstraint::Length(8), widget_view("cpu"@)), (LayoutConstraint::Length(8), widget_view("memory"@)), (LayoutConstraint::Length(6), widget_view("storage"@)), (LayoutConstraint::Length(5), widget_view("network"@)), (LayoutConstraint::Fill, widget_view("processes"@))]);
    }
    let node8 = split_v(areas7);
    LayoutDef { name: "Vertical".to_string(), root: node8 }
}

/// The `Horizontal` layout tree.
pub open spec fn horizontal_view() -> NodeView {
    NodeView::Split(
        Direction::Vertical,
        seq![
            (LayoutConstraint::Length(3), widget_view("header"@)),
            (LayoutConstraint::Fill, NodeView::Split(
                Direction::Horizontal,
                seq![
                    (LayoutConstraint::Percentage(25), widget_view("cpu"@)),
                    (LayoutConstraint::Percentage(25), widget_view("memory"@)),
                    (LayoutConstraint::Percentage(25), widget_view("storage"@)),
                    (LayoutConstraint::Percentage(25), widget_view("network"@)),
                ],
            )),
        ],
    )
}

fn horizontal_layout() -> (d: LayoutDef)
    ensures
        d.name@ == "Horizontal"@,
        node_view(d.root) == horizontal_view(),
{
    let areas9 = vec![pct(25, widget("cpu")), pct(25, widget("memory")), pct(25, widget("storage")), pct(25, widget("network"))];
    proof {
        lemma_areas_view(areas9@);
        assert(areas_view(areas9@) =~= seq![(LayoutConstraint::Percentage(25), widget_view("cpu"@)), (LayoutConstraint::Percentage(25), widget_view("memory"@)), (LayoutConstraint::Percentage(25), widget_view("storage"@)), (LayoutConstraint::Percentage(25), widget_view("network"@))]);
    }
    let node10 = split_h(areas9);
    let areas11 = vec![area(3, widget("header")), fill(node10)];
    proof {
        lemma_areas_view(areas11@);
        assert(areas_view(areas11@) =~= seq![(LayoutConstraint::Length(3), widget_view("header"@)), (LayoutConstraint::Fill, node_view(areas11@[1].node))]);
    }
    let node12 = split_v(areas11);
    LayoutDef { name: "Horizontal".to_string(), root: node12 }
}

/// The `CPU Focus` layout tree.
pub open spec fn cpu_focus_view() -> NodeView {
    NodeView::Split(
        Direction::Vertical,
        seq![
            (LayoutConstraint::Length(3), widget_view("header"@)),
            (LayoutConstraint::Percentage(60), widget_view("cpu"@)),
            (LayoutConstraint::Fill, widget_view("processes"@)),
        ],
    )
}

fn cpu_focus_layout() -> (d: LayoutDef)
    ensures
        d.name@ == "CPU Focus"@,
        node_view(d.root) == cpu_focus_view(),
{
    let areas13 = vec![area(3, widget("header")), pct(60, widget("cpu")), fill(widget("processes"))];
    proof {
        lemma_areas_view(areas13@);
        assert(areas_view(areas13@) =~= seq![(LayoutConstraint::Length(3), widget_view("header"@)), (LayoutConstraint::Percentage(60), widget_view("cpu"@)), (LayoutConstraint::Fill, widget_view("processes"@))]);
    }
    let node14 = split_v(areas13);
    LayoutDef { name: "CPU Focus".to_string(), root: node14 }
}

/// The `Memory Focus` layout tree.
pub open spec fn memory_focus_view() -> NodeView {
    NodeView::Split(
        Direction::Vertical,
        seq![
            (LayoutConstraint::Length(3), widget_view("header"@)),
            (LayoutConstraint::Percentage(60), widget_view("memory"@)),
            (LayoutConstraint::Fill, widget_view("processes"@)),
        ],
    )
}

fn memory_focus_layout() -> (d: LayoutDef)
    ensures
        d.name@ == "Memory Focus"@,
        node_view(d.root) == memory_focus_view(),
{
    let areas15 = vec![area(3, widget("header")), pct(60, widget("memory")), fill(widget("processes"))];
    proof {
        lemma_areas_view(areas15@);
        assert(areas_view(areas15@) =~= seq![(LayoutConstraint::Length(3), widget_view("header"@)), (LayoutConstraint::Percentage(60), widget_view("memory"@)), (LayoutConstraint::Fill, widget_view("processes"@))]);
    }
    let node16 = split_v(areas15);
    LayoutDef { name: "Memory Focus".to_string(), root: node16 }
}

/// The `Network Focus` layout tree.
pub open spec fn network_focus_view() -> NodeView {
    NodeView::Split(
        Direction::Vertical,
        seq![
            (LayoutConstraint::Length(3), widget_view("header"@)),
            (LayoutConstraint::Percentage(50), NodeView::Split(
                Direction::Horizontal,
                seq![
                    (LayoutConstraint::Percentage(50), widget_view("network"@)),
                    (LayoutConstraint::Percentage(50), widget_view("disk_io"@)),
                ],
            )),
            (LayoutConstraint::Fill, widget_view("processes"@)),
        ],
    )
}

fn network_focus_layout() -> (d: LayoutDef)
    ensures
        d.name@ == "Network Focus"@,
        node_view(d.root) == network_focus_view(),
{
    let areas17 = vec![pct(50, widget("network")), pct(50, widget("disk_io"))];
    proof {
        lemma_areas_view(areas17@);
        assert(areas_view(areas17@) =~= seq![(LayoutConstraint::Percentage(50), widget_view("network"@)), (LayoutConstraint::Percentage(50), widget_view("disk_io"@))]);
    }
    let node18 = split_h(areas17);
    let areas19 = vec![area(3, widget("header")), pct(50, node18), fill(widget("processes"))];
    proof {
        lemma_areas_view(areas19@);
        assert(areas_view(areas19@) =~= seq![(LayoutConstraint::Length(3), widget_view("header"@)), (LayoutConstraint::Percentage(50), node_view(areas19@[1].node)), (LayoutConstraint::Fill, widget_view("processes"@))]);
    }
    let node20 = split_v(areas19);
    LayoutDef { name: "Network Focus".to_string(), root: node20 }
}

/// The `Process Focus` layout tree.
pub open spec fn process_focus_view() -> NodeView {
    NodeView::Split(
        Direction::Vertical,
        seq![
            (LayoutConstraint::Length(3), widget_view("header"@)),
            (LayoutConstraint::Length(8), NodeView::Split(
                Direction::Horizontal,
                seq![
                    (LayoutConstraint::Percentage(25), widget_view("cpu"@)),
                    (LayoutConstraint::Percentage(25), widget_view("memory"@)),
                    (LayoutConstraint::Percentage(25), widget_view("storage"@)),
                    (LayoutConstraint::Percentage(25), widget_view("network"@)),
                ],
            )),
            (LayoutConstraint::Fill, widget_view("processes"@)),
        ],
    )
}

fn process_focus_layout() -> (d: LayoutDef)
    ensures
        d.name@ == "Process Focus"@,
        node_view(d.root) == process_focus_view(),
{
    let areas21 = vec![pct(25, widget("cpu")), pct(25, widget("memory")), pct(25, widget("storage")), pct(25, widget("network"))];
    proof {
        lemma_areas_view(areas21@);
        assert(areas_view(areas21@) =~= seq![(LayoutConstraint::Percentage(25), widget_view("cpu"@)), (LayoutConstraint::Percentage(25), widget_view("memory"@)), (LayoutConstraint::Percentage(25), widget_view("storage"@)), (LayoutConstraint::Percentage(25), widget_view("network"@))]);
    }
    let node22 = split_h(areas21);
    let areas23 = vec![area(3, widget("header")), area(8, node22), fill(widget("processes"))];
    proof {
        lemma_areas_view(areas23@);
        assert(areas_view(areas23@) =~= seq![(LayoutConstraint::Length(3), widget_view("header"@)), (LayoutConstraint::Length(8), node_view(areas23@[1].node)), (LayoutConstraint::Fill, widget_view("processes"@))]);
    }
    let node24 = split_v(areas23);
    LayoutDef { name: "Process Focus".to_string(), root: node24 }
}

/// The value of built-in layout `i` (in the order of the layout modes).
pub open spec fn builtin_view(i: int) -> NodeView {
    if i == 0 {
        dashboard_view()
    } else if i == 1 {
        vertical_view()
    } else if i == 2 {
        horizontal_view()
    } else if i == 3 {
        cpu_focus_view()
    } else if i == 4 {
        memory_focus_view()
    } else if i == 5 {
        network_focus_view()
    } else {
        process_focus_view()
    }
}

/// The seven built-in layouts, one per layout mode, in the order of the
/// modes and named by their labels.
pub fn builtin_layouts() -> (v: Vec<LayoutDef>)
    ensures
        v@.len() == 7,
        forall|i: int| 0 <= i < 7 ==> #[trigger] v@[i].name@ == mode_label(mode_at(i)),
        forall|i: int| 0 <= i < 7 ==> node_view(#[trigger] v@[i].root) == builtin_view(i),
{
    let v = vec![
        dashboard_layout(),
        vertical_layout(),
        horizontal_layout(),
        cpu_focus_layout(),
        memory_focus_layout(),
        network_focus_layout(),
        process_focus_layout(),
    ];
    v
}

/// Position of the first layout called `name` at or after `i`.
pub open spec fn first_layout_from(defs: Seq<LayoutDef>, name: Seq<char>, i: int) -> Option<int>
    decreases defs.len() - i,
{
    if i < 0 || i >= defs.len() {
        None
    } else if defs[i].name@ == name {
        Some(i)
    } else {
        first_layout_from(defs, name, i + 1)
    }
}

/// Position of the layout that shows `mode`: the first layout named like the
/// mode's label, or 0 when there is none.
pub open spec fn spec_layout_index(mode: LayoutMode, defs: Seq<LayoutDef>) -> int {
    match first_layout_from(defs, mode_label(mode), 0) {
        Some(i) => i,
        None => 0,
    }
}

/// Position, in a list of layouts, of the layout that shows a layout mode
/// (the first one named like the mode's label; 0 when there is none).
pub fn layout_index_from_mode(mode: LayoutMode, defs: &[LayoutDef]) -> (r: usize)
    ensures
        r == spec_layout_index(mode, defs@),
{
    let label = mode.label();
    for i in 0..defs.len()
        invariant
            label@ == mode_label(mode),
            first_layout_from(defs@, label@, 0) == first_layout_from(defs@, label@, i as int),
    {
        if str_eq(defs[i].name.as_str(), label) {
            return i;
        }
    }
    0
}

/// With the built-in layouts, looking up the layout of a mode and reading the
/// mode back from that position gives the mode again: the saved layout
/// position and the layout mode never disagree.
pub proof fn lemma_builtin_layout_round_trip(m: LayoutMode, defs: Seq<LayoutDef>)
    requires
        defs.len() == 7,
        forall|i: int| 0 <= i < 7 ==> #[trigger] defs[i].name@ == mode_label(mode_at(i)),
    ensures
        mode_at(spec_layout_index(m, defs)) == m,
{
    let k = mode_index(m);
    assert(mode_at(k) == m);
    assert forall|j: int| 0 <= j < k implies #[trigger] defs[j].name@ != mode_label(m) by {
        lemma_mode_label_injective(mode_at(j), m);
    }
    lemma_first_layout_prefix(defs, mode_label(m), 0, k);
}

proof fn lemma_first_layout_prefix(defs: Seq<LayoutDef>, name: Seq<char>, i: int, k: int)
    requires
        0 <= i <= k < defs.len(),
        defs[k].name@ == name,
        forall|j: int| 0 <= j < k ==> #[trigger] defs[j].name@ != name,
    ensures
        first_layout_from(defs, name, i) == Some(k),
    decreases k - i,
{
    if i < k {
        lemma_first_layout_prefix(defs, name, i + 1, k);
    }
}

} // verus!
