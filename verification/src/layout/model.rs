//! The layout model: a tree of splits whose leaves are named widgets.

use vstd::prelude::*;

verus! {

/// The direction a split divides its area in.
#[derive(Clone, Copy, Debug, PartialEq, Eq, Structural)]
pub enum Direction {
    Horizontal,
    Vertical,
}

/// How much of a split an area takes.
#[derive(Clone, Copy, Debug, PartialEq, Eq, Structural)]
pub enum LayoutConstraint {
    /// A fixed number of cells.
    Length(u16),
    /// A percentage of the split.
    Percentage(u16),
    /// Whatever is left.
    Fill,
}

/// A node of a layout tree: a widget, or a split into sized areas.
#[derive(Debug)]
pub enum LayoutNode {
    Widget { name: String },
    Split { direction: Direction, areas: Vec<LayoutArea> },
}

/// One area of a split: its size and what fills it.
#[derive(Debug)]
pub struct LayoutArea {
    pub constraint: LayoutConstraint,
    pub node: LayoutNode,
}

/// A named layout.
#[derive(Debug)]
pub struct LayoutDef {
    pub name: String,
    pub root: LayoutNode,
}

/// A layout tree as a value.
pub enum NodeView {
    Widget(Seq<char>),
    Split(Direction, Seq<(LayoutConstraint, NodeView)>),
}

/// The value of a layout node.
pub open spec fn node_view(n: LayoutNode) -> NodeView
    decreases n,
{
    match n {
        LayoutNode::Widget { name } => NodeView::Widget(name@),
        LayoutNode::Split { direction, areas } => NodeView::Split(direction, areas_view(areas@)),
    }
}

/// The values of the areas of a split.
pub open spec fn areas_view(a: Seq<LayoutArea>) -> Seq<(LayoutConstraint, NodeView)>
    decreases a,
{
    if a.len() == 0 {
        Seq::empty()
    } else {
        seq![(a[0].constraint, node_view(a[0].node))] + areas_view(a.drop_first())
    }
}

/// The value of a split lists, in order, each area's constraint and value.
pub proof fn lemma_areas_view(a: Seq<LayoutArea>)
    ensures
        areas_view(a).len() == a.len(),
        forall|i: int| 0 <= i < a.len() ==> #[trigger] areas_view(a)[i] == (a[i].constraint, node_view(a[i].node)),
    decreases a.len(),
{
    if a.len() > 0 {
        lemma_areas_view(a.drop_first());
        assert forall|i: int| 0 <= i < a.len() implies #[trigger] areas_view(a)[i] == (a[i].constraint, node_view(a[i].node)) by {
            if i > 0 {
                assert(areas_view(a)[i] == areas_view(a.drop_first())[i - 1]);
            }
        }
    }
}

} // verus!
