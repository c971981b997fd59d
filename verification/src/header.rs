//! Multi-level headers.
//!
//! The authoring API is a tree; the table consumes a flat list. Groups are
//! presentation only -- the leaves are the real columns, and they own sizing,
//! alignment and the sort control.

use vstd::prelude::*;
use crate::px::Px;
use crate::sizing::{Sizing, DEFAULT_MIN, UNBOUNDED};

verus! {

/// Where a column's contents sit across its width.
#[derive(Debug, Clone, Copy, PartialEq, Eq, Structural)]
pub enum Align {
    Left,
    Center,
    Right,
}

/// Everything the layout pass needs to know about one leaf column.
#[derive(Debug, Clone, Copy, PartialEq)]
pub struct ColumnSpec {
    pub sizing: Sizing,
    pub align: Align,
    /// Draw a sort control in this column's header and let it be clicked.
    pub sortable: bool,
}

/// What a column is unless it says otherwise: it fits its contents, keeps them
/// at the left and cannot be sorted.
pub open spec fn plain_column() -> ColumnSpec {
    ColumnSpec {
        sizing: Sizing::Fit {
            min: (Px { bits: DEFAULT_MIN }),
            max: (Px { bits: UNBOUNDED }),
        },
        align: Align::Left,
        sortable: false,
    }
}

impl Default for ColumnSpec {
    fn default() -> (spec: Self)
        ensures
            spec == plain_column(),
    {
        ColumnSpec { sizing: Sizing::default(), align: Align::Left, sortable: false }
    }
}

impl ColumnSpec {
    pub fn sizing(self, sizing: Sizing) -> (spec: Self)
        ensures
            spec == (ColumnSpec { sizing, ..self }),
    {
        ColumnSpec { sizing, ..self }
    }

    pub fn align(self, align: Align) -> (spec: Self)
        ensures
            spec == (ColumnSpec { align, ..self }),
    {
        ColumnSpec { align, ..self }
    }

    pub fn sortable(self, sortable: bool) -> (spec: Self)
        ensures
            spec == (ColumnSpec { sortable, ..self }),
    {
        ColumnSpec { sortable, ..self }
    }
}

/// A node in the header tree: either a group covering other nodes, or a leaf
/// that corresponds to an actual column of data.
pub struct HeaderNode<C> {
    pub content: C,
    pub kind: NodeKind<C>,
    pub sticky: bool,
}

pub enum NodeKind<C> {
    Group(Vec<HeaderNode<C>>),
    Leaf(ColumnSpec),
}

/// A leaf header -- one real column.
pub fn leaf<C>(content: C) -> (node: HeaderNode<C>)
    ensures
        node == (HeaderNode { content, kind: NodeKind::Leaf(plain_column()), sticky: false }),
{
    HeaderNode { content, kind: NodeKind::Leaf(ColumnSpec::default()), sticky: false }
}

/// A group header spanning the columns beneath it.
pub fn group<C>(content: C, children: Vec<HeaderNode<C>>) -> (node: HeaderNode<C>)
    ensures
        node == (HeaderNode { content, kind: NodeKind::Group(children), sticky: false }),
{
    HeaderNode { content, kind: NodeKind::Group(children), sticky: false }
}

/// The node with its column as `change` makes it. A group has no column and
/// stays as it is.
pub open spec fn with_column<C>(
    node: HeaderNode<C>,
    change: spec_fn(ColumnSpec) -> ColumnSpec,
) -> HeaderNode<C> {
    match node.kind {
        NodeKind::Leaf(spec) => HeaderNode { kind: NodeKind::Leaf(change(spec)), ..node },
        NodeKind::Group(_) => node,
    }
}

impl<C> HeaderNode<C> {
    /// Set the sizing policy. No-op on group nodes -- groups do not own width,
    /// their leaves do.
    pub fn sizing(self, sizing: Sizing) -> (node: Self)
        ensures
            node == with_column(self, |spec: ColumnSpec| ColumnSpec { sizing, ..spec }),
    {
        match self.kind {
            NodeKind::Leaf(spec) => HeaderNode {
                content: self.content,
                kind: NodeKind::Leaf(spec.sizing(sizing)),
                sticky: self.sticky,
            },
            NodeKind::Group(children) => HeaderNode {
                content: self.content,
                kind: NodeKind::Group(children),
                sticky: self.sticky,
            },
        }
    }

    pub fn align(self, align: Align) -> (node: Self)
        ensures
            node == with_column(self, |spec: ColumnSpec| ColumnSpec { align, ..spec }),
    {
        match self.kind {
            NodeKind::Leaf(spec) => HeaderNode {
                content: self.content,
                kind: NodeKind::Leaf(spec.align(align)),
                sticky: self.sticky,
            },
            NodeKind::Group(children) => HeaderNode {
                content: self.content,
                kind: NodeKind::Group(children),
                sticky: self.sticky,
            },
        }
    }

    /// Give this column a sort control. No-op on a group -- a group spans
    /// several columns and there is no single ordering it could stand for.
    pub fn sortable(self) -> (node: Self)
        ensures
            node == with_column(self, |spec: ColumnSpec| ColumnSpec { sortable: true, ..spec }),
    {
        match self.kind {
            NodeKind::Leaf(spec) => HeaderNode {
                content: self.content,
                kind: NodeKind::Leaf(spec.sortable(true)),
                sticky: self.sticky,
            },
            NodeKind::Group(children) => HeaderNode {
                content: self.content,
                kind: NodeKind::Group(children),
                sticky: self.sticky,
            },
        }
    }

    /// Pin this node against the leading edge so it stays put while the rest of
    /// the table scrolls sideways.
    ///
    /// Freezing is **positional**: only an unbroken run of top-level nodes
    /// starting at the very first one is honoured -- see [`flatten`]. A sticky
    /// group takes every column beneath it.
    pub fn sticky(self) -> (node: Self)
        ensures
            node == (HeaderNode { sticky: true, ..self }),
    {
        HeaderNode { content: self.content, kind: self.kind, sticky: true }
    }

    /// Take a weighted share of leftover space.
    pub fn fill(self, weight: u16) -> (node: Self)
        ensures
            node == with_column(
                self,
                |spec: ColumnSpec|
                    ColumnSpec {
                        sizing: Sizing::Fill { weight, min: (Px { bits: DEFAULT_MIN }) },
                        ..spec
                    },
            ),
    {
        self.sizing(Sizing::Fill { weight, min: Px { bits: DEFAULT_MIN } })
    }

    /// Take exactly this width.
    pub fn fixed(self, width: Px) -> (node: Self)
        ensures
            node == with_column(
                self,
                |spec: ColumnSpec| ColumnSpec { sizing: Sizing::Fixed(width), ..spec },
            ),
    {
        self.sizing(Sizing::Fixed(width))
    }
}

/// Levels of a node: one for itself, plus those of its deepest child.
pub open spec fn depth<C>(node: HeaderNode<C>) -> nat
    decreases node,
{
    match node.kind {
        NodeKind::Leaf(_) => 1,
        NodeKind::Group(children) => 1 + forest_depth(children@),
    }
}

/// Levels of the deepest of several nodes; none where there is no node.
pub open spec fn forest_depth<C>(nodes: Seq<HeaderNode<C>>) -> nat
    decreases nodes,
{
    if nodes.len() == 0 {
        0
    } else {
        let rest = forest_depth(nodes.drop_last());
        let last = depth(nodes.last());
        if last > rest { last } else { rest }
    }
}

/// Leaf columns beneath a node.
pub open spec fn leaves<C>(node: HeaderNode<C>) -> nat
    decreases node,
{
    match node.kind {
        NodeKind::Leaf(_) => 1,
        NodeKind::Group(children) => forest_leaves(children@),
    }
}

/// Leaf columns beneath several nodes.
pub open spec fn forest_leaves<C>(nodes: Seq<HeaderNode<C>>) -> nat
    decreases nodes,
{
    if nodes.len() == 0 {
        0
    } else {
        forest_leaves(nodes.drop_last()) + leaves(nodes.last())
    }
}

/// Nodes in a tree, groups and leaves alike.
pub open spec fn nodes_in<C>(node: HeaderNode<C>) -> nat
    decreases node,
{
    match node.kind {
        NodeKind::Leaf(_) => 1,
        NodeKind::Group(children) => 1 + forest_nodes(children@),
    }
}

/// Nodes in several trees.
pub open spec fn forest_nodes<C>(nodes: Seq<HeaderNode<C>>) -> nat
    decreases nodes,
{
    if nodes.len() == 0 {
        0
    } else {
        forest_nodes(nodes.drop_last()) + nodes_in(nodes.last())
    }
}

/// How far past its first column a node's span runs.
///
/// One less than its leaves wherever the tree holds no empty group. An empty
/// group has no column of its own; it takes the boundary it stands on, which
/// is the first column after everything before it.
pub open spec fn reach<C>(node: HeaderNode<C>) -> nat
    decreases node,
{
    match node.kind {
        NodeKind::Leaf(_) => 0,
        NodeKind::Group(children) => forest_reach(children@),
    }
}

/// How far the last of several adjacent nodes runs past the first column of
/// them all.
pub open spec fn forest_reach<C>(nodes: Seq<HeaderNode<C>>) -> nat
    decreases nodes,
{
    if nodes.len() == 0 {
        0
    } else {
        forest_leaves(nodes.drop_last()) + reach(nodes.last())
    }
}

/// The column specs of a tree's leaves, left to right.
pub open spec fn specs<C>(node: HeaderNode<C>) -> Seq<ColumnSpec>
    decreases node,
{
    match node.kind {
        NodeKind::Leaf(spec) => seq![spec],
        NodeKind::Group(children) => forest_specs(children@),
    }
}

/// The column specs of several trees' leaves, left to right.
pub open spec fn forest_specs<C>(nodes: Seq<HeaderNode<C>>) -> Seq<ColumnSpec>
    decreases nodes,
{
    if nodes.len() == 0 {
        seq![]
    } else {
        forest_specs(nodes.drop_last()) + specs(nodes.last())
    }
}

/// The contents of a tree, each group before what is beneath it.
pub open spec fn contents<C>(node: HeaderNode<C>) -> Seq<C>
    decreases node,
{
    match node.kind {
        NodeKind::Leaf(_) => seq![node.content],
        NodeKind::Group(children) => seq![node.content] + forest_contents(children@),
    }
}

/// The contents of several trees, one tree after the other.
pub open spec fn forest_contents<C>(nodes: Seq<HeaderNode<C>>) -> Seq<C>
    decreases nodes,
{
    if nodes.len() == 0 {
        seq![]
    } else {
        forest_contents(nodes.drop_last()) + contents(nodes.last())
    }
}

/// The shape of a node, with its children as a mathematical sequence.
pub enum Tree<C> {
    Leaf { content: C, spec: ColumnSpec, sticky: bool },
    Group { content: C, children: Seq<Tree<C>>, sticky: bool },
}

/// The shape of a node.
pub open spec fn tree_of<C>(node: HeaderNode<C>) -> Tree<C>
    decreases node,
{
    match node.kind {
        NodeKind::Leaf(spec) => Tree::Leaf { content: node.content, spec, sticky: node.sticky },
        NodeKind::Group(children) => Tree::Group {
            content: node.content,
            children: trees_of(children@),
            sticky: node.sticky,
        },
    }
}

/// The shapes of several nodes.
pub open spec fn trees_of<C>(nodes: Seq<HeaderNode<C>>) -> Seq<Tree<C>>
    decreases nodes,
{
    if nodes.len() == 0 {
        seq![]
    } else {
        trees_of(nodes.drop_last()).push(tree_of(nodes.last()))
    }
}

/// One header element after flattening, positioned in the header grid.
#[derive(Debug, Clone, Copy, PartialEq, Eq, Structural)]
pub struct HeaderCell {
    /// Index into the flattened header element list.
    pub element: usize,
    /// First leaf column covered, inclusive.
    pub start: usize,
    /// Last leaf column covered, inclusive.
    pub end: usize,
    /// Header row this cell's *label* sits on, 0 = topmost.
    pub row: usize,
    /// How many header rows the label band occupies.
    pub row_span: usize,
    /// Topmost row this cell owns.
    ///
    /// Differs from [`row`](Self::row) only for a group that was pushed down to
    /// meet shallower children: the blank band above it still belongs to it.
    pub top: usize,
    /// True for a real column. Deliberately not derived from `start == end` --
    /// a group with a single child covers one column and would be mistaken for
    /// the column itself.
    pub leaf: bool,
    /// Index into `cells` of the group this node hangs off, or `None` at the
    /// top level.
    pub parent: Option<usize>,
}

/// The row a node's label sits on: as low as its own levels allow, and never
/// above `natural`, the row immediately below its parent's label.
pub open spec fn label_row<C>(node: HeaderNode<C>, total: nat, natural: nat) -> nat {
    let lowest = if total > depth(node) { (total - depth(node)) as nat } else { 0 };

    if lowest > natural { lowest } else { natural }
}

/// The cells of a tree, each group before what is beneath it, where the first
/// has index `at` and the leftmost leaf is column `column`.
pub open spec fn node_cells<C>(
    node: HeaderNode<C>,
    total: nat,
    natural: nat,
    parent: Option<usize>,
    at: nat,
    column: nat,
) -> Seq<HeaderCell>
    decreases node,
{
    match node.kind {
        // A leaf claims every row from where its parent stops down to the body.
        NodeKind::Leaf(_) => seq![
            HeaderCell {
                element: at as usize,
                start: column as usize,
                end: column as usize,
                row: natural as usize,
                row_span: (if total > natural { total - natural } else { 1 }) as usize,
                top: natural as usize,
                leaf: true,
                parent,
            },
        ],
        // A group claims the rows from where its parent stops down to its
        // label, and its children hang off that label.
        NodeKind::Group(children) => {
            let row = label_row(node, total, natural);

            seq![
                HeaderCell {
                    element: at as usize,
                    start: column as usize,
                    end: (column + reach(node)) as usize,
                    row: row as usize,
                    row_span: 1,
                    top: natural as usize,
                    leaf: false,
                    parent,
                },
            ] + forest_cells(children@, total, row + 1, Some(at as usize), at + 1, column)
        },
    }
}

/// The cells of several adjacent trees under one parent, one tree after the
/// other.
pub open spec fn forest_cells<C>(
    nodes: Seq<HeaderNode<C>>,
    total: nat,
    natural: nat,
    parent: Option<usize>,
    at: nat,
    column: nat,
) -> Seq<HeaderCell>
    decreases nodes,
{
    if nodes.len() == 0 {
        seq![]
    } else {
        let before = nodes.drop_last();

        forest_cells(before, total, natural, parent, at, column) + node_cells(
            nodes.last(),
            total,
            natural,
            parent,
            at + forest_nodes(before),
            column + forest_leaves(before),
        )
    }
}

/// Length of the leading run of sticky nodes.
pub open spec fn sticky_run<C>(nodes: Seq<HeaderNode<C>>) -> nat
    decreases nodes.len(),
{
    if nodes.len() == 0 || !nodes[0].sticky {
        0
    } else {
        1 + sticky_run(nodes.drop_first())
    }
}

/// Columns that are frozen: those of the leading run of sticky nodes.
pub open spec fn frozen_columns<C>(nodes: Seq<HeaderNode<C>>) -> nat {
    forest_leaves(nodes.take(sticky_run(nodes) as int))
}

/// Rows of the header over these nodes. A header without nodes still has one.
pub open spec fn header_rows<C>(nodes: Seq<HeaderNode<C>>) -> nat {
    if nodes.len() == 0 { 1 } else { forest_depth(nodes) }
}

/// The result of flattening the header tree.
pub struct Flattened<C> {
    pub elements: Vec<C>,
    pub cells: Vec<HeaderCell>,
    pub columns: Vec<ColumnSpec>,
    pub rows: usize,
    /// How many leading leaf columns are frozen. Always a prefix, so every
    /// header cell is either wholly inside it or wholly outside.
    pub sticky_columns: usize,
}

/// A tree's levels, leaves and span are no more than its nodes.
proof fn nodes_bound_the_rest<C>(node: HeaderNode<C>)
    ensures
        1 <= depth(node) <= nodes_in(node),
        leaves(node) <= nodes_in(node),
        reach(node) <= leaves(node),
    decreases node,
{
    if let NodeKind::Group(children) = node.kind {
        forest_nodes_bound_the_rest(children@);
    }
}

proof fn forest_nodes_bound_the_rest<C>(nodes: Seq<HeaderNode<C>>)
    ensures
        forest_depth(nodes) <= forest_nodes(nodes),
        forest_leaves(nodes) <= forest_nodes(nodes),
        forest_reach(nodes) <= forest_leaves(nodes),
        nodes.len() > 0 ==> forest_depth(nodes) >= 1,
    decreases nodes,
{
    if nodes.len() > 0 {
        forest_nodes_bound_the_rest(nodes.drop_last());
        nodes_bound_the_rest(nodes.last());
    }
}

/// The first nodes of several, and the next one, are no deeper and hold no
/// more than all of them.
proof fn forest_prefix_bounds<C>(nodes: Seq<HeaderNode<C>>, count: int)
    requires
        0 <= count < nodes.len(),
    ensures
        forest_depth(nodes.take(count)) <= forest_depth(nodes),
        depth(nodes[count]) <= forest_depth(nodes),
        forest_leaves(nodes.take(count)) + leaves(nodes[count]) <= forest_leaves(nodes),
        forest_nodes(nodes.take(count)) + nodes_in(nodes[count]) <= forest_nodes(nodes),
        nodes.take(count + 1).drop_last() =~= nodes.take(count),
        nodes.take(count + 1).last() == nodes[count],
    decreases nodes.len(),
{
    if count + 1 < nodes.len() {
        forest_prefix_bounds(nodes.drop_last(), count);
        assert(nodes.drop_last().take(count) =~= nodes.take(count));
    } else {
        assert(nodes.drop_last() =~= nodes.take(count));
    }
}

fn leaf_count<C>(node: &HeaderNode<C>) -> (count: usize)
    requires
        nodes_in(*node) <= usize::MAX,
    ensures
        count == leaves(*node),
    decreases node,
{
    match &node.kind {
        NodeKind::Leaf(_) => 1,
        NodeKind::Group(children) => {
            let mut count: usize = 0;

            for i in 0..children.len()
                invariant
                    node.kind == NodeKind::Group(*children),
                    nodes_in(*node) <= usize::MAX,
                    count == forest_leaves(children@.take(i as int)),
            {
                proof {
                    forest_nodes_bound_the_rest(children@);
                    forest_prefix_bounds(children@, i as int);
                }
                count = count + leaf_count(&children[i]);
            }
            proof {
                assert(children@.take(children@.len() as int) =~= children@);
            }
            count
        },
    }
}

fn max_depth<C>(node: &HeaderNode<C>) -> (levels: usize)
    requires
        nodes_in(*node) <= usize::MAX,
    ensures
        levels == depth(*node),
    decreases node,
{
    match &node.kind {
        NodeKind::Leaf(_) => 1,
        NodeKind::Group(children) => {
            let mut deepest: usize = 0;

            for i in 0..children.len()
                invariant
                    node.kind == NodeKind::Group(*children),
                    nodes_in(*node) <= usize::MAX,
                    deepest == forest_depth(children@.take(i as int)),
            {
                proof {
                    forest_prefix_bounds(children@, i as int);
                }
                let levels: usize = max_depth(&children[i]);
                if levels > deepest {
                    deepest = levels;
                }
            }
            proof {
                assert(children@.take(children@.len() as int) =~= children@);
                nodes_bound_the_rest(*node);
            }
            1 + deepest
        },
    }
}

proof fn lengths<C>(node: HeaderNode<C>, total: nat, natural: nat, parent: Option<usize>, at: nat, column: nat)
    ensures
        contents(node).len() == nodes_in(node),
        specs(node).len() == leaves(node),
        node_cells(node, total, natural, parent, at, column).len() == nodes_in(node),
    decreases node,
{
    if let NodeKind::Group(children) = node.kind {
        forest_lengths(
            children@,
            total,
            label_row(node, total, natural) + 1,
            Some(at as usize),
            at + 1,
            column,
        );
    }
}

proof fn forest_lengths<C>(
    nodes: Seq<HeaderNode<C>>,
    total: nat,
    natural: nat,
    parent: Option<usize>,
    at: nat,
    column: nat,
)
    ensures
        forest_contents(nodes).len() == forest_nodes(nodes),
        forest_specs(nodes).len() == forest_leaves(nodes),
        forest_cells(nodes, total, natural, parent, at, column).len() == forest_nodes(nodes),
    decreases nodes,
{
    if nodes.len() > 0 {
        let before = nodes.drop_last();

        forest_lengths(before, total, natural, parent, at, column);
        lengths(
            nodes.last(),
            total,
            natural,
            parent,
            at + forest_nodes(before),
            column + forest_leaves(before),
        );
    }
}

/// Append one tree to what has been flattened so far, and return the first and
/// last column it spans.
///
/// `natural` is the row the node would sit on counting plainly down from the
/// root -- the row immediately below its parent's label.
fn walk<C>(
    node: HeaderNode<C>,
    total_rows: usize,
    natural: usize,
    parent: Option<usize>,
    out: &mut Flattened<C>,
) -> (span: (usize, usize))
    requires
        old(out).elements@.len() == old(out).cells@.len(),
        old(out).columns@.len() <= old(out).cells@.len(),
        old(out).cells@.len() + nodes_in(node) < usize::MAX,
        natural + depth(node) <= usize::MAX,
    ensures
        final(out).elements@ == old(out).elements@ + contents(node),
        final(out).columns@ == old(out).columns@ + specs(node),
        final(out).cells@ == old(out).cells@ + node_cells(
            node,
            total_rows as nat,
            natural as nat,
            parent,
            old(out).cells@.len(),
            old(out).columns@.len(),
        ),
        final(out).rows == old(out).rows,
        final(out).sticky_columns == old(out).sticky_columns,
        span.0 == old(out).columns@.len(),
        span.1 == old(out).columns@.len() + reach(node),
    decreases nodes_in(node),
{
    let ghost before = *out;
    let ghost tree = node;
    let element: usize = out.elements.len();
    let levels: usize = {
        proof {
            nodes_bound_the_rest(node);
        }
        max_depth(&node)
    };
    let lowest: usize = if total_rows > levels { total_rows - levels } else { 0 };
    // Bottom-anchored: a subtree three deep starts at the top, one deep sits
    // on the last row. Never above `natural`, or a shallow group would climb
    // past its own parent.
    let row: usize = if lowest > natural { lowest } else { natural };
    let index: usize = out.columns.len();

    out.elements.push(node.content);

    match node.kind {
        NodeKind::Leaf(spec) => {
            out.columns.push(spec);
            out.cells.push(
                HeaderCell {
                    element,
                    start: index,
                    end: index,
                    // Leaves bottom out against the body rather than floating
                    // on the last band.
                    row: natural,
                    row_span: if total_rows > natural { total_rows - natural } else { 1 },
                    top: natural,
                    leaf: true,
                    parent,
                },
            );
            (index, index)
        },
        NodeKind::Group(children) => {
            // Reserve the cell now so header elements stay in tree order, then
            // fill in the span once the children have claimed their columns.
            let slot: usize = out.cells.len();
            let mut cell = HeaderCell {
                element,
                start: 0,
                end: 0,
                row,
                row_span: 1,
                top: natural,
                leaf: false,
                parent,
            };
            out.cells.push(cell);

            let ghost held = cell;
            let mut start: usize = usize::MAX;
            let mut end: usize = 0;

            proof {
                nodes_bound_the_rest(tree);
            }

            for child in it: children
                invariant
                    it.seq() == children@,
                    tree == node,
                    tree.kind == NodeKind::Group(children),
                    before.elements@.len() == before.cells@.len(),
                    before.columns@.len() <= before.cells@.len(),
                    before.cells@.len() + nodes_in(tree) < usize::MAX,
                    row + depth(tree) <= usize::MAX || row + depth(tree) <= total_rows,
                    slot == before.cells@.len(),
                    index == before.columns@.len(),
                    out.elements@ == before.elements@ + seq![tree.content] + forest_contents(
                        children@.take(it.index() as int),
                    ),
                    out.columns@ == before.columns@ + forest_specs(
                        children@.take(it.index() as int),
                    ),
                    out.cells@ == before.cells@ + seq![held] + forest_cells(
                        children@.take(it.index() as int),
                        total_rows as nat,
                        (row + 1) as nat,
                        Some(slot),
                        (slot + 1) as nat,
                        index as nat,
                    ),
                    out.rows == before.rows,
                    out.sticky_columns == before.sticky_columns,
                    it.index() == 0 ==> start == usize::MAX && end == 0,
                    it.index() > 0 ==> start == index && end == index + forest_reach(
                        children@.take(it.index() as int),
                    ),
            {
                let ghost k = it.index() as int;
                let ghost taken = children@.take(k);
                proof {
                    forest_prefix_bounds(children@, k);
                    forest_nodes_bound_the_rest(taken);
                    nodes_bound_the_rest(child);
                    forest_lengths(
                        taken,
                        total_rows as nat,
                        (row + 1) as nat,
                        Some(slot),
                        (slot + 1) as nat,
                        index as nat,
                    );
                }
                // Children hang off the row this group's *label* landed on,
                // not off `natural` -- a group pushed down to meet its
                // children has to take them with it.
                let (s, e) = walk(child, total_rows, row + 1, Some(slot), out);

                if s < start {
                    start = s;
                }
                if e > end {
                    end = e;
                }
                proof {
                    assert(children@.take(k + 1).drop_last() =~= taken);
                }
            }

            proof {
                assert(children@.take(children@.len() as int) =~= children@);
                forest_nodes_bound_the_rest(children@);
            }

            if start == usize::MAX {
                // Empty group. Degenerate but not worth failing over --
                // collapse it onto the next column boundary.
                start = out.columns.len();
                end = start;
            }
            cell.start = start;
            cell.end = end;
            out.cells.set(slot, cell);

            (start, end)
        },
    }
}

proof fn sticky_run_is<C>(nodes: Seq<HeaderNode<C>>, length: int)
    requires
        0 <= length <= nodes.len(),
        forall|i: int| 0 <= i < length ==> (#[trigger] nodes[i]).sticky,
        length < nodes.len() ==> !nodes[length].sticky,
    ensures
        sticky_run(nodes) == length,
    decreases nodes.len(),
{
    if length > 0 {
        let rest = nodes.drop_first();
        assert forall|i: int| 0 <= i < length - 1 implies (#[trigger] rest[i]).sticky by {
            assert(nodes[i + 1].sticky);
        }
        sticky_run_is(rest, length - 1);
    }
}

/// Depth-first flatten. Leaf order becomes column order, which is what makes
/// the whole thing tractable: after this point nothing downstream knows or
/// cares that groups exist.
///
/// Groups are placed at `rows - depth`, which pushes each branch **down** so it
/// sits directly on top of its children and leaves the blank space at the top.
/// Leaves are the other way round: a leaf claims every row from where its
/// parent stops all the way down to the body.
///
/// The frozen region is the leading *run* of sticky top-level nodes, so it is a
/// prefix of the columns and never splits a group in half.
pub fn flatten<C>(nodes: Vec<HeaderNode<C>>) -> (flat: Flattened<C>)
    requires
        forest_nodes(nodes@) < usize::MAX,
    ensures
        flat.rows == header_rows(nodes@),
        flat.elements@ == forest_contents(nodes@),
        flat.columns@ == forest_specs(nodes@),
        flat.cells@ == forest_cells(nodes@, header_rows(nodes@), 0, None, 0, 0),
        flat.sticky_columns == frozen_columns(nodes@),
{
    let mut rows: usize = 1;
    let mut sticky_columns: usize = 0;
    let mut run: usize = 0;
    let mut unbroken: bool = true;

    proof {
        forest_nodes_bound_the_rest(nodes@);
    }

    for i in 0..nodes.len()
        invariant
            forest_nodes(nodes@) < usize::MAX,
            rows == header_rows(nodes@.take(i as int)),
            run <= i,
            unbroken ==> run == i,
            !unbroken ==> !nodes@[run as int].sticky && run < i,
            forall|j: int| 0 <= j < run ==> (#[trigger] nodes@[j]).sticky,
            sticky_columns == forest_leaves(nodes@.take(run as int)),
    {
        proof {
            forest_prefix_bounds(nodes@, i as int);
            forest_nodes_bound_the_rest(nodes@);
            nodes_bound_the_rest(nodes@[i as int]);
        }
        let levels: usize = max_depth(&nodes[i]);
        if i == 0 || levels > rows {
            rows = levels;
        }
        if unbroken {
            if nodes[i].sticky {
                sticky_columns = sticky_columns + leaf_count(&nodes[i]);
                run = i + 1;
            } else {
                unbroken = false;
            }
        }
    }
    proof {
        sticky_run_is(nodes@, run as int);
        assert(nodes@.take(nodes@.len() as int) =~= nodes@);
    }

    let mut out = Flattened {
        elements: Vec::new(),
        cells: Vec::new(),
        columns: Vec::new(),
        rows,
        sticky_columns,
    };

    for node in it: nodes
        invariant
            it.seq() == nodes@,
            forest_nodes(nodes@) < usize::MAX,
            rows == header_rows(nodes@),
            out.rows == rows,
            out.sticky_columns == sticky_columns,
            out.elements@ == forest_contents(nodes@.take(it.index() as int)),
            out.columns@ == forest_specs(nodes@.take(it.index() as int)),
            out.cells@ == forest_cells(
                nodes@.take(it.index() as int),
                rows as nat,
                0,
                None,
                0,
                0,
            ),
    {
        let ghost k = it.index() as int;
        proof {
            forest_prefix_bounds(nodes@, k);
            forest_nodes_bound_the_rest(nodes@.take(k));
            nodes_bound_the_rest(node);
            forest_lengths(nodes@.take(k), rows as nat, 0, None, 0, 0);
        }
        let _ = walk(node, rows, 0, None, &mut out);
        proof {
            assert(nodes@.take(k + 1).drop_last() =~= nodes@.take(k));
        }
    }

    out
}

/// Row just past the bottom of a cell's label band.
pub open spec fn bottom_of(cell: HeaderCell) -> int {
    cell.row + cell.row_span
}

/// Does the cell own this header row? Counts the blank band above a group that
/// was pushed down.
pub open spec fn owns_row(cell: HeaderCell, row: int) -> bool {
    cell.top <= row < bottom_of(cell)
}

impl HeaderCell {
    pub fn is_leaf(&self) -> (leaf: bool)
        ensures
            leaf == self.leaf,
    {
        self.leaf
    }

    /// Row just past the bottom of the label band.
    pub fn bottom(&self) -> (bottom: usize)
        requires
            bottom_of(*self) <= usize::MAX,
        ensures
            bottom == bottom_of(*self),
    {
        self.row + self.row_span
    }

    /// Does this cell own `row`? Counts the blank band above a group that was
    /// pushed down, which is why it starts at `top` rather than `row`.
    pub fn covers(&self, row: usize) -> (covered: bool)
        requires
            row < self.top || bottom_of(*self) <= usize::MAX,
        ensures
            covered == owns_row(*self, row as int),
    {
        row >= self.top && row < self.bottom()
    }
}

/// Position of the first leaf cell over `column`, or the length of `cells`
/// where there is none.
pub open spec fn leaf_index(cells: Seq<HeaderCell>, column: usize) -> nat
    decreases cells.len(),
{
    if cells.len() == 0 {
        0
    } else {
        let before = leaf_index(cells.drop_last(), column);

        if before < cells.len() - 1 || (cells.last().leaf && cells.last().start == column) {
            before
        } else {
            cells.len()
        }
    }
}

/// The cells that hang off `parent`, in order.
pub open spec fn children_of(cells: Seq<HeaderCell>, parent: Option<usize>) -> Seq<HeaderCell> {
    cells.filter(|cell: HeaderCell| cell.parent == parent)
}

/// `cell` put into cells ordered by their first column, after those it ties
/// with.
pub open spec fn placed(ordered: Seq<HeaderCell>, cell: HeaderCell) -> Seq<HeaderCell>
    decreases ordered.len(),
{
    if ordered.len() == 0 || ordered.last().start <= cell.start {
        ordered.push(cell)
    } else {
        placed(ordered.drop_last(), cell).push(ordered.last())
    }
}

/// Cells ordered by their first column; those that tie keep their order.
pub open spec fn by_start(cells: Seq<HeaderCell>) -> Seq<HeaderCell>
    decreases cells.len(),
{
    if cells.len() == 0 {
        seq![]
    } else {
        placed(by_start(cells.drop_last()), cells.last())
    }
}

/// The boundaries between cells that stand side by side: where each one starts,
/// and where the last one ends.
pub open spec fn edges(ordered: Seq<HeaderCell>) -> Seq<usize> {
    if ordered.len() == 0 {
        seq![]
    } else {
        ordered.map_values(|cell: HeaderCell| cell.start).push((ordered.last().end + 1) as usize)
    }
}

/// Can a drop at `slot` leave the frozen prefix with the columns it has?
pub open spec fn keeps_frozen(column: usize, frozen: usize, slot: usize) -> bool {
    if column < frozen { slot <= frozen } else { slot >= frozen }
}

/// Where the leaf column may be dropped: on the edges of the cells it has as
/// siblings, as far as they do not carry it across the frozen boundary.
pub open spec fn legal_slots(cells: Seq<HeaderCell>, column: usize, frozen: usize) -> Seq<usize> {
    let index = leaf_index(cells, column);

    if index == cells.len() {
        seq![]
    } else {
        edges(by_start(children_of(cells, cells[index as int].parent))).filter(
            |slot: usize| keeps_frozen(column, frozen, slot),
        )
    }
}

/// The column just past every cell is a number that fits.
pub open spec fn edges_fit(cells: Seq<HeaderCell>) -> bool {
    forall|k: int| 0 <= k < cells.len() ==> (#[trigger] cells[k]).end < usize::MAX
}

pub(crate) proof fn leaf_index_is(cells: Seq<HeaderCell>, column: usize, index: int)
    requires
        0 <= index <= cells.len(),
        forall|i: int| 0 <= i < index ==> !((#[trigger] cells[i]).leaf && cells[i].start == column),
        index < cells.len() ==> cells[index].leaf && cells[index].start == column,
    ensures
        leaf_index(cells, column) == index,
    decreases cells.len(),
{
    if cells.len() > 0 {
        let before = cells.drop_last();
        if index < cells.len() {
            leaf_index_is(before, column, index);
        } else {
            leaf_index_is(before, column, index - 1);
        }
    }
}

/// Where a dragged leaf column may legally be dropped, as leaf-index
/// boundaries in the current order.
///
/// A move has to keep every group's leaves contiguous: a group whose columns
/// are no longer adjacent has no rectangle to draw its label in. So a node may
/// only move **among its own siblings**, and the legal boundaries are the edges
/// between those siblings. For a top-level leaf the siblings include whole
/// groups, so it steps over a group in one move rather than landing inside it.
///
/// The two boundaries either side of the column's current position **are**
/// included, even though landing on them changes nothing, so that a column can
/// be picked up and put down where it was.
///
/// `frozen` is the sticky prefix. Boundaries that would carry the column across
/// it are dropped.
pub fn drop_slots(cells: &[HeaderCell], column: usize, frozen: usize) -> (slots: Vec<usize>)
    requires
        edges_fit(cells@),
    ensures
        slots@ == legal_slots(cells@, column, frozen),
{
    let mut index: usize = 0;

    while index < cells.len() && !(cells[index].leaf && cells[index].start == column)
        invariant
            index <= cells@.len(),
            forall|i: int|
                0 <= i < index ==> !((#[trigger] cells@[i]).leaf && cells@[i].start == column),
        decreases cells@.len() - index,
    {
        index = index + 1;
    }
    proof {
        leaf_index_is(cells@, column, index as int);
    }
    if index == cells.len() {
        return Vec::new();
    }
    let siblings = siblings_by_start(cells, cells[index].parent);
    let mut slots: Vec<usize> = Vec::new();
    let ghost keep = |slot: usize| keeps_frozen(column, frozen, slot);
    let ghost starts = siblings@.map_values(|cell: HeaderCell| cell.start);

    for i in 0..siblings.len()
        invariant
            starts == siblings@.map_values(|cell: HeaderCell| cell.start),
            keep == (|slot: usize| keeps_frozen(column, frozen, slot)),
            slots@ == starts.take(i as int).filter(keep),
    {
        proof {
            assert(starts.take(i + 1).drop_last() =~= starts.take(i as int));
            reveal_with_fuel(Seq::filter, 1);
        }
        let slot: usize = siblings[i].start;
        if slot_keeps_frozen(column, frozen, slot) {
            slots.push(slot);
        }
    }
    proof {
        assert(starts.take(starts.len() as int) =~= starts);
    }
    if siblings.len() > 0 {
        let slot: usize = siblings[siblings.len() - 1].end + 1;

        proof {
            let all = edges(siblings@);
            assert(all.drop_last() =~= starts);
            reveal_with_fuel(Seq::filter, 1);
        }
        if slot_keeps_frozen(column, frozen, slot) {
            slots.push(slot);
        }
    }
    slots
}

fn slot_keeps_frozen(column: usize, frozen: usize, slot: usize) -> (kept: bool)
    ensures
        kept == keeps_frozen(column, frozen, slot),
{
    if column < frozen {
        slot <= frozen
    } else {
        slot >= frozen
    }
}

/// The cells that hang off `parent`, ordered by their first column.
fn siblings_by_start(cells: &[HeaderCell], parent: Option<usize>) -> (siblings: Vec<HeaderCell>)
    requires
        edges_fit(cells@),
    ensures
        edges_fit(siblings@),
        siblings@ == by_start(children_of(cells@, parent)),
{
    let mut siblings: Vec<HeaderCell> = Vec::new();
    let ghost hangs = |cell: HeaderCell| cell.parent == parent;

    for i in 0..cells.len()
        invariant
            hangs == (|cell: HeaderCell| cell.parent == parent),
            edges_fit(cells@),
            edges_fit(siblings@),
            siblings@ == by_start(cells@.take(i as int).filter(hangs)),
    {
        proof {
            assert(cells@.take(i + 1).drop_last() =~= cells@.take(i as int));
            reveal_with_fuel(Seq::filter, 1);
        }
        let cell: HeaderCell = cells[i];
        if cell.parent == parent {
            let ghost taken = cells@.take(i as int).filter(hangs);

            proof {
                assert(taken.push(cell).drop_last() =~= taken);
            }
            place(&mut siblings, cell);
        }
    }
    proof {
        assert(cells@.take(cells@.len() as int) =~= cells@);
    }
    siblings
}

/// Put a cell into an ordered list, after those it ties with.
fn place(ordered: &mut Vec<HeaderCell>, cell: HeaderCell)
    ensures
        edges_fit(old(ordered)@) && cell.end < usize::MAX ==> edges_fit(final(ordered)@),
        final(ordered)@ == placed(old(ordered)@, cell),
{
    let ghost before = ordered@;
    let mut at: usize = ordered.len();

    while at > 0 && ordered[at - 1].start > cell.start
        invariant
            at <= ordered@.len(),
            ordered@ == before,
            forall|i: int| at <= i < before.len() ==> (#[trigger] before[i]).start > cell.start,
        decreases at,
    {
        at = at - 1;
    }
    ordered.insert(at, cell);
    proof {
        placed_is(before, cell, at as int);
    }
}

proof fn placed_is(ordered: Seq<HeaderCell>, cell: HeaderCell, at: int)
    requires
        0 <= at <= ordered.len(),
        forall|i: int| at <= i < ordered.len() ==> (#[trigger] ordered[i]).start > cell.start,
        at > 0 ==> ordered[at - 1].start <= cell.start,
    ensures
        placed(ordered, cell) == ordered.insert(at, cell),
    decreases ordered.len(),
{
    if at < ordered.len() {
        placed_is(ordered.drop_last(), cell, at);
        assert(ordered.drop_last().insert(at, cell).push(ordered.last()) =~= ordered.insert(
            at,
            cell,
        ));
    } else {
        assert(ordered.push(cell) =~= ordered.insert(at, cell));
    }
}

/// Would dropping `column` at `slot` change the order?
pub open spec fn moves(column: int, slot: int) -> bool {
    slot != column && slot != column + 1
}

/// Would dropping `column` at `slot` actually change the order?
///
/// False for the two boundaries touching the column's current position.
pub fn is_move(column: usize, slot: usize) -> (moved: bool)
    ensures
        moved == moves(column as int, slot as int),
{
    slot != column && (slot == 0 || slot - 1 != column)
}

/// The index that a column dropped at `slot` ends up at.
///
/// A slot is a gap in the *current* order. Taking the column out first shifts
/// everything above it down, so a rightward move lands one place short of the
/// gap.
pub open spec fn landing_of(column: int, slot: int) -> int {
    if slot > column { slot - 1 } else { slot }
}

/// The index that a column dropped at `slot` ends up at, once it has been
/// taken out.
pub fn landing(column: usize, slot: usize) -> (to: usize)
    ensures
        to == landing_of(column as int, slot as int),
{
    if slot > column { slot - 1 } else { slot }
}

} // verus!
