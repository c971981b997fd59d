//! What a flattened header says of the tree it came from.
//!
//! Every statement here holds of every tree, one with empty groups too.

use vstd::prelude::*;
use crate::header::{ColumnSpec, HeaderCell, HeaderNode, NodeKind};
use crate::header::{
    bottom_of, contents, depth, forest_cells, forest_contents, forest_depth, forest_leaves,
    forest_nodes, forest_reach, forest_specs, header_rows, label_row, leaves, node_cells, nodes_in,
    reach, specs,
};
use crate::header_laws::{forest_counts, header_cells};

verus! {

/// The nodes of a tree in the order they are flattened in: each group before what
/// is beneath it.
pub open spec fn walk_of<C>(node: HeaderNode<C>) -> Seq<HeaderNode<C>>
    decreases node,
{
    match node.kind {
        NodeKind::Leaf(_) => seq![node],
        NodeKind::Group(children) => seq![node] + forest_walk(children@),
    }
}

/// The nodes of several trees, one tree after the other.
pub open spec fn forest_walk<C>(nodes: Seq<HeaderNode<C>>) -> Seq<HeaderNode<C>>
    decreases nodes,
{
    if nodes.len() == 0 {
        seq![]
    } else {
        forest_walk(nodes.drop_last()) + walk_of(nodes.last())
    }
}

/// How many of these nodes are leaves.
pub open spec fn leaves_among<C>(walk: Seq<HeaderNode<C>>) -> nat
    decreases walk.len(),
{
    if walk.len() == 0 {
        0
    } else {
        leaves_among(walk.drop_last()) + if walk.last().kind is Leaf {
            1nat
        } else {
            0nat
        }
    }
}

/// How many leaves come before the node at `k`.
pub open spec fn leaves_before<C>(walk: Seq<HeaderNode<C>>, k: int) -> nat {
    leaves_among(walk.take(k))
}

proof fn leaves_add_up<C>(a: Seq<HeaderNode<C>>, b: Seq<HeaderNode<C>>)
    ensures
        leaves_among(a + b) == leaves_among(a) + leaves_among(b),
    decreases b.len(),
{
    if b.len() == 0 {
        assert(a + b =~= a);
    } else {
        leaves_add_up(a, b.drop_last());
        assert((a + b).drop_last() =~= a + b.drop_last());
        assert((a + b).last() == b.last());
    }
}

proof fn leaves_before_in_both<C>(a: Seq<HeaderNode<C>>, b: Seq<HeaderNode<C>>, k: int)
    requires
        0 <= k < a.len() + b.len(),
    ensures
        k < a.len() ==> leaves_before(a + b, k) == leaves_before(a, k),
        k >= a.len() ==> leaves_before(a + b, k) == leaves_among(a) + leaves_before(
            b,
            k - a.len(),
        ),
{
    if k < a.len() {
        assert((a + b).take(k) =~= a.take(k));
    } else {
        assert((a + b).take(k) =~= a + b.take(k - a.len()));
        leaves_add_up(a, b.take(k - a.len()));
    }
}

/// What a cell says of the node it was made from, where the first cell has index
/// `at` and the leftmost leaf is column `column`.
spec fn tells_of<C>(
    cell: HeaderCell,
    walk: Seq<HeaderNode<C>>,
    k: int,
    total: nat,
    at: nat,
    column: nat,
) -> bool {
    &&& cell.element == at + k
    &&& cell.start == column + leaves_before(walk, k)
    &&& cell.leaf == walk[k].kind is Leaf
    &&& cell.leaf ==> cell.end == cell.start && bottom_of(cell) == total && cell.top == cell.row
    &&& !cell.leaf ==> cell.end == cell.start + reach(walk[k]) && cell.row == total - depth(walk[k])
        && cell.row_span == 1
}

/// If the node at `k` is a leaf, the column that is next in line has its spec.
spec fn owns_column<C>(walk: Seq<HeaderNode<C>>, columns: Seq<ColumnSpec>, k: int) -> bool {
    walk[k].kind matches NodeKind::Leaf(spec) ==> leaves_before(walk, k) < columns.len()
        && columns[leaves_before(walk, k) as int] == spec
}

proof fn reach_is_bounded<C>(node: HeaderNode<C>)
    ensures
        reach(node) <= leaves(node),
        depth(node) >= 1,
    decreases node,
{
    if let NodeKind::Group(children) = node.kind {
        forest_reach_is_bounded(children@);
    }
}

proof fn forest_reach_is_bounded<C>(nodes: Seq<HeaderNode<C>>)
    ensures
        forest_reach(nodes) <= forest_leaves(nodes),
    decreases nodes,
{
    if nodes.len() > 0 {
        reach_is_bounded(nodes.last());
    }
}

proof fn node_tells<C>(
    node: HeaderNode<C>,
    total: nat,
    natural: nat,
    parent: Option<usize>,
    at: nat,
    column: nat,
)
    requires
        natural + depth(node) <= total <= usize::MAX,
        at + nodes_in(node) <= usize::MAX,
        column + leaves(node) <= usize::MAX,
    ensures
        ({
            let cells = node_cells(node, total, natural, parent, at, column);
            let walk = walk_of(node);

            &&& cells.len() == walk.len() == contents(node).len() == nodes_in(node)
            &&& leaves_among(walk) == specs(node).len() == leaves(node)
            &&& forall|k: int|
                0 <= k < walk.len() ==> #[trigger] tells_of(cells[k], walk, k, total, at, column)
            &&& forall|k: int|
                0 <= k < walk.len() ==> #[trigger] contents(node)[k] == walk[k].content
            &&& forall|k: int| 0 <= k < walk.len() ==> #[trigger] owns_column(walk, specs(node), k)
        }),
    decreases node,
{
    let cells = node_cells(node, total, natural, parent, at, column);
    let walk = walk_of(node);

    reach_is_bounded(node);
    match node.kind {
        NodeKind::Leaf(spec) => {
            assert(walk.take(0) =~= seq![]);
            assert(walk.drop_last() =~= seq![]);
            assert(tells_of(cells[0], walk, 0, total, at, column));
        },
        NodeKind::Group(children) => {
            let row = label_row(node, total, natural);
            let first = seq![node];
            let rest = forest_walk(children@);
            let inner = forest_cells(children@, total, row + 1, Some(at as usize), at + 1, column);

            forest_tells(children@, total, row + 1, Some(at as usize), at + 1, column);
            assert(leaves_among(first) == 0) by {
                reveal_with_fuel(leaves_among, 2);
            }
            leaves_add_up(first, rest);
            assert forall|k: int| 0 <= k < walk.len() implies #[trigger] tells_of(
                cells[k],
                walk,
                k,
                total,
                at,
                column,
            ) by {
                leaves_before_in_both(first, rest, k);
                if k == 0 {
                    assert(walk.take(0) =~= seq![]);
                } else {
                    assert(tells_of(inner[k - 1], rest, k - 1, total, at + 1, column));
                    assert(cells[k] == inner[k - 1]);
                    assert(walk[k] == rest[k - 1]);
                }
            }
            assert forall|k: int| 0 <= k < walk.len() implies #[trigger] contents(node)[k]
                == walk[k].content by {
                if k > 0 {
                    assert(forest_contents(children@)[k - 1] == rest[k - 1].content);
                }
            }
            assert forall|k: int| 0 <= k < walk.len() implies #[trigger] owns_column(
                walk,
                specs(node),
                k,
            ) by {
                leaves_before_in_both(first, rest, k);
                if k > 0 {
                    assert(owns_column(rest, forest_specs(children@), k - 1));
                    assert(walk[k] == rest[k - 1]);
                }
            }
        },
    }
}

proof fn forest_tells<C>(
    nodes: Seq<HeaderNode<C>>,
    total: nat,
    natural: nat,
    parent: Option<usize>,
    at: nat,
    column: nat,
)
    requires
        natural + forest_depth(nodes) <= total <= usize::MAX,
        at + forest_nodes(nodes) <= usize::MAX,
        column + forest_leaves(nodes) <= usize::MAX,
    ensures
        ({
            let cells = forest_cells(nodes, total, natural, parent, at, column);
            let walk = forest_walk(nodes);

            &&& cells.len() == walk.len() == forest_contents(nodes).len() == forest_nodes(nodes)
            &&& leaves_among(walk) == forest_specs(nodes).len() == forest_leaves(nodes)
            &&& forall|k: int|
                0 <= k < walk.len() ==> #[trigger] tells_of(cells[k], walk, k, total, at, column)
            &&& forall|k: int|
                0 <= k < walk.len() ==> #[trigger] forest_contents(nodes)[k] == walk[k].content
            &&& forall|k: int|
                0 <= k < walk.len() ==> #[trigger] owns_column(walk, forest_specs(nodes), k)
        }),
    decreases nodes,
{
    if nodes.len() > 0 {
        let before = nodes.drop_last();
        let last = nodes.last();
        let at2 = at + forest_nodes(before);
        let column2 = column + forest_leaves(before);
        let head = forest_cells(before, total, natural, parent, at, column);
        let tail = node_cells(last, total, natural, parent, at2, column2);
        let cells = forest_cells(nodes, total, natural, parent, at, column);
        let a = forest_walk(before);
        let b = walk_of(last);
        let walk = forest_walk(nodes);

        forest_tells(before, total, natural, parent, at, column);
        node_tells(last, total, natural, parent, at2, column2);
        leaves_add_up(a, b);
        assert forall|k: int| 0 <= k < walk.len() implies #[trigger] tells_of(
            cells[k],
            walk,
            k,
            total,
            at,
            column,
        ) by {
            leaves_before_in_both(a, b, k);
            if k < a.len() {
                assert(tells_of(head[k], a, k, total, at, column));
                assert(cells[k] == head[k] && walk[k] == a[k]);
            } else {
                let m = k - a.len();

                assert(tells_of(tail[m], b, m, total, at2, column2));
                assert(cells[k] == tail[m] && walk[k] == b[m]);
            }
        }
        assert forall|k: int| 0 <= k < walk.len() implies #[trigger] forest_contents(nodes)[k]
            == walk[k].content by {
            if k < a.len() {
                assert(forest_contents(before)[k] == a[k].content);
            } else {
                assert(contents(last)[k - a.len()] == b[k - a.len()].content);
            }
        }
        assert forall|k: int| 0 <= k < walk.len() implies #[trigger] owns_column(
            walk,
            forest_specs(nodes),
            k,
        ) by {
            leaves_before_in_both(a, b, k);
            if k < a.len() {
                assert(owns_column(a, forest_specs(before), k));
                assert(walk[k] == a[k]);
            } else {
                assert(owns_column(b, specs(last), k - a.len()));
                assert(walk[k] == b[k - a.len()]);
            }
        }
    }
}

/// Flattening is depth-first: cell, label and node of the same place in the walk
/// belong together.
///
/// - The cell names its place as that of its element, and the element is the
///   node's label.
/// - It is a leaf exactly if the node is, and starts at the column that is next
///   in line: as many leaves come before it.
/// - A leaf covers that one column, whose spec is its own, and reaches down to
///   the body.
/// - A group's label is one row high, and as many rows above the body as there
///   are levels beneath it.
pub proof fn flattening_is_depth_first<C>(nodes: Seq<HeaderNode<C>>, k: int)
    requires
        forest_nodes(nodes) < usize::MAX,
        0 <= k < forest_walk(nodes).len(),
    ensures
        header_cells(nodes).len() == forest_walk(nodes).len(),
        forest_contents(nodes).len() == forest_walk(nodes).len(),
        forest_specs(nodes).len() == leaves_among(forest_walk(nodes)),
        ({
            let cell = header_cells(nodes)[k];
            let node = forest_walk(nodes)[k];

            &&& cell.element == k
            &&& forest_contents(nodes)[k] == node.content
            &&& cell.start == leaves_before(forest_walk(nodes), k)
            &&& match node.kind {
                NodeKind::Leaf(spec) => {
                    &&& cell.leaf
                    &&& cell.end == cell.start
                    &&& cell.start < forest_specs(nodes).len()
                    &&& forest_specs(nodes)[cell.start as int] == spec
                    &&& cell.top == cell.row
                    &&& bottom_of(cell) == header_rows(nodes)
                },
                NodeKind::Group(_) => {
                    &&& !cell.leaf
                    &&& cell.end == cell.start + reach(node)
                    &&& cell.row == header_rows(nodes) - depth(node)
                    &&& cell.row_span == 1
                },
            }
        }),
{
    let walk = forest_walk(nodes);

    forest_counts(nodes);
    forest_tells(nodes, header_rows(nodes), 0, None, 0, 0);
    assert(tells_of(header_cells(nodes)[k], walk, k, header_rows(nodes), 0, 0));
    assert(owns_column(walk, forest_specs(nodes), k));
}

/// The node at `k` is child `m` of the group at `p`.
pub open spec fn is_child<C>(walk: Seq<HeaderNode<C>>, p: int, k: int, m: int) -> bool {
    &&& 0 <= p < k < walk.len()
    &&& walk[p].kind matches NodeKind::Group(children)
    &&& 0 <= m < children@.len()
    &&& k == p + 1 + forest_nodes(children@.take(m))
    &&& walk[k] == children@[m]
}

/// The node at `k` is a child of the group at `p`.
pub open spec fn is_child_of<C>(walk: Seq<HeaderNode<C>>, p: int, k: int) -> bool {
    exists|m: int| is_child(walk, p, k, m)
}

/// The node at `k` is the top-level node `n`.
pub open spec fn is_top<C>(nodes: Seq<HeaderNode<C>>, k: int, n: int) -> bool {
    &&& 0 <= n < nodes.len()
    &&& k == forest_nodes(nodes.take(n))
    &&& forest_walk(nodes)[k] == nodes[n]
}

/// The cell's parent, among cells that begin with index `at`, is the group that
/// its node is a child of.
spec fn has_parent<C>(cell: HeaderCell, walk: Seq<HeaderNode<C>>, k: int, at: nat) -> bool {
    &&& cell.parent is Some
    &&& at <= cell.parent->0
    &&& is_child_of(walk, cell.parent->0 - at, k)
}

proof fn a_child_stays_one<C>(a: Seq<HeaderNode<C>>, b: Seq<HeaderNode<C>>, p: int, k: int)
    ensures
        is_child_of(a, p, k) ==> is_child_of(a + b, p, k),
        is_child_of(b, p, k) ==> is_child_of(a + b, p + a.len(), k + a.len()),
{
    if is_child_of(a, p, k) {
        let m = choose|m: int| is_child(a, p, k, m);

        assert(is_child(a + b, p, k, m));
    }
    if is_child_of(b, p, k) {
        let m = choose|m: int| is_child(b, p, k, m);

        assert(is_child(a + b, p + a.len(), k + a.len(), m));
    }
}

proof fn node_hangs<C>(
    node: HeaderNode<C>,
    total: nat,
    natural: nat,
    parent: Option<usize>,
    at: nat,
    column: nat,
)
    requires
        natural + depth(node) <= total <= usize::MAX,
        at + nodes_in(node) <= usize::MAX,
        column + leaves(node) <= usize::MAX,
    ensures
        ({
            let cells = node_cells(node, total, natural, parent, at, column);
            let walk = walk_of(node);

            &&& walk.len() == cells.len() == nodes_in(node)
            &&& walk.len() > 0
            &&& walk[0] == node
            &&& cells[0].parent == parent
            &&& forall|k: int| 0 < k < walk.len() ==> #[trigger] has_parent(cells[k], walk, k, at)
        }),
    decreases node,
{
    let cells = node_cells(node, total, natural, parent, at, column);
    let walk = walk_of(node);

    if let NodeKind::Group(children) = node.kind {
        let row = label_row(node, total, natural);
        let first = seq![node];
        let rest = forest_walk(children@);
        let inner = forest_cells(children@, total, row + 1, Some(at as usize), at + 1, column);

        forest_hangs(children@, total, row + 1, Some(at as usize), at + 1, column);
        assert forall|k: int| 0 < k < walk.len() implies #[trigger] has_parent(
            cells[k],
            walk,
            k,
            at,
        ) by {
            assert(cells[k] == inner[k - 1] && walk[k] == rest[k - 1]);
            let j = k - 1;

            if !has_parent(inner[j], rest, j, at + 1) {
                let n = choose|n: int| is_top(children@, j, n);

                assert(is_child(walk, 0, k, n));
            } else {
                let p = inner[k - 1].parent->0;

                a_child_stays_one(first, rest, p - (at + 1), k - 1);
            }
        }
    }
}

proof fn forest_hangs<C>(
    nodes: Seq<HeaderNode<C>>,
    total: nat,
    natural: nat,
    parent: Option<usize>,
    at: nat,
    column: nat,
)
    requires
        natural + forest_depth(nodes) <= total <= usize::MAX,
        at + forest_nodes(nodes) <= usize::MAX,
        column + forest_leaves(nodes) <= usize::MAX,
    ensures
        ({
            let cells = forest_cells(nodes, total, natural, parent, at, column);
            let walk = forest_walk(nodes);

            &&& walk.len() == cells.len() == forest_nodes(nodes)
            &&& forall|k: int|
                0 <= k < walk.len() ==> #[trigger] has_parent(cells[k], walk, k, at) || (cells[k].parent
                    == parent && exists|n: int| is_top(nodes, k, n))
            &&& forall|n: int|
                0 <= n < nodes.len() ==> {
                    &&& forest_nodes(#[trigger] nodes.take(n)) < walk.len()
                    &&& cells[forest_nodes(nodes.take(n)) as int].parent == parent
                }
        }),
    decreases nodes,
{
    if nodes.len() > 0 {
        let before = nodes.drop_last();
        let last = nodes.last();
        let at2 = at + forest_nodes(before);
        let column2 = column + forest_leaves(before);
        let head = forest_cells(before, total, natural, parent, at, column);
        let tail = node_cells(last, total, natural, parent, at2, column2);
        let cells = forest_cells(nodes, total, natural, parent, at, column);
        let a = forest_walk(before);
        let b = walk_of(last);
        let walk = forest_walk(nodes);

        forest_hangs(before, total, natural, parent, at, column);
        node_hangs(last, total, natural, parent, at2, column2);
        assert(walk == a + b);
        assert(nodes.take(nodes.len() - 1) =~= before);
        assert forall|k: int| 0 <= k < walk.len() implies #[trigger] has_parent(
            cells[k],
            walk,
            k,
            at,
        ) || (cells[k].parent == parent && exists|n: int| is_top(nodes, k, n)) by {
            if k < a.len() {
                assert(cells[k] == head[k] && walk[k] == a[k]);
                if has_parent(head[k], a, k, at) {
                    let p = head[k].parent->0;

                    a_child_stays_one(a, b, p - at, k);
                } else {
                    let n = choose|n: int| is_top(before, k, n);

                    assert(is_top(before, k, n));
                    assert(before.take(n) =~= nodes.take(n));
                    assert(is_top(nodes, k, n));
                }
            } else {
                let i = k - a.len();

                assert(cells[k] == tail[i] && walk[k] == b[i]);
                if i > 0 {
                    assert(has_parent(tail[i], b, i, at2));
                    let p = tail[i].parent->0;

                    a_child_stays_one(a, b, p - at2, i);
                } else {
                    assert(is_top(nodes, k, nodes.len() - 1));
                }
            }
        }
        assert forall|n: int| 0 <= n < nodes.len() implies {
            &&& forest_nodes(#[trigger] nodes.take(n)) < walk.len()
            &&& cells[forest_nodes(nodes.take(n)) as int].parent == parent
        } by {
            if n < before.len() {
                assert(before.take(n) =~= nodes.take(n));
                assert(cells[forest_nodes(nodes.take(n)) as int] == head[forest_nodes(
                    before.take(n),
                ) as int]);
            } else {
                assert(cells[head.len() as int] == tail[0]);
            }
        }
    }
}

/// A cell has no parent exactly if its node is a top-level one. The parent of any
/// other is the cell of the group whose child its node is.
pub proof fn a_parent_is_the_group_a_node_is_a_child_of<C>(nodes: Seq<HeaderNode<C>>, k: int)
    requires
        forest_nodes(nodes) < usize::MAX,
        0 <= k < forest_walk(nodes).len(),
    ensures
        header_cells(nodes).len() == forest_walk(nodes).len(),
        match header_cells(nodes)[k].parent {
            None => exists|n: int| is_top(nodes, k, n),
            Some(p) => {
                &&& is_child_of(forest_walk(nodes), p as int, k)
                &&& forall|n: int| !is_top(nodes, k, n)
            },
        },
{
    let cells = header_cells(nodes);
    let walk = forest_walk(nodes);

    forest_counts(nodes);
    forest_hangs(nodes, header_rows(nodes), 0, None, 0, 0);
    assert(has_parent(cells[k], walk, k, 0) || (cells[k].parent is None && exists|n: int|
        is_top(nodes, k, n)));
    if let Some(p) = cells[k].parent {
        assert forall|n: int| !is_top(nodes, k, n) by {
            if is_top(nodes, k, n) {
                assert(cells[forest_nodes(nodes.take(n)) as int].parent is None);
            }
        }
    }
}

} // verus!
