//! What holds of every flattened header.
//!
//! A group without children has no column to stand over, so the statements
//! about the header grid are about trees in which every group has a child.

use vstd::prelude::*;
use crate::header::{HeaderCell, HeaderNode, NodeKind};
use crate::header::{
    bottom_of, by_start, children_of, contents, depth, edges, forest_cells, forest_contents,
    forest_depth, forest_leaves, forest_nodes, forest_reach, forest_specs, frozen_columns,
    header_rows, keeps_frozen, label_row, landing_of, leaf_index, leaves, legal_slots, moves,
    node_cells, nodes_in, owns_row, placed, reach, specs, sticky_run,
};
use crate::selection_laws::moved;

verus! {

/// Every group in the tree has a child.
pub open spec fn filled<C>(node: HeaderNode<C>) -> bool
    decreases node,
{
    match node.kind {
        NodeKind::Leaf(_) => true,
        NodeKind::Group(children) => children@.len() > 0 && forest_filled(children@),
    }
}

/// Every group in the trees has a child.
pub open spec fn forest_filled<C>(nodes: Seq<HeaderNode<C>>) -> bool
    decreases nodes,
{
    nodes.len() > 0 ==> forest_filled(nodes.drop_last()) && filled(nodes.last())
}

/// The cells of the header over these nodes.
pub open spec fn header_cells<C>(nodes: Seq<HeaderNode<C>>) -> Seq<HeaderCell> {
    forest_cells(nodes, header_rows(nodes), 0, None, 0, 0)
}

/// Does the cell own this place in the header grid?
pub open spec fn owns(cell: HeaderCell, row: int, column: int) -> bool {
    owns_row(cell, row) && cell.start <= column <= cell.end
}

/// Cell `k` owns the place, and no other cell does.
pub open spec fn only_owner(cells: Seq<HeaderCell>, k: int, row: int, column: int) -> bool {
    &&& 0 <= k < cells.len()
    &&& owns(cells[k], row, column)
    &&& forall|j: int| 0 <= j < cells.len() && owns(#[trigger] cells[j], row, column) ==> j == k
}

/// Cell `k` hangs off a group among cells that begin with index `at`: it
/// starts on the row below the group's label and stays within its span.
spec fn hangs_off_a_group(cells: Seq<HeaderCell>, at: int, k: int) -> bool {
    cells[k].parent matches Some(p) && {
        &&& at <= p < at + k
        &&& !cells[p - at].leaf
        &&& cells[p - at].start <= cells[k].start
        &&& cells[k].end <= cells[p - at].end
        &&& cells[k].top == bottom_of(cells[p - at])
    }
}

/// What holds of cell `k` by itself, among cells that begin with index `at` and
/// cover the columns `[first, past)` and the rows `[natural, total)`.
spec fn sits_well(
    cells: Seq<HeaderCell>,
    at: int,
    k: int,
    first: int,
    past: int,
    natural: int,
    total: int,
) -> bool {
    let cell = cells[k];

    &&& cell.element == at + k
    &&& first <= cell.start <= cell.end < past
    &&& natural <= cell.top <= cell.row < bottom_of(cell) <= total
    &&& cell.leaf ==> cell.start == cell.end && bottom_of(cell) == total && cell.top == cell.row
    &&& !cell.leaf ==> bottom_of(cell) < total && cell.row_span == 1
}

/// The first edge or the last edge of cell `j` falls inside cell `k`.
spec fn cuts(cells: Seq<HeaderCell>, j: int, k: int) -> bool {
    ||| cells[k].start < cells[j].start <= cells[k].end
    ||| cells[k].start < cells[j].end + 1 <= cells[k].end
}

/// Cell `k` covers the group that cell `j` hangs off, among cells that begin
/// with index `at`.
spec fn covers_parent(cells: Seq<HeaderCell>, at: int, j: int, k: int) -> bool {
    cells[j].parent matches Some(p) && {
        &&& at <= p < at + cells.len()
        &&& cells[k].start <= cells[p - at].start
        &&& cells[p - at].end <= cells[k].end
    }
}

/// Cell `j` is followed by a sibling that starts where it ends, or it ends where
/// the span of its siblings does.
spec fn is_followed(cells: Seq<HeaderCell>, at: int, j: int, parent: Option<usize>, past: int) -> bool {
    ||| exists|n: int|
        0 <= n < cells.len() && (#[trigger] cells[n]).parent == cells[j].parent && cells[n].start
            == cells[j].end + 1
    ||| cells[j].parent == parent && cells[j].end + 1 == past
    ||| cells[j].parent matches Some(p) && at <= p < at + cells.len() && cells[p - at].end
        == cells[j].end
}

proof fn filled_bounds<C>(node: HeaderNode<C>)
    requires
        filled(node),
    ensures
        depth(node) >= 1,
        leaves(node) >= 1,
        reach(node) == leaves(node) - 1,
    decreases node,
{
    if let NodeKind::Group(children) = node.kind {
        forest_filled_bounds(children@);
    }
}

proof fn forest_filled_bounds<C>(nodes: Seq<HeaderNode<C>>)
    requires
        forest_filled(nodes),
    ensures
        nodes.len() > 0 ==> forest_depth(nodes) >= 1 && forest_leaves(nodes) >= 1
            && forest_reach(nodes) == forest_leaves(nodes) - 1,
    decreases nodes,
{
    if nodes.len() > 0 {
        forest_filled_bounds(nodes.drop_last());
        filled_bounds(nodes.last());
    }
}

proof fn node_cells_len<C>(
    node: HeaderNode<C>,
    total: nat,
    natural: nat,
    parent: Option<usize>,
    at: nat,
    column: nat,
)
    ensures
        node_cells(node, total, natural, parent, at, column).len() == nodes_in(node),
        nodes_in(node) >= 1,
    decreases node,
{
    if let NodeKind::Group(children) = node.kind {
        forest_cells_len(
            children@,
            total,
            label_row(node, total, natural) + 1,
            Some(at as usize),
            at + 1,
            column,
        );
    }
}

proof fn forest_cells_len<C>(
    nodes: Seq<HeaderNode<C>>,
    total: nat,
    natural: nat,
    parent: Option<usize>,
    at: nat,
    column: nat,
)
    ensures
        forest_cells(nodes, total, natural, parent, at, column).len() == forest_nodes(nodes),
    decreases nodes,
{
    if nodes.len() > 0 {
        let before = nodes.drop_last();

        forest_cells_len(before, total, natural, parent, at, column);
        node_cells_len(
            nodes.last(),
            total,
            natural,
            parent,
            at + forest_nodes(before),
            column + forest_leaves(before),
        );
    }
}

/// The numbers that flattening a tree deals in fit.
spec fn fits<C>(node: HeaderNode<C>, total: nat, natural: nat, at: nat, column: nat) -> bool {
    &&& natural + depth(node) <= total <= usize::MAX
    &&& at + nodes_in(node) <= usize::MAX
    &&& column + leaves(node) <= usize::MAX
}

spec fn forest_fits<C>(
    nodes: Seq<HeaderNode<C>>,
    total: nat,
    natural: nat,
    at: nat,
    column: nat,
) -> bool {
    &&& natural + forest_depth(nodes) <= total <= usize::MAX
    &&& at + forest_nodes(nodes) <= usize::MAX
    &&& column + forest_leaves(nodes) <= usize::MAX
}

proof fn node_cells_sit_well<C>(
    node: HeaderNode<C>,
    total: nat,
    natural: nat,
    parent: Option<usize>,
    at: nat,
    column: nat,
)
    requires
        filled(node),
        fits(node, total, natural, at, column),
    ensures
        ({
            let cells = node_cells(node, total, natural, parent, at, column);

            &&& cells.len() == nodes_in(node)
            &&& cells.len() > 0
            &&& cells[0].parent == parent
            &&& cells[0].top == natural
            &&& cells[0].start == column
            &&& cells[0].end == column + leaves(node) - 1
            &&& forall|k: int|
                0 <= k < cells.len() ==> #[trigger] sits_well(
                    cells,
                    at as int,
                    k,
                    column as int,
                    (column + leaves(node)) as int,
                    natural as int,
                    total as int,
                )
            &&& forall|k: int|
                0 < k < cells.len() ==> #[trigger] hangs_off_a_group(cells, at as int, k)
        }),
    decreases node,
{
    filled_bounds(node);
    node_cells_len(node, total, natural, parent, at, column);
    if let NodeKind::Group(children) = node.kind {
        let row = label_row(node, total, natural);
        let inner = forest_cells(children@, total, row + 1, Some(at as usize), at + 1, column);
        let cells = node_cells(node, total, natural, parent, at, column);

        forest_filled_bounds(children@);
        forest_cells_sit_well(children@, total, row + 1, Some(at as usize), at + 1, column);
        assert forall|k: int| 0 <= k < cells.len() implies #[trigger] sits_well(
            cells,
            at as int,
            k,
            column as int,
            (column + leaves(node)) as int,
            natural as int,
            total as int,
        ) by {
            if k > 0 {
                assert(sits_well(
                    inner,
                    (at + 1) as int,
                    k - 1,
                    column as int,
                    (column + leaves(node)) as int,
                    (row + 1) as int,
                    total as int,
                ));
            }
        }
        assert forall|k: int| 0 < k < cells.len() implies #[trigger] hangs_off_a_group(
            cells,
            at as int,
            k,
        ) by {
            assert(sits_well(
                inner,
                (at + 1) as int,
                k - 1,
                column as int,
                (column + leaves(node)) as int,
                (row + 1) as int,
                total as int,
            ));
            assert(inner[k - 1] == cells[k]);
            if !(inner[k - 1].parent == Some(at as usize) && inner[k - 1].top == row + 1) {
                assert(hangs_off_a_group(inner, (at + 1) as int, k - 1));
                let p = inner[k - 1].parent->0;
                assert(inner[p - (at + 1)] == cells[p - at]);
            }
        }
    }
}

proof fn forest_cells_sit_well<C>(
    nodes: Seq<HeaderNode<C>>,
    total: nat,
    natural: nat,
    parent: Option<usize>,
    at: nat,
    column: nat,
)
    requires
        forest_filled(nodes),
        forest_fits(nodes, total, natural, at, column),
    ensures
        ({
            let cells = forest_cells(nodes, total, natural, parent, at, column);

            &&& cells.len() == forest_nodes(nodes)
            &&& forall|k: int|
                0 <= k < cells.len() ==> #[trigger] sits_well(
                    cells,
                    at as int,
                    k,
                    column as int,
                    (column + forest_leaves(nodes)) as int,
                    natural as int,
                    total as int,
                )
            &&& forall|k: int|
                0 <= k < cells.len() ==> #[trigger] hangs_off_a_group(cells, at as int, k) || (
                cells[k].parent == parent && cells[k].top == natural)
        }),
    decreases nodes,
{
    forest_cells_len(nodes, total, natural, parent, at, column);
    if nodes.len() > 0 {
        let before = nodes.drop_last();
        let head = forest_cells(before, total, natural, parent, at, column);
        let at2 = at + forest_nodes(before);
        let column2 = column + forest_leaves(before);
        let tail = node_cells(nodes.last(), total, natural, parent, at2, column2);
        let cells = forest_cells(nodes, total, natural, parent, at, column);
        let past = (column + forest_leaves(nodes)) as int;

        forest_cells_sit_well(before, total, natural, parent, at, column);
        node_cells_sit_well(nodes.last(), total, natural, parent, at2, column2);
        assert forall|k: int| 0 <= k < cells.len() implies #[trigger] sits_well(
            cells,
            at as int,
            k,
            column as int,
            past,
            natural as int,
            total as int,
        ) by {
            if k < head.len() {
                assert(sits_well(
                    head,
                    at as int,
                    k,
                    column as int,
                    column2 as int,
                    natural as int,
                    total as int,
                ));
            } else {
                assert(sits_well(
                    tail,
                    at2 as int,
                    k - head.len(),
                    column2 as int,
                    past,
                    natural as int,
                    total as int,
                ));
            }
        }
        assert forall|k: int| 0 <= k < cells.len() implies #[trigger] hangs_off_a_group(
            cells,
            at as int,
            k,
        ) || (cells[k].parent == parent && cells[k].top == natural) by {
            if k < head.len() {
                assert(hangs_off_a_group(head, at as int, k) || (head[k].parent == parent
                    && head[k].top == natural));
            } else {
                let m = k - head.len();
                assert(cells[k] == tail[m]);
                if m > 0 {
                    assert(hangs_off_a_group(tail, at2 as int, m));
                    let p = tail[m].parent->0;
                    assert(tail[p - at2] == cells[p - at]);
                }
            }
        }
    }
}

proof fn node_owner<C>(
    node: HeaderNode<C>,
    total: nat,
    natural: nat,
    parent: Option<usize>,
    at: nat,
    column: nat,
    row: int,
    place: int,
) -> (k: int)
    requires
        filled(node),
        fits(node, total, natural, at, column),
        natural <= row < total,
        column <= place < column + leaves(node),
    ensures
        only_owner(node_cells(node, total, natural, parent, at, column), k, row, place),
    decreases node,
{
    let cells = node_cells(node, total, natural, parent, at, column);

    node_cells_sit_well(node, total, natural, parent, at, column);
    assert(sits_well(
        cells,
        at as int,
        0,
        column as int,
        (column + leaves(node)) as int,
        natural as int,
        total as int,
    ));
    match node.kind {
        NodeKind::Leaf(_) => { 0 },
        NodeKind::Group(children) => {
            let label = label_row(node, total, natural);
            let inner = forest_cells(children@, total, label + 1, Some(at as usize), at + 1, column);

            assert(cells.drop_first() =~= inner);
            forest_filled_bounds(children@);
            forest_cells_sit_well(children@, total, label + 1, Some(at as usize), at + 1, column);
            if row <= label {
                assert forall|j: int|
                    0 <= j < cells.len() && owns(#[trigger] cells[j], row, place) implies j == 0 by {
                    if j > 0 {
                        assert(sits_well(
                            inner,
                            (at + 1) as int,
                            j - 1,
                            column as int,
                            (column + leaves(node)) as int,
                            (label + 1) as int,
                            total as int,
                        ));
                    }
                }
                0
            } else {
                let m = forest_owner(
                    children@,
                    total,
                    label + 1,
                    Some(at as usize),
                    at + 1,
                    column,
                    row,
                    place,
                );
                assert forall|j: int|
                    0 <= j < cells.len() && owns(#[trigger] cells[j], row, place) implies j == m
                    + 1 by {
                    if j > 0 {
                        assert(inner[j - 1] == cells[j]);
                    }
                }
                m + 1
            }
        },
    }
}

proof fn forest_owner<C>(
    nodes: Seq<HeaderNode<C>>,
    total: nat,
    natural: nat,
    parent: Option<usize>,
    at: nat,
    column: nat,
    row: int,
    place: int,
) -> (k: int)
    requires
        forest_filled(nodes),
        forest_fits(nodes, total, natural, at, column),
        natural <= row < total,
        column <= place < column + forest_leaves(nodes),
    ensures
        only_owner(forest_cells(nodes, total, natural, parent, at, column), k, row, place),
    decreases nodes,
{
    let before = nodes.drop_last();
    let head = forest_cells(before, total, natural, parent, at, column);
    let at2 = at + forest_nodes(before);
    let column2 = column + forest_leaves(before);
    let tail = node_cells(nodes.last(), total, natural, parent, at2, column2);
    let cells = forest_cells(nodes, total, natural, parent, at, column);
    let past = (column + forest_leaves(nodes)) as int;

    forest_cells_sit_well(before, total, natural, parent, at, column);
    node_cells_sit_well(nodes.last(), total, natural, parent, at2, column2);
    assert forall|j: int| 0 <= j < cells.len() implies (if j < head.len() {
        (#[trigger] cells[j]).end < column2
    } else {
        cells[j].start >= column2
    }) by {
        if j < head.len() {
            assert(sits_well(
                head,
                at as int,
                j,
                column as int,
                column2 as int,
                natural as int,
                total as int,
            ));
        } else {
            assert(sits_well(
                tail,
                at2 as int,
                j - head.len(),
                column2 as int,
                past,
                natural as int,
                total as int,
            ));
        }
    }
    if place < column2 {
        let k = forest_owner(before, total, natural, parent, at, column, row, place);
        assert forall|j: int|
            0 <= j < cells.len() && owns(#[trigger] cells[j], row, place) implies j == k by {
            assert(j < head.len());
            assert(head[j] == cells[j]);
        }
        assert(cells[k] == head[k]);
        k
    } else {
        let m = node_owner(nodes.last(), total, natural, parent, at2, column2, row, place);
        let k = m + head.len();
        assert forall|j: int|
            0 <= j < cells.len() && owns(#[trigger] cells[j], row, place) implies j == k by {
            assert(j >= head.len());
            assert(tail[j - head.len()] == cells[j]);
        }
        assert(cells[k] == tail[m]);
        k
    }
}

/// Where an edge of one cell falls inside another, the other covers the group
/// the first hangs off; and so does any other cell over a leaf.
spec fn nests(cells: Seq<HeaderCell>, at: int) -> bool {
    &&& forall|j: int, k: int|
        0 <= j < cells.len() && 0 <= k < cells.len() && #[trigger] cuts(cells, j, k)
            ==> covers_parent(cells, at, j, k)
    &&& forall|j: int, k: int|
        #![trigger cells[j], cells[k]]
        0 <= j < cells.len() && 0 <= k < cells.len() && j != k && cells[j].leaf && cells[k].start
            <= cells[j].start <= cells[k].end ==> covers_parent(cells, at, j, k)
}

proof fn node_nests<C>(
    node: HeaderNode<C>,
    total: nat,
    natural: nat,
    parent: Option<usize>,
    at: nat,
    column: nat,
)
    requires
        filled(node),
        fits(node, total, natural, at, column),
    ensures
        nests(node_cells(node, total, natural, parent, at, column), at as int),
    decreases node,
{
    let cells = node_cells(node, total, natural, parent, at, column);
    let first = column as int;
    let past = (column + leaves(node)) as int;

    node_cells_sit_well(node, total, natural, parent, at, column);
    assert forall|k: int| 0 <= k < cells.len() implies first <= (#[trigger] cells[k]).start
        <= cells[k].end < past by {
        assert(sits_well(cells, at as int, k, first, past, natural as int, total as int));
    }
    assert forall|j: int| 0 < j < cells.len() implies #[trigger] covers_parent(
        cells,
        at as int,
        j,
        0,
    ) by {
        assert(hangs_off_a_group(cells, at as int, j));
        let p = cells[j].parent->0;
        assert(first <= cells[p - at].start);
    }
    if let NodeKind::Group(children) = node.kind {
        let row = label_row(node, total, natural);
        let inner = forest_cells(children@, total, row + 1, Some(at as usize), at + 1, column);

        forest_filled_bounds(children@);
        forest_nests(children@, total, row + 1, Some(at as usize), at + 1, column);
        assert(cells.drop_first() =~= inner);
        assert forall|j: int, k: int|
            0 <= j < cells.len() && 0 <= k < cells.len() && #[trigger] cuts(
                cells,
                j,
                k,
            ) implies covers_parent(cells, at as int, j, k) by {
            if j > 0 {
                assert(covers_parent(cells, at as int, j, 0));
                if k > 0 {
                    assert(inner[j - 1] == cells[j] && inner[k - 1] == cells[k]);
                    assert(cuts(inner, j - 1, k - 1));
                    let p = cells[j].parent->0;
                    assert(inner[p - (at + 1)] == cells[p - at]);
                }
            }
        }
        assert forall|j: int, k: int|
            #![trigger cells[j], cells[k]]
            0 <= j < cells.len() && 0 <= k < cells.len() && j != k && cells[j].leaf
                && cells[k].start <= cells[j].start <= cells[k].end implies covers_parent(
            cells,
            at as int,
            j,
            k,
        ) by {
            if j > 0 {
                assert(covers_parent(cells, at as int, j, 0));
                if k > 0 {
                    assert(inner[j - 1] == cells[j] && inner[k - 1] == cells[k]);
                    assert(covers_parent(inner, (at + 1) as int, j - 1, k - 1));
                    let p = cells[j].parent->0;
                    assert(inner[p - (at + 1)] == cells[p - at]);
                }
            }
        }
    }
}

proof fn forest_nests<C>(
    nodes: Seq<HeaderNode<C>>,
    total: nat,
    natural: nat,
    parent: Option<usize>,
    at: nat,
    column: nat,
)
    requires
        forest_filled(nodes),
        forest_fits(nodes, total, natural, at, column),
    ensures
        nests(forest_cells(nodes, total, natural, parent, at, column), at as int),
    decreases nodes,
{
    if nodes.len() > 0 {
        let before = nodes.drop_last();
        let head = forest_cells(before, total, natural, parent, at, column);
        let at2 = at + forest_nodes(before);
        let column2 = column + forest_leaves(before);
        let tail = node_cells(nodes.last(), total, natural, parent, at2, column2);
        let cells = forest_cells(nodes, total, natural, parent, at, column);
        let past = (column + forest_leaves(nodes)) as int;

        forest_cells_sit_well(before, total, natural, parent, at, column);
        node_cells_sit_well(nodes.last(), total, natural, parent, at2, column2);
        forest_nests(before, total, natural, parent, at, column);
        node_nests(nodes.last(), total, natural, parent, at2, column2);
        assert forall|j: int| 0 <= j < cells.len() implies (if j < head.len() {
            (#[trigger] cells[j]) == head[j] && cells[j].start <= cells[j].end < column2
        } else {
            cells[j] == tail[j - head.len()] && column2 <= cells[j].start <= cells[j].end
        }) by {
            if j < head.len() {
                assert(sits_well(
                    head,
                    at as int,
                    j,
                    column as int,
                    column2 as int,
                    natural as int,
                    total as int,
                ));
            } else {
                assert(sits_well(
                    tail,
                    at2 as int,
                    j - head.len(),
                    column2 as int,
                    past,
                    natural as int,
                    total as int,
                ));
            }
        }
        assert forall|j: int, k: int|
            0 <= j < cells.len() && 0 <= k < cells.len() && #[trigger] cuts(
                cells,
                j,
                k,
            ) implies covers_parent(cells, at as int, j, k) by {
            let n = head.len() as int;
            assert(cells[j].start <= cells[j].end && cells[k].start <= cells[k].end);
            if j < n && k < n {
                assert(cuts(head, j, k));
                let p = cells[j].parent->0;
                assert(head[p - at] == cells[p - at]);
            } else {
                assert(j >= n && k >= n);
                assert(cuts(tail, j - n, k - n));
                let p = cells[j].parent->0;
                assert(tail[p - at2] == cells[p - at]);
            }
        }
        assert forall|j: int, k: int|
            #![trigger cells[j], cells[k]]
            0 <= j < cells.len() && 0 <= k < cells.len() && j != k && cells[j].leaf
                && cells[k].start <= cells[j].start <= cells[k].end implies covers_parent(
            cells,
            at as int,
            j,
            k,
        ) by {
            let n = head.len() as int;
            if j < n && k < n {
                assert(head[j] == cells[j] && head[k] == cells[k]);
                assert(covers_parent(head, at as int, j, k));
                let p = cells[j].parent->0;
                assert(head[p - at] == cells[p - at]);
            } else {
                assert(j >= n && k >= n);
                assert(tail[j - n] == cells[j] && tail[k - n] == cells[k]);
                assert(covers_parent(tail, at2 as int, j - n, k - n));
                let p = cells[j].parent->0;
                assert(tail[p - at2] == cells[p - at]);
            }
        }
    }
}

proof fn node_is_followed<C>(
    node: HeaderNode<C>,
    total: nat,
    natural: nat,
    parent: Option<usize>,
    at: nat,
    column: nat,
    j: int,
)
    requires
        filled(node),
        fits(node, total, natural, at, column),
        0 <= j < nodes_in(node),
    ensures
        is_followed(
            node_cells(node, total, natural, parent, at, column),
            at as int,
            j,
            parent,
            (column + leaves(node)) as int,
        ),
    decreases node,
{
    let cells = node_cells(node, total, natural, parent, at, column);

    node_cells_sit_well(node, total, natural, parent, at, column);
    if j > 0 {
        if let NodeKind::Group(children) = node.kind {
            let row = label_row(node, total, natural);
            let inner = forest_cells(children@, total, row + 1, Some(at as usize), at + 1, column);
            let past = (column + leaves(node)) as int;

            forest_cells_len(children@, total, row + 1, Some(at as usize), at + 1, column);
            forest_is_followed(
                children@,
                total,
                row + 1,
                Some(at as usize),
                at + 1,
                column,
                j - 1,
            );
            assert(cells.drop_first() =~= inner);
            assert(inner[j - 1] == cells[j]);
            if exists|n: int|
                0 <= n < inner.len() && (#[trigger] inner[n]).parent == inner[j - 1].parent
                    && inner[n].start == inner[j - 1].end + 1 {
                let n = choose|n: int|
                    0 <= n < inner.len() && (#[trigger] inner[n]).parent == inner[j - 1].parent
                        && inner[n].start == inner[j - 1].end + 1;
                assert(cells[n + 1] == inner[n]);
            } else if !(inner[j - 1].parent == Some(at as usize) && inner[j - 1].end + 1 == past) {
                let p = inner[j - 1].parent->0;
                assert(inner[p - (at + 1)] == cells[p - at]);
            }
        }
    }
}

proof fn forest_is_followed<C>(
    nodes: Seq<HeaderNode<C>>,
    total: nat,
    natural: nat,
    parent: Option<usize>,
    at: nat,
    column: nat,
    j: int,
)
    requires
        forest_filled(nodes),
        forest_fits(nodes, total, natural, at, column),
        0 <= j < forest_nodes(nodes),
    ensures
        is_followed(
            forest_cells(nodes, total, natural, parent, at, column),
            at as int,
            j,
            parent,
            (column + forest_leaves(nodes)) as int,
        ),
    decreases nodes,
{
    let before = nodes.drop_last();
    let head = forest_cells(before, total, natural, parent, at, column);
    let at2 = at + forest_nodes(before);
    let column2 = column + forest_leaves(before);
    let tail = node_cells(nodes.last(), total, natural, parent, at2, column2);
    let cells = forest_cells(nodes, total, natural, parent, at, column);

    forest_cells_sit_well(before, total, natural, parent, at, column);
    node_cells_sit_well(nodes.last(), total, natural, parent, at2, column2);
    if j < head.len() {
        forest_is_followed(before, total, natural, parent, at, column, j);
        assert(cells[j] == head[j]);
        if exists|n: int|
            0 <= n < head.len() && (#[trigger] head[n]).parent == head[j].parent && head[n].start
                == head[j].end + 1 {
            let n = choose|n: int|
                0 <= n < head.len() && (#[trigger] head[n]).parent == head[j].parent
                    && head[n].start == head[j].end + 1;
            assert(cells[n] == head[n]);
        } else if head[j].parent == parent && head[j].end + 1 == column2 {
            assert(cells[head.len() as int] == tail[0]);
        } else {
            let p = head[j].parent->0;
            assert(head[p - at] == cells[p - at]);
        }
    } else {
        let m = j - head.len();
        node_is_followed(nodes.last(), total, natural, parent, at2, column2, m);
        assert(cells[j] == tail[m]);
        if exists|n: int|
            0 <= n < tail.len() && (#[trigger] tail[n]).parent == tail[m].parent && tail[n].start
                == tail[m].end + 1 {
            let n = choose|n: int|
                0 <= n < tail.len() && (#[trigger] tail[n]).parent == tail[m].parent
                    && tail[n].start == tail[m].end + 1;
            assert(cells[n + head.len()] == tail[n]);
        } else if !(tail[m].parent == parent && tail[m].end + 1 == column + forest_leaves(nodes)) {
            let p = tail[m].parent->0;
            assert(tail[p - at2] == cells[p - at]);
        }
    }
}

proof fn header_bounds<C>(nodes: Seq<HeaderNode<C>>)
    requires
        forest_nodes(nodes) < usize::MAX,
    ensures
        forest_fits(nodes, header_rows(nodes), 0, 0, 0),
{
    forest_counts(nodes);
}

proof fn node_counts<C>(node: HeaderNode<C>)
    ensures
        depth(node) <= nodes_in(node),
        leaves(node) <= nodes_in(node),
    decreases node,
{
    if let NodeKind::Group(children) = node.kind {
        forest_counts(children@);
    }
}

/// No more levels than nodes, and no more leaves.
pub(crate) proof fn forest_counts<C>(nodes: Seq<HeaderNode<C>>)
    ensures
        forest_depth(nodes) <= forest_nodes(nodes),
        forest_leaves(nodes) <= forest_nodes(nodes),
    decreases nodes,
{
    if nodes.len() > 0 {
        forest_counts(nodes.drop_last());
        node_counts(nodes.last());
    }
}

proof fn forest_has_cell<C>(
    nodes: Seq<HeaderNode<C>>,
    total: nat,
    natural: nat,
    parent: Option<usize>,
    at: nat,
    column: nat,
    n: int,
) -> (k: int)
    requires
        forest_filled(nodes),
        forest_fits(nodes, total, natural, at, column),
        0 <= n < nodes.len(),
    ensures
        ({
            let cells = forest_cells(nodes, total, natural, parent, at, column);

            &&& 0 <= k < cells.len()
            &&& cells[k].start == column + forest_leaves(nodes.take(n))
            &&& cells[k].end + 1 == cells[k].start + leaves(nodes[n])
        }),
    decreases nodes.len(),
{
    let before = nodes.drop_last();
    let at2 = at + forest_nodes(before);
    let column2 = column + forest_leaves(before);

    forest_cells_len(before, total, natural, parent, at, column);
    node_cells_sit_well(nodes.last(), total, natural, parent, at2, column2);
    if n == nodes.len() - 1 {
        assert(nodes.take(n) =~= before);
        forest_nodes(before) as int
    } else {
        assert(before.take(n) =~= nodes.take(n));
        forest_has_cell(before, total, natural, parent, at, column, n)
    }
}

proof fn forest_has_child<C>(
    nodes: Seq<HeaderNode<C>>,
    total: nat,
    natural: nat,
    parent: Option<usize>,
    at: nat,
    column: nat,
    n: int,
    children: Seq<HeaderNode<C>>,
    m: int,
) -> (k: int)
    requires
        forest_filled(nodes),
        forest_fits(nodes, total, natural, at, column),
        0 <= n < nodes.len(),
        nodes[n].kind matches NodeKind::Group(inner) && inner@ == children,
        0 <= m < children.len(),
    ensures
        ({
            let cells = forest_cells(nodes, total, natural, parent, at, column);

            &&& 0 <= k < cells.len()
            &&& cells[k].start == column + forest_leaves(nodes.take(n)) + forest_leaves(
                children.take(m),
            )
            &&& cells[k].end + 1 == cells[k].start + leaves(children[m])
        }),
    decreases nodes.len(),
{
    let before = nodes.drop_last();
    let at2 = at + forest_nodes(before);
    let column2 = column + forest_leaves(before);

    forest_cells_len(before, total, natural, parent, at, column);
    node_cells_len(nodes.last(), total, natural, parent, at2, column2);
    if n == nodes.len() - 1 {
        let row = label_row(nodes[n], total, natural);

        assert(filled(nodes.last()));
        assert(fits(nodes.last(), total, natural, at2, column2));
        assert(depth(nodes.last()) == 1 + forest_depth(children));
        assert(nodes_in(nodes.last()) == 1 + forest_nodes(children));
        assert(leaves(nodes.last()) == forest_leaves(children));
        let inner = forest_has_cell(
            children,
            total,
            row + 1,
            Some(at2 as usize),
            at2 + 1,
            column2,
            m,
        );

        assert(nodes.take(n) =~= before);
        forest_nodes(before) + 1 + inner
    } else {
        assert(before.take(n) =~= nodes.take(n));
        forest_has_child(before, total, natural, parent, at, column, n, children, m)
    }
}

/// Each top-level node has a cell over its columns.
pub(crate) proof fn header_has_cell<C>(nodes: Seq<HeaderNode<C>>, n: int) -> (k: int)
    requires
        forest_nodes(nodes) < usize::MAX,
        forest_filled(nodes),
        0 <= n < nodes.len(),
    ensures
        0 <= k < header_cells(nodes).len(),
        header_cells(nodes)[k].start == forest_leaves(nodes.take(n)),
        header_cells(nodes)[k].end + 1 == header_cells(nodes)[k].start + leaves(nodes[n]),
{
    header_bounds(nodes);
    forest_has_cell(nodes, header_rows(nodes), 0, None, 0, 0, n)
}

/// Each child of a top-level group has a cell over its columns.
pub(crate) proof fn header_has_child<C>(
    nodes: Seq<HeaderNode<C>>,
    n: int,
    children: Seq<HeaderNode<C>>,
    m: int,
) -> (k: int)
    requires
        forest_nodes(nodes) < usize::MAX,
        forest_filled(nodes),
        0 <= n < nodes.len(),
        nodes[n].kind matches NodeKind::Group(inner) && inner@ == children,
        0 <= m < children.len(),
    ensures
        0 <= k < header_cells(nodes).len(),
        header_cells(nodes)[k].start == forest_leaves(nodes.take(n)) + forest_leaves(
            children.take(m),
        ),
        header_cells(nodes)[k].end + 1 == header_cells(nodes)[k].start + leaves(children[m]),
{
    header_bounds(nodes);
    forest_has_child(nodes, header_rows(nodes), 0, None, 0, 0, n, children, m)
}

/// Every place in the header grid belongs to exactly one cell: no overlaps, and
/// no band owned by nobody.
pub proof fn every_band_is_tiled_exactly_once<C>(
    nodes: Seq<HeaderNode<C>>,
    row: int,
    column: int,
)
    requires
        forest_nodes(nodes) < usize::MAX,
        forest_filled(nodes),
        0 <= row < header_rows(nodes),
        0 <= column < forest_leaves(nodes),
    ensures
        exists|k: int| #[trigger] only_owner(header_cells(nodes), k, row, column),
{
    header_bounds(nodes);
    let k = forest_owner(nodes, header_rows(nodes), 0, None, 0, 0, row, column);
    assert(only_owner(header_cells(nodes), k, row, column));
}

/// Every cell stays inside the header grid, and carries its own place in the
/// list as the index of its element. A leaf covers one column and reaches the
/// body; a group's label takes one row and stops short of the body.
pub proof fn cells_stay_in_the_header<C>(nodes: Seq<HeaderNode<C>>, k: int)
    requires
        forest_nodes(nodes) < usize::MAX,
        forest_filled(nodes),
        0 <= k < header_cells(nodes).len(),
    ensures
        ({
            let cell = header_cells(nodes)[k];

            &&& cell.element == k
            &&& cell.start <= cell.end < forest_leaves(nodes)
            &&& cell.top <= cell.row < bottom_of(cell) <= header_rows(nodes)
            &&& cell.leaf ==> cell.start == cell.end && cell.top == cell.row && bottom_of(cell)
                == header_rows(nodes)
            &&& !cell.leaf ==> cell.row_span == 1 && bottom_of(cell) < header_rows(nodes)
        }),
{
    header_bounds(nodes);
    forest_cells_sit_well(nodes, header_rows(nodes), 0, None, 0, 0);
    assert(sits_well(
        header_cells(nodes),
        0,
        k,
        0,
        forest_leaves(nodes) as int,
        0,
        header_rows(nodes) as int,
    ));
}

/// A cell without a parent starts at the top of the header. Any other hangs off
/// a group that comes before it: it stays within the group's columns and starts
/// on the row below the group's label, so the label sits on its children.
pub proof fn a_parent_is_the_group_a_node_hangs_off<C>(nodes: Seq<HeaderNode<C>>, k: int)
    requires
        forest_nodes(nodes) < usize::MAX,
        forest_filled(nodes),
        0 <= k < header_cells(nodes).len(),
    ensures
        ({
            let cells = header_cells(nodes);

            match cells[k].parent {
                None => cells[k].top == 0,
                Some(p) => {
                    &&& p < k
                    &&& !cells[p as int].leaf
                    &&& cells[p as int].start <= cells[k].start
                    &&& cells[k].end <= cells[p as int].end
                    &&& cells[k].top == bottom_of(cells[p as int])
                },
            }
        }),
{
    header_bounds(nodes);
    forest_cells_sit_well(nodes, header_rows(nodes), 0, None, 0, 0);
    assert(hangs_off_a_group(header_cells(nodes), 0, k) || (header_cells(nodes)[k].parent is None
        && header_cells(nodes)[k].top == 0));
}

/// Every column has exactly one leaf cell, and it is the one [`leaf_index`]
/// finds.
pub proof fn every_column_has_one_leaf<C>(nodes: Seq<HeaderNode<C>>, column: usize)
    requires
        forest_nodes(nodes) < usize::MAX,
        forest_filled(nodes),
        column < forest_leaves(nodes),
    ensures
        ({
            let cells = header_cells(nodes);
            let index = leaf_index(cells, column) as int;

            &&& index < cells.len()
            &&& cells[index].leaf
            &&& cells[index].start == column
            &&& cells[index].end == column
            &&& forall|k: int|
                0 <= k < cells.len() && (#[trigger] cells[k]).leaf && cells[k].start == column
                    ==> k == index
        }),
{
    let cells = header_cells(nodes);
    let rows = header_rows(nodes);

    header_bounds(nodes);
    forest_filled_bounds(nodes);
    let owner = forest_owner(nodes, rows, 0, None, 0, 0, rows - 1, column as int);
    assert forall|k: int|
        0 <= k < cells.len() && (#[trigger] cells[k]).leaf && cells[k].start == column implies k
        == owner by {
        cells_stay_in_the_header(nodes, k);
        assert(owns(cells[k], rows - 1, column as int));
    }
    cells_stay_in_the_header(nodes, owner);
    leaf_index_finds(cells, column, owner);
}

proof fn leaf_index_finds(cells: Seq<HeaderCell>, column: usize, k: int)
    requires
        0 <= k < cells.len(),
        cells[k].leaf,
        cells[k].start == column,
    ensures
        leaf_index(cells, column) <= k,
        cells[leaf_index(cells, column) as int].leaf,
        cells[leaf_index(cells, column) as int].start == column,
    decreases cells.len(),
{
    if k < cells.len() - 1 {
        leaf_index_finds(cells.drop_last(), column, k);
    } else {
        leaf_index_is_bounded(cells.drop_last(), column);
    }
}

proof fn leaf_index_is_bounded(cells: Seq<HeaderCell>, column: usize)
    ensures
        leaf_index(cells, column) <= cells.len(),
        leaf_index(cells, column) < cells.len() ==> {
            &&& cells[leaf_index(cells, column) as int].leaf
            &&& cells[leaf_index(cells, column) as int].start == column
        },
    decreases cells.len(),
{
    if cells.len() > 0 {
        leaf_index_is_bounded(cells.drop_last(), column);
    }
}

/// The frozen columns are a prefix that splits no header cell: each is wholly
/// inside it or wholly outside.
pub proof fn the_frozen_prefix_splits_no_cell<C>(nodes: Seq<HeaderNode<C>>, k: int)
    requires
        forest_nodes(nodes) < usize::MAX,
        forest_filled(nodes),
        0 <= k < header_cells(nodes).len(),
    ensures
        frozen_columns(nodes) <= forest_leaves(nodes),
        header_cells(nodes)[k].end < frozen_columns(nodes) || header_cells(nodes)[k].start
            >= frozen_columns(nodes),
{
    header_bounds(nodes);
    sticky_run_is_bounded(nodes);
    no_cell_straddles(nodes, header_rows(nodes), 0, None, 0, 0, sticky_run(nodes) as int, k);
}

/// No more columns are frozen than there are.
pub proof fn frozen_columns_are_columns<C>(nodes: Seq<HeaderNode<C>>)
    ensures
        frozen_columns(nodes) <= forest_leaves(nodes),
{
    sticky_run_is_bounded(nodes);
    prefix_leaves(nodes, sticky_run(nodes) as int);
}

proof fn sticky_run_is_bounded<C>(nodes: Seq<HeaderNode<C>>)
    ensures
        sticky_run(nodes) <= nodes.len(),
    decreases nodes.len(),
{
    if nodes.len() > 0 && nodes[0].sticky {
        sticky_run_is_bounded(nodes.drop_first());
    }
}

proof fn no_cell_straddles<C>(
    nodes: Seq<HeaderNode<C>>,
    total: nat,
    natural: nat,
    parent: Option<usize>,
    at: nat,
    column: nat,
    count: int,
    k: int,
)
    requires
        forest_filled(nodes),
        forest_fits(nodes, total, natural, at, column),
        0 <= count <= nodes.len(),
        0 <= k < forest_cells(nodes, total, natural, parent, at, column).len(),
    ensures
        forest_leaves(nodes.take(count)) <= forest_leaves(nodes),
        ({
            let cell = forest_cells(nodes, total, natural, parent, at, column)[k];
            let boundary = column + forest_leaves(nodes.take(count));

            cell.end < boundary || cell.start >= boundary
        }),
    decreases nodes,
{
    let cells = forest_cells(nodes, total, natural, parent, at, column);
    let past = (column + forest_leaves(nodes)) as int;

    forest_cells_sit_well(nodes, total, natural, parent, at, column);
    assert(sits_well(cells, at as int, k, column as int, past, natural as int, total as int));
    if count == nodes.len() {
        assert(nodes.take(count) =~= nodes);
    } else {
        let before = nodes.drop_last();
        let head = forest_cells(before, total, natural, parent, at, column);
        let at2 = at + forest_nodes(before);
        let column2 = column + forest_leaves(before);
        let tail = node_cells(nodes.last(), total, natural, parent, at2, column2);

        assert(nodes.take(count) =~= before.take(count));
        prefix_leaves(before, count);
        if k < head.len() {
            no_cell_straddles(before, total, natural, parent, at, column, count, k);
        } else {
            node_cells_sit_well(nodes.last(), total, natural, parent, at2, column2);
            assert(sits_well(
                tail,
                at2 as int,
                k - head.len(),
                column2 as int,
                past,
                natural as int,
                total as int,
            ));
        }
    }
}

proof fn prefix_leaves<C>(nodes: Seq<HeaderNode<C>>, count: int)
    requires
        0 <= count <= nodes.len(),
    ensures
        forest_leaves(nodes.take(count)) <= forest_leaves(nodes),
    decreases nodes.len(),
{
    if count == nodes.len() {
        assert(nodes.take(count) =~= nodes);
    } else {
        assert(nodes.take(count) =~= nodes.drop_last().take(count));
        prefix_leaves(nodes.drop_last(), count);
    }
}

proof fn filter_holds<T>(items: Seq<T>, keep: spec_fn(T) -> bool)
    ensures
        forall|item: T| #[trigger]
            items.filter(keep).contains(item) <==> items.contains(item) && keep(item),
{
    broadcast use vstd::seq_lib::group_filter_ensures;

    assert forall|item: T| #[trigger] items.filter(keep).contains(item) implies items.contains(item)
        && keep(item) by {
        items.lemma_filter_contains_rev(keep, item);
        let at = choose|at: int|
            0 <= at < items.filter(keep).len() && items.filter(keep)[at] == item;
        assert(keep(items.filter(keep)[at]));
    }
    assert forall|item: T| items.contains(item) && keep(item) implies #[trigger] items.filter(
        keep,
    ).contains(item) by {
        let at = choose|at: int| 0 <= at < items.len() && items[at] == item;
        items.lemma_filter_contains(keep, at);
    }
}

proof fn placed_holds(ordered: Seq<HeaderCell>, cell: HeaderCell)
    ensures
        placed(ordered, cell).len() == ordered.len() + 1,
        forall|other: HeaderCell|
            #![trigger placed(ordered, cell).contains(other)]
            placed(ordered, cell).contains(other) <==> ordered.contains(other) || other == cell,
    decreases ordered.len(),
{
    broadcast use vstd::seq_lib::group_seq_properties;

    if !(ordered.len() == 0 || ordered.last().start <= cell.start) {
        placed_holds(ordered.drop_last(), cell);
        assert(ordered =~= ordered.drop_last().push(ordered.last()));
    }
}

proof fn by_start_holds(cells: Seq<HeaderCell>)
    ensures
        by_start(cells).len() == cells.len(),
        forall|cell: HeaderCell|
            #![trigger by_start(cells).contains(cell)]
            by_start(cells).contains(cell) <==> cells.contains(cell),
    decreases cells.len(),
{
    broadcast use vstd::seq_lib::group_seq_properties;

    if cells.len() > 0 {
        by_start_holds(cells.drop_last());
        placed_holds(by_start(cells.drop_last()), cells.last());
        assert(cells =~= cells.drop_last().push(cells.last()));
    }
}

/// No cell starts before one that stands left of it.
pub open spec fn in_order(cells: Seq<HeaderCell>) -> bool {
    forall|i: int, j: int|
        #![trigger cells[i], cells[j]]
        0 <= i <= j < cells.len() ==> cells[i].start <= cells[j].start
}

proof fn placed_is_in_order(ordered: Seq<HeaderCell>, cell: HeaderCell)
    requires
        in_order(ordered),
    ensures
        in_order(placed(ordered, cell)),
        placed(ordered, cell).last() == cell || (ordered.len() > 0 && placed(ordered, cell).last()
            == ordered.last()),
    decreases ordered.len(),
{
    if !(ordered.len() == 0 || ordered.last().start <= cell.start) {
        let before = ordered.drop_last();

        placed_is_in_order(before, cell);
        placed_holds(before, cell);
        assert forall|i: int| 0 <= i < placed(before, cell).len() implies (#[trigger] placed(
            before,
            cell,
        )[i]).start <= ordered.last().start by {
            assert(placed(before, cell).contains(placed(before, cell)[i]));
            if placed(before, cell)[i] != cell {
                assert(before.contains(placed(before, cell)[i]));
                let at = choose|at: int|
                    0 <= at < before.len() && before[at] == placed(before, cell)[i];
                assert(ordered[at] == before[at]);
            }
        }
    }
}

proof fn by_start_is_in_order(cells: Seq<HeaderCell>)
    ensures
        in_order(by_start(cells)),
    decreases cells.len(),
{
    if cells.len() > 0 {
        by_start_is_in_order(cells.drop_last());
        placed_is_in_order(by_start(cells.drop_last()), cells.last());
    }
}

/// Is the cell a sibling of the leaf over this column?
pub open spec fn is_sibling(cells: Seq<HeaderCell>, column: usize, k: int) -> bool {
    &&& 0 <= k < cells.len()
    &&& cells[k].parent == cells[leaf_index(cells, column) as int].parent
}

/// Is this one of the siblings of the leaf over this column?
spec fn stands_among(cells: Seq<HeaderCell>, column: usize, cell: HeaderCell) -> bool {
    exists|k: int| #[trigger] is_sibling(cells, column, k) && cells[k] == cell
}

proof fn siblings_are(cells: Seq<HeaderCell>, column: usize)
    ensures
        ({
            let siblings = by_start(
                children_of(cells, cells[leaf_index(cells, column) as int].parent),
            );

            &&& forall|i: int|
                0 <= i < siblings.len() ==> stands_among(cells, column, #[trigger] siblings[i])
            &&& forall|k: int| #[trigger]
                is_sibling(cells, column, k) ==> siblings.contains(cells[k])
            &&& in_order(siblings)
        }),
{
    let parent = cells[leaf_index(cells, column) as int].parent;
    let hangs = |cell: HeaderCell| cell.parent == parent;
    let children = children_of(cells, parent);
    let siblings = by_start(children);

    by_start_holds(children);
    by_start_is_in_order(children);
    filter_holds(cells, hangs);
    assert forall|i: int| 0 <= i < siblings.len() implies stands_among(
        cells,
        column,
        #[trigger] siblings[i],
    ) by {
        assert(siblings.contains(siblings[i]));
        assert(children.contains(siblings[i]));
        let k = choose|k: int| 0 <= k < cells.len() && cells[k] == siblings[i];
        assert(is_sibling(cells, column, k) && cells[k] == siblings[i]);
    }
    assert forall|k: int| #[trigger] is_sibling(cells, column, k) implies siblings.contains(
        cells[k],
    ) by {
        assert(hangs(cells[k]));
        assert(children.contains(cells[k]));
    }
}

/// The last sibling of a header ends where their parent does, or with the
/// header.
proof fn the_last_sibling_ends_the_family<C>(nodes: Seq<HeaderNode<C>>, column: usize)
    requires
        forest_nodes(nodes) < usize::MAX,
        forest_filled(nodes),
        column < forest_leaves(nodes),
    ensures
        ({
            let cells = header_cells(nodes);
            let parent = cells[leaf_index(cells, column) as int].parent;
            let siblings = by_start(children_of(cells, parent));

            &&& siblings.len() > 0
            &&& siblings.last().end + 1 == family_end(nodes, parent)
        }),
{
    let cells = header_cells(nodes);
    let parent = cells[leaf_index(cells, column) as int].parent;
    let siblings = by_start(children_of(cells, parent));
    let past = forest_leaves(nodes) as int;

    every_column_has_one_leaf(nodes, column);
    siblings_are(cells, column);
    assert(is_sibling(cells, column, leaf_index(cells, column) as int));
    assert(siblings.contains(cells[leaf_index(cells, column) as int]));
    let last = siblings.len() - 1;
    assert(siblings[last] == siblings.last());
    let k = choose|k: int| is_sibling(cells, column, k) && cells[k] == siblings[last];
    header_bounds(nodes);
    forest_cells_len(nodes, header_rows(nodes), 0, None, 0, 0);
    forest_is_followed(nodes, header_rows(nodes), 0, None, 0, 0, k);
    cells_stay_in_the_header(nodes, k);
    a_parent_is_the_group_a_node_hangs_off(nodes, k);
    if exists|n: int|
        0 <= n < cells.len() && (#[trigger] cells[n]).parent == cells[k].parent && cells[n].start
            == cells[k].end + 1 {
        let n = choose|n: int|
            0 <= n < cells.len() && (#[trigger] cells[n]).parent == cells[k].parent
                && cells[n].start == cells[k].end + 1;
        assert(is_sibling(cells, column, n));
        assert(siblings.contains(cells[n]));
        let at = choose|at: int| 0 <= at < siblings.len() && siblings[at] == cells[n];
        assert(siblings[at].start <= siblings[last].start);
        assert(false);
    }
}

/// The column just past those of the group with this index, or past the whole
/// header for the top level.
pub open spec fn family_end<C>(nodes: Seq<HeaderNode<C>>, parent: Option<usize>) -> int {
    match parent {
        Some(p) => header_cells(nodes)[p as int].end + 1,
        None => forest_leaves(nodes) as int,
    }
}

/// Is the slot the first or the last edge of a sibling of the leaf over this
/// column?
pub open spec fn sibling_edge(cells: Seq<HeaderCell>, column: usize, slot: int) -> bool {
    exists|k: int| #[trigger]
        is_sibling(cells, column, k) && (slot == cells[k].start || slot == cells[k].end + 1)
}

/// The slots offered for a column are the edges of its siblings, all of them,
/// as far as they keep the frozen prefix as it is.
pub proof fn slots_are_the_edges_between_siblings<C>(
    nodes: Seq<HeaderNode<C>>,
    column: usize,
    frozen: usize,
    slot: usize,
)
    requires
        forest_nodes(nodes) < usize::MAX,
        forest_filled(nodes),
        column < forest_leaves(nodes),
    ensures
        legal_slots(header_cells(nodes), column, frozen).contains(slot) <==> keeps_frozen(
            column,
            frozen,
            slot,
        ) && sibling_edge(header_cells(nodes), column, slot as int),
{
    let cells = header_cells(nodes);
    let parent = cells[leaf_index(cells, column) as int].parent;
    let siblings = by_start(children_of(cells, parent));
    let starts = siblings.map_values(|cell: HeaderCell| cell.start);
    let all = edges(siblings);
    let last = siblings.len() - 1;

    every_column_has_one_leaf(nodes, column);
    siblings_are(cells, column);
    the_last_sibling_ends_the_family(nodes, column);
    filter_holds(all, |slot: usize| keeps_frozen(column, frozen, slot));
    let k = choose|k: int| is_sibling(cells, column, k) && cells[k] == siblings[last];
    cells_stay_in_the_header(nodes, k);
    header_bounds(nodes);
    forest_counts(nodes);
    assert(all[all.len() - 1] == siblings.last().end + 1);
    if all.contains(slot) {
        let at = choose|at: int| 0 <= at < all.len() && all[at] == slot;
        if at < siblings.len() {
            let k = choose|k: int| is_sibling(cells, column, k) && cells[k] == siblings[at];
            assert(is_sibling(cells, column, k) && slot == cells[k].start);
        } else {
            assert(is_sibling(cells, column, k) && slot == cells[k].end + 1);
        }
    }
    if sibling_edge(cells, column, slot as int) {
        let k = choose|k: int| #[trigger]
            is_sibling(cells, column, k) && (slot == cells[k].start || slot == cells[k].end + 1);
        forest_cells_len(nodes, header_rows(nodes), 0, None, 0, 0);
        if slot == cells[k].start {
            let at = choose|at: int| 0 <= at < siblings.len() && siblings[at] == cells[k];
            assert(all[at] == slot);
        } else {
            forest_is_followed(nodes, header_rows(nodes), 0, None, 0, 0, k);
            if exists|n: int|
                0 <= n < cells.len() && (#[trigger] cells[n]).parent == cells[k].parent
                    && cells[n].start == cells[k].end + 1 {
                let n = choose|n: int|
                    0 <= n < cells.len() && (#[trigger] cells[n]).parent == cells[k].parent
                        && cells[n].start == cells[k].end + 1;
                assert(is_sibling(cells, column, n));
                let at = choose|at: int| 0 <= at < siblings.len() && siblings[at] == cells[n];
                assert(all[at] == slot);
            } else {
                assert(slot == family_end(nodes, parent));
                assert(all[all.len() - 1] == slot);
            }
        }
        assert(all.contains(slot));
    }
}

/// A column can always be put down where it was picked up: both its own edges
/// are offered, however many columns are frozen.
pub proof fn a_column_can_be_put_back<C>(
    nodes: Seq<HeaderNode<C>>,
    column: usize,
    frozen: usize,
)
    requires
        forest_nodes(nodes) < usize::MAX,
        forest_filled(nodes),
        column < forest_leaves(nodes),
    ensures
        ({
            let slots = legal_slots(header_cells(nodes), column, frozen);

            slots.contains(column) && slots.contains((column + 1) as usize)
        }),
{
    let cells = header_cells(nodes);
    let own = leaf_index(cells, column) as int;

    every_column_has_one_leaf(nodes, column);
    forest_counts(nodes);
    assert(is_sibling(cells, column, own));
    assert(sibling_edge(cells, column, column as int));
    assert(sibling_edge(cells, column, column + 1));
    slots_are_the_edges_between_siblings(nodes, column, frozen, column);
    slots_are_the_edges_between_siblings(nodes, column, frozen, (column + 1) as usize);
}

/// A drop changes the order exactly when the column lands somewhere else.
pub proof fn a_drop_on_its_own_edge_is_no_move(column: int, slot: int)
    ensures
        moves(column, slot) <==> landing_of(column, slot) != column,
{
}

/// A move to an offered slot keeps the columns of every cell together, so each
/// group still has one rectangle to draw its label in. The groups that the
/// column belongs to keep the columns they span.
pub proof fn a_legal_move_keeps_every_cell_together<C>(
    nodes: Seq<HeaderNode<C>>,
    column: usize,
    frozen: usize,
    slot: usize,
    k: int,
)
    requires
        forest_nodes(nodes) < usize::MAX,
        forest_filled(nodes),
        column < forest_leaves(nodes),
        legal_slots(header_cells(nodes), column, frozen).contains(slot),
        0 <= k < header_cells(nodes).len(),
    ensures
        ({
            let cell = header_cells(nodes)[k];
            let to = landing_of(column as int, slot as int);
            let first = moved_start(cell, column as int, to);

            &&& 0 <= to < forest_leaves(nodes)
            &&& forall|c: int|
                0 <= c < forest_leaves(nodes) ==> (cell.start <= c <= cell.end <==> first
                    <= #[trigger] moved(column as int, to, c) <= first + cell.end - cell.start)
            &&& !cell.leaf && cell.start <= column <= cell.end ==> first == cell.start
        }),
{
    let cells = header_cells(nodes);
    let own = leaf_index(cells, column) as int;
    let cell = cells[k];
    let to = landing_of(column as int, slot as int);

    header_bounds(nodes);
    forest_cells_len(nodes, header_rows(nodes), 0, None, 0, 0);
    forest_nests(nodes, header_rows(nodes), 0, None, 0, 0);
    every_column_has_one_leaf(nodes, column);
    slots_are_the_edges_between_siblings(nodes, column, frozen, slot);
    let s = choose|s: int| #[trigger]
        is_sibling(cells, column, s) && (slot == cells[s].start || slot == cells[s].end + 1);
    cells_stay_in_the_header(nodes, s);
    cells_stay_in_the_header(nodes, k);
    a_parent_is_the_group_a_node_hangs_off(nodes, s);
    a_parent_is_the_group_a_node_hangs_off(nodes, own);
    if k != own {
        if cell.start <= column <= cell.end {
            assert(covers_parent(cells, 0, own, k));
            assert(cell.start <= slot <= cell.end + 1);
        } else {
            if cell.start < slot <= cell.end {
                assert(cuts(cells, s, k));
                assert(covers_parent(cells, 0, s, k));
                assert(false);
            }
        }
    }
}

/// Where the first column of a cell is once the column at `from` has been moved
/// to `to`.
pub open spec fn moved_start(cell: HeaderCell, from: int, to: int) -> int {
    if cell.leaf && cell.start == from {
        to
    } else if from < cell.start && cell.end <= to {
        cell.start - 1
    } else if to <= cell.start && cell.end < from {
        cell.start + 1
    } else {
        cell.start as int
    }
}

/// A move to an offered slot leaves the frozen prefix with the columns it has.
pub proof fn a_legal_move_keeps_the_frozen_columns(
    column: usize,
    frozen: usize,
    slot: usize,
    other: int,
)
    requires
        keeps_frozen(column, frozen, slot),
    ensures
        other < frozen <==> moved(
            column as int,
            landing_of(column as int, slot as int),
            other,
        ) < frozen,
{
}

/// Every number is larger than those that stand left of it.
pub open spec fn increasing(items: Seq<usize>) -> bool {
    forall|i: int, j: int|
        #![trigger items[i], items[j]]
        0 <= i < j < items.len() ==> items[i] < items[j]
}

proof fn filter_keeps_the_order(items: Seq<usize>, keep: spec_fn(usize) -> bool)
    requires
        increasing(items),
    ensures
        increasing(items.filter(keep)),
    decreases items.len(),
{
    reveal_with_fuel(Seq::filter, 1);
    if items.len() > 0 {
        let rest = items.drop_last();

        assert forall|i: int, j: int| 0 <= i < j < rest.len() implies #[trigger] rest[i]
            < #[trigger] rest[j] by {
            assert(items[i] < items[j]);
        }
        filter_keeps_the_order(rest, keep);
        filter_holds(rest, keep);
        assert forall|i: int| 0 <= i < rest.filter(keep).len() implies #[trigger] rest.filter(
            keep,
        )[i] < items.last() by {
            assert(rest.filter(keep).contains(rest.filter(keep)[i]));
            let at = choose|at: int| 0 <= at < rest.len() && rest[at] == rest.filter(keep)[i];
            assert(items[at] < items[items.len() - 1]);
        }
    }
}

/// Every cell ends before the next sibling that comes after it.
spec fn apart(cells: Seq<HeaderCell>) -> bool {
    forall|j: int, k: int|
        #![trigger cells[j], cells[k]]
        0 <= j < k < cells.len() && cells[j].parent == cells[k].parent ==> cells[j].end
            < cells[k].start
}

proof fn node_is_apart<C>(
    node: HeaderNode<C>,
    total: nat,
    natural: nat,
    parent: Option<usize>,
    at: nat,
    column: nat,
)
    requires
        filled(node),
        fits(node, total, natural, at, column),
        parent matches Some(p) ==> p < at,
    ensures
        apart(node_cells(node, total, natural, parent, at, column)),
    decreases node,
{
    let cells = node_cells(node, total, natural, parent, at, column);

    node_cells_sit_well(node, total, natural, parent, at, column);
    if let NodeKind::Group(children) = node.kind {
        let row = label_row(node, total, natural);
        let inner = forest_cells(children@, total, row + 1, Some(at as usize), at + 1, column);

        forest_cells_len(children@, total, row + 1, Some(at as usize), at + 1, column);
        forest_is_apart(children@, total, row + 1, Some(at as usize), at + 1, column);
        assert forall|j: int, k: int|
            0 <= j < k < cells.len() && #[trigger] cells[j].parent == #[trigger] cells[k].parent
            implies cells[j].end < cells[k].start by {
            assert(hangs_off_a_group(cells, at as int, k));
            if j > 0 {
                assert(inner[j - 1] == cells[j] && inner[k - 1] == cells[k]);
            }
        }
    }
}

proof fn forest_is_apart<C>(
    nodes: Seq<HeaderNode<C>>,
    total: nat,
    natural: nat,
    parent: Option<usize>,
    at: nat,
    column: nat,
)
    requires
        forest_filled(nodes),
        forest_fits(nodes, total, natural, at, column),
        parent matches Some(p) ==> p < at,
    ensures
        apart(forest_cells(nodes, total, natural, parent, at, column)),
    decreases nodes,
{
    if nodes.len() > 0 {
        let before = nodes.drop_last();
        let head = forest_cells(before, total, natural, parent, at, column);
        let at2 = at + forest_nodes(before);
        let column2 = column + forest_leaves(before);
        let tail = node_cells(nodes.last(), total, natural, parent, at2, column2);
        let cells = forest_cells(nodes, total, natural, parent, at, column);

        forest_cells_sit_well(before, total, natural, parent, at, column);
        node_cells_sit_well(nodes.last(), total, natural, parent, at2, column2);
        forest_is_apart(before, total, natural, parent, at, column);
        node_is_apart(nodes.last(), total, natural, parent, at2, column2);
        assert forall|j: int, k: int|
            0 <= j < k < cells.len() && #[trigger] cells[j].parent == #[trigger] cells[k].parent
            implies cells[j].end < cells[k].start by {
            if k < head.len() {
                assert(head[j] == cells[j] && head[k] == cells[k]);
            } else {
                let m = k - head.len();

                assert(tail[m] == cells[k]);
                if j >= head.len() {
                    assert(tail[j - head.len()] == cells[j]);
                } else {
                    assert(head[j] == cells[j]);
                    assert(sits_well(
                        head,
                        at as int,
                        j,
                        column as int,
                        column2 as int,
                        natural as int,
                        total as int,
                    ));
                    assert(sits_well(
                        tail,
                        at2 as int,
                        m,
                        column2 as int,
                        (column + forest_leaves(nodes)) as int,
                        natural as int,
                        total as int,
                    ));
                }
            }
        }
    }
}

/// Every cell ends before those that come after it start.
spec fn side_by_side_cells(cells: Seq<HeaderCell>) -> bool {
    forall|i: int, j: int|
        #![trigger cells[i], cells[j]]
        0 <= i < j < cells.len() ==> cells[i].end < cells[j].start
}

proof fn siblings_stand_side_by_side(cells: Seq<HeaderCell>, parent: Option<usize>)
    requires
        apart(cells),
    ensures
        side_by_side_cells(children_of(cells, parent)),
    decreases cells.len(),
{
    let keep = |cell: HeaderCell| cell.parent == parent;

    reveal_with_fuel(Seq::filter, 1);
    if cells.len() > 0 {
        let rest = cells.drop_last();
        let kept = rest.filter(keep);

        assert forall|j: int, k: int|
            0 <= j < k < rest.len() && #[trigger] rest[j].parent == #[trigger] rest[k].parent
            implies rest[j].end < rest[k].start by {
            assert(cells[j] == rest[j] && cells[k] == rest[k]);
        }
        siblings_stand_side_by_side(rest, parent);
        assert(children_of(rest, parent) == kept);
        filter_holds(rest, keep);
        if keep(cells.last()) {
            assert forall|i: int| 0 <= i < kept.len() implies (#[trigger] kept[i]).end
                < cells.last().start by {
                assert(kept.contains(kept[i]));
                let at = choose|at: int| 0 <= at < rest.len() && rest[at] == kept[i];
                assert(cells[at] == rest[at] && cells[cells.len() - 1] == cells.last());
            }
        }
        assert(children_of(cells, parent) == if keep(cells.last()) {
            kept.push(cells.last())
        } else {
            kept
        });
    }
}

proof fn ordering_changes_nothing(cells: Seq<HeaderCell>)
    requires
        side_by_side_cells(cells),
        forall|i: int| 0 <= i < cells.len() ==> (#[trigger] cells[i]).start <= cells[i].end,
    ensures
        by_start(cells) == cells,
    decreases cells.len(),
{
    if cells.len() > 0 {
        let rest = cells.drop_last();

        assert forall|i: int, j: int| 0 <= i < j < rest.len() implies (#[trigger] rest[i]).end < (
        #[trigger] rest[j]).start by {
            assert(cells[i] == rest[i] && cells[j] == rest[j]);
        }
        assert forall|i: int| 0 <= i < rest.len() implies (#[trigger] rest[i]).start
            <= rest[i].end by {
            assert(cells[i] == rest[i]);
        }
        ordering_changes_nothing(rest);
        if rest.len() > 0 {
            assert(cells[cells.len() - 2] == rest.last());
        }
        assert(rest.push(cells.last()) =~= cells);
    }
}

/// The slots of a column are offered from left to right, and each of them once.
pub proof fn slots_run_left_to_right<C>(nodes: Seq<HeaderNode<C>>, column: usize, frozen: usize)
    requires
        forest_nodes(nodes) < usize::MAX,
        forest_filled(nodes),
        column < forest_leaves(nodes),
    ensures
        increasing(legal_slots(header_cells(nodes), column, frozen)),
{
    let cells = header_cells(nodes);
    let parent = cells[leaf_index(cells, column) as int].parent;
    let siblings = children_of(cells, parent);
    let all = edges(siblings);

    header_bounds(nodes);
    forest_counts(nodes);
    every_column_has_one_leaf(nodes, column);
    forest_is_apart(nodes, header_rows(nodes), 0, None, 0, 0);
    siblings_stand_side_by_side(cells, parent);
    filter_holds(cells, |cell: HeaderCell| cell.parent == parent);
    assert forall|i: int| 0 <= i < siblings.len() implies (#[trigger] siblings[i]).start
        <= siblings[i].end && siblings[i].end < forest_leaves(nodes) by {
        assert(siblings.contains(siblings[i]));
        let k = choose|k: int| 0 <= k < cells.len() && cells[k] == siblings[i];
        cells_stay_in_the_header(nodes, k);
    }
    ordering_changes_nothing(siblings);
    assert forall|i: int, j: int| 0 <= i < j < all.len() implies #[trigger] all[i]
        < #[trigger] all[j] by {
        let last = siblings.len() - 1;

        assert(siblings[last] == siblings.last());
        if j < siblings.len() {
            assert(siblings[i].end < siblings[j].start);
        } else if i < last {
            assert(siblings[i].end < siblings[last].start);
        }
    }
    filter_keeps_the_order(all, |slot: usize| keeps_frozen(column, frozen, slot));
}

proof fn node_has_first_child<C>(
    node: HeaderNode<C>,
    total: nat,
    natural: nat,
    parent: Option<usize>,
    at: nat,
    column: nat,
    p: int,
)
    requires
        filled(node),
        fits(node, total, natural, at, column),
        0 <= p < nodes_in(node),
        !node_cells(node, total, natural, parent, at, column)[p].leaf,
    ensures
        ({
            let cells = node_cells(node, total, natural, parent, at, column);

            &&& p + 1 < cells.len()
            &&& cells[p + 1].parent == Some((at + p) as usize)
            &&& cells[p + 1].start == cells[p].start
        }),
    decreases node,
{
    let cells = node_cells(node, total, natural, parent, at, column);

    node_cells_sit_well(node, total, natural, parent, at, column);
    if let NodeKind::Group(children) = node.kind {
        let row = label_row(node, total, natural);
        let inner = forest_cells(children@, total, row + 1, Some(at as usize), at + 1, column);

        forest_filled_bounds(children@);
        forest_cells_len(children@, total, row + 1, Some(at as usize), at + 1, column);
        assert(cells.drop_first() =~= inner);
        if p == 0 {
            forest_starts(children@, total, row + 1, Some(at as usize), at + 1, column);
            assert(cells[1] == inner[0]);
        } else {
            assert(cells[p] == inner[p - 1]);
            forest_has_first_child(
                children@,
                total,
                row + 1,
                Some(at as usize),
                at + 1,
                column,
                p - 1,
            );
            assert(cells[p + 1] == inner[p]);
        }
    }
}

proof fn forest_starts<C>(
    nodes: Seq<HeaderNode<C>>,
    total: nat,
    natural: nat,
    parent: Option<usize>,
    at: nat,
    column: nat,
)
    requires
        forest_filled(nodes),
        forest_fits(nodes, total, natural, at, column),
        nodes.len() > 0,
    ensures
        ({
            let cells = forest_cells(nodes, total, natural, parent, at, column);

            &&& cells.len() > 0
            &&& cells[0].parent == parent
            &&& cells[0].start == column
        }),
    decreases nodes.len(),
{
    let before = nodes.drop_last();
    let at2 = at + forest_nodes(before);
    let column2 = column + forest_leaves(before);

    node_cells_sit_well(nodes.last(), total, natural, parent, at2, column2);
    if before.len() > 0 {
        forest_starts(before, total, natural, parent, at, column);
    }
}

proof fn forest_has_first_child<C>(
    nodes: Seq<HeaderNode<C>>,
    total: nat,
    natural: nat,
    parent: Option<usize>,
    at: nat,
    column: nat,
    p: int,
)
    requires
        forest_filled(nodes),
        forest_fits(nodes, total, natural, at, column),
        0 <= p < forest_nodes(nodes),
        !forest_cells(nodes, total, natural, parent, at, column)[p].leaf,
    ensures
        ({
            let cells = forest_cells(nodes, total, natural, parent, at, column);

            &&& p + 1 < cells.len()
            &&& cells[p + 1].parent == Some((at + p) as usize)
            &&& cells[p + 1].start == cells[p].start
        }),
    decreases nodes,
{
    let before = nodes.drop_last();
    let head = forest_cells(before, total, natural, parent, at, column);
    let at2 = at + forest_nodes(before);
    let column2 = column + forest_leaves(before);
    let tail = node_cells(nodes.last(), total, natural, parent, at2, column2);
    let cells = forest_cells(nodes, total, natural, parent, at, column);

    forest_cells_len(before, total, natural, parent, at, column);
    node_cells_len(nodes.last(), total, natural, parent, at2, column2);
    if p < head.len() {
        assert(cells[p] == head[p]);
        forest_has_first_child(before, total, natural, parent, at, column, p);
        assert(cells[p + 1] == head[p + 1]);
    } else {
        let m = p - head.len();

        assert(cells[p] == tail[m]);
        node_has_first_child(nodes.last(), total, natural, parent, at2, column2, m);
        assert(cells[p + 1] == tail[m + 1]);
    }
}

proof fn child_over<C>(nodes: Seq<HeaderNode<C>>, p: usize, from: int, column: int) -> (k: int)
    requires
        forest_nodes(nodes) < usize::MAX,
        forest_filled(nodes),
        p < header_cells(nodes).len(),
        0 <= from < header_cells(nodes).len(),
        header_cells(nodes)[from].parent == Some(p),
        header_cells(nodes)[from].start <= column <= header_cells(nodes)[p as int].end,
    ensures
        0 <= k < header_cells(nodes).len(),
        header_cells(nodes)[k].parent == Some(p),
        header_cells(nodes)[k].start <= column <= header_cells(nodes)[k].end,
    decreases column - header_cells(nodes)[from].start,
{
    let cells = header_cells(nodes);

    cells_stay_in_the_header(nodes, from);
    if column <= cells[from].end {
        from
    } else {
        header_bounds(nodes);
        forest_cells_len(nodes, header_rows(nodes), 0, None, 0, 0);
        forest_is_followed(nodes, header_rows(nodes), 0, None, 0, 0, from);
        let next = choose|n: int|
            0 <= n < cells.len() && (#[trigger] cells[n]).parent == cells[from].parent
                && cells[n].start == cells[from].end + 1;

        child_over(nodes, p, next, column)
    }
}

/// A group spans exactly the columns of its children: a column is under the
/// group if and only if it is under a cell that hangs off the group.
pub proof fn a_group_spans_exactly_its_children<C>(
    nodes: Seq<HeaderNode<C>>,
    p: usize,
    column: int,
)
    requires
        forest_nodes(nodes) < usize::MAX,
        forest_filled(nodes),
        p < header_cells(nodes).len(),
        !header_cells(nodes)[p as int].leaf,
    ensures
        ({
            let cells = header_cells(nodes);

            cells[p as int].start <= column <= cells[p as int].end <==> exists|k: int|
                0 <= k < cells.len() && (#[trigger] cells[k]).parent == Some(p) && cells[k].start
                    <= column <= cells[k].end
        }),
{
    let cells = header_cells(nodes);

    header_bounds(nodes);
    forest_cells_len(nodes, header_rows(nodes), 0, None, 0, 0);
    if cells[p as int].start <= column <= cells[p as int].end {
        forest_has_first_child(nodes, header_rows(nodes), 0, None, 0, 0, p as int);
        let k = child_over(nodes, p, p + 1, column);

        assert(cells[k].parent == Some(p));
    }
    assert forall|k: int|
        0 <= k < cells.len() && (#[trigger] cells[k]).parent == Some(p) && cells[k].start <= column
            <= cells[k].end implies cells[p as int].start <= column <= cells[p as int].end by {
        a_parent_is_the_group_a_node_hangs_off(nodes, k);
    }
}

/// Every node has a cell and a label, and every leaf a column.
pub proof fn cells_and_labels_pair_up<C>(nodes: Seq<HeaderNode<C>>)
    ensures
        header_cells(nodes).len() == forest_nodes(nodes),
        forest_contents(nodes).len() == forest_nodes(nodes),
        forest_specs(nodes).len() == forest_leaves(nodes),
{
    forest_cells_len(nodes, header_rows(nodes), 0, None, 0, 0);
    forest_label_count(nodes);
}

proof fn node_label_count<C>(node: HeaderNode<C>)
    ensures
        contents(node).len() == nodes_in(node),
        specs(node).len() == leaves(node),
    decreases node,
{
    if let NodeKind::Group(children) = node.kind {
        forest_label_count(children@);
    }
}

proof fn forest_label_count<C>(nodes: Seq<HeaderNode<C>>)
    ensures
        forest_contents(nodes).len() == forest_nodes(nodes),
        forest_specs(nodes).len() == forest_leaves(nodes),
    decreases nodes,
{
    if nodes.len() > 0 {
        forest_label_count(nodes.drop_last());
        node_label_count(nodes.last());
    }
}

} // verus!
