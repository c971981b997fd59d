//! How deep and how wide a header is, what of it is frozen, and where its columns
//! may go.

use vstd::prelude::*;
use crate::header::{
    bottom_of, depth, forest_depth, forest_leaves, forest_nodes, frozen_columns, header_rows,
    label_row, landing_of, leaf_index, leaves, legal_slots, moves, owns_row, reach, sticky_run,
    HeaderCell, HeaderNode, NodeKind,
};
use crate::header_laws::{
    every_column_has_one_leaf, forest_filled, header_cells, is_sibling, sibling_edge,
    slots_are_the_edges_between_siblings,
};

verus! {

/// The header has as many levels as the deepest of its nodes: none is deeper, and
/// one is as deep. Without nodes it still has one.
pub proof fn a_header_is_as_deep_as_its_deepest_node<C>(nodes: Seq<HeaderNode<C>>)
    ensures
        nodes.len() == 0 ==> header_rows(nodes) == 1,
        forall|n: int|
            0 <= n < nodes.len() ==> depth(#[trigger] nodes[n]) <= header_rows(nodes),
        nodes.len() > 0 ==> exists|n: int|
            0 <= n < nodes.len() && depth(#[trigger] nodes[n]) == header_rows(nodes),
{
    a_forest_is_as_deep_as_its_deepest_node(nodes);
}

proof fn a_forest_is_as_deep_as_its_deepest_node<C>(nodes: Seq<HeaderNode<C>>)
    ensures
        nodes.len() == 0 ==> forest_depth(nodes) == 0,
        forall|n: int|
            0 <= n < nodes.len() ==> depth(#[trigger] nodes[n]) <= forest_depth(nodes),
        nodes.len() > 0 ==> exists|n: int|
            0 <= n < nodes.len() && depth(#[trigger] nodes[n]) == forest_depth(nodes),
    decreases nodes.len(),
{
    if nodes.len() > 0 {
        let before = nodes.drop_last();
        let last = nodes.len() - 1;

        a_forest_is_as_deep_as_its_deepest_node(before);
        assert forall|n: int| 0 <= n < nodes.len() implies depth(#[trigger] nodes[n])
            <= forest_depth(nodes) by {
            if n < last {
                assert(before[n] == nodes[n]);
            }
        }
        if depth(nodes[last]) > forest_depth(before) {
            assert(depth(nodes[last]) == forest_depth(nodes));
        } else if before.len() == 0 {
            assert(depth(nodes[last]) == forest_depth(nodes));
        } else {
            let n = choose|n: int|
                0 <= n < before.len() && depth(#[trigger] before[n]) == forest_depth(before);
            assert(depth(nodes[n]) == forest_depth(nodes));
        }
    }
}

/// A leaf is one level deep; a group is one level deeper than the deepest of its
/// children.
pub proof fn a_group_is_one_level_over_its_children<C>(
    node: HeaderNode<C>,
    children: Vec<HeaderNode<C>>,
)
    ensures
        node.kind is Leaf ==> depth(node) == 1,
        node.kind == NodeKind::Group(children) ==> {
            &&& children@.len() == 0 ==> depth(node) == 1
            &&& forall|n: int|
                0 <= n < children@.len() ==> depth(#[trigger] children@[n]) < depth(node)
            &&& children@.len() > 0 ==> exists|n: int|
                0 <= n < children@.len() && depth(#[trigger] children@[n]) + 1 == depth(node)
        },
{
    if node.kind == NodeKind::Group(children) {
        a_forest_is_as_deep_as_its_deepest_node(children@);
    }
}

/// A leaf is one column, a group as many as its children together.
pub proof fn columns_add_up<C>(
    node: HeaderNode<C>,
    children: Vec<HeaderNode<C>>,
    first: Seq<HeaderNode<C>>,
    rest: Seq<HeaderNode<C>>,
)
    ensures
        node.kind is Leaf ==> leaves(node) == 1,
        node.kind == NodeKind::Group(children) ==> leaves(node) == forest_leaves(children@),
        forest_leaves(first + rest) == forest_leaves(first) + forest_leaves(rest),
        forest_leaves(seq![node]) == leaves(node),
        forest_leaves(Seq::<HeaderNode<C>>::empty()) == 0,
    decreases rest.len(),
{
    assert(seq![node].drop_last() =~= Seq::<HeaderNode<C>>::empty());
    assert(seq![node].last() == node);
    assert(forest_leaves(seq![node].drop_last()) == 0);
    if rest.len() == 0 {
        assert(first + rest =~= first);
    } else {
        columns_add_up(node, children, first, rest.drop_last());
        assert((first + rest).drop_last() =~= first + rest.drop_last());
        assert((first + rest).last() == rest.last());
    }
}

/// What is frozen is the columns of the nodes that are stuck, from the first node on
/// up to the first that is not: no node that is not stuck is frozen, and a stuck one
/// behind it is not either.
pub proof fn the_leading_sticky_nodes_are_frozen<C>(nodes: Seq<HeaderNode<C>>) -> (count: int)
    ensures
        0 <= count <= nodes.len(),
        forall|n: int| 0 <= n < count ==> (#[trigger] nodes[n]).sticky,
        count < nodes.len() ==> !nodes[count].sticky,
        frozen_columns(nodes) == forest_leaves(nodes.take(count)),
    decreases nodes.len(),
{
    if nodes.len() == 0 || !nodes[0].sticky {
        0
    } else {
        let rest = nodes.drop_first();
        let after = the_leading_sticky_nodes_are_frozen(rest);

        assert forall|n: int| 0 <= n < after + 1 implies (#[trigger] nodes[n]).sticky by {
            if n > 0 {
                assert(rest[n - 1].sticky);
            }
        }
        if after + 1 < nodes.len() {
            assert(nodes[after + 1] == rest[after]);
        }
        sticky_is(nodes, after + 1);
        after + 1
    }
}

proof fn sticky_is<C>(nodes: Seq<HeaderNode<C>>, length: int)
    requires
        0 <= length <= nodes.len(),
        forall|i: int| 0 <= i < length ==> (#[trigger] nodes[i]).sticky,
        length < nodes.len() ==> !nodes[length].sticky,
    ensures
        sticky_run(nodes) == length,
    decreases nodes.len(),
{
    if length > 0 {
        let rest = nodes.drop_first();

        assert forall|i: int| 0 <= i < length - 1 implies (#[trigger] rest[i]).sticky by {
            assert(nodes[i + 1].sticky);
        }
        if length < nodes.len() {
            assert(rest[length - 1] == nodes[length]);
        }
        sticky_is(rest, length - 1);
    }
}

/// A group's label sits as low as the levels beneath it allow, but never over the
/// one of the group it hangs off.
pub proof fn a_label_sits_on_its_children<C>(node: HeaderNode<C>, total: nat, natural: nat)
    ensures
        natural + depth(node) <= total ==> label_row(node, total, natural) + depth(node) == total,
        natural + depth(node) >= total ==> label_row(node, total, natural) == natural,
        label_row(node, total, natural) >= natural,
{
}

/// The leaf found over a column is the first there is.
pub proof fn the_leaf_found_is_the_first(cells: Seq<HeaderCell>, column: usize)
    ensures
        ({
            let k = leaf_index(cells, column) as int;

            &&& k <= cells.len()
            &&& k < cells.len() ==> cells[k].leaf && cells[k].start == column
            &&& forall|j: int|
                0 <= j < k ==> !((#[trigger] cells[j]).leaf && cells[j].start == column)
        }),
    decreases cells.len(),
{
    if cells.len() > 0 {
        let before = cells.drop_last();
        let k = leaf_index(cells, column) as int;

        the_leaf_found_is_the_first(before, column);
        assert forall|j: int| 0 <= j < k implies !((#[trigger] cells[j]).leaf && cells[j].start
            == column) by {
            if j < before.len() {
                assert(before[j] == cells[j]);
            }
        }
        if k < before.len() {
            assert(before[k] == cells[k]);
        }
    }
}

/// A column may be dropped on every edge of a cell that hangs off the group it hangs
/// off itself, and nowhere else; but a frozen column only as far as the frozen ones
/// reach, and any other no nearer than that.
pub proof fn a_column_moves_among_its_siblings<C>(
    nodes: Seq<HeaderNode<C>>,
    column: usize,
    frozen: usize,
    slot: usize,
    own: int,
)
    requires
        forest_nodes(nodes) < usize::MAX,
        forest_filled(nodes),
        column < forest_leaves(nodes),
        0 <= own < header_cells(nodes).len(),
        header_cells(nodes)[own].leaf,
        header_cells(nodes)[own].start == column,
    ensures
        ({
            let cells = header_cells(nodes);

            legal_slots(cells, column, frozen).contains(slot) <==> {
                &&& column < frozen ==> slot <= frozen
                &&& column >= frozen ==> slot >= frozen
                &&& exists|k: int|
                    0 <= k < cells.len() && (#[trigger] cells[k]).parent == cells[own].parent && (
                    slot == cells[k].start || slot == cells[k].end + 1)
            }
        }),
{
    let cells = header_cells(nodes);
    let index = leaf_index(cells, column) as int;

    every_column_has_one_leaf(nodes, column);
    assert(own == index);
    slots_are_the_edges_between_siblings(nodes, column, frozen, slot);
    if sibling_edge(cells, column, slot as int) {
        let k = choose|k: int| #[trigger]
            is_sibling(cells, column, k) && (slot == cells[k].start || slot == cells[k].end + 1);
        assert(cells[k].parent == cells[own].parent);
    }
    if exists|k: int|
        0 <= k < cells.len() && (#[trigger] cells[k]).parent == cells[own].parent && (slot
            == cells[k].start || slot == cells[k].end + 1) {
        let k = choose|k: int|
            0 <= k < cells.len() && (#[trigger] cells[k]).parent == cells[own].parent && (slot
                == cells[k].start || slot == cells[k].end + 1);
        assert(is_sibling(cells, column, k));
    }
}

/// A drop on either side of a column leaves it where it is; any other moves it: to
/// the gap itself on its left, to one place short of the gap on its right.
pub proof fn a_drop_lands_in_its_gap(column: int, slot: int)
    ensures
        moves(column, slot) <==> slot < column || slot > column + 1,
        slot <= column ==> landing_of(column, slot) == slot,
        slot > column ==> landing_of(column, slot) == slot - 1,
{
}

/// A cell owns the rows from where its parent's label ends to where its own does.
pub proof fn a_cell_owns_the_band_above_its_label(cell: HeaderCell, row: int)
    ensures
        owns_row(cell, row) <==> cell.top <= row && row < cell.row + cell.row_span,
        bottom_of(cell) == cell.row + cell.row_span,
{
}

} // verus!
