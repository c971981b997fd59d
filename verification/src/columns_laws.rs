//! What holds of the demonstration's header as its columns are moved.

use vstd::prelude::*;
use crate::columns::{
    column_of, flat_specs_are, flat_trees, forest_specs_are, group_tree, grouped_specs_are, grouped_trees,
    header_trees, heading_of, label_of, node_specs_are, pinned_tree, pinning_keeps_specs, quarter_specs_are,
    quarters_have_headings, run_specs_are, run_trees, runs_keep_the_order, runs_of,
    the_header_follows_the_order, tree_specs, trees_are_each, trees_specs, unrolled, Heading,
    Stretch,
};
use crate::header::{
    forest_leaves, forest_nodes, forest_specs, landing_of, leaves, legal_slots, tree_of, trees_of,
    HeaderNode, NodeKind, Tree,
};
use crate::header_laws::{
    a_legal_move_keeps_every_cell_together, cells_and_labels_pair_up, filled, forest_filled,
    header_cells, header_has_cell, header_has_child, moved_start,
};
use crate::paint::run;
use crate::selection::reordered;
use crate::selection_laws::{a_move_keeps_the_rest_in_order, moved};

verus! {

/// The group a column belongs to, if any.
pub open spec fn group_of(logical: usize) -> Option<Heading> {
    heading_of(logical, false)
}

/// The quarter a column belongs to, if any.
pub open spec fn quarter_of(logical: usize) -> Option<Heading> {
    if group_of(logical) == Some(Heading::Financials) {
        heading_of(logical, true)
    } else {
        None
    }
}

/// Do the columns under each heading stand side by side?
pub open spec fn side_by_side(
    order: Seq<usize>,
    heading: spec_fn(usize) -> Option<Heading>,
) -> bool {
    forall|i: int, j: int, k: int|
        #![trigger order[i], order[j], order[k]]
        0 <= i <= j <= k < order.len() && heading(order[i]) is Some && heading(order[i])
            == heading(order[k]) ==> heading(order[j]) == heading(order[i])
}

/// Is every group and every quarter in one piece?
pub open spec fn groups_are_whole(order: Seq<usize>) -> bool {
    &&& side_by_side(order, |logical: usize| group_of(logical))
    &&& side_by_side(order, |logical: usize| quarter_of(logical))
}

/// The columns from `first` to `last` are those under the heading, and a move
/// keeps them together, from `at` on.
spec fn stays_together(
    order: Seq<usize>,
    heading: spec_fn(usize) -> Option<Heading>,
    from: int,
    to: int,
    first: int,
    last: int,
    at: int,
) -> bool {
    &&& forall|c: int| first <= c <= last ==> heading(#[trigger] order[c]) == heading(order[first])
    &&& forall|c: int|
        0 <= c < order.len() ==> (first <= c <= last <==> at <= #[trigger] moved(from, to, c) <= at
            + last - first)
}

/// The two columns are among some that a move keeps together.
spec fn are_kept(
    order: Seq<usize>,
    heading: spec_fn(usize) -> Option<Heading>,
    from: int,
    to: int,
    a: int,
    b: int,
) -> bool {
    exists|first: int, last: int, at: int|
        {
            &&& 0 <= first <= a <= last < order.len()
            &&& first <= b <= last
            &&& #[trigger] stays_together(order, heading, from, to, first, last, at)
        }
}

proof fn what_is_between_is_kept(
    order: Seq<usize>,
    heading: spec_fn(usize) -> Option<Heading>,
    from: int,
    to: int,
    a: int,
    b: int,
    c: int,
)
    requires
        are_kept(order, heading, from, to, a, b),
        0 <= c < order.len(),
        moved(from, to, a) <= moved(from, to, c) <= moved(from, to, b),
    ensures
        heading(order[c]) == heading(order[a]),
{
    let (first, last, at) = choose|first: int, last: int, at: int|
        {
            &&& 0 <= first <= a <= last < order.len()
            &&& first <= b <= last
            &&& #[trigger] stays_together(order, heading, from, to, first, last, at)
        };

    assert(first <= c <= last);
    assert(heading(order[a]) == heading(order[first]));
}

proof fn what_is_kept_stays_side_by_side(
    order: Seq<usize>,
    heading: spec_fn(usize) -> Option<Heading>,
    from: int,
    to: int,
)
    requires
        0 <= from < order.len(),
        0 <= to < order.len(),
        forall|a: int, b: int|
            0 <= a < order.len() && 0 <= b < order.len() && heading(order[a]) is Some && heading(
                order[a],
            ) == heading(order[b]) ==> #[trigger] are_kept(order, heading, from, to, a, b),
    ensures
        side_by_side(reordered(order, from, to), heading),
{
    let after = reordered(order, from, to);

    assert forall|i: int, j: int, k: int|
        #![trigger after[i], after[j], after[k]]
        0 <= i <= j <= k < after.len() && heading(after[i]) is Some && heading(after[i]) == heading(
            after[k],
        ) implies heading(after[j]) == heading(after[i]) by {
        let a = moved(to, from, i);
        let b = moved(to, from, k);
        let c = moved(to, from, j);

        a_move_keeps_the_rest_in_order(order, from, to);
        assert(moved(from, to, a) == i);
        assert(moved(from, to, b) == k);
        assert(moved(from, to, c) == j);
        assert(are_kept(order, heading, from, to, a, b));
        what_is_between_is_kept(order, heading, from, to, a, b, c);
    }
}

/// How many columns come before a run.
spec fn start(runs: Seq<Stretch>, n: int) -> int {
    unrolled(runs.take(n)).len() as int
}

/// The run that a place belongs to.
proof fn run_at(runs: Seq<Stretch>, place: int) -> (n: int)
    requires
        0 <= place < unrolled(runs).len(),
    ensures
        0 <= n < runs.len(),
        start(runs, n) <= place < start(runs, n) + runs[n].columns.len(),
    decreases runs.len(),
{
    let before = runs.drop_last();

    if place < unrolled(before).len() {
        let n = run_at(before, place);

        assert(before.take(n) =~= runs.take(n));
        n
    } else {
        let n = runs.len() - 1;

        assert(runs.take(n) =~= before);
        n
    }
}

proof fn a_run_is_where_it_starts(runs: Seq<Stretch>, n: int)
    requires
        0 <= n < runs.len(),
    ensures
        0 <= start(runs, n),
        start(runs, n + 1) == start(runs, n) + runs[n].columns.len(),
        start(runs, n + 1) <= unrolled(runs).len(),
        forall|i: int|
            0 <= i < runs[n].columns.len() ==> #[trigger] runs[n].columns[i] == unrolled(
                runs,
            )[start(runs, n) + i],
    decreases runs.len(),
{
    let before = runs.drop_last();

    assert(runs.take(n + 1).drop_last() =~= runs.take(n));
    if n == runs.len() - 1 {
        assert(runs.take(n) =~= before);
        assert(runs.take(n + 1) =~= runs);
    } else {
        a_run_is_where_it_starts(before, n);
        assert(before.take(n) =~= runs.take(n));
        assert(before.take(n + 1) =~= runs.take(n + 1));
        assert(before[n] == runs[n]);
    }
}

proof fn starts_run_up(runs: Seq<Stretch>, n: int, m: int)
    requires
        0 <= n <= m <= runs.len(),
    ensures
        start(runs, n) <= start(runs, m),
    decreases m - n,
{
    if n < m {
        starts_run_up(runs, n, m - 1);
        a_run_is_where_it_starts(runs, m - 1);
    }
}

/// Every run holds a column, all of its columns have its heading, one without a
/// heading holds one column, and no two neighbours share a heading.
spec fn are_runs(runs: Seq<Stretch>, by_quarter: bool) -> bool {
    &&& forall|n: int| 0 <= n < runs.len() ==> (#[trigger] runs[n]).columns.len() > 0
    &&& forall|n: int, i: int|
        0 <= n < runs.len() && 0 <= i < runs[n].columns.len() ==> heading_of(
            #[trigger] runs[n].columns[i],
            by_quarter,
        ) == runs[n].heading
    &&& forall|n: int|
        0 <= n < runs.len() && (#[trigger] runs[n]).heading is None ==> runs[n].columns.len() == 1
    &&& forall|n: int, m: int|
        #![trigger runs[n], runs[m]]
        0 <= n < runs.len() && m == n + 1 && m < runs.len() && runs[n].heading is Some
            ==> runs[n].heading != runs[m].heading
}

proof fn runs_are_runs(order: Seq<usize>, by_quarter: bool)
    ensures
        are_runs(runs_of(order, by_quarter), by_quarter),
    decreases order.len(),
{
    if order.len() > 0 {
        let before = runs_of(order.drop_last(), by_quarter);
        let after = runs_of(order, by_quarter);
        let heading = heading_of(order.last(), by_quarter);

        runs_are_runs(order.drop_last(), by_quarter);
        assert forall|n: int, i: int|
            0 <= n < after.len() && 0 <= i < after[n].columns.len() implies heading_of(
            #[trigger] after[n].columns[i],
            by_quarter,
        ) == after[n].heading by {
            if n < before.len() && i < before[n].columns.len() {
                assert(after[n].columns[i] == before[n].columns[i]);
            }
        }
    }
}

/// Neighbours under one heading are in one run.
proof fn one_run_holds_them(order: Seq<usize>, by_quarter: bool, a: int, b: int) -> (n: int)
    requires
        0 <= a <= b < order.len(),
        heading_of(order[a], by_quarter) is Some,
        forall|c: int|
            a <= c <= b ==> heading_of(#[trigger] order[c], by_quarter) == heading_of(
                order[a],
                by_quarter,
            ),
    ensures
        ({
            let runs = runs_of(order, by_quarter);

            &&& 0 <= n < runs.len()
            &&& start(runs, n) <= a
            &&& b < start(runs, n) + runs[n].columns.len()
            &&& runs[n].heading == heading_of(order[a], by_quarter)
        }),
{
    let runs = runs_of(order, by_quarter);

    runs_keep_the_order(order, by_quarter);
    runs_are_runs(order, by_quarter);
    let n = run_at(runs, a);
    let m = run_at(runs, b);

    a_run_is_where_it_starts(runs, n);
    assert(runs[n].columns[a - start(runs, n)] == order[a]);
    if b >= start(runs, n) + runs[n].columns.len() {
        if m < n {
            starts_run_up(runs, m + 1, n);
            a_run_is_where_it_starts(runs, m);
        }
        assert(n < m);
        starts_run_up(runs, n + 1, m);
        a_run_is_where_it_starts(runs, n + 1);
        assert(runs[n + 1].columns[0] == order[start(runs, n + 1)]);
    }
    n
}

/// What is known of the header over an order: a node for each run, with as many
/// columns.
proof fn a_node_for_each_run(
    nodes: Seq<HeaderNode<&'static str>>,
    order: Seq<usize>,
    sticky: bool,
    n: int,
)
    requires
        trees_of(nodes) == header_trees(order, true, sticky),
        0 <= n < runs_of(order, false).len(),
    ensures
        nodes.len() == runs_of(order, false).len(),
        tree_of(nodes[n]) == pinned_tree(run_trees(runs_of(order, false)[n])[0], sticky && n < 2),
        run_trees(runs_of(order, false)[n]).len() == 1,
        forest_leaves(nodes.take(n)) == start(runs_of(order, false), n),
        leaves(nodes[n]) == runs_of(order, false)[n].columns.len(),
{
    let runs = runs_of(order, false);
    let trees = grouped_trees(order);
    let stuck = header_trees(order, true, sticky);

    runs_are_runs(order, false);
    one_tree_each(runs, runs.len() as int);
    trees_are_each(nodes);
    // the columns before the node
    trees_are_each(nodes.take(n));
    assert(trees_of(nodes.take(n)) =~= stuck.take(n)) by {
        assert forall|k: int| 0 <= k < n implies trees_of(nodes.take(n))[k] == stuck[k] by {
            assert(tree_of(nodes.take(n)[k]) == trees_of(nodes.take(n))[k]);
            assert(tree_of(nodes[k]) == trees_of(nodes)[k]);
        }
    }
    pinning_keeps_specs(trees, sticky, n);
    assert(stuck.take(n) =~= Seq::new(
        n as nat,
        |i: int| pinned_tree(trees[i], sticky && i < 2),
    ));
    one_tree_each(runs, n);
    assert(trees.take(n) =~= run(0, n, |k: int| run_trees(runs[k])));
    grouped_specs_are(runs, n);
    forest_specs_are(nodes.take(n));
    cells_and_labels_pair_up(nodes.take(n));
    // its own columns
    let tree = run_trees(runs[n])[0];

    run_specs_are(runs[n]);
    assert(run_trees(runs[n]).drop_last() =~= seq![]);
    assert(trees_specs(run_trees(runs[n]).drop_last()) =~= seq![]);
    assert(trees_specs(run_trees(runs[n])) =~= tree_specs(tree));
    node_specs_are(nodes[n]);
    assert(tree_specs(tree_of(nodes[n])) == tree_specs(tree));
    leaves_are_counted(nodes[n]);
}

proof fn leaves_are_counted<C>(node: HeaderNode<C>)
    ensures
        leaves(node) == crate::header::specs(node).len(),
{
    let one = seq![node];

    cells_and_labels_pair_up(one);
    assert(one.drop_last() =~= seq![]);
    assert(forest_leaves(one.drop_last()) == 0);
    assert(forest_specs(one.drop_last()) =~= seq![]);
}

proof fn one_tree_each(runs: Seq<Stretch>, count: int)
    requires
        are_runs(runs, false),
        0 <= count <= runs.len(),
    ensures
        forall|k: int| 0 <= k < count ==> (#[trigger] run_trees(runs[k])).len() == 1,
        run(0, count, |k: int| run_trees(runs[k])) == Seq::new(
            count as nat,
            |k: int| run_trees(runs[k])[0],
        ),
    decreases count,
{
    if count > 0 {
        one_tree_each(runs, count - 1);
        assert(run_trees(runs[count - 1]).len() == 1);
    }
    assert(run(0, count, |k: int| run_trees(runs[k])) =~= Seq::new(
        count as nat,
        |k: int| run_trees(runs[k])[0],
    ));
}

proof fn leaves_alone_are_filled<C>(nodes: Seq<HeaderNode<C>>)
    requires
        forall|k: int| 0 <= k < nodes.len() ==> (#[trigger] trees_of(nodes)[k]) is Leaf,
    ensures
        forest_filled(nodes),
    decreases nodes.len(),
{
    trees_are_each(nodes);
    if nodes.len() > 0 {
        let before = nodes.drop_last();

        trees_are_each(before);
        assert forall|k: int| 0 <= k < before.len() implies (#[trigger] trees_of(before)[k])
            is Leaf by {
            assert(trees_of(before)[k] == tree_of(before[k]));
            assert(trees_of(nodes)[k] == tree_of(nodes[k]));
        }
        leaves_alone_are_filled(before);
        assert(trees_of(nodes)[nodes.len() - 1] == tree_of(nodes.last()));
        assert(filled(nodes.last()));
    }
}

proof fn all_filled_is_filled<C>(nodes: Seq<HeaderNode<C>>)
    requires
        forall|k: int| 0 <= k < nodes.len() ==> filled(#[trigger] nodes[k]),
    ensures
        forest_filled(nodes),
    decreases nodes.len(),
{
    if nodes.len() > 0 {
        let before = nodes.drop_last();

        assert forall|k: int| 0 <= k < before.len() implies filled(#[trigger] before[k]) by {
            assert(before[k] == nodes[k]);
        }
        all_filled_is_filled(before);
        assert(filled(nodes[nodes.len() - 1]));
    }
}

/// A group over at least one column is filled.
proof fn a_group_is_filled(node: HeaderNode<&'static str>, columns: Seq<usize>)
    requires
        tree_of(node) is Group,
        tree_of(node)->children == flat_trees(columns, true),
        columns.len() > 0,
    ensures
        filled(node),
{
    if let NodeKind::Group(children) = node.kind {
        trees_are_each(children@);
        leaves_alone_are_filled(children@);
    }
}

/// The quarters of the financials: a child for each, with as many columns.
proof fn a_child_for_each_quarter(
    nodes: Seq<HeaderNode<&'static str>>,
    order: Seq<usize>,
    sticky: bool,
    n: int,
    m: int,
) -> (children: Seq<HeaderNode<&'static str>>)
    requires
        trees_of(nodes) == header_trees(order, true, sticky),
        0 <= n < runs_of(order, false).len(),
        runs_of(order, false)[n].heading == Some(Heading::Financials),
        0 <= m < runs_of(runs_of(order, false)[n].columns, true).len(),
    ensures
        n < nodes.len(),
        nodes[n].kind matches NodeKind::Group(inner) && inner@ == children,
        children.len() == runs_of(runs_of(order, false)[n].columns, true).len(),
        tree_of(children[m]) == group_tree(runs_of(runs_of(order, false)[n].columns, true)[m]),
        forest_leaves(children.take(m)) == start(runs_of(runs_of(order, false)[n].columns, true), m),
        leaves(children[m]) == runs_of(
            runs_of(order, false)[n].columns,
            true,
        )[m].columns.len(),
{
    let stretch = runs_of(order, false)[n];
    let quarters = runs_of(stretch.columns, true);
    let trees = quarters.map_values(|quarter: Stretch| group_tree(quarter));

    a_node_for_each_run(nodes, order, sticky, n);
    assert(run_trees(stretch)[0]->children == trees);
    assert(tree_of(nodes[n]) is Group && tree_of(nodes[n])->children == trees);
    match nodes[n].kind {
        NodeKind::Group(inner) => {
            let children = inner@;
            let before = quarters.take(m);

            trees_are_each(children);
            trees_are_each(children.take(m));
            assert(tree_of(children[m]) == trees[m]);
            assert(trees_of(children.take(m)) =~= before.map_values(
                |quarter: Stretch| group_tree(quarter),
            )) by {
                assert forall|k: int| 0 <= k < m implies trees_of(children.take(m))[k]
                    == group_tree(before[k]) by {
                    assert(tree_of(children.take(m)[k]) == trees_of(children.take(m))[k]);
                    assert(tree_of(children[k]) == trees_of(children)[k]);
                }
            }
            quarter_specs_are(before);
            forest_specs_are(children.take(m));
            cells_and_labels_pair_up(children.take(m));
            flat_specs_are(quarters[m].columns, true);
            node_specs_are(children[m]);
            leaves_are_counted(children[m]);
            assert(tree_specs(group_tree(quarters[m])) == trees_specs(
                flat_trees(quarters[m].columns, true),
            ));
            children
        },
        _ => seq![],
    }
}

/// No group of the demonstration's header is empty.
pub proof fn no_group_is_empty(
    nodes: Seq<HeaderNode<&'static str>>,
    order: Seq<usize>,
    sticky: bool,
)
    requires
        trees_of(nodes) == header_trees(order, true, sticky),
    ensures
        forest_filled(nodes),
{
    let runs = runs_of(order, false);

    trees_are_each(nodes);
    runs_are_runs(order, false);
    one_tree_each(runs, runs.len() as int);
    assert forall|n: int| 0 <= n < nodes.len() implies filled(#[trigger] nodes[n]) by {
        let columns = runs[n].columns;

        a_node_for_each_run(nodes, order, sticky, n);
        match runs[n].heading {
            None => {},
            Some(Heading::Financials) => {
                let quarters = runs_of(columns, true);

                runs_are_runs(columns, true);
                runs_keep_the_order(columns, true);
                assert(quarters.len() > 0) by {
                    if quarters.len() == 0 {
                        assert(unrolled(quarters).len() == 0);
                    }
                }
                let children = a_child_for_each_quarter(nodes, order, sticky, n, 0);

                assert forall|m: int| 0 <= m < children.len() implies filled(
                    #[trigger] children[m],
                ) by {
                    let same = a_child_for_each_quarter(nodes, order, sticky, n, m);

                    a_group_is_filled(children[m], quarters[m].columns);
                }
                all_filled_is_filled(children);
            },
            Some(_) => {
                a_group_is_filled(nodes[n], columns);
            },
        }
    }
    all_filled_is_filled(nodes);
}

/// Two columns of one group are among some that the move keeps together.
proof fn a_group_is_kept(
    nodes: Seq<HeaderNode<&'static str>>,
    order: Seq<usize>,
    sticky: bool,
    column: usize,
    frozen: usize,
    slot: usize,
    a: int,
    b: int,
)
    requires
        trees_of(nodes) == header_trees(order, true, sticky),
        forest_nodes(nodes) < usize::MAX,
        groups_are_whole(order),
        column < order.len(),
        legal_slots(header_cells(nodes), column, frozen).contains(slot),
        0 <= a <= b < order.len(),
        group_of(order[a]) is Some,
        group_of(order[a]) == group_of(order[b]),
    ensures
        are_kept(
            order,
            |logical: usize| group_of(logical),
            column as int,
            landing_of(column as int, slot as int),
            a,
            b,
        ),
{
    let heading = |logical: usize| group_of(logical);
    let to = landing_of(column as int, slot as int);
    let runs = runs_of(order, false);

    no_group_is_empty(nodes, order, sticky);
    the_header_follows_the_order(nodes, order, true, sticky);
    cells_and_labels_pair_up(nodes);
    runs_keep_the_order(order, false);
    runs_are_runs(order, false);
    assert forall|c: int| a <= c <= b implies group_of(#[trigger] order[c]) == group_of(order[a]) by {
        assert(heading(order[a]) == heading(order[b]) && heading(order[c]) == heading(order[a]));
    }
    let n = one_run_holds_them(order, false, a, b);

    a_node_for_each_run(nodes, order, sticky, n);
    a_run_is_where_it_starts(runs, n);
    let k = header_has_cell(nodes, n);
    let cell = header_cells(nodes)[k];
    let first = cell.start as int;
    let last = cell.end as int;

    a_legal_move_keeps_every_cell_together(nodes, column, frozen, slot, k);
    assert forall|c: int| first <= c <= last implies heading(#[trigger] order[c]) == heading(
        order[first],
    ) by {
        assert(runs[n].columns[c - first] == order[c]);
        assert(runs[n].columns[0] == order[first]);
    }
    assert(stays_together(
        order,
        heading,
        column as int,
        to,
        first,
        last,
        moved_start(cell, column as int, to),
    ));
}

/// Two columns of one quarter are among some that the move keeps together.
proof fn a_quarter_is_kept(
    nodes: Seq<HeaderNode<&'static str>>,
    order: Seq<usize>,
    sticky: bool,
    column: usize,
    frozen: usize,
    slot: usize,
    a: int,
    b: int,
)
    requires
        trees_of(nodes) == header_trees(order, true, sticky),
        forest_nodes(nodes) < usize::MAX,
        groups_are_whole(order),
        column < order.len(),
        legal_slots(header_cells(nodes), column, frozen).contains(slot),
        0 <= a <= b < order.len(),
        quarter_of(order[a]) is Some,
        quarter_of(order[a]) == quarter_of(order[b]),
    ensures
        are_kept(
            order,
            |logical: usize| quarter_of(logical),
            column as int,
            landing_of(column as int, slot as int),
            a,
            b,
        ),
{
    let group = |logical: usize| group_of(logical);
    let heading = |logical: usize| quarter_of(logical);
    let to = landing_of(column as int, slot as int);
    let runs = runs_of(order, false);

    no_group_is_empty(nodes, order, sticky);
    the_header_follows_the_order(nodes, order, true, sticky);
    cells_and_labels_pair_up(nodes);
    runs_keep_the_order(order, false);
    runs_are_runs(order, false);
    assert forall|c: int| a <= c <= b implies group_of(#[trigger] order[c]) == group_of(order[a]) by {
        assert(group(order[a]) == group(order[b]) && group(order[c]) == group(order[a]));
    }
    let n = one_run_holds_them(order, false, a, b);
    let columns = runs[n].columns;
    let quarters = runs_of(columns, true);
    let offset = start(runs, n);

    a_node_for_each_run(nodes, order, sticky, n);
    a_run_is_where_it_starts(runs, n);
    runs_keep_the_order(columns, true);
    runs_are_runs(columns, true);
    assert forall|c: int| 0 <= c < columns.len() implies quarter_of(#[trigger] columns[c])
        == heading_of(columns[c], true) by {
        assert(heading_of(columns[c], false) == runs[n].heading);
    }
    assert forall|c: int| a - offset <= c <= b - offset implies heading_of(
        #[trigger] columns[c],
        true,
    ) == heading_of(columns[a - offset], true) by {
        assert(columns[c] == order[offset + c]);
        assert(columns[a - offset] == order[a]);
        assert(heading(order[a]) == heading(order[b]));
        assert(heading(order[offset + c]) == heading(order[a]));
    }
    let m = one_run_holds_them(columns, true, a - offset, b - offset);

    a_run_is_where_it_starts(quarters, m);
    let children = a_child_for_each_quarter(nodes, order, sticky, n, m);
    let k = header_has_child(nodes, n, children, m);
    let cell = header_cells(nodes)[k];
    let first = cell.start as int;
    let last = cell.end as int;

    a_legal_move_keeps_every_cell_together(nodes, column, frozen, slot, k);
    assert forall|c: int| first <= c <= last implies heading(#[trigger] order[c]) == heading(
        order[first],
    ) by {
        assert(columns[c - offset] == order[c]);
        assert(columns[first - offset] == order[first]);
        assert(quarters[m].columns[c - first] == columns[c - offset]);
        assert(quarters[m].columns[0] == columns[first - offset]);
    }
    assert(stays_together(
        order,
        heading,
        column as int,
        to,
        first,
        last,
        moved_start(cell, column as int, to),
    ));
}

/// A move that the grouped header offers keeps every group and every quarter in
/// one piece.
pub proof fn a_legal_move_keeps_the_groups_whole(
    nodes: Seq<HeaderNode<&'static str>>,
    order: Seq<usize>,
    sticky: bool,
    column: usize,
    frozen: usize,
    slot: usize,
)
    requires
        trees_of(nodes) == header_trees(order, true, sticky),
        forest_nodes(nodes) < usize::MAX,
        groups_are_whole(order),
        column < order.len(),
        legal_slots(header_cells(nodes), column, frozen).contains(slot),
    ensures
        groups_are_whole(reordered(order, column as int, landing_of(column as int, slot as int))),
{
    let from = column as int;
    let to = landing_of(column as int, slot as int);
    let group = |logical: usize| group_of(logical);
    let quarter = |logical: usize| quarter_of(logical);

    no_group_is_empty(nodes, order, sticky);
    the_header_follows_the_order(nodes, order, true, sticky);
    cells_and_labels_pair_up(nodes);
    a_legal_move_keeps_every_cell_together(nodes, column, frozen, slot, 0);
    assert forall|a: int, b: int|
        0 <= a < order.len() && 0 <= b < order.len() && group(order[a]) is Some && group(order[a])
            == group(order[b]) implies #[trigger] are_kept(order, group, from, to, a, b) by {
        if a <= b {
            a_group_is_kept(nodes, order, sticky, column, frozen, slot, a, b);
        } else {
            a_group_is_kept(nodes, order, sticky, column, frozen, slot, b, a);
        }
    }
    assert forall|a: int, b: int|
        0 <= a < order.len() && 0 <= b < order.len() && quarter(order[a]) is Some && quarter(
            order[a],
        ) == quarter(order[b]) implies #[trigger] are_kept(order, quarter, from, to, a, b) by {
        if a <= b {
            a_quarter_is_kept(nodes, order, sticky, column, frozen, slot, a, b);
        } else {
            a_quarter_is_kept(nodes, order, sticky, column, frozen, slot, b, a);
        }
    }
    what_is_kept_stays_side_by_side(order, group, from, to);
    what_is_kept_stays_side_by_side(order, quarter, from, to);
}

/// In the order that the demonstration starts with, every group and every
/// quarter is in one piece.
pub proof fn the_groups_start_out_whole(count: nat)
    requires
        count <= usize::MAX,
    ensures
        groups_are_whole(Seq::new(count, |i: int| i as usize)),
{
}

proof fn a_heading_stands_once(order: Seq<usize>, by_quarter: bool, n: int, m: int)
    requires
        side_by_side(order, |logical: usize| heading_of(logical, by_quarter)),
        0 <= n < m < runs_of(order, by_quarter).len(),
        runs_of(order, by_quarter)[n].heading is Some,
    ensures
        runs_of(order, by_quarter)[n].heading != runs_of(order, by_quarter)[m].heading,
{
    let heading = |logical: usize| heading_of(logical, by_quarter);
    let runs = runs_of(order, by_quarter);
    let a = start(runs, n);
    let b = start(runs, m);

    runs_keep_the_order(order, by_quarter);
    runs_are_runs(order, by_quarter);
    a_run_is_where_it_starts(runs, n);
    a_run_is_where_it_starts(runs, m);
    starts_run_up(runs, n + 1, m);
    assert(runs[n].columns[0] == order[a]);
    assert(runs[m].columns[0] == order[b]);
    if runs[n].heading == runs[m].heading {
        assert forall|c: int| a <= c <= b implies heading_of(#[trigger] order[c], by_quarter)
            == heading_of(order[a], by_quarter) by {
            assert(heading(order[a]) == heading(order[b]));
            assert(heading(order[c]) == heading(order[a]));
        }
        let both = one_run_holds_them(order, by_quarter, a, b);

        if both < n {
            a_run_is_where_it_starts(runs, both);
            starts_run_up(runs, both + 1, n);
        } else if both > n {
            starts_run_up(runs, n + 1, both);
        }
    }
}

/// Where every group is in one piece, the grouped header has one label for each:
/// no two of its runs stand under the same heading, nor do two quarters of the
/// financials.
pub proof fn a_whole_group_has_one_label(order: Seq<usize>, n: int, m: int)
    requires
        groups_are_whole(order),
    ensures
        0 <= n < m < runs_of(order, false).len() && runs_of(order, false)[n].heading is Some
            ==> runs_of(order, false)[n].heading != runs_of(order, false)[m].heading,
        forall|k: int|
            0 <= k < runs_of(order, false).len() && (#[trigger] runs_of(order, false)[k]).heading
                == Some(Heading::Financials) && 0 <= n < m < runs_of(
                runs_of(order, false)[k].columns,
                true,
            ).len() ==> runs_of(runs_of(order, false)[k].columns, true)[n].heading != runs_of(
                runs_of(order, false)[k].columns,
                true,
            )[m].heading,
{
    let runs = runs_of(order, false);
    let group = |logical: usize| group_of(logical);
    let quarter = |logical: usize| quarter_of(logical);

    assert(side_by_side(order, |logical: usize| heading_of(logical, false))) by {
        assert forall|i: int, j: int, k: int|
            #![trigger order[i], order[j], order[k]]
            0 <= i <= j <= k < order.len() && heading_of(order[i], false) is Some && heading_of(
                order[i],
                false,
            ) == heading_of(order[k], false) implies heading_of(order[j], false) == heading_of(
            order[i],
            false,
        ) by {
            assert(group(order[i]) == group(order[k]) && group(order[j]) == group(order[i]));
        }
    }
    if 0 <= n < m < runs.len() && runs[n].heading is Some {
        a_heading_stands_once(order, false, n, m);
    }
    assert forall|k: int|
        0 <= k < runs.len() && (#[trigger] runs[k]).heading == Some(Heading::Financials) && 0 <= n
            < m < runs_of(runs[k].columns, true).len() implies runs_of(
        runs[k].columns,
        true,
    )[n].heading != runs_of(runs[k].columns, true)[m].heading by {
        let columns = runs[k].columns;

        runs_keep_the_order(order, false);
        runs_are_runs(order, false);
        runs_are_runs(columns, true);
        a_run_is_where_it_starts(runs, k);
        quarters_have_headings(columns);
        assert(side_by_side(columns, |logical: usize| heading_of(logical, true))) by {
            assert forall|i: int, j: int, l: int|
                #![trigger columns[i], columns[j], columns[l]]
                0 <= i <= j <= l < columns.len() && heading_of(columns[i], true) is Some
                    && heading_of(columns[i], true) == heading_of(columns[l], true) implies
                heading_of(columns[j], true) == heading_of(columns[i], true) by {
                let at = start(runs, k);

                assert(heading_of(columns[i], false) == runs[k].heading);
                assert(heading_of(columns[j], false) == runs[k].heading);
                assert(heading_of(columns[l], false) == runs[k].heading);
                assert(columns[i] == order[at + i] && columns[j] == order[at + j]);
                assert(columns[l] == order[at + l]);
                assert(quarter(order[at + i]) == quarter(order[at + l]));
                assert(quarter(order[at + j]) == quarter(order[at + i]));
            }
        }
        a_heading_stands_once(columns, true, n, m);
    }
}

/// Each column has its label, its alignment and its sizing: ids and amounts of money
/// at the right, names and buttons at the left; ids and buttons have a width of
/// their own (70 and 110 pixels), names fill what is left, last names twice as much
/// as first names. All but the buttons can be sorted by.
pub proof fn each_column_is_what_it_holds(logical: usize, groups: bool)
    ensures
        ({
            let label = label_of(logical, groups);
            let column = column_of(logical);
            let money = 3 <= logical <= 6;

            &&& logical == 0 ==> label == "ID"
            &&& logical == 1 ==> label == "First"
            &&& logical == 2 ==> label == "Last"
            &&& (logical == 3 || logical == 5) && groups ==> label == "Revenue"
            &&& (logical == 4 || logical == 6) && groups ==> label == "Cost"
            &&& logical == 3 && !groups ==> label == "Q3 Revenue"
            &&& logical == 4 && !groups ==> label == "Q3 Cost"
            &&& logical == 5 && !groups ==> label == "Q4 Revenue"
            &&& logical == 6 && !groups ==> label == "Q4 Cost"
            &&& logical > 6 ==> label == "Actions"
            &&& column.sortable <==> logical <= 6
            &&& column.align is Right <==> logical == 0 || money
            &&& column.align is Left <==> !(logical == 0 || money)
            &&& column.sizing is Fixed <==> logical == 0 || logical > 6
            &&& column.sizing is Fill <==> logical == 1 || logical == 2
            &&& column.sizing is Fit <==> money
            &&& logical == 0 ==> column.sizing->Fixed_0.bits == 0x428c_0000
            &&& logical > 6 ==> column.sizing->Fixed_0.bits == 0x42dc_0000
            &&& logical == 1 ==> column.sizing->weight == 1
            &&& logical == 2 ==> column.sizing->weight == 2
        }),
{
}

/// Names are contacts; revenue and cost are financials, of the third quarter and of
/// the fourth. Ids and buttons stand under no heading.
pub proof fn each_column_has_its_heading(logical: usize)
    ensures
        logical == 1 || logical == 2 <==> group_of(logical) == Some(Heading::Contact),
        3 <= logical <= 6 <==> group_of(logical) == Some(Heading::Financials),
        logical == 0 || logical > 6 <==> group_of(logical) is None,
        logical == 3 || logical == 4 <==> quarter_of(logical) == Some(Heading::Q3),
        logical == 5 || logical == 6 <==> quarter_of(logical) == Some(Heading::Q4),
        !(3 <= logical <= 6) ==> quarter_of(logical) is None,
{
}

/// The columns are cut into runs without being moved: the runs one after the other
/// are the order itself. Each run is of one heading; a column without a heading is
/// a run by itself, and two neighbouring runs have different headings.
pub proof fn runs_are_cut_where_the_heading_changes(order: Seq<usize>, by_quarter: bool)
    ensures
        ({
            let runs = runs_of(order, by_quarter);

            &&& unrolled(runs) == order
            &&& forall|n: int| 0 <= n < runs.len() ==> (#[trigger] runs[n]).columns.len() > 0
            &&& forall|n: int, i: int|
                0 <= n < runs.len() && 0 <= i < runs[n].columns.len() ==> heading_of(
                    #[trigger] runs[n].columns[i],
                    by_quarter,
                ) == runs[n].heading
            &&& forall|n: int|
                0 <= n < runs.len() && (#[trigger] runs[n]).heading is None
                    ==> runs[n].columns.len() == 1
            &&& forall|n: int, m: int|
                #![trigger runs[n], runs[m]]
                0 <= n < runs.len() && m == n + 1 && m < runs.len() && runs[n].heading is Some
                    ==> runs[n].heading != runs[m].heading
        }),
{
    runs_keep_the_order(order, by_quarter);
    runs_are_runs(order, by_quarter);
}

/// Without groups the header is one leaf for each column, in their order. Either way
/// the first two of its top nodes are stuck, and no other, if any is to be.
pub proof fn a_flat_header_is_a_leaf_for_each_column(order: Seq<usize>, sticky: bool, i: int)
    requires
        0 <= i < order.len(),
    ensures
        ({
            let trees = header_trees(order, false, sticky);

            &&& trees.len() == order.len()
            &&& trees[i] is Leaf
            &&& trees[i]->Leaf_content == label_of(order[i], false)
            &&& trees[i]->spec == column_of(order[i])
            &&& trees[i]->Leaf_sticky <==> sticky && i < 2
        }),
{
}

/// With groups the first two top nodes are stuck, and no other, if any is to be.
pub proof fn two_nodes_are_stuck(order: Seq<usize>, sticky: bool, i: int)
    requires
        0 <= i < header_trees(order, true, sticky).len(),
    ensures
        ({
            let trees = header_trees(order, true, sticky);

            match trees[i] {
                Tree::Leaf { sticky: stuck, .. } => stuck <==> sticky && i < 2,
                Tree::Group { sticky: stuck, .. } => stuck <==> sticky && i < 2,
            }
        }),
{
    let runs = runs_of(order, false);

    runs_are_runs(order, false);
    one_tree_each(runs, runs.len() as int);
    assert(grouped_trees(order)[i] == run_trees(runs[i])[0]);
    if runs[i].heading is None {
        assert(run_trees(runs[i])[0] == flat_trees(runs[i].columns, true)[0]);
    }
}

} // verus!
