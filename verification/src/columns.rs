//! The columns of the demonstration, and the header over them.
//!
//! Columns are numbered *logically*; what the table shows is an order of them.
//! The header is built from that order: neighbours that belong to one group
//! stand under one label.

use vstd::prelude::*;
use crate::header::{
    forest_specs, group, leaf, plain_column, specs, tree_of, trees_of, Align, ColumnSpec,
    HeaderNode, NodeKind, Tree,
};
use crate::paint::run;
use crate::px::Px;
use crate::sizing::{Sizing, DEFAULT_MIN};

verus! {

/// Bit pattern of 70, the width of the column of ids.
pub const ID_WIDTH: u32 = 0x428c_0000;

/// Bit pattern of 110, the width of the column of buttons.
pub const ACTIONS_WIDTH: u32 = 0x42dc_0000;

/// The label of a column. Under a group it need not say which quarter it is of.
pub open spec fn label_of(logical: usize, groups: bool) -> &'static str {
    match logical {
        0 => "ID",
        1 => "First",
        2 => "Last",
        3 => if groups { "Revenue" } else { "Q3 Revenue" },
        4 => if groups { "Cost" } else { "Q3 Cost" },
        5 => if groups { "Revenue" } else { "Q4 Revenue" },
        6 => if groups { "Cost" } else { "Q4 Cost" },
        _ => "Actions",
    }
}

/// What a column is. The buttons cannot be sorted by.
pub open spec fn column_of(logical: usize) -> ColumnSpec {
    match logical {
        0 => ColumnSpec {
            sizing: Sizing::Fixed(Px { bits: ID_WIDTH }),
            align: Align::Right,
            sortable: true,
        },
        1 => ColumnSpec {
            sizing: Sizing::Fill { weight: 1, min: (Px { bits: DEFAULT_MIN }) },
            align: Align::Left,
            sortable: true,
        },
        2 => ColumnSpec {
            sizing: Sizing::Fill { weight: 2, min: (Px { bits: DEFAULT_MIN }) },
            align: Align::Left,
            sortable: true,
        },
        3 | 4 | 5 | 6 => ColumnSpec { align: Align::Right, sortable: true, ..plain_column() },
        _ => ColumnSpec { sizing: Sizing::Fixed(Px { bits: ACTIONS_WIDTH }), ..plain_column() },
    }
}

/// The header of a column.
pub open spec fn column_tree(logical: usize, groups: bool) -> Tree<&'static str> {
    Tree::Leaf {
        content: label_of(logical, groups),
        spec: column_of(logical),
        sticky: false,
    }
}

/// The header of a column.
pub fn column_header(logical: usize, groups: bool) -> (node: HeaderNode<&'static str>)
    ensures
        tree_of(node) == column_tree(logical, groups),
{
    match logical {
        0 => leaf("ID").fixed(Px { bits: ID_WIDTH }).align(Align::Right).sortable(),
        1 => leaf("First").fill(1).sortable(),
        2 => leaf("Last").fill(2).sortable(),
        3 | 4 | 5 | 6 => {
            let label = match (logical, groups) {
                (3, true) => "Revenue",
                (3, false) => "Q3 Revenue",
                (4, true) => "Cost",
                (4, false) => "Q3 Cost",
                (5, true) => "Revenue",
                (5, false) => "Q4 Revenue",
                (_, true) => "Cost",
                (_, false) => "Q4 Cost",
            };

            leaf(label).align(Align::Right).sortable()
        },
        _ => leaf("Actions").fixed(Px { bits: ACTIONS_WIDTH }),
    }
}

/// A label that several columns stand under.
#[derive(Debug, Clone, Copy, PartialEq, Eq, Structural)]
pub enum Heading {
    Contact,
    Financials,
    Q3,
    Q4,
}

/// What a heading reads.
pub open spec fn heading_text(heading: Heading) -> &'static str {
    match heading {
        Heading::Contact => "Contact",
        Heading::Financials => "Financials (Restated, Unaudited)",
        Heading::Q3 => "Q3",
        Heading::Q4 => "Q4",
    }
}

/// What a heading reads.
pub fn heading_label(heading: Heading) -> (text: &'static str)
    ensures
        text == heading_text(heading),
{
    match heading {
        Heading::Contact => "Contact",
        Heading::Financials => "Financials (Restated, Unaudited)",
        Heading::Q3 => "Q3",
        Heading::Q4 => "Q4",
    }
}

/// The heading a column stands under, if any: its group, or its quarter.
pub open spec fn heading_of(logical: usize, by_quarter: bool) -> Option<Heading> {
    if by_quarter {
        Some(if logical <= 4 { Heading::Q3 } else { Heading::Q4 })
    } else if 1 <= logical <= 2 {
        Some(Heading::Contact)
    } else if 3 <= logical <= 6 {
        Some(Heading::Financials)
    } else {
        None
    }
}

fn heading(logical: usize, by_quarter: bool) -> (heading: Option<Heading>)
    ensures
        heading == heading_of(logical, by_quarter),
{
    if by_quarter {
        if logical <= 4 {
            Some(Heading::Q3)
        } else {
            Some(Heading::Q4)
        }
    } else if 1 <= logical && logical <= 2 {
        Some(Heading::Contact)
    } else if 3 <= logical && logical <= 6 {
        Some(Heading::Financials)
    } else {
        None
    }
}

/// Neighbouring columns under one heading.
pub struct Run {
    pub heading: Option<Heading>,
    pub columns: Vec<usize>,
}

/// Neighbouring columns under one heading, as a mathematical sequence.
pub struct Stretch {
    pub heading: Option<Heading>,
    pub columns: Seq<usize>,
}

impl View for Run {
    type V = Stretch;

    open spec fn view(&self) -> Stretch {
        Stretch { heading: self.heading, columns: self.columns@ }
    }
}

/// The columns cut into runs of neighbours that stand under one heading. A
/// column without a heading is a run by itself.
pub open spec fn runs_of(order: Seq<usize>, by_quarter: bool) -> Seq<Stretch>
    decreases order.len(),
{
    if order.len() == 0 {
        seq![]
    } else {
        let before = runs_of(order.drop_last(), by_quarter);
        let heading = heading_of(order.last(), by_quarter);

        if before.len() > 0 && before.last().heading == heading && heading is Some {
            before.drop_last().push(
                Stretch { heading, columns: before.last().columns.push(order.last()) },
            )
        } else {
            before.push(Stretch { heading, columns: seq![order.last()] })
        }
    }
}

/// The columns cut into runs of neighbours that stand under one heading.
fn runs(order: &Vec<usize>, by_quarter: bool) -> (runs: Vec<Run>)
    ensures
        runs@.map_values(|run: Run| run@) == runs_of(order@, by_quarter),
{
    let mut runs: Vec<Run> = Vec::new();

    assert(runs@.map_values(|run: Run| run@) =~= runs_of(order@.take(0), by_quarter));
    for i in 0..order.len()
        invariant
            runs@.map_values(|run: Run| run@) == runs_of(order@.take(i as int), by_quarter),
    {
        let logical: usize = order[i];
        let key = heading(logical, by_quarter);
        let ghost before = runs_of(order@.take(i as int), by_quarter);

        assert(order@.take(i + 1).drop_last() =~= order@.take(i as int));
        assert(runs@.len() == before.len());
        match runs.pop() {
            Some(run) => {
                assert(run@ == before.last());
                if run.heading == key && key.is_some() {
                    let mut columns = run.columns;

                    columns.push(logical);
                    runs.push(Run { heading: key, columns });
                } else {
                    runs.push(run);
                    let mut columns: Vec<usize> = Vec::new();

                    columns.push(logical);
                    assert(columns@ =~= seq![logical]);
                    runs.push(Run { heading: key, columns });
                }
            },
            None => {
                let mut columns: Vec<usize> = Vec::new();

                columns.push(logical);
                assert(columns@ =~= seq![logical]);
                runs.push(Run { heading: key, columns });
            },
        }
        assert(runs@.map_values(|run: Run| run@) =~= runs_of(order@.take(i + 1), by_quarter));
    }
    assert(order@.take(order@.len() as int) =~= order@);
    runs
}

/// The headers of some columns, side by side.
pub open spec fn flat_trees(order: Seq<usize>, groups: bool) -> Seq<Tree<&'static str>> {
    order.map_values(|logical: usize| column_tree(logical, groups))
}

/// A group over columns side by side.
pub open spec fn group_tree(run: Stretch) -> Tree<&'static str> {
    Tree::Group {
        content: heading_text(run.heading->0),
        children: flat_trees(run.columns, true),
        sticky: false,
    }
}

/// The header of a run: each column by itself, or one group over all of them.
/// The financials have a group for each quarter in between.
pub open spec fn run_trees(run: Stretch) -> Seq<Tree<&'static str>> {
    match run.heading {
        None => flat_trees(run.columns, true),
        Some(Heading::Financials) => seq![
            Tree::Group {
                content: heading_text(Heading::Financials),
                children: runs_of(run.columns, true).map_values(
                    |quarter: Stretch| group_tree(quarter),
                ),
                sticky: false,
            },
        ],
        Some(_) => seq![group_tree(run)],
    }
}

/// The header over an order of the columns, in three levels.
pub open spec fn grouped_trees(order: Seq<usize>) -> Seq<Tree<&'static str>> {
    let runs = runs_of(order, false);

    run(0, runs.len() as int, |k: int| run_trees(runs[k]))
}

proof fn trees_of_more<C>(nodes: Seq<HeaderNode<C>>, node: HeaderNode<C>)
    ensures
        trees_of(nodes.push(node)) == trees_of(nodes).push(tree_of(node)),
        trees_of(nodes).len() == nodes.len(),
    decreases nodes.len(),
{
    assert(nodes.push(node).drop_last() =~= nodes);
    if nodes.len() > 0 {
        trees_of_more(nodes.drop_last(), nodes.last());
        assert(nodes =~= nodes.drop_last().push(nodes.last()));
    }
}

/// The headers of some columns, side by side.
pub fn flat_headers(order: &Vec<usize>, groups: bool) -> (nodes: Vec<HeaderNode<&'static str>>)
    ensures
        trees_of(nodes@) == flat_trees(order@, groups),
{
    let mut nodes: Vec<HeaderNode<&'static str>> = Vec::new();

    assert(trees_of(nodes@) =~= flat_trees(order@.take(0), groups));
    for i in 0..order.len()
        invariant
            trees_of(nodes@) == flat_trees(order@.take(i as int), groups),
    {
        let node = column_header(order[i], groups);

        proof {
            trees_of_more(nodes@, node);
        }
        nodes.push(node);
        assert(trees_of(nodes@) =~= flat_trees(order@.take(i + 1), groups));
    }
    assert(order@.take(order@.len() as int) =~= order@);
    nodes
}

fn quarters(columns: &Vec<usize>) -> (nodes: Vec<HeaderNode<&'static str>>)
    ensures
        trees_of(nodes@) == runs_of(columns@, true).map_values(
            |quarter: Stretch| group_tree(quarter),
        ),
{
    let quarters = runs(columns, true);
    let ghost views = runs_of(columns@, true);
    let mut nodes: Vec<HeaderNode<&'static str>> = Vec::new();

    proof {
        quarters_have_headings(columns@);
    }
    assert(trees_of(nodes@) =~= views.take(0).map_values(|quarter: Stretch| group_tree(quarter)));
    for i in 0..quarters.len()
        invariant
            views == quarters@.map_values(|run: Run| run@),
            forall|k: int| 0 <= k < views.len() ==> (#[trigger] views[k]).heading is Some,
            trees_of(nodes@) == views.take(i as int).map_values(
                |quarter: Stretch| group_tree(quarter),
            ),
    {
        let run = &quarters[i];

        assert(views[i as int] == run@);
        if let Some(heading) = run.heading {
            let node = group(heading_label(heading), flat_headers(&run.columns, true));

            proof {
                trees_of_more(nodes@, node);
            }
            nodes.push(node);
        }
        assert(trees_of(nodes@) =~= views.take(i + 1).map_values(
            |quarter: Stretch| group_tree(quarter),
        ));
    }
    assert(views.take(views.len() as int) =~= views);
    nodes
}

pub(crate) proof fn quarters_have_headings(order: Seq<usize>)
    ensures
        forall|k: int|
            0 <= k < runs_of(order, true).len() ==> (#[trigger] runs_of(order, true)[k]).heading
                is Some,
    decreases order.len(),
{
    if order.len() > 0 {
        quarters_have_headings(order.drop_last());
    }
}

/// The header over an order of the columns, in three levels.
pub fn grouped_headers(order: &Vec<usize>) -> (nodes: Vec<HeaderNode<&'static str>>)
    ensures
        trees_of(nodes@) == grouped_trees(order@),
{
    let runs = runs(order, false);
    let ghost views = runs_of(order@, false);
    let ghost trees = |k: int| run_trees(views[k]);
    let mut nodes: Vec<HeaderNode<&'static str>> = Vec::new();

    for i in 0..runs.len()
        invariant
            views == runs@.map_values(|run: Run| run@),
            trees == (|k: int| run_trees(views[k])),
            trees_of(nodes@) == run(0, i as int, trees),
    {
        let piece = &runs[i];
        let ghost before = trees_of(nodes@);

        assert(views[i as int] == piece@);
        match piece.heading {
            None => {
                for k in 0..piece.columns.len()
                    invariant
                        trees_of(nodes@) == before + flat_trees(
                            piece.columns@.take(k as int),
                            true,
                        ),
                {
                    let node = column_header(piece.columns[k], true);

                    proof {
                        trees_of_more(nodes@, node);
                    }
                    nodes.push(node);
                    assert(trees_of(nodes@) =~= before + flat_trees(
                        piece.columns@.take(k + 1),
                        true,
                    ));
                }
                assert(piece.columns@.take(piece.columns@.len() as int) =~= piece.columns@);
            },
            Some(heading) => {
                let children = if heading == Heading::Financials {
                    quarters(&piece.columns)
                } else {
                    flat_headers(&piece.columns, true)
                };
                let node = group(heading_label(heading), children);

                proof {
                    trees_of_more(nodes@, node);
                }
                nodes.push(node);
                assert(trees_of(nodes@) =~= before + run_trees(views[i as int]));
            },
        }
        assert(trees_of(nodes@) =~= run(0, i + 1, trees));
    }
    nodes
}

/// The shape of a node that is stuck to the leading edge if `sticky`.
pub open spec fn pinned_tree<C>(tree: Tree<C>, sticky: bool) -> Tree<C> {
    if !sticky {
        tree
    } else {
        match tree {
            Tree::Leaf { content, spec, .. } => Tree::Leaf { content, spec, sticky: true },
            Tree::Group { content, children, .. } => Tree::Group {
                content,
                children,
                sticky: true,
            },
        }
    }
}

/// The node, stuck to the leading edge if `sticky`.
pub fn pin<C>(node: HeaderNode<C>, sticky: bool) -> (result: HeaderNode<C>)
    ensures
        tree_of(result) == pinned_tree(tree_of(node), sticky),
{
    if sticky {
        node.sticky()
    } else {
        node
    }
}

/// The header of the demonstration: grouped or flat, with the first two
/// top-level nodes stuck to the leading edge if `sticky`.
pub open spec fn header_trees(order: Seq<usize>, groups: bool, sticky: bool) -> Seq<
    Tree<&'static str>,
> {
    let trees = if groups {
        grouped_trees(order)
    } else {
        flat_trees(order, false)
    };

    Seq::new(trees.len(), |i: int| pinned_tree(trees[i], sticky && i < 2))
}

/// The header of the demonstration.
pub fn headers(order: &Vec<usize>, groups: bool, sticky: bool) -> (nodes: Vec<
    HeaderNode<&'static str>,
>)
    ensures
        trees_of(nodes@) == header_trees(order@, groups, sticky),
{
    let plain = if groups {
        grouped_headers(order)
    } else {
        flat_headers(order, false)
    };
    let count: usize = plain.len();
    let ghost trees = trees_of(plain@);
    let ghost given = plain@;
    let mut nodes: Vec<HeaderNode<&'static str>> = Vec::new();
    let mut i: usize = 0;

    proof {
        trees_are_each(given);
    }
    for node in it: plain
        invariant
            it.seq() == given,
            i == it.index(),
            i <= given.len(),
            trees.len() == given.len(),
            forall|k: int| 0 <= k < given.len() ==> tree_of(#[trigger] given[k]) == trees[k],
            trees_of(nodes@) == Seq::new(
                i as nat,
                |k: int| pinned_tree(trees[k], sticky && k < 2),
            ),
            count == given.len(),
    {
        let stuck = pin(node, sticky && i < 2);

        proof {
            trees_of_more(nodes@, stuck);
        }
        nodes.push(stuck);
        assert(tree_of(node) == trees[i as int]);
        i = i + 1;
        assert(trees_of(nodes@) =~= Seq::new(
            i as nat,
            |k: int| pinned_tree(trees[k], sticky && k < 2),
        ));
    }
    nodes
}

pub(crate) proof fn trees_are_each<C>(nodes: Seq<HeaderNode<C>>)
    ensures
        trees_of(nodes).len() == nodes.len(),
        forall|k: int| 0 <= k < nodes.len() ==> tree_of(#[trigger] nodes[k]) == trees_of(nodes)[k],
    decreases nodes.len(),
{
    if nodes.len() > 0 {
        trees_are_each(nodes.drop_last());
        assert forall|k: int| 0 <= k < nodes.len() implies tree_of(#[trigger] nodes[k])
            == trees_of(nodes)[k] by {
            if k < nodes.len() - 1 {
                assert(nodes.drop_last()[k] == nodes[k]);
            }
        }
    }
}

/// The columns that the leaves of a tree stand for, from left to right.
pub open spec fn tree_specs<C>(tree: Tree<C>) -> Seq<ColumnSpec>
    decreases tree,
{
    match tree {
        Tree::Leaf { spec, .. } => seq![spec],
        Tree::Group { children, .. } => trees_specs(children),
    }
}

/// The columns that the leaves of several trees stand for, from left to right.
pub open spec fn trees_specs<C>(trees: Seq<Tree<C>>) -> Seq<ColumnSpec>
    decreases trees,
{
    if trees.len() == 0 {
        seq![]
    } else {
        trees_specs(trees.drop_last()) + tree_specs(trees.last())
    }
}

pub(crate) proof fn node_specs_are<C>(node: HeaderNode<C>)
    ensures
        specs(node) == tree_specs(tree_of(node)),
    decreases node,
{
    if let NodeKind::Group(children) = node.kind {
        forest_specs_are(children@);
    }
}

pub(crate) proof fn forest_specs_are<C>(nodes: Seq<HeaderNode<C>>)
    ensures
        forest_specs(nodes) == trees_specs(trees_of(nodes)),
    decreases nodes,
{
    if nodes.len() > 0 {
        forest_specs_are(nodes.drop_last());
        node_specs_are(nodes.last());
        assert(trees_of(nodes).drop_last() =~= trees_of(nodes.drop_last()));
    }
}

proof fn specs_of_more<C>(a: Seq<Tree<C>>, b: Seq<Tree<C>>)
    ensures
        trees_specs(a + b) == trees_specs(a) + trees_specs(b),
    decreases b.len(),
{
    if b.len() == 0 {
        assert(a + b =~= a);
    } else {
        specs_of_more(a, b.drop_last());
        assert((a + b).drop_last() =~= a + b.drop_last());
        assert(trees_specs(a + b) =~= trees_specs(a) + trees_specs(b));
    }
}

/// The columns in an order.
pub open spec fn specs_in(order: Seq<usize>) -> Seq<ColumnSpec> {
    order.map_values(|logical: usize| column_of(logical))
}

pub(crate) proof fn flat_specs_are(order: Seq<usize>, groups: bool)
    ensures
        trees_specs(flat_trees(order, groups)) == specs_in(order),
    decreases order.len(),
{
    if order.len() > 0 {
        flat_specs_are(order.drop_last(), groups);
        assert(flat_trees(order, groups).drop_last() =~= flat_trees(order.drop_last(), groups));
        assert(tree_specs(column_tree(order.last(), groups)) == seq![column_of(order.last())]);
        assert(trees_specs(flat_trees(order, groups)) =~= specs_in(order));
    } else {
        assert(flat_trees(order, groups) =~= seq![]);
        assert(specs_in(order) =~= seq![]);
    }
}

/// The columns of runs, one run after the other.
pub open spec fn unrolled(runs: Seq<Stretch>) -> Seq<usize>
    decreases runs.len(),
{
    if runs.len() == 0 {
        seq![]
    } else {
        unrolled(runs.drop_last()) + runs.last().columns
    }
}

pub(crate) proof fn runs_keep_the_order(order: Seq<usize>, by_quarter: bool)
    ensures
        unrolled(runs_of(order, by_quarter)) == order,
    decreases order.len(),
{
    if order.len() > 0 {
        let before = runs_of(order.drop_last(), by_quarter);
        let after = runs_of(order, by_quarter);

        runs_keep_the_order(order.drop_last(), by_quarter);
        assert(order =~= order.drop_last().push(order.last()));
        if after.len() == before.len() {
            assert(after.drop_last() =~= before.drop_last());
        } else {
            assert(after.drop_last() =~= before);
        }
        assert(unrolled(after) =~= order);
    } else {
        assert(unrolled(runs_of(order, by_quarter)) =~= order);
    }
}

pub(crate) proof fn quarter_specs_are(runs: Seq<Stretch>)
    ensures
        trees_specs(runs.map_values(|quarter: Stretch| group_tree(quarter))) == specs_in(
            unrolled(runs),
        ),
    decreases runs.len(),
{
    let trees = runs.map_values(|quarter: Stretch| group_tree(quarter));

    if runs.len() > 0 {
        let before = runs.drop_last();

        quarter_specs_are(before);
        flat_specs_are(runs.last().columns, true);
        assert(trees.drop_last() =~= before.map_values(|quarter: Stretch| group_tree(quarter)));
        assert(tree_specs(group_tree(runs.last())) == trees_specs(
            flat_trees(runs.last().columns, true),
        ));
        assert(specs_in(unrolled(runs)) =~= specs_in(unrolled(before)) + specs_in(
            runs.last().columns,
        ));
    } else {
        assert(trees =~= seq![]);
        assert(specs_in(unrolled(runs)) =~= seq![]);
    }
}

pub(crate) proof fn run_specs_are(run: Stretch)
    ensures
        trees_specs(run_trees(run)) == specs_in(run.columns),
{
    flat_specs_are(run.columns, true);
    runs_keep_the_order(run.columns, true);
    quarter_specs_are(runs_of(run.columns, true));
    if run.heading is Some {
        let tree = run_trees(run)[0];

        assert(run_trees(run).drop_last() =~= seq![]);
        assert(trees_specs(run_trees(run).drop_last()) =~= seq![]);
        assert(trees_specs(run_trees(run)) =~= tree_specs(tree));
        assert(tree is Group && tree_specs(tree) == trees_specs(tree->children));
    }
}

pub(crate) proof fn grouped_specs_are(runs: Seq<Stretch>, count: int)
    requires
        0 <= count <= runs.len(),
    ensures
        trees_specs(run(0, count, |k: int| run_trees(runs[k]))) == specs_in(
            unrolled(runs.take(count)),
        ),
    decreases count,
{
    let trees = |k: int| run_trees(runs[k]);

    if count > 0 {
        grouped_specs_are(runs, count - 1);
        run_specs_are(runs[count - 1]);
        specs_of_more(run(0, count - 1, trees), trees(count - 1));
        assert(runs.take(count).drop_last() =~= runs.take(count - 1));
        assert(specs_in(unrolled(runs.take(count))) =~= specs_in(unrolled(runs.take(count - 1)))
            + specs_in(runs[count - 1].columns));
    } else {
        assert(runs.take(count) =~= seq![]);
        assert(specs_in(unrolled(runs.take(count))) =~= seq![]);
    }
}

/// The header shows the columns in the order it was built from, grouped or not,
/// pinned or not: what the table calls column `i` is the `i`-th of the order.
pub proof fn the_header_follows_the_order(
    nodes: Seq<HeaderNode<&'static str>>,
    order: Seq<usize>,
    groups: bool,
    sticky: bool,
)
    requires
        trees_of(nodes) == header_trees(order, groups, sticky),
    ensures
        forest_specs(nodes) == specs_in(order),
{
    let trees = if groups {
        grouped_trees(order)
    } else {
        flat_trees(order, false)
    };

    forest_specs_are(nodes);
    pinning_keeps_specs(trees, sticky, trees.len() as int);
    assert(trees.take(trees.len() as int) =~= trees);
    if groups {
        let runs = runs_of(order, false);

        grouped_specs_are(runs, runs.len() as int);
        assert(runs.take(runs.len() as int) =~= runs);
        runs_keep_the_order(order, false);
    } else {
        flat_specs_are(order, false);
    }
}

pub(crate) proof fn pinning_keeps_specs(trees: Seq<Tree<&'static str>>, sticky: bool, count: int)
    requires
        0 <= count <= trees.len(),
    ensures
        trees_specs(
            Seq::new(count as nat, |i: int| pinned_tree(trees[i], sticky && i < 2)),
        ) == trees_specs(trees.take(count)),
    decreases count,
{
    let stuck = Seq::new(count as nat, |i: int| pinned_tree(trees[i], sticky && i < 2));

    if count > 0 {
        pinning_keeps_specs(trees, sticky, count - 1);
        assert(stuck.drop_last() =~= Seq::new(
            (count - 1) as nat,
            |i: int| pinned_tree(trees[i], sticky && i < 2),
        ));
        assert(trees.take(count).drop_last() =~= trees.take(count - 1));
        assert(tree_specs(stuck.last()) == tree_specs(trees[count - 1]));
    } else {
        assert(stuck =~= trees.take(count));
    }
}

} // verus!
