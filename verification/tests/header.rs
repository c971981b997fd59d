//! Flattening a header, and where a column may be dropped.

use advanced_table::header::{
    drop_slots, flatten, group, is_move, landing, leaf, Align, ColumnSpec, Flattened, HeaderNode,
    NodeKind,
};
use advanced_table::px::Px;
use advanced_table::selection::reorder;
use advanced_table::sizing::Sizing;

fn text(label: &'static str) -> &'static str {
    label
}

fn text_leaf(label: &'static str) -> HeaderNode<&'static str> {
    leaf(text(label))
}

#[test]
fn flat_header_is_single_row() {
    let f = flatten(vec![text_leaf("A"), text_leaf("B")]);

    assert_eq!(f.rows, 1);
    assert_eq!(f.columns.len(), 2);
    assert!(f.cells.iter().all(|c| c.is_leaf() && c.row == 0 && c.row_span == 1));
}

#[test]
fn group_spans_its_leaves_and_leaf_order_is_column_order() {
    let f = flatten(vec![
        text_leaf("Name"),
        group(
            text("Contact"),
            vec![text_leaf("Email"), text_leaf("Phone")],
        ),
    ]);

    assert_eq!(f.rows, 2);
    assert_eq!(f.columns.len(), 3);

    let group_cell = f.cells.iter().find(|c| !c.is_leaf()).unwrap();
    assert_eq!((group_cell.start, group_cell.end), (1, 2));

    // The group sits directly on top of its children, not at the root.
    assert_eq!(group_cell.row, 0);

    // The ungrouped leaf owns the whole header stack rather than sitting
    // on the last band under an orphaned blank.
    let name = f.cells.iter().find(|c| c.start == 0 && c.is_leaf()).unwrap();
    assert_eq!(name.row, 0);
    assert_eq!(name.row_span, 2);
}

fn demo_header() -> Flattened<&'static str> {
    flatten(vec![
        text_leaf("ID"),
        group(
            text("Contact"),
            vec![text_leaf("First"), text_leaf("Last")],
        ),
        group(
            text("Financials"),
            vec![
                group(
                    text("Q3"),
                    vec![text_leaf("Rev"), text_leaf("Cost")],
                ),
                group(
                    text("Q4"),
                    vec![text_leaf("Rev"), text_leaf("Cost")],
                ),
            ],
        ),
        text_leaf("Actions"),
    ])
}

#[test]
fn a_nested_leaf_may_only_move_within_its_own_group() {
    // "First" (leaf 1) lives in Contact with "Last" (leaf 2). Its only real
    // move is past Last -- landing anywhere else would tear Contact apart.
    let f = demo_header();
    let slots = drop_slots(&f.cells, 1, 0);

    assert_eq!(slots, vec![1, 2, 3]);
    assert_eq!(
        slots.iter().filter(|&&s| is_move(1, s)).collect::<Vec<_>>(),
        vec![&3],
    );
}

#[test]
fn resting_where_it_already_is_is_always_offered() {
    // Both boundaries touching the column survive, so the indicator has
    // somewhere neutral to sit and a stray nudge is not a forced move.
    let f = demo_header();

    for column in [0, 1, 4, 7] {
        let slots = drop_slots(&f.cells, column, 0);

        assert!(slots.contains(&column), "column {column} cannot stay put");
        assert!(!is_move(column, column));
        assert!(!is_move(column, column + 1));
    }
}

#[test]
fn a_top_level_leaf_steps_over_whole_groups() {
    // "ID" (leaf 0) is top level, so its siblings are Contact (1..=2),
    // Financials (3..=6) and Actions (7). It can land after any of them --
    // never *inside* one.
    let f = demo_header();

    assert_eq!(drop_slots(&f.cells, 0, 0), vec![0, 1, 3, 7, 8]);
}

#[test]
fn the_frozen_boundary_is_not_crossed() {
    // With ID and Contact pinned, ID may move within the frozen run but not
    // out of it -- crossing would silently change what is pinned.
    let f = demo_header();

    assert_eq!(drop_slots(&f.cells, 0, 3), vec![0, 1, 3]);

    // A scrolling column cannot move into the frozen run -- but it *can*
    // land immediately after it, which is the first position it is allowed
    // to occupy and the one an off-by-one here would swallow.
    let slots = drop_slots(&f.cells, 7, 3);

    assert_eq!(slots, vec![3, 7, 8]);
    assert!(slots.contains(&3), "must be able to lead the scrolling run");
}

#[test]
fn a_parent_is_the_group_a_node_hangs_off() {
    let f = demo_header();

    let id = f.cells.iter().find(|c| c.is_leaf() && c.start == 0).unwrap();
    assert_eq!(id.parent, None, "top-level nodes have no parent");

    let q3_rev = f.cells.iter().find(|c| c.is_leaf() && c.start == 3).unwrap();
    let q3 = f.cells[q3_rev.parent.unwrap()];
    assert!(!q3.is_leaf());
    assert_eq!((q3.start, q3.end), (3, 4));

    // ...and Q3's own parent is Financials, not the root.
    let financials = f.cells[q3.parent.unwrap()];
    assert_eq!((financials.start, financials.end), (3, 6));
    assert_eq!(financials.parent, None);
}

#[test]
fn sticky_is_the_leading_run_and_takes_whole_groups() {
    let f = flatten(vec![
        text_leaf("ID").sticky(),
        group(
            text("Contact"),
            vec![text_leaf("First"), text_leaf("Last")],
        )
        .sticky(),
        text_leaf("Revenue"),
        // Marked, but the run is already broken. Honouring this would
        // freeze a column with a scrolling one to its left, which has
        // nowhere coherent to be drawn.
        text_leaf("Actions").sticky(),
    ]);

    assert_eq!(f.sticky_columns, 3, "ID plus both of Contact's leaves");
}

#[test]
fn sticky_is_ignored_below_the_top_level() {
    // Freezing an inner leaf would split its group across the boundary.
    let f = flatten(vec![group(
        text("Contact"),
        vec![text_leaf("First").sticky(), text_leaf("Last")],
    )]);

    assert_eq!(f.sticky_columns, 0);
}

#[test]
fn nothing_is_sticky_by_default() {
    let f = flatten(vec![text_leaf("A"), text_leaf("B")]);
    assert_eq!(f.sticky_columns, 0);
}

#[test]
fn a_single_child_group_is_not_mistaken_for_a_leaf() {
    // `start == end` is true of both, which is why the flag is explicit.
    // Getting this wrong aligns the group label over its one column like a
    // column header and lets a click on it fall through to the leaf.
    let f = flatten(vec![group(
        text("Solo"),
        vec![text_leaf("Only")],
    )]);

    let solo = f.cells.iter().find(|c| c.row == 0).unwrap();
    assert!(!solo.is_leaf());
    assert_eq!((solo.start, solo.end), (0, 0));

    let only = f.cells.iter().find(|c| c.row == 1).unwrap();
    assert!(only.is_leaf());
}

#[test]
fn every_header_band_is_tiled_exactly_once() {
    // Two failures at once, both obvious on screen and neither obvious in
    // the code. Overlap: labels from different levels drawn over each
    // other. Gaps: blank bands owned by nobody, which is what leaves the
    // column rules stopping short and the group backgrounds ragged.
    let f = flatten(vec![
        text_leaf("ID"),
        group(
            text("Contact"),
            vec![text_leaf("First"), text_leaf("Last")],
        ),
        group(
            text("Financials"),
            vec![
                group(
                    text("Q3"),
                    vec![text_leaf("Rev"), text_leaf("Cost")],
                ),
                group(
                    text("Q4"),
                    vec![text_leaf("Rev"), text_leaf("Cost")],
                ),
            ],
        ),
        text_leaf("Actions"),
    ]);

    assert_eq!(f.rows, 3);
    assert_eq!(f.columns.len(), 8);

    for row in 0..f.rows {
        let mut band: Vec<_> = f.cells.iter().filter(|c| c.covers(row)).collect();
        band.sort_by_key(|c| c.start);

        for pair in band.windows(2) {
            assert!(
                pair[0].end < pair[1].start,
                "row {row}: cells {:?} and {:?} overlap",
                (pair[0].start, pair[0].end),
                (pair[1].start, pair[1].end),
            );
        }

        assert_eq!(
            band.iter().map(|c| c.end - c.start + 1).sum::<usize>(),
            f.columns.len(),
            "row {row} does not cover every column",
        );
    }

    // Every leaf reaches the body, whatever level it branched off at.
    assert!(f.cells.iter().filter(|c| c.is_leaf()).all(|c| c.bottom() == 3));

    // ID and Actions are ungrouped, so they are full-height cells.
    let id = f.cells.iter().find(|c| c.is_leaf() && c.start == 0).unwrap();
    assert_eq!((id.row, id.row_span), (0, 3));
}

#[test]
fn a_shallow_group_is_pushed_down_to_meet_its_children() {
    // "Financials" is 3 deep, "Contact" only 2. Contact must sit on row 1,
    // directly above its leaves -- not on row 0 with a gap beneath it.
    let f = flatten(vec![
        text_leaf("ID"),
        group(
            text("Contact"),
            vec![text_leaf("First"), text_leaf("Last")],
        ),
        group(
            text("Financials"),
            vec![group(
                text("Q3"),
                vec![text_leaf("Rev"), text_leaf("Cost")],
            )],
        ),
    ]);

    assert_eq!(f.rows, 3);

    let contact = f.cells.iter().find(|c| c.start == 1 && c.end == 2).unwrap();
    assert_eq!(contact.row, 1, "shallow group must sit above its children");

    let financials = f.cells.iter().find(|c| c.start == 3 && c.end == 4).unwrap();
    assert_eq!(financials.row, 0);

    // The blank band above Contact still belongs to Contact, so nothing in
    // the header is unowned.
    assert_eq!(contact.top, 0);

    // Every leaf bottoms out against the body.
    for cell in f.cells.iter().filter(|c| c.is_leaf()) {
        assert_eq!(cell.bottom(), 3, "leaves bottom out against the body");
    }

    // First/Last hang off Contact's *label* row, not off the root.
    let first = f.cells.iter().find(|c| c.is_leaf() && c.start == 1).unwrap();
    assert_eq!((first.row, first.row_span), (2, 1));
}

#[test]
fn three_levels_nest_correctly() {
    let f = flatten(vec![group(
        text("Financials"),
        vec![
            group(
                text("Q3"),
                vec![text_leaf("Rev"), text_leaf("Cost")],
            ),
            group(text("Q4"), vec![text_leaf("Rev")]),
        ],
    )]);

    assert_eq!(f.rows, 3);
    assert_eq!(f.columns.len(), 3);

    let outer = f.cells.iter().find(|c| c.row == 0).unwrap();
    assert_eq!((outer.start, outer.end), (0, 2));

    let q3 = f.cells.iter().find(|c| !c.is_leaf() && c.row == 1 && c.start == 0).unwrap();
    assert_eq!((q3.start, q3.end), (0, 1));

    // Q4 has only one leaf, and every leaf sits on the bottom row.
    let q4_leaf = f.cells.iter().find(|c| c.start == 2 && c.is_leaf()).unwrap();
    assert_eq!(q4_leaf.row, 2);
    assert_eq!(q4_leaf.row_span, 1);
}

#[test]
fn labels_are_listed_in_tree_order() {
    let f = demo_header();

    assert_eq!(
        f.elements,
        vec![
            "ID", "Contact", "First", "Last", "Financials", "Q3", "Rev", "Cost", "Q4", "Rev",
            "Cost", "Actions",
        ],
    );
    assert!(f.cells.iter().enumerate().all(|(index, cell)| cell.element == index));
}

#[test]
fn a_header_without_nodes_has_one_row_and_no_columns() {
    let f = flatten(Vec::<HeaderNode<&'static str>>::new());

    assert_eq!((f.rows, f.columns.len(), f.cells.len()), (1, 0, 0));
}

#[test]
fn an_empty_group_collapses_onto_the_next_boundary() {
    let f = flatten(vec![text_leaf("A"), group(text("Empty"), Vec::new()), text_leaf("B")]);
    let empty = f.cells[1];

    assert!(!empty.is_leaf());
    assert_eq!((empty.start, empty.end), (1, 1));
    assert_eq!(f.columns.len(), 2);
}

#[test]
fn a_column_that_is_not_there_may_land_nowhere() {
    assert!(drop_slots(&demo_header().cells, 99, 0).is_empty());
}

#[test]
fn a_move_lands_one_short_of_a_gap_to_the_right() {
    assert_eq!(landing(2, 5), 4);
    assert_eq!(landing(5, 2), 2);
    assert_eq!(landing(3, 3), 3);
    assert_eq!(landing(3, 4), 3);
    assert!(is_move(3, 0) && is_move(3, 5));
    assert!(!is_move(usize::MAX, usize::MAX));
}

#[test]
fn every_legal_move_keeps_every_group_together() {
    let f = demo_header();

    for column in 0..8 {
        for slot in drop_slots(&f.cells, column, 0) {
            let mut order: Vec<usize> = (0..8).collect();

            reorder(&mut order, column, landing(column, slot));
            for cell in &f.cells {
                let mut places: Vec<usize> = (cell.start..=cell.end)
                    .map(|c| order.iter().position(|&o| o == c).unwrap())
                    .collect();

                places.sort();
                assert_eq!(places[places.len() - 1] - places[0], cell.end - cell.start);
            }
        }
    }
}

#[test]
fn no_legal_move_changes_what_is_frozen() {
    let f = demo_header();

    for column in 0..8 {
        for slot in drop_slots(&f.cells, column, 3) {
            let mut order: Vec<usize> = (0..8).collect();

            reorder(&mut order, column, landing(column, slot));
            let mut frozen: Vec<usize> = order[..3].to_vec();

            frozen.sort();
            assert_eq!(frozen, vec![0, 1, 2]);
        }
    }
}

#[test]
fn slots_are_offered_from_left_to_right() {
    let f = demo_header();

    for column in 0..8 {
        let slots = drop_slots(&f.cells, column, 0);

        assert!(slots.windows(2).all(|pair| pair[0] < pair[1]));
    }
}

#[test]
fn builders_touch_leaves_and_leave_groups_alone() {
    let px = |value: f32| Px::from_bits(value.to_bits());
    let spec = |node: HeaderNode<&'static str>| match node.kind {
        NodeKind::Leaf(spec) => spec,
        NodeKind::Group(_) => panic!("a leaf"),
    };

    assert_eq!(
        spec(text_leaf("A")),
        ColumnSpec {
            sizing: Sizing::Fit { min: px(48.0), max: px(f32::INFINITY) },
            align: Align::Left,
            sortable: false,
        },
    );
    assert_eq!(
        spec(text_leaf("A").fill(3)).sizing,
        Sizing::Fill { weight: 3, min: px(48.0) },
    );
    assert_eq!(spec(text_leaf("A").fixed(px(70.0))).sizing, Sizing::Fixed(px(70.0)));
    assert_eq!(spec(text_leaf("A").align(Align::Right)).align, Align::Right);
    assert!(spec(text_leaf("A").sortable()).sortable);
    assert_eq!(
        ColumnSpec::default().sizing(Sizing::Fixed(px(1.0))).align(Align::Center).sortable(true),
        ColumnSpec { sizing: Sizing::Fixed(px(1.0)), align: Align::Center, sortable: true },
    );

    let both = group(text("G"), vec![text_leaf("A")]).sortable().fill(2);

    match both.kind {
        NodeKind::Group(children) => match &children[0].kind {
            NodeKind::Leaf(spec) => assert_eq!(*spec, ColumnSpec::default()),
            NodeKind::Group(_) => panic!("a leaf"),
        },
        NodeKind::Leaf(_) => panic!("a group"),
    }
}

#[test]
fn only_top_level_nodes_have_no_parent() {
    let f = demo_header();
    let parents: Vec<Option<usize>> = f.cells.iter().map(|cell| cell.parent).collect();

    assert_eq!(
        parents,
        vec![
            None,
            None,
            Some(1),
            Some(1),
            None,
            Some(4),
            Some(5),
            Some(5),
            Some(4),
            Some(8),
            Some(8),
            None,
        ],
    );
}

#[test]
fn a_group_covers_the_columns_of_its_children_and_no_others() {
    let f = demo_header();

    for (p, parent) in f.cells.iter().enumerate().filter(|(_, cell)| !cell.is_leaf()) {
        for column in 0..f.columns.len() {
            let under = f.cells.iter().any(|cell| {
                cell.parent == Some(p) && (cell.start..=cell.end).contains(&column)
            });

            assert_eq!((parent.start..=parent.end).contains(&column), under);
        }
    }
}

#[test]
fn an_empty_group_keeps_the_walk_in_order() {
    let f = flatten(vec![
        group(text("Empty"), Vec::new()),
        text_leaf("A").sortable(),
        group(text("G"), vec![group(text("Inner"), Vec::new()), text_leaf("B")]),
    ]);

    assert_eq!(f.elements, vec!["Empty", "A", "G", "Inner", "B"]);
    assert_eq!(f.rows, 2);
    assert_eq!(f.columns.iter().map(|spec| spec.sortable).collect::<Vec<_>>(), vec![true, false]);

    let places: Vec<(usize, usize, usize, bool)> =
        f.cells.iter().map(|cell| (cell.start, cell.row, cell.bottom(), cell.is_leaf())).collect();

    assert_eq!(
        places,
        vec![
            (0, 1, 2, false),
            (0, 0, 2, true),
            (1, 0, 1, false),
            (1, 1, 2, false),
            (1, 1, 2, true),
        ],
    );
    assert_eq!(f.cells[3].parent, Some(2));
    assert_eq!(f.cells[4].parent, Some(2));
}

#[test]
fn a_column_can_be_put_back_however_many_are_frozen() {
    let f = demo_header();

    for column in 0..8 {
        for frozen in 0..=8 {
            let slots = drop_slots(&f.cells, column, frozen);

            assert!(slots.contains(&column) && slots.contains(&(column + 1)));
        }
    }
}
