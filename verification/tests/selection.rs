//! Selecting rows, columns and cells.

use advanced_table::selection::{
    apply, apply_cells, grid as laid_out, in_order, rectangle, reorder, same, span, union,
    CellPosition, Mode, Outcome,
};
use std::collections::BTreeSet;

fn at(row: usize, column: usize) -> CellPosition {
    CellPosition::new(row, column)
}

#[test]
fn extending_covers_a_rectangle_not_a_reading_order_run() {
    let outcome = apply_cells(
        Mode::Multiple,
        &BTreeSet::from([(1, 1)]),
        Some(at(1, 1)),
        at(3, 2),
        false,
        true,
    )
    .unwrap();

    // Rows 1..=3 x columns 1..=2 -- six cells. Reading order between the
    // two corners would have given eight.
    assert_eq!(outcome.selection.len(), 6);
    assert!(outcome.selection.contains(&(2, 1)));
    assert!(outcome.selection.contains(&(3, 2)));
    assert!(!outcome.selection.contains(&(2, 0)));
    assert!(!outcome.selection.contains(&(2, 3)));
}

#[test]
fn grid_squares_off_a_ragged_selection_and_marks_the_holes() {
    // Two Ctrl-clicked cells on a diagonal. Pasting needs a 2x2 block with
    // the off-diagonal left blank, not a two-cell run.
    let selection = BTreeSet::from([(3, 1), (4, 2)]);
    let grid = laid_out(&selection);

    assert_eq!(grid.len(), 2);
    assert_eq!(grid[0], vec![Some(at(3, 1)), None]);
    assert_eq!(grid[1], vec![None, Some(at(4, 2))]);
}

#[test]
fn grid_of_a_swept_rectangle_has_no_holes() {
    let grid = laid_out(&rectangle(at(2, 1), at(4, 3)));

    assert_eq!(grid.len(), 3);
    assert!(grid.iter().all(|row| row.len() == 3));
    assert!(grid.iter().flatten().all(Option::is_some));
}

#[test]
fn grid_of_nothing_is_nothing() {
    assert!(laid_out(&BTreeSet::new()).is_empty());
}

#[test]
fn a_rectangle_is_the_same_whichever_corner_you_start_from() {
    let forward = rectangle(at(1, 1), at(3, 4));
    let backward = rectangle(at(3, 4), at(1, 1));

    assert_eq!(forward, backward);
    assert_eq!(forward.len(), 12);
}

#[test]
fn ctrl_toggles_one_cell_and_leaves_the_rest() {
    let current = BTreeSet::from([(0, 0), (5, 2)]);

    let added = apply_cells(Mode::Multiple, &current, None, at(9, 1), true, false).unwrap();
    assert_eq!(added.selection.len(), 3);
    assert!(added.selection.contains(&(9, 1)));

    let removed =
        apply_cells(Mode::Multiple, &current, None, at(5, 2), true, false).unwrap();
    assert_eq!(removed.selection, BTreeSet::from([(0, 0)]));
}

#[test]
fn ctrl_shift_unions_a_second_block_onto_the_first() {
    let current = rectangle(at(0, 0), at(1, 1));

    let outcome =
        apply_cells(Mode::Multiple, &current, Some(at(5, 0)), at(6, 1), true, true).unwrap();

    // Both blocks survive: four cells each, none shared.
    assert_eq!(outcome.selection.len(), 8);
    assert!(outcome.selection.contains(&(0, 0)));
    assert!(outcome.selection.contains(&(6, 1)));
}

#[test]
fn single_mode_ignores_modifiers() {
    for (toggle, extend) in [(true, false), (false, true), (true, true)] {
        let outcome = apply_cells(
            Mode::Single,
            &BTreeSet::from([(0, 0)]),
            Some(at(0, 0)),
            at(4, 3),
            toggle,
            extend,
        )
        .unwrap();

        assert_eq!(outcome.selection, BTreeSet::from([(4, 3)]));
    }
}

#[test]
fn repeated_shift_drags_all_measure_from_the_same_anchor() {
    // This is what a drag is: the anchor is fixed at the press and every
    // move re-resolves against it. If the anchor walked forward, dragging
    // back over your own path would leave cells behind.
    let anchor = at(2, 2);
    let mut selection = BTreeSet::from([anchor.pair()]);

    for target in [at(4, 4), at(6, 5), at(3, 3)] {
        let outcome =
            apply_cells(Mode::Multiple, &selection, Some(anchor), target, false, true).unwrap();

        assert_eq!(outcome.selection, rectangle(anchor, target));
        assert_eq!(outcome.anchor, Some(anchor.pair()));
        selection = outcome.selection;
    }
}

fn set(values: impl IntoIterator<Item = usize>) -> BTreeSet<usize> {
    values.into_iter().collect()
}

#[test]
fn mode_none_never_changes_anything() {
    assert_eq!(apply(Mode::Off, &set([]), None, 3, false, false), None);
    assert_eq!(apply(Mode::Off, &set([1]), Some(1), 3, true, true), None);
}

#[test]
fn single_mode_replaces_and_ignores_modifiers() {
    let out = apply(Mode::Single, &set([1]), Some(1), 4, true, true).unwrap();

    assert_eq!(out.selection, set([4]));
    assert_eq!(out.anchor, Some(4));
}

#[test]
fn plain_click_replaces_the_selection() {
    let out = apply(Mode::Multiple, &set([1, 2, 3]), Some(1), 7, false, false).unwrap();

    assert_eq!(out.selection, set([7]));
    assert_eq!(out.anchor, Some(7));
}

#[test]
fn ctrl_click_toggles_both_ways() {
    let added = apply(Mode::Multiple, &set([1]), Some(1), 5, true, false).unwrap();
    assert_eq!(added.selection, set([1, 5]));
    assert_eq!(added.anchor, Some(5));

    let removed = apply(Mode::Multiple, &set([1, 5]), Some(5), 5, true, false).unwrap();
    assert_eq!(removed.selection, set([1]));
}

#[test]
fn shift_selects_an_inclusive_range_in_either_direction() {
    let down = apply(Mode::Multiple, &set([2]), Some(2), 5, false, true).unwrap();
    assert_eq!(down.selection, set([2, 3, 4, 5]));

    let up = apply(Mode::Multiple, &set([5]), Some(5), 2, false, true).unwrap();
    assert_eq!(up.selection, set([2, 3, 4, 5]));
}

#[test]
fn repeated_shift_clicks_measure_from_the_same_anchor() {
    let first = apply(Mode::Multiple, &set([2]), Some(2), 6, false, true).unwrap();
    assert_eq!(first.anchor, Some(2), "anchor must not walk forward");

    // Shrinking the range back down has to work, which it only does if
    // the anchor stayed at 2 rather than moving to 6.
    let second = apply(Mode::Multiple, &first.selection, first.anchor, 4, false, true).unwrap();
    assert_eq!(second.selection, set([2, 3, 4]));
}

#[test]
fn ctrl_shift_unions_onto_the_existing_selection() {
    let out = apply(Mode::Multiple, &set([9]), Some(2), 4, true, true).unwrap();
    assert_eq!(out.selection, set([2, 3, 4, 9]));
}

#[test]
fn shift_without_an_anchor_degrades_to_a_plain_click() {
    let out = apply(Mode::Multiple, &set([]), None, 3, false, true).unwrap();
    assert_eq!(out.selection, set([3]));
}

#[test]
fn a_no_op_click_reports_no_change() {
    // Clicking the only selected row again changes nothing.
    assert_eq!(apply(Mode::Single, &set([4]), Some(4), 4, false, false), None);
}

#[test]
fn a_range_is_the_same_from_either_end() {
    assert_eq!(span(2, 5), set([2, 3, 4, 5]));
    assert_eq!(span(5, 2), span(2, 5));
    assert_eq!(span(7, 7), set([7]));
    assert_eq!(span(usize::MAX, usize::MAX - 1), set([usize::MAX - 1, usize::MAX]));
}

#[test]
fn toggling_a_row_twice_gives_the_selection_back() {
    for row in [3, 7] {
        let start = set([3, 4]);
        let once = apply(Mode::Multiple, &start, None, row, true, false).unwrap();
        let twice =
            apply(Mode::Multiple, &once.selection, once.anchor, row, true, false).unwrap_or(Outcome {
                selection: once.selection.clone(),
                anchor: once.anchor,
            });

        assert_eq!(twice.selection, start);
    }
}

#[test]
fn the_other_rows_stay_as_they_are_when_one_is_toggled() {
    let out = apply(Mode::Multiple, &set([1, 9]), None, 4, true, false).unwrap();

    assert!(out.selection.contains(&1) && out.selection.contains(&9));
    assert_eq!(out.selection.len(), 3);
}

#[test]
fn a_move_takes_one_item_and_keeps_the_rest_in_order() {
    let mut items = vec!['a', 'b', 'c', 'd', 'e'];

    reorder(&mut items, 1, 3);
    assert_eq!(items, vec!['a', 'c', 'd', 'b', 'e']);
    reorder(&mut items, 3, 1);
    assert_eq!(items, vec!['a', 'b', 'c', 'd', 'e']);
    reorder(&mut items, 4, 0);
    assert_eq!(items, vec!['e', 'a', 'b', 'c', 'd']);
    reorder(&mut items, 0, 5);
    reorder(&mut items, 5, 0);
    reorder(&mut items, 2, 2);
    assert_eq!(items, vec!['e', 'a', 'b', 'c', 'd']);
}

#[test]
fn members_are_listed_from_the_smallest_up() {
    assert_eq!(in_order(&set([9, 2, 5])), vec![2, 5, 9]);
    assert_eq!(in_order(&set([])), Vec::<usize>::new());
}

#[test]
fn sets_are_joined_and_compared() {
    assert_eq!(union(&set([1, 2]), &set([2, 7])), set([1, 2, 7]));
    assert!(same(&set([1, 2]), &set([2, 1])));
    assert!(!same(&set([1, 2]), &set([1])));
    assert!(!same(&set([1]), &set([1, 2])));
}

#[test]
fn selection_is_off_unless_it_is_switched_on() {
    assert_eq!(Mode::default(), Mode::Off);
}

#[test]
fn a_ragged_selection_is_squared_off_whatever_its_shape() {
    let cells = laid_out(&BTreeSet::from([(0, 5), (2, 0), (1, 3)]));

    assert_eq!(cells.len(), 3);
    assert!(cells.iter().all(|line| line.len() == 6));
    assert_eq!(cells.iter().flatten().filter(|cell| cell.is_some()).count(), 3);
    assert_eq!(cells[2][0], Some(at(2, 0)));
    assert_eq!(cells[0][5], Some(at(0, 5)));
}

#[test]
fn an_extend_to_the_same_place_reports_nothing_new() {
    let first = apply(Mode::Multiple, &set([2]), Some(2), 6, false, true).unwrap();

    assert_eq!(apply(Mode::Multiple, &first.selection, first.anchor, 6, false, true), None);

    let added = apply(Mode::Multiple, &set([9]), Some(2), 6, true, true).unwrap();

    assert_eq!(apply(Mode::Multiple, &added.selection, added.anchor, 6, true, true), None);
}

#[test]
fn positions_are_in_reading_order() {
    let cells = BTreeSet::from([
        CellPosition::new(1, 0),
        CellPosition::new(0, 7),
        CellPosition::new(0, 2),
    ]);
    let first = cells.first().copied();

    assert_eq!(first, Some(CellPosition::new(0, 2)));
    assert!(CellPosition::new(0, 7) < CellPosition::new(1, 0));
}

#[test]
fn a_repeated_click_in_a_single_mode_reports_nothing_whatever_is_held() {
    for (toggle, extend) in [(false, false), (true, false), (false, true), (true, true)] {
        assert_eq!(apply(Mode::Single, &set([4]), Some(4), 4, toggle, extend), None);
        assert_eq!(apply(Mode::Off, &set([1]), Some(1), 4, toggle, extend), None);
    }
}
