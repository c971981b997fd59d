//! What holds of every selection, whatever was clicked before.

use vstd::prelude::*;
use crate::selection::{
    between, block, cell_or_hole, clicked, encloses, grid_line, is_grid, origin, reordered, reports,
    within, Bounds, CellPosition, Mode, Outcome,
};

verus! {

/// A range is the same from whichever end it is drawn, and holds both ends.
pub proof fn a_range_has_no_direction(a: usize, b: usize)
    ensures
        between(a, b) == between(b, a),
        between(a, b).contains(a),
        between(a, b).contains(b),
{
    assert(between(a, b) =~= between(b, a));
}

/// A rectangle is the same whichever corner it is drawn from, and holds both
/// corners.
pub proof fn a_rectangle_has_no_direction(a: (usize, usize), b: (usize, usize))
    ensures
        block(a, b) == block(b, a),
        block(a, b).contains(a),
        block(a, b).contains(b),
{
    assert(block(a, b) =~= block(b, a));
}

/// With selection switched off no click changes anything.
pub proof fn switched_off_nothing_changes<T>(
    outcome: Option<Outcome<T>>,
    current: Set<T>,
    anchor: Option<T>,
    target: T,
    toggle: bool,
    extend: bool,
    range: Set<T>,
)
    requires
        reports(
            outcome,
            current,
            anchor,
            clicked(Mode::Off, current, anchor, target, toggle, extend, range),
        ),
    ensures
        outcome is None,
{
}

/// With single selection a click selects its target and nothing else, whatever
/// was selected and whatever is held down.
pub proof fn single_selection_ignores_modifiers<T>(
    current: Set<T>,
    anchor: Option<T>,
    target: T,
    toggle: bool,
    extend: bool,
    range: Set<T>,
)
    ensures
        clicked(Mode::Single, current, anchor, target, toggle, extend, range) == clicked(
            Mode::Multiple,
            current,
            anchor,
            target,
            false,
            false,
            range,
        ),
        clicked(Mode::Single, current, anchor, target, toggle, extend, range) == (
            set![target],
            Some(target),
        ),
{
}

/// Toggling the same item twice gives back the selection there was.
pub proof fn toggling_twice_changes_nothing<T>(
    current: Set<T>,
    anchor: Option<T>,
    target: T,
    range: Set<T>,
)
    ensures
        ({
            let (selection, moved) = clicked(
                Mode::Multiple,
                current,
                anchor,
                target,
                true,
                false,
                range,
            );

            clicked(Mode::Multiple, selection, moved, target, true, false, range).0 == current
        }),
{
    let (selection, moved) = clicked(Mode::Multiple, current, anchor, target, true, false, range);

    assert(clicked(Mode::Multiple, selection, moved, target, true, false, range).0 =~= current);
}

/// A toggle changes the target and nothing else.
pub proof fn a_toggle_leaves_the_rest<T>(
    current: Set<T>,
    anchor: Option<T>,
    target: T,
    other: T,
    range: Set<T>,
)
    requires
        other != target,
    ensures
        ({
            let selection = clicked(
                Mode::Multiple,
                current,
                anchor,
                target,
                true,
                false,
                range,
            ).0;

            &&& selection.contains(other) == current.contains(other)
            &&& selection.contains(target) == !current.contains(target)
        }),
{
}

/// Extends made one after the other all measure from the same anchor: the last
/// one alone decides what is selected, so a drag that comes back over its own
/// path gives the ground back.
pub proof fn extends_measure_from_one_anchor(
    current: Set<usize>,
    anchor: usize,
    first: usize,
    second: usize,
)
    ensures
        ({
            let (selection, kept) = clicked(
                Mode::Multiple,
                current,
                Some(anchor),
                first,
                false,
                true,
                between(origin(Some(anchor), first), first),
            );

            clicked(
                Mode::Multiple,
                selection,
                kept,
                second,
                false,
                true,
                between(origin(kept, second), second),
            ) == (between(anchor, second), Some(anchor))
        }),
{
}

/// The same of cells, where the range is a rectangle.
pub proof fn cell_extends_measure_from_one_anchor(
    current: Set<(usize, usize)>,
    anchor: (usize, usize),
    first: (usize, usize),
    second: (usize, usize),
)
    ensures
        ({
            let (selection, kept) = clicked(
                Mode::Multiple,
                current,
                Some(anchor),
                first,
                false,
                true,
                block(origin(Some(anchor), first), first),
            );

            clicked(
                Mode::Multiple,
                selection,
                kept,
                second,
                false,
                true,
                block(origin(kept, second), second),
            ) == (block(anchor, second), Some(anchor))
        }),
{
}

/// An extend with nothing to extend from selects its target, as a plain click
/// does.
pub proof fn an_extend_without_an_anchor_selects_its_target(
    current: Set<usize>,
    row: usize,
    cells: Set<(usize, usize)>,
    cell: (usize, usize),
)
    ensures
        clicked(
            Mode::Multiple,
            current,
            None,
            row,
            false,
            true,
            between(origin(None, row), row),
        ).0 == set![row],
        clicked(
            Mode::Multiple,
            cells,
            None,
            cell,
            false,
            true,
            block(origin(None, cell), cell),
        ).0 == set![cell],
{
    assert(between(row, row) =~= set![row]);
    assert(block(cell, cell) =~= set![cell]);
}

/// A toggling extend adds its range and drops nothing.
pub proof fn a_toggling_extend_keeps_what_there_was<T>(
    current: Set<T>,
    anchor: Option<T>,
    target: T,
    range: Set<T>,
)
    ensures
        current.subset_of(
            clicked(Mode::Multiple, current, anchor, target, true, true, range).0,
        ),
        range.subset_of(clicked(Mode::Multiple, current, anchor, target, true, true, range).0),
        forall|item: T| #[trigger]
            clicked(Mode::Multiple, current, anchor, target, true, true, range).0.contains(item)
                ==> current.contains(item) || range.contains(item),
{
}

/// The second of two equal clicks has nothing to report, unless it toggles an item
/// where many can be selected: not if it is a plain one, and not if it extends to
/// the same place, in addition to what is selected or in place of it. What an
/// extend covers is the same both times, since the anchor stays where it is. Where
/// at most one item can be selected, no modifier makes a difference.
pub proof fn a_repeated_click_reports_no_change<T>(
    mode: Mode,
    current: Set<T>,
    anchor: Option<T>,
    target: T,
    toggle: bool,
    extend: bool,
    range: Set<T>,
    outcome: Option<Outcome<T>>,
)
    requires
        !(mode == Mode::Multiple && toggle && !extend),
        ({
            let (selection, moved) = clicked(mode, current, anchor, target, toggle, extend, range);

            reports(
                outcome,
                selection,
                moved,
                clicked(mode, selection, moved, target, toggle, extend, range),
            )
        }),
    ensures
        outcome is None,
        mode == Mode::Multiple && extend ==> clicked(
            mode,
            current,
            anchor,
            target,
            toggle,
            extend,
            range,
        ).1 == anchor,
{
    assert(current.union(range).union(range) =~= current.union(range));
}

/// At most one rectangle encloses a selection.
pub proof fn the_enclosing_rectangle_is_unique(
    cells: Set<(usize, usize)>,
    one: Bounds,
    other: Bounds,
)
    requires
        encloses(cells, one),
        encloses(cells, other),
    ensures
        one == other,
{
    let top = choose|cell: (usize, usize)| #[trigger] cells.contains(cell) && cell.0 == one.top;
    let bottom = choose|cell: (usize, usize)| #[trigger]
        cells.contains(cell) && cell.0 == one.bottom;
    let left = choose|cell: (usize, usize)| #[trigger] cells.contains(cell) && cell.1 == one.left;
    let right = choose|cell: (usize, usize)| #[trigger] cells.contains(cell) && cell.1 == one.right;

    assert(within(top, other) && within(bottom, other) && within(left, other) && within(
        right,
        other,
    ));
}

/// A selection laid out as a grid shows every selected cell in its place, and a
/// hole everywhere else.
pub proof fn a_grid_shows_exactly_the_selection(
    grid: Seq<Vec<Option<CellPosition>>>,
    cells: Set<(usize, usize)>,
    bounds: Bounds,
    row: usize,
    column: usize,
)
    requires
        encloses(cells, bounds),
        is_grid(grid, cells, bounds),
        within((row, column), bounds),
    ensures
        grid[row - bounds.top]@[column - bounds.left] == cell_or_hole(cells, row, column),
{
    assert(grid[row - bounds.top]@ == grid_line(cells, row, bounds));
}

/// The grid of a swept rectangle has no holes, and its corners are the ones
/// that were swept.
pub proof fn a_swept_rectangle_has_no_holes(
    grid: Seq<Vec<Option<CellPosition>>>,
    a: (usize, usize),
    b: (usize, usize),
    bounds: Bounds,
)
    requires
        encloses(block(a, b), bounds),
        is_grid(grid, block(a, b), bounds),
    ensures
        bounds.top == (if a.0 < b.0 { a.0 } else { b.0 }),
        bounds.bottom == (if a.0 < b.0 { b.0 } else { a.0 }),
        bounds.left == (if a.1 < b.1 { a.1 } else { b.1 }),
        bounds.right == (if a.1 < b.1 { b.1 } else { a.1 }),
        forall|i: int, j: int|
            0 <= i < grid.len() && 0 <= j < grid[i]@.len() ==> (#[trigger] grid[i]@[j]) is Some,
{
    let cells = block(a, b);

    a_rectangle_has_no_direction(a, b);
    assert(within(a, bounds) && within(b, bounds));
    let top = choose|cell: (usize, usize)| #[trigger] cells.contains(cell) && cell.0 == bounds.top;
    let bottom = choose|cell: (usize, usize)| #[trigger]
        cells.contains(cell) && cell.0 == bounds.bottom;
    let left = choose|cell: (usize, usize)| #[trigger]
        cells.contains(cell) && cell.1 == bounds.left;
    let right = choose|cell: (usize, usize)| #[trigger]
        cells.contains(cell) && cell.1 == bounds.right;

    assert(cells.contains(top) && cells.contains(bottom) && cells.contains(left)
        && cells.contains(right));
    assert forall|i: int, j: int| 0 <= i < grid.len() && 0 <= j < grid[i]@.len() implies (
    #[trigger] grid[i]@[j]) is Some by {
        let row = (bounds.top + i) as usize;
        let column = (bounds.left + j) as usize;

        assert(grid[i]@ == grid_line(cells, row, bounds));
        assert(cells.contains((row, column)));
    }
}

/// Where the item at `at` is once the one at `from` has been moved to `to`.
pub open spec fn moved(from: int, to: int, at: int) -> int {
    if at == from {
        to
    } else if from < at <= to {
        at - 1
    } else if to <= at < from {
        at + 1
    } else {
        at
    }
}

/// A move takes one item to where it was sent, keeps all the others in their
/// order, and loses none.
pub proof fn a_move_keeps_the_rest_in_order<T>(items: Seq<T>, from: int, to: int)
    requires
        0 <= from < items.len(),
        0 <= to < items.len(),
    ensures
        reordered(items, from, to).len() == items.len(),
        forall|at: int|
            0 <= at < items.len() ==> 0 <= #[trigger] moved(from, to, at) < items.len()
                && reordered(items, from, to)[moved(from, to, at)] == items[at],
        forall|a: int, b: int|
            0 <= a < b < items.len() && a != from && b != from ==> #[trigger] moved(from, to, a)
                < #[trigger] moved(from, to, b),
        reordered(items, from, to).to_multiset() == items.to_multiset(),
{
    broadcast use vstd::seq_lib::group_to_multiset_ensures;

    if from != to {
        let rest = items.remove(from);

        vstd::seq_lib::lemma_multiset_commutative(
            rest.take(to),
            seq![items[from]] + rest.skip(to),
        );
        assert(rest =~= rest.take(to) + rest.skip(to));
        assert(reordered(items, from, to) =~= rest.take(to) + (seq![items[from]] + rest.skip(to)));
        assert(items =~= items.take(from) + (seq![items[from]] + items.skip(from + 1)));
        assert(rest =~= items.take(from) + items.skip(from + 1));
        vstd::seq_lib::lemma_multiset_commutative(seq![items[from]], rest.skip(to));
        vstd::seq_lib::lemma_multiset_commutative(
            items.take(from),
            seq![items[from]] + items.skip(from + 1),
        );
        vstd::seq_lib::lemma_multiset_commutative(seq![items[from]], items.skip(from + 1));
        vstd::seq_lib::lemma_multiset_commutative(rest.take(to), rest.skip(to));
        vstd::seq_lib::lemma_multiset_commutative(items.take(from), items.skip(from + 1));
        assert(reordered(items, from, to).to_multiset() =~= items.to_multiset());
    }
}

/// Moving an item back undoes the move.
pub proof fn moving_back_undoes_a_move<T>(items: Seq<T>, from: int, to: int)
    requires
        0 <= from,
        0 <= to,
    ensures
        reordered(reordered(items, from, to), to, from) == items,
{
    assert(reordered(reordered(items, from, to), to, from) =~= items);
}

} // verus!
