//! What holds of everything that is painted.

use vstd::prelude::*;
use crate::header::{forest_nodes, frozen_columns, HeaderNode};
use crate::header_laws::{forest_filled, header_cells, the_frozen_prefix_splits_no_cell};
use crate::header_paint::{HeaderItem, HeaderView};
use crate::paint::{
    cell_edge, cell_marks, joined, one_if, row_outline, run, BodyItem, BodyPaints, BodyView, Side,
};
use crate::table::DataTable;

verus! {

/// Something is in two sequences put together exactly if it is in one of them.
pub(crate) proof fn both_hold<T>(a: Seq<T>, b: Seq<T>, item: T)
    ensures
        (a + b).contains(item) <==> a.contains(item) || b.contains(item),
{
    broadcast use vstd::seq_lib::group_seq_properties;

}

/// Something is among the items of a range exactly if it is among those of one
/// number in it.
pub(crate) proof fn run_holds<T>(low: int, high: int, items: spec_fn(int) -> Seq<T>, item: T)
    ensures
        run(low, high, items).contains(item) <==> exists|k: int|
            low <= k < high && #[trigger] items(k).contains(item),
    decreases high - low,
{
    if high > low {
        run_holds(low, high - 1, items, item);
        both_hold(run(low, high - 1, items), items(high - 1), item);
    }
}

/// How late an item is painted.
pub open spec fn lateness(item: BodyItem) -> int {
    match item {
        BodyItem::Stripe(_) => 0,
        BodyItem::ColumnBand(_) => 1,
        BodyItem::CellBackground { .. } => 2,
        BodyItem::Hover(_) => 3,
        BodyItem::SelectedRow(_) => 4,
        BodyItem::RowDivider(_) => 5,
        BodyItem::ColumnDivider(_) => 6,
        BodyItem::GutterDivider(_) => 7,
        BodyItem::RowOutline { .. } => 8,
        BodyItem::CellFill { .. } => 9,
        BodyItem::CellEdge { .. } => 9,
        BodyItem::Contents { .. } => 10,
    }
}

/// All of the items are as late as this.
spec fn all_at(items: Seq<BodyItem>, late: int) -> bool {
    forall|i: int| 0 <= i < items.len() ==> lateness(#[trigger] items[i]) == late
}

proof fn a_run_is_at(low: int, high: int, items: spec_fn(int) -> Seq<BodyItem>, late: int)
    requires
        forall|k: int| low <= k < high ==> all_at(#[trigger] items(k), late),
    ensures
        all_at(run(low, high, items), late),
    decreases high - low,
{
    if high > low {
        a_run_is_at(low, high - 1, items, late);
        assert(all_at(items(high - 1), late));
    }
}

proof fn stripes_are_apart<E>(table: DataTable<E>, view: BodyView)
    ensures
        all_at(table.stripes(view), 0),
{
    a_run_is_at(
        view.first as int,
        view.last as int,
        |row: int| one_if(view.paints.stripes && row % 2 == 1, BodyItem::Stripe(row as usize)),
        0,
    );
}

proof fn column_bands_are_apart<E>(table: DataTable<E>, view: BodyView)
    ensures
        all_at(table.column_bands(view), 1),
{
    a_run_is_at(
        0,
        view.laid_out as int,
        |column: int|
            one_if(
                view.paints.column_bands && table.selected_columns@.contains(column as usize),
                BodyItem::ColumnBand(column as usize),
            ),
        1,
    );
}

proof fn selected_rows_are_apart<E>(table: DataTable<E>, view: BodyView)
    ensures
        all_at(table.selected_rows(view), 4),
{
    a_run_is_at(
        view.first as int,
        view.last as int,
        |row: int|
            one_if(
                view.paints.selected_rows && table.selected@.contains(row as usize),
                BodyItem::SelectedRow(row as usize),
            ),
        4,
    );
}

proof fn row_dividers_are_apart<E>(table: DataTable<E>, view: BodyView)
    ensures
        all_at(table.row_dividers(view), 5),
{
    a_run_is_at(
        view.first as int,
        view.last as int,
        |row: int|
            one_if(view.paints.row_dividers && row > 0, BodyItem::RowDivider(row as usize)),
        5,
    );
}

proof fn column_dividers_are_apart<E>(table: DataTable<E>, view: BodyView)
    ensures
        all_at(table.column_dividers(view), 6),
{
    a_run_is_at(
        0,
        view.laid_out as int,
        |column: int|
            one_if(
                view.paints.column_dividers && column > 0,
                BodyItem::ColumnDivider(column as usize),
            ),
        6,
    );
}

proof fn row_outlines_are_apart<E>(table: DataTable<E>, view: BodyView)
    ensures
        all_at(table.row_outlines(view), 8),
{
    a_run_is_at(
        view.first as int,
        view.last as int,
        |row: int|
            if view.paints.row_outline {
                row_outline(table.selected@, row)
            } else {
                seq![]
            },
        8,
    );
}

proof fn cell_backgrounds_are_apart<E>(table: DataTable<E>, view: BodyView)
    ensures
        all_at(table.cell_backgrounds(view), 2),
{
    let items = |row: int|
        run(
            view.start as int,
            view.end as int,
            |column: int|
                one_if(
                    view.colours(table.columns@.len() as int, row, column),
                    BodyItem::CellBackground { row: row as usize, column: column as usize },
                ),
        );

    assert forall|row: int| view.first <= row < view.last implies all_at(#[trigger] items(row), 2) by {
        a_run_is_at(
            view.start as int,
            view.end as int,
            |column: int|
                one_if(
                    view.colours(table.columns@.len() as int, row, column),
                    BodyItem::CellBackground { row: row as usize, column: column as usize },
                ),
            2,
        );
    }
    a_run_is_at(view.first as int, view.last as int, items, 2);
}

proof fn marked_cells_are_apart<E>(table: DataTable<E>, view: BodyView)
    ensures
        all_at(table.marked_cells(view), 9),
{
    let items = |row: int|
        run(
            view.start as int,
            view.reach(),
            |column: int| cell_marks(table.selected_cells@, view.paints, row, column),
        );

    assert forall|row: int| view.first <= row < view.last implies all_at(#[trigger] items(row), 9) by {
        a_run_is_at(
            view.start as int,
            view.reach(),
            |column: int| cell_marks(table.selected_cells@, view.paints, row, column),
            9,
        );
    }
    a_run_is_at(view.first as int, view.last as int, items, 9);
}

proof fn contents_are_apart<E>(table: DataTable<E>, view: BodyView)
    ensures
        all_at(table.contents(view), 10),
{
    let items = |row: int|
        run(
            view.start as int,
            view.end as int,
            |column: int| seq![BodyItem::Contents { row: row as usize, column: column as usize }],
        );

    assert forall|row: int| view.first <= row < view.last implies all_at(#[trigger] items(row), 10) by {
        a_run_is_at(
            view.start as int,
            view.end as int,
            |column: int| seq![BodyItem::Contents { row: row as usize, column: column as usize }],
            10,
        );
    }
    a_run_is_at(view.first as int, view.last as int, items, 10);
}

/// Each part of the body holds only its own kind of item.
proof fn parts_are_apart<E>(table: DataTable<E>, view: BodyView)
    ensures
        all_at(table.stripes(view), 0),
        all_at(table.column_bands(view), 1),
        all_at(table.cell_backgrounds(view), 2),
        all_at(table.hover(view), 3),
        all_at(table.selected_rows(view), 4),
        all_at(table.row_dividers(view), 5),
        all_at(table.column_dividers(view), 6),
        all_at(table.gutter_dividers(view), 7),
        all_at(table.row_outlines(view), 8),
        all_at(table.marked_cells(view), 9),
        all_at(table.contents(view), 10),
{
    stripes_are_apart(table, view);
    column_bands_are_apart(table, view);
    cell_backgrounds_are_apart(table, view);
    selected_rows_are_apart(table, view);
    row_dividers_are_apart(table, view);
    column_dividers_are_apart(table, view);
    row_outlines_are_apart(table, view);
    marked_cells_are_apart(table, view);
    contents_are_apart(table, view);
}

/// No item is painted before one that is earlier, and all of them are within
/// these bounds.
pub open spec fn painted_in_order(items: Seq<BodyItem>, low: int, high: int) -> bool {
    &&& forall|i: int| 0 <= i < items.len() ==> low <= lateness(#[trigger] items[i]) <= high
    &&& forall|i: int, j: int|
        #![trigger items[i], items[j]]
        0 <= i <= j < items.len() ==> lateness(items[i]) <= lateness(items[j])
}

proof fn one_part_in_order(items: Seq<BodyItem>, late: int)
    requires
        all_at(items, late),
    ensures
        painted_in_order(items, late, late),
{
}

proof fn parts_in_order(a: Seq<BodyItem>, b: Seq<BodyItem>, low: int, middle: int, high: int)
    requires
        painted_in_order(a, low, middle),
        painted_in_order(b, middle, high),
        low <= middle <= high,
    ensures
        painted_in_order(a + b, low, high),
{
    let both = a + b;

    assert forall|i: int| 0 <= i < both.len() implies low <= lateness(#[trigger] both[i])
        <= high by {
        if i < a.len() {
            assert(both[i] == a[i]);
        } else {
            assert(both[i] == b[i - a.len()]);
        }
    }
    assert forall|i: int, j: int|
        #![trigger both[i], both[j]]
        0 <= i <= j < both.len() implies lateness(both[i]) <= lateness(both[j]) by {
        if j < a.len() {
            assert(both[i] == a[i] && both[j] == a[j]);
        } else if i < a.len() {
            assert(both[i] == a[i] && both[j] == b[j - a.len()]);
        } else {
            assert(both[i] == b[i - a.len()] && both[j] == b[j - a.len()]);
        }
    }
}

/// The body is painted from the ground up: stripes, column bands, the cells' own
/// backgrounds, the hovered row, the selected rows, the dividers, the outlines
/// of selected rows, the selected cells, and the contents over everything.
pub proof fn the_body_is_painted_from_the_ground_up<E>(table: DataTable<E>, view: BodyView)
    ensures
        painted_in_order(table.body(view), 0, 10),
{
    let a = table.stripes(view);
    let b = a + table.column_bands(view);
    let c = b + table.cell_backgrounds(view);
    let d = c + table.hover(view);
    let e = d + table.selected_rows(view);
    let f = e + table.row_dividers(view);
    let g = f + table.column_dividers(view);
    let h = g + table.gutter_dividers(view);
    let i = h + table.row_outlines(view);
    let j = i + table.marked_cells(view);

    parts_are_apart(table, view);
    one_part_in_order(table.stripes(view), 0);
    one_part_in_order(table.column_bands(view), 1);
    one_part_in_order(table.cell_backgrounds(view), 2);
    one_part_in_order(table.hover(view), 3);
    one_part_in_order(table.selected_rows(view), 4);
    one_part_in_order(table.row_dividers(view), 5);
    one_part_in_order(table.column_dividers(view), 6);
    one_part_in_order(table.gutter_dividers(view), 7);
    one_part_in_order(table.row_outlines(view), 8);
    one_part_in_order(table.marked_cells(view), 9);
    one_part_in_order(table.contents(view), 10);
    parts_in_order(a, table.column_bands(view), 0, 1, 1);
    parts_in_order(b, table.cell_backgrounds(view), 0, 2, 2);
    parts_in_order(c, table.hover(view), 0, 3, 3);
    parts_in_order(d, table.selected_rows(view), 0, 4, 4);
    parts_in_order(e, table.row_dividers(view), 0, 5, 5);
    parts_in_order(f, table.column_dividers(view), 0, 6, 6);
    parts_in_order(g, table.gutter_dividers(view), 0, 7, 7);
    parts_in_order(h, table.row_outlines(view), 0, 8, 8);
    parts_in_order(i, table.marked_cells(view), 0, 9, 9);
    parts_in_order(j, table.contents(view), 0, 10, 10);
}

/// An item is in the body exactly if it is in the part that its kind belongs to.
pub(crate) proof fn the_body_holds<E>(table: DataTable<E>, view: BodyView, item: BodyItem)
    ensures
        table.body(view).contains(item) <==> match item {
            BodyItem::Stripe(_) => table.stripes(view).contains(item),
            BodyItem::ColumnBand(_) => table.column_bands(view).contains(item),
            BodyItem::CellBackground { .. } => table.cell_backgrounds(view).contains(item),
            BodyItem::Hover(_) => table.hover(view).contains(item),
            BodyItem::SelectedRow(_) => table.selected_rows(view).contains(item),
            BodyItem::RowDivider(_) => table.row_dividers(view).contains(item),
            BodyItem::ColumnDivider(_) => table.column_dividers(view).contains(item),
            BodyItem::GutterDivider(_) => table.gutter_dividers(view).contains(item),
            BodyItem::RowOutline { .. } => table.row_outlines(view).contains(item),
            BodyItem::CellFill { .. } => table.marked_cells(view).contains(item),
            BodyItem::CellEdge { .. } => table.marked_cells(view).contains(item),
            BodyItem::Contents { .. } => table.contents(view).contains(item),
        },
{
    parts_are_apart(table, view);
    let a = table.stripes(view);
    let b = a + table.column_bands(view);
    let c = b + table.cell_backgrounds(view);
    let d = c + table.hover(view);
    let e = d + table.selected_rows(view);
    let f = e + table.row_dividers(view);
    let g = f + table.column_dividers(view);
    let h = g + table.gutter_dividers(view);
    let i = h + table.row_outlines(view);
    let j = i + table.marked_cells(view);

    both_hold(a, table.column_bands(view), item);
    both_hold(b, table.cell_backgrounds(view), item);
    both_hold(c, table.hover(view), item);
    both_hold(d, table.selected_rows(view), item);
    both_hold(e, table.row_dividers(view), item);
    both_hold(f, table.column_dividers(view), item);
    both_hold(g, table.gutter_dividers(view), item);
    both_hold(h, table.row_outlines(view), item);
    both_hold(i, table.marked_cells(view), item);
    both_hold(j, table.contents(view), item);
}

/// The contents of a cell are painted exactly in the band its column belongs to,
/// while its row is on screen.
pub proof fn contents_are_painted_where_they_are<E>(
    table: DataTable<E>,
    view: BodyView,
    row: usize,
    column: usize,
)
    ensures
        table.body(view).contains(BodyItem::Contents { row, column }) <==> view.first <= row
            < view.last && view.start <= column < view.end,
{
    let item = BodyItem::Contents { row, column };
    let items = |row: int|
        run(
            view.start as int,
            view.end as int,
            |column: int| seq![BodyItem::Contents { row: row as usize, column: column as usize }],
        );

    the_body_holds(table, view, item);
    run_holds(view.first as int, view.last as int, items, item);
    assert forall|r: int| view.first <= r < view.last && #[trigger] items(r).contains(
        item,
    ) implies view.first <= row < view.last && view.start <= column < view.end by {
        let inner = |column: int|
            seq![BodyItem::Contents { row: r as usize, column: column as usize }];

        run_holds(view.start as int, view.end as int, inner, item);
        let c = choose|c: int| view.start <= c < view.end && #[trigger] inner(c).contains(item);
        assert(inner(c)[0] == item);
    }
    if view.first <= row < view.last && view.start <= column < view.end {
        let inner = |column: int|
            seq![BodyItem::Contents { row: row as int as usize, column: column as usize }];

        run_holds(view.start as int, view.end as int, inner, item);
        assert(inner(column as int)[0] == item);
        assert(inner(column as int).contains(item));
        assert(items(row as int).contains(item));
    }
}

/// The row under the pointer is highlighted exactly while it is on screen and
/// not selected: a selected row still reads as selected.
pub proof fn hover_gives_way_to_the_selection<E>(table: DataTable<E>, view: BodyView, row: usize)
    ensures
        table.body(view).contains(BodyItem::Hover(row)) <==> view.paints.hover && view.hovered
            == Some(row) && view.first <= row < view.last && !table.selected@.contains(row),
{
    the_body_holds(table, view, BodyItem::Hover(row));
    if table.hover(view).contains(BodyItem::Hover(row)) {
        let at = choose|at: int|
            0 <= at < table.hover(view).len() && table.hover(view)[at] == BodyItem::Hover(row);
        assert(at == 0);
    }
    if view.paints.hover && view.hovered == Some(row) && view.first <= row < view.last
        && !table.selected@.contains(row) {
        assert(table.hover(view)[0] == BodyItem::Hover(row));
    }
}

/// A run of selected rows is outlined as one block: above where it begins, below
/// where it ends, and nowhere in between.
pub proof fn selected_rows_are_outlined_as_one_block<E>(
    table: DataTable<E>,
    view: BodyView,
    row: usize,
)
    requires
        view.paints.row_outline,
        view.first <= row < view.last,
    ensures
        table.body(view).contains(BodyItem::RowOutline { row, side: Side::Top }) <==> (
        table.selected@.contains(row) && (row == 0 || !table.selected@.contains(
            (row - 1) as usize,
        ))),
        table.body(view).contains(BodyItem::RowOutline { row, side: Side::Bottom }) <==> (
        table.selected@.contains(row) && !table.selected@.contains((row + 1) as usize)),
{
    let top = BodyItem::RowOutline { row, side: Side::Top };
    let bottom = BodyItem::RowOutline { row, side: Side::Bottom };
    let items = |row: int|
        if view.paints.row_outline {
            row_outline(table.selected@, row)
        } else {
            seq![]
        };

    the_body_holds(table, view, top);
    the_body_holds(table, view, bottom);
    run_holds(view.first as int, view.last as int, items, top);
    run_holds(view.first as int, view.last as int, items, bottom);
    assert forall|r: int| view.first <= r < view.last implies ((#[trigger] items(r).contains(top)
        || items(r).contains(bottom)) ==> r == row) by {
        outline_holds(table.selected@, r, row, Side::Top);
        outline_holds(table.selected@, r, row, Side::Bottom);
    }
    outline_holds(table.selected@, row as int, row, Side::Top);
    outline_holds(table.selected@, row as int, row, Side::Bottom);
    assert(items(row as int) == row_outline(table.selected@, row as int));
}

proof fn outline_holds(rows: Set<usize>, at: int, row: usize, side: Side)
    requires
        0 <= at <= usize::MAX,
    ensures
        row_outline(rows, at).contains(BodyItem::RowOutline { row, side }) <==> at == row
            && rows.contains(row) && match side {
            Side::Top => row == 0 || !rows.contains((row - 1) as usize),
            Side::Bottom => !rows.contains((row + 1) as usize),
            _ => false,
        },
{
    let item = BodyItem::RowOutline { row, side };
    let above = one_if(
        at == 0 || !rows.contains((at - 1) as usize),
        BodyItem::RowOutline { row: at as usize, side: Side::Top },
    );
    let below = one_if(
        !rows.contains((at + 1) as usize),
        BodyItem::RowOutline { row: at as usize, side: Side::Bottom },
    );

    one_if_holds(
        at == 0 || !rows.contains((at - 1) as usize),
        BodyItem::RowOutline { row: at as usize, side: Side::Top },
        item,
    );
    one_if_holds(
        !rows.contains((at + 1) as usize),
        BodyItem::RowOutline { row: at as usize, side: Side::Bottom },
        item,
    );
    both_hold(above, below, item);
}

/// The one item is there exactly if the condition holds.
pub(crate) proof fn one_if_holds<T>(condition: bool, item: T, other: T)
    ensures
        one_if(condition, item).contains(other) <==> condition && item == other,
{
    if condition {
        assert(one_if(condition, item)[0] == item);
        if one_if(condition, item).contains(other) {
            let at = choose|at: int|
                0 <= at < one_if(condition, item).len() && one_if(condition, item)[at] == other;
            assert(at == 0);
        }
    }
}

proof fn marks_hold(
    cells: Set<(usize, usize)>,
    paints: BodyPaints,
    r: int,
    c: int,
    row: usize,
    column: usize,
    side: Side,
)
    requires
        0 <= r <= usize::MAX,
        0 <= c <= usize::MAX,
    ensures
        cell_marks(cells, paints, r, c).contains(BodyItem::CellEdge { row, column, side }) <==> {
            &&& r == row && c == column
            &&& paints.cell_outline
            &&& cells.contains((row, column))
            &&& !joined(cells, row as int, column as int, side)
        },
{
    let item = BodyItem::CellEdge { row, column, side };
    let fill = one_if(
        paints.cell_fill,
        BodyItem::CellFill { row: r as usize, column: c as usize },
    );
    let top = cell_edge(cells, r, c, Side::Top);
    let bottom = cell_edge(cells, r, c, Side::Bottom);
    let left = cell_edge(cells, r, c, Side::Left);
    let right = cell_edge(cells, r, c, Side::Right);

    one_if_holds(
        paints.cell_fill,
        BodyItem::CellFill { row: r as usize, column: c as usize },
        item,
    );
    edge_holds(cells, r, c, Side::Top, item);
    edge_holds(cells, r, c, Side::Bottom, item);
    edge_holds(cells, r, c, Side::Left, item);
    edge_holds(cells, r, c, Side::Right, item);
    both_hold(fill, top, item);
    both_hold(fill + top, bottom, item);
    both_hold(fill + top + bottom, left, item);
    both_hold(fill + top + bottom + left, right, item);
}

proof fn edge_holds(cells: Set<(usize, usize)>, r: int, c: int, side: Side, item: BodyItem)
    ensures
        cell_edge(cells, r, c, side).contains(item) <==> !joined(cells, r, c, side) && item == (
        BodyItem::CellEdge { row: r as usize, column: c as usize, side }),
{
    one_if_holds(
        !joined(cells, r, c, side),
        BodyItem::CellEdge { row: r as usize, column: c as usize, side },
        item,
    );
}

/// Any shape the selected cells take is outlined as one block: an edge is
/// painted exactly where the neighbour on that side is not selected.
pub proof fn selected_cells_are_outlined_as_one_block<E>(
    table: DataTable<E>,
    view: BodyView,
    row: usize,
    column: usize,
    side: Side,
)
    ensures
        table.body(view).contains(BodyItem::CellEdge { row, column, side }) <==> {
            &&& view.first <= row < view.last
            &&& view.start <= column < view.end
            &&& column < view.laid_out
            &&& view.paints.cell_outline
            &&& table.selected_cells@.contains((row, column))
            &&& !joined(table.selected_cells@, row as int, column as int, side)
        },
{
    let item = BodyItem::CellEdge { row, column, side };
    let cells = table.selected_cells@;
    let items = |row: int|
        run(
            view.start as int,
            view.reach(),
            |column: int| cell_marks(table.selected_cells@, view.paints, row, column),
        );

    the_body_holds(table, view, item);
    run_holds(view.first as int, view.last as int, items, item);
    assert forall|r: int| view.first <= r < view.last implies (#[trigger] items(r).contains(item)
        <==> {
        &&& r == row
        &&& view.start <= column < view.reach()
        &&& view.paints.cell_outline
        &&& cells.contains((row, column))
        &&& !joined(cells, row as int, column as int, side)
    }) by {
        let inner = |column: int| cell_marks(table.selected_cells@, view.paints, r, column);

        run_holds(view.start as int, view.reach(), inner, item);
        assert forall|c: int| view.start <= c < view.reach() implies (#[trigger] inner(c).contains(
            item,
        ) <==> {
            &&& r == row && c == column
            &&& view.paints.cell_outline
            &&& cells.contains((row, column))
            &&& !joined(cells, row as int, column as int, side)
        }) by {
            marks_hold(cells, view.paints, r, c, row, column, side);
        }
        assert(items(r) == run(view.start as int, view.reach(), inner));
        marks_hold(cells, view.paints, r, column as int, row, column, side);
        assert(inner(column as int) == cell_marks(cells, view.paints, r, column as int));
    }
    let shown = items(row as int).contains(item);
}

/// What is among the items of no number is not among those of the range.
pub(crate) proof fn run_lacks<T>(low: int, high: int, items: spec_fn(int) -> Seq<T>, item: T)
    requires
        forall|k: int| low <= k < high ==> !(#[trigger] items(k)).contains(item),
    ensures
        !run(low, high, items).contains(item),
{
    run_holds(low, high, items, item);
}

/// Something is in the header exactly if it is in one of its parts.
pub(crate) proof fn the_header_holds<E>(table: DataTable<E>, view: HeaderView, item: HeaderItem)
    ensures
        table.header(view).contains(item) <==> {
            ||| one_if(view.paints.ground, HeaderItem::Ground).contains(item)
            ||| table.group_grounds(view).contains(item)
            ||| table.header_bands(view).contains(item)
            ||| table.all_rails(view).contains(item)
            ||| table.gutters(view).contains(item)
            ||| table.controls(view).contains(item)
            ||| table.labels(view).contains(item)
            ||| one_if(view.paints.divider, HeaderItem::Divider).contains(item)
        },
{
    let a = one_if(view.paints.ground, HeaderItem::Ground);
    let b = a + table.group_grounds(view);
    let c = b + table.header_bands(view);
    let d = c + table.all_rails(view);
    let e = d + table.gutters(view);
    let f = e + table.controls(view);
    let g = f + table.labels(view);
    let divider = one_if(view.paints.divider, HeaderItem::Divider);

    both_hold(a, table.group_grounds(view), item);
    both_hold(b, table.header_bands(view), item);
    both_hold(c, table.all_rails(view), item);
    both_hold(d, table.gutters(view), item);
    both_hold(e, table.controls(view), item);
    both_hold(f, table.labels(view), item);
    both_hold(g, divider, item);
    assert(table.header(view) =~= g + divider);
}

proof fn header_bands_hold<E>(table: DataTable<E>, view: HeaderView, item: HeaderItem)
    requires
        table.header_cells@.len() <= usize::MAX,
    ensures
        table.header_bands(view).contains(item) <==> {
            &&& item matches HeaderItem::ColumnBand(k)
            &&& k < table.header_cells@.len()
            &&& view.paints.column_bands
            &&& table.header_cells@[k as int].leaf
            &&& view.start <= table.header_cells@[k as int].start < view.end
            &&& table.selected_columns@.contains(table.header_cells@[k as int].start)
        },
{
    let count = table.header_cells@.len() as int;
    let bands = |k: int| table.column_band(view, k);

    run_holds(0, count, bands, item);
    assert forall|i: int| 0 <= i < count implies ((#[trigger] bands(i)).contains(item) <==> {
        &&& item == HeaderItem::ColumnBand(i as usize)
        &&& view.paints.column_bands
        &&& table.header_cells@[i].leaf
        &&& view.start <= table.header_cells@[i].start < view.end
        &&& table.selected_columns@.contains(table.header_cells@[i].start)
    }) by {
        let cell = table.header_cells@[i];

        one_if_holds(
            view.paints.column_bands && cell.leaf && view.start <= cell.start < view.end
                && table.selected_columns@.contains(cell.start),
            HeaderItem::ColumnBand(i as usize),
            item,
        );
    }
    if let HeaderItem::ColumnBand(k) = item {
        let shown = bands(k as int).contains(item);
    }
}

proof fn grounds_lack<E>(table: DataTable<E>, view: HeaderView, item: HeaderItem)
    requires
        item is Label || item is ColumnBand,
    ensures
        !one_if(view.paints.ground, HeaderItem::Ground).contains(item),
        !table.group_grounds(view).contains(item),
        !table.gutters(view).contains(item),
        !one_if(view.paints.divider, HeaderItem::Divider).contains(item),
{
    let count = table.header_cells@.len() as int;
    let grounds = |k: int| table.group_ground(view, k);

    one_if_holds(view.paints.ground, HeaderItem::Ground, item);
    one_if_holds(view.paints.divider, HeaderItem::Divider, item);
    assert forall|i: int| 0 <= i < count implies !(#[trigger] grounds(i)).contains(item) by {
        one_if_holds(
            view.paints.group_ground && !table.header_cells@[i].leaf,
            HeaderItem::GroupGround(i as usize),
            item,
        );
    }
    run_lacks(0, count, grounds, item);
}

proof fn rails_and_controls_lack<E>(table: DataTable<E>, view: HeaderView, item: HeaderItem)
    requires
        item is Label || item is ColumnBand,
    ensures
        !table.all_rails(view).contains(item),
        !table.controls(view).contains(item),
{
    let count = table.header_cells@.len() as int;
    let rails = |k: int| table.rails(view, k);
    let controls = |k: int| table.control(view, k);

    assert forall|i: int| 0 <= i < count implies !(#[trigger] rails(i)).contains(item) by {
        let found = table.rails(view, i);

        assert forall|at: int| 0 <= at < found.len() implies #[trigger] found[at] != item by {}
    }
    run_lacks(0, count, rails, item);
    assert forall|i: int| 0 <= i < count implies !(#[trigger] controls(i)).contains(item) by {
        let found = table.control(view, i);

        assert forall|at: int| 0 <= at < found.len() implies #[trigger] found[at] != item by {}
    }
    run_lacks(0, count, controls, item);
}

proof fn labels_hold<E>(table: DataTable<E>, view: HeaderView, item: HeaderItem)
    requires
        table.header_cells@.len() <= usize::MAX,
    ensures
        table.labels(view).contains(item) <==> {
            &&& item matches HeaderItem::Label(k)
            &&& k < table.header_cells@.len()
            &&& view.start <= table.header_cells@[k as int].start
            &&& table.header_cells@[k as int].end < view.end
        },
{
    let count = table.header_cells@.len() as int;
    let labels = |k: int| table.label(view, k);

    run_holds(0, count, labels, item);
    assert forall|i: int| 0 <= i < count implies ((#[trigger] labels(i)).contains(item) <==> {
        &&& item == HeaderItem::Label(i as usize)
        &&& view.start <= table.header_cells@[i].start
        &&& table.header_cells@[i].end < view.end
    }) by {
        one_if_holds(
            view.start <= table.header_cells@[i].start && table.header_cells@[i].end < view.end,
            HeaderItem::Label(i as usize),
            item,
        );
    }
    if let HeaderItem::Label(k) = item {
        let shown = labels(k as int).contains(item);
    }
}

/// A label is painted exactly in a band that holds all of its columns.
pub proof fn a_label_is_painted_where_its_columns_are<E>(
    table: DataTable<E>,
    view: HeaderView,
    k: usize,
)
    requires
        k < table.header_cells@.len() <= usize::MAX,
    ensures
        table.header(view).contains(HeaderItem::Label(k)) <==> view.start
            <= table.header_cells@[k as int].start && table.header_cells@[k as int].end < view.end,
{
    let item = HeaderItem::Label(k);

    the_header_holds(table, view, item);
    grounds_lack(table, view, item);
    rails_and_controls_lack(table, view, item);
    header_bands_hold(table, view, item);
    labels_hold(table, view, item);
}

/// A selected column is banded in both header and body: in the body wherever it
/// is laid out, and in the header over its own header cell, in the band of columns
/// that it belongs to. No other column is.
pub proof fn a_selected_column_is_banded_in_header_and_body<E>(
    table: DataTable<E>,
    head: HeaderView,
    body: BodyView,
    k: usize,
    column: usize,
)
    requires
        k < table.header_cells@.len() <= usize::MAX,
        table.header_cells@[k as int].leaf,
        table.header_cells@[k as int].start == column,
        head.start <= column < head.end,
        column < body.laid_out,
    ensures
        table.header(head).contains(HeaderItem::ColumnBand(k)) <==> head.paints.column_bands
            && table.selected_columns@.contains(column),
        table.body(body).contains(BodyItem::ColumnBand(column)) <==> body.paints.column_bands
            && table.selected_columns@.contains(column),
{
    let item = HeaderItem::ColumnBand(k);
    let band = BodyItem::ColumnBand(column);
    let bands = |column: int|
        one_if(
            body.paints.column_bands && table.selected_columns@.contains(column as usize),
            BodyItem::ColumnBand(column as usize),
        );

    the_header_holds(table, head, item);
    grounds_lack(table, head, item);
    rails_and_controls_lack(table, head, item);
    header_bands_hold(table, head, item);
    labels_hold(table, head, item);
    the_body_holds(table, body, band);
    run_holds(0, body.laid_out as int, bands, band);
    assert forall|c: int| 0 <= c < body.laid_out implies ((#[trigger] bands(c)).contains(band) <==> c
        == column && body.paints.column_bands && table.selected_columns@.contains(column)) by {
        one_if_holds(
            body.paints.column_bands && table.selected_columns@.contains(c as usize),
            BodyItem::ColumnBand(c as usize),
            band,
        );
    }
    let shown = bands(column as int).contains(band);
}

/// Every label is painted once: in the band of the frozen columns or in that of
/// the scrolling ones, and never in both.
pub proof fn every_label_is_painted_once<E>(
    table: DataTable<E>,
    nodes: Seq<HeaderNode<E>>,
    frozen: HeaderView,
    scrolling: HeaderView,
    k: usize,
)
    requires
        forest_nodes(nodes) < usize::MAX,
        forest_filled(nodes),
        table.header_cells@ == header_cells(nodes),
        table.fits(),
        frozen.start == 0,
        frozen.end == frozen_columns(nodes),
        scrolling.start == frozen_columns(nodes),
        scrolling.end == table.columns@.len(),
        k < table.header_cells@.len() <= usize::MAX,
    ensures
        table.header(frozen).contains(HeaderItem::Label(k)) != table.header(scrolling).contains(
            HeaderItem::Label(k),
        ),
{
    the_frozen_prefix_splits_no_cell(nodes, k as int);
    a_label_is_painted_where_its_columns_are(table, frozen, k);
    a_label_is_painted_where_its_columns_are(table, scrolling, k);
    assert(crate::table::inside(
        table.header_cells@[k as int],
        table.columns@.len(),
        table.header_rows,
    ));
}

} // verus!
