//! What is in a plan of the body, item by item, and what is not.

use vstd::prelude::*;
use crate::paint::{cell_edge, cell_marks, one_if, row_outline, run, BodyItem, BodyView, Side};
use crate::paint_laws::{
    both_hold, one_if_holds, run_holds, selected_cells_are_outlined_as_one_block, the_body_holds,
};
use crate::table::DataTable;

verus! {

/// What one row of the table gives, for each row on screen.
proof fn a_run_of_ones(
    low: int,
    high: int,
    items: spec_fn(int) -> Seq<BodyItem>,
    shows: spec_fn(int) -> bool,
    made: spec_fn(int) -> BodyItem,
    item: BodyItem,
    at: int,
)
    requires
        forall|k: int| low <= k < high ==> #[trigger] items(k) == one_if(shows(k), made(k)),
        forall|k: int| low <= k < high ==> (#[trigger] made(k) == item <==> k == at),
    ensures
        run(low, high, items).contains(item) <==> low <= at < high && shows(at),
{
    run_holds(low, high, items, item);
    assert forall|k: int| low <= k < high implies (#[trigger] items(k).contains(item) <==> k == at
        && shows(k)) by {
        let one = made(k);
        one_if_holds(shows(k), made(k), item);
    }
    if low <= at < high && shows(at) {
        assert(items(at).contains(item));
    }
}

/// Every other row is striped, the second one first, and no other.
pub proof fn every_other_row_is_striped<E>(table: DataTable<E>, view: BodyView, row: usize)
    ensures
        table.body(view).contains(BodyItem::Stripe(row)) <==> view.paints.stripes && view.first
            <= row < view.last && row % 2 == 1,
{
    let item = BodyItem::Stripe(row);

    the_body_holds(table, view, item);
    a_run_of_ones(
        view.first as int,
        view.last as int,
        |row: int| one_if(view.paints.stripes && row % 2 == 1, BodyItem::Stripe(row as usize)),
        |row: int| view.paints.stripes && row % 2 == 1,
        |row: int| BodyItem::Stripe(row as usize),
        item,
        row as int,
    );
}

/// A selected column is banded wherever it is laid out, and no other is.
pub proof fn selected_columns_are_banded<E>(table: DataTable<E>, view: BodyView, column: usize)
    ensures
        table.body(view).contains(BodyItem::ColumnBand(column)) <==> view.paints.column_bands
            && column < view.laid_out && table.selected_columns@.contains(column),
{
    let item = BodyItem::ColumnBand(column);

    the_body_holds(table, view, item);
    a_run_of_ones(
        0,
        view.laid_out as int,
        |column: int|
            one_if(
                view.paints.column_bands && table.selected_columns@.contains(column as usize),
                BodyItem::ColumnBand(column as usize),
            ),
        |column: int| view.paints.column_bands && table.selected_columns@.contains(column as usize),
        |column: int| BodyItem::ColumnBand(column as usize),
        item,
        column as int,
    );
}

/// A selected row on screen is filled, and no other is.
pub proof fn selected_rows_are_filled<E>(table: DataTable<E>, view: BodyView, row: usize)
    ensures
        table.body(view).contains(BodyItem::SelectedRow(row)) <==> view.paints.selected_rows
            && view.first <= row < view.last && table.selected@.contains(row),
{
    let item = BodyItem::SelectedRow(row);

    the_body_holds(table, view, item);
    a_run_of_ones(
        view.first as int,
        view.last as int,
        |row: int|
            one_if(
                view.paints.selected_rows && table.selected@.contains(row as usize),
                BodyItem::SelectedRow(row as usize),
            ),
        |row: int| view.paints.selected_rows && table.selected@.contains(row as usize),
        |row: int| BodyItem::SelectedRow(row as usize),
        item,
        row as int,
    );
}

/// There is a rule above each row on screen but the first of the table.
pub proof fn rows_are_ruled_off<E>(table: DataTable<E>, view: BodyView, row: usize)
    ensures
        table.body(view).contains(BodyItem::RowDivider(row)) <==> view.paints.row_dividers
            && view.first <= row < view.last && row > 0,
{
    let item = BodyItem::RowDivider(row);

    the_body_holds(table, view, item);
    a_run_of_ones(
        view.first as int,
        view.last as int,
        |row: int|
            one_if(view.paints.row_dividers && row > 0, BodyItem::RowDivider(row as usize)),
        |row: int| view.paints.row_dividers && row > 0,
        |row: int| BodyItem::RowDivider(row as usize),
        item,
        row as int,
    );
}

/// There is a rule left of each column but the first.
pub proof fn columns_are_ruled_off<E>(table: DataTable<E>, view: BodyView, column: usize)
    ensures
        table.body(view).contains(BodyItem::ColumnDivider(column)) <==> view.paints.column_dividers
            && 0 < column < view.laid_out,
{
    let item = BodyItem::ColumnDivider(column);

    the_body_holds(table, view, item);
    a_run_of_ones(
        0,
        view.laid_out as int,
        |column: int|
            one_if(
                view.paints.column_dividers && column > 0,
                BodyItem::ColumnDivider(column as usize),
            ),
        |column: int| view.paints.column_dividers && column > 0,
        |column: int| BodyItem::ColumnDivider(column as usize),
        item,
        column as int,
    );
}

/// Both gutters are ruled off from the columns, where there are any.
pub proof fn gutters_are_ruled_off<E>(table: DataTable<E>, view: BodyView, side: Side)
    ensures
        table.body(view).contains(BodyItem::GutterDivider(side)) <==> view.paints.gutter_dividers
            && view.laid_out > 0 && (side is Left || side is Right),
{
    let item = BodyItem::GutterDivider(side);
    let both = table.gutter_dividers(view);

    the_body_holds(table, view, item);
    if view.paints.gutter_dividers && view.laid_out > 0 {
        assert(both[0] == BodyItem::GutterDivider(Side::Left));
        assert(both[1] == BodyItem::GutterDivider(Side::Right));
    }
}

/// A cell in the band and on screen has its own background exactly if it was asked
/// for: the answers stand row by row, one for each column of the table.
pub proof fn cells_have_their_own_backgrounds<E>(
    table: DataTable<E>,
    view: BodyView,
    row: usize,
    column: usize,
)
    requires
        view.first <= view.last,
        view.backgrounds@.len() == (view.last - view.first) * table.columns@.len(),
        view.end <= table.columns@.len(),
    ensures
        table.body(view).contains(BodyItem::CellBackground { row, column }) <==> {
            &&& view.first <= row < view.last
            &&& view.start <= column < view.end
            &&& view.backgrounds@[(row - view.first) * table.columns@.len() + column]
        },
{
    let item = BodyItem::CellBackground { row, column };
    let columns = table.columns@.len() as int;
    let made = |r: int, c: int|
        BodyItem::CellBackground { row: r as usize, column: c as usize };

    let cells = |r: int, c: int| one_if(view.colours(columns, r, c), made(r, c));
    let rows = |row: int|
        run(
            view.start as int,
            view.end as int,
            |column: int|
                one_if(
                    view.colours(table.columns@.len() as int, row, column),
                    BodyItem::CellBackground { row: row as usize, column: column as usize },
                ),
        );

    the_body_holds(table, view, item);
    assert forall|r: int, c: int|
        view.first <= r < view.last && view.start <= c < view.end && #[trigger] cells(
            r,
            c,
        ).contains(item) implies r == row && c == column by {
        one_if_holds(view.colours(columns, r, c), made(r, c), item);
    }
    assert forall|r: int| view.first <= r < view.last implies #[trigger] rows(r) == run(
        view.start as int,
        view.end as int,
        |c: int| cells(r, c),
    ) by {
        assert((|column: int|
            one_if(
                view.colours(table.columns@.len() as int, r, column),
                BodyItem::CellBackground { row: r as usize, column: column as usize },
            )) =~= (|c: int| cells(r, c)));
    }
    a_run_of_cells(
        view.first as int,
        view.last as int,
        view.start as int,
        view.end as int,
        rows,
        cells,
        item,
        row as int,
        column as int,
    );
    one_if_holds(
        view.colours(columns, row as int, column as int),
        made(row as int, column as int),
        item,
    );
    if view.first <= row < view.last && view.start <= column < view.end {
        let at = (row - view.first) * columns + column;
        let rows = view.last - view.first;
        let r = row - view.first;

        assert(0 <= r * columns && r * columns + column < rows * columns) by (nonlinear_arith)
            requires
                0 <= r < rows,
                0 <= column < columns,
        ;
    }
}

/// What the cells of a band give, for each of them on screen.
proof fn a_run_of_cells(
    top: int,
    bottom: int,
    left: int,
    right: int,
    rows: spec_fn(int) -> Seq<BodyItem>,
    cells: spec_fn(int, int) -> Seq<BodyItem>,
    item: BodyItem,
    row: int,
    column: int,
)
    requires
        forall|r: int|
            top <= r < bottom ==> #[trigger] rows(r) == run(left, right, |c: int| cells(r, c)),
        forall|r: int, c: int|
            top <= r < bottom && left <= c < right && #[trigger] cells(r, c).contains(item) ==> r
                == row && c == column,
    ensures
        run(top, bottom, rows).contains(item) <==> top <= row < bottom && left <= column < right
            && cells(row, column).contains(item),
{
    run_holds(top, bottom, rows, item);
    assert forall|r: int| top <= r < bottom implies (#[trigger] rows(r).contains(item) <==> r == row
        && left <= column < right && cells(row, column).contains(item)) by {
        let inner = |c: int| cells(r, c);

        run_holds(left, right, inner, item);
        if rows(r).contains(item) {
            let c = choose|c: int| left <= c < right && #[trigger] inner(c).contains(item);
            assert(cells(r, c).contains(item));
        }
        if r == row && left <= column < right && cells(row, column).contains(item) {
            assert(inner(column).contains(item));
        }
    }
    if top <= row < bottom {
        let shown = rows(row).contains(item);
    }
}

/// A selected cell of the band that is laid out and on screen is filled, and no other
/// is.
pub proof fn selected_cells_are_filled<E>(
    table: DataTable<E>,
    view: BodyView,
    row: usize,
    column: usize,
)
    ensures
        table.body(view).contains(BodyItem::CellFill { row, column }) <==> {
            &&& view.paints.cell_fill
            &&& view.first <= row < view.last
            &&& view.start <= column < view.end && column < view.laid_out
            &&& table.selected_cells@.contains((row, column))
        },
{
    let item = BodyItem::CellFill { row, column };
    let cells = table.selected_cells@;

    the_body_holds(table, view, item);
    assert forall|r: int, c: int|
        0 <= r <= usize::MAX && 0 <= c <= usize::MAX implies (#[trigger] cell_marks(
        cells,
        view.paints,
        r,
        c,
    ).contains(item) <==> r == row && c == column && view.paints.cell_fill && cells.contains(
        (row, column),
    )) by {
        fills_hold(table, view, r, c, row, column);
    }
    let marks = |r: int, c: int| cell_marks(table.selected_cells@, view.paints, r, c);
    let rows = |row: int|
        run(
            view.start as int,
            view.reach(),
            |column: int| cell_marks(table.selected_cells@, view.paints, row, column),
        );

    assert forall|r: int| view.first <= r < view.last implies #[trigger] rows(r) == run(
        view.start as int,
        view.reach(),
        |c: int| marks(r, c),
    ) by {
        assert((|column: int| cell_marks(table.selected_cells@, view.paints, r, column)) =~= (
        |c: int| marks(r, c)));
    }
    a_run_of_cells(
        view.first as int,
        view.last as int,
        view.start as int,
        view.reach(),
        rows,
        marks,
        item,
        row as int,
        column as int,
    );
}

proof fn fills_hold<E>(
    table: DataTable<E>,
    view: BodyView,
    r: int,
    c: int,
    row: usize,
    column: usize,
)
    requires
        0 <= r <= usize::MAX,
        0 <= c <= usize::MAX,
    ensures
        cell_marks(table.selected_cells@, view.paints, r, c).contains(
            BodyItem::CellFill { row, column },
        ) <==> r == row && c == column && view.paints.cell_fill && table.selected_cells@.contains(
            (row, column),
        ),
{
    let cells = table.selected_cells@;
    let item = BodyItem::CellFill { row, column };
    let fill = one_if(
        view.paints.cell_fill,
        BodyItem::CellFill { row: r as usize, column: c as usize },
    );
    let top = cell_edge(cells, r, c, Side::Top);
    let bottom = cell_edge(cells, r, c, Side::Bottom);
    let left = cell_edge(cells, r, c, Side::Left);
    let right = cell_edge(cells, r, c, Side::Right);

    one_if_holds(
        view.paints.cell_fill,
        BodyItem::CellFill { row: r as usize, column: c as usize },
        item,
    );
    both_hold(fill, top, item);
    both_hold(fill + top, bottom, item);
    both_hold(fill + top + bottom, left, item);
    both_hold(fill + top + bottom + left, right, item);
}

/// An edge is drawn round selected cells on each side where the next cell is not
/// selected, and nowhere else.
pub proof fn selected_cells_are_outlined_at_their_rim<E>(
    table: DataTable<E>,
    view: BodyView,
    row: usize,
    column: usize,
    side: Side,
)
    requires
        row < usize::MAX && column < usize::MAX,
    ensures
        ({
            let cells = table.selected_cells@;
            let shown = {
                &&& view.first <= row < view.last
                &&& view.start <= column < view.end && column < view.laid_out
                &&& view.paints.cell_outline
                &&& cells.contains((row, column))
            };

            table.body(view).contains(BodyItem::CellEdge { row, column, side }) <==> shown && (
            match side {
                Side::Top => row == 0 || !cells.contains(((row - 1) as usize, column)),
                Side::Bottom => !cells.contains(((row + 1) as usize, column)),
                Side::Left => column == 0 || !cells.contains((row, (column - 1) as usize)),
                Side::Right => !cells.contains((row, (column + 1) as usize)),
            })
        }),
{
    selected_cells_are_outlined_as_one_block(table, view, row, column, side);
}

/// Rows are outlined above and below only, on screen only, and only if the style
/// does so at all.
pub proof fn only_rows_on_screen_are_outlined<E>(
    table: DataTable<E>,
    view: BodyView,
    row: usize,
    side: Side,
)
    ensures
        table.body(view).contains(BodyItem::RowOutline { row, side }) ==> {
            &&& view.paints.row_outline
            &&& view.first <= row < view.last
            &&& table.selected@.contains(row)
            &&& side is Top || side is Bottom
        },
{
    let item = BodyItem::RowOutline { row, side };
    let items = |row: int|
        if view.paints.row_outline {
            row_outline(table.selected@, row)
        } else {
            seq![]
        };

    the_body_holds(table, view, item);
    run_holds(view.first as int, view.last as int, items, item);
    if table.row_outlines(view).contains(item) {
        let k = choose|k: int|
            view.first <= k < view.last && #[trigger] items(k).contains(item);
        let above = one_if(
            k == 0 || !table.selected@.contains((k - 1) as usize),
            BodyItem::RowOutline { row: k as usize, side: Side::Top },
        );
        let beneath = one_if(
            !table.selected@.contains((k + 1) as usize),
            BodyItem::RowOutline { row: k as usize, side: Side::Bottom },
        );

        both_hold(above, beneath, item);
        one_if_holds(
            k == 0 || !table.selected@.contains((k - 1) as usize),
            BodyItem::RowOutline { row: k as usize, side: Side::Top },
            item,
        );
        one_if_holds(
            !table.selected@.contains((k + 1) as usize),
            BodyItem::RowOutline { row: k as usize, side: Side::Bottom },
            item,
        );
    }
}

/// A style sees of a cell where it is, whether its row or its column is selected, and
/// whether the pointer is over its row.
pub proof fn a_style_sees_the_cell_as_it_is<E>(
    table: DataTable<E>,
    row: usize,
    column: usize,
    hovered: Option<usize>,
)
    ensures
        ({
            let cell = table.seen_cell(row, column, hovered);

            &&& cell.row == row && cell.column == column
            &&& cell.selected <==> table.selected@.contains(row)
            &&& cell.column_selected <==> table.selected_columns@.contains(column)
            &&& cell.hovered <==> hovered is Some && hovered->0 == row
        }),
{
}

} // verus!
