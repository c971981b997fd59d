//! What is painted, and in which order.
//!
//! Later items cover earlier ones, so the order is what the eye ends up with:
//! a selected row still reads as selected where it crosses a coloured cell or a
//! selected column, and an outline is not painted over by the divider at the
//! same height. Where each item is on screen is the caller's arithmetic.
//!
//! Frozen columns are painted in a band of their own, over the scrolling ones.

use vstd::prelude::*;
use crate::style::{Cell, Style};
use crate::table::DataTable;

verus! {

broadcast use vstd::laws_cmp::group_laws_cmp;

/// One side of a cell or of the table.
#[derive(Debug, Clone, Copy, PartialEq, Eq, Structural)]
pub enum Side {
    Top,
    Bottom,
    Left,
    Right,
}

/// Something painted in the body.
#[derive(Debug, Clone, Copy, PartialEq, Eq, Structural)]
pub enum BodyItem {
    /// The background of every other row.
    Stripe(usize),
    /// The band over a selected column.
    ColumnBand(usize),
    /// The background that the cell's own style asks for.
    CellBackground { row: usize, column: usize },
    /// The background of the row under the pointer.
    Hover(usize),
    /// The background of a selected row.
    SelectedRow(usize),
    /// The rule above a row.
    RowDivider(usize),
    /// The rule left of a column.
    ColumnDivider(usize),
    /// The rule between a gutter and the columns.
    GutterDivider(Side),
    /// The outline above or below a run of selected rows.
    RowOutline { row: usize, side: Side },
    /// The fill of a selected cell.
    CellFill { row: usize, column: usize },
    /// One side of the outline around selected cells.
    CellEdge { row: usize, column: usize, side: Side },
    /// The cell's own contents.
    Contents { row: usize, column: usize },
}

/// Which parts of the body the style paints at all.
#[derive(Debug, Clone, Copy, PartialEq, Eq, Structural)]
pub struct BodyPaints {
    pub stripes: bool,
    pub column_bands: bool,
    pub hover: bool,
    pub selected_rows: bool,
    pub row_dividers: bool,
    pub column_dividers: bool,
    pub gutter_dividers: bool,
    pub row_outline: bool,
    pub cell_fill: bool,
    pub cell_outline: bool,
}

/// Which parts of the body a style paints at all.
pub open spec fn body_paints_of<B, C, F>(style: Style<B, C, F>) -> BodyPaints {
    BodyPaints {
        stripes: style.alternate_row_background is Some,
        column_bands: style.selected_column_background is Some,
        hover: style.hovered_row_background is Some,
        selected_rows: style.selected_row_background is Some,
        row_dividers: style.row_divider is Some,
        column_dividers: style.column_divider is Some,
        gutter_dividers: style.gutter_divider is Some,
        row_outline: style.selected_row_border is Some,
        cell_fill: style.selected_cell_background is Some,
        cell_outline: style.selected_cell_border is Some,
    }
}

/// Which parts of the body a style paints at all.
pub fn body_paints<B, C, F>(style: &Style<B, C, F>) -> (paints: BodyPaints)
    ensures
        paints == body_paints_of(*style),
{
    BodyPaints {
        stripes: style.alternate_row_background.is_some(),
        column_bands: style.selected_column_background.is_some(),
        hover: style.hovered_row_background.is_some(),
        selected_rows: style.selected_row_background.is_some(),
        row_dividers: style.row_divider.is_some(),
        column_dividers: style.column_divider.is_some(),
        gutter_dividers: style.gutter_divider.is_some(),
        row_outline: style.selected_row_border.is_some(),
        cell_fill: style.selected_cell_background.is_some(),
        cell_outline: style.selected_cell_border.is_some(),
    }
}

/// The part of the body that is painted at once: the visible rows of one band
/// of columns.
#[derive(Debug)]
pub struct BodyView {
    /// Rows on screen, from the first to just past the last.
    pub first: usize,
    pub last: usize,
    /// Columns of the band.
    pub start: usize,
    pub end: usize,
    /// How many columns have been laid out.
    pub laid_out: usize,
    pub hovered: Option<usize>,
    /// Which cells on screen have a background of their own, row by row over
    /// all columns; empty if none can have one.
    pub backgrounds: Vec<bool>,
    pub paints: BodyPaints,
}

/// The items of each number in a range, one after the other.
pub open spec fn run<T>(low: int, high: int, items: spec_fn(int) -> Seq<T>) -> Seq<T>
    decreases high - low,
{
    if high <= low {
        seq![]
    } else {
        run(low, high - 1, items) + items(high - 1)
    }
}

/// The one item, if the condition holds.
pub open spec fn one_if<T>(condition: bool, item: T) -> Seq<T> {
    if condition {
        seq![item]
    } else {
        seq![]
    }
}

impl BodyView {
    /// Does the cell have a background of its own?
    pub open spec fn colours(&self, columns: int, row: int, column: int) -> bool {
        let at = (row - self.first) * columns + column;

        0 <= at < self.backgrounds@.len() && self.backgrounds@[at]
    }

    /// Last column of the band that has been laid out.
    pub open spec fn reach(&self) -> int {
        if self.end < self.laid_out {
            self.end as int
        } else {
            self.laid_out as int
        }
    }
}

/// The outline of a selected row: above it where a run of selected rows begins,
/// below it where the run ends.
pub open spec fn row_outline(rows: Set<usize>, row: int) -> Seq<BodyItem> {
    if rows.contains(row as usize) {
        one_if(
            row == 0 || !rows.contains((row - 1) as usize),
            BodyItem::RowOutline { row: row as usize, side: Side::Top },
        ) + one_if(
            !rows.contains((row + 1) as usize),
            BodyItem::RowOutline { row: row as usize, side: Side::Bottom },
        )
    } else {
        seq![]
    }
}

/// Is the neighbour on this side selected too?
pub open spec fn joined(cells: Set<(usize, usize)>, row: int, column: int, side: Side) -> bool {
    match side {
        Side::Top => row > 0 && cells.contains(((row - 1) as usize, column as usize)),
        Side::Bottom => cells.contains(((row + 1) as usize, column as usize)),
        Side::Left => column > 0 && cells.contains((row as usize, (column - 1) as usize)),
        Side::Right => cells.contains((row as usize, (column + 1) as usize)),
    }
}

/// One side of a selected cell's outline: only where the neighbour on that side
/// is not selected.
pub open spec fn cell_edge(cells: Set<(usize, usize)>, row: int, column: int, side: Side) -> Seq<
    BodyItem,
> {
    one_if(
        !joined(cells, row, column, side),
        BodyItem::CellEdge { row: row as usize, column: column as usize, side },
    )
}

/// What a selected cell shows: its fill and its outline.
pub open spec fn cell_marks(
    cells: Set<(usize, usize)>,
    paints: BodyPaints,
    row: int,
    column: int,
) -> Seq<BodyItem> {
    if cells.contains((row as usize, column as usize)) {
        let fill = one_if(
            paints.cell_fill,
            BodyItem::CellFill { row: row as usize, column: column as usize },
        );

        if paints.cell_outline {
            fill + cell_edge(cells, row, column, Side::Top) + cell_edge(
                cells,
                row,
                column,
                Side::Bottom,
            ) + cell_edge(cells, row, column, Side::Left) + cell_edge(
                cells,
                row,
                column,
                Side::Right,
            )
        } else {
            fill
        }
    } else {
        seq![]
    }
}

impl<E> DataTable<E> {
    pub open spec fn stripes(&self, view: BodyView) -> Seq<BodyItem> {
        run(
            view.first as int,
            view.last as int,
            |row: int| one_if(view.paints.stripes && row % 2 == 1, BodyItem::Stripe(row as usize)),
        )
    }

    pub open spec fn column_bands(&self, view: BodyView) -> Seq<BodyItem> {
        run(
            0,
            view.laid_out as int,
            |column: int|
                one_if(
                    view.paints.column_bands && self.selected_columns@.contains(column as usize),
                    BodyItem::ColumnBand(column as usize),
                ),
        )
    }

    pub open spec fn cell_backgrounds(&self, view: BodyView) -> Seq<BodyItem> {
        run(
            view.first as int,
            view.last as int,
            |row: int|
                run(
                    view.start as int,
                    view.end as int,
                    |column: int|
                        one_if(
                            view.colours(self.columns@.len() as int, row, column),
                            BodyItem::CellBackground { row: row as usize, column: column as usize },
                        ),
                ),
        )
    }

    /// Not over a selected row, which should still read as selected.
    pub open spec fn hover(&self, view: BodyView) -> Seq<BodyItem> {
        match view.hovered {
            Some(row) => one_if(
                view.paints.hover && view.first <= row < view.last && !self.selected@.contains(row),
                BodyItem::Hover(row),
            ),
            None => seq![],
        }
    }

    pub open spec fn selected_rows(&self, view: BodyView) -> Seq<BodyItem> {
        run(
            view.first as int,
            view.last as int,
            |row: int|
                one_if(
                    view.paints.selected_rows && self.selected@.contains(row as usize),
                    BodyItem::SelectedRow(row as usize),
                ),
        )
    }

    /// No rule above the first row: the header's own is there.
    pub open spec fn row_dividers(&self, view: BodyView) -> Seq<BodyItem> {
        run(
            view.first as int,
            view.last as int,
            |row: int|
                one_if(view.paints.row_dividers && row > 0, BodyItem::RowDivider(row as usize)),
        )
    }

    /// No rule left of the first column: the gutter's own is there.
    pub open spec fn column_dividers(&self, view: BodyView) -> Seq<BodyItem> {
        run(
            0,
            view.laid_out as int,
            |column: int|
                one_if(
                    view.paints.column_dividers && column > 0,
                    BodyItem::ColumnDivider(column as usize),
                ),
        )
    }

    pub open spec fn gutter_dividers(&self, view: BodyView) -> Seq<BodyItem> {
        if view.paints.gutter_dividers && view.laid_out > 0 {
            seq![BodyItem::GutterDivider(Side::Left), BodyItem::GutterDivider(Side::Right)]
        } else {
            seq![]
        }
    }

    pub open spec fn row_outlines(&self, view: BodyView) -> Seq<BodyItem> {
        run(
            view.first as int,
            view.last as int,
            |row: int|
                if view.paints.row_outline {
                    row_outline(self.selected@, row)
                } else {
                    seq![]
                },
        )
    }

    pub open spec fn marked_cells(&self, view: BodyView) -> Seq<BodyItem> {
        run(
            view.first as int,
            view.last as int,
            |row: int|
                run(
                    view.start as int,
                    view.reach(),
                    |column: int| cell_marks(self.selected_cells@, view.paints, row, column),
                ),
        )
    }

    pub open spec fn contents(&self, view: BodyView) -> Seq<BodyItem> {
        run(
            view.first as int,
            view.last as int,
            |row: int|
                run(
                    view.start as int,
                    view.end as int,
                    |column: int|
                        seq![BodyItem::Contents { row: row as usize, column: column as usize }],
                ),
        )
    }

    /// Everything painted in one band of the body, in order.
    pub open spec fn body(&self, view: BodyView) -> Seq<BodyItem> {
        self.stripes(view) + self.column_bands(view) + self.cell_backgrounds(view) + self.hover(
            view,
        ) + self.selected_rows(view) + self.row_dividers(view) + self.column_dividers(view)
            + self.gutter_dividers(view) + self.row_outlines(view) + self.marked_cells(view)
            + self.contents(view)
    }

    fn add_stripes(&self, view: &BodyView, out: &mut Vec<BodyItem>)
        requires
            view.first <= view.last,
        ensures
            final(out)@ == old(out)@ + self.stripes(*view),
    {
        let ghost items = |row: int|
            one_if(
                view.paints.stripes && row % 2 == 1,
                BodyItem::Stripe(row as usize),
            );

        for row in view.first..view.last
            invariant
                view.first <= view.last,
                items == (|row: int|
                    one_if(
                        view.paints.stripes && row % 2 == 1,
                        BodyItem::Stripe(row as usize),
                    )),
                out@ == old(out)@ + run(view.first as int, row as int, items),
        {
            if view.paints.stripes && row % 2 == 1 {
                out.push(BodyItem::Stripe(row));
            }
            assert(out@ =~= old(out)@ + run(view.first as int, row + 1, items));
        }
    }

    fn add_column_bands(&self, view: &BodyView, out: &mut Vec<BodyItem>)
        requires
            view.first <= view.last,
        ensures
            final(out)@ == old(out)@ + self.column_bands(*view),
    {
        let ghost items = |column: int|
            one_if(
                view.paints.column_bands && self.selected_columns@.contains(column as usize),
                BodyItem::ColumnBand(column as usize),
            );

        for column in 0..view.laid_out
            invariant
                view.first <= view.last,
                items == (|column: int|
                    one_if(
                        view.paints.column_bands && self.selected_columns@.contains(column as usize),
                        BodyItem::ColumnBand(column as usize),
                    )),
                out@ == old(out)@ + run(0 as int, column as int, items),
        {
            if view.paints.column_bands && self.selected_columns.contains(&column) {
                out.push(BodyItem::ColumnBand(column));
            }
            assert(out@ =~= old(out)@ + run(0 as int, column + 1, items));
        }
    }

    fn add_selected_rows(&self, view: &BodyView, out: &mut Vec<BodyItem>)
        requires
            view.first <= view.last,
        ensures
            final(out)@ == old(out)@ + self.selected_rows(*view),
    {
        let ghost items = |row: int|
            one_if(
                view.paints.selected_rows && self.selected@.contains(row as usize),
                BodyItem::SelectedRow(row as usize),
            );

        for row in view.first..view.last
            invariant
                view.first <= view.last,
                items == (|row: int|
                    one_if(
                        view.paints.selected_rows && self.selected@.contains(row as usize),
                        BodyItem::SelectedRow(row as usize),
                    )),
                out@ == old(out)@ + run(view.first as int, row as int, items),
        {
            if view.paints.selected_rows && self.selected.contains(&row) {
                out.push(BodyItem::SelectedRow(row));
            }
            assert(out@ =~= old(out)@ + run(view.first as int, row + 1, items));
        }
    }

    fn add_row_dividers(&self, view: &BodyView, out: &mut Vec<BodyItem>)
        requires
            view.first <= view.last,
        ensures
            final(out)@ == old(out)@ + self.row_dividers(*view),
    {
        let ghost items = |row: int|
            one_if(
                view.paints.row_dividers && row > 0,
                BodyItem::RowDivider(row as usize),
            );

        for row in view.first..view.last
            invariant
                view.first <= view.last,
                items == (|row: int|
                    one_if(
                        view.paints.row_dividers && row > 0,
                        BodyItem::RowDivider(row as usize),
                    )),
                out@ == old(out)@ + run(view.first as int, row as int, items),
        {
            if view.paints.row_dividers && row > 0 {
                out.push(BodyItem::RowDivider(row));
            }
            assert(out@ =~= old(out)@ + run(view.first as int, row + 1, items));
        }
    }

    fn add_column_dividers(&self, view: &BodyView, out: &mut Vec<BodyItem>)
        requires
            view.first <= view.last,
        ensures
            final(out)@ == old(out)@ + self.column_dividers(*view),
    {
        let ghost items = |column: int|
            one_if(
                view.paints.column_dividers && column > 0,
                BodyItem::ColumnDivider(column as usize),
            );

        for column in 0..view.laid_out
            invariant
                view.first <= view.last,
                items == (|column: int|
                    one_if(
                        view.paints.column_dividers && column > 0,
                        BodyItem::ColumnDivider(column as usize),
                    )),
                out@ == old(out)@ + run(0 as int, column as int, items),
        {
            if view.paints.column_dividers && column > 0 {
                out.push(BodyItem::ColumnDivider(column));
            }
            assert(out@ =~= old(out)@ + run(0 as int, column + 1, items));
        }
    }

    fn add_row_outlines(&self, view: &BodyView, out: &mut Vec<BodyItem>)
        requires
            view.first <= view.last,
        ensures
            final(out)@ == old(out)@ + self.row_outlines(*view),
    {
        let ghost items = |row: int|
            if view.paints.row_outline {
                row_outline(self.selected@, row)
            } else {
                seq![]
            };

        for row in view.first..view.last
            invariant
                view.first <= view.last,
                items == (|row: int|
                    if view.paints.row_outline {
                        row_outline(self.selected@, row)
                    } else {
                        seq![]
                    }),
                out@ == old(out)@ + run(view.first as int, row as int, items),
        {
            let ghost before = out@;

            if view.paints.row_outline && self.selected.contains(&row) {
                if row == 0 || !self.selected.contains(&(row - 1)) {
                    out.push(BodyItem::RowOutline { row, side: Side::Top });
                }
                if !self.selected.contains(&(row + 1)) {
                    out.push(BodyItem::RowOutline { row, side: Side::Bottom });
                }
            }
            assert(out@ =~= before + items(row as int));
            assert(out@ =~= old(out)@ + run(view.first as int, row + 1, items));
        }
    }

    fn add_cell_backgrounds(&self, view: &BodyView, out: &mut Vec<BodyItem>)
        requires
            view.first <= view.last,
            view.start <= view.end <= self.columns@.len(),
            view.backgrounds@.len() == 0 || view.backgrounds@.len() == (view.last - view.first)
                * self.columns@.len(),
        ensures
            final(out)@ == old(out)@ + self.cell_backgrounds(*view),
    {
        let columns: usize = self.columns.len();
        let ghost items = |row: int|
            run(
                view.start as int,
                view.end as int,
                |column: int|
                    one_if(
                        view.colours(self.columns@.len() as int, row, column),
                        BodyItem::CellBackground { row: row as usize, column: column as usize },
                    ),
            );

        for row in view.first..view.last
            invariant
                view.first <= view.last,
                view.start <= view.end <= columns,
                columns == self.columns@.len(),
                view.backgrounds@.len() == 0 || view.backgrounds@.len() == (view.last
                    - view.first) * columns,
                items == (|row: int|
                    run(
                        view.start as int,
                        view.end as int,
                        |column: int|
                            one_if(
                                view.colours(self.columns@.len() as int, row, column),
                                BodyItem::CellBackground {
                                    row: row as usize,
                                    column: column as usize,
                                },
                            ),
                    )),
                out@ == old(out)@ + run(view.first as int, row as int, items),
        {
            let ghost before = out@;
            let ghost inner = |column: int|
                one_if(
                    view.colours(self.columns@.len() as int, row as int, column),
                    BodyItem::CellBackground { row: row as usize, column: column as usize },
                );

            for column in view.start..view.end
                invariant
                    view.first <= row < view.last,
                    view.start <= view.end <= columns,
                    columns == self.columns@.len(),
                    view.backgrounds@.len() == 0 || view.backgrounds@.len() == (view.last
                        - view.first) * columns,
                    inner == (|column: int|
                        one_if(
                            view.colours(self.columns@.len() as int, row as int, column),
                            BodyItem::CellBackground { row: row as usize, column: column as usize },
                        )),
                    out@ == before + run(view.start as int, column as int, inner),
            {
                proof {
                    let at = (row - view.first) * columns + column;

                    assert((row - view.first + 1) * columns <= (view.last - view.first) * columns)
                        by (nonlinear_arith)
                        requires
                            row + 1 <= view.last,
                            columns >= 0,
                    ;
                    assert((row - view.first + 1) * columns == (row - view.first) * columns
                        + columns) by (nonlinear_arith);
                    assert((row - view.first) * columns >= 0) by (nonlinear_arith)
                        requires
                            row >= view.first,
                            columns >= 0,
                    ;
                    assert(0 <= at < (view.last - view.first) * columns);
                }
                if view.backgrounds.len() > 0 {
                    let at: usize = (row - view.first) * columns + column;

                    if view.backgrounds[at] {
                        out.push(BodyItem::CellBackground { row, column });
                    }
                }
                assert(out@ =~= before + run(view.start as int, column + 1, inner));
            }
            assert(items(row as int) == run(view.start as int, view.end as int, inner));
            assert(out@ =~= old(out)@ + run(view.first as int, row + 1, items));
        }
    }

    fn add_hover(&self, view: &BodyView, out: &mut Vec<BodyItem>)
        ensures
            final(out)@ == old(out)@ + self.hover(*view),
    {
        if let Some(row) = view.hovered {
            if view.paints.hover && view.first <= row && row < view.last && !self.selected.contains(
                &row,
            ) {
                out.push(BodyItem::Hover(row));
            }
        }
        assert(out@ =~= old(out)@ + self.hover(*view));
    }

    fn add_gutter_dividers(&self, view: &BodyView, out: &mut Vec<BodyItem>)
        ensures
            final(out)@ == old(out)@ + self.gutter_dividers(*view),
    {
        if view.paints.gutter_dividers && view.laid_out > 0 {
            out.push(BodyItem::GutterDivider(Side::Left));
            out.push(BodyItem::GutterDivider(Side::Right));
        }
        assert(out@ =~= old(out)@ + self.gutter_dividers(*view));
    }

    fn add_cell_marks(&self, view: &BodyView, row: usize, column: usize, out: &mut Vec<BodyItem>)
        requires
            row < usize::MAX,
            column < usize::MAX,
        ensures
            final(out)@ == old(out)@ + cell_marks(
                self.selected_cells@,
                view.paints,
                row as int,
                column as int,
            ),
    {
        let cells = &self.selected_cells;

        if cells.contains(&(row, column)) {
            if view.paints.cell_fill {
                out.push(BodyItem::CellFill { row, column });
            }
            if view.paints.cell_outline {
                if !(row > 0 && cells.contains(&(row - 1, column))) {
                    out.push(BodyItem::CellEdge { row, column, side: Side::Top });
                }
                if !cells.contains(&(row + 1, column)) {
                    out.push(BodyItem::CellEdge { row, column, side: Side::Bottom });
                }
                if !(column > 0 && cells.contains(&(row, column - 1))) {
                    out.push(BodyItem::CellEdge { row, column, side: Side::Left });
                }
                if !cells.contains(&(row, column + 1)) {
                    out.push(BodyItem::CellEdge { row, column, side: Side::Right });
                }
            }
        }
        assert(out@ =~= old(out)@ + cell_marks(
            self.selected_cells@,
            view.paints,
            row as int,
            column as int,
        ));
    }

    fn add_marked_cells(&self, view: &BodyView, out: &mut Vec<BodyItem>)
        requires
            view.first <= view.last,
            view.start <= view.end,
        ensures
            final(out)@ == old(out)@ + self.marked_cells(*view),
    {
        let reach: usize = if view.end < view.laid_out {
            view.end
        } else {
            view.laid_out
        };
        let ghost items = |row: int|
            run(
                view.start as int,
                view.reach(),
                |column: int| cell_marks(self.selected_cells@, view.paints, row, column),
            );

        for row in view.first..view.last
            invariant
                view.first <= view.last,
                reach == view.reach(),
                items == (|row: int|
                    run(
                        view.start as int,
                        view.reach(),
                        |column: int| cell_marks(self.selected_cells@, view.paints, row, column),
                    )),
                out@ == old(out)@ + run(view.first as int, row as int, items),
        {
            let ghost before = out@;
            let ghost inner = |column: int|
                cell_marks(self.selected_cells@, view.paints, row as int, column);

            if view.start < reach {
                for column in view.start..reach
                    invariant
                        view.first <= row < view.last,
                        inner == (|column: int|
                            cell_marks(self.selected_cells@, view.paints, row as int, column)),
                        out@ == before + run(view.start as int, column as int, inner),
                {
                    self.add_cell_marks(view, row, column, out);
                    assert(out@ =~= before + run(view.start as int, column + 1, inner));
                }
            }
            assert(items(row as int) == run(view.start as int, view.reach(), inner));
            assert(out@ =~= old(out)@ + run(view.first as int, row + 1, items));
        }
    }

    fn add_contents(&self, view: &BodyView, out: &mut Vec<BodyItem>)
        requires
            view.first <= view.last,
            view.start <= view.end,
        ensures
            final(out)@ == old(out)@ + self.contents(*view),
    {
        let ghost items = |row: int|
            run(
                view.start as int,
                view.end as int,
                |column: int|
                    seq![BodyItem::Contents { row: row as usize, column: column as usize }],
            );

        for row in view.first..view.last
            invariant
                view.start <= view.end,
                items == (|row: int|
                    run(
                        view.start as int,
                        view.end as int,
                        |column: int|
                            seq![BodyItem::Contents { row: row as usize, column: column as usize }],
                    )),
                out@ == old(out)@ + run(view.first as int, row as int, items),
        {
            let ghost before = out@;
            let ghost inner = |column: int|
                seq![BodyItem::Contents { row: row as usize, column: column as usize }];

            for column in view.start..view.end
                invariant
                    inner == (|column: int|
                        seq![BodyItem::Contents { row: row as usize, column: column as usize }]),
                    out@ == before + run(view.start as int, column as int, inner),
            {
                out.push(BodyItem::Contents { row, column });
                assert(out@ =~= before + run(view.start as int, column + 1, inner));
            }
            assert(items(row as int) == run(view.start as int, view.end as int, inner));
            assert(out@ =~= old(out)@ + run(view.first as int, row + 1, items));
        }
    }

    /// Everything to paint in one band of the body, in order.
    pub fn body_plan(&self, view: &BodyView) -> (plan: Vec<BodyItem>)
        requires
            view.first <= view.last,
            view.start <= view.end <= self.columns@.len(),
            view.backgrounds@.len() == 0 || view.backgrounds@.len() == (view.last - view.first)
                * self.columns@.len(),
        ensures
            plan@ == self.body(*view),
    {
        let mut plan: Vec<BodyItem> = Vec::new();

        self.add_stripes(view, &mut plan);
        self.add_column_bands(view, &mut plan);
        self.add_cell_backgrounds(view, &mut plan);
        self.add_hover(view, &mut plan);
        self.add_selected_rows(view, &mut plan);
        self.add_row_dividers(view, &mut plan);
        self.add_column_dividers(view, &mut plan);
        self.add_gutter_dividers(view, &mut plan);
        self.add_row_outlines(view, &mut plan);
        self.add_marked_cells(view, &mut plan);
        self.add_contents(view, &mut plan);
        assert(plan@ =~= self.body(*view));
        plan
    }

    /// A body cell as a per-cell style sees it.
    pub open spec fn seen_cell(&self, row: usize, column: usize, hovered: Option<usize>) -> Cell {
        Cell {
            row,
            column,
            selected: self.selected@.contains(row),
            hovered: hovered == Some(row),
            column_selected: self.selected_columns@.contains(column),
        }
    }

    /// A body cell as a per-cell style sees it.
    pub fn styled_cell(&self, row: usize, column: usize, hovered: Option<usize>) -> (cell: Cell)
        ensures
            cell == self.seen_cell(row, column, hovered),
    {
        Cell {
            row,
            column,
            selected: self.selected.contains(&row),
            hovered: match hovered {
                Some(hovered) => hovered == row,
                None => false,
            },
            column_selected: self.selected_columns.contains(&column),
        }
    }
}

} // verus!
