//! What the layout passes decide.
//!
//! Column width is a property of the *column*, not of any single row: a cell
//! cannot know how wide it is until every other cell in its column has been
//! measured. So everything is measured first, and laid out afterwards.

use vstd::prelude::*;
use crate::header::{Align, HeaderCell};
use crate::px::{covers, equal, is_nan, larger, zero, Px};
use crate::sizing::SpanRequest;
use crate::table::{inside, DataTable};

verus! {

/// The widest of the first `count` labels that stand over one column alone.
pub open spec fn label_width(
    cells: Seq<HeaderCell>,
    widths: Seq<Px>,
    column: int,
    count: int,
) -> Px
    decreases count,
{
    if count <= 0 {
        zero()
    } else {
        let before = label_width(cells, widths, column, count - 1);

        if cells[count - 1].leaf && cells[count - 1].start == column {
            larger(before, widths[count - 1])
        } else {
            before
        }
    }
}

/// The widest of `count` measured cells of one column and of its label.
pub open spec fn column_width(
    label: Px,
    widths: Seq<Px>,
    columns: int,
    column: int,
    count: int,
) -> Px
    decreases count,
{
    if count <= 0 {
        label
    } else {
        larger(
            column_width(label, widths, columns, column, count - 1),
            widths[(count - 1) * columns + column],
        )
    }
}

/// What the labels over several columns ask of those columns.
pub open spec fn span_requests(cells: Seq<HeaderCell>, widths: Seq<Px>, count: int) -> Seq<
    SpanRequest,
>
    decreases count,
{
    if count <= 0 {
        seq![]
    } else {
        let before = span_requests(cells, widths, count - 1);
        let cell = cells[count - 1];

        if cell.leaf {
            before
        } else {
            before.push(
                SpanRequest { start: cell.start, end: cell.end, needed: widths[count - 1] },
            )
        }
    }
}

/// The largest of some measures, and of `least`.
pub open spec fn largest(measures: Seq<Px>, least: Px) -> Px
    decreases measures.len(),
{
    if measures.len() == 0 {
        least
    } else {
        larger(largest(measures.drop_last(), least), measures.last())
    }
}

/// The largest of some measures, and of `least`.
pub fn largest_of(measures: &[Px], least: Px) -> (result: Px)
    ensures
        result == largest(measures@, least),
{
    let mut result = least;

    for i in 0..measures.len()
        invariant
            result == largest(measures@.take(i as int), least),
    {
        assert(measures@.take(i + 1).drop_last() =~= measures@.take(i as int));
        result = result.max(measures[i]);
    }
    assert(measures@.take(measures@.len() as int) =~= measures@);
    result
}

/// Where contents sit along one axis.
#[derive(Debug, Clone, Copy, PartialEq, Eq, Structural)]
pub enum Place {
    Start,
    Center,
    End,
}

/// Where a column's contents sit across it.
pub open spec fn place_of(align: Align) -> Place {
    match align {
        Align::Left => Place::Start,
        Align::Center => Place::Center,
        Align::Right => Place::End,
    }
}

/// Where a column's contents sit across it.
pub fn place(align: Align) -> (place: Place)
    ensures
        place == place_of(align),
{
    match align {
        Align::Left => Place::Start,
        Align::Center => Place::Center,
        Align::Right => Place::End,
    }
}

impl<E> DataTable<E> {
    /// How wide the columns are by themselves. `labels` is what each header
    /// label measures, and `body` what the cells of the sampled rows measure,
    /// row by row.
    pub fn intrinsic(&self, labels: &[Px], body: &[Px], rows: usize) -> (widths: Vec<Px>)
        requires
            self.fits(),
            labels@.len() == self.header_cells@.len(),
            body@.len() == rows * self.columns@.len(),
        ensures
            widths@ == Seq::new(
                self.columns@.len(),
                |column: int|
                    column_width(
                        label_width(
                            self.header_cells@,
                            labels@,
                            column,
                            self.header_cells@.len() as int,
                        ),
                        body@,
                        self.columns@.len() as int,
                        column,
                        rows as int,
                    ),
            ),
    {
        let columns: usize = self.columns.len();
        let cells: usize = self.header_cells.len();
        let total: usize = body.len();
        let mut widths: Vec<Px> = Vec::new();

        for column in 0..columns
            invariant
                widths@ == Seq::new(column as nat, |c: int| zero()),
        {
            widths.push(Px::zero());
        }
        for k in 0..cells
            invariant
                self.fits(),
                columns == self.columns@.len(),
                cells == self.header_cells@.len(),
                labels@.len() == cells,
                widths@ =~= Seq::new(
                    columns as nat,
                    |c: int| label_width(self.header_cells@, labels@, c, k as int),
                ),
        {
            let cell = self.header_cells[k];

            assert(inside(cell, self.columns@.len(), self.header_rows));
            if cell.leaf {
                let width = widths[cell.start].max(labels[k]);

                widths.set(cell.start, width);
            }
        }
        for row in 0..rows
            invariant
                columns == self.columns@.len(),
                cells == self.header_cells@.len(),
                total == body@.len(),
                total == rows * columns,
                widths@ =~= Seq::new(
                    columns as nat,
                    |c: int|
                        column_width(
                            label_width(self.header_cells@, labels@, c, cells as int),
                            body@,
                            columns as int,
                            c,
                            row as int,
                        ),
                ),
        {
            let ghost before = widths@;

            proof {
                assert((row + 1) * columns <= rows * columns) by (nonlinear_arith)
                    requires
                        row + 1 <= rows,
                        columns >= 0,
                ;
                assert((row + 1) * columns == row * columns + columns) by (nonlinear_arith);
                assert(0 <= row * columns) by (nonlinear_arith)
                    requires
                        row >= 0,
                        columns >= 0,
                ;
            }
            for column in 0..columns
                invariant
                    widths@.len() == columns,
                    before.len() == columns,
                    total == body@.len(),
                    row * columns + columns <= total,
                    0 <= row * columns,
                    forall|c: int|
                        0 <= c < columns ==> #[trigger] widths@[c] == (if c < column {
                            larger(before[c], body@[row * columns + c])
                        } else {
                            before[c]
                        }),
            {
                let width = widths[column].max(body[row * columns + column]);

                widths.set(column, width);
            }
        }
        widths
    }

    /// What the group labels ask of the columns they span.
    pub fn spans(&self, labels: &[Px]) -> (spans: Vec<SpanRequest>)
        requires
            labels@.len() == self.header_cells@.len(),
        ensures
            spans@ == span_requests(self.header_cells@, labels@, labels@.len() as int),
    {
        let mut spans: Vec<SpanRequest> = Vec::new();

        for k in 0..self.header_cells.len()
            invariant
                labels@.len() == self.header_cells@.len(),
                spans@ == span_requests(self.header_cells@, labels@, k as int),
        {
            let cell = self.header_cells[k];

            if !cell.leaf {
                spans.push(SpanRequest { start: cell.start, end: cell.end, needed: labels[k] });
            }
        }
        spans
    }

    /// Where a header label sits in its cell, across and down.
    pub open spec fn label_place_of(&self, cell: HeaderCell) -> (Place, Place) {
        if cell.leaf {
            (place_of(self.columns@[cell.start as int].align), Place::End)
        } else {
            (Place::Center, Place::Center)
        }
    }

    /// Where a header label sits in its cell, across and down. A leaf's label
    /// sits over its column the way the data does, and drops to the bottom, next
    /// to the rows it describes. A group's belongs to its whole span.
    pub fn label_place(&self, cell: HeaderCell) -> (place: (Place, Place))
        requires
            cell.start < self.columns@.len(),
        ensures
            place == self.label_place_of(cell),
    {
        if cell.leaf {
            (place(self.columns[cell.start].align), Place::End)
        } else {
            (Place::Center, Place::Center)
        }
    }

    /// The last frozen column, if any is.
    pub open spec fn strip_end(&self) -> Option<usize> {
        if self.sticky_columns == 0 {
            None
        } else {
            Some((self.sticky_columns - 1) as usize)
        }
    }

    /// The last frozen column, if any is: the frozen strip ends where it does.
    pub fn last_frozen(&self) -> (column: Option<usize>)
        ensures
            column == self.strip_end(),
    {
        if self.sticky_columns == 0 {
            None
        } else {
            Some(self.sticky_columns - 1)
        }
    }
}

/// A column is at least as wide as its label and as each of its measured cells,
/// as far as those are numbers.
pub proof fn a_column_holds_what_was_measured(
    label: Px,
    widths: Seq<Px>,
    columns: int,
    column: int,
    count: int,
    row: int,
)
    requires
        0 <= row < count,
    ensures
        covers(column_width(label, widths, columns, column, count), label),
        covers(
            column_width(label, widths, columns, column, count),
            widths[row * columns + column],
        ),
    decreases count,
{
    if row < count - 1 {
        a_column_holds_what_was_measured(label, widths, columns, column, count - 1, row);
    } else {
        column_grows(label, widths, columns, column, count - 1);
    }
}

proof fn column_grows(label: Px, widths: Seq<Px>, columns: int, column: int, count: int)
    ensures
        covers(column_width(label, widths, columns, column, count), label),
    decreases count,
{
    if count > 0 {
        column_grows(label, widths, columns, column, count - 1);
    }
}

/// Is every value of the column in the first table also in the second?
pub open spec fn has_values_of(
    widths: Seq<Px>,
    others: Seq<Px>,
    columns: int,
    column: int,
    count: int,
) -> bool {
    forall|row: int|
        0 <= row < count ==> exists|other: int|
            0 <= other < count && #[trigger] others[other * columns + column] == #[trigger] widths[row
                * columns + column]
}

/// Where every row is measured, the widths do not depend on the order of the
/// rows: sorting them resizes no column. A width that is no number stays one.
pub proof fn widths_do_not_depend_on_the_order_of_rows(
    label: Px,
    widths: Seq<Px>,
    others: Seq<Px>,
    columns: int,
    column: int,
    count: int,
)
    requires
        has_values_of(widths, others, columns, column, count),
        has_values_of(others, widths, columns, column, count),
    ensures
        ({
            let width = column_width(label, widths, columns, column, count);
            let other = column_width(label, others, columns, column, count);

            equal(width, other) || (is_nan(width) && is_nan(other))
        }),
{
    no_wider(label, widths, others, columns, column, count, count);
    no_wider(label, others, widths, columns, column, count, count);
}

proof fn no_wider(
    label: Px,
    widths: Seq<Px>,
    others: Seq<Px>,
    columns: int,
    column: int,
    count: int,
    upto: int,
)
    requires
        has_values_of(widths, others, columns, column, count),
        upto <= count,
    ensures
        covers(
            column_width(label, others, columns, column, count),
            column_width(label, widths, columns, column, upto),
        ),
    decreases upto,
{
    if upto > 0 {
        no_wider(label, widths, others, columns, column, count, upto - 1);
        let other = choose|other: int|
            0 <= other < count && #[trigger] others[other * columns + column] == widths[(upto - 1)
                * columns + column];
        assert(widths[(upto - 1) * columns + column] == widths[(upto - 1) * columns + column]);
        a_column_holds_what_was_measured(label, others, columns, column, count, other);
    } else {
        column_grows(label, others, columns, column, count);
    }
}

} // verus!
