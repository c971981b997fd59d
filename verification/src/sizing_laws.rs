//! What the passes over the column widths do, column by column.

use vstd::prelude::*;
use crate::header::{Align, HeaderCell};
use crate::layout::{column_width, label_width, largest, place_of, span_requests};
use crate::px::{at_most, below, covers, is_nan, zero, Px};
use crate::sizing::{
    base_width, breadth, can_give, claim, claims, dragged, floor_of, giving, latched_with,
    narrowest_first, overridden, pinned, sample_size, sampled_row, settled, slotted, spread_of,
    Overflow, Sizing, SpanRequest, Widths,
};
use crate::table::DataTable;

verus! {

/// A fixed column has its width whatever it holds. One that fits its contents is as
/// wide as they are, between its two bounds. One that fills is as wide as they are,
/// and no narrower than its floor.
pub proof fn a_column_starts_at_its_contents(measured: Px, min: Px, max: Px, weight: u16)
    requires
        at_most(min, max),
        !is_nan(measured),
    ensures
        base_width(Sizing::Fixed(min), measured) == min,
        at_most(min, measured) && at_most(measured, max) ==> base_width(
            Sizing::Fit { min, max },
            measured,
        ) == measured,
        below(measured, min) ==> base_width(Sizing::Fit { min, max }, measured) == min,
        below(max, measured) ==> base_width(Sizing::Fit { min, max }, measured) == max,
        at_most(min, measured) ==> base_width(Sizing::Fill { weight, min }, measured) == measured,
        below(measured, min) ==> base_width(Sizing::Fill { weight, min }, measured) == min,
        floor_of(Sizing::Fixed(max)) == max,
        floor_of(Sizing::Fit { min, max }) == min,
        floor_of(Sizing::Fill { weight, min }) == min,
{
}

/// Only a column that fills has a share in leftover space: its weight, or one if it
/// has none.
pub proof fn only_filling_columns_have_a_share(sizing: Sizing, weight: u16, min: Px)
    ensures
        claim(Sizing::Fill { weight, min }) > 0,
        weight > 0 ==> claim(Sizing::Fill { weight, min }) == weight,
        weight == 0 ==> claim(Sizing::Fill { weight, min }) == 1,
        !(sizing is Fill) ==> claim(sizing) == 0,
{
}

/// The shares of all columns are those of the first ones and of the rest.
pub proof fn shares_add_up(first: Seq<Sizing>, rest: Seq<Sizing>)
    ensures
        claims(first + rest) == claims(first) + claims(rest),
        forall|sizing: Sizing| #[trigger] claims(seq![sizing]) == claim(sizing),
    decreases rest.len(),
{
    assert forall|sizing: Sizing| #[trigger] claims(seq![sizing]) == claim(sizing) by {
        assert(seq![sizing].drop_last() =~= Seq::<Sizing>::empty());
        assert(claims(seq![sizing].drop_last()) == 0);
        assert(seq![sizing].last() == sizing);
    }
    if rest.len() == 0 {
        assert(first + rest =~= first);
    } else {
        shares_add_up(first, rest.drop_last());
        assert((first + rest).drop_last() =~= first + rest.drop_last());
        assert((first + rest).last() == rest.last());
    }
}

/// A fixed column gives nothing back; any other gives what it has above its floor.
pub proof fn a_column_gives_what_it_has_above_its_floor(sizing: Sizing, above: Px)
    ensures
        sizing is Fixed ==> can_give(sizing, above) == zero(),
        !(sizing is Fixed) && below(zero(), above) ==> can_give(sizing, above) == above,
        !(sizing is Fixed) && below(above, zero()) ==> can_give(sizing, above) == zero(),
{
}

/// A width that the user dragged to takes the place of the column's policy; any
/// other column keeps its own.
pub proof fn only_dragged_columns_are_overridden(
    sizing: Seq<Sizing>,
    overrides: Seq<Option<Px>>,
    column: int,
    width: Px,
)
    requires
        0 <= column < sizing.len(),
    ensures
        column < overrides.len() && overrides[column] == Some(width) ==> overridden(
            sizing,
            overrides,
            column,
        ) == Sizing::Fixed(width),
        column < overrides.len() && overrides[column] is None ==> overridden(
            sizing,
            overrides,
            column,
        ) == sizing[column],
        column >= overrides.len() ==> overridden(sizing, overrides, column) == sizing[column],
{
}

/// Pinning gives a column the width it has, unless the user has dragged it to one.
pub proof fn pinning_keeps_what_was_dragged(
    overrides: Seq<Option<Px>>,
    widths: Seq<Px>,
    column: int,
    width: Px,
)
    requires
        0 <= column < overrides.len(),
    ensures
        overrides[column] == Some(width) ==> pinned(overrides, widths, column) == Some(width),
        overrides[column] is None && column < widths.len() ==> pinned(overrides, widths, column)
            == Some(widths[column]),
{
}

/// As many rows are measured as are asked for, or all of them if there are no more.
pub proof fn no_more_rows_are_measured_than_asked_for(row_count: int, limit: usize)
    requires
        0 <= row_count,
    ensures
        sample_size(row_count, None) == row_count,
        limit <= row_count ==> sample_size(row_count, Some(limit)) == limit,
        limit >= row_count ==> sample_size(row_count, Some(limit)) == row_count,
{
}

/// The sample is even: the row measured at each step is as far through the table as
/// the step is through the sample, rounded down to a row.
pub proof fn the_sample_is_even(row_count: int, sample: int, step: int)
    requires
        0 <= step < sample <= row_count,
    ensures
        sampled_row(row_count, sample, step) * sample <= step * row_count,
        step * row_count < (sampled_row(row_count, sample, step) + 1) * sample,
{
    let row = sampled_row(row_count, sample, step);
    let far = step * row_count;

    assert(row == far / sample);
    assert(row * sample <= far < (row + 1) * sample) by (nonlinear_arith)
        requires
            row == far / sample,
            sample > 0,
    ;
}

proof fn one_span_slots_in(ordered: Seq<SpanRequest>, span: SpanRequest, width: int)
    ensures
        slotted(ordered, span).filter(|s: SpanRequest| breadth(s) == width) == (if breadth(span)
            == width {
            ordered.filter(|s: SpanRequest| breadth(s) == width).push(span)
        } else {
            ordered.filter(|s: SpanRequest| breadth(s) == width)
        }),
    decreases ordered.len(),
{
    reveal(Seq::filter);
    let all = slotted(ordered, span);
    let of_width = |s: SpanRequest| breadth(s) == width;

    if ordered.len() == 0 || breadth(ordered.last()) <= breadth(span) {
        assert(all.drop_last() =~= ordered);
        assert(all.last() == span);
    } else {
        one_span_slots_in(ordered.drop_last(), span, width);
        assert(all.drop_last() =~= slotted(ordered.drop_last(), span));
        assert(all.last() == ordered.last());
    }
}

/// Of the spans over several columns each is worked off as often as it was asked
/// for, and those that are equally broad in the order they were asked for. None is
/// lost and none made up.
pub proof fn equal_spans_keep_their_order(spans: Seq<SpanRequest>, width: int)
    requires
        width > 0,
    ensures
        narrowest_first(spans).filter(|s: SpanRequest| breadth(s) == width) == spans.filter(
            |s: SpanRequest| breadth(s) == width,
        ),
    decreases spans.len(),
{
    reveal(Seq::filter);
    let of_width = |s: SpanRequest| breadth(s) == width;

    if spans.len() > 0 {
        equal_spans_keep_their_order(spans.drop_last(), width);
        one_span_slots_in(narrowest_first(spans.drop_last()), spans.last(), width);
    }
}

/// The columns that a group pushes wider run from left to right.
pub proof fn pushed_columns_run_from_left_to_right(sizing: Seq<Sizing>, start: int, past: int)
    requires
        0 <= start,
        past <= usize::MAX,
    ensures
        forall|i: int, j: int|
            #![trigger giving(sizing, start, past)[i], giving(sizing, start, past)[j]]
            0 <= i < j < giving(sizing, start, past).len() ==> giving(sizing, start, past)[i]
                < giving(sizing, start, past)[j],
        forall|i: int|
            0 <= i < giving(sizing, start, past).len() ==> start <= #[trigger] giving(
                sizing,
                start,
                past,
            )[i] < past && !(sizing[giving(sizing, start, past)[i] as int] is Fixed),
    decreases past - start,
{
    if past > start {
        pushed_columns_run_from_left_to_right(sizing, start, past - 1);
    }
}

/// A column is no wider than something in it: it is as wide as its label, or as one
/// of its cells.
pub proof fn a_column_is_as_wide_as_something_in_it(
    label: Px,
    widths: Seq<Px>,
    columns: int,
    column: int,
    count: int,
)
    ensures
        column_width(label, widths, columns, column, count) == label || exists|row: int|
            0 <= row < count && column_width(label, widths, columns, column, count)
                == #[trigger] widths[row * columns + column],
    decreases count,
{
    if count > 0 {
        a_column_is_as_wide_as_something_in_it(label, widths, columns, column, count - 1);
        let before = column_width(label, widths, columns, column, count - 1);
        let all = column_width(label, widths, columns, column, count);

        if all != before {
            assert(all == widths[(count - 1) * columns + column]);
        } else if before != label {
            let row = choose|row: int|
                0 <= row < count - 1 && before == #[trigger] widths[row * columns + column];
            assert(all == widths[row * columns + column]);
        }
    }
}

/// The label of a column is measured by the leaf cells over it and by no other: its
/// width covers each of theirs, and is one of theirs or nothing.
pub proof fn a_label_is_measured_by_its_own_cells(
    cells: Seq<HeaderCell>,
    widths: Seq<Px>,
    column: int,
    count: int,
)
    requires
        count <= cells.len(),
        cells.len() == widths.len(),
    ensures
        forall|k: int|
            0 <= k < count && (#[trigger] cells[k]).leaf && cells[k].start == column ==> covers(
                label_width(cells, widths, column, count),
                widths[k],
            ),
        label_width(cells, widths, column, count) == zero() || exists|k: int|
            0 <= k < count && (#[trigger] cells[k]).leaf && cells[k].start == column && label_width(
                cells,
                widths,
                column,
                count,
            ) == widths[k],
        !is_nan(label_width(cells, widths, column, count)),
        covers(label_width(cells, widths, column, count), zero()),
    decreases count,
{
    if count > 0 {
        a_label_is_measured_by_its_own_cells(cells, widths, column, count - 1);
        let before = label_width(cells, widths, column, count - 1);
        let all = label_width(cells, widths, column, count);

        assert forall|k: int|
            0 <= k < count && (#[trigger] cells[k]).leaf && cells[k].start == column implies covers(
            all,
            widths[k],
        ) by {
            if k < count - 1 {
                assert(covers(before, widths[k]));
            }
        }
        if all != before {
            assert(cells[count - 1].leaf && all == widths[count - 1]);
        } else if before != zero() {
            let k = choose|k: int|
                0 <= k < count - 1 && (#[trigger] cells[k]).leaf && cells[k].start == column
                    && before == widths[k];
            assert(cells[k].leaf && all == widths[k]);
        }
    }
}

/// Each group asks for the width of its label over the columns it spans, in the
/// order of the cells; a leaf asks for nothing.
pub proof fn each_group_asks_for_its_label(
    cells: Seq<HeaderCell>,
    widths: Seq<Px>,
    count: int,
) -> (from: Seq<int>)
    requires
        0 <= count <= cells.len(),
        cells.len() == widths.len(),
    ensures
        from.len() == span_requests(cells, widths, count).len(),
        forall|i: int, j: int|
            #![trigger from[i], from[j]]
            0 <= i < j < from.len() ==> from[i] < from[j],
        forall|i: int|
            0 <= i < from.len() ==> {
                &&& 0 <= #[trigger] from[i] < count
                &&& !cells[from[i]].leaf
                &&& span_requests(cells, widths, count)[i].start == cells[from[i]].start
                &&& span_requests(cells, widths, count)[i].end == cells[from[i]].end
                &&& span_requests(cells, widths, count)[i].needed == widths[from[i]]
            },
        forall|k: int| 0 <= k < count && !(#[trigger] cells[k]).leaf ==> from.contains(k),
    decreases count,
{
    if count <= 0 {
        Seq::empty()
    } else {
        let before = each_group_asks_for_its_label(cells, widths, count - 1);

        if cells[count - 1].leaf {
            before
        } else {
            let from = before.push(count - 1);

            assert forall|k: int| 0 <= k < count && !(#[trigger] cells[k]).leaf implies from.contains(
                k,
            ) by {
                if k < count - 1 {
                    assert(before.contains(k));
                    let at = choose|at: int| 0 <= at < before.len() && before[at] == k;
                    assert(from[at] == k);
                } else {
                    assert(from[from.len() - 1] == k);
                }
            }
            from
        }
    }
}

/// The largest of some measures covers them all, and is one of them or the least
/// there is to be.
pub proof fn the_largest_covers_them_all(measures: Seq<Px>, least: Px)
    requires
        !is_nan(least),
    ensures
        covers(largest(measures, least), least),
        forall|i: int|
            0 <= i < measures.len() ==> covers(largest(measures, least), #[trigger] measures[i]),
        largest(measures, least) == least || measures.contains(largest(measures, least)),
        !is_nan(largest(measures, least)),
    decreases measures.len(),
{
    if measures.len() > 0 {
        let rest = measures.drop_last();
        let all = largest(measures, least);

        the_largest_covers_them_all(rest, least);
        assert forall|i: int| 0 <= i < measures.len() implies covers(all, #[trigger] measures[i]) by {
            if i < rest.len() {
                assert(covers(largest(rest, least), rest[i]));
            }
        }
        if all == measures.last() {
            assert(measures[measures.len() - 1] == all);
        } else if rest.contains(all) {
            let at = choose|at: int| 0 <= at < rest.len() && rest[at] == all;
            assert(measures[at] == all);
        }
    }
}

/// Contents at the left begin where their cell does, those at the right end there.
pub proof fn contents_sit_where_they_are_aligned(align: Align)
    ensures
        align is Left ==> place_of(align) is Start,
        align is Center ==> place_of(align) is Center,
        align is Right ==> place_of(align) is End,
{
}

/// Space that is left over is handed out if some column fills; space that is missing
/// is clawed back if columns are to shrink. Otherwise the widths stand.
pub proof fn leftover_space_is_handed_out_or_clawed_back(
    slack: Px,
    fill_weight: u32,
    overflow: Overflow,
)
    ensures
        ({
            let spread = spread_of(slack, fill_weight, overflow);

            &&& spread is Grow <==> below(zero(), slack) && fill_weight > 0
            &&& spread is Shrink <==> below(slack, zero()) && overflow is Shrink
            &&& spread is Keep <==> !(below(zero(), slack) && fill_weight > 0) && !(below(
                slack,
                zero(),
            ) && overflow is Shrink)
        }),
{
}

/// The widths that the user dragged to outlast a layout while the columns are as many,
/// and are forgotten when they are not.
pub proof fn overrides_last_as_long_as_the_columns(overrides: Seq<Option<Px>>, columns: nat)
    ensures
        settled(overrides, columns).len() == columns,
        overrides.len() == columns ==> settled(overrides, columns) == overrides,
        overrides.len() != columns ==> forall|i: int|
            0 <= i < columns ==> (#[trigger] settled(overrides, columns)[i]) is None,
{
}

/// While a table has the same columns and rows no column measures less than it did,
/// nor less than it does now, nor more than both; with others it is measured from
/// scratch.
pub proof fn a_measure_never_shrinks_under_the_same_rows(
    widths: Widths,
    intrinsic: Seq<Px>,
    row_count: usize,
    i: int,
)
    requires
        0 <= i < intrinsic.len(),
    ensures
        ({
            let now = latched_with(widths, intrinsic, row_count);
            let same = widths.measured@.len() == intrinsic.len() && widths.measured_rows
                == row_count;

            &&& now.len() == intrinsic.len()
            &&& same ==> covers(now[i], widths.measured@[i]) && covers(now[i], intrinsic[i])
            &&& same ==> now[i] == widths.measured@[i] || now[i] == intrinsic[i]
            &&& !same ==> now == intrinsic
        }),
{
}

/// A drag gives one column the width it was dragged to, or the floor if that is wider,
/// and leaves all others as they are.
pub proof fn a_drag_sets_one_width(
    overrides: Seq<Option<Px>>,
    column: usize,
    width: Px,
    min: Px,
    other: int,
)
    requires
        0 <= other < overrides.len(),
    ensures
        ({
            let now = dragged(overrides, column, width, min);

            &&& now.len() == overrides.len()
            &&& other != column ==> now[other] == overrides[other]
            &&& other == column && below(min, width) ==> now[other] == Some(width)
            &&& other == column && below(width, min) ==> now[other] == Some(min)
        }),
{
}

/// The label of a leaf stands at the bottom, and across as its column is aligned; that
/// of a group in the middle of its span.
pub proof fn a_leaf_label_stands_over_its_column<E>(table: DataTable<E>, cell: HeaderCell)
    requires
        cell.start < table.columns@.len(),
    ensures
        ({
            let (across, down) = table.label_place_of(cell);
            let align = table.columns@[cell.start as int].align;

            &&& cell.leaf ==> down is End
            &&& cell.leaf && align is Left ==> across is Start
            &&& cell.leaf && align is Center ==> across is Center
            &&& cell.leaf && align is Right ==> across is End
            &&& !cell.leaf ==> across is Center && down is Center
        }),
{
}

/// The frozen strip ends with the last frozen column, if there is one.
pub proof fn the_strip_ends_with_its_last_column<E>(table: DataTable<E>, column: usize)
    ensures
        table.strip_end() == Some(column) <==> column + 1 == table.sticky_columns,
        table.strip_end() is None <==> table.sticky_columns == 0,
{
}

} // verus!
