//! What the demonstration does with what it is told, and what its records are.

use vstd::prelude::*;
use crate::clipboard_laws::{numbers_can_be_listed, tells};
use crate::demo::{
    cells_status, click_status, field, is_shown, key_of, rows_status, sort_status, steps_to,
    tone_of, Message, Scene, Shown,
};
use crate::interaction::Click;
use crate::records::{
    arranged, goes_first, is_order, is_sorted, record_of, rows_of, sorting_keeps_every_record,
    Record, RowCount, SortKey,
};
use crate::selection::listing;
use crate::selection_laws::{a_move_keeps_the_rest_in_order, moved};
use crate::sort::{Direction, Sort};
use crate::style::Cell;
use crate::text::{before, digits};
use crate::text_laws::{a_number_reads_as_itself, writes};

verus! {

/// What each message does, and that it does nothing else: every field that a
/// message does not speak of is as it was.
pub proof fn a_message_changes_what_it_speaks_of(
    was: Scene,
    message: Message,
    now: Scene,
    copied: Option<Seq<char>>,
)
    requires
        steps_to(was, message, now, copied),
    ensures
        copied is Some ==> message is Copy,
        now.records != was.records ==> message is RowsChanged || message is SortChanged,
        now.rows == (match message {
            Message::RowsChanged(rows) => rows,
            _ => was.rows,
        }),
        now.overflow == (match message {
            Message::OverflowChanged(overflow) => overflow,
            _ => was.overflow,
        }),
        now.groups == (match message {
            Message::ToggleGroups(groups) => groups,
            _ => was.groups,
        }),
        now.stripes == (match message {
            Message::ToggleStripes(stripes) => stripes,
            _ => was.stripes,
        }),
        now.conditional == (match message {
            Message::ToggleConditional(conditional) => conditional,
            _ => was.conditional,
        }),
        now.cells == (match message {
            Message::ToggleCells(cells) => cells,
            _ => was.cells,
        }),
        now.sticky == (match message {
            Message::ToggleSticky(sticky) => sticky,
            _ => was.sticky,
        }),
        now.order != was.order ==> message is Reordered,
        now.sort != was.sort ==> message is SortChanged || message is Reordered,
        message matches Message::SortChanged(sort) ==> now.sort == sort,
        forall|row: usize| #[trigger]
            now.selected.contains(row) <==> match message {
                Message::SelectionChanged(rows) => rows@.contains(row),
                Message::RowsChanged(_) | Message::SortChanged(_) => false,
                _ => was.selected.contains(row),
            },
        forall|column: usize| #[trigger]
            now.selected_columns.contains(column) <==> match message {
                Message::ColumnsChanged(columns) => columns@.contains(column),
                Message::Reordered(_, _) => false,
                _ => was.selected_columns.contains(column),
            },
        forall|cell: (usize, usize)| #[trigger]
            now.selected_cells.contains(cell) <==> match message {
                Message::CellsChanged(cells) => cells@.contains(cell),
                Message::ToggleCells(_) | Message::Reordered(_, _) => false,
                _ => was.selected_cells.contains(cell),
            },
        now.status != was.status ==> !(message is RowsChanged || message is OverflowChanged
            || message is ToggleGroups || message is ToggleStripes || message is ToggleConditional
            || message is ToggleCells || message is ToggleSticky),
{
}

/// A column that is reported as moved stands where it was moved to, and the others
/// stand as they did, in the same order; the sort stays with its column.
pub proof fn a_moved_column_takes_its_sort_along(
    was: Scene,
    from: usize,
    to: usize,
    now: Scene,
    copied: Option<Seq<char>>,
)
    requires
        steps_to(was, Message::Reordered(from, to), now, copied),
        from < was.order.len(),
        to < was.order.len(),
        was.order.len() <= usize::MAX,
    ensures
        now.order.len() == was.order.len(),
        now.order[to as int] == was.order[from as int],
        now.order.remove(to as int) == was.order.remove(from as int),
        match was.sort {
            Some(sort) if sort.column < was.order.len() => {
                &&& now.sort is Some
                &&& now.sort->0.direction == sort.direction
                &&& now.sort->0.column < now.order.len()
                &&& now.order[now.sort->0.column as int] == was.order[sort.column as int]
                &&& sort.column == from ==> now.sort->0.column == to
            },
            _ => now.sort == was.sort,
        },
{
    a_move_keeps_the_rest_in_order(was.order, from as int, to as int);
    assert(now.order.remove(to as int) =~= was.order.remove(from as int));
    if let Some(sort) = was.sort {
        if sort.column < was.order.len() {
            assert(0 <= moved(from as int, to as int, sort.column as int) < was.order.len());
        }
    }
}

/// A move to or from beyond the last column moves nothing.
pub proof fn a_move_beyond_the_columns_moves_nothing(
    was: Scene,
    from: usize,
    to: usize,
    now: Scene,
    copied: Option<Seq<char>>,
)
    requires
        steps_to(was, Message::Reordered(from, to), now, copied),
        from >= was.order.len() || to >= was.order.len(),
    ensures
        now.order == was.order,
        now.sort == was.sort,
{
}

/// The status line says which record was opened, how many columns are selected, and
/// which column was moved where; of selected rows and cells, of sorts and of
/// right-clicks it says what they are, and of nothing else anything new.
pub proof fn the_status_says_what_happened(
    was: Scene,
    message: Message,
    now: Scene,
    copied: Option<Seq<char>>,
) -> (said: (Seq<char>, Seq<char>))
    requires
        steps_to(was, message, now, copied),
    ensures
        message matches Message::Open(id) ==> now.status == "clicked row id "@ + said.0 && writes(
            said.0,
            id as int,
        ),
        message matches Message::ColumnsChanged(columns) ==> now.status == said.0
            + " column(s) selected"@ && writes(said.0, columns@.len() as int),
        message matches Message::Reordered(from, to) ==> now.status == "moved column "@ + said.0
            + " to "@ + said.1 && writes(said.0, from as int) && writes(said.1, to as int),
        message matches Message::SelectionChanged(rows) ==> now.status == rows_status(rows@),
        message matches Message::CellsChanged(cells) ==> now.status == cells_status(cells@),
        message matches Message::SortChanged(sort) ==> now.status == sort_status(sort),
        message matches Message::RightClicked(click) ==> now.status == click_status(click),
{
    match message {
        Message::Open(id) => {
            a_number_reads_as_itself(id as nat);
            (digits(id as nat), Seq::empty())
        },
        Message::ColumnsChanged(columns) => {
            a_number_reads_as_itself(columns@.len());
            (digits(columns@.len()), Seq::empty())
        },
        Message::Reordered(from, to) => {
            a_number_reads_as_itself(from as nat);
            a_number_reads_as_itself(to as nat);
            (digits(from as nat), digits(to as nat))
        },
        _ => (Seq::empty(), Seq::empty()),
    }
}

/// The status line counts the selected rows: it says so if there are none, names
/// the only one, and of several says how many and the first and the last.
pub proof fn the_status_counts_rows(rows: Set<usize>) -> (said: (Seq<char>, Seq<char>, Seq<char>))
    ensures
        rows.is_empty() ==> rows_status(rows) == "nothing selected"@,
        forall|row: usize|
            rows.len() == 1 && #[trigger] rows.contains(row) ==> rows_status(rows)
                == "selected row "@ + said.1 && writes(said.1, row as int),
        rows.len() > 1 ==> {
            &&& rows_status(rows) == "selected "@ + said.0 + " rows ("@ + said.1 + "..="@ + said.2
                + ")"@
            &&& writes(said.0, rows.len() as int)
            &&& exists|first: usize| #[trigger]
                rows.contains(first) && writes(said.1, first as int) && forall|other: usize|
                    #[trigger] rows.contains(other) ==> first <= other
            &&& exists|last: usize| #[trigger]
                rows.contains(last) && writes(said.2, last as int) && forall|other: usize|
                    #[trigger] rows.contains(other) ==> other <= last
        },
{
    let all = listing(rows);

    numbers_can_be_listed(rows);
    if all.len() == 0 {
        assert(rows =~= Set::empty());
        (Seq::empty(), Seq::empty(), Seq::empty())
    } else {
        let first = all[0];
        let last = all.last();

        assert(all.to_set().contains(first));
        assert(last == all[all.len() - 1]);
        assert(all.to_set().contains(last));
        a_number_reads_as_itself(all.len());
        a_number_reads_as_itself(first as nat);
        a_number_reads_as_itself(last as nat);
        assert forall|other: usize| #[trigger] rows.contains(other) implies first <= other
            <= last by {
            assert(all.to_set().contains(other));
            let at = choose|at: int| 0 <= at < all.len() && all[at] == other;
            assert(all[0] <= all[at] && all[at] <= all[all.len() - 1]);
        }
        (digits(all.len()), digits(first as nat), digits(last as nat))
    }
}

/// The status line counts the selected cells: it says so if there are none, and
/// names the only one.
pub proof fn the_status_counts_cells(cells: Set<(usize, usize)>) -> (said: (Seq<char>, Seq<char>))
    requires
        cells.finite(),
    ensures
        cells.is_empty() ==> cells_status(cells) == "no cells selected"@,
        forall|cell: (usize, usize)|
            cells.len() == 1 && #[trigger] cells.contains(cell) ==> cells_status(cells)
                == "selected cell ("@ + said.0 + ", "@ + said.1 + ")"@ && writes(
                said.0,
                cell.0 as int,
            ) && writes(said.1, cell.1 as int),
        cells.len() > 1 ==> cells_status(cells) == "selected "@ + said.0 + " cells"@ && writes(
            said.0,
            cells.len() as int,
        ),
{
    if cells.len() == 1 {
        let only = cells.choose();

        a_number_reads_as_itself(only.0 as nat);
        a_number_reads_as_itself(only.1 as nat);
        assert forall|cell: (usize, usize)| #[trigger] cells.contains(cell) implies cell
            == only by {
            vstd::set::axiom_set_choose_len(cells);
            if cell != only {
                assert(cells.remove(only).contains(cell));
                assert(cells.remove(only).len() == 0);
            }
        }
        (digits(only.0 as nat), digits(only.1 as nat))
    } else {
        a_number_reads_as_itself(cells.len());
        (digits(cells.len()), Seq::empty())
    }
}

/// The status line names the column of a sort and its direction.
pub proof fn the_status_names_the_sort(sort: Option<Sort>) -> (said: Seq<char>)
    ensures
        sort is None ==> sort_status(sort) == "unsorted"@,
        sort matches Some(sorted) ==> writes(said, sorted.column as int) && sort_status(sort) == (
        "sorted by column "@ + said + (if sorted.direction == Direction::Ascending {
            " (Ascending)"@
        } else {
            " (Descending)"@
        })),
{
    if let Some(sorted) = sort {
        a_number_reads_as_itself(sorted.column as nat);
        digits(sorted.column as nat)
    } else {
        Seq::empty()
    }
}

/// The status line says what was right-clicked: the row and the column, as far as
/// there is one.
pub proof fn the_status_names_the_click(click: Click) -> (said: (Seq<char>, Seq<char>))
    ensures
        click.row matches Some(row) ==> writes(said.0, row as int),
        click.column matches Some(column) ==> writes(said.1, column as int),
        click.row is Some && click.column is Some ==> click_status(click)
            == "right-click on cell ("@ + said.0 + ", "@ + said.1 + ")"@,
        click.row is Some && click.column is None ==> click_status(click)
            == "right-click on row "@ + said.0 + "'s gutter"@,
        click.row is None && click.column is Some ==> click_status(click)
            == "right-click on column "@ + said.1 + "'s header"@,
        click.row is None && click.column is None ==> click_status(click)
            == "right-click outside every cell"@,
{
    let row = match click.row {
        Some(row) => row,
        None => 0,
    };
    let column = match click.column {
        Some(column) => column,
        None => 0,
    };

    a_number_reads_as_itself(row as nat);
    a_number_reads_as_itself(column as nat);
    (digits(row as nat), digits(column as nat))
}

/// The records are numbered from one up; names come round every eight; amounts run
/// on by a fixed step each, and come round inside their range.
pub proof fn records_run_on(i: int)
    requires
        0 <= i < 50_000,
    ensures
        record_of(i).id == i + 1,
        10_000 <= record_of(i).q3_revenue < 100_000,
        10_000 <= record_of(i).q4_revenue < 100_000,
        5_000 <= record_of(i).q3_cost < 45_000,
        5_000 <= record_of(i).q4_cost < 45_000,
        (record_of(i).q3_revenue - 10_000 - 7919 * i) % 90_000 == 0,
        (record_of(i).q4_revenue - 10_000 - 6673 * i) % 90_000 == 0,
        (record_of(i).q3_cost - 5_000 - 4241 * i) % 40_000 == 0,
        (record_of(i).q4_cost - 5_000 - 3499 * i) % 40_000 == 0,
        record_of(i + 8).first == record_of(i).first,
        record_of(i + 8).last == record_of(i).last,
        i == 0 ==> record_of(i).first == "Ada" && record_of(i).last == "Lovelace",
        i == 1 ==> record_of(i).first == "Grace" && record_of(i).last == "Hopper",
        i == 2 ==> record_of(i).first == "Alan" && record_of(i).last == "Turing",
        i == 3 ==> record_of(i).first == "Barbara" && record_of(i).last == "Liskov",
        i == 4 ==> record_of(i).first == "Edsger" && record_of(i).last
            == "Dijkstra-van-der-Meulen",
        i == 5 ==> record_of(i).first == "Margaret" && record_of(i).last == "Hamilton",
        i == 6 ==> record_of(i).first == "Ken" && record_of(i).last == "Thompson",
        i == 7 ==> record_of(i).first == "Radia" && record_of(i).last == "Perlman",
{
}

/// There are three rows, five hundred or fifty thousand.
pub proof fn there_are_this_many_rows(rows: RowCount)
    ensures
        rows is Few ==> rows_of(rows) == 3,
        rows is Many ==> rows_of(rows) == 500,
        rows is Huge ==> rows_of(rows) == 50_000,
{
}

/// Is the first record at most as great as the second in a column? In a column that
/// holds no data all are alike.
pub open spec fn no_greater(a: Record, b: Record, column: int) -> bool {
    &&& column == 0 ==> a.id <= b.id
    &&& column == 1 ==> a.first@ == b.first@ || before(a.first@, b.first@)
    &&& column == 2 ==> a.last@ == b.last@ || before(a.last@, b.last@)
    &&& column == 3 ==> a.q3_revenue <= b.q3_revenue
    &&& column == 4 ==> a.q3_cost <= b.q3_cost
    &&& column == 5 ==> a.q4_revenue <= b.q4_revenue
    &&& column == 6 ==> a.q4_cost <= b.q4_cost
}

/// Sorted records run up in the column they are sorted by, or down, and without a
/// sort by their ids. Each is one of the records there were, each of those is among
/// them, and two that are alike in the column stand as they stood.
pub proof fn sorted_records_run_up(
    sorted: Seq<Record>,
    records: Seq<Record>,
    key: Option<SortKey>,
) -> (order: Seq<usize>)
    requires
        is_sorted(sorted, records, key),
        records.len() <= usize::MAX,
    ensures
        sorted.len() == records.len(),
        order.len() == records.len(),
        forall|i: int|
            0 <= i < sorted.len() ==> #[trigger] order[i] < records.len() && sorted[i]
                == records[order[i] as int],
        forall|place: int|
            0 <= place < records.len() ==> #[trigger] order.contains(place as usize),
        forall|i: int, j: int|
            #![trigger sorted[i], sorted[j]]
            0 <= i < j < sorted.len() ==> match key {
                None => no_greater(sorted[i], sorted[j], 0),
                Some(key) => if key.direction == Direction::Ascending {
                    no_greater(sorted[i], sorted[j], key.column as int)
                } else {
                    no_greater(sorted[j], sorted[i], key.column as int)
                },
            },
        forall|i: int, j: int|
            #![trigger order[i], order[j]]
            0 <= i < j < sorted.len() && ({
                let column = match key {
                    None => 0,
                    Some(key) => key.column as int,
                };

                no_greater(sorted[i], sorted[j], column) && no_greater(sorted[j], sorted[i], column)
            }) ==> order[i] < order[j],
{
    let order = choose|order: Seq<usize>| #[trigger]
        is_order(order, records, key) && sorted == arranged(records, order);

    assert forall|place: int| 0 <= place < records.len() implies #[trigger] order.contains(
        place as usize,
    ) by {
        sorting_keeps_every_record(order, records, key, place);
    }
    assert forall|i: int, j: int|
        #![trigger sorted[i], sorted[j]]
        0 <= i < j < sorted.len() implies goes_first(records, key, order[i] as int, order[j] as int)
        by {
        let a = order[i];
        let b = order[j];
        assert(a < records.len() && b < records.len());
    }
    assert forall|i: int, j: int|
        #![trigger sorted[i], sorted[j]]
        0 <= i < j < sorted.len() implies match key {
        None => no_greater(sorted[i], sorted[j], 0),
        Some(key) => if key.direction == Direction::Ascending {
            no_greater(sorted[i], sorted[j], key.column as int)
        } else {
            no_greater(sorted[j], sorted[i], key.column as int)
        },
    } by {
        assert(goes_first(records, key, order[i] as int, order[j] as int));
        names_compare(sorted[i], sorted[j]);
    }
    assert forall|i: int, j: int|
        #![trigger order[i], order[j]]
        0 <= i < j < sorted.len() && ({
            let column = match key {
                None => 0,
                Some(key) => key.column as int,
            };

            no_greater(sorted[i], sorted[j], column) && no_greater(sorted[j], sorted[i], column)
        }) implies order[i] < order[j] by {
        let a = sorted[i];
        let b = sorted[j];
        assert(goes_first(records, key, order[i] as int, order[j] as int));
        names_compare(sorted[i], sorted[j]);
    }
    order
}

proof fn names_compare(a: Record, b: Record)
    ensures
        !before(a.first@, b.first@) && !before(b.first@, a.first@) ==> a.first@ == b.first@,
        !before(a.last@, b.last@) && !before(b.last@, a.last@) ==> a.last@ == b.last@,
        !(before(a.first@, b.first@) && before(b.first@, a.first@)),
        !(before(a.last@, b.last@) && before(b.last@, a.last@)),
        a.first@ == b.first@ ==> !before(a.first@, b.first@) && !before(b.first@, a.first@),
        a.last@ == b.last@ ==> !before(a.last@, b.last@) && !before(b.last@, a.last@),
{
    crate::text::one_text_comes_first(a.first@, b.first@);
    crate::text::one_text_comes_first(b.first@, a.first@);
    crate::text::one_text_comes_first(a.last@, b.last@);
    crate::text::one_text_comes_first(b.last@, a.last@);
}

/// The records are sorted by the column that is shown where the sort is, not by the
/// one that was there at first.
pub proof fn a_sort_is_by_what_is_shown(order: Seq<usize>, column: usize, direction: Direction)
    requires
        column < order.len(),
    ensures
        key_of(order, None) is None,
        key_of(order, Some(Sort { column, direction })) == Some(
            SortKey { column: order[column as int], direction },
        ),
{
}

/// A new sort leaves the same records in its order, and so does a new number of
/// rows, with the first records there are.
pub proof fn records_are_kept_sorted(
    was: Scene,
    message: Message,
    now: Scene,
    copied: Option<Seq<char>>,
)
    requires
        steps_to(was, message, now, copied),
    ensures
        message is SortChanged ==> is_sorted(now.records, was.records, key_of(now.order, now.sort)),
        message is RowsChanged ==> now.records.len() == rows_of(now.rows) && is_sorted(
            now.records,
            Seq::new(rows_of(now.rows), |i: int| record_of(i)),
            key_of(now.order, now.sort),
        ),
{
}

/// A cell shows what its record holds, with a dollar sign before amounts of money;
/// and behind the last column a button for the record.
pub proof fn a_cell_shows_its_record(shown: Shown, record: Record, column: usize)
    requires
        is_shown(shown, record, column),
    ensures
        column <= 2 ==> (shown matches Shown::Text(text) && tells(text@, record, column as int)),
        3 <= column <= 6 ==> (shown matches Shown::Text(text) && text@.len() > 0 && text@[0] == '$'
            && tells(text@.skip(1), record, column as int)),
        column > 6 ==> shown == Shown::Open(record.id),
{
    reveal_strlit("$");
    a_number_reads_as_itself(record.id as nat);
    a_number_reads_as_itself(record.q3_revenue as nat);
    a_number_reads_as_itself(record.q3_cost as nat);
    a_number_reads_as_itself(record.q4_revenue as nat);
    a_number_reads_as_itself(record.q4_cost as nat);
    if 3 <= column <= 6 {
        let text = shown->Text_0@;

        assert(text.skip(1) =~= field(record, column));
    }
}

/// Of each quarter one of its two cells stands out: the revenue if it is more than
/// twice the cost, and the cost if not. No other cell does.
pub proof fn one_cell_of_each_quarter_stands_out(record: Record, column: usize)
    ensures
        record.q3_revenue > 2 * record.q3_cost ==> tone_of(record, 3) is Good && tone_of(record, 4)
            is Plain,
        record.q3_revenue <= 2 * record.q3_cost ==> tone_of(record, 3) is Plain && tone_of(
            record,
            4,
        ) is Bad,
        record.q4_revenue > 2 * record.q4_cost ==> tone_of(record, 5) is Good && tone_of(record, 6)
            is Plain,
        record.q4_revenue <= 2 * record.q4_cost ==> tone_of(record, 5) is Plain && tone_of(
            record,
            6,
        ) is Bad,
        column < 3 || column > 6 ==> tone_of(record, column) is Plain,
{
}

/// A cell stands out only where cells are to stand out and it has a record, and then as
/// the column that is shown there does.
pub proof fn cells_stand_out_by_what_they_show(scene: Scene, cell: Cell)
    ensures
        !scene.conditional ==> scene.tone_at(cell) is Plain,
        cell.row >= scene.records.len() ==> scene.tone_at(cell) is Plain,
        scene.conditional && cell.row < scene.records.len() && cell.column < scene.order.len()
            ==> scene.tone_at(cell) == tone_of(
            scene.records[cell.row as int],
            scene.order[cell.column as int],
        ),
{
}

} // verus!
