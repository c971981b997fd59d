//! What is copied, line by line and value by value.

use vstd::prelude::*;
use crate::demo::{is_clipping, steps_to, Message, Scene};
use crate::records::Record;
use crate::selection::{encloses, increasing, listing, the_listing_is, Bounds};
use crate::text::{digits, joined, line_count};
use crate::text_laws::{
    a_number_reads_as_itself, in_one_line, joined_lines_are_counted, joined_pieces_stand_in_a_row,
    placed, writes,
};

verus! {

/// Is this what a record holds in a column? Of the columns that hold nothing, it is
/// nothing.
pub open spec fn tells(text: Seq<char>, record: Record, column: int) -> bool {
    &&& column == 0 ==> writes(text, record.id as int)
    &&& column == 1 ==> text == record.first@
    &&& column == 2 ==> text == record.last@
    &&& column == 3 ==> writes(text, record.q3_revenue as int)
    &&& column == 4 ==> writes(text, record.q3_cost as int)
    &&& column == 5 ==> writes(text, record.q4_revenue as int)
    &&& column == 6 ==> writes(text, record.q4_cost as int)
    &&& column > 6 ==> text.len() == 0
}

/// Is this what stands in a row at a position? That is what its record holds in the
/// column shown there, and nothing if there is no such row.
pub open spec fn tells_cell(text: Seq<char>, scene: Scene, row: int, position: int) -> bool {
    if row >= scene.records.len() {
        text.len() == 0
    } else if position < scene.order.len() {
        tells(text, scene.records[row], scene.order[position] as int)
    } else {
        tells(text, scene.records[row], position)
    }
}

/// Is the line the values at these positions of a row, with a tab between each two?
pub open spec fn tells_line(line: Seq<char>, scene: Scene, row: int, positions: Seq<usize>) -> bool {
    exists|values: Seq<Seq<char>>, tabs: Seq<int>|
        {
            &&& #[trigger] placed(line, values, tabs, '\t')
            &&& values.len() == positions.len()
            &&& forall|c: int|
                0 <= c < values.len() ==> tells_cell(
                    #[trigger] values[c],
                    scene,
                    row,
                    positions[c] as int,
                )
        }
}

/// What a cell is said to hold is what it holds.
pub proof fn a_value_tells_its_cell(scene: Scene, row: usize, column: usize)
    ensures
        tells_cell(scene.value(row, column), scene, row as int, column as int),
{
    if row < scene.records.len() {
        let record = scene.records[row as int];

        a_number_reads_as_itself(record.id as nat);
        a_number_reads_as_itself(record.q3_revenue as nat);
        a_number_reads_as_itself(record.q3_cost as nat);
        a_number_reads_as_itself(record.q4_revenue as nat);
        a_number_reads_as_itself(record.q4_cost as nat);
    }
}

/// The separators are the one character each.
proof fn separators()
    ensures
        "\t"@ == seq!['\t'],
        "\n"@ == seq!['\n'],
{
    reveal_strlit("\t");
    reveal_strlit("\n");
    assert("\t"@ =~= seq!['\t']);
    assert("\n"@ =~= seq!['\n']);
}

/// The members of a set below a bound, from the smallest up.
proof fn listed_below(set: Set<usize>, bound: int) -> (items: Seq<usize>)
    requires
        0 <= bound <= usize::MAX + 1,
    ensures
        increasing(items),
        forall|item: usize| #[trigger] items.contains(item) <==> set.contains(item) && item < bound,
    decreases bound,
{
    if bound == 0 {
        Seq::empty()
    } else {
        let below = listed_below(set, bound - 1);
        let next = (bound - 1) as usize;

        if set.contains(next) {
            let items = below.push(next);

            assert forall|i: int, j: int|
                #![trigger items[i], items[j]]
                0 <= i < j < items.len() implies items[i] < items[j] by {
                assert(below.contains(below[i]));
            }
            assert forall|item: usize| #[trigger] items.contains(item) <==> set.contains(item)
                && item < bound by {
                if items.contains(item) {
                    let at = choose|at: int| 0 <= at < items.len() && items[at] == item;
                    if at < below.len() {
                        assert(below.contains(below[at]));
                    }
                }
                if item == next {
                    assert(items[items.len() - 1] == item);
                } else if below.contains(item) {
                    let at = choose|at: int| 0 <= at < below.len() && below[at] == item;
                    assert(items[at] == item);
                }
            }
            items
        } else {
            below
        }
    }
}

/// Numbers can be listed from the smallest up.
pub proof fn numbers_can_be_listed(set: Set<usize>)
    ensures
        increasing(listing(set)),
        listing(set).to_set() == set,
        listing(set).len() == set.len(),
        set.finite(),
{
    let items = listed_below(set, usize::MAX + 1);

    assert(items.to_set() =~= set);
    the_listing_is(items, set);
}

/// The positions of the columns that hold data, from the left.
pub open spec fn data_positions() -> Seq<usize> {
    seq![0, 1, 2, 3, 4, 5, 6]
}

proof fn a_joined_line_tells_its_values(
    scene: Scene,
    row: int,
    positions: Seq<usize>,
    values: Seq<Seq<char>>,
)
    requires
        values.len() == positions.len(),
        forall|c: int|
            0 <= c < values.len() ==> tells_cell(
                #[trigger] values[c],
                scene,
                row,
                positions[c] as int,
            ),
    ensures
        tells_line(joined(values, "\t"@), scene, row, positions),
{
    separators();
    let tabs = joined_pieces_stand_in_a_row(values, '\t');

    assert(placed(joined(values, "\t"@), values, tabs, '\t'));
}

/// What is copied of selected rows has one line for each of them, from the first
/// down, and none besides: its seven values with tabs between them.
pub proof fn every_selected_row_is_copied(scene: Scene, text: Seq<char>) -> (copied: (
    Seq<usize>,
    Seq<Seq<char>>,
    Seq<int>,
))
    requires
        is_clipping(scene, text),
        scene.selected_cells.is_empty(),
        !scene.selected.is_empty(),
    ensures
        ({
            let (rows, lines, starts) = copied;

            &&& forall|row: usize| #[trigger] rows.contains(row) <==> scene.selected.contains(row)
            &&& rows.len() == scene.selected.len()
            &&& forall|i: int, j: int|
                #![trigger rows[i], rows[j]]
                0 <= i < j < rows.len() ==> rows[i] < rows[j]
            &&& lines.len() == rows.len()
            &&& placed(text, lines, starts, '\n')
            &&& forall|i: int|
                0 <= i < lines.len() ==> tells_line(
                    #[trigger] lines[i],
                    scene,
                    rows[i] as int,
                    data_positions(),
                )
        }),
{
    let rows = listing(scene.selected);
    let grid = rows.map_values(|row: usize| scene.row_line(row));
    let lines = grid.map_values(|line: Seq<Seq<char>>| joined(line, "\t"@));

    numbers_can_be_listed(scene.selected);
    separators();
    let starts = joined_pieces_stand_in_a_row(lines, '\n');

    assert(text == joined(lines, "\n"@));
    assert forall|row: usize| #[trigger] rows.contains(row) <==> scene.selected.contains(row) by {
        assert(rows.to_set().contains(row) == rows.contains(row));
    }
    assert forall|i: int| 0 <= i < lines.len() implies tells_line(
        #[trigger] lines[i],
        scene,
        rows[i] as int,
        data_positions(),
    ) by {
        let values = scene.row_line(rows[i]);

        assert forall|c: int| 0 <= c < values.len() implies tells_cell(
            #[trigger] values[c],
            scene,
            rows[i] as int,
            data_positions()[c] as int,
        ) by {
            a_value_tells_its_cell(scene, rows[i], c as usize);
        }
        a_joined_line_tells_its_values(scene, rows[i] as int, data_positions(), values);
    }
    (rows, lines, starts)
}

/// What is copied of selected columns has one line for each record, and in it the
/// values of the selected columns, from the left, with tabs between them.
pub proof fn every_selected_column_is_copied(scene: Scene, text: Seq<char>) -> (copied: (
    Seq<usize>,
    Seq<Seq<char>>,
    Seq<int>,
))
    requires
        is_clipping(scene, text),
        scene.selected_cells.is_empty(),
        scene.selected.is_empty(),
        !scene.selected_columns.is_empty(),
        scene.records.len() <= usize::MAX,
    ensures
        ({
            let (columns, lines, starts) = copied;

            &&& forall|column: usize| #[trigger]
                columns.contains(column) <==> scene.selected_columns.contains(column)
            &&& columns.len() == scene.selected_columns.len()
            &&& forall|i: int, j: int|
                #![trigger columns[i], columns[j]]
                0 <= i < j < columns.len() ==> columns[i] < columns[j]
            &&& lines.len() == scene.records.len()
            &&& placed(text, lines, starts, '\n')
            &&& forall|i: int|
                0 <= i < lines.len() ==> tells_line(#[trigger] lines[i], scene, i, columns)
        }),
{
    let columns = listing(scene.selected_columns);
    let grid = Seq::new(scene.records.len(), |row: int| scene.column_line(row as usize));
    let lines = grid.map_values(|line: Seq<Seq<char>>| joined(line, "\t"@));

    numbers_can_be_listed(scene.selected_columns);
    separators();
    let starts = joined_pieces_stand_in_a_row(lines, '\n');

    assert(text == joined(lines, "\n"@));
    assert forall|column: usize| #[trigger]
        columns.contains(column) <==> scene.selected_columns.contains(column) by {
        assert(columns.to_set().contains(column) == columns.contains(column));
    }
    assert forall|i: int| 0 <= i < lines.len() implies tells_line(
        #[trigger] lines[i],
        scene,
        i,
        columns,
    ) by {
        let values = scene.column_line(i as usize);

        assert forall|c: int| 0 <= c < values.len() implies tells_cell(
            #[trigger] values[c],
            scene,
            i,
            columns[c] as int,
        ) by {
            a_value_tells_its_cell(scene, i as usize, columns[c]);
        }
        a_joined_line_tells_its_values(scene, i, columns, values);
    }
    (columns, lines, starts)
}

/// Is the line the values of the selected cells of a row, from the left side of the
/// rectangle to the right, with a tab between each two and nothing where a cell is
/// not selected?
pub open spec fn tells_cells(line: Seq<char>, scene: Scene, row: int, bounds: Bounds) -> bool {
    exists|values: Seq<Seq<char>>, tabs: Seq<int>|
        {
            &&& #[trigger] placed(line, values, tabs, '\t')
            &&& values.len() == bounds.right - bounds.left + 1
            &&& forall|c: int|
                0 <= c < values.len() ==> if scene.selected_cells.contains(
                    (row as usize, (bounds.left + c) as usize),
                ) {
                    tells_cell(#[trigger] values[c], scene, row, bounds.left + c)
                } else {
                    values[c].len() == 0
                }
        }
}

/// What is copied of selected cells is the rectangle around them: one line for each
/// row of it, and in it one value for each column of it, left empty where the cell
/// is not selected. No smaller rectangle holds them all.
pub proof fn the_rectangle_around_selected_cells_is_copied(scene: Scene, text: Seq<char>) -> (
copied: (Bounds, Seq<Seq<char>>, Seq<int>))
    requires
        is_clipping(scene, text),
        !scene.selected_cells.is_empty(),
    ensures
        ({
            let (bounds, lines, starts) = copied;

            &&& forall|cell: (usize, usize)| #[trigger]
                scene.selected_cells.contains(cell) ==> {
                    &&& bounds.top <= cell.0 <= bounds.bottom
                    &&& bounds.left <= cell.1 <= bounds.right
                }
            &&& exists|cell: (usize, usize)| #[trigger]
                scene.selected_cells.contains(cell) && cell.0 == bounds.top
            &&& exists|cell: (usize, usize)| #[trigger]
                scene.selected_cells.contains(cell) && cell.0 == bounds.bottom
            &&& exists|cell: (usize, usize)| #[trigger]
                scene.selected_cells.contains(cell) && cell.1 == bounds.left
            &&& exists|cell: (usize, usize)| #[trigger]
                scene.selected_cells.contains(cell) && cell.1 == bounds.right
            &&& lines.len() == bounds.bottom - bounds.top + 1
            &&& placed(text, lines, starts, '\n')
            &&& forall|i: int|
                0 <= i < lines.len() ==> tells_cells(
                    #[trigger] lines[i],
                    scene,
                    bounds.top + i,
                    bounds,
                )
        }),
{
    let bounds = choose|bounds: Bounds| #[trigger]
        encloses(scene.selected_cells, bounds) && text == crate::demo::pasted(
            scene.cell_lines(bounds),
        );
    let grid = scene.cell_lines(bounds);
    let lines = grid.map_values(|line: Seq<Seq<char>>| joined(line, "\t"@));

    assert(encloses(scene.selected_cells, bounds));
    separators();
    let starts = joined_pieces_stand_in_a_row(lines, '\n');
    let some = choose|cell: (usize, usize)| #[trigger]
        scene.selected_cells.contains(cell) && cell.0 == bounds.top;

    assert(bounds.top <= bounds.bottom && bounds.left <= bounds.right);
    assert(text == joined(lines, "\n"@));
    assert forall|i: int| 0 <= i < lines.len() implies tells_cells(
        #[trigger] lines[i],
        scene,
        bounds.top + i,
        bounds,
    ) by {
        let row = (bounds.top + i) as usize;
        let values = scene.cell_line(row, bounds);
        let tabs = joined_pieces_stand_in_a_row(values, '\t');

        assert forall|c: int| 0 <= c < values.len() implies if scene.selected_cells.contains(
            (row, (bounds.left + c) as usize),
        ) {
            tells_cell(#[trigger] values[c], scene, row as int, bounds.left + c)
        } else {
            values[c].len() == 0
        } by {
            a_value_tells_its_cell(scene, row, (bounds.left + c) as usize);
        }
        assert(placed(lines[i], values, tabs, '\t'));
    }
    (bounds, lines, starts)
}

/// Where nothing is selected there is nothing to copy.
pub proof fn nothing_selected_copies_nothing(scene: Scene, text: Seq<char>)
    requires
        is_clipping(scene, text),
        scene.selected_cells.is_empty(),
        scene.selected.is_empty(),
        scene.selected_columns.is_empty(),
    ensures
        text.len() == 0,
{
}

/// A line of several values holds the tabs between them.
proof fn a_line_is_not_empty(line: Seq<char>, scene: Scene, row: int, positions: Seq<usize>)
    requires
        tells_line(line, scene, row, positions),
        positions.len() > 1,
    ensures
        line.len() > 0,
{
    let (values, tabs) = choose|values: Seq<Seq<char>>, tabs: Seq<int>|
        {
            &&& #[trigger] placed(line, values, tabs, '\t')
            &&& values.len() == positions.len()
            &&& forall|c: int|
                0 <= c < values.len() ==> tells_cell(
                    #[trigger] values[c],
                    scene,
                    row,
                    positions[c] as int,
                )
        };

    assert(tabs[1] == tabs[0] + values[0].len() + 1);
    assert(tabs[1] + values[1].len() <= line.len());
}

/// A copy hands over all that is selected or, where that is no text at all, nothing;
/// and changes at most the status line.
pub proof fn a_copy_changes_no_selection(before: Scene, after: Scene, copied: Option<Seq<char>>)
    requires
        steps_to(before, Message::Copy, after, copied),
    ensures
        after == (Scene { status: after.status, ..before }),
        copied matches Some(text) ==> is_clipping(before, text) && text.len() > 0,
        copied is None ==> after == before && is_clipping(before, Seq::<char>::empty()),
{
    let text = choose|text: Seq<char>| #[trigger]
        is_clipping(before, text) && (if text.len() == 0 {
            after == before && copied is None
        } else {
            &&& copied == Some(text)
            &&& after == Scene {
                status: "copied "@ + digits(line_count(text)) + " lines"@,
                ..before
            }
        });

    if text.len() == 0 {
        assert(text =~= Seq::<char>::empty());
    }
}

/// A copy of selected rows reaches the clipboard, and changes nothing but the
/// status line.
pub proof fn copying_rows_fills_the_clipboard(
    before: Scene,
    after: Scene,
    copied: Option<Seq<char>>,
)
    requires
        steps_to(before, Message::Copy, after, copied),
        before.selected_cells.is_empty(),
        !before.selected.is_empty(),
    ensures
        copied matches Some(text) && is_clipping(before, text),
        after == (Scene { status: after.status, ..before }),
{
    a_copy_changes_no_selection(before, after, copied);
    if copied is None {
        rows_are_not_nothing(before, Seq::empty());
    }
}

proof fn rows_are_not_nothing(scene: Scene, text: Seq<char>)
    requires
        is_clipping(scene, text),
        scene.selected_cells.is_empty(),
        !scene.selected.is_empty(),
    ensures
        text.len() > 0,
{
    let (rows, lines, starts) = every_selected_row_is_copied(scene, text);

    assert(rows.len() > 0) by {
        assert(rows.contains(scene.selected.choose()));
    }
    a_line_is_not_empty(lines[0], scene, rows[0] as int, data_positions());
    assert(starts[0] + lines[0].len() <= text.len());
}

/// The status line says how many lines were copied: of selected rows, as many as
/// there are, if no name runs over several lines.
pub proof fn copied_rows_are_counted(before: Scene, after: Scene, copied: Option<Seq<char>>) -> (
number: Seq<char>)
    requires
        steps_to(before, Message::Copy, after, copied),
        before.selected_cells.is_empty(),
        !before.selected.is_empty(),
        forall|row: usize, column: usize| in_one_line(#[trigger] before.value(row, column)),
    ensures
        after.status == "copied "@ + number + " lines"@,
        writes(number, before.selected.len() as int),
{
    copying_rows_fills_the_clipboard(before, after, copied);
    let text = copied->0;
    let rows = listing(before.selected);
    let grid = rows.map_values(|row: usize| before.row_line(row));
    let lines = grid.map_values(|line: Seq<Seq<char>>| joined(line, "\t"@));
    let number = digits(line_count(text));
    let last = lines.len() - 1;

    numbers_can_be_listed(before.selected);
    separators();
    crate::demo::one_text_is_copied(before, text, joined(lines, "\n"@));
    assert(rows.len() > 0) by {
        if rows.len() == 0 {
            assert(before.selected =~= Set::empty());
        }
    }
    assert forall|i: int| 0 <= i < lines.len() implies in_one_line(#[trigger] lines[i]) by {
        let values = before.row_line(rows[i]);
        assert forall|c: int| 0 <= c < values.len() implies in_one_line(#[trigger] values[c]) by {
            assert(values[c] == before.value(rows[i], c as usize));
        }
        a_joined_line_is_one_line(values);
    }
    assert(lines.last().len() > 0) by {
        let values = before.row_line(rows[last]);
        let tabs = joined_pieces_stand_in_a_row(values, '\t');

        assert(tabs[1] == tabs[0] + values[0].len() + 1);
        assert(tabs[1] + values[1].len() <= lines[last].len());
    }
    joined_lines_are_counted(lines);
    a_number_reads_as_itself(line_count(text));
    number
}

proof fn a_joined_line_is_one_line(values: Seq<Seq<char>>)
    requires
        forall|c: int| 0 <= c < values.len() ==> in_one_line(#[trigger] values[c]),
    ensures
        in_one_line(joined(values, "\t"@)),
    decreases values.len(),
{
    separators();
    if values.len() == 1 {
        assert(in_one_line(values[0]));
    } else if values.len() > 1 {
        let most = values.drop_last();
        let front = joined(most, "\t"@);
        let line = joined(values, "\t"@);
        let tail = values.last();

        assert forall|c: int| 0 <= c < most.len() implies in_one_line(#[trigger] most[c]) by {
            assert(most[c] == values[c]);
        }
        a_joined_line_is_one_line(most);
        assert(in_one_line(values[values.len() - 1]));
        assert forall|i: int| 0 <= i < line.len() implies #[trigger] line[i] != '\n' by {
            if i < front.len() {
                assert(line[i] == front[i]);
            } else if i > front.len() {
                assert(line[i] == tail[i - front.len() - 1]);
            }
        }
    }
}

} // verus!
