//! What the keyboard does, key by key.

use vstd::prelude::*;
use crate::gesture_laws::{in_box, on_line};
use crate::interaction::{say_if, Effect, Hits, Input, Model, Notice, Outcry, Reveal};
use crate::interaction_laws::{
    clearing_leaves_one, heeded, heeding_one_more, listens, marks_of,
};
use crate::keys::Key;
use crate::selecting::{greatest, is_greatest, is_last, last_cell, reads_before, Kind};
use crate::selection::{between, block, CellPosition, Mode};
use crate::table::DataTable;

verus! {

/// The place itself, or the end of the row of places that it lies beyond.
pub open spec fn held_in(at: int, count: int) -> int {
    if at < 0 {
        0
    } else if at < count {
        at
    } else {
        count - 1
    }
}

/// How far down a key steps.
pub open spec fn downward(key: Key) -> int {
    if key is Down {
        1
    } else if key is Up {
        -1
    } else {
        0
    }
}

/// How far to the right a key steps.
pub open spec fn rightward(key: Key) -> int {
    if key is Right {
        1
    } else if key is Left {
        -1
    } else {
        0
    }
}

/// Is the key one of the four arrows?
pub open spec fn is_arrow(key: Key) -> bool {
    key is Up || key is Down || key is Left || key is Right
}

/// Is this the cell that the arrows step from? The focus, else the anchor, else the
/// last selected cell in reading order, else the first cell.
pub open spec fn steps_from_cell<E>(table: DataTable<E>, state: Model, from: CellPosition) -> bool {
    ||| state.cell_focus == Some(from)
    ||| state.cell_focus is None && state.cell_anchor == Some(from)
    ||| {
        &&& state.cell_focus is None && state.cell_anchor is None
        &&& table.selected_cells@.contains((from.row, from.column))
        &&& forall|other: (usize, usize)| #[trigger]
            table.selected_cells@.contains(other) ==> other.0 < from.row || (other.0 == from.row
                && other.1 <= from.column)
    }
    ||| {
        &&& state.cell_focus is None && state.cell_anchor is None
        &&& table.selected_cells@.is_empty()
        &&& from.row == 0 && from.column == 0
    }
}

/// Is this the row that the arrows step from? The focus, else the anchor, else the
/// last selected row, else the first.
pub open spec fn steps_from_row<E>(table: DataTable<E>, state: Model, from: usize) -> bool {
    ||| state.row_focus == Some(from)
    ||| state.row_focus is None && state.anchor == Some(from)
    ||| {
        &&& state.row_focus is None && state.anchor is None
        &&& table.selected@.contains(from)
        &&& forall|other: usize| #[trigger] table.selected@.contains(other) ==> other <= from
    }
    ||| {
        &&& state.row_focus is None && state.anchor is None
        &&& table.selected@.is_empty()
        &&& from == 0
    }
}

proof fn the_cell_stepped_from<E>(table: DataTable<E>, state: Model, from: CellPosition)
    requires
        steps_from_cell(table, state, from),
    ensures
        table.cell_origin(state) == from,
{
    let cells = table.selected_cells@;
    let pair = (from.row, from.column);

    if state.cell_focus is None && state.cell_anchor is None {
        if cells.contains(pair) {
            assert(is_last(cells, pair));
            let found = last_cell(cells)->0;
            assert(is_last(cells, found));
            assert(reads_before(found, pair) && reads_before(pair, found));
            assert(found.0 == pair.0 && found.1 == pair.1);
        } else {
            assert(cells.is_empty());
            assert(forall|cell: (usize, usize)| !is_last(cells, cell));
        }
    }
}

proof fn the_row_stepped_from<E>(table: DataTable<E>, state: Model, from: usize)
    requires
        steps_from_row(table, state, from),
    ensures
        table.row_origin(state) == from,
{
    let rows = table.selected@;

    if state.row_focus is None && state.anchor is None {
        if rows.contains(from) {
            assert(is_greatest(rows, from));
            let found = greatest(rows)->0;
            assert(is_greatest(rows, found));
        } else {
            assert(forall|row: usize| !is_greatest(rows, row));
        }
    }
}

/// Where cells can be selected, an arrow moves the focus to the next cell its way
/// and stops at the edge of the table. The cell is selected alone; or, with Shift
/// and where many can be, everything from the anchor to it. Rows and columns are
/// cleared, and the cell is brought into view.
pub proof fn an_arrow_moves_the_cell_focus<E>(
    table: DataTable<E>,
    key: Key,
    modifiers: u32,
    hits: Hits,
    toggle: bool,
    extend: bool,
    key_toggle: bool,
    key_extend: bool,
    from: CellPosition,
    before: Effect,
)
    requires
        listens(table),
        is_arrow(key),
        before.state.focused,
        before.shell.said.len() == 0,
        !before.done,
        table.cell_mode != Mode::Off,
        table.row_count > 0,
        0 < table.columns@.len() <= usize::MAX,
        steps_from_cell(table, before.state, from),
    ensures
        ({
            let after = table.finished(
                Input::KeyPressed { key, modifiers },
                hits,
                toggle,
                extend,
                key_toggle,
                key_extend,
                before,
            );
            let now = heeded(marks_of(table), after.shell.said);
            let to = after.state.cell_focus->0;
            let ranged = key_extend && table.cell_mode == Mode::Multiple;
            let anchor = if !ranged {
                to
            } else if before.state.cell_anchor is Some {
                before.state.cell_anchor->0
            } else {
                from
            };

            &&& after.done && after.shell.captured && after.shell.redraw
            &&& to.row == held_in(from.row + downward(key), table.row_count as int)
            &&& to.column == held_in(from.column + rightward(key), table.columns@.len() as int)
            &&& after.shell.reveal == Some(Reveal::Cell(to))
            &&& after.state == (Model {
                cell_focus: Some(to),
                cell_anchor: Some(anchor),
                ..before.state
            })
            &&& now.rows.is_empty() && now.columns.is_empty()
            &&& forall|cell: (usize, usize)| #[trigger]
                now.cells.contains(cell) <==> in_box(anchor, to, cell)
        }),
{
    let input = Input::KeyPressed { key, modifiers };
    let after = table.finished(input, hits, toggle, extend, key_toggle, key_extend, before);
    let marks = marks_of(table);
    let to = after.state.cell_focus->0;
    let ranged = key_extend && table.cell_mode == Mode::Multiple;
    let anchor = after.state.cell_anchor->0;
    let cells = if ranged {
        block(anchor@, to@)
    } else {
        set![to@]
    };
    let said = Outcry { reveal: Some(Reveal::Cell(to)), ..before.shell };

    the_cell_stepped_from(table, before.state, from);
    assert(after == table.typed(input, key_toggle, key_extend, before));
    assert(heeded(marks, said.said) == marks);
    heeding_one_more(marks, said, Notice::Cells(cells), cells != table.selected_cells@);
    clearing_leaves_one(
        table,
        Kind::Cells,
        say_if(cells != table.selected_cells@, said, Notice::Cells(cells)),
    );
    assert forall|cell: (usize, usize)| #[trigger] cells.contains(cell) <==> in_box(
        anchor,
        to,
        cell,
    ) by {
        if !ranged && in_box(anchor, to, cell) {
            assert(cell == to@);
        }
    }
}

/// Where only rows can be selected, an arrow up or down moves the focus to the next
/// row and stops at the first and the last. The row is selected alone; or, with
/// Shift and where many can be, everything from the anchor to it. Columns and cells
/// are cleared, and the row is brought into view.
pub proof fn an_arrow_moves_the_row_focus<E>(
    table: DataTable<E>,
    key: Key,
    modifiers: u32,
    hits: Hits,
    toggle: bool,
    extend: bool,
    key_toggle: bool,
    key_extend: bool,
    from: usize,
    before: Effect,
)
    requires
        listens(table),
        key is Up || key is Down,
        before.state.focused,
        before.shell.said.len() == 0,
        !before.done,
        table.cell_mode == Mode::Off,
        table.mode != Mode::Off,
        table.row_count > 0,
        table.columns@.len() > 0,
        steps_from_row(table, before.state, from),
    ensures
        ({
            let after = table.finished(
                Input::KeyPressed { key, modifiers },
                hits,
                toggle,
                extend,
                key_toggle,
                key_extend,
                before,
            );
            let now = heeded(marks_of(table), after.shell.said);
            let to = after.state.row_focus->0;
            let ranged = key_extend && table.mode == Mode::Multiple;
            let anchor = if !ranged {
                to
            } else if before.state.anchor is Some {
                before.state.anchor->0
            } else {
                from
            };

            &&& after.done && after.shell.captured && after.shell.redraw
            &&& to == held_in(from + downward(key), table.row_count as int)
            &&& after.shell.reveal == Some(Reveal::Row(to))
            &&& after.state == (Model {
                row_focus: Some(to),
                anchor: Some(anchor),
                ..before.state
            })
            &&& now.columns.is_empty() && now.cells.is_empty()
            &&& forall|row: usize| #[trigger] now.rows.contains(row) <==> on_line(anchor, to, row)
        }),
{
    let input = Input::KeyPressed { key, modifiers };
    let after = table.finished(input, hits, toggle, extend, key_toggle, key_extend, before);
    let marks = marks_of(table);
    let to = after.state.row_focus->0;
    let ranged = key_extend && table.mode == Mode::Multiple;
    let anchor = after.state.anchor->0;
    let rows = if ranged {
        between(anchor, to)
    } else {
        set![to]
    };
    let said = Outcry { reveal: Some(Reveal::Row(to)), ..before.shell };

    the_row_stepped_from(table, before.state, from);
    assert(after == table.typed(input, key_toggle, key_extend, before));
    assert(heeded(marks, said.said) == marks);
    heeding_one_more(marks, said, Notice::Rows(rows), rows != table.selected@);
    clearing_leaves_one(
        table,
        Kind::Rows,
        say_if(rows != table.selected@, said, Notice::Rows(rows)),
    );
}

/// The command key and C report a copy and change nothing, wherever something is
/// selected and somebody listens.
pub proof fn a_copy_is_reported<E>(
    table: DataTable<E>,
    text: String,
    modifiers: u32,
    hits: Hits,
    toggle: bool,
    extend: bool,
    key_extend: bool,
    before: Effect,
)
    requires
        text@ == seq!['c'] || text@ == seq!['C'],
        before.state.focused,
        !before.done,
        table.hears_copy,
        !table.selected@.is_empty() || !table.selected_columns@.is_empty()
            || !table.selected_cells@.is_empty(),
    ensures
        ({
            let after = table.finished(
                Input::KeyPressed { key: Key::Character(text), modifiers },
                hits,
                toggle,
                extend,
                true,
                key_extend,
                before,
            );

            &&& after.done && after.shell.captured
            &&& after.shell.said == before.shell.said.push(Notice::Copy)
            &&& after.state == before.state
        }),
{
}

/// A key that is no arrow and no copy is not the table's, and neither is one
/// pressed while the focus is elsewhere, nor an arrow that has nowhere to go: in a
/// table without rows or columns, across the columns where only rows can be
/// selected, or where neither can.
pub proof fn other_keys_are_left_alone<E>(
    table: DataTable<E>,
    key: Key,
    modifiers: u32,
    hits: Hits,
    toggle: bool,
    extend: bool,
    key_toggle: bool,
    key_extend: bool,
    before: Effect,
)
    requires
        !before.done,
        ({
            ||| !before.state.focused
            ||| key is Other
            ||| key is Character && !key_toggle
            ||| key matches Key::Character(text) && text@.len() != 1
            ||| key matches Key::Character(text) && text@.len() == 1 && text@[0] != 'c'
                && text@[0] != 'C'
            ||| key is Character && !table.hears_copy
            ||| is_arrow(key) && (table.row_count == 0 || table.columns@.len() == 0)
            ||| is_arrow(key) && table.cell_mode == Mode::Off && table.mode == Mode::Off
            ||| (key is Left || key is Right) && table.cell_mode == Mode::Off
        }),
    ensures
        table.finished(
            Input::KeyPressed { key, modifiers },
            hits,
            toggle,
            extend,
            key_toggle,
            key_extend,
            before,
        ) == before,
{
    assert(seq!['c'].len() == 1 && seq!['c'][0] == 'c');
    assert(seq!['C'].len() == 1 && seq!['C'][0] == 'C');
}

} // verus!
