//! What a click means that is neither a plain press on an item nor a drag, and what
//! the pointer does on its way.

use vstd::prelude::*;
use crate::interaction::{say_if, Button, Click, Effect, Hits, Input, Model, Notice};
use crate::interaction_laws::{
    clearing_leaves_one, heeded, heeding_one_more, listens, marks_of,
};
use crate::selecting::{kind_of, Target};
use crate::selection::Mode;
use crate::sort::{Direction, Sort};
use crate::table::DataTable;

verus! {

/// A right-click is reported last, with the row and the column it hit and where on
/// screen; it is claimed, and moves neither anchor nor focus.
pub proof fn a_right_click_is_reported<E>(
    table: DataTable<E>,
    hits: Hits,
    toggle: bool,
    extend: bool,
    key_toggle: bool,
    key_extend: bool,
    before: Effect,
)
    requires
        table.hears_right_click,
        !before.done,
        hits.over_table,
        hits.pointer is Some,
    ensures
        ({
            let after = table.finished(
                Input::Pressed(Button::Right),
                hits,
                toggle,
                extend,
                key_toggle,
                key_extend,
                before,
            );

            &&& after.done && after.shell.captured
            &&& after.state == before.state
            &&& after.shell.said.len() > 0
            &&& after.shell.said.last() == Notice::RightClick(
                Click { row: hits.row, column: hits.column, position: hits.pointer->0 },
            )
        }),
{
}

proof fn a_right_click_retargets<E>(
    table: DataTable<E>,
    hits: Hits,
    toggle: bool,
    extend: bool,
    key_toggle: bool,
    key_extend: bool,
    target: Target,
    before: Effect,
)
    requires
        listens(table),
        table.hears_right_click,
        before.shell.said.len() == 0,
        !before.done,
        hits.over_table,
        hits.pointer is Some,
        table.pointed_at(hits.row, hits.column) == Some(target),
    ensures
        ({
            let after = table.finished(
                Input::Pressed(Button::Right),
                hits,
                toggle,
                extend,
                key_toggle,
                key_extend,
                before,
            );
            let now = heeded(marks_of(table), after.shell.said);
            let left = heeded(marks_of(table), table.repointed(target, before.shell).said);

            &&& now == left
            &&& match target {
                Target::Cell(position) => now.rows.is_empty() && now.columns.is_empty()
                    && now.cells == (if table.selected_cells@.contains(position@) {
                    table.selected_cells@
                } else {
                    set![position@]
                }),
                Target::Row(row) => now.columns.is_empty() && now.cells.is_empty() && now.rows == (
                if table.selected@.contains(row) {
                    table.selected@
                } else {
                    set![row]
                }),
                Target::Column(column) => now.rows.is_empty() && now.cells.is_empty()
                    && now.columns == (if table.selected_columns@.contains(column) {
                    table.selected_columns@
                } else {
                    set![column]
                }),
            }
        }),
{
    let marks = marks_of(table);
    let said = before.shell;
    let click = Click { row: hits.row, column: hits.column, position: hits.pointer->0 };
    let notice = match target {
        Target::Cell(position) => Notice::Cells(set![position@]),
        Target::Row(row) => Notice::Rows(set![row]),
        Target::Column(column) => Notice::Columns(set![column]),
    };
    let moved = !table.has_selected(target);

    assert(heeded(marks, said.said) == marks);
    heeding_one_more(marks, said, notice, moved);
    clearing_leaves_one(table, kind_of(target), say_if(moved, said, notice));
    heeding_one_more(marks, table.repointed(target, said), Notice::RightClick(click), true);
}

/// A right-click selects the cell under the pointer, where cells can be selected;
/// else its row; and on the header its column. If that is selected already then the
/// whole selection is kept, else it becomes that alone; and the other two readings
/// of the grid are cleared either way. Where none of these can be selected nothing
/// changes.
pub proof fn a_right_click_selects_what_it_hit<E>(
    table: DataTable<E>,
    hits: Hits,
    toggle: bool,
    extend: bool,
    key_toggle: bool,
    key_extend: bool,
    before: Effect,
)
    requires
        listens(table),
        table.hears_right_click,
        before.shell.said.len() == 0,
        !before.done,
        hits.over_table,
        hits.pointer is Some,
    ensures
        ({
            let after = table.finished(
                Input::Pressed(Button::Right),
                hits,
                toggle,
                extend,
                key_toggle,
                key_extend,
                before,
            );
            let was = marks_of(table);
            let now = heeded(was, after.shell.said);
            let cell = (hits.row->0, hits.column->0);

            if hits.row is Some && hits.column is Some && table.cell_mode != Mode::Off {
                &&& now.rows.is_empty() && now.columns.is_empty()
                &&& now.cells.contains(cell)
                &&& was.cells.contains(cell) ==> now.cells == was.cells
                &&& !was.cells.contains(cell) ==> now.cells.len() == 1
            } else if hits.row is Some && table.mode != Mode::Off {
                &&& now.columns.is_empty() && now.cells.is_empty()
                &&& now.rows.contains(hits.row->0)
                &&& was.rows.contains(hits.row->0) ==> now.rows == was.rows
                &&& !was.rows.contains(hits.row->0) ==> now.rows.len() == 1
            } else if hits.row is None && hits.column is Some && table.column_mode != Mode::Off {
                &&& now.rows.is_empty() && now.cells.is_empty()
                &&& now.columns.contains(hits.column->0)
                &&& was.columns.contains(hits.column->0) ==> now.columns == was.columns
                &&& !was.columns.contains(hits.column->0) ==> now.columns.len() == 1
            } else {
                now == was
            }
        }),
{
    let was = marks_of(table);

    if let Some(target) = table.pointed_at(hits.row, hits.column) {
        a_right_click_retargets(
            table,
            hits,
            toggle,
            extend,
            key_toggle,
            key_extend,
            target,
            before,
        );
    } else {
        let click = Click { row: hits.row, column: hits.column, position: hits.pointer->0 };

        assert(heeded(was, before.shell.said) == was);
        heeding_one_more(was, before.shell, Notice::RightClick(click), true);
    }
}

/// A press on a sort control asks for one thing: its column ascending, descending
/// if that is what it was, and unsorted if it was descending. No selection changes.
pub proof fn a_press_on_a_control_steps_the_sort<E>(
    table: DataTable<E>,
    hits: Hits,
    toggle: bool,
    extend: bool,
    key_toggle: bool,
    key_extend: bool,
    before: Effect,
)
    requires
        table.hears_sort,
        !before.done,
        hits.pointer is Some,
        hits.control is Some,
        hits.row is None,
    ensures
        ({
            let after = table.finished(
                Input::Pressed(Button::Left),
                hits,
                toggle,
                extend,
                key_toggle,
                key_extend,
                before,
            );
            let column = hits.control->0;

            &&& after.done && after.shell.captured && after.shell.redraw
            &&& after.state == before.state
            &&& after.shell.said.len() == before.shell.said.len() + 1
            &&& after.shell.said.drop_last() == before.shell.said
            &&& after.shell.said.last() matches Notice::Sort(asked) && match table.sort {
                Some(sort) if sort.column == column => match sort.direction {
                    Direction::Ascending => asked == Some(
                        Sort { column, direction: Direction::Descending },
                    ),
                    Direction::Descending => asked is None,
                },
                _ => asked == Some(Sort { column, direction: Direction::Ascending }),
            }
        }),
{
    let after = table.finished(
        Input::Pressed(Button::Left),
        hits,
        toggle,
        extend,
        key_toggle,
        key_extend,
        before,
    );

    assert(after == table.sort_pressed(Input::Pressed(Button::Left), hits, before));
    assert(after.shell.said.drop_last() =~= before.shell.said);
}

/// A motion that drags nothing lights up the row and the sort control under the
/// pointer, draws anew only where that is another one, and changes nothing else.
pub proof fn a_motion_lights_up_what_it_passes<E>(
    table: DataTable<E>,
    hits: Hits,
    toggle: bool,
    extend: bool,
    key_toggle: bool,
    key_extend: bool,
    before: Effect,
)
    requires
        !before.done,
        before.state.drag is None,
        hits.pointer is Some,
    ensures
        ({
            let after = table.finished(
                Input::Moved,
                hits,
                toggle,
                extend,
                key_toggle,
                key_extend,
                before,
            );
            let row = if table.mode == Mode::Off {
                before.state.hovered
            } else {
                hits.row
            };
            let control = if table.hears_sort {
                hits.control
            } else {
                before.state.hovered_sort
            };

            &&& after.state == (Model { hovered: row, hovered_sort: control, ..before.state })
            &&& after.shell.said == before.shell.said
            &&& after.shell.captured == before.shell.captured
            &&& after.shell.redraw == (before.shell.redraw || row != before.state.hovered
                || control != before.state.hovered_sort)
            &&& !after.done
        }),
{
}

/// Letting go ends a sweep, reports nothing and is left to everybody else.
pub proof fn letting_go_ends_a_sweep<E>(
    table: DataTable<E>,
    input: Input,
    hits: Hits,
    toggle: bool,
    extend: bool,
    key_toggle: bool,
    key_extend: bool,
    before: Effect,
)
    requires
        input == Input::Released(Button::Left) || input is FingerLifted || input is FingerLost,
        !before.done,
    ensures
        table.finished(input, hits, toggle, extend, key_toggle, key_extend, before) == (Effect {
            state: Model { drag: None, ..before.state },
            ..before
        }),
{
}

/// A press anywhere but on the table takes the focus away, one on it gives it; the
/// modifiers are those last heard of. Nothing else changes either of the two.
pub proof fn the_focus_follows_the_press<E>(
    table: DataTable<E>,
    input: Input,
    hits: Hits,
    drags: crate::update::Drags,
    before: Effect,
)
    ensures
        ({
            let after = table.begun(input, hits, drags, before);

            &&& after.state.focused == (if input is Pressed {
                hits.over_table
            } else {
                before.state.focused
            })
            &&& after.state.modifiers == (match input {
                Input::ModifiersChanged(modifiers) => modifiers,
                _ => before.state.modifiers,
            })
        }),
{
}

/// A press that hits nothing which could be selected or sorted changes nothing: beside
/// rows, header and controls, on what is switched off, or of a right button that
/// nobody listens for.
pub proof fn a_press_on_nothing_changes_nothing<E>(
    table: DataTable<E>,
    input: Input,
    hits: Hits,
    toggle: bool,
    extend: bool,
    key_toggle: bool,
    key_extend: bool,
    before: Effect,
)
    requires
        !before.done,
        ({
            let no_cell = table.cell_mode == Mode::Off || hits.row is None || hits.column is None
                || !hits.over_body;
            let no_row = table.mode == Mode::Off || hits.row is None;
            let no_control = !table.hears_sort || hits.control is None || hits.pointer is None;
            let no_header = table.column_mode == Mode::Off || hits.header_cell is None;
            let no_menu = !table.hears_right_click || !hits.over_table || hits.pointer is None;

            ||| input == Input::Pressed(Button::Left) && no_cell && no_row && no_control
                && no_header
            ||| input == Input::Pressed(Button::Right) && no_menu
            ||| input == Input::Pressed(Button::Other)
        }),
    ensures
        table.finished(input, hits, toggle, extend, key_toggle, key_extend, before) == before,
{
}

/// An event that is no press, no motion, no key and no release of the left button or
/// a finger selects nothing and changes nothing.
pub proof fn other_events_are_left_alone<E>(
    table: DataTable<E>,
    input: Input,
    hits: Hits,
    toggle: bool,
    extend: bool,
    key_toggle: bool,
    key_extend: bool,
    before: Effect,
)
    requires
        !before.done,
        input is Wheel || input is Mouse || input is Other || input is ModifiersChanged || input
            is FingerPressed || input == Input::Released(Button::Right) || input == Input::Released(
            Button::Other,
        ),
    ensures
        table.finished(input, hits, toggle, extend, key_toggle, key_extend, before) == before,
{
}

/// Does the application listen for this?
pub open spec fn is_listened_for<E>(table: DataTable<E>, notice: Notice) -> bool {
    match notice {
        Notice::Rows(_) => table.hears_rows,
        Notice::Columns(_) => table.hears_columns,
        Notice::Cells(_) => table.hears_cells,
        Notice::Sort(_) => table.hears_sort,
        Notice::Reorder { .. } => table.hears_reorder,
        Notice::RightClick(_) => table.hears_right_click,
        Notice::Copy => table.hears_copy,
    }
}

/// Everything said so far is listened for.
pub open spec fn all_listened_for<E>(table: DataTable<E>, said: Seq<Notice>) -> bool {
    forall|i: int| 0 <= i < said.len() ==> is_listened_for(table, #[trigger] said[i])
}

proof fn presses_are_listened_for<E>(
    table: DataTable<E>,
    input: Input,
    hits: Hits,
    toggle: bool,
    extend: bool,
    before: Effect,
)
    requires
        all_listened_for(table, before.shell.said),
    ensures
        all_listened_for(table, table.right_clicked(input, hits, before).shell.said),
        all_listened_for(table, table.cell_pressed(input, hits, toggle, extend, before).shell.said),
        all_listened_for(table, table.row_pressed(input, hits, toggle, extend, before).shell.said),
        all_listened_for(table, table.sort_pressed(input, hits, before).shell.said),
        all_listened_for(
            table,
            table.header_pressed(input, hits, toggle, extend, before).shell.said,
        ),
{
}

proof fn sweeps_and_keys_are_listened_for<E>(
    table: DataTable<E>,
    input: Input,
    hits: Hits,
    toggle: bool,
    extend: bool,
    before: Effect,
)
    requires
        all_listened_for(table, before.shell.said),
    ensures
        all_listened_for(table, table.swept(input, hits, before).shell.said),
        all_listened_for(table, table.typed(input, toggle, extend, before).shell.said),
{
}

/// Nothing is reported that nobody listens for.
pub proof fn nobody_is_told_what_they_do_not_listen_for<E>(
    table: DataTable<E>,
    input: Input,
    hits: Hits,
    toggle: bool,
    extend: bool,
    key_toggle: bool,
    key_extend: bool,
    before: Effect,
)
    requires
        before.shell.said.len() == 0,
    ensures
        all_listened_for(
            table,
            table.finished(
                input,
                hits,
                toggle,
                extend,
                key_toggle,
                key_extend,
                before,
            ).shell.said,
        ),
{
    let menu = table.right_clicked(input, hits, before);
    let cell = table.cell_pressed(input, hits, toggle, extend, menu);
    let sweep = table.swept(input, hits, cell);
    let key = table.typed(input, key_toggle, key_extend, sweep);
    let row = table.row_pressed(input, hits, toggle, extend, key);
    let sort = table.sort_pressed(input, hits, row);

    presses_are_listened_for(table, input, hits, toggle, extend, before);
    presses_are_listened_for(table, input, hits, toggle, extend, menu);
    sweeps_and_keys_are_listened_for(table, input, hits, key_toggle, key_extend, cell);
    sweeps_and_keys_are_listened_for(table, input, hits, key_toggle, key_extend, sweep);
    presses_are_listened_for(table, input, hits, toggle, extend, key);
    presses_are_listened_for(table, input, hits, toggle, extend, row);
    presses_are_listened_for(table, input, hits, toggle, extend, sort);
}

} // verus!
