//! What a gesture selects, item by item.
//!
//! The statements are about whole events, and about what the application's
//! selections hold once it has acted on what was reported.

use vstd::prelude::*;
use crate::interaction::{say, say_if, Button, Effect, Hits, Input, Model, Notice, Sweep};
use crate::interaction_laws::{clearing_leaves_one, heeded, heeding_one_more, listens, marks_of};
use crate::selecting::Kind;
use crate::selection::{between, block, clicked, origin, pair_of, CellPosition, Mode};
use crate::table::DataTable;

verus! {

/// Is the item from one end to the other, both included?
pub open spec fn on_line(a: usize, b: usize, i: usize) -> bool {
    (a <= i && i <= b) || (b <= i && i <= a)
}

/// Is the cell in the rectangle between two corners, both included?
pub open spec fn in_box(a: CellPosition, b: CellPosition, cell: (usize, usize)) -> bool {
    on_line(a.row, b.row, cell.0) && on_line(a.column, b.column, cell.1)
}

/// Is an item selected after a click, where many can be selected or at most one?
/// `target` says whether it is the one clicked, `near` whether it is between the
/// anchor and that one, `was` whether it was selected before.
pub open spec fn picks(
    many: bool,
    target: bool,
    near: bool,
    was: bool,
    toggle: bool,
    extend: bool,
) -> bool {
    if !many {
        target
    } else if extend {
        near || (toggle && was)
    } else if toggle {
        was != target
    } else {
        target
    }
}

/// A press on a cell selects it, adds or takes it away with the command key, or
/// spans from the anchor with Shift; and clears rows and columns. It starts a sweep
/// from what it selected with the command key, and from nothing without.
pub proof fn a_press_on_a_cell_selects<E>(
    table: DataTable<E>,
    hits: Hits,
    toggle: bool,
    extend: bool,
    key_toggle: bool,
    key_extend: bool,
    before: Effect,
)
    requires
        listens(table),
        before.shell.said.len() == 0,
        !before.done,
        table.cell_mode != Mode::Off,
        hits.over_body,
        hits.row is Some && hits.column is Some,
    ensures
        ({
            let after = table.finished(
                Input::Pressed(Button::Left),
                hits,
                toggle,
                extend,
                key_toggle,
                key_extend,
                before,
            );
            let now = heeded(marks_of(table), after.shell.said);
            let target = CellPosition { row: hits.row->0, column: hits.column->0 };
            let from = match before.state.cell_anchor {
                Some(anchor) => anchor,
                None => target,
            };

            &&& after.done && after.shell.captured && after.shell.redraw
            &&& now.rows.is_empty() && now.columns.is_empty()
            &&& forall|cell: (usize, usize)| #[trigger]
                now.cells.contains(cell) <==> picks(
                    table.cell_mode == Mode::Multiple,
                    cell == (target.row, target.column),
                    in_box(from, target, cell),
                    table.selected_cells@.contains(cell),
                    toggle,
                    extend,
                )
            &&& after.state.cell_focus == Some(target)
            &&& !extend || table.cell_mode == Mode::Single ==> after.state.cell_anchor == Some(
                target,
            )
            &&& extend && table.cell_mode == Mode::Multiple && now.cells != table.selected_cells@ ==> after.state.cell_anchor == Some(
                from,
            )
            &&& extend && now.cells == table.selected_cells@ ==> after.state.cell_anchor == Some(
                target,
            )
            &&& after.state.drag matches Some(Sweep::Cells(base)) && base == (if toggle {
                now.cells
            } else {
                Set::empty()
            })
        }),
{
    let marks = marks_of(table);
    let said = before.shell;
    let target = CellPosition { row: hits.row->0, column: hits.column->0 };
    let anchor = pair_of(before.state.cell_anchor);
    let asked = clicked(
        table.cell_mode,
        table.selected_cells@,
        anchor,
        target@,
        toggle,
        extend,
        block(origin(anchor, target@), target@),
    );
    let changed = asked != (table.selected_cells@, anchor);

    assert(heeded(marks, said.said) == marks);
    heeding_one_more(marks, said, Notice::Cells(asked.0), changed);
    clearing_leaves_one(table, Kind::Cells, say_if(changed, said, Notice::Cells(asked.0)));
}

/// A press on a row selects it, adds or takes it away with the command key, or
/// spans from the anchor with Shift; and clears columns and cells. It starts a
/// sweep from what it selected with the command key, and from nothing without. A
/// press that would change neither the selection nor the anchor is nobody's.
pub proof fn a_press_on_a_row_selects<E>(
    table: DataTable<E>,
    hits: Hits,
    toggle: bool,
    extend: bool,
    key_toggle: bool,
    key_extend: bool,
    before: Effect,
)
    requires
        listens(table),
        before.shell.said.len() == 0,
        !before.done,
        table.mode != Mode::Off,
        table.cell_mode == Mode::Off || hits.column is None || !hits.over_body,
        hits.row is Some,
        hits.control is None && hits.header_cell is None,
    ensures
        ({
            let after = table.finished(
                Input::Pressed(Button::Left),
                hits,
                toggle,
                extend,
                key_toggle,
                key_extend,
                before,
            );
            let now = heeded(marks_of(table), after.shell.said);
            let target = hits.row->0;
            let from = match before.state.anchor {
                Some(anchor) => anchor,
                None => target,
            };
            let ranged = extend && table.mode == Mode::Multiple;

            &&& forall|row: usize| #[trigger]
                now.rows.contains(row) <==> picks(
                    table.mode == Mode::Multiple,
                    row == target,
                    on_line(from, target, row),
                    table.selected@.contains(row),
                    toggle,
                    extend,
                )
            &&& now.rows == table.selected@ && (ranged || before.state.anchor == Some(target))
                ==> after == before
            &&& now.rows != table.selected@ || (!ranged && before.state.anchor != Some(target))
                ==> {
                &&& after.done && after.shell.captured && after.shell.redraw
                &&& now.columns.is_empty() && now.cells.is_empty()
                &&& after.state.row_focus == Some(target)
                &&& after.state.anchor == Some(
                    if ranged {
                        from
                    } else {
                        target
                    },
                )
                &&& after.state.drag matches Some(Sweep::Rows(base)) && base == (if toggle {
                    now.rows
                } else {
                    Set::empty()
                })
            }
        }),
{
    let marks = marks_of(table);
    let said = before.shell;
    let target = hits.row->0;
    let anchor = before.state.anchor;
    let asked = clicked(
        table.mode,
        table.selected@,
        anchor,
        target,
        toggle,
        extend,
        between(origin(anchor, target), target),
    );
    let after = table.finished(
        Input::Pressed(Button::Left),
        hits,
        toggle,
        extend,
        key_toggle,
        key_extend,
        before,
    );

    assert(heeded(marks, said.said) == marks);
    assert(after == table.row_pressed(
        Input::Pressed(Button::Left),
        hits,
        toggle,
        extend,
        before,
    ));
    heeding_one_more(marks, said, Notice::Rows(asked.0), true);
    clearing_leaves_one(table, Kind::Rows, say(said, Notice::Rows(asked.0)));
}

/// A press on a header cell selects its column, or every column under it if it is a
/// group; adds or takes away a column, and adds a group, with the command key; and
/// spans to a column from the anchor with Shift. Rows and cells are cleared.
pub proof fn a_press_on_the_header_selects<E>(
    table: DataTable<E>,
    hits: Hits,
    toggle: bool,
    extend: bool,
    key_toggle: bool,
    key_extend: bool,
    before: Effect,
)
    requires
        listens(table),
        before.shell.said.len() == 0,
        !before.done,
        table.column_mode != Mode::Off,
        hits.row is None,
        hits.control is None,
        hits.header_cell is Some,
    ensures
        ({
            let after = table.finished(
                Input::Pressed(Button::Left),
                hits,
                toggle,
                extend,
                key_toggle,
                key_extend,
                before,
            );
            let now = heeded(marks_of(table), after.shell.said);
            let cell = table.header_cells@[hits.header_cell->0 as int];
            let from = match before.state.column_anchor {
                Some(anchor) => anchor,
                None => cell.start,
            };
            let anchors = table.column_mode == Mode::Single || (cell.leaf && !extend);
            let changes = now.columns != table.selected_columns@ || (anchors
                && before.state.column_anchor != Some(cell.start));

            &&& forall|column: usize| #[trigger]
                now.columns.contains(column) <==> if cell.leaf {
                    picks(
                        table.column_mode == Mode::Multiple,
                        column == cell.start,
                        on_line(from, cell.start, column),
                        table.selected_columns@.contains(column),
                        toggle,
                        extend,
                    )
                } else if table.column_mode == Mode::Single {
                    column == cell.start
                } else {
                    on_line(cell.start, cell.end, column) || (toggle
                        && table.selected_columns@.contains(column))
                }
            &&& !changes ==> {
                &&& !after.done
                &&& after.shell == before.shell
                &&& after.state == (Model { reorder: after.state.reorder, ..before.state })
            }
            &&& changes ==> {
                &&& after.done && after.shell.captured && after.shell.redraw
                &&& now.rows.is_empty() && now.cells.is_empty()
                &&& after.state.column_focus == Some(cell.end)
                &&& after.state.column_anchor == Some(
                    if cell.leaf && extend && table.column_mode == Mode::Multiple {
                        from
                    } else {
                        cell.start
                    },
                )
                &&& after.state.reorder is None ==> (after.state.drag matches Some(
                    Sweep::Columns(base),
                ) && base == (if toggle {
                    now.columns
                } else {
                    Set::empty()
                }))
            }
        }),
{
    let marks = marks_of(table);
    let said = before.shell;
    let input = Input::Pressed(Button::Left);
    let cell = table.header_cells@[hits.header_cell->0 as int];
    let asked = table.header_wants(cell, before.state.column_anchor, toggle, extend);
    let after = table.finished(input, hits, toggle, extend, key_toggle, key_extend, before);

    assert(heeded(marks, said.said) == marks);
    assert(after == table.header_pressed(input, hits, toggle, extend, before));
    heeding_one_more(marks, said, Notice::Columns(asked.0), true);
    clearing_leaves_one(table, Kind::Columns, say(said, Notice::Columns(asked.0)));
}

/// A press on a header takes its column in hand exactly where it is a plain press
/// on a leaf that may land somewhere else and somebody hears of it: with the slots
/// that it may land in, no target yet, and where it was pressed.
pub proof fn a_plain_press_picks_a_column_up<E>(
    table: DataTable<E>,
    hits: Hits,
    toggle: bool,
    extend: bool,
    key_toggle: bool,
    key_extend: bool,
    before: Effect,
)
    requires
        !before.done,
        table.column_mode != Mode::Off,
        hits.row is None,
        hits.control is None,
        hits.header_cell is Some,
        hits.pointer is Some,
        before.state.reorder is None,
    ensures
        ({
            let after = table.finished(
                Input::Pressed(Button::Left),
                hits,
                toggle,
                extend,
                key_toggle,
                key_extend,
                before,
            );
            let cell = table.header_cells@[hits.header_cell->0 as int];
            let slots = crate::header::legal_slots(
                table.header_cells@,
                cell.start,
                table.sticky_columns,
            );

            &&& after.state.reorder is Some <==> table.hears_reorder && cell.leaf && !toggle
                && !extend && slots.len() > 1
            &&& after.state.reorder matches Some(carry) ==> {
                &&& carry.column == cell.start
                &&& carry.slots == slots
                &&& carry.target is None
                &&& carry.origin == hits.pointer->0.x
                &&& carry.grab == hits.grip
                &&& after.done ==> after.state.drag is None
            }
        }),
{
}

/// A sweep over cells selects what it started from and the rectangle between the
/// anchor and the cell under the pointer, and nothing else, in any reading of the
/// grid; where at most one cell can be selected, the one under the pointer.
pub proof fn a_sweep_over_cells_selects<E>(
    table: DataTable<E>,
    input: Input,
    hits: Hits,
    toggle: bool,
    extend: bool,
    key_toggle: bool,
    key_extend: bool,
    base: Set<(usize, usize)>,
    anchor: CellPosition,
    before: Effect,
)
    requires
        listens(table),
        input is Moved || input is FingerMoved,
        before.shell.said.len() == 0,
        !before.done,
        hits.pointer is Some,
        hits.row is Some && hits.column is Some,
        before.state.drag == Some(Sweep::Cells(base)),
        before.state.cell_anchor == Some(anchor),
    ensures
        ({
            let after = table.finished(
                input,
                hits,
                toggle,
                extend,
                key_toggle,
                key_extend,
                before,
            );
            let now = heeded(marks_of(table), after.shell.said);
            let target = CellPosition { row: hits.row->0, column: hits.column->0 };

            &&& after.done && after.shell.captured
            &&& after.state == (Model { cell_focus: Some(target), ..before.state })
            &&& forall|cell: (usize, usize)| #[trigger]
                now.cells.contains(cell) <==> if table.cell_mode == Mode::Single {
                    cell == (target.row, target.column)
                } else {
                    base.contains(cell) || in_box(anchor, target, cell)
                }
            &&& now.cells != table.selected_cells@ ==> after.shell.redraw && now.rows.is_empty()
                && now.columns.is_empty()
            &&& now.cells == table.selected_cells@ ==> after.shell.said == before.shell.said
        }),
{
    let marks = marks_of(table);
    let said = before.shell;
    let target = (hits.row->0, hits.column->0);
    let cells = if table.cell_mode == Mode::Single {
        set![target]
    } else {
        block(anchor@, target).union(base)
    };
    let after = table.finished(input, hits, toggle, extend, key_toggle, key_extend, before);

    assert(heeded(marks, said.said) == marks);
    assert(after == table.swept(input, hits, before));
    heeding_one_more(marks, said, Notice::Cells(cells), true);
    clearing_leaves_one(table, Kind::Cells, say(said, Notice::Cells(cells)));
}

/// A sweep over rows selects what it started from and the rows between the anchor
/// and the one under the pointer, and nothing else, in any reading of the grid;
/// where at most one row can be selected, the one under the pointer.
pub proof fn a_sweep_over_rows_selects<E>(
    table: DataTable<E>,
    input: Input,
    hits: Hits,
    toggle: bool,
    extend: bool,
    key_toggle: bool,
    key_extend: bool,
    base: Set<usize>,
    anchor: usize,
    before: Effect,
)
    requires
        listens(table),
        input is Moved || input is FingerMoved,
        before.shell.said.len() == 0,
        !before.done,
        hits.pointer is Some,
        hits.row is Some,
        before.state.drag == Some(Sweep::Rows(base)),
        before.state.anchor == Some(anchor),
    ensures
        ({
            let after = table.finished(
                input,
                hits,
                toggle,
                extend,
                key_toggle,
                key_extend,
                before,
            );
            let now = heeded(marks_of(table), after.shell.said);
            let target = hits.row->0;

            &&& after.done && after.shell.captured
            &&& after.state == (Model { row_focus: Some(target), ..before.state })
            &&& forall|row: usize| #[trigger]
                now.rows.contains(row) <==> if table.mode == Mode::Single {
                    row == target
                } else {
                    base.contains(row) || on_line(anchor, target, row)
                }
            &&& now.rows != table.selected@ ==> after.shell.redraw && now.columns.is_empty()
                && now.cells.is_empty()
            &&& now.rows == table.selected@ ==> after.shell.said == before.shell.said
        }),
{
    let marks = marks_of(table);
    let said = before.shell;
    let rows = if table.mode == Mode::Single {
        set![hits.row->0]
    } else {
        between(anchor, hits.row->0).union(base)
    };
    let after = table.finished(input, hits, toggle, extend, key_toggle, key_extend, before);

    assert(heeded(marks, said.said) == marks);
    assert(after == table.swept(input, hits, before));
    heeding_one_more(marks, said, Notice::Rows(rows), true);
    clearing_leaves_one(table, Kind::Rows, say(said, Notice::Rows(rows)));
}

/// A sweep over columns selects what it started from and the columns between the
/// anchor and the one under the pointer, and nothing else, in any reading of the
/// grid; where at most one column can be selected, the one under the pointer.
pub proof fn a_sweep_over_columns_selects<E>(
    table: DataTable<E>,
    input: Input,
    hits: Hits,
    toggle: bool,
    extend: bool,
    key_toggle: bool,
    key_extend: bool,
    base: Set<usize>,
    anchor: usize,
    before: Effect,
)
    requires
        listens(table),
        input is Moved || input is FingerMoved,
        before.shell.said.len() == 0,
        !before.done,
        hits.pointer is Some,
        hits.column is Some,
        before.state.drag == Some(Sweep::Columns(base)),
        before.state.column_anchor == Some(anchor),
    ensures
        ({
            let after = table.finished(
                input,
                hits,
                toggle,
                extend,
                key_toggle,
                key_extend,
                before,
            );
            let now = heeded(marks_of(table), after.shell.said);
            let target = hits.column->0;

            &&& after.done && after.shell.captured
            &&& after.state == (Model { column_focus: Some(target), ..before.state })
            &&& forall|column: usize| #[trigger]
                now.columns.contains(column) <==> if table.column_mode == Mode::Single {
                    column == target
                } else {
                    base.contains(column) || on_line(anchor, target, column)
                }
            &&& now.columns != table.selected_columns@ ==> after.shell.redraw && now.rows.is_empty()
                && now.cells.is_empty()
            &&& now.columns == table.selected_columns@ ==> after.shell.said == before.shell.said
        }),
{
    let marks = marks_of(table);
    let said = before.shell;
    let columns = if table.column_mode == Mode::Single {
        set![hits.column->0]
    } else {
        between(anchor, hits.column->0).union(base)
    };
    let after = table.finished(input, hits, toggle, extend, key_toggle, key_extend, before);

    assert(heeded(marks, said.said) == marks);
    assert(after == table.swept(input, hits, before));
    heeding_one_more(marks, said, Notice::Columns(columns), true);
    clearing_leaves_one(table, Kind::Columns, say(said, Notice::Columns(columns)));
}

/// A sweep that is over nothing it could select, or off the screen, selects nothing,
/// and goes on from where it started once it is back.
pub proof fn a_sweep_over_nothing_waits<E>(
    table: DataTable<E>,
    input: Input,
    hits: Hits,
    toggle: bool,
    extend: bool,
    key_toggle: bool,
    key_extend: bool,
    before: Effect,
)
    requires
        input is Moved || input is FingerMoved,
        !before.done,
        ({
            ||| hits.pointer is None
            ||| before.state.drag is Some && hits.row is None && hits.column is None
            ||| before.state.drag matches Some(Sweep::Cells(_)) && (hits.row is None || hits.column
                is None)
            ||| before.state.drag matches Some(Sweep::Rows(_)) && hits.row is None
            ||| before.state.drag matches Some(Sweep::Columns(_)) && hits.column is None
        }),
    ensures
        ({
            let after = table.finished(
                input,
                hits,
                toggle,
                extend,
                key_toggle,
                key_extend,
                before,
            );

            &&& !after.done
            &&& after.shell.said == before.shell.said
            &&& after.state == (Model {
                hovered: after.state.hovered,
                hovered_sort: after.state.hovered_sort,
                ..before.state
            })
        }),
{
}

/// A press on a cell and then a motion over the body, with the application acting
/// on what each reports: everything from the cell pressed to the cell under the
/// pointer is selected, and with the command key whatever the press had left
/// selected stays so. Without it, nothing else is.
pub proof fn a_press_and_a_sweep_over_cells<E>(
    table: DataTable<E>,
    later: DataTable<E>,
    pressed: Hits,
    input: Input,
    moved: Hits,
    toggle: bool,
    extend: bool,
    key_toggle: bool,
    key_extend: bool,
    before: Effect,
    motion: Effect,
)
    requires
        listens(table) && listens(later),
        table.cell_mode == Mode::Multiple && later.cell_mode == Mode::Multiple,
        before.shell.said.len() == 0 && motion.shell.said.len() == 0,
        !before.done && !motion.done,
        pressed.over_body,
        pressed.row is Some && pressed.column is Some,
        input is Moved || input is FingerMoved,
        moved.pointer is Some,
        moved.row is Some && moved.column is Some,
        ({
            let press = table.finished(
                Input::Pressed(Button::Left),
                pressed,
                toggle,
                extend,
                key_toggle,
                key_extend,
                before,
            );

            &&& marks_of(later) == heeded(marks_of(table), press.shell.said)
            &&& motion.state == press.state
        }),
    ensures
        ({
            let after = later.finished(
                input,
                moved,
                toggle,
                extend,
                key_toggle,
                key_extend,
                motion,
            );
            let now = heeded(marks_of(later), after.shell.said);
            let pointer = CellPosition { row: moved.row->0, column: moved.column->0 };
            let anchor = motion.state.cell_anchor->0;

            &&& motion.state.cell_anchor is Some
            &&& !extend ==> anchor.row == pressed.row->0 && anchor.column == pressed.column->0
            &&& now.rows.is_empty() && now.columns.is_empty()
            &&& toggle ==> later.selected_cells@.subset_of(now.cells)
            &&& forall|cell: (usize, usize)|
                in_box(anchor, pointer, cell) ==> #[trigger] now.cells.contains(cell)
            &&& forall|cell: (usize, usize)| #[trigger]
                now.cells.contains(cell) ==> in_box(anchor, pointer, cell) || (toggle
                    && later.selected_cells@.contains(cell))
        }),
{
    let press = table.finished(
        Input::Pressed(Button::Left),
        pressed,
        toggle,
        extend,
        key_toggle,
        key_extend,
        before,
    );
    let base = if toggle {
        later.selected_cells@
    } else {
        Set::empty()
    };

    a_press_on_a_cell_selects(table, pressed, toggle, extend, key_toggle, key_extend, before);
    assert(motion.state.drag == Some(Sweep::Cells(base)));
    a_sweep_over_cells_selects(
        later,
        input,
        moved,
        toggle,
        extend,
        key_toggle,
        key_extend,
        base,
        motion.state.cell_anchor->0,
        motion,
    );
    assert(heeded(marks_of(later), motion.shell.said) == marks_of(later));
}

/// A press on a row and then a motion over the body, with the application acting
/// on what each reports: everything from the row pressed to the row under the
/// pointer is selected, and with the command key whatever the press had left
/// selected stays so. Without it, nothing else is.
pub proof fn a_press_and_a_sweep_over_rows<E>(
    table: DataTable<E>,
    later: DataTable<E>,
    pressed: Hits,
    input: Input,
    moved: Hits,
    toggle: bool,
    extend: bool,
    key_toggle: bool,
    key_extend: bool,
    before: Effect,
    motion: Effect,
)
    requires
        listens(table) && listens(later),
        table.mode == Mode::Multiple && later.mode == Mode::Multiple,
        table.cell_mode == Mode::Off || pressed.column is None || !pressed.over_body,
        before.shell.said.len() == 0 && motion.shell.said.len() == 0,
        !before.done && !motion.done,
        pressed.row is Some,
        pressed.control is None && pressed.header_cell is None,
        input is Moved || input is FingerMoved,
        moved.pointer is Some,
        moved.row is Some,
        ({
            let press = table.finished(
                Input::Pressed(Button::Left),
                pressed,
                toggle,
                extend,
                key_toggle,
                key_extend,
                before,
            );

            &&& marks_of(later) == heeded(marks_of(table), press.shell.said)
            &&& motion.state == press.state
        }),
        later.selected@ != table.selected@ || (!extend && before.state.anchor != pressed.row),
    ensures
        ({
            let after = later.finished(
                input,
                moved,
                toggle,
                extend,
                key_toggle,
                key_extend,
                motion,
            );
            let now = heeded(marks_of(later), after.shell.said);
            let anchor = motion.state.anchor->0;

            &&& motion.state.anchor is Some
            &&& !extend ==> anchor == pressed.row->0
            &&& now.columns.is_empty() && now.cells.is_empty()
            &&& toggle ==> later.selected@.subset_of(now.rows)
            &&& forall|row: usize|
                on_line(anchor, moved.row->0, row) ==> #[trigger] now.rows.contains(row)
            &&& forall|row: usize| #[trigger]
                now.rows.contains(row) ==> on_line(anchor, moved.row->0, row) || (toggle
                    && later.selected@.contains(row))
        }),
{
    let base = if toggle {
        later.selected@
    } else {
        Set::empty()
    };

    a_press_on_a_row_selects(table, pressed, toggle, extend, key_toggle, key_extend, before);
    assert(motion.state.drag == Some(Sweep::Rows(base)));
    a_sweep_over_rows_selects(
        later,
        input,
        moved,
        toggle,
        extend,
        key_toggle,
        key_extend,
        base,
        motion.state.anchor->0,
        motion,
    );
    assert(heeded(marks_of(later), motion.shell.said) == marks_of(later));
}

/// A press on a header and then a motion over the columns, where the press picked
/// no column up, with the application acting on what each reports: everything from
/// the column pressed to the column under the pointer is selected, and with the
/// command key whatever the press had left selected stays so. Without it, nothing
/// else is.
pub proof fn a_press_and_a_sweep_over_columns<E>(
    table: DataTable<E>,
    later: DataTable<E>,
    pressed: Hits,
    input: Input,
    moved: Hits,
    toggle: bool,
    extend: bool,
    key_toggle: bool,
    key_extend: bool,
    before: Effect,
    motion: Effect,
)
    requires
        listens(table) && listens(later),
        table.column_mode == Mode::Multiple && later.column_mode == Mode::Multiple,
        before.shell.said.len() == 0 && motion.shell.said.len() == 0,
        !before.done && !motion.done,
        before.state.reorder is None,
        pressed.row is None,
        pressed.pointer is Some,
        pressed.control is None && pressed.header_cell is Some,
        toggle || extend || !table.hears_reorder,
        input is Moved || input is FingerMoved,
        moved.pointer is Some,
        moved.column is Some,
        ({
            let press = table.finished(
                Input::Pressed(Button::Left),
                pressed,
                toggle,
                extend,
                key_toggle,
                key_extend,
                before,
            );

            &&& marks_of(later) == heeded(marks_of(table), press.shell.said)
            &&& motion.state == press.state
        }),
        ({
            let cell = table.header_cells@[pressed.header_cell->0 as int];

            later.selected_columns@ != table.selected_columns@ || (cell.leaf && !extend
                && before.state.column_anchor != Some(cell.start))
        }),
    ensures
        ({
            let after = later.finished(
                input,
                moved,
                toggle,
                extend,
                key_toggle,
                key_extend,
                motion,
            );
            let now = heeded(marks_of(later), after.shell.said);
            let cell = table.header_cells@[pressed.header_cell->0 as int];
            let anchor = motion.state.column_anchor->0;

            &&& motion.state.column_anchor is Some
            &&& !extend ==> anchor == cell.start
            &&& now.rows.is_empty() && now.cells.is_empty()
            &&& toggle ==> later.selected_columns@.subset_of(now.columns)
            &&& forall|column: usize|
                on_line(anchor, moved.column->0, column) ==> #[trigger] now.columns.contains(column)
            &&& forall|column: usize| #[trigger]
                now.columns.contains(column) ==> on_line(anchor, moved.column->0, column) || (toggle
                    && later.selected_columns@.contains(column))
        }),
{
    let base = if toggle {
        later.selected_columns@
    } else {
        Set::empty()
    };

    a_press_on_the_header_selects(table, pressed, toggle, extend, key_toggle, key_extend, before);
    a_plain_press_picks_a_column_up(table, pressed, toggle, extend, key_toggle, key_extend, before);
    assert(motion.state.drag == Some(Sweep::Columns(base)));
    a_sweep_over_columns_selects(
        later,
        input,
        moved,
        toggle,
        extend,
        key_toggle,
        key_extend,
        base,
        motion.state.column_anchor->0,
        motion,
    );
    assert(heeded(marks_of(later), motion.shell.said) == marks_of(later));
}

} // verus!
