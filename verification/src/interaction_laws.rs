//! What holds of the table's answers to events, whatever came before.

use vstd::prelude::*;
use crate::dragging::{carried, is_motion, is_release, resized};
use crate::header::landing_of;
use crate::hit::{is_nearest, nearest_of};
use crate::interaction::{
    say, say_if, Button, Carry, Effect, Hits, Input, Notice, Outcry, Sweep, REORDER_THRESHOLD,
};
use crate::keys::{stepped, steps_of, Step};
use crate::px::{below, total_rank, Px};
use crate::selecting::{kind_of, Kind, Target};
use crate::selection::{between, block, CellPosition, Mode};
use crate::table::DataTable;
use crate::update::Drags;

verus! {

/// The three selections that the application holds.
#[verifier::ext_equal]
pub struct Marks {
    pub rows: Set<usize>,
    pub columns: Set<usize>,
    pub cells: Set<(usize, usize)>,
}

/// The selections once the application has acted on a report.
pub open spec fn heard(marks: Marks, notice: Notice) -> Marks {
    match notice {
        Notice::Rows(rows) => Marks { rows, ..marks },
        Notice::Columns(columns) => Marks { columns, ..marks },
        Notice::Cells(cells) => Marks { cells, ..marks },
        _ => marks,
    }
}

/// The selections once the application has acted on all the reports, in order.
pub open spec fn heeded(marks: Marks, said: Seq<Notice>) -> Marks
    decreases said.len(),
{
    if said.len() == 0 {
        marks
    } else {
        heard(heeded(marks, said.drop_last()), said.last())
    }
}

/// The selections that the table was handed.
pub open spec fn marks_of<E>(table: DataTable<E>) -> Marks {
    Marks {
        rows: table.selected@,
        columns: table.selected_columns@,
        cells: table.selected_cells@,
    }
}

/// Only this reading of the grid holds anything.
pub open spec fn only_kind(marks: Marks, kind: Kind) -> bool {
    &&& kind != Kind::Rows ==> marks.rows.is_empty()
    &&& kind != Kind::Columns ==> marks.columns.is_empty()
    &&& kind != Kind::Cells ==> marks.cells.is_empty()
}

/// At most one reading of the grid holds anything.
pub open spec fn exclusive(marks: Marks) -> bool {
    exists|kind: Kind| only_kind(marks, kind)
}

/// The application listens for all three selections.
pub open spec fn listens<E>(table: DataTable<E>) -> bool {
    table.hears_rows && table.hears_columns && table.hears_cells
}

/// What acting on one more report adds.
pub(crate) proof fn heeding_one_more(marks: Marks, shell: Outcry, notice: Notice, heard_at_all: bool)
    ensures
        heeded(marks, say(shell, notice).said) == heard(heeded(marks, shell.said), notice),
        heeded(marks, say_if(heard_at_all, shell, notice).said) == (if heard_at_all {
            heard(heeded(marks, shell.said), notice)
        } else {
            heeded(marks, shell.said)
        }),
{
    assert(shell.said.push(notice).drop_last() =~= shell.said);
}

/// What clearing the other two readings leaves of selections that differ from
/// the table's at most in this one.
pub(crate) proof fn clearing_leaves_one<E>(table: DataTable<E>, kind: Kind, shell: Outcry)
    requires
        listens(table),
        ({
            let now = heeded(marks_of(table), shell.said);

            &&& kind != Kind::Rows ==> now.rows == table.selected@
            &&& kind != Kind::Columns ==> now.columns == table.selected_columns@
            &&& kind != Kind::Cells ==> now.cells == table.selected_cells@
        }),
    ensures
        ({
            let now = heeded(marks_of(table), shell.said);
            let left = heeded(marks_of(table), table.cleared(kind, shell).said);

            &&& only_kind(left, kind)
            &&& kind == Kind::Rows ==> left.rows == now.rows
            &&& kind == Kind::Columns ==> left.columns == now.columns
            &&& kind == Kind::Cells ==> left.cells == now.cells
        }),
{
    let marks = marks_of(table);
    let cells = kind != Kind::Cells && !table.selected_cells@.is_empty() && table.hears_cells;
    let rows = kind != Kind::Rows && !table.selected@.is_empty() && table.hears_rows;
    let columns = kind != Kind::Columns && !table.selected_columns@.is_empty()
        && table.hears_columns;
    let first = say_if(cells, shell, Notice::Cells(Set::empty()));
    let second = say_if(rows, first, Notice::Rows(Set::empty()));

    heeding_one_more(marks, shell, Notice::Cells(Set::empty()), cells);
    heeding_one_more(marks, first, Notice::Rows(Set::empty()), rows);
    heeding_one_more(marks, second, Notice::Columns(Set::empty()), columns);
}

/// The reading of the grid that the arrow keys step through.
pub open spec fn kind_of_keys<E>(table: DataTable<E>) -> Kind {
    if table.cell_mode != Mode::Off {
        Kind::Cells
    } else {
        Kind::Rows
    }
}

proof fn a_right_press_stays_exclusive<E>(
    table: DataTable<E>,
    input: Input,
    hits: Hits,
    toggle: bool,
    extend: bool,
    key_toggle: bool,
    key_extend: bool,
    before: Effect,
)
    requires
        listens(table),
        before.shell.said.len() == 0,
        !before.done,
        exclusive(marks_of(table)),
        input == Input::Pressed(Button::Right),
    ensures
        exclusive(
            heeded(
                marks_of(table),
                table.finished(
                    input,
                    hits,
                    toggle,
                    extend,
                    key_toggle,
                    key_extend,
                    before,
                ).shell.said,
            ),
        ),
{
    let marks = marks_of(table);
    let said = before.shell;
    let whole = table.finished(input, hits, toggle, extend, key_toggle, key_extend, before);

    assert(heeded(marks, said.said) == marks);
    if !table.right_clicked(input, hits, before).done {
        assert(whole == before);
    } else {
        assert(whole == table.right_clicked(input, hits, before));
        if let Some(target) = table.pointed_at(hits.row, hits.column) {
            let notice = match target {
                Target::Cell(position) => Notice::Cells(set![position@]),
                Target::Row(row) => Notice::Rows(set![row]),
                Target::Column(column) => Notice::Columns(set![column]),
            };
            let pointed = say_if(!table.has_selected(target), said, notice);
            let shell = table.repointed(target, said);

            heeding_one_more(marks, said, notice, !table.has_selected(target));
            clearing_leaves_one(table, kind_of(target), pointed);
            assert(shell == table.cleared(kind_of(target), pointed));
            assert(only_kind(heeded(marks, shell.said), kind_of(target)));
        }
        let shell = match table.pointed_at(hits.row, hits.column) {
            Some(target) => table.repointed(target, said),
            None => said,
        };
        let after = table.right_clicked(input, hits, before).shell.said;

        heeding_one_more(marks, shell, after.last(), true);
        assert(after == say(shell, after.last()).said);
        assert(heeded(marks, after) == heeded(marks, shell.said));
        if let Some(target) = table.pointed_at(hits.row, hits.column) {
            assert(only_kind(heeded(marks, after), kind_of(target)));
        }
    }
}

proof fn a_left_press_stays_exclusive<E>(
    table: DataTable<E>,
    input: Input,
    hits: Hits,
    toggle: bool,
    extend: bool,
    key_toggle: bool,
    key_extend: bool,
    before: Effect,
)
    requires
        listens(table),
        before.shell.said.len() == 0,
        !before.done,
        exclusive(marks_of(table)),
        input == Input::Pressed(Button::Left),
    ensures
        exclusive(
            heeded(
                marks_of(table),
                table.finished(
                    input,
                    hits,
                    toggle,
                    extend,
                    key_toggle,
                    key_extend,
                    before,
                ).shell.said,
            ),
        ),
{
    let marks = marks_of(table);
    let said = before.shell;
    let whole = table.finished(input, hits, toggle, extend, key_toggle, key_extend, before);

    assert(heeded(marks, said.said) == marks);
    let cell = table.cell_pressed(input, hits, toggle, extend, before);
    let row = table.row_pressed(input, hits, toggle, extend, before);
    let sort = table.sort_pressed(input, hits, before);
    let header = table.header_pressed(input, hits, toggle, extend, before);

    if cell.done {
        let wanted = cell.shell.said;
        let anchor = crate::selection::pair_of(before.state.cell_anchor);
        let target = CellPosition { row: hits.row->0, column: hits.column->0 };
        let asked = crate::selection::clicked(
            table.cell_mode,
            table.selected_cells@,
            anchor,
            target@,
            toggle,
            extend,
            block(crate::selection::origin(anchor, target@), target@),
        );
        let changed = asked != (table.selected_cells@, anchor);

        heeding_one_more(marks, said, Notice::Cells(asked.0), changed);
        clearing_leaves_one(
            table,
            Kind::Cells,
            say_if(changed, said, Notice::Cells(asked.0)),
        );
    } else if row.done {
        let at = hits.row->0;
        let asked = crate::selection::clicked(
            table.mode,
            table.selected@,
            before.state.anchor,
            at,
            toggle,
            extend,
            between(crate::selection::origin(before.state.anchor, at), at),
        );

        heeding_one_more(marks, said, Notice::Rows(asked.0), true);
        clearing_leaves_one(table, Kind::Rows, say(said, Notice::Rows(asked.0)));
    } else if sort.done {
        heeding_one_more(
            marks,
            said,
            Notice::Sort(crate::sort::next_sort(table.sort, hits.control->0)),
            true,
        );
    } else if header.done {
        let cell = table.header_cells@[hits.header_cell->0 as int];
        let asked = table.header_wants(cell, before.state.column_anchor, toggle, extend);

        heeding_one_more(marks, said, Notice::Columns(asked.0), true);
        clearing_leaves_one(table, Kind::Columns, say(said, Notice::Columns(asked.0)));
        assert(only_kind(heeded(marks, header.shell.said), Kind::Columns));
    }
}

proof fn a_key_stays_exclusive<E>(
    table: DataTable<E>,
    input: Input,
    hits: Hits,
    toggle: bool,
    extend: bool,
    key_toggle: bool,
    key_extend: bool,
    before: Effect,
)
    requires
        listens(table),
        before.shell.said.len() == 0,
        !before.done,
        exclusive(marks_of(table)),
        input is KeyPressed,
    ensures
        exclusive(
            heeded(
                marks_of(table),
                table.finished(
                    input,
                    hits,
                    toggle,
                    extend,
                    key_toggle,
                    key_extend,
                    before,
                ).shell.said,
            ),
        ),
{
    let marks = marks_of(table);
    let said = before.shell;
    let whole = table.finished(input, hits, toggle, extend, key_toggle, key_extend, before);

    assert(heeded(marks, said.said) == marks);
    let key = input->key;
    let typed = table.typed(input, key_toggle, key_extend, before);

    heeding_one_more(marks, said, Notice::Copy, true);
    if !typed.done {
        assert(whole == before);
    } else {
        assert(whole == typed);
        if let Some((down, across)) = steps_of(key) {
            let stepped = table.stepped_focus(down, across, key_extend, before);

            if typed.shell.said == stepped.shell.said && stepped.done {
                a_step_selects_from_anchor_to_focus(table, down, across, key_extend, before);
                assert(only_kind(heeded(marks, typed.shell.said), kind_of_keys(table)));
            } else {
                assert(typed.shell.said == say(said, Notice::Copy).said);
            }
        } else {
            assert(typed.shell.said == say(said, Notice::Copy).said);
        }
    }
}

proof fn any_other_event_stays_exclusive<E>(
    table: DataTable<E>,
    input: Input,
    hits: Hits,
    toggle: bool,
    extend: bool,
    key_toggle: bool,
    key_extend: bool,
    before: Effect,
)
    requires
        listens(table),
        before.shell.said.len() == 0,
        !before.done,
        exclusive(marks_of(table)),
        input != Input::Pressed(Button::Right) && input != Input::Pressed(Button::Left) && !(input is
            KeyPressed),
    ensures
        exclusive(
            heeded(
                marks_of(table),
                table.finished(
                    input,
                    hits,
                    toggle,
                    extend,
                    key_toggle,
                    key_extend,
                    before,
                ).shell.said,
            ),
        ),
{
    let marks = marks_of(table);
    let said = before.shell;
    let whole = table.finished(input, hits, toggle, extend, key_toggle, key_extend, before);

    assert(heeded(marks, said.said) == marks);
    let swept = table.swept(input, hits, before);

    if swept.done {
        a_sweep_spans_anchor_and_pointer(table, input, hits, before);
    }
}

/// Rows, columns and cells are never selected together: if at most one of the
/// three holds anything before an event, then at most one does once the
/// application has acted on what the table reports, whatever the event, and
/// whatever was being dragged.
pub proof fn selections_stay_exclusive<E>(
    table: DataTable<E>,
    input: Input,
    hits: Hits,
    toggle: bool,
    extend: bool,
    key_toggle: bool,
    key_extend: bool,
    before: Effect,
)
    requires
        listens(table),
        before.shell.said.len() == 0,
        !before.done,
        exclusive(marks_of(table)),
    ensures
        exclusive(
            heeded(
                marks_of(table),
                table.finished(
                    input,
                    hits,
                    toggle,
                    extend,
                    key_toggle,
                    key_extend,
                    before,
                ).shell.said,
            ),
        ),
{
    match input {
        Input::Pressed(Button::Right) => {
            a_right_press_stays_exclusive(
                table,
                input,
                hits,
                toggle,
                extend,
                key_toggle,
                key_extend,
                before,
            );
        },
        Input::Pressed(Button::Left) => {
            a_left_press_stays_exclusive(
                table,
                input,
                hits,
                toggle,
                extend,
                key_toggle,
                key_extend,
                before,
            );
        },
        Input::KeyPressed { .. } => {
            a_key_stays_exclusive(
                table,
                input,
                hits,
                toggle,
                extend,
                key_toggle,
                key_extend,
                before,
            );
        },
        _ => {
            any_other_event_stays_exclusive(
                table,
                input,
                hits,
                toggle,
                extend,
                key_toggle,
                key_extend,
                before,
            );
        },
    }
}

/// What a step of the keyboard selects: everything from the anchor to the focus
/// with Shift and where many items can be selected, else the place it stepped to
/// alone; and nothing else, in any reading of the grid.
pub proof fn a_step_selects_from_anchor_to_focus<E>(
    table: DataTable<E>,
    down: Step,
    across: Step,
    extend: bool,
    before: Effect,
)
    requires
        listens(table),
        before.shell.said.len() == 0,
        table.stepped_focus(down, across, extend, before).done,
        !before.done,
    ensures
        only_kind(
            heeded(
                marks_of(table),
                table.stepped_focus(down, across, extend, before).shell.said,
            ),
            kind_of_keys(table),
        ),
        ({
            let after = table.stepped_focus(down, across, extend, before);
            let now = heeded(marks_of(table), after.shell.said);

            if table.cell_mode != Mode::Off {
                &&& after.state.cell_anchor is Some && after.state.cell_focus is Some
                &&& now.cells == (if extend && table.cell_mode == Mode::Multiple {
                    block(after.state.cell_anchor->0@, after.state.cell_focus->0@)
                } else {
                    set![after.state.cell_focus->0@]
                })
            } else {
                &&& after.state.anchor is Some && after.state.row_focus is Some
                &&& now.rows == (if extend && table.mode == Mode::Multiple {
                    between(after.state.anchor->0, after.state.row_focus->0)
                } else {
                    set![after.state.row_focus->0]
                })
            }
        }),
{
    let marks = marks_of(table);
    let after = table.stepped_focus(down, across, extend, before);
    let state = before.state;

    if table.cell_mode != Mode::Off {
        let from = table.cell_origin(state);
        let target = after.state.cell_focus->0;
        let anchor = after.state.cell_anchor->0;
        let selection = if extend && table.cell_mode == Mode::Multiple {
            block(anchor@, target@)
        } else {
            set![target@]
        };
        let shell = Outcry { reveal: after.shell.reveal, ..before.shell };
        let changed = selection != table.selected_cells@ && table.hears_cells;

        heeding_one_more(marks, shell, Notice::Cells(selection), changed);
        clearing_leaves_one(table, Kind::Cells, say_if(changed, shell, Notice::Cells(selection)));
        assert(only_kind(heeded(marks, after.shell.said), Kind::Cells));
    } else {
        let target = after.state.row_focus->0;
        let anchor = after.state.anchor->0;
        let selection = if extend && table.mode == Mode::Multiple {
            between(anchor, target)
        } else {
            set![target]
        };
        let shell = Outcry { reveal: after.shell.reveal, ..before.shell };
        let changed = selection != table.selected@ && table.hears_rows;

        heeding_one_more(marks, shell, Notice::Rows(selection), changed);
        clearing_leaves_one(table, Kind::Rows, say_if(changed, shell, Notice::Rows(selection)));
        assert(only_kind(heeded(marks, after.shell.said), Kind::Rows));
    }
}

/// What is dragged before the cells see the event reports no selection and
/// leaves a sweep as it is.
pub proof fn dragging_selects_nothing<E>(
    table: DataTable<E>,
    input: Input,
    hits: Hits,
    drags: Drags,
    before: Effect,
)
    requires
        before.shell.said.len() == 0,
    ensures
        ({
            let after = table.begun(input, hits, drags, before);

            &&& after.state.drag == before.state.drag
            &&& heeded(marks_of(table), after.shell.said) == marks_of(table)
        }),
{
    let after = table.begun(input, hits, drags, before);

    if after.shell.said.len() > 0 {
        heeding_one_more(marks_of(table), before.shell, after.shell.said[0], true);
        assert(after.shell.said =~= before.shell.said.push(after.shell.said[0]));
    }
}

/// A right-click on something that is selected keeps the whole selection.
pub proof fn a_right_click_inside_the_selection_keeps_it<E>(
    table: DataTable<E>,
    target: Target,
    shell: Outcry,
)
    requires
        table.has_selected(target),
        only_kind(marks_of(table), kind_of(target)),
    ensures
        table.repointed(target, shell) == shell,
{
}

/// A sweep keeps what it started from: neither the anchor nor the base moves, so
/// what is selected depends on where the pointer is now and not on its path,
/// and dragging back gives the ground back.
pub proof fn a_sweep_keeps_where_it_started<E>(
    table: DataTable<E>,
    input: Input,
    hits: Hits,
    before: Effect,
)
    requires
        is_motion(input),
    ensures
        ({
            let after = table.swept(input, hits, before);

            &&& after.state.drag == before.state.drag
            &&& after.state.anchor == before.state.anchor
            &&& after.state.column_anchor == before.state.column_anchor
            &&& after.state.cell_anchor == before.state.cell_anchor
        }),
{
}

/// What a sweep over cells selects with the pointer over this cell.
pub open spec fn swept_cells<E>(
    table: DataTable<E>,
    anchor: CellPosition,
    target: (usize, usize),
    base: Set<(usize, usize)>,
) -> Set<(usize, usize)> {
    if table.cell_mode == Mode::Single {
        set![target]
    } else {
        block(anchor@, target).union(base)
    }
}

/// What a sweep over rows or columns selects with the pointer over this one.
pub open spec fn swept_line(mode: Mode, anchor: usize, target: usize, base: Set<usize>) -> Set<
    usize,
> {
    if mode == Mode::Single {
        set![target]
    } else {
        between(anchor, target).union(base)
    }
}

/// A sweep selects everything between its anchor and the pointer and everything
/// it started from, or where at most one item can be selected, the one under the
/// pointer; and nothing else. The report is left out only where that is what is
/// selected already. If only one reading of the grid held anything before, the
/// one swept over is the only one that does now.
pub proof fn a_sweep_spans_anchor_and_pointer<E>(
    table: DataTable<E>,
    input: Input,
    hits: Hits,
    before: Effect,
)
    requires
        listens(table),
        is_motion(input),
        before.shell.said.len() == 0,
        hits.pointer is Some,
    ensures
        ({
            let state = before.state;
            let now = heeded(marks_of(table), table.swept(input, hits, before).shell.said);
            let alone = exclusive(marks_of(table));

            match state.drag {
                Some(Sweep::Cells(base)) => state.cell_anchor is Some && hits.row is Some
                    && hits.column is Some ==> {
                    &&& now.cells == swept_cells(
                        table,
                        state.cell_anchor->0,
                        (hits.row->0, hits.column->0),
                        base,
                    )
                    &&& alone ==> only_kind(now, Kind::Cells)
                },
                Some(Sweep::Rows(base)) => state.anchor is Some && hits.row is Some ==> {
                    &&& now.rows == swept_line(table.mode, state.anchor->0, hits.row->0, base)
                    &&& alone ==> only_kind(now, Kind::Rows)
                },
                Some(Sweep::Columns(base)) => state.column_anchor is Some && hits.column is Some
                    ==> {
                    &&& now.columns == swept_line(
                        table.column_mode,
                        state.column_anchor->0,
                        hits.column->0,
                        base,
                    )
                    &&& alone ==> only_kind(now, Kind::Columns)
                },
                None => now == marks_of(table),
            }
        }),
{
    let state = before.state;
    let marks = marks_of(table);
    let said = before.shell;

    assert(heeded(marks, said.said) == marks);
    match state.drag {
        Some(Sweep::Cells(base)) => {
            let target = (hits.row->0, hits.column->0);
            let cells = swept_cells(table, state.cell_anchor->0, target, base);

            heeding_one_more(marks, said, Notice::Cells(cells), true);
            clearing_leaves_one(table, Kind::Cells, say(said, Notice::Cells(cells)));
            assert(cells.contains(target));
        },
        Some(Sweep::Rows(base)) => {
            let rows = swept_line(table.mode, state.anchor->0, hits.row->0, base);

            heeding_one_more(marks, said, Notice::Rows(rows), true);
            clearing_leaves_one(table, Kind::Rows, say(said, Notice::Rows(rows)));
            assert(rows.contains(hits.row->0));
        },
        Some(Sweep::Columns(base)) => {
            let columns = swept_line(
                table.column_mode,
                state.column_anchor->0,
                hits.column->0,
                base,
            );

            heeding_one_more(marks, said, Notice::Columns(columns), true);
            clearing_leaves_one(table, Kind::Columns, say(said, Notice::Columns(columns)));
            assert(columns.contains(hits.column->0));
        },
        None => {},
    }
}

/// The set holds one item at most.
pub open spec fn lone<T>(items: Set<T>) -> bool {
    forall|a: T, b: T| #[trigger] items.contains(a) && #[trigger] items.contains(b) ==> a == b
}

/// A report that asks for no more than the mode of its reading allows.
pub open spec fn modest<E>(table: DataTable<E>, notice: Notice) -> bool {
    match notice {
        Notice::Rows(rows) => table.mode == Mode::Single ==> lone(rows),
        Notice::Columns(columns) => table.column_mode == Mode::Single ==> lone(columns),
        Notice::Cells(cells) => table.cell_mode == Mode::Single ==> lone(cells),
        _ => true,
    }
}

/// Only such reports were made.
pub open spec fn all_modest<E>(table: DataTable<E>, said: Seq<Notice>) -> bool {
    forall|i: int| 0 <= i < said.len() ==> modest(table, #[trigger] said[i])
}

proof fn clearing_is_modest<E>(table: DataTable<E>, kind: Kind, shell: Outcry)
    requires
        all_modest(table, shell.said),
    ensures
        all_modest(table, table.cleared(kind, shell).said),
{
}

proof fn a_sweep_is_modest<E>(table: DataTable<E>, input: Input, hits: Hits, before: Effect)
    requires
        all_modest(table, before.shell.said),
    ensures
        all_modest(table, table.swept(input, hits, before).shell.said),
{
    let state = before.state;
    let said = before.shell;

    match state.drag {
        Some(Sweep::Cells(base)) => {
            let target = (hits.row->0, hits.column->0);
            let cells = Notice::Cells(swept_cells(table, state.cell_anchor->0, target, base));

            assert(modest(table, cells));
            clearing_is_modest(table, Kind::Cells, say_if(table.hears_cells, said, cells));
        },
        Some(Sweep::Rows(base)) => {
            let rows = Notice::Rows(swept_line(table.mode, state.anchor->0, hits.row->0, base));

            assert(modest(table, rows));
            clearing_is_modest(table, Kind::Rows, say_if(table.hears_rows, said, rows));
        },
        Some(Sweep::Columns(base)) => {
            let columns = Notice::Columns(
                swept_line(table.column_mode, state.column_anchor->0, hits.column->0, base),
            );

            assert(modest(table, columns));
            clearing_is_modest(table, Kind::Columns, say_if(table.hears_columns, said, columns));
        },
        None => {},
    }
}

proof fn a_key_is_modest<E>(
    table: DataTable<E>,
    input: Input,
    toggle: bool,
    extend: bool,
    before: Effect,
)
    requires
        all_modest(table, before.shell.said),
    ensures
        all_modest(table, table.typed(input, toggle, extend, before).shell.said),
{
    if let Input::KeyPressed { key, .. } = input {
        if let Some((down, across)) = steps_of(key) {
            let after = table.stepped_focus(down, across, extend, before);
            let shell = Outcry { reveal: after.shell.reveal, ..before.shell };

            if table.cell_mode != Mode::Off {
                let cells = if extend && table.cell_mode == Mode::Multiple {
                    block(after.state.cell_anchor->0@, after.state.cell_focus->0@)
                } else {
                    set![after.state.cell_focus->0@]
                };
                let changed = cells != table.selected_cells@ && table.hears_cells;

                assert(modest(table, Notice::Cells(cells)));
                clearing_is_modest(
                    table,
                    Kind::Cells,
                    say_if(changed, shell, Notice::Cells(cells)),
                );
            } else {
                let rows = if extend && table.mode == Mode::Multiple {
                    between(after.state.anchor->0, after.state.row_focus->0)
                } else {
                    set![after.state.row_focus->0]
                };
                let changed = rows != table.selected@ && table.hears_rows;

                assert(modest(table, Notice::Rows(rows)));
                clearing_is_modest(table, Kind::Rows, say_if(changed, shell, Notice::Rows(rows)));
            }
        }
    }
}

proof fn a_right_click_is_modest<E>(table: DataTable<E>, input: Input, hits: Hits, before: Effect)
    requires
        all_modest(table, before.shell.said),
    ensures
        all_modest(table, table.right_clicked(input, hits, before).shell.said),
{
    if let Some(target) = table.pointed_at(hits.row, hits.column) {
        let pointed = if table.has_selected(target) {
            before.shell
        } else {
            match target {
                Target::Cell(position) => say_if(
                    table.hears_cells,
                    before.shell,
                    Notice::Cells(set![position@]),
                ),
                Target::Row(row) => say_if(table.hears_rows, before.shell, Notice::Rows(set![row])),
                Target::Column(column) => say_if(
                    table.hears_columns,
                    before.shell,
                    Notice::Columns(set![column]),
                ),
            }
        };

        clearing_is_modest(table, kind_of(target), pointed);
    }
}

proof fn a_cell_press_is_modest<E>(
    table: DataTable<E>,
    input: Input,
    hits: Hits,
    toggle: bool,
    extend: bool,
    before: Effect,
)
    requires
        all_modest(table, before.shell.said),
    ensures
        all_modest(table, table.cell_pressed(input, hits, toggle, extend, before).shell.said),
{
    let target = CellPosition { row: hits.row->0, column: hits.column->0 };
    let anchor = crate::selection::pair_of(before.state.cell_anchor);
    let asked = crate::selection::clicked(
        table.cell_mode,
        table.selected_cells@,
        anchor,
        target@,
        toggle,
        extend,
        block(crate::selection::origin(anchor, target@), target@),
    );
    let changed = asked != (table.selected_cells@, anchor) && table.hears_cells;

    assert(modest(table, Notice::Cells(asked.0)));
    clearing_is_modest(
        table,
        Kind::Cells,
        say_if(changed, before.shell, Notice::Cells(asked.0)),
    );
}

proof fn a_row_press_is_modest<E>(
    table: DataTable<E>,
    input: Input,
    hits: Hits,
    toggle: bool,
    extend: bool,
    before: Effect,
)
    requires
        all_modest(table, before.shell.said),
    ensures
        all_modest(table, table.row_pressed(input, hits, toggle, extend, before).shell.said),
{
    let at = hits.row->0;
    let asked = crate::selection::clicked(
        table.mode,
        table.selected@,
        before.state.anchor,
        at,
        toggle,
        extend,
        between(crate::selection::origin(before.state.anchor, at), at),
    );

    assert(modest(table, Notice::Rows(asked.0)));
    clearing_is_modest(
        table,
        Kind::Rows,
        say_if(table.hears_rows, before.shell, Notice::Rows(asked.0)),
    );
}

proof fn a_header_press_is_modest<E>(
    table: DataTable<E>,
    input: Input,
    hits: Hits,
    toggle: bool,
    extend: bool,
    before: Effect,
)
    requires
        all_modest(table, before.shell.said),
    ensures
        all_modest(table, table.header_pressed(input, hits, toggle, extend, before).shell.said),
{
    let cell = table.header_cells@[hits.header_cell->0 as int];
    let asked = table.header_wants(cell, before.state.column_anchor, toggle, extend);

    assert(modest(table, Notice::Columns(asked.0)));
    clearing_is_modest(
        table,
        Kind::Columns,
        say_if(table.hears_columns, before.shell, Notice::Columns(asked.0)),
    );
}

/// Where at most one row, column or cell can be selected, no report asks for
/// more: not after a press, nor a sweep, nor an arrow key, with or without Shift
/// or the command key.
#[verifier::rlimit(60)]
pub proof fn a_single_mode_selects_one_item_at_most<E>(
    table: DataTable<E>,
    input: Input,
    hits: Hits,
    toggle: bool,
    extend: bool,
    key_toggle: bool,
    key_extend: bool,
    before: Effect,
)
    requires
        before.shell.said.len() == 0,
    ensures
        all_modest(
            table,
            table.finished(
                input,
                hits,
                toggle,
                extend,
                key_toggle,
                key_extend,
                before,
            ).shell.said,
        ),
{
    let menu = table.right_clicked(input, hits, before);
    let cell = table.cell_pressed(input, hits, toggle, extend, menu);
    let sweep = table.swept(input, hits, cell);
    let key = table.typed(input, key_toggle, key_extend, sweep);
    let row = table.row_pressed(input, hits, toggle, extend, key);
    let sort = table.sort_pressed(input, hits, row);

    a_right_click_is_modest(table, input, hits, before);
    a_cell_press_is_modest(table, input, hits, toggle, extend, menu);
    a_sweep_is_modest(table, input, hits, cell);
    a_key_is_modest(table, input, key_toggle, key_extend, sweep);
    a_row_press_is_modest(table, input, hits, toggle, extend, key);
    assert(all_modest(table, sort.shell.said));
    a_header_press_is_modest(table, input, hits, toggle, extend, sort);
}

/// Shift and an arrow step the focus one place, inside the table, and keep the
/// anchor where many cells can be selected. A plain arrow steps to the same place
/// and takes the anchor along; so does Shift and an arrow where at most one cell
/// can be selected.
pub proof fn shift_arrows_keep_the_anchor<E>(
    table: DataTable<E>,
    down: Step,
    across: Step,
    anchor: CellPosition,
    focus: CellPosition,
    before: Effect,
)
    requires
        table.cell_mode != Mode::Off,
        table.row_count > 0,
        0 < table.columns@.len() <= usize::MAX,
        before.state.cell_anchor == Some(anchor),
        before.state.cell_focus == Some(focus),
    ensures
        ({
            let extended = table.stepped_focus(down, across, true, before);
            let plain = table.stepped_focus(down, across, false, before);
            let target = extended.state.cell_focus->0;

            &&& extended.done && plain.done
            &&& extended.state.cell_anchor == Some(
                if table.cell_mode == Mode::Multiple {
                    anchor
                } else {
                    target
                },
            )
            &&& target.row == stepped(focus.row, down, table.row_count)
            &&& target.column == stepped(focus.column, across, table.columns@.len() as usize)
            &&& target.row < table.row_count && target.column < table.columns@.len()
            &&& plain.state.cell_focus == Some(target)
            &&& plain.state.cell_anchor == Some(target)
        }),
{
}

/// Where the arrows drive rows, Shift and an arrow step the focus one row, inside
/// the table, and keep the anchor where many rows can be selected. A plain arrow
/// steps to the same row and takes the anchor along; so does Shift and an arrow
/// where at most one row can be selected.
pub proof fn shift_arrows_keep_the_row_anchor<E>(
    table: DataTable<E>,
    down: Step,
    across: Step,
    anchor: usize,
    focus: usize,
    before: Effect,
)
    requires
        table.cell_mode == Mode::Off,
        table.mode != Mode::Off,
        down != Step::Stay,
        table.row_count > 0,
        0 < table.columns@.len() <= usize::MAX,
        before.state.anchor == Some(anchor),
        before.state.row_focus == Some(focus),
    ensures
        ({
            let extended = table.stepped_focus(down, across, true, before);
            let plain = table.stepped_focus(down, across, false, before);
            let target = extended.state.row_focus->0;

            &&& extended.done && plain.done
            &&& extended.state.anchor == Some(
                if table.mode == Mode::Multiple {
                    anchor
                } else {
                    target
                },
            )
            &&& target == stepped(focus, down, table.row_count)
            &&& target < table.row_count
            &&& plain.state.row_focus == Some(target)
            &&& plain.state.anchor == Some(target)
        }),
{
}

/// Without the focus the table ignores the keyboard.
pub proof fn keys_need_the_focus<E>(
    table: DataTable<E>,
    input: Input,
    toggle: bool,
    extend: bool,
    before: Effect,
)
    requires
        !before.state.focused,
    ensures
        table.typed(input, toggle, extend, before) == before,
{
}

/// The copy shortcut is reported only while something is selected.
pub proof fn copying_needs_a_selection<E>(
    table: DataTable<E>,
    input: Input,
    toggle: bool,
    extend: bool,
    before: Effect,
)
    requires
        table.nothing_selected(),
        before.shell.said.len() == 0,
    ensures
        !table.typed(input, toggle, extend, before).shell.said.contains(Notice::Copy),
{
    let after = table.typed(input, toggle, extend, before);

    if let Input::KeyPressed { key, .. } = input {
        if let Some((down, across)) = steps_of(key) {
            let stepped = table.stepped_focus(down, across, extend, before);

            assert(stepped.shell.said.len() <= 1);
            assert(stepped.shell.said.len() == 1 ==> stepped.shell.said[0] != Notice::Copy);
        }
    }
    assert forall|i: int| 0 <= i < after.shell.said.len() implies after.shell.said[i]
        != Notice::Copy by {}
}

/// A press in a gutter selects no cell, even where cells can be selected: the
/// gutter is where a row is selected.
pub proof fn a_gutter_press_is_left_to_the_rows<E>(
    table: DataTable<E>,
    input: Input,
    hits: Hits,
    toggle: bool,
    extend: bool,
    before: Effect,
)
    requires
        hits.column is None,
    ensures
        table.cell_pressed(input, hits, toggle, extend, before) == before,
{
}

/// A press that does not travel as far as the threshold is a click: it moves no
/// column, however often the pointer twitches before it is let go.
pub proof fn a_nudge_moves_no_column(
    hears_reorder: bool,
    moved: Input,
    released: Input,
    hits: Hits,
    travel: Px,
    distances: Seq<Px>,
    before: Effect,
)
    requires
        before.state.reorder matches Some(carry) && carry.target is None,
        is_motion(moved),
        is_release(released),
        below(travel, Px { bits: REORDER_THRESHOLD }),
    ensures
        carried(hears_reorder, moved, hits, travel, distances, before) == before,
        carried(hears_reorder, released, hits, travel, distances, before).shell.said
            == before.shell.said,
        carried(hears_reorder, released, hits, travel, distances, before).state.reorder is None,
{
}

/// A column put down where it was picked up is no move, and is not reported.
pub proof fn a_column_put_back_is_not_reported(
    hears_reorder: bool,
    released: Input,
    hits: Hits,
    travel: Px,
    distances: Seq<Px>,
    carry: Carry,
    slot: usize,
    before: Effect,
)
    requires
        before.state.reorder == Some(carry),
        carry.target == Some(slot),
        landing_of(carry.column as int, slot as int) == carry.column,
        is_release(released),
    ensures
        carried(hears_reorder, released, hits, travel, distances, before).shell.said
            == before.shell.said,
{
}

/// A carried column only ever aims at one of the slots it was offered.
pub proof fn a_carried_column_aims_at_a_slot(slots: Seq<usize>, distances: Seq<Px>)
    requires
        slots.len() == distances.len(),
        slots.len() > 0,
    ensures
        nearest_of(slots, distances) matches Some(slot) && slots.contains(slot),
{
    let at = nearest_exists(distances);

    assert(is_nearest(distances, at));
    let found = choose|at: int| is_nearest(distances, at);
    assert(is_nearest(distances, found));
    assert(slots[found] == nearest_of(slots, distances)->0);
}

/// One of the distances is the nearest.
pub(crate) proof fn nearest_exists(distances: Seq<Px>) -> (at: int)
    requires
        distances.len() > 0,
    ensures
        is_nearest(distances, at),
    decreases distances.len(),
{
    let last = distances.len() - 1;

    if last == 0 {
        0
    } else {
        let before = distances.drop_last();
        let at = nearest_exists(before);

        assert(forall|j: int| 0 <= j < last ==> before[j] == #[trigger] distances[j]);
        if total_rank(distances[last]) < total_rank(distances[at]) {
            assert forall|j: int| 0 <= j < last implies total_rank(distances[last]) < total_rank(
                #[trigger] distances[j],
            ) by {
                assert(total_rank(before[at]) <= total_rank(before[j]));
            }
            last
        } else {
            assert forall|j: int| 0 <= j < distances.len() implies total_rank(distances[at]) <= total_rank(
                #[trigger] distances[j],
            ) by {
                if j < last {
                    assert(total_rank(before[at]) <= total_rank(before[j]));
                }
            }
            assert forall|j: int| 0 <= j < at implies total_rank(distances[at]) < total_rank(
                #[trigger] distances[j],
            ) by {
                assert(total_rank(before[at]) < total_rank(before[j]));
            }
            at
        }
    }
}

/// The modifiers and the focus are kept track of even by an event that a drag
/// claims.
pub proof fn modifiers_and_focus_are_never_missed<E>(
    table: DataTable<E>,
    input: Input,
    hits: Hits,
    drags: Drags,
    before: Effect,
)
    ensures
        ({
            let after = table.begun(input, hits, drags, before);

            &&& input matches Input::ModifiersChanged(modifiers) ==> after.state.modifiers
                == modifiers
            &&& input is Pressed ==> after.state.focused == hits.over_table
        }),
{
}

/// Dragging an edge changes the width of that column and of no other.
pub proof fn a_resize_moves_one_edge(
    floor: Px,
    input: Input,
    hits: Hits,
    widths: Seq<Px>,
    reach: Px,
    before: Effect,
    other: int,
)
    requires
        is_motion(input),
        before.state.resizing matches Some(resize) && resize.column != other,
        0 <= other < before.state.overrides.len(),
    ensures
        resized(true, floor, input, hits, widths, reach, before).state.overrides[other]
            == before.state.overrides[other],
{
}

/// Letting go ends the drag of an edge and of a column, and unless that moved a
/// column, of a thumb and of a sweep too.
pub proof fn letting_go_ends_every_drag<E>(
    table: DataTable<E>,
    hits: Hits,
    drags: Drags,
    before: Effect,
)
    requires
        !before.done,
        table.resizable,
    ensures
        ({
            let input = Input::Released(Button::Left);
            let first = table.begun(input, hits, drags, before);

            &&& first.state.resizing is None
            &&& first.state.reorder is None
            &&& !first.done ==> first.state.y_grab is None && first.state.x_grab is None
            &&& !first.done ==> table.swept(input, hits, first).state.drag is None
        }),
{
}

/// A press on a column edge is a resize and nothing else: it is claimed before
/// anything under the pointer sees it, and reports nothing.
pub proof fn an_edge_outranks_everything<E>(
    table: DataTable<E>,
    hits: Hits,
    drags: Drags,
    before: Effect,
)
    requires
        table.resizable,
        hits.pointer is Some,
        hits.edge is Some,
    ensures
        ({
            let after = table.begun(Input::Pressed(Button::Left), hits, drags, before);

            after.done && after.shell.said == before.shell.said
        }),
{
}

/// A press on a sort control steps the sort and selects no column: the control
/// owns its place in the header, and the rest of the header is the column's.
pub proof fn a_sort_control_outranks_its_column<E>(
    table: DataTable<E>,
    hits: Hits,
    toggle: bool,
    extend: bool,
    key_toggle: bool,
    key_extend: bool,
    before: Effect,
)
    requires
        table.hears_sort,
        hits.pointer is Some,
        hits.control is Some,
        hits.row is None,
        !before.done,
    ensures
        ({
            let input = Input::Pressed(Button::Left);

            table.finished(input, hits, toggle, extend, key_toggle, key_extend, before)
                == table.sort_pressed(input, hits, before) && table.sort_pressed(
                input,
                hits,
                before,
            ).done
        }),
{
}

/// Whatever lays the table out anew also draws it anew: the one without the
/// other would leave a drag frozen on screen, or paint it in the wrong place.
pub proof fn a_relayout_is_always_drawn<E>(
    table: DataTable<E>,
    input: Input,
    hits: Hits,
    drags: Drags,
    before: Effect,
)
    requires
        !before.shell.relayout,
    ensures
        table.begun(input, hits, drags, before).shell.relayout ==> table.begun(
            input,
            hits,
            drags,
            before,
        ).shell.redraw,
{
}

} // verus!
