//! Selecting, sorting and the keyboard.
//!
//! Rows, columns and cells are three readings of one grid, so a click picks
//! exactly one of them and the other two are cleared. The table does not own
//! the selections: it reports what they should become.

use std::collections::BTreeSet;
use vstd::prelude::*;
use crate::dragging::{effect, is_motion, is_release, left_press, motion, release};
use crate::header::{drop_slots, edges_fit, legal_slots, HeaderCell};
use crate::interaction::{
    claim, say, say_if, Button, Carry, Click, Drag, Effect, Hits, Input, Model, Notice, Outcry,
    ReorderDrag, Report, Reveal, Shell, State, Sweep,
};
use crate::keys::{is_c, step, stepped, steps, steps_of, types_c, Step};
use crate::px::{zero, Px};
use crate::selection::{
    apply, apply_cells, between, block, clicked, members, only, origin, pair_of, rectangle, same,
    span, union, CellPosition, Mode,
};
use crate::sort::{next, next_sort, Sort};
use crate::table::{inside, DataTable};

verus! {

broadcast use vstd::laws_cmp::group_laws_cmp;

/// One of the three readings of the grid.
#[derive(Debug, Clone, Copy, PartialEq, Eq, Structural)]
pub enum Kind {
    Cells,
    Rows,
    Columns,
}

/// The one thing a click resolves to.
#[derive(Debug, Clone, Copy, PartialEq, Eq, Structural)]
pub enum Target {
    Cell(CellPosition),
    Row(usize),
    Column(usize),
}

/// The reading of the grid that a target belongs to.
pub open spec fn kind_of(target: Target) -> Kind {
    match target {
        Target::Cell(_) => Kind::Cells,
        Target::Row(_) => Kind::Rows,
        Target::Column(_) => Kind::Columns,
    }
}

/// The first of two that there is.
pub open spec fn or<T>(a: Option<T>, b: Option<T>) -> Option<T> {
    if a is Some {
        a
    } else {
        b
    }
}

/// The cell with this row and column.
pub open spec fn position_of(pair: (usize, usize)) -> CellPosition {
    CellPosition { row: pair.0, column: pair.1 }
}

/// The greatest of the numbers.
pub open spec fn is_greatest(items: Set<usize>, item: usize) -> bool {
    items.contains(item) && forall|other: usize| #[trigger] items.contains(other) ==> other <= item
}

/// The greatest of the numbers, if there are any.
pub open spec fn greatest(items: Set<usize>) -> Option<usize> {
    if exists|item: usize| is_greatest(items, item) {
        Some(choose|item: usize| is_greatest(items, item))
    } else {
        None
    }
}

/// Does the first cell come before the second in reading order, or is it the
/// same one?
pub open spec fn reads_before(a: (usize, usize), b: (usize, usize)) -> bool {
    a.0 < b.0 || (a.0 == b.0 && a.1 <= b.1)
}

/// The last of the cells in reading order.
pub open spec fn is_last(cells: Set<(usize, usize)>, cell: (usize, usize)) -> bool {
    cells.contains(cell) && forall|other: (usize, usize)| #[trigger]
        cells.contains(other) ==> reads_before(other, cell)
}

/// The last of the cells in reading order, if there are any.
pub open spec fn last_cell(cells: Set<(usize, usize)>) -> Option<(usize, usize)> {
    if exists|cell: (usize, usize)| is_last(cells, cell) {
        Some(choose|cell: (usize, usize)| is_last(cells, cell))
    } else {
        None
    }
}

/// The greatest of the numbers, if there are any.
fn greatest_of(set: &BTreeSet<usize>) -> (item: Option<usize>)
    ensures
        item == greatest(set@),
{
    let items = members(set);
    let mut best: Option<usize> = None;

    for i in 0..items.len()
        invariant
            match best {
                Some(best) => items@.take(i as int).contains(best) && forall|k: int|
                    0 <= k < i ==> #[trigger] items@[k] <= best,
                None => i == 0,
            },
    {
        let item: usize = items[i];
        let better = match best {
            Some(best) => item > best,
            None => true,
        };

        proof {
            assert(items@.take(i + 1)[i as int] == item);
            if let Some(best) = best {
                let at = choose|at: int| 0 <= at < i && items@.take(i as int)[at] == best;
                assert(items@.take(i + 1)[at] == best);
            }
        }
        if better {
            best = Some(item);
        }
    }
    proof {
        assert(items@.take(items@.len() as int) =~= items@);
        match best {
            Some(best) => {
                assert(items@.to_set().contains(best));
                assert forall|other: usize| #[trigger] set@.contains(other) implies other
                    <= best by {
                    let at = choose|at: int| 0 <= at < items@.len() && items@[at] == other;
                    assert(items@[at] <= best);
                }
                assert(is_greatest(set@, best));
                let found = choose|item: usize| is_greatest(set@, item);
                assert(set@.contains(found) && found <= best);
                assert(set@.contains(best) && best <= found);
            },
            None => {
                assert forall|item: usize| !is_greatest(set@, item) by {
                    assert(!items@.to_set().contains(item));
                }
            },
        }
    }
    best
}

/// The last of the cells in reading order, if there are any.
fn last_of(set: &BTreeSet<(usize, usize)>) -> (item: Option<(usize, usize)>)
    ensures
        item == last_cell(set@),
{
    let items = members(set);
    let mut best: Option<(usize, usize)> = None;

    for i in 0..items.len()
        invariant
            match best {
                Some(best) => items@.take(i as int).contains(best) && forall|k: int|
                    0 <= k < i ==> reads_before(#[trigger] items@[k], best),
                None => i == 0,
            },
    {
        let item: (usize, usize) = items[i];
        let better = match best {
            Some(best) => item.0 > best.0 || (item.0 == best.0 && item.1 > best.1),
            None => true,
        };

        proof {
            assert(items@.take(i + 1)[i as int] == item);
            if let Some(best) = best {
                let at = choose|at: int| 0 <= at < i && items@.take(i as int)[at] == best;
                assert(items@.take(i + 1)[at] == best);
            }
        }
        if better {
            best = Some(item);
        }
    }
    proof {
        assert(items@.take(items@.len() as int) =~= items@);
        match best {
            Some(best) => {
                assert(items@.to_set().contains(best));
                assert forall|other: (usize, usize)| #[trigger]
                    set@.contains(other) implies reads_before(other, best) by {
                    let at = choose|at: int| 0 <= at < items@.len() && items@[at] == other;
                    assert(reads_before(items@[at], best));
                }
                assert(is_last(set@, best));
                let found = choose|cell: (usize, usize)| is_last(set@, cell);
                assert(is_last(set@, found));
                assert(reads_before(found, best) && reads_before(best, found));
                assert(found.0 == best.0 && found.1 == best.1);
                assert(found == best);
            },
            None => {
                assert forall|cell: (usize, usize)| !is_last(set@, cell) by {
                    assert(!items@.to_set().contains(cell));
                }
            },
        }
    }
    best
}

impl<E> DataTable<E> {
    /// Empty the two readings of the grid that are not this one, as far as they
    /// hold anything and somebody listens.
    pub open spec fn cleared(&self, kind: Kind, shell: Outcry) -> Outcry {
        let shell = say_if(
            kind != Kind::Cells && !self.selected_cells@.is_empty() && self.hears_cells,
            shell,
            Notice::Cells(Set::empty()),
        );
        let shell = say_if(
            kind != Kind::Rows && !self.selected@.is_empty() && self.hears_rows,
            shell,
            Notice::Rows(Set::empty()),
        );

        say_if(
            kind != Kind::Columns && !self.selected_columns@.is_empty() && self.hears_columns,
            shell,
            Notice::Columns(Set::empty()),
        )
    }

    /// A new selection of one reading: reported to whoever listens, the other two
    /// readings emptied, and the event claimed.
    pub open spec fn chosen(
        &self,
        kind: Kind,
        heard: bool,
        shell: Outcry,
        notice: Notice,
    ) -> Outcry {
        claim(self.cleared(kind, say_if(heard, shell, notice)))
    }

    /// Clear the two readings of the grid that are not this one.
    ///
    /// The table cannot change sets it does not own, so it reports empties
    /// instead -- guarded, to avoid a no-op every click.
    pub fn clear_except(&self, kind: Kind, shell: &mut Shell)
        ensures
            final(shell)@ == self.cleared(kind, old(shell)@),
    {
        if kind != Kind::Cells && !self.selected_cells.is_empty() && self.hears_cells {
            shell.publish(Report::Cells(BTreeSet::new()));
        }
        if kind != Kind::Rows && !self.selected.is_empty() && self.hears_rows {
            shell.publish(Report::Rows(BTreeSet::new()));
        }
        if kind != Kind::Columns && !self.selected_columns.is_empty() && self.hears_columns {
            shell.publish(Report::Columns(BTreeSet::new()));
        }
    }

    /// What a right-click means. A cell wins wherever cells can be selected and
    /// the pointer is inside a column; a gutter click has no column and means
    /// the row; a header click has no row and means the column.
    pub open spec fn pointed_at(&self, row: Option<usize>, column: Option<usize>) -> Option<Target> {
        if row is Some && column is Some && self.cell_mode != Mode::Off {
            Some(Target::Cell(CellPosition { row: row->0, column: column->0 }))
        } else if row is Some && self.mode != Mode::Off {
            Some(Target::Row(row->0))
        } else if row is None && column is Some && self.column_mode != Mode::Off {
            Some(Target::Column(column->0))
        } else {
            None
        }
    }

    /// Is the target part of the current selection?
    pub open spec fn has_selected(&self, target: Target) -> bool {
        match target {
            Target::Cell(position) => self.selected_cells@.contains(position@),
            Target::Row(row) => self.selected@.contains(row),
            Target::Column(column) => self.selected_columns@.contains(column),
        }
    }

    /// The target selected and nothing else, as far as somebody listens.
    pub open spec fn repointed(&self, target: Target, shell: Outcry) -> Outcry {
        let shell = if self.has_selected(target) {
            shell
        } else {
            match target {
                Target::Cell(position) => say_if(
                    self.hears_cells,
                    shell,
                    Notice::Cells(set![position@]),
                ),
                Target::Row(row) => say_if(self.hears_rows, shell, Notice::Rows(set![row])),
                Target::Column(column) => say_if(
                    self.hears_columns,
                    shell,
                    Notice::Columns(set![column]),
                ),
            }
        };

        self.cleared(kind_of(target), shell)
    }

    /// What a right-click makes of an event: the selection moves under the
    /// pointer unless it is there already, and the click is reported.
    pub open spec fn right_clicked(&self, input: Input, hits: Hits, before: Effect) -> Effect {
        if self.hears_right_click && input == Input::Pressed(Button::Right) && hits.over_table
            && hits.pointer is Some {
            let shell = match self.pointed_at(hits.row, hits.column) {
                Some(target) => self.repointed(target, before.shell),
                None => before.shell,
            };
            let click = Click {
                row: hits.row,
                column: hits.column,
                position: hits.pointer->0,
            };

            Effect {
                state: before.state,
                shell: Outcry { captured: true, ..say(shell, Notice::RightClick(click)) },
                done: true,
            }
        } else {
            before
        }
    }

    /// Report a right-click, with the selection moved under the pointer first,
    /// so a menu acts on what was actually clicked. Right-clicking one of
    /// several selected rows keeps all of them. Says whether the event was
    /// claimed.
    pub fn right_click(&self, input: &Input, hits: &Hits, state: &State, shell: &mut Shell) -> (done:
        bool)
        ensures
            effect(*state, *final(shell), done) == self.right_clicked(
                *input,
                *hits,
                effect(*state, *old(shell), false),
            ),
    {
        let pressed = match input {
            Input::Pressed(button) => match button {
                Button::Right => true,
                _ => false,
            },
            _ => false,
        };

        if !self.hears_right_click || !pressed || !hits.over_table {
            return false;
        }
        let point = match hits.pointer {
            Some(point) => point,
            None => {
                return false;
            },
        };

        match (hits.row, hits.column) {
            (Some(row), Some(column)) if self.cell_mode != Mode::Off => {
                if !self.selected_cells.contains(&(row, column)) && self.hears_cells {
                    shell.publish(Report::Cells(only((row, column))));
                }
                self.clear_except(Kind::Cells, shell);
            },
            (Some(row), _) if self.mode != Mode::Off => {
                if !self.selected.contains(&row) && self.hears_rows {
                    shell.publish(Report::Rows(only(row)));
                }
                self.clear_except(Kind::Rows, shell);
            },
            (None, Some(column)) if self.column_mode != Mode::Off => {
                if !self.selected_columns.contains(&column) && self.hears_columns {
                    shell.publish(Report::Columns(only(column)));
                }
                self.clear_except(Kind::Columns, shell);
            },
            _ => {},
        }
        shell.publish(
            Report::RightClick(Click { row: hits.row, column: hits.column, position: point }),
        );
        shell.captured = true;
        true
    }

    /// What a press on a cell makes of an event.
    pub open spec fn cell_pressed(
        &self,
        input: Input,
        hits: Hits,
        toggle: bool,
        extend: bool,
        before: Effect,
    ) -> Effect {
        if input == Input::Pressed(Button::Left) && self.cell_mode != Mode::Off && hits.over_body
            && hits.row is Some && hits.column is Some {
            let target = CellPosition { row: hits.row->0, column: hits.column->0 };
            let anchor = pair_of(before.state.cell_anchor);
            let current = self.selected_cells@;
            let wanted = clicked(
                self.cell_mode,
                current,
                anchor,
                target@,
                toggle,
                extend,
                block(origin(anchor, target@), target@),
            );
            let changed = wanted != (current, anchor);

            Effect {
                state: Model {
                    cell_anchor: if changed && wanted.1 is Some {
                        Some(position_of(wanted.1->0))
                    } else {
                        Some(target)
                    },
                    cell_focus: Some(target),
                    drag: Some(Sweep::Cells(if toggle { wanted.0 } else { Set::empty() })),
                    ..before.state
                },
                shell: claim(
                    self.cleared(
                        Kind::Cells,
                        say_if(changed && self.hears_cells, before.shell, Notice::Cells(wanted.0)),
                    ),
                ),
                done: true,
            }
        } else {
            before
        }
    }

    /// Select the cell that was pressed, and start a sweep from it. Says whether
    /// the event was claimed.
    ///
    /// Only presses *inside* a column are claimed: a press in a gutter finds no
    /// column and is left to the rows.
    pub fn press_cell(
        &self,
        input: &Input,
        hits: &Hits,
        toggle: bool,
        extend: bool,
        state: &mut State,
        shell: &mut Shell,
    ) -> (done: bool)
        ensures
            effect(*final(state), *final(shell), done) == self.cell_pressed(
                *input,
                *hits,
                toggle,
                extend,
                effect(*old(state), *old(shell), false),
            ),
    {
        if !left_press(input) || self.cell_mode == Mode::Off || !hits.over_body {
            return false;
        }
        if let (Some(row), Some(column)) = (hits.row, hits.column) {
            let target = CellPosition::new(row, column);
            let outcome = apply_cells(
                self.cell_mode,
                &self.selected_cells,
                state.cell_anchor,
                target,
                toggle,
                extend,
            );
            // The anchor moves even when the selection did not change, or a
            // plain click on the one selected cell would leave the next
            // Shift-click measuring from wherever the anchor last was.
            let anchor = match &outcome {
                Some(outcome) => match outcome.anchor {
                    Some(anchor) => CellPosition::new(anchor.0, anchor.1),
                    None => target,
                },
                None => target,
            };
            let base = if toggle {
                match &outcome {
                    Some(outcome) => outcome.selection.clone(),
                    None => self.selected_cells.clone(),
                }
            } else {
                BTreeSet::new()
            };

            state.cell_anchor = Some(anchor);
            state.cell_focus = Some(target);
            state.drag = Some(Drag::Cells(base));
            if let Some(outcome) = outcome {
                if self.hears_cells {
                    shell.publish(Report::Cells(outcome.selection));
                }
            }
            self.clear_except(Kind::Cells, shell);
            shell.claim();
            true
        } else {
            false
        }
    }

    /// What a sweep makes of an event: everything between the anchor and the
    /// pointer, together with what the drag started from. Where at most one item
    /// can be selected, that is the one under the pointer. What the sweep selects
    /// clears the other two readings.
    pub open spec fn swept(&self, input: Input, hits: Hits, before: Effect) -> Effect {
        let state = before.state;
        let shell = before.shell;

        if is_release(input) {
            Effect { state: Model { drag: None, ..state }, ..before }
        } else if is_motion(input) && hits.pointer is Some {
            match state.drag {
                Some(Sweep::Cells(base)) => if state.cell_anchor is Some && hits.row is Some
                    && hits.column is Some {
                    let target = CellPosition { row: hits.row->0, column: hits.column->0 };
                    let selection = if self.cell_mode == Mode::Single {
                        set![target@]
                    } else {
                        block(state.cell_anchor->0@, target@).union(base)
                    };

                    Effect {
                        state: Model { cell_focus: Some(target), ..state },
                        shell: if selection != self.selected_cells@ {
                            self.chosen(Kind::Cells, self.hears_cells, shell, Notice::Cells(selection))
                        } else {
                            Outcry { captured: true, ..shell }
                        },
                        done: true,
                    }
                } else {
                    before
                },
                Some(Sweep::Rows(base)) => if state.anchor is Some && hits.row is Some {
                    let selection = if self.mode == Mode::Single {
                        set![hits.row->0]
                    } else {
                        between(state.anchor->0, hits.row->0).union(base)
                    };

                    Effect {
                        state: Model { row_focus: hits.row, ..state },
                        shell: if selection != self.selected@ {
                            self.chosen(Kind::Rows, self.hears_rows, shell, Notice::Rows(selection))
                        } else {
                            Outcry { captured: true, ..shell }
                        },
                        done: true,
                    }
                } else {
                    before
                },
                Some(Sweep::Columns(base)) => if state.column_anchor is Some && hits.column
                    is Some {
                    let selection = if self.column_mode == Mode::Single {
                        set![hits.column->0]
                    } else {
                        between(state.column_anchor->0, hits.column->0).union(base)
                    };

                    Effect {
                        state: Model { column_focus: hits.column, ..state },
                        shell: if selection != self.selected_columns@ {
                            self.chosen(
                                Kind::Columns,
                                self.hears_columns,
                                shell,
                                Notice::Columns(selection),
                            )
                        } else {
                            Outcry { captured: true, ..shell }
                        },
                        done: true,
                    }
                } else {
                    before
                },
                None => before,
            }
        } else {
            before
        }
    }

    /// Continue an in-progress drag-select. Says whether the event was claimed.
    ///
    /// Every kind re-resolves from the anchor fixed at the press rather than
    /// accumulating, which is what lets a sweep give ground back when you drag
    /// toward where you started. A mode of at most one item has nothing to sweep
    /// over: there the item under the pointer is the selection. A release ends the
    /// drag but is left to others.
    pub fn sweep(&self, input: &Input, hits: &Hits, state: &mut State, shell: &mut Shell) -> (done:
        bool)
        ensures
            effect(*final(state), *final(shell), done) == self.swept(
                *input,
                *hits,
                effect(*old(state), *old(shell), false),
            ),
    {
        if release(input) {
            state.drag = None;
            return false;
        }
        if !motion(input) || hits.pointer.is_none() {
            return false;
        }
        match &state.drag {
            None => false,
            Some(Drag::Cells(base)) => {
                if let (Some(anchor), Some(row), Some(column)) = (
                    state.cell_anchor,
                    hits.row,
                    hits.column,
                ) {
                    let target = CellPosition::new(row, column);
                    let selection = if self.cell_mode == Mode::Single {
                        only(target.pair())
                    } else {
                        union(&rectangle(anchor, target), base)
                    };

                    state.cell_focus = Some(target);
                    if !same(&selection, &self.selected_cells) {
                        if self.hears_cells {
                            shell.publish(Report::Cells(selection));
                        }
                        self.clear_except(Kind::Cells, shell);
                        shell.redraw = true;
                    }
                    shell.captured = true;
                    true
                } else {
                    false
                }
            },
            Some(Drag::Rows(base)) => {
                if let (Some(anchor), Some(row)) = (state.anchor, hits.row) {
                    let selection = if self.mode == Mode::Single {
                        only(row)
                    } else {
                        union(&span(anchor, row), base)
                    };

                    state.row_focus = Some(row);
                    if !same(&selection, &self.selected) {
                        if self.hears_rows {
                            shell.publish(Report::Rows(selection));
                        }
                        self.clear_except(Kind::Rows, shell);
                        shell.redraw = true;
                    }
                    shell.captured = true;
                    true
                } else {
                    false
                }
            },
            Some(Drag::Columns(base)) => {
                if let (Some(anchor), Some(column)) = (state.column_anchor, hits.column) {
                    let selection = if self.column_mode == Mode::Single {
                        only(column)
                    } else {
                        union(&span(anchor, column), base)
                    };

                    state.column_focus = Some(column);
                    if !same(&selection, &self.selected_columns) {
                        if self.hears_columns {
                            shell.publish(Report::Columns(selection));
                        }
                        self.clear_except(Kind::Columns, shell);
                        shell.redraw = true;
                    }
                    shell.captured = true;
                    true
                } else {
                    false
                }
            },
        }
    }

    /// Where the keyboard steps a cell selection from: the end that moves, then
    /// the anchor, then the last selected cell, then the first cell there is.
    pub open spec fn cell_origin(&self, state: Model) -> CellPosition {
        match or(state.cell_focus, state.cell_anchor) {
            Some(position) => position,
            None => match last_cell(self.selected_cells@) {
                Some(pair) => position_of(pair),
                None => CellPosition { row: 0, column: 0 },
            },
        }
    }

    /// Where the keyboard steps a row selection from.
    pub open spec fn row_origin(&self, state: Model) -> usize {
        match or(state.row_focus, state.anchor) {
            Some(row) => row,
            None => match greatest(self.selected@) {
                Some(row) => row,
                None => 0,
            },
        }
    }

    /// What one step of the keyboard focus makes of the selection. Where many
    /// items can be selected, Shift spans from the anchor and leaves it where it
    /// is; a plain arrow drags anchor and focus along together, and so does any
    /// arrow where at most one item can be selected.
    pub open spec fn stepped_focus(
        &self,
        down: Step,
        across: Step,
        extend: bool,
        before: Effect,
    ) -> Effect {
        let state = before.state;
        let shell = before.shell;

        if self.columns@.len() == 0 || self.row_count == 0 {
            before
        } else if self.cell_mode != Mode::Off {
            let ranged = extend && self.cell_mode == Mode::Multiple;
            let from = self.cell_origin(state);
            let target = CellPosition {
                row: stepped(from.row, down, self.row_count) as usize,
                column: stepped(from.column, across, self.columns@.len() as usize) as usize,
            };
            let anchor = if ranged {
                match state.cell_anchor {
                    Some(anchor) => anchor,
                    None => from,
                }
            } else {
                target
            };
            let selection = if ranged {
                block(anchor@, target@)
            } else {
                set![target@]
            };

            Effect {
                state: Model { cell_anchor: Some(anchor), cell_focus: Some(target), ..state },
                shell: self.cleared(
                    Kind::Cells,
                    say_if(
                        selection != self.selected_cells@ && self.hears_cells,
                        Outcry { reveal: Some(Reveal::Cell(target)), ..shell },
                        Notice::Cells(selection),
                    ),
                ),
                done: true,
            }
        } else if self.mode != Mode::Off && down != Step::Stay {
            let ranged = extend && self.mode == Mode::Multiple;
            let from = self.row_origin(state);
            let target = stepped(from, down, self.row_count) as usize;
            let anchor = if ranged {
                match state.anchor {
                    Some(anchor) => anchor,
                    None => from,
                }
            } else {
                target
            };
            let selection = if ranged {
                between(anchor, target)
            } else {
                set![target]
            };

            Effect {
                state: Model { anchor: Some(anchor), row_focus: Some(target), ..state },
                shell: self.cleared(
                    Kind::Rows,
                    say_if(
                        selection != self.selected@ && self.hears_rows,
                        Outcry { reveal: Some(Reveal::Row(target)), ..shell },
                        Notice::Rows(selection),
                    ),
                ),
                done: true,
            }
        } else {
            before
        }
    }

    /// Move the keyboard focus by one step and re-select. Says whether anything
    /// was moved.
    ///
    /// Without cell selection the arrows drive rows; left and right have nothing
    /// to move along and are left for whatever else wants them.
    pub fn move_focus(
        &self,
        down: Step,
        across: Step,
        extend: bool,
        state: &mut State,
        shell: &mut Shell,
    ) -> (done: bool)
        ensures
            effect(*final(state), *final(shell), done) == self.stepped_focus(
                down,
                across,
                extend,
                effect(*old(state), *old(shell), false),
            ),
    {
        if self.columns.len() == 0 || self.row_count == 0 {
            return false;
        }
        if self.cell_mode != Mode::Off {
            self.step_cells(down, across, extend, state, shell);
            return true;
        }
        if self.mode != Mode::Off && down != Step::Stay {
            self.step_rows(down, across, extend, state, shell);
            return true;
        }
        false
    }

    #[verifier::rlimit(30)]
    fn step_cells(
        &self,
        down: Step,
        across: Step,
        extend: bool,
        state: &mut State,
        shell: &mut Shell,
    )
        requires
            self.columns@.len() > 0,
            self.row_count > 0,
            self.cell_mode != Mode::Off,
        ensures
            effect(*final(state), *final(shell), true) == self.stepped_focus(
                down,
                across,
                extend,
                effect(*old(state), *old(shell), false),
            ),
    {
        let ranged = extend && self.cell_mode == Mode::Multiple;
        let from = match (state.cell_focus, state.cell_anchor) {
            (Some(focus), _) => focus,
            (None, Some(anchor)) => anchor,
            (None, None) => match last_of(&self.selected_cells) {
                Some(pair) => CellPosition::new(pair.0, pair.1),
                None => CellPosition::new(0, 0),
            },
        };
        let target = CellPosition::new(
            step(from.row, down, self.row_count),
            step(from.column, across, self.columns.len()),
        );
        let anchor = if ranged {
            match state.cell_anchor {
                Some(anchor) => anchor,
                None => from,
            }
        } else {
            target
        };
        let selection = if ranged {
            rectangle(anchor, target)
        } else {
            only(target.pair())
        };

        assert(from == self.cell_origin(old(state)@));
        state.cell_anchor = Some(anchor);
        state.cell_focus = Some(target);
        shell.reveal = Some(Reveal::Cell(target));
        if !same(&selection, &self.selected_cells) && self.hears_cells {
            shell.publish(Report::Cells(selection));
        }
        self.clear_except(Kind::Cells, shell);
    }

    #[verifier::rlimit(30)]
    fn step_rows(
        &self,
        down: Step,
        across: Step,
        extend: bool,
        state: &mut State,
        shell: &mut Shell,
    )
        requires
            self.columns@.len() > 0,
            self.row_count > 0,
            self.cell_mode == Mode::Off,
            self.mode != Mode::Off,
            down != Step::Stay,
        ensures
            effect(*final(state), *final(shell), true) == self.stepped_focus(
                down,
                across,
                extend,
                effect(*old(state), *old(shell), false),
            ),
    {
        let ranged = extend && self.mode == Mode::Multiple;
        let from: usize = match (state.row_focus, state.anchor) {
            (Some(focus), _) => focus,
            (None, Some(anchor)) => anchor,
            (None, None) => match greatest_of(&self.selected) {
                Some(row) => row,
                None => 0,
            },
        };
        let target: usize = step(from, down, self.row_count);
        let anchor: usize = if ranged {
            match state.anchor {
                Some(anchor) => anchor,
                None => from,
            }
        } else {
            target
        };
        let selection = if ranged {
            span(anchor, target)
        } else {
            only(target)
        };

        assert(from == self.row_origin(old(state)@));
        state.anchor = Some(anchor);
        state.row_focus = Some(target);
        shell.reveal = Some(Reveal::Row(target));
        if !same(&selection, &self.selected) && self.hears_rows {
            shell.publish(Report::Rows(selection));
        }
        self.clear_except(Kind::Rows, shell);
    }

    /// Is nothing at all selected?
    pub open spec fn nothing_selected(&self) -> bool {
        self.selected_cells@.is_empty() && self.selected@.is_empty()
            && self.selected_columns@.is_empty()
    }

    /// What the keyboard makes of an event. `toggle` and `extend` say whether
    /// the command key and Shift are held with the key.
    pub open spec fn typed(&self, input: Input, toggle: bool, extend: bool, before: Effect) -> Effect {
        match input {
            Input::KeyPressed { key, .. } if before.state.focused => if toggle && types_c(key)
                && !self.nothing_selected() && self.hears_copy {
                Effect {
                    state: before.state,
                    shell: Outcry { captured: true, ..say(before.shell, Notice::Copy) },
                    done: true,
                }
            } else {
                match steps_of(key) {
                    Some((down, across)) => {
                        let after = self.stepped_focus(down, across, extend, before);

                        if after.done {
                            Effect { shell: claim(after.shell), ..after }
                        } else {
                            after
                        }
                    },
                    None => before,
                }
            },
            _ => before,
        }
    }

    /// Act on a key: copy, or move the focus. Says whether the event was
    /// claimed.
    pub fn type_key(
        &self,
        input: &Input,
        toggle: bool,
        extend: bool,
        state: &mut State,
        shell: &mut Shell,
    ) -> (done: bool)
        ensures
            effect(*final(state), *final(shell), done) == self.typed(
                *input,
                toggle,
                extend,
                effect(*old(state), *old(shell), false),
            ),
    {
        if let Input::KeyPressed { key, .. } = input {
            if state.focused {
                let empty = self.selected_cells.is_empty() && self.selected.is_empty()
                    && self.selected_columns.is_empty();

                if toggle && is_c(key) && !empty && self.hears_copy {
                    shell.publish(Report::Copy);
                    shell.captured = true;
                    return true;
                }
                if let Some((down, across)) = steps(key) {
                    if self.move_focus(down, across, extend, state, shell) {
                        shell.claim();
                        return true;
                    }
                }
            }
        }
        false
    }

    /// What the rows make of an event: the one under the pointer is hovered, or
    /// selected by a press.
    pub open spec fn row_pressed(
        &self,
        input: Input,
        hits: Hits,
        toggle: bool,
        extend: bool,
        before: Effect,
    ) -> Effect {
        let state = before.state;
        let shell = before.shell;

        if self.mode == Mode::Off {
            before
        } else if input is Moved {
            Effect {
                state: Model { hovered: hits.row, ..state },
                shell: Outcry { redraw: shell.redraw || state.hovered != hits.row, ..shell },
                done: before.done,
            }
        } else if input == Input::Pressed(Button::Left) && hits.row is Some {
            let row = hits.row->0;
            let current = self.selected@;
            let wanted = clicked(
                self.mode,
                current,
                state.anchor,
                row,
                toggle,
                extend,
                between(origin(state.anchor, row), row),
            );

            if wanted == (current, state.anchor) {
                before
            } else {
                Effect {
                    state: Model {
                        anchor: or(wanted.1, Some(row)),
                        row_focus: Some(row),
                        drag: Some(Sweep::Rows(if toggle { wanted.0 } else { Set::empty() })),
                        ..state
                    },
                    shell: claim(
                        self.cleared(
                            Kind::Rows,
                            say_if(self.hears_rows, shell, Notice::Rows(wanted.0)),
                        ),
                    ),
                    done: true,
                }
            }
        } else {
            before
        }
    }

    /// Hover the row under the pointer, or select it and start a sweep. Says
    /// whether the event was claimed.
    pub fn press_row(
        &self,
        input: &Input,
        hits: &Hits,
        toggle: bool,
        extend: bool,
        state: &mut State,
        shell: &mut Shell,
    ) -> (done: bool)
        ensures
            effect(*final(state), *final(shell), done) == self.row_pressed(
                *input,
                *hits,
                toggle,
                extend,
                effect(*old(state), *old(shell), false),
            ),
    {
        if self.mode == Mode::Off {
            return false;
        }
        if let Input::Moved = input {
            if state.hovered != hits.row {
                state.hovered = hits.row;
                shell.redraw = true;
            }
            return false;
        }
        if !left_press(input) {
            return false;
        }
        if let Some(row) = hits.row {
            if let Some(outcome) = apply(
                self.mode,
                &self.selected,
                state.anchor,
                row,
                toggle,
                extend,
            ) {
                let base = if toggle {
                    outcome.selection.clone()
                } else {
                    BTreeSet::new()
                };

                state.anchor = match outcome.anchor {
                    Some(anchor) => Some(anchor),
                    None => Some(row),
                };
                state.row_focus = Some(row);
                state.drag = Some(Drag::Rows(base));
                if self.hears_rows {
                    shell.publish(Report::Rows(outcome.selection));
                }
                self.clear_except(Kind::Rows, shell);
                shell.claim();
                return true;
            }
        }
        false
    }

    /// What the sort controls make of an event: the one under the pointer lights
    /// up, or steps to its column's next sort when pressed.
    pub open spec fn sort_pressed(&self, input: Input, hits: Hits, before: Effect) -> Effect {
        let state = before.state;
        let shell = before.shell;

        if !self.hears_sort {
            before
        } else if input is Moved {
            let control = if hits.pointer is Some {
                hits.control
            } else {
                None
            };

            Effect {
                state: Model { hovered_sort: control, ..state },
                shell: Outcry { redraw: shell.redraw || state.hovered_sort != control, ..shell },
                done: before.done,
            }
        } else if input == Input::Pressed(Button::Left) && hits.pointer is Some && hits.control
            is Some {
            Effect {
                state,
                shell: claim(say(shell, Notice::Sort(next_sort(self.sort, hits.control->0)))),
                done: true,
            }
        } else {
            before
        }
    }

    /// Light up the sort control under the pointer, or report the sort that
    /// pressing it asks for. Says whether the event was claimed.
    pub fn press_sort(&self, input: &Input, hits: &Hits, state: &mut State, shell: &mut Shell) -> (
        done: bool)
        ensures
            effect(*final(state), *final(shell), done) == self.sort_pressed(
                *input,
                *hits,
                effect(*old(state), *old(shell), false),
            ),
    {
        if !self.hears_sort {
            return false;
        }
        let control = if hits.pointer.is_some() {
            hits.control
        } else {
            None
        };

        if let Input::Moved = input {
            if state.hovered_sort != control {
                state.hovered_sort = control;
                shell.redraw = true;
            }
            return false;
        }
        if left_press(input) {
            if let Some(column) = control {
                shell.publish(Report::Sort(next(self.sort, column)));
                shell.claim();
                return true;
            }
        }
        false
    }

    /// What pressing a header cell asks the column selection to become: a leaf
    /// is one column, and a group all of its columns, except where only one
    /// column can be selected.
    pub open spec fn header_wants(
        &self,
        cell: HeaderCell,
        anchor: Option<usize>,
        toggle: bool,
        extend: bool,
    ) -> (Set<usize>, Option<usize>) {
        let current = self.selected_columns@;

        if cell.leaf {
            clicked(
                self.column_mode,
                current,
                anchor,
                cell.start,
                toggle,
                extend,
                between(origin(anchor, cell.start), cell.start),
            )
        } else if self.column_mode == Mode::Single {
            (set![cell.start], Some(cell.start))
        } else {
            clicked(
                self.column_mode,
                current,
                Some(cell.start),
                cell.end,
                toggle,
                true,
                between(cell.start, cell.end),
            )
        }
    }

    /// The anchor that the answer to a press on a header cell is held against.
    pub open spec fn header_anchor(&self, cell: HeaderCell, anchor: Option<usize>) -> Option<usize> {
        if cell.leaf || self.column_mode == Mode::Single {
            anchor
        } else {
            Some(cell.start)
        }
    }

    /// The column that a press on a header cell picks up, if it does: a plain
    /// press on a leaf that has somewhere else to go.
    pub open spec fn picked_up(
        &self,
        cell: HeaderCell,
        hits: Hits,
        toggle: bool,
        extend: bool,
    ) -> Option<Carry> {
        let slots = legal_slots(self.header_cells@, cell.start, self.sticky_columns);

        if self.hears_reorder && cell.leaf && !toggle && !extend && slots.len() > 1 {
            Some(
                Carry {
                    column: cell.start,
                    origin: match hits.pointer {
                        Some(point) => point.x,
                        None => zero(),
                    },
                    grab: hits.grip,
                    slots,
                    target: None,
                },
            )
        } else {
            None
        }
    }

    /// What the header makes of an event.
    pub open spec fn header_pressed(
        &self,
        input: Input,
        hits: Hits,
        toggle: bool,
        extend: bool,
        before: Effect,
    ) -> Effect {
        let state = before.state;
        let shell = before.shell;

        if self.column_mode != Mode::Off && input == Input::Pressed(Button::Left)
            && hits.header_cell is Some {
            let cell = self.header_cells@[hits.header_cell->0 as int];
            let wanted = self.header_wants(cell, state.column_anchor, toggle, extend);
            let reorder = or(self.picked_up(cell, hits, toggle, extend), state.reorder);

            if wanted == (self.selected_columns@, self.header_anchor(cell, state.column_anchor)) {
                Effect { state: Model { reorder, ..state }, ..before }
            } else {
                Effect {
                    state: Model {
                        reorder,
                        column_anchor: or(wanted.1, Some(cell.start)),
                        column_focus: Some(cell.end),
                        drag: if reorder is Some {
                            None
                        } else {
                            Some(Sweep::Columns(if toggle { wanted.0 } else { Set::empty() }))
                        },
                        ..state
                    },
                    shell: claim(
                        self.cleared(
                            Kind::Columns,
                            say_if(self.hears_columns, shell, Notice::Columns(wanted.0)),
                        ),
                    ),
                    done: true,
                }
            }
        } else {
            before
        }
    }

    /// Select the columns under the header cell that was pressed, and pick the
    /// column up or start a sweep. Says whether the event was claimed.
    ///
    /// A plain press on a leaf header arms a reorder, which only *becomes* one
    /// past the threshold. With a modifier held the gesture stays a selection
    /// sweep. Only one of the two at a time: they are the same gesture on the
    /// same pixels.
    pub fn press_header(
        &self,
        input: &Input,
        hits: &Hits,
        toggle: bool,
        extend: bool,
        state: &mut State,
        shell: &mut Shell,
    ) -> (done: bool)
        requires
            hits.header_cell matches Some(k) ==> k < self.header_cells@.len() && self.fits(),
        ensures
            effect(*final(state), *final(shell), done) == self.header_pressed(
                *input,
                *hits,
                toggle,
                extend,
                effect(*old(state), *old(shell), false),
            ),
    {
        if self.column_mode == Mode::Off || !left_press(input) {
            return false;
        }
        let cell = match hits.header_cell {
            Some(k) => self.header_cells[k],
            None => {
                return false;
            },
        };
        let outcome = if cell.leaf {
            apply(
                self.column_mode,
                &self.selected_columns,
                state.column_anchor,
                cell.start,
                toggle,
                extend,
            )
        } else if self.column_mode == Mode::Single {
            apply(
                self.column_mode,
                &self.selected_columns,
                state.column_anchor,
                cell.start,
                false,
                false,
            )
        } else {
            // A group covers its whole span, which is a range extension from
            // its first leaf to its last.
            apply(
                self.column_mode,
                &self.selected_columns,
                Some(cell.start),
                cell.end,
                toggle,
                true,
            )
        };

        if self.hears_reorder && cell.leaf && !toggle && !extend {
            let columns: usize = self.columns.len();

            assert(edges_fit(self.header_cells@)) by {
                assert forall|k: int| 0 <= k < self.header_cells@.len() implies (
                #[trigger] self.header_cells@[k]).end < usize::MAX by {
                    assert(inside(
                        self.header_cells@[k],
                        self.columns@.len(),
                        self.header_rows,
                    ));
                }
            }
            let slots = drop_slots(
                self.header_cells.as_slice(),
                cell.start,
                self.sticky_columns,
            );

            // More than one slot means at least one of them is a real move; a
            // lone slot is the column's own position.
            if slots.len() > 1 {
                let origin = match hits.pointer {
                    Some(point) => point.x,
                    None => Px::zero(),
                };

                state.reorder = Some(
                    ReorderDrag {
                        column: cell.start,
                        origin,
                        grab: hits.grip,
                        slots,
                        target: None,
                    },
                );
            }
        }
        if let Some(outcome) = outcome {
            state.column_anchor = match outcome.anchor {
                Some(anchor) => Some(anchor),
                None => Some(cell.start),
            };
            state.column_focus = Some(cell.end);
            state.drag = if state.reorder.is_some() {
                None
            } else if toggle {
                Some(Drag::Columns(outcome.selection.clone()))
            } else {
                Some(Drag::Columns(BTreeSet::new()))
            };
            if self.hears_columns {
                shell.publish(Report::Columns(outcome.selection));
            }
            self.clear_except(Kind::Columns, shell);
            shell.claim();
            true
        } else {
            false
        }
    }
}

} // verus!
