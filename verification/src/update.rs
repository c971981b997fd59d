//! The order in which an event is acted on.
//!
//! Dragging comes before the cells' own contents see the event, selecting after
//! they had their chance to claim it, and the wheel last of all.

use vstd::prelude::*;
use crate::dragging::{carried, drag_bars, effect, noted, resized, scrolled, track, Bar};
use crate::interaction::{claim, Effect, Hits, Input, Model, Outcry, Shell, State};
use crate::keys::{command, shift, CTRL, LOGO, SHIFT};
use crate::px::{at_most, same_place, zero, Point, Px};
use crate::scroll::{bring_into_view, clamp_offset, clamped, revealed, turned, wheel, Span};
use crate::table::DataTable;

verus! {

/// What dragging needs to know of the layout.
#[derive(Debug)]
pub struct Drags {
    /// How wide each column is.
    pub widths: Vec<Px>,
    /// How wide the pointer has dragged the column being resized.
    pub reach: Px,
    /// How far the pointer is from where the carried column was picked up.
    pub travel: Px,
    /// How far the pointer is from each slot of the carried column.
    pub distances: Vec<Px>,
    pub vertical: Option<Bar>,
    pub horizontal: Option<Bar>,
}

/// Could this be the answer to whether the command key is held? It is the logo
/// key on one platform and the Control key on the others.
pub open spec fn may_command(modifiers: u32, held: bool) -> bool {
    held == (modifiers & CTRL == CTRL) || held == (modifiers & LOGO == LOGO)
}

/// Is Shift held?
pub open spec fn shifted(modifiers: u32) -> bool {
    modifiers & SHIFT == SHIFT
}

/// The modifiers that were held when a key was pressed.
pub open spec fn key_modifiers(input: Input) -> u32 {
    match input {
        Input::KeyPressed { modifiers, .. } => modifiers,
        _ => 0,
    }
}

impl<E> DataTable<E> {
    /// What comes of an event before the cells' contents see it: resizing, then
    /// carrying a column, then the scrollbars, up to the first that claims it.
    pub open spec fn begun(&self, input: Input, hits: Hits, drags: Drags, before: Effect) -> Effect {
        let start = Effect { state: noted(before.state, input, hits), ..before };
        let first = resized(
            self.resizable,
            self.min_column_width,
            input,
            hits,
            drags.widths@,
            drags.reach,
            start,
        );

        if first.done {
            first
        } else {
            let second = carried(
                self.hears_reorder,
                input,
                hits,
                drags.travel,
                drags.distances@,
                first,
            );

            if second.done {
                second
            } else {
                scrolled(input, hits, drags.vertical, drags.horizontal, second)
            }
        }
    }

    /// Act on an event before the cells' contents see it. Says whether it was
    /// claimed, so that they are not to see it at all.
    pub fn before_children(
        &self,
        input: &Input,
        hits: &Hits,
        drags: &Drags,
        state: &mut State,
        shell: &mut Shell,
    ) -> (done: bool)
        requires
            hits.edge matches Some(edge) ==> edge < drags.widths@.len(),
        ensures
            effect(*final(state), *final(shell), done) == self.begun(
                *input,
                *hits,
                *drags,
                effect(*old(state), *old(shell), false),
            ),
    {
        track(input, hits, state);
        if self.resize(input, hits, drags.widths.as_slice(), drags.reach, state, shell) {
            return true;
        }
        if self.drag_reorder(input, hits, drags.travel, drags.distances.as_slice(), state, shell) {
            return true;
        }
        drag_bars(input, hits, drags.vertical, drags.horizontal, state, shell)
    }

    /// What comes of an event that nothing in the cells claimed: a right-click,
    /// the cells, a sweep, the keyboard, the rows, the sort controls, the header,
    /// up to the first that claims it.
    pub open spec fn finished(
        &self,
        input: Input,
        hits: Hits,
        toggle: bool,
        extend: bool,
        key_toggle: bool,
        key_extend: bool,
        before: Effect,
    ) -> Effect {
        let menu = self.right_clicked(input, hits, before);

        if menu.done {
            menu
        } else {
            let cell = self.cell_pressed(input, hits, toggle, extend, menu);

            if cell.done {
                cell
            } else {
                let sweep = self.swept(input, hits, cell);

                if sweep.done {
                    sweep
                } else {
                    let key = self.typed(input, key_toggle, key_extend, sweep);

                    if key.done {
                        key
                    } else {
                        let row = self.row_pressed(input, hits, toggle, extend, key);

                        if row.done {
                            row
                        } else {
                            let sort = self.sort_pressed(input, hits, row);

                            if sort.done {
                                sort
                            } else {
                                self.header_pressed(input, hits, toggle, extend, sort)
                            }
                        }
                    }
                }
            }
        }
    }

    /// Act on an event that nothing in the cells claimed. Says whether it was
    /// claimed.
    pub fn after_children(
        &self,
        input: &Input,
        hits: &Hits,
        state: &mut State,
        shell: &mut Shell,
    ) -> (done: bool)
        requires
            hits.header_cell matches Some(k) ==> k < self.header_cells@.len() && self.fits(),
        ensures
            exists|toggle: bool, key_toggle: bool|
                {
                    &&& may_command(old(state).modifiers, toggle)
                    &&& may_command(key_modifiers(*input), key_toggle)
                    &&& effect(*final(state), *final(shell), done) == #[trigger] self.finished(
                        *input,
                        *hits,
                        toggle,
                        shifted(old(state).modifiers),
                        key_toggle,
                        shifted(key_modifiers(*input)),
                        effect(*old(state), *old(shell), false),
                    )
                },
    {
        let key_held: u32 = match input {
            Input::KeyPressed { modifiers, .. } => *modifiers,
            _ => 0,
        };
        let toggle = command(state.modifiers);
        let extend = shift(state.modifiers);
        let key_toggle = command(key_held);
        let key_extend = shift(key_held);
        let done = self.act(input, hits, toggle, extend, key_toggle, key_extend, state, shell);

        assert(effect(*state, *shell, done) == self.finished(
            *input,
            *hits,
            toggle,
            shifted(old(state).modifiers),
            key_toggle,
            shifted(key_modifiers(*input)),
            effect(*old(state), *old(shell), false),
        ));
        done
    }

    /// Act on an event that nothing in the cells claimed, given whether the
    /// command key and Shift are held, and were held with the key. Says whether
    /// it was claimed.
    pub fn act(
        &self,
        input: &Input,
        hits: &Hits,
        toggle: bool,
        extend: bool,
        key_toggle: bool,
        key_extend: bool,
        state: &mut State,
        shell: &mut Shell,
    ) -> (done: bool)
        requires
            hits.header_cell matches Some(k) ==> k < self.header_cells@.len() && self.fits(),
        ensures
            effect(*final(state), *final(shell), done) == self.finished(
                *input,
                *hits,
                toggle,
                extend,
                key_toggle,
                key_extend,
                effect(*old(state), *old(shell), false),
            ),
    {
        if self.right_click(input, hits, state, shell) {
            return true;
        }
        if self.press_cell(input, hits, toggle, extend, state, shell) {
            return true;
        }
        if self.sweep(input, hits, state, shell) {
            return true;
        }
        if self.type_key(input, key_toggle, key_extend, state, shell) {
            return true;
        }
        if self.press_row(input, hits, toggle, extend, state, shell) {
            return true;
        }
        if self.press_sort(input, hits, state, shell) {
            return true;
        }
        self.press_header(input, hits, toggle, extend, state, shell)
    }
}

/// Does the wheel scroll the table?
pub open spec fn wheel_is_free(input: Input, hits: Hits, shell: Outcry) -> bool {
    input is Wheel && hits.over_table && !shell.captured
}

/// Does the wheel scroll the table? Only over it, and only if nothing else has
/// claimed the event.
pub fn wheel_scrolls(input: &Input, hits: &Hits, shell: &Shell) -> (scrolls: bool)
    ensures
        scrolls == wheel_is_free(*input, *hits, shell@),
{
    match input {
        Input::Wheel => hits.over_table && !shell.captured,
        _ => false,
    }
}

/// What a turn of the wheel scrolls by on each axis, with the modifiers that are
/// held.
pub fn wheel_turn(x: Px, y: Px, lines: bool, mac: bool, state: &State) -> (delta: Point)
    ensures
        delta == turned(x, y, lines, mac, shifted(state.modifiers)),
{
    wheel(x, y, lines, mac, shift(state.modifiers))
}

/// What scrolling to an offset makes of the state and of what comes of the event.
pub open spec fn scrolled_to(target: Point, limit: Point, state: Model, shell: Outcry) -> (
    Model,
    Outcry,
) {
    (
        Model { offset: clamped(target, limit), ..state },
        if !same_place(clamped(target, limit), state.offset) {
            claim(shell)
        } else {
            shell
        },
    )
}

/// Scroll to an offset, as far as it is in range. The event is claimed only
/// where that scrolls at all, so that a wheel at the end of the table is left
/// to what is around it.
pub fn scroll_to(target: Point, limit: Point, state: &mut State, shell: &mut Shell)
    requires
        at_most(zero(), limit.x),
        at_most(zero(), limit.y),
    ensures
        final(state)@ == scrolled_to(target, limit, old(state)@, old(shell)@).0,
        final(shell)@ == scrolled_to(target, limit, old(state)@, old(shell)@).1,
{
    let offset = clamp_offset(target, limit);

    if !offset.coincides(state.offset) {
        shell.claim();
    }
    state.offset = offset;
}

/// The state once a row has been brought into view.
pub open spec fn row_revealed(rows: Span, limit: Point, state: Model) -> Model {
    Model {
        offset: clamped(
            Point { x: state.offset.x, y: revealed(state.offset.y, rows) },
            limit,
        ),
        ..state
    }
}

/// Scroll the least amount that brings a row fully into view.
pub fn reveal_row(rows: Span, limit: Point, state: &mut State)
    requires
        at_most(zero(), limit.x),
        at_most(zero(), limit.y),
    ensures
        final(state)@ == row_revealed(rows, limit, old(state)@),
{
    let target = Point { x: state.offset.x, y: bring_into_view(state.offset.y, rows) };

    state.offset = clamp_offset(target, limit);
}

/// The state once a column has been brought into view.
pub open spec fn column_revealed(
    column: usize,
    sticky_columns: usize,
    columns: usize,
    across: Span,
    limit: Point,
    state: Model,
) -> Model {
    if column < sticky_columns || column >= columns {
        state
    } else {
        Model {
            offset: clamped(
                Point { x: revealed(state.offset.x, across), y: state.offset.y },
                limit,
            ),
            ..state
        }
    }
}

/// Scroll the least amount that brings a column fully into view. A frozen
/// column is on screen by definition, and is not scrolled to.
pub fn reveal_column(
    column: usize,
    sticky_columns: usize,
    columns: usize,
    across: Span,
    limit: Point,
    state: &mut State,
)
    requires
        at_most(zero(), limit.x),
        at_most(zero(), limit.y),
    ensures
        final(state)@ == column_revealed(
            column,
            sticky_columns,
            columns,
            across,
            limit,
            old(state)@,
        ),
{
    if column < sticky_columns || column >= columns {
        return;
    }
    let target = Point { x: bring_into_view(state.offset.x, across), y: state.offset.y };

    state.offset = clamp_offset(target, limit);
}

/// What the pointer looks like.
#[derive(Debug, Clone, Copy, PartialEq, Eq, Structural)]
pub enum Shape {
    /// It holds on to something.
    Grabbing,
    /// It is on a column edge, or dragging one.
    Resizing,
    /// It is on a scrollbar.
    Idle,
    /// Whatever the cell contents under it say.
    Contents,
}

/// What the pointer looks like.
pub open spec fn shape_of(resizable: bool, hits: Hits, on_bar: bool, state: Model) -> Shape {
    if state.y_grab is Some || state.x_grab is Some || (state.reorder matches Some(carry)
        && carry.target is Some) {
        Shape::Grabbing
    } else if resizable && (state.resizing is Some || (hits.pointer is Some && hits.edge is Some)) {
        Shape::Resizing
    } else if hits.pointer is Some && on_bar {
        Shape::Idle
    } else {
        Shape::Contents
    }
}

/// What the pointer looks like. `on_bar` says whether it is on a scrollbar.
pub fn pointer_shape(resizable: bool, hits: &Hits, on_bar: bool, state: &State) -> (shape: Shape)
    ensures
        shape == shape_of(resizable, *hits, on_bar, state@),
{
    let carrying = match &state.reorder {
        Some(carry) => carry.target.is_some(),
        None => false,
    };

    if state.y_grab.is_some() || state.x_grab.is_some() || carrying {
        return Shape::Grabbing;
    }
    if resizable && (state.resizing.is_some() || (hits.pointer.is_some() && hits.edge.is_some())) {
        return Shape::Resizing;
    }
    if hits.pointer.is_some() && on_bar {
        return Shape::Idle;
    }
    Shape::Contents
}

} // verus!
