//! Dragging an edge, a column or a scrollbar.
//!
//! These come first: while one of them is under way the pointer may be over
//! anything, and everything it is over would happily claim the same movement.

use vstd::prelude::*;
use crate::header::{is_move, landing, landing_of, moves};
use crate::hit::{nearest, nearest_of};
use crate::interaction::{
    claim, say_if, Button, Carry, Effect, Hits, Input, Model, Notice, Outcry, ReorderDrag, Report,
    Resize, Shell, State, REORDER_THRESHOLD,
};
use crate::px::{below, larger, Point, Px};
use crate::sizing::pinned;
use crate::table::DataTable;

verus! {

/// Did the pointer move?
pub open spec fn is_motion(input: Input) -> bool {
    input is Moved || input is FingerMoved
}

/// Was the pointer let go?
pub open spec fn is_release(input: Input) -> bool {
    input == Input::Released(Button::Left) || input is FingerLifted || input is FingerLost
}

/// Did the pointer move?
pub fn motion(input: &Input) -> (motion: bool)
    ensures
        motion == is_motion(*input),
{
    match input {
        Input::Moved => true,
        Input::FingerMoved => true,
        _ => false,
    }
}

/// Was the pointer let go?
pub fn release(input: &Input) -> (released: bool)
    ensures
        released == is_release(*input),
{
    match input {
        Input::Released(button) => match button {
            Button::Left => true,
            _ => false,
        },
        Input::FingerLifted => true,
        Input::FingerLost => true,
        _ => false,
    }
}

/// Was the left button pressed?
pub fn left_press(input: &Input) -> (pressed: bool)
    ensures
        pressed == (*input == Input::Pressed(Button::Left)),
{
    match input {
        Input::Pressed(button) => match button {
            Button::Left => true,
            _ => false,
        },
        _ => false,
    }
}

/// What is kept track of whatever comes of the event: the modifiers that are
/// held, and whether the last click landed inside the table.
pub open spec fn noted(state: Model, input: Input, hits: Hits) -> Model {
    match input {
        Input::ModifiersChanged(modifiers) => Model { modifiers, ..state },
        Input::Pressed(_) => Model { focused: hits.over_table, ..state },
        _ => state,
    }
}

/// Keep track of the modifiers that are held and of the focus.
///
/// Done first: every later step can claim the event, and a missed change would
/// leave Shift stuck in whatever state it was last seen in.
pub fn track(input: &Input, hits: &Hits, state: &mut State)
    ensures
        final(state)@ == noted(old(state)@, *input, *hits),
{
    match input {
        Input::ModifiersChanged(modifiers) => {
            state.modifiers = *modifiers;
        },
        Input::Pressed(_) => {
            state.focused = hits.over_table;
        },
        _ => {},
    }
}

/// What resizing makes of an event. `widths` is how wide each column is, and
/// `reach` how wide the pointer has dragged the one being resized.
pub open spec fn resized(
    resizable: bool,
    floor: Px,
    input: Input,
    hits: Hits,
    widths: Seq<Px>,
    reach: Px,
    before: Effect,
) -> Effect {
    let state = before.state;
    let shell = before.shell;

    if !resizable {
        before
    } else if is_motion(input) && state.resizing is Some && hits.pointer is Some {
        let column = state.resizing->0.column;
        let overrides = if column < state.overrides.len() {
            state.overrides.update(column as int, Some(larger(reach, floor)))
        } else {
            state.overrides
        };

        Effect {
            state: Model { overrides, ..state },
            shell: claim(Outcry { relayout: true, ..shell }),
            done: true,
        }
    } else if input == Input::Pressed(Button::Left) && hits.pointer is Some && hits.edge is Some {
        let column = hits.edge->0;

        Effect {
            state: Model {
                overrides: Seq::new(
                    state.overrides.len(),
                    |i: int| pinned(state.overrides, widths, i),
                ),
                resizing: Some(
                    Resize {
                        column,
                        origin_x: hits.pointer->0.x,
                        origin_width: widths[column as int],
                    },
                ),
                ..state
            },
            shell: claim(Outcry { relayout: true, ..shell }),
            done: true,
        }
    } else if input == Input::Released(Button::Left) && state.resizing is Some {
        Effect {
            state: Model { resizing: None, ..state },
            shell: Outcry { redraw: true, ..shell },
            done: before.done,
        }
    } else {
        before
    }
}

/// What carrying a column makes of an event. `travel` is how far the pointer is
/// from where the column was picked up, and `distances` how far from each slot.
pub open spec fn carried(
    hears_reorder: bool,
    input: Input,
    hits: Hits,
    travel: Px,
    distances: Seq<Px>,
    before: Effect,
) -> Effect {
    let state = before.state;
    let shell = before.shell;

    match state.reorder {
        None => before,
        Some(carry) => if is_motion(input) {
            if hits.pointer is None || below(travel, Px { bits: REORDER_THRESHOLD }) {
                before
            } else {
                Effect {
                    state: Model {
                        reorder: Some(
                            Carry { target: nearest_of(carry.slots, distances), ..carry },
                        ),
                        ..state
                    },
                    shell: claim(shell),
                    done: true,
                }
            }
        } else if is_release(input) {
            let put_down = Model { reorder: None, ..state };

            match carry.target {
                Some(slot) if moves(carry.column as int, slot as int) => Effect {
                    state: put_down,
                    shell: claim(
                        say_if(
                            hears_reorder,
                            shell,
                            Notice::Reorder {
                                from: carry.column,
                                to: landing_of(carry.column as int, slot as int) as usize,
                            },
                        ),
                    ),
                    done: true,
                },
                _ => Effect {
                    state: put_down,
                    shell: Outcry { redraw: true, ..shell },
                    done: before.done,
                },
            }
        } else {
            before
        },
    }
}

/// A scrollbar, and what becomes of the offset when its thumb is dragged.
#[derive(Debug, Clone, Copy, PartialEq)]
pub struct Bar {
    /// Is the pointer on the track, and on the thumb?
    pub on_track: bool,
    pub on_thumb: bool,
    /// How far the pointer is into the thumb, and where the middle of it is.
    pub hold: Px,
    pub centre: Px,
    /// The offset that keeps the thumb under the pointer as it was grabbed, and
    /// the one that puts the middle of the thumb there.
    pub follow: Px,
    pub jump: Px,
}

/// What the scrollbars make of an event.
pub open spec fn scrolled(
    input: Input,
    hits: Hits,
    vertical: Option<Bar>,
    horizontal: Option<Bar>,
    before: Effect,
) -> Effect {
    let state = before.state;
    let shell = before.shell;

    if is_motion(input) && hits.pointer is Some {
        if state.y_grab is Some && vertical is Some {
            Effect {
                state: Model { offset: Point { y: vertical->0.follow, ..state.offset }, ..state },
                shell: claim(shell),
                done: true,
            }
        } else if state.x_grab is Some && horizontal is Some {
            Effect {
                state: Model { offset: Point { x: horizontal->0.follow, ..state.offset }, ..state },
                shell: claim(shell),
                done: true,
            }
        } else {
            before
        }
    } else if (input == Input::Pressed(Button::Left) || input is FingerPressed) && hits.pointer
        is Some {
        if vertical is Some && vertical->0.on_track {
            let bar = vertical->0;

            Effect {
                state: if bar.on_thumb {
                    Model { y_grab: Some(bar.hold), ..state }
                } else {
                    Model {
                        y_grab: Some(bar.centre),
                        offset: Point { y: bar.jump, ..state.offset },
                        ..state
                    }
                },
                shell: claim(shell),
                done: true,
            }
        } else if horizontal is Some && horizontal->0.on_track {
            let bar = horizontal->0;

            Effect {
                state: if bar.on_thumb {
                    Model { x_grab: Some(bar.hold), ..state }
                } else {
                    Model {
                        x_grab: Some(bar.centre),
                        offset: Point { x: bar.jump, ..state.offset },
                        ..state
                    }
                },
                shell: claim(shell),
                done: true,
            }
        } else {
            before
        }
    } else if is_release(input) {
        Effect {
            state: Model { y_grab: None, x_grab: None, ..state },
            shell: Outcry {
                redraw: shell.redraw || state.y_grab is Some || state.x_grab is Some,
                ..shell
            },
            done: before.done,
        }
    } else {
        before
    }
}

/// The state and the shell as an effect.
pub open spec fn effect(state: State, shell: Shell, done: bool) -> Effect {
    Effect { state: state@, shell: shell@, done }
}

impl<E> DataTable<E> {
    /// Drag a column edge. Says whether the event was claimed.
    ///
    /// A press on an edge pins every column to the width it has; from there the
    /// pointer drags the one column, measured from where the drag started.
    pub fn resize(
        &self,
        input: &Input,
        hits: &Hits,
        widths: &[Px],
        reach: Px,
        state: &mut State,
        shell: &mut Shell,
    ) -> (done: bool)
        requires
            hits.edge matches Some(edge) ==> edge < widths@.len(),
        ensures
            effect(*final(state), *final(shell), done) == resized(
                self.resizable,
                self.min_column_width,
                *input,
                *hits,
                widths@,
                reach,
                effect(*old(state), *old(shell), false),
            ),
    {
        if !self.resizable {
            return false;
        }
        if motion(input) {
            if let Some(resize) = state.resizing {
                if hits.pointer.is_some() {
                    state.widths.drag(resize.column, reach, self.min_column_width);
                    shell.relayout = true;
                    shell.claim();
                    return true;
                }
            }
            return false;
        }
        if left_press(input) {
            if let (Some(point), Some(column)) = (hits.pointer, hits.edge) {
                state.widths.pin(widths);
                state.resizing = Some(
                    Resize { column, origin_x: point.x, origin_width: widths[column] },
                );
                shell.relayout = true;
                shell.claim();
                return true;
            }
            return false;
        }
        if let Input::Released(button) = input {
            if let Button::Left = button {
                if state.resizing.is_some() {
                    state.resizing = None;
                    shell.redraw = true;
                }
            }
        }
        false
    }

    /// Continue an in-progress column reorder. Says whether the event was
    /// claimed.
    ///
    /// Below the threshold this is still a click: committing to a drag on the
    /// first pixel of movement would make a header impossible to click without
    /// nudging a column. A column put back down where it started is no move
    /// either.
    pub fn drag_reorder(
        &self,
        input: &Input,
        hits: &Hits,
        travel: Px,
        distances: &[Px],
        state: &mut State,
        shell: &mut Shell,
    ) -> (done: bool)
        ensures
            effect(*final(state), *final(shell), done) == carried(
                self.hears_reorder,
                *input,
                *hits,
                travel,
                distances@,
                effect(*old(state), *old(shell), false),
            ),
    {
        let carry = match state.reorder.take() {
            Some(carry) => carry,
            None => {
                assert(state@ == old(state)@);
                return false;
            },
        };

        if motion(input) {
            if hits.pointer.is_none() || travel.is_below(Px { bits: REORDER_THRESHOLD }) {
                state.reorder = Some(carry);
                assert(state@ == old(state)@);
                return false;
            }
            let target = nearest(carry.slots.as_slice(), distances);

            state.reorder = Some(
                ReorderDrag {
                    column: carry.column,
                    origin: carry.origin,
                    grab: carry.grab,
                    slots: carry.slots,
                    target,
                },
            );
            shell.claim();
            true
        } else if release(input) {
            if let Some(slot) = carry.target {
                if is_move(carry.column, slot) {
                    let to: usize = landing(carry.column, slot);

                    if self.hears_reorder {
                        shell.publish(Report::Reorder { from: carry.column, to });
                    }
                    shell.claim();
                    return true;
                }
            }
            shell.redraw = true;
            false
        } else {
            state.reorder = Some(carry);
            assert(state@ == old(state)@);
            false
        }
    }
}

/// Drag a scrollbar. Says whether the event was claimed.
///
/// Clicking the track jumps the thumb to the pointer and then drags from its
/// centre.
pub fn drag_bars(
    input: &Input,
    hits: &Hits,
    vertical: Option<Bar>,
    horizontal: Option<Bar>,
    state: &mut State,
    shell: &mut Shell,
) -> (done: bool)
    ensures
        effect(*final(state), *final(shell), done) == scrolled(
            *input,
            *hits,
            vertical,
            horizontal,
            effect(*old(state), *old(shell), false),
        ),
{
    if motion(input) {
        if hits.pointer.is_some() {
            if let (Some(_), Some(bar)) = (state.y_grab, vertical) {
                state.offset.y = bar.follow;
                shell.claim();
                return true;
            }
            if let (Some(_), Some(bar)) = (state.x_grab, horizontal) {
                state.offset.x = bar.follow;
                shell.claim();
                return true;
            }
        }
        return false;
    }
    let pressed = match input {
        Input::FingerPressed => true,
        _ => left_press(input),
    };

    if pressed {
        if hits.pointer.is_some() {
            if let Some(bar) = vertical {
                if bar.on_track {
                    if bar.on_thumb {
                        state.y_grab = Some(bar.hold);
                    } else {
                        state.offset.y = bar.jump;
                        state.y_grab = Some(bar.centre);
                    }
                    shell.claim();
                    return true;
                }
            }
            if let Some(bar) = horizontal {
                if bar.on_track {
                    if bar.on_thumb {
                        state.x_grab = Some(bar.hold);
                    } else {
                        state.offset.x = bar.jump;
                        state.x_grab = Some(bar.centre);
                    }
                    shell.claim();
                    return true;
                }
            }
        }
        return false;
    }
    if release(input) {
        if state.y_grab.is_some() || state.x_grab.is_some() {
            shell.redraw = true;
        }
        state.y_grab = None;
        state.x_grab = None;
    }
    false
}

} // verus!
