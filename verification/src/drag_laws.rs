//! What dragging does, seen from the event and from what comes of it.
//!
//! The statements are about everything that happens to an event before the cells'
//! contents see it, and they speak of places, widths and offsets as such.

use vstd::prelude::*;
use crate::interaction::{Button, Carry, Effect, Hits, Input, Model, Notice, Resize};
use crate::px::{below, total_rank, Px};
use crate::table::DataTable;
use crate::update::Drags;

verus! {

/// The columns, numbered from the left, once the one at `from` has been taken out
/// and put back in at `to`.
pub open spec fn renumbered(columns: nat, from: int, to: int) -> Seq<int> {
    Seq::new(columns, |i: int| i).remove(from).insert(to, from)
}

/// Is the column in the gap left of column `slot` once it has been moved from
/// `from` to `to`: everything that was left of the gap before it, and everything
/// that was right of the gap behind it?
pub open spec fn lands_in_gap(columns: nat, from: int, to: int, slot: int) -> bool {
    let order = renumbered(columns, from, to);

    &&& 0 <= to < columns
    &&& order.len() == columns
    &&& order[to] == from
    &&& forall|p: int| 0 <= p < to ==> #[trigger] order[p] < slot
    &&& forall|p: int| to < p < columns ==> #[trigger] order[p] >= slot
}

/// Letting go of a carried column puts it down. Where its target is a gap that it
/// is not next to already, that is reported as the one move which takes the column
/// into that gap, leftward and rightward alike; otherwise nothing is reported.
pub proof fn a_dropped_column_lands_in_its_gap<E>(
    table: DataTable<E>,
    input: Input,
    hits: Hits,
    drags: Drags,
    carry: Carry,
    columns: nat,
    before: Effect,
)
    requires
        input == Input::Released(Button::Left) || input is FingerLifted || input is FingerLost,
        before.state.reorder == Some(carry),
        !before.done,
        carry.column < columns <= usize::MAX,
        carry.target matches Some(slot) ==> slot <= columns,
    ensures
        ({
            let after = table.begun(input, hits, drags, before);

            &&& after.state.reorder is None
            &&& match carry.target {
                Some(slot) => if slot == carry.column || slot == carry.column + 1 {
                    after.shell.said == before.shell.said
                } else {
                    &&& after.done
                    &&& after.shell.captured && after.shell.redraw
                    &&& if table.hears_reorder {
                        &&& after.shell.said.len() == before.shell.said.len() + 1
                        &&& after.shell.said.drop_last() == before.shell.said
                        &&& after.shell.said.last() matches Notice::Reorder { from, to }
                            && from == carry.column && lands_in_gap(
                            columns,
                            from as int,
                            to as int,
                            slot as int,
                        )
                    } else {
                        after.shell.said == before.shell.said
                    }
                },
                None => after.shell.said == before.shell.said,
            }
        }),
{
    let after = table.begun(input, hits, drags, before);

    if let Some(slot) = carry.target {
        if slot != carry.column && slot != carry.column + 1 {
            let to = if slot > carry.column {
                slot - 1
            } else {
                slot as int
            };
            let order = renumbered(columns, carry.column as int, to);
            let plain = Seq::new(columns, |i: int| i).remove(carry.column as int);

            assert forall|p: int| 0 <= p < to implies #[trigger] order[p] < slot by {
                assert(order[p] == plain[p]);
            }
            assert forall|p: int| to < p < columns implies #[trigger] order[p] >= slot by {
                assert(order[p] == plain[p - 1]);
            }
            if table.hears_reorder {
                assert(after.shell.said.drop_last() =~= before.shell.said);
            }
        }
    }
}

/// Only one place of a column is in a gap: a move that takes it into the gap is
/// determined by where the gap is.
pub proof fn one_move_leads_into_a_gap(columns: nat, from: int, slot: int, one: int, other: int)
    requires
        0 <= from < columns,
        0 <= slot <= columns,
        slot != from && slot != from + 1,
        lands_in_gap(columns, from, one, slot),
        lands_in_gap(columns, from, other, slot),
    ensures
        one == other,
{
    neither_is_lower(columns, from, slot, one, other);
    neither_is_lower(columns, from, slot, other, one);
}

proof fn neither_is_lower(columns: nat, from: int, slot: int, low: int, high: int)
    requires
        0 <= from < columns,
        lands_in_gap(columns, from, low, slot),
        lands_in_gap(columns, from, high, slot),
    ensures
        low >= high,
{
    if low < high {
        let plain = Seq::new(columns, |i: int| i).remove(from);
        let one = renumbered(columns, from, low);
        let two = renumbered(columns, from, high);

        assert(one[low + 1] == plain[low]);
        assert(two[low] == plain[low]);
    }
}

/// Does everything but the carried column stay as it is?
pub open spec fn only_reorder_differs(before: Model, after: Model) -> bool {
    after == (Model { reorder: after.reorder, ..before })
}

/// A carried column aims at the nearest of the slots it was offered, the first of
/// those that are as near, once the pointer is four pixels from where it was picked
/// up. Before that the press is still a click, and nothing happens.
pub proof fn a_carried_column_aims_at_the_nearest_slot<E>(
    table: DataTable<E>,
    input: Input,
    hits: Hits,
    drags: Drags,
    carry: Carry,
    before: Effect,
)
    requires
        input is Moved || input is FingerMoved,
        before.state.reorder == Some(carry),
        before.state.resizing is None,
        before.state.y_grab is None && before.state.x_grab is None,
        !before.done,
        hits.pointer is Some,
        carry.slots.len() == drags.distances@.len(),
        carry.slots.len() > 0,
    ensures
        ({
            let after = table.begun(input, hits, drags, before);
            let far = drags.distances@;

            &&& after.shell.said == before.shell.said
            &&& only_reorder_differs(before.state, after.state)
            &&& if below(drags.travel, Px { bits: 0x4080_0000 }) {
                !after.done && after.state == before.state
            } else {
                &&& after.done
                &&& after.state.reorder == Some(
                    Carry { target: after.state.reorder->0.target, ..carry },
                )
                &&& exists|i: int|
                    {
                        &&& 0 <= i < carry.slots.len()
                        &&& after.state.reorder->0.target == Some(#[trigger] carry.slots[i])
                        &&& forall|j: int|
                            0 <= j < far.len() ==> total_rank(far[i]) <= total_rank(
                                #[trigger] far[j],
                            )
                        &&& forall|j: int|
                            0 <= j < i ==> total_rank(far[i]) < total_rank(#[trigger] far[j])
                    }
            }
        }),
{
    let far = drags.distances@;

    crate::interaction_laws::a_carried_column_aims_at_a_slot(carry.slots, far);
    let at = crate::interaction_laws::nearest_exists(far);
    let found = choose|at: int| crate::hit::is_nearest(far, at);

    assert(crate::hit::is_nearest(far, at));
    assert(crate::hit::is_nearest(far, found));
    assert(carry.slots[found] == crate::hit::nearest_of(carry.slots, far)->0);
}

/// Does everything but the offset stay as it is?
pub open spec fn only_offset_differs(before: Model, after: Model) -> bool {
    after == (Model { offset: after.offset, ..before })
}

/// A thumb that is held scrolls its own axis and no other: the vertical one sets
/// the vertical offset to the one that keeps it under the pointer, the horizontal
/// one the horizontal offset likewise.
pub proof fn a_held_thumb_scrolls_its_own_axis<E>(
    table: DataTable<E>,
    input: Input,
    hits: Hits,
    drags: Drags,
    before: Effect,
)
    requires
        input is Moved || input is FingerMoved,
        before.state.reorder is None,
        before.state.resizing is None,
        !before.done,
        hits.pointer is Some,
    ensures
        ({
            let after = table.begun(input, hits, drags, before);
            let old = before.state.offset;
            let new = after.state.offset;
            let down = before.state.y_grab is Some && drags.vertical is Some;

            &&& only_offset_differs(before.state, after.state)
            &&& after.shell.said == before.shell.said
            &&& down ==> {
                &&& new.y == drags.vertical->0.follow
                &&& new.x == old.x
                &&& after.done && after.shell.captured && after.shell.redraw
            }
            &&& !down && before.state.x_grab is Some && drags.horizontal is Some ==> {
                &&& new.x == drags.horizontal->0.follow
                &&& new.y == old.y
                &&& after.done && after.shell.captured && after.shell.redraw
            }
            &&& !down && !(before.state.x_grab is Some && drags.horizontal is Some) ==> new == old
                && !after.done
        }),
{
}

/// A press on a scrollbar takes hold of its thumb, and of the other bar's not at
/// all. On the thumb it is held where it was pressed, and nothing scrolls yet. On
/// the track beside it the thumb jumps under the pointer, along its own axis, and
/// is held by its middle. The vertical bar is asked first.
pub proof fn a_press_takes_hold_of_one_thumb<E>(
    table: DataTable<E>,
    input: Input,
    hits: Hits,
    drags: Drags,
    before: Effect,
)
    requires
        input == Input::Pressed(Button::Left) || input is FingerPressed,
        before.state.reorder is None,
        hits.edge is None,
        !before.done,
        hits.pointer is Some,
    ensures
        ({
            let after = table.begun(input, hits, drags, before);
            let old = before.state;
            let new = after.state;
            let on_y = drags.vertical is Some && drags.vertical->0.on_track;
            let on_x = !on_y && drags.horizontal is Some && drags.horizontal->0.on_track;

            &&& after.shell.said == before.shell.said
            &&& after.done == (on_y || on_x)
            &&& after.done ==> after.shell.captured && after.shell.redraw
            &&& on_y ==> {
                let bar = drags.vertical->0;

                &&& new.x_grab == old.x_grab
                &&& new.offset.x == old.offset.x
                &&& bar.on_thumb ==> new.y_grab == Some(bar.hold) && new.offset.y == old.offset.y
                &&& !bar.on_thumb ==> new.y_grab == Some(bar.centre) && new.offset.y == bar.jump
            }
            &&& on_x ==> {
                let bar = drags.horizontal->0;

                &&& new.y_grab == old.y_grab
                &&& new.offset.y == old.offset.y
                &&& bar.on_thumb ==> new.x_grab == Some(bar.hold) && new.offset.x == old.offset.x
                &&& !bar.on_thumb ==> new.x_grab == Some(bar.centre) && new.offset.x == bar.jump
            }
            &&& !on_y && !on_x ==> new.y_grab == old.y_grab && new.x_grab == old.x_grab
                && new.offset == old.offset
        }),
{
}

/// Letting go lets go of both thumbs and scrolls nothing.
pub proof fn letting_go_leaves_the_offset<E>(
    table: DataTable<E>,
    input: Input,
    hits: Hits,
    drags: Drags,
    before: Effect,
)
    requires
        input == Input::Released(Button::Left) || input is FingerLifted || input is FingerLost,
        before.state.reorder is None,
        !before.done,
    ensures
        ({
            let after = table.begun(input, hits, drags, before);

            &&& !after.done
            &&& after.state.y_grab is None && after.state.x_grab is None
            &&& after.state.offset == before.state.offset
            &&& after.shell.said == before.shell.said
        }),
{
}

/// A press on a column edge starts a drag of that column, measured from where the
/// pointer is and how wide the column is. It pins every column that was not
/// dragged before to the width it has, and leaves the widths that were.
pub proof fn a_press_on_an_edge_pins_every_column<E>(
    table: DataTable<E>,
    hits: Hits,
    drags: Drags,
    before: Effect,
    column: int,
)
    requires
        table.resizable,
        !before.done,
        hits.pointer is Some,
        hits.edge is Some,
        0 <= column < before.state.overrides.len(),
    ensures
        ({
            let after = table.begun(Input::Pressed(Button::Left), hits, drags, before);
            let old = before.state.overrides[column];

            &&& after.state.resizing == Some(
                Resize {
                    column: hits.edge->0,
                    origin_x: hits.pointer->0.x,
                    origin_width: drags.widths@[hits.edge->0 as int],
                },
            )
            &&& after.state.overrides.len() == before.state.overrides.len()
            &&& old is Some ==> after.state.overrides[column] == old
            &&& old is None && column < drags.widths@.len() ==> after.state.overrides[column]
                == Some(drags.widths@[column])
            &&& after.done && after.shell.captured && after.shell.redraw && after.shell.relayout
            &&& after.state.offset == before.state.offset
        }),
{
}

/// A dragged edge follows the pointer, but not below the least width there is: the
/// width is one of the two and below neither. No other column changes.
pub proof fn a_dragged_edge_follows_the_pointer<E>(
    table: DataTable<E>,
    input: Input,
    hits: Hits,
    drags: Drags,
    before: Effect,
    column: int,
)
    requires
        input is Moved || input is FingerMoved,
        table.resizable,
        !before.done,
        hits.pointer is Some,
        before.state.resizing is Some,
        0 <= column < before.state.overrides.len(),
    ensures
        ({
            let after = table.begun(input, hits, drags, before);
            let width = after.state.overrides[column];

            &&& after.state.overrides.len() == before.state.overrides.len()
            &&& after.state == (Model { overrides: after.state.overrides, ..before.state })
            &&& after.shell.said == before.shell.said
            &&& after.done && after.shell.captured && after.shell.redraw && after.shell.relayout
            &&& column != before.state.resizing->0.column ==> width
                == before.state.overrides[column]
            &&& column == before.state.resizing->0.column ==> {
                &&& width == Some(drags.reach) || width == Some(table.min_column_width)
                &&& !below(width->0, table.min_column_width)
                &&& !below(width->0, drags.reach)
            }
        }),
{
    crate::px::a_number_outlasts_nan(drags.reach, table.min_column_width);
}

/// Letting go of an edge ends the drag and keeps every width.
pub proof fn letting_go_of_an_edge_keeps_the_widths<E>(
    table: DataTable<E>,
    hits: Hits,
    drags: Drags,
    before: Effect,
)
    requires
        table.resizable,
        !before.done,
    ensures
        ({
            let after = table.begun(Input::Released(Button::Left), hits, drags, before);

            &&& after.state.resizing is None
            &&& after.state.overrides == before.state.overrides
            &&& after.state.offset == before.state.offset
        }),
{
}

/// Where edges may not be dragged none is taken hold of, and no width changes.
pub proof fn edges_that_may_not_be_dragged_stay_put<E>(
    table: DataTable<E>,
    input: Input,
    hits: Hits,
    drags: Drags,
    before: Effect,
)
    requires
        !table.resizable,
        !before.done,
    ensures
        ({
            let after = table.begun(input, hits, drags, before);

            &&& after.state.resizing == before.state.resizing
            &&& after.state.overrides == before.state.overrides
        }),
{
}

/// A press beside every edge takes hold of none, and no width changes.
pub proof fn a_press_beside_every_edge_resizes_nothing<E>(
    table: DataTable<E>,
    hits: Hits,
    drags: Drags,
    before: Effect,
)
    requires
        !before.done,
        hits.edge is None || hits.pointer is None,
    ensures
        ({
            let after = table.begun(Input::Pressed(Button::Left), hits, drags, before);

            &&& after.state.resizing == before.state.resizing
            &&& after.state.overrides == before.state.overrides
            &&& after.state.reorder == before.state.reorder
        }),
{
}

/// Nothing that is dragged touches what is selected, from where, or what the
/// pointer hovers; and an event that is none of the dragging kind changes nothing
/// but what is held and whether the table has the focus.
pub proof fn dragging_leaves_the_rest_alone<E>(
    table: DataTable<E>,
    input: Input,
    hits: Hits,
    drags: Drags,
    before: Effect,
)
    requires
        !before.done,
    ensures
        ({
            let old = before.state;
            let after = table.begun(input, hits, drags, before);
            let new = after.state;

            &&& new.anchor == old.anchor && new.row_focus == old.row_focus
            &&& new.column_anchor == old.column_anchor && new.column_focus == old.column_focus
            &&& new.cell_anchor == old.cell_anchor && new.cell_focus == old.cell_focus
            &&& new.hovered == old.hovered && new.hovered_sort == old.hovered_sort
            &&& new.drag == old.drag
            &&& new.measured == old.measured && new.measured_rows == old.measured_rows
            &&& !(input is ModifiersChanged) ==> new.modifiers == old.modifiers
            &&& !(input is Pressed) ==> new.focused == old.focused
            &&& input is Wheel || input is Mouse || input is KeyPressed || input is Other || input
                == Input::Pressed(Button::Right) ==> {
                &&& after.shell == before.shell && !after.done
                &&& new == (Model { focused: new.focused, ..old })
            }
        }),
{
}

} // verus!
