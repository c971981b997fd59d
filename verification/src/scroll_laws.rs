//! What scrolling does, on each axis and in each case.

use vstd::prelude::*;
use crate::interaction::{Hits, Input, Model, Outcry};
use crate::px::{at_most, below, equal, is_nan, zero, Point, Px};
use crate::scroll::{
    bars_of, clamped, dragged_to, lane_of, limit_of, revealed, row_under, shows_bar, step_of,
    thumb_at, thumb_of, tracks_of, turned, window, Policy, Span,
};
use crate::update::{column_revealed, row_revealed, scrolled_to, shape_of, wheel_is_free};

verus! {

/// A bar is there where the content is larger than the room for it, unless it is to
/// be hidden.
pub proof fn a_bar_is_there_where_content_overflows(policy: Policy, content: Px, room: Px)
    ensures
        policy is Hidden ==> !shows_bar(policy, content, room),
        policy is Auto && below(room, content) ==> shows_bar(policy, content, room),
        at_most(content, room) ==> !shows_bar(policy, content, room),
{
}

/// The vertical bar depends on the heights, and on the widths only through the
/// strip that the horizontal one takes. The horizontal bar depends on the widths.
pub proof fn each_bar_minds_its_own_axis(
    vertical: Policy,
    horizontal: Policy,
    content: Point,
    body: Point,
    squeezed: Px,
)
    ensures
        ({
            let (down, across) = bars_of(vertical, horizontal, content, body, squeezed);

            &&& across <==> horizontal is Auto && below(body.x, content.x)
            &&& across ==> (down <==> vertical is Auto && below(squeezed, content.y))
            &&& !across ==> (down <==> vertical is Auto && below(body.y, content.y))
        }),
{
}

/// A track is as long as the body, and shorter by the other bar where there is one.
pub proof fn each_track_gives_way_to_the_other_bar(body: Point, squeezed: Point)
    ensures
        tracks_of(false, false, body, squeezed) == body,
        tracks_of(true, true, body, squeezed) == squeezed,
        tracks_of(true, false, body, squeezed) == (Point { x: squeezed.x, y: body.y }),
        tracks_of(false, true, body, squeezed) == (Point { x: body.x, y: squeezed.y }),
{
}

/// An offset in range is kept; one before the start becomes the start, and one past
/// the end the end, each axis by itself.
pub proof fn an_offset_is_clamped_on_each_axis(offset: Point, limit: Point)
    requires
        at_most(zero(), limit.x),
        at_most(zero(), limit.y),
    ensures
        at_most(zero(), offset.x) && at_most(offset.x, limit.x) ==> clamped(offset, limit).x
            == offset.x,
        below(offset.x, zero()) ==> clamped(offset, limit).x == zero(),
        below(limit.x, offset.x) ==> clamped(offset, limit).x == limit.x,
        at_most(zero(), offset.y) && at_most(offset.y, limit.y) ==> clamped(offset, limit).y
            == offset.y,
        below(offset.y, zero()) ==> clamped(offset, limit).y == zero(),
        below(limit.y, offset.y) ==> clamped(offset, limit).y == limit.y,
        is_nan(offset.x) ==> clamped(offset, limit).x == offset.x,
        is_nan(offset.y) ==> clamped(offset, limit).y == offset.y,
{
}

/// A thumb has its share of the track, but is never shorter than can be grabbed
/// (24 pixels), nor longer than the track; where everything is in view it fills the
/// track.
pub proof fn a_thumb_has_its_share_of_the_track(track: Px, viewport: Px, content: Px, share: Px)
    requires
        !is_nan(track) && !is_nan(share) && !is_nan(content) && !is_nan(viewport),
    ensures
        ({
            let least = Px { bits: 0x41c0_0000 };
            let overflows = below(viewport, content) && below(zero(), content);
            let length = thumb_of(track, viewport, content, share);

            &&& !overflows ==> length == track
            &&& overflows && at_most(least, share) && at_most(share, track) ==> length == share
            &&& overflows && below(share, least) && at_most(least, track) ==> length == least
            &&& overflows && below(track, share) ==> length == track
            &&& overflows && below(track, least) ==> length == track
        }),
{
}

/// A thumb that cannot travel, or has nothing to scroll, stays at the start, and
/// dragging it leads to the start; any other follows.
pub proof fn a_thumb_that_cannot_travel_stays(travel: Px, range: Px, along: Px)
    requires
        at_most(zero(), range),
    ensures
        at_most(travel, zero()) || at_most(range, zero()) ==> thumb_at(travel, range, along)
            == zero(),
        below(zero(), travel) && below(zero(), range) ==> thumb_at(travel, range, along) == along,
        at_most(travel, zero()) ==> dragged_to(travel, range, along) == zero(),
        below(zero(), travel) && at_most(zero(), along) && at_most(along, range) ==> dragged_to(
            travel,
            range,
            along,
        ) == along,
        below(zero(), travel) && below(along, zero()) ==> dragged_to(travel, range, along)
            == zero(),
        below(zero(), travel) && below(range, along) ==> dragged_to(travel, range, along) == range,
{
}

/// The rows laid out are those from the one at the top edge to the one at the
/// bottom edge, and no others; or all of them, if they have no height.
pub proof fn the_window_is_what_is_on_screen(
    flat: bool,
    top: usize,
    bottom: usize,
    count: usize,
    row: usize,
)
    ensures
        ({
            let (first, past) = window(flat, top, bottom, count);

            &&& flat ==> (first <= row < past <==> row < count)
            &&& !flat ==> (first <= row < past <==> row < count && top <= row <= bottom)
        }),
{
}

/// A point finds the row under it exactly where it is inside the body, not above the
/// content, and there is such a row of any height.
pub proof fn a_point_finds_the_row_under_it(
    inside: bool,
    flat: bool,
    content_y: Px,
    row: usize,
    count: usize,
)
    ensures
        row_under(inside, flat, content_y, row, count) is Some <==> inside && !flat && !below(
            content_y,
            zero(),
        ) && row < count,
        row_under(inside, flat, content_y, row, count) matches Some(found) ==> found == row,
{
}

/// What begins before the visible part is scrolled to by its start; else, what ends
/// behind it by its end; and what does neither is left where it is.
pub proof fn a_span_is_revealed_from_the_side_it_is_out_at(offset: Px, span: Span)
    ensures
        below(span.start, span.near) ==> revealed(offset, span) == span.to_start,
        !below(span.start, span.near) && below(span.far, span.end) ==> revealed(offset, span)
            == span.to_end,
        !below(span.start, span.near) && !below(span.far, span.end) ==> revealed(offset, span)
            == offset,
{
}

/// The wheel scrolls the axis it is turned on, and with Shift the other one, unless
/// the platform has swapped the axes already.
pub proof fn shift_turns_the_wheel_sideways(x: Px, y: Px, lines: bool, mac: bool)
    ensures
        turned(x, y, lines, mac, false) == (Point { x, y }),
        !(lines && mac) ==> turned(x, y, lines, mac, true) == (Point { x: y, y: x }),
        lines && mac ==> turned(x, y, lines, mac, true) == (Point { x, y }),
{
}

/// A bar that is there takes its own strip, one that is not takes nothing.
pub proof fn only_a_bar_that_is_there_takes_room(policy: Policy, content: Px, room: Px, width: Px)
    ensures
        policy is Auto && below(room, content) ==> lane_of(policy, content, room, width) == width,
        policy is Hidden || at_most(content, room) ==> lane_of(policy, content, room, width)
            == zero(),
{
}

/// Content scrolls by as much as it exceeds the viewport on each axis, and where it
/// does not, not at all.
pub proof fn content_scrolls_by_what_it_exceeds(excess: Point)
    ensures
        below(zero(), excess.x) ==> limit_of(excess).x == excess.x,
        below(excess.x, zero()) ==> limit_of(excess).x == zero(),
        below(zero(), excess.y) ==> limit_of(excess).y == excess.y,
        below(excess.y, zero()) ==> limit_of(excess).y == zero(),
        at_most(zero(), limit_of(excess).x) && at_most(zero(), limit_of(excess).y),
{
}

/// A line of the wheel is a row, or 16 pixels where rows are lower than that.
pub proof fn a_line_of_the_wheel_is_a_row(row_height: Px)
    ensures
        at_most(Px { bits: 0x4180_0000 }, row_height) ==> equal(step_of(row_height), row_height),
        below(row_height, Px { bits: 0x4180_0000 }) ==> step_of(row_height).bits == 0x4180_0000,
{
}

/// The wheel is the table's exactly if it is turned over it and nobody has claimed
/// the event.
pub proof fn a_claimed_wheel_is_left_alone(input: Input, hits: Hits, shell: Outcry)
    ensures
        wheel_is_free(input, hits, shell) ==> input is Wheel && hits.over_table && !shell.captured,
        input is Wheel && hits.over_table && !shell.captured ==> wheel_is_free(input, hits, shell),
{
}

/// Scrolling changes the offset and nothing else, to the nearest that is in range. It
/// claims the event and draws anew where that is another place, and reports nothing;
/// at the end of the range the event is left to what is around the table.
pub proof fn scrolling_at_the_end_is_left_alone(
    target: Point,
    limit: Point,
    state: Model,
    shell: Outcry,
)
    requires
        at_most(zero(), limit.x),
        at_most(zero(), limit.y),
    ensures
        ({
            let (now, said) = scrolled_to(target, limit, state, shell);

            &&& now == (Model { offset: now.offset, ..state })
            &&& at_most(zero(), target.x) && at_most(target.x, limit.x) ==> now.offset.x == target.x
            &&& below(target.x, zero()) ==> now.offset.x == zero()
            &&& below(limit.x, target.x) ==> now.offset.x == limit.x
            &&& at_most(zero(), target.y) && at_most(target.y, limit.y) ==> now.offset.y == target.y
            &&& below(target.y, zero()) ==> now.offset.y == zero()
            &&& below(limit.y, target.y) ==> now.offset.y == limit.y
            &&& equal(now.offset.x, state.offset.x) && equal(now.offset.y, state.offset.y) ==> said
                == shell
            &&& !equal(now.offset.x, state.offset.x) || !equal(now.offset.y, state.offset.y) ==> {
                &&& said.captured && said.redraw
                &&& said.said == shell.said
                &&& said.relayout == shell.relayout && said.reveal == shell.reveal
            }
        }),
{
}

/// Bringing a row into view scrolls down or up only, and changes nothing else: up to
/// its top if that is hidden, else down to its bottom if that is, as far as the
/// content goes.
pub proof fn revealing_a_row_scrolls_down_or_up(rows: Span, limit: Point, state: Model)
    requires
        at_most(zero(), limit.x),
        at_most(zero(), limit.y),
        at_most(zero(), state.offset.x) && at_most(state.offset.x, limit.x),
        at_most(zero(), state.offset.y) && at_most(state.offset.y, limit.y),
    ensures
        ({
            let now = row_revealed(rows, limit, state);
            let hidden = below(rows.start, rows.near);
            let cut = below(rows.far, rows.end);
            let to = if hidden {
                rows.to_start
            } else {
                rows.to_end
            };

            &&& now == (Model { offset: now.offset, ..state })
            &&& now.offset.x == state.offset.x
            &&& !hidden && !cut ==> now.offset.y == state.offset.y
            &&& (hidden || cut) && at_most(zero(), to) && at_most(to, limit.y) ==> now.offset.y
                == to
            &&& (hidden || cut) && below(to, zero()) ==> now.offset.y == zero()
            &&& (hidden || cut) && below(limit.y, to) ==> now.offset.y == limit.y
        }),
{
}

/// Bringing a column into view scrolls sideways only, and changes nothing else. A
/// frozen column is in view, and one that is not there cannot be.
pub proof fn revealing_a_column_scrolls_sideways(
    column: usize,
    sticky_columns: usize,
    columns: usize,
    across: Span,
    limit: Point,
    state: Model,
)
    requires
        at_most(zero(), limit.x),
        at_most(zero(), limit.y),
        at_most(zero(), state.offset.x) && at_most(state.offset.x, limit.x),
        at_most(zero(), state.offset.y) && at_most(state.offset.y, limit.y),
    ensures
        ({
            let now = column_revealed(column, sticky_columns, columns, across, limit, state);
            let scrolls = sticky_columns <= column && column < columns;
            let hidden = below(across.start, across.near);
            let cut = below(across.far, across.end);
            let to = if hidden {
                across.to_start
            } else {
                across.to_end
            };

            &&& now == (Model { offset: now.offset, ..state })
            &&& now.offset.y == state.offset.y
            &&& !scrolls || (!hidden && !cut) ==> now.offset.x == state.offset.x
            &&& scrolls && (hidden || cut) && at_most(zero(), to) && at_most(to, limit.x)
                ==> now.offset.x == to
            &&& scrolls && (hidden || cut) && below(to, zero()) ==> now.offset.x == zero()
            &&& scrolls && (hidden || cut) && below(limit.x, to) ==> now.offset.x == limit.x
        }),
{
}

/// The pointer grabs while a thumb or a column that has left its place is held. Else
/// it resizes while an edge is dragged or under it, where edges can be. Else it
/// idles on a scrollbar, and anywhere else is what the contents say.
pub proof fn the_pointer_shows_what_it_does(
    resizable: bool,
    hits: Hits,
    on_bar: bool,
    state: Model,
)
    ensures
        ({
            let holds = state.y_grab is Some || state.x_grab is Some || (state.reorder is Some
                && state.reorder->0.target is Some);
            let on_edge = hits.pointer is Some && hits.edge is Some;
            let sizes = resizable && (state.resizing is Some || on_edge);
            let shape = shape_of(resizable, hits, on_bar, state);

            &&& shape is Grabbing <==> holds
            &&& shape is Resizing <==> !holds && sizes
            &&& shape is Idle <==> !holds && !sizes && hits.pointer is Some && on_bar
            &&& shape is Contents <==> !holds && !sizes && !(hits.pointer is Some && on_bar)
        }),
{
}

} // verus!
