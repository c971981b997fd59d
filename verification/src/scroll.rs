//! Scroll offsets and scrollbars.
//!
//! Once a thumb has a minimum length, the range it travels is `track - thumb`,
//! **not** `track`: measured against the track, a thumb on a long list runs
//! past the end of it and detaches from the cursor over the last stretch of a
//! drag. The products and quotients are the caller's; which of them apply, and
//! within which bounds, is decided here.

use vstd::prelude::*;
use crate::px::{at_most, below, held_between, larger, smaller, zero, Point, Px};

verus! {

/// Bit pattern of 24. Below this, a proportional thumb becomes impossible to grab.
pub const MIN_THUMB: u32 = 0x41c0_0000;

#[derive(Debug, Clone, Copy, PartialEq, Eq, Structural)]
pub enum Policy {
    /// Scrollbar is always present once content overflows.
    Auto,
    /// Never show a scrollbar on this axis; content is clipped.
    Hidden,
}

impl Default for Policy {
    fn default() -> (policy: Self)
        ensures
            policy == Policy::Auto,
    {
        Policy::Auto
    }
}

/// Is there a scrollbar for content of this extent in that much room?
pub open spec fn shows_bar(policy: Policy, content: Px, room: Px) -> bool {
    policy == Policy::Auto && below(room, content)
}

/// Is there a scrollbar for content of this extent in that much room?
pub fn needs_bar(policy: Policy, content: Px, room: Px) -> (needed: bool)
    ensures
        needed == shows_bar(policy, content, room),
{
    policy == Policy::Auto && room.is_below(content)
}

/// The strip that is set aside for a scrollbar.
pub open spec fn lane_of(policy: Policy, content: Px, room: Px, width: Px) -> Px {
    if shows_bar(policy, content, room) {
        width
    } else {
        zero()
    }
}

/// The strip that is set aside for a scrollbar: its width where there is one,
/// else nothing.
pub fn lane(policy: Policy, content: Px, room: Px, width: Px) -> (lane: Px)
    ensures
        lane == lane_of(policy, content, room, width),
{
    if needs_bar(policy, content, room) {
        width
    } else {
        Px::zero()
    }
}

/// Which of the two scrollbars there are: the vertical one and the horizontal one.
pub open spec fn bars_of(
    vertical: Policy,
    horizontal: Policy,
    content: Point,
    body: Point,
    squeezed: Px,
) -> (bool, bool) {
    let across = shows_bar(horizontal, content.x, body.x);

    (
        shows_bar(
            vertical,
            content.y,
            if across {
                squeezed
            } else {
                body.y
            },
        ),
        across,
    )
}

/// Which of the two scrollbars there are. `squeezed` is the height that is left
/// of `body` once a horizontal bar has taken its strip.
///
/// The strip of the horizontal bar can be the reason a vertical one is needed:
/// content that fits the body, but not what is left of it, can be scrolled.
pub fn bars(
    vertical: Policy,
    horizontal: Policy,
    content: Point,
    body: Point,
    squeezed: Px,
) -> (shown: (bool, bool))
    ensures
        shown == bars_of(vertical, horizontal, content, body, squeezed),
{
    let across = needs_bar(horizontal, content.x, body.x);
    let room = if across {
        squeezed
    } else {
        body.y
    };

    (needs_bar(vertical, content.y, room), across)
}

/// How long the two tracks are.
pub open spec fn tracks_of(down: bool, across: bool, body: Point, squeezed: Point) -> Point {
    Point {
        x: if down {
            squeezed.x
        } else {
            body.x
        },
        y: if across {
            squeezed.y
        } else {
            body.y
        },
    }
}

/// How long the two tracks are: `x` along the horizontal bar, `y` along the
/// vertical one. Where both bars are shown each gives way to the other, so that
/// they do not overlap in the corner; `squeezed` is the body less the width of a
/// bar on each axis.
pub fn tracks(down: bool, across: bool, body: Point, squeezed: Point) -> (lengths: Point)
    ensures
        lengths == tracks_of(down, across, body, squeezed),
{
    Point {
        x: if down {
            squeezed.x
        } else {
            body.x
        },
        y: if across {
            squeezed.y
        } else {
            body.y
        },
    }
}

/// How far the content can scroll.
pub open spec fn limit_of(excess: Point) -> Point {
    Point { x: larger(excess.x, zero()), y: larger(excess.y, zero()) }
}

/// How far the content can scroll, given by how much it exceeds the viewport on
/// each axis.
pub fn max_offset(excess: Point) -> (limit: Point)
    ensures
        limit == limit_of(excess),
{
    Point { x: excess.x.max(Px::zero()), y: excess.y.max(Px::zero()) }
}

/// The offset nearest to this one that scrolls neither before the start nor
/// past the end.
pub open spec fn clamped(offset: Point, limit: Point) -> Point {
    Point {
        x: held_between(offset.x, zero(), limit.x),
        y: held_between(offset.y, zero(), limit.y),
    }
}

/// The offset nearest to this one that scrolls neither before the start nor
/// past the end.
pub fn clamp_offset(offset: Point, limit: Point) -> (result: Point)
    requires
        at_most(zero(), limit.x),
        at_most(zero(), limit.y),
    ensures
        result == clamped(offset, limit),
{
    Point { x: offset.x.clamp(Px::zero(), limit.x), y: offset.y.clamp(Px::zero(), limit.y) }
}

/// Length of the thumb along the scrolling axis.
pub open spec fn thumb_of(track: Px, viewport: Px, content: Px, share: Px) -> Px {
    if at_most(content, viewport) || at_most(content, zero()) {
        track
    } else {
        smaller(larger(share, Px { bits: MIN_THUMB }), track)
    }
}

/// Length of the thumb along the scrolling axis. `share` is the part of the
/// track that the viewport is of the content.
pub fn thumb_length(track: Px, viewport: Px, content: Px, share: Px) -> (length: Px)
    ensures
        length == thumb_of(track, viewport, content, share),
{
    if content.is_at_most(viewport) || content.is_at_most(Px::zero()) {
        track
    } else {
        share.max(Px { bits: MIN_THUMB }).min(track)
    }
}

/// Distance of the thumb's leading edge from the start of the track.
pub open spec fn thumb_at(travel: Px, range: Px, along: Px) -> Px {
    if at_most(travel, zero()) || at_most(range, zero()) {
        zero()
    } else {
        along
    }
}

/// Distance of the thumb's leading edge from the start of the track, where
/// `along` is the part of its travel that the offset is of the range.
pub fn thumb_position(travel: Px, range: Px, along: Px) -> (position: Px)
    ensures
        position == thumb_at(travel, range, along),
{
    if travel.is_at_most(Px::zero()) || range.is_at_most(Px::zero()) {
        Px::zero()
    } else {
        along
    }
}

/// The offset that puts the thumb somewhere.
pub open spec fn dragged_to(travel: Px, range: Px, along: Px) -> Px {
    if at_most(travel, zero()) {
        zero()
    } else {
        held_between(along, zero(), range)
    }
}

/// The offset that puts the thumb somewhere, clamped to the legal range, where
/// `along` is the part of the range that the place is of the thumb's travel.
pub fn offset_from_thumb(travel: Px, range: Px, along: Px) -> (offset: Px)
    requires
        at_most(zero(), range),
    ensures
        offset == dragged_to(travel, range, along),
{
    if travel.is_at_most(Px::zero()) {
        Px::zero()
    } else {
        along.clamp(Px::zero(), range)
    }
}

/// The rows inside the viewport, from the first one to just past the last.
pub open spec fn window(flat: bool, top: usize, bottom: usize, count: usize) -> (int, int) {
    if flat {
        (0, count as int)
    } else {
        (
            if top < count { top as int } else { count as int },
            if bottom + 1 < count { bottom + 1 } else { count as int },
        )
    }
}

/// Which rows fall inside the viewport, from the row under its top edge to the
/// row under its bottom edge. Rows without a height (`flat`) all do.
pub fn visible_rows(flat: bool, top: usize, bottom: usize, count: usize) -> (rows: (usize, usize))
    ensures
        rows.0 == window(flat, top, bottom, count).0,
        rows.1 == window(flat, top, bottom, count).1,
{
    if flat {
        (0, count)
    } else {
        let first: usize = if top < count { top } else { count };
        let last: usize = if bottom < count { bottom + 1 } else { count };

        (first, last)
    }
}

/// The row under a point, if there is one.
pub open spec fn row_under(
    inside: bool,
    flat: bool,
    content_y: Px,
    row: usize,
    count: usize,
) -> Option<usize> {
    if inside && !flat && !below(content_y, zero()) && row < count {
        Some(row)
    } else {
        None
    }
}

/// Which row sits under a point: the one `row` heights down the content, unless
/// the point is outside the body, above the content, or past the last row.
pub fn row_at(inside: bool, flat: bool, content_y: Px, row: usize, count: usize) -> (hit: Option<
    usize,
>)
    ensures
        hit == row_under(inside, flat, content_y, row, count),
{
    if flat || count == 0 || !inside || content_y.is_below(Px::zero()) || row >= count {
        None
    } else {
        Some(row)
    }
}

/// Where something lies along one axis, against what is visible of it.
#[derive(Debug, Clone, Copy, PartialEq)]
pub struct Span {
    /// Its near edge and its far edge.
    pub start: Px,
    pub end: Px,
    /// The near edge and the far edge of what is visible.
    pub near: Px,
    pub far: Px,
    /// The offset that puts its near edge on the near edge of the visible part,
    /// and the one that puts its far edge on the far edge.
    pub to_start: Px,
    pub to_end: Px,
}

/// The offset that scrolls the least amount that brings the span into view.
pub open spec fn revealed(offset: Px, span: Span) -> Px {
    if below(span.start, span.near) {
        span.to_start
    } else if below(span.far, span.end) {
        span.to_end
    } else {
        offset
    }
}

/// Scroll the least amount that brings a span fully into view.
pub fn bring_into_view(offset: Px, span: Span) -> (result: Px)
    ensures
        result == revealed(offset, span),
{
    if span.start.is_below(span.near) {
        span.to_start
    } else if span.far.is_below(span.end) {
        span.to_end
    } else {
        offset
    }
}

/// Bit pattern of 16: how far a line of the wheel scrolls where rows are tiny.
pub const MIN_WHEEL_STEP: u32 = 0x4180_0000;

/// How far a line of the wheel scrolls.
pub open spec fn step_of(row_height: Px) -> Px {
    larger(row_height, Px { bits: MIN_WHEEL_STEP })
}

/// How far a line of the wheel scrolls: one row, but never next to nothing.
pub fn wheel_step(row_height: Px) -> (step: Px)
    ensures
        step == step_of(row_height),
{
    row_height.max(Px { bits: MIN_WHEEL_STEP })
}

/// What a turn of the wheel scrolls by on each axis.
pub open spec fn turned(x: Px, y: Px, lines: bool, mac: bool, shift: bool) -> Point {
    if shift && !(lines && mac) {
        Point { x: y, y: x }
    } else {
        Point { x, y }
    }
}

/// What a turn of the wheel scrolls by on each axis: with Shift held it scrolls
/// sideways. For a wheel that reports lines macOS has already swapped the axes.
pub fn wheel(x: Px, y: Px, lines: bool, mac: bool, shift: bool) -> (delta: Point)
    ensures
        delta == turned(x, y, lines, mac, shift),
{
    let swapped = lines && mac && shift;
    let first = if swapped {
        y
    } else {
        x
    };
    let second = if swapped {
        x
    } else {
        y
    };

    if shift {
        Point { x: second, y: first }
    } else {
        Point { x: first, y: second }
    }
}

/// A clamped offset scrolls neither before the start nor past the end, and
/// clamping it again changes nothing. An offset that is no number stays one.
pub proof fn clamping_is_final(offset: Point, limit: Point)
    requires
        at_most(zero(), limit.x),
        at_most(zero(), limit.y),
    ensures
        !below(clamped(offset, limit).x, zero()) && !below(limit.x, clamped(offset, limit).x),
        !below(clamped(offset, limit).y, zero()) && !below(limit.y, clamped(offset, limit).y),
        clamped(clamped(offset, limit), limit) == clamped(offset, limit),
{
}

/// A thumb never outgrows its track, and is never too short to grab unless the
/// track itself is.
pub proof fn a_thumb_fits_its_track(track: Px, viewport: Px, content: Px, share: Px)
    ensures
        !below(track, thumb_of(track, viewport, content, share)),
        !below(
            thumb_of(track, viewport, content, share),
            smaller(Px { bits: MIN_THUMB }, track),
        ),
{
}

/// The visible rows are a range of the rows there are, and it holds every row
/// between the one at the top edge and the one at the bottom edge.
pub proof fn the_window_holds_what_is_on_screen(
    flat: bool,
    top: usize,
    bottom: usize,
    count: usize,
    row: usize,
)
    requires
        top <= bottom,
    ensures
        0 <= window(flat, top, bottom, count).0 <= window(flat, top, bottom, count).1 <= count,
        row < count && top <= row <= bottom ==> window(flat, top, bottom, count).0 <= row < window(
            flat,
            top,
            bottom,
            count,
        ).1,
{
}

/// What is already in view is not scrolled to.
pub proof fn what_is_in_view_stays_put(offset: Px, span: Span)
    requires
        !below(span.start, span.near),
        !below(span.far, span.end),
    ensures
        revealed(offset, span) == offset,
{
}

} // verus!
