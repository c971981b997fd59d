//! What holds of lengths once they are added and scaled.
//!
//! The sums, products and quotients of lengths are handed to this crate by its
//! callers, in single precision. The laws here are about exact arithmetic: for
//! any reading of lengths as numbers that keeps their order, and for callers that
//! add, multiply and divide those numbers without rounding.

use vstd::prelude::*;
use crate::hit::{in_content, on_screen};
use crate::px::{at_most, equal, is_nan, rank_of, smaller, zero, Point, Px};
use crate::scroll::{
    bars_of, dragged_to, revealed, row_under, thumb_at, thumb_of, tracks_of, window, Policy, Span,
};
use crate::sizing::{
    can_give, claim, claims, floor_of, giving, only_fixed_columns_are_spared, Sizing, SpanRequest,
};

verus! {

/// A reading of lengths as numbers that keeps their order and starts at zero. What
/// it makes of NaN is left open.
pub open spec fn measures(of: spec_fn(Px) -> int) -> bool {
    &&& of(zero()) == 0
    &&& forall|a: Px, b: Px|
        !is_nan(a) && !is_nan(b) ==> (rank_of(a) <= rank_of(b) <==> #[trigger] of(a)
            <= #[trigger] of(b))
}

/// None of these lengths is NaN.
pub open spec fn numbers(lengths: Seq<Px>) -> bool {
    forall|i: int| 0 <= i < lengths.len() ==> !is_nan(#[trigger] lengths[i])
}

/// `part` is to `whole` as `share` is to `total`: the quotient without its
/// rounding.
pub open spec fn in_proportion(part: int, whole: int, share: int, total: int) -> bool {
    part * total == whole * share
}

/// The numbers added up.
pub open spec fn sum(items: Seq<int>) -> int
    decreases items.len(),
{
    if items.len() == 0 {
        0
    } else {
        sum(items.drop_last()) + items.last()
    }
}

/// Each part is to the whole as its share is to all the shares.
pub open spec fn divided(parts: Seq<int>, whole: int, shares: Seq<int>) -> bool {
    &&& parts.len() == shares.len()
    &&& forall|i: int|
        0 <= i < parts.len() ==> in_proportion(#[trigger] parts[i], whole, shares[i], sum(shares))
}

proof fn parts_add_up_so_far(parts: Seq<int>, whole: int, shares: Seq<int>, total: int)
    requires
        parts.len() == shares.len(),
        forall|i: int|
            0 <= i < parts.len() ==> in_proportion(#[trigger] parts[i], whole, shares[i], total),
    ensures
        in_proportion(sum(parts), whole, sum(shares), total),
    decreases parts.len(),
{
    if parts.len() > 0 {
        let a = sum(parts.drop_last());
        let b = sum(shares.drop_last());
        let p = parts.last();
        let s = shares.last();

        assert forall|i: int| 0 <= i < parts.drop_last().len() implies in_proportion(
            #[trigger] parts.drop_last()[i],
            whole,
            shares.drop_last()[i],
            total,
        ) by {
            assert(in_proportion(parts[i], whole, shares[i], total));
        }
        parts_add_up_so_far(parts.drop_last(), whole, shares.drop_last(), total);
        assert(in_proportion(parts[parts.len() - 1], whole, shares[parts.len() - 1], total));
        assert((a + p) * total == whole * (b + s)) by (nonlinear_arith)
            requires
                a * total == whole * b,
                p * total == whole * s,
        ;
    }
}

/// What is divided in proportion is divided without a remainder. No part is less
/// than nothing, a share of nothing is nothing, and where there is no more to
/// divide than there are shares, no part is more than its share.
pub proof fn parts_make_up_the_whole(parts: Seq<int>, whole: int, shares: Seq<int>, i: int)
    requires
        divided(parts, whole, shares),
        sum(shares) > 0,
        0 <= i < parts.len(),
        whole >= 0,
        shares[i] >= 0,
    ensures
        sum(parts) == whole,
        parts[i] >= 0,
        shares[i] == 0 ==> parts[i] == 0,
        whole <= sum(shares) ==> parts[i] <= shares[i],
{
    let total = sum(shares);
    let all = sum(parts);
    let p = parts[i];
    let s = shares[i];

    parts_add_up_so_far(parts, whole, shares, total);
    assert(all == whole) by (nonlinear_arith)
        requires
            all * total == whole * total,
            total > 0,
    ;
    assert(in_proportion(parts[i], whole, shares[i], total));
    assert(p >= 0 && (s == 0 ==> p == 0) && (whole <= total ==> p <= s)) by (nonlinear_arith)
        requires
            p * total == whole * s,
            total > 0,
            whole >= 0,
            s >= 0,
    ;
}

proof fn claims_are_a_sum(sizing: Seq<Sizing>)
    ensures
        claims(sizing) == sum(Seq::new(sizing.len(), |i: int| claim(sizing[i]) as int)),
    decreases sizing.len(),
{
    if sizing.len() > 0 {
        let weights = Seq::new(sizing.len(), |i: int| claim(sizing[i]) as int);
        let before = sizing.drop_last();

        claims_are_a_sum(before);
        assert(weights.drop_last() =~= Seq::new(before.len(), |i: int| claim(before[i]) as int));
    }
}

/// Leftover space is handed out whole, by weight: what the columns take adds up to
/// what there was, none shrinks, and only `Fill` columns take anything.
pub proof fn leftover_space_is_handed_out_whole(
    sizing: Seq<Sizing>,
    slack: int,
    taken: Seq<int>,
    column: int,
)
    requires
        slack > 0,
        claims(sizing) > 0,
        divided(taken, slack, Seq::new(sizing.len(), |i: int| claim(sizing[i]) as int)),
        0 <= column < sizing.len(),
    ensures
        sum(taken) == slack,
        taken[column] >= 0,
        !(sizing[column] is Fill) ==> taken[column] == 0,
{
    claims_are_a_sum(sizing);
    parts_make_up_the_whole(
        taken,
        slack,
        Seq::new(sizing.len(), |i: int| claim(sizing[i]) as int),
        column,
    );
}

/// Shrinking stops at the floors: what is clawed back adds up to what is missing,
/// as far as the columns can give it, and leaves no column below its floor. A
/// fixed column gives nothing.
pub proof fn shrinking_stops_at_the_floors(
    of: spec_fn(Px) -> int,
    sizing: Seq<Sizing>,
    widths: Seq<Px>,
    above: Seq<Px>,
    missing: Px,
    total: Px,
    given: Seq<int>,
    column: int,
)
    requires
        measures(of),
        sizing.len() == widths.len() == above.len(),
        numbers(above),
        !is_nan(missing) && !is_nan(total),
        forall|i: int|
            0 <= i < sizing.len() ==> of(#[trigger] above[i]) == of(widths[i]) - of(
                floor_of(sizing[i]),
            ),
        of(total) == sum(Seq::new(sizing.len(), |i: int| of(can_give(sizing[i], above[i])))),
        of(total) > 0,
        of(missing) >= 0,
        divided(
            given,
            of(smaller(missing, total)),
            Seq::new(sizing.len(), |i: int| of(can_give(sizing[i], above[i]))),
        ),
        0 <= column < sizing.len(),
        of(widths[column]) >= of(floor_of(sizing[column])),
    ensures
        sum(given) == (if of(missing) <= of(total) {
            of(missing)
        } else {
            of(total)
        }),
        of(widths[column]) - given[column] >= of(floor_of(sizing[column])),
        sizing[column] is Fixed ==> given[column] == 0,
{
    let shares = Seq::new(sizing.len(), |i: int| of(can_give(sizing[i], above[i])));
    let room = can_give(sizing[column], above[column]);

    assert(at_most(missing, total) <==> of(missing) <= of(total));
    assert(!is_nan(above[column]));
    assert(at_most(above[column], zero()) <==> of(above[column]) <= of(zero()));
    assert(at_most(zero(), above[column]) <==> of(zero()) <= of(above[column]));
    assert(at_most(zero(), room) && of(zero()) <= of(room));
    parts_make_up_the_whole(given, of(smaller(missing, total)), shares, column);
}

/// A group pushes its columns just as wide as its label needs: what the columns of
/// its span grow by is what the label is short of, and no fixed column grows.
/// `shares` is what each column that grows has of the growth.
pub proof fn a_group_pushes_its_columns_as_far_as_its_label_needs(
    of: spec_fn(Px) -> int,
    sizing: Seq<Sizing>,
    span: SpanRequest,
    current: Px,
    shares: Seq<int>,
    grown: Seq<int>,
    k: int,
)
    requires
        measures(of),
        span.start <= span.end < sizing.len() <= usize::MAX,
        !is_nan(current) && !is_nan(span.needed),
        of(current) < of(span.needed),
        grown.len() == giving(sizing, span.start as int, span.end + 1).len(),
        sum(shares) > 0,
        divided(grown, of(span.needed) - of(current), shares),
        0 <= k < grown.len(),
        shares[k] >= 0,
    ensures
        of(current) + sum(grown) == of(span.needed),
        grown[k] >= 0,
        ({
            let column = giving(sizing, span.start as int, span.end + 1)[k];

            span.start <= column <= span.end && !(sizing[column as int] is Fixed)
        }),
{
    let columns = giving(sizing, span.start as int, span.end + 1);

    parts_make_up_the_whole(grown, of(span.needed) - of(current), shares, k);
    only_fixed_columns_are_spared(sizing, span.start as int, span.end + 1, columns[k]);
    assert(columns.contains(columns[k]));
}

/// A thumb on its track, with what was computed to place it.
pub struct Thumb {
    pub track: Px,
    pub viewport: Px,
    pub content: Px,
    /// The part of the track that the viewport is of the content.
    pub share: Px,
    /// How far the thumb can travel, and how far the content can scroll.
    pub travel: Px,
    pub range: Px,
    pub offset: Px,
    /// The part of the travel that the offset is of the range.
    pub along: Px,
}

impl Thumb {
    pub open spec fn length(self) -> Px {
        thumb_of(self.track, self.viewport, self.content, self.share)
    }

    pub open spec fn position(self) -> Px {
        thumb_at(self.travel, self.range, self.along)
    }

    pub open spec fn lengths(self) -> Seq<Px> {
        seq![self.track, self.viewport, self.content, self.share, self.travel, self.range]
    }

    /// Was it placed without rounding, at an offset within the range?
    pub open spec fn is_placed(self, of: spec_fn(Px) -> int) -> bool {
        &&& numbers(self.lengths())
        &&& of(self.track) >= 0
        &&& of(self.viewport) >= 0
        &&& of(self.travel) == of(self.track) - of(self.length())
        &&& of(self.range) == (if of(self.content) > of(self.viewport) {
            of(self.content) - of(self.viewport)
        } else {
            0
        })
        &&& 0 <= of(self.offset) <= of(self.range)
        &&& of(self.range) > 0 ==> in_proportion(
            of(self.along),
            of(self.travel),
            of(self.offset),
            of(self.range),
        )
    }

    /// Does it stay on the track, begin where the track begins at the start of the
    /// content, and end where the track ends at the end of the content?
    pub open spec fn reaches_both_ends(self, of: spec_fn(Px) -> int) -> bool {
        &&& 0 <= of(self.position()) <= of(self.position()) + of(self.length()) <= of(self.track)
        &&& of(self.offset) == 0 ==> of(self.position()) == 0
        &&& of(self.offset) == of(self.range) ==> of(self.position()) + of(self.length()) == of(
            self.track,
        )
    }
}

/// A thumb reaches both ends of its track, and no further: at the start of the
/// content it is at the start of the track, at the end of the content it ends
/// where the track does, and in between it stays on the track.
pub proof fn a_thumb_reaches_both_ends_of_its_track(of: spec_fn(Px) -> int, thumb: Thumb)
    requires
        measures(of),
        thumb.is_placed(of),
    ensures
        thumb.reaches_both_ends(of),
{
    let length = thumb.length();
    let lengths = thumb.lengths();

    assert(!is_nan(lengths[0]) && !is_nan(lengths[1]) && !is_nan(lengths[2]) && !is_nan(lengths[3])
        && !is_nan(lengths[4]) && !is_nan(lengths[5]));
    assert(at_most(zero(), thumb.track) <==> of(zero()) <= of(thumb.track));
    assert(at_most(length, thumb.track) && of(length) <= of(thumb.track));
    assert(at_most(zero(), length) && of(zero()) <= of(length));
    assert(at_most(thumb.travel, zero()) <==> of(thumb.travel) <= of(zero()));
    assert(at_most(thumb.range, zero()) <==> of(thumb.range) <= of(zero()));
    if of(thumb.range) > 0 && of(thumb.travel) > 0 {
        let a = of(thumb.along);
        let t = of(thumb.travel);
        let o = of(thumb.offset);
        let r = of(thumb.range);

        assert(0 <= a <= t) by (nonlinear_arith)
            requires
                a * r == t * o,
                0 <= o <= r,
                r > 0,
                t > 0,
        ;
        assert(o == 0 ==> a == 0) by (nonlinear_arith)
            requires
                a * r == t * o,
                r > 0,
        ;
        assert(o == r ==> a == t) by (nonlinear_arith)
            requires
                a * r == t * o,
                r > 0,
        ;
    } else if of(thumb.range) <= 0 {
        assert(at_most(thumb.content, thumb.viewport) <==> of(thumb.content) <= of(thumb.viewport));
    }
}

/// There is a horizontal bar exactly if the content is wider than the body, and a
/// vertical one exactly if it is higher than what the horizontal one leaves of the
/// body, as far as the policies allow. Either thumb reaches both ends of its own
/// track, which the other bar may have shortened.
pub proof fn both_thumbs_reach_both_ends_of_their_tracks(
    of: spec_fn(Px) -> int,
    vertical: Policy,
    horizontal: Policy,
    content: Point,
    body: Point,
    width: int,
    squeezed: Point,
    down: Thumb,
    across: Thumb,
)
    requires
        measures(of),
        numbers(seq![content.x, content.y, body.x, body.y, squeezed.y]),
        0 <= width < of(body.x),
        width < of(body.y),
        of(squeezed.x) == of(body.x) - width,
        of(squeezed.y) == of(body.y) - width,
        ({
            let shown = bars_of(vertical, horizontal, content, body, squeezed.y);
            let tracks = tracks_of(shown.0, shown.1, body, squeezed);

            &&& down.track == tracks.y && down.viewport == tracks.y && down.content == content.y
            &&& across.track == tracks.x && across.viewport == body.x && across.content == content.x
        }),
        down.is_placed(of),
        across.is_placed(of),
    ensures
        ({
            let shown = bars_of(vertical, horizontal, content, body, squeezed.y);
            let left = of(body.y) - if shown.1 {
                width
            } else {
                0
            };

            &&& shown.1 <==> horizontal == Policy::Auto && of(content.x) > of(body.x)
            &&& shown.0 <==> vertical == Policy::Auto && of(content.y) > left
            &&& of(down.track) == left
            &&& of(across.track) == of(body.x) - if shown.0 {
                width
            } else {
                0
            }
        }),
        down.reaches_both_ends(of),
        across.reaches_both_ends(of),
{
    let lengths = seq![content.x, content.y, body.x, body.y, squeezed.y];

    assert(!is_nan(lengths[0]) && !is_nan(lengths[1]) && !is_nan(lengths[2]) && !is_nan(lengths[3])
        && !is_nan(lengths[4]));
    assert(at_most(content.x, body.x) <==> of(content.x) <= of(body.x));
    assert(at_most(content.y, body.y) <==> of(content.y) <= of(body.y));
    assert(at_most(content.y, squeezed.y) <==> of(content.y) <= of(squeezed.y));
    a_thumb_reaches_both_ends_of_its_track(of, down);
    a_thumb_reaches_both_ends_of_its_track(of, across);
}

/// Dragging the thumb to where an offset puts it leads back to that offset.
pub proof fn dragging_the_thumb_undoes_placing_it(
    of: spec_fn(Px) -> int,
    travel: Px,
    range: Px,
    offset: Px,
    along: Px,
    back: Px,
)
    requires
        measures(of),
        numbers(seq![travel, range, offset, back]),
        of(travel) > 0,
        of(range) > 0,
        0 <= of(offset) <= of(range),
        in_proportion(of(along), of(travel), of(offset), of(range)),
        in_proportion(of(back), of(range), of(thumb_at(travel, range, along)), of(travel)),
    ensures
        equal(dragged_to(travel, range, back), offset),
{
    let a = of(along);
    let t = of(travel);
    let o = of(offset);
    let r = of(range);
    let b = of(back);

    let lengths = seq![travel, range, offset, back];

    assert(!is_nan(lengths[0]) && !is_nan(lengths[1]) && !is_nan(lengths[2]) && !is_nan(
        lengths[3],
    ));
    assert(at_most(travel, zero()) <==> of(travel) <= of(zero()));
    assert(at_most(range, zero()) <==> of(range) <= of(zero()));
    assert(b == o) by (nonlinear_arith)
        requires
            a * r == t * o,
            b * t == r * a,
            t > 0,
    ;
    assert(of(zero()) <= of(offset));
    assert(at_most(back, offset) <==> of(back) <= of(offset));
    assert(at_most(offset, back) <==> of(offset) <= of(back));
    assert(at_most(zero(), back) <==> of(zero()) <= of(back));
    assert(at_most(back, range) <==> of(back) <= of(range));
}

/// Is everything from `start` to `end` visible at this offset, where what is
/// visible runs from `lead` past the offset to `reach` past it?
pub open spec fn in_view(start: int, end: int, offset: int, lead: int, reach: int) -> bool {
    offset + lead <= start && end <= offset + reach
}

/// Revealing a span that is no longer than what is visible brings all of it into
/// view, and no other offset that does is nearer.
pub proof fn revealing_scrolls_the_least_amount(
    of: spec_fn(Px) -> int,
    offset: Px,
    span: Span,
    lead: int,
    reach: int,
    other: int,
)
    requires
        measures(of),
        numbers(seq![span.start, span.end, span.near, span.far]),
        of(span.near) == of(offset) + lead,
        of(span.far) == of(offset) + reach,
        of(span.to_start) == of(span.start) - lead,
        of(span.to_end) == of(span.end) - reach,
        of(span.end) - of(span.start) <= reach - lead,
    ensures
        ({
            let start = of(span.start);
            let end = of(span.end);
            let to = of(revealed(offset, span));
            let from = of(offset);

            &&& in_view(start, end, to, lead, reach)
            &&& in_view(start, end, other, lead, reach) ==> to == from || other <= to < from || from
                < to <= other
        }),
{
    let lengths = seq![span.start, span.end, span.near, span.far];

    assert(!is_nan(lengths[0]) && !is_nan(lengths[1]) && !is_nan(lengths[2]) && !is_nan(
        lengths[3],
    ));
    assert(at_most(span.near, span.start) <==> of(span.near) <= of(span.start));
    assert(at_most(span.end, span.far) <==> of(span.end) <= of(span.far));
}

/// A point on a row finds that row, one that is painted: what is found lies
/// between the top and the bottom of the row it is drawn as, and is among the
/// rows on screen. Only a point outside the body, or past the last row, finds
/// none.
pub proof fn a_row_is_found_where_it_is_painted(
    of: spec_fn(Px) -> int,
    inside: bool,
    content_y: Px,
    row: usize,
    top: usize,
    bottom: usize,
    count: usize,
    height: int,
    start: int,
    end: int,
)
    requires
        measures(of),
        !is_nan(content_y),
        height > 0,
        0 <= start <= end,
        top * height <= start < (top + 1) * height,
        bottom * height <= end < (bottom + 1) * height,
        inside ==> start <= of(content_y) <= end,
        inside ==> row * height <= of(content_y) < (row + 1) * height,
    ensures
        match row_under(inside, false, content_y, row, count) {
            Some(found) => {
                &&& inside
                &&& found < count
                &&& found * height <= of(content_y) < (found + 1) * height
                &&& window(false, top, bottom, count).0 <= found
                &&& found < window(false, top, bottom, count).1
            },
            None => !inside || of(content_y) >= count * height,
        },
{
    let y = of(content_y);

    assert(at_most(zero(), content_y) <==> of(zero()) <= of(content_y));
    if inside {
        assert(top <= row) by (nonlinear_arith)
            requires
                top * height <= y,
                y < (row + 1) * height,
                height > 0,
        ;
        assert(row <= bottom) by (nonlinear_arith)
            requires
                row * height <= y,
                y < (bottom + 1) * height,
                height > 0,
        ;
        if row >= count {
            assert(count * height <= row * height) by (nonlinear_arith)
                requires
                    count <= row,
                    height > 0,
            ;
        }
    }
}

/// Where a point of the content shows on screen is where the content is found
/// again: inside the frozen strip whatever the scroll offset, and beyond it
/// unless the point is scrolled underneath the strip. The edge of the strip
/// itself belongs to both, and is found again while nothing is scrolled.
pub proof fn what_shows_on_screen_is_found_there(
    of: spec_fn(Px) -> int,
    content: Px,
    frozen: Px,
    offset: int,
    shifted: Px,
    back: Px,
)
    requires
        measures(of),
        numbers(seq![content, frozen, shifted]),
        of(content) == of(frozen) ==> offset == 0,
        of(shifted) == of(content) - offset,
        of(content) > of(frozen) ==> of(shifted) >= of(frozen),
        of(back) == of(on_screen(content, frozen, content, shifted)) + offset,
    ensures
        of(in_content(on_screen(content, frozen, content, shifted), frozen, back)) == of(content),
{
    let lengths = seq![content, frozen, shifted];

    assert(!is_nan(lengths[0]) && !is_nan(lengths[1]) && !is_nan(lengths[2]));
    assert(at_most(content, frozen) <==> of(content) <= of(frozen));
    assert(at_most(frozen, content) <==> of(frozen) <= of(content));
    assert(at_most(frozen, shifted) <==> of(frozen) <= of(shifted));
}

} // verus!
