//! How a quad is fitted to the rounded frame, corner by corner.

use vstd::prelude::*;
use crate::frame::{
    cut_of, fitted, inset_of, merged_with, narrowing, radius_of, shortening, shows, Clipped, Corner,
    Corners,
};
use crate::px::{at_most, below, is_nan, zero, Px};

verus! {

/// All that a corner is made of is a number.
pub open spec fn in_numbers(corner: Corner) -> bool {
    !is_nan(corner.arc) && !is_nan(corner.dx) && !is_nan(corner.dy) && !is_nan(corner.into_x)
        && !is_nan(corner.into_y)
}

/// A corner leaves a quad alone that keeps clear of its arc on either axis. Of the
/// others it rounds a fill that is on both of its edges (within half a pixel), and
/// leaves a fill alone that is not; a rule, thinner than the arc, it cuts along its
/// longer side.
pub proof fn a_corner_rounds_fills_and_cuts_rules(corner: Corner, width: Px, height: Px)
    requires
        in_numbers(corner),
        !is_nan(width) && !is_nan(height),
    ensures
        ({
            let half = Px { bits: 0x3f00_0000 };
            let clear = !below(zero(), corner.arc) || !below(corner.dx, corner.arc) || !below(
                corner.dy,
                corner.arc,
            );
            let fill = !below(width, corner.arc) && !below(height, corner.arc);
            let flush = !below(half, corner.dx) && !below(half, corner.dy);
            let cut = cut_of(corner, width, height);

            &&& clear ==> cut is Clear
            &&& !clear && fill && flush ==> cut is Round
            &&& !clear && fill && !flush ==> cut is Clear
            &&& !clear && !fill && !below(width, height) ==> cut is Narrow
            &&& !clear && !fill && below(width, height) ==> cut is Shorten
        }),
{
}

/// A corner that rounds gives its radius, as far as half the quad goes; one that does
/// not gives none.
pub proof fn a_rounded_corner_takes_the_radius(quad: Clipped, corner: Corner)
    requires
        in_numbers(corner),
        !is_nan(quad.half_width) && !is_nan(quad.half_height),
    ensures
        ({
            let radius = radius_of(quad, corner);
            let round = cut_of(corner, quad.width, quad.height) is Round;

            &&& !round ==> radius == zero()
            &&& round ==> at_most(radius, corner.arc) && at_most(radius, quad.half_width)
                && at_most(radius, quad.half_height)
            &&& round ==> radius == corner.arc || radius == quad.half_width || radius
                == quad.half_height
        }),
{
}

/// A corner takes off a rule what its arc reaches into it, across or down as it cuts,
/// and never less than nothing.
pub proof fn a_cut_corner_takes_off_its_arc(quad: Clipped, corner: Corner)
    ensures
        ({
            let cut = cut_of(corner, quad.width, quad.height);

            &&& !(cut is Narrow) ==> narrowing(quad, corner) == zero()
            &&& !(cut is Shorten) ==> shortening(quad, corner) == zero()
            &&& cut is Narrow && below(zero(), corner.into_x) ==> narrowing(quad, corner)
                == corner.into_x
            &&& cut is Narrow && at_most(corner.into_x, zero()) ==> narrowing(quad, corner)
                == zero()
            &&& cut is Shorten && below(zero(), corner.into_y) ==> shortening(quad, corner)
                == corner.into_y
            &&& cut is Shorten && at_most(corner.into_y, zero()) ==> shortening(quad, corner)
                == zero()
        }),
{
}

/// Each corner of a fitted quad has the radius of that corner of the frame. Each side
/// is cut by the two corners at its ends, as far as the one that takes more.
pub proof fn each_side_is_cut_by_its_own_corners(quad: Clipped)
    requires
        in_numbers(quad.top_left) && in_numbers(quad.top_right),
        in_numbers(quad.bottom_left) && in_numbers(quad.bottom_right),
    ensures
        ({
            let fit = fitted(quad);
            let nw = quad.top_left;
            let ne = quad.top_right;
            let sw = quad.bottom_left;
            let se = quad.bottom_right;

            &&& fit.rounded.top_left == radius_of(quad, nw)
            &&& fit.rounded.top_right == radius_of(quad, ne)
            &&& fit.rounded.bottom_left == radius_of(quad, sw)
            &&& fit.rounded.bottom_right == radius_of(quad, se)
            &&& at_most(narrowing(quad, nw), fit.trimmed.left)
            &&& at_most(narrowing(quad, sw), fit.trimmed.left)
            &&& fit.trimmed.left == narrowing(quad, nw) || fit.trimmed.left == narrowing(quad, sw)
            &&& at_most(narrowing(quad, ne), fit.trimmed.right)
            &&& at_most(narrowing(quad, se), fit.trimmed.right)
            &&& fit.trimmed.right == narrowing(quad, ne) || fit.trimmed.right == narrowing(quad, se)
            &&& at_most(shortening(quad, nw), fit.trimmed.top)
            &&& at_most(shortening(quad, ne), fit.trimmed.top)
            &&& fit.trimmed.top == shortening(quad, nw) || fit.trimmed.top == shortening(quad, ne)
            &&& at_most(shortening(quad, sw), fit.trimmed.bottom)
            &&& at_most(shortening(quad, se), fit.trimmed.bottom)
            &&& fit.trimmed.bottom == shortening(quad, sw) || fit.trimmed.bottom == shortening(
                quad,
                se,
            )
        }),
{
}

/// A quad shows if it has both a width and a height.
pub proof fn a_quad_shows_if_it_has_a_size(width: Px, height: Px)
    ensures
        below(zero(), width) && below(zero(), height) ==> shows(width, height),
        at_most(width, zero()) || at_most(height, zero()) ==> !shows(width, height),
{
}

/// An arc reaches in up to its own end, and no further.
pub proof fn an_arc_ends_at_its_radius(radius: Px, depth: Px, reach: Px)
    ensures
        below(depth, radius) ==> inset_of(radius, depth, reach) == reach,
        at_most(radius, depth) ==> inset_of(radius, depth, reach) == zero(),
{
}

/// Of the radius that a quad has and the one it is given the larger counts, at each
/// corner by itself.
pub proof fn the_larger_radius_counts(fitted: Corners, own: Corners)
    requires
        !is_nan(fitted.top_left) && !is_nan(own.top_left),
        !is_nan(fitted.top_right) && !is_nan(own.top_right),
        !is_nan(fitted.bottom_left) && !is_nan(own.bottom_left),
        !is_nan(fitted.bottom_right) && !is_nan(own.bottom_right),
    ensures
        ({
            let both = merged_with(fitted, own);

            &&& both.top_left == (if below(fitted.top_left, own.top_left) {
                own.top_left
            } else {
                fitted.top_left
            })
            &&& both.top_right == (if below(fitted.top_right, own.top_right) {
                own.top_right
            } else {
                fitted.top_right
            })
            &&& both.bottom_left == (if below(fitted.bottom_left, own.bottom_left) {
                own.bottom_left
            } else {
                fitted.bottom_left
            })
            &&& both.bottom_right == (if below(fitted.bottom_right, own.bottom_right) {
                own.bottom_right
            } else {
                fitted.bottom_right
            })
        }),
{
}

} // verus!
