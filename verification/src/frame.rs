//! The rounded outline that every layer has to stay inside.
//!
//! A layer is clipped to a **rectangle**, so each quad is fitted to the shape on
//! its way to the renderer. A fill that reaches a corner of the frame takes
//! that corner's radius. A rule is thinner than the arc, so a radius on it
//! would round away to nothing; it is shortened along its length instead.

use vstd::prelude::*;
use crate::px::{at_most, below, larger, smaller, zero, Px};

verus! {

/// Bit pattern of one half: a quad edge this close to the frame's is treated as being
/// on it.
pub const ON_EDGE: u32 = 0x3f00_0000;

/// One value for each corner.
#[derive(Debug, Clone, Copy, PartialEq)]
pub struct Corners {
    pub top_left: Px,
    pub top_right: Px,
    pub bottom_right: Px,
    pub bottom_left: Px,
}

/// One value for each side.
#[derive(Debug, Clone, Copy, PartialEq)]
pub struct Sides {
    pub left: Px,
    pub top: Px,
    pub right: Px,
    pub bottom: Px,
}

/// A corner of the frame, as a quad inside the frame sees it.
#[derive(Debug, Clone, Copy, PartialEq)]
pub struct Corner {
    /// Radius of the frame at this corner.
    pub arc: Px,
    /// How far the quad keeps clear of the corner on each axis.
    pub dx: Px,
    pub dy: Px,
    /// How far the arc reaches into the quad on each axis.
    pub into_x: Px,
    pub into_y: Px,
}

/// What a corner does to a quad.
#[derive(Debug, Clone, Copy, PartialEq, Eq, Structural)]
pub enum Cut {
    /// Nothing: the quad keeps clear of it, or cannot be rounded against it.
    Clear,
    /// The quad takes the corner's radius.
    Round,
    /// The quad is shortened across, at the side of the corner.
    Narrow,
    /// The quad is shortened down, at the side of the corner.
    Shorten,
}

/// Is the quad on both edges of the frame that meet in this corner?
pub open spec fn on_edge(corner: Corner) -> bool {
    at_most(corner.dx, Px { bits: ON_EDGE }) && at_most(corner.dy, Px { bits: ON_EDGE })
}

/// What a corner does to a quad of this size.
pub open spec fn cut_of(corner: Corner, width: Px, height: Px) -> Cut {
    if at_most(corner.arc, zero()) || at_most(corner.arc, corner.dx) || at_most(
        corner.arc,
        corner.dy,
    ) {
        Cut::Clear
    } else if at_most(corner.arc, width) && at_most(corner.arc, height) {
        if on_edge(corner) {
            Cut::Round
        } else {
            Cut::Clear
        }
    } else if at_most(height, width) {
        Cut::Narrow
    } else {
        Cut::Shorten
    }
}

/// What a corner does to a quad of this size.
///
/// Clear of the arc on either axis means clear of it entirely. A fill that
/// starts inside the corner has no edge to round against, and rounding its own
/// corner would punch a notch out of the middle of a band. A rule is shortened
/// along its long axis; shortening the short one would rub it out.
pub fn cut(corner: Corner, width: Px, height: Px) -> (cut: Cut)
    ensures
        cut == cut_of(corner, width, height),
{
    let edge = Px { bits: ON_EDGE };

    if corner.arc.is_at_most(Px::zero()) || corner.arc.is_at_most(corner.dx)
        || corner.arc.is_at_most(corner.dy) {
        Cut::Clear
    } else if corner.arc.is_at_most(width) && corner.arc.is_at_most(height) {
        if corner.dx.is_at_most(edge) && corner.dy.is_at_most(edge) {
            Cut::Round
        } else {
            Cut::Clear
        }
    } else if height.is_at_most(width) {
        Cut::Narrow
    } else {
        Cut::Shorten
    }
}

/// A quad that has been clipped to the frame's rectangle.
#[derive(Debug, Clone, Copy, PartialEq)]
pub struct Clipped {
    pub width: Px,
    pub height: Px,
    /// Half of the width and of the height.
    pub half_width: Px,
    pub half_height: Px,
    pub top_left: Corner,
    pub top_right: Corner,
    pub bottom_right: Corner,
    pub bottom_left: Corner,
}

/// How a quad is fitted to the frame: the radii it takes, and how much is taken
/// off at each side.
#[derive(Debug, Clone, Copy, PartialEq)]
pub struct Fitted {
    pub rounded: Corners,
    pub trimmed: Sides,
}

/// The radius that a quad takes at a corner. No more than half of the quad, on
/// either axis.
pub open spec fn radius_of(quad: Clipped, corner: Corner) -> Px {
    if cut_of(corner, quad.width, quad.height) == Cut::Round {
        smaller(smaller(corner.arc, quad.half_width), quad.half_height)
    } else {
        zero()
    }
}

/// What a corner takes off a quad across.
pub open spec fn narrowing(quad: Clipped, corner: Corner) -> Px {
    if cut_of(corner, quad.width, quad.height) == Cut::Narrow {
        larger(zero(), corner.into_x)
    } else {
        zero()
    }
}

/// What a corner takes off a quad down.
pub open spec fn shortening(quad: Clipped, corner: Corner) -> Px {
    if cut_of(corner, quad.width, quad.height) == Cut::Shorten {
        larger(zero(), corner.into_y)
    } else {
        zero()
    }
}

/// How a quad is fitted to the frame.
pub open spec fn fitted(quad: Clipped) -> Fitted {
    Fitted {
        rounded: Corners {
            top_left: radius_of(quad, quad.top_left),
            top_right: radius_of(quad, quad.top_right),
            bottom_right: radius_of(quad, quad.bottom_right),
            bottom_left: radius_of(quad, quad.bottom_left),
        },
        trimmed: Sides {
            left: larger(narrowing(quad, quad.top_left), narrowing(quad, quad.bottom_left)),
            right: larger(narrowing(quad, quad.top_right), narrowing(quad, quad.bottom_right)),
            top: larger(shortening(quad, quad.top_left), shortening(quad, quad.top_right)),
            bottom: larger(
                shortening(quad, quad.bottom_right),
                shortening(quad, quad.bottom_left),
            ),
        },
    }
}

fn radius(quad: &Clipped, corner: Corner) -> (radius: Px)
    ensures
        radius == radius_of(*quad, corner),
{
    match cut(corner, quad.width, quad.height) {
        Cut::Round => corner.arc.min(quad.half_width).min(quad.half_height),
        _ => Px::zero(),
    }
}

fn narrow(quad: &Clipped, corner: Corner) -> (taken: Px)
    ensures
        taken == narrowing(*quad, corner),
{
    match cut(corner, quad.width, quad.height) {
        Cut::Narrow => Px::zero().max(corner.into_x),
        _ => Px::zero(),
    }
}

fn shorten(quad: &Clipped, corner: Corner) -> (taken: Px)
    ensures
        taken == shortening(*quad, corner),
{
    match cut(corner, quad.width, quad.height) {
        Cut::Shorten => Px::zero().max(corner.into_y),
        _ => Px::zero(),
    }
}

/// Fit a quad to the frame. Of two corners that take something off the same
/// side, the one that takes more decides.
pub fn fit(quad: &Clipped) -> (fit: Fitted)
    ensures
        fit == fitted(*quad),
{
    Fitted {
        rounded: Corners {
            top_left: radius(quad, quad.top_left),
            top_right: radius(quad, quad.top_right),
            bottom_right: radius(quad, quad.bottom_right),
            bottom_left: radius(quad, quad.bottom_left),
        },
        trimmed: Sides {
            left: narrow(quad, quad.top_left).max(narrow(quad, quad.bottom_left)),
            right: narrow(quad, quad.top_right).max(narrow(quad, quad.bottom_right)),
            top: shorten(quad, quad.top_left).max(shorten(quad, quad.top_right)),
            bottom: shorten(quad, quad.bottom_right).max(shorten(quad, quad.bottom_left)),
        },
    }
}

/// Does anything of a quad of this size show?
pub open spec fn shows(width: Px, height: Px) -> bool {
    below(zero(), width) && below(zero(), height)
}

/// Does anything of a quad that was cut down to this size survive?
pub fn survives(width: Px, height: Px) -> (survives: bool)
    ensures
        survives == shows(width, height),
{
    Px::zero().is_below(width) && Px::zero().is_below(height)
}

/// How far in from one edge a corner's arc has come, `depth` along the other.
pub open spec fn inset_of(radius: Px, depth: Px, reach: Px) -> Px {
    if at_most(radius, depth) {
        zero()
    } else {
        reach
    }
}

/// How far in from one edge a corner's arc has come, `depth` along the other:
/// nothing once past the corner, else `reach`.
pub fn arc_inset(radius: Px, depth: Px, reach: Px) -> (inset: Px)
    ensures
        inset == inset_of(radius, depth, reach),
{
    if radius.is_at_most(depth) {
        Px::zero()
    } else {
        reach
    }
}

/// The radii of a quad that has some of its own.
pub open spec fn merged_with(fitted: Corners, own: Corners) -> Corners {
    Corners {
        top_left: larger(fitted.top_left, own.top_left),
        top_right: larger(fitted.top_right, own.top_right),
        bottom_right: larger(fitted.bottom_right, own.bottom_right),
        bottom_left: larger(fitted.bottom_left, own.bottom_left),
    }
}

/// The radii of a quad that has some of its own: at each corner the larger.
pub fn merge(fitted: Corners, own: Corners) -> (merged: Corners)
    ensures
        merged == merged_with(fitted, own),
{
    Corners {
        top_left: fitted.top_left.max(own.top_left),
        top_right: fitted.top_right.max(own.top_right),
        bottom_right: fitted.bottom_right.max(own.bottom_right),
        bottom_left: fitted.bottom_left.max(own.bottom_left),
    }
}

/// Nothing is taken off any side.
pub open spec fn untrimmed(trimmed: Sides) -> bool {
    trimmed.left == zero() && trimmed.top == zero() && trimmed.right == zero() && trimmed.bottom
        == zero()
}

/// No corner is rounded.
pub open spec fn square(corners: Corners) -> bool {
    corners.top_left == zero() && corners.top_right == zero() && corners.bottom_right == zero()
        && corners.bottom_left == zero()
}

/// A frame without a radius changes nothing.
pub proof fn a_square_frame_changes_no_quad(quad: Clipped)
    requires
        at_most(quad.top_left.arc, zero()),
        at_most(quad.top_right.arc, zero()),
        at_most(quad.bottom_right.arc, zero()),
        at_most(quad.bottom_left.arc, zero()),
    ensures
        square(fitted(quad).rounded),
        untrimmed(fitted(quad).trimmed),
{
}

/// A fill that is at least as large as the arcs is never cut short, and one that
/// is thinner than the arcs is never rounded. Either is cut along one axis only.
pub proof fn fills_are_rounded_and_rules_are_shortened(quad: Clipped, arc: Px)
    requires
        quad.top_left.arc == arc,
        quad.top_right.arc == arc,
        quad.bottom_right.arc == arc,
        quad.bottom_left.arc == arc,
    ensures
        at_most(arc, quad.width) && at_most(arc, quad.height) ==> untrimmed(fitted(quad).trimmed),
        below(quad.width, arc) || below(quad.height, arc) ==> square(fitted(quad).rounded),
        at_most(quad.height, quad.width) ==> fitted(quad).trimmed.top == zero() && fitted(
            quad,
        ).trimmed.bottom == zero(),
        !at_most(quad.height, quad.width) ==> fitted(quad).trimmed.left == zero() && fitted(
            quad,
        ).trimmed.right == zero(),
{
}

/// A band takes the radius of a corner it reaches, and of no other.
pub proof fn a_band_is_rounded_where_it_reaches_a_corner(quad: Clipped, corner: Corner)
    requires
        below(Px { bits: ON_EDGE }, corner.arc),
        at_most(corner.arc, quad.width),
        at_most(corner.arc, quad.height),
        at_most(corner.arc, quad.half_width),
        at_most(corner.arc, quad.half_height),
    ensures
        on_edge(corner) ==> radius_of(quad, corner) == corner.arc,
        !on_edge(corner) ==> radius_of(quad, corner) == zero(),
{
}

} // verus!
