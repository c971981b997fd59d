//! Fitting quads to a rounded frame.

use advanced_table::frame::{
    arc_inset, fit, merge, survives, Clipped, Corner, Corners, Fitted,
};
use advanced_table::px::Px;

const RADIUS: f32 = 8.0;

#[derive(Debug, Clone, Copy, PartialEq)]
struct Rect {
    x: f32,
    y: f32,
    width: f32,
    height: f32,
}

const FRAME: Rect = Rect { x: 100.0, y: 50.0, width: 400.0, height: 300.0 };

fn px(value: f32) -> Px {
    Px::from_bits(value.to_bits())
}

fn f(value: Px) -> f32 {
    f32::from_bits(value.to_bits())
}

fn inset(radius: f32, depth: f32) -> f32 {
    let reach = radius - (radius * radius - (radius - depth) * (radius - depth)).sqrt();

    f(arc_inset(px(radius), px(depth), px(reach)))
}

/// The quad cut to the frame, and its radii from the top left on round.
fn fitted(frame: Rect, arc: f32, quad: Rect) -> Option<(Rect, [f32; 4])> {
    let left = quad.x.max(frame.x);
    let top = quad.y.max(frame.y);
    let right = (quad.x + quad.width).min(frame.x + frame.width);
    let bottom = (quad.y + quad.height).min(frame.y + frame.height);
    let (width, height) = (right - left, bottom - top);

    if width <= 0.0 || height <= 0.0 {
        return None;
    }
    let corner = |dx: f32, dy: f32| Corner {
        arc: px(arc),
        dx: px(dx),
        dy: px(dy),
        into_x: px(inset(arc, dy) - dx),
        into_y: px(inset(arc, dx) - dy),
    };
    let (dl, dt) = (left - frame.x, top - frame.y);
    let (dr, db) = (frame.x + frame.width - right, frame.y + frame.height - bottom);
    let Fitted { rounded, trimmed } = fit(&Clipped {
        width: px(width),
        height: px(height),
        half_width: px(width / 2.0),
        half_height: px(height / 2.0),
        top_left: corner(dl, dt),
        top_right: corner(dr, dt),
        bottom_right: corner(dr, db),
        bottom_left: corner(dl, db),
    });
    let cut = Rect {
        x: left + f(trimmed.left),
        y: top + f(trimmed.top),
        width: width - f(trimmed.left) - f(trimmed.right),
        height: height - f(trimmed.top) - f(trimmed.bottom),
    };

    if !survives(px(cut.width), px(cut.height)) {
        return None;
    }
    Some((
        cut,
        [
            f(rounded.top_left),
            f(rounded.top_right),
            f(rounded.bottom_right),
            f(rounded.bottom_left),
        ],
    ))
}

#[test]
fn a_band_takes_the_corners_it_reaches() {
    let (_, radii) =
        fitted(FRAME, RADIUS, Rect { height: 30.0, ..FRAME }).expect("the header band survives");

    assert_eq!(radii, [RADIUS, RADIUS, 0.0, 0.0]);

    let (middle, radii) = fitted(FRAME, RADIUS, Rect { y: 200.0, height: 30.0, ..FRAME })
        .expect("the row survives");

    assert_eq!(radii, [0.0; 4]);
    assert_eq!(middle.width, 400.0);
}

#[test]
fn an_overhanging_band_is_cut_to_the_frame_before_it_is_rounded() {
    let (last_row, radii) = fitted(
        FRAME,
        RADIUS,
        Rect { x: 100.0, y: 320.0, width: 1_200.0, height: 30.0 },
    )
    .expect("the row survives");

    assert_eq!(last_row.width, 400.0);
    assert_eq!(radii[2], RADIUS);
    assert_eq!(radii[3], RADIUS);
}

#[test]
fn a_rule_is_shortened_out_of_the_corner_rather_than_rounded() {
    let (rule, radii) =
        fitted(FRAME, RADIUS, Rect { width: 1.0, ..FRAME }).expect("the rule survives");

    assert_eq!(radii, [0.0; 4]);
    assert_eq!(rule.y, 50.0 + RADIUS);
    assert_eq!(rule.height, 300.0 - RADIUS * 2.0);

    let (inset, _) =
        fitted(FRAME, RADIUS, Rect { x: 100.0 + RADIUS / 2.0, width: 1.0, ..FRAME })
            .expect("the rule survives");

    assert!(inset.y > 50.0 && inset.y < 50.0 + RADIUS);
    assert_eq!(inset.x, 100.0 + RADIUS / 2.0);

    let (interior, _) =
        fitted(FRAME, RADIUS, Rect { x: 250.0, width: 1.0, ..FRAME }).expect("the rule survives");

    assert_eq!(interior.y, 50.0);
    assert_eq!(interior.height, 300.0);
}

#[test]
fn the_frame_follows_the_layer_translation() {
    let offset = 120.0;
    let frame = Rect { y: FRAME.y + offset, ..FRAME };
    let (_, radii) = fitted(
        frame,
        RADIUS,
        Rect { x: 100.0, y: 50.0 + 300.0 + offset - 30.0, width: 400.0, height: 30.0 },
    )
    .expect("the row survives");

    assert_eq!(radii[3], RADIUS);
    assert!(fitted(
        frame,
        RADIUS,
        Rect { x: 100.0, y: 50.0 + 600.0 + offset, width: 400.0, height: 30.0 },
    )
    .is_none());
}

#[test]
fn a_square_frame_changes_nothing() {
    let quad = Rect { x: 100.0, y: 50.0, width: 400.0, height: 30.0 };
    let (cut, radii) = fitted(FRAME, 0.0, quad).expect("the band survives");

    assert_eq!(cut, quad);
    assert_eq!(radii, [0.0; 4]);
}

#[test]
fn a_fill_that_starts_inside_a_corner_is_left_square() {
    let (_, radii) = fitted(FRAME, RADIUS, Rect { x: 103.0, y: 53.0, width: 50.0, height: 50.0 })
        .expect("the fill survives");

    assert_eq!(radii, [0.0; 4]);
}

#[test]
fn a_small_fill_is_rounded_by_half_of_it_at_most() {
    let (_, radii) = fitted(FRAME, RADIUS, Rect { width: 10.0, height: 10.0, ..FRAME })
        .expect("the fill survives");

    assert_eq!(radii, [5.0, 0.0, 0.0, 0.0]);
}

#[test]
fn a_rule_inside_the_arc_does_not_survive() {
    assert!(fitted(FRAME, 40.0, Rect { width: 30.0, height: 1.0, ..FRAME }).is_none());
}

#[test]
fn a_thumb_keeps_its_own_rounding_where_the_frame_imposes_less() {
    let corners = |a: f32, b: f32, c: f32, d: f32| Corners {
        top_left: px(a),
        top_right: px(b),
        bottom_right: px(c),
        bottom_left: px(d),
    };

    assert_eq!(
        merge(corners(8.0, 0.0, 4.0, 1.0), corners(4.0, 4.0, 4.0, 4.0)),
        corners(8.0, 4.0, 4.0, 4.0),
    );
}
