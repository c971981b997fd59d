//! Scroll offsets and scrollbars.

use advanced_table::px::{Point, Px};
use advanced_table::scroll;
use advanced_table::scroll::{
    bars, bring_into_view, clamp_offset, lane, needs_bar, wheel, wheel_step, Policy, Span, MIN_THUMB,
};

const TRACK: f32 = 400.0;
const VIEW: f32 = 300.0;
const CONTENT: f32 = 40_000.0;

fn px(value: f32) -> Px {
    Px::from_bits(value.to_bits())
}

fn f(value: Px) -> f32 {
    f32::from_bits(value.to_bits())
}

fn point(x: f32, y: f32) -> Point {
    Point { x: px(x), y: px(y) }
}

fn approx(a: f32, b: f32) -> bool {
    (a - b).abs() < 0.01
}

fn thumb_length(track: f32, viewport: f32, content: f32) -> f32 {
    let share = track * (viewport / content);

    f(scroll::thumb_length(px(track), px(viewport), px(content), px(share)))
}

fn max_offset(viewport: (f32, f32), content: (f32, f32)) -> (f32, f32) {
    let limit = scroll::max_offset(point(content.0 - viewport.0, content.1 - viewport.1));

    (f(limit.x), f(limit.y))
}

fn thumb_position(track: f32, viewport: f32, content: f32, offset: f32) -> f32 {
    let travel = track - thumb_length(track, viewport, content);
    let range = (content - viewport).max(0.0);

    f(scroll::thumb_position(px(travel), px(range), px(travel * (offset / range))))
}

fn offset_from_thumb(track: f32, viewport: f32, content: f32, position: f32) -> f32 {
    let travel = track - thumb_length(track, viewport, content);
    let range = (content - viewport).max(0.0);

    f(scroll::offset_from_thumb(px(travel), px(range), px(range * (position / travel))))
}

fn visible_rows(offset_y: f32, viewport: f32, row_height: f32, count: usize) -> (usize, usize) {
    let top = (offset_y / row_height).floor().max(0.0) as usize;
    let bottom = ((offset_y + viewport) / row_height).floor() as usize;

    scroll::visible_rows(row_height <= 0.0, top, bottom, count)
}

fn row_at(x: f32, y: f32, offset_y: f32, row_height: f32, count: usize) -> Option<usize> {
    let inside = (0.0..400.0).contains(&x) && (100.0..400.0).contains(&y);
    let content_y = y - 100.0 + offset_y;
    let row = (content_y / row_height).floor() as usize;

    scroll::row_at(inside, row_height <= 0.0, px(content_y), row, count)
}

#[test]
fn thumb_respects_minimum_length() {
    assert!(approx(thumb_length(TRACK, VIEW, CONTENT), f(Px { bits: MIN_THUMB })));
    assert!(approx(thumb_length(TRACK, VIEW, CONTENT), 24.0));
}

#[test]
fn fully_scrolled_puts_thumb_flush_with_track_end() {
    let max = CONTENT - VIEW;
    let pos = thumb_position(TRACK, VIEW, CONTENT, max);
    let len = thumb_length(TRACK, VIEW, CONTENT);

    assert!(approx(pos + len, TRACK));
}

#[test]
fn both_thumbs_reach_both_ends_of_their_tracks() {
    const WIDTH: f32 = 10.0;

    let viewport = (500.0, 300.0 - WIDTH);
    let content = (560.0, 360.0);
    let max = max_offset(viewport, content);
    let body = point(500.0, 300.0);
    let squeezed = point(500.0 - WIDTH, 300.0 - WIDTH);
    let (v, h) = bars(
        Policy::Auto,
        Policy::Auto,
        point(content.0, content.1),
        body,
        squeezed.y,
    );

    assert!(v, "vertical bar");
    assert!(h, "horizontal bar");

    let tracks = scroll::tracks(v, h, body, squeezed);
    let (track_width, track_height) = (f(tracks.x), f(tracks.y));

    assert!(approx(thumb_position(track_height, viewport.1, content.1, 0.0), 0.0));
    assert!(approx(thumb_position(track_width, viewport.0, content.0, 0.0), 0.0));
    assert!(approx(
        thumb_position(track_height, viewport.1, content.1, max.1)
            + thumb_length(track_height, viewport.1, content.1),
        track_height,
    ));
    assert!(approx(
        thumb_position(track_width, viewport.0, content.0, max.0)
            + thumb_length(track_width, viewport.0, content.0),
        track_width,
    ));
}

#[test]
fn offset_and_thumb_round_trip() {
    let max = CONTENT - VIEW;

    for fraction in [0.0, 0.25, 0.5, 0.75, 1.0] {
        let offset = max * fraction;
        let back = offset_from_thumb(
            TRACK,
            VIEW,
            CONTENT,
            thumb_position(TRACK, VIEW, CONTENT, offset),
        );

        assert!(approx(back, offset), "{fraction}: {offset} -> {back}");
    }
}

#[test]
fn dragging_past_either_end_clamps() {
    let max = CONTENT - VIEW;

    assert!(approx(offset_from_thumb(TRACK, VIEW, CONTENT, -500.0), 0.0));
    assert!(approx(offset_from_thumb(TRACK, VIEW, CONTENT, 9999.0), max));
}

#[test]
fn content_smaller_than_viewport_is_inert() {
    assert!(approx(thumb_length(400.0, 500.0, 400.0), 400.0));
    assert_eq!(max_offset((500.0, 500.0), (400.0, 400.0)), (0.0, 0.0));
    assert!(approx(offset_from_thumb(400.0, 500.0, 400.0, 999.0), 0.0));
}

#[test]
fn visible_row_range_is_bounded() {
    assert_eq!(visible_rows(0.0, 300.0, 30.0, 1000), (0, 11));
    assert_eq!(visible_rows(305.0, 300.0, 30.0, 1000), (10, 21));
    assert_eq!(visible_rows(29_999.0, 300.0, 30.0, 1000), (999, 1000));
}

#[test]
fn row_at_matches_the_drawn_position_while_scrolled() {
    assert_eq!(row_at(10.0, 105.0, 0.0, 30.0, 1000), Some(0));
    assert_eq!(row_at(10.0, 135.0, 0.0, 30.0, 1000), Some(1));
    assert_eq!(row_at(10.0, 105.0, 300.0, 30.0, 1000), Some(10));

    let (first, _) = visible_rows(300.0, 300.0, 30.0, 1000);

    assert_eq!(first, 10);
}

#[test]
fn row_at_rejects_points_outside_the_body_or_past_the_end() {
    assert_eq!(row_at(10.0, 50.0, 0.0, 30.0, 1000), None);
    assert_eq!(row_at(10.0, 500.0, 0.0, 30.0, 1000), None);
    assert_eq!(row_at(10.0, 390.0, 0.0, 30.0, 5), None);
    assert_eq!(row_at(10.0, 105.0, 0.0, 0.0, 5), None);
}

#[test]
fn each_bar_shortens_the_other_track() {
    let room = point(200.0, 200.0);
    let (v, h) = bars(Policy::Auto, Policy::Auto, point(500.0, 500.0), room, px(190.0));

    assert!(v, "vertical bar");
    assert!(h, "horizontal bar");

    let tracks = scroll::tracks(v, h, room, point(200.0 - 10.0, 200.0 - 10.0));

    assert!(approx(f(tracks.y), 190.0));
    assert!(approx(f(tracks.x), 190.0));

    // A bar that is alone keeps the whole length.
    let squeezed = point(190.0, 190.0);

    assert_eq!(scroll::tracks(true, false, room, squeezed), point(190.0, 200.0));
    assert_eq!(scroll::tracks(false, true, room, squeezed), point(200.0, 190.0));
}

#[test]
fn a_horizontal_bar_can_be_the_reason_a_vertical_one_is_needed() {
    let room = point(200.0, 200.0);
    let content = point(500.0, 195.0);
    let (v, h) = bars(Policy::Auto, Policy::Auto, content, room, px(190.0));

    assert!(h, "the horizontal bar is what starts this");
    assert!(v, "and the strip it takes makes the body overflow");
    assert!(max_offset((200.0, 190.0), (500.0, 195.0)).1 > 0.0);

    // Without the horizontal bar the content fits.
    assert_eq!(
        bars(Policy::Auto, Policy::Hidden, content, room, px(190.0)),
        (false, false),
    );
}

#[test]
fn a_hidden_bar_takes_no_room() {
    assert_eq!(Policy::default(), Policy::Auto);
    assert!(needs_bar(Policy::Auto, px(11.0), px(10.0)));
    assert!(!needs_bar(Policy::Auto, px(10.0), px(10.0)));
    assert!(!needs_bar(Policy::Hidden, px(11.0), px(10.0)));
    assert_eq!(lane(Policy::Hidden, px(11.0), px(10.0), px(3.0)), px(0.0));
    assert_eq!(lane(Policy::Auto, px(11.0), px(10.0), px(3.0)), px(3.0));
}

#[test]
fn an_offset_is_clamped_to_what_can_be_scrolled() {
    let limit = point(100.0, 50.0);

    assert_eq!(clamp_offset(point(-3.0, 60.0), limit), point(0.0, 50.0));
    assert_eq!(clamp_offset(point(40.0, 20.0), limit), point(40.0, 20.0));
    assert_eq!(clamp_offset(clamp_offset(point(400.0, -1.0), limit), limit), point(100.0, 0.0));
}

#[test]
fn rows_without_a_height_are_all_visible() {
    assert_eq!(scroll::visible_rows(true, 7, 9, 5), (0, 5));
    assert_eq!(scroll::visible_rows(false, 7, 9, 5), (5, 5));
    assert_eq!(scroll::visible_rows(false, 0, usize::MAX, 5), (0, 5));
}

#[test]
fn revealing_scrolls_the_least_amount() {
    let span = |start: f32, end: f32| Span {
        start: px(start),
        end: px(end),
        near: px(100.0),
        far: px(200.0),
        to_start: px(start),
        to_end: px(end - 100.0),
    };

    assert_eq!(bring_into_view(px(100.0), span(80.0, 110.0)), px(80.0));
    assert_eq!(bring_into_view(px(100.0), span(190.0, 220.0)), px(120.0));
    assert_eq!(bring_into_view(px(100.0), span(120.0, 150.0)), px(100.0));
}

#[test]
fn shift_turns_the_wheel_sideways() {
    let (x, y) = (px(1.0), px(2.0));
    let straight = Point { x, y };
    let turned = Point { x: y, y: x };

    assert_eq!(wheel(x, y, true, false, false), straight);
    assert_eq!(wheel(x, y, true, false, true), turned);
    assert_eq!(wheel(x, y, true, true, true), straight);
    assert_eq!(wheel(x, y, true, true, false), straight);
    assert_eq!(wheel(x, y, false, true, true), turned);
    assert_eq!(wheel(x, y, false, false, false), straight);
}

#[test]
fn lengths_keep_their_order_and_their_bits() {
    let values = [f32::NEG_INFINITY, -7.5, -0.25, 0.0, 1.0e-30, 0.5, 48.0, f32::INFINITY];

    for pair in values.windows(2) {
        assert!(px(pair[0]).is_below(px(pair[1])));
        assert!(px(pair[0]).is_at_most(px(pair[1])));
        assert!(px(pair[0]).precedes(px(pair[1])));
        assert!(!px(pair[1]).is_at_most(px(pair[0])));
        assert_eq!(px(pair[0]).max(px(pair[1])), px(pair[1]));
        assert_eq!(px(pair[0]).min(px(pair[1])), px(pair[0]));
    }
    for value in values {
        assert_eq!(f(px(value)).to_bits(), value.to_bits());
    }
    assert_eq!(px(-0.0), px(0.0));
    assert!(px(-0.0).precedes(px(0.0)) && !px(0.0).precedes(px(-0.0)));
    assert!(f(px(-0.0)).is_sign_negative());
    assert_eq!(px(9.0).clamp(px(1.0), px(5.0)), px(5.0));
    assert_eq!(px(-9.0).clamp(px(1.0), px(5.0)), px(1.0));
    assert_eq!(Px::zero(), px(0.0));
}

#[test]
fn a_line_of_the_wheel_scrolls_a_row() {
    assert_eq!(wheel_step(px(30.0)), px(30.0));
    assert_eq!(wheel_step(px(5.0)), px(16.0));
    assert_eq!(wheel_step(px(0.0)), px(16.0));
}

#[test]
fn nan_compares_with_nothing_and_gives_way_to_a_number() {
    let one = px(1.0);

    for nan in [px(f32::NAN), px(-f32::NAN)] {
        assert!(nan.is_nan() && !one.is_nan());
        assert_ne!(nan, nan);
        assert_ne!(nan, one);
        assert!(!nan.is_below(one) && !one.is_below(nan));
        assert!(!nan.is_at_most(nan) && !one.is_at_most(nan));
        assert_eq!((nan.max(one), one.max(nan)), (one, one));
        assert_eq!((nan.min(one), one.min(nan)), (one, one));
        assert!(nan.clamp(Px::zero(), one).is_nan());
        assert!(f(nan).is_nan());
    }
    for value in [f32::INFINITY, f32::NEG_INFINITY, 0.0, -0.0] {
        assert!(!px(value).is_nan());
    }
    assert!(px(f32::INFINITY).precedes(px(f32::NAN)));
    assert!(!point(0.0, f32::NAN).coincides(point(0.0, f32::NAN)));
    assert!(point(-0.0, 2.0).coincides(point(0.0, 2.0)));
}

#[test]
fn scrolling_takes_nan_as_the_numbers_do() {
    let nan = f32::NAN;

    // No comparison holds of it, so the proportional thumb is what is left.
    assert!(approx(thumb_length(TRACK, VIEW, nan), 24.0));
    assert!(approx(thumb_length(nan, VIEW, CONTENT), 24.0));
    assert_eq!(max_offset((nan, 10.0), (40.0, 40.0)), (0.0, 30.0));
    assert!(!needs_bar(Policy::Auto, px(nan), px(10.0)));
    assert!(!needs_bar(Policy::Auto, px(10.0), px(nan)));
    assert!(f(clamp_offset(point(nan, 5.0), point(10.0, 10.0)).x).is_nan());
    assert_eq!(scroll::row_at(true, false, px(nan), 0, 5), Some(0));
    assert_eq!(f(wheel_step(px(nan))), 16.0);
}
