//! Column widths.

use advanced_table::px::Px;
use advanced_table::sizing::{
    base_widths, deficit, fill_weight, growable, headroom, sample_rows, span_order, spread,
    weight_of, with_overrides, Overflow, Sizing, SpanRequest, Spread, Widths,
};

fn px(value: f32) -> Px {
    Px::from_bits(value.to_bits())
}

fn f(value: Px) -> f32 {
    f32::from_bits(value.to_bits())
}

fn all(values: &[f32]) -> Vec<Px> {
    values.iter().map(|&value| px(value)).collect()
}

fn fit(min: f32, max: f32) -> Sizing {
    Sizing::Fit { min: px(min), max: px(max) }
}

fn fill(weight: u16, min: f32) -> Sizing {
    Sizing::Fill { weight, min: px(min) }
}

fn approx(a: f32, b: f32) -> bool {
    (a - b).abs() < 0.01
}

fn resolve_widths(
    sizing: &[Sizing],
    intrinsic: &[f32],
    available: f32,
    spacing: f32,
    overflow: Overflow,
) -> Vec<f32> {
    let mut widths: Vec<f32> =
        base_widths(sizing, &all(intrinsic)).into_iter().map(f).collect();
    let gaps = spacing * (sizing.len() - 1) as f32;
    let slack = available - (widths.iter().sum::<f32>() + gaps);
    let total = fill_weight(sizing);

    match spread(px(slack), total, overflow) {
        Spread::Grow => {
            for (i, spec) in sizing.iter().enumerate() {
                if weight_of(*spec) > 0 {
                    widths[i] += slack * (weight_of(*spec) as f32 / total as f32);
                }
            }
        }
        Spread::Shrink => {
            let above: Vec<f32> = sizing
                .iter()
                .zip(&widths)
                .map(|(spec, width)| width - f(spec.min_width()))
                .collect();
            let room: Vec<f32> = headroom(sizing, &all(&above)).into_iter().map(f).collect();
            let sum: f32 = room.iter().sum();

            if sum > 0.0 {
                let taken = f(deficit(px(-slack), px(sum)));

                for i in 0..widths.len() {
                    widths[i] -= taken * (room[i] / sum);
                }
            }
        }
        Spread::Keep => {}
    }
    widths
}

fn apply_span_constraints(
    intrinsic: &mut [f32],
    spans: &[SpanRequest],
    sizing: &[Sizing],
    spacing: f32,
) {
    for span in span_order(spans) {
        let gaps = spacing * (span.end - span.start) as f32;
        let current = intrinsic[span.start..=span.end].iter().sum::<f32>() + gaps;
        let columns = growable(sizing, span, px(current));
        let missing = f(span.needed) - current;
        let base: f32 = columns.iter().map(|&i| intrinsic[i]).sum();

        for &i in &columns {
            let share = if base > 0.0 {
                intrinsic[i] / base
            } else {
                1.0 / columns.len() as f32
            };

            intrinsic[i] += missing * share;
        }
    }
}

fn request(start: usize, end: usize, needed: f32) -> SpanRequest {
    SpanRequest { start, end, needed: px(needed) }
}

#[test]
fn slack_goes_to_fill_columns_by_weight() {
    let sizing = [Sizing::Fixed(px(60.0)), fit(40.0, 400.0), fill(1, 80.0), fill(3, 80.0)];
    let widths =
        resolve_widths(&sizing, &[60.0, 120.0, 100.0, 100.0], 1000.0, 10.0, Overflow::Scroll);

    assert!(approx(widths[0], 60.0));
    assert!(approx(widths[1], 120.0));
    assert!(approx(widths[2], 247.5));
    assert!(approx(widths[3], 542.5));
    assert!(approx(widths.iter().sum::<f32>() + 30.0, 1000.0));
}

#[test]
fn fill_columns_do_not_collapse_under_a_narrow_viewport() {
    let sizing = [fill(1, 48.0), fill(2, 48.0)];
    let widths = resolve_widths(&sizing, &[250.0, 350.0], 200.0, 0.0, Overflow::Scroll);

    assert!(approx(widths[0], 250.0));
    assert!(approx(widths[1], 350.0));
    assert!(widths.iter().sum::<f32>() > 200.0);
}

#[test]
fn shrink_compresses_fill_columns_toward_their_min() {
    let sizing = [fill(1, 48.0), fill(2, 48.0)];
    let widths = resolve_widths(&sizing, &[250.0, 350.0], 200.0, 0.0, Overflow::Shrink);

    assert!(widths[0] >= 48.0 && widths[1] >= 48.0);
    assert!(approx(widths.iter().sum::<f32>(), 200.0));
}

#[test]
fn fit_clamps_at_max_and_overflows_by_default() {
    let sizing = [fit(40.0, 100.0), fit(40.0, 100.0)];
    let widths = resolve_widths(&sizing, &[500.0, 500.0], 80.0, 10.0, Overflow::Scroll);

    assert!(approx(widths[0], 100.0) && approx(widths[1], 100.0));
}

#[test]
fn shrink_respects_minimums_and_leaves_fixed_alone() {
    let sizing = [Sizing::Fixed(px(100.0)), fit(50.0, 400.0), fit(50.0, 400.0)];
    let widths = resolve_widths(&sizing, &[100.0, 300.0, 300.0], 300.0, 0.0, Overflow::Shrink);

    assert!(approx(widths[0], 100.0));
    assert!(widths[1] >= 50.0 && widths[2] >= 50.0);
    assert!(approx(widths.iter().sum::<f32>(), 300.0));
}

#[test]
fn group_header_grows_children_proportionally() {
    let sizing = [Sizing::default(), Sizing::default()];
    let mut intrinsic = [40.0, 120.0];

    apply_span_constraints(&mut intrinsic, &[request(0, 1, 300.0)], &sizing, 10.0);

    assert!(approx(intrinsic.iter().sum::<f32>() + 10.0, 300.0));
    assert!(approx(intrinsic[1] / intrinsic[0], 3.0));
}

#[test]
fn nested_spans_settle_inner_first() {
    let sizing = [Sizing::default(); 4];
    let mut intrinsic = [50.0, 50.0, 50.0, 50.0];

    apply_span_constraints(
        &mut intrinsic,
        &[request(0, 3, 500.0), request(0, 1, 400.0)],
        &sizing,
        10.0,
    );

    assert!(approx(intrinsic[0] + intrinsic[1] + 10.0, 400.0));
    assert!(intrinsic.iter().sum::<f32>() + 30.0 >= 500.0);
    assert!(approx(intrinsic[2], 50.0) && approx(intrinsic[3], 50.0));
}

#[test]
fn all_fixed_span_is_skipped_cleanly() {
    let sizing = [Sizing::Fixed(px(80.0)), Sizing::Fixed(px(80.0))];
    let mut intrinsic = [80.0, 80.0];

    apply_span_constraints(&mut intrinsic, &[request(0, 1, 500.0)], &sizing, 10.0);

    assert_eq!(intrinsic, [80.0, 80.0]);
}

#[test]
fn an_override_behaves_exactly_like_fixed() {
    let declared = [fill(1, 48.0), fit(40.0, 400.0)];
    let sizing = with_overrides(&declared, &[Some(px(120.0)), None]);

    assert_eq!(sizing[0], Sizing::Fixed(px(120.0)));
    assert_eq!(sizing[1], declared[1]);

    let widths = resolve_widths(&sizing, &[300.0, 100.0], 1000.0, 0.0, Overflow::Scroll);

    assert!(approx(widths[0], 120.0));

    let mut intrinsic = [120.0, 100.0];

    apply_span_constraints(&mut intrinsic, &[request(0, 1, 800.0)], &sizing, 0.0);
    assert!(approx(intrinsic[0], 120.0));
    assert!(intrinsic[1] > 100.0);
}

#[test]
fn zero_intrinsic_span_splits_equally() {
    let sizing = [Sizing::default(); 3];
    let mut intrinsic = [0.0, 0.0, 0.0];

    apply_span_constraints(&mut intrinsic, &[request(0, 2, 300.0)], &sizing, 0.0);

    assert!(intrinsic.iter().all(|w| approx(*w, 100.0)));
}

#[test]
fn spans_are_worked_off_narrowest_first_and_ties_keep_their_order() {
    let spans = [request(0, 5, 1.0), request(2, 3, 2.0), request(4, 4, 3.0), request(0, 1, 4.0)];

    assert_eq!(
        span_order(&spans),
        vec![request(2, 3, 2.0), request(0, 1, 4.0), request(0, 5, 1.0)],
    );
}

#[test]
fn a_span_that_already_fits_grows_nothing() {
    let sizing = [Sizing::default(), Sizing::Fixed(px(9.0)), Sizing::default()];

    assert!(growable(&sizing, request(0, 2, 100.0), px(100.0)).is_empty());
    assert_eq!(growable(&sizing, request(0, 2, 101.0), px(100.0)), vec![0, 2]);
}

#[test]
fn a_weight_of_zero_counts_as_one() {
    assert_eq!(weight_of(fill(0, 1.0)), 1);
    assert_eq!(weight_of(fill(7, 1.0)), 7);
    assert_eq!(weight_of(Sizing::default()), 0);
    assert_eq!(fill_weight(&[fill(0, 1.0), Sizing::default(), fill(4, 1.0)]), 5);
}

#[test]
fn slack_without_fill_columns_is_kept() {
    assert_eq!(spread(px(10.0), 0, Overflow::Scroll), Spread::Keep);
    assert_eq!(spread(px(-10.0), 3, Overflow::Scroll), Spread::Keep);
    assert_eq!(spread(px(0.0), 3, Overflow::Shrink), Spread::Keep);
    assert_eq!(spread(px(-10.0), 0, Overflow::Shrink), Spread::Shrink);
    assert_eq!(Overflow::default(), Overflow::Scroll);
}

#[test]
fn the_sample_reaches_from_the_head_to_the_tail() {
    assert_eq!(sample_rows(10, Some(4)), vec![0, 2, 5, 7]);
    assert_eq!(sample_rows(3, Some(200)), vec![0, 1, 2]);
    assert_eq!(sample_rows(4, None), vec![0, 1, 2, 3]);
    assert_eq!(sample_rows(50_000, Some(200))[199], 49_750);
    assert!(sample_rows(0, Some(5)).is_empty());
    assert!(sample_rows(5, Some(0)).is_empty());
}

#[test]
fn a_column_never_shrinks_while_it_holds_the_same_rows() {
    let mut widths = Widths::default();

    assert_eq!(widths.latch(all(&[100.0, 50.0]), 10), all(&[100.0, 50.0]));
    assert_eq!(widths.latch(all(&[80.0, 60.0]), 10), all(&[100.0, 60.0]));
    assert_eq!(widths.latch(all(&[80.0, 40.0]), 10), all(&[100.0, 60.0]));
    // Other rows are measured from scratch.
    assert_eq!(widths.latch(all(&[80.0, 40.0]), 11), all(&[80.0, 40.0]));
    assert_eq!(widths.measured_rows, 11);
}

#[test]
fn a_resize_pins_every_column_and_drags_one() {
    let mut widths = Widths::default();

    widths.settle(3);
    assert_eq!(widths.overrides, vec![None; 3]);
    widths.drag(1, px(70.0), px(32.0));
    widths.pin(&all(&[10.0, 20.0, 30.0]));
    assert_eq!(widths.overrides, vec![Some(px(10.0)), Some(px(70.0)), Some(px(30.0))]);
    widths.drag(2, px(5.0), px(32.0));
    widths.drag(9, px(5.0), px(32.0));
    assert_eq!(widths.overrides, vec![Some(px(10.0)), Some(px(70.0)), Some(px(32.0))]);
    widths.settle(3);
    assert_eq!(widths.overrides[1], Some(px(70.0)));
    widths.settle(2);
    assert_eq!(widths.overrides, vec![None; 2]);
}

#[test]
fn a_floor_is_the_least_a_policy_allows() {
    assert_eq!(Sizing::Fixed(px(9.0)).min_width(), px(9.0));
    assert_eq!(fit(3.0, 8.0).min_width(), px(3.0));
    assert_eq!(fill(1, 4.0).min_width(), px(4.0));
    assert!(Sizing::Fixed(px(9.0)).is_fixed());
    assert!(!fill(1, 4.0).is_fixed());
    assert_eq!(Sizing::default(), fit(48.0, f32::INFINITY));
}

#[test]
fn a_width_that_is_no_number_gives_way() {
    let nan = f32::NAN;
    let fill = Sizing::Fill { weight: 1, min: px(48.0) };
    let fit = Sizing::Fit { min: px(1.0), max: px(9.0) };

    assert_eq!(base_widths(&[fill], &[px(nan)]), vec![px(48.0)]);
    assert!(base_widths(&[fit], &[px(nan)])[0].is_nan());
    assert_eq!(headroom(&[fit], &[px(nan)]), vec![px(0.0)]);
    assert_eq!(deficit(px(nan), px(3.0)), px(3.0));
    assert_eq!(spread(px(nan), 1, Overflow::Shrink), Spread::Keep);
    // A label is not known to fit, so its columns grow.
    assert_eq!(
        growable(
            &[fill, fit],
            SpanRequest { start: 0, end: 1, needed: px(nan) },
            px(10.0),
        ),
        vec![0, 1],
    );
    assert_ne!(Sizing::Fixed(px(nan)), Sizing::Fixed(px(nan)));
    assert_eq!(Sizing::Fixed(px(-0.0)), Sizing::Fixed(px(0.0)));
}
