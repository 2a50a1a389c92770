//! Fixed-point geometry.

use termpdf::geometry::{
    clamp_and_filter, clamp_coordinate, clamp_scale_value, clamp_wide_coordinate, half_floor,
    scaled_by, Highlights, NormalizedRect, ViewportOffset, SCALE_MAX, SCALE_MIN, SCALE_ONE, UNIT,
};

fn rect(left: i32, top: i32, right: i32, bottom: i32) -> NormalizedRect {
    NormalizedRect { left, top, right, bottom }
}

#[test]
fn units_are_millionths_and_thousandths() {
    assert_eq!(UNIT, 1_000_000);
    assert_eq!(SCALE_ONE, 1000);
    assert_eq!(SCALE_MIN, 250);
    assert_eq!(SCALE_MAX, 4000);
}

#[test]
fn coordinates_are_clamped_to_the_page() {
    assert_eq!(clamp_coordinate(-1), 0);
    assert_eq!(clamp_coordinate(0), 0);
    assert_eq!(clamp_coordinate(500_000), 500_000);
    assert_eq!(clamp_coordinate(1_000_001), UNIT);
    assert_eq!(clamp_coordinate(i32::MAX), UNIT);
    assert_eq!(clamp_wide_coordinate(i64::MIN), 0);
    assert_eq!(clamp_wide_coordinate(i64::MAX), UNIT);
    assert_eq!(clamp_wide_coordinate(7), 7);
}

#[test]
fn scale_is_clamped_to_its_range() {
    assert_eq!(clamp_scale_value(0), 250);
    assert_eq!(clamp_scale_value(249), 250);
    assert_eq!(clamp_scale_value(250), 250);
    assert_eq!(clamp_scale_value(1000), 1000);
    assert_eq!(clamp_scale_value(4000), 4000);
    assert_eq!(clamp_scale_value(4001), 4000);
    assert_eq!(clamp_scale_value(u64::MAX), 4000);
}

#[test]
fn scale_products_round_to_the_nearest_thousandth() {
    assert_eq!(scaled_by(1000, 1100), 1100);
    assert_eq!(scaled_by(1100, 900), 990);
    assert_eq!(scaled_by(333, 1500), 500);
    assert_eq!(scaled_by(1001, 1001), 1002);
    assert_eq!(scaled_by(4000, 1100), 4000);
    assert_eq!(scaled_by(250, 900), 250);
    assert_eq!(scaled_by(1000, 0), 250);
    assert_eq!(scaled_by(u32::MAX, u32::MAX), 4000);
}

#[test]
fn viewport_adjust_moves_and_reports() {
    let mut viewport = ViewportOffset::default();
    assert_eq!(viewport, ViewportOffset { x: 0, y: 0 });
    assert!(viewport.adjust(100_000, 0));
    assert_eq!(viewport, ViewportOffset { x: 100_000, y: 0 });
    assert!(!viewport.adjust(0, 0));
    assert!(!viewport.adjust(0, -5));
    assert!(viewport.adjust(-300_000, 2_000_000));
    assert_eq!(viewport, ViewportOffset { x: 0, y: 1_000_000 });
    assert!(!viewport.adjust(-1, 1));
    assert!(viewport.adjust(i32::MAX, i32::MIN));
    assert_eq!(viewport, ViewportOffset { x: 1_000_000, y: 0 });
    viewport.reset();
    assert_eq!(viewport, ViewportOffset { x: 0, y: 0 });
}

#[test]
fn viewport_adjust_leaves_an_axis_without_delta_alone() {
    let mut viewport = ViewportOffset { x: -50, y: 2_000_000 };
    assert!(!viewport.adjust(0, 0));
    assert_eq!(viewport, ViewportOffset { x: -50, y: 2_000_000 });
    assert!(viewport.adjust(10, 0));
    assert_eq!(viewport, ViewportOffset { x: 0, y: 2_000_000 });
    viewport.clamp();
    assert_eq!(viewport, ViewportOffset { x: 0, y: 1_000_000 });
}

#[test]
fn rect_clamp_validity_and_containment() {
    let r = rect(-10, 200_000, 1_500_000, 300_000).clamp();
    assert_eq!(r, rect(0, 200_000, 1_000_000, 300_000));
    assert!(r.is_valid());
    assert!(!rect(5, 5, 5, 9).is_valid());
    assert!(!rect(5, 9, 8, 9).is_valid());
    assert!(!rect(9, 0, 5, 9).is_valid());
    assert!(r.contains(0, 200_000));
    assert!(r.contains(1_000_000, 300_000));
    assert!(!r.contains(0, 199_999));
    assert!(!r.contains(-1, 250_000));
}

#[test]
fn rect_center_rounds_down() {
    assert_eq!(rect(0, 0, 10, 20).center(), (5, 10));
    assert_eq!(rect(0, 0, 11, 21).center(), (5, 10));
    assert_eq!(rect(-3, -7, 0, 0).center(), (-2, -4));
    assert_eq!(rect(i32::MAX, i32::MIN, i32::MAX, i32::MIN).center(), (i32::MAX, i32::MIN));
    assert_eq!(half_floor(-1), -1);
    assert_eq!(half_floor(-2), -1);
    assert_eq!(half_floor(3), 1);
}

#[test]
fn clamp_and_filter_keeps_rects_with_an_area_in_order() {
    let rects = vec![
        rect(100, 100, 200, 200),
        rect(-500, 0, -100, 50),
        rect(900_000, 900_000, 1_200_000, 1_200_000),
        rect(10, 10, 10, 10),
    ];
    let kept = clamp_and_filter(&rects);
    assert_eq!(kept, vec![rect(100, 100, 200, 200), rect(900_000, 900_000, 1_000_000, 1_000_000)]);
    assert!(clamp_and_filter(&Vec::new()).is_empty());
}

#[test]
fn highlights_know_when_they_are_empty() {
    let mut highlights = Highlights::default();
    assert!(highlights.is_empty());
    highlights.others.push(rect(0, 0, 1, 1));
    assert!(!highlights.is_empty());
}
