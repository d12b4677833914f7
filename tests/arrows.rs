use plotters::style::{Color, ShapeStyle, BLACK, RED};
use plotters_arrows::arrow::{ThinArrow, TriangleArrow};
use plotters_arrows::emit::{plan_arrow, DrawOp, HeadKind};
use plotters_arrows::geometry::solve_head;
use plotters_arrows::surd::{floor_div_sqrt, isqrt, round_half_ratio};

fn barbs(tail: (i32, i32), tip: (i32, i32), head: i32, width: i32) -> ((i64, i64), (i64, i64)) {
    let g = solve_head(tail, tip, head, width).expect("a shaft of some length has a head");
    assert_eq!(g.tail, tail);
    assert_eq!(g.tip, tip);
    (g.left, g.right)
}

fn dist2(a: (i64, i64), b: (i64, i64)) -> i64 {
    (a.0 - b.0) * (a.0 - b.0) + (a.1 - b.1) * (a.1 - b.1)
}

#[test]
fn horizontal_shaft_barbs() {
    let (left, right) = barbs((0, 0), (100, 0), 10, 10);
    assert_eq!(left, (90, -5));
    assert_eq!(right, (90, 5));
}

#[test]
fn oversized_head_is_clamped_to_shaft() {
    let (left, right) = barbs((0, 0), (10, 0), 50, 50);
    assert_eq!(left, (0, -5));
    assert_eq!(right, (0, 5));
    assert_eq!(barbs((0, 0), (10, 0), 10, 10), (left, right));
    assert_eq!(barbs((0, 0), (10, 0), 11, 1000), (left, right));
}

#[test]
fn oversized_head_on_diagonal_reaches_tail() {
    // shaft (3, 4), length 5: the clamped head's base is centred on the tail
    let (left, right) = barbs((0, 0), (3, 4), 9, 9);
    assert_eq!((left, right), barbs((0, 0), (3, 4), 5, 5));
    // exact barbs (2, -1.5) and (-2, 1.5); halves round up
    assert_eq!(left, (2, -1));
    assert_eq!(right, (-2, 2));
}

#[test]
fn degenerate_arrow_draws_nothing() {
    assert!(solve_head((5, 5), (5, 5), 5, 5).is_none());
    assert!(plan_arrow(HeadKind::Open, (5, 5), (5, 5), 5, 5).is_empty());
    assert!(plan_arrow(HeadKind::Filled, (5, 5), (5, 5), 5, 5).is_empty());
    assert!(plan_arrow(HeadKind::Filled, (5, 5), (5, 5), 0, 0).is_empty());
}

#[test]
fn diagonal_shaft_rounds_each_coordinate() {
    // exact offsets: left (-0.4, -2.2), right (-2, -1)
    let (left, right) = barbs((0, 0), (3, 4), 2, 2);
    assert_eq!(left, (3, 2));
    assert_eq!(right, (1, 3));
}

#[test]
fn barbs_are_symmetric_about_shaft() {
    let tip = (70, -20);
    let (left, right) = barbs((10, 20), tip, 12, 8);
    let tip_w = (tip.0 as i64, tip.1 as i64);
    let (dl, dr) = (dist2(left, tip_w), dist2(right, tip_w));
    // exact distance^2 is 12^2 + 4^2 = 160; rounding moves each point by under a pixel
    assert!((dl - 160).abs() <= 30 && (dr - 160).abs() <= 30);
    // mirrored about a vertical shaft: same height, opposite sides
    let (left, right) = barbs((0, 0), (0, 50), 10, 6);
    assert_eq!(left, (3, 40));
    assert_eq!(right, (-3, 40));
}

#[test]
fn negative_head_points_forward() {
    let (left, right) = barbs((0, 0), (10, 0), -5, 4);
    assert_eq!(left, (15, -2));
    assert_eq!(right, (15, 2));
}

#[test]
fn longest_shaft_solves() {
    let (left, right) = barbs((i32::MIN, 0), (-1, 0), 10, 10);
    assert_eq!(left, (-11, -5));
    assert_eq!(right, (-11, 5));
}

#[test]
fn thin_plan_is_three_lines() {
    let ops = plan_arrow(HeadKind::Open, (0, 0), (100, 0), 10, 10);
    assert_eq!(ops.len(), 3);
    assert!(matches!(ops[0], DrawOp::Line((0, 0), (100, 0))));
    assert!(matches!(ops[1], DrawOp::Line((100, 0), (90, -5))));
    assert!(matches!(ops[2], DrawOp::Line((100, 0), (90, 5))));
}

#[test]
fn triangle_plan_is_line_and_closed_ring() {
    let ops = plan_arrow(HeadKind::Filled, (0, 0), (100, 0), 10, 10);
    assert_eq!(ops.len(), 2);
    assert!(matches!(ops[0], DrawOp::Line((0, 0), (100, 0))));
    match &ops[1] {
        DrawOp::Polygon(points) => assert_eq!(points, &vec![(100, 0), (90, -5), (90, 5), (100, 0)]),
        DrawOp::Line(..) => panic!("the head of a triangle arrow is a polygon"),
    }
}

#[test]
fn builders_keep_endpoints_and_style() {
    let style: ShapeStyle = RED.filled();
    let a = ThinArrow::new((1.5f64, 2.0f64), (3.0f64, 4.0f64), style);
    assert_eq!(*a.head_size(), 5);
    assert_eq!(*a.width_size(), 5);
    let b = a.head(9).width(7);
    assert_eq!(b.point_iter(), &[(1.5, 2.0), (3.0, 4.0)]);
    assert_eq!(*b.style(), style);
    assert_eq!(*b.head_size(), 9);
    assert_eq!(*b.width_size(), 7);
    assert_eq!(b.head_kind(), HeadKind::Open);
}

#[test]
fn triangle_builders_keep_endpoints_and_style() {
    let a = TriangleArrow::new_detail((0, 0), (4, 4), 3u32, 2u32, &BLACK);
    let style = *a.style();
    let b = a.width(8u32);
    assert_eq!(b.point_iter(), &[(0, 0), (4, 4)]);
    assert_eq!(*b.style(), style);
    assert_eq!(*b.head_size(), 3);
    assert_eq!(*b.width_size(), 8);
    let c = b.clone().head(1u32);
    assert_eq!(*c.head_size(), 1);
    assert_eq!(*c.width_size(), 8);
    assert_eq!(c.head_kind(), HeadKind::Filled);
}

#[test]
fn isqrt_values() {
    assert_eq!(isqrt(0), 0);
    assert_eq!(isqrt(15), 3);
    assert_eq!(isqrt(16), 4);
    assert_eq!(isqrt(u128::MAX), u64::MAX as u128);
}

#[test]
fn floor_div_sqrt_values() {
    assert_eq!(floor_div_sqrt(7, 2), 4);
    assert_eq!(floor_div_sqrt(-7, 2), -5);
    assert_eq!(floor_div_sqrt(10, 4), 5);
    assert_eq!(floor_div_sqrt(-10, 4), -5);
    assert_eq!(floor_div_sqrt(0, 9), 0);
}

#[test]
fn round_half_ratio_rounds_halves_up() {
    assert_eq!(round_half_ratio(0, 5, 1), 3);
    assert_eq!(round_half_ratio(0, -5, 1), -2);
    assert_eq!(round_half_ratio(-1000, 0, 100), -50);
    assert_eq!(round_half_ratio(7, 0, 2), 2);
}
