use affine2d::transform::{Rect, Transform, Vector2};

#[test]
fn identity_leaves_points_unchanged() {
    let t = Transform::identity();
    let p = t.transform_point(&Vector2 { x: 17, y: -40 });
    assert_eq!(p, Vector2 { x: 17, y: -40 });
    let q = t.transform_point(&Vector2 { x: 0, y: 0 });
    assert_eq!(q, Vector2 { x: 0, y: 0 });
}

#[test]
fn identity_leaves_rects_unchanged() {
    let t = Transform::identity();
    let r = Rect { left: -3, top: 4, width: 10, height: 2 };
    assert_eq!(t.transform_rect(&r), r);
}

#[test]
fn default_is_identity() {
    assert_eq!(Transform::default(), Transform::identity());
}

#[test]
fn translation_composition() {
    let mut t = Transform::identity();
    t.translate(10, 0);
    t.translate(0, 5);
    let p = t.transform_point(&Vector2 { x: 0, y: 0 });
    assert_eq!(p, Vector2 { x: 10, y: 5 });
}

#[test]
fn argument_of_combine_applies_first() {
    let mut t = Transform::identity();
    t.translate(1, 0);
    t.scale(2, 2);
    // The scaling was combined last, so it applies to the point first.
    let p = t.transform_point(&Vector2 { x: 1, y: 1 });
    assert_eq!(p, Vector2 { x: 3, y: 2 });
}

#[test]
fn degenerate_inverse_is_identity() {
    let mut t = Transform::identity();
    t.scale(0, 0);
    assert_eq!(t.inverse(), Transform::identity());
}

#[test]
fn inverse_of_translation_round_trips() {
    let mut t = Transform::identity();
    t.translate(3, 4);
    let inv = t.inverse();
    let mut round = t;
    round.combine(&inv);
    assert_eq!(round, Transform::identity());
}

#[test]
fn inverse_of_quarter_turn_round_trips() {
    let mut t = Transform::identity();
    t.rotate(0, 1);
    let inv = t.inverse();
    let mut round = t;
    round.combine(&inv);
    assert_eq!(round, Transform::identity());
}

#[test]
fn inverse_of_scaling_is_exact() {
    let mut t = Transform::identity();
    t.scale(2, 2);
    // The inverse halves: it carries the denominator 4 over the
    // adjugate diag(2, 2, 4), and maps (2, 2) back to (1, 1).
    let inv = t.inverse();
    assert_eq!(inv.den, 4);
    assert_eq!(inv.transform_point(&Vector2 { x: 2, y: 2 }), Vector2 { x: 1, y: 1 });
    let mut round = t;
    round.combine(&inv);
    assert_eq!(round, Transform::identity());
}

#[test]
fn inverse_of_general_affine_round_trips_points() {
    // det = 2*3 - 1*1 = 5, which divides nothing in sight: the
    // rational inverse still brings every point back exactly.
    let t = Transform::new([2, 1, 7, 1, 3, -4, 0, 0, 1]);
    let inv = t.inverse();
    let mut round = t;
    round.combine(&inv);
    assert_eq!(round, Transform::identity());
    for p in [
        Vector2 { x: 0, y: 0 },
        Vector2 { x: 13, y: -40 },
        Vector2 { x: -7, y: 9 },
    ] {
        let q = round.transform_point(&p);
        assert_eq!(q, p);
    }
}

#[test]
fn fused_rotation_matches_three_step_composition() {
    let start = Transform::new([2, 3, 5, 7, 11, 13, 0, 0, 1]);
    let mut fused = start;
    fused.rotate_with_center(0, 1, 7, 9);
    let mut steps = start;
    steps.translate(7, 9);
    steps.rotate(0, 1);
    steps.translate(-7, -9);
    assert_eq!(fused, steps);
}

#[test]
fn fused_scaling_matches_three_step_composition() {
    let start = Transform::new([2, 3, 5, 7, 11, 13, 0, 0, 1]);
    let mut fused = start;
    fused.scale_with_center(3, 5, 2, 4);
    let mut steps = start;
    steps.translate(2, 4);
    steps.scale(3, 5);
    steps.translate(-2, -4);
    assert_eq!(fused, steps);
}

#[test]
fn quarter_turn_about_rect_center_swaps_spans() {
    let mut t = Transform::identity();
    t.rotate_with_center(0, 1, 2, 2);
    // Rect centered on (2, 2) with half-sizes 1 and 2.
    let r = t.transform_rect(&Rect { left: 1, top: 0, width: 2, height: 4 });
    assert_eq!(r, Rect { left: 0, top: 1, width: 4, height: 2 });
}

#[test]
fn rotation_pair_grows_bounding_box_about_center() {
    let mut t = Transform::identity();
    t.rotate_with_center(3, 4, 1, 1);
    // Rect centered on (1, 1) with half-sizes 1 and 1: the new
    // half-sizes are 3*1 + 4*1 = 7 on both axes.
    let r = t.transform_rect(&Rect { left: 0, top: 0, width: 2, height: 2 });
    assert_eq!(r, Rect { left: -6, top: -6, width: 14, height: 14 });
}

#[test]
fn quarter_turn_about_origin_moves_unit_rect() {
    let mut t = Transform::identity();
    t.rotate(0, 1);
    let r = t.transform_rect(&Rect { left: 0, top: 0, width: 1, height: 1 });
    assert_eq!(r, Rect { left: -1, top: 0, width: 1, height: 1 });
}

#[test]
fn matrix_round_trip_keeps_affine_block() {
    let t = Transform::new([1, 2, 3, 4, 5, 6, 7, 8, 9]);
    let m = t.matrix();
    assert_eq!(m, [1, 4, 0, 7, 2, 5, 0, 8, 0, 0, 1, 0, 3, 6, 0, 9]);
}

#[test]
fn scale_about_origin() {
    let mut t = Transform::identity();
    t.scale(2, 3);
    let p = t.transform_point(&Vector2 { x: 4, y: 5 });
    assert_eq!(p, Vector2 { x: 8, y: 15 });
}

#[test]
fn scale_about_center_fixes_center() {
    let mut t = Transform::identity();
    t.scale_with_center(2, 2, 1, 1);
    assert_eq!(t.transform_point(&Vector2 { x: 1, y: 1 }), Vector2 { x: 1, y: 1 });
    assert_eq!(t.transform_point(&Vector2 { x: 2, y: 2 }), Vector2 { x: 3, y: 3 });
}

#[test]
fn combination_is_not_commutative() {
    let mut a = Transform::identity();
    a.translate(1, 0);
    a.scale(2, 2);
    let mut b = Transform::identity();
    b.scale(2, 2);
    b.translate(1, 0);
    assert_ne!(a, b);
    assert_eq!(a.transform_point(&Vector2 { x: 0, y: 0 }), Vector2 { x: 1, y: 0 });
    assert_eq!(b.transform_point(&Vector2 { x: 0, y: 0 }), Vector2 { x: 2, y: 0 });
}

#[test]
fn inverse_of_reflection_round_trips() {
    let mut t = Transform::identity();
    t.scale(1, -1);
    // det = -1: the inverse of the reflection is the reflection.
    let inv = t.inverse();
    assert_eq!(inv, t);
    let mut round = t;
    round.combine(&inv);
    assert_eq!(round, Transform::identity());
}

#[test]
fn general_affine_point_application() {
    let t = Transform::new([2, 0, 1, 0, 3, 2, 0, 0, 1]);
    let p = t.transform_point(&Vector2 { x: 1, y: 1 });
    assert_eq!(p, Vector2 { x: 3, y: 5 });
}
