use gridlines::geometry::{
    exact_trig, normalize_theta, project, GridError, GridSpec, Rect, Segment, Trig, DEG_135,
    DEG_45, HALF_TURN, NEG_RSQRT2, QUARTER_TURN, RSQRT2, TRIG_ONE,
};

/// Micro-units of a whole number of drawing units.
fn micro(units: i64) -> i64 {
    units * 1_000_000
}

fn plain_grid(cx: i64, cy: i64, step: i64, center_position: i64, theta: i64, trig: Trig) -> GridSpec {
    GridSpec {
        cx,
        cy,
        step,
        center_position,
        theta,
        trig,
        stroke: None,
        stroke_width: None,
    }
}

fn square_viewport() -> Rect {
    Rect { min_x: 0, max_x: micro(100), min_y: 0, max_y: micro(100) }
}

fn dummy_trig() -> Trig {
    Trig { cos: 0, sin: 0 }
}

/// The value, in micro-units, that a segment coordinate must equal, as a
/// numerator over the segment's denominator.
fn num_for(micro_value: i64, den: i128) -> i128 {
    micro_value as i128 * den
}

#[test]
fn vertical_grid_emits_expected_lines() {
    let vp = square_viewport();
    let g = plain_grid(micro(50), micro(50), micro(20), 0, 0, dummy_trig());
    let segs = project(&g, &vp).unwrap();
    // theta = 0 takes the more-vertical branch: vertical lines every 20
    // units, one margin line beyond each side of the viewport.
    let expected_x: [i64; 7] = [-10, 10, 30, 50, 70, 90, 110];
    assert_eq!(segs.len(), expected_x.len());
    for (k, seg) in segs.iter().enumerate() {
        assert_eq!(seg.x1, num_for(micro(expected_x[k]), seg.den));
        assert_eq!(seg.x2, num_for(micro(expected_x[k]), seg.den));
        assert_eq!(seg.y1, num_for(0, seg.den));
        assert_eq!(seg.y2, num_for(micro(100), seg.den));
    }
}

#[test]
fn horizontal_grid_emits_expected_lines() {
    let vp = square_viewport();
    let g = plain_grid(micro(50), micro(50), micro(20), 0, QUARTER_TURN, dummy_trig());
    let segs = project(&g, &vp).unwrap();
    // theta = 90 takes the more-horizontal branch: horizontal lines every
    // 20 units spanning the full x extent.
    let expected_y: [i64; 7] = [-10, 10, 30, 50, 70, 90, 110];
    assert_eq!(segs.len(), expected_y.len());
    for (k, seg) in segs.iter().enumerate() {
        assert_eq!(seg.y1, num_for(micro(expected_y[k]), seg.den));
        assert_eq!(seg.y2, num_for(micro(expected_y[k]), seg.den));
        assert_eq!(seg.x1, num_for(0, seg.den));
        assert_eq!(seg.x2, num_for(micro(100), seg.den));
    }
}

#[test]
fn center_position_shifts_the_zeroth_line() {
    let vp = square_viewport();
    // A half-step center offset moves the family back by 10 units.
    let g = plain_grid(micro(50), micro(50), micro(20), 500_000, 0, dummy_trig());
    let segs = project(&g, &vp).unwrap();
    let expected_x: [i64; 8] = [-20, 0, 20, 40, 60, 80, 100, 120];
    assert_eq!(segs.len(), expected_x.len());
    for (k, seg) in segs.iter().enumerate() {
        assert_eq!(seg.x1, num_for(micro(expected_x[k]), seg.den));
    }
}

#[test]
fn diagonal_grid_is_exact_at_45_degrees() {
    let vp = square_viewport();
    let g = plain_grid(0, 0, micro(10), 0, DEG_45, dummy_trig());
    let segs = project(&g, &vp).unwrap();
    // The cotangent at 45 degrees is exactly one: the line through the
    // center meets x = 0 at y = 0 and x = 100 at y = -100.
    assert_eq!(segs.len(), 17);
    let den = segs[0].den;
    assert_eq!(den, RSQRT2 as i128 * 1_000_000_000_000);
    let dn: i128 = micro(10) as i128 * 1_000_000 * 1_000_000_000_000;
    assert_eq!(segs[1].y1, 0);
    assert_eq!(segs[1].y2, num_for(micro(-100), den));
    for (k, seg) in segs.iter().enumerate() {
        assert_eq!(seg.x1, 0);
        assert_eq!(seg.x2, num_for(micro(100), den));
        assert_eq!(seg.y1, -dn + dn * k as i128);
        assert_eq!(seg.y2, num_for(micro(-100), den) - dn + dn * k as i128);
    }
}

#[test]
fn diagonal_grid_at_135_degrees_uses_the_vertical_branch() {
    let vp = square_viewport();
    let g = plain_grid(0, 0, micro(10), 0, DEG_135, dummy_trig());
    let segs = project(&g, &vp).unwrap();
    // 135 degrees falls outside the more-horizontal band, so the family
    // projects along x with a negative cosine: lines of slope one, spaced
    // ten units apart perpendicular to their direction.
    assert_eq!(segs.len(), 17);
    let den = segs[0].den;
    assert_eq!(den, RSQRT2 as i128 * 1_000_000_000_000);
    let dn: i128 = micro(10) as i128 * 1_000_000 * 1_000_000_000_000;
    for (k, seg) in segs.iter().enumerate() {
        let i = k as i128 - 8;
        assert_eq!(seg.x1, dn * i);
        assert_eq!(seg.x2, num_for(micro(100), den) + dn * i);
        assert_eq!(seg.y1, 0);
        assert_eq!(seg.y2, num_for(micro(100), den));
    }
    // The zeroth line passes exactly through the center.
    assert_eq!(segs[8].x1, 0);
}

#[test]
fn negative_angles_normalize_before_projecting() {
    let vp = square_viewport();
    let a = project(
        &plain_grid(micro(50), micro(50), micro(20), 0, -QUARTER_TURN, dummy_trig()),
        &vp,
    )
    .unwrap();
    let b = project(
        &plain_grid(micro(50), micro(50), micro(20), 0, QUARTER_TURN, dummy_trig()),
        &vp,
    )
    .unwrap();
    // -90 degrees normalizes to 90 with the step flipped; at a zero center
    // offset the flip is invisible, so the families coincide.
    assert_eq!(a, b);
}

#[test]
fn zero_step_is_invalid_grid() {
    let vp = square_viewport();
    let g = plain_grid(micro(50), micro(50), 0, 0, 0, dummy_trig());
    assert_eq!(project(&g, &vp), Err(GridError::InvalidGrid));
}

#[test]
fn negative_step_projects_like_positive_step_at_zero_offset() {
    let vp = square_viewport();
    let a = project(&plain_grid(micro(50), micro(50), micro(20), 0, 0, dummy_trig()), &vp).unwrap();
    let b = project(&plain_grid(micro(50), micro(50), micro(-20), 0, 0, dummy_trig()), &vp)
        .unwrap();
    assert_eq!(a, b);
}

#[test]
fn half_turn_with_flipped_step_projects_identically() {
    let vp = square_viewport();
    // An angle with no exact table entry, so the supplied direction is
    // used: 30 degrees clockwise from vertical.
    let trig = Trig { cos: 866_025, sin: 500_000 };
    let theta = 30_000_000;
    let a = project(&plain_grid(micro(3), micro(7), micro(5), 250_000, theta, trig), &vp).unwrap();
    let b = project(
        &plain_grid(micro(3), micro(7), micro(-5), 250_000, theta + HALF_TURN, trig),
        &vp,
    )
    .unwrap();
    assert_eq!(a, b);
}

#[test]
fn repeated_projection_is_deterministic() {
    let vp = square_viewport();
    let trig = Trig { cos: 866_025, sin: 500_000 };
    let g = plain_grid(micro(3), micro(7), micro(5), 250_000, 30_000_000, trig);
    let a: Vec<Segment> = project(&g, &vp).unwrap();
    let b: Vec<Segment> = project(&g, &vp).unwrap();
    assert_eq!(a, b);
}

#[test]
fn segments_cover_the_viewport_and_ascend() {
    let vp = square_viewport();
    let trig = Trig { cos: 866_025, sin: 500_000 };
    let g = plain_grid(micro(13), micro(-8), micro(7), 330_000, 30_000_000, trig);
    let segs = project(&g, &vp).unwrap();
    assert!(segs.len() >= 2);
    let den = segs[0].den;
    assert!(den > 0);
    // The first line lies at or before the viewport on both fixed edges,
    // the last at or past it, and intercepts strictly ascend.
    let first = &segs[0];
    let last = &segs[segs.len() - 1];
    assert!(first.x1 <= num_for(0, den) && first.x2 <= num_for(0, den));
    assert!(last.x1 >= num_for(micro(100), den) && last.x2 >= num_for(micro(100), den));
    for w in segs.windows(2) {
        assert!(w[0].x1 < w[1].x1);
        assert_eq!(w[1].x1 - w[0].x1, w[1].x2 - w[0].x2);
    }
}

#[test]
fn normalize_theta_reduces_into_half_turn() {
    assert_eq!(normalize_theta(0), 0);
    assert_eq!(normalize_theta(HALF_TURN), 0);
    assert_eq!(normalize_theta(-QUARTER_TURN), QUARTER_TURN);
    assert_eq!(normalize_theta(360_000_000), 0);
    assert_eq!(normalize_theta(723_000_000), 3_000_000);
    assert_eq!(normalize_theta(-1_000_000), 179_000_000);
}

#[test]
fn exact_trig_matches_the_closed_forms() {
    assert_eq!(exact_trig(0), Some(Trig { cos: TRIG_ONE, sin: 0 }));
    assert_eq!(exact_trig(DEG_45), Some(Trig { cos: RSQRT2, sin: RSQRT2 }));
    assert_eq!(exact_trig(QUARTER_TURN), Some(Trig { cos: 0, sin: TRIG_ONE }));
    assert_eq!(exact_trig(DEG_135), Some(Trig { cos: NEG_RSQRT2, sin: RSQRT2 }));
    assert_eq!(exact_trig(30_000_000), None);
}
