use orbtk_backend::snowflake::{snowflake_fractal, snowflake_iter, Q3, SnowPoint};

fn pt(xa: i64, xb: i64, ya: i64, yb: i64) -> SnowPoint {
    SnowPoint { x: Q3 { a: xa, b: xb }, y: Q3 { a: ya, b: yb } }
}

#[test]
fn zero_generations_give_the_scaled_triangle() {
    let out = snowflake_fractal(0);
    assert_eq!(out, vec![pt(0, 0, 2, 0), pt(0, 1, -1, 0), pt(0, -1, -1, 0)]);
}

#[test]
fn vertex_count_is_three_times_four_to_the_n() {
    assert_eq!(snowflake_fractal(0).len(), 3);
    assert_eq!(snowflake_fractal(1).len(), 12);
    assert_eq!(snowflake_fractal(2).len(), 48);
    assert_eq!(snowflake_fractal(6).len(), 3 * 4096);
}

#[test]
fn one_iteration_quadruples_any_polygon() {
    // A square with components that are multiples of six.
    let square = vec![pt(0, 0, 0, 0), pt(12, 0, 0, 0), pt(12, 0, 12, 0), pt(0, 0, 12, 0)];
    let out = snowflake_iter(&square);
    assert_eq!(out.len(), 16);
    // Every fourth point is an original vertex.
    assert_eq!(out[0], square[0]);
    assert_eq!(out[4], square[1]);
    assert_eq!(out[8], square[2]);
    assert_eq!(out[12], square[3]);
}

#[test]
fn first_edge_follows_the_one_third_and_bump_construction() {
    // One generation from the triangle scaled by twelve. The first edge runs
    // from the apex (0, 12) to (6*sqrt(3), -6). Its third is t = (2*sqrt(3), -6),
    // and t rotated by sixty degrees is (4*sqrt(3), 0); the replacement points
    // are the start, start + t, start + t + rot(t), and start + 2t.
    let out = snowflake_fractal(1);
    assert_eq!(out[0], pt(0, 0, 12, 0));
    assert_eq!(out[1], pt(0, 2, 6, 0));
    assert_eq!(out[2], pt(0, 6, 6, 0));
    assert_eq!(out[3], pt(0, 4, 0, 0));
}

#[test]
fn bump_points_leave_the_original_edge() {
    // On the square's bottom edge from (0,0) to (12,0) the bump tip must
    // leave the line y = 0; the three other points stay on it.
    let square = vec![pt(0, 0, 0, 0), pt(12, 0, 0, 0), pt(12, 0, 12, 0), pt(0, 0, 12, 0)];
    let out = snowflake_iter(&square);
    assert_eq!(out[0], pt(0, 0, 0, 0));
    assert_eq!(out[1], pt(4, 0, 0, 0));
    // t = (4, 0); rotated by sixty degrees it is (2, 2*sqrt(3)).
    assert_eq!(out[2], pt(6, 0, 0, 2));
    assert_eq!(out[3], pt(8, 0, 0, 0));
}

#[test]
fn six_hand_iterations_equal_the_driver() {
    // The demo refines the triangle six times; iterating by hand from the
    // driver's triangle for that depth gives point for point the same result.
    let u: i64 = 46656;
    let mut current = vec![pt(0, 0, 2 * u, 0), pt(0, u, -u, 0), pt(0, -u, -u, 0)];
    for _ in 0..6 {
        current = snowflake_iter(&current);
    }
    assert_eq!(current, snowflake_fractal(6));
}
