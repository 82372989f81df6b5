use curve_plot::{generate_points, InvalidDomainError, Point2};

fn p(x: i32, y: i32) -> Point2 {
    Point2 { x, y }
}

#[test]
fn sample_half_steps_from_minus_one_to_one() {
    // Thousandths of a unit: -1 to 1 by 0.5.
    let pts = generate_points(-1000, 1000, 500, |x| x).unwrap();
    assert_eq!(
        pts,
        vec![p(-1000, -1000), p(-500, -500), p(0, 0), p(500, 500), p(1000, 1000)]
    );
}

#[test]
fn sample_evaluates_the_function() {
    let pts = generate_points(0, 3, 1, |x| x * x + 1).unwrap();
    assert_eq!(pts, vec![p(0, 1), p(1, 2), p(2, 5), p(3, 10)]);
}

#[test]
fn sample_stops_before_passing_the_end() {
    let pts = generate_points(0, 10, 3, |x| x).unwrap();
    assert_eq!(pts.iter().map(|q| q.x).collect::<Vec<_>>(), vec![0, 3, 6, 9]);
}

#[test]
fn sample_step_wider_than_domain() {
    let pts = generate_points(0, 5, 10, |x| -x).unwrap();
    assert_eq!(pts, vec![p(0, 0)]);
}

#[test]
fn sample_single_point_domain() {
    let pts = generate_points(7, 7, 1, |x| x).unwrap();
    assert_eq!(pts, vec![p(7, 7)]);
}

#[test]
fn sample_at_the_top_of_the_range() {
    let pts = generate_points(i32::MAX - 2, i32::MAX, 1, |_| 0).unwrap();
    assert_eq!(pts.len(), 3);
    assert_eq!(pts[2].x, i32::MAX);
}

#[test]
fn sample_reversed_domain_fails() {
    assert_eq!(generate_points(5, 0, 1, |x| x), Err(InvalidDomainError));
}

#[test]
fn sample_zero_step_fails() {
    assert_eq!(generate_points(0, 10, 0, |x| x), Err(InvalidDomainError));
}

#[test]
fn sample_negative_step_fails() {
    assert_eq!(generate_points(0, 10, -1, |x| x), Err(InvalidDomainError));
}
