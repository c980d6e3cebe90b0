use vibe_audio::interpolation::{
    cubic_spline_interpolation, linear_interpolation, nothing_interpolation, Interpolator,
    InterpolatorDescriptor, SupportingPoint,
};
use vibe_audio::{Fixed, InterpolationVariant};

fn fx(value: f64) -> Fixed {
    Fixed { raw: (value * 1e9).round() as i64 }
}

fn point(x: usize, y: f64) -> SupportingPoint {
    SupportingPoint { x, y: fx(y) }
}

#[test]
fn a_single_point_gives_a_flat_row() {
    for variant in [
        InterpolationVariant::Nothing,
        InterpolationVariant::Linear,
        InterpolationVariant::CubicSpline,
    ] {
        let mut interpolator = Interpolator::new(
            variant,
            InterpolatorDescriptor { supporting_points: vec![point(2, 0.625)] },
        );
        assert_eq!(interpolator.covered_bar_range(), 2..3);
        let mut bars = vec![fx(9.); 7];
        interpolator.interpolate(&mut bars);
        assert_eq!(bars, vec![fx(0.625); 7]);
    }
}

#[test]
fn nothing_is_a_step_function() {
    let points = vec![point(1, 0.5), point(3, 1.), point(6, 0.25)];
    let mut bars = vec![fx(0.); 8];
    nothing_interpolation(&points, &mut bars);
    let expected = [0.5, 0.5, 0.5, 1., 1., 1., 0.25, 0.25];
    assert_eq!(bars, expected.iter().map(|&y| fx(y)).collect::<Vec<_>>());
}

#[test]
fn linear_draws_straight_lines() {
    let points = vec![point(0, 0.), point(4, 1.), point(6, 0.5)];
    let mut bars = vec![fx(0.); 8];
    linear_interpolation(&points, &mut bars);
    let expected = [0., 0.25, 0.5, 0.75, 1., 0.75, 0.5, 0.5];
    assert_eq!(bars, expected.iter().map(|&y| fx(y)).collect::<Vec<_>>());
}

#[test]
fn spline_meets_the_points_and_is_straight_for_collinear_points() {
    let points = vec![point(0, 0.), point(2, 0.5), point(4, 1.), point(8, 2.)];
    let len = points.len();
    let zero = fx(0.);
    let (mut upper, mut reduced, mut curvature) = (vec![zero; len], vec![zero; len], vec![zero; len]);
    let mut bars = vec![zero; 9];
    cubic_spline_interpolation(&points, &mut upper, &mut reduced, &mut curvature, &mut bars);
    assert!(curvature.iter().all(|bend| bend.raw == 0));
    for (bar, value) in bars.iter().enumerate() {
        assert_eq!(*value, fx(bar as f64 * 0.25));
    }

    let points = vec![point(0, 0.), point(3, 1.), point(6, 0.), point(9, 1.)];
    let mut bars = vec![zero; 10];
    cubic_spline_interpolation(&points, &mut upper, &mut reduced, &mut curvature, &mut bars);
    for p in &points {
        assert_eq!(bars[p.x], p.y);
    }
    // natural ends, and the curve bends down at the hill and up in the valley
    assert_eq!(curvature[0].raw, 0);
    assert_eq!(curvature[3].raw, 0);
    assert!(curvature[1].raw < 0);
    assert!(curvature[2].raw > 0);
    // 12 m1 + 3 m2 = -4 and 3 m1 + 12 m2 = 4
    let exact1 = -4. / 9.;
    assert!((curvature[1].raw as f64 / 1e9 - exact1).abs() < 1e-6);
    // the curve rises above the straight line before the hill
    assert!(bars[2].raw > fx(2. / 3.).raw);
}
