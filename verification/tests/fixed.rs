use vibe_audio::fixed::{sum_bins, Fixed, SCALE};

fn fx(value: f64) -> Fixed {
    Fixed { raw: (value * 1e9).round() as i64 }
}

#[test]
fn arithmetic_is_exact_on_billionths() {
    assert_eq!(SCALE, 1_000_000_000);
    assert_eq!(Fixed::from_int(3), fx(3.));
    assert_eq!(fx(1.5).sat_add(fx(2.25)), fx(3.75));
    assert_eq!(fx(1.5).sat_sub(fx(2.25)), fx(-0.75));
    assert_eq!(fx(1.5).sat_mul(fx(-2.5)), fx(-3.75));
    assert_eq!(fx(1.).sat_div(fx(8.)), fx(0.125));
    assert_eq!(fx(1.).sat_div(fx(-8.)), fx(-0.125));
    assert_eq!(fx(7.).mul_ratio(3, 4), fx(5.25));
    assert_eq!(fx(7.).div_int(4), fx(1.75));
}

#[test]
fn arithmetic_rounds_towards_zero() {
    assert_eq!(Fixed { raw: 1 }.sat_mul(fx(0.5)).raw, 0);
    assert_eq!(Fixed { raw: -1 }.sat_mul(fx(0.5)).raw, 0);
    assert_eq!(Fixed { raw: 3 }.sat_mul(fx(0.5)).raw, 1);
    assert_eq!(Fixed { raw: -3 }.sat_mul(fx(0.5)).raw, -1);
    assert_eq!(Fixed { raw: -7 }.div_int(2).raw, -3);
    assert_eq!(Fixed { raw: -7 }.mul_ratio(1, 2).raw, -3);
    assert_eq!(Fixed { raw: 10 }.sat_div(fx(-3.)).raw, -3);
}

#[test]
fn arithmetic_saturates() {
    let max = Fixed { raw: i64::MAX };
    let min = Fixed { raw: i64::MIN };
    assert_eq!(max.sat_add(fx(1.)), max);
    assert_eq!(min.sat_sub(fx(1.)), min);
    assert_eq!(max.sat_mul(fx(2.)), max);
    assert_eq!(max.sat_mul(fx(-2.)), min);
    assert_eq!(min.sat_mul(min), max);
    assert_eq!(max.sat_div(fx(0.5)), max);
    assert_eq!(max.mul_ratio(u32::MAX, 1), max);
    assert_eq!(Fixed::from_int(u64::MAX), max);
    assert_eq!(fx(5.).sat_div(fx(0.)), fx(0.));
}

#[test]
fn sum_of_bins_and_quiet() {
    let bins = vec![fx(0.), fx(1.), fx(2.5), fx(0.), fx(-1.)];
    assert_eq!(sum_bins(&bins, 1, 3), (fx(3.5), false));
    assert_eq!(sum_bins(&bins, 3, 5), (fx(-1.), true));
    assert_eq!(sum_bins(&bins, 2, 2), (fx(0.), true));
}
