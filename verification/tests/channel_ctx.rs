use vibe_audio::bar_processor::channel_ctx::fft_out_metadata::{
    FftOutMetadata, FftOutMetadataDescriptor,
};
use vibe_audio::bar_processor::channel_ctx::padding::PaddingCtx;
use vibe_audio::bar_processor::channel_ctx::{check_weights, ChannelCtx};
use vibe_audio::interpolation::SupportingPoint;
use vibe_audio::{
    BarDistribution, BarProcessorConfig, Fixed, InterpolationVariant, PaddingConfig, PaddingSide,
    PaddingSize, DEFAULT_SAMPLE_RATE,
};

const DUMMY_FFT_SIZE: usize = 2048;

fn mel(x: f64) -> f64 {
    2595. * (1. + x / 700.).log10()
}

fn inv_mel(x: f64) -> f64 {
    700. * (10f64.powf(x / 2595.) - 1.)
}

/// The frequency at which each of `amount_bars` bars ends on the mel curve.
fn weights(amount_bars: u16) -> Vec<Fixed> {
    let low = mel(20.);
    let high = mel(20_000.);
    (0..amount_bars as u32)
        .map(|index| {
            let x = (index + 1) as f64 / (amount_bars as u32 + 1) as f64;
            Fixed { raw: (inv_mel(x * (high - low) + low) * 1e9) as i64 }
        })
        .collect()
}

fn fx(value: f64) -> Fixed {
    Fixed { raw: (value * 1e9).round() as i64 }
}

#[test]
fn one_bar_no_padding() {
    let ctx = ChannelCtx::new(
        &BarProcessorConfig { amount_bars: 1, ..Default::default() },
        DEFAULT_SAMPLE_RATE,
        DUMMY_FFT_SIZE,
        &weights(1),
    );

    assert_eq!(ctx.total_amount_bars(), 1);
}

#[test]
fn one_bar_with_oneside_padding() {
    let ctx = ChannelCtx::new(
        &BarProcessorConfig {
            amount_bars: 1,
            padding: Some(PaddingConfig { side: PaddingSide::Left, size: PaddingSize::Custom(10) }),
            ..Default::default()
        },
        DEFAULT_SAMPLE_RATE,
        DUMMY_FFT_SIZE,
        &weights(1),
    );

    assert_eq!(ctx.total_amount_bars(), 11);
}

#[test]
fn one_bar_with_twoside_padding() {
    let ctx = ChannelCtx::new(
        &BarProcessorConfig {
            amount_bars: 1,
            padding: Some(PaddingConfig { side: PaddingSide::Both, size: PaddingSize::Custom(10) }),
            ..Default::default()
        },
        DEFAULT_SAMPLE_RATE,
        DUMMY_FFT_SIZE,
        &weights(1),
    );

    assert_eq!(ctx.total_amount_bars(), 21);
}

#[test]
fn total_is_unpadded_plus_padding_and_last_point_is_last_bar() {
    for amount_bars in [1u16, 2, 7, 30, 500] {
        for distribution in [BarDistribution::Uniform, BarDistribution::Natural] {
            for padding in [
                None,
                Some(PaddingConfig { side: PaddingSide::Right, size: PaddingSize::Auto }),
                Some(PaddingConfig { side: PaddingSide::Both, size: PaddingSize::Custom(3) }),
            ] {
                let config = BarProcessorConfig {
                    amount_bars,
                    bar_distribution: distribution,
                    padding,
                    ..Default::default()
                };
                let ctx =
                    ChannelCtx::new(&config, DEFAULT_SAMPLE_RATE, DUMMY_FFT_SIZE, &weights(amount_bars));
                let range = ctx.interpolator.covered_bar_range();
                let padded = ctx.padding.map(|p| p.amount_bars()).unwrap_or(0);
                assert_eq!(ctx.total_amount_bars(), range.len() + padded);
                assert_eq!(range.len(), amount_bars as usize);
                let left = ctx.padding.map(|p| p.left()).unwrap_or(0);
                let points = &ctx.interpolator.supporting_points;
                assert_eq!(points[0].x, left);
                assert_eq!(points[points.len() - 1].x, left + amount_bars as usize - 1);
                assert!(points.windows(2).all(|pair| pair[0].x < pair[1].x));
            }
        }
    }
}

#[test]
fn auto_padding_is_four_gaps_when_uniform_and_five_otherwise() {
    let uniform = BarProcessorConfig {
        amount_bars: 400,
        bar_distribution: BarDistribution::Uniform,
        padding: Some(PaddingConfig { side: PaddingSide::Left, size: PaddingSize::Auto }),
        ..Default::default()
    };
    let ctx = ChannelCtx::new(&uniform, DEFAULT_SAMPLE_RATE, DUMMY_FFT_SIZE, &weights(400));
    let points = &ctx.interpolator.supporting_points;
    let gap = points[1].x - points[0].x;
    assert_eq!(ctx.padding.unwrap().size as usize, 4 * gap);
    assert_eq!(ctx.total_amount_bars(), 400 + 4 * gap);

    let natural = BarProcessorConfig {
        amount_bars: 400,
        bar_distribution: BarDistribution::Natural,
        padding: Some(PaddingConfig { side: PaddingSide::Both, size: PaddingSize::Auto }),
        ..Default::default()
    };
    let ctx = ChannelCtx::new(&natural, DEFAULT_SAMPLE_RATE, DUMMY_FFT_SIZE, &weights(400));
    assert_eq!(ctx.total_amount_bars(), 410);
}

#[test]
fn no_channel_without_bins_or_with_bad_weights_or_too_many_bars() {
    let config = BarProcessorConfig { amount_bars: 4, ..Default::default() };
    // no sample rate: the window holds no bin
    assert!(ChannelCtx::try_new(&config, 0, DUMMY_FFT_SIZE, &weights(4)).is_none());
    // a weight is missing
    assert!(ChannelCtx::try_new(&config, DEFAULT_SAMPLE_RATE, DUMMY_FFT_SIZE, &weights(3)).is_none());
    // the weights fall
    let mut falling = weights(4);
    falling.reverse();
    assert!(ChannelCtx::try_new(&config, DEFAULT_SAMPLE_RATE, DUMMY_FFT_SIZE, &falling).is_none());
    // no bars
    let empty = BarProcessorConfig { amount_bars: 0, ..Default::default() };
    assert!(ChannelCtx::try_new(&empty, DEFAULT_SAMPLE_RATE, DUMMY_FFT_SIZE, &weights(0)).is_none());
    // a padding on top of the highest amount of bars
    let full = BarProcessorConfig {
        amount_bars: u16::MAX,
        padding: Some(PaddingConfig { side: PaddingSide::Right, size: PaddingSize::Auto }),
        ..Default::default()
    };
    assert!(
        ChannelCtx::try_new(&full, DEFAULT_SAMPLE_RATE, DUMMY_FFT_SIZE, &weights(u16::MAX)).is_none()
    );
    assert!(ChannelCtx::try_new(&config, DEFAULT_SAMPLE_RATE, DUMMY_FFT_SIZE, &weights(4)).is_some());
}

#[test]
fn interpret_emits_a_point_where_the_end_bin_moves() {
    // 10 bins: 50 Hz .. 265 Hz at one bin per 21.5 Hz
    let desc = FftOutMetadataDescriptor {
        amount_bars: 4,
        sample_rate: DEFAULT_SAMPLE_RATE,
        fft_size: DUMMY_FFT_SIZE,
        freq_range: 50..265,
    };
    assert_eq!(desc.amount_bins(), 10);
    // ends: ceil(w / 20000 * 10) = 1, 1, 3, 10
    let weights = vec![fx(1000.), fx(2000.), fx(6000.), fx(20_000.)];
    let meta = FftOutMetadata::interpret_fft_context(desc, &weights);
    let xs: Vec<usize> = meta.supporting_points.iter().map(|p| p.x).collect();
    assert_eq!(xs, vec![0, 2, 3]);
    assert_eq!(meta.supporting_points_fft_ranges, vec![0..1, 1..3, 3..10]);
    assert!(meta.supporting_points.iter().all(|p| p.y.raw == 0));
}

#[test]
fn fillup_adds_the_last_bar_only_when_it_is_missing() {
    let points = vec![
        SupportingPoint { x: 0, y: fx(0.) },
        SupportingPoint { x: 3, y: fx(0.) },
    ];
    let meta = FftOutMetadata {
        supporting_points: points.clone(),
        supporting_points_fft_ranges: vec![0..1, 1..2],
    };
    let filled = meta.fillup(10);
    assert_eq!(filled.supporting_points.len(), 3);
    assert_eq!(filled.supporting_points[2], SupportingPoint { x: 9, y: fx(0.) });
    assert_eq!(filled.supporting_points_fft_ranges, vec![0..1, 1..2]);

    let meta = FftOutMetadata {
        supporting_points: points.clone(),
        supporting_points_fft_ranges: vec![0..1, 1..2],
    };
    let filled = meta.fillup(4);
    assert_eq!(filled.supporting_points, points);
}

#[test]
fn redistribute_spaces_all_but_the_last_point_evenly() {
    let points: Vec<SupportingPoint> =
        [0usize, 1, 2, 9].iter().map(|&x| SupportingPoint { x, y: fx(x as f64) }).collect();
    let meta = FftOutMetadata {
        supporting_points: points.clone(),
        supporting_points_fft_ranges: vec![0..1, 1..2, 2..3, 3..4],
    };
    assert_eq!(meta.covered_amount_bars(), 10);
    let spread = meta.redistribute(BarDistribution::Uniform);
    let xs: Vec<usize> = spread.supporting_points.iter().map(|p| p.x).collect();
    // i * 10 / 4, the last one stays
    assert_eq!(xs, vec![0, 2, 5, 9]);
    let ys: Vec<Fixed> = spread.supporting_points.iter().map(|p| p.y).collect();
    assert_eq!(ys, points.iter().map(|p| p.y).collect::<Vec<_>>());
    assert_eq!(spread.supporting_points_fft_ranges, vec![0..1, 1..2, 2..3, 3..4]);

    let meta = FftOutMetadata {
        supporting_points: points.clone(),
        supporting_points_fft_ranges: vec![0..1, 1..2, 2..3, 3..4],
    };
    assert_eq!(meta.redistribute(BarDistribution::Natural).supporting_points, points);
}

#[test]
fn padding_shifts_points_and_fills_padded_bars() {
    let ctx = PaddingCtx::new(3, PaddingSide::Both);
    assert_eq!(ctx.amount_bars(), 6);
    assert_eq!(PaddingCtx::new(3, PaddingSide::Left).amount_bars(), 3);
    let mut points = vec![SupportingPoint { x: 0, y: fx(1.) }, SupportingPoint { x: 4, y: fx(2.) }];
    ctx.adjust_supporting_points(&mut points);
    assert_eq!(points, vec![SupportingPoint { x: 3, y: fx(1.) }, SupportingPoint { x: 7, y: fx(2.) }]);

    // left | inner | right
    let mut bars = vec![fx(9.), fx(9.), fx(9.), fx(0.8), fx(0.5), fx(0.4), fx(9.), fx(9.), fx(9.)];
    ctx.apply(&mut bars);
    let expected =
        vec![fx(0.2), fx(0.4), fx(0.6), fx(0.8), fx(0.5), fx(0.4), fx(0.3), fx(0.2), fx(0.1)];
    assert_eq!(bars, expected);

    // too short to hold a bar between the paddings
    let mut short = vec![fx(1.); 6];
    ctx.apply(&mut short);
    assert_eq!(short, vec![fx(1.); 6]);
}

#[test]
fn a_frame_settles_each_point_and_adjusts_the_gain() {
    let config = BarProcessorConfig {
        amount_bars: 2,
        freq_range: 50..265,
        interpolation: InterpolationVariant::Linear,
        bar_distribution: BarDistribution::Natural,
        sensitivity: fx(0.5),
        padding: None,
    };
    let weights = vec![fx(10_000.), fx(20_000.)];
    let mut ctx = ChannelCtx::new(&config, DEFAULT_SAMPLE_RATE, DUMMY_FFT_SIZE, &weights);
    assert_eq!(ctx.fft_out_ranges, vec![0..5, 5..10]);
    assert_eq!(ctx.normalize_factor, fx(1.));
    assert!(ctx.fits(10));
    assert!(!ctx.fits(9));

    // silence: nothing moves
    ctx.update_supporting_points(&vec![fx(0.); 10]);
    assert_eq!(ctx.normalize_factor, fx(1.));
    assert!(ctx.interpolator.supporting_points.iter().all(|p| p.y.raw == 0));

    // mean 2 in both ranges; corrections 0.05 and 0.25 + 0.05
    ctx.update_supporting_points(&vec![fx(2.); 10]);
    assert_eq!(ctx.interpolator.supporting_points[0].y, fx(0.1));
    assert_eq!(ctx.interpolator.supporting_points[1].y, fx(0.6));
    assert_eq!(ctx.peak, vec![fx(0.1), fx(0.6)]);
    assert_eq!(ctx.fall, vec![fx(0.), fx(0.)]);
    assert_eq!(ctx.normalize_factor, fx(1.002));

    // a quieter frame: the bars fall from their peak, the smoothed value
    // is 0.77 of the last one plus the peak
    ctx.update_supporting_points(&vec![fx(1.); 10]);
    assert_eq!(ctx.prev, vec![fx(0.1), fx(0.6)]);
    assert_eq!(ctx.fall, vec![fx(0.028), fx(0.028)]);
    assert_eq!(ctx.interpolator.supporting_points[0].y, fx(0.177));
    assert_eq!(ctx.interpolator.supporting_points[1].y, fx(1.062));
    // the second bar went over one
    assert_eq!(ctx.normalize_factor.raw, 1_002_000_000 * 98 / 100);

    let mut bars = vec![fx(0.); 2];
    ctx.interpolate(&mut bars);
    assert_eq!(bars, vec![fx(0.177), fx(1.062)]);
}

#[test]
fn sustained_overshoot_lowers_the_gain_and_sound_raises_it() {
    let config = BarProcessorConfig {
        amount_bars: 1,
        freq_range: 50..265,
        padding: None,
        ..Default::default()
    };
    let weights = vec![fx(20_000.)];
    let mut ctx = ChannelCtx::new(&config, DEFAULT_SAMPLE_RATE, DUMMY_FFT_SIZE, &weights);
    let loud = vec![fx(1000.); 10];
    let mut gain = ctx.normalize_factor.raw;
    for _ in 0..50 {
        ctx.update_supporting_points(&loud);
        assert_eq!(ctx.normalize_factor.raw, ((gain as i128 * 98 / 100) as i64).max(1));
        assert!(ctx.normalize_factor.raw < gain);
        gain = ctx.normalize_factor.raw;
    }

    let mut ctx = ChannelCtx::new(&config, DEFAULT_SAMPLE_RATE, DUMMY_FFT_SIZE, &weights);
    let soft = vec![fx(0.001); 10];
    let mut gain = ctx.normalize_factor.raw;
    for _ in 0..50 {
        ctx.update_supporting_points(&soft);
        assert_eq!(ctx.normalize_factor.raw, ((gain as i128 * 1002 + 999) / 1000) as i64);
        assert!(ctx.normalize_factor.raw > gain);
        gain = ctx.normalize_factor.raw;
    }
}

#[test]
fn the_smallest_gain_neither_dies_nor_stalls() {
    let config = BarProcessorConfig {
        amount_bars: 1,
        freq_range: 50..265,
        padding: None,
        ..Default::default()
    };
    let weights = vec![fx(20_000.)];
    let mut ctx = ChannelCtx::new(&config, DEFAULT_SAMPLE_RATE, DUMMY_FFT_SIZE, &weights);
    // sound without overshoot: one step becomes two, three, ...
    ctx.normalize_factor = Fixed { raw: 1 };
    let soft = vec![fx(0.001); 10];
    for expected in 2..=10 {
        ctx.update_supporting_points(&soft);
        assert_eq!(ctx.normalize_factor.raw, expected);
    }
    // overshoot: 0.98 of a few steps, but never nothing
    let mut ctx = ChannelCtx::new(&config, DEFAULT_SAMPLE_RATE, DUMMY_FFT_SIZE, &weights);
    ctx.normalize_factor = Fixed { raw: 3 };
    ctx.mem[0] = fx(2.);
    for expected in [2, 1, 1, 1] {
        ctx.mem[0] = fx(2.);
        ctx.update_supporting_points(&soft);
        assert_eq!(ctx.normalize_factor.raw, expected);
    }
    // the highest gain stays where it is
    let mut ctx = ChannelCtx::new(&config, DEFAULT_SAMPLE_RATE, DUMMY_FFT_SIZE, &weights);
    ctx.normalize_factor = Fixed { raw: i64::MAX };
    ctx.update_supporting_points(&vec![Fixed { raw: 1 }; 10]);
    assert_eq!(ctx.normalize_factor.raw, i64::MAX);
}

#[test]
fn weights_are_valid_when_positive_ascending_and_within_hearing() {
    assert!(check_weights(&weights(30), 30));
    assert!(check_weights(&vec![fx(20.), fx(20.), fx(20_000.)], 3));
    assert!(!check_weights(&weights(30), 29));
    assert!(!check_weights(&vec![fx(0.), fx(20.)], 2));
    assert!(!check_weights(&vec![fx(20.), fx(20_000.000000001)], 2));
    assert!(!check_weights(&vec![fx(30.), fx(20.)], 2));
    assert!(check_weights(&vec![], 0));
}
