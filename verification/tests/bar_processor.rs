use vibe_audio::fetcher::SampleBuffer;
use vibe_audio::{
    BarProcessor, BarProcessorConfig, Fixed, PaddingConfig, PaddingSide, PaddingSize,
    SampleProcessor, DEFAULT_SAMPLE_RATE,
};

fn mel(x: f64) -> f64 {
    2595. * (1. + x / 700.).log10()
}

fn inv_mel(x: f64) -> f64 {
    700. * (10f64.powf(x / 2595.) - 1.)
}

/// The frequency at which each of `amount_bars` bars ends on the mel curve.
fn weights(amount_bars: u16) -> Vec<Fixed> {
    let low = mel(20.);
    let high = mel(20_000.);
    (0..amount_bars as u32)
        .map(|index| {
            let x = (index + 1) as f64 / (amount_bars as u32 + 1) as f64;
            Fixed { raw: (inv_mel(x * (high - low) + low) * 1e9) as i64 }
        })
        .collect()
}

/// A processor over a silent source with the given amount of channels.
fn dummy_processor(amount_channels: u8) -> SampleProcessor {
    let buffer = SampleBuffer::new(DEFAULT_SAMPLE_RATE, 0f32);
    SampleProcessor::new(buffer.sample_rate(), buffer.capacity(), amount_channels)
}

#[test]
fn one_channel_u16_max_bars() {
    let processor = dummy_processor(1);
    let mut bar_processor = BarProcessor::new(
        &processor,
        BarProcessorConfig { amount_bars: u16::MAX, ..Default::default() },
        &weights(u16::MAX),
    );

    let bars = bar_processor.process_bars(&processor);
    assert_eq!(bars.len(), 1);
    assert_eq!(bars[0].len(), u16::MAX as usize);
    assert_eq!(bar_processor.total_amount_bars(), u16::MAX as usize);
}

#[test]
fn two_channels_u16_max_bars() {
    let processor = dummy_processor(2);
    let mut bar_processor = BarProcessor::new(
        &processor,
        BarProcessorConfig { amount_bars: u16::MAX, ..Default::default() },
        &weights(u16::MAX),
    );

    assert_eq!(bar_processor.total_amount_bars(), u16::MAX as usize);

    let bars = bar_processor.process_bars(&processor);
    assert_eq!(bars.len(), 2);

    for channel in bars {
        assert_eq!(channel.len(), u16::MAX as usize);
    }
}

/// If we already use the maximum amount of bars, then we don't have any bars left for the padding => should panic
#[test]
#[should_panic]
fn one_channel_u16_max_bars_with_padding() {
    let processor = dummy_processor(1);

    BarProcessor::new(
        &processor,
        BarProcessorConfig {
            amount_bars: u16::MAX,
            padding: Some(PaddingConfig { side: PaddingSide::Left, size: PaddingSize::Custom(1) }),
            ..Default::default()
        },
        &weights(u16::MAX),
    );
}

#[test]
#[should_panic]
fn two_channels_u16_max_bars_with_padding() {
    let processor = dummy_processor(2);

    BarProcessor::new(
        &processor,
        BarProcessorConfig {
            amount_bars: u16::MAX,
            padding: Some(PaddingConfig { side: PaddingSide::Right, size: PaddingSize::Custom(1) }),
            ..Default::default()
        },
        &weights(u16::MAX),
    );
}

#[test]
fn full_bars_with_any_padding_cannot_be_made() {
    let processor = dummy_processor(1);
    for side in [PaddingSide::Left, PaddingSide::Right, PaddingSide::Both] {
        for size in [PaddingSize::Auto, PaddingSize::Custom(1), PaddingSize::Custom(u16::MAX)] {
            let config = BarProcessorConfig {
                amount_bars: u16::MAX,
                padding: Some(PaddingConfig { side, size }),
                ..Default::default()
            };
            assert!(BarProcessor::try_new(&processor, config, &weights(u16::MAX)).is_none());
        }
    }
}

#[test]
fn set_amount_bars_rebuilds_every_channel() {
    let mut processor = dummy_processor(2);
    let mut bar_processor = BarProcessor::new(
        &processor,
        BarProcessorConfig { amount_bars: 10, ..Default::default() },
        &weights(10),
    );
    let size = processor.fft_out_size();
    processor.set_fft_out(0, vec![Fixed { raw: 3_000_000_000 }; size]);
    processor.set_fft_out(1, vec![Fixed { raw: 3_000_000_000 }; size]);
    let bars = bar_processor.process_bars(&processor);
    assert_eq!(bars.len(), 2);
    assert_eq!(bars[0].len(), 10);
    assert!(bars[0].iter().any(|bar| bar.raw > 0));
    assert_eq!(bars[0], bars[1]);
    assert!(bar_processor.ctx[0].normalize_factor.raw != 1_000_000_000);

    bar_processor.set_amount_bars(20, &weights(20));
    assert_eq!(bar_processor.config().amount_bars, 20);
    assert_eq!(bar_processor.total_amount_bars(), 20);
    assert_eq!(bar_processor.ctx.len(), 2);
    // nothing is remembered
    assert_eq!(bar_processor.ctx[0].normalize_factor.raw, 1_000_000_000);
    assert!(bar_processor.bar_values.iter().all(|row| row.iter().all(|bar| bar.raw == 0)));
    let bars = bar_processor.process_bars(&processor);
    assert_eq!(bars[1].len(), 20);
}

#[test]
fn default_config() {
    let config = BarProcessorConfig::default();
    assert_eq!(config.amount_bars, 30);
    assert_eq!(config.freq_range, 50..10_000);
    assert_eq!(config.sensitivity.raw, 200_000_000);
    assert!(config.padding.is_none());
}
