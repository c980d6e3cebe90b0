use vibe_audio::bpm_detector::median;
use vibe_audio::{BpmDetector, BpmDetectorConfig, Fixed, SampleProcessor};

fn fx(value: f64) -> Fixed {
    Fixed { raw: (value * 1e9).round() as i64 }
}

#[test]
fn test_config_default() {
    let config = BpmDetectorConfig::default();
    assert_eq!(config.history_seconds.raw as f64 / 1e9, 15.0);
    assert_eq!(config.min_bpm.raw as f64 / 1e9, 60.0);
    assert_eq!(config.max_bpm.raw as f64 / 1e9, 200.0);
    assert_eq!(config.estimate_history_size, 60);
}

#[test]
fn median_of_even_and_odd_amounts() {
    assert_eq!(median(&vec![fx(60.), fx(70.), fx(80.), fx(90.)]), fx(75.));
    assert_eq!(median(&vec![fx(60.), fx(70.), fx(80.)]), fx(70.));
    assert_eq!(median(&vec![fx(90.), fx(60.), fx(80.), fx(70.)]), fx(75.));
    assert_eq!(median(&vec![fx(80.), fx(60.), fx(70.)]), fx(70.));
    assert_eq!(median(&vec![fx(123.5)]), fx(123.5));
    assert_eq!(median(&vec![fx(-3.), fx(-4.)]), fx(-3.5));
}

#[test]
fn detector_starts_with_an_empty_history_of_the_right_length() {
    let processor = SampleProcessor::new(44_100, 1024, 1);
    let detector = BpmDetector::new(&processor, BpmDetectorConfig::default());
    // 15 s * 44100 / 1024 = 645.99
    assert_eq!(detector.onset_history.len(), 645);
    assert_eq!(detector.frames_between_updates, 645);
    // 20 Hz and 200 Hz at 43.07 Hz per bin
    assert_eq!(detector.bass_bin_start, 1);
    assert_eq!(detector.bass_bin_end, 5);
    assert_eq!(detector.bpm(), fx(120.));
    assert!(detector.bpm_estimates.is_empty());
}

#[test]
fn periodic_onsets_give_the_tempo_of_their_period() {
    let mut processor = SampleProcessor::new(44_100, 1024, 1);
    let mut detector = BpmDetector::new(&processor, BpmDetectorConfig::default());
    let size = processor.fft_out_size();
    // the window of lags is 12..43 and holds no other multiple of 25
    assert_eq!(detector.lag_window(), Some((12, 43)));
    let period = 25;
    for frame in 0..645 {
        let mut spectrum = vec![fx(0.); size];
        if frame % period == 0 {
            spectrum[1] = fx(1.);
        }
        processor.set_fft_out(0, spectrum);
        let bpm = detector.process(&processor);
        if frame < 644 {
            assert_eq!(bpm, fx(120.));
        }
    }
    // 60 * 44100 / 1024 / 25
    assert_eq!(detector.bpm(), fx(103.359375));
    assert_eq!(detector.bpm_estimates, vec![fx(103.359375)]);
    assert!(detector.bpm().raw >= detector.config.min_bpm.raw);
    assert!(detector.bpm().raw <= detector.config.max_bpm.raw);
    assert_eq!(detector.frame_count, 0);
    // the best lag agrees best: 25 pairs of pulses among 620 pairs
    let best = detector.autocorrelation(period);
    assert_eq!(best.raw, 25_000_000_000 / 620);
    for lag in 12..43 {
        assert!(detector.autocorrelation(lag).raw <= best.raw);
        if lag != period {
            assert_eq!(detector.autocorrelation(lag).raw, 0);
        }
    }
}

#[test]
fn autocorrelation_is_the_mean_product_of_onsets_a_lag_apart() {
    let processor = SampleProcessor::new(44_100, 1024, 1);
    let mut detector = BpmDetector::new(&processor, BpmDetectorConfig::default());
    // oldest first: 1, 1, 0, 0
    detector.onset_history = vec![fx(1.), fx(1.), fx(0.), fx(0.)];
    detector.onset_write_idx = 0;
    assert_eq!(detector.autocorrelation(1).raw, 333_333_333);
    assert_eq!(detector.autocorrelation(2).raw, 0);
    assert_eq!(detector.autocorrelation(0).raw, 500_000_000);
    assert_eq!(detector.autocorrelation(4).raw, 0);
    // the same onsets, with the oldest in slot 2
    detector.onset_history = vec![fx(0.), fx(0.), fx(1.), fx(1.)];
    detector.onset_write_idx = 2;
    assert_eq!(detector.autocorrelation(1).raw, 333_333_333);
    // oldest first: 1, 2, 3, 4 at lag 1: (2 + 6 + 12) / 3; at lag 3: 4
    detector.onset_history = vec![fx(3.), fx(4.), fx(1.), fx(2.)];
    detector.onset_write_idx = 2;
    assert_eq!(detector.autocorrelation(1).raw, 20_000_000_000 / 3);
    assert_eq!(detector.autocorrelation(3), fx(4.));
}

#[test]
fn a_spectrum_without_bass_bins_changes_nothing() {
    let processor = SampleProcessor::new(44_100, 1024, 1);
    let mut detector = BpmDetector::new(&processor, BpmDetectorConfig::default());
    // a spectrum of one bin holds no bin of the bass band
    assert_eq!(detector.process_spectrum(&vec![fx(1.)]), fx(120.));
    assert_eq!(detector.frame_count, 0);
    assert_eq!(detector.onset_write_idx, 0);
    assert_eq!(detector.prev_bass_energy, fx(0.));
}

#[test]
fn an_empty_window_of_lags_on_a_due_frame_leaves_tempo_and_estimates() {
    let processor = SampleProcessor::new(44_100, 1024, 1);
    // the lag of the highest tempo lies behind that of the lowest
    let config = BpmDetectorConfig { min_bpm: fx(200.), max_bpm: fx(60.), ..Default::default() };
    let mut detector = BpmDetector::new(&processor, config);
    assert_eq!(detector.lag_window(), None);
    assert_eq!(detector.detect(), None);
    assert_eq!(detector.compute_bpm_from_autocorrelation(), fx(120.));
    assert_eq!(detector.compute_median_bpm(), fx(120.));
    detector.bpm_estimates = vec![fx(100.)];
    detector.frame_count = detector.frames_between_updates - 1;
    let spectrum = vec![fx(1.); processor.fft_out_size()];
    assert_eq!(detector.process_spectrum(&spectrum), fx(120.));
    assert_eq!(detector.bpm(), fx(120.));
    assert_eq!(detector.bpm_estimates, vec![fx(100.)]);
    assert_eq!(detector.frame_count, 0);

    // a ring of two slots: half of it holds no lag of the window
    let short = BpmDetectorConfig { history_seconds: fx(0.05), ..Default::default() };
    let mut detector = BpmDetector::new(&processor, short);
    assert_eq!(detector.onset_history.len(), 2);
    detector.bpm_estimates = vec![fx(100.)];
    detector.frame_count = detector.frames_between_updates - 1;
    assert_eq!(detector.process_spectrum(&spectrum), fx(120.));
    assert_eq!(detector.bpm_estimates, vec![fx(100.)]);
}

#[test]
fn a_tempo_out_of_bounds_is_not_recorded() {
    let processor = SampleProcessor::new(44_100, 1024, 1);
    // tempos from 150 to 200: the lags 12..17
    let config = BpmDetectorConfig { min_bpm: fx(150.), max_bpm: fx(200.), ..Default::default() };
    let mut detector = BpmDetector::new(&processor, config);
    assert_eq!(detector.lag_window(), Some((12, 17)));
    detector.bpm_estimates = vec![fx(160.)];
    let size = processor.fft_out_size();
    for frame in 0..645 {
        let mut spectrum = vec![fx(0.); size];
        if frame % 25 == 0 {
            spectrum[1] = fx(1.);
        }
        detector.process_spectrum(&spectrum);
    }
    // no lag of the window agrees, so the first one stands: 60 * 44100 / 1024 / 12,
    // which lies above 200
    assert_eq!(detector.detect(), Some(fx(215.33203125)));
    assert_eq!(detector.bpm_estimates, vec![fx(160.)]);
    assert_eq!(detector.bpm(), fx(120.));
}

#[test]
fn estimates_are_bounded_and_the_oldest_leaves() {
    let processor = SampleProcessor::new(44_100, 1024, 1);
    let config = BpmDetectorConfig { estimate_history_size: 2, ..Default::default() };
    let mut detector = BpmDetector::new(&processor, config);
    let size = processor.fft_out_size();
    for round in 0..3 {
        for frame in 0..645 {
            let mut spectrum = vec![fx(0.); size];
            if frame % 25 == 0 {
                spectrum[1] = fx(1.);
            }
            detector.process_spectrum(&spectrum);
        }
        assert_eq!(detector.bpm_estimates.len(), (round + 1).min(2));
    }
}
