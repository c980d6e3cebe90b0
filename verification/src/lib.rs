//! Turns frames of audio spectra into smoothed, perceptually spaced bar
//! magnitudes and a running tempo estimate.
//!
//! Every quantity is a [`fixed::Fixed`]: a signed count of billionths with
//! saturating arithmetic, so that each step of the pipeline has an exact
//! integer meaning.  Producing the spectra (windowing and the Fourier
//! transform) and the perceptual weight curve is left to the caller.

pub mod bar_processor;
pub mod bpm_detector;
pub mod fetcher;
pub mod fixed;
pub mod interpolation;
pub mod output;
pub mod sample_processor;

use vstd::prelude::*;

pub use bar_processor::BarProcessor;
pub use bar_processor::config::{
    BarDistribution, BarProcessorConfig, InterpolationVariant, PaddingConfig, PaddingSide,
    PaddingSize,
};
pub use bpm_detector::{BpmDetector, BpmDetectorConfig};
pub use fixed::Fixed;
pub use sample_processor::SampleProcessor;

verus! {

/// The lowest frequency, in Hz, that humans hear (roughly).
pub const MIN_HUMAN_FREQUENCY: u16 = 20;

/// The highest frequency, in Hz, that humans hear (roughly).
pub const MAX_HUMAN_FREQUENCY: u16 = 20_000;

/// The sample rate, in Hz, that a source may take when it has no other.
pub const DEFAULT_SAMPLE_RATE: u32 = 44_100;

} // verus!
