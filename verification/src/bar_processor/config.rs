//! What a bar processor is configured with.

use crate::fixed::Fixed;
use std::ops::Range;
use vstd::prelude::*;

verus! {

/// How the bars between two supporting points get their values.
#[derive(Clone, Copy, Debug, PartialEq, Eq, Structural)]
pub enum InterpolationVariant {
    /// Each bar takes the value of the supporting point that owns it.
    Nothing,
    /// Straight lines between neighbouring supporting points.
    Linear,
    /// A natural cubic spline through all supporting points.
    CubicSpline,
}

/// Where the supporting points sit along the bars.
#[derive(Clone, Copy, Debug, PartialEq, Eq, Structural)]
pub enum BarDistribution {
    /// Evenly spaced.
    Uniform,
    /// Where the perceptual curve puts them.
    Natural,
}

/// The side on which extra bars are added.
#[derive(Clone, Copy, Debug, PartialEq, Eq, Structural)]
pub enum PaddingSide {
    Left,
    Right,
    Both,
}

/// How many extra bars one padded side gets.
#[derive(Clone, Copy, Debug, PartialEq, Eq, Structural)]
pub enum PaddingSize {
    /// Derived from the spacing of the supporting points.
    Auto,
    /// A given, positive amount.
    Custom(u16),
}

#[derive(Clone, Copy, Debug, PartialEq, Eq, Structural)]
pub struct PaddingConfig {
    pub side: PaddingSide,
    pub size: PaddingSize,
}

/// The configuration of a bar processor.
#[derive(Debug)]
pub struct BarProcessorConfig {
    /// The amount of bars per channel, padding not counted.  Positive.
    pub amount_bars: u16,
    /// The window of frequencies, in Hz, that the bars show.  Both bounds positive.
    pub freq_range: Range<u16>,
    /// How fast a bar falls once its signal has dropped.
    pub sensitivity: Fixed,
    pub interpolation: InterpolationVariant,
    pub bar_distribution: BarDistribution,
    pub padding: Option<PaddingConfig>,
}

impl BarProcessorConfig {
    /// The amounts and bounds are positive.
    pub open spec fn wf(&self) -> bool {
        &&& self.amount_bars >= 1
        &&& self.freq_range.start >= 1
        &&& self.freq_range.end >= 1
        &&& self.padding matches Some(p) ==> (p.size matches PaddingSize::Custom(n) ==> n >= 1)
    }
}

impl Default for BarProcessorConfig {
    /// Thirty bars from 50 Hz to 10 kHz, evenly spaced and joined by a cubic
    /// spline, without padding.
    fn default() -> (config: Self)
        ensures
            config.amount_bars == 30,
            config.freq_range.start == 50,
            config.freq_range.end == 10_000,
            config.sensitivity.raw == 200_000_000,
            config.interpolation == InterpolationVariant::CubicSpline,
            config.bar_distribution == BarDistribution::Uniform,
            config.padding.is_none(),
            config.wf(),
    {
        BarProcessorConfig {
            amount_bars: 30,
            freq_range: 50..10_000,
            sensitivity: Fixed { raw: 200_000_000 },
            interpolation: InterpolationVariant::CubicSpline,
            bar_distribution: BarDistribution::Uniform,
            padding: None,
        }
    }
}

} // verus!
