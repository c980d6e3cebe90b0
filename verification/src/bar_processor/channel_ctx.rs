//! The state of one audio channel.

pub mod fft_out_metadata;
pub mod padding;

use crate::bar_processor::channel_ctx::fft_out_metadata::{
    ceil_div, contiguous_ranges, lemma_ascending_gap, lemma_fillup_shape, lemma_points_shape,
    lemma_redistribute_shape,
    spec_amount_bins, spec_fillup, spec_points, spec_ranges, spec_redistribute, valid_weights,
    FftOutMetadata, FftOutMetadataDescriptor, FULL_WEIGHT,
};
use crate::bar_processor::channel_ctx::padding::PaddingCtx;
use crate::bar_processor::config::{
    BarDistribution, BarProcessorConfig, PaddingConfig, PaddingSide, PaddingSize,
};
use crate::fixed::{clamp, spec_quiet, spec_sum, sum_bins, Fixed, SCALE};
use crate::interpolation::{
    spec_interpolated, strictly_ascending, Interpolator, InterpolatorDescriptor,
    SupportingPoint,
};
use std::ops::Range;
use vstd::prelude::*;

verus! {

/// The gain that a channel starts with: one.
pub const INIT_NORMALIZATION_FACTOR: i64 = 1_000_000_000;

/// The size of an automatic padding where the spacing of the supporting
/// points gives none.
pub const DEFAULT_PADDING_SIZE: u32 = 5;

/// What is added to the squared position of a bar to get its correction: 0.05.
pub const BIAS: i64 = 50_000_000;

/// By how much the falling time of a bar grows per frame: 0.028.
pub const FALL_STEP: i64 = 28_000_000;

/// The share of the last smoothed value that enters the next one: 0.77.
pub const SMOOTHING: i64 = 770_000_000;

/// The rate of the gain after a frame in which a bar went over one: 0.98.
pub const SHRINK: i64 = 980_000_000;

/// The rate of the gain after a frame with sound in which no bar went over one: 1.002.
pub const GROW: i64 = 1_002_000_000;

/// What smoothing remembers of one supporting point.
#[derive(Clone, Copy, Debug, PartialEq, Eq, Structural)]
pub struct BarMemory {
    /// The value in the last frame, before smoothing.
    pub prev: Fixed,
    /// The last peak.
    pub peak: Fixed,
    /// For how long the value has been falling.
    pub fall: Fixed,
    /// The smoothed value in the last frame.
    pub mem: Fixed,
}

/// The state of one audio channel: its supporting points, their ranges of
/// bins, and what smoothing and gain control remember from frame to frame.
#[derive(Debug)]
pub struct ChannelCtx {
    /// The strategy that fills the bars, with the supporting points.
    pub interpolator: Interpolator,
    /// The range of bins of each supporting point that has one.
    pub fft_out_ranges: Vec<Range<usize>>,
    pub padding: Option<PaddingCtx>,
    /// The gain that is applied to every magnitude.
    pub normalize_factor: Fixed,
    pub sensitivity: Fixed,
    /// The value of each supporting point in the last frame, before smoothing.
    pub prev: Vec<Fixed>,
    /// The last peak of each supporting point.
    pub peak: Vec<Fixed>,
    /// For how long each supporting point has been falling.
    pub fall: Vec<Fixed>,
    /// The smoothed value of each supporting point in the last frame.
    pub mem: Vec<Fixed>,
}

/// The descriptor of the mapping that a channel of this configuration gets.
pub open spec fn spec_descriptor(
    config: BarProcessorConfig,
    sample_rate: u32,
    fft_size: usize,
) -> FftOutMetadataDescriptor {
    FftOutMetadataDescriptor {
        amount_bars: config.amount_bars,
        sample_rate,
        fft_size,
        freq_range: config.freq_range,
    }
}

/// The supporting points of a channel before padding moves them: those of
/// the mapping, made to cover every bar and spaced as the configuration asks.
pub open spec fn spec_base_points(
    config: BarProcessorConfig,
    sample_rate: u32,
    fft_size: usize,
    weights: Seq<Fixed>,
) -> Seq<SupportingPoint> {
    spec_redistribute(
        spec_fillup(
            spec_points(
                weights,
                spec_amount_bins(spec_descriptor(config, sample_rate, fft_size)),
                config.amount_bars as int,
            ),
            config.amount_bars as int,
        ),
        config.bar_distribution,
    )
}

/// The amount of bars that one padded side gets: a custom size as given; an
/// automatic size is four times the distance between the first two
/// supporting points where these are evenly spaced, and the default otherwise.
pub open spec fn spec_padding_size(
    size: PaddingSize,
    distribution: BarDistribution,
    points: Seq<SupportingPoint>,
) -> int {
    match size {
        PaddingSize::Custom(n) => n as int,
        PaddingSize::Auto => if distribution == BarDistribution::Uniform && points.len() > 1 {
            (points[1].x - points[0].x) * 4
        } else {
            DEFAULT_PADDING_SIZE as int
        },
    }
}

/// The padding of a channel with the given configuration and supporting points.
pub open spec fn spec_padding(config: BarProcessorConfig, points: Seq<SupportingPoint>) -> Option<
    PaddingCtx,
> {
    match config.padding {
        None => None,
        Some(conf) => Some(
            PaddingCtx {
                size: spec_padding_size(conf.size, config.bar_distribution, points) as u32,
                side: conf.side,
            },
        ),
    }
}

/// The amount of padded bars of an optional padding.
pub open spec fn spec_padding_amount(padding: Option<PaddingCtx>) -> int {
    match padding {
        None => 0,
        Some(ctx) => ctx.spec_amount_bars(),
    }
}

/// The amount of bars in front of the first supporting point.
pub open spec fn spec_padding_left(padding: Option<PaddingCtx>) -> int {
    match padding {
        None => 0,
        Some(ctx) => ctx.spec_left(),
    }
}

/// The points, each moved to the right by `left` bars.
pub open spec fn spec_shifted(points: Seq<SupportingPoint>, left: int) -> Seq<SupportingPoint> {
    Seq::new(
        points.len(),
        |i: int| SupportingPoint { x: (points[i].x + left) as usize, y: points[i].y },
    )
}

/// The amount of bars, padding included, of a channel that is made from
/// these arguments.
pub open spec fn spec_planned_total(
    config: BarProcessorConfig,
    sample_rate: u32,
    fft_size: usize,
    weights: Seq<Fixed>,
) -> int {
    config.amount_bars + spec_padding_amount(
        spec_padding(config, spec_base_points(config, sample_rate, fft_size, weights)),
    )
}

/// A channel can be made from these arguments: the configuration is well
/// formed, its frequency window holds a bin, there is a valid weight for
/// each bar, and the bars, padding included, can be counted in 16 bits.
pub open spec fn spec_constructible(
    config: BarProcessorConfig,
    sample_rate: u32,
    fft_size: usize,
    weights: Seq<Fixed>,
) -> bool {
    &&& config.wf()
    &&& spec_amount_bins(spec_descriptor(config, sample_rate, fft_size)) >= 1
    &&& valid_weights(weights, config.amount_bars as int)
    &&& spec_planned_total(config, sample_rate, fft_size, weights) <= u16::MAX
}

/// The mean of the magnitudes of the bins of `range`.
pub open spec fn spec_mean(magnitudes: Seq<Fixed>, range: Range<usize>) -> Fixed {
    spec_sum(magnitudes, range.start as int, range.end as int).spec_div_int(
        (range.end - range.start) as u64,
    )
}

/// The correction of the bar `x` among `amount_bars` bars: the square of
/// its relative position, plus 0.05.  It holds the low bars down and lets
/// the high bars respond.
pub open spec fn spec_correction(x: usize, amount_bars: usize) -> Fixed {
    let position = Fixed { raw: SCALE }.spec_mul_ratio(x as u32, amount_bars as u32);
    position.spec_sat_mul(position).spec_sat_add(Fixed { raw: BIAS })
}

/// The value that a supporting point is offered in a frame: the mean of
/// its bins, times the gain, times its correction.
pub open spec fn spec_incoming(mean: Fixed, factor: Fixed, correction: Fixed) -> Fixed {
    mean.spec_sat_mul(factor).spec_sat_mul(correction)
}

/// What a supporting point remembers after a frame that offers it `incoming`.
///
/// A value below that of the last frame is replaced by the last peak let
/// down by `fall * fall * sensitivity`, not below zero, and the falling time
/// grows by 0.028.  Any other value becomes the new peak and ends the fall.
/// The smoothed value is 0.77 times the last smoothed value plus this value.
pub open spec fn spec_settle(before: BarMemory, incoming: Fixed, sensitivity: Fixed) -> BarMemory {
    if incoming.raw < before.prev.raw {
        let released = before.peak.spec_sat_mul(
            Fixed { raw: SCALE }.spec_sat_sub(
                before.fall.spec_sat_mul(before.fall).spec_sat_mul(sensitivity),
            ),
        );
        let value = if released.raw < 0 {
            Fixed { raw: 0 }
        } else {
            released
        };
        BarMemory {
            prev: value,
            peak: before.peak,
            fall: before.fall.spec_sat_add(Fixed { raw: FALL_STEP }),
            mem: before.mem.spec_sat_mul(Fixed { raw: SMOOTHING }).spec_sat_add(value),
        }
    } else {
        BarMemory {
            prev: incoming,
            peak: incoming,
            fall: Fixed { raw: 0 },
            mem: before.mem.spec_sat_mul(Fixed { raw: SMOOTHING }).spec_sat_add(incoming),
        }
    }
}

/// The gain after a frame in which a bar went over one: 0.98 times the
/// gain, rounded towards zero; a gain above zero keeps at least one step.
pub open spec fn spec_shrunk(factor: Fixed) -> Fixed {
    let shrunk = factor.spec_sat_mul(Fixed { raw: SHRINK });
    if factor.raw > 0 && shrunk.raw < 1 {
        Fixed { raw: 1 }
    } else {
        shrunk
    }
}

/// The gain after a frame with sound in which no bar went over one: 1.002
/// times the gain, where the gain is above zero rounded up to the next step.
pub open spec fn spec_grown(factor: Fixed) -> Fixed {
    if factor.raw > 0 {
        Fixed { raw: clamp(ceil_div(factor.raw * 1002, 1000)) as i64 }
    } else {
        factor.spec_sat_mul(Fixed { raw: GROW })
    }
}

/// The gain after a frame: shrunk where a bar went over one, else grown
/// where the frame held sound, else as it was.
pub open spec fn spec_next_factor(factor: Fixed, overshoot: bool, silent: bool) -> Fixed {
    if overshoot {
        spec_shrunk(factor)
    } else if !silent {
        spec_grown(factor)
    } else {
        factor
    }
}

/// A row of `len` zeros.
pub open spec fn spec_zeros(len: int) -> Seq<Fixed> {
    Seq::new(len as nat, |i: int| Fixed { raw: 0 })
}

/// Whether `weights` holds a valid weight for each of `amount_bars` bars.
pub fn check_weights(weights: &Vec<Fixed>, amount_bars: u16) -> (valid: bool)
    ensures
        valid == valid_weights(weights@, amount_bars as int),
{
    if weights.len() != amount_bars as usize {
        return false;
    }
    let mut idx: usize = 0;
    while idx < weights.len()
        invariant
            idx <= weights@.len(),
            forall|i: int| 0 <= i < idx ==> 0 < (#[trigger] weights@[i]).raw <= FULL_WEIGHT,
            forall|i: int| 0 < i < idx ==> weights@[i - 1].raw <= (#[trigger] weights@[i]).raw,
        decreases weights@.len() - idx,
    {
        let weight: i64 = weights[idx].raw;
        if weight <= 0 || weight > FULL_WEIGHT {
            return false;
        }
        if idx > 0 && weights[idx - 1].raw > weight {
            assert(!(weights@[idx - 1].raw <= weights@[idx as int].raw));
            return false;
        }
        idx += 1;
    }
    proof {
        assert forall|i: int, j: int| 0 <= i <= j < weights@.len() implies (#[trigger] weights@[i]).raw
            <= (#[trigger] weights@[j]).raw by {
            lemma_neighbours_ascend(weights@, i, j);
        }
    }
    true
}

/// Weights of which none is below the one before it are in ascending order.
proof fn lemma_neighbours_ascend(weights: Seq<Fixed>, i: int, j: int)
    requires
        forall|k: int| 0 < k < weights.len() ==> weights[k - 1].raw <= (#[trigger] weights[k]).raw,
        0 <= i <= j < weights.len(),
    ensures
        weights[i].raw <= weights[j].raw,
    decreases j - i,
{
    if i < j {
        lemma_neighbours_ascend(weights, i, j - 1);
    }
}

/// The supporting points of a channel, before padding moves them, are in
/// ascending order, begin with the first bar and end with the last.
pub proof fn lemma_base_points_shape(
    config: BarProcessorConfig,
    sample_rate: u32,
    fft_size: usize,
    weights: Seq<Fixed>,
)
    requires
        config.amount_bars >= 1,
        spec_amount_bins(spec_descriptor(config, sample_rate, fft_size)) >= 1,
        valid_weights(weights, config.amount_bars as int),
    ensures
        spec_base_points(config, sample_rate, fft_size, weights).len() >= 1,
        strictly_ascending(spec_base_points(config, sample_rate, fft_size, weights)),
        spec_base_points(config, sample_rate, fft_size, weights)[0].x == 0,
        spec_base_points(config, sample_rate, fft_size, weights).last().x == config.amount_bars
            - 1,
{
    let bins = spec_amount_bins(spec_descriptor(config, sample_rate, fft_size));
    let n = config.amount_bars as int;
    let points = spec_points(weights, bins, n);
    lemma_points_shape(weights, bins, n);
    lemma_fillup_shape(points, n);
    lemma_redistribute_shape(spec_fillup(points, n), config.bar_distribution);
}

/// A padding that the configuration asks for adds at least one bar.
pub proof fn lemma_padding_adds_bars(
    config: BarProcessorConfig,
    sample_rate: u32,
    fft_size: usize,
    weights: Seq<Fixed>,
)
    requires
        config.wf(),
        config.padding.is_some(),
        spec_amount_bins(spec_descriptor(config, sample_rate, fft_size)) >= 1,
        valid_weights(weights, config.amount_bars as int),
    ensures
        spec_planned_total(config, sample_rate, fft_size, weights) > config.amount_bars,
{
    lemma_base_points_shape(config, sample_rate, fft_size, weights);
}

/// With the highest amount of bars that a configuration can ask for, any
/// padding takes the channel over the limit: no channel can be made.
pub proof fn lemma_full_bars_leave_no_padding(
    config: BarProcessorConfig,
    sample_rate: u32,
    fft_size: usize,
    weights: Seq<Fixed>,
)
    requires
        config.amount_bars == u16::MAX,
        config.padding.is_some(),
    ensures
        !spec_constructible(config, sample_rate, fft_size, weights),
{
    if config.wf() && spec_amount_bins(spec_descriptor(config, sample_rate, fft_size)) >= 1
        && valid_weights(weights, config.amount_bars as int) {
        lemma_padding_adds_bars(config, sample_rate, fft_size, weights);
    }
}

/// Without padding, a channel can be made for any amount of bars, and it
/// has exactly that amount.
pub proof fn lemma_unpadded_total(
    config: BarProcessorConfig,
    sample_rate: u32,
    fft_size: usize,
    weights: Seq<Fixed>,
)
    requires
        config.wf(),
        config.padding.is_none(),
        spec_amount_bins(spec_descriptor(config, sample_rate, fft_size)) >= 1,
        valid_weights(weights, config.amount_bars as int),
    ensures
        spec_constructible(config, sample_rate, fft_size, weights),
        spec_planned_total(config, sample_rate, fft_size, weights) == config.amount_bars,
{
}

/// With a padding of a custom size the channel has that many bars more on
/// each padded side.
pub proof fn lemma_custom_padding_total(
    config: BarProcessorConfig,
    sample_rate: u32,
    fft_size: usize,
    weights: Seq<Fixed>,
    side: PaddingSide,
    size: u16,
)
    requires
        config.padding == Some(PaddingConfig { side, size: PaddingSize::Custom(size) }),
    ensures
        spec_planned_total(config, sample_rate, fft_size, weights) == config.amount_bars + (if side
            == PaddingSide::Both {
            2 * size
        } else {
            size as int
        }),
{
}

/// The gain after a frame in which a bar went over one.
fn shrunk(factor: Fixed) -> (gain: Fixed)
    ensures
        gain == spec_shrunk(factor),
{
    let gain: Fixed = factor.sat_mul(Fixed { raw: SHRINK });
    if factor.raw > 0 && gain.raw < 1 {
        Fixed { raw: 1 }
    } else {
        gain
    }
}

/// The gain after a frame with sound in which no bar went over one.
fn grown(factor: Fixed) -> (gain: Fixed)
    ensures
        gain == spec_grown(factor),
{
    if factor.raw > 0 {
        let wide: i128 = (factor.raw as i128) * 1002 + 999;
        let raised: i128 = wide / 1000;
        if raised > i64::MAX as i128 {
            Fixed { raw: i64::MAX }
        } else {
            Fixed { raw: raised as i64 }
        }
    } else {
        factor.sat_mul(Fixed { raw: GROW })
    }
}

/// The padding that the configuration asks for, sized from the supporting points.
fn padding_for(config: &BarProcessorConfig, points: &Vec<SupportingPoint>) -> (padding: Option<
    PaddingCtx,
>)
    requires
        points@.len() >= 1,
        strictly_ascending(points@),
        points@.last().x <= u16::MAX,
    ensures
        padding == spec_padding(*config, points@),
        padding matches Some(ctx) ==> ctx.size <= 4 * u16::MAX,
{
    match config.padding {
        None => None,
        Some(conf) => {
            let size: u32 = match conf.size {
                PaddingSize::Auto => match config.bar_distribution {
                    BarDistribution::Uniform => {
                        if points.len() > 1 {
                            let first: usize = points[0].x;
                            let second: usize = points[1].x;
                            assert(points@[0].x < points@[1].x <= points@.last().x);
                            ((second - first) * 4) as u32
                        } else {
                            DEFAULT_PADDING_SIZE
                        }
                    },
                    BarDistribution::Natural => DEFAULT_PADDING_SIZE,
                },
                PaddingSize::Custom(size) => size as u32,
            };
            Some(PaddingCtx::new(size, conf.side))
        },
    }
}

/// The correction of the bar `x` among `amount_bars` bars.
fn correction(x: usize, amount_bars: usize) -> (value: Fixed)
    requires
        x <= u32::MAX,
        0 < amount_bars <= u32::MAX,
    ensures
        value == spec_correction(x, amount_bars),
{
    let position: Fixed = Fixed { raw: SCALE }.mul_ratio(x as u32, amount_bars as u32);
    position.sat_mul(position).sat_add(Fixed { raw: BIAS })
}

/// What a supporting point remembers after a frame that offers it `incoming`.
fn settle(before: BarMemory, incoming: Fixed, sensitivity: Fixed) -> (after: BarMemory)
    ensures
        after == spec_settle(before, incoming, sensitivity),
{
    let carried: Fixed = before.mem.sat_mul(Fixed { raw: SMOOTHING });
    if incoming.raw < before.prev.raw {
        let released: Fixed = before.peak.sat_mul(
            Fixed { raw: SCALE }.sat_sub(before.fall.sat_mul(before.fall).sat_mul(sensitivity)),
        );
        let value: Fixed = if released.raw < 0 {
            Fixed { raw: 0 }
        } else {
            released
        };
        BarMemory {
            prev: value,
            peak: before.peak,
            fall: before.fall.sat_add(Fixed { raw: FALL_STEP }),
            mem: carried.sat_add(value),
        }
    } else {
        BarMemory {
            prev: incoming,
            peak: incoming,
            fall: Fixed { raw: 0 },
            mem: carried.sat_add(incoming),
        }
    }
}

impl ChannelCtx {
    /// The amount of bars from the first supporting point to the last.
    pub open spec fn spec_unpadded(&self) -> int {
        self.interpolator.spec_covered_len()
    }

    /// The amount of bars of the channel, padded bars included.
    pub open spec fn spec_total_amount_bars(&self) -> int {
        self.spec_unpadded() + spec_padding_amount(self.padding)
    }

    /// The parts of the state fit each other and the bars can be counted in
    /// 16 bits.
    pub open spec fn wf(&self) -> bool {
        &&& self.interpolator.wf()
        &&& self.fft_out_ranges@.len() <= self.interpolator.supporting_points@.len()
        &&& contiguous_ranges(self.fft_out_ranges@)
        &&& self.prev@.len() == self.spec_unpadded()
        &&& self.peak@.len() == self.spec_unpadded()
        &&& self.fall@.len() == self.spec_unpadded()
        &&& self.mem@.len() == self.spec_unpadded()
        &&& self.interpolator.supporting_points@[0].x == spec_padding_left(self.padding)
        &&& self.spec_total_amount_bars() <= u16::MAX
    }

    /// The state of a channel with the given configuration, or `None` where
    /// no channel can be made from the arguments.
    pub fn try_new(
        config: &BarProcessorConfig,
        sample_rate: u32,
        fft_size: usize,
        weights: &Vec<Fixed>,
    ) -> (made: Option<Self>)
        ensures
            made.is_some() == spec_constructible(*config, sample_rate, fft_size, weights@),
            config.amount_bars == u16::MAX && config.padding.is_some() ==> made.is_none(),
            made matches Some(ctx) ==> ctx.spec_made_from(*config, sample_rate, fft_size, weights@),
    {
        proof {
            if config.amount_bars == u16::MAX && config.padding.is_some() {
                lemma_full_bars_leave_no_padding(*config, sample_rate, fft_size, weights@);
            }
        }
        let config_wf: bool = config.amount_bars >= 1 && config.freq_range.start >= 1
            && config.freq_range.end >= 1 && match config.padding {
            Some(PaddingConfig { size: PaddingSize::Custom(n), .. }) => n >= 1,
            _ => true,
        };
        if !config_wf {
            return None;
        }
        let desc = FftOutMetadataDescriptor {
            amount_bars: config.amount_bars,
            sample_rate,
            fft_size,
            freq_range: config.freq_range.start..config.freq_range.end,
        };
        assert(desc == spec_descriptor(*config, sample_rate, fft_size));
        if desc.amount_bins() < 1 {
            return None;
        }
        if !check_weights(weights, config.amount_bars) {
            return None;
        }
        let data = FftOutMetadata::interpret_fft_context(desc, weights).fillup(
            config.amount_bars,
        ).redistribute(config.bar_distribution);
        let FftOutMetadata { mut supporting_points, supporting_points_fft_ranges } = data;
        let ghost base = supporting_points@;
        assert(base == spec_base_points(*config, sample_rate, fft_size, weights@));
        proof {
            lemma_base_points_shape(*config, sample_rate, fft_size, weights@);
        }
        let padding: Option<PaddingCtx> = padding_for(config, &supporting_points);
        match &padding {
            None => {},
            Some(ctx) => {
                ctx.adjust_supporting_points(&mut supporting_points);
            },
        }
        proof {
            let left = spec_padding_left(padding);
            assert(supporting_points@ =~= spec_shifted(base, left));
            assert(supporting_points@[0].x == left);
            assert(supporting_points@.last().x == left + config.amount_bars - 1);
            assert forall|i: int, j: int| 0 <= i < j < supporting_points@.len() implies supporting_points@[i].x
                < supporting_points@[j].x by {
                assert(base[i].x < base[j].x);
            }
        }
        let interpolator = Interpolator::new(
            config.interpolation,
            InterpolatorDescriptor { supporting_points },
        );
        let covered: Range<usize> = interpolator.covered_bar_range();
        let unpadded: usize = covered.end - covered.start;
        let padded: usize = match &padding {
            None => 0,
            Some(ctx) => ctx.amount_bars(),
        };
        if unpadded + padded > u16::MAX as usize {
            return None;
        }
        let zero: Fixed = Fixed { raw: 0 };
        let ctx = ChannelCtx {
            interpolator,
            fft_out_ranges: supporting_points_fft_ranges,
            padding,
            normalize_factor: Fixed { raw: INIT_NORMALIZATION_FACTOR },
            sensitivity: config.sensitivity,
            prev: vec![zero; unpadded],
            peak: vec![zero; unpadded],
            fall: vec![zero; unpadded],
            mem: vec![zero; unpadded],
        };
        proof {
            assert(ctx.prev@ =~= spec_zeros(unpadded as int));
            assert(ctx.peak@ =~= spec_zeros(unpadded as int));
            assert(ctx.fall@ =~= spec_zeros(unpadded as int));
            assert(ctx.mem@ =~= spec_zeros(unpadded as int));
        }
        Some(ctx)
    }

    /// This is the state that a fresh channel has when it is made from the
    /// arguments.
    pub open spec fn spec_made_from(
        &self,
        config: BarProcessorConfig,
        sample_rate: u32,
        fft_size: usize,
        weights: Seq<Fixed>,
    ) -> bool {
        let base = spec_base_points(config, sample_rate, fft_size, weights);
        &&& self.wf()
        &&& self.interpolator.variant == config.interpolation
        &&& self.padding == spec_padding(config, base)
        &&& self.interpolator.supporting_points@ == spec_shifted(
            base,
            spec_padding_left(self.padding),
        )
        &&& self.fft_out_ranges@ == spec_ranges(
            weights,
            spec_amount_bins(spec_descriptor(config, sample_rate, fft_size)),
            config.amount_bars as int,
        )
        &&& self.normalize_factor.raw == INIT_NORMALIZATION_FACTOR
        &&& self.sensitivity == config.sensitivity
        &&& self.spec_unpadded() == config.amount_bars
        &&& self.interpolator.supporting_points@.last().x == spec_padding_left(self.padding)
            + config.amount_bars - 1
        &&& self.spec_total_amount_bars() == spec_planned_total(
            config,
            sample_rate,
            fft_size,
            weights,
        )
        &&& self.prev@ == spec_zeros(config.amount_bars as int)
        &&& self.peak@ == spec_zeros(config.amount_bars as int)
        &&& self.fall@ == spec_zeros(config.amount_bars as int)
        &&& self.mem@ == spec_zeros(config.amount_bars as int)
    }

    /// The state of a channel with the given configuration.
    pub fn new(
        config: &BarProcessorConfig,
        sample_rate: u32,
        fft_size: usize,
        weights: &Vec<Fixed>,
    ) -> (ctx: Self)
        requires
            spec_constructible(*config, sample_rate, fft_size, weights@),
        ensures
            ctx.spec_made_from(*config, sample_rate, fft_size, weights@),
    {
        Self::try_new(config, sample_rate, fft_size, weights).unwrap()
    }

    /// The amount of bars of the channel: those between the supporting
    /// points and the padded ones.
    pub fn total_amount_bars(&self) -> (total: usize)
        requires
            self.wf(),
        ensures
            total == self.spec_unpadded() + spec_padding_amount(self.padding),
    {
        let covered: Range<usize> = self.interpolator.covered_bar_range();
        let unpadded: usize = covered.end - covered.start;
        let padded: usize = match &self.padding {
            None => 0,
            Some(ctx) => ctx.amount_bars(),
        };
        unpadded + padded
    }
    /// What supporting point `k` remembers before the frame.
    pub open spec fn spec_bar_before(&self, k: int) -> BarMemory {
        BarMemory {
            prev: self.prev@[k],
            peak: self.peak@[k],
            fall: self.fall@[k],
            mem: self.mem@[k],
        }
    }

    /// What supporting point `k` remembers after a frame with the given spectrum.
    pub open spec fn spec_bar_after(&self, magnitudes: Seq<Fixed>, k: int) -> BarMemory {
        spec_settle(
            self.spec_bar_before(k),
            spec_incoming(
                spec_mean(magnitudes, self.fft_out_ranges@[k]),
                self.normalize_factor,
                spec_correction(self.interpolator.supporting_points@[k].x, self.prev@.len() as usize),
            ),
            self.sensitivity,
        )
    }

    /// A supporting point among the first `n` goes over one in a frame with
    /// the given spectrum.
    pub open spec fn spec_overshoot_upto(&self, magnitudes: Seq<Fixed>, n: int) -> bool {
        exists|k: int| 0 <= k < n && (#[trigger] self.spec_bar_after(magnitudes, k)).mem.raw > SCALE
    }

    /// A supporting point goes over one in a frame with the given spectrum.
    pub open spec fn spec_overshoot(&self, magnitudes: Seq<Fixed>) -> bool {
        self.spec_overshoot_upto(magnitudes, self.fft_out_ranges@.len() as int)
    }

    /// None of the bins of the first `n` supporting points holds a
    /// magnitude above zero.
    pub open spec fn spec_silent_upto(&self, magnitudes: Seq<Fixed>, n: int) -> bool {
        forall|k: int|
            0 <= k < n ==> spec_quiet(
                magnitudes,
                (#[trigger] self.fft_out_ranges@[k]).start as int,
                self.fft_out_ranges@[k].end as int,
            )
    }

    /// None of the bins of the channel holds a magnitude above zero.
    pub open spec fn spec_silent(&self, magnitudes: Seq<Fixed>) -> bool {
        self.spec_silent_upto(magnitudes, self.fft_out_ranges@.len() as int)
    }

    /// A spectrum of `len` bins holds every bin of the channel.
    pub open spec fn spec_fits(&self, len: int) -> bool {
        forall|k: int|
            0 <= k < self.fft_out_ranges@.len() ==> (#[trigger] self.fft_out_ranges@[k]).end <= len
    }

    /// Whether a spectrum of `len` bins holds every bin of the channel.
    pub fn fits(&self, len: usize) -> (fits: bool)
        requires
            self.wf(),
        ensures
            fits == self.spec_fits(len as int),
    {
        let amount: usize = self.fft_out_ranges.len();
        if amount == 0 {
            return true;
        }
        proof {
            assert forall|k: int| 0 <= k < amount implies (#[trigger] self.fft_out_ranges@[k]).end
                <= self.fft_out_ranges@[amount - 1].end by {
                lemma_ranges_end_early(self.fft_out_ranges@, k, amount - 1);
            }
        }
        self.fft_out_ranges[amount - 1].end <= len
    }

    /// `after` is the state that a frame with the given spectrum leaves behind.
    ///
    /// Each supporting point that has a range of bins settles as
    /// [`spec_settle`] says on what the frame offers it, and its magnitude
    /// becomes the smoothed value; the other points stay as they are; the
    /// gain is adjusted as [`spec_next_factor`] says.
    pub open spec fn spec_updated(&self, after: ChannelCtx, magnitudes: Seq<Fixed>) -> bool {
        &&& after.fft_out_ranges@ == self.fft_out_ranges@
        &&& after.padding == self.padding
        &&& after.sensitivity == self.sensitivity
        &&& after.interpolator.variant == self.interpolator.variant
        &&& after.interpolator.supporting_points@.len() == self.interpolator.supporting_points@.len()
        &&& after.spec_unpadded() == self.spec_unpadded()
        &&& forall|k: int|
            0 <= k < self.fft_out_ranges@.len() ==> after.spec_bar_before(k) == (
            #[trigger] self.spec_bar_after(magnitudes, k))
                && after.interpolator.supporting_points@[k] == (SupportingPoint {
                x: self.interpolator.supporting_points@[k].x,
                y: self.spec_bar_after(magnitudes, k).mem,
            })
        &&& forall|k: int|
            self.fft_out_ranges@.len() <= k < self.prev@.len() ==> after.spec_bar_before(k) == (
            #[trigger] self.spec_bar_before(k))
        &&& forall|k: int|
            self.fft_out_ranges@.len() <= k < self.interpolator.supporting_points@.len()
                ==> after.interpolator.supporting_points@[k] == (
            #[trigger] self.interpolator.supporting_points@[k])
        &&& after.normalize_factor == spec_next_factor(
            self.normalize_factor,
            self.spec_overshoot(magnitudes),
            self.spec_silent(magnitudes),
        )
    }

    /// Takes one frame of the spectrum into the supporting points.
    ///
    /// `magnitudes` holds the magnitude of each bin.  Each supporting point
    /// that has a range of bins is offered the mean of its bins, times the
    /// gain, times its correction, and settles as [`spec_settle`] says; its
    /// magnitude becomes the smoothed value.  Then the gain is adjusted as
    /// [`spec_next_factor`] says.
    pub fn update_supporting_points(&mut self, magnitudes: &Vec<Fixed>)
        requires
            old(self).wf(),
            old(self).spec_fits(magnitudes@.len() as int),
        ensures
            final(self).wf(),
            old(self).spec_updated(*final(self), magnitudes@),
    {
        let mut overshoot: bool = false;
        let mut is_silent: bool = true;
        let amount_bars: usize = self.prev.len();
        let amount_ranges: usize = self.fft_out_ranges.len();
        proof {
            lemma_ascending_gap(
                self.interpolator.supporting_points@,
                self.interpolator.supporting_points@.len() - 1,
            );
        }
        let mut bar_idx: usize = 0;
        while bar_idx < amount_ranges
            invariant
                bar_idx <= amount_ranges,
                old(self).wf(),
                old(self).spec_fits(magnitudes@.len() as int),
                amount_ranges == old(self).fft_out_ranges@.len(),
                amount_bars == old(self).prev@.len(),
                amount_ranges <= old(self).interpolator.supporting_points@.len() <= amount_bars,
                self.fft_out_ranges@ == old(self).fft_out_ranges@,
                self.padding == old(self).padding,
                self.sensitivity == old(self).sensitivity,
                self.normalize_factor == old(self).normalize_factor,
                self.interpolator.variant == old(self).interpolator.variant,
                self.interpolator.upper@.len() == old(self).interpolator.upper@.len(),
                self.interpolator.reduced@.len() == old(self).interpolator.reduced@.len(),
                self.interpolator.curvature@.len() == old(self).interpolator.curvature@.len(),
                self.interpolator.supporting_points@.len() == old(self).interpolator.supporting_points@.len(),
                self.prev@.len() == amount_bars,
                self.peak@.len() == amount_bars,
                self.fall@.len() == amount_bars,
                self.mem@.len() == amount_bars,
                forall|k: int|
                    0 <= k < bar_idx ==> ({
                        let after = #[trigger] old(self).spec_bar_after(magnitudes@, k);
                        &&& self.prev@[k] == after.prev
                        &&& self.peak@[k] == after.peak
                        &&& self.fall@[k] == after.fall
                        &&& self.mem@[k] == after.mem
                        &&& self.interpolator.supporting_points@[k] == (SupportingPoint {
                            x: old(self).interpolator.supporting_points@[k].x,
                            y: after.mem,
                        })
                    }),
                forall|k: int|
                    bar_idx <= k < amount_bars ==> self.prev@[k] == (#[trigger] old(self).prev@[k]),
                forall|k: int|
                    bar_idx <= k < amount_bars ==> self.peak@[k] == (#[trigger] old(self).peak@[k]),
                forall|k: int|
                    bar_idx <= k < amount_bars ==> self.fall@[k] == (#[trigger] old(self).fall@[k]),
                forall|k: int|
                    bar_idx <= k < amount_bars ==> self.mem@[k] == (#[trigger] old(self).mem@[k]),
                forall|k: int|
                    bar_idx <= k < self.interpolator.supporting_points@.len()
                        ==> self.interpolator.supporting_points@[k] == (#[trigger] old(self).interpolator.supporting_points@[k]),
                overshoot == old(self).spec_overshoot_upto(magnitudes@, bar_idx as int),
                is_silent == old(self).spec_silent_upto(magnitudes@, bar_idx as int),
            decreases amount_ranges - bar_idx,
        {
            let point: SupportingPoint = self.interpolator.supporting_points[bar_idx];
            let start: usize = self.fft_out_ranges[bar_idx].start;
            let end: usize = self.fft_out_ranges[bar_idx].end;
            assert(old(self).fft_out_ranges@[bar_idx as int].end <= magnitudes@.len());
            let (sum, quiet) = sum_bins(magnitudes, start, end);
            let mean: Fixed = sum.div_int((end - start) as u64);
            let incoming: Fixed = mean.sat_mul(self.normalize_factor).sat_mul(
                correction(point.x, amount_bars),
            );
            let before = BarMemory {
                prev: self.prev[bar_idx],
                peak: self.peak[bar_idx],
                fall: self.fall[bar_idx],
                mem: self.mem[bar_idx],
            };
            assert(before == old(self).spec_bar_before(bar_idx as int));
            assert(point == old(self).interpolator.supporting_points@[bar_idx as int]);
            let after: BarMemory = settle(before, incoming, self.sensitivity);
            assert(after == old(self).spec_bar_after(magnitudes@, bar_idx as int));
            self.prev.set(bar_idx, after.prev);
            self.peak.set(bar_idx, after.peak);
            self.fall.set(bar_idx, after.fall);
            self.mem.set(bar_idx, after.mem);
            self.interpolator.supporting_points.set(
                bar_idx,
                SupportingPoint { x: point.x, y: after.mem },
            );
            if after.mem.raw > SCALE {
                overshoot = true;
            }
            if !quiet {
                is_silent = false;
            }
            bar_idx += 1;
        }
        if overshoot {
            self.normalize_factor = shrunk(self.normalize_factor);
        } else if !is_silent {
            self.normalize_factor = grown(self.normalize_factor);
        }
        proof {
            let points = self.interpolator.supporting_points@;
            let before = old(self).interpolator.supporting_points@;
            assert forall|k: int| 0 <= k < points.len() implies (#[trigger] points[k]).x
                == before[k].x by {
                if k < amount_ranges {
                    let after = old(self).spec_bar_after(magnitudes@, k);
                    assert(points[k].y == after.mem);
                }
            }
            assert forall|i: int, j: int| 0 <= i < j < points.len() implies points[i].x
                < points[j].x by {
                assert(before[i].x < before[j].x);
            }
        }
    }

    /// Fills `bar_values` with the bars of the channel: every bar is
    /// interpolated from the supporting points, then the padded bars are
    /// filled from the bars next to them.
    pub fn interpolate(&mut self, bar_values: &mut Vec<Fixed>)
        requires
            old(self).wf(),
        ensures
            final(self).wf(),
            final(self).spec_same_state(*old(self)),
            final(bar_values)@.len() == old(bar_values)@.len(),
            final(bar_values)@ == old(self).spec_bars(old(bar_values)@.len()),
    {
        self.interpolator.interpolate(bar_values);
        proof {
            assert(bar_values@ =~= old(self).spec_interpolated_bars(bar_values@.len()));
        }
        match &self.padding {
            None => {},
            Some(ctx) => {
                ctx.apply(bar_values);
                proof {
                    assert(bar_values@ =~= old(self).spec_bars(bar_values@.len()));
                }
            },
        }
    }

    /// Everything but the working space of the interpolator is as in `other`.
    pub open spec fn spec_same_state(&self, other: ChannelCtx) -> bool {
        &&& self.interpolator.variant == other.interpolator.variant
        &&& self.interpolator.supporting_points@ == other.interpolator.supporting_points@
        &&& self.fft_out_ranges@ == other.fft_out_ranges@
        &&& self.padding == other.padding
        &&& self.normalize_factor == other.normalize_factor
        &&& self.sensitivity == other.sensitivity
        &&& self.prev@ == other.prev@
        &&& self.peak@ == other.peak@
        &&& self.fall@ == other.fall@
        &&& self.mem@ == other.mem@
    }

    /// A row of `len` bars as the interpolator fills it.
    pub open spec fn spec_interpolated_bars(&self, len: nat) -> Seq<Fixed> {
        Seq::new(
            len,
            |bar: int|
                spec_interpolated(
                    self.interpolator.variant,
                    self.interpolator.supporting_points@,
                    bar,
                ),
        )
    }

    /// A row of `len` bars of the channel: interpolated, and then, where
    /// the channel is padded and the row is longer than the padding, each
    /// padded bar filled from the bar next to the padding.
    pub open spec fn spec_bars(&self, len: nat) -> Seq<Fixed> {
        let inner = self.spec_interpolated_bars(len);
        match self.padding {
            None => inner,
            Some(ctx) => if len <= ctx.spec_amount_bars() {
                inner
            } else {
                Seq::new(len, |bar: int| ctx.spec_padded_value(inner, bar))
            },
        }
    }
}

/// After a frame in which a bar went over one, a gain above zero is 98
/// hundredths of what it was, rounded towards zero but not below one step:
/// it stays above zero, has not grown, and has fallen if it was above one step.
pub proof fn lemma_overshoot_lowers_gain(factor: Fixed, silent: bool)
    requires
        factor.raw > 0,
    ensures
        spec_next_factor(factor, true, silent).raw == (if (factor.raw * 98) / 100 < 1 {
            1
        } else {
            (factor.raw * 98) / 100
        }),
        1 <= spec_next_factor(factor, true, silent).raw <= factor.raw,
        factor.raw > 1 ==> spec_next_factor(factor, true, silent).raw < factor.raw,
{
    assert(factor.raw * SHRINK == (factor.raw * 98) * 10_000_000) by (nonlinear_arith);
}

/// After a frame with sound in which no bar went over one, a gain above
/// zero is 1002 thousandths of what it was, rounded up and held to the
/// highest number: it has not fallen, and it has grown unless it was the
/// highest number already.
pub proof fn lemma_sound_raises_gain(factor: Fixed)
    requires
        factor.raw > 0,
    ensures
        spec_next_factor(factor, false, false).raw == clamp(ceil_div(factor.raw * 1002, 1000)),
        spec_next_factor(factor, false, false).raw >= factor.raw,
        factor.raw < i64::MAX ==> spec_next_factor(factor, false, false).raw > factor.raw,
{
}

/// A silent frame in which no bar went over one leaves the gain as it is.
pub proof fn lemma_silence_keeps_gain(factor: Fixed)
    ensures
        spec_next_factor(factor, false, true) == factor,
{
}

/// The gain after `frames` frames that all went over one (`overshoot`) or
/// all held sound without going over one.
pub open spec fn spec_factor_after(factor: Fixed, overshoot: bool, frames: nat) -> Fixed
    decreases frames,
{
    if frames == 0 {
        factor
    } else {
        spec_next_factor(spec_factor_after(factor, overshoot, (frames - 1) as nat), overshoot, false)
    }
}

/// Over frames that all go over one, a gain above zero falls with every
/// frame until it is one step; over frames that all hold sound without
/// going over one, it grows with every frame until it is the highest number.
pub proof fn lemma_sustained_gain_is_monotone(
    factor: Fixed,
    overshoot: bool,
    earlier: nat,
    later: nat,
)
    requires
        factor.raw > 0,
        earlier <= later,
    ensures
        spec_factor_after(factor, overshoot, later).raw > 0,
        overshoot ==> spec_factor_after(factor, overshoot, later).raw <= spec_factor_after(
            factor,
            overshoot,
            earlier,
        ).raw,
        !overshoot ==> spec_factor_after(factor, overshoot, later).raw >= spec_factor_after(
            factor,
            overshoot,
            earlier,
        ).raw,
        overshoot && earlier < later && spec_factor_after(
            factor,
            overshoot,
            (later - 1) as nat,
        ).raw > 1 ==> spec_factor_after(factor, overshoot, later).raw < spec_factor_after(
            factor,
            overshoot,
            earlier,
        ).raw,
        !overshoot && earlier < later && spec_factor_after(factor, overshoot, later).raw
            < i64::MAX ==> spec_factor_after(factor, overshoot, later).raw > spec_factor_after(
            factor,
            overshoot,
            earlier,
        ).raw,
    decreases later,
{
    if later > 0 {
        let before = spec_factor_after(factor, overshoot, (later - 1) as nat);
        if earlier < later {
            lemma_sustained_gain_is_monotone(factor, overshoot, earlier, (later - 1) as nat);
        } else {
            lemma_sustained_gain_is_monotone(
                factor,
                overshoot,
                (later - 1) as nat,
                (later - 1) as nat,
            );
        }
        if overshoot {
            lemma_overshoot_lowers_gain(before, false);
        } else {
            lemma_sound_raises_gain(before);
        }
    }
}

/// In contiguous ranges, an earlier range ends no later than a later one.
pub proof fn lemma_ranges_end_early(ranges: Seq<Range<usize>>, i: int, j: int)
    requires
        contiguous_ranges(ranges),
        0 <= i <= j < ranges.len(),
    ensures
        ranges[i].end <= ranges[j].end,
    decreases j - i,
{
    if i < j {
        lemma_ranges_end_early(ranges, i, j - 1);
        assert(ranges[j - 1].end == ranges[j].start);
    }
}

} // verus!
