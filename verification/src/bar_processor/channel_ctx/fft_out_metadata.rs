//! The mapping from bars to bins of the spectrum.

use crate::bar_processor::config::BarDistribution;
use crate::fixed::Fixed;
use crate::interpolation::{strictly_ascending, SupportingPoint};
use std::ops::Range;
use vstd::prelude::*;

verus! {

/// The raw value of the highest weight a bar can have: the upper end of the
/// human hearing range, in Hz.
pub const FULL_WEIGHT: i64 = 20_000_000_000_000;

/// What the mapping is computed from.
#[derive(Debug)]
pub struct FftOutMetadataDescriptor {
    pub amount_bars: u16,
    pub sample_rate: u32,
    pub fft_size: usize,
    pub freq_range: Range<u16>,
}

/// The supporting points of a channel and, for each of them, the bins of the
/// spectrum that it is computed from.
#[derive(Debug)]
pub struct FftOutMetadata {
    /// The bars that get their magnitude directly from the spectrum.
    pub supporting_points: Vec<SupportingPoint>,
    /// The range of bins of each supporting point.  A point that was added to
    /// cover the last bar has none.
    pub supporting_points_fft_ranges: Vec<Range<usize>>,
}

/// The least whole number that is at least `a / b`, for `a >= 0` and `b > 0`.
pub open spec fn ceil_div(a: int, b: int) -> int {
    (a + b - 1) / b
}

/// The index of the first bin at or above `freq`, held to the range of `usize`.
pub open spec fn spec_bin_of(freq: u16, sample_rate: u32, fft_size: usize) -> int {
    if sample_rate == 0 {
        usize::MAX as int
    } else {
        let bin = ceil_div(freq * fft_size, sample_rate as int);
        if bin > usize::MAX {
            usize::MAX as int
        } else {
            bin
        }
    }
}

/// The amount of bins between the two bounds of the frequency window, the
/// bin of the constant component left out.
pub open spec fn spec_amount_bins(desc: FftOutMetadataDescriptor) -> int {
    let low = spec_bin_of(desc.freq_range.start, desc.sample_rate, desc.fft_size);
    let start = if low < 1 {
        1
    } else {
        low
    };
    let end = spec_bin_of(desc.freq_range.end, desc.sample_rate, desc.fft_size);
    if start < end {
        end - start
    } else {
        0
    }
}

/// One weight per bar, each within the hearing range, none below the one before it.
pub open spec fn valid_weights(weights: Seq<Fixed>, amount_bars: int) -> bool {
    &&& weights.len() == amount_bars
    &&& forall|i: int| 0 <= i < weights.len() ==> 0 < (#[trigger] weights[i]).raw <= FULL_WEIGHT
    &&& forall|i: int, j: int|
        0 <= i <= j < weights.len() ==> (#[trigger] weights[i]).raw <= (#[trigger] weights[j]).raw
}

/// The bin at which the bar of weight `weight` ends: its share of `bins`, rounded up.
pub open spec fn spec_bar_end(weight: Fixed, bins: int) -> int {
    ceil_div(weight.raw * bins, FULL_WEIGHT as int)
}

/// The bin at which the bar before bar `i` ends; `0` for the first bar.
pub open spec fn spec_end_before(weights: Seq<Fixed>, bins: int, i: int) -> int {
    if i <= 0 {
        0
    } else {
        spec_bar_end(weights[i - 1], bins)
    }
}

/// Bar `i` is a supporting point: it ends at a later bin than the bar before it.
pub open spec fn is_supporting(weights: Seq<Fixed>, bins: int, i: int) -> bool {
    spec_end_before(weights, bins, i) < spec_bar_end(weights[i], bins)
}

/// The supporting points among the first `n` bars, in order.
pub open spec fn spec_points(weights: Seq<Fixed>, bins: int, n: int) -> Seq<SupportingPoint>
    decreases n,
{
    if n <= 0 {
        Seq::empty()
    } else {
        let rest = spec_points(weights, bins, n - 1);
        if is_supporting(weights, bins, n - 1) {
            rest.push(SupportingPoint { x: (n - 1) as usize, y: Fixed { raw: 0 } })
        } else {
            rest
        }
    }
}

/// The ranges of bins of the supporting points among the first `n` bars.
pub open spec fn spec_ranges(weights: Seq<Fixed>, bins: int, n: int) -> Seq<Range<usize>>
    decreases n,
{
    if n <= 0 {
        Seq::empty()
    } else {
        let rest = spec_ranges(weights, bins, n - 1);
        if is_supporting(weights, bins, n - 1) {
            rest.push(
                Range {
                    start: spec_end_before(weights, bins, n - 1) as usize,
                    end: spec_bar_end(weights[n - 1], bins) as usize,
                },
            )
        } else {
            rest
        }
    }
}

/// The ranges are not empty and each begins where the one before it ends.
pub open spec fn contiguous_ranges(ranges: Seq<Range<usize>>) -> bool {
    &&& forall|k: int| 0 <= k < ranges.len() ==> (#[trigger] ranges[k]).start < ranges[k].end
    &&& forall|k: int|
        0 <= k && k + 1 < ranges.len() ==> (#[trigger] ranges[k]).end == ranges[k + 1].start
}

/// A bar ends within the bins, and behind the first bin where there is one.
pub proof fn lemma_bar_end_bounds(weight: Fixed, bins: int)
    by (nonlinear_arith)
    requires
        0 < weight.raw <= FULL_WEIGHT,
        0 <= bins,
    ensures
        0 <= spec_bar_end(weight, bins) <= bins,
        bins >= 1 ==> spec_bar_end(weight, bins) >= 1,
        0 <= weight.raw * bins <= FULL_WEIGHT * bins,
{
}

/// A bar of a higher weight ends no earlier.
pub proof fn lemma_bar_end_monotone(low: Fixed, high: Fixed, bins: int)
    by (nonlinear_arith)
    requires
        0 < low.raw <= high.raw,
        0 <= bins,
    ensures
        spec_bar_end(low, bins) <= spec_bar_end(high, bins),
{
    assert(low.raw * bins <= high.raw * bins);
}

/// The bar on which supporting point `i` of `len` lies once they are spread
/// evenly over `covered` bars.
pub open spec fn spec_uniform_x(i: int, covered: int, len: int) -> int {
    (i * covered) / len
}

/// The points with one more on the last of `amount_bars` bars, where the
/// last point lies before that bar.
pub open spec fn spec_fillup(points: Seq<SupportingPoint>, amount_bars: int) -> Seq<
    SupportingPoint,
> {
    if points.last().x + 1 < amount_bars {
        points.push(SupportingPoint { x: (amount_bars - 1) as usize, y: Fixed { raw: 0 } })
    } else {
        points
    }
}

/// The points spaced as `distribution` asks: under `Uniform` every point
/// but the last lies on the bar `i * covered / len`.
pub open spec fn spec_redistribute(
    points: Seq<SupportingPoint>,
    distribution: BarDistribution,
) -> Seq<SupportingPoint> {
    match distribution {
        BarDistribution::Natural => points,
        BarDistribution::Uniform => Seq::new(
            points.len(),
            |i: int|
                if i + 1 < points.len() {
                    SupportingPoint {
                        x: spec_uniform_x(
                            i,
                            points.last().x + 1 - points[0].x,
                            points.len() as int,
                        ) as usize,
                        y: points[i].y,
                    }
                } else {
                    points[i]
                },
        ),
    }
}

/// In an ascending sequence, a point lies at least as many bars to the
/// right of the first point as there are points between them.
pub proof fn lemma_ascending_gap(points: Seq<SupportingPoint>, i: int)
    requires
        strictly_ascending(points),
        0 <= i < points.len(),
    ensures
        points[0].x + i <= points[i].x,
    decreases i,
{
    if i > 0 {
        lemma_ascending_gap(points, i - 1);
    }
}

/// Evenly spaced points lie on ascending bars, as long as there are no
/// more points than bars.
pub proof fn lemma_uniform_ascending(i: int, j: int, covered: int, len: int)
    by (nonlinear_arith)
    requires
        0 <= i < j,
        0 < len <= covered,
    ensures
        spec_uniform_x(i, covered, len) < spec_uniform_x(j, covered, len),
        0 <= spec_uniform_x(i, covered, len),
{
    assert(j * covered >= i * covered + len);
}

/// Every evenly spaced point but the last lies before the last bar.
pub proof fn lemma_uniform_below_last(i: int, covered: int, len: int)
    by (nonlinear_arith)
    requires
        0 <= i,
        i + 2 <= len,
        len <= covered,
    ensures
        spec_uniform_x(i, covered, len) + 2 <= covered,
{
    assert(i * covered <= len * (covered - 2));
}

/// Every evenly spaced bar lies within the covered bars.
pub proof fn lemma_uniform_fits(points: Seq<SupportingPoint>, covered: int)
    requires
        points.len() >= 1,
        covered == points.last().x + 1 - points[0].x,
        covered >= 1,
    ensures
        forall|i: int|
            0 <= i && i + 1 < points.len() ==> 0 <= #[trigger] spec_uniform_x(
                i,
                covered,
                points.len() as int,
            ) <= covered,
{
    assert forall|i: int| 0 <= i && i + 1 < points.len() implies 0 <= #[trigger] spec_uniform_x(
        i,
        covered,
        points.len() as int,
    ) <= covered by {
        let len = points.len() as int;
        assert(0 <= (i * covered) / len <= covered) by (nonlinear_arith)
            requires
                0 <= i < len,
                0 <= covered,
        ;
    }
}

/// The supporting points among the first `n` bars are in ascending order,
/// lie on the first `n` bars, and begin with the first bar.
pub proof fn lemma_points_shape(weights: Seq<Fixed>, bins: int, n: int)
    requires
        valid_weights(weights, weights.len() as int),
        0 <= n <= weights.len(),
        n <= u16::MAX,
        bins >= 1,
    ensures
        strictly_ascending(spec_points(weights, bins, n)),
        forall|k: int|
            0 <= k < spec_points(weights, bins, n).len() ==> (#[trigger] spec_points(
                weights,
                bins,
                n,
            )[k]).x < n,
        n >= 1 ==> spec_points(weights, bins, n).len() >= 1 && spec_points(weights, bins, n)[0].x
            == 0,
    decreases n,
{
    if n > 0 {
        lemma_points_shape(weights, bins, n - 1);
        lemma_bar_end_bounds(weights[n - 1], bins);
        let rest = spec_points(weights, bins, n - 1);
        let points = spec_points(weights, bins, n);
        if is_supporting(weights, bins, n - 1) {
            assert forall|i: int, j: int| 0 <= i < j < points.len() implies points[i].x
                < points[j].x by {
                if j < rest.len() {
                    assert(rest[i].x < rest[j].x);
                } else {
                    assert(points[i] == rest[i]);
                }
            }
        }
    }
}

/// Filling up keeps the points in ascending order and puts the last of
/// them on the last bar.
pub proof fn lemma_fillup_shape(points: Seq<SupportingPoint>, amount_bars: int)
    requires
        points.len() >= 1,
        strictly_ascending(points),
        points.last().x < amount_bars <= u16::MAX,
    ensures
        strictly_ascending(spec_fillup(points, amount_bars)),
        spec_fillup(points, amount_bars).len() >= 1,
        spec_fillup(points, amount_bars).last().x == amount_bars - 1,
        spec_fillup(points, amount_bars)[0] == points[0],
{
}

/// Spacing the points keeps them in ascending order, and keeps the first
/// point on the first bar and the last point where it is.
pub proof fn lemma_redistribute_shape(points: Seq<SupportingPoint>, distribution: BarDistribution)
    requires
        points.len() >= 1,
        strictly_ascending(points),
        points.last().x < usize::MAX,
    ensures
        strictly_ascending(spec_redistribute(points, distribution)),
        spec_redistribute(points, distribution).len() == points.len(),
        spec_redistribute(points, distribution).last() == points.last(),
        points[0].x == 0 ==> spec_redistribute(points, distribution)[0].x == 0,
{
    if distribution == BarDistribution::Uniform {
        let len = points.len() as int;
        let covered = points.last().x + 1 - points[0].x;
        let spread = spec_redistribute(points, distribution);
        lemma_ascending_gap(points, len - 1);
        lemma_uniform_fits(points, covered);
        assert forall|i: int, j: int| 0 <= i < j < len implies spread[i].x < spread[j].x by {
            if j + 1 < len {
                lemma_uniform_ascending(i, j, covered, len);
            } else {
                lemma_uniform_below_last(i, covered, len);
            }
        }
        if len > 1 {
            assert(spec_uniform_x(0, covered, len) == 0) by (nonlinear_arith)
                requires
                    len > 0,
            ;
        }
    }
}

/// The index of the first bin at or above `freq`, held to the range of `usize`.
pub fn bin_of(freq: u16, sample_rate: u32, fft_size: usize) -> (bin: usize)
    ensures
        bin == spec_bin_of(freq, sample_rate, fft_size),
{
    if sample_rate == 0 {
        return usize::MAX;
    }
    assert(0 <= freq * fft_size <= 0xffff * 0xffff_ffff_ffff_ffff) by (nonlinear_arith)
        requires
            0 <= freq <= 0xffff,
            0 <= fft_size <= 0xffff_ffff_ffff_ffff,
    ;
    let product: u128 = (freq as u128) * (fft_size as u128);
    let bin: u128 = (product + (sample_rate as u128 - 1)) / (sample_rate as u128);
    if bin > usize::MAX as u128 {
        usize::MAX
    } else {
        bin as usize
    }
}

/// The bin at which a bar of the given weight ends.
fn bar_end(weight: Fixed, bins: usize) -> (end: usize)
    requires
        0 < weight.raw <= FULL_WEIGHT,
    ensures
        end == spec_bar_end(weight, bins as int),
        end <= bins,
{
    proof {
        lemma_bar_end_bounds(weight, bins as int);
        assert(FULL_WEIGHT * bins <= 20_000_000_000_000 * 0xffff_ffff_ffff_ffff)
            by (nonlinear_arith)
            requires
                0 <= bins <= 0xffff_ffff_ffff_ffff,
        ;
    }
    let product: u128 = (weight.raw as u128) * (bins as u128);
    let end: u128 = (product + (FULL_WEIGHT as u128 - 1)) / (FULL_WEIGHT as u128);
    end as usize
}

impl FftOutMetadataDescriptor {
    /// The amount of bins that the bars of this descriptor are spread over.
    pub fn amount_bins(&self) -> (bins: usize)
        ensures
            bins == spec_amount_bins(*self),
    {
        let low: usize = bin_of(self.freq_range.start, self.sample_rate, self.fft_size);
        let start: usize = if low < 1 {
            1
        } else {
            low
        };
        let end: usize = bin_of(self.freq_range.end, self.sample_rate, self.fft_size);
        if start < end {
            end - start
        } else {
            0
        }
    }
}

impl FftOutMetadata {
    /// The points are in ascending order, there is at least one, and each
    /// but possibly the last has its range of bins.
    pub open spec fn wf(&self) -> bool {
        &&& self.supporting_points@.len() >= 1
        &&& strictly_ascending(self.supporting_points@)
        &&& self.supporting_points@.last().x < usize::MAX
        &&& self.supporting_points_fft_ranges@.len() <= self.supporting_points@.len()
        &&& self.supporting_points@.len() <= self.supporting_points_fft_ranges@.len() + 1
        &&& contiguous_ranges(self.supporting_points_fft_ranges@)
    }

    /// The amount of bars from the first supporting point to the last.
    pub open spec fn spec_covered_amount_bars(&self) -> int {
        self.supporting_points@.last().x + 1 - self.supporting_points@[0].x
    }

    /// Spreads the bars of `desc` over the bins of its frequency window.
    ///
    /// `weights` holds, for each bar, the frequency in Hz at which it ends
    /// on the perceptual curve.  Bar `i` ends at the bin
    /// `ceil(weights[i] / 20000 * bins)`; it becomes a supporting point, with
    /// the bins from the end of the bar before it up to its own end, if that
    /// range is not empty.  A bar with an empty range is left to interpolation.
    pub fn interpret_fft_context(desc: FftOutMetadataDescriptor, weights: &Vec<Fixed>) -> (meta:
        Self)
        requires
            desc.amount_bars >= 1,
            spec_amount_bins(desc) >= 1,
            valid_weights(weights@, desc.amount_bars as int),
        ensures
            meta.supporting_points@ == spec_points(
                weights@,
                spec_amount_bins(desc),
                desc.amount_bars as int,
            ),
            meta.supporting_points_fft_ranges@ == spec_ranges(
                weights@,
                spec_amount_bins(desc),
                desc.amount_bars as int,
            ),
            meta.wf(),
            meta.supporting_points@.len() == meta.supporting_points_fft_ranges@.len(),
            meta.supporting_points@[0].x == 0,
            meta.supporting_points@.last().x < desc.amount_bars,
            meta.supporting_points_fft_ranges@[0].start == 0,
            meta.supporting_points_fft_ranges@.last().end <= spec_amount_bins(desc),
            forall|k: int|
                0 <= k < meta.supporting_points@.len() ==> (#[trigger] meta.supporting_points@[k]).y.raw
                    == 0,
    {
        let bins: usize = desc.amount_bins();
        let amount_bars: usize = desc.amount_bars as usize;
        let mut supporting_points: Vec<SupportingPoint> = Vec::new();
        let mut supporting_points_fft_ranges: Vec<Range<usize>> = Vec::new();
        let mut prev_end: usize = 0;
        let mut bar_idx: usize = 0;
        while bar_idx < amount_bars
            invariant
                bar_idx <= amount_bars,
                amount_bars == desc.amount_bars,
                bins == spec_amount_bins(desc),
                bins >= 1,
                valid_weights(weights@, amount_bars as int),
                prev_end == spec_end_before(weights@, bins as int, bar_idx as int),
                prev_end <= bins,
                supporting_points@ == spec_points(weights@, bins as int, bar_idx as int),
                supporting_points_fft_ranges@ == spec_ranges(weights@, bins as int, bar_idx as int),
                supporting_points@.len() == supporting_points_fft_ranges@.len(),
                bar_idx > 0 ==> supporting_points@.len() >= 1,
                strictly_ascending(supporting_points@),
                contiguous_ranges(supporting_points_fft_ranges@),
                forall|k: int|
                    0 <= k < supporting_points@.len() ==> (#[trigger] supporting_points@[k]).x
                        < bar_idx && supporting_points@[k].y.raw == 0,
                supporting_points@.len() >= 1 ==> supporting_points@[0].x == 0
                    && supporting_points_fft_ranges@[0].start == 0
                    && supporting_points_fft_ranges@.last().end == prev_end,
            decreases amount_bars - bar_idx,
        {
            let weight: Fixed = weights[bar_idx];
            let end: usize = bar_end(weight, bins);
            proof {
                lemma_bar_end_bounds(weight, bins as int);
                if bar_idx > 0 {
                    lemma_bar_end_monotone(weights@[bar_idx - 1], weight, bins as int);
                }
            }
            if prev_end < end {
                supporting_points.push(SupportingPoint { x: bar_idx, y: Fixed { raw: 0 } });
                supporting_points_fft_ranges.push(prev_end..end);
            }
            prev_end = end;
            bar_idx += 1;
        }
        FftOutMetadata { supporting_points, supporting_points_fft_ranges }
    }

    /// Makes the supporting points cover `amount_bars` bars: where the last
    /// point lies before the last bar, one more point is put on the last bar.
    pub fn fillup(self, amount_bars: u16) -> (filled: Self)
        requires
            self.supporting_points@.len() >= 1,
            self.supporting_points@.last().x < amount_bars,
        ensures
            filled.supporting_points_fft_ranges@ == self.supporting_points_fft_ranges@,
            filled.supporting_points@ == spec_fillup(self.supporting_points@, amount_bars as int),
            filled.supporting_points@.last().x == amount_bars - 1,
            filled.supporting_points@[0] == self.supporting_points@[0],
            strictly_ascending(self.supporting_points@) ==> strictly_ascending(
                filled.supporting_points@,
            ),
    {
        let mut filled = self;
        let last_x: usize = filled.supporting_points[filled.supporting_points.len() - 1].x + 1;
        if last_x < amount_bars as usize {
            filled.supporting_points.push(
                SupportingPoint { x: (amount_bars - 1) as usize, y: Fixed { raw: 0 } },
            );
        }
        filled
    }

    /// Spaces the supporting points as `distribution` asks.
    ///
    /// `Uniform` puts every point but the last on the bar `i * covered / len`,
    /// where `i` is its position among the `len` points and `covered` the
    /// amount of bars they cover; each point keeps its magnitude and its
    /// range of bins.  `Natural` changes nothing.
    pub fn redistribute(self, distribution: BarDistribution) -> (spread: Self)
        requires
            distribution == BarDistribution::Uniform ==> self.supporting_points@.len() >= 1
                && self.supporting_points@[0].x <= self.supporting_points@.last().x < usize::MAX,
        ensures
            spread.supporting_points_fft_ranges@ == self.supporting_points_fft_ranges@,
            spread.supporting_points@ == spec_redistribute(self.supporting_points@, distribution),
            spread.supporting_points@.len() == self.supporting_points@.len(),
            distribution == BarDistribution::Natural ==> spread.supporting_points@
                == self.supporting_points@,
            distribution == BarDistribution::Uniform ==> forall|i: int|
                0 <= i < self.supporting_points@.len() ==> (#[trigger] spread.supporting_points@[i]).y
                    == self.supporting_points@[i].y && spread.supporting_points@[i].x == (if i + 1
                    < self.supporting_points@.len() {
                    spec_uniform_x(
                        i,
                        self.spec_covered_amount_bars(),
                        self.supporting_points@.len() as int,
                    )
                } else {
                    self.supporting_points@[i].x as int
                }),
            strictly_ascending(self.supporting_points@) ==> strictly_ascending(
                spread.supporting_points@,
            ),
            self.supporting_points@.len() >= 1 ==> spread.supporting_points@.last()
                == self.supporting_points@.last(),
            self.supporting_points@.len() >= 1 && self.supporting_points@[0].x == 0
                ==> spread.supporting_points@[0].x == 0,
    {
        match distribution {
            BarDistribution::Natural => self,
            BarDistribution::Uniform => {
                let covered: usize = self.covered_amount_bars();
                let ghost before = self.supporting_points@;
                let FftOutMetadata { mut supporting_points, supporting_points_fft_ranges } = self;
                let len: usize = supporting_points.len();
                let mut idx: usize = 0;
                while idx + 1 < len
                    invariant
                        len >= 1,
                        idx < len,
                        supporting_points@.len() == len,
                        before.len() == len,
                        covered == before.last().x + 1 - before[0].x,
                        forall|i: int|
                            idx <= i < len ==> (#[trigger] supporting_points@[i]) == before[i],
                        forall|i: int|
                            0 <= i < idx ==> (#[trigger] supporting_points@[i]).y == before[i].y
                                && supporting_points@[i].x == spec_uniform_x(
                                i,
                                covered as int,
                                len as int,
                            ),
                    decreases len - idx,
                {
                    assert(0 <= idx * covered <= 0xffff_ffff_ffff_ffff * 0xffff_ffff_ffff_ffff
                        && (idx * covered) / (len as int) <= covered) by (nonlinear_arith)
                        requires
                            0 <= idx < len <= 0xffff_ffff_ffff_ffff,
                            0 <= covered <= 0xffff_ffff_ffff_ffff,
                    ;
                    let product: u128 = (idx as u128) * (covered as u128);
                    let x: usize = (product / (len as u128)) as usize;
                    let y: Fixed = supporting_points[idx].y;
                    supporting_points.set(idx, SupportingPoint { x, y });
                    idx += 1;
                }
                proof {
                    lemma_uniform_fits(before, covered as int);
                    assert(supporting_points@ =~= spec_redistribute(
                        before,
                        BarDistribution::Uniform,
                    ));
                    if strictly_ascending(before) {
                        lemma_redistribute_shape(before, BarDistribution::Uniform);
                    }
                }
                FftOutMetadata { supporting_points, supporting_points_fft_ranges }
            },
        }
    }

    /// The amount of bars from the first supporting point to the last.
    pub fn covered_amount_bars(&self) -> (covered: usize)
        requires
            self.supporting_points@.len() >= 1,
            self.supporting_points@[0].x <= self.supporting_points@.last().x < usize::MAX,
        ensures
            covered == self.spec_covered_amount_bars(),
    {
        let last: usize = self.supporting_points[self.supporting_points.len() - 1].x;
        let first: usize = self.supporting_points[0].x;
        (last + 1) - first
    }
}

} // verus!
