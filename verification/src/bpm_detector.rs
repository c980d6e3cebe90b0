//! An estimate of the tempo from the onsets in the bass.

use crate::bar_processor::channel_ctx::fft_out_metadata::{bin_of, spec_bin_of};
use crate::fixed::{clamp, spec_sum, sum_bins, trunc_div, Fixed, SCALE};
use crate::sample_processor::SampleProcessor;
use vstd::prelude::*;
use vstd::relations::{sorted_by, total_ordering};
use vstd::seq_lib::{lemma_sorted_unique, to_multiset_build, to_multiset_insert};

verus! {

/// The lowest frequency of the bass band, in Hz.
pub const BASS_MIN_FREQUENCY: u16 = 20;

/// The highest frequency of the bass band, in Hz.
pub const BASS_MAX_FREQUENCY: u16 = 200;

/// The seconds between two estimates of the tempo.
pub const SECONDS_BETWEEN_UPDATES: u64 = 15;

/// The tempo, in beats per minute, that a detector starts with: 120.
pub const INIT_BPM: i64 = 120_000_000_000;

/// The configuration of a tempo detector.
#[derive(Clone, Copy, Debug, PartialEq, Eq, Structural)]
pub struct BpmDetectorConfig {
    /// The length of the history of onsets, in seconds.
    pub history_seconds: Fixed,
    /// The lowest tempo to detect, in beats per minute.
    pub min_bpm: Fixed,
    /// The highest tempo to detect, in beats per minute.
    pub max_bpm: Fixed,
    /// The amount of estimates that the median is taken of.
    pub estimate_history_size: usize,
}

impl Default for BpmDetectorConfig {
    /// A history of 15 seconds, tempos from 60 to 200 beats per minute, and
    /// the median of 60 estimates.
    fn default() -> (config: Self)
        ensures
            config.history_seconds.raw == 15 * SCALE,
            config.min_bpm.raw == 60 * SCALE,
            config.max_bpm.raw == 200 * SCALE,
            config.estimate_history_size == 60,
    {
        BpmDetectorConfig {
            history_seconds: Fixed { raw: 15_000_000_000 },
            min_bpm: Fixed { raw: 60_000_000_000 },
            max_bpm: Fixed { raw: 200_000_000_000 },
            estimate_history_size: 60,
        }
    }
}

/// Detects the tempo from the spectrum of the first channel.
///
/// The rise of the energy in the bass from one frame to the next is kept in
/// a ring of onsets.  Every 15 seconds the lag at which the ring agrees best
/// with itself gives an estimate of the tempo, and the tempo is the median
/// of the newest estimates.
#[derive(Debug)]
pub struct BpmDetector {
    pub config: BpmDetectorConfig,
    /// The energy of the bass in the last frame.
    pub prev_bass_energy: Fixed,
    /// The ring of onsets.
    pub onset_history: Vec<Fixed>,
    /// The slot of the ring that the next onset is written to.
    pub onset_write_idx: usize,
    /// The newest estimates, the oldest first.
    pub bpm_estimates: Vec<Fixed>,
    pub current_bpm: Fixed,
    /// The frames per second are `sample_rate / fft_size`.
    pub sample_rate: u32,
    pub fft_size: usize,
    /// The frames since the last estimate.
    pub frame_count: usize,
    pub frames_between_updates: usize,
    /// The first bin of the bass band.
    pub bass_bin_start: usize,
    /// The bin behind the last bin of the bass band.
    pub bass_bin_end: usize,
}

/// The order of numbers by their value.
pub open spec fn spec_leq() -> spec_fn(Fixed, Fixed) -> bool {
    |a: Fixed, b: Fixed| a.raw <= b.raw
}

/// The mean of two numbers.
pub open spec fn spec_mid(a: Fixed, b: Fixed) -> Fixed {
    Fixed { raw: trunc_div(a.raw + b.raw, 2) as i64 }
}

/// The median of the estimates: the middle one in ascending order, or the
/// mean of the two middle ones where their amount is even.
pub open spec fn spec_median(estimates: Seq<Fixed>) -> Fixed
    recommends
        estimates.len() > 0,
{
    let sorted = estimates.sort_by(spec_leq());
    let mid = estimates.len() as int / 2;
    if estimates.len() % 2 == 0 {
        spec_mid(sorted[mid - 1], sorted[mid])
    } else {
        sorted[mid]
    }
}

/// Sixty times the frames per second, in raw steps: the product of a tempo
/// and the lag, in frames, between its beats.
pub open spec fn spec_beat_scale(sample_rate: u32, fft_size: usize) -> int {
    (60 * sample_rate * SCALE) / (fft_size as int)
}

/// The lag, in frames, between the beats of the tempo `bpm`, rounded down
/// and held to the range of `usize`.  A tempo of zero has the longest lag,
/// a tempo below zero the lag zero.
pub open spec fn spec_lag_of(bpm: Fixed, sample_rate: u32, fft_size: usize) -> int {
    if bpm.raw < 0 {
        0
    } else if bpm.raw == 0 {
        usize::MAX as int
    } else {
        let lag = spec_beat_scale(sample_rate, fft_size) / (bpm.raw as int);
        if lag > usize::MAX {
            usize::MAX as int
        } else {
            lag
        }
    }
}

/// The tempo whose beats are `lag` frames apart.
pub open spec fn spec_bpm_of(lag: int, sample_rate: u32, fft_size: usize) -> Fixed {
    Fixed { raw: clamp(spec_beat_scale(sample_rate, fft_size) / lag) as i64 }
}

/// The amount of frames in `history_seconds` seconds.
pub open spec fn spec_history_frames(
    history_seconds: Fixed,
    sample_rate: u32,
    fft_size: usize,
) -> int {
    if history_seconds.raw <= 0 {
        0
    } else {
        let frames = ((history_seconds.raw * sample_rate) / (SCALE as int)) / (fft_size as int);
        if frames > usize::MAX {
            usize::MAX as int
        } else {
            frames
        }
    }
}

/// The amount of frames between two estimates.
pub open spec fn spec_frames_between_updates(sample_rate: u32, fft_size: usize) -> int {
    let frames = (SECONDS_BETWEEN_UPDATES * sample_rate) / (fft_size as int);
    if frames > usize::MAX {
        usize::MAX as int
    } else {
        frames
    }
}

/// The onsets of the ring in the order in which they came in, the oldest
/// first: the oldest lies in the slot that is written next.
pub open spec fn spec_oldest_first(history: Seq<Fixed>, write_idx: int) -> Seq<Fixed> {
    Seq::new(history.len(), |age: int| history[(write_idx + age) % (history.len() as int)])
}

/// The sum of the products of the first `n` pairs of onsets that lie `lag`
/// frames apart: `onsets[i] * onsets[i + lag]` for `i` below `n`.
pub open spec fn spec_product_sum(onsets: Seq<Fixed>, lag: int, n: int) -> Fixed
    decreases n,
{
    if n <= 0 {
        Fixed { raw: 0 }
    } else {
        spec_product_sum(onsets, lag, n - 1).spec_sat_add(
            onsets[n - 1].spec_sat_mul(onsets[n - 1 + lag]),
        )
    }
}

/// The mean product of all pairs of onsets that lie `lag` frames apart;
/// zero where no two onsets lie that far apart.
pub open spec fn spec_mean_product(onsets: Seq<Fixed>, lag: int) -> Fixed {
    if lag >= onsets.len() {
        Fixed { raw: 0 }
    } else {
        spec_product_sum(onsets, lag, onsets.len() - lag).spec_div_int(
            (onsets.len() - lag) as u64,
        )
    }
}

/// How well the ring agrees with itself `lag` frames later: the mean
/// product of the onsets that lie `lag` frames apart.
pub open spec fn spec_autocorrelation(history: Seq<Fixed>, write_idx: int, lag: int) -> Fixed {
    spec_mean_product(spec_oldest_first(history, write_idx), lag)
}

/// The best lag from `min_lag` up to, not including, `upto`, with its
/// agreement: the first lag whose agreement is above zero and above that of
/// every lag before it, and not below that of any lag after it.  Where no
/// lag agrees above zero this is `min_lag`, with zero.
pub open spec fn spec_best_lag(onsets: Seq<Fixed>, min_lag: int, upto: int) -> (int, Fixed)
    decreases upto - min_lag,
{
    if upto <= min_lag {
        (min_lag, Fixed { raw: 0 })
    } else {
        let before = spec_best_lag(onsets, min_lag, upto - 1);
        let agreement = spec_mean_product(onsets, upto - 1);
        if agreement.raw > before.1.raw {
            (upto - 1, agreement)
        } else {
            before
        }
    }
}

/// The best lag agrees at least as well as every lag of the window, and it
/// lies within the window.
pub proof fn lemma_best_lag_is_best(onsets: Seq<Fixed>, min_lag: int, upto: int, lag: int)
    requires
        min_lag <= lag < upto,
    ensures
        spec_mean_product(onsets, lag).raw <= spec_best_lag(onsets, min_lag, upto).1.raw,
        min_lag <= spec_best_lag(onsets, min_lag, upto).0 < upto,
        spec_best_lag(onsets, min_lag, upto).1.raw >= 0,
        spec_best_lag(onsets, min_lag, upto).1.raw > 0 ==> spec_best_lag(
            onsets,
            min_lag,
            upto,
        ).1 == spec_mean_product(onsets, spec_best_lag(onsets, min_lag, upto).0),
    decreases upto - min_lag,
{
    if lag < upto - 1 {
        lemma_best_lag_is_best(onsets, min_lag, upto - 1, lag);
    } else if min_lag < upto - 1 {
        lemma_best_lag_is_best(onsets, min_lag, upto - 1, min_lag);
    }
}

/// Onsets that are not negative agree with themselves at every lag by a
/// mean product that is not negative.
pub proof fn lemma_mean_product_not_negative(onsets: Seq<Fixed>, lag: int)
    requires
        0 <= lag,
        onsets.len() <= usize::MAX,
        forall|i: int| 0 <= i < onsets.len() ==> (#[trigger] onsets[i]).raw >= 0,
    ensures
        spec_mean_product(onsets, lag).raw >= 0,
{
    if lag < onsets.len() {
        let count = onsets.len() - lag;
        lemma_product_sum_not_negative(onsets, lag, count);
        let total = spec_product_sum(onsets, lag, count).raw as int;
        assert(0 <= total / count <= total) by (nonlinear_arith)
            requires
                total >= 0,
                count >= 1,
        ;
    }
}

/// A ring of onsets that are not negative agrees with itself at every lag
/// by a mean product that is not negative.
pub proof fn lemma_autocorrelation_not_negative(history: Seq<Fixed>, write_idx: int, lag: int)
    requires
        0 <= lag,
        0 <= write_idx,
        history.len() <= usize::MAX,
        forall|i: int| 0 <= i < history.len() ==> (#[trigger] history[i]).raw >= 0,
    ensures
        spec_autocorrelation(history, write_idx, lag).raw >= 0,
{
    let onsets = spec_oldest_first(history, write_idx);
    assert forall|age: int| 0 <= age < onsets.len() implies (#[trigger] onsets[age]).raw >= 0 by {
        let len = history.len() as int;
        let slot = (write_idx + age) % len;
        assert(0 <= slot < len) by (nonlinear_arith)
            requires
                slot == (write_idx + age) % len,
                len > 0,
        ;
        assert(history[slot].raw >= 0);
    }
    lemma_mean_product_not_negative(onsets, lag);
}

/// A sum of products of onsets that are not negative is not negative.
proof fn lemma_product_sum_not_negative(onsets: Seq<Fixed>, lag: int, n: int)
    requires
        0 <= lag,
        0 <= n,
        n + lag <= onsets.len(),
        forall|i: int| 0 <= i < onsets.len() ==> (#[trigger] onsets[i]).raw >= 0,
    ensures
        spec_product_sum(onsets, lag, n).raw >= 0,
    decreases n,
{
    if n > 0 {
        lemma_product_sum_not_negative(onsets, lag, n - 1);
        let a = onsets[n - 1];
        let b = onsets[n - 1 + lag];
        assert(a.raw * b.raw >= 0) by (nonlinear_arith)
            requires
                a.raw >= 0,
                b.raw >= 0,
        ;
    }
}

/// The onsets are pulses of one height, `period` frames apart, the first
/// of them on the oldest frame, and zero in between.
pub open spec fn spec_pulses(onsets: Seq<Fixed>, period: int, height: Fixed) -> bool {
    forall|i: int|
        0 <= i < onsets.len() ==> (#[trigger] onsets[i]) == (if i % period == 0 {
            height
        } else {
            Fixed { raw: 0 }
        })
}

/// `lag` is a multiple of `period`.
pub open spec fn spec_is_multiple(lag: int, period: int) -> bool {
    lag % period == 0
}

/// Two frames that both carry a pulse lie a multiple of the period apart.
proof fn lemma_pulses_are_periods_apart(i: int, lag: int, period: int)
    requires
        0 <= i,
        0 <= lag,
        0 < period,
        i % period == 0,
    ensures
        ((i + lag) % period == 0) == (lag % period == 0),
{
    vstd::arithmetic::div_mod::lemma_add_mod_noop(i, lag, period);
    vstd::arithmetic::div_mod::lemma_mod_twice(lag, period);
}

/// At a lag that is no multiple of the period, no two pulses meet.
proof fn lemma_pulses_miss(onsets: Seq<Fixed>, period: int, height: Fixed, lag: int, n: int)
    requires
        spec_pulses(onsets, period, height),
        0 < period,
        0 <= lag,
        lag % period != 0,
        0 <= n,
        n + lag <= onsets.len(),
    ensures
        spec_product_sum(onsets, lag, n).raw == 0,
    decreases n,
{
    if n > 0 {
        lemma_pulses_miss(onsets, period, height, lag, n - 1);
        let a = onsets[n - 1];
        let b = onsets[n - 1 + lag];
        if (n - 1) % period == 0 {
            lemma_pulses_are_periods_apart(n - 1, lag, period);
            assert(b.raw == 0);
        } else {
            assert(a.raw == 0);
        }
        assert(a.raw * b.raw == 0) by (nonlinear_arith)
            requires
                a.raw == 0 || b.raw == 0,
        ;
    }
}

/// At the lag of the period every pulse meets the next, so that the sum
/// of the products is at least the square of the height.
proof fn lemma_pulses_meet(onsets: Seq<Fixed>, period: int, height: Fixed, n: int)
    requires
        spec_pulses(onsets, period, height),
        0 < period,
        1 <= n,
        n + period <= onsets.len(),
        height.spec_sat_mul(height).raw >= 0,
    ensures
        spec_product_sum(onsets, period, n).raw >= height.spec_sat_mul(height).raw,
    decreases n,
{
    let square = height.spec_sat_mul(height);
    let a = onsets[n - 1];
    let b = onsets[n - 1 + period];
    let term = a.spec_sat_mul(b);
    let before = spec_product_sum(onsets, period, n - 1);
    assert(spec_product_sum(onsets, period, n) == before.spec_sat_add(term));
    assert(period % period == 0 && 0int % period == 0) by (nonlinear_arith)
        requires
            0 < period,
    ;
    if (n - 1) % period == 0 {
        lemma_pulses_are_periods_apart(n - 1, period, period);
        assert(a == height);
        assert(b == height);
        assert(term == square);
    } else {
        assert(a.raw == 0);
        assert(a.raw * b.raw == 0) by (nonlinear_arith)
            requires
                a.raw == 0,
        ;
        assert(term.raw == 0);
    }
    assert(term.raw >= 0);
    if n > 1 {
        lemma_pulses_meet(onsets, period, height, n - 1);
        assert(before.raw >= square.raw);
    } else {
        assert(before.raw == 0);
        assert(term == square);
    }
    assert(before.spec_sat_add(term).raw >= square.raw);
}

/// Pulses that lie `period` frames apart agree best with themselves at the
/// lag `period`, where the window of lags holds it and no other multiple
/// of it, and the pulses are high enough for their mean product to be held.
pub proof fn lemma_periodic_onsets_give_their_period(
    onsets: Seq<Fixed>,
    period: int,
    height: Fixed,
    min_lag: int,
    max_lag: int,
    upto: int,
)
    requires
        spec_pulses(onsets, period, height),
        0 <= min_lag <= period < max_lag,
        0 < period,
        max_lag <= onsets.len() / 2,
        height.spec_sat_mul(height).raw >= onsets.len(),
        forall|lag: int|
            min_lag <= lag < max_lag && lag != period ==> !#[trigger] spec_is_multiple(lag, period),
        min_lag <= upto <= max_lag,
    ensures
        upto <= period ==> spec_best_lag(onsets, min_lag, upto) == (min_lag, Fixed { raw: 0 }),
        upto > period ==> spec_best_lag(onsets, min_lag, upto).0 == period && spec_best_lag(
            onsets,
            min_lag,
            upto,
        ).1.raw > 0,
    decreases upto - min_lag,
{
    if upto > min_lag {
        lemma_periodic_onsets_give_their_period(
            onsets,
            period,
            height,
            min_lag,
            max_lag,
            upto - 1,
        );
        let lag = upto - 1;
        let count = onsets.len() - lag;
        if lag == period {
            lemma_pulses_meet(onsets, period, height, count);
            let sum = spec_product_sum(onsets, period, count);
            let total = sum.raw as int;
            assert(total / count >= 1) by (nonlinear_arith)
                requires
                    total >= count,
                    count >= 1,
            ;
        } else {
            assert(!spec_is_multiple(lag, period));
            lemma_pulses_miss(onsets, period, height, lag, count);
        }
    }
}

/// The window of lags that a ring of `len` onsets is searched in: from the
/// lag of `max_bpm` up to, not including, the lag of `min_bpm`, which is
/// held to half the ring.  `None` where that window is empty.
pub open spec fn spec_lag_window(
    len: int,
    config: BpmDetectorConfig,
    sample_rate: u32,
    fft_size: usize,
) -> Option<(int, int)> {
    let min_lag = spec_lag_of(config.max_bpm, sample_rate, fft_size);
    let longest = spec_lag_of(config.min_bpm, sample_rate, fft_size);
    let max_lag = if longest <= len / 2 {
        longest
    } else {
        len / 2
    };
    if min_lag >= max_lag {
        None
    } else {
        Some((min_lag, max_lag))
    }
}

/// The tempo that the ring of onsets gives: that of the best lag of the
/// window.  `None` where the window is empty or the best lag is zero.
pub open spec fn spec_detected(
    history: Seq<Fixed>,
    write_idx: int,
    config: BpmDetectorConfig,
    sample_rate: u32,
    fft_size: usize,
) -> Option<Fixed> {
    match spec_lag_window(history.len() as int, config, sample_rate, fft_size) {
        None => None,
        Some((min_lag, max_lag)) => {
            let best = spec_best_lag(spec_oldest_first(history, write_idx), min_lag, max_lag).0;
            if best > 0 {
                Some(spec_bpm_of(best, sample_rate, fft_size))
            } else {
                None
            }
        },
    }
}

/// A ring of pulses gives the tempo of their period, under the conditions
/// of [`lemma_periodic_onsets_give_their_period`].
pub proof fn lemma_periodic_onsets_give_their_tempo(
    history: Seq<Fixed>,
    write_idx: int,
    config: BpmDetectorConfig,
    sample_rate: u32,
    fft_size: usize,
    period: int,
    height: Fixed,
)
    requires
        fft_size >= 1,
        spec_pulses(spec_oldest_first(history, write_idx), period, height),
        0 < period,
        height.spec_sat_mul(height).raw >= history.len(),
        spec_lag_window(history.len() as int, config, sample_rate, fft_size) matches Some(window)
            && window.0 <= period < window.1 && forall|lag: int|
            window.0 <= lag < window.1 && lag != period ==> !#[trigger] spec_is_multiple(
                lag,
                period,
            ),
    ensures
        spec_detected(history, write_idx, config, sample_rate, fft_size) == Some(
            spec_bpm_of(period, sample_rate, fft_size),
        ),
{
    let window = spec_lag_window(history.len() as int, config, sample_rate, fft_size)->0;
    let scale = spec_beat_scale(sample_rate, fft_size);
    let fastest = config.max_bpm.raw as int;
    assert(scale >= 0 && (fastest > 0 ==> scale / fastest >= 0)) by (nonlinear_arith)
        requires
            scale == (60 * sample_rate * SCALE) / (fft_size as int),
            fft_size >= 1,
            sample_rate >= 0,
            SCALE == 1_000_000_000,
    ;
    lemma_periodic_onsets_give_their_period(
        spec_oldest_first(history, write_idx),
        period,
        height,
        window.0,
        window.1,
        window.1,
    );
}

/// A tempo has been detected and lies within the bounds of the configuration.
pub open spec fn spec_recorded(detected: Option<Fixed>, config: BpmDetectorConfig) -> bool {
    detected matches Some(bpm) && config.min_bpm.raw <= bpm.raw <= config.max_bpm.raw
}

/// The estimates after a due frame: a tempo that is recorded joins them,
/// and then the oldest estimate leaves where there are more than the
/// configuration allows.  Without a recorded tempo they stay as they are.
pub open spec fn spec_estimates_after(
    estimates: Seq<Fixed>,
    detected: Option<Fixed>,
    config: BpmDetectorConfig,
) -> Seq<Fixed> {
    if spec_recorded(detected, config) {
        let pushed = estimates.push(detected->0);
        if pushed.len() > config.estimate_history_size {
            pushed.remove(0)
        } else {
            pushed
        }
    } else {
        estimates
    }
}

/// The order of numbers by their value is a total order.
pub proof fn lemma_leq_is_total()
    ensures
        total_ordering(spec_leq()),
{
    let leq = spec_leq();
    assert forall|x: Fixed, y: Fixed| #[trigger] leq(x, y) && #[trigger] leq(y, x) implies x
        == y by {
        assert(x.raw == y.raw);
    }
}

/// A copy of `values` in ascending order.
fn sorted_copy(values: &Vec<Fixed>) -> (sorted: Vec<Fixed>)
    ensures
        sorted@ == values@.sort_by(spec_leq()),
{
    let ghost leq = spec_leq();
    let mut sorted: Vec<Fixed> = Vec::with_capacity(values.len());
    let mut idx: usize = 0;
    assert(sorted@ =~= values@.take(0));
    while idx < values.len()
        invariant
            idx <= values@.len(),
            leq == spec_leq(),
            sorted@.len() == idx,
            sorted_by(sorted@, leq),
            sorted@.to_multiset() == values@.take(idx as int).to_multiset(),
        decreases values@.len() - idx,
    {
        let value: Fixed = values[idx];
        let mut pos: usize = 0;
        while pos < sorted.len() && sorted[pos].raw <= value.raw
            invariant
                pos <= sorted@.len(),
                forall|j: int| 0 <= j < pos ==> sorted@[j].raw <= value.raw,
            decreases sorted@.len() - pos,
        {
            pos += 1;
        }
        let ghost before = sorted@;
        sorted.insert(pos, value);
        proof {
            before.insert_ensures(pos as int, value);
            to_multiset_insert(before, pos as int, value);
            assert(values@.take(idx + 1) =~= values@.take(idx as int).push(value));
            to_multiset_build(values@.take(idx as int), value);
            assert forall|i: int, j: int| 0 <= i < j < sorted@.len() implies #[trigger] leq(
                sorted@[i],
                sorted@[j],
            ) by {
                if j < pos {
                    assert(leq(before[i], before[j]));
                } else if j == pos {
                    assert(before[i].raw <= value.raw);
                } else if i < pos {
                    assert(sorted@[j] == before[j - 1]);
                    assert(leq(before[i], before[j - 1]));
                } else if i == pos {
                    assert(sorted@[j] == before[j - 1]);
                    assert(leq(before[pos as int], before[j - 1]) || j - 1 == pos);
                } else {
                    assert(sorted@[i] == before[i - 1]);
                    assert(sorted@[j] == before[j - 1]);
                    assert(leq(before[i - 1], before[j - 1]));
                }
            }
        }
        idx += 1;
    }
    proof {
        assert(values@.take(values@.len() as int) =~= values@);
        lemma_leq_is_total();
        values@.lemma_sort_by_ensures(leq);
        lemma_sorted_unique(sorted@, values@.sort_by(leq), leq);
    }
    sorted
}

/// The median of the estimates.
pub fn median(estimates: &Vec<Fixed>) -> (median: Fixed)
    requires
        estimates@.len() > 0,
    ensures
        median == spec_median(estimates@),
{
    let sorted: Vec<Fixed> = sorted_copy(estimates);
    proof {
        lemma_leq_is_total();
        estimates@.lemma_sort_by_ensures(spec_leq());
        vstd::seq_lib::to_multiset_len(estimates@);
        vstd::seq_lib::to_multiset_len(sorted@);
    }
    let mid: usize = sorted.len() / 2;
    if sorted.len() % 2 == 0 {
        let sum: i128 = sorted[mid - 1].raw as i128 + sorted[mid].raw as i128;
        let half: i128 = if sum >= 0 {
            sum / 2
        } else {
            -((-sum) / 2)
        };
        Fixed { raw: half as i64 }
    } else {
        sorted[mid]
    }
}

/// `numerator / divisor`, held to the range of `usize`.
fn quotient_as_usize(numerator: u128, divisor: u128) -> (quotient: usize)
    requires
        divisor > 0,
    ensures
        quotient == (if numerator / divisor > usize::MAX {
            usize::MAX as int
        } else {
            (numerator / divisor) as int
        }),
{
    let quotient: u128 = numerator / divisor;
    if quotient > usize::MAX as u128 {
        usize::MAX
    } else {
        quotient as usize
    }
}

/// Sixty times the frames per second, in raw steps.
fn beat_scale(sample_rate: u32, fft_size: usize) -> (scale: u128)
    requires
        fft_size >= 1,
    ensures
        scale == spec_beat_scale(sample_rate, fft_size),
        scale <= 60 * 0xffff_ffff * SCALE,
{
    assert(0 <= 60 * sample_rate * SCALE <= 60 * 0xffff_ffff * SCALE) by (nonlinear_arith)
        requires
            0 <= sample_rate <= 0xffff_ffff,
    ;
    let scaled: u128 = 60 * (sample_rate as u128);
    let product: u128 = scaled * (SCALE as u128);
    assert(product / (fft_size as u128) <= product) by (nonlinear_arith)
        requires
            fft_size >= 1,
            product >= 0,
    ;
    product / (fft_size as u128)
}

/// The lag, in frames, between the beats of the tempo `bpm`.
fn lag_of(bpm: Fixed, sample_rate: u32, fft_size: usize) -> (lag: usize)
    requires
        fft_size >= 1,
    ensures
        lag == spec_lag_of(bpm, sample_rate, fft_size),
{
    if bpm.raw < 0 {
        0
    } else if bpm.raw == 0 {
        usize::MAX
    } else {
        quotient_as_usize(beat_scale(sample_rate, fft_size), bpm.raw as u128)
    }
}

impl BpmDetector {
    /// The ring and its slot fit each other, and the frames can be counted.
    pub open spec fn wf(&self) -> bool {
        &&& self.fft_size >= 1
        &&& self.onset_history@.len() == 0 ==> self.onset_write_idx == 0
        &&& self.onset_history@.len() > 0 ==> self.onset_write_idx < self.onset_history@.len()
        &&& self.frame_count < usize::MAX
    }

    /// A detector for the spectra of `processor`.
    pub fn new(processor: &SampleProcessor, config: BpmDetectorConfig) -> (detector: Self)
        requires
            processor.fft_size >= 1,
        ensures
            detector.wf(),
            detector.config == config,
            detector.sample_rate == processor.sample_rate,
            detector.fft_size == processor.fft_size,
            detector.prev_bass_energy.raw == 0,
            detector.onset_history@.len() == spec_history_frames(
                config.history_seconds,
                processor.sample_rate,
                processor.fft_size,
            ),
            forall|i: int|
                0 <= i < detector.onset_history@.len() ==> (#[trigger] detector.onset_history@[i]).raw
                    == 0,
            detector.onset_write_idx == 0,
            detector.bpm_estimates@.len() == 0,
            detector.current_bpm.raw == INIT_BPM,
            detector.frame_count == 0,
            detector.frames_between_updates == spec_frames_between_updates(
                processor.sample_rate,
                processor.fft_size,
            ),
            detector.bass_bin_start == spec_bin_of(
                BASS_MIN_FREQUENCY,
                processor.sample_rate,
                processor.fft_size,
            ),
            detector.bass_bin_end == spec_bin_of(
                BASS_MAX_FREQUENCY,
                processor.sample_rate,
                processor.fft_size,
            ),
    {
        let sample_rate: u32 = processor.sample_rate();
        let fft_size: usize = processor.fft_size();
        let history_frames: usize = if config.history_seconds.raw <= 0 {
            0
        } else {
            assert(0 <= config.history_seconds.raw * sample_rate <= 0x7fff_ffff_ffff_ffff
                * 0xffff_ffff) by (nonlinear_arith)
                requires
                    0 <= config.history_seconds.raw <= 0x7fff_ffff_ffff_ffff,
                    0 <= sample_rate <= 0xffff_ffff,
            ;
            let seconds: u128 = (config.history_seconds.raw as u128) * (sample_rate as u128);
            quotient_as_usize(seconds / (SCALE as u128), fft_size as u128)
        };
        let mut onset_history: Vec<Fixed> = Vec::with_capacity(history_frames);
        while onset_history.len() < history_frames
            invariant
                onset_history@.len() <= history_frames,
                forall|i: int| 0 <= i < onset_history@.len() ==> onset_history@[i].raw == 0,
            decreases history_frames - onset_history@.len(),
        {
            onset_history.push(Fixed { raw: 0 });
        }
        let frames_between_updates: usize = quotient_as_usize(
            15 * (sample_rate as u128),
            fft_size as u128,
        );
        BpmDetector {
            config,
            prev_bass_energy: Fixed { raw: 0 },
            onset_history,
            onset_write_idx: 0,
            bpm_estimates: Vec::with_capacity(60),
            current_bpm: Fixed { raw: INIT_BPM },
            sample_rate,
            fft_size,
            frame_count: 0,
            frames_between_updates,
            bass_bin_start: bin_of(BASS_MIN_FREQUENCY, sample_rate, fft_size),
            bass_bin_end: bin_of(BASS_MAX_FREQUENCY, sample_rate, fft_size),
        }
    }

    /// The first bin of the bass band in a spectrum of `len` bins.
    pub open spec fn spec_bass_start(&self, len: int) -> int {
        if self.bass_bin_start <= self.spec_bass_end(len) {
            self.bass_bin_start as int
        } else {
            self.spec_bass_end(len)
        }
    }

    /// The bin behind the last bin of the bass band in a spectrum of `len` bins.
    pub open spec fn spec_bass_end(&self, len: int) -> int {
        if self.bass_bin_end <= len {
            self.bass_bin_end as int
        } else {
            len
        }
    }

    /// A frame with this spectrum leaves the detector as it is: the ring
    /// is empty or the spectrum holds no bin of the bass band.
    pub open spec fn spec_idle(&self, magnitudes: Seq<Fixed>) -> bool {
        self.onset_history@.len() == 0 || self.spec_bass_start(magnitudes.len() as int)
            >= self.spec_bass_end(magnitudes.len() as int)
    }

    /// The energy of the bass in the spectrum.
    pub open spec fn spec_energy(&self, magnitudes: Seq<Fixed>) -> Fixed {
        spec_sum(
            magnitudes,
            self.spec_bass_start(magnitudes.len() as int),
            self.spec_bass_end(magnitudes.len() as int),
        )
    }

    /// The onset of the frame: the rise of the energy of the bass since the
    /// last frame, or zero where it has not risen.
    pub open spec fn spec_flux(&self, magnitudes: Seq<Fixed>) -> Fixed {
        let rise = self.spec_energy(magnitudes).spec_sat_sub(self.prev_bass_energy);
        if rise.raw < 0 {
            Fixed { raw: 0 }
        } else {
            rise
        }
    }

    /// The frame that comes next gives a new estimate.
    pub open spec fn spec_due(&self) -> bool {
        self.frame_count + 1 >= self.frames_between_updates
    }

    /// Everything that a frame never changes is as in `other`.
    pub open spec fn spec_same_setup(&self, other: BpmDetector) -> bool {
        &&& self.config == other.config
        &&& self.sample_rate == other.sample_rate
        &&& self.fft_size == other.fft_size
        &&& self.frames_between_updates == other.frames_between_updates
        &&& self.bass_bin_start == other.bass_bin_start
        &&& self.bass_bin_end == other.bass_bin_end
    }

    /// `after` is the detector that a frame with the given spectrum of the
    /// first channel leaves behind.
    ///
    /// A frame without a bin of the bass band changes nothing.  Any other
    /// frame writes its onset into the ring.  On a due frame the ring is
    /// searched for a tempo; only a tempo that is found and lies within the
    /// bounds joins the estimates and moves the tempo to their median.
    pub open spec fn spec_processed(&self, after: BpmDetector, magnitudes: Seq<Fixed>) -> bool {
        &&& after.spec_same_setup(*self)
        &&& if self.spec_idle(magnitudes) {
            &&& after.prev_bass_energy == self.prev_bass_energy
            &&& after.onset_history@ == self.onset_history@
            &&& after.onset_write_idx == self.onset_write_idx
            &&& after.frame_count == self.frame_count
            &&& after.bpm_estimates@ == self.bpm_estimates@
            &&& after.current_bpm == self.current_bpm
        } else {
            &&& after.prev_bass_energy == self.spec_energy(magnitudes)
            &&& after.onset_history@ == self.onset_history@.update(
                self.onset_write_idx as int,
                self.spec_flux(magnitudes),
            )
            &&& after.onset_write_idx == (self.onset_write_idx + 1) % (
            self.onset_history@.len() as int)
            &&& if self.spec_due() {
                let detected = spec_detected(
                    after.onset_history@,
                    after.onset_write_idx as int,
                    self.config,
                    self.sample_rate,
                    self.fft_size,
                );
                &&& after.frame_count == 0
                &&& after.bpm_estimates@ == spec_estimates_after(
                    self.bpm_estimates@,
                    detected,
                    self.config,
                )
                &&& after.current_bpm == (if spec_recorded(detected, self.config)
                    && after.bpm_estimates@.len() > 0 {
                    spec_median(after.bpm_estimates@)
                } else {
                    self.current_bpm
                })
            } else {
                &&& after.frame_count == self.frame_count + 1
                &&& after.bpm_estimates@ == self.bpm_estimates@
                &&& after.current_bpm == self.current_bpm
            }
        }
    }

    /// Takes the newest frame of `processor` in and returns the tempo.
    pub fn process(&mut self, processor: &SampleProcessor) -> (bpm: Fixed)
        requires
            old(self).wf(),
        ensures
            final(self).wf(),
            bpm == final(self).current_bpm,
            processor.channels@.len() == 0 ==> *final(self) == *old(self),
            processor.channels@.len() > 0 ==> old(self).spec_processed(
                *final(self),
                processor.channels@[0].fft_out@,
            ),
    {
        if processor.channels.len() == 0 {
            return self.current_bpm;
        }
        self.process_spectrum(&processor.channels[0].fft_out)
    }

    /// Takes a frame with the given spectrum in and returns the tempo.
    pub fn process_spectrum(&mut self, magnitudes: &Vec<Fixed>) -> (bpm: Fixed)
        requires
            old(self).wf(),
        ensures
            final(self).wf(),
            bpm == final(self).current_bpm,
            old(self).spec_processed(*final(self), magnitudes@),
    {
        let bin_end: usize = if self.bass_bin_end <= magnitudes.len() {
            self.bass_bin_end
        } else {
            magnitudes.len()
        };
        let bin_start: usize = if self.bass_bin_start <= bin_end {
            self.bass_bin_start
        } else {
            bin_end
        };
        let len: usize = self.onset_history.len();
        if len == 0 || bin_start >= bin_end {
            return self.current_bpm;
        }
        let (bass_energy, _quiet) = sum_bins(magnitudes, bin_start, bin_end);
        let rise: Fixed = bass_energy.sat_sub(self.prev_bass_energy);
        let flux: Fixed = if rise.raw < 0 {
            Fixed { raw: 0 }
        } else {
            rise
        };
        assert(!old(self).spec_idle(magnitudes@));
        assert(bass_energy == old(self).spec_energy(magnitudes@));
        assert(flux == old(self).spec_flux(magnitudes@));
        self.prev_bass_energy = bass_energy;
        self.onset_history.set(self.onset_write_idx, flux);
        let write_idx: usize = self.onset_write_idx;
        assert((write_idx + 1) % (len as int) == (if write_idx + 1 == len {
            0
        } else {
            write_idx + 1
        })) by (nonlinear_arith)
            requires
                0 <= write_idx < len,
        ;
        self.onset_write_idx = if self.onset_write_idx + 1 == len {
            0
        } else {
            self.onset_write_idx + 1
        };
        self.frame_count += 1;
        if self.frame_count >= self.frames_between_updates {
            self.frame_count = 0;
            match self.detect() {
                None => {},
                Some(detected_bpm) => {
                    if detected_bpm.raw >= self.config.min_bpm.raw && detected_bpm.raw
                        <= self.config.max_bpm.raw {
                        self.bpm_estimates.push(detected_bpm);
                        if self.bpm_estimates.len() > self.config.estimate_history_size {
                            self.bpm_estimates.remove(0);
                        }
                        if self.bpm_estimates.len() > 0 {
                            self.current_bpm = self.compute_median_bpm();
                        }
                    }
                },
            }
        }
        self.current_bpm
    }

    /// The tempo as the last frame left it.
    pub fn bpm(&self) -> (bpm: Fixed)
        ensures
            bpm == self.current_bpm,
    {
        self.current_bpm
    }

    /// The median of the estimates; the tempo where there is no estimate.
    pub fn compute_median_bpm(&self) -> (bpm: Fixed)
        ensures
            bpm == (if self.bpm_estimates@.len() > 0 {
                spec_median(self.bpm_estimates@)
            } else {
                self.current_bpm
            }),
    {
        if self.bpm_estimates.len() == 0 {
            return self.current_bpm;
        }
        median(&self.bpm_estimates)
    }

    /// The window of lags that the ring is searched in; `None` where it is empty.
    pub fn lag_window(&self) -> (window: Option<(usize, usize)>)
        requires
            self.wf(),
        ensures
            match window {
                Some((min_lag, max_lag)) => spec_lag_window(
                    self.onset_history@.len() as int,
                    self.config,
                    self.sample_rate,
                    self.fft_size,
                ) == Some((min_lag as int, max_lag as int)),
                None => spec_lag_window(
                    self.onset_history@.len() as int,
                    self.config,
                    self.sample_rate,
                    self.fft_size,
                ).is_none(),
            },
    {
        let min_lag: usize = lag_of(self.config.max_bpm, self.sample_rate, self.fft_size);
        let longest: usize = lag_of(self.config.min_bpm, self.sample_rate, self.fft_size);
        let half: usize = self.onset_history.len() / 2;
        let max_lag: usize = if longest <= half {
            longest
        } else {
            half
        };
        if min_lag >= max_lag {
            None
        } else {
            Some((min_lag, max_lag))
        }
    }

    /// The tempo of the lag at which the ring of onsets agrees best with
    /// itself; `None` where the window of lags is empty or that lag is zero.
    pub fn detect(&self) -> (detected: Option<Fixed>)
        requires
            self.wf(),
        ensures
            detected == spec_detected(
                self.onset_history@,
                self.onset_write_idx as int,
                self.config,
                self.sample_rate,
                self.fft_size,
            ),
    {
        let (min_lag, max_lag) = match self.lag_window() {
            None => {
                return None;
            },
            Some(window) => window,
        };
        let mut best_lag: usize = min_lag;
        let mut best_correlation: Fixed = Fixed { raw: 0 };
        let mut lag: usize = min_lag;
        while lag < max_lag
            invariant
                min_lag <= lag <= max_lag,
                max_lag <= self.onset_history@.len() / 2,
                self.wf(),
                (best_lag as int, best_correlation) == spec_best_lag(
                    spec_oldest_first(self.onset_history@, self.onset_write_idx as int),
                    min_lag as int,
                    lag as int,
                ),
            decreases max_lag - lag,
        {
            let correlation: Fixed = self.autocorrelation(lag);
            if correlation.raw > best_correlation.raw {
                best_correlation = correlation;
                best_lag = lag;
            }
            lag += 1;
        }
        if best_lag > 0 {
            let scale: u128 = beat_scale(self.sample_rate, self.fft_size);
            let raw: u128 = scale / (best_lag as u128);
            if raw > i64::MAX as u128 {
                Some(Fixed { raw: i64::MAX })
            } else {
                Some(Fixed { raw: raw as i64 })
            }
        } else {
            None
        }
    }

    /// The tempo that the ring of onsets gives; the tempo as it is where
    /// the ring gives none.
    pub fn compute_bpm_from_autocorrelation(&self) -> (bpm: Fixed)
        requires
            self.wf(),
        ensures
            bpm == (match spec_detected(
                self.onset_history@,
                self.onset_write_idx as int,
                self.config,
                self.sample_rate,
                self.fft_size,
            ) {
                Some(detected) => detected,
                None => self.current_bpm,
            }),
    {
        match self.detect() {
            Some(detected) => detected,
            None => self.current_bpm,
        }
    }

    /// How well the ring of onsets agrees with itself `lag` frames later:
    /// the mean of `h[i] * h[i + lag]` over the onsets `h` from the oldest
    /// to the newest.
    pub fn autocorrelation(&self, lag: usize) -> (agreement: Fixed)
        requires
            self.wf(),
        ensures
            agreement == spec_autocorrelation(
                self.onset_history@,
                self.onset_write_idx as int,
                lag as int,
            ),
    {
        let len: usize = self.onset_history.len();
        if lag >= len {
            return Fixed { raw: 0 };
        }
        let count: usize = len - lag;
        let ghost onsets = spec_oldest_first(self.onset_history@, self.onset_write_idx as int);
        let mut sum: Fixed = Fixed { raw: 0 };
        let mut i: usize = 0;
        while i < count
            invariant
                i <= count,
                count == len - lag,
                lag < len,
                len == self.onset_history@.len(),
                self.onset_write_idx < len,
                onsets == spec_oldest_first(self.onset_history@, self.onset_write_idx as int),
                sum == spec_product_sum(onsets, lag as int, i as int),
            decreases count - i,
        {
            let first: usize = ((self.onset_write_idx as u128 + i as u128) % (len as u128)) as usize;
            let second: usize = ((self.onset_write_idx as u128 + i as u128 + lag as u128) % (
            len as u128)) as usize;
            assert(onsets[i as int] == self.onset_history@[first as int]);
            assert(onsets[i + lag] == self.onset_history@[second as int]);
            sum = sum.sat_add(self.onset_history[first].sat_mul(self.onset_history[second]));
            i += 1;
        }
        sum.div_int(count as u64)
    }
}

} // verus!
