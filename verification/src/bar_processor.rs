//! The bar pipeline: configuration, per-channel state and the processor that
//! owns one state per audio channel.

pub mod channel_ctx;
pub mod config;

use crate::bar_processor::channel_ctx::{
    lemma_full_bars_leave_no_padding, spec_constructible, spec_planned_total, spec_zeros,
    ChannelCtx,
};
use crate::bar_processor::config::BarProcessorConfig;
use crate::fixed::Fixed;
use crate::sample_processor::SampleProcessor;
use vstd::prelude::*;

verus! {

/// Computes the bars of every channel from the spectra of a sample processor.
#[derive(Debug)]
pub struct BarProcessor {
    /// The bars of each channel: first index the channel, second the bar.
    pub bar_values: Vec<Vec<Fixed>>,
    /// The state of each channel.
    pub ctx: Vec<ChannelCtx>,
    pub config: BarProcessorConfig,
    pub sample_rate: u32,
    pub sample_len: usize,
}

/// The configuration with another amount of bars.
pub open spec fn spec_with_amount_bars(
    config: BarProcessorConfig,
    amount_bars: u16,
) -> BarProcessorConfig {
    BarProcessorConfig {
        amount_bars,
        freq_range: config.freq_range,
        sensitivity: config.sensitivity,
        interpolation: config.interpolation,
        bar_distribution: config.bar_distribution,
        padding: config.padding,
    }
}

/// The states and the rows of bars of `amount_channels` fresh channels, or
/// `None` where no channel can be made from the arguments.
fn get_channels_and_bar_values(
    config: &BarProcessorConfig,
    amount_channels: u8,
    sample_rate: u32,
    sample_len: usize,
    weights: &Vec<Fixed>,
) -> (made: Option<(Vec<ChannelCtx>, Vec<Vec<Fixed>>)>)
    requires
        amount_channels >= 1,
    ensures
        made.is_some() == spec_constructible(*config, sample_rate, sample_len, weights@),
        made matches Some((channels, bar_values)) ==> {
            &&& channels@.len() == amount_channels
            &&& bar_values@.len() == amount_channels
            &&& forall|i: int|
                0 <= i < amount_channels ==> (#[trigger] channels@[i]).spec_made_from(
                    *config,
                    sample_rate,
                    sample_len,
                    weights@,
                )
            &&& forall|i: int|
                0 <= i < amount_channels ==> (#[trigger] bar_values@[i])@ == spec_zeros(
                    spec_planned_total(*config, sample_rate, sample_len, weights@),
                )
        },
{
    let mut channels: Vec<ChannelCtx> = Vec::with_capacity(amount_channels as usize);
    let mut bar_values: Vec<Vec<Fixed>> = Vec::with_capacity(amount_channels as usize);
    while channels.len() < amount_channels as usize
        invariant
            channels@.len() <= amount_channels,
            bar_values@.len() == channels@.len(),
            channels@.len() > 0 ==> spec_constructible(
                *config,
                sample_rate,
                sample_len,
                weights@,
            ),
            forall|i: int|
                0 <= i < channels@.len() ==> (#[trigger] channels@[i]).spec_made_from(
                    *config,
                    sample_rate,
                    sample_len,
                    weights@,
                ),
            forall|i: int|
                0 <= i < channels@.len() ==> (#[trigger] bar_values@[i])@ == spec_zeros(
                    spec_planned_total(*config, sample_rate, sample_len, weights@),
                ),
        decreases amount_channels - channels@.len(),
    {
        match ChannelCtx::try_new(config, sample_rate, sample_len, weights) {
            None => {
                return None;
            },
            Some(channel) => {
                let total_amount_bars: usize = channel.total_amount_bars();
                let mut row: Vec<Fixed> = Vec::with_capacity(total_amount_bars);
                while row.len() < total_amount_bars
                    invariant
                        row@.len() <= total_amount_bars,
                        forall|bar: int| 0 <= bar < row@.len() ==> row@[bar].raw == 0,
                    decreases total_amount_bars - row@.len(),
                {
                    row.push(Fixed { raw: 0 });
                }
                assert(row@ =~= spec_zeros(total_amount_bars as int));
                channels.push(channel);
                bar_values.push(row);
            },
        }
    }
    Some((channels, bar_values))
}

impl BarProcessor {
    /// There is a channel, every state is well formed, and every channel
    /// has a row with one slot per bar.
    pub open spec fn wf(&self) -> bool {
        &&& 1 <= self.ctx@.len() <= u8::MAX
        &&& self.bar_values@.len() == self.ctx@.len()
        &&& forall|i: int| 0 <= i < self.ctx@.len() ==> (#[trigger] self.ctx@[i]).wf()
        &&& forall|i: int|
            0 <= i < self.ctx@.len() ==> (#[trigger] self.bar_values@[i])@.len()
                == self.ctx@[i].spec_total_amount_bars()
    }

    /// This is the processor that is made from the arguments: one fresh
    /// channel per channel of the sample processor, and every bar zero.
    pub open spec fn spec_made_from(
        &self,
        config: BarProcessorConfig,
        sample_rate: u32,
        sample_len: usize,
        amount_channels: int,
        weights: Seq<Fixed>,
    ) -> bool {
        &&& self.wf()
        &&& self.config == config
        &&& self.sample_rate == sample_rate
        &&& self.sample_len == sample_len
        &&& self.ctx@.len() == amount_channels
        &&& forall|i: int|
            0 <= i < amount_channels ==> (#[trigger] self.ctx@[i]).spec_made_from(
                config,
                sample_rate,
                sample_len,
                weights,
            )
        &&& forall|i: int|
            0 <= i < amount_channels ==> (#[trigger] self.bar_values@[i])@ == spec_zeros(
                spec_planned_total(config, sample_rate, sample_len, weights),
            )
    }

    /// A bar processor for the spectra of `processor`, or `None` where no
    /// channel can be made from the arguments.
    ///
    /// `weights` holds, for each bar, the frequency in Hz at which it ends
    /// on the perceptual curve.
    pub fn try_new(
        processor: &SampleProcessor,
        config: BarProcessorConfig,
        weights: &Vec<Fixed>,
    ) -> (made: Option<Self>)
        requires
            processor.wf(),
        ensures
            made.is_some() == spec_constructible(
                config,
                processor.sample_rate,
                processor.fft_size,
                weights@,
            ),
            config.amount_bars == u16::MAX && config.padding.is_some() ==> made.is_none(),
            made matches Some(bars) ==> bars.spec_made_from(
                config,
                processor.sample_rate,
                processor.fft_size,
                processor.channels@.len() as int,
                weights@,
            ),
    {
        let sample_rate: u32 = processor.sample_rate();
        let sample_len: usize = processor.fft_size();
        let amount_channels: u8 = processor.amount_channels();
        proof {
            if config.amount_bars == u16::MAX && config.padding.is_some() {
                lemma_full_bars_leave_no_padding(config, sample_rate, sample_len, weights@);
            }
        }
        match get_channels_and_bar_values(
            &config,
            amount_channels,
            sample_rate,
            sample_len,
            weights,
        ) {
            None => None,
            Some((ctx, bar_values)) => Some(
                BarProcessor { config, ctx, bar_values, sample_rate, sample_len },
            ),
        }
    }

    /// A bar processor for the spectra of `processor`.
    ///
    /// `weights` holds, for each bar, the frequency in Hz at which it ends
    /// on the perceptual curve.
    pub fn new(processor: &SampleProcessor, config: BarProcessorConfig, weights: &Vec<Fixed>) -> (bars:
        Self)
        requires
            processor.wf(),
            spec_constructible(config, processor.sample_rate, processor.fft_size, weights@),
        ensures
            bars.spec_made_from(
                config,
                processor.sample_rate,
                processor.fft_size,
                processor.channels@.len() as int,
                weights@,
            ),
    {
        Self::try_new(processor, config, weights).unwrap()
    }

    /// Takes the spectra of `processor` into the channels and returns the
    /// bars of every channel: `bars[i][j]` is bar `j` of channel `i`.
    ///
    /// A channel for which `processor` holds no spectrum stays as it is.
    pub fn process_bars(&mut self, processor: &SampleProcessor) -> (bars: &Vec<Vec<Fixed>>)
        requires
            old(self).wf(),
            forall|i: int|
                0 <= i < old(self).ctx@.len() && i < processor.channels@.len() ==> (#[trigger] old(self).ctx@[i]).spec_fits(processor.channels@[i].fft_out@.len() as int),
        ensures
            bars@ == final(self).bar_values@,
            final(self).wf(),
            final(self).config == old(self).config,
            final(self).sample_rate == old(self).sample_rate,
            final(self).sample_len == old(self).sample_len,
            final(self).ctx@.len() == old(self).ctx@.len(),
            forall|i: int|
                0 <= i < old(self).ctx@.len() && i < processor.channels@.len() ==> {
                    &&& (#[trigger] old(self).ctx@[i]).spec_updated(
                        final(self).ctx@[i],
                        processor.channels@[i].fft_out@,
                    )
                    &&& final(self).bar_values@[i]@ == final(self).ctx@[i].spec_bars(
                        old(self).bar_values@[i]@.len(),
                    )
                },
            forall|i: int|
                processor.channels@.len() <= i < old(self).ctx@.len() ==> final(self).bar_values@[i] == (#[trigger] old(self).bar_values@[i]) && final(self).ctx@[i] == old(self).ctx@[i],
    {
        let amount: usize = if self.ctx.len() <= processor.channels.len() {
            self.ctx.len()
        } else {
            processor.channels.len()
        };
        let mut channel_idx: usize = 0;
        while channel_idx < amount
            invariant
                channel_idx <= amount,
                amount <= old(self).ctx@.len(),
                amount <= processor.channels@.len(),
                amount == old(self).ctx@.len() || amount == processor.channels@.len(),
                old(self).wf(),
                self.config == old(self).config,
                self.sample_rate == old(self).sample_rate,
                self.sample_len == old(self).sample_len,
                self.ctx@.len() == old(self).ctx@.len(),
                self.bar_values@.len() == old(self).bar_values@.len(),
                forall|i: int|
                    0 <= i < old(self).ctx@.len() && i < processor.channels@.len() ==> (
                    #[trigger] old(self).ctx@[i]).spec_fits(
                        processor.channels@[i].fft_out@.len() as int,
                    ),
                forall|i: int|
                    0 <= i < self.ctx@.len() ==> (#[trigger] self.ctx@[i]).wf()
                        && self.bar_values@[i]@.len() == old(self).bar_values@[i]@.len()
                        && self.ctx@[i].spec_total_amount_bars() == old(self).ctx@[i].spec_total_amount_bars(),
                forall|i: int|
                    0 <= i < channel_idx ==> {
                        &&& (#[trigger] old(self).ctx@[i]).spec_updated(
                            self.ctx@[i],
                            processor.channels@[i].fft_out@,
                        )
                        &&& self.bar_values@[i]@ == self.ctx@[i].spec_bars(
                            old(self).bar_values@[i]@.len(),
                        )
                    },
                forall|i: int|
                    channel_idx <= i < self.ctx@.len() ==> self.ctx@[i] == (#[trigger] old(self).ctx@[i]),
                forall|i: int|
                    channel_idx <= i < self.ctx@.len() ==> self.bar_values@[i] == (#[trigger] old(self).bar_values@[i]),
            decreases amount - channel_idx,
        {
            let ghost before = self.ctx@[channel_idx as int];
            assert(before == old(self).ctx@[channel_idx as int]);
            assert(before.spec_fits(processor.channels@[channel_idx as int].fft_out@.len() as int));
            self.ctx[channel_idx].update_supporting_points(&processor.channels[channel_idx].fft_out);
            let ghost updated = self.ctx@[channel_idx as int];
            self.ctx[channel_idx].interpolate(&mut self.bar_values[channel_idx]);
            proof {
                let after = self.ctx@[channel_idx as int];
                assert(after.spec_same_state(updated));
                assert(before.spec_updated(after, processor.channels@[channel_idx as int].fft_out@));
                assert(after.spec_bars(old(self).bar_values@[channel_idx as int]@.len())
                    == updated.spec_bars(old(self).bar_values@[channel_idx as int]@.len()));
            }
            channel_idx += 1;
        }
        &self.bar_values
    }

    /// The configuration of the processor.
    pub fn config(&self) -> (config: &BarProcessorConfig)
        ensures
            *config == self.config,
    {
        &self.config
    }

    /// Changes the amount of bars per channel.  Every channel starts anew:
    /// nothing of what smoothing and gain control remembered is kept.
    pub fn set_amount_bars(&mut self, amount_bars: u16, weights: &Vec<Fixed>)
        requires
            old(self).wf(),
            spec_constructible(
                spec_with_amount_bars(old(self).config, amount_bars),
                old(self).sample_rate,
                old(self).sample_len,
                weights@,
            ),
        ensures
            final(self).spec_made_from(
                spec_with_amount_bars(old(self).config, amount_bars),
                old(self).sample_rate,
                old(self).sample_len,
                old(self).ctx@.len() as int,
                weights@,
            ),
    {
        self.config.amount_bars = amount_bars;
        let amount_channels: u8 = self.amount_channels();
        let made = get_channels_and_bar_values(
            &self.config,
            amount_channels,
            self.sample_rate,
            self.sample_len,
            weights,
        );
        let (channels, bar_values) = made.unwrap();
        self.ctx = channels;
        self.bar_values = bar_values;
    }

    /// The amount of channels.
    fn amount_channels(&self) -> (amount: u8)
        requires
            1 <= self.ctx@.len() <= u8::MAX,
        ensures
            amount == self.ctx@.len(),
    {
        self.ctx.len() as u8
    }

    /// The amount of bars per channel, padded bars included.
    pub fn total_amount_bars(&self) -> (total: usize)
        requires
            self.wf(),
        ensures
            total == self.ctx@[0].spec_total_amount_bars(),
            total == self.bar_values@[0]@.len(),
    {
        self.bar_values[0].len()
    }
}

} // verus!
