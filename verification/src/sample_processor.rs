//! The spectra that the bar processor and the tempo detector read.

use crate::fixed::Fixed;
use vstd::prelude::*;

verus! {

/// The spectrum of one channel.
#[derive(Debug)]
pub struct FftContext {
    /// The magnitude of each bin.
    pub fft_out: Vec<Fixed>,
}

/// Holds, for each channel, the spectrum of the newest frame.
///
/// The transform itself is the caller's: it hands each spectrum over with
/// [`SampleProcessor::set_fft_out`].
#[derive(Debug)]
pub struct SampleProcessor {
    /// The spectrum of each channel.
    pub channels: Vec<FftContext>,
    pub sample_rate: u32,
    /// The length of the input of the transform.
    pub fft_size: usize,
}

/// The amount of bins in the spectrum of a real signal of `fft_size` samples.
pub open spec fn spec_fft_out_size(fft_size: usize) -> int {
    fft_size / 2 + 1
}

impl SampleProcessor {
    /// There are between 1 and 255 channels, and each spectrum has one
    /// magnitude per bin.
    pub open spec fn wf(&self) -> bool {
        &&& 1 <= self.channels@.len() <= u8::MAX
        &&& forall|i: int|
            0 <= i < self.channels@.len() ==> (#[trigger] self.channels@[i]).fft_out@.len()
                == spec_fft_out_size(self.fft_size)
    }

    /// A processor for `amount_channels` channels of frames of `fft_size`
    /// samples; every magnitude is zero.
    pub fn new(sample_rate: u32, fft_size: usize, amount_channels: u8) -> (processor: Self)
        requires
            amount_channels >= 1,
        ensures
            processor.wf(),
            processor.sample_rate == sample_rate,
            processor.fft_size == fft_size,
            processor.channels@.len() == amount_channels,
            forall|i: int, bin: int|
                0 <= i < amount_channels && 0 <= bin < spec_fft_out_size(fft_size) ==> (
                #[trigger] processor.channels@[i].fft_out@[bin]).raw == 0,
    {
        let fft_out_size: usize = fft_size / 2 + 1;
        let mut channels: Vec<FftContext> = Vec::new();
        while channels.len() < amount_channels as usize
            invariant
                channels@.len() <= amount_channels,
                fft_out_size == spec_fft_out_size(fft_size),
                forall|i: int|
                    0 <= i < channels@.len() ==> (#[trigger] channels@[i]).fft_out@.len()
                        == fft_out_size,
                forall|i: int, bin: int|
                    0 <= i < channels@.len() && 0 <= bin < fft_out_size ==> (
                    #[trigger] channels@[i].fft_out@[bin]).raw == 0,
            decreases amount_channels - channels@.len(),
        {
            let mut fft_out: Vec<Fixed> = Vec::with_capacity(fft_out_size);
            while fft_out.len() < fft_out_size
                invariant
                    fft_out@.len() <= fft_out_size,
                    forall|bin: int| 0 <= bin < fft_out@.len() ==> fft_out@[bin].raw == 0,
                decreases fft_out_size - fft_out@.len(),
            {
                fft_out.push(Fixed { raw: 0 });
            }
            channels.push(FftContext { fft_out });
        }
        SampleProcessor { channels, sample_rate, fft_size }
    }

    /// Replaces the spectrum of a channel.
    pub fn set_fft_out(&mut self, channel: usize, magnitudes: Vec<Fixed>)
        requires
            old(self).wf(),
            channel < old(self).channels@.len(),
            magnitudes@.len() == spec_fft_out_size(old(self).fft_size),
        ensures
            final(self).wf(),
            final(self).sample_rate == old(self).sample_rate,
            final(self).fft_size == old(self).fft_size,
            final(self).channels@ == old(self).channels@.update(
                channel as int,
                FftContext { fft_out: magnitudes },
            ),
    {
        self.channels.set(channel, FftContext { fft_out: magnitudes });
    }

    /// The length of the input of the transform.
    pub fn fft_size(&self) -> (fft_size: usize)
        ensures
            fft_size == self.fft_size,
    {
        self.fft_size
    }

    /// The amount of bins in each spectrum.
    pub fn fft_out_size(&self) -> (size: usize)
        ensures
            size == spec_fft_out_size(self.fft_size),
    {
        self.fft_size / 2 + 1
    }

    /// The spectrum of each channel.
    pub fn fft_out(&self) -> (channels: &Vec<FftContext>)
        ensures
            channels@ == self.channels@,
    {
        &self.channels
    }

    /// The sample rate of the source, in Hz.
    pub fn sample_rate(&self) -> (sample_rate: u32)
        ensures
            sample_rate == self.sample_rate,
    {
        self.sample_rate
    }

    /// The amount of channels.
    pub fn amount_channels(&self) -> (amount: u8)
        requires
            self.wf(),
        ensures
            amount == self.channels@.len(),
            amount >= 1,
    {
        self.channels.len() as u8
    }
}

} // verus!
