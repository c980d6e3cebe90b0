//! The buffer through which a source of audio hands its samples on.

use vstd::prelude::*;

verus! {

/// The amount of samples that the buffer of a source with the given sample
/// rate holds.
pub open spec fn spec_capacity(sample_rate: u32) -> int {
    if sample_rate < 8_125 {
        128
    } else if sample_rate <= 16_250 {
        256
    } else if sample_rate <= 32_500 {
        512
    } else if sample_rate <= 75_000 {
        1024
    } else if sample_rate <= 150_000 {
        2048
    } else if sample_rate <= 300_000 {
        4096
    } else {
        8192
    }
}

/// The buffer after `data` was pushed to its front: the first samples of
/// `data`, as many as fit, followed by the samples that the buffer held,
/// moved to the right; what no longer fits is dropped.
pub open spec fn spec_pushed<T>(buffer: Seq<T>, data: Seq<T>) -> Seq<T> {
    let split = if buffer.len() <= data.len() {
        buffer.len()
    } else {
        data.len()
    };
    Seq::new(
        buffer.len(),
        |i: int|
            if i < split {
                data[i]
            } else {
                buffer[i - split]
            },
    )
}

/// The samples of one channel among `amount_channels` interleaved channels.
pub open spec fn spec_deinterleaved<T>(buffer: Seq<T>, amount_channels: int, channel: int) -> Seq<
    T,
> {
    Seq::new(
        (buffer.len() / amount_channels as nat) as nat,
        |i: int| buffer[i * amount_channels + channel],
    )
}

/// Pushing at least as many samples as the buffer holds leaves exactly the
/// first of them, as many as the buffer holds.
pub proof fn lemma_push_truncates<T>(buffer: Seq<T>, data: Seq<T>)
    requires
        data.len() >= buffer.len(),
    ensures
        spec_pushed(buffer, data) == data.subrange(0, buffer.len() as int),
{
    assert(spec_pushed(buffer, data) =~= data.subrange(0, buffer.len() as int));
}

/// Pushing no samples leaves the buffer as it is.
pub proof fn lemma_push_nothing<T>(buffer: Seq<T>, data: Seq<T>)
    requires
        data.len() == 0,
    ensures
        spec_pushed(buffer, data) == buffer,
{
    assert(spec_pushed(buffer, data) =~= buffer);
}

/// Pushing fewer samples than the buffer holds puts them in front of the
/// samples that the buffer held before, of which the last ones are dropped.
pub proof fn lemma_push_shifts<T>(buffer: Seq<T>, data: Seq<T>)
    requires
        data.len() <= buffer.len(),
    ensures
        spec_pushed(buffer, data) == data + buffer.subrange(0, buffer.len() - data.len()),
{
    assert(spec_pushed(buffer, data) =~= data + buffer.subrange(0, buffer.len() - data.len()));
}

/// Holds the newest samples of a source, the channels interleaved, the
/// newest sample first.
#[derive(Debug)]
pub struct SampleBuffer<T> {
    pub buffer: Vec<T>,
    pub sample_rate: u32,
}

impl<T: Copy> SampleBuffer<T> {
    /// A buffer for the given sample rate, filled with `silence`.
    pub fn new(sample_rate: u32, silence: T) -> (made: Self)
        ensures
            made.sample_rate == sample_rate,
            made.buffer@ == Seq::new(spec_capacity(sample_rate) as nat, |i: int| silence),
    {
        let factor: usize = if sample_rate < 8_125 {
            1
        } else if sample_rate <= 16_250 {
            2
        } else if sample_rate <= 32_500 {
            4
        } else if sample_rate <= 75_000 {
            8
        } else if sample_rate <= 150_000 {
            16
        } else if sample_rate <= 300_000 {
            32
        } else {
            64
        };
        let capacity: usize = factor * 128;
        let mut buffer: Vec<T> = Vec::with_capacity(capacity);
        while buffer.len() < capacity
            invariant
                buffer@.len() <= capacity,
                forall|i: int| 0 <= i < buffer@.len() ==> buffer@[i] == silence,
            decreases capacity - buffer@.len(),
        {
            buffer.push(silence);
        }
        assert(buffer@ =~= Seq::new(spec_capacity(sample_rate) as nat, |i: int| silence));
        SampleBuffer { buffer, sample_rate }
    }

    /// Pushes `data` to the front of the buffer and moves what the buffer
    /// held to the right.
    pub fn push_before(&mut self, data: &[T])
        ensures
            final(self).buffer@ == spec_pushed(old(self).buffer@, data@),
            final(self).sample_rate == old(self).sample_rate,
    {
        let data_len: usize = data.len();
        let buffer_len: usize = self.buffer.len();
        let split_point: usize = if buffer_len <= data_len {
            buffer_len
        } else {
            data_len
        };
        let mut idx: usize = buffer_len;
        while idx > split_point
            invariant
                split_point <= idx <= buffer_len,
                buffer_len == self.buffer@.len(),
                buffer_len == old(self).buffer@.len(),
                self.sample_rate == old(self).sample_rate,
                forall|i: int| 0 <= i < idx ==> self.buffer@[i] == old(self).buffer@[i],
                forall|i: int|
                    idx <= i < buffer_len ==> self.buffer@[i] == old(self).buffer@[i - split_point],
            decreases idx,
        {
            idx -= 1;
            let sample: T = self.buffer[idx - split_point];
            self.buffer.set(idx, sample);
        }
        let mut idx: usize = 0;
        while idx < split_point
            invariant
                idx <= split_point <= buffer_len,
                split_point <= data@.len(),
                buffer_len == self.buffer@.len(),
                buffer_len == old(self).buffer@.len(),
                self.sample_rate == old(self).sample_rate,
                forall|i: int| 0 <= i < idx ==> self.buffer@[i] == data@[i],
                forall|i: int|
                    split_point <= i < buffer_len ==> self.buffer@[i] == old(self).buffer@[i
                        - split_point],
            decreases split_point - idx,
        {
            self.buffer.set(idx, data[idx]);
            idx += 1;
        }
        assert(self.buffer@ =~= spec_pushed(old(self).buffer@, data@));
    }

    /// The samples of one channel among `amount_channels` interleaved
    /// channels, the newest first.
    pub fn deinterleave(&self, amount_channels: usize, channel: usize) -> (samples: Vec<T>)
        requires
            channel < amount_channels,
        ensures
            samples@ == spec_deinterleaved(
                self.buffer@,
                amount_channels as int,
                channel as int,
            ),
    {
        let len: usize = self.buffer.len();
        let amount: usize = len / amount_channels;
        let mut samples: Vec<T> = Vec::with_capacity(amount);
        let mut idx: usize = 0;
        while idx < amount
            invariant
                idx <= amount,
                len == self.buffer@.len(),
                amount == len / amount_channels,
                channel < amount_channels,
                samples@.len() == idx,
                forall|i: int|
                    0 <= i < idx ==> (#[trigger] samples@[i]) == self.buffer@[i * amount_channels
                        + channel],
            decreases amount - idx,
        {
            assert(0 <= idx * amount_channels && idx * amount_channels + channel < len)
                by (nonlinear_arith)
                requires
                    0 <= idx < amount,
                    amount == len / amount_channels,
                    0 <= channel < amount_channels,
            ;
            samples.push(self.buffer[idx * amount_channels + channel]);
            idx += 1;
        }
        assert(samples@ =~= spec_deinterleaved(
            self.buffer@,
            amount_channels as int,
            channel as int,
        ));
        samples
    }

    /// The sample rate of the source, in Hz.
    pub fn sample_rate(&self) -> (sample_rate: u32)
        ensures
            sample_rate == self.sample_rate,
    {
        self.sample_rate
    }

    /// The amount of samples that the buffer holds.
    pub fn capacity(&self) -> (capacity: usize)
        ensures
            capacity == self.buffer@.len(),
    {
        self.buffer.len()
    }

    /// The samples, the newest first.
    pub fn buffer(&self) -> (buffer: &Vec<T>)
        ensures
            buffer@ == self.buffer@,
    {
        &self.buffer
    }
}

} // verus!
