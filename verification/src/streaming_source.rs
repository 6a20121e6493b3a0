//! A sample stream over raw payload bytes whose format the caller knows.

use vstd::prelude::*;
use core::time::Duration;
use crate::samples::{next_sample, samples_of, AudioView};
use crate::source::ByteSource;

verus! {

/// Headerless 16-bit PCM: a byte source read as samples, with the format
/// given by the caller.
pub struct StreamingSource<R: ByteSource> {
    reader: R,
    sample_rate: u32,
    channels: u16,
}

impl<R: ByteSource> View for StreamingSource<R> {
    type V = AudioView;

    closed spec fn view(&self) -> AudioView {
        AudioView {
            channels: self.channels,
            sample_rate: self.sample_rate,
            samples: samples_of(self.reader.remaining()),
        }
    }
}

impl<R: ByteSource> StreamingSource<R> {
    /// Reads all of `reader` as samples of the given format.
    pub fn new(reader: R, sample_rate: u32, channels: u16) -> (s: Self)
        ensures
            s@.channels == channels,
            s@.sample_rate == sample_rate,
            s@.samples == samples_of(reader.remaining()),
    {
        StreamingSource { reader, sample_rate, channels }
    }

    /// The length of the current frame: never known for a stream.
    pub fn current_frame_len(&self) -> (r: Option<usize>)
        ensures
            r is None,
    {
        None
    }

    /// The number of channels.
    pub fn channels(&self) -> (r: u16)
        ensures
            r == self@.channels,
    {
        self.channels
    }

    /// The number of samples per second and channel.
    pub fn sample_rate(&self) -> (r: u32)
        ensures
            r == self@.sample_rate,
    {
        self.sample_rate
    }

    /// The playing time of the whole stream: never known ahead of its end.
    pub fn total_duration(&self) -> (r: Option<Duration>)
        ensures
            r is None,
    {
        None
    }

    /// Hands out the next sample, or `None` once the stream holds no full
    /// sample any more. After `None` the source stays empty.
    pub fn next(&mut self) -> (r: Option<i16>)
        ensures
            final(self)@.channels == old(self)@.channels,
            final(self)@.sample_rate == old(self)@.sample_rate,
            match r {
                Some(sample) => {
                    &&& old(self)@.samples.len() > 0
                    &&& sample == old(self)@.samples[0]
                    &&& final(self)@.samples == old(self)@.samples.drop_first()
                },
                None => {
                    &&& old(self)@.samples.len() == 0
                    &&& final(self)@.samples.len() == 0
                },
            },
    {
        next_sample(&mut self.reader)
    }
}

} // verus!
