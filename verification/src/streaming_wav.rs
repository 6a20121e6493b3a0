//! A sample stream over a RIFF/WAVE container.

use vstd::prelude::*;
use core::time::Duration;
use crate::error::WavError;
use crate::samples::{next_sample, samples_of, AudioView};
use crate::scanner::{
    lemma_read_keeps_outcome, lemma_short_stream, lemma_skip_keeps_outcome, scan, Demand, Event,
    Scanner,
};
use crate::source::{read_exact, skip, ByteSource};

verus! {

/// 16-bit PCM audio that is decoded while its container is still arriving.
///
/// The source is read up to the first byte of the payload when the value is
/// made, and two bytes further with every sample that is asked for.
pub struct StreamingWav<R: ByteSource> {
    reader: R,
    sample_rate: u32,
    channels: u16,
}

impl<R: ByteSource> View for StreamingWav<R> {
    type V = AudioView;

    closed spec fn view(&self) -> AudioView {
        AudioView {
            channels: self.channels,
            sample_rate: self.sample_rate,
            samples: samples_of(self.reader.remaining()),
        }
    }
}

/// How many steps a state may take at most without taking a byte off the
/// stream: the body of a chunk may be empty, a header never is.
spec fn rank(state: Scanner) -> int {
    match state {
        Scanner::InFormat { .. } | Scanner::InOther { .. } => 2,
        Scanner::Envelope | Scanner::Boundary { .. } => 1,
        Scanner::Ready { .. } | Scanner::Refused { .. } => 0,
    }
}

impl<R: ByteSource> StreamingWav<R> {
    /// Reads the container in `reader` up to its payload.
    ///
    /// What comes of it is what the grammar says of the stream's bytes,
    /// however the source hands them over: the format and the samples of
    /// the payload that `scan` finds, or the error with which it fails.
    pub fn new(reader: R) -> (r: Result<Self, WavError>)
        ensures
            match scan(reader.remaining(), reader.broken()) {
                Ok(found) => {
                    &&& r is Ok
                    &&& r->Ok_0@.channels == found.format.channels
                    &&& r->Ok_0@.sample_rate == found.format.sample_rate
                    &&& r->Ok_0@.samples == samples_of(found.payload)
                },
                Err(e) => r is Err && r->Err_0 == e,
            },
    {
        let ghost whole = reader.remaining();
        let ghost broken = reader.broken();
        let mut source = reader;
        let mut scanner = Scanner::new();
        loop
            invariant
                whole == reader.remaining(),
                broken == reader.broken(),
                source.broken() == broken,
                scanner.outcome(source.remaining(), broken) == scan(whole, broken),
            decreases source.remaining().len(), rank(scanner),
        {
            let ghost rest = source.remaining();
            match scanner.demand() {
                Demand::Read(count) => {
                    match read_exact(&mut source, count) {
                        Ok(bytes) => {
                            proof {
                                lemma_read_keeps_outcome(
                                    scanner,
                                    bytes@,
                                    source.remaining(),
                                    broken,
                                );
                                assert(bytes@ + source.remaining() =~= rest);
                            }
                            scanner = scanner.step(Event::Bytes(bytes.as_slice()));
                        },
                        Err(e) => {
                            proof {
                                lemma_short_stream(scanner, rest, broken);
                            }
                            return Err(e);
                        },
                    }
                },
                Demand::Skip(count) => {
                    match skip(&mut source, count) {
                        Ok(_) => {
                            proof {
                                lemma_skip_keeps_outcome(
                                    scanner,
                                    rest.take(count as int),
                                    source.remaining(),
                                    broken,
                                );
                                assert(rest.take(count as int) + source.remaining() =~= rest);
                            }
                            scanner = scanner.step(Event::Skipped);
                        },
                        Err(e) => {
                            proof {
                                lemma_short_stream(scanner, rest, broken);
                            }
                            return Err(e);
                        },
                    }
                },
                Demand::Ready(format) => {
                    return Ok(
                        StreamingWav {
                            reader: source,
                            sample_rate: format.sample_rate,
                            channels: format.channels,
                        },
                    );
                },
                Demand::Refuse(error) => {
                    return Err(error);
                },
            }
        }
    }

    /// The length of the current frame: never known for a stream.
    pub fn current_frame_len(&self) -> (r: Option<usize>)
        ensures
            r is None,
    {
        None
    }

    /// The number of channels that the format chunk gave.
    pub fn channels(&self) -> (r: u16)
        ensures
            r == self@.channels,
    {
        self.channels
    }

    /// The number of samples per second and channel that the format chunk
    /// gave.
    pub fn sample_rate(&self) -> (r: u32)
        ensures
            r == self@.sample_rate,
    {
        self.sample_rate
    }

    /// The playing time of the whole stream: never known ahead of its end.
    pub fn total_duration(&self) -> (r: Option<Duration>)
        ensures
            r is None,
    {
        None
    }

    /// Hands out the next sample, or `None` once the stream holds no full
    /// sample any more, whether it ended or broke off. After `None` the
    /// source stays empty.
    pub fn next(&mut self) -> (r: Option<i16>)
        ensures
            final(self)@.channels == old(self)@.channels,
            final(self)@.sample_rate == old(self)@.sample_rate,
            match r {
                Some(sample) => {
                    &&& old(self)@.samples.len() > 0
                    &&& sample == old(self)@.samples[0]
                    &&& final(self)@.samples == old(self)@.samples.drop_first()
                },
                None => {
                    &&& old(self)@.samples.len() == 0
                    &&& final(self)@.samples.len() == 0
                },
            },
    {
        next_sample(&mut self.reader)
    }
}

} // verus!
