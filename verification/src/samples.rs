//! The sample sequence that a run of payload bytes stands for.

use vstd::prelude::*;
use crate::le::{i16_from_le, le_i16};
use crate::source::{read_exact, ByteSource};

verus! {

/// What an audio source stands for: its format and the samples it has yet to
/// hand out.
pub struct AudioView {
    pub channels: u16,
    pub sample_rate: u32,
    pub samples: Seq<i16>,
}

/// The samples held in `bytes`: one for each full pair of bytes, low byte
/// first. A last byte without a partner stands for nothing.
pub open spec fn samples_of(bytes: Seq<u8>) -> Seq<i16> {
    Seq::new(bytes.len() / 2, |i: int| le_i16(bytes[2 * i], bytes[2 * i + 1]) as i16)
}

/// Taking two bytes off the front of the payload takes the first sample off
/// the sequence.
pub proof fn lemma_samples_step(bytes: Seq<u8>)
    requires
        bytes.len() >= 2,
    ensures
        samples_of(bytes).len() > 0,
        samples_of(bytes)[0] as int == le_i16(bytes[0], bytes[1]),
        samples_of(bytes.skip(2)) == samples_of(bytes).drop_first(),
{
    assert(samples_of(bytes.skip(2)) =~= samples_of(bytes).drop_first());
}

/// Pulls the next sample out of `source`.
///
/// The stream's first two bytes are taken and decoded. A stream that has
/// fewer than two bytes left is used up, and there is no sample: how it ended
/// is not reported.
pub fn next_sample<R: ByteSource>(source: &mut R) -> (r: Option<i16>)
    ensures
        final(source).broken() == old(source).broken(),
        match r {
            Some(sample) => {
                &&& samples_of(old(source).remaining()).len() > 0
                &&& sample == samples_of(old(source).remaining())[0]
                &&& final(source).remaining() == old(source).remaining().skip(2)
                &&& samples_of(final(source).remaining()) == samples_of(
                    old(source).remaining(),
                ).drop_first()
            },
            None => {
                &&& samples_of(old(source).remaining()).len() == 0
                &&& final(source).remaining().len() == 0
            },
        },
{
    proof {
        if source.remaining().len() >= 2 {
            lemma_samples_step(source.remaining());
        }
    }
    match read_exact(source, 2) {
        Ok(pair) => Some(i16_from_le(pair[0], pair[1])),
        Err(_) => None,
    }
}

} // verus!
