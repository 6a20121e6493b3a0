//! The fixed-size pieces of the container: envelope, chunk header and format
//! descriptor.

use vstd::prelude::*;
use crate::error::WavError;
use crate::le::{le_u16, le_u32, u16_from_le, u32_from_le};

verus! {

/// The four bytes `RIFF`, with which the envelope begins.
pub const RIFF: [u8; 4] = [0x52, 0x49, 0x46, 0x46];

/// The four bytes `WAVE`, with which the envelope ends.
pub const WAVE: [u8; 4] = [0x57, 0x41, 0x56, 0x45];

/// The identifier of the format chunk, `fmt `.
pub const FMT: [u8; 4] = [0x66, 0x6d, 0x74, 0x20];

/// The identifier of the payload chunk, `data`.
pub const DATA: [u8; 4] = [0x64, 0x61, 0x74, 0x61];

/// The audio-format code of uncompressed PCM.
pub const PCM: u16 = 1;

/// The only sample width that is decoded.
pub const BITS_PER_SAMPLE: u16 = 16;

/// The length of the envelope.
pub const ENVELOPE_LEN: usize = 12;

/// The length of a chunk header.
pub const CHUNK_HEADER_LEN: usize = 8;

/// Whether the four bytes of `bytes` from `at` on are those of `tag`.
pub fn tag_at(bytes: &[u8], at: usize, tag: &[u8; 4]) -> (same: bool)
    requires
        at + 4 <= bytes@.len(),
    ensures
        same == (bytes@.subrange(at as int, at + 4) == tag@),
{
    let same = bytes[at] == tag[0] && bytes[at + 1] == tag[1] && bytes[at + 2] == tag[2] && bytes[at
        + 3] == tag[3];
    proof {
        let part = bytes@.subrange(at as int, at + 4);
        if same {
            assert(part =~= tag@);
        } else {
            assert(part[0] == bytes@[at as int]);
            assert(part[1] == bytes@[at + 1]);
            assert(part[2] == bytes@[at + 2]);
            assert(part[3] == bytes@[at + 3]);
        }
    }
    same
}

/// The envelope: the twelve bytes with which the container begins.
#[derive(Clone, Copy, Debug, PartialEq, Eq)]
pub struct ContainerHeader {
    pub envelope: [u8; 4],
    pub total_size: u32,
    pub format: [u8; 4],
}

/// What is wrong with the twelve bytes of an envelope, if anything: the
/// first tag is looked at before the second.
pub open spec fn envelope_fault(bytes: Seq<u8>) -> Option<WavError> {
    if bytes.subrange(0, 4) != RIFF@ {
        Some(WavError::InvalidEnvelope)
    } else if bytes.subrange(8, 12) != WAVE@ {
        Some(WavError::InvalidFormatTag)
    } else {
        None
    }
}

impl ContainerHeader {
    /// Both tags are the ones that the container asks for.
    pub open spec fn wf(&self) -> bool {
        self.envelope@ == RIFF@ && self.format@ == WAVE@
    }

    /// Checks the twelve bytes of an envelope. The size field is kept and
    /// not looked at.
    pub fn parse(bytes: &[u8]) -> (r: Result<ContainerHeader, WavError>)
        requires
            bytes@.len() == ENVELOPE_LEN,
        ensures
            match r {
                Ok(header) => {
                    &&& envelope_fault(bytes@) is None
                    &&& header.wf()
                    &&& header.total_size as int == le_u32(bytes@[4], bytes@[5], bytes@[6], bytes@[7])
                },
                Err(e) => envelope_fault(bytes@) == Some(e),
            },
    {
        if !tag_at(bytes, 0, &RIFF) {
            return Err(WavError::InvalidEnvelope);
        }
        if !tag_at(bytes, 8, &WAVE) {
            return Err(WavError::InvalidFormatTag);
        }
        Ok(
            ContainerHeader {
                envelope: RIFF,
                total_size: u32_from_le(bytes[4], bytes[5], bytes[6], bytes[7]),
                format: WAVE,
            },
        )
    }
}

/// What a chunk is to the scanner.
#[derive(Clone, Copy, Debug, PartialEq, Eq, Structural)]
pub enum ChunkKind {
    /// The format chunk.
    Format,
    /// The payload chunk.
    Data,
    /// Any other chunk: it is passed over.
    Other,
}

/// The kind of the chunk with identifier `id`.
pub open spec fn kind_of(id: Seq<u8>) -> ChunkKind {
    if id == FMT@ {
        ChunkKind::Format
    } else if id == DATA@ {
        ChunkKind::Data
    } else {
        ChunkKind::Other
    }
}

/// The number of bytes that a chunk of `size` payload bytes takes up after
/// its header: chunks are aligned to even offsets, so an odd payload is
/// followed by one padding byte.
pub open spec fn padded(size: int) -> int {
    size + size % 2
}

/// The eight bytes in front of every chunk.
#[derive(Clone, Copy, Debug, PartialEq, Eq)]
pub struct ChunkHeader {
    pub id: [u8; 4],
    pub size: u32,
}

impl ChunkHeader {
    /// Decodes the eight bytes of a chunk header.
    pub fn parse(bytes: &[u8]) -> (header: ChunkHeader)
        requires
            bytes@.len() == CHUNK_HEADER_LEN,
        ensures
            header.id@ == bytes@.subrange(0, 4),
            header.size as int == le_u32(bytes@[4], bytes@[5], bytes@[6], bytes@[7]),
    {
        let id: [u8; 4] = [bytes[0], bytes[1], bytes[2], bytes[3]];
        assert(id@ =~= bytes@.subrange(0, 4));
        ChunkHeader { id, size: u32_from_le(bytes[4], bytes[5], bytes[6], bytes[7]) }
    }

    /// Tells the format chunk and the payload chunk from all others.
    pub fn kind(&self) -> (kind: ChunkKind)
        ensures
            kind == kind_of(self.id@),
    {
        let id = self.id.as_slice();
        assert(id@.subrange(0, 4) =~= self.id@);
        if tag_at(id, 0, &FMT) {
            ChunkKind::Format
        } else if tag_at(id, 0, &DATA) {
            ChunkKind::Data
        } else {
            ChunkKind::Other
        }
    }

    /// The number of bytes to pass over in order to reach the next header:
    /// the payload and, after an odd one, its padding byte.
    pub fn padded_size(&self) -> (count: u64)
        ensures
            count as int == padded(self.size as int),
    {
        let size: u64 = self.size as u64;
        size + size % 2
    }
}

/// The encoding parameters that the format chunk carries.
#[derive(Clone, Copy, Debug, PartialEq, Eq, Structural)]
pub struct FormatDescriptor {
    pub audio_format: u16,
    pub channels: u16,
    pub sample_rate: u32,
    pub bits_per_sample: u16,
}

/// What the payload of a format chunk says.
///
/// The encoding is looked at first and the sample width second; a payload
/// that is too short to hold a field does not pass the check of that field.
/// Nothing else in the payload has a say.
pub open spec fn format_of(payload: Seq<u8>) -> Result<FormatDescriptor, WavError> {
    if payload.len() < 2 || le_u16(payload[0], payload[1]) != PCM {
        Err(WavError::UnsupportedAudioFormat)
    } else if payload.len() < 16 || le_u16(payload[14], payload[15]) != BITS_PER_SAMPLE {
        Err(WavError::UnsupportedBitDepth)
    } else {
        Ok(
            FormatDescriptor {
                audio_format: PCM,
                channels: le_u16(payload[2], payload[3]) as u16,
                sample_rate: le_u32(payload[4], payload[5], payload[6], payload[7]) as u32,
                bits_per_sample: BITS_PER_SAMPLE,
            },
        )
    }
}

impl FormatDescriptor {
    /// The encoding is 16-bit PCM.
    pub open spec fn wf(&self) -> bool {
        self.audio_format == PCM && self.bits_per_sample == BITS_PER_SAMPLE
    }

    /// Decodes and checks the payload of a format chunk.
    pub fn parse(payload: &[u8]) -> (r: Result<FormatDescriptor, WavError>)
        ensures
            r == format_of(payload@),
            r is Ok ==> r->Ok_0.wf(),
    {
        if payload.len() < 2 {
            return Err(WavError::UnsupportedAudioFormat);
        }
        let audio_format = u16_from_le(payload[0], payload[1]);
        if audio_format != PCM {
            return Err(WavError::UnsupportedAudioFormat);
        }
        if payload.len() < 16 {
            return Err(WavError::UnsupportedBitDepth);
        }
        let channels = u16_from_le(payload[2], payload[3]);
        let sample_rate = u32_from_le(payload[4], payload[5], payload[6], payload[7]);
        let bits_per_sample = u16_from_le(payload[14], payload[15]);
        if bits_per_sample != BITS_PER_SAMPLE {
            return Err(WavError::UnsupportedBitDepth);
        }
        Ok(FormatDescriptor { audio_format, channels, sample_rate, bits_per_sample })
    }
}

} // verus!
