//! What holds of every stream: the grammar's answers on streams of a given
//! shape.

use vstd::prelude::*;
use crate::error::WavError;
use crate::format::{
    envelope_fault, format_of, kind_of, padded, ChunkKind, FormatDescriptor, BITS_PER_SAMPLE,
    DATA, FMT, PCM, RIFF, WAVE,
};
use crate::le::{le_u16, le_u32};
use crate::samples::samples_of;
use crate::scanner::{scan, scan_chunks, Located};

verus! {

/// The size that the eight bytes of a chunk header give.
pub open spec fn size_in(header: Seq<u8>) -> int {
    le_u32(header[4], header[5], header[6], header[7])
}

/// Behind an envelope that passes, the stream is read as chunks, with no
/// format seen yet; behind one that does not, the stream is refused for the
/// envelope's fault.
pub proof fn lemma_envelope_then_chunks(envelope: Seq<u8>, rest: Seq<u8>, broken: bool)
    requires
        envelope.len() == 12,
    ensures
        scan(envelope + rest, broken) == match envelope_fault(envelope) {
            Some(e) => Err::<Located, WavError>(e),
            None => scan_chunks(rest, None, broken),
        },
{
    let whole = envelope + rest;
    assert(whole.take(12) =~= envelope);
    assert(whole.skip(12) =~= rest);
}

/// A stream of twelve bytes or more that does not begin with `RIFF` is
/// refused as `InvalidEnvelope`, whatever else it holds.
pub proof fn lemma_wrong_envelope_tag(bytes: Seq<u8>, broken: bool)
    requires
        bytes.len() >= 12,
        bytes.subrange(0, 4) != RIFF@,
    ensures
        scan(bytes, broken) == Err::<Located, WavError>(WavError::InvalidEnvelope),
{
    assert(bytes.take(12).subrange(0, 4) =~= bytes.subrange(0, 4));
}

/// A stream of twelve bytes or more that begins with `RIFF` and does not
/// name `WAVE` in its ninth to twelfth byte is refused as
/// `InvalidFormatTag`, whatever else it holds.
pub proof fn lemma_wrong_format_tag(bytes: Seq<u8>, broken: bool)
    requires
        bytes.len() >= 12,
        bytes.subrange(0, 4) == RIFF@,
        bytes.subrange(8, 12) != WAVE@,
    ensures
        scan(bytes, broken) == Err::<Located, WavError>(WavError::InvalidFormatTag),
{
    assert(bytes.take(12).subrange(0, 4) =~= bytes.subrange(0, 4));
    assert(bytes.take(12).subrange(8, 12) =~= bytes.subrange(8, 12));
}

/// A format chunk that is whole is decoded on the spot: its fault refuses
/// the stream, and without one the scan goes on behind it with its format,
/// whatever format was seen before.
pub proof fn lemma_format_chunk(
    header: Seq<u8>,
    payload: Seq<u8>,
    rest: Seq<u8>,
    seen: Option<FormatDescriptor>,
    broken: bool,
)
    requires
        header.len() == 8,
        kind_of(header.subrange(0, 4)) == ChunkKind::Format,
        size_in(header) == payload.len(),
    ensures
        scan_chunks(header + payload + rest, seen, broken) == match format_of(payload) {
            Ok(found) => scan_chunks(rest, Some(found), broken),
            Err(e) => Err::<Located, WavError>(e),
        },
{
    reveal(scan_chunks);
    let whole = header + payload + rest;
    assert(whole.subrange(0, 4) =~= header.subrange(0, 4));
    let body = whole.skip(8);
    assert(body =~= payload + rest);
    assert(body.take(payload.len() as int) =~= payload);
    assert(body.skip(payload.len() as int) =~= rest);
}

/// The payload chunk ends the scan: with a format seen, the stream is
/// accepted in that format and everything behind the chunk's header is the
/// payload; with none, the stream is refused as `MissingFormatChunk`.
pub proof fn lemma_data_chunk(
    header: Seq<u8>,
    rest: Seq<u8>,
    seen: Option<FormatDescriptor>,
    broken: bool,
)
    requires
        header.len() == 8,
        kind_of(header.subrange(0, 4)) == ChunkKind::Data,
    ensures
        scan_chunks(header + rest, seen, broken) == match seen {
            Some(format) => Ok::<Located, WavError>(Located { format, payload: rest }),
            None => Err::<Located, WavError>(WavError::MissingFormatChunk),
        },
{
    reveal(scan_chunks);
    let whole = header + rest;
    assert(whole.subrange(0, 4) =~= header.subrange(0, 4));
    assert(whole.skip(8) =~= rest);
}

/// A chunk that is neither the format nor the payload chunk, put in at a
/// chunk boundary with the padding byte that an odd size asks for, changes
/// nothing: the stream is accepted or refused as without it, in the same
/// format and with the same payload.
pub proof fn lemma_unknown_chunk_is_passed_over(
    header: Seq<u8>,
    body: Seq<u8>,
    rest: Seq<u8>,
    seen: Option<FormatDescriptor>,
    broken: bool,
)
    requires
        header.len() == 8,
        kind_of(header.subrange(0, 4)) == ChunkKind::Other,
        body.len() == padded(size_in(header)),
    ensures
        scan_chunks(header + body + rest, seen, broken) == scan_chunks(rest, seen, broken),
{
    reveal(scan_chunks);
    let whole = header + body + rest;
    assert(whole.subrange(0, 4) =~= header.subrange(0, 4));
    assert(whole.skip(8) =~= body + rest);
    assert((body + rest).skip(body.len() as int) =~= rest);
}

/// The same directly behind the envelope: a stream with such a chunk there
/// is read as the stream without it.
pub proof fn lemma_unknown_chunk_after_envelope(
    envelope: Seq<u8>,
    header: Seq<u8>,
    body: Seq<u8>,
    rest: Seq<u8>,
    broken: bool,
)
    requires
        envelope.len() == 12,
        header.len() == 8,
        kind_of(header.subrange(0, 4)) == ChunkKind::Other,
        body.len() == padded(size_in(header)),
    ensures
        scan(envelope + (header + body + rest), broken) == scan(envelope + rest, broken),
{
    lemma_envelope_then_chunks(envelope, header + body + rest, broken);
    lemma_envelope_then_chunks(envelope, rest, broken);
    lemma_unknown_chunk_is_passed_over(header, body, rest, None, broken);
}

/// The same between the format chunk and what follows it.
pub proof fn lemma_unknown_chunk_after_format(
    envelope: Seq<u8>,
    format_header: Seq<u8>,
    format: Seq<u8>,
    header: Seq<u8>,
    body: Seq<u8>,
    rest: Seq<u8>,
    broken: bool,
)
    requires
        envelope.len() == 12,
        format_header.len() == 8,
        kind_of(format_header.subrange(0, 4)) == ChunkKind::Format,
        size_in(format_header) == format.len(),
        header.len() == 8,
        kind_of(header.subrange(0, 4)) == ChunkKind::Other,
        body.len() == padded(size_in(header)),
    ensures
        scan(envelope + (format_header + format + (header + body + rest)), broken) == scan(
            envelope + (format_header + format + rest),
            broken,
        ),
{
    lemma_envelope_then_chunks(envelope, format_header + format + (header + body + rest), broken);
    lemma_envelope_then_chunks(envelope, format_header + format + rest, broken);
    lemma_format_chunk(format_header, format, header + body + rest, None, broken);
    lemma_format_chunk(format_header, format, rest, None, broken);
    match format_of(format) {
        Ok(found) => {
            lemma_unknown_chunk_is_passed_over(header, body, rest, Some(found), broken);
        },
        Err(_) => {},
    }
}

/// A payload of a format chunk whose audio-format code is not that of PCM
/// is refused as `UnsupportedAudioFormat`, whatever its other fields hold.
pub proof fn lemma_not_pcm(payload: Seq<u8>)
    requires
        payload.len() >= 2,
        le_u16(payload[0], payload[1]) != PCM,
    ensures
        format_of(payload) == Err::<FormatDescriptor, WavError>(WavError::UnsupportedAudioFormat),
{
}

/// A payload of a format chunk that says PCM and a sample width other than
/// 16 bits is refused as `UnsupportedBitDepth`.
pub proof fn lemma_not_16_bits(payload: Seq<u8>)
    requires
        payload.len() >= 16,
        le_u16(payload[0], payload[1]) == PCM,
        le_u16(payload[14], payload[15]) != BITS_PER_SAMPLE,
    ensures
        format_of(payload) == Err::<FormatDescriptor, WavError>(WavError::UnsupportedBitDepth),
{
}

/// A payload of a format chunk that says 16-bit PCM is accepted, with the
/// channel count and the sample rate that it holds.
pub proof fn lemma_pcm_16_bits(payload: Seq<u8>)
    requires
        payload.len() >= 16,
        le_u16(payload[0], payload[1]) == PCM,
        le_u16(payload[14], payload[15]) == BITS_PER_SAMPLE,
    ensures
        format_of(payload) is Ok,
        format_of(payload)->Ok_0.wf(),
        format_of(payload)->Ok_0.channels as int == le_u16(payload[2], payload[3]),
        format_of(payload)->Ok_0.sample_rate as int == le_u32(
            payload[4],
            payload[5],
            payload[6],
            payload[7],
        ),
{
}

/// A stream whose first format chunk is whole and at fault is refused for
/// that fault, whatever follows the chunk: as `UnsupportedAudioFormat` where
/// the chunk does not say PCM, as `UnsupportedBitDepth` where it says PCM in
/// another width than 16 bits.
pub proof fn lemma_unsupported_stream(
    envelope: Seq<u8>,
    format_header: Seq<u8>,
    format: Seq<u8>,
    rest: Seq<u8>,
    broken: bool,
)
    requires
        envelope.len() == 12,
        envelope_fault(envelope) is None,
        format_header.len() == 8,
        kind_of(format_header.subrange(0, 4)) == ChunkKind::Format,
        size_in(format_header) == format.len(),
        format_of(format) is Err,
    ensures
        scan(envelope + (format_header + format + rest), broken) == Err::<Located, WavError>(
            format_of(format)->Err_0,
        ),
{
    lemma_envelope_then_chunks(envelope, format_header + format + rest, broken);
    lemma_format_chunk(format_header, format, rest, None, broken);
}

/// A stream made of an envelope that passes, a format chunk that says
/// 16-bit PCM and the payload chunk is accepted: in the format that the
/// format chunk holds, and with all that follows the payload chunk's header
/// as the payload.
pub proof fn lemma_valid_stream(
    envelope: Seq<u8>,
    format_header: Seq<u8>,
    format: Seq<u8>,
    data_header: Seq<u8>,
    payload: Seq<u8>,
    broken: bool,
)
    requires
        envelope.len() == 12,
        envelope_fault(envelope) is None,
        format_header.len() == 8,
        kind_of(format_header.subrange(0, 4)) == ChunkKind::Format,
        size_in(format_header) == format.len(),
        format.len() >= 16,
        le_u16(format[0], format[1]) == PCM,
        le_u16(format[14], format[15]) == BITS_PER_SAMPLE,
        data_header.len() == 8,
        kind_of(data_header.subrange(0, 4)) == ChunkKind::Data,
    ensures
        scan(envelope + (format_header + format + (data_header + payload)), broken) matches Ok(
            found,
        ) && {
            &&& found.payload == payload
            &&& found.format.channels as int == le_u16(format[2], format[3])
            &&& found.format.sample_rate as int == le_u32(
                format[4],
                format[5],
                format[6],
                format[7],
            )
        },
{
    lemma_envelope_then_chunks(envelope, format_header + format + (data_header + payload), broken);
    lemma_format_chunk(format_header, format, data_header + payload, None, broken);
    lemma_pcm_16_bits(format);
    lemma_data_chunk(data_header, payload, Some(format_of(format)->Ok_0), broken);
}

/// A payload of no bytes holds no sample.
pub proof fn lemma_empty_payload()
    ensures
        samples_of(Seq::<u8>::empty()) == Seq::<i16>::empty(),
{
    assert(samples_of(Seq::<u8>::empty()) =~= Seq::<i16>::empty());
}

/// A stream that ends with the header of its payload chunk is accepted like
/// any other, and holds no sample.
pub proof fn lemma_empty_data_chunk(
    envelope: Seq<u8>,
    format_header: Seq<u8>,
    format: Seq<u8>,
    data_header: Seq<u8>,
    broken: bool,
)
    requires
        envelope.len() == 12,
        envelope_fault(envelope) is None,
        format_header.len() == 8,
        kind_of(format_header.subrange(0, 4)) == ChunkKind::Format,
        size_in(format_header) == format.len(),
        format.len() >= 16,
        le_u16(format[0], format[1]) == PCM,
        le_u16(format[14], format[15]) == BITS_PER_SAMPLE,
        data_header.len() == 8,
        kind_of(data_header.subrange(0, 4)) == ChunkKind::Data,
    ensures
        scan(envelope + (format_header + format + data_header), broken) matches Ok(found)
            && samples_of(found.payload) == Seq::<i16>::empty(),
{
    lemma_valid_stream(envelope, format_header, format, data_header, Seq::empty(), broken);
    assert(data_header + Seq::<u8>::empty() =~= data_header);
    lemma_empty_payload();
}

} // verus!
