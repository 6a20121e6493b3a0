use alltalk_api::error::WavError;
use alltalk_api::source::{ByteSource, FragmentedSource, MemorySource};
use alltalk_api::StreamingWav;

fn chunk(id: &[u8; 4], body: &[u8]) -> Vec<u8> {
    let mut v = Vec::new();
    v.extend_from_slice(id);
    v.extend_from_slice(&(body.len() as u32).to_le_bytes());
    v.extend_from_slice(body);
    if body.len() % 2 == 1 {
        v.push(0);
    }
    v
}

fn fmt_body(code: u16, channels: u16, rate: u32, bits: u16) -> Vec<u8> {
    let mut v = Vec::new();
    v.extend_from_slice(&code.to_le_bytes());
    v.extend_from_slice(&channels.to_le_bytes());
    v.extend_from_slice(&rate.to_le_bytes());
    let block = channels.wrapping_mul(bits / 8);
    v.extend_from_slice(&rate.wrapping_mul(block as u32).to_le_bytes());
    v.extend_from_slice(&block.to_le_bytes());
    v.extend_from_slice(&bits.to_le_bytes());
    v
}

fn envelope() -> Vec<u8> {
    let mut v = Vec::new();
    v.extend_from_slice(b"RIFF");
    v.extend_from_slice(&36u32.to_le_bytes());
    v.extend_from_slice(b"WAVE");
    v
}

fn container(chunks: &[Vec<u8>], payload: &[u8]) -> Vec<u8> {
    let mut v = envelope();
    for c in chunks {
        v.extend_from_slice(c);
    }
    v.extend_from_slice(b"data");
    v.extend_from_slice(&(payload.len() as u32).to_le_bytes());
    v.extend_from_slice(payload);
    v
}

fn drain<R: ByteSource>(wav: &mut StreamingWav<R>) -> Vec<i16> {
    let mut samples = Vec::new();
    while let Some(s) = wav.next() {
        samples.push(s);
    }
    samples
}

fn refusal(bytes: Vec<u8>) -> WavError {
    match StreamingWav::new(MemorySource::new(bytes)) {
        Ok(_) => panic!("the stream was accepted"),
        Err(e) => e,
    }
}

#[test]
fn stereo_stream_end_to_end() {
    let bytes = container(
        &[chunk(b"fmt ", &fmt_body(1, 2, 44100, 16))],
        &[0x10, 0x00, 0x20, 0x00, 0x30, 0x00, 0x40, 0x00],
    );
    let mut wav = StreamingWav::new(MemorySource::new(bytes)).ok().unwrap();
    assert_eq!(wav.channels(), 2);
    assert_eq!(wav.sample_rate(), 44100);
    assert_eq!(wav.current_frame_len(), None);
    assert_eq!(wav.total_duration(), None);
    assert_eq!(drain(&mut wav), vec![16, 32, 48, 64]);
    assert_eq!(wav.next(), None);
}

#[test]
fn metadata_is_what_the_format_chunk_holds() {
    for (channels, rate) in [(1u16, 8000u32), (2, 48000), (6, 96000), (65535, 4294967295)] {
        let bytes = container(&[chunk(b"fmt ", &fmt_body(1, channels, rate, 16))], &[1, 0]);
        let wav = StreamingWav::new(MemorySource::new(bytes)).ok().unwrap();
        assert_eq!(wav.channels(), channels);
        assert_eq!(wav.sample_rate(), rate);
    }
}

#[test]
fn wrong_envelope_tag_is_refused() {
    let mut bytes = container(&[chunk(b"fmt ", &fmt_body(1, 2, 44100, 16))], &[1, 0]);
    bytes[0] = b'X';
    assert_eq!(refusal(bytes), WavError::InvalidEnvelope);
    let mut both = container(&[], &[]);
    both[3] = b'f';
    both[8] = b'A';
    assert_eq!(refusal(both), WavError::InvalidEnvelope);
    let mut junk = vec![0u8; 12];
    junk.extend_from_slice(&[0xff; 40]);
    assert_eq!(refusal(junk), WavError::InvalidEnvelope);
}

#[test]
fn wrong_format_tag_is_refused() {
    let mut bytes = container(&[chunk(b"fmt ", &fmt_body(1, 2, 44100, 16))], &[1, 0]);
    bytes[11] = b'X';
    assert_eq!(refusal(bytes), WavError::InvalidFormatTag);
    let mut short = Vec::new();
    short.extend_from_slice(b"RIFF\0\0\0\0AVI ");
    assert_eq!(refusal(short), WavError::InvalidFormatTag);
}

#[test]
fn short_envelope_is_an_unexpected_end() {
    assert_eq!(refusal(Vec::new()), WavError::UnexpectedEof);
    assert_eq!(refusal(b"JUNK".to_vec()), WavError::UnexpectedEof);
    assert_eq!(refusal(b"RIFF\0\0\0\0WAV".to_vec()), WavError::UnexpectedEof);
}

#[test]
fn other_encodings_are_refused() {
    for code in [0u16, 2, 3, 6, 7, 0xfffe, 0x0101] {
        for (channels, rate, bits) in [(1u16, 8000u32, 16u16), (2, 44100, 8), (0, 0, 0)] {
            let bytes = container(&[chunk(b"fmt ", &fmt_body(code, channels, rate, bits))], &[1, 0]);
            assert_eq!(refusal(bytes), WavError::UnsupportedAudioFormat);
        }
    }
}

#[test]
fn other_sample_widths_are_refused() {
    for bits in [0u16, 8, 15, 17, 24, 32, 0x1000] {
        let bytes = container(&[chunk(b"fmt ", &fmt_body(1, 2, 44100, bits))], &[1, 0]);
        assert_eq!(refusal(bytes), WavError::UnsupportedBitDepth);
    }
}

#[test]
fn format_chunk_too_short_for_its_fields_is_refused() {
    let none = container(&[chunk(b"fmt ", &[])], &[1, 0]);
    assert_eq!(refusal(none), WavError::UnsupportedAudioFormat);
    let mut cut = envelope();
    cut.extend_from_slice(b"fmt ");
    cut.extend_from_slice(&8u32.to_le_bytes());
    cut.extend_from_slice(&fmt_body(1, 2, 44100, 16)[..8]);
    cut.extend_from_slice(&chunk(b"data", &[1, 0]));
    assert_eq!(refusal(cut), WavError::UnsupportedBitDepth);
}

#[test]
fn longer_format_chunk_is_accepted() {
    let mut body = fmt_body(1, 1, 22050, 16);
    body.extend_from_slice(&[0, 0]);
    let bytes = container(&[chunk(b"fmt ", &body)], &[5, 0]);
    let mut wav = StreamingWav::new(MemorySource::new(bytes)).ok().unwrap();
    assert_eq!(wav.channels(), 1);
    assert_eq!(wav.sample_rate(), 22050);
    assert_eq!(drain(&mut wav), vec![5]);
}

#[test]
fn payload_before_any_format_is_refused() {
    assert_eq!(refusal(container(&[], &[1, 0, 2, 0])), WavError::MissingFormatChunk);
    let late = container(&[chunk(b"LIST", b"abcd")], &[1, 0]);
    assert_eq!(refusal(late), WavError::MissingFormatChunk);
}

#[test]
fn stream_that_ends_early_is_refused() {
    let whole = container(&[chunk(b"fmt ", &fmt_body(1, 2, 44100, 16))], &[]);
    for cut in 12..whole.len() {
        assert_eq!(refusal(whole[..cut].to_vec()), WavError::UnexpectedEof);
    }
    let no_data = {
        let mut v = envelope();
        v.extend_from_slice(&chunk(b"fmt ", &fmt_body(1, 2, 44100, 16)));
        v.extend_from_slice(&chunk(b"LIST", b"abc"));
        v
    };
    assert_eq!(refusal(no_data.clone()), WavError::UnexpectedEof);
    assert_eq!(refusal(no_data[..no_data.len() - 1].to_vec()), WavError::UnexpectedEof);
}

#[test]
fn stream_that_breaks_is_an_io_failure() {
    let whole = container(&[chunk(b"fmt ", &fmt_body(1, 2, 44100, 16))], &[]);
    for cut in 0..whole.len() {
        let r = StreamingWav::new(MemorySource::failing(whole[..cut].to_vec()));
        assert_eq!(r.err(), Some(WavError::IoFailure));
    }
    let mut bad = whole.clone();
    bad[0] = b'r';
    let r = StreamingWav::new(MemorySource::failing(bad));
    assert_eq!(r.err(), Some(WavError::InvalidEnvelope));
}

#[test]
fn broken_payload_ends_the_samples_quietly() {
    let bytes = container(&[chunk(b"fmt ", &fmt_body(1, 1, 8000, 16))], &[1, 0, 2, 0, 3]);
    let mut wav = StreamingWav::new(MemorySource::failing(bytes)).ok().unwrap();
    assert_eq!(wav.next(), Some(1));
    assert_eq!(wav.next(), Some(2));
    assert_eq!(wav.next(), None);
    assert_eq!(wav.next(), None);
}

#[test]
fn unknown_chunks_change_nothing() {
    let payload = [0x01, 0x00, 0xff, 0xff, 0x00, 0x80, 0xff, 0x7f];
    let fmt = chunk(b"fmt ", &fmt_body(1, 2, 48000, 16));
    let plain = container(&[fmt.clone()], &payload);
    let mut base = StreamingWav::new(MemorySource::new(plain)).ok().unwrap();
    let expected = drain(&mut base);
    assert_eq!(expected, vec![1, -1, -32768, 32767]);
    let even = chunk(b"LIST", b"INFOabcd");
    let odd = chunk(b"junk", b"abcde");
    let empty = chunk(b"fact", b"");
    assert_eq!(even.len(), 16);
    assert_eq!(odd.len(), 14);
    let layouts: Vec<Vec<Vec<u8>>> = vec![
        vec![even.clone(), fmt.clone()],
        vec![odd.clone(), fmt.clone()],
        vec![fmt.clone(), even.clone()],
        vec![fmt.clone(), odd.clone()],
        vec![fmt.clone(), empty.clone()],
        vec![odd.clone(), even.clone(), fmt.clone(), empty.clone(), odd.clone()],
    ];
    for chunks in layouts {
        let bytes = container(&chunks, &payload);
        let mut wav = StreamingWav::new(MemorySource::new(bytes)).ok().unwrap();
        assert_eq!(wav.channels(), 2);
        assert_eq!(wav.sample_rate(), 48000);
        assert_eq!(drain(&mut wav), expected);
    }
}

#[test]
fn large_unknown_chunk_is_skipped() {
    let body = vec![0xabu8; 20001];
    let bytes = container(
        &[chunk(b"fmt ", &fmt_body(1, 1, 8000, 16)), chunk(b"PAD ", &body)],
        &[9, 0],
    );
    let mut wav = StreamingWav::new(MemorySource::new(bytes.clone())).ok().unwrap();
    assert_eq!(drain(&mut wav), vec![9]);
    let mut slow = StreamingWav::new(FragmentedSource::new(bytes)).ok().unwrap();
    assert_eq!(drain(&mut slow), vec![9]);
}

#[test]
fn odd_chunk_without_its_padding_is_misread() {
    let mut bytes = envelope();
    bytes.extend_from_slice(&chunk(b"fmt ", &fmt_body(1, 1, 8000, 16)));
    bytes.extend_from_slice(b"junk");
    bytes.extend_from_slice(&1u32.to_le_bytes());
    bytes.push(7);
    bytes.extend_from_slice(&chunk(b"data", &[1, 0]));
    assert_eq!(refusal(bytes), WavError::UnexpectedEof);
}

#[test]
fn later_format_chunk_replaces_an_earlier_one() {
    let bytes = container(
        &[chunk(b"fmt ", &fmt_body(1, 1, 8000, 16)), chunk(b"fmt ", &fmt_body(1, 2, 16000, 16))],
        &[],
    );
    let wav = StreamingWav::new(MemorySource::new(bytes)).ok().unwrap();
    assert_eq!(wav.channels(), 2);
    assert_eq!(wav.sample_rate(), 16000);
}

#[test]
fn empty_payload_has_no_samples() {
    let bytes = container(&[chunk(b"fmt ", &fmt_body(1, 2, 44100, 16))], &[]);
    let mut wav = StreamingWav::new(MemorySource::new(bytes)).ok().unwrap();
    assert_eq!(wav.next(), None);
    assert_eq!(wav.next(), None);
}

#[test]
fn size_of_the_payload_chunk_is_not_looked_at() {
    let mut bytes = envelope();
    bytes.extend_from_slice(&chunk(b"fmt ", &fmt_body(1, 1, 8000, 16)));
    bytes.extend_from_slice(b"data");
    bytes.extend_from_slice(&0u32.to_le_bytes());
    bytes.extend_from_slice(&[3, 0, 4, 0]);
    let mut wav = StreamingWav::new(MemorySource::new(bytes)).ok().unwrap();
    assert_eq!(drain(&mut wav), vec![3, 4]);
}

#[test]
fn last_byte_without_a_partner_is_dropped() {
    let bytes = container(&[chunk(b"fmt ", &fmt_body(1, 1, 8000, 16))], &[1, 0, 2]);
    let mut wav = StreamingWav::new(MemorySource::new(bytes)).ok().unwrap();
    assert_eq!(wav.next(), Some(1));
    assert_eq!(wav.next(), None);
    assert_eq!(wav.next(), None);
}

#[test]
fn fragmented_reader_yields_the_same_samples() {
    let bytes = container(
        &[chunk(b"fmt ", &fmt_body(1, 1, 22050, 16))],
        &[0x01, 0x00, 0x02, 0x00],
    );
    let mut whole = StreamingWav::new(MemorySource::new(bytes.clone())).ok().unwrap();
    let mut pieces = StreamingWav::new(FragmentedSource::new(bytes)).ok().unwrap();
    assert_eq!(pieces.channels(), 1);
    assert_eq!(pieces.sample_rate(), 22050);
    assert_eq!(whole.channels(), 1);
    assert_eq!(whole.sample_rate(), 22050);
    assert_eq!(drain(&mut pieces), vec![1, 2]);
    assert_eq!(drain(&mut whole), vec![1, 2]);
}

#[test]
fn fragmented_reader_agrees_on_every_layout() {
    let payload: Vec<u8> = (0..=255u8).collect();
    let streams = vec![
        container(&[chunk(b"fmt ", &fmt_body(1, 2, 44100, 16))], &payload),
        container(&[chunk(b"junk", b"abc"), chunk(b"fmt ", &fmt_body(1, 2, 44100, 16))], &payload),
        container(&[chunk(b"fmt ", &fmt_body(1, 2, 44100, 16)), chunk(b"LIST", b"wxyz")], &payload[..33]),
        container(&[chunk(b"fmt ", &fmt_body(3, 2, 44100, 16))], &payload),
        container(&[], &payload),
        b"RIFF\0\0\0\0WAVEfmt ".to_vec(),
        b"RIFX\0\0\0\0WAVEfmt ".to_vec(),
    ];
    for bytes in streams {
        let a = StreamingWav::new(MemorySource::new(bytes.clone()));
        let b = StreamingWav::new(FragmentedSource::new(bytes));
        match (a, b) {
            (Ok(mut a), Ok(mut b)) => {
                assert_eq!(a.channels(), b.channels());
                assert_eq!(a.sample_rate(), b.sample_rate());
                assert_eq!(drain(&mut a), drain(&mut b));
            }
            (Err(a), Err(b)) => assert_eq!(a, b),
            _ => panic!("the two readers disagree"),
        }
    }
}
