//! Why a stream was refused.

use vstd::prelude::*;

verus! {

/// The reasons for which no audio source is made from a stream.
#[derive(Clone, Copy, Debug, PartialEq, Eq, Structural)]
pub enum WavError {
    /// The stream does not begin with the `RIFF` tag.
    InvalidEnvelope,
    /// The envelope does not name the `WAVE` format.
    InvalidFormatTag,
    /// The format chunk names an encoding other than PCM.
    UnsupportedAudioFormat,
    /// The format chunk names a sample width other than 16 bits.
    UnsupportedBitDepth,
    /// The `data` chunk came before any format chunk.
    MissingFormatChunk,
    /// The stream ended inside the envelope or a chunk.
    UnexpectedEof,
    /// The stream broke off inside the envelope or a chunk.
    IoFailure,
}

impl WavError {
    /// A sentence for the user.
    pub fn message(&self) -> (text: &'static str)
        ensures
            text@ == match *self {
                WavError::InvalidEnvelope => "File is not a valid RIFF format"@,
                WavError::InvalidFormatTag => "File is not a valid WAVE format"@,
                WavError::UnsupportedAudioFormat => "Unsupported audio format (only PCM is supported)"@,
                WavError::UnsupportedBitDepth => "Only 16 bits per sample is supported"@,
                WavError::MissingFormatChunk => "No format chunk before the audio data"@,
                WavError::UnexpectedEof => "failed to fill whole buffer"@,
                WavError::IoFailure => "The stream failed before the audio data"@,
            },
    {
        match self {
            WavError::InvalidEnvelope => "File is not a valid RIFF format",
            WavError::InvalidFormatTag => "File is not a valid WAVE format",
            WavError::UnsupportedAudioFormat => "Unsupported audio format (only PCM is supported)",
            WavError::UnsupportedBitDepth => "Only 16 bits per sample is supported",
            WavError::MissingFormatChunk => "No format chunk before the audio data",
            WavError::UnexpectedEof => "failed to fill whole buffer",
            WavError::IoFailure => "The stream failed before the audio data",
        }
    }
}

} // verus!
