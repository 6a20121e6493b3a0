//! Client-side logic for a text-to-speech server that streams its speech
//! as 16-bit PCM in a RIFF/WAVE container.
//!
//! The heart of the crate is a decoder that never holds more of a stream
//! than the piece it is looking at:
//!
//! - [`source`] is the capability that input is pulled from, with sources
//!   over bytes in memory;
//! - [`format`] decodes the fixed-size pieces of the container;
//! - [`scanner`] holds the container's grammar and the state machine that
//!   walks it one read at a time, for callers that do the reading
//!   themselves;
//! - [`streaming_wav`] and [`streaming_source`] turn a source into a
//!   sequence of samples;
//! - [`laws`] states what the grammar says of streams of a given shape;
//! - [`client`] reads the server's answers to control requests.

pub mod client;
pub mod error;
pub mod format;
pub mod laws;
pub mod le;
pub mod samples;
pub mod scanner;
pub mod source;
pub mod streaming_source;
pub mod streaming_wav;

pub use client::SetValueResponse;
pub use streaming_source::StreamingSource;
pub use streaming_wav::StreamingWav;
