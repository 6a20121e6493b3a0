//! Finding the payload: the container's grammar, and the scanner that walks
//! it one read at a time.

use vstd::prelude::*;
use crate::error::WavError;
use crate::format::{
    envelope_fault, format_of, kind_of, padded, ChunkHeader, ChunkKind, ContainerHeader,
    FormatDescriptor, CHUNK_HEADER_LEN, ENVELOPE_LEN,
};
use crate::le::le_u32;
use crate::source::end_failure;

verus! {

/// A payload that was found: its format, and the bytes from its first one to
/// the end of the stream.
pub struct Located {
    pub format: FormatDescriptor,
    pub payload: Seq<u8>,
}

/// What a stream holds from a chunk boundary on.
///
/// `bytes` begins with a chunk header, `format` is what the last format
/// chunk before it said, and `broken` tells how the stream ends. Format
/// chunks are decoded, and a later one replaces an earlier one; other chunks
/// are passed over with their padding; the first `data` chunk ends the
/// search, whatever its size field says, and needs a format to have been
/// seen. A stream that ends before that fails the way `end_failure` says.
#[verifier::opaque]
pub open spec fn scan_chunks(bytes: Seq<u8>, format: Option<FormatDescriptor>, broken: bool)
    -> Result<Located, WavError>
    decreases bytes.len(),
{
    if bytes.len() < 8 {
        Err(end_failure(broken))
    } else {
        let size = le_u32(bytes[4], bytes[5], bytes[6], bytes[7]);
        let body = bytes.skip(8);
        match kind_of(bytes.subrange(0, 4)) {
            ChunkKind::Format => {
                if body.len() < size {
                    Err(end_failure(broken))
                } else {
                    match format_of(body.take(size)) {
                        Ok(found) => scan_chunks(body.skip(size), Some(found), broken),
                        Err(e) => Err(e),
                    }
                }
            },
            ChunkKind::Data => {
                match format {
                    Some(found) => Ok(Located { format: found, payload: body }),
                    None => Err(WavError::MissingFormatChunk),
                }
            },
            ChunkKind::Other => {
                if body.len() < padded(size) {
                    Err(end_failure(broken))
                } else {
                    scan_chunks(body.skip(padded(size)), format, broken)
                }
            },
        }
    }
}

/// What a whole stream holds: the envelope, then chunks up to the payload.
pub open spec fn scan(bytes: Seq<u8>, broken: bool) -> Result<Located, WavError> {
    if bytes.len() < 12 {
        Err(end_failure(broken))
    } else {
        match envelope_fault(bytes.take(12)) {
            Some(e) => Err(e),
            None => scan_chunks(bytes.skip(12), None, broken),
        }
    }
}

/// What the scanner asks of whoever holds the stream.
#[derive(Clone, Copy, Debug, PartialEq, Eq, Structural)]
pub enum Demand {
    /// Read exactly this many bytes and hand them over as `Event::Bytes`.
    Read(usize),
    /// Drop exactly this many bytes and report `Event::Skipped`.
    Skip(u64),
    /// The payload begins at the next byte, in this format.
    Ready(FormatDescriptor),
    /// The stream is refused.
    Refuse(WavError),
}

/// What came of a demand.
pub enum Event<'a> {
    /// The bytes that were read.
    Bytes(&'a [u8]),
    /// The bytes to drop were dropped.
    Skipped,
    /// The stream ended before the demand was met.
    Ended,
    /// The stream failed before the demand was met.
    Failed,
}

/// The search for the payload, between two reads.
#[derive(Clone, Copy, Debug, PartialEq, Eq, Structural)]
pub enum Scanner {
    /// Nothing was read yet.
    Envelope,
    /// At a chunk boundary, with the format seen so far.
    Boundary { seen: Option<FormatDescriptor> },
    /// Behind the header of a format chunk of `size` bytes.
    InFormat { size: u32 },
    /// Behind the header of another chunk, `count` bytes before the next
    /// boundary.
    InOther { count: u64, seen: Option<FormatDescriptor> },
    /// Behind the header of the payload chunk.
    Ready { format: FormatDescriptor },
    /// Given up.
    Refused { error: WavError },
}

impl Scanner {
    /// What the stream holds, if `rest` is what is left of it.
    pub open spec fn outcome(self, rest: Seq<u8>, broken: bool) -> Result<Located, WavError> {
        match self {
            Scanner::Envelope => scan(rest, broken),
            Scanner::Boundary { seen } => scan_chunks(rest, seen, broken),
            Scanner::InFormat { size } => {
                if rest.len() < size {
                    Err(end_failure(broken))
                } else {
                    match format_of(rest.take(size as int)) {
                        Ok(found) => scan_chunks(rest.skip(size as int), Some(found), broken),
                        Err(e) => Err(e),
                    }
                }
            },
            Scanner::InOther { count, seen } => {
                if rest.len() < count {
                    Err(end_failure(broken))
                } else {
                    scan_chunks(rest.skip(count as int), seen, broken)
                }
            },
            Scanner::Ready { format } => Ok(Located { format, payload: rest }),
            Scanner::Refused { error } => Err(error),
        }
    }

    /// The number of bytes that the scanner needs next; none once it is done.
    pub open spec fn wanted(self) -> Option<int> {
        match self {
            Scanner::Envelope => Some(12),
            Scanner::Boundary { .. } => Some(8),
            Scanner::InFormat { size } => Some(size as int),
            Scanner::InOther { count, .. } => Some(count as int),
            Scanner::Ready { .. } => None,
            Scanner::Refused { .. } => None,
        }
    }

    /// The state after `bytes` were read in a state that asked for a read of
    /// that length.
    pub open spec fn read(self, bytes: Seq<u8>) -> Scanner {
        match self {
            Scanner::Envelope => match envelope_fault(bytes) {
                Some(error) => Scanner::Refused { error },
                None => Scanner::Boundary { seen: None },
            },
            Scanner::Boundary { seen } => {
                let size = le_u32(bytes[4], bytes[5], bytes[6], bytes[7]);
                match kind_of(bytes.subrange(0, 4)) {
                    ChunkKind::Format => Scanner::InFormat { size: size as u32 },
                    ChunkKind::Data => match seen {
                        Some(format) => Scanner::Ready { format },
                        None => Scanner::Refused { error: WavError::MissingFormatChunk },
                    },
                    ChunkKind::Other => Scanner::InOther { count: padded(size) as u64, seen },
                }
            },
            Scanner::InFormat { size } => match format_of(bytes) {
                Ok(found) => Scanner::Boundary { seen: Some(found) },
                Err(error) => Scanner::Refused { error },
            },
            _ => self,
        }
    }

    /// Whether `event` is what the state asked for.
    pub open spec fn meets(self, event: Event) -> bool {
        match event {
            Event::Bytes(bytes) => !(self is InOther) && self.wanted() == Some(bytes@.len() as int),
            Event::Skipped => self is InOther,
            _ => false,
        }
    }

    /// The state after `event`.
    ///
    /// A state that is done stays as it is. Otherwise bytes that were asked
    /// for are taken in, a skip that was asked for leads to the next
    /// boundary, a failure of the stream is the refusal `IoFailure`, and
    /// everything else counts as the end of the stream.
    pub open spec fn after(self, event: Event) -> Scanner {
        if self.wanted() is None {
            self
        } else if self.meets(event) {
            match (self, event) {
                (Scanner::InOther { seen, .. }, _) => Scanner::Boundary { seen },
                (_, Event::Bytes(bytes)) => self.read(bytes@),
                _ => self,
            }
        } else if event is Failed {
            Scanner::Refused { error: WavError::IoFailure }
        } else {
            Scanner::Refused { error: WavError::UnexpectedEof }
        }
    }

    /// The scanner in front of a stream of which nothing was read.
    pub fn new() -> (scanner: Scanner)
        ensures
            scanner == Scanner::Envelope,
    {
        Scanner::Envelope
    }

    /// What to do next with the stream.
    pub fn demand(&self) -> (demand: Demand)
        ensures
            demand == match *self {
                Scanner::Envelope => Demand::Read(ENVELOPE_LEN),
                Scanner::Boundary { .. } => Demand::Read(CHUNK_HEADER_LEN),
                Scanner::InFormat { size } => Demand::Read(size as usize),
                Scanner::InOther { count, .. } => Demand::Skip(count),
                Scanner::Ready { format } => Demand::Ready(format),
                Scanner::Refused { error } => Demand::Refuse(error),
            },
            demand matches Demand::Read(count) ==> self.wanted() == Some(count as int),
    {
        match self {
            Scanner::Envelope => Demand::Read(ENVELOPE_LEN),
            Scanner::Boundary { .. } => Demand::Read(CHUNK_HEADER_LEN),
            Scanner::InFormat { size } => Demand::Read(*size as usize),
            Scanner::InOther { count, .. } => Demand::Skip(*count),
            Scanner::Ready { format } => Demand::Ready(*format),
            Scanner::Refused { error } => Demand::Refuse(*error),
        }
    }

    /// Takes in what came of the last demand.
    ///
    /// Bytes that were asked for take the scanner across just these bytes,
    /// and a skip that was asked for across the bytes skipped: what the
    /// stream holds is the same seen from the state before, with those
    /// bytes still to come, and from the state after.
    pub fn step(self, event: Event) -> (next: Scanner)
        ensures
            next == self.after(event),
            event matches Event::Bytes(bytes) ==> self.meets(event) ==> forall|
                rest: Seq<u8>,
                broken: bool,
            |
                #[trigger] next.outcome(rest, broken) == self.outcome(bytes@ + rest, broken),
            self matches Scanner::InOther { count, .. } ==> event is Skipped ==> forall|
                gap: Seq<u8>,
                rest: Seq<u8>,
                broken: bool,
            |
                gap.len() == count ==> next.outcome(rest, broken) == #[trigger] self.outcome(
                    gap + rest,
                    broken,
                ),
    {
        proof {
            match event {
                Event::Bytes(bytes) => {
                    if self.meets(event) {
                        assert forall|rest: Seq<u8>, broken: bool|
                            #[trigger] self.read(bytes@).outcome(rest, broken) == self.outcome(
                                bytes@ + rest,
                                broken,
                            ) by {
                            lemma_read_keeps_outcome(self, bytes@, rest, broken);
                        }
                    }
                },
                Event::Skipped => {
                    if let Scanner::InOther { count, .. } = self {
                        assert forall|gap: Seq<u8>, rest: Seq<u8>, broken: bool|
                            gap.len() == count implies self.after(Event::Skipped).outcome(
                                rest,
                                broken,
                            ) == #[trigger] self.outcome(gap + rest, broken) by {
                            lemma_skip_keeps_outcome(self, gap, rest, broken);
                        }
                    }
                },
                _ => {},
            }
        }
        match self {
            Scanner::Ready { .. } | Scanner::Refused { .. } => self,
            Scanner::InOther { seen, .. } => match event {
                Event::Skipped => Scanner::Boundary { seen },
                Event::Failed => Scanner::Refused { error: WavError::IoFailure },
                _ => Scanner::Refused { error: WavError::UnexpectedEof },
            },
            Scanner::Envelope => match event {
                Event::Bytes(bytes) if bytes.len() == ENVELOPE_LEN => {
                    match ContainerHeader::parse(bytes) {
                        Ok(_) => Scanner::Boundary { seen: None },
                        Err(error) => Scanner::Refused { error },
                    }
                },
                Event::Failed => Scanner::Refused { error: WavError::IoFailure },
                _ => Scanner::Refused { error: WavError::UnexpectedEof },
            },
            Scanner::Boundary { seen } => match event {
                Event::Bytes(bytes) if bytes.len() == CHUNK_HEADER_LEN => {
                    let header = ChunkHeader::parse(bytes);
                    match header.kind() {
                        ChunkKind::Format => Scanner::InFormat { size: header.size },
                        ChunkKind::Data => match seen {
                            Some(format) => Scanner::Ready { format },
                            None => Scanner::Refused { error: WavError::MissingFormatChunk },
                        },
                        ChunkKind::Other => Scanner::InOther { count: header.padded_size(), seen },
                    }
                },
                Event::Failed => Scanner::Refused { error: WavError::IoFailure },
                _ => Scanner::Refused { error: WavError::UnexpectedEof },
            },
            Scanner::InFormat { size } => match event {
                Event::Bytes(bytes) if bytes.len() == size as usize => {
                    match FormatDescriptor::parse(bytes) {
                        Ok(found) => Scanner::Boundary { seen: Some(found) },
                        Err(error) => Scanner::Refused { error },
                    }
                },
                Event::Failed => Scanner::Refused { error: WavError::IoFailure },
                _ => Scanner::Refused { error: WavError::UnexpectedEof },
            },
        }
    }
}

/// A read that was asked for takes the scanner across exactly the bytes
/// read: what the stream holds is the same before, with the bytes still in
/// it, and after, without them.
pub proof fn lemma_read_keeps_outcome(state: Scanner, bytes: Seq<u8>, rest: Seq<u8>, broken: bool)
    requires
        !(state is InOther),
        state.wanted() == Some(bytes.len() as int),
    ensures
        state.read(bytes).outcome(rest, broken) == state.outcome(bytes + rest, broken),
{
    reveal(scan_chunks);
    let whole = bytes + rest;
    assert(whole.take(bytes.len() as int) =~= bytes);
    assert(whole.skip(bytes.len() as int) =~= rest);
    match state {
        Scanner::Boundary { .. } => {
            assert(whole.subrange(0, 4) =~= bytes.subrange(0, 4));
        },
        _ => {},
    }
}

/// A skip that was asked for takes the scanner across exactly the bytes
/// dropped, whatever they were.
pub proof fn lemma_skip_keeps_outcome(state: Scanner, gap: Seq<u8>, rest: Seq<u8>, broken: bool)
    requires
        state matches Scanner::InOther { count, .. } && gap.len() == count,
    ensures
        state.after(Event::Skipped).outcome(rest, broken) == state.outcome(gap + rest, broken),
{
    assert((gap + rest).skip(gap.len() as int) =~= rest);
}

/// A stream that is too short for what the scanner needs next fails the way
/// it ends.
pub proof fn lemma_short_stream(state: Scanner, rest: Seq<u8>, broken: bool)
    requires
        state.wanted() matches Some(count) && rest.len() < count,
    ensures
        state.outcome(rest, broken) == Err::<Located, WavError>(end_failure(broken)),
{
    reveal(scan_chunks);
}

} // verus!
