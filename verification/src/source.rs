//! Byte sources: the capability from which a decoder pulls its input.

use vstd::prelude::*;
use crate::error::WavError;

verus! {

/// The failure of a source that broke off instead of ending.
#[derive(Clone, Copy, Debug, PartialEq, Eq, Structural)]
pub struct StreamFailure;

/// A finite stream of bytes that is consumed from the front.
///
/// A source stands for the bytes it has yet to deliver, `remaining()`, and for
/// the way it ends once they are used up: a clean end of stream, or a failure
/// (`broken()`). How many bytes one `read` hands over is the source's own
/// business; nothing that is built on this trait depends on it.
pub trait ByteSource {
    /// The bytes that the source has yet to deliver, in order.
    spec fn remaining(&self) -> Seq<u8>;

    /// Whether the stream fails, rather than ends, after its last byte.
    spec fn broken(&self) -> bool;

    /// Takes at most `limit` bytes from the front of the stream.
    ///
    /// With bytes left and `limit > 0` at least one byte is returned. At the
    /// end of a stream that is not broken the result is empty; at the end of
    /// a broken one it is the failure.
    fn read(&mut self, limit: usize) -> (r: Result<Vec<u8>, StreamFailure>)
        ensures
            final(self).broken() == old(self).broken(),
            match r {
                Ok(chunk) => {
                    &&& chunk@.len() <= limit
                    &&& chunk@.len() <= old(self).remaining().len()
                    &&& chunk@ == old(self).remaining().take(chunk@.len() as int)
                    &&& final(self).remaining() == old(self).remaining().skip(chunk@.len() as int)
                    &&& limit > 0 && old(self).remaining().len() > 0 ==> chunk@.len() > 0
                    &&& limit > 0 && old(self).remaining().len() == 0 ==> !old(self).broken()
                },
                Err(_) => {
                    &&& old(self).remaining().len() == 0
                    &&& old(self).broken()
                    &&& final(self).remaining() == old(self).remaining()
                },
            },
    ;
}

/// A source over bytes held in memory, delivered in pieces as large as asked for.
pub struct MemorySource {
    data: Vec<u8>,
    pos: usize,
    fails: bool,
}

impl MemorySource {
    #[verifier::type_invariant]
    spec fn in_bounds(self) -> bool {
        self.pos <= self.data@.len()
    }

    /// A source that delivers `data` from its first byte on and then ends.
    pub fn new(data: Vec<u8>) -> (s: Self)
        ensures
            s.remaining() == data@,
            !s.broken(),
    {
        MemorySource { data, pos: 0, fails: false }
    }

    /// A source that delivers `data` from its first byte on and then fails,
    /// as a connection does that is cut.
    pub fn failing(data: Vec<u8>) -> (s: Self)
        ensures
            s.remaining() == data@,
            s.broken(),
    {
        MemorySource { data, pos: 0, fails: true }
    }
}

/// Copies `count` bytes of `data` from `start` on.
fn copy_range(data: &Vec<u8>, start: usize, count: usize) -> (chunk: Vec<u8>)
    requires
        start + count <= data@.len(),
    ensures
        chunk@ == data@.subrange(start as int, start + count),
{
    let mut chunk: Vec<u8> = Vec::new();
    let mut i: usize = 0;
    while i < count
        invariant
            i <= count,
            start + count <= data.len(),
            chunk@ == data@.subrange(start as int, start + i),
        decreases count - i,
    {
        chunk.push(data[start + i]);
        i += 1;
    }
    chunk
}

impl ByteSource for MemorySource {
    closed spec fn remaining(&self) -> Seq<u8> {
        self.data@.skip(self.pos as int)
    }

    closed spec fn broken(&self) -> bool {
        self.fails
    }

    /// Hands over all that is asked for, or all that is left where that is
    /// less.
    fn read(&mut self, limit: usize) -> (r: Result<Vec<u8>, StreamFailure>)
        ensures
            r is Err <==> old(self).remaining().len() == 0 && old(self).broken(),
            r matches Ok(chunk) ==> chunk@.len() == if limit <= old(self).remaining().len() {
                limit as int
            } else {
                old(self).remaining().len() as int
            },
    {
        proof {
            use_type_invariant(&*self);
        }
        let left: usize = self.data.len() - self.pos;
        if left == 0 && self.fails {
            return Err(StreamFailure);
        }
        let count: usize = if limit < left { limit } else { left };
        let chunk = copy_range(&self.data, self.pos, count);
        self.pos = self.pos + count;
        Ok(chunk)
    }
}

/// A source over bytes held in memory that hands them over in pieces of
/// one, two and three bytes in turn, as a slow connection might.
pub struct FragmentedSource {
    data: Vec<u8>,
    pos: usize,
    turn: u8,
}

impl FragmentedSource {
    #[verifier::type_invariant]
    spec fn in_bounds(self) -> bool {
        self.pos <= self.data@.len() && self.turn < 3
    }

    /// The most bytes that the next read hands over: one, two or three.
    pub closed spec fn piece(&self) -> int {
        self.turn + 1
    }

    /// A source that delivers `data` from its first byte on, the first
    /// piece being of one byte, and then ends.
    pub fn new(data: Vec<u8>) -> (s: Self)
        ensures
            s.remaining() == data@,
            !s.broken(),
            s.piece() == 1,
    {
        FragmentedSource { data, pos: 0, turn: 0 }
    }
}

/// The smallest of three numbers.
pub open spec fn least(a: int, b: int, c: int) -> int {
    if a <= b && a <= c {
        a
    } else if b <= c {
        b
    } else {
        c
    }
}

impl ByteSource for FragmentedSource {
    closed spec fn remaining(&self) -> Seq<u8> {
        self.data@.skip(self.pos as int)
    }

    closed spec fn broken(&self) -> bool {
        false
    }

    /// Hands over a piece of the size whose turn it is, or less where less
    /// is asked for or left; the next size has its turn after every read.
    fn read(&mut self, limit: usize) -> (r: Result<Vec<u8>, StreamFailure>)
        ensures
            r matches Ok(chunk) && chunk@.len() == least(
                limit as int,
                old(self).piece(),
                old(self).remaining().len() as int,
            ),
            final(self).piece() == if old(self).piece() == 3 {
                1
            } else {
                old(self).piece() + 1
            },
    {
        proof {
            use_type_invariant(&*self);
        }
        let left: usize = self.data.len() - self.pos;
        let piece: usize = self.turn as usize + 1;
        let within: usize = if limit < piece { limit } else { piece };
        let count: usize = if within < left { within } else { left };
        let chunk = copy_range(&self.data, self.pos, count);
        self.pos = self.pos + count;
        self.turn = if self.turn == 2 { 0 } else { self.turn + 1 };
        Ok(chunk)
    }
}

/// The error with which a stream that is used up refuses a read.
pub open spec fn end_failure(broken: bool) -> WavError {
    if broken {
        WavError::IoFailure
    } else {
        WavError::UnexpectedEof
    }
}

/// Takes exactly `count` bytes from the front of the stream, however the
/// source cuts them into pieces.
///
/// A stream with fewer bytes left is used up and the read fails: with
/// `IoFailure` where the stream is broken, with `UnexpectedEof` where it ends.
pub fn read_exact<R: ByteSource>(source: &mut R, count: usize) -> (r: Result<Vec<u8>, WavError>)
    ensures
        final(source).broken() == old(source).broken(),
        match r {
            Ok(bytes) => {
                &&& count <= old(source).remaining().len()
                &&& bytes@ == old(source).remaining().take(count as int)
                &&& final(source).remaining() == old(source).remaining().skip(count as int)
            },
            Err(e) => {
                &&& old(source).remaining().len() < count
                &&& e == end_failure(old(source).broken())
                &&& final(source).remaining().len() == 0
            },
        },
{
    let ghost start = source.remaining();
    let ghost broken = source.broken();
    let mut bytes: Vec<u8> = Vec::new();
    while bytes.len() < count
        invariant
            start == old(source).remaining(),
            broken == old(source).broken(),
            bytes@.len() <= count,
            bytes@.len() <= start.len(),
            bytes@ == start.take(bytes@.len() as int),
            source.remaining() == start.skip(bytes@.len() as int),
            source.broken() == broken,
        decreases count - bytes@.len(),
    {
        match source.read(count - bytes.len()) {
            Ok(mut chunk) => {
                if chunk.len() == 0 {
                    return Err(WavError::UnexpectedEof);
                }
                bytes.append(&mut chunk);
            },
            Err(_) => {
                return Err(WavError::IoFailure);
            },
        }
    }
    Ok(bytes)
}

/// The most bytes that `skip` asks of a source at a time.
pub const SKIP_STRIDE: usize = 8192;

/// Takes exactly `count` bytes from the front of the stream and drops them,
/// holding no more than `SKIP_STRIDE` of them at a time.
///
/// A stream with fewer bytes left is used up and the skip fails, as a read
/// of as many bytes would.
pub fn skip<R: ByteSource>(source: &mut R, count: u64) -> (r: Result<(), WavError>)
    ensures
        final(source).broken() == old(source).broken(),
        match r {
            Ok(_) => {
                &&& count <= old(source).remaining().len()
                &&& final(source).remaining() == old(source).remaining().skip(count as int)
            },
            Err(e) => {
                &&& old(source).remaining().len() < count
                &&& e == end_failure(old(source).broken())
                &&& final(source).remaining().len() == 0
            },
        },
{
    let ghost start = source.remaining();
    let ghost broken = source.broken();
    let mut left: u64 = count;
    while left > 0
        invariant
            start == old(source).remaining(),
            broken == old(source).broken(),
            left <= count,
            count - left <= start.len(),
            source.remaining() == start.skip(count - left),
            source.broken() == broken,
        decreases left,
    {
        let limit: usize = if left > SKIP_STRIDE as u64 {
            SKIP_STRIDE
        } else {
            left as usize
        };
        match source.read(limit) {
            Ok(chunk) => {
                if chunk.len() == 0 {
                    return Err(WavError::UnexpectedEof);
                }
                left = left - chunk.len() as u64;
            },
            Err(_) => {
                return Err(WavError::IoFailure);
            },
        }
    }
    Ok(())
}

} // verus!
