//! Length-prefixed message framing for the RPC wire protocol.
//!
//! A frame is a four-byte big-endian length followed by that many payload
//! bytes. The maximum payload is 64 MiB and a zero length is a protocol
//! violation. [`FrameReader`] accumulates partial reads and hands out one
//! complete payload at a time; once it has seen an invalid header it stays
//! unusable until [`FrameReader::reset`].

use vstd::prelude::*;

verus! {

/// Maximum payload size of one frame: 64 MiB.
pub const MAX_MESSAGE_SIZE: u32 = 64 * 1024 * 1024;

/// Outcome of one read attempt.
#[derive(Debug, PartialEq)]
pub enum FrameReadResult {
    /// A complete payload was read.
    Complete(Vec<u8>),
    /// More bytes are needed; nothing is available right now.
    NeedMore,
    /// The source reached its end.
    Eof,
}

/// A framing violation, or a failure of the byte source.
#[derive(Debug, Clone, Copy, PartialEq, Eq, Structural)]
pub enum FrameError {
    /// A header announced a zero-length payload.
    ZeroLength,
    /// A header announced a payload beyond 64 MiB.
    TooLarge,
    /// The byte source failed.
    Io,
}

/// The number a four-byte big-endian prefix encodes.
pub open spec fn be32(b: Seq<u8>) -> nat {
    (b[0] as nat) * 16777216 + (b[1] as nat) * 65536 + (b[2] as nat) * 256 + (b[3] as nat)
}

/// The four-byte big-endian encoding of a number below 2^32.
pub open spec fn be_bytes(n: nat) -> Seq<u8> {
    seq![
        (n / 16777216) as u8,
        ((n % 16777216) / 65536) as u8,
        ((n % 65536) / 256) as u8,
        (n % 256) as u8,
    ]
}

/// Decoding inverts encoding for any number that fits four bytes.
pub proof fn lemma_be32_be_bytes(n: nat)
    requires
        n < 4294967296,
    ensures
        be32(be_bytes(n)) == n,
{
    assert(((n / 16777216) as u8) as nat * 16777216 + (((n % 16777216) / 65536) as u8) as nat
        * 65536 + (((n % 65536) / 256) as u8) as nat * 256 + ((n % 256) as u8) as nat == n)
        by (nonlinear_arith)
        requires n < 4294967296;
}

/// Whether a payload length is admissible on the wire.
pub open spec fn valid_len(n: nat) -> bool {
    1 <= n <= MAX_MESSAGE_SIZE
}

/// Whether the pending bytes begin with a header that violates the
/// protocol: a complete length prefix announcing zero or beyond 64 MiB.
pub open spec fn header_invalid(pending: Seq<u8>) -> bool {
    pending.len() >= 4 && !valid_len(be32(pending.take(4)))
}

/// Whether the pending bytes hold at least one complete, admissible frame.
pub open spec fn frame_complete(pending: Seq<u8>) -> bool {
    pending.len() >= 4 && valid_len(be32(pending.take(4))) && pending.len() >= 4 + be32(
        pending.take(4),
    )
}

/// The payload of the first complete frame of the pending bytes.
pub open spec fn first_frame(pending: Seq<u8>) -> Seq<u8> {
    pending.subrange(4, 4 + be32(pending.take(4)) as int)
}

/// The pending bytes after the first complete frame is taken out.
pub open spec fn rest_after(pending: Seq<u8>) -> Seq<u8> {
    pending.skip(4 + be32(pending.take(4)) as int)
}

/// The whole wire form of one payload: length prefix, then the bytes.
pub open spec fn frame_bytes(payload: Seq<u8>) -> Seq<u8> {
    be_bytes(payload.len()) + payload
}

/// A source of bytes for [`FrameReader::read_frame`]: a chunk at a time,
/// or a condition the reader reacts to.
pub enum ReadChunk {
    /// Bytes arrived.
    Data(Vec<u8>),
    /// The source is exhausted.
    Eof,
    /// No bytes are available right now (a would-block condition).
    Pending,
    /// The read was interrupted and should be retried.
    Interrupted,
    /// The source failed for good.
    Failed,
}

/// Something frames can be read from. The transport implements this over
/// its sockets; [`MemCursor`] implements it over an in-memory buffer.
pub trait ByteSource {
    /// Fetch the next chunk of bytes, or report the source's condition.
    fn read_chunk(&mut self) -> ReadChunk;
}

/// An in-memory byte source that hands out its contents once, then
/// reports the end.
pub struct MemCursor {
    data: Vec<u8>,
    pos: usize,
}

impl MemCursor {
    /// The bytes not yet handed out.
    pub closed spec fn remaining(&self) -> Seq<u8> {
        self.data@.skip(self.pos as int)
    }

    /// Wrap a byte vector.
    pub fn new(data: Vec<u8>) -> (r: Self)
        ensures
            r.remaining() == data@,
    {
        let r = MemCursor { data, pos: 0 };
        proof {
            assert(r.remaining() =~= r.data@);
        }
        r
    }
}

impl ByteSource for MemCursor {
    fn read_chunk(&mut self) -> ReadChunk {
        if self.pos >= self.data.len() {
            return ReadChunk::Eof;
        }
        let take: usize = if self.data.len() - self.pos < 4096 {
            self.data.len() - self.pos
        } else {
            4096
        };
        let n = self.data.len();
        let mut chunk: Vec<u8> = Vec::new();
        let mut i: usize = 0;
        while i < take
            invariant
                i <= take,
                self.pos + take <= n,
                n == self.data@.len(),
                chunk@ == self.data@.subrange(self.pos as int, self.pos + i),
            decreases take - i,
        {
            chunk.push(self.data[self.pos + i]);
            proof {
                assert(chunk@ =~= self.data@.subrange(self.pos as int, self.pos + i + 1));
            }
            i += 1;
        }
        self.pos += take;
        ReadChunk::Data(chunk)
    }
}

/// Reader of length-prefixed frames that survives partial reads.
///
/// The unparsed bytes it has accepted are its model, [`FrameReader::pending`];
/// an invalid header switches it to a dead state that only a reset leaves.
#[derive(Debug)]
pub struct FrameReader {
    buf: Vec<u8>,
    failed: bool,
}

impl FrameReader {
    /// The bytes accepted but not yet handed out as frames.
    pub closed spec fn pending(&self) -> Seq<u8> {
        self.buf@
    }

    /// Whether the reader has seen a protocol violation and refuses
    /// further work until reset.
    pub closed spec fn is_failed(&self) -> bool {
        self.failed
    }

    /// A fresh reader with nothing pending.
    pub fn new() -> (r: Self)
        ensures
            r.pending() == Seq::<u8>::empty(),
            !r.is_failed(),
    {
        let r = FrameReader { buf: Vec::new(), failed: false };
        proof {
            assert(r.pending() =~= Seq::<u8>::empty());
        }
        r
    }

    /// Accept more bytes from the wire.
    pub fn feed(&mut self, data: &[u8])
        ensures
            final(self).pending() == old(self).pending() + data@,
            final(self).is_failed() == old(self).is_failed(),
    {
        self.buf.extend_from_slice(data);
    }

    /// Try to take one complete frame out of the pending bytes.
    ///
    /// Returns `Ok(Some(payload))` and consumes the frame when one is
    /// complete, `Ok(None)` when more bytes are needed, and an error —
    /// entering the dead state — when the next header is invalid.
    pub fn try_extract_message(&mut self) -> (r: Result<Option<Vec<u8>>, FrameError>)
        ensures
            old(self).is_failed() ==> r == Result::<Option<Vec<u8>>, FrameError>::Err(
                FrameError::Io,
            ) && *final(self) == *old(self),
            !old(self).is_failed() && header_invalid(old(self).pending()) ==> {
                &&& r == Result::<Option<Vec<u8>>, FrameError>::Err(
                    if be32(old(self).pending().take(4)) == 0 {
                        FrameError::ZeroLength
                    } else {
                        FrameError::TooLarge
                    },
                )
                &&& final(self).is_failed()
            },
            !old(self).is_failed() && frame_complete(old(self).pending()) ==> {
                &&& r matches Ok(Some(m)) && m@ == first_frame(old(self).pending())
                &&& final(self).pending() == rest_after(old(self).pending())
                &&& !final(self).is_failed()
            },
            !old(self).is_failed() && !header_invalid(old(self).pending()) && !frame_complete(
                old(self).pending(),
            ) ==> r == Result::<Option<Vec<u8>>, FrameError>::Ok(None::<Vec<u8>>) && *final(self)
                == *old(self),
{
    if self.failed {
        return Err(FrameError::Io);
    }
    if self.buf.len() < 4 {
        return Ok(None);
    }
    let b0 = self.buf[0] as u32;
    let b1 = self.buf[1] as u32;
    let b2 = self.buf[2] as u32;
    let b3 = self.buf[3] as u32;
    let msg_len: u32 = b0 * 16777216 + b1 * 65536 + b2 * 256 + b3;
    proof {
        assert(self.pending().take(4)[0] == self.pending()[0]);
        assert(msg_len as nat == be32(self.pending().take(4)));
    }
    if msg_len == 0 {
        self.failed = true;
        return Err(FrameError::ZeroLength);
    }
    if msg_len > MAX_MESSAGE_SIZE {
        self.failed = true;
        return Err(FrameError::TooLarge);
    }
    let total: usize = 4 + msg_len as usize;
    if self.buf.len() < total {
        return Ok(None);
    }
    let tail = self.buf.split_off(total);
    let message = self.buf.split_off(4);
    self.buf = tail;
    proof {
        assert(message@ =~= first_frame(old(self).pending()));
        assert(final(self).pending() =~= rest_after(old(self).pending()));
    }
    Ok(Some(message))
}

    /// Forget everything pending and leave the dead state.
    pub fn reset(&mut self)
        ensures
            final(self).pending() == Seq::<u8>::empty(),
            !final(self).is_failed(),
    {
        self.buf.clear();
        self.failed = false;
        proof {
            assert(final(self).pending() =~= Seq::<u8>::empty());
        }
    }

    /// Read one frame from a byte source, accumulating partial reads.
    ///
    /// Returns `Complete` with the next payload, `NeedMore` when the source
    /// would block, `Eof` at its end, and an error on a protocol violation
    /// or a failed source. Whatever arrived stays pending for the next call.
    /// A source that yields chunks without end is abandoned as `NeedMore`
    /// after an astronomical number of rounds, which none reaches in
    /// practice: a drained non-blocking socket reports the would-block
    /// condition instead.
    pub fn read_frame<S: ByteSource>(&mut self, source: &mut S) -> (r: Result<
        FrameReadResult,
        FrameError,
    >)
        ensures
            r matches Ok(FrameReadResult::Complete(m)) ==> exists|
                d: Seq<u8>,
            |
                {
                    &&& frame_complete(old(self).pending() + d)
                    &&& m@ == first_frame(old(self).pending() + d)
                    &&& final(self).pending() == rest_after(old(self).pending() + d)
                },
            old(self).is_failed() ==> r == Result::<FrameReadResult, FrameError>::Err(
                FrameError::Io,
            ),
            !old(self).is_failed() && frame_complete(old(self).pending()) ==> (r matches Ok(
                FrameReadResult::Complete(m),
            ) && m@ == first_frame(old(self).pending()) && final(self).pending() == rest_after(
                old(self).pending(),
            )),
            !old(self).is_failed() && header_invalid(old(self).pending()) ==> r
                == Result::<FrameReadResult, FrameError>::Err(
                if be32(old(self).pending().take(4)) == 0 {
                    FrameError::ZeroLength
                } else {
                    FrameError::TooLarge
                },
            ),
    {
        proof {
            assert(self.pending() == old(self).pending() + Seq::<u8>::empty()) by {
                assert(old(self).pending() + Seq::<u8>::empty() =~= old(self).pending());
            };
        }
        match self.try_extract_message() {
            Err(e) => {
                return Err(e);
            },
            Ok(Some(message)) => {
                proof {
                    assert(frame_complete(old(self).pending() + Seq::<u8>::empty()));
                    assert(message@ == first_frame(old(self).pending() + Seq::<u8>::empty()));
                    assert(self.pending() == rest_after(
                        old(self).pending() + Seq::<u8>::empty(),
                    ));
                }
                return Ok(FrameReadResult::Complete(message));
            },
            Ok(None) => {},
        }
        let mut rounds: u64 = 18446744073709551615u64;
        loop
            invariant
                !old(self).is_failed(),
                !frame_complete(old(self).pending()),
                !header_invalid(old(self).pending()),
                exists|d: Seq<u8>| self.pending() == old(self).pending() + d,
            decreases rounds,
        {
            if rounds == 0 {
                return Ok(FrameReadResult::NeedMore);
            }
            rounds -= 1;
            let ghost pre = self.pending();
            match self.try_extract_message() {
                Err(e) => {
                    return Err(e);
                },
                Ok(Some(message)) => {
                    proof {
                        let d = choose|d: Seq<u8>| pre == old(self).pending() + d;
                        assert(frame_complete(old(self).pending() + d));
                        assert(message@ == first_frame(old(self).pending() + d));
                        assert(self.pending() == rest_after(old(self).pending() + d));
                    }
                    return Ok(FrameReadResult::Complete(message));
                },
                Ok(None) => {},
            }
            match source.read_chunk() {
                ReadChunk::Data(chunk) => {
                    self.feed(chunk.as_slice());
                    proof {
                        let d = choose|d: Seq<u8>| pre == old(self).pending() + d;
                        assert(self.pending() == old(self).pending() + (d + chunk@)) by {
                            assert((old(self).pending() + d) + chunk@ =~= old(self).pending() + (
                            d + chunk@));
                        };
                    }
                },
                ReadChunk::Eof => {
                    return Ok(FrameReadResult::Eof);
                },
                ReadChunk::Pending => {
                    return Ok(FrameReadResult::NeedMore);
                },
                ReadChunk::Interrupted => {},
                ReadChunk::Failed => {
                    return Err(FrameError::Io);
                },
            }
        }
    }
}

/// Frame a payload: append the length prefix and the bytes to `out`.
///
/// A payload beyond 64 MiB is refused before anything is written.
/// An empty payload is framed as the protocol's zero length, which every
/// reader rejects; writers avoid it.
pub fn write_frame(out: &mut Vec<u8>, data: &[u8]) -> (r: Result<(), FrameError>)
    ensures
        r is Ok <==> data@.len() <= MAX_MESSAGE_SIZE,
        r is Ok ==> final(out)@ == old(out)@ + frame_bytes(data@),
        r is Err ==> final(out)@ == old(out)@ && r == Result::<(), FrameError>::Err(
            FrameError::TooLarge,
        ),
{
    if data.len() > MAX_MESSAGE_SIZE as usize {
        return Err(FrameError::TooLarge);
    }
    let len: u32 = data.len() as u32;
    out.push((len / 16777216) as u8);
    out.push(((len % 16777216) / 65536) as u8);
    out.push(((len % 65536) / 256) as u8);
    out.push((len % 256) as u8);
    out.extend_from_slice(data);
    proof {
        assert(final(out)@ =~= old(out)@ + frame_bytes(data@));
    }
    Ok(())
}

/// Round trip: every payload of admissible size, once framed, is read
/// back whole, and nothing is left over.
pub proof fn lemma_frame_round_trip(payload: Seq<u8>)
    requires
        valid_len(payload.len()),
    ensures
        frame_complete(frame_bytes(payload)),
        first_frame(frame_bytes(payload)) == payload,
        rest_after(frame_bytes(payload)) == Seq::<u8>::empty(),
{
    lemma_be32_be_bytes(payload.len());
    assert(frame_bytes(payload).take(4) =~= be_bytes(payload.len()));
    assert(first_frame(frame_bytes(payload)) =~= payload);
    assert(rest_after(frame_bytes(payload)) =~= Seq::<u8>::empty());
}

/// Resumption: a reader holding `p` that accepts a byte stream split at
/// any offset, one half after the other, holds the same pending bytes as
/// one that accepts the stream whole — by [`FrameReader::feed`]'s
/// contract, extraction afterwards yields the same frames.
pub proof fn lemma_feed_resumption(p: Seq<u8>, stream: Seq<u8>, cut: int)
    requires
        0 <= cut <= stream.len(),
    ensures
        (p + stream.take(cut)) + stream.skip(cut) == p + stream,
{
    assert((p + stream.take(cut)) + stream.skip(cut) =~= p + stream);
}

} // verus!
