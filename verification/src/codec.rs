//! Length-prefixed frame codec. Every logical message on a session socket is
//! framed as a 4-byte big-endian payload length followed by the payload.
//! Inbound frames whose announced length exceeds [`crate::MAX_FRAME_LEN`]
//! terminate the session before any payload byte is consumed.
use vstd::prelude::*;
use crate::MAX_FRAME_LEN;

verus! {

/// The unsigned 32-bit value stored big-endian in the first four bytes of `b`.
pub open spec fn be32_of(b: Seq<u8>) -> nat
    recommends
        b.len() >= 4,
{
    (b[0] as nat) * 0x1000000 + (b[1] as nat) * 0x10000 + (b[2] as nat) * 0x100 + (b[3] as nat)
}

/// The four big-endian bytes of `n`.
pub open spec fn u32_be_bytes(n: u32) -> Seq<u8> {
    seq![
        (n as nat / 0x1000000 % 0x100) as u8,
        (n as nat / 0x10000 % 0x100) as u8,
        (n as nat / 0x100 % 0x100) as u8,
        (n as nat % 0x100) as u8,
    ]
}

/// The wire form of one frame: big-endian length, then the payload.
pub open spec fn frame_bytes(payload: Seq<u8>) -> Seq<u8>
    recommends
        payload.len() <= u32::MAX,
{
    u32_be_bytes(payload.len() as u32) + payload
}

/// Reading the four big-endian bytes of `n` yields `n` again.
pub proof fn lemma_be32_round_trip(n: u32)
    ensures
        be32_of(u32_be_bytes(n)) == n,
{
    assert(be32_of(u32_be_bytes(n)) == n) by (bit_vector);
}

/// Frames a payload for the wire. Fails only when the payload cannot be
/// described by a 32-bit length; the failure is fatal to this message alone.
pub fn encode_frame(payload: &Vec<u8>) -> (r: Result<Vec<u8>, ()>)
    ensures
        payload@.len() <= u32::MAX ==> (r matches Ok(b) && b@ == frame_bytes(payload@)),
        payload@.len() > u32::MAX ==> r is Err,
{
    if payload.len() > u32::MAX as usize {
        return Err(());
    }
    let n: u32 = payload.len() as u32;
    let mut out: Vec<u8> = Vec::new();
    out.push((n / 0x1000000 % 0x100) as u8);
    out.push((n / 0x10000 % 0x100) as u8);
    out.push((n / 0x100 % 0x100) as u8);
    out.push((n % 0x100) as u8);
    let mut i: usize = 0;
    while i < payload.len()
        invariant
            i <= payload@.len(),
            payload@.len() <= u32::MAX,
            n == payload@.len(),
            out@ == u32_be_bytes(n) + payload@.subrange(0, i as int),
        decreases payload@.len() - i,
    {
        out.push(payload[i]);
        i = i + 1;
        assert(payload@.subrange(0, i as int)
            == payload@.subrange(0, i - 1) + seq![payload@[i - 1]]);
    }
    assert(payload@.subrange(0, payload@.len() as int) == payload@);
    Ok(out)
}

/// What the decoder does with the bytes received so far.
pub enum FrameStep {
    /// Fewer bytes than one whole frame: nothing is consumed.
    NeedMore,
    /// The announced length exceeds the hard cap: protocol violation, the
    /// session must close. No payload byte past the 4-byte length is read.
    Oversize,
    /// One whole frame: its payload, and how many bytes it occupied.
    Frame(Vec<u8>),
}

/// Decoder outcome on a buffer, at the specification level.
pub enum FrameStepModel {
    NeedMore,
    Oversize,
    /// Payload of the first frame and the remainder of the buffer.
    Frame(Seq<u8>, Seq<u8>),
}

/// The decoder as a pure function of the bytes received: what the first
/// complete frame of `b` is, if any.
pub open spec fn step_of(b: Seq<u8>) -> FrameStepModel {
    if b.len() < 4 {
        FrameStepModel::NeedMore
    } else if be32_of(b) > MAX_FRAME_LEN {
        FrameStepModel::Oversize
    } else if b.len() < 4 + be32_of(b) {
        FrameStepModel::NeedMore
    } else {
        FrameStepModel::Frame(
            b.subrange(4, 4 + be32_of(b) as int),
            b.subrange(4 + be32_of(b) as int, b.len() as int),
        )
    }
}

/// Incremental frame decoder: accumulates inbound bytes and hands out whole
/// frames. Holds at most the length prefix and one payload under the cap.
pub struct FrameDecoder {
    buf: Vec<u8>,
}

impl View for FrameDecoder {
    type V = Seq<u8>;

    closed spec fn view(&self) -> Seq<u8> {
        self.buf@
    }
}

impl FrameDecoder {
    /// A decoder that has received nothing.
    pub fn new() -> (r: FrameDecoder)
        ensures
            r@ == Seq::<u8>::empty(),
    {
        FrameDecoder { buf: Vec::new() }
    }

    /// Appends bytes read from the socket.
    pub fn push_bytes(&mut self, chunk: &Vec<u8>)
        ensures
            final(self)@ == old(self)@ + chunk@,
    {
        let mut i: usize = 0;
        while i < chunk.len()
            invariant
                i <= chunk@.len(),
                self.buf@ == old(self)@ + chunk@.subrange(0, i as int),
            decreases chunk@.len() - i,
        {
            self.buf.push(chunk[i]);
            i = i + 1;
            assert(chunk@.subrange(0, i as int)
                == chunk@.subrange(0, i - 1) + seq![chunk@[i - 1]]);
        }
        assert(chunk@.subrange(0, chunk@.len() as int) == chunk@);
    }

    /// Takes the first complete frame out of the buffer, or reports that the
    /// announced length breaks the cap, or that more bytes are needed. A
    /// partial frame changes nothing: decoding is a pure function of the
    /// accumulated bytes.
    pub fn next_frame(&mut self) -> (r: FrameStep)
        ensures
            step_of(old(self)@) is NeedMore ==> r is NeedMore && final(self)@ == old(self)@,
            step_of(old(self)@) is Oversize ==> r is Oversize && final(self)@ == old(self)@,
            step_of(old(self)@) matches FrameStepModel::Frame(p, rest) ==> (
            r matches FrameStep::Frame(v) && v@ == p && final(self)@ == rest),
    {
        if self.buf.len() < 4 {
            return FrameStep::NeedMore;
        }
        let len: u32 = (self.buf[0] as u32) * 0x1000000 + (self.buf[1] as u32) * 0x10000 + (
        self.buf[2] as u32) * 0x100 + (self.buf[3] as u32);
        assert(len == be32_of(self.buf@));
        if len > MAX_FRAME_LEN {
            return FrameStep::Oversize;
        }
        let total: usize = 4 + len as usize;
        if self.buf.len() < total {
            return FrameStep::NeedMore;
        }
        let mut payload: Vec<u8> = Vec::new();
        let mut i: usize = 4;
        while i < total
            invariant
                4 <= i <= total,
                total == 4 + len,
                total <= self.buf@.len(),
                payload@ == self.buf@.subrange(4, i as int),
            decreases total - i,
        {
            payload.push(self.buf[i]);
            i = i + 1;
            assert(self.buf@.subrange(4, i as int)
                == self.buf@.subrange(4, i - 1) + seq![self.buf@[i - 1]]);
        }
        let mut rest: Vec<u8> = Vec::new();
        let mut j: usize = total;
        while j < self.buf.len()
            invariant
                total <= j <= self.buf@.len(),
                total == 4 + len,
                rest@ == self.buf@.subrange(total as int, j as int),
            decreases self.buf@.len() - j,
        {
            rest.push(self.buf[j]);
            j = j + 1;
            assert(self.buf@.subrange(total as int, j as int)
                == self.buf@.subrange(total as int, j - 1) + seq![self.buf@[j - 1]]);
        }
        assert(rest@ == self.buf@.subrange(total as int, self.buf@.len() as int));
        self.buf = rest;
        FrameStep::Frame(payload)
    }
}

/// Framing round trip: a frame the encoder produced, followed by any later
/// bytes, decodes to exactly its payload, consuming exactly the frame.
pub proof fn lemma_frame_round_trip(payload: Seq<u8>, rest: Seq<u8>)
    requires
        payload.len() <= MAX_FRAME_LEN,
    ensures
        step_of(frame_bytes(payload) + rest) == FrameStepModel::Frame(payload, rest),
{
    let b = frame_bytes(payload) + rest;
    let n = payload.len() as u32;
    lemma_be32_round_trip(n);
    assert(be32_of(b) == n) by {
        assert(b[0] == u32_be_bytes(n)[0]);
        assert(b[1] == u32_be_bytes(n)[1]);
        assert(b[2] == u32_be_bytes(n)[2]);
        assert(b[3] == u32_be_bytes(n)[3]);
    }
    assert(b.subrange(4, 4 + n as int) =~= payload);
    assert(b.subrange(4 + n as int, b.len() as int) =~= rest);
}

/// No partial read advances the decoder: every strict prefix of a well-formed
/// frame yields nothing and consumes nothing.
pub proof fn lemma_no_partial_frame(payload: Seq<u8>, k: int)
    requires
        payload.len() <= MAX_FRAME_LEN,
        0 <= k < frame_bytes(payload).len(),
    ensures
        step_of(frame_bytes(payload).take(k)) is NeedMore,
{
    let b = frame_bytes(payload).take(k);
    let n = payload.len() as u32;
    if k < 4 {
        assert(b.len() < 4);
    } else {
        lemma_be32_round_trip(n);
        assert(b[0] == u32_be_bytes(n)[0]);
        assert(b[1] == u32_be_bytes(n)[1]);
        assert(b[2] == u32_be_bytes(n)[2]);
        assert(b[3] == u32_be_bytes(n)[3]);
        assert(be32_of(b) == n);
        assert(b.len() < 4 + n);
    }
}

} // verus!
