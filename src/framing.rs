use vstd::prelude::*;

verus! {

// On the wire each message is a frame: its length as four bytes, most
// significant first, then that many bytes of encoded message.

/// The number that four bytes give, most significant first.
pub open spec fn be_u32(b: Seq<u8>) -> nat {
    (b[0] as nat) * 0x100_0000 + (b[1] as nat) * 0x1_0000 + (b[2] as nat) * 0x100 + (b[3] as nat)
}

/// The four bytes, most significant first, of a number below 2^32.
pub open spec fn be_bytes(n: nat) -> Seq<u8> {
    seq![
        (n / 0x100_0000) as u8,
        ((n / 0x1_0000) % 0x100) as u8,
        ((n / 0x100) % 0x100) as u8,
        (n % 0x100) as u8,
    ]
}

/// The frame that carries `payload`.
pub open spec fn frame_of(payload: Seq<u8>) -> Seq<u8> {
    be_bytes(payload.len()) + payload
}

/// Whether `buf` starts with a whole frame.
pub open spec fn has_frame(buf: Seq<u8>) -> bool {
    buf.len() >= 4 && buf.len() >= 4 + be_u32(buf)
}

/// The payload of the frame `buf` starts with.
pub open spec fn first_payload(buf: Seq<u8>) -> Seq<u8> {
    buf.subrange(4, 4 + be_u32(buf) as int)
}

/// What is left of `buf` after its first frame.
pub open spec fn after_first(buf: Seq<u8>) -> Seq<u8> {
    buf.subrange(4 + be_u32(buf) as int, buf.len() as int)
}

/// The frame carrying `payload`; `None` where it is too long for its length
/// to fit in four bytes.
pub fn encode_frame(payload: &[u8]) -> (r: Option<Vec<u8>>)
    ensures
        r is Some == (payload@.len() <= u32::MAX),
        r matches Some(f) ==> f@ == frame_of(payload@),
{
    if payload.len() > 0xffff_ffff {
        return None;
    }
    let n = payload.len() as u32;
    let mut out: Vec<u8> = Vec::new();
    out.push((n / 0x100_0000) as u8);
    out.push(((n / 0x1_0000) % 0x100) as u8);
    out.push(((n / 0x100) % 0x100) as u8);
    out.push((n % 0x100) as u8);
    let mut i: usize = 0;
    while i < payload.len()
        invariant
            i <= payload@.len(),
            n == payload@.len(),
            out@ == be_bytes(n as nat) + payload@.subrange(0, i as int),
        decreases payload@.len() - i,
    {
        out.push(payload[i]);
        i = i + 1;
        assert(out@ =~= be_bytes(n as nat) + payload@.subrange(0, i as int));
    }
    assert(payload@.subrange(0, i as int) =~= payload@);
    Some(out)
}

/// Bytes `from..to` of `b`, copied.
fn copy_range(b: &Vec<u8>, from: usize, to: usize) -> (r: Vec<u8>)
    requires
        from <= to <= b@.len(),
    ensures
        r@ == b@.subrange(from as int, to as int),
{
    let mut out: Vec<u8> = Vec::new();
    let mut i = from;
    while i < to
        invariant
            from <= i <= to,
            to <= b@.len(),
            out@ == b@.subrange(from as int, i as int),
        decreases to - i,
    {
        out.push(b[i]);
        i = i + 1;
        assert(out@ =~= b@.subrange(from as int, i as int));
    }
    out
}

/// Splits a byte stream into frames as its bytes arrive.
pub struct FrameReader {
    buffer: Vec<u8>,
}

impl View for FrameReader {
    type V = Seq<u8>;

    /// The bytes received and not yet handed out as frames.
    closed spec fn view(&self) -> Seq<u8> {
        self.buffer@
    }
}

impl FrameReader {
    pub fn new() -> (r: FrameReader)
        ensures
            r@ == Seq::<u8>::empty(),
    {
        FrameReader { buffer: Vec::new() }
    }

    /// Takes in bytes received from the stream.
    pub fn push(&mut self, bytes: &[u8])
        ensures
            final(self)@ == old(self)@ + bytes@,
    {
        let mut i: usize = 0;
        while i < bytes.len()
            invariant
                i <= bytes@.len(),
                self@ == old(self)@ + bytes@.subrange(0, i as int),
            decreases bytes@.len() - i,
        {
            self.buffer.push(bytes[i]);
            i = i + 1;
            assert(self@ =~= old(self)@ + bytes@.subrange(0, i as int));
        }
        assert(bytes@.subrange(0, i as int) =~= bytes@);
    }

    /// The payload of the next whole frame, which is then dropped from the
    /// buffer; `None`, with nothing changed, while no whole frame has arrived.
    pub fn next_frame(&mut self) -> (r: Option<Vec<u8>>)
        ensures
            r is Some == has_frame(old(self)@),
            r matches Some(p) ==> p@ == first_payload(old(self)@) && final(self)@ == after_first(
                old(self)@,
            ),
            r is None ==> final(self)@ == old(self)@,
    {
        let len = self.buffer.len();
        if len < 4 {
            return None;
        }
        let n: u64 = (self.buffer[0] as u64) * 0x100_0000 + (self.buffer[1] as u64) * 0x1_0000
            + (self.buffer[2] as u64) * 0x100 + (self.buffer[3] as u64);
        if (len as u64) - 4 < n {
            return None;
        }
        let end = 4 + n as usize;
        let payload = copy_range(&self.buffer, 4, end);
        let rest = copy_range(&self.buffer, end, len);
        self.buffer = rest;
        Some(payload)
    }
}

/// Reading back what was framed: a frame followed by any bytes gives its
/// payload first, and those bytes are what is left.
pub proof fn lemma_frame_round_trip(payload: Seq<u8>, rest: Seq<u8>)
    requires
        payload.len() <= u32::MAX,
    ensures
        has_frame(frame_of(payload) + rest),
        first_payload(frame_of(payload) + rest) == payload,
        after_first(frame_of(payload) + rest) == rest,
{
    let n = payload.len();
    let b = be_bytes(n);
    let buf = frame_of(payload) + rest;
    assert(buf[0] == b[0] && buf[1] == b[1] && buf[2] == b[2] && buf[3] == b[3]);
    assert(be_u32(buf) == n) by (nonlinear_arith)
        requires
            n <= u32::MAX,
            buf[0] == (n / 0x100_0000) as u8,
            buf[1] == ((n / 0x1_0000) % 0x100) as u8,
            buf[2] == ((n / 0x100) % 0x100) as u8,
            buf[3] == (n % 0x100) as u8,
            be_u32(buf) == (buf[0] as nat) * 0x100_0000 + (buf[1] as nat) * 0x1_0000 + (
            buf[2] as nat) * 0x100 + (buf[3] as nat),
    ;
    assert(first_payload(buf) =~= payload);
    assert(after_first(buf) =~= rest);
}

} // verus!
