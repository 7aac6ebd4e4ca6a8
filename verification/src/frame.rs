//! Length-prefixed frames: a 4-byte big-endian length, then the body.

use vstd::prelude::*;
use crate::text::{decimal, decimal_spec};
use vstd::string::*;

verus! {

/// Hard cap on a frame body (1 MiB).
pub const MAX_FRAME_BYTES: u32 = 1048576;

#[derive(Debug)]
pub enum FrameError {
    /// Read timed out / would block; the session stays alive.
    Timeout,
    /// Peer closed or hard I/O failure.
    Io(String),
    /// The length prefix exceeds `MAX_FRAME_BYTES`.
    TooLarge(u32),
}

impl FrameError {
    pub fn is_timeout(&self) -> (r: bool)
        ensures
            r == (*self is Timeout),
    {
        match self {
            FrameError::Timeout => true,
            _ => false,
        }
    }

    /// The error as it is shown in logs.
    pub fn text(&self) -> (r: String)
        ensures
            match self {
                FrameError::Timeout => r@ == "timeout"@,
                FrameError::Io(s) => r@ == s@,
                FrameError::TooLarge(n) => r@ == "frame length "@ + decimal_spec(*n as nat)
                    + " exceeds max 1048576"@,
            },
    {
        match self {
            FrameError::Timeout => String::from_str("timeout"),
            FrameError::Io(s) => s.clone(),
            FrameError::TooLarge(n) => {
                let mut r = String::from_str("frame length ");
                let d = decimal(*n as u64);
                crate::text::append_str(&mut r, d.as_str());
                crate::text::append_str(&mut r, " exceeds max 1048576");
                r
            },
        }
    }
}

/// The kinds of I/O failure the framing layer tells apart.
#[derive(PartialEq, Eq, Structural)]
pub enum IoErrorKind {
    WouldBlock,
    TimedOut,
    Interrupted,
    UnexpectedEof,
    Other,
}

/// Maps an I/O failure to a frame error: retryable kinds become `Timeout`,
/// everything else `Io("{ctx}: {err_text}")`.
pub fn map_io(kind: IoErrorKind, ctx: &str, err_text: &str) -> (r: FrameError)
    ensures
        (kind == IoErrorKind::WouldBlock || kind == IoErrorKind::TimedOut || kind
            == IoErrorKind::Interrupted) ==> r is Timeout,
        !(kind == IoErrorKind::WouldBlock || kind == IoErrorKind::TimedOut || kind
            == IoErrorKind::Interrupted) ==> (r matches FrameError::Io(m) && m@ == ctx@ + ": "@
            + err_text@),
{
    match kind {
        IoErrorKind::WouldBlock | IoErrorKind::TimedOut | IoErrorKind::Interrupted => {
            FrameError::Timeout
        },
        _ => {
            let mut m = String::from_str(ctx);
            m.append(": ");
            m.append(err_text);
            FrameError::Io(m)
        },
    }
}

/// Big-endian bytes of `n`.
pub open spec fn be_bytes(n: u32) -> Seq<u8> {
    seq![(n / 0x1000000) as u8, ((n / 0x10000) % 0x100) as u8, ((n / 0x100) % 0x100) as u8, (n % 0x100) as u8]
}

/// Value of four big-endian bytes.
pub open spec fn be_value(b0: u8, b1: u8, b2: u8, b3: u8) -> int {
    b0 * 0x1000000 + b1 * 0x10000 + b2 * 0x100 + b3
}

/// The bytes `write_frame` emits for `body`: the length (as `u32`) then the body.
pub open spec fn frame_bytes(body: Seq<u8>) -> Seq<u8> {
    be_bytes(body.len() as u32) + body
}

/// Message of the error `write_frame` returns for an oversized body.
pub open spec fn too_large_msg(len: nat) -> Seq<char> {
    "frame too large: "@ + decimal_spec(len) + " > "@ + decimal_spec(MAX_FRAME_BYTES as nat)
}

pub proof fn lemma_be_roundtrip(n: u32)
    ensures
        be_value(be_bytes(n)[0], be_bytes(n)[1], be_bytes(n)[2], be_bytes(n)[3]) == n,
{
}

fn to_be(n: u32) -> (b: [u8; 4])
    ensures
        b@ == be_bytes(n),
{
    let b0 = (n >> 24) as u8;
    let b1 = ((n >> 16) & 0xff) as u8;
    let b2 = ((n >> 8) & 0xff) as u8;
    let b3 = (n & 0xff) as u8;
    assert((n >> 24) as u8 == (n / 0x1000000) as u8) by (bit_vector);
    assert(((n >> 16) & 0xff) as u8 == ((n / 0x10000) % 0x100) as u8) by (bit_vector);
    assert(((n >> 8) & 0xff) as u8 == ((n / 0x100) % 0x100) as u8) by (bit_vector);
    assert((n & 0xff) as u8 == (n % 0x100) as u8) by (bit_vector);
    let b = [b0, b1, b2, b3];
    assert(b@ =~= be_bytes(n));
    b
}

fn from_be(b0: u8, b1: u8, b2: u8, b3: u8) -> (n: u32)
    ensures
        n == be_value(b0, b1, b2, b3),
{
    let n = ((b0 as u32) << 24) | ((b1 as u32) << 16) | ((b2 as u32) << 8) | (b3 as u32);
    assert(((b0 as u32) << 24) | ((b1 as u32) << 16) | ((b2 as u32) << 8) | (b3 as u32) == b0
        * 0x1000000 + b1 * 0x10000 + b2 * 0x100 + b3) by (bit_vector);
    n
}

/// Appends one frame for `body` to `out`. A body over the 1 MiB cap is
/// refused, by its full length, and nothing is written.
pub fn write_frame(out: &mut Vec<u8>, body: &[u8]) -> (r: Result<(), String>)
    ensures
        body@.len() > MAX_FRAME_BYTES ==> (r matches Err(m) && m@ == too_large_msg(body@.len())
            && final(out)@ == old(out)@),
        body@.len() <= MAX_FRAME_BYTES ==> (r is Ok && final(out)@ == old(out)@ + frame_bytes(
            body@)),
{
    if body.len() > MAX_FRAME_BYTES as usize {
        let mut m = String::from_str("frame too large: ");
        let a = decimal(body.len() as u64);
        m.append(a.as_str());
        m.append(" > ");
        let b = decimal(MAX_FRAME_BYTES as u64);
        m.append(b.as_str());
        return Err(m);
    }
    let len = body.len() as u32;
    let hdr = to_be(len);
    let ghost start = out@;
    let mut i: usize = 0;
    while i < 4
        invariant
            i <= 4,
            hdr@ == be_bytes(len),
            out@ == start + hdr@.subrange(0, i as int),
        decreases 4 - i,
    {
        out.push(hdr[i]);
        i = i + 1;
    }
    let mut j: usize = 0;
    while j < body.len()
        invariant
            j <= body@.len(),
            out@ == start + hdr@ + body@.subrange(0, j as int),
        decreases body@.len() - j,
    {
        out.push(body[j]);
        j = j + 1;
    }
    assert(body@.subrange(0, body@.len() as int) =~= body@);
    assert(hdr@.subrange(0, 4) =~= hdr@);
    Ok(())
}

/// Result of reading one frame from position `p` of `d`.
pub enum FrameRead {
    Body(Seq<u8>, int),
    TooLarge(u32, int),
    ShortLen,
    ShortBody,
}

/// What `read_frame` reads at position `p` of the buffer `d`.
pub open spec fn frame_at(d: Seq<u8>, p: int) -> FrameRead {
    if p + 4 > d.len() {
        FrameRead::ShortLen
    } else {
        let len = be_value(d[p], d[p + 1], d[p + 2], d[p + 3]);
        if len > MAX_FRAME_BYTES {
            FrameRead::TooLarge(len as u32, p + 4)
        } else if p + 4 + len > d.len() {
            FrameRead::ShortBody
        } else {
            FrameRead::Body(d.subrange(p + 4, p + 4 + len), p + 4 + len)
        }
    }
}

/// An in-memory byte source with a read position.
pub struct ByteCursor {
    data: Vec<u8>,
    pos: usize,
}

impl ByteCursor {
    pub closed spec fn data(&self) -> Seq<u8> {
        self.data@
    }

    pub closed spec fn pos(&self) -> int {
        self.pos as int
    }

    pub closed spec fn wf(&self) -> bool {
        self.pos <= self.data@.len()
    }

    pub fn new(data: Vec<u8>) -> (c: Self)
        ensures
            c.wf(),
            c.data() == data@,
            c.pos() == 0,
    {
        ByteCursor { data, pos: 0 }
    }

    pub fn position(&self) -> (p: usize)
        ensures
            p == self.pos(),
    {
        self.pos
    }
}

/// Text of the end-of-input error that a short read reports.
pub open spec fn eof_text() -> Seq<char> {
    "failed to fill whole buffer"@
}

/// Reads one frame. A short read is an `Io` error naming the part being
/// read; a short read leaves the cursor at the end of its data.
pub fn read_frame(reader: &mut ByteCursor) -> (r: Result<Vec<u8>, FrameError>)
    requires
        old(reader).wf(),
    ensures
        final(reader).wf(),
        final(reader).data() == old(reader).data(),
        match frame_at(old(reader).data(), old(reader).pos()) {
            FrameRead::Body(b, next) => r matches Ok(v) && v@ == b && final(reader).pos()
                == next,
            FrameRead::TooLarge(n, next) => r matches Err(FrameError::TooLarge(m)) && m == n
                && final(reader).pos() == next,
            FrameRead::ShortLen => r matches Err(FrameError::Io(m)) && m@ == "read frame len"@ + ": "@
                + eof_text() && final(reader).pos() == old(reader).data().len(),
            FrameRead::ShortBody => r matches Err(FrameError::Io(m)) && m@
                == "read frame body"@ + ": "@ + eof_text() && final(reader).pos() == old(
                reader).data().len(),
        },
{
    let n = reader.data.len();
    let p = reader.pos;
    if n - p < 4 {
        reader.pos = n;
        return Err(map_io(IoErrorKind::UnexpectedEof, "read frame len", "failed to fill whole buffer"));
    }
    let len = from_be(reader.data[p], reader.data[p + 1], reader.data[p + 2], reader.data[p + 3]);
    if len > MAX_FRAME_BYTES {
        reader.pos = p + 4;
        return Err(FrameError::TooLarge(len));
    }
    let start = p + 4;
    if ((n - start) as u64) < (len as u64) {
        reader.pos = n;
        return Err(map_io(IoErrorKind::UnexpectedEof, "read frame body", "failed to fill whole buffer"));
    }
    let end = start + len as usize;
    let mut body: Vec<u8> = Vec::new();
    let mut i = start;
    while i < end
        invariant
            start <= i <= end <= reader.data@.len(),
            body@ == reader.data@.subrange(start as int, i as int),
        decreases end - i,
    {
        body.push(reader.data[i]);
        i = i + 1;
    }
    reader.pos = end;
    Ok(body)
}

/// Decodes the 4-byte length prefix read from a stream.
pub fn frame_body_len(b: [u8; 4]) -> (r: Result<u32, FrameError>)
    ensures
        be_value(b@[0], b@[1], b@[2], b@[3]) <= MAX_FRAME_BYTES ==> (r matches Ok(n) && n
            == be_value(b@[0], b@[1], b@[2], b@[3])),
        be_value(b@[0], b@[1], b@[2], b@[3]) > MAX_FRAME_BYTES ==> (r matches Err(
            FrameError::TooLarge(n)) && n == be_value(b@[0], b@[1], b@[2], b@[3])),
{
    let n = from_be(b[0], b[1], b[2], b[3]);
    if n > MAX_FRAME_BYTES {
        Err(FrameError::TooLarge(n))
    } else {
        Ok(n)
    }
}

/// Law: a frame written for any body within the cap reads back as that
/// body, whatever bytes precede or follow it.
pub proof fn lemma_frame_roundtrip(prefix: Seq<u8>, body: Seq<u8>, rest: Seq<u8>)
    requires
        body.len() <= MAX_FRAME_BYTES,
    ensures
        frame_at(prefix + frame_bytes(body) + rest, prefix.len() as int) == FrameRead::Body(
            body,
            (prefix.len() + 4 + body.len()) as int,
        ),
{
    let d = prefix + frame_bytes(body) + rest;
    let p = prefix.len() as int;
    let h = be_bytes(body.len() as u32);
    assert(d[p] == h[0]);
    assert(d[p + 1] == h[1]);
    assert(d[p + 2] == h[2]);
    assert(d[p + 3] == h[3]);
    lemma_be_roundtrip(body.len() as u32);
    assert(d.subrange(p + 4, p + 4 + body.len()) =~= body);
}

} // verus!
