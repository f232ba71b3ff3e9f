//! Length-prefixed framing of IPC messages: a 4-byte big-endian length
//! followed by that many payload bytes.

use vstd::prelude::*;
use crate::ids::{decimal_text, push_decimal};

verus! {

/// Largest payload a frame may carry (1 MiB).
pub const MAX_MESSAGE_SIZE: usize = 1024 * 1024;

/// Errors of the IPC protocol.
#[derive(Debug)]
pub enum ProtocolError {
    /// Transport failure, with its description.
    Io(String),
    /// Malformed JSON payload, with its description.
    Json(String),
    /// The peer closed the connection before a frame header arrived.
    ConnectionClosed,
    /// A frame announced or carried more than `MAX_MESSAGE_SIZE` bytes.
    MessageTooLarge(usize),
}

/// The message of a protocol error.
pub open spec fn protocol_error_text(e: ProtocolError) -> Seq<char> {
    match e {
        ProtocolError::Io(m) => "IO error: "@ + m@,
        ProtocolError::Json(m) => "JSON error: "@ + m@,
        ProtocolError::ConnectionClosed => "Connection closed"@,
        ProtocolError::MessageTooLarge(n) => "Message too large: "@ + decimal_text(n as nat)
            + " bytes"@,
    }
}

impl ProtocolError {
    /// The message of the error.
    pub fn to_string(&self) -> (m: String)
        ensures
            m@ == protocol_error_text(*self),
    {
        match self {
            ProtocolError::Io(e) => {
                let mut m = String::from_str("IO error: ");
                m.append(e.as_str());
                m
            },
            ProtocolError::Json(e) => {
                let mut m = String::from_str("JSON error: ");
                m.append(e.as_str());
                m
            },
            ProtocolError::ConnectionClosed => String::from_str("Connection closed"),
            ProtocolError::MessageTooLarge(n) => {
                let mut m = String::from_str("Message too large: ");
                push_decimal(&mut m, *n as u64);
                m.append(" bytes");
                m
            },
        }
    }
}

/// Big-endian value of four bytes.
pub open spec fn be_u32_value(b: Seq<u8>) -> int
    recommends
        b.len() == 4,
{
    b[0] * 16777216 + b[1] * 65536 + b[2] * 256 + b[3]
}

/// The four big-endian bytes of `n`.
pub open spec fn be_u32_bytes(n: nat) -> Seq<u8> {
    seq![
        (n / 16777216 % 256) as u8,
        (n / 65536 % 256) as u8,
        (n / 256 % 256) as u8,
        (n % 256) as u8,
    ]
}

/// The frame that carries `data`.
pub open spec fn frame_of(data: Seq<u8>) -> Seq<u8> {
    be_u32_bytes(data.len()) + data
}

/// Outcome of reading one frame from the front of a buffer.
pub enum FrameRead {
    /// Not enough bytes yet for a header or for the announced payload.
    Incomplete,
    /// A whole frame: its payload and the number of bytes it spans.
    Complete { payload: Vec<u8>, consumed: usize },
}

/// What reading a frame from the front of `buf` gives.
pub open spec fn spec_read_frame(buf: Seq<u8>) -> Result<Option<(Seq<u8>, int)>, usize> {
    if buf.len() < 4 {
        Ok(None)
    } else {
        let len = be_u32_value(buf.subrange(0, 4));
        if len > MAX_MESSAGE_SIZE {
            Err(len as usize)
        } else if buf.len() < 4 + len {
            Ok(None)
        } else {
            Ok(Some((buf.subrange(4, 4 + len), 4 + len)))
        }
    }
}


fn be_bytes_of(n: u32) -> (b: [u8; 4])
    ensures
        b@ == be_u32_bytes(n as nat),
{
    let b0 = (n / 16777216 % 256) as u8;
    let b1 = (n / 65536 % 256) as u8;
    let b2 = (n / 256 % 256) as u8;
    let b3 = (n % 256) as u8;
    let b = [b0, b1, b2, b3];
    assert(b@ =~= be_u32_bytes(n as nat));
    b
}

/// Builds the frame for `data`: its length as four big-endian bytes, then
/// the data. A payload longer than `MAX_MESSAGE_SIZE` is refused.
pub fn frame_message(data: &[u8]) -> (res: Result<Vec<u8>, ProtocolError>)
    ensures
        data@.len() <= MAX_MESSAGE_SIZE ==> (res matches Ok(v) && v@ == frame_of(data@)),
        data@.len() > MAX_MESSAGE_SIZE ==> (res matches Err(ProtocolError::MessageTooLarge(n))
            && n == data@.len()),
{
    if data.len() > MAX_MESSAGE_SIZE {
        return Err(ProtocolError::MessageTooLarge(data.len()));
    }
    let header = be_bytes_of(data.len() as u32);
    let mut out: Vec<u8> = Vec::with_capacity(data.len() + 4);
    out.push(header[0]);
    out.push(header[1]);
    out.push(header[2]);
    out.push(header[3]);
    let mut i: usize = 0;
    while i < data.len()
        invariant
            i <= data@.len(),
            out@ == header@ + data@.subrange(0, i as int),
        decreases data@.len() - i,
    {
        out.push(data[i]);
        i += 1;
        assert(out@ =~= header@ + data@.subrange(0, i as int));
    }
    assert(data@.subrange(0, data@.len() as int) =~= data@);
    Ok(out)
}

/// Payload length announced by a frame header; a length above
/// `MAX_MESSAGE_SIZE` is refused.
pub fn frame_payload_len(header: [u8; 4]) -> (res: Result<usize, ProtocolError>)
    ensures
        be_u32_value(header@) <= MAX_MESSAGE_SIZE ==> (res matches Ok(n) && n == be_u32_value(
            header@,
        )),
        be_u32_value(header@) > MAX_MESSAGE_SIZE ==> (res matches Err(
            ProtocolError::MessageTooLarge(n),
        ) && n == be_u32_value(header@)),
{
    let v: u64 = header[0] as u64 * 16777216 + header[1] as u64 * 65536 + header[2] as u64 * 256
        + header[3] as u64;
    if v > MAX_MESSAGE_SIZE as u64 {
        Err(ProtocolError::MessageTooLarge(v as usize))
    } else {
        Ok(v as usize)
    }
}

/// Reads one frame from the front of `buf`.
pub fn read_frame(buf: &[u8]) -> (res: Result<FrameRead, ProtocolError>)
    ensures
        match spec_read_frame(buf@) {
            Ok(None) => res matches Ok(FrameRead::Incomplete),
            Ok(Some((payload, consumed))) => res matches Ok(
                FrameRead::Complete { payload: p, consumed: c },
            ) && p@ == payload && c == consumed,
            Err(n) => res matches Err(ProtocolError::MessageTooLarge(m)) && m == n,
        },
{
    if buf.len() < 4 {
        return Ok(FrameRead::Incomplete);
    }
    let header: [u8; 4] = [buf[0], buf[1], buf[2], buf[3]];
    assert(header@ =~= buf@.subrange(0, 4));
    let len = frame_payload_len(header)?;
    if buf.len() - 4 < len {
        return Ok(FrameRead::Incomplete);
    }
    let mut payload: Vec<u8> = Vec::with_capacity(len);
    let mut i: usize = 0;
    while i < len
        invariant
            i <= len,
            4 + len <= buf@.len(),
            buf@.len() <= usize::MAX,
            payload@ == buf@.subrange(4, 4 + i as int),
        decreases len - i,
    {
        payload.push(buf[4 + i]);
        i += 1;
        assert(payload@ =~= buf@.subrange(4, 4 + i as int));
    }
    Ok(FrameRead::Complete { payload, consumed: 4 + len })
}

proof fn lemma_be_bytes_value(n: u32)
    ensures
        be_u32_value(be_u32_bytes(n as nat)) == n,
{
    let b = be_u32_bytes(n as nat);
    assert(b[0] * 16777216 + b[1] * 65536 + b[2] * 256 + b[3] == n) by (nonlinear_arith)
        requires
            b[0] == (n as nat / 16777216 % 256) as u8,
            b[1] == (n as nat / 65536 % 256) as u8,
            b[2] == (n as nat / 256 % 256) as u8,
            b[3] == (n as nat % 256) as u8,
            n <= 0xffff_ffff,
    ;
}

/// Reading back a frame gives its payload, whatever follows it: a frame
/// written for a payload of at most `MAX_MESSAGE_SIZE` bytes is read back whole.
pub proof fn lemma_frame_roundtrip(data: Seq<u8>, rest: Seq<u8>)
    requires
        data.len() <= MAX_MESSAGE_SIZE,
    ensures
        spec_read_frame(frame_of(data) + rest) == Ok::<Option<(Seq<u8>, int)>, usize>(
            Some((data, 4 + data.len() as int))),
{
    let buf = frame_of(data) + rest;
    lemma_be_bytes_value(data.len() as u32);
    assert(buf.subrange(0, 4) =~= be_u32_bytes(data.len()));
    assert(buf.subrange(4, 4 + data.len() as int) =~= data);
}

} // verus!
