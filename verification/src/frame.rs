//! Control-channel (TCP) framing.
//!
//! ```text
//! offset  size  field
//! 0       2     magic   = 0x4C48 (LE ASCII `HL`)
//! 2       1     type    (MsgType)
//! 3       1     seq     (echoed in the response)
//! 4       2     len     payload length (LE)
//! 6       len   payload
//! 6+len   2     crc16   over bytes 2..6+len (type through payload), LE
//! ```

use vstd::prelude::*;

use crate::bytes::{from_le16, hi_byte, le16, lemma_le16_round_trip, lo_byte, put_bytes, put_u16, u16_from_le};
use crate::crc::{crc16, spec_crc16};
use crate::MAGIC;

verus! {

/// Bytes before the payload.
pub const HEADER_LEN: usize = 6;

/// Bytes after the payload.
pub const TRAILER_LEN: usize = 2;

/// Maximum payload length either side will accept.
pub const MAX_PAYLOAD: usize = 1024;

/// Largest complete frame.
pub const MAX_FRAME: usize = 1032;

/// Control message types. Requests and their responses share the type; error
/// responses use `Error`.
#[derive(Clone, Copy, Debug, PartialEq, Eq, Structural)]
pub enum MsgType {
    GetParams,
    GetSources,
    GetPar,
    SetPar,
    SetBlock,
    Commit,
    StreamSetup,
    StreamStart,
    StreamStop,
    Status,
    Error,
}

/// Wire code of each message type.
pub open spec fn msg_type_code(m: MsgType) -> u8 {
    match m {
        MsgType::GetParams => 1,
        MsgType::GetSources => 2,
        MsgType::GetPar => 3,
        MsgType::SetPar => 4,
        MsgType::SetBlock => 5,
        MsgType::Commit => 6,
        MsgType::StreamSetup => 7,
        MsgType::StreamStart => 8,
        MsgType::StreamStop => 9,
        MsgType::Status => 10,
        MsgType::Error => 0xFF,
    }
}

impl MsgType {
    /// The message type carried by wire code `v`, if any.
    pub fn from_u8(v: u8) -> (m: Option<MsgType>)
        ensures
            m matches Some(t) ==> msg_type_code(t) == v,
            m is None <==> !(1 <= v <= 10 || v == 0xFF),
    {
        match v {
            1 => Some(MsgType::GetParams),
            2 => Some(MsgType::GetSources),
            3 => Some(MsgType::GetPar),
            4 => Some(MsgType::SetPar),
            5 => Some(MsgType::SetBlock),
            6 => Some(MsgType::Commit),
            7 => Some(MsgType::StreamSetup),
            8 => Some(MsgType::StreamStart),
            9 => Some(MsgType::StreamStop),
            10 => Some(MsgType::Status),
            0xFF => Some(MsgType::Error),
            _ => None,
        }
    }

    /// Wire code of this message type.
    pub fn code(self) -> (c: u8)
        ensures
            c == msg_type_code(self),
    {
        match self {
            MsgType::GetParams => 1,
            MsgType::GetSources => 2,
            MsgType::GetPar => 3,
            MsgType::SetPar => 4,
            MsgType::SetBlock => 5,
            MsgType::Commit => 6,
            MsgType::StreamSetup => 7,
            MsgType::StreamStart => 8,
            MsgType::StreamStop => 9,
            MsgType::Status => 10,
            MsgType::Error => 0xFF,
        }
    }
}

/// Every message type survives the trip through its wire code, and distinct
/// types have distinct codes.
pub proof fn lemma_msg_type_code_round_trip(m: MsgType, n: MsgType)
    ensures
        1 <= msg_type_code(m) <= 10 || msg_type_code(m) == 0xFF,
        msg_type_code(m) == msg_type_code(n) ==> m == n,
{
}

#[derive(Clone, Copy, Debug, PartialEq, Eq, Structural)]
pub enum FrameError {
    BadMagic,
    BadCrc,
    TooLong,
    Truncated,
}

/// The CRC-protected part of a frame: type, sequence, length and payload.
pub open spec fn frame_body(msg_type: u8, seq: u8, payload: Seq<u8>) -> Seq<u8> {
    seq![msg_type, seq] + le16(payload.len() as u16) + payload
}

/// The complete frame carrying `payload`.
pub open spec fn spec_frame(msg_type: u8, seq: u8, payload: Seq<u8>) -> Seq<u8> {
    le16(MAGIC) + frame_body(msg_type, seq, payload) + le16(
        spec_crc16(frame_body(msg_type, seq, payload)),
    )
}

/// What `decode` gives for a buffer: `(type, seq, payload)` or the error.
pub open spec fn spec_decode(buf: Seq<u8>) -> Result<(u8, u8, Seq<u8>), FrameError> {
    if buf.len() < HEADER_LEN + TRAILER_LEN {
        Err(FrameError::Truncated)
    } else if buf[0] != le16(MAGIC)[0] || buf[1] != le16(MAGIC)[1] {
        Err(FrameError::BadMagic)
    } else {
        let len = from_le16(buf[4], buf[5]) as int;
        if len > MAX_PAYLOAD {
            Err(FrameError::TooLong)
        } else if buf.len() != HEADER_LEN + len + TRAILER_LEN {
            Err(FrameError::Truncated)
        } else if spec_crc16(buf.subrange(2, HEADER_LEN + len)) != from_le16(
            buf[HEADER_LEN + len],
            buf[HEADER_LEN + len + 1],
        ) {
            Err(FrameError::BadCrc)
        } else {
            Ok((buf[2], buf[3], buf.subrange(HEADER_LEN as int, HEADER_LEN + len)))
        }
    }
}

/// Encode a frame into `buf`; returns the total frame length.
/// `buf` must hold at least `HEADER_LEN + payload.len() + TRAILER_LEN`.
pub fn encode(buf: &mut [u8], msg_type: u8, seq: u8, payload: &[u8]) -> (r: Result<
    usize,
    FrameError,
>)
    ensures
        payload@.len() > MAX_PAYLOAD ==> r == Err::<usize, FrameError>(FrameError::TooLong),
        payload@.len() <= MAX_PAYLOAD && old(buf)@.len() < HEADER_LEN + payload@.len()
            + TRAILER_LEN ==> r == Err::<usize, FrameError>(FrameError::Truncated),
        payload@.len() <= MAX_PAYLOAD && old(buf)@.len() >= HEADER_LEN + payload@.len()
            + TRAILER_LEN ==> r is Ok,
        r is Err ==> final(buf)@ == old(buf)@,
        r matches Ok(n) ==> {
            &&& payload@.len() <= MAX_PAYLOAD
            &&& n == HEADER_LEN + payload@.len() + TRAILER_LEN
            &&& n <= old(buf)@.len()
            &&& final(buf)@ == spec_frame(msg_type, seq, payload@) + old(buf)@.skip(n as int)
        },
{
    if payload.len() > MAX_PAYLOAD {
        return Err(FrameError::TooLong);
    }
    let len = payload.len();
    let total = HEADER_LEN + len + TRAILER_LEN;
    if buf.len() < total {
        return Err(FrameError::Truncated);
    }
    let ghost original = buf@;
    put_u16(buf, 0, MAGIC);
    buf[2] = msg_type;
    buf[3] = seq;
    put_u16(buf, 4, len as u16);
    put_bytes(buf, HEADER_LEN, payload);
    let ghost body = frame_body(msg_type, seq, payload@);
    assert(buf@.subrange(2, HEADER_LEN + len) =~= body);
    let crc = crc16(&buf[2..HEADER_LEN + len]);
    put_u16(buf, HEADER_LEN + len, crc);
    assert(buf@ =~= spec_frame(msg_type, seq, payload@) + original.skip(total as int));
    Ok(total)
}

/// Decode a complete frame from `buf` (exactly one frame, length already
/// established from the header). Returns `(type, seq, payload)`.
pub fn decode(buf: &[u8]) -> (r: Result<(u8, u8, &[u8]), FrameError>)
    ensures
        match r {
            Ok((t, s, p)) => spec_decode(buf@) == Ok::<(u8, u8, Seq<u8>), FrameError>(
                (t, s, p@),
            ),
            Err(e) => spec_decode(buf@) == Err::<(u8, u8, Seq<u8>), FrameError>(e),
        },
{
    if buf.len() < HEADER_LEN + TRAILER_LEN {
        return Err(FrameError::Truncated);
    }
    if buf[0] != lo_byte(MAGIC) || buf[1] != hi_byte(MAGIC) {
        return Err(FrameError::BadMagic);
    }
    let len = u16_from_le(buf[4], buf[5]) as usize;
    if len > MAX_PAYLOAD {
        return Err(FrameError::TooLong);
    }
    if buf.len() != HEADER_LEN + len + TRAILER_LEN {
        return Err(FrameError::Truncated);
    }
    let crc_stored = u16_from_le(buf[HEADER_LEN + len], buf[HEADER_LEN + len + 1]);
    if crc16(&buf[2..HEADER_LEN + len]) != crc_stored {
        return Err(FrameError::BadCrc);
    }
    Ok((buf[2], buf[3], &buf[HEADER_LEN..HEADER_LEN + len]))
}

/// Round trip: decoding an encoded frame gives back its type, sequence
/// number and payload.
pub proof fn lemma_decode_encode(msg_type: u8, seq: u8, payload: Seq<u8>)
    requires
        payload.len() <= MAX_PAYLOAD,
    ensures
        spec_decode(spec_frame(msg_type, seq, payload)) == Ok::<(u8, u8, Seq<u8>), FrameError>(
            (msg_type, seq, payload),
        ),
{
    let f = spec_frame(msg_type, seq, payload);
    let body = frame_body(msg_type, seq, payload);
    let len = payload.len();
    lemma_le16_round_trip(len as u16);
    lemma_le16_round_trip(spec_crc16(body));
    assert(f[4] == le16(len as u16)[0]);
    assert(f[5] == le16(len as u16)[1]);
    assert(from_le16(f[4], f[5]) == len);
    assert(f.subrange(2, HEADER_LEN + len) =~= body);
    assert(f[HEADER_LEN + len] == le16(spec_crc16(body))[0]);
    assert(f[HEADER_LEN + len + 1] == le16(spec_crc16(body))[1]);
    assert(f.subrange(HEADER_LEN as int, HEADER_LEN + len) =~= payload);
}

} // verus!
