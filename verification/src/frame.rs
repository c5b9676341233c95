//! Length-prefixed framing over an ordered byte stream: a big-endian
//! `u32` length followed by that many payload octets. Frames above
//! 16 MiB are rejected before any payload is copied.

use vstd::prelude::*;
use vstd::utf8::{encode_utf8, decode_utf8, valid_utf8};
use crate::protocol::{ClientMessage, ServerMessage, ClientMsgView, ServerMsgView};
use crate::json::{print_client, print_server, encode_client, encode_server};
use crate::decode::{decode_client_chars, decode_server_chars};
use crate::parse::{parse_client_chars, parse_server_chars};
use crate::ext::{bytes_to_string, str_to_chars};
use vstd::string::StrSliceExecFns;

verus! {

/// The largest payload a frame may declare, in bytes.
pub const MAX_FRAME_LEN: u32 = 16 * 1024 * 1024;

/// What can go wrong at the framing layer.
#[derive(Debug, Clone, Copy, PartialEq, Eq, Structural)]
pub enum FrameError {
    /// The frame declares a payload above `MAX_FRAME_LEN`.
    FrameTooLarge,
    /// The stream ended inside a frame.
    UnexpectedEof,
    /// The payload is not a well-formed message text.
    DecodeError,
    /// The message cannot be represented as a frame.
    EncodeError,
}

/// The four big-endian bytes of a `u32`.
pub open spec fn be_bytes(n: u32) -> Seq<u8> {
    seq![(n >> 24) as u8, (n >> 16) as u8, (n >> 8) as u8, n as u8]
}

/// The `u32` read from four big-endian bytes.
pub open spec fn u32_be(b0: u8, b1: u8, b2: u8, b3: u8) -> u32 {
    ((b0 as u32) * 0x1000000 + (b1 as u32) * 0x10000 + (b2 as u32) * 0x100 + (b3 as u32)) as u32
}

/// Reading back the big-endian bytes of `n` gives `n`.
pub proof fn lemma_be_round_trip(n: u32)
    ensures
        u32_be((n >> 24) as u8, (n >> 16) as u8, (n >> 8) as u8, n as u8) == n,
{
    assert((((n >> 24) as u8) as u32) * 0x1000000 + (((n >> 16) as u8) as u32) * 0x10000 + (((n
        >> 8) as u8) as u32) * 0x100 + ((n as u8) as u32) == n) by (bit_vector);
}

/// The big-endian bytes of a `u32`, as a vector.
pub fn u32_to_be(n: u32) -> (r: Vec<u8>)
    ensures
        r@ == be_bytes(n),
{
    let mut v: Vec<u8> = Vec::new();
    v.push((n >> 24) as u8);
    v.push((n >> 16) as u8);
    v.push((n >> 8) as u8);
    v.push(n as u8);
    proof {
        assert(v@ =~= be_bytes(n));
    }
    v
}

/// Reads a `u32` from four big-endian bytes.
pub fn be_to_u32(b0: u8, b1: u8, b2: u8, b3: u8) -> (r: u32)
    ensures
        r == u32_be(b0, b1, b2, b3),
{
    (b0 as u32) * 0x1000000 + (b1 as u32) * 0x10000 + (b2 as u32) * 0x100 + (b3 as u32)
}

/// How one frame is carved out of a byte stream at position `pos`:
/// `Ok(None)` on a clean end exactly between frames, an error on a
/// truncated or oversized frame, and otherwise the payload octets with
/// the position after them.
pub open spec fn frame_split(bytes: Seq<u8>, pos: int) -> Result<Option<(Seq<u8>, int)>, FrameError>
{
    if pos == bytes.len() {
        Ok(None)
    } else if bytes.len() - pos < 4 {
        Err(FrameError::UnexpectedEof)
    } else {
        let n = u32_be(bytes[pos], bytes[pos + 1], bytes[pos + 2], bytes[pos + 3]);
        if n > MAX_FRAME_LEN {
            Err(FrameError::FrameTooLarge)
        } else if bytes.len() - pos - 4 < n {
            Err(FrameError::UnexpectedEof)
        } else {
            Ok(Some((bytes.subrange(pos + 4, pos + 4 + n), pos + 4 + n)))
        }
    }
}

/// Carves one frame out of `buf` at `pos`, as `frame_split` says; the
/// declared length is checked against `MAX_FRAME_LEN` before any payload
/// byte is copied.
pub fn read_frame(buf: &Vec<u8>, pos: usize) -> (r: Result<Option<(Vec<u8>, usize)>, FrameError>)
    requires
        pos <= buf@.len(),
    ensures
        match r {
            Ok(o) => match o {
                Some(p) => frame_split(buf@, pos as int) == Ok::<_, FrameError>(
                    Some((p.0@, p.1 as int)),
                ) && p.1 <= buf@.len(),
                None => frame_split(buf@, pos as int) == Ok::<Option<(Seq<u8>, int)>, FrameError>(
                    None,
                ),
            },
            Err(e) => frame_split(buf@, pos as int) == Err::<Option<(Seq<u8>, int)>, _>(e),
        },
{
    if pos == buf.len() {
        return Ok(None);
    }
    if buf.len() - pos < 4 {
        return Err(FrameError::UnexpectedEof);
    }
    let n = be_to_u32(buf[pos], buf[pos + 1], buf[pos + 2], buf[pos + 3]);
    if n > MAX_FRAME_LEN {
        return Err(FrameError::FrameTooLarge);
    }
    let len = n as usize;
    if buf.len() - pos - 4 < len {
        return Err(FrameError::UnexpectedEof);
    }
    let slen = buf.len();
    let mut payload: Vec<u8> = Vec::new();
    let mut k: usize = 0;
    while k < len
        invariant
            0 <= k <= len,
            slen == buf@.len(),
            pos + 4 + len <= buf@.len(),
            payload@ == buf@.subrange(pos + 4, pos + 4 + k),
        decreases len - k,
    {
        payload.push(buf[pos + 4 + k]);
        k = k + 1;
        proof {
            assert(payload@ =~= buf@.subrange(pos + 4, pos + 4 + k));
        }
    }
    Ok(Some((payload, pos + 4 + len)))
}

/// Wraps a payload in a length-prefixed frame; only a payload whose
/// length does not fit in a `u32` is refused.
pub fn encode_frame(payload: &Vec<u8>) -> (r: Result<Vec<u8>, FrameError>)
    ensures
        payload@.len() <= u32::MAX ==> (r matches Ok(v) && v@ == be_bytes(payload@.len() as u32)
            + payload@),
        payload@.len() > u32::MAX ==> r == Err::<Vec<u8>, _>(FrameError::EncodeError),
{
    if payload.len() > u32::MAX as usize {
        return Err(FrameError::EncodeError);
    }
    let n = payload.len() as u32;
    let mut out = u32_to_be(n);
    let ghost prefix = out@;
    let mut k: usize = 0;
    while k < payload.len()
        invariant
            0 <= k <= payload@.len(),
            prefix == be_bytes(payload@.len() as u32),
            out@ == prefix + payload@.subrange(0, k as int),
        decreases payload@.len() - k,
    {
        out.push(payload[k]);
        k = k + 1;
        proof {
            assert(out@ =~= prefix + payload@.subrange(0, k as int));
        }
    }
    proof {
        assert(payload@.subrange(0, payload@.len() as int) =~= payload@);
    }
    Ok(out)
}

/// The full frame bytes of a client-to-server message.
pub open spec fn client_frame_bytes(m: ClientMsgView) -> Seq<u8> {
    be_bytes(encode_utf8(print_client(m)).len() as u32) + encode_utf8(print_client(m))
}

/// The full frame bytes of a server-to-client message.
pub open spec fn server_frame_bytes(m: ServerMsgView) -> Seq<u8> {
    be_bytes(encode_utf8(print_server(m)).len() as u32) + encode_utf8(print_server(m))
}

/// Frames a client-to-server message: canonical JSON text, UTF-8 bytes,
/// length prefix.
pub fn encode_client_frame(m: &ClientMessage) -> (r: Result<Vec<u8>, FrameError>)
    ensures
        encode_utf8(print_client(m@)).len() <= u32::MAX ==> (r matches Ok(v) && v@
            == client_frame_bytes(m@)),
        encode_utf8(print_client(m@)).len() > u32::MAX ==> r == Err::<Vec<u8>, _>(
            FrameError::EncodeError,
        ),
{
    let json = encode_client(m);
    let bytes = json.as_str().as_bytes_vec();
    encode_frame(&bytes)
}

/// Frames a server-to-client message.
pub fn encode_server_frame(m: &ServerMessage) -> (r: Result<Vec<u8>, FrameError>)
    ensures
        encode_utf8(print_server(m@)).len() <= u32::MAX ==> (r matches Ok(v) && v@
            == server_frame_bytes(m@)),
        encode_utf8(print_server(m@)).len() > u32::MAX ==> r == Err::<Vec<u8>, _>(
            FrameError::EncodeError,
        ),
{
    let json = encode_server(m);
    let bytes = json.as_str().as_bytes_vec();
    encode_frame(&bytes)
}

/// What reading one client-to-server message out of a byte stream yields:
/// the frame is carved out, its payload must be UTF-8 and parse as a
/// message; `Ok(None)` only on a clean end between frames.
pub open spec fn spec_read_client(bytes: Seq<u8>, pos: int) -> Result<
    Option<(ClientMsgView, int)>,
    FrameError,
> {
    match frame_split(bytes, pos) {
        Err(e) => Err(e),
        Ok(None) => Ok(None),
        Ok(Some((payload, p2))) => {
            if !valid_utf8(payload) {
                Err(FrameError::DecodeError)
            } else {
                match parse_client_chars(decode_utf8(payload)) {
                    None => Err(FrameError::DecodeError),
                    Some(v) => Ok(Some((v, p2))),
                }
            }
        },
    }
}

/// What reading one server-to-client message yields.
pub open spec fn spec_read_server(bytes: Seq<u8>, pos: int) -> Result<
    Option<(ServerMsgView, int)>,
    FrameError,
> {
    match frame_split(bytes, pos) {
        Err(e) => Err(e),
        Ok(None) => Ok(None),
        Ok(Some((payload, p2))) => {
            if !valid_utf8(payload) {
                Err(FrameError::DecodeError)
            } else {
                match parse_server_chars(decode_utf8(payload)) {
                    None => Err(FrameError::DecodeError),
                    Some(v) => Ok(Some((v, p2))),
                }
            }
        },
    }
}

/// Reads one framed client-to-server message out of `buf` at `pos`, as
/// `spec_read_client` says.
pub fn read_client_msg(buf: &Vec<u8>, pos: usize) -> (r: Result<
    Option<(ClientMessage, usize)>,
    FrameError,
>)
    requires
        pos <= buf@.len(),
    ensures
        match r {
            Ok(o) => match o {
                Some(p) => spec_read_client(buf@, pos as int) == Ok::<_, FrameError>(
                    Some((p.0@, p.1 as int)),
                ) && p.1 <= buf@.len(),
                None => spec_read_client(buf@, pos as int) == Ok::<
                    Option<(ClientMsgView, int)>,
                    FrameError,
                >(None),
            },
            Err(e) => spec_read_client(buf@, pos as int) == Err::<Option<(ClientMsgView, int)>, _>(
                e,
            ),
        },
{
    let (payload, p2) = match read_frame(buf, pos) {
        Err(e) => {
            return Err(e);
        },
        Ok(None) => {
            return Ok(None);
        },
        Ok(Some(p)) => p,
    };
    let text = match bytes_to_string(payload) {
        None => {
            return Err(FrameError::DecodeError);
        },
        Some(t) => t,
    };
    proof {
        vstd::utf8::encode_utf8_valid_utf8(text@);
        vstd::utf8::encode_utf8_decode_utf8(text@);
    }
    let chars = str_to_chars(text.as_str());
    match decode_client_chars(&chars) {
        None => Err(FrameError::DecodeError),
        Some(m) => Ok(Some((m, p2))),
    }
}

/// Reads one framed server-to-client message out of `buf` at `pos`, as
/// `spec_read_server` says.
pub fn read_server_msg(buf: &Vec<u8>, pos: usize) -> (r: Result<
    Option<(ServerMessage, usize)>,
    FrameError,
>)
    requires
        pos <= buf@.len(),
    ensures
        match r {
            Ok(o) => match o {
                Some(p) => spec_read_server(buf@, pos as int) == Ok::<_, FrameError>(
                    Some((p.0@, p.1 as int)),
                ) && p.1 <= buf@.len(),
                None => spec_read_server(buf@, pos as int) == Ok::<
                    Option<(ServerMsgView, int)>,
                    FrameError,
                >(None),
            },
            Err(e) => spec_read_server(buf@, pos as int) == Err::<Option<(ServerMsgView, int)>, _>(
                e,
            ),
        },
{
    let (payload, p2) = match read_frame(buf, pos) {
        Err(e) => {
            return Err(e);
        },
        Ok(None) => {
            return Ok(None);
        },
        Ok(Some(p)) => p,
    };
    let text = match bytes_to_string(payload) {
        None => {
            return Err(FrameError::DecodeError);
        },
        Some(t) => t,
    };
    proof {
        vstd::utf8::encode_utf8_valid_utf8(text@);
        vstd::utf8::encode_utf8_decode_utf8(text@);
    }
    let chars = str_to_chars(text.as_str());
    match decode_server_chars(&chars) {
        None => Err(FrameError::DecodeError),
        Some(m) => Ok(Some((m, p2))),
    }
}

} // verus!
