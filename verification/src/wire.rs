//! The wire codec: the fixed-size request/response envelope and the
//! length-prefixed binary string primitive that every nested payload
//! section uses. Everything on the wire is little-endian.

use vstd::prelude::*;

verus! {

use vstd::bytes::{
    spec_u16_from_le_bytes, spec_u32_from_le_bytes, spec_u32_to_le_bytes, u16_from_le_bytes,
    u32_from_le_bytes, u32_to_le_bytes,
};
use vstd::slice::{slice_index_get, slice_subrange, slice_to_vec};
use vstd::utf8::{decode_utf8, valid_utf8};

use crate::error::ProtocolError;

/// The protocol version this client speaks.
pub const PROTOCOL_VERSION: u32 = 2;

/// Message type: version negotiation.
pub const REQ_REQUEST_PROTOCOL_VERSION: u32 = 40;

/// Message type: client-name registration (no response is sent back).
pub const REQ_SET_CLIENT_NAME: u32 = 50;

/// Message type: controller enumeration.
pub const REQ_REQUEST_CONTROLLER_COUNT: u32 = 0;

/// Message type: controller-descriptor retrieval.
pub const REQ_REQUEST_CONTROLLER_DATA: u32 = 1;

/// Message type: LED color update (no response is sent back).
pub const REQ_RGBCONTROLLER_UPDATELEDS: u32 = 1050;

/// The four magic bytes `ORGB` that open every envelope.
pub open spec fn spec_magic() -> Seq<u8> {
    seq![0x4fu8, 0x52u8, 0x47u8, 0x42u8]
}

/// The envelope layout: magic tag, device id, message type, payload length,
/// then the payload itself.
pub open spec fn spec_envelope(device_id: u32, packet_type: u32, payload: Seq<u8>) -> Seq<u8> {
    spec_magic() + spec_u32_to_le_bytes(device_id) + spec_u32_to_le_bytes(packet_type)
        + spec_u32_to_le_bytes(payload.len() as u32) + payload
}

/// Frames one request: the envelope header followed by the payload.
pub fn encode_request(device_id: u32, packet_type: u32, payload: &[u8]) -> (r: Vec<u8>)
    requires
        payload@.len() <= 0xffff_ffff,
    ensures
        r@ == spec_envelope(device_id, packet_type, payload@),
        r@.len() == 16 + payload@.len(),
{
    let mut req: Vec<u8> = Vec::new();
    req.push(0x4f);
    req.push(0x52);
    req.push(0x47);
    req.push(0x42);
    let mut id_bytes = u32_to_le_bytes(device_id);
    req.append(&mut id_bytes);
    let mut ty_bytes = u32_to_le_bytes(packet_type);
    req.append(&mut ty_bytes);
    let mut len_bytes = u32_to_le_bytes(payload.len() as u32);
    req.append(&mut len_bytes);
    let mut body = slice_to_vec(payload);
    req.append(&mut body);
    assert(req@ =~= spec_envelope(device_id, packet_type, payload@));
    req
}

/// Checks a 16-byte response header against the request it answers and
/// returns the payload length it announces. The magic tag and the echoed
/// device id and message type must all match, or the stream cannot be
/// trusted and the response is malformed.
pub fn decode_header(header: &[u8], device_id: u32, packet_type: u32) -> (r: Result<
    u32,
    ProtocolError,
>)
    requires
        header@.len() == 16,
    ensures
        match r {
            Ok(len) => {
                &&& header@.subrange(0, 4) == spec_magic()
                &&& spec_u32_from_le_bytes(header@.subrange(4, 8)) == device_id
                &&& spec_u32_from_le_bytes(header@.subrange(8, 12)) == packet_type
                &&& len == spec_u32_from_le_bytes(header@.subrange(12, 16))
            },
            Err(e) => {
                &&& e == ProtocolError::MalformedResponse
                &&& !{
                    &&& header@.subrange(0, 4) == spec_magic()
                    &&& spec_u32_from_le_bytes(header@.subrange(4, 8)) == device_id
                    &&& spec_u32_from_le_bytes(header@.subrange(8, 12)) == packet_type
                }
            },
        },
{
    let magic_ok = *slice_index_get(header, 0) == 0x4f && *slice_index_get(header, 1) == 0x52
        && *slice_index_get(header, 2) == 0x47 && *slice_index_get(header, 3) == 0x42;
    proof {
        if magic_ok {
            assert(header@.subrange(0, 4) =~= spec_magic());
        } else {
            assert(header@.subrange(0, 4) != spec_magic()) by {
                if header@.subrange(0, 4) == spec_magic() {
                    assert(header@.subrange(0, 4)[0] == header@[0]);
                    assert(header@.subrange(0, 4)[1] == header@[1]);
                    assert(header@.subrange(0, 4)[2] == header@[2]);
                    assert(header@.subrange(0, 4)[3] == header@[3]);
                }
            }
        }
    }
    let r_device_id = u32_from_le_bytes(slice_subrange(header, 4, 8));
    let r_packet_type = u32_from_le_bytes(slice_subrange(header, 8, 12));
    if !magic_ok || r_device_id != device_id || r_packet_type != packet_type {
        return Err(ProtocolError::MalformedResponse);
    }
    let r_len = u32_from_le_bytes(slice_subrange(header, 12, 16));
    Ok(r_len)
}

/// Whether a message of this type is answered by the server at all. The
/// name-registration and LED-update messages are fire-and-forget.
pub fn expects_response(packet_type: u32) -> (r: bool)
    ensures
        r == (packet_type != REQ_SET_CLIENT_NAME && packet_type != REQ_RGBCONTROLLER_UPDATELEDS),
{
    packet_type != REQ_SET_CLIENT_NAME && packet_type != REQ_RGBCONTROLLER_UPDATELEDS
}

/// The length-prefixed string primitive: a 2-byte little-endian length `L`
/// followed by `L` bytes of text, read at `pos`. `None` when either read
/// would run past the end of the buffer.
pub open spec fn spec_parse_string(data: Seq<u8>, pos: int) -> Option<(int, Seq<u8>)> {
    if pos + 2 <= data.len() {
        let l = spec_u16_from_le_bytes(data.subrange(pos, pos + 2)) as int;
        if pos + 2 + l <= data.len() {
            Some((pos + 2 + l, data.subrange(pos + 2, pos + 2 + l)))
        } else {
            None
        }
    } else {
        None
    }
}

/// [`spec_parse_string`] followed by UTF-8 decoding of the raw bytes.
pub open spec fn spec_parse_text(data: Seq<u8>, pos: int) -> Option<(int, Seq<char>)> {
    match spec_parse_string(data, pos) {
        Some((end, bytes)) => if valid_utf8(bytes) {
            Some((end, decode_utf8(bytes)))
        } else {
            None
        },
        None => None,
    }
}

/// Relies on `String::from_utf8` from std: it returns a string exactly when
/// the bytes are valid UTF-8, and that string holds the characters those
/// bytes encode.
#[verifier::external_body]
pub(crate) fn string_from_utf8(bytes: Vec<u8>) -> (r: Option<String>)
    ensures
        r is Some <==> valid_utf8(bytes@),
        r matches Some(s) ==> s@ == decode_utf8(bytes@),
{
    String::from_utf8(bytes).ok()
}

/// Reads one length-prefixed string at `pos`, bounds-checking both the
/// length field and the text against the remaining buffer, and returns the
/// cursor position after it. Out-of-bounds arithmetic and invalid UTF-8 are
/// both data errors, never a panic or an out-of-bounds read.
pub fn parse_string(pos: usize, data: &[u8]) -> (r: Result<(usize, String), ProtocolError>)
    ensures
        match r {
            Ok((end, s)) => {
                &&& spec_parse_text(data@, pos as int) == Some((end as int, s@))
                &&& pos + 2 <= end <= data@.len()
            },
            Err(e) => {
                &&& spec_parse_text(data@, pos as int) is None
                &&& e == ProtocolError::MalformedResponse
            },
        },
{
    let n = data.len();
    if n < 2 || pos > n - 2 {
        return Err(ProtocolError::MalformedResponse);
    }
    let l = u16_from_le_bytes(slice_subrange(data, pos, pos + 2)) as usize;
    if l > n - (pos + 2) {
        return Err(ProtocolError::MalformedResponse);
    }
    let content = slice_subrange(data, pos + 2, pos + 2 + l);
    match string_from_utf8(slice_to_vec(content)) {
        Some(s) => Ok((pos + 2 + l, s)),
        None => Err(ProtocolError::MalformedResponse),
    }
}

/// Reads a little-endian `u16` at `pos`; `None` when fewer than two bytes
/// remain.
pub fn read_u16_at(data: &[u8], pos: usize) -> (r: Option<u16>)
    ensures
        r is Some <==> pos + 2 <= data@.len(),
        r matches Some(v) ==> v == spec_u16_from_le_bytes(data@.subrange(pos as int, pos as int + 2)),
{
    let n = data.len();
    if n >= 2 && pos <= n - 2 {
        Some(u16_from_le_bytes(slice_subrange(data, pos, pos + 2)))
    } else {
        None
    }
}

/// Reads a little-endian `u32` at `pos`; `None` when fewer than four bytes
/// remain.
pub fn read_u32_at(data: &[u8], pos: usize) -> (r: Option<u32>)
    ensures
        r is Some <==> pos + 4 <= data@.len(),
        r matches Some(v) ==> v == spec_u32_from_le_bytes(data@.subrange(pos as int, pos as int + 4)),
{
    let n = data.len();
    if n >= 4 && pos <= n - 4 {
        Some(u32_from_le_bytes(slice_subrange(data, pos, pos + 4)))
    } else {
        None
    }
}

} // verus!
