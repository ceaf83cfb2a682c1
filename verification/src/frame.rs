//! The two framings of the protocol.
//!
//! A host frame is four hexadecimal digits, the length of the payload, and
//! then the payload. A sync header is a four-byte tag and a little-endian
//! length, eight bytes in all; what it announces follows it.

use crate::error::{AdbError, Phase};
use crate::hex::{encode_length, hex4, hex4_round_trip, hex4_value, MAX_HOST_PAYLOAD};
use crate::wire::{append_bytes, le32, le32_bytes, le32_read, le32_round_trip, le32_value};
use vstd::prelude::*;

verus! {

/// A payload in host framing.
pub open spec fn host_frame(payload: Seq<u8>) -> Seq<u8> {
    hex4(payload.len() as int) + payload
}

/// A tag and a length in sync framing.
pub open spec fn sync_header(tag: Seq<u8>, length: u32) -> Seq<u8> {
    tag + le32(length)
}

/// Puts `payload` in host framing. A payload longer than `0xffff` bytes
/// cannot be framed and is refused.
pub fn encode_host_frame(payload: &[u8]) -> (out: Result<Vec<u8>, AdbError>)
    ensures
        match out {
            Ok(frame) => payload@.len() <= MAX_HOST_PAYLOAD && frame@ == host_frame(payload@),
            Err(e) => payload@.len() > MAX_HOST_PAYLOAD && e@ == AdbError::ConversionError(
                Phase::Send,
            )@,
        },
{
    match encode_length(payload.len()) {
        Ok(mut frame) => {
            append_bytes(&mut frame, payload);
            Ok(frame)
        },
        Err(e) => Err(e),
    }
}

/// The length digits of a host frame spell the size of what follows them,
/// and what follows them is the payload.
pub proof fn host_frame_length(payload: Seq<u8>)
    requires
        payload.len() <= MAX_HOST_PAYLOAD,
    ensures
        host_frame(payload).len() == 4 + payload.len(),
        hex4_value(host_frame(payload).subrange(0, 4)) == Some(
            host_frame(payload).len() as int - 4,
        ),
        host_frame(payload).subrange(4, host_frame(payload).len() as int) == payload,
{
    hex4_round_trip(payload.len() as int);
    assert(host_frame(payload).subrange(0, 4) =~= hex4(payload.len() as int));
    assert(host_frame(payload).subrange(4, host_frame(payload).len() as int) =~= payload);
}

/// The eight bytes of a sync header.
pub fn encode_sync_header(tag: [u8; 4], length: u32) -> (out: Vec<u8>)
    ensures
        out@ == sync_header(tag@, length),
        out@.len() == 8,
{
    let mut out: Vec<u8> = Vec::new();
    out.push(tag[0]);
    out.push(tag[1]);
    out.push(tag[2]);
    out.push(tag[3]);
    assert(out@ =~= tag@);
    let word = le32_bytes(length);
    append_bytes(&mut out, word.as_slice());
    out
}

/// Splits a sync header into its tag and its length. Only a slice of exactly
/// eight bytes is a header.
pub fn decode_sync_header(bytes: &[u8]) -> (out: Option<([u8; 4], u32)>)
    ensures
        match out {
            Some((tag, length)) => bytes@.len() == 8 && tag@ == bytes@.subrange(0, 4) && length
                == le32_value(bytes@.subrange(4, 8)),
            None => bytes@.len() != 8,
        },
{
    if bytes.len() != 8 {
        return None;
    }
    let tag: [u8; 4] = [bytes[0], bytes[1], bytes[2], bytes[3]];
    assert(tag@ =~= bytes@.subrange(0, 4));
    let length = le32_read(vstd::slice::slice_subrange(bytes, 4, 8));
    Some((tag, length))
}

/// A header that was encoded decodes to the same tag and length.
pub proof fn sync_header_round_trip(tag: Seq<u8>, length: u32)
    requires
        tag.len() == 4,
    ensures
        sync_header(tag, length).len() == 8,
        sync_header(tag, length).subrange(0, 4) == tag,
        le32_value(sync_header(tag, length).subrange(4, 8)) == length,
{
    le32_round_trip(length);
    assert(sync_header(tag, length).subrange(0, 4) =~= tag);
    assert(sync_header(tag, length).subrange(4, 8) =~= le32(length));
}

} // verus!
