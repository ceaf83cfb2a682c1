//! Integers and text as they travel: little-endian words and UTF-8.

use byteorder::{ByteOrder, LittleEndian};
use vstd::prelude::*;
use vstd::utf8::{decode_utf8, encode_utf8, valid_utf8};

verus! {

/// The four bytes of `value`, least significant first.
pub open spec fn le32(value: u32) -> Seq<u8> {
    seq![
        (value % 256) as u8,
        ((value / 256) % 256) as u8,
        ((value / 65536) % 256) as u8,
        ((value / 16777216) % 256) as u8,
    ]
}

/// The number whose little-endian form is the first four bytes of `bytes`.
pub open spec fn le32_value(bytes: Seq<u8>) -> u32
    recommends
        bytes.len() >= 4,
{
    (bytes[0] as int + 256 * (bytes[1] as int) + 65536 * (bytes[2] as int) + 16777216 * (
    bytes[3] as int)) as u32
}

/// Reading back what was written gives the number again.
pub proof fn le32_round_trip(value: u32)
    ensures
        le32(value).len() == 4,
        le32_value(le32(value)) == value,
{
    assert(value % 256 + 256 * (value / 256 % 256) + 65536 * (value / 65536 % 256) + 16777216 * (
    value / 16777216 % 256) == value) by (bit_vector);
}

/// Four bytes are the little-endian form of the number read from them.
pub proof fn le32_value_round_trip(bytes: Seq<u8>)
    requires
        bytes.len() == 4,
    ensures
        le32(le32_value(bytes)) == bytes,
{
    let a = bytes[0] as u32;
    let b = bytes[1] as u32;
    let c = bytes[2] as u32;
    let d = bytes[3] as u32;
    let v = le32_value(bytes);
    assert(v == a + 256 * b + 65536 * c + 16777216 * d);
    assert(v % 256 == a && v / 256 % 256 == b && v / 65536 % 256 == c && v / 16777216 % 256 == d)
        by (bit_vector)
        requires
            v == a + 256 * b + 65536 * c + 16777216 * d,
            a < 256,
            b < 256,
            c < 256,
            d < 256,
    ;
    assert(le32(v) =~= bytes);
}

/// `byteorder::LittleEndian::write_u32` on a fresh four-byte buffer: the
/// buffer then holds the little-endian form of `value`.
#[verifier::external_body]
pub(crate) fn le32_bytes(value: u32) -> (bytes: Vec<u8>)
    ensures
        bytes@ == le32(value),
{
    let mut bytes = vec![0u8; 4];
    LittleEndian::write_u32(&mut bytes, value);
    bytes
}

/// `byteorder::LittleEndian::read_u32`: the number held, least significant
/// byte first, in the first four bytes of `bytes`. The outside function
/// panics on a shorter slice, which the precondition leaves out.
#[verifier::external_body]
pub(crate) fn le32_read(bytes: &[u8]) -> (value: u32)
    requires
        bytes@.len() >= 4,
    ensures
        value == le32_value(bytes@),
{
    LittleEndian::read_u32(bytes)
}

/// `String::from_utf8`: succeeds exactly on well-formed UTF-8, and the text
/// it gives is the decoding of the bytes.
#[verifier::external_body]
pub(crate) fn text_from_utf8(bytes: Vec<u8>) -> (text: Option<String>)
    ensures
        text is Some <==> valid_utf8(bytes@),
        text matches Some(s) ==> s@ == decode_utf8(bytes@),
{
    match String::from_utf8(bytes) {
        Ok(s) => Some(s),
        Err(_) => None,
    }
}

/// The UTF-8 bytes of `text`, as an owned vector.
pub(crate) fn text_bytes(text: &str) -> (bytes: Vec<u8>)
    ensures
        bytes@ == encode_utf8(text@),
{
    vstd::slice::slice_to_vec(text.as_bytes())
}

/// Appends a copy of `tail` to `head`.
pub(crate) fn append_bytes(head: &mut Vec<u8>, tail: &[u8])
    ensures
        final(head)@ == old(head)@ + tail@,
{
    let mut i: usize = 0;
    while i < tail.len()
        invariant
            i <= tail@.len(),
            head@ == old(head)@ + tail@.subrange(0, i as int),
        decreases tail@.len() - i,
    {
        head.push(tail[i]);
        i = i + 1;
    }
    assert(tail@.subrange(0, tail@.len() as int) == tail@);
}

/// A copy of `bytes[from..to]`.
pub(crate) fn copy_range(bytes: &[u8], from: usize, to: usize) -> (out: Vec<u8>)
    requires
        from <= to <= bytes@.len(),
    ensures
        out@ == bytes@.subrange(from as int, to as int),
{
    vstd::slice::slice_to_vec(vstd::slice::slice_subrange(bytes, from, to))
}

} // verus!
