//! The four hexadecimal digits that give a length in host framing.

use crate::error::{AdbError, Phase};
use vstd::prelude::*;

verus! {

/// The largest length that four hexadecimal digits can give.
pub const MAX_HOST_PAYLOAD: usize = 0xffff;

/// The ASCII digit for `d`, lower case; meant for `d < 16`.
pub open spec fn hex_digit(d: int) -> u8 {
    if d < 10 {
        (48 + d) as u8
    } else {
        (87 + d) as u8
    }
}

/// The value of one ASCII hexadecimal digit, in either case.
pub open spec fn hex_digit_value(c: u8) -> Option<int> {
    if 48 <= c <= 57 {
        Some(c as int - 48)
    } else if 97 <= c <= 102 {
        Some(c as int - 87)
    } else if 65 <= c <= 70 {
        Some(c as int - 55)
    } else {
        None
    }
}

/// `n` written as exactly four lower-case hexadecimal digits; meant for
/// `0 <= n <= 0xffff`.
pub open spec fn hex4(n: int) -> Seq<u8> {
    seq![
        hex_digit(n / 4096 % 16),
        hex_digit(n / 256 % 16),
        hex_digit(n / 16 % 16),
        hex_digit(n % 16),
    ]
}

/// The number that the first four bytes of `bytes` spell in base 16, if all
/// four are hexadecimal digits.
pub open spec fn hex4_value(bytes: Seq<u8>) -> Option<int>
    recommends
        bytes.len() >= 4,
{
    match (
        hex_digit_value(bytes[0]),
        hex_digit_value(bytes[1]),
        hex_digit_value(bytes[2]),
        hex_digit_value(bytes[3]),
    ) {
        (Some(a), Some(b), Some(c), Some(d)) => Some(4096 * a + 256 * b + 16 * c + d),
        _ => None,
    }
}

/// A length read from four hexadecimal digits is below `0x10000`.
pub proof fn hex4_value_bounds(bytes: Seq<u8>)
    ensures
        hex4_value(bytes) matches Some(n) ==> 0 <= n <= 0xffff,
{
}

/// Four digits written for a length read back as that length.
pub proof fn hex4_round_trip(n: int)
    requires
        0 <= n <= 0xffff,
    ensures
        hex4(n).len() == 4,
        hex4_value(hex4(n)) == Some(n),
{
    let m = n as u32;
    assert(4096 * (m / 4096 % 16) + 256 * (m / 256 % 16) + 16 * (m / 16 % 16) + m % 16 == m)
        by (bit_vector)
        requires
            m <= 0xffff,
    ;
    let a = n / 4096 % 16;
    let b = n / 256 % 16;
    let c = n / 16 % 16;
    let d = n % 16;
    assert(hex_digit_value(hex_digit(a)) == Some(a));
    assert(hex_digit_value(hex_digit(b)) == Some(b));
    assert(hex_digit_value(hex_digit(c)) == Some(c));
    assert(hex_digit_value(hex_digit(d)) == Some(d));
}

fn digit(d: usize) -> (c: u8)
    requires
        d < 16,
    ensures
        c == hex_digit(d as int),
{
    if d < 10 {
        (48 + d) as u8
    } else {
        (87 + d) as u8
    }
}

fn digit_value(c: u8) -> (v: Option<u32>)
    ensures
        match v {
            Some(n) => hex_digit_value(c) == Some(n as int),
            None => hex_digit_value(c) is None,
        },
{
    if 48 <= c && c <= 57 {
        Some((c - 48) as u32)
    } else if 97 <= c && c <= 102 {
        Some((c - 87) as u32)
    } else if 65 <= c && c <= 70 {
        Some((c - 55) as u32)
    } else {
        None
    }
}

/// Writes `length` as four lower-case hexadecimal digits. A length above
/// `0xffff` has no such form and is refused.
pub fn encode_length(length: usize) -> (out: Result<Vec<u8>, AdbError>)
    ensures
        match out {
            Ok(digits) => length <= MAX_HOST_PAYLOAD && digits@ == hex4(length as int),
            Err(e) => length > MAX_HOST_PAYLOAD && e@ == AdbError::ConversionError(Phase::Send)@,
        },
{
    if length > MAX_HOST_PAYLOAD {
        return Err(AdbError::ConversionError(Phase::Send));
    }
    let mut digits: Vec<u8> = Vec::new();
    digits.push(digit(length / 4096 % 16));
    digits.push(digit(length / 256 % 16));
    digits.push(digit(length / 16 % 16));
    digits.push(digit(length % 16));
    assert(digits@ =~= hex4(length as int));
    Ok(digits)
}

/// Reads a length from exactly four hexadecimal digits, in either case.
/// Anything else (another size, a sign, a blank) is refused.
pub fn decode_length(bytes: &[u8]) -> (out: Result<u32, AdbError>)
    ensures
        match out {
            Ok(n) => bytes@.len() == 4 && hex4_value(bytes@) == Some(n as int),
            Err(e) => (bytes@.len() != 4 || hex4_value(bytes@) is None) && e@
                == AdbError::ConversionError(Phase::DecodeBody)@,
        },
{
    if bytes.len() != 4 {
        return Err(AdbError::ConversionError(Phase::DecodeBody));
    }
    match (digit_value(bytes[0]), digit_value(bytes[1]), digit_value(bytes[2]), digit_value(bytes[3])) {
        (Some(a), Some(b), Some(c), Some(d)) => Ok(4096 * a + 256 * b + 16 * c + d),
        _ => Err(AdbError::ConversionError(Phase::DecodeBody)),
    }
}

} // verus!
