//! Reading one reply from the bytes received so far.
//!
//! Every reply of the protocol can be read a step at a time: from the bytes
//! at hand a reader either tells how many more it needs before it can say
//! anything new, or gives the reply (a value or a failure) together with the
//! number of bytes that the reply occupies. What lies beyond that number
//! belongs to the next reply.

use crate::error::{AdbError, Fault, Phase};
use crate::hex::{decode_length, hex4_value};
use crate::wire::{copy_range, le32_read, le32_value, text_from_utf8};
use vstd::prelude::*;
use vstd::utf8::{decode_utf8, valid_utf8};

verus! {

/// What the bytes received so far amount to.
#[derive(Debug, PartialEq, Eq)]
pub enum Scan<T> {
    /// Nothing can be said yet: exactly this many more bytes are needed. The
    /// phase tells which part of the reply is still missing.
    More(usize, Phase),
    /// The reply is complete. The number is the size of the reply in bytes.
    Done(T, usize),
    /// The reply is a failure. The number counts the bytes that were read to
    /// establish it.
    Fail(AdbError, usize),
}

/// Mathematical value of a [`Scan`].
pub ghost enum Reading<M> {
    More(nat, Phase),
    Done(M, nat),
    Fail(Fault, nat),
}

impl<T: View> View for Scan<T> {
    type V = Reading<T::V>;

    open spec fn view(&self) -> Reading<T::V> {
        match self {
            Scan::More(k, phase) => Reading::More(*k as nat, *phase),
            Scan::Done(value, used) => Reading::Done(value@, *used as nat),
            Scan::Fail(error, used) => Reading::Fail(error@, *used as nat),
        }
    }
}

/// How the reading of `seen` bytes relates to the reading of those bytes
/// with `added` more behind them, for a reader that works a step at a time.
///
/// A decided reply stays as it is and lies within the bytes seen. A reader
/// that asked for `k` bytes still asks for the rest when it got fewer, and
/// when it got exactly `k`, whatever it then decides ends with the last of
/// them.
pub open spec fn carries_on<M>(before: Reading<M>, seen: nat, after: Reading<M>, added: nat) -> bool {
    match before {
        Reading::More(k, phase) => {
            &&& k >= 1
            &&& added < k ==> after == Reading::<M>::More((k - added) as nat, phase)
            &&& added == k ==> match after {
                Reading::More(_, _) => true,
                Reading::Done(_, used) => used == seen + k,
                Reading::Fail(_, used) => used == seen + k,
            }
        },
        Reading::Done(_, used) => used <= seen && after == before,
        Reading::Fail(_, used) => used <= seen && after == before,
    }
}

/// What a reading amounts to when the stream holds `len` bytes and no more
/// will come: a reply that is still incomplete is a transport failure, and
/// the attempt has taken all that was there.
pub open spec fn at_end<M>(reading: Reading<M>, len: nat) -> (Result<M, Fault>, nat) {
    match reading {
        Reading::More(_, phase) => (Err(Fault::Transport(phase)), len),
        Reading::Done(value, used) => (Ok(value), used),
        Reading::Fail(fault, used) => (Err(fault), used),
    }
}

/// Whether `out` has the value `model`.
pub open spec fn outcome_is<T: View>(out: Result<T, AdbError>, model: Result<T::V, Fault>) -> bool {
    match (out, model) {
        (Ok(value), Ok(m)) => value@ == m,
        (Err(error), Err(fault)) => error@ == fault,
        _ => false,
    }
}

impl<T: View> Scan<T> {
    /// Settles a reading of a stream of `len` bytes that has come to its end.
    pub fn at_end(self, len: usize) -> (out: (Result<T, AdbError>, usize))
        ensures
            outcome_is(out.0, at_end(self@, len as nat).0),
            out.1 == at_end(self@, len as nat).1,
    {
        match self {
            Scan::More(_, phase) => (Err(AdbError::TransportError(phase)), len),
            Scan::Done(value, used) => (Ok(value), used),
            Scan::Fail(error, used) => (Err(error), used),
        }
    }
}

/// How the length of a counted block is written.
#[derive(Clone, Copy, Debug, PartialEq, Eq, Structural)]
pub enum LengthForm {
    /// Four hexadecimal digits, as in host framing.
    Hex,
    /// A little-endian word, as in sync framing.
    Binary,
}

/// The length that bytes 4 to 8 of `buf` announce, if they are well formed.
pub open spec fn announced(buf: Seq<u8>, form: LengthForm) -> Option<int>
    recommends
        buf.len() >= 8,
{
    match form {
        LengthForm::Hex => hex4_value(buf.subrange(4, 8)),
        LengthForm::Binary => Some(le32_value(buf.subrange(4, 8)) as int),
    }
}

/// A counted block behind a four-byte word: a length in bytes 4 to 8, then
/// that many bytes. The block is complete when all of them are there.
pub open spec fn counted(buf: Seq<u8>, form: LengthForm, phase: Phase) -> Reading<Seq<u8>> {
    if buf.len() < 8 {
        Reading::More((8 - buf.len()) as nat, phase)
    } else {
        match announced(buf, form) {
            None => Reading::Fail(Fault::Conversion(phase), 8),
            Some(n) => if buf.len() < 8 + n {
                Reading::More((8 + n - buf.len()) as nat, phase)
            } else {
                Reading::Done(buf.subrange(8, 8 + n), (8 + n) as nat)
            },
        }
    }
}

/// What the server's message amounts to: a rejection that carries the text,
/// or a conversion failure where the message is not UTF-8.
pub open spec fn rejection(message: Seq<u8>, phase: Phase) -> Fault {
    if valid_utf8(message) {
        Fault::Rejected(decode_utf8(message))
    } else {
        Fault::Conversion(phase)
    }
}

/// A refusal: the counted block behind `FAIL` is the server's message, and
/// the reply as a whole is a failure.
pub open spec fn refusal<M>(buf: Seq<u8>, form: LengthForm, phase: Phase) -> Reading<M> {
    match counted(buf, form, phase) {
        Reading::More(k, p) => Reading::More(k, p),
        Reading::Done(message, used) => Reading::Fail(rejection(message, phase), used),
        Reading::Fail(fault, used) => Reading::Fail(fault, used),
    }
}

/// Reads the length in bytes 4 to 8.
fn read_announced(buf: &[u8], form: LengthForm, phase: Phase) -> (out: Result<u32, AdbError>)
    requires
        buf@.len() >= 8,
    ensures
        match out {
            Ok(n) => announced(buf@, form) == Some(n as int),
            Err(e) => announced(buf@, form) is None && e@ == Fault::Conversion(phase),
        },
{
    let field = vstd::slice::slice_subrange(buf, 4, 8);
    match form {
        LengthForm::Hex => match decode_length(field) {
            Ok(n) => Ok(n),
            Err(_) => Err(AdbError::ConversionError(phase)),
        },
        LengthForm::Binary => Ok(le32_read(field)),
    }
}

/// Reads a counted block behind a four-byte word.
pub fn read_counted(buf: &[u8], form: LengthForm, phase: Phase) -> (out: Scan<Vec<u8>>)
    ensures
        out@ == counted(buf@, form, phase),
{
    if buf.len() < 8 {
        return Scan::More(8 - buf.len(), phase);
    }
    match read_announced(buf, form, phase) {
        Err(e) => Scan::Fail(e, 8),
        Ok(n) => {
            let end: u64 = 8 + n as u64;
            let have: u64 = buf.len() as u64;
            if have < end {
                Scan::More((end - have) as usize, phase)
            } else {
                Scan::Done(copy_range(buf, 8, end as usize), end as usize)
            }
        },
    }
}

/// Turns the server's message into the failure that it stands for.
pub fn read_rejection(message: Vec<u8>, phase: Phase) -> (error: AdbError)
    ensures
        error@ == rejection(message@, phase),
{
    match text_from_utf8(message) {
        Some(text) => AdbError::RequestRejected(text),
        None => AdbError::ConversionError(phase),
    }
}

/// Reads a refusal: the word `FAIL` is taken as read, and the message behind
/// it decides the failure.
pub fn read_refusal<T: View>(buf: &[u8], form: LengthForm, phase: Phase) -> (out: Scan<T>)
    ensures
        out@ == refusal::<T::V>(buf@, form, phase),
{
    match read_counted(buf, form, phase) {
        Scan::More(k, p) => Scan::More(k, p),
        Scan::Done(message, used) => Scan::Fail(read_rejection(message, phase), used),
        Scan::Fail(e, used) => Scan::Fail(e, used),
    }
}

/// A counted block is read a step at a time.
pub proof fn counted_carries_on(buf: Seq<u8>, more: Seq<u8>, form: LengthForm, phase: Phase)
    ensures
        carries_on(
            counted(buf, form, phase),
            buf.len(),
            counted(buf + more, form, phase),
            more.len(),
        ),
{
    let all = buf + more;
    if buf.len() >= 8 {
        assert(all.subrange(4, 8) =~= buf.subrange(4, 8));
        match announced(buf, form) {
            Some(n) => {
                crate::hex::hex4_value_bounds(buf.subrange(4, 8));
                if buf.len() >= 8 + n {
                    assert(all.subrange(8, 8 + n) =~= buf.subrange(8, 8 + n));
                }
            },
            None => {},
        }
    } else if all.len() >= 8 {
        crate::hex::hex4_value_bounds(all.subrange(4, 8));
    }
}

/// A refusal is read a step at a time.
pub proof fn refusal_carries_on<M>(buf: Seq<u8>, more: Seq<u8>, form: LengthForm, phase: Phase)
    ensures
        carries_on(
            refusal::<M>(buf, form, phase),
            buf.len(),
            refusal::<M>(buf + more, form, phase),
            more.len(),
        ),
{
    counted_carries_on(buf, more, form, phase);
}

} // verus!
