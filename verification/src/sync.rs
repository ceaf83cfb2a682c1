//! What the file-sync exchanges share: the request and the closing status.

use crate::error::{AdbError, Fault, Phase};
use crate::frame::{encode_sync_header, sync_header};
use crate::scan::{carries_on, read_refusal, refusal, refusal_carries_on, LengthForm, Reading, Scan};
use crate::tag::Tag;
use crate::wire::append_bytes;
use vstd::prelude::*;

verus! {

/// A sync request: the header, whose length is that of the argument, and
/// then the argument itself, with nothing behind it.
pub open spec fn sync_request(tag: Tag, argument: Seq<u8>) -> Seq<u8> {
    sync_header(tag.wire(), argument.len() as u32) + argument
}

/// Writes a sync request. An argument of more than `u32::MAX` bytes has a
/// length that the header cannot hold.
pub fn encode_sync_request(tag: Tag, argument: &[u8]) -> (out: Result<Vec<u8>, AdbError>)
    ensures
        match out {
            Ok(bytes) => argument@.len() <= u32::MAX && bytes@ == sync_request(tag, argument@),
            Err(e) => argument@.len() > u32::MAX && e@ == Fault::Conversion(Phase::SyncExchange),
        },
{
    if argument.len() > u32::MAX as usize {
        return Err(AdbError::ConversionError(Phase::SyncExchange));
    }
    let mut bytes = encode_sync_header(tag.bytes(), argument.len() as u32);
    append_bytes(&mut bytes, argument);
    Ok(bytes)
}

/// The status that closes an upload: `OKAY`, or `FAIL` with a message
/// whose length is a little-endian word. Any other word means that the
/// stream is out of step.
pub open spec fn sync_status(buf: Seq<u8>) -> Reading<()> {
    if buf.len() < 4 {
        Reading::More((4 - buf.len()) as nat, Phase::SyncExchange)
    } else {
        match Tag::of(buf) {
            Some(Tag::Okay) => Reading::Done((), 4),
            Some(Tag::Fail) => refusal(buf, LengthForm::Binary, Phase::SyncExchange),
            _ => Reading::Fail(Fault::Desync(Phase::SyncExchange), 4),
        }
    }
}

/// Reads the status that closes an upload from the bytes received so far.
pub fn scan_sync_status(buf: &[u8]) -> (out: Scan<()>)
    ensures
        out@ == sync_status(buf@),
{
    if buf.len() < 4 {
        return Scan::More(4 - buf.len(), Phase::SyncExchange);
    }
    match Tag::decode(buf) {
        Some(Tag::Okay) => Scan::Done((), 4),
        Some(Tag::Fail) => read_refusal(buf, LengthForm::Binary, Phase::SyncExchange),
        _ => Scan::Fail(AdbError::ProtocolDesyncError(Phase::SyncExchange), 4),
    }
}

/// The closing status is read a step at a time.
pub proof fn sync_status_carries_on(buf: Seq<u8>, more: Seq<u8>)
    ensures
        carries_on(sync_status(buf), buf.len(), sync_status(buf + more), more.len()),
{
    refusal_carries_on::<()>(buf, more, LengthForm::Binary, Phase::SyncExchange);
    if buf.len() >= 4 {
        assert((buf + more).subrange(0, 4) =~= buf.subrange(0, 4));
    }
}

} // verus!
