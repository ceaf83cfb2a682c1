//! The answer to a host request.
//!
//! The server answers with a four-byte status. Behind `FAIL` comes a
//! message in host framing. Behind `OKAY` comes nothing, unless the command
//! is one that is answered with a body, which then comes in host framing too.

use crate::command::RequestStatus;
use crate::error::{AdbError, Fault, Phase};
use crate::scan::{
    at_end, outcome_is, carries_on, counted, counted_carries_on, read_counted, read_refusal, refusal,
    refusal_carries_on, LengthForm, Reading, Scan,
};
use vstd::prelude::*;

verus! {

/// What `buf`, the bytes received since the request was written, amount to.
/// The value of a complete reply is its body, empty where none is expected.
pub open spec fn host_reply(buf: Seq<u8>, with_body: bool) -> Reading<Seq<u8>> {
    if buf.len() < 4 {
        Reading::More((4 - buf.len()) as nat, Phase::DecodeStatus)
    } else {
        match RequestStatus::of(buf.subrange(0, 4)) {
            Some(RequestStatus::Okay) => if with_body {
                counted(buf, LengthForm::Hex, Phase::DecodeBody)
            } else {
                Reading::Done(Seq::empty(), 4)
            },
            Some(RequestStatus::Fail) => refusal(buf, LengthForm::Hex, Phase::DecodeBody),
            None => Reading::Fail(Fault::Desync(Phase::DecodeStatus), 4),
        }
    }
}

/// Reads the answer to a host request from the bytes received so far.
pub fn scan_host_reply(buf: &[u8], with_body: bool) -> (out: Scan<Vec<u8>>)
    ensures
        out@ == host_reply(buf@, with_body),
{
    if buf.len() < 4 {
        return Scan::More(4 - buf.len(), Phase::DecodeStatus);
    }
    match RequestStatus::decode(vstd::slice::slice_subrange(buf, 0, 4)) {
        Ok(RequestStatus::Okay) => {
            if with_body {
                read_counted(buf, LengthForm::Hex, Phase::DecodeBody)
            } else {
                Scan::Done(Vec::new(), 4)
            }
        },
        Ok(RequestStatus::Fail) => read_refusal(buf, LengthForm::Hex, Phase::DecodeBody),
        Err(e) => Scan::Fail(e, 4),
    }
}

/// Reads the answer to a host request from a stream held in memory: what
/// the answer is, and how many bytes of the stream it took. What lies
/// behind those bytes is left for whoever reads next.
pub fn take_host_reply(stream: &[u8], with_body: bool) -> (out: (Result<Vec<u8>, AdbError>, usize))
    ensures
        outcome_is(out.0, at_end(host_reply(stream@, with_body), stream@.len()).0),
        out.1 == at_end(host_reply(stream@, with_body), stream@.len()).1,
        out.1 <= stream@.len(),
{
    scan_host_reply(stream, with_body).at_end(stream.len())
}

/// The answer to a host request is read a step at a time.
pub proof fn host_reply_carries_on(buf: Seq<u8>, more: Seq<u8>, with_body: bool)
    ensures
        carries_on(
            host_reply(buf, with_body),
            buf.len(),
            host_reply(buf + more, with_body),
            more.len(),
        ),
{
    let all = buf + more;
    counted_carries_on(buf, more, LengthForm::Hex, Phase::DecodeBody);
    refusal_carries_on::<Seq<u8>>(buf, more, LengthForm::Hex, Phase::DecodeBody);
    if buf.len() >= 4 {
        assert(all.subrange(0, 4) =~= buf.subrange(0, 4));
    }
}

} // verus!
