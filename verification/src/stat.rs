//! STAT: what the server knows of one remote file.

use crate::entry::FileStat;
use crate::error::{AdbError, Fault, Phase};
use crate::scan::{at_end, carries_on, outcome_is, Reading, Scan};
use crate::tag::{tag_round_trip, Tag};
use crate::wire::{append_bytes, le32, le32_bytes, le32_read, le32_round_trip, le32_value};
use vstd::prelude::*;

verus! {

/// What `buf`, the bytes received since the request was written, amount to.
/// The reply is the word `STAT` and three little-endian words: mode, size,
/// time. Any other word means that the stream is out of step.
pub open spec fn stat_reply(buf: Seq<u8>) -> Reading<FileStat> {
    if buf.len() < 4 {
        Reading::More((4 - buf.len()) as nat, Phase::SyncExchange)
    } else {
        match Tag::of(buf) {
            Some(Tag::Stat) => if buf.len() < 16 {
                Reading::More((16 - buf.len()) as nat, Phase::SyncExchange)
            } else {
                Reading::Done(
                    FileStat {
                        file_mode: le32_value(buf.subrange(4, 8)),
                        file_size: le32_value(buf.subrange(8, 12)),
                        mod_time: le32_value(buf.subrange(12, 16)),
                    },
                    16,
                )
            },
            _ => Reading::Fail(Fault::Desync(Phase::SyncExchange), 4),
        }
    }
}

/// The reply as the server sends it.
pub open spec fn stat_record(stat: FileStat) -> Seq<u8> {
    Tag::Stat.wire() + le32(stat.file_mode) + le32(stat.file_size) + le32(stat.mod_time)
}

/// Reads a `STAT` reply from the bytes received so far.
pub fn scan_stat_reply(buf: &[u8]) -> (out: Scan<FileStat>)
    ensures
        out@ == stat_reply(buf@),
{
    if buf.len() < 4 {
        return Scan::More(4 - buf.len(), Phase::SyncExchange);
    }
    match Tag::decode(buf) {
        Some(Tag::Stat) => {
            if buf.len() < 16 {
                return Scan::More(16 - buf.len(), Phase::SyncExchange);
            }
            let file_mode = le32_read(vstd::slice::slice_subrange(buf, 4, 8));
            let file_size = le32_read(vstd::slice::slice_subrange(buf, 8, 12));
            let mod_time = le32_read(vstd::slice::slice_subrange(buf, 12, 16));
            Scan::Done(FileStat { file_mode, file_size, mod_time }, 16)
        },
        _ => Scan::Fail(AdbError::ProtocolDesyncError(Phase::SyncExchange), 4),
    }
}

/// Reads a `STAT` reply from a stream held in memory: the record, and how
/// many bytes of the stream it took.
pub fn take_stat_reply(stream: &[u8]) -> (out: (Result<FileStat, AdbError>, usize))
    ensures
        outcome_is(out.0, at_end(stat_reply(stream@), stream@.len()).0),
        out.1 == at_end(stat_reply(stream@), stream@.len()).1,
        out.1 <= stream@.len(),
{
    scan_stat_reply(stream).at_end(stream.len())
}

/// Writes a `STAT` reply as the server would send it.
pub fn encode_stat_reply(stat: &FileStat) -> (out: Vec<u8>)
    ensures
        out@ == stat_record(*stat),
{
    let mut out: Vec<u8> = Vec::new();
    append_bytes(&mut out, Tag::Stat.bytes().as_slice());
    append_bytes(&mut out, le32_bytes(stat.file_mode).as_slice());
    append_bytes(&mut out, le32_bytes(stat.file_size).as_slice());
    append_bytes(&mut out, le32_bytes(stat.mod_time).as_slice());
    assert(out@ =~= stat_record(*stat));
    out
}

/// A `STAT` reply is read a step at a time.
pub proof fn stat_reply_carries_on(buf: Seq<u8>, more: Seq<u8>)
    ensures
        carries_on(stat_reply(buf), buf.len(), stat_reply(buf + more), more.len()),
{
    let all = buf + more;
    if buf.len() >= 4 {
        assert(all.subrange(0, 4) =~= buf.subrange(0, 4));
    }
    if buf.len() >= 16 {
        assert(all.subrange(4, 8) =~= buf.subrange(4, 8));
        assert(all.subrange(8, 12) =~= buf.subrange(8, 12));
        assert(all.subrange(12, 16) =~= buf.subrange(12, 16));
    }
}

/// A record that was written reads back as it was, whatever follows it, and
/// takes sixteen bytes.
pub proof fn stat_round_trip(stat: FileStat, tail: Seq<u8>)
    ensures
        stat_reply(stat_record(stat) + tail) == Reading::Done(stat, 16),
{
    let buf = stat_record(stat) + tail;
    tag_round_trip(Tag::Stat);
    le32_round_trip(stat.file_mode);
    le32_round_trip(stat.file_size);
    le32_round_trip(stat.mod_time);
    assert(buf.subrange(0, 4) =~= Tag::Stat.wire());
    assert(buf.subrange(4, 8) =~= le32(stat.file_mode));
    assert(buf.subrange(8, 12) =~= le32(stat.file_size));
    assert(buf.subrange(12, 16) =~= le32(stat.mod_time));
}

} // verus!
