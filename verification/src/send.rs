//! SEND: the contents of a local file, on their way to the device.
//!
//! The request names the remote path and, behind a comma, the mode of the
//! file in octal. The contents follow as `DATA` chunks of at most 64 KiB,
//! none of them empty, and then `DONE` with the time of last modification.
//! The server closes the exchange with a status (see `sync_status`).

use crate::error::{AdbError, Fault, Phase};
use crate::frame::{encode_sync_header, sync_header};
use crate::sync::{encode_sync_request, sync_request};
use crate::tag::Tag;
use crate::wire::{append_bytes, text_bytes};
use vstd::prelude::*;
use vstd::utf8::encode_utf8;

verus! {

/// The most bytes that one `DATA` chunk carries.
pub const CHUNK_SIZE: usize = 65536;

/// The mode that is sent where the file's own mode is not known.
pub const DEFAULT_MODE: u32 = 0o777;

/// `n` in octal, as ASCII digits, with zeros in front where it has fewer
/// than `width` digits.
pub open spec fn octal(n: nat, width: nat) -> Seq<u8>
    decreases n, width,
{
    if n < 8 && width <= 1 {
        seq![(48 + n) as u8]
    } else {
        octal(
            n / 8,
            if width > 0 {
                (width - 1) as nat
            } else {
                0
            },
        ) + seq![(48 + n % 8) as u8]
    }
}

/// The argument of a `SEND` request: the remote path, a comma, and the mode
/// in octal with at least four digits (`0777` where the mode is not known).
pub open spec fn send_target(remote: Seq<char>, mode: Option<u32>) -> Seq<u8> {
    let bits = match mode {
        Some(m) => m,
        None => DEFAULT_MODE,
    };
    encode_utf8(remote) + seq![44u8] + octal(bits as nat, 4)
}

fn push_octal(n: u32, width: u32, out: &mut Vec<u8>)
    ensures
        final(out)@ == old(out)@ + octal(n as nat, width as nat),
    decreases n, width,
{
    if n < 8 && width <= 1 {
        out.push((48 + n) as u8);
        assert(out@ =~= old(out)@ + seq![(48 + n) as u8]);
    } else {
        let less: u32 = if width == 0 {
            0
        } else {
            width - 1
        };
        push_octal(n / 8, less, out);
        out.push((48 + n % 8) as u8);
        assert(out@ =~= old(out)@ + (octal((n / 8) as nat, less as nat) + seq![
            (48 + n % 8) as u8,
        ]));
    }
}

/// Writes the argument of a `SEND` request.
pub fn encode_send_target(remote: &str, mode: Option<u32>) -> (out: Vec<u8>)
    ensures
        out@ == send_target(remote@, mode),
{
    let bits: u32 = match mode {
        Some(m) => m,
        None => DEFAULT_MODE,
    };
    let mut out = text_bytes(remote);
    out.push(44u8);
    push_octal(bits, 4, &mut out);
    assert(out@ =~= send_target(remote@, mode));
    out
}

/// Writes a `SEND` request. The length in its header is that of the whole
/// argument, mode included; an argument of more than `u32::MAX` bytes is
/// refused.
pub fn encode_send_request(remote: &str, mode: Option<u32>) -> (out: Result<Vec<u8>, AdbError>)
    ensures
        match out {
            Ok(bytes) => send_target(remote@, mode).len() <= u32::MAX && bytes@ == sync_request(
                Tag::Send,
                send_target(remote@, mode),
            ),
            Err(e) => send_target(remote@, mode).len() > u32::MAX && e@ == Fault::Conversion(
                Phase::SyncExchange,
            ),
        },
{
    let target = encode_send_target(remote, mode);
    encode_sync_request(Tag::Send, target.as_slice())
}

/// One chunk of contents on the wire.
pub open spec fn data_frame(chunk: Seq<u8>) -> Seq<u8> {
    sync_header(Tag::Data.wire(), chunk.len() as u32) + chunk
}

/// The end of the contents: `DONE` and the time of last modification, in
/// seconds since the epoch.
pub open spec fn done_frame(modified: u32) -> Seq<u8> {
    sync_header(Tag::Done.wire(), modified)
}

/// Into how many chunks contents of `len` bytes are cut: as many full ones
/// as fit, and one more for what is left, if anything is.
pub open spec fn chunk_count(len: nat) -> nat {
    ((len + CHUNK_SIZE - 1) / (CHUNK_SIZE as int)) as nat
}

/// The `i`-th chunk of `source`.
pub open spec fn chunk(source: Seq<u8>, i: int) -> Seq<u8> {
    source.subrange(
        i * CHUNK_SIZE,
        if (i + 1) * CHUNK_SIZE < source.len() {
            (i + 1) * CHUNK_SIZE
        } else {
            source.len() as int
        },
    )
}

/// The frames of the chunks of `source` from the `i`-th on.
pub open spec fn data_frames_from(source: Seq<u8>, i: nat) -> Seq<u8>
    decreases chunk_count(source.len()) - i,
{
    if i >= chunk_count(source.len()) {
        Seq::empty()
    } else {
        data_frame(chunk(source, i as int)) + data_frames_from(source, i + 1)
    }
}

/// The contents of a file on the wire: one frame for each chunk.
pub open spec fn data_frames(source: Seq<u8>) -> Seq<u8> {
    data_frames_from(source, 0)
}

/// No chunk is empty, none is longer than 64 KiB, and all but the last are
/// exactly that long. So contents whose size is a multiple of 64 KiB end
/// with a full chunk, and no empty frame follows.
pub proof fn chunk_sizes(source: Seq<u8>, i: int)
    requires
        0 <= i < chunk_count(source.len()),
    ensures
        1 <= chunk(source, i).len() <= CHUNK_SIZE,
        i + 1 < chunk_count(source.len()) ==> chunk(source, i).len() == CHUNK_SIZE,
        i + 1 == chunk_count(source.len()) ==> chunk(source, i).len() == source.len() - i
            * CHUNK_SIZE,
{
}

/// Frames one chunk of contents. An empty chunk has no frame: nothing is
/// sent for it. (Neither has one whose length does not fit the header.)
pub fn encode_data_frame(chunk: &[u8]) -> (out: Option<Vec<u8>>)
    ensures
        match out {
            Some(frame) => 1 <= chunk@.len() <= u32::MAX && frame@ == data_frame(chunk@),
            None => chunk@.len() == 0 || chunk@.len() > u32::MAX,
        },
{
    if chunk.len() == 0 || chunk.len() > u32::MAX as usize {
        return None;
    }
    let mut frame = encode_sync_header(Tag::Data.bytes(), chunk.len() as u32);
    append_bytes(&mut frame, chunk);
    Some(frame)
}

/// Frames the end of the contents. Without a modification time there is no
/// such frame, and none is made up.
pub fn encode_done_frame(modified: Option<u32>) -> (out: Result<Vec<u8>, AdbError>)
    ensures
        match out {
            Ok(frame) => modified matches Some(time) && frame@ == done_frame(time),
            Err(e) => modified is None && e@ == Fault::Metadata,
        },
{
    match modified {
        Some(time) => Ok(encode_sync_header(Tag::Done.bytes(), time)),
        None => Err(AdbError::MetadataError),
    }
}

/// What an upload writes behind its request.
#[derive(Debug, PartialEq, Eq)]
pub struct Upload {
    /// The bytes written.
    pub written: Vec<u8>,
    /// Whether the contents were closed with `DONE`.
    pub outcome: Result<(), AdbError>,
}

/// Frames the contents of a file held in memory: the chunks in order, then
/// `DONE` with the modification time. Where that time is not known the
/// chunks stand alone and the outcome is a metadata failure.
pub fn encode_upload(source: &[u8], modified: Option<u32>) -> (out: Upload)
    ensures
        match modified {
            Some(time) => out.written@ == data_frames(source@) + done_frame(time) && out.outcome
                is Ok,
            None => out.written@ == data_frames(source@) && (out.outcome matches Err(e) && e@
                == Fault::Metadata),
        },
{
    let mut written: Vec<u8> = Vec::new();
    let mut pos: usize = 0;
    let mut sent: usize = 0;
    proof {
        assert(written@ + data_frames(source@) =~= data_frames(source@));
    }
    while pos < source.len()
        invariant
            pos <= source@.len(),
            pos == sent * CHUNK_SIZE || pos == source@.len(),
            sent <= chunk_count(source@.len()),
            pos == source@.len() ==> sent == chunk_count(source@.len()),
            written@ + data_frames_from(source@, sent as nat) == data_frames(source@),
        decreases source@.len() - pos,
    {
        let left: usize = source.len() - pos;
        let size: usize = if left < CHUNK_SIZE {
            left
        } else {
            CHUNK_SIZE
        };
        let piece = vstd::slice::slice_subrange(source, pos, pos + size);
        proof {
            chunk_sizes(source@, sent as int);
            assert(piece@ =~= chunk(source@, sent as int));
        }
        let ghost before = written@;
        match encode_data_frame(piece) {
            Some(frame) => {
                append_bytes(&mut written, frame.as_slice());
                assert(written@ + data_frames_from(source@, (sent + 1) as nat) =~= before
                    + data_frames_from(source@, sent as nat));
            },
            None => {
                assert(false);
            },
        }
        pos = pos + size;
        sent = sent + 1;
    }
    assert(written@ =~= data_frames(source@));
    match encode_done_frame(modified) {
        Ok(frame) => {
            append_bytes(&mut written, frame.as_slice());
            Upload { written, outcome: Ok(()) }
        },
        Err(e) => Upload { written, outcome: Err(e) },
    }
}

} // verus!
