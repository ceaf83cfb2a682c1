//! RECV: the contents of a remote file.
//!
//! After the request the server sends the file as `DATA` chunks, each with
//! its length, and then `DONE`, with nothing behind it. In place of either
//! it may send `FAIL` and a message. Any other word means that the stream is
//! out of step: here nothing can be passed over.

use crate::error::{AdbError, Fault, Phase};
use crate::scan::{
    carries_on, counted, counted_carries_on, read_counted, read_refusal, refusal,
    refusal_carries_on, LengthForm, Reading, Scan,
};
use crate::send::{chunk, chunk_count, chunk_sizes, data_frame, data_frames, data_frames_from, CHUNK_SIZE};
use crate::tag::{tag_round_trip, Tag};
use crate::wire::{append_bytes, le32, le32_round_trip};
use vstd::prelude::*;

verus! {

/// One step of a download.
#[derive(Debug, PartialEq, Eq)]
pub enum RecvItem {
    /// The next piece of the file.
    Data(Vec<u8>),
    /// The end of the file.
    End,
}

/// Mathematical value of a [`RecvItem`].
pub ghost enum RecvStep {
    Data(Seq<u8>),
    End,
}

impl View for RecvItem {
    type V = RecvStep;

    open spec fn view(&self) -> RecvStep {
        match self {
            RecvItem::Data(chunk) => RecvStep::Data(chunk@),
            RecvItem::End => RecvStep::End,
        }
    }
}

/// A counted block taken as a piece of the file.
pub open spec fn as_chunk(block: Reading<Seq<u8>>) -> Reading<RecvStep> {
    match block {
        Reading::More(k, phase) => Reading::More(k, phase),
        Reading::Done(chunk, used) => Reading::Done(RecvStep::Data(chunk), used),
        Reading::Fail(fault, used) => Reading::Fail(fault, used),
    }
}

/// What `buf`, the bytes received since the last step, amount to.
pub open spec fn recv_item(buf: Seq<u8>) -> Reading<RecvStep> {
    if buf.len() < 4 {
        Reading::More((4 - buf.len()) as nat, Phase::SyncExchange)
    } else {
        match Tag::of(buf) {
            Some(Tag::Data) => as_chunk(counted(buf, LengthForm::Binary, Phase::SyncExchange)),
            Some(Tag::Done) => Reading::Done(RecvStep::End, 4),
            Some(Tag::Fail) => refusal(buf, LengthForm::Binary, Phase::SyncExchange),
            _ => Reading::Fail(Fault::Desync(Phase::SyncExchange), 4),
        }
    }
}

/// Reads one step of a download from the bytes received so far.
pub fn scan_recv_item(buf: &[u8]) -> (out: Scan<RecvItem>)
    ensures
        out@ == recv_item(buf@),
{
    if buf.len() < 4 {
        return Scan::More(4 - buf.len(), Phase::SyncExchange);
    }
    match Tag::decode(buf) {
        Some(Tag::Data) => match read_counted(buf, LengthForm::Binary, Phase::SyncExchange) {
            Scan::More(k, phase) => Scan::More(k, phase),
            Scan::Done(chunk, used) => Scan::Done(RecvItem::Data(chunk), used),
            Scan::Fail(error, used) => Scan::Fail(error, used),
        },
        Some(Tag::Done) => Scan::Done(RecvItem::End, 4),
        Some(Tag::Fail) => read_refusal(buf, LengthForm::Binary, Phase::SyncExchange),
        _ => Scan::Fail(AdbError::ProtocolDesyncError(Phase::SyncExchange), 4),
    }
}

/// A step of a download is read a step at a time.
pub proof fn recv_item_carries_on(buf: Seq<u8>, more: Seq<u8>)
    ensures
        carries_on(recv_item(buf), buf.len(), recv_item(buf + more), more.len()),
{
    counted_carries_on(buf, more, LengthForm::Binary, Phase::SyncExchange);
    refusal_carries_on::<RecvStep>(buf, more, LengthForm::Binary, Phase::SyncExchange);
    if buf.len() >= 4 {
        assert((buf + more).subrange(0, 4) =~= buf.subrange(0, 4));
    }
}

/// A whole download, as read from a stream held in memory.
#[derive(Debug, PartialEq, Eq)]
pub struct Download {
    /// The contents received, chunk after chunk.
    pub data: Vec<u8>,
    /// Whether the download ended with `DONE`, and if not, why it ended.
    pub outcome: Result<(), AdbError>,
    /// How many bytes of the stream the download took.
    pub consumed: usize,
}

/// Mathematical value of a [`Download`].
pub ghost struct DownloadModel {
    pub data: Seq<u8>,
    pub fault: Option<Fault>,
    pub consumed: nat,
}

impl View for Download {
    type V = DownloadModel;

    open spec fn view(&self) -> DownloadModel {
        DownloadModel {
            data: self.data@,
            fault: match self.outcome {
                Ok(_) => None,
                Err(e) => Some(e@),
            },
            consumed: self.consumed as nat,
        }
    }
}

impl DownloadModel {
    /// A download that ends at once.
    pub open spec fn ended(fault: Option<Fault>, consumed: nat) -> DownloadModel {
        DownloadModel { data: Seq::empty(), fault, consumed }
    }

    /// The download that begins with `data`, which took `consumed` bytes,
    /// and goes on as `self`.
    pub open spec fn after(self, data: Seq<u8>, consumed: nat) -> DownloadModel {
        DownloadModel {
            data: data + self.data,
            fault: self.fault,
            consumed: consumed + self.consumed,
        }
    }
}

/// The download that `stream` holds, read from its start. A stream that
/// ends in the middle of a step is a transport failure; the download has
/// then taken all of it.
pub open spec fn download(stream: Seq<u8>) -> DownloadModel
    decreases stream.len(),
{
    match recv_item(stream) {
        Reading::More(_, phase) => DownloadModel::ended(
            Some(Fault::Transport(phase)),
            stream.len(),
        ),
        Reading::Fail(fault, used) => DownloadModel::ended(Some(fault), used),
        Reading::Done(RecvStep::End, used) => DownloadModel::ended(None, used),
        Reading::Done(RecvStep::Data(chunk), used) => download(stream.skip(used as int)).after(
            chunk,
            used,
        ),
    }
}

/// Reads a whole download from a stream held in memory.
pub fn take_download(stream: &[u8]) -> (out: Download)
    ensures
        out@ == download(stream@),
{
    let mut data: Vec<u8> = Vec::new();
    let mut pos: usize = 0;
    proof {
        assert(stream@.skip(0) =~= stream@);
        assert(Seq::<u8>::empty() + download(stream@).data =~= download(stream@).data);
    }
    loop
        invariant
            pos <= stream@.len(),
            download(stream@) == download(stream@.skip(pos as int)).after(data@, pos as nat),
        decreases stream@.len() - pos,
    {
        let ghost rest = stream@.skip(pos as int);
        let ghost before = data@;
        let tail = vstd::slice::slice_subrange(stream, pos, stream.len());
        assert(tail@ =~= rest);
        match scan_recv_item(tail) {
            Scan::More(_, phase) => {
                assert(before + Seq::<u8>::empty() =~= before);
                return Download {
                    data,
                    outcome: Err(AdbError::TransportError(phase)),
                    consumed: stream.len(),
                };
            },
            Scan::Fail(error, used) => {
                assert(before + Seq::<u8>::empty() =~= before);
                return Download { data, outcome: Err(error), consumed: pos + used };
            },
            Scan::Done(RecvItem::End, used) => {
                assert(before + Seq::<u8>::empty() =~= before);
                return Download { data, outcome: Ok(()), consumed: pos + used };
            },
            Scan::Done(RecvItem::Data(chunk), used) => {
                assert(rest.skip(used as int) =~= stream@.skip(pos + used));
                assert((before + chunk@) + download(rest.skip(used as int)).data =~= before + (
                chunk@ + download(rest.skip(used as int)).data));
                append_bytes(&mut data, chunk.as_slice());
                pos = pos + used;
            },
        }
    }
}

/// A chunk that was framed for an upload, followed by anything, reads back
/// as that chunk and is taken whole.
pub proof fn data_frame_reads_back(piece: Seq<u8>, tail: Seq<u8>)
    requires
        piece.len() <= u32::MAX,
    ensures
        recv_item(data_frame(piece) + tail) == Reading::Done(
            RecvStep::Data(piece),
            (8 + piece.len()) as nat,
        ),
{
    let buf = data_frame(piece) + tail;
    tag_round_trip(Tag::Data);
    le32_round_trip(piece.len() as u32);
    assert(buf.subrange(0, 4) =~= Tag::Data.wire());
    assert(buf.subrange(4, 8) =~= le32(piece.len() as u32));
    assert(buf.subrange(8, (8 + piece.len()) as int) =~= piece);
}

/// What is left of `source` behind its first `i` chunks.
pub open spec fn behind_chunks(source: Seq<u8>, i: nat) -> Seq<u8> {
    if i * CHUNK_SIZE < source.len() {
        source.skip(i * CHUNK_SIZE)
    } else {
        Seq::empty()
    }
}

/// A chunk, and what is left behind it, are what is left behind the chunks
/// before it.
proof fn chunk_then_rest(source: Seq<u8>, i: nat)
    requires
        i < chunk_count(source.len()),
    ensures
        chunk(source, i as int) + behind_chunks(source, i + 1) == behind_chunks(source, i),
        1 <= chunk(source, i as int).len() <= CHUNK_SIZE,
{
    chunk_sizes(source, i as int);
    assert(chunk(source, i as int) + behind_chunks(source, i + 1) =~= behind_chunks(source, i));
}

/// A download that starts with a chunk goes on behind it.
proof fn download_goes_on(stream: Seq<u8>, piece: Seq<u8>, used: nat)
    requires
        recv_item(stream) == Reading::Done(RecvStep::Data(piece), used),
    ensures
        download(stream) == download(stream.skip(used as int)).after(piece, used),
{
}

/// A download of nothing but `DONE`.
proof fn download_of_done()
    ensures
        download(Tag::Done.wire()) == DownloadModel::ended(None, 4),
{
    tag_round_trip(Tag::Done);
    assert(Tag::Done.wire().subrange(0, 4) =~= Tag::Done.wire());
}

/// A stream that starts with a chunk reads as that chunk and then as the
/// rest of the stream.
proof fn download_after_chunk(piece: Seq<u8>, tail: Seq<u8>)
    requires
        piece.len() <= u32::MAX,
    ensures
        download(data_frame(piece) + tail) == download(tail).after(
            piece,
            (8 + piece.len()) as nat,
        ),
{
    let stream = data_frame(piece) + tail;
    let used = (8 + piece.len()) as nat;
    data_frame_reads_back(piece, tail);
    download_goes_on(stream, piece, used);
    assert(stream.skip(used as int) =~= tail);
}

/// The frames of an upload from the `i`-th chunk on, closed by `DONE`, read
/// back as the contents from that chunk on.
pub proof fn frames_read_back_from(source: Seq<u8>, i: nat)
    requires
        i <= chunk_count(source.len()),
    ensures
        download(data_frames_from(source, i) + Tag::Done.wire()) == (DownloadModel {
            data: behind_chunks(source, i),
            fault: None,
            consumed: (data_frames_from(source, i).len() + 4) as nat,
        }),
    decreases chunk_count(source.len()) - i,
{
    let stream = data_frames_from(source, i) + Tag::Done.wire();
    if i >= chunk_count(source.len()) {
        download_of_done();
        assert(stream =~= Tag::Done.wire());
        assert(behind_chunks(source, i) =~= Seq::<u8>::empty());
    } else {
        let piece = chunk(source, i as int);
        let later = data_frames_from(source, i + 1);
        let tail = later + Tag::Done.wire();
        chunk_then_rest(source, i);
        assert(data_frames_from(source, i) == data_frame(piece) + later);
        assert(data_frame(piece).len() == 8 + piece.len()) by {
            tag_round_trip(Tag::Data);
            le32_round_trip(piece.len() as u32);
        }
        assert(stream == data_frame(piece) + tail) by {
            assert((data_frame(piece) + later) + Tag::Done.wire() =~= data_frame(piece) + (later
                + Tag::Done.wire()));
        }
        download_after_chunk(piece, tail);
        frames_read_back_from(source, i + 1);
        let rest = download(tail);
        assert(rest.data == behind_chunks(source, i + 1));
        assert(download(stream) == rest.after(piece, (8 + piece.len()) as nat));
    }
}

/// What an upload frames, a download reads back: the frames of the
/// contents, closed by `DONE`, give the contents again, and every byte of
/// the stream is taken.
pub proof fn upload_reads_back(source: Seq<u8>)
    ensures
        download(data_frames(source) + Tag::Done.wire()) == (DownloadModel {
            data: source,
            fault: None,
            consumed: (data_frames(source).len() + 4) as nat,
        }),
{
    frames_read_back_from(source, 0);
    assert(behind_chunks(source, 0) =~= source);
}

} // verus!
