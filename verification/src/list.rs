//! LIST: the entries of a remote directory.
//!
//! After the request the server sends one `DENT` record for each entry and
//! then `DONE`. A word that is neither is passed over, as real servers send
//! such words now and then; but only so many in a row, so that a peer that
//! sends nothing else cannot keep the exchange going for ever.

use crate::entry::{entries_view, records, Dent, DirectoryEntry};
use crate::error::{AdbError, Fault, Phase};
use crate::scan::{carries_on, Reading, Scan};
use crate::tag::{tag_round_trip, Tag};
use crate::wire::{append_bytes, copy_range, le32, le32_read, le32_round_trip, le32_value, text_from_utf8};
use vstd::prelude::*;
use vstd::utf8::{decode_utf8, encode_utf8, encode_utf8_decode_utf8, encode_utf8_valid_utf8, valid_utf8};

verus! {

/// How many unknown words in a row are passed over. One more ends the
/// listing with a failure.
pub const MAX_UNKNOWN_STREAK: u32 = 16;

/// One step of a listing.
#[derive(Debug, PartialEq, Eq)]
pub enum ListItem {
    /// A directory entry.
    Entry(DirectoryEntry),
    /// The end of the listing.
    End,
    /// A word that is neither `DENT` nor `DONE`.
    Unknown(Vec<u8>),
}

/// Mathematical value of a [`ListItem`].
pub ghost enum ListStep {
    Entry(Dent),
    End,
    Unknown(Seq<u8>),
}

impl View for ListItem {
    type V = ListStep;

    open spec fn view(&self) -> ListStep {
        match self {
            ListItem::Entry(entry) => ListStep::Entry(entry@),
            ListItem::End => ListStep::End,
            ListItem::Unknown(word) => ListStep::Unknown(word@),
        }
    }
}

/// What `buf`, the bytes received since the last step, amount to.
///
/// `DONE` is complete as it stands. `DENT` is followed by four little-endian
/// words (mode, size, time, length of the name) and by the name, which must
/// be UTF-8. Any other word is complete as it stands, and unknown.
pub open spec fn list_item(buf: Seq<u8>) -> Reading<ListStep> {
    if buf.len() < 4 {
        Reading::More((4 - buf.len()) as nat, Phase::SyncExchange)
    } else {
        match Tag::of(buf) {
            Some(Tag::Done) => Reading::Done(ListStep::End, 4),
            Some(Tag::Dent) => if buf.len() < 20 {
                Reading::More((20 - buf.len()) as nat, Phase::SyncExchange)
            } else {
                let end = 20 + le32_value(buf.subrange(16, 20));
                if buf.len() < end {
                    Reading::More((end - buf.len()) as nat, Phase::SyncExchange)
                } else if valid_utf8(buf.subrange(20, end)) {
                    Reading::Done(
                        ListStep::Entry(
                            Dent {
                                file_mode: le32_value(buf.subrange(4, 8)),
                                file_size: le32_value(buf.subrange(8, 12)),
                                mod_time: le32_value(buf.subrange(12, 16)),
                                name: decode_utf8(buf.subrange(20, end)),
                            },
                        ),
                        end as nat,
                    )
                } else {
                    Reading::Fail(Fault::Conversion(Phase::SyncExchange), end as nat)
                }
            },
            _ => Reading::Done(ListStep::Unknown(buf.subrange(0, 4)), 4),
        }
    }
}

/// Reads one step of a listing from the bytes received so far.
pub fn scan_list_item(buf: &[u8]) -> (out: Scan<ListItem>)
    ensures
        out@ == list_item(buf@),
{
    if buf.len() < 4 {
        return Scan::More(4 - buf.len(), Phase::SyncExchange);
    }
    match Tag::decode(buf) {
        Some(Tag::Done) => Scan::Done(ListItem::End, 4),
        Some(Tag::Dent) => {
            if buf.len() < 20 {
                return Scan::More(20 - buf.len(), Phase::SyncExchange);
            }
            let file_mode = le32_read(vstd::slice::slice_subrange(buf, 4, 8));
            let file_size = le32_read(vstd::slice::slice_subrange(buf, 8, 12));
            let mod_time = le32_read(vstd::slice::slice_subrange(buf, 12, 16));
            let length = le32_read(vstd::slice::slice_subrange(buf, 16, 20));
            let end: u64 = 20 + length as u64;
            let have: u64 = buf.len() as u64;
            if have < end {
                return Scan::More((end - have) as usize, Phase::SyncExchange);
            }
            match text_from_utf8(copy_range(buf, 20, end as usize)) {
                Some(name) => Scan::Done(
                    ListItem::Entry(DirectoryEntry { file_mode, file_size, mod_time, name }),
                    end as usize,
                ),
                None => Scan::Fail(AdbError::ConversionError(Phase::SyncExchange), end as usize),
            }
        },
        _ => Scan::Done(ListItem::Unknown(copy_range(buf, 0, 4)), 4),
    }
}

/// A step of a listing is read a step at a time.
pub proof fn list_item_carries_on(buf: Seq<u8>, more: Seq<u8>)
    ensures
        carries_on(list_item(buf), buf.len(), list_item(buf + more), more.len()),
{
    let all = buf + more;
    if buf.len() >= 4 {
        assert(all.subrange(0, 4) =~= buf.subrange(0, 4));
    }
    if buf.len() >= 20 {
        assert(all.subrange(4, 8) =~= buf.subrange(4, 8));
        assert(all.subrange(8, 12) =~= buf.subrange(8, 12));
        assert(all.subrange(12, 16) =~= buf.subrange(12, 16));
        assert(all.subrange(16, 20) =~= buf.subrange(16, 20));
        let end = 20 + le32_value(buf.subrange(16, 20));
        if buf.len() >= end {
            assert(all.subrange(20, end) =~= buf.subrange(20, end));
        }
    }
}

/// A whole listing, as read from a stream held in memory.
#[derive(Debug, PartialEq, Eq)]
pub struct Listing {
    /// The entries, in the order of arrival.
    pub entries: Vec<DirectoryEntry>,
    /// How many unknown words were passed over.
    pub ignored: usize,
    /// Whether the listing ended with `DONE`, and if not, why it ended.
    pub outcome: Result<(), AdbError>,
    /// How many bytes of the stream the listing took.
    pub consumed: usize,
}

/// Mathematical value of a [`Listing`].
pub ghost struct ListingModel {
    pub entries: Seq<Dent>,
    pub ignored: nat,
    pub fault: Option<Fault>,
    pub consumed: nat,
}

impl View for Listing {
    type V = ListingModel;

    open spec fn view(&self) -> ListingModel {
        ListingModel {
            entries: entries_view(self.entries@),
            ignored: self.ignored as nat,
            fault: match self.outcome {
                Ok(_) => None,
                Err(e) => Some(e@),
            },
            consumed: self.consumed as nat,
        }
    }
}

impl ListingModel {
    /// A listing that ends at once.
    pub open spec fn ended(fault: Option<Fault>, consumed: nat) -> ListingModel {
        ListingModel { entries: Seq::empty(), ignored: 0, fault, consumed }
    }

    /// The listing that begins with `entry`, `used` bytes long, and goes on as `self`.
    pub open spec fn after_entry(self, entry: Dent, used: nat) -> ListingModel {
        ListingModel {
            entries: seq![entry] + self.entries,
            ignored: self.ignored,
            fault: self.fault,
            consumed: used + self.consumed,
        }
    }

    /// The listing that begins with an unknown word and goes on as `self`.
    pub open spec fn after_unknown(self, used: nat) -> ListingModel {
        ListingModel {
            entries: self.entries,
            ignored: self.ignored + 1,
            fault: self.fault,
            consumed: used + self.consumed,
        }
    }

    /// The listing that begins with what was read so far and goes on as `self`.
    pub open spec fn after(self, entries: Seq<Dent>, ignored: nat, consumed: nat) -> ListingModel {
        ListingModel {
            entries: entries + self.entries,
            ignored: ignored + self.ignored,
            fault: self.fault,
            consumed: consumed + self.consumed,
        }
    }
}

/// The listing that `stream` holds, read from its start, when `streak`
/// unknown words have just been passed over.
///
/// A stream that ends in the middle of a step is a transport failure; the
/// listing has then taken all of it. An unknown word after
/// `MAX_UNKNOWN_STREAK` others in a row ends the listing: the stream is out
/// of step. An entry ends a streak.
pub open spec fn listing(stream: Seq<u8>, streak: nat) -> ListingModel
    decreases stream.len(),
{
    match list_item(stream) {
        Reading::More(_, phase) => ListingModel::ended(
            Some(Fault::Transport(phase)),
            stream.len(),
        ),
        Reading::Fail(fault, used) => ListingModel::ended(Some(fault), used),
        Reading::Done(ListStep::End, used) => ListingModel::ended(None, used),
        Reading::Done(ListStep::Entry(entry), used) => listing(
            stream.skip(used as int),
            0,
        ).after_entry(entry, used),
        Reading::Done(ListStep::Unknown(_), used) => if streak >= MAX_UNKNOWN_STREAK {
            ListingModel::ended(Some(Fault::Desync(Phase::SyncExchange)), used)
        } else {
            listing(stream.skip(used as int), streak + 1).after_unknown(used)
        },
    }
}

/// Reads a whole listing from a stream held in memory.
pub fn take_listing(stream: &[u8]) -> (out: Listing)
    ensures
        out@ == listing(stream@, 0),
{
    let mut entries: Vec<DirectoryEntry> = Vec::new();
    let mut ignored: usize = 0;
    let mut streak: u32 = 0;
    let mut pos: usize = 0;
    proof {
        let whole = listing(stream@, 0);
        assert(stream@.skip(0) =~= stream@);
        assert(Seq::<Dent>::empty() + whole.entries =~= whole.entries);
        assert(entries_view(entries@) =~= Seq::<Dent>::empty());
    }
    loop
        invariant
            pos <= stream@.len(),
            ignored <= pos,
            streak <= MAX_UNKNOWN_STREAK,
            listing(stream@, 0) == listing(stream@.skip(pos as int), streak as nat).after(
                entries_view(entries@),
                ignored as nat,
                pos as nat,
            ),
        decreases stream@.len() - pos,
    {
        let ghost rest = stream@.skip(pos as int);
        let ghost before = entries_view(entries@);
        let tail = vstd::slice::slice_subrange(stream, pos, stream.len());
        assert(tail@ =~= rest);
        match scan_list_item(tail) {
            Scan::More(_, phase) => {
                let out = Listing {
                    entries,
                    ignored,
                    outcome: Err(AdbError::TransportError(phase)),
                    consumed: stream.len(),
                };
                assert(out@.entries =~= before + Seq::<Dent>::empty());
                return out;
            },
            Scan::Fail(error, used) => {
                let out = Listing { entries, ignored, outcome: Err(error), consumed: pos + used };
                assert(out@.entries =~= before + Seq::<Dent>::empty());
                return out;
            },
            Scan::Done(ListItem::End, used) => {
                let out = Listing { entries, ignored, outcome: Ok(()), consumed: pos + used };
                assert(out@.entries =~= before + Seq::<Dent>::empty());
                return out;
            },
            Scan::Done(ListItem::Entry(entry), used) => {
                assert(rest.skip(used as int) =~= stream@.skip(pos + used));
                assert(before.push(entry@) + listing(rest.skip(used as int), 0).entries =~= before
                    + (seq![entry@] + listing(rest.skip(used as int), 0).entries));
                entries.push(entry);
                assert(entries_view(entries@) =~= before.push(entry@));
                streak = 0;
                pos = pos + used;
            },
            Scan::Done(ListItem::Unknown(_), used) => {
                if streak >= MAX_UNKNOWN_STREAK {
                    let out = Listing {
                        entries,
                        ignored,
                        outcome: Err(AdbError::ProtocolDesyncError(Phase::SyncExchange)),
                        consumed: pos + used,
                    };
                    assert(out@.entries =~= before + Seq::<Dent>::empty());
                    return out;
                }
                assert(rest.skip(used as int) =~= stream@.skip(pos + used));
                ignored = ignored + 1;
                streak = streak + 1;
                pos = pos + used;
            },
        }
    }
}

/// The listing as the server sends it: the records of the entries, then `DONE`.
pub open spec fn listing_stream(entries: Seq<Dent>) -> Seq<u8> {
    records(entries) + Tag::Done.wire()
}

/// Writes a listing as the server would send it. It cannot be written when
/// the name of an entry is longer than `u32::MAX` bytes.
pub fn encode_listing(entries: &[DirectoryEntry]) -> (out: Result<Vec<u8>, AdbError>)
    ensures
        match out {
            Ok(bytes) => bytes@ == listing_stream(entries_view(entries@)) && forall|i: int|
                0 <= i < entries@.len() ==> (#[trigger] entries@[i])@.fits(),
            Err(e) => e@ == Fault::Conversion(Phase::SyncExchange) && exists|i: int|
                0 <= i < entries@.len() && !(#[trigger] entries@[i])@.fits(),
        },
{
    let ghost all = entries_view(entries@);
    let mut bytes: Vec<u8> = Vec::new();
    let mut i: usize = 0;
    proof {
        assert(all.subrange(0, all.len() as int) =~= all);
        assert(bytes@ + records(all) =~= records(all));
    }
    while i < entries.len()
        invariant
            i <= entries@.len(),
            all == entries_view(entries@),
            bytes@ + records(all.subrange(i as int, all.len() as int)) == records(all),
            forall|j: int| 0 <= j < i ==> (#[trigger] entries@[j])@.fits(),
        decreases entries@.len() - i,
    {
        let ghost tail = all.subrange(i as int, all.len() as int);
        assert(tail.subrange(1, tail.len() as int) =~= all.subrange(i + 1, all.len() as int));
        assert(tail[0] == entries@[i as int]@);
        match entries[i].encode() {
            Ok(record) => {
                let ghost old_bytes = bytes@;
                append_bytes(&mut bytes, record.as_slice());
                assert(bytes@ + records(all.subrange(i + 1, all.len() as int)) =~= old_bytes
                    + records(tail));
            },
            Err(e) => {
                return Err(e);
            },
        }
        i = i + 1;
    }
    assert(all.subrange(i as int, all.len() as int) =~= Seq::<Dent>::empty());
    assert(bytes@ =~= records(all));
    append_bytes(&mut bytes, Tag::Done.bytes().as_slice());
    Ok(bytes)
}

/// A record, followed by anything, reads back as its entry and is taken whole.
pub proof fn record_reads_back(entry: Dent, tail: Seq<u8>)
    requires
        entry.fits(),
    ensures
        list_item(entry.record() + tail) == Reading::Done(
            ListStep::Entry(entry),
            entry.record().len(),
        ),
        entry.record().len() == 20 + encode_utf8(entry.name).len(),
{
    let name = encode_utf8(entry.name);
    let n = name.len() as u32;
    let buf = entry.record() + tail;
    tag_round_trip(Tag::Dent);
    le32_round_trip(entry.file_mode);
    le32_round_trip(entry.file_size);
    le32_round_trip(entry.mod_time);
    le32_round_trip(n);
    encode_utf8_valid_utf8(entry.name);
    encode_utf8_decode_utf8(entry.name);
    assert(buf.subrange(0, 4) =~= Tag::Dent.wire());
    assert(buf.subrange(4, 8) =~= le32(entry.file_mode));
    assert(buf.subrange(8, 12) =~= le32(entry.file_size));
    assert(buf.subrange(12, 16) =~= le32(entry.mod_time));
    assert(buf.subrange(16, 20) =~= le32(n));
    assert(buf.subrange(20, 20 + n) =~= name);
}

/// Reading is the inverse of writing: a stream that holds the records of
/// some entries and then `DONE` reads back as those entries, in the same
/// order, with nothing passed over and every byte taken.
pub proof fn listing_round_trip(entries: Seq<Dent>, streak: nat)
    requires
        forall|i: int| 0 <= i < entries.len() ==> (#[trigger] entries[i]).fits(),
    ensures
        listing(listing_stream(entries), streak) == (ListingModel {
            entries,
            ignored: 0,
            fault: None,
            consumed: listing_stream(entries).len(),
        }),
    decreases entries.len(),
{
    let stream = listing_stream(entries);
    tag_round_trip(Tag::Done);
    if entries.len() == 0 {
        assert(stream =~= Tag::Done.wire());
        assert(stream.subrange(0, 4) =~= Tag::Done.wire());
        assert(listing(stream, streak).entries =~= entries);
    } else {
        let first = entries[0];
        let others = entries.subrange(1, entries.len() as int);
        let tail = listing_stream(others);
        assert(stream =~= first.record() + tail);
        record_reads_back(first, tail);
        assert(stream.skip(first.record().len() as int) =~= tail);
        listing_round_trip(others, 0);
        assert(seq![first] + others =~= entries);
    }
}

} // verus!
