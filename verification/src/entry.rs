//! What the server tells of a file: a directory entry, a stat record.

use crate::error::{AdbError, Phase};
use crate::tag::Tag;
use crate::wire::{append_bytes, le32, le32_bytes, text_bytes};
use vstd::prelude::*;
use vstd::utf8::encode_utf8;

verus! {

/// One entry of a directory listing.
#[derive(Clone, Debug, PartialEq, Eq)]
pub struct DirectoryEntry {
    /// POSIX mode bits.
    pub file_mode: u32,
    /// Size in bytes.
    pub file_size: u32,
    /// Last modification, in seconds since the epoch.
    pub mod_time: u32,
    /// Name within the directory.
    pub name: String,
}

/// Mathematical value of a [`DirectoryEntry`].
pub ghost struct Dent {
    pub file_mode: u32,
    pub file_size: u32,
    pub mod_time: u32,
    pub name: Seq<char>,
}

impl View for DirectoryEntry {
    type V = Dent;

    open spec fn view(&self) -> Dent {
        Dent {
            file_mode: self.file_mode,
            file_size: self.file_size,
            mod_time: self.mod_time,
            name: self.name@,
        }
    }
}

/// The values of a vector of entries, in order.
pub open spec fn entries_view(entries: Seq<DirectoryEntry>) -> Seq<Dent> {
    Seq::new(entries.len(), |i: int| entries[i]@)
}

/// What a `STAT` reply tells of a file.
#[derive(Clone, Copy, Debug, PartialEq, Eq, Structural)]
pub struct FileStat {
    /// POSIX mode bits.
    pub file_mode: u32,
    /// Size in bytes.
    pub file_size: u32,
    /// Last modification, in seconds since the epoch.
    pub mod_time: u32,
}

impl View for FileStat {
    type V = FileStat;

    open spec fn view(&self) -> FileStat {
        *self
    }
}

impl Dent {
    /// Whether the name is short enough for its length to be written in
    /// four bytes.
    pub open spec fn fits(self) -> bool {
        encode_utf8(self.name).len() <= u32::MAX
    }

    /// The entry as the server sends it: `DENT`, mode, size, time, the
    /// length of the name, and the name.
    pub open spec fn record(self) -> Seq<u8> {
        Tag::Dent.wire() + le32(self.file_mode) + le32(self.file_size) + le32(self.mod_time)
            + le32(encode_utf8(self.name).len() as u32) + encode_utf8(self.name)
    }
}

/// The records of `entries` one after another.
pub open spec fn records(entries: Seq<Dent>) -> Seq<u8>
    decreases entries.len(),
{
    if entries.len() == 0 {
        Seq::empty()
    } else {
        entries[0].record() + records(entries.subrange(1, entries.len() as int))
    }
}

impl DirectoryEntry {
    /// Writes the entry as the server would send it. A name of more than
    /// `u32::MAX` bytes has no record.
    pub fn encode(&self) -> (out: Result<Vec<u8>, AdbError>)
        ensures
            match out {
                Ok(bytes) => self@.fits() && bytes@ == self@.record(),
                Err(e) => !self@.fits() && e@ == AdbError::ConversionError(Phase::SyncExchange)@,
            },
    {
        let name = text_bytes(self.name.as_str());
        if name.len() > u32::MAX as usize {
            return Err(AdbError::ConversionError(Phase::SyncExchange));
        }
        let mut out: Vec<u8> = Vec::new();
        append_bytes(&mut out, Tag::Dent.bytes().as_slice());
        append_bytes(&mut out, le32_bytes(self.file_mode).as_slice());
        append_bytes(&mut out, le32_bytes(self.file_size).as_slice());
        append_bytes(&mut out, le32_bytes(self.mod_time).as_slice());
        append_bytes(&mut out, le32_bytes(name.len() as u32).as_slice());
        append_bytes(&mut out, name.as_slice());
        assert(out@ =~= self@.record());
        Ok(out)
    }
}

} // verus!
