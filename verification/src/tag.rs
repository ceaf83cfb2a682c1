//! The four-byte words of the protocol, in one table.

use vstd::prelude::*;

verus! {

/// A four-byte word that opens a frame or answers a request.
#[derive(Clone, Copy, Debug, PartialEq, Eq, Structural)]
pub enum Tag {
    /// `OKAY`: the request was accepted.
    Okay,
    /// `FAIL`: the request was refused; a message follows.
    Fail,
    /// `LIST`: list a directory.
    List,
    /// `SEND`: upload a file.
    Send,
    /// `RECV`: download a file.
    Recv,
    /// `STAT`: describe a file.
    Stat,
    /// `DENT`: one directory entry.
    Dent,
    /// `DATA`: one chunk of file contents.
    Data,
    /// `DONE`: the end of a listing or of a transfer.
    Done,
}

/// The bytes of four ASCII letters.
pub open spec fn letters(a: char, b: char, c: char, d: char) -> Seq<u8> {
    seq![a as u8, b as u8, c as u8, d as u8]
}

impl Tag {
    /// The word as it travels.
    pub open spec fn wire(self) -> Seq<u8> {
        match self {
            Tag::Okay => letters('O', 'K', 'A', 'Y'),
            Tag::Fail => letters('F', 'A', 'I', 'L'),
            Tag::List => letters('L', 'I', 'S', 'T'),
            Tag::Send => letters('S', 'E', 'N', 'D'),
            Tag::Recv => letters('R', 'E', 'C', 'V'),
            Tag::Stat => letters('S', 'T', 'A', 'T'),
            Tag::Dent => letters('D', 'E', 'N', 'T'),
            Tag::Data => letters('D', 'A', 'T', 'A'),
            Tag::Done => letters('D', 'O', 'N', 'E'),
        }
    }

    /// The tag whose word is the first four bytes of `bytes`, if there are
    /// four and they are a word of the table.
    pub open spec fn of(bytes: Seq<u8>) -> Option<Tag> {
        let word = bytes.subrange(0, 4);
        if bytes.len() < 4 {
            None
        } else if word == Tag::Okay.wire() {
            Some(Tag::Okay)
        } else if word == Tag::Fail.wire() {
            Some(Tag::Fail)
        } else if word == Tag::List.wire() {
            Some(Tag::List)
        } else if word == Tag::Send.wire() {
            Some(Tag::Send)
        } else if word == Tag::Recv.wire() {
            Some(Tag::Recv)
        } else if word == Tag::Stat.wire() {
            Some(Tag::Stat)
        } else if word == Tag::Dent.wire() {
            Some(Tag::Dent)
        } else if word == Tag::Data.wire() {
            Some(Tag::Data)
        } else if word == Tag::Done.wire() {
            Some(Tag::Done)
        } else {
            None
        }
    }

    /// The four bytes of the word.
    pub fn bytes(self) -> (out: [u8; 4])
        ensures
            out@ == self.wire(),
    {
        let out: [u8; 4] = match self {
            Tag::Okay => [0x4f, 0x4b, 0x41, 0x59],
            Tag::Fail => [0x46, 0x41, 0x49, 0x4c],
            Tag::List => [0x4c, 0x49, 0x53, 0x54],
            Tag::Send => [0x53, 0x45, 0x4e, 0x44],
            Tag::Recv => [0x52, 0x45, 0x43, 0x56],
            Tag::Stat => [0x53, 0x54, 0x41, 0x54],
            Tag::Dent => [0x44, 0x45, 0x4e, 0x54],
            Tag::Data => [0x44, 0x41, 0x54, 0x41],
            Tag::Done => [0x44, 0x4f, 0x4e, 0x45],
        };
        assert(out@ =~= self.wire());
        out
    }

    /// Reads the word at the start of `bytes`.
    pub fn decode(bytes: &[u8]) -> (tag: Option<Tag>)
        ensures
            tag == Tag::of(bytes@),
    {
        if bytes.len() < 4 {
            return None;
        }
        let a: u8 = bytes[0];
        let b: u8 = bytes[1];
        let c: u8 = bytes[2];
        let d: u8 = bytes[3];
        assert(bytes@.subrange(0, 4) =~= seq![a, b, c, d]);
        if a == 0x4f && b == 0x4b && c == 0x41 && d == 0x59 {
            Some(Tag::Okay)
        } else if a == 0x46 && b == 0x41 && c == 0x49 && d == 0x4c {
            Some(Tag::Fail)
        } else if a == 0x4c && b == 0x49 && c == 0x53 && d == 0x54 {
            Some(Tag::List)
        } else if a == 0x53 && b == 0x45 && c == 0x4e && d == 0x44 {
            Some(Tag::Send)
        } else if a == 0x52 && b == 0x45 && c == 0x43 && d == 0x56 {
            Some(Tag::Recv)
        } else if a == 0x53 && b == 0x54 && c == 0x41 && d == 0x54 {
            Some(Tag::Stat)
        } else if a == 0x44 && b == 0x45 && c == 0x4e && d == 0x54 {
            Some(Tag::Dent)
        } else if a == 0x44 && b == 0x41 && c == 0x54 && d == 0x41 {
            Some(Tag::Data)
        } else if a == 0x44 && b == 0x4f && c == 0x4e && d == 0x45 {
            Some(Tag::Done)
        } else {
            None
        }
    }
}

/// Decoding a word gives its tag back: the table is one-to-one.
pub proof fn tag_round_trip(tag: Tag)
    ensures
        tag.wire().len() == 4,
        Tag::of(tag.wire()) == Some(tag),
{
    assert(tag.wire().subrange(0, 4) =~= tag.wire());
}

} // verus!
