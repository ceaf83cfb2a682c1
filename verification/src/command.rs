//! The vocabulary of the protocol: host commands, status words, sync commands.

use crate::error::{AdbError, Fault, Phase};
use crate::frame::{encode_host_frame, host_frame};
use crate::hex::MAX_HOST_PAYLOAD;
use crate::tag::Tag;
use crate::wire::text_bytes;
use vstd::prelude::*;
use vstd::string::StringExecFns;
use vstd::utf8::encode_utf8;

verus! {

/// A request that the server itself answers, before any file-sync activity.
#[derive(Clone, Debug, PartialEq, Eq)]
pub enum HostCommand {
    /// Talk to whichever device is attached.
    TransportAny,
    /// Talk to the device with this serial number.
    TransportSerial(String),
    /// Switch the connection to sync mode.
    Sync,
    /// Run a command in a shell on the device.
    Shell(String),
}

impl HostCommand {
    /// The canonical token of the command, as text.
    pub open spec fn text(&self) -> Seq<char> {
        match self {
            HostCommand::TransportAny => "host:transport-any"@,
            HostCommand::TransportSerial(serial) => "host:transport:"@ + serial@,
            HostCommand::Sync => "sync:"@,
            HostCommand::Shell(args) => "shell:"@ + args@,
        }
    }

    /// The token as it travels, before framing.
    pub open spec fn wire(&self) -> Seq<u8> {
        encode_utf8(self.text())
    }

    /// The canonical token of the command.
    pub fn token(&self) -> (out: String)
        ensures
            out@ == self.text(),
    {
        match self {
            HostCommand::TransportAny => String::from_str("host:transport-any"),
            HostCommand::TransportSerial(serial) => String::from_str("host:transport:").concat(
                serial.as_str(),
            ),
            HostCommand::Sync => String::from_str("sync:"),
            HostCommand::Shell(args) => String::from_str("shell:").concat(args.as_str()),
        }
    }

    /// The request for this command: its token in host framing. A token of
    /// more than `0xffff` bytes cannot be framed.
    pub fn request(&self) -> (out: Result<Vec<u8>, AdbError>)
        ensures
            match out {
                Ok(frame) => self.wire().len() <= MAX_HOST_PAYLOAD && frame@ == host_frame(
                    self.wire(),
                ),
                Err(e) => self.wire().len() > MAX_HOST_PAYLOAD && e@ == Fault::Conversion(
                    Phase::Send,
                ),
            },
    {
        let token = self.token();
        let payload = text_bytes(token.as_str());
        encode_host_frame(payload.as_slice())
    }
}

/// The server's status word for a request.
#[derive(Clone, Copy, Debug, PartialEq, Eq, Structural)]
pub enum RequestStatus {
    /// The request was accepted.
    Okay,
    /// The request was refused.
    Fail,
}

impl RequestStatus {
    /// The word of the status.
    pub open spec fn tag(self) -> Tag {
        match self {
            RequestStatus::Okay => Tag::Okay,
            RequestStatus::Fail => Tag::Fail,
        }
    }

    /// The status that `bytes` spell: they must be exactly `OKAY` or `FAIL`.
    pub open spec fn of(bytes: Seq<u8>) -> Option<RequestStatus> {
        if bytes == RequestStatus::Okay.tag().wire() {
            Some(RequestStatus::Okay)
        } else if bytes == RequestStatus::Fail.tag().wire() {
            Some(RequestStatus::Fail)
        } else {
            None
        }
    }

    /// Reads a status. Any other four bytes, and any other number of bytes,
    /// are not a status, and the stream is out of step.
    pub fn decode(bytes: &[u8]) -> (out: Result<RequestStatus, AdbError>)
        ensures
            match out {
                Ok(status) => RequestStatus::of(bytes@) == Some(status),
                Err(e) => RequestStatus::of(bytes@) is None && e@ == Fault::Desync(
                    Phase::DecodeStatus,
                ),
            },
    {
        if bytes.len() != 4 {
            return Err(AdbError::ProtocolDesyncError(Phase::DecodeStatus));
        }
        assert(bytes@.subrange(0, 4) =~= bytes@);
        match Tag::decode(bytes) {
            Some(Tag::Okay) => Ok(RequestStatus::Okay),
            Some(Tag::Fail) => Ok(RequestStatus::Fail),
            _ => Err(AdbError::ProtocolDesyncError(Phase::DecodeStatus)),
        }
    }
}

/// A file-sync request, valid once the connection is in sync mode.
#[derive(Clone, Debug, PartialEq, Eq)]
pub enum SyncCommand {
    /// List the directory at this remote path.
    List(String),
    /// Upload the local file (first) to the remote path (second).
    Send(String, String),
    /// Download the remote file (first) to the local path (second).
    Recv(String, String),
    /// Describe the file at this remote path.
    Stat(String),
}

impl SyncCommand {
    /// The word that opens the request.
    pub open spec fn tag(&self) -> Tag {
        match self {
            SyncCommand::List(_) => Tag::List,
            SyncCommand::Send(_, _) => Tag::Send,
            SyncCommand::Recv(_, _) => Tag::Recv,
            SyncCommand::Stat(_) => Tag::Stat,
        }
    }

    /// The path on the device that the request is about.
    pub open spec fn remote(&self) -> Seq<char> {
        match self {
            SyncCommand::List(path) => path@,
            SyncCommand::Send(_, remote) => remote@,
            SyncCommand::Recv(remote, _) => remote@,
            SyncCommand::Stat(path) => path@,
        }
    }

    /// The word that opens the request.
    pub fn word(&self) -> (tag: Tag)
        ensures
            tag == self.tag(),
    {
        match self {
            SyncCommand::List(_) => Tag::List,
            SyncCommand::Send(_, _) => Tag::Send,
            SyncCommand::Recv(_, _) => Tag::Recv,
            SyncCommand::Stat(_) => Tag::Stat,
        }
    }

    /// The path on the device that the request is about.
    pub fn remote_path(&self) -> (path: &str)
        ensures
            path@ == self.remote(),
    {
        match self {
            SyncCommand::List(path) => path.as_str(),
            SyncCommand::Send(_, remote) => remote.as_str(),
            SyncCommand::Recv(remote, _) => remote.as_str(),
            SyncCommand::Stat(path) => path.as_str(),
        }
    }
}

} // verus!
