//! Failures of a session, each with the step in which it was noticed.

use vstd::prelude::*;

verus! {

/// The step of a session during which a failure was noticed.
#[derive(Clone, Copy, Debug, PartialEq, Eq, Structural)]
pub enum Phase {
    /// Opening the connection to the server.
    Connect,
    /// Framing or writing a request.
    Send,
    /// Reading the four-byte status that answers a host request.
    DecodeStatus,
    /// Reading a length-prefixed body that follows a status.
    DecodeBody,
    /// Anywhere inside a file-sync exchange.
    SyncExchange,
}

/// Why an operation of a session did not succeed.
#[derive(Clone, Debug, PartialEq, Eq)]
pub enum AdbError {
    /// The server could not be reached.
    ConnectionError,
    /// The stream ended, or a read or write failed, in the middle of an exchange.
    TransportError(Phase),
    /// A length field was malformed, or bytes that must be text were not UTF-8.
    ConversionError(Phase),
    /// The server answered `FAIL`; the message is the server's own.
    RequestRejected(String),
    /// The modification time of the file to send is not available.
    MetadataError,
    /// A tag arrived that the exchange does not know and cannot skip.
    ProtocolDesyncError(Phase),
}

/// Mathematical value of an [`AdbError`]: the message is a sequence of characters.
pub ghost enum Fault {
    Connection,
    Transport(Phase),
    Conversion(Phase),
    Rejected(Seq<char>),
    Metadata,
    Desync(Phase),
}

impl Fault {
    /// The step that the failure is attributed to.
    pub open spec fn phase(self) -> Phase {
        match self {
            Fault::Connection => Phase::Connect,
            Fault::Transport(p) => p,
            Fault::Conversion(p) => p,
            Fault::Rejected(_) => Phase::DecodeStatus,
            Fault::Metadata => Phase::Send,
            Fault::Desync(p) => p,
        }
    }
}

impl View for AdbError {
    type V = Fault;

    open spec fn view(&self) -> Fault {
        match self {
            AdbError::ConnectionError => Fault::Connection,
            AdbError::TransportError(p) => Fault::Transport(*p),
            AdbError::ConversionError(p) => Fault::Conversion(*p),
            AdbError::RequestRejected(m) => Fault::Rejected(m@),
            AdbError::MetadataError => Fault::Metadata,
            AdbError::ProtocolDesyncError(p) => Fault::Desync(*p),
        }
    }
}

impl AdbError {
    /// The step that the failure is attributed to. A rejection is the
    /// server's status, so it belongs to the reading of that status.
    pub fn phase(&self) -> (p: Phase)
        ensures
            p == self@.phase(),
    {
        match self {
            AdbError::ConnectionError => Phase::Connect,
            AdbError::TransportError(p) => *p,
            AdbError::ConversionError(p) => *p,
            AdbError::RequestRejected(_) => Phase::DecodeStatus,
            AdbError::MetadataError => Phase::Send,
            AdbError::ProtocolDesyncError(p) => *p,
        }
    }
}

} // verus!
