//! What may be asked of a connection, and when.
//!
//! A fresh connection takes host requests. Once the host command `sync:` has
//! been accepted it takes sync requests, one exchange at a time, and nothing
//! else. A connection on which an exchange failed is of no further use,
//! with one exception: a rejection in sync mode was read to its end and
//! leaves the stream in step. Only a new connection makes a closed session
//! usable again.

use crate::command::{HostCommand, SyncCommand};
use crate::error::{AdbError, Fault, Phase};
use crate::exchange::{argument_of, kind_of, sync_opening, Exchange, Kind, Position};
use crate::frame::host_frame;
use crate::hex::MAX_HOST_PAYLOAD;
use vstd::prelude::*;
use vstd::string::StringExecFns;

verus! {

/// The state of a connection.
#[derive(Clone, Copy, Debug, PartialEq, Eq, Structural)]
pub enum Mode {
    /// Connected; a host request may be sent.
    Idle,
    /// A host request other than `sync:` is under way.
    AwaitingReply,
    /// The host request `sync:` is under way.
    AwaitingSyncReply,
    /// In sync mode; a sync request may be sent.
    InSync,
    /// A sync exchange is under way.
    Exchanging,
    /// Of no further use until it is replaced.
    Closed,
}

/// How an exchange ended, as far as the session is concerned.
#[derive(Clone, Copy, Debug, PartialEq, Eq, Structural)]
pub enum Ending {
    /// It succeeded.
    Success,
    /// The server refused the request, and its message was read whole.
    Rejected,
    /// It failed in any other way.
    Failure,
}

impl Ending {
    /// The ending that a result stands for.
    pub open spec fn of(fault: Option<Fault>) -> Ending {
        match fault {
            None => Ending::Success,
            Some(Fault::Rejected(_)) => Ending::Rejected,
            Some(_) => Ending::Failure,
        }
    }

    /// The ending that `failure` stands for; `None` is success.
    pub fn classify(failure: Option<&AdbError>) -> (ending: Ending)
        ensures
            ending == Ending::of(
                match failure {
                    Some(e) => Some(e@),
                    None => None,
                },
            ),
    {
        match failure {
            None => Ending::Success,
            Some(AdbError::RequestRejected(_)) => Ending::Rejected,
            Some(_) => Ending::Failure,
        }
    }
}

impl Mode {
    /// The mode after an exchange that was under way has ended. In a mode
    /// in which none was under way, nothing changes.
    pub open spec fn after(self, ending: Ending) -> Mode {
        match (self, ending) {
            (Mode::AwaitingReply, Ending::Success) => Mode::Idle,
            (Mode::AwaitingSyncReply, Ending::Success) => Mode::InSync,
            (Mode::Exchanging, Ending::Success) => Mode::InSync,
            (Mode::Exchanging, Ending::Rejected) => Mode::InSync,
            (Mode::AwaitingReply, _) => Mode::Closed,
            (Mode::AwaitingSyncReply, _) => Mode::Closed,
            (Mode::Exchanging, _) => Mode::Closed,
            (mode, _) => mode,
        }
    }
}

/// The protocol state of one connection.
#[derive(Debug, PartialEq, Eq)]
pub struct Session {
    mode: Mode,
}

impl Session {
    /// The state of the connection.
    pub closed spec fn mode(&self) -> Mode {
        self.mode
    }

    /// The session of a connection that has just been opened.
    pub fn new() -> (session: Session)
        ensures
            session.mode() == Mode::Idle,
    {
        Session { mode: Mode::Idle }
    }

    /// The state of the connection.
    pub fn current(&self) -> (mode: Mode)
        ensures
            mode == self.mode(),
    {
        self.mode
    }

    /// Whether the connection must be replaced before anything else is sent.
    pub fn needs_reconnect(&self) -> (closed: bool)
        ensures
            closed == (self.mode() == Mode::Closed),
    {
        match self.mode {
            Mode::Closed => true,
            _ => false,
        }
    }

    /// Records that the connection was replaced by a new one.
    pub fn reconnected(&mut self)
        ensures
            final(self).mode() == Mode::Idle,
    {
        self.mode = Mode::Idle;
    }

    /// Records that the attempt to replace the connection failed.
    pub fn lost(&mut self)
        ensures
            final(self).mode() == Mode::Closed,
    {
        self.mode = Mode::Closed;
    }

    /// Starts a host request. It is granted on an idle connection only;
    /// elsewhere the request is out of step, and nothing changes. A command
    /// that cannot be framed is refused, and nothing changes either.
    pub fn open_host(&mut self, command: &HostCommand, with_body: bool) -> (out: Result<
        Exchange,
        AdbError,
    >)
        ensures
            old(self).mode() != Mode::Idle ==> final(self).mode() == old(self).mode() && (
            out matches Err(e) && e@ == Fault::Desync(Phase::Send)),
            old(self).mode() == Mode::Idle ==> match out {
                Ok(exchange) => {
                    &&& command.wire().len() <= MAX_HOST_PAYLOAD
                    &&& exchange@ == Position::opening(
                        Kind::Host { with_body },
                        host_frame(command.wire()),
                    )
                    &&& final(self).mode() == if command is Sync {
                        Mode::AwaitingSyncReply
                    } else {
                        Mode::AwaitingReply
                    }
                },
                Err(e) => {
                    &&& command.wire().len() > MAX_HOST_PAYLOAD
                    &&& e@ == Fault::Conversion(Phase::Send)
                    &&& final(self).mode() == Mode::Idle
                },
            },
    {
        match self.mode {
            Mode::Idle => {},
            _ => {
                return Err(AdbError::ProtocolDesyncError(Phase::Send));
            },
        }
        match Exchange::host(command, with_body) {
            Ok(exchange) => {
                self.mode = match command {
                    HostCommand::Sync => Mode::AwaitingSyncReply,
                    _ => Mode::AwaitingReply,
                };
                Ok(exchange)
            },
            Err(e) => Err(e),
        }
    }

    /// Starts a sync request. It is granted in sync mode only, between
    /// exchanges; elsewhere the request is out of step, and nothing changes.
    pub fn open_sync(&mut self, command: &SyncCommand, mode: Option<u32>) -> (out: Result<
        Exchange,
        AdbError,
    >)
        ensures
            old(self).mode() != Mode::InSync ==> final(self).mode() == old(self).mode() && (
            out matches Err(e) && e@ == Fault::Desync(Phase::SyncExchange)),
            old(self).mode() == Mode::InSync ==> {
                &&& sync_opening(out, kind_of(command), command.tag(), argument_of(command, mode))
                &&& final(self).mode() == if out is Ok {
                    Mode::Exchanging
                } else {
                    Mode::InSync
                }
            },
    {
        match self.mode {
            Mode::InSync => {},
            _ => {
                return Err(AdbError::ProtocolDesyncError(Phase::SyncExchange));
            },
        }
        match Exchange::sync(command, mode) {
            Ok(exchange) => {
                self.mode = Mode::Exchanging;
                Ok(exchange)
            },
            Err(e) => Err(e),
        }
    }

    /// Records how the exchange under way has ended; `None` is success.
    pub fn settle(&mut self, failure: Option<&AdbError>)
        ensures
            final(self).mode() == old(self).mode().after(
                Ending::of(
                    match failure {
                        Some(e) => Some(e@),
                        None => None,
                    },
                ),
            ),
    {
        let ending = Ending::classify(failure);
        self.mode = match (self.mode, ending) {
            (Mode::AwaitingReply, Ending::Success) => Mode::Idle,
            (Mode::AwaitingSyncReply, Ending::Success) => Mode::InSync,
            (Mode::Exchanging, Ending::Success) => Mode::InSync,
            (Mode::Exchanging, Ending::Rejected) => Mode::InSync,
            (Mode::AwaitingReply, _) => Mode::Closed,
            (Mode::AwaitingSyncReply, _) => Mode::Closed,
            (Mode::Exchanging, _) => Mode::Closed,
            (mode, _) => mode,
        };
    }
}

/// The host commands that bring a fresh connection into sync mode with a
/// device: the choice of the device, by serial number where one is given,
/// and then `sync:`.
pub fn sync_plan(serial: Option<&str>) -> (plan: Vec<HostCommand>)
    ensures
        plan@.len() == 2,
        match serial {
            Some(s) => plan@[0] matches HostCommand::TransportSerial(t) && t@ == s@,
            None => plan@[0] == HostCommand::TransportAny,
        },
        plan@[1] == HostCommand::Sync,
{
    let mut plan: Vec<HostCommand> = Vec::new();
    match serial {
        Some(s) => plan.push(HostCommand::TransportSerial(String::from_str(s))),
        None => plan.push(HostCommand::TransportAny),
    }
    plan.push(HostCommand::Sync);
    plan
}

} // verus!
