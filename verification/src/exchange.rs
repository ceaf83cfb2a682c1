//! One exchange with the server, as a state machine.
//!
//! An [`Exchange`] decides; it performs nothing. Its owner calls
//! [`Exchange::step`] with what came of the last action and receives the
//! next one: bytes to write, a number of bytes to read, a chunk to fetch
//! from the file being sent, an item to hand on, or the end. Reads are
//! asked for in exactly the sizes that the reply in progress needs, so that
//! when an exchange is over the stream stands at the first byte of whatever
//! comes next.

use crate::command::{HostCommand, SyncCommand};
use crate::entry::{Dent, DirectoryEntry, FileStat};
use crate::error::{AdbError, Fault, Phase};
use crate::frame::host_frame;
use crate::hex::MAX_HOST_PAYLOAD;
use crate::host::{host_reply, scan_host_reply};
use crate::list::{list_item, scan_list_item, ListItem, ListStep, MAX_UNKNOWN_STREAK};
use crate::recv::{recv_item, scan_recv_item, RecvItem, RecvStep};
use crate::scan::{Reading, Scan};
use crate::send::{
    data_frame, done_frame, encode_data_frame, encode_done_frame, encode_send_request,
    send_target, CHUNK_SIZE,
};
use crate::stat::{scan_stat_reply, stat_reply};
use crate::sync::{encode_sync_request, scan_sync_status, sync_request, sync_status};
use crate::tag::Tag;
use crate::wire::{append_bytes, text_bytes};
use vstd::prelude::*;
use vstd::utf8::encode_utf8;

verus! {

/// Which exchange it is.
#[derive(Clone, Copy, Debug, PartialEq, Eq, Structural)]
pub enum Kind {
    /// A host request; `with_body` tells whether `OKAY` is followed by a body.
    Host { with_body: bool },
    /// A directory listing.
    List,
    /// An upload.
    Send,
    /// A download.
    Recv,
    /// A stat query.
    Stat,
}

impl Kind {
    /// The phase that a failure belongs to before anything was read.
    pub open spec fn first_phase(self) -> Phase {
        match self {
            Kind::Host { .. } => Phase::Send,
            _ => Phase::SyncExchange,
        }
    }

    /// The stage that follows the writing of the request.
    pub open spec fn second_stage(self) -> Stage {
        match self {
            Kind::Send => Stage::Uploading,
            _ => Stage::Reading,
        }
    }
}

/// How far an exchange has come.
#[derive(Clone, Copy, Debug, PartialEq, Eq, Structural)]
pub enum Stage {
    /// The request is still to be written.
    Opening,
    /// The contents of the file are being sent, chunk by chunk.
    Uploading,
    /// The contents are sent; the modification time is being asked for.
    Stamping,
    /// The server's reply is being read.
    Reading,
    /// The exchange is over.
    Finished,
}

/// What came of the action that the exchange last asked for.
#[derive(Debug, PartialEq, Eq)]
pub enum Event {
    /// It was carried out, and there is nothing to report. This also starts
    /// an exchange.
    Done,
    /// Bytes were read, from the server or from the file being sent.
    Bytes(Vec<u8>),
    /// The modification time of the file being sent, if it is known.
    Modified(Option<u32>),
    /// It could not be carried out: the stream or the file failed.
    Broken,
}

/// Mathematical value of an [`Event`].
pub ghost enum Signal {
    Done,
    Bytes(Seq<u8>),
    Modified(Option<u32>),
    Broken,
}

impl View for Event {
    type V = Signal;

    open spec fn view(&self) -> Signal {
        match self {
            Event::Done => Signal::Done,
            Event::Bytes(bytes) => Signal::Bytes(bytes@),
            Event::Modified(time) => Signal::Modified(*time),
            Event::Broken => Signal::Broken,
        }
    }
}

/// What a finished exchange brought.
#[derive(Debug, PartialEq, Eq)]
pub enum Reply {
    /// Nothing but the fact that it succeeded.
    Nothing,
    /// The body that answered a host request; empty where none was expected.
    Body(Vec<u8>),
    /// The record that answered a stat query.
    Stat(FileStat),
}

/// Mathematical value of a [`Reply`].
pub ghost enum Answer {
    Nothing,
    Body(Seq<u8>),
    Stat(FileStat),
}

impl View for Reply {
    type V = Answer;

    open spec fn view(&self) -> Answer {
        match self {
            Reply::Nothing => Answer::Nothing,
            Reply::Body(body) => Answer::Body(body@),
            Reply::Stat(stat) => Answer::Stat(*stat),
        }
    }
}

/// What the owner of an exchange is to do next. After each action but the
/// last two it calls `step` again with the outcome.
#[derive(Debug, PartialEq, Eq)]
pub enum Action {
    /// Write all of these bytes to the server; then report `Done`.
    Send(Vec<u8>),
    /// Read exactly this many bytes from the server; report them as `Bytes`.
    Receive(usize),
    /// Read up to this many bytes from the file being sent; report them as
    /// `Bytes`, empty when the file is exhausted.
    Pull(usize),
    /// Look up the modification time of the file being sent; report it as
    /// `Modified`.
    Stamp,
    /// A directory entry has arrived; then report `Done`.
    Entry(DirectoryEntry),
    /// An unknown word was passed over; then report `Done`.
    Skipped(Vec<u8>),
    /// A piece of the file being received has arrived; then report `Done`.
    Store(Vec<u8>),
    /// The exchange has succeeded.
    Finished(Reply),
    /// The exchange has failed.
    Failed(AdbError),
}

/// Mathematical value of an [`Action`].
pub ghost enum Order {
    Send(Seq<u8>),
    Receive(nat),
    Pull(nat),
    Stamp,
    Entry(Dent),
    Skipped(Seq<u8>),
    Store(Seq<u8>),
    Finished(Answer),
    Failed(Fault),
}

impl View for Action {
    type V = Order;

    open spec fn view(&self) -> Order {
        match self {
            Action::Send(bytes) => Order::Send(bytes@),
            Action::Receive(n) => Order::Receive(*n as nat),
            Action::Pull(n) => Order::Pull(*n as nat),
            Action::Stamp => Order::Stamp,
            Action::Entry(entry) => Order::Entry(entry@),
            Action::Skipped(word) => Order::Skipped(word@),
            Action::Store(chunk) => Order::Store(chunk@),
            Action::Finished(reply) => Order::Finished(reply@),
            Action::Failed(error) => Order::Failed(error@),
        }
    }
}

/// One exchange in progress.
#[derive(Debug, PartialEq, Eq)]
pub struct Exchange {
    /// Which exchange it is.
    pub kind: Kind,
    /// How far it has come.
    pub stage: Stage,
    /// The request, until it is handed out for writing.
    pub request: Vec<u8>,
    /// The bytes received so far of the reply in progress.
    pub inbox: Vec<u8>,
    /// How many bytes were asked of the server and are still awaited.
    pub wanted: usize,
    /// The phase that a failure of the pending action belongs to.
    pub phase: Phase,
    /// How many unknown words a listing has just passed over in a row.
    pub streak: u32,
}

/// Mathematical value of an [`Exchange`].
pub ghost struct Position {
    pub kind: Kind,
    pub stage: Stage,
    pub request: Seq<u8>,
    pub inbox: Seq<u8>,
    pub wanted: nat,
    pub phase: Phase,
    pub streak: nat,
}

impl View for Exchange {
    type V = Position;

    open spec fn view(&self) -> Position {
        Position {
            kind: self.kind,
            stage: self.stage,
            request: self.request@,
            inbox: self.inbox@,
            wanted: self.wanted as nat,
            phase: self.phase,
            streak: self.streak as nat,
        }
    }
}

impl Position {
    /// An exchange of this kind that has yet to write `request`.
    pub open spec fn opening(kind: Kind, request: Seq<u8>) -> Position {
        Position {
            kind,
            stage: Stage::Opening,
            request,
            inbox: Seq::empty(),
            wanted: 0,
            phase: kind.first_phase(),
            streak: 0,
        }
    }

    /// The exchange fails here.
    pub open spec fn halt(self, fault: Fault) -> (Position, Order) {
        (Position { stage: Stage::Finished, ..self }, Order::Failed(fault))
    }

    /// The exchange succeeds here.
    pub open spec fn close(self, answer: Answer) -> (Position, Order) {
        (
            Position { stage: Stage::Finished, inbox: Seq::empty(), wanted: 0, ..self },
            Order::Finished(answer),
        )
    }

    /// The reply in progress needs `k` more bytes.
    pub open spec fn wait(self, k: nat, phase: Phase) -> (Position, Order) {
        (Position { wanted: k, phase, ..self }, Order::Receive(k))
    }

    /// A step of the reply is complete and is handed on; the next one
    /// starts from nothing.
    pub open spec fn hand(self, streak: nat, order: Order) -> (Position, Order) {
        (Position { inbox: Seq::empty(), wanted: 0, streak, ..self }, order)
    }

    /// What the bytes in the inbox amount to, for this kind of exchange.
    #[verifier::opaque]
    pub open spec fn digest(self) -> (Position, Order) {
        match self.kind {
            Kind::Host { with_body } => match host_reply(self.inbox, with_body) {
                Reading::More(k, phase) => self.wait(k, phase),
                Reading::Done(body, _) => self.close(Answer::Body(body)),
                Reading::Fail(fault, _) => self.halt(fault),
            },
            Kind::List => match list_item(self.inbox) {
                Reading::More(k, phase) => self.wait(k, phase),
                Reading::Done(ListStep::End, _) => self.close(Answer::Nothing),
                Reading::Done(ListStep::Entry(entry), _) => self.hand(0, Order::Entry(entry)),
                Reading::Done(ListStep::Unknown(word), _) => if self.streak
                    >= MAX_UNKNOWN_STREAK {
                    self.halt(Fault::Desync(Phase::SyncExchange))
                } else {
                    self.hand(self.streak + 1, Order::Skipped(word))
                },
                Reading::Fail(fault, _) => self.halt(fault),
            },
            Kind::Recv => match recv_item(self.inbox) {
                Reading::More(k, phase) => self.wait(k, phase),
                Reading::Done(RecvStep::End, _) => self.close(Answer::Nothing),
                Reading::Done(RecvStep::Data(chunk), _) => self.hand(
                    self.streak,
                    Order::Store(chunk),
                ),
                Reading::Fail(fault, _) => self.halt(fault),
            },
            Kind::Stat => match stat_reply(self.inbox) {
                Reading::More(k, phase) => self.wait(k, phase),
                Reading::Done(stat, _) => self.close(Answer::Stat(stat)),
                Reading::Fail(fault, _) => self.halt(fault),
            },
            Kind::Send => match sync_status(self.inbox) {
                Reading::More(k, phase) => self.wait(k, phase),
                Reading::Done(_, _) => self.close(Answer::Nothing),
                Reading::Fail(fault, _) => self.halt(fault),
            },
        }
    }

    /// The next position and the next action, given what came of the last.
    ///
    /// - Before anything else the request is written, and the exchange
    ///   starts from nothing, whatever the position held before.
    /// - An upload then fetches chunks of at most `CHUNK_SIZE` bytes and
    ///   sends each in a `DATA` frame; an empty chunk is the end of the file
    ///   and is not sent. It then asks for the modification time and sends
    ///   it behind `DONE`; without one it fails.
    /// - The reply is read in exactly the sizes that it asks for. Bytes in
    ///   any other number, and a report of failure, end the exchange with a
    ///   transport failure.
    /// - A finished exchange takes no further step: whoever asks for one is
    ///   out of step.
    pub open spec fn advance(self, signal: Signal) -> (Position, Order) {
        match self.stage {
            Stage::Finished => (self, Order::Failed(Fault::Desync(self.phase))),
            Stage::Opening => match signal {
                Signal::Broken => self.halt(Fault::Transport(self.phase)),
                _ => (
                    Position {
                        stage: self.kind.second_stage(),
                        ..Position::opening(self.kind, Seq::empty())
                    },
                    Order::Send(self.request),
                ),
            },
            Stage::Uploading => match signal {
                Signal::Done => (self, Order::Pull(CHUNK_SIZE as nat)),
                Signal::Bytes(chunk) => if chunk.len() == 0 {
                    (Position { stage: Stage::Stamping, ..self }, Order::Stamp)
                } else if chunk.len() > CHUNK_SIZE {
                    self.halt(Fault::Transport(Phase::SyncExchange))
                } else {
                    (self, Order::Send(data_frame(chunk)))
                },
                _ => self.halt(Fault::Transport(Phase::SyncExchange)),
            },
            Stage::Stamping => match signal {
                Signal::Modified(Some(time)) => (
                    Position { stage: Stage::Reading, ..self },
                    Order::Send(done_frame(time)),
                ),
                Signal::Modified(None) => self.halt(Fault::Metadata),
                _ => self.halt(Fault::Transport(Phase::SyncExchange)),
            },
            Stage::Reading => match signal {
                Signal::Done => if self.wanted == 0 {
                    self.digest()
                } else {
                    self.halt(Fault::Transport(self.phase))
                },
                Signal::Bytes(bytes) => if self.wanted > 0 && bytes.len() == self.wanted {
                    (Position { inbox: self.inbox + bytes, ..self }).digest()
                } else {
                    self.halt(Fault::Transport(self.phase))
                },
                _ => self.halt(Fault::Transport(self.phase)),
            },
        }
    }
}

impl Exchange {
    fn opening(kind: Kind, request: Vec<u8>) -> (out: Exchange)
        ensures
            out@ == Position::opening(kind, request@),
    {
        let phase = match kind {
            Kind::Host { .. } => Phase::Send,
            _ => Phase::SyncExchange,
        };
        Exchange {
            kind,
            stage: Stage::Opening,
            request,
            inbox: Vec::new(),
            wanted: 0,
            phase,
            streak: 0,
        }
    }

    /// Prepares a host request. With `with_body`, `OKAY` is expected to be
    /// followed by a body in host framing. A command whose token is longer
    /// than `0xffff` bytes cannot be framed.
    pub fn host(command: &HostCommand, with_body: bool) -> (out: Result<Exchange, AdbError>)
        ensures
            match out {
                Ok(exchange) => command.wire().len() <= MAX_HOST_PAYLOAD && exchange@
                    == Position::opening(Kind::Host { with_body }, host_frame(command.wire())),
                Err(e) => command.wire().len() > MAX_HOST_PAYLOAD && e@ == Fault::Conversion(
                    Phase::Send,
                ),
            },
    {
        match command.request() {
            Ok(request) => Ok(Exchange::opening(Kind::Host { with_body }, request)),
            Err(e) => Err(e),
        }
    }

    /// Prepares the listing of the directory at `path`.
    pub fn list(path: &str) -> (out: Result<Exchange, AdbError>)
        ensures
            sync_opening(out, Kind::List, Tag::List, encode_utf8(path@)),
    {
        Exchange::plain(Kind::List, Tag::List, path)
    }

    /// Prepares the download of the file at `remote`.
    pub fn recv(remote: &str) -> (out: Result<Exchange, AdbError>)
        ensures
            sync_opening(out, Kind::Recv, Tag::Recv, encode_utf8(remote@)),
    {
        Exchange::plain(Kind::Recv, Tag::Recv, remote)
    }

    /// Prepares a stat query for the file at `path`.
    pub fn stat(path: &str) -> (out: Result<Exchange, AdbError>)
        ensures
            sync_opening(out, Kind::Stat, Tag::Stat, encode_utf8(path@)),
    {
        Exchange::plain(Kind::Stat, Tag::Stat, path)
    }

    /// Prepares the upload of a file to `remote`. `mode` is the mode of the
    /// local file where it is known.
    pub fn send(remote: &str, mode: Option<u32>) -> (out: Result<Exchange, AdbError>)
        ensures
            sync_opening(out, Kind::Send, Tag::Send, send_target(remote@, mode)),
    {
        match encode_send_request(remote, mode) {
            Ok(request) => Ok(Exchange::opening(Kind::Send, request)),
            Err(e) => Err(e),
        }
    }

    /// Prepares the exchange for a sync command. `mode` matters to an
    /// upload only.
    pub fn sync(command: &SyncCommand, mode: Option<u32>) -> (out: Result<Exchange, AdbError>)
        ensures
            sync_opening(out, kind_of(command), command.tag(), argument_of(command, mode)),
    {
        match command {
            SyncCommand::List(path) => Exchange::list(path.as_str()),
            SyncCommand::Send(_, remote) => Exchange::send(remote.as_str(), mode),
            SyncCommand::Recv(remote, _) => Exchange::recv(remote.as_str()),
            SyncCommand::Stat(path) => Exchange::stat(path.as_str()),
        }
    }

    fn plain(kind: Kind, tag: Tag, path: &str) -> (out: Result<Exchange, AdbError>)
        ensures
            sync_opening(out, kind, tag, encode_utf8(path@)),
    {
        let argument = text_bytes(path);
        match encode_sync_request(tag, argument.as_slice()) {
            Ok(request) => Ok(Exchange::opening(kind, request)),
            Err(e) => Err(e),
        }
    }

    fn halt(&mut self, error: AdbError) -> (action: Action)
        ensures
            (final(self)@, action@) == old(self)@.halt(error@),
    {
        self.stage = Stage::Finished;
        Action::Failed(error)
    }

    fn close(&mut self, reply: Reply) -> (action: Action)
        ensures
            (final(self)@, action@) == old(self)@.close(reply@),
    {
        self.stage = Stage::Finished;
        self.inbox = Vec::new();
        self.wanted = 0;
        Action::Finished(reply)
    }

    fn wait(&mut self, k: usize, phase: Phase) -> (action: Action)
        ensures
            (final(self)@, action@) == old(self)@.wait(k as nat, phase),
    {
        self.wanted = k;
        self.phase = phase;
        Action::Receive(k)
    }

    fn hand(&mut self, streak: u32, action: Action) -> (out: Action)
        ensures
            (final(self)@, out@) == old(self)@.hand(streak as nat, action@),
    {
        self.inbox = Vec::new();
        self.wanted = 0;
        self.streak = streak;
        action
    }

    fn digest(&mut self) -> (action: Action)
        ensures
            (final(self)@, action@) == old(self)@.digest(),
    {
        reveal(Position::digest);
        match self.kind {
            Kind::Host { with_body } => match scan_host_reply(self.inbox.as_slice(), with_body) {
                Scan::More(k, phase) => self.wait(k, phase),
                Scan::Done(body, _) => self.close(Reply::Body(body)),
                Scan::Fail(error, _) => self.halt(error),
            },
            Kind::List => match scan_list_item(self.inbox.as_slice()) {
                Scan::More(k, phase) => self.wait(k, phase),
                Scan::Done(ListItem::End, _) => self.close(Reply::Nothing),
                Scan::Done(ListItem::Entry(entry), _) => self.hand(0, Action::Entry(entry)),
                Scan::Done(ListItem::Unknown(word), _) => {
                    if self.streak >= MAX_UNKNOWN_STREAK {
                        self.halt(AdbError::ProtocolDesyncError(Phase::SyncExchange))
                    } else {
                        let streak: u32 = self.streak + 1;
                        self.hand(streak, Action::Skipped(word))
                    }
                },
                Scan::Fail(error, _) => self.halt(error),
            },
            Kind::Recv => match scan_recv_item(self.inbox.as_slice()) {
                Scan::More(k, phase) => self.wait(k, phase),
                Scan::Done(RecvItem::End, _) => self.close(Reply::Nothing),
                Scan::Done(RecvItem::Data(chunk), _) => {
                    let streak: u32 = self.streak;
                    self.hand(streak, Action::Store(chunk))
                },
                Scan::Fail(error, _) => self.halt(error),
            },
            Kind::Stat => match scan_stat_reply(self.inbox.as_slice()) {
                Scan::More(k, phase) => self.wait(k, phase),
                Scan::Done(stat, _) => self.close(Reply::Stat(stat)),
                Scan::Fail(error, _) => self.halt(error),
            },
            Kind::Send => match scan_sync_status(self.inbox.as_slice()) {
                Scan::More(k, phase) => self.wait(k, phase),
                Scan::Done(_, _) => self.close(Reply::Nothing),
                Scan::Fail(error, _) => self.halt(error),
            },
        }
    }

    /// Takes what came of the last action and gives the next one.
    pub fn step(&mut self, event: Event) -> (action: Action)
        ensures
            (final(self)@, action@) == old(self)@.advance(event@),
    {
        match self.stage {
            Stage::Finished => Action::Failed(AdbError::ProtocolDesyncError(self.phase)),
            Stage::Opening => match event {
                Event::Broken => {
                    let phase = self.phase;
                    self.halt(AdbError::TransportError(phase))
                },
                _ => {
                    let mut request: Vec<u8> = Vec::new();
                    core::mem::swap(&mut self.request, &mut request);
                    let mut fresh = Exchange::opening(self.kind, Vec::new());
                    fresh.stage = match self.kind {
                        Kind::Send => Stage::Uploading,
                        _ => Stage::Reading,
                    };
                    *self = fresh;
                    Action::Send(request)
                },
            },
            Stage::Uploading => match event {
                Event::Done => Action::Pull(CHUNK_SIZE),
                Event::Bytes(chunk) => {
                    if chunk.len() == 0 {
                        self.stage = Stage::Stamping;
                        Action::Stamp
                    } else if chunk.len() > CHUNK_SIZE {
                        self.halt(AdbError::TransportError(Phase::SyncExchange))
                    } else {
                        match encode_data_frame(chunk.as_slice()) {
                            Some(frame) => Action::Send(frame),
                            None => self.halt(AdbError::TransportError(Phase::SyncExchange)),
                        }
                    }
                },
                _ => self.halt(AdbError::TransportError(Phase::SyncExchange)),
            },
            Stage::Stamping => match event {
                Event::Modified(Some(time)) => match encode_done_frame(Some(time)) {
                    Ok(frame) => {
                        self.stage = Stage::Reading;
                        Action::Send(frame)
                    },
                    Err(e) => self.halt(e),
                },
                Event::Modified(None) => self.halt(AdbError::MetadataError),
                _ => self.halt(AdbError::TransportError(Phase::SyncExchange)),
            },
            Stage::Reading => {
                let phase = self.phase;
                match event {
                    Event::Done => {
                        if self.wanted == 0 {
                            self.digest()
                        } else {
                            self.halt(AdbError::TransportError(phase))
                        }
                    },
                    Event::Bytes(bytes) => {
                        if self.wanted > 0 && bytes.len() == self.wanted {
                            append_bytes(&mut self.inbox, bytes.as_slice());
                            self.digest()
                        } else {
                            self.halt(AdbError::TransportError(phase))
                        }
                    },
                    _ => self.halt(AdbError::TransportError(phase)),
                }
            },
        }
    }
}

/// The kind of exchange that carries out a sync command.
pub open spec fn kind_of(command: &SyncCommand) -> Kind {
    match command {
        SyncCommand::List(_) => Kind::List,
        SyncCommand::Send(_, _) => Kind::Send,
        SyncCommand::Recv(_, _) => Kind::Recv,
        SyncCommand::Stat(_) => Kind::Stat,
    }
}

/// The argument of the request for a sync command: the remote path, and for
/// an upload the mode behind it.
pub open spec fn argument_of(command: &SyncCommand, mode: Option<u32>) -> Seq<u8> {
    match command {
        SyncCommand::Send(_, remote) => send_target(remote@, mode),
        _ => encode_utf8(command.remote()),
    }
}

/// Whether `out` is what preparing a sync exchange gives: the exchange that
/// has yet to write the request for `argument`, or a refusal where the
/// argument is too long for the header.
pub open spec fn sync_opening(
    out: Result<Exchange, AdbError>,
    kind: Kind,
    tag: Tag,
    argument: Seq<u8>,
) -> bool {
    match out {
        Ok(exchange) => argument.len() <= u32::MAX && exchange@ == Position::opening(
            kind,
            sync_request(tag, argument),
        ),
        Err(e) => argument.len() > u32::MAX && e@ == Fault::Conversion(Phase::SyncExchange),
    }
}

} // verus!
