//! A whole exchange, run against bytes held in memory.
//!
//! The server's side of the conversation is a stream of bytes, the file to
//! send is a slice, and the exchange is stepped until it ends. What comes
//! out is what the exchange wrote, what it read, and what it handed on: the
//! same as reading the stream in one piece would give.

use crate::entry::{entries_view, Dent, DirectoryEntry};
use crate::error::{AdbError, Fault};
use crate::exchange::{Action, Answer, Event, Exchange, Kind, Order, Position, Reply, Signal, Stage};
use crate::host::{host_reply, host_reply_carries_on};
use crate::list::{list_item, list_item_carries_on, listing, ListStep, MAX_UNKNOWN_STREAK};
use crate::recv::{download, recv_item, recv_item_carries_on, RecvStep};
use crate::scan::{at_end, Reading};
use crate::send::{chunk, chunk_count, chunk_sizes, data_frame, data_frames, data_frames_from, done_frame, CHUNK_SIZE};
use crate::stat::{stat_reply, stat_reply_carries_on};
use crate::sync::{sync_status, sync_status_carries_on};
use crate::wire::{append_bytes, copy_range};
use vstd::prelude::*;

verus! {

/// What the reading of a reply, or of a part of one, has brought.
#[verifier::ext_equal]
pub ghost struct Account {
    /// The directory entries, in order.
    pub entries: Seq<Dent>,
    /// How many unknown words were passed over.
    pub ignored: nat,
    /// The file contents received.
    pub stored: Seq<u8>,
    /// How the reading ended.
    pub outcome: Result<Answer, Fault>,
    /// How many bytes were read.
    pub consumed: nat,
}

impl Account {
    /// A reading that brought nothing yet and read nothing.
    pub open spec fn nothing() -> Account {
        Account::end(Ok(Answer::Nothing), 0)
    }

    /// A reading that ends at once.
    pub open spec fn end(outcome: Result<Answer, Fault>, consumed: nat) -> Account {
        Account { entries: Seq::empty(), ignored: 0, stored: Seq::empty(), outcome, consumed }
    }

    /// This reading, continued by `next`: what both brought, and the end
    /// that `next` came to.
    pub open spec fn followed_by(self, next: Account) -> Account {
        Account {
            entries: self.entries + next.entries,
            ignored: self.ignored + next.ignored,
            stored: self.stored + next.stored,
            outcome: next.outcome,
            consumed: self.consumed + next.consumed,
        }
    }

    /// What one action of an exchange adds to a reading that has read
    /// `used` bytes for it.
    pub open spec fn of(order: Order, used: nat) -> Account {
        match order {
            Order::Entry(entry) => Account { entries: seq![entry], ..Account::end(Ok(Answer::Nothing), used) },
            Order::Skipped(_) => Account { ignored: 1, ..Account::end(Ok(Answer::Nothing), used) },
            Order::Store(piece) => Account { stored: piece, ..Account::end(Ok(Answer::Nothing), used) },
            Order::Finished(answer) => Account::end(Ok(answer), used),
            Order::Failed(fault) => Account::end(Err(fault), used),
            _ => Account::end(Ok(Answer::Nothing), used),
        }
    }
}

/// What reading the reply of an exchange brings from `stream`, read in one
/// piece from its start. For a listing, `streak` unknown words have just
/// been passed over.
#[verifier::opaque]
pub open spec fn reply_account(kind: Kind, streak: nat, stream: Seq<u8>) -> Account {
    match kind {
        Kind::Host { with_body } => match at_end(host_reply(stream, with_body), stream.len()) {
            (Ok(body), used) => Account::end(Ok(Answer::Body(body)), used),
            (Err(fault), used) => Account::end(Err(fault), used),
        },
        Kind::Stat => match at_end(stat_reply(stream), stream.len()) {
            (Ok(stat), used) => Account::end(Ok(Answer::Stat(stat)), used),
            (Err(fault), used) => Account::end(Err(fault), used),
        },
        Kind::Send => match at_end(sync_status(stream), stream.len()) {
            (Ok(_), used) => Account::end(Ok(Answer::Nothing), used),
            (Err(fault), used) => Account::end(Err(fault), used),
        },
        Kind::List => {
            let all = listing(stream, streak);
            Account {
                entries: all.entries,
                ignored: all.ignored,
                stored: Seq::empty(),
                outcome: match all.fault {
                    None => Ok(Answer::Nothing),
                    Some(fault) => Err(fault),
                },
                consumed: all.consumed,
            }
        },
        Kind::Recv => {
            let all = download(stream);
            Account {
                entries: Seq::empty(),
                ignored: 0,
                stored: all.data,
                outcome: match all.fault {
                    None => Ok(Answer::Nothing),
                    Some(fault) => Err(fault),
                },
                consumed: all.consumed,
            }
        },
    }
}

/// Whether the exchange has asked for bytes and is waiting for them.
pub open spec fn waiting(p: Position) -> bool {
    p.wanted >= 1 && p.digest() == (p, Order::Receive(p.wanted))
}

/// Whether `next` is `p` but for the number of bytes awaited and the phase.
pub open spec fn still(p: Position, next: Position) -> bool {
    next == (Position { wanted: next.wanted, phase: next.phase, ..p })
}

/// Whether the exchange at `p` asks for bytes, and having asked is waiting
/// for just those.
pub open spec fn asks(p: Position) -> bool {
    let (next, order) = p.digest();
    order == Order::Receive(next.wanted) && waiting(next) && still(p, next)
}

/// Whether `next` is `p` with a step handed on: nothing is held, nothing is
/// awaited.
pub open spec fn afresh(p: Position, next: Position) -> bool {
    next == (Position { inbox: Seq::empty(), wanted: 0, streak: next.streak, ..p })
}

/// With nothing in the inbox every exchange asks for bytes.
pub proof fn digest_of_nothing(p: Position)
    requires
        p.inbox.len() == 0,
    ensures
        asks(p),
{
    reveal(Position::digest);
    reveal(reply_account);
}

/// An exchange that asks for bytes goes on asking for the same.
pub proof fn digest_waits(p: Position)
    requires
        p.digest().1 is Receive,
    ensures
        asks(p),
{
    reveal(Position::digest);
    reveal(reply_account);
    let all = p.inbox + Seq::<u8>::empty();
    assert(all =~= p.inbox);
    match p.kind {
        Kind::Host { with_body } => host_reply_carries_on(p.inbox, Seq::empty(), with_body),
        Kind::List => list_item_carries_on(p.inbox, Seq::empty()),
        Kind::Recv => recv_item_carries_on(p.inbox, Seq::empty()),
        Kind::Stat => stat_reply_carries_on(p.inbox, Seq::empty()),
        Kind::Send => sync_status_carries_on(p.inbox, Seq::empty()),
    }
}

/// The stream ends before the bytes that a waiting exchange asked for have
/// come: read in one piece, the reply is a transport failure in the phase
/// that the exchange is in, and all of the stream is taken.
pub proof fn digest_cut_short(p: Position, rest: Seq<u8>)
    requires
        waiting(p),
        rest.len() < p.wanted,
    ensures
        reply_account(p.kind, p.streak, p.inbox + rest) == Account::end(
            Err(Fault::Transport(p.phase)),
            (p.inbox + rest).len(),
        ),
{
    reveal(Position::digest);
    reveal(reply_account);
    match p.kind {
        Kind::Host { with_body } => host_reply_carries_on(p.inbox, rest, with_body),
        Kind::List => list_item_carries_on(p.inbox, rest),
        Kind::Recv => recv_item_carries_on(p.inbox, rest),
        Kind::Stat => stat_reply_carries_on(p.inbox, rest),
        Kind::Send => sync_status_carries_on(p.inbox, rest),
    }
}

/// What holds when a waiting exchange receives `arrived`, the bytes that it
/// asked for, and `rest` is what the stream holds behind them. Either the
/// exchange asks for more, or it decides; and what it decides is what
/// reading in one piece finds at the start of the stream, in exactly the
/// bytes that the exchange has received. The rest of the stream is read
/// from there.
pub open spec fn carried(p: Position, arrived: Seq<u8>, rest: Seq<u8>) -> bool {
    let q = Position { inbox: p.inbox + arrived, ..p };
    let (next, order) = q.digest();
    let used = q.inbox.len();
    let whole = reply_account(p.kind, p.streak, q.inbox + rest);
    match order {
        Order::Receive(k) => asks(q),
        Order::Finished(_) => whole == Account::of(order, used),
        Order::Failed(_) => whole == Account::of(order, used),
        Order::Entry(_) => afresh(p, next) && whole == Account::of(order, used).followed_by(
            reply_account(p.kind, next.streak, rest),
        ),
        Order::Skipped(_) => afresh(p, next) && whole == Account::of(order, used).followed_by(
            reply_account(p.kind, next.streak, rest),
        ),
        Order::Store(_) => afresh(p, next) && whole == Account::of(order, used).followed_by(
            reply_account(p.kind, next.streak, rest),
        ),
        _ => false,
    }
}

proof fn host_carried(p: Position, arrived: Seq<u8>, rest: Seq<u8>)
    requires
        waiting(p),
        arrived.len() == p.wanted,
        p.kind is Host,
    ensures
        carried(p, arrived, rest),
{
    reveal(Position::digest);
    reveal(reply_account);
    let q = Position { inbox: p.inbox + arrived, ..p };
    if q.digest().1 is Receive {
        digest_waits(q);
    }
    host_reply_carries_on(p.inbox, arrived, p.kind->with_body);
    host_reply_carries_on(q.inbox, rest, p.kind->with_body);
}

proof fn stat_carried(p: Position, arrived: Seq<u8>, rest: Seq<u8>)
    requires
        waiting(p),
        arrived.len() == p.wanted,
        p.kind is Stat,
    ensures
        carried(p, arrived, rest),
{
    reveal(Position::digest);
    reveal(reply_account);
    let q = Position { inbox: p.inbox + arrived, ..p };
    if q.digest().1 is Receive {
        digest_waits(q);
    }
    stat_reply_carries_on(p.inbox, arrived);
    stat_reply_carries_on(q.inbox, rest);
}

proof fn send_carried(p: Position, arrived: Seq<u8>, rest: Seq<u8>)
    requires
        waiting(p),
        arrived.len() == p.wanted,
        p.kind is Send,
    ensures
        carried(p, arrived, rest),
{
    reveal(Position::digest);
    reveal(reply_account);
    let q = Position { inbox: p.inbox + arrived, ..p };
    if q.digest().1 is Receive {
        digest_waits(q);
    }
    sync_status_carries_on(p.inbox, arrived);
    sync_status_carries_on(q.inbox, rest);
}

proof fn list_carried(p: Position, arrived: Seq<u8>, rest: Seq<u8>)
    requires
        waiting(p),
        arrived.len() == p.wanted,
        p.kind is List,
    ensures
        carried(p, arrived, rest),
{
    reveal(Position::digest);
    reveal(reply_account);
    let q = Position { inbox: p.inbox + arrived, ..p };
    let whole = q.inbox + rest;
    let used = q.inbox.len();
    if q.digest().1 is Receive {
        digest_waits(q);
    }
    list_item_carries_on(p.inbox, arrived);
    list_item_carries_on(q.inbox, rest);
    assert(whole.skip(used as int) =~= rest);
    let here = reply_account(p.kind, p.streak, whole);
    match list_item(q.inbox) {
        Reading::Done(ListStep::Entry(entry), _) => {
            let there = Account::of(Order::Entry(entry), used).followed_by(
                reply_account(p.kind, 0, rest),
            );
            assert(here.stored =~= there.stored);
        },
        Reading::Done(ListStep::Unknown(word), _) => {
            if p.streak < MAX_UNKNOWN_STREAK {
                let there = Account::of(Order::Skipped(word), used).followed_by(
                    reply_account(p.kind, p.streak + 1, rest),
                );
                assert(here.stored =~= there.stored);
                assert(here.entries =~= there.entries);
            }
        },
        _ => {},
    }
}

proof fn recv_carried(p: Position, arrived: Seq<u8>, rest: Seq<u8>)
    requires
        waiting(p),
        arrived.len() == p.wanted,
        p.kind is Recv,
    ensures
        carried(p, arrived, rest),
{
    reveal(Position::digest);
    reveal(reply_account);
    let q = Position { inbox: p.inbox + arrived, ..p };
    let whole = q.inbox + rest;
    let used = q.inbox.len();
    if q.digest().1 is Receive {
        digest_waits(q);
    }
    recv_item_carries_on(p.inbox, arrived);
    recv_item_carries_on(q.inbox, rest);
    assert(whole.skip(used as int) =~= rest);
    let here = reply_account(p.kind, p.streak, whole);
    match recv_item(q.inbox) {
        Reading::Done(RecvStep::Data(piece), _) => {
            let there = Account::of(Order::Store(piece), used).followed_by(
                reply_account(p.kind, p.streak, rest),
            );
            assert(here.entries =~= there.entries);
        },
        _ => {},
    }
}

/// Stepping an exchange with exactly the bytes that it asks for comes to
/// the same as reading the stream in one piece.
pub proof fn digest_carries_on(p: Position, arrived: Seq<u8>, rest: Seq<u8>)
    requires
        waiting(p),
        arrived.len() == p.wanted,
    ensures
        carried(p, arrived, rest),
{
    match p.kind {
        Kind::Host { .. } => host_carried(p, arrived, rest),
        Kind::Stat => stat_carried(p, arrived, rest),
        Kind::Send => send_carried(p, arrived, rest),
        Kind::List => list_carried(p, arrived, rest),
        Kind::Recv => recv_carried(p, arrived, rest),
    }
}

/// What an exchange did, run to its end against bytes held in memory.
#[derive(Debug, PartialEq, Eq)]
pub struct Transcript {
    /// Everything that was written to the server.
    pub sent: Vec<u8>,
    /// The directory entries that arrived, in order.
    pub entries: Vec<DirectoryEntry>,
    /// How many unknown words were passed over.
    pub ignored: usize,
    /// The file contents that arrived.
    pub stored: Vec<u8>,
    /// How the exchange ended.
    pub outcome: Result<Reply, AdbError>,
    /// How many bytes of the server's stream were read.
    pub consumed: usize,
}

/// Mathematical value of a [`Transcript`].
#[verifier::ext_equal]
pub ghost struct Record {
    pub sent: Seq<u8>,
    pub account: Account,
}

impl View for Transcript {
    type V = Record;

    open spec fn view(&self) -> Record {
        Record {
            sent: self.sent@,
            account: Account {
                entries: entries_view(self.entries@),
                ignored: self.ignored as nat,
                stored: self.stored@,
                outcome: match self.outcome {
                    Ok(reply) => Ok(reply@),
                    Err(error) => Err(error@),
                },
                consumed: self.consumed as nat,
            },
        }
    }
}

/// What an exchange writes: its request, and for an upload the contents in
/// chunks and, where the modification time is known, `DONE` with that time.
pub open spec fn written(
    kind: Kind,
    request: Seq<u8>,
    source: Seq<u8>,
    modified: Option<u32>,
) -> Seq<u8> {
    match kind {
        Kind::Send => request + data_frames(source) + match modified {
            Some(time) => done_frame(time),
            None => Seq::empty(),
        },
        _ => request,
    }
}

/// What running an exchange from position `p` comes to.
///
/// An exchange that has yet to write its request writes what it has to
/// write and then reads its reply from `stream`, as `reply_account` tells.
/// An upload for which no modification time is known fails instead of
/// writing `DONE`, and reads nothing. An exchange that is already under way
/// cannot be run from the start: that attempt is out of step, and nothing
/// is written or read.
pub open spec fn transcript(
    p: Position,
    stream: Seq<u8>,
    source: Seq<u8>,
    modified: Option<u32>,
) -> Record {
    if p.stage != Stage::Opening {
        Record { sent: Seq::empty(), account: Account::end(Err(Fault::Desync(p.phase)), 0) }
    } else if p.kind is Send && modified is None {
        Record {
            sent: written(p.kind, p.request, source, modified),
            account: Account::end(Err(Fault::Metadata), 0),
        }
    } else {
        Record {
            sent: written(p.kind, p.request, source, modified),
            account: reply_account(p.kind, 0, stream),
        }
    }
}

/// How much is left to do, within a stage, before the next event is taken.
spec fn effort(signal: Signal, unread: nat) -> nat {
    2 * unread + match signal {
        Signal::Broken => 0nat,
        Signal::Modified(_) => 0nat,
        Signal::Done => 2nat,
        Signal::Bytes(bytes) => if bytes.len() == 0 {
            1nat
        } else {
            3nat
        },
    }
}

/// How many stages lie ahead.
spec fn stages_ahead(stage: Stage) -> nat {
    match stage {
        Stage::Opening => 4,
        Stage::Uploading => 3,
        Stage::Stamping => 2,
        Stage::Reading => 1,
        Stage::Finished => 0,
    }
}

/// The end of `bound`, or `all` where that is less.
spec fn up_to(bound: int, all: nat) -> int {
    if bound < all {
        bound
    } else {
        all as int
    }
}

/// Whether a run is where it should be, just before `x` takes `signal`.
#[verifier::opaque]
spec fn on_track(
    x: Position,
    signal: Signal,
    p: Position,
    stream: Seq<u8>,
    source: Seq<u8>,
    modified: Option<u32>,
    sent: Seq<u8>,
    acc: Account,
    pos: nat,
    pulled: nat,
    start: nat,
    count: nat,
) -> bool {
    &&& x.kind == p.kind
    &&& start <= pos <= stream.len()
    &&& pulled <= source.len()
    &&& acc.consumed == start
    &&& acc.ignored <= start
    &&& match x.stage {
        Stage::Opening => {
            &&& signal == Signal::Done
            &&& x.request == p.request
            &&& sent == Seq::<u8>::empty()
            &&& pos == 0
            &&& pulled == 0
            &&& count == 0
            &&& acc == Account::nothing()
        },
        Stage::Uploading => {
            &&& x.kind is Send
            &&& x.streak == 0 && x.wanted == 0 && x.inbox.len() == 0
            &&& pos == 0
            &&& acc == Account::nothing()
            &&& count <= chunk_count(source.len())
            &&& sent + data_frames_from(source, count) == p.request + data_frames(source)
            &&& match signal {
                Signal::Done => pulled == up_to(count * CHUNK_SIZE, source.len()),
                Signal::Bytes(piece) => if piece.len() == 0 {
                    pulled == source.len() && count == chunk_count(source.len())
                } else {
                    &&& count < chunk_count(source.len())
                    &&& piece == chunk(source, count as int)
                    &&& pulled == up_to((count + 1) * CHUNK_SIZE, source.len())
                },
                _ => false,
            }
        },
        Stage::Stamping => {
            &&& x.kind is Send
            &&& x.streak == 0 && x.wanted == 0 && x.inbox.len() == 0
            &&& pos == 0
            &&& acc == Account::nothing()
            &&& pulled == source.len()
            &&& signal == Signal::Modified(modified)
            &&& sent == p.request + data_frames(source)
        },
        Stage::Reading => {
            &&& sent == written(p.kind, p.request, source, modified)
            &&& x.kind is Send ==> modified is Some && pulled == source.len()
            &&& reply_account(p.kind, 0, stream) == acc.followed_by(
                reply_account(p.kind, x.streak, stream.skip(start as int)),
            )
            &&& match signal {
                Signal::Done => x.wanted == 0 && x.inbox.len() == 0 && pos == start,
                Signal::Bytes(bytes) => {
                    &&& waiting(x)
                    &&& bytes.len() == x.wanted
                    &&& x.inbox + bytes == stream.subrange(start as int, pos as int)
                },
                Signal::Broken => {
                    &&& waiting(x)
                    &&& pos == stream.len()
                    &&& start + x.inbox.len() <= stream.len()
                    &&& stream.len() - start - x.inbox.len() < x.wanted
                    &&& x.inbox == stream.subrange(start as int, (start + x.inbox.len()) as int)
                },
                _ => false,
            }
        },
        Stage::Finished => false,
    }
}

/// Whether the measure of what is left to do has gone down.
spec fn lower(
    stage: Stage,
    signal: Signal,
    unread: int,
    next_stage: Stage,
    next_signal: Signal,
    next_unread: int,
) -> bool {
    &&& unread >= 0
    &&& next_unread >= 0
    &&& stages_ahead(next_stage) < stages_ahead(stage) || (stages_ahead(next_stage)
        == stages_ahead(stage) && effort(next_signal, next_unread as nat) < effort(
        signal,
        unread as nat,
    ))
}

/// What holds of the step that `x` takes on `signal`, for a run that is on
/// track: the run stays on track once the action is carried out against
/// the stream and the file, with less left to do; and where the action is
/// the last one, the run has come to what `transcript` tells.
spec fn step_tracks(
    x: Position,
    signal: Signal,
    p: Position,
    stream: Seq<u8>,
    source: Seq<u8>,
    modified: Option<u32>,
    sent: Seq<u8>,
    acc: Account,
    pos: nat,
    pulled: nat,
    start: nat,
    count: nat,
) -> bool {
    let (next, order) = x.advance(signal);
    let unread = (source.len() - pulled) + (stream.len() - pos);
    let used = (pos - start) as nat;
    match order {
        Order::Send(bytes) => {
            let sent_count = if x.stage == Stage::Uploading {
                count + 1
            } else {
                count
            };
            &&& on_track(
                next,
                Signal::Done,
                p,
                stream,
                source,
                modified,
                sent + bytes,
                acc,
                pos,
                pulled,
                start,
                sent_count,
            )
            &&& lower(x.stage, signal, unread, next.stage, Signal::Done, unread)
        },
        Order::Receive(k) => {
            &&& k >= 1
            &&& if pos + k <= stream.len() {
                let bytes = stream.subrange(pos as int, (pos + k) as int);
                &&& on_track(
                    next,
                    Signal::Bytes(bytes),
                    p,
                    stream,
                    source,
                    modified,
                    sent,
                    acc,
                    pos + k,
                    pulled,
                    start,
                    count,
                )
                &&& lower(x.stage, signal, unread, next.stage, Signal::Bytes(bytes), unread - k)
            } else {
                &&& on_track(
                    next,
                    Signal::Broken,
                    p,
                    stream,
                    source,
                    modified,
                    sent,
                    acc,
                    stream.len(),
                    pulled,
                    start,
                    count,
                )
                &&& lower(
                    x.stage,
                    signal,
                    unread,
                    next.stage,
                    Signal::Broken,
                    source.len() - pulled,
                )
            }
        },
        Order::Pull(n) => {
            let size = up_to(n as int, (source.len() - pulled) as nat);
            let piece = source.subrange(pulled as int, pulled + size);
            &&& on_track(
                next,
                Signal::Bytes(piece),
                p,
                stream,
                source,
                modified,
                sent,
                acc,
                pos,
                (pulled + size) as nat,
                start,
                count,
            )
            &&& lower(x.stage, signal, unread, next.stage, Signal::Bytes(piece), unread - size)
        },
        Order::Stamp => {
            &&& on_track(
                next,
                Signal::Modified(modified),
                p,
                stream,
                source,
                modified,
                sent,
                acc,
                pos,
                pulled,
                start,
                count,
            )
            &&& lower(x.stage, signal, unread, next.stage, Signal::Modified(modified), unread)
        },
        Order::Finished(_) => transcript(p, stream, source, modified) == (Record {
            sent,
            account: acc.followed_by(Account::of(order, used)),
        }),
        Order::Failed(_) => transcript(p, stream, source, modified) == (Record {
            sent,
            account: acc.followed_by(Account::of(order, used)),
        }),
        _ => {
            &&& used >= 1
            &&& on_track(
                next,
                Signal::Done,
                p,
                stream,
                source,
                modified,
                sent,
                acc.followed_by(Account::of(order, used)),
                pos,
                pulled,
                pos,
                count,
            )
            &&& lower(x.stage, signal, unread, next.stage, Signal::Done, unread)
        },
    }
}

proof fn opening_step_tracks(
    x: Position,
    signal: Signal,
    p: Position,
    stream: Seq<u8>,
    source: Seq<u8>,
    modified: Option<u32>,
    sent: Seq<u8>,
    acc: Account,
    pos: nat,
    pulled: nat,
    start: nat,
    count: nat,
)
    requires
        on_track(x, signal, p, stream, source, modified, sent, acc, pos, pulled, start, count),
        p.stage == Stage::Opening,
        x.stage == Stage::Opening,
    ensures
        step_tracks(x, signal, p, stream, source, modified, sent, acc, pos, pulled, start, count),
{
    reveal(on_track);
    let (next, order) = x.advance(signal);
    assert(sent + p.request =~= p.request);
    if p.kind is Send {
        assert(p.request + data_frames_from(source, 0) =~= p.request + data_frames(source));
    } else {
        assert(stream.skip(0) =~= stream);
        let whole = reply_account(p.kind, 0, stream);
        assert(acc.followed_by(whole) =~= whole);
    }
}

proof fn uploading_step_tracks(
    x: Position,
    signal: Signal,
    p: Position,
    stream: Seq<u8>,
    source: Seq<u8>,
    modified: Option<u32>,
    sent: Seq<u8>,
    acc: Account,
    pos: nat,
    pulled: nat,
    start: nat,
    count: nat,
)
    requires
        on_track(x, signal, p, stream, source, modified, sent, acc, pos, pulled, start, count),
        p.stage == Stage::Opening,
        x.stage == Stage::Uploading,
    ensures
        step_tracks(x, signal, p, stream, source, modified, sent, acc, pos, pulled, start, count),
{
    reveal(on_track);
    if count < chunk_count(source.len()) {
        chunk_sizes(source, count as int);
    }
    match signal {
        Signal::Done => {
            let size = up_to(CHUNK_SIZE as int, (source.len() - pulled) as nat);
            let piece = source.subrange(pulled as int, pulled + size);
            if count < chunk_count(source.len()) {
                assert(piece =~= chunk(source, count as int));
            }
        },
        Signal::Bytes(piece) => {
            if piece.len() == 0 {
                assert(data_frames_from(source, count) =~= Seq::<u8>::empty());
                assert(sent =~= p.request + data_frames(source));
            } else {
                assert((sent + data_frame(piece)) + data_frames_from(source, count + 1) =~= sent
                    + data_frames_from(source, count));
            }
        },
        _ => {},
    }
}

proof fn stamping_step_tracks(
    x: Position,
    signal: Signal,
    p: Position,
    stream: Seq<u8>,
    source: Seq<u8>,
    modified: Option<u32>,
    sent: Seq<u8>,
    acc: Account,
    pos: nat,
    pulled: nat,
    start: nat,
    count: nat,
)
    requires
        on_track(x, signal, p, stream, source, modified, sent, acc, pos, pulled, start, count),
        p.stage == Stage::Opening,
        x.stage == Stage::Stamping,
    ensures
        step_tracks(x, signal, p, stream, source, modified, sent, acc, pos, pulled, start, count),
{
    reveal(on_track);
    match modified {
        Some(time) => {
            assert(sent + done_frame(time) =~= written(p.kind, p.request, source, modified));
            assert(stream.skip(0) =~= stream);
            let whole = reply_account(p.kind, 0, stream);
            assert(acc.followed_by(whole) =~= whole);
        },
        None => {
            assert(sent =~= written(p.kind, p.request, source, modified));
            let unit = Account::of(Order::Failed(Fault::Metadata), 0);
            assert(acc.followed_by(unit) =~= Account::end(Err(Fault::Metadata), 0));
        },
    }
}

proof fn reading_start_tracks(
    x: Position,
    signal: Signal,
    p: Position,
    stream: Seq<u8>,
    source: Seq<u8>,
    modified: Option<u32>,
    sent: Seq<u8>,
    acc: Account,
    pos: nat,
    pulled: nat,
    start: nat,
    count: nat,
)
    requires
        on_track(x, signal, p, stream, source, modified, sent, acc, pos, pulled, start, count),
        p.stage == Stage::Opening,
        x.stage == Stage::Reading,
        signal is Done,
    ensures
        step_tracks(x, signal, p, stream, source, modified, sent, acc, pos, pulled, start, count),
{
    reveal(on_track);
    let (next, order) = x.advance(signal);
    digest_of_nothing(x);
    let k = next.wanted;
    if pos + k <= stream.len() {
        assert(next.inbox + stream.subrange(pos as int, (pos + k) as int) =~= stream.subrange(
            start as int,
            (pos + k) as int,
        ));
    } else {
        assert(next.inbox =~= stream.subrange(start as int, (start + next.inbox.len()) as int));
    }
}

proof fn reading_bytes_tracks(
    x: Position,
    signal: Signal,
    p: Position,
    stream: Seq<u8>,
    source: Seq<u8>,
    modified: Option<u32>,
    sent: Seq<u8>,
    acc: Account,
    pos: nat,
    pulled: nat,
    start: nat,
    count: nat,
)
    requires
        on_track(x, signal, p, stream, source, modified, sent, acc, pos, pulled, start, count),
        p.stage == Stage::Opening,
        x.stage == Stage::Reading,
        signal is Bytes,
    ensures
        step_tracks(x, signal, p, stream, source, modified, sent, acc, pos, pulled, start, count),
{
    reveal(on_track);
    let (next, order) = x.advance(signal);
    let bytes = signal->Bytes_0;
    let rest = stream.skip(pos as int);
    let used = (pos - start) as nat;
    digest_carries_on(x, bytes, rest);
    let q = Position { inbox: x.inbox + bytes, ..x };
    assert(q.digest() == (next, order));
    assert(carried(x, bytes, rest));
    assert(q.inbox + rest =~= stream.skip(start as int));
    match order {
        Order::Receive(k) => {
            if pos + k <= stream.len() {
                assert(next.inbox + stream.subrange(pos as int, (pos + k) as int)
                    =~= stream.subrange(start as int, (pos + k) as int));
            } else {
                assert(next.inbox =~= stream.subrange(
                    start as int,
                    (start + next.inbox.len()) as int,
                ));
            }
        },
        Order::Finished(_) => {},
        Order::Failed(_) => {},
        _ => {
            let unit = Account::of(order, used);
            let tail = reply_account(p.kind, next.streak, rest);
            assert(acc.followed_by(unit).followed_by(tail) =~= acc.followed_by(
                unit.followed_by(tail),
            ));
        },
    }
}

proof fn reading_broken_tracks(
    x: Position,
    signal: Signal,
    p: Position,
    stream: Seq<u8>,
    source: Seq<u8>,
    modified: Option<u32>,
    sent: Seq<u8>,
    acc: Account,
    pos: nat,
    pulled: nat,
    start: nat,
    count: nat,
)
    requires
        on_track(x, signal, p, stream, source, modified, sent, acc, pos, pulled, start, count),
        p.stage == Stage::Opening,
        x.stage == Stage::Reading,
        signal is Broken,
    ensures
        step_tracks(x, signal, p, stream, source, modified, sent, acc, pos, pulled, start, count),
{
    reveal(on_track);
    let (next, order) = x.advance(signal);
    let tail = stream.skip((start + x.inbox.len()) as int);
    digest_cut_short(x, tail);
    assert(x.inbox + tail =~= stream.skip(start as int));
}

proof fn reading_step_tracks(
    x: Position,
    signal: Signal,
    p: Position,
    stream: Seq<u8>,
    source: Seq<u8>,
    modified: Option<u32>,
    sent: Seq<u8>,
    acc: Account,
    pos: nat,
    pulled: nat,
    start: nat,
    count: nat,
)
    requires
        on_track(x, signal, p, stream, source, modified, sent, acc, pos, pulled, start, count),
        p.stage == Stage::Opening,
        x.stage == Stage::Reading,
    ensures
        step_tracks(x, signal, p, stream, source, modified, sent, acc, pos, pulled, start, count),
{
    reveal(on_track);
    let (next, order) = x.advance(signal);
    match signal {
        Signal::Done => reading_start_tracks(
            x,
            signal,
            p,
            stream,
            source,
            modified,
            sent,
            acc,
            pos,
            pulled,
            start,
            count,
        ),
        Signal::Bytes(_) => reading_bytes_tracks(
            x,
            signal,
            p,
            stream,
            source,
            modified,
            sent,
            acc,
            pos,
            pulled,
            start,
            count,
        ),
        Signal::Broken => reading_broken_tracks(
            x,
            signal,
            p,
            stream,
            source,
            modified,
            sent,
            acc,
            pos,
            pulled,
            start,
            count,
        ),
        _ => {},
    }
}

/// A run that is on track stays on track, step after step, with less and
/// less left to do, until it has come to what `transcript` tells.
proof fn run_stays_on_track(
    x: Position,
    signal: Signal,
    p: Position,
    stream: Seq<u8>,
    source: Seq<u8>,
    modified: Option<u32>,
    sent: Seq<u8>,
    acc: Account,
    pos: nat,
    pulled: nat,
    start: nat,
    count: nat,
)
    requires
        on_track(x, signal, p, stream, source, modified, sent, acc, pos, pulled, start, count),
        p.stage == Stage::Opening,
    ensures
        step_tracks(x, signal, p, stream, source, modified, sent, acc, pos, pulled, start, count),
        start <= pos <= stream.len(),
        pulled <= source.len(),
        acc.consumed == start,
        acc.ignored <= start,
{
    match x.stage {
        Stage::Opening => opening_step_tracks(
            x,
            signal,
            p,
            stream,
            source,
            modified,
            sent,
            acc,
            pos,
            pulled,
            start,
            count,
        ),
        Stage::Uploading => uploading_step_tracks(
            x,
            signal,
            p,
            stream,
            source,
            modified,
            sent,
            acc,
            pos,
            pulled,
            start,
            count,
        ),
        Stage::Stamping => stamping_step_tracks(
            x,
            signal,
            p,
            stream,
            source,
            modified,
            sent,
            acc,
            pos,
            pulled,
            start,
            count,
        ),
        Stage::Reading => reading_step_tracks(
            x,
            signal,
            p,
            stream,
            source,
            modified,
            sent,
            acc,
            pos,
            pulled,
            start,
            count,
        ),
        Stage::Finished => {},
    }
    reveal(on_track);
}

/// Runs an exchange to its end. The server's side is `stream`; the file to
/// send, for an upload, is `source`, last modified at `modified`.
pub fn run(exchange: Exchange, stream: &[u8], source: &[u8], modified: Option<u32>) -> (out:
    Transcript)
    ensures
        out@ == transcript(exchange@, stream@, source@, modified),
{
    let ghost p = exchange@;
    let mut x = exchange;
    let mut sent: Vec<u8> = Vec::new();
    let mut entries: Vec<DirectoryEntry> = Vec::new();
    let mut ignored: usize = 0;
    let mut stored: Vec<u8> = Vec::new();
    let mut pos: usize = 0;
    let mut pulled: usize = 0;
    proof {
        assert(entries_view(entries@) =~= Seq::<Dent>::empty());
    }
    match x.stage {
        Stage::Opening => {},
        _ => {
            return Transcript {
                sent,
                entries,
                ignored,
                stored,
                outcome: Err(AdbError::ProtocolDesyncError(x.phase)),
                consumed: 0,
            };
        },
    }
    let mut event = Event::Done;
    let ghost mut acc = Account::nothing();
    let ghost mut start: nat = 0;
    let ghost mut count: nat = 0;
    proof {
        reveal(on_track);
    }
    loop
        invariant
            on_track(
                x@,
                event@,
                p,
                stream@,
                source@,
                modified,
                sent@,
                acc,
                pos as nat,
                pulled as nat,
                start,
                count,
            ),
            p == exchange@,
            p.stage == Stage::Opening,
            acc.entries == entries_view(entries@),
            acc.ignored == ignored,
            acc.stored == stored@,
        decreases
                stages_ahead(x@.stage),
                effort(event@, ((source@.len() - pulled) + (stream@.len() - pos)) as nat),
    {
        let ghost before = x@;
        let ghost signal = event@;
        let ghost used = (pos - start) as nat;
        proof {
            run_stays_on_track(
                before,
                signal,
                p,
                stream@,
                source@,
                modified,
                sent@,
                acc,
                pos as nat,
                pulled as nat,
                start,
                count,
            );
        }
        match x.step(event) {
            Action::Send(bytes) => {
                append_bytes(&mut sent, bytes.as_slice());
                event = Event::Done;
                proof {
                    if before.stage == Stage::Uploading {
                        count = count + 1;
                    }
                }
            },
            Action::Receive(k) => {
                if k <= stream.len() - pos {
                    let bytes = copy_range(stream, pos, pos + k);
                    pos = pos + k;
                    event = Event::Bytes(bytes);
                } else {
                    pos = stream.len();
                    event = Event::Broken;
                }
            },
            Action::Pull(n) => {
                let left: usize = source.len() - pulled;
                let size: usize = if n < left {
                    n
                } else {
                    left
                };
                let piece = copy_range(source, pulled, pulled + size);
                pulled = pulled + size;
                event = Event::Bytes(piece);
            },
            Action::Stamp => {
                event = Event::Modified(modified);
            },
            Action::Entry(entry) => {
                proof {
                    acc = acc.followed_by(Account::of(Order::Entry(entry@), used));
                    start = pos as nat;
                    assert(acc.entries =~= entries_view(entries@.push(entry)));
                    assert(acc.stored =~= stored@);
                }
                entries.push(entry);
                event = Event::Done;
            },
            Action::Skipped(word) => {
                proof {
                    acc = acc.followed_by(Account::of(Order::Skipped(word@), used));
                    start = pos as nat;
                    assert(acc.entries =~= entries_view(entries@));
                    assert(acc.stored =~= stored@);
                }
                ignored = ignored + 1;
                event = Event::Done;
            },
            Action::Store(piece) => {
                proof {
                    acc = acc.followed_by(Account::of(Order::Store(piece@), used));
                    start = pos as nat;
                    assert(acc.entries =~= entries_view(entries@));
                }
                append_bytes(&mut stored, piece.as_slice());
                event = Event::Done;
            },
            Action::Finished(reply) => {
                let out = Transcript {
                    sent,
                    entries,
                    ignored,
                    stored,
                    outcome: Ok(reply),
                    consumed: pos,
                };
                proof {
                    let unit = Account::of(Order::Finished(reply@), used);
                    assert(out@.account =~= acc.followed_by(unit));
                }
                return out;
            },
            Action::Failed(error) => {
                let out = Transcript {
                    sent,
                    entries,
                    ignored,
                    stored,
                    outcome: Err(error),
                    consumed: pos,
                };
                proof {
                    let unit = Account::of(Order::Failed(error@), used);
                    assert(out@.account =~= acc.followed_by(unit));
                }
                return out;
            },
        }
    }
}

} // verus!
