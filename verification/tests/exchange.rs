use adb_client::command::{HostCommand, SyncCommand};
use adb_client::entry::{DirectoryEntry, FileStat};
use adb_client::error::{AdbError, Phase};
use adb_client::exchange::{Action, Event, Exchange, Kind, Reply, Stage};
use adb_client::replay::{run, Transcript};
use adb_client::send::CHUNK_SIZE;
use adb_client::session::{sync_plan, Ending, Mode, Session};

fn entry(mode: u32, size: u32, time: u32, name: &str) -> DirectoryEntry {
    DirectoryEntry { file_mode: mode, file_size: size, mod_time: time, name: name.to_string() }
}

fn quiet(sent: &[u8], outcome: Result<Reply, AdbError>, consumed: usize) -> Transcript {
    Transcript {
        sent: sent.to_vec(),
        entries: vec![],
        ignored: 0,
        stored: vec![],
        outcome,
        consumed,
    }
}

#[test]
fn host_request_accepted() {
    let exchange = Exchange::host(&HostCommand::TransportAny, false).unwrap();
    let out = run(exchange, b"OKAY", &[], None);
    assert_eq!(out, quiet(b"0012host:transport-any", Ok(Reply::Body(vec![])), 4));
}

#[test]
fn host_request_accepted_leaves_what_follows() {
    let exchange = Exchange::host(&HostCommand::Sync, false).unwrap();
    let stream = b"OKAYDENT";
    let out = run(exchange, stream, &[], None);
    assert_eq!(out, quiet(b"0005sync:", Ok(Reply::Body(vec![])), 4));
    assert_eq!(&stream[out.consumed..], b"DENT");
}

#[test]
fn host_request_rejected() {
    let exchange = Exchange::host(&HostCommand::TransportSerial("nope".to_string()), false).unwrap();
    let stream = b"FAIL0005error!";
    let out = run(exchange, stream, &[], None);
    assert_eq!(
        out,
        quiet(b"0013host:transport:nope", Err(AdbError::RequestRejected("error".to_string())), 13)
    );
    assert_eq!(stream[out.consumed], b'!');
}

#[test]
fn host_request_with_a_body() {
    let exchange = Exchange::host(&HostCommand::Shell("id".to_string()), true).unwrap();
    let out = run(exchange, b"OKAY0003uid and more", &[], None);
    assert_eq!(out, quiet(b"0008shell:id", Ok(Reply::Body(b"uid".to_vec())), 11));
}

#[test]
fn host_request_on_a_stream_that_ends() {
    let exchange = Exchange::host(&HostCommand::Sync, false).unwrap();
    let out = run(exchange, b"OK", &[], None);
    assert_eq!(out, quiet(b"0005sync:", Err(AdbError::TransportError(Phase::DecodeStatus)), 2));
    let exchange = Exchange::host(&HostCommand::Sync, false).unwrap();
    let out = run(exchange, b"FAIL0010short", &[], None);
    assert_eq!(out, quiet(b"0005sync:", Err(AdbError::TransportError(Phase::DecodeBody)), 13));
}

#[test]
fn host_request_that_cannot_be_framed() {
    let long = HostCommand::Shell("y".repeat(70000));
    assert_eq!(Exchange::host(&long, false), Err(AdbError::ConversionError(Phase::Send)));
}

#[test]
fn two_exchanges_on_one_stream() {
    let stream = b"FAIL0005errorOKAY";
    let first = run(Exchange::host(&HostCommand::TransportAny, false).unwrap(), stream, &[], None);
    assert_eq!(first.outcome, Err(AdbError::RequestRejected("error".to_string())));
    let second = run(Exchange::host(&HostCommand::Sync, false).unwrap(), &stream[first.consumed..], &[], None);
    assert_eq!(second.outcome, Ok(Reply::Body(vec![])));
    assert_eq!(first.consumed + second.consumed, stream.len());
    // Had the first left its body unread, the second would have found it.
    let astray = run(Exchange::host(&HostCommand::Sync, false).unwrap(), &stream[8..], &[], None);
    assert_eq!(astray.outcome, Err(AdbError::ProtocolDesyncError(Phase::DecodeStatus)));
}

#[test]
fn list_exchange() {
    let mut stream = b"DENT\xa4\x81\x00\x00\x0a\x00\x00\x00\x00\x00\x00\x00\x04\x00\x00\x00test".to_vec();
    stream.extend_from_slice(b"XXXX");
    stream.extend_from_slice(b"DONE");
    stream.extend_from_slice(b"tail");
    let out = run(Exchange::list("/data/").unwrap(), &stream, &[], None);
    assert_eq!(out.sent, b"LIST\x06\x00\x00\x00/data/".to_vec());
    assert_eq!(out.entries, vec![entry(0o100644, 10, 0, "test")]);
    assert_eq!(out.ignored, 1);
    assert_eq!(out.stored, Vec::<u8>::new());
    assert_eq!(out.outcome, Ok(Reply::Nothing));
    assert_eq!(out.consumed, 32);
}

#[test]
fn list_exchange_gives_up_on_unknown_words() {
    let stream = b"JUNK".repeat(40);
    let out = run(Exchange::list("/").unwrap(), &stream, &[], None);
    assert_eq!(out.outcome, Err(AdbError::ProtocolDesyncError(Phase::SyncExchange)));
    assert_eq!(out.ignored, 16);
    assert_eq!(out.consumed, 68);
}

#[test]
fn stat_exchange() {
    let out = run(
        Exchange::stat("/system").unwrap(),
        b"STAT\xed\x41\x00\x00\x00\x10\x00\x00\x05\x00\x00\x00DONE",
        &[],
        None,
    );
    let stat = FileStat { file_mode: 0o040755, file_size: 4096, mod_time: 5 };
    assert_eq!(out, quiet(b"STAT\x07\x00\x00\x00/system", Ok(Reply::Stat(stat)), 16));
    let out = run(Exchange::stat("/system").unwrap(), b"DONE", &[], None);
    assert_eq!(out.outcome, Err(AdbError::ProtocolDesyncError(Phase::SyncExchange)));
    assert_eq!(out.consumed, 4);
}

#[test]
fn recv_exchange() {
    let out = run(
        Exchange::recv("/sdcard/f").unwrap(),
        b"DATA\x02\x00\x00\x00hiDATA\x01\x00\x00\x00!DONEOKAY",
        &[],
        None,
    );
    assert_eq!(out.sent, b"RECV\x09\x00\x00\x00/sdcard/f".to_vec());
    assert_eq!(out.stored, b"hi!".to_vec());
    assert_eq!(out.outcome, Ok(Reply::Nothing));
    assert_eq!(out.consumed, 23);
    let out = run(Exchange::recv("/sdcard/f").unwrap(), b"FAIL\x03\x00\x00\x00bad", &[], None);
    assert_eq!(out.outcome, Err(AdbError::RequestRejected("bad".to_string())));
    assert_eq!(out.consumed, 11);
}

#[test]
fn send_exchange_of_130_kib() {
    let mut source = Vec::new();
    for i in 0..(130 * 1024) {
        source.push((i % 199) as u8);
    }
    let out = run(Exchange::send("/sdcard/f", Some(0o644)).unwrap(), b"OKAYnext", &source, Some(77));
    assert_eq!(out.outcome, Ok(Reply::Nothing));
    assert_eq!(out.consumed, 4);
    let mut expected = b"SEND\x0e\x00\x00\x00/sdcard/f,0644".to_vec();
    expected.extend_from_slice(b"DATA\x00\x00\x01\x00");
    expected.extend_from_slice(&source[..65536]);
    expected.extend_from_slice(b"DATA\x00\x00\x01\x00");
    expected.extend_from_slice(&source[65536..131072]);
    expected.extend_from_slice(b"DATA\x00\x08\x00\x00");
    expected.extend_from_slice(&source[131072..]);
    expected.extend_from_slice(b"DONE\x4d\x00\x00\x00");
    assert_eq!(out.sent, expected);
}

#[test]
fn send_exchange_rejected_with_a_binary_length() {
    let out = run(Exchange::send("/f", None).unwrap(), b"FAIL\x09\x00\x00\x00read-only!", b"abc", Some(1));
    assert_eq!(out.sent, b"SEND\x07\x00\x00\x00/f,0777DATA\x03\x00\x00\x00abcDONE\x01\x00\x00\x00".to_vec());
    assert_eq!(out.outcome, Err(AdbError::RequestRejected("read-only".to_string())));
    assert_eq!(out.consumed, 17);
}

#[test]
fn send_exchange_without_a_modification_time() {
    let out = run(Exchange::send("/f", None).unwrap(), b"OKAY", b"abc", None);
    assert_eq!(out.sent, b"SEND\x07\x00\x00\x00/f,0777DATA\x03\x00\x00\x00abc".to_vec());
    assert_eq!(out.outcome, Err(AdbError::MetadataError));
    assert_eq!(out.consumed, 0);
}

#[test]
fn send_exchange_of_an_empty_file() {
    let out = run(Exchange::send("/f", None).unwrap(), b"OKAY", b"", Some(2));
    assert_eq!(out.sent, b"SEND\x07\x00\x00\x00/f,0777DONE\x02\x00\x00\x00".to_vec());
    assert_eq!(out.outcome, Ok(Reply::Nothing));
}

#[test]
fn sync_commands_choose_their_exchange() {
    let list = Exchange::sync(&SyncCommand::List("/d".to_string()), None).unwrap();
    assert_eq!(list.kind, Kind::List);
    assert_eq!(list.request, b"LIST\x02\x00\x00\x00/d".to_vec());
    let send = Exchange::sync(&SyncCommand::Send("a.txt".to_string(), "/r".to_string()), Some(0o600)).unwrap();
    assert_eq!(send.kind, Kind::Send);
    assert_eq!(send.request, b"SEND\x07\x00\x00\x00/r,0600".to_vec());
    let recv = Exchange::sync(&SyncCommand::Recv("/r".to_string(), "a.txt".to_string()), Some(0o600)).unwrap();
    assert_eq!(recv.kind, Kind::Recv);
    assert_eq!(recv.request, b"RECV\x02\x00\x00\x00/r".to_vec());
    let stat = Exchange::sync(&SyncCommand::Stat("/r".to_string()), None).unwrap();
    assert_eq!(stat.kind, Kind::Stat);
    assert_eq!(stat.request, b"STAT\x02\x00\x00\x00/r".to_vec());
    assert_eq!(stat.stage, Stage::Opening);
    assert_eq!(stat.phase, Phase::SyncExchange);
}

#[test]
fn stepping_a_host_exchange_by_hand() {
    let mut exchange = Exchange::host(&HostCommand::Sync, false).unwrap();
    assert_eq!(exchange.phase, Phase::Send);
    assert_eq!(exchange.step(Event::Done), Action::Send(b"0005sync:".to_vec()));
    assert_eq!(exchange.step(Event::Done), Action::Receive(4));
    assert_eq!(exchange.step(Event::Bytes(b"FAIL".to_vec())), Action::Receive(4));
    assert_eq!(exchange.step(Event::Bytes(b"0002".to_vec())), Action::Receive(2));
    assert_eq!(
        exchange.step(Event::Bytes(b"no".to_vec())),
        Action::Failed(AdbError::RequestRejected("no".to_string()))
    );
    assert_eq!(exchange.stage, Stage::Finished);
    assert_eq!(exchange.step(Event::Done), Action::Failed(AdbError::ProtocolDesyncError(Phase::DecodeBody)));
}

#[test]
fn stepping_reports_broken_streams_in_their_phase() {
    let mut exchange = Exchange::host(&HostCommand::Sync, false).unwrap();
    assert_eq!(exchange.step(Event::Broken), Action::Failed(AdbError::TransportError(Phase::Send)));

    let mut exchange = Exchange::host(&HostCommand::Sync, false).unwrap();
    exchange.step(Event::Done);
    assert_eq!(exchange.step(Event::Broken), Action::Failed(AdbError::TransportError(Phase::Send)));

    let mut exchange = Exchange::host(&HostCommand::Sync, false).unwrap();
    exchange.step(Event::Done);
    exchange.step(Event::Done);
    assert_eq!(exchange.step(Event::Broken), Action::Failed(AdbError::TransportError(Phase::DecodeStatus)));

    let mut exchange = Exchange::host(&HostCommand::Sync, false).unwrap();
    exchange.step(Event::Done);
    exchange.step(Event::Done);
    exchange.step(Event::Bytes(b"FAIL".to_vec()));
    assert_eq!(exchange.step(Event::Broken), Action::Failed(AdbError::TransportError(Phase::DecodeBody)));

    let mut exchange = Exchange::list("/").unwrap();
    assert_eq!(exchange.step(Event::Broken), Action::Failed(AdbError::TransportError(Phase::SyncExchange)));
}

#[test]
fn stepping_refuses_reads_of_the_wrong_size() {
    let mut exchange = Exchange::host(&HostCommand::Sync, false).unwrap();
    exchange.step(Event::Done);
    assert_eq!(exchange.step(Event::Done), Action::Receive(4));
    assert_eq!(
        exchange.step(Event::Bytes(b"OK".to_vec())),
        Action::Failed(AdbError::TransportError(Phase::DecodeStatus))
    );

    let mut exchange = Exchange::host(&HostCommand::Sync, false).unwrap();
    exchange.step(Event::Done);
    exchange.step(Event::Done);
    assert_eq!(
        exchange.step(Event::Bytes(b"OKAYOKAY".to_vec())),
        Action::Failed(AdbError::TransportError(Phase::DecodeStatus))
    );

    let mut exchange = Exchange::host(&HostCommand::Sync, false).unwrap();
    exchange.step(Event::Done);
    exchange.step(Event::Done);
    assert_eq!(exchange.step(Event::Done), Action::Failed(AdbError::TransportError(Phase::DecodeStatus)));
}

#[test]
fn stepping_an_upload_by_hand() {
    let mut exchange = Exchange::send("/f", None).unwrap();
    assert_eq!(exchange.step(Event::Done), Action::Send(b"SEND\x07\x00\x00\x00/f,0777".to_vec()));
    assert_eq!(exchange.step(Event::Done), Action::Pull(CHUNK_SIZE));
    assert_eq!(exchange.step(Event::Bytes(b"ab".to_vec())), Action::Send(b"DATA\x02\x00\x00\x00ab".to_vec()));
    assert_eq!(exchange.step(Event::Done), Action::Pull(65536));
    assert_eq!(exchange.step(Event::Bytes(vec![])), Action::Stamp);
    assert_eq!(exchange.step(Event::Modified(Some(3))), Action::Send(b"DONE\x03\x00\x00\x00".to_vec()));
    assert_eq!(exchange.step(Event::Done), Action::Receive(4));
    assert_eq!(exchange.step(Event::Bytes(b"OKAY".to_vec())), Action::Finished(Reply::Nothing));
}

#[test]
fn stepping_an_upload_that_goes_wrong() {
    let mut exchange = Exchange::send("/f", None).unwrap();
    exchange.step(Event::Done);
    exchange.step(Event::Done);
    assert_eq!(
        exchange.step(Event::Bytes(vec![0; 65537])),
        Action::Failed(AdbError::TransportError(Phase::SyncExchange))
    );

    let mut exchange = Exchange::send("/f", None).unwrap();
    exchange.step(Event::Done);
    exchange.step(Event::Done);
    assert_eq!(exchange.step(Event::Broken), Action::Failed(AdbError::TransportError(Phase::SyncExchange)));

    let mut exchange = Exchange::send("/f", None).unwrap();
    exchange.step(Event::Done);
    exchange.step(Event::Done);
    exchange.step(Event::Bytes(vec![]));
    assert_eq!(exchange.step(Event::Modified(None)), Action::Failed(AdbError::MetadataError));

    let mut exchange = Exchange::send("/f", None).unwrap();
    exchange.step(Event::Done);
    exchange.step(Event::Done);
    exchange.step(Event::Bytes(vec![]));
    assert_eq!(exchange.step(Event::Done), Action::Failed(AdbError::TransportError(Phase::SyncExchange)));
}

#[test]
fn stepping_a_listing_by_hand() {
    let mut exchange = Exchange::list("/d").unwrap();
    assert_eq!(exchange.step(Event::Done), Action::Send(b"LIST\x02\x00\x00\x00/d".to_vec()));
    assert_eq!(exchange.step(Event::Done), Action::Receive(4));
    assert_eq!(exchange.step(Event::Bytes(b"DENT".to_vec())), Action::Receive(16));
    assert_eq!(
        exchange.step(Event::Bytes(b"\x01\x00\x00\x00\x02\x00\x00\x00\x03\x00\x00\x00\x01\x00\x00\x00".to_vec())),
        Action::Receive(1)
    );
    assert_eq!(exchange.step(Event::Bytes(b"a".to_vec())), Action::Entry(entry(1, 2, 3, "a")));
    assert_eq!(exchange.step(Event::Done), Action::Receive(4));
    assert_eq!(exchange.step(Event::Bytes(b"what".to_vec())), Action::Skipped(b"what".to_vec()));
    assert_eq!(exchange.streak, 1);
    assert_eq!(exchange.step(Event::Done), Action::Receive(4));
    assert_eq!(exchange.step(Event::Bytes(b"DONE".to_vec())), Action::Finished(Reply::Nothing));
}

#[test]
fn an_exchange_under_way_cannot_be_run_from_the_start() {
    let mut exchange = Exchange::list("/d").unwrap();
    exchange.step(Event::Done);
    let out = run(exchange, b"DONE", &[], None);
    assert_eq!(out, quiet(b"", Err(AdbError::ProtocolDesyncError(Phase::SyncExchange)), 0));
}

#[test]
fn session_follows_the_protocol() {
    let mut session = Session::new();
    assert_eq!(session.current(), Mode::Idle);
    assert!(!session.needs_reconnect());

    let refused = session.open_sync(&SyncCommand::List("/".to_string()), None);
    assert_eq!(refused, Err(AdbError::ProtocolDesyncError(Phase::SyncExchange)));
    assert_eq!(session.current(), Mode::Idle);

    assert!(session.open_host(&HostCommand::TransportAny, false).is_ok());
    assert_eq!(session.current(), Mode::AwaitingReply);
    let refused = session.open_host(&HostCommand::Sync, false);
    assert_eq!(refused, Err(AdbError::ProtocolDesyncError(Phase::Send)));
    session.settle(None);
    assert_eq!(session.current(), Mode::Idle);

    assert!(session.open_host(&HostCommand::Sync, false).is_ok());
    assert_eq!(session.current(), Mode::AwaitingSyncReply);
    session.settle(None);
    assert_eq!(session.current(), Mode::InSync);

    let refused = session.open_host(&HostCommand::TransportAny, false);
    assert_eq!(refused, Err(AdbError::ProtocolDesyncError(Phase::Send)));
    assert_eq!(session.current(), Mode::InSync);

    let exchange = session.open_sync(&SyncCommand::Stat("/x".to_string()), None).unwrap();
    assert_eq!(exchange.kind, Kind::Stat);
    assert_eq!(session.current(), Mode::Exchanging);
    session.settle(Some(&AdbError::RequestRejected("no".to_string())));
    assert_eq!(session.current(), Mode::InSync);

    assert!(session.open_sync(&SyncCommand::List("/".to_string()), None).is_ok());
    session.settle(Some(&AdbError::TransportError(Phase::SyncExchange)));
    assert_eq!(session.current(), Mode::Closed);
    assert!(session.needs_reconnect());
    assert_eq!(
        session.open_host(&HostCommand::Sync, false),
        Err(AdbError::ProtocolDesyncError(Phase::Send))
    );
    session.settle(None);
    assert_eq!(session.current(), Mode::Closed);

    session.reconnected();
    assert_eq!(session.current(), Mode::Idle);
    session.lost();
    assert_eq!(session.current(), Mode::Closed);
}

#[test]
fn session_closes_when_a_host_request_fails() {
    let mut session = Session::new();
    session.open_host(&HostCommand::Sync, false).unwrap();
    session.settle(Some(&AdbError::RequestRejected("device offline".to_string())));
    assert_eq!(session.current(), Mode::Closed);

    let mut session = Session::new();
    session.open_host(&HostCommand::TransportAny, false).unwrap();
    session.settle(Some(&AdbError::ProtocolDesyncError(Phase::DecodeStatus)));
    assert_eq!(session.current(), Mode::Closed);

    let mut session = Session::new();
    let long = HostCommand::Shell("y".repeat(70000));
    assert_eq!(session.open_host(&long, false), Err(AdbError::ConversionError(Phase::Send)));
    assert_eq!(session.current(), Mode::Idle);
}

#[test]
fn endings_are_classified() {
    assert_eq!(Ending::classify(None), Ending::Success);
    assert_eq!(Ending::classify(Some(&AdbError::RequestRejected(String::new()))), Ending::Rejected);
    assert_eq!(Ending::classify(Some(&AdbError::MetadataError)), Ending::Failure);
    assert_eq!(Ending::classify(Some(&AdbError::ConnectionError)), Ending::Failure);
}

#[test]
fn plan_to_enter_sync_mode() {
    assert_eq!(sync_plan(None), vec![HostCommand::TransportAny, HostCommand::Sync]);
    assert_eq!(
        sync_plan(Some("emulator-5554")),
        vec![HostCommand::TransportSerial("emulator-5554".to_string()), HostCommand::Sync]
    );
}
