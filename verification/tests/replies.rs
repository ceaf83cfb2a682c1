use adb_client::entry::{DirectoryEntry, FileStat};
use adb_client::error::{AdbError, Phase};
use adb_client::host::{scan_host_reply, take_host_reply};
use adb_client::list::{encode_listing, scan_list_item, take_listing, ListItem, MAX_UNKNOWN_STREAK};
use adb_client::recv::{scan_recv_item, take_download, RecvItem};
use adb_client::scan::{read_counted, read_rejection, LengthForm, Scan};
use adb_client::send::encode_upload;
use adb_client::stat::{encode_stat_reply, scan_stat_reply, take_stat_reply};
use adb_client::sync::scan_sync_status;

fn dent(mode: u32, size: u32, time: u32, name: &[u8]) -> Vec<u8> {
    let mut bytes = b"DENT".to_vec();
    bytes.extend_from_slice(&mode.to_le_bytes());
    bytes.extend_from_slice(&size.to_le_bytes());
    bytes.extend_from_slice(&time.to_le_bytes());
    bytes.extend_from_slice(&(name.len() as u32).to_le_bytes());
    bytes.extend_from_slice(name);
    bytes
}

fn entry(mode: u32, size: u32, time: u32, name: &str) -> DirectoryEntry {
    DirectoryEntry { file_mode: mode, file_size: size, mod_time: time, name: name.to_string() }
}

#[test]
fn rejected_host_request_gives_the_message_and_takes_thirteen_bytes() {
    let stream = b"FAIL0005error!";
    let (outcome, consumed) = take_host_reply(stream, false);
    assert_eq!(outcome, Err(AdbError::RequestRejected("error".to_string())));
    assert_eq!(consumed, 13);
    assert_eq!(stream[consumed], b'!');
}

#[test]
fn accepted_host_request_takes_four_bytes() {
    assert_eq!(take_host_reply(b"OKAY", false), (Ok(vec![]), 4));
    let stream = b"OKAY0004abcd";
    let (outcome, consumed) = take_host_reply(stream, false);
    assert_eq!(outcome, Ok(vec![]));
    assert_eq!(consumed, 4);
    assert_eq!(&stream[consumed..], b"0004abcd");
}

#[test]
fn accepted_host_request_with_a_body() {
    let (outcome, consumed) = take_host_reply(b"OKAY0004abcdrest", true);
    assert_eq!(outcome, Ok(b"abcd".to_vec()));
    assert_eq!(consumed, 12);
    assert_eq!(take_host_reply(b"OKAY0000", true), (Ok(vec![]), 8));
}

#[test]
fn rejection_with_an_empty_message_is_still_a_rejection() {
    let (outcome, consumed) = take_host_reply(b"FAIL0000", false);
    assert_eq!(outcome, Err(AdbError::RequestRejected(String::new())));
    assert_eq!(consumed, 8);
}

#[test]
fn rejection_is_the_same_whether_or_not_a_body_was_expected() {
    assert_eq!(take_host_reply(b"FAIL0002no", true), take_host_reply(b"FAIL0002no", false));
}

#[test]
fn host_reply_cut_short_is_a_transport_failure() {
    assert_eq!(take_host_reply(b"", false), (Err(AdbError::TransportError(Phase::DecodeStatus)), 0));
    assert_eq!(take_host_reply(b"OK", false), (Err(AdbError::TransportError(Phase::DecodeStatus)), 2));
    assert_eq!(take_host_reply(b"FAIL00", false), (Err(AdbError::TransportError(Phase::DecodeBody)), 6));
    assert_eq!(take_host_reply(b"FAIL0005err", false), (Err(AdbError::TransportError(Phase::DecodeBody)), 11));
    assert_eq!(take_host_reply(b"OKAY0005err", true), (Err(AdbError::TransportError(Phase::DecodeBody)), 11));
}

#[test]
fn host_reply_with_an_unknown_status_is_out_of_step() {
    assert_eq!(
        take_host_reply(b"WHAT0005error", false),
        (Err(AdbError::ProtocolDesyncError(Phase::DecodeStatus)), 4)
    );
}

#[test]
fn host_reply_with_a_malformed_length_is_a_conversion_failure() {
    assert_eq!(
        take_host_reply(b"FAIL00zzerror", false),
        (Err(AdbError::ConversionError(Phase::DecodeBody)), 8)
    );
    assert_eq!(
        take_host_reply(b"OKAY+005error", true),
        (Err(AdbError::ConversionError(Phase::DecodeBody)), 8)
    );
}

#[test]
fn host_rejection_that_is_not_utf8_is_a_conversion_failure() {
    let stream = [b'F', b'A', b'I', b'L', b'0', b'0', b'0', b'2', 0xff, 0xfe, b'!'];
    assert_eq!(take_host_reply(&stream, false), (Err(AdbError::ConversionError(Phase::DecodeBody)), 10));
}

#[test]
fn host_rejection_message_is_decoded_as_utf8() {
    let mut stream = b"FAIL0006".to_vec();
    stream.extend_from_slice("héllo".as_bytes());
    let (outcome, consumed) = take_host_reply(&stream, false);
    assert_eq!(outcome, Err(AdbError::RequestRejected("héllo".to_string())));
    assert_eq!(consumed, 14);
}

#[test]
fn host_reply_asks_for_exactly_what_it_needs() {
    assert_eq!(scan_host_reply(b"", false), Scan::More(4, Phase::DecodeStatus));
    assert_eq!(scan_host_reply(b"F", false), Scan::More(3, Phase::DecodeStatus));
    assert_eq!(scan_host_reply(b"FAIL", false), Scan::More(4, Phase::DecodeBody));
    assert_eq!(scan_host_reply(b"FAIL00", false), Scan::More(2, Phase::DecodeBody));
    assert_eq!(scan_host_reply(b"FAIL0005", false), Scan::More(5, Phase::DecodeBody));
    assert_eq!(scan_host_reply(b"FAIL0005er", false), Scan::More(3, Phase::DecodeBody));
    assert_eq!(
        scan_host_reply(b"FAIL0005error", false),
        Scan::Fail(AdbError::RequestRejected("error".to_string()), 13)
    );
    assert_eq!(scan_host_reply(b"OKAY", false), Scan::Done(vec![], 4));
    assert_eq!(scan_host_reply(b"OKAY", true), Scan::More(4, Phase::DecodeBody));
}

#[test]
fn an_undrained_body_shows_in_the_next_exchange() {
    let stream = b"FAIL0005errorOKAY";
    let (first, consumed) = take_host_reply(stream, false);
    assert_eq!(first, Err(AdbError::RequestRejected("error".to_string())));
    assert_eq!(consumed, 13);
    assert_eq!(take_host_reply(&stream[consumed..], false), (Ok(vec![]), 4));
    // A reader that had stopped behind the length would find the body where
    // the next status belongs.
    assert_eq!(
        take_host_reply(&stream[8..], false),
        (Err(AdbError::ProtocolDesyncError(Phase::DecodeStatus)), 4)
    );
    assert_eq!(
        take_host_reply(&stream[4..], false),
        (Err(AdbError::ProtocolDesyncError(Phase::DecodeStatus)), 4)
    );
}

#[test]
fn an_undrained_name_shows_in_the_next_listing() {
    let mut stream = dent(0o100644, 10, 0, b"test");
    stream.extend_from_slice(b"DONE");
    stream.extend_from_slice(b"DONE");
    let first = take_listing(&stream);
    assert_eq!(first.outcome, Ok(()));
    assert_eq!(first.consumed, 28);
    let second = take_listing(&stream[first.consumed..]);
    assert_eq!(second.outcome, Ok(()));
    assert_eq!(second.entries, vec![]);
    assert_eq!(second.consumed, 4);
    // Behind the fixed part of the record, with the name unread, the stream
    // does not start with a word of a listing.
    assert_eq!(scan_list_item(&stream[20..]), Scan::Done(ListItem::Unknown(b"test".to_vec()), 4));
}

#[test]
fn listing_of_one_entry() {
    let mut stream = dent(0o100644, 10, 0, b"test");
    stream.extend_from_slice(b"DONE");
    let listing = take_listing(&stream);
    assert_eq!(listing.entries, vec![entry(0o100644, 10, 0, "test")]);
    assert_eq!(listing.ignored, 0);
    assert_eq!(listing.outcome, Ok(()));
    assert_eq!(listing.consumed, stream.len());
}

#[test]
fn listing_of_nothing() {
    let listing = take_listing(b"DONEmore");
    assert_eq!(listing.entries, vec![]);
    assert_eq!(listing.outcome, Ok(()));
    assert_eq!(listing.consumed, 4);
}

#[test]
fn listing_keeps_the_order_of_arrival() {
    let entries = vec![
        entry(0o040755, 4096, 1_700_000_000, "bin"),
        entry(0o100644, 0, 1, ""),
        entry(0o100600, u32::MAX, u32::MAX, "ünïcode name.txt"),
        entry(0, 1, 2, "bin"),
    ];
    let stream = encode_listing(&entries).unwrap();
    let listing = take_listing(&stream);
    assert_eq!(listing.entries, entries);
    assert_eq!(listing.ignored, 0);
    assert_eq!(listing.outcome, Ok(()));
    assert_eq!(listing.consumed, stream.len());
}

#[test]
fn listing_is_encoded_as_records_and_done() {
    let entries = vec![entry(0o100644, 10, 0, "test")];
    let mut expected = dent(0o100644, 10, 0, b"test");
    assert_eq!(entries[0].encode().unwrap(), expected);
    expected.extend_from_slice(b"DONE");
    assert_eq!(encode_listing(&entries).unwrap(), expected);
    assert_eq!(encode_listing(&[]).unwrap(), b"DONE".to_vec());
    assert_eq!(
        expected,
        vec![
            b'D', b'E', b'N', b'T', 0xa4, 0x81, 0, 0, 10, 0, 0, 0, 0, 0, 0, 0, 4, 0, 0, 0, b't',
            b'e', b's', b't', b'D', b'O', b'N', b'E'
        ]
    );
}

#[test]
fn listing_cut_short_is_a_transport_failure() {
    let mut stream = dent(0o100644, 10, 0, b"first");
    stream.extend_from_slice(&dent(0o100644, 10, 0, b"second")[..22]);
    let listing = take_listing(&stream);
    assert_eq!(listing.entries, vec![entry(0o100644, 10, 0, "first")]);
    assert_eq!(listing.outcome, Err(AdbError::TransportError(Phase::SyncExchange)));
    assert_eq!(listing.consumed, stream.len());
    let listing = take_listing(b"");
    assert_eq!(listing.outcome, Err(AdbError::TransportError(Phase::SyncExchange)));
    assert_eq!(listing.consumed, 0);
}

#[test]
fn listing_with_a_name_that_is_not_utf8_is_a_conversion_failure() {
    let mut stream = dent(1, 2, 3, b"ok");
    stream.extend_from_slice(&dent(1, 2, 3, &[0xc3, 0x28]));
    stream.extend_from_slice(b"DONE");
    let listing = take_listing(&stream);
    assert_eq!(listing.entries, vec![entry(1, 2, 3, "ok")]);
    assert_eq!(listing.outcome, Err(AdbError::ConversionError(Phase::SyncExchange)));
    assert_eq!(listing.consumed, 22 + 22);
}

#[test]
fn listing_passes_over_unknown_words() {
    let mut stream = b"WHAT".to_vec();
    stream.extend_from_slice(&dent(1, 2, 3, b"a"));
    stream.extend_from_slice(b"OKAY");
    stream.extend_from_slice(&[0xff, 0xfe, 0xfd, 0xfc]);
    stream.extend_from_slice(&dent(4, 5, 6, b"b"));
    stream.extend_from_slice(b"DONE");
    let listing = take_listing(&stream);
    assert_eq!(listing.entries, vec![entry(1, 2, 3, "a"), entry(4, 5, 6, "b")]);
    assert_eq!(listing.ignored, 3);
    assert_eq!(listing.outcome, Ok(()));
    assert_eq!(listing.consumed, stream.len());
}

#[test]
fn listing_gives_up_after_too_many_unknown_words_in_a_row() {
    assert_eq!(MAX_UNKNOWN_STREAK, 16);
    let mut stream = Vec::new();
    for _ in 0..16 {
        stream.extend_from_slice(b"JUNK");
    }
    let mut tolerated = stream.clone();
    tolerated.extend_from_slice(b"DONE");
    let listing = take_listing(&tolerated);
    assert_eq!(listing.outcome, Ok(()));
    assert_eq!(listing.ignored, 16);
    assert_eq!(listing.consumed, 68);

    stream.extend_from_slice(b"JUNK");
    stream.extend_from_slice(b"DONE");
    let listing = take_listing(&stream);
    assert_eq!(listing.outcome, Err(AdbError::ProtocolDesyncError(Phase::SyncExchange)));
    assert_eq!(listing.ignored, 16);
    assert_eq!(listing.consumed, 68);
}

#[test]
fn an_entry_ends_a_streak_of_unknown_words() {
    let mut stream = Vec::new();
    for _ in 0..16 {
        stream.extend_from_slice(b"JUNK");
    }
    stream.extend_from_slice(&dent(1, 2, 3, b"a"));
    for _ in 0..16 {
        stream.extend_from_slice(b"JUNK");
    }
    stream.extend_from_slice(b"DONE");
    let listing = take_listing(&stream);
    assert_eq!(listing.outcome, Ok(()));
    assert_eq!(listing.ignored, 32);
    assert_eq!(listing.entries, vec![entry(1, 2, 3, "a")]);
    assert_eq!(listing.consumed, stream.len());
}

#[test]
fn list_item_asks_for_exactly_what_it_needs() {
    let record = dent(0o100644, 10, 0, b"test");
    assert_eq!(scan_list_item(&record[..0]), Scan::More(4, Phase::SyncExchange));
    assert_eq!(scan_list_item(&record[..4]), Scan::More(16, Phase::SyncExchange));
    assert_eq!(scan_list_item(&record[..19]), Scan::More(1, Phase::SyncExchange));
    assert_eq!(scan_list_item(&record[..20]), Scan::More(4, Phase::SyncExchange));
    assert_eq!(
        scan_list_item(&record),
        Scan::Done(ListItem::Entry(entry(0o100644, 10, 0, "test")), 24)
    );
    assert_eq!(scan_list_item(b"DONE"), Scan::Done(ListItem::End, 4));
    assert_eq!(scan_list_item(b"FAIL"), Scan::Done(ListItem::Unknown(b"FAIL".to_vec()), 4));
}

#[test]
fn counted_block_in_both_forms() {
    assert_eq!(
        read_counted(b"....0003abcd", LengthForm::Hex, Phase::DecodeBody),
        Scan::Done(b"abc".to_vec(), 11)
    );
    assert_eq!(
        read_counted(b"....\x03\x00\x00\x00abcd", LengthForm::Binary, Phase::SyncExchange),
        Scan::Done(b"abc".to_vec(), 11)
    );
    assert_eq!(
        read_counted(b"....\x00\x01\x00\x00abcd", LengthForm::Binary, Phase::SyncExchange),
        Scan::More(252, Phase::SyncExchange)
    );
    assert_eq!(
        read_counted(b"....\xff\xff\xff\xff", LengthForm::Binary, Phase::SyncExchange),
        Scan::More(u32::MAX as usize, Phase::SyncExchange)
    );
    assert_eq!(read_counted(b"....0", LengthForm::Hex, Phase::DecodeBody), Scan::More(3, Phase::DecodeBody));
}

#[test]
fn rejection_message_must_be_text() {
    assert_eq!(
        read_rejection(b"device offline".to_vec(), Phase::DecodeBody),
        AdbError::RequestRejected("device offline".to_string())
    );
    assert_eq!(read_rejection(vec![0x80], Phase::DecodeBody), AdbError::ConversionError(Phase::DecodeBody));
    assert_eq!(read_rejection(vec![0x80], Phase::SyncExchange), AdbError::ConversionError(Phase::SyncExchange));
    assert_eq!(read_rejection(vec![], Phase::SyncExchange), AdbError::RequestRejected(String::new()));
}

#[test]
fn sync_status_uses_a_binary_length() {
    assert_eq!(scan_sync_status(b"OKAY"), Scan::Done((), 4));
    assert_eq!(scan_sync_status(b"OKAYrest"), Scan::Done((), 4));
    assert_eq!(
        scan_sync_status(b"FAIL\x05\x00\x00\x00error"),
        Scan::Fail(AdbError::RequestRejected("error".to_string()), 13)
    );
    // Hexadecimal digits are not a length here: they are read as a word.
    assert_eq!(scan_sync_status(b"FAIL0005error"), Scan::More(892350512 - 5, Phase::SyncExchange));
    assert_eq!(scan_sync_status(b"FAIL\x02\x00"), Scan::More(2, Phase::SyncExchange));
    assert_eq!(scan_sync_status(b"FA"), Scan::More(2, Phase::SyncExchange));
    assert_eq!(scan_sync_status(b"DONE"), Scan::Fail(AdbError::ProtocolDesyncError(Phase::SyncExchange), 4));
    assert_eq!(
        scan_sync_status(b"FAIL\x01\x00\x00\x00\xff"),
        Scan::Fail(AdbError::ConversionError(Phase::SyncExchange), 9)
    );
}

#[test]
fn stat_reply_is_a_word_and_three_numbers() {
    let stream = b"STAT\xa4\x81\x00\x00\x0a\x00\x00\x00\x01\x02\x03\x04tail";
    let expected = FileStat { file_mode: 0o100644, file_size: 10, mod_time: 0x04030201 };
    assert_eq!(take_stat_reply(stream), (Ok(expected), 16));
    assert_eq!(scan_stat_reply(&stream[..4]), Scan::More(12, Phase::SyncExchange));
    assert_eq!(scan_stat_reply(&stream[..15]), Scan::More(1, Phase::SyncExchange));
    assert_eq!(take_stat_reply(&stream[..15]), (Err(AdbError::TransportError(Phase::SyncExchange)), 15));
    assert_eq!(take_stat_reply(b"DENT"), (Err(AdbError::ProtocolDesyncError(Phase::SyncExchange)), 4));
    assert_eq!(take_stat_reply(b"FAIL\x00\x00\x00\x00"), (Err(AdbError::ProtocolDesyncError(Phase::SyncExchange)), 4));
}

#[test]
fn stat_reply_round_trip() {
    let stat = FileStat { file_mode: 0o040755, file_size: 4096, mod_time: 1_700_000_000 };
    let bytes = encode_stat_reply(&stat);
    assert_eq!(bytes.len(), 16);
    assert_eq!(take_stat_reply(&bytes), (Ok(stat), 16));
}

#[test]
fn download_joins_the_chunks() {
    let stream = b"DATA\x03\x00\x00\x00abcDATA\x02\x00\x00\x00deDONEnext";
    let download = take_download(stream);
    assert_eq!(download.data, b"abcde".to_vec());
    assert_eq!(download.outcome, Ok(()));
    assert_eq!(download.consumed, 25);
    assert_eq!(&stream[download.consumed..], b"next");
}

#[test]
fn download_of_an_empty_file() {
    let download = take_download(b"DONE");
    assert_eq!(download.data, Vec::<u8>::new());
    assert_eq!(download.outcome, Ok(()));
    assert_eq!(download.consumed, 4);
    let download = take_download(b"DATA\x00\x00\x00\x00DONE");
    assert_eq!(download.data, Vec::<u8>::new());
    assert_eq!(download.outcome, Ok(()));
    assert_eq!(download.consumed, 12);
}

#[test]
fn download_failures() {
    let download = take_download(b"DATA\x03\x00\x00\x00abcFAIL\x07\x00\x00\x00no filerest");
    assert_eq!(download.data, b"abc".to_vec());
    assert_eq!(download.outcome, Err(AdbError::RequestRejected("no file".to_string())));
    assert_eq!(download.consumed, 26);

    let download = take_download(b"DATA\x03\x00\x00\x00abcDENT");
    assert_eq!(download.data, b"abc".to_vec());
    assert_eq!(download.outcome, Err(AdbError::ProtocolDesyncError(Phase::SyncExchange)));
    assert_eq!(download.consumed, 15);

    let download = take_download(b"DATA\x03\x00\x00\x00ab");
    assert_eq!(download.data, Vec::<u8>::new());
    assert_eq!(download.outcome, Err(AdbError::TransportError(Phase::SyncExchange)));
    assert_eq!(download.consumed, 10);
}

#[test]
fn recv_item_asks_for_exactly_what_it_needs() {
    assert_eq!(scan_recv_item(b""), Scan::More(4, Phase::SyncExchange));
    assert_eq!(scan_recv_item(b"DATA"), Scan::More(4, Phase::SyncExchange));
    assert_eq!(scan_recv_item(b"DATA\x03\x00\x00\x00"), Scan::More(3, Phase::SyncExchange));
    assert_eq!(scan_recv_item(b"DATA\x03\x00\x00\x00abc"), Scan::Done(RecvItem::Data(b"abc".to_vec()), 11));
    assert_eq!(scan_recv_item(b"DONE"), Scan::Done(RecvItem::End, 4));
}

#[test]
fn what_is_uploaded_downloads_as_it_was() {
    let mut source = Vec::new();
    for i in 0..(150 * 1024) {
        source.push((i % 251) as u8);
    }
    let upload = encode_upload(&source, Some(7));
    assert_eq!(upload.outcome, Ok(()));
    // The server answers a download with the same frames, and `DONE` alone.
    let frames = &upload.written[..upload.written.len() - 4];
    let download = take_download(frames);
    assert_eq!(download.outcome, Ok(()));
    assert_eq!(download.data, source);
    assert_eq!(download.consumed, frames.len());
}
