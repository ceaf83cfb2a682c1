use adb_client::error::AdbError;
use adb_client::send::{
    encode_data_frame, encode_done_frame, encode_send_request, encode_send_target, encode_upload,
    CHUNK_SIZE, DEFAULT_MODE,
};

fn pattern(len: usize) -> Vec<u8> {
    let mut source = Vec::with_capacity(len);
    for i in 0..len {
        source.push((i % 253) as u8);
    }
    source
}

// Splits what an upload wrote into the sizes of its DATA chunks and the
// time behind DONE, and checks that the chunks are the source in order.
fn frames(written: &[u8], source: &[u8]) -> (Vec<usize>, Option<u32>) {
    let mut sizes = Vec::new();
    let mut pos = 0;
    let mut done = None;
    let mut seen = 0;
    while pos < written.len() {
        let word = &written[pos..pos + 4];
        let number = u32::from_le_bytes([written[pos + 4], written[pos + 5], written[pos + 6], written[pos + 7]]);
        pos += 8;
        if word == b"DATA" {
            assert!(done.is_none());
            let size = number as usize;
            assert_eq!(&written[pos..pos + size], &source[seen..seen + size]);
            pos += size;
            seen += size;
            sizes.push(size);
        } else {
            assert_eq!(word, b"DONE");
            assert!(done.is_none());
            done = Some(number);
        }
    }
    assert_eq!(pos, written.len());
    assert_eq!(seen, source.len());
    (sizes, done)
}

#[test]
fn upload_of_130_kib_is_three_chunks_and_done() {
    assert_eq!(CHUNK_SIZE, 64 * 1024);
    let source = pattern(130 * 1024);
    let upload = encode_upload(&source, Some(1_700_000_000));
    assert_eq!(upload.outcome, Ok(()));
    let (sizes, done) = frames(&upload.written, &source);
    assert_eq!(sizes, vec![64 * 1024, 64 * 1024, 2 * 1024]);
    assert_eq!(done, Some(1_700_000_000));
    assert_eq!(upload.written.len(), 130 * 1024 + 3 * 8 + 8);
    assert_eq!(&upload.written[upload.written.len() - 8..], b"DONE\x00\xf1\x53\x65");
}

#[test]
fn upload_of_a_multiple_of_the_chunk_size_has_no_empty_chunk() {
    let source = pattern(128 * 1024);
    let upload = encode_upload(&source, Some(5));
    let (sizes, done) = frames(&upload.written, &source);
    assert_eq!(sizes, vec![64 * 1024, 64 * 1024]);
    assert_eq!(done, Some(5));

    let source = pattern(64 * 1024);
    let upload = encode_upload(&source, Some(5));
    let (sizes, _) = frames(&upload.written, &source);
    assert_eq!(sizes, vec![64 * 1024]);
}

#[test]
fn upload_of_nothing_is_done_alone() {
    let upload = encode_upload(&[], Some(9));
    assert_eq!(upload.written, b"DONE\x09\x00\x00\x00".to_vec());
    assert_eq!(upload.outcome, Ok(()));
}

#[test]
fn upload_of_small_and_odd_sizes() {
    for len in [1usize, 2, 65535, 65537, 3 * 65536 + 1] {
        let source = pattern(len);
        let upload = encode_upload(&source, Some(0));
        let (sizes, done) = frames(&upload.written, &source);
        assert_eq!(sizes.len(), (len + 65535) / 65536);
        assert!(sizes.iter().all(|size| 1 <= *size && *size <= 65536));
        assert!(sizes[..sizes.len() - 1].iter().all(|size| *size == 65536));
        assert_eq!(done, Some(0));
    }
}

#[test]
fn upload_without_a_modification_time_is_a_metadata_failure() {
    let source = pattern(10);
    let upload = encode_upload(&source, None);
    assert_eq!(upload.outcome, Err(AdbError::MetadataError));
    let (sizes, done) = frames(&upload.written, &source);
    assert_eq!(sizes, vec![10]);
    assert_eq!(done, None);
}

#[test]
fn data_frame_of_a_chunk() {
    assert_eq!(encode_data_frame(b"abc"), Some(b"DATA\x03\x00\x00\x00abc".to_vec()));
    assert_eq!(encode_data_frame(b""), None);
    let chunk = vec![7u8; 65536];
    let frame = encode_data_frame(&chunk).unwrap();
    assert_eq!(&frame[..8], b"DATA\x00\x00\x01\x00");
    assert_eq!(&frame[8..], &chunk[..]);
}

#[test]
fn done_frame_carries_the_modification_time() {
    assert_eq!(encode_done_frame(Some(0x01020304)), Ok(b"DONE\x04\x03\x02\x01".to_vec()));
    assert_eq!(encode_done_frame(Some(0)), Ok(b"DONE\x00\x00\x00\x00".to_vec()));
    assert_eq!(encode_done_frame(None), Err(AdbError::MetadataError));
}

#[test]
fn send_target_is_path_comma_and_octal_mode() {
    assert_eq!(DEFAULT_MODE, 0o777);
    assert_eq!(encode_send_target("/sdcard/a.txt", None), b"/sdcard/a.txt,0777".to_vec());
    assert_eq!(encode_send_target("/sdcard/a.txt", Some(0o644)), b"/sdcard/a.txt,0644".to_vec());
    assert_eq!(encode_send_target("/sdcard/a.txt", Some(0o100644)), b"/sdcard/a.txt,100644".to_vec());
    assert_eq!(encode_send_target("x", Some(0)), b"x,0000".to_vec());
    assert_eq!(encode_send_target("x", Some(7)), b"x,0007".to_vec());
    assert_eq!(encode_send_target("x", Some(0o7777)), b"x,7777".to_vec());
    assert_eq!(encode_send_target("x", Some(0o10000)), b"x,10000".to_vec());
    assert_eq!(encode_send_target("x", Some(u32::MAX)), b"x,37777777777".to_vec());
    assert_eq!(encode_send_target("", None), b",0777".to_vec());
}

#[test]
fn send_request_counts_the_mode_in_its_length() {
    let request = encode_send_request("/sdcard/a.txt", None).unwrap();
    assert_eq!(request, b"SEND\x12\x00\x00\x00/sdcard/a.txt,0777".to_vec());
    let request = encode_send_request("/data/é", Some(0o600)).unwrap();
    let mut expected = b"SEND\x0d\x00\x00\x00".to_vec();
    expected.extend_from_slice("/data/é,0600".as_bytes());
    assert_eq!(request, expected);
}
