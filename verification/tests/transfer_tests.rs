//! End-to-end transfer scenarios driven through the managers and sessions,
//! with the chunk bytes held in memory.

use swarmdrop::errors::AppError;
use swarmdrop::protocol::{AppRequest, FileInfo, TransferRequest, TransferResponse};
use swarmdrop::receiver::{retry_delay_ms, ReceiveSession, MAX_CHUNK_RETRIES};
use swarmdrop::sender::SendSession;
use swarmdrop::sink::PartBuffer;
use swarmdrop::source::{EnumeratedFile, FileSource, CHUNK_SIZE};
use swarmdrop::transfer_manager::TransferManager;

fn entry(name: &str, relative_path: &str, size: u64) -> EnumeratedFile {
    EnumeratedFile {
        name: String::from(name),
        relative_path: String::from(relative_path),
        source: FileSource::Path { path: format!("/data/{relative_path}") },
        size,
    }
}

fn hex_of(bytes: &[u8]) -> String {
    blake3::hash(bytes).to_hex().to_string()
}

/// Run one prepared file through offer, accept, pull, decrypt, finalize.
/// Returns the receiver's finalized bytes and how many progress events the
/// receiver emitted.
fn pump_single_file(content: &[u8], name: &str) -> (Vec<u8>, SendSession, ReceiveSession, usize) {
    let mut sender_mgr = TransferManager::new();
    let entries = vec![entry(name, name, content.len() as u64)];
    let checksums = vec![hex_of(content)];
    let prepared = sender_mgr.prepare(entries, checksums).unwrap();
    assert_eq!(prepared.files.len(), 1);
    assert_eq!(prepared.files[0].file_id, 0);
    assert_eq!(prepared.total_size, content.len() as u64);

    let offer = sender_mgr
        .begin_send_offer(prepared.prepared_id, String::from("12D3KooWPeerB"), &vec![0])
        .unwrap();
    let session_id = offer.session_id;
    let (files, total_size) = match &offer.request {
        AppRequest::Transfer(TransferRequest::Offer { files, total_size, .. }) => {
            (files.clone(), *total_size)
        },
        _ => panic!("expected an offer frame"),
    };

    let mut recv_mgr = TransferManager::new();
    recv_mgr
        .cache_inbound_offer(77, String::from("12D3KooWPeerA"), session_id, files, total_size)
        .unwrap();
    let (pending_id, offer_result) = recv_mgr
        .accept_and_start_receive(session_id, String::from("/tmp/save"), 0)
        .unwrap();
    assert_eq!(pending_id, 77);
    let key = match offer_result {
        TransferResponse::OfferResult { accepted: true, key: Some(k), reason: None } => k,
        other => panic!("expected an accepting offer result, got {other:?}"),
    };

    let start = sender_mgr.complete_send_offer(offer, true, Some(key), None, 0);
    assert!(start.accepted);
    assert_eq!(start.session_id, session_id);

    let mut send_sess = sender_mgr.take_send_session(session_id).unwrap();
    let mut recv_sess = recv_mgr.take_receive_session(session_id).unwrap();

    assert_eq!(recv_sess.file_count(), 1);
    let mut progress_events: usize = 0;
    let (_part, mut buf, ev) = recv_sess.start_file(0, 0).unwrap();
    if ev.is_some() {
        progress_events += 1;
    }
    let chunks = recv_sess.chunk_count(0);
    let mut now: u64 = 0;
    for c in 0..chunks {
        let req = recv_sess.chunk_request(0, c);
        let (file_id, chunk_index) = match req {
            AppRequest::Transfer(TransferRequest::ChunkRequest {
                file_id, chunk_index, ..
            }) => (file_id, chunk_index),
            _ => panic!("expected a chunk request"),
        };
        let plan = send_sess.plan_chunk(file_id, chunk_index).unwrap();
        let lo = plan.offset as usize;
        let hi = lo + plan.len as usize;
        let plaintext = &content[lo..hi];
        now += 1000;
        let (resp, _ev) = send_sess.finish_chunk(file_id, chunk_index, plaintext, now).unwrap();
        let (data, is_last) = match resp {
            TransferResponse::Chunk { data, is_last, .. } => (data, is_last),
            _ => panic!("expected a chunk response"),
        };
        assert_eq!(is_last, c + 1 == chunks);
        let (len, ev) = recv_sess.handle_chunk_data(0, c, &data, &mut buf, now).unwrap();
        if ev.is_some() {
            progress_events += 1;
        }
        assert_eq!(len, plaintext.len());
    }
    let expected = recv_sess.file_at(0).checksum.clone();
    assert_eq!(expected, hex_of(content));
    recv_sess.finalize_file(0, &mut buf).unwrap();
    assert!(buf.is_finalized());
    let received = buf.contents_bytes().clone();
    (received, send_sess, recv_sess, progress_events)
}

#[test]
fn happy_path_single_file() {
    let content = b"hello swarmdrop";
    let (received, send_sess, recv_sess, progress_events) = pump_single_file(content, "hello.txt");
    assert_eq!(received, content);
    assert!(progress_events >= 1);
    assert_eq!(send_sess.total_bytes_sent(), 15);
    let complete = recv_sess.complete_request();
    assert!(matches!(
        complete,
        AppRequest::Transfer(TransferRequest::Complete { .. })
    ));
    let done = recv_sess.complete_event(2000);
    assert_eq!(done.total_bytes, 15);
    assert_eq!(done.save_path.as_deref(), Some("/tmp/save"));
}

#[test]
fn two_chunk_file() {
    let content = vec![0xABu8; (CHUNK_SIZE * 2) as usize];
    let (received, _send, recv, _events) = pump_single_file(&content, "big.bin");
    assert_eq!(received.len(), content.len());
    assert_eq!(received, content);
    assert_eq!(recv.chunk_count(0), 2);
}

#[test]
fn empty_file_is_one_empty_chunk() {
    let mut sender_mgr = TransferManager::new();
    let prepared = sender_mgr
        .prepare(vec![entry("empty.txt", "empty.txt", 0)], vec![hex_of(b"")])
        .unwrap();
    let offer = sender_mgr
        .begin_send_offer(prepared.prepared_id, String::from("p"), &vec![0])
        .unwrap();
    let key = [9u8; 32];
    let session_id = offer.session_id;
    let mut send = SendSession::new(session_id, offer.selected, &key, 0);
    let plan = send.plan_chunk(0, 0).unwrap();
    assert_eq!((plan.offset, plan.len), (0, 0));
    let (resp, _) = send.finish_chunk(0, 0, b"", 0).unwrap();
    match resp {
        TransferResponse::Chunk { data, is_last, .. } => {
            assert_eq!(data.len(), 16);
            assert!(is_last);
        },
        _ => panic!("expected a chunk response"),
    }
}

#[test]
fn corrupted_chunks_are_rejected_and_retries_cap() {
    let content = vec![0x5Au8; 300 * 1024];
    let mut sender_mgr = TransferManager::new();
    let prepared = sender_mgr
        .prepare(
            vec![entry("c.bin", "c.bin", content.len() as u64)],
            vec![hex_of(&content)],
        )
        .unwrap();
    let offer = sender_mgr
        .begin_send_offer(prepared.prepared_id, String::from("p"), &vec![0])
        .unwrap();
    let key = [1u8; 32];
    let session_id = offer.session_id;
    let mut send = SendSession::new(session_id, offer.selected, &key, 0);
    let files: Vec<FileInfo> = vec![FileInfo {
        file_id: 0,
        name: String::from("c.bin"),
        relative_path: String::from("c.bin"),
        size: content.len() as u64,
        checksum: hex_of(&content),
    }];
    let mut recv = ReceiveSession::new(
        session_id,
        String::from("peer"),
        files,
        content.len() as u64,
        swarmdrop::sink::FileSink::Path { save_dir: String::from("/tmp") },
        &key,
        0,
    );
    let (_part, mut buf, _) = recv.start_file(0, 0).unwrap();

    // Every delivery of chunk 0 arrives with one bit flipped: each attempt
    // fails with a crypto error, and the retry schedule is bounded.
    let (resp, _) = send
        .finish_chunk(0, 0, &content[..CHUNK_SIZE as usize], 0)
        .unwrap();
    let data = match resp {
        TransferResponse::Chunk { data, .. } => data,
        _ => panic!("expected a chunk response"),
    };
    for attempt in 1..=MAX_CHUNK_RETRIES {
        let mut mutated = data.clone();
        mutated[0] ^= 0x01;
        let r = recv.handle_chunk_data(0, 0, &mutated, &mut buf, 0);
        assert!(matches!(r, Err(AppError::Crypto(_))));
        if attempt < MAX_CHUNK_RETRIES {
            assert!(retry_delay_ms(attempt) <= 2000);
        }
    }
    assert_eq!(retry_delay_ms(1), 500);
    assert_eq!(retry_delay_ms(2), 1000);
    assert_eq!(retry_delay_ms(3), 2000);
    assert_eq!(retry_delay_ms(9), 2000);

    // The failed file never finalizes: its checksum gate removes the part.
    let r = recv.finalize_file(0, &mut buf);
    assert!(r.is_err());
    assert!(buf.is_removed());
}

#[test]
fn cancel_receive_tears_the_session_down() {
    let content = vec![0x11u8; 4 * 1024 * 1024];
    let mut recv_mgr = TransferManager::new();
    let files = vec![FileInfo {
        file_id: 0,
        name: String::from("big.bin"),
        relative_path: String::from("big.bin"),
        size: content.len() as u64,
        checksum: hex_of(&content),
    }];
    let session_id = 0xA5A5;
    recv_mgr
        .cache_inbound_offer(3, String::from("peer"), session_id, files, content.len() as u64)
        .unwrap();
    recv_mgr
        .accept_and_start_receive(session_id, String::from("/tmp/save"), 0)
        .unwrap();

    // Mid-transfer: one part file exists.
    let mut sess = recv_mgr.take_receive_session(session_id).unwrap();
    let (_part, _buf, _) = sess.start_file(0, 0).unwrap();
    recv_mgr.put_receive_session(session_id, sess);

    let outcome = recv_mgr.cancel_receive(session_id).unwrap();
    match outcome.cancel_frame {
        AppRequest::Transfer(TransferRequest::Cancel { session_id: sid, reason }) => {
            assert_eq!(sid, session_id);
            assert_eq!(reason, "user-cancelled");
        },
        _ => panic!("expected a cancel frame"),
    }
    assert_eq!(outcome.parts_to_cleanup.len(), 1);
    assert_eq!(outcome.parts_to_cleanup[0].part_path(), "/tmp/save/big.bin.part");
    assert_eq!(outcome.failed_event.error, "user-cancelled");

    // The session is gone: no further chunk is requested for it.
    assert!(recv_mgr.take_receive_session(session_id).is_none());
    assert!(matches!(
        recv_mgr.cancel_receive(session_id),
        Err(AppError::Transfer(_))
    ));
}

#[test]
fn cancelled_sender_refuses_chunk_requests() {
    let key = [2u8; 32];
    let mut sender_mgr = TransferManager::new();
    let prepared = sender_mgr
        .prepare(vec![entry("f.txt", "f.txt", 4)], vec![hex_of(b"abcd")])
        .unwrap();
    let offer = sender_mgr
        .begin_send_offer(prepared.prepared_id, String::from("p"), &vec![0])
        .unwrap();
    let mut send = SendSession::new(offer.session_id, offer.selected, &key, 0);
    send.handle_cancel();
    assert!(matches!(send.plan_chunk(0, 0), Err(AppError::Transfer(_))));
    assert!(matches!(
        send.finish_chunk(0, 0, b"abcd", 0),
        Err(AppError::Transfer(_))
    ));
}

#[test]
fn directory_transfer_keeps_relative_paths() {
    let a = b"aaa".to_vec();
    let b = b"bbb".to_vec();
    let mut mgr = TransferManager::new();
    let entries = vec![
        entry("a.txt", "dir/a.txt", a.len() as u64),
        entry("b.txt", "dir/sub/b.txt", b.len() as u64),
    ];
    let prepared = mgr.prepare(entries, vec![hex_of(&a), hex_of(&b)]).unwrap();
    assert_eq!(prepared.files[0].relative_path, "dir/a.txt");
    assert_eq!(prepared.files[1].relative_path, "dir/sub/b.txt");
    assert_eq!(prepared.files[0].file_id, 0);
    assert_eq!(prepared.files[1].file_id, 1);

    // The receiver's sink places both under the save directory, so the
    // nested directory is recreated.
    let sink = swarmdrop::sink::FileSink::Path { save_dir: String::from("/save") };
    let p0 = sink.build_part_file("dir/a.txt", a.len() as u64);
    let p1 = sink.build_part_file("dir/sub/b.txt", b.len() as u64);
    assert_eq!(p0.final_path(), "/save/dir/a.txt");
    assert_eq!(p1.final_path(), "/save/dir/sub/b.txt");
    assert_eq!(p1.part_path(), "/save/dir/sub/b.txt.part");
}

#[test]
fn prepare_rejects_empty_and_mismatched_batches() {
    let mut mgr = TransferManager::new();
    assert!(matches!(
        mgr.prepare(Vec::new(), Vec::new()),
        Err(AppError::Transfer(_))
    ));
    assert!(matches!(
        mgr.prepare(vec![entry("a", "a", 1)], Vec::new()),
        Err(AppError::Transfer(_))
    ));
}

#[test]
fn offer_selection_must_not_be_empty() {
    let mut mgr = TransferManager::new();
    let prepared = mgr.prepare(vec![entry("a", "a", 1)], vec![hex_of(b"x")]).unwrap();
    let r = mgr.begin_send_offer(prepared.prepared_id, String::from("p"), &vec![42]);
    assert!(matches!(r, Err(AppError::Transfer(_))));
    // The batch was consumed either way.
    let r = mgr.begin_send_offer(prepared.prepared_id, String::from("p"), &vec![0]);
    assert!(matches!(r, Err(AppError::Transfer(_))));
}

#[test]
fn acceptance_without_key_reports_rejection() {
    let mut mgr = TransferManager::new();
    let prepared = mgr.prepare(vec![entry("a", "a", 1)], vec![hex_of(b"x")]).unwrap();
    let offer = mgr
        .begin_send_offer(prepared.prepared_id, String::from("p"), &vec![0])
        .unwrap();
    let session_id = offer.session_id;
    let r = mgr.complete_send_offer(offer, true, None, None, 0);
    assert!(!r.accepted);
    assert!(r.reason.is_some());
    assert!(mgr.take_send_session(session_id).is_none());
}

#[test]
fn rejecting_an_offer_answers_user_rejected() {
    let mut mgr = TransferManager::new();
    let files = vec![FileInfo {
        file_id: 0,
        name: String::from("a"),
        relative_path: String::from("a"),
        size: 1,
        checksum: hex_of(b"x"),
    }];
    mgr.cache_inbound_offer(9, String::from("peer"), 1234, files, 1).unwrap();
    let (pending_id, response) = mgr.reject_and_respond(1234).unwrap();
    assert_eq!(pending_id, 9);
    match response {
        TransferResponse::OfferResult { accepted, key, reason } => {
            assert!(!accepted);
            assert!(key.is_none());
            assert_eq!(reason.as_deref(), Some("user-rejected"));
        },
        _ => panic!("expected an offer result"),
    }
    assert!(mgr.reject_and_respond(1234).is_err());
}

#[test]
fn inconsistent_offer_sizes_are_refused() {
    let mut mgr = TransferManager::new();
    let files = vec![FileInfo {
        file_id: 0,
        name: String::from("a"),
        relative_path: String::from("a"),
        size: 10,
        checksum: String::new(),
    }];
    let r = mgr.cache_inbound_offer(9, String::from("peer"), 1, files, 11);
    assert!(matches!(r, Err(AppError::Transfer(_))));
}

#[test]
fn directory_transfer_end_to_end() {
    let a = b"aaa".to_vec();
    let b = vec![0xEEu8; 1000];
    let contents = [a.clone(), b.clone()];
    let mut sender_mgr = TransferManager::new();
    let entries = vec![
        entry("a.txt", "dir/a.txt", a.len() as u64),
        entry("b.txt", "dir/sub/b.txt", b.len() as u64),
    ];
    let prepared = sender_mgr
        .prepare(entries, vec![hex_of(&a), hex_of(&b)])
        .unwrap();
    let offer = sender_mgr
        .begin_send_offer(prepared.prepared_id, String::from("peer"), &vec![0, 1])
        .unwrap();
    let session_id = offer.session_id;
    let (files, total_size) = match &offer.request {
        AppRequest::Transfer(TransferRequest::Offer { files, total_size, .. }) => {
            (files.clone(), *total_size)
        },
        _ => panic!("expected an offer frame"),
    };
    assert_eq!(total_size, 1003);

    let mut recv_mgr = TransferManager::new();
    recv_mgr
        .cache_inbound_offer(1, String::from("peer"), session_id, files, total_size)
        .unwrap();
    let (_pid, offer_result) = recv_mgr
        .accept_and_start_receive(session_id, String::from("/save"), 0)
        .unwrap();
    let key = match offer_result {
        TransferResponse::OfferResult { key: Some(k), .. } => k,
        _ => panic!("expected a key"),
    };
    let start = sender_mgr.complete_send_offer(offer, true, Some(key), None, 0);
    assert!(start.accepted);

    let mut send = sender_mgr.take_send_session(session_id).unwrap();
    let mut recv = recv_mgr.take_receive_session(session_id).unwrap();
    assert_eq!(recv.file_count(), 2);

    for idx in 0..recv.file_count() {
        let content = &contents[idx];
        let (part, mut buf, _) = recv.start_file(idx, 0).unwrap();
        assert!(part.final_path().starts_with("/save/dir/"));
        for c in 0..recv.chunk_count(idx) {
            let (file_id, chunk_index) = match recv.chunk_request(idx, c) {
                AppRequest::Transfer(TransferRequest::ChunkRequest {
                    file_id, chunk_index, ..
                }) => (file_id, chunk_index),
                _ => panic!("expected a chunk request"),
            };
            let plan = send.plan_chunk(file_id, chunk_index).unwrap();
            let plaintext = &content[plan.offset as usize..(plan.offset + plan.len) as usize];
            let (resp, _) = send.finish_chunk(file_id, chunk_index, plaintext, 0).unwrap();
            let data = match resp {
                TransferResponse::Chunk { data, .. } => data,
                _ => panic!("expected a chunk"),
            };
            recv.handle_chunk_data(idx, c, &data, &mut buf, 0).unwrap();
        }
        recv.finalize_file(idx, &mut buf).unwrap();
        assert!(buf.is_finalized());
        assert_eq!(buf.contents_bytes(), content);
        recv.complete_file(0);
    }
    assert_eq!(send.total_bytes_sent(), 1003);
    let done = recv.complete_event(5);
    assert_eq!(done.total_bytes, 1003);
}
