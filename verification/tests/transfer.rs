use platform_passer::frame::{
    FileManifest, FileMeta, FileTransferRequest, FileTransferResponse, Frame, TransferPurpose,
};
use platform_passer::transfer::{
    file_frames, plain_name, save_directory, EndOutcome, IncomingTransfers, OutgoingTransfers,
    SaveTarget, CHUNK_SIZE,
};

fn manifest(batch_id: u64, names: &[&str]) -> FileManifest {
    FileManifest {
        files: names.iter().map(|n| FileMeta { name: n.to_string(), size: 1 }).collect(),
        total_size: names.len() as u64,
        batch_id,
    }
}

fn request(id: u32, filename: &str, purpose: TransferPurpose) -> FileTransferRequest {
    FileTransferRequest { id, filename: filename.to_string(), file_size: 1, purpose }
}

fn open(incoming: &mut IncomingTransfers, id: u32, name: &str, batch_id: u64) {
    let request = request(id, name, TransferPurpose::ClipboardSync { batch_id });
    assert_eq!(incoming.plan_request(&request), Some(SaveTarget::BatchDir { batch_id }));
    let path = format!("/tmp/clip_{}/{}", batch_id, name);
    assert_eq!(
        incoming.on_created(&request, Some(path)),
        FileTransferResponse { id, accepted: true }
    );
}

#[test]
fn a_small_file_is_one_chunk_and_an_end() {
    assert_eq!(
        file_frames(1, b"hello world!"),
        vec![Frame::FileData { id: 1, chunk: b"hello world!".to_vec() }, Frame::FileEnd { id: 1 }]
    );
}

#[test]
fn an_empty_file_is_an_end_alone() {
    assert_eq!(file_frames(3, b""), vec![Frame::FileEnd { id: 3 }]);
}

#[test]
fn chunks_have_sixty_four_kibibytes() {
    assert_eq!(CHUNK_SIZE, 64 * 1024);
    let data: Vec<u8> = (0..(2 * CHUNK_SIZE + 1)).map(|i| (i % 251) as u8).collect();
    let frames = file_frames(9, &data);
    assert_eq!(frames.len(), 4);
    let mut joined = Vec::new();
    let sizes: Vec<usize> = frames
        .iter()
        .map(|frame| match frame {
            Frame::FileData { id, chunk } => {
                assert_eq!(*id, 9);
                joined.extend_from_slice(chunk);
                chunk.len()
            }
            Frame::FileEnd { id } => {
                assert_eq!(*id, 9);
                0
            }
            other => panic!("unexpected frame {:?}", other),
        })
        .collect();
    assert_eq!(sizes, vec![CHUNK_SIZE, CHUNK_SIZE, 1, 0]);
    assert_eq!(joined, data);
    assert_eq!(frames[3], Frame::FileEnd { id: 9 });
    let exact = vec![7u8; 2 * CHUNK_SIZE];
    let frames = file_frames(2, &exact);
    assert_eq!(frames.len(), 3);
    assert!(matches!(&frames[1], Frame::FileData { chunk, .. } if chunk.len() == CHUNK_SIZE));
}

#[test]
fn requests_are_numbered_from_one() {
    let mut outgoing = OutgoingTransfers::new();
    let first = outgoing.queue("/home/u/a.txt".to_string(), "a.txt".to_string(), 12, TransferPurpose::Manual);
    assert_eq!(
        first,
        Some(FileTransferRequest {
            id: 1,
            filename: "a.txt".to_string(),
            file_size: 12,
            purpose: TransferPurpose::Manual,
        })
    );
    let second = outgoing.queue(
        "/home/u/b.txt".to_string(),
        "b.txt".to_string(),
        0,
        TransferPurpose::ClipboardSync { batch_id: 4 },
    );
    assert_eq!(
        second,
        Some(FileTransferRequest {
            id: 2,
            filename: "b.txt".to_string(),
            file_size: 0,
            purpose: TransferPurpose::ClipboardSync { batch_id: 4 },
        })
    );
    assert!(outgoing.is_pending(1));
    assert!(outgoing.is_pending(2));
    assert!(!outgoing.is_pending(3));
}

#[test]
fn transfer_ids_are_never_used_twice() {
    let mut outgoing = OutgoingTransfers::new();
    let mut seen = Vec::new();
    for i in 0..50 {
        let request = outgoing
            .queue(format!("/p/{}", i), format!("{}", i), 1, TransferPurpose::Manual)
            .unwrap();
        assert!(!seen.contains(&request.id));
        seen.push(request.id);
        if i % 3 == 0 {
            outgoing.on_response(FileTransferResponse { id: request.id, accepted: i % 2 == 0 });
        }
        if i == 25 {
            outgoing.abandon();
        }
    }
    assert_eq!(seen, (1..=50).collect::<Vec<u32>>());
}

#[test]
fn a_file_without_a_name_is_not_announced() {
    let mut outgoing = OutgoingTransfers::new();
    assert_eq!(outgoing.queue("/".to_string(), String::new(), 1, TransferPurpose::Manual), None);
    let next = outgoing.queue("/a".to_string(), "a".to_string(), 1, TransferPurpose::Manual);
    assert_eq!(next.unwrap().id, 1);
}

#[test]
fn an_accepted_file_is_streamed_and_a_refused_one_forgotten() {
    let mut outgoing = OutgoingTransfers::new();
    outgoing.queue("/a".to_string(), "a".to_string(), 1, TransferPurpose::Manual);
    outgoing.queue("/b".to_string(), "b".to_string(), 1, TransferPurpose::Manual);
    assert_eq!(
        outgoing.on_response(FileTransferResponse { id: 1, accepted: true }),
        Some("/a".to_string())
    );
    assert!(!outgoing.is_pending(1));
    assert_eq!(outgoing.on_response(FileTransferResponse { id: 1, accepted: true }), None);
    assert_eq!(outgoing.on_response(FileTransferResponse { id: 2, accepted: false }), None);
    assert!(!outgoing.is_pending(2));
    assert_eq!(outgoing.on_response(FileTransferResponse { id: 2, accepted: true }), None);
    assert_eq!(outgoing.on_response(FileTransferResponse { id: 77, accepted: true }), None);
}

#[test]
fn manual_files_go_to_downloads_and_batch_files_to_their_directory() {
    let incoming = IncomingTransfers::new();
    assert_eq!(
        incoming.plan_request(&request(1, "a.txt", TransferPurpose::Manual)),
        Some(SaveTarget::Downloads)
    );
    assert_eq!(
        incoming.plan_request(&request(2, "a.txt", TransferPurpose::ClipboardSync { batch_id: 77 })),
        Some(SaveTarget::BatchDir { batch_id: 77 })
    );
    assert_eq!(incoming.plan_request(&request(3, "", TransferPurpose::Manual)), None);
}

#[test]
fn a_request_is_refused_when_the_file_cannot_be_created() {
    let mut incoming = IncomingTransfers::new();
    let wanted = request(1, "a.txt", TransferPurpose::Manual);
    assert_eq!(incoming.on_created(&wanted, None), FileTransferResponse { id: 1, accepted: false });
    assert!(!incoming.accepts_data(1));
    assert_eq!(
        incoming.on_created(&wanted, Some("downloads/a.txt".to_string())),
        FileTransferResponse { id: 1, accepted: true }
    );
    assert!(incoming.accepts_data(1));
    assert_eq!(incoming.plan_request(&wanted), None);
    assert_eq!(
        incoming.on_created(&wanted, Some("downloads/a (1).txt".to_string())),
        FileTransferResponse { id: 1, accepted: false }
    );
    let nameless = request(2, "", TransferPurpose::Manual);
    assert_eq!(
        incoming.on_created(&nameless, Some("downloads/".to_string())),
        FileTransferResponse { id: 2, accepted: false }
    );
    assert!(!incoming.accepts_data(2));
}

#[test]
fn a_failed_write_gives_up_that_transfer_only() {
    let mut incoming = IncomingTransfers::new();
    incoming.on_created(&request(1, "a", TransferPurpose::Manual), Some("downloads/a".to_string()));
    incoming.on_created(&request(2, "b", TransferPurpose::Manual), Some("downloads/b".to_string()));
    incoming.on_write_failed(1);
    assert!(!incoming.accepts_data(1));
    assert!(incoming.accepts_data(2));
    assert_eq!(incoming.on_end(1), EndOutcome::Ignored);
    assert_eq!(incoming.on_end(2), EndOutcome::Closed);
    assert_eq!(incoming.on_end(2), EndOutcome::Ignored);
}

#[test]
fn a_batch_is_handed_over_once_when_its_last_file_has_ended() {
    let mut incoming = IncomingTransfers::new();
    incoming.on_manifest(&manifest(5, &["a", "b", "c"]));
    open(&mut incoming, 1, "a", 5);
    open(&mut incoming, 2, "b", 5);
    open(&mut incoming, 3, "c", 5);
    assert_eq!(incoming.on_end(2), EndOutcome::Closed);
    assert_eq!(incoming.on_end(2), EndOutcome::Ignored);
    assert_eq!(incoming.on_end(3), EndOutcome::Closed);
    assert_eq!(
        incoming.on_end(1),
        EndOutcome::BatchComplete {
            batch_id: 5,
            paths: vec![
                "/tmp/clip_5/b".to_string(),
                "/tmp/clip_5/c".to_string(),
                "/tmp/clip_5/a".to_string(),
            ],
        }
    );
    assert_eq!(incoming.on_end(1), EndOutcome::Ignored);
    open(&mut incoming, 4, "d", 5);
    assert_eq!(incoming.on_end(4), EndOutcome::Closed);
}

#[test]
fn a_batch_that_is_cut_short_is_never_handed_over() {
    let mut incoming = IncomingTransfers::new();
    incoming.on_manifest(&manifest(5, &["a", "b", "c"]));
    open(&mut incoming, 1, "a", 5);
    open(&mut incoming, 2, "b", 5);
    open(&mut incoming, 3, "c", 5);
    assert_eq!(incoming.on_end(1), EndOutcome::Closed);
    assert_eq!(incoming.on_end(2), EndOutcome::Closed);
    incoming.abandon();
    assert!(!incoming.accepts_data(3));
    assert_eq!(incoming.on_end(3), EndOutcome::Ignored);
    open(&mut incoming, 3, "c", 5);
    assert_eq!(incoming.on_end(3), EndOutcome::Closed);
}

#[test]
fn batches_are_counted_apart() {
    let mut incoming = IncomingTransfers::new();
    incoming.on_manifest(&manifest(1, &["a", "b"]));
    incoming.on_manifest(&manifest(2, &["c"]));
    open(&mut incoming, 10, "a", 1);
    open(&mut incoming, 11, "c", 2);
    open(&mut incoming, 12, "b", 1);
    incoming.on_created(&request(13, "m", TransferPurpose::Manual), Some("downloads/m".to_string()));
    assert_eq!(incoming.on_end(10), EndOutcome::Closed);
    assert_eq!(incoming.on_end(13), EndOutcome::Closed);
    assert_eq!(
        incoming.on_end(11),
        EndOutcome::BatchComplete { batch_id: 2, paths: vec!["/tmp/clip_2/c".to_string()] }
    );
    assert_eq!(
        incoming.on_end(12),
        EndOutcome::BatchComplete {
            batch_id: 1,
            paths: vec!["/tmp/clip_1/a".to_string(), "/tmp/clip_1/b".to_string()],
        }
    );
}

#[test]
fn files_of_an_unannounced_batch_are_written_and_not_handed_over() {
    let mut incoming = IncomingTransfers::new();
    incoming.on_manifest(&manifest(8, &[]));
    open(&mut incoming, 1, "a", 8);
    assert!(incoming.accepts_data(1));
    assert_eq!(incoming.on_end(1), EndOutcome::Closed);
}

#[test]
fn directories_are_named_by_the_batch() {
    assert_eq!(save_directory(SaveTarget::Downloads), "downloads");
    assert_eq!(save_directory(SaveTarget::BatchDir { batch_id: 0 }), "platform_passer_clip_0");
    assert_eq!(save_directory(SaveTarget::BatchDir { batch_id: 9 }), "platform_passer_clip_9");
    assert_eq!(save_directory(SaveTarget::BatchDir { batch_id: 10 }), "platform_passer_clip_10");
    assert_eq!(
        save_directory(SaveTarget::BatchDir { batch_id: 1_700_000_000_123_456_789 }),
        "platform_passer_clip_1700000000123456789"
    );
    assert_eq!(
        save_directory(SaveTarget::BatchDir { batch_id: u64::MAX }),
        format!("platform_passer_clip_{}", u64::MAX)
    );
}

#[test]
fn only_plain_names_name_a_file_in_a_directory() {
    for name in ["a.txt", "a", "...", ".hidden", "a..b", "\u{e9}t\u{e9}.txt", " ", "a b", "..a", "a.", "~"] {
        assert!(plain_name(name), "{:?}", name);
    }
    for name in [
        "", ".", "..", "/", "\\", "../x", "a/b", "/etc/passwd", "a\\b", "..\\x", "C:\\x", "C:x", "a:b",
        "x/", "x/..", "a\0b", "\0",
    ] {
        assert!(!plain_name(name), "{:?}", name);
    }
}

#[test]
fn a_name_that_leads_out_of_the_directory_is_refused() {
    let mut incoming = IncomingTransfers::new();
    for (id, name) in ["../x", "/etc/passwd", "a/b", "..", ".", "C:\\x", "d\\e", ""].iter().enumerate() {
        let wanted = request(id as u32 + 1, name, TransferPurpose::Manual);
        assert_eq!(incoming.plan_request(&wanted), None);
        assert_eq!(
            incoming.on_created(&wanted, Some(format!("downloads/{}", name))),
            FileTransferResponse { id: id as u32 + 1, accepted: false }
        );
        assert!(!incoming.accepts_data(id as u32 + 1));
    }
    let batch = request(20, "../x", TransferPurpose::ClipboardSync { batch_id: 3 });
    assert_eq!(incoming.plan_request(&batch), None);
    let plain = request(21, "x", TransferPurpose::Manual);
    assert_eq!(incoming.plan_request(&plain), Some(SaveTarget::Downloads));
}
