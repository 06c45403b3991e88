use platform_passer::clipboard::{
    calculate_hash, files_fingerprint, hash_of_paths, Apply, ClipboardBridge, ClipboardFile, ClipboardSnapshot,
    LocalClipboardContent, Outbound, OwnWrites, MAX_CLIPBOARD_FILES_BYTES,
};
use platform_passer::config::ClipboardConfig;
use platform_passer::frame::{ClipboardEvent, FileManifest, FileMeta};

fn everything() -> ClipboardConfig {
    ClipboardConfig { sync_enabled: true, sync_images: true }
}

fn file(path: &str, name: &str, size: u64) -> ClipboardFile {
    ClipboardFile { path: path.to_string(), name: name.to_string(), size, is_file: true }
}

fn directory(path: &str, name: &str) -> ClipboardFile {
    ClipboardFile { path: path.to_string(), name: name.to_string(), size: 4096, is_file: false }
}

fn text(value: &str) -> ClipboardSnapshot {
    ClipboardSnapshot { files: None, text: Some(value.to_string()), image: None }
}

fn image(data: &[u8]) -> ClipboardSnapshot {
    ClipboardSnapshot { files: None, text: None, image: Some(data.to_vec()) }
}

fn files(entries: Vec<ClipboardFile>) -> ClipboardSnapshot {
    ClipboardSnapshot { files: Some(entries), text: None, image: None }
}

#[test]
fn hashes_tell_contents_apart() {
    assert_eq!(calculate_hash(b"hello"), calculate_hash(b"hello"));
    assert_ne!(calculate_hash(b"hello"), calculate_hash(b"hellp"));
    assert_ne!(calculate_hash(b""), calculate_hash(b"\0"));
}

#[test]
fn the_fingerprint_of_files_ignores_their_order() {
    let a = vec!["/tmp/b.txt".to_string(), "/tmp/a.txt".to_string(), "/tmp/c.txt".to_string()];
    let b = vec!["/tmp/c.txt".to_string(), "/tmp/b.txt".to_string(), "/tmp/a.txt".to_string()];
    let c = vec!["/tmp/a.txt".to_string(), "/tmp/b.txt".to_string(), "/tmp/c.txt".to_string()];
    assert_eq!(files_fingerprint(&a), files_fingerprint(&b));
    assert_eq!(files_fingerprint(&a), files_fingerprint(&c));
    assert_eq!(a[0], "/tmp/b.txt");
    let other = vec!["/tmp/a.txt".to_string(), "/tmp/b.txt".to_string()];
    assert_ne!(files_fingerprint(&a), files_fingerprint(&other));
    let joined = vec!["/tmp/a.txt/tmp/b.txt".to_string()];
    assert_ne!(files_fingerprint(&other), files_fingerprint(&joined));
}

#[test]
fn the_hash_of_paths_follows_their_order_and_their_cuts() {
    let ab = vec!["a".to_string(), "b".to_string()];
    let ba = vec!["b".to_string(), "a".to_string()];
    assert_eq!(hash_of_paths(&ab), hash_of_paths(&ab.clone()));
    assert_ne!(hash_of_paths(&ab), hash_of_paths(&ba));
    assert_ne!(hash_of_paths(&ab), hash_of_paths(&vec!["ab".to_string()]));
    assert_ne!(hash_of_paths(&vec![]), hash_of_paths(&vec![String::new()]));
    assert_eq!(files_fingerprint(&ba), hash_of_paths(&ab));
    let mut hasher = std::collections::hash_map::DefaultHasher::new();
    std::hash::Hasher::write(&mut hasher, &[1, 0, 0, 0, 0, 0, 0, 0]);
    std::hash::Hasher::write(&mut hasher, b"a");
    std::hash::Hasher::write(&mut hasher, &[1, 0, 0, 0, 0, 0, 0, 0]);
    std::hash::Hasher::write(&mut hasher, b"b");
    assert_eq!(hash_of_paths(&ab), std::hash::Hasher::finish(&hasher));
}

#[test]
fn a_new_text_is_sent() {
    let bridge = ClipboardBridge::new(everything());
    assert_eq!(
        bridge.on_local_change(text("hello"), 1),
        Outbound::Event(ClipboardEvent::Text("hello".to_string()))
    );
}

#[test]
fn an_empty_clipboard_sends_nothing() {
    let bridge = ClipboardBridge::new(everything());
    let empty = ClipboardSnapshot { files: None, text: None, image: None };
    assert_eq!(bridge.on_local_change(empty, 1), Outbound::Nothing);
    assert_eq!(bridge.on_local_change(text(""), 1), Outbound::Nothing);
    assert_eq!(bridge.on_local_change(files(vec![]), 1), Outbound::Nothing);
}

#[test]
fn files_come_before_text_and_text_before_image() {
    let bridge = ClipboardBridge::new(everything());
    let all = ClipboardSnapshot {
        files: Some(vec![file("/tmp/a.txt", "a.txt", 12)]),
        text: Some("a.txt".to_string()),
        image: Some(vec![1, 2, 3]),
    };
    assert_eq!(
        bridge.on_local_change(all, 42),
        Outbound::Files {
            manifest: FileManifest {
                files: vec![FileMeta { name: "a.txt".to_string(), size: 12 }],
                total_size: 12,
                batch_id: 42,
            },
            paths: vec!["/tmp/a.txt".to_string()],
        }
    );
    let text_and_image = ClipboardSnapshot {
        files: Some(vec![]),
        text: Some("words".to_string()),
        image: Some(vec![1, 2, 3]),
    };
    assert_eq!(
        bridge.on_local_change(text_and_image, 42),
        Outbound::Event(ClipboardEvent::Text("words".to_string()))
    );
    let image_only = ClipboardSnapshot {
        files: None,
        text: Some(String::new()),
        image: Some(vec![1, 2, 3]),
    };
    assert_eq!(
        bridge.on_local_change(image_only, 42),
        Outbound::Event(ClipboardEvent::Image { data: vec![1, 2, 3] })
    );
}

#[test]
fn a_received_text_is_not_sent_back() {
    let mut bridge = ClipboardBridge::new(everything());
    let event = ClipboardEvent::Text("from the peer".to_string());
    assert_eq!(bridge.on_remote(event.clone()), Apply::SetText("from the peer".to_string()));
    assert_eq!(
        bridge.last_remote(),
        Some(LocalClipboardContent::Text("from the peer".to_string()))
    );
    assert_eq!(bridge.on_local_change(text("from the peer"), 1), Outbound::Nothing);
    assert_eq!(bridge.on_remote(event), Apply::SetText("from the peer".to_string()));
    assert_eq!(bridge.on_local_change(text("from the peer"), 2), Outbound::Nothing);
    assert_eq!(bridge.on_local_change(text("from the peer"), 3), Outbound::Nothing);
    assert_eq!(
        bridge.on_local_change(text("typed here"), 4),
        Outbound::Event(ClipboardEvent::Text("typed here".to_string()))
    );
}

#[test]
fn a_received_image_is_not_sent_back() {
    let mut bridge = ClipboardBridge::new(everything());
    let data = vec![137, 80, 78, 71, 1, 2, 3];
    assert_eq!(
        bridge.on_remote(ClipboardEvent::Image { data: data.clone() }),
        Apply::SetImage(data.clone())
    );
    assert_eq!(bridge.last_remote(), Some(LocalClipboardContent::Image(calculate_hash(&data))));
    assert_eq!(bridge.on_local_change(image(&data), 1), Outbound::Nothing);
    assert_eq!(bridge.on_remote(ClipboardEvent::Image { data: data.clone() }), Apply::SetImage(data.clone()));
    assert_eq!(bridge.on_local_change(image(&data), 1), Outbound::Nothing);
    assert_eq!(
        bridge.on_local_change(image(&[9, 9]), 1),
        Outbound::Event(ClipboardEvent::Image { data: vec![9, 9] })
    );
}

#[test]
fn only_the_last_reception_is_remembered() {
    let mut bridge = ClipboardBridge::new(everything());
    assert_eq!(bridge.last_remote(), None);
    bridge.on_remote(ClipboardEvent::Text("first".to_string()));
    bridge.on_remote(ClipboardEvent::Text("second".to_string()));
    assert_eq!(
        bridge.on_local_change(text("first"), 1),
        Outbound::Event(ClipboardEvent::Text("first".to_string()))
    );
    assert_eq!(bridge.on_local_change(text("second"), 1), Outbound::Nothing);
    bridge.on_remote(ClipboardEvent::Image { data: vec![1] });
    assert_eq!(
        bridge.on_local_change(text("second"), 1),
        Outbound::Event(ClipboardEvent::Text("second".to_string()))
    );
}

#[test]
fn received_files_are_not_sent_back() {
    let mut bridge = ClipboardBridge::new(everything());
    let received = vec!["/tmp/clip/b.txt".to_string(), "/tmp/clip/a.txt".to_string()];
    bridge.record_files(&received);
    assert_eq!(
        bridge.last_remote(),
        Some(LocalClipboardContent::Files(files_fingerprint(&received)))
    );
    let shown = files(vec![file("/tmp/clip/a.txt", "a.txt", 1), file("/tmp/clip/b.txt", "b.txt", 2)]);
    assert_eq!(bridge.on_local_change(shown, 1), Outbound::Nothing);
    let others = files(vec![file("/tmp/clip/a.txt", "a.txt", 1)]);
    assert!(matches!(bridge.on_local_change(others, 1), Outbound::Files { .. }));
}

#[test]
fn a_manifest_is_awaited_and_changes_no_fingerprint() {
    let mut bridge = ClipboardBridge::new(everything());
    bridge.on_remote(ClipboardEvent::Text("kept".to_string()));
    let manifest = FileManifest {
        files: vec![FileMeta { name: "a".to_string(), size: 1 }],
        total_size: 1,
        batch_id: 5,
    };
    assert_eq!(
        bridge.on_remote(ClipboardEvent::Files { manifest: manifest.clone() }),
        Apply::ExpectFiles(manifest)
    );
    assert_eq!(bridge.last_remote(), Some(LocalClipboardContent::Text("kept".to_string())));
}

#[test]
fn only_regular_files_are_sent() {
    let bridge = ClipboardBridge::new(everything());
    let snapshot = files(vec![
        directory("/home/u/dir", "dir"),
        file("/home/u/a.txt", "a.txt", 10),
        file("/home/u/empty", "empty", 0),
        directory("/home/u/other", "other"),
        file("/home/u/b.txt", "b.txt", 32),
    ]);
    assert_eq!(
        bridge.on_local_change(snapshot, 9),
        Outbound::Files {
            manifest: FileManifest {
                files: vec![
                    FileMeta { name: "a.txt".to_string(), size: 10 },
                    FileMeta { name: "empty".to_string(), size: 0 },
                    FileMeta { name: "b.txt".to_string(), size: 32 },
                ],
                total_size: 42,
                batch_id: 9,
            },
            paths: vec![
                "/home/u/a.txt".to_string(),
                "/home/u/empty".to_string(),
                "/home/u/b.txt".to_string(),
            ],
        }
    );
    let nothing_to_send = ClipboardSnapshot {
        files: Some(vec![directory("/home/u/dir", "dir"), file("/home/u/empty", "empty", 0)]),
        text: Some("dir".to_string()),
        image: None,
    };
    assert_eq!(bridge.on_local_change(nothing_to_send, 9), Outbound::Nothing);
}

#[test]
fn files_over_ten_mebibytes_are_skipped() {
    let bridge = ClipboardBridge::new(everything());
    assert_eq!(MAX_CLIPBOARD_FILES_BYTES, 10 * 1024 * 1024);
    let at_the_limit = files(vec![file("/a", "a", 10 * 1024 * 1024 - 1), file("/b", "b", 1)]);
    assert!(matches!(
        bridge.on_local_change(at_the_limit, 1),
        Outbound::Files { manifest: FileManifest { total_size: 10_485_760, .. }, .. }
    ));
    let over = files(vec![file("/a", "a", 10 * 1024 * 1024), file("/b", "b", 1)]);
    assert_eq!(bridge.on_local_change(over, 1), Outbound::TooLarge);
    let overflowing = files(vec![file("/a", "a", u64::MAX), file("/b", "b", u64::MAX)]);
    assert_eq!(bridge.on_local_change(overflowing, 1), Outbound::TooLarge);
    let directories_do_not_count = files(vec![
        ClipboardFile { path: "/d".to_string(), name: "d".to_string(), size: u64::MAX, is_file: false },
        file("/b", "b", 1),
    ]);
    assert!(matches!(bridge.on_local_change(directories_do_not_count, 1), Outbound::Files { .. }));
}

#[test]
fn the_configuration_switches_kinds_off() {
    let mut bridge = ClipboardBridge::new(ClipboardConfig::default());
    assert_eq!(bridge.on_local_change(image(&[1, 2]), 1), Outbound::Nothing);
    assert_eq!(
        bridge.on_local_change(text("t"), 1),
        Outbound::Event(ClipboardEvent::Text("t".to_string()))
    );
    bridge.update_config(ClipboardConfig { sync_enabled: false, sync_images: true });
    assert_eq!(bridge.on_local_change(text("t"), 1), Outbound::Nothing);
    assert_eq!(bridge.on_local_change(image(&[1, 2]), 1), Outbound::Nothing);
    assert_eq!(bridge.on_local_change(files(vec![file("/a", "a", 1)]), 1), Outbound::Nothing);
    assert_eq!(bridge.on_remote(ClipboardEvent::Text("x".to_string())), Apply::Ignore);
    assert_eq!(bridge.last_remote(), None);
    bridge.update_config(everything());
    assert_eq!(
        bridge.on_local_change(image(&[1, 2]), 1),
        Outbound::Event(ClipboardEvent::Image { data: vec![1, 2] })
    );
}

#[test]
fn own_writes_are_not_reported_as_changes() {
    let mut writes = OwnWrites::new();
    assert!(writes.on_update());
    writes.note_write();
    writes.note_write();
    assert!(!writes.on_update());
    assert!(!writes.on_update());
    assert!(writes.on_update());
    assert!(writes.on_update());
}
