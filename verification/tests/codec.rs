use platform_passer::codec::{
    decode_length, encode_length, read_frame, read_payload, write_frame, write_payload, CodecError,
    FrameBuffer, MAX_FRAME_LEN,
};
use platform_passer::config::ScreenInfo;
use platform_passer::frame::{
    ClipboardEvent, FileManifest, FileMeta, FileTransferRequest, FileTransferResponse, Frame,
    Handshake, Heartbeat, InputEvent, MouseButton, ScreenSide, TransferPurpose,
};
use platform_passer::wire::{decode_frame, encode_frame};

fn every_kind_of_frame() -> Vec<Frame> {
    vec![
        Frame::Handshake(Handshake {
            version: 1,
            client_id: "macos-client".to_string(),
            capabilities: vec!["input".to_string(), "clipboard".to_string()],
            screen_info: Some(ScreenInfo { width: 2560, height: 1440, dpi_scale: 2000 }),
        }),
        Frame::Handshake(Handshake {
            version: u32::MAX,
            client_id: String::new(),
            capabilities: vec![],
            screen_info: None,
        }),
        Frame::Heartbeat(Heartbeat { timestamp: 0 }),
        Frame::Heartbeat(Heartbeat { timestamp: u64::MAX }),
        Frame::Input(InputEvent::MouseMove { x: 0, y: 1_000_000 }),
        Frame::Input(InputEvent::MouseButton { button: MouseButton::Left, is_down: true }),
        Frame::Input(InputEvent::MouseButton { button: MouseButton::Right, is_down: false }),
        Frame::Input(InputEvent::MouseButton { button: MouseButton::Middle, is_down: true }),
        Frame::Input(InputEvent::Keyboard { key_code: 0x1B, is_down: false }),
        Frame::Input(InputEvent::Scroll { dx: -120, dy: 240 }),
        Frame::Input(InputEvent::Scroll { dx: i32::MIN, dy: i32::MAX }),
        Frame::Input(InputEvent::ScreenSwitch(ScreenSide::Local)),
        Frame::Input(InputEvent::ScreenSwitch(ScreenSide::Remote)),
        Frame::Clipboard(ClipboardEvent::Text("gr\u{fc}\u{df}e \u{1f600}".to_string())),
        Frame::Clipboard(ClipboardEvent::Text(String::new())),
        Frame::Clipboard(ClipboardEvent::Image { data: vec![0x89, b'P', b'N', b'G', 0, 255] }),
        Frame::Clipboard(ClipboardEvent::Image { data: vec![] }),
        Frame::Clipboard(ClipboardEvent::Files {
            manifest: FileManifest {
                files: vec![
                    FileMeta { name: "a.txt".to_string(), size: 12 },
                    FileMeta { name: "b.bin".to_string(), size: u64::MAX },
                ],
                total_size: 99,
                batch_id: 7,
            },
        }),
        Frame::Clipboard(ClipboardEvent::Files {
            manifest: FileManifest { files: vec![], total_size: 0, batch_id: 0 },
        }),
        Frame::FileTransferRequest(FileTransferRequest {
            id: 1,
            filename: "a.txt".to_string(),
            file_size: 12,
            purpose: TransferPurpose::Manual,
        }),
        Frame::FileTransferRequest(FileTransferRequest {
            id: 2,
            filename: "b".to_string(),
            file_size: 0,
            purpose: TransferPurpose::ClipboardSync { batch_id: 1_700_000_000_000_000_000 },
        }),
        Frame::FileTransferResponse(FileTransferResponse { id: 1, accepted: true }),
        Frame::FileTransferResponse(FileTransferResponse { id: 9, accepted: false }),
        Frame::FileData { id: 1, chunk: b"hello world!".to_vec() },
        Frame::FileData { id: 1, chunk: vec![] },
        Frame::FileEnd { id: 1 },
        Frame::ScreenSwitch(ScreenSide::Local),
        Frame::ScreenSwitch(ScreenSide::Remote),
        Frame::Notification { title: "Clipboard Sync Skipped".to_string(), message: "files > 10MB".to_string() },
        Frame::Notification { title: String::new(), message: String::new() },
    ]
}

#[test]
fn every_frame_round_trips_through_a_buffer() {
    for frame in every_kind_of_frame() {
        let mut buffer = Vec::new();
        assert_eq!(write_frame(&mut buffer, &frame), Ok(()));
        let read = read_frame(&buffer, 0);
        assert_eq!(read, Ok(Some((frame, buffer.len()))));
        assert_eq!(read_frame(&buffer, buffer.len()), Ok(None));
    }
}

#[test]
fn every_payload_round_trips() {
    for frame in every_kind_of_frame() {
        let payload = encode_frame(&frame);
        assert_eq!(decode_frame(&payload), Some(frame));
    }
}

#[test]
fn frames_are_read_in_the_order_in_which_they_were_written() {
    let frames = every_kind_of_frame();
    let mut buffer = vec![0xAA, 0xBB];
    for frame in &frames {
        assert_eq!(write_frame(&mut buffer, frame), Ok(()));
    }
    let mut position = 2;
    for frame in &frames {
        match read_frame(&buffer, position) {
            Ok(Some((read, next))) => {
                assert_eq!(&read, frame);
                assert!(next > position);
                position = next;
            }
            other => panic!("no frame: {:?}", other),
        }
    }
    assert_eq!(position, buffer.len());
    assert_eq!(read_frame(&buffer, position), Ok(None));
    assert_eq!(read_frame(&buffer, position + 10), Ok(None));
}

#[test]
fn the_bytes_of_a_message_are_prefix_and_payload() {
    let mut buffer = Vec::new();
    assert_eq!(write_frame(&mut buffer, &Frame::FileEnd { id: 0x0102_0304 }), Ok(()));
    assert_eq!(buffer, vec![8, 0, 0, 0, 7, 0, 0, 0, 4, 3, 2, 1]);
    let mut buffer = Vec::new();
    let frame = Frame::FileData { id: 1, chunk: b"hi".to_vec() };
    assert_eq!(write_frame(&mut buffer, &frame), Ok(()));
    assert_eq!(
        buffer,
        vec![18, 0, 0, 0, 6, 0, 0, 0, 1, 0, 0, 0, 2, 0, 0, 0, 0, 0, 0, 0, b'h', b'i']
    );
    assert_eq!(
        encode_frame(&Frame::Notification { title: "\u{e9}".to_string(), message: String::new() }),
        vec![9, 0, 0, 0, 2, 0, 0, 0, 0, 0, 0, 0, 0xC3, 0xA9, 0, 0, 0, 0, 0, 0, 0, 0]
    );
    assert_eq!(
        encode_frame(&Frame::Input(InputEvent::Scroll { dx: -1, dy: 1 })),
        vec![2, 0, 0, 0, 3, 0, 0, 0, 0xFF, 0xFF, 0xFF, 0xFF, 1, 0, 0, 0]
    );
}

#[test]
fn length_prefixes_are_little_endian() {
    assert_eq!(encode_length(0), Ok(vec![0, 0, 0, 0]));
    assert_eq!(encode_length(1), Ok(vec![1, 0, 0, 0]));
    assert_eq!(encode_length(0x0001_0203), Ok(vec![3, 2, 1, 0]));
    assert_eq!(encode_length(MAX_FRAME_LEN), Ok(vec![0, 0, 0, 1]));
    assert_eq!(encode_length(MAX_FRAME_LEN + 1), Err(CodecError::Oversized));
    assert_eq!(decode_length(&[3, 2, 1, 0]), Ok(0x0001_0203));
    assert_eq!(decode_length(&[0, 0, 0, 1]), Ok(MAX_FRAME_LEN));
    assert_eq!(decode_length(&[1, 0, 0, 1]), Err(CodecError::Oversized));
    assert_eq!(decode_length(&[255, 255, 255, 255]), Err(CodecError::Oversized));
    assert_eq!(decode_length(&[0, 0, 0]), Err(CodecError::Truncated));
    assert_eq!(decode_length(&[0, 0, 0, 0, 0]), Err(CodecError::Truncated));
}

#[test]
fn payloads_are_framed_as_they_are() {
    let mut buffer = Vec::new();
    assert_eq!(write_payload(&mut buffer, &[]), Ok(()));
    assert_eq!(write_payload(&mut buffer, &[1, 2, 3]), Ok(()));
    assert_eq!(buffer, vec![0, 0, 0, 0, 3, 0, 0, 0, 1, 2, 3]);
    assert_eq!(read_payload(&buffer, 0), Ok(Some((vec![], 4))));
    assert_eq!(read_payload(&buffer, 4), Ok(Some((vec![1, 2, 3], 11))));
    assert_eq!(read_payload(&buffer, 11), Ok(None));
}

#[test]
fn the_end_of_the_stream_is_no_error() {
    assert_eq!(read_frame(&[], 0), Ok(None));
    assert_eq!(read_frame(&[1, 2, 3], 3), Ok(None));
    assert_eq!(read_frame(&[1, 2, 3], 4), Ok(None));
}

#[test]
fn bytes_that_end_inside_a_message_are_truncated() {
    assert_eq!(read_frame(&[8], 0), Err(CodecError::Truncated));
    assert_eq!(read_frame(&[8, 0, 0], 0), Err(CodecError::Truncated));
    assert_eq!(read_frame(&[8, 0, 0, 0], 0), Err(CodecError::Truncated));
    assert_eq!(read_frame(&[8, 0, 0, 0, 7, 0, 0, 0, 1, 0, 0], 0), Err(CodecError::Truncated));
    let mut buffer = Vec::new();
    write_frame(&mut buffer, &Frame::FileEnd { id: 1 }).unwrap();
    for cut in 1..buffer.len() {
        assert_eq!(read_frame(&buffer[..cut], 0), Err(CodecError::Truncated));
    }
}

#[test]
fn an_oversized_prefix_is_refused_before_anything_is_read() {
    assert_eq!(read_frame(&[1, 0, 0, 1], 0), Err(CodecError::Oversized));
    assert_eq!(read_frame(&[255, 255, 255, 255, 0, 0], 0), Err(CodecError::Oversized));
    assert_eq!(read_payload(&[255, 255, 255, 127], 0), Err(CodecError::Oversized));
}

#[test]
fn an_oversized_frame_is_not_written() {
    let frame = Frame::FileData { id: 1, chunk: vec![0; MAX_FRAME_LEN - 15] };
    let mut buffer = vec![7];
    assert_eq!(write_frame(&mut buffer, &frame), Err(CodecError::Oversized));
    assert_eq!(buffer, vec![7]);
    let frame = Frame::FileData { id: 1, chunk: vec![0; MAX_FRAME_LEN - 16] };
    assert_eq!(write_frame(&mut buffer, &frame), Ok(()));
    assert_eq!(buffer.len(), 1 + 4 + MAX_FRAME_LEN);
    assert_eq!(read_frame(&buffer, 1), Ok(Some((frame, buffer.len()))));
}

#[test]
fn a_payload_that_is_no_frame_is_skipped() {
    let mut buffer = Vec::new();
    write_payload(&mut buffer, &[200, 0, 0, 0]).unwrap();
    write_frame(&mut buffer, &Frame::FileEnd { id: 5 }).unwrap();
    assert_eq!(read_frame(&buffer, 0), Err(CodecError::Malformed { next: 8 }));
    assert_eq!(read_frame(&buffer, 8), Ok(Some((Frame::FileEnd { id: 5 }, buffer.len()))));
}

#[test]
fn payloads_with_errors_are_no_frames() {
    assert_eq!(decode_frame(&[]), None);
    assert_eq!(decode_frame(&[7, 0, 0]), None);
    assert_eq!(decode_frame(&[10, 0, 0, 0]), None);
    assert_eq!(decode_frame(&[7, 0, 0, 0, 1, 0, 0]), None);
    assert_eq!(decode_frame(&[7, 0, 0, 0, 1, 0, 0, 0, 0]), None);
    assert_eq!(decode_frame(&[5, 0, 0, 0, 1, 0, 0, 0, 2]), None);
    assert_eq!(decode_frame(&[8, 0, 0, 0, 2, 0, 0, 0]), None);
    assert_eq!(decode_frame(&[2, 0, 0, 0, 1, 0, 0, 0, 3, 0, 0, 0, 1]), None);
    assert_eq!(decode_frame(&[2, 0, 0, 0, 5, 0, 0, 0]), None);
    let text = |bytes: &[u8]| {
        let mut payload = vec![3, 0, 0, 0, 0, 0, 0, 0];
        payload.extend_from_slice(&(bytes.len() as u64).to_le_bytes());
        payload.extend_from_slice(bytes);
        payload
    };
    assert_eq!(decode_frame(&text(b"ok")), Some(Frame::Clipboard(ClipboardEvent::Text("ok".to_string()))));
    assert_eq!(decode_frame(&text(&[0xFF, 0xFE])), None);
    assert_eq!(decode_frame(&text(&[0xC3])), None);
    assert_eq!(decode_frame(&text(&[0xED, 0xA0, 0x80])), None);
    let mut short = text(b"ok");
    short.pop();
    assert_eq!(decode_frame(&short), None);
    let huge = vec![6, 0, 0, 0, 1, 0, 0, 0, 255, 255, 255, 255, 255, 255, 255, 255, 1, 2];
    assert_eq!(decode_frame(&huge), None);
    let many = vec![0, 0, 0, 0, 1, 0, 0, 0, 0, 0, 0, 0, 0, 0, 0, 0, 255, 255, 255, 255, 255, 255, 255, 255, 0];
    assert_eq!(decode_frame(&many), None);
}

#[test]
fn frames_come_out_of_a_stream_cut_into_pieces() {
    let frames = every_kind_of_frame();
    let mut stream = Vec::new();
    for frame in &frames {
        write_frame(&mut stream, frame).unwrap();
    }
    for piece in [1usize, 2, 3, 5, 7, 64, 1000] {
        let mut buffer = FrameBuffer::new();
        let mut read = Vec::new();
        for bytes in stream.chunks(piece) {
            buffer.push(bytes);
            while let Some(frame) = buffer.pop().unwrap() {
                read.push(frame);
            }
        }
        assert_eq!(read, frames);
        assert_eq!(buffer.finish(), Ok(()));
    }
}

#[test]
fn a_stream_that_ends_inside_a_message_is_truncated() {
    let mut stream = Vec::new();
    write_frame(&mut stream, &Frame::FileEnd { id: 1 }).unwrap();
    write_frame(&mut stream, &Frame::FileEnd { id: 2 }).unwrap();
    let mut buffer = FrameBuffer::new();
    assert_eq!(buffer.finish(), Ok(()));
    assert_eq!(buffer.pop(), Ok(None));
    buffer.push(&stream[..stream.len() - 1]);
    assert_eq!(buffer.pop(), Ok(Some(Frame::FileEnd { id: 1 })));
    assert_eq!(buffer.pop(), Ok(None));
    assert_eq!(buffer.pop(), Ok(None));
    assert_eq!(buffer.finish(), Err(CodecError::Truncated));
    buffer.push(&stream[stream.len() - 1..]);
    assert_eq!(buffer.pop(), Ok(Some(Frame::FileEnd { id: 2 })));
    assert_eq!(buffer.pop(), Ok(None));
    assert_eq!(buffer.finish(), Ok(()));
}

#[test]
fn a_buffer_drops_a_message_that_is_no_frame_and_stops_at_an_oversized_one() {
    let mut buffer = FrameBuffer::new();
    let mut stream = Vec::new();
    write_payload(&mut stream, &[99, 0, 0, 0]).unwrap();
    write_frame(&mut stream, &Frame::FileEnd { id: 3 }).unwrap();
    stream.extend_from_slice(&[255, 255, 255, 255, 1, 2, 3]);
    buffer.push(&stream);
    assert_eq!(buffer.pop(), Err(CodecError::Malformed { next: 8 }));
    assert_eq!(buffer.pop(), Ok(Some(Frame::FileEnd { id: 3 })));
    assert_eq!(buffer.pop(), Err(CodecError::Oversized));
    assert_eq!(buffer.pop(), Err(CodecError::Oversized));
    assert_eq!(buffer.finish(), Err(CodecError::Truncated));
}
