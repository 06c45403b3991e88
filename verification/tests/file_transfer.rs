use platform_passer::clipboard::ClipboardBridge;
use platform_passer::codec::{read_frame, write_frame};
use platform_passer::config::ClipboardConfig;
use platform_passer::connection::Role;
use platform_passer::frame::{FileTransferRequest, FileTransferResponse, Frame, TransferPurpose};
use platform_passer::session::{Effect, Session};
use platform_passer::transfer::{file_frames, SaveTarget};

struct Disk {
    files: Vec<(String, Vec<u8>, bool)>,
    open: Vec<(u32, usize)>,
}

impl Disk {
    fn carry_out(&mut self, session: &mut Session, effects: Vec<Effect>, wire: &mut Vec<u8>) {
        for effect in effects {
            match effect {
                Effect::Send(frame) => {
                    write_frame(wire, &frame).unwrap();
                }
                Effect::CreateFile { request, target } => {
                    let directory = match target {
                        SaveTarget::Downloads => "downloads".to_string(),
                        SaveTarget::BatchDir { batch_id } => format!("tmp/clip_{}", batch_id),
                    };
                    let path = format!("{}/{}", directory, request.filename);
                    self.files.push((path.clone(), Vec::new(), true));
                    self.open.push((request.id, self.files.len() - 1));
                    let answer = session.on_file_created(&request, Some(path));
                    self.carry_out(session, answer, wire);
                }
                Effect::AppendFile { id, chunk } => {
                    let index = self.open.iter().find(|(open, _)| *open == id).unwrap().1;
                    assert!(self.files[index].2);
                    self.files[index].1.extend_from_slice(&chunk);
                }
                Effect::CloseFile { id } => {
                    let index = self.open.iter().find(|(open, _)| *open == id).unwrap().1;
                    self.files[index].2 = false;
                    self.open.retain(|(open, _)| *open != id);
                }
                other => panic!("unexpected effect {:?}", other),
            }
        }
    }
}

fn deliver(wire: &mut Vec<u8>) -> Vec<Frame> {
    let mut frames = Vec::new();
    let mut position = 0;
    while let Some((frame, next)) = read_frame(wire, position).unwrap() {
        frames.push(frame);
        position = next;
    }
    wire.clear();
    frames
}

#[test]
fn a_file_sent_by_hand_arrives_in_downloads() {
    let config = ClipboardConfig { sync_enabled: true, sync_images: false };
    let mut client = Session::new(Role::Initiator, ClipboardBridge::new(config), 0);
    let mut server = Session::new(Role::Listener, ClipboardBridge::new(config), 0);
    let mut to_server = Vec::new();
    let mut to_client = Vec::new();
    let mut server_disk = Disk { files: Vec::new(), open: Vec::new() };
    let content = b"hello world!".to_vec();

    let announced = client.send_file("/home/u/a.txt".to_string(), "a.txt".to_string(), 12);
    assert_eq!(
        announced,
        vec![Effect::Send(Frame::FileTransferRequest(FileTransferRequest {
            id: 1,
            filename: "a.txt".to_string(),
            file_size: 12,
            purpose: TransferPurpose::Manual,
        }))]
    );
    for effect in announced {
        match effect {
            Effect::Send(frame) => write_frame(&mut to_server, &frame).unwrap(),
            other => panic!("unexpected effect {:?}", other),
        }
    }

    for frame in deliver(&mut to_server) {
        let effects = server.on_frame(frame, 1);
        server_disk.carry_out(&mut server, effects, &mut to_client);
    }
    let answers = deliver(&mut to_client);
    assert_eq!(
        answers,
        vec![Frame::FileTransferResponse(FileTransferResponse { id: 1, accepted: true })]
    );

    for frame in answers {
        for effect in client.on_frame(frame, 2) {
            match effect {
                Effect::StreamFile { id, path } => {
                    assert_eq!(id, 1);
                    assert_eq!(path, "/home/u/a.txt");
                    let frames = file_frames(id, &content);
                    assert_eq!(
                        frames,
                        vec![
                            Frame::FileData { id: 1, chunk: b"hello world!".to_vec() },
                            Frame::FileEnd { id: 1 },
                        ]
                    );
                    for frame in frames {
                        write_frame(&mut to_server, &frame).unwrap();
                    }
                }
                other => panic!("unexpected effect {:?}", other),
            }
        }
    }

    for frame in deliver(&mut to_server) {
        let effects = server.on_frame(frame, 3);
        server_disk.carry_out(&mut server, effects, &mut to_client);
    }
    assert_eq!(
        server_disk.files,
        vec![("downloads/a.txt".to_string(), b"hello world!".to_vec(), false)]
    );
    assert!(server_disk.open.is_empty());
    assert!(to_client.is_empty());
}

#[test]
fn a_large_file_arrives_byte_for_byte() {
    let config = ClipboardConfig { sync_enabled: true, sync_images: false };
    let mut server = Session::new(Role::Listener, ClipboardBridge::new(config), 0);
    let mut disk = Disk { files: Vec::new(), open: Vec::new() };
    let mut wire = Vec::new();
    let content: Vec<u8> = (0..200_000u32).map(|i| (i * 31 % 256) as u8).collect();
    let request = FileTransferRequest {
        id: 7,
        filename: "big.bin".to_string(),
        file_size: content.len() as u64,
        purpose: TransferPurpose::Manual,
    };
    let effects = server.on_frame(Frame::FileTransferRequest(request), 0);
    disk.carry_out(&mut server, effects, &mut wire);
    for frame in file_frames(7, &content) {
        let effects = server.on_frame(frame, 1);
        disk.carry_out(&mut server, effects, &mut wire);
    }
    assert_eq!(disk.files.len(), 1);
    assert_eq!(disk.files[0].0, "downloads/big.bin");
    assert_eq!(disk.files[0].1, content);
    assert!(!disk.files[0].2);
}
