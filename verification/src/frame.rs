//! The message vocabulary of the wire protocol. Exactly one `Frame` travels in
//! one wire message.

use vstd::prelude::*;
use crate::config::ScreenInfo;

verus! {

/// Which machine the user's input drives.
#[derive(Debug, Clone, Copy, PartialEq, Eq, Structural)]
pub enum ScreenSide {
    Local,
    Remote,
}

#[derive(Debug, Clone, Copy, PartialEq, Eq, Structural)]
pub enum MouseButton {
    Left,
    Right,
    Middle,
}

/// One input sample for the peer.
///
/// `MouseMove` holds a position on the target screen in millionths of its width
/// and height. `Scroll` holds wheel movement in 120ths of a notch, positive
/// away from the user and to the right.
#[derive(Debug, Clone, Copy, PartialEq, Eq, Structural)]
pub enum InputEvent {
    MouseMove { x: u32, y: u32 },
    MouseButton { button: MouseButton, is_down: bool },
    Keyboard { key_code: u32, is_down: bool },
    Scroll { dx: i32, dy: i32 },
    ScreenSwitch(ScreenSide),
}

/// Why a file is sent: on the user's request, or as one file of a clipboard
/// batch.
#[derive(Debug, Clone, Copy, PartialEq, Eq, Structural)]
pub enum TransferPurpose {
    Manual,
    ClipboardSync { batch_id: u64 },
}

#[derive(Debug, Clone, PartialEq, Eq)]
pub struct FileTransferRequest {
    pub id: u32,
    pub filename: String,
    pub file_size: u64,
    pub purpose: TransferPurpose,
}

pub struct FileTransferRequestView {
    pub id: u32,
    pub filename: Seq<char>,
    pub file_size: u64,
    pub purpose: TransferPurpose,
}

impl View for FileTransferRequest {
    type V = FileTransferRequestView;

    open spec fn view(&self) -> FileTransferRequestView {
        FileTransferRequestView {
            id: self.id,
            filename: self.filename@,
            file_size: self.file_size,
            purpose: self.purpose,
        }
    }
}

#[derive(Debug, Clone, Copy, PartialEq, Eq, Structural)]
pub struct FileTransferResponse {
    pub id: u32,
    pub accepted: bool,
}

#[derive(Debug, Clone, PartialEq, Eq)]
pub struct FileMeta {
    pub name: String,
    pub size: u64,
}

pub struct FileMetaView {
    pub name: Seq<char>,
    pub size: u64,
}

impl View for FileMeta {
    type V = FileMetaView;

    open spec fn view(&self) -> FileMetaView {
        FileMetaView { name: self.name@, size: self.size }
    }
}

impl DeepView for FileMeta {
    type V = FileMetaView;

    open spec fn deep_view(&self) -> FileMetaView {
        self@
    }
}

/// The files of one clipboard batch.
#[derive(Debug, Clone, PartialEq, Eq)]
pub struct FileManifest {
    pub files: Vec<FileMeta>,
    pub total_size: u64,
    pub batch_id: u64,
}

pub struct FileManifestView {
    pub files: Seq<FileMetaView>,
    pub total_size: u64,
    pub batch_id: u64,
}

impl View for FileManifest {
    type V = FileManifestView;

    open spec fn view(&self) -> FileManifestView {
        FileManifestView {
            files: self.files.deep_view(),
            total_size: self.total_size,
            batch_id: self.batch_id,
        }
    }
}

/// A change of clipboard content. An image travels as PNG bytes.
#[derive(Debug, Clone, PartialEq, Eq)]
pub enum ClipboardEvent {
    Text(String),
    Image { data: Vec<u8> },
    Files { manifest: FileManifest },
}

pub enum ClipboardEventView {
    Text(Seq<char>),
    Image { data: Seq<u8> },
    Files { manifest: FileManifestView },
}

impl View for ClipboardEvent {
    type V = ClipboardEventView;

    open spec fn view(&self) -> ClipboardEventView {
        match self {
            ClipboardEvent::Text(text) => ClipboardEventView::Text(text@),
            ClipboardEvent::Image { data } => ClipboardEventView::Image { data: data@ },
            ClipboardEvent::Files { manifest } => ClipboardEventView::Files { manifest: manifest@ },
        }
    }
}

#[derive(Debug, Clone, PartialEq, Eq)]
pub struct Handshake {
    pub version: u32,
    pub client_id: String,
    pub capabilities: Vec<String>,
    pub screen_info: Option<ScreenInfo>,
}

pub struct HandshakeView {
    pub version: u32,
    pub client_id: Seq<char>,
    pub capabilities: Seq<Seq<char>>,
    pub screen_info: Option<ScreenInfo>,
}

impl View for Handshake {
    type V = HandshakeView;

    open spec fn view(&self) -> HandshakeView {
        HandshakeView {
            version: self.version,
            client_id: self.client_id@,
            capabilities: self.capabilities.deep_view(),
            screen_info: self.screen_info,
        }
    }
}

#[derive(Debug, Clone, Copy, PartialEq, Eq, Structural)]
pub struct Heartbeat {
    pub timestamp: u64,
}

#[derive(Debug, Clone, PartialEq, Eq)]
pub enum Frame {
    Handshake(Handshake),
    Heartbeat(Heartbeat),
    Input(InputEvent),
    Clipboard(ClipboardEvent),
    FileTransferRequest(FileTransferRequest),
    FileTransferResponse(FileTransferResponse),
    FileData { id: u32, chunk: Vec<u8> },
    FileEnd { id: u32 },
    ScreenSwitch(ScreenSide),
    Notification { title: String, message: String },
}

pub enum FrameView {
    Handshake(HandshakeView),
    Heartbeat(Heartbeat),
    Input(InputEvent),
    Clipboard(ClipboardEventView),
    FileTransferRequest(FileTransferRequestView),
    FileTransferResponse(FileTransferResponse),
    FileData { id: u32, chunk: Seq<u8> },
    FileEnd { id: u32 },
    ScreenSwitch(ScreenSide),
    Notification { title: Seq<char>, message: Seq<char> },
}

impl View for Frame {
    type V = FrameView;

    open spec fn view(&self) -> FrameView {
        match self {
            Frame::Handshake(h) => FrameView::Handshake(h@),
            Frame::Heartbeat(h) => FrameView::Heartbeat(*h),
            Frame::Input(e) => FrameView::Input(*e),
            Frame::Clipboard(e) => FrameView::Clipboard(e@),
            Frame::FileTransferRequest(r) => FrameView::FileTransferRequest(r@),
            Frame::FileTransferResponse(r) => FrameView::FileTransferResponse(*r),
            Frame::FileData { id, chunk } => FrameView::FileData { id: *id, chunk: chunk@ },
            Frame::FileEnd { id } => FrameView::FileEnd { id: *id },
            Frame::ScreenSwitch(side) => FrameView::ScreenSwitch(*side),
            Frame::Notification { title, message } => FrameView::Notification {
                title: title@,
                message: message@,
            },
        }
    }
}

impl DeepView for Frame {
    type V = FrameView;

    open spec fn deep_view(&self) -> FrameView {
        self@
    }
}

} // verus!
