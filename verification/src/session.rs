//! The active session: what is done with every frame that arrives, with every
//! change of the local clipboard, with the user's commands and with the clock.
//!
//! A `Session` owns the books of one connection and answers every occurrence
//! with a list of effects, which the caller carries out in their order: frames
//! to send, input to inject, clipboard content to set, files to create, write
//! and close. The books are made when a connection is established and dropped
//! when it ends; only the clipboard bridge with its fingerprint lives on.

use vstd::prelude::*;
use crate::clipboard::Apply;
use crate::clipboard::ApplyView;
use crate::clipboard::BridgeState;
use crate::clipboard::ClipboardBridge;
use crate::clipboard::ClipboardSnapshot;
use crate::clipboard::Outbound;
use crate::clipboard::OutboundView;
use crate::clipboard::SnapshotView;
use crate::clipboard::files_received;
use crate::clipboard::lemma_no_echo;
use crate::clipboard::outbound;
use crate::clipboard::receive;
use crate::clipboard::shows;
use crate::config::AppConfig;
use crate::config::AppConfigView;
use crate::connection::Directive;
use crate::connection::Liveness;
use crate::connection::LivenessState;
use crate::connection::Role;
use crate::connection::Tick;
use crate::connection::tick;
use crate::frame::ClipboardEvent;
use crate::frame::ClipboardEventView;
use crate::frame::FileMeta;
use crate::frame::FileMetaView;
use crate::frame::FileTransferRequest;
use crate::frame::FileTransferRequestView;
use crate::frame::FileTransferResponse;
use crate::frame::Frame;
use crate::frame::FrameView;
use crate::frame::InputEvent;
use crate::frame::ScreenSide;
use crate::frame::TransferPurpose;
use crate::transfer::EndOutcome;
use crate::transfer::EndView;
use crate::transfer::IncomingState;
use crate::transfer::IncomingTransfers;
use crate::transfer::OutgoingState;
use crate::transfer::OutgoingTransfers;
use crate::transfer::SaveTarget;
use crate::transfer::announce;
use crate::transfer::answered;
use crate::transfer::created;
use crate::transfer::destination;
use crate::transfer::dropped;
use crate::transfer::end_file;
use crate::transfer::expect_batch;
use crate::transfer::idle;
use crate::transfer::is_plain_name;

verus! {

#[derive(Debug, Clone, Copy, PartialEq, Eq, Structural)]
pub enum LogLevel {
    Trace,
    Debug,
    Info,
    Warn,
    Error,
}

/// What the session tells the user interface. The strings of `Waiting`,
/// `Connecting`, `Reconnecting` and `Connected` are addresses.
#[derive(Debug, Clone, PartialEq, Eq)]
pub enum SessionEvent {
    Log { level: LogLevel, message: String },
    Waiting(String),
    Connecting(String),
    Reconnecting(String),
    Connected(String),
    Disconnected,
    Error(String),
}

pub enum SessionEventView {
    Log { level: LogLevel, message: Seq<char> },
    Waiting(Seq<char>),
    Connecting(Seq<char>),
    Reconnecting(Seq<char>),
    Connected(Seq<char>),
    Disconnected,
    Error(Seq<char>),
}

impl View for SessionEvent {
    type V = SessionEventView;

    open spec fn view(&self) -> SessionEventView {
        match self {
            SessionEvent::Log { level, message } => SessionEventView::Log {
                level: *level,
                message: message@,
            },
            SessionEvent::Waiting(address) => SessionEventView::Waiting(address@),
            SessionEvent::Connecting(address) => SessionEventView::Connecting(address@),
            SessionEvent::Reconnecting(address) => SessionEventView::Reconnecting(address@),
            SessionEvent::Connected(address) => SessionEventView::Connected(address@),
            SessionEvent::Disconnected => SessionEventView::Disconnected,
            SessionEvent::Error(message) => SessionEventView::Error(message@),
        }
    }
}

impl DeepView for SessionEvent {
    type V = SessionEventView;

    open spec fn deep_view(&self) -> SessionEventView {
        self@
    }
}

/// What the user asks of the session. `SendFile` holds the path of the file.
#[derive(Debug, Clone, PartialEq, Eq)]
pub enum SessionCommand {
    SendFile(String),
    UpdateConfig(AppConfig),
    Disconnect,
}

/// What the user interface is told when the connection takes the turn
/// `directive`; `address` is that of the peer, or the one listened on.
pub open spec fn announcements(role: Role, directive: Directive, address: Seq<char>) -> Seq<
    SessionEventView,
> {
    match directive {
        Directive::Ignore => seq![],
        Directive::Connect => match role {
            Role::Initiator => seq![SessionEventView::Connecting(address)],
            Role::Listener => seq![SessionEventView::Waiting(address)],
        },
        Directive::Handshake { .. } => seq![],
        Directive::Activate { .. } => seq![SessionEventView::Connected(address)],
        Directive::Retry { was_active, .. } => (if was_active {
            seq![SessionEventView::Disconnected]
        } else {
            seq![]
        }) + (match role {
            Role::Initiator => seq![SessionEventView::Reconnecting(address)],
            Role::Listener => seq![SessionEventView::Waiting(address)],
        }),
        Directive::Stop { was_active } => if was_active {
            seq![SessionEventView::Disconnected]
        } else {
            seq![]
        },
    }
}

/// What the user interface is to be told when the connection takes the turn
/// `directive`.
pub fn announce_directive(role: Role, directive: Directive, address: &String) -> (events: Vec<
    SessionEvent,
>)
    ensures
        events.deep_view() == announcements(role, directive, address@),
{
    let mut events: Vec<SessionEvent> = Vec::new();
    match directive {
        Directive::Ignore => {},
        Directive::Connect => match role {
            Role::Initiator => {
                events.push(SessionEvent::Connecting(address.clone()));
            },
            Role::Listener => {
                events.push(SessionEvent::Waiting(address.clone()));
            },
        },
        Directive::Handshake { .. } => {},
        Directive::Activate { .. } => {
            events.push(SessionEvent::Connected(address.clone()));
        },
        Directive::Retry { was_active, .. } => {
            if was_active {
                events.push(SessionEvent::Disconnected);
            }
            match role {
                Role::Initiator => {
                    events.push(SessionEvent::Reconnecting(address.clone()));
                },
                Role::Listener => {
                    events.push(SessionEvent::Waiting(address.clone()));
                },
            }
        },
        Directive::Stop { was_active } => {
            if was_active {
                events.push(SessionEvent::Disconnected);
            }
        },
    }
    assert(events.deep_view() =~= announcements(role, directive, address@));
    events
}

/// One thing that the caller is to do.
#[derive(Debug, Clone, PartialEq, Eq)]
pub enum Effect {
    /// Queue the frame for the peer.
    Send(Frame),
    /// Reproduce the input on this machine.
    Inject(InputEvent),
    /// Let go of every key and button that injected input holds down.
    ResetInput,
    /// Bring control back to this machine.
    ForceLocal,
    SetText(String),
    SetImage(Vec<u8>),
    /// Put the files at these paths on the clipboard.
    SetFiles(Vec<String>),
    /// Create the file for the request at the target, and report with
    /// `on_file_created` whether and where it was created.
    CreateFile { request: FileTransferRequest, target: SaveTarget },
    /// Append the chunk to the file of the transfer; report a failure with
    /// `on_write_failed`.
    AppendFile { id: u32, chunk: Vec<u8> },
    /// Flush and close the file of the transfer.
    CloseFile { id: u32 },
    /// Read the file at the path and send it as the transfer.
    StreamFile { id: u32, path: String },
    /// Tell the user what the peer notifies of.
    Notify { title: String, message: String },
    /// Hand the configuration to input capture and injection.
    Configure(AppConfig),
    /// Tell the user that the file cannot be announced: it has no name, or no
    /// number is left for it.
    RefuseFile { path: String },
}

pub enum EffectView {
    Send(FrameView),
    Inject(InputEvent),
    ResetInput,
    ForceLocal,
    SetText(Seq<char>),
    SetImage(Seq<u8>),
    SetFiles(Seq<Seq<char>>),
    CreateFile { request: FileTransferRequestView, target: SaveTarget },
    AppendFile { id: u32, chunk: Seq<u8> },
    CloseFile { id: u32 },
    StreamFile { id: u32, path: Seq<char> },
    Notify { title: Seq<char>, message: Seq<char> },
    Configure(AppConfigView),
    RefuseFile { path: Seq<char> },
}

impl View for Effect {
    type V = EffectView;

    open spec fn view(&self) -> EffectView {
        match self {
            Effect::Send(frame) => EffectView::Send(frame@),
            Effect::Inject(event) => EffectView::Inject(*event),
            Effect::ResetInput => EffectView::ResetInput,
            Effect::ForceLocal => EffectView::ForceLocal,
            Effect::SetText(text) => EffectView::SetText(text@),
            Effect::SetImage(data) => EffectView::SetImage(data@),
            Effect::SetFiles(paths) => EffectView::SetFiles(paths.deep_view()),
            Effect::CreateFile { request, target } => EffectView::CreateFile {
                request: request@,
                target: *target,
            },
            Effect::AppendFile { id, chunk } => EffectView::AppendFile { id: *id, chunk: chunk@ },
            Effect::CloseFile { id } => EffectView::CloseFile { id: *id },
            Effect::StreamFile { id, path } => EffectView::StreamFile { id: *id, path: path@ },
            Effect::Notify { title, message } => EffectView::Notify {
                title: title@,
                message: message@,
            },
            Effect::Configure(config) => EffectView::Configure(config@),
            Effect::RefuseFile { path } => EffectView::RefuseFile { path: path@ },
        }
    }
}

impl DeepView for Effect {
    type V = EffectView;

    open spec fn deep_view(&self) -> EffectView {
        self@
    }
}

/// The books of an active session.
pub struct SessionState {
    pub role: Role,
    pub bridge: BridgeState,
    pub incoming: IncomingState,
    pub outgoing: OutgoingState,
    pub liveness: LivenessState,
}

/// What is done with an input event from the peer. The initiator is the
/// machine that the peer drives: it injects the input, and lets go of what is
/// held down when the peer says that control has left it. The listener is the
/// machine whose input is captured: when the peer reports a switch, it makes
/// sure that it has control itself.
pub open spec fn input_effects(role: Role, event: InputEvent) -> Seq<EffectView> {
    match role {
        Role::Initiator => match event {
            InputEvent::ScreenSwitch(ScreenSide::Local) => seq![EffectView::ResetInput],
            InputEvent::ScreenSwitch(ScreenSide::Remote) => seq![],
            _ => seq![EffectView::Inject(event)],
        },
        Role::Listener => match event {
            InputEvent::ScreenSwitch(_) => seq![EffectView::ForceLocal],
            _ => seq![],
        },
    }
}

/// What is done with a clipboard event from the peer.
pub open spec fn clipboard_effects(s: SessionState, event: ClipboardEventView) -> (
    SessionState,
    Seq<EffectView>,
) {
    let (bridge, apply) = receive(s.bridge, event);
    match apply {
        ApplyView::Ignore => (SessionState { bridge, ..s }, seq![]),
        ApplyView::SetText(text) => (SessionState { bridge, ..s }, seq![EffectView::SetText(text)]),
        ApplyView::SetImage(data) => (
            SessionState { bridge, ..s },
            seq![EffectView::SetImage(data)],
        ),
        ApplyView::ExpectFiles(manifest) => (
            SessionState { bridge, incoming: expect_batch(s.incoming, manifest), ..s },
            seq![],
        ),
    }
}

/// What is done with the end frame of transfer `id`.
pub open spec fn end_effects(s: SessionState, id: u32) -> (SessionState, Seq<EffectView>) {
    let (incoming, outcome) = end_file(s.incoming, id);
    match outcome {
        EndView::Ignored => (SessionState { incoming, ..s }, seq![]),
        EndView::Closed => (SessionState { incoming, ..s }, seq![EffectView::CloseFile { id }]),
        EndView::BatchComplete { batch_id, paths } => (
            SessionState { incoming, bridge: files_received(s.bridge, paths), ..s },
            seq![EffectView::CloseFile { id }, EffectView::SetFiles(paths)],
        ),
    }
}

/// The session after `frame` arrived at `now_ms`, and what is to be done.
pub open spec fn handle_frame(s: SessionState, frame: FrameView, now_ms: u64) -> (
    SessionState,
    Seq<EffectView>,
) {
    let s = SessionState {
        liveness: LivenessState { last_inbound_ms: now_ms, ..s.liveness },
        ..s
    };
    match frame {
        FrameView::Handshake(_) => (s, seq![]),
        FrameView::Heartbeat(heartbeat) => (
            s,
            match s.role {
                Role::Listener => seq![EffectView::Send(FrameView::Heartbeat(heartbeat))],
                Role::Initiator => seq![],
            },
        ),
        FrameView::Input(event) => (s, input_effects(s.role, event)),
        FrameView::Clipboard(event) => clipboard_effects(s, event),
        FrameView::FileTransferRequest(request) => (
            s,
            match destination(s.incoming, request) {
                Some(target) => seq![EffectView::CreateFile { request, target }],
                None => seq![
                    EffectView::Send(
                        FrameView::FileTransferResponse(
                            FileTransferResponse { id: request.id, accepted: false },
                        ),
                    ),
                ],
            },
        ),
        FrameView::FileTransferResponse(response) => {
            let (outgoing, path) = answered(s.outgoing, response);
            (
                SessionState { outgoing, ..s },
                match path {
                    Some(path) => seq![EffectView::StreamFile { id: response.id, path }],
                    None => seq![],
                },
            )
        },
        FrameView::FileData { id, chunk } => (
            s,
            if s.incoming.active.contains_key(id) {
                seq![EffectView::AppendFile { id, chunk }]
            } else {
                seq![]
            },
        ),
        FrameView::FileEnd { id } => end_effects(s, id),
        FrameView::ScreenSwitch(_) => (s, seq![]),
        FrameView::Notification { title, message } => (
            s,
            seq![EffectView::Notify { title, message }],
        ),
    }
}

/// The session after the file for `request` was created at `path`, or could
/// not be created: the peer gets its answer.
pub open spec fn handle_created(
    s: SessionState,
    request: FileTransferRequestView,
    path: Option<Seq<char>>,
) -> (SessionState, Seq<EffectView>) {
    let (incoming, accepted) = created(s.incoming, request, path);
    (
        SessionState { incoming, ..s },
        seq![
            EffectView::Send(
                FrameView::FileTransferResponse(FileTransferResponse { id: request.id, accepted }),
            ),
        ],
    )
}

/// The session after the user asked to send the file at `path`, which is
/// called `filename` and has `file_size` bytes.
pub open spec fn handle_send_file(
    s: SessionState,
    path: Seq<char>,
    filename: Seq<char>,
    file_size: u64,
) -> (SessionState, Seq<EffectView>) {
    let (outgoing, request) = announce(s.outgoing, path, filename, file_size, TransferPurpose::Manual);
    (
        SessionState { outgoing, ..s },
        match request {
            Some(request) => seq![EffectView::Send(FrameView::FileTransferRequest(request))],
            None => seq![EffectView::RefuseFile { path }],
        },
    )
}

/// The books after the files at `paths`, from index `from` on, were announced
/// as files of the batch `batch_id`, each with the name and size of its entry
/// in `metas`, and the requests to send. A file that cannot be announced is
/// left out.
pub open spec fn announce_files(
    out: OutgoingState,
    paths: Seq<Seq<char>>,
    metas: Seq<FileMetaView>,
    batch_id: u64,
    from: int,
) -> (OutgoingState, Seq<EffectView>)
    decreases paths.len() - from,
{
    if from < 0 || from >= paths.len() || from >= metas.len() {
        (out, seq![])
    } else {
        let (next, request) = announce(
            out,
            paths[from],
            metas[from].name,
            metas[from].size,
            TransferPurpose::ClipboardSync { batch_id },
        );
        let (last, effects) = announce_files(next, paths, metas, batch_id, from + 1);
        (
            last,
            (match request {
                Some(request) => seq![EffectView::Send(FrameView::FileTransferRequest(request))],
                None => seq![],
            }) + effects,
        )
    }
}

/// The title and the message by which the peer is told that copied files are
/// too large to be sent.
pub open spec fn skipped_notice() -> FrameView {
    FrameView::Notification { title: "Clipboard Sync Skipped"@, message: "files > 10MB"@ }
}

/// The session after the local clipboard changed to `snapshot`.
pub open spec fn handle_clipboard(s: SessionState, snapshot: SnapshotView, batch_id: u64) -> (
    SessionState,
    Seq<EffectView>,
) {
    match outbound(s.bridge, snapshot, batch_id) {
        OutboundView::Nothing => (s, seq![]),
        OutboundView::Event(event) => (s, seq![EffectView::Send(FrameView::Clipboard(event))]),
        OutboundView::TooLarge => (s, seq![EffectView::Send(skipped_notice())]),
        OutboundView::Files { manifest, paths } => {
            let (outgoing, requests) = announce_files(s.outgoing, paths, manifest.files, batch_id, 0);
            (
                SessionState { outgoing, ..s },
                seq![
                    EffectView::Send(FrameView::Clipboard(ClipboardEventView::Files { manifest })),
                ] + requests,
            )
        },
    }
}

/// The session after a look at the clock at `now_ms`, what is to be done, and
/// whether the peer is given up.
pub open spec fn handle_tick(s: SessionState, now_ms: u64) -> (SessionState, Seq<EffectView>, bool) {
    let (liveness, outcome) = tick(s.liveness, now_ms);
    (
        SessionState { liveness, ..s },
        match outcome {
            Tick::SendHeartbeat(heartbeat) => seq![
                EffectView::Send(FrameView::Heartbeat(heartbeat)),
            ],
            _ => seq![],
        },
        outcome is PeerDead,
    )
}

/// The session after its connection has ended, for whatever reason: control
/// is brought back, held input is let go, and transfers and batches that were
/// under way are given up. The clipboard bridge stays as it is.
pub open spec fn handle_close(s: SessionState) -> (SessionState, Seq<EffectView>) {
    (
        SessionState {
            incoming: idle(),
            outgoing: OutgoingState { pending: Map::empty(), ..s.outgoing },
            ..s
        },
        seq![EffectView::ForceLocal, EffectView::ResetInput],
    )
}

/// An active session. Its books are read through its view.
pub struct Session {
    role: Role,
    bridge: ClipboardBridge,
    incoming: IncomingTransfers,
    outgoing: OutgoingTransfers,
    liveness: Liveness,
}

impl View for Session {
    type V = SessionState;

    closed spec fn view(&self) -> SessionState {
        SessionState {
            role: self.role,
            bridge: self.bridge@,
            incoming: self.incoming@,
            outgoing: self.outgoing@,
            liveness: self.liveness@,
        }
    }
}

fn single(effect: Effect) -> (effects: Vec<Effect>)
    ensures
        effects.deep_view() == seq![effect@],
{
    let mut effects: Vec<Effect> = Vec::new();
    effects.push(effect);
    assert(effects.deep_view() =~= seq![effect@]);
    effects
}

fn nothing() -> (effects: Vec<Effect>)
    ensures
        effects.deep_view() == Seq::<EffectView>::empty(),
{
    let effects: Vec<Effect> = Vec::new();
    assert(effects.deep_view() =~= Seq::<EffectView>::empty());
    effects
}

impl Session {
    /// The session of a connection that becomes active at `now_ms`, with the
    /// clipboard bridge that outlives the connections.
    pub fn new(role: Role, bridge: ClipboardBridge, now_ms: u64) -> (session: Session)
        ensures
            session@ == (SessionState {
                role,
                bridge: bridge@,
                incoming: idle(),
                outgoing: OutgoingState { counter: 0, pending: Map::empty() },
                liveness: LivenessState { last_inbound_ms: now_ms, last_heartbeat_ms: now_ms },
            }),
            session@.outgoing.wf(),
    {
        Session {
            role,
            bridge,
            incoming: IncomingTransfers::new(),
            outgoing: OutgoingTransfers::new(),
            liveness: Liveness::new(now_ms),
        }
    }

    /// Gives the clipboard bridge back, for the session of the next
    /// connection.
    pub fn into_bridge(self) -> (bridge: ClipboardBridge)
        ensures
            bridge@ == self@.bridge,
    {
        self.bridge
    }

    fn on_input(&self, event: InputEvent) -> (effects: Vec<Effect>)
        ensures
            effects.deep_view() == input_effects(self@.role, event),
    {
        match self.role {
            Role::Initiator => match event {
                InputEvent::ScreenSwitch(ScreenSide::Local) => single(Effect::ResetInput),
                InputEvent::ScreenSwitch(ScreenSide::Remote) => nothing(),
                _ => single(Effect::Inject(event)),
            },
            Role::Listener => match event {
                InputEvent::ScreenSwitch(_) => single(Effect::ForceLocal),
                _ => nothing(),
            },
        }
    }

    fn on_clipboard(&mut self, event: ClipboardEvent) -> (effects: Vec<Effect>)
        ensures
            final(self)@ == clipboard_effects(old(self)@, event@).0,
            effects.deep_view() == clipboard_effects(old(self)@, event@).1,
    {
        match self.bridge.on_remote(event) {
            Apply::Ignore => nothing(),
            Apply::SetText(text) => single(Effect::SetText(text)),
            Apply::SetImage(data) => single(Effect::SetImage(data)),
            Apply::ExpectFiles(manifest) => {
                self.incoming.on_manifest(&manifest);
                nothing()
            },
        }
    }

    fn on_end(&mut self, id: u32) -> (effects: Vec<Effect>)
        ensures
            final(self)@ == end_effects(old(self)@, id).0,
            effects.deep_view() == end_effects(old(self)@, id).1,
    {
        match self.incoming.on_end(id) {
            EndOutcome::Ignored => nothing(),
            EndOutcome::Closed => single(Effect::CloseFile { id }),
            EndOutcome::BatchComplete { batch_id, paths } => {
                self.bridge.record_files(&paths);
                let mut effects: Vec<Effect> = Vec::new();
                effects.push(Effect::CloseFile { id });
                effects.push(Effect::SetFiles(paths));
                assert(effects.deep_view() =~= seq![
                    EffectView::CloseFile { id },
                    EffectView::SetFiles(paths.deep_view()),
                ]);
                effects
            },
        }
    }

    /// A frame has arrived from the peer at `now_ms`.
    pub fn on_frame(&mut self, frame: Frame, now_ms: u64) -> (effects: Vec<Effect>)
        ensures
            final(self)@ == handle_frame(old(self)@, frame@, now_ms).0,
            effects.deep_view() == handle_frame(old(self)@, frame@, now_ms).1,
    {
        self.liveness.on_inbound(now_ms);
        match frame {
            Frame::Handshake(_) => nothing(),
            Frame::Heartbeat(heartbeat) => match self.role {
                Role::Listener => single(Effect::Send(Frame::Heartbeat(heartbeat))),
                Role::Initiator => nothing(),
            },
            Frame::Input(event) => self.on_input(event),
            Frame::Clipboard(event) => self.on_clipboard(event),
            Frame::FileTransferRequest(request) => match self.incoming.plan_request(&request) {
                Some(target) => single(Effect::CreateFile { request, target }),
                None => single(
                    Effect::Send(
                        Frame::FileTransferResponse(
                            FileTransferResponse { id: request.id, accepted: false },
                        ),
                    ),
                ),
            },
            Frame::FileTransferResponse(response) => match self.outgoing.on_response(response) {
                Some(path) => single(Effect::StreamFile { id: response.id, path }),
                None => nothing(),
            },
            Frame::FileData { id, chunk } => {
                if self.incoming.accepts_data(id) {
                    single(Effect::AppendFile { id, chunk })
                } else {
                    nothing()
                }
            },
            Frame::FileEnd { id } => self.on_end(id),
            Frame::ScreenSwitch(_) => nothing(),
            Frame::Notification { title, message } => single(Effect::Notify { title, message }),
        }
    }

    /// The file for `request` was created at `path`, or could not be created.
    pub fn on_file_created(&mut self, request: &FileTransferRequest, path: Option<String>) -> (effects:
        Vec<Effect>)
        ensures
            final(self)@ == handle_created(
                old(self)@,
                request@,
                match path {
                    Some(p) => Some(p@),
                    None => None,
                },
            ).0,
            effects.deep_view() == handle_created(
                old(self)@,
                request@,
                match path {
                    Some(p) => Some(p@),
                    None => None,
                },
            ).1,
    {
        let response = self.incoming.on_created(request, path);
        single(Effect::Send(Frame::FileTransferResponse(response)))
    }

    /// A chunk of transfer `id` could not be written: that transfer is given
    /// up, the session and the other transfers go on.
    pub fn on_write_failed(&mut self, id: u32)
        ensures
            final(self)@ == (SessionState { incoming: dropped(old(self)@.incoming, id), ..old(self)@ }),
    {
        self.incoming.on_write_failed(id);
    }

    /// The user asks to send the file at `path`, which exists, is called
    /// `filename` and has `file_size` bytes.
    pub fn send_file(&mut self, path: String, filename: String, file_size: u64) -> (effects: Vec<
        Effect,
    >)
        ensures
            final(self)@ == handle_send_file(old(self)@, path@, filename@, file_size).0,
            effects.deep_view() == handle_send_file(old(self)@, path@, filename@, file_size).1,
    {
        let kept = path.clone();
        match self.outgoing.queue(path, filename, file_size, TransferPurpose::Manual) {
            Some(request) => single(Effect::Send(Frame::FileTransferRequest(request))),
            None => single(Effect::RefuseFile { path: kept }),
        }
    }

    /// The user has changed the configuration.
    pub fn update_config(&mut self, config: AppConfig) -> (effects: Vec<Effect>)
        ensures
            final(self)@ == (SessionState {
                bridge: BridgeState { config: config.clipboard, ..old(self)@.bridge },
                ..old(self)@
            }),
            effects.deep_view() == seq![EffectView::Configure(config@)],
    {
        self.bridge.update_config(config.clipboard);
        single(Effect::Configure(config))
    }

    fn queue_batch(&mut self, paths: &Vec<String>, metas: &Vec<FileMeta>, batch_id: u64) -> (effects:
        Vec<Effect>)
        ensures
            final(self)@ == (SessionState {
                outgoing: announce_files(
                    old(self)@.outgoing,
                    paths.deep_view(),
                    metas.deep_view(),
                    batch_id,
                    0,
                ).0,
                ..old(self)@
            }),
            effects.deep_view() == announce_files(
                old(self)@.outgoing,
                paths.deep_view(),
                metas.deep_view(),
                batch_id,
                0,
            ).1,
    {
        let mut effects: Vec<Effect> = Vec::new();
        let mut i: usize = 0;
        let ghost all = announce_files(
            self@.outgoing,
            paths.deep_view(),
            metas.deep_view(),
            batch_id,
            0,
        );
        while i < paths.len() && i < metas.len()
            invariant
                i <= paths@.len(),
                i <= metas@.len(),
                self@ == (SessionState { outgoing: self@.outgoing, ..old(self)@ }),
                all == ({
                    let (last, rest) = announce_files(
                        self@.outgoing,
                        paths.deep_view(),
                        metas.deep_view(),
                        batch_id,
                        i as int,
                    );
                    (last, effects.deep_view() + rest)
                }),
            decreases paths@.len() - i,
        {
            let ghost before = effects.deep_view();
            let ghost out = self@.outgoing;
            let request = self.outgoing.queue(
                paths[i].clone(),
                metas[i].name.clone(),
                metas[i].size,
                TransferPurpose::ClipboardSync { batch_id },
            );
            proof {
                assert(paths.deep_view()[i as int] == paths@[i as int]@);
                assert(metas.deep_view()[i as int] == metas@[i as int]@);
            }
            match request {
                Some(request) => {
                    effects.push(Effect::Send(Frame::FileTransferRequest(request)));
                    proof {
                        assert(effects.deep_view() =~= before.push(
                            EffectView::Send(FrameView::FileTransferRequest(request@)),
                        ));
                        let (last, rest) = announce_files(
                            self@.outgoing,
                            paths.deep_view(),
                            metas.deep_view(),
                            batch_id,
                            i + 1,
                        );
                        assert(before + (seq![
                            EffectView::Send(FrameView::FileTransferRequest(request@)),
                        ] + rest) =~= effects.deep_view() + rest);
                    }
                },
                None => {
                    proof {
                        let (last, rest) = announce_files(
                            self@.outgoing,
                            paths.deep_view(),
                            metas.deep_view(),
                            batch_id,
                            i + 1,
                        );
                        assert(before + (Seq::<EffectView>::empty() + rest) =~= effects.deep_view()
                            + rest);
                    }
                },
            }
            i += 1;
        }
        proof {
            assert(effects.deep_view() + Seq::<EffectView>::empty() =~= effects.deep_view());
        }
        effects
    }

    /// The local clipboard has changed and now holds `snapshot`. A batch of
    /// files that is sent gets the number `batch_id`.
    pub fn on_local_clipboard(&mut self, snapshot: ClipboardSnapshot, batch_id: u64) -> (effects: Vec<
        Effect,
    >)
        ensures
            final(self)@ == handle_clipboard(old(self)@, snapshot@, batch_id).0,
            effects.deep_view() == handle_clipboard(old(self)@, snapshot@, batch_id).1,
    {
        match self.bridge.on_local_change(snapshot, batch_id) {
            Outbound::Nothing => nothing(),
            Outbound::Event(event) => single(Effect::Send(Frame::Clipboard(event))),
            Outbound::TooLarge => single(
                Effect::Send(
                    Frame::Notification {
                        title: "Clipboard Sync Skipped".to_owned(),
                        message: "files > 10MB".to_owned(),
                    },
                ),
            ),
            Outbound::Files { manifest, paths } => {
                let requests = self.queue_batch(&paths, &manifest.files, batch_id);
                let mut effects: Vec<Effect> = Vec::new();
                let ghost shown = manifest@;
                effects.push(Effect::Send(Frame::Clipboard(ClipboardEvent::Files { manifest })));
                let ghost head = effects.deep_view();
                let mut requests = requests;
                let ghost tail = requests.deep_view();
                effects.append(&mut requests);
                assert(effects.deep_view() =~= seq![
                    EffectView::Send(
                        FrameView::Clipboard(ClipboardEventView::Files { manifest: shown }),
                    ),
                ] + tail);
                effects
            },
        }
    }

    /// A look at the clock at `now_ms`. Where the second result is `true` the
    /// peer is given up: the connection is to be reported as lost.
    pub fn on_tick(&mut self, now_ms: u64) -> (result: (Vec<Effect>, bool))
        ensures
            final(self)@ == handle_tick(old(self)@, now_ms).0,
            result.0.deep_view() == handle_tick(old(self)@, now_ms).1,
            result.1 == handle_tick(old(self)@, now_ms).2,
    {
        match self.liveness.on_tick(now_ms) {
            Tick::Idle => (nothing(), false),
            Tick::SendHeartbeat(heartbeat) => (
                single(Effect::Send(Frame::Heartbeat(heartbeat))),
                false,
            ),
            Tick::PeerDead => (nothing(), true),
        }
    }

    /// The connection has ended.
    pub fn close(&mut self) -> (effects: Vec<Effect>)
        ensures
            final(self)@ == handle_close(old(self)@).0,
            effects.deep_view() == handle_close(old(self)@).1,
    {
        self.incoming.abandon();
        self.outgoing.abandon();
        let mut effects: Vec<Effect> = Vec::new();
        effects.push(Effect::ForceLocal);
        effects.push(Effect::ResetInput);
        assert(effects.deep_view() =~= seq![EffectView::ForceLocal, EffectView::ResetInput]);
        effects
    }
}

/// However a session ends, control is brought back and held input is let go,
/// and nothing that was being received is left on the books: a batch that was
/// not complete is handed over by no later frame.
pub proof fn lemma_close_releases(s: SessionState, id: u32)
    ensures
        handle_close(s).1 == seq![EffectView::ForceLocal, EffectView::ResetInput],
        handle_close(s).0.incoming == idle(),
        handle_close(s).0.bridge == s.bridge,
        end_effects(handle_close(s).0, id).1 == Seq::<EffectView>::empty(),
{
}

/// A frame for a transfer that is not on the books does nothing to the files:
/// data is not written, an end closes nothing.
pub proof fn lemma_unknown_transfer_is_ignored(s: SessionState, id: u32, chunk: Seq<u8>, now_ms: u64)
    requires
        !s.incoming.active.contains_key(id),
    ensures
        handle_frame(s, FrameView::FileData { id, chunk }, now_ms).1 == Seq::<EffectView>::empty(),
        handle_frame(s, FrameView::FileEnd { id }, now_ms).1 == Seq::<EffectView>::empty(),
{
}


/// The session after the end frames of the transfers `ids`, in their order,
/// and everything that is to be done for them.
pub open spec fn end_all(s: SessionState, ids: Seq<u32>) -> (SessionState, Seq<EffectView>)
    decreases ids.len(),
{
    if ids.len() == 0 {
        (s, seq![])
    } else {
        let (next, first) = end_effects(s, ids[0]);
        let (last, others) = end_all(next, ids.skip(1));
        (last, first + others)
    }
}

/// How often `effects` put files on the clipboard.
pub open spec fn clipboard_file_updates(effects: Seq<EffectView>) -> nat
    decreases effects.len(),
{
    if effects.len() == 0 {
        0
    } else {
        clipboard_file_updates(effects.drop_last()) + (if effects.last() is SetFiles {
            1nat
        } else {
            0nat
        })
    }
}

proof fn lemma_updates_add(a: Seq<EffectView>, b: Seq<EffectView>)
    ensures
        clipboard_file_updates(a + b) == clipboard_file_updates(a) + clipboard_file_updates(b),
    decreases b.len(),
{
    if b.len() == 0 {
        assert(a + b =~= a);
    } else {
        assert((a + b).drop_last() =~= a + b.drop_last());
        assert((a + b).last() == b.last());
        lemma_updates_add(a, b.drop_last());
    }
}

/// Of a batch whose manifest announced `n` files: when the end frames of `n`
/// transfers of the batch have arrived, the files have been put on the
/// clipboard exactly once, with the last of the frames, and their fingerprint
/// is the one that the bridge remembers; as long as fewer have arrived,
/// nothing has been put on the clipboard and the bridge is as it was.
pub proof fn lemma_batch_sets_clipboard_once(s: SessionState, batch_id: u64, ids: Seq<u32>)
    requires
        s.incoming.batches.contains_key(batch_id),
        s.incoming.batches[batch_id].remaining >= 1,
        ids.len() <= s.incoming.batches[batch_id].remaining,
        ids.no_duplicates(),
        forall|i: int|
            0 <= i < ids.len() ==> s.incoming.active.contains_key(#[trigger] ids[i])
                && s.incoming.active[ids[i]].batch == Some(batch_id),
    ensures
        ({
            let n = s.incoming.batches[batch_id].remaining;
            let (last, effects) = end_all(s, ids);
            &&& ids.len() < n ==> clipboard_file_updates(effects) == 0 && last.bridge == s.bridge
                && last.incoming.batches.contains_key(batch_id)
                && last.incoming.batches[batch_id].remaining == n - ids.len()
            &&& ids.len() == n ==> clipboard_file_updates(effects) == 1 && effects.last()
                is SetFiles && last.bridge == files_received(s.bridge, effects.last()->SetFiles_0)
                && !last.incoming.batches.contains_key(batch_id)
        }),
    decreases ids.len(),
{
    let n = s.incoming.batches[batch_id].remaining;
    reveal_with_fuel(clipboard_file_updates, 3);
    if ids.len() > 0 {
        let (next, first) = end_effects(s, ids[0]);
        let rest = ids.skip(1);
        let (last, others) = end_all(next, rest);
        assert(end_all(s, ids) == (last, first + others));
        assert(s.incoming.active.contains_key(ids[0]) && s.incoming.active[ids[0]].batch == Some(
            batch_id,
        ));
        lemma_updates_add(first, others);
        if n > 1 {
            assert(first == seq![EffectView::CloseFile { id: ids[0] }]);
            assert(first.drop_last() =~= Seq::<EffectView>::empty());
            assert(clipboard_file_updates(first) == 0);
            assert(next.incoming.batches[batch_id].remaining == n - 1);
            assert forall|i: int| 0 <= i < rest.len() implies next.incoming.active.contains_key(
                #[trigger] rest[i],
            ) && next.incoming.active[rest[i]].batch == Some(batch_id) by {
                assert(rest[i] == ids[i + 1]);
                assert(ids[i + 1] != ids[0]);
            }
            assert(rest.no_duplicates()) by {
                assert forall|i: int, j: int|
                    0 <= i < rest.len() && 0 <= j < rest.len() && i != j implies rest[i]
                    != rest[j] by {
                    assert(rest[i] == ids[i + 1]);
                    assert(rest[j] == ids[j + 1]);
                }
            }
            lemma_batch_sets_clipboard_once(next, batch_id, rest);
            if ids.len() == n {
                assert((first + others).last() == others.last());
            }
        } else {
            assert(rest.len() == 0);
            assert(others =~= Seq::<EffectView>::empty());
            assert(first + others =~= first);
            assert(first.len() == 2);
            assert(first.drop_last() =~= seq![EffectView::CloseFile { id: ids[0] }]);
            assert(first.drop_last().drop_last() =~= Seq::<EffectView>::empty());
            assert(clipboard_file_updates(first) == 1);
        }
    } else {
        assert(end_all(s, ids).1 =~= Seq::<EffectView>::empty());
    }
}


/// After a clipboard event of the peer was taken in, once or twice in a row,
/// the change of the local clipboard that shows the event's content sends
/// nothing to the peer.
pub proof fn lemma_received_content_is_not_echoed(
    s: SessionState,
    event: ClipboardEventView,
    snapshot: SnapshotView,
    batch_id: u64,
    now_ms: u64,
)
    requires
        shows(snapshot, event),
    ensures
        ({
            let once = handle_frame(s, FrameView::Clipboard(event), now_ms).0;
            let twice = handle_frame(once, FrameView::Clipboard(event), now_ms).0;
            &&& handle_clipboard(once, snapshot, batch_id) == (once, Seq::<EffectView>::empty())
            &&& handle_clipboard(twice, snapshot, batch_id) == (twice, Seq::<EffectView>::empty())
        }),
{
    let once = handle_frame(s, FrameView::Clipboard(event), now_ms).0;
    lemma_no_echo(s.bridge, event, snapshot, batch_id);
    lemma_no_echo(once.bridge, event, snapshot, batch_id);
}


/// A request whose file name is no plain name, so that the file could come
/// to lie outside the directory for it, is refused at once: no file is
/// created for it, whatever the caller reports, and nothing of it is written.
pub proof fn lemma_foreign_names_are_refused(
    s: SessionState,
    request: FileTransferRequestView,
    path: Option<Seq<char>>,
    chunk: Seq<u8>,
    now_ms: u64,
)
    requires
        !is_plain_name(request.filename),
        !s.incoming.active.contains_key(request.id),
    ensures
        ({
            let refusal = seq![
                EffectView::Send(
                    FrameView::FileTransferResponse(
                        FileTransferResponse { id: request.id, accepted: false },
                    ),
                ),
            ];
            let (asked, answer) = handle_frame(s, FrameView::FileTransferRequest(request), now_ms);
            let (reported, second) = handle_created(asked, request, path);
            &&& answer == refusal
            &&& second == refusal
            &&& reported.incoming == s.incoming
            &&& handle_frame(reported, FrameView::FileData { id: request.id, chunk }, now_ms).1
                == Seq::<EffectView>::empty()
        }),
{
}

} // verus!
