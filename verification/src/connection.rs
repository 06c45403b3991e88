//! The life of one connection: connecting, the handshake, the active session,
//! and what follows its end.
//!
//! The side that initiates a connection tries again after every failure, and
//! waits between the attempts: one second after the first failure, then twice
//! as long each time, up to thirty seconds. A handshake that fails is a failure
//! like a connection that cannot be made; only a handshake that succeeds
//! starts the waits over. The side that listens goes back to listening. A
//! request to disconnect ends either for good.
//!
//! `Connection` decides; the caller connects, sends, sleeps and reports what
//! happened.

use vstd::prelude::*;
use crate::config::ScreenInfo;
use crate::frame::Frame;
use crate::frame::FrameView;
use crate::frame::Handshake;
use crate::frame::HandshakeView;
use crate::frame::Heartbeat;

verus! {

/// The version of the protocol that this library speaks.
pub const PROTOCOL_VERSION: u32 = 1;

/// The wait after the first failure, in seconds.
pub const INITIAL_BACKOFF_SECS: u64 = 1;

/// The longest wait between two attempts, in seconds.
pub const MAX_BACKOFF_SECS: u64 = 30;

/// How long an attempt to connect may take, in milliseconds.
pub const CONNECT_TIMEOUT_MS: u64 = 5_000;

/// How long the peer's handshake may take, in milliseconds.
pub const HANDSHAKE_TIMEOUT_MS: u64 = 5_000;

/// The time between two heartbeats, in milliseconds.
pub const HEARTBEAT_INTERVAL_MS: u64 = 5_000;

/// A peer from which nothing has arrived for this many milliseconds counts as
/// dead.
pub const LIVENESS_TIMEOUT_MS: u64 = 15_000;

/// The wait that follows a wait of `delay_secs` seconds.
pub open spec fn next_delay(delay_secs: u64) -> u64 {
    if 2 * delay_secs >= MAX_BACKOFF_SECS {
        MAX_BACKOFF_SECS
    } else {
        (2 * delay_secs) as u64
    }
}

/// The wait after a failure that `failures` failures in a row went before.
pub open spec fn delay_after(failures: nat) -> u64
    decreases failures,
{
    if failures == 0 {
        INITIAL_BACKOFF_SECS
    } else {
        next_delay(delay_after((failures - 1) as nat))
    }
}

/// The waits between attempts that fail one after the other are 1, 2, 4, 8, 16
/// and 30 seconds, and 30 seconds from then on: no wait is longer than the
/// longest wait, and none is shorter than the one before it.
pub proof fn lemma_backoff_sequence(failures: nat)
    ensures
        delay_after(0) == 1,
        delay_after(1) == 2,
        delay_after(2) == 4,
        delay_after(3) == 8,
        delay_after(4) == 16,
        delay_after(5) == 30,
        failures >= 5 ==> delay_after(failures) == MAX_BACKOFF_SECS,
        1 <= delay_after(failures) <= MAX_BACKOFF_SECS,
        delay_after(failures) <= delay_after(failures + 1),
    decreases failures,
{
    reveal_with_fuel(delay_after, 7);
    if failures > 5 {
        lemma_backoff_sequence((failures - 1) as nat);
    }
}

/// Which side of the connection this machine is.
#[derive(Debug, Clone, Copy, PartialEq, Eq, Structural)]
pub enum Role {
    /// It connects to the peer, and tries again when the connection fails.
    Initiator,
    /// It waits for the peer to connect.
    Listener,
}

#[derive(Debug, Clone, Copy, PartialEq, Eq, Structural)]
pub enum Phase {
    /// An attempt to connect is under way, or the listener waits for a peer.
    Connecting,
    /// The transport is up and the peer's handshake is awaited.
    Handshaking,
    /// The session runs.
    Active,
    /// The initiator waits before it tries again.
    Backoff,
    /// The user has asked to disconnect: nothing follows.
    Closed,
}

/// What has happened to the connection.
#[derive(Debug, Clone, Copy, PartialEq, Eq, Structural)]
pub enum LinkEvent {
    /// The transport is up.
    Connected,
    /// The attempt to connect failed or took too long.
    ConnectFailed,
    /// The peer's first frame is a handshake of this version.
    PeerHandshake { version: u32 },
    /// The peer's first frame is no handshake, did not arrive in time, or the
    /// own handshake could not be sent.
    HandshakeFailed,
    /// The peer closed the connection, reading or writing failed, or the peer
    /// is dead.
    LinkLost,
    /// The wait before the next attempt is over.
    BackoffElapsed,
    /// The user asks to disconnect.
    Disconnect,
}

/// What the caller is to do next.
#[derive(Debug, Clone, Copy, PartialEq, Eq, Structural)]
pub enum Directive {
    /// Nothing: the event does not belong to the phase.
    Ignore,
    /// Try to connect, or, as listener, wait for the next peer.
    Connect,
    /// Exchange handshakes: the initiator sends its own first and then awaits
    /// the peer's, the listener awaits the peer's.
    Handshake { send_first: bool },
    /// The handshake succeeded: the listener answers with its own handshake.
    /// Announce the connection and run the session.
    Activate { reply: bool },
    /// The connection failed. Where a session ran, clean up after it and
    /// announce its end. Announce that the connection is tried again, and
    /// report `BackoffElapsed` after `delay_secs` seconds.
    Retry { delay_secs: u64, was_active: bool },
    /// Where a session ran, clean up after it and announce its end. Then
    /// finish.
    Stop { was_active: bool },
}

pub struct ConnectionState {
    pub role: Role,
    pub phase: Phase,
    /// The wait after the next failure, in seconds.
    pub delay_secs: u64,
}

impl ConnectionState {
    pub open spec fn wf(&self) -> bool {
        1 <= self.delay_secs <= MAX_BACKOFF_SECS
    }
}

/// What follows the end of a connection that had come as far as `phase`: the
/// initiator waits and tries again, the listener waits for the next peer.
pub open spec fn after_failure(s: ConnectionState) -> (ConnectionState, Directive) {
    match s.role {
        Role::Initiator => (
            ConnectionState { phase: Phase::Backoff, ..s },
            Directive::Retry { delay_secs: s.delay_secs, was_active: s.phase is Active },
        ),
        Role::Listener => (
            ConnectionState { phase: Phase::Connecting, ..s },
            if s.phase is Active {
                Directive::Retry { delay_secs: 0, was_active: true }
            } else {
                Directive::Connect
            },
        ),
    }
}

/// The transition function of a connection.
pub open spec fn transition(s: ConnectionState, event: LinkEvent) -> (ConnectionState, Directive) {
    match (s.phase, event) {
        (Phase::Closed, _) => (s, Directive::Ignore),
        (_, LinkEvent::Disconnect) => (
            ConnectionState { phase: Phase::Closed, ..s },
            Directive::Stop { was_active: s.phase is Active },
        ),
        (Phase::Connecting, LinkEvent::Connected) => (
            ConnectionState { phase: Phase::Handshaking, ..s },
            Directive::Handshake { send_first: s.role is Initiator },
        ),
        (Phase::Connecting, LinkEvent::ConnectFailed) => after_failure(s),
        (Phase::Handshaking, LinkEvent::PeerHandshake { version }) => {
            if version == PROTOCOL_VERSION {
                (
                    ConnectionState { phase: Phase::Active, delay_secs: INITIAL_BACKOFF_SECS, ..s },
                    Directive::Activate { reply: s.role is Listener },
                )
            } else {
                after_failure(s)
            }
        },
        (Phase::Handshaking, LinkEvent::HandshakeFailed) => after_failure(s),
        (Phase::Handshaking, LinkEvent::LinkLost) => after_failure(s),
        (Phase::Active, LinkEvent::LinkLost) => after_failure(s),
        (Phase::Backoff, LinkEvent::BackoffElapsed) => (
            ConnectionState { phase: Phase::Connecting, delay_secs: next_delay(s.delay_secs), ..s },
            Directive::Connect,
        ),
        _ => (s, Directive::Ignore),
    }
}

/// One connection, from the first attempt to its end. Its state is read
/// through its view.
pub struct Connection {
    role: Role,
    phase: Phase,
    delay_secs: u64,
}

impl View for Connection {
    type V = ConnectionState;

    closed spec fn view(&self) -> ConnectionState {
        ConnectionState { role: self.role, phase: self.phase, delay_secs: self.delay_secs }
    }
}

impl Connection {
    /// A connection that is about to be tried for the first time. The caller
    /// starts as after `Directive::Connect`.
    pub fn new(role: Role) -> (connection: Connection)
        ensures
            connection@ == (ConnectionState {
                role,
                phase: Phase::Connecting,
                delay_secs: INITIAL_BACKOFF_SECS,
            }),
            connection@.wf(),
    {
        Connection { role, phase: Phase::Connecting, delay_secs: INITIAL_BACKOFF_SECS }
    }

    pub fn phase(&self) -> (phase: Phase)
        ensures
            phase == self@.phase,
    {
        self.phase
    }

    pub fn role(&self) -> (role: Role)
        ensures
            role == self@.role,
    {
        self.role
    }

    fn fail(&mut self) -> (directive: Directive)
        ensures
            final(self)@ == after_failure(old(self)@).0,
            directive == after_failure(old(self)@).1,
    {
        let was_active = match self.phase {
            Phase::Active => true,
            _ => false,
        };
        match self.role {
            Role::Initiator => {
                self.phase = Phase::Backoff;
                Directive::Retry { delay_secs: self.delay_secs, was_active }
            },
            Role::Listener => {
                self.phase = Phase::Connecting;
                if was_active {
                    Directive::Retry { delay_secs: 0, was_active: true }
                } else {
                    Directive::Connect
                }
            },
        }
    }

    /// Takes what has happened and says what is to be done next.
    pub fn on_event(&mut self, event: LinkEvent) -> (directive: Directive)
        ensures
            final(self)@ == transition(old(self)@, event).0,
            directive == transition(old(self)@, event).1,
            old(self)@.wf() ==> final(self)@.wf(),
    {
        match (self.phase, event) {
            (Phase::Closed, _) => Directive::Ignore,
            (phase, LinkEvent::Disconnect) => {
                let was_active = match phase {
                    Phase::Active => true,
                    _ => false,
                };
                self.phase = Phase::Closed;
                Directive::Stop { was_active }
            },
            (Phase::Connecting, LinkEvent::Connected) => {
                self.phase = Phase::Handshaking;
                Directive::Handshake {
                    send_first: match self.role {
                        Role::Initiator => true,
                        Role::Listener => false,
                    },
                }
            },
            (Phase::Connecting, LinkEvent::ConnectFailed) => self.fail(),
            (Phase::Handshaking, LinkEvent::PeerHandshake { version }) => {
                if version == PROTOCOL_VERSION {
                    self.phase = Phase::Active;
                    self.delay_secs = INITIAL_BACKOFF_SECS;
                    Directive::Activate {
                        reply: match self.role {
                            Role::Initiator => false,
                            Role::Listener => true,
                        },
                    }
                } else {
                    self.fail()
                }
            },
            (Phase::Handshaking, LinkEvent::HandshakeFailed) => self.fail(),
            (Phase::Handshaking, LinkEvent::LinkLost) => self.fail(),
            (Phase::Active, LinkEvent::LinkLost) => self.fail(),
            (Phase::Backoff, LinkEvent::BackoffElapsed) => {
                self.phase = Phase::Connecting;
                self.delay_secs = if self.delay_secs >= MAX_BACKOFF_SECS / 2 {
                    MAX_BACKOFF_SECS
                } else {
                    2 * self.delay_secs
                };
                Directive::Connect
            },
            _ => Directive::Ignore,
        }
    }
}

/// Whether `event` is one of the ways in which an attempt fails: the
/// connection cannot be made, or it is made and the handshake does not arrive,
/// is no handshake, is of another version, or the link is lost meanwhile.
pub open spec fn is_failure(event: LinkEvent) -> bool {
    match event {
        LinkEvent::ConnectFailed => true,
        LinkEvent::HandshakeFailed => true,
        LinkEvent::LinkLost => true,
        LinkEvent::PeerHandshake { version } => version != PROTOCOL_VERSION,
        _ => false,
    }
}

/// The state after an attempt that fails by `failure`, and what is to be done
/// then. Every failure but that to connect comes after the transport is up.
pub open spec fn failed_attempt(s: ConnectionState, failure: LinkEvent) -> (
    ConnectionState,
    Directive,
) {
    if failure is ConnectFailed {
        transition(s, failure)
    } else {
        transition(transition(s, LinkEvent::Connected).0, failure)
    }
}

/// The state of an initiator after the attempts have failed by `failures`,
/// one after the other, and the wait after each of them is over.
pub open spec fn after_failures(s: ConnectionState, failures: Seq<LinkEvent>) -> ConnectionState
    decreases failures.len(),
{
    if failures.len() == 0 {
        s
    } else {
        let before = after_failures(s, failures.drop_last());
        transition(failed_attempt(before, failures.last()).0, LinkEvent::BackoffElapsed).0
    }
}

/// An initiator whose attempts fail one after the other waits 1, 2, 4, 8, 16,
/// 30, 30, ... seconds, however they fail: to connect, or in the handshake.
/// The wait after the failure that `failures.len()` failures went before is
/// `delay_after(failures.len())`. It counts from the last handshake that
/// succeeded, or from the start.
pub proof fn lemma_repeated_failures(s: ConnectionState, failures: Seq<LinkEvent>, next: LinkEvent)
    requires
        s.role is Initiator,
        s.phase is Connecting,
        s.delay_secs == INITIAL_BACKOFF_SECS,
        forall|i: int| 0 <= i < failures.len() ==> is_failure(#[trigger] failures[i]),
        is_failure(next),
    ensures
        after_failures(s, failures).phase is Connecting,
        after_failures(s, failures).role is Initiator,
        after_failures(s, failures).delay_secs == delay_after(failures.len()),
        failed_attempt(after_failures(s, failures), next).1 == (Directive::Retry {
            delay_secs: delay_after(failures.len()),
            was_active: false,
        }),
    decreases failures.len(),
{
    if failures.len() > 0 {
        lemma_repeated_failures(s, failures.drop_last(), failures.last());
    }
}

/// Only a handshake that succeeds starts the waits over: after it the next
/// failure is followed by the shortest wait. Nothing else shortens the wait;
/// that the transport is up does not.
pub proof fn lemma_backoff_resets_on_connect(s: ConnectionState, event: LinkEvent)
    requires
        s.wf(),
    ensures
        transition(s, event).0.wf(),
        s.phase is Handshaking && event == (LinkEvent::PeerHandshake { version: PROTOCOL_VERSION })
            ==> transition(s, event).0.delay_secs == INITIAL_BACKOFF_SECS,
        !(s.phase is Handshaking && event == (LinkEvent::PeerHandshake {
            version: PROTOCOL_VERSION,
        })) ==> transition(s, event).0.delay_secs >= s.delay_secs,
{
}

/// After failures in a row, however many and of whatever kind, an attempt
/// that succeeds brings a session; and when that session is lost, the wait is
/// the shortest again.
pub proof fn lemma_session_starts_the_waits_over(s: ConnectionState, failures: Seq<LinkEvent>)
    requires
        s.role is Initiator,
        s.phase is Connecting,
        s.delay_secs == INITIAL_BACKOFF_SECS,
        forall|i: int| 0 <= i < failures.len() ==> is_failure(#[trigger] failures[i]),
    ensures
        ({
            let up = transition(after_failures(s, failures), LinkEvent::Connected);
            let active = transition(up.0, LinkEvent::PeerHandshake { version: PROTOCOL_VERSION });
            let lost = transition(active.0, LinkEvent::LinkLost);
            &&& up.1 == (Directive::Handshake { send_first: true })
            &&& active.1 == (Directive::Activate { reply: false })
            &&& lost.1 == (Directive::Retry { delay_secs: INITIAL_BACKOFF_SECS, was_active: true })
        }),
{
    lemma_repeated_failures(s, failures, LinkEvent::ConnectFailed);
}

/// A request to disconnect ends the connection in every phase, and after it
/// nothing happens any more.
pub proof fn lemma_disconnect_is_final(s: ConnectionState, later: LinkEvent)
    ensures
        transition(s, LinkEvent::Disconnect).0.phase is Closed,
        !(s.phase is Closed) ==> transition(s, LinkEvent::Disconnect).1 is Stop,
        transition(transition(s, LinkEvent::Disconnect).0, later) == (
            transition(s, LinkEvent::Disconnect).0,
            Directive::Ignore,
        ),
{
}

/// The handshake that this side sends.
pub open spec fn own_handshake(client_id: Seq<char>, screen_info: Option<ScreenInfo>) -> FrameView {
    FrameView::Handshake(
        HandshakeView {
            version: PROTOCOL_VERSION,
            client_id,
            capabilities: seq!["input"@, "clipboard"@],
            screen_info,
        },
    )
}

/// The handshake of this side: it names the version of the protocol, the
/// identifier `client_id`, the capabilities `input` and `clipboard`, and the
/// local screen where it is known.
pub fn make_handshake(client_id: String, screen_info: Option<ScreenInfo>) -> (frame: Frame)
    ensures
        frame@ == own_handshake(client_id@, screen_info),
{
    let mut capabilities: Vec<String> = Vec::new();
    capabilities.push("input".to_owned());
    capabilities.push("clipboard".to_owned());
    assert(capabilities.deep_view() =~= seq!["input"@, "clipboard"@]);
    Frame::Handshake(Handshake { version: PROTOCOL_VERSION, client_id, capabilities, screen_info })
}

/// What the first frame of the peer means for the connection.
pub open spec fn handshake_event(frame: FrameView) -> LinkEvent {
    match frame {
        FrameView::Handshake(h) => LinkEvent::PeerHandshake { version: h.version },
        _ => LinkEvent::HandshakeFailed,
    }
}

/// What the first frame of the peer means for the connection: a handshake
/// with its version, or a failure.
pub fn classify_handshake(frame: &Frame) -> (event: LinkEvent)
    ensures
        event == handshake_event(frame@),
{
    match frame {
        Frame::Handshake(h) => LinkEvent::PeerHandshake { version: h.version },
        _ => LinkEvent::HandshakeFailed,
    }
}

/// The milliseconds from `then_ms` to `now_ms`; none where the clock went
/// back.
pub open spec fn elapsed(then_ms: u64, now_ms: u64) -> int {
    if now_ms >= then_ms {
        now_ms - then_ms
    } else {
        0
    }
}

/// What a look at the clock leads to.
#[derive(Debug, Clone, Copy, PartialEq, Eq, Structural)]
pub enum Tick {
    Idle,
    /// A heartbeat with this time stamp is to be sent.
    SendHeartbeat(Heartbeat),
    /// Nothing has arrived for too long: the connection counts as lost.
    PeerDead,
}

pub struct LivenessState {
    pub last_inbound_ms: u64,
    pub last_heartbeat_ms: u64,
}

/// The state after a look at the clock at `now_ms`, and what it leads to.
pub open spec fn tick(s: LivenessState, now_ms: u64) -> (LivenessState, Tick) {
    if elapsed(s.last_inbound_ms, now_ms) >= LIVENESS_TIMEOUT_MS {
        (s, Tick::PeerDead)
    } else if elapsed(s.last_heartbeat_ms, now_ms) >= HEARTBEAT_INTERVAL_MS {
        (
            LivenessState { last_heartbeat_ms: now_ms, ..s },
            Tick::SendHeartbeat(Heartbeat { timestamp: now_ms / 1000 }),
        )
    } else {
        (s, Tick::Idle)
    }
}

/// The timers of an active session: when to send a heartbeat, and when to give
/// the peer up.
pub struct Liveness {
    last_inbound_ms: u64,
    last_heartbeat_ms: u64,
}

impl View for Liveness {
    type V = LivenessState;

    closed spec fn view(&self) -> LivenessState {
        LivenessState {
            last_inbound_ms: self.last_inbound_ms,
            last_heartbeat_ms: self.last_heartbeat_ms,
        }
    }
}

impl Liveness {
    /// The timers of a session that becomes active at `now_ms`.
    pub fn new(now_ms: u64) -> (liveness: Liveness)
        ensures
            liveness@ == (LivenessState { last_inbound_ms: now_ms, last_heartbeat_ms: now_ms }),
    {
        Liveness { last_inbound_ms: now_ms, last_heartbeat_ms: now_ms }
    }

    /// Something has arrived from the peer at `now_ms`.
    pub fn on_inbound(&mut self, now_ms: u64)
        ensures
            final(self)@ == (LivenessState { last_inbound_ms: now_ms, ..old(self)@ }),
    {
        self.last_inbound_ms = now_ms;
    }

    /// A look at the clock at `now_ms`.
    pub fn on_tick(&mut self, now_ms: u64) -> (outcome: Tick)
        ensures
            final(self)@ == tick(old(self)@, now_ms).0,
            outcome == tick(old(self)@, now_ms).1,
    {
        let silent: u64 = if now_ms >= self.last_inbound_ms {
            now_ms - self.last_inbound_ms
        } else {
            0
        };
        let quiet: u64 = if now_ms >= self.last_heartbeat_ms {
            now_ms - self.last_heartbeat_ms
        } else {
            0
        };
        if silent >= LIVENESS_TIMEOUT_MS {
            Tick::PeerDead
        } else if quiet >= HEARTBEAT_INTERVAL_MS {
            self.last_heartbeat_ms = now_ms;
            Tick::SendHeartbeat(Heartbeat { timestamp: now_ms / 1000 })
        } else {
            Tick::Idle
        }
    }
}

/// A peer that has sent anything within the liveness timeout is not given up,
/// and one that has been silent for the whole of it is.
pub proof fn lemma_liveness(s: LivenessState, now_ms: u64)
    ensures
        tick(s, now_ms).1 is PeerDead <==> now_ms >= s.last_inbound_ms && now_ms - s.last_inbound_ms
            >= LIVENESS_TIMEOUT_MS,
{
}

} // verus!
