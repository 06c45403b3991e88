//! The redirection engine: for every raw local input sample it decides whether
//! the sample drives the local machine, is sent to the peer, or is swallowed.
//!
//! Control is either `Local` or `Remote`. While local, the cursor position is
//! tested against the edges on which peers lie; the first edge that is reached
//! hands control to that peer. While remote, the physical cursor is held in the
//! centre of the screen and only the deltas of its movement count: they move a
//! virtual cursor on the peer's screen. When the virtual cursor reaches the edge
//! of the peer's screen that faces the local machine, control comes back.
//!
//! The model `EngineState` with its transition function `step` says what the
//! engine does; `RedirectionEngine::process` is proved to compute `step`.

use vstd::prelude::*;
use crate::config::ScreenPosition;
use crate::config::Topology;
use crate::frame::InputEvent;
use crate::frame::MouseButton;
use crate::frame::ScreenSide;
use crate::held::HeldInput;
use crate::held::HeldState;
use crate::held::note_event;
use crate::held::nothing_held;
use crate::held::releases;

verus! {

/// The value of a normalised coordinate at the right or bottom edge.
pub const UNIT: u32 = 1_000_000;

/// How close to an edge a normalised coordinate has to be to count as having
/// reached it.
pub const EDGE_MARGIN: u32 = 2_000;

/// How far from the edge of the peer's screen the virtual cursor starts.
pub const ENTRY_OFFSET: u32 = 50_000;

/// For how many milliseconds after control came back no edge is tested.
pub const COOLDOWN_MS: u64 = 300;

/// The least number of milliseconds between two cursor positions sent.
pub const MOVE_INTERVAL_MS: u64 = 8;

/// The key that brings control back at once, as a Windows virtual-key code.
pub const ESCAPE_KEY: u32 = 0x1B;

/// How many pixels from the edge the physical cursor is put when control comes
/// back.
pub const RETURN_INSET: u32 = 10;

/// The bounds that stand in for a screen whose size is not known.
pub const FALLBACK_WIDTH: u32 = 1920;

pub const FALLBACK_HEIGHT: u32 = 1080;

/// Who has control, and, while the peer has it, on which side the peer lies and
/// where the virtual cursor is on its screen.
#[derive(Debug, Clone, Copy, PartialEq, Eq, Structural)]
pub enum Control {
    Local,
    Remote { target: ScreenPosition, x: u32, y: u32 },
}

impl Control {
    pub open spec fn side(&self) -> ScreenSide {
        match self {
            Control::Local => ScreenSide::Local,
            Control::Remote { .. } => ScreenSide::Remote,
        }
    }
}

/// One raw sample of local input. Positions and deltas are in pixels, a
/// position is relative to the top left corner of the local screen.
#[derive(Debug, Clone, Copy, PartialEq, Eq, Structural)]
pub enum RawSample {
    Move { x: i32, y: i32, dx: i32, dy: i32 },
    Button { button: MouseButton, is_down: bool },
    Key { key_code: u32, is_down: bool },
    Scroll { dx: i32, dy: i32 },
}

/// A sample with what is known about it: whether the system itself produced it
/// (a cursor warp, an injected event), and when it arrived.
#[derive(Debug, Clone, Copy, PartialEq, Eq, Structural)]
pub struct Sample {
    pub raw: RawSample,
    pub injected: bool,
    pub now_ms: u64,
}

/// Where the physical cursor is to be put after a sample.
#[derive(Debug, Clone, Copy, PartialEq, Eq, Structural)]
pub enum Warp {
    Stay,
    Center,
    To { x: u32, y: u32 },
}

/// What is to be done with a sample.
///
/// `send` goes to the peer, in this order. `release_local` is injected into the
/// local machine. `swallow` says that the local machine must not see the sample.
#[derive(Debug, Clone, PartialEq, Eq)]
pub struct Decision {
    pub send: Vec<InputEvent>,
    pub release_local: Vec<InputEvent>,
    pub swallow: bool,
    pub warp: Warp,
}

pub struct DecisionView {
    pub send: Seq<InputEvent>,
    pub release_local: Seq<InputEvent>,
    pub swallow: bool,
    pub warp: Warp,
}

impl View for Decision {
    type V = DecisionView;

    open spec fn view(&self) -> DecisionView {
        DecisionView {
            send: self.send@,
            release_local: self.release_local@,
            swallow: self.swallow,
            warp: self.warp,
        }
    }
}

/// The decision that leaves a sample to the local machine.
pub open spec fn pass_through() -> DecisionView {
    DecisionView { send: seq![], release_local: seq![], swallow: false, warp: Warp::Stay }
}

/// The decision that keeps a sample from the local machine and sends nothing.
pub open spec fn swallowed() -> DecisionView {
    DecisionView { send: seq![], release_local: seq![], swallow: true, warp: Warp::Stay }
}

/// What is done with an event of the user that is none of the samples, or
/// that cannot be measured: while the peer has control it is kept from the
/// local machine, like everything else that the user does; else it is left
/// alone. The state stays as it is.
pub open spec fn other_input(s: EngineState, injected: bool) -> DecisionView {
    if s.control is Remote && !injected {
        swallowed()
    } else {
        pass_through()
    }
}

/// The state of the engine.
pub struct EngineState {
    pub control: Control,
    /// Whether input capture runs. Until it does, an engine that has control
    /// keeps it.
    pub capturing: bool,
    pub width: u32,
    pub height: u32,
    /// The sides on which peers lie, in the order in which they are tried.
    /// Without it no edge hands control over.
    pub edges: Option<Seq<ScreenPosition>>,
    /// When control last came back.
    pub last_return_ms: Option<u64>,
    /// When a cursor position was last sent.
    pub last_move_ms: Option<u64>,
    /// What is held down on the side that has control.
    pub held: HeldState,
}

impl EngineState {
    pub open spec fn wf(&self) -> bool {
        &&& self.width >= 1
        &&& self.height >= 1
        &&& self.control matches Control::Remote { target, x, y } ==> x <= UNIT && y <= UNIT
    }
}

/// The pixel position `pos` on an axis of `extent` pixels, in millionths of the
/// extent. A position outside the axis counts as the nearer end.
pub open spec fn normalize(pos: i32, extent: u32) -> int {
    let p = if pos < 0 {
        0
    } else if pos > extent {
        extent as int
    } else {
        pos as int
    };
    p * UNIT / (extent as int)
}

/// A movement of `delta` pixels on an axis of `extent` pixels, in millionths of
/// the extent, without its sign.
pub open spec fn delta_magnitude(delta: i32, extent: u32) -> int {
    let d = if delta < 0 {
        -(delta as int)
    } else {
        delta as int
    };
    d * UNIT / (extent as int)
}

/// The virtual coordinate `current` moved by `delta` pixels, kept within
/// `0 ..= UNIT`.
pub open spec fn advance(current: u32, delta: i32, extent: u32) -> int {
    let m = delta_magnitude(delta, extent);
    if delta >= 0 {
        if current + m > UNIT {
            UNIT as int
        } else {
            current + m
        }
    } else {
        if current - m < 0 {
            0
        } else {
            current - m
        }
    }
}

/// The normalised coordinate `value` on an axis of `extent` pixels, in pixels.
pub open spec fn to_pixels(value: u32, extent: u32) -> int {
    (value as int) * (extent as int) / (UNIT as int)
}

/// Whether the local cursor at `(x, y)` has reached the edge on which a peer on
/// `side` lies.
pub open spec fn edge_hit(side: ScreenPosition, x: int, y: int) -> bool {
    match side {
        ScreenPosition::Left => x <= EDGE_MARGIN,
        ScreenPosition::Right => x >= UNIT - EDGE_MARGIN,
        ScreenPosition::Top => y <= EDGE_MARGIN,
        ScreenPosition::Bottom => y >= UNIT - EDGE_MARGIN,
    }
}

/// Whether the virtual cursor at `(x, y)` on the screen of a peer on `side` has
/// reached the edge that faces the local machine.
pub open spec fn return_hit(side: ScreenPosition, x: int, y: int) -> bool {
    match side {
        ScreenPosition::Left => x >= UNIT - EDGE_MARGIN,
        ScreenPosition::Right => x <= EDGE_MARGIN,
        ScreenPosition::Top => y >= UNIT - EDGE_MARGIN,
        ScreenPosition::Bottom => y <= EDGE_MARGIN,
    }
}

/// Where the virtual cursor starts on the screen of a peer on `side`, when the
/// local cursor left at `(x, y)`: near the edge that faces the local machine.
pub open spec fn entry_point(side: ScreenPosition, x: int, y: int) -> (int, int) {
    match side {
        ScreenPosition::Left => (UNIT - ENTRY_OFFSET, y),
        ScreenPosition::Right => (ENTRY_OFFSET as int, y),
        ScreenPosition::Top => (x, UNIT - ENTRY_OFFSET),
        ScreenPosition::Bottom => (x, ENTRY_OFFSET as int),
    }
}

/// The distance in pixels from an edge at which the cursor is put back on an
/// axis of `extent` pixels.
pub open spec fn inset(extent: u32) -> int {
    if extent < RETURN_INSET {
        extent as int
    } else {
        RETURN_INSET as int
    }
}

/// Where the physical cursor is put when control comes back from a peer on
/// `side` whose virtual cursor was at `(x, y)`: just inside the edge through
/// which it had left.
pub open spec fn return_point(side: ScreenPosition, x: u32, y: u32, width: u32, height: u32) -> (
    int,
    int,
) {
    match side {
        ScreenPosition::Left => (inset(width), to_pixels(y, height)),
        ScreenPosition::Right => (width - inset(width), to_pixels(y, height)),
        ScreenPosition::Top => (to_pixels(x, width), inset(height)),
        ScreenPosition::Bottom => (to_pixels(x, width), height - inset(height)),
    }
}

/// The index of the first of `edges`, from `from` on, that the cursor at
/// `(x, y)` has reached.
pub open spec fn first_hit(edges: Seq<ScreenPosition>, x: int, y: int, from: int) -> Option<int>
    decreases edges.len() - from,
{
    if from < 0 || from >= edges.len() {
        None
    } else if edge_hit(edges[from], x, y) {
        Some(from)
    } else {
        first_hit(edges, x, y, from + 1)
    }
}

/// Whether at `now_ms` the pause after control came back is still on.
pub open spec fn in_cooldown(last_return_ms: Option<u64>, now_ms: u64) -> bool {
    match last_return_ms {
        Some(t) => now_ms >= t && now_ms - t < COOLDOWN_MS,
        None => false,
    }
}

/// Whether at `now_ms` a cursor position may be sent.
pub open spec fn move_due(last_move_ms: Option<u64>, now_ms: u64) -> bool {
    match last_move_ms {
        Some(t) => now_ms < t || now_ms - t >= MOVE_INTERVAL_MS,
        None => true,
    }
}

/// `s` with nothing held down.
pub open spec fn released(s: EngineState) -> EngineState {
    EngineState { held: nothing_held(), ..s }
}

/// Control comes back at `now_ms`: the peer is told to let go of what it holds
/// and that control has left it.
pub open spec fn come_back(s: EngineState, now_ms: u64, swallow: bool, warp: Warp) -> (
    EngineState,
    DecisionView,
) {
    (
        EngineState {
            control: Control::Local,
            last_return_ms: Some(now_ms),
            last_move_ms: None,
            ..released(s)
        },
        DecisionView {
            send: releases(s.held).push(InputEvent::ScreenSwitch(ScreenSide::Local)),
            release_local: seq![],
            swallow,
            warp,
        },
    )
}

/// What a cursor movement does while control is local.
pub open spec fn step_move_local(s: EngineState, x: i32, y: i32, now_ms: u64) -> (
    EngineState,
    DecisionView,
) {
    if in_cooldown(s.last_return_ms, now_ms) || s.edges is None {
        (s, pass_through())
    } else {
        let nx = normalize(x, s.width);
        let ny = normalize(y, s.height);
        let edges = s.edges->0;
        match first_hit(edges, nx, ny, 0) {
            Some(i) => {
                let (ex, ey) = entry_point(edges[i], nx, ny);
                (
                    EngineState {
                        control: Control::Remote { target: edges[i], x: ex as u32, y: ey as u32 },
                        last_move_ms: None,
                        ..released(s)
                    },
                    DecisionView {
                        send: seq![InputEvent::ScreenSwitch(ScreenSide::Remote)],
                        release_local: releases(s.held),
                        swallow: true,
                        warp: Warp::Center,
                    },
                )
            },
            None => (s, pass_through()),
        }
    }
}

/// What a cursor movement does while the peer on `target` has control and the
/// virtual cursor is at `(vx, vy)`.
pub open spec fn step_move_remote(
    s: EngineState,
    target: ScreenPosition,
    vx: u32,
    vy: u32,
    dx: i32,
    dy: i32,
    now_ms: u64,
) -> (EngineState, DecisionView) {
    let nx = advance(vx, dx, s.width);
    let ny = advance(vy, dy, s.height);
    if return_hit(target, nx, ny) {
        let (px, py) = return_point(target, nx as u32, ny as u32, s.width, s.height);
        come_back(s, now_ms, false, Warp::To { x: px as u32, y: py as u32 })
    } else {
        let due = move_due(s.last_move_ms, now_ms);
        (
            EngineState {
                control: Control::Remote { target, x: nx as u32, y: ny as u32 },
                last_move_ms: if due {
                    Some(now_ms)
                } else {
                    s.last_move_ms
                },
                ..s
            },
            DecisionView {
                send: if due {
                    seq![InputEvent::MouseMove { x: nx as u32, y: ny as u32 }]
                } else {
                    seq![]
                },
                release_local: seq![],
                swallow: true,
                warp: Warp::Center,
            },
        )
    }
}

/// While the peer has control `event` is sent to it and kept from the local
/// machine; while control is local the sample is left alone.
pub open spec fn forward(s: EngineState, event: InputEvent) -> (EngineState, DecisionView) {
    match s.control {
        Control::Local => (s, pass_through()),
        Control::Remote { .. } => (
            s,
            DecisionView {
                send: seq![event],
                release_local: seq![],
                swallow: true,
                warp: Warp::Stay,
            },
        ),
    }
}

/// The transition function of the engine: the state after `sample`, and what
/// is to be done with the sample.
pub open spec fn step(s: EngineState, sample: Sample) -> (EngineState, DecisionView) {
    if sample.injected || (!s.capturing && s.control is Local) {
        (s, pass_through())
    } else {
        match sample.raw {
            RawSample::Move { x, y, dx, dy } => match s.control {
                Control::Local => step_move_local(s, x, y, sample.now_ms),
                Control::Remote { target, x: vx, y: vy } => step_move_remote(
                    s,
                    target,
                    vx,
                    vy,
                    dx,
                    dy,
                    sample.now_ms,
                ),
            },
            RawSample::Key { key_code, is_down } => {
                if key_code == ESCAPE_KEY && s.control is Remote {
                    come_back(s, sample.now_ms, true, Warp::Stay)
                } else {
                    forward(
                        EngineState {
                            held: note_event(s.held, InputEvent::Keyboard { key_code, is_down }),
                            ..s
                        },
                        InputEvent::Keyboard { key_code, is_down },
                    )
                }
            },
            RawSample::Button { button, is_down } => forward(
                EngineState {
                    held: note_event(s.held, InputEvent::MouseButton { button, is_down }),
                    ..s
                },
                InputEvent::MouseButton { button, is_down },
            ),
            RawSample::Scroll { dx, dy } => forward(s, InputEvent::Scroll { dx, dy }),
        }
    }
}

/// The state after all of `samples`, in their order.
pub open spec fn run(s: EngineState, samples: Seq<Sample>) -> EngineState
    decreases samples.len(),
{
    if samples.len() == 0 {
        s
    } else {
        run(step(s, samples[0]).0, samples.skip(1))
    }
}

/// The sides named by the announcements of a switch among `events`, in their
/// order.
pub open spec fn announced(events: Seq<InputEvent>) -> Seq<ScreenSide>
    decreases events.len(),
{
    if events.len() == 0 {
        seq![]
    } else {
        match events.last() {
            InputEvent::ScreenSwitch(side) => announced(events.drop_last()).push(side),
            _ => announced(events.drop_last()),
        }
    }
}

/// The switches that the engine announces to the peer while it works through
/// `samples`, in their order.
pub open spec fn switch_trace(s: EngineState, samples: Seq<Sample>) -> Seq<ScreenSide>
    decreases samples.len(),
{
    if samples.len() == 0 {
        seq![]
    } else {
        let (next, decision) = step(s, samples[0]);
        announced(decision.send) + switch_trace(next, samples.skip(1))
    }
}

pub open spec fn opposite(side: ScreenSide) -> ScreenSide {
    match side {
        ScreenSide::Local => ScreenSide::Remote,
        ScreenSide::Remote => ScreenSide::Local,
    }
}


/// A position that lies on an axis, in millionths of the axis, is at most
/// `UNIT`.
pub proof fn lemma_normalize_bounds(pos: i32, extent: u32)
    requires
        extent >= 1,
    ensures
        0 <= normalize(pos, extent) <= UNIT,
{
    let p: int = if pos < 0 {
        0
    } else if pos > extent {
        extent as int
    } else {
        pos as int
    };
    lemma_scaled_quotient_bounds(p, UNIT as int, extent as int);
}

/// For `0 <= p <= e`, the quotient `p * u / e` lies between `0` and `u`.
proof fn lemma_scaled_quotient_bounds(p: int, u: int, e: int)
    requires
        0 <= p <= e,
        e >= 1,
        u >= 0,
    ensures
        0 <= p * u / e <= u,
{
    assert(0 <= p * u <= e * u) by (nonlinear_arith)
        requires
            0 <= p <= e,
            u >= 0,
    ;
    vstd::arithmetic::div_mod::lemma_div_is_ordered(p * u, e * u, e);
    vstd::arithmetic::div_mod::lemma_div_multiples_vanish(u, e);
    vstd::arithmetic::div_mod::lemma_div_pos_is_pos(p * u, e);
}

/// A virtual coordinate stays within `0 ..= UNIT`, whatever the delta.
pub proof fn lemma_advance_bounds(current: u32, delta: i32, extent: u32)
    requires
        extent >= 1,
        current <= UNIT,
    ensures
        0 <= advance(current, delta, extent) <= UNIT,
{
    let d: int = if delta < 0 {
        -(delta as int)
    } else {
        delta as int
    };
    vstd::arithmetic::mul::lemma_mul_nonnegative(d, UNIT as int);
    vstd::arithmetic::div_mod::lemma_div_pos_is_pos(d * UNIT, extent as int);
}

/// A normalised coordinate, in pixels, lies on its axis.
pub proof fn lemma_to_pixels_bounds(value: u32, extent: u32)
    requires
        value <= UNIT,
    ensures
        0 <= to_pixels(value, extent) <= extent,
{
    lemma_scaled_quotient_bounds(value as int, extent as int, UNIT as int);
}

fn normalized(pos: i32, extent: u32) -> (r: u32)
    requires
        extent >= 1,
    ensures
        r as int == normalize(pos, extent),
        r <= UNIT,
{
    let p: u64 = if pos < 0 {
        0
    } else if pos as u64 > extent as u64 {
        extent as u64
    } else {
        pos as u64
    };
    proof {
        lemma_normalize_bounds(pos, extent);
        assert(p * (UNIT as u64) <= 0xFFFF_FFFF * 1_000_000) by (nonlinear_arith)
            requires
                p <= 0xFFFF_FFFF,
                UNIT == 1_000_000,
        ;
    }
    let q: u64 = p * (UNIT as u64) / (extent as u64);
    q as u32
}

fn advanced(current: u32, delta: i32, extent: u32) -> (r: u32)
    requires
        extent >= 1,
        current <= UNIT,
    ensures
        r as int == advance(current, delta, extent),
        r <= UNIT,
{
    let d: i64 = delta as i64;
    let m: u64 = if d < 0 {
        (-d) as u64
    } else {
        d as u64
    };
    proof {
        lemma_advance_bounds(current, delta, extent);
        assert(0 <= m * (UNIT as u64) <= 0x8000_0000 * 1_000_000) by (nonlinear_arith)
            requires
                m <= 0x8000_0000,
                UNIT == 1_000_000,
        ;
        vstd::arithmetic::div_mod::lemma_div_is_ordered_by_denominator(
            m * UNIT as int,
            1,
            extent as int,
        );
        vstd::arithmetic::div_mod::lemma_div_basics(m * UNIT as int);
    }
    let mag: u64 = m * (UNIT as u64) / (extent as u64);
    if delta >= 0 {
        let sum: u64 = current as u64 + mag;
        if sum > UNIT as u64 {
            UNIT
        } else {
            sum as u32
        }
    } else {
        if mag > current as u64 {
            0
        } else {
            (current as u64 - mag) as u32
        }
    }
}

pub(crate) fn pixels(value: u32, extent: u32) -> (r: u32)
    requires
        value <= UNIT,
    ensures
        r as int == to_pixels(value, extent),
        r <= extent,
{
    proof {
        lemma_to_pixels_bounds(value, extent);
        assert(value * extent <= 1_000_000 * 0xFFFF_FFFF) by (nonlinear_arith)
            requires
                value <= 1_000_000,
                extent <= 0xFFFF_FFFF,
        ;
    }
    let q: u64 = (value as u64) * (extent as u64) / (UNIT as u64);
    q as u32
}

fn inset_of(extent: u32) -> (r: u32)
    ensures
        r as int == inset(extent),
        r <= extent,
{
    if extent < RETURN_INSET {
        extent
    } else {
        RETURN_INSET
    }
}

fn is_edge_hit(side: ScreenPosition, x: u32, y: u32) -> (hit: bool)
    ensures
        hit == edge_hit(side, x as int, y as int),
{
    match side {
        ScreenPosition::Left => x <= EDGE_MARGIN,
        ScreenPosition::Right => x >= UNIT - EDGE_MARGIN,
        ScreenPosition::Top => y <= EDGE_MARGIN,
        ScreenPosition::Bottom => y >= UNIT - EDGE_MARGIN,
    }
}

fn is_return_hit(side: ScreenPosition, x: u32, y: u32) -> (hit: bool)
    ensures
        hit == return_hit(side, x as int, y as int),
{
    match side {
        ScreenPosition::Left => x >= UNIT - EDGE_MARGIN,
        ScreenPosition::Right => x <= EDGE_MARGIN,
        ScreenPosition::Top => y >= UNIT - EDGE_MARGIN,
        ScreenPosition::Bottom => y <= EDGE_MARGIN,
    }
}

fn find_hit(edges: &Vec<ScreenPosition>, x: u32, y: u32) -> (found: Option<usize>)
    ensures
        match found {
            Some(i) => first_hit(edges@, x as int, y as int, 0) == Some(i as int) && i < edges@.len(),
            None => first_hit(edges@, x as int, y as int, 0) is None,
        },
{
    let mut i: usize = 0;
    while i < edges.len()
        invariant
            i <= edges@.len(),
            first_hit(edges@, x as int, y as int, 0) == first_hit(edges@, x as int, y as int, i as int),
        decreases edges@.len() - i,
    {
        if is_edge_hit(edges[i], x, y) {
            return Some(i);
        }
        i += 1;
    }
    None
}

/// The engine itself. Its state is read through its view.
pub struct RedirectionEngine {
    control: Control,
    capturing: bool,
    width: u32,
    height: u32,
    edges: Option<Vec<ScreenPosition>>,
    last_return_ms: Option<u64>,
    last_move_ms: Option<u64>,
    held: HeldInput,
}

impl View for RedirectionEngine {
    type V = EngineState;

    closed spec fn view(&self) -> EngineState {
        EngineState {
            control: self.control,
            capturing: self.capturing,
            width: self.width,
            height: self.height,
            edges: match self.edges {
                Some(edges) => Some(edges@),
                None => None,
            },
            last_return_ms: self.last_return_ms,
            last_move_ms: self.last_move_ms,
            held: self.held@,
        }
    }
}

/// The bounds that the engine works with for a screen reported as `width` by
/// `height`: the report, or the fallback where the report cannot be a screen.
pub open spec fn usable_bounds(width: u32, height: u32) -> (u32, u32) {
    if width > 1 && height > 1 {
        (width, height)
    } else {
        (FALLBACK_WIDTH, FALLBACK_HEIGHT)
    }
}

impl RedirectionEngine {
    pub open spec fn wf(&self) -> bool {
        self@.wf()
    }

    /// An engine for a local screen of `width` by `height` pixels: control is
    /// local, capture does not run yet and no peer is known.
    pub fn new(width: u32, height: u32) -> (engine: RedirectionEngine)
        ensures
            engine.wf(),
            engine@ == (EngineState {
                control: Control::Local,
                capturing: false,
                width: usable_bounds(width, height).0,
                height: usable_bounds(width, height).1,
                edges: None,
                last_return_ms: None,
                last_move_ms: None,
                held: nothing_held(),
            }),
    {
        let (w, h) = if width > 1 && height > 1 {
            (width, height)
        } else {
            (FALLBACK_WIDTH, FALLBACK_HEIGHT)
        };
        RedirectionEngine {
            control: Control::Local,
            capturing: false,
            width: w,
            height: h,
            edges: None,
            last_return_ms: None,
            last_move_ms: None,
            held: HeldInput::new(),
        }
    }

    /// The local screen now has `width` by `height` pixels.
    pub fn set_bounds(&mut self, width: u32, height: u32)
        requires
            old(self).wf(),
        ensures
            final(self).wf(),
            final(self)@ == (EngineState {
                width: usable_bounds(width, height).0,
                height: usable_bounds(width, height).1,
                ..old(self)@
            }),
    {
        if width > 1 && height > 1 {
            self.width = width;
            self.height = height;
        } else {
            self.width = FALLBACK_WIDTH;
            self.height = FALLBACK_HEIGHT;
        }
    }

    /// Input capture has started, or has failed to start or has stopped.
    pub fn set_capturing(&mut self, capturing: bool)
        requires
            old(self).wf(),
        ensures
            final(self).wf(),
            final(self)@ == (EngineState { capturing, ..old(self)@ }),
    {
        self.capturing = capturing;
    }

    /// From now on the peers of `topology` are those whose edges are tested.
    pub fn update_topology(&mut self, topology: &Topology)
        requires
            old(self).wf(),
        ensures
            final(self).wf(),
            final(self)@ == (EngineState {
                edges: Some(topology.spec_positions()),
                ..old(self)@
            }),
    {
        self.edges = Some(topology.positions());
    }

    /// From now on no peer is known, and no edge hands control over.
    pub fn clear_topology(&mut self)
        requires
            old(self).wf(),
        ensures
            final(self).wf(),
            final(self)@ == (EngineState { edges: None, ..old(self)@ }),
    {
        self.edges = None;
    }

    pub fn control(&self) -> (control: Control)
        ensures
            control == self@.control,
    {
        self.control
    }

    pub fn is_remote(&self) -> (remote: bool)
        ensures
            remote == (self@.control is Remote),
    {
        match self.control {
            Control::Local => false,
            Control::Remote { .. } => true,
        }
    }

    pub fn is_capturing(&self) -> (capturing: bool)
        ensures
            capturing == self@.capturing,
    {
        self.capturing
    }

    /// Whether at `now_ms` the pause after control came back is still on.
    pub fn is_cooling_down(&self, now_ms: u64) -> (cooling: bool)
        ensures
            cooling == in_cooldown(self@.last_return_ms, now_ms),
    {
        match self.last_return_ms {
            Some(t) => now_ms >= t && now_ms - t < COOLDOWN_MS,
            None => false,
        }
    }

    fn return_control(&mut self, now_ms: u64, swallow: bool, warp: Warp) -> (decision: Decision)
        ensures
            final(self)@ == come_back(old(self)@, now_ms, swallow, warp).0,
            decision@ == come_back(old(self)@, now_ms, swallow, warp).1,
    {
        let mut send = self.held.release();
        send.push(InputEvent::ScreenSwitch(ScreenSide::Local));
        self.control = Control::Local;
        self.last_return_ms = Some(now_ms);
        self.last_move_ms = None;
        Decision { send, release_local: Vec::new(), swallow, warp }
    }

    fn pass(&self) -> (decision: Decision)
        ensures
            decision@ == pass_through(),
    {
        Decision { send: Vec::new(), release_local: Vec::new(), swallow: false, warp: Warp::Stay }
    }

    fn forward_event(&self, event: InputEvent) -> (decision: Decision)
        ensures
            decision@ == forward(self@, event).1,
    {
        match self.control {
            Control::Local => self.pass(),
            Control::Remote { .. } => {
                let mut send: Vec<InputEvent> = Vec::new();
                send.push(event);
                Decision { send, release_local: Vec::new(), swallow: true, warp: Warp::Stay }
            },
        }
    }

    fn move_local(&mut self, x: i32, y: i32, now_ms: u64) -> (decision: Decision)
        requires
            old(self).wf(),
        ensures
            final(self)@ == step_move_local(old(self)@, x, y, now_ms).0,
            decision@ == step_move_local(old(self)@, x, y, now_ms).1,
    {
        if self.is_cooling_down(now_ms) {
            return self.pass();
        }
        let nx = normalized(x, self.width);
        let ny = normalized(y, self.height);
        let hit: Option<ScreenPosition> = match &self.edges {
            Some(edges) => match find_hit(edges, nx, ny) {
                Some(i) => Some(edges[i]),
                None => None,
            },
            None => None,
        };
        match hit {
            Some(side) => {
                let (ex, ey) = match side {
                    ScreenPosition::Left => (UNIT - ENTRY_OFFSET, ny),
                    ScreenPosition::Right => (ENTRY_OFFSET, ny),
                    ScreenPosition::Top => (nx, UNIT - ENTRY_OFFSET),
                    ScreenPosition::Bottom => (nx, ENTRY_OFFSET),
                };
                let release_local = self.held.release();
                self.control = Control::Remote { target: side, x: ex, y: ey };
                self.last_move_ms = None;
                let mut send: Vec<InputEvent> = Vec::new();
                send.push(InputEvent::ScreenSwitch(ScreenSide::Remote));
                Decision { send, release_local, swallow: true, warp: Warp::Center }
            },
            None => self.pass(),
        }
    }

    fn move_remote(
        &mut self,
        target: ScreenPosition,
        vx: u32,
        vy: u32,
        dx: i32,
        dy: i32,
        now_ms: u64,
    ) -> (decision: Decision)
        requires
            old(self).wf(),
            vx <= UNIT,
            vy <= UNIT,
        ensures
            final(self)@ == step_move_remote(old(self)@, target, vx, vy, dx, dy, now_ms).0,
            decision@ == step_move_remote(old(self)@, target, vx, vy, dx, dy, now_ms).1,
    {
        let nx = advanced(vx, dx, self.width);
        let ny = advanced(vy, dy, self.height);
        if is_return_hit(target, nx, ny) {
            let (px, py) = match target {
                ScreenPosition::Left => (inset_of(self.width), pixels(ny, self.height)),
                ScreenPosition::Right => (self.width - inset_of(self.width), pixels(ny, self.height)),
                ScreenPosition::Top => (pixels(nx, self.width), inset_of(self.height)),
                ScreenPosition::Bottom => (
                    pixels(nx, self.width),
                    self.height - inset_of(self.height),
                ),
            };
            self.return_control(now_ms, false, Warp::To { x: px, y: py })
        } else {
            let due = match self.last_move_ms {
                Some(t) => now_ms < t || now_ms - t >= MOVE_INTERVAL_MS,
                None => true,
            };
            self.control = Control::Remote { target, x: nx, y: ny };
            let mut send: Vec<InputEvent> = Vec::new();
            if due {
                self.last_move_ms = Some(now_ms);
                send.push(InputEvent::MouseMove { x: nx, y: ny });
            }
            Decision { send, release_local: Vec::new(), swallow: true, warp: Warp::Center }
        }
    }

    /// Takes one sample of local input and says what is to be done with it.
    pub fn process(&mut self, sample: Sample) -> (decision: Decision)
        requires
            old(self).wf(),
        ensures
            final(self).wf(),
            final(self)@ == step(old(self)@, sample).0,
            decision@ == step(old(self)@, sample).1,
    {
        proof {
            lemma_step_keeps_wf(self@, sample);
        }
        if sample.injected || (!self.capturing && !self.is_remote()) {
            return self.pass();
        }
        match sample.raw {
            RawSample::Move { x, y, dx, dy } => match self.control {
                Control::Local => self.move_local(x, y, sample.now_ms),
                Control::Remote { target, x: vx, y: vy } => self.move_remote(
                    target,
                    vx,
                    vy,
                    dx,
                    dy,
                    sample.now_ms,
                ),
            },
            RawSample::Key { key_code, is_down } => {
                if key_code == ESCAPE_KEY && self.is_remote() {
                    self.return_control(sample.now_ms, true, Warp::Stay)
                } else {
                    self.held.note(InputEvent::Keyboard { key_code, is_down });
                    self.forward_event(InputEvent::Keyboard { key_code, is_down })
                }
            },
            RawSample::Button { button, is_down } => {
                self.held.note(InputEvent::MouseButton { button, is_down });
                self.forward_event(InputEvent::MouseButton { button, is_down })
            },
            RawSample::Scroll { dx, dy } => self.forward_event(InputEvent::Scroll { dx, dy }),
        }
    }

    /// Takes an event of the user that is none of the samples, or that cannot
    /// be measured, and says what is to be done with it.
    pub fn process_other(&self, injected: bool) -> (decision: Decision)
        ensures
            decision@ == other_input(self@, injected),
    {
        Decision {
            send: Vec::new(),
            release_local: Vec::new(),
            swallow: self.is_remote() && !injected,
            warp: Warp::Stay,
        }
    }

    /// Brings control back whatever the cursor does: for the end of a
    /// connection. An engine that has control already stays as it is.
    pub fn force_local(&mut self, now_ms: u64) -> (decision: Decision)
        requires
            old(self).wf(),
        ensures
            final(self).wf(),
            final(self)@.control is Local,
            old(self)@.control is Local ==> final(self)@ == old(self)@ && decision@ == pass_through(),
            old(self)@.control is Remote ==> final(self)@ == come_back(
                old(self)@,
                now_ms,
                false,
                Warp::Stay,
            ).0 && decision@ == come_back(old(self)@, now_ms, false, Warp::Stay).1,
    {
        if self.is_remote() {
            self.return_control(now_ms, false, Warp::Stay)
        } else {
            self.pass()
        }
    }
}

/// A step keeps the state well-formed: in particular the virtual cursor stays
/// within `0 ..= UNIT` on both axes.
pub proof fn lemma_step_keeps_wf(s: EngineState, sample: Sample)
    requires
        s.wf(),
    ensures
        step(s, sample).0.wf(),
{
    if !sample.injected {
        match sample.raw {
            RawSample::Move { x, y, dx, dy } => match s.control {
                Control::Local => {
                    lemma_normalize_bounds(x, s.width);
                    lemma_normalize_bounds(y, s.height);
                },
                Control::Remote { target, x: vx, y: vy } => {
                    lemma_advance_bounds(vx, dx, s.width);
                    lemma_advance_bounds(vy, dy, s.height);
                },
            },
            _ => {},
        }
    }
}

/// The virtual cursor is within `0 ..= UNIT` on both axes after any sequence of
/// samples, whatever the size and the sign of their deltas.
pub proof fn lemma_virtual_cursor_in_bounds(s: EngineState, samples: Seq<Sample>)
    requires
        s.wf(),
    ensures
        run(s, samples).wf(),
        run(s, samples).control matches Control::Remote { target, x, y } ==> x <= UNIT && y <= UNIT,
    decreases samples.len(),
{
    if samples.len() > 0 {
        lemma_step_keeps_wf(s, samples[0]);
        lemma_virtual_cursor_in_bounds(step(s, samples[0]).0, samples.skip(1));
    }
}

/// Events none of which announces a switch announce no switch.
proof fn lemma_announced_none(events: Seq<InputEvent>)
    requires
        forall|i: int| 0 <= i < events.len() ==> !(#[trigger] events[i] is ScreenSwitch),
    ensures
        announced(events) == Seq::<ScreenSide>::empty(),
    decreases events.len(),
{
    if events.len() > 0 {
        assert(!(events[events.len() - 1] is ScreenSwitch));
        lemma_announced_none(events.drop_last());
    }
}

/// A step announces a switch exactly when control changes hands, and then it
/// announces the side that now has control, once.
pub proof fn lemma_step_announces_change(s: EngineState, sample: Sample)
    ensures
        ({
            let (next, decision) = step(s, sample);
            announced(decision.send) == (if next.control.side() != s.control.side() {
                seq![next.control.side()]
            } else {
                seq![]
            })
        }),
{
    let (next, decision) = step(s, sample);
    let send = decision.send;
    if send.len() > 0 && send.last() is ScreenSwitch {
        assert(forall|i: int|
            0 <= i < send.drop_last().len() ==> !(#[trigger] send.drop_last()[i] is ScreenSwitch));
        lemma_announced_none(send.drop_last());
        assert(announced(send) =~= seq![next.control.side()]);
    } else {
        assert(forall|i: int| 0 <= i < send.len() ==> !(#[trigger] send[i] is ScreenSwitch));
        lemma_announced_none(send);
    }
}

/// For every sequence of samples the switches that the engine announces
/// alternate strictly: the first hands control to the side that did not have
/// it, and each one after that hands it back.
pub proof fn lemma_switches_alternate(s: EngineState, samples: Seq<Sample>)
    ensures
        forall|i: int|
            0 <= i < switch_trace(s, samples).len() ==> #[trigger] switch_trace(s, samples)[i] == (if i
                % 2 == 0 {
                opposite(s.control.side())
            } else {
                s.control.side()
            }),
    decreases samples.len(),
{
    if samples.len() > 0 {
        let (next, decision) = step(s, samples[0]);
        lemma_step_announces_change(s, samples[0]);
        lemma_switches_alternate(next, samples.skip(1));
        let head = announced(decision.send);
        let rest = switch_trace(next, samples.skip(1));
        assert(switch_trace(s, samples) == head + rest);
        assert forall|i: int| 0 <= i < switch_trace(s, samples).len() implies #[trigger] switch_trace(
            s,
            samples,
        )[i] == (if i % 2 == 0 {
            opposite(s.control.side())
        } else {
            s.control.side()
        }) by {
            if head.len() == 1 && i >= 1 {
                assert((head + rest)[i] == rest[i - 1]);
            }
        }
    }
}

/// Right after control went to a peer the virtual cursor is not at the edge
/// that brings control back.
pub proof fn lemma_entry_is_clear_of_return(side: ScreenPosition, x: int, y: int)
    requires
        edge_hit(side, x, y),
        0 <= x <= UNIT,
        0 <= y <= UNIT,
    ensures
        !return_hit(side, entry_point(side, x, y).0, entry_point(side, x, y).1),
{
}

/// Until capture runs, an engine that has control does nothing: no sample
/// changes its state, and every sample is left to the local machine.
pub proof fn lemma_idle_without_capture(s: EngineState, samples: Seq<Sample>)
    requires
        !s.capturing,
        s.control is Local,
    ensures
        run(s, samples) == s,
        switch_trace(s, samples) == Seq::<ScreenSide>::empty(),
    decreases samples.len(),
{
    if samples.len() > 0 {
        lemma_idle_without_capture(s, samples.skip(1));
        assert(announced(pass_through().send) == Seq::<ScreenSide>::empty());
    }
}

/// Without a topology no cursor movement hands control over.
pub proof fn lemma_no_topology_no_switch(s: EngineState, sample: Sample)
    requires
        s.control is Local,
        s.edges is None,
    ensures
        step(s, sample).0.control is Local,
{
}


/// Whenever control changes hands, the side that loses it is made to let go
/// of everything that was held down there, and nothing counts as held
/// afterwards: when control goes to the peer, the releases are for the local
/// machine; when control comes back, they go to the peer, ahead of the
/// announcement.
pub proof fn lemma_switch_lets_go(s: EngineState, sample: Sample)
    ensures
        ({
            let (next, decision) = step(s, sample);
            &&& s.control is Local && next.control is Remote ==> decision.release_local == releases(
                s.held,
            ) && next.held == nothing_held() && decision.send == seq![
                InputEvent::ScreenSwitch(ScreenSide::Remote),
            ]
            &&& s.control is Remote && next.control is Local ==> decision.send == releases(
                s.held,
            ).push(InputEvent::ScreenSwitch(ScreenSide::Local)) && next.held == nothing_held()
                && decision.release_local == Seq::<InputEvent>::empty()
        }),
{
}

/// While control is local and stays local, a sample is left to the local
/// machine and nothing is sent. While the peer has control, no sample that
/// the user has made reaches the local machine, unless it brings control
/// back by the edge.
pub proof fn lemma_input_goes_to_one_side(s: EngineState, sample: Sample)
    ensures
        ({
            let (next, decision) = step(s, sample);
            &&& s.control is Local && next.control is Local ==> decision == pass_through()
            &&& s.control is Remote && next.control is Remote && !sample.injected
                ==> decision.swallow
            &&& s.control is Remote && !sample.injected && !(sample.raw is Move)
                ==> decision.swallow
            &&& !sample.injected && sample.raw is Move ==> (decision.swallow <==> next.control
                is Remote)
        }),
{
}

/// While the peer has control, the escape key brings control back, wherever
/// the virtual cursor is and whatever is held.
pub proof fn lemma_escape_brings_control_back(s: EngineState, is_down: bool, now_ms: u64)
    ensures
        step(
            s,
            Sample { raw: RawSample::Key { key_code: ESCAPE_KEY, is_down }, injected: false, now_ms },
        ).0.control is Local,
        s.control is Remote ==> step(
            s,
            Sample { raw: RawSample::Key { key_code: ESCAPE_KEY, is_down }, injected: false, now_ms },
        ).1 == (DecisionView {
            send: releases(s.held).push(InputEvent::ScreenSwitch(ScreenSide::Local)),
            release_local: seq![],
            swallow: true,
            warp: Warp::Stay,
        }),
{
}

/// A cursor position that reaches the edge of a peer hands control to that
/// peer, once capture runs and no pause is on: the switch is announced, and
/// the virtual cursor starts on the peer's screen, within `0 ..= UNIT` on both
/// axes, wherever the position lies, be it outside the local screen.
pub proof fn lemma_edge_entry_is_on_screen(s: EngineState, x: i32, y: i32, dx: i32, dy: i32, now_ms: u64)
    requires
        s.wf(),
        s.control is Local,
        s.capturing,
        !in_cooldown(s.last_return_ms, now_ms),
        s.edges is Some,
        first_hit(s.edges->0, normalize(x, s.width), normalize(y, s.height), 0) is Some,
    ensures
        ({
            let (next, decision) = step(
                s,
                Sample { raw: RawSample::Move { x, y, dx, dy }, injected: false, now_ms },
            );
            let hit = first_hit(s.edges->0, normalize(x, s.width), normalize(y, s.height), 0)->0;
            &&& decision.send == seq![InputEvent::ScreenSwitch(ScreenSide::Remote)]
            &&& decision.swallow
            &&& next.control matches Control::Remote { target, x: vx, y: vy } && target
                == s.edges->0[hit] && vx <= UNIT && vy <= UNIT && (vx, vy) == (
                entry_point(target, normalize(x, s.width), normalize(y, s.height)).0 as u32,
                entry_point(target, normalize(x, s.width), normalize(y, s.height)).1 as u32,
            )
        }),
{
    lemma_normalize_bounds(x, s.width);
    lemma_normalize_bounds(y, s.height);
}

/// An event that is none of the samples never changes who has control, and
/// it reaches the local machine exactly while the local machine has control
/// or the system itself has made the event.
pub proof fn lemma_other_input_goes_to_one_side(s: EngineState, injected: bool)
    ensures
        other_input(s, injected).send == Seq::<InputEvent>::empty(),
        other_input(s, injected).swallow <==> s.control is Remote && !injected,
{
}

/// As long as the pause after control came back is on, no cursor position
/// hands control over again.
pub proof fn lemma_cooldown_holds_control(s: EngineState, x: i32, y: i32, dx: i32, dy: i32, now_ms: u64)
    requires
        s.control is Local,
        in_cooldown(s.last_return_ms, now_ms),
    ensures
        step(s, Sample { raw: RawSample::Move { x, y, dx, dy }, injected: false, now_ms }) == (
            s,
            pass_through(),
        ),
{
}

} // verus!
