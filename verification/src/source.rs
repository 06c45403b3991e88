//! Input sources: they take what the capture hooks of a platform see, bring
//! it into the form of a sample and ask the redirection engine what is to be
//! done with it.
//!
//! A source owns an engine. What differs between the platforms is only how a
//! hook describes an event; what is decided is the engine's business.

use vstd::prelude::*;
use crate::config::AppConfig;
use crate::config::SCALE_ONE;
use crate::config::ScreenInfo;
use crate::config::spec_dpi_scale;
use crate::frame::InputEvent;
use crate::frame::MouseButton;
use crate::held::nothing_held;
use crate::keymap::macos_to_windows_vk;
use crate::keymap::spec_macos_to_windows_vk;
use crate::redirect::Control;
use crate::redirect::Decision;
use crate::redirect::DecisionView;
use crate::redirect::EngineState;
use crate::redirect::FALLBACK_HEIGHT;
use crate::redirect::FALLBACK_WIDTH;
use crate::redirect::RawSample;
use crate::redirect::RedirectionEngine;
use crate::redirect::Sample;
use crate::redirect::Warp;
use crate::redirect::come_back;
use crate::redirect::lemma_input_goes_to_one_side;
use crate::redirect::other_input;
use crate::redirect::pass_through;
use crate::redirect::step;
use crate::redirect::usable_bounds;

verus! {

// The messages of the Windows keyboard and mouse hooks.
pub const WM_KEYDOWN: u32 = 0x0100;

pub const WM_SYSKEYDOWN: u32 = 0x0104;

pub const WM_MOUSEMOVE: u32 = 0x0200;

pub const WM_LBUTTONDOWN: u32 = 0x0201;

pub const WM_LBUTTONUP: u32 = 0x0202;

pub const WM_RBUTTONDOWN: u32 = 0x0204;

pub const WM_RBUTTONUP: u32 = 0x0205;

pub const WM_MBUTTONDOWN: u32 = 0x0207;

pub const WM_MBUTTONUP: u32 = 0x0208;

pub const WM_MOUSEWHEEL: u32 = 0x020A;

pub const WM_MOUSEHWHEEL: u32 = 0x020E;

/// The bits of the mouse hook's flags that mark an event as injected.
pub const INJECTED_FLAGS: u32 = 0x03;

/// The bits of the keyboard hook's flags that mark an event as injected. The
/// lowest bit of these flags marks an extended key and is no such mark.
pub const KEY_INJECTED_FLAGS: u32 = 0x12;

/// The number of wheel units of one notch.
pub const WHEEL_DELTA: i32 = 120;

/// The virtual screen of a Windows machine, in pixels.
#[derive(Debug, Clone, Copy, PartialEq, Eq, Structural)]
pub struct Metrics {
    pub left: i32,
    pub top: i32,
    pub width: i32,
    pub height: i32,
}

impl Metrics {
    /// Whether the metrics describe a screen.
    pub open spec fn is_usable(&self) -> bool {
        self.width >= 1 && self.height >= 1
    }
}

/// `value` as a 32-bit number; a value outside the range counts as the nearer
/// end of the range.
pub open spec fn saturate(value: int) -> i32 {
    if value > i32::MAX {
        i32::MAX
    } else if value < i32::MIN {
        i32::MIN
    } else {
        value as i32
    }
}

/// The turn of the wheel that the high word of `mouse_data` stands for, a
/// signed 16-bit number.
pub open spec fn wheel_turn(mouse_data: u32) -> i32 {
    let high = mouse_data / 0x1_0000;
    if high >= 0x8000 {
        (high - 0x1_0000) as i32
    } else {
        high as i32
    }
}

/// The sample that a Windows mouse hook has seen: the message `msg` with the
/// cursor at `(x, y)` on the virtual screen. While the peer has control the
/// cursor is put back to the centre after every movement, so the distance
/// from the centre is the movement. A message that is none of the mouse's is
/// no sample.
pub open spec fn windows_mouse_sample(m: Metrics, msg: u32, x: i32, y: i32, mouse_data: u32) -> Option<
    RawSample,
> {
    if msg == WM_MOUSEMOVE {
        Some(
            RawSample::Move {
                x: saturate(x - m.left),
                y: saturate(y - m.top),
                dx: saturate(x - (m.left + m.width / 2)),
                dy: saturate(y - (m.top + m.height / 2)),
            },
        )
    } else if msg == WM_LBUTTONDOWN || msg == WM_LBUTTONUP {
        Some(RawSample::Button { button: MouseButton::Left, is_down: msg == WM_LBUTTONDOWN })
    } else if msg == WM_RBUTTONDOWN || msg == WM_RBUTTONUP {
        Some(RawSample::Button { button: MouseButton::Right, is_down: msg == WM_RBUTTONDOWN })
    } else if msg == WM_MBUTTONDOWN || msg == WM_MBUTTONUP {
        Some(RawSample::Button { button: MouseButton::Middle, is_down: msg == WM_MBUTTONDOWN })
    } else if msg == WM_MOUSEWHEEL {
        Some(RawSample::Scroll { dx: 0, dy: wheel_turn(mouse_data) })
    } else if msg == WM_MOUSEHWHEEL {
        Some(RawSample::Scroll { dx: wheel_turn(mouse_data), dy: 0 })
    } else {
        None
    }
}

/// The sample that a Windows keyboard hook has seen.
pub open spec fn windows_key_sample(msg: u32, vk_code: u32) -> RawSample {
    RawSample::Key { key_code: vk_code, is_down: msg == WM_KEYDOWN || msg == WM_SYSKEYDOWN }
}

fn saturated(value: i64) -> (r: i32)
    ensures
        r == saturate(value as int),
{
    if value > i32::MAX as i64 {
        i32::MAX
    } else if value < i32::MIN as i64 {
        i32::MIN
    } else {
        value as i32
    }
}

fn turn_of(mouse_data: u32) -> (r: i32)
    ensures
        r == wheel_turn(mouse_data),
{
    let high: u32 = mouse_data / 0x1_0000;
    if high >= 0x8000 {
        (high as i64 - 0x1_0000) as i32
    } else {
        high as i32
    }
}

pub struct WindowsSourceState {
    pub engine: EngineState,
    pub metrics: Option<Metrics>,
}

/// The engine after an event, and what is to be done with the event. An
/// event that is no sample leaves the engine as it is; it is kept from the
/// local machine while the peer has control, unless the system itself has
/// made it.
pub open spec fn feed(engine: EngineState, raw: Option<RawSample>, injected: bool, now_ms: u64) -> (
    EngineState,
    DecisionView,
) {
    match raw {
        Some(raw) => step(engine, Sample { raw, injected, now_ms }),
        None => (engine, other_input(engine, injected)),
    }
}

/// The sample that a Windows mouse hook has seen, where the virtual screen
/// has been measured. Without metrics no mouse message is a sample.
pub open spec fn measured_mouse_sample(
    metrics: Option<Metrics>,
    msg: u32,
    x: i32,
    y: i32,
    mouse_data: u32,
) -> Option<RawSample> {
    match metrics {
        Some(m) => windows_mouse_sample(m, msg, x, y, mouse_data),
        None => None,
    }
}

/// The state of an engine that has just been made for a screen that is not
/// measured yet.
pub open spec fn fresh_engine() -> EngineState {
    EngineState {
        control: Control::Local,
        capturing: false,
        width: FALLBACK_WIDTH,
        height: FALLBACK_HEIGHT,
        edges: None,
        last_return_ms: None,
        last_move_ms: None,
        held: nothing_held(),
    }
}

/// The source of a Windows machine.
pub struct WindowsInputSource {
    engine: RedirectionEngine,
    metrics: Option<Metrics>,
}

impl View for WindowsInputSource {
    type V = WindowsSourceState;

    closed spec fn view(&self) -> WindowsSourceState {
        WindowsSourceState { engine: self.engine@, metrics: self.metrics }
    }
}

impl WindowsInputSource {
    pub open spec fn wf(&self) -> bool {
        &&& self@.engine.wf()
        &&& self@.metrics matches Some(m) ==> m.is_usable()
    }

    /// A source whose screen is not measured yet: its engine has control
    /// locally, knows no peer, holds nothing, has no pause on record, and
    /// waits for capture to start.
    pub fn new() -> (source: WindowsInputSource)
        ensures
            source.wf(),
            source@ == (WindowsSourceState { engine: fresh_engine(), metrics: None }),
    {
        WindowsInputSource { engine: RedirectionEngine::new(0, 0), metrics: None }
    }

    /// The virtual screen has been measured. Metrics that describe no screen
    /// leave the source without metrics.
    pub fn update_metrics(&mut self, metrics: Metrics)
        requires
            old(self).wf(),
        ensures
            final(self).wf(),
            final(self)@.metrics == (if metrics.is_usable() {
                Some(metrics)
            } else {
                None
            }),
            final(self)@.engine == (EngineState {
                width: usable_bounds(
                    if metrics.is_usable() {
                        metrics.width as u32
                    } else {
                        0
                    },
                    if metrics.is_usable() {
                        metrics.height as u32
                    } else {
                        0
                    },
                ).0,
                height: usable_bounds(
                    if metrics.is_usable() {
                        metrics.width as u32
                    } else {
                        0
                    },
                    if metrics.is_usable() {
                        metrics.height as u32
                    } else {
                        0
                    },
                ).1,
                ..old(self)@.engine
            }),
    {
        if metrics.width >= 1 && metrics.height >= 1 {
            self.metrics = Some(metrics);
            self.engine.set_bounds(metrics.width as u32, metrics.height as u32);
        } else {
            self.metrics = None;
            self.engine.set_bounds(0, 0);
        }
    }

    /// The hooks are installed, or could not be installed or were removed.
    pub fn set_capturing(&mut self, capturing: bool)
        requires
            old(self).wf(),
        ensures
            final(self).wf(),
            final(self)@ == (WindowsSourceState {
                engine: EngineState { capturing, ..old(self)@.engine },
                ..old(self)@
            }),
    {
        self.engine.set_capturing(capturing);
    }

    /// From now on the peers of `config` are those whose edges are tested.
    pub fn update_config(&mut self, config: &AppConfig)
        requires
            old(self).wf(),
        ensures
            final(self).wf(),
            final(self)@ == (WindowsSourceState {
                engine: EngineState {
                    edges: Some(config.topology.spec_positions()),
                    ..old(self)@.engine
                },
                ..old(self)@
            }),
    {
        self.engine.update_topology(&config.topology);
    }

    /// Brings control back to this machine at `now_ms`, whatever the cursor
    /// does. Control goes to a peer by an edge only, so asking for that has
    /// no effect.
    pub fn set_remote(&mut self, remote: bool, now_ms: u64) -> (decision: Decision)
        requires
            old(self).wf(),
        ensures
            final(self).wf(),
            final(self)@.metrics == old(self)@.metrics,
            remote || old(self)@.engine.control is Local ==> final(self)@ == old(self)@ && decision@
                == pass_through(),
            !remote && old(self)@.engine.control is Remote ==> final(self)@.engine == come_back(
                old(self)@.engine,
                now_ms,
                false,
                Warp::Stay,
            ).0 && decision@ == come_back(old(self)@.engine, now_ms, false, Warp::Stay).1,
    {
        if remote {
            Decision {
                send: Vec::new(),
                release_local: Vec::new(),
                swallow: false,
                warp: Warp::Stay,
            }
        } else {
            self.engine.force_local(now_ms)
        }
    }

    pub fn is_remote(&self) -> (remote: bool)
        ensures
            remote == (self@.engine.control is Remote),
    {
        self.engine.is_remote()
    }

    /// The mouse hook has seen the message `msg` with the cursor at `(x, y)`,
    /// the hook's `flags` and `mouse_data`, at `now_ms`. A message that is
    /// none of the samples, or that cannot be measured for want of metrics,
    /// changes nothing; it is kept from the local machine while the peer has
    /// control.
    pub fn mouse_proc(
        &mut self,
        msg: u32,
        x: i32,
        y: i32,
        flags: u32,
        mouse_data: u32,
        now_ms: u64,
    ) -> (decision: Decision)
        requires
            old(self).wf(),
        ensures
            final(self).wf(),
            final(self)@.metrics == old(self)@.metrics,
            final(self)@.engine == feed(
                old(self)@.engine,
                measured_mouse_sample(old(self)@.metrics, msg, x, y, mouse_data),
                flags & INJECTED_FLAGS != 0,
                now_ms,
            ).0,
            decision@ == feed(
                old(self)@.engine,
                measured_mouse_sample(old(self)@.metrics, msg, x, y, mouse_data),
                flags & INJECTED_FLAGS != 0,
                now_ms,
            ).1,
    {
        let injected = flags & INJECTED_FLAGS != 0;
        let m = match self.metrics {
            Some(m) => m,
            None => {
                return self.engine.process_other(injected);
            },
        };
        let raw = if msg == WM_MOUSEMOVE {
            let half_width: i64 = (m.width as u32 / 2) as i64;
            let half_height: i64 = (m.height as u32 / 2) as i64;
            RawSample::Move {
                x: saturated(x as i64 - m.left as i64),
                y: saturated(y as i64 - m.top as i64),
                dx: saturated(x as i64 - (m.left as i64 + half_width)),
                dy: saturated(y as i64 - (m.top as i64 + half_height)),
            }
        } else if msg == WM_LBUTTONDOWN || msg == WM_LBUTTONUP {
            RawSample::Button { button: MouseButton::Left, is_down: msg == WM_LBUTTONDOWN }
        } else if msg == WM_RBUTTONDOWN || msg == WM_RBUTTONUP {
            RawSample::Button { button: MouseButton::Right, is_down: msg == WM_RBUTTONDOWN }
        } else if msg == WM_MBUTTONDOWN || msg == WM_MBUTTONUP {
            RawSample::Button { button: MouseButton::Middle, is_down: msg == WM_MBUTTONDOWN }
        } else if msg == WM_MOUSEWHEEL {
            RawSample::Scroll { dx: 0, dy: turn_of(mouse_data) }
        } else if msg == WM_MOUSEHWHEEL {
            RawSample::Scroll { dx: turn_of(mouse_data), dy: 0 }
        } else {
            return self.engine.process_other(injected);
        };
        self.engine.process(Sample { raw, injected, now_ms })
    }

    /// The keyboard hook has seen the message `msg` for the key `vk_code`,
    /// with the hook's `flags`, at `now_ms`.
    pub fn keyboard_proc(&mut self, msg: u32, vk_code: u32, flags: u32, now_ms: u64) -> (decision:
        Decision)
        requires
            old(self).wf(),
        ensures
            final(self).wf(),
            final(self)@.metrics == old(self)@.metrics,
            final(self)@.engine == step(
                old(self)@.engine,
                Sample {
                    raw: windows_key_sample(msg, vk_code),
                    injected: flags & KEY_INJECTED_FLAGS != 0,
                    now_ms,
                },
            ).0,
            decision@ == step(
                old(self)@.engine,
                Sample {
                    raw: windows_key_sample(msg, vk_code),
                    injected: flags & KEY_INJECTED_FLAGS != 0,
                    now_ms,
                },
            ).1,
    {
        let raw = RawSample::Key {
            key_code: vk_code,
            is_down: msg == WM_KEYDOWN || msg == WM_SYSKEYDOWN,
        };
        self.engine.process(Sample { raw, injected: flags & KEY_INJECTED_FLAGS != 0, now_ms })
    }
}

/// The kind of an event that a macOS event tap has seen.
#[derive(Debug, Clone, Copy, PartialEq, Eq, Structural)]
pub enum MacosEventKind {
    MouseMoved,
    LeftMouseDragged,
    RightMouseDragged,
    LeftMouseDown,
    LeftMouseUp,
    RightMouseDown,
    RightMouseUp,
    OtherMouseDown,
    OtherMouseUp,
    KeyDown,
    KeyUp,
    FlagsChanged,
    ScrollWheel,
    Other,
}

/// An event that a macOS event tap has seen: its kind, the cursor's location
/// and the movement in points, the key code, the modifier flags, and the
/// turn of the wheel in lines.
#[derive(Debug, Clone, Copy, PartialEq, Eq, Structural)]
pub struct MacosEvent {
    pub kind: MacosEventKind,
    pub x: i32,
    pub y: i32,
    pub delta_x: i32,
    pub delta_y: i32,
    pub key_code: u32,
    pub flags: u64,
    pub scroll_x: i32,
    pub scroll_y: i32,
}

// The bits of the modifier keys in the flags of a macOS event.
pub const FLAG_ALPHA_SHIFT: u64 = 0x1_0000;

pub const FLAG_SHIFT: u64 = 0x2_0000;

pub const FLAG_CONTROL: u64 = 0x4_0000;

pub const FLAG_ALTERNATE: u64 = 0x8_0000;

pub const FLAG_COMMAND: u64 = 0x10_0000;

/// Whether the modifier key `key_code` is down according to `flags`. A key
/// that is no modifier is not.
pub open spec fn modifier_is_down(key_code: u32, flags: u64) -> bool {
    if key_code == 54 || key_code == 55 {
        flags & FLAG_COMMAND != 0
    } else if key_code == 56 || key_code == 60 {
        flags & FLAG_SHIFT != 0
    } else if key_code == 57 {
        flags & FLAG_ALPHA_SHIFT != 0
    } else if key_code == 58 || key_code == 61 {
        flags & FLAG_ALTERNATE != 0
    } else if key_code == 59 || key_code == 62 {
        flags & FLAG_CONTROL != 0
    } else {
        false
    }
}

/// The sample that a macOS event tap has seen. Keys are named by their
/// Windows virtual-key codes, the wheel is measured in 120ths of a notch.
pub open spec fn macos_sample(event: MacosEvent) -> Option<RawSample> {
    match event.kind {
        MacosEventKind::MouseMoved | MacosEventKind::LeftMouseDragged | MacosEventKind::RightMouseDragged => Some(
            RawSample::Move { x: event.x, y: event.y, dx: event.delta_x, dy: event.delta_y },
        ),
        MacosEventKind::LeftMouseDown => Some(
            RawSample::Button { button: MouseButton::Left, is_down: true },
        ),
        MacosEventKind::LeftMouseUp => Some(
            RawSample::Button { button: MouseButton::Left, is_down: false },
        ),
        MacosEventKind::RightMouseDown => Some(
            RawSample::Button { button: MouseButton::Right, is_down: true },
        ),
        MacosEventKind::RightMouseUp => Some(
            RawSample::Button { button: MouseButton::Right, is_down: false },
        ),
        MacosEventKind::OtherMouseDown => Some(
            RawSample::Button { button: MouseButton::Middle, is_down: true },
        ),
        MacosEventKind::OtherMouseUp => Some(
            RawSample::Button { button: MouseButton::Middle, is_down: false },
        ),
        MacosEventKind::KeyDown => Some(
            RawSample::Key { key_code: spec_macos_to_windows_vk(event.key_code), is_down: true },
        ),
        MacosEventKind::KeyUp => Some(
            RawSample::Key { key_code: spec_macos_to_windows_vk(event.key_code), is_down: false },
        ),
        MacosEventKind::FlagsChanged => Some(
            RawSample::Key {
                key_code: spec_macos_to_windows_vk(event.key_code),
                is_down: modifier_is_down(event.key_code, event.flags),
            },
        ),
        MacosEventKind::ScrollWheel => Some(
            RawSample::Scroll {
                dx: saturate(event.scroll_x * WHEEL_DELTA),
                dy: saturate(event.scroll_y * WHEEL_DELTA),
            },
        ),
        MacosEventKind::Other => None,
    }
}

fn is_modifier_down(key_code: u32, flags: u64) -> (down: bool)
    ensures
        down == modifier_is_down(key_code, flags),
{
    if key_code == 54 || key_code == 55 {
        flags & FLAG_COMMAND != 0
    } else if key_code == 56 || key_code == 60 {
        flags & FLAG_SHIFT != 0
    } else if key_code == 57 {
        flags & FLAG_ALPHA_SHIFT != 0
    } else if key_code == 58 || key_code == 61 {
        flags & FLAG_ALTERNATE != 0
    } else if key_code == 59 || key_code == 62 {
        flags & FLAG_CONTROL != 0
    } else {
        false
    }
}

/// One display: its origin and its size in points.
#[derive(Debug, Clone, Copy, PartialEq, Eq, Structural)]
pub struct DisplayRect {
    pub x: i32,
    pub y: i32,
    pub width: u32,
    pub height: u32,
}

/// How far `displays` reach to the right and to the bottom: the greatest
/// right edge and the greatest bottom edge, and nought where there is no
/// display or all of them end left of or above the origin.
pub open spec fn reach(displays: Seq<DisplayRect>) -> (int, int)
    decreases displays.len(),
{
    if displays.len() == 0 {
        (0, 0)
    } else {
        let (right, bottom) = reach(displays.drop_last());
        let d = displays.last();
        (
            if d.x + d.width > right {
                d.x + d.width
            } else {
                right
            },
            if d.y + d.height > bottom {
                d.y + d.height
            } else {
                bottom
            },
        )
    }
}

/// The bounds of the workspace that `displays` make up, as the engine uses
/// them.
pub open spec fn workspace_bounds(displays: Seq<DisplayRect>) -> (u32, u32) {
    let (right, bottom) = reach(displays);
    usable_bounds(
        if right > u32::MAX {
            u32::MAX
        } else {
            right as u32
        },
        if bottom > u32::MAX {
            u32::MAX
        } else {
            bottom as u32
        },
    )
}

proof fn lemma_reach_bounds(displays: Seq<DisplayRect>)
    ensures
        0 <= reach(displays).0 <= i32::MAX + u32::MAX,
        0 <= reach(displays).1 <= i32::MAX + u32::MAX,
    decreases displays.len(),
{
    if displays.len() > 0 {
        lemma_reach_bounds(displays.drop_last());
    }
}

/// The bounds of the workspace that `displays` make up: as far as they reach
/// to the right and to the bottom, or the fallback where that is no screen.
pub fn get_display_bounds(displays: &Vec<DisplayRect>) -> (bounds: (u32, u32))
    ensures
        bounds == workspace_bounds(displays@),
{
    let mut right: i64 = 0;
    let mut bottom: i64 = 0;
    let mut i: usize = 0;
    while i < displays.len()
        invariant
            i <= displays@.len(),
            right == reach(displays@.take(i as int)).0,
            bottom == reach(displays@.take(i as int)).1,
        decreases displays@.len() - i,
    {
        proof {
            assert(displays@.take(i + 1).drop_last() =~= displays@.take(i as int));
            lemma_reach_bounds(displays@.take(i as int));
        }
        let d = displays[i];
        let r: i64 = d.x as i64 + d.width as i64;
        let b: i64 = d.y as i64 + d.height as i64;
        if r > right {
            right = r;
        }
        if b > bottom {
            bottom = b;
        }
        i += 1;
    }
    proof {
        assert(displays@.take(i as int) =~= displays@);
        lemma_reach_bounds(displays@);
    }
    let width: u32 = if right > u32::MAX as i64 {
        u32::MAX
    } else {
        right as u32
    };
    let height: u32 = if bottom > u32::MAX as i64 {
        u32::MAX
    } else {
        bottom as u32
    };
    if width > 1 && height > 1 {
        (width, height)
    } else {
        (FALLBACK_WIDTH, FALLBACK_HEIGHT)
    }
}

/// The source of a macOS machine.
pub struct MacosInputSource {
    engine: RedirectionEngine,
}

impl View for MacosInputSource {
    type V = EngineState;

    closed spec fn view(&self) -> EngineState {
        self.engine@
    }
}

impl MacosInputSource {
    pub open spec fn wf(&self) -> bool {
        self@.wf()
    }

    /// A source whose displays are not measured yet: its engine has control
    /// locally, knows no peer, holds nothing, has no pause on record, and
    /// waits for capture to start.
    pub fn new() -> (source: MacosInputSource)
        ensures
            source.wf(),
            source@ == fresh_engine(),
    {
        MacosInputSource { engine: RedirectionEngine::new(0, 0) }
    }

    /// The displays have been measured.
    pub fn update_displays(&mut self, displays: &Vec<DisplayRect>)
        requires
            old(self).wf(),
        ensures
            final(self).wf(),
            final(self)@ == (EngineState {
                width: workspace_bounds(displays@).0,
                height: workspace_bounds(displays@).1,
                ..old(self)@
            }),
    {
        let (width, height) = get_display_bounds(displays);
        self.engine.set_bounds(width, height);
    }

    /// The event tap runs, or could not be made or was stopped.
    pub fn set_capturing(&mut self, capturing: bool)
        requires
            old(self).wf(),
        ensures
            final(self).wf(),
            final(self)@ == (EngineState { capturing, ..old(self)@ }),
    {
        self.engine.set_capturing(capturing);
    }

    /// From now on the peers of `config` are those whose edges are tested.
    pub fn update_config(&mut self, config: &AppConfig)
        requires
            old(self).wf(),
        ensures
            final(self).wf(),
            final(self)@ == (EngineState {
                edges: Some(config.topology.spec_positions()),
                ..old(self)@
            }),
    {
        self.engine.update_topology(&config.topology);
    }

    /// Brings control back to this machine at `now_ms`, whatever the cursor
    /// does. Control goes to a peer by an edge only, so asking for that has
    /// no effect.
    pub fn set_remote(&mut self, remote: bool, now_ms: u64) -> (decision: Decision)
        requires
            old(self).wf(),
        ensures
            final(self).wf(),
            remote || old(self)@.control is Local ==> final(self)@ == old(self)@ && decision@
                == pass_through(),
            !remote && old(self)@.control is Remote ==> final(self)@ == come_back(
                old(self)@,
                now_ms,
                false,
                Warp::Stay,
            ).0 && decision@ == come_back(old(self)@, now_ms, false, Warp::Stay).1,
    {
        if remote {
            Decision {
                send: Vec::new(),
                release_local: Vec::new(),
                swallow: false,
                warp: Warp::Stay,
            }
        } else {
            self.engine.force_local(now_ms)
        }
    }

    pub fn is_remote(&self) -> (remote: bool)
        ensures
            remote == (self@.control is Remote),
    {
        self.engine.is_remote()
    }

    /// The event tap has seen `event` at `now_ms`; `injected` says that the
    /// system itself produced the event.
    pub fn handle_event(&mut self, event: MacosEvent, injected: bool, now_ms: u64) -> (decision:
        Decision)
        requires
            old(self).wf(),
        ensures
            final(self).wf(),
            final(self)@ == feed(old(self)@, macos_sample(event), injected, now_ms).0,
            decision@ == feed(old(self)@, macos_sample(event), injected, now_ms).1,
    {
        let raw = match event.kind {
            MacosEventKind::MouseMoved
            | MacosEventKind::LeftMouseDragged
            | MacosEventKind::RightMouseDragged => RawSample::Move {
                x: event.x,
                y: event.y,
                dx: event.delta_x,
                dy: event.delta_y,
            },
            MacosEventKind::LeftMouseDown => RawSample::Button {
                button: MouseButton::Left,
                is_down: true,
            },
            MacosEventKind::LeftMouseUp => RawSample::Button {
                button: MouseButton::Left,
                is_down: false,
            },
            MacosEventKind::RightMouseDown => RawSample::Button {
                button: MouseButton::Right,
                is_down: true,
            },
            MacosEventKind::RightMouseUp => RawSample::Button {
                button: MouseButton::Right,
                is_down: false,
            },
            MacosEventKind::OtherMouseDown => RawSample::Button {
                button: MouseButton::Middle,
                is_down: true,
            },
            MacosEventKind::OtherMouseUp => RawSample::Button {
                button: MouseButton::Middle,
                is_down: false,
            },
            MacosEventKind::KeyDown => RawSample::Key {
                key_code: macos_to_windows_vk(event.key_code),
                is_down: true,
            },
            MacosEventKind::KeyUp => RawSample::Key {
                key_code: macos_to_windows_vk(event.key_code),
                is_down: false,
            },
            MacosEventKind::FlagsChanged => RawSample::Key {
                key_code: macos_to_windows_vk(event.key_code),
                is_down: is_modifier_down(event.key_code, event.flags),
            },
            MacosEventKind::ScrollWheel => RawSample::Scroll {
                dx: saturated(event.scroll_x as i64 * WHEEL_DELTA as i64),
                dy: saturated(event.scroll_y as i64 * WHEEL_DELTA as i64),
            },
            MacosEventKind::Other => {
                return self.engine.process_other(injected);
            },
        };
        self.engine.process(Sample { raw, injected, now_ms })
    }
}

/// The main display as the handshake describes it, from what the system says
/// of it: its size in points, and its width in pixels. The scale factor is
/// `width_pixels / width_points`, never below one.
pub fn get_screen_info(width_points: u32, height_points: u32, width_pixels: u32) -> (info: Option<
    ScreenInfo,
>)
    ensures
        info matches Some(screen) && screen.width == width_points && screen.height == height_points
            && screen.is_valid() && screen.dpi_scale as int == spec_dpi_scale(
            width_points,
            width_pixels,
        ),
{
    let scale: u32 = if width_points > 0 {
        assert(width_pixels * SCALE_ONE <= 0xFFFF_FFFF * 1000) by (nonlinear_arith)
            requires
                width_pixels <= 0xFFFF_FFFF,
                SCALE_ONE == 1000,
        ;
        let scaled: u64 = (width_pixels as u64) * (SCALE_ONE as u64) / (width_points as u64);
        if scaled < SCALE_ONE as u64 {
            SCALE_ONE
        } else if scaled > u32::MAX as u64 {
            u32::MAX
        } else {
            scaled as u32
        }
    } else {
        SCALE_ONE
    };
    Some(ScreenInfo { width: width_points, height: height_points, dpi_scale: scale })
}

/// The hint for the user on how to let the application capture input.
pub fn get_accessibility_guidance() -> (hint: &'static str)
    ensures
        hint@
            == "Please enable Accessibility permissions for this app in 'System Settings > Privacy & Security > Accessibility'."@,
{
    "Please enable Accessibility permissions for this app in 'System Settings > Privacy & Security > Accessibility'."
}

/// Why input capture could not be started.
#[derive(Debug, Clone, Copy, PartialEq, Eq, Structural)]
pub enum CaptureError {
    /// The user has not allowed the application to control the computer.
    AccessibilityDenied,
    /// The user has not allowed the application to monitor input.
    InputMonitoringDenied,
    /// The hook or event tap could not be installed.
    HookFailed,
}

/// Whether capture has started, given whether the application may control the
/// computer, whether it may monitor input, and whether the hook or event tap
/// is installed. A hook that is not installed although the application may
/// control the computer fails for want of the permission to monitor input, if
/// that is missing, and for another reason otherwise.
pub open spec fn capture_outcome(
    accessibility_trusted: bool,
    input_monitoring: bool,
    installed: bool,
) -> Result<(), CaptureError> {
    if !accessibility_trusted {
        Err(CaptureError::AccessibilityDenied)
    } else if !installed {
        if !input_monitoring {
            Err(CaptureError::InputMonitoringDenied)
        } else {
            Err(CaptureError::HookFailed)
        }
    } else {
        Ok(())
    }
}

impl MacosInputSource {
    /// The outcome of the attempt to start capture. Capture counts as running
    /// only where it has started.
    pub fn start_capture(
        &mut self,
        accessibility_trusted: bool,
        input_monitoring: bool,
        installed: bool,
    ) -> (r: Result<(), CaptureError>)
        requires
            old(self).wf(),
        ensures
            final(self).wf(),
            r == capture_outcome(accessibility_trusted, input_monitoring, installed),
            final(self)@ == (EngineState { capturing: r is Ok, ..old(self)@ }),
    {
        let r = if !accessibility_trusted {
            Err(CaptureError::AccessibilityDenied)
        } else if !installed {
            if !input_monitoring {
                Err(CaptureError::InputMonitoringDenied)
            } else {
                Err(CaptureError::HookFailed)
            }
        } else {
            Ok(())
        };
        self.engine.set_capturing(r.is_ok());
        r
    }
}

impl WindowsInputSource {
    /// The outcome of the attempt to install the hooks. Capture counts as
    /// running only where they are installed.
    pub fn start_capture(&mut self, installed: bool) -> (r: Result<(), CaptureError>)
        requires
            old(self).wf(),
        ensures
            final(self).wf(),
            r == capture_outcome(true, true, installed),
            final(self)@ == (WindowsSourceState {
                engine: EngineState { capturing: installed, ..old(self)@.engine },
                ..old(self)@
            }),
    {
        self.engine.set_capturing(installed);
        if installed {
            Ok(())
        } else {
            Err(CaptureError::HookFailed)
        }
    }
}

/// What the user is told to do about `error`.
pub open spec fn guidance_text(error: CaptureError) -> Seq<char> {
    match error {
        CaptureError::AccessibilityDenied => "Accessibility permissions required. Please enable in System Settings."@,
        CaptureError::InputMonitoringDenied => "Failed to create HID event tap. Please ensure 'Input Monitoring' permission is enabled for the terminal/app."@,
        CaptureError::HookFailed => "Failed to install the input hook."@,
    }
}

/// What the user is told to do about `error`. Every error has a message of
/// its own.
pub fn capture_error_message(error: CaptureError) -> (message: &'static str)
    ensures
        message@ == guidance_text(error),
{
    match error {
        CaptureError::AccessibilityDenied => "Accessibility permissions required. Please enable in System Settings.",
        CaptureError::InputMonitoringDenied => "Failed to create HID event tap. Please ensure 'Input Monitoring' permission is enabled for the terminal/app.",
        CaptureError::HookFailed => "Failed to install the input hook.",
    }
}

/// A source whose capture could not be started never hands control to a peer:
/// whatever it sees, it leaves control and the event to this machine.
pub proof fn lemma_failed_capture_stays_local(engine: EngineState, raw: Option<RawSample>, injected: bool, now_ms: u64)
    requires
        !engine.capturing,
        engine.control is Local,
    ensures
        feed(engine, raw, injected, now_ms) == (engine, pass_through()),
{
}

/// Whatever a mouse hook or an event tap sees, named or not, measured or not:
/// an event of the mouse that the user has made reaches the local machine
/// exactly if the local machine has control after it; and while the peer has
/// control and keeps it, nothing that the user does reaches the local
/// machine.
pub proof fn lemma_events_go_to_one_side(engine: EngineState, raw: Option<RawSample>, now_ms: u64)
    ensures
        ({
            let (next, decision) = feed(engine, raw, false, now_ms);
            &&& !(raw matches Some(RawSample::Key { .. })) ==> (decision.swallow <==> next.control
                is Remote)
            &&& engine.control is Remote && next.control is Remote ==> decision.swallow
            &&& raw is None ==> next == engine && decision.send == Seq::<InputEvent>::empty()
        }),
{
    match raw {
        Some(raw) => {
            lemma_input_goes_to_one_side(engine, Sample { raw, injected: false, now_ms });
        },
        None => {},
    }
}

} // verus!
