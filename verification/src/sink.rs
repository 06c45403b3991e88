//! Input sinks: they reproduce the peer's input on this machine.
//!
//! A sink turns every input event into the operations of its platform and
//! keeps track of the keys and buttons that it holds down, so that all of them
//! can be let go at once when the peer loses control. The operations are
//! values: the caller hands them to the operating system.

use vstd::prelude::*;
use crate::config::InputConfig;
use crate::config::SCALE_ONE;
use crate::frame::InputEvent;
use crate::frame::MouseButton;
use crate::held::HeldInput;
use crate::held::HeldState;
use crate::held::note_event;
use crate::held::nothing_held;
use crate::held::releases;
use crate::keymap::spec_windows_to_macos_keycode;
use crate::keymap::windows_to_macos_keycode;
use crate::redirect::UNIT;
use crate::redirect::pixels;
use crate::redirect::to_pixels;

verus! {

/// The greatest coordinate of an absolute mouse movement on Windows.
pub const WINDOWS_ABSOLUTE_MAX: u32 = 65_535;

/// One operation of Windows input injection.
#[derive(Debug, Clone, Copy, PartialEq, Eq, Structural)]
pub enum WindowsInput {
    /// A key event for the virtual-key code.
    Key { vk: u16, key_up: bool },
    /// An absolute movement on the virtual desktop; both coordinates are in
    /// `0 ..= WINDOWS_ABSOLUTE_MAX`.
    MoveAbsolute { x: u32, y: u32 },
    Button { button: MouseButton, is_down: bool },
    /// A turn of the vertical wheel, in 120ths of a notch.
    Wheel { delta: i32 },
    /// A turn of the horizontal wheel, in 120ths of a notch.
    HorizontalWheel { delta: i32 },
}

/// The normalised coordinate `value` as a coordinate of an absolute mouse
/// movement. A value over `UNIT` counts as `UNIT`.
pub open spec fn to_absolute(value: u32) -> int {
    to_pixels(
        if value > UNIT {
            UNIT
        } else {
            value
        },
        WINDOWS_ABSOLUTE_MAX,
    )
}

/// The Windows operations that reproduce `event`.
pub open spec fn windows_inputs(event: InputEvent) -> Seq<WindowsInput> {
    match event {
        InputEvent::Keyboard { key_code, is_down } => seq![
            WindowsInput::Key { vk: (key_code % 0x1_0000) as u16, key_up: !is_down },
        ],
        InputEvent::MouseMove { x, y } => seq![
            WindowsInput::MoveAbsolute { x: to_absolute(x) as u32, y: to_absolute(y) as u32 },
        ],
        InputEvent::MouseButton { button, is_down } => seq![WindowsInput::Button { button, is_down }],
        InputEvent::Scroll { dx, dy } => (if dy != 0 {
            seq![WindowsInput::Wheel { delta: dy }]
        } else {
            seq![]
        }) + (if dx != 0 {
            seq![WindowsInput::HorizontalWheel { delta: dx }]
        } else {
            seq![]
        }),
        InputEvent::ScreenSwitch(_) => seq![],
    }
}

/// The Windows operations that reproduce `events`, one after the other.
pub open spec fn windows_inputs_of(events: Seq<InputEvent>) -> Seq<WindowsInput>
    decreases events.len(),
{
    if events.len() == 0 {
        seq![]
    } else {
        windows_inputs_of(events.drop_last()) + windows_inputs(events.last())
    }
}

fn absolute(value: u32) -> (r: u32)
    ensures
        r as int == to_absolute(value),
        r <= WINDOWS_ABSOLUTE_MAX,
{
    pixels(
        if value > UNIT {
            UNIT
        } else {
            value
        },
        WINDOWS_ABSOLUTE_MAX,
    )
}

fn push_windows_inputs(out: &mut Vec<WindowsInput>, event: InputEvent)
    ensures
        final(out)@ == old(out)@ + windows_inputs(event),
{
    match event {
        InputEvent::Keyboard { key_code, is_down } => {
            out.push(WindowsInput::Key { vk: (key_code % 0x1_0000) as u16, key_up: !is_down });
        },
        InputEvent::MouseMove { x, y } => {
            out.push(WindowsInput::MoveAbsolute { x: absolute(x), y: absolute(y) });
        },
        InputEvent::MouseButton { button, is_down } => {
            out.push(WindowsInput::Button { button, is_down });
        },
        InputEvent::Scroll { dx, dy } => {
            if dy != 0 {
                out.push(WindowsInput::Wheel { delta: dy });
            }
            if dx != 0 {
                out.push(WindowsInput::HorizontalWheel { delta: dx });
            }
        },
        InputEvent::ScreenSwitch(_) => {},
    }
    assert(out@ =~= old(out)@ + windows_inputs(event));
}

/// The sink of a Windows machine.
pub struct WindowsInputSink {
    held: HeldInput,
}

impl View for WindowsInputSink {
    type V = HeldState;

    closed spec fn view(&self) -> HeldState {
        self.held@
    }
}

impl WindowsInputSink {
    pub fn new() -> (sink: WindowsInputSink)
        ensures
            sink@ == nothing_held(),
    {
        WindowsInputSink { held: HeldInput::new() }
    }

    /// The operations that reproduce `event` on this machine.
    pub fn inject_event(&mut self, event: InputEvent) -> (inputs: Vec<WindowsInput>)
        ensures
            final(self)@ == note_event(old(self)@, event),
            inputs@ == windows_inputs(event),
    {
        self.held.note(event);
        let mut inputs: Vec<WindowsInput> = Vec::new();
        push_windows_inputs(&mut inputs, event);
        inputs
    }

    /// The operations that let go of every key and button that is held down.
    /// After them nothing is held.
    pub fn reset_input(&mut self) -> (inputs: Vec<WindowsInput>)
        ensures
            final(self)@ == nothing_held(),
            inputs@ == windows_inputs_of(releases(old(self)@)),
    {
        let events = self.held.release();
        let mut inputs: Vec<WindowsInput> = Vec::new();
        let mut i: usize = 0;
        while i < events.len()
            invariant
                i <= events@.len(),
                inputs@ == windows_inputs_of(events@.take(i as int)),
            decreases events@.len() - i,
        {
            proof {
                assert(events@.take(i + 1).drop_last() =~= events@.take(i as int));
            }
            push_windows_inputs(&mut inputs, events[i]);
            i += 1;
        }
        proof {
            assert(events@.take(i as int) =~= events@);
        }
        inputs
    }

    /// A sink keeps its state when the configuration changes.
    pub fn update_config(&mut self, config: InputConfig)
        ensures
            final(self)@ == old(self)@,
    {
    }
}

/// One operation of macOS input injection. Positions are in points of the
/// main display.
#[derive(Debug, Clone, Copy, PartialEq, Eq, Structural)]
pub enum MacosInput {
    MouseMove { x: u32, y: u32 },
    Key { key_code: u16, is_down: bool },
    Button { button: MouseButton, is_down: bool, x: u32, y: u32 },
    /// A turn of the vertical wheel, in pixel units.
    Scroll { delta: i32 },
}

/// The state of a macOS sink.
pub struct MacosSinkState {
    pub held: HeldState,
    /// Where the cursor was put last.
    pub last_x: u32,
    pub last_y: u32,
    /// The factor on the wheel, in thousandths.
    pub scroll_multiplier: u32,
    pub scroll_reverse: bool,
}

/// The wheel movement `dy` turned around if asked for, times the factor, kept
/// within what the operation can hold.
pub open spec fn scaled_scroll(dy: i32, multiplier: u32, reverse: bool) -> int {
    let turned = if reverse {
        -(dy as int)
    } else {
        dy as int
    };
    let scaled = if turned >= 0 {
        turned * multiplier / (SCALE_ONE as int)
    } else {
        -((-turned) * multiplier / (SCALE_ONE as int))
    };
    if scaled > i32::MAX {
        i32::MAX as int
    } else if scaled < i32::MIN {
        i32::MIN as int
    } else {
        scaled
    }
}

/// The sink after `event`, on a main display of `width` by `height` points,
/// and the macOS operations that reproduce the event.
pub open spec fn macos_inject(s: MacosSinkState, event: InputEvent, width: u32, height: u32) -> (
    MacosSinkState,
    Seq<MacosInput>,
) {
    let noted = MacosSinkState { held: note_event(s.held, event), ..s };
    match event {
        InputEvent::MouseMove { x, y } => {
            let px = to_pixels(
                if x > UNIT {
                    UNIT
                } else {
                    x
                },
                width,
            ) as u32;
            let py = to_pixels(
                if y > UNIT {
                    UNIT
                } else {
                    y
                },
                height,
            ) as u32;
            (
                MacosSinkState { last_x: px, last_y: py, ..noted },
                seq![MacosInput::MouseMove { x: px, y: py }],
            )
        },
        InputEvent::Keyboard { key_code, is_down } => (
            noted,
            seq![MacosInput::Key { key_code: spec_windows_to_macos_keycode(key_code), is_down }],
        ),
        InputEvent::MouseButton { button, is_down } => (
            noted,
            seq![MacosInput::Button { button, is_down, x: s.last_x, y: s.last_y }],
        ),
        InputEvent::Scroll { dx, dy } => (
            noted,
            seq![
                MacosInput::Scroll {
                    delta: scaled_scroll(dy, s.scroll_multiplier, s.scroll_reverse) as i32,
                },
            ],
        ),
        InputEvent::ScreenSwitch(_) => (noted, seq![]),
    }
}

/// The macOS operations that let go of what `events` name, at `(x, y)`.
pub open spec fn macos_releases(events: Seq<InputEvent>, x: u32, y: u32) -> Seq<MacosInput> {
    Seq::new(
        events.len(),
        |i: int|
            match events[i] {
                InputEvent::Keyboard { key_code, .. } => MacosInput::Key {
                    key_code: spec_windows_to_macos_keycode(key_code),
                    is_down: false,
                },
                InputEvent::MouseButton { button, .. } => MacosInput::Button {
                    button,
                    is_down: false,
                    x,
                    y,
                },
                _ => MacosInput::MouseMove { x, y },
            },
    )
}

/// The sink of a macOS machine.
pub struct MacosInputSink {
    held: HeldInput,
    last_x: u32,
    last_y: u32,
    scroll_multiplier: u32,
    scroll_reverse: bool,
}

impl View for MacosInputSink {
    type V = MacosSinkState;

    closed spec fn view(&self) -> MacosSinkState {
        MacosSinkState {
            held: self.held@,
            last_x: self.last_x,
            last_y: self.last_y,
            scroll_multiplier: self.scroll_multiplier,
            scroll_reverse: self.scroll_reverse,
        }
    }
}

fn clamped(value: u32) -> (r: u32)
    ensures
        r == (if value > UNIT {
            UNIT
        } else {
            value
        }),
{
    if value > UNIT {
        UNIT
    } else {
        value
    }
}

fn scale_scroll(dy: i32, multiplier: u32, reverse: bool) -> (r: i32)
    ensures
        r as int == scaled_scroll(dy, multiplier, reverse),
{
    let turned: i64 = if reverse {
        -(dy as i64)
    } else {
        dy as i64
    };
    let magnitude: u64 = if turned >= 0 {
        turned as u64
    } else {
        (-turned) as u64
    };
    assert(magnitude * multiplier <= 0x8000_0000 * 0xFFFF_FFFF) by (nonlinear_arith)
        requires
            magnitude <= 0x8000_0000,
            multiplier <= 0xFFFF_FFFF,
    ;
    let scaled: u64 = magnitude * (multiplier as u64) / (SCALE_ONE as u64);
    if turned >= 0 {
        if scaled > i32::MAX as u64 {
            i32::MAX
        } else {
            scaled as i32
        }
    } else {
        if scaled > 0x8000_0000 {
            i32::MIN
        } else {
            (-(scaled as i64)) as i32
        }
    }
}

impl MacosInputSink {
    pub fn new() -> (sink: MacosInputSink)
        ensures
            sink@ == (MacosSinkState {
                held: nothing_held(),
                last_x: 0,
                last_y: 0,
                scroll_multiplier: SCALE_ONE,
                scroll_reverse: false,
            }),
    {
        MacosInputSink {
            held: HeldInput::new(),
            last_x: 0,
            last_y: 0,
            scroll_multiplier: SCALE_ONE,
            scroll_reverse: false,
        }
    }

    /// The operations that reproduce `event` on this machine, whose main
    /// display has `width` by `height` points.
    pub fn inject_event(&mut self, event: InputEvent, width: u32, height: u32) -> (inputs: Vec<
        MacosInput,
    >)
        ensures
            final(self)@ == macos_inject(old(self)@, event, width, height).0,
            inputs@ == macos_inject(old(self)@, event, width, height).1,
    {
        self.held.note(event);
        let mut inputs: Vec<MacosInput> = Vec::new();
        match event {
            InputEvent::MouseMove { x, y } => {
                let px = pixels(clamped(x), width);
                let py = pixels(clamped(y), height);
                self.last_x = px;
                self.last_y = py;
                inputs.push(MacosInput::MouseMove { x: px, y: py });
            },
            InputEvent::Keyboard { key_code, is_down } => {
                inputs.push(
                    MacosInput::Key { key_code: windows_to_macos_keycode(key_code), is_down },
                );
            },
            InputEvent::MouseButton { button, is_down } => {
                inputs.push(
                    MacosInput::Button { button, is_down, x: self.last_x, y: self.last_y },
                );
            },
            InputEvent::Scroll { dx, dy } => {
                inputs.push(
                    MacosInput::Scroll {
                        delta: scale_scroll(dy, self.scroll_multiplier, self.scroll_reverse),
                    },
                );
            },
            InputEvent::ScreenSwitch(_) => {},
        }
        assert(inputs@ =~= macos_inject(old(self)@, event, width, height).1);
        inputs
    }

    pub fn update_config(&mut self, config: InputConfig)
        ensures
            final(self)@ == (MacosSinkState {
                scroll_multiplier: config.scroll_speed_multiplier,
                scroll_reverse: config.scroll_reverse,
                ..old(self)@
            }),
    {
        self.scroll_multiplier = config.scroll_speed_multiplier;
        self.scroll_reverse = config.scroll_reverse;
    }

    /// The operations that let go of every key and button that is held down.
    /// After them nothing is held.
    pub fn reset_input(&mut self) -> (inputs: Vec<MacosInput>)
        ensures
            final(self)@ == (MacosSinkState { held: nothing_held(), ..old(self)@ }),
            inputs@ == macos_releases(releases(old(self)@.held), old(self)@.last_x, old(self)@.last_y),
    {
        let events = self.held.release();
        let mut inputs: Vec<MacosInput> = Vec::new();
        let mut i: usize = 0;
        while i < events.len()
            invariant
                i <= events@.len(),
                inputs@.len() == i,
                self.last_x == old(self).last_x,
                self.last_y == old(self).last_y,
                forall|k: int|
                    0 <= k < i ==> inputs@[k] == macos_releases(events@, self.last_x, self.last_y)[k],
            decreases events@.len() - i,
        {
            let input = match events[i] {
                InputEvent::Keyboard { key_code, .. } => MacosInput::Key {
                    key_code: windows_to_macos_keycode(key_code),
                    is_down: false,
                },
                InputEvent::MouseButton { button, .. } => MacosInput::Button {
                    button,
                    is_down: false,
                    x: self.last_x,
                    y: self.last_y,
                },
                _ => MacosInput::MouseMove { x: self.last_x, y: self.last_y },
            };
            inputs.push(input);
            i += 1;
        }
        assert(inputs@ =~= macos_releases(events@, self.last_x, self.last_y));
        inputs
    }
}

/// The macOS key codes of the modifier keys, which `force_release_modifiers`
/// lets go of: both command keys, both shift keys, both option keys and both
/// control keys.
pub open spec fn modifier_key_codes() -> Seq<u16> {
    seq![55, 54, 56, 60, 58, 61, 59, 62]
}

/// The operations that let go of every modifier key, whether it is known to
/// be held or not.
pub fn force_release_modifiers() -> (inputs: Vec<MacosInput>)
    ensures
        inputs@ == Seq::new(
            modifier_key_codes().len(),
            |i: int| MacosInput::Key { key_code: modifier_key_codes()[i], is_down: false },
        ),
{
    let mut inputs: Vec<MacosInput> = Vec::new();
    inputs.push(MacosInput::Key { key_code: 55, is_down: false });
    inputs.push(MacosInput::Key { key_code: 54, is_down: false });
    inputs.push(MacosInput::Key { key_code: 56, is_down: false });
    inputs.push(MacosInput::Key { key_code: 60, is_down: false });
    inputs.push(MacosInput::Key { key_code: 58, is_down: false });
    inputs.push(MacosInput::Key { key_code: 61, is_down: false });
    inputs.push(MacosInput::Key { key_code: 59, is_down: false });
    inputs.push(MacosInput::Key { key_code: 62, is_down: false });
    assert(inputs@ =~= Seq::new(
        modifier_key_codes().len(),
        |i: int| MacosInput::Key { key_code: modifier_key_codes()[i], is_down: false },
    ));
    inputs
}

} // verus!
