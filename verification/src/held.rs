//! The keys and buttons that are held down on a machine.
//!
//! Whoever drives a machine keeps track of what it has pressed there, so that
//! all of it can be let go at once when control changes hands and no key or
//! button stays stuck.

use vstd::prelude::*;
use crate::frame::InputEvent;
use crate::frame::MouseButton;

verus! {

/// What is held down: the keys, oldest first, and the buttons.
pub struct HeldState {
    pub keys: Seq<u32>,
    pub left: bool,
    pub right: bool,
    pub middle: bool,
}

/// `keys` without `key`.
pub open spec fn without_key(keys: Seq<u32>, key: u32) -> Seq<u32>
    decreases keys.len(),
{
    if keys.len() == 0 {
        keys
    } else if keys.last() == key {
        without_key(keys.drop_last(), key)
    } else {
        without_key(keys.drop_last(), key).push(keys.last())
    }
}

/// `keys` after `key` went down or up.
pub open spec fn track_key(keys: Seq<u32>, key: u32, is_down: bool) -> Seq<u32> {
    if is_down {
        if keys.contains(key) {
            keys
        } else {
            keys.push(key)
        }
    } else {
        without_key(keys, key)
    }
}

/// `held` after `event`. Only keys and buttons are held.
pub open spec fn note_event(held: HeldState, event: InputEvent) -> HeldState {
    match event {
        InputEvent::Keyboard { key_code, is_down } => HeldState {
            keys: track_key(held.keys, key_code, is_down),
            ..held
        },
        InputEvent::MouseButton { button, is_down } => match button {
            MouseButton::Left => HeldState { left: is_down, ..held },
            MouseButton::Right => HeldState { right: is_down, ..held },
            MouseButton::Middle => HeldState { middle: is_down, ..held },
        },
        _ => held,
    }
}

/// The events that let go of everything that `held` holds down: the keys
/// first, oldest first, then the buttons, left, right, middle.
pub open spec fn releases(held: HeldState) -> Seq<InputEvent> {
    Seq::new(
        held.keys.len(),
        |i: int| InputEvent::Keyboard { key_code: held.keys[i], is_down: false },
    ) + (if held.left {
        seq![InputEvent::MouseButton { button: MouseButton::Left, is_down: false }]
    } else {
        seq![]
    }) + (if held.right {
        seq![InputEvent::MouseButton { button: MouseButton::Right, is_down: false }]
    } else {
        seq![]
    }) + (if held.middle {
        seq![InputEvent::MouseButton { button: MouseButton::Middle, is_down: false }]
    } else {
        seq![]
    })
}

pub open spec fn nothing_held() -> HeldState {
    HeldState { keys: seq![], left: false, right: false, middle: false }
}

fn has_key(keys: &Vec<u32>, key: u32) -> (found: bool)
    ensures
        found == keys@.contains(key),
{
    let mut i: usize = 0;
    while i < keys.len()
        invariant
            i <= keys@.len(),
            forall|k: int| 0 <= k < i ==> keys@[k] != key,
        decreases keys@.len() - i,
    {
        if keys[i] == key {
            return true;
        }
        i += 1;
    }
    false
}

fn drop_key(keys: &Vec<u32>, key: u32) -> (rest: Vec<u32>)
    ensures
        rest@ == without_key(keys@, key),
{
    let mut rest: Vec<u32> = Vec::new();
    let mut i: usize = 0;
    while i < keys.len()
        invariant
            i <= keys@.len(),
            rest@ == without_key(keys@.take(i as int), key),
        decreases keys@.len() - i,
    {
        proof {
            assert(keys@.take(i + 1).drop_last() =~= keys@.take(i as int));
        }
        if keys[i] != key {
            rest.push(keys[i]);
        }
        i += 1;
    }
    proof {
        assert(keys@.take(i as int) =~= keys@);
    }
    rest
}

/// The record of what is held down.
pub struct HeldInput {
    keys: Vec<u32>,
    left: bool,
    right: bool,
    middle: bool,
}

impl View for HeldInput {
    type V = HeldState;

    closed spec fn view(&self) -> HeldState {
        HeldState { keys: self.keys@, left: self.left, right: self.right, middle: self.middle }
    }
}

impl HeldInput {
    pub fn new() -> (held: HeldInput)
        ensures
            held@ == nothing_held(),
    {
        HeldInput { keys: Vec::new(), left: false, right: false, middle: false }
    }

    /// Takes note of an event that has gone to the machine.
    pub fn note(&mut self, event: InputEvent)
        ensures
            final(self)@ == note_event(old(self)@, event),
    {
        match event {
            InputEvent::Keyboard { key_code, is_down } => {
                if is_down {
                    if !has_key(&self.keys, key_code) {
                        self.keys.push(key_code);
                    }
                } else {
                    self.keys = drop_key(&self.keys, key_code);
                }
            },
            InputEvent::MouseButton { button, is_down } => match button {
                MouseButton::Left => {
                    self.left = is_down;
                },
                MouseButton::Right => {
                    self.right = is_down;
                },
                MouseButton::Middle => {
                    self.middle = is_down;
                },
            },
            _ => {},
        }
    }

    /// The events that let go of everything that is held down. After them
    /// nothing is held.
    pub fn release(&mut self) -> (events: Vec<InputEvent>)
        ensures
            events@ == releases(old(self)@),
            final(self)@ == nothing_held(),
    {
        let mut events: Vec<InputEvent> = Vec::new();
        let mut i: usize = 0;
        while i < self.keys.len()
            invariant
                i <= self.keys@.len(),
                events@.len() == i,
                forall|k: int|
                    0 <= k < i ==> events@[k] == (InputEvent::Keyboard {
                        key_code: self.keys@[k],
                        is_down: false,
                    }),
            decreases self.keys@.len() - i,
        {
            events.push(InputEvent::Keyboard { key_code: self.keys[i], is_down: false });
            i += 1;
        }
        let ghost keys = events@;
        assert(keys =~= Seq::new(
            self.keys@.len(),
            |i: int| InputEvent::Keyboard { key_code: self.keys@[i], is_down: false },
        ));
        if self.left {
            events.push(InputEvent::MouseButton { button: MouseButton::Left, is_down: false });
        }
        if self.right {
            events.push(InputEvent::MouseButton { button: MouseButton::Right, is_down: false });
        }
        if self.middle {
            events.push(InputEvent::MouseButton { button: MouseButton::Middle, is_down: false });
        }
        assert(events@ =~= releases(self@));
        self.keys = Vec::new();
        self.left = false;
        self.right = false;
        self.middle = false;
        events
    }
}

/// Letting go names nothing but keys and buttons, and each of them as going
/// up.
pub proof fn lemma_releases_are_ups(held: HeldState)
    ensures
        forall|i: int|
            0 <= i < releases(held).len() ==> match #[trigger] releases(held)[i] {
                InputEvent::Keyboard { is_down, .. } => !is_down,
                InputEvent::MouseButton { is_down, .. } => !is_down,
                _ => false,
            },
{
}

/// Whatever is held, letting go names every key and every button that is
/// held; and where nothing is held, there is nothing to let go of.
pub proof fn lemma_release_lets_everything_go(held: HeldState)
    ensures
        releases(nothing_held()) == Seq::<InputEvent>::empty(),
        forall|i: int|
            0 <= i < held.keys.len() ==> releases(held).contains(
                InputEvent::Keyboard { key_code: #[trigger] held.keys[i], is_down: false },
            ),
        held.left ==> releases(held).contains(
            InputEvent::MouseButton { button: MouseButton::Left, is_down: false },
        ),
        held.right ==> releases(held).contains(
            InputEvent::MouseButton { button: MouseButton::Right, is_down: false },
        ),
        held.middle ==> releases(held).contains(
            InputEvent::MouseButton { button: MouseButton::Middle, is_down: false },
        ),
{
    assert(releases(nothing_held()) =~= Seq::<InputEvent>::empty());
    let r = releases(held);
    let n = held.keys.len() as int;
    assert forall|i: int| 0 <= i < held.keys.len() implies r.contains(
        InputEvent::Keyboard { key_code: #[trigger] held.keys[i], is_down: false },
    ) by {
        assert(r[i] == (InputEvent::Keyboard { key_code: held.keys[i], is_down: false }));
    }
    let l: int = if held.left {
        1
    } else {
        0
    };
    let m: int = if held.right {
        1
    } else {
        0
    };
    if held.left {
        assert(r[n] == (InputEvent::MouseButton { button: MouseButton::Left, is_down: false }));
    }
    if held.right {
        assert(r[n + l] == (InputEvent::MouseButton { button: MouseButton::Right, is_down: false }));
    }
    if held.middle {
        assert(r[n + l + m] == (InputEvent::MouseButton {
            button: MouseButton::Middle,
            is_down: false,
        }));
    }
}

} // verus!
