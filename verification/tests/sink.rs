use platform_passer::config::InputConfig;
use platform_passer::frame::{InputEvent, MouseButton, ScreenSide};
use platform_passer::sink::{
    force_release_modifiers, MacosInput, MacosInputSink, WindowsInput, WindowsInputSink,
};

fn key_event(key_code: u32, is_down: bool) -> InputEvent {
    InputEvent::Keyboard { key_code, is_down }
}

fn button_event(button: MouseButton, is_down: bool) -> InputEvent {
    InputEvent::MouseButton { button, is_down }
}

#[test]
fn windows_keys_and_buttons() {
    let mut sink = WindowsInputSink::new();
    assert_eq!(sink.inject_event(key_event(0x41, true)), vec![WindowsInput::Key { vk: 0x41, key_up: false }]);
    assert_eq!(sink.inject_event(key_event(0x41, false)), vec![WindowsInput::Key { vk: 0x41, key_up: true }]);
    assert_eq!(
        sink.inject_event(key_event(0x1_0041, true)),
        vec![WindowsInput::Key { vk: 0x41, key_up: false }]
    );
    assert_eq!(
        sink.inject_event(button_event(MouseButton::Middle, true)),
        vec![WindowsInput::Button { button: MouseButton::Middle, is_down: true }]
    );
    assert_eq!(sink.inject_event(InputEvent::ScreenSwitch(ScreenSide::Remote)), vec![]);
}

#[test]
fn windows_positions_cover_the_virtual_desktop() {
    let mut sink = WindowsInputSink::new();
    let cases = [
        (0, 0, 0, 0),
        (1_000_000, 1_000_000, 65_535, 65_535),
        (500_000, 250_000, 32_767, 16_383),
        (1, 16, 0, 1),
        (u32::MAX, 2_000_000, 65_535, 65_535),
    ];
    for (x, y, ax, ay) in cases {
        assert_eq!(
            sink.inject_event(InputEvent::MouseMove { x, y }),
            vec![WindowsInput::MoveAbsolute { x: ax, y: ay }]
        );
    }
}

#[test]
fn windows_wheel_turns() {
    let mut sink = WindowsInputSink::new();
    assert_eq!(
        sink.inject_event(InputEvent::Scroll { dx: 0, dy: -120 }),
        vec![WindowsInput::Wheel { delta: -120 }]
    );
    assert_eq!(
        sink.inject_event(InputEvent::Scroll { dx: 240, dy: 0 }),
        vec![WindowsInput::HorizontalWheel { delta: 240 }]
    );
    assert_eq!(
        sink.inject_event(InputEvent::Scroll { dx: 1, dy: 2 }),
        vec![WindowsInput::Wheel { delta: 2 }, WindowsInput::HorizontalWheel { delta: 1 }]
    );
    assert_eq!(sink.inject_event(InputEvent::Scroll { dx: 0, dy: 0 }), vec![]);
}

#[test]
fn windows_reset_lets_go_of_everything_held() {
    let mut sink = WindowsInputSink::new();
    assert_eq!(sink.reset_input(), vec![]);
    sink.inject_event(key_event(0x10, true));
    sink.inject_event(key_event(0x41, true));
    sink.inject_event(key_event(0x10, true));
    sink.inject_event(key_event(0x42, true));
    sink.inject_event(key_event(0x41, false));
    sink.inject_event(button_event(MouseButton::Right, true));
    sink.inject_event(button_event(MouseButton::Left, true));
    sink.inject_event(button_event(MouseButton::Left, false));
    sink.inject_event(InputEvent::MouseMove { x: 5, y: 5 });
    sink.update_config(InputConfig::default());
    assert_eq!(
        sink.reset_input(),
        vec![
            WindowsInput::Key { vk: 0x10, key_up: true },
            WindowsInput::Key { vk: 0x42, key_up: true },
            WindowsInput::Button { button: MouseButton::Right, is_down: false },
        ]
    );
    assert_eq!(sink.reset_input(), vec![]);
}

#[test]
fn macos_positions_are_points_of_the_display() {
    let mut sink = MacosInputSink::new();
    assert_eq!(
        sink.inject_event(InputEvent::MouseMove { x: 500_000, y: 250_000 }, 1440, 900),
        vec![MacosInput::MouseMove { x: 720, y: 225 }]
    );
    assert_eq!(
        sink.inject_event(button_event(MouseButton::Left, true), 1440, 900),
        vec![MacosInput::Button { button: MouseButton::Left, is_down: true, x: 720, y: 225 }]
    );
    assert_eq!(
        sink.inject_event(InputEvent::MouseMove { x: 2_000_000, y: 1_000_000 }, 1440, 900),
        vec![MacosInput::MouseMove { x: 1440, y: 900 }]
    );
    assert_eq!(
        sink.inject_event(button_event(MouseButton::Left, false), 1440, 900),
        vec![MacosInput::Button { button: MouseButton::Left, is_down: false, x: 1440, y: 900 }]
    );
}

#[test]
fn macos_keys_are_converted() {
    let mut sink = MacosInputSink::new();
    assert_eq!(
        sink.inject_event(key_event(0x41, true), 100, 100),
        vec![MacosInput::Key { key_code: 0, is_down: true }]
    );
    assert_eq!(
        sink.inject_event(key_event(0x0D, false), 100, 100),
        vec![MacosInput::Key { key_code: 36, is_down: false }]
    );
    assert_eq!(
        sink.inject_event(key_event(0x5B, true), 100, 100),
        vec![MacosInput::Key { key_code: 55, is_down: true }]
    );
    assert_eq!(sink.inject_event(InputEvent::ScreenSwitch(ScreenSide::Local), 100, 100), vec![]);
}

#[test]
fn macos_wheel_follows_the_configuration() {
    let mut sink = MacosInputSink::new();
    let scroll = InputEvent::Scroll { dx: 7, dy: 120 };
    assert_eq!(sink.inject_event(scroll, 100, 100), vec![MacosInput::Scroll { delta: 120 }]);
    let mut config = InputConfig::default();
    config.scroll_speed_multiplier = 2_500;
    sink.update_config(config);
    assert_eq!(sink.inject_event(scroll, 100, 100), vec![MacosInput::Scroll { delta: 300 }]);
    config.scroll_reverse = true;
    sink.update_config(config);
    assert_eq!(sink.inject_event(scroll, 100, 100), vec![MacosInput::Scroll { delta: -300 }]);
    config.scroll_speed_multiplier = 1_500;
    sink.update_config(config);
    assert_eq!(
        sink.inject_event(InputEvent::Scroll { dx: 0, dy: -3 }, 100, 100),
        vec![MacosInput::Scroll { delta: 4 }]
    );
    assert_eq!(
        sink.inject_event(InputEvent::Scroll { dx: 0, dy: 3 }, 100, 100),
        vec![MacosInput::Scroll { delta: -4 }]
    );
    config.scroll_speed_multiplier = u32::MAX;
    sink.update_config(config);
    assert_eq!(
        sink.inject_event(InputEvent::Scroll { dx: 0, dy: i32::MIN }, 100, 100),
        vec![MacosInput::Scroll { delta: i32::MAX }]
    );
    assert_eq!(
        sink.inject_event(InputEvent::Scroll { dx: 0, dy: i32::MAX }, 100, 100),
        vec![MacosInput::Scroll { delta: i32::MIN }]
    );
}

#[test]
fn macos_reset_lets_go_of_everything_held() {
    let mut sink = MacosInputSink::new();
    sink.inject_event(InputEvent::MouseMove { x: 100_000, y: 100_000 }, 1000, 1000);
    sink.inject_event(key_event(0x10, true), 1000, 1000);
    sink.inject_event(key_event(0x41, true), 1000, 1000);
    sink.inject_event(key_event(0x41, false), 1000, 1000);
    sink.inject_event(button_event(MouseButton::Left, true), 1000, 1000);
    sink.inject_event(button_event(MouseButton::Middle, true), 1000, 1000);
    assert_eq!(
        sink.reset_input(),
        vec![
            MacosInput::Key { key_code: 56, is_down: false },
            MacosInput::Button { button: MouseButton::Left, is_down: false, x: 100, y: 100 },
            MacosInput::Button { button: MouseButton::Middle, is_down: false, x: 100, y: 100 },
        ]
    );
    assert_eq!(sink.reset_input(), vec![]);
}

#[test]
fn all_modifiers_can_be_let_go_by_force() {
    let codes: Vec<u16> = force_release_modifiers()
        .into_iter()
        .map(|input| match input {
            MacosInput::Key { key_code, is_down: false } => key_code,
            other => panic!("unexpected input {:?}", other),
        })
        .collect();
    assert_eq!(codes, vec![55, 54, 56, 60, 58, 61, 59, 62]);
}
