use platform_passer::config::{RemoteScreen, ScreenInfo, ScreenPosition, Topology};
use platform_passer::frame::{InputEvent, MouseButton, ScreenSide};
use platform_passer::redirect::{
    Control, Decision, RawSample, RedirectionEngine, Sample, Warp, ENTRY_OFFSET, UNIT,
};

fn screen() -> ScreenInfo {
    ScreenInfo { width: 1000, height: 1000, dpi_scale: 1000 }
}

fn topology(positions: &[ScreenPosition]) -> Topology {
    let mut remotes = Vec::new();
    for (i, position) in positions.iter().enumerate() {
        remotes.push(RemoteScreen { id: format!("peer-{}", i), position: *position, info: screen() });
    }
    Topology { local: screen(), remotes }
}

fn engine(positions: &[ScreenPosition]) -> RedirectionEngine {
    let mut engine = RedirectionEngine::new(1000, 1000);
    engine.set_capturing(true);
    engine.update_topology(&topology(positions));
    engine
}

fn at(x: i32, y: i32, now_ms: u64) -> Sample {
    Sample { raw: RawSample::Move { x, y, dx: 0, dy: 0 }, injected: false, now_ms }
}

fn delta(dx: i32, dy: i32, now_ms: u64) -> Sample {
    Sample { raw: RawSample::Move { x: 500, y: 500, dx, dy }, injected: false, now_ms }
}

fn key(key_code: u32, is_down: bool, now_ms: u64) -> Sample {
    Sample { raw: RawSample::Key { key_code, is_down }, injected: false, now_ms }
}

fn button(button: MouseButton, is_down: bool, now_ms: u64) -> Sample {
    Sample { raw: RawSample::Button { button, is_down }, injected: false, now_ms }
}

fn pass() -> Decision {
    Decision { send: vec![], release_local: vec![], swallow: false, warp: Warp::Stay }
}

#[test]
fn right_edge_hands_control_to_the_peer_on_the_right() {
    let mut engine = engine(&[ScreenPosition::Right]);
    let decision = engine.process(at(999, 500, 0));
    assert_eq!(decision.send, vec![InputEvent::ScreenSwitch(ScreenSide::Remote)]);
    assert!(decision.swallow);
    assert_eq!(decision.warp, Warp::Center);
    assert_eq!(
        engine.control(),
        Control::Remote { target: ScreenPosition::Right, x: 50_000, y: 500_000 }
    );
}

#[test]
fn entry_points_lie_near_the_facing_edge() {
    let mut left = engine(&[ScreenPosition::Left]);
    left.process(at(1, 250, 0));
    assert_eq!(
        left.control(),
        Control::Remote { target: ScreenPosition::Left, x: UNIT - ENTRY_OFFSET, y: 250_000 }
    );
    let mut top = engine(&[ScreenPosition::Top]);
    top.process(at(400, 0, 0));
    assert_eq!(
        top.control(),
        Control::Remote { target: ScreenPosition::Top, x: 400_000, y: 950_000 }
    );
    let mut bottom = engine(&[ScreenPosition::Bottom]);
    bottom.process(at(400, 1000, 0));
    assert_eq!(
        bottom.control(),
        Control::Remote { target: ScreenPosition::Bottom, x: 400_000, y: 50_000 }
    );
}

#[test]
fn the_margin_of_an_edge_is_two_thousandths() {
    let mut engine = engine(&[ScreenPosition::Right]);
    assert_eq!(engine.process(at(997, 500, 0)), pass());
    assert!(!engine.is_remote());
    engine.process(at(998, 500, 1));
    assert!(engine.is_remote());
}

#[test]
fn the_first_peer_whose_edge_is_reached_wins() {
    let mut engine = engine(&[ScreenPosition::Top, ScreenPosition::Left]);
    engine.process(at(0, 0, 0));
    assert_eq!(
        engine.control(),
        Control::Remote { target: ScreenPosition::Top, x: 0, y: 950_000 }
    );
}

#[test]
fn an_edge_without_a_peer_does_nothing() {
    let mut engine = engine(&[ScreenPosition::Right]);
    assert_eq!(engine.process(at(0, 500, 0)), pass());
    assert_eq!(engine.control(), Control::Local);
}

#[test]
fn without_topology_no_edge_hands_control_over() {
    let mut engine = RedirectionEngine::new(1000, 1000);
    engine.set_capturing(true);
    assert_eq!(engine.process(at(0, 0, 0)), pass());
    assert_eq!(engine.process(at(1000, 1000, 1)), pass());
    assert_eq!(engine.control(), Control::Local);
    let mut cleared = self::engine(&[ScreenPosition::Left]);
    cleared.clear_topology();
    assert_eq!(cleared.process(at(0, 0, 0)), pass());
    assert_eq!(cleared.control(), Control::Local);
}

#[test]
fn without_capture_the_engine_stays_local() {
    let mut engine = RedirectionEngine::new(1000, 1000);
    engine.update_topology(&topology(&[ScreenPosition::Left]));
    assert!(!engine.is_capturing());
    assert_eq!(engine.process(at(0, 500, 0)), pass());
    assert_eq!(engine.process(key(0x41, true, 1)), pass());
    assert_eq!(engine.control(), Control::Local);
}

#[test]
fn an_engine_whose_capture_stops_keeps_input_from_the_local_machine() {
    let mut engine = engine(&[ScreenPosition::Right]);
    engine.process(at(999, 500, 0));
    engine.set_capturing(false);
    let sent = engine.process(key(0x41, true, 1));
    assert!(sent.swallow);
    assert!(engine.is_remote());
    let unnamed = engine.process_other(false);
    assert_eq!(unnamed, Decision { send: vec![], release_local: vec![], swallow: true, warp: Warp::Stay });
    assert_eq!(engine.process_other(true), pass());
    engine.process(delta(-100, 0, 10));
    assert!(!engine.is_remote());
    assert_eq!(engine.process_other(false), pass());
    assert_eq!(engine.process(at(999, 500, 1_000)), pass());
}

#[test]
fn deltas_move_the_virtual_cursor() {
    let mut engine = engine(&[ScreenPosition::Right]);
    engine.process(at(999, 500, 0));
    let decision = engine.process(delta(100, -50, 10));
    assert_eq!(decision.send, vec![InputEvent::MouseMove { x: 150_000, y: 450_000 }]);
    assert!(decision.swallow);
    assert_eq!(decision.warp, Warp::Center);
    assert_eq!(
        engine.control(),
        Control::Remote { target: ScreenPosition::Right, x: 150_000, y: 450_000 }
    );
}

#[test]
fn the_virtual_cursor_stays_on_the_screen() {
    let mut engine = engine(&[ScreenPosition::Top]);
    engine.process(at(500, 0, 0));
    let deltas: [(i32, i32); 8] = [
        (i32::MAX, 0),
        (i32::MAX, -5),
        (i32::MIN, 0),
        (i32::MIN, -1),
        (7, -100_000),
        (-3, -1),
        (1_000_000, -1_000_000),
        (0, 0),
    ];
    let mut now = 0;
    for (dx, dy) in deltas {
        now += 10;
        engine.process(delta(dx, dy, now));
        match engine.control() {
            Control::Remote { x, y, .. } => {
                assert!(x <= UNIT);
                assert!(y <= UNIT);
            }
            Control::Local => panic!("control came back"),
        }
    }
    assert_eq!(engine.control(), Control::Remote { target: ScreenPosition::Top, x: UNIT, y: 0 });
}

#[test]
fn the_facing_edge_brings_control_back() {
    let mut engine = engine(&[ScreenPosition::Right]);
    engine.process(at(999, 500, 0));
    let decision = engine.process(delta(-60, 0, 100));
    assert_eq!(decision.send, vec![InputEvent::ScreenSwitch(ScreenSide::Local)]);
    assert!(!decision.swallow);
    assert_eq!(decision.warp, Warp::To { x: 990, y: 500 });
    assert_eq!(engine.control(), Control::Local);
}

#[test]
fn control_comes_back_at_the_edge_that_faces_home() {
    let cases = [
        (ScreenPosition::Left, (0, 500), (100, 0), Warp::To { x: 10, y: 500 }),
        (ScreenPosition::Right, (1000, 500), (-100, 0), Warp::To { x: 990, y: 500 }),
        (ScreenPosition::Top, (500, 0), (0, 100), Warp::To { x: 500, y: 10 }),
        (ScreenPosition::Bottom, (500, 1000), (0, -100), Warp::To { x: 500, y: 990 }),
    ];
    for (side, (x, y), (dx, dy), warp) in cases {
        let mut engine = engine(&[side]);
        engine.process(at(x, y, 0));
        assert!(engine.is_remote());
        let decision = engine.process(delta(dx, dy, 50));
        assert_eq!(decision.send, vec![InputEvent::ScreenSwitch(ScreenSide::Local)]);
        assert_eq!(decision.warp, warp);
        assert!(!engine.is_remote());
    }
}

#[test]
fn switches_alternate_over_a_long_walk() {
    let mut engine = engine(&[ScreenPosition::Right]);
    let mut now: u64 = 0;
    let mut announced = Vec::new();
    for round in 0..20 {
        let samples = [
            at(999, 500, now + 1_000),
            at(1000, 500, now + 1_001),
            at(999, 400, now + 1_002),
            delta(500, 0, now + 1_100),
            delta(-2_000, 0, now + 1_200),
            delta(-2_000, 0, now + 1_201),
            at(999, 500, now + 1_202),
            at(500, 500, now + 1_250),
        ];
        for sample in samples {
            for event in engine.process(sample).send {
                if let InputEvent::ScreenSwitch(side) = event {
                    announced.push(side);
                }
            }
        }
        now += 2_000;
        assert_eq!(announced.len(), 2 * (round + 1));
    }
    for (i, side) in announced.iter().enumerate() {
        let expected = if i % 2 == 0 { ScreenSide::Remote } else { ScreenSide::Local };
        assert_eq!(*side, expected);
    }
}

#[test]
fn the_cooldown_keeps_the_edge_from_firing_again() {
    let mut engine = engine(&[ScreenPosition::Right]);
    engine.process(at(999, 500, 1_000));
    engine.process(delta(-100, 0, 1_100));
    assert!(!engine.is_remote());
    assert!(engine.is_cooling_down(1_100));
    assert!(engine.is_cooling_down(1_399));
    assert!(!engine.is_cooling_down(1_400));
    assert_eq!(engine.process(at(999, 500, 1_399)), pass());
    assert!(!engine.is_remote());
    let decision = engine.process(at(999, 500, 1_400));
    assert_eq!(decision.send, vec![InputEvent::ScreenSwitch(ScreenSide::Remote)]);
}

#[test]
fn cursor_positions_are_sent_at_most_every_eight_milliseconds() {
    let mut engine = engine(&[ScreenPosition::Right]);
    engine.process(at(999, 500, 0));
    assert_eq!(engine.process(delta(10, 0, 100)).send.len(), 1);
    let held_back = engine.process(delta(10, 0, 107));
    assert_eq!(held_back.send, vec![]);
    assert!(held_back.swallow);
    assert_eq!(held_back.warp, Warp::Center);
    assert_eq!(
        engine.process(delta(10, 0, 108)).send,
        vec![InputEvent::MouseMove { x: 80_000, y: 500_000 }]
    );
    assert_eq!(engine.process(delta(10, 0, 50)).send.len(), 1);
}

#[test]
fn keys_buttons_and_wheel_go_to_the_peer_while_it_has_control() {
    let mut engine = engine(&[ScreenPosition::Right]);
    assert_eq!(engine.process(key(0x41, true, 0)), pass());
    assert_eq!(engine.process(key(0x41, false, 1)), pass());
    assert_eq!(engine.process(button(MouseButton::Left, true, 2)), pass());
    assert_eq!(engine.process(button(MouseButton::Left, false, 3)), pass());
    let scroll = Sample { raw: RawSample::Scroll { dx: 0, dy: 120 }, injected: false, now_ms: 4 };
    assert_eq!(engine.process(scroll), pass());
    engine.process(at(999, 500, 10));
    let sent = engine.process(key(0x41, true, 11));
    assert_eq!(sent.send, vec![InputEvent::Keyboard { key_code: 0x41, is_down: true }]);
    assert!(sent.swallow);
    assert_eq!(sent.warp, Warp::Stay);
    let sent = engine.process(button(MouseButton::Right, true, 12));
    assert_eq!(
        sent.send,
        vec![InputEvent::MouseButton { button: MouseButton::Right, is_down: true }]
    );
    assert!(sent.swallow);
    let sent = engine.process(Sample { now_ms: 13, ..scroll });
    assert_eq!(sent.send, vec![InputEvent::Scroll { dx: 0, dy: 120 }]);
    assert!(sent.swallow);
}

#[test]
fn escape_brings_control_back_at_once() {
    let mut engine = engine(&[ScreenPosition::Left]);
    assert_eq!(engine.process(key(0x1B, true, 0)), pass());
    engine.process(at(0, 500, 10));
    assert!(engine.is_remote());
    let decision = engine.process(key(0x1B, true, 20));
    assert_eq!(decision.send, vec![InputEvent::ScreenSwitch(ScreenSide::Local)]);
    assert!(decision.swallow);
    assert_eq!(decision.warp, Warp::Stay);
    assert_eq!(engine.control(), Control::Local);
    assert!(engine.is_cooling_down(21));
}

#[test]
fn the_side_that_loses_control_lets_go_of_what_it_holds() {
    let mut engine = engine(&[ScreenPosition::Right]);
    engine.process(key(0x10, true, 0));
    engine.process(key(0x11, true, 1));
    engine.process(key(0x10, true, 2));
    engine.process(key(0x41, true, 3));
    engine.process(key(0x41, false, 4));
    engine.process(button(MouseButton::Middle, true, 5));
    engine.process(button(MouseButton::Left, true, 6));
    let over = engine.process(at(999, 500, 10));
    assert_eq!(over.send, vec![InputEvent::ScreenSwitch(ScreenSide::Remote)]);
    assert_eq!(
        over.release_local,
        vec![
            InputEvent::Keyboard { key_code: 0x10, is_down: false },
            InputEvent::Keyboard { key_code: 0x11, is_down: false },
            InputEvent::MouseButton { button: MouseButton::Left, is_down: false },
            InputEvent::MouseButton { button: MouseButton::Middle, is_down: false },
        ]
    );
    engine.process(key(0x12, true, 20));
    engine.process(button(MouseButton::Right, true, 21));
    let back = engine.process(delta(-100, 0, 30));
    assert_eq!(
        back.send,
        vec![
            InputEvent::Keyboard { key_code: 0x12, is_down: false },
            InputEvent::MouseButton { button: MouseButton::Right, is_down: false },
            InputEvent::ScreenSwitch(ScreenSide::Local),
        ]
    );
    assert_eq!(back.release_local, vec![]);
    engine.process(at(500, 500, 1_000));
    let again = engine.process(at(999, 500, 1_001));
    assert_eq!(again.release_local, vec![]);
}

#[test]
fn injected_samples_are_left_alone() {
    let mut engine = engine(&[ScreenPosition::Right]);
    let injected = Sample { injected: true, ..at(999, 500, 0) };
    assert_eq!(engine.process(injected), pass());
    assert_eq!(engine.control(), Control::Local);
    engine.process(at(999, 500, 1));
    let before = engine.control();
    let injected = Sample { injected: true, ..delta(-500, 0, 2) };
    assert_eq!(engine.process(injected), pass());
    assert_eq!(engine.control(), before);
    let injected = Sample { injected: true, ..key(0x1B, true, 3) };
    assert_eq!(engine.process(injected), pass());
    assert_eq!(engine.control(), before);
}

#[test]
fn force_local_ends_remote_control() {
    let mut engine = engine(&[ScreenPosition::Right]);
    assert_eq!(engine.force_local(0), pass());
    engine.process(at(999, 500, 10));
    engine.process(key(0x41, true, 11));
    let decision = engine.force_local(20);
    assert_eq!(
        decision.send,
        vec![
            InputEvent::Keyboard { key_code: 0x41, is_down: false },
            InputEvent::ScreenSwitch(ScreenSide::Local),
        ]
    );
    assert!(!decision.swallow);
    assert_eq!(decision.warp, Warp::Stay);
    assert_eq!(engine.control(), Control::Local);
    assert!(engine.is_cooling_down(100));
}

#[test]
fn unusable_bounds_fall_back() {
    let mut engine = RedirectionEngine::new(0, 0);
    engine.set_capturing(true);
    engine.update_topology(&topology(&[ScreenPosition::Right]));
    assert_eq!(engine.process(at(1915, 540, 0)), pass());
    engine.process(at(1917, 540, 1));
    assert_eq!(
        engine.control(),
        Control::Remote { target: ScreenPosition::Right, x: 50_000, y: 500_000 }
    );
    engine.force_local(2);
    engine.set_bounds(200, 100);
    engine.process(at(200, 50, 1_000));
    assert_eq!(
        engine.control(),
        Control::Remote { target: ScreenPosition::Right, x: 50_000, y: 500_000 }
    );
    let moved = engine.process(delta(1, 1, 1_010));
    assert_eq!(moved.send, vec![InputEvent::MouseMove { x: 55_000, y: 510_000 }]);
}

#[test]
fn positions_outside_the_screen_count_as_its_edge() {
    let mut engine = engine(&[ScreenPosition::Left]);
    engine.process(at(-50, 5_000, 0));
    assert_eq!(
        engine.control(),
        Control::Remote { target: ScreenPosition::Left, x: 950_000, y: 1_000_000 }
    );
}
