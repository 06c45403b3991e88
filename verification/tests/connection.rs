use platform_passer::config::ScreenInfo;
use platform_passer::connection::{
    classify_handshake, make_handshake, Connection, Directive, LinkEvent, Liveness, Phase, Role,
    Tick, PROTOCOL_VERSION,
};
use platform_passer::frame::{Frame, Handshake, Heartbeat};

fn fail_and_wait(connection: &mut Connection) -> u64 {
    let delay = match connection.on_event(LinkEvent::ConnectFailed) {
        Directive::Retry { delay_secs, was_active: false } => delay_secs,
        other => panic!("no retry: {:?}", other),
    };
    assert_eq!(connection.phase(), Phase::Backoff);
    assert_eq!(connection.on_event(LinkEvent::BackoffElapsed), Directive::Connect);
    assert_eq!(connection.phase(), Phase::Connecting);
    delay
}

#[test]
fn backoff_doubles_up_to_thirty_seconds() {
    let mut connection = Connection::new(Role::Initiator);
    let mut delays = Vec::new();
    for _ in 0..9 {
        delays.push(fail_and_wait(&mut connection));
    }
    assert_eq!(delays, vec![1, 2, 4, 8, 16, 30, 30, 30, 30]);
}

#[test]
fn backoff_starts_over_after_a_connection() {
    let mut connection = Connection::new(Role::Initiator);
    for _ in 0..4 {
        fail_and_wait(&mut connection);
    }
    assert_eq!(
        connection.on_event(LinkEvent::Connected),
        Directive::Handshake { send_first: true }
    );
    assert_eq!(
        connection.on_event(LinkEvent::PeerHandshake { version: 1 }),
        Directive::Activate { reply: false }
    );
    assert_eq!(
        connection.on_event(LinkEvent::LinkLost),
        Directive::Retry { delay_secs: 1, was_active: true }
    );
    assert_eq!(connection.on_event(LinkEvent::BackoffElapsed), Directive::Connect);
    assert_eq!(fail_and_wait(&mut connection), 2);
    assert_eq!(fail_and_wait(&mut connection), 4);
}

#[test]
fn failed_handshakes_back_off_like_failed_connections() {
    let mut connection = Connection::new(Role::Initiator);
    let failures = [
        LinkEvent::HandshakeFailed,
        LinkEvent::PeerHandshake { version: 2 },
        LinkEvent::ConnectFailed,
        LinkEvent::LinkLost,
        LinkEvent::HandshakeFailed,
        LinkEvent::PeerHandshake { version: 0 },
        LinkEvent::HandshakeFailed,
        LinkEvent::ConnectFailed,
    ];
    let mut delays = Vec::new();
    for failure in failures {
        if failure != LinkEvent::ConnectFailed {
            assert_eq!(
                connection.on_event(LinkEvent::Connected),
                Directive::Handshake { send_first: true }
            );
        }
        match connection.on_event(failure) {
            Directive::Retry { delay_secs, was_active: false } => delays.push(delay_secs),
            other => panic!("no retry: {:?}", other),
        }
        assert_eq!(connection.on_event(LinkEvent::BackoffElapsed), Directive::Connect);
    }
    assert_eq!(delays, vec![1, 2, 4, 8, 16, 30, 30, 30]);
    connection.on_event(LinkEvent::Connected);
    assert_eq!(
        connection.on_event(LinkEvent::PeerHandshake { version: 1 }),
        Directive::Activate { reply: false }
    );
    assert_eq!(
        connection.on_event(LinkEvent::LinkLost),
        Directive::Retry { delay_secs: 1, was_active: true }
    );
}

#[test]
fn backoff_does_not_start_over_without_a_connection() {
    let mut connection = Connection::new(Role::Initiator);
    assert_eq!(fail_and_wait(&mut connection), 1);
    assert_eq!(connection.on_event(LinkEvent::BackoffElapsed), Directive::Ignore);
    assert_eq!(connection.on_event(LinkEvent::LinkLost), Directive::Ignore);
    assert_eq!(connection.on_event(LinkEvent::HandshakeFailed), Directive::Ignore);
    assert_eq!(
        connection.on_event(LinkEvent::PeerHandshake { version: PROTOCOL_VERSION }),
        Directive::Ignore
    );
    assert_eq!(fail_and_wait(&mut connection), 2);
}

#[test]
fn an_initiator_goes_from_connecting_to_active() {
    let mut connection = Connection::new(Role::Initiator);
    assert_eq!(connection.role(), Role::Initiator);
    assert_eq!(connection.phase(), Phase::Connecting);
    assert_eq!(
        connection.on_event(LinkEvent::Connected),
        Directive::Handshake { send_first: true }
    );
    assert_eq!(connection.phase(), Phase::Handshaking);
    assert_eq!(
        connection.on_event(LinkEvent::PeerHandshake { version: 1 }),
        Directive::Activate { reply: false }
    );
    assert_eq!(connection.phase(), Phase::Active);
    assert_eq!(
        connection.on_event(LinkEvent::LinkLost),
        Directive::Retry { delay_secs: 1, was_active: true }
    );
    assert_eq!(connection.phase(), Phase::Backoff);
}

#[test]
fn a_handshake_of_another_version_is_a_failure() {
    let mut connection = Connection::new(Role::Initiator);
    connection.on_event(LinkEvent::Connected);
    assert_eq!(
        connection.on_event(LinkEvent::PeerHandshake { version: 2 }),
        Directive::Retry { delay_secs: 1, was_active: false }
    );
    assert_eq!(connection.phase(), Phase::Backoff);
    let mut connection = Connection::new(Role::Initiator);
    fail_and_wait(&mut connection);
    connection.on_event(LinkEvent::Connected);
    assert_eq!(
        connection.on_event(LinkEvent::LinkLost),
        Directive::Retry { delay_secs: 2, was_active: false }
    );
}

#[test]
fn disconnect_ends_the_connection_in_every_phase() {
    let paths: Vec<(Vec<LinkEvent>, bool)> = vec![
        (vec![], false),
        (vec![LinkEvent::ConnectFailed], false),
        (vec![LinkEvent::Connected], false),
        (vec![LinkEvent::Connected, LinkEvent::PeerHandshake { version: 1 }], true),
    ];
    for role in [Role::Initiator, Role::Listener] {
        for (events, was_active) in &paths {
            let mut connection = Connection::new(role);
            for event in events {
                connection.on_event(*event);
            }
            assert_eq!(
                connection.on_event(LinkEvent::Disconnect),
                Directive::Stop { was_active: *was_active }
            );
            assert_eq!(connection.phase(), Phase::Closed);
            for later in [
                LinkEvent::Connected,
                LinkEvent::ConnectFailed,
                LinkEvent::PeerHandshake { version: 1 },
                LinkEvent::HandshakeFailed,
                LinkEvent::LinkLost,
                LinkEvent::BackoffElapsed,
                LinkEvent::Disconnect,
            ] {
                assert_eq!(connection.on_event(later), Directive::Ignore);
                assert_eq!(connection.phase(), Phase::Closed);
            }
        }
    }
}

#[test]
fn a_listener_answers_the_handshake_and_goes_back_to_listening() {
    let mut connection = Connection::new(Role::Listener);
    assert_eq!(
        connection.on_event(LinkEvent::Connected),
        Directive::Handshake { send_first: false }
    );
    assert_eq!(
        connection.on_event(LinkEvent::PeerHandshake { version: 1 }),
        Directive::Activate { reply: true }
    );
    assert_eq!(
        connection.on_event(LinkEvent::LinkLost),
        Directive::Retry { delay_secs: 0, was_active: true }
    );
    assert_eq!(connection.phase(), Phase::Connecting);
    assert_eq!(
        connection.on_event(LinkEvent::Connected),
        Directive::Handshake { send_first: false }
    );
    assert_eq!(connection.on_event(LinkEvent::HandshakeFailed), Directive::Connect);
    assert_eq!(connection.phase(), Phase::Connecting);
    assert_eq!(connection.on_event(LinkEvent::ConnectFailed), Directive::Connect);
}

#[test]
fn the_handshake_names_version_and_capabilities() {
    let screen = ScreenInfo { width: 1920, height: 1080, dpi_scale: 1000 };
    assert_eq!(
        make_handshake("macos-client".to_string(), Some(screen)),
        Frame::Handshake(Handshake {
            version: 1,
            client_id: "macos-client".to_string(),
            capabilities: vec!["input".to_string(), "clipboard".to_string()],
            screen_info: Some(screen),
        })
    );
    let frame = make_handshake("linux-server".to_string(), None);
    assert_eq!(classify_handshake(&frame), LinkEvent::PeerHandshake { version: 1 });
    assert_eq!(
        classify_handshake(&Frame::Heartbeat(Heartbeat { timestamp: 1 })),
        LinkEvent::HandshakeFailed
    );
    assert_eq!(classify_handshake(&Frame::FileEnd { id: 1 }), LinkEvent::HandshakeFailed);
}

#[test]
fn heartbeats_go_out_every_five_seconds() {
    let mut liveness = Liveness::new(10_000);
    assert_eq!(liveness.on_tick(10_000), Tick::Idle);
    assert_eq!(liveness.on_tick(14_999), Tick::Idle);
    assert_eq!(liveness.on_tick(15_000), Tick::SendHeartbeat(Heartbeat { timestamp: 15 }));
    assert_eq!(liveness.on_tick(15_001), Tick::Idle);
    liveness.on_inbound(16_000);
    assert_eq!(liveness.on_tick(19_999), Tick::Idle);
    assert_eq!(liveness.on_tick(20_500), Tick::SendHeartbeat(Heartbeat { timestamp: 20 }));
}

#[test]
fn a_silent_peer_is_given_up_after_fifteen_seconds() {
    let mut liveness = Liveness::new(0);
    assert_eq!(liveness.on_tick(5_000), Tick::SendHeartbeat(Heartbeat { timestamp: 5 }));
    assert_eq!(liveness.on_tick(10_000), Tick::SendHeartbeat(Heartbeat { timestamp: 10 }));
    assert_eq!(liveness.on_tick(14_999), Tick::Idle);
    assert_eq!(liveness.on_tick(15_000), Tick::PeerDead);
    assert_eq!(liveness.on_tick(20_000), Tick::PeerDead);
    liveness.on_inbound(20_001);
    assert_eq!(liveness.on_tick(20_002), Tick::SendHeartbeat(Heartbeat { timestamp: 20 }));
    assert_eq!(liveness.on_tick(35_000), Tick::SendHeartbeat(Heartbeat { timestamp: 35 }));
    assert_eq!(liveness.on_tick(35_001), Tick::PeerDead);
}

#[test]
fn a_clock_that_goes_back_gives_nobody_up() {
    let mut liveness = Liveness::new(100_000);
    assert_eq!(liveness.on_tick(0), Tick::Idle);
    assert_eq!(liveness.on_tick(99_999), Tick::Idle);
}
