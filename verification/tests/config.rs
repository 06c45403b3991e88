use platform_passer::config::{
    AppConfig, ClipboardConfig, InputConfig, RemoteScreen, ScreenInfo, ScreenPosition, Topology,
};

#[test]
fn defaults() {
    assert_eq!(ScreenInfo::default(), ScreenInfo { width: 1920, height: 1080, dpi_scale: 1000 });
    assert_eq!(
        Topology::default(),
        Topology { local: ScreenInfo::default(), remotes: vec![] }
    );
    assert_eq!(
        InputConfig::default(),
        InputConfig {
            cursor_speed_multiplier: 1000,
            scroll_speed_multiplier: 1000,
            maintain_aspect_ratio: true,
            scroll_reverse: false,
        }
    );
    assert_eq!(ClipboardConfig::default(), ClipboardConfig { sync_enabled: true, sync_images: false });
    assert_eq!(
        AppConfig::default(),
        AppConfig {
            topology: Topology::default(),
            input: InputConfig::default(),
            clipboard: ClipboardConfig::default(),
        }
    );
}

#[test]
fn the_sides_of_the_peers_keep_their_order() {
    let peer = |id: &str, position| RemoteScreen {
        id: id.to_string(),
        position,
        info: ScreenInfo::default(),
    };
    let topology = Topology {
        local: ScreenInfo::default(),
        remotes: vec![
            peer("a", ScreenPosition::Top),
            peer("b", ScreenPosition::Left),
            peer("c", ScreenPosition::Top),
            peer("d", ScreenPosition::Bottom),
            peer("e", ScreenPosition::Right),
        ],
    };
    assert_eq!(
        topology.positions(),
        vec![
            ScreenPosition::Top,
            ScreenPosition::Left,
            ScreenPosition::Top,
            ScreenPosition::Bottom,
            ScreenPosition::Right,
        ]
    );
    assert_eq!(Topology::default().positions(), vec![]);
}
