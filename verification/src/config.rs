//! Configuration: the screens of the local machine and of its peers, and the
//! switches of input and clipboard handling.
//!
//! Scale factors are fixed-point numbers in thousandths: `1000` stands for a
//! factor of one.

use vstd::prelude::*;

verus! {

/// The value that stands for a scale factor of one.
pub const SCALE_ONE: u32 = 1000;

/// Size of one screen in logical points, and the factor between logical points
/// and physical pixels in thousandths. A factor below `SCALE_ONE` is not valid.
#[derive(Debug, Clone, Copy, PartialEq, Eq, Structural)]
pub struct ScreenInfo {
    pub width: u32,
    pub height: u32,
    pub dpi_scale: u32,
}

impl ScreenInfo {
    /// Whether the scale factor is at least one.
    pub open spec fn is_valid(&self) -> bool {
        self.dpi_scale >= SCALE_ONE
    }
}

/// The scale factor, in thousandths, of a screen that is `width` points and
/// `pixels_wide` pixels wide: their quotient rounded down, at least one, at
/// most what the field can hold; one where the width is zero.
pub open spec fn spec_dpi_scale(width: u32, pixels_wide: u32) -> int {
    if width == 0 {
        SCALE_ONE as int
    } else {
        let scaled = (pixels_wide as int) * (SCALE_ONE as int) / (width as int);
        if scaled < SCALE_ONE {
            SCALE_ONE as int
        } else if scaled > u32::MAX {
            u32::MAX as int
        } else {
            scaled
        }
    }
}

impl Default for ScreenInfo {
    fn default() -> (info: ScreenInfo)
        ensures
            info == (ScreenInfo { width: 1920, height: 1080, dpi_scale: SCALE_ONE }),
    {
        ScreenInfo { width: 1920, height: 1080, dpi_scale: SCALE_ONE }
    }
}

/// The side of the local screen on which a peer's screen lies.
#[derive(Debug, Clone, Copy, PartialEq, Eq, Structural)]
pub enum ScreenPosition {
    Left,
    Right,
    Top,
    Bottom,
}

/// A peer: its name (host name or address), where its screen lies, and the
/// screen itself.
#[derive(Debug, Clone, PartialEq, Eq)]
pub struct RemoteScreen {
    pub id: String,
    pub position: ScreenPosition,
    pub info: ScreenInfo,
}

pub struct RemoteScreenView {
    pub id: Seq<char>,
    pub position: ScreenPosition,
    pub info: ScreenInfo,
}

impl View for RemoteScreen {
    type V = RemoteScreenView;

    open spec fn view(&self) -> RemoteScreenView {
        RemoteScreenView { id: self.id@, position: self.position, info: self.info }
    }
}

impl DeepView for RemoteScreen {
    type V = RemoteScreenView;

    open spec fn deep_view(&self) -> RemoteScreenView {
        self@
    }
}

/// The local screen and the peers around it, in the order in which their edges
/// are tried.
#[derive(Debug, Clone, PartialEq, Eq)]
pub struct Topology {
    pub local: ScreenInfo,
    pub remotes: Vec<RemoteScreen>,
}

pub struct TopologyView {
    pub local: ScreenInfo,
    pub remotes: Seq<RemoteScreenView>,
}

impl View for Topology {
    type V = TopologyView;

    open spec fn view(&self) -> TopologyView {
        TopologyView { local: self.local, remotes: self.remotes.deep_view() }
    }
}

impl Topology {
    /// The sides on which the peers lie, in the order of the peers.
    pub open spec fn spec_positions(&self) -> Seq<ScreenPosition> {
        Seq::new(self.remotes@.len(), |i: int| self.remotes@[i].position)
    }

    /// The sides on which the peers lie, in the order of the peers.
    pub fn positions(&self) -> (sides: Vec<ScreenPosition>)
        ensures
            sides@ == self.spec_positions(),
    {
        let mut sides: Vec<ScreenPosition> = Vec::new();
        let mut i: usize = 0;
        while i < self.remotes.len()
            invariant
                i <= self.remotes@.len(),
                sides@.len() == i,
                forall|k: int| 0 <= k < i ==> sides@[k] == self.remotes@[k].position,
            decreases self.remotes@.len() - i,
        {
            sides.push(self.remotes[i].position);
            i += 1;
        }
        assert(sides@ =~= self.spec_positions());
        sides
    }
}

impl Default for Topology {
    fn default() -> (topology: Topology)
        ensures
            topology.local == (ScreenInfo { width: 1920, height: 1080, dpi_scale: SCALE_ONE }),
            topology.remotes@.len() == 0,
    {
        Topology { local: ScreenInfo::default(), remotes: Vec::new() }
    }
}

/// How captured input is scaled before it is sent. The two speed factors are
/// in thousandths.
#[derive(Debug, Clone, Copy, PartialEq, Eq, Structural)]
pub struct InputConfig {
    pub cursor_speed_multiplier: u32,
    pub scroll_speed_multiplier: u32,
    pub maintain_aspect_ratio: bool,
    pub scroll_reverse: bool,
}

impl Default for InputConfig {
    fn default() -> (config: InputConfig)
        ensures
            config == (InputConfig {
                cursor_speed_multiplier: SCALE_ONE,
                scroll_speed_multiplier: SCALE_ONE,
                maintain_aspect_ratio: true,
                scroll_reverse: false,
            }),
    {
        InputConfig {
            cursor_speed_multiplier: SCALE_ONE,
            scroll_speed_multiplier: SCALE_ONE,
            maintain_aspect_ratio: true,
            scroll_reverse: false,
        }
    }
}

/// Which clipboard contents are sent to the peer.
#[derive(Debug, Clone, Copy, PartialEq, Eq, Structural)]
pub struct ClipboardConfig {
    pub sync_enabled: bool,
    pub sync_images: bool,
}

impl Default for ClipboardConfig {
    fn default() -> (config: ClipboardConfig)
        ensures
            config == (ClipboardConfig { sync_enabled: true, sync_images: false }),
    {
        ClipboardConfig { sync_enabled: true, sync_images: false }
    }
}

#[derive(Debug, Clone, PartialEq, Eq)]
pub struct AppConfig {
    pub topology: Topology,
    pub input: InputConfig,
    pub clipboard: ClipboardConfig,
}

pub struct AppConfigView {
    pub topology: TopologyView,
    pub input: InputConfig,
    pub clipboard: ClipboardConfig,
}

impl View for AppConfig {
    type V = AppConfigView;

    open spec fn view(&self) -> AppConfigView {
        AppConfigView { topology: self.topology@, input: self.input, clipboard: self.clipboard }
    }
}

impl Default for AppConfig {
    fn default() -> (config: AppConfig)
        ensures
            config.topology.remotes@.len() == 0,
            config.topology.local == (ScreenInfo { width: 1920, height: 1080, dpi_scale: SCALE_ONE }),
            config.input == (InputConfig {
                cursor_speed_multiplier: SCALE_ONE,
                scroll_speed_multiplier: SCALE_ONE,
                maintain_aspect_ratio: true,
                scroll_reverse: false,
            }),
            config.clipboard == (ClipboardConfig { sync_enabled: true, sync_images: false }),
    {
        AppConfig {
            topology: Topology::default(),
            input: InputConfig::default(),
            clipboard: ClipboardConfig::default(),
        }
    }
}

} // verus!
