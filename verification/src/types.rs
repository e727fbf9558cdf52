//! Core value types shared by the broker: frame/video descriptors, error
//! taxonomy, input vocabulary and collaborator configuration records.
use vstd::prelude::*;

verus! {

/// Pixel layout of a captured frame.
#[derive(Clone, Copy, Debug, PartialEq, Eq, Structural)]
pub enum PixelFormat {
    Rgba8888,
    Bgr888,
    Nv12,
    Yuv420p,
}

/// Width and height of a frame in pixels.
#[derive(Clone, Copy, Debug, PartialEq, Eq, Structural)]
pub struct Resolution {
    pub width: u32,
    pub height: u32,
}

/// Geometry and layout of the frames a capture source produces.
#[derive(Clone, Copy, Debug, PartialEq, Eq, Structural)]
pub struct FrameInfo {
    pub resolution: Resolution,
    pub format: PixelFormat,
    pub stride: u32,
}

/// Error taxonomy of the broker. Each variant carries a human-readable
/// description of the failure.
#[derive(Debug)]
pub enum WcError {
    Capture(String),
    Encoding(String),
    Transport(String),
    Config(String),
    Platform(String),
    Unknown(String),
}

impl WcError {
    /// The description carried by the error, whatever its variant.
    pub fn message(&self) -> (r: &String)
        ensures
            r@ == self.text(),
    {
        match self {
            WcError::Capture(s) => s,
            WcError::Encoding(s) => s,
            WcError::Transport(s) => s,
            WcError::Config(s) => s,
            WcError::Platform(s) => s,
            WcError::Unknown(s) => s,
        }
    }

    /// The description carried by the error, as a sequence of characters.
    pub open spec fn text(&self) -> Seq<char> {
        match self {
            WcError::Capture(s) => s@,
            WcError::Encoding(s) => s@,
            WcError::Transport(s) => s@,
            WcError::Config(s) => s@,
            WcError::Platform(s) => s@,
            WcError::Unknown(s) => s@,
        }
    }
}

/// Wraps a device-level failure description as a platform error.
pub fn map_err(detail: String) -> (r: WcError)
    ensures
        r matches WcError::Platform(s) && s@ == detail@,
{
    WcError::Platform(detail)
}

/// A mouse button named by the remote peer.
#[derive(Clone, Copy, Debug, PartialEq, Eq, Structural)]
pub enum MouseButton {
    Left,
    Right,
    Middle,
}

/// Scroll direction named by the remote peer.
#[derive(Clone, Copy, Debug, PartialEq, Eq, Structural)]
pub enum ScrollAxis {
    Vertical,
    Horizontal,
}

/// A key named by the remote peer.
#[derive(Clone, Copy, Debug, PartialEq, Eq, Structural)]
pub enum KeyCode {
    Space,
    Enter,
    Backspace,
    Tab,
    Escape,
    ControlLeft,
    AltLeft,
    SuperLeft,
    VolumeUp,
    VolumeDown,
    MediaPlayPause,
    MediaNext,
    MediaPrev,
    PageUp,
    PageDown,
    Left,
    Right,
    Up,
    Down,
    Char(char),
    Unknown(u32),
}

/// The coarse kinds of events an injector can synthesise.
#[derive(Clone, Copy, Debug, PartialEq, Eq, Structural)]
pub enum InputType {
    Key,
    MouseMotion,
    MouseWheel,
    MouseButton,
}

/// Capability surface of a platform input injector. Implementations live
/// outside the verified core; the broker depends only on this surface.
pub trait InputInjector {
    fn move_mouse(&mut self, dx: i32, dy: i32) -> Result<(), WcError>;

    fn move_mouse_abs(&mut self, x: u32, y: u32, screen_width: u32, screen_height: u32) -> Result<
        (),
        WcError,
    >;

    fn click(&mut self, button: MouseButton) -> Result<(), WcError>;

    fn scroll(&mut self, axis: ScrollAxis, distance: i32) -> Result<(), WcError>;

    fn key_press(&mut self, key: KeyCode) -> Result<(), WcError>;
}

/// Loopback-audio analysis settings.
#[derive(Debug)]
pub struct AudioConfig {
    pub enabled: bool,
    pub codec: String,
    pub bitrate_kbps: u32,
    pub sample_rate: u32,
    pub source_regex: Option<String>,
}

/// Listener settings.
#[derive(Debug)]
pub struct NetworkConfig {
    pub port: u16,
    pub protocol: String,
    pub bind_address: String,
}

/// Spectrum-visualiser settings.
#[derive(Clone, Copy, Debug, PartialEq, Eq, Structural)]
pub struct VisualizerConfig {
    pub fps: u32,
    pub particle_count: u32,
    pub fft_size: usize,
}

/// Pass-through video encoder: hands each frame back unchanged.
pub struct DummyEncoder;

impl DummyEncoder {
    /// Mock compression: the encoded frame is the input frame.
    pub fn encode(&mut self, frame: &Vec<u8>) -> (r: Result<Vec<u8>, WcError>)
        ensures
            r matches Ok(b) && b@ == frame@,
    {
        Ok(frame.clone())
    }

    /// Accepts any target bitrate and frame rate; the encoder has no knobs.
    pub fn reconfigure(&mut self, bitrate: u32, fps: u32) -> (r: Result<(), WcError>)
        ensures
            r is Ok,
    {
        let _ = bitrate;
        let _ = fps;
        Ok(())
    }
}

/// A monitor reported to clients.
#[derive(Debug)]
pub struct MonitorInfo {
    pub id: i32,
    pub name: String,
    pub width: i32,
    pub height: i32,
    pub x: i32,
    pub y: i32,
    pub focused: bool,
}

/// An installed application reported to clients.
#[derive(Debug)]
pub struct AppInfo {
    pub name: String,
    pub exec_cmd: String,
    pub icon: String,
    pub icon_base64: Option<String>,
}

/// Requested geometry of a mirroring session.
#[derive(Clone, Copy, Debug, PartialEq, Eq, Structural)]
pub struct StreamConfig {
    pub width: u32,
    pub height: u32,
    pub fps: u32,
    pub monitor: i32,
}

/// Handle for the media-player collaborator. The collaborator's bus calls
/// live outside the verified core; the broker only routes commands to it.
pub struct MediaManager;

impl MediaManager {
    pub fn new() -> Self {
        MediaManager
    }
}

/// Handle for the installed-application scanner. Scanning the disk lives
/// outside the verified core.
pub struct AppManager;

} // verus!
