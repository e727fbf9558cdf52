//! The schema-tagged message vocabulary spoken on a session socket, modelled
//! over plain values. Fractional wire fields are carried fixed-point: `_c`
//! fields hold hundredths, `_e4` fields hold ten-thousandths, `_milli`
//! fields hold thousandths.
use vstd::prelude::*;
use crate::registry::DeviceStatus;
use crate::registry::DeviceInfo;
use crate::types::AppInfo;
use crate::types::MonitorInfo;

verus! {

/// Media-player state proxied to clients. Durations and positions are in
/// microseconds; `volume_milli` holds thousandths of full volume.
#[derive(Debug)]
pub struct MediaMetadata {
    pub title: String,
    pub artist: String,
    pub album: String,
    pub art_url: String,
    pub duration: i64,
    pub position: i64,
    pub status: String,
    pub player_name: String,
    pub shuffle: bool,
    pub repeat_mode: String,
    pub volume_milli: i64,
    pub track_id: String,
}

/// A message decoded from a client frame.
#[derive(Debug)]
pub enum ClientMessage {
    /// Relative pointer motion, in thousandths of a pixel.
    Move { dx_milli: i64, dy_milli: i64 },
    /// Absolute pointer position, in ten-thousandths of the screen.
    MoveAbsolute { x_e4: i32, y_e4: i32 },
    Click { button: String },
    MouseClick { button: String, state: String },
    /// Vertical scroll, in thousandths of a wheel step.
    Scroll { dy_milli: i64 },
    KeyPress { key: String },
    PairRequest {
        device_name: String,
        id: String,
        version: String,
        auto_reconnect: Option<bool>,
    },
    GetStatus,
    ApproveDevice { id: String },
    RejectDevice { id: String },
    BlockDevice { id: String },
    TestOverlaySequence,
    UnblockDevice { id: String },
    MediaControl { action: String },
    MediaGetStatus,
    /// Pointer overlay targets; angles are in ten-thousandths of the unit
    /// square, sizes and factors in hundredths.
    PointerData {
        active: bool,
        mode: i32,
        pitch_e4: i32,
        roll_e4: i32,
        size_c: i32,
        color: String,
        zoom_c: i32,
        particle: i32,
        stretch_c: i32,
        has_image: bool,
        pulse_speed_c: i32,
        pulse_intensity_c: i32,
    },
    PresentationControl { action: String },
    SetPointerMonitor { monitor: i32 },
    LaunchApp { command: String },
    GetApps,
    StartMirroring { width: u32, height: u32, fps: u32, monitor: i32 },
    StopMirroring,
    Discovery,
    PointerImage { data: String },
    SetZoomEnabled { enabled: bool },
    MirrorResponse { device_id: String, accepted: bool },
    /// Audio sensitivity, in hundredths.
    SetAudioSensitivity { value_c: i32 },
    GetMonitors,
    SetAutoConnect { enabled: bool },
    SetDeviceAutoReconnect { id: String, enabled: bool },
    RequestAutoReconnect { id: String },
    AutoReconnectResponse { id: String, accepted: bool },
    PCStopMirroring { id: String },
    RegisterDashboard,
}

/// Status answered to a pair request.
#[derive(Clone, Copy, Debug, PartialEq, Eq, Structural)]
pub enum PairStatus {
    Pending,
    Trusted,
    Declined,
    Blocked,
    VersionMismatch,
}

/// The pair status that reports an existing device status.
pub open spec fn pair_status_of(st: DeviceStatus) -> PairStatus {
    match st {
        DeviceStatus::Pending => PairStatus::Pending,
        DeviceStatus::Trusted => PairStatus::Trusted,
        DeviceStatus::Declined => PairStatus::Declined,
        DeviceStatus::Blocked => PairStatus::Blocked,
    }
}

/// Converts a device status into the pair status that reports it.
pub fn pair_status_for(st: DeviceStatus) -> (r: PairStatus)
    ensures
        r == pair_status_of(st),
{
    match st {
        DeviceStatus::Pending => PairStatus::Pending,
        DeviceStatus::Trusted => PairStatus::Trusted,
        DeviceStatus::Declined => PairStatus::Declined,
        DeviceStatus::Blocked => PairStatus::Blocked,
    }
}

/// A message the broker sends to clients.
#[derive(Debug)]
pub enum ServerMessage {
    DiscoveryResponse { server_name: String, fingerprint: Option<String> },
    MediaStatus { metadata: Option<MediaMetadata> },
    StatusResponse { devices: Vec<DeviceInfo>, zoom_enabled: bool },
    PairResponse {
        status: PairStatus,
        server_version: String,
        server_name: String,
        fingerprint: Option<String>,
    },
    AppsList { apps: Vec<AppInfo> },
    MirrorRequest { device_id: String, device_name: String },
    MirrorStatus { allowed: bool, message: String },
    AutoReconnectRequest { device_id: String, device_name: String },
    StopMirroring,
    MonitorsList { monitors: Vec<MonitorInfo> },
    SecurityUpdate { status: DeviceStatus },
    RegisterResponse { success: bool },
    /// Spectrum band magnitudes, in ten-thousandths of full scale.
    Spectrum { bands: Vec<u32> },
    /// One encoded video frame.
    Frame { data: Vec<u8> },
}

/// The pair/discovery/registration/management vocabulary: messages the
/// broker interprets from any peer. Everything else is an input or control
/// message and demands a Trusted peer.
pub open spec fn in_open_vocabulary(m: ClientMessage) -> bool {
    match m {
        ClientMessage::PairRequest { .. } => true,
        ClientMessage::GetStatus => true,
        ClientMessage::ApproveDevice { .. } => true,
        ClientMessage::RejectDevice { .. } => true,
        ClientMessage::BlockDevice { .. } => true,
        ClientMessage::UnblockDevice { .. } => true,
        ClientMessage::Discovery => true,
        ClientMessage::SetZoomEnabled { .. } => true,
        ClientMessage::SetAutoConnect { .. } => true,
        ClientMessage::SetDeviceAutoReconnect { .. } => true,
        ClientMessage::AutoReconnectResponse { .. } => true,
        ClientMessage::PCStopMirroring { .. } => true,
        ClientMessage::RequestAutoReconnect { .. } => true,
        ClientMessage::MirrorResponse { .. } => true,
        ClientMessage::RegisterDashboard => true,
        _ => false,
    }
}

/// Raw input messages: the kinds the trusted handler forwards to the
/// platform injector unchanged.
pub open spec fn is_raw_input(m: ClientMessage) -> bool {
    match m {
        ClientMessage::Move { .. } => true,
        ClientMessage::MoveAbsolute { .. } => true,
        ClientMessage::Click { .. } => true,
        ClientMessage::MouseClick { .. } => true,
        ClientMessage::Scroll { .. } => true,
        ClientMessage::KeyPress { .. } => true,
        _ => false,
    }
}

/// Capability surface that decouples the broker from the desktop's input
/// mechanism: implementations translate decoded input messages into
/// platform events. They live outside the verified core.
pub trait InputAdapter {
    fn send_event(&self, event: ClientMessage) -> Result<(), crate::types::WcError>;
}

/// Default pointer colour when the peer names none: opaque white.
pub fn default_color() -> (r: String)
    ensures
        r@ == "#ffffffff"@,
{
    proof {
        reveal_strlit("#ffffffff");
    }
    String::from_str("#ffffffff")
}

/// Default particle style when the peer names none.
pub fn default_particle() -> (r: i32)
    ensures
        r == 0,
{
    0
}

/// Default mirror width when the peer names none.
pub fn default_width() -> (r: u32)
    ensures
        r == 854,
{
    854
}

/// Default mirror height when the peer names none.
pub fn default_height() -> (r: u32)
    ensures
        r == 480,
{
    480
}

/// Default mirror frame rate when the peer names none.
pub fn default_fps() -> (r: u32)
    ensures
        r == 15,
{
    15
}

/// Default of flags that are on unless the peer turns them off.
pub fn default_true() -> (r: bool)
    ensures
        r == true,
{
    true
}

} // verus!
