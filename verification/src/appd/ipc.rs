//! The messages `weft-appd` exchanges with its clients over the Unix socket
//! (MessagePack frames) and the WebSocket (JSON).
use vstd::prelude::*;

verus! {

/// The lifecycle state of an application session.
#[derive(Debug, Clone, Copy, PartialEq, Eq, Structural)]
pub enum AppStateKind {
    Starting,
    Running,
    Stopping,
    Stopped,
    NotFound,
}

/// A live session as listed to clients.
#[derive(Debug)]
pub struct SessionInfo {
    pub session_id: u64,
    pub app_id: String,
}

/// An installed package as listed to clients.
#[derive(Debug)]
pub struct AppInfo {
    pub app_id: String,
    pub name: String,
    pub version: String,
}

/// A client request. The gesture deltas travel as the bit patterns of their
/// `f64` values; the daemon only hands them on.
#[derive(Debug)]
pub enum Request {
    LaunchApp { app_id: String, surface_id: u64 },
    TerminateApp { session_id: u64 },
    QueryRunning,
    QueryAppState { session_id: u64 },
    QueryInstalledApps,
    IpcForward { session_id: u64, payload: String },
    PanelGesture { gesture_type: u32, fingers: u32, dx_bits: u64, dy_bits: u64 },
}

/// A reply or a notification to clients.
#[derive(Debug)]
pub enum Response {
    LaunchAck { session_id: u64, app_id: String },
    AppReady { session_id: u64, app_id: String },
    RunningApps { sessions: Vec<SessionInfo> },
    AppState { session_id: u64, state: AppStateKind },
    Error { code: u32, message: String },
    InstalledApps { apps: Vec<AppInfo> },
    IpcMessage { session_id: u64, payload: String },
    NavigationGesture { gesture_type: u32, fingers: u32, dx_bits: u64, dy_bits: u64 },
}

} // verus!
