//! Messages between the daemon, the curtain and control clients.

use crate::common::now_playing::NowPlayingSnapshot;
use crate::common::power::PowerAction;
use crate::common::secret::Secret;
use vstd::prelude::*;

verus! {

#[derive(Debug, Clone, Copy, PartialEq, Eq, Structural)]
pub struct LockPowerStatusSnapshot {
    pub suspend_remaining_seconds: u64,
}

#[derive(Debug, Clone, Copy, PartialEq, Eq, Structural)]
pub enum FingerprintStatus {
    Ready,
    Scanning,
    Accepted,
    NotRecognized,
    NoEnrolledFingers,
    Unavailable,
    Error,
}

#[derive(Debug, Clone, Copy, Default, PartialEq, Eq, Structural)]
pub enum LatencyReportMode {
    #[default]
    Disabled,
    Basic,
    Verbose,
}

impl LatencyReportMode {
    pub fn is_enabled(self) -> (enabled: bool)
        ensures
            enabled == (self != LatencyReportMode::Disabled),
    {
        !matches!(self, Self::Disabled)
    }

    pub fn is_verbose(self) -> (verbose: bool)
        ensures
            verbose == (self == LatencyReportMode::Verbose),
    {
        matches!(self, Self::Verbose)
    }
}

#[derive(Debug, Clone, Copy, Default, PartialEq, Eq, Structural)]
pub struct CurtainLatencyReport {
    pub wayland_connect_ms: u64,
    pub wayland_connect_us: u64,
    pub registry_ms: u64,
    pub registry_us: u64,
    pub event_loop_ms: u64,
    pub event_loop_us: u64,
    pub app_init_ms: u64,
    pub app_init_us: u64,
    pub lock_request_ms: u64,
    pub lock_request_us: u64,
    pub startup_prepared_ms: u64,
    pub startup_prepared_us: u64,
    pub first_surface_configured_ms: Option<u64>,
    pub first_surface_configured_us: Option<u64>,
    pub all_surfaces_configured_ms: Option<u64>,
    pub all_surfaces_configured_us: Option<u64>,
    pub session_locked_ms: Option<u64>,
    pub session_locked_us: Option<u64>,
    pub first_frame_ms: Option<u64>,
    pub first_frame_us: Option<u64>,
    pub ready_notified_ms: Option<u64>,
    pub ready_notified_us: Option<u64>,
    pub surface_count: usize,
}

#[derive(Debug, Clone, Copy, Default, PartialEq, Eq, Structural)]
pub struct LockLatencyReport {
    pub daemon_config_load_ms: u64,
    pub daemon_config_load_us: u64,
    pub socket_setup_ms: u64,
    pub socket_setup_us: u64,
    pub curtain_spawn_ms: u64,
    pub curtain_spawn_us: u64,
    pub curtain_ready_wait_ms: u64,
    pub curtain_ready_wait_us: u64,
    pub activation_total_ms: u64,
    pub activation_total_us: u64,
    pub curtain: Option<CurtainLatencyReport>,
}

/// Messages sent from UI-facing clients to the daemon.
#[derive(Debug, Clone, PartialEq, Eq)]
pub enum ClientMessage {
    SubmitPassword { attempt_id: u64, secret: Secret },
    CancelAuthentication,
    Activity,
    RequestPowerAction { action: PowerAction },
}

/// Messages sent from the daemon to UI-facing clients.
#[derive(Debug, Clone, Copy, PartialEq, Eq, Structural)]
pub enum DaemonMessage {
    AuthenticationAccepted { attempt_id: u64 },
    AuthenticationRejected {
        attempt_id: u64,
        retry_after_ms: Option<u64>,
        failed_attempts: Option<u8>,
    },
    AuthenticationBusy { attempt_id: u64 },
}

/// Messages sent from the daemon to the secure curtain process.
#[derive(Debug, Clone, PartialEq, Eq)]
pub enum CurtainControlMessage {
    Unlock { attempt_id: Option<u64> },
    ReloadConfig,
    ArmResumeInputGuard,
    MarkResumed,
    UpdateNowPlaying { snapshot: Option<NowPlayingSnapshot> },
    UpdatePowerStatus { snapshot: Option<LockPowerStatusSnapshot> },
    UpdateFingerprintStatus { status: Option<FingerprintStatus> },
}

/// Messages sent to the long-running daemon control socket.
#[derive(Debug, Clone, Copy, PartialEq, Eq, Structural)]
pub enum DaemonControlMessage {
    LockNow { wait_ready: bool, force_emergency_ui: bool, latency_report: LatencyReportMode },
    Stop,
    Status,
    Health,
    ReloadConfig,
}

#[derive(Debug, Clone, PartialEq, Eq)]
pub struct DaemonStatus {
    pub state: String,
    pub session: String,
    pub active_lock: bool,
    pub curtain_running: bool,
    pub live_reload_available: bool,
    pub auto_reload_enabled: bool,
    pub auto_reload_debounce_ms: u64,
    pub last_reload_result: Option<String>,
    pub last_reload_unix_ms: Option<u64>,
    pub config_path: Option<String>,
}

#[derive(Debug, Clone, PartialEq, Eq)]
pub struct DaemonHealth {
    pub component: String,
    pub version: String,
    pub build_profile: String,
    pub target_os: String,
    pub target_arch: String,
}

#[derive(Debug, Clone, PartialEq, Eq)]
pub struct DaemonReloadStatus {
    pub config_path: Option<String>,
    pub active_lock: bool,
    pub reload_source: String,
    pub live_reload: LiveReloadStatus,
}

#[derive(Debug, Clone, Copy, PartialEq, Eq, Structural)]
pub enum LiveReloadStatus {
    NotActive,
    Forwarded,
    Skipped,
}

/// Responses sent by the long-running daemon control socket.
#[derive(Debug, Clone, PartialEq, Eq)]
pub enum DaemonControlResponse {
    Accepted,
    Locked { already_active: bool, latency_report: Option<Box<LockLatencyReport>> },
    Status(DaemonStatus),
    Health(DaemonHealth),
    Reloaded(DaemonReloadStatus),
    Error { reason: String },
}

} // verus!
