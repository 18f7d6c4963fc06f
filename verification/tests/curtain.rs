use veila::common::battery::BatterySnapshot;
use veila::common::config::{AppConfig, LoadedConfig};
use veila::common::ipc::{CurtainControlMessage, DaemonMessage, FingerprintStatus, LatencyReportMode, LockPowerStatusSnapshot};
use veila::common::path::FilePath;
use veila::common::secret::Secret;
use veila::common::settings::{
    BackgroundGradientConfig, BackgroundLayeredBaseConfig, BackgroundLayeredBaseMode,
    BackgroundLayeredBlobConfig, BackgroundLayeredConfig, BackgroundOutputConfig,
    BackgroundRadialConfig, ConfigBackgroundScaling, OutputUiMode, RgbColor,
};
use veila::common::time::{Moment, Span};
use veila::common::weather::{WeatherCondition, WeatherSnapshot};
use veila::curtain::backdrop::{
    background_generated, background_treatment, blob_color, effective_battery_snapshot,
    effective_weather_location, effective_weather_snapshot, to_background_scaling,
    to_layered_background,
    BackgroundLayeredBase, BackgroundScaling, BackgroundTreatment, GeneratedBackground,
};
use veila::curtain::background::{has_buffer_for, SizedBuffer};
use veila::curtain::commit::{dirty_area, AuthDirtyStep, RenderAttempt, RenderVerdict};
use veila::curtain::events::{BackgroundEffect, BackgroundEvent};
use veila::curtain::partners::{
    auth_event, control_event, listener_goes_on, verify_control_peer, verify_socket_peer,
    AcceptBackoff, AuthEvent, ControlConnection, ControlEffect, ControlEvent,
};
use veila::curtain::prepare::{
    backdrop_cache_variant_for_surface, CacheSource, CommitKind, CommitPlan, RenderFailure,
    RenderStep, SceneVariants,
};
use veila::curtain::scene::StaticOverlay;
use veila::curtain::slideshow::{BuiltTarget, SlideshowMove, TransitionStep};
use veila::curtain::startup::{
    startup_config, wait_for_outputs, CurtainOptions, OutputWait, RunMode, StartupTimes,
};
use veila::curtain::state::{CurtainApp, LockDisposal, PollDues, ScreenOffState};
use veila::curtain::surface::{
    ceil_fractional_scale, ManagedLockSurface, OutputDetails, OutputRole, SurfaceSize,
};
use veila::curtain::transition::SlideshowTransition;
use veila::renderer::buffer::SoftwareBuffer;
use veila::renderer::frame::{ClearColor, FrameSize, RendererError};
use veila::renderer::shape::Rect;
use veila::ui::shell::{
    ShellCore, ShellMode, ShellState, ShellStatus, ShellTheme,
};
use veila::ui::text_cache::TextLayoutCache;

const START: Moment = Moment { nanos: 1_000_000_000 };

fn at_millis(millis: u64) -> Moment {
    START.plus(Span::from_millis(millis))
}

fn shell() -> ShellState {
    ShellState {
        secret: Secret::new(),
        core: ShellCore {
            mode: ShellMode::Rich,
            secret_selected: false,
            caps_lock_active: false,
            fingerprint_status: None,
            reveal_secret: false,
            auth_revealed: true,
            reveal_toggle_hovered: false,
            reveal_toggle_pressed: false,
            power_confirmation: None,
            static_scene_revision: 3,
            focused: true,
            status: ShellStatus::Idle,
            now_playing_changed_at: None,
            preview_grid_enabled: false,
            render_scale: 1,
            theme: ShellTheme {
                background: ClearColor::opaque(1, 2, 3),
                now_playing_fade_duration_ms: None,
                input_on_demand: false,
                status_enabled: true,
                status_inline: true,
                eye_enabled: true,
                caps_lock_enabled: true,
                avatar_enabled: true,
                avatar_offset_y: Some(-4),
                username_offset_y: None,
                visual_layers: false,
                grid: None,
            },
        },
        text_layout_cache: TextLayoutCache::new(),
    }
}

fn options() -> CurtainOptions {
    CurtainOptions {
        notify_socket: Some(FilePath::new("/run/notify")),
        daemon_socket: Some(FilePath::new("/run/daemon")),
        control_socket: Some(FilePath::new("/run/control")),
        config_path: None,
        initial_background_path: None,
        preview_png: None,
        force_emergency_ui: false,
        latency_report: LatencyReportMode::Basic,
        weather_snapshot: None,
        battery_snapshot: None,
        now_playing_snapshot: None,
    }
}

fn app_with(config: AppConfig) -> CurtainApp {
    let startup = startup_config(Ok(LoadedConfig { path: None, config }), None, false);
    CurtainApp::new(options(), startup, None, shell(), START, START)
}

fn named_surface(output: u32, name: &str) -> ManagedLockSurface {
    ManagedLockSurface::new(
        output,
        output * 10,
        Some(OutputDetails {
            name: Some(String::from(name)),
            logical_size: Some((4, 2)),
            scale_factor: 1,
        }),
        true,
        false,
        false,
    )
}

/// A curtain on two outputs, whose sizes are known.
fn app_on_two_outputs(config: AppConfig) -> CurtainApp {
    let mut app = app_with(config);
    app.lock_requested(START);
    assert!(app.wants_surface(1));
    assert!(!app.add_surface(named_surface(1, "DP-1")));
    assert!(!app.wants_surface(1));
    app.add_surface(named_surface(2, "DP-2"));
    assert!(!app.all_surfaces_configured());
    let first = app.configure_surface(10, (4, 2), START).expect("first surface");
    assert_eq!(first.size.buffer, FrameSize::new(4, 2));
    app.configure_surface(20, (0, 0), START).expect("second surface");
    assert!(app.all_surfaces_configured());
    app
}

fn no_variants() -> SceneVariants {
    SceneVariants { static_scene: None, backdrop: None }
}

fn size() -> SurfaceSize {
    SurfaceSize::new_with_fractional_scale(4, 2, 1, None)
}

fn picture(level: u8) -> SoftwareBuffer {
    SoftwareBuffer::solid(FrameSize::new(4, 2), ClearColor::opaque(level, level, level))
        .expect("picture")
}

/// Draws a surface without a cache, and gives back the plan of its frame.
fn draw(app: &mut CurtainApp, surface: u32, wallpaper: u8, scene: u8) -> CommitPlan {
    let variants = no_variants();
    let mut step = app.render_surface(surface, size(), &variants, START);
    loop {
        step = match step {
            RenderStep::Lookup(task, _) => app.resume_lookup(task, None, &variants),
            RenderStep::RenderBackground(task, _, _) => {
                app.resume_background(task, Ok(picture(wallpaper)), &variants)
            }
            RenderStep::Draw(task, _, _, _) => app.resume_drawing(task, picture(scene)),
            RenderStep::Commit(plan) => return plan,
            RenderStep::Unchanged => panic!("nothing to show"),
            RenderStep::Failed(failure) => panic!("{}", failure.to_string()),
        };
    }
}

#[test]
fn surface_size_tracks_logical_and_scaled_buffer_size() {
    let size = SurfaceSize::new_with_fractional_scale(1920, 1080, 2, None);

    assert_eq!(size.logical_width, 1920);
    assert_eq!(size.logical_height, 1080);
    assert_eq!(size.buffer.width, 3840);
    assert_eq!(size.buffer.height, 2160);
    assert_eq!(size.scale, 2);
    assert_eq!(size.buffer_scale_for_commit(), 2);
}

#[test]
fn surface_size_never_uses_zero_or_negative_scale() {
    let size = SurfaceSize::new_with_fractional_scale(800, 600, 0, None);

    assert_eq!(size.buffer.width, 800);
    assert_eq!(size.buffer.height, 600);
    assert_eq!(size.scale, 1);
}

#[test]
fn fractional_surface_size_commits_with_unit_buffer_scale() {
    let size = SurfaceSize::new_with_fractional_scale(1920, 1080, 2, Some(150));

    assert_eq!(size.buffer.width, 3840);
    assert_eq!(size.buffer.height, 2160);
    assert_eq!(size.buffer_scale_for_commit(), 1);
    assert_eq!(size.fractional_scale, Some(150));
}

#[test]
fn fractional_scales_are_rounded_up() {
    assert_eq!(ceil_fractional_scale(120), 1);
    assert_eq!(ceil_fractional_scale(121), 2);
    assert_eq!(ceil_fractional_scale(240), 2);
    assert_eq!(ceil_fractional_scale(0), 1);
}

#[test]
fn effective_battery_snapshot_prefers_config_mock() {
    let mut config = AppConfig::default();
    config.battery.mock_percent = Some(64);
    config.battery.mock_charging = Some(true);

    assert_eq!(
        effective_battery_snapshot(
            &config,
            Some(BatterySnapshot {
                percent: 12,
                charging: false,
            }),
        ),
        Some(BatterySnapshot {
            percent: 64,
            charging: true,
        })
    );
}

#[test]
fn effective_battery_snapshot_uses_runtime_snapshot_without_mock() {
    let config = AppConfig::default();

    assert_eq!(
        effective_battery_snapshot(
            &config,
            Some(BatterySnapshot {
                percent: 72,
                charging: false,
            }),
        ),
        Some(BatterySnapshot {
            percent: 72,
            charging: false,
        })
    );
}

#[test]
fn effective_weather_data_is_hidden_when_weather_is_disabled() {
    let mut config = AppConfig::default();
    config.weather.enabled = false;
    config.weather.location = Some(String::from("Riga"));

    assert_eq!(effective_weather_location(&config), None);
    assert_eq!(
        effective_weather_snapshot(
            &config,
            Some(WeatherSnapshot {
                temperature_celsius: 7,
                condition: WeatherCondition::Rain,
                fetched_at_unix: 0,
            }),
        ),
        None
    );
}

#[test]
fn effective_weather_data_uses_runtime_snapshot_when_enabled() {
    let mut config = AppConfig::default();
    config.weather.enabled = true;
    config.weather.location = Some(String::from("Riga"));
    let snapshot = WeatherSnapshot {
        temperature_celsius: 7,
        condition: WeatherCondition::Rain,
        fetched_at_unix: 0,
    };

    assert_eq!(
        effective_weather_location(&config),
        Some(String::from("Riga"))
    );
    assert_eq!(
        effective_weather_snapshot(&config, Some(snapshot.clone())),
        Some(snapshot)
    );
}

#[test]
fn reports_failure_when_daemon_socket_is_missing() {
    assert_eq!(auth_event(3, None), AuthEvent::Failed { attempt_id: 3 });
}

#[test]
fn reports_failure_when_daemon_closes_without_verdict() {
    assert_eq!(auth_event(5, None), AuthEvent::Failed { attempt_id: 5 });
}

#[test]
fn forwards_daemon_rejection() {
    assert_eq!(
        auth_event(
            9,
            Some(DaemonMessage::AuthenticationRejected {
                attempt_id: 9,
                retry_after_ms: Some(250),
                failed_attempts: Some(2),
            })
        ),
        AuthEvent::Rejected {
            attempt_id: 9,
            retry_after_ms: Some(250),
            failed_attempts: Some(2),
        }
    );
    assert_eq!(
        auth_event(9, Some(DaemonMessage::AuthenticationBusy { attempt_id: 4 })),
        AuthEvent::Busy { attempt_id: 4 }
    );
    assert_eq!(
        auth_event(9, Some(DaemonMessage::AuthenticationAccepted { attempt_id: 9 })),
        AuthEvent::Accepted { attempt_id: 9 }
    );
}

#[test]
fn delivers_unlock_after_malformed_connections() {
    for _ in 0..4 {
        assert!(listener_goes_on(ControlConnection::Ignored));
    }
    assert_eq!(
        control_event(CurtainControlMessage::Unlock { attempt_id: Some(7) }),
        ControlEvent::Unlock { attempt_id: Some(7) }
    );
    assert!(!listener_goes_on(ControlConnection::Message { unlock: true, delivered: true }));
}

#[test]
fn keeps_serving_updates_before_unlock() {
    assert_eq!(control_event(CurtainControlMessage::ReloadConfig), ControlEvent::Reload);
    assert!(listener_goes_on(ControlConnection::Message { unlock: false, delivered: true }));
    assert!(listener_goes_on(ControlConnection::Ignored));
    assert_eq!(
        control_event(CurtainControlMessage::Unlock { attempt_id: Some(1) }),
        ControlEvent::Unlock { attempt_id: Some(1) }
    );
}

#[test]
fn listener_hands_on_messages_up_to_the_unlock() {
    let owner = 1000;
    let calls = [
        (1000, Some(CurtainControlMessage::ReloadConfig)),
        (0, Some(CurtainControlMessage::Unlock { attempt_id: None })),
        (1000, None),
        (1000, Some(CurtainControlMessage::MarkResumed)),
        (1000, Some(CurtainControlMessage::Unlock { attempt_id: Some(3) })),
        (1000, Some(CurtainControlMessage::ReloadConfig)),
    ];
    let mut events = Vec::new();
    for (peer, message) in calls {
        let connection = match message {
            Some(message) if verify_control_peer(peer, owner).is_ok() => {
                let event = control_event(message);
                let unlock = matches!(event, ControlEvent::Unlock { .. });
                events.push(event);
                ControlConnection::Message { unlock, delivered: true }
            }
            _ => ControlConnection::Ignored,
        };
        if !listener_goes_on(connection) {
            break;
        }
    }
    assert_eq!(
        events,
        vec![
            ControlEvent::Reload,
            ControlEvent::MarkResumed,
            ControlEvent::Unlock { attempt_id: Some(3) }
        ]
    );
}

#[test]
fn stops_when_curtain_receiver_is_gone() {
    assert!(!listener_goes_on(ControlConnection::Message { unlock: false, delivered: false }));
}

#[test]
fn listener_waits_longer_until_it_succeeds() {
    let mut backoff = AcceptBackoff::new();
    let waits: Vec<u128> = (0..7).map(|_| backoff.failed().nanos / 1_000_000).collect();
    assert_eq!(waits, vec![50, 100, 200, 400, 800, 1_000, 1_000]);
    backoff.accepted();
    assert_eq!(backoff.failed(), Span::from_millis(50));
}

#[test]
fn strangers_are_turned_away() {
    assert_eq!(verify_control_peer(1000, 1000), Ok(()));
    assert_eq!(
        verify_control_peer(0, 1000),
        Err(String::from(
            "rejected curtain control connection from uid 0, expected socket owner uid 1000"
        ))
    );
    assert_eq!(verify_socket_peer(7, 7), Ok(()));
    assert_eq!(
        verify_socket_peer(7, 8),
        Err(String::from("peer uid 7 does not match socket owner uid 8"))
    );
}

#[test]
fn backgrounds_follow_the_configuration() {
    let color = |level| RgbColor(level, level, level, 255);
    let gradient = BackgroundGradientConfig {
        top_left: color(1),
        top_right: color(2),
        bottom_left: color(3),
        bottom_right: color(4),
    };
    let radial = BackgroundRadialConfig {
        center: color(5),
        edge: color(6),
        center_x: 50,
        center_y: 40,
        radius: 100,
    };
    let mut config = AppConfig::default();
    assert_eq!(background_generated(&config.background), None);
    assert_eq!(background_treatment(&config.background), BackgroundTreatment::default());
    config.background.gradient = Some(gradient);
    config.background.scaling = ConfigBackgroundScaling::Tile;
    config.background.tint = Some(RgbColor(9, 8, 7, 6));
    let treatment = background_treatment(&config.background);
    assert_eq!(treatment.scaling, BackgroundScaling::Tile);
    assert_eq!(treatment.tint, Some(ClearColor::rgba(9, 8, 7, 6)));
    assert_eq!(to_background_scaling(ConfigBackgroundScaling::Fit), BackgroundScaling::Fit);
    match background_generated(&config.background) {
        Some(GeneratedBackground::Gradient(shown)) => {
            assert_eq!(shown.bottom_right, ClearColor::opaque(4, 4, 4))
        }
        other => panic!("{other:?}"),
    }
    config.background.gradient = None;
    config.background.radial = Some(radial);
    assert!(matches!(
        background_generated(&config.background),
        Some(GeneratedBackground::Radial(shown)) if shown.radius == 100
    ));
    config.background.radial = None;
    let blob = BackgroundLayeredBlobConfig { color: color(10), opacity: 50, x: 1, y: 2, size: 3 };
    config.background.layered = Some(BackgroundLayeredConfig {
        base: BackgroundLayeredBaseConfig {
            mode: BackgroundLayeredBaseMode::Radial,
            color: color(0),
            gradient,
            radial,
        },
        blobs: vec![blob, blob, blob, blob],
    });
    match background_generated(&config.background) {
        Some(GeneratedBackground::Layered(shown)) => {
            assert!(matches!(shown.base, BackgroundLayeredBase::Radial(_)));
            assert!(shown.first.is_some() && shown.second.is_some() && shown.third.is_some());
        }
        other => panic!("{other:?}"),
    }
    assert_eq!(blob_color(RgbColor(1, 2, 3, 255), 100), ClearColor::rgba(1, 2, 3, 255));
    assert_eq!(blob_color(RgbColor(1, 2, 3, 255), 0).alpha, 0);
}

#[test]
fn broken_configuration_starts_the_plain_lock_screen() {
    let startup = startup_config(Err(String::from("no toml")), Some(FilePath::new("/c")), false);
    assert!(startup.emergency_active);
    assert_eq!(
        startup.emergency_reason.as_deref(),
        Some("failed to load curtain config: no toml")
    );
    let app = CurtainApp::new(options(), startup, None, shell(), START, START);
    assert!(app.ui_shell.emergency_active());
    assert_eq!(app.background.color, ClearColor::opaque(12, 14, 18));
    assert_eq!(app.outputs.ui_output_mode, OutputUiMode::All);
    assert_eq!(options().run_mode(), RunMode::Lock);
    let mut preview = options();
    preview.preview_png = Some(FilePath::new("/p.png"));
    assert_eq!(preview.run_mode(), RunMode::Preview);
}

#[test]
fn outputs_are_waited_for() {
    assert_eq!(wait_for_outputs(0, 1), OutputWait::Ready);
    assert_eq!(wait_for_outputs(0, 0), OutputWait::AskAgain);
    assert_eq!(wait_for_outputs(100, 0), OutputWait::GiveUp);
}

#[test]
fn only_an_unlock_message_opens_the_session() {
    let mut app = app_on_two_outputs(AppConfig::default());
    app.session_lock_confirmed(at_millis(20));
    assert_eq!(app.timing.latency.session_locked_ms, Some(20));
    app.handle_auth_event(AuthEvent::Accepted { attempt_id: 1 }, at_millis(30));
    assert!(!app.lock.unlock_authorized && !app.can_stop());
    app.request_exit_from_signal();
    assert!(!app.lock.unlock_authorized);
    assert_eq!(app.shutdown(true).lock, LockDisposal::LeaveLocked);
    match app.handle_control_event(ControlEvent::Unlock { attempt_id: Some(1) }) {
        ControlEffect::Nothing => {}
        other => panic!("{other:?}"),
    }
    assert!(app.lock.unlock_authorized && app.can_stop());
}

#[test]
fn authorized_unlocks_open_the_session() {
    let mut app = app_on_two_outputs(AppConfig::default());
    app.session_lock_confirmed(START);
    app.authorize_unlock();
    let plan = app.shutdown(true);
    assert_eq!(plan.lock, LockDisposal::Unlock);
    assert_eq!(plan.remove_socket, Some(FilePath::new("/run/control")));
    assert_eq!(app.shutdown(true).lock, LockDisposal::Nothing);
}

#[test]
fn missed_deadline_ends_the_attempt_to_lock() {
    let mut app = app_on_two_outputs(AppConfig::default());
    assert!(app.check_lock_deadline(at_millis(9_999)));
    assert_eq!(app.failure_reason(), None);
    assert!(!app.check_lock_deadline(at_millis(10_001)));
    assert_eq!(
        app.failure_reason(),
        Some("timed out waiting for compositor to confirm the session lock")
    );
}

#[test]
fn revoked_locks_are_reported() {
    let mut app = app_on_two_outputs(AppConfig::default());
    app.session_lock_finished();
    assert!(app.can_stop());
    assert_eq!(app.failure_reason(), Some("compositor denied or revoked the session lock"));
}

#[test]
fn verdicts_free_the_prompt() {
    let mut app = app_on_two_outputs(AppConfig::default());
    app.attempt.in_flight = true;
    app.handle_auth_event(
        AuthEvent::Rejected { attempt_id: 1, retry_after_ms: Some(500), failed_attempts: Some(1) },
        START,
    );
    assert!(!app.attempt.in_flight);
    assert!(matches!(app.ui_shell.core.status, ShellStatus::Rejected { .. }));
    app.attempt.in_flight = true;
    app.handle_auth_event(AuthEvent::Busy { attempt_id: 1 }, START);
    assert!(!app.attempt.in_flight);
    app.attempt.in_flight = true;
    app.handle_auth_event(AuthEvent::Failed { attempt_id: 1 }, START);
    assert!(!app.attempt.in_flight);
    app.attempt.in_flight = true;
    app.handle_auth_event(AuthEvent::Accepted { attempt_id: 1 }, START);
    assert!(app.attempt.in_flight);
    app.advance_auth_watchdog(at_millis(9_999));
    assert!(app.attempt.in_flight);
    app.advance_auth_watchdog(at_millis(10_000));
    assert!(!app.attempt.in_flight);
}

#[test]
fn control_messages_reach_the_shell() {
    let mut app = app_on_two_outputs(AppConfig::default());
    assert!(matches!(app.handle_control_event(ControlEvent::Reload), ControlEffect::Reload));
    assert!(matches!(
        app.handle_control_event(ControlEvent::MarkResumed),
        ControlEffect::MarkResumed
    ));
    assert!(matches!(
        app.handle_control_event(ControlEvent::ArmResumeInputGuard),
        ControlEffect::ArmResumeInput
    ));
    let status = Some(FingerprintStatus::Scanning);
    app.handle_control_event(ControlEvent::UpdateFingerprintStatus { status });
    assert_eq!(app.ui_shell.core.fingerprint_status, status);
    assert!(matches!(
        app.handle_control_event(ControlEvent::UpdateFingerprintStatus { status }),
        ControlEffect::Nothing
    ));
    let snapshot = Some(LockPowerStatusSnapshot { suspend_remaining_seconds: 30 });
    assert!(matches!(
        app.handle_control_event(ControlEvent::UpdatePowerStatus { snapshot }),
        ControlEffect::RefreshPowerStatus
    ));
    assert_eq!(app.widgets.remote_power_status, snapshot);
    assert!(matches!(
        app.handle_control_event(ControlEvent::UpdateNowPlaying { snapshot: None }),
        ControlEffect::ShowNowPlaying(_)
    ));
}

#[test]
fn one_output_shows_the_prompt() {
    let mut config = AppConfig::default();
    config.visuals.output_ui_mode = OutputUiMode::Single;
    config.visuals.ui_output_name = Some(String::from("DP-2"));
    let mut app = app_on_two_outputs(config);
    assert_eq!(app.selected_ui_surface_index(), Some(1));
    assert_eq!(app.output_role_for_surface(0), OutputRole::SecondaryCurtain);
    assert_eq!(app.output_role_for_surface(1), OutputRole::PrimaryPrompt);
    assert!(!app.ui_visible_on_surface(0));
    assert!(app.activate_emergency_ui());
    assert!(!app.ui_visible_on_surface(0));
    assert!(!app.emergency_prepared());
    assert!(app.ui_visible_on_surface(0) && app.ui_visible_on_surface(1));
    assert_eq!(app.surface_index(20), Some(1));
    assert_eq!(app.output_surface_index(1), Some(0));
    assert_eq!(app.surface_index(30), None);
}

#[test]
fn focus_follows_its_surface() {
    let mut app = app_on_two_outputs(AppConfig::default());
    assert!(app.note_surface_activity(20));
    assert_eq!(app.outputs.focused_surface_index, Some(1));
    app.output_destroyed(1);
    assert_eq!(app.outputs.focused_surface_index, Some(0));
    assert_eq!(app.lock_surfaces.len(), 1);
    assert_eq!(app.lock_surfaces[0].state.surface, 20);
}

#[test]
fn frames_are_drawn_step_by_step() {
    let mut app = app_on_two_outputs(AppConfig::default());
    let variants = no_variants();
    let step = app.render_surface(10, size(), &variants, START);
    let task = match step {
        RenderStep::RenderBackground(task, None, true) => task,
        other => panic!("{other:?}"),
    };
    let step = app.resume_background(task, Ok(picture(7)), &variants);
    let (task, shown) = match step {
        RenderStep::Draw(task, shown, true, _) => (task, shown),
        other => panic!("{other:?}"),
    };
    assert_eq!(shown.pixels(), picture(7).pixels());
    let plan = match app.resume_drawing(task, picture(9)) {
        RenderStep::Commit(plan) => plan,
        other => panic!("{other:?}"),
    };
    assert_eq!((plan.index, plan.surface, plan.kind), (0, 10, CommitKind::Scene));
    assert!(plan.first_frame);
    let mut target = SoftwareBuffer::new(FrameSize::new(4, 2)).expect("target");
    app.compose_frame(plan, &mut target);
    assert_eq!(target.pixels(), picture(9).pixels());
    assert!(app.commit_finished(plan, Ok(()), at_millis(5)).is_ok());
    assert_eq!(app.timing.latency.first_frame_ms, Some(5));
    assert_eq!(app.scene_base_matches(0, FrameSize::new(4, 2), 3), true);
    assert_eq!(app.scene_base_matches(0, FrameSize::new(4, 2), 4), false);
    assert_eq!(app.viewport_destination(0, size()), None);
    match app.render_auth_dirty_surface(10, size(), Some(Rect::new(1, 0, 2, 1))) {
        AuthDirtyStep::Region(0, rect) => assert_eq!(rect, Rect::new(1, 0, 2, 1)),
        other => panic!("{other:?}"),
    }
    assert_eq!(dirty_area(Rect::new(1, 0, 2, 1)), (2, 8));
    let mut patch = SoftwareBuffer::new(FrameSize::new(4, 2)).expect("patch");
    let damaged = app.restore_region(0, Rect::new(1, 0, 2, 1), &mut patch).expect("region");
    assert_eq!(damaged, Rect::new(1, 0, 2, 1));
    assert_eq!(&patch.pixels()[..8], &[0, 0, 0, 0, 9, 9, 9, 255]);
    assert!(app.auth_dirty_finished(Ok(())).is_ok());
}

#[test]
fn cached_scenes_are_shown_at_once() {
    let mut config = AppConfig::default();
    config.background.path = Some(FilePath::new("/wall.png"));
    let mut app = app_on_two_outputs(config);
    let variants = SceneVariants {
        static_scene: Some(String::from("scene")),
        backdrop: Some(String::from("backdrop")),
    };
    let (task, lookup) = match app.render_surface(10, size(), &variants, START) {
        RenderStep::Lookup(task, lookup) => (task, lookup),
        other => panic!("{other:?}"),
    };
    match &lookup.source {
        CacheSource::File(path) => assert_eq!(path, &FilePath::new("/wall.png")),
        other => panic!("{other:?}"),
    }
    assert_eq!(lookup.size, FrameSize::new(4, 2));
    assert!(lookup.variant.expect("variant").starts_with("scene"));
    match app.resume_lookup(task, Some(picture(5)), &variants) {
        RenderStep::Commit(plan) => assert_eq!(plan.kind, CommitKind::Scene),
        other => panic!("{other:?}"),
    }
    assert_eq!(
        app.lock_surfaces[0].scene_base.as_ref().map(|scene| scene.pixels().to_vec()),
        Some(picture(5).pixels().to_vec())
    );
    assert_eq!(backdrop_cache_variant_for_surface(&no_variants(), 2), None);
    assert!(backdrop_cache_variant_for_surface(&variants, 2).is_some());
    assert!(matches!(
        app.render_surface(99, size(), &variants, START),
        RenderStep::Failed(RenderFailure::Untracked)
    ));
}

#[test]
fn failed_frames_are_tried_again_then_plainly() {
    let mut app = app_on_two_outputs(AppConfig::default());
    draw(&mut app, 10, 1, 2);
    assert!(app.lock_surfaces[0].scene_base.is_some());
    let mismatch = RendererError::BufferSizeMismatch {
        target: FrameSize::new(1, 1),
        overlay: FrameSize::new(2, 2),
    };
    let verdict = app.settle_render(
        RenderAttempt::First,
        10,
        Err(RenderFailure::Commit(mismatch)),
    );
    assert!(matches!(verdict, RenderVerdict::Retry(RenderAttempt::AfterRebuild)));
    assert!(app.lock_surfaces[0].scene_base.is_none());
    let verdict = app.settle_render(
        RenderAttempt::AfterRebuild,
        10,
        Err(RenderFailure::BackgroundUnavailable),
    );
    assert!(matches!(verdict, RenderVerdict::Emergency));
    assert!(app.ui_shell.emergency_active());
    match app.settle_render(
        RenderAttempt::Emergency,
        10,
        Err(RenderFailure::EmergencyBackground(String::from("gone"))),
    ) {
        RenderVerdict::Failed(failure) => assert_eq!(
            failure.to_string(),
            "failed to prepare emergency fallback background: gone"
        ),
        other => panic!("{other:?}"),
    }
    assert!(matches!(
        app.settle_render(RenderAttempt::First, 10, Ok(())),
        RenderVerdict::Done
    ));
    app.fail("draw", "no memory");
    assert!(app.failure_reason().expect("reason").contains("no memory"));
}

#[test]
fn surface_without_memory_is_drawn_anew() {
    let mut app = app_on_two_outputs(AppConfig::default());
    let plan = draw(&mut app, 10, 1, 2);
    assert!(app.lock_surfaces[0].shm_pool.is_some());
    assert!(matches!(
        app.pool_failed(plan, RendererError::BufferSlotsBusy),
        RenderFailure::Pool(RendererError::BufferSlotsBusy)
    ));
    assert!(app.lock_surfaces[0].shm_pool.is_none());
    assert!(app.lock_surfaces[0].scene_base.is_some());
}

#[test]
fn busy_frames_wait() {
    let mut app = app_on_two_outputs(AppConfig::default());
    let busy = || RenderFailure::Pool(RendererError::BufferSlotsBusy);
    assert!(busy().is_buffer_slots_busy());
    assert!(RenderFailure::Commit(RendererError::BufferSlotsBusy).is_buffer_slots_busy());
    assert!(!RenderFailure::Untracked.is_buffer_slots_busy());
    assert!(!busy().is_recoverable_scene_error());
    assert!(RenderFailure::BackgroundUnavailable.is_recoverable_scene_error());
    assert!(matches!(
        app.settle_render(RenderAttempt::First, 10, Err(busy())),
        RenderVerdict::Done
    ));
    assert!(app.redraw.pending_deferred);
    app.lock.ready_notified = true;
    let targets = app.flush_pending_deferred_redraw();
    assert_eq!(targets.len(), 2);
    assert!(!app.redraw.pending_deferred);
    assert!(app.flush_pending_deferred_redraw().is_empty());
    assert!(app.auth_dirty_failed(busy()));
}

#[test]
fn failures_say_what_went_wrong() {
    let error = || RendererError::EmptyFrame;
    let says = |failure: RenderFailure| failure.to_string();
    assert_eq!(says(RenderFailure::Untracked), "session-lock surface is no longer tracked");
    assert_eq!(says(RenderFailure::BackgroundUnavailable), "background buffer is unavailable");
    assert_eq!(
        says(RenderFailure::BackgroundAsset(String::from("x"))),
        "failed to render background asset: x"
    );
    assert_eq!(says(RenderFailure::Pool(error())), "frame size must not be empty");
    assert_eq!(
        says(RenderFailure::Commit(error())),
        "failed to render and commit software buffer: frame size must not be empty"
    );
    assert_eq!(
        says(RenderFailure::CommitBackground(error())),
        "failed to commit software buffer: frame size must not be empty"
    );
    assert_eq!(
        says(RenderFailure::CrossfadeBackground(error())),
        "failed to commit crossfaded background: frame size must not be empty"
    );
    assert_eq!(
        says(RenderFailure::Crossfade(error())),
        "failed to render crossfaded slideshow frame: frame size must not be empty"
    );
    assert_eq!(
        says(RenderFailure::AuthDirty(error())),
        "failed to render and commit auth dirty region: frame size must not be empty"
    );
}

#[test]
fn readiness_is_told_once_everything_is_covered() {
    let mut app = app_on_two_outputs(AppConfig::default());
    assert_eq!(app.maybe_notify_ready(START).0, false);
    app.session_lock_confirmed(START);
    let plan = draw(&mut app, 10, 1, 2);
    app.commit_finished(plan, Ok(()), START).expect("first frame");
    let plan = draw(&mut app, 20, 1, 2);
    app.commit_finished(plan, Ok(()), START).expect("second frame");
    let (became_ready, signal) = app.maybe_notify_ready(at_millis(40));
    assert!(became_ready);
    let signal = signal.expect("signal");
    assert_eq!(signal.path, FilePath::new("/run/notify"));
    let report = signal.report.expect("report");
    assert_eq!((report.ready_notified_ms, report.surface_count), (Some(40), 2));
    assert_eq!(app.maybe_notify_ready(at_millis(50)).0, false);
}

#[test]
fn new_sizes_drop_what_was_drawn() {
    let mut app = app_on_two_outputs(AppConfig::default());
    draw(&mut app, 10, 1, 2);
    app.configure_surface(10, (4, 2), START);
    assert!(app.lock_surfaces[0].scene_base.is_some());
    app.configure_surface(10, (8, 2), START);
    assert!(app.lock_surfaces[0].scene_base.is_none());
    let target = app.scale_factor_changed(10, 2).expect("another scale");
    assert_eq!(target.size.buffer, FrameSize::new(16, 4));
    assert!(app.scale_factor_changed(10, 2).is_none());
    assert!(app.fractional_scale_changed(99, 180).is_none());
}

#[test]
fn every_output_has_its_wallpaper() {
    let mut config = AppConfig::default();
    config.background.path = Some(FilePath::new("/all.png"));
    config.background.outputs = vec![BackgroundOutputConfig {
        name: String::from("DP-2"),
        path: FilePath::new("/two.png"),
    }];
    let mut app = app_on_two_outputs(config);
    assert_eq!(app.background_path_for_surface(0), Some(&FilePath::new("/all.png")));
    assert_eq!(app.background_path_for_surface(1), Some(&FilePath::new("/two.png")));
    let specs = app.maybe_start_background_render();
    let paths: Vec<&FilePath> = specs.iter().map(|spec| &spec.path).collect();
    assert_eq!(paths, vec![&FilePath::new("/all.png"), &FilePath::new("/two.png")]);
    assert_eq!(specs[0].sizes, vec![FrameSize::new(4, 2)]);
    assert!(app.maybe_start_background_render().is_empty());
    app.lock.ready_notified = true;
    let effect = app.handle_background_event(&BackgroundEvent::BuffersReady {
        path: FilePath::new("/two.png"),
        buffers: vec![SizedBuffer { size: FrameSize::new(4, 2), buffer: picture(6) }],
    });
    match effect {
        BackgroundEffect::Redraw(targets) => {
            let surfaces: Vec<u32> = targets.iter().map(|target| target.surface).collect();
            assert_eq!(surfaces, vec![10, 20]);
        }
        other => panic!("{other:?}"),
    }
    assert!(app.surface_wallpaper_is_current(1, &FilePath::new("/two.png"), FrameSize::new(4, 2)));
    assert!(!app.surface_wallpaper_is_current(0, &FilePath::new("/two.png"), FrameSize::new(4, 2)));
    app.reset_background_source_state();
    assert!(app.lock_surfaces[1].background.is_none());
}

#[test]
fn slideshow_fades_to_the_next_picture() {
    let startup = startup_config(
        Ok(LoadedConfig { path: None, config: AppConfig::default() }),
        None,
        false,
    );
    let first = FilePath::new("/one.png");
    let next = FilePath::new("/two.png");
    let mut app =
        CurtainApp::new(options(), startup, Some(first.clone()), shell(), START, START);
    app.lock_requested(START);
    app.add_surface(named_surface(1, "DP-1"));
    app.configure_surface(10, (4, 2), START);
    app.session_lock_confirmed(START);
    let plan = draw(&mut app, 10, 0, 0);
    app.commit_finished(plan, Ok(()), START).expect("frame");
    assert!(app.maybe_notify_ready(START).0);
    assert!(app.slideshow_may_advance());
    match app.advance_background_slideshow(Some(next.clone()), Span::from_millis(1_000)) {
        SlideshowMove::Fading(specs, _) => assert_eq!(specs[0].path, next),
        other => panic!("{other:?}"),
    }
    assert!(app.transition_awaits(&next));
    let buffers = vec![SizedBuffer { size: FrameSize::new(4, 2), buffer: picture(200) }];
    assert_eq!(app.slideshow_targets(&buffers), vec![0]);
    app.apply_slideshow_targets(
        vec![BuiltTarget { index: 0, buffer: picture(200) }],
        at_millis(100),
    );
    let (from, to, progress) =
        app.slideshow_crossfade_for_surface(0, at_millis(600)).expect("running");
    assert_eq!((from.pixels()[0], to.pixels()[0]), (0, 200));
    assert_eq!(progress, 5_000);
    let plan = match app.render_surface(10, size(), &no_variants(), at_millis(600)) {
        RenderStep::Commit(plan) => plan,
        other => panic!("{other:?}"),
    };
    assert!(matches!(plan.kind, CommitKind::Crossfade { shell: true, .. }));
    let mut target = SoftwareBuffer::new(FrameSize::new(4, 2)).expect("target");
    app.compose_frame(plan, &mut target);
    assert_eq!(target.pixels()[0], 100);
    match app.advance_slideshow_transition(at_millis(1_200)) {
        TransitionStep::Finalized(targets) => assert_eq!(targets.len(), 1),
        other => panic!("{other:?}"),
    }
    assert!(app.slideshow_transition.is_none());
    assert!(app.surface_wallpaper_is_current(0, &next, FrameSize::new(4, 2)));
    assert!(matches!(
        app.advance_slideshow_transition(at_millis(1_300)),
        TransitionStep::Idle
    ));
}

#[test]
fn avatars_are_loaded_once() {
    let mut config = AppConfig::default();
    config.lock.avatar_path = Some(FilePath::new("/me.png"));
    let mut app = app_on_two_outputs(config);
    assert_eq!(app.maybe_start_avatar_load(false), None);
    app.lock.ready_notified = true;
    assert_eq!(app.maybe_start_avatar_load(true), None);
    assert_eq!(app.maybe_start_avatar_load(false), Some(FilePath::new("/me.png")));
    assert_eq!(app.maybe_start_avatar_load(false), None);
    assert!(app.avatar_loaded(Some(&FilePath::new("/me.png"))));
    assert!(!app.avatar_loaded(Some(&FilePath::new("/you.png"))));
}

#[test]
fn startup_is_timed() {
    let mut app = app_with(AppConfig::default());
    app.record_startup(StartupTimes {
        wayland_connect: (1, 1_000),
        registry: (2, 2_000),
        event_loop: (3, 3_000),
        app_init: (4, 4_000),
        lock_request: (5, 5_000),
        startup_prepared: (6, 6_000),
    });
    assert_eq!(app.timing.latency.registry_us, 2_000);
    assert_eq!(app.timing.latency.startup_prepared_ms, 6);
}

#[test]
fn loop_wakes_for_what_is_due_first() {
    let app = app_on_two_outputs(AppConfig::default());
    let due = PollDues {
        shell: Span::from_millis(250),
        repeat: Some(Span::from_millis(30)),
        slideshow: None,
        power_status: Some(Span::from_millis(90)),
    };
    assert_eq!(app.animation_poll_interval(START, due), Span::from_millis(30));
    assert_eq!(app.slideshow_transition_poll_interval(), None);
}

#[test]
fn secondary_outputs_are_switched_off() {
    let mut config = AppConfig::default();
    config.lock.power_off_secondary_outputs = true;
    config.visuals.output_ui_mode = OutputUiMode::Single;
    let mut app = app_on_two_outputs(config);
    let outputs = app.power_off_secondary_outputs();
    assert_eq!(outputs, vec![2]);
    assert!(app.outputs.secondary_outputs_powered_off);
    assert!(app.activate_emergency_ui());
    assert!(app.outputs.secondary_outputs_powered_off);
    assert!(app.emergency_prepared());
    assert!(!app.outputs.secondary_outputs_powered_off);
    assert!(!app.activate_emergency_ui());
}

#[test]
fn nothing_but_the_unlock_message_frees_a_managed_session() {
    let mut app = app_on_two_outputs(AppConfig::default());
    app.session_lock_confirmed(START);
    assert!(app.maybe_notify_ready(START).0);
    app.handle_control_event(ControlEvent::Reload);
    app.handle_auth_event(AuthEvent::Accepted { attempt_id: 1 }, at_millis(10));
    app.advance_auth_watchdog(at_millis(60_000));
    app.handle_auth_event(AuthEvent::Failed { attempt_id: 2 }, at_millis(60_001));
    app.activate_emergency_ui();
    app.request_exit_from_signal();
    app.output_destroyed(2);
    assert!(app.can_stop());
    assert_eq!(app.shutdown(true).lock, LockDisposal::LeaveLocked);

    let mut app = app_on_two_outputs(AppConfig::default());
    app.session_lock_confirmed(START);
    app.handle_control_event(ControlEvent::Unlock { attempt_id: None });
    app.handle_auth_event(AuthEvent::Busy { attempt_id: 2 }, at_millis(1));
    app.activate_emergency_ui();
    assert!(app.can_stop());
    assert_eq!(app.shutdown(true).lock, LockDisposal::Unlock);
}

#[test]
fn exit_alone_leaves_the_session_locked() {
    let mut app = app_on_two_outputs(AppConfig::default());
    app.request_exit();
    assert!(!app.can_stop());
    app.session_lock_confirmed(START);
    assert!(app.can_stop());
    let plan = app.shutdown(true);
    assert_eq!(plan.lock, LockDisposal::LeaveLocked);
    assert_eq!(plan.remove_socket, Some(FilePath::new("/run/control")));
    assert_eq!(app.shutdown(true).lock, LockDisposal::Nothing);
}

#[test]
fn focus_moves_the_prompt() {
    let mut config = AppConfig::default();
    config.visuals.output_ui_mode = OutputUiMode::Single;
    let mut app = app_on_two_outputs(config);
    assert!(!app.set_focused_surface_index(Some(0)));
    assert!(app.set_focused_surface_index(Some(1)));
    assert!(app.output_role_for_surface(1).renders_shell());
    assert!(!app.output_role_for_surface(0).renders_shell());
    assert!(app.surface_has_focus_target(20));
    assert!(!app.surface_has_focus_target(21));
    app.lock.ready_notified = true;
    let prompts: Vec<u32> =
        app.render_auth_dirty_surfaces().iter().map(|target| target.surface).collect();
    assert_eq!(prompts, vec![20]);
}

#[test]
fn early_redraws_are_made_up_for() {
    let mut app = app_on_two_outputs(AppConfig::default());
    assert!(app.render_all_surfaces().is_empty());
    assert!(app.flush_pending_pre_ready_redraw().is_empty());
    app.lock.ready_notified = true;
    assert_eq!(app.flush_pending_pre_ready_redraw().len(), 2);
    assert!(app.flush_pending_pre_ready_redraw().is_empty());
    assert_eq!(app.render_all_surfaces().len(), 2);
}

#[test]
fn layers_wait_for_readiness() {
    let mut app = app_on_two_outputs(AppConfig::default());
    app.ui_shell.core.theme.visual_layers = true;
    assert_eq!(app.static_scene_overlay(), (StaticOverlay::WithoutLayers, false));
    assert!(app.redraw.pending_pre_ready);
    app.lock.ready_notified = true;
    assert_eq!(app.static_scene_overlay(), (StaticOverlay::Full, true));
    assert_eq!(app.begin_slideshow_scene(0, 9), Some(StaticOverlay::Full));
    assert_eq!(app.lock_surfaces[0].state.scene_base_revision, 9);
    assert!(app.lock_surfaces[0].state.scene_base_has_layers);
}

#[test]
fn surfaces_know_their_sizes() {
    let mut surface = ManagedLockSurface::new(
        1,
        10,
        Some(OutputDetails {
            name: None,
            logical_size: Some((100, 50)),
            scale_factor: 2,
        }),
        false,
        true,
        true,
    );
    assert_eq!(surface.surface_scale(), 2);
    assert_eq!(surface.surface_fractional_scale(), None);
    assert_eq!(
        surface.estimated_surface_size(),
        Some(SurfaceSize::new_with_fractional_scale(100, 50, 2, None))
    );
    assert_eq!(
        surface.resolve_surface_size((30, 20)).buffer,
        FrameSize::new(60, 40)
    );
    assert_eq!(surface.fractional_scale_changed(300), None);
    assert_eq!(surface.surface_fractional_scale(), Some(300));
    assert_eq!(surface.surface_scale(), 3);
    let resolved = surface.resolve_surface_size((0, 0));
    assert_eq!(resolved.buffer, FrameSize::new(300, 150));
    assert_eq!(resolved.render_scale(), 3);
    surface.scene_base = Some(picture(1));
    surface.background_path = Some(FilePath::new("/a"));
    surface.reset_source_state();
    assert!(surface.scene_base.is_none() && surface.background_path.is_none());
    surface.background = Some(picture(1));
    surface.reset_render_state();
    assert!(surface.background.is_none());
    let unknown = ManagedLockSurface::new(1, 10, None, false, false, false);
    assert_eq!(unknown.estimated_surface_size(), None);
    assert_eq!(unknown.resolve_surface_size((0, 0)).buffer, FrameSize::new(1920, 1080));
}

#[test]
fn transitions_run_from_the_first_ready_frame() {
    let mut fade = SlideshowTransition::new(
        vec![Some(picture(1)), None],
        FilePath::new("/next.png"),
        Span::from_millis(200),
    );
    assert!(fade.is_loading() && !fade.is_animating() && !fade.all_targets_ready());
    assert_eq!(fade.fade_progress(START), None);
    assert!(!fade.is_complete(at_millis(10_000)));
    fade.mark_animating(START);
    assert!(fade.is_animating());
    assert_eq!(fade.fade_progress(at_millis(50)), Some(2_500));
    assert!(!fade.is_complete(at_millis(199)));
    assert!(fade.is_complete(at_millis(200)));
    assert_eq!(fade.fade_progress(at_millis(500)), Some(10_000));
}

#[test]
fn frame_callbacks_drive_a_fade() {
    let mut app = app_on_two_outputs(AppConfig::default());
    draw(&mut app, 10, 1, 2);
    draw(&mut app, 20, 1, 3);
    assert_eq!(
        app.snapshot_slideshow_surface_buffer(0).map(|shown| shown.pixels()[0]),
        Some(2)
    );
    assert!(app.request_surface_frame_callback(0));
    assert!(!app.request_surface_frame_callback(0));
    assert!(matches!(app.on_surface_frame_callback(10, START), TransitionStep::Idle));
    assert!(app.request_surface_frame_callback(0));
    app.advance_background_slideshow(Some(FilePath::new("/n.png")), Span::from_millis(100));
    assert!(app.slideshow_transition_preserves_surface(0));
    app.apply_slideshow_targets(
        vec![
            BuiltTarget { index: 0, buffer: picture(9) },
            BuiltTarget { index: 1, buffer: picture(9) },
        ],
        START,
    );
    match app.on_surface_frame_callback(10, at_millis(50)) {
        TransitionStep::Render(targets) => assert_eq!(targets[0].surface, 10),
        other => panic!("{other:?}"),
    }
    match app.advance_slideshow_transition(at_millis(50)) {
        TransitionStep::Render(targets) => assert_eq!(targets.len(), 2),
        other => panic!("{other:?}"),
    }
    app.finalize_slideshow_transition();
    assert!(app.slideshow_transition.is_none());
    assert_eq!(app.lock_surfaces[1].scene_base.as_ref().map(|scene| scene.pixels()[0]), Some(9));
}

#[test]
fn loaded_wallpapers_are_taken_where_they_fit() {
    let mut config = AppConfig::default();
    config.background.path = Some(FilePath::new("/all.png"));
    let mut app = app_on_two_outputs(config);
    assert!(app.takes_asset(&FilePath::new("/all.png")));
    assert!(!app.takes_asset(&FilePath::new("/other.png")));
    assert_eq!(app.preload_sizes(), vec![FrameSize::new(4, 2), FrameSize::new(4, 2)]);
    let specs = app.background_render_specs();
    assert_eq!((specs.len(), specs[0].sizes.len()), (1, 1));
    app.lock.ready_notified = true;
    let buffers = vec![SizedBuffer { size: FrameSize::new(4, 2), buffer: picture(6) }];
    assert!(has_buffer_for(&buffers, FrameSize::new(4, 2)));
    assert!(!has_buffer_for(&buffers, FrameSize::new(2, 4)));
    assert!(app.take_loaded_wallpaper(&FilePath::new("/other.png"), &buffers).is_empty());
    assert_eq!(app.take_loaded_wallpaper(&FilePath::new("/all.png"), &buffers).len(), 2);
    assert!(app.take_loaded_wallpaper(&FilePath::new("/all.png"), &buffers).is_empty());
}

#[test]
fn layered_backgrounds_have_up_to_three_blobs() {
    let color = RgbColor(10, 20, 30, 200);
    let blob = BackgroundLayeredBlobConfig { color, opacity: 50, x: 1, y: 2, size: 3 };
    let layered = to_layered_background(&BackgroundLayeredConfig {
        base: BackgroundLayeredBaseConfig {
            mode: BackgroundLayeredBaseMode::Solid,
            color,
            gradient: BackgroundGradientConfig {
                top_left: color,
                top_right: color,
                bottom_left: color,
                bottom_right: color,
            },
            radial: BackgroundRadialConfig {
                center: color,
                edge: color,
                center_x: 0,
                center_y: 0,
                radius: 1,
            },
        },
        blobs: vec![blob, blob],
    });
    assert_eq!(layered.base, BackgroundLayeredBase::Solid(ClearColor::rgba(10, 20, 30, 200)));
    assert_eq!(layered.second.map(|blob| blob.color.alpha), Some(100));
    assert!(layered.first.is_some() && layered.third.is_none());
}

#[test]
fn screens_go_off_when_their_time_has_come() {
    let mut screen_off = ScreenOffState::new(Some(Span::from_millis(500)));
    assert_eq!(screen_off.due_in(START, true), None);
    screen_off.armed_at = Some(START);
    assert_eq!(screen_off.due_in(at_millis(100), true), Some(Span::from_millis(400)));
    assert_eq!(screen_off.due_in(at_millis(900), true), Some(Span::from_millis(0)));
    assert_eq!(screen_off.due_in(at_millis(100), false), None);
    screen_off.powered_off = true;
    assert_eq!(screen_off.due_in(at_millis(100), true), None);
}
