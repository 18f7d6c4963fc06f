use veila::common::battery::BatterySnapshot;
use veila::common::config::AppConfig;
use veila::common::ipc::{ClientMessage, DaemonMessage, LatencyReportMode};
use veila::common::path::FilePath;
use veila::common::power::PowerAction;
use veila::common::secret::Secret;
use veila::common::time::{Moment, Span};
use veila::daemon::auth::{
    handle_client_message, log_auth_latency_report, run_auth_attempt, AuthAdmission, AuthAttempt, AuthContext, AuthOutcome,
    AuthResult, ClientAction, WorkerTimes,
};
use veila::daemon::ipc::{
    auth_socket_path, daemon_socket_path, runtime_root_from_env, single_instance_plan,
    staging_socket_path, transient_socket_path, validate_private_dir, veila_runtime_dir,
    verify_peer_uid, BindPlan, DirectoryFacts,
};
use veila::daemon::pam::pam_service;
use veila::daemon::suspend::{
    battery_power_state, remaining_seconds, suspend_delay_seconds, BatteryPowerState,
    LockedSuspendState, SuspendDecision, SuspendSkipReason,
};

fn now() -> Moment {
    Moment { nanos: 1_000_000_000_000 }
}

fn after(seconds: u64) -> Moment {
    now().plus(Span::from_secs(seconds))
}

#[test]
fn does_not_suspend_while_auth_is_in_flight() {
    let mut state = LockedSuspendState::new(Some(Span::from_secs(5)), false, false);
    state.arm(now());

    assert_eq!(
        state.evaluate(after(6), true, true, None, false),
        SuspendDecision::Skipped(SuspendSkipReason::AuthInFlight)
    );
    assert_eq!(
        state.evaluate(after(6), true, false, None, false),
        SuspendDecision::Ready
    );
}

#[test]
fn activity_resets_pending_suspend_request() {
    let mut state = LockedSuspendState::new(Some(Span::from_secs(5)), false, false);
    state.arm(now());
    state.mark_requested();
    state.note_activity(after(6));

    assert_eq!(
        state.evaluate(after(7), true, false, None, false),
        SuspendDecision::Pending
    );
}

#[test]
fn unchanged_policy_reload_preserves_in_flight_suspend_request() {
    let mut state = LockedSuspendState::new(Some(Span::from_secs(5)), false, false);
    state.arm(now());
    state.mark_requested();
    state.set_policy(Some(Span::from_secs(5)), false, false, after(6), true);

    assert_eq!(
        state.evaluate(after(6), true, false, None, false),
        SuspendDecision::Pending
    );
}

#[test]
fn changed_policy_drops_the_request() {
    let mut state = LockedSuspendState::new(Some(Span::from_secs(5)), false, false);
    state.arm(now());
    state.mark_requested();
    state.set_policy(Some(Span::from_secs(4)), false, false, after(6), true);
    assert_eq!(state.evaluate(after(6), true, false, None, false), SuspendDecision::Ready);
    state.set_policy(None, false, false, after(6), true);
    assert_eq!(state.evaluate(after(60), true, false, None, false), SuspendDecision::Pending);
}

#[test]
fn battery_only_policy_requires_discharging_snapshot() {
    let mut state = LockedSuspendState::new(Some(Span::from_secs(5)), true, false);
    state.arm(now());

    assert_eq!(
        state.evaluate(after(6), true, false, None, false),
        SuspendDecision::Skipped(SuspendSkipReason::NoBatteryDetected)
    );
    assert_eq!(
        state.evaluate(
            after(6),
            true,
            false,
            Some(&BatterySnapshot {
                percent: 80,
                charging: true,
            }),
            false,
        ),
        SuspendDecision::Skipped(SuspendSkipReason::OnAcPower)
    );
    assert_eq!(
        state.evaluate(
            after(6),
            true,
            false,
            Some(&BatterySnapshot {
                percent: 80,
                charging: false,
            }),
            false,
        ),
        SuspendDecision::Ready
    );
}

#[test]
fn media_playing_policy_blocks_suspend_when_enabled() {
    let mut state = LockedSuspendState::new(Some(Span::from_secs(5)), false, true);
    state.arm(now());

    assert_eq!(
        state.evaluate(after(6), true, false, None, true),
        SuspendDecision::Skipped(SuspendSkipReason::MediaPlaying)
    );
    assert_eq!(
        state.evaluate(after(6), true, false, None, false),
        SuspendDecision::Ready
    );
}

#[test]
fn skip_reason_logging_only_reports_reason_changes_once() {
    let mut state = LockedSuspendState::new(Some(Span::from_secs(5)), false, true);

    assert_eq!(
        state.note_skip_reason(SuspendSkipReason::MediaPlaying),
        Some(SuspendSkipReason::MediaPlaying)
    );
    assert_eq!(
        state.note_skip_reason(SuspendSkipReason::MediaPlaying),
        None
    );
    assert_eq!(
        state.note_skip_reason(SuspendSkipReason::OnAcPower),
        Some(SuspendSkipReason::OnAcPower)
    );
    state.clear_reported_skip_reason();
    assert_eq!(
        state.note_skip_reason(SuspendSkipReason::OnAcPower),
        Some(SuspendSkipReason::OnAcPower)
    );
}

#[test]
fn power_status_snapshot_counts_down_while_pending() {
    let mut state = LockedSuspendState::new(Some(Span::from_secs(20)), false, false);
    state.arm(now());

    assert_eq!(
        state
            .power_status_snapshot(after(1), true)
            .map(|snapshot| snapshot.suspend_remaining_seconds),
        Some(19)
    );
}

#[test]
fn power_status_snapshot_clears_after_deadline_or_request() {
    let mut state = LockedSuspendState::new(Some(Span::from_secs(5)), false, false);
    state.arm(now());

    assert!(state.power_status_snapshot(after(5), true).is_none());
    state.arm(now());
    state.mark_requested();
    assert!(state.power_status_snapshot(after(1), true).is_none());
}

#[test]
fn remaining_seconds_round_up() {
    assert_eq!(remaining_seconds(Span { nanos: 0 }), 1);
    assert_eq!(remaining_seconds(Span { nanos: 1 }), 1);
    assert_eq!(remaining_seconds(Span { nanos: 1_000_000_000 }), 1);
    assert_eq!(remaining_seconds(Span { nanos: 1_000_000_001 }), 2);
    assert_eq!(remaining_seconds(Span::max()), u64::MAX);
}

#[test]
fn skip_reasons_have_log_names() {
    assert_eq!(SuspendSkipReason::AuthInFlight.as_str(), "auth-in-flight");
    assert_eq!(SuspendSkipReason::OnAcPower.as_str(), "on-ac-power");
    assert_eq!(SuspendSkipReason::NoBatteryDetected.as_str(), "no-battery-detected");
    assert_eq!(SuspendSkipReason::MediaPlaying.as_str(), "media-playing");
}

fn context(admission: AuthAdmission) -> AuthContext {
    AuthContext {
        admission,
        failed_attempts: 2,
        next_failed_attempts: 3,
        channel_available: true,
    }
}

fn password() -> ClientMessage {
    ClientMessage::SubmitPassword {
        attempt_id: 7,
        secret: Secret::from(String::from("hunter2")),
    }
}

#[test]
fn admitted_password_starts_an_attempt() {
    let mut suspend = LockedSuspendState::new(Some(Span::from_secs(5)), false, false);
    let action =
        handle_client_message(&password(), &mut suspend, now(), context(AuthAdmission::Allowed));
    assert_eq!(
        action,
        ClientAction::StartAttempt {
            attempt_id: 7,
            failed_attempts: 3
        }
    );
    assert_eq!(suspend.last_activity_at, Some(now()));

    let unavailable = AuthContext {
        channel_available: false,
        ..context(AuthAdmission::Allowed)
    };
    assert_eq!(
        handle_client_message(&password(), &mut suspend, now(), unavailable),
        ClientAction::ChannelUnavailable
    );
}

#[test]
fn refused_password_is_answered() {
    let mut suspend = LockedSuspendState::new(None, false, false);
    assert_eq!(
        handle_client_message(&password(), &mut suspend, now(), context(AuthAdmission::Busy)),
        ClientAction::Reply(DaemonMessage::AuthenticationBusy { attempt_id: 7 })
    );
    let limited = context(AuthAdmission::RateLimited(Span::from_millis(1_500)));
    assert_eq!(
        handle_client_message(&password(), &mut suspend, now(), limited),
        ClientAction::Reply(DaemonMessage::AuthenticationRejected {
            attempt_id: 7,
            retry_after_ms: Some(1_500),
            failed_attempts: Some(2),
        })
    );
    assert_eq!(suspend.last_activity_at, None);
}

#[test]
fn other_messages_count_as_activity_except_a_cancellation() {
    let mut suspend = LockedSuspendState::new(Some(Span::from_secs(5)), false, false);
    let allowed = context(AuthAdmission::Allowed);
    assert_eq!(
        handle_client_message(&ClientMessage::CancelAuthentication, &mut suspend, now(), allowed),
        ClientAction::Nothing
    );
    assert_eq!(suspend.last_activity_at, None);
    assert_eq!(
        handle_client_message(&ClientMessage::Activity, &mut suspend, now(), allowed),
        ClientAction::Nothing
    );
    assert_eq!(suspend.last_activity_at, Some(now()));
    let power = ClientMessage::RequestPowerAction {
        action: PowerAction::Reboot,
    };
    assert_eq!(
        handle_client_message(&power, &mut suspend, after(1), allowed),
        ClientAction::RequestPower(PowerAction::Reboot)
    );
    assert_eq!(suspend.last_activity_at, Some(after(1)));
}

#[test]
fn finished_attempts_are_answered_and_reported() {
    let attempt = AuthAttempt {
        attempt_id: 9,
        started_at: now(),
        failed_attempts: 4,
        latency_report: LatencyReportMode::Verbose,
    };
    let times = WorkerTimes {
        auth_started_at: now().plus(Span::from_millis(2)),
        millis_read_at: now().plus(Span::from_millis(12)),
        micros_read_at: now().plus(Span::from_millis(13)),
    };
    let accepted = run_auth_attempt(attempt, times, AuthOutcome::Accepted);
    assert_eq!(accepted.reply, DaemonMessage::AuthenticationAccepted { attempt_id: 9 });
    assert_eq!(
        accepted.result,
        AuthResult::Succeeded {
            attempt_id: 9,
            started_at: now(),
            elapsed_ms: 10
        }
    );
    let report = accepted.report.expect("verbose report");
    assert_eq!(report.worker_start_delay_ms, 2);
    assert_eq!(report.worker_start_delay_us, Some(2_000));
    assert_eq!(report.pam_elapsed_ms, 10);
    assert_eq!(report.pam_elapsed_us, Some(11_000));

    for outcome in [AuthOutcome::Rejected, AuthOutcome::WorkerFailed] {
        let basic = AuthAttempt {
            latency_report: LatencyReportMode::Basic,
            ..attempt
        };
        let rejected = run_auth_attempt(basic, times, outcome);
        assert_eq!(
            rejected.reply,
            DaemonMessage::AuthenticationRejected {
                attempt_id: 9,
                retry_after_ms: None,
                failed_attempts: Some(4),
            }
        );
        assert_eq!(
            rejected.result,
            AuthResult::Rejected {
                attempt_id: 9,
                started_at: now(),
                elapsed_ms: 10
            }
        );
        assert_eq!(rejected.report.expect("basic report").pam_elapsed_us, None);
    }
    let silent = AuthAttempt {
        latency_report: LatencyReportMode::Disabled,
        ..attempt
    };
    assert_eq!(run_auth_attempt(silent, times, AuthOutcome::Accepted).report, None);
}

#[test]
fn rejects_missing_runtime_dir() {
    let error = runtime_root_from_env(None).expect_err("missing runtime dir should fail");
    assert!(error.to_string().contains("XDG_RUNTIME_DIR is not set"));
    let root = runtime_root_from_env(Some(FilePath::new("/run/user/1000"))).unwrap();
    assert_eq!(veila_runtime_dir(&root), FilePath::new("/run/user/1000/veila"));
}

#[test]
fn rejects_public_runtime_dir() {
    let facts = DirectoryFacts {
        is_dir: true,
        uid: 1000,
        mode: 0o40755,
    };
    let error = validate_private_dir("/tmp/x", facts, 1000, "test runtime")
        .expect_err("public runtime dir should fail");
    assert!(error.to_string().contains("group/other users"));
}

#[test]
fn rejects_foreign_directories_and_files() {
    let facts = DirectoryFacts {
        is_dir: true,
        uid: 0,
        mode: 0o40700,
    };
    assert_eq!(
        validate_private_dir("/tmp/x", facts, 1000, "dir").unwrap_err(),
        "dir /tmp/x is owned by uid 0, expected uid 1000"
    );
    let file = DirectoryFacts { is_dir: false, ..facts };
    assert_eq!(
        validate_private_dir("/tmp/x", file, 1000, "dir").unwrap_err(),
        "dir /tmp/x is not a directory"
    );
    assert_eq!(validate_private_dir("/tmp/x", facts, 0, "dir"), Ok(()));
}

#[test]
fn staging_path_is_a_hidden_sibling_of_the_target() {
    // Same directory keeps the publish step a rename rather than a cross-filesystem copy
    let path = FilePath::new("/run/user/1000/veila/veilad.sock");
    let staging = staging_socket_path(&path, 4711);
    assert_eq!(staging.parent(), path.parent());
    let name = staging.file_name().expect("file name");
    assert!(name.starts_with(b".veilad.sock."));
    assert_eq!(
        staging,
        FilePath::new("/run/user/1000/veila/.veilad.sock.4711.staging")
    );
    assert_eq!(
        staging_socket_path(&FilePath::new("/run/veila/.."), 1),
        FilePath::new("/run/veila/../.socket.1.staging")
    );
}

#[test]
fn names_sockets() {
    let dir = FilePath::new("/run/veila");
    assert_eq!(auth_socket_path(&dir, 12), FilePath::new("/run/veila/veila-auth-12.sock"));
    assert_eq!(daemon_socket_path(&dir), FilePath::new("/run/veila/veilad.sock"));
    assert_eq!(
        transient_socket_path(&dir, "ready", 1_744_000_000_000_123),
        FilePath::new("/run/veila/veila-ready-1744000000000123.sock")
    );
}

#[test]
fn peers_must_run_as_the_same_user() {
    assert_eq!(verify_peer_uid(1000, 1000), Ok(()));
    assert_eq!(
        verify_peer_uid(0, 1000).unwrap_err(),
        "peer uid 0 does not match daemon uid 1000"
    );
}

#[test]
fn only_one_daemon_listens() {
    assert_eq!(single_instance_plan(false, false), BindPlan::Bind);
    assert_eq!(single_instance_plan(true, true), BindPlan::AlreadyRunning);
    assert_eq!(single_instance_plan(true, false), BindPlan::RemoveStale);
}

#[test]
fn pam_service_falls_back() {
    assert_eq!(pam_service(Some(String::from("login")), true), "login");
    assert_eq!(pam_service(None, true), "veila");
    assert_eq!(pam_service(None, false), "system-auth");
}

#[test]
fn suspend_follows_the_configuration_and_the_battery() {
    let mut config = AppConfig::default();
    assert_eq!(suspend_delay_seconds(&config), None);
    config.lock.suspend_seconds = Some(0);
    assert_eq!(suspend_delay_seconds(&config), None);
    config.lock.suspend_seconds = Some(30);
    assert_eq!(suspend_delay_seconds(&config), Some(30));
    let charging = BatterySnapshot { percent: 50, charging: true };
    let running = BatterySnapshot { percent: 50, charging: false };
    assert_eq!(battery_power_state(Some(&charging)), BatteryPowerState::Charging);
    assert_eq!(battery_power_state(Some(&running)), BatteryPowerState::OnBattery);
    assert_eq!(battery_power_state(None), BatteryPowerState::Unavailable);
}

#[test]
fn latency_is_reported_as_asked() {
    assert!(!LatencyReportMode::Disabled.is_enabled());
    assert!(LatencyReportMode::Basic.is_enabled() && !LatencyReportMode::Basic.is_verbose());
    assert!(LatencyReportMode::Verbose.is_verbose());
    assert_eq!(log_auth_latency_report(LatencyReportMode::Disabled, 1, 2, 3, 4, 5), None);
    let basic = log_auth_latency_report(LatencyReportMode::Basic, 1, 2, 3, 4, 5).expect("report");
    assert_eq!((basic.attempt_id, basic.worker_start_delay_ms), (1, 2));
    assert_eq!((basic.worker_start_delay_us, basic.pam_elapsed_us), (None, None));
    let verbose =
        log_auth_latency_report(LatencyReportMode::Verbose, 1, 2, 3, 4, 5).expect("report");
    assert_eq!((verbose.worker_start_delay_us, verbose.pam_elapsed_us), (Some(3), Some(5)));
}
