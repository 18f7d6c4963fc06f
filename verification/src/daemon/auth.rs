//! What the daemon makes of client messages and of finished authentication attempts.

use crate::common::ipc::{ClientMessage, DaemonMessage, LatencyReportMode};
use crate::common::power::PowerAction;
use crate::common::time;
use crate::common::time::{duration_ms, duration_us, Moment, Span};
use crate::daemon::suspend;
use crate::daemon::suspend::LockedSuspendState;
use vstd::prelude::*;

verus! {

/// Whether an authentication attempt may start.
#[derive(Debug, Clone, Copy, PartialEq, Eq, Structural)]
pub enum AuthAdmission {
    Allowed,
    Busy,
    RateLimited(Span),
}

/// What a finished attempt means for the session.
#[derive(Debug, Clone, Copy, PartialEq, Eq, Structural)]
pub enum AuthResult {
    Succeeded { attempt_id: u64, started_at: Moment, elapsed_ms: u64 },
    Rejected { attempt_id: u64, started_at: Moment, elapsed_ms: u64 },
}

/// What is to be done about a client message.
#[derive(Debug, Clone, Copy, PartialEq, Eq, Structural)]
pub enum ClientAction {
    Nothing,
    RequestPower(PowerAction),
    StartAttempt { attempt_id: u64, failed_attempts: u8 },
    Reply(DaemonMessage),
    ChannelUnavailable,
}

/// What the daemon knows of authentication when a message arrives.
#[derive(Debug, Clone, Copy, PartialEq, Eq, Structural)]
pub struct AuthContext {
    pub admission: AuthAdmission,
    pub failed_attempts: u8,
    pub next_failed_attempts: u8,
    pub channel_available: bool,
}

/// What is to be done about a client message.
pub open spec fn client_action(message: ClientMessage, context: AuthContext) -> ClientAction {
    match message {
        ClientMessage::Activity => ClientAction::Nothing,
        ClientMessage::CancelAuthentication => ClientAction::Nothing,
        ClientMessage::RequestPowerAction { action } => ClientAction::RequestPower(action),
        ClientMessage::SubmitPassword { attempt_id, secret } => match context.admission {
            AuthAdmission::Allowed => if context.channel_available {
                ClientAction::StartAttempt {
                    attempt_id,
                    failed_attempts: context.next_failed_attempts,
                }
            } else {
                ClientAction::ChannelUnavailable
            },
            AuthAdmission::Busy => ClientAction::Reply(
                DaemonMessage::AuthenticationBusy { attempt_id },
            ),
            AuthAdmission::RateLimited(delay) => ClientAction::Reply(
                DaemonMessage::AuthenticationRejected {
                    attempt_id,
                    retry_after_ms: Some(
                        time::saturating_units(delay.nanos as nat, 1_000_000) as u64,
                    ),
                    failed_attempts: Some(context.failed_attempts),
                },
            ),
        },
    }
}

/// Decides what to do about a client message. Every message but a cancellation counts as
/// activity.
pub fn handle_client_message(
    message: &ClientMessage,
    suspend_state: &mut LockedSuspendState,
    now: Moment,
    context: AuthContext,
) -> (action: ClientAction)
    ensures
        action == client_action(*message, context),
        *final(suspend_state) == if message is CancelAuthentication {
            *old(suspend_state)
        } else {
            suspend::restarted(*old(suspend_state), now)
        },
{
    match message {
        ClientMessage::Activity => {
            suspend_state.note_activity(now);
            ClientAction::Nothing
        },
        ClientMessage::RequestPowerAction { action } => {
            suspend_state.note_activity(now);
            ClientAction::RequestPower(*action)
        },
        ClientMessage::SubmitPassword { attempt_id, secret: _ } => {
            suspend_state.note_activity(now);
            match context.admission {
                AuthAdmission::Allowed => if context.channel_available {
                    ClientAction::StartAttempt {
                        attempt_id: *attempt_id,
                        failed_attempts: context.next_failed_attempts,
                    }
                } else {
                    ClientAction::ChannelUnavailable
                },
                AuthAdmission::Busy => ClientAction::Reply(
                    DaemonMessage::AuthenticationBusy { attempt_id: *attempt_id },
                ),
                AuthAdmission::RateLimited(delay) => ClientAction::Reply(
                    DaemonMessage::AuthenticationRejected {
                        attempt_id: *attempt_id,
                        retry_after_ms: Some(duration_ms(delay)),
                        failed_attempts: Some(context.failed_attempts),
                    },
                ),
            }
        },
        ClientMessage::CancelAuthentication => ClientAction::Nothing,
    }
}

/// How the authentication worker came back.
#[derive(Debug, Clone, Copy, PartialEq, Eq, Structural)]
pub enum AuthOutcome {
    Accepted,
    Rejected,
    WorkerFailed,
}

/// An attempt that was started.
#[derive(Debug, Clone, Copy, PartialEq, Eq, Structural)]
pub struct AuthAttempt {
    pub attempt_id: u64,
    pub started_at: Moment,
    pub failed_attempts: u8,
    pub latency_report: LatencyReportMode,
}

/// When the worker was started and when it came back; the milliseconds and the microseconds are
/// read one after the other.
#[derive(Debug, Clone, Copy, PartialEq, Eq, Structural)]
pub struct WorkerTimes {
    pub auth_started_at: Moment,
    pub millis_read_at: Moment,
    pub micros_read_at: Moment,
}

/// Latencies of an attempt, as they are logged. Microseconds appear in verbose reports alone.
#[derive(Debug, Clone, Copy, PartialEq, Eq, Structural)]
pub struct AuthLatencyReport {
    pub attempt_id: u64,
    pub worker_start_delay_ms: u64,
    pub worker_start_delay_us: Option<u64>,
    pub pam_elapsed_ms: u64,
    pub pam_elapsed_us: Option<u64>,
}

/// What follows from a finished attempt: the answer to the client, the result for the session
/// and the report to log.
#[derive(Debug, Clone, Copy, PartialEq, Eq, Structural)]
pub struct AuthCompletion {
    pub reply: DaemonMessage,
    pub result: AuthResult,
    pub report: Option<AuthLatencyReport>,
}

pub open spec fn millis_between(earlier: Moment, later: Moment) -> u64 {
    time::saturating_units(time::span_between(earlier, later), 1_000_000) as u64
}

pub open spec fn micros_between(earlier: Moment, later: Moment) -> u64 {
    time::saturating_units(time::span_between(earlier, later), 1_000) as u64
}

/// The report an attempt leaves in the log, if reports are enabled.
pub open spec fn latency_report(attempt: AuthAttempt, times: WorkerTimes) -> Option<
    AuthLatencyReport,
> {
    if attempt.latency_report == LatencyReportMode::Disabled {
        None
    } else {
        let verbose = attempt.latency_report == LatencyReportMode::Verbose;
        Some(
            AuthLatencyReport {
                attempt_id: attempt.attempt_id,
                worker_start_delay_ms: millis_between(attempt.started_at, times.auth_started_at),
                worker_start_delay_us: if verbose {
                    Some(micros_between(attempt.started_at, times.auth_started_at))
                } else {
                    None
                },
                pam_elapsed_ms: millis_between(times.auth_started_at, times.millis_read_at),
                pam_elapsed_us: if verbose {
                    Some(micros_between(times.auth_started_at, times.micros_read_at))
                } else {
                    None
                },
            },
        )
    }
}

/// What follows from a finished attempt. A worker that failed counts as a rejection.
pub open spec fn auth_completion(attempt: AuthAttempt, times: WorkerTimes, outcome: AuthOutcome) -> AuthCompletion {
    let attempt_id = attempt.attempt_id;
    let started_at = attempt.started_at;
    let elapsed_ms = millis_between(times.auth_started_at, times.millis_read_at);
    AuthCompletion {
        reply: if outcome == AuthOutcome::Accepted {
            DaemonMessage::AuthenticationAccepted { attempt_id }
        } else {
            DaemonMessage::AuthenticationRejected {
                attempt_id,
                retry_after_ms: None,
                failed_attempts: Some(attempt.failed_attempts),
            }
        },
        result: if outcome == AuthOutcome::Accepted {
            AuthResult::Succeeded { attempt_id, started_at, elapsed_ms }
        } else {
            AuthResult::Rejected { attempt_id, started_at, elapsed_ms }
        },
        report: latency_report(attempt, times),
    }
}

/// Draws the consequences of a finished attempt.
pub fn run_auth_attempt(attempt: AuthAttempt, times: WorkerTimes, outcome: AuthOutcome) -> (completion:
    AuthCompletion)
    ensures
        completion == auth_completion(attempt, times, outcome),
{
    let waited = times.auth_started_at.saturating_since(attempt.started_at);
    let worker_start_delay_ms: u64 = duration_ms(waited);
    let worker_start_delay_us: u64 = duration_us(waited);
    let elapsed_ms: u64 = duration_ms(
        times.millis_read_at.saturating_since(times.auth_started_at),
    );
    let elapsed_us: u64 = duration_us(
        times.micros_read_at.saturating_since(times.auth_started_at),
    );
    let report = log_auth_latency_report(
        attempt.latency_report,
        attempt.attempt_id,
        worker_start_delay_ms,
        worker_start_delay_us,
        elapsed_ms,
        elapsed_us,
    );
    match outcome {
        AuthOutcome::Accepted => AuthCompletion {
            reply: DaemonMessage::AuthenticationAccepted { attempt_id: attempt.attempt_id },
            result: AuthResult::Succeeded {
                attempt_id: attempt.attempt_id,
                started_at: attempt.started_at,
                elapsed_ms,
            },
            report,
        },
        AuthOutcome::Rejected | AuthOutcome::WorkerFailed => AuthCompletion {
            reply: DaemonMessage::AuthenticationRejected {
                attempt_id: attempt.attempt_id,
                retry_after_ms: None,
                failed_attempts: Some(attempt.failed_attempts),
            },
            result: AuthResult::Rejected {
                attempt_id: attempt.attempt_id,
                started_at: attempt.started_at,
                elapsed_ms,
            },
            report,
        },
    }
}

/// The report to log, if reports are enabled.
pub fn log_auth_latency_report(
    enabled: LatencyReportMode,
    attempt_id: u64,
    worker_start_delay_ms: u64,
    worker_start_delay_us: u64,
    pam_elapsed_ms: u64,
    pam_elapsed_us: u64,
) -> (report: Option<AuthLatencyReport>)
    ensures
        report == if enabled == LatencyReportMode::Disabled {
            None
        } else {
            Some(
                AuthLatencyReport {
                    attempt_id,
                    worker_start_delay_ms,
                    worker_start_delay_us: if enabled == LatencyReportMode::Verbose {
                        Some(worker_start_delay_us)
                    } else {
                        None
                    },
                    pam_elapsed_ms,
                    pam_elapsed_us: if enabled == LatencyReportMode::Verbose {
                        Some(pam_elapsed_us)
                    } else {
                        None
                    },
                },
            )
        },
{
    if !enabled.is_enabled() {
        return None;
    }
    let verbose = enabled.is_verbose();
    Some(
        AuthLatencyReport {
            attempt_id,
            worker_start_delay_ms,
            worker_start_delay_us: if verbose {
                Some(worker_start_delay_us)
            } else {
                None
            },
            pam_elapsed_ms,
            pam_elapsed_us: if verbose {
                Some(pam_elapsed_us)
            } else {
                None
            },
        },
    )
}

/// The attempt that an answer speaks of.
pub open spec fn answered_attempt(reply: DaemonMessage) -> u64 {
    match reply {
        DaemonMessage::AuthenticationAccepted { attempt_id } => attempt_id,
        DaemonMessage::AuthenticationRejected { attempt_id, .. } => attempt_id,
        DaemonMessage::AuthenticationBusy { attempt_id } => attempt_id,
    }
}

/// An attempt succeeds, and is answered as accepted, exactly where the authentication itself was
/// accepted; a refused one is answered as rejected. Either way the answer names the attempt.
pub proof fn law_only_accepted_attempts_succeed(
    attempt: AuthAttempt,
    times: WorkerTimes,
    outcome: AuthOutcome,
)
    ensures
        ({
            let completion = auth_completion(attempt, times, outcome);
            &&& completion.result is Succeeded <==> outcome == AuthOutcome::Accepted
            &&& completion.reply is AuthenticationAccepted <==> outcome == AuthOutcome::Accepted
            &&& completion.reply is AuthenticationRejected <==> outcome != AuthOutcome::Accepted
            &&& answered_attempt(completion.reply) == attempt.attempt_id
        }),
{
}

/// A password that is not admitted is answered at once, for its own attempt, and never starts an
/// attempt.
pub proof fn law_refused_password_starts_no_attempt(message: ClientMessage, context: AuthContext)
    requires
        message is SubmitPassword,
        context.admission != AuthAdmission::Allowed,
    ensures
        client_action(message, context) matches ClientAction::Reply(reply) && answered_attempt(reply)
            == message->attempt_id && !(reply is AuthenticationAccepted),
{
}

/// A power action that a client asks for is the one that is requested, whatever the daemon knows
/// of authentication.
pub proof fn law_power_action_is_the_one_asked_for(action: PowerAction, context: AuthContext)
    ensures
        client_action(ClientMessage::RequestPowerAction { action }, context)
            == ClientAction::RequestPower(action),
{
}

/// Nothing but a request for a power action has one requested, and nothing but a password starts
/// an attempt or is answered.
pub proof fn law_messages_ask_for_nothing_else(message: ClientMessage, context: AuthContext)
    ensures
        client_action(message, context) is RequestPower <==> message is RequestPowerAction,
        client_action(message, context) is Nothing <==> message is Activity
            || message is CancelAuthentication,
{
}

/// An admitted password starts the attempt it was sent for, with the number of refusals that it
/// would be the next of; where nobody can take the result, that is reported instead.
pub proof fn law_admitted_password_starts_its_attempt(message: ClientMessage, context: AuthContext)
    requires
        message is SubmitPassword,
        context.admission == AuthAdmission::Allowed,
    ensures
        context.channel_available ==> client_action(message, context)
            == (ClientAction::StartAttempt {
            attempt_id: message->attempt_id,
            failed_attempts: context.next_failed_attempts,
        }),
        !context.channel_available ==> client_action(message, context)
            == ClientAction::ChannelUnavailable,
{
}

/// A password that comes too soon is told how long to wait, in whole milliseconds that never
/// exceed the time left nor fall short of it by a millisecond, and how many refusals there were.
/// One that comes while another is under way is told so.
pub proof fn law_early_password_is_told_its_wait(
    message: ClientMessage,
    context: AuthContext,
    delay: Span,
)
    requires
        message is SubmitPassword,
    ensures
        context.admission == AuthAdmission::Busy ==> client_action(message, context)
            == ClientAction::Reply(
            DaemonMessage::AuthenticationBusy { attempt_id: message->attempt_id },
        ),
        context.admission == AuthAdmission::RateLimited(delay) ==> match client_action(
            message,
            context,
        ) {
            ClientAction::Reply(
                DaemonMessage::AuthenticationRejected {
                    attempt_id,
                    retry_after_ms: Some(wait),
                    failed_attempts,
                },
            ) => {
                &&& attempt_id == message->attempt_id
                &&& failed_attempts == Some(context.failed_attempts)
                &&& wait * 1_000_000 <= delay.nanos
                &&& delay.nanos < (wait + 1) * 1_000_000 || wait == u64::MAX
            },
            _ => false,
        },
{
}

/// What an attempt leaves to the session and to the log names the attempt, and its times are
/// whole milliseconds and microseconds of what passed.
pub proof fn law_attempt_is_reported_with_its_times(
    attempt: AuthAttempt,
    times: WorkerTimes,
    outcome: AuthOutcome,
)
    requires
        attempt.started_at.nanos <= times.auth_started_at.nanos <= times.millis_read_at.nanos
            <= times.micros_read_at.nanos,
    ensures
        ({
            let completion = auth_completion(attempt, times, outcome);
            let passed = times.millis_read_at.nanos - times.auth_started_at.nanos;
            let passed_by_micros = times.micros_read_at.nanos - times.auth_started_at.nanos;
            let waited = times.auth_started_at.nanos - attempt.started_at.nanos;
            let (id, started, elapsed) = match completion.result {
                AuthResult::Succeeded { attempt_id, started_at, elapsed_ms } => (
                    attempt_id,
                    started_at,
                    elapsed_ms,
                ),
                AuthResult::Rejected { attempt_id, started_at, elapsed_ms } => (
                    attempt_id,
                    started_at,
                    elapsed_ms,
                ),
            };
            &&& id == attempt.attempt_id && started == attempt.started_at
            &&& is_whole_part(elapsed as int, passed, 1_000_000)
            &&& match completion.reply {
                DaemonMessage::AuthenticationRejected { retry_after_ms, failed_attempts, .. } =>
                    retry_after_ms is None && failed_attempts == Some(attempt.failed_attempts),
                _ => true,
            }
            &&& completion.report is None <==> attempt.latency_report
                == LatencyReportMode::Disabled
            &&& completion.report matches Some(report) ==> {
                &&& report.attempt_id == attempt.attempt_id
                &&& is_whole_part(report.worker_start_delay_ms as int, waited, 1_000_000)
                &&& is_whole_part(report.pam_elapsed_ms as int, passed, 1_000_000)
                &&& report.worker_start_delay_us is Some <==> attempt.latency_report
                    == LatencyReportMode::Verbose
                &&& report.pam_elapsed_us is Some <==> attempt.latency_report
                    == LatencyReportMode::Verbose
                &&& report.worker_start_delay_us matches Some(micros) ==> is_whole_part(
                    micros as int,
                    waited,
                    1_000,
                )
                &&& report.pam_elapsed_us matches Some(micros) ==> is_whole_part(
                    micros as int,
                    passed_by_micros,
                    1_000,
                )
            }
        }),
{
}

/// Whether a count of units is all that fit into a length, up to what can be counted.
pub open spec fn is_whole_part(count: int, length: int, unit: int) -> bool {
    count * unit <= length && (length < (count + 1) * unit || count == u64::MAX)
}

} // verus!
