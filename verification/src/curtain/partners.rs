//! What the daemon tells the curtain: verdicts on passwords, and control messages.

use crate::common::ipc::{
    CurtainControlMessage, DaemonMessage, FingerprintStatus, LockPowerStatusSnapshot,
};
use crate::common::now_playing::NowPlayingSnapshot;
use crate::common::path;
use crate::common::path::FilePath;
use crate::common::text;
use crate::common::time;
use crate::common::time::{Moment, Span};
use crate::curtain::redraw;
use crate::curtain::redraw::RedrawTarget;
use crate::curtain::state;
use crate::curtain::state::{AttemptState, CurtainApp, CurtainModel, WidgetState};
use crate::daemon::ipc;
use crate::ui::input;
use crate::ui::shell::{ShellCore, ShellModel, ShellStatus};
use vstd::prelude::*;

verus! {

/// How an authentication attempt came out.
#[derive(Debug, Clone, Copy, PartialEq, Eq, Structural)]
pub enum AuthEvent {
    Accepted { attempt_id: u64 },
    Rejected { attempt_id: u64, retry_after_ms: Option<u64>, failed_attempts: Option<u8> },
    Busy { attempt_id: u64 },
    /// The attempt produced no verdict; the daemon was unreachable, silent, or too slow.
    Failed { attempt_id: u64 },
}

pub open spec fn event_of(message: DaemonMessage) -> AuthEvent {
    match message {
        DaemonMessage::AuthenticationAccepted { attempt_id } => AuthEvent::Accepted { attempt_id },
        DaemonMessage::AuthenticationRejected {
            attempt_id,
            retry_after_ms,
            failed_attempts,
        } => AuthEvent::Rejected { attempt_id, retry_after_ms, failed_attempts },
        DaemonMessage::AuthenticationBusy { attempt_id } => AuthEvent::Busy { attempt_id },
    }
}

/// What a reply of the daemon means; no reply at all is no verdict.
pub fn auth_event(attempt_id: u64, reply: Option<DaemonMessage>) -> (event: AuthEvent)
    ensures
        event == match reply {
            Some(message) => event_of(message),
            None => AuthEvent::Failed { attempt_id },
        },
{
    match reply {
        Some(DaemonMessage::AuthenticationAccepted { attempt_id }) => AuthEvent::Accepted {
            attempt_id,
        },
        Some(
            DaemonMessage::AuthenticationRejected { attempt_id, retry_after_ms, failed_attempts },
        ) => AuthEvent::Rejected { attempt_id, retry_after_ms, failed_attempts },
        Some(DaemonMessage::AuthenticationBusy { attempt_id }) => AuthEvent::Busy { attempt_id },
        None => AuthEvent::Failed { attempt_id },
    }
}

/// Seconds that the daemon has to unlock after it accepted a password.
pub const UNLOCK_DELIVERY_GRACE_SECONDS: u64 = 10;

pub open spec fn refused(
    model: CurtainModel,
    retry_after_ms: Option<u64>,
    failed_attempts: Option<u8>,
    now: Moment,
) -> CurtainModel {
    CurtainModel {
        attempt: AttemptState { in_flight: false, ..model.attempt },
        shell: input::rejected_model(model.shell, retry_after_ms, failed_attempts, now),
        ..model
    }
}

/// The curtain after an attempt came out. An accepted one waits for the daemon to unlock.
pub open spec fn after_auth_event(model: CurtainModel, event: AuthEvent, now: Moment) -> CurtainModel {
    match event {
        AuthEvent::Accepted { .. } => CurtainModel {
            attempt: AttemptState { accepted_at: Some(now), ..model.attempt },
            ..model
        },
        AuthEvent::Rejected { retry_after_ms, failed_attempts, .. } => refused(
            model,
            retry_after_ms,
            failed_attempts,
            now,
        ),
        AuthEvent::Busy { .. } => CurtainModel {
            attempt: AttemptState { in_flight: false, ..model.attempt },
            shell: ShellModel {
                core: ShellCore { status: ShellStatus::Idle, ..model.shell.core },
                ..model.shell
            },
            ..model
        },
        AuthEvent::Failed { .. } => refused(model, None, None, now),
    }
}

/// Whether the daemon has accepted a password and did not unlock in time.
pub open spec fn unlock_is_overdue(model: CurtainModel, now: Moment) -> bool {
    model.attempt.accepted_at matches Some(accepted_at) && time::span_between(accepted_at, now)
        >= UNLOCK_DELIVERY_GRACE_SECONDS * time::NANOS_PER_SECOND
}

pub open spec fn after_watchdog(model: CurtainModel, now: Moment) -> CurtainModel {
    refused(
        CurtainModel {
            attempt: AttemptState { accepted_at: None, ..model.attempt },
            ..model
        },
        None,
        None,
        now,
    )
}

impl CurtainApp {
    /// Takes in how an attempt came out, and asks for a redraw where the prompt changes.
    pub fn handle_auth_event(&mut self, event: AuthEvent, now: Moment) -> (targets: Vec<RedrawTarget>)
        requires
            now.nanos <= time::LAST_MOMENT_NANOS,
        ensures
            ({
                let after = after_auth_event(old(self)@, event, now);
                if event is Accepted {
                    final(self)@ == after && targets@.len() == 0
                } else {
                    final(self)@ == redraw::after_redraw_request(after) && targets@
                        == redraw::redraw_targets(after)
                }
            }),
            old(self).wf() ==> final(self).wf(),
    {
        match event {
            AuthEvent::Accepted { .. } => {
                self.attempt.accepted_at = Some(now);
                Vec::new()
            },
            AuthEvent::Rejected { retry_after_ms, failed_attempts, .. } => {
                self.attempt.in_flight = false;
                self.ui_shell.authentication_rejected(retry_after_ms, failed_attempts, now);
                self.render_all_surfaces()
            },
            AuthEvent::Busy { .. } => {
                self.attempt.in_flight = false;
                self.ui_shell.authentication_busy();
                self.render_all_surfaces()
            },
            AuthEvent::Failed { .. } => {
                self.attempt.in_flight = false;
                self.ui_shell.authentication_rejected(None, None, now);
                self.render_all_surfaces()
            },
        }
    }

    /// Frees the prompt where an accepted attempt is never followed by the daemon's unlock, so
    /// that the password can be typed again.
    pub fn advance_auth_watchdog(&mut self, now: Moment) -> (targets: Vec<RedrawTarget>)
        requires
            now.nanos <= time::LAST_MOMENT_NANOS,
        ensures
            if unlock_is_overdue(old(self)@, now) {
                let after = after_watchdog(old(self)@, now);
                final(self)@ == redraw::after_redraw_request(after) && targets@
                    == redraw::redraw_targets(after)
            } else {
                final(self)@ == old(self)@ && targets@.len() == 0
            },
            old(self).wf() ==> final(self).wf(),
    {
        let accepted_at = match self.attempt.accepted_at {
            Some(accepted_at) => accepted_at,
            None => {
                return Vec::new();
            },
        };
        if now.saturating_since(accepted_at).nanos < Span::from_secs(
            UNLOCK_DELIVERY_GRACE_SECONDS,
        ).nanos {
            return Vec::new();
        }
        self.attempt.accepted_at = None;
        self.attempt.in_flight = false;
        self.ui_shell.authentication_rejected(None, None, now);
        self.render_all_surfaces()
    }
}

/// What a control message asks of the curtain.
#[derive(Debug, Clone, PartialEq, Eq)]
pub enum ControlEvent {
    Unlock { attempt_id: Option<u64> },
    Reload,
    ArmResumeInputGuard,
    MarkResumed,
    UpdateNowPlaying { snapshot: Option<NowPlayingSnapshot> },
    UpdatePowerStatus { snapshot: Option<LockPowerStatusSnapshot> },
    UpdateFingerprintStatus { status: Option<FingerprintStatus> },
}

pub open spec fn control_event_of(message: CurtainControlMessage) -> ControlEvent {
    match message {
        CurtainControlMessage::Unlock { attempt_id } => ControlEvent::Unlock { attempt_id },
        CurtainControlMessage::ReloadConfig => ControlEvent::Reload,
        CurtainControlMessage::ArmResumeInputGuard => ControlEvent::ArmResumeInputGuard,
        CurtainControlMessage::MarkResumed => ControlEvent::MarkResumed,
        CurtainControlMessage::UpdateNowPlaying { snapshot } => ControlEvent::UpdateNowPlaying {
            snapshot,
        },
        CurtainControlMessage::UpdatePowerStatus { snapshot } => ControlEvent::UpdatePowerStatus {
            snapshot,
        },
        CurtainControlMessage::UpdateFingerprintStatus { status } =>
            ControlEvent::UpdateFingerprintStatus { status },
    }
}

pub fn control_event(message: CurtainControlMessage) -> (event: ControlEvent)
    ensures
        event == control_event_of(message),
{
    match message {
        CurtainControlMessage::Unlock { attempt_id } => ControlEvent::Unlock { attempt_id },
        CurtainControlMessage::ReloadConfig => ControlEvent::Reload,
        CurtainControlMessage::ArmResumeInputGuard => ControlEvent::ArmResumeInputGuard,
        CurtainControlMessage::MarkResumed => ControlEvent::MarkResumed,
        CurtainControlMessage::UpdateNowPlaying { snapshot } => ControlEvent::UpdateNowPlaying {
            snapshot,
        },
        CurtainControlMessage::UpdatePowerStatus { snapshot } => ControlEvent::UpdatePowerStatus {
            snapshot,
        },
        CurtainControlMessage::UpdateFingerprintStatus { status } =>
            ControlEvent::UpdateFingerprintStatus { status },
    }
}

/// What is left to do about a control message.
#[derive(Debug)]
pub enum ControlEffect {
    Nothing,
    Reload,
    ArmResumeInput,
    MarkResumed,
    /// Show the media player's state, then draw these surfaces.
    ShowNowPlaying(Vec<RedrawTarget>),
    /// Bring the power text up to date, and draw the surfaces where it changes.
    RefreshPowerStatus,
    Redraw(Vec<RedrawTarget>),
}

/// The curtain after a control message, before any redraw.
pub open spec fn after_control_event(model: CurtainModel, event: ControlEvent) -> CurtainModel {
    match event {
        ControlEvent::Unlock { .. } => state::exiting(state::authorized(model)),
        ControlEvent::UpdateNowPlaying { snapshot } => CurtainModel {
            now_playing_snapshot: snapshot,
            ..model
        },
        ControlEvent::UpdatePowerStatus { snapshot } => CurtainModel {
            widgets: WidgetState { remote_power_status: snapshot, ..model.widgets },
            ..model
        },
        ControlEvent::UpdateFingerprintStatus { status } => CurtainModel {
            shell: ShellModel {
                core: ShellCore { fingerprint_status: status, ..model.shell.core },
                ..model.shell
            },
            ..model
        },
        _ => model,
    }
}

/// Whether a control message changes what every surface shows.
pub open spec fn redraws_everything(model: CurtainModel, event: ControlEvent) -> bool {
    match event {
        ControlEvent::UpdateNowPlaying { .. } => true,
        ControlEvent::UpdateFingerprintStatus { status } => model.shell.core.fingerprint_status
            != status,
        _ => false,
    }
}

impl CurtainApp {
    /// Takes in a control message.
    pub fn handle_control_event(&mut self, event: ControlEvent) -> (effect: ControlEffect)
        ensures
            ({
                let after = after_control_event(old(self)@, event);
                &&& final(self)@ == if redraws_everything(old(self)@, event) {
                    redraw::after_redraw_request(after)
                } else {
                    after
                }
                &&& match event {
                    ControlEvent::Unlock { .. } => effect is Nothing,
                    ControlEvent::Reload => effect is Reload,
                    ControlEvent::ArmResumeInputGuard => effect is ArmResumeInput,
                    ControlEvent::MarkResumed => effect is MarkResumed,
                    ControlEvent::UpdateNowPlaying { .. } => effect matches
                        ControlEffect::ShowNowPlaying(targets) && targets@
                        == redraw::redraw_targets(after),
                    ControlEvent::UpdatePowerStatus { .. } => effect is RefreshPowerStatus,
                    ControlEvent::UpdateFingerprintStatus { .. } => if redraws_everything(
                        old(self)@,
                        event,
                    ) {
                        effect matches ControlEffect::Redraw(targets) && targets@
                            == redraw::redraw_targets(after)
                    } else {
                        effect is Nothing
                    },
                }
            }),
            old(self).wf() ==> final(self).wf(),
    {
        match event {
            ControlEvent::Unlock { .. } => {
                self.authorize_unlock();
                self.request_exit();
                ControlEffect::Nothing
            },
            ControlEvent::Reload => ControlEffect::Reload,
            ControlEvent::ArmResumeInputGuard => ControlEffect::ArmResumeInput,
            ControlEvent::MarkResumed => ControlEffect::MarkResumed,
            ControlEvent::UpdateNowPlaying { snapshot } => {
                self.now_playing_snapshot = snapshot;
                ControlEffect::ShowNowPlaying(self.render_all_surfaces())
            },
            ControlEvent::UpdatePowerStatus { snapshot } => {
                self.widgets.remote_power_status = snapshot;
                ControlEffect::RefreshPowerStatus
            },
            ControlEvent::UpdateFingerprintStatus { status } => {
                if self.ui_shell.set_fingerprint_status(status) {
                    ControlEffect::Redraw(self.render_all_surfaces())
                } else {
                    ControlEffect::Nothing
                }
            },
        }
    }
}

/// How long the control listener waits after it could not accept a connection.
#[derive(Debug, Clone, Copy, PartialEq, Eq, Structural)]
pub struct AcceptBackoff {
    pub millis: u64,
}

pub const ACCEPT_BACKOFF_MIN_MS: u64 = 50;

pub const ACCEPT_BACKOFF_MAX_MS: u64 = 1_000;

/// The wait after the next failure: twice as long, up to a limit.
pub open spec fn longer_wait(millis: u64) -> u64 {
    if 2 * millis <= ACCEPT_BACKOFF_MAX_MS {
        (2 * millis) as u64
    } else {
        ACCEPT_BACKOFF_MAX_MS
    }
}

impl AcceptBackoff {
    pub fn new() -> (backoff: Self)
        ensures
            backoff.millis == ACCEPT_BACKOFF_MIN_MS,
    {
        AcceptBackoff { millis: ACCEPT_BACKOFF_MIN_MS }
    }

    /// A connection was accepted: the next failure waits shortest again.
    pub fn accepted(&mut self)
        ensures
            final(self).millis == ACCEPT_BACKOFF_MIN_MS,
    {
        self.millis = ACCEPT_BACKOFF_MIN_MS;
    }

    /// No connection could be accepted: tells how long to wait.
    pub fn failed(&mut self) -> (wait: Span)
        ensures
            wait.nanos == old(self).millis * time::NANOS_PER_MILLI,
            final(self).millis == longer_wait(old(self).millis),
    {
        let wait = Span::from_millis(self.millis);
        self.millis = if self.millis <= ACCEPT_BACKOFF_MAX_MS / 2 {
            2 * self.millis
        } else {
            ACCEPT_BACKOFF_MAX_MS
        };
        wait
    }
}

/// What came of a connection to the control socket.
#[derive(Debug, Clone, Copy, PartialEq, Eq, Structural)]
pub enum ControlConnection {
    /// Nothing was sent, or nothing that makes sense.
    Ignored,
    /// A message was handed on, or could not be because the curtain is gone.
    Message { unlock: bool, delivered: bool },
}

/// Whether the listener goes on: until an unlock was handed on, or nobody listens any more.
pub open spec fn goes_on_after(connection: ControlConnection) -> bool {
    match connection {
        ControlConnection::Ignored => true,
        ControlConnection::Message { unlock, delivered } => delivered && !unlock,
    }
}

/// Whether the listener goes on: until an unlock was handed on, or nobody listens any more.
pub fn listener_goes_on(connection: ControlConnection) -> (goes_on: bool)
    ensures
        goes_on == goes_on_after(connection),
{
    match connection {
        ControlConnection::Ignored => true,
        ControlConnection::Message { unlock, delivered } => delivered && !unlock,
    }
}

/// The path under which the control socket is bound before it is published.
pub fn control_staging_path(path: &FilePath, process_id: u32) -> (staging: FilePath)
    ensures
        staging@ == path::renamed(
            path@,
            ipc::staging_name(path@, "control.sock"@, process_id as nat),
        ),
{
    ipc::staged(path, "control.sock", process_id)
}

/// Accepts a control connection of the user who owns the socket.
pub fn verify_control_peer(peer_uid: u32, owner_uid: u32) -> (result: core::result::Result<
    (),
    String,
>)
    ensures
        match result {
            Ok(()) => peer_uid == owner_uid,
            Err(message) => peer_uid != owner_uid && message@
                == "rejected curtain control connection from uid "@ + text::decimal(
                peer_uid as nat,
            ) + ", expected socket owner uid "@ + text::decimal(owner_uid as nat),
        },
{
    if peer_uid != owner_uid {
        let mut message = text::joined(
            "rejected curtain control connection from uid ",
            text::decimal_text(peer_uid as u128).as_str(),
        );
        message.append(", expected socket owner uid ");
        message.append(text::decimal_text(owner_uid as u128).as_str());
        return Err(message);
    }
    Ok(())
}

/// Accepts a daemon that runs as the user who owns its socket.
pub fn verify_socket_peer(peer_uid: u32, owner_uid: u32) -> (result: core::result::Result<
    (),
    String,
>)
    ensures
        match result {
            Ok(()) => peer_uid == owner_uid,
            Err(message) => peer_uid != owner_uid && message@ == "peer uid "@ + text::decimal(
                peer_uid as nat,
            ) + " does not match socket owner uid "@ + text::decimal(owner_uid as nat),
        },
{
    if peer_uid != owner_uid {
        let mut message = text::joined("peer uid ", text::decimal_text(peer_uid as u128).as_str());
        message.append(" does not match socket owner uid ");
        message.append(text::decimal_text(owner_uid as u128).as_str());
        return Err(message);
    }
    Ok(())
}

/// Of all that the daemon can tell, only an unlock message authorizes the unlock; a verdict on a
/// password never does.
pub proof fn law_only_unlock_messages_authorize(
    model: CurtainModel,
    control: ControlEvent,
    auth: AuthEvent,
    now: Moment,
)
    ensures
        after_control_event(model, control).lock.unlock_authorized
            == (model.lock.unlock_authorized || control is Unlock),
        after_auth_event(model, auth, now).lock == model.lock,
        after_watchdog(model, now).lock == model.lock,
{
}

/// Whatever comes of an attempt, the prompt is free again sooner or later: at once, or where the
/// password was accepted and no unlock follows, once the daemon had its time.
pub proof fn law_prompt_is_never_stuck(model: CurtainModel, event: AuthEvent, now: Moment, later: Moment)
    requires
        later.nanos >= now.nanos + UNLOCK_DELIVERY_GRACE_SECONDS * time::NANOS_PER_SECOND,
    ensures
        ({
            let after = after_auth_event(model, event, now);
            if event is Accepted {
                unlock_is_overdue(after, later) && !after_watchdog(after, later).attempt.in_flight
                    && after_watchdog(after, later).attempt.accepted_at is None
            } else {
                !after.attempt.in_flight
            }
        }),
{
}

/// The listener never waits longer than a second, and never less than it began with.
pub proof fn law_listener_waits_are_bounded(millis: u64)
    requires
        ACCEPT_BACKOFF_MIN_MS <= millis <= ACCEPT_BACKOFF_MAX_MS,
    ensures
        ACCEPT_BACKOFF_MIN_MS <= longer_wait(millis) <= ACCEPT_BACKOFF_MAX_MS,
        longer_wait(millis) >= millis,
{
}

/// A connection to the control socket: whose it is, the message in its first line where that
/// holds one, and whether the curtain still takes events.
pub ghost struct ControlCall {
    pub peer_uid: u32,
    pub message: Option<CurtainControlMessage>,
    pub receiver_alive: bool,
}

/// The event that a connection asks for: a message from the user who owns the socket.
pub open spec fn called_event(owner_uid: u32, call: ControlCall) -> Option<ControlEvent> {
    match call.message {
        Some(message) => if call.peer_uid == owner_uid {
            Some(control_event_of(message))
        } else {
            None
        },
        None => None,
    }
}

/// What comes of a connection.
pub open spec fn connection_of(owner_uid: u32, call: ControlCall) -> ControlConnection {
    match called_event(owner_uid, call) {
        Some(event) => ControlConnection::Message {
            unlock: event is Unlock,
            delivered: call.receiver_alive,
        },
        None => ControlConnection::Ignored,
    }
}

/// The events that the listener hands on as connections come in, and whether it still listens
/// after them.
pub open spec fn listened(owner_uid: u32, calls: Seq<ControlCall>) -> (Seq<ControlEvent>, bool)
    decreases calls.len(),
{
    if calls.len() == 0 {
        (Seq::empty(), true)
    } else {
        let (events, listens) = listened(owner_uid, calls.drop_last());
        let call = calls.last();
        if !listens {
            (events, false)
        } else {
            (
                match called_event(owner_uid, call) {
                    Some(event) => if call.receiver_alive {
                        events.push(event)
                    } else {
                        events
                    },
                    None => events,
                },
                goes_on_after(connection_of(owner_uid, call)),
            )
        }
    }
}

/// The events that connections ask for, in their order.
pub open spec fn called_events(owner_uid: u32, calls: Seq<ControlCall>) -> Seq<ControlEvent>
    decreases calls.len(),
{
    if calls.len() == 0 {
        Seq::empty()
    } else {
        let events = called_events(owner_uid, calls.drop_last());
        match called_event(owner_uid, calls.last()) {
            Some(event) => events.push(event),
            None => events,
        }
    }
}

/// Events up to the first unlock, which is kept.
pub open spec fn up_to_unlock(events: Seq<ControlEvent>) -> Seq<ControlEvent>
    decreases events.len(),
{
    if events.len() == 0 {
        Seq::empty()
    } else {
        let before = up_to_unlock(events.drop_last());
        if has_unlock(events.drop_last()) {
            before
        } else {
            before.push(events.last())
        }
    }
}

/// Whether an unlock is among the events.
pub open spec fn has_unlock(events: Seq<ControlEvent>) -> bool {
    exists|i: int| 0 <= i < events.len() && #[trigger] events[i] is Unlock
}

/// While the curtain takes events, the listener hands on exactly what the connections of the
/// socket's owner ask for, in order, up to and with the first unlock. It stops there and nowhere
/// else: a stranger, an empty connection or one that makes no sense neither sends anything nor
/// stops it.
pub proof fn law_listener_hands_on_up_to_the_unlock(owner_uid: u32, calls: Seq<ControlCall>)
    requires
        forall|i: int| 0 <= i < calls.len() ==> (#[trigger] calls[i]).receiver_alive,
    ensures
        listened(owner_uid, calls).0 == up_to_unlock(called_events(owner_uid, calls)),
        listened(owner_uid, calls).1 == !has_unlock(called_events(owner_uid, calls)),
    decreases calls.len(),
{
    if calls.len() > 0 {
        let before = calls.drop_last();
        assert forall|i: int| 0 <= i < before.len() implies (#[trigger] before[i]).receiver_alive by {
            assert(before[i] == calls[i]);
        }
        law_listener_hands_on_up_to_the_unlock(owner_uid, before);
        assert(calls.last() == calls[calls.len() - 1]);
        let events = called_events(owner_uid, before);
        if let Some(event) = called_event(owner_uid, calls.last()) {
            let more = events.push(event);
            assert(more.drop_last() =~= events);
            if has_unlock(events) {
                let at = choose|i: int| 0 <= i < events.len() && #[trigger] events[i] is Unlock;
                assert(more[at] is Unlock);
            }
            if event is Unlock {
                assert(more[events.len() as int] is Unlock);
            }
            if has_unlock(more) && !(event is Unlock) {
                let at = choose|i: int| 0 <= i < more.len() && #[trigger] more[i] is Unlock;
                assert(events[at] is Unlock);
            }
        }
    }
}

/// Once nobody takes the events any more, the next message ends the listener and nothing more is
/// handed on.
pub proof fn law_listener_stops_without_a_receiver(
    owner_uid: u32,
    calls: Seq<ControlCall>,
    call: ControlCall,
    later: Seq<ControlCall>,
)
    requires
        called_event(owner_uid, call) is Some,
        !call.receiver_alive,
    ensures
        listened(owner_uid, calls.push(call) + later) == (listened(owner_uid, calls).0, false),
    decreases later.len(),
{
    let all = calls.push(call) + later;
    if later.len() == 0 {
        assert(all =~= calls.push(call));
        assert(all.drop_last() =~= calls);
    } else {
        assert(all.drop_last() =~= calls.push(call) + later.drop_last());
        law_listener_stops_without_a_receiver(owner_uid, calls, call, later.drop_last());
    }
}

/// What the daemon answers is passed on with the attempt it is about and everything it says; no
/// answer is a failure.
pub proof fn law_answers_are_passed_on_whole(message: DaemonMessage)
    ensures
        match message {
            DaemonMessage::AuthenticationAccepted { attempt_id } => event_of(message) matches
                AuthEvent::Accepted { attempt_id: id } && id == attempt_id,
            DaemonMessage::AuthenticationBusy { attempt_id } => event_of(message) matches
                AuthEvent::Busy { attempt_id: id } && id == attempt_id,
            DaemonMessage::AuthenticationRejected {
                attempt_id,
                retry_after_ms,
                failed_attempts,
            } => event_of(message) matches AuthEvent::Rejected {
                attempt_id: id,
                retry_after_ms: wait,
                failed_attempts: failures,
            } && id == attempt_id && wait == retry_after_ms && failures == failed_attempts,
        },
{
}

/// An accepted password leaves the prompt waiting; a refused or failed one ends the attempt, shows
/// the refusal and empties the input; while another attempt runs the prompt is idle again.
pub proof fn law_verdicts_reach_the_prompt(model: CurtainModel, event: AuthEvent, now: Moment)
    ensures
        ({
            let after = after_auth_event(model, event, now);
            &&& event is Accepted ==> after.attempt.accepted_at == Some(now)
                && after.attempt.in_flight == model.attempt.in_flight && after.shell == model.shell
            &&& event is Rejected || event is Failed ==> !after.attempt.in_flight
                && after.shell.core.status is Rejected && after.shell.secret.len() == 0
            &&& event matches AuthEvent::Rejected { failed_attempts, .. }
                ==> after.shell.core.status->failed_attempts == failed_attempts
            &&& event is Failed ==> after.shell.core.status->retry_until is None
                && after.shell.core.status->failed_attempts is None
            &&& event is Busy ==> !after.attempt.in_flight && after.shell.core.status
                == ShellStatus::Idle && after.shell.secret == model.shell.secret
            &&& after.surfaces == model.surfaces && after.background_path == model.background_path
                && after.attempt.next_attempt_id == model.attempt.next_attempt_id
        }),
{
}

/// An unlock that was promised is overdue ten seconds after the password was accepted, and not
/// before; the prompt is then refused, as if there had been no answer.
pub proof fn law_promised_unlock_is_given_ten_seconds(model: CurtainModel, now: Moment)
    ensures
        model.attempt.accepted_at is None ==> !unlock_is_overdue(model, now),
        model.attempt.accepted_at matches Some(accepted) ==> (now.nanos >= accepted.nanos ==> (
        unlock_is_overdue(model, now) <==> now.nanos >= accepted.nanos + 10_000_000_000)),
        after_watchdog(model, now).attempt.accepted_at is None,
        !after_watchdog(model, now).attempt.in_flight,
        after_watchdog(model, now).shell.core.status is Rejected,
{
}

/// Each message of the daemon changes what it is about and nothing else.
pub proof fn law_messages_change_what_they_are_about(
    model: CurtainModel,
    message: CurtainControlMessage,
)
    ensures
        ({
            let after = after_control_event(model, control_event_of(message));
            &&& message is Unlock ==> after.lock.unlock_authorized && after.lock.exit_requested
            &&& !(message is Unlock) ==> after.lock == model.lock
            &&& message matches CurtainControlMessage::UpdateNowPlaying { snapshot }
                ==> after.now_playing_snapshot == snapshot
            &&& !(message is UpdateNowPlaying) ==> after.now_playing_snapshot
                == model.now_playing_snapshot
            &&& message matches CurtainControlMessage::UpdatePowerStatus { snapshot }
                ==> after.widgets.remote_power_status == snapshot
            &&& !(message is UpdatePowerStatus) ==> after.widgets == model.widgets
            &&& message matches CurtainControlMessage::UpdateFingerprintStatus { status }
                ==> after.shell.core.fingerprint_status == status
            &&& !(message is UpdateFingerprintStatus) ==> after.shell == model.shell
            &&& after.shell.secret == model.shell.secret && after.shell.core.status
                == model.shell.core.status
            &&& message is ReloadConfig ==> control_event_of(message) is Reload
            &&& message is ArmResumeInputGuard ==> control_event_of(message) is ArmResumeInputGuard
            &&& message is MarkResumed ==> control_event_of(message) is MarkResumed
        }),
{
}

/// A listener that fails to accept waits twice as long each time, from 50 milliseconds up to a
/// second.
pub proof fn law_waits_double_up_to_a_second(millis: u64)
    ensures
        millis <= 500 ==> longer_wait(millis) == 2 * millis,
        millis > 500 ==> longer_wait(millis) == 1_000,
        ACCEPT_BACKOFF_MIN_MS == 50,
{
}

/// The listener stops after it handed on an unlock, or found nobody to hand a message to.
pub proof fn law_listener_stops_after_the_unlock(connection: ControlConnection)
    ensures
        connection is Ignored ==> goes_on_after(connection),
        connection matches ControlConnection::Message { unlock, delivered } ==> (goes_on_after(
            connection,
        ) <==> delivered && !unlock),
{
}

/// Everything is drawn again where the media player's state came, or the fingerprint reader's
/// changed, and for no other message.
pub proof fn law_shown_changes_are_drawn(model: CurtainModel, event: ControlEvent)
    ensures
        redraws_everything(model, event) <==> event is UpdateNowPlaying || (
        event is UpdateFingerprintStatus && after_control_event(
            model,
            event,
        ).shell.core.fingerprint_status != model.shell.core.fingerprint_status),
{
}

/// Only the owner of the socket is listened to: what another user sends has no effect, and what
/// the owner sends is handed on as it was sent.
pub proof fn law_only_the_owner_is_listened_to(owner_uid: u32, call: ControlCall)
    ensures
        call.peer_uid != owner_uid ==> called_event(owner_uid, call) is None && connection_of(
            owner_uid,
            call,
        ) is Ignored,
        call.peer_uid == owner_uid ==> (call.message matches Some(message) ==> called_event(
            owner_uid,
            call,
        ) == Some(control_event_of(message))),
        call.message is None ==> called_event(owner_uid, call) is None,
{
}

} // verus!
