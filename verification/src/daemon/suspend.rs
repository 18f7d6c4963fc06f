//! When a locked session suspends the machine.

use crate::common::battery::BatterySnapshot;
use crate::common::config::AppConfig;
use crate::common::ipc::LockPowerStatusSnapshot;
use crate::common::time;
use crate::common::time::{Moment, Span, NANOS_PER_SECOND};
use vstd::prelude::*;

verus! {

#[derive(Debug, Clone, Copy, PartialEq, Eq, Structural)]
pub enum SuspendSkipReason {
    AuthInFlight,
    OnAcPower,
    NoBatteryDetected,
    MediaPlaying,
}

impl SuspendSkipReason {
    pub fn as_str(self) -> (text: &'static str)
        ensures
            text@ == match self {
                SuspendSkipReason::AuthInFlight => "auth-in-flight"@,
                SuspendSkipReason::OnAcPower => "on-ac-power"@,
                SuspendSkipReason::NoBatteryDetected => "no-battery-detected"@,
                SuspendSkipReason::MediaPlaying => "media-playing"@,
            },
    {
        match self {
            Self::AuthInFlight => "auth-in-flight",
            Self::OnAcPower => "on-ac-power",
            Self::NoBatteryDetected => "no-battery-detected",
            Self::MediaPlaying => "media-playing",
        }
    }
}

#[derive(Debug, Clone, Copy, PartialEq, Eq, Structural)]
pub enum SuspendDecision {
    Pending,
    Ready,
    Skipped(SuspendSkipReason),
}

/// Policy and progress of suspending while the session is locked.
#[derive(Debug, Clone, Copy, PartialEq, Eq, Structural)]
pub struct LockedSuspendState {
    pub delay: Option<Span>,
    pub battery_only: bool,
    pub skip_while_media_playing: bool,
    pub last_activity_at: Option<Moment>,
    pub suspend_requested: bool,
    pub last_reported_skip_reason: Option<SuspendSkipReason>,
}

/// The moment the delay after the last activity is over. Where the clock cannot represent it, the
/// delay counts as over at once.
pub open spec fn suspend_deadline(last_activity_at: Moment, delay: Span) -> int {
    if last_activity_at.nanos + delay.nanos <= time::LAST_MOMENT_NANOS {
        last_activity_at.nanos + delay.nanos
    } else {
        last_activity_at.nanos as int
    }
}

/// Whether a suspend is waited for: the session is locked, none was requested yet, and there is
/// a delay that runs.
pub open spec fn waits_to_suspend(state: LockedSuspendState, active_lock: bool) -> bool {
    active_lock && !state.suspend_requested && state.delay is Some && state.last_activity_at is Some
}

/// The deadline of a suspend that is waited for.
pub open spec fn pending_deadline(state: LockedSuspendState) -> int {
    suspend_deadline(state.last_activity_at->0, state.delay->0)
}

/// What stands against suspending once the delay is over, the first reason that applies.
pub open spec fn skip_reason(
    state: LockedSuspendState,
    auth_in_flight: bool,
    battery: Option<BatterySnapshot>,
    media_playing: bool,
) -> Option<SuspendSkipReason> {
    if auth_in_flight {
        Some(SuspendSkipReason::AuthInFlight)
    } else if state.battery_only && battery is None {
        Some(SuspendSkipReason::NoBatteryDetected)
    } else if state.battery_only && battery->0.charging {
        Some(SuspendSkipReason::OnAcPower)
    } else if state.skip_while_media_playing && media_playing {
        Some(SuspendSkipReason::MediaPlaying)
    } else {
        None
    }
}

/// Whole seconds left, rounded up, and at least one.
pub open spec fn seconds_left(nanos: nat) -> nat {
    let seconds = (nanos + 999_999_999) / 1_000_000_000;
    if seconds == 0 {
        1
    } else if seconds <= u64::MAX {
        seconds
    } else {
        u64::MAX as nat
    }
}

impl LockedSuspendState {
    pub fn new(delay: Option<Span>, battery_only: bool, skip_while_media_playing: bool) -> (state:
        Self)
        ensures
            state == (LockedSuspendState {
                delay,
                battery_only,
                skip_while_media_playing,
                last_activity_at: None,
                suspend_requested: false,
                last_reported_skip_reason: None,
            }),
    {
        Self {
            delay,
            battery_only,
            skip_while_media_playing,
            last_activity_at: None,
            suspend_requested: false,
            last_reported_skip_reason: None,
        }
    }

    /// Takes over a policy. One that did not change leaves a suspend request standing.
    pub fn set_policy(
        &mut self,
        delay: Option<Span>,
        battery_only: bool,
        skip_while_media_playing: bool,
        now: Moment,
        active_lock: bool,
    )
        ensures
            final(self).delay == delay,
            final(self).battery_only == battery_only,
            final(self).skip_while_media_playing == skip_while_media_playing,
            final(self).last_activity_at == if !active_lock || delay is None {
                None
            } else if old(self).last_activity_at is Some {
                old(self).last_activity_at
            } else {
                Some(now)
            },
            ({
                let unchanged = old(self).delay == delay && old(self).battery_only == battery_only
                    && old(self).skip_while_media_playing == skip_while_media_playing;
                &&& final(self).suspend_requested == (unchanged && old(self).suspend_requested)
                &&& final(self).last_reported_skip_reason == if unchanged {
                    old(self).last_reported_skip_reason
                } else {
                    None
                }
            }),
    {
        let same_delay = match (self.delay, delay) {
            (Some(current), Some(new)) => current.nanos == new.nanos,
            (None, None) => true,
            _ => false,
        };
        let policy_changed = !same_delay || self.battery_only != battery_only
            || self.skip_while_media_playing != skip_while_media_playing;
        self.delay = delay;
        self.battery_only = battery_only;
        self.skip_while_media_playing = skip_while_media_playing;
        if policy_changed {
            self.suspend_requested = false;
            self.last_reported_skip_reason = None;
        }
        self.last_activity_at = if !active_lock || delay.is_none() {
            None
        } else {
            match self.last_activity_at {
                Some(last) => Some(last),
                None => Some(now),
            }
        };
    }

    /// Starts the delay, where there is one.
    pub fn arm(&mut self, now: Moment)
        ensures
            *final(self) == restarted(*old(self), now),
    {
        self.note_activity(now);
    }

    pub fn clear(&mut self)
        ensures
            *final(self) == (LockedSuspendState {
                last_activity_at: None,
                suspend_requested: false,
                last_reported_skip_reason: None,
                ..*old(self)
            }),
    {
        self.last_activity_at = None;
        self.suspend_requested = false;
        self.last_reported_skip_reason = None;
    }

    /// Starts the delay over, where there is one.
    pub fn note_activity(&mut self, now: Moment)
        ensures
            *final(self) == restarted(*old(self), now),
    {
        if self.delay.is_none() {
            return;
        }
        self.last_activity_at = Some(now);
        self.suspend_requested = false;
        self.last_reported_skip_reason = None;
    }

    /// Decides whether to suspend now.
    pub fn evaluate(
        &self,
        now: Moment,
        active_lock: bool,
        auth_in_flight: bool,
        battery_snapshot: Option<&BatterySnapshot>,
        media_playing: bool,
    ) -> (decision: SuspendDecision)
        ensures
            decision == suspend_decision(
                *self,
                now,
                active_lock,
                auth_in_flight,
                match battery_snapshot {
                    Some(battery) => Some(*battery),
                    None => None,
                },
                media_playing,
            ),
    {
        if !active_lock || self.suspend_requested {
            return SuspendDecision::Pending;
        }
        let delay = match self.delay {
            Some(delay) => delay,
            None => {
                return SuspendDecision::Pending;
            },
        };
        let last_activity_at = match self.last_activity_at {
            Some(last_activity_at) => last_activity_at,
            None => {
                return SuspendDecision::Pending;
            },
        };
        let deadline = match last_activity_at.checked_add(delay) {
            Some(deadline) => deadline,
            None => last_activity_at,
        };
        if now.nanos < deadline.nanos {
            return SuspendDecision::Pending;
        }
        if auth_in_flight {
            return SuspendDecision::Skipped(SuspendSkipReason::AuthInFlight);
        }
        if self.battery_only {
            match battery_power_state(battery_snapshot) {
                BatteryPowerState::OnBattery => {},
                BatteryPowerState::Charging => {
                    return SuspendDecision::Skipped(SuspendSkipReason::OnAcPower);
                },
                BatteryPowerState::Unavailable => {
                    return SuspendDecision::Skipped(SuspendSkipReason::NoBatteryDetected);
                },
            }
        }
        if self.skip_while_media_playing && media_playing {
            return SuspendDecision::Skipped(SuspendSkipReason::MediaPlaying);
        }
        SuspendDecision::Ready
    }

    /// Remembers why a suspend was skipped, and returns the reason if it is not the one that was
    /// reported last.
    pub fn note_skip_reason(&mut self, reason: SuspendSkipReason) -> (report: Option<
        SuspendSkipReason,
    >)
        ensures
            *final(self) == (LockedSuspendState {
                last_reported_skip_reason: Some(reason),
                ..*old(self)
            }),
            report == if old(self).last_reported_skip_reason == Some(reason) {
                None
            } else {
                Some(reason)
            },
    {
        if let Some(last) = self.last_reported_skip_reason {
            if last == reason {
                return None;
            }
        }
        self.last_reported_skip_reason = Some(reason);
        Some(reason)
    }

    pub fn clear_reported_skip_reason(&mut self)
        ensures
            *final(self) == (LockedSuspendState { last_reported_skip_reason: None, ..*old(self) }),
    {
        self.last_reported_skip_reason = None;
    }

    pub fn mark_requested(&mut self)
        ensures
            *final(self) == (LockedSuspendState {
                suspend_requested: true,
                last_reported_skip_reason: None,
                ..*old(self)
            }),
    {
        self.suspend_requested = true;
        self.last_reported_skip_reason = None;
    }

    /// The countdown to show while a suspend is waited for.
    pub fn power_status_snapshot(&self, now: Moment, active_lock: bool) -> (snapshot: Option<
        LockPowerStatusSnapshot,
    >)
        ensures
            snapshot == if waits_to_suspend(*self, active_lock) && now.nanos < pending_deadline(
                *self,
            ) {
                Some(
                    LockPowerStatusSnapshot {
                        suspend_remaining_seconds: seconds_left(
                            (pending_deadline(*self) - now.nanos) as nat,
                        ) as u64,
                    },
                )
            } else {
                None
            },
    {
        if !active_lock || self.suspend_requested {
            return None;
        }
        let delay = match self.delay {
            Some(delay) => delay,
            None => {
                return None;
            },
        };
        let last_activity_at = match self.last_activity_at {
            Some(last_activity_at) => last_activity_at,
            None => {
                return None;
            },
        };
        let deadline = match last_activity_at.checked_add(delay) {
            Some(deadline) => deadline,
            None => last_activity_at,
        };
        if now.nanos >= deadline.nanos {
            return None;
        }
        Some(
            LockPowerStatusSnapshot {
                suspend_remaining_seconds: remaining_seconds(deadline.saturating_since(now)),
            },
        )
    }
}

/// The state after the delay was started over.
pub open spec fn restarted(state: LockedSuspendState, now: Moment) -> LockedSuspendState {
    if state.delay is None {
        state
    } else {
        LockedSuspendState {
            last_activity_at: Some(now),
            suspend_requested: false,
            last_reported_skip_reason: None,
            ..state
        }
    }
}

/// Nothing is decided before the deadline; from then on the machine suspends unless something
/// stands against it.
pub open spec fn suspend_decision(
    state: LockedSuspendState,
    now: Moment,
    active_lock: bool,
    auth_in_flight: bool,
    battery: Option<BatterySnapshot>,
    media_playing: bool,
) -> SuspendDecision {
    if !waits_to_suspend(state, active_lock) || now.nanos < pending_deadline(state) {
        SuspendDecision::Pending
    } else {
        match skip_reason(state, auth_in_flight, battery, media_playing) {
            Some(reason) => SuspendDecision::Skipped(reason),
            None => SuspendDecision::Ready,
        }
    }
}

/// The delay that is configured; zero seconds switch suspending off.
pub fn suspend_delay_seconds(config: &AppConfig) -> (seconds: Option<u64>)
    ensures
        seconds == match config.lock.suspend_seconds {
            Some(seconds) => if seconds > 0 {
                Some(seconds)
            } else {
                None
            },
            None => None,
        },
{
    match config.lock.suspend_seconds {
        Some(seconds) if seconds > 0 => Some(seconds),
        _ => None,
    }
}

#[derive(Debug, Clone, Copy, PartialEq, Eq, Structural)]
pub enum BatteryPowerState {
    OnBattery,
    Charging,
    Unavailable,
}

pub fn battery_power_state(snapshot: Option<&BatterySnapshot>) -> (state: BatteryPowerState)
    ensures
        state == match snapshot {
            Some(snapshot) => if snapshot.charging {
                BatteryPowerState::Charging
            } else {
                BatteryPowerState::OnBattery
            },
            None => BatteryPowerState::Unavailable,
        },
{
    match snapshot {
        Some(snapshot) if !snapshot.charging => BatteryPowerState::OnBattery,
        Some(_) => BatteryPowerState::Charging,
        None => BatteryPowerState::Unavailable,
    }
}

/// Whole seconds left, rounded up, and at least one.
pub fn remaining_seconds(duration: Span) -> (seconds: u64)
    ensures
        seconds == seconds_left(duration.nanos as nat),
{
    let whole: u128 = duration.nanos / NANOS_PER_SECOND;
    let seconds: u64 = if whole <= u64::MAX as u128 {
        whole as u64
    } else {
        u64::MAX
    };
    if duration.nanos % NANOS_PER_SECOND == 0 {
        if seconds == 0 {
            1
        } else {
            seconds
        }
    } else {
        seconds.saturating_add(1)
    }
}

/// The machine suspends only while the session is locked, after the whole delay, without an
/// authentication under way, on battery where the policy asks for that, and not over playing
/// media where the policy forbids it.
pub proof fn law_ready_means_nothing_stands_against(
    state: LockedSuspendState,
    now: Moment,
    active_lock: bool,
    auth_in_flight: bool,
    battery: Option<BatterySnapshot>,
    media_playing: bool,
)
    requires
        suspend_decision(state, now, active_lock, auth_in_flight, battery, media_playing)
            == SuspendDecision::Ready,
    ensures
        active_lock,
        !auth_in_flight,
        state.delay is Some && state.last_activity_at is Some,
        now.nanos >= suspend_deadline(state.last_activity_at->0, state.delay->0),
        state.battery_only ==> battery is Some && !battery->0.charging,
        state.skip_while_media_playing ==> !media_playing,
{
}

/// One request is made at a time: after it was marked nothing is decided, until activity or
/// another policy starts the delay over.
pub proof fn law_one_request_at_a_time(
    state: LockedSuspendState,
    now: Moment,
    active_lock: bool,
    auth_in_flight: bool,
    battery: Option<BatterySnapshot>,
    media_playing: bool,
)
    requires
        state.suspend_requested,
    ensures
        suspend_decision(state, now, active_lock, auth_in_flight, battery, media_playing)
            == SuspendDecision::Pending,
        state.delay is Some ==> !restarted(state, now).suspend_requested,
{
}

/// Activity postpones the suspend by the whole delay.
pub proof fn law_activity_postpones(
    state: LockedSuspendState,
    activity: Moment,
    now: Moment,
    active_lock: bool,
    auth_in_flight: bool,
    battery: Option<BatterySnapshot>,
    media_playing: bool,
)
    requires
        state.delay is Some,
        activity.nanos + state.delay->0.nanos <= time::LAST_MOMENT_NANOS,
        now.nanos < activity.nanos + state.delay->0.nanos,
    ensures
        suspend_decision(
            restarted(state, activity),
            now,
            active_lock,
            auth_in_flight,
            battery,
            media_playing,
        ) == SuspendDecision::Pending,
{
}

/// The machine suspends as soon as nothing stands against it: the session is locked, no request
/// was made yet, the whole delay has passed since the last activity, no authentication is under
/// way, it runs on battery or need not, and no media plays or it does not matter.
pub proof fn law_ready_when_nothing_stands_against(
    state: LockedSuspendState,
    now: Moment,
    active_lock: bool,
    auth_in_flight: bool,
    battery: Option<BatterySnapshot>,
    media_playing: bool,
    last_activity: Moment,
    delay: Span,
)
    requires
        state.delay == Some(delay),
        state.last_activity_at == Some(last_activity),
        active_lock,
        !state.suspend_requested,
        now.nanos >= last_activity.nanos + delay.nanos,
        !auth_in_flight,
        state.battery_only ==> battery is Some && !battery->0.charging,
        state.skip_while_media_playing ==> !media_playing,
    ensures
        suspend_decision(state, now, active_lock, auth_in_flight, battery, media_playing)
            == SuspendDecision::Ready,
{
}

/// Before the whole delay has passed, without a lock, without a delay or once a request was made
/// nothing is decided; and that is the only time.
pub proof fn law_nothing_is_decided_before_the_delay(
    state: LockedSuspendState,
    now: Moment,
    active_lock: bool,
    auth_in_flight: bool,
    battery: Option<BatterySnapshot>,
    media_playing: bool,
)
    requires
        state.delay is Some && state.last_activity_at is Some ==> state.last_activity_at->0.nanos
            + state.delay->0.nanos <= 9_223_372_036_854_775_807_999_999_999,
    ensures
        suspend_decision(state, now, active_lock, auth_in_flight, battery, media_playing)
            == SuspendDecision::Pending <==> {
            ||| !active_lock
            ||| state.suspend_requested
            ||| state.delay is None
            ||| state.last_activity_at is None
            ||| now.nanos < state.last_activity_at->0.nanos + state.delay->0.nanos
        },
{
}

/// Once the delay has passed, a suspend is skipped for the reason that applies: an authentication
/// under way before all else, then the power supply where the policy asks for it, then media
/// where the policy minds it.
pub proof fn law_suspend_is_skipped_for_its_reason(
    state: LockedSuspendState,
    now: Moment,
    auth_in_flight: bool,
    battery: Option<BatterySnapshot>,
    media_playing: bool,
    last_activity: Moment,
    delay: Span,
)
    requires
        state.delay == Some(delay),
        state.last_activity_at == Some(last_activity),
        !state.suspend_requested,
        now.nanos >= last_activity.nanos + delay.nanos,
    ensures
        ({
            let decision = suspend_decision(
                state,
                now,
                true,
                auth_in_flight,
                battery,
                media_playing,
            );
            let power_minded = state.battery_only && (battery is None || battery->0.charging);
            &&& auth_in_flight <==> decision == SuspendDecision::Skipped(
                SuspendSkipReason::AuthInFlight,
            )
            &&& !auth_in_flight && state.battery_only && battery is None <==> decision
                == SuspendDecision::Skipped(SuspendSkipReason::NoBatteryDetected)
            &&& !auth_in_flight && state.battery_only && battery is Some && battery->0.charging
                <==> decision == SuspendDecision::Skipped(SuspendSkipReason::OnAcPower)
            &&& !auth_in_flight && !power_minded && state.skip_while_media_playing && media_playing
                <==> decision == SuspendDecision::Skipped(SuspendSkipReason::MediaPlaying)
        }),
{
}

/// The countdown never shows less than the time left, nor a whole second more than it, and at
/// least one.
pub proof fn law_countdown_rounds_up(nanos: nat)
    requires
        0 < nanos <= 1_000_000_000 * u64::MAX,
    ensures
        1_000_000_000 * (seconds_left(nanos) - 1) < nanos <= 1_000_000_000 * seconds_left(nanos),
        seconds_left(nanos) >= 1,
{
}

/// Activity forgets a request and starts the delay over from its moment, where there is one, and
/// changes nothing of the policy.
pub proof fn law_activity_starts_the_delay_over(state: LockedSuspendState, now: Moment)
    ensures
        ({
            let after = restarted(state, now);
            &&& after.delay == state.delay
            &&& after.battery_only == state.battery_only
            &&& after.skip_while_media_playing == state.skip_while_media_playing
            &&& state.delay is None ==> after == state
            &&& state.delay is Some ==> after.last_activity_at == Some(now)
                && !after.suspend_requested && after.last_reported_skip_reason is None
        }),
{
}

} // verus!
