//! Typing, answers of the daemon and animation steps.

use crate::common::secret::SECRET_MAX_CHARS;
use crate::common::time;
use crate::common::time::{Moment, Span, NANOS_PER_MILLI};
use crate::ui::shell;
use crate::ui::shell::{
    current_retry_seconds, ShellAction, ShellAnimationUpdate, ShellKey, ShellState, ShellStatus,
};
use crate::ui::shell::{ActionModel, ShellCore, ShellModel};
use crate::ui::text_cache::CachedTextBlock;
use vstd::prelude::*;

verus! {

pub const DEFAULT_NOW_PLAYING_FADE_DURATION_MS: u64 = 450;

pub const PENDING_STATUS_DELAY_MS: u64 = 1_000;

pub const ACTIVE_ANIMATION_POLL_INTERVAL_MS: u64 = 80;

pub const IDLE_ANIMATION_POLL_INTERVAL_MS: u64 = 250;

/// Control characters as Unicode has them (the category `Cc`).
pub open spec fn is_control(character: char) -> bool {
    character as u32 <= 0x1F || 0x7F <= character as u32 <= 0x9F
}

fn control(character: char) -> (result: bool)
    ensures
        result == is_control(character),
{
    character as u32 <= 0x1F || (0x7F <= character as u32 && character as u32 <= 0x9F)
}

/// Whether another attempt is not allowed yet.
pub open spec fn cooling_down(status: ShellStatus, now: Moment) -> bool {
    status matches ShellStatus::Rejected { retry_until: Some(until), .. } && now.nanos < until.nanos
}

/// The shell after a rejection was put aside, unless another attempt is not allowed yet.
pub open spec fn rejection_cleared(core: ShellCore, now: Moment) -> ShellCore {
    if cooling_down(core.status, now) {
        core
    } else {
        ShellCore {
            status: ShellStatus::Idle,
            ..shell::bumped_if(core, core.status is Rejected)
        }
    }
}

/// The shell with the password input shown.
pub open spec fn auth_shown(core: ShellCore) -> ShellCore {
    shell::bumped_if(ShellCore { auth_revealed: true, ..core }, !core.auth_revealed)
}

/// The shell with the password input hidden.
pub open spec fn auth_hidden(core: ShellCore) -> ShellCore {
    shell::bumped_if(ShellCore { auth_revealed: false, ..core }, core.auth_revealed)
}

/// The shell with all that is typed marked, or nothing of it.
pub open spec fn selection(core: ShellCore, selected: bool) -> ShellCore {
    shell::bumped_if(
        ShellCore { secret_selected: selected, ..core },
        core.secret_selected != selected,
    )
}

/// The shell with nothing typed; the layout of what was typed is forgotten too.
pub open spec fn secret_cleared(model: ShellModel) -> ShellModel {
    ShellModel {
        secret: Seq::empty(),
        revealed_cache: CachedTextBlock { key: None, block: None },
        ..model
    }
}

/// The shell with the typed text no longer shown in the clear.
pub open spec fn concealed(core: ShellCore) -> ShellCore {
    ShellCore { reveal_secret: false, reveal_toggle_pressed: false, ..core }
}

/// The shell with a new revision where the input became empty or ceased to be so.
pub open spec fn refreshed(model: ShellModel, was_empty: bool) -> ShellModel {
    ShellModel {
        core: shell::bumped_if(model.core, was_empty != (model.secret.len() == 0)),
        ..model
    }
}

/// Whether a character is taken: it is no control character, and there is room for it.
pub open spec fn takes_character(model: ShellModel, character: char) -> bool {
    !is_control(character) && (model.core.secret_selected || model.secret.len() < SECRET_MAX_CHARS)
}

/// The shell after a character was typed.
pub open spec fn character_typed(model: ShellModel, character: char, now: Moment) -> ShellModel {
    let was_empty = model.secret.len() == 0;
    let shown = ShellModel { core: auth_shown(model.core), ..model };
    let typed = if takes_character(shown, character) {
        let ready = if shown.core.secret_selected {
            let cleared = secret_cleared(shown);
            ShellModel { core: selection(cleared.core, false), ..cleared }
        } else {
            shown
        };
        ShellModel {
            secret: ready.secret.push(character),
            core: rejection_cleared(ready.core, now),
            ..ready
        }
    } else {
        shown
    };
    refreshed(typed, was_empty)
}

/// The shell after the last character, or all that is marked, was taken back.
pub open spec fn character_erased(model: ShellModel, now: Moment) -> ShellModel {
    let was_empty = model.secret.len() == 0;
    let shown = ShellModel { core: auth_shown(model.core), ..model };
    let erased = if shown.core.secret_selected {
        let cleared = secret_cleared(shown);
        ShellModel { core: selection(cleared.core, false), ..cleared }
    } else if shown.secret.len() > 0 {
        ShellModel { secret: shown.secret.drop_last(), ..shown }
    } else {
        shown
    };
    refreshed(ShellModel { core: rejection_cleared(erased.core, now), ..erased }, was_empty)
}

/// The shell after the input was left: nothing is typed, nothing is under way, and the input is
/// hidden.
pub open spec fn input_left(model: ShellModel) -> ShellModel {
    let was_empty = model.secret.len() == 0;
    let cleared = secret_cleared(model);
    let quiet = ShellCore {
        status: ShellStatus::Idle,
        ..concealed(selection(cleared.core, false))
    };
    refreshed(ShellModel { core: auth_hidden(quiet), ..cleared }, was_empty)
}

/// The shell after the input was emptied.
pub open spec fn input_emptied(model: ShellModel, now: Moment) -> ShellModel {
    let was_empty = model.secret.len() == 0;
    let cleared = secret_cleared(ShellModel { core: auth_shown(model.core), ..model });
    let quiet = concealed(selection(cleared.core, false));
    refreshed(ShellModel { core: rejection_cleared(quiet, now), ..cleared }, was_empty)
}

/// The shell after a password was handed in, unless another attempt is not allowed yet.
pub open spec fn password_entered(model: ShellModel, now: Moment) -> (ShellModel, ActionModel) {
    let core = selection(auth_shown(model.core), false);
    if cooling_down(core.status, now) {
        (ShellModel { core, ..model }, ActionModel::Nothing)
    } else {
        let pending = ShellStatus::Pending {
            started_at: now,
            visible_after: Moment {
                nanos: (now.nanos + PENDING_STATUS_DELAY_MS * NANOS_PER_MILLI) as u128,
            },
            shown: false,
        };
        (
            ShellModel { core: ShellCore { status: pending, ..core }, ..model },
            ActionModel::Submit(model.secret),
        )
    }
}

/// The shell after a key press, and what the key asks for.
pub open spec fn key_step(model: ShellModel, key: ShellKey, now: Moment) -> (
    ShellModel,
    ActionModel,
) {
    match key {
        ShellKey::Character(character) => (
            character_typed(model, character, now),
            ActionModel::Nothing,
        ),
        ShellKey::Backspace => (character_erased(model, now), ActionModel::Nothing),
        ShellKey::Escape => if shell::input_is_visible(model.core) {
            (input_left(model), ActionModel::Nothing)
        } else {
            (model, ActionModel::Nothing)
        },
        ShellKey::Clear => (input_emptied(model, now), ActionModel::Nothing),
        ShellKey::SelectAll => (
            ShellModel { core: selection(auth_shown(model.core), model.secret.len() > 0), ..model },
            ActionModel::Nothing,
        ),
        ShellKey::Enter => password_entered(model, now),
    }
}

/// The other layouts are kept as they are.
pub open spec fn other_layouts_kept(before: ShellState, after: ShellState) -> bool {
    after.text_layout_cache == (crate::ui::text_cache::TextLayoutCache {
        revealed_secret: after.text_layout_cache.revealed_secret,
        ..before.text_layout_cache
    })
}

impl ShellState {
    /// Takes a key press.
    pub fn handle_key(&mut self, key: ShellKey, now: Moment) -> (action: ShellAction)
        requires
            now.nanos <= time::LAST_MOMENT_NANOS,
        ensures
            final(self)@ == key_step(old(self)@, key, now).0,
            shell::action_model(action) == key_step(old(self)@, key, now).1,
            other_layouts_kept(*old(self), *final(self)),
    {
        match key {
            ShellKey::Character(character) => {
                self.type_character(character, now);
                ShellAction::Nothing
            },
            ShellKey::Backspace => {
                self.erase_character(now);
                ShellAction::Nothing
            },
            ShellKey::Escape => {
                if self.input_visible() {
                    self.leave_input();
                }
                ShellAction::Nothing
            },
            ShellKey::Clear => {
                self.empty_input(now);
                ShellAction::Nothing
            },
            ShellKey::SelectAll => {
                self.reveal_auth();
                let selected = !self.secret.is_empty();
                self.set_secret_selected(selected);
                ShellAction::Nothing
            },
            ShellKey::Enter => self.enter_password(now),
        }
    }

    fn type_character(&mut self, character: char, now: Moment)
        ensures
            final(self)@ == character_typed(old(self)@, character, now),
            other_layouts_kept(*old(self), *final(self)),
    {
        let was_empty = self.secret.is_empty();
        self.reveal_auth();
        if !control(character) && (self.core.secret_selected || self.secret.char_count()
            < SECRET_MAX_CHARS) {
            if self.core.secret_selected {
                self.clear_secret();
                self.set_secret_selected(false);
            }
            self.secret.push(character);
            self.put_rejection_aside(now);
        }
        self.refresh_on_secret_empty_transition(was_empty);
    }

    fn erase_character(&mut self, now: Moment)
        ensures
            final(self)@ == character_erased(old(self)@, now),
            other_layouts_kept(*old(self), *final(self)),
    {
        let was_empty = self.secret.is_empty();
        self.reveal_auth();
        if self.core.secret_selected {
            self.clear_secret();
            self.set_secret_selected(false);
        } else {
            self.secret.pop();
        }
        self.put_rejection_aside(now);
        self.refresh_on_secret_empty_transition(was_empty);
    }

    fn leave_input(&mut self)
        ensures
            final(self)@ == input_left(old(self)@),
            other_layouts_kept(*old(self), *final(self)),
    {
        let was_empty = self.secret.is_empty();
        self.clear_secret();
        self.set_secret_selected(false);
        self.core.reveal_secret = false;
        self.core.reveal_toggle_pressed = false;
        self.core.status = ShellStatus::Idle;
        self.hide_auth();
        self.refresh_on_secret_empty_transition(was_empty);
    }

    fn empty_input(&mut self, now: Moment)
        ensures
            final(self)@ == input_emptied(old(self)@, now),
            other_layouts_kept(*old(self), *final(self)),
    {
        let was_empty = self.secret.is_empty();
        self.reveal_auth();
        self.clear_secret();
        self.set_secret_selected(false);
        self.core.reveal_secret = false;
        self.core.reveal_toggle_pressed = false;
        self.put_rejection_aside(now);
        self.refresh_on_secret_empty_transition(was_empty);
    }

    fn enter_password(&mut self, now: Moment) -> (action: ShellAction)
        requires
            now.nanos <= time::LAST_MOMENT_NANOS,
        ensures
            final(self)@ == password_entered(old(self)@, now).0,
            shell::action_model(action) == password_entered(old(self)@, now).1,
            other_layouts_kept(*old(self), *final(self)),
    {
        self.reveal_auth();
        self.set_secret_selected(false);
        if self.retry_cooldown_active(now) {
            return ShellAction::Nothing;
        }
        self.core.status = ShellStatus::Pending {
            started_at: now,
            visible_after: now.plus(Span::from_millis(PENDING_STATUS_DELAY_MS)),
            shown: false,
        };
        ShellAction::Submit(self.secret.clone())
    }

    /// The daemon was busy: the attempt is over.
    pub fn authentication_busy(&mut self)
        ensures
            final(self)@ == (ShellModel {
                core: ShellCore { status: ShellStatus::Idle, ..old(self)@.core },
                ..old(self)@
            }),
            other_layouts_kept(*old(self), *final(self)),
    {
        self.core.status = ShellStatus::Idle;
    }

    /// The daemon refused the password: it is forgotten, and the refusal is shown.
    pub fn authentication_rejected(
        &mut self,
        retry_after_ms: Option<u64>,
        failed_attempts: Option<u8>,
        now: Moment,
    )
        requires
            now.nanos <= time::LAST_MOMENT_NANOS,
        ensures
            final(self)@ == rejected_model(old(self)@, retry_after_ms, failed_attempts, now),
            other_layouts_kept(*old(self), *final(self)),
    {
        if !matches!(self.core.status, ShellStatus::Rejected { .. }) {
            self.bump_static_scene_revision();
        }
        self.clear_secret();
        self.set_secret_selected(false);
        self.core.reveal_secret = false;
        self.core.reveal_toggle_pressed = false;
        let retry_until = match retry_after_ms {
            Some(millis) if millis > 0 => Some(now.plus(Span::from_millis(millis))),
            _ => None,
        };
        self.core.status = ShellStatus::Rejected {
            retry_until,
            displayed_retry_seconds: current_retry_seconds(retry_until, now),
            failed_attempts,
        };
    }

    /// Moves animations on, and tells whether anything has to be redrawn.
    pub fn advance_animated_state(&mut self, clock_changed: bool, now: Moment) -> (changed: bool)
        ensures
            final(self)@ == animation_step(old(self)@, clock_changed, now).0,
            changed == (animation_step(old(self)@, clock_changed, now).1
                != ShellAnimationUpdate::Nothing),
            other_layouts_kept(*old(self), *final(self)),
    {
        match self.advance_animated_state_update(clock_changed, now) {
            ShellAnimationUpdate::Nothing => false,
            _ => true,
        }
    }

    /// Moves animations on, and tells what has to be redrawn. `clock_changed` tells whether the
    /// clock shows another time than before.
    pub fn advance_animated_state_update(&mut self, clock_changed: bool, now: Moment) -> (update:
        ShellAnimationUpdate)
        ensures
            final(self)@ == animation_step(old(self)@, clock_changed, now).0,
            update == animation_step(old(self)@, clock_changed, now).1,
            other_layouts_kept(*old(self), *final(self)),
    {
        let changed = self.advance_surroundings(clock_changed, now);
        self.advance_status(changed, now)
    }

    fn advance_surroundings(&mut self, clock_changed: bool, now: Moment) -> (changed: bool)
        ensures
            final(self)@ == (ShellModel {
                core: surroundings_step(old(self)@.core, clock_changed, now).0,
                ..old(self)@
            }),
            changed == surroundings_step(old(self)@.core, clock_changed, now).1,
            final(self).text_layout_cache == old(self).text_layout_cache,
    {
        let expired = self.clear_expired_power_confirmation(now);
        let fade_duration = self.now_playing_fade_duration();
        if let Some(started_at) = self.core.now_playing_changed_at {
            if now.saturating_since(started_at).nanos >= fade_duration.nanos {
                self.core.now_playing_changed_at = None;
            }
            return true;
        }
        clock_changed || expired
    }

    fn advance_status(&mut self, changed: bool, now: Moment) -> (update: ShellAnimationUpdate)
        ensures
            final(self)@ == (ShellModel {
                core: status_step(old(self)@.core, changed, now).0,
                ..old(self)@
            }),
            update == status_step(old(self)@.core, changed, now).1,
            final(self).text_layout_cache == old(self).text_layout_cache,
    {
        let (status, update) = next_status(self.core.status, changed, now);
        if matches!(self.core.status, ShellStatus::Rejected { .. }) && matches!(
            status,
            ShellStatus::Idle
        ) {
            self.bump_static_scene_revision();
        }
        self.core.status = status;
        update
    }

    /// The step of the spinner while an authentication is under way.
    pub fn pending_spinner_phase(&self, now: Moment) -> (phase: Option<u8>)
        ensures
            phase == spinner_phase(self.core.status, now),
    {
        match self.core.status {
            ShellStatus::Pending { started_at, .. } => {
                let millis: u128 = now.saturating_since(started_at).nanos / NANOS_PER_MILLI;
                Some((millis / ACTIVE_ANIMATION_POLL_INTERVAL_MS as u128 % 8) as u8)
            },
            _ => None,
        }
    }

    /// How soon the next animation step is due.
    pub fn animation_poll_interval(&self) -> (interval: Span)
        ensures
            interval.nanos == if self.core.status is Pending
                || self.core.now_playing_changed_at is Some {
                ACTIVE_ANIMATION_POLL_INTERVAL_MS * NANOS_PER_MILLI
            } else {
                IDLE_ANIMATION_POLL_INTERVAL_MS * NANOS_PER_MILLI
            },
    {
        if matches!(self.core.status, ShellStatus::Pending { .. })
            || self.core.now_playing_changed_at.is_some() {
            return Span::from_millis(ACTIVE_ANIMATION_POLL_INTERVAL_MS);
        }
        Span::from_millis(IDLE_ANIMATION_POLL_INTERVAL_MS)
    }

    /// How far the fade to another track has come, in percent.
    pub fn now_playing_fade_progress(&self, now: Moment) -> (progress: Option<u8>)
        ensures
            progress == match self.core.now_playing_changed_at {
                Some(started_at) => Some(
                    fade_percent(
                        time::span_between(started_at, now),
                        fade_millis(self.core.theme.now_playing_fade_duration_ms),
                    ) as u8,
                ),
                None => None,
            },
    {
        match self.core.now_playing_changed_at {
            Some(started_at) => {
                let fade = self.now_playing_fade_duration();
                let elapsed = now.saturating_since(started_at);
                let clamped: u128 = if elapsed.nanos <= fade.nanos {
                    elapsed.nanos
                } else {
                    fade.nanos
                };
                let millis: u128 = clamped / NANOS_PER_MILLI;
                let total: u128 = fade.nanos / NANOS_PER_MILLI;
                proof {
                    assert(millis * 100 <= total * 100);
                    assert((millis * 100) / (total as int) <= 100) by (nonlinear_arith)
                        requires
                            millis * 100 <= total * 100,
                            total >= 1,
                            millis >= 0,
                    ;
                }
                Some((millis * 100 / total) as u8)
            },
            None => None,
        }
    }

    fn now_playing_fade_duration(&self) -> (duration: Span)
        ensures
            duration.nanos == fade_millis(self.core.theme.now_playing_fade_duration_ms)
                * NANOS_PER_MILLI,
    {
        let millis: u64 = match self.core.theme.now_playing_fade_duration_ms {
            Some(millis) => if millis < 1 {
                1
            } else if millis > 10_000 {
                10_000
            } else {
                millis
            },
            None => DEFAULT_NOW_PLAYING_FADE_DURATION_MS,
        };
        Span::from_millis(millis)
    }

    fn retry_cooldown_active(&self, now: Moment) -> (active: bool)
        ensures
            active == cooling_down(self.core.status, now),
    {
        match self.core.status {
            ShellStatus::Rejected { retry_until: Some(until), .. } => now.nanos < until.nanos,
            _ => false,
        }
    }

    fn put_rejection_aside(&mut self, now: Moment)
        ensures
            final(self).secret@ == old(self).secret@,
            final(self).text_layout_cache == old(self).text_layout_cache,
            final(self).core == rejection_cleared(old(self).core, now),
    {
        if !self.retry_cooldown_active(now) {
            self.clear_rejected_state();
            self.core.status = ShellStatus::Idle;
        }
    }

    fn clear_rejected_state(&mut self)
        ensures
            final(self).secret@ == old(self).secret@,
            final(self).text_layout_cache == old(self).text_layout_cache,
            final(self).core == shell::bumped_if(
                old(self).core,
                old(self).core.status is Rejected,
            ),
    {
        if matches!(self.core.status, ShellStatus::Rejected { .. }) {
            self.bump_static_scene_revision();
        }
    }

    /// Clears the secret and the revealed-password layout together
    fn clear_secret(&mut self)
        ensures
            final(self)@ == secret_cleared(old(self)@),
            other_layouts_kept(*old(self), *final(self)),
    {
        self.secret.clear();
        self.text_layout_cache.forget_revealed_secret();
    }

    fn refresh_on_secret_empty_transition(&mut self, was_empty: bool)
        ensures
            final(self)@ == refreshed(old(self)@, was_empty),
            final(self).text_layout_cache == old(self).text_layout_cache,
    {
        if was_empty != self.secret.is_empty() {
            self.bump_static_scene_revision();
        }
    }
}

/// The shell after a refusal.
pub open spec fn rejected_model(
    model: ShellModel,
    retry_after_ms: Option<u64>,
    failed_attempts: Option<u8>,
    now: Moment,
) -> ShellModel {
    let core = shell::bumped_if(model.core, !(model.core.status is Rejected));
    let cleared = secret_cleared(ShellModel { core, ..model });
    let retry_until = match retry_after_ms {
        Some(millis) => if millis > 0 {
            Some(Moment { nanos: (now.nanos + millis * NANOS_PER_MILLI) as u128 })
        } else {
            None
        },
        None => None,
    };
    ShellModel {
        core: ShellCore {
            status: ShellStatus::Rejected {
                retry_until,
                displayed_retry_seconds: shell::retry_seconds(retry_until, now),
                failed_attempts,
            },
            ..concealed(selection(cleared.core, false))
        },
        ..cleared
    }
}

/// The fade to another track in milliseconds: at least one, at most ten seconds.
pub open spec fn fade_millis(configured: Option<u64>) -> int {
    match configured {
        Some(millis) => if millis < 1 {
            1
        } else if millis > 10_000 {
            10_000
        } else {
            millis as int
        },
        None => DEFAULT_NOW_PLAYING_FADE_DURATION_MS as int,
    }
}

/// How far a fade has come, in percent of its whole milliseconds.
pub open spec fn fade_percent(elapsed_nanos: nat, fade: int) -> int {
    let total = fade * NANOS_PER_MILLI;
    let passed = if elapsed_nanos <= total {
        elapsed_nanos as int
    } else {
        total
    };
    passed / 1_000_000 * 100 / fade
}

/// The step of the spinner: eight of them, one every eighty milliseconds.
pub open spec fn spinner_phase(status: ShellStatus, now: Moment) -> Option<u8> {
    match status {
        ShellStatus::Pending { started_at, .. } => Some(
            (time::span_between(started_at, now) / 1_000_000 / 80 % 8) as u8,
        ),
        _ => None,
    }
}

/// The shell after what surrounds the authentication moved on, and whether anything did.
pub open spec fn surroundings_step(core: ShellCore, clock_changed: bool, now: Moment) -> (
    ShellCore,
    bool,
) {
    let expired = core.power_confirmation matches Some(confirmation)
        && confirmation.expires_at.nanos <= now.nanos;
    let faded = core.now_playing_changed_at matches Some(started_at) && time::span_between(
        started_at,
        now,
    ) >= fade_millis(core.theme.now_playing_fade_duration_ms) * NANOS_PER_MILLI;
    let stepped = ShellCore {
        power_confirmation: if expired {
            None
        } else {
            core.power_confirmation
        },
        now_playing_changed_at: if faded {
            None
        } else {
            core.now_playing_changed_at
        },
        ..core
    };
    (stepped, clock_changed || expired || core.now_playing_changed_at is Some)
}

/// Where an authentication's display stands at a moment, and what has to be redrawn.
pub open spec fn status_at(status: ShellStatus, changed: bool, now: Moment) -> (
    ShellStatus,
    ShellAnimationUpdate,
) {
    let quiet = if changed {
        ShellAnimationUpdate::Full
    } else {
        ShellAnimationUpdate::Nothing
    };
    match status {
        ShellStatus::Idle => (status, quiet),
        ShellStatus::Pending { started_at, visible_after, shown } => (
            ShellStatus::Pending {
                started_at,
                visible_after,
                shown: shown || now.nanos >= visible_after.nanos,
            },
            if changed {
                ShellAnimationUpdate::Full
            } else {
                ShellAnimationUpdate::AuthDirty
            },
        ),
        ShellStatus::Rejected { retry_until, displayed_retry_seconds, failed_attempts } => {
            let next = shell::retry_seconds(retry_until, now);
            if next == displayed_retry_seconds {
                (status, quiet)
            } else if next is None {
                (ShellStatus::Idle, ShellAnimationUpdate::Full)
            } else {
                (
                    ShellStatus::Rejected {
                        retry_until,
                        displayed_retry_seconds: next,
                        failed_attempts,
                    },
                    ShellAnimationUpdate::Full,
                )
            }
        },
    }
}

fn next_status(status: ShellStatus, changed: bool, now: Moment) -> (next: (
    ShellStatus,
    ShellAnimationUpdate,
))
    ensures
        next == status_at(status, changed, now),
{
    let quiet = if changed {
        ShellAnimationUpdate::Full
    } else {
        ShellAnimationUpdate::Nothing
    };
    match status {
        ShellStatus::Idle => (status, quiet),
        ShellStatus::Pending { started_at, visible_after, shown } => {
            let shown = shown || now.nanos >= visible_after.nanos;
            let update = if changed {
                ShellAnimationUpdate::Full
            } else {
                ShellAnimationUpdate::AuthDirty
            };
            (ShellStatus::Pending { started_at, visible_after, shown }, update)
        },
        ShellStatus::Rejected { retry_until, displayed_retry_seconds, failed_attempts } => {
            let next_display = current_retry_seconds(retry_until, now);
            match (displayed_retry_seconds, next_display) {
                (None, None) => (status, quiet),
                (Some(_), None) => (ShellStatus::Idle, ShellAnimationUpdate::Full),
                (displayed, Some(next)) => {
                    let same = match displayed {
                        Some(displayed) => displayed == next,
                        None => false,
                    };
                    if same {
                        (status, quiet)
                    } else {
                        (
                            ShellStatus::Rejected {
                                retry_until,
                                displayed_retry_seconds: next_display,
                                failed_attempts,
                            },
                            ShellAnimationUpdate::Full,
                        )
                    }
                },
            }
        },
    }
}

/// The shell after the authentication's display moved on, and what has to be redrawn. The end of
/// a refusal changes the static scene.
pub open spec fn status_step(core: ShellCore, changed: bool, now: Moment) -> (
    ShellCore,
    ShellAnimationUpdate,
) {
    let (status, update) = status_at(core.status, changed, now);
    (
        ShellCore {
            status,
            ..shell::bumped_if(core, core.status is Rejected && status is Idle)
        },
        update,
    )
}

/// The shell after an animation step, and what has to be redrawn.
pub open spec fn animation_step(model: ShellModel, clock_changed: bool, now: Moment) -> (
    ShellModel,
    ShellAnimationUpdate,
) {
    let (moved, changed) = surroundings_step(model.core, clock_changed, now);
    let (core, update) = status_step(moved, changed, now);
    (ShellModel { core, ..model }, update)
}

/// The input never holds more characters than it may, whatever is typed.
pub proof fn law_input_length_is_capped(model: ShellModel, key: ShellKey, now: Moment)
    requires
        model.secret.len() <= SECRET_MAX_CHARS,
    ensures
        key_step(model, key, now).0.secret.len() <= SECRET_MAX_CHARS,
{
}

/// While another attempt is not allowed yet, nothing is submitted; otherwise the key submits
/// exactly what was typed. No other key submits anything.
pub proof fn law_only_enter_submits_what_was_typed(model: ShellModel, key: ShellKey, now: Moment)
    ensures
        key_step(model, key, now).1 == if key == ShellKey::Enter && !cooling_down(
            model.core.status,
            now,
        ) {
            ActionModel::Submit(model.secret)
        } else {
            ActionModel::Nothing
        },
{
}

/// A refused password is gone: nothing is typed, nothing is marked, nothing is shown in the clear,
/// and no layout of it is kept.
pub proof fn law_refused_password_is_forgotten(
    model: ShellModel,
    retry_after_ms: Option<u64>,
    failed_attempts: Option<u8>,
    now: Moment,
)
    ensures
        ({
            let after = rejected_model(model, retry_after_ms, failed_attempts, now);
            &&& after.secret.len() == 0
            &&& after.revealed_cache == (CachedTextBlock { key: None, block: None })
            &&& !after.core.secret_selected
            &&& !after.core.reveal_secret
        }),
{
}

/// Typing over marked text replaces it.
pub proof fn law_typing_over_a_selection_replaces_it(
    model: ShellModel,
    character: char,
    now: Moment,
)
    requires
        model.core.secret_selected,
        !is_control(character),
    ensures
        key_step(model, ShellKey::Character(character), now).0.secret == seq![character],
        !key_step(model, ShellKey::Character(character), now).0.core.secret_selected,
{
    assert(Seq::<char>::empty().push(character) =~= seq![character]);
}

/// A refusal ends by itself once its time is over.
pub proof fn law_refusal_ends_with_its_time(
    model: ShellModel,
    until: Moment,
    displayed: u64,
    failed_attempts: Option<u8>,
    clock_changed: bool,
    now: Moment,
)
    requires
        model.core.status == (ShellStatus::Rejected {
            retry_until: Some(until),
            displayed_retry_seconds: Some(displayed),
            failed_attempts,
        }),
        now.nanos >= until.nanos,
    ensures
        animation_step(model, clock_changed, now).0.core.status == ShellStatus::Idle,
        animation_step(model, clock_changed, now).1 == ShellAnimationUpdate::Full,
{
}

/// A character is added behind what was typed, as long as that is fewer than 128 characters and
/// it is no control character; with nothing marked, any other character changes nothing of it.
pub proof fn law_typed_character_is_added(model: ShellModel, character: char, now: Moment)
    requires
        !model.core.secret_selected,
    ensures
        ({
            let code = character as u32;
            let after = key_step(model, ShellKey::Character(character), now).0;
            let taken = 0x20 <= code < 0x7F || code > 0x9F;
            &&& taken && model.secret.len() < 128 ==> after.secret == model.secret.push(character)
            &&& !taken || model.secret.len() >= 128 ==> after.secret == model.secret
            &&& !after.core.secret_selected
            &&& after.core.auth_revealed
        }),
{
}

/// The shell after a key press.
#[verifier::opaque]
pub open spec fn pressed(model: ShellModel, key: ShellKey, now: Moment) -> ShellModel {
    key_step(model, key, now).0
}

/// The shell after a text was typed, character by character.
pub open spec fn text_typed(model: ShellModel, text: Seq<char>, now: Moment) -> ShellModel
    decreases text.len(),
{
    if text.len() == 0 {
        model
    } else {
        pressed(text_typed(model, text.drop_last(), now), ShellKey::Character(text.last()), now)
    }
}

/// Whatever text of up to 128 characters is typed into an empty input, and whatever is typed into
/// it by mistake and erased at once, the key submits the whole of it, character by character.
pub proof fn law_typed_password_is_submitted_whole(
    model: ShellModel,
    text: Seq<char>,
    mistake: char,
    now: Moment,
)
    requires
        model.secret.len() == 0,
        !model.core.secret_selected,
        model.core.status == ShellStatus::Idle,
        text.len() <= 128,
        forall|i: int|
            0 <= i < text.len() ==> 0x20 <= (#[trigger] text[i] as u32) && !(0x7F <= (text[i] as u32)
                <= 0x9F),
    ensures
        ({
            let typed = text_typed(model, text, now);
            let mistaken = key_step(typed, ShellKey::Character(mistake), now).0;
            let corrected = key_step(mistaken, ShellKey::Backspace, now).0;
            &&& key_step(typed, ShellKey::Enter, now).1 == ActionModel::Submit(text)
            &&& text.len() < 128 && 0x20 <= (mistake as u32) < 0x7F ==> key_step(
                corrected,
                ShellKey::Enter,
                now,
            ).1 == ActionModel::Submit(text)
        }),
{
    lemma_typed(model, text, now);
    let typed = text_typed(model, text, now);
    law_refusal_holds_up_until_its_moment(typed, now);
    if text.len() < 128 && 0x20 <= (mistake as u32) && (mistake as u32) < 0x7F {
        lemma_one_typed(typed, mistake, now);
        let mistaken = key_step(typed, ShellKey::Character(mistake), now).0;
        law_erasing_takes_back(mistaken, now);
        let corrected = key_step(mistaken, ShellKey::Backspace, now).0;
        lemma_erased_is_idle(mistaken, now);
        law_refusal_holds_up_until_its_moment(corrected, now);
        assert(text.push(mistake).drop_last() =~= text);
    }
}

proof fn lemma_erased_is_idle(model: ShellModel, now: Moment)
    requires
        model.core.status == ShellStatus::Idle,
    ensures
        key_step(model, ShellKey::Backspace, now).0.core.status == ShellStatus::Idle,
{
}

proof fn lemma_one_typed(model: ShellModel, character: char, now: Moment)
    requires
        !model.core.secret_selected,
        model.core.status == ShellStatus::Idle,
        model.secret.len() < 128,
        0x20 <= (character as u32),
        !(0x7F <= (character as u32) <= 0x9F),
    ensures
        ({
            let after = pressed(model, ShellKey::Character(character), now);
            &&& after.secret == model.secret.push(character)
            &&& !after.core.secret_selected
            &&& after.core.status == ShellStatus::Idle
            &&& after == key_step(model, ShellKey::Character(character), now).0
        }),
{
    reveal(pressed);
}

proof fn lemma_typed(model: ShellModel, text: Seq<char>, now: Moment)
    requires
        model.secret.len() == 0,
        !model.core.secret_selected,
        model.core.status == ShellStatus::Idle,
        text.len() <= 128,
        forall|i: int|
            0 <= i < text.len() ==> 0x20 <= (#[trigger] text[i] as u32) && !(0x7F <= (text[i] as u32)
                <= 0x9F),
    ensures
        ({
            let typed = text_typed(model, text, now);
            &&& typed.secret == text
            &&& !typed.core.secret_selected
            &&& typed.core.status == ShellStatus::Idle
        }),
    decreases text.len(),
{
    if text.len() > 0 {
        let before = text.drop_last();
        assert forall|i: int| 0 <= i < before.len() implies 0x20 <= (#[trigger] before[i] as u32) && !(
        0x7F <= (before[i] as u32) <= 0x9F) by {
            assert(before[i] == text[i]);
        }
        lemma_typed(model, before, now);
        assert(text[text.len() - 1] == text.last());
        lemma_one_typed(text_typed(model, before, now), text.last(), now);
        assert(before.push(text.last()) =~= text);
    } else {
        assert(text =~= model.secret);
    }
}

/// Erasing takes back the last character, or all that is marked, and leaves an empty input empty.
pub proof fn law_erasing_takes_back(model: ShellModel, now: Moment)
    ensures
        ({
            let after = key_step(model, ShellKey::Backspace, now).0;
            &&& model.core.secret_selected || model.secret.len() == 0 ==> after.secret.len() == 0
            &&& !model.core.secret_selected && model.secret.len() > 0 ==> after.secret
                == model.secret.drop_last()
            &&& !after.core.secret_selected
        }),
{
}

/// Clearing empties the input and keeps it open; leaving it empties and hides it, where it is
/// shown. Either way nothing of what was typed is kept or shown in the clear.
pub proof fn law_input_is_emptied(model: ShellModel, now: Moment)
    ensures
        ({
            let cleared = key_step(model, ShellKey::Clear, now).0;
            let left = key_step(model, ShellKey::Escape, now).0;
            &&& cleared.secret.len() == 0 && !cleared.core.secret_selected
                && !cleared.core.reveal_secret
            &&& cleared.revealed_cache == (CachedTextBlock { key: None, block: None })
            &&& cleared.core.auth_revealed
            &&& shell::input_is_visible(model.core) ==> left.secret.len() == 0
                && !left.core.secret_selected && !left.core.reveal_secret
                && !left.core.auth_revealed && left.core.status == ShellStatus::Idle
                && left.revealed_cache == (CachedTextBlock { key: None, block: None })
            &&& !shell::input_is_visible(model.core) ==> left == model
        }),
{
}

/// Marking all marks what is there and nothing else: an empty input has nothing to mark.
pub proof fn law_all_is_marked(model: ShellModel, now: Moment)
    ensures
        ({
            let after = key_step(model, ShellKey::SelectAll, now).0;
            &&& after.secret == model.secret
            &&& after.core.secret_selected == (model.secret.len() > 0)
            &&& after.core.status == model.core.status
        }),
{
}

/// A submitted password stays in the input while its verdict is waited for, and waiting shows
/// after one second. While another attempt is not allowed yet, the refusal stays.
pub proof fn law_submitted_password_is_waited_for(model: ShellModel, now: Moment)
    requires
        now.nanos <= 9_223_372_036_854_775_807_999_999_999,
    ensures
        ({
            let after = key_step(model, ShellKey::Enter, now).0;
            &&& after.secret == model.secret
            &&& !after.core.secret_selected
            &&& match model.core.status {
                ShellStatus::Rejected { retry_until: Some(until), .. } => now.nanos
                    < until.nanos ==> after.core.status == model.core.status,
                _ => true,
            }
            &&& key_step(model, ShellKey::Enter, now).1 is Submit ==> (
            after.core.status matches ShellStatus::Pending { started_at, visible_after, shown }
                && started_at == now && visible_after.nanos == now.nanos + 1_000_000_000 && !shown)
        }),
{
}

/// Another attempt is allowed again exactly from the moment that the refusal names; a refusal that
/// names none never holds one up.
pub proof fn law_refusal_holds_up_until_its_moment(model: ShellModel, now: Moment)
    ensures
        key_step(model, ShellKey::Enter, now).1 is Submit <==> !(match model.core.status {
            ShellStatus::Rejected { retry_until: Some(until), .. } => now.nanos < until.nanos,
            _ => false,
        }),
        key_step(model, ShellKey::Enter, now).1 is Submit ==> key_step(
            model,
            ShellKey::Enter,
            now,
        ).1 == ActionModel::Submit(model.secret),
{
}

/// A refusal shows how often it was refused and holds the next attempt up for as long as the
/// daemon says, no longer and no shorter.
pub proof fn law_refusal_is_shown_for_its_wait(
    model: ShellModel,
    retry_after_ms: Option<u64>,
    failed_attempts: Option<u8>,
    now: Moment,
)
    requires
        now.nanos <= 9_223_372_036_854_775_807_999_999_999,
    ensures
        match rejected_model(model, retry_after_ms, failed_attempts, now).core.status {
            ShellStatus::Rejected { retry_until, displayed_retry_seconds, failed_attempts: shown } =>
                {
                    &&& shown == failed_attempts
                    &&& retry_until is Some <==> retry_after_ms is Some && retry_after_ms->0 > 0
                    &&& retry_until matches Some(until) ==> until.nanos == now.nanos
                        + retry_after_ms->0 * 1_000_000
                    &&& retry_until is None ==> displayed_retry_seconds is None
                    &&& displayed_retry_seconds matches Some(seconds) ==> 1_000_000 * (
                    retry_after_ms->0) <= 1_000_000_000 * seconds < 1_000_000 * (retry_after_ms->0)
                        + 1_000_000_000
                },
            _ => false,
        },
{
}

/// Typing puts a refusal aside once another attempt is allowed, and not before.
pub proof fn law_typing_puts_a_refusal_aside(model: ShellModel, character: char, now: Moment)
    requires
        0x20 <= (character as u32) < 0x7F,
        model.secret.len() < 128,
    ensures
        key_step(model, ShellKey::Character(character), now).0.core.status == match model.core.status {
            ShellStatus::Rejected { retry_until: Some(until), .. } => if now.nanos < until.nanos {
                model.core.status
            } else {
                ShellStatus::Idle
            },
            _ => ShellStatus::Idle,
        },
{
}

/// Steps of animations change nothing of what was typed; waiting shows once its moment has come,
/// and a fade to another track goes on as it is or ends.
pub proof fn law_animations_leave_the_input_alone(
    model: ShellModel,
    clock_changed: bool,
    now: Moment,
)
    ensures
        ({
            let (after, update) = animation_step(model, clock_changed, now);
            &&& after.secret == model.secret
            &&& after.revealed_cache == model.revealed_cache
            &&& after.core.secret_selected == model.core.secret_selected
            &&& after.core.auth_revealed == model.core.auth_revealed
            &&& clock_changed ==> update == ShellAnimationUpdate::Full
            &&& match model.core.status {
                ShellStatus::Idle => after.core.status == ShellStatus::Idle,
                ShellStatus::Pending { started_at, visible_after, shown } => update
                    != ShellAnimationUpdate::Nothing && after.core.status
                    == (ShellStatus::Pending {
                    started_at,
                    visible_after,
                    shown: shown || visible_after.nanos <= now.nanos,
                }),
                ShellStatus::Rejected { retry_until, failed_attempts, .. } => match
                    after.core.status {
                    ShellStatus::Idle => retry_until is None || retry_until->0.nanos <= now.nanos,
                    ShellStatus::Rejected { retry_until: until, failed_attempts: shown, .. } =>
                        until == retry_until && shown == failed_attempts,
                    _ => false,
                },
            }
            &&& after.core.now_playing_changed_at == model.core.now_playing_changed_at
                || after.core.now_playing_changed_at is None
        }),
{
}

/// A fade to another track starts at nothing, ends at the whole, and never turns back.
pub proof fn law_track_fade_goes_to_the_whole(fade: int, earlier: nat, later: nat)
    requires
        0 < fade,
        earlier <= later,
    ensures
        fade_percent(0, fade) == 0,
        earlier >= fade * 1_000_000 ==> fade_percent(earlier, fade) == 100,
        fade_percent(earlier, fade) <= fade_percent(later, fade) <= 100,
{
    let total = fade * 1_000_000;
    let before = if earlier <= total {
        earlier as int
    } else {
        total
    };
    let after = if later <= total {
        later as int
    } else {
        total
    };
    assert(total / 1_000_000 == fade);
    assert(0 <= before / 1_000_000 <= after / 1_000_000 <= fade);
    let x = before / 1_000_000 * 100;
    let y = after / 1_000_000 * 100;
    vstd::arithmetic::div_mod::lemma_div_is_ordered(x, y, fade);
    vstd::arithmetic::div_mod::lemma_div_is_ordered(y, fade * 100, fade);
    vstd::arithmetic::div_mod::lemma_div_multiples_vanish(100, fade);
    assert(fade * 100 == 100 * fade);
    assert(0int / fade == 0) by (nonlinear_arith)
        requires
            fade > 0,
    ;
}

/// Whether what is seen of the input is the same.
pub open spec fn looks_alike(a: ShellModel, b: ShellModel) -> bool {
    &&& a.core.auth_revealed == b.core.auth_revealed
    &&& a.core.secret_selected == b.core.secret_selected
    &&& (a.secret.len() == 0) == (b.secret.len() == 0)
}

/// A key that shows or hides the input, fills or empties it, or marks it otherwise has the static
/// scene drawn anew.
#[verifier::rlimit(100)]
#[verifier::spinoff_prover]
pub proof fn law_visible_changes_are_drawn(model: ShellModel, key: ShellKey, now: Moment)
    ensures
        !looks_alike(key_step(model, key, now).0, model) ==> key_step(
            model,
            key,
            now,
        ).0.core.static_scene_revision != model.core.static_scene_revision,
{
    match key {
        ShellKey::Character(character) => lemma_typing_is_drawn(model, character, now),
        ShellKey::Backspace => lemma_erasing_is_drawn(model, now),
        ShellKey::Escape => lemma_leaving_is_drawn(model, now),
        ShellKey::Clear => lemma_emptying_is_drawn(model, now),
        ShellKey::SelectAll => lemma_marking_is_drawn(model, now),
        ShellKey::Enter => lemma_entering_is_drawn(model, now),
    }
}

proof fn lemma_marking_is_drawn(model: ShellModel, now: Moment)
    ensures
        ({
            let after = key_step(model, ShellKey::SelectAll, now).0;
            !looks_alike(after, model) ==> after.core.static_scene_revision
                != model.core.static_scene_revision
        }),
{
}

proof fn lemma_entering_is_drawn(model: ShellModel, now: Moment)
    ensures
        ({
            let after = password_entered(model, now).0;
            !looks_alike(after, model) ==> after.core.static_scene_revision
                != model.core.static_scene_revision
        }),
{
}

#[verifier::rlimit(60)]
proof fn lemma_typing_is_drawn(model: ShellModel, character: char, now: Moment)
    ensures
        !looks_alike(character_typed(model, character, now), model) ==> character_typed(
            model,
            character,
            now,
        ).core.static_scene_revision != model.core.static_scene_revision,
{
}

#[verifier::rlimit(60)]
proof fn lemma_erasing_is_drawn(model: ShellModel, now: Moment)
    ensures
        !looks_alike(character_erased(model, now), model) ==> character_erased(
            model,
            now,
        ).core.static_scene_revision != model.core.static_scene_revision,
{
}

#[verifier::rlimit(60)]
proof fn lemma_leaving_is_drawn(model: ShellModel, now: Moment)
    ensures
        !looks_alike(input_left(model), model) ==> input_left(model).core.static_scene_revision
            != model.core.static_scene_revision,
{
}

#[verifier::rlimit(60)]
proof fn lemma_emptying_is_drawn(model: ShellModel, now: Moment)
    ensures
        !looks_alike(input_emptied(model, now), model) ==> input_emptied(
            model,
            now,
        ).core.static_scene_revision != model.core.static_scene_revision,
{
}

/// What was typed in the clear is concealed again once the input is left, emptied or refused.
pub proof fn law_emptied_input_is_concealed(
    model: ShellModel,
    retry_after_ms: Option<u64>,
    failed_attempts: Option<u8>,
    now: Moment,
)
    ensures
        ({
            let left = input_left(model);
            let emptied = input_emptied(model, now);
            let refused = rejected_model(model, retry_after_ms, failed_attempts, now);
            &&& !left.core.reveal_secret && !left.core.reveal_toggle_pressed
            &&& !emptied.core.reveal_secret && !emptied.core.reveal_toggle_pressed
            &&& !refused.core.reveal_secret && !refused.core.reveal_toggle_pressed
            &&& left.secret.len() == 0 && emptied.secret.len() == 0 && refused.secret.len() == 0
        }),
{
}

/// The fade to another track takes as many milliseconds as are set, at least one and at most ten
/// seconds, and 450 where nothing is set.
pub proof fn law_track_fade_takes_what_is_set(millis: u64)
    ensures
        1 <= millis <= 10_000 ==> fade_millis(Some(millis)) == millis,
        millis == 0 ==> fade_millis(Some(millis)) == 1,
        millis > 10_000 ==> fade_millis(Some(millis)) == 10_000,
        fade_millis(None) == 450,
{
}

/// A fade stands at the share of its whole milliseconds that have passed, in whole percents, cut
/// down.
pub proof fn law_track_fade_keeps_time(fade: int, elapsed: nat)
    requires
        0 < fade,
        elapsed <= fade * 1_000_000,
    ensures
        ({
            let percent = fade_percent(elapsed, fade);
            let millis = elapsed / 1_000_000;
            percent * fade <= 100 * millis < (percent + 1) * fade
        }),
{
    let scaled = elapsed as int / 1_000_000 * 100;
    let percent = scaled / fade;
    let rest = scaled % fade;
    vstd::arithmetic::div_mod::lemma_fundamental_div_mod(scaled, fade);
    assert(percent * fade <= scaled < (percent + 1) * fade) by (nonlinear_arith)
        requires
            scaled == fade * percent + rest,
            0 <= rest < fade,
    ;
}

/// While a password is checked the spinner makes a step every eighty milliseconds, and is back
/// where it began after eight of them; it stands nowhere else.
pub proof fn law_spinner_goes_around(started_at: Moment, visible_after: Moment, shown: bool, step: nat, now: Moment)
    requires
        started_at.nanos + step * 80_000_000 <= now.nanos < started_at.nanos + (step + 1)
            * 80_000_000,
    ensures
        spinner_phase(ShellStatus::Pending { started_at, visible_after, shown }, now) == Some(
            (step % 8) as u8,
        ),
        spinner_phase(ShellStatus::Idle, now) is None,
{
    let elapsed = (now.nanos - started_at.nanos) as int;
    assert(elapsed / 1_000_000 / 80 == step);
}

/// While something moves the shell is looked at once for each step of the spinner, and otherwise
/// four times a second; a check shows after a second.
pub proof fn law_every_step_of_the_spinner_is_seen(
    started_at: Moment,
    visible_after: Moment,
    shown: bool,
    now: Moment,
    next: Moment,
)
    requires
        started_at.nanos <= now.nanos,
        next.nanos == now.nanos + ACTIVE_ANIMATION_POLL_INTERVAL_MS * 1_000_000,
    ensures
        ({
            let status = ShellStatus::Pending { started_at, visible_after, shown };
            let phase = spinner_phase(status, now);
            let later = spinner_phase(status, next);
            phase is Some && later is Some && later->0 as int == (phase->0 as int + 1) % 8
        }),
        4 * IDLE_ANIMATION_POLL_INTERVAL_MS == 1_000,
        PENDING_STATUS_DELAY_MS == 1_000,
{
    let steps = (now.nanos - started_at.nanos) as int / 1_000_000 / 80;
    let after = (next.nanos - started_at.nanos) as int / 1_000_000 / 80;
    assert(after == steps + 1);
}

} // verus!
