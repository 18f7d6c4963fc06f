//! State of the lock screen's shell.

use crate::common::ipc::FingerprintStatus;
use crate::common::power::PowerAction;
use crate::common::secret::Secret;
use crate::common::time::Moment;
use crate::renderer::frame::ClearColor;
use crate::ui::text_cache::{CachedTextBlock, TextLayoutCache};
use vstd::prelude::*;

verus! {

/// What a key press asks for.
#[derive(Debug, Clone, PartialEq, Eq)]
pub enum ShellAction {
    Nothing,
    Submit(Secret),
    Power(PowerAction),
}

/// What an animation step asks to redraw.
#[derive(Debug, Clone, Copy, PartialEq, Eq, Structural)]
pub enum ShellAnimationUpdate {
    Nothing,
    AuthDirty,
    Full,
}

#[derive(Debug, Clone, Copy, PartialEq, Eq, Structural)]
pub enum ShellKey {
    Character(char),
    Backspace,
    Enter,
    Escape,
    Clear,
    SelectAll,
}

/// Where an authentication stands.
#[derive(Debug, Clone, Copy, PartialEq, Eq, Structural)]
pub enum ShellStatus {
    Idle,
    Pending { started_at: Moment, visible_after: Moment, shown: bool },
    Rejected {
        retry_until: Option<Moment>,
        displayed_retry_seconds: Option<u64>,
        failed_attempts: Option<u8>,
    },
}

#[derive(Debug, Clone, Copy, PartialEq, Eq, Structural)]
pub enum ShellMode {
    Rich,
    Emergency,
}

/// A power action that waits to be confirmed.
#[derive(Debug, Clone, Copy, PartialEq, Eq, Structural)]
pub struct PowerConfirmation {
    pub action: PowerAction,
    pub expires_at: Moment,
}

/// A grid drawn over previews.
#[derive(Debug, Clone, Copy, PartialEq, Eq, Structural)]
pub struct PreviewGrid {
    pub cell_size: i32,
    pub color: ClearColor,
    pub major_every: i32,
    pub major_color: ClearColor,
}

/// The settings of the shell that its logic reads.
#[derive(Debug, Clone, Copy, PartialEq, Eq, Structural)]
pub struct ShellTheme {
    pub background: ClearColor,
    pub now_playing_fade_duration_ms: Option<u64>,
    pub input_on_demand: bool,
    pub status_enabled: bool,
    pub status_inline: bool,
    pub eye_enabled: bool,
    pub caps_lock_enabled: bool,
    pub avatar_enabled: bool,
    pub avatar_offset_y: Option<i32>,
    pub username_offset_y: Option<i32>,
    pub visual_layers: bool,
    pub grid: Option<PreviewGrid>,
}

/// The shell without what is typed and what is laid out.
#[derive(Debug, Clone, Copy, PartialEq, Eq, Structural)]
pub struct ShellCore {
    pub mode: ShellMode,
    pub secret_selected: bool,
    pub caps_lock_active: bool,
    pub fingerprint_status: Option<FingerprintStatus>,
    pub reveal_secret: bool,
    pub auth_revealed: bool,
    pub reveal_toggle_hovered: bool,
    pub reveal_toggle_pressed: bool,
    pub power_confirmation: Option<PowerConfirmation>,
    pub static_scene_revision: u64,
    pub focused: bool,
    pub status: ShellStatus,
    pub now_playing_changed_at: Option<Moment>,
    pub preview_grid_enabled: bool,
    pub render_scale: u32,
    pub theme: ShellTheme,
}

/// The lock screen's shell.
#[derive(Debug)]
pub struct ShellState {
    pub secret: Secret,
    pub core: ShellCore,
    pub text_layout_cache: TextLayoutCache,
}

/// The shell by what is typed; `revealed_cache` is what the layout cache holds of typed text.
pub ghost struct ShellModel {
    pub secret: Seq<char>,
    pub core: ShellCore,
    pub revealed_cache: CachedTextBlock,
}

impl View for ShellState {
    type V = ShellModel;

    open spec fn view(&self) -> ShellModel {
        ShellModel {
            secret: self.secret@,
            core: self.core,
            revealed_cache: self.text_layout_cache.revealed_secret,
        }
    }
}

/// An action by what is submitted.
pub ghost enum ActionModel {
    Nothing,
    Submit(Seq<char>),
    Power(PowerAction),
}

pub open spec fn action_model(action: ShellAction) -> ActionModel {
    match action {
        ShellAction::Nothing => ActionModel::Nothing,
        ShellAction::Submit(secret) => ActionModel::Submit(secret@),
        ShellAction::Power(action) => ActionModel::Power(action),
    }
}

/// The next revision of the static scene; after the last one they start over.
pub open spec fn next_revision(revision: u64) -> u64 {
    if revision == u64::MAX {
        0
    } else {
        (revision + 1) as u64
    }
}

/// The shell with a new revision of the static scene.
pub open spec fn bumped(core: ShellCore) -> ShellCore {
    ShellCore { static_scene_revision: next_revision(core.static_scene_revision), ..core }
}

/// The shell with a new revision where `changed` holds.
pub open spec fn bumped_if(core: ShellCore, changed: bool) -> ShellCore {
    if changed {
        bumped(core)
    } else {
        core
    }
}

/// The shell in emergency mode, with a new revision of the static scene.
pub open spec fn emergency_core(core: ShellCore) -> ShellCore {
    bumped(ShellCore { mode: ShellMode::Emergency, ..core })
}

/// Whether the password input is to be seen: always, unless it waits to be asked for.
pub open spec fn input_is_visible(core: ShellCore) -> bool {
    core.mode == ShellMode::Emergency || !core.theme.input_on_demand || core.auth_revealed
}

/// Seconds until another attempt is allowed, rounded up; nothing once the time is over.
pub open spec fn retry_seconds(retry_until: Option<Moment>, now: Moment) -> Option<u64> {
    match retry_until {
        Some(until) => if now.nanos < until.nanos {
            let seconds = (until.nanos - now.nanos + 999_999_999) / 1_000_000_000;
            Some(
                if seconds <= u64::MAX {
                    seconds as u64
                } else {
                    u64::MAX
                },
            )
        } else {
            None
        },
        None => None,
    }
}

pub fn current_retry_seconds(retry_until: Option<Moment>, now: Moment) -> (seconds: Option<u64>)
    ensures
        seconds == retry_seconds(retry_until, now),
{
    match retry_until {
        Some(until) => if now.nanos < until.nanos {
            let left: u128 = until.nanos - now.nanos;
            let mut seconds: u128 = left / 1_000_000_000;
            if left % 1_000_000_000 != 0 {
                seconds += 1;
            }
            if seconds <= u64::MAX as u128 {
                Some(seconds as u64)
            } else {
                Some(u64::MAX)
            }
        } else {
            None
        },
        None => None,
    }
}

impl ShellState {
    /// Another revision of the static scene: it has to be drawn anew.
    pub(crate) fn bump_static_scene_revision(&mut self)
        ensures
            final(self).secret@ == old(self).secret@,
            final(self).text_layout_cache == old(self).text_layout_cache,
            final(self).core == bumped(old(self).core),
    {
        self.core.static_scene_revision = self.core.static_scene_revision.wrapping_add(1);
    }

    pub fn emergency_active(&self) -> (active: bool)
        ensures
            active == (self.core.mode == ShellMode::Emergency),
    {
        matches!(self.core.mode, ShellMode::Emergency)
    }

    /// Switches to the plain lock screen that needs nothing but the password.
    pub fn activate_emergency(&mut self)
        ensures
            final(self)@ == (ShellModel { core: emergency_core(old(self)@.core), ..old(self)@ }),
            final(self).text_layout_cache == old(self).text_layout_cache,
    {
        self.core.mode = ShellMode::Emergency;
        self.bump_static_scene_revision();
    }

    pub fn has_visual_layers(&self) -> (layered: bool)
        ensures
            layered == self.core.theme.visual_layers,
    {
        self.core.theme.visual_layers
    }

    pub fn static_scene_revision(&self) -> (revision: u64)
        ensures
            revision == self.core.static_scene_revision,
    {
        self.core.static_scene_revision
    }

    /// Takes over what the fingerprint reader reports, and tells whether that is news.
    pub fn set_fingerprint_status(&mut self, status: Option<FingerprintStatus>) -> (changed: bool)
        ensures
            changed == (old(self).core.fingerprint_status != status),
            final(self)@ == (ShellModel {
                core: ShellCore { fingerprint_status: status, ..old(self)@.core },
                ..old(self)@
            }),
            final(self).text_layout_cache == old(self).text_layout_cache,
    {
        let changed = self.core.fingerprint_status != status;
        self.core.fingerprint_status = status;
        changed
    }

    pub fn input_visible(&self) -> (visible: bool)
        ensures
            visible == input_is_visible(self.core),
    {
        self.emergency_active() || !self.core.theme.input_on_demand || self.core.auth_revealed
    }

    /// Shows the password input.
    pub(crate) fn reveal_auth(&mut self)
        ensures
            final(self).secret@ == old(self).secret@,
            final(self).text_layout_cache == old(self).text_layout_cache,
            final(self).core == bumped_if(
                ShellCore { auth_revealed: true, ..old(self).core },
                !old(self).core.auth_revealed,
            ),
    {
        if !self.core.auth_revealed {
            self.core.auth_revealed = true;
            self.bump_static_scene_revision();
        }
    }

    /// Hides the password input again.
    pub(crate) fn hide_auth(&mut self)
        ensures
            final(self).secret@ == old(self).secret@,
            final(self).text_layout_cache == old(self).text_layout_cache,
            final(self).core == bumped_if(
                ShellCore { auth_revealed: false, ..old(self).core },
                old(self).core.auth_revealed,
            ),
    {
        if self.core.auth_revealed {
            self.core.auth_revealed = false;
            self.bump_static_scene_revision();
        }
    }

    /// Marks all that is typed, or nothing of it.
    pub(crate) fn set_secret_selected(&mut self, selected: bool)
        ensures
            final(self).secret@ == old(self).secret@,
            final(self).text_layout_cache == old(self).text_layout_cache,
            final(self).core == bumped_if(
                ShellCore { secret_selected: selected, ..old(self).core },
                old(self).core.secret_selected != selected,
            ),
    {
        if self.core.secret_selected != selected {
            self.core.secret_selected = selected;
            self.bump_static_scene_revision();
        }
    }

    /// Drops a power action that was not confirmed in time.
    pub(crate) fn clear_expired_power_confirmation(&mut self, now: Moment) -> (cleared: bool)
        ensures
            final(self).secret@ == old(self).secret@,
            final(self).text_layout_cache == old(self).text_layout_cache,
            cleared == (old(self).core.power_confirmation matches Some(confirmation)
                && confirmation.expires_at.nanos <= now.nanos),
            final(self).core == if cleared {
                ShellCore { power_confirmation: None, ..old(self).core }
            } else {
                old(self).core
            },
    {
        if let Some(confirmation) = self.core.power_confirmation {
            if confirmation.expires_at.nanos <= now.nanos {
                self.core.power_confirmation = None;
                return true;
            }
        }
        false
    }
}

/// The seconds shown until another attempt is allowed never fall short of the time left, nor
/// exceed it by a second; once the time is over none are shown.
pub proof fn law_shown_seconds_round_up(until: Moment, now: Moment)
    requires
        until.nanos <= 1_000_000_000 * u64::MAX,
    ensures
        retry_seconds(None, now) is None,
        retry_seconds(Some(until), now) is None <==> until.nanos <= now.nanos,
        retry_seconds(Some(until), now) matches Some(seconds) ==> 1_000_000_000 * (seconds - 1)
            < until.nanos - now.nanos <= 1_000_000_000 * seconds,
{
}

/// Two revisions of the static scene in a row differ, and turning to the plain lock screen is one.
pub proof fn law_revisions_differ(core: ShellCore)
    ensures
        bumped(core).static_scene_revision != core.static_scene_revision,
        emergency_core(core).static_scene_revision != core.static_scene_revision,
        emergency_core(core).mode == ShellMode::Emergency,
        emergency_core(core).status == core.status,
        emergency_core(core).secret_selected == core.secret_selected,
        emergency_core(core).theme == core.theme,
{
}

/// The plain lock screen always shows its input; another one hides it only where that was asked
/// for and it was not called for yet.
pub proof fn law_input_is_there_when_needed(core: ShellCore)
    ensures
        core.mode == ShellMode::Emergency ==> input_is_visible(core),
        core.auth_revealed ==> input_is_visible(core),
        !input_is_visible(core) ==> core.theme.input_on_demand && !core.auth_revealed && core.mode
            == ShellMode::Rich,
        core.mode == ShellMode::Rich && core.theme.input_on_demand && !core.auth_revealed
            ==> !input_is_visible(core),
{
}

} // verus!
