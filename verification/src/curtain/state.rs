//! State of the curtain, and who may end the lock.

use crate::common::battery::BatterySnapshot;
use crate::common::ipc::{CurtainLatencyReport, LatencyReportMode, LockPowerStatusSnapshot};
use crate::common::now_playing::NowPlayingSnapshot;
use crate::common::path;
use crate::common::path::FilePath;
use crate::common::settings;
use crate::common::settings::{BackgroundOutputConfig, OutputUiMode};
use crate::common::time;
use crate::common::time::{Moment, Span};
use crate::common::weather::WeatherSnapshot;
use crate::curtain::backdrop::{BackgroundTreatment, GeneratedBackground};
use crate::curtain::surface;
use crate::curtain::surface::{ManagedLockSurface, OutputDetails, OutputRole, SurfaceModel};
use crate::curtain::transition::{SlideshowTransition, TransitionModel};
use crate::renderer::frame::ClearColor;
use crate::ui::shell;
use crate::ui::shell::{ShellModel, ShellState};
use vstd::prelude::*;

verus! {

/// When the screens are to go dark.
#[derive(Debug, Clone, Copy, PartialEq, Eq, Structural)]
pub struct ScreenOffState {
    pub delay: Option<Span>,
    pub armed_at: Option<Moment>,
    pub powered_off: bool,
}

/// Where the background comes from.
#[derive(Debug, Clone, Copy, PartialEq, Eq, Structural)]
pub struct BackgroundState {
    pub slideshow_active: bool,
    pub generated: Option<GeneratedBackground>,
    pub treatment: BackgroundTreatment,
    pub color: ClearColor,
    pub render_started: bool,
}

/// Which outputs show the prompt, and which are dark.
#[derive(Debug, Clone, Copy, PartialEq, Eq, Structural)]
pub struct OutputsState {
    pub ui_output_mode: OutputUiMode,
    pub hide_cursor: bool,
    pub power_off_secondary_outputs: bool,
    pub secondary_outputs_powered_off: bool,
    pub screen_off: ScreenOffState,
    pub focused_surface_index: Option<usize>,
}

/// How far the lock is, and who may end it.
#[derive(Debug, Clone, Copy, PartialEq, Eq, Structural)]
pub struct LockState {
    pub wait_timeout: Span,
    pub started_at: Moment,
    pub acquisition_started: bool,
    pub has_session_lock: bool,
    pub session_locked: bool,
    pub session_locked_at: Option<Moment>,
    pub session_finished: bool,
    pub exit_requested: bool,
    pub unlock_authorized: bool,
    pub ready_notified: bool,
}

/// Where an authentication attempt stands.
#[derive(Debug, Clone, Copy, PartialEq, Eq, Structural)]
pub struct AttemptState {
    pub allow_empty_password: bool,
    pub in_flight: bool,
    pub accepted_at: Option<Moment>,
    pub next_attempt_id: u64,
}

/// Redraws that wait.
#[derive(Debug, Clone, Copy, PartialEq, Eq, Structural)]
pub struct RedrawState {
    pub pending_pre_ready: bool,
    pub pending_deferred: bool,
    pub post_ready_nonfirst_renders: u32,
    pub post_ready_memory_logged: bool,
}

/// When the steps of the start were reached.
#[derive(Debug, Clone, Copy, PartialEq, Eq, Structural)]
pub struct TimingState {
    pub startup_started_at: Moment,
    pub latency_report: LatencyReportMode,
    pub latency: CurtainLatencyReport,
    pub first_surface_configured_logged: bool,
    pub first_surface_configured_at: Option<Moment>,
    pub all_surfaces_configured_logged: bool,
    pub all_surfaces_configured_at: Option<Moment>,
    pub first_frame_committed_at: Option<Moment>,
}

/// What the keyboard and the pointer are up to.
#[derive(Debug, Clone, Copy, PartialEq, Eq, Structural)]
pub struct InputState {
    pub has_keyboard_focus: bool,
    pub ctrl_active: bool,
    pub active_keyboard_layout: u32,
    pub wake_key_release_pending: bool,
    pub wake_pointer_release_pending: bool,
}

/// What the widgets show.
#[derive(Debug, Clone, Copy, PartialEq, Eq, Structural)]
pub struct WidgetState {
    pub weather_snapshot: Option<WeatherSnapshot>,
    pub battery_snapshot: Option<BatterySnapshot>,
    pub remote_power_status: Option<LockPowerStatusSnapshot>,
    pub avatar_load_started: bool,
}

/// Where the curtain's partners are reached, and what it was started with.
#[derive(Debug)]
pub struct CurtainPaths {
    pub notify_socket: Option<FilePath>,
    pub daemon_socket: Option<FilePath>,
    pub control_socket: Option<FilePath>,
    pub config_path: Option<FilePath>,
    pub avatar_path: Option<FilePath>,
}

/// The curtain.
#[derive(Debug)]
pub struct CurtainApp {
    pub background: BackgroundState,
    pub outputs: OutputsState,
    pub lock: LockState,
    pub attempt: AttemptState,
    pub redraw: RedrawState,
    pub timing: TimingState,
    pub input: InputState,
    pub widgets: WidgetState,
    pub paths: CurtainPaths,
    pub lock_surfaces: Vec<ManagedLockSurface>,
    pub ui_shell: ShellState,
    pub background_path: Option<FilePath>,
    pub background_outputs: Vec<BackgroundOutputConfig>,
    pub slideshow_transition: Option<SlideshowTransition>,
    pub ui_output_name: Option<String>,
    pub now_playing_snapshot: Option<NowPlayingSnapshot>,
    pub keyboard_layout_labels: Vec<String>,
    pub failure_reason: Option<String>,
}

/// The curtain by what it shows.
pub ghost struct CurtainModel {
    pub background: BackgroundState,
    pub outputs: OutputsState,
    pub lock: LockState,
    pub attempt: AttemptState,
    pub redraw: RedrawState,
    pub timing: TimingState,
    pub input: InputState,
    pub widgets: WidgetState,
    pub paths: CurtainPaths,
    pub surfaces: Seq<SurfaceModel>,
    pub shell: ShellModel,
    pub background_path: Option<Seq<u8>>,
    pub background_outputs: Seq<BackgroundOutputConfig>,
    pub transition: Option<TransitionModel>,
    pub ui_output_name: Option<Seq<char>>,
    pub now_playing_snapshot: Option<NowPlayingSnapshot>,
    pub keyboard_layout_labels: Vec<String>,
    pub failure_reason: Option<Seq<char>>,
}

pub open spec fn surface_models(surfaces: Seq<ManagedLockSurface>) -> Seq<SurfaceModel> {
    surfaces.map_values(|surface: ManagedLockSurface| surface@)
}

pub open spec fn optional_transition(transition: Option<SlideshowTransition>) -> Option<
    TransitionModel,
> {
    match transition {
        Some(transition) => Some(transition@),
        None => None,
    }
}

impl View for CurtainApp {
    type V = CurtainModel;

    open spec fn view(&self) -> CurtainModel {
        CurtainModel {
            background: self.background,
            outputs: self.outputs,
            lock: self.lock,
            attempt: self.attempt,
            redraw: self.redraw,
            timing: self.timing,
            input: self.input,
            widgets: self.widgets,
            paths: self.paths,
            surfaces: surface_models(self.lock_surfaces@),
            shell: self.ui_shell@,
            background_path: surface::optional_path(self.background_path),
            background_outputs: self.background_outputs@,
            transition: optional_transition(self.slideshow_transition),
            ui_output_name: settings::viewed_text(self.ui_output_name),
            now_playing_snapshot: self.now_playing_snapshot,
            keyboard_layout_labels: self.keyboard_layout_labels,
            failure_reason: settings::viewed_text(self.failure_reason),
        }
    }
}

/// The first surface that is accepted.
pub open spec fn first_surface(
    surfaces: Seq<SurfaceModel>,
    accepts: spec_fn(SurfaceModel) -> bool,
) -> Option<int>
    decreases surfaces.len(),
{
    if surfaces.len() == 0 {
        None
    } else {
        match first_surface(surfaces.drop_last(), accepts) {
            Some(index) => Some(index),
            None => if accepts(surfaces.last()) {
                Some(surfaces.len() - 1)
            } else {
                None
            },
        }
    }
}

pub proof fn lemma_first_surface(
    surfaces: Seq<SurfaceModel>,
    accepts: spec_fn(SurfaceModel) -> bool,
)
    ensures
        match first_surface(surfaces, accepts) {
            Some(index) => 0 <= index < surfaces.len() && accepts(surfaces[index]) && forall|i: int|
                0 <= i < index ==> !accepts(#[trigger] surfaces[i]),
            None => forall|i: int| 0 <= i < surfaces.len() ==> !accepts(#[trigger] surfaces[i]),
        },
    decreases surfaces.len(),
{
    if surfaces.len() > 0 {
        let rest = surfaces.drop_last();
        lemma_first_surface(rest, accepts);
        assert forall|i: int| 0 <= i < rest.len() implies rest[i] == #[trigger] surfaces[i] by {}
    }
}

/// The index that a search from the front stops at is the one of the first accepted surface.
pub proof fn lemma_first_surface_is(
    surfaces: Seq<SurfaceModel>,
    accepts: spec_fn(SurfaceModel) -> bool,
    index: int,
)
    requires
        0 <= index <= surfaces.len(),
        forall|i: int| 0 <= i < index ==> !accepts(#[trigger] surfaces[i]),
        index < surfaces.len() ==> accepts(surfaces[index]),
    ensures
        first_surface(surfaces, accepts) == if index < surfaces.len() {
            Some(index)
        } else {
            None
        },
{
    lemma_first_surface(surfaces, accepts);
}

/// The surface the compositor calls by this number.
pub open spec fn tracked_index(surfaces: Seq<SurfaceModel>, surface: u32) -> Option<int> {
    first_surface(surfaces, |entry: SurfaceModel| entry.state.surface == surface)
}

/// The surface that covers this output.
pub open spec fn output_index(surfaces: Seq<SurfaceModel>, output: u32) -> Option<int> {
    first_surface(surfaces, |entry: SurfaceModel| entry.state.output == output)
}

pub open spec fn named_index(surfaces: Seq<SurfaceModel>, name: Seq<char>) -> Option<int> {
    first_surface(
        surfaces,
        |entry: SurfaceModel| surface::details_name(entry.details) == Some(name),
    )
}

pub open spec fn sized_index(surfaces: Seq<SurfaceModel>) -> Option<int> {
    first_surface(surfaces, |entry: SurfaceModel| entry.state.size is Some)
}

/// The surface that shows the prompt where only one does: the one on the output that the settings
/// name, else the focused one, else the first one that has a size, else the first one.
pub open spec fn selected_index(model: CurtainModel) -> Option<int> {
    let named = match model.ui_output_name {
        Some(name) => named_index(model.surfaces, name),
        None => None,
    };
    let focused = match model.outputs.focused_surface_index {
        Some(index) => if index < model.surfaces.len()
            && model.surfaces[index as int].state.size is Some {
            Some(index as int)
        } else {
            None
        },
        None => None,
    };
    match (named, focused, sized_index(model.surfaces)) {
        (Some(index), _, _) => Some(index),
        (None, Some(index), _) => Some(index),
        (None, None, Some(index)) => Some(index),
        (None, None, None) => if model.surfaces.len() > 0 {
            Some(0)
        } else {
            None
        },
    }
}

pub open spec fn role_of(model: CurtainModel, index: int) -> OutputRole {
    match model.outputs.ui_output_mode {
        OutputUiMode::All => OutputRole::PrimaryPrompt,
        OutputUiMode::Single => if selected_index(model) == Some(index) {
            OutputRole::PrimaryPrompt
        } else {
            OutputRole::SecondaryCurtain
        },
    }
}

/// The wallpaper the settings give an output of this name, the first one where there are more.
pub open spec fn output_wallpaper(outputs: Seq<BackgroundOutputConfig>, name: Seq<char>) -> Option<
    Seq<u8>,
>
    decreases outputs.len(),
{
    if outputs.len() == 0 {
        None
    } else if outputs[0].name@ == name {
        Some(outputs[0].path@)
    } else {
        output_wallpaper(outputs.drop_first(), name)
    }
}

/// The wallpaper of a surface. A slideshow shows the same one everywhere.
pub open spec fn wallpaper_of(model: CurtainModel, index: int) -> Option<Seq<u8>> {
    if model.background.slideshow_active {
        model.background_path
    } else {
        match surface::details_name(model.surfaces[index].details) {
            Some(name) => match output_wallpaper(model.background_outputs, name) {
                Some(path) => Some(path),
                None => model.background_path,
            },
            None => model.background_path,
        }
    }
}

/// A change of one surface is a change of its model.
pub proof fn lemma_surface_changed(
    before: Seq<ManagedLockSurface>,
    after: Seq<ManagedLockSurface>,
    index: int,
)
    requires
        0 <= index < before.len(),
        after == before.update(index, after[index]),
    ensures
        surface_models(after) == surface_models(before).update(index, after[index]@),
{
    assert(surface_models(after) =~= surface_models(before).update(index, after[index]@));
}

pub open spec fn all_surfaces_wf(surfaces: Seq<ManagedLockSurface>) -> bool {
    forall|i: int| 0 <= i < surfaces.len() ==> (#[trigger] surfaces[i]).wf()
}

impl CurtainApp {
    /// All pictures are whole.
    pub open spec fn wf(&self) -> bool {
        &&& all_surfaces_wf(self.lock_surfaces@)
        &&& self.slideshow_transition matches Some(transition) ==> transition.wf()
    }

    /// The index of the surface the compositor calls by this number.
    pub fn surface_index(&self, surface: u32) -> (index: Option<usize>)
        ensures
            index == match tracked_index(self@.surfaces, surface) {
                Some(index) => Some(index as usize),
                None => None,
            },
            index matches Some(index) ==> index < self.lock_surfaces@.len()
                && self.lock_surfaces@[index as int].state.surface == surface && tracked_index(
                self@.surfaces,
                surface,
            ) == Some(index as int),
            index is None ==> tracked_index(self@.surfaces, surface) is None,
    {
        let ghost accepts = |entry: SurfaceModel| entry.state.surface == surface;
        let mut index: usize = 0;
        while index < self.lock_surfaces.len()
            invariant
                index <= self.lock_surfaces@.len(),
                accepts == (|entry: SurfaceModel| entry.state.surface == surface),
                forall|i: int| 0 <= i < index ==> !accepts(#[trigger] self@.surfaces[i]),
            decreases self.lock_surfaces@.len() - index,
        {
            if self.lock_surfaces[index].state.surface == surface {
                proof {
                    lemma_first_surface_is(self@.surfaces, accepts, index as int);
                }
                return Some(index);
            }
            index += 1;
        }
        proof {
            lemma_first_surface_is(self@.surfaces, accepts, index as int);
        }
        None
    }

    /// The index of the surface that covers this output.
    pub fn output_surface_index(&self, output: u32) -> (index: Option<usize>)
        ensures
            index == match output_index(self@.surfaces, output) {
                Some(index) => Some(index as usize),
                None => None,
            },
            index matches Some(index) ==> index < self.lock_surfaces@.len() && output_index(
                self@.surfaces,
                output,
            ) == Some(index as int),
            index is None ==> output_index(self@.surfaces, output) is None,
    {
        let ghost accepts = |entry: SurfaceModel| entry.state.output == output;
        let mut index: usize = 0;
        while index < self.lock_surfaces.len()
            invariant
                index <= self.lock_surfaces@.len(),
                accepts == (|entry: SurfaceModel| entry.state.output == output),
                forall|i: int| 0 <= i < index ==> !accepts(#[trigger] self@.surfaces[i]),
            decreases self.lock_surfaces@.len() - index,
        {
            if self.lock_surfaces[index].state.output == output {
                proof {
                    lemma_first_surface_is(self@.surfaces, accepts, index as int);
                }
                return Some(index);
            }
            index += 1;
        }
        proof {
            lemma_first_surface_is(self@.surfaces, accepts, index as int);
        }
        None
    }

    fn named_surface_index(&self, name: &String) -> (index: Option<usize>)
        ensures
            index == match named_index(self@.surfaces, name@) {
                Some(index) => Some(index as usize),
                None => None,
            },
            index matches Some(index) ==> index < self.lock_surfaces@.len(),
    {
        let ghost accepts = |entry: SurfaceModel|
            surface::details_name(entry.details) == Some(name@);
        let mut index: usize = 0;
        while index < self.lock_surfaces.len()
            invariant
                index <= self.lock_surfaces@.len(),
                accepts == (|entry: SurfaceModel|
                    surface::details_name(entry.details) == Some(name@)),
                forall|i: int| 0 <= i < index ==> !accepts(#[trigger] self@.surfaces[i]),
            decreases self.lock_surfaces@.len() - index,
        {
            if output_is_named(&self.lock_surfaces[index].details, name) {
                proof {
                    lemma_first_surface_is(self@.surfaces, accepts, index as int);
                }
                return Some(index);
            }
            index += 1;
        }
        proof {
            lemma_first_surface_is(self@.surfaces, accepts, index as int);
        }
        None
    }

    fn sized_surface_index(&self) -> (index: Option<usize>)
        ensures
            index == match sized_index(self@.surfaces) {
                Some(index) => Some(index as usize),
                None => None,
            },
            index matches Some(index) ==> index < self.lock_surfaces@.len(),
    {
        let ghost accepts = |entry: SurfaceModel| entry.state.size is Some;
        let mut index: usize = 0;
        while index < self.lock_surfaces.len()
            invariant
                index <= self.lock_surfaces@.len(),
                accepts == (|entry: SurfaceModel| entry.state.size is Some),
                forall|i: int| 0 <= i < index ==> !accepts(#[trigger] self@.surfaces[i]),
            decreases self.lock_surfaces@.len() - index,
        {
            if self.lock_surfaces[index].state.size.is_some() {
                proof {
                    lemma_first_surface_is(self@.surfaces, accepts, index as int);
                }
                return Some(index);
            }
            index += 1;
        }
        proof {
            lemma_first_surface_is(self@.surfaces, accepts, index as int);
        }
        None
    }

    /// The surface that shows the prompt where only one does.
    pub fn selected_ui_surface_index(&self) -> (index: Option<usize>)
        ensures
            index == match selected_index(self@) {
                Some(index) => Some(index as usize),
                None => None,
            },
            index matches Some(index) ==> index < self.lock_surfaces@.len() && selected_index(self@)
                == Some(index as int),
            index is None ==> selected_index(self@) is None,
    {
        proof {
            if let Some(name) = self@.ui_output_name {
                lemma_first_surface(
                    self@.surfaces,
                    |entry: SurfaceModel| surface::details_name(entry.details) == Some(name),
                );
            }
            lemma_first_surface(
                self@.surfaces,
                |entry: SurfaceModel| entry.state.size is Some,
            );
        }
        let count: usize = self.lock_surfaces.len();
        if let Some(name) = &self.ui_output_name {
            if let Some(index) = self.named_surface_index(name) {
                return Some(index);
            }
        }
        if let Some(index) = self.outputs.focused_surface_index {
            if index < count && self.lock_surfaces[index].state.size.is_some() {
                return Some(index);
            }
        }
        match self.sized_surface_index() {
            Some(index) => Some(index),
            None => if count > 0 {
                Some(0)
            } else {
                None
            },
        }
    }

    pub fn output_role_for_surface(&self, index: usize) -> (role: OutputRole)
        ensures
            role == role_of(self@, index as int),
    {
        match self.outputs.ui_output_mode {
            OutputUiMode::All => OutputRole::PrimaryPrompt,
            OutputUiMode::Single => match self.selected_ui_surface_index() {
                Some(selected) if selected == index => OutputRole::PrimaryPrompt,
                _ => OutputRole::SecondaryCurtain,
            },
        }
    }

    pub fn ui_visible_on_surface(&self, index: usize) -> (visible: bool)
        ensures
            visible == (role_of(self@, index as int) == OutputRole::PrimaryPrompt),
    {
        self.output_role_for_surface(index).renders_shell()
    }

    fn output_background(&self, name: &String) -> (path: Option<&FilePath>)
        ensures
            path::optional_bytes(path) == output_wallpaper(self.background_outputs@, name@),
    {
        let ghost all = self.background_outputs@;
        let mut index: usize = 0;
        assert(all.skip(0) =~= all);
        while index < self.background_outputs.len()
            invariant
                index <= self.background_outputs@.len(),
                all == self.background_outputs@,
                output_wallpaper(all, name@) == output_wallpaper(all.skip(index as int), name@),
            decreases self.background_outputs@.len() - index,
        {
            let output = &self.background_outputs[index];
            let ghost rest = all.skip(index as int);
            if output.name == *name {
                return Some(&output.path);
            }
            assert(rest.drop_first() =~= all.skip(index + 1));
            index += 1;
        }
        None
    }

    /// The wallpaper of a surface.
    pub fn background_path_for_surface(&self, index: usize) -> (path: Option<&FilePath>)
        requires
            index < self.lock_surfaces@.len(),
        ensures
            path::optional_bytes(path) == wallpaper_of(self@, index as int),
    {
        if self.background.slideshow_active {
            return self.background_path.as_ref();
        }
        match &self.lock_surfaces[index].details {
            Some(details) => match &details.name {
                Some(name) => match self.output_background(name) {
                    Some(path) => Some(path),
                    None => self.background_path.as_ref(),
                },
                None => self.background_path.as_ref(),
            },
            None => self.background_path.as_ref(),
        }
    }

    pub fn daemon_socket_path(&self) -> (path: Option<FilePath>)
        ensures
            surface::optional_path(path) == surface::optional_path(self.paths.daemon_socket),
    {
        match &self.paths.daemon_socket {
            Some(path) => Some(path.clone()),
            None => None,
        }
    }

    pub fn request_exit(&mut self)
        ensures
            final(self)@ == exiting(old(self)@),
            old(self).wf() ==> final(self).wf(),
    {
        self.lock.exit_requested = true;
    }

    /// Records that daemon authorized this unlock
    pub fn authorize_unlock(&mut self)
        ensures
            final(self)@ == authorized(old(self)@),
            old(self).wf() ==> final(self).wf(),
    {
        self.lock.unlock_authorized = true;
    }

    /// A signal asks the curtain to go. A lock without a control socket has no daemon to ask, so
    /// there a signal is the only way out; any other lock still waits for an authorized unlock.
    pub fn request_exit_from_signal(&mut self)
        ensures
            final(self)@ == signalled(old(self)@),
            old(self).wf() ==> final(self).wf(),
    {
        if self.paths.control_socket.is_none() {
            self.authorize_unlock();
        }
        self.lock.exit_requested = true;
    }

    pub fn can_stop(&self) -> (stop: bool)
        ensures
            stop == may_stop(self@),
    {
        self.failure_reason.is_some() || (self.lock.exit_requested && (self.lock.session_locked
            || self.lock.session_finished))
    }

    /// Ends the attempt to lock where the compositor takes too long to confirm it.
    pub fn check_lock_deadline(&mut self, now: Moment) -> (in_time: bool)
        ensures
            in_time == !deadline_missed(old(self)@, now),
            final(self)@ == if in_time {
                old(self)@
            } else {
                CurtainModel { failure_reason: Some(DEADLINE_MISSED@), ..old(self)@ }
            },
            old(self).wf() ==> final(self).wf(),
    {
        if !self.lock.acquisition_started || self.lock.session_locked
            || self.lock.session_finished {
            return true;
        }
        if now.saturating_since(self.lock.started_at).nanos
            <= self.lock.wait_timeout.nanos {
            return true;
        }
        self.failure_reason = Some(DEADLINE_MISSED.to_owned());
        false
    }

    /// What is left to do when the curtain goes; `lock_is_locked` tells whether the session lock
    /// is in effect.
    pub fn shutdown(&mut self, lock_is_locked: bool) -> (plan: ShutdownPlan)
        ensures
            plan == shutdown_plan(old(self)@, lock_is_locked),
            final(self)@ == after_shutdown(old(self)@),
            old(self).wf() ==> final(self).wf(),
    {
        let remove_socket = self.paths.control_socket.take();
        if self.lock.session_finished {
            let had_lock = self.lock.has_session_lock;
            self.lock.has_session_lock = false;
            return ShutdownPlan {
                remove_socket,
                wake_outputs: false,
                lock: if had_lock {
                    LockDisposal::Drop
                } else {
                    LockDisposal::Nothing
                },
            };
        }
        let wake_outputs = self.outputs.screen_off.powered_off
            || self.outputs.secondary_outputs_powered_off;
        if wake_outputs {
            self.outputs.secondary_outputs_powered_off = false;
        }
        let had_lock = self.lock.has_session_lock;
        self.lock.has_session_lock = false;
        let lock = if !had_lock {
            LockDisposal::Nothing
        } else if !self.lock.unlock_authorized {
            LockDisposal::LeaveLocked
        } else if lock_is_locked {
            LockDisposal::Unlock
        } else {
            LockDisposal::Drop
        };
        ShutdownPlan { remove_socket, wake_outputs, lock }
    }

    /// Moves the focus, and tells whether another surface shows the prompt now.
    pub fn set_focused_surface_index(&mut self, index: Option<usize>) -> (moved: bool)
        ensures
            final(self)@ == focused_on(old(self)@, index),
            moved == (selected_index(old(self)@) != selected_index(final(self)@)),
            old(self).wf() ==> final(self).wf(),
    {
        let unchanged = match (self.outputs.focused_surface_index, index) {
            (Some(a), Some(b)) => a == b,
            (None, None) => true,
            _ => false,
        };
        if unchanged {
            return false;
        }
        let previous = self.selected_ui_surface_index();
        self.outputs.focused_surface_index = index;
        match (self.selected_ui_surface_index(), previous) {
            (Some(a), Some(b)) => a != b,
            (None, None) => false,
            _ => true,
        }
    }

    /// A surface was touched: it gets the focus. Tells whether another surface shows the prompt
    /// now.
    pub fn note_surface_activity(&mut self, surface: u32) -> (moved: bool)
        ensures
            final(self)@ == match tracked_index(old(self)@.surfaces, surface) {
                Some(index) => focused_on(old(self)@, Some(index as usize)),
                None => old(self)@,
            },
            moved == (selected_index(old(self)@) != selected_index(final(self)@)),
            old(self).wf() ==> final(self).wf(),
    {
        match self.surface_index(surface) {
            Some(index) => self.set_focused_surface_index(Some(index)),
            None => false,
        }
    }

    pub fn surface_has_focus_target(&self, surface: u32) -> (known: bool)
        ensures
            known == tracked_index(self@.surfaces, surface) is Some,
    {
        self.surface_index(surface).is_some()
    }

    /// The time until something has to be looked at again: the shortest of what is due.
    pub fn animation_poll_interval(&self, now: Moment, due: PollDues) -> (interval: Span)
        ensures
            interval == poll_interval(self@, now, due),
    {
        let mut interval = due.shell;
        interval = sooner(interval, due.repeat);
        interval = sooner(interval, due.slideshow);
        interval = sooner(interval, self.slideshow_transition_poll_interval());
        interval = sooner(
            interval,
            self.outputs.screen_off.due_in(now, self.lock.session_locked),
        );
        sooner(interval, due.power_status)
    }

    /// While a crossfade runs it is looked after at least this often, even if the compositor
    /// does not ask for frames.
    pub fn slideshow_transition_poll_interval(&self) -> (interval: Option<Span>)
        ensures
            interval == watchdog_interval(self@),
    {
        match &self.slideshow_transition {
            Some(transition) => if transition.is_animating() {
                Some(Span::from_millis(SLIDESHOW_TRANSITION_WATCHDOG_MS))
            } else {
                None
            },
            None => None,
        }
    }
}

pub const SLIDESHOW_TRANSITION_WATCHDOG_MS: u64 = 100;

pub const DEADLINE_MISSED: &'static str =
    "timed out waiting for compositor to confirm the session lock";

/// When the parts of the curtain that keep their own clocks are due.
#[derive(Debug, Clone, Copy, PartialEq, Eq, Structural)]
pub struct PollDues {
    pub shell: Span,
    pub repeat: Option<Span>,
    pub slideshow: Option<Span>,
    pub power_status: Option<Span>,
}

pub open spec fn earlier(interval: Span, due: Option<Span>) -> Span {
    match due {
        Some(due) => if due.nanos < interval.nanos {
            due
        } else {
            interval
        },
        None => interval,
    }
}

fn sooner(interval: Span, due: Option<Span>) -> (result: Span)
    ensures
        result == earlier(interval, due),
{
    match due {
        Some(due) if due.nanos < interval.nanos => due,
        _ => interval,
    }
}

pub open spec fn watchdog_interval(model: CurtainModel) -> Option<Span> {
    match model.transition {
        Some(transition) => if transition.started_at is Some {
            Some(Span { nanos: 100_000_000 })
        } else {
            None
        },
        None => None,
    }
}

/// The time until the screens go dark, while the session is locked and they are on.
pub open spec fn screen_off_due(screen_off: ScreenOffState, now: Moment, locked: bool) -> Option<
    Span,
> {
    match (screen_off.delay, screen_off.armed_at) {
        (Some(delay), Some(armed_at)) => if locked && !screen_off.powered_off {
            let elapsed = time::span_between(armed_at, now);
            Some(
                Span {
                    nanos: if elapsed >= delay.nanos {
                        0
                    } else {
                        (delay.nanos - elapsed) as u128
                    },
                },
            )
        } else {
            None
        },
        _ => None,
    }
}

impl ScreenOffState {
    pub fn new(delay: Option<Span>) -> (state: Self)
        ensures
            state == (ScreenOffState { delay, armed_at: None, powered_off: false }),
    {
        ScreenOffState { delay, armed_at: None, powered_off: false }
    }

    pub fn due_in(&self, now: Moment, locked: bool) -> (due: Option<Span>)
        ensures
            due == screen_off_due(*self, now, locked),
    {
        match (self.delay, self.armed_at) {
            (Some(delay), Some(armed_at)) => if locked && !self.powered_off {
                let elapsed: u128 = now.saturating_since(armed_at).nanos;
                if elapsed >= delay.nanos {
                    Some(Span { nanos: 0 })
                } else {
                    Some(Span { nanos: delay.nanos - elapsed })
                }
            } else {
                None
            },
            _ => None,
        }
    }
}

pub open spec fn poll_interval(model: CurtainModel, now: Moment, due: PollDues) -> Span {
    earlier(
        earlier(
            earlier(
                earlier(earlier(due.shell, due.repeat), due.slideshow),
                watchdog_interval(model),
            ),
            screen_off_due(model.outputs.screen_off, now, model.lock.session_locked),
        ),
        due.power_status,
    )
}

fn output_is_named(details: &Option<OutputDetails>, name: &String) -> (named: bool)
    ensures
        named == (surface::details_name(*details) == Some(name@)),
{
    match details {
        Some(details) => match &details.name {
            Some(own) => *own == *name,
            None => false,
        },
        None => false,
    }
}

pub open spec fn exiting(model: CurtainModel) -> CurtainModel {
    CurtainModel { lock: LockState { exit_requested: true, ..model.lock }, ..model }
}

pub open spec fn authorized(model: CurtainModel) -> CurtainModel {
    CurtainModel { lock: LockState { unlock_authorized: true, ..model.lock }, ..model }
}

pub open spec fn signalled(model: CurtainModel) -> CurtainModel {
    if model.paths.control_socket is None {
        exiting(authorized(model))
    } else {
        exiting(model)
    }
}

pub open spec fn focused_on(model: CurtainModel, index: Option<usize>) -> CurtainModel {
    CurtainModel { outputs: OutputsState { focused_surface_index: index, ..model.outputs }, ..model }
}

pub open spec fn may_stop(model: CurtainModel) -> bool {
    model.failure_reason is Some || (model.lock.exit_requested && (model.lock.session_locked
        || model.lock.session_finished))
}

/// Whether the compositor had its time to confirm the lock and did not.
pub open spec fn deadline_missed(model: CurtainModel, now: Moment) -> bool {
    &&& model.lock.acquisition_started
    &&& !model.lock.session_locked
    &&& !model.lock.session_finished
    &&& time::span_between(model.lock.started_at, now) > model.lock.wait_timeout.nanos
}

/// What becomes of the session lock.
#[derive(Debug, Clone, Copy, PartialEq, Eq, Structural)]
pub enum LockDisposal {
    /// There is none.
    Nothing,
    /// It is not in effect and is dropped.
    Drop,
    /// It stays in effect: nobody authorized an unlock.
    LeaveLocked,
    /// The session is unlocked.
    Unlock,
}

/// What is left to do when the curtain goes.
#[derive(Debug)]
pub struct ShutdownPlan {
    pub remove_socket: Option<FilePath>,
    pub wake_outputs: bool,
    pub lock: LockDisposal,
}

pub open spec fn shutdown_plan(model: CurtainModel, lock_is_locked: bool) -> ShutdownPlan {
    ShutdownPlan {
        remove_socket: model.paths.control_socket,
        wake_outputs: !model.lock.session_finished && (model.outputs.screen_off.powered_off
            || model.outputs.secondary_outputs_powered_off),
        lock: if !model.lock.has_session_lock {
            LockDisposal::Nothing
        } else if model.lock.session_finished {
            LockDisposal::Drop
        } else if !model.lock.unlock_authorized {
            LockDisposal::LeaveLocked
        } else if lock_is_locked {
            LockDisposal::Unlock
        } else {
            LockDisposal::Drop
        },
    }
}

pub open spec fn after_shutdown(model: CurtainModel) -> CurtainModel {
    CurtainModel {
        lock: LockState { has_session_lock: false, ..model.lock },
        outputs: OutputsState {
            secondary_outputs_powered_off: model.lock.session_finished
                && model.outputs.secondary_outputs_powered_off,
            ..model.outputs
        },
        paths: CurtainPaths { control_socket: None, ..model.paths },
        ..model
    }
}

/// The session is unlocked only where the unlock was authorized; an unauthorized exit leaves a
/// lock that the compositor has not ended in effect.
pub proof fn law_only_authorized_unlocks_end_the_lock(model: CurtainModel, lock_is_locked: bool)
    ensures
        shutdown_plan(model, lock_is_locked).lock == LockDisposal::Unlock
            ==> model.lock.unlock_authorized,
        !model.lock.unlock_authorized && model.lock.has_session_lock
            && !model.lock.session_finished ==> shutdown_plan(model, lock_is_locked).lock
            == LockDisposal::LeaveLocked,
{
}

/// A signal does not unlock a session that a daemon looks after.
pub proof fn law_signal_does_not_unlock_a_managed_session(model: CurtainModel)
    requires
        model.paths.control_socket is Some,
    ensures
        signalled(model).lock.unlock_authorized == model.lock.unlock_authorized,
        signalled(model).lock.exit_requested,
{
}

/// At most one surface shows the prompt where only one is to, and some surface does wherever
/// there is one.
pub proof fn law_one_surface_shows_the_prompt(model: CurtainModel, a: int, b: int)
    requires
        model.outputs.ui_output_mode == OutputUiMode::Single,
    ensures
        role_of(model, a) == OutputRole::PrimaryPrompt && role_of(model, b)
            == OutputRole::PrimaryPrompt ==> a == b,
        model.surfaces.len() > 0 ==> exists|index: int|
            0 <= index < model.surfaces.len() && role_of(model, index)
                == OutputRole::PrimaryPrompt,
{
    if let Some(name) = model.ui_output_name {
        lemma_first_surface(
            model.surfaces,
            |entry: SurfaceModel| surface::details_name(entry.details) == Some(name),
        );
    }
    lemma_first_surface(model.surfaces, |entry: SurfaceModel| entry.state.size is Some);
    if model.surfaces.len() > 0 {
        let index = selected_index(model)->0;
        assert(role_of(model, index) == OutputRole::PrimaryPrompt);
    }
}

/// Where one surface shows the prompt, it is the first one on the output that was named; without
/// such an output it is the one in focus, where that has its size; else the first that has one;
/// else the first of all. Where all show it, every one does.
pub proof fn law_prompt_is_where_it_was_asked_for(model: CurtainModel, index: int)
    requires
        0 <= index < model.surfaces.len(),
        model.surfaces.len() <= usize::MAX,
    ensures
        ({
            let surfaces = model.surfaces;
            let named = |i: int|
                model.ui_output_name is Some && surface::details_name(surfaces[i].details)
                    == model.ui_output_name;
            let no_name = forall|i: int| 0 <= i < surfaces.len() ==> !(#[trigger] named(i));
            let focus = model.outputs.focused_surface_index;
            let focused = focus is Some && focus->0 < surfaces.len()
                && surfaces[focus->0 as int].state.size is Some;
            let prompts = role_of(model, index) == OutputRole::PrimaryPrompt;
            &&& model.outputs.ui_output_mode == OutputUiMode::All ==> prompts
            &&& model.outputs.ui_output_mode == OutputUiMode::Single ==> {
                &&& !no_name ==> (prompts <==> named(index) && forall|i: int|
                    0 <= i < index ==> !(#[trigger] named(i)))
                &&& no_name && focused ==> (prompts <==> focus->0 == index)
                &&& no_name && !focused ==> {
                    let sized = |i: int| surfaces[i].state.size is Some;
                    let none_sized = forall|i: int|
                        0 <= i < surfaces.len() ==> !(#[trigger] sized(i));
                    &&& !none_sized ==> (prompts <==> sized(index) && forall|i: int|
                        0 <= i < index ==> !(#[trigger] sized(i)))
                    &&& none_sized ==> (prompts <==> index == 0)
                }
            }
        }),
{
    let surfaces = model.surfaces;
    let named = |i: int|
        model.ui_output_name is Some && surface::details_name(surfaces[i].details)
            == model.ui_output_name;
    let sized = |i: int| surfaces[i].state.size is Some;
    let has_size = |entry: SurfaceModel| entry.state.size is Some;
    lemma_first_surface(surfaces, has_size);
    if let Some(name) = model.ui_output_name {
        let has_name = |entry: SurfaceModel| surface::details_name(entry.details) == Some(name);
        lemma_first_surface(surfaces, has_name);
        assert forall|i: int| 0 <= i < surfaces.len() implies #[trigger] named(i) == has_name(
            surfaces[i],
        ) by {}
        if let Some(first) = first_surface(surfaces, has_name) {
            assert(named(first));
            assert forall|i: int| 0 <= i < first implies !(#[trigger] named(i)) by {
                assert(!has_name(surfaces[i]));
            }
        } else {
            assert forall|i: int| 0 <= i < surfaces.len() implies !(#[trigger] named(i)) by {
                assert(!has_name(surfaces[i]));
            }
        }
    }
    assert forall|i: int| 0 <= i < surfaces.len() implies #[trigger] sized(i) == has_size(
        surfaces[i],
    ) by {}
    if let Some(first) = first_surface(surfaces, has_size) {
        assert(sized(first));
        assert forall|i: int| 0 <= i < first implies !(#[trigger] sized(i)) by {
            assert(!has_size(surfaces[i]));
        }
    } else {
        assert forall|i: int| 0 <= i < surfaces.len() implies !(#[trigger] sized(i)) by {
            assert(!has_size(surfaces[i]));
        }
    }
}

/// A surface shows the wallpaper that is set for its output, the first one where several are;
/// without one, and while a slideshow runs, it shows the common one.
pub proof fn law_surface_shows_its_outputs_wallpaper(
    model: CurtainModel,
    index: int,
    name: Seq<char>,
    entry: int,
)
    requires
        surface::details_name(model.surfaces[index].details) == Some(name),
        !model.background.slideshow_active,
    ensures
        0 <= entry < model.background_outputs.len() && model.background_outputs[entry].name@ == name
            && (forall|i: int|
            0 <= i < entry ==> (#[trigger] model.background_outputs[i]).name@ != name)
            ==> wallpaper_of(model, index) == Some(model.background_outputs[entry].path@),
        (forall|i: int|
            0 <= i < model.background_outputs.len() ==> (
            #[trigger] model.background_outputs[i]).name@ != name) ==> wallpaper_of(model, index)
            == model.background_path,
{
    lemma_output_wallpaper(model.background_outputs, name, entry);
}

proof fn lemma_output_wallpaper(
    outputs: Seq<BackgroundOutputConfig>,
    name: Seq<char>,
    entry: int,
)
    ensures
        0 <= entry < outputs.len() && outputs[entry].name@ == name && (forall|i: int|
            0 <= i < entry ==> (#[trigger] outputs[i]).name@ != name) ==> output_wallpaper(
            outputs,
            name,
        ) == Some(outputs[entry].path@),
        (forall|i: int| 0 <= i < outputs.len() ==> (#[trigger] outputs[i]).name@ != name)
            ==> output_wallpaper(outputs, name) is None,
    decreases outputs.len(),
{
    if outputs.len() > 0 && outputs[0].name@ != name {
        let rest = outputs.drop_first();
        assert forall|i: int| 0 <= i < rest.len() implies #[trigger] rest[i] == outputs[i + 1] by {}
        lemma_output_wallpaper(rest, name, entry - 1);
    }
}

/// A slideshow, and an output without a name, show the common wallpaper.
pub proof fn law_slideshow_shows_the_common_wallpaper(model: CurtainModel, index: int)
    ensures
        model.background.slideshow_active || surface::details_name(model.surfaces[index].details)
            is None ==> wallpaper_of(model, index) == model.background_path,
{
}

/// The curtain stops once something failed, or once it was asked to and the lock is in effect or
/// gone; never otherwise.
pub proof fn law_curtain_stops_only_when_settled(model: CurtainModel)
    ensures
        model.failure_reason is Some ==> may_stop(model),
        model.failure_reason is None && !model.lock.exit_requested ==> !may_stop(model),
        model.failure_reason is None && !model.lock.session_locked && !model.lock.session_finished
            ==> !may_stop(model),
        model.lock.exit_requested && model.lock.session_locked ==> may_stop(model),
        model.lock.exit_requested && model.lock.session_finished ==> may_stop(model),
{
}

/// Waiting for the lock to be confirmed is given up once more than the whole timeout has passed,
/// and not before; a lock that was confirmed, refused or never asked for is not waited for.
pub proof fn law_lock_is_waited_for_its_timeout(model: CurtainModel, now: Moment)
    requires
        model.lock.started_at.nanos <= now.nanos,
    ensures
        deadline_missed(model, now) <==> model.lock.acquisition_started
            && !model.lock.session_locked && !model.lock.session_finished && now.nanos
            > model.lock.started_at.nanos + model.lock.wait_timeout.nanos,
{
}

/// An authorized unlock ends a lock that is in effect. A lock that never took effect or that the
/// compositor took back is let go, and where there is none nothing happens.
pub proof fn law_authorized_unlock_ends_the_lock(model: CurtainModel, lock_is_locked: bool)
    ensures
        ({
            let disposal = shutdown_plan(model, lock_is_locked).lock;
            &&& disposal == LockDisposal::Unlock <==> model.lock.has_session_lock
                && !model.lock.session_finished && model.lock.unlock_authorized && lock_is_locked
            &&& disposal == LockDisposal::Nothing <==> !model.lock.has_session_lock
            &&& disposal == LockDisposal::Drop <==> model.lock.has_session_lock && (
            model.lock.session_finished || (model.lock.unlock_authorized && !lock_is_locked))
        }),
{
}

/// When the curtain goes, its socket is removed and dark outputs are woken; a second time there is
/// nothing left to remove, to wake or to dispose of.
pub proof fn law_shutdown_cleans_up(model: CurtainModel, lock_is_locked: bool)
    ensures
        ({
            let plan = shutdown_plan(model, lock_is_locked);
            let again = shutdown_plan(after_shutdown(model), lock_is_locked);
            let dark = model.outputs.screen_off.powered_off
                || model.outputs.secondary_outputs_powered_off;
            &&& plan.remove_socket == model.paths.control_socket
            &&& plan.wake_outputs == (dark && !model.lock.session_finished)
            &&& again.remove_socket is None
            &&& again.lock == LockDisposal::Nothing
            &&& after_shutdown(model).lock.unlock_authorized == model.lock.unlock_authorized
            &&& after_shutdown(model).surfaces == model.surfaces
        }),
{
}

/// A signal asks the curtain to go; without a daemon to authorize it, it also unlocks.
pub proof fn law_signal_ends_an_unmanaged_session(model: CurtainModel)
    ensures
        signalled(model).lock.exit_requested,
        model.paths.control_socket is None ==> signalled(model).lock.unlock_authorized,
        signalled(model).failure_reason == model.failure_reason,
        signalled(model).surfaces == model.surfaces,
        signalled(model).shell == model.shell,
        signalled(model).lock.session_locked == model.lock.session_locked,
{
}

/// The loop wakes when the first thing is due: never later than any of them, and for one of them.
pub proof fn law_loop_wakes_for_what_is_due_first(model: CurtainModel, now: Moment, due: PollDues)
    ensures
        ({
            let interval = poll_interval(model, now, due);
            let screen = screen_off_due(
                model.outputs.screen_off,
                now,
                model.lock.session_locked,
            );
            let fading = model.transition matches Some(fade) && fade.started_at is Some;
            &&& interval.nanos <= due.shell.nanos
            &&& due.repeat matches Some(repeat) ==> interval.nanos <= repeat.nanos
            &&& due.slideshow matches Some(slideshow) ==> interval.nanos <= slideshow.nanos
            &&& due.power_status matches Some(status) ==> interval.nanos <= status.nanos
            &&& screen matches Some(off) ==> interval.nanos <= off.nanos
            &&& fading ==> interval.nanos <= 100_000_000
            &&& interval == due.shell || Some(interval) == due.repeat || Some(interval)
                == due.slideshow || Some(interval) == due.power_status || Some(interval) == screen
                || (fading && interval.nanos == 100_000_000)
        }),
{
}

/// The outputs go dark a whole delay after they were armed, while the session is locked and they
/// are lit.
pub proof fn law_outputs_go_dark_after_their_delay(
    screen_off: ScreenOffState,
    now: Moment,
    locked: bool,
)
    ensures
        screen_off_due(screen_off, now, locked) is Some <==> screen_off.delay is Some
            && screen_off.armed_at is Some && locked && !screen_off.powered_off,
        screen_off_due(screen_off, now, locked) matches Some(due) ==> {
            let armed = screen_off.armed_at->0.nanos;
            let delay = screen_off.delay->0.nanos;
            &&& now.nanos >= armed + delay ==> due.nanos == 0
            &&& armed <= now.nanos < armed + delay ==> now.nanos + due.nanos == armed + delay
        },
{
}

/// A surface is found by its number, and one that covers an output by the output: the first that
/// has it, and none where none has.
pub proof fn law_surfaces_are_found_by_number(
    surfaces: Seq<SurfaceModel>,
    number: u32,
    index: int,
)
    ensures
        0 <= index < surfaces.len() && surfaces[index].state.surface == number && (forall|i: int|
            0 <= i < index ==> (#[trigger] surfaces[i]).state.surface != number) ==> tracked_index(
            surfaces,
            number,
        ) == Some(index),
        0 <= index < surfaces.len() && surfaces[index].state.output == number && (forall|i: int|
            0 <= i < index ==> (#[trigger] surfaces[i]).state.output != number) ==> output_index(
            surfaces,
            number,
        ) == Some(index),
        tracked_index(surfaces, number) is Some ==> exists|i: int|
            0 <= i < surfaces.len() && (#[trigger] surfaces[i]).state.surface == number,
        output_index(surfaces, number) is Some ==> exists|i: int|
            0 <= i < surfaces.len() && (#[trigger] surfaces[i]).state.output == number,
{
    let by_surface = |entry: SurfaceModel| entry.state.surface == number;
    let by_output = |entry: SurfaceModel| entry.state.output == number;
    lemma_first_surface(surfaces, by_surface);
    lemma_first_surface(surfaces, by_output);
    if 0 <= index < surfaces.len() {
        if let Some(first) = first_surface(surfaces, by_surface) {
            assert(by_surface(surfaces[first]));
            assert(first < index ==> surfaces[first].state.surface == number);
        }
        if let Some(first) = first_surface(surfaces, by_output) {
            assert(by_output(surfaces[first]));
            assert(first < index ==> surfaces[first].state.output == number);
        }
        assert(by_surface(surfaces[index]) == (surfaces[index].state.surface == number));
        assert(by_output(surfaces[index]) == (surfaces[index].state.output == number));
    }
}

/// Outputs that were dark are taken for lit again when the curtain goes, unless the compositor had
/// ended the lock before and they could not be woken.
pub proof fn law_woken_outputs_are_lit(model: CurtainModel)
    ensures
        !model.lock.session_finished ==> !after_shutdown(
            model,
        ).outputs.secondary_outputs_powered_off,
        model.lock.session_finished ==> after_shutdown(model).outputs.secondary_outputs_powered_off
            == model.outputs.secondary_outputs_powered_off,
        !after_shutdown(model).lock.has_session_lock,
        after_shutdown(model).paths.control_socket is None,
        after_shutdown(model).paths.daemon_socket == model.paths.daemon_socket,
{
}

} // verus!
