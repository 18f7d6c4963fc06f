//! How the curtain starts.

use crate::common::battery::BatterySnapshot;
use crate::common::config::{AppConfig, LoadedConfig};
use crate::common::ipc::{CurtainLatencyReport, LatencyReportMode};
use crate::common::now_playing::NowPlayingSnapshot;
use crate::common::path::FilePath;
use crate::common::settings;
use crate::common::settings::{BackgroundConfig, LockConfig, OutputUiMode};
use crate::common::text;
use crate::common::time;
use crate::common::time::{Moment, Span};
use crate::common::weather::WeatherSnapshot;
use crate::curtain::backdrop;
use crate::curtain::backdrop::{background_generated, background_treatment, BackgroundTreatment};
use crate::curtain::state;
use crate::curtain::state::{
    AttemptState, BackgroundState, CurtainApp, CurtainModel, CurtainPaths, InputState, LockState,
    OutputsState, RedrawState, ScreenOffState, TimingState, WidgetState,
};
use crate::curtain::surface;
use crate::curtain::surface::{ManagedLockSurface, OutputRole, SurfaceModel};
use crate::renderer::frame::ClearColor;
use crate::ui::shell;
use crate::ui::shell::{ShellModel, ShellState};
use vstd::prelude::*;

verus! {

/// What the curtain is started with.
#[derive(Debug)]
pub struct CurtainOptions {
    pub notify_socket: Option<FilePath>,
    pub daemon_socket: Option<FilePath>,
    pub control_socket: Option<FilePath>,
    pub config_path: Option<FilePath>,
    pub initial_background_path: Option<FilePath>,
    pub preview_png: Option<FilePath>,
    pub force_emergency_ui: bool,
    pub latency_report: LatencyReportMode,
    pub weather_snapshot: Option<WeatherSnapshot>,
    pub battery_snapshot: Option<BatterySnapshot>,
    pub now_playing_snapshot: Option<NowPlayingSnapshot>,
}

/// The configuration the curtain starts with. Where it could not be loaded the plain lock screen
/// is shown, and the reason says why.
#[derive(Debug)]
pub struct StartupConfig {
    pub loaded: LoadedConfig,
    pub emergency_reason: Option<String>,
    pub emergency_active: bool,
}

pub const CONFIG_FAILURE: &'static str = "failed to load curtain config: ";

/// The background of the plain lock screen.
pub open spec fn emergency_color() -> ClearColor {
    ClearColor { red: 12, green: 14, blue: 18, alpha: 255 }
}

pub fn emergency_background() -> (color: ClearColor)
    ensures
        color == emergency_color(),
{
    ClearColor::opaque(12, 14, 18)
}

/// Takes over the configuration, or falls back to the built-in one where it could not be loaded.
pub fn startup_config(
    loaded: core::result::Result<LoadedConfig, String>,
    config_path: Option<FilePath>,
    force_emergency_ui: bool,
) -> (startup: StartupConfig)
    ensures
        match loaded {
            Ok(config) => startup.loaded == config && startup.emergency_reason is None
                && startup.emergency_active == force_emergency_ui,
            Err(error) => {
                &&& startup.loaded.path == config_path
                &&& startup.loaded.config.background == settings::plain_background(
                    startup.loaded.config.background.outputs,
                )
                &&& startup.loaded.config.background.outputs@.len() == 0
                &&& startup.loaded.config.lock == settings::plain_lock()
                &&& startup.loaded.config.battery == settings::plain_battery()
                &&& startup.loaded.config.weather == settings::plain_weather()
                &&& startup.loaded.config.visuals == settings::plain_visuals()
                &&& startup.emergency_active
                &&& settings::viewed_text(startup.emergency_reason) == Some(
                    CONFIG_FAILURE@ + error@,
                )
            },
        },
{
    match loaded {
        Ok(loaded) => StartupConfig {
            loaded,
            emergency_reason: None,
            emergency_active: force_emergency_ui,
        },
        Err(error) => StartupConfig {
            loaded: LoadedConfig { path: config_path, config: AppConfig::default() },
            emergency_reason: Some(text::joined(CONFIG_FAILURE, error.as_str())),
            emergency_active: true,
        },
    }
}

/// What a run of the curtain is for.
#[derive(Debug, Clone, Copy, PartialEq, Eq, Structural)]
pub enum RunMode {
    Preview,
    Lock,
}

impl CurtainOptions {
    /// A preview is drawn where a picture file is asked for; else the session is locked.
    pub fn run_mode(&self) -> (mode: RunMode)
        ensures
            mode == if self.preview_png is Some {
                RunMode::Preview
            } else {
                RunMode::Lock
            },
    {
        if self.preview_png.is_some() {
            RunMode::Preview
        } else {
            RunMode::Lock
        }
    }
}

/// The wallpaper to begin with: the one asked for, else the slideshow's, else the configured one.
pub open spec fn first_wallpaper(
    emergency: bool,
    initial: Option<FilePath>,
    slideshow: Option<FilePath>,
    configured: Option<FilePath>,
) -> Option<FilePath> {
    if emergency {
        None
    } else {
        match (initial, slideshow) {
            (Some(path), _) => Some(path),
            (None, Some(path)) => Some(path),
            (None, None) => configured,
        }
    }
}

pub open spec fn first_background(
    emergency: bool,
    config: BackgroundConfig,
    slideshow: bool,
    theme_color: ClearColor,
) -> BackgroundState {
    BackgroundState {
        slideshow_active: !emergency && slideshow,
        generated: if emergency {
            None
        } else {
            backdrop::generated_of(config)
        },
        treatment: if emergency {
            backdrop::untreated()
        } else {
            backdrop::treatment_of(config)
        },
        color: if emergency {
            emergency_color()
        } else {
            theme_color
        },
        render_started: false,
    }
}

/// How long the screens stay on, where that is limited.
pub open spec fn screen_off_delay(seconds: Option<u64>) -> Option<Span> {
    match seconds {
        Some(seconds) => if seconds > 0 {
            Some(Span { nanos: (seconds * time::NANOS_PER_SECOND) as u128 })
        } else {
            None
        },
        None => None,
    }
}

pub open spec fn first_outputs(emergency: bool, config: AppConfig) -> OutputsState {
    OutputsState {
        ui_output_mode: if emergency {
            OutputUiMode::All
        } else {
            config.visuals.output_ui_mode
        },
        hide_cursor: config.lock.hide_cursor,
        power_off_secondary_outputs: !emergency && config.lock.power_off_secondary_outputs,
        secondary_outputs_powered_off: false,
        screen_off: ScreenOffState {
            delay: screen_off_delay(config.lock.screen_off_seconds),
            armed_at: None,
            powered_off: false,
        },
        focused_surface_index: None,
    }
}

pub open spec fn first_lock(config: LockConfig, now: Moment) -> LockState {
    LockState {
        wait_timeout: Span {
            nanos: ((if config.acquire_timeout_seconds < 1 {
                1
            } else {
                config.acquire_timeout_seconds as int
            }) * time::NANOS_PER_SECOND) as u128,
        },
        started_at: now,
        acquisition_started: false,
        has_session_lock: false,
        session_locked: false,
        session_locked_at: None,
        session_finished: false,
        exit_requested: false,
        unlock_authorized: false,
        ready_notified: false,
    }
}

/// A report in which nothing has been measured yet.
pub open spec fn blank_report() -> CurtainLatencyReport {
    CurtainLatencyReport {
        wayland_connect_ms: 0,
        wayland_connect_us: 0,
        registry_ms: 0,
        registry_us: 0,
        event_loop_ms: 0,
        event_loop_us: 0,
        app_init_ms: 0,
        app_init_us: 0,
        lock_request_ms: 0,
        lock_request_us: 0,
        startup_prepared_ms: 0,
        startup_prepared_us: 0,
        first_surface_configured_ms: None,
        first_surface_configured_us: None,
        all_surfaces_configured_ms: None,
        all_surfaces_configured_us: None,
        session_locked_ms: None,
        session_locked_us: None,
        first_frame_ms: None,
        first_frame_us: None,
        ready_notified_ms: None,
        ready_notified_us: None,
        surface_count: 0,
    }
}

fn new_report() -> (report: CurtainLatencyReport)
    ensures
        report == blank_report(),
{
    CurtainLatencyReport {
        wayland_connect_ms: 0,
        wayland_connect_us: 0,
        registry_ms: 0,
        registry_us: 0,
        event_loop_ms: 0,
        event_loop_us: 0,
        app_init_ms: 0,
        app_init_us: 0,
        lock_request_ms: 0,
        lock_request_us: 0,
        startup_prepared_ms: 0,
        startup_prepared_us: 0,
        first_surface_configured_ms: None,
        first_surface_configured_us: None,
        all_surfaces_configured_ms: None,
        all_surfaces_configured_us: None,
        session_locked_ms: None,
        session_locked_us: None,
        first_frame_ms: None,
        first_frame_us: None,
        ready_notified_ms: None,
        ready_notified_us: None,
        surface_count: 0,
    }
}

pub open spec fn first_timing(startup_started_at: Moment, latency_report: LatencyReportMode) -> TimingState {
    TimingState {
        startup_started_at,
        latency_report,
        latency: blank_report(),
        first_surface_configured_logged: false,
        first_surface_configured_at: None,
        all_surfaces_configured_logged: false,
        all_surfaces_configured_at: None,
        first_frame_committed_at: None,
    }
}

fn new_background(
    emergency: bool,
    config: &BackgroundConfig,
    slideshow: bool,
    theme_color: ClearColor,
) -> (background: BackgroundState)
    ensures
        background == first_background(emergency, *config, slideshow, theme_color),
{
    if emergency {
        BackgroundState {
            slideshow_active: false,
            generated: None,
            treatment: BackgroundTreatment::default(),
            color: emergency_background(),
            render_started: false,
        }
    } else {
        BackgroundState {
            slideshow_active: slideshow,
            generated: background_generated(config),
            treatment: background_treatment(config),
            color: theme_color,
            render_started: false,
        }
    }
}

fn new_outputs(emergency: bool, config: &AppConfig) -> (outputs: OutputsState)
    ensures
        outputs == first_outputs(emergency, *config),
{
    let delay = match config.lock.screen_off_seconds {
        Some(seconds) if seconds > 0 => Some(Span::from_secs(seconds)),
        _ => None,
    };
    OutputsState {
        ui_output_mode: if emergency {
            OutputUiMode::All
        } else {
            config.visuals.output_ui_mode
        },
        hide_cursor: config.lock.hide_cursor,
        power_off_secondary_outputs: !emergency && config.lock.power_off_secondary_outputs,
        secondary_outputs_powered_off: false,
        screen_off: ScreenOffState::new(delay),
        focused_surface_index: None,
    }
}

fn new_lock(config: &LockConfig, now: Moment) -> (lock: LockState)
    ensures
        lock == first_lock(*config, now),
{
    let seconds: u64 = if config.acquire_timeout_seconds < 1 {
        1
    } else {
        config.acquire_timeout_seconds
    };
    LockState {
        wait_timeout: Span::from_secs(seconds),
        started_at: now,
        acquisition_started: false,
        has_session_lock: false,
        session_locked: false,
        session_locked_at: None,
        session_finished: false,
        exit_requested: false,
        unlock_authorized: false,
        ready_notified: false,
    }
}

fn new_timing(startup_started_at: Moment, latency_report: LatencyReportMode) -> (timing: TimingState)
    ensures
        timing == first_timing(startup_started_at, latency_report),
{
    TimingState {
        startup_started_at,
        latency_report,
        latency: new_report(),
        first_surface_configured_logged: false,
        first_surface_configured_at: None,
        all_surfaces_configured_logged: false,
        all_surfaces_configured_at: None,
        first_frame_committed_at: None,
    }
}

/// A shell that has switched to the plain lock screen where it has to.
pub open spec fn first_shell(emergency: bool, shell: ShellModel) -> ShellModel {
    if emergency {
        ShellModel { core: shell::emergency_core(shell.core), ..shell }
    } else {
        shell
    }
}

/// Whether `app` is the curtain as it is before anything has happened.
pub open spec fn is_fresh(
    app: CurtainModel,
    options: CurtainOptions,
    startup: StartupConfig,
    slideshow_path: Option<FilePath>,
    shell: ShellModel,
    startup_started_at: Moment,
    now: Moment,
) -> bool {
    let emergency = startup.emergency_active;
    let config = startup.loaded.config;
    &&& app.background == first_background(
        emergency,
        config.background,
        slideshow_path is Some,
        shell.core.theme.background,
    )
    &&& app.outputs == first_outputs(emergency, config)
    &&& app.lock == first_lock(config.lock, now)
    &&& app.attempt == (AttemptState {
        allow_empty_password: config.lock.allow_empty_password,
        in_flight: false,
        accepted_at: None,
        next_attempt_id: 1,
    })
    &&& app.redraw == (RedrawState {
        pending_pre_ready: false,
        pending_deferred: false,
        post_ready_nonfirst_renders: 0,
        post_ready_memory_logged: false,
    })
    &&& app.timing == first_timing(startup_started_at, options.latency_report)
    &&& app.input == (InputState {
        has_keyboard_focus: false,
        ctrl_active: false,
        active_keyboard_layout: 0,
        wake_key_release_pending: false,
        wake_pointer_release_pending: false,
    })
    &&& app.widgets == (WidgetState {
        weather_snapshot: options.weather_snapshot,
        battery_snapshot: options.battery_snapshot,
        remote_power_status: None,
        avatar_load_started: false,
    })
    &&& app.paths.notify_socket == options.notify_socket
    &&& app.paths.daemon_socket == options.daemon_socket
    &&& app.paths.control_socket == options.control_socket
    &&& app.paths.config_path == options.config_path
    &&& surface::optional_path(app.paths.avatar_path) == match config.visuals.avatar_image_path {
        Some(path) => Some(path@),
        None => surface::optional_path(config.lock.avatar_path),
    }
    &&& app.surfaces.len() == 0
    &&& app.shell == first_shell(emergency, shell)
    &&& app.background_path == surface::optional_path(
        first_wallpaper(
            emergency,
            options.initial_background_path,
            slideshow_path,
            config.background.path,
        ),
    )
    &&& app.background_outputs == if emergency {
        Seq::empty()
    } else {
        config.background.outputs@
    }
    &&& app.transition is None
    &&& app.ui_output_name == if emergency {
        None
    } else {
        settings::viewed_text(config.visuals.ui_output_name)
    }
    &&& app.now_playing_snapshot == options.now_playing_snapshot
    &&& app.keyboard_layout_labels@.len() == 0
    &&& app.failure_reason is None
}

fn new_wallpaper(
    emergency: bool,
    initial: Option<FilePath>,
    slideshow: Option<FilePath>,
    configured: Option<FilePath>,
) -> (path: Option<FilePath>)
    ensures
        path == first_wallpaper(emergency, initial, slideshow, configured),
{
    if emergency {
        return None;
    }
    match initial {
        Some(path) => Some(path),
        None => match slideshow {
            Some(path) => Some(path),
            None => configured,
        },
    }
}

fn new_shell(emergency: bool, shell: ShellState) -> (result: ShellState)
    ensures
        result@ == first_shell(emergency, shell@),
{
    let mut shell = shell;
    if emergency {
        shell.activate_emergency();
    }
    shell
}

fn avatar_of(config: &AppConfig) -> (path: Option<FilePath>)
    ensures
        surface::optional_path(path) == match config.visuals.avatar_image_path {
            Some(path) => Some(path@),
            None => surface::optional_path(config.lock.avatar_path),
        },
{
    match config.avatar_image_path() {
        Some(path) => Some(path.clone()),
        None => None,
    }
}

impl CurtainApp {
    /// The curtain before anything has happened. `slideshow_path` is the picture a slideshow
    /// begins with, where there is one.
    pub fn new(
        options: CurtainOptions,
        startup: StartupConfig,
        slideshow_path: Option<FilePath>,
        ui_shell: ShellState,
        startup_started_at: Moment,
        now: Moment,
    ) -> (app: Self)
        ensures
            app.wf(),
            is_fresh(
                app@,
                options,
                startup,
                slideshow_path,
                ui_shell@,
                startup_started_at,
                now,
            ),
    {
        let emergency = startup.emergency_active;
        let config = startup.loaded.config;
        let avatar_path = avatar_of(&config);
        let outputs = new_outputs(emergency, &config);
        let background = new_background(
            emergency,
            &config.background,
            slideshow_path.is_some(),
            ui_shell.core.theme.background,
        );
        let lock = new_lock(&config.lock, now);
        let allow_empty_password = config.lock.allow_empty_password;
        let background_path = new_wallpaper(
            emergency,
            options.initial_background_path,
            slideshow_path,
            config.background.path,
        );
        let app = CurtainApp {
            background,
            outputs,
            lock,
            attempt: AttemptState {
                allow_empty_password,
                in_flight: false,
                accepted_at: None,
                next_attempt_id: 1,
            },
            redraw: RedrawState {
                pending_pre_ready: false,
                pending_deferred: false,
                post_ready_nonfirst_renders: 0,
                post_ready_memory_logged: false,
            },
            timing: new_timing(startup_started_at, options.latency_report),
            input: InputState {
                has_keyboard_focus: false,
                ctrl_active: false,
                active_keyboard_layout: 0,
                wake_key_release_pending: false,
                wake_pointer_release_pending: false,
            },
            widgets: WidgetState {
                weather_snapshot: options.weather_snapshot,
                battery_snapshot: options.battery_snapshot,
                remote_power_status: None,
                avatar_load_started: false,
            },
            paths: CurtainPaths {
                notify_socket: options.notify_socket,
                daemon_socket: options.daemon_socket,
                control_socket: options.control_socket,
                config_path: options.config_path,
                avatar_path,
            },
            lock_surfaces: Vec::new(),
            ui_shell: new_shell(emergency, ui_shell),
            background_path,
            background_outputs: if emergency {
                Vec::new()
            } else {
                config.background.outputs
            },
            slideshow_transition: None,
            ui_output_name: if emergency {
                None
            } else {
                config.visuals.ui_output_name
            },
            now_playing_snapshot: options.now_playing_snapshot,
            keyboard_layout_labels: Vec::new(),
            failure_reason: None,
        };
        app
    }

    pub fn failure_reason(&self) -> (reason: Option<&str>)
        ensures
            match (reason, self@.failure_reason) {
                (Some(reason), Some(words)) => reason@ == words,
                (None, None) => true,
                _ => false,
            },
    {
        match &self.failure_reason {
            Some(reason) => Some(reason.as_str()),
            None => None,
        }
    }

    /// The compositor was asked to lock the session.
    pub fn lock_requested(&mut self, now: Moment)
        ensures
            final(self)@ == lock_asked(old(self)@, now),
            old(self).wf() ==> final(self).wf(),
    {
        self.lock.has_session_lock = true;
        self.lock.started_at = now;
        self.lock.acquisition_started = true;
    }

    /// Whether an output is to be covered: while the session is locked, once.
    pub fn wants_surface(&self, output: u32) -> (wanted: bool)
        ensures
            wanted == (state::output_index(self@.surfaces, output) is None
                && self.lock.has_session_lock),
    {
        self.output_surface_index(output).is_none() && self.lock.has_session_lock
    }

    /// Takes a new surface in, and tells whether its output is to go dark at once.
    pub fn add_surface(&mut self, new: ManagedLockSurface) -> (power_off: bool)
        requires
            old(self).wf(),
            new.wf(),
        ensures
            final(self).wf(),
            final(self)@ == with_new_surface(old(self)@, new@),
            power_off == (new@.state.has_output_power && (old(self).outputs.screen_off.powered_off
                || (old(self).outputs.secondary_outputs_powered_off && state::role_of(
                final(self)@,
                old(self)@.surfaces.len() as int,
            ) == OutputRole::SecondaryCurtain))),
    {
        let has_power = new.state.has_output_power;
        let index: usize = self.lock_surfaces.len();
        self.lock_surfaces.push(new);
        self.background.render_started = false;
        proof {
            assert(self@.surfaces =~= old(self)@.surfaces.push(new@));
            assert forall|i: int| 0 <= i < self.lock_surfaces@.len() implies (
            #[trigger] self.lock_surfaces@[i]).wf() by {
                if i < old(self).lock_surfaces@.len() {
                    assert(old(self).lock_surfaces@[i].wf());
                }
            }
        }
        if !has_power {
            return false;
        }
        if self.outputs.screen_off.powered_off {
            return true;
        }
        self.outputs.secondary_outputs_powered_off && !self.ui_visible_on_surface(index)
    }

    /// Notes how long the steps of the start took.
    pub fn record_startup(&mut self, times: StartupTimes)
        ensures
            final(self)@ == (CurtainModel {
                timing: TimingState {
                    latency: started_report(
                        old(self)@.timing.latency,
                        times,
                        old(self).lock_surfaces@.len() as usize,
                    ),
                    ..old(self)@.timing
                },
                ..old(self)@
            }),
            old(self).wf() ==> final(self).wf(),
    {
        let latency = self.timing.latency;
        self.timing.latency = with_startup(latency, times, self.lock_surfaces.len());
    }

    /// Switches to the plain lock screen and its background, and tells whether that is new. Once
    /// the background is prepared, every output shows it.
    pub fn activate_emergency_ui(&mut self) -> (activated: bool)
        requires
            old(self).wf(),
        ensures
            final(self).wf(),
            activated == (old(self)@.shell.core.mode != shell::ShellMode::Emergency),
            final(self)@ == if activated {
                emergency_begun(old(self)@)
            } else {
                old(self)@
            },
    {
        if self.ui_shell.emergency_active() {
            return false;
        }
        self.ui_shell.activate_emergency();
        self.background_path = None;
        self.background_outputs = Vec::new();
        self.slideshow_transition = None;
        self.background = BackgroundState {
            slideshow_active: false,
            generated: None,
            treatment: BackgroundTreatment::default(),
            color: emergency_background(),
            render_started: self.background.render_started,
        };
        assert(self@.background_outputs =~= Seq::empty());
        true
    }

    /// The plain background is prepared: every output shows it, with the prompt. Tells whether
    /// dark outputs have to be woken.
    pub fn emergency_prepared(&mut self) -> (wake: bool)
        requires
            old(self).wf(),
        ensures
            final(self).wf(),
            wake == old(self).outputs.secondary_outputs_powered_off,
            final(self)@ == emergency_everywhere(old(self)@),
    {
        let wake = self.outputs.secondary_outputs_powered_off;
        self.outputs.ui_output_mode = OutputUiMode::All;
        self.ui_output_name = None;
        self.outputs.power_off_secondary_outputs = false;
        self.outputs.secondary_outputs_powered_off = false;
        self.redraw.pending_pre_ready = true;
        self.reset_all_surfaces();
        wake
    }

    /// Drops everything that was drawn for any surface.
    fn reset_all_surfaces(&mut self)
        ensures
            final(self)@ == (CurtainModel {
                surfaces: all_reset(old(self)@.surfaces),
                ..old(self)@
            }),
            old(self).wf() ==> final(self).wf(),
    {
        let ghost before = *self;
        let mut index: usize = 0;
        while index < self.lock_surfaces.len()
            invariant
                index <= self.lock_surfaces@.len(),
                self.lock_surfaces@.len() == before.lock_surfaces@.len(),
                self@ == (CurtainModel { surfaces: self@.surfaces, ..before@ }),
                self.slideshow_transition == before.slideshow_transition,
                forall|i: int|
                    0 <= i < index ==> (#[trigger] self.lock_surfaces@[i])@
                        == surface::surface_reset(before.lock_surfaces@[i]@)
                        && self.lock_surfaces@[i].wf(),
                forall|i: int|
                    index <= i < self.lock_surfaces@.len() ==> (#[trigger] self.lock_surfaces@[i])
                        == before.lock_surfaces@[i],
            decreases self.lock_surfaces@.len() - index,
        {
            self.lock_surfaces[index].reset_render_state();
            index += 1;
        }
        assert(self@.surfaces =~= all_reset(before@.surfaces));
    }
}

/// The curtain that waits for the session to be locked.
pub open spec fn lock_asked(model: CurtainModel, now: Moment) -> CurtainModel {
    CurtainModel {
        lock: LockState {
            has_session_lock: true,
            started_at: now,
            acquisition_started: true,
            ..model.lock
        },
        ..model
    }
}

pub open spec fn with_new_surface(model: CurtainModel, new: SurfaceModel) -> CurtainModel {
    CurtainModel {
        surfaces: model.surfaces.push(new),
        background: BackgroundState { render_started: false, ..model.background },
        ..model
    }
}

pub open spec fn all_reset(surfaces: Seq<SurfaceModel>) -> Seq<SurfaceModel> {
    surfaces.map_values(|entry: SurfaceModel| surface::surface_reset(entry))
}

/// The curtain that turns to the plain lock screen, before its background is prepared.
pub open spec fn emergency_begun(model: CurtainModel) -> CurtainModel {
    CurtainModel {
        background: BackgroundState {
            slideshow_active: false,
            generated: None,
            treatment: backdrop::untreated(),
            color: emergency_color(),
            render_started: model.background.render_started,
        },
        shell: ShellModel { core: shell::emergency_core(model.shell.core), ..model.shell },
        background_path: None,
        background_outputs: Seq::empty(),
        transition: None,
        ..model
    }
}

/// The curtain with the prompt on every output, every output lit and nothing drawn yet.
pub open spec fn emergency_everywhere(model: CurtainModel) -> CurtainModel {
    CurtainModel {
        outputs: OutputsState {
            ui_output_mode: OutputUiMode::All,
            power_off_secondary_outputs: false,
            secondary_outputs_powered_off: false,
            ..model.outputs
        },
        redraw: RedrawState { pending_pre_ready: true, ..model.redraw },
        surfaces: all_reset(model.surfaces),
        ui_output_name: None,
        ..model
    }
}

/// The curtain with the plain lock screen on every output and nothing drawn yet.
pub open spec fn in_emergency(model: CurtainModel) -> CurtainModel {
    emergency_everywhere(emergency_begun(model))
}

/// How long the steps of the start took, each in milliseconds and in microseconds.
#[derive(Debug, Clone, Copy, PartialEq, Eq)]
pub struct StartupTimes {
    pub wayland_connect: (u64, u64),
    pub registry: (u64, u64),
    pub event_loop: (u64, u64),
    pub app_init: (u64, u64),
    pub lock_request: (u64, u64),
    pub startup_prepared: (u64, u64),
}

pub open spec fn started_report(
    report: CurtainLatencyReport,
    times: StartupTimes,
    surfaces: usize,
) -> CurtainLatencyReport {
    CurtainLatencyReport {
        wayland_connect_ms: times.wayland_connect.0,
        wayland_connect_us: times.wayland_connect.1,
        registry_ms: times.registry.0,
        registry_us: times.registry.1,
        event_loop_ms: times.event_loop.0,
        event_loop_us: times.event_loop.1,
        app_init_ms: times.app_init.0,
        app_init_us: times.app_init.1,
        lock_request_ms: times.lock_request.0,
        lock_request_us: times.lock_request.1,
        startup_prepared_ms: times.startup_prepared.0,
        startup_prepared_us: times.startup_prepared.1,
        surface_count: surfaces,
        ..report
    }
}

fn with_startup(report: CurtainLatencyReport, times: StartupTimes, surfaces: usize) -> (started:
    CurtainLatencyReport)
    ensures
        started == started_report(report, times, surfaces),
{
    CurtainLatencyReport {
        wayland_connect_ms: times.wayland_connect.0,
        wayland_connect_us: times.wayland_connect.1,
        registry_ms: times.registry.0,
        registry_us: times.registry.1,
        event_loop_ms: times.event_loop.0,
        event_loop_us: times.event_loop.1,
        app_init_ms: times.app_init.0,
        app_init_us: times.app_init.1,
        lock_request_ms: times.lock_request.0,
        lock_request_us: times.lock_request.1,
        startup_prepared_ms: times.startup_prepared.0,
        startup_prepared_us: times.startup_prepared.1,
        surface_count: surfaces,
        ..report
    }
}

/// What to do while waiting for the compositor to name its outputs.
#[derive(Debug, Clone, Copy, PartialEq, Eq, Structural)]
pub enum OutputWait {
    Ready,
    AskAgain,
    GiveUp,
}

pub const MAX_OUTPUT_ATTEMPTS: usize = 100;

/// Whether to ask the compositor once more for its outputs.
pub fn wait_for_outputs(attempt: usize, outputs: usize) -> (wait: OutputWait)
    ensures
        wait == if attempt >= MAX_OUTPUT_ATTEMPTS {
            OutputWait::GiveUp
        } else if outputs > 0 {
            OutputWait::Ready
        } else {
            OutputWait::AskAgain
        },
{
    if attempt >= MAX_OUTPUT_ATTEMPTS {
        OutputWait::GiveUp
    } else if outputs > 0 {
        OutputWait::Ready
    } else {
        OutputWait::AskAgain
    }
}

/// The plain lock screen is shown on every output, with the prompt, and on nothing but its own
/// background.
pub proof fn law_emergency_shows_the_prompt_everywhere(model: CurtainModel, index: int)
    requires
        0 <= index < model.surfaces.len(),
    ensures
        state::role_of(in_emergency(model), index) == OutputRole::PrimaryPrompt,
        state::wallpaper_of(in_emergency(model), index) is None,
        in_emergency(model).surfaces[index].scene_base is None,
        in_emergency(model).lock == model.lock,
{
    let after = in_emergency(model);
    if let Some(name) = surface::details_name(after.surfaces[index].details) {
        assert(state::output_wallpaper(after.background_outputs, name) is None);
    }
}

/// A curtain that just started has authorized nothing and waits for nobody.
pub proof fn law_fresh_curtain_is_locked_down(
    app: CurtainModel,
    options: CurtainOptions,
    startup: StartupConfig,
    slideshow_path: Option<FilePath>,
    shell: ShellModel,
    startup_started_at: Moment,
    now: Moment,
)
    requires
        is_fresh(app, options, startup, slideshow_path, shell, startup_started_at, now),
    ensures
        !app.lock.unlock_authorized,
        !state::may_stop(app),
        !state::deadline_missed(app, now),
        app.lock.wait_timeout.nanos >= time::NANOS_PER_SECOND,
{
    let seconds = startup.loaded.config.lock.acquire_timeout_seconds;
    assert(seconds >= 1 ==> seconds * time::NANOS_PER_SECOND >= time::NANOS_PER_SECOND);
}

/// A curtain that just started follows its options and its configuration: it shows the wallpaper
/// it was started with before that of a slideshow before the configured one, waits for the lock as
/// long as is set, at least a second, and knows its partners.
pub proof fn law_fresh_curtain_follows_its_configuration(
    app: CurtainModel,
    options: CurtainOptions,
    startup: StartupConfig,
    slideshow_path: Option<FilePath>,
    shell: ShellModel,
    startup_started_at: Moment,
    now: Moment,
)
    requires
        is_fresh(app, options, startup, slideshow_path, shell, startup_started_at, now),
        !startup.emergency_active,
    ensures
        ({
            let config = startup.loaded.config;
            let seconds = config.lock.acquire_timeout_seconds;
            &&& app.background_path == if options.initial_background_path is Some {
                Some(options.initial_background_path->0@)
            } else if slideshow_path is Some {
                Some(slideshow_path->0@)
            } else if config.background.path is Some {
                Some(config.background.path->0@)
            } else {
                None
            }
            &&& app.background.slideshow_active == slideshow_path is Some
            &&& app.background_outputs == config.background.outputs@
            &&& seconds >= 1 ==> app.lock.wait_timeout.nanos == seconds * 1_000_000_000
            &&& seconds < 1 ==> app.lock.wait_timeout.nanos == 1_000_000_000
            &&& app.outputs.ui_output_mode == config.visuals.output_ui_mode
            &&& app.outputs.hide_cursor == config.lock.hide_cursor
            &&& app.outputs.power_off_secondary_outputs == config.lock.power_off_secondary_outputs
            &&& match config.lock.screen_off_seconds {
                Some(seconds) => if seconds > 0 {
                    app.outputs.screen_off.delay matches Some(delay) && delay.nanos == seconds
                        * 1_000_000_000
                } else {
                    app.outputs.screen_off.delay is None
                },
                None => app.outputs.screen_off.delay is None,
            }
            &&& app.attempt.allow_empty_password == config.lock.allow_empty_password
            &&& !app.attempt.in_flight && app.attempt.next_attempt_id == 1
            &&& app.paths.daemon_socket == options.daemon_socket
            &&& app.paths.control_socket == options.control_socket
            &&& app.paths.notify_socket == options.notify_socket
            &&& app.shell == shell
            &&& app.widgets.weather_snapshot == options.weather_snapshot
            &&& app.widgets.battery_snapshot == options.battery_snapshot
            &&& app.now_playing_snapshot == options.now_playing_snapshot
            &&& app.background.color == shell.core.theme.background
            &&& app.timing.latency_report == options.latency_report
            &&& !app.lock.session_locked && !app.lock.has_session_lock && !app.lock.exit_requested
        }),
{
}

/// A curtain that starts in an emergency shows the plain lock screen on every output, on its own
/// background alone, and lights every output, whatever is configured.
pub proof fn law_emergency_start_is_plain(
    app: CurtainModel,
    options: CurtainOptions,
    startup: StartupConfig,
    slideshow_path: Option<FilePath>,
    shell: ShellModel,
    startup_started_at: Moment,
    now: Moment,
)
    requires
        is_fresh(app, options, startup, slideshow_path, shell, startup_started_at, now),
        startup.emergency_active,
    ensures
        app.shell.core.mode == shell::ShellMode::Emergency,
        app.shell.secret == shell.secret,
        app.background_path is None,
        app.background_outputs.len() == 0,
        !app.background.slideshow_active,
        app.background.generated is None,
        app.outputs.ui_output_mode == OutputUiMode::All,
        !app.outputs.power_off_secondary_outputs,
        app.ui_output_name is None,
        app.paths.daemon_socket == options.daemon_socket,
        app.paths.control_socket == options.control_socket,
{
}

/// Asking for the lock starts the wait for it and nothing else; a new surface is added behind the
/// others and has wallpapers rendered again.
pub proof fn law_lock_is_asked_for_once(model: CurtainModel, new: SurfaceModel, now: Moment)
    ensures
        ({
            let asked = lock_asked(model, now);
            let grown = with_new_surface(model, new);
            &&& asked.lock.has_session_lock && asked.lock.acquisition_started
                && asked.lock.started_at == now
            &&& asked.lock.session_locked == model.lock.session_locked
            &&& asked.lock.unlock_authorized == model.lock.unlock_authorized
            &&& asked.surfaces == model.surfaces && asked.shell == model.shell
            &&& grown.surfaces.len() == model.surfaces.len() + 1
            &&& grown.surfaces.last() == new
            &&& forall|i: int|
                0 <= i < model.surfaces.len() ==> grown.surfaces[i] == model.surfaces[i]
            &&& !grown.background.render_started
            &&& grown.lock == model.lock && grown.shell == model.shell
        }),
{
}

/// The report of a start holds the times of its steps, each under its own name.
pub proof fn law_startup_times_are_kept_apart(
    report: CurtainLatencyReport,
    times: StartupTimes,
    surfaces: usize,
)
    ensures
        ({
            let after = started_report(report, times, surfaces);
            &&& (after.wayland_connect_ms, after.wayland_connect_us) == times.wayland_connect
            &&& (after.registry_ms, after.registry_us) == times.registry
            &&& (after.event_loop_ms, after.event_loop_us) == times.event_loop
            &&& (after.app_init_ms, after.app_init_us) == times.app_init
            &&& (after.lock_request_ms, after.lock_request_us) == times.lock_request
            &&& (after.startup_prepared_ms, after.startup_prepared_us) == times.startup_prepared
            &&& after.surface_count == surfaces
            &&& after.first_frame_ms == report.first_frame_ms
            &&& after.ready_notified_ms == report.ready_notified_ms
        }),
{
}

/// Turning to the plain lock screen drops wallpapers, slideshow and crossfade at once, keeps what
/// was typed and the lock as it is, and has everything drawn anew: on every output, all of them
/// lit, with nothing left of what was drawn.
pub proof fn law_emergency_drops_what_may_fail(model: CurtainModel, index: int)
    requires
        0 <= index < model.surfaces.len(),
    ensures
        ({
            let begun = emergency_begun(model);
            let done = emergency_everywhere(begun);
            let entry = done.surfaces[index];
            &&& begun.shell.core.mode == shell::ShellMode::Emergency
            &&& begun.shell.secret == model.shell.secret
            &&& begun.background_path is None && begun.background_outputs.len() == 0
                && begun.transition is None
            &&& !begun.background.slideshow_active && begun.background.generated is None
            &&& begun.background.treatment.blur_radius == 0
                && begun.background.treatment.dim_strength == 0
                && begun.background.treatment.tint is None
            &&& begun.background.color.red == 12 && begun.background.color.green == 14
                && begun.background.color.blue == 18 && begun.background.color.alpha == 255
            &&& begun.surfaces == model.surfaces
            &&& done.lock == model.lock && done.failure_reason == model.failure_reason
            &&& done.outputs.ui_output_mode == OutputUiMode::All && done.ui_output_name is None
            &&& !done.outputs.power_off_secondary_outputs
                && !done.outputs.secondary_outputs_powered_off
            &&& done.redraw.pending_pre_ready
            &&& done.surfaces.len() == model.surfaces.len()
            &&& entry.background is None && entry.scene_base is None && entry.pool is None
            &&& entry.state.surface == model.surfaces[index].state.surface && entry.state.size
                == model.surfaces[index].state.size
        }),
{
}

} // verus!
