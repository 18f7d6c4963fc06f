//! Showing frames, and what is done where one cannot be shown.

use crate::common::ipc::CurtainLatencyReport;
use crate::common::text;
use crate::common::time;
use crate::common::time::{duration_ms, duration_us, Moment};
use crate::curtain::prepare;
use crate::curtain::prepare::{CommitKind, CommitPlan, RenderFailure, SceneVariants, StepModel};
use crate::curtain::redraw;
use crate::curtain::render;
use crate::curtain::slideshow;
use crate::curtain::startup;
use crate::curtain::state;
use crate::curtain::state::{CurtainApp, CurtainModel, RedrawState, TimingState};
use crate::curtain::surface;
use crate::curtain::surface::{Picture, SurfaceModel, SurfaceSize};
use crate::renderer::buffer::{PixelBuffer, SoftwareBuffer};
use crate::renderer::copy::copy_rect_from;
use crate::renderer::crossfade;
use crate::renderer::crossfade::crossfade_buffers_into;
use crate::renderer::frame;
use crate::renderer::frame::{FrameSize, RendererError};
use crate::renderer::shape::Rect;
use crate::ui::shell;
use vstd::prelude::*;

verus! {

pub const SLOTS_BUSY: &'static str = "buffer slots are still in use by the compositor";

pub const NO_SCENE: &'static str = "scene base buffer is unavailable";

pub const NO_BACKGROUND: &'static str = "background buffer is unavailable";

pub const SIZE_MISMATCH: &'static str = "buffer size mismatch";

pub const NO_CROSSFADE: &'static str = "failed to render crossfaded slideshow frame";

/// The message for a failure to draw a surface.
pub open spec fn failure_text(failure: RenderFailure) -> Seq<char> {
    match failure {
        RenderFailure::Untracked => "session-lock surface is no longer tracked"@,
        RenderFailure::BackgroundUnavailable => NO_BACKGROUND@,
        RenderFailure::BackgroundAsset(error) => "failed to render background asset: "@ + error@,
        RenderFailure::Pool(error) => frame::renderer_error_text(error),
        RenderFailure::Commit(error) => "failed to render and commit software buffer: "@
            + frame::renderer_error_text(error),
        RenderFailure::CommitBackground(error) => "failed to commit software buffer: "@
            + frame::renderer_error_text(error),
        RenderFailure::CrossfadeBackground(error) => "failed to commit crossfaded background: "@
            + frame::renderer_error_text(error),
        RenderFailure::Crossfade(error) => "failed to render crossfaded slideshow frame: "@
            + frame::renderer_error_text(error),
        RenderFailure::AuthDirty(error) => "failed to render and commit auth dirty region: "@
            + frame::renderer_error_text(error),
        RenderFailure::EmergencyBackground(error) =>
            "failed to prepare emergency fallback background: "@ + error@,
    }
}

/// Whether a frame only has to wait until the compositor is done with an older one.
pub open spec fn slots_are_busy(failure: RenderFailure) -> bool {
    failure == RenderFailure::Pool(RendererError::BufferSlotsBusy) || text::holds_words(
        failure_text(failure),
        SLOTS_BUSY@,
    )
}

/// Whether drawing from scratch may help.
pub open spec fn rebuilding_may_help(failure: RenderFailure) -> bool {
    match failure {
        RenderFailure::Pool(error) => error is BufferSizeMismatch || error is InvalidFrameSize,
        _ => {
            let message = failure_text(failure);
            text::holds_words(message, NO_SCENE@) || text::holds_words(message, NO_BACKGROUND@)
                || text::holds_words(message, SIZE_MISMATCH@) || text::holds_words(
                message,
                NO_CROSSFADE@,
            )
        },
    }
}

impl RenderFailure {
    pub fn to_string(&self) -> (message: String)
        ensures
            message@ == failure_text(*self),
    {
        match self {
            RenderFailure::Untracked => "session-lock surface is no longer tracked".to_owned(),
            RenderFailure::BackgroundUnavailable => NO_BACKGROUND.to_owned(),
            RenderFailure::BackgroundAsset(error) => text::joined(
                "failed to render background asset: ",
                error.as_str(),
            ),
            RenderFailure::Pool(error) => error.to_string(),
            RenderFailure::Commit(error) => text::joined(
                "failed to render and commit software buffer: ",
                error.to_string().as_str(),
            ),
            RenderFailure::CommitBackground(error) => text::joined(
                "failed to commit software buffer: ",
                error.to_string().as_str(),
            ),
            RenderFailure::CrossfadeBackground(error) => text::joined(
                "failed to commit crossfaded background: ",
                error.to_string().as_str(),
            ),
            RenderFailure::Crossfade(error) => text::joined(
                "failed to render crossfaded slideshow frame: ",
                error.to_string().as_str(),
            ),
            RenderFailure::AuthDirty(error) => text::joined(
                "failed to render and commit auth dirty region: ",
                error.to_string().as_str(),
            ),
            RenderFailure::EmergencyBackground(error) => text::joined(
                "failed to prepare emergency fallback background: ",
                error.as_str(),
            ),
        }
    }

    pub fn is_buffer_slots_busy(&self) -> (busy: bool)
        ensures
            busy == slots_are_busy(*self),
    {
        if let RenderFailure::Pool(RendererError::BufferSlotsBusy) = self {
            return true;
        }
        text::contains_words(self.to_string().as_str(), SLOTS_BUSY)
    }

    pub fn is_recoverable_scene_error(&self) -> (recoverable: bool)
        ensures
            recoverable == rebuilding_may_help(*self),
    {
        if let RenderFailure::Pool(error) = self {
            return matches!(
                error,
                RendererError::BufferSizeMismatch { .. } | RendererError::InvalidFrameSize(_)
            );
        }
        let message = self.to_string();
        text::contains_words(message.as_str(), NO_SCENE) || text::contains_words(
            message.as_str(),
            NO_BACKGROUND,
        ) || text::contains_words(message.as_str(), SIZE_MISMATCH) || text::contains_words(
            message.as_str(),
            NO_CROSSFADE,
        )
    }
}

/// Which attempt to draw a surface this is.
#[derive(Debug, Clone, Copy, PartialEq, Eq, Structural)]
pub enum RenderAttempt {
    First,
    /// Everything drawn for the surface was dropped first.
    AfterRebuild,
    /// The plain lock screen is drawn.
    Emergency,
}

/// What follows an attempt to draw a surface.
#[derive(Debug)]
pub enum RenderVerdict {
    Done,
    /// Draw the surface again.
    Retry(RenderAttempt),
    /// Prepare the plain background, then draw the surface again.
    Emergency,
    Failed(RenderFailure),
}

pub open spec fn waiting_for_slots(model: CurtainModel) -> CurtainModel {
    CurtainModel { redraw: RedrawState { pending_deferred: true, ..model.redraw }, ..model }
}

/// The curtain without a crossfade and with nothing drawn for one surface, if that is there.
pub open spec fn rebuilding(model: CurtainModel, surface: u32) -> CurtainModel {
    match state::tracked_index(model.surfaces, surface) {
        Some(index) => render::rebuilt(model, index),
        None => CurtainModel { transition: None, ..model },
    }
}

/// The curtain falls back to the plain lock screen, if it does not show that yet.
pub open spec fn falling_back(model: CurtainModel) -> (CurtainModel, RenderVerdict) {
    if model.shell.core.mode == shell::ShellMode::Emergency {
        (model, RenderVerdict::Retry(RenderAttempt::Emergency))
    } else {
        (startup::emergency_begun(model), RenderVerdict::Emergency)
    }
}

/// What follows an attempt to draw a surface: a frame that has to wait is put off; where drawing
/// from scratch may help it is tried once; else the plain lock screen is shown; and where even
/// that fails there is nothing left.
pub open spec fn verdict(
    model: CurtainModel,
    attempt: RenderAttempt,
    surface: u32,
    result: Result<(), RenderFailure>,
) -> (CurtainModel, RenderVerdict) {
    match result {
        Ok(()) => (model, RenderVerdict::Done),
        Err(failure) => match attempt {
            RenderAttempt::First => if slots_are_busy(failure) {
                (waiting_for_slots(model), RenderVerdict::Done)
            } else if model.shell.core.mode == shell::ShellMode::Emergency {
                (model, RenderVerdict::Failed(failure))
            } else if rebuilding_may_help(failure) {
                (rebuilding(model, surface), RenderVerdict::Retry(RenderAttempt::AfterRebuild))
            } else {
                falling_back(model)
            },
            RenderAttempt::AfterRebuild => falling_back(model),
            RenderAttempt::Emergency => (model, RenderVerdict::Failed(failure)),
        },
    }
}

impl CurtainApp {
    fn fall_back(&mut self) -> (verdict: RenderVerdict)
        requires
            old(self).wf(),
        ensures
            final(self).wf(),
            falling_back(old(self)@) == (final(self)@, verdict),
    {
        if self.activate_emergency_ui() {
            RenderVerdict::Emergency
        } else {
            RenderVerdict::Retry(RenderAttempt::Emergency)
        }
    }

    /// Decides what follows an attempt to draw a surface.
    pub fn settle_render(
        &mut self,
        attempt: RenderAttempt,
        surface: u32,
        result: core::result::Result<(), RenderFailure>,
    ) -> (next: RenderVerdict)
        requires
            old(self).wf(),
        ensures
            final(self).wf(),
            verdict(old(self)@, attempt, surface, result) == (final(self)@, next),
    {
        let failure = match result {
            Ok(()) => {
                return RenderVerdict::Done;
            },
            Err(failure) => failure,
        };
        match attempt {
            RenderAttempt::First => {
                if failure.is_buffer_slots_busy() {
                    self.redraw.pending_deferred = true;
                    return RenderVerdict::Done;
                }
                if self.ui_shell.emergency_active() {
                    return RenderVerdict::Failed(failure);
                }
                if !failure.is_recoverable_scene_error() {
                    return self.fall_back();
                }
                proof {
                    state::lemma_first_surface(
                        self@.surfaces,
                        |entry: SurfaceModel| entry.state.surface == surface,
                    );
                }
                match self.surface_index(surface) {
                    Some(index) => {
                        self.rebuild_surface(index);
                    },
                    None => {
                        self.slideshow_transition = None;
                    },
                }
                RenderVerdict::Retry(RenderAttempt::AfterRebuild)
            },
            RenderAttempt::AfterRebuild => self.fall_back(),
            RenderAttempt::Emergency => RenderVerdict::Failed(failure),
        }
    }
}

/// The failure that an error while showing a frame is reported as.
pub open spec fn commit_failure(kind: CommitKind, error: RendererError) -> RenderFailure {
    match kind {
        CommitKind::Scene => RenderFailure::Commit(error),
        CommitKind::Background => RenderFailure::CommitBackground(error),
        CommitKind::Crossfade { progress: _, shell } => if shell {
            RenderFailure::Crossfade(error)
        } else {
            RenderFailure::CrossfadeBackground(error)
        },
    }
}

/// The curtain without the shared memory that a frame was planned for; a wallpaper that was to be
/// shown alone is given up with it.
pub open spec fn without_pool(model: CurtainModel, plan: CommitPlan) -> CurtainModel {
    let index = plan.index as int;
    let entry = model.surfaces[index];
    prepare::with_surface(
        model,
        index,
        SurfaceModel {
            pool: None,
            background: if plan.kind == CommitKind::Background {
                None
            } else {
                entry.background
            },
            ..entry
        },
    )
}

/// The report with the time at which the first frame was shown.
pub open spec fn first_frame_report(
    report: CurtainLatencyReport,
    started_at: Moment,
    now: Moment,
) -> CurtainLatencyReport {
    let elapsed = time::span_between(started_at, now);
    CurtainLatencyReport {
        first_frame_ms: Some(time::saturating_units(elapsed, 1_000_000) as u64),
        first_frame_us: Some(time::saturating_units(elapsed, 1_000) as u64),
        ..report
    }
}

fn with_first_frame(report: CurtainLatencyReport, started_at: Moment, now: Moment) -> (result:
    CurtainLatencyReport)
    ensures
        result == first_frame_report(report, started_at, now),
{
    let elapsed = now.saturating_since(started_at);
    CurtainLatencyReport {
        first_frame_ms: Some(duration_ms(elapsed)),
        first_frame_us: Some(duration_us(elapsed)),
        ..report
    }
}

/// The curtain after the first frame of a surface was shown. Only the very first one counts.
pub open spec fn first_frame_noted(model: CurtainModel, first_frame: bool, now: Moment) -> CurtainModel {
    if !first_frame || model.timing.first_frame_committed_at is Some {
        model
    } else {
        CurtainModel {
            timing: TimingState {
                first_frame_committed_at: Some(now),
                latency: first_frame_report(
                    model.timing.latency,
                    model.timing.startup_started_at,
                    now,
                ),
                ..model.timing
            },
            ..model
        }
    }
}

impl CurtainApp {
    fn note_first_frame_committed(&mut self, first_frame: bool, now: Moment)
        ensures
            final(self)@ == first_frame_noted(old(self)@, first_frame, now),
            old(self).wf() ==> final(self).wf(),
    {
        if !first_frame || self.timing.first_frame_committed_at.is_some() {
            return;
        }
        let timing = self.timing;
        self.timing = TimingState {
            first_frame_committed_at: Some(now),
            latency: with_first_frame(timing.latency, timing.startup_started_at, now),
            ..timing
        };
    }

    /// A frame was shown, or could not be.
    pub fn commit_finished(
        &mut self,
        plan: CommitPlan,
        result: core::result::Result<(), RendererError>,
        now: Moment,
    ) -> (outcome: core::result::Result<(), RenderFailure>)
        ensures
            match result {
                Ok(()) => outcome is Ok && final(self)@ == if plan.kind is Crossfade {
                    old(self)@
                } else {
                    first_frame_noted(old(self)@, plan.first_frame, now)
                },
                Err(error) => outcome == Err::<(), RenderFailure>(
                    commit_failure(plan.kind, error),
                ) && final(self)@ == old(self)@,
            },
            old(self).wf() ==> final(self).wf(),
    {
        match result {
            Ok(()) => {
                if !matches!(plan.kind, CommitKind::Crossfade { .. }) {
                    self.note_first_frame_committed(plan.first_frame, now);
                }
                Ok(())
            },
            Err(error) => Err(
                match plan.kind {
                    CommitKind::Scene => RenderFailure::Commit(error),
                    CommitKind::Background => RenderFailure::CommitBackground(error),
                    CommitKind::Crossfade { progress: _, shell } => if shell {
                        RenderFailure::Crossfade(error)
                    } else {
                        RenderFailure::CrossfadeBackground(error)
                    },
                },
            ),
        }
    }

    /// The shared memory for a surface's frames could not be had.
    pub fn pool_failed(&mut self, plan: CommitPlan, error: RendererError) -> (failure:
        RenderFailure)
        requires
            old(self).wf(),
            plan.index < old(self).lock_surfaces@.len(),
        ensures
            final(self).wf(),
            failure == RenderFailure::Pool(error),
            final(self)@ == without_pool(old(self)@, plan),
    {
        let ghost before = *self;
        assert(self.lock_surfaces@[plan.index as int].wf());
        self.lock_surfaces[plan.index].shm_pool = None;
        proof {
            state::lemma_surface_changed(
                before.lock_surfaces@,
                self.lock_surfaces@,
                plan.index as int,
            );
        }
        if let CommitKind::Background = plan.kind {
            self.drop_background(plan.index);
        }
        assert(self@.surfaces =~= without_pool(before@, plan).surfaces);
        RenderFailure::Pool(error)
    }

    /// The size a viewport scales a surface to, where it does.
    pub fn viewport_destination(&self, index: usize, size: SurfaceSize) -> (destination: Option<
        (i32, i32),
    >)
        requires
            index < self.lock_surfaces@.len(),
        ensures
            destination == if self@.surfaces[index as int].state.has_viewport
                && size.fractional_scale is Some {
                Some((size.logical_width as i32, size.logical_height as i32))
            } else {
                None
            },
    {
        if self.lock_surfaces[index].state.has_viewport && size.fractional_scale.is_some() {
            Some((size.logical_width as i32, size.logical_height as i32))
        } else {
            None
        }
    }
}

/// The pixels a frame begins with, before what changes is drawn over them.
pub open spec fn composed(model: CurtainModel, plan: CommitPlan) -> Option<Picture> {
    let entry = model.surfaces[plan.index as int];
    match plan.kind {
        CommitKind::Scene => entry.scene_base,
        CommitKind::Background => entry.background,
        CommitKind::Crossfade { progress, shell: _ } => match model.transition {
            Some(fade) => match (fade.from[plan.index as int], fade.to[plan.index as int]) {
                (Some(from), Some(to)) => if from.size == to.size && plan.index < fade.from.len()
                    && plan.index < fade.to.len() {
                    Some(
                        Picture {
                            size: from.size,
                            bytes: crossfade::mixed(
                                from.bytes,
                                to.bytes,
                                crossfade::fade_weight(progress as int),
                            ),
                        },
                    )
                } else {
                    None
                },
                _ => None,
            },
            None => None,
        },
    }
}

fn copy_bytes(target: &mut [u8], source: &[u8])
    requires
        old(target)@.len() == source@.len(),
    ensures
        final(target)@ == source@,
{
    let length: usize = source.len();
    let mut index: usize = 0;
    while index < length
        invariant
            index <= length,
            length == source@.len(),
            target@.len() == source@.len(),
            forall|i: int| 0 <= i < index ==> target@[i] == source@[i],
        decreases length - index,
    {
        target[index] = source[index];
        index += 1;
    }
    assert(target@ =~= source@);
}

fn copy_picture<B: PixelBuffer>(source: &SoftwareBuffer, target: &mut B)
    requires
        source.wf(),
        old(target).wf(),
        source.frame() == old(target).frame(),
    ensures
        final(target).wf(),
        final(target).frame() == old(target).frame(),
        final(target).lent() is Some == old(target).lent() is Some,
        old(target).lent() is Some ==> final(final(target).lent()->0)@
            == final(old(target).lent()->0)@,
        final(target).bytes() == source.bytes(),
{
    proof {
        source.lemma_wf();
        target.lemma_wf();
    }
    copy_bytes(target.pixels_mut(), source.pixels());
}

impl CurtainApp {
    /// Fills a frame with what it begins with.
    pub fn compose_frame<B: PixelBuffer>(&self, plan: CommitPlan, target: &mut B)
        requires
            self.wf(),
            old(target).wf(),
            plan.index < self.lock_surfaces@.len(),
            composed(self@, plan) matches Some(picture) && picture.size == old(target).frame(),
        ensures
            final(target).wf(),
            final(target).frame() == old(target).frame(),
            final(target).lent() is Some == old(target).lent() is Some,
            old(target).lent() is Some ==> final(final(target).lent()->0)@
                == final(old(target).lent()->0)@,
            final(target).bytes() == composed(self@, plan)->0.bytes,
    {
        let entry = &self.lock_surfaces[plan.index];
        assert(entry.wf());
        assert(self@.surfaces[plan.index as int] == entry@);
        match plan.kind {
            CommitKind::Scene => {
                if let Some(scene_base) = &entry.scene_base {
                    copy_picture(scene_base, target);
                }
            },
            CommitKind::Background => {
                if let Some(background) = &entry.background {
                    copy_picture(background, target);
                }
            },
            CommitKind::Crossfade { progress, shell: _ } => {
                if let Some(fade) = &self.slideshow_transition {
                    assert(fade@.from[plan.index as int] == surface::optional_picture(
                        fade.from_buffers@[plan.index as int],
                    ));
                    assert(fade@.to[plan.index as int] == surface::optional_picture(
                        fade.to_buffers@[plan.index as int],
                    ));
                    if let Some(from) = &fade.from_buffers[plan.index] {
                        if let Some(to) = &fade.to_buffers[plan.index] {
                            let _ = crossfade_buffers_into(from, to, progress, target);
                        }
                    }
                }
            },
        }
    }
}

/// How the changed part of the prompt is drawn.
#[derive(Debug)]
pub enum AuthDirtyStep {
    Failed(RenderFailure),
    /// The whole surface is drawn.
    Full,
    /// This part of the surface is drawn.
    Region(usize, Rect),
}

/// A part is drawn alone only where the scene below it is the current one and a frame has been
/// shown before.
pub open spec fn auth_dirty_step(
    model: CurtainModel,
    surface: u32,
    size: SurfaceSize,
    dirty: Option<Rect>,
) -> AuthDirtyStep {
    match state::tracked_index(model.surfaces, surface) {
        None => AuthDirtyStep::Failed(RenderFailure::Untracked),
        Some(index) => {
            let entry = model.surfaces[index];
            if !prepare::has_scene(entry, size.buffer) || entry.state.scene_base_revision
                != model.shell.core.static_scene_revision || entry.pool is None {
                AuthDirtyStep::Full
            } else {
                match dirty {
                    Some(rect) => AuthDirtyStep::Region(index as usize, rect),
                    None => AuthDirtyStep::Full,
                }
            }
        },
    }
}

/// What a part of a surface costs to draw: its pixels, and its bytes.
pub open spec fn area(rect: Rect) -> (nat, nat) {
    let width = if rect.width > 0 {
        rect.width as nat
    } else {
        0nat
    };
    let height = if rect.height > 0 {
        rect.height as nat
    } else {
        0nat
    };
    (width * height, width * height * 4)
}

pub fn dirty_area(rect: Rect) -> (cost: (u64, u64))
    ensures
        cost.0 == area(rect).0,
        cost.1 == area(rect).1,
{
    let width: u64 = if rect.width > 0 {
        rect.width as u64
    } else {
        0
    };
    let height: u64 = if rect.height > 0 {
        rect.height as u64
    } else {
        0
    };
    assert(width * height <= 0x7fff_ffff * 0x7fff_ffff) by (nonlinear_arith)
        requires
            0 <= width <= 0x7fff_ffff,
            0 <= height <= 0x7fff_ffff,
    ;
    assert(0 <= width * height) by (nonlinear_arith)
        requires
            0 <= width,
            0 <= height,
    ;
    let pixels: u64 = width * height;
    (pixels, pixels * 4)
}

impl CurtainApp {
    /// Decides how the changed part of the prompt is drawn; `dirty` is where it lies.
    pub fn render_auth_dirty_surface(
        &self,
        surface: u32,
        size: SurfaceSize,
        dirty: Option<Rect>,
    ) -> (step: AuthDirtyStep)
        ensures
            step == auth_dirty_step(self@, surface, size, dirty),
    {
        proof {
            state::lemma_first_surface(
                self@.surfaces,
                |entry: SurfaceModel| entry.state.surface == surface,
            );
        }
        let index: usize = match self.surface_index(surface) {
            Some(index) => index,
            None => {
                return AuthDirtyStep::Failed(RenderFailure::Untracked);
            },
        };
        let entry = &self.lock_surfaces[index];
        assert(self@.surfaces[index as int] == entry@);
        let sized = match &entry.scene_base {
            Some(scene_base) => scene_base.size() == size.buffer,
            None => false,
        };
        if !sized || entry.state.scene_base_revision != self.ui_shell.static_scene_revision()
            || entry.shm_pool.is_none() {
            return AuthDirtyStep::Full;
        }
        match dirty {
            Some(rect) => AuthDirtyStep::Region(index, rect),
            None => AuthDirtyStep::Full,
        }
    }

    /// Puts the scene back into a part of a frame, and returns what of it lies in the frame.
    pub fn restore_region<B: PixelBuffer>(&self, index: usize, rect: Rect, target: &mut B) -> (damaged:
        core::result::Result<Rect, RendererError>)
        requires
            self.wf(),
            old(target).wf(),
            index < self.lock_surfaces@.len(),
            self@.surfaces[index as int].scene_base is Some,
        ensures
            final(target).wf(),
            final(target).frame() == old(target).frame(),
            final(target).lent() is Some == old(target).lent() is Some,
            old(target).lent() is Some ==> final(final(target).lent()->0)@
                == final(old(target).lent()->0)@,
            ({
                let scene = self@.surfaces[index as int].scene_base->0;
                let part = crate::renderer::copy::visible_part(rect, scene.size);
                if scene.size != old(target).frame() {
                    final(target).bytes() == old(target).bytes() && damaged == Err::<
                        Rect,
                        RendererError,
                    >(
                        RendererError::BufferSizeMismatch {
                            target: old(target).frame(),
                            overlay: scene.size,
                        },
                    )
                } else if part.width <= 0 || part.height <= 0 {
                    final(target).bytes() == old(target).bytes() && damaged == Ok::<
                        Rect,
                        RendererError,
                    >(rect)
                } else {
                    final(target).bytes() == crate::renderer::copy::with_rect_from(
                        old(target).bytes(),
                        scene.bytes,
                        scene.size.width as int,
                        part,
                    ) && damaged == Ok::<Rect, RendererError>(part)
                }
            }),
    {
        let entry = &self.lock_surfaces[index];
        assert(entry.wf());
        assert(self@.surfaces[index as int] == entry@);
        match &entry.scene_base {
            Some(scene_base) => match copy_rect_from(scene_base, target, rect) {
                Ok(Some(part)) => Ok(part),
                Ok(None) => Ok(rect),
                Err(error) => Err(error),
            },
            None => Ok(rect),
        }
    }

    /// A part of a surface was shown, or could not be. One that has to wait for the compositor is
    /// put off.
    pub fn auth_dirty_finished(&mut self, result: core::result::Result<(), RendererError>) -> (outcome:
        core::result::Result<(), RenderFailure>)
        ensures
            match result {
                Ok(()) => outcome is Ok && final(self)@ == old(self)@,
                Err(RendererError::BufferSlotsBusy) => outcome is Ok && final(self)@
                    == waiting_for_slots(old(self)@),
                Err(error) => outcome == Err::<(), RenderFailure>(RenderFailure::AuthDirty(error))
                    && final(self)@ == old(self)@,
            },
            old(self).wf() ==> final(self).wf(),
    {
        match result {
            Ok(()) => Ok(()),
            Err(RendererError::BufferSlotsBusy) => {
                self.redraw.pending_deferred = true;
                Ok(())
            },
            Err(error) => Err(RenderFailure::AuthDirty(error)),
        }
    }

    /// A surface whose prompt changed could not be drawn. Tells whether the other ones are drawn
    /// all the same: a frame that has to wait for the compositor is put off.
    pub fn auth_dirty_failed(&mut self, failure: RenderFailure) -> (go_on: bool)
        ensures
            go_on == slots_are_busy(failure),
            final(self)@ == if go_on {
                waiting_for_slots(old(self)@)
            } else {
                redraw::failed(
                    old(self)@,
                    "failed to rerender auth dirty region: "@ + failure_text(failure),
                )
            },
            old(self).wf() ==> final(self).wf(),
    {
        if failure.is_buffer_slots_busy() {
            self.redraw.pending_deferred = true;
            return true;
        }
        self.fail("failed to rerender auth dirty region: ", failure.to_string().as_str());
        false
    }
}

/// A failure to show a frame because all shared memory is in use puts the frame off. It never
/// ends the lock, and it never gives up the scene.
pub proof fn law_busy_frames_are_put_off(model: CurtainModel, kind: CommitKind, surface: u32)
    ensures
        slots_are_busy(commit_failure(kind, RendererError::BufferSlotsBusy)),
        verdict(
            model,
            RenderAttempt::First,
            surface,
            Err(commit_failure(kind, RendererError::BufferSlotsBusy)),
        ) == (waiting_for_slots(model), RenderVerdict::Done),
{
    let failure = commit_failure(kind, RendererError::BufferSlotsBusy);
    let message = frame::renderer_error_text(RendererError::BufferSlotsBusy);
    reveal_strlit("all SHM buffer slots are still in use by the compositor");
    reveal_strlit("buffer slots are still in use by the compositor");
    let task = match kind {
        CommitKind::Scene => "failed to render and commit software buffer: "@,
        CommitKind::Background => "failed to commit software buffer: "@,
        CommitKind::Crossfade { progress: _, shell } => if shell {
            "failed to render crossfaded slideshow frame: "@
        } else {
            "failed to commit crossfaded background: "@
        },
    };
    assert(failure_text(failure) == task + message);
    let start = message.subrange(0, 8);
    assert(message =~= start + SLOTS_BUSY@);
    text::lemma_holds_its_parts(task + start, SLOTS_BUSY@, Seq::empty());
    assert((task + start) + SLOTS_BUSY@ + Seq::<char>::empty() =~= task + message);
}

/// However drawing a surface fails, the lock stays: nothing is authorized, and before the plain
/// lock screen itself fails nothing ends the curtain.
pub proof fn law_render_failures_keep_the_lock(
    model: CurtainModel,
    attempt: RenderAttempt,
    surface: u32,
    result: Result<(), RenderFailure>,
)
    ensures
        verdict(model, attempt, surface, result).0.lock == model.lock,
        verdict(model, attempt, surface, result).0.failure_reason == model.failure_reason,
        verdict(model, attempt, surface, result).1 is Failed && attempt != RenderAttempt::Emergency
            ==> model.shell.core.mode == shell::ShellMode::Emergency,
{
}

/// A step of a crossfade that is planned can be shown: both pictures have the size of the frame.
pub proof fn law_planned_crossfades_fit(
    model: CurtainModel,
    surface: u32,
    size: SurfaceSize,
    variants: SceneVariants,
    now: Moment,
)
    requires
        model.surfaces.len() <= usize::MAX,
    ensures
        ({
            let (after, step) = render::render_begun(model, surface, size, variants, now);
            match step {
                StepModel::Commit(plan) => plan.kind is Crossfade ==> (composed(
                    after,
                    plan,
                ) matches Some(picture) && picture.size == size.buffer),
                _ => true,
            }
        }),
{
    state::lemma_first_surface(
        model.surfaces,
        |entry: SurfaceModel| entry.state.surface == surface,
    );
}

/// Drawing a surface is tried again only in a way that was not tried before, so it ends: after the
/// first try everything is dropped, then the plain lock screen is drawn, then the failure stands.
pub proof fn law_tries_come_to_an_end(
    model: CurtainModel,
    attempt: RenderAttempt,
    surface: u32,
    result: Result<(), RenderFailure>,
)
    ensures
        ({
            let (after, next) = verdict(model, attempt, surface, result);
            &&& result is Ok ==> next == RenderVerdict::Done && after == model
            &&& next == RenderVerdict::Retry(RenderAttempt::First) ==> false
            &&& next == RenderVerdict::Retry(RenderAttempt::AfterRebuild) ==> attempt
                == RenderAttempt::First && after.transition is None
            &&& next == RenderVerdict::Retry(RenderAttempt::Emergency) || next
                == RenderVerdict::Emergency ==> attempt != RenderAttempt::Emergency
            &&& next == RenderVerdict::Emergency ==> model.shell.core.mode
                != shell::ShellMode::Emergency && after.shell.core.mode
                == shell::ShellMode::Emergency
            &&& next is Failed ==> result is Err && next == RenderVerdict::Failed(result->Err_0)
            &&& attempt == RenderAttempt::Emergency && result is Err ==> next is Failed
            &&& attempt == RenderAttempt::AfterRebuild && result is Err ==> !(next is Done)
        }),
{
}

/// The first frame is timed once, at the moment it was shown, in whole milliseconds and
/// microseconds since the start.
pub proof fn law_first_frame_is_timed_once(model: CurtainModel, first_frame: bool, now: Moment)
    requires
        model.timing.startup_started_at.nanos <= now.nanos,
        now.nanos - model.timing.startup_started_at.nanos < 1_000 * u64::MAX,
    ensures
        ({
            let after = first_frame_noted(model, first_frame, now);
            let passed = now.nanos - model.timing.startup_started_at.nanos;
            &&& !first_frame || model.timing.first_frame_committed_at is Some ==> after == model
            &&& first_frame && model.timing.first_frame_committed_at is None ==> {
                &&& after.timing.first_frame_committed_at == Some(now)
                &&& after.timing.latency.first_frame_ms matches Some(ms) && ms * 1_000_000 <= passed
                    < (ms + 1) * 1_000_000
                &&& after.timing.latency.first_frame_us matches Some(us) && us * 1_000 <= passed < (
                us + 1) * 1_000
                &&& after.surfaces == model.surfaces && after.lock == model.lock
            }
        }),
{
}

/// Only a part of a surface is drawn where its scene is there in its size and up to date and a
/// frame was shown before; else the whole of it is.
pub proof fn law_part_is_drawn_over_a_current_scene(
    model: CurtainModel,
    surface: u32,
    size: SurfaceSize,
    dirty: Option<Rect>,
    index: int,
)
    requires
        state::tracked_index(model.surfaces, surface) == Some(index),
        0 <= index <= usize::MAX,
    ensures
        ({
            let entry = model.surfaces[index];
            let current = entry.scene_base is Some && entry.scene_base->0.size == size.buffer
                && entry.state.scene_base_revision == model.shell.core.static_scene_revision
                && entry.pool is Some;
            let step = auth_dirty_step(model, surface, size, dirty);
            &&& current && dirty is Some ==> (step matches AuthDirtyStep::Region(at, rect) && at
                == index && rect == dirty->0)
            &&& !current || dirty is None ==> step == AuthDirtyStep::Full
        }),
{
}

/// A part costs a pixel for each place in it and four bytes for each pixel.
pub proof fn law_parts_cost_their_pixels(rect: Rect)
    ensures
        rect.width >= 0 && rect.height >= 0 ==> area(rect).0 == rect.width * rect.height,
        rect.width <= 0 || rect.height <= 0 ==> area(rect).0 == 0,
        area(rect).1 == 4 * area(rect).0,
{
    let width = if rect.width > 0 {
        rect.width as int
    } else {
        0
    };
    let height = if rect.height > 0 {
        rect.height as int
    } else {
        0
    };
    assert(width * height * 4 == 4 * (width * height));
    if width == 0 || height == 0 {
        assert(width * height == 0) by (nonlinear_arith)
            requires
                width == 0 || height == 0,
        ;
        assert(rect.width >= 0 && rect.height >= 0 ==> rect.width * rect.height == 0) by (nonlinear_arith)
            requires
                rect.width <= 0 || rect.height <= 0,
        ;
    }
}

/// A frame shows the scene of its surface, its wallpaper, or, in a crossfade, a picture of the size
/// of the surface's old one.
pub proof fn law_frames_show_their_own_surface(model: CurtainModel, plan: CommitPlan)
    ensures
        plan.kind == CommitKind::Scene ==> composed(model, plan)
            == model.surfaces[plan.index as int].scene_base,
        plan.kind == CommitKind::Background ==> composed(model, plan)
            == model.surfaces[plan.index as int].background,
        plan.kind is Crossfade && composed(model, plan) is Some ==> ({
            let from = model.transition->0.from[plan.index as int];
            let shown = composed(model, plan)->0;
            model.transition is Some && from is Some && shown.size == from->0.size
        }),
{
}

/// Dropping what was drawn can help where a wallpaper is missing, sizes do not match or a crossfade
/// cannot be drawn, and not where a frame is empty or the compositor holds all memory for frames.
pub proof fn law_missing_pictures_can_be_drawn_again(size: FrameSize, other: FrameSize)
    ensures
        rebuilding_may_help(RenderFailure::BackgroundUnavailable),
        rebuilding_may_help(
            RenderFailure::Pool(RendererError::BufferSizeMismatch { target: size, overlay: other }),
        ),
        rebuilding_may_help(RenderFailure::Pool(RendererError::InvalidFrameSize(size))),
        !rebuilding_may_help(RenderFailure::Pool(RendererError::EmptyFrame)),
        !rebuilding_may_help(RenderFailure::Pool(RendererError::BufferSlotsBusy)),
        rebuilding_may_help(RenderFailure::Crossfade(RendererError::EmptyFrame)),
        rebuilding_may_help(
            RenderFailure::Commit(
                RendererError::BufferSizeMismatch { target: size, overlay: other },
            ),
        ),
        slots_are_busy(RenderFailure::Pool(RendererError::BufferSlotsBusy)),
{
    let none = Seq::<char>::empty();
    let missing = failure_text(RenderFailure::BackgroundUnavailable);
    text::lemma_holds_its_parts(none, NO_BACKGROUND@, none);
    assert(missing == none + NO_BACKGROUND@ + none);
    let crossfade = failure_text(RenderFailure::Crossfade(RendererError::EmptyFrame));
    let after = ": "@ + frame::renderer_error_text(RendererError::EmptyFrame);
    reveal_strlit("failed to render crossfaded slideshow frame: ");
    reveal_strlit("failed to render crossfaded slideshow frame");
    reveal_strlit(": ");
    assert("failed to render crossfaded slideshow frame: "@ == NO_CROSSFADE@ + ": "@);
    text::lemma_holds_its_parts(none, NO_CROSSFADE@, after);
    assert(crossfade == none + NO_CROSSFADE@ + after);
    let mismatch = RendererError::BufferSizeMismatch { target: size, overlay: other };
    let commit = failure_text(RenderFailure::Commit(mismatch));
    reveal_strlit("buffer size mismatch: target ");
    reveal_strlit("buffer size mismatch");
    reveal_strlit(": target ");
    assert("buffer size mismatch: target "@ == SIZE_MISMATCH@ + ": target "@);
    let rest = ": target "@ + frame::size_text(size) + ", overlay "@ + frame::size_text(other);
    let before = "failed to render and commit software buffer: "@;
    text::lemma_holds_its_parts(before, SIZE_MISMATCH@, rest);
    assert(commit == before + SIZE_MISMATCH@ + rest);
}

/// A pool that failed is given up with nothing else of its surface, but for the wallpaper where
/// that was to be shown; other surfaces keep theirs.
pub proof fn law_failed_pool_is_given_up(model: CurtainModel, plan: CommitPlan)
    requires
        0 <= plan.index < model.surfaces.len(),
    ensures
        ({
            let index = plan.index as int;
            let entry = model.surfaces[index];
            let after = without_pool(model, plan);
            let left = after.surfaces[index];
            &&& left.pool is None && left.scene_base == entry.scene_base && left.state
                == entry.state
            &&& plan.kind == CommitKind::Background ==> left.background is None
            &&& plan.kind != CommitKind::Background ==> left.background == entry.background
            &&& forall|i: int|
                0 <= i < model.surfaces.len() && i != index ==> after.surfaces[i]
                    == model.surfaces[i]
        }),
{
}

} // verus!
