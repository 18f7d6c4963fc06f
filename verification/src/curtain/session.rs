//! What the compositor tells: the lock, the sizes, the scales and the outputs.

use crate::common::ipc::CurtainLatencyReport;
use crate::common::path::FilePath;
use crate::common::time;
use crate::common::time::{elapsed_ms, elapsed_us, Moment};
use crate::curtain::redraw;
use crate::curtain::redraw::RedrawTarget;
use crate::curtain::state;
use crate::curtain::state::{
    CurtainApp, CurtainModel, LockState, OutputsState, RedrawState, ScreenOffState, TimingState,
};
use crate::curtain::surface;
use crate::curtain::surface::{OutputRole, SurfaceModel, SurfaceSize, SurfaceState};
use vstd::prelude::*;

verus! {

pub const LOCK_REVOKED: &'static str = "compositor denied or revoked the session lock";

pub open spec fn ms_since(started_at: Moment, now: Moment) -> Option<u64> {
    Some(time::saturating_units(time::span_between(started_at, now), 1_000_000) as u64)
}

pub open spec fn us_since(started_at: Moment, now: Moment) -> Option<u64> {
    Some(time::saturating_units(time::span_between(started_at, now), 1_000) as u64)
}

pub open spec fn locked_report(
    report: CurtainLatencyReport,
    started_at: Moment,
    now: Moment,
) -> CurtainLatencyReport {
    CurtainLatencyReport {
        session_locked_ms: ms_since(started_at, now),
        session_locked_us: us_since(started_at, now),
        ..report
    }
}

fn with_session_locked(report: CurtainLatencyReport, started_at: Moment, now: Moment) -> (result:
    CurtainLatencyReport)
    ensures
        result == locked_report(report, started_at, now),
{
    CurtainLatencyReport {
        session_locked_ms: Some(elapsed_ms(started_at, now)),
        session_locked_us: Some(elapsed_us(started_at, now)),
        ..report
    }
}

pub open spec fn first_surface_report(
    report: CurtainLatencyReport,
    configured_at: Moment,
    now: Moment,
) -> CurtainLatencyReport {
    CurtainLatencyReport {
        first_surface_configured_ms: ms_since(configured_at, now),
        first_surface_configured_us: us_since(configured_at, now),
        ..report
    }
}

fn with_first_surface(report: CurtainLatencyReport, configured_at: Moment, now: Moment) -> (result:
    CurtainLatencyReport)
    ensures
        result == first_surface_report(report, configured_at, now),
{
    CurtainLatencyReport {
        first_surface_configured_ms: Some(elapsed_ms(configured_at, now)),
        first_surface_configured_us: Some(elapsed_us(configured_at, now)),
        ..report
    }
}

pub open spec fn all_surfaces_report(
    report: CurtainLatencyReport,
    started_at: Moment,
    now: Moment,
) -> CurtainLatencyReport {
    CurtainLatencyReport {
        all_surfaces_configured_ms: ms_since(started_at, now),
        all_surfaces_configured_us: us_since(started_at, now),
        ..report
    }
}

fn with_all_surfaces(report: CurtainLatencyReport, started_at: Moment, now: Moment) -> (result:
    CurtainLatencyReport)
    ensures
        result == all_surfaces_report(report, started_at, now),
{
    CurtainLatencyReport {
        all_surfaces_configured_ms: Some(elapsed_ms(started_at, now)),
        all_surfaces_configured_us: Some(elapsed_us(started_at, now)),
        ..report
    }
}

pub open spec fn ready_report(
    report: CurtainLatencyReport,
    started_at: Moment,
    now: Moment,
    surfaces: usize,
) -> CurtainLatencyReport {
    CurtainLatencyReport {
        ready_notified_ms: ms_since(started_at, now),
        ready_notified_us: us_since(started_at, now),
        surface_count: surfaces,
        ..report
    }
}

fn with_ready(
    report: CurtainLatencyReport,
    started_at: Moment,
    now: Moment,
    surfaces: usize,
) -> (result: CurtainLatencyReport)
    ensures
        result == ready_report(report, started_at, now, surfaces),
{
    CurtainLatencyReport {
        ready_notified_ms: Some(elapsed_ms(started_at, now)),
        ready_notified_us: Some(elapsed_us(started_at, now)),
        surface_count: surfaces,
        ..report
    }
}

/// The curtain once the compositor has confirmed the lock.
pub open spec fn confirmed(model: CurtainModel, now: Moment) -> CurtainModel {
    CurtainModel {
        lock: LockState { session_locked: true, session_locked_at: Some(now), ..model.lock },
        outputs: OutputsState {
            screen_off: ScreenOffState { armed_at: Some(now), ..model.outputs.screen_off },
            ..model.outputs
        },
        timing: TimingState {
            latency: locked_report(
                model.timing.latency,
                model.timing.startup_started_at,
                now,
            ),
            ..model.timing
        },
        ..model
    }
}

/// The curtain once the compositor has ended the lock.
pub open spec fn revoked(model: CurtainModel) -> CurtainModel {
    CurtainModel {
        lock: LockState { session_finished: true, ..model.lock },
        failure_reason: Some(LOCK_REVOKED@),
        ..model
    }
}

/// A surface after the compositor has told its size. Another size than before drops everything
/// that was drawn for it.
pub open spec fn configured_surface(entry: SurfaceModel, requested: (u32, u32)) -> SurfaceModel {
    let size = surface::resolved_size(entry.state, entry.details, requested);
    let sized = SurfaceModel {
        state: SurfaceState { size: Some(size), ..entry.state },
        ..entry
    };
    match entry.state.size {
        Some(previous) => if previous != size {
            surface::surface_reset(sized)
        } else {
            sized
        },
        None => sized,
    }
}

pub open spec fn all_sized(surfaces: Seq<SurfaceModel>) -> bool {
    forall|i: int| 0 <= i < surfaces.len() ==> (#[trigger] surfaces[i]).state.size is Some
}

/// When the first surface got its size, where that is news.
pub open spec fn first_surface_timed(timing: TimingState, was_unconfigured: bool, now: Moment) -> TimingState {
    if was_unconfigured && !timing.first_surface_configured_logged {
        TimingState {
            first_surface_configured_logged: true,
            first_surface_configured_at: Some(now),
            latency: first_surface_report(timing.latency, now, now),
            ..timing
        }
    } else {
        timing
    }
}

/// When the last surface got its size, where that is news.
pub open spec fn all_surfaces_timed(timing: TimingState, complete: bool, now: Moment) -> TimingState {
    if complete && !timing.all_surfaces_configured_logged {
        TimingState {
            all_surfaces_configured_logged: true,
            all_surfaces_configured_at: Some(now),
            latency: all_surfaces_report(timing.latency, timing.startup_started_at, now),
            ..timing
        }
    } else {
        timing
    }
}

pub open spec fn configured(
    model: CurtainModel,
    index: int,
    requested: (u32, u32),
    now: Moment,
) -> CurtainModel {
    let surfaces = model.surfaces.update(
        index,
        configured_surface(model.surfaces[index], requested),
    );
    CurtainModel {
        surfaces,
        timing: all_surfaces_timed(
            first_surface_timed(
                model.timing,
                model.surfaces[index].state.size is None,
                now,
            ),
            all_sized(surfaces),
            now,
        ),
        ..model
    }
}

fn first_surface_timing(timing: TimingState, was_unconfigured: bool, now: Moment) -> (result:
    TimingState)
    ensures
        result == first_surface_timed(timing, was_unconfigured, now),
{
    if was_unconfigured && !timing.first_surface_configured_logged {
        TimingState {
            first_surface_configured_logged: true,
            first_surface_configured_at: Some(now),
            latency: with_first_surface(timing.latency, now, now),
            ..timing
        }
    } else {
        timing
    }
}

fn all_surfaces_timing(timing: TimingState, complete: bool, now: Moment) -> (result: TimingState)
    ensures
        result == all_surfaces_timed(timing, complete, now),
{
    if complete && !timing.all_surfaces_configured_logged {
        TimingState {
            all_surfaces_configured_logged: true,
            all_surfaces_configured_at: Some(now),
            latency: with_all_surfaces(timing.latency, timing.startup_started_at, now),
            ..timing
        }
    } else {
        timing
    }
}

impl CurtainApp {
    /// The compositor has confirmed the lock.
    pub fn session_lock_confirmed(&mut self, now: Moment)
        ensures
            final(self)@ == confirmed(old(self)@, now),
            old(self).wf() ==> final(self).wf(),
    {
        let timing = self.timing;
        self.timing = TimingState {
            latency: with_session_locked(timing.latency, timing.startup_started_at, now),
            ..timing
        };
        self.lock.session_locked_at = Some(now);
        self.lock.session_locked = true;
        self.outputs.screen_off.armed_at = Some(now);
    }

    /// The compositor has refused or ended the lock.
    pub fn session_lock_finished(&mut self)
        ensures
            final(self)@ == revoked(old(self)@),
            old(self).wf() ==> final(self).wf(),
    {
        self.lock.session_finished = true;
        self.failure_reason = Some(LOCK_REVOKED.to_owned());
    }

    /// Whether the compositor has told the size of every surface.
    pub fn all_surfaces_configured(&self) -> (complete: bool)
        ensures
            complete == all_sized(self@.surfaces),
    {
        let mut index: usize = 0;
        while index < self.lock_surfaces.len()
            invariant
                index <= self.lock_surfaces@.len(),
                forall|i: int|
                    0 <= i < index ==> (#[trigger] self@.surfaces[i]).state.size is Some,
            decreases self.lock_surfaces@.len() - index,
        {
            if self.lock_surfaces[index].state.size.is_none() {
                assert(self@.surfaces[index as int].state.size is None);
                return false;
            }
            index += 1;
        }
        true
    }

    /// The compositor tells the size of a surface: it is to be drawn in that size. A surface that
    /// is not known is left alone.
    pub fn configure_surface(&mut self, surface: u32, requested: (u32, u32), now: Moment) -> (target:
        Option<RedrawTarget>)
        requires
            old(self).wf(),
        ensures
            final(self).wf(),
            match state::tracked_index(old(self)@.surfaces, surface) {
                None => target is None && final(self)@ == old(self)@,
                Some(index) => final(self)@ == configured(old(self)@, index, requested, now)
                    && target == Some(
                    RedrawTarget {
                        surface,
                        size: surface::resolved_size(
                            old(self)@.surfaces[index].state,
                            old(self)@.surfaces[index].details,
                            requested,
                        ),
                    },
                ),
            },
    {
        proof {
            state::lemma_first_surface(
                self@.surfaces,
                |entry: SurfaceModel| entry.state.surface == surface,
            );
        }
        let index: usize = match self.surface_index(surface) {
            Some(index) => index,
            None => {
                return None;
            },
        };
        let ghost before = *self;
        assert(self.lock_surfaces@[index as int].wf());
        let size = self.lock_surfaces[index].resolve_surface_size(requested);
        let previous = self.lock_surfaces[index].state.size;
        let entry = &mut self.lock_surfaces[index];
        entry.state.size = Some(size);
        if let Some(previous) = previous {
            if previous != size {
                entry.reset_render_state();
            }
        }
        proof {
            state::lemma_surface_changed(
                before.lock_surfaces@,
                self.lock_surfaces@,
                index as int,
            );
        }
        let complete = self.all_surfaces_configured();
        self.timing = all_surfaces_timing(
            first_surface_timing(self.timing, previous.is_none(), now),
            complete,
            now,
        );
        Some(RedrawTarget { surface, size })
    }

    /// The compositor prefers another scale for a surface. Where that changes its size it is to
    /// be drawn again.
    pub fn scale_factor_changed(&mut self, surface: u32, new_factor: i32) -> (target: Option<
        RedrawTarget,
    >)
        requires
            old(self).wf(),
        ensures
            final(self).wf(),
            match state::tracked_index(old(self)@.surfaces, surface) {
                None => target is None && final(self)@ == old(self)@,
                Some(index) => {
                    let entry = old(self)@.surfaces[index];
                    let preferred = SurfaceState {
                        preferred_scale: surface::positive_scale(new_factor),
                        ..entry.state
                    };
                    let resized = surface::resized_to(preferred, entry.details);
                    &&& target == resize_target(surface, resized)
                    &&& final(self)@ == resized_model(old(self)@, index, preferred, resized)
                },
            },
    {
        proof {
            state::lemma_first_surface(
                self@.surfaces,
                |entry: SurfaceModel| entry.state.surface == surface,
            );
        }
        let index: usize = match self.surface_index(surface) {
            Some(index) => index,
            None => {
                return None;
            },
        };
        let ghost before = *self;
        assert(self.lock_surfaces@[index as int].wf());
        let resized = self.lock_surfaces[index].scale_factor_changed(new_factor);
        proof {
            state::lemma_surface_changed(
                before.lock_surfaces@,
                self.lock_surfaces@,
                index as int,
            );
        }
        match resized {
            Some(size) => Some(RedrawTarget { surface, size }),
            None => None,
        }
    }

    /// The compositor prefers another fractional scale for a surface. Where that changes its size
    /// it is to be drawn again.
    pub fn fractional_scale_changed(&mut self, surface: u32, scale: u32) -> (target: Option<
        RedrawTarget,
    >)
        requires
            old(self).wf(),
        ensures
            final(self).wf(),
            match state::tracked_index(old(self)@.surfaces, surface) {
                None => target is None && final(self)@ == old(self)@,
                Some(index) => {
                    let entry = old(self)@.surfaces[index];
                    let chosen = if scale < 1 {
                        1u32
                    } else {
                        scale
                    };
                    let preferred = SurfaceState {
                        preferred_fractional_scale: Some(chosen),
                        ..entry.state
                    };
                    let resized = if entry.state.preferred_fractional_scale == Some(chosen) {
                        None
                    } else {
                        surface::resized_to(preferred, entry.details)
                    };
                    &&& target == resize_target(surface, resized)
                    &&& final(self)@ == resized_model(old(self)@, index, preferred, resized)
                },
            },
    {
        proof {
            state::lemma_first_surface(
                self@.surfaces,
                |entry: SurfaceModel| entry.state.surface == surface,
            );
        }
        let index: usize = match self.surface_index(surface) {
            Some(index) => index,
            None => {
                return None;
            },
        };
        let ghost before = *self;
        assert(self.lock_surfaces@[index as int].wf());
        let resized = self.lock_surfaces[index].fractional_scale_changed(scale);
        proof {
            state::lemma_surface_changed(
                before.lock_surfaces@,
                self.lock_surfaces@,
                index as int,
            );
        }
        match resized {
            Some(size) => Some(RedrawTarget { surface, size }),
            None => None,
        }
    }
}

pub open spec fn resize_target(surface: u32, resized: Option<SurfaceSize>) -> Option<RedrawTarget> {
    match resized {
        Some(size) => Some(RedrawTarget { surface, size }),
        None => None,
    }
}

pub open spec fn resized_model(
    model: CurtainModel,
    index: int,
    preferred: SurfaceState,
    resized: Option<SurfaceSize>,
) -> CurtainModel {
    CurtainModel {
        surfaces: model.surfaces.update(
            index,
            SurfaceModel {
                state: surface::with_size(preferred, resized),
                ..model.surfaces[index]
            },
        ),
        ..model
    }
}

/// Who is told that the curtain covers everything, and with what report.
#[derive(Debug)]
pub struct ReadySignal {
    pub path: FilePath,
    pub report: Option<CurtainLatencyReport>,
}

/// Whether the curtain covers everything now: the session is locked, and every surface has a
/// size.
pub open spec fn becomes_ready(model: CurtainModel) -> bool {
    &&& !model.lock.ready_notified
    &&& model.lock.session_locked
    &&& model.surfaces.len() > 0
    &&& all_sized(model.surfaces)
}

pub open spec fn all_layered(surfaces: Seq<SurfaceModel>) -> bool {
    forall|i: int| 0 <= i < surfaces.len() ==> (#[trigger] surfaces[i]).state.scene_base_has_layers
}

/// The curtain once it covers everything. Scenes that were drawn without their layers are drawn
/// again.
pub open spec fn made_ready(model: CurtainModel, now: Moment) -> CurtainModel {
    CurtainModel {
        lock: LockState { ready_notified: true, ..model.lock },
        redraw: RedrawState {
            pending_pre_ready: model.redraw.pending_pre_ready
                || model.shell.core.theme.visual_layers && !all_layered(model.surfaces),
            ..model.redraw
        },
        timing: TimingState {
            latency: ready_report(
                model.timing.latency,
                model.timing.startup_started_at,
                now,
                model.surfaces.len() as usize,
            ),
            ..model.timing
        },
        ..model
    }
}

impl CurtainApp {
    fn all_scenes_have_layers(&self) -> (layered: bool)
        ensures
            layered == all_layered(self@.surfaces),
    {
        let mut index: usize = 0;
        while index < self.lock_surfaces.len()
            invariant
                index <= self.lock_surfaces@.len(),
                forall|i: int|
                    0 <= i < index ==> (
                    #[trigger] self@.surfaces[i]).state.scene_base_has_layers,
            decreases self.lock_surfaces@.len() - index,
        {
            if !self.lock_surfaces[index].state.scene_base_has_layers {
                assert(!self@.surfaces[index as int].state.scene_base_has_layers);
                return false;
            }
            index += 1;
        }
        true
    }

    /// Notes that the curtain covers everything, once it does. Tells whether that is news, and
    /// who is told.
    pub fn maybe_notify_ready(&mut self, now: Moment) -> (ready: (bool, Option<ReadySignal>))
        ensures
            ready.0 == becomes_ready(old(self)@),
            final(self)@ == if ready.0 {
                made_ready(old(self)@, now)
            } else {
                old(self)@
            },
            match ready.1 {
                Some(signal) => ready.0 && surface::optional_path(old(self).paths.notify_socket)
                    == Some(signal.path@) && signal.report == if old(self).timing.latency_report
                    != crate::common::ipc::LatencyReportMode::Disabled {
                    Some(final(self)@.timing.latency)
                } else {
                    None
                },
                None => !ready.0 || old(self).paths.notify_socket is None,
            },
            old(self).wf() ==> final(self).wf(),
    {
        if self.lock.ready_notified || !self.lock.session_locked || self.lock_surfaces.len() == 0 {
            return (false, None);
        }
        if !self.all_surfaces_configured() {
            return (false, None);
        }
        let redraw = self.ui_shell.has_visual_layers() && !self.all_scenes_have_layers();
        self.lock.ready_notified = true;
        if redraw {
            self.redraw.pending_pre_ready = true;
        }
        let timing = self.timing;
        let count: usize = self.lock_surfaces.len();
        self.timing = TimingState {
            latency: with_ready(timing.latency, timing.startup_started_at, now, count),
            ..timing
        };
        let signal = match &self.paths.notify_socket {
            Some(path) => Some(
                ReadySignal {
                    path: path.clone(),
                    report: if self.timing.latency_report.is_enabled() {
                        Some(self.timing.latency)
                    } else {
                        None
                    },
                },
            ),
            None => None,
        };
        (true, signal)
    }

    /// The outputs that go dark because they do not show the prompt.
    pub fn power_off_secondary_outputs(&mut self) -> (outputs: Vec<u32>)
        ensures
            outputs@ == if old(self).outputs.power_off_secondary_outputs {
                secondary_outputs(old(self)@, old(self)@.surfaces.len() as int)
            } else {
                Seq::empty()
            },
            final(self)@ == if outputs@.len() > 0 {
                CurtainModel {
                    outputs: OutputsState {
                        secondary_outputs_powered_off: true,
                        ..old(self)@.outputs
                    },
                    ..old(self)@
                }
            } else {
                old(self)@
            },
            old(self).wf() ==> final(self).wf(),
    {
        let mut outputs: Vec<u32> = Vec::new();
        assert(outputs@ =~= Seq::empty());
        if !self.outputs.power_off_secondary_outputs {
            return outputs;
        }
        let mut index: usize = 0;
        while index < self.lock_surfaces.len()
            invariant
                index <= self.lock_surfaces@.len(),
                *self == *old(self),
                outputs@ == secondary_outputs(self@, index as int),
            decreases self.lock_surfaces@.len() - index,
        {
            let visible = self.ui_visible_on_surface(index);
            let entry = self.lock_surfaces[index].state;
            assert(self@.surfaces[index as int].state == entry);
            if !visible && entry.has_output_power {
                outputs.push(entry.output);
            }
            index += 1;
        }
        if outputs.len() > 0 {
            self.outputs.secondary_outputs_powered_off = true;
        }
        outputs
    }
}

/// The first `count` outputs that can go dark and do not show the prompt.
pub open spec fn secondary_outputs(model: CurtainModel, count: int) -> Seq<u32>
    decreases count,
{
    if count <= 0 {
        Seq::empty()
    } else {
        let rest = secondary_outputs(model, count - 1);
        let last = model.surfaces[count - 1].state;
        if state::role_of(model, count - 1) == OutputRole::SecondaryCurtain
            && last.has_output_power {
            rest.push(last.output)
        } else {
            rest
        }
    }
}

/// The surfaces that do not cover this output.
pub open spec fn surfaces_without(surfaces: Seq<SurfaceModel>, output: u32) -> Seq<SurfaceModel>
    decreases surfaces.len(),
{
    if surfaces.len() == 0 {
        Seq::empty()
    } else {
        let rest = surfaces_without(surfaces.drop_last(), output);
        if surfaces.last().state.output == output {
            rest
        } else {
            rest.push(surfaces.last())
        }
    }
}

/// The focus after a surface is gone: it stays on its surface, wherever that stands now.
pub open spec fn focus_after(focused: Option<usize>, removed: Option<int>) -> Option<usize> {
    match (focused, removed) {
        (Some(focused), Some(removed)) => if focused == removed {
            None
        } else if focused > removed {
            Some((focused - 1) as usize)
        } else {
            Some(focused)
        },
        _ => focused,
    }
}

pub open spec fn output_gone(model: CurtainModel, output: u32) -> CurtainModel {
    CurtainModel {
        surfaces: surfaces_without(model.surfaces, output),
        outputs: OutputsState {
            focused_surface_index: focus_after(
                model.outputs.focused_surface_index,
                state::output_index(model.surfaces, output),
            ),
            ..model.outputs
        },
        ..model
    }
}

impl CurtainApp {
    /// An output is gone, and the surface that covered it with it. Tells whether the other
    /// outputs are woken, because another one may have to show the prompt now.
    pub fn output_destroyed(&mut self, output: u32) -> (wake: bool)
        requires
            old(self).wf(),
        ensures
            final(self).wf(),
            wake == old(self).outputs.secondary_outputs_powered_off,
            final(self)@ == output_gone(old(self)@, output),
    {
        proof {
            state::lemma_first_surface(
                self@.surfaces,
                |entry: SurfaceModel| entry.state.output == output,
            );
        }
        let removed = self.output_surface_index(output);
        let ghost before = *self;
        let ghost mut seen: int = 0;
        let mut index: usize = 0;
        assert(before@.surfaces.take(0) =~= Seq::empty());
        while index < self.lock_surfaces.len()
            invariant
                0 <= index <= self.lock_surfaces@.len(),
                index <= seen <= before.lock_surfaces@.len(),
                before.wf(),
                self.lock_surfaces@.len() - index == before.lock_surfaces@.len() - seen,
                state::all_surfaces_wf(self.lock_surfaces@),
                self.slideshow_transition == before.slideshow_transition,
                self@ == (CurtainModel { surfaces: self@.surfaces, ..before@ }),
                self@.surfaces.take(index as int) == surfaces_without(
                    before@.surfaces.take(seen),
                    output,
                ),
                forall|i: int|
                    index <= i < self.lock_surfaces@.len() ==> (#[trigger] self.lock_surfaces@[i])
                        == before.lock_surfaces@[i - index + seen],
            decreases self.lock_surfaces@.len() - index,
        {
            let ghost part = before@.surfaces.take(seen + 1);
            let ghost current = self.lock_surfaces@;
            assert(part.drop_last() =~= before@.surfaces.take(seen));
            assert(self.lock_surfaces@[index as int] == before.lock_surfaces@[seen]);
            assert(part.last() == self.lock_surfaces@[index as int]@);
            if self.lock_surfaces[index].state.output == output {
                let _ = self.lock_surfaces.remove(index);
                proof {
                    assert(self@.surfaces.take(index as int) =~= state::surface_models(
                        current,
                    ).take(index as int));
                    assert forall|i: int| 0 <= i < self.lock_surfaces@.len() implies (
                    #[trigger] self.lock_surfaces@[i]).wf() by {
                        assert(self.lock_surfaces@[i] == if i < index {
                            current[i]
                        } else {
                            current[i + 1]
                        });
                    }
                }
            } else {
                assert(self@.surfaces.take(index + 1) =~= self@.surfaces.take(index as int).push(
                    self@.surfaces[index as int],
                ));
                index += 1;
            }
            proof {
                seen = seen + 1;
            }
        }
        assert(before@.surfaces.take(seen) =~= before@.surfaces);
        assert(self@.surfaces.take(index as int) =~= self@.surfaces);
        if let Some(removed) = removed {
            let focused = self.outputs.focused_surface_index;
            self.outputs.focused_surface_index = match focused {
                Some(focused) => if focused == removed {
                    None
                } else if focused > removed {
                    Some(focused - 1)
                } else {
                    Some(focused)
                },
                None => None,
            };
        }
        self.outputs.secondary_outputs_powered_off
    }
}

proof fn lemma_surfaces_without(surfaces: Seq<SurfaceModel>, output: u32)
    requires
        forall|i: int, j: int|
            0 <= i < j < surfaces.len() ==> (#[trigger] surfaces[i]).state.output != (
            #[trigger] surfaces[j]).state.output,
    ensures
        surfaces_without(surfaces, output) == match state::output_index(surfaces, output) {
            Some(removed) => surfaces.remove(removed),
            None => surfaces,
        },
    decreases surfaces.len(),
{
    let accepts = |entry: SurfaceModel| entry.state.output == output;
    state::lemma_first_surface(surfaces, accepts);
    if surfaces.len() > 0 {
        let rest = surfaces.drop_last();
        assert forall|i: int, j: int| 0 <= i < j < rest.len() implies (
        #[trigger] rest[i]).state.output != (#[trigger] rest[j]).state.output by {
            assert(rest[i] == surfaces[i] && rest[j] == surfaces[j]);
        }
        lemma_surfaces_without(rest, output);
        state::lemma_first_surface(rest, accepts);
        match state::output_index(rest, output) {
            Some(removed) => {
                assert(rest[removed] == surfaces[removed]);
                assert(surfaces.last().state.output != output);
                assert(surfaces_without(surfaces, output) =~= surfaces.remove(removed));
            },
            None => {
                if surfaces.last().state.output == output {
                    assert(surfaces_without(surfaces, output) =~= surfaces.remove(
                        surfaces.len() - 1,
                    ));
                } else {
                    assert(surfaces_without(surfaces, output) =~= surfaces);
                }
            },
        }
    } else {
        assert(surfaces_without(surfaces, output) =~= surfaces);
    }
}

/// The focus survives the loss of another output: it stays on the same surface.
pub proof fn law_focus_follows_its_surface(model: CurtainModel, output: u32, focused: usize)
    requires
        forall|i: int, j: int|
            0 <= i < j < model.surfaces.len() ==> (#[trigger] model.surfaces[i]).state.output != (
            #[trigger] model.surfaces[j]).state.output,
        model.outputs.focused_surface_index == Some(focused),
        focused < model.surfaces.len(),
        model.surfaces[focused as int].state.output != output,
    ensures
        ({
            let after = output_gone(model, output);
            after.outputs.focused_surface_index matches Some(index) && index < after.surfaces.len()
                && after.surfaces[index as int] == model.surfaces[focused as int]
        }),
{
    lemma_surfaces_without(model.surfaces, output);
    state::lemma_first_surface(
        model.surfaces,
        |entry: SurfaceModel| entry.state.output == output,
    );
}

/// The curtain reports itself ready once, and only while the session is locked and every surface
/// has a size.
pub proof fn law_ready_means_everything_is_covered(model: CurtainModel, now: Moment)
    requires
        becomes_ready(model),
    ensures
        model.lock.session_locked,
        model.surfaces.len() > 0 && all_sized(model.surfaces),
        !becomes_ready(made_ready(model, now)),
{
}

/// A surface keeps what was drawn for it as long as its size stays.
pub proof fn law_same_size_keeps_the_scene(entry: SurfaceModel, requested: (u32, u32))
    requires
        entry.state.size == Some(surface::resolved_size(entry.state, entry.details, requested)),
    ensures
        configured_surface(entry, requested) == entry,
{
}

/// A confirmed lock is in effect from that moment, which also arms the outputs' going dark; the
/// report has the whole milliseconds and microseconds since the start.
pub proof fn law_confirmed_lock_is_in_effect(model: CurtainModel, now: Moment)
    requires
        model.timing.startup_started_at.nanos <= now.nanos,
        now.nanos - model.timing.startup_started_at.nanos < 1_000 * u64::MAX,
    ensures
        ({
            let after = confirmed(model, now);
            let passed = now.nanos - model.timing.startup_started_at.nanos;
            &&& after.lock.session_locked && after.lock.session_locked_at == Some(now)
            &&& after.outputs.screen_off.armed_at == Some(now)
            &&& after.outputs.screen_off.delay == model.outputs.screen_off.delay
            &&& after.timing.latency.session_locked_ms matches Some(ms) && ms * 1_000_000 <= passed
                < (ms + 1) * 1_000_000
            &&& after.timing.latency.session_locked_us matches Some(us) && us * 1_000 <= passed < (
            us + 1) * 1_000
            &&& after.lock.unlock_authorized == model.lock.unlock_authorized
            &&& after.lock.exit_requested == model.lock.exit_requested
            &&& after.surfaces == model.surfaces && after.shell == model.shell
        }),
{
}

/// A lock that the compositor takes back is a failure, whatever was asked for before, and the
/// curtain stops without unlocking.
pub proof fn law_revoked_lock_is_a_failure(model: CurtainModel, lock_is_locked: bool)
    ensures
        ({
            let after = revoked(model);
            &&& after.failure_reason is Some && after.failure_reason->0.len() > 0
            &&& after.lock.session_finished
            &&& state::may_stop(after)
            &&& state::shutdown_plan(after, lock_is_locked).lock != state::LockDisposal::Unlock
        }),
{
    reveal_strlit("compositor denied or revoked the session lock");
}

/// The curtain becomes ready exactly when the lock is in effect and there are surfaces that all
/// have their size, once; the report then counts them.
pub proof fn law_curtain_becomes_ready_once_covered(model: CurtainModel, now: Moment)
    requires
        model.surfaces.len() <= usize::MAX,
    ensures
        becomes_ready(model) <==> !model.lock.ready_notified && model.lock.session_locked
            && model.surfaces.len() > 0 && forall|i: int|
            0 <= i < model.surfaces.len() ==> (#[trigger] model.surfaces[i]).state.size is Some,
        made_ready(model, now).lock.ready_notified,
        made_ready(model, now).timing.latency.surface_count == model.surfaces.len(),
        made_ready(model, now).lock.session_locked == model.lock.session_locked,
        made_ready(model, now).surfaces == model.surfaces,
        model.redraw.pending_pre_ready ==> made_ready(model, now).redraw.pending_pre_ready,
{
}

/// A surface that is given a size has it, with the pictures of another size dropped; no other
/// surface changes.
pub proof fn law_configured_surface_has_its_size(
    model: CurtainModel,
    index: int,
    requested: (u32, u32),
    now: Moment,
)
    requires
        0 <= index < model.surfaces.len(),
    ensures
        ({
            let after = configured(model, index, requested, now);
            let entry = model.surfaces[index];
            let given = after.surfaces[index];
            let first = !model.timing.first_surface_configured_logged && entry.state.size is None;
            &&& after.surfaces.len() == model.surfaces.len()
            &&& forall|i: int|
                0 <= i < model.surfaces.len() && i != index ==> after.surfaces[i]
                    == model.surfaces[i]
            &&& given.state.size matches Some(size) && {
                &&& requested.0 > 0 && requested.1 > 0 ==> (size.logical_width, size.logical_height)
                    == requested
                &&& entry.state.size is Some && entry.state.size != Some(size)
                    ==> given.background is None && given.scene_base is None && given.pool is None
                &&& entry.state.size is None || entry.state.size == Some(size) ==> given.background
                    == entry.background && given.scene_base == entry.scene_base && given.pool
                    == entry.pool
            }
            &&& given.details == entry.details && given.state.surface == entry.state.surface
            &&& first ==> after.timing.first_surface_configured_at == Some(now)
            &&& after.lock == model.lock && after.shell == model.shell
        }),
{
}

/// The outputs that go dark are those that can and do not show the prompt.
pub proof fn law_secondary_outputs_are_those_without_the_prompt(
    model: CurtainModel,
    count: int,
    output: u32,
)
    requires
        0 <= count <= model.surfaces.len(),
    ensures
        secondary_outputs(model, count).contains(output) <==> exists|i: int|
            0 <= i < count && (#[trigger] model.surfaces[i]).state.output == output
                && model.surfaces[i].state.has_output_power && state::role_of(model, i)
                == OutputRole::SecondaryCurtain,
    decreases count,
{
    if count > 0 {
        let rest = secondary_outputs(model, count - 1);
        let whole = secondary_outputs(model, count);
        let last = model.surfaces[count - 1].state;
        law_secondary_outputs_are_those_without_the_prompt(model, count - 1, output);
        if rest.contains(output) {
            let at = rest.index_of(output);
            assert(whole[at] == output);
        }
        if state::role_of(model, count - 1) == OutputRole::SecondaryCurtain
            && last.has_output_power {
            assert(whole.last() == last.output);
            if whole.contains(output) && whole.last() != output {
                let at = whole.index_of(output);
                assert(rest[at] == output);
            }
        }
    }
}

/// An output that goes takes its surface along and leaves every other one.
pub proof fn law_gone_output_takes_its_surface(surfaces: Seq<SurfaceModel>, output: u32)
    ensures
        forall|i: int|
            0 <= i < surfaces_without(surfaces, output).len() ==> (
            #[trigger] surfaces_without(surfaces, output)[i]).state.output != output,
        forall|i: int|
            0 <= i < surfaces.len() && (#[trigger] surfaces[i]).state.output != output
                ==> surfaces_without(surfaces, output).contains(surfaces[i]),
        surfaces_without(surfaces, output).len() <= surfaces.len(),
    decreases surfaces.len(),
{
    if surfaces.len() > 0 {
        let before = surfaces.drop_last();
        let rest = surfaces_without(before, output);
        let whole = surfaces_without(surfaces, output);
        law_gone_output_takes_its_surface(before, output);
        assert forall|i: int|
            0 <= i < surfaces.len() && (
            #[trigger] surfaces[i]).state.output != output implies whole.contains(surfaces[i]) by {
            if i < before.len() {
                assert(before[i] == surfaces[i]);
                let at = rest.index_of(surfaces[i]);
                assert(whole[at] == surfaces[i]);
            } else {
                assert(whole.last() == surfaces[i]);
            }
        }
    }
}

} // verus!
