//! How a slideshow moves from one wallpaper to the next.

use crate::common::path;
use crate::common::path::FilePath;
use crate::common::time;
use crate::common::time::{Moment, Span};
use crate::curtain::background;
use crate::curtain::background::{BackgroundRenderSpec, SizedBuffer};
use crate::curtain::redraw;
use crate::curtain::redraw::RedrawTarget;
use crate::curtain::scene;
use crate::curtain::scene::StaticOverlay;
use crate::curtain::state;
use crate::curtain::state::{BackgroundState, CurtainApp, CurtainModel};
use crate::curtain::surface;
use crate::curtain::surface::{OutputRole, Picture, SurfaceModel, SurfaceState};
use crate::curtain::transition;
use crate::curtain::transition::{SlideshowTransition, TransitionModel};
use crate::renderer::buffer::{PixelBuffer, SoftwareBuffer};
use vstd::prelude::*;

verus! {

/// What a surface shows: with the prompt the whole scene, without it the wallpaper.
pub open spec fn snapshot(model: CurtainModel, index: int) -> Option<Picture> {
    let entry = model.surfaces[index];
    let (first, second) = if state::role_of(model, index) == OutputRole::PrimaryPrompt {
        (entry.scene_base, entry.background)
    } else {
        (entry.background, entry.scene_base)
    };
    match first {
        Some(picture) => Some(picture),
        None => second,
    }
}

pub open spec fn snapshots(model: CurtainModel) -> Seq<Option<Picture>> {
    Seq::new(model.surfaces.len(), |index: int| snapshot(model, index))
}

/// The curtain with another wallpaper, and nothing drawn from the old one.
pub open spec fn switched_to(model: CurtainModel, path: Seq<u8>) -> CurtainModel {
    background::source_forgotten(CurtainModel { background_path: Some(path), ..model })
}

/// The curtain at the begin of a crossfade to another wallpaper.
pub open spec fn fade_begun(model: CurtainModel, path: Seq<u8>, duration: Span) -> CurtainModel {
    CurtainModel {
        transition: Some(
            transition::loading_transition(snapshots(model), path, duration),
        ),
        background_path: Some(path),
        background: BackgroundState { render_started: false, ..model.background },
        ..model
    }
}

/// What is to be done after a slideshow was asked for its next picture.
#[derive(Debug)]
pub enum SlideshowMove {
    Stay,
    /// The new wallpaper takes over at once: these surfaces are drawn, then it is rendered.
    Switched(Vec<RedrawTarget>),
    /// The new wallpaper is rendered, then these surfaces are drawn.
    Fading(Vec<BackgroundRenderSpec>, Vec<RedrawTarget>),
}

/// What a running crossfade asks for.
#[derive(Debug)]
pub enum TransitionStep {
    Idle,
    /// It is over: these surfaces are drawn with the new wallpaper.
    Finalized(Vec<RedrawTarget>),
    /// The next step of it is drawn on these surfaces.
    Render(Vec<RedrawTarget>),
}

/// The first `count` surfaces that have a size and wait for no frame callback.
pub open spec fn uncalled_surfaces(surfaces: Seq<SurfaceModel>, count: int) -> Seq<RedrawTarget>
    decreases count,
{
    if count <= 0 {
        Seq::empty()
    } else {
        let rest = uncalled_surfaces(surfaces, count - 1);
        let last = surfaces[count - 1];
        match last.state.size {
            Some(size) => if last.state.frame_callback_pending {
                rest
            } else {
                rest.push(RedrawTarget { surface: last.state.surface, size })
            },
            None => rest,
        }
    }
}

/// A surface once a crossfade is over: it shows what it was faded to.
pub open spec fn settled(model: CurtainModel, fade: TransitionModel, index: int) -> SurfaceModel {
    let entry = model.surfaces[index];
    if index < fade.to.len() && fade.to[index] is Some {
        SurfaceModel {
            state: SurfaceState {
                scene_base_revision: model.shell.core.static_scene_revision,
                scene_base_has_layers: state::role_of(model, index) == OutputRole::PrimaryPrompt
                    && model.shell.core.theme.visual_layers,
                ..entry.state
            },
            scene_base: fade.to[index],
            background: None,
            background_path: Some(fade.to_path),
            ..entry
        }
    } else {
        entry
    }
}

pub open spec fn all_settled(model: CurtainModel, fade: TransitionModel) -> CurtainModel {
    CurtainModel {
        surfaces: Seq::new(model.surfaces.len(), |index: int| settled(model, fade, index)),
        transition: None,
        background: BackgroundState { render_started: true, ..model.background },
        ..model
    }
}

/// Every new picture belongs to a surface that is still there.
pub open spec fn targets_have_surfaces(model: CurtainModel) -> bool {
    model.transition matches Some(fade) ==> forall|i: int|
        0 <= i < fade.to.len() && (#[trigger] fade.to[i]) is Some ==> i < model.surfaces.len()
}

/// A running crossfade between two pictures of a surface.
pub open spec fn crossfade_of(model: CurtainModel, index: int, now: Moment) -> Option<
    (Picture, Picture, u16),
> {
    match model.transition {
        Some(fade) => match transition::shown_progress(fade, now) {
            Some(progress) => if index < fade.from.len() && index < fade.to.len() {
                match (fade.from[index], fade.to[index]) {
                    (Some(from), Some(to)) => Some((from, to, progress)),
                    _ => None,
                }
            } else {
                None
            },
            None => None,
        },
        None => None,
    }
}

/// Whether the surface lists agree in all that decides which one shows the prompt.
pub open spec fn same_outlines(a: Seq<SurfaceModel>, b: Seq<SurfaceModel>) -> bool {
    a.len() == b.len() && forall|i: int|
        0 <= i < a.len() ==> (#[trigger] a[i]).details == b[i].details && a[i].state.size
            == b[i].state.size
}

proof fn lemma_first_surface_same(
    a: Seq<SurfaceModel>,
    b: Seq<SurfaceModel>,
    accepts: spec_fn(SurfaceModel) -> bool,
)
    requires
        a.len() == b.len(),
        forall|i: int| 0 <= i < a.len() ==> accepts(#[trigger] a[i]) == accepts(b[i]),
    ensures
        state::first_surface(a, accepts) == state::first_surface(b, accepts),
    decreases a.len(),
{
    if a.len() > 0 {
        let first = a.drop_last();
        let second = b.drop_last();
        assert forall|i: int| 0 <= i < first.len() implies accepts(#[trigger] first[i]) == accepts(
            second[i],
        ) by {
            assert(first[i] == a[i]);
        }
        lemma_first_surface_same(first, second, accepts);
        assert(accepts(a[a.len() - 1]) == accepts(b[a.len() - 1]));
    }
}

/// What is drawn on a surface does not decide whether it shows the prompt.
pub proof fn lemma_roles_kept(a: CurtainModel, b: CurtainModel, index: int)
    requires
        a.outputs == b.outputs,
        a.ui_output_name == b.ui_output_name,
        same_outlines(a.surfaces, b.surfaces),
    ensures
        state::role_of(a, index) == state::role_of(b, index),
{
    if let Some(name) = a.ui_output_name {
        lemma_first_surface_same(
            a.surfaces,
            b.surfaces,
            |entry: SurfaceModel| surface::details_name(entry.details) == Some(name),
        );
    }
    lemma_first_surface_same(
        a.surfaces,
        b.surfaces,
        |entry: SurfaceModel| entry.state.size is Some,
    );
    if let Some(focused) = a.outputs.focused_surface_index {
        if focused < a.surfaces.len() {
            assert(a.surfaces[focused as int].state.size == b.surfaces[focused as int].state.size);
        }
    }
}

fn copied(buffer: &Option<SoftwareBuffer>) -> (copy: Option<SoftwareBuffer>)
    requires
        buffer matches Some(buffer) ==> buffer.wf(),
    ensures
        surface::optional_picture(copy) == surface::optional_picture(*buffer),
        copy matches Some(copy) ==> copy.wf(),
{
    match buffer {
        Some(buffer) => Some(buffer.clone()),
        None => None,
    }
}

impl CurtainApp {
    /// What a surface shows, to fade from.
    pub fn snapshot_slideshow_surface_buffer(&self, index: usize) -> (shown: Option<SoftwareBuffer>)
        requires
            self.wf(),
            index < self.lock_surfaces@.len(),
        ensures
            surface::optional_picture(shown) == snapshot(self@, index as int),
            shown matches Some(buffer) ==> buffer.wf(),
    {
        let visible = self.ui_visible_on_surface(index);
        let entry = &self.lock_surfaces[index];
        assert(entry.wf());
        let (first, second) = if visible {
            (&entry.scene_base, &entry.background)
        } else {
            (&entry.background, &entry.scene_base)
        };
        if first.is_some() {
            copied(first)
        } else {
            copied(second)
        }
    }

    fn surface_snapshots(&self) -> (buffers: Vec<Option<SoftwareBuffer>>)
        requires
            self.wf(),
        ensures
            transition::pictures(buffers@) == snapshots(self@),
            transition::whole_pictures(buffers@),
    {
        let mut buffers: Vec<Option<SoftwareBuffer>> = Vec::new();
        let mut index: usize = 0;
        while index < self.lock_surfaces.len()
            invariant
                index <= self.lock_surfaces@.len(),
                self.wf(),
                buffers@.len() == index,
                transition::whole_pictures(buffers@),
                forall|i: int|
                    0 <= i < index ==> surface::optional_picture(#[trigger] buffers@[i])
                        == snapshot(self@, i),
            decreases self.lock_surfaces@.len() - index,
        {
            buffers.push(self.snapshot_slideshow_surface_buffer(index));
            index += 1;
        }
        assert(transition::pictures(buffers@) =~= snapshots(self@));
        buffers
    }

    /// Whether a slideshow may move on: not while the screens are dark.
    pub fn slideshow_may_advance(&self) -> (may: bool)
        ensures
            may == !self.outputs.screen_off.powered_off,
    {
        !self.outputs.screen_off.powered_off
    }

    /// Moves on to the next picture of a slideshow, if there is one: at once where it does not
    /// fade, else by a crossfade.
    pub fn advance_background_slideshow(&mut self, next: Option<FilePath>, duration: Span) -> (step:
        SlideshowMove)
        requires
            old(self).wf(),
            duration.nanos <= u64::MAX * time::NANOS_PER_SECOND + 999_999_999,
        ensures
            final(self).wf(),
            match next {
                None => step is Stay && final(self)@ == old(self)@,
                Some(path) => if duration.nanos == 0 {
                    let after = switched_to(old(self)@, path@);
                    &&& final(self)@ == redraw::after_redraw_request(after)
                    &&& step matches SlideshowMove::Switched(targets) && targets@
                        == redraw::redraw_targets(after)
                } else {
                    let begun = fade_begun(old(self)@, path@, duration);
                    let after = background::after_render_start(begun);
                    &&& final(self)@ == redraw::after_redraw_request(after)
                    &&& step matches SlideshowMove::Fading(renders, targets)
                        && background::spec_models(renders@) == background::renders_to_start(begun)
                        && targets@ == redraw::redraw_targets(after)
                },
            },
    {
        let path = match next {
            Some(path) => path,
            None => {
                return SlideshowMove::Stay;
            },
        };
        if duration.nanos == 0 {
            self.background_path = Some(path);
            self.reset_background_source_state();
            return SlideshowMove::Switched(self.render_all_surfaces());
        }
        let from_buffers = self.surface_snapshots();
        let to_path = path.clone();
        self.slideshow_transition = Some(
            SlideshowTransition::new(from_buffers, to_path, duration),
        );
        self.background_path = Some(path);
        self.background.render_started = false;
        let renders = self.maybe_start_background_render();
        let targets = self.render_all_surfaces();
        SlideshowMove::Fading(renders, targets)
    }

    /// Ends a crossfade: every surface shows what it was faded to.
    pub fn finalize_slideshow_transition(&mut self) -> (targets: Vec<RedrawTarget>)
        requires
            old(self).wf(),
            targets_have_surfaces(old(self)@),
        ensures
            final(self).wf(),
            match old(self)@.transition {
                Some(fade) => {
                    let after = all_settled(old(self)@, fade);
                    final(self)@ == redraw::after_redraw_request(after) && targets@
                        == redraw::redraw_targets(after)
                },
                None => final(self)@ == old(self)@ && targets@.len() == 0,
            },
    {
        let ghost before = *self;
        let mut fade = match self.slideshow_transition.take() {
            Some(fade) => fade,
            None => {
                return Vec::new();
            },
        };
        let ghost whole = fade@;
        let ghost taken = *self;
        let ghost given = fade.to_buffers@;
        let revision = self.ui_shell.static_scene_revision();
        let layered = self.ui_shell.has_visual_layers();
        let mut index: usize = 0;
        while index < fade.to_buffers.len()
            invariant
                index <= fade.to_buffers@.len(),
                fade.to_buffers@.len() == given.len(),
                whole.to == transition::pictures(given),
                whole.to_path == fade.to_path@,
                transition::whole_pictures(given),
                taken@ == (CurtainModel { transition: None, ..before@ }),
                before@.transition == Some(whole),
                targets_have_surfaces(before@),
                self.wf(),
                self@ == (CurtainModel { surfaces: self@.surfaces, ..taken@ }),
                self@.surfaces.len() == before@.surfaces.len(),
                same_outlines(before@.surfaces, self@.surfaces),
                revision == before@.shell.core.static_scene_revision,
                layered == before@.shell.core.theme.visual_layers,
                forall|i: int| index <= i < given.len() ==> (#[trigger] fade.to_buffers@[i]) == given[i],
                forall|i: int|
                    0 <= i < index && i < self@.surfaces.len() ==> (#[trigger] self@.surfaces[i])
                        == settled(before@, whole, i),
                forall|i: int|
                    index <= i < self@.surfaces.len() ==> (#[trigger] self@.surfaces[i])
                        == before@.surfaces[i],
            decreases fade.to_buffers@.len() - index,
        {
            assert(fade.to_buffers@[index as int] == given[index as int]);
            assert(whole.to[index as int] == surface::optional_picture(given[index as int]));
            let mut target: Option<SoftwareBuffer> = None;
            std::mem::swap(&mut target, &mut fade.to_buffers[index]);
            if let Some(target) = target {
                assert(whole.to[index as int] is Some);
                assert(index < before@.surfaces.len());
                proof {
                    lemma_roles_kept(before@, self@, index as int);
                }
                let ghost current = *self;
                let visible = self.ui_visible_on_surface(index);
                let shown = fade.to_path.clone();
                let entry = &mut self.lock_surfaces[index];
                entry.scene_base = Some(target);
                entry.background = None;
                entry.background_path = Some(shown);
                entry.state.scene_base_revision = revision;
                entry.state.scene_base_has_layers = visible && layered;
                proof {
                    state::lemma_surface_changed(
                        current.lock_surfaces@,
                        self.lock_surfaces@,
                        index as int,
                    );
                }
            }
            index += 1;
        }
        self.background.render_started = true;
        assert(self@.surfaces =~= all_settled(before@, whole).surfaces);
        self.render_all_surfaces()
    }

    /// Looks after a crossfade. Frames are drawn when the compositor asks for them; this ends the
    /// crossfade in time and draws surfaces for which no frame was asked yet.
    pub fn advance_slideshow_transition(&mut self, now: Moment) -> (step: TransitionStep)
        requires
            old(self).wf(),
            targets_have_surfaces(old(self)@),
        ensures
            final(self).wf(),
            match old(self)@.transition {
                Some(fade) => if fade.started_at is None {
                    step is Idle && final(self)@ == old(self)@
                } else if transition::is_over(fade, now) {
                    let after = all_settled(old(self)@, fade);
                    &&& final(self)@ == redraw::after_redraw_request(after)
                    &&& step matches TransitionStep::Finalized(targets) && targets@
                        == redraw::redraw_targets(after)
                } else {
                    &&& final(self)@ == old(self)@
                    &&& step matches TransitionStep::Render(targets) && targets@
                        == uncalled_surfaces(
                        old(self)@.surfaces,
                        old(self)@.surfaces.len() as int,
                    )
                },
                None => step is Idle && final(self)@ == old(self)@,
            },
    {
        let over = match &self.slideshow_transition {
            Some(fade) => {
                if fade.is_loading() {
                    return TransitionStep::Idle;
                }
                fade.is_complete(now)
            },
            None => {
                return TransitionStep::Idle;
            },
        };
        if over {
            return TransitionStep::Finalized(self.finalize_slideshow_transition());
        }
        let mut targets: Vec<RedrawTarget> = Vec::new();
        let mut index: usize = 0;
        assert(targets@ =~= Seq::empty());
        while index < self.lock_surfaces.len()
            invariant
                index <= self.lock_surfaces@.len(),
                *self == *old(self),
                targets@ == uncalled_surfaces(self@.surfaces, index as int),
            decreases self.lock_surfaces@.len() - index,
        {
            let entry = self.lock_surfaces[index].state;
            assert(self@.surfaces[index as int].state == entry);
            if let Some(size) = entry.size {
                if !entry.frame_callback_pending {
                    targets.push(RedrawTarget { surface: entry.surface, size });
                }
            }
            index += 1;
        }
        TransitionStep::Render(targets)
    }

    /// The compositor asks for the next frame of a surface.
    pub fn on_surface_frame_callback(&mut self, surface: u32, now: Moment) -> (step: TransitionStep)
        requires
            old(self).wf(),
            targets_have_surfaces(old(self)@),
        ensures
            final(self).wf(),
            match state::tracked_index(old(self)@.surfaces, surface) {
                None => step is Idle && final(self)@ == old(self)@,
                Some(index) => {
                    let called = frame_called(old(self)@, index);
                    match old(self)@.transition {
                        Some(fade) => if fade.started_at is None {
                            step is Idle && final(self)@ == called
                        } else if transition::is_over(fade, now) {
                            let after = all_settled(called, fade);
                            &&& final(self)@ == redraw::after_redraw_request(after)
                            &&& step matches TransitionStep::Finalized(targets) && targets@
                                == redraw::redraw_targets(after)
                        } else {
                            &&& final(self)@ == called
                            &&& step matches TransitionStep::Render(targets) && targets@
                                == match called.surfaces[index].state.size {
                                Some(size) => seq![RedrawTarget { surface, size }],
                                None => Seq::empty(),
                            }
                        },
                        None => step is Idle && final(self)@ == called,
                    }
                },
            },
    {
        proof {
            state::lemma_first_surface(
                self@.surfaces,
                |entry: SurfaceModel| entry.state.surface == surface,
            );
        }
        let index: usize = match self.surface_index(surface) {
            Some(index) => index,
            None => {
                return TransitionStep::Idle;
            },
        };
        let ghost before = *self;
        self.lock_surfaces[index].state.frame_callback_pending = false;
        proof {
            state::lemma_surface_changed(
                before.lock_surfaces@,
                self.lock_surfaces@,
                index as int,
            );
        }
        assert(self@ == frame_called(before@, index as int));
        let over = match &self.slideshow_transition {
            Some(fade) => {
                if !fade.is_animating() {
                    return TransitionStep::Idle;
                }
                fade.is_complete(now)
            },
            None => {
                return TransitionStep::Idle;
            },
        };
        if over {
            return TransitionStep::Finalized(self.finalize_slideshow_transition());
        }
        let mut targets: Vec<RedrawTarget> = Vec::new();
        assert(targets@ =~= Seq::empty());
        if let Some(size) = self.lock_surfaces[index].state.size {
            targets.push(RedrawTarget { surface, size });
            assert(targets@ =~= seq![RedrawTarget { surface, size }]);
        }
        TransitionStep::Render(targets)
    }

    /// Whether the compositor is to be asked for a frame callback; it is asked for one at a time.
    pub fn request_surface_frame_callback(&mut self, index: usize) -> (request: bool)
        requires
            index < old(self).lock_surfaces@.len(),
        ensures
            request == !old(self)@.surfaces[index as int].state.frame_callback_pending,
            final(self)@ == callback_requested(old(self)@, index as int),
            old(self).wf() ==> final(self).wf(),
    {
        let ghost before = *self;
        if self.lock_surfaces[index].state.frame_callback_pending {
            assert(self@.surfaces =~= callback_requested(before@, index as int).surfaces);
            return false;
        }
        self.lock_surfaces[index].state.frame_callback_pending = true;
        proof {
            state::lemma_surface_changed(
                before.lock_surfaces@,
                self.lock_surfaces@,
                index as int,
            );
        }
        true
    }

    /// The pictures a surface fades between, and how far it is.
    pub fn slideshow_crossfade_for_surface(&self, index: usize, now: Moment) -> (fade: Option<
        (&SoftwareBuffer, &SoftwareBuffer, u16),
    >)
        requires
            self.wf(),
        ensures
            match (fade, crossfade_of(self@, index as int, now)) {
                (Some((from, to, progress)), Some((first, second, step))) => surface::picture(*from)
                    == first && surface::picture(*to) == second && progress == step && from.wf()
                    && to.wf() && progress <= 10_000,
                (None, None) => true,
                _ => false,
            },
    {
        match &self.slideshow_transition {
            Some(fade) => {
                let progress = match fade.fade_progress(now) {
                    Some(progress) => progress,
                    None => {
                        return None;
                    },
                };
                if index < fade.from_buffers.len() && index < fade.to_buffers.len() {
                    assert(fade@.from[index as int] == surface::optional_picture(
                        fade.from_buffers@[index as int],
                    ));
                    assert(fade@.to[index as int] == surface::optional_picture(
                        fade.to_buffers@[index as int],
                    ));
                    match (&fade.from_buffers[index], &fade.to_buffers[index]) {
                        (Some(from), Some(to)) => Some((from, to, progress)),
                        _ => None,
                    }
                } else {
                    None
                }
            },
            None => None,
        }
    }
}

pub open spec fn frame_called(model: CurtainModel, index: int) -> CurtainModel {
    CurtainModel {
        surfaces: model.surfaces.update(
            index,
            SurfaceModel {
                state: SurfaceState {
                    frame_callback_pending: false,
                    ..model.surfaces[index].state
                },
                ..model.surfaces[index]
            },
        ),
        ..model
    }
}

pub open spec fn callback_requested(model: CurtainModel, index: int) -> CurtainModel {
    CurtainModel {
        surfaces: model.surfaces.update(
            index,
            SurfaceModel {
                state: SurfaceState {
                    frame_callback_pending: true,
                    ..model.surfaces[index].state
                },
                ..model.surfaces[index]
            },
        ),
        ..model
    }
}

/// A picture to fade to, and the surface it was drawn for.
#[derive(Debug)]
pub struct BuiltTarget {
    pub index: usize,
    pub buffer: SoftwareBuffer,
}

/// Whether a surface still needs its new picture and one was loaded in its size.
pub open spec fn needs_target(model: CurtainModel, buffers: Seq<SizedBuffer>, index: int) -> bool {
    &&& model.surfaces[index].state.size matches Some(size) && background::picture_for(
        buffers,
        size.buffer,
    ) is Some
    &&& !(model.transition matches Some(fade) && index < fade.to.len() && fade.to[index] is Some)
}

/// The first `count` surfaces that need their new picture.
pub open spec fn needed_targets(
    model: CurtainModel,
    buffers: Seq<SizedBuffer>,
    count: int,
) -> Seq<usize>
    decreases count,
{
    if count <= 0 {
        Seq::empty()
    } else {
        let rest = needed_targets(model, buffers, count - 1);
        if needs_target(model, buffers, count - 1) {
            rest.push((count - 1) as usize)
        } else {
            rest
        }
    }
}

/// The new pictures with those added that were built; a picture that is there stays.
pub open spec fn filled(to: Seq<Option<Picture>>, built: Seq<BuiltTarget>) -> Seq<Option<Picture>>
    decreases built.len(),
{
    if built.len() == 0 {
        to
    } else {
        let rest = filled(to, built.drop_last());
        let last = built.last();
        if rest[last.index as int] is None {
            rest.update(last.index as int, Some(surface::picture(last.buffer)))
        } else {
            rest
        }
    }
}

/// A crossfade after new pictures were built. It begins once every surface has one.
pub open spec fn with_targets(
    fade: TransitionModel,
    built: Seq<BuiltTarget>,
    now: Moment,
) -> TransitionModel {
    let to = filled(fade.to, built);
    TransitionModel {
        to,
        started_at: if fade.started_at is None && transition::all_ready(to) {
            Some(now)
        } else {
            fade.started_at
        },
        ..fade
    }
}

proof fn lemma_filled(to: Seq<Option<Picture>>, built: Seq<BuiltTarget>)
    requires
        forall|i: int| 0 <= i < built.len() ==> (#[trigger] built[i]).index < to.len(),
    ensures
        filled(to, built).len() == to.len(),
        forall|i: int|
            0 <= i < to.len() && (#[trigger] to[i]) is Some ==> filled(to, built)[i] == to[i],
    decreases built.len(),
{
    if built.len() > 0 {
        assert forall|i: int| 0 <= i < built.drop_last().len() implies (
        #[trigger] built.drop_last()[i]).index < to.len() by {
            assert(built.drop_last()[i] == built[i]);
        }
        assert(built[built.len() - 1].index < to.len());
        lemma_filled(to, built.drop_last());
        let rest = filled(to, built.drop_last());
        assert forall|i: int| 0 <= i < to.len() && (#[trigger] to[i]) is Some implies filled(
            to,
            built,
        )[i] == to[i] by {
            assert(rest[i] == to[i]);
        }
    }
}

impl CurtainApp {
    /// Whether a crossfade to this wallpaper is under way.
    pub fn transition_awaits(&self, path: &FilePath) -> (awaits: bool)
        ensures
            awaits == (self@.transition matches Some(fade) && path::same_place(
                fade.to_path,
                path@,
            )),
    {
        match &self.slideshow_transition {
            Some(fade) => fade.to_path.same_as(path),
            None => false,
        }
    }

    /// The surfaces whose new picture can be built from what was loaded.
    pub fn slideshow_targets(&self, buffers: &Vec<SizedBuffer>) -> (indices: Vec<usize>)
        requires
            background::whole_buffers(buffers@),
        ensures
            indices@ == needed_targets(self@, buffers@, self@.surfaces.len() as int),
            forall|i: int|
                0 <= i < indices@.len() ==> (#[trigger] indices@[i]) < self.lock_surfaces@.len(),
    {
        let mut indices: Vec<usize> = Vec::new();
        let mut index: usize = 0;
        assert(indices@ =~= Seq::empty());
        while index < self.lock_surfaces.len()
            invariant
                index <= self.lock_surfaces@.len(),
                background::whole_buffers(buffers@),
                indices@ == needed_targets(self@, buffers@, index as int),
                forall|i: int| 0 <= i < indices@.len() ==> (#[trigger] indices@[i]) < index,
            decreases self.lock_surfaces@.len() - index,
        {
            let loaded = match self.lock_surfaces[index].state.size {
                Some(size) => background::has_buffer_for(buffers, size.buffer),
                None => false,
            };
            let present = match &self.slideshow_transition {
                Some(fade) => {
                    assert(index < fade.to_buffers@.len() ==> fade@.to[index as int]
                        == surface::optional_picture(fade.to_buffers@[index as int]));
                    index < fade.to_buffers.len() && fade.to_buffers[index].is_some()
                },
                None => false,
            };
            assert(needs_target(self@, buffers@, index as int) == (loaded && !present));
            if loaded && !present {
                indices.push(index);
            }
            index += 1;
        }
        indices
    }

    /// What of the static scene is drawn over the new wallpaper of a surface: nothing where it
    /// does not show the prompt.
    pub fn begin_slideshow_scene(&mut self, index: usize, revision: u64) -> (overlay: Option<
        StaticOverlay,
    >)
        requires
            old(self).wf(),
            index < old(self).lock_surfaces@.len(),
        ensures
            final(self).wf(),
            if state::role_of(old(self)@, index as int) == OutputRole::PrimaryPrompt {
                overlay == Some(scene::overlay_for(old(self)@)) && final(self)@ == scene_begun(
                    old(self)@,
                    index as int,
                    revision,
                )
            } else {
                overlay is None && final(self)@ == old(self)@
            },
    {
        if !self.ui_visible_on_surface(index) {
            return None;
        }
        let (overlay, has_layers) = self.static_scene_overlay();
        let ghost before = *self;
        let entry = &mut self.lock_surfaces[index];
        entry.state.scene_base_has_layers = has_layers;
        entry.state.scene_base_revision = revision;
        proof {
            state::lemma_surface_changed(
                before.lock_surfaces@,
                self.lock_surfaces@,
                index as int,
            );
        }
        Some(overlay)
    }

    /// Takes the new pictures of a crossfade in, begins it once all are there, and asks for a
    /// redraw where anything changed.
    pub fn apply_slideshow_targets(&mut self, built: Vec<BuiltTarget>, now: Moment) -> (targets: Vec<
        RedrawTarget,
    >)
        requires
            old(self).wf(),
            forall|i: int| 0 <= i < built@.len() ==> (#[trigger] built@[i]).buffer.wf(),
            old(self)@.transition matches Some(fade) ==> forall|i: int|
                0 <= i < built@.len() ==> (#[trigger] built@[i]).index < fade.to.len(),
        ensures
            final(self).wf(),
            match old(self)@.transition {
                None => final(self)@ == old(self)@ && targets@.len() == 0,
                Some(fade) => {
                    let after = CurtainModel {
                        transition: Some(with_targets(fade, built@, now)),
                        ..old(self)@
                    };
                    if with_targets(fade, built@, now) == fade {
                        final(self)@ == old(self)@ && targets@.len() == 0
                    } else {
                        final(self)@ == redraw::after_redraw_request(after) && targets@
                            == redraw::redraw_targets(after)
                    }
                },
            },
    {
        let ghost before = *self;
        let mut fade = match self.slideshow_transition.take() {
            Some(fade) => fade,
            None => {
                return Vec::new();
            },
        };
        let ghost whole = fade@;
        let count: usize = built.len();
        let ghost given = built@;
        let mut built = built;
        let mut changed = false;
        // The last target is taken from the end of the reversed list, so that they are taken in
        // order.
        let mut queue: Vec<BuiltTarget> = Vec::new();
        while built.len() > 0
            invariant
                built@.len() + queue@.len() == count,
                given.len() == count,
                forall|i: int| 0 <= i < built@.len() ==> (#[trigger] built@[i]) == given[i],
                forall|i: int|
                    0 <= i < queue@.len() ==> (#[trigger] queue@[i]) == given[count - 1 - i],
            decreases built@.len(),
        {
            if let Some(target) = built.pop() {
                queue.push(target);
            }
        }
        let mut index: usize = 0;
        assert(given.take(0) =~= Seq::empty());
        while index < count
            invariant
                index <= count,
                given.len() == count,
                queue@.len() == count - index,
                fade.wf(),
                fade@ == (TransitionModel { to: filled(whole.to, given.take(index as int)), ..whole }),
                whole.to.len() == fade.to_buffers@.len(),
                changed == (fade@.to != whole.to),
                forall|i: int|
                    0 <= i < queue@.len() ==> (#[trigger] queue@[i]) == given[count - 1 - i],
                forall|i: int| 0 <= i < given.len() ==> (#[trigger] given[i]).buffer.wf(),
                forall|i: int|
                    0 <= i < given.len() ==> (#[trigger] given[i]).index < whole.to.len(),
            decreases count - index,
        {
            let ghost part = given.take(index + 1);
            assert(part.drop_last() =~= given.take(index as int));
            let ghost last = queue@.last();
            assert(last == given[index as int]);
            if let Some(target) = queue.pop() {
                assert(target == given[index as int]);
                let at: usize = target.index;
                assert(fade@.to[at as int] == surface::optional_picture(
                    fade.to_buffers@[at as int],
                ));
                if fade.to_buffers[at].is_none() {
                    let ghost old_to = fade@.to;
                    let ghost old_buffers = fade.to_buffers@;
                    proof {
                        assert forall|i: int| 0 <= i < part.drop_last().len() implies (
                        #[trigger] part.drop_last()[i]).index < whole.to.len() by {
                            assert(part.drop_last()[i] == given[i]);
                        }
                        lemma_filled(whole.to, part.drop_last());
                    }
                    fade.to_buffers[at] = Some(target.buffer);
                    changed = true;
                    proof {
                        assert(fade.to_buffers@ =~= old_buffers.update(
                            at as int,
                            Some(target.buffer),
                        ));
                        assert(fade@.to =~= old_to.update(
                            at as int,
                            Some(surface::picture(target.buffer)),
                        ));
                        assert(whole.to[at as int] is None) by {
                            if whole.to[at as int] is Some {
                                assert(old_to[at as int] == whole.to[at as int]);
                            }
                        }
                        assert(fade@.to[at as int] is Some);
                    }
                }
            }
            assert(fade@.to == filled(whole.to, part));
            index += 1;
        }
        assert(given.take(count as int) =~= given);
        if fade.all_targets_ready() && fade.is_loading() {
            fade.mark_animating(now);
            changed = true;
        }
        assert(fade@ == with_targets(whole, given, now));
        self.slideshow_transition = Some(fade);
        if changed {
            self.render_all_surfaces()
        } else {
            Vec::new()
        }
    }
}

pub open spec fn scene_begun(model: CurtainModel, index: int, revision: u64) -> CurtainModel {
    let after = scene::after_overlay(model);
    CurtainModel {
        surfaces: after.surfaces.update(
            index,
            SurfaceModel {
                state: SurfaceState {
                    scene_base_has_layers: scene::scene_has_layers(model),
                    scene_base_revision: revision,
                    ..after.surfaces[index].state
                },
                ..after.surfaces[index]
            },
        ),
        ..after
    }
}

/// When a crossfade ends, a surface shows the new wallpaper's picture and remembers its path, so
/// that loading that wallpaper once more changes nothing.
pub proof fn law_faded_wallpaper_is_current(model: CurtainModel, fade: TransitionModel, index: int)
    requires
        0 <= index < model.surfaces.len(),
        index < fade.to.len(),
        fade.to[index] is Some,
    ensures
        background::wallpaper_is_current(
            all_settled(model, fade),
            all_settled(model, fade).surfaces[index],
            fade.to_path,
            fade.to[index]->0.size,
        ),
{
}

/// A crossfade takes each new picture where none is yet, and starts at the moment that the last
/// one is there, not before.
pub proof fn law_fade_starts_when_every_picture_is_there(
    fade: TransitionModel,
    built: Seq<BuiltTarget>,
    now: Moment,
)
    requires
        forall|i: int| 0 <= i < built.len() ==> (#[trigger] built[i]).index < fade.to.len(),
    ensures
        ({
            let after = with_targets(fade, built, now);
            &&& fade.started_at is Some ==> after.started_at == fade.started_at
            &&& fade.started_at is None && (forall|i: int|
                0 <= i < after.to.len() ==> (#[trigger] after.to[i]) is Some) ==> after.started_at
                == Some(now)
            &&& fade.started_at is None && (exists|i: int|
                0 <= i < after.to.len() && (#[trigger] after.to[i]) is None) ==> after.started_at
                is None
            &&& after.to.len() == fade.to.len()
            &&& forall|i: int|
                0 <= i < fade.to.len() && (#[trigger] fade.to[i]) is Some ==> after.to[i]
                    == fade.to[i]
            &&& after.from == fade.from && after.to_path == fade.to_path && after.duration
                == fade.duration
        }),
{
    lemma_filled(fade.to, built);
}

/// The first picture that was built for a surface is the one it fades to, where it has none; a
/// surface that none was built for keeps what it has.
pub proof fn law_built_picture_is_faded_to(
    to: Seq<Option<Picture>>,
    built: Seq<BuiltTarget>,
    index: int,
    at: int,
)
    requires
        forall|i: int| 0 <= i < built.len() ==> (#[trigger] built[i]).index < to.len(),
        0 <= index < to.len(),
    ensures
        to[index] is None && 0 <= at < built.len() && built[at].index == index && (forall|i: int|
            0 <= i < at ==> (#[trigger] built[i]).index != index) ==> filled(to, built)[index]
            == Some(surface::picture(built[at].buffer)),
        (forall|i: int| 0 <= i < built.len() ==> (#[trigger] built[i]).index != index) ==> filled(
            to,
            built,
        )[index] == to[index],
    decreases built.len(),
{
    if built.len() > 0 {
        let before = built.drop_last();
        assert forall|i: int| 0 <= i < before.len() implies #[trigger] before[i] == built[i] by {}
        law_built_picture_is_faded_to(to, before, index, at);
        lemma_filled(to, before);
        if at == before.len() && built[at].index == index {
            if forall|i: int| 0 <= i < at ==> (#[trigger] built[i]).index != index {
                assert forall|i: int|
                    0 <= i < before.len() implies (#[trigger] before[i]).index != index by {
                    assert(built[i].index != index);
                }
            }
        } else if at < before.len() && at >= 0 {
            if built[at].index == index && to[index] is None && forall|i: int|
                0 <= i < at ==> (#[trigger] built[i]).index != index {
                assert forall|i: int| 0 <= i < at implies (#[trigger] before[i]).index != index by {
                    assert(built[i].index != index);
                }
            }
        }
        if forall|i: int| 0 <= i < built.len() ==> (#[trigger] built[i]).index != index {
            assert forall|i: int|
                0 <= i < before.len() implies (#[trigger] before[i]).index != index by {
                assert(built[i].index != index);
            }
            assert(built[built.len() - 1].index != index);
        }
    }
}

/// While a crossfade runs, the surfaces that are drawn next are those with a size that wait for no
/// callback.
pub proof fn law_fade_is_drawn_where_nothing_is_awaited(
    surfaces: Seq<SurfaceModel>,
    count: int,
    target: RedrawTarget,
)
    requires
        0 <= count <= surfaces.len(),
    ensures
        uncalled_surfaces(surfaces, count).contains(target) <==> exists|i: int|
            0 <= i < count && (#[trigger] surfaces[i]).state.surface == target.surface
                && surfaces[i].state.size == Some(target.size)
                && !surfaces[i].state.frame_callback_pending,
    decreases count,
{
    if count > 0 {
        let rest = uncalled_surfaces(surfaces, count - 1);
        let whole = uncalled_surfaces(surfaces, count);
        let last = surfaces[count - 1];
        law_fade_is_drawn_where_nothing_is_awaited(surfaces, count - 1, target);
        if rest.contains(target) {
            let at = rest.index_of(target);
            assert(whole[at] == target);
        }
        if last.state.size is Some && !last.state.frame_callback_pending {
            assert(whole.last() == (RedrawTarget {
                surface: last.state.surface,
                size: last.state.size->0,
            }));
            if whole.contains(target) && whole.last() != target {
                let at = whole.index_of(target);
                assert(rest[at] == target);
            }
        } else {
            assert(whole == rest);
        }
    }
}

/// When a crossfade is over, each surface has the picture it faded to as its whole scene, under
/// the new wallpaper; a surface without one is left alone.
pub proof fn law_fade_ends_on_its_pictures(
    model: CurtainModel,
    fade: TransitionModel,
    index: int,
)
    requires
        0 <= index < model.surfaces.len(),
    ensures
        ({
            let after = all_settled(model, fade);
            let entry = after.surfaces[index];
            &&& after.transition is None
            &&& after.surfaces.len() == model.surfaces.len()
            &&& index < fade.to.len() && fade.to[index] is Some ==> entry.scene_base
                == fade.to[index] && entry.background is None && entry.background_path == Some(
                fade.to_path,
            ) && entry.state.size == model.surfaces[index].state.size
                && entry.state.scene_base_revision == model.shell.core.static_scene_revision
            &&& index >= fade.to.len() || fade.to[index] is None ==> entry == model.surfaces[index]
        }),
{
}

/// A slide that comes at once forgets the old pictures; one that fades in keeps them and fades
/// away from what each surface shows. Either way the new wallpaper is the common one.
pub proof fn law_next_slide_becomes_the_wallpaper(
    model: CurtainModel,
    path: Seq<u8>,
    duration: Span,
    index: int,
)
    requires
        0 <= index < model.surfaces.len(),
    ensures
        ({
            let at_once = switched_to(model, path);
            let fading = fade_begun(model, path, duration);
            let entry = model.surfaces[index];
            &&& at_once.background_path == Some(path) && fading.background_path == Some(path)
            &&& !at_once.background.render_started && !fading.background.render_started
            &&& at_once.surfaces[index].background is None && at_once.surfaces[index].scene_base
                is None
            &&& fading.surfaces == model.surfaces
            &&& fading.transition matches Some(fade) && {
                &&& fade.to_path == path && fade.duration == duration && fade.started_at is None
                &&& fade.from.len() == model.surfaces.len()
                &&& fade.from[index] is None <==> entry.background is None && entry.scene_base
                    is None
                &&& state::role_of(model, index) == OutputRole::PrimaryPrompt && entry.scene_base
                    is Some ==> fade.from[index] == entry.scene_base
                &&& state::role_of(model, index) != OutputRole::PrimaryPrompt && entry.background
                    is Some ==> fade.from[index] == entry.background
            }
        }),
{
}

/// A surface shows a crossfade while it runs and both its pictures are there: from its own old
/// one, to its own new one.
pub proof fn law_crossfade_is_between_its_own_pictures(
    model: CurtainModel,
    index: int,
    now: Moment,
)
    ensures
        crossfade_of(model, index, now) matches Some((from, to, progress)) ==> {
            model.transition matches Some(fade) && fade.started_at is Some && fade.from[index]
                == Some(from) && fade.to[index] == Some(to) && transition::shown_progress(fade, now)
                == Some(progress)
        },
        model.transition is None ==> crossfade_of(model, index, now) is None,
        model.transition matches Some(fade) ==> (fade.started_at is Some && 0 <= index
            < fade.from.len() && index < fade.to.len() && fade.from[index] is Some
            && fade.to[index] is Some && fade.duration.nanos > 0 ==> crossfade_of(
            model,
            index,
            now,
        ) is Some),
{
}

/// New pictures are built for the surfaces that one of that size came for and that have none yet,
/// each once and in order.
pub proof fn law_pictures_are_built_where_they_are_missing(
    model: CurtainModel,
    buffers: Seq<SizedBuffer>,
    count: int,
    index: int,
)
    requires
        0 <= count <= usize::MAX,
        0 <= index < count,
    ensures
        needed_targets(model, buffers, count).contains(index as usize) <==> {
            let size = model.surfaces[index].state.size;
            &&& size is Some && background::picture_for(buffers, size->0.buffer) is Some
            &&& model.transition is None || index >= model.transition->0.to.len()
                || model.transition->0.to[index] is None
        },
        forall|i: int, j: int|
            0 <= i < j < needed_targets(model, buffers, count).len() ==> needed_targets(
                model,
                buffers,
                count,
            )[i] < needed_targets(model, buffers, count)[j],
{
    lemma_needed_targets(model, buffers, count, index);
}

proof fn lemma_needed_targets(
    model: CurtainModel,
    buffers: Seq<SizedBuffer>,
    count: int,
    index: int,
)
    requires
        0 <= count <= usize::MAX,
        0 <= index <= usize::MAX,
    ensures
        needed_targets(model, buffers, count).contains(index as usize) <==> index < count
            && needs_target(model, buffers, index),
        forall|i: int|
            0 <= i < needed_targets(model, buffers, count).len() ==> (#[trigger] needed_targets(
                model,
                buffers,
                count,
            )[i]) < count,
        forall|i: int, j: int|
            0 <= i < j < needed_targets(model, buffers, count).len() ==> needed_targets(
                model,
                buffers,
                count,
            )[i] < needed_targets(model, buffers, count)[j],
    decreases count,
{
    if count > 0 {
        lemma_needed_targets(model, buffers, count - 1, index);
        let rest = needed_targets(model, buffers, count - 1);
        let whole = needed_targets(model, buffers, count);
        if needs_target(model, buffers, count - 1) {
            assert(whole.last() == count - 1);
            if rest.contains(index as usize) {
                let at = rest.index_of(index as usize);
                assert(whole[at] == index);
            }
            if whole.contains(index as usize) && index != count - 1 {
                let at = whole.index_of(index as usize);
                assert(rest[at] == index);
            }
        } else {
            assert(whole == rest);
        }
    }
}

/// A callback that was asked for is awaited until it comes, on its surface alone.
pub proof fn law_callbacks_are_awaited(model: CurtainModel, index: int)
    requires
        0 <= index < model.surfaces.len(),
    ensures
        callback_requested(model, index).surfaces[index].state.frame_callback_pending,
        !frame_called(model, index).surfaces[index].state.frame_callback_pending,
        forall|i: int|
            0 <= i < model.surfaces.len() && i != index ==> callback_requested(
                model,
                index,
            ).surfaces[i] == model.surfaces[i] && frame_called(model, index).surfaces[i]
                == model.surfaces[i],
        !model.surfaces[index].state.frame_callback_pending ==> frame_called(
            callback_requested(model, index),
            index,
        ) == model,
{
    let entry = model.surfaces[index];
    if !entry.state.frame_callback_pending {
        let back = frame_called(callback_requested(model, index), index);
        assert(back.surfaces[index] == entry);
        assert(back.surfaces =~= model.surfaces);
    }
}

} // verus!
