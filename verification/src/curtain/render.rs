//! Drawing a surface, from what has to be prepared to the frame that is shown.

use crate::common::path;
use crate::common::time::Moment;
use crate::curtain::prepare;
use crate::curtain::prepare::{
    CacheLookup, CommitKind, LookupModel, RenderFailure, RenderStage, RenderStep, RenderTask,
    SceneTry, SceneTryModel, SceneVariants, StepModel,
};
use crate::curtain::slideshow;
use crate::curtain::state;
use crate::curtain::state::{CurtainApp, CurtainModel};
use crate::curtain::surface;
use crate::curtain::surface::{OutputRole, Picture, SurfaceModel, SurfaceSize};
use crate::renderer::buffer::{PixelBuffer, SoftwareBuffer};
use crate::ui::shell;
use vstd::prelude::*;

verus! {

/// A surface whose wallpaper is settled: with the prompt it gets its scene, without it it is
/// shown.
pub open spec fn after_background(
    model: CurtainModel,
    task: RenderTask,
    variants: SceneVariants,
) -> (CurtainModel, StepModel) {
    if task.ui_visible {
        prepare::scene_prepared(model, task, variants)
    } else {
        prepare::finished(model, task)
    }
}

/// The curtain with a wallpaper for one surface.
pub open spec fn background_stored(
    model: CurtainModel,
    task: RenderTask,
    picture: Picture,
) -> CurtainModel {
    let index = task.index as int;
    prepare::with_surface(
        model,
        index,
        SurfaceModel {
            background: Some(picture),
            background_path: state::wallpaper_of(model, index),
            ..model.surfaces[index]
        },
    )
}

/// Rendering the wallpaper of a surface. The one that is no picture, and the one that is loaded,
/// are rendered from what the curtain has.
pub open spec fn background_rendering(model: CurtainModel, task: RenderTask) -> StepModel {
    let wallpaper = state::wallpaper_of(model, task.index as int);
    StepModel::RenderBackground(
        RenderTask { stage: RenderStage::BackgroundRender, ..task },
        wallpaper,
        wallpaper is None || path::same_places(model.background_path, wallpaper),
    )
}

/// Whether the wallpaper of a surface can stay as it is.
pub open spec fn background_settled(model: CurtainModel, task: RenderTask) -> bool {
    let index = task.index as int;
    let entry = model.surfaces[index];
    ||| prepare::transition_preserves(model, index)
    ||| task.ui_visible && prepare::scene_matches(model, index, task.size.buffer, task.revision)
    ||| (entry.background matches Some(background) && background.size == task.size.buffer)
        && path::same_places(entry.background_path, state::wallpaper_of(model, index))
}

/// A surface gets its wallpaper: what is there is kept, else the cache is asked, else it is
/// rendered.
pub open spec fn background_prepared(
    model: CurtainModel,
    task: RenderTask,
    variants: SceneVariants,
) -> (CurtainModel, StepModel) {
    if background_settled(model, task) {
        after_background(model, RenderTask { background_refreshed: false, ..task }, variants)
    } else {
        match prepare::source_of(model, task.index as int) {
            Some(source) => (
                model,
                StepModel::Lookup(
                    RenderTask { stage: RenderStage::BackgroundCache, ..task },
                    LookupModel { source, size: task.size.buffer, variant: None },
                ),
            ),
            None => (model, background_rendering(model, task)),
        }
    }
}

/// What follows the first attempt to get hold of a scene.
pub open spec fn after_first_try(
    model: CurtainModel,
    task: RenderTask,
    attempt: SceneTryModel,
    stage: RenderStage,
    variants: SceneVariants,
) -> (CurtainModel, StepModel) {
    match attempt {
        SceneTryModel::Settled(_) => prepare::finished(model, task),
        SceneTryModel::Lookup(lookup) => (
            model,
            StepModel::Lookup(RenderTask { stage, ..task }, lookup),
        ),
        SceneTryModel::Unsettled => background_prepared(model, task, variants),
    }
}

/// What follows an attempt to get hold of a scene, the first one or the second.
pub open spec fn after_try(
    model: CurtainModel,
    task: RenderTask,
    attempt: SceneTryModel,
    stage: RenderStage,
    variants: SceneVariants,
) -> (CurtainModel, StepModel) {
    if task.again {
        prepare::after_second_try(model, task, attempt, stage)
    } else {
        after_first_try(model, task, attempt, stage, variants)
    }
}

/// Preparing a surface from the start.
pub open spec fn preparing(
    model: CurtainModel,
    task: RenderTask,
    variants: SceneVariants,
) -> (CurtainModel, StepModel) {
    if task.ui_visible {
        let (tried, attempt) = prepare::scene_try(model, task, variants);
        after_first_try(tried, task, attempt, RenderStage::SceneCache, variants)
    } else {
        background_prepared(model, task, variants)
    }
}

pub open spec fn first_task(model: CurtainModel, index: int, size: SurfaceSize) -> RenderTask {
    RenderTask {
        index: index as usize,
        surface: model.surfaces[index].state.surface,
        size,
        revision: model.shell.core.static_scene_revision,
        first_frame: model.surfaces[index].pool is None,
        ui_visible: state::role_of(model, index) == OutputRole::PrimaryPrompt,
        background_refreshed: false,
        again: false,
        stage: RenderStage::SceneCache,
    }
}

/// The curtain without a crossfade and with nothing drawn for one surface.
pub open spec fn rebuilt(model: CurtainModel, index: int) -> CurtainModel {
    prepare::with_surface(
        CurtainModel { transition: None, ..model },
        index,
        surface::surface_reset(model.surfaces[index]),
    )
}

/// Drawing a surface. A running crossfade is shown, unless its pictures no longer have the size
/// of the surface: then it is given up.
pub open spec fn render_begun(
    model: CurtainModel,
    surface: u32,
    size: SurfaceSize,
    variants: SceneVariants,
    now: Moment,
) -> (CurtainModel, StepModel) {
    match state::tracked_index(model.surfaces, surface) {
        None => (model, StepModel::Failed(RenderFailure::Untracked)),
        Some(index) => {
            let task = first_task(model, index, size);
            match slideshow::crossfade_of(model, index, now) {
                Some((from, to, progress)) => if from.size == size.buffer && to.size
                    == size.buffer {
                    prepare::committing(
                        model,
                        task,
                        size.buffer,
                        CommitKind::Crossfade { progress, shell: task.ui_visible },
                    )
                } else {
                    preparing(rebuilt(model, index), task, variants)
                },
                None => preparing(model, task, variants),
            }
        },
    }
}

/// Going on once the cache has answered.
pub open spec fn lookup_answered(
    model: CurtainModel,
    task: RenderTask,
    found: Option<Picture>,
    variants: SceneVariants,
) -> (CurtainModel, StepModel) {
    match (task.stage, found) {
        (RenderStage::SceneCache, Some(picture)) => prepare::finished(
            prepare::scene_stored(model, task, picture, true),
            task,
        ),
        (RenderStage::SceneCache, None) => {
            let (tried, attempt) = prepare::sibling_try(model, task, variants);
            after_try(tried, task, attempt, RenderStage::BackdropCache, variants)
        },
        (RenderStage::BackdropCache, Some(picture)) => prepare::drawing(
            model,
            task,
            picture,
            false,
        ),
        (RenderStage::BackdropCache, None) => after_try(
            model,
            task,
            SceneTryModel::Unsettled,
            RenderStage::BackdropCache,
            variants,
        ),
        (RenderStage::BackgroundCache, Some(picture)) => after_background(
            background_stored(model, task, picture),
            RenderTask { background_refreshed: true, ..task },
            variants,
        ),
        (RenderStage::BackgroundCache, None) => (model, background_rendering(model, task)),
        (_, Some(picture)) => prepare::drawing(model, task, picture, true),
        (RenderStage::SceneFile, None) => prepare::scene_from_generated(model, task),
        (_, None) => prepare::scene_from_old(model, task),
    }
}

/// Going on once the wallpaper was rendered.
pub open spec fn background_answered(
    model: CurtainModel,
    task: RenderTask,
    picture: Picture,
    variants: SceneVariants,
) -> (CurtainModel, StepModel) {
    after_background(
        background_stored(model, task, picture),
        RenderTask { background_refreshed: true, ..task },
        variants,
    )
}

/// Going on once the scene was drawn.
pub open spec fn drawing_answered(model: CurtainModel, task: RenderTask, picture: Picture) -> (
    CurtainModel,
    StepModel,
) {
    let index = task.index as int;
    match task.stage {
        RenderStage::SceneOverBackdrops { has_layers } => prepare::finished(
            prepare::scene_stored(model, task, picture, has_layers),
            task,
        ),
        RenderStage::SceneOverBackground { has_layers } => prepare::finished(
            prepare::with_surface(
                model,
                index,
                prepare::with_scene(
                    model.surfaces[index],
                    picture,
                    task.revision,
                    has_layers,
                    model.surfaces[index].background_path,
                ),
            ),
            task,
        ),
        _ => (model, StepModel::Unchanged),
    }
}

pub open spec fn waits_for_lookup(stage: RenderStage) -> bool {
    match stage {
        RenderStage::SceneCache
        | RenderStage::BackdropCache
        | RenderStage::BackgroundCache
        | RenderStage::SceneFile
        | RenderStage::SceneGenerated => true,
        _ => false,
    }
}

pub open spec fn waits_for_drawing(stage: RenderStage) -> bool {
    stage is SceneOverBackdrops || stage is SceneOverBackground
}

/// Whether a frame with a static scene has that scene.
pub open spec fn scene_is_there(model: CurtainModel, step: StepModel) -> bool {
    match step {
        StepModel::Commit(plan) => plan.kind == CommitKind::Scene
            ==> model.surfaces[plan.index as int].scene_base is Some,
        _ => true,
    }
}

impl CurtainApp {
    fn follow_background(&mut self, task: RenderTask, variants: &SceneVariants) -> (step: RenderStep)
        requires
            old(self).wf(),
            task.index < old(self).lock_surfaces@.len(),
        ensures
            final(self).wf(),
            prepare::step_wf(step),
            ({
                let (model, outcome) = after_background(old(self)@, task, *variants);
                final(self)@ == model && prepare::step_model(step) == outcome
            }),
    {
        if task.ui_visible {
            self.prepare_scene_base(task, variants)
        } else {
            self.finish_render(task)
        }
    }

    fn store_background(&mut self, task: RenderTask, buffer: SoftwareBuffer)
        requires
            old(self).wf(),
            buffer.wf(),
            task.index < old(self).lock_surfaces@.len(),
        ensures
            final(self).wf(),
            final(self).lock_surfaces@.len() == old(self).lock_surfaces@.len(),
            final(self)@ == background_stored(old(self)@, task, surface::picture(buffer)),
    {
        let ghost before = *self;
        let shown = self.wallpaper_copy(task.index);
        let entry = &mut self.lock_surfaces[task.index];
        entry.background = Some(buffer);
        entry.background_path = shown;
        proof {
            state::lemma_surface_changed(
                before.lock_surfaces@,
                self.lock_surfaces@,
                task.index as int,
            );
        }
    }

    fn render_background(&self, task: RenderTask) -> (step: RenderStep)
        requires
            task.index < self.lock_surfaces@.len(),
        ensures
            prepare::step_wf(step),
            prepare::step_model(step) == background_rendering(self@, task),
    {
        let wallpaper = self.wallpaper_copy(task.index);
        let own = wallpaper.is_none() || path::same_optional(
            self.background_path.as_ref(),
            wallpaper.as_ref(),
        );
        RenderStep::RenderBackground(
            RenderTask { stage: RenderStage::BackgroundRender, ..task },
            wallpaper,
            own,
        )
    }

    /// Gives a surface its wallpaper.
    pub fn prepare_background(&mut self, task: RenderTask, variants: &SceneVariants) -> (step:
        RenderStep)
        requires
            old(self).wf(),
            task.index < old(self).lock_surfaces@.len(),
        ensures
            final(self).wf(),
            prepare::step_wf(step),
            ({
                let (model, outcome) = background_prepared(old(self)@, task, *variants);
                final(self)@ == model && prepare::step_model(step) == outcome
            }),
    {
        let settled = self.slideshow_transition_preserves_surface(task.index) || (task.ui_visible
            && self.scene_base_matches(task.index, task.size.buffer, task.revision))
            || self.background_is_current(task);
        if settled {
            return self.follow_background(
                RenderTask { background_refreshed: false, ..task },
                variants,
            );
        }
        match self.cache_source(task.index) {
            Some(source) => RenderStep::Lookup(
                RenderTask { stage: RenderStage::BackgroundCache, ..task },
                CacheLookup { source, size: task.size.buffer, variant: None },
            ),
            None => self.render_background(task),
        }
    }

    fn background_is_current(&self, task: RenderTask) -> (current: bool)
        requires
            task.index < self.lock_surfaces@.len(),
        ensures
            current == ((self@.surfaces[task.index as int].background matches Some(background)
                && background.size == task.size.buffer)
                && path::same_places(
                self@.surfaces[task.index as int].background_path,
                state::wallpaper_of(self@, task.index as int),
            )),
    {
        let selected = self.background_path_for_surface(task.index);
        let entry = &self.lock_surfaces[task.index];
        let sized = match &entry.background {
            Some(background) => background.size() == task.size.buffer,
            None => false,
        };
        sized && path::same_optional(entry.background_path.as_ref(), selected)
    }

    fn follow_first_try(
        &mut self,
        task: RenderTask,
        attempt: SceneTry,
        stage: RenderStage,
        variants: &SceneVariants,
    ) -> (step: RenderStep)
        requires
            old(self).wf(),
            task.index < old(self).lock_surfaces@.len(),
        ensures
            final(self).wf(),
            prepare::step_wf(step),
            ({
                let (model, outcome) = after_first_try(
                    old(self)@,
                    task,
                    prepare::scene_try_model(attempt),
                    stage,
                    *variants,
                );
                final(self)@ == model && prepare::step_model(step) == outcome
            }),
    {
        match attempt {
            SceneTry::Settled(_) => self.finish_render(task),
            SceneTry::Lookup(lookup) => RenderStep::Lookup(RenderTask { stage, ..task }, lookup),
            SceneTry::Unsettled => self.prepare_background(task, variants),
        }
    }

    fn follow_try(
        &mut self,
        task: RenderTask,
        attempt: SceneTry,
        stage: RenderStage,
        variants: &SceneVariants,
    ) -> (step: RenderStep)
        requires
            old(self).wf(),
            task.index < old(self).lock_surfaces@.len(),
        ensures
            final(self).wf(),
            prepare::step_wf(step),
            ({
                let (model, outcome) = after_try(
                    old(self)@,
                    task,
                    prepare::scene_try_model(attempt),
                    stage,
                    *variants,
                );
                final(self)@ == model && prepare::step_model(step) == outcome
            }),
    {
        if task.again {
            self.follow_second_try(task, attempt, stage)
        } else {
            self.follow_first_try(task, attempt, stage, variants)
        }
    }

    fn prepare_surface(&mut self, task: RenderTask, variants: &SceneVariants) -> (step: RenderStep)
        requires
            old(self).wf(),
            task.index < old(self).lock_surfaces@.len(),
        ensures
            final(self).wf(),
            prepare::step_wf(step),
            ({
                let (model, outcome) = preparing(old(self)@, task, *variants);
                final(self)@ == model && prepare::step_model(step) == outcome
            }),
    {
        if !task.ui_visible {
            return self.prepare_background(task, variants);
        }
        let ghost before = *self;
        let attempt = self.try_prepare_scene_base_without_background(task, variants);
        assert(self@.surfaces.len() == before@.surfaces.len());
        assert(self.lock_surfaces@.len() == self@.surfaces.len());
        self.follow_first_try(task, attempt, RenderStage::SceneCache, variants)
    }

    /// Gives up a crossfade and drops what was drawn for a surface.
    pub(crate) fn rebuild_surface(&mut self, index: usize)
        requires
            old(self).wf(),
            index < old(self).lock_surfaces@.len(),
        ensures
            final(self).wf(),
            final(self).lock_surfaces@.len() == old(self).lock_surfaces@.len(),
            final(self)@ == rebuilt(old(self)@, index as int),
    {
        let ghost before = *self;
        self.slideshow_transition = None;
        self.lock_surfaces[index].reset_render_state();
        proof {
            state::lemma_surface_changed(
                before.lock_surfaces@,
                self.lock_surfaces@,
                index as int,
            );
        }
    }

    /// Begins to draw a surface.
    pub fn render_surface(
        &mut self,
        surface: u32,
        size: SurfaceSize,
        variants: &SceneVariants,
        now: Moment,
    ) -> (step: RenderStep)
        requires
            old(self).wf(),
        ensures
            final(self).wf(),
            prepare::step_wf(step),
            ({
                let (model, outcome) = render_begun(old(self)@, surface, size, *variants, now);
                final(self)@ == model && prepare::step_model(step) == outcome
            }),
            scene_is_there(final(self)@, prepare::step_model(step)),
    {
        proof {
            state::lemma_first_surface(
                self@.surfaces,
                |entry: SurfaceModel| entry.state.surface == surface,
            );
            assert(self@.surfaces.len() == self.lock_surfaces.len());
            lemma_begun_scene_is_there(self@, surface, size, *variants, now);
        }
        let index: usize = match self.surface_index(surface) {
            Some(index) => index,
            None => {
                return RenderStep::Failed(RenderFailure::Untracked);
            },
        };
        let task = RenderTask {
            index,
            surface: self.lock_surfaces[index].state.surface,
            size,
            revision: self.ui_shell.static_scene_revision(),
            first_frame: self.lock_surfaces[index].shm_pool.is_none(),
            ui_visible: self.ui_visible_on_surface(index),
            background_refreshed: false,
            again: false,
            stage: RenderStage::SceneCache,
        };
        assert(task == first_task(self@, index as int, size));
        let fade = match self.slideshow_crossfade_for_surface(index, now) {
            Some((from, to, progress)) => Some(
                (from.size() == size.buffer && to.size() == size.buffer, progress),
            ),
            None => None,
        };
        match fade {
            Some((true, progress)) => self.plan_commit(
                task,
                size.buffer,
                CommitKind::Crossfade { progress, shell: task.ui_visible },
            ),
            Some((false, _)) => {
                self.rebuild_surface(index);
                self.prepare_surface(task, variants)
            },
            None => self.prepare_surface(task, variants),
        }
    }

    /// Goes on drawing a surface once the cache has answered.
    pub fn resume_lookup(
        &mut self,
        task: RenderTask,
        found: Option<SoftwareBuffer>,
        variants: &SceneVariants,
    ) -> (step: RenderStep)
        requires
            old(self).wf(),
            task.index < old(self).lock_surfaces@.len(),
            waits_for_lookup(task.stage),
            found matches Some(buffer) ==> buffer.wf(),
        ensures
            final(self).wf(),
            prepare::step_wf(step),
            ({
                let (model, outcome) = lookup_answered(
                    old(self)@,
                    task,
                    surface::optional_picture(found),
                    *variants,
                );
                final(self)@ == model && prepare::step_model(step) == outcome
            }),
            scene_is_there(final(self)@, prepare::step_model(step)),
    {
        let ghost before = *self;
        proof {
            lemma_answered_scene_is_there(
                before@,
                task,
                surface::optional_picture(found),
                *variants,
            );
        }
        match task.stage {
            RenderStage::SceneCache => match found {
                Some(buffer) => {
                    self.store_scene(task, buffer, true);
                    assert(self@.surfaces.len() == before@.surfaces.len());
                    assert(self.lock_surfaces@.len() == self@.surfaces.len());
                    self.finish_render(task)
                },
                None => {
                    let attempt = self.try_sibling_scene(task, variants);
                    assert(self@.surfaces.len() == before@.surfaces.len());
                    assert(self.lock_surfaces@.len() == self@.surfaces.len());
                    self.follow_try(task, attempt, RenderStage::BackdropCache, variants)
                },
            },
            RenderStage::BackdropCache => match found {
                Some(buffer) => self.begin_drawing(task, buffer, false),
                None => self.follow_try(
                    task,
                    SceneTry::Unsettled,
                    RenderStage::BackdropCache,
                    variants,
                ),
            },
            RenderStage::BackgroundCache => match found {
                Some(buffer) => {
                    self.store_background(task, buffer);
                    self.follow_background(
                        RenderTask { background_refreshed: true, ..task },
                        variants,
                    )
                },
                None => self.render_background(task),
            },
            RenderStage::SceneFile => match found {
                Some(buffer) => self.begin_drawing(task, buffer, true),
                None => self.draw_from_generated(task),
            },
            _ => match found {
                Some(buffer) => self.begin_drawing(task, buffer, true),
                None => self.draw_from_old_scene(task),
            },
        }
    }

    /// Goes on drawing a surface once its wallpaper was rendered, or could not be.
    pub fn resume_background(
        &mut self,
        task: RenderTask,
        rendered: core::result::Result<SoftwareBuffer, String>,
        variants: &SceneVariants,
    ) -> (step: RenderStep)
        requires
            old(self).wf(),
            task.index < old(self).lock_surfaces@.len(),
            task.stage == RenderStage::BackgroundRender,
            rendered matches Ok(buffer) ==> buffer.wf(),
        ensures
            final(self).wf(),
            prepare::step_wf(step),
            match rendered {
                Ok(buffer) => {
                    let (model, outcome) = background_answered(
                        old(self)@,
                        task,
                        surface::picture(buffer),
                        *variants,
                    );
                    final(self)@ == model && prepare::step_model(step) == outcome
                },
                Err(error) => final(self)@ == old(self)@ && step == RenderStep::Failed(
                    RenderFailure::BackgroundAsset(error),
                ),
            },
            scene_is_there(final(self)@, prepare::step_model(step)),
    {
        match rendered {
            Ok(buffer) => {
                proof {
                    lemma_background_scene_is_there(
                        background_stored(self@, task, surface::picture(buffer)),
                        RenderTask { background_refreshed: true, ..task },
                        *variants,
                    );
                }
                self.store_background(task, buffer);
                self.follow_background(
                    RenderTask { background_refreshed: true, ..task },
                    variants,
                )
            },
            Err(error) => RenderStep::Failed(RenderFailure::BackgroundAsset(error)),
        }
    }

    /// Goes on drawing a surface once its scene was drawn.
    pub fn resume_drawing(&mut self, task: RenderTask, drawn: SoftwareBuffer) -> (step: RenderStep)
        requires
            old(self).wf(),
            task.index < old(self).lock_surfaces@.len(),
            waits_for_drawing(task.stage),
            drawn.wf(),
        ensures
            final(self).wf(),
            prepare::step_wf(step),
            ({
                let (model, outcome) = drawing_answered(
                    old(self)@,
                    task,
                    surface::picture(drawn),
                );
                final(self)@ == model && prepare::step_model(step) == outcome
            }),
            scene_is_there(final(self)@, prepare::step_model(step)),
    {
        let ghost before = *self;
        match task.stage {
            RenderStage::SceneOverBackdrops { has_layers } => {
                self.store_scene(task, drawn, has_layers);
                assert(self@.surfaces.len() == before@.surfaces.len());
                assert(self.lock_surfaces@.len() == self@.surfaces.len());
                self.finish_render(task)
            },
            RenderStage::SceneOverBackground { has_layers } => {
                let entry = &mut self.lock_surfaces[task.index];
                entry.scene_base = Some(drawn);
                entry.state.scene_base_revision = task.revision;
                entry.state.scene_base_has_layers = has_layers;
                entry.background = None;
                proof {
                    state::lemma_surface_changed(
                        before.lock_surfaces@,
                        self.lock_surfaces@,
                        task.index as int,
                    );
                }
                self.finish_render(task)
            },
            _ => RenderStep::Unchanged,
        }
    }
}

proof fn lemma_second_try_scene_is_there(
    model: CurtainModel,
    task: RenderTask,
    variants: SceneVariants,
)
    requires
        0 <= task.index < model.surfaces.len(),
    ensures
        ({
            let (tried, attempt) = prepare::scene_try(model, task, variants);
            attempt is Settled ==> tried.surfaces[task.index as int].scene_base is Some
        }),
        ({
            let (tried, attempt) = prepare::sibling_try(model, task, variants);
            attempt is Settled ==> tried.surfaces[task.index as int].scene_base is Some
        }),
{
}

proof fn lemma_prepared_scene_is_there(
    model: CurtainModel,
    task: RenderTask,
    variants: SceneVariants,
)
    requires
        0 <= task.index < model.surfaces.len(),
    ensures
        ({
            let (after, step) = prepare::scene_prepared(model, task, variants);
            scene_is_there(after, step)
        }),
{
    let again = RenderTask { again: true, ..task };
    lemma_second_try_scene_is_there(model, again, variants);
}

proof fn lemma_background_scene_is_there(
    model: CurtainModel,
    task: RenderTask,
    variants: SceneVariants,
)
    requires
        0 <= task.index < model.surfaces.len(),
    ensures
        ({
            let (after, step) = after_background(model, task, variants);
            scene_is_there(after, step)
        }),
{
    lemma_prepared_scene_is_there(model, task, variants);
}

proof fn lemma_first_try_scene_is_there(
    model: CurtainModel,
    task: RenderTask,
    attempt: SceneTryModel,
    stage: RenderStage,
    variants: SceneVariants,
)
    requires
        0 <= task.index < model.surfaces.len(),
        attempt is Settled ==> model.surfaces[task.index as int].scene_base is Some,
    ensures
        ({
            let (after, step) = after_try(model, task, attempt, stage, variants);
            scene_is_there(after, step)
        }),
        ({
            let (after, step) = after_first_try(model, task, attempt, stage, variants);
            scene_is_there(after, step)
        }),
        ({
            let (after, step) = background_prepared(model, task, variants);
            scene_is_there(after, step)
        }),
{
    lemma_background_scene_is_there(
        model,
        RenderTask { background_refreshed: false, ..task },
        variants,
    );
}

proof fn lemma_begun_scene_is_there(
    model: CurtainModel,
    surface: u32,
    size: SurfaceSize,
    variants: SceneVariants,
    now: Moment,
)
    requires
        model.surfaces.len() <= usize::MAX,
    ensures
        ({
            let (after, step) = render_begun(model, surface, size, variants, now);
            scene_is_there(after, step)
        }),
{
    state::lemma_first_surface(
        model.surfaces,
        |entry: SurfaceModel| entry.state.surface == surface,
    );
    if let Some(index) = state::tracked_index(model.surfaces, surface) {
        let task = first_task(model, index, size);
        let cleared = rebuilt(model, index);
        lemma_second_try_scene_is_there(model, task, variants);
        lemma_second_try_scene_is_there(cleared, task, variants);
        let (tried, attempt) = prepare::scene_try(model, task, variants);
        lemma_first_try_scene_is_there(tried, task, attempt, RenderStage::SceneCache, variants);
        let (other, retry) = prepare::scene_try(cleared, task, variants);
        lemma_first_try_scene_is_there(other, task, retry, RenderStage::SceneCache, variants);
        if !task.ui_visible {
            lemma_first_try_scene_is_there(
                model,
                task,
                SceneTryModel::Unsettled,
                RenderStage::SceneCache,
                variants,
            );
            lemma_first_try_scene_is_there(
                cleared,
                task,
                SceneTryModel::Unsettled,
                RenderStage::SceneCache,
                variants,
            );
        }
    }
}

proof fn lemma_answered_scene_is_there(
    model: CurtainModel,
    task: RenderTask,
    found: Option<Picture>,
    variants: SceneVariants,
)
    requires
        0 <= task.index < model.surfaces.len(),
        waits_for_lookup(task.stage),
    ensures
        ({
            let (after, step) = lookup_answered(model, task, found, variants);
            scene_is_there(after, step)
        }),
{
    lemma_second_try_scene_is_there(model, task, variants);
    let (tried, attempt) = prepare::sibling_try(model, task, variants);
    lemma_first_try_scene_is_there(tried, task, attempt, RenderStage::BackdropCache, variants);
    lemma_first_try_scene_is_there(
        model,
        task,
        SceneTryModel::Unsettled,
        RenderStage::BackdropCache,
        variants,
    );
    if let Some(picture) = found {
        lemma_background_scene_is_there(
            background_stored(model, task, picture),
            RenderTask { background_refreshed: true, ..task },
            variants,
        );
    }
}

/// A surface that is not tracked is not drawn; one in a running crossfade whose pictures have its
/// size is shown the next step of it, with the prompt where it belongs; where they have another
/// size the crossfade is given up.
pub proof fn law_running_crossfade_is_shown(
    model: CurtainModel,
    surface: u32,
    size: SurfaceSize,
    variants: SceneVariants,
    now: Moment,
)
    requires
        model.surfaces.len() <= usize::MAX,
    ensures
        ({
            let (after, step) = render_begun(model, surface, size, variants, now);
            match state::tracked_index(model.surfaces, surface) {
                None => after == model && step == StepModel::Failed(RenderFailure::Untracked),
                Some(index) => match slideshow::crossfade_of(model, index, now) {
                    Some((from, to, progress)) => {
                        &&& from.size == size.buffer && to.size == size.buffer
                            && 0 <= index < model.surfaces.len() && model.surfaces[index].pool is Some ==> {
                            &&& after == model
                            &&& step matches StepModel::Commit(plan) && plan.index == index
                                && plan.size == size && (plan.kind matches CommitKind::Crossfade {
                                progress: shown,
                                shell,
                            } && shown == progress && shell == (state::role_of(model, index)
                                == OutputRole::PrimaryPrompt))
                        }
                        &&& from.size != size.buffer || to.size != size.buffer ==> rebuilt(
                            model,
                            index,
                        ).transition is None && (0 <= index < model.surfaces.len() ==> rebuilt(
                            model,
                            index,
                        ).surfaces[index].scene_base is None)
                    },
                    None => true,
                },
            }
        }),
{
}

/// A wallpaper that was found or rendered becomes the background of its surface, under the name of
/// the wallpaper it shows, and of no other.
pub proof fn law_rendered_background_is_kept(
    model: CurtainModel,
    task: RenderTask,
    picture: Picture,
)
    requires
        0 <= task.index < model.surfaces.len(),
    ensures
        ({
            let after = background_stored(model, task, picture);
            let entry = after.surfaces[task.index as int];
            &&& entry.background == Some(picture)
            &&& entry.background_path == state::wallpaper_of(model, task.index as int)
            &&& entry.scene_base == model.surfaces[task.index as int].scene_base
            &&& forall|i: int|
                0 <= i < model.surfaces.len() && i != task.index ==> after.surfaces[i]
                    == model.surfaces[i]
        }),
{
}

/// A surface without the prompt is shown the wallpaper that was rendered for it.
pub proof fn law_rendered_background_is_shown(
    model: CurtainModel,
    task: RenderTask,
    picture: Picture,
    variants: SceneVariants,
)
    requires
        0 <= task.index < model.surfaces.len(),
        !task.ui_visible,
        model.surfaces[task.index as int].pool is Some,
    ensures
        ({
            let (after, step) = background_answered(model, task, picture, variants);
            &&& step matches StepModel::Commit(plan) && plan.kind == CommitKind::Background
                && plan.index == task.index && plan.size == task.size
            &&& after.surfaces[task.index as int].background == Some(picture)
        }),
{
}

/// A scene that was drawn, or found in the cache, is the scene of its surface from then on, for
/// the revision it was made for, and is shown with the prompt.
pub proof fn law_finished_scene_is_shown(
    model: CurtainModel,
    task: RenderTask,
    picture: Picture,
    variants: SceneVariants,
)
    requires
        0 <= task.index < model.surfaces.len(),
        task.ui_visible,
        model.surfaces[task.index as int].pool is Some,
    ensures
        ({
            let (after, step) = if waits_for_drawing(task.stage) {
                drawing_answered(model, task, picture)
            } else {
                lookup_answered(model, task, Some(picture), variants)
            };
            let entry = after.surfaces[task.index as int];
            waits_for_drawing(task.stage) || task.stage == RenderStage::SceneCache ==> {
                &&& step matches StepModel::Commit(plan) && plan.kind == CommitKind::Scene
                    && plan.index == task.index && plan.size == task.size
                &&& entry.scene_base == Some(picture)
                &&& entry.state.scene_base_revision == task.revision
                &&& entry.background is None
                &&& task.stage matches RenderStage::SceneOverBackground { has_layers }
                    ==> entry.state.scene_base_has_layers == has_layers
                &&& task.stage matches RenderStage::SceneOverBackdrops { has_layers }
                    ==> entry.state.scene_base_has_layers == has_layers
                &&& task.stage == RenderStage::SceneCache ==> entry.state.scene_base_has_layers
            }
        }),
{
}

/// A wallpaper that is not in the cache is rendered, in the size of its surface.
pub proof fn law_missing_wallpaper_is_rendered(
    model: CurtainModel,
    task: RenderTask,
    variants: SceneVariants,
)
    requires
        0 <= task.index < model.surfaces.len(),
        task.stage == RenderStage::BackgroundCache,
    ensures
        lookup_answered(model, task, None, variants).0 == model,
        lookup_answered(model, task, None, variants).1 matches StepModel::RenderBackground(
            next,
            path,
            own,
        ) && next.stage == RenderStage::BackgroundRender && next.index == task.index && next.size
            == task.size && path == state::wallpaper_of(model, task.index as int) && (path is None
            ==> own),
{
}

/// A wallpaper is looked for only where the surface does not show it already: not while a crossfade
/// waits on the surface's scene, and not where the surface holds it in its size.
pub proof fn law_shown_wallpaper_is_not_looked_for(
    model: CurtainModel,
    task: RenderTask,
    variants: SceneVariants,
)
    requires
        !task.ui_visible,
    ensures
        ({
            let index = task.index as int;
            let entry = model.surfaces[index];
            let waits = model.transition matches Some(fade) && fade.started_at is None
                && entry.scene_base is Some;
            let held = entry.background is Some && entry.background->0.size == task.size.buffer
                && path::same_places(entry.background_path, state::wallpaper_of(model, index));
            let step = background_prepared(model, task, variants).1;
            &&& waits || held ==> !(step is Lookup) && !(step is RenderBackground)
            &&& !waits && !held ==> {
                &&& state::wallpaper_of(model, index) matches Some(path) ==> (step matches
                    StepModel::Lookup(next, lookup) && lookup.source == prepare::SourceModel::File(
                    path,
                ) && lookup.size == task.size.buffer && next.stage == RenderStage::BackgroundCache)
                &&& state::wallpaper_of(model, index) is None && model.background.generated is None
                    ==> step is RenderBackground
            }
        }),
{
}

/// What is drawn first for a surface goes by the surface's own number and size and the shell's
/// revision, tells whether it is the first frame, and shows the prompt where it belongs.
pub proof fn law_task_is_for_its_surface(model: CurtainModel, index: int, size: SurfaceSize)
    requires
        0 <= index < model.surfaces.len() <= usize::MAX,
    ensures
        ({
            let task = first_task(model, index, size);
            &&& task.index == index && task.size == size
            &&& task.surface == model.surfaces[index].state.surface
            &&& task.revision == model.shell.core.static_scene_revision
            &&& task.first_frame <==> model.surfaces[index].pool is None
            &&& task.ui_visible <==> state::role_of(model, index) == OutputRole::PrimaryPrompt
            &&& !task.background_refreshed && !task.again
        }),
{
}

} // verus!
