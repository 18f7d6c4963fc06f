//! What has to be in place before a surface can be drawn: its wallpaper and its static scene.
//!
//! Pictures come from caches on disk or are drawn elsewhere, so preparing stops wherever one is
//! needed and goes on once it is there.

use crate::common::path;
use crate::common::path::FilePath;
use crate::common::settings;
use crate::common::text;
use crate::curtain::backdrop::GeneratedBackground;
use crate::curtain::scene;
use crate::curtain::scene::StaticOverlay;
use crate::curtain::state;
use crate::curtain::state::{CurtainApp, CurtainModel};
use crate::curtain::surface;
use crate::curtain::surface::{Picture, SurfaceModel, SurfaceSize, SurfaceState};
use crate::renderer::buffer::{PixelBuffer, SoftwareBuffer};
use crate::renderer::frame;
use crate::renderer::frame::{FrameSize, RendererError};
use crate::renderer::shm;
use crate::renderer::shm::SurfaceBufferPool;
use vstd::prelude::*;

verus! {

/// What a cached picture was made from.
#[derive(Debug)]
pub enum CacheSource {
    File(FilePath),
    Generated(GeneratedBackground),
}

/// A picture to look for in the cache: a plain wallpaper, or one with a variant of the scene
/// drawn over it.
#[derive(Debug)]
pub struct CacheLookup {
    pub source: CacheSource,
    pub size: FrameSize,
    pub variant: Option<String>,
}

pub ghost enum SourceModel {
    File(Seq<u8>),
    Generated(GeneratedBackground),
}

pub ghost struct LookupModel {
    pub source: SourceModel,
    pub size: FrameSize,
    pub variant: Option<Seq<char>>,
}

pub open spec fn source_model(source: CacheSource) -> SourceModel {
    match source {
        CacheSource::File(path) => SourceModel::File(path@),
        CacheSource::Generated(generated) => SourceModel::Generated(generated),
    }
}

impl View for CacheLookup {
    type V = LookupModel;

    open spec fn view(&self) -> LookupModel {
        LookupModel {
            source: source_model(self.source),
            size: self.size,
            variant: settings::viewed_text(self.variant),
        }
    }
}

/// The names under which scenes of the current look are cached, where they may be cached at all.
#[derive(Debug)]
pub struct SceneVariants {
    pub static_scene: Option<String>,
    pub backdrop: Option<String>,
}

/// The name of the cached backdrops at a scale.
pub open spec fn backdrop_variant(variant: Seq<char>, scale: i32) -> Seq<char> {
    if scale <= 1 {
        variant
    } else {
        variant + ":render-scale:"@ + text::decimal(scale as nat)
    }
}

pub fn backdrop_cache_variant_for_surface(variants: &SceneVariants, scale: i32) -> (variant: Option<
    String,
>)
    ensures
        settings::viewed_text(variant) == match variants.backdrop {
            Some(variant) => Some(backdrop_variant(variant@, scale)),
            None => None,
        },
{
    match &variants.backdrop {
        Some(variant) => if scale <= 1 {
            Some(variant.clone())
        } else {
            let mut name = text::joined(variant.as_str(), ":render-scale:");
            name.append(text::decimal_text(scale as u128).as_str());
            Some(name)
        },
        None => None,
    }
}

/// Where preparing a surface has stopped.
#[derive(Debug, Clone, Copy, PartialEq, Eq, Structural)]
pub enum RenderStage {
    /// The static scene is looked for in the cache.
    SceneCache,
    /// The backdrops are looked for in the cache.
    BackdropCache,
    /// The static scene is drawn over cached backdrops.
    SceneOverBackdrops { has_layers: bool },
    /// The wallpaper is looked for in the cache.
    BackgroundCache,
    /// The wallpaper is rendered.
    BackgroundRender,
    /// The wallpaper file is looked for in the cache, to draw the scene over it.
    SceneFile,
    /// The generated background is looked for in the cache, to draw the scene over it.
    SceneGenerated,
    /// Backdrops and static scene are drawn over the wallpaper.
    SceneOverBackground { has_layers: bool },
}

/// A surface that is being prepared. `again` tells that its wallpaper is settled.
#[derive(Debug, Clone, Copy, PartialEq, Eq, Structural)]
pub struct RenderTask {
    pub index: usize,
    pub surface: u32,
    pub size: SurfaceSize,
    pub revision: u64,
    pub first_frame: bool,
    pub ui_visible: bool,
    pub background_refreshed: bool,
    pub again: bool,
    pub stage: RenderStage,
}

/// How an attempt to get hold of a static scene came out.
#[derive(Debug)]
pub enum SceneTry {
    /// The scene is there; tells whether it is a new one.
    Settled(bool),
    /// This picture may be in the cache.
    Lookup(CacheLookup),
    /// The scene has to be drawn from the wallpaper.
    Unsettled,
}

pub ghost enum SceneTryModel {
    Settled(bool),
    Lookup(LookupModel),
    Unsettled,
}

pub open spec fn scene_try_model(attempt: SceneTry) -> SceneTryModel {
    match attempt {
        SceneTry::Settled(refreshed) => SceneTryModel::Settled(refreshed),
        SceneTry::Lookup(lookup) => SceneTryModel::Lookup(lookup@),
        SceneTry::Unsettled => SceneTryModel::Unsettled,
    }
}

/// While a crossfade loads its pictures a surface keeps its scene. One without a scene gets one
/// all the same.
pub open spec fn transition_preserves(model: CurtainModel, index: int) -> bool {
    model.transition matches Some(fade) && fade.started_at is None
        && model.surfaces[index].scene_base is Some
}

/// Whether a scene of this size is there.
pub open spec fn has_scene(entry: SurfaceModel, size: FrameSize) -> bool {
    entry.scene_base matches Some(scene_base) && scene_base.size == size
}

/// Whether the scene of a surface is what would be drawn.
pub open spec fn scene_matches(
    model: CurtainModel,
    index: int,
    size: FrameSize,
    revision: u64,
) -> bool {
    let entry = model.surfaces[index];
    &&& entry.state.scene_base_revision == revision
    &&& path::same_places(entry.background_path, state::wallpaper_of(model, index))
    &&& !model.lock.ready_notified || !model.shell.core.theme.visual_layers
        || entry.state.scene_base_has_layers
    &&& has_scene(entry, size)
}

/// What the background of a surface is made from.
pub open spec fn source_of(model: CurtainModel, index: int) -> Option<SourceModel> {
    match state::wallpaper_of(model, index) {
        Some(path) => Some(SourceModel::File(path)),
        None => match model.background.generated {
            Some(generated) => Some(SourceModel::Generated(generated)),
            None => None,
        },
    }
}

/// A surface with a scene drawn over the wallpaper at `path`.
pub open spec fn with_scene(
    entry: SurfaceModel,
    picture: Picture,
    revision: u64,
    has_layers: bool,
    path: Option<Seq<u8>>,
) -> SurfaceModel {
    SurfaceModel {
        state: SurfaceState {
            scene_base_revision: revision,
            scene_base_has_layers: has_layers,
            ..entry.state
        },
        scene_base: Some(picture),
        background: None,
        background_path: path,
        ..entry
    }
}

pub open spec fn with_surface(model: CurtainModel, index: int, entry: SurfaceModel) -> CurtainModel {
    CurtainModel { surfaces: model.surfaces.update(index, entry), ..model }
}

/// The curtain with a scene for one surface.
pub open spec fn scene_stored(
    model: CurtainModel,
    task: RenderTask,
    picture: Picture,
    has_layers: bool,
) -> CurtainModel {
    with_surface(
        model,
        task.index as int,
        with_scene(
            model.surfaces[task.index as int],
            picture,
            task.revision,
            has_layers,
            state::wallpaper_of(model, task.index as int),
        ),
    )
}

/// Whether another surface has the scene that this one needs.
pub open spec fn is_sibling(model: CurtainModel, task: RenderTask, candidate: int) -> bool {
    let entry = model.surfaces[candidate];
    &&& candidate != task.index
    &&& entry.state.scene_base_revision == task.revision
    &&& path::same_places(entry.background_path, state::wallpaper_of(model, task.index as int))
    &&& has_scene(entry, task.size.buffer)
}

/// The first surface from `start` on that has the scene this one needs.
pub open spec fn sibling_from(model: CurtainModel, task: RenderTask, start: int) -> Option<int>
    decreases model.surfaces.len() - start,
{
    if start >= model.surfaces.len() {
        None
    } else if is_sibling(model, task, start) {
        Some(start)
    } else {
        sibling_from(model, task, start + 1)
    }
}

/// The attempt to find cached backdrops.
pub open spec fn backdrop_try(
    model: CurtainModel,
    task: RenderTask,
    variants: SceneVariants,
) -> SceneTryModel {
    match (variants.backdrop, source_of(model, task.index as int)) {
        (Some(variant), Some(source)) => SceneTryModel::Lookup(
            LookupModel {
                source,
                size: task.size.buffer,
                variant: Some(backdrop_variant(variant@, task.size.scale)),
            },
        ),
        _ => SceneTryModel::Unsettled,
    }
}

/// The attempt to share the scene of another surface.
pub open spec fn sibling_try(
    model: CurtainModel,
    task: RenderTask,
    variants: SceneVariants,
) -> (CurtainModel, SceneTryModel) {
    match sibling_from(model, task, 0) {
        Some(at) => (
            scene_stored(
                model,
                task,
                model.surfaces[at].scene_base->0,
                model.surfaces[at].state.scene_base_has_layers,
            ),
            SceneTryModel::Settled(true),
        ),
        None => (model, backdrop_try(model, task, variants)),
    }
}

/// The attempt to get hold of a scene without its wallpaper: what is there is kept; else the
/// cache is asked, else another surface, else the cache for the backdrops.
pub open spec fn scene_try(
    model: CurtainModel,
    task: RenderTask,
    variants: SceneVariants,
) -> (CurtainModel, SceneTryModel) {
    let index = task.index as int;
    if transition_preserves(model, index) || scene_matches(
        model,
        index,
        task.size.buffer,
        task.revision,
    ) {
        (model, SceneTryModel::Settled(false))
    } else {
        match (variants.static_scene, source_of(model, index)) {
            (Some(variant), Some(source)) => (
                model,
                SceneTryModel::Lookup(
                    LookupModel { source, size: task.size.buffer, variant: Some(variant@) },
                ),
            ),
            _ => sibling_try(model, task, variants),
        }
    }
}

proof fn lemma_sibling_from(model: CurtainModel, task: RenderTask, start: int)
    requires
        0 <= start,
    ensures
        sibling_from(model, task, start) matches Some(at) ==> start <= at < model.surfaces.len()
            && is_sibling(model, task, at),
    decreases model.surfaces.len() - start,
{
    if start < model.surfaces.len() && !is_sibling(model, task, start) {
        lemma_sibling_from(model, task, start + 1);
    }
}

fn same_path(own: &Option<FilePath>, other: Option<&FilePath>) -> (same: bool)
    ensures
        same == path::same_places(surface::optional_path(*own), path::optional_bytes(other)),
{
    path::same_optional(own.as_ref(), other)
}

fn scene_size_is(scene_base: &Option<SoftwareBuffer>, size: FrameSize) -> (same: bool)
    ensures
        same == (surface::optional_picture(*scene_base) matches Some(picture) && picture.size
            == size),
{
    match scene_base {
        Some(buffer) => buffer.size() == size,
        None => false,
    }
}

impl CurtainApp {
    pub fn slideshow_transition_preserves_surface(&self, index: usize) -> (preserved: bool)
        requires
            index < self.lock_surfaces@.len(),
        ensures
            preserved == transition_preserves(self@, index as int),
    {
        match &self.slideshow_transition {
            Some(fade) => fade.is_loading() && self.lock_surfaces[index].scene_base.is_some(),
            None => false,
        }
    }

    pub fn scene_base_matches(&self, index: usize, size: FrameSize, revision: u64) -> (matching: bool)
        requires
            index < self.lock_surfaces@.len(),
        ensures
            matching == scene_matches(self@, index as int, size, revision),
    {
        let selected = self.background_path_for_surface(index);
        let entry = &self.lock_surfaces[index];
        let layers_complete = !self.lock.ready_notified || !self.ui_shell.has_visual_layers()
            || entry.state.scene_base_has_layers;
        entry.state.scene_base_revision == revision && same_path(&entry.background_path, selected)
            && layers_complete && scene_size_is(&entry.scene_base, size)
    }

    pub(crate) fn cache_source(&self, index: usize) -> (source: Option<CacheSource>)
        requires
            index < self.lock_surfaces@.len(),
        ensures
            match (source, source_of(self@, index as int)) {
                (Some(source), Some(model)) => source_model(source) == model,
                (None, None) => true,
                _ => false,
            },
    {
        match self.background_path_for_surface(index) {
            Some(path) => Some(CacheSource::File(path.clone())),
            None => match self.background.generated {
                Some(generated) => Some(CacheSource::Generated(generated)),
                None => None,
            },
        }
    }

    pub(crate) fn wallpaper_copy(&self, index: usize) -> (path: Option<FilePath>)
        requires
            index < self.lock_surfaces@.len(),
        ensures
            surface::optional_path(path) == state::wallpaper_of(self@, index as int),
    {
        match self.background_path_for_surface(index) {
            Some(path) => Some(path.clone()),
            None => None,
        }
    }

    /// Keeps a scene that was found or drawn.
    pub(crate) fn store_scene(&mut self, task: RenderTask, buffer: SoftwareBuffer, has_layers: bool)
        requires
            old(self).wf(),
            buffer.wf(),
            task.index < old(self).lock_surfaces@.len(),
        ensures
            final(self).wf(),
            final(self)@ == scene_stored(
                old(self)@,
                task,
                surface::picture(buffer),
                has_layers,
            ),
    {
        let ghost before = *self;
        let shown = self.wallpaper_copy(task.index);
        let entry = &mut self.lock_surfaces[task.index];
        entry.scene_base = Some(buffer);
        entry.state.scene_base_revision = task.revision;
        entry.state.scene_base_has_layers = has_layers;
        entry.background = None;
        entry.background_path = shown;
        proof {
            state::lemma_surface_changed(
                before.lock_surfaces@,
                self.lock_surfaces@,
                task.index as int,
            );
        }
    }

    fn find_sibling(&self, task: RenderTask) -> (at: Option<usize>)
        requires
            task.index < self.lock_surfaces@.len(),
        ensures
            match (at, sibling_from(self@, task, 0)) {
                (Some(at), Some(found)) => at == found && at < self.lock_surfaces@.len(),
                (None, None) => true,
                _ => false,
            },
    {
        let selected = self.background_path_for_surface(task.index);
        let mut candidate: usize = 0;
        while candidate < self.lock_surfaces.len()
            invariant
                candidate <= self.lock_surfaces@.len(),
                path::optional_bytes(selected) == state::wallpaper_of(self@, task.index as int),
                sibling_from(self@, task, 0) == sibling_from(self@, task, candidate as int),
            decreases self.lock_surfaces@.len() - candidate,
        {
            let entry = &self.lock_surfaces[candidate];
            let fits = candidate != task.index && entry.state.scene_base_revision == task.revision
                && same_path(&entry.background_path, selected) && scene_size_is(
                &entry.scene_base,
                task.size.buffer,
            );
            assert(fits == is_sibling(self@, task, candidate as int));
            if fits {
                return Some(candidate);
            }
            candidate += 1;
        }
        None
    }

    /// Shares the scene of another surface, or looks for cached backdrops.
    pub(crate) fn try_sibling_scene(&mut self, task: RenderTask, variants: &SceneVariants) -> (attempt: SceneTry)
        requires
            old(self).wf(),
            task.index < old(self).lock_surfaces@.len(),
        ensures
            final(self).wf(),
            ({
                let (model, outcome) = sibling_try(old(self)@, task, *variants);
                final(self)@ == model && scene_try_model(attempt) == outcome
            }),
    {
        proof {
            lemma_sibling_from(self@, task, 0);
        }
        if let Some(at) = self.find_sibling(task) {
            assert(self.lock_surfaces@[at as int].wf());
            let has_layers = self.lock_surfaces[at].state.scene_base_has_layers;
            let shared = match &self.lock_surfaces[at].scene_base {
                Some(buffer) => Some(buffer.clone()),
                None => None,
            };
            if let Some(buffer) = shared {
                self.store_scene(task, buffer, has_layers);
            }
            return SceneTry::Settled(true);
        }
        match backdrop_cache_variant_for_surface(variants, task.size.scale) {
            Some(variant) => match self.cache_source(task.index) {
                Some(source) => SceneTry::Lookup(
                    CacheLookup { source, size: task.size.buffer, variant: Some(variant) },
                ),
                None => SceneTry::Unsettled,
            },
            None => SceneTry::Unsettled,
        }
    }

    /// Tries to get hold of a scene without its wallpaper.
    pub fn try_prepare_scene_base_without_background(
        &mut self,
        task: RenderTask,
        variants: &SceneVariants,
    ) -> (attempt: SceneTry)
        requires
            old(self).wf(),
            task.index < old(self).lock_surfaces@.len(),
        ensures
            final(self).wf(),
            ({
                let (model, outcome) = scene_try(old(self)@, task, *variants);
                final(self)@ == model && scene_try_model(attempt) == outcome
            }),
    {
        if self.slideshow_transition_preserves_surface(task.index) {
            return SceneTry::Settled(false);
        }
        if self.scene_base_matches(task.index, task.size.buffer, task.revision) {
            return SceneTry::Settled(false);
        }
        if let Some(variant) = &variants.static_scene {
            if let Some(source) = self.cache_source(task.index) {
                return SceneTry::Lookup(
                    CacheLookup {
                        source,
                        size: task.size.buffer,
                        variant: Some(variant.clone()),
                    },
                );
            }
        }
        self.try_sibling_scene(task, variants)
    }
}

/// Why a surface could not be drawn.
#[derive(Debug)]
pub enum RenderFailure {
    /// The surface is gone.
    Untracked,
    /// There is nothing to draw the scene over.
    BackgroundUnavailable,
    /// The wallpaper could not be rendered.
    BackgroundAsset(String),
    /// There is no shared memory for frames of this size.
    Pool(RendererError),
    Commit(RendererError),
    CommitBackground(RendererError),
    CrossfadeBackground(RendererError),
    Crossfade(RendererError),
    AuthDirty(RendererError),
    /// The plain background could not be prepared.
    EmergencyBackground(String),
}

/// What is shown on a surface.
#[derive(Debug, Clone, Copy, PartialEq, Eq, Structural)]
pub enum CommitKind {
    /// The static scene with what changes drawn over it.
    Scene,
    /// The wallpaper alone.
    Background,
    /// A step of a crossfade, with or without what changes drawn over it.
    Crossfade { progress: u16, shell: bool },
}

/// A frame that is ready to be shown.
#[derive(Debug, Clone, Copy, PartialEq, Eq, Structural)]
pub struct CommitPlan {
    pub index: usize,
    pub surface: u32,
    pub size: SurfaceSize,
    pub first_frame: bool,
    pub kind: CommitKind,
}

/// What drawing a surface needs next.
#[derive(Debug)]
pub enum RenderStep {
    /// Nothing has changed: the surface stays as it is.
    Unchanged,
    Failed(RenderFailure),
    /// Look for a picture in the cache.
    Lookup(RenderTask, CacheLookup),
    /// Render the wallpaper at this path, or the background that is no picture. The flag tells
    /// whether that is the one the curtain has loaded.
    RenderBackground(RenderTask, Option<FilePath>, bool),
    /// Draw the static scene over this picture, the backdrops first where the flag says so.
    Draw(RenderTask, SoftwareBuffer, bool, StaticOverlay),
    /// Show a frame.
    Commit(CommitPlan),
}

pub ghost enum StepModel {
    Unchanged,
    Failed(RenderFailure),
    Lookup(RenderTask, LookupModel),
    RenderBackground(RenderTask, Option<Seq<u8>>, bool),
    Draw(RenderTask, Picture, bool, StaticOverlay),
    Commit(CommitPlan),
}

pub open spec fn step_model(step: RenderStep) -> StepModel {
    match step {
        RenderStep::Unchanged => StepModel::Unchanged,
        RenderStep::Failed(failure) => StepModel::Failed(failure),
        RenderStep::Lookup(task, lookup) => StepModel::Lookup(task, lookup@),
        RenderStep::RenderBackground(task, path, own) => StepModel::RenderBackground(
            task,
            surface::optional_path(path),
            own,
        ),
        RenderStep::Draw(task, buffer, backdrops, overlay) => StepModel::Draw(
            task,
            surface::picture(buffer),
            backdrops,
            overlay,
        ),
        RenderStep::Commit(plan) => StepModel::Commit(plan),
    }
}

/// What handed out pictures hold is whole.
pub open spec fn step_wf(step: RenderStep) -> bool {
    step matches RenderStep::Draw(_, buffer, _, _) ==> buffer.wf()
}

/// Shared memory for frames of a size, where there is none yet.
pub open spec fn pool_ready(model: CurtainModel, index: int, size: FrameSize) -> Result<
    CurtainModel,
    RendererError,
> {
    if model.surfaces[index].pool is Some {
        Ok(model)
    } else if size.width == 0 || size.height == 0 {
        Err(RendererError::EmptyFrame)
    } else if frame::frame_bytes(size) > usize::MAX {
        Err(RendererError::InvalidFrameSize(size))
    } else {
        Ok(
            with_surface(
                model,
                index,
                SurfaceModel { pool: Some(shm::empty_pool(size)), ..model.surfaces[index] },
            ),
        )
    }
}

/// A frame of this kind, once there is shared memory for it.
pub open spec fn committing(
    model: CurtainModel,
    task: RenderTask,
    size: FrameSize,
    kind: CommitKind,
) -> (CurtainModel, StepModel) {
    match pool_ready(model, task.index as int, size) {
        Ok(ready) => (
            ready,
            StepModel::Commit(
                CommitPlan {
                    index: task.index,
                    surface: task.surface,
                    size: task.size,
                    first_frame: task.first_frame,
                    kind,
                },
            ),
        ),
        Err(error) => (model, StepModel::Failed(RenderFailure::Pool(error))),
    }
}

/// A prepared surface is shown: with the prompt its scene; without it its wallpaper, where that
/// is new.
pub open spec fn finished(model: CurtainModel, task: RenderTask) -> (CurtainModel, StepModel) {
    if task.ui_visible {
        committing(model, task, task.size.buffer, CommitKind::Scene)
    } else if !task.first_frame && !task.background_refreshed {
        (model, StepModel::Unchanged)
    } else {
        background_committing(model, task)
    }
}

/// The curtain without the wallpaper of a surface.
pub open spec fn without_background(model: CurtainModel, index: int) -> CurtainModel {
    with_surface(model, index, SurfaceModel { background: None, ..model.surfaces[index] })
}

/// A surface's wallpaper is shown alone. It is given up where there is no shared memory for it.
pub open spec fn background_committing(model: CurtainModel, task: RenderTask) -> (
    CurtainModel,
    StepModel,
) {
    let index = task.index as int;
    match model.surfaces[index].background {
        Some(background) => match committing(
            model,
            task,
            background.size,
            CommitKind::Background,
        ) {
            (_, StepModel::Failed(failure)) => (
                without_background(model, index),
                StepModel::Failed(failure),
            ),
            planned => planned,
        },
        None => (model, StepModel::Failed(RenderFailure::BackgroundUnavailable)),
    }
}

impl CurtainApp {
    fn ready_pool(&mut self, index: usize, size: FrameSize) -> (result: Result<(), RendererError>)
        requires
            old(self).wf(),
            index < old(self).lock_surfaces@.len(),
        ensures
            final(self).wf(),
            match pool_ready(old(self)@, index as int, size) {
                Ok(model) => result is Ok && final(self)@ == model,
                Err(error) => result == Err::<(), RendererError>(error) && final(self)@ == old(
                    self,
                )@,
            },
    {
        let ghost before = *self;
        if self.lock_surfaces[index].shm_pool.is_some() {
            return Ok(());
        }
        assert(self.lock_surfaces@[index as int].wf());
        match SurfaceBufferPool::new(size) {
            Ok(pool) => {
                self.lock_surfaces[index].shm_pool = Some(pool);
                proof {
                    state::lemma_surface_changed(
                        before.lock_surfaces@,
                        self.lock_surfaces@,
                        index as int,
                    );
                }
                Ok(())
            },
            Err(error) => Err(error),
        }
    }

    pub(crate) fn plan_commit(&mut self, task: RenderTask, size: FrameSize, kind: CommitKind) -> (step:
        RenderStep)
        requires
            old(self).wf(),
            task.index < old(self).lock_surfaces@.len(),
        ensures
            final(self).wf(),
            step_wf(step),
            ({
                let (model, outcome) = committing(old(self)@, task, size, kind);
                final(self)@ == model && step_model(step) == outcome
            }),
    {
        match self.ready_pool(task.index, size) {
            Ok(()) => RenderStep::Commit(
                CommitPlan {
                    index: task.index,
                    surface: task.surface,
                    size: task.size,
                    first_frame: task.first_frame,
                    kind,
                },
            ),
            Err(error) => RenderStep::Failed(RenderFailure::Pool(error)),
        }
    }

    /// Shows a prepared surface.
    pub(crate) fn finish_render(&mut self, task: RenderTask) -> (step: RenderStep)
        requires
            old(self).wf(),
            task.index < old(self).lock_surfaces@.len(),
        ensures
            final(self).wf(),
            step_wf(step),
            ({
                let (model, outcome) = finished(old(self)@, task);
                final(self)@ == model && step_model(step) == outcome
            }),
    {
        if task.ui_visible {
            return self.plan_commit(task, task.size.buffer, CommitKind::Scene);
        }
        if !task.first_frame && !task.background_refreshed {
            return RenderStep::Unchanged;
        }
        self.commit_background_only(task)
    }

    /// Shows a surface's wallpaper alone.
    pub fn commit_background_only(&mut self, task: RenderTask) -> (step: RenderStep)
        requires
            old(self).wf(),
            task.index < old(self).lock_surfaces@.len(),
        ensures
            final(self).wf(),
            step_wf(step),
            ({
                let (model, outcome) = background_committing(old(self)@, task);
                final(self)@ == model && step_model(step) == outcome
            }),
    {
        let size = match &self.lock_surfaces[task.index].background {
            Some(background) => background.size(),
            None => {
                return RenderStep::Failed(RenderFailure::BackgroundUnavailable);
            },
        };
        let ghost surfaces = self@.surfaces;
        let step = self.plan_commit(task, size, CommitKind::Background);
        assert(self@.surfaces.len() == surfaces.len());
        if let RenderStep::Failed(_) = &step {
            self.drop_background(task.index);
        }
        step
    }

    /// Gives up the wallpaper of a surface.
    pub(crate) fn drop_background(&mut self, index: usize)
        requires
            old(self).wf(),
            index < old(self).lock_surfaces@.len(),
        ensures
            final(self).wf(),
            final(self)@ == without_background(old(self)@, index as int),
    {
        let ghost before = *self;
        assert(self.lock_surfaces@[index as int].wf());
        self.lock_surfaces[index].background = None;
        proof {
            state::lemma_surface_changed(
                before.lock_surfaces@,
                self.lock_surfaces@,
                index as int,
            );
        }
    }
}

/// Drawing the scene over a picture; what is drawn is decided as drawing begins.
pub open spec fn drawing(
    model: CurtainModel,
    task: RenderTask,
    picture: Picture,
    backdrops: bool,
) -> (CurtainModel, StepModel) {
    let has_layers = scene::scene_has_layers(model);
    let stage = if backdrops {
        RenderStage::SceneOverBackground { has_layers }
    } else {
        RenderStage::SceneOverBackdrops { has_layers }
    };
    (
        scene::after_overlay(model),
        StepModel::Draw(
            RenderTask { stage, ..task },
            picture,
            backdrops,
            scene::overlay_for(model),
        ),
    )
}

/// The last source of a scene: the one that is there.
pub open spec fn scene_from_old(model: CurtainModel, task: RenderTask) -> (
    CurtainModel,
    StepModel,
) {
    match model.surfaces[task.index as int].scene_base {
        Some(picture) => drawing(model, task, picture, true),
        None => (model, StepModel::Failed(RenderFailure::BackgroundUnavailable)),
    }
}

/// The next source of a scene: the cached generated background.
pub open spec fn scene_from_generated(model: CurtainModel, task: RenderTask) -> (
    CurtainModel,
    StepModel,
) {
    match model.background.generated {
        Some(generated) => (
            model,
            StepModel::Lookup(
                RenderTask { stage: RenderStage::SceneGenerated, ..task },
                LookupModel {
                    source: SourceModel::Generated(generated),
                    size: task.size.buffer,
                    variant: None,
                },
            ),
        ),
        None => scene_from_old(model, task),
    }
}

/// Where a scene is drawn from: the wallpaper that is there, else the cached one, else the cached
/// generated background, else the scene that is there.
pub open spec fn scene_from_wallpaper(model: CurtainModel, task: RenderTask) -> (
    CurtainModel,
    StepModel,
) {
    match model.surfaces[task.index as int].background {
        Some(picture) => drawing(model, task, picture, true),
        None => match state::wallpaper_of(model, task.index as int) {
            Some(path) => (
                model,
                StepModel::Lookup(
                    RenderTask { stage: RenderStage::SceneFile, ..task },
                    LookupModel {
                        source: SourceModel::File(path),
                        size: task.size.buffer,
                        variant: None,
                    },
                ),
            ),
            None => scene_from_generated(model, task),
        },
    }
}

/// What follows an attempt to get hold of a scene once the wallpaper is settled.
pub open spec fn after_second_try(
    model: CurtainModel,
    task: RenderTask,
    attempt: SceneTryModel,
    stage: RenderStage,
) -> (CurtainModel, StepModel) {
    match attempt {
        SceneTryModel::Settled(_) => finished(model, task),
        SceneTryModel::Lookup(lookup) => (
            model,
            StepModel::Lookup(RenderTask { stage, ..task }, lookup),
        ),
        SceneTryModel::Unsettled => scene_from_wallpaper(model, task),
    }
}

/// Whether the scene has to be made anew.
pub open spec fn needs_scene(model: CurtainModel, task: RenderTask) -> bool {
    let entry = model.surfaces[task.index as int];
    ||| task.background_refreshed
    ||| model.lock.ready_notified && model.shell.core.theme.visual_layers
        && !entry.state.scene_base_has_layers
    ||| !has_scene(entry, task.size.buffer)
    ||| entry.state.scene_base_revision != task.revision
}

/// A surface whose wallpaper is settled gets its scene.
pub open spec fn scene_prepared(
    model: CurtainModel,
    task: RenderTask,
    variants: SceneVariants,
) -> (CurtainModel, StepModel) {
    let index = task.index as int;
    let again = RenderTask { again: true, ..task };
    if transition_preserves(model, index) {
        finished(model, again)
    } else if !needs_scene(model, task) {
        finished(
            with_surface(
                model,
                index,
                SurfaceModel { background: None, ..model.surfaces[index] },
            ),
            again,
        )
    } else {
        let (tried, attempt) = scene_try(model, again, variants);
        after_second_try(tried, again, attempt, RenderStage::SceneCache)
    }
}

impl CurtainApp {
    pub(crate) fn begin_drawing(&mut self, task: RenderTask, buffer: SoftwareBuffer, backdrops: bool) -> (step:
        RenderStep)
        requires
            old(self).wf(),
            buffer.wf(),
        ensures
            final(self).wf(),
            final(self).lock_surfaces@.len() == old(self).lock_surfaces@.len(),
            step_wf(step),
            ({
                let (model, outcome) = drawing(
                    old(self)@,
                    task,
                    surface::picture(buffer),
                    backdrops,
                );
                final(self)@ == model && step_model(step) == outcome
            }),
    {
        let (overlay, has_layers) = self.static_scene_overlay();
        let stage = if backdrops {
            RenderStage::SceneOverBackground { has_layers }
        } else {
            RenderStage::SceneOverBackdrops { has_layers }
        };
        RenderStep::Draw(RenderTask { stage, ..task }, buffer, backdrops, overlay)
    }

    pub(crate) fn draw_from_old_scene(&mut self, task: RenderTask) -> (step: RenderStep)
        requires
            old(self).wf(),
            task.index < old(self).lock_surfaces@.len(),
        ensures
            final(self).wf(),
            step_wf(step),
            ({
                let (model, outcome) = scene_from_old(old(self)@, task);
                final(self)@ == model && step_model(step) == outcome
            }),
    {
        assert(self.lock_surfaces@[task.index as int].wf());
        let copy = match &self.lock_surfaces[task.index].scene_base {
            Some(buffer) => buffer.clone(),
            None => {
                return RenderStep::Failed(RenderFailure::BackgroundUnavailable);
            },
        };
        self.begin_drawing(task, copy, true)
    }

    pub(crate) fn draw_from_generated(&mut self, task: RenderTask) -> (step: RenderStep)
        requires
            old(self).wf(),
            task.index < old(self).lock_surfaces@.len(),
        ensures
            final(self).wf(),
            step_wf(step),
            ({
                let (model, outcome) = scene_from_generated(old(self)@, task);
                final(self)@ == model && step_model(step) == outcome
            }),
    {
        match self.background.generated {
            Some(generated) => RenderStep::Lookup(
                RenderTask { stage: RenderStage::SceneGenerated, ..task },
                CacheLookup {
                    source: CacheSource::Generated(generated),
                    size: task.size.buffer,
                    variant: None,
                },
            ),
            None => self.draw_from_old_scene(task),
        }
    }

    fn draw_from_wallpaper(&mut self, task: RenderTask) -> (step: RenderStep)
        requires
            old(self).wf(),
            task.index < old(self).lock_surfaces@.len(),
        ensures
            final(self).wf(),
            step_wf(step),
            ({
                let (model, outcome) = scene_from_wallpaper(old(self)@, task);
                final(self)@ == model && step_model(step) == outcome
            }),
    {
        assert(self.lock_surfaces@[task.index as int].wf());
        let copy = match &self.lock_surfaces[task.index].background {
            Some(buffer) => Some(buffer.clone()),
            None => None,
        };
        if let Some(buffer) = copy {
            return self.begin_drawing(task, buffer, true);
        }
        match self.wallpaper_copy(task.index) {
            Some(path) => RenderStep::Lookup(
                RenderTask { stage: RenderStage::SceneFile, ..task },
                CacheLookup {
                    source: CacheSource::File(path),
                    size: task.size.buffer,
                    variant: None,
                },
            ),
            None => self.draw_from_generated(task),
        }
    }

    pub(crate) fn follow_second_try(&mut self, task: RenderTask, attempt: SceneTry, stage: RenderStage) -> (step:
        RenderStep)
        requires
            old(self).wf(),
            task.index < old(self).lock_surfaces@.len(),
        ensures
            final(self).wf(),
            step_wf(step),
            ({
                let (model, outcome) = after_second_try(
                    old(self)@,
                    task,
                    scene_try_model(attempt),
                    stage,
                );
                final(self)@ == model && step_model(step) == outcome
            }),
    {
        match attempt {
            SceneTry::Settled(_) => self.finish_render(task),
            SceneTry::Lookup(lookup) => RenderStep::Lookup(RenderTask { stage, ..task }, lookup),
            SceneTry::Unsettled => self.draw_from_wallpaper(task),
        }
    }

    /// Gives a surface its scene once its wallpaper is settled.
    pub fn prepare_scene_base(&mut self, task: RenderTask, variants: &SceneVariants) -> (step:
        RenderStep)
        requires
            old(self).wf(),
            task.index < old(self).lock_surfaces@.len(),
        ensures
            final(self).wf(),
            step_wf(step),
            ({
                let (model, outcome) = scene_prepared(old(self)@, task, *variants);
                final(self)@ == model && step_model(step) == outcome
            }),
    {
        let ghost before = *self;
        let again = RenderTask { again: true, ..task };
        if self.slideshow_transition_preserves_surface(task.index) {
            return self.finish_render(again);
        }
        let needs_full_layers = self.lock.ready_notified && self.ui_shell.has_visual_layers()
            && !self.lock_surfaces[task.index].state.scene_base_has_layers;
        let needs_refresh = task.background_refreshed || needs_full_layers || !scene_size_is(
            &self.lock_surfaces[task.index].scene_base,
            task.size.buffer,
        ) || self.lock_surfaces[task.index].state.scene_base_revision != task.revision;
        assert(needs_refresh == needs_scene(self@, task));
        if !needs_refresh {
            self.lock_surfaces[task.index].background = None;
            proof {
                state::lemma_surface_changed(
                    before.lock_surfaces@,
                    self.lock_surfaces@,
                    task.index as int,
                );
            }
            return self.finish_render(again);
        }
        let attempt = self.try_prepare_scene_base_without_background(again, variants);
        assert(self@.surfaces.len() == before@.surfaces.len());
        assert(self.lock_surfaces@.len() == self@.surfaces.len());
        self.follow_second_try(again, attempt, RenderStage::SceneCache)
    }
}

/// A scene is shown as it is only while a crossfade waits on it, or where it was drawn for this
/// revision, size and wallpaper, with its layers once the curtain is ready.
pub proof fn law_scene_is_kept_only_while_it_fits(
    model: CurtainModel,
    task: RenderTask,
    variants: SceneVariants,
)
    ensures
        ({
            let entry = model.surfaces[task.index as int];
            let (after, attempt) = scene_try(model, task, variants);
            let waits = model.transition matches Some(fade) && fade.started_at is None
                && entry.scene_base is Some;
            let fits = entry.scene_base is Some && entry.scene_base->0.size == task.size.buffer
                && entry.state.scene_base_revision == task.revision && path::same_places(
                entry.background_path,
                state::wallpaper_of(model, task.index as int),
            ) && (model.lock.ready_notified && model.shell.core.theme.visual_layers
                ==> entry.state.scene_base_has_layers);
            &&& attempt == SceneTryModel::Settled(false) <==> waits || fits
            &&& waits || fits ==> after == model
        }),
{
}

/// A picture is looked for under the wallpaper of its surface, else the generated background, in
/// the size of the frame.
pub proof fn law_lookups_are_for_the_surface(
    model: CurtainModel,
    task: RenderTask,
    variants: SceneVariants,
)
    ensures
        scene_try(model, task, variants).1 matches SceneTryModel::Lookup(lookup) ==> {
            &&& lookup.size == task.size.buffer
            &&& match state::wallpaper_of(model, task.index as int) {
                Some(path) => lookup.source == SourceModel::File(path),
                None => model.background.generated matches Some(generated) && lookup.source
                    == SourceModel::Generated(generated),
            }
            &&& variants.static_scene matches Some(variant) ==> lookup.variant == Some(variant@)
            &&& variants.static_scene is None ==> lookup.variant is Some && variants.backdrop is Some
                && variants.backdrop->0@.is_prefix_of(lookup.variant->0)
        },
{
}

/// Backdrops of a scaled surface go by a longer name than those of an unscaled one, which starts
/// with the plain name.
pub proof fn law_scaled_backdrops_go_by_their_own_name(variant: Seq<char>, scale: i32)
    ensures
        scale <= 1 ==> backdrop_variant(variant, scale) == variant,
        scale > 1 ==> backdrop_variant(variant, scale).len() > variant.len() + 14,
        variant.is_prefix_of(backdrop_variant(variant, scale)),
{
    reveal_strlit(":render-scale:");
    if scale > 1 {
        let digits = text::decimal(scale as nat);
        assert(digits.len() >= 1);
        let whole = variant + ":render-scale:"@ + digits;
        assert(whole.subrange(0, variant.len() as int) == variant);
    }
}

/// A scene that another surface of the same size shows for the same wallpaper and revision is
/// taken over, layers and all.
pub proof fn law_scene_of_a_sibling_is_shared(
    model: CurtainModel,
    task: RenderTask,
    variants: SceneVariants,
    sibling: int,
)
    requires
        0 <= sibling < model.surfaces.len(),
        0 <= task.index < model.surfaces.len(),
        sibling != task.index,
        model.surfaces[sibling].state.scene_base_revision == task.revision,
        path::same_places(
            model.surfaces[sibling].background_path,
            state::wallpaper_of(model, task.index as int),
        ),
        model.surfaces[sibling].scene_base is Some,
        model.surfaces[sibling].scene_base->0.size == task.size.buffer,
    ensures
        ({
            let (after, attempt) = sibling_try(model, task, variants);
            let own = after.surfaces[task.index as int];
            &&& attempt == SceneTryModel::Settled(true)
            &&& own.scene_base matches Some(picture) && picture.size == task.size.buffer
            &&& own.state.scene_base_revision == task.revision
            &&& own.background is None
            &&& own.background_path == state::wallpaper_of(model, task.index as int)
            &&& exists|i: int|
                0 <= i < model.surfaces.len() && i != task.index && own.scene_base == (
                #[trigger] model.surfaces[i]).scene_base
        }),
{
    lemma_sibling_is_found(model, task, 0, sibling);
    lemma_sibling_from(model, task, 0);
    let at = sibling_from(model, task, 0)->0;
    assert(is_sibling(model, task, at));
}

proof fn lemma_sibling_is_found(
    model: CurtainModel,
    task: RenderTask,
    start: int,
    sibling: int,
)
    requires
        0 <= start <= sibling < model.surfaces.len(),
        is_sibling(model, task, sibling),
    ensures
        sibling_from(model, task, start) is Some,
    decreases sibling - start,
{
    if !is_sibling(model, task, start) {
        lemma_sibling_is_found(model, task, start + 1, sibling);
    }
}

/// A surface with the prompt gets its scene shown, in its own size; one without it is shown its
/// wallpaper, and left alone where that is not new and a frame was shown before. A surface that
/// has shared memory keeps it.
pub proof fn law_prepared_surface_is_shown(model: CurtainModel, task: RenderTask)
    requires
        0 <= task.index < model.surfaces.len(),
        model.surfaces[task.index as int].pool is Some,
    ensures
        ({
            let (after, step) = finished(model, task);
            let has_background = model.surfaces[task.index as int].background is Some;
            &&& after == model
            &&& task.ui_visible ==> (step matches StepModel::Commit(plan) && plan.kind
                == CommitKind::Scene && plan.index == task.index && plan.surface == task.surface
                && plan.size == task.size && plan.first_frame == task.first_frame)
            &&& !task.ui_visible && !task.first_frame && !task.background_refreshed ==> step
                == StepModel::Unchanged
            &&& !task.ui_visible && (task.first_frame || task.background_refreshed)
                && has_background ==> (step matches StepModel::Commit(plan) && plan.kind
                == CommitKind::Background && plan.index == task.index && plan.surface
                == task.surface && plan.size == task.size)
            &&& !task.ui_visible && (task.first_frame || task.background_refreshed)
                && !has_background ==> step == StepModel::Failed(
                RenderFailure::BackgroundUnavailable,
            )
        }),
{
}

/// Shared memory for a first frame is made for frames of that size, and not for empty ones.
pub proof fn law_first_frame_gets_memory_of_its_size(
    model: CurtainModel,
    index: int,
    size: FrameSize,
)
    requires
        0 <= index < model.surfaces.len(),
        model.surfaces[index].pool is None,
        size.width * size.height * 4 <= usize::MAX,
    ensures
        pool_ready(model, index, size) is Ok <==> size.width > 0 && size.height > 0,
        pool_ready(model, index, size) matches Ok(after) ==> {
            &&& after.surfaces[index].pool matches Some(pool) && pool.slot_len == size.width
                * size.height * 4 && pool.slots.len() == 0
            &&& after.surfaces[index].scene_base == model.surfaces[index].scene_base
            &&& after.surfaces[index].background == model.surfaces[index].background
        },
        pool_ready(model, index, size) matches Err(error) ==> error == RendererError::EmptyFrame,
{
    vstd::arithmetic::mul::lemma_mul_is_associative(size.width as int, size.height as int, 4);
}

/// A scene is drawn over the wallpaper that its surface holds; without one over the cached picture
/// of its wallpaper file, else of the generated background, else over the old scene, and cannot be
/// drawn without any of them.
pub proof fn law_scene_is_drawn_over_what_there_is(model: CurtainModel, task: RenderTask)
    ensures
        ({
            let entry = model.surfaces[task.index as int];
            let wallpaper = state::wallpaper_of(model, task.index as int);
            let step = scene_from_wallpaper(model, task).1;
            &&& entry.background matches Some(picture) ==> (step matches StepModel::Draw(
                next,
                drawn,
                backdrops,
                _,
            ) && drawn == picture && backdrops && next.index == task.index
                && next.stage is SceneOverBackground)
            &&& entry.background is None ==> (wallpaper matches Some(path) ==> (step matches
                StepModel::Lookup(next, lookup) && lookup.source == SourceModel::File(path)
                && lookup.size == task.size.buffer && lookup.variant is None && next.stage
                == RenderStage::SceneFile))
            &&& entry.background is None && wallpaper is None ==> (
            model.background.generated matches Some(generated) ==> (step matches StepModel::Lookup(
                next,
                lookup,
            ) && lookup.source == SourceModel::Generated(generated) && lookup.size
                == task.size.buffer && lookup.variant is None && next.stage
                == RenderStage::SceneGenerated))
            &&& entry.background is None && wallpaper is None && model.background.generated is None
                ==> {
                &&& entry.scene_base matches Some(old) ==> (step matches StepModel::Draw(
                    _,
                    drawn,
                    _,
                    _,
                ) && drawn == old)
                &&& entry.scene_base is None ==> step == StepModel::Failed(
                    RenderFailure::BackgroundUnavailable,
                )
            }
        }),
{
}

/// A scene is drawn anew where its wallpaper is new, its revision or size is another, or its layers
/// are missing once the curtain is ready; else it is shown as it is.
pub proof fn law_outdated_scene_is_drawn_anew(model: CurtainModel, task: RenderTask)
    ensures
        ({
            let entry = model.surfaces[task.index as int];
            let current = entry.scene_base is Some && entry.scene_base->0.size == task.size.buffer
                && entry.state.scene_base_revision == task.revision && (model.lock.ready_notified
                && model.shell.core.theme.visual_layers ==> entry.state.scene_base_has_layers);
            needs_scene(model, task) <==> task.background_refreshed || !current
        }),
{
}

/// A stored scene belongs to its surface, with the layers, revision and wallpaper it was made
/// for; no other surface changes.
pub proof fn law_stored_scene_belongs_to_its_surface(
    model: CurtainModel,
    task: RenderTask,
    picture: Picture,
    has_layers: bool,
)
    requires
        0 <= task.index < model.surfaces.len(),
    ensures
        ({
            let after = scene_stored(model, task, picture, has_layers);
            let entry = after.surfaces[task.index as int];
            &&& entry.scene_base == Some(picture)
            &&& entry.state.scene_base_revision == task.revision
            &&& entry.state.scene_base_has_layers == has_layers
            &&& entry.background_path == state::wallpaper_of(model, task.index as int)
            &&& entry.pool == model.surfaces[task.index as int].pool
            &&& after.surfaces.len() == model.surfaces.len()
            &&& forall|i: int|
                0 <= i < model.surfaces.len() && i != task.index ==> after.surfaces[i]
                    == model.surfaces[i]
        }),
{
}

} // verus!
