//! Wallpapers: what is loaded for which surface, and how a slideshow moves on.

use crate::common::path;
use crate::common::path::FilePath;
use crate::curtain::redraw;
use crate::curtain::redraw::RedrawTarget;
use crate::curtain::state;
use crate::curtain::state::{BackgroundState, CurtainApp, CurtainModel, WidgetState};
use crate::curtain::surface;
use crate::curtain::surface::{Picture, SurfaceModel, SurfaceState};
use crate::renderer::buffer::{PixelBuffer, SoftwareBuffer};
use crate::renderer::frame::FrameSize;
use vstd::prelude::*;

verus! {

/// A picture that was rendered for frames of a size.
#[derive(Debug)]
pub struct SizedBuffer {
    pub size: FrameSize,
    pub buffer: SoftwareBuffer,
}

pub open spec fn whole_buffers(buffers: Seq<SizedBuffer>) -> bool {
    forall|i: int| 0 <= i < buffers.len() ==> (#[trigger] buffers[i]).buffer.wf()
}

/// The first picture that was rendered for this size.
pub open spec fn picture_for(buffers: Seq<SizedBuffer>, size: FrameSize) -> Option<Picture>
    decreases buffers.len(),
{
    if buffers.len() == 0 {
        None
    } else if buffers[0].size == size {
        Some(surface::picture(buffers[0].buffer))
    } else {
        picture_for(buffers.drop_first(), size)
    }
}

fn buffer_for(buffers: &Vec<SizedBuffer>, size: FrameSize) -> (buffer: Option<&SoftwareBuffer>)
    requires
        whole_buffers(buffers@),
    ensures
        match (buffer, picture_for(buffers@, size)) {
            (Some(buffer), Some(picture)) => surface::picture(*buffer) == picture && buffer.wf(),
            (None, None) => true,
            _ => false,
        },
{
    let ghost all = buffers@;
    let mut index: usize = 0;
    assert(all.skip(0) =~= all);
    while index < buffers.len()
        invariant
            index <= buffers@.len(),
            all == buffers@,
            whole_buffers(all),
            picture_for(all, size) == picture_for(all.skip(index as int), size),
        decreases buffers@.len() - index,
    {
        let ghost rest = all.skip(index as int);
        if buffers[index].size == size {
            return Some(&buffers[index].buffer);
        }
        assert(rest.drop_first() =~= all.skip(index + 1));
        index += 1;
    }
    None
}

/// Whether a picture was rendered for this size.
pub fn has_buffer_for(buffers: &Vec<SizedBuffer>, size: FrameSize) -> (found: bool)
    requires
        whole_buffers(buffers@),
    ensures
        found == picture_for(buffers@, size) is Some,
{
    buffer_for(buffers, size).is_some()
}

fn copy_of(buffer: &SoftwareBuffer) -> (copy: SoftwareBuffer)
    requires
        buffer.wf(),
    ensures
        surface::picture(copy) == surface::picture(*buffer),
        copy.wf(),
{
    buffer.clone()
}

/// Whether a surface shows the wallpaper at this path in this size already.
pub open spec fn wallpaper_is_current(
    model: CurtainModel,
    entry: SurfaceModel,
    path: Seq<u8>,
    size: FrameSize,
) -> bool {
    let shown = match entry.background_path {
        Some(shown) => Some(shown),
        None => model.background_path,
    };
    path::same_places(shown, Some(path)) && match (entry.scene_base, entry.background) {
        (Some(scene_base), _) => scene_base.size == size,
        (None, Some(background)) => background.size == size,
        (None, None) => false,
    }
}

/// Whether a loaded wallpaper is taken over by a surface.
pub open spec fn takes_wallpaper(
    model: CurtainModel,
    index: int,
    path: Seq<u8>,
    buffers: Seq<SizedBuffer>,
) -> bool {
    let entry = model.surfaces[index];
    &&& path::same_places(state::wallpaper_of(model, index), Some(path))
    &&& entry.state.size matches Some(size) && picture_for(buffers, size.buffer) is Some
        && !wallpaper_is_current(model, entry, path, size.buffer)
}

/// A surface after a wallpaper was loaded. One that takes it over has to be drawn from scratch;
/// one without a size keeps no wallpaper.
pub open spec fn wallpapered(
    model: CurtainModel,
    index: int,
    path: Seq<u8>,
    buffers: Seq<SizedBuffer>,
) -> SurfaceModel {
    let entry = model.surfaces[index];
    if takes_wallpaper(model, index, path, buffers) {
        SurfaceModel {
            state: SurfaceState {
                scene_base_revision: 0,
                scene_base_has_layers: false,
                ..entry.state
            },
            background: picture_for(buffers, entry.state.size->0.buffer),
            background_path: Some(path),
            scene_base: None,
            ..entry
        }
    } else if path::same_places(state::wallpaper_of(model, index), Some(path))
        && entry.state.size is None {
        SurfaceModel { background: None, ..entry }
    } else {
        entry
    }
}

pub open spec fn all_wallpapered(
    model: CurtainModel,
    path: Seq<u8>,
    buffers: Seq<SizedBuffer>,
) -> CurtainModel {
    CurtainModel {
        surfaces: Seq::new(
            model.surfaces.len(),
            |index: int| wallpapered(model, index, path, buffers),
        ),
        ..model
    }
}

pub open spec fn any_takes_wallpaper(
    model: CurtainModel,
    path: Seq<u8>,
    buffers: Seq<SizedBuffer>,
    count: int,
) -> bool {
    exists|index: int|
        0 <= index < count && #[trigger] takes_wallpaper(model, index, path, buffers)
}

/// The wallpaper of a surface rests on what is known of its output, not on what is drawn.
proof fn lemma_wallpaper_kept(before: CurtainModel, after: CurtainModel, index: int)
    requires
        before.background == after.background,
        before.background_path == after.background_path,
        before.background_outputs == after.background_outputs,
        before.surfaces[index].details == after.surfaces[index].details,
    ensures
        state::wallpaper_of(before, index) == state::wallpaper_of(after, index),
{
}

impl CurtainApp {
    pub fn surface_wallpaper_is_current(&self, index: usize, path: &FilePath, size: FrameSize) -> (current:
        bool)
        requires
            index < self.lock_surfaces@.len(),
        ensures
            current == wallpaper_is_current(
                self@,
                self@.surfaces[index as int],
                path@,
                size,
            ),
    {
        let entry = &self.lock_surfaces[index];
        let shown = match &entry.background_path {
            Some(shown) => Some(shown),
            None => self.background_path.as_ref(),
        };
        let path_matches = match shown {
            Some(shown) => shown.same_as(path),
            None => false,
        };
        if !path_matches {
            return false;
        }
        match &entry.scene_base {
            Some(scene_base) => scene_base.size() == size,
            None => match &entry.background {
                Some(background) => background.size() == size,
                None => false,
            },
        }
    }

    /// Hands a loaded wallpaper to one surface, and tells whether it takes it over.
    fn offer_wallpaper(&mut self, index: usize, path: &FilePath, buffers: &Vec<SizedBuffer>) -> (taken:
        bool)
        requires
            index < old(self).lock_surfaces@.len(),
            old(self).wf(),
            whole_buffers(buffers@),
        ensures
            final(self).wf(),
            taken == takes_wallpaper(old(self)@, index as int, path@, buffers@),
            final(self)@ == (CurtainModel {
                surfaces: old(self)@.surfaces.update(
                    index as int,
                    wallpapered(old(self)@, index as int, path@, buffers@),
                ),
                ..old(self)@
            }),
    {
        let ghost before = *self;
        let ghost entry = self@.surfaces[index as int];
        let own = match self.background_path_for_surface(index) {
            Some(selected) => selected.same_as(path),
            None => false,
        };
        if !own {
            assert(self@.surfaces =~= before@.surfaces.update(index as int, entry));
            return false;
        }
        let size = match self.lock_surfaces[index].state.size {
            Some(size) => size.buffer,
            None => {
                self.lock_surfaces[index].background = None;
                proof {
                    state::lemma_surface_changed(
                        before.lock_surfaces@,
                        self.lock_surfaces@,
                        index as int,
                    );
                }
                return false;
            },
        };
        let buffer = match buffer_for(buffers, size) {
            Some(buffer) => buffer,
            None => {
                assert(self@.surfaces =~= before@.surfaces.update(index as int, entry));
                return false;
            },
        };
        if self.surface_wallpaper_is_current(index, path, size) {
            assert(self@.surfaces =~= before@.surfaces.update(index as int, entry));
            return false;
        }
        let copy = copy_of(buffer);
        let shown = path.clone();
        let entry = &mut self.lock_surfaces[index];
        entry.background = Some(copy);
        entry.background_path = Some(shown);
        entry.scene_base = None;
        entry.state.scene_base_revision = 0;
        entry.state.scene_base_has_layers = false;
        proof {
            state::lemma_surface_changed(
                before.lock_surfaces@,
                self.lock_surfaces@,
                index as int,
            );
        }
        true
    }

    /// Hands a loaded wallpaper to the surfaces that wait for it, and asks for a redraw where any
    /// takes it over.
    pub fn take_loaded_wallpaper(&mut self, path: &FilePath, buffers: &Vec<SizedBuffer>) -> (targets:
        Vec<RedrawTarget>)
        requires
            old(self).wf(),
            whole_buffers(buffers@),
        ensures
            final(self).wf(),
            ({
                let after = all_wallpapered(old(self)@, path@, buffers@);
                if any_takes_wallpaper(
                    old(self)@,
                    path@,
                    buffers@,
                    old(self)@.surfaces.len() as int,
                ) {
                    final(self)@ == redraw::after_redraw_request(after) && targets@
                        == redraw::redraw_targets(after)
                } else {
                    final(self)@ == after && targets@.len() == 0
                }
            }),
    {
        let ghost before = *self;
        let mut changed = false;
        let mut index: usize = 0;
        while index < self.lock_surfaces.len()
            invariant
                index <= self.lock_surfaces@.len(),
                self.lock_surfaces@.len() == before.lock_surfaces@.len(),
                self.wf(),
                whole_buffers(buffers@),
                self@ == (CurtainModel { surfaces: self@.surfaces, ..before@ }),
                changed == any_takes_wallpaper(before@, path@, buffers@, index as int),
                forall|i: int|
                    0 <= i < index ==> (#[trigger] self@.surfaces[i]) == wallpapered(
                        before@,
                        i,
                        path@,
                        buffers@,
                    ),
                forall|i: int|
                    index <= i < self.lock_surfaces@.len() ==> (#[trigger] self@.surfaces[i])
                        == before@.surfaces[i],
            decreases self.lock_surfaces@.len() - index,
        {
            let ghost current = *self;
            assert(self@.surfaces[index as int] == before@.surfaces[index as int]);
            proof {
                lemma_wallpaper_kept(before@, current@, index as int);
            }
            let taken = self.offer_wallpaper(index, path, buffers);
            proof {
                assert(self@.surfaces.len() == current@.surfaces.len());
                assert(self.lock_surfaces@.len() == self@.surfaces.len());
                assert(taken == takes_wallpaper(before@, index as int, path@, buffers@));
                assert(any_takes_wallpaper(before@, path@, buffers@, index + 1) == (changed
                    || taken)) by {
                    if changed {
                        let at = choose|at: int|
                            0 <= at < index && #[trigger] takes_wallpaper(
                                before@,
                                at,
                                path@,
                                buffers@,
                            );
                        assert(takes_wallpaper(before@, at, path@, buffers@));
                    }
                }
            }
            changed = changed || taken;
            index += 1;
        }
        assert(self@.surfaces =~= all_wallpapered(before@, path@, buffers@).surfaces);
        if changed {
            self.render_all_surfaces()
        } else {
            Vec::new()
        }
    }

    /// Whether a loaded background asset is the one in use.
    pub fn takes_asset(&self, path: &FilePath) -> (taken: bool)
        ensures
            taken == path::same_places(self@.background_path, Some(path@)),
    {
        match &self.background_path {
            Some(own) => own.same_as(path),
            None => false,
        }
    }

    /// An avatar picture was loaded. Tells whether it is the one that is waited for.
    pub fn avatar_loaded(&mut self, path: Option<&FilePath>) -> (awaited: bool)
        ensures
            awaited == path::same_places(
                surface::optional_path(old(self).paths.avatar_path),
                path::optional_bytes(path),
            ),
            final(self)@ == if awaited {
                CurtainModel {
                    widgets: WidgetState { avatar_load_started: false, ..old(self)@.widgets },
                    ..old(self)@
                }
            } else {
                old(self)@
            },
            old(self).wf() ==> final(self).wf(),
    {
        if !path::same_optional(self.paths.avatar_path.as_ref(), path) {
            return false;
        }
        self.widgets.avatar_load_started = false;
        true
    }

    /// The avatar picture to load, if one is to be loaded now; `already_shown` tells whether the
    /// cached one is what the shell shows.
    pub fn maybe_start_avatar_load(&mut self, already_shown: bool) -> (path: Option<FilePath>)
        ensures
            ({
                let starts = !old(self).widgets.avatar_load_started && old(self).lock.ready_notified
                    && old(self).paths.avatar_path is Some && !already_shown;
                &&& surface::optional_path(path) == if starts {
                    surface::optional_path(old(self).paths.avatar_path)
                } else {
                    None
                }
                &&& final(self)@ == if starts {
                    CurtainModel {
                        widgets: WidgetState { avatar_load_started: true, ..old(self)@.widgets },
                        ..old(self)@
                    }
                } else {
                    old(self)@
                }
            }),
            old(self).wf() ==> final(self).wf(),
    {
        if self.widgets.avatar_load_started || !self.lock.ready_notified {
            return None;
        }
        let path = match &self.paths.avatar_path {
            Some(path) => path.clone(),
            None => {
                return None;
            },
        };
        if already_shown {
            return None;
        }
        self.widgets.avatar_load_started = true;
        Some(path)
    }
}

/// A wallpaper to render, and the frame sizes it is needed in.
#[derive(Debug)]
pub struct BackgroundRenderSpec {
    pub path: FilePath,
    pub sizes: Vec<FrameSize>,
}

#[verifier::ext_equal]
pub ghost struct RenderSpecModel {
    pub path: Seq<u8>,
    pub sizes: Seq<FrameSize>,
}

impl View for BackgroundRenderSpec {
    type V = RenderSpecModel;

    open spec fn view(&self) -> RenderSpecModel {
        RenderSpecModel { path: self.path@, sizes: self.sizes@ }
    }
}

pub open spec fn spec_models(specs: Seq<BackgroundRenderSpec>) -> Seq<RenderSpecModel> {
    specs.map_values(|render: BackgroundRenderSpec| render@)
}

/// Where the wallpaper at this path stands in the list.
pub open spec fn spec_index(specs: Seq<RenderSpecModel>, path: Seq<u8>) -> Option<int>
    decreases specs.len(),
{
    if specs.len() == 0 {
        None
    } else {
        match spec_index(specs.drop_last(), path) {
            Some(index) => Some(index),
            None => if path::same_place(specs.last().path, path) {
                Some(specs.len() - 1)
            } else {
                None
            },
        }
    }
}

/// The list with a wallpaper in a size added, unless it is there already.
pub open spec fn with_render(
    specs: Seq<RenderSpecModel>,
    path: Seq<u8>,
    size: FrameSize,
) -> Seq<RenderSpecModel> {
    match spec_index(specs, path) {
        Some(index) => if specs[index].sizes.contains(size) {
            specs
        } else {
            specs.update(
                index,
                RenderSpecModel { sizes: specs[index].sizes.push(size), ..specs[index] },
            )
        },
        None => specs.push(RenderSpecModel { path, sizes: seq![size] }),
    }
}

/// The frame size of a surface: the one it has, else the one it will likely get.
pub open spec fn expected_frame(entry: SurfaceModel) -> Option<FrameSize> {
    match entry.state.size {
        Some(size) => Some(size.buffer),
        None => match surface::details_size(entry.details) {
            Some(logical) => Some(
                surface::surface_size(
                    logical.0,
                    logical.1,
                    surface::scale_of(entry.state, entry.details),
                    surface::fractional_scale_of(entry.state),
                ).buffer,
            ),
            None => None,
        },
    }
}

/// The wallpapers that the first `count` surfaces need.
pub open spec fn needed_renders(model: CurtainModel, count: int) -> Seq<RenderSpecModel>
    decreases count,
{
    if count <= 0 {
        Seq::empty()
    } else {
        let rest = needed_renders(model, count - 1);
        match (
            state::wallpaper_of(model, count - 1),
            expected_frame(model.surfaces[count - 1]),
        ) {
            (Some(path), Some(size)) => with_render(rest, path, size),
            _ => rest,
        }
    }
}

proof fn lemma_spec_index(specs: Seq<RenderSpecModel>, path: Seq<u8>)
    ensures
        match spec_index(specs, path) {
            Some(index) => 0 <= index < specs.len() && path::same_place(specs[index].path, path)
                && forall|i: int|
                0 <= i < index ==> !path::same_place((#[trigger] specs[i]).path, path),
            None => forall|i: int|
                0 <= i < specs.len() ==> !path::same_place((#[trigger] specs[i]).path, path),
        },
    decreases specs.len(),
{
    if specs.len() > 0 {
        let rest = specs.drop_last();
        lemma_spec_index(rest, path);
        assert forall|i: int| 0 <= i < rest.len() implies rest[i] == #[trigger] specs[i] by {}
    }
}

fn find_spec(specs: &Vec<BackgroundRenderSpec>, path: &FilePath) -> (index: Option<usize>)
    ensures
        match (index, spec_index(spec_models(specs@), path@)) {
            (Some(index), Some(at)) => index == at && index < specs@.len(),
            (None, None) => true,
            _ => false,
        },
{
    let ghost models = spec_models(specs@);
    proof {
        lemma_spec_index(models, path@);
    }
    let mut index: usize = 0;
    while index < specs.len()
        invariant
            index <= specs@.len(),
            models == spec_models(specs@),
            forall|i: int|
                0 <= i < index ==> !path::same_place((#[trigger] models[i]).path, path@),
        decreases specs@.len() - index,
    {
        if specs[index].path.same_as(path) {
            proof {
                lemma_spec_index(models, path@);
                assert(path::same_place(models[index as int].path, path@));
            }
            return Some(index);
        }
        assert(!path::same_place(models[index as int].path, path@));
        index += 1;
    }
    proof {
        lemma_spec_index(models, path@);
    }
    None
}

fn contains_size(sizes: &Vec<FrameSize>, size: FrameSize) -> (contained: bool)
    ensures
        contained == sizes@.contains(size),
{
    let mut index: usize = 0;
    while index < sizes.len()
        invariant
            index <= sizes@.len(),
            forall|i: int| 0 <= i < index ==> (#[trigger] sizes@[i]) != size,
        decreases sizes@.len() - index,
    {
        if sizes[index] == size {
            assert(sizes@[index as int] == size);
            return true;
        }
        index += 1;
    }
    false
}

fn add_render(specs: &mut Vec<BackgroundRenderSpec>, path: &FilePath, size: FrameSize)
    ensures
        spec_models(final(specs)@) == with_render(spec_models(old(specs)@), path@, size),
{
    let ghost before = specs@;
    let ghost models = spec_models(before);
    match find_spec(specs, path) {
        Some(index) => {
            assert(models[index as int] == before[index as int]@);
            if !contains_size(&specs[index].sizes, size) {
                specs[index].sizes.push(size);
                assert(spec_models(specs@) =~= with_render(models, path@, size));
            }
        },
        None => {
            let mut sizes: Vec<FrameSize> = Vec::new();
            sizes.push(size);
            assert(sizes@ =~= seq![size]);
            specs.push(BackgroundRenderSpec { path: path.clone(), sizes });
            assert(spec_models(specs@) =~= with_render(models, path@, size));
        },
    }
}

impl CurtainApp {
    /// The wallpapers that have to be rendered, each in every frame size it is needed in.
    pub fn background_render_specs(&self) -> (specs: Vec<BackgroundRenderSpec>)
        ensures
            spec_models(specs@) == needed_renders(self@, self@.surfaces.len() as int),
    {
        let mut specs: Vec<BackgroundRenderSpec> = Vec::new();
        assert(spec_models(specs@) =~= Seq::empty());
        let mut index: usize = 0;
        while index < self.lock_surfaces.len()
            invariant
                index <= self.lock_surfaces@.len(),
                spec_models(specs@) == needed_renders(self@, index as int),
            decreases self.lock_surfaces@.len() - index,
        {
            let size = match self.lock_surfaces[index].state.size {
                Some(size) => Some(size.buffer),
                None => match self.lock_surfaces[index].estimated_surface_size() {
                    Some(size) => Some(size.buffer),
                    None => None,
                },
            };
            assert(size == expected_frame(self@.surfaces[index as int]));
            if let Some(path) = self.background_path_for_surface(index) {
                if let Some(size) = size {
                    add_render(&mut specs, path, size);
                }
            }
            index += 1;
        }
        specs
    }

    /// What has to be rendered, if that has not begun yet.
    pub fn maybe_start_background_render(&mut self) -> (specs: Vec<BackgroundRenderSpec>)
        ensures
            spec_models(specs@) == renders_to_start(old(self)@),
            final(self)@ == after_render_start(old(self)@),
            old(self).wf() ==> final(self).wf(),
            final(self).lock_surfaces == old(self).lock_surfaces,
            final(self).slideshow_transition == old(self).slideshow_transition,
    {
        if self.background.render_started {
            let none: Vec<BackgroundRenderSpec> = Vec::new();
            assert(spec_models(none@) =~= Seq::empty());
            return none;
        }
        let specs = self.background_render_specs();
        assert(spec_models(specs@).len() == specs@.len());
        if specs.len() > 0 {
            self.background.render_started = true;
        } else {
            assert(spec_models(specs@) =~= Seq::empty());
        }
        specs
    }

    /// The frame sizes the next wallpaper of a slideshow is rendered in ahead of time.
    pub fn preload_sizes(&self) -> (sizes: Vec<FrameSize>)
        ensures
            sizes@ == redraw::sized_surfaces(self@.surfaces).map_values(
                |target: RedrawTarget| target.size.buffer,
            ),
    {
        let mut sizes: Vec<FrameSize> = Vec::new();
        let mut index: usize = 0;
        let ghost buffer_of = |target: RedrawTarget| target.size.buffer;
        assert(self@.surfaces.take(0) =~= Seq::empty());
        assert(sizes@ =~= redraw::sized_surfaces(self@.surfaces.take(0)).map_values(buffer_of));
        while index < self.lock_surfaces.len()
            invariant
                index <= self.lock_surfaces@.len(),
                buffer_of == (|target: RedrawTarget| target.size.buffer),
                sizes@ == redraw::sized_surfaces(self@.surfaces.take(index as int)).map_values(
                    buffer_of,
                ),
            decreases self.lock_surfaces@.len() - index,
        {
            let ghost part = self@.surfaces.take(index + 1);
            assert(part.drop_last() =~= self@.surfaces.take(index as int));
            if let Some(size) = self.lock_surfaces[index].state.size {
                sizes.push(size.buffer);
            }
            assert(sizes@ =~= redraw::sized_surfaces(part).map_values(buffer_of));
            index += 1;
        }
        assert(self@.surfaces.take(index as int) =~= self@.surfaces);
        sizes
    }

    /// Forgets every wallpaper, so that they are loaded anew.
    pub fn reset_background_source_state(&mut self)
        ensures
            final(self)@ == source_forgotten(old(self)@),
            old(self).wf() ==> final(self).wf(),
            final(self).slideshow_transition == old(self).slideshow_transition,
    {
        let ghost before = *self;
        self.background.render_started = false;
        let ghost started = *self;
        let mut index: usize = 0;
        while index < self.lock_surfaces.len()
            invariant
                index <= self.lock_surfaces@.len(),
                self.lock_surfaces@.len() == before.lock_surfaces@.len(),
                started.lock_surfaces == before.lock_surfaces,
                started.slideshow_transition == before.slideshow_transition,
                self@ == (CurtainModel { surfaces: self@.surfaces, ..started@ }),
                self.slideshow_transition == started.slideshow_transition,
                forall|i: int|
                    0 <= i < index ==> (#[trigger] self.lock_surfaces@[i])@
                        == surface::source_reset(before.lock_surfaces@[i]@) && (
                    before.lock_surfaces@[i].wf() ==> self.lock_surfaces@[i].wf()),
                forall|i: int|
                    index <= i < self.lock_surfaces@.len() ==> (#[trigger] self.lock_surfaces@[i])
                        == before.lock_surfaces@[i],
            decreases self.lock_surfaces@.len() - index,
        {
            self.lock_surfaces[index].reset_source_state();
            index += 1;
        }
        assert(self@.surfaces =~= all_sources_reset(before@.surfaces));
        proof {
            if before.wf() {
                assert forall|i: int| 0 <= i < self.lock_surfaces@.len() implies (
                #[trigger] self.lock_surfaces@[i]).wf() by {
                    assert(before.lock_surfaces@[i].wf());
                }
            }
        }
    }
}

pub open spec fn renders_to_start(model: CurtainModel) -> Seq<RenderSpecModel> {
    if model.background.render_started {
        Seq::empty()
    } else {
        needed_renders(model, model.surfaces.len() as int)
    }
}

pub open spec fn after_render_start(model: CurtainModel) -> CurtainModel {
    CurtainModel {
        background: BackgroundState {
            render_started: model.background.render_started || renders_to_start(model).len() > 0,
            ..model.background
        },
        ..model
    }
}

pub open spec fn all_sources_reset(surfaces: Seq<SurfaceModel>) -> Seq<SurfaceModel> {
    surfaces.map_values(|entry: SurfaceModel| surface::source_reset(entry))
}

pub open spec fn source_forgotten(model: CurtainModel) -> CurtainModel {
    CurtainModel {
        background: BackgroundState { render_started: false, ..model.background },
        surfaces: all_sources_reset(model.surfaces),
        ..model
    }
}

proof fn lemma_with_render(specs: Seq<RenderSpecModel>, path: Seq<u8>, size: FrameSize)
    requires
        specs_are_distinct(specs),
    ensures
        specs_are_distinct(with_render(specs, path, size)),
        is_rendered(with_render(specs, path, size), path, size),
        forall|p: Seq<u8>, s: FrameSize|
            is_rendered(specs, p, s) ==> #[trigger] is_rendered(
                with_render(specs, path, size),
                p,
                s,
            ),
{
    lemma_spec_index(specs, path);
    let after = with_render(specs, path, size);
    match spec_index(specs, path) {
        Some(index) => {
            if specs[index].sizes.contains(size) {
            } else {
                let sizes = specs[index].sizes.push(size);
                assert(sizes[sizes.len() - 1] == size);
                assert(after[index].sizes.contains(size));
                assert forall|p: Seq<u8>, s: FrameSize| is_rendered(specs, p, s) implies
                    #[trigger] is_rendered(after, p, s) by {
                    let at = choose|at: int|
                        0 <= at < specs.len() && path::same_place((#[trigger] specs[at]).path, p)
                            && specs[at].sizes.contains(s);
                    if at == index {
                        let place = choose|place: int|
                            0 <= place < specs[at].sizes.len() && specs[at].sizes[place] == s;
                        assert(sizes[place] == s);
                    }
                    assert(path::same_place(after[at].path, p) && after[at].sizes.contains(s));
                }
                assert(sizes.no_duplicates());
            }
        },
        None => {
            let last = specs.len() as int;
            assert(after[last].sizes[0] == size);
            assert(path::same_place(after[last].path, path) && after[last].sizes.contains(size));
            assert forall|p: Seq<u8>, s: FrameSize| is_rendered(specs, p, s) implies
                #[trigger] is_rendered(after, p, s) by {
                let at = choose|at: int|
                    0 <= at < specs.len() && path::same_place((#[trigger] specs[at]).path, p)
                        && specs[at].sizes.contains(s);
                assert(after[at] == specs[at]);
            }
        },
    }
}

/// Whether a wallpaper is rendered in a size.
pub open spec fn is_rendered(specs: Seq<RenderSpecModel>, path: Seq<u8>, size: FrameSize) -> bool {
    exists|at: int|
        0 <= at < specs.len() && path::same_place((#[trigger] specs[at]).path, path)
            && specs[at].sizes.contains(size)
}

/// No wallpaper stands in the list twice, and none is rendered in a size twice.
pub open spec fn specs_are_distinct(specs: Seq<RenderSpecModel>) -> bool {
    &&& forall|i: int, j: int|
        0 <= i < j < specs.len() ==> !path::same_place(
            (#[trigger] specs[i]).path,
            (#[trigger] specs[j]).path,
        )
    &&& forall|i: int| 0 <= i < specs.len() ==> (#[trigger] specs[i]).sizes.no_duplicates()
}

/// Every surface that has a wallpaper and a size gets it rendered, and nothing is rendered twice.
pub proof fn law_every_surface_gets_its_wallpaper(model: CurtainModel, count: int)
    ensures
        specs_are_distinct(needed_renders(model, count)),
        forall|index: int|
            0 <= index < count ==> match (
                #[trigger] state::wallpaper_of(model, index),
                expected_frame(model.surfaces[index]),
            ) {
                (Some(path), Some(size)) => is_rendered(needed_renders(model, count), path, size),
                _ => true,
            },
    decreases count,
{
    if count > 0 {
        law_every_surface_gets_its_wallpaper(model, count - 1);
        match (
            state::wallpaper_of(model, count - 1),
            expected_frame(model.surfaces[count - 1]),
        ) {
            (Some(path), Some(size)) => {
                lemma_with_render(needed_renders(model, count - 1), path, size);
            },
            _ => {},
        }
    }
}

/// A wallpaper that a surface shows already is not taken over again: loading it once more changes
/// nothing and asks for no redraw.
pub proof fn law_current_wallpaper_is_kept(
    model: CurtainModel,
    index: int,
    path: Seq<u8>,
    buffers: Seq<SizedBuffer>,
)
    requires
        0 <= index < model.surfaces.len(),
        model.surfaces[index].state.size is Some,
        wallpaper_is_current(
            model,
            model.surfaces[index],
            path,
            model.surfaces[index].state.size->0.buffer,
        ),
    ensures
        !takes_wallpaper(model, index, path, buffers),
        wallpapered(model, index, path, buffers) == model.surfaces[index],
{
}

/// The first picture of the wanted size is taken, and where no picture has that size, none.
pub proof fn law_picture_of_the_size_is_taken(
    buffers: Seq<SizedBuffer>,
    size: FrameSize,
    at: int,
)
    ensures
        0 <= at < buffers.len() && buffers[at].size == size && (forall|i: int|
            0 <= i < at ==> (#[trigger] buffers[i]).size != size) ==> picture_for(buffers, size)
            == Some(surface::picture(buffers[at].buffer)),
        (forall|i: int| 0 <= i < buffers.len() ==> (#[trigger] buffers[i]).size != size)
            ==> picture_for(buffers, size) is None,
    decreases buffers.len(),
{
    if buffers.len() > 0 && buffers[0].size != size {
        let rest = buffers.drop_first();
        assert forall|i: int| 0 <= i < rest.len() implies #[trigger] rest[i] == buffers[i + 1] by {}
        law_picture_of_the_size_is_taken(rest, size, at - 1);
    }
}

/// A wallpaper that was loaded is shown by every surface it is meant for whose size it has and
/// that does not show it yet, from then on as its own, with the old scene dropped. A surface that
/// shows another wallpaper is left alone.
pub proof fn law_loaded_wallpaper_is_shown(
    model: CurtainModel,
    index: int,
    path: Seq<u8>,
    buffers: Seq<SizedBuffer>,
)
    requires
        0 <= index < model.surfaces.len(),
    ensures
        ({
            let entry = model.surfaces[index];
            let after = all_wallpapered(model, path, buffers).surfaces[index];
            let meant = path::same_places(state::wallpaper_of(model, index), Some(path));
            &&& !meant ==> after == entry
            &&& meant && entry.state.size is Some && picture_for(
                buffers,
                entry.state.size->0.buffer,
            ) is Some && !wallpaper_is_current(model, entry, path, entry.state.size->0.buffer) ==> {
                &&& after.background == picture_for(buffers, entry.state.size->0.buffer)
                &&& after.background_path == Some(path)
                &&& after.scene_base is None
                &&& !after.state.scene_base_has_layers
            }
            &&& entry.state.size is Some && picture_for(buffers, entry.state.size->0.buffer) is None
                ==> after == entry
            &&& after.state.size == entry.state.size && after.details == entry.details && after.pool
                == entry.pool
        }),
{
}

/// Wallpapers are rendered for surfaces that show them and in sizes those have, nothing else.
pub proof fn law_only_shown_wallpapers_are_rendered(model: CurtainModel, count: int, at: int)
    requires
        0 <= at < needed_renders(model, count).len(),
    ensures
        needed_renders(model, count)[at].sizes.len() > 0,
        forall|s: int|
            0 <= s < needed_renders(model, count)[at].sizes.len() ==> is_wanted(
                model,
                count,
                needed_renders(model, count)[at].path,
                #[trigger] needed_renders(model, count)[at].sizes[s],
            ),
    decreases count,
{
    if count > 0 {
        let rest = needed_renders(model, count - 1);
        let whole = needed_renders(model, count);
        let render = whole[at];
        if at < rest.len() {
            law_only_shown_wallpapers_are_rendered(model, count - 1, at);
        }
        match (state::wallpaper_of(model, count - 1), expected_frame(model.surfaces[count - 1])) {
            (Some(path), Some(size)) => {
                lemma_spec_index(rest, path);
                assert forall|s: int| 0 <= s < render.sizes.len() implies is_wanted(
                    model,
                    count,
                    render.path,
                    #[trigger] render.sizes[s],
                ) by {
                    if at < rest.len() && s < rest[at].sizes.len() {
                        assert(render.sizes[s] == rest[at].sizes[s]);
                        assert(is_wanted(model, count - 1, rest[at].path, rest[at].sizes[s]));
                        let i = choose|i: int|
                            0 <= i < count - 1 && #[trigger] wants(
                                model,
                                i,
                                rest[at].path,
                                rest[at].sizes[s],
                            );
                        assert(wants(model, i, render.path, render.sizes[s]));
                    } else {
                        assert(render.sizes[s] == size);
                        assert(path::same_place(render.path, path)) by {
                            lemma_same_place_reflexive(path);
                        }
                        assert(wants(model, count - 1, render.path, render.sizes[s]));
                    }
                }
            },
            _ => {
                assert(whole == rest);
                assert forall|s: int| 0 <= s < render.sizes.len() implies is_wanted(
                    model,
                    count,
                    render.path,
                    #[trigger] render.sizes[s],
                ) by {
                    assert(is_wanted(model, count - 1, rest[at].path, rest[at].sizes[s]));
                    let i = choose|i: int|
                        0 <= i < count - 1 && #[trigger] wants(
                            model,
                            i,
                            rest[at].path,
                            rest[at].sizes[s],
                        );
                    assert(wants(model, i, render.path, render.sizes[s]));
                }
            },
        }
    }
}

/// Whether the surface shows the wallpaper and has the size.
pub open spec fn wants(model: CurtainModel, index: int, path: Seq<u8>, size: FrameSize) -> bool {
    state::wallpaper_of(model, index) matches Some(shown) && path::same_place(path, shown)
        && expected_frame(model.surfaces[index]) == Some(size)
}

/// Whether one of the first surfaces shows the wallpaper and has the size.
pub open spec fn is_wanted(
    model: CurtainModel,
    count: int,
    path: Seq<u8>,
    size: FrameSize,
) -> bool {
    exists|i: int| 0 <= i < count && #[trigger] wants(model, i, path, size)
}

proof fn lemma_same_place_reflexive(path: Seq<u8>)
    ensures
        path::same_place(path, path),
{
}

/// Wallpapers that are being rendered are not asked for again; a new source starts over, without
/// the pictures of the old one.
pub proof fn law_wallpapers_are_rendered_once(model: CurtainModel, index: int)
    requires
        0 <= index < model.surfaces.len(),
    ensures
        renders_to_start(after_render_start(model)).len() == 0,
        !model.background.render_started ==> renders_to_start(model) == needed_renders(
            model,
            model.surfaces.len() as int,
        ),
        !source_forgotten(model).background.render_started,
        source_forgotten(model).surfaces[index].background is None,
        source_forgotten(model).surfaces[index].scene_base is None,
        source_forgotten(model).surfaces[index].background_path is None,
        source_forgotten(model).surfaces[index].pool == model.surfaces[index].pool,
        source_forgotten(model).background_path == model.background_path,
{
}

} // verus!
