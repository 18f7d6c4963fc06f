//! What comes of loading pictures in the background.

use crate::common::path;
use crate::common::path::FilePath;
use crate::curtain::background;
use crate::curtain::background::SizedBuffer;
use crate::curtain::redraw;
use crate::curtain::redraw::RedrawTarget;
use crate::curtain::slideshow;
use crate::curtain::state::{CurtainApp, CurtainModel, WidgetState};
use crate::curtain::surface;
use vstd::prelude::*;

verus! {

/// What was loaded in the background.
#[derive(Debug)]
pub enum BackgroundEvent {
    /// A wallpaper was rendered in these sizes.
    BuffersReady { path: FilePath, buffers: Vec<SizedBuffer> },
    /// A wallpaper was loaded.
    AssetReady { path: FilePath },
    /// An avatar picture was loaded.
    AvatarReady { path: Option<FilePath> },
    /// Something could not be loaded.
    Failed,
}

/// What is to be done about it.
#[derive(Debug)]
pub enum BackgroundEffect {
    Nothing,
    /// Draw these surfaces.
    Redraw(Vec<RedrawTarget>),
    /// Build the new pictures of a crossfade for these surfaces.
    BuildTargets(Vec<usize>),
    /// Keep the wallpaper.
    KeepAsset,
    /// Hand the avatar to the shell, and draw the surfaces where that changes it.
    SetAvatar,
}

pub open spec fn buffers_are_whole(event: BackgroundEvent) -> bool {
    event matches BackgroundEvent::BuffersReady { path, buffers } ==> background::whole_buffers(
        buffers@,
    )
}

impl CurtainApp {
    /// Takes in what was loaded. A wallpaper that a crossfade waits for belongs to the crossfade;
    /// any other one goes to the surfaces that show it.
    pub fn handle_background_event(&mut self, event: &BackgroundEvent) -> (effect: BackgroundEffect)
        requires
            old(self).wf(),
            buffers_are_whole(*event),
        ensures
            final(self).wf(),
            match *event {
                BackgroundEvent::BuffersReady { path, buffers } => {
                    let before = old(self)@;
                    let after = background::all_wallpapered(before, path@, buffers@);
                    if before.transition matches Some(fade) && path::same_place(
                        fade.to_path,
                        path@,
                    ) {
                        &&& final(self)@ == before
                        &&& effect matches BackgroundEffect::BuildTargets(indices) && indices@
                            == slideshow::needed_targets(
                            before,
                            buffers@,
                            before.surfaces.len() as int,
                        )
                    } else if background::any_takes_wallpaper(
                        before,
                        path@,
                        buffers@,
                        before.surfaces.len() as int,
                    ) {
                        &&& final(self)@ == redraw::after_redraw_request(after)
                        &&& effect matches BackgroundEffect::Redraw(targets) && targets@
                            == redraw::redraw_targets(after)
                    } else {
                        &&& final(self)@ == after
                        &&& effect matches BackgroundEffect::Redraw(targets) && targets@.len() == 0
                    }
                },
                BackgroundEvent::AssetReady { path } => final(self)@ == old(self)@
                    && effect == if path::same_places(old(self)@.background_path, Some(path@)) {
                    BackgroundEffect::KeepAsset
                } else {
                    BackgroundEffect::Nothing
                },
                BackgroundEvent::AvatarReady { path } => if path::same_places(
                    surface::optional_path(old(self)@.paths.avatar_path),
                    surface::optional_path(path),
                ) {
                    effect is SetAvatar && final(self)@ == (CurtainModel {
                        widgets: WidgetState { avatar_load_started: false, ..old(self)@.widgets },
                        ..old(self)@
                    })
                } else {
                    effect is Nothing && final(self)@ == old(self)@
                },
                BackgroundEvent::Failed => effect is Nothing && final(self)@ == old(self)@,
            },
    {
        match event {
            BackgroundEvent::BuffersReady { path, buffers } => {
                if self.transition_awaits(path) {
                    BackgroundEffect::BuildTargets(self.slideshow_targets(buffers))
                } else {
                    BackgroundEffect::Redraw(self.take_loaded_wallpaper(path, buffers))
                }
            },
            BackgroundEvent::AssetReady { path } => {
                if self.takes_asset(path) {
                    BackgroundEffect::KeepAsset
                } else {
                    BackgroundEffect::Nothing
                }
            },
            BackgroundEvent::AvatarReady { path } => {
                if self.avatar_loaded(path.as_ref()) {
                    BackgroundEffect::SetAvatar
                } else {
                    BackgroundEffect::Nothing
                }
            },
            BackgroundEvent::Failed => BackgroundEffect::Nothing,
        }
    }
}

} // verus!
