//! The static scene: everything on a surface that does not change with every frame.

use crate::curtain::redraw;
use crate::curtain::state::{CurtainApp, CurtainModel};
use vstd::prelude::*;

verus! {

/// What of the static scene is drawn over a wallpaper. Layers take their time, so until the
/// curtain is ready they are left out.
#[derive(Debug, Clone, Copy, PartialEq, Eq, Structural)]
pub enum StaticOverlay {
    WithoutLayers,
    Full,
}

pub open spec fn overlay_for(model: CurtainModel) -> StaticOverlay {
    if !model.lock.ready_notified && model.shell.core.theme.visual_layers {
        StaticOverlay::WithoutLayers
    } else {
        StaticOverlay::Full
    }
}

/// Whether a scene that is drawn now holds layers.
pub open spec fn scene_has_layers(model: CurtainModel) -> bool {
    overlay_for(model) == StaticOverlay::Full && model.shell.core.theme.visual_layers
}

/// A scene without its layers is drawn again once the curtain is ready.
pub open spec fn after_overlay(model: CurtainModel) -> CurtainModel {
    if overlay_for(model) == StaticOverlay::WithoutLayers {
        redraw::waiting_for_ready(model)
    } else {
        model
    }
}

impl CurtainApp {
    /// Decides what of the static scene is drawn, and tells whether that holds layers.
    pub fn static_scene_overlay(&mut self) -> (overlay: (StaticOverlay, bool))
        ensures
            overlay.0 == overlay_for(old(self)@),
            overlay.1 == scene_has_layers(old(self)@),
            final(self)@ == after_overlay(old(self)@),
            old(self).wf() ==> final(self).wf(),
            final(self).lock_surfaces == old(self).lock_surfaces,
            final(self).slideshow_transition == old(self).slideshow_transition,
            final(self).ui_shell == old(self).ui_shell,
            final(self).lock == old(self).lock,
    {
        let layered = self.ui_shell.has_visual_layers();
        if !self.lock.ready_notified && layered {
            self.redraw.pending_pre_ready = true;
            return (StaticOverlay::WithoutLayers, false);
        }
        (StaticOverlay::Full, layered)
    }
}

/// Before the ready signal the scene is drawn without its visual layers, where it has any, and is
/// then to be drawn again; from the signal on it is drawn whole.
pub proof fn law_layers_wait_for_the_ready_signal(model: CurtainModel)
    ensures
        model.lock.ready_notified || !model.shell.core.theme.visual_layers ==> overlay_for(model)
            == StaticOverlay::Full && after_overlay(model) == model,
        !model.lock.ready_notified && model.shell.core.theme.visual_layers ==> overlay_for(model)
            == StaticOverlay::WithoutLayers && after_overlay(model).redraw.pending_pre_ready
            && after_overlay(model).surfaces == model.surfaces,
        scene_has_layers(model) <==> model.lock.ready_notified
            && model.shell.core.theme.visual_layers,
{
}

} // verus!
