//! Which surfaces are drawn again, and when.

use crate::common::text;
use crate::curtain::state;
use crate::curtain::state::{CurtainApp, CurtainModel, LockState, RedrawState};
use crate::curtain::surface::{OutputRole, SurfaceModel, SurfaceSize};
use vstd::prelude::*;

verus! {

/// A surface to draw, and the size to draw it in.
#[derive(Debug, Clone, Copy, PartialEq, Eq, Structural)]
pub struct RedrawTarget {
    pub surface: u32,
    pub size: SurfaceSize,
}

/// The surfaces that have a size, in order.
pub open spec fn sized_surfaces(surfaces: Seq<SurfaceModel>) -> Seq<RedrawTarget>
    decreases surfaces.len(),
{
    if surfaces.len() == 0 {
        Seq::empty()
    } else {
        let rest = sized_surfaces(surfaces.drop_last());
        match surfaces.last().state.size {
            Some(size) => rest.push(
                RedrawTarget { surface: surfaces.last().state.surface, size },
            ),
            None => rest,
        }
    }
}

/// The first `count` surfaces that have a size and show the prompt, in order.
pub open spec fn prompt_surfaces(model: CurtainModel, count: int) -> Seq<RedrawTarget>
    decreases count,
{
    if count <= 0 {
        Seq::empty()
    } else {
        let rest = prompt_surfaces(model, count - 1);
        let last = model.surfaces[count - 1];
        match last.state.size {
            Some(size) => if state::role_of(model, count - 1) == OutputRole::PrimaryPrompt {
                rest.push(RedrawTarget { surface: last.state.surface, size })
            } else {
                rest
            },
            None => rest,
        }
    }
}

pub open spec fn waiting_for_ready(model: CurtainModel) -> CurtainModel {
    CurtainModel { redraw: RedrawState { pending_pre_ready: true, ..model.redraw }, ..model }
}

/// A redraw before the curtain is ready waits until it is.
pub open spec fn after_redraw_request(model: CurtainModel) -> CurtainModel {
    if model.lock.ready_notified {
        model
    } else {
        waiting_for_ready(model)
    }
}

/// What a full redraw draws.
pub open spec fn redraw_targets(model: CurtainModel) -> Seq<RedrawTarget> {
    if model.lock.ready_notified {
        sized_surfaces(model.surfaces)
    } else {
        Seq::empty()
    }
}

/// What a redraw of the prompt alone draws.
pub open spec fn prompt_targets(model: CurtainModel) -> Seq<RedrawTarget> {
    if model.lock.ready_notified {
        prompt_surfaces(model, model.surfaces.len() as int)
    } else {
        Seq::empty()
    }
}

/// The curtain gives up, and says why.
pub open spec fn failed(model: CurtainModel, reason: Seq<char>) -> CurtainModel {
    CurtainModel {
        lock: LockState { exit_requested: true, ..model.lock },
        failure_reason: Some(reason),
        ..model
    }
}

impl CurtainApp {
    /// Asks for every surface to be drawn again.
    pub fn render_all_surfaces(&mut self) -> (targets: Vec<RedrawTarget>)
        ensures
            targets@ == redraw_targets(old(self)@),
            final(self)@ == after_redraw_request(old(self)@),
            old(self).wf() ==> final(self).wf(),
            final(self).lock_surfaces == old(self).lock_surfaces,
            final(self).slideshow_transition == old(self).slideshow_transition,
    {
        let mut targets: Vec<RedrawTarget> = Vec::new();
        if !self.lock.ready_notified {
            self.redraw.pending_pre_ready = true;
            assert(targets@ =~= Seq::empty());
            return targets;
        }
        let mut index: usize = 0;
        assert(self@.surfaces.take(0) =~= Seq::empty());
        while index < self.lock_surfaces.len()
            invariant
                index <= self.lock_surfaces@.len(),
                *self == *old(self),
                targets@ == sized_surfaces(self@.surfaces.take(index as int)),
            decreases self.lock_surfaces@.len() - index,
        {
            let ghost part = self@.surfaces.take(index + 1);
            assert(part.drop_last() =~= self@.surfaces.take(index as int));
            if let Some(size) = self.lock_surfaces[index].state.size {
                targets.push(
                    RedrawTarget { surface: self.lock_surfaces[index].state.surface, size },
                );
            }
            index += 1;
        }
        assert(self@.surfaces.take(index as int) =~= self@.surfaces);
        targets
    }

    /// Asks for the changed part of the prompt to be drawn again.
    pub fn render_auth_dirty_surfaces(&mut self) -> (targets: Vec<RedrawTarget>)
        ensures
            targets@ == prompt_targets(old(self)@),
            final(self)@ == after_redraw_request(old(self)@),
            old(self).wf() ==> final(self).wf(),
    {
        let mut targets: Vec<RedrawTarget> = Vec::new();
        if !self.lock.ready_notified {
            self.redraw.pending_pre_ready = true;
            assert(targets@ =~= Seq::empty());
            return targets;
        }
        let mut index: usize = 0;
        assert(targets@ =~= Seq::empty());
        while index < self.lock_surfaces.len()
            invariant
                index <= self.lock_surfaces@.len(),
                *self == *old(self),
                targets@ == prompt_surfaces(self@, index as int),
            decreases self.lock_surfaces@.len() - index,
        {
            let visible = self.ui_visible_on_surface(index);
            if let Some(size) = self.lock_surfaces[index].state.size {
                if visible {
                    targets.push(
                        RedrawTarget { surface: self.lock_surfaces[index].state.surface, size },
                    );
                }
            }
            index += 1;
        }
        targets
    }

    /// Draws what was put off until the shared memory is free again.
    pub fn flush_pending_deferred_redraw(&mut self) -> (targets: Vec<RedrawTarget>)
        ensures
            ({
                let flushed = old(self).lock.ready_notified && old(self).redraw.pending_deferred;
                &&& targets@ == if flushed {
                    redraw_targets(old(self)@)
                } else {
                    Seq::empty()
                }
                &&& final(self)@ == if flushed {
                    CurtainModel {
                        redraw: RedrawState { pending_deferred: false, ..old(self)@.redraw },
                        ..old(self)@
                    }
                } else {
                    old(self)@
                }
            }),
            old(self).wf() ==> final(self).wf(),
    {
        if !self.lock.ready_notified || !self.redraw.pending_deferred {
            let targets: Vec<RedrawTarget> = Vec::new();
            assert(targets@ =~= Seq::empty());
            return targets;
        }
        self.redraw.pending_deferred = false;
        self.render_all_surfaces()
    }

    /// Draws what was put off until the curtain is ready.
    pub fn flush_pending_pre_ready_redraw(&mut self) -> (targets: Vec<RedrawTarget>)
        ensures
            ({
                let flushed = old(self).lock.ready_notified && old(self).redraw.pending_pre_ready;
                &&& targets@ == if flushed {
                    redraw_targets(old(self)@)
                } else {
                    Seq::empty()
                }
                &&& final(self)@ == if flushed {
                    CurtainModel {
                        redraw: RedrawState { pending_pre_ready: false, ..old(self)@.redraw },
                        ..old(self)@
                    }
                } else {
                    old(self)@
                }
            }),
            old(self).wf() ==> final(self).wf(),
    {
        if !self.lock.ready_notified || !self.redraw.pending_pre_ready {
            let targets: Vec<RedrawTarget> = Vec::new();
            assert(targets@ =~= Seq::empty());
            return targets;
        }
        self.redraw.pending_pre_ready = false;
        self.render_all_surfaces()
    }

    /// Gives up for a reason that is made of two parts.
    pub fn fail(&mut self, task: &str, error: &str)
        ensures
            final(self)@ == failed(old(self)@, task@ + error@),
            old(self).wf() ==> final(self).wf(),
    {
        self.failure_reason = Some(text::joined(task, error));
        self.lock.exit_requested = true;
    }
}

proof fn lemma_sized_surfaces(surfaces: Seq<SurfaceModel>, index: int)
    requires
        0 <= index < surfaces.len(),
        surfaces[index].state.size is Some,
    ensures
        sized_surfaces(surfaces).contains(
            RedrawTarget {
                surface: surfaces[index].state.surface,
                size: surfaces[index].state.size->0,
            },
        ),
    decreases surfaces.len(),
{
    let target = RedrawTarget {
        surface: surfaces[index].state.surface,
        size: surfaces[index].state.size->0,
    };
    let rest = surfaces.drop_last();
    let before = sized_surfaces(rest);
    let all = sized_surfaces(surfaces);
    if index == surfaces.len() - 1 {
        assert(all.last() == target);
    } else {
        lemma_sized_surfaces(rest, index);
        assert(rest[index] == surfaces[index]);
        let at = choose|at: int| 0 <= at < before.len() && before[at] == target;
        assert(all[at] == target);
    }
}

/// No redraw is lost: one that is asked for before the curtain is ready draws every configured
/// surface as soon as it is, and one asked for later draws them at once.
pub proof fn law_no_redraw_is_lost(model: CurtainModel, index: int)
    requires
        0 <= index < model.surfaces.len(),
        model.surfaces[index].state.size is Some,
    ensures
        ({
            let target = RedrawTarget {
                surface: model.surfaces[index].state.surface,
                size: model.surfaces[index].state.size->0,
            };
            let after = after_redraw_request(model);
            &&& model.lock.ready_notified ==> redraw_targets(model).contains(target)
            &&& !model.lock.ready_notified ==> after.redraw.pending_pre_ready && redraw_targets(
                CurtainModel { lock: LockState { ready_notified: true, ..after.lock }, ..after },
            ).contains(target)
        }),
{
    lemma_sized_surfaces(model.surfaces, index);
}

/// Only surfaces that have a size are drawn, each at its own; after the ready signal a change of
/// the prompt draws those that show the prompt and no others.
pub proof fn law_only_sized_surfaces_are_drawn(model: CurtainModel, target: RedrawTarget)
    ensures
        redraw_targets(model).contains(target) <==> model.lock.ready_notified && exists|i: int|
            0 <= i < model.surfaces.len() && (#[trigger] model.surfaces[i]).state.surface
                == target.surface && model.surfaces[i].state.size == Some(target.size),
        prompt_targets(model).contains(target) <==> model.lock.ready_notified && exists|i: int|
            0 <= i < model.surfaces.len() && (#[trigger] model.surfaces[i]).state.surface
                == target.surface && model.surfaces[i].state.size == Some(target.size)
                && state::role_of(model, i) == OutputRole::PrimaryPrompt,
{
    lemma_sized_target(model.surfaces, target);
    lemma_prompt_target(model, model.surfaces.len() as int, target);
}

proof fn lemma_sized_target(surfaces: Seq<SurfaceModel>, target: RedrawTarget)
    ensures
        sized_surfaces(surfaces).contains(target) <==> exists|i: int|
            0 <= i < surfaces.len() && (#[trigger] surfaces[i]).state.surface == target.surface
                && surfaces[i].state.size == Some(target.size),
    decreases surfaces.len(),
{
    if surfaces.len() > 0 {
        let before = surfaces.drop_last();
        let rest = sized_surfaces(before);
        let whole = sized_surfaces(surfaces);
        lemma_sized_target(before, target);
        if rest.contains(target) {
            let i = choose|i: int|
                0 <= i < before.len() && (#[trigger] before[i]).state.surface == target.surface
                    && before[i].state.size == Some(target.size);
            assert(surfaces[i] == before[i]);
            let at = rest.index_of(target);
            assert(whole[at] == target);
        }
        if let Some(size) = surfaces.last().state.size {
            assert(whole.last() == (RedrawTarget { surface: surfaces.last().state.surface, size }));
            assert(whole.drop_last() == rest);
            if whole.contains(target) && whole.last() != target {
                let at = whole.index_of(target);
                assert(rest[at] == target);
            }
        }
        if exists|i: int|
            0 <= i < surfaces.len() && (#[trigger] surfaces[i]).state.surface == target.surface
                && surfaces[i].state.size == Some(target.size) {
            let i = choose|i: int|
                0 <= i < surfaces.len() && (#[trigger] surfaces[i]).state.surface == target.surface
                    && surfaces[i].state.size == Some(target.size);
            if i < before.len() {
                assert(before[i] == surfaces[i]);
            } else {
                assert(whole.last() == target);
            }
        }
    }
}

proof fn lemma_prompt_target(model: CurtainModel, count: int, target: RedrawTarget)
    requires
        0 <= count <= model.surfaces.len(),
    ensures
        prompt_surfaces(model, count).contains(target) <==> exists|i: int|
            0 <= i < count && (#[trigger] model.surfaces[i]).state.surface == target.surface
                && model.surfaces[i].state.size == Some(target.size) && state::role_of(model, i)
                == OutputRole::PrimaryPrompt,
    decreases count,
{
    if count > 0 {
        let rest = prompt_surfaces(model, count - 1);
        let whole = prompt_surfaces(model, count);
        let last = model.surfaces[count - 1];
        lemma_prompt_target(model, count - 1, target);
        if rest.contains(target) {
            let at = rest.index_of(target);
            assert(whole[at] == target);
        }
        if last.state.size is Some && state::role_of(model, count - 1)
            == OutputRole::PrimaryPrompt {
            assert(whole.last() == (RedrawTarget {
                surface: last.state.surface,
                size: last.state.size->0,
            }));
            assert(whole.drop_last() == rest);
            if whole.contains(target) && whole.last() != target {
                let at = whole.index_of(target);
                assert(rest[at] == target);
            }
        } else {
            assert(whole == rest);
        }
    }
}

/// A failure is kept with its reason and ends the curtain; it does not unlock the session.
pub proof fn law_failure_ends_without_unlocking(model: CurtainModel, reason: Seq<char>)
    ensures
        ({
            let after = failed(model, reason);
            &&& after.failure_reason == Some(reason)
            &&& after.lock.exit_requested
            &&& after.lock.unlock_authorized == model.lock.unlock_authorized
            &&& after.lock.session_locked == model.lock.session_locked
            &&& after.lock.has_session_lock == model.lock.has_session_lock
            &&& after.surfaces == model.surfaces
            &&& state::may_stop(after)
        }),
{
}

} // verus!
