//! What holds of a curtain over the whole of a locked session, whatever happens in it.

use crate::common::time::{Moment, Span};
use crate::curtain::background;
use crate::curtain::background::SizedBuffer;
use crate::curtain::commit;
use crate::curtain::commit::RenderAttempt;
use crate::curtain::partners;
use crate::curtain::partners::{AuthEvent, ControlEvent};
use crate::curtain::prepare;
use crate::curtain::prepare::{
    CommitPlan, RenderFailure, RenderStage, RenderTask, SceneTryModel, SceneVariants,
};
use crate::curtain::redraw;
use crate::curtain::render;
use crate::curtain::session;
use crate::curtain::slideshow;
use crate::curtain::startup;
use crate::curtain::state;
use crate::curtain::state::{CurtainModel, LockDisposal};
use crate::curtain::surface::{Picture, SurfaceModel, SurfaceSize};
use crate::curtain::transition::TransitionModel;
use vstd::prelude::*;

verus! {

/// One move in the drawing of a frame.
pub ghost enum RenderMove {
    Begun(u32, SurfaceSize, SceneVariants, Moment),
    LookupAnswered(RenderTask, Option<Picture>, SceneVariants),
    BackgroundAnswered(RenderTask, Picture, SceneVariants),
    DrawingAnswered(RenderTask, Picture),
    PoolFailed(CommitPlan),
    Settled(RenderAttempt, u32, Result<(), RenderFailure>),
}

/// One thing that happens to a curtain while it runs.
pub ghost enum SessionStep {
    LockRequested(Moment),
    LockConfirmed(Moment),
    LockRevoked,
    SurfaceAdded(SurfaceModel),
    SurfaceConfigured(int, (u32, u32), Moment),
    OutputGone(u32),
    BecameReady(Moment),
    Control(ControlEvent),
    Auth(AuthEvent, Moment),
    Watchdog(Moment),
    Signal,
    EmergencyActivated,
    EmergencyPrepared,
    RedrawRequested,
    WallpaperLoaded(Seq<u8>, Seq<SizedBuffer>),
    WallpaperSwitched(Seq<u8>),
    FadeBegun(Seq<u8>, Span),
    FadeSettled(TransitionModel),
    Render(RenderMove),
    FirstFrameCommitted(bool, Moment),
    RenderingFailed(Seq<char>),
}

/// The curtain after a move in the drawing of a frame.
#[verifier::opaque]
pub open spec fn after_move(model: CurtainModel, next: RenderMove) -> CurtainModel {
    match next {
        RenderMove::Begun(surface, size, variants, now) => render::render_begun(
            model,
            surface,
            size,
            variants,
            now,
        ).0,
        RenderMove::LookupAnswered(task, found, variants) => render::lookup_answered(
            model,
            task,
            found,
            variants,
        ).0,
        RenderMove::BackgroundAnswered(task, picture, variants) => render::background_answered(
            model,
            task,
            picture,
            variants,
        ).0,
        RenderMove::DrawingAnswered(task, picture) => render::drawing_answered(
            model,
            task,
            picture,
        ).0,
        RenderMove::PoolFailed(plan) => commit::without_pool(model, plan),
        RenderMove::Settled(attempt, surface, result) => commit::verdict(
            model,
            attempt,
            surface,
            result,
        ).0,
    }
}

/// The curtain after a step.
pub open spec fn after_step(model: CurtainModel, step: SessionStep) -> CurtainModel {
    match step {
        SessionStep::LockRequested(now) => startup::lock_asked(model, now),
        SessionStep::LockConfirmed(now) => session::confirmed(model, now),
        SessionStep::LockRevoked => session::revoked(model),
        SessionStep::SurfaceAdded(new) => startup::with_new_surface(model, new),
        SessionStep::SurfaceConfigured(index, requested, now) => session::configured(
            model,
            index,
            requested,
            now,
        ),
        SessionStep::OutputGone(output) => session::output_gone(model, output),
        SessionStep::BecameReady(now) => session::made_ready(model, now),
        SessionStep::Control(event) => partners::after_control_event(model, event),
        SessionStep::Auth(event, now) => partners::after_auth_event(model, event, now),
        SessionStep::Watchdog(now) => partners::after_watchdog(model, now),
        SessionStep::Signal => state::signalled(model),
        SessionStep::EmergencyActivated => startup::emergency_begun(model),
        SessionStep::EmergencyPrepared => startup::emergency_everywhere(model),
        SessionStep::RedrawRequested => redraw::after_redraw_request(model),
        SessionStep::WallpaperLoaded(path, buffers) => background::all_wallpapered(
            model,
            path,
            buffers,
        ),
        SessionStep::WallpaperSwitched(path) => slideshow::switched_to(model, path),
        SessionStep::FadeBegun(path, duration) => slideshow::fade_begun(model, path, duration),
        SessionStep::FadeSettled(fade) => slideshow::all_settled(model, fade),
        SessionStep::Render(next) => after_move(model, next),
        SessionStep::FirstFrameCommitted(first_frame, now) => commit::first_frame_noted(
            model,
            first_frame,
            now,
        ),
        SessionStep::RenderingFailed(reason) => redraw::failed(model, reason),
    }
}

/// The curtain after a run of steps.
pub open spec fn after_steps(model: CurtainModel, steps: Seq<SessionStep>) -> CurtainModel
    decreases steps.len(),
{
    if steps.len() == 0 {
        model
    } else {
        after_step(after_steps(model, steps.drop_last()), steps.last())
    }
}

/// Whether a step is the message that ends the lock.
pub open spec fn asks_to_unlock(step: SessionStep) -> bool {
    step matches SessionStep::Control(event) && event is Unlock
}

/// Whether the lock and the paths are the same.
spec fn same_lock(a: CurtainModel, b: CurtainModel) -> bool {
    a.lock == b.lock && a.paths == b.paths
}

proof fn lemma_finishing_keeps_the_lock(model: CurtainModel, task: RenderTask)
    ensures
        same_lock(prepare::finished(model, task).0, model),
{
}

proof fn lemma_trying_keeps_the_lock(
    model: CurtainModel,
    task: RenderTask,
    variants: SceneVariants,
)
    ensures
        same_lock(prepare::sibling_try(model, task, variants).0, model),
        same_lock(prepare::scene_try(model, task, variants).0, model),
{
}

proof fn lemma_drawing_keeps_the_lock(
    model: CurtainModel,
    task: RenderTask,
    picture: Picture,
    backdrops: bool,
)
    ensures
        same_lock(prepare::drawing(model, task, picture, backdrops).0, model),
{
}

proof fn lemma_wallpaper_keeps_the_lock(model: CurtainModel, task: RenderTask)
    ensures
        same_lock(prepare::scene_from_old(model, task).0, model),
        same_lock(prepare::scene_from_generated(model, task).0, model),
        same_lock(prepare::scene_from_wallpaper(model, task).0, model),
{
}

proof fn lemma_second_try_keeps_the_lock(
    model: CurtainModel,
    task: RenderTask,
    attempt: SceneTryModel,
    stage: RenderStage,
)
    ensures
        same_lock(prepare::after_second_try(model, task, attempt, stage).0, model),
{
    lemma_finishing_keeps_the_lock(model, task);
    lemma_wallpaper_keeps_the_lock(model, task);
}

proof fn lemma_scene_keeps_the_lock(
    model: CurtainModel,
    task: RenderTask,
    variants: SceneVariants,
)
    ensures
        same_lock(prepare::scene_prepared(model, task, variants).0, model),
{
    let index = task.index as int;
    let again = RenderTask { again: true, ..task };
    let plain = prepare::with_surface(
        model,
        index,
        SurfaceModel { background: None, ..model.surfaces[index] },
    );
    lemma_finishing_keeps_the_lock(model, again);
    lemma_finishing_keeps_the_lock(plain, again);
    lemma_trying_keeps_the_lock(model, again, variants);
    let (tried, attempt) = prepare::scene_try(model, again, variants);
    lemma_second_try_keeps_the_lock(tried, again, attempt, RenderStage::SceneCache);
}

proof fn lemma_background_keeps_the_lock(
    model: CurtainModel,
    task: RenderTask,
    variants: SceneVariants,
)
    ensures
        same_lock(render::after_background(model, task, variants).0, model),
        same_lock(render::background_prepared(model, task, variants).0, model),
{
    let settled = RenderTask { background_refreshed: false, ..task };
    lemma_scene_keeps_the_lock(model, task, variants);
    lemma_scene_keeps_the_lock(model, settled, variants);
    lemma_finishing_keeps_the_lock(model, task);
    lemma_finishing_keeps_the_lock(model, settled);
}

proof fn lemma_try_keeps_the_lock(
    model: CurtainModel,
    task: RenderTask,
    attempt: SceneTryModel,
    stage: RenderStage,
    variants: SceneVariants,
)
    ensures
        same_lock(render::after_first_try(model, task, attempt, stage, variants).0, model),
        same_lock(render::after_try(model, task, attempt, stage, variants).0, model),
{
    lemma_finishing_keeps_the_lock(model, task);
    lemma_background_keeps_the_lock(model, task, variants);
    lemma_second_try_keeps_the_lock(model, task, attempt, stage);
}

proof fn lemma_preparing_keeps_the_lock(
    model: CurtainModel,
    task: RenderTask,
    variants: SceneVariants,
)
    ensures
        same_lock(render::preparing(model, task, variants).0, model),
{
    lemma_trying_keeps_the_lock(model, task, variants);
    let (tried, attempt) = prepare::scene_try(model, task, variants);
    lemma_try_keeps_the_lock(tried, task, attempt, RenderStage::SceneCache, variants);
    lemma_background_keeps_the_lock(model, task, variants);
}

proof fn lemma_beginning_keeps_the_lock(
    model: CurtainModel,
    surface: u32,
    size: SurfaceSize,
    variants: SceneVariants,
    now: Moment,
)
    ensures
        same_lock(render::render_begun(model, surface, size, variants, now).0, model),
{
    if let Some(index) = state::tracked_index(model.surfaces, surface) {
        let task = render::first_task(model, index, size);
        lemma_preparing_keeps_the_lock(model, task, variants);
        lemma_preparing_keeps_the_lock(render::rebuilt(model, index), task, variants);
    }
}

proof fn lemma_lookup_keeps_the_lock(
    model: CurtainModel,
    task: RenderTask,
    found: Option<Picture>,
    variants: SceneVariants,
)
    ensures
        same_lock(render::lookup_answered(model, task, found, variants).0, model),
{
    lemma_trying_keeps_the_lock(model, task, variants);
    let (tried, attempt) = prepare::sibling_try(model, task, variants);
    lemma_try_keeps_the_lock(tried, task, attempt, RenderStage::BackdropCache, variants);
    lemma_try_keeps_the_lock(
        model,
        task,
        SceneTryModel::Unsettled,
        RenderStage::BackdropCache,
        variants,
    );
    lemma_wallpaper_keeps_the_lock(model, task);
    if let Some(picture) = found {
        lemma_finishing_keeps_the_lock(prepare::scene_stored(model, task, picture, true), task);
        lemma_drawing_keeps_the_lock(model, task, picture, true);
        lemma_drawing_keeps_the_lock(model, task, picture, false);
        lemma_background_keeps_the_lock(
            render::background_stored(model, task, picture),
            RenderTask { background_refreshed: true, ..task },
            variants,
        );
    }
}

proof fn lemma_render_keeps_the_lock(model: CurtainModel, next: RenderMove)
    ensures
        same_lock(after_move(model, next), model),
{
    reveal(after_move);
    match next {
        RenderMove::Begun(surface, size, variants, now) => {
            lemma_beginning_keeps_the_lock(model, surface, size, variants, now);
        },
        RenderMove::LookupAnswered(task, found, variants) => {
            lemma_lookup_keeps_the_lock(model, task, found, variants);
        },
        RenderMove::BackgroundAnswered(task, picture, variants) => {
            lemma_background_keeps_the_lock(
                render::background_stored(model, task, picture),
                RenderTask { background_refreshed: true, ..task },
                variants,
            );
        },
        RenderMove::DrawingAnswered(task, picture) => {},
        RenderMove::PoolFailed(plan) => {},
        RenderMove::Settled(attempt, surface, result) => {
            commit::law_render_failures_keep_the_lock(model, attempt, surface, result);
        },
    }
}

proof fn lemma_step_needs_the_message(model: CurtainModel, step: SessionStep)
    requires
        !asks_to_unlock(step),
        !model.lock.unlock_authorized,
        model.paths.control_socket is Some,
    ensures
        !after_step(model, step).lock.unlock_authorized,
        after_step(model, step).paths.control_socket is Some,
{
    if let SessionStep::Render(next) = step {
        lemma_render_keeps_the_lock(model, next);
    }
}

/// Whatever happens to a curtain that a daemon manages, in whatever order and however often: until
/// the daemon's message asks for it, the session is not unlocked, and a lock that was granted is
/// left in place when the curtain goes.
pub proof fn law_session_stays_locked_until_asked(
    model: CurtainModel,
    steps: Seq<SessionStep>,
    lock_is_locked: bool,
)
    requires
        !model.lock.unlock_authorized,
        model.paths.control_socket is Some,
        forall|i: int| 0 <= i < steps.len() ==> !asks_to_unlock(#[trigger] steps[i]),
    ensures
        ({
            let after = after_steps(model, steps);
            let disposal = state::shutdown_plan(after, lock_is_locked).lock;
            &&& !after.lock.unlock_authorized
            &&& after.paths.control_socket is Some
            &&& disposal != LockDisposal::Unlock
            &&& after.lock.has_session_lock && !after.lock.session_finished ==> disposal
                == LockDisposal::LeaveLocked
        }),
    decreases steps.len(),
{
    if steps.len() > 0 {
        let before = steps.drop_last();
        assert forall|i: int| 0 <= i < before.len() implies !asks_to_unlock(
            #[trigger] before[i],
        ) by {
            assert(before[i] == steps[i]);
        }
        law_session_stays_locked_until_asked(model, before, lock_is_locked);
        lemma_step_needs_the_message(after_steps(model, before), steps.last());
    }
}

/// Once the daemon's message has come, the curtain may stop as soon as the session is locked, and
/// it ends the lock, whatever happens after it.
pub proof fn law_asked_session_is_unlocked(
    model: CurtainModel,
    event: ControlEvent,
    steps: Seq<SessionStep>,
)
    requires
        event is Unlock,
        model.lock.has_session_lock,
        !model.lock.session_finished,
        forall|i: int| 0 <= i < steps.len() ==> (#[trigger] steps[i]) !is LockRevoked,
    ensures
        ({
            let after = after_steps(partners::after_control_event(model, event), steps);
            &&& after.lock.session_locked ==> state::may_stop(after)
            &&& state::shutdown_plan(after, true).lock == LockDisposal::Unlock
        }),
{
    let asked = partners::after_control_event(model, event);
    lemma_asked_is_kept(asked, steps);
}

/// Whether the curtain is on its way to unlocking the session.
spec fn is_asked(model: CurtainModel) -> bool {
    &&& model.lock.unlock_authorized
    &&& model.lock.exit_requested
    &&& model.lock.has_session_lock
    &&& !model.lock.session_finished
}

proof fn lemma_step_keeps_asked(model: CurtainModel, step: SessionStep)
    requires
        is_asked(model),
        step !is LockRevoked,
    ensures
        is_asked(after_step(model, step)),
{
    if let SessionStep::Render(next) = step {
        lemma_render_keeps_the_lock(model, next);
    }
}

proof fn lemma_asked_is_kept(model: CurtainModel, steps: Seq<SessionStep>)
    requires
        is_asked(model),
        forall|i: int| 0 <= i < steps.len() ==> (#[trigger] steps[i]) !is LockRevoked,
    ensures
        is_asked(after_steps(model, steps)),
    decreases steps.len(),
{
    if steps.len() > 0 {
        let before = steps.drop_last();
        assert forall|i: int| 0 <= i < before.len() implies (#[trigger] before[i]) !is LockRevoked by {
            assert(before[i] == steps[i]);
        }
        lemma_asked_is_kept(model, before);
        assert(steps.last() == steps[steps.len() - 1]);
        lemma_step_keeps_asked(after_steps(model, before), steps.last());
    }
}

} // verus!
