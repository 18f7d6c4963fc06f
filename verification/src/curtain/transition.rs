//! Crossfades between two wallpapers of a slideshow.

use crate::common::path::FilePath;
use crate::common::time;
use crate::common::time::{Moment, Span};
use crate::curtain::surface;
use crate::curtain::surface::Picture;
use crate::renderer::buffer::{PixelBuffer, SoftwareBuffer};
use crate::renderer::crossfade::CROSSFADE_PROGRESS_MAX;
use vstd::prelude::*;

verus! {

/// A crossfade: what each surface showed, what each is to show, and since when it runs. Until the
/// new pictures are loaded it has not begun.
#[derive(Debug)]
pub struct SlideshowTransition {
    pub from_buffers: Vec<Option<SoftwareBuffer>>,
    pub to_buffers: Vec<Option<SoftwareBuffer>>,
    pub to_path: FilePath,
    pub duration: Span,
    pub started_at: Option<Moment>,
}

/// A crossfade by its pictures.
#[verifier::ext_equal]
pub ghost struct TransitionModel {
    pub from: Seq<Option<Picture>>,
    pub to: Seq<Option<Picture>>,
    pub to_path: Seq<u8>,
    pub duration: Span,
    pub started_at: Option<Moment>,
}

pub open spec fn pictures(buffers: Seq<Option<SoftwareBuffer>>) -> Seq<Option<Picture>> {
    buffers.map_values(|buffer: Option<SoftwareBuffer>| surface::optional_picture(buffer))
}

pub open spec fn whole_pictures(buffers: Seq<Option<SoftwareBuffer>>) -> bool {
    forall|i: int|
        0 <= i < buffers.len() ==> ((#[trigger] buffers[i]) matches Some(buffer) ==> buffer.wf())
}

impl View for SlideshowTransition {
    type V = TransitionModel;

    open spec fn view(&self) -> TransitionModel {
        TransitionModel {
            from: pictures(self.from_buffers@),
            to: pictures(self.to_buffers@),
            to_path: self.to_path@,
            duration: self.duration,
            started_at: self.started_at,
        }
    }
}

/// A crossfade that waits for its new pictures.
pub open spec fn loading_transition(
    from: Seq<Option<Picture>>,
    to_path: Seq<u8>,
    duration: Span,
) -> TransitionModel {
    TransitionModel {
        from,
        to: Seq::new(from.len(), |i: int| None::<Picture>),
        to_path,
        duration,
        started_at: None,
    }
}

/// How far a crossfade is on, in linear time.
pub open spec fn linear_progress(started_at: Moment, duration: Span, now: Moment) -> u16 {
    let elapsed = time::span_between(started_at, now);
    if elapsed >= duration.nanos {
        10_000
    } else {
        (elapsed * 10_000 / duration.nanos as nat) as u16
    }
}

/// How far a running crossfade is on.
pub open spec fn shown_progress(transition: TransitionModel, now: Moment) -> Option<u16> {
    match transition.started_at {
        Some(started_at) => Some(linear_progress(started_at, transition.duration, now)),
        None => None,
    }
}

pub open spec fn is_over(transition: TransitionModel, now: Moment) -> bool {
    transition.started_at matches Some(started_at) && time::span_between(started_at, now)
        >= transition.duration.nanos
}

pub open spec fn all_ready(to: Seq<Option<Picture>>) -> bool {
    forall|i: int| 0 <= i < to.len() ==> (#[trigger] to[i]) is Some
}

impl SlideshowTransition {
    /// The pictures are whole, each surface has a place in both lists, and the duration is one
    /// that the clock can report.
    pub open spec fn wf(&self) -> bool {
        &&& whole_pictures(self.from_buffers@)
        &&& whole_pictures(self.to_buffers@)
        &&& self.from_buffers@.len() == self.to_buffers@.len()
        &&& self.duration.nanos <= u64::MAX * time::NANOS_PER_SECOND + 999_999_999
    }

    pub fn new(
        from_buffers: Vec<Option<SoftwareBuffer>>,
        to_path: FilePath,
        duration: Span,
    ) -> (transition: Self)
        requires
            whole_pictures(from_buffers@),
            duration.nanos <= u64::MAX * time::NANOS_PER_SECOND + 999_999_999,
        ensures
            transition.wf(),
            transition@ == loading_transition(pictures(from_buffers@), to_path@, duration),
    {
        let count: usize = from_buffers.len();
        let mut to_buffers: Vec<Option<SoftwareBuffer>> = Vec::new();
        let mut index: usize = 0;
        while index < count
            invariant
                index <= count,
                to_buffers@.len() == index,
                forall|i: int| 0 <= i < index ==> (#[trigger] to_buffers@[i]) is None,
            decreases count - index,
        {
            to_buffers.push(None);
            index += 1;
        }
        let transition = SlideshowTransition {
            from_buffers,
            to_buffers,
            to_path,
            duration,
            started_at: None,
        };
        assert(transition@.to =~= Seq::new(
            pictures(from_buffers@).len(),
            |i: int| None::<Picture>,
        ));
        transition
    }

    /// Whether the new pictures are still being loaded.
    pub fn is_loading(&self) -> (loading: bool)
        ensures
            loading == self.started_at is None,
    {
        self.started_at.is_none()
    }

    pub fn is_animating(&self) -> (animating: bool)
        ensures
            animating == self.started_at is Some,
    {
        self.started_at.is_some()
    }

    pub fn is_complete(&self, now: Moment) -> (complete: bool)
        ensures
            complete == is_over(self@, now),
    {
        match self.started_at {
            Some(started_at) => now.saturating_since(started_at).nanos >= self.duration.nanos,
            None => false,
        }
    }

    pub fn fade_progress(&self, now: Moment) -> (progress: Option<u16>)
        requires
            self.wf(),
        ensures
            progress == shown_progress(self@, now),
            progress matches Some(step) ==> step <= 10_000,
    {
        match self.started_at {
            Some(started_at) => {
                let elapsed: u128 = now.saturating_since(started_at).nanos;
                let linear: u16 = if elapsed >= self.duration.nanos {
                    CROSSFADE_PROGRESS_MAX
                } else {
                    proof {
                        assert(elapsed * 10_000 / (self.duration.nanos as int) < 10_000)
                            by (nonlinear_arith)
                            requires
                                0 <= elapsed < self.duration.nanos,
                        ;
                        assert(0 <= elapsed * 10_000 / (self.duration.nanos as int))
                            by (nonlinear_arith)
                            requires
                                0 <= elapsed < self.duration.nanos,
                        ;
                    }
                    (elapsed * 10_000 / self.duration.nanos) as u16
                };
                Some(linear)
            },
            None => None,
        }
    }

    /// Whether every surface has its new picture.
    pub fn all_targets_ready(&self) -> (ready: bool)
        ensures
            ready == all_ready(self@.to),
    {
        let mut index: usize = 0;
        while index < self.to_buffers.len()
            invariant
                index <= self.to_buffers@.len(),
                forall|i: int| 0 <= i < index ==> (#[trigger] self@.to[i]) is Some,
            decreases self.to_buffers@.len() - index,
        {
            if self.to_buffers[index].is_none() {
                assert(self@.to[index as int] is None);
                return false;
            }
            assert(self@.to[index as int] is Some);
            index += 1;
        }
        true
    }

    /// Begins the crossfade.
    pub fn mark_animating(&mut self, now: Moment)
        ensures
            final(self)@ == (TransitionModel { started_at: Some(now), ..old(self)@ }),
            old(self).wf() ==> final(self).wf(),
    {
        self.started_at = Some(now);
    }
}

/// A crossfade that has run its time shows the new picture alone, and one that begins shows the
/// old one.
pub proof fn law_crossfade_ends_with_the_new_picture(transition: TransitionModel, now: Moment)
    ensures
        is_over(transition, now) ==> shown_progress(transition, now) == Some(10_000u16),
        transition.started_at == Some(now) && transition.duration.nanos > 0 ==> shown_progress(
            transition,
            now,
        ) == Some(0u16),
{
    if transition.started_at == Some(now) && transition.duration.nanos > 0 {
        assert(0int / (transition.duration.nanos as int) == 0) by (nonlinear_arith)
            requires
                transition.duration.nanos > 0,
        ;
        assert(linear_progress(now, transition.duration, now) == 0);
    }
}

/// A crossfade stands where the elapsed share of its time stands, to the ten-thousandth, rounded
/// down.
pub proof fn law_crossfade_keeps_time(transition: TransitionModel, now: Moment, started_at: Moment)
    requires
        transition.started_at == Some(started_at),
        started_at.nanos <= now.nanos < started_at.nanos + transition.duration.nanos,
    ensures
        shown_progress(transition, now) matches Some(progress) && {
            let elapsed = now.nanos - started_at.nanos;
            progress * transition.duration.nanos <= elapsed * 10_000 < (progress + 1)
                * transition.duration.nanos
        },
        !is_over(transition, now),
{
    let elapsed = (now.nanos - started_at.nanos) as nat;
    let whole = transition.duration.nanos as nat;
    let scaled = elapsed * 10_000;
    let share = scaled as int / (whole as int);
    let rest = scaled as int % (whole as int);
    vstd::arithmetic::div_mod::lemma_fundamental_div_mod(scaled as int, whole as int);
    assert(share < 10_000 && share >= 0) by (nonlinear_arith)
        requires
            scaled == whole * share + rest,
            0 <= rest < whole,
            scaled < whole * 10_000,
    ;
    assert(share * whole <= scaled < (share + 1) * whole) by (nonlinear_arith)
        requires
            scaled == whole * share + rest,
            0 <= rest < whole,
    ;
}

/// A crossfade that has not begun shows nothing and is never over; one that has is over after its
/// whole time.
pub proof fn law_crossfade_takes_its_time(transition: TransitionModel, now: Moment)
    ensures
        transition.started_at is None ==> shown_progress(transition, now) is None && !is_over(
            transition,
            now,
        ),
        transition.started_at matches Some(started_at) ==> (now.nanos >= started_at.nanos ==> (
        is_over(transition, now) <==> now.nanos >= started_at.nanos + transition.duration.nanos)),
{
}

/// A crossfade that waits for its new pictures keeps the old ones and has no new one yet.
pub proof fn law_crossfade_begins_with_the_old_pictures(
    from: Seq<Option<Picture>>,
    to_path: Seq<u8>,
    duration: Span,
)
    ensures
        ({
            let fade = loading_transition(from, to_path, duration);
            &&& fade.from == from
            &&& fade.to.len() == from.len()
            &&& forall|i: int| 0 <= i < from.len() ==> (#[trigger] fade.to[i]) is None
            &&& fade.to_path == to_path && fade.duration == duration && fade.started_at is None
            &&& from.len() > 0 ==> !all_ready(fade.to)
        }),
{
    let fade = loading_transition(from, to_path, duration);
    if from.len() > 0 {
        assert(fade.to[0] is None);
    }
}

} // verus!
