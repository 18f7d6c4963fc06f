//! Crossfading two frames.

use crate::renderer::buffer::{PixelBuffer, SoftwareBuffer};
use crate::renderer::frame;
use crate::renderer::frame::{RendererError, Result};
use vstd::prelude::*;

verus! {

/// Linear crossfade progress on a `0..=10_000` scale (`10_000` = fully faded to `to`).
pub type CrossfadeProgress = u16;

/// Upper bound of [`CrossfadeProgress`] (fully faded to `to`).
pub const CROSSFADE_PROGRESS_MAX: CrossfadeProgress = 10_000;

/// Number of bytes above which the blend is split across worker threads.
/// A 1920x1080 frame is ~8.3 MB; below this the thread hand-off costs more than it saves.
pub const CROSSFADE_PARALLEL_THRESHOLD_BYTES: usize = 4 * 1024 * 1024;

pub const CROSSFADE_MAX_THREADS: usize = 8;

/// The smoothstep curve `t * t * (3 - 2 * t)` on the progress scale, rounded to the nearest step.
pub open spec fn smoothstep(linear: int) -> int {
    (linear * linear * (30_000 - 2 * linear) + 50_000_000) / 100_000_000
}

/// The step that evaluating the curve in single precision adds: at a few points the result lands
/// on the other side of a rounding boundary.
pub open spec fn single_precision_step(linear: int) -> int {
    if linear == 3393 || linear == 5001 || linear == 5005 || linear == 5007 || linear == 5011
        || linear == 5019 || linear == 5021 || linear == 5023 || linear == 7611 || linear == 9240 {
        1
    } else if linear == 4500 || linear == 4987 || linear == 6500 {
        -1
    } else {
        0
    }
}

/// Linear fade time as eased progress.
pub open spec fn eased(linear: int) -> int {
    if linear >= 10_000 {
        10_000
    } else {
        smoothstep(linear) + single_precision_step(linear)
    }
}

/// The share of the second frame, in parts of 256, at a linear progress.
pub open spec fn fade_weight(progress: int) -> int {
    (eased(progress) * 256 + 5_000) / 10_000
}

/// A byte between two bytes, the second one with `weight` parts of 256.
pub open spec fn mixed_byte(from: u8, to: u8, weight: int) -> u8 {
    ((from * (256 - weight) + to * weight + 128) / 256) as u8
}

/// A frame between two frames.
pub open spec fn mixed(from: Seq<u8>, to: Seq<u8>, weight: int) -> Seq<u8> {
    Seq::new(from.len(), |i: int| mixed_byte(from[i], to[i], weight))
}

proof fn lemma_smoothstep_bounds(linear: int)
    requires
        0 <= linear < 10_000,
    ensures
        0 <= linear * linear * (30_000 - 2 * linear) <= 1_000_000_000_000,
        0 <= linear * linear <= 100_000_000,
        0 <= smoothstep(linear) <= 10_000,
{
    let rest = 10_000 - linear;
    assert(0 <= linear * linear <= 100_000_000) by (nonlinear_arith)
        requires
            0 <= linear < 10_000,
    ;
    assert(0 <= linear * linear * (30_000 - 2 * linear)) by (nonlinear_arith)
        requires
            0 <= linear < 10_000,
            0 <= linear * linear,
    ;
    assert(1_000_000_000_000 - linear * linear * (30_000 - 2 * linear) == rest * rest * (10_000
        + 2 * linear)) by (nonlinear_arith)
        requires
            rest == 10_000 - linear,
    ;
    assert(0 <= rest * rest * (10_000 + 2 * linear)) by (nonlinear_arith)
        requires
            0 <= linear,
            rest > 0,
    ;
}

/// Maps linear fade time to an ease-in-out blend weight (`smoothstep`).
pub fn eased_crossfade_progress(linear: CrossfadeProgress) -> (progress: u16)
    ensures
        progress == eased(linear as int),
        progress <= 10_000,
{
    if linear == 0 {
        return 0;
    }
    if linear >= CROSSFADE_PROGRESS_MAX {
        return CROSSFADE_PROGRESS_MAX;
    }
    proof {
        lemma_smoothstep_bounds(linear as int);
        assert((linear as int) * linear * (30_000 - 2 * linear) == linear * linear * (30_000 - 2
            * linear)) by (nonlinear_arith);
    }
    let square: u64 = linear as u64 * linear as u64;
    let scaled: u64 = square * (30_000 - 2 * linear as u64) + 50_000_000;
    let nearest: u16 = (scaled / 100_000_000) as u16;
    match linear {
        3393 | 5001 | 5005 | 5007 | 5011 | 5019 | 5021 | 5023 | 7611 | 9240 => {
            proof {
                lemma_nudged(linear as int);
            }
            nearest + 1
        },
        4500 | 4987 | 6500 => {
            proof {
                lemma_nudged(linear as int);
            }
            nearest - 1
        },
        _ => nearest,
    }
}

proof fn lemma_nudged(linear: int)
    requires
        single_precision_step(linear) != 0,
    ensures
        0 < smoothstep(linear) < 10_000,
{
    let product = linear * linear * (30_000 - 2 * linear);
    let rest = 10_000 - linear;
    assert(product >= 10_000_000_000) by (nonlinear_arith)
        requires
            product == linear * linear * (30_000 - 2 * linear),
            1_000 <= linear <= 9_500,
    ;
    assert(1_000_000_000_000 - product == rest * rest * (10_000 + 2 * linear)) by (nonlinear_arith)
        requires
            product == linear * linear * (30_000 - 2 * linear),
            rest == 10_000 - linear,
    ;
    assert(rest * rest * (10_000 + 2 * linear) >= 3_000_000_000) by (nonlinear_arith)
        requires
            rest >= 500,
            linear >= 1_000,
    ;
}

/// The share of the second frame, in parts of 256.
pub fn crossfade_weight(progress: CrossfadeProgress) -> (weight: u32)
    ensures
        weight == fade_weight(progress as int),
        weight <= 256,
{
    let eased_progress: u16 = eased_crossfade_progress(progress);
    (eased_progress as u32 * 256 + 5_000) / 10_000
}

/// Blends two runs of pixels into a third, each channel on its own.
pub fn blend_crossfade_pixels(out: &mut [u8], from: &[u8], to: &[u8], weight: u32)
    requires
        weight <= 256,
        old(out)@.len() == from@.len(),
        to@.len() == from@.len(),
    ensures
        final(out)@ == mixed(from@, to@, weight as int),
{
    let length: usize = from.len();
    let inverse: u32 = 256 - weight;
    let mut index: usize = 0;
    while index < length
        invariant
            index <= length,
            length == from@.len(),
            to@.len() == length,
            out@.len() == length,
            weight <= 256,
            inverse == 256 - weight,
            forall|i: int| 0 <= i < index ==> out@[i] == mixed_byte(from@[i], to@[i], weight as int),
        decreases length - index,
    {
        let first: u32 = from[index] as u32;
        let second: u32 = to[index] as u32;
        proof {
            lemma_mixed_bounds(first as int, second as int, weight as int);
        }
        let value: u32 = (first * inverse + second * weight + 128) / 256;
        out[index] = value as u8;
        index += 1;
    }
    assert(out@ =~= mixed(from@, to@, weight as int));
}

proof fn lemma_mixed_bounds(first: int, second: int, weight: int)
    requires
        0 <= first <= 255,
        0 <= second <= 255,
        0 <= weight <= 256,
    ensures
        0 <= first * (256 - weight) <= 255 * 256,
        0 <= second * weight <= 255 * 256,
        first <= second ==> first * 256 <= first * (256 - weight) + second * weight <= second * 256,
        second <= first ==> second * 256 <= first * (256 - weight) + second * weight <= first * 256,
{
    assert(0 <= first * (256 - weight) <= 255 * 256) by (nonlinear_arith)
        requires
            0 <= first <= 255,
            0 <= weight <= 256,
    ;
    assert(0 <= second * weight <= 255 * 256) by (nonlinear_arith)
        requires
            0 <= second <= 255,
            0 <= weight <= 256,
    ;
    let sum = first * (256 - weight) + second * weight;
    assert(sum == first * 256 + (second - first) * weight) by (nonlinear_arith)
        requires
            sum == first * (256 - weight) + second * weight,
    ;
    assert(sum == second * 256 + (first - second) * (256 - weight)) by (nonlinear_arith)
        requires
            sum == first * (256 - weight) + second * weight,
    ;
    if first <= second {
        assert(0 <= (second - first) * weight) by (nonlinear_arith)
            requires
                first <= second,
                0 <= weight,
        ;
        assert((first - second) * (256 - weight) <= 0) by (nonlinear_arith)
            requires
                first <= second,
                weight <= 256,
        ;
    }
    if second <= first {
        assert((second - first) * weight <= 0) by (nonlinear_arith)
            requires
                second <= first,
                0 <= weight,
        ;
        assert(0 <= (first - second) * (256 - weight)) by (nonlinear_arith)
            requires
                second <= first,
                weight <= 256,
        ;
    }
}

/// Crossfades two same-sized ARGB8888 buffers with an ease-in-out curve into `output`.
///
/// `progress` is linear elapsed time on a `0..=10_000` scale.
pub fn crossfade_buffers_into<F: PixelBuffer, T: PixelBuffer, O: PixelBuffer>(
    from: &F,
    to: &T,
    progress: CrossfadeProgress,
    output: &mut O,
) -> (result: Result<()>)
    requires
        from.wf(),
        to.wf(),
        old(output).wf(),
    ensures
        final(output).wf(),
        final(output).frame() == old(output).frame(),
        final(output).lent() is Some == old(output).lent() is Some,
        old(output).lent() is Some ==> final(final(output).lent()->0)@
            == final(old(output).lent()->0)@,
        if from.frame() == to.frame() && old(output).frame() == from.frame() {
            result is Ok && final(output).bytes() == mixed(
                from.bytes(),
                to.bytes(),
                fade_weight(progress as int),
            )
        } else {
            final(output).bytes() == old(output).bytes() && result == Err::<(), RendererError>(
                RendererError::BufferSizeMismatch {
                    target: old(output).frame(),
                    overlay: from.frame(),
                },
            )
        },
{
    if from.size() != to.size() || output.size() != from.size() {
        return Err(
            RendererError::BufferSizeMismatch { target: output.size(), overlay: from.size() },
        );
    }
    let weight: u32 = crossfade_weight(progress);
    proof {
        from.lemma_wf();
        to.lemma_wf();
        output.lemma_wf();
    }
    blend_crossfade_pixels(output.pixels_mut(), from.pixels(), to.pixels(), weight);
    Ok(())
}

/// Crossfades two same-sized ARGB8888 buffers with an ease-in-out curve.
///
/// `progress` is linear elapsed time in the range `0..=100`, where `0` returns `from`
/// and `100` returns `to`. The blend weight uses a smoothstep curve so the fade eases
/// in and out instead of moving at a constant rate.
pub fn crossfade_buffers<F: PixelBuffer, T: PixelBuffer>(from: &F, to: &T, progress: u8) -> (result:
    Result<SoftwareBuffer>)
    requires
        from.wf(),
        to.wf(),
    ensures
        if from.frame() != to.frame() {
            result == Err::<SoftwareBuffer, RendererError>(
                RendererError::BufferSizeMismatch { target: from.frame(), overlay: to.frame() },
            )
        } else {
            result matches Ok(output) && output.wf() && output.frame() == from.frame()
                && output.bytes() == mixed(
                from.bytes(),
                to.bytes(),
                fade_weight(percent_progress(progress)),
            )
        },
{
    if from.size() != to.size() {
        return Err(RendererError::BufferSizeMismatch { target: from.size(), overlay: to.size() });
    }
    proof {
        from.lemma_wf();
    }
    let held: usize = from.pixels().len();
    match SoftwareBuffer::new(from.size()) {
        Ok(buffer) => {
            let mut output = buffer;
            let percent: u8 = if progress <= 100 {
                progress
            } else {
                100
            };
            match crossfade_buffers_into(from, to, percent as u16 * 100, &mut output) {
                Ok(()) => Ok(output),
                Err(error) => Err(error),
            }
        },
        Err(error) => Err(error),
    }
}

/// Percent on the progress scale.
pub open spec fn percent_progress(percent: u8) -> int {
    if percent <= 100 {
        percent * 100
    } else {
        10_000
    }
}

/// How many threads share a blend of this many bytes.
pub fn crossfade_threads(bytes: usize, available: usize) -> (threads: usize)
    ensures
        threads == if bytes < CROSSFADE_PARALLEL_THRESHOLD_BYTES {
            1
        } else if available < CROSSFADE_MAX_THREADS {
            available
        } else {
            CROSSFADE_MAX_THREADS
        },
{
    if bytes < CROSSFADE_PARALLEL_THRESHOLD_BYTES {
        1
    } else if available < CROSSFADE_MAX_THREADS {
        available
    } else {
        CROSSFADE_MAX_THREADS
    }
}

/// An even share of the bytes, rounded up.
pub open spec fn even_share(bytes: int, threads: int) -> int {
    if bytes % threads == 0 {
        bytes / threads
    } else {
        bytes / threads + 1
    }
}

/// How many bytes each thread takes: an even share, rounded up to whole pixels.
pub fn crossfade_chunk_len(bytes: usize, threads: usize) -> (chunk: usize)
    requires
        1 < threads <= CROSSFADE_MAX_THREADS,
        bytes <= isize::MAX,
    ensures
        chunk % 4 == 0,
        chunk * threads >= bytes,
        chunk - 3 <= even_share(bytes as int, threads as int) <= chunk,
{
    let share: usize = bytes / threads;
    let share: usize = if bytes % threads != 0 {
        share + 1
    } else {
        share
    };
    let rest: usize = share % 4;
    let chunk: usize = if rest != 0 {
        share + (4 - rest)
    } else {
        share
    };
    proof {
        let quotient = bytes as int / threads as int;
        let remainder = bytes as int % threads as int;
        vstd::arithmetic::div_mod::lemma_fundamental_div_mod(bytes as int, threads as int);
        assert(chunk * threads >= bytes) by (nonlinear_arith)
            requires
                chunk >= share,
                threads > 0,
                bytes == threads * quotient + remainder,
                0 <= remainder < threads,
                share >= quotient,
                remainder > 0 ==> share >= quotient + 1,
        ;
    }
    chunk
}

/// A fade starts with the first frame and ends with the second one.
pub proof fn law_fade_goes_from_first_to_second(from: Seq<u8>, to: Seq<u8>)
    requires
        from.len() == to.len(),
    ensures
        mixed(from, to, fade_weight(0)) == from,
        mixed(from, to, fade_weight(10_000)) == to,
        percent_progress(0) == 0,
        percent_progress(100) == 10_000,
{
    assert(0int * 0 * (30_000 - 2 * 0) == 0) by (nonlinear_arith);
    assert(eased(0) == 0);
    assert(mixed(from, to, 0) =~= from);
    assert(mixed(from, to, 256) =~= to);
}

/// At no point does a channel leave the range between the two frames.
pub proof fn law_fade_stays_between_the_frames(from: u8, to: u8, progress: u16)
    ensures
        from <= to ==> from <= mixed_byte(from, to, fade_weight(progress as int)) <= to,
        to <= from ==> to <= mixed_byte(from, to, fade_weight(progress as int)) <= from,
{
    lemma_weight_bounds(progress);
    lemma_mixed_bounds(from as int, to as int, fade_weight(progress as int));
}

proof fn lemma_weight_bounds(progress: u16)
    ensures
        0 <= fade_weight(progress as int) <= 256,
{
    if progress < 10_000 {
        lemma_smoothstep_bounds(progress as int);
        if single_precision_step(progress as int) != 0 {
            lemma_nudged(progress as int);
        }
    }
}

/// Blending a frame in parts gives what blending it whole gives.
pub proof fn law_parts_make_the_whole(from: Seq<u8>, to: Seq<u8>, weight: int, cut: int)
    requires
        from.len() == to.len(),
        0 <= cut <= from.len(),
    ensures
        mixed(from, to, weight) == mixed(from.take(cut), to.take(cut), weight) + mixed(
            from.skip(cut),
            to.skip(cut),
            weight,
        ),
{
    assert(mixed(from, to, weight) =~= mixed(from.take(cut), to.take(cut), weight) + mixed(
        from.skip(cut),
        to.skip(cut),
        weight,
    ));
}

/// The curve slows the fade down at both ends: before the middle it lags behind linear time,
/// after the middle it runs ahead.
pub proof fn law_easing_slows_start_and_end(linear: u16)
    requires
        linear <= 10_000,
    ensures
        linear <= 5_000 ==> eased(linear as int) <= linear,
        linear >= 5_000 ==> eased(linear as int) >= linear,
{
    let l = linear as int;
    let product = l * l * (30_000 - 2 * l);
    let ahead = 10_000 - 2 * l;
    let gap = l * (10_000 - l) * ahead;
    assert(l * 100_000_000 - product == gap) by (nonlinear_arith)
        requires
            product == l * l * (30_000 - 2 * l),
            ahead == 10_000 - 2 * l,
            gap == l * (10_000 - l) * ahead,
    ;
    assert(l * (10_000 - l) >= 0) by (nonlinear_arith)
        requires
            0 <= l <= 10_000,
    ;
    if l <= 5_000 {
        assert(gap >= 0) by (nonlinear_arith)
            requires
                gap == l * (10_000 - l) * ahead,
                l * (10_000 - l) >= 0,
                ahead >= 0,
        ;
    }
    if l == 3_393 {
        assert(gap >= 100_000_000) by (nonlinear_arith)
            requires
                gap == l * (10_000 - l) * ahead,
                l == 3_393,
                ahead == 3_214,
        ;
    }
    if l == 6_500 {
        assert(gap <= -100_000_000) by (nonlinear_arith)
            requires
                gap == l * (10_000 - l) * ahead,
                l == 6_500,
                ahead == -3_000,
        ;
    }
    if l >= 5_000 {
        assert(gap <= 0) by (nonlinear_arith)
            requires
                gap == l * (10_000 - l) * ahead,
                l * (10_000 - l) >= 0,
                ahead <= 0,
        ;
    }
}

/// The curve never turns back from one step to the next.
proof fn lemma_eased_step(linear: int)
    requires
        0 <= linear < 10_000,
    ensures
        eased(linear) <= eased(linear + 1),
{
    let next = linear + 1;
    let product = linear * linear * (30_000 - 2 * linear);
    let grown = next * next * (30_000 - 2 * next);
    assert(grown - product == 6 * linear * (9_999 - linear) + 29_998) by (nonlinear_arith)
        requires
            next == linear + 1,
            product == linear * linear * (30_000 - 2 * linear),
            grown == next * next * (30_000 - 2 * next),
    ;
    assert(linear * (9_999 - linear) >= 0) by (nonlinear_arith)
        requires
            0 <= linear < 10_000,
    ;
    assert(6 * linear * (9_999 - linear) == 6 * (linear * (9_999 - linear))) by (nonlinear_arith);
    if 2_200 <= linear <= 7_799 {
        assert(linear * (9_999 - linear) >= 2_200 * 7_799) by (nonlinear_arith)
            requires
                2_200 <= linear <= 7_799,
        ;
        assert(smoothstep(linear) + 1 <= smoothstep(next));
    } else if linear == 9_240 {
        assert(product == 983_549_952_000) by (nonlinear_arith)
            requires
                product == linear * linear * (30_000 - 2 * linear),
                linear == 9_240,
        ;
        assert(linear * (9_999 - linear) == 7_013_160) by (nonlinear_arith)
            requires
                linear == 9_240,
        ;
    } else if linear == 9_999 {
        assert(grown == 1_000_000_000_000) by (nonlinear_arith)
            requires
                grown == next * next * (30_000 - 2 * next),
                next == 10_000,
        ;
    }
}

proof fn lemma_eased_grows(earlier: int, later: int)
    requires
        0 <= earlier <= later,
    ensures
        eased(earlier) <= eased(later),
    decreases later - earlier,
{
    if earlier < later && earlier < 10_000 {
        lemma_eased_step(earlier);
        lemma_eased_grows(earlier + 1, later);
    }
}

/// A fade never turns back: as it goes on, every channel moves towards the second frame or stays.
pub proof fn law_fade_moves_one_way(from: u8, to: u8, earlier: u16, later: u16)
    requires
        earlier <= later,
    ensures
        ({
            let before = mixed_byte(from, to, fade_weight(earlier as int));
            let after = mixed_byte(from, to, fade_weight(later as int));
            &&& fade_weight(earlier as int) <= fade_weight(later as int)
            &&& from <= to ==> before <= after
            &&& to <= from ==> after <= before
        }),
{
    lemma_eased_grows(earlier as int, later as int);
    lemma_weight_bounds(earlier);
    lemma_weight_bounds(later);
    let less = fade_weight(earlier as int);
    let more = fade_weight(later as int);
    lemma_mixed_bounds(from as int, to as int, less);
    lemma_mixed_bounds(from as int, to as int, more);
    assert(from * (256 - less) + to * less == 256 * from + (to - from) * less) by (nonlinear_arith);
    assert(from * (256 - more) + to * more == 256 * from + (to - from) * more) by (nonlinear_arith);
    if from <= to {
        assert((to - from) * less <= (to - from) * more) by (nonlinear_arith)
            requires
                from <= to,
                less <= more,
        ;
    }
    if to <= from {
        assert((to - from) * less >= (to - from) * more) by (nonlinear_arith)
            requires
                to <= from,
                less <= more,
        ;
    }
}

/// The share of the second frame, in parts of 256, follows the curve `t * t * (3 - 2 * t)` of the
/// elapsed time `t` to within six tenths of a part, and every channel lies within one step and a
/// tenth of the channel that the curve asks for.
pub proof fn law_fade_follows_smoothstep(from: Seq<u8>, to: Seq<u8>, progress: u16, i: int)
    requires
        progress <= 10_000,
        from.len() == to.len(),
        0 <= i < from.len(),
    ensures
        ({
            let p = progress as int;
            let curve = p * p * (30_000 - 2 * p);
            let share = fade_weight(p);
            let shown = mixed(from, to, share)[i];
            &&& -600_000_000_000 <= share * 1_000_000_000_000 - 256 * curve <= 600_000_000_000
            &&& -1_100_000_000_000 <= (shown - from[i]) * 1_000_000_000_000 - (to[i] - from[i])
                * curve <= 1_100_000_000_000
        }),
{
    let p = progress as int;
    let curve = p * p * (30_000 - 2 * p);
    let share = fade_weight(p);
    lemma_weight_bounds(progress);
    if p == 10_000 {
        assert(curve == 1_000_000_000_000) by (nonlinear_arith)
            requires
                curve == p * p * (30_000 - 2 * p),
                p == 10_000,
        ;
    } else {
        lemma_smoothstep_bounds(p);
    }
    let e = eased(p);
    assert(-150_000_000 <= e * 100_000_000 - curve <= 150_000_000);
    assert(-600_000_000_000 <= share * 1_000_000_000_000 - 256 * curve <= 600_000_000_000);
    let a = from[i] as int;
    let b = to[i] as int;
    let sum = a * (256 - share) + b * share + 128;
    lemma_mixed_bounds(a, b, share);
    let shown = sum / 256;
    assert(a * (256 - share) + b * share == 256 * a + (b - a) * share) by (nonlinear_arith);
    let off = share * 1_000_000_000_000 - 256 * curve;
    let d = b - a;
    assert(d * off <= 255 * 600_000_000_000 && d * off >= -255 * 600_000_000_000) by (nonlinear_arith)
        requires
            -255 <= d <= 255,
            -600_000_000_000 <= off <= 600_000_000_000,
    ;
    assert(d * off == d * share * 1_000_000_000_000 - 256 * (d * curve)) by (nonlinear_arith)
        requires
            off == share * 1_000_000_000_000 - 256 * curve,
    ;
    assert(256 * shown <= sum < 256 * shown + 256);
    assert(mixed(from, to, share)[i] == shown);
}

/// A fade given in percent stands where the same hundredths of the whole time stand.
pub proof fn law_percents_are_hundredths_of_the_fade(percent: u8)
    ensures
        percent <= 100 ==> percent_progress(percent) == 100 * percent,
        percent >= 100 ==> percent_progress(percent) == 10_000,
{
}

/// An even share of the work for each thread is enough for all of it, and one byte less is not.
pub proof fn law_even_shares_cover_the_work(bytes: int, threads: int)
    requires
        0 <= bytes,
        0 < threads,
    ensures
        even_share(bytes, threads) * threads >= bytes,
        bytes > 0 ==> (even_share(bytes, threads) - 1) * threads < bytes,
{
    let share = bytes / threads;
    let rest = bytes % threads;
    vstd::arithmetic::div_mod::lemma_fundamental_div_mod(bytes, threads);
    assert(share * threads == threads * share) by (nonlinear_arith);
    assert((share + 1) * threads == share * threads + threads) by (nonlinear_arith);
    assert((share - 1) * threads == share * threads - threads) by (nonlinear_arith);
}

} // verus!
