//! Copying part of a frame.

use crate::renderer::buffer::PixelBuffer;
use crate::renderer::frame;
use crate::renderer::frame::{FrameSize, RendererError, Result};
use crate::renderer::shape;
use crate::renderer::shape::{signed, Rect};
use vstd::arithmetic::div_mod::{lemma_fundamental_div_mod, lemma_fundamental_div_mod_converse};
use vstd::prelude::*;

verus! {

/// The column of the pixel that a byte belongs to.
pub open spec fn pixel_x(index: int, width: int) -> int {
    index / 4 % width
}

/// The row of the pixel that a byte belongs to.
pub open spec fn pixel_y(index: int, width: int) -> int {
    index / 4 / width
}

/// A frame with the pixels of a rectangle taken from another frame.
pub open spec fn with_rect_from(target: Seq<u8>, source: Seq<u8>, width: int, rect: Rect) -> Seq<
    u8,
> {
    Seq::new(
        target.len(),
        |i: int|
            if shape::covers(rect, pixel_x(i, width), pixel_y(i, width)) {
                source[i]
            } else {
                target[i]
            },
    )
}

/// The part of a rectangle that lies in a frame of this size.
pub open spec fn visible_part(rect: Rect, size: FrameSize) -> Rect {
    shape::clip(rect, shape::signed_extent(size.width), shape::signed_extent(size.height))
}

proof fn lemma_byte_in_row(index: int, width: int, row: int)
    requires
        width > 0,
        row >= 0,
        row * width * 4 <= index < (row + 1) * width * 4,
    ensures
        pixel_y(index, width) == row,
        pixel_x(index, width) == index / 4 - row * width,
{
    let pixel = index / 4;
    let rest = pixel - row * width;
    assert((row + 1) * width == row * width + width) by (nonlinear_arith);
    assert(0 <= rest < width);
    assert(pixel == row * width + rest);
    lemma_fundamental_div_mod_converse(pixel, width, row, rest);
}

proof fn lemma_byte_of_pixel(index: int, width: int)
    requires
        width > 0,
        index >= 0,
    ensures
        pixel_y(index, width) >= 0,
        0 <= pixel_x(index, width) < width,
        index / 4 == pixel_y(index, width) * width + pixel_x(index, width),
{
    lemma_fundamental_div_mod(index / 4, width);
    assert(width * (index / 4 / width) == (index / 4 / width) * width) by (nonlinear_arith);
    assert(0 <= index / 4 % width < width) by (nonlinear_arith)
        requires
            width > 0,
    ;
    assert(index / 4 / width >= 0) by (nonlinear_arith)
        requires
            width > 0,
            index >= 0,
    ;
}

/// Whether a byte of the rectangle has been copied once the rows above `row`, and of that row the
/// bytes before `at`, are done.
spec fn copied(index: int, width: int, rect: Rect, row: int, at: int) -> bool {
    shape::covers(rect, pixel_x(index, width), pixel_y(index, width)) && (pixel_y(index, width)
        < row || (pixel_y(index, width) == row && index < at))
}

fn copy_row(
    target: &mut [u8],
    source: &[u8],
    width: usize,
    rect: Rect,
    row: usize,
    Ghost(before): Ghost<Seq<u8>>,
)
    requires
        width > 0,
        old(target)@.len() == source@.len(),
        before.len() == source@.len(),
        (row + 1) * width * 4 <= source@.len(),
        rect.x >= 0,
        rect.width > 0,
        rect.x + rect.width <= width,
        rect.y <= row < rect.y + rect.height,
        forall|i: int|
            0 <= i < source@.len() ==> old(target)@[i] == if copied(
                i,
                width as int,
                rect,
                row as int,
                0,
            ) {
                source@[i]
            } else {
                before[i]
            },
    ensures
        final(target)@.len() == source@.len(),
        forall|i: int|
            0 <= i < source@.len() ==> final(target)@[i] == if copied(
                i,
                width as int,
                rect,
                row + 1,
                0,
            ) {
                source@[i]
            } else {
                before[i]
            },
{
    let length: usize = source.len();
    proof {
        assert((row + 1) * width == row * width + width) by (nonlinear_arith);
        assert(row * width >= 0) by (nonlinear_arith)
            requires
                row >= 0,
                width >= 0,
        ;
    }
    let base: usize = row * width;
    let start: usize = (base + rect.x as usize) * 4;
    let end: usize = start + rect.width as usize * 4;
    let mut at: usize = start;
    proof {
        assert forall|i: int| 0 <= i < source@.len() implies copied(
            i,
            width as int,
            rect,
            row as int,
            0,
        ) == copied(i, width as int, rect, row as int, start as int) by {
            if pixel_y(i, width as int) == row {
                lemma_byte_of_pixel(i, width as int);
            }
        }
    }
    while at < end
        invariant
            start <= at <= end,
            width > 0,
            length == source@.len(),
            target@.len() == length,
            before.len() == length,
            end <= length,
            base == row * width,
            (row + 1) * width == base + width,
            (row + 1) * width * 4 <= length,
            start == (base + rect.x) * 4,
            end == start + rect.width * 4,
            rect.x >= 0,
            rect.width > 0,
            rect.x + rect.width <= width,
            rect.y <= row < rect.y + rect.height,
            forall|i: int|
                0 <= i < length ==> target@[i] == if copied(
                    i,
                    width as int,
                    rect,
                    row as int,
                    at as int,
                ) {
                    source@[i]
                } else {
                    before[i]
                },
        decreases end - at,
    {
        target[at] = source[at];
        proof {
            lemma_byte_in_row(at as int, width as int, row as int);
            assert(copied(at as int, width as int, rect, row as int, at + 1));
        }
        at += 1;
    }
    proof {
        assert forall|i: int| 0 <= i < length implies copied(
            i,
            width as int,
            rect,
            row as int,
            end as int,
        ) == copied(i, width as int, rect, row + 1, 0) by {
            if pixel_y(i, width as int) == row {
                lemma_byte_of_pixel(i, width as int);
            }
        }
    }
}

fn copy_rows(target: &mut [u8], source: &[u8], width: usize, height: usize, rect: Rect)
    requires
        width > 0,
        old(target)@.len() == source@.len(),
        source@.len() == height * width * 4,
        rect.x >= 0,
        rect.y >= 0,
        rect.width > 0,
        rect.height > 0,
        rect.x + rect.width <= width,
        rect.y + rect.height <= height,
    ensures
        final(target)@ == with_rect_from(old(target)@, source@, width as int, rect),
{
    let ghost before = target@;
    let last: usize = rect.y as usize + rect.height as usize;
    let mut row: usize = rect.y as usize;
    proof {
        assert forall|i: int| 0 <= i < source@.len() implies !copied(
            i,
            width as int,
            rect,
            row as int,
            0,
        ) by {
            lemma_byte_of_pixel(i, width as int);
        }
    }
    while row < last
        invariant
            rect.y <= row <= last,
            last == rect.y + rect.height,
            last <= height,
            width > 0,
            target@.len() == source@.len(),
            before.len() == source@.len(),
            source@.len() == height * width * 4,
            rect.x >= 0,
            rect.y >= 0,
            rect.width > 0,
            rect.x + rect.width <= width,
            forall|i: int|
                0 <= i < source@.len() ==> target@[i] == if copied(
                    i,
                    width as int,
                    rect,
                    row as int,
                    0,
                ) {
                    source@[i]
                } else {
                    before[i]
                },
        decreases last - row,
    {
        proof {
            assert((row + 1) * width <= height * width) by (nonlinear_arith)
                requires
                    row + 1 <= height,
                    width > 0,
            ;
        }
        copy_row(target, source, width, rect, row, Ghost(before));
        row += 1;
    }
    proof {
        assert forall|i: int| 0 <= i < source@.len() implies target@[i] == with_rect_from(
            before,
            source@,
            width as int,
            rect,
        )[i] by {
            lemma_byte_of_pixel(i, width as int);
        }
        assert(target@ =~= with_rect_from(before, source@, width as int, rect));
    }
}

/// Copies a rectangle from one frame into another of the same size, and returns the part of it
/// that lies in the frame.
pub fn copy_rect_from<S: PixelBuffer, T: PixelBuffer>(source: &S, target: &mut T, rect: Rect) -> (result:
    Result<Option<Rect>>)
    requires
        source.wf(),
        old(target).wf(),
    ensures
        final(target).wf(),
        final(target).frame() == old(target).frame(),
        final(target).lent() is Some == old(target).lent() is Some,
        old(target).lent() is Some ==> final(final(target).lent()->0)@
            == final(old(target).lent()->0)@,
        if source.frame() != old(target).frame() {
            final(target).bytes() == old(target).bytes() && result == Err::<
                Option<Rect>,
                RendererError,
            >(
                RendererError::BufferSizeMismatch {
                    target: old(target).frame(),
                    overlay: source.frame(),
                },
            )
        } else {
            let part = visible_part(rect, source.frame());
            if part.width <= 0 || part.height <= 0 {
                final(target).bytes() == old(target).bytes() && result == Ok::<
                    Option<Rect>,
                    RendererError,
                >(None)
            } else {
                result == Ok::<Option<Rect>, RendererError>(Some(part)) && final(target).bytes()
                    == with_rect_from(
                    old(target).bytes(),
                    source.bytes(),
                    source.frame().width as int,
                    part,
                )
            }
        },
{
    if source.size() != target.size() {
        return Err(
            RendererError::BufferSizeMismatch { target: target.size(), overlay: source.size() },
        );
    }
    let size = target.size();
    let part = rect.clipped_to(signed(size.width), signed(size.height));
    if part.is_empty() {
        return Ok(None);
    }
    proof {
        source.lemma_wf();
        target.lemma_wf();
        assert(size.width * size.height == size.height * size.width) by (nonlinear_arith);
    }
    copy_rows(
        target.pixels_mut(),
        source.pixels(),
        size.width as usize,
        size.height as usize,
        part,
    );
    Ok(Some(part))
}

/// Pixels outside of the rectangle stay as they were.
pub proof fn law_copy_stays_in_its_rectangle(
    target: Seq<u8>,
    source: Seq<u8>,
    width: int,
    rect: Rect,
    index: int,
)
    requires
        0 <= index < target.len(),
        !shape::covers(rect, pixel_x(index, width), pixel_y(index, width)),
    ensures
        with_rect_from(target, source, width, rect)[index] == target[index],
{
}

/// Inside the rectangle a copy has the source's pixels, outside it those that were there.
pub proof fn law_copy_takes_the_rectangle(
    target: Seq<u8>,
    source: Seq<u8>,
    width: int,
    rect: Rect,
    x: int,
    y: int,
    channel: int,
)
    requires
        0 <= x < width,
        0 <= y,
        0 <= channel < 4,
        (y * width + x) * 4 + channel < target.len(),
    ensures
        ({
            let at = (y * width + x) * 4 + channel;
            let inside = rect.x <= x < rect.x + rect.width && rect.y <= y < rect.y + rect.height;
            let copy = with_rect_from(target, source, width, rect);
            &&& copy.len() == target.len()
            &&& inside ==> copy[at] == source[at]
            &&& !inside ==> copy[at] == target[at]
        }),
{
    let pixel = y * width + x;
    let at = pixel * 4 + channel;
    assert(pixel >= 0) by (nonlinear_arith)
        requires
            pixel == y * width + x,
            y >= 0,
            width > 0,
            x >= 0,
    ;
    assert(at / 4 == pixel);
    lemma_fundamental_div_mod_converse(pixel, width, y, x);
}

} // verus!
