//! Pixel buffers.

use crate::renderer::frame;
use crate::renderer::frame::{unpremultiply_channel, ClearColor, FrameSize, RendererError, Result};
use vstd::prelude::*;

verus! {

/// Mutable ARGB8888 render target.
pub trait PixelBuffer {
    spec fn frame(&self) -> FrameSize;

    spec fn bytes(&self) -> Seq<u8>;

    /// The memory of somebody else that the bytes stand in, where they do. What that memory holds
    /// in the end is what was drawn last.
    spec fn lent(&self) -> Option<&mut [u8]>;

    /// The bytes are those of a frame of this size.
    spec fn wf(&self) -> bool;

    proof fn lemma_wf(&self)
        requires
            self.wf(),
        ensures
            self.bytes().len() == frame::frame_bytes(self.frame()),
    ;

    fn size(&self) -> (size: FrameSize)
        ensures
            size == self.frame(),
    ;

    fn pixels(&self) -> (pixels: &[u8])
        ensures
            pixels@ == self.bytes(),
    ;

    fn pixels_mut(&mut self) -> (pixels: &mut [u8])
        ensures
            pixels@ == old(self).bytes(),
            final(pixels)@ == final(self).bytes(),
            final(self).frame() == old(self).frame(),
            final(pixels)@.len() == pixels@.len() && old(self).wf() ==> final(self).wf(),
            final(self).lent() is Some == old(self).lent() is Some,
            old(self).lent() is Some ==> final(final(self).lent()->0)@
                == final(old(self).lent()->0)@,
    ;

    /// Gives every pixel the color.
    fn clear(&mut self, color: ClearColor)
        requires
            old(self).wf(),
        ensures
            final(self).wf(),
            final(self).frame() == old(self).frame(),
            final(self).bytes() == solid_bytes(old(self).frame(), color),
            final(self).lent() is Some == old(self).lent() is Some,
            old(self).lent() is Some ==> final(final(self).lent()->0)@
                == final(old(self).lent()->0)@,
    {
        proof {
            self.lemma_wf();
        }
        fill_pixels(self.pixels_mut(), color.to_argb8888_bytes());
        proof {
            assert(self.bytes() =~= solid_bytes(old(self).frame(), color));
        }
    }
}

/// A frame of one color.
pub open spec fn solid_bytes(size: FrameSize, color: ClearColor) -> Seq<u8> {
    Seq::new(frame::frame_bytes(size), |i: int| frame::color_bytes(color)[i % 4])
}

/// A byte of a pixel with a byte of another pixel of this alpha laid over it.
pub open spec fn blended_byte(dst: u8, src: u8, alpha: u8) -> u8 {
    if alpha == 0 {
        dst
    } else if alpha == 255 {
        src
    } else {
        let value = src + (dst * (255 - alpha) + 127) / 255;
        if value <= 255 {
            value as u8
        } else {
            255
        }
    }
}

/// Pixels with other pixels laid over them.
pub open spec fn blended(dst: Seq<u8>, src: Seq<u8>) -> Seq<u8> {
    Seq::new(dst.len(), |i: int| blended_byte(dst[i], src[i], src[i / 4 * 4 + 3]))
}

proof fn lemma_whole_pixels(size: FrameSize)
    ensures
        frame::frame_bytes(size) % 4 == 0,
{
    assert(size.width * size.height >= 0) by (nonlinear_arith)
        requires
            size.width >= 0,
            size.height >= 0,
    ;
}

fn fill_pixels(pixels: &mut [u8], pixel: [u8; 4])
    requires
        old(pixels)@.len() % 4 == 0,
    ensures
        final(pixels)@ == Seq::new(old(pixels)@.len(), |i: int| pixel@[i % 4]),
{
    let length: usize = pixels.len();
    let mut index: usize = 0;
    while index < length
        invariant
            index <= length,
            length == pixels@.len(),
            pixels@.len() == old(pixels)@.len(),
            forall|i: int| 0 <= i < index ==> pixels@[i] == pixel@[i % 4],
        decreases length - index,
    {
        pixels[index] = pixel[index % 4];
        index += 1;
    }
    assert(pixels@ =~= Seq::new(old(pixels)@.len(), |i: int| pixel@[i % 4]));
}

fn blend_component(dst: u8, src: u8, inverse_alpha: u16) -> (blended: u8)
    requires
        inverse_alpha <= 255,
    ensures
        blended == ({
            let value = src + (dst * inverse_alpha + 127) / 255;
            if value <= 255 {
                value as u8
            } else {
                255
            }
        }),
{
    assert(0 <= dst * inverse_alpha <= 255 * 255) by (nonlinear_arith)
        requires
            0 <= dst <= 255,
            0 <= inverse_alpha <= 255,
    ;
    let value: u16 = src as u16 + (dst as u16 * inverse_alpha + 127) / 255;
    if value <= 255 {
        value as u8
    } else {
        255
    }
}

fn blend_pixels(dst: &mut [u8], src: &[u8])
    requires
        old(dst)@.len() == src@.len(),
        src@.len() % 4 == 0,
    ensures
        final(dst)@ == blended(old(dst)@, src@),
{
    let length: usize = src.len();
    let mut index: usize = 0;
    while index < length
        invariant
            index <= length,
            index % 4 == 0,
            length % 4 == 0,
            length == src@.len(),
            dst@.len() == length,
            old(dst)@.len() == length,
            forall|i: int| 0 <= i < index ==> dst@[i] == blended(old(dst)@, src@)[i],
            forall|i: int| index <= i < length ==> dst@[i] == old(dst)@[i],
        decreases length - index,
    {
        blend_pixel(dst, src, index);
        proof {
            assert forall|i: int| index <= i < index + 4 implies dst@[i] == blended(
                old(dst)@,
                src@,
            )[i] by {
                assert(i / 4 * 4 == index);
            }
        }
        index += 4;
    }
    assert(dst@ =~= blended(old(dst)@, src@));
}

/// Lays the source pixel that starts at `at` over the target pixel there.
fn blend_pixel(dst: &mut [u8], src: &[u8], at: usize)
    requires
        at + 4 <= src@.len(),
        old(dst)@.len() == src@.len(),
    ensures
        final(dst)@.len() == old(dst)@.len(),
        forall|i: int|
            0 <= i < old(dst)@.len() ==> final(dst)@[i] == if at <= i < at + 4 {
                blended_byte(old(dst)@[i], src@[i], src@[at + 3])
            } else {
                old(dst)@[i]
            },
{
    let length: usize = src.len();
    let alpha: u8 = src[at + 3];
    if alpha == 0 {
        return;
    }
    let inverse_alpha: u16 = 255 - alpha as u16;
    let mut offset: usize = 0;
    while offset < 4
        invariant
            offset <= 4,
            length == src@.len(),
            at + 4 <= length,
            old(dst)@.len() == src@.len(),
            dst@.len() == src@.len(),
            alpha == src@[at + 3],
            alpha != 0,
            inverse_alpha == 255 - alpha,
            forall|i: int|
                0 <= i < dst@.len() ==> dst@[i] == if at <= i < at + offset {
                    blended_byte(old(dst)@[i], src@[i], alpha)
                } else {
                    old(dst)@[i]
                },
        decreases 4 - offset,
    {
        let index: usize = at + offset;
        let value: u8 = if alpha == 255 {
            src[index]
        } else {
            blend_component(dst[index], src[index], inverse_alpha)
        };
        dst[index] = value;
        offset += 1;
    }
}

/// Lays a buffer over another one of the same size.
pub fn blend_buffers<T: PixelBuffer, O: PixelBuffer>(target: &mut T, overlay: &O) -> (result: Result<()>)
    requires
        old(target).wf(),
        overlay.wf(),
    ensures
        final(target).wf(),
        final(target).frame() == old(target).frame(),
        if old(target).frame() == overlay.frame() {
            result is Ok && final(target).bytes() == blended(old(target).bytes(), overlay.bytes())
        } else {
            final(target).bytes() == old(target).bytes() && result == Err::<(), RendererError>(
                RendererError::BufferSizeMismatch {
                    target: old(target).frame(),
                    overlay: overlay.frame(),
                },
            )
        },
        final(target).lent() is Some == old(target).lent() is Some,
        old(target).lent() is Some ==> final(final(target).lent()->0)@
            == final(old(target).lent()->0)@,
{
    if target.size() != overlay.size() {
        return Err(
            RendererError::BufferSizeMismatch { target: target.size(), overlay: overlay.size() },
        );
    }
    proof {
        target.lemma_wf();
        overlay.lemma_wf();
        lemma_whole_pixels(target.frame());
    }
    blend_pixels(target.pixels_mut(), overlay.pixels());
    Ok(())
}

/// Owned ARGB8888 software buffer.
#[derive(Debug, PartialEq, Eq)]
pub struct SoftwareBuffer {
    size: FrameSize,
    pixels: Vec<u8>,
}

impl PixelBuffer for SoftwareBuffer {
    closed spec fn frame(&self) -> FrameSize {
        self.size
    }

    closed spec fn lent(&self) -> Option<&mut [u8]> {
        None
    }

    closed spec fn bytes(&self) -> Seq<u8> {
        self.pixels@
    }

    closed spec fn wf(&self) -> bool {
        self.pixels@.len() == frame::frame_bytes(self.size)
    }

    proof fn lemma_wf(&self) {
    }

    fn size(&self) -> FrameSize {
        self.size
    }

    fn pixels(&self) -> &[u8] {
        self.pixels.as_slice()
    }

    fn pixels_mut(&mut self) -> &mut [u8] {
        self.pixels.as_mut_slice()
    }
}

impl Clone for SoftwareBuffer {
    fn clone(&self) -> (buffer: Self)
        ensures
            buffer.frame() == self.frame(),
            buffer.bytes() == self.bytes(),
            self.wf() ==> buffer.wf(),
    {
        let mut pixels: Vec<u8> = Vec::new();
        pixels.extend_from_slice(self.pixels.as_slice());
        assert(pixels@ =~= self.pixels@);
        Self { size: self.size, pixels }
    }
}

impl SoftwareBuffer {
    /// Creates a new ARGB8888 buffer of the requested size.
    pub fn new(size: FrameSize) -> (result: Result<Self>)
        ensures
            match result {
                Ok(buffer) => frame::frame_bytes(size) <= usize::MAX && buffer.wf()
                    && buffer.frame() == size && buffer.bytes() == Seq::new(
                    frame::frame_bytes(size),
                    |i: int| 0u8,
                ),
                Err(error) => frame::frame_bytes(size) > usize::MAX && error
                    == RendererError::InvalidFrameSize(size),
            },
    {
        match size.byte_len() {
            Some(byte_len) => {
                let pixels: Vec<u8> = vec![0u8; byte_len];
                assert(pixels@ =~= Seq::new(frame::frame_bytes(size), |i: int| 0u8));
                Ok(Self { size, pixels })
            },
            None => Err(RendererError::InvalidFrameSize(size)),
        }
    }

    /// Creates a solid-color ARGB8888 buffer.
    pub fn solid(size: FrameSize, color: ClearColor) -> (result: Result<Self>)
        ensures
            match result {
                Ok(buffer) => frame::frame_bytes(size) <= usize::MAX && buffer.wf()
                    && buffer.frame() == size && buffer.bytes() == solid_bytes(size, color),
                Err(error) => frame::frame_bytes(size) > usize::MAX && error
                    == RendererError::InvalidFrameSize(size),
            },
    {
        match Self::new(size) {
            Ok(buffer) => {
                let mut buffer = buffer;
                buffer.clear(color);
                Ok(buffer)
            },
            Err(error) => Err(error),
        }
    }

    /// Creates a buffer from owned ARGB8888 bytes.
    pub fn from_argb8888_pixels(size: FrameSize, pixels: Vec<u8>) -> (result: Result<Self>)
        ensures
            match result {
                Ok(buffer) => pixels@.len() == frame::frame_bytes(size) && buffer.wf()
                    && buffer.frame() == size && buffer.bytes() == pixels@,
                Err(error) => pixels@.len() != frame::frame_bytes(size) && error
                    == RendererError::InvalidFrameSize(size),
            },
    {
        let actual: usize = pixels.len();
        match size.byte_len() {
            Some(byte_len) => if actual != byte_len {
                Err(RendererError::InvalidFrameSize(size))
            } else {
                Ok(Self { size, pixels })
            },
            None => Err(RendererError::InvalidFrameSize(size)),
        }
    }

    /// Fills the buffer with a single color.
    pub fn clear(&mut self, color: ClearColor)
        requires
            old(self).wf(),
        ensures
            final(self).wf(),
            final(self).frame() == old(self).frame(),
            final(self).bytes() == solid_bytes(old(self).frame(), color),
    {
        PixelBuffer::clear(self, color);
    }

    /// Blends another ARGB8888 buffer over this one.
    pub fn blend_from<O: PixelBuffer>(&mut self, overlay: &O) -> (result: Result<()>)
        requires
            old(self).wf(),
            overlay.wf(),
        ensures
            final(self).wf(),
            final(self).frame() == old(self).frame(),
            if old(self).frame() == overlay.frame() {
                result is Ok && final(self).bytes() == blended(old(self).bytes(), overlay.bytes())
            } else {
                final(self).bytes() == old(self).bytes() && result == Err::<(), RendererError>(
                    RendererError::BufferSizeMismatch {
                        target: old(self).frame(),
                        overlay: overlay.frame(),
                    },
                )
            },
    {
        blend_buffers(self, overlay)
    }

    /// Returns the frame size for the buffer.
    pub fn size(&self) -> (size: FrameSize)
        ensures
            size == self.frame(),
    {
        self.size
    }

    /// Returns the ARGB8888 bytes.
    pub fn pixels(&self) -> (pixels: &[u8])
        ensures
            pixels@ == self.bytes(),
    {
        self.pixels.as_slice()
    }

    /// Returns the ARGB8888 bytes for in-place drawing.
    pub fn pixels_mut(&mut self) -> (pixels: &mut [u8])
        ensures
            pixels@ == old(self).bytes(),
            final(pixels)@ == final(self).bytes(),
            final(self).frame() == old(self).frame(),
            final(pixels)@.len() == pixels@.len() && old(self).wf() ==> final(self).wf(),
    {
        self.pixels.as_mut_slice()
    }

    /// The picture as straight RGBA bytes, the form image files have it in.
    pub fn to_rgba_bytes(&self) -> (rgba: Vec<u8>)
        requires
            self.wf(),
        ensures
            rgba@ == rgba_bytes(self.bytes()),
    {
        let length: usize = self.pixels.len();
        let mut rgba: Vec<u8> = Vec::with_capacity(length);
        let mut index: usize = 0;
        proof {
            lemma_whole_pixels(self.size);
        }
        while index < length
            invariant
                index <= length,
                index % 4 == 0,
                length % 4 == 0,
                length == self.pixels@.len(),
                rgba@.len() == index,
                forall|i: int| 0 <= i < index ==> rgba@[i] == rgba_bytes(self.pixels@)[i],
            decreases length - index,
        {
            let blue: u8 = self.pixels[index];
            let green: u8 = self.pixels[index + 1];
            let red: u8 = self.pixels[index + 2];
            let alpha: u8 = self.pixels[index + 3];
            rgba.push(unpremultiply_channel(red, alpha));
            rgba.push(unpremultiply_channel(green, alpha));
            rgba.push(unpremultiply_channel(blue, alpha));
            rgba.push(alpha);
            proof {
                assert forall|i: int| index <= i < index + 4 implies rgba@[i] == rgba_bytes(
                    self.pixels@,
                )[i] by {
                    assert(i / 4 * 4 == index);
                    assert(i % 4 == i - index);
                }
            }
            index += 4;
        }
        assert(rgba@ =~= rgba_bytes(self.pixels@));
        rgba
    }
}

/// Blue, green, red and alpha bytes, scaled by alpha, as straight red, green, blue and alpha
/// bytes.
pub open spec fn rgba_bytes(pixels: Seq<u8>) -> Seq<u8> {
    Seq::new(
        pixels.len(),
        |i: int|
            {
                let start = i / 4 * 4;
                let alpha = pixels[start + 3];
                if i % 4 == 3 {
                    alpha
                } else {
                    frame::unpremultiplied(pixels[start + 2 - i % 4], alpha)
                }
            },
    )
}

/// Borrowed ARGB8888 software buffer view.
pub struct SoftwareBufferView<'a> {
    pub size: FrameSize,
    pub pixels: &'a mut [u8],
}

impl<'a> SoftwareBufferView<'a> {
    pub fn new(size: FrameSize, pixels: &'a mut [u8]) -> (result: Result<Self>)
        ensures
            match result {
                Ok(view) => old(pixels)@.len() == frame::frame_bytes(size) && view.wf()
                    && view.frame() == size && view.bytes() == old(pixels)@ && view.lent() is Some
                    && final(view.lent()->0)@ == final(pixels)@,
                Err(error) => old(pixels)@.len() != frame::frame_bytes(size) && error
                    == RendererError::InvalidFrameSize(size) && final(pixels)@ == old(pixels)@,
            },
    {
        let actual: usize = pixels.len();
        match size.byte_len() {
            Some(byte_len) => if actual != byte_len {
                Err(RendererError::InvalidFrameSize(size))
            } else {
                Ok(Self { size, pixels })
            },
            None => Err(RendererError::InvalidFrameSize(size)),
        }
    }

    /// Lays a buffer of the same size over this one.
    pub fn blend_from<O: PixelBuffer>(&mut self, overlay: &O) -> (result: Result<()>)
        requires
            old(self).wf(),
            overlay.wf(),
        ensures
            final(self).wf(),
            final(self).frame() == old(self).frame(),
            if old(self).frame() == overlay.frame() {
                result is Ok && final(self).bytes() == blended(old(self).bytes(), overlay.bytes())
            } else {
                final(self).bytes() == old(self).bytes() && result == Err::<(), RendererError>(
                    RendererError::BufferSizeMismatch {
                        target: old(self).frame(),
                        overlay: overlay.frame(),
                    },
                )
            },
            final(self).lent() is Some,
            final(final(self).lent()->0)@ == final(old(self).lent()->0)@,
    {
        blend_buffers(self, overlay)
    }
}

impl<'a> PixelBuffer for SoftwareBufferView<'a> {
    open spec fn frame(&self) -> FrameSize {
        self.size
    }

    open spec fn lent(&self) -> Option<&mut [u8]> {
        Some(self.pixels)
    }

    open spec fn bytes(&self) -> Seq<u8> {
        self.pixels@
    }

    open spec fn wf(&self) -> bool {
        self.pixels@.len() == frame::frame_bytes(self.size)
    }

    proof fn lemma_wf(&self) {
    }

    fn size(&self) -> FrameSize {
        self.size
    }

    fn pixels(&self) -> &[u8] {
        self.pixels
    }

    fn pixels_mut(&mut self) -> &mut [u8] {
        self.pixels
    }
}

/// A transparent overlay leaves the pixels alone, an opaque one takes their place.
pub proof fn law_overlay_extremes(dst: Seq<u8>, src: Seq<u8>)
    requires
        dst.len() == src.len(),
        dst.len() % 4 == 0,
    ensures
        (forall|i: int| 0 <= i < src.len() && i % 4 == 3 ==> #[trigger] src[i] == 0) ==> blended(
            dst,
            src,
        ) == dst,
        (forall|i: int| 0 <= i < src.len() && i % 4 == 3 ==> #[trigger] src[i] == 255) ==> blended(
            dst,
            src,
        ) == src,
{
    if forall|i: int| 0 <= i < src.len() && i % 4 == 3 ==> #[trigger] src[i] == 0 {
        assert forall|i: int| 0 <= i < dst.len() implies blended(dst, src)[i] == dst[i] by {
            assert(src[i / 4 * 4 + 3] == 0);
        }
        assert(blended(dst, src) =~= dst);
    }
    if forall|i: int| 0 <= i < src.len() && i % 4 == 3 ==> #[trigger] src[i] == 255 {
        assert forall|i: int| 0 <= i < dst.len() implies blended(dst, src)[i] == src[i] by {
            assert(src[i / 4 * 4 + 3] == 255);
        }
        assert(blended(dst, src) =~= src);
    }
}

/// An overlay adds its channels to what shines through it: the part of what lay below that its
/// opacity leaves, to the nearest whole value, up to the brightest. The opacity is that of the
/// overlay's own pixel.
pub proof fn law_overlay_lets_the_rest_shine_through(
    dst: Seq<u8>,
    src: Seq<u8>,
    pixel: int,
    channel: int,
)
    requires
        dst.len() == src.len(),
        0 <= pixel,
        pixel * 4 + 4 <= dst.len(),
        0 <= channel < 4,
    ensures
        ({
            let at = pixel * 4 + channel;
            let alpha = src[pixel * 4 + 3];
            let through = dst[at] * (255 - alpha);
            let shown = blended(dst, src)[at];
            &&& alpha == 255 ==> shown == src[at]
            &&& alpha == 0 ==> shown == dst[at]
            &&& 0 < alpha < 255 && shown < 255 ==> -127 <= 255 * (shown - src[at]) - through <= 127
            &&& 0 < alpha < 255 && shown == 255 ==> 255 * (255 - src[at]) - through <= 127
            &&& 0 < alpha ==> shown >= src[at]
        }),
{
    let at = pixel * 4 + channel;
    assert(at / 4 * 4 + 3 == pixel * 4 + 3);
    let alpha = src[pixel * 4 + 3];
    assert(0 <= dst[at] * (255 - alpha) <= 65_025) by (nonlinear_arith)
        requires
            0 <= dst[at] <= 255,
            0 <= alpha <= 255,
    ;
}

/// Every pixel of a solid picture has the bytes of its color.
pub proof fn law_solid_pictures_have_one_color(
    size: FrameSize,
    color: ClearColor,
    pixel: int,
    channel: int,
)
    requires
        0 <= pixel,
        pixel * 4 + 4 <= frame::frame_bytes(size),
        0 <= channel < 4,
    ensures
        solid_bytes(size, color).len() == frame::frame_bytes(size),
        solid_bytes(size, color)[pixel * 4 + channel] == frame::color_bytes(color)[channel],
{
    assert((pixel * 4 + channel) % 4 == channel);
}

/// Written as red, green, blue and opacity, a picture has the channels of each pixel in that
/// order, scaled back by its opacity.
pub proof fn law_pictures_are_written_in_color_order(pixels: Seq<u8>, pixel: int)
    requires
        0 <= pixel,
        pixel * 4 + 4 <= pixels.len(),
    ensures
        ({
            let at = pixel * 4;
            let rgba = rgba_bytes(pixels);
            let alpha = pixels[at + 3];
            &&& rgba.len() == pixels.len()
            &&& rgba[at] == frame::unpremultiplied(pixels[at + 2], alpha)
            &&& rgba[at + 1] == frame::unpremultiplied(pixels[at + 1], alpha)
            &&& rgba[at + 2] == frame::unpremultiplied(pixels[at], alpha)
            &&& rgba[at + 3] == alpha
        }),
{
    let at = pixel * 4;
    assert(at / 4 * 4 == at && (at + 1) / 4 * 4 == at && (at + 2) / 4 * 4 == at && (at + 3) / 4 * 4
        == at);
    assert(at % 4 == 0 && (at + 1) % 4 == 1 && (at + 2) % 4 == 2 && (at + 3) % 4 == 3);
}

/// A solid picture, written out, shows its color in every pixel where the color is opaque.
pub proof fn law_opaque_color_is_written_as_it_is(
    size: FrameSize,
    color: ClearColor,
    pixel: int,
)
    requires
        0 <= pixel,
        pixel * 4 + 4 <= frame::frame_bytes(size),
        color.alpha == 255,
    ensures
        ({
            let rgba = rgba_bytes(solid_bytes(size, color));
            &&& rgba[pixel * 4] == color.red
            &&& rgba[pixel * 4 + 1] == color.green
            &&& rgba[pixel * 4 + 2] == color.blue
            &&& rgba[pixel * 4 + 3] == 255
        }),
{
    law_pictures_are_written_in_color_order(solid_bytes(size, color), pixel);
    law_solid_pictures_have_one_color(size, color, pixel, 0);
    law_solid_pictures_have_one_color(size, color, pixel, 1);
    law_solid_pictures_have_one_color(size, color, pixel, 2);
    law_solid_pictures_have_one_color(size, color, pixel, 3);
    frame::law_opaque_colors_are_kept(color.red);
    frame::law_opaque_colors_are_kept(color.green);
    frame::law_opaque_colors_are_kept(color.blue);
}

} // verus!
