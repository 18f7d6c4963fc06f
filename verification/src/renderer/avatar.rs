//! Avatars: preparing the picture, caching it and where its parts are drawn.

use crate::common::text;
use crate::renderer::cache;
use crate::renderer::cache::{CacheRead, RgbaPixels, TRUNCATED_MESSAGE};
use crate::renderer::frame;
use crate::renderer::frame::{
    premultiply_channel, ClearColor, FrameSize, RendererError, Result, ShadowStyle,
};
use crate::renderer::shape;
use crate::renderer::shape::{signed, BorderStyle, Rect};
use std::collections::hash_map::DefaultHasher;
use std::hash::{Hash, Hasher};
use tiny_skia::{IntSize, Pixmap};
use vstd::prelude::*;
use vstd::std_specs::hash::DefaultHasherAdditionalSpecFns;

verus! {

/// The largest side of a prepared avatar.
pub const MAX_PREPARED_AVATAR_SIZE: u32 = 512;

#[verifier::external_type_specification]
#[verifier::external_body]
pub struct ExPixmap(Pixmap);

/// The bytes a pixmap holds.
pub uninterp spec fn pixmap_bytes(pixmap: Pixmap) -> Seq<u8>;

/// The size a pixmap was made with.
pub uninterp spec fn pixmap_size(pixmap: Pixmap) -> FrameSize;

/// Whether a pixmap of this size can hold this many bytes: neither side is zero, a row fits
/// in 31 bits, and there are four bytes for each pixel.
pub open spec fn pixmap_fits(size: FrameSize, len: nat) -> bool {
    size.width > 0 && size.height > 0 && size.width * 4 <= i32::MAX && frame::frame_bytes(size)
        == len
}

/// `tiny_skia::Pixmap::from_vec` with `tiny_skia::IntSize::from_wh`: takes the bytes over if they
/// are those of a picture of this size.
#[verifier::external_body]
fn pixmap_from_vec(data: Vec<u8>, width: u32, height: u32) -> (pixmap: Option<Pixmap>)
    ensures
        match pixmap {
            Some(pixmap) => pixmap_fits(FrameSize { width, height }, data@.len()) && pixmap_bytes(
                pixmap,
            ) == data@ && pixmap_size(pixmap) == (FrameSize { width, height }),
            None => !pixmap_fits(FrameSize { width, height }, data@.len()),
        },
{
    Pixmap::from_vec(data, IntSize::from_wh(width, height)?)
}

/// `tiny_skia::Pixmap::data`: the bytes it holds.
#[verifier::external_body]
fn pixmap_data(pixmap: &Pixmap) -> (data: &[u8])
    ensures
        data@ == pixmap_bytes(*pixmap),
{
    pixmap.data()
}

/// `tiny_skia::Pixmap::width`: the width it was made with.
#[verifier::external_body]
fn pixmap_width(pixmap: &Pixmap) -> (width: u32)
    ensures
        width == pixmap_size(*pixmap).width,
{
    pixmap.width()
}

/// `tiny_skia::Pixmap::height`: the height it was made with.
#[verifier::external_body]
fn pixmap_height(pixmap: &Pixmap) -> (height: u32)
    ensures
        height == pixmap_size(*pixmap).height,
{
    pixmap.height()
}

/// `Clone` of a pixmap: the same bytes at the same size.
pub assume_specification[ <Pixmap as Clone>::clone ](pixmap: &Pixmap) -> (copy: Pixmap)
    ensures
        pixmap_bytes(copy) == pixmap_bytes(*pixmap),
        pixmap_size(copy) == pixmap_size(*pixmap),
;

/// Whether `image::load_from_memory` with `to_rgba8` may give this for a file: the width, the
/// height and the straight RGBA bytes of the picture in it, or the report of why it holds none.
/// Decoders choose their arithmetic by the processor, so the exact bytes are the machine's.
pub uninterp spec fn decoding_gives(
    file: Seq<u8>,
    outcome: core::result::Result<(u32, u32, Seq<u8>), Seq<char>>,
) -> bool;

/// `image::load_from_memory` with `to_rgba8`: decodes a picture. The raw bytes are four for each
/// pixel.
#[verifier::external_body]
fn decode_picture(file: &[u8]) -> (result: core::result::Result<(u32, u32, Vec<u8>), String>)
    ensures
        match result {
            Ok((width, height, data)) => data@.len() == frame::frame_bytes(
                FrameSize { width, height },
            ) && decoding_gives(file@, Ok((width, height, data@))),
            Err(message) => decoding_gives(file@, Err(message@)),
        },
{
    match image::load_from_memory(file) {
        Ok(picture) => {
            let rgba = picture.to_rgba8();
            Ok((rgba.width(), rgba.height(), rgba.into_raw()))
        },
        Err(error) => Err(error.to_string()),
    }
}

/// Whether `image::imageops::resize` with the Lanczos filter may give these bytes for a square
/// picture of `size` from this picture. The filter works in floating point, so the exact bytes
/// are the machine's.
pub uninterp spec fn lanczos_resize_gives(
    result: Seq<u8>,
    data: Seq<u8>,
    width: u32,
    height: u32,
    size: u32,
) -> bool;

/// `image::imageops::resize` with `FilterType::Lanczos3`: the picture at another size, four bytes
/// for each pixel.
#[verifier::external_body]
fn lanczos_resize(data: Vec<u8>, width: u32, height: u32, size: u32) -> (resized: Vec<u8>)
    requires
        data@.len() == frame::frame_bytes(FrameSize { width, height }),
        0 < size <= MAX_PREPARED_AVATAR_SIZE,
        width > 0,
        height > 0,
    ensures
        resized@.len() == frame::frame_bytes(FrameSize { width: size, height: size }),
        lanczos_resize_gives(resized@, data@, width, height, size),
{
    let picture = image::RgbaImage::from_raw(width, height, data).expect("whole picture");
    image::imageops::resize(&picture, size, size, image::imageops::FilterType::Lanczos3).into_raw()
}

/// Whether `Hash::hash` for a byte slice may take a hasher that was fed with `before` to one that
/// was fed with `after`. The length is fed as the machine holds it, so the exact bytes are the
/// machine's.
pub uninterp spec fn slice_hash_feeds(
    data: Seq<u8>,
    before: Seq<Seq<u8>>,
    after: Seq<Seq<u8>>,
) -> bool;

/// `Hash::hash` for a byte slice: feeds the bytes to a hasher. What exactly is fed is left unsaid.
#[verifier::external_body]
fn feed_hasher(data: &[u8], hasher: &mut DefaultHasher)
    ensures
        slice_hash_feeds(data@, old(hasher)@, final(hasher)@),
{
    data.hash(hasher);
}

#[derive(Debug)]
pub enum AvatarAsset {
    Image(Pixmap),
    Placeholder,
}

#[derive(Debug, Clone, Copy, PartialEq, Eq, Structural)]
pub struct AvatarStyle {
    pub background: ClearColor,
    pub placeholder: ClearColor,
    pub radius: Option<i32>,
    pub placeholder_padding: Option<i32>,
    pub ring: Option<BorderStyle>,
    pub shadow: Option<ShadowStyle>,
}

impl AvatarStyle {
    pub fn new(background: ClearColor, placeholder: ClearColor) -> (style: Self)
        ensures
            style == (AvatarStyle {
                background,
                placeholder,
                radius: None,
                placeholder_padding: None,
                ring: None,
                shadow: None,
            }),
    {
        Self {
            background,
            placeholder,
            radius: None,
            placeholder_padding: None,
            ring: None,
            shadow: None,
        }
    }

    pub fn with_placeholder_padding(self, placeholder_padding: i32) -> (style: Self)
        ensures
            style == (AvatarStyle { placeholder_padding: Some(placeholder_padding), ..self }),
    {
        Self { placeholder_padding: Some(placeholder_padding), ..self }
    }

    pub fn with_ring(self, ring: BorderStyle) -> (style: Self)
        ensures
            style == (AvatarStyle { ring: Some(ring), ..self }),
    {
        Self { ring: Some(ring), ..self }
    }

    pub fn with_shadow(self, shadow: ShadowStyle) -> (style: Self)
        ensures
            style == (AvatarStyle { shadow: Some(shadow), ..self }),
    {
        Self { shadow: Some(shadow), ..self }
    }

    pub fn with_radius(self, radius: i32) -> (style: Self)
        ensures
            style == (AvatarStyle { radius: Some(radius), ..self }),
    {
        Self { radius: Some(radius), ..self }
    }
}

/// A value moved into a range.
pub open spec fn limited(value: int, low: int, high: int) -> int {
    if value < low {
        low
    } else if value > high {
        high
    } else {
        value
    }
}

/// Half of a size, nothing where it is negative.
pub open spec fn half_size(size: int) -> int {
    if size >= 0 {
        size / 2
    } else {
        0
    }
}

/// The corner radius of an avatar: the configured one up to half the size, else a circle.
pub fn resolved_avatar_radius(size: i32, configured_radius: Option<i32>) -> (radius: i32)
    ensures
        radius == match configured_radius {
            Some(configured) => limited(configured as int, 0, half_size(size as int)),
            None => half_size(size as int),
        },
{
    let half: i32 = if size >= 0 {
        size / 2
    } else {
        0
    };
    match configured_radius {
        Some(configured) => if configured < 0 {
            0
        } else if configured > half {
            half
        } else {
            configured
        },
        None => half,
    }
}

/// The largest padding of a placeholder icon of a size.
pub open spec fn third_of(size: u32) -> int {
    if shape::signed_extent(size) >= 0 {
        shape::signed_extent(size) / 3
    } else {
        0
    }
}

/// The padding of the placeholder icon: the configured one, else a tenth of the size between 6
/// and 14, at most a third of the size.
pub fn style_placeholder_padding(size: u32, configured_padding: Option<i32>) -> (padding: i32)
    requires
        shape::signed_extent(size) > -3,
    ensures
        padding == limited(
            match configured_padding {
                Some(configured) => configured as int,
                None => if shape::signed_extent(size) >= 0 {
                    limited(shape::signed_extent(size) / 10, 6, 14)
                } else {
                    6
                },
            },
            0,
            third_of(size),
        ),
{
    let extent: i32 = signed(size);
    let tenth: i32 = if extent >= 0 {
        extent / 10
    } else {
        0
    };
    let third: i32 = if extent >= 0 {
        extent / 3
    } else {
        0
    };
    let wanted: i32 = match configured_padding {
        Some(configured) => configured,
        None => if tenth < 6 {
            6
        } else if tenth > 14 {
            14
        } else {
            tenth
        },
    };
    if wanted < 0 {
        0
    } else if wanted > third {
        third
    } else {
        wanted
    }
}

/// The shape behind an avatar.
#[derive(Debug, Clone, Copy, PartialEq, Eq, Structural)]
pub enum AvatarOutline {
    Circle { center_x: i32, center_y: i32, radius: i32 },
    Pill { rect: Rect, radius: i32 },
}

/// Where the parts of an avatar are drawn.
#[derive(Debug, Clone, Copy, PartialEq, Eq, Structural)]
pub struct AvatarPlan {
    pub outline: AvatarOutline,
    pub content_left: i32,
    pub content_top: i32,
    pub content_size: u32,
    pub content_radius: i32,
}

/// Twice the thickness of the ring.
pub open spec fn ring_inset(style: AvatarStyle) -> int {
    match style.ring {
        Some(ring) => if ring.thickness > 0 {
            ring.thickness * 2
        } else {
            0
        },
        None => 0,
    }
}

pub open spec fn is_i32(value: int) -> bool {
    i32::MIN <= value <= i32::MAX
}

/// The side of what is drawn inside the ring.
pub open spec fn content_side(size: int, style: AvatarStyle) -> int {
    let inner = size - ring_inset(style) * 2;
    if inner < 1 {
        1
    } else {
        inner
    }
}

/// Whether all coordinates of an avatar fit the numbers they are kept in.
pub open spec fn avatar_fits(center_x: i32, top_y: i32, size: u32, style: AvatarStyle) -> bool {
    &&& size <= i32::MAX
    &&& is_i32(center_x - size as int / 2)
    &&& is_i32(top_y + size as int / 2)
    &&& is_i32(ring_inset(style) * 2)
    &&& is_i32(top_y + ring_inset(style))
    &&& is_i32(center_x - content_side(size as int, style) / 2)
}

/// The radius of the outline of an avatar.
pub open spec fn outline_radius(size: int, style: AvatarStyle) -> int {
    match style.radius {
        Some(radius) => limited(radius as int, 0, size / 2),
        None => size / 2,
    }
}

/// Where the parts of an avatar are drawn: a circle where the radius reaches half the size, else
/// a rounded square, and the content inside the ring.
pub open spec fn avatar_plan(center_x: i32, top_y: i32, size: u32, style: AvatarStyle) -> AvatarPlan {
    let side = size as int;
    let radius = outline_radius(side, style);
    let inset = ring_inset(style);
    let inner = content_side(side, style);
    AvatarPlan {
        outline: if radius >= side / 2 {
            AvatarOutline::Circle {
                center_x,
                center_y: (top_y + side / 2) as i32,
                radius: (side / 2) as i32,
            }
        } else {
            AvatarOutline::Pill {
                rect: Rect {
                    x: (center_x - side / 2) as i32,
                    y: top_y,
                    width: side as i32,
                    height: side as i32,
                },
                radius: radius as i32,
            }
        },
        content_left: (center_x - inner / 2) as i32,
        content_top: (top_y + inset) as i32,
        content_size: inner as u32,
        content_radius: limited(radius - inset, 0, inner / 2) as i32,
    }
}

/// Plans where the parts of an avatar are drawn; nothing is drawn at size zero.
pub fn plan_avatar(center_x: i32, top_y: i32, size: u32, style: AvatarStyle) -> (plan: Option<
    AvatarPlan,
>)
    requires
        size > 0 ==> avatar_fits(center_x, top_y, size, style),
    ensures
        plan == if size == 0 {
            None
        } else {
            Some(avatar_plan(center_x, top_y, size, style))
        },
{
    if size == 0 {
        return None;
    }
    let side: i32 = signed(size);
    let radius: i32 = resolved_avatar_radius(side, style.radius);
    let outline = if radius >= side / 2 {
        AvatarOutline::Circle { center_x, center_y: top_y + side / 2, radius: side / 2 }
    } else {
        AvatarOutline::Pill { rect: Rect::new(center_x - side / 2, top_y, side, side), radius }
    };
    let inset: i32 = match style.ring {
        Some(ring) => if ring.thickness > 0 {
            ring.thickness * 2
        } else {
            0
        },
        None => 0,
    };
    let inner: i32 = if side - inset * 2 < 1 {
        1
    } else {
        side - inset * 2
    };
    let reduced: i32 = radius - inset;
    let content_radius: i32 = if reduced < 0 {
        0
    } else if reduced > inner / 2 {
        inner / 2
    } else {
        reduced
    };
    Some(
        AvatarPlan {
            outline,
            content_left: center_x - inner / 2,
            content_top: top_y + inset,
            content_size: inner as u32,
            content_radius,
        },
    )
}

/// The byte of a picture that the middle square has at an index.
pub open spec fn middle_square_byte(image: RgbaPixels, side: int, index: int) -> u8 {
    let left = (image.width - side) / 2;
    let top = (image.height - side) / 2;
    let x = index / 4 % side;
    let y = index / 4 / side;
    image.data@[((top + y) * image.width + left + x) * 4 + index % 4]
}

/// The shorter side of a picture.
pub open spec fn shorter_side(image: RgbaPixels) -> int {
    shape::min_int(image.width as int, image.height as int)
}

/// The middle square of a picture.
pub open spec fn middle_square(image: RgbaPixels) -> Seq<u8> {
    let side = shorter_side(image);
    Seq::new((side * side * 4) as nat, |i: int| middle_square_byte(image, side, i))
}

/// Where a byte of the middle square comes from lies inside the picture.
proof fn lemma_square_source(image: RgbaPixels, side: int, index: int)
    requires
        image.wf(),
        side == shorter_side(image),
        side > 0,
        0 <= index < side * side * 4,
    ensures
        ({
            let left = (image.width - side) / 2;
            let top = (image.height - side) / 2;
            let x = index / 4 % side;
            let y = index / 4 / side;
            &&& 0 <= x < side
            &&& 0 <= y < side
            &&& 0 <= (top + y) * image.width + left + x < image.width * image.height
            &&& 0 <= (top + y) * image.width <= image.width * image.height
        }),
{
    let left = (image.width - side) / 2;
    let top = (image.height - side) / 2;
    let pixel = index / 4;
    let x = pixel % side;
    let y = pixel / side;
    let width = image.width as int;
    let height = image.height as int;
    assert(0 <= x < side) by (nonlinear_arith)
        requires
            side > 0,
            x == pixel % side,
    ;
    assert(0 <= y < side) by (nonlinear_arith)
        requires
            side > 0,
            0 <= pixel < side * side,
            y == pixel / side,
    ;
    assert(top + y + 1 <= height);
    assert((top + y) * width + width <= width * height) by (nonlinear_arith)
        requires
            top + y + 1 <= height,
            width >= 0,
    ;
    assert(0 <= (top + y) * width) by (nonlinear_arith)
        requires
            0 <= top + y,
            width >= 0,
    ;
}

fn crop_middle_square(image: &RgbaPixels, side: u32) -> (data: Vec<u8>)
    requires
        image.wf(),
        side == shorter_side(*image),
        side > 0,
    ensures
        data@ == middle_square(*image),
        data@.len() == frame::frame_bytes(FrameSize { width: side, height: side }),
{
    let total: usize = image.data.len();
    proof {
        assert(side * side * 4 <= image.width * image.height * 4) by (nonlinear_arith)
            requires
                0 < side <= image.width,
                side <= image.height,
        ;
        assert(side * side >= 0) by (nonlinear_arith)
            requires
                side > 0,
        ;
    }
    let width: usize = image.width as usize;
    let left: usize = ((image.width - side) / 2) as usize;
    let top: usize = ((image.height - side) / 2) as usize;
    let wide: usize = side as usize;
    let count: usize = wide * wide * 4;
    let mut data: Vec<u8> = Vec::new();
    let mut index: usize = 0;
    while index < count
        invariant
            index <= count,
            count == side * side * 4,
            image.wf(),
            side == shorter_side(*image),
            side > 0,
            wide == side,
            width == image.width,
            left == (image.width - side) / 2,
            top == (image.height - side) / 2,
            total == image.data@.len(),
            data@.len() == index,
            forall|i: int|
                0 <= i < index ==> data@[i] == middle_square_byte(*image, side as int, i),
        decreases count - index,
    {
        proof {
            lemma_square_source(*image, side as int, index as int);
        }
        let x: usize = index / 4 % wide;
        let y: usize = index / 4 / wide;
        let pixel: usize = (top + y) * width + left + x;
        data.push(image.data[pixel * 4 + index % 4]);
        index += 1;
    }
    assert(data@ =~= middle_square(*image));
    data
}

/// The picture an avatar is drawn from: the middle square, made smaller where it is larger than
/// needed.
pub open spec fn is_prepared_avatar(prepared: RgbaPixels, image: RgbaPixels) -> bool {
    if image.width == 0 || image.height == 0 {
        prepared == image
    } else {
        let side = shorter_side(image);
        if side <= MAX_PREPARED_AVATAR_SIZE {
            prepared.width == side && prepared.height == side && prepared.data@ == middle_square(
                image,
            )
        } else {
            prepared.width == MAX_PREPARED_AVATAR_SIZE && prepared.height
                == MAX_PREPARED_AVATAR_SIZE && lanczos_resize_gives(
                prepared.data@,
                middle_square(image),
                side as u32,
                side as u32,
                MAX_PREPARED_AVATAR_SIZE,
            )
        }
    }
}

/// Prepares the picture an avatar is drawn from.
pub fn prepare_avatar_image(image: RgbaPixels) -> (prepared: RgbaPixels)
    requires
        image.wf(),
    ensures
        prepared.wf(),
        is_prepared_avatar(prepared, image),
{
    if image.width == 0 || image.height == 0 {
        return image;
    }
    let side: u32 = if image.width <= image.height {
        image.width
    } else {
        image.height
    };
    let cropped = crop_middle_square(&image, side);
    if side <= MAX_PREPARED_AVATAR_SIZE {
        RgbaPixels { width: side, height: side, data: cropped }
    } else {
        RgbaPixels {
            width: MAX_PREPARED_AVATAR_SIZE,
            height: MAX_PREPARED_AVATAR_SIZE,
            data: lanczos_resize(cropped, side, side, MAX_PREPARED_AVATAR_SIZE),
        }
    }
}

/// Straight RGBA bytes with the colors scaled by alpha.
pub open spec fn premultiplied_bytes(data: Seq<u8>) -> Seq<u8> {
    Seq::new(
        data.len(),
        |i: int|
            if i % 4 == 3 {
                data[i]
            } else {
                frame::premultiplied(data[i], data[i / 4 * 4 + 3])
            },
    )
}

fn premultiply_pixels(data: Vec<u8>) -> (scaled: Vec<u8>)
    requires
        data@.len() % 4 == 0,
    ensures
        scaled@ == premultiplied_bytes(data@),
{
    let mut scaled: Vec<u8> = Vec::with_capacity(data.len());
    let mut index: usize = 0;
    while index < data.len()
        invariant
            index <= data@.len(),
            data@.len() % 4 == 0,
            scaled@.len() == index,
            forall|i: int| 0 <= i < index ==> scaled@[i] == premultiplied_bytes(data@)[i],
        decreases data@.len() - index,
    {
        if index % 4 == 3 {
            scaled.push(data[index]);
        } else {
            scaled.push(premultiply_channel(data[index], data[index / 4 * 4 + 3]));
        }
        index += 1;
    }
    assert(scaled@ =~= premultiplied_bytes(data@));
    scaled
}

/// Makes a picture that can be drawn.
pub fn rgba_to_pixmap(image: RgbaPixels) -> (result: Result<Pixmap>)
    requires
        image.wf(),
    ensures
        match result {
            Ok(pixmap) => pixmap_fits(image.size_spec(), image.data@.len()) && pixmap_size(pixmap)
                == image.size_spec() && pixmap_bytes(pixmap) == premultiplied_bytes(image.data@),
            Err(error) => !pixmap_fits(image.size_spec(), image.data@.len()) && error
                == RendererError::InvalidFrameSize(image.size_spec()),
        },
{
    proof {
        assert(image.width * image.height >= 0) by (nonlinear_arith)
            requires
                image.width >= 0,
                image.height >= 0,
        ;
    }
    let size = FrameSize::new(image.width, image.height);
    match pixmap_from_vec(premultiply_pixels(image.data), image.width, image.height) {
        Some(pixmap) => Ok(pixmap),
        None => Err(RendererError::InvalidFrameSize(size)),
    }
}

impl Clone for AvatarAsset {
    fn clone(&self) -> (asset: Self)
        ensures
            match (*self, asset) {
                (AvatarAsset::Image(pixmap), AvatarAsset::Image(copy)) => pixmap_bytes(copy)
                    == pixmap_bytes(pixmap) && pixmap_size(copy) == pixmap_size(pixmap),
                (AvatarAsset::Placeholder, AvatarAsset::Placeholder) => true,
                _ => false,
            },
    {
        match self {
            AvatarAsset::Image(pixmap) => AvatarAsset::Image(pixmap.clone()),
            AvatarAsset::Placeholder => AvatarAsset::Placeholder,
        }
    }
}

/// What tells an avatar picture apart: its size and the hash of its bytes.
pub open spec fn image_cache_key(size: FrameSize, hash: u64) -> Seq<char> {
    "image:"@ + text::decimal(size.width as nat) + "x"@ + text::decimal(size.height as nat) + ":"@
        + text::hex(hash as nat, 16)
}

/// The key for an avatar picture of this size with this hash.
pub fn image_key(size: FrameSize, hash: u64) -> (key: String)
    ensures
        key@ == image_cache_key(size, hash),
{
    let mut key = text::joined("image:", text::decimal_text(size.width as u128).as_str());
    key.append("x");
    key.append(text::decimal_text(size.height as u128).as_str());
    key.append(":");
    key.append(text::hex_text(hash, 16).as_str());
    key
}

/// Whether this comes of making an avatar of a picture: its prepared pixels, or the size that
/// no pixmap can have.
pub open spec fn is_avatar_of(result: Result<AvatarAsset>, image: RgbaPixels) -> bool {
    exists|prepared: RgbaPixels|
        #[trigger] is_prepared_avatar(prepared, image) && match result {
            Ok(AvatarAsset::Image(pixmap)) => pixmap_size(pixmap) == prepared.size_spec()
                && pixmap_bytes(pixmap) == premultiplied_bytes(prepared.data@),
            Err(RendererError::InvalidFrameSize(size)) => size == prepared.size_spec()
                && !pixmap_fits(size, prepared.data@.len()),
            _ => false,
        }
}

impl AvatarAsset {
    pub fn placeholder() -> (asset: Self)
        ensures
            asset == AvatarAsset::Placeholder,
    {
        Self::Placeholder
    }

    /// The avatar in an image file.
    pub fn decode(file: &[u8]) -> (result: Result<Self>)
        ensures
            exists|outcome: core::result::Result<(u32, u32, Seq<u8>), Seq<char>>|
                #[trigger] decoding_gives(file@, outcome) && match outcome {
                    Err(report) => result matches Err(RendererError::Image(message)) && message@
                        == report,
                    Ok((width, height, data)) => exists|image: RgbaPixels|
                        image.width == width && image.height == height && image.data@ == data
                            && #[trigger] is_avatar_of(result, image),
                },
    {
        match decode_picture(file) {
            Ok((width, height, data)) => {
                let image = RgbaPixels { width, height, data };
                let ghost source = image;
                let result = Self::from_picture(image);
                assert(is_avatar_of(result, source));
                assert(decoding_gives(file@, Ok((width, height, source.data@))));
                result
            },
            Err(message) => {
                assert(decoding_gives(file@, Err(message@)));
                Err(RendererError::Image(message))
            },
        }
    }

    /// The avatar that a picture makes.
    pub fn from_picture(image: RgbaPixels) -> (result: Result<Self>)
        requires
            image.wf(),
        ensures
            is_avatar_of(result, image),
    {
        let ghost source = image;
        let prepared = prepare_avatar_image(image);
        assert(is_prepared_avatar(prepared, source));
        match rgba_to_pixmap(prepared) {
            Ok(pixmap) => Ok(Self::Image(pixmap)),
            Err(error) => Err(error),
        }
    }

    /// The avatar in a cache file, nothing where the file is of another format.
    pub fn from_cache(file: &[u8]) -> (result: Result<Option<Self>>)
        ensures
            exists|read: CacheRead|
                #![trigger cache::reads_as(read, cache::avatar_magic(), file@)]
                cache::reads_as(read, cache::avatar_magic(), file@) && match read {
                    CacheRead::Picture(picture) => if pixmap_fits(
                        picture.size_spec(),
                        picture.data@.len(),
                    ) {
                        result matches Ok(Some(AvatarAsset::Image(pixmap))) && pixmap_size(pixmap)
                            == picture.size_spec() && pixmap_bytes(pixmap) == picture.data@
                    } else {
                        result matches Err(RendererError::InvalidFrameSize(size)) && size
                            == picture.size_spec()
                    },
                    CacheRead::Foreign => result matches Ok(None),
                    CacheRead::Unusable(size) => result matches Err(
                        RendererError::InvalidFrameSize(found),
                    ) && found == size,
                    CacheRead::Truncated => result matches Err(RendererError::Io(message))
                        && message@ == TRUNCATED_MESSAGE@,
                },
    {
        let read = cache::read_avatar_cache(file);
        assert(cache::reads_as(read, cache::avatar_magic(), file@));
        match read {
            CacheRead::Picture(picture) => {
                let size = FrameSize::new(picture.width, picture.height);
                match pixmap_from_vec(picture.data, picture.width, picture.height) {
                    Some(pixmap) => Ok(Some(Self::Image(pixmap))),
                    None => Err(RendererError::InvalidFrameSize(size)),
                }
            },
            CacheRead::Foreign => Ok(None),
            CacheRead::Unusable(size) => Err(RendererError::InvalidFrameSize(size)),
            CacheRead::Truncated => Err(RendererError::Io(TRUNCATED_MESSAGE.to_owned())),
        }
    }

    /// The bytes of the cache file for this avatar; a placeholder is not cached.
    pub fn to_cache(&self) -> (file: Option<Vec<u8>>)
        ensures
            match (*self, file) {
                (AvatarAsset::Image(pixmap), Some(file)) => file@ == cache::cache_bytes(
                    cache::avatar_magic(),
                    pixmap_size(pixmap).width,
                    pixmap_size(pixmap).height,
                    pixmap_bytes(pixmap),
                ),
                (AvatarAsset::Placeholder, None) => true,
                _ => false,
            },
    {
        match self {
            AvatarAsset::Image(pixmap) => Some(
                cache::encode_avatar_cache(
                    pixmap_width(pixmap),
                    pixmap_height(pixmap),
                    pixmap_data(pixmap),
                ),
            ),
            AvatarAsset::Placeholder => None,
        }
    }

    /// What tells this avatar apart. The hash is the one of the standard library's hasher, whose
    /// algorithm is its own affair.
    pub fn cache_key(&self) -> (key: String)
        ensures
            match *self {
                AvatarAsset::Placeholder => key@ == "placeholder"@,
                AvatarAsset::Image(pixmap) => exists|fed: Seq<Seq<u8>>|
                    #[trigger] slice_hash_feeds(pixmap_bytes(pixmap), Seq::empty(), fed) && key@
                        == image_cache_key(pixmap_size(pixmap), DefaultHasher::spec_finish(fed)),
            },
    {
        match self {
            AvatarAsset::Placeholder => "placeholder".to_owned(),
            AvatarAsset::Image(pixmap) => {
                let mut hasher = DefaultHasher::new();
                feed_hasher(pixmap_data(pixmap), &mut hasher);
                let size = FrameSize::new(pixmap_width(pixmap), pixmap_height(pixmap));
                image_key(size, hasher.finish())
            },
        }
    }
}

/// A prepared avatar is a square no larger than needed, and never larger than the picture.
pub proof fn law_prepared_avatar_is_a_bounded_square(prepared: RgbaPixels, image: RgbaPixels)
    requires
        is_prepared_avatar(prepared, image),
        image.width > 0,
        image.height > 0,
    ensures
        prepared.width == prepared.height,
        prepared.width <= MAX_PREPARED_AVATAR_SIZE,
        prepared.width <= image.width,
        prepared.height <= image.height,
{
}

/// An opaque picture is drawn with the colors it has.
pub proof fn law_opaque_pictures_keep_their_colors(data: Seq<u8>)
    requires
        data.len() % 4 == 0,
        forall|i: int| 0 <= i < data.len() && i % 4 == 3 ==> #[trigger] data[i] == 255,
    ensures
        premultiplied_bytes(data) == data,
{
    assert forall|i: int| 0 <= i < data.len() implies premultiplied_bytes(data)[i] == data[i] by {
        assert(data[i / 4 * 4 + 3] == 255);
    }
    assert(premultiplied_bytes(data) =~= data);
}

/// A prepared avatar is the middle of its picture, not stretched: what is cut off on two opposite
/// sides differs by one pixel at most.
pub proof fn law_avatar_is_the_middle_of_its_picture(
    image: RgbaPixels,
    prepared: RgbaPixels,
    x: int,
    y: int,
    channel: int,
)
    requires
        is_prepared_avatar(prepared, image),
        0 < image.width <= image.height && image.width <= 512 || 0 < image.height <= image.width
            && image.height <= 512,
        0 <= x < prepared.width,
        0 <= y < prepared.height,
        0 <= channel < 4,
    ensures
        ({
            let side = prepared.width as int;
            let left = (image.width - side) / 2;
            let top = (image.height - side) / 2;
            &&& prepared.height == side
            &&& side == image.width || side == image.height
            &&& side <= image.width && side <= image.height
            &&& prepared.data@[(y * side + x) * 4 + channel] == image.data@[((top + y) * image.width
                + left + x) * 4 + channel]
        }),
{
    let side = prepared.width as int;
    let pixel = y * side + x;
    let at = pixel * 4 + channel;
    assert(0 <= pixel < side * side) by (nonlinear_arith)
        requires
            pixel == y * side + x,
            0 <= x < side,
            0 <= y < side,
    ;
    assert(at / 4 == pixel && at % 4 == channel);
    vstd::arithmetic::div_mod::lemma_fundamental_div_mod_converse(pixel, side, y, x);
}

/// What a pixel shows is scaled by its own opacity, which is kept.
pub proof fn law_avatar_pixels_are_scaled_by_their_opacity(data: Seq<u8>, pixel: int, channel: int)
    requires
        0 <= pixel,
        pixel * 4 + 4 <= data.len(),
        0 <= channel < 3,
    ensures
        ({
            let at = pixel * 4;
            let scaled = premultiplied_bytes(data);
            &&& scaled.len() == data.len()
            &&& scaled[at + 3] == data[at + 3]
            &&& -127 <= 255 * scaled[at + channel] - data[at + channel] * data[at + 3] <= 127
        }),
{
    let at = pixel * 4;
    assert((at + channel) / 4 * 4 == at && (at + channel) % 4 == channel && (at + 3) % 4 == 3);
    frame::law_channels_are_scaled_by_their_opacity(data[at + channel], data[at + 3]);
}

/// An avatar is drawn around its center, from its top down; inside the ring its content keeps the
/// same distance on every side, to the pixel, and is a square.
pub proof fn law_avatar_is_centered(center_x: i32, top_y: i32, size: u32, style: AvatarStyle)
    requires
        0 < size,
        avatar_fits(center_x, top_y, size, style),
        ring_inset(style) * 2 < size,
    ensures
        ({
            let plan = avatar_plan(center_x, top_y, size, style);
            let inset = match style.ring {
                Some(ring) => if ring.thickness > 0 {
                    2 * ring.thickness
                } else {
                    0
                },
                None => 0,
            };
            &&& plan.content_size == size - 2 * inset
            &&& plan.content_top == top_y + inset
            &&& 2 * plan.content_left == 2 * center_x - plan.content_size || 2 * plan.content_left
                == 2 * center_x - plan.content_size + 1
            &&& 0 <= 2 * plan.content_radius <= plan.content_size
            &&& match plan.outline {
                AvatarOutline::Circle { center_x: x, center_y, radius } => x == center_x && (2
                    * radius == size || 2 * radius == size - 1) && center_y == top_y + radius && (
                style.radius matches Some(configured) ==> configured >= radius || radius == 0),
                AvatarOutline::Pill { rect, radius } => {
                    &&& rect.width == size && rect.height == size && rect.y == top_y
                    &&& 2 * rect.x == 2 * center_x - size || 2 * rect.x == 2 * center_x - size + 1
                    &&& style.radius matches Some(configured) && (configured >= 0 ==> radius
                        == configured) && (configured < 0 ==> radius == 0)
                },
            }
        }),
{
}

} // verus!
