//! Frame sizes, colors and renderer errors.

use crate::common::text;
use vstd::prelude::*;

verus! {

/// Pixel dimensions for a render target.
#[derive(Debug, Clone, Copy, PartialEq, Eq, Structural)]
pub struct FrameSize {
    pub width: u32,
    pub height: u32,
}

/// Bytes of a frame at four bytes per pixel.
pub open spec fn frame_bytes(size: FrameSize) -> nat {
    (size.width * size.height * 4) as nat
}

impl FrameSize {
    /// Creates a new frame size value.
    pub fn new(width: u32, height: u32) -> (size: Self)
        ensures
            size == (FrameSize { width, height }),
    {
        Self { width, height }
    }

    /// Returns whether the frame area is empty.
    pub fn is_empty(self) -> (empty: bool)
        ensures
            empty == (self.width == 0 || self.height == 0),
    {
        self.width == 0 || self.height == 0
    }

    /// Returns the ARGB8888 byte length for the frame size.
    pub fn byte_len(self) -> (len: Option<usize>)
        ensures
            len == if frame_bytes(self) <= usize::MAX {
                Some(frame_bytes(self) as usize)
            } else {
                None
            },
    {
        assert(self.width * self.height <= 0xffff_ffff * 0xffff_ffff) by (nonlinear_arith)
            requires
                self.width <= 0xffff_ffff,
                self.height <= 0xffff_ffff,
        ;
        assert(0 <= self.width * self.height) by (nonlinear_arith)
            requires
                0 <= self.width,
                0 <= self.height,
        ;
        let bytes: u128 = self.width as u128 * self.height as u128 * 4;
        if bytes <= usize::MAX as u128 {
            Some(bytes as usize)
        } else {
            None
        }
    }
}

/// RGBA clear color for the lock scene.
#[derive(Debug, Clone, Copy, PartialEq, Eq, Structural)]
pub struct ClearColor {
    pub red: u8,
    pub green: u8,
    pub blue: u8,
    pub alpha: u8,
}

/// A channel scaled by an alpha value, rounded to the nearest step.
pub open spec fn premultiplied(channel: u8, alpha: u8) -> u8 {
    ((channel * alpha + 127) / 255) as u8
}

/// A color as the bytes of a pixel: blue, green, red and alpha, the colors scaled by alpha.
pub open spec fn color_bytes(color: ClearColor) -> Seq<u8> {
    seq![
        premultiplied(color.blue, color.alpha),
        premultiplied(color.green, color.alpha),
        premultiplied(color.red, color.alpha),
        color.alpha,
    ]
}

impl ClearColor {
    /// Creates an opaque RGB color.
    pub fn opaque(red: u8, green: u8, blue: u8) -> (color: Self)
        ensures
            color == (ClearColor { red, green, blue, alpha: 255 }),
    {
        Self { red, green, blue, alpha: u8::MAX }
    }

    /// Creates an RGBA color.
    pub fn rgba(red: u8, green: u8, blue: u8, alpha: u8) -> (color: Self)
        ensures
            color == (ClearColor { red, green, blue, alpha }),
    {
        Self { red, green, blue, alpha }
    }

    /// Returns the same color with a different alpha.
    pub fn with_alpha(self, alpha: u8) -> (color: Self)
        ensures
            color == (ClearColor { alpha, ..self }),
    {
        Self::rgba(self.red, self.green, self.blue, alpha)
    }

    pub fn to_argb8888_bytes(self) -> (bytes: [u8; 4])
        ensures
            bytes@ == color_bytes(self),
    {
        let red: u8 = premultiply_channel(self.red, self.alpha);
        let green: u8 = premultiply_channel(self.green, self.alpha);
        let blue: u8 = premultiply_channel(self.blue, self.alpha);
        let bytes: [u8; 4] = [blue, green, red, self.alpha];
        assert(bytes@ =~= color_bytes(self));
        bytes
    }
}

pub fn premultiply_channel(channel: u8, alpha: u8) -> (scaled: u8)
    ensures
        scaled == premultiplied(channel, alpha),
{
    assert(0 <= channel * alpha <= 255 * 255) by (nonlinear_arith)
        requires
            0 <= channel <= 255,
            0 <= alpha <= 255,
    ;
    ((channel as u16 * alpha as u16 + 127) / 255) as u8
}

/// A channel with the scaling by an alpha value undone, rounded and capped; nothing where alpha
/// is zero.
pub open spec fn unpremultiplied(channel: u8, alpha: u8) -> u8 {
    if alpha == 0 {
        0
    } else {
        let value = (channel * 255 + alpha as int / 2) / alpha as int;
        if value <= 255 {
            value as u8
        } else {
            255
        }
    }
}

pub fn unpremultiply_channel(channel: u8, alpha: u8) -> (restored: u8)
    ensures
        restored == unpremultiplied(channel, alpha),
{
    if alpha == 0 {
        return 0;
    }
    let value: u32 = (channel as u32 * 255 + alpha as u32 / 2) / alpha as u32;
    if value <= 255 {
        value as u8
    } else {
        255
    }
}

/// Drop-shadow parameters for bitmap primitives.
#[derive(Debug, Clone, Copy, PartialEq, Eq, Structural)]
pub struct ShadowStyle {
    pub color: ClearColor,
    pub offset_x: i32,
    pub offset_y: i32,
}

impl ShadowStyle {
    /// Creates a new shadow style.
    pub fn new(color: ClearColor, offset_x: i32, offset_y: i32) -> (style: Self)
        ensures
            style == (ShadowStyle { color, offset_x, offset_y }),
    {
        Self { color, offset_x, offset_y }
    }
}

/// Shared renderer error type.
#[derive(Debug)]
pub enum RendererError {
    InvalidFrameSize(FrameSize),
    EmptyFrame,
    BufferSizeMismatch { target: FrameSize, overlay: FrameSize },
    BufferSlotsBusy,
    Io(String),
    ShmPool(String),
    Image(String),
}

/// Shared result type for rendering operations.
pub type Result<T> = core::result::Result<T, RendererError>;

/// A frame size as messages show it.
pub open spec fn size_text(size: FrameSize) -> Seq<char> {
    "FrameSize { width: "@ + text::decimal(size.width as nat) + ", height: "@ + text::decimal(
        size.height as nat,
    ) + " }"@
}

/// The message shown for a renderer error.
pub open spec fn renderer_error_text(error: RendererError) -> Seq<char> {
    match error {
        RendererError::InvalidFrameSize(size) => "frame size "@ + size_text(size)
            + " is invalid for ARGB8888 rendering"@,
        RendererError::EmptyFrame => "frame size must not be empty"@,
        RendererError::BufferSizeMismatch { target, overlay } => "buffer size mismatch: target "@
            + size_text(target) + ", overlay "@ + size_text(overlay),
        RendererError::BufferSlotsBusy =>
            "all SHM buffer slots are still in use by the compositor"@,
        RendererError::Io(message) => message@,
        RendererError::ShmPool(message) => message@,
        RendererError::Image(message) => message@,
    }
}

fn size_to_text(size: FrameSize) -> (shown: String)
    ensures
        shown@ == size_text(size),
{
    let mut shown = text::joined(
        "FrameSize { width: ",
        text::decimal_text(size.width as u128).as_str(),
    );
    shown.append(", height: ");
    shown.append(text::decimal_text(size.height as u128).as_str());
    shown.append(" }");
    shown
}

impl RendererError {
    /// The message shown for this error.
    pub fn to_string(&self) -> (shown: String)
        ensures
            shown@ == renderer_error_text(*self),
    {
        match self {
            RendererError::InvalidFrameSize(size) => {
                let mut shown = text::joined("frame size ", size_to_text(*size).as_str());
                shown.append(" is invalid for ARGB8888 rendering");
                shown
            },
            RendererError::EmptyFrame => "frame size must not be empty".to_owned(),
            RendererError::BufferSizeMismatch { target, overlay } => {
                let mut shown = text::joined(
                    "buffer size mismatch: target ",
                    size_to_text(*target).as_str(),
                );
                shown.append(", overlay ");
                shown.append(size_to_text(*overlay).as_str());
                shown
            },
            RendererError::BufferSlotsBusy =>
                "all SHM buffer slots are still in use by the compositor".to_owned(),
            RendererError::Io(message) => message.clone(),
            RendererError::ShmPool(message) => message.clone(),
            RendererError::Image(message) => message.clone(),
        }
    }
}

/// An opaque color keeps its channels.
pub proof fn law_opaque_colors_are_kept(channel: u8)
    ensures
        premultiplied(channel, 255) == channel,
        unpremultiplied(channel, 255) == channel,
{
}

/// A channel that was scaled by alpha comes through: restored and scaled again it is the same.
pub proof fn law_scaled_channels_are_restored(channel: u8, alpha: u8)
    requires
        0 < alpha,
        channel <= alpha,
    ensures
        premultiplied(unpremultiplied(channel, alpha), alpha) == channel,
{
    let value = channel * 255 + alpha as int / 2;
    let restored = value / (alpha as int);
    let rest = value % (alpha as int);
    vstd::arithmetic::div_mod::lemma_fundamental_div_mod(value, alpha as int);
    assert(restored <= 255) by (nonlinear_arith)
        requires
            value == alpha * restored + rest,
            0 <= rest,
            value < alpha * 256,
            0 < alpha,
    ;
    assert(restored >= 0) by (nonlinear_arith)
        requires
            value == alpha * restored + rest,
            rest < alpha,
            value >= 0,
            0 < alpha,
    ;
    assert(restored * alpha == value - rest) by (nonlinear_arith)
        requires
            value == alpha * restored + rest,
    ;
}

/// A channel is scaled by its opacity to the nearest whole value, and scaled back to the nearest;
/// where nothing is opaque there is no color to restore.
pub proof fn law_channels_are_scaled_by_their_opacity(channel: u8, alpha: u8)
    ensures
        -127 <= 255 * premultiplied(channel, alpha) - channel * alpha <= 127,
        0 < alpha && channel <= alpha ==> -(alpha as int) <= 2 * (alpha * unpremultiplied(
            channel,
            alpha,
        ) - 255 * channel) <= alpha,
        alpha == 0 ==> unpremultiplied(channel, alpha) == 0,
{
    assert(0 <= channel * alpha <= 65_025) by (nonlinear_arith)
        requires
            0 <= channel <= 255,
            0 <= alpha <= 255,
    ;
    if 0 < alpha && channel <= alpha {
        let a = alpha as int;
        let sum = channel * 255 + a / 2;
        let value = sum / a;
        let rest = sum % a;
        vstd::arithmetic::div_mod::lemma_fundamental_div_mod(sum, a);
        assert(value <= 255) by (nonlinear_arith)
            requires
                sum == a * value + rest,
                0 <= rest < a,
                sum <= 255 * a + a / 2,
                a > 0,
        ;
        assert(value >= 0) by (nonlinear_arith)
            requires
                sum == a * value + rest,
                0 <= rest < a,
                sum >= 0,
                a > 0,
        ;
        assert(unpremultiplied(channel, alpha) == value);
        assert(a * value == sum - rest);
    }
}

/// A color stands in memory as blue, green, red and opacity, in this order.
pub proof fn law_colors_stand_in_memory_order(color: ClearColor)
    ensures
        color_bytes(color).len() == 4,
        -127 <= 255 * color_bytes(color)[0] - color.blue * color.alpha <= 127,
        -127 <= 255 * color_bytes(color)[1] - color.green * color.alpha <= 127,
        -127 <= 255 * color_bytes(color)[2] - color.red * color.alpha <= 127,
        color_bytes(color)[3] == color.alpha,
{
    law_channels_are_scaled_by_their_opacity(color.blue, color.alpha);
    law_channels_are_scaled_by_their_opacity(color.green, color.alpha);
    law_channels_are_scaled_by_their_opacity(color.red, color.alpha);
}

/// A frame takes four bytes for each of its pixels, and one that is not empty takes some.
pub proof fn law_frames_take_four_bytes_a_pixel(size: FrameSize)
    ensures
        frame_bytes(size) == 4 * (size.width * size.height),
        size.width > 0 && size.height > 0 ==> frame_bytes(size) >= 4,
{
    assert(size.width * size.height * 4 == 4 * (size.width * size.height));
    if size.width > 0 && size.height > 0 {
        assert(size.width * size.height >= 1) by (nonlinear_arith)
            requires
                size.width > 0,
                size.height > 0,
        ;
    }
}

} // verus!
