//! The plain lock screen that is shown when the usual one fails.

use crate::common::text;
use crate::renderer::avatar;
use crate::renderer::frame::{ClearColor, FrameSize};
use crate::renderer::shape;
use crate::renderer::shape::{clamp_i64, half_i64, signed, BorderStyle, PillStyle, Rect};
use crate::ui::shell;
use crate::ui::shell::{ShellState, ShellStatus};
use crate::ui::text_cache;
use crate::ui::text_cache::{inner_width, TextBlock, TextStyle};
use vstd::prelude::*;

verus! {

pub open spec fn background_color() -> ClearColor {
    ClearColor { red: 12, green: 14, blue: 18, alpha: 255 }
}

pub open spec fn foreground_color() -> ClearColor {
    ClearColor { red: 244, green: 247, blue: 251, alpha: 242 }
}

pub open spec fn muted_color() -> ClearColor {
    ClearColor { red: 179, green: 188, blue: 202, alpha: 190 }
}

pub open spec fn input_color() -> ClearColor {
    ClearColor { red: 31, green: 35, blue: 43, alpha: 238 }
}

pub open spec fn border_color() -> ClearColor {
    ClearColor { red: 150, green: 164, blue: 184, alpha: 184 }
}

pub open spec fn pending_color() -> ClearColor {
    ClearColor { red: 147, green: 197, blue: 253, alpha: 226 }
}

pub open spec fn rejected_color() -> ClearColor {
    ClearColor { red: 248, green: 113, blue: 113, alpha: 230 }
}

/// The background of the plain lock screen.
pub fn emergency_background() -> (color: ClearColor)
    ensures
        color == background_color(),
{
    ClearColor::opaque(12, 14, 18)
}

fn foreground() -> (color: ClearColor)
    ensures
        color == foreground_color(),
{
    ClearColor::rgba(244, 247, 251, 242)
}

fn muted() -> (color: ClearColor)
    ensures
        color == muted_color(),
{
    ClearColor::rgba(179, 188, 202, 190)
}

/// A scale of at least one.
pub open spec fn at_least_one(scale: u32) -> u32 {
    if scale == 0 {
        1
    } else {
        scale
    }
}

/// A length at a scale, kept within the numbers that can be drawn with.
pub open spec fn scaled_length(value: int, scale: u32) -> int {
    shape::clamped(value * shape::signed_extent(at_least_one(scale))) as int
}

pub fn scaled(value: i32, scale: u32) -> (length: i32)
    ensures
        length == scaled_length(value as int, scale),
{
    let factor: i32 = signed(if scale == 0 {
        1
    } else {
        scale
    });
    assert(-0x4000_0000_0000_0000 <= value * factor <= 0x4000_0000_0000_0000) by (nonlinear_arith)
        requires
            -0x8000_0000 <= value <= 0x7fff_ffff,
            -0x8000_0000 <= factor <= 0x7fff_ffff,
    ;
    clamp_i64(value as i64 * factor as i64)
}

/// Where the parts of the plain lock screen are.
#[derive(Debug, Clone, Copy, PartialEq, Eq, Structural)]
pub struct EmergencyLayout {
    pub center_x: i32,
    pub title_y: i32,
    pub hint_y: i32,
    pub status_y: i32,
    pub input: Rect,
}

/// The width of the password input: the frame without its margins, within limits.
pub open spec fn emergency_input_width(size: FrameSize, scale: u32) -> int {
    avatar::limited(
        shape::signed_extent(size.width) - scaled_length(64, scale),
        scaled_length(260, scale),
        scaled_length(440, scale),
    )
}

/// The top of the password input.
pub open spec fn emergency_input_top(size: FrameSize, scale: u32) -> int {
    shape::half(shape::signed_extent(size.height)) - scaled_length(56, scale) / 2 + scaled_length(
        22,
        scale,
    )
}

/// Whether all coordinates fit the numbers they are kept in.
pub open spec fn emergency_layout_fits(size: FrameSize, scale: u32) -> bool {
    let top = emergency_input_top(size, scale);
    let width = emergency_input_width(size, scale);
    let center = shape::half(shape::signed_extent(size.width));
    &&& scale <= i32::MAX
    &&& avatar::is_i32(shape::signed_extent(size.width) - scaled_length(64, scale))
    &&& avatar::is_i32(top)
    &&& avatar::is_i32(top - scaled_length(72, scale))
    &&& avatar::is_i32(top + scaled_length(56, scale) + scaled_length(18, scale))
    &&& avatar::is_i32(center - width / 2)
}

/// Where the parts of the plain lock screen are: the input a little below the middle, the title
/// and the hint above it, the status below it.
pub open spec fn emergency_layout(size: FrameSize, scale: u32) -> EmergencyLayout {
    let top = emergency_input_top(size, scale);
    let width = emergency_input_width(size, scale);
    let center = shape::half(shape::signed_extent(size.width));
    EmergencyLayout {
        center_x: center as i32,
        title_y: (top - scaled_length(72, scale)) as i32,
        hint_y: (top - scaled_length(34, scale)) as i32,
        status_y: (top + scaled_length(56, scale) + scaled_length(18, scale)) as i32,
        input: Rect {
            x: (center - width / 2) as i32,
            y: top as i32,
            width: width as i32,
            height: scaled_length(56, scale) as i32,
        },
    }
}

proof fn lemma_scaled_order(scale: u32)
    requires
        scale <= i32::MAX,
    ensures
        0 < scaled_length(18, scale) <= scaled_length(22, scale) <= scaled_length(34, scale)
            <= scaled_length(56, scale) <= scaled_length(64, scale) <= scaled_length(72, scale)
            <= scaled_length(260, scale) <= scaled_length(440, scale),
{
}

impl EmergencyLayout {
    pub fn new(size: FrameSize, scale: u32) -> (layout: Self)
        requires
            emergency_layout_fits(size, scale),
        ensures
            layout == emergency_layout(size, scale),
    {
        proof {
            lemma_scaled_order(scale);
        }
        let wanted: i32 = signed(size.width) - scaled(64, scale);
        let low: i32 = scaled(260, scale);
        let high: i32 = scaled(440, scale);
        let width: i32 = if wanted < low {
            low
        } else if wanted > high {
            high
        } else {
            wanted
        };
        let height: i32 = scaled(56, scale);
        let center_x: i64 = half_i64(signed(size.width) as i64);
        let center_y: i64 = half_i64(signed(size.height) as i64);
        let top: i64 = center_y - height as i64 / 2 + scaled(22, scale) as i64;
        Self {
            center_x: center_x as i32,
            title_y: (top - scaled(72, scale) as i64) as i32,
            hint_y: (top - scaled(34, scale) as i64) as i32,
            status_y: (top + height as i64 + scaled(18, scale) as i64) as i32,
            input: Rect::new(
                (center_x - width as i64 / 2) as i32,
                top as i32,
                width,
                height,
            ),
        }
    }
}

/// A laid-out text and where it is drawn.
#[derive(Debug, Clone, Copy, PartialEq, Eq, Structural)]
pub struct PlacedText {
    pub block: TextBlock,
    pub x: i32,
    pub y: i32,
}

/// What of the plain lock screen stays the same while a password is typed.
#[derive(Debug, Clone, Copy, PartialEq, Eq, Structural)]
pub struct EmergencyStatic {
    pub title: PlacedText,
    pub hint: PlacedText,
    pub input: Rect,
    pub style: PillStyle,
}

/// What stands in the password input.
#[derive(Debug, Clone, Copy, PartialEq, Eq, Structural)]
pub enum EmergencyInput {
    Placeholder(PlacedText),
    Masked { rect: Rect, count: usize, focused: bool },
}

/// What of the plain lock screen changes while a password is typed.
#[derive(Debug, Clone, Copy, PartialEq, Eq, Structural)]
pub struct EmergencyDynamic {
    pub input: EmergencyInput,
    pub status: Option<PlacedText>,
}

/// The look of the dots that stand for typed characters.
#[derive(Debug, Clone, Copy, PartialEq, Eq, Structural)]
pub struct MaskedInputStyle {
    pub color: ClearColor,
    pub bullet_size: i32,
    pub spacing: i32,
    pub horizontal_padding: i32,
}

/// The style of a text of a size at a scale.
pub open spec fn emergency_text_style(color: ClearColor, size: u32, scale: u32) -> TextStyle {
    TextStyle { color, size: (size * at_least_one(scale)) as u32, line_spacing: 0 }
}

fn text_style(color: ClearColor, size: u32, scale: u32) -> (style: TextStyle)
    requires
        size * at_least_one(scale) <= u32::MAX,
    ensures
        style == emergency_text_style(color, size, scale),
{
    let factor: u32 = if scale == 0 {
        1
    } else {
        scale
    };
    TextStyle { color, size: size * factor, line_spacing: 0 }
}

/// The left edge of a text that is drawn around a column.
pub open spec fn centered_x(center_x: i32, block: TextBlock) -> int {
    center_x - shape::half(shape::signed_extent(block.width))
}

fn centered(center_x: i32, y: i32, block: TextBlock) -> (placed: PlacedText)
    ensures
        placed == (PlacedText { block, x: shape::clamped(centered_x(center_x, block)), y }),
{
    let x: i64 = center_x as i64 - half_i64(signed(block.width) as i64);
    PlacedText { block, x: clamp_i64(x), y }
}

/// Whether a text was laid out, or could have been, as asked for.
pub open spec fn fits<F: Fn(&str, TextStyle, u32) -> TextBlock>(
    fitted: F,
    words: Seq<char>,
    style: TextStyle,
    width: u32,
    block: TextBlock,
) -> bool {
    exists|shown: &str|
        shown@ == words && #[trigger] call_ensures(fitted, (shown, style, width), block)
}

/// The frame border of the password input: the refusal stands out, else the focus does.
pub open spec fn emergency_border(core: shell::ShellCore) -> ClearColor {
    if core.status is Rejected {
        rejected_color()
    } else if core.focused {
        border_color()
    } else {
        ClearColor { alpha: 128, ..border_color() }
    }
}

/// How the password input is drawn.
pub open spec fn emergency_pill(core: shell::ShellCore) -> PillStyle {
    PillStyle {
        fill: input_color(),
        radius: Some(scaled_length(16, core.render_scale) as i32),
        border: Some(
            BorderStyle {
                color: emergency_border(core),
                thickness: scaled_length(2, core.render_scale) as i32,
            },
        ),
        shadow: None,
    }
}

/// What the plain lock screen says of an authentication.
pub open spec fn emergency_words(status: ShellStatus) -> Option<Seq<char>> {
    match status {
        ShellStatus::Idle => None,
        ShellStatus::Pending { shown, .. } => if shown {
            Some("Checking..."@)
        } else {
            None
        },
        ShellStatus::Rejected { displayed_retry_seconds, .. } => Some(
            refusal_words(displayed_retry_seconds),
        ),
    }
}

/// What is said of a refusal in few words.
pub open spec fn refusal_words(retry_seconds: Option<u64>) -> Seq<char> {
    match retry_seconds {
        Some(seconds) => if seconds > 0 {
            "Try again in "@ + text::decimal(seconds as nat) + "s"@
        } else {
            "Authentication failed"@
        },
        None => "Authentication failed"@,
    }
}

/// What is said of a refusal in few words.
pub(crate) fn refusal_text(retry_seconds: Option<u64>) -> (words: String)
    ensures
        words@ == refusal_words(retry_seconds),
{
    match retry_seconds {
        Some(seconds) if seconds > 0 => {
            let mut words = text::joined(
                "Try again in ",
                text::decimal_text(seconds as u128).as_str(),
            );
            words.append("s");
            words
        },
        _ => "Authentication failed".to_owned(),
    }
}

impl ShellState {
    /// What of the plain lock screen stays the same while a password is typed.
    pub fn render_emergency_static_overlay<F: Fn(&str, TextStyle, u32) -> TextBlock>(
        &self,
        size: FrameSize,
        fitted: &F,
    ) -> (drawn: EmergencyStatic)
        requires
            emergency_layout_fits(size, self.core.render_scale),
            28 * at_least_one(self.core.render_scale) <= u32::MAX,
            text_cache::lays_fitted(*fitted),
        ensures
            ({
                let scale = self.core.render_scale;
                let layout = emergency_layout(size, scale);
                &&& drawn.input == layout.input
                &&& drawn.style == emergency_pill(self.core)
                &&& fits(
                    *fitted,
                    "Unlock"@,
                    emergency_text_style(foreground_color(), 28, scale),
                    layout.input.width as u32,
                    drawn.title.block,
                )
                &&& drawn.title.x == shape::clamped(centered_x(layout.center_x, drawn.title.block))
                &&& drawn.title.y == layout.title_y
                &&& fits(
                    *fitted,
                    "Emergency unlock mode"@,
                    emergency_text_style(muted_color(), 15, scale),
                    layout.input.width as u32,
                    drawn.hint.block,
                )
                &&& drawn.hint.x == shape::clamped(centered_x(layout.center_x, drawn.hint.block))
                &&& drawn.hint.y == layout.hint_y
            }),
    {
        let scale: u32 = self.core.render_scale;
        proof {
            lemma_scaled_order(scale);
        }
        let layout = EmergencyLayout::new(size, scale);
        let width: u32 = layout.input.width as u32;
        let title = fitted("Unlock", text_style(foreground(), 28, scale), width);
        let hint = fitted("Emergency unlock mode", text_style(muted(), 15, scale), width);
        EmergencyStatic {
            title: centered(layout.center_x, layout.title_y, title),
            hint: centered(layout.center_x, layout.hint_y, hint),
            input: layout.input,
            style: self.emergency_input_style(),
        }
    }

    /// What of the plain lock screen changes while a password is typed.
    pub fn render_emergency_dynamic_overlay<F: Fn(&str, TextStyle, u32) -> TextBlock>(
        &self,
        size: FrameSize,
        fitted: &F,
    ) -> (drawn: EmergencyDynamic)
        requires
            emergency_layout_fits(size, self.core.render_scale),
            16 * at_least_one(self.core.render_scale) <= u32::MAX,
            text_cache::lays_fitted(*fitted),
        ensures
            ({
                let scale = self.core.render_scale;
                let layout = emergency_layout(size, scale);
                &&& is_emergency_input(*self, layout.input, *fitted, drawn.input)
                &&& match (emergency_words(self.core.status), drawn.status) {
                    (Some(words), Some(status)) => fits(
                        *fitted,
                        words,
                        emergency_text_style(emergency_tint(self.core.status), 15, scale),
                        layout.input.width as u32,
                        status.block,
                    ) && status.x == shape::clamped(centered_x(layout.center_x, status.block))
                        && status.y == layout.status_y,
                    (None, None) => true,
                    _ => false,
                }
            }),
    {
        let scale: u32 = self.core.render_scale;
        proof {
            lemma_scaled_order(scale);
        }
        let layout = EmergencyLayout::new(size, scale);
        let input = self.render_emergency_input_content(layout.input, fitted);
        let status = match self.emergency_status_text() {
            Some(words) => {
                let style = text_style(self.emergency_status_color(), 15, scale);
                let block = fitted(words.as_str(), style, layout.input.width as u32);
                Some(centered(layout.center_x, layout.status_y, block))
            },
            None => None,
        };
        EmergencyDynamic { input, status }
    }

    fn render_emergency_input_content<F: Fn(&str, TextStyle, u32) -> TextBlock>(
        &self,
        rect: Rect,
        fitted: &F,
    ) -> (input: EmergencyInput)
        requires
            16 * at_least_one(self.core.render_scale) <= u32::MAX,
            text_cache::lays_fitted(*fitted),
        ensures
            is_emergency_input(*self, rect, *fitted, input),
    {
        let scale: u32 = self.core.render_scale;
        if self.secret.is_empty() {
            let block = fitted(
                "Password",
                text_style(muted(), 16, scale),
                inner_width(rect.width, 48),
            );
            let x: i64 = rect.x as i64 + scaled(22, scale) as i64;
            let y: i64 = rect.y as i64 + half_i64(
                rect.height as i64 - signed(block.height) as i64,
            ) - 1;
            return EmergencyInput::Placeholder(
                PlacedText { block, x: clamp_i64(x), y: clamp_i64(y) },
            );
        }
        EmergencyInput::Masked {
            rect: Rect::new(rect.x, rect.y, rect.width, rect.height),
            count: self.secret.char_count(),
            focused: self.core.focused,
        }
    }

    pub fn emergency_input_style(&self) -> (style: PillStyle)
        ensures
            style == emergency_pill(self.core),
    {
        let border = if matches!(self.core.status, ShellStatus::Rejected { .. }) {
            ClearColor::rgba(248, 113, 113, 230)
        } else if self.core.focused {
            ClearColor::rgba(150, 164, 184, 184)
        } else {
            ClearColor::rgba(150, 164, 184, 184).with_alpha(128)
        };
        PillStyle {
            fill: ClearColor::rgba(31, 35, 43, 238),
            radius: Some(scaled(16, self.core.render_scale)),
            border: Some(BorderStyle::new(border, scaled(2, self.core.render_scale))),
            shadow: None,
        }
    }

    /// The look of the dots at the shell's scale; `base` is their look at scale one.
    pub fn emergency_mask_style(&self, base: MaskedInputStyle) -> (style: MaskedInputStyle)
        ensures
            style == (MaskedInputStyle {
                color: foreground_color(),
                bullet_size: scaled_length(base.bullet_size as int, self.core.render_scale) as i32,
                spacing: scaled_length(base.spacing as int, self.core.render_scale) as i32,
                horizontal_padding: scaled_length(22, self.core.render_scale) as i32,
            }),
    {
        MaskedInputStyle {
            color: foreground(),
            bullet_size: scaled(base.bullet_size, self.core.render_scale),
            spacing: scaled(base.spacing, self.core.render_scale),
            horizontal_padding: scaled(22, self.core.render_scale),
        }
    }

    pub fn emergency_status_text(&self) -> (words: Option<String>)
        ensures
            match (words, emergency_words(self.core.status)) {
                (Some(words), Some(expected)) => words@ == expected,
                (None, None) => true,
                _ => false,
            },
    {
        match self.core.status {
            ShellStatus::Idle => None,
            ShellStatus::Pending { shown, .. } => if shown {
                Some("Checking...".to_owned())
            } else {
                None
            },
            ShellStatus::Rejected { displayed_retry_seconds, .. } => Some(
                refusal_text(displayed_retry_seconds),
            ),
        }
    }

    pub fn emergency_status_color(&self) -> (color: ClearColor)
        ensures
            color == emergency_tint(self.core.status),
    {
        match self.core.status {
            ShellStatus::Pending { .. } => ClearColor::rgba(147, 197, 253, 226),
            ShellStatus::Rejected { .. } => ClearColor::rgba(248, 113, 113, 230),
            ShellStatus::Idle => muted(),
        }
    }
}

/// The color of what is said of an authentication.
pub open spec fn emergency_tint(status: ShellStatus) -> ClearColor {
    match status {
        ShellStatus::Pending { .. } => pending_color(),
        ShellStatus::Rejected { .. } => rejected_color(),
        ShellStatus::Idle => muted_color(),
    }
}

/// What stands in the password input: a placeholder while nothing is typed, else one dot for each
/// character.
pub open spec fn is_emergency_input<F: Fn(&str, TextStyle, u32) -> TextBlock>(
    state: ShellState,
    rect: Rect,
    fitted: F,
    input: EmergencyInput,
) -> bool {
    let scale = state.core.render_scale;
    match input {
        EmergencyInput::Placeholder(placed) => {
            &&& state.secret@.len() == 0
            &&& fits(
                fitted,
                "Password"@,
                emergency_text_style(muted_color(), 16, scale),
                text_cache::placeholder_width(rect.width),
                placed.block,
            )
            &&& placed.x == shape::clamped(rect.x + scaled_length(22, scale))
            &&& placed.y == shape::clamped(
                rect.y + shape::half(rect.height - shape::signed_extent(placed.block.height)) - 1,
            )
        },
        EmergencyInput::Masked { rect: area, count, focused } => {
            &&& state.secret@.len() > 0
            &&& area == rect
            &&& count == state.secret@.len()
            &&& focused == state.core.focused
        },
    }
}

/// Lengths of the plain lock screen grow with the scale, which counts as one where it is none.
pub proof fn law_lengths_grow_with_the_scale(value: int, scale: u32)
    requires
        0 <= value,
        value * scale <= i32::MAX,
        value <= i32::MAX,
        scale <= i32::MAX,
    ensures
        scale > 0 ==> scaled_length(value, scale) == value * scale,
        scale == 0 ==> scaled_length(value, scale) == value,
{
    assert(value * 1 == value);
    assert(value * scale >= 0) by (nonlinear_arith)
        requires
            value >= 0,
            scale >= 0,
    ;
}

/// On an unscaled frame the plain input is 56 points high and as wide as the frame leaves beside a
/// margin of 64, between 260 and 440 points; it is centered, and the words stand above and below
/// it.
pub proof fn law_plain_input_is_centered(size: FrameSize)
    requires
        size.width <= 0x1000_0000,
        size.height <= 0x1000_0000,
    ensures
        ({
            let layout = emergency_layout(size, 1);
            let input = layout.input;
            &&& input.height == 56
            &&& 324 <= size.width <= 504 ==> input.width == size.width - 64
            &&& size.width < 324 ==> input.width == 260
            &&& size.width > 504 ==> input.width == 440
            &&& -2 <= (2 * input.x + input.width) - size.width <= 2
            &&& -1 <= 2 * layout.center_x - size.width <= 0
            &&& -1 <= (2 * input.y + 56) - (size.height + 44) <= 0
            &&& layout.title_y == input.y - 72
            &&& layout.hint_y == input.y - 34
            &&& layout.status_y == input.y + input.height + 18
        }),
{
}

/// The plain lock screen tells of a refusal, with the seconds left where there are any, and of a
/// check that is shown; it is silent otherwise, and each has its own color.
pub proof fn law_plain_status_tells_what_goes_on(status: ShellStatus, seconds: u64)
    ensures
        status is Idle ==> emergency_words(status) is None,
        status is Rejected ==> emergency_words(status) is Some,
        status matches ShellStatus::Pending { shown, .. } ==> (emergency_words(status) is Some
            <==> shown),
        refusal_words(None) == "Authentication failed"@,
        seconds > 0 ==> refusal_words(Some(seconds)) == "Try again in "@ + text::decimal(
            seconds as nat,
        ) + "s"@,
        seconds == 0 ==> refusal_words(Some(seconds)) == refusal_words(None),
        status is Rejected <==> emergency_tint(status) == rejected_color(),
        status is Pending <==> emergency_tint(status) == pending_color(),
{
}

/// The border of the plain input shows a refusal before the focus, and is weaker without either.
pub proof fn law_plain_border_shows_the_refusal(core: shell::ShellCore)
    ensures
        core.status is Rejected ==> emergency_border(core) == rejected_color(),
        !(core.status is Rejected) && core.focused ==> emergency_border(core) == border_color(),
        !(core.status is Rejected) && !core.focused ==> emergency_border(core).alpha
            < border_color().alpha && emergency_border(core).red == border_color().red
            && emergency_border(core).green == border_color().green && emergency_border(core).blue
            == border_color().blue,
        background_color().alpha == 255,
{
}

/// Texts of the plain lock screen grow with the scale, and the input has round corners and a border
/// that grow with it too.
pub proof fn law_plain_texts_grow_with_the_scale(core: shell::ShellCore, color: ClearColor, size: u32)
    requires
        size * core.render_scale <= u32::MAX,
        16 * core.render_scale <= i32::MAX,
        core.render_scale > 0,
    ensures
        ({
            let style = emergency_text_style(color, size, core.render_scale);
            &&& style.color == color && style.size == size * core.render_scale && style.line_spacing
                == 0
        }),
        emergency_pill(core).radius == Some((16 * core.render_scale) as i32),
        emergency_pill(core).border matches Some(border) && border.thickness == 2
            * core.render_scale,
        emergency_pill(core).shadow is None,
{
    assert(size * core.render_scale >= 0) by (nonlinear_arith)
        requires
            size >= 0,
            core.render_scale >= 0,
    ;
}

} // verus!
