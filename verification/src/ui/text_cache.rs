//! Laid-out texts, kept from frame to frame.

use crate::common::secret;
use crate::renderer::frame::ClearColor;
use crate::renderer::shape;
use crate::renderer::shape::signed;
use vstd::prelude::*;

verus! {

/// How a text is drawn.
#[derive(Debug, Clone, Copy, PartialEq, Eq, Structural)]
pub struct TextStyle {
    pub color: ClearColor,
    pub size: u32,
    pub line_spacing: u32,
}

/// A laid-out text: its extent, and where its glyphs are kept.
#[derive(Debug, Clone, Copy, PartialEq, Eq, Structural)]
pub struct TextBlock {
    pub width: u32,
    pub height: u32,
    pub glyphs: u64,
}

/// The part of a laid-out text that has ink.
#[derive(Debug, Clone, Copy, PartialEq, Eq, Structural)]
pub struct TextBounds {
    pub left: i32,
    pub top: i32,
    pub width: u32,
    pub height: u32,
}

/// What a laid-out text depends on.
#[derive(Debug)]
pub struct CachedTextKey {
    pub text: String,
    pub style: TextStyle,
    pub max_width: u32,
    pub min_scale: u32,
}

/// What a laid-out text depends on, by its characters.
pub ghost struct TextKey {
    pub text: Seq<char>,
    pub style: TextStyle,
    pub max_width: u32,
    pub min_scale: u32,
}

impl View for CachedTextKey {
    type V = TextKey;

    open spec fn view(&self) -> TextKey {
        TextKey {
            text: self.text@,
            style: self.style,
            max_width: self.max_width,
            min_scale: self.min_scale,
        }
    }
}

/// The text that was laid out last, and the result.
#[derive(Debug)]
pub struct CachedTextBlock {
    pub key: Option<CachedTextKey>,
    pub block: Option<TextBlock>,
}

/// What is remembered of a text.
pub open spec fn remembered(cache: CachedTextBlock) -> Option<(TextKey, TextBlock)> {
    match (cache.key, cache.block) {
        (Some(key), Some(block)) => Some((key@, block)),
        _ => None,
    }
}

/// Whether a result came about as it should: a text that is remembered is not laid out again,
/// and the result is remembered.
pub open spec fn resolved(
    before: CachedTextBlock,
    after: CachedTextBlock,
    key: TextKey,
    block: TextBlock,
) -> bool {
    &&& remembered(after) == Some((key, block))
    &&& match remembered(before) {
        Some((known, kept)) => known == key ==> block == kept && after == before,
        None => true,
    }
}

/// Whether this is the text that is remembered.
pub open spec fn remembers(cache: CachedTextBlock, key: TextKey) -> bool {
    remembered(cache) matches Some((known, _)) && known == key
}

/// Whether a text on one line came about as it should: remembered, else laid out.
pub open spec fn line_resolved<L: Fn(&str, TextStyle) -> TextBlock>(
    before: CachedTextBlock,
    after: CachedTextBlock,
    text: &str,
    style: TextStyle,
    block: TextBlock,
    layout: L,
) -> bool {
    let key = TextKey { text: text@, style, max_width: 0, min_scale: 0 };
    resolved(before, after, key, block) && (remembers(before, key) || call_ensures(
        layout,
        (text, style),
        block,
    ))
}

/// Whether a text of several lines came about as it should: remembered, else laid out.
pub open spec fn wrapped_resolved<W: Fn(&str, TextStyle, u32, u32) -> TextBlock>(
    before: CachedTextBlock,
    after: CachedTextBlock,
    text: &str,
    style: TextStyle,
    max_width: u32,
    min_scale: u32,
    block: TextBlock,
    layout: W,
) -> bool {
    let key = TextKey { text: text@, style, max_width, min_scale };
    resolved(before, after, key, block) && (remembers(before, key) || call_ensures(
        layout,
        (text, style, max_width, min_scale),
        block,
    ))
}

/// Whether a text on one line of a width came about as it should: remembered, else laid out.
pub open spec fn fitted_resolved<F: Fn(&str, TextStyle, u32) -> TextBlock>(
    before: CachedTextBlock,
    after: CachedTextBlock,
    text: &str,
    style: TextStyle,
    max_width: u32,
    block: TextBlock,
    layout: F,
) -> bool {
    let key = TextKey { text: text@, style, max_width, min_scale: 0 };
    resolved(before, after, key, block) && (remembers(before, key) || call_ensures(
        layout,
        (text, style, max_width),
        block,
    ))
}

/// Whether an optional text on one line came about as it should; without a text nothing is
/// touched.
pub open spec fn line_resolved_optional<L: Fn(&str, TextStyle) -> TextBlock>(
    before: CachedTextBlock,
    after: CachedTextBlock,
    text: Option<&str>,
    style: TextStyle,
    block: Option<TextBlock>,
    layout: L,
) -> bool {
    match (text, block) {
        (Some(text), Some(block)) => line_resolved(before, after, text, style, block, layout),
        (None, None) => after == before,
        _ => false,
    }
}

/// Whether an optional text of several lines came about as it should; without a text nothing is
/// touched.
pub open spec fn wrapped_resolved_optional<W: Fn(&str, TextStyle, u32, u32) -> TextBlock>(
    before: CachedTextBlock,
    after: CachedTextBlock,
    text: Option<&str>,
    style: TextStyle,
    max_width: u32,
    block: Option<TextBlock>,
    layout: W,
) -> bool {
    match (text, block) {
        (Some(text), Some(block)) => wrapped_resolved(
            before,
            after,
            text,
            style,
            max_width,
            1,
            block,
            layout,
        ),
        (None, None) => after == before,
        _ => false,
    }
}

/// Whether a function can lay any text out.
pub open spec fn lays_lines<L: Fn(&str, TextStyle) -> TextBlock>(layout: L) -> bool {
    forall|text: &str, style: TextStyle| #[trigger] call_requires(layout, (text, style))
}

/// Whether a function can lay any text out in lines of any width.
pub open spec fn lays_wrapped<W: Fn(&str, TextStyle, u32, u32) -> TextBlock>(layout: W) -> bool {
    forall|text: &str, style: TextStyle, max_width: u32, min_scale: u32| #[trigger]
        call_requires(layout, (text, style, max_width, min_scale))
}

/// Whether a function can fit any text into any width.
pub open spec fn lays_fitted<F: Fn(&str, TextStyle, u32) -> TextBlock>(layout: F) -> bool {
    forall|text: &str, style: TextStyle, max_width: u32| #[trigger]
        call_requires(layout, (text, style, max_width))
}

/// Whether a function can measure any text.
pub open spec fn measures<B: Fn(&str, TextStyle) -> Option<TextBounds>>(measure: B) -> bool {
    forall|text: &str, style: TextStyle| #[trigger] call_requires(measure, (text, style))
}

fn same_color(a: ClearColor, b: ClearColor) -> (same: bool)
    ensures
        same == (a == b),
{
    a.red == b.red && a.green == b.green && a.blue == b.blue && a.alpha == b.alpha
}

fn same_style(a: TextStyle, b: TextStyle) -> (same: bool)
    ensures
        same == (a == b),
{
    same_color(a.color, b.color) && a.size == b.size && a.line_spacing == b.line_spacing
}

impl CachedTextBlock {
    pub fn empty() -> (cache: Self)
        ensures
            cache.key is None,
            cache.block is None,
    {
        Self { key: None, block: None }
    }

    fn hit(&self, key: &CachedTextKey) -> (block: Option<TextBlock>)
        ensures
            block == match remembered(*self) {
                Some((known, kept)) => if known == key@ {
                    Some(kept)
                } else {
                    None
                },
                None => None,
            },
    {
        match (&self.key, self.block) {
            (Some(known), Some(block)) => {
                let same = known.text == key.text && same_style(known.style, key.style)
                    && known.max_width == key.max_width && known.min_scale == key.min_scale;
                if same {
                    Some(block)
                } else {
                    None
                }
            },
            _ => None,
        }
    }

    fn store(&mut self, key: CachedTextKey, block: TextBlock)
        ensures
            remembered(*final(self)) == Some((key@, block)),
    {
        self.key = Some(key);
        self.block = Some(block);
    }

    /// A text on one line, as long as it is.
    pub fn resolve_unbounded<L: Fn(&str, TextStyle) -> TextBlock>(
        &mut self,
        text: &str,
        style: TextStyle,
        layout: &L,
    ) -> (block: TextBlock)
        requires
            lays_lines(*layout),
        ensures
            line_resolved(*old(self), *final(self), text, style, block, *layout),
    {
        let key = CachedTextKey { text: text.to_owned(), style, max_width: 0, min_scale: 0 };
        if let Some(block) = self.hit(&key) {
            return block;
        }
        let block = layout(text, style);
        self.store(key, block);
        block
    }

    pub fn resolve_optional_unbounded<L: Fn(&str, TextStyle) -> TextBlock>(
        &mut self,
        text: Option<&str>,
        style: TextStyle,
        layout: &L,
    ) -> (block: Option<TextBlock>)
        requires
            lays_lines(*layout),
        ensures
            line_resolved_optional(*old(self), *final(self), text, style, block, *layout),
    {
        match text {
            Some(text) => Some(self.resolve_unbounded(text, style, layout)),
            None => None,
        }
    }

    /// A text that is broken into lines.
    pub fn resolve<W: Fn(&str, TextStyle, u32, u32) -> TextBlock>(
        &mut self,
        text: &str,
        style: TextStyle,
        max_width: u32,
        min_scale: u32,
        layout: &W,
    ) -> (block: TextBlock)
        requires
            lays_wrapped(*layout),
        ensures
            wrapped_resolved(
                *old(self),
                *final(self),
                text,
                style,
                max_width,
                min_scale,
                block,
                *layout,
            ),
    {
        let key = CachedTextKey { text: text.to_owned(), style, max_width, min_scale };
        if let Some(block) = self.hit(&key) {
            return block;
        }
        let block = layout(text, style, max_width, min_scale);
        self.store(key, block);
        block
    }

    pub fn resolve_optional<W: Fn(&str, TextStyle, u32, u32) -> TextBlock>(
        &mut self,
        text: Option<&str>,
        style: TextStyle,
        max_width: u32,
        layout: &W,
    ) -> (block: Option<TextBlock>)
        requires
            lays_wrapped(*layout),
        ensures
            wrapped_resolved_optional(
                *old(self),
                *final(self),
                text,
                style,
                max_width,
                block,
                *layout,
            ),
    {
        match text {
            Some(text) => Some(self.resolve(text, style, max_width, 1, layout)),
            None => None,
        }
    }

    /// A text on one line that has to fit.
    pub fn resolve_single_line<F: Fn(&str, TextStyle, u32) -> TextBlock>(
        &mut self,
        text: &str,
        style: TextStyle,
        max_width: u32,
        layout: &F,
    ) -> (block: TextBlock)
        requires
            lays_fitted(*layout),
        ensures
            fitted_resolved(*old(self), *final(self), text, style, max_width, block, *layout),
    {
        let key = CachedTextKey { text: text.to_owned(), style, max_width, min_scale: 0 };
        if let Some(block) = self.hit(&key) {
            return block;
        }
        let block = layout(text, style, max_width);
        self.store(key, block);
        block
    }
}

/// The ink of the text that was measured last.
#[derive(Debug)]
pub struct CachedTextBounds {
    pub text: Option<String>,
    pub style: TextStyle,
    pub bounds: Option<TextBounds>,
}

/// What is remembered of a text's ink.
pub open spec fn remembered_bounds(cache: CachedTextBounds) -> Option<
    (Seq<char>, TextStyle, Option<TextBounds>),
> {
    match cache.text {
        Some(text) => Some((text@, cache.style, cache.bounds)),
        None => None,
    }
}

/// Whether a text's ink came about as it should: remembered, else measured.
pub open spec fn bounds_resolved<B: Fn(&str, TextStyle) -> Option<TextBounds>>(
    known: Option<(Seq<char>, TextStyle, Option<TextBounds>)>,
    text: &str,
    style: TextStyle,
    bounds: Option<TextBounds>,
    measure: B,
) -> bool {
    match known {
        Some((known_text, known_style, kept)) => if known_text == text@ && known_style == style {
            bounds == kept
        } else {
            call_ensures(measure, (text, style), bounds)
        },
        None => call_ensures(measure, (text, style), bounds),
    }
}

impl CachedTextBounds {
    pub fn empty() -> (cache: Self)
        ensures
            cache.text is None,
            cache.bounds is None,
            remembered_bounds(cache) is None,
    {
        Self {
            text: None,
            style: TextStyle {
                color: ClearColor { red: 0, green: 0, blue: 0, alpha: 0 },
                size: 0,
                line_spacing: 0,
            },
            bounds: None,
        }
    }

    pub fn resolve<B: Fn(&str, TextStyle) -> Option<TextBounds>>(
        &mut self,
        text: &str,
        style: TextStyle,
        measure: &B,
    ) -> (bounds: Option<TextBounds>)
        requires
            measures(*measure),
        ensures
            remembered_bounds(*final(self)) == Some((text@, style, bounds)),
            bounds_resolved(remembered_bounds(*old(self)), text, style, bounds, *measure),
    {
        let wanted = text.to_owned();
        if let Some(known) = &self.text {
            if *known == wanted && same_style(self.style, style) {
                return self.bounds;
            }
        }
        let bounds = measure(text, style);
        self.text = Some(wanted);
        self.style = style;
        self.bounds = bounds;
        bounds
    }
}

/// All texts that are kept from frame to frame.
#[derive(Debug)]
pub struct TextLayoutCache {
    pub clock: CachedTextBlock,
    pub clock_secondary: CachedTextBlock,
    pub clock_meridiem: CachedTextBlock,
    pub date: CachedTextBlock,
    pub keyboard_layout: CachedTextBlock,
    pub power_status: CachedTextBlock,
    pub username: CachedTextBlock,
    pub placeholder: CachedTextBlock,
    pub revealed_secret: CachedTextBlock,
    pub status: CachedTextBlock,
    pub now_playing_title: CachedTextBlock,
    pub now_playing_artist: CachedTextBlock,
    pub weather_temperature: CachedTextBlock,
    pub weather_location: CachedTextBlock,
    pub custom_layers: Vec<CachedTextBlock>,
    pub custom_layer_bounds: Vec<CachedTextBounds>,
}

/// The texts of a scene, as far as there are any.
pub struct SceneTextInputs<'a> {
    pub clock_style_mode: u8,
    pub clock_text: Option<&'a str>,
    pub clock_secondary_text: Option<&'a str>,
    pub clock_style: TextStyle,
    pub clock_meridiem_text: Option<&'a str>,
    pub clock_meridiem_style: TextStyle,
    pub clock_meridiem_x: Option<i32>,
    pub clock_meridiem_y: Option<i32>,
    pub date_text: Option<&'a str>,
    pub date_style: TextStyle,
    pub username_text: Option<&'a str>,
    pub username_style: TextStyle,
    pub placeholder_text: Option<&'a str>,
    pub placeholder_style: TextStyle,
    pub status_text: Option<&'a str>,
    pub status_style: TextStyle,
    pub weather_temperature_text: Option<&'a str>,
    pub weather_temperature_style: TextStyle,
    pub weather_location_text: Option<&'a str>,
    pub weather_location_style: TextStyle,
    pub weather_icon: Option<u8>,
    /// The size that is set for the icon, already kept within the sizes that icons may have.
    pub weather_icon_size: Option<i32>,
    pub weather_icon_opacity: Option<u8>,
    pub content_width: u32,
    pub input_width: i32,
}

#[derive(Debug, Clone, Copy, PartialEq, Eq, Structural)]
pub struct SceneClockBlocks {
    pub style: u8,
    pub primary: TextBlock,
    pub secondary: Option<TextBlock>,
    pub meridiem: Option<TextBlock>,
    pub meridiem_x: i32,
    pub meridiem_y: i32,
}

#[derive(Debug, Clone, Copy, PartialEq, Eq, Structural)]
pub struct SceneWeatherIcon {
    pub asset: u8,
    pub size: i32,
    pub opacity: Option<u8>,
}

#[derive(Debug, Clone, Copy, PartialEq, Eq, Structural)]
pub struct SceneWeatherBlocks {
    pub temperature: Option<TextBlock>,
    pub location: Option<TextBlock>,
    pub icon: Option<SceneWeatherIcon>,
}

/// The laid-out texts of a scene.
#[derive(Debug, Clone, Copy, PartialEq, Eq, Structural)]
pub struct SceneTextBlocks {
    pub clock: Option<SceneClockBlocks>,
    pub date: Option<TextBlock>,
    pub username: Option<TextBlock>,
    pub placeholder: Option<TextBlock>,
    pub status: Option<TextBlock>,
    pub weather: Option<SceneWeatherBlocks>,
}

/// An offset of the meridiem, at most 128 pixels to either side.
pub open spec fn meridiem_offset(configured: Option<i32>) -> int {
    match configured {
        Some(offset) => if offset < -128 {
            -128
        } else if offset > 128 {
            128
        } else {
            offset as int
        },
        None => 0,
    }
}

fn clamped_meridiem_offset(configured: Option<i32>) -> (offset: i32)
    ensures
        offset == meridiem_offset(configured),
{
    match configured {
        Some(offset) => if offset < -128 {
            -128
        } else if offset > 128 {
            128
        } else {
            offset
        },
        None => 0,
    }
}

/// Room for the placeholder: the input without its edges, never below the smallest number.
pub open spec fn placeholder_width(input_width: i32) -> u32 {
    let inner = if input_width - 48 < i32::MIN {
        i32::MIN as int
    } else {
        input_width - 48
    };
    if inner >= 0 {
        inner as u32
    } else {
        (inner + 0x1_0000_0000) as u32
    }
}

/// A width without its edges as an unsigned number of 32 bits.
pub fn inner_width(width: i32, edges: i32) -> (inner: u32)
    requires
        0 <= edges,
    ensures
        inner == ({
            let value = if width - edges < i32::MIN {
                i32::MIN as int
            } else {
                width - edges
            };
            if value >= 0 {
                value as u32
            } else {
                (value + 0x1_0000_0000) as u32
            }
        }),
{
    let exact: i64 = width as i64 - edges as i64;
    let value: i64 = if exact < i32::MIN as i64 {
        i32::MIN as i64
    } else {
        exact
    };
    if value >= 0 {
        value as u32
    } else {
        (value + 0x1_0000_0000) as u32
    }
}

/// The size of the weather icon where none is configured: a little more than the temperature's
/// height.
pub open spec fn derived_icon_size(temperature: Option<TextBlock>) -> i32 {
    match temperature {
        Some(block) => {
            let height = shape::signed_extent(block.height);
            if height + 6 > i32::MAX {
                (height + 6 - 0x1_0000_0000) as i32
            } else {
                (height + 6) as i32
            }
        },
        None => 40,
    }
}

/// Whether a cache holds neither a text nor its layout.
pub open spec fn holds_nothing(cache: CachedTextBlock) -> bool {
    cache.key is None && cache.block is None
}

/// Whether no text has been laid out yet.
pub open spec fn is_blank(cache: TextLayoutCache) -> bool {
    &&& holds_nothing(cache.clock)
    &&& holds_nothing(cache.clock_secondary)
    &&& holds_nothing(cache.clock_meridiem)
    &&& holds_nothing(cache.date)
    &&& holds_nothing(cache.keyboard_layout)
    &&& holds_nothing(cache.power_status)
    &&& holds_nothing(cache.username)
    &&& holds_nothing(cache.placeholder)
    &&& holds_nothing(cache.revealed_secret)
    &&& holds_nothing(cache.status)
    &&& holds_nothing(cache.now_playing_title)
    &&& holds_nothing(cache.now_playing_artist)
    &&& holds_nothing(cache.weather_temperature)
    &&& holds_nothing(cache.weather_location)
    &&& cache.custom_layers@.len() == 0
    &&& cache.custom_layer_bounds@.len() == 0
}

impl Default for TextLayoutCache {
    fn default() -> (cache: Self)
        ensures
            is_blank(cache),
    {
        TextLayoutCache::new()
    }
}

impl TextLayoutCache {
    pub fn new() -> (cache: Self)
        ensures
            is_blank(cache),
    {
        Self {
            clock: CachedTextBlock::empty(),
            clock_secondary: CachedTextBlock::empty(),
            clock_meridiem: CachedTextBlock::empty(),
            date: CachedTextBlock::empty(),
            keyboard_layout: CachedTextBlock::empty(),
            power_status: CachedTextBlock::empty(),
            username: CachedTextBlock::empty(),
            placeholder: CachedTextBlock::empty(),
            revealed_secret: CachedTextBlock::empty(),
            status: CachedTextBlock::empty(),
            now_playing_title: CachedTextBlock::empty(),
            now_playing_artist: CachedTextBlock::empty(),
            weather_temperature: CachedTextBlock::empty(),
            weather_location: CachedTextBlock::empty(),
            custom_layers: Vec::new(),
            custom_layer_bounds: Vec::new(),
        }
    }

    /// Drops the cached revealed-password layout, zeroing the plaintext held in its cache key
    pub fn forget_revealed_secret(&mut self)
        ensures
            *final(self) == (TextLayoutCache {
                revealed_secret: CachedTextBlock { key: None, block: None },
                ..*old(self)
            }),
    {
        let mut forgotten: Option<CachedTextKey> = None;
        std::mem::swap(&mut forgotten, &mut self.revealed_secret.key);
        if let Some(key) = forgotten {
            let mut text = key.text;
            secret::wipe_text(&mut text);
        }
        self.revealed_secret.block = None;
    }

    /// Lays out the texts of a scene.
    pub fn scene_text_blocks<
        L: Fn(&str, TextStyle) -> TextBlock,
        W: Fn(&str, TextStyle, u32, u32) -> TextBlock,
    >(&mut self, inputs: SceneTextInputs<'_>, single_line: &L, wrapped: &W) -> (blocks:
        SceneTextBlocks)
        requires
            lays_lines(*single_line),
            lays_wrapped(*wrapped),
        ensures
            scene_texts_resolved(
                *old(self),
                *final(self),
                inputs,
                blocks,
                *single_line,
                *wrapped,
            ),
    {
        let clock = match inputs.clock_text {
            Some(clock_text) => {
                let primary = self.clock.resolve_unbounded(clock_text, inputs.clock_style, single_line);
                let secondary = self.clock_secondary.resolve_optional_unbounded(
                    inputs.clock_secondary_text,
                    inputs.clock_style,
                    single_line,
                );
                let meridiem = self.clock_meridiem.resolve_optional_unbounded(
                    inputs.clock_meridiem_text,
                    inputs.clock_meridiem_style,
                    single_line,
                );
                Some(
                    SceneClockBlocks {
                        style: inputs.clock_style_mode,
                        primary,
                        secondary,
                        meridiem,
                        meridiem_x: clamped_meridiem_offset(inputs.clock_meridiem_x),
                        meridiem_y: clamped_meridiem_offset(inputs.clock_meridiem_y),
                    },
                )
            },
            None => None,
        };
        let date = self.date.resolve_optional_unbounded(
            inputs.date_text,
            inputs.date_style,
            single_line,
        );
        let username = self.username.resolve_optional(
            inputs.username_text,
            inputs.username_style,
            inputs.content_width,
            wrapped,
        );
        let placeholder = self.placeholder.resolve_optional(
            inputs.placeholder_text,
            inputs.placeholder_style,
            inner_width(inputs.input_width, 48),
            wrapped,
        );
        let status = self.status.resolve_optional(
            inputs.status_text,
            inputs.status_style,
            inputs.content_width,
            wrapped,
        );
        let temperature = self.weather_temperature.resolve_optional(
            inputs.weather_temperature_text,
            inputs.weather_temperature_style,
            inputs.content_width,
            wrapped,
        );
        let location = self.weather_location.resolve_optional(
            inputs.weather_location_text,
            inputs.weather_location_style,
            inputs.content_width,
            wrapped,
        );
        let derived: i32 = match temperature {
            Some(block) => signed(block.height).wrapping_add(6),
            None => 40,
        };
        let icon = match inputs.weather_icon {
            Some(asset) => Some(
                SceneWeatherIcon {
                    asset,
                    size: match inputs.weather_icon_size {
                        Some(size) => size,
                        None => derived,
                    },
                    opacity: inputs.weather_icon_opacity,
                },
            ),
            None => None,
        };
        let weather = if temperature.is_some() || location.is_some() || icon.is_some() {
            Some(SceneWeatherBlocks { temperature, location, icon })
        } else {
            None
        };
        SceneTextBlocks { clock, date, username, placeholder, status, weather }
    }

    pub fn revealed_secret_block<W: Fn(&str, TextStyle, u32, u32) -> TextBlock>(
        &mut self,
        secret: &str,
        style: TextStyle,
        max_width: u32,
        layout: &W,
    ) -> (block: TextBlock)
        requires
            lays_wrapped(*layout),
        ensures
            *final(self) == (TextLayoutCache {
                revealed_secret: final(self).revealed_secret,
                ..*old(self)
            }),
            wrapped_resolved(
                old(self).revealed_secret,
                final(self).revealed_secret,
                secret,
                style,
                max_width,
                1,
                block,
                *layout,
            ),
    {
        self.revealed_secret.resolve(secret, style, max_width, 1, layout)
    }

    pub fn input_status_block<F: Fn(&str, TextStyle, u32) -> TextBlock>(
        &mut self,
        text: &str,
        style: TextStyle,
        max_width: u32,
        layout: &F,
    ) -> (block: TextBlock)
        requires
            lays_fitted(*layout),
        ensures
            *final(self) == (TextLayoutCache { status: final(self).status, ..*old(self) }),
            fitted_resolved(
                old(self).status,
                final(self).status,
                text,
                style,
                max_width,
                block,
                *layout,
            ),
    {
        self.status.resolve_single_line(text, style, max_width, layout)
    }

    pub fn keyboard_layout_block<W: Fn(&str, TextStyle, u32, u32) -> TextBlock>(
        &mut self,
        label: &str,
        style: TextStyle,
        max_width: u32,
        layout: &W,
    ) -> (block: TextBlock)
        requires
            lays_wrapped(*layout),
        ensures
            *final(self) == (TextLayoutCache {
                keyboard_layout: final(self).keyboard_layout,
                ..*old(self)
            }),
            wrapped_resolved(
                old(self).keyboard_layout,
                final(self).keyboard_layout,
                label,
                style,
                max_width,
                1,
                block,
                *layout,
            ),
    {
        self.keyboard_layout.resolve(label, style, max_width, 1, layout)
    }

    pub fn power_status_block<F: Fn(&str, TextStyle, u32) -> TextBlock>(
        &mut self,
        text: &str,
        style: TextStyle,
        max_width: u32,
        layout: &F,
    ) -> (block: TextBlock)
        requires
            lays_fitted(*layout),
        ensures
            *final(self) == (TextLayoutCache {
                power_status: final(self).power_status,
                ..*old(self)
            }),
            fitted_resolved(
                old(self).power_status,
                final(self).power_status,
                text,
                style,
                max_width,
                block,
                *layout,
            ),
    {
        self.power_status.resolve_single_line(text, style, max_width, layout)
    }

    pub fn now_playing_title_block<F: Fn(&str, TextStyle, u32) -> TextBlock>(
        &mut self,
        title: &str,
        style: TextStyle,
        max_width: u32,
        layout: &F,
    ) -> (block: TextBlock)
        requires
            lays_fitted(*layout),
        ensures
            *final(self) == (TextLayoutCache {
                now_playing_title: final(self).now_playing_title,
                ..*old(self)
            }),
            fitted_resolved(
                old(self).now_playing_title,
                final(self).now_playing_title,
                title,
                style,
                max_width,
                block,
                *layout,
            ),
    {
        self.now_playing_title.resolve_single_line(title, style, max_width, layout)
    }

    pub fn now_playing_artist_block<F: Fn(&str, TextStyle, u32) -> TextBlock>(
        &mut self,
        artist: &str,
        style: TextStyle,
        max_width: u32,
        layout: &F,
    ) -> (block: TextBlock)
        requires
            lays_fitted(*layout),
        ensures
            *final(self) == (TextLayoutCache {
                now_playing_artist: final(self).now_playing_artist,
                ..*old(self)
            }),
            fitted_resolved(
                old(self).now_playing_artist,
                final(self).now_playing_artist,
                artist,
                style,
                max_width,
                block,
                *layout,
            ),
    {
        self.now_playing_artist.resolve_single_line(artist, style, max_width, layout)
    }
}

/// The text kept for a custom layer, if it was asked for before.
pub open spec fn layer_text(layers: Seq<CachedTextBlock>, index: int) -> CachedTextBlock {
    if index < layers.len() {
        layers[index]
    } else {
        CachedTextBlock { key: None, block: None }
    }
}

impl TextLayoutCache {
    /// The text of a custom layer; layers are told apart by their index.
    pub fn custom_layer_block<
        F: Fn(&str, TextStyle, u32) -> TextBlock,
        W: Fn(&str, TextStyle, u32, u32) -> TextBlock,
    >(
        &mut self,
        index: usize,
        text: &str,
        style: TextStyle,
        max_width: u32,
        single_line: bool,
        fitted: &F,
        wrapped: &W,
    ) -> (block: TextBlock)
        requires
            index < usize::MAX,
            lays_fitted(*fitted),
            lays_wrapped(*wrapped),
        ensures
            *final(self) == (TextLayoutCache {
                custom_layers: final(self).custom_layers,
                ..*old(self)
            }),
            final(self).custom_layers@.len() == shape::max_int(
                old(self).custom_layers@.len() as int,
                index + 1,
            ),
            forall|i: int|
                0 <= i < final(self).custom_layers@.len() && i != index
                    ==> #[trigger] final(self).custom_layers@[i] == layer_text(
                    old(self).custom_layers@,
                    i,
                ),
            if single_line {
                fitted_resolved(
                    layer_text(old(self).custom_layers@, index as int),
                    final(self).custom_layers@[index as int],
                    text,
                    style,
                    max_width,
                    block,
                    *fitted,
                )
            } else {
                wrapped_resolved(
                    layer_text(old(self).custom_layers@, index as int),
                    final(self).custom_layers@[index as int],
                    text,
                    style,
                    max_width,
                    1,
                    block,
                    *wrapped,
                )
            },
    {
        while self.custom_layers.len() <= index
            invariant
                index < usize::MAX,
                *self == (TextLayoutCache { custom_layers: self.custom_layers, ..*old(self) }),
                self.custom_layers@.len() >= old(self).custom_layers@.len(),
                self.custom_layers@.len() <= old(self).custom_layers@.len()
                    || self.custom_layers@.len() <= index + 1,
                forall|i: int|
                    0 <= i < self.custom_layers@.len() ==> #[trigger] self.custom_layers@[i]
                        == layer_text(old(self).custom_layers@, i),
            decreases index + 1 - self.custom_layers@.len(),
        {
            self.custom_layers.push(CachedTextBlock { key: None, block: None });
        }
        let cache = &mut self.custom_layers[index];
        if single_line {
            cache.resolve_single_line(text, style, max_width, fitted)
        } else {
            cache.resolve(text, style, max_width, 1, wrapped)
        }
    }

    /// The ink of a custom layer's text.
    pub fn custom_layer_visible_bounds<B: Fn(&str, TextStyle) -> Option<TextBounds>>(
        &mut self,
        index: usize,
        text: &str,
        style: TextStyle,
        measure: &B,
    ) -> (bounds: Option<TextBounds>)
        requires
            index < usize::MAX,
            measures(*measure),
        ensures
            *final(self) == (TextLayoutCache {
                custom_layer_bounds: final(self).custom_layer_bounds,
                ..*old(self)
            }),
            final(self).custom_layer_bounds@.len() == shape::max_int(
                old(self).custom_layer_bounds@.len() as int,
                index + 1,
            ),
            forall|i: int|
                0 <= i < old(self).custom_layer_bounds@.len() && i != index
                    ==> #[trigger] final(self).custom_layer_bounds@[i] == old(
                    self,
                ).custom_layer_bounds@[i],
            forall|i: int|
                old(self).custom_layer_bounds@.len() <= i < index ==> remembered_bounds(
                    #[trigger] final(self).custom_layer_bounds@[i],
                ) is None,
            remembered_bounds(final(self).custom_layer_bounds@[index as int]) == Some(
                (text@, style, bounds),
            ),
            bounds_resolved(
                if index < old(self).custom_layer_bounds@.len() {
                    remembered_bounds(old(self).custom_layer_bounds@[index as int])
                } else {
                    None
                },
                text,
                style,
                bounds,
                *measure,
            ),
    {
        while self.custom_layer_bounds.len() <= index
            invariant
                index < usize::MAX,
                *self == (TextLayoutCache {
                    custom_layer_bounds: self.custom_layer_bounds,
                    ..*old(self)
                }),
                self.custom_layer_bounds@.len() >= old(self).custom_layer_bounds@.len(),
                self.custom_layer_bounds@.len() <= old(self).custom_layer_bounds@.len()
                    || self.custom_layer_bounds@.len() <= index + 1,
                forall|i: int|
                    0 <= i < old(self).custom_layer_bounds@.len()
                        ==> #[trigger] self.custom_layer_bounds@[i] == old(
                        self,
                    ).custom_layer_bounds@[i],
                forall|i: int|
                    old(self).custom_layer_bounds@.len() <= i < self.custom_layer_bounds@.len()
                        ==> remembered_bounds(#[trigger] self.custom_layer_bounds@[i]) is None,
            decreases index + 1 - self.custom_layer_bounds@.len(),
        {
            self.custom_layer_bounds.push(CachedTextBounds::empty());
        }
        let cache = &mut self.custom_layer_bounds[index];
        cache.resolve(text, style, measure)
    }
}

/// Whether the texts of a scene came about as they should.
pub open spec fn scene_texts_resolved<
    L: Fn(&str, TextStyle) -> TextBlock,
    W: Fn(&str, TextStyle, u32, u32) -> TextBlock,
>(
    before: TextLayoutCache,
    after: TextLayoutCache,
    inputs: SceneTextInputs<'_>,
    blocks: SceneTextBlocks,
    single_line: L,
    wrapped: W,
) -> bool {
    let temperature = match blocks.weather {
        Some(weather) => weather.temperature,
        None => None,
    };
    let location = match blocks.weather {
        Some(weather) => weather.location,
        None => None,
    };
    &&& after == (TextLayoutCache {
        clock: after.clock,
        clock_secondary: after.clock_secondary,
        clock_meridiem: after.clock_meridiem,
        date: after.date,
        username: after.username,
        placeholder: after.placeholder,
        status: after.status,
        weather_temperature: after.weather_temperature,
        weather_location: after.weather_location,
        ..before
    })
    &&& match (inputs.clock_text, blocks.clock) {
        (Some(text), Some(clock)) => {
            &&& clock.style == inputs.clock_style_mode
            &&& clock.meridiem_x == meridiem_offset(inputs.clock_meridiem_x)
            &&& clock.meridiem_y == meridiem_offset(inputs.clock_meridiem_y)
            &&& line_resolved(
                before.clock,
                after.clock,
                text,
                inputs.clock_style,
                clock.primary,
                single_line,
            )
            &&& line_resolved_optional(
                before.clock_secondary,
                after.clock_secondary,
                inputs.clock_secondary_text,
                inputs.clock_style,
                clock.secondary,
                single_line,
            )
            &&& line_resolved_optional(
                before.clock_meridiem,
                after.clock_meridiem,
                inputs.clock_meridiem_text,
                inputs.clock_meridiem_style,
                clock.meridiem,
                single_line,
            )
        },
        (None, None) => after.clock == before.clock && after.clock_secondary
            == before.clock_secondary && after.clock_meridiem == before.clock_meridiem,
        _ => false,
    }
    &&& line_resolved_optional(
        before.date,
        after.date,
        inputs.date_text,
        inputs.date_style,
        blocks.date,
        single_line,
    )
    &&& wrapped_resolved_optional(
        before.username,
        after.username,
        inputs.username_text,
        inputs.username_style,
        inputs.content_width,
        blocks.username,
        wrapped,
    )
    &&& wrapped_resolved_optional(
        before.placeholder,
        after.placeholder,
        inputs.placeholder_text,
        inputs.placeholder_style,
        placeholder_width(inputs.input_width),
        blocks.placeholder,
        wrapped,
    )
    &&& wrapped_resolved_optional(
        before.status,
        after.status,
        inputs.status_text,
        inputs.status_style,
        inputs.content_width,
        blocks.status,
        wrapped,
    )
    &&& wrapped_resolved_optional(
        before.weather_temperature,
        after.weather_temperature,
        inputs.weather_temperature_text,
        inputs.weather_temperature_style,
        inputs.content_width,
        temperature,
        wrapped,
    )
    &&& wrapped_resolved_optional(
        before.weather_location,
        after.weather_location,
        inputs.weather_location_text,
        inputs.weather_location_style,
        inputs.content_width,
        location,
        wrapped,
    )
    &&& match blocks.weather {
        Some(weather) => weather.icon == match inputs.weather_icon {
            Some(asset) => Some(
                SceneWeatherIcon {
                    asset,
                    size: match inputs.weather_icon_size {
                        Some(size) => size,
                        None => derived_icon_size(temperature),
                    },
                    opacity: inputs.weather_icon_opacity,
                },
            ),
            None => None,
        } && (inputs.weather_temperature_text is Some || inputs.weather_location_text is Some
            || inputs.weather_icon is Some),
        None => inputs.weather_temperature_text is None && inputs.weather_location_text is None
            && inputs.weather_icon is None,
    }
}

/// A text that did not change is not laid out twice: the second result is the first one.
pub proof fn law_unchanged_text_is_laid_out_once(
    first: CachedTextBlock,
    second: CachedTextBlock,
    third: CachedTextBlock,
    key: TextKey,
    block: TextBlock,
    again: TextBlock,
)
    requires
        resolved(first, second, key, block),
        resolved(second, third, key, again),
    ensures
        again == block,
        third == second,
{
}

/// The offset of the hour's half is as configured, up to 128 points either way, and nothing where
/// none is; a placeholder leaves 24 points free on both sides of its input; a weather icon is six
/// points higher than the temperature beside it, and 40 points without one.
pub proof fn law_measures_are_as_configured(offset: i32, width: i32, block: TextBlock)
    requires
        48 <= width,
        block.height <= i32::MAX - 6,
    ensures
        -128 <= offset <= 128 ==> meridiem_offset(Some(offset)) == offset,
        offset > 128 ==> meridiem_offset(Some(offset)) == 128,
        offset < -128 ==> meridiem_offset(Some(offset)) == -128,
        meridiem_offset(None) == 0,
        placeholder_width(width) == width - 2 * 24,
        derived_icon_size(Some(block)) == block.height + 6,
        derived_icon_size(None) == 40,
{
}

/// A text that was laid out is kept with its layout, for this text, style and width alone, and is
/// taken from there as long as nothing changes.
pub proof fn law_kept_layout_is_for_its_text(
    before: CachedTextBlock,
    after: CachedTextBlock,
    key: TextKey,
    other: TextKey,
    block: TextBlock,
)
    requires
        resolved(before, after, key, block),
    ensures
        remembers(after, key),
        other != key ==> !remembers(after, other),
        remembers(before, key) ==> after == before && before.block == Some(block),
        after.block == Some(block),
{
}

} // verus!
