//! What stands behind the lock screen, as the settings ask for it.

use crate::common::battery::BatterySnapshot;
use crate::common::config::AppConfig;
use crate::common::settings;
use crate::common::settings::{
    BackgroundConfig, BackgroundGradientConfig, BackgroundLayeredBaseMode,
    BackgroundLayeredBlobConfig, BackgroundLayeredConfig, BackgroundRadialConfig,
    ConfigBackgroundScaling, RgbColor,
};
use crate::common::weather::WeatherSnapshot;
use crate::renderer::frame::ClearColor;
use vstd::prelude::*;

verus! {

#[derive(Debug, Clone, Copy, PartialEq, Eq, Structural)]
pub enum BackgroundScaling {
    Fill,
    Fit,
    Center,
    Tile,
    Stretch,
}

/// What is done to a wallpaper before it is shown.
#[derive(Debug, Clone, Copy, PartialEq, Eq, Structural)]
pub struct BackgroundTreatment {
    pub blur_radius: u8,
    pub dim_strength: u8,
    pub tint: Option<ClearColor>,
    pub scaling: BackgroundScaling,
}

#[derive(Debug, Clone, Copy, PartialEq, Eq, Structural)]
pub struct BackgroundGradient {
    pub top_left: ClearColor,
    pub top_right: ClearColor,
    pub bottom_left: ClearColor,
    pub bottom_right: ClearColor,
}

#[derive(Debug, Clone, Copy, PartialEq, Eq, Structural)]
pub struct BackgroundRadial {
    pub center: ClearColor,
    pub edge: ClearColor,
    pub center_x: u8,
    pub center_y: u8,
    pub radius: u16,
}

#[derive(Debug, Clone, Copy, PartialEq, Eq, Structural)]
pub enum BackgroundLayeredBase {
    Solid(ClearColor),
    Gradient(BackgroundGradient),
    Radial(BackgroundRadial),
}

#[derive(Debug, Clone, Copy, PartialEq, Eq, Structural)]
pub struct BackgroundLayeredBlob {
    pub color: ClearColor,
    pub x: u8,
    pub y: u8,
    pub size: u16,
}

/// A base with up to three blobs on it.
#[derive(Debug, Clone, Copy, PartialEq, Eq, Structural)]
pub struct BackgroundLayered {
    pub base: BackgroundLayeredBase,
    pub first: Option<BackgroundLayeredBlob>,
    pub second: Option<BackgroundLayeredBlob>,
    pub third: Option<BackgroundLayeredBlob>,
}

/// A background that is drawn rather than read from a picture.
#[derive(Debug, Clone, Copy, PartialEq, Eq, Structural)]
pub enum GeneratedBackground {
    Gradient(BackgroundGradient),
    Radial(BackgroundRadial),
    Layered(BackgroundLayered),
}

pub open spec fn clear_color(color: RgbColor) -> ClearColor {
    ClearColor { red: color.0, green: color.1, blue: color.2, alpha: color.3 }
}

fn to_background_color(color: RgbColor) -> (converted: ClearColor)
    ensures
        converted == clear_color(color),
{
    ClearColor::rgba(color.0, color.1, color.2, color.3)
}

pub open spec fn scaling_of(scaling: ConfigBackgroundScaling) -> BackgroundScaling {
    match scaling {
        ConfigBackgroundScaling::Fill => BackgroundScaling::Fill,
        ConfigBackgroundScaling::Fit => BackgroundScaling::Fit,
        ConfigBackgroundScaling::Center => BackgroundScaling::Center,
        ConfigBackgroundScaling::Tile => BackgroundScaling::Tile,
        ConfigBackgroundScaling::Stretch => BackgroundScaling::Stretch,
    }
}

pub fn to_background_scaling(scaling: ConfigBackgroundScaling) -> (converted: BackgroundScaling)
    ensures
        converted == scaling_of(scaling),
{
    match scaling {
        ConfigBackgroundScaling::Fill => BackgroundScaling::Fill,
        ConfigBackgroundScaling::Fit => BackgroundScaling::Fit,
        ConfigBackgroundScaling::Center => BackgroundScaling::Center,
        ConfigBackgroundScaling::Tile => BackgroundScaling::Tile,
        ConfigBackgroundScaling::Stretch => BackgroundScaling::Stretch,
    }
}

pub open spec fn treatment_of(config: BackgroundConfig) -> BackgroundTreatment {
    BackgroundTreatment {
        blur_radius: config.blur_strength,
        dim_strength: config.dim_strength,
        tint: match config.tint {
            Some(color) => Some(clear_color(color)),
            None => None,
        },
        scaling: scaling_of(config.scaling),
    }
}

/// A wallpaper that is shown as it is.
pub open spec fn untreated() -> BackgroundTreatment {
    BackgroundTreatment {
        blur_radius: 0,
        dim_strength: 0,
        tint: None,
        scaling: BackgroundScaling::Fill,
    }
}

impl Default for BackgroundTreatment {
    fn default() -> (treatment: Self)
        ensures
            treatment == untreated(),
    {
        BackgroundTreatment {
            blur_radius: 0,
            dim_strength: 0,
            tint: None,
            scaling: BackgroundScaling::Fill,
        }
    }
}

pub fn background_treatment(config: &BackgroundConfig) -> (treatment: BackgroundTreatment)
    ensures
        treatment == treatment_of(*config),
{
    BackgroundTreatment {
        blur_radius: config.blur_strength,
        dim_strength: config.dim_strength,
        tint: match config.tint {
            Some(color) => Some(to_background_color(color)),
            None => None,
        },
        scaling: to_background_scaling(config.scaling),
    }
}

pub open spec fn gradient_of(gradient: BackgroundGradientConfig) -> BackgroundGradient {
    BackgroundGradient {
        top_left: clear_color(gradient.top_left),
        top_right: clear_color(gradient.top_right),
        bottom_left: clear_color(gradient.bottom_left),
        bottom_right: clear_color(gradient.bottom_right),
    }
}

fn to_gradient(gradient: BackgroundGradientConfig) -> (converted: BackgroundGradient)
    ensures
        converted == gradient_of(gradient),
{
    BackgroundGradient {
        top_left: to_background_color(gradient.top_left),
        top_right: to_background_color(gradient.top_right),
        bottom_left: to_background_color(gradient.bottom_left),
        bottom_right: to_background_color(gradient.bottom_right),
    }
}

pub open spec fn radial_of(radial: BackgroundRadialConfig) -> BackgroundRadial {
    BackgroundRadial {
        center: clear_color(radial.center),
        edge: clear_color(radial.edge),
        center_x: radial.center_x,
        center_y: radial.center_y,
        radius: radial.radius,
    }
}

fn to_radial(radial: BackgroundRadialConfig) -> (converted: BackgroundRadial)
    ensures
        converted == radial_of(radial),
{
    BackgroundRadial {
        center: to_background_color(radial.center),
        edge: to_background_color(radial.edge),
        center_x: radial.center_x,
        center_y: radial.center_y,
        radius: radial.radius,
    }
}

/// A color with its alpha reduced to a share in percent, rounded to the nearest step.
pub open spec fn faded(color: RgbColor, opacity: u8) -> ClearColor {
    let percent = if opacity > 100 {
        100
    } else {
        opacity as int
    };
    ClearColor { alpha: ((color.3 * percent + 50) / 100) as u8, ..clear_color(color) }
}

pub fn blob_color(color: RgbColor, opacity: u8) -> (blended: ClearColor)
    ensures
        blended == faded(color, opacity),
{
    let percent: u32 = if opacity > 100 {
        100
    } else {
        opacity as u32
    };
    assert(0 <= color.3 * percent <= 255 * 100) by (nonlinear_arith)
        requires
            0 <= color.3 <= 255,
            0 <= percent <= 100,
    ;
    let alpha: u32 = (color.3 as u32 * percent + 50) / 100;
    ClearColor::rgba(color.0, color.1, color.2, alpha as u8)
}

pub open spec fn blob_of(blob: BackgroundLayeredBlobConfig) -> BackgroundLayeredBlob {
    BackgroundLayeredBlob {
        color: faded(blob.color, blob.opacity),
        x: blob.x,
        y: blob.y,
        size: blob.size,
    }
}

pub open spec fn nth_blob(blobs: Seq<BackgroundLayeredBlobConfig>, index: int) -> Option<
    BackgroundLayeredBlob,
> {
    if index < blobs.len() {
        Some(blob_of(blobs[index]))
    } else {
        None
    }
}

pub open spec fn layered_of(config: BackgroundLayeredConfig) -> BackgroundLayered {
    BackgroundLayered {
        base: match config.base.mode {
            BackgroundLayeredBaseMode::Gradient => BackgroundLayeredBase::Gradient(
                gradient_of(config.base.gradient),
            ),
            BackgroundLayeredBaseMode::Radial => BackgroundLayeredBase::Radial(
                radial_of(config.base.radial),
            ),
            BackgroundLayeredBaseMode::Solid => BackgroundLayeredBase::Solid(
                clear_color(config.base.color),
            ),
        },
        first: nth_blob(config.blobs@, 0),
        second: nth_blob(config.blobs@, 1),
        third: nth_blob(config.blobs@, 2),
    }
}

fn blob_at(blobs: &Vec<BackgroundLayeredBlobConfig>, index: usize) -> (blob: Option<
    BackgroundLayeredBlob,
>)
    ensures
        blob == nth_blob(blobs@, index as int),
{
    if index < blobs.len() {
        let blob = blobs[index];
        Some(
            BackgroundLayeredBlob {
                color: blob_color(blob.color, blob.opacity),
                x: blob.x,
                y: blob.y,
                size: blob.size,
            },
        )
    } else {
        None
    }
}

pub fn to_layered_background(config: &BackgroundLayeredConfig) -> (layered: BackgroundLayered)
    ensures
        layered == layered_of(*config),
{
    let base = match config.base.mode {
        BackgroundLayeredBaseMode::Gradient => BackgroundLayeredBase::Gradient(
            to_gradient(config.base.gradient),
        ),
        BackgroundLayeredBaseMode::Radial => BackgroundLayeredBase::Radial(
            to_radial(config.base.radial),
        ),
        BackgroundLayeredBaseMode::Solid => BackgroundLayeredBase::Solid(
            to_background_color(config.base.color),
        ),
    };
    BackgroundLayered {
        base,
        first: blob_at(&config.blobs, 0),
        second: blob_at(&config.blobs, 1),
        third: blob_at(&config.blobs, 2),
    }
}

/// What is drawn as the background: a gradient, else a radial one, else layers.
pub open spec fn generated_of(config: BackgroundConfig) -> Option<GeneratedBackground> {
    match (config.gradient, config.radial, config.layered) {
        (Some(gradient), _, _) => Some(GeneratedBackground::Gradient(gradient_of(gradient))),
        (None, Some(radial), _) => Some(GeneratedBackground::Radial(radial_of(radial))),
        (None, None, Some(layered)) => Some(GeneratedBackground::Layered(layered_of(layered))),
        (None, None, None) => None,
    }
}

pub fn background_generated(config: &BackgroundConfig) -> (generated: Option<GeneratedBackground>)
    ensures
        generated == generated_of(*config),
{
    if let Some(gradient) = config.gradient {
        return Some(GeneratedBackground::Gradient(to_gradient(gradient)));
    }
    if let Some(radial) = config.radial {
        return Some(GeneratedBackground::Radial(to_radial(radial)));
    }
    match &config.layered {
        Some(layered) => Some(GeneratedBackground::Layered(to_layered_background(layered))),
        None => None,
    }
}

/// The battery reading to show: the one from the settings goes before the real one.
pub fn effective_battery_snapshot(
    config: &AppConfig,
    runtime_snapshot: Option<BatterySnapshot>,
) -> (snapshot: Option<BatterySnapshot>)
    ensures
        snapshot == match settings::mocked_battery(config.battery) {
            Some(mocked) => Some(mocked),
            None => runtime_snapshot,
        },
{
    match config.battery.mock_snapshot() {
        Some(snapshot) => Some(snapshot),
        None => runtime_snapshot,
    }
}

/// The place whose weather is shown, if it is shown at all.
pub fn effective_weather_location(config: &AppConfig) -> (location: Option<String>)
    ensures
        settings::viewed_text(location) == if config.weather.enabled {
            settings::named_location(config.weather)
        } else {
            None
        },
{
    if config.weather.enabled {
        config.weather.normalized_location()
    } else {
        None
    }
}

/// The weather to show, if it is shown at all.
pub fn effective_weather_snapshot(
    config: &AppConfig,
    runtime_snapshot: Option<WeatherSnapshot>,
) -> (snapshot: Option<WeatherSnapshot>)
    ensures
        snapshot == if config.weather.enabled {
            runtime_snapshot
        } else {
            None
        },
{
    if config.weather.enabled {
        runtime_snapshot
    } else {
        None
    }
}

/// A blob is never more opaque than the color it has.
pub proof fn law_blobs_are_no_more_opaque_than_their_color(color: RgbColor, opacity: u8)
    ensures
        faded(color, opacity).alpha <= color.3,
        opacity >= 100 ==> faded(color, opacity) == clear_color(color),
        opacity == 0 ==> faded(color, opacity).alpha == 0,
{
    let percent = if opacity > 100 {
        100
    } else {
        opacity as int
    };
    let alpha = color.3 as int;
    assert(0 <= alpha * percent <= alpha * 100) by (nonlinear_arith)
        requires
            0 <= alpha,
            0 <= percent <= 100,
    ;
    assert(percent == 0 ==> alpha * percent == 0) by (nonlinear_arith);
}

/// A blob's opacity takes its percentage of the color's, to the nearest whole part, and leaves the
/// color itself alone.
pub proof fn law_blob_opacity_is_a_percentage(color: RgbColor, opacity: u8)
    ensures
        opacity <= 100 ==> -50 <= 100 * faded(color, opacity).alpha - color.3 * opacity <= 50,
        faded(color, opacity).red == color.0,
        faded(color, opacity).green == color.1,
        faded(color, opacity).blue == color.2,
{
    if opacity <= 100 {
        assert(0 <= color.3 * opacity <= 25_500) by (nonlinear_arith)
            requires
                0 <= color.3 <= 255,
                0 <= opacity <= 100,
        ;
    }
}

/// The background is treated as it is configured: each strength and the way of scaling are taken
/// over, and two ways of scaling are never confused.
pub proof fn law_treatment_is_as_configured(
    config: BackgroundConfig,
    a: ConfigBackgroundScaling,
    b: ConfigBackgroundScaling,
)
    ensures
        treatment_of(config).blur_radius == config.blur_strength,
        treatment_of(config).dim_strength == config.dim_strength,
        treatment_of(config).tint is Some == config.tint is Some,
        config.tint matches Some(color) ==> treatment_of(config).tint->0.red == color.0
            && treatment_of(config).tint->0.green == color.1 && treatment_of(config).tint->0.blue
            == color.2 && treatment_of(config).tint->0.alpha == color.3,
        scaling_of(a) == scaling_of(b) ==> a == b,
        scaling_of(a) is Fit <==> a is Fit,
        scaling_of(a) is Fill <==> a is Fill,
        scaling_of(a) is Center <==> a is Center,
        scaling_of(a) is Tile <==> a is Tile,
{
}

/// A gradient comes before a radial background, which comes before a layered one; without any the
/// background is not generated. Corners and centers stay where they are.
pub proof fn law_generated_background_is_as_configured(config: BackgroundConfig)
    ensures
        generated_of(config) is None <==> config.gradient is None && config.radial is None
            && config.layered is None,
        config.gradient matches Some(gradient) ==> (generated_of(config) matches Some(
            GeneratedBackground::Gradient(made),
        ) && made.top_left.red == gradient.top_left.0 && made.top_right.green
            == gradient.top_right.1 && made.bottom_left.blue == gradient.bottom_left.2
            && made.bottom_right.alpha == gradient.bottom_right.3),
        config.gradient is None ==> (config.radial matches Some(radial) ==> (generated_of(
            config,
        ) matches Some(GeneratedBackground::Radial(made)) && made.center_x == radial.center_x
            && made.center_y == radial.center_y && made.radius == radial.radius && made.center.red
            == radial.center.0 && made.edge.red == radial.edge.0)),
        config.gradient is None && config.radial is None ==> (config.layered matches Some(layered)
            ==> (generated_of(config) matches Some(GeneratedBackground::Layered(made))
            && made.first is Some == (layered.blobs@.len() > 0) && made.second is Some == (
        layered.blobs@.len() > 1) && made.third is Some == (layered.blobs@.len() > 2))),
{
}

} // verus!
