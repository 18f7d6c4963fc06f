//! The sections of the configuration.

use crate::common::battery::BatterySnapshot;
use crate::common::path::FilePath;
use crate::common::text;
use vstd::prelude::*;

verus! {

/// Seconds to wait for the compositor where no file says otherwise.
pub const DEFAULT_ACQUIRE_TIMEOUT_SECONDS: u64 = 10;

/// A color: red, green, blue and alpha.
#[derive(Debug, Clone, Copy, PartialEq, Eq, Structural)]
pub struct RgbColor(pub u8, pub u8, pub u8, pub u8);

/// Settings of the lock itself.
#[derive(Debug, Clone, PartialEq, Eq)]
pub struct LockConfig {
    pub avatar_path: Option<FilePath>,
    pub suspend_seconds: Option<u64>,
    pub acquire_timeout_seconds: u64,
    pub screen_off_seconds: Option<u64>,
    pub power_off_secondary_outputs: bool,
    pub hide_cursor: bool,
    pub allow_empty_password: bool,
}

/// Which outputs show the prompt.
#[derive(Debug, Clone, Copy, PartialEq, Eq, Structural)]
pub enum OutputUiMode {
    All,
    Single,
}

/// Settings of what is drawn.
#[derive(Debug, Clone, PartialEq, Eq)]
pub struct VisualConfig {
    pub avatar_image_path: Option<FilePath>,
    pub output_ui_mode: OutputUiMode,
    pub ui_output_name: Option<String>,
}

/// A battery reading to show in place of the real one.
#[derive(Debug, Clone, Copy, PartialEq, Eq)]
pub struct BatteryConfig {
    pub mock_percent: Option<u8>,
    pub mock_charging: Option<bool>,
}

#[derive(Debug, Clone, PartialEq, Eq)]
pub struct WeatherConfig {
    pub enabled: bool,
    pub location: Option<String>,
}

#[derive(Debug, Clone, Copy, PartialEq, Eq, Structural)]
pub enum ConfigBackgroundScaling {
    Fill,
    Fit,
    Center,
    Tile,
    Stretch,
}

/// The wallpaper of one output.
#[derive(Debug, Clone, PartialEq, Eq)]
pub struct BackgroundOutputConfig {
    pub name: String,
    pub path: FilePath,
}

#[derive(Debug, Clone, Copy, PartialEq, Eq, Structural)]
pub struct BackgroundGradientConfig {
    pub top_left: RgbColor,
    pub top_right: RgbColor,
    pub bottom_left: RgbColor,
    pub bottom_right: RgbColor,
}

#[derive(Debug, Clone, Copy, PartialEq, Eq, Structural)]
pub struct BackgroundRadialConfig {
    pub center: RgbColor,
    pub edge: RgbColor,
    pub center_x: u8,
    pub center_y: u8,
    pub radius: u16,
}

#[derive(Debug, Clone, Copy, PartialEq, Eq, Structural)]
pub enum BackgroundLayeredBaseMode {
    Solid,
    Gradient,
    Radial,
}

/// What lies below the blobs of a layered background; the mode tells which of the three applies.
#[derive(Debug, Clone, Copy, PartialEq, Eq, Structural)]
pub struct BackgroundLayeredBaseConfig {
    pub mode: BackgroundLayeredBaseMode,
    pub color: RgbColor,
    pub gradient: BackgroundGradientConfig,
    pub radial: BackgroundRadialConfig,
}

#[derive(Debug, Clone, Copy, PartialEq, Eq, Structural)]
pub struct BackgroundLayeredBlobConfig {
    pub color: RgbColor,
    pub opacity: u8,
    pub x: u8,
    pub y: u8,
    pub size: u16,
}

#[derive(Debug, Clone, PartialEq, Eq)]
pub struct BackgroundLayeredConfig {
    pub base: BackgroundLayeredBaseConfig,
    pub blobs: Vec<BackgroundLayeredBlobConfig>,
}

/// Settings of the background. The path and the generated kinds are there only where they apply.
#[derive(Debug, Clone, PartialEq, Eq)]
pub struct BackgroundConfig {
    pub outputs: Vec<BackgroundOutputConfig>,
    pub path: Option<FilePath>,
    pub gradient: Option<BackgroundGradientConfig>,
    pub radial: Option<BackgroundRadialConfig>,
    pub layered: Option<BackgroundLayeredConfig>,
    pub blur_strength: u8,
    pub dim_strength: u8,
    pub tint: Option<RgbColor>,
    pub scaling: ConfigBackgroundScaling,
}

pub open spec fn plain_background(outputs: Vec<BackgroundOutputConfig>) -> BackgroundConfig {
    BackgroundConfig {
        outputs,
        path: None,
        gradient: None,
        radial: None,
        layered: None,
        blur_strength: 0,
        dim_strength: 0,
        tint: None,
        scaling: ConfigBackgroundScaling::Fill,
    }
}

pub open spec fn plain_lock() -> LockConfig {
    LockConfig {
        avatar_path: None,
        suspend_seconds: None,
        acquire_timeout_seconds: DEFAULT_ACQUIRE_TIMEOUT_SECONDS,
        screen_off_seconds: None,
        power_off_secondary_outputs: false,
        hide_cursor: false,
        allow_empty_password: false,
    }
}

pub open spec fn plain_battery() -> BatteryConfig {
    BatteryConfig { mock_percent: None, mock_charging: None }
}

pub open spec fn plain_weather() -> WeatherConfig {
    WeatherConfig { enabled: false, location: None }
}

pub open spec fn plain_visuals() -> VisualConfig {
    VisualConfig {
        avatar_image_path: None,
        output_ui_mode: OutputUiMode::All,
        ui_output_name: None,
    }
}

/// The battery reading the settings ask for.
pub open spec fn mocked_battery(config: BatteryConfig) -> Option<BatterySnapshot> {
    match config.mock_percent {
        Some(percent) => Some(
            BatterySnapshot { percent, charging: config.mock_charging == Some(true) },
        ),
        None => None,
    }
}

impl BatteryConfig {
    /// The reading to show in place of the real one, if there is one.
    pub fn mock_snapshot(&self) -> (snapshot: Option<BatterySnapshot>)
        ensures
            snapshot == mocked_battery(*self),
    {
        match self.mock_percent {
            Some(percent) => {
                let charging = match self.mock_charging {
                    Some(charging) => charging,
                    None => false,
                };
                Some(BatterySnapshot { percent, charging })
            },
            None => None,
        }
    }
}

/// The place the settings name, without the white space around it.
pub open spec fn named_location(config: WeatherConfig) -> Option<Seq<char>> {
    match config.location {
        Some(location) => if text::trimmed(location@).len() > 0 {
            Some(text::trimmed(location@))
        } else {
            None
        },
        None => None,
    }
}

pub open spec fn viewed_text(words: Option<String>) -> Option<Seq<char>> {
    match words {
        Some(words) => Some(words@),
        None => None,
    }
}

impl WeatherConfig {
    /// The place to report on, if one is named.
    pub fn normalized_location(&self) -> (location: Option<String>)
        ensures
            viewed_text(location) == named_location(*self),
    {
        match &self.location {
            Some(location) => {
                let name = location.as_str().trim();
                if name.unicode_len() > 0 {
                    Some(name.to_owned())
                } else {
                    None
                }
            },
            None => None,
        }
    }
}

/// A battery is mocked where a charge is set for it, with that charge, and charges only where that
/// is set too.
pub proof fn law_mocked_battery_is_as_set(config: BatteryConfig)
    ensures
        mocked_battery(config) is Some <==> config.mock_percent is Some,
        mocked_battery(config) matches Some(battery) ==> config.mock_percent == Some(
            battery.percent,
        ) && (battery.charging <==> config.mock_charging is Some && config.mock_charging->0),
{
}

/// A weather location is a name without white space around it; one that is blank is none.
pub proof fn law_weather_location_is_no_blank(config: WeatherConfig)
    ensures
        config.location is None ==> named_location(config) is None,
        named_location(config) matches Some(name) ==> name.len() > 0 && !text::is_white_space(
            name[0],
        ) && !text::is_white_space(name.last()),
        config.location matches Some(location) ==> (location@.len() > 0 && !text::is_white_space(
            location@[0],
        ) && !text::is_white_space(location@.last()) ==> named_location(config) == Some(location@)),
{
    if let Some(location) = config.location {
        text::law_trimming_takes_white_space_off(location@);
        if location@.len() > 0 && !text::is_white_space(location@[0]) && !text::is_white_space(
            location@.last(),
        ) {
            text::lemma_trimmed_stays(location@);
        }
    }
}

/// Without settings nothing is switched on: an empty password is refused, nothing is suspended or
/// darkened, and the lock is waited for ten seconds.
pub proof fn law_plain_settings_are_cautious()
    ensures
        !plain_lock().allow_empty_password,
        plain_lock().suspend_seconds is None,
        plain_lock().screen_off_seconds is None,
        !plain_lock().power_off_secondary_outputs,
        !plain_lock().hide_cursor,
        plain_lock().acquire_timeout_seconds == 10,
        !plain_weather().enabled,
        mocked_battery(plain_battery()) is None,
        plain_visuals().output_ui_mode == OutputUiMode::All,
{
}

} // verus!
