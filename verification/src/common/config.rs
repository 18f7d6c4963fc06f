//! Where the configuration comes from, and how its layers make one document.

use crate::common::error::{Result, VeilaError};
use crate::common::merge;
use crate::common::path;
use crate::common::path::FilePath;
use crate::common::settings;
use crate::common::settings::{
    BackgroundConfig, BatteryConfig, ConfigBackgroundScaling, LockConfig, OutputUiMode,
    VisualConfig, WeatherConfig, DEFAULT_ACQUIRE_TIMEOUT_SECONDS,
};
use crate::common::text;
use crate::common::toml_value;
use crate::common::toml_value::TomlTree;
use vstd::prelude::*;
use vstd::utf8;

verus! {

pub const DEFAULT_THEME_NAME: &'static str = "default";

pub const SYSTEM_CONFIG_PATH: &'static str = "/etc/veila/config.toml";

#[derive(Debug, Clone, PartialEq, Eq)]
pub struct AppConfig {
    pub background: BackgroundConfig,
    pub lock: LockConfig,
    pub battery: BatteryConfig,
    pub weather: WeatherConfig,
    pub visuals: VisualConfig,
}

#[derive(Debug, Clone, PartialEq, Eq)]
pub struct LoadedConfig {
    pub path: Option<FilePath>,
    pub config: AppConfig,
}

impl Default for AppConfig {
    /// The settings that apply where no file says otherwise.
    fn default() -> (config: Self)
        ensures
            config.background == settings::plain_background(config.background.outputs),
            config.background.outputs@.len() == 0,
            config.lock == settings::plain_lock(),
            config.battery == settings::plain_battery(),
            config.weather == settings::plain_weather(),
            config.visuals == settings::plain_visuals(),
    {
        AppConfig {
            background: BackgroundConfig {
                outputs: Vec::new(),
                path: None,
                gradient: None,
                radial: None,
                layered: None,
                blur_strength: 0,
                dim_strength: 0,
                tint: None,
                scaling: ConfigBackgroundScaling::Fill,
            },
            lock: LockConfig {
                avatar_path: None,
                suspend_seconds: None,
                acquire_timeout_seconds: DEFAULT_ACQUIRE_TIMEOUT_SECONDS,
                screen_off_seconds: None,
                power_off_secondary_outputs: false,
                hide_cursor: false,
                allow_empty_password: false,
            },
            battery: BatteryConfig { mock_percent: None, mock_charging: None },
            weather: WeatherConfig { enabled: false, location: None },
            visuals: VisualConfig {
                avatar_image_path: None,
                output_ui_mode: OutputUiMode::All,
                ui_output_name: None,
            },
        }
    }
}

impl AppConfig {
    /// The avatar picture: the visual setting, else the one of the lock section.
    pub fn avatar_image_path(&self) -> (path: Option<&FilePath>)
        ensures
            path == match self.visuals.avatar_image_path {
                Some(path) => Some(&path),
                None => match self.lock.avatar_path {
                    Some(path) => Some(&path),
                    None => None,
                },
            },
    {
        match &self.visuals.avatar_image_path {
            Some(path) => Some(path),
            None => self.lock.avatar_path.as_ref(),
        }
    }
}

/// What loading the configuration comes down to.
#[derive(Debug, PartialEq, Eq)]
pub enum LoadPlan {
    /// There is no path to look at: the built-in settings apply.
    BuiltIn,
    /// The path that was asked for does not exist: opening it reports why.
    ReportMissing(FilePath),
    /// No configuration file exists: the default layers apply.
    DefaultLayers,
    /// This file is read.
    File(FilePath),
}

/// Chooses between an explicit path and the default one.
pub fn selected_config_path(
    explicit_path: Option<FilePath>,
    default_path: Option<FilePath>,
) -> (path: Option<FilePath>)
    ensures
        path == match explicit_path {
            Some(_) => explicit_path,
            None => default_path,
        },
{
    match explicit_path {
        Some(path) => Some(path),
        None => default_path,
    }
}

/// Chooses the file that settings are written to: the one asked for, else the user's own.
pub fn writable_config_path(explicit_path: Option<FilePath>, user_path: Option<FilePath>) -> (result:
    Result<FilePath>)
    ensures
        match (explicit_path, user_path) {
            (Some(path), _) => result == Ok::<FilePath, VeilaError>(path),
            (None, Some(path)) => result == Ok::<FilePath, VeilaError>(path),
            (None, None) => result matches Err(VeilaError::ConfigIo(message)) && message@
                == "failed to resolve default config path"@,
        },
{
    match (explicit_path, user_path) {
        (Some(path), _) => Ok(path),
        (None, Some(path)) => Ok(path),
        (None, None) => Err(
            VeilaError::ConfigIo("failed to resolve default config path".to_owned()),
        ),
    }
}

/// The directory in which themes of the user are looked for: that of the configuration asked
/// for, else that of the default one.
pub fn config_dir_for_theme_lookup(
    explicit_path: Option<&FilePath>,
    default_path: Option<&FilePath>,
) -> (directory: Option<FilePath>)
    ensures
        path::viewed(directory) == match optional_directory(explicit_path) {
            Some(directory) => Some(directory),
            None => optional_directory(default_path),
        },
{
    let explicit = match explicit_path {
        Some(path) => path.parent(),
        None => None,
    };
    match explicit {
        Some(directory) => Some(directory),
        None => match default_path {
            Some(path) => path.parent(),
            None => None,
        },
    }
}

/// The directory of a path that may be missing.
pub open spec fn optional_directory(path: Option<&FilePath>) -> Option<Seq<u8>> {
    match path {
        Some(path) => path::directory_of(path@),
        None => None,
    }
}

/// Decides what is loaded, given the path that was chosen, whether it was asked for and whether
/// it exists.
pub fn load_plan(path: Option<FilePath>, explicit: bool, present: bool) -> (plan: LoadPlan)
    ensures
        plan == match path {
            None => LoadPlan::BuiltIn,
            Some(path) => if present {
                LoadPlan::File(path)
            } else if explicit {
                LoadPlan::ReportMissing(path)
            } else {
                LoadPlan::DefaultLayers
            },
        },
{
    match path {
        None => LoadPlan::BuiltIn,
        Some(path) => if present {
            LoadPlan::File(path)
        } else if explicit {
            LoadPlan::ReportMissing(path)
        } else {
            LoadPlan::DefaultLayers
        },
    }
}

/// The user's configuration file: below the configuration root, else below the home directory.
pub open spec fn user_config_bytes(config_home: Option<Seq<u8>>, home: Option<Seq<u8>>) -> Option<
    Seq<u8>,
> {
    match (config_home, home) {
        (Some(root), _) => Some(config_file_below(root)),
        (None, Some(home)) => Some(
            config_file_below(path::path_join(home, utf8::encode_utf8(".config"@))),
        ),
        (None, None) => None,
    }
}

pub open spec fn config_file_below(root: Seq<u8>) -> Seq<u8> {
    path::path_join(
        path::path_join(root, utf8::encode_utf8("veila"@)),
        utf8::encode_utf8("config.toml"@),
    )
}

/// The user's configuration file, given `XDG_CONFIG_HOME` and `HOME`.
pub fn user_config_path(config_home: Option<FilePath>, home: Option<FilePath>) -> (path: Option<
    FilePath,
>)
    ensures
        path::viewed(path) == user_config_bytes(path::viewed(config_home), path::viewed(home)),
{
    let root = match config_home {
        Some(root) => root,
        None => match home {
            Some(home) => home.join(".config"),
            None => {
                return None;
            },
        },
    };
    Some(root.join("veila").join("config.toml"))
}

/// The configuration file that applies where none was asked for: the user's if it exists, else
/// the system's if that exists, else the user's all the same.
pub fn default_config_path(user: Option<FilePath>, user_exists: bool, system_exists: bool) -> (path:
    Option<FilePath>)
    ensures
        path::viewed(path) == if user is Some && user_exists {
            path::viewed(user)
        } else if system_exists {
            Some(utf8::encode_utf8(SYSTEM_CONFIG_PATH@))
        } else {
            path::viewed(user)
        },
{
    resolve_default_path(user, user_exists, FilePath::new(SYSTEM_CONFIG_PATH), system_exists)
}

/// Picks the user's path if it exists, else the system's if that exists, else whatever the user
/// has.
pub fn resolve_default_path(
    user: Option<FilePath>,
    user_exists: bool,
    system: FilePath,
    system_exists: bool,
) -> (path: Option<FilePath>)
    ensures
        path == if user is Some && user_exists {
            user
        } else if system_exists {
            Some(system)
        } else {
            user
        },
{
    match user {
        Some(path) if user_exists => Some(path),
        user => if system_exists {
            Some(system)
        } else {
            user
        },
    }
}

/// Whether a character may stand in a theme name.
pub open spec fn theme_char(character: char) -> bool {
    'a' <= character <= 'z' || 'A' <= character <= 'Z' || '0' <= character <= '9' || character
        == '-' || character == '_'
}

/// Whether a text may name a theme: letters, digits, dashes and underscores of ASCII alone.
pub open spec fn valid_theme_name(name: Seq<char>) -> bool {
    forall|i: int| 0 <= i < name.len() ==> theme_char(#[trigger] name[i])
}

/// Accepts a theme name, or reports it.
pub fn validate_theme_name(theme: &str) -> (result: Result<()>)
    ensures
        result is Ok <==> valid_theme_name(theme@),
        result matches Err(error) ==> (error matches VeilaError::InvalidThemeName(name) && name@
            == theme@),
{
    let length: usize = theme.unicode_len();
    let mut index: usize = 0;
    while index < length
        invariant
            index <= length,
            length == theme@.len(),
            forall|i: int| 0 <= i < index ==> theme_char(#[trigger] theme@[i]),
        decreases length - index,
    {
        let character = theme.get_char(index);
        let accepted = 'a' <= character && character <= 'z' || 'A' <= character && character <= 'Z'
            || '0' <= character && character <= '9' || character == '-' || character == '_';
        if !accepted {
            assert(!theme_char(theme@[index as int]));
            return Err(VeilaError::InvalidThemeName(theme.to_owned()));
        }
        index += 1;
    }
    Ok(())
}

/// The theme a document asks for: nothing where there is no entry or only white space, an error
/// where the entry is no text or no theme name.
pub open spec fn theme_of(tree: TomlTree) -> core::result::Result<Option<Seq<char>>, Seq<char>> {
    match tree {
        TomlTree::Table(table) => if table.contains_key("theme"@) {
            match table["theme"@] {
                TomlTree::Text(content) => {
                    let name = text::trimmed(content);
                    if name.len() == 0 {
                        Ok(None)
                    } else if valid_theme_name(name) {
                        Ok(Some(name))
                    } else {
                        Err(name)
                    }
                },
                _ => Err("<non-string>"@),
            }
        } else {
            Ok(None)
        },
        _ => Ok(None),
    }
}

/// Whether a result is the one that is expected, names by their characters.
pub open spec fn is_theme_result(
    result: Result<Option<String>>,
    expected: core::result::Result<Option<Seq<char>>, Seq<char>>,
) -> bool {
    match (result, expected) {
        (Ok(Some(name)), Ok(Some(chars))) => name@ == chars,
        (Ok(None), Ok(None)) => true,
        (Err(VeilaError::InvalidThemeName(name)), Err(chars)) => name@ == chars,
        _ => false,
    }
}

/// Reads the theme a document asks for.
pub fn extract_theme_name(value: &toml::Value) -> (result: Result<Option<String>>)
    ensures
        is_theme_result(result, theme_of(toml_value::toml_tree(*value))),
{
    let theme = match toml_value::value_entry(value, "theme") {
        Some(theme) => theme,
        None => {
            return Ok(None);
        },
    };
    let theme = match toml_value::value_text(theme) {
        Some(theme) => theme,
        None => {
            return Err(VeilaError::InvalidThemeName("<non-string>".to_owned()));
        },
    };
    let theme = theme.trim();
    if theme.is_empty() {
        return Ok(None);
    }
    match validate_theme_name(theme) {
        Ok(()) => Ok(Some(theme.to_owned())),
        Err(error) => Err(error),
    }
}

/// Parses a configuration document.
pub fn parse_toml_value(input: &str) -> (result: Result<toml::Value>)
    ensures
        match result {
            Ok(value) => toml_value::toml_document(input@) == Ok::<TomlTree, Seq<char>>(
                toml_value::toml_tree(value),
            ),
            Err(error) => is_parse_error(error, toml_value::toml_document(input@)),
        },
        input@.len() == 0 ==> toml_value::toml_document(input@) == Ok::<TomlTree, Seq<char>>(
            TomlTree::Table(toml_value::no_entries()),
        ),
{
    match toml_value::parse_document(input) {
        Ok(value) => Ok(value),
        Err(message) => Err(VeilaError::ConfigParse(message)),
    }
}

/// Whether an error reports why a text is no document.
pub open spec fn is_parse_error(
    error: VeilaError,
    document: core::result::Result<TomlTree, Seq<char>>,
) -> bool {
    match (error, document) {
        (VeilaError::ConfigParse(message), Err(report)) => message@ == report,
        _ => false,
    }
}

/// The theme that a configuration text asks for.
pub fn active_theme_name(raw: &str) -> (result: Result<Option<String>>)
    ensures
        match toml_value::toml_document(raw@) {
            Ok(tree) => is_theme_result(result, theme_of(tree)),
            Err(report) => result matches Err(VeilaError::ConfigParse(message)) && message@
                == report,
        },
{
    match parse_toml_value(raw) {
        Ok(value) => extract_theme_name(&value),
        Err(error) => Err(error),
    }
}

/// The file name of a theme.
pub open spec fn theme_file_name(theme: Seq<char>) -> Seq<char> {
    theme + ".toml"@
}

/// Where the user's own copy of a theme would be.
pub fn user_theme_path(config_dir: &FilePath, theme: &str) -> (path: FilePath)
    ensures
        path@ == path::path_join(
            path::path_join(config_dir@, utf8::encode_utf8("themes"@)),
            utf8::encode_utf8(theme_file_name(theme@)),
        ),
{
    config_dir.join("themes").join(text::joined(theme, ".toml").as_str())
}

/// Where the theme that comes with the program would be.
pub fn bundled_theme_path(bundled_dir: &FilePath, theme: &str) -> (path: FilePath)
    ensures
        path@ == path::path_join(bundled_dir@, utf8::encode_utf8(theme_file_name(theme@))),
{
    bundled_dir.join(text::joined(theme, ".toml").as_str())
}

/// Picks the user's copy of a theme if there is one, else the bundled one, else reports that
/// there is none.
pub fn resolve_theme_path(
    theme: &str,
    user_theme: Option<FilePath>,
    user_exists: bool,
    bundled: FilePath,
    bundled_exists: bool,
) -> (result: Result<FilePath>)
    ensures
        match result {
            Ok(path) => if user_theme is Some && user_exists {
                user_theme == Some(path)
            } else {
                bundled_exists && path == bundled
            },
            Err(error) => !(user_theme is Some && user_exists) && !bundled_exists && (
            error matches VeilaError::ThemeNotFound(name) && name@ == theme@),
        },
{
    match user_theme {
        Some(path) if user_exists => Ok(path),
        _ => if bundled_exists {
            Ok(bundled)
        } else {
            Err(VeilaError::ThemeNotFound(theme.to_owned()))
        },
    }
}

/// The lowest layer where no theme was asked for: the built-in settings under the default theme,
/// if that could be read.
pub fn default_config_value(hardcoded: toml::Value, default_theme: Option<toml::Value>) -> (value:
    toml::Value)
    ensures
        toml_value::toml_tree(value) == match default_theme {
            Some(theme) => merge::layered(
                toml_value::toml_tree(hardcoded),
                toml_value::toml_tree(theme),
            ),
            None => toml_value::toml_tree(hardcoded),
        },
{
    match default_theme {
        Some(theme) => merge::merge_config_layer(hardcoded, theme),
        None => hardcoded,
    }
}

/// The trees of a list of documents.
pub open spec fn trees(values: Seq<toml::Value>) -> Seq<TomlTree> {
    values.map_values(|value: toml::Value| toml_value::toml_tree(value))
}

/// Documents laid over a base, each over the ones before it.
pub open spec fn stacked(base: TomlTree, layers: Seq<TomlTree>) -> TomlTree
    decreases layers.len(),
{
    if layers.len() == 0 {
        base
    } else {
        merge::layered(stacked(base, layers.drop_last()), layers.last())
    }
}

/// The configuration that the layers make: the theme over the base, the included documents over
/// that in their order, the user's own settings on top.
pub open spec fn composed(
    base: TomlTree,
    theme: Option<TomlTree>,
    layers: Seq<TomlTree>,
    user: TomlTree,
) -> TomlTree {
    let themed = match theme {
        Some(theme) => merge::layered(base, theme),
        None => base,
    };
    merge::without_metadata(
        merge::layered(stacked(themed, layers), merge::without_metadata(user)),
    )
}

/// Composes the configuration from its layers.
pub fn compose_config(
    base: toml::Value,
    theme: Option<toml::Value>,
    layers: Vec<toml::Value>,
    user: toml::Value,
) -> (value: toml::Value)
    ensures
        toml_value::toml_tree(value) == composed(
            toml_value::toml_tree(base),
            match theme {
                Some(theme) => Some(toml_value::toml_tree(theme)),
                None => None,
            },
            trees(layers@),
            toml_value::toml_tree(user),
        ),
{
    let mut config = match theme {
        Some(theme) => merge::merge_config_layer(base, theme),
        None => base,
    };
    let ghost themed = toml_value::toml_tree(config);
    let ghost all = trees(layers@);
    let mut layers = layers;
    let mut index: usize = 0;
    let count: usize = layers.len();
    let mut reversed: Vec<toml::Value> = Vec::new();
    while layers.len() > 0
        invariant
            layers@.len() <= all.len(),
            all.len() == count,
            trees(layers@) =~= all.take(layers@.len() as int),
            reversed@.len() == all.len() - layers@.len(),
            forall|i: int|
                0 <= i < reversed@.len() ==> toml_value::toml_tree(#[trigger] reversed@[i])
                    == all[all.len() - 1 - i],
        decreases layers.len(),
    {
        let ghost before = layers@;
        if let Some(layer) = layers.pop() {
            assert(trees(before)[before.len() - 1] == toml_value::toml_tree(layer));
            assert(trees(before)[before.len() - 1] == all[before.len() - 1]);
            assert(trees(layers@) =~= trees(before).drop_last());
            reversed.push(layer);
        }
    }
    proof {
        assert(all.take(0) =~= Seq::<TomlTree>::empty());
    }
    while reversed.len() > 0
        invariant
            reversed@.len() <= all.len(),
            index == all.len() - reversed@.len(),
            all.len() == count,
            forall|i: int|
                0 <= i < reversed@.len() ==> toml_value::toml_tree(#[trigger] reversed@[i])
                    == all[all.len() - 1 - i],
            toml_value::toml_tree(config) == stacked(themed, all.take(index as int)),
        decreases reversed.len(),
    {
        let ghost before = reversed@;
        if let Some(layer) = reversed.pop() {
            assert(toml_value::toml_tree(before[before.len() - 1]) == all[index as int]);
            config = merge::merge_config_layer(config, layer);
            index += 1;
            proof {
                assert(all.take(index as int).drop_last() =~= all.take(index - 1));
                assert(all.take(index as int).last() == all[index - 1]);
            }
        }
    }
    assert(all.take(index as int) =~= all);
    let user = merge::remove_config_metadata(user);
    config = merge::merge_config_layer(config, user);
    merge::remove_config_metadata(config)
}

/// What the layers of a configuration are put over.
#[derive(Debug, Clone, Copy, PartialEq, Eq, Structural)]
pub enum ConfigBase {
    /// The built-in settings.
    Hardcoded,
    /// The built-in settings with the default theme over them.
    DefaultTheme,
}

/// A configuration that asks for a theme is put over the built-in settings alone.
pub fn config_base(theme: Option<&str>) -> (base: ConfigBase)
    ensures
        base == if theme is Some {
            ConfigBase::Hardcoded
        } else {
            ConfigBase::DefaultTheme
        },
{
    match theme {
        Some(_) => ConfigBase::Hardcoded,
        None => ConfigBase::DefaultTheme,
    }
}

/// The configuration where there is no configuration file.
pub fn from_default_layers(hardcoded: toml::Value, default_theme: Option<toml::Value>) -> (value:
    toml::Value)
    ensures
        toml_value::toml_tree(value) == merge::without_metadata(
            match default_theme {
                Some(theme) => merge::layered(
                    toml_value::toml_tree(hardcoded),
                    toml_value::toml_tree(theme),
                ),
                None => toml_value::toml_tree(hardcoded),
            },
        ),
{
    let value = default_config_value(hardcoded, default_theme);
    merge::remove_config_metadata(value)
}

/// A document that asks for a theme.
pub open spec fn with_theme(table: Map<Seq<char>, TomlTree>, theme: Seq<char>) -> TomlTree {
    TomlTree::Table(table.insert("theme"@, TomlTree::Text(theme)))
}

/// Whether a text asks for this theme, or for none; of a text that is no table nothing is said.
pub open spec fn asks_for(written: Seq<char>, theme: Option<Seq<char>>) -> bool {
    match toml_value::toml_document(written) {
        Ok(TomlTree::Table(table)) => theme_of(TomlTree::Table(table)) == Ok::<
            Option<Seq<char>>,
            Seq<char>,
        >(theme),
        _ => true,
    }
}

/// The theme of a table whose plain part was kept.
proof fn lemma_theme_is_kept(
    written: Map<Seq<char>, TomlTree>,
    read: Map<Seq<char>, TomlTree>,
    theme: Seq<char>,
)
    requires
        toml_value::plain_part_kept(written, read),
    ensures
        !written.contains_key("theme"@) ==> !read.contains_key("theme"@),
        theme.len() > 0 && valid_theme_name(theme) && written.contains_key("theme"@)
            && written["theme"@] == TomlTree::Text(theme) ==> theme_of(TomlTree::Table(read))
            == Ok::<Option<Seq<char>>, Seq<char>>(Some(theme)),
{
    reveal_strlit("theme");
    assert(toml_value::is_plain("theme"@));
    assert(read.contains_key("theme"@) == written.contains_key("theme"@));
    if theme.len() > 0 && valid_theme_name(theme) {
        assert forall|i: int| 0 <= i < theme.len() implies toml_value::is_plain_char(
            #[trigger] theme[i],
        ) by {
            assert(theme_char(theme[i]));
        }
        assert(toml_value::is_plain(theme));
        assert(theme_char(theme[0]));
        assert(theme_char(theme.last()));
        text::lemma_trimmed_stays(theme);
    }
}

fn encoded_or_error(value: &toml::Value, context: &str) -> (result: Result<String>)
    ensures
        is_encoding(result, toml_value::toml_tree(*value), context@),
        result matches Ok(encoded) ==> match (
            toml_value::toml_tree(*value),
            toml_value::toml_document(encoded@),
        ) {
            (TomlTree::Table(written), Ok(TomlTree::Table(read))) => toml_value::plain_part_kept(
                written,
                read,
            ),
            _ => true,
        },
{
    match toml_value::encode_document(value) {
        Ok(encoded) => Ok(encoded),
        Err(message) => Err(VeilaError::ConfigIo(text::joined(context, message.as_str()))),
    }
}

/// The text of a configuration after a theme was set in it; `raw` is what the file held, if it
/// exists.
pub fn set_theme_in_config(raw: Option<&str>, theme: &str) -> (result: Result<String>)
    ensures
        !valid_theme_name(theme@) ==> (result matches Err(VeilaError::InvalidThemeName(name))
            && name@ == theme@),
        valid_theme_name(theme@) ==> match raw {
            None => is_encoding(
                result,
                with_theme(Map::empty(), theme@),
                "failed to encode config after setting theme: "@,
            ),
            Some(raw) => match toml_value::toml_document(raw@) {
                Err(report) => result matches Err(VeilaError::ConfigParse(message)) && message@
                    == report,
                Ok(TomlTree::Table(table)) => is_encoding(
                    result,
                    with_theme(table, theme@),
                    "failed to encode config after setting theme: "@,
                ),
                Ok(_) => result matches Err(VeilaError::ConfigIo(message)) && message@
                    == "top-level config must be a TOML table"@,
            },
        },
        theme@.len() > 0 ==> (result matches Ok(written) ==> asks_for(written@, Some(theme@))),
{
    match validate_theme_name(theme) {
        Ok(()) => {},
        Err(error) => {
            return Err(error);
        },
    }
    let value = match raw {
        Some(raw) => match parse_toml_value(raw) {
            Ok(value) => value,
            Err(error) => {
                return Err(error);
            },
        },
        None => toml_value::table_value(toml_value::empty_table()),
    };
    let mut table = match toml_value::into_table(value) {
        Ok(table) => table,
        Err(_) => {
            return Err(VeilaError::ConfigIo("top-level config must be a TOML table".to_owned()));
        },
    };
    toml_value::table_insert(
        &mut table,
        "theme".to_owned(),
        toml_value::text_value(theme.to_owned()),
    );
    let value = toml_value::table_value(table);
    let result = encoded_or_error(&value, "failed to encode config after setting theme: ");
    proof {
        if result is Ok {
            if let Ok(TomlTree::Table(read)) = toml_value::toml_document(result->Ok_0@) {
                lemma_theme_is_kept(toml_value::table_tree(table), read, theme@);
            }
        }
    }
    result
}

/// Whether a text is read as this document.
pub open spec fn reads_as(written: Seq<char>, tree: TomlTree) -> bool {
    toml_value::toml_document(written) == Ok::<TomlTree, Seq<char>>(tree)
}

/// Whether a result is the text of this document, or the report that it cannot be written. A
/// plain document is always written, and reads back as it was.
pub open spec fn is_encoding(result: Result<String>, tree: TomlTree, context: Seq<char>) -> bool {
    &&& match toml_value::toml_pretty(tree) {
        Ok(encoded) => result matches Ok(written) && written@ == encoded,
        Err(report) => result matches Err(VeilaError::ConfigIo(message)) && message@ == context
            + report,
    }
    &&& toml_value::is_plain_table(tree) ==> (result matches Ok(written) && reads_as(
        written@,
        tree,
    ))
}

/// The text of a new configuration that only asks for a theme. A file that exists is replaced
/// only by force.
pub fn init_config(theme: &str, present: bool, force: bool) -> (result: Result<String>)
    ensures
        !valid_theme_name(theme@) ==> (result matches Err(VeilaError::InvalidThemeName(name))
            && name@ == theme@),
        valid_theme_name(theme@) && present && !force ==> (result matches Err(
            VeilaError::ConfigIo(message),
        ) && message@ == "config already exists; pass --force to replace it"@),
        valid_theme_name(theme@) && (!present || force) ==> is_encoding(
            result,
            with_theme(Map::empty(), theme@),
            "failed to encode initial config: "@,
        ) && (result matches Ok(written) && reads_as(written@, with_theme(Map::empty(), theme@))),
        theme@.len() > 0 ==> (result matches Ok(written) ==> asks_for(written@, Some(theme@))),
{
    match validate_theme_name(theme) {
        Ok(()) => {},
        Err(error) => {
            return Err(error);
        },
    }
    if present && !force {
        return Err(
            VeilaError::ConfigIo("config already exists; pass --force to replace it".to_owned()),
        );
    }
    let mut table = toml_value::empty_table();
    toml_value::table_insert(
        &mut table,
        "theme".to_owned(),
        toml_value::text_value(theme.to_owned()),
    );
    let value = toml_value::table_value(table);
    let result = encoded_or_error(&value, "failed to encode initial config: ");
    proof {
        lemma_theme_alone_is_plain(theme@);
        if result is Ok {
            if let Ok(TomlTree::Table(read)) = toml_value::toml_document(result->Ok_0@) {
                lemma_theme_is_kept(toml_value::table_tree(table), read, theme@);
            }
        }
    }
    result
}

proof fn lemma_theme_alone_is_plain(theme: Seq<char>)
    requires
        valid_theme_name(theme),
    ensures
        toml_value::is_plain_table(with_theme(Map::empty(), theme)),
{
    reveal_strlit("theme");
    assert forall|i: int| 0 <= i < theme.len() implies toml_value::is_plain_char(
        #[trigger] theme[i],
    ) by {
        assert(theme_char(theme[i]));
    }
    reveal_with_fuel(toml_value::is_plain_tree, 2);
}

/// The text of a configuration after its theme was taken out, or nothing where it asks for none
/// or there is no configuration.
pub fn unset_theme_in_config(raw: Option<&str>) -> (result: Result<Option<String>>)
    ensures
        match raw {
            None => result matches Ok(None),
            Some(raw) => is_unset_result(result, raw@),
        },
{
    let raw = match raw {
        Some(raw) => raw,
        None => {
            return Ok(None);
        },
    };
    let value = match parse_toml_value(raw) {
        Ok(value) => value,
        Err(error) => {
            return Err(error);
        },
    };
    let mut table = match toml_value::into_table(value) {
        Ok(table) => table,
        Err(_) => {
            return Err(VeilaError::ConfigIo("top-level config must be a TOML table".to_owned()));
        },
    };
    match toml_value::table_remove(&mut table, "theme") {
        Some(_) => {},
        None => {
            return Ok(None);
        },
    }
    if toml_value::table_is_empty(&table) {
        return Ok(Some(String::new()));
    }
    let value = toml_value::table_value(table);
    match encoded_or_error(&value, "failed to encode config after unsetting theme: ") {
        Ok(encoded) => {
            proof {
                if let Ok(TomlTree::Table(read)) = toml_value::toml_document(encoded@) {
                    lemma_theme_is_kept(toml_value::table_tree(table), read, Seq::empty());
                }
            }
            Ok(Some(encoded))
        },
        Err(error) => Err(error),
    }
}

/// Whether what is left of a configuration was written as it has to be: as its document, which
/// is always written and reads back as it was where it is plain, and never asks for a theme.
pub open spec fn is_rest_written(
    result: Result<Option<String>>,
    rest: Map<Seq<char>, TomlTree>,
) -> bool {
    &&& match toml_value::toml_pretty(TomlTree::Table(rest)) {
        Ok(encoded) => result matches Ok(Some(written)) && written@ == encoded && (
        toml_value::toml_document(written@) matches Ok(TomlTree::Table(read))
            ==> !read.contains_key("theme"@)),
        Err(report) => result matches Err(VeilaError::ConfigIo(message)) && message@
            == "failed to encode config after unsetting theme: "@ + report,
    }
    &&& toml_value::is_plain_table(TomlTree::Table(rest)) ==> (result matches Ok(Some(written))
        && reads_as(written@, TomlTree::Table(rest)))
}

/// Whether this comes of taking the theme out of a configuration text. An empty text asks for
/// none.
pub open spec fn is_unset_result(result: Result<Option<String>>, raw: Seq<char>) -> bool {
    &&& raw.len() == 0 ==> (result matches Ok(None))
    &&& match toml_value::toml_document(raw) {
        Err(report) => result matches Err(VeilaError::ConfigParse(message)) && message@ == report,
        Ok(TomlTree::Table(table)) => if !table.contains_key("theme"@) {
            result matches Ok(None)
        } else if table.remove("theme"@) == Map::<Seq<char>, TomlTree>::empty() {
            result matches Ok(Some(written)) && written@ == Seq::<char>::empty()
        } else {
            is_rest_written(result, table.remove("theme"@))
        },
        Ok(_) => result matches Err(VeilaError::ConfigIo(message)) && message@
            == "top-level config must be a TOML table"@,
    }
}

/// The report of a failed write. Where the file is read-only, the message says what to do.
pub fn write_failure(read_only: bool, path: &str, message: String) -> (error: VeilaError)
    ensures
        error matches VeilaError::ConfigIo(shown) && shown@ == if read_only {
            "cannot write "@ + path@
                + ": the config file is read-only, so it is likely managed declaratively; change it at its source instead"@
        } else {
            message@
        },
{
    if read_only {
        let mut shown = text::joined("cannot write ", path);
        shown.append(
            ": the config file is read-only, so it is likely managed declaratively; change it at its source instead",
        );
        VeilaError::ConfigIo(shown)
    } else {
        VeilaError::ConfigIo(message)
    }
}

/// The theme that was set is the theme that is read, and after it was taken out none is.
pub proof fn law_theme_set_is_theme_read(table: Map<Seq<char>, TomlTree>, theme: Seq<char>)
    requires
        valid_theme_name(theme),
        theme.len() > 0,
    ensures
        theme_of(with_theme(table, theme)) == Ok::<Option<Seq<char>>, Seq<char>>(Some(theme)),
        theme_of(TomlTree::Table(table.remove("theme"@))) == Ok::<Option<Seq<char>>, Seq<char>>(
            None,
        ),
{
    assert(theme_char(theme[0]) && theme_char(theme.last()));
    text::lemma_trimmed_stays(theme);
}

/// Once a theme was taken out, taking it out again changes nothing. Where nothing or a plain
/// document is left, the second time there is also no error.
pub proof fn law_theme_is_taken_out_once(
    raw: Seq<char>,
    table: Map<Seq<char>, TomlTree>,
    first: Result<Option<String>>,
    written: String,
    second: Result<Option<String>>,
)
    requires
        reads_as(raw, TomlTree::Table(table)),
        is_unset_result(first, raw),
        first == Ok::<Option<String>, VeilaError>(Some(written)),
        is_unset_result(second, written@),
    ensures
        !(second matches Ok(Some(_))),
        table.remove("theme"@) == Map::<Seq<char>, TomlTree>::empty()
            || toml_value::is_plain_table(TomlTree::Table(table.remove("theme"@))) ==> (
        second matches Ok(None)),
{
}

/// A theme name never leads out of the theme directory: its file name has no separator, so it
/// is appended to the directory.
pub proof fn law_theme_file_stays_in_its_directory(theme: Seq<char>, directory: Seq<u8>)
    requires
        valid_theme_name(theme),
    ensures
        forall|i: int|
            0 <= i < theme_file_name(theme).len() ==> #[trigger] theme_file_name(theme)[i] != '/',
        path::directory_of(path::path_join(directory, utf8::encode_utf8(theme_file_name(theme))))
            == Some(path::trimmed(directory)),
{
    reveal_strlit(".toml");
    let name = theme_file_name(theme);
    assert forall|i: int| 0 <= i < name.len() implies #[trigger] name[i] != '/' && (name[i]
        as u32) < 128 by {
        if i < theme.len() {
            assert(theme_char(theme[i]));
        } else {
            assert(name[i] == ".toml"@[i - theme.len()]);
        }
    }
    assert(utf8::is_ascii_chars(name));
    utf8::is_ascii_chars_encode_utf8(name);
    let bytes = utf8::encode_utf8(name);
    assert forall|i: int| 0 <= i < bytes.len() implies #[trigger] bytes[i] != 47u8 by {
        assert(bytes[i] == name[i] as u8);
    }
    path::law_joined_name_lies_in_its_directory(directory, bytes);
}

/// The composed configuration holds what the user set, whatever theme and documents lie below.
pub proof fn law_user_settings_win(
    base: TomlTree,
    theme: Option<TomlTree>,
    layers: Seq<TomlTree>,
    user: TomlTree,
    path: Seq<Seq<char>>,
)
    requires
        path.len() > 0,
        path[0] != "theme"@,
        path[0] != "include"@,
        merge::lookup(user, path) matches Some(value) && !(value is Table),
    ensures
        merge::lookup(composed(base, theme, layers, user), path) == merge::lookup(user, path),
{
    let themed = match theme {
        Some(theme) => merge::layered(base, theme),
        None => base,
    };
    let below = stacked(themed, layers);
    merge::law_upper_layer_wins(below, merge::without_metadata(user), path);
}

/// A theme is asked for by letters, digits, hyphens and underscores, and by at least one of them;
/// a document without a theme asks for none, and one whose theme is no text is refused.
pub proof fn law_asked_for_themes_have_plain_names(table: Map<Seq<char>, TomlTree>, i: int)
    ensures
        theme_of(TomlTree::Table(table)) matches Ok(Some(name)) ==> {
            &&& name.len() > 0
            &&& 0 <= i < name.len() ==> ({
                let code = name[i] as int;
                48 <= code <= 57 || 65 <= code <= 90 || 97 <= code <= 122 || code == 45 || code
                    == 95
            })
        },
        !table.contains_key("theme"@) ==> theme_of(TomlTree::Table(table)) == Ok::<
            Option<Seq<char>>,
            Seq<char>,
        >(None),
        table.contains_key("theme"@) && !(table["theme"@] is Text) ==> theme_of(
            TomlTree::Table(table),
        ) is Err,
{
}

/// A name is valid where each of its characters may stand in a name, so names that are joined are
/// valid where both are; a separator, a point or a blank may not.
pub proof fn law_theme_names_are_checked_throughout(first: Seq<char>, second: Seq<char>)
    ensures
        valid_theme_name(first + second) <==> valid_theme_name(first) && valid_theme_name(second),
        !theme_char('/') && !theme_char('.') && !theme_char(' ') && !theme_char('\\'),
        theme_char('a') && theme_char('z') && theme_char('A') && theme_char('Z') && theme_char('0')
            && theme_char('9') && theme_char('-') && theme_char('_'),
{
    let whole = first + second;
    if valid_theme_name(whole) {
        assert forall|i: int| 0 <= i < first.len() implies theme_char(#[trigger] first[i]) by {
            assert(whole[i] == first[i]);
        }
        assert forall|i: int| 0 <= i < second.len() implies theme_char(#[trigger] second[i]) by {
            assert(whole[first.len() + i] == second[i]);
        }
    }
}

/// The user's configuration lies below the directory that is set for configurations, and only
/// without one below the home directory; without both there is none.
pub proof fn law_configuration_home_comes_first(config_home: Seq<u8>, home: Option<Seq<u8>>)
    ensures
        user_config_bytes(Some(config_home), home) == user_config_bytes(Some(config_home), None),
        home is Some ==> user_config_bytes(None, home) == user_config_bytes(
            Some(path::path_join(home->0, utf8::encode_utf8(".config"@))),
            None,
        ),
        user_config_bytes(None, None) is None,
        user_config_bytes(Some(config_home), home) is Some,
{
}

/// What neither the user nor a further layer sets is as the theme has it, and what the theme leaves
/// open is as the built-in settings have it.
pub proof fn law_theme_stands_below_the_user(
    base: TomlTree,
    theme: TomlTree,
    user: TomlTree,
    path: Seq<Seq<char>>,
)
    requires
        path.len() > 0,
        path[0] != "theme"@,
        path[0] != "include"@,
        merge::leaves_open(merge::without_metadata(user), path),
        !merge::meets_flat_setting(merge::without_metadata(user), path),
    ensures
        (merge::lookup(theme, path) matches Some(value) && !(value is Table)) ==> merge::lookup(
            composed(base, Some(theme), Seq::empty(), user),
            path,
        ) == merge::lookup(theme, path),
        merge::leaves_open(theme, path) && !merge::meets_flat_setting(theme, path)
            ==> merge::lookup(composed(base, Some(theme), Seq::empty(), user), path)
            == merge::lookup(base, path),
        merge::lookup(composed(base, None, Seq::empty(), user), path) == merge::lookup(base, path),
{
    let bare = merge::without_metadata(user);
    let themed = merge::layered(base, theme);
    let none = Seq::<TomlTree>::empty();
    assert(stacked(themed, none) == themed);
    assert(stacked(base, none) == base);
    merge::law_rest_of_the_lower_layer_is_kept(themed, bare, path);
    merge::law_rest_of_the_lower_layer_is_kept(base, bare, path);
    merge::law_nothing_else_is_stripped(merge::layered(themed, bare), path);
    merge::law_nothing_else_is_stripped(merge::layered(base, bare), path);
    if merge::lookup(theme, path) matches Some(value) && !(value is Table) {
        merge::law_upper_layer_wins(base, theme, path);
    }
    if merge::leaves_open(theme, path) && !merge::meets_flat_setting(theme, path) {
        merge::law_rest_of_the_lower_layer_is_kept(base, theme, path);
    }
}

/// Of several layers the last one wins over the others and over the theme.
pub proof fn law_last_layer_wins(
    base: TomlTree,
    layers: Seq<TomlTree>,
    last: TomlTree,
    path: Seq<Seq<char>>,
)
    requires
        merge::lookup(last, path) matches Some(value) && !(value is Table),
    ensures
        merge::lookup(stacked(base, layers.push(last)), path) == merge::lookup(last, path),
{
    assert(layers.push(last).drop_last() == layers);
    merge::law_upper_layer_wins(stacked(base, layers), last, path);
}

} // verus!
