use veila::common::config::{
    active_theme_name, compose_config, config_base, config_dir_for_theme_lookup, default_config_path,
    default_config_value, extract_theme_name, from_default_layers, selected_config_path,
    writable_config_path, init_config, load_plan, parse_toml_value, resolve_default_path,
    resolve_theme_path, set_theme_in_config, unset_theme_in_config, user_config_path,
    user_theme_path, validate_theme_name, write_failure, AppConfig, ConfigBase,
    LoadPlan,
};
use veila::common::error::VeilaError;
use veila::common::merge::{merge_config_layer, merge_toml_values, remove_config_metadata};
use veila::common::path::{same_optional, FilePath};
use veila::common::settings::{BatteryConfig, WeatherConfig};
use veila::common::text::{contains_words, decimal_text, hex_text, joined};
use veila::common::themes::bundled_theme_names;

fn path(text: &str) -> FilePath {
    FilePath::new(text)
}

#[test]
fn existing_user_config_wins_over_system_config() {
    let resolved = resolve_default_path(Some(path("/t/user.toml")), true, path("/t/system.toml"), true);
    assert_eq!(resolved, Some(path("/t/user.toml")));
}

#[test]
fn system_config_is_used_when_user_config_is_missing() {
    let resolved =
        resolve_default_path(Some(path("/t/missing.toml")), false, path("/t/system.toml"), true);
    assert_eq!(resolved, Some(path("/t/system.toml")));
}

#[test]
fn system_config_is_used_when_user_path_cannot_be_resolved() {
    let resolved = resolve_default_path(None, false, path("/t/system.toml"), true);
    assert_eq!(resolved, Some(path("/t/system.toml")));
}

#[test]
fn user_path_is_returned_when_neither_config_exists() {
    let resolved =
        resolve_default_path(Some(path("/t/missing.toml")), false, path("/t/also-missing.toml"), false);
    assert_eq!(resolved, Some(path("/t/missing.toml")));
}

#[test]
fn nothing_resolves_when_user_path_is_absent_and_system_config_is_missing() {
    assert_eq!(
        resolve_default_path(None, false, path("/nonexistent/veila/config.toml"), false),
        None
    );
}

#[test]
fn default_path_names_the_system_file() {
    assert_eq!(
        default_config_path(None, false, true),
        Some(path("/etc/veila/config.toml"))
    );
    assert_eq!(default_config_path(None, false, false), None);
}

#[test]
fn user_config_lies_below_the_config_root_or_home() {
    assert_eq!(
        user_config_path(Some(path("/cfg/")), Some(path("/home/me"))),
        Some(path("/cfg/veila/config.toml"))
    );
    assert_eq!(
        user_config_path(None, Some(path("/home/me"))),
        Some(path("/home/me/.config/veila/config.toml"))
    );
    assert_eq!(user_config_path(None, None), None);
}

#[test]
fn plans_what_to_load() {
    assert_eq!(load_plan(None, false, false), LoadPlan::BuiltIn);
    assert_eq!(load_plan(Some(path("/a")), true, false), LoadPlan::ReportMissing(path("/a")));
    assert_eq!(load_plan(Some(path("/a")), false, false), LoadPlan::DefaultLayers);
    assert_eq!(load_plan(Some(path("/a")), true, true), LoadPlan::File(path("/a")));
}

#[test]
fn visual_avatar_wins_over_lock_avatar() {
    let mut config = AppConfig::default();
    assert_eq!(config.avatar_image_path(), None);
    config.lock.avatar_path = Some(path("/lock.png"));
    assert_eq!(config.avatar_image_path(), Some(&path("/lock.png")));
    config.visuals.avatar_image_path = Some(path("/visual.png"));
    assert_eq!(config.avatar_image_path(), Some(&path("/visual.png")));
}

#[test]
fn theme_names_are_plain_file_names() {
    assert!(validate_theme_name("Nord_2-dark").is_ok());
    for bad in ["../escape", "a.b", "a b", "ä"] {
        match validate_theme_name(bad) {
            Err(VeilaError::InvalidThemeName(name)) => assert_eq!(name, bad),
            other => panic!("{other:?}"),
        }
    }
}

#[test]
fn reads_the_theme_a_config_asks_for() {
    assert_eq!(active_theme_name("theme = \"  nord \"\n").unwrap(), Some(String::from("nord")));
    assert_eq!(active_theme_name("theme = \"  \"\n").unwrap(), None);
    assert_eq!(active_theme_name("[lock]\n").unwrap(), None);
    assert!(matches!(
        active_theme_name("theme = 3\n"),
        Err(VeilaError::InvalidThemeName(name)) if name == "<non-string>"
    ));
    assert!(matches!(
        active_theme_name("theme = \"a/b\"\n"),
        Err(VeilaError::InvalidThemeName(name)) if name == "a/b"
    ));
    assert!(matches!(active_theme_name("theme = "), Err(VeilaError::ConfigParse(_))));
}

#[test]
fn theme_that_was_set_is_read_back_and_can_be_taken_out() {
    let text = set_theme_in_config(Some("[lock]\nsuspend_seconds = 5\n"), "nord").unwrap();
    assert_eq!(active_theme_name(&text).unwrap(), Some(String::from("nord")));
    assert!(text.contains("suspend_seconds = 5"));

    let without = unset_theme_in_config(Some(&text)).unwrap().expect("a theme was set");
    assert_eq!(active_theme_name(&without).unwrap(), None);
    assert!(without.contains("suspend_seconds = 5"));
    assert_eq!(unset_theme_in_config(Some(&without)).unwrap(), None);

    let only = set_theme_in_config(None, "nord").unwrap();
    assert_eq!(only, "theme = \"nord\"\n");
    assert_eq!(unset_theme_in_config(Some(&only)).unwrap(), Some(String::new()));
    assert_eq!(unset_theme_in_config(Some("")).unwrap(), None);
    assert_eq!(unset_theme_in_config(None).unwrap(), None);
    assert!(matches!(unset_theme_in_config(Some("a =")), Err(VeilaError::ConfigParse(_))));
    assert!(matches!(set_theme_in_config(None, "a/b"), Err(VeilaError::InvalidThemeName(_))));
    assert!(matches!(set_theme_in_config(Some("x="), "a"), Err(VeilaError::ConfigParse(_))));
}

#[test]
fn initial_config_is_not_overwritten_without_force() {
    assert_eq!(init_config("nord", false, false).unwrap(), "theme = \"nord\"\n");
    assert_eq!(init_config("nord", true, true).unwrap(), "theme = \"nord\"\n");
    assert_eq!(
        init_config("nord", true, false).unwrap_err().to_string(),
        "config already exists; pass --force to replace it"
    );
    assert!(init_config("no/rd", false, false).is_err());
}

#[test]
fn user_theme_wins_over_bundled_theme() {
    let user = user_theme_path(&path("/cfg"), "nord");
    assert_eq!(user, path("/cfg/themes/nord.toml"));
    let bundled = veila::common::config::bundled_theme_path(&path("/usr/share/veila/"), "nord");
    assert_eq!(bundled, path("/usr/share/veila/nord.toml"));
    assert_eq!(
        resolve_theme_path("nord", Some(user.clone()), true, bundled.clone(), true).unwrap(),
        user
    );
    assert_eq!(
        resolve_theme_path("nord", Some(user.clone()), false, bundled.clone(), true).unwrap(),
        bundled
    );
    let error = resolve_theme_path("nord", None, true, bundled, false).unwrap_err();
    assert_eq!(error.to_string(), "theme not found: nord");
}

#[test]
fn layers_compose_in_order() {
    let base = parse_toml_value("a = 1\nb = 1\nc = 1\nd = 1\n[t]\nx = 1\ny = 1\n").unwrap();
    let theme = parse_toml_value("b = 2\nc = 2\nd = 2\n").unwrap();
    let layer = parse_toml_value("c = 3\nd = 3\n").unwrap();
    let user = parse_toml_value("theme = \"nord\"\ninclude = []\nd = 4\n[t]\ny = 2\n").unwrap();
    let composed = compose_config(base, Some(theme), vec![layer], user);
    let expected = parse_toml_value("a = 1\nb = 2\nc = 3\nd = 4\n[t]\nx = 1\ny = 2\n").unwrap();
    assert_eq!(composed, expected);
}

#[test]
fn later_layers_cover_earlier_ones() {
    let base = parse_toml_value("").unwrap();
    let first = parse_toml_value("a = 1\nb = 1\n").unwrap();
    let second = parse_toml_value("a = 2\n").unwrap();
    let composed = compose_config(base, None, vec![first, second], parse_toml_value("").unwrap());
    assert_eq!(composed, parse_toml_value("a = 2\nb = 1\n").unwrap());
}

#[test]
fn flat_visual_setting_drops_the_nested_one_below() {
    let base = parse_toml_value("[visuals.clock]\ncolor = \"red\"\nformat = \"24h\"\n").unwrap();
    let user = parse_toml_value("[visuals]\nclock_color = \"blue\"\n").unwrap();
    let composed = compose_config(base, None, Vec::new(), user);
    let expected = parse_toml_value(
        "[visuals]\nclock_color = \"blue\"\n[visuals.clock]\nformat = \"24h\"\n",
    )
    .unwrap();
    assert_eq!(composed, expected);
}

#[test]
fn default_layers_put_the_default_theme_over_the_built_in_settings() {
    let built_in = parse_toml_value("a = 1\nb = 1\n").unwrap();
    let theme = parse_toml_value("theme = \"x\"\nb = 2\n").unwrap();
    assert_eq!(
        from_default_layers(built_in.clone(), Some(theme)),
        parse_toml_value("a = 1\nb = 2\n").unwrap()
    );
    assert_eq!(default_config_value(built_in.clone(), None), built_in);
}

#[test]
fn read_only_config_is_explained() {
    assert_eq!(
        write_failure(true, "/nix/veila.toml", String::from("denied")).to_string(),
        "cannot write /nix/veila.toml: the config file is read-only, so it is likely managed declaratively; change it at its source instead"
    );
    assert_eq!(write_failure(false, "/a", String::from("full")).to_string(), "full");
}

#[test]
fn bundled_themes_are_listed_in_order() {
    let files: Vec<FilePath> = ["nord.toml", "README.md", ".toml", "default.toml", "nord2.toml", "Nord.toml"]
        .iter()
        .map(|name| path(name))
        .collect();
    let names = bundled_theme_names(&files).expect("names");
    assert_eq!(names, vec!["Nord", "default", "nord", "nord2"]);
    let unreadable = vec![FilePath { bytes: vec![0xff, 46, 116, 111, 109, 108] }];
    assert_eq!(bundled_theme_names(&unreadable).expect("names"), Vec::<String>::new());
    match bundled_theme_names(&vec![path("ok.toml"), path("a.b.toml"), path("c d.toml")]) {
        Err(VeilaError::InvalidThemeName(name)) => assert_eq!(name, "a.b"),
        other => panic!("{other:?}"),
    }
}

#[test]
fn tables_merge_and_other_values_are_replaced() {
    let base = || parse_toml_value("a = 1\n[t]\nx = 1\ny = [1, 2]\n").unwrap();
    let over = || parse_toml_value("[t]\ny = [3]\nz = \"n\"\n").unwrap();
    let expected = parse_toml_value("a = 1\n[t]\nx = 1\ny = [3]\nz = \"n\"\n").unwrap();
    assert_eq!(merge_toml_values(base(), over()), expected);
    assert_eq!(merge_config_layer(base(), over()), expected);
    let marked = parse_toml_value("theme = \"nord\"\ninclude = []\na = 1\n").unwrap();
    assert_eq!(extract_theme_name(&marked).unwrap(), Some(String::from("nord")));
    assert_eq!(remove_config_metadata(marked), parse_toml_value("a = 1\n").unwrap());
}

#[test]
fn explicit_paths_come_first() {
    assert_eq!(
        selected_config_path(Some(path("/mine.toml")), Some(path("/default.toml"))),
        Some(path("/mine.toml"))
    );
    assert_eq!(selected_config_path(None, Some(path("/d.toml"))), Some(path("/d.toml")));
    assert_eq!(selected_config_path(None, None), None);
}

#[test]
fn paths_are_joined() {
    assert_eq!(path("/a").join("b"), path("/a/b"));
    assert_eq!(path("/a/").join("b"), path("/a/b"));
    assert_eq!(path("/a").join("/b"), path("/b"));
    assert_eq!(path("/a").join_bytes(b"c"), path("/a/c"));
    assert!(path("/a").same_as(&path("/a")) && !path("/a").same_as(&path("/b")));
    assert!(same_optional(None, None) && !same_optional(None, Some(&path("/a"))));
}

#[test]
fn paths_are_equal_by_their_parts() {
    assert_eq!(path("/a//b"), path("/a/b/"));
    assert_eq!(path("/a/./b"), path("/a/b"));
    assert_eq!(path("./a/."), path("./a"));
    assert_ne!(path("./a"), path("a"));
    assert_ne!(path("a"), path("/a"));
    assert_ne!(path("a/../b"), path("b"));
    assert_ne!(path("/a/b"), path("/a"));
    assert_eq!(path(""), path(""));
}

#[test]
fn paths_come_apart_as_directory_and_name() {
    let cases: [(&str, Option<&str>, Option<&str>); 11] = [
        ("/a/b", Some("/a"), Some("b")),
        ("/a//b/", Some("/a"), Some("b")),
        ("a/./b/.", Some("a"), Some("b")),
        ("/a", Some("/"), Some("a")),
        ("a", Some(""), Some("a")),
        ("./a", Some("."), Some("a")),
        (".", Some(""), None),
        ("a/..", Some("a"), None),
        ("//", None, None),
        ("", None, None),
        ("/.hidden", Some("/"), Some(".hidden")),
    ];
    for (whole, directory, name) in cases {
        let found = path(whole).parent().map(|directory| directory.bytes);
        assert_eq!(found, directory.map(|text| text.as_bytes().to_vec()), "{whole}");
        let found = path(whole).file_name();
        assert_eq!(found, name.map(|text| text.as_bytes().to_vec()), "{whole}");
        let standard = std::path::Path::new(whole);
        assert_eq!(standard.parent().and_then(|directory| directory.to_str()), directory);
        assert_eq!(standard.file_name().and_then(|name| name.to_str()), name);
    }
    assert_eq!(path("/a/b").with_file_name(b"c").bytes, b"/a/c".to_vec());
    assert_eq!(path("/a/..").with_file_name(b"c").bytes, b"/a/../c".to_vec());
}

#[test]
fn settings_are_written_to_the_path_asked_for_or_the_users_own() {
    let mine = path("/mine.toml");
    let user = path("/home/me/config.toml");
    assert_eq!(
        writable_config_path(Some(mine.clone()), Some(user.clone())).expect("explicit"),
        mine
    );
    assert_eq!(writable_config_path(None, Some(user.clone())).expect("user"), user);
    let Err(VeilaError::ConfigIo(message)) = writable_config_path(None, None) else {
        panic!("there is no path to write to");
    };
    assert_eq!(message, "failed to resolve default config path");
}

#[test]
fn themes_are_looked_for_beside_the_config() {
    let mine = path("/mine/config.toml");
    let user = path("/home/me/config.toml");
    assert_eq!(config_dir_for_theme_lookup(Some(&mine), Some(&user)), Some(path("/mine")));
    assert_eq!(config_dir_for_theme_lookup(Some(&path("/")), Some(&user)), Some(path("/home/me")));
    assert_eq!(config_dir_for_theme_lookup(None, Some(&user)), Some(path("/home/me")));
    assert_eq!(config_dir_for_theme_lookup(None, None), None);
}

#[test]
fn numbers_and_words_are_written_out() {
    assert_eq!(decimal_text(1_204), "1204");
    assert_eq!(decimal_text(0), "0");
    assert_eq!(hex_text(0xbeef, 6), "00beef");
    assert_eq!(joined("a", "b"), "ab");
    assert!(contains_words("one two", "e t") && !contains_words("one", "two"));
    assert!(contains_words("x", ""));
}

#[test]
fn mocked_batteries_and_locations_are_settled() {
    let config = AppConfig::default();
    assert_eq!(BatteryConfig::mock_snapshot(&config.battery), None);
    assert_eq!(WeatherConfig::normalized_location(&config.weather), None);
}

#[test]
fn plain_settings_read_back_as_they_were_written() {
    let deep: Vec<String> = (0..15).map(|level| format!("t{level}")).collect();
    let text = format!(
        "theme = \"old\"\n1979-05-27 = \"true\"\n- = \"\"\n[empty]\n[outer]\nkey = \"x_y-1\"\n\
         [outer.inner.empty]\n[{}]\nend = \"9\"\n",
        deep.join(".")
    );
    let mut expected = parse_toml_value(&text).expect("document");

    let set = set_theme_in_config(Some(&text), "new").expect("written");
    expected
        .as_table_mut()
        .expect("table")
        .insert(String::from("theme"), toml::Value::String(String::from("new")));
    assert_eq!(parse_toml_value(&set).expect("document"), expected);

    let unset = unset_theme_in_config(Some(&set)).expect("read").expect("a theme was set");
    expected.as_table_mut().expect("table").remove("theme");
    assert_eq!(parse_toml_value(&unset).expect("document"), expected);
    assert_eq!(unset_theme_in_config(Some(&unset)).expect("read"), None);

    let initial = init_config("plain", false, false).expect("written");
    assert_eq!(
        parse_toml_value(&initial).expect("document"),
        parse_toml_value("theme = \"plain\"").expect("document")
    );
    let empty = parse_toml_value("").expect("document");
    assert_eq!(empty, toml::Value::Table(toml::Table::new()));
}

#[test]
fn theme_stands_on_the_built_in_settings() {
    assert_eq!(config_base(Some("nord")), ConfigBase::Hardcoded);
    assert_eq!(config_base(None), ConfigBase::DefaultTheme);
}
