//! Layering of configuration documents.

use crate::common::toml_value;
use crate::common::toml_value::TomlTree;
use vstd::prelude::*;

verus! {

/// One document laid over another: tables are merged entry by entry, anything else replaces what
/// it covers.
pub open spec fn merged(base: TomlTree, over: TomlTree) -> TomlTree
    decreases over,
{
    match (base, over) {
        (TomlTree::Table(base), TomlTree::Table(over)) => TomlTree::Table(
            Map::new(
                |key: Seq<char>| base.contains_key(key) || over.contains_key(key),
                |key: Seq<char>|
                    if over.contains_key(key) {
                        if base.contains_key(key) {
                            merged(base[key], over[key])
                        } else {
                            over[key]
                        }
                    } else {
                        base[key]
                    },
            ),
        ),
        _ => over,
    }
}

/// Flat visual settings of old configurations, each with the section and the key that took its
/// place.
pub open spec fn legacy_visual_mappings() -> Seq<(Seq<char>, Seq<char>, Seq<char>)> {
    seq![
        ("input_font_family"@, "input"@, "font_family"@),
        ("input_font_weight"@, "input"@, "font_weight"@),
        ("input_font_style"@, "input"@, "font_style"@),
        ("input_font_size"@, "input"@, "font_size"@),
        ("input_border"@, "input"@, "border_color"@),
        ("input_width"@, "input"@, "width"@),
        ("input_height"@, "input"@, "height"@),
        ("input_radius"@, "input"@, "radius"@),
        ("input_border_width"@, "input"@, "border_width"@),
        ("input_mask_color"@, "input"@, "mask_color"@),
        ("avatar_background_color"@, "avatar"@, "background_color"@),
        ("avatar_size"@, "avatar"@, "size"@),
        ("avatar_placeholder_padding"@, "avatar"@, "placeholder_padding"@),
        ("avatar_icon_color"@, "avatar"@, "icon_color"@),
        ("avatar_ring_color"@, "avatar"@, "ring_color"@),
        ("avatar_ring_width"@, "avatar"@, "ring_width"@),
        ("username_color"@, "username"@, "color"@),
        ("username_font_size"@, "username"@, "font_size"@),
        ("clock_font_family"@, "clock"@, "font_family"@),
        ("clock_font_weight"@, "clock"@, "font_weight"@),
        ("clock_font_style"@, "clock"@, "font_style"@),
        ("clock_style"@, "clock"@, "style"@),
        ("clock_format"@, "clock"@, "format"@),
        ("clock_meridiem_font_size"@, "clock"@, "meridiem_font_size"@),
        ("clock_meridiem_x"@, "clock"@, "meridiem_x"@),
        ("clock_meridiem_y"@, "clock"@, "meridiem_y"@),
        ("clock_color"@, "clock"@, "color"@),
        ("clock_font_size"@, "clock"@, "font_size"@),
        ("date_color"@, "date"@, "color"@),
        ("date_font_size"@, "date"@, "font_size"@),
        ("placeholder_color"@, "placeholder"@, "color"@),
        ("eye_icon_color"@, "eye"@, "color"@),
        ("keyboard_color"@, "keyboard"@, "color"@),
        ("keyboard_background_size"@, "keyboard"@, "background_size"@),
        ("keyboard_size"@, "keyboard"@, "size"@),
        ("battery_color"@, "battery"@, "color"@),
        ("battery_background_color"@, "battery"@, "background_color"@),
        ("battery_background_size"@, "battery"@, "background_size"@),
        ("battery_size"@, "battery"@, "size"@),
        ("status_color"@, "status"@, "color"@),
        ("foreground"@, "palette"@, "foreground"@),
        ("muted"@, "palette"@, "muted"@),
        ("pending"@, "palette"@, "pending"@),
        ("rejected"@, "palette"@, "rejected"@),
    ]
}

/// Whether one of the first `count` flat settings stands in `overrides` and goes to this key of
/// this section.
pub open spec fn superseded(
    overrides: Map<Seq<char>, TomlTree>,
    section: Seq<char>,
    key: Seq<char>,
    count: int,
) -> bool {
    exists|i: int|
        0 <= i < count && #[trigger] legacy_visual_mappings()[i].1 == section
            && legacy_visual_mappings()[i].2 == key && overrides.contains_key(
            legacy_visual_mappings()[i].0,
        )
}

/// The visual sections without the keys that the first `count` flat settings supersede.
pub open spec fn without_superseded(
    visuals: Map<Seq<char>, TomlTree>,
    overrides: Map<Seq<char>, TomlTree>,
    count: int,
) -> Map<Seq<char>, TomlTree> {
    visuals.map_entries(
        |section: Seq<char>, value: TomlTree|
            match value {
                TomlTree::Table(table) => TomlTree::Table(
                    table.remove_keys(
                        Set::new(|key: Seq<char>| superseded(overrides, section, key, count)),
                    ),
                ),
                other => other,
            },
    )
}

/// The lower layer as it stands before the upper one is merged in: where the upper layer holds a
/// flat visual setting, the nested one that would win over it is dropped.
pub open spec fn legacy_adjusted(base: TomlTree, over: TomlTree) -> TomlTree {
    match (base, over) {
        (TomlTree::Table(base_table), TomlTree::Table(over_table)) => if base_table.contains_key(
            "visuals"@,
        ) && over_table.contains_key("visuals"@) {
            match (base_table["visuals"@], over_table["visuals"@]) {
                (TomlTree::Table(visuals), TomlTree::Table(overrides)) => TomlTree::Table(
                    base_table.insert(
                        "visuals"@,
                        TomlTree::Table(
                            without_superseded(
                                visuals,
                                overrides,
                                legacy_visual_mappings().len() as int,
                            ),
                        ),
                    ),
                ),
                _ => base,
            }
        } else {
            base
        },
        _ => base,
    }
}

/// One configuration layer laid over another.
pub open spec fn layered(base: TomlTree, over: TomlTree) -> TomlTree {
    merged(legacy_adjusted(base, over), over)
}

/// A document without the entries that only steer how it is loaded.
pub open spec fn without_metadata(tree: TomlTree) -> TomlTree {
    match tree {
        TomlTree::Table(table) => TomlTree::Table(table.remove("theme"@).remove("include"@)),
        other => other,
    }
}

fn legacy_visual_rows() -> (rows: Vec<(&'static str, &'static str, &'static str)>)
    ensures
        rows@.len() == legacy_visual_mappings().len(),
        forall|i: int|
            0 <= i < rows@.len() ==> (#[trigger] rows@[i]).0@ == legacy_visual_mappings()[i].0
                && rows@[i].1@ == legacy_visual_mappings()[i].1 && rows@[i].2@
                == legacy_visual_mappings()[i].2,
{
    vec![
        ("input_font_family", "input", "font_family"),
        ("input_font_weight", "input", "font_weight"),
        ("input_font_style", "input", "font_style"),
        ("input_font_size", "input", "font_size"),
        ("input_border", "input", "border_color"),
        ("input_width", "input", "width"),
        ("input_height", "input", "height"),
        ("input_radius", "input", "radius"),
        ("input_border_width", "input", "border_width"),
        ("input_mask_color", "input", "mask_color"),
        ("avatar_background_color", "avatar", "background_color"),
        ("avatar_size", "avatar", "size"),
        ("avatar_placeholder_padding", "avatar", "placeholder_padding"),
        ("avatar_icon_color", "avatar", "icon_color"),
        ("avatar_ring_color", "avatar", "ring_color"),
        ("avatar_ring_width", "avatar", "ring_width"),
        ("username_color", "username", "color"),
        ("username_font_size", "username", "font_size"),
        ("clock_font_family", "clock", "font_family"),
        ("clock_font_weight", "clock", "font_weight"),
        ("clock_font_style", "clock", "font_style"),
        ("clock_style", "clock", "style"),
        ("clock_format", "clock", "format"),
        ("clock_meridiem_font_size", "clock", "meridiem_font_size"),
        ("clock_meridiem_x", "clock", "meridiem_x"),
        ("clock_meridiem_y", "clock", "meridiem_y"),
        ("clock_color", "clock", "color"),
        ("clock_font_size", "clock", "font_size"),
        ("date_color", "date", "color"),
        ("date_font_size", "date", "font_size"),
        ("placeholder_color", "placeholder", "color"),
        ("eye_icon_color", "eye", "color"),
        ("keyboard_color", "keyboard", "color"),
        ("keyboard_background_size", "keyboard", "background_size"),
        ("keyboard_size", "keyboard", "size"),
        ("battery_color", "battery", "color"),
        ("battery_background_color", "battery", "background_color"),
        ("battery_background_size", "battery", "background_size"),
        ("battery_size", "battery", "size"),
        ("status_color", "status", "color"),
        ("foreground", "palette", "foreground"),
        ("muted", "palette", "muted"),
        ("pending", "palette", "pending"),
        ("rejected", "palette", "rejected"),
    ]
}

/// Lays `over` over `base`.
pub fn merge_toml_values(base: toml::Value, over: toml::Value) -> (result: toml::Value)
    ensures
        toml_value::toml_tree(result) == merged(
            toml_value::toml_tree(base),
            toml_value::toml_tree(over),
        ),
    decreases toml_value::toml_tree(over),
{
    let ghost base_tree = toml_value::toml_tree(base);
    let ghost over_tree = toml_value::toml_tree(over);
    let over_table = match toml_value::into_table(over) {
        Ok(table) => table,
        Err(leaf) => {
            return leaf;
        },
    };
    let mut table = match toml_value::into_table(base) {
        Ok(table) => table,
        Err(_) => {
            return toml_value::table_value(over_table);
        },
    };
    let ghost base_map = toml_value::table_tree(table);
    let ghost over_map = toml_value::table_tree(over_table);
    let mut entries = toml_value::table_entries(over_table);
    let ghost all = entries@;
    let ghost mut done: Set<Seq<char>> = Set::empty();
    while entries.len() > 0
        invariant
            over_tree == toml_value::toml_tree(over),
            over_tree == TomlTree::Table(over_map),
            entries@.len() <= all.len(),
            entries@ == all.take(entries@.len() as int),
            forall|i: int|
                0 <= i < all.len() ==> over_map.contains_key(#[trigger] all[i].0@)
                    && over_map[all[i].0@] == toml_value::toml_tree(all[i].1),
            forall|i: int, j: int|
                0 <= i < j < all.len() ==> #[trigger] all[i].0@ != #[trigger] all[j].0@,
            forall|i: int| 0 <= i < entries@.len() ==> !done.contains(#[trigger] all[i].0@),
            forall|key: Seq<char>|
                #![trigger over_map.contains_key(key)]
                #![trigger done.contains(key)]
                over_map.contains_key(key) && !done.contains(key) ==> exists|i: int|
                    0 <= i < entries@.len() && #[trigger] all[i].0@ == key,
            forall|key: Seq<char>| done.contains(key) ==> over_map.contains_key(key),
            forall|key: Seq<char>| #[trigger]
                toml_value::table_tree(table).contains_key(key) <==> base_map.contains_key(key)
                    || done.contains(key),
            forall|key: Seq<char>| #[trigger]
                toml_value::table_tree(table).contains_key(key) ==> toml_value::table_tree(
                    table,
                )[key] == if done.contains(key) {
                    if base_map.contains_key(key) {
                        merged(base_map[key], over_map[key])
                    } else {
                        over_map[key]
                    }
                } else {
                    base_map[key]
                },
        decreases entries.len(),
    {
        let ghost last = entries@.len() - 1;
        let popped = entries.pop();
        if let Some((key, entry)) = popped {
            assert(all[last] == (key, entry));
            assert(over_map.contains_key(all[last].0@));
            assert(!done.contains(all[last].0@));
            let ghost text = key@;
            let ghost before = done;
            let ghost remaining = entries@.len();
            match toml_value::table_remove(&mut table, key.as_str()) {
                Some(below) => {
                    assert(decreases_to!(over_tree => over_tree->Table_0[text]));
                    let value = merge_toml_values(below, entry);
                    toml_value::table_insert(&mut table, key, value);
                },
                None => {
                    toml_value::table_insert(&mut table, key, entry);
                },
            }
            proof {
                done = done.insert(text);
                assert forall|k: Seq<char>| over_map.contains_key(k) && !done.contains(k) implies exists|
                    i: int,
                | 0 <= i < entries@.len() && #[trigger] all[i].0@ == k by {
                    let i = choose|i: int| 0 <= i < remaining + 1 && #[trigger] all[i].0@ == k;
                    assert(i != last);
                }
                assert forall|i: int| 0 <= i < entries@.len() implies !done.contains(
                    #[trigger] all[i].0@,
                ) by {
                    assert(all[i].0@ != all[last].0@);
                }
            }
        }
    }
    proof {
        let result = toml_value::table_tree(table);
        let expected = merged(TomlTree::Table(base_map), over_tree)->Table_0;
        assert forall|key: Seq<char>| #[trigger]
            result.contains_key(key) == expected.contains_key(key) by {
            if over_map.contains_key(key) {
                assert(done.contains(key));
            }
        }
        assert forall|key: Seq<char>| result.contains_key(key) implies #[trigger] result[key]
            == expected[key] by {
            if over_map.contains_key(key) {
                assert(done.contains(key));
            }
        }
        assert(result =~= expected);
    }
    toml_value::table_value(table)
}

/// A visual section table without one of its keys.
pub open spec fn without_nested(
    visuals: Map<Seq<char>, TomlTree>,
    section: Seq<char>,
    key: Seq<char>,
) -> Map<Seq<char>, TomlTree> {
    if visuals.contains_key(section) {
        match visuals[section] {
            TomlTree::Table(table) => visuals.insert(section, TomlTree::Table(table.remove(key))),
            _ => visuals,
        }
    } else {
        visuals
    }
}

fn remove_nested_visual_value(
    base_visuals: toml::map::Map<String, toml::Value>,
    section: &str,
    nested_key: &str,
) -> (result: toml::map::Map<String, toml::Value>)
    ensures
        toml_value::table_tree(result) == without_nested(
            toml_value::table_tree(base_visuals),
            section@,
            nested_key@,
        ),
{
    let ghost before = toml_value::table_tree(base_visuals);
    let mut visuals = base_visuals;
    match toml_value::table_remove(&mut visuals, section) {
        None => {
            assert(before.remove(section@) =~= before);
        },
        Some(value) => match toml_value::into_table(value) {
            Ok(nested) => {
                let mut nested = nested;
                let _ = toml_value::table_remove(&mut nested, nested_key);
                toml_value::table_insert(
                    &mut visuals,
                    section.to_owned(),
                    toml_value::table_value(nested),
                );
                assert(toml_value::table_tree(visuals) =~= without_nested(
                    before,
                    section@,
                    nested_key@,
                ));
            },
            Err(other) => {
                toml_value::table_insert(&mut visuals, section.to_owned(), other);
                assert(toml_value::table_tree(visuals) =~= before);
            },
        },
    }
    visuals
}

proof fn lemma_superseded_step(
    visuals: Map<Seq<char>, TomlTree>,
    overrides: Map<Seq<char>, TomlTree>,
    count: int,
)
    requires
        0 <= count < legacy_visual_mappings().len(),
    ensures
        without_superseded(visuals, overrides, count + 1) == if overrides.contains_key(
            legacy_visual_mappings()[count].0,
        ) {
            without_nested(
                without_superseded(visuals, overrides, count),
                legacy_visual_mappings()[count].1,
                legacy_visual_mappings()[count].2,
            )
        } else {
            without_superseded(visuals, overrides, count)
        },
{
    let row = legacy_visual_mappings()[count];
    let hit = overrides.contains_key(row.0);
    let after = without_superseded(visuals, overrides, count + 1);
    let before = without_superseded(visuals, overrides, count);
    let expected = if hit {
        without_nested(before, row.1, row.2)
    } else {
        before
    };
    assert forall|section: Seq<char>, key: Seq<char>|
        superseded(overrides, section, key, count + 1) == (superseded(
            overrides,
            section,
            key,
            count,
        ) || (hit && section == row.1 && key == row.2)) by {
        if superseded(overrides, section, key, count + 1) {
            let i = choose|i: int|
                0 <= i < count + 1 && #[trigger] legacy_visual_mappings()[i].1 == section
                    && legacy_visual_mappings()[i].2 == key && overrides.contains_key(
                    legacy_visual_mappings()[i].0,
                );
            if i < count {
                assert(superseded(overrides, section, key, count));
            }
        }
        if superseded(overrides, section, key, count) {
            let i = choose|i: int|
                0 <= i < count && #[trigger] legacy_visual_mappings()[i].1 == section
                    && legacy_visual_mappings()[i].2 == key && overrides.contains_key(
                    legacy_visual_mappings()[i].0,
                );
            assert(legacy_visual_mappings()[i].1 == section);
        }
        if hit && section == row.1 && key == row.2 {
            assert(legacy_visual_mappings()[count].1 == section);
        }
    }
    assert forall|section: Seq<char>| visuals.contains_key(section) implies #[trigger] after[section]
        == expected[section] by {
        match visuals[section] {
            TomlTree::Table(table) => {
                assert(after[section]->Table_0 =~= expected[section]->Table_0);
            },
            _ => {},
        }
    }
    assert(after =~= expected);
}

proof fn lemma_superseded_none(
    visuals: Map<Seq<char>, TomlTree>,
    overrides: Map<Seq<char>, TomlTree>,
)
    ensures
        without_superseded(visuals, overrides, 0) == visuals,
{
    let result = without_superseded(visuals, overrides, 0);
    assert forall|section: Seq<char>| visuals.contains_key(section) implies #[trigger] result[section]
        == visuals[section] by {
        match visuals[section] {
            TomlTree::Table(table) => {
                assert(result[section]->Table_0 =~= table);
            },
            _ => {},
        }
    }
    assert(result =~= visuals);
}

fn drop_superseded_visuals(
    visuals: toml::map::Map<String, toml::Value>,
    overrides: &toml::map::Map<String, toml::Value>,
) -> (result: toml::map::Map<String, toml::Value>)
    ensures
        toml_value::table_tree(result) == without_superseded(
            toml_value::table_tree(visuals),
            toml_value::table_tree(*overrides),
            legacy_visual_mappings().len() as int,
        ),
{
    let rows = legacy_visual_rows();
    let ghost before = toml_value::table_tree(visuals);
    let mut result = visuals;
    proof {
        lemma_superseded_none(before, toml_value::table_tree(*overrides));
    }
    let mut index: usize = 0;
    while index < rows.len()
        invariant
            index <= rows.len(),
            rows@.len() == legacy_visual_mappings().len(),
            forall|i: int|
                0 <= i < rows@.len() ==> (#[trigger] rows@[i]).0@ == legacy_visual_mappings()[i].0
                    && rows@[i].1@ == legacy_visual_mappings()[i].1 && rows@[i].2@
                    == legacy_visual_mappings()[i].2,
            toml_value::table_tree(result) == without_superseded(
                before,
                toml_value::table_tree(*overrides),
                index as int,
            ),
        decreases rows.len() - index,
    {
        let (flat_key, section, nested_key) = rows[index];
        proof {
            assert(rows@[index as int].0@ == legacy_visual_mappings()[index as int].0);
            lemma_superseded_step(before, toml_value::table_tree(*overrides), index as int);
        }
        if toml_value::table_contains(overrides, flat_key) {
            result = remove_nested_visual_value(result, section, nested_key);
        }
        index += 1;
    }
    result
}

fn apply_legacy_visual_override_precedence(base: toml::Value, over: &toml::Value) -> (result:
    toml::Value)
    ensures
        toml_value::toml_tree(result) == legacy_adjusted(
            toml_value::toml_tree(base),
            toml_value::toml_tree(*over),
        ),
{
    let overrides = match toml_value::value_entry(over, "visuals") {
        Some(value) => match toml_value::value_table(value) {
            Some(table) => table,
            None => {
                return base;
            },
        },
        None => {
            return base;
        },
    };
    let mut table = match toml_value::into_table(base) {
        Ok(table) => table,
        Err(other) => {
            return other;
        },
    };
    let ghost before = toml_value::table_tree(table);
    match toml_value::table_remove(&mut table, "visuals") {
        None => {
            assert(before.remove("visuals"@) =~= before);
        },
        Some(value) => match toml_value::into_table(value) {
            Ok(visuals) => {
                let visuals = drop_superseded_visuals(visuals, overrides);
                toml_value::table_insert(
                    &mut table,
                    "visuals".to_owned(),
                    toml_value::table_value(visuals),
                );
                assert(toml_value::table_tree(table) =~= before.insert(
                    "visuals"@,
                    TomlTree::Table(toml_value::table_tree(visuals)),
                ));
            },
            Err(other) => {
                toml_value::table_insert(&mut table, "visuals".to_owned(), other);
                assert(toml_value::table_tree(table) =~= before);
            },
        },
    }
    toml_value::table_value(table)
}

/// Lays one configuration layer over another.
pub fn merge_config_layer(base: toml::Value, over: toml::Value) -> (result: toml::Value)
    ensures
        toml_value::toml_tree(result) == layered(
            toml_value::toml_tree(base),
            toml_value::toml_tree(over),
        ),
{
    let adjusted = apply_legacy_visual_override_precedence(base, &over);
    merge_toml_values(adjusted, over)
}

/// Takes out the entries that only steer how a document is loaded.
pub fn remove_config_metadata(value: toml::Value) -> (result: toml::Value)
    ensures
        toml_value::toml_tree(result) == without_metadata(toml_value::toml_tree(value)),
{
    match toml_value::into_table(value) {
        Ok(table) => {
            let mut table = table;
            let _ = toml_value::table_remove(&mut table, "theme");
            let _ = toml_value::table_remove(&mut table, "include");
            toml_value::table_value(table)
        },
        Err(other) => other,
    }
}

/// The entry a path of keys leads to, through nested tables.
pub open spec fn lookup(tree: TomlTree, path: Seq<Seq<char>>) -> Option<TomlTree>
    decreases path.len(),
{
    if path.len() == 0 {
        Some(tree)
    } else {
        match tree {
            TomlTree::Table(table) => if table.contains_key(path[0]) {
                lookup(table[path[0]], path.skip(1))
            } else {
                None
            },
            _ => None,
        }
    }
}

/// Whether a document leaves a path open: it is a table along the path up to a key that it does
/// not set.
pub open spec fn leaves_open(tree: TomlTree, path: Seq<Seq<char>>) -> bool
    decreases path.len(),
{
    path.len() > 0 && (tree matches TomlTree::Table(table) && (table.contains_key(path[0])
        ==> leaves_open(table[path[0]], path.skip(1))))
}

proof fn lemma_merged_takes_over(base: TomlTree, over: TomlTree, path: Seq<Seq<char>>)
    requires
        lookup(over, path) matches Some(value) && !(value is Table),
    ensures
        lookup(merged(base, over), path) == lookup(over, path),
    decreases path.len(),
{
    if path.len() > 0 {
        match (base, over) {
            (TomlTree::Table(below), TomlTree::Table(above)) => {
                if below.contains_key(path[0]) {
                    lemma_merged_takes_over(below[path[0]], above[path[0]], path.skip(1));
                }
            },
            _ => {},
        }
    }
}

/// What an upper layer sets is what the layered configuration holds, whatever lies below.
pub proof fn law_upper_layer_wins(base: TomlTree, over: TomlTree, path: Seq<Seq<char>>)
    requires
        lookup(over, path) matches Some(value) && !(value is Table),
    ensures
        lookup(layered(base, over), path) == lookup(over, path),
{
    lemma_merged_takes_over(legacy_adjusted(base, over), over, path);
}

/// What an upper layer leaves open stays as the lower layer has it, apart from nested visual
/// settings that a flat one of the upper layer supersedes.
pub proof fn law_open_settings_come_from_below(base: TomlTree, over: TomlTree, path: Seq<Seq<char>>)
    requires
        leaves_open(over, path),
    ensures
        lookup(merged(base, over), path) == lookup(base, path),
        lookup(layered(base, over), path) == lookup(legacy_adjusted(base, over), path),
    decreases path.len(),
{
    lemma_open_settings(base, over, path);
    lemma_open_settings(legacy_adjusted(base, over), over, path);
}

proof fn lemma_open_settings(base: TomlTree, over: TomlTree, path: Seq<Seq<char>>)
    requires
        leaves_open(over, path),
    ensures
        lookup(merged(base, over), path) == lookup(base, path),
    decreases path.len(),
{
    match (base, over) {
        (TomlTree::Table(below), TomlTree::Table(above)) => {
            if above.contains_key(path[0]) {
                if below.contains_key(path[0]) {
                    lemma_open_settings(below[path[0]], above[path[0]], path.skip(1));
                } else {
                    lemma_open_is_absent(above[path[0]], path.skip(1));
                }
            }
        },
        _ => {
            lemma_open_is_absent(over, path);
        },
    }
}

proof fn lemma_open_is_absent(tree: TomlTree, path: Seq<Seq<char>>)
    requires
        leaves_open(tree, path),
    ensures
        lookup(tree, path) is None,
    decreases path.len(),
{
    match tree {
        TomlTree::Table(table) => {
            if table.contains_key(path[0]) {
                lemma_open_is_absent(table[path[0]], path.skip(1));
            }
        },
        _ => {},
    }
}

/// A flat visual setting of an upper layer takes effect: the nested setting that would hide it
/// is gone from the layered configuration, unless the upper layer sets that one too.
pub proof fn law_flat_setting_is_not_hidden(base: TomlTree, over: TomlTree, row: int)
    requires
        0 <= row < legacy_visual_mappings().len(),
        lookup(over, seq!["visuals"@, legacy_visual_mappings()[row].0]) is Some,
        leaves_open(
            over,
            seq!["visuals"@, legacy_visual_mappings()[row].1, legacy_visual_mappings()[row].2],
        ),
    ensures
        lookup(
            layered(base, over),
            seq!["visuals"@, legacy_visual_mappings()[row].1, legacy_visual_mappings()[row].2],
        ) is None,
{
    let (flat, section, key) = legacy_visual_mappings()[row];
    let short = seq!["visuals"@, flat];
    let path = seq!["visuals"@, section, key];
    let adjusted = legacy_adjusted(base, over);
    law_open_settings_come_from_below(base, over, path);
    assert(short.skip(1) =~= seq![flat]);
    assert(seq![flat].skip(1) =~= Seq::<Seq<char>>::empty());
    assert(path.skip(1) =~= seq![section, key]);
    assert(seq![section, key].skip(1) =~= seq![key]);
    assert(seq![key].skip(1) =~= Seq::<Seq<char>>::empty());
    reveal_with_fuel(lookup, 4);
    let overrides = over->Table_0["visuals"@]->Table_0;
    assert(overrides.contains_key(flat));
    assert(legacy_visual_mappings()[row].1 == section);
    assert(superseded(overrides, section, key, legacy_visual_mappings().len() as int));
}

/// The entries that only steer loading are never part of the configuration.
pub proof fn law_metadata_is_stripped(tree: TomlTree)
    ensures
        lookup(without_metadata(tree), seq!["theme"@]) is None,
        lookup(without_metadata(tree), seq!["include"@]) is None,
{
}

/// Whether a path leads to a nested visual setting that a flat setting of this layer takes the
/// place of, into it, or to the section that holds it.
pub open spec fn meets_flat_setting(over: TomlTree, path: Seq<Seq<char>>) -> bool {
    exists|row: int|
        0 <= row < legacy_visual_mappings().len() && lookup(
            over,
            seq!["visuals"@, (#[trigger] legacy_visual_mappings()[row]).0],
        ) is Some && (path == seq!["visuals"@] || (path.len() >= 2 && path[0] == "visuals"@
            && path[1] == legacy_visual_mappings()[row].1 && (path.len() >= 3 ==> path[2]
            == legacy_visual_mappings()[row].2)))
}

/// What an upper layer leaves open stays as the lower layer has it: sections, settings and all
/// that lies in them. Only a nested visual setting whose flat form the upper layer sets does not.
pub proof fn law_rest_of_the_lower_layer_is_kept(
    base: TomlTree,
    over: TomlTree,
    path: Seq<Seq<char>>,
)
    requires
        leaves_open(over, path),
        !meets_flat_setting(over, path),
    ensures
        lookup(layered(base, over), path) == lookup(base, path),
{
    law_open_settings_come_from_below(base, over, path);
    let adjusted = legacy_adjusted(base, over);
    reveal_with_fuel(lookup, 4);
    reveal_with_fuel(leaves_open, 2);
    if adjusted != base {
        let below = base->Table_0;
        let visuals = below["visuals"@]->Table_0;
        let overrides = over->Table_0["visuals"@]->Table_0;
        if path[0] == "visuals"@ {
            let inner = path.skip(1);
            if inner.len() == 0 {
                assert(!over->Table_0.contains_key("visuals"@));
            } else if visuals.contains_key(inner[0]) && visuals[inner[0]] is Table {
                let section = inner[0];
                let nested = visuals[section]->Table_0;
                let count = legacy_visual_mappings().len() as int;
                let kept = without_superseded(visuals, overrides, count)[section]->Table_0;
                assert forall|key: Seq<char>| inner.len() == 1 || inner[1] == key implies !(
                #[trigger] superseded(overrides, section, key, count)) by {
                    if superseded(overrides, section, key, count) {
                        let row = choose|i: int|
                            0 <= i < count && #[trigger] legacy_visual_mappings()[i].1 == section
                                && legacy_visual_mappings()[i].2 == key && overrides.contains_key(
                                legacy_visual_mappings()[i].0,
                            );
                        let flat = seq!["visuals"@, legacy_visual_mappings()[row].0];
                        assert(flat.skip(1) =~= seq![legacy_visual_mappings()[row].0]);
                        assert(seq![legacy_visual_mappings()[row].0].skip(1) =~= Seq::<
                            Seq<char>,
                        >::empty());
                        assert(lookup(over, flat) is Some);
                        assert(path.len() >= 3 ==> path[2] == inner[1]);
                        assert(meets_flat_setting(over, path));
                    }
                }
                if inner.len() == 1 {
                    assert(kept =~= nested);
                } else {
                    assert(!superseded(overrides, section, inner[1], count));
                    assert(inner.skip(1)[0] == inner[1]);
                    assert(kept.contains_key(inner[1]) == nested.contains_key(inner[1]));
                }
            }
        }
    }
}

/// A section of an upper layer is a section of the layered configuration, and below a value that
/// it sets there is nothing, whatever the lower layer holds there.
pub proof fn law_upper_layer_shapes_the_document(
    base: TomlTree,
    over: TomlTree,
    path: Seq<Seq<char>>,
)
    ensures
        lookup(over, path) matches Some(TomlTree::Table(_)) ==> (lookup(layered(base, over), path)
            matches Some(TomlTree::Table(_))),
        !leaves_open(over, path) && lookup(over, path) is None ==> lookup(
            layered(base, over),
            path,
        ) is None,
{
    lemma_merged_shape(legacy_adjusted(base, over), over, path);
}

proof fn lemma_merged_shape(base: TomlTree, over: TomlTree, path: Seq<Seq<char>>)
    ensures
        lookup(over, path) matches Some(TomlTree::Table(_)) ==> (lookup(merged(base, over), path)
            matches Some(TomlTree::Table(_))),
        !leaves_open(over, path) && lookup(over, path) is None ==> lookup(merged(base, over), path)
            is None,
    decreases path.len(),
{
    if path.len() > 0 {
        match (base, over) {
            (TomlTree::Table(below), TomlTree::Table(above)) => {
                if below.contains_key(path[0]) && above.contains_key(path[0]) {
                    lemma_merged_shape(below[path[0]], above[path[0]], path.skip(1));
                }
            },
            _ => {},
        }
    }
}

/// Nothing but the entries that steer loading is stripped.
pub proof fn law_nothing_else_is_stripped(tree: TomlTree, path: Seq<Seq<char>>)
    requires
        path.len() > 0,
        path[0] != "theme"@,
        path[0] != "include"@,
    ensures
        lookup(without_metadata(tree), path) == lookup(tree, path),
{
}

/// A section and a key of it, spelled as one flat name.
pub open spec fn spelled(section: Seq<char>, key: Seq<char>) -> Seq<char> {
    section + seq!['_'] + key
}

/// The flat name of a visual setting spells the section and the key that took its place, apart
/// from the colors of the palette, which go by their keys, and two settings that were renamed.
/// There are forty-four of them.
pub proof fn law_flat_names_spell_their_places(row: int)
    requires
        0 <= row < legacy_visual_mappings().len(),
    ensures
        legacy_visual_mappings().len() == 44,
        ({
            let (flat, section, key) = legacy_visual_mappings()[row];
            ||| flat == spelled(section, key)
            ||| section == "palette"@ && flat == key
            ||| flat == "input_border"@ && section == "input"@ && key == "border_color"@
            ||| flat == "eye_icon_color"@ && section == "eye"@ && key == "color"@
        }),
{
    let rows = legacy_visual_mappings();
    reveal_strlit("avatar");
    reveal_strlit("avatar_background_color");
    reveal_strlit("avatar_icon_color");
    reveal_strlit("avatar_placeholder_padding");
    reveal_strlit("avatar_ring_color");
    reveal_strlit("avatar_ring_width");
    reveal_strlit("avatar_size");
    reveal_strlit("background_color");
    reveal_strlit("background_size");
    reveal_strlit("battery");
    reveal_strlit("battery_background_color");
    reveal_strlit("battery_background_size");
    reveal_strlit("battery_color");
    reveal_strlit("battery_size");
    reveal_strlit("border_color");
    reveal_strlit("border_width");
    reveal_strlit("clock");
    reveal_strlit("clock_color");
    reveal_strlit("clock_font_family");
    reveal_strlit("clock_font_size");
    reveal_strlit("clock_font_style");
    reveal_strlit("clock_font_weight");
    reveal_strlit("clock_format");
    reveal_strlit("clock_meridiem_font_size");
    reveal_strlit("clock_meridiem_x");
    reveal_strlit("clock_meridiem_y");
    reveal_strlit("clock_style");
    reveal_strlit("color");
    reveal_strlit("date");
    reveal_strlit("date_color");
    reveal_strlit("date_font_size");
    reveal_strlit("eye");
    reveal_strlit("eye_icon_color");
    reveal_strlit("font_family");
    reveal_strlit("font_size");
    reveal_strlit("font_style");
    reveal_strlit("font_weight");
    reveal_strlit("foreground");
    reveal_strlit("format");
    reveal_strlit("height");
    reveal_strlit("icon_color");
    reveal_strlit("input");
    reveal_strlit("input_border");
    reveal_strlit("input_border_width");
    reveal_strlit("input_font_family");
    reveal_strlit("input_font_size");
    reveal_strlit("input_font_style");
    reveal_strlit("input_font_weight");
    reveal_strlit("input_height");
    reveal_strlit("input_mask_color");
    reveal_strlit("input_radius");
    reveal_strlit("input_width");
    reveal_strlit("keyboard");
    reveal_strlit("keyboard_background_size");
    reveal_strlit("keyboard_color");
    reveal_strlit("keyboard_size");
    reveal_strlit("mask_color");
    reveal_strlit("meridiem_font_size");
    reveal_strlit("meridiem_x");
    reveal_strlit("meridiem_y");
    reveal_strlit("muted");
    reveal_strlit("palette");
    reveal_strlit("pending");
    reveal_strlit("placeholder");
    reveal_strlit("placeholder_color");
    reveal_strlit("placeholder_padding");
    reveal_strlit("radius");
    reveal_strlit("rejected");
    reveal_strlit("ring_color");
    reveal_strlit("ring_width");
    reveal_strlit("size");
    reveal_strlit("status");
    reveal_strlit("status_color");
    reveal_strlit("style");
    reveal_strlit("username");
    reveal_strlit("username_color");
    reveal_strlit("username_font_size");
    reveal_strlit("width");
    assert(rows[0].0 =~= spelled(rows[0].1, rows[0].2));
    assert(rows[1].0 =~= spelled(rows[1].1, rows[1].2));
    assert(rows[2].0 =~= spelled(rows[2].1, rows[2].2));
    assert(rows[3].0 =~= spelled(rows[3].1, rows[3].2));
    assert(rows[5].0 =~= spelled(rows[5].1, rows[5].2));
    assert(rows[6].0 =~= spelled(rows[6].1, rows[6].2));
    assert(rows[7].0 =~= spelled(rows[7].1, rows[7].2));
    assert(rows[8].0 =~= spelled(rows[8].1, rows[8].2));
    assert(rows[9].0 =~= spelled(rows[9].1, rows[9].2));
    assert(rows[10].0 =~= spelled(rows[10].1, rows[10].2));
    assert(rows[11].0 =~= spelled(rows[11].1, rows[11].2));
    assert(rows[12].0 =~= spelled(rows[12].1, rows[12].2));
    assert(rows[13].0 =~= spelled(rows[13].1, rows[13].2));
    assert(rows[14].0 =~= spelled(rows[14].1, rows[14].2));
    assert(rows[15].0 =~= spelled(rows[15].1, rows[15].2));
    assert(rows[16].0 =~= spelled(rows[16].1, rows[16].2));
    assert(rows[17].0 =~= spelled(rows[17].1, rows[17].2));
    assert(rows[18].0 =~= spelled(rows[18].1, rows[18].2));
    assert(rows[19].0 =~= spelled(rows[19].1, rows[19].2));
    assert(rows[20].0 =~= spelled(rows[20].1, rows[20].2));
    assert(rows[21].0 =~= spelled(rows[21].1, rows[21].2));
    assert(rows[22].0 =~= spelled(rows[22].1, rows[22].2));
    assert(rows[23].0 =~= spelled(rows[23].1, rows[23].2));
    assert(rows[24].0 =~= spelled(rows[24].1, rows[24].2));
    assert(rows[25].0 =~= spelled(rows[25].1, rows[25].2));
    assert(rows[26].0 =~= spelled(rows[26].1, rows[26].2));
    assert(rows[27].0 =~= spelled(rows[27].1, rows[27].2));
    assert(rows[28].0 =~= spelled(rows[28].1, rows[28].2));
    assert(rows[29].0 =~= spelled(rows[29].1, rows[29].2));
    assert(rows[30].0 =~= spelled(rows[30].1, rows[30].2));
    assert(rows[32].0 =~= spelled(rows[32].1, rows[32].2));
    assert(rows[33].0 =~= spelled(rows[33].1, rows[33].2));
    assert(rows[34].0 =~= spelled(rows[34].1, rows[34].2));
    assert(rows[35].0 =~= spelled(rows[35].1, rows[35].2));
    assert(rows[36].0 =~= spelled(rows[36].1, rows[36].2));
    assert(rows[37].0 =~= spelled(rows[37].1, rows[37].2));
    assert(rows[38].0 =~= spelled(rows[38].1, rows[38].2));
    assert(rows[39].0 =~= spelled(rows[39].1, rows[39].2));
    assert(rows[40].0 =~= rows[40].2);
    assert(rows[41].0 =~= rows[41].2);
    assert(rows[42].0 =~= rows[42].2);
    assert(rows[43].0 =~= rows[43].2);
}

} // verus!
