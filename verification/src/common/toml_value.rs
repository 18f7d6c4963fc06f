//! Access to parsed TOML documents.

use vstd::prelude::*;

verus! {

#[verifier::external_type_specification]
#[verifier::external_body]
pub struct ExTomlValue(toml::Value);

#[verifier::external_type_specification]
#[verifier::external_body]
#[verifier::reject_recursive_types(K)]
#[verifier::reject_recursive_types(V)]
pub struct ExTomlMap<K, V>(toml::map::Map<K, V>);

/// A TOML value as the configuration logic sees it: tables and strings are looked into,
/// anything else is passed on untouched.
pub ghost enum TomlTree {
    Table(Map<Seq<char>, TomlTree>),
    Text(Seq<char>),
    Leaf(toml::Value),
}

/// A table without entries.
pub open spec fn no_entries() -> Map<Seq<char>, TomlTree> {
    Map::empty()
}

/// What a TOML value holds.
pub uninterp spec fn toml_tree(value: toml::Value) -> TomlTree;

/// What a TOML table holds.
pub uninterp spec fn table_tree(table: toml::map::Map<String, toml::Value>) -> Map<
    Seq<char>,
    TomlTree,
>;

/// `toml::from_str` into a `toml::Value`: the document's contents, or the report of why the text
/// is no document.
pub uninterp spec fn toml_document(text: Seq<char>) -> Result<TomlTree, Seq<char>>;

/// `toml::to_string_pretty` of a value: the document's text, or the report of why the value is
/// no document.
pub uninterp spec fn toml_pretty(tree: TomlTree) -> Result<Seq<char>, Seq<char>>;

/// Whether a text needs no quotes as a key, and no escapes as a string.
pub open spec fn is_plain(words: Seq<char>) -> bool {
    forall|i: int| 0 <= i < words.len() ==> is_plain_char(#[trigger] words[i])
}

pub open spec fn is_plain_char(character: char) -> bool {
    'a' <= character <= 'z' || 'A' <= character <= 'Z' || '0' <= character <= '9' || character
        == '-' || character == '_'
}

/// Whether a table that was read has the plain keys of a table that was written, and its plain
/// texts.
pub open spec fn plain_part_kept(
    written: Map<Seq<char>, TomlTree>,
    read: Map<Seq<char>, TomlTree>,
) -> bool {
    forall|key: Seq<char>|
        is_plain(key) && key.len() > 0 ==> {
            &&& #[trigger] read.contains_key(key) == written.contains_key(key)
            &&& written.contains_key(key) ==> (written[key] matches TomlTree::Text(content)
                && is_plain(content) ==> read[key] == written[key])
        }
}

/// Whether a value is made of tables and texts alone, all keys and texts plain, and no more than
/// this many tables deep.
pub open spec fn is_plain_tree(tree: TomlTree, depth: nat) -> bool
    decreases depth,
{
    match tree {
        TomlTree::Text(content) => is_plain(content),
        TomlTree::Table(table) => depth > 0 && forall|key: Seq<char>| #[trigger]
            table.contains_key(key) ==> key.len() > 0 && is_plain(key) && is_plain_tree(
                table[key],
                (depth - 1) as nat,
            ),
        TomlTree::Leaf(_) => false,
    }
}

/// Whether a value is a plain table, no deeper than documents are read by far.
pub open spec fn is_plain_table(tree: TomlTree) -> bool {
    tree is Table && is_plain_tree(tree, 16)
}

/// `toml::from_str`: parses a document; the outcome, the text of an error included, depends on
/// the text alone. An empty text is a table without entries.
#[verifier::external_body]
pub(crate) fn parse_document(input: &str) -> (result: Result<toml::Value, String>)
    ensures
        match (result, toml_document(input@)) {
            (Ok(value), Ok(tree)) => toml_tree(value) == tree,
            (Err(message), Err(report)) => message@ == report,
            _ => false,
        },
        match result {
            Ok(value) => input@.len() == 0 ==> toml_tree(value) == TomlTree::Table(no_entries()),
            Err(_) => input@.len() > 0,
        },
{
    toml::from_str(input).map_err(|error: toml::de::Error| error.to_string())
}

/// `toml::to_string_pretty`: writes a document; the outcome, the text of an error included,
/// depends on the contents alone. A plain table is always written, and reads back as it was.
/// Where the text of any other table is read as a table again, that table has the plain keys and
/// the plain texts of the one that was written; what else is given back is left unsaid, for a
/// document that nests too deeply is written but not read.
#[verifier::external_body]
pub(crate) fn encode_document(value: &toml::Value) -> (result: Result<String, String>)
    ensures
        match (result, toml_pretty(toml_tree(*value))) {
            (Ok(encoded), Ok(written)) => encoded@ == written,
            (Err(message), Err(report)) => message@ == report,
            _ => false,
        },
        result matches Ok(encoded) ==> match (toml_tree(*value), toml_document(encoded@)) {
            (TomlTree::Table(written), Ok(TomlTree::Table(read))) => plain_part_kept(written, read),
            _ => true,
        },
        match result {
            Ok(encoded) => is_plain_table(toml_tree(*value)) ==> toml_document(encoded@) == Ok::<
                TomlTree,
                Seq<char>,
            >(toml_tree(*value)),
            Err(_) => !is_plain_table(toml_tree(*value)),
        },
{
    toml::to_string_pretty(value).map_err(|error| error.to_string())
}

/// The variants of `toml::Value`: a table's map, or the value itself where it is no table.
#[verifier::external_body]
pub(crate) fn into_table(value: toml::Value) -> (result: Result<
    toml::map::Map<String, toml::Value>,
    toml::Value,
>)
    ensures
        match result {
            Ok(table) => toml_tree(value) == TomlTree::Table(table_tree(table)),
            Err(other) => other == value && !(toml_tree(value) is Table),
        },
{
    match value {
        toml::Value::Table(table) => Ok(table),
        other => Err(other),
    }
}

/// `toml::Value::Table`: the table as a value.
#[verifier::external_body]
pub(crate) fn table_value(table: toml::map::Map<String, toml::Value>) -> (value: toml::Value)
    ensures
        toml_tree(value) == TomlTree::Table(table_tree(table)),
{
    toml::Value::Table(table)
}

/// `toml::Value::String`: the text as a value.
#[verifier::external_body]
pub(crate) fn text_value(content: String) -> (value: toml::Value)
    ensures
        toml_tree(value) == TomlTree::Text(content@),
{
    toml::Value::String(content)
}

/// `toml::Value::as_str`: the text of a string value, nothing for any other kind.
#[verifier::external_body]
pub(crate) fn value_text(value: &toml::Value) -> (content: Option<&str>)
    ensures
        match content {
            Some(found) => toml_tree(*value) == TomlTree::Text(found@),
            None => !(toml_tree(*value) is Text),
        },
{
    value.as_str()
}

/// `toml::Value::get` with a string key: the entry of a table, nothing for any other kind.
#[verifier::external_body]
pub(crate) fn value_entry<'a>(value: &'a toml::Value, key: &str) -> (entry: Option<&'a toml::Value>)
    ensures
        match (toml_tree(*value), entry) {
            (TomlTree::Table(table), Some(found)) => table.contains_key(key@)
                && toml_tree(*found) == table[key@],
            (TomlTree::Table(table), None) => !table.contains_key(key@),
            (_, found) => found is None,
        },
{
    value.get(key)
}

/// `toml::Value::as_table`: the map of a table, nothing for any other kind.
#[verifier::external_body]
pub(crate) fn value_table(value: &toml::Value) -> (table: Option<
    &toml::map::Map<String, toml::Value>,
>)
    ensures
        match table {
            Some(found) => toml_tree(*value) == TomlTree::Table(table_tree(*found)),
            None => !(toml_tree(*value) is Table),
        },
{
    value.as_table()
}

/// `toml::Table::new`: a table without entries.
#[verifier::external_body]
pub(crate) fn empty_table() -> (table: toml::map::Map<String, toml::Value>)
    ensures
        table_tree(table) == no_entries(),
{
    toml::map::Map::new()
}

/// `toml::Table::contains_key`: whether there is an entry under the key.
#[verifier::external_body]
pub(crate) fn table_contains(table: &toml::map::Map<String, toml::Value>, key: &str) -> (found: bool)
    ensures
        found == table_tree(*table).contains_key(key@),
{
    table.contains_key(key)
}

/// `toml::Table::is_empty`: whether there is no entry at all.
#[verifier::external_body]
pub(crate) fn table_is_empty(table: &toml::map::Map<String, toml::Value>) -> (empty: bool)
    ensures
        empty == (table_tree(*table) == no_entries()),
{
    table.is_empty()
}

/// `toml::Table::insert`: puts the value under the key, in place of what stood there.
#[verifier::external_body]
pub(crate) fn table_insert(
    table: &mut toml::map::Map<String, toml::Value>,
    key: String,
    value: toml::Value,
)
    ensures
        table_tree(*final(table)) == table_tree(*old(table)).insert(key@, toml_tree(value)),
{
    table.insert(key, value);
}

/// `toml::Table::remove`: takes the entry under the key out, and returns it if there was one.
#[verifier::external_body]
pub(crate) fn table_remove(table: &mut toml::map::Map<String, toml::Value>, key: &str) -> (removed:
    Option<toml::Value>)
    ensures
        table_tree(*final(table)) == table_tree(*old(table)).remove(key@),
        match removed {
            Some(value) => table_tree(*old(table)).contains_key(key@) && toml_tree(value)
                == table_tree(*old(table))[key@],
            None => !table_tree(*old(table)).contains_key(key@),
        },
{
    table.remove(key)
}

/// `toml::Table::into_iter`: every entry once; the order is left unsaid.
#[verifier::external_body]
pub(crate) fn table_entries(table: toml::map::Map<String, toml::Value>) -> (entries: Vec<
    (String, toml::Value),
>)
    ensures
        forall|i: int|
            0 <= i < entries@.len() ==> table_tree(table).contains_key(#[trigger] entries@[i].0@)
                && table_tree(table)[entries@[i].0@] == toml_tree(entries@[i].1),
        forall|i: int, j: int|
            0 <= i < j < entries@.len() ==> #[trigger] entries@[i].0@ != #[trigger] entries@[j].0@,
        forall|key: Seq<char>| #[trigger]
            table_tree(table).contains_key(key) ==> exists|i: int|
                0 <= i < entries@.len() && #[trigger] entries@[i].0@ == key,
{
    table.into_iter().collect()
}

} // verus!
