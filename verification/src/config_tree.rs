//! What the library needs to know about a parsed TOML document: a
//! mathematical picture of a value as a tree, and the contracts under which
//! the `toml` crate's parser and accessors are called.  Nothing in this file
//! is proved; every proof about configuration documents rests on it.

use vstd::prelude::*;

verus! {

/// A TOML value as a tree.  Strings, arrays and tables keep their contents;
/// every other kind of value (integer, float, boolean, datetime) is a leaf
/// of which nothing more is recorded.
pub enum Node {
    Text(Seq<char>),
    List(Seq<Node>),
    Table(Seq<(Seq<char>, Node)>),
    Other,
}

/// `toml::Value`, carried about without a look inside.
#[verifier::external_type_specification]
#[verifier::external_body]
pub struct ExValue(toml::Value);

/// `toml::map::Map`, the type behind `toml::Table`, carried about without a
/// look inside.
#[verifier::external_type_specification]
#[verifier::external_body]
#[verifier::reject_recursive_types(K)]
#[verifier::reject_recursive_types(V)]
pub struct ExMap<K, V>(toml::map::Map<K, V>);

/// `toml::de::Error`, the parser's account of what is wrong with a text.
#[verifier::external_type_specification]
#[verifier::external_body]
pub struct ExSyntaxError(toml::de::Error);

/// The tree that a `toml::Value` holds.
pub uninterp spec fn value_node(value: toml::Value) -> Node;

/// The trees of the elements of an array, in order.
pub open spec fn nodes_of(items: Seq<toml::Value>) -> Seq<Node> {
    items.map_values(|item: toml::Value| value_node(item))
}

/// The entries of a `toml::Table`, each key with the tree of its value, in
/// the order in which the table's iterator yields them.
pub uninterp spec fn table_entries(table: toml::map::Map<String, toml::Value>) -> Seq<
    (Seq<char>, Node),
>;

/// The entries of the table that `toml::from_str` reads from a text, or
/// `None` where it reports an error.
pub uninterp spec fn parsed_document(text: Seq<char>) -> Option<Seq<(Seq<char>, Node)>>;

/// The value stored under the first entry with the given key, if there is one.
pub open spec fn lookup(entries: Seq<(Seq<char>, Node)>, key: Seq<char>) -> Option<Node>
    decreases entries.len(),
{
    if entries.len() == 0 {
        None
    } else if entries[0].0 == key {
        Some(entries[0].1)
    } else {
        lookup(entries.skip(1), key)
    }
}

/// `toml::Value::as_table` hands out the table inside a `Value::Table` and
/// answers `None` for every other variant.
pub assume_specification[ toml::Value::as_table ](value: &toml::Value) -> (table: Option<
    &toml::map::Map<String, toml::Value>,
>)
    ensures
        match table {
            Some(inner) => value_node(*value) == Node::Table(table_entries(*inner)),
            None => !(value_node(*value) is Table),
        },
;

/// `toml::Value::as_str` hands out the text inside a `Value::String` and
/// answers `None` for every other variant.
pub assume_specification[ toml::Value::as_str ](value: &toml::Value) -> (text: Option<&str>)
    ensures
        match text {
            Some(inner) => value_node(*value) == Node::Text(inner@),
            None => !(value_node(*value) is Text),
        },
;

/// `toml::Value::as_array` hands out the elements inside a `Value::Array`
/// and answers `None` for every other variant.
pub assume_specification[ toml::Value::as_array ](value: &toml::Value) -> (items: Option<
    &Vec<toml::Value>,
>)
    ensures
        match items {
            Some(inner) => value_node(*value) == Node::List(nodes_of(inner@)),
            None => !(value_node(*value) is List),
        },
;

/// `toml::map::Map::iter`, collected: the entries of the table as
/// references, in iteration order.
#[verifier::external_body]
pub(crate) fn table_items(table: &toml::map::Map<String, toml::Value>) -> (items: Vec<
    (&String, &toml::Value),
>)
    ensures
        items@.len() == table_entries(*table).len(),
        forall|i: int|
            0 <= i < items@.len() ==> (#[trigger] items@[i]).0@ == table_entries(*table)[i].0
                && value_node(*items@[i].1) == table_entries(*table)[i].1,
{
    table.iter().collect()
}

/// `toml::map::Map::get` with a string key: the value stored under the key,
/// or `None` where the table has no such key.  A table holds each key once,
/// so the entry found is the first in iteration order with that key.
#[verifier::external_body]
pub(crate) fn table_get<'a>(table: &'a toml::map::Map<String, toml::Value>, key: &str) -> (value:
    Option<&'a toml::Value>)
    ensures
        match value {
            Some(found) => lookup(table_entries(*table), key@) == Some(value_node(*found)),
            None => lookup(table_entries(*table), key@) is None,
        },
{
    table.get(key)
}

/// `toml::from_str`, reading a whole document as a table.  The outcome
/// depends on the text alone.
#[verifier::external_body]
pub(crate) fn parse_document(text: &str) -> (document: Result<
    toml::map::Map<String, toml::Value>,
    toml::de::Error,
>)
    ensures
        match document {
            Ok(table) => parsed_document(text@) == Some(table_entries(table)),
            Err(_) => parsed_document(text@) is None,
        },
{
    toml::from_str::<toml::map::Map<String, toml::Value>>(text)
}

} // verus!
