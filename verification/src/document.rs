//! A TOML document as plain values.

use crate::error::SchemaError;
use crate::table::Table;
use vstd::prelude::*;

verus! {

/// A value of a TOML document. A float and a date are carried as their text: nothing
/// here computes with them.
#[derive(Debug, PartialEq, Eq)]
pub enum Item {
    Text(String),
    Integer(i64),
    Float(String),
    Boolean(bool),
    Datetime(String),
    Array(Vec<Item>),
    Table(Table<Item>),
}

/// A value in its mathematical form.
pub enum Node {
    Text(Seq<char>),
    Integer(int),
    Float(Seq<char>),
    Boolean(bool),
    Datetime(Seq<char>),
    Array(Seq<Node>),
    Table(Seq<(Seq<char>, Node)>),
}

/// The mathematical form of a value.
pub open spec fn node_of(item: Item) -> Node
    decreases item,
{
    match item {
        Item::Text(text) => Node::Text(text@),
        Item::Integer(number) => Node::Integer(number as int),
        Item::Float(text) => Node::Float(text@),
        Item::Boolean(flag) => Node::Boolean(flag),
        Item::Datetime(text) => Node::Datetime(text@),
        Item::Array(items) => Node::Array(
            Seq::new(
                items@.len(),
                |i: int|
                    if 0 <= i < items@.len() {
                        node_of(items@[i])
                    } else {
                        Node::Boolean(false)
                    },
            ),
        ),
        Item::Table(table) => Node::Table(
            Seq::new(
                table.entries@.len(),
                |i: int|
                    if 0 <= i < table.entries@.len() {
                        (table.entries@[i].0@, node_of(table.entries@[i].1))
                    } else {
                        (Seq::empty(), Node::Boolean(false))
                    },
            ),
        ),
    }
}

impl View for Item {
    type V = Node;

    open spec fn view(&self) -> Node {
        node_of(*self)
    }
}

/// The mathematical form of each of a list of values.
pub open spec fn nodes(items: Seq<Item>) -> Seq<Node> {
    Seq::new(items.len(), |i: int| items[i]@)
}

/// The view of a table value is the view of its table.
pub proof fn lemma_table_node(table: Table<Item>)
    ensures
        Item::Table(table)@ == Node::Table(table@),
{
    let entries = Item::Table(table)@->Table_0;
    assert(entries.len() == table@.len());
    assert forall|i: int| 0 <= i < entries.len() implies entries[i] == table@[i] by {
        assert(entries[i].0 == table@[i].0);
        assert(entries[i].1 == table@[i].1);
    }
    assert(entries =~= table@);
}

/// The view of an array value is the views of its items.
pub proof fn lemma_array_node(items: Vec<Item>)
    ensures
        Item::Array(items)@ == Node::Array(nodes(items@)),
{
    assert(Item::Array(items)@->Array_0 =~= nodes(items@));
}

/// `toml::Value`, a value as the `toml` crate holds it.
#[verifier::external_type_specification]
#[verifier::external_body]
pub struct ExTomlValue(toml::Value);

/// `toml::de::Error`, the error of the `toml` crate's reader.
#[verifier::external_type_specification]
#[verifier::external_body]
pub struct ExTomlError(toml::de::Error);

/// The document that the `toml` crate reads a text as, or nothing where the text is no
/// TOML document.
pub uninterp spec fn toml_reading(text: Seq<char>) -> Option<Node>;

/// What a value of the `toml` crate holds: strings, integers and booleans as they are,
/// a float and a date as the text that their `Display` writes, the items of an array in
/// order, the entries of a table in the order in which the table yields them.
pub uninterp spec fn toml_node(value: toml::Value) -> Node;

/// Calls `str::parse::<toml::Table>`, which is `toml::from_str`: it reads the text as a
/// TOML document and yields the root table, or fails. The result depends on the text
/// alone.
#[verifier::external_body]
pub(crate) fn parse_toml(text: &str) -> (read: Result<toml::Value, toml::de::Error>)
    ensures
        match read {
            Ok(value) => toml_reading(text@) == Some(toml_node(value)),
            Err(_) => toml_reading(text@) is None,
        },
{
    text.parse::<toml::Table>().map(toml::Value::Table)
}

/// Takes a value of the `toml` crate apart, variant by variant, into a value of this
/// crate that holds the same.
#[verifier::external_body]
pub(crate) fn plain(value: toml::Value) -> (out: Item)
    ensures
        out@ == toml_node(value),
{
    match value {
        toml::Value::String(text) => Item::Text(text),
        toml::Value::Integer(number) => Item::Integer(number),
        toml::Value::Float(number) => Item::Float(number.to_string()),
        toml::Value::Boolean(flag) => Item::Boolean(flag),
        toml::Value::Datetime(date) => Item::Datetime(date.to_string()),
        toml::Value::Array(items) => Item::Array(items.into_iter().map(plain).collect()),
        toml::Value::Table(table) => Item::Table(
            Table { entries: table.into_iter().map(|(key, item)| (key, plain(item))).collect() },
        ),
    }
}

/// Calls `to_string` on an error of the `toml` crate. Nothing is claimed of the text.
#[verifier::external_body]
pub(crate) fn syntax_message(error: &toml::de::Error) -> String {
    error.to_string()
}

/// Reads a text as a TOML document.
pub fn read(text: &str) -> (document: Result<Item, SchemaError>)
    ensures
        match toml_reading(text@) {
            Some(node) => document matches Ok(value) && value@ == node,
            None => document matches Err(SchemaError::InvalidSyntax { .. }),
        },
{
    match parse_toml(text) {
        Ok(value) => Ok(plain(value)),
        Err(error) => Err(SchemaError::InvalidSyntax { message: syntax_message(&error) }),
    }
}

} // verus!
