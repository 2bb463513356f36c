//! The values that a parameter may hold: a string, an integer, a float or a boolean, or
//! an array of those.

use crate::document::{lemma_array_node, nodes, Item, Node};
use crate::text::{decimal, decimal_of};
use vstd::prelude::*;

verus! {

/// A single value of a parameter. A float is carried as its text.
#[derive(Debug, PartialEq, Eq)]
pub enum Primitive {
    Str(String),
    Int(i64),
    Float(String),
    Bool(bool),
}

/// A primitive in its mathematical form.
pub enum Scalar {
    Str(Seq<char>),
    Int(int),
    Float(Seq<char>),
    Bool(bool),
}

impl View for Primitive {
    type V = Scalar;

    open spec fn view(&self) -> Scalar {
        match self {
            Primitive::Str(text) => Scalar::Str(text@),
            Primitive::Int(number) => Scalar::Int(*number as int),
            Primitive::Float(text) => Scalar::Float(text@),
            Primitive::Bool(flag) => Scalar::Bool(*flag),
        }
    }
}

/// One primitive, or several in the order of the document. A single one never turns
/// into an array of one.
#[derive(Debug, PartialEq, Eq)]
pub enum PrimitiveArray {
    Single(Primitive),
    Multiple(Vec<Primitive>),
}

/// A primitive array in its mathematical form.
pub enum Scalars {
    Single(Scalar),
    Multiple(Seq<Scalar>),
}

/// The mathematical form of each of a list of primitives.
pub open spec fn scalars(items: Seq<Primitive>) -> Seq<Scalar> {
    Seq::new(items.len(), |i: int| items[i]@)
}

impl View for PrimitiveArray {
    type V = Scalars;

    open spec fn view(&self) -> Scalars {
        match self {
            PrimitiveArray::Single(item) => Scalars::Single(item@),
            PrimitiveArray::Multiple(items) => Scalars::Multiple(scalars(items@)),
        }
    }
}

/// The name of the type of a value, as TOML calls it.
pub open spec fn kind(node: Node) -> Seq<char> {
    match node {
        Node::Text(_) => "string"@,
        Node::Integer(_) => "integer"@,
        Node::Float(_) => "float"@,
        Node::Boolean(_) => "boolean"@,
        Node::Datetime(_) => "datetime"@,
        Node::Array(_) => "array"@,
        Node::Table(_) => "table"@,
    }
}

/// The primitive that a value is, if it is one.
pub open spec fn scalar_of(node: Node) -> Option<Scalar> {
    match node {
        Node::Text(text) => Some(Scalar::Str(text)),
        Node::Integer(number) => Some(Scalar::Int(number)),
        Node::Float(text) => Some(Scalar::Float(text)),
        Node::Boolean(flag) => Some(Scalar::Bool(flag)),
        _ => None,
    }
}

/// Whether `i` is the first position of `items` that holds no primitive.
pub open spec fn first_stranger(items: Seq<Node>, i: int) -> bool {
    &&& 0 <= i < items.len()
    &&& scalar_of(items[i]) is None
    &&& forall|j: int| 0 <= j < i ==> scalar_of(#[trigger] items[j]) is Some
}

/// The primitive array that a value is, or else the name of the type that stands in
/// the way: the type of the value itself, or the type of the first item of an array
/// that is no primitive.
pub open spec fn scalars_of(node: Node) -> Result<Scalars, Seq<char>> {
    match node {
        Node::Array(items) => {
            if exists|i: int| first_stranger(items, i) {
                Err(kind(items[choose|i: int| first_stranger(items, i)]))
            } else {
                Ok(Scalars::Multiple(Seq::new(items.len(), |i: int| scalar_of(items[i])->0)))
            }
        },
        _ => match scalar_of(node) {
            Some(scalar) => Ok(Scalars::Single(scalar)),
            None => Err(kind(node)),
        },
    }
}

/// The text of a primitive.
pub open spec fn scalar_text(scalar: Scalar) -> Seq<char> {
    match scalar {
        Scalar::Str(text) => text,
        Scalar::Int(number) => decimal(number),
        Scalar::Float(text) => text,
        Scalar::Bool(flag) => if flag {
            "true"@
        } else {
            "false"@
        },
    }
}

/// The texts of a list of primitives, with a comma between each two.
pub open spec fn joined(items: Seq<Scalar>) -> Seq<char>
    decreases items.len(),
{
    if items.len() == 0 {
        Seq::empty()
    } else if items.len() == 1 {
        scalar_text(items[0])
    } else {
        joined(items.drop_last()) + ","@ + scalar_text(items.last())
    }
}

/// The text of a primitive array: that of the single value, or those of the items
/// with a comma between each two.
pub open spec fn scalars_text(value: Scalars) -> Seq<char> {
    match value {
        Scalars::Single(scalar) => scalar_text(scalar),
        Scalars::Multiple(items) => joined(items),
    }
}

impl Item {
    /// The name of the type of the value.
    pub fn kind(&self) -> (name: &'static str)
        ensures
            name@ == kind(self@),
    {
        match self {
            Item::Text(_) => "string",
            Item::Integer(_) => "integer",
            Item::Float(_) => "float",
            Item::Boolean(_) => "boolean",
            Item::Datetime(_) => "datetime",
            Item::Array(_) => "array",
            Item::Table(_) => "table",
        }
    }
}

impl Primitive {
    /// The primitive that a value is, if it is one.
    pub fn narrow(item: &Item) -> (narrowed: Option<Primitive>)
        ensures
            narrowed is Some <==> scalar_of(item@) is Some,
            narrowed matches Some(primitive) ==> Some(primitive@) == scalar_of(item@),
    {
        match item {
            Item::Text(text) => Some(Primitive::Str(text.clone())),
            Item::Integer(number) => Some(Primitive::Int(*number)),
            Item::Float(text) => Some(Primitive::Float(text.clone())),
            Item::Boolean(flag) => Some(Primitive::Bool(*flag)),
            _ => None,
        }
    }

    /// The text of the primitive.
    pub fn text(&self) -> (text: String)
        ensures
            text@ == scalar_text(self@),
    {
        match self {
            Primitive::Str(text) => text.clone(),
            Primitive::Int(number) => decimal_of(*number),
            Primitive::Float(text) => text.clone(),
            Primitive::Bool(flag) => if *flag {
                String::from_str("true")
            } else {
                String::from_str("false")
            },
        }
    }
}

impl PrimitiveArray {
    /// The primitive array that a value is, or else the name of the type that stands
    /// in the way.
    pub fn narrow(item: &Item) -> (narrowed: Result<PrimitiveArray, String>)
        ensures
            match scalars_of(item@) {
                Ok(value) => narrowed matches Ok(array) && array@ == value,
                Err(name) => narrowed matches Err(found) && found@ == name,
            },
    {
        match item {
            Item::Array(items) => {
                proof {
                    lemma_array_node(*items);
                }
                let ghost list = nodes(items@);
                let mut out: Vec<Primitive> = Vec::new();
                let mut i: usize = 0;
                while i < items.len()
                    invariant
                        i <= items.len(),
                        list == nodes(items@),
                        item@ == Node::Array(list),
                        out@.len() == i,
                        forall|j: int| 0 <= j < i ==> scalar_of(#[trigger] list[j]) == Some(out@[j]@),
                    decreases items.len() - i,
                {
                    match Primitive::narrow(&items[i]) {
                        Some(primitive) => {
                            out.push(primitive);
                        },
                        None => {
                            proof {
                                assert(first_stranger(list, i as int));
                                let c = choose|c: int| first_stranger(list, c);
                                if c < i {
                                    assert(scalar_of(list[c]) is Some);
                                } else if i < c {
                                    assert(scalar_of(list[i as int]) is None);
                                }
                            }
                            return Err(String::from_str(items[i].kind()));
                        },
                    }
                    i += 1;
                }
                proof {
                    assert forall|c: int| !first_stranger(list, c) by {
                        if 0 <= c < list.len() {
                            assert(scalar_of(list[c]) is Some);
                        }
                    }
                    assert(scalars(out@) =~= Seq::new(list.len(), |i: int| scalar_of(list[i])->0));
                }
                Ok(PrimitiveArray::Multiple(out))
            },
            _ => match Primitive::narrow(item) {
                Some(primitive) => Ok(PrimitiveArray::Single(primitive)),
                None => Err(String::from_str(item.kind())),
            },
        }
    }

    /// The text of the value: that of the single primitive, or those of the items with
    /// a comma between each two.
    pub fn text(&self) -> (text: String)
        ensures
            text@ == scalars_text(self@),
    {
        match self {
            PrimitiveArray::Single(item) => item.text(),
            PrimitiveArray::Multiple(items) => {
                let mut text = String::new();
                let mut i: usize = 0;
                assert(scalars(items@).take(0) =~= Seq::<Scalar>::empty());
                while i < items.len()
                    invariant
                        i <= items.len(),
                        text@ == joined(scalars(items@).take(i as int)),
                    decreases items.len() - i,
                {
                    proof {
                        let upto = scalars(items@).take(i + 1);
                        assert(upto.drop_last() =~= scalars(items@).take(i as int));
                        assert(upto.last() == items@[i as int]@);
                    }
                    if i > 0 {
                        text.append(",");
                    }
                    let piece = items[i].text();
                    text.append(piece.as_str());
                    proof {
                        let upto = scalars(items@).take(i + 1);
                        if i == 0 {
                            assert(text@ =~= scalar_text(upto[0]));
                        }
                        assert(text@ =~= joined(upto));
                    }
                    i += 1;
                }
                assert(scalars(items@).take(items@.len() as int) =~= scalars(items@));
                text
            },
        }
    }
}

} // verus!
