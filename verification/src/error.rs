//! What can be wrong with the description of a request.

use crate::text::{decimal, digits_of};
use vstd::prelude::*;

verus! {

/// Why a document is no description of a request. Each error ends the parse.
#[derive(Debug, PartialEq, Eq)]
pub enum SchemaError {
    /// The text is no TOML document. The message is the one of the TOML reader.
    InvalidSyntax { message: String },
    /// A field that must be there is not.
    MissingField { field: String },
    /// A field is given under more than one of its names.
    DuplicateField { field: String },
    /// A field holds a value of another type than its place asks for.
    TypeMismatch { field: String, expected: String, found: String },
    /// A table that stands for one of several alternatives holds none of them, or more
    /// than one.
    NotExactlyOne { field: String, count: usize },
    /// A table that stands for one of several alternatives names none that is known.
    UnknownVariant { field: String, variant: String },
    /// A parameter holds a value that is neither a string, an integer, a float or a
    /// boolean, nor an array of those.
    InvalidType { field: String, invalid_type: String },
}

/// An error as plain values.
pub enum Fault {
    InvalidSyntax { message: Seq<char> },
    MissingField { field: Seq<char> },
    DuplicateField { field: Seq<char> },
    TypeMismatch { field: Seq<char>, expected: Seq<char>, found: Seq<char> },
    NotExactlyOne { field: Seq<char>, count: nat },
    UnknownVariant { field: Seq<char>, variant: Seq<char> },
    InvalidType { field: Seq<char>, invalid_type: Seq<char> },
}

impl View for SchemaError {
    type V = Fault;

    open spec fn view(&self) -> Fault {
        match self {
            SchemaError::InvalidSyntax { message } => Fault::InvalidSyntax { message: message@ },
            SchemaError::MissingField { field } => Fault::MissingField { field: field@ },
            SchemaError::DuplicateField { field } => Fault::DuplicateField { field: field@ },
            SchemaError::TypeMismatch { field, expected, found } => Fault::TypeMismatch {
                field: field@,
                expected: expected@,
                found: found@,
            },
            SchemaError::NotExactlyOne { field, count } => Fault::NotExactlyOne { field: field@, count: *count as nat },
            SchemaError::UnknownVariant { field, variant } => Fault::UnknownVariant { field: field@, variant: variant@ },
            SchemaError::InvalidType { field, invalid_type } => Fault::InvalidType {
                field: field@,
                invalid_type: invalid_type@,
            },
        }
    }
}

/// The message of an error, for a person to read.
pub open spec fn message_text(fault: Fault) -> Seq<char> {
    match fault {
        Fault::InvalidSyntax { message } => message,
        Fault::MissingField { field } => "missing field `"@ + field + "`"@,
        Fault::DuplicateField { field } => "duplicate field `"@ + field + "`"@,
        Fault::TypeMismatch { field, expected, found } => "invalid type: "@ + found + ", expected "@ + expected
            + " for `"@ + field + "`"@,
        Fault::NotExactlyOne { field, count } => "wanted exactly 1 element, found "@ + decimal(count as int)
            + " elements in `"@ + field + "`"@,
        Fault::UnknownVariant { field, variant } => "unknown variant `"@ + variant + "` in `"@ + field + "`"@,
        Fault::InvalidType { field, invalid_type } => "invalid type `"@ + invalid_type + "` in "@ + field,
    }
}

impl SchemaError {
    /// The message of the error.
    pub fn message(&self) -> (text: String)
        ensures
            text@ == message_text(self@),
    {
        match self {
            SchemaError::InvalidSyntax { message } => message.clone(),
            SchemaError::MissingField { field } => {
                let mut text = String::from_str("missing field `");
                text.append(field.as_str());
                text.append("`");
                text
            },
            SchemaError::DuplicateField { field } => {
                let mut text = String::from_str("duplicate field `");
                text.append(field.as_str());
                text.append("`");
                text
            },
            SchemaError::TypeMismatch { field, expected, found } => {
                let mut text = String::from_str("invalid type: ");
                text.append(found.as_str());
                text.append(", expected ");
                text.append(expected.as_str());
                text.append(" for `");
                text.append(field.as_str());
                text.append("`");
                text
            },
            SchemaError::NotExactlyOne { field, count } => {
                let mut text = String::from_str("wanted exactly 1 element, found ");
                let number = digits_of(*count as u64);
                text.append(number.as_str());
                text.append(" elements in `");
                text.append(field.as_str());
                text.append("`");
                text
            },
            SchemaError::UnknownVariant { field, variant } => {
                let mut text = String::from_str("unknown variant `");
                text.append(variant.as_str());
                text.append("` in `");
                text.append(field.as_str());
                text.append("`");
                text
            },
            SchemaError::InvalidType { field, invalid_type } => {
                let mut text = String::from_str("invalid type `");
                text.append(invalid_type.as_str());
                text.append("` in ");
                text.append(field.as_str());
                text
            },
        }
    }
}

} // verus!
