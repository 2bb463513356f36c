//! The request that is handed on for execution, and the mathematical view of it that
//! the contracts of this crate speak of.

use crate::headers::header_fields;
use crate::media::mime_text;
use crate::table::Table;
use http::header::{HeaderMap, HeaderValue};
use http::{Method, Version};
use mime::Mime;
use std::collections::HashMap;
use vstd::prelude::*;

verus! {

/// `http::Method`, carried through as it is.
#[verifier::external_type_specification]
#[verifier::external_body]
pub struct ExMethod(Method);

/// `http::Version`, carried through as it is.
#[verifier::external_type_specification]
#[verifier::external_body]
pub struct ExVersion(Version);

/// One field of a multipart form: a text, or the path of a file to send.
#[derive(Debug, PartialEq, Eq)]
pub enum FormDataValue {
    Text(String),
    File(String),
}

/// A form field as plain text.
pub enum FormDataText {
    Text(Seq<char>),
    File(Seq<char>),
}

impl View for FormDataValue {
    type V = FormDataText;

    open spec fn view(&self) -> FormDataText {
        match self {
            FormDataValue::Text(text) => FormDataText::Text(text@),
            FormDataValue::File(path) => FormDataText::File(path@),
        }
    }
}

/// The body of a request. A binary body and a file field carry a path only; nothing
/// is read from disk here.
pub enum Body {
    /// No body at all.
    Empty,
    Raw { content: String, mime: Mime },
    Binary { path: String, mime: Mime },
    FormData(Table<FormDataValue>),
    XFormUrlEncoded(Table<String>),
}

/// A body as plain values.
pub enum BodyText {
    Empty,
    Raw { content: Seq<char>, mime: Seq<char> },
    Binary { path: Seq<char>, mime: Seq<char> },
    FormData(Seq<(Seq<char>, FormDataText)>),
    XFormUrlEncoded(Seq<(Seq<char>, Seq<char>)>),
}

impl View for Body {
    type V = BodyText;

    open spec fn view(&self) -> BodyText {
        match self {
            Body::Empty => BodyText::Empty,
            Body::Raw { content, mime } => BodyText::Raw { content: content@, mime: mime_text(*mime) },
            Body::Binary { path, mime } => BodyText::Binary { path: path@, mime: mime_text(*mime) },
            Body::FormData(form) => BodyText::FormData(form@),
            Body::XFormUrlEncoded(form) => BodyText::XFormUrlEncoded(form@),
        }
    }
}

impl Body {
    /// The invariant of the type: a form holds no key twice.
    pub open spec fn wf(&self) -> bool {
        match self {
            Body::FormData(form) => form.wf(),
            Body::XFormUrlEncoded(form) => form.wf(),
            _ => true,
        }
    }
}

/// The text of a sequence of pairs of strings.
pub open spec fn pairs_text(pairs: Seq<(String, String)>) -> Seq<(Seq<char>, Seq<char>)> {
    Seq::new(pairs.len(), |i: int| (pairs[i].0@, pairs[i].1@))
}

/// A request, ready to be sent. The order of the query parameters is significant.
pub struct Request {
    pub method: Method,
    pub url: String,
    pub http_version: Version,
    pub metadata: HashMap<String, String>,
    pub headers: HeaderMap<HeaderValue>,
    pub query_params: Vec<(String, String)>,
    pub variables: HashMap<String, String>,
    pub body: Body,
}

/// A request as plain values. Method, version, metadata and variables are carried as
/// they are: nothing in this crate looks inside them.
pub struct RequestText {
    pub method: Method,
    pub url: Seq<char>,
    pub http_version: Version,
    pub metadata: HashMap<String, String>,
    pub headers: Map<Seq<char>, Seq<Seq<u8>>>,
    pub query_params: Seq<(Seq<char>, Seq<char>)>,
    pub variables: HashMap<String, String>,
    pub body: BodyText,
}

impl View for Request {
    type V = RequestText;

    open spec fn view(&self) -> RequestText {
        RequestText {
            method: self.method,
            url: self.url@,
            http_version: self.http_version,
            metadata: self.metadata,
            headers: header_fields(self.headers),
            query_params: pairs_text(self.query_params@),
            variables: self.variables,
            body: self.body@,
        }
    }
}

} // verus!
