//! The body of a description: at most one of raw text, the path of a binary file, a
//! multipart form and a url-encoded form.

use crate::document::{read, toml_reading, Item, Node};
use crate::error::{Fault, SchemaError};
use crate::media::{application_octet_stream, octet_stream, plain_text, text_plain_utf_8};
use crate::request::{Body as PublicBody, BodyText, FormDataText, FormDataValue as PublicFormDataValue};
use crate::schema::types::{scalars_of, scalars_text, PrimitiveArray, Scalars};
use crate::schema::{expect_table, expect_text, params_of, table_at, text_at, validate_types};
use crate::table::{gathered, lookup, Table};
use crate::text::same_text;
use vstd::prelude::*;

verus! {

/// One field of a multipart form as the document gives it.
#[derive(Debug, PartialEq, Eq)]
pub enum FormDataValue {
    Text(PrimitiveArray),
    File(String),
}

/// A field of a multipart form in its mathematical form.
pub enum FieldSource {
    Text(Scalars),
    File(Seq<char>),
}

impl View for FormDataValue {
    type V = FieldSource;

    open spec fn view(&self) -> FieldSource {
        match self {
            FormDataValue::Text(value) => FieldSource::Text(value@),
            FormDataValue::File(path) => FieldSource::File(path@),
        }
    }
}

/// The body of a description.
#[derive(Debug, PartialEq, Eq)]
pub enum Body {
    /// The description has no body.
    Empty,
    Raw(String),
    Binary(String),
    FormData(Table<FormDataValue>),
    XFormUrlEncoded(Table<PrimitiveArray>),
}

/// A body of a description in its mathematical form.
pub enum BodySource {
    Empty,
    Raw(Seq<char>),
    Binary(Seq<char>),
    FormData(Seq<(Seq<char>, FieldSource)>),
    XFormUrlEncoded(Seq<(Seq<char>, Scalars)>),
}

impl View for Body {
    type V = BodySource;

    open spec fn view(&self) -> BodySource {
        match self {
            Body::Empty => BodySource::Empty,
            Body::Raw(content) => BodySource::Raw(content@),
            Body::Binary(path) => BodySource::Binary(path@),
            Body::FormData(fields) => BodySource::FormData(fields@),
            Body::XFormUrlEncoded(params) => BodySource::XFormUrlEncoded(params@),
        }
    }
}

/// The alternatives of a body.
pub enum BodyKind {
    Raw,
    Binary,
    FormData,
    XFormUrlEncoded,
}

/// The alternative that a key of the `body` table names.
pub open spec fn body_kind(key: Seq<char>) -> Option<BodyKind> {
    if key == "raw"@ || key == "text"@ {
        Some(BodyKind::Raw)
    } else if key == "binary"@ || key == "file"@ {
        Some(BodyKind::Binary)
    } else if key == "form_data"@ || key == "form-data"@ || key == "multipart_form_data"@ || key
        == "multipart-form-data"@ {
        Some(BodyKind::FormData)
    } else if key == "x_form_url_encoded"@ || key == "x-www-form-urlencoded"@ || key == "form_urlencoded"@
        || key == "form-urlencoded"@ {
        Some(BodyKind::XFormUrlEncoded)
    } else {
        None
    }
}

/// The field that a value of a multipart form is: a table with exactly one entry,
/// `text` with a primitive array or `file` with a path.
pub open spec fn field_of(node: Node, key: Seq<char>) -> Result<FieldSource, Fault> {
    match table_at(node, key) {
        Err(fault) => Err(fault),
        Ok(entries) => if entries.len() != 1 {
            Err(Fault::NotExactlyOne { field: key, count: entries.len() })
        } else if entries[0].0 == "text"@ {
            match scalars_of(entries[0].1) {
                Ok(value) => Ok(FieldSource::Text(value)),
                Err(found) => Err(Fault::InvalidType { field: key, invalid_type: found }),
            }
        } else if entries[0].0 == "file"@ {
            match text_at(entries[0].1, key) {
                Ok(path) => Ok(FieldSource::File(path)),
                Err(fault) => Err(fault),
            }
        } else {
            Err(Fault::UnknownVariant { field: key, variant: entries[0].0 })
        },
    }
}

/// Whether `i` is the first entry that is no field of a multipart form.
pub open spec fn first_bad_field(entries: Seq<(Seq<char>, Node)>, i: int) -> bool {
    &&& 0 <= i < entries.len()
    &&& field_of(entries[i].1, entries[i].0) is Err
    &&& forall|j: int| 0 <= j < i ==> field_of((#[trigger] entries[j]).1, entries[j].0) is Ok
}

/// Each entry with its value as a field of a multipart form.
pub open spec fn fields(entries: Seq<(Seq<char>, Node)>) -> Seq<(Seq<char>, FieldSource)> {
    Seq::new(entries.len(), |i: int| (entries[i].0, field_of(entries[i].1, entries[i].0)->Ok_0))
}

/// The fields of a multipart form, or the error of the first entry that is none.
pub open spec fn fields_of(entries: Seq<(Seq<char>, Node)>) -> Result<Seq<(Seq<char>, FieldSource)>, Fault> {
    if exists|i: int| first_bad_field(entries, i) {
        let i = choose|i: int| first_bad_field(entries, i);
        Err(field_of(entries[i].1, entries[i].0)->Err_0)
    } else {
        Ok(gathered(fields(entries)))
    }
}

/// The field that an invalid value of a url-encoded form is reported under.
pub open spec fn body_params_field() -> Seq<char> {
    "params of [body]"@
}

/// The body that the value of `body` describes. The word `none` stands for no body.
/// Otherwise the value is a table with exactly one entry, whose key names the
/// alternative: with no entry, or with more than one, there is no body to pick.
pub open spec fn body_of(node: Node) -> Result<BodySource, Fault> {
    if node == Node::Text("none"@) {
        Ok(BodySource::Empty)
    } else {
        match table_at(node, "body"@) {
            Err(fault) => Err(fault),
            Ok(entries) => if entries.len() != 1 {
                Err(Fault::NotExactlyOne { field: "body"@, count: entries.len() })
            } else {
                let key = entries[0].0;
                let value = entries[0].1;
                match body_kind(key) {
                    None => Err(Fault::UnknownVariant { field: "body"@, variant: key }),
                    Some(BodyKind::Raw) => match text_at(value, key) {
                        Ok(content) => Ok(BodySource::Raw(content)),
                        Err(fault) => Err(fault),
                    },
                    Some(BodyKind::Binary) => match text_at(value, key) {
                        Ok(path) => Ok(BodySource::Binary(path)),
                        Err(fault) => Err(fault),
                    },
                    Some(BodyKind::FormData) => match table_at(value, key) {
                        Err(fault) => Err(fault),
                        Ok(form) => match fields_of(form) {
                            Ok(fields) => Ok(BodySource::FormData(fields)),
                            Err(fault) => Err(fault),
                        },
                    },
                    Some(BodyKind::XFormUrlEncoded) => match table_at(value, key) {
                        Err(fault) => Err(fault),
                        Ok(form) => match params_of(form, body_params_field()) {
                            Ok(params) => Ok(BodySource::XFormUrlEncoded(params)),
                            Err(fault) => Err(fault),
                        },
                    },
                }
            },
        }
    }
}

/// The body of a document: the one that its `body` describes, or none where the
/// document has no `body`.
pub open spec fn document_body(root: Node) -> Result<BodySource, Fault> {
    match table_at(root, "document"@) {
        Err(fault) => Err(fault),
        Ok(entries) => match lookup(entries, "body"@) {
            None => Ok(BodySource::Empty),
            Some(node) => body_of(node),
        },
    }
}

/// A `body` that gives two alternatives, or more, is rejected: there must be exactly
/// one.
pub proof fn lemma_two_bodies_rejected(body: Seq<(Seq<char>, Node)>, first: Seq<char>, second: Seq<char>)
    requires
        first != second,
        lookup(body, first) is Some,
        lookup(body, second) is Some,
    ensures
        body.len() >= 2,
        body_of(Node::Table(body)) == Err::<BodySource, Fault>(
            Fault::NotExactlyOne { field: "body"@, count: body.len() },
        ),
{
    crate::table::lemma_index_of_found(body, first);
    crate::table::lemma_index_of_found(body, second);
}

/// A `body` that gives no alternative is rejected as well.
pub proof fn lemma_empty_body_rejected()
    ensures
        body_of(Node::Table(Seq::empty())) == Err::<BodySource, Fault>(
            Fault::NotExactlyOne { field: "body"@, count: 0 },
        ),
{
}

/// A document without a `body` describes a request without a body.
pub proof fn lemma_no_body(root: Seq<(Seq<char>, Node)>)
    requires
        lookup(root, "body"@) is None,
    ensures
        document_body(Node::Table(root)) == Ok::<BodySource, Fault>(BodySource::Empty),
{
}

/// A document whose `body` gives two alternatives, or more, is rejected.
pub proof fn lemma_two_bodies_in_document(
    root: Seq<(Seq<char>, Node)>,
    body: Seq<(Seq<char>, Node)>,
    first: Seq<char>,
    second: Seq<char>,
)
    requires
        lookup(root, "body"@) == Some(Node::Table(body)),
        first != second,
        lookup(body, first) is Some,
        lookup(body, second) is Some,
    ensures
        document_body(Node::Table(root)) == Err::<BodySource, Fault>(
            Fault::NotExactlyOne { field: "body"@, count: body.len() },
        ),
{
    lemma_two_bodies_rejected(body, first, second);
}

/// The alternative that a key names.
pub fn kind_of_body(key: &str) -> (found: Option<BodyKind>)
    ensures
        found == body_kind(key@),
{
    if same_text(key, "raw") || same_text(key, "text") {
        Some(BodyKind::Raw)
    } else if same_text(key, "binary") || same_text(key, "file") {
        Some(BodyKind::Binary)
    } else if same_text(key, "form_data") || same_text(key, "form-data") || same_text(key, "multipart_form_data")
        || same_text(key, "multipart-form-data") {
        Some(BodyKind::FormData)
    } else if same_text(key, "x_form_url_encoded") || same_text(key, "x-www-form-urlencoded") || same_text(
        key,
        "form_urlencoded",
    ) || same_text(key, "form-urlencoded") {
        Some(BodyKind::XFormUrlEncoded)
    } else {
        None
    }
}

impl FormDataValue {
    /// The field that a value of a multipart form is.
    pub fn from_document(item: &Item, key: &str) -> (found: Result<FormDataValue, SchemaError>)
        ensures
            match field_of(item@, key@) {
                Ok(field) => found matches Ok(value) && value@ == field,
                Err(fault) => found matches Err(e) && e@ == fault,
            },
    {
        let entries = match expect_table(item, key) {
            Err(e) => {
                return Err(e);
            },
            Ok(entries) => entries,
        };
        if entries.len() != 1 {
            return Err(SchemaError::NotExactlyOne { field: String::from_str(key), count: entries.len() });
        }
        let (name, value) = entries.entry(0);
        if same_text(name, "text") {
            match PrimitiveArray::narrow(value) {
                Ok(array) => Ok(FormDataValue::Text(array)),
                Err(found) => Err(SchemaError::InvalidType { field: String::from_str(key), invalid_type: found }),
            }
        } else if same_text(name, "file") {
            match expect_text(value, key) {
                Ok(path) => Ok(FormDataValue::File(path)),
                Err(e) => Err(e),
            }
        } else {
            Err(SchemaError::UnknownVariant { field: String::from_str(key), variant: String::from_str(name) })
        }
    }
}

/// Takes the fields of a multipart form from a table, and rejects the table at the
/// first entry that is no field.
pub fn form_fields(form: &Table<Item>) -> (found: Result<Table<FormDataValue>, SchemaError>)
    ensures
        match fields_of(form@) {
            Ok(entries) => found matches Ok(table) && table@ == entries && table.wf(),
            Err(fault) => found matches Err(e) && e@ == fault,
        },
{
    let mut table: Table<FormDataValue> = Table::new();
    let mut i: usize = 0;
    assert(fields(form@).take(0) =~= Seq::<(Seq<char>, FieldSource)>::empty());
    while i < form.len()
        invariant
            i <= form@.len(),
            table.wf(),
            forall|j: int| 0 <= j < i ==> field_of((#[trigger] form@[j]).1, form@[j].0) is Ok,
            table@ == gathered(fields(form@).take(i as int)),
        decreases form@.len() - i,
    {
        let (key, item) = form.entry(i);
        match FormDataValue::from_document(item, key) {
            Ok(value) => {
                proof {
                    let upto = fields(form@).take(i + 1);
                    assert(upto.drop_last() =~= fields(form@).take(i as int));
                    assert(upto.last() == (key@, value@));
                }
                table.insert(String::from_str(key), value);
            },
            Err(e) => {
                proof {
                    assert(first_bad_field(form@, i as int));
                    let c = choose|c: int| first_bad_field(form@, c);
                    if c < i {
                        assert(field_of(form@[c].1, form@[c].0) is Ok);
                    } else if i < c {
                        assert(field_of(form@[i as int].1, form@[i as int].0) is Err);
                    }
                }
                return Err(e);
            },
        }
        i += 1;
    }
    proof {
        assert forall|c: int| !first_bad_field(form@, c) by {
            if 0 <= c < form@.len() {
                assert(field_of(form@[c].1, form@[c].0) is Ok);
            }
        }
        assert(fields(form@).take(form@.len() as int) =~= fields(form@));
    }
    Ok(table)
}

/// A field of a multipart form as it is sent: a text field holds the text of its value.
pub open spec fn public_field(field: FieldSource) -> FormDataText {
    match field {
        FieldSource::Text(value) => FormDataText::Text(scalars_text(value)),
        FieldSource::File(path) => FormDataText::File(path),
    }
}

/// Each field of a multipart form as it is sent.
pub open spec fn public_fields(fields: Seq<(Seq<char>, FieldSource)>) -> Seq<(Seq<char>, FormDataText)> {
    Seq::new(fields.len(), |i: int| (fields[i].0, public_field(fields[i].1)))
}

/// Each parameter of a url-encoded form with the text of its value.
pub open spec fn public_params(params: Seq<(Seq<char>, Scalars)>) -> Seq<(Seq<char>, Seq<char>)> {
    Seq::new(params.len(), |i: int| (params[i].0, scalars_text(params[i].1)))
}

/// The body of a request that the body of a description stands for. Raw content is
/// plain text in UTF-8, a binary file is a stream of octets, and the entries of a form
/// are stored in turn, each value as its text.
pub open spec fn public_body(source: BodySource) -> BodyText {
    match source {
        BodySource::Empty => BodyText::Empty,
        BodySource::Raw(content) => BodyText::Raw { content, mime: plain_text() },
        BodySource::Binary(path) => BodyText::Binary { path, mime: octet_stream() },
        BodySource::FormData(fields) => BodyText::FormData(gathered(public_fields(fields))),
        BodySource::XFormUrlEncoded(params) => BodyText::XFormUrlEncoded(gathered(public_params(params))),
    }
}

/// Turns a field of a description into the field that is sent.
pub fn map_value(value: FormDataValue) -> (field: PublicFormDataValue)
    ensures
        field@ == public_field(value@),
{
    match value {
        FormDataValue::Text(value) => PublicFormDataValue::Text(value.text()),
        FormDataValue::File(path) => PublicFormDataValue::File(path),
    }
}

/// Turns the fields of a description into the fields that are sent.
pub fn fields_into_map(fields: Table<FormDataValue>) -> (form: Table<PublicFormDataValue>)
    ensures
        form@ == gathered(public_fields(fields@)),
        form.wf(),
{
    let ghost source = fields@;
    let ghost stored = fields.entries@;
    let mut form: Table<PublicFormDataValue> = Table::new();
    assert(public_fields(source).take(0) =~= Seq::<(Seq<char>, FormDataText)>::empty());
    for pair in it: fields.entries
        invariant
            form.wf(),
            it.seq() == stored,
            source.len() == stored.len(),
            forall|i: int| 0 <= i < stored.len() ==> source[i] == ((#[trigger] stored[i]).0@, stored[i].1@),
            form@ == gathered(public_fields(source).take(it.index() as int)),
    {
        let (key, value) = pair;
        proof {
            let upto = public_fields(source).take(it.index() + 1);
            assert(upto.drop_last() =~= public_fields(source).take(it.index() as int));
            assert(upto.last() == (key@, public_field(value@)));
        }
        form.insert(key, map_value(value));
    }
    assert(public_fields(source).take(source.len() as int) =~= public_fields(source));
    form
}

/// Turns the parameters of a description into the pairs that are sent.
pub fn params_into_map(params: Table<PrimitiveArray>) -> (form: Table<String>)
    ensures
        form@ == gathered(public_params(params@)),
        form.wf(),
{
    let ghost source = params@;
    let ghost stored = params.entries@;
    let mut form: Table<String> = Table::new();
    assert(public_params(source).take(0) =~= Seq::<(Seq<char>, Seq<char>)>::empty());
    for pair in it: params.entries
        invariant
            form.wf(),
            it.seq() == stored,
            source.len() == stored.len(),
            forall|i: int| 0 <= i < stored.len() ==> source[i] == ((#[trigger] stored[i]).0@, stored[i].1@),
            form@ == gathered(public_params(source).take(it.index() as int)),
    {
        let (key, value) = pair;
        proof {
            let upto = public_params(source).take(it.index() + 1);
            assert(upto.drop_last() =~= public_params(source).take(it.index() as int));
            assert(upto.last() == (key@, scalars_text(value@)));
        }
        form.insert(key, value.text());
    }
    assert(public_params(source).take(source.len() as int) =~= public_params(source));
    form
}

impl From<Body> for PublicBody {
    /// The body of a request that the body of a description stands for.
    fn from(value: Body) -> (body: PublicBody)
        ensures
            body@ == public_body(value@),
            body.wf(),
    {
        match value {
            Body::Empty => PublicBody::Empty,
            Body::Raw(content) => PublicBody::Raw { content, mime: text_plain_utf_8() },
            Body::Binary(path) => PublicBody::Binary { path, mime: application_octet_stream() },
            Body::FormData(table) => PublicBody::FormData(fields_into_map(table)),
            Body::XFormUrlEncoded(table) => PublicBody::XFormUrlEncoded(params_into_map(table)),
        }
    }
}

/// What `from` returns is stated on `from` itself, over views: the media type and the
/// tables of the result are made anew, so no function on values gives them.
impl vstd::std_specs::convert::FromSpecImpl<Body> for PublicBody {
    open spec fn obeys_from_spec() -> bool {
        false
    }

    open spec fn from_spec(v: Body) -> PublicBody {
        PublicBody::Empty
    }
}

impl Body {
    /// The invariant of the type: a form holds no key twice.
    pub open spec fn wf(&self) -> bool {
        match self {
            Body::FormData(fields) => fields.wf(),
            Body::XFormUrlEncoded(params) => params.wf(),
            _ => true,
        }
    }

    /// The body that the value of `body` describes.
    pub fn from_item(item: &Item) -> (found: Result<Body, SchemaError>)
        ensures
            match body_of(item@) {
                Ok(source) => found matches Ok(body) && body@ == source && body.wf(),
                Err(fault) => found matches Err(e) && e@ == fault,
            },
    {
        if let Item::Text(word) = item {
            if same_text(word.as_str(), "none") {
                return Ok(Body::Empty);
            }
        }
        let entries = match expect_table(item, "body") {
            Err(e) => {
                return Err(e);
            },
            Ok(entries) => entries,
        };
        if entries.len() != 1 {
            return Err(SchemaError::NotExactlyOne { field: String::from_str("body"), count: entries.len() });
        }
        let (key, value) = entries.entry(0);
        match kind_of_body(key) {
            None => Err(SchemaError::UnknownVariant { field: String::from_str("body"), variant: String::from_str(key) }),
            Some(BodyKind::Raw) => match expect_text(value, key) {
                Ok(content) => Ok(Body::Raw(content)),
                Err(e) => Err(e),
            },
            Some(BodyKind::Binary) => match expect_text(value, key) {
                Ok(path) => Ok(Body::Binary(path)),
                Err(e) => Err(e),
            },
            Some(BodyKind::FormData) => match expect_table(value, key) {
                Err(e) => Err(e),
                Ok(form) => match form_fields(form) {
                    Ok(fields) => Ok(Body::FormData(fields)),
                    Err(e) => Err(e),
                },
            },
            Some(BodyKind::XFormUrlEncoded) => match expect_table(value, key) {
                Err(e) => Err(e),
                Ok(form) => match validate_types(form, "params of [body]") {
                    Ok(params) => Ok(Body::XFormUrlEncoded(params)),
                    Err(e) => Err(e),
                },
            },
        }
    }

    /// The body of a document.
    pub fn from_document(root: &Item) -> (found: Result<Body, SchemaError>)
        ensures
            match document_body(root@) {
                Ok(source) => found matches Ok(body) && body@ == source && body.wf(),
                Err(fault) => found matches Err(e) && e@ == fault,
            },
    {
        let entries = match expect_table(root, "document") {
            Err(e) => {
                return Err(e);
            },
            Ok(entries) => entries,
        };
        match entries.get("body") {
            None => Ok(Body::Empty),
            Some(item) => Body::from_item(item),
        }
    }

    /// Reads the body from the text of a TOML document.
    pub fn from_str(s: &str) -> (found: Result<Body, SchemaError>)
        ensures
            match toml_reading(s@) {
                None => found matches Err(SchemaError::InvalidSyntax { .. }),
                Some(root) => match document_body(root) {
                    Ok(source) => found matches Ok(body) && body@ == source && body.wf(),
                    Err(fault) => found matches Err(e) && e@ == fault,
                },
            },
    {
        match read(s) {
            Err(e) => Err(e),
            Ok(root) => Body::from_document(&root),
        }
    }
}

} // verus!
