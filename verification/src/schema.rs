//! The description of a request as it is read from a document: the `http` section with
//! the URL and the method, and the query parameters.

pub mod body;
pub mod types;

use crate::document::{lemma_table_node, read, toml_reading, Item, Node};
use crate::error::{Fault, SchemaError};
use crate::schema::types::{kind, scalars_of, PrimitiveArray, Scalars};
use crate::table::{gathered, lookup, Table};
use vstd::prelude::*;

verus! {

/// The `http` section of a description.
#[derive(Debug, PartialEq, Eq)]
pub struct Http {
    pub url: String,
    pub method: String,
}

/// The description of a request.
#[derive(Debug, PartialEq, Eq)]
pub struct Schema {
    pub http: Http,
    pub query_params: Option<Table<PrimitiveArray>>,
}

/// A description as plain values.
pub struct SchemaText {
    pub url: Seq<char>,
    pub method: Seq<char>,
    pub query_params: Option<Seq<(Seq<char>, Scalars)>>,
}

impl View for Schema {
    type V = SchemaText;

    open spec fn view(&self) -> SchemaText {
        SchemaText {
            url: self.http.url@,
            method: self.http.method@,
            query_params: match self.query_params {
                Some(table) => Some(table@),
                None => None,
            },
        }
    }
}

/// The entries of a value that must be a table.
pub open spec fn table_at(node: Node, field: Seq<char>) -> Result<Seq<(Seq<char>, Node)>, Fault> {
    match node {
        Node::Table(entries) => Ok(entries),
        _ => Err(Fault::TypeMismatch { field, expected: "table"@, found: kind(node) }),
    }
}

/// The text of a value that must be a string.
pub open spec fn text_at(node: Node, field: Seq<char>) -> Result<Seq<char>, Fault> {
    match node {
        Node::Text(text) => Ok(text),
        _ => Err(Fault::TypeMismatch { field, expected: "string"@, found: kind(node) }),
    }
}

/// The URL and the method of a document. The section `http` and its `url` must be
/// there; the method is `GET` where the section names none.
pub open spec fn http_of(root: Seq<(Seq<char>, Node)>) -> Result<(Seq<char>, Seq<char>), Fault> {
    match lookup(root, "http"@) {
        None => Err(Fault::MissingField { field: "http"@ }),
        Some(section) => match table_at(section, "http"@) {
            Err(fault) => Err(fault),
            Ok(http) => match lookup(http, "url"@) {
                None => Err(Fault::MissingField { field: "url"@ }),
                Some(url) => match text_at(url, "url"@) {
                    Err(fault) => Err(fault),
                    Ok(url) => match lookup(http, "method"@) {
                        None => Ok((url, "GET"@)),
                        Some(method) => match text_at(method, "method"@) {
                            Err(fault) => Err(fault),
                            Ok(method) => Ok((url, method)),
                        },
                    },
                },
            },
        },
    }
}

/// The value that a document gives for the query parameters, under one of the three
/// names of the field. It may give none; it may not give two.
pub open spec fn params_node(root: Seq<(Seq<char>, Node)>) -> Result<Option<Node>, Fault> {
    let plain = lookup(root, "query_params"@);
    let joint = lookup(root, "queryparams"@);
    let dashed = lookup(root, "query-params"@);
    if plain is Some {
        if joint is Some || dashed is Some {
            Err(Fault::DuplicateField { field: "query_params"@ })
        } else {
            Ok(plain)
        }
    } else if joint is Some {
        if dashed is Some {
            Err(Fault::DuplicateField { field: "query_params"@ })
        } else {
            Ok(joint)
        }
    } else {
        Ok(dashed)
    }
}

/// Whether `i` is the first entry whose value is no primitive array.
pub open spec fn first_invalid(entries: Seq<(Seq<char>, Node)>, i: int) -> bool {
    &&& 0 <= i < entries.len()
    &&& scalars_of(entries[i].1) is Err
    &&& forall|j: int| 0 <= j < i ==> scalars_of((#[trigger] entries[j]).1) is Ok
}

/// Each entry with its value as a primitive array.
pub open spec fn narrowed(entries: Seq<(Seq<char>, Node)>) -> Seq<(Seq<char>, Scalars)> {
    Seq::new(entries.len(), |i: int| (entries[i].0, scalars_of(entries[i].1)->Ok_0))
}

/// The parameters that a table holds. The first value that is neither a primitive nor
/// an array of primitives is an error, which names the field and the type found.
pub open spec fn params_of(entries: Seq<(Seq<char>, Node)>, field: Seq<char>) -> Result<
    Seq<(Seq<char>, Scalars)>,
    Fault,
> {
    if exists|i: int| first_invalid(entries, i) {
        let i = choose|i: int| first_invalid(entries, i);
        Err(Fault::InvalidType { field, invalid_type: scalars_of(entries[i].1)->Err_0 })
    } else {
        Ok(gathered(narrowed(entries)))
    }
}

/// The field that an invalid query parameter is reported under.
pub open spec fn query_params_field() -> Seq<char> {
    "params of [query_params]"@
}

/// The description that a document holds.
pub open spec fn schema_of(root: Node) -> Result<SchemaText, Fault> {
    match table_at(root, "document"@) {
        Err(fault) => Err(fault),
        Ok(entries) => match http_of(entries) {
            Err(fault) => Err(fault),
            Ok((url, method)) => match params_node(entries) {
                Err(fault) => Err(fault),
                Ok(None) => Ok(SchemaText { url, method, query_params: None }),
                Ok(Some(node)) => match table_at(node, "query_params"@) {
                    Err(fault) => Err(fault),
                    Ok(params) => match params_of(params, query_params_field()) {
                        Err(fault) => Err(fault),
                        Ok(table) => Ok(SchemaText { url, method, query_params: Some(table) }),
                    },
                },
            },
        },
    }
}

/// A document whose `http` section gives a URL and no method describes a request with
/// the method `GET`.
pub proof fn lemma_default_method(root: Seq<(Seq<char>, Node)>, http: Seq<(Seq<char>, Node)>, url: Seq<char>)
    requires
        lookup(root, "http"@) == Some(Node::Table(http)),
        lookup(http, "url"@) == Some(Node::Text(url)),
        lookup(http, "method"@) is None,
    ensures
        http_of(root) == Ok::<(Seq<char>, Seq<char>), Fault>((url, "GET"@)),
        schema_of(Node::Table(root)) matches Ok(schema) ==> schema.url == url && schema.method == "GET"@,
{
}

/// The document that holds `http.url` and nothing else describes a request to that URL
/// with the method `GET` and no query parameters.
pub proof fn lemma_url_alone(url: Seq<char>)
    ensures
        schema_of(Node::Table(seq![("http"@, Node::Table(seq![("url"@, Node::Text(url))]))])) == Ok::<
            SchemaText,
            Fault,
        >(SchemaText { url, method: "GET"@, query_params: None }),
{
    reveal_strlit("http");
    reveal_strlit("url");
    reveal_strlit("method");
    reveal_strlit("query_params");
    reveal_strlit("queryparams");
    reveal_strlit("query-params");
    let http = seq![("url"@, Node::Text(url))];
    let root = seq![("http"@, Node::Table(http))];
    assert(crate::table::first_at(root, "http"@, 0));
    crate::table::lemma_index_of_first(root, "http"@, 0);
    assert(crate::table::first_at(http, "url"@, 0));
    crate::table::lemma_index_of_first(http, "url"@, 0);
    assert("method"@.len() != "url"@.len());
    crate::table::lemma_index_of_absent(http, "method"@);
    assert("query_params"@.len() != "http"@.len());
    assert("queryparams"@.len() != "http"@.len());
    assert("query-params"@.len() != "http"@.len());
    crate::table::lemma_index_of_absent(root, "query_params"@);
    crate::table::lemma_index_of_absent(root, "queryparams"@);
    crate::table::lemma_index_of_absent(root, "query-params"@);
}

/// A table of parameters that holds a date is rejected as holding an invalid type.
/// Where no value before the date is invalid, the type that the error names is
/// `datetime`.
pub proof fn lemma_datetime_rejected(params: Seq<(Seq<char>, Node)>, field: Seq<char>, i: int)
    requires
        0 <= i < params.len(),
        params[i].1 is Datetime,
    ensures
        params_of(params, field) matches Err(Fault::InvalidType { field: named, .. }) && named == field,
        (forall|j: int| 0 <= j < i ==> scalars_of((#[trigger] params[j]).1) is Ok) ==> params_of(params, field)
            == Err::<Seq<(Seq<char>, Scalars)>, Fault>(
            Fault::InvalidType { field, invalid_type: "datetime"@ },
        ),
{
    lemma_some_invalid(params, i);
    let c = choose|c: int| first_invalid(params, c);
    if forall|j: int| 0 <= j < i ==> scalars_of((#[trigger] params[j]).1) is Ok {
        if c < i {
            assert(scalars_of(params[c].1) is Ok);
        } else if i < c {
            assert(scalars_of(params[i].1) is Ok);
        }
    }
}

/// A table that holds an invalid value has a first one.
proof fn lemma_some_invalid(params: Seq<(Seq<char>, Node)>, upto: int)
    requires
        0 <= upto < params.len(),
        scalars_of(params[upto].1) is Err,
    ensures
        exists|i: int| first_invalid(params, i),
    decreases upto,
{
    if exists|j: int| 0 <= j < upto && scalars_of((#[trigger] params[j]).1) is Err {
        let j = choose|j: int| 0 <= j < upto && scalars_of((#[trigger] params[j]).1) is Err;
        lemma_some_invalid(params, j);
    } else {
        assert(first_invalid(params, upto));
    }
}

/// A document with a valid `http` section whose query parameters hold a date, and no
/// invalid value before it, is rejected: the error names the query parameters and the
/// type `datetime`.
pub proof fn lemma_datetime_in_query_params(
    root: Seq<(Seq<char>, Node)>,
    params: Seq<(Seq<char>, Node)>,
    i: int,
)
    requires
        http_of(root) is Ok,
        params_node(root) == Ok::<Option<Node>, Fault>(Some(Node::Table(params))),
        0 <= i < params.len(),
        params[i].1 is Datetime,
        forall|j: int| 0 <= j < i ==> scalars_of((#[trigger] params[j]).1) is Ok,
    ensures
        schema_of(Node::Table(root)) == Err::<SchemaText, Fault>(
            Fault::InvalidType { field: "params of [query_params]"@, invalid_type: "datetime"@ },
        ),
{
    lemma_datetime_rejected(params, query_params_field(), i);
}

/// The method of a description that names none.
pub fn default_method() -> (method: String)
    ensures
        method@ == "GET"@,
{
    String::from_str("GET")
}

/// The table that a value must be.
pub fn expect_table<'a>(item: &'a Item, field: &str) -> (found: Result<&'a Table<Item>, SchemaError>)
    ensures
        match table_at(item@, field@) {
            Ok(entries) => found matches Ok(table) && table@ == entries,
            Err(fault) => found matches Err(e) && e@ == fault,
        },
{
    match item {
        Item::Table(table) => {
            proof {
                lemma_table_node(*table);
            }
            Ok(table)
        },
        _ => Err(
            SchemaError::TypeMismatch {
                field: String::from_str(field),
                expected: String::from_str("table"),
                found: String::from_str(item.kind()),
            },
        ),
    }
}

/// The string that a value must be.
pub fn expect_text(item: &Item, field: &str) -> (found: Result<String, SchemaError>)
    ensures
        match text_at(item@, field@) {
            Ok(text) => found matches Ok(s) && s@ == text,
            Err(fault) => found matches Err(e) && e@ == fault,
        },
{
    match item {
        Item::Text(text) => Ok(text.clone()),
        _ => Err(
            SchemaError::TypeMismatch {
                field: String::from_str(field),
                expected: String::from_str("string"),
                found: String::from_str(item.kind()),
            },
        ),
    }
}

/// Takes the parameters of a table, each value as a primitive array, and rejects the
/// table at the first value that is none.
pub fn validate_types(params: &Table<Item>, field: &str) -> (checked: Result<Table<PrimitiveArray>, SchemaError>)
    ensures
        match params_of(params@, field@) {
            Ok(entries) => checked matches Ok(table) && table@ == entries && table.wf(),
            Err(fault) => checked matches Err(e) && e@ == fault,
        },
{
    let mut table: Table<PrimitiveArray> = Table::new();
    let mut i: usize = 0;
    assert(narrowed(params@).take(0) =~= Seq::<(Seq<char>, Scalars)>::empty());
    while i < params.len()
        invariant
            i <= params@.len(),
            table.wf(),
            forall|j: int| 0 <= j < i ==> scalars_of((#[trigger] params@[j]).1) is Ok,
            table@ == gathered(narrowed(params@).take(i as int)),
        decreases params@.len() - i,
    {
        let (key, item) = params.entry(i);
        match PrimitiveArray::narrow(item) {
            Ok(value) => {
                proof {
                    let upto = narrowed(params@).take(i + 1);
                    assert(upto.drop_last() =~= narrowed(params@).take(i as int));
                    assert(upto.last() == (key@, value@));
                }
                table.insert(String::from_str(key), value);
            },
            Err(found) => {
                proof {
                    assert(first_invalid(params@, i as int));
                    let c = choose|c: int| first_invalid(params@, c);
                    if c < i {
                        assert(scalars_of(params@[c].1) is Ok);
                    } else if i < c {
                        assert(scalars_of(params@[i as int].1) is Err);
                    }
                }
                return Err(SchemaError::InvalidType { field: String::from_str(field), invalid_type: found });
            },
        }
        i += 1;
    }
    proof {
        assert forall|c: int| !first_invalid(params@, c) by {
            if 0 <= c < params@.len() {
                assert(scalars_of(params@[c].1) is Ok);
            }
        }
        assert(narrowed(params@).take(params@.len() as int) =~= narrowed(params@));
    }
    Ok(table)
}

impl Http {
    /// The `http` section of a document.
    pub fn from_document(root: &Table<Item>) -> (found: Result<Http, SchemaError>)
        ensures
            match http_of(root@) {
                Ok((url, method)) => found matches Ok(http) && http.url@ == url && http.method@ == method,
                Err(fault) => found matches Err(e) && e@ == fault,
            },
    {
        let section = match root.get("http") {
            None => {
                return Err(SchemaError::MissingField { field: String::from_str("http") });
            },
            Some(section) => section,
        };
        let http = match expect_table(section, "http") {
            Err(e) => {
                return Err(e);
            },
            Ok(http) => http,
        };
        let url = match http.get("url") {
            None => {
                return Err(SchemaError::MissingField { field: String::from_str("url") });
            },
            Some(url) => match expect_text(url, "url") {
                Err(e) => {
                    return Err(e);
                },
                Ok(url) => url,
            },
        };
        let method = match http.get("method") {
            None => default_method(),
            Some(method) => match expect_text(method, "method") {
                Err(e) => {
                    return Err(e);
                },
                Ok(method) => method,
            },
        };
        Ok(Http { url, method })
    }
}

impl Schema {
    /// The invariant of the type: no query parameter occurs twice.
    pub open spec fn wf(&self) -> bool {
        self.query_params matches Some(table) ==> table.wf()
    }

    /// A description with the URL `url`, the method `GET` and no query parameters.
    pub fn new() -> (schema: Self)
        ensures
            schema@ == (SchemaText { url: "url"@, method: "GET"@, query_params: None }),
            schema.wf(),
    {
        Schema { http: Http { url: String::from_str("url"), method: String::from_str("GET") }, query_params: None }
    }

    /// The value that a document gives for the query parameters.
    fn params_item<'a>(root: &'a Table<Item>) -> (found: Result<Option<&'a Item>, SchemaError>)
        ensures
            match params_node(root@) {
                Ok(Some(node)) => found matches Ok(Some(item)) && item@ == node,
                Ok(None) => found matches Ok(None),
                Err(fault) => found matches Err(e) && e@ == fault,
            },
    {
        let plain = root.get("query_params");
        let joint = root.get("queryparams");
        let dashed = root.get("query-params");
        if plain.is_some() {
            if joint.is_some() || dashed.is_some() {
                Err(SchemaError::DuplicateField { field: String::from_str("query_params") })
            } else {
                Ok(plain)
            }
        } else if joint.is_some() {
            if dashed.is_some() {
                Err(SchemaError::DuplicateField { field: String::from_str("query_params") })
            } else {
                Ok(joint)
            }
        } else {
            Ok(dashed)
        }
    }

    /// The description that a document holds.
    pub fn from_document(root: &Item) -> (found: Result<Schema, SchemaError>)
        ensures
            match schema_of(root@) {
                Ok(text) => found matches Ok(schema) && schema@ == text && schema.wf(),
                Err(fault) => found matches Err(e) && e@ == fault,
            },
    {
        let entries = match expect_table(root, "document") {
            Err(e) => {
                return Err(e);
            },
            Ok(entries) => entries,
        };
        let http = match Http::from_document(entries) {
            Err(e) => {
                return Err(e);
            },
            Ok(http) => http,
        };
        let query_params = match Schema::params_item(entries) {
            Err(e) => {
                return Err(e);
            },
            Ok(None) => None,
            Ok(Some(item)) => match expect_table(item, "query_params") {
                Err(e) => {
                    return Err(e);
                },
                Ok(params) => match validate_types(params, "params of [query_params]") {
                    Err(e) => {
                        return Err(e);
                    },
                    Ok(table) => Some(table),
                },
            },
        };
        Ok(Schema { http, query_params })
    }

    /// Reads a description from the text of a TOML document.
    pub fn from_str(s: &str) -> (found: Result<Schema, SchemaError>)
        ensures
            match toml_reading(s@) {
                None => found matches Err(SchemaError::InvalidSyntax { .. }),
                Some(root) => match schema_of(root) {
                    Ok(text) => found matches Ok(schema) && schema@ == text && schema.wf(),
                    Err(fault) => found matches Err(e) && e@ == fault,
                },
            },
    {
        match read(s) {
            Err(e) => Err(e),
            Ok(root) => Schema::from_document(&root),
        }
    }
}

} // verus!
