use rede_core::document::{read, Item};
use rede_core::error::SchemaError;
use rede_core::schema::types::{Primitive, PrimitiveArray};
use rede_core::schema::{default_method, Schema};
use rede_core::table::Table;

const ALL: &str = r#"
    [http]
    method = "GET"
    url = "https://example.org/api"

    [queryparams]
    string = "string"
    integer = 10
    float = 0.1
    array = [ "first", "second" ]
    boolean = true
    "#;

#[test]
fn deserialize_all() {
    let mut schema: Schema = Schema::from_str(ALL).unwrap();
    assert_eq!(schema.http.url, "https://example.org/api");
    assert_eq!(schema.http.method, "GET");
    let query_params = schema.query_params.take().unwrap();
    assert_eq!(query_params.len(), 5);
    assert_eq!(
        *query_params.get("string").unwrap(),
        PrimitiveArray::Single(Primitive::Str("string".into()))
    );
    assert_eq!(
        *query_params.get("integer").unwrap(),
        PrimitiveArray::Single(Primitive::Int(10))
    );
    assert_eq!(
        *query_params.get("float").unwrap(),
        PrimitiveArray::Single(Primitive::Float(0.1f64.to_string()))
    );
    assert_eq!(
        *query_params.get("boolean").unwrap(),
        PrimitiveArray::Single(Primitive::Bool(true))
    );
    assert_eq!(
        *query_params.get("array").unwrap(),
        PrimitiveArray::Multiple(vec![
            Primitive::Str("first".into()),
            Primitive::Str("second".into()),
        ])
    );
}

#[test]
fn missing_fields() {
    assert!(Schema::from_str("")
        .err()
        .unwrap()
        .message()
        .contains("missing field `http"));
    assert!(Schema::from_str("[http]")
        .err()
        .unwrap()
        .message()
        .contains("missing field `url`"));
}

#[test]
fn default_values() {
    let toml = r#"http.url = "url""#;
    let schema = Schema::from_str(toml).unwrap();
    assert_eq!(schema.http.method, "GET");
}

#[test]
fn invalid_type() {
    let toml = r#"
        [http]
        method = "GET"
        url = "url"

        [queryparams]
        date = 1970-01-01
        "#;
    assert_eq!(
        Schema::from_str(toml).err().unwrap(),
        SchemaError::InvalidType {
            field: "params of [query_params]".to_string(),
            invalid_type: "datetime".to_string()
        }
    )
}

#[test]
fn the_plain_schema() {
    let schema = Schema::new();
    assert_eq!(schema.http.url, "url");
    assert_eq!(schema.http.method, "GET");
    assert_eq!(schema.query_params, None);
    assert_eq!(default_method(), "GET");
}

#[test]
fn the_method_of_the_document_is_kept() {
    let schema = Schema::from_str("[http]\nurl = \"u\"\nmethod = \"POST\"").unwrap();
    assert_eq!(schema.http.method, "POST");
    assert_eq!(schema.http.url, "u");
    assert_eq!(schema.query_params, None);
}

#[test]
fn a_text_that_is_no_toml_is_a_syntax_error() {
    let error = Schema::from_str("[http").err().unwrap();
    assert!(matches!(error, SchemaError::InvalidSyntax { .. }));
    assert!(!error.message().is_empty());
}

#[test]
fn fields_of_the_wrong_type_are_mismatches() {
    assert_eq!(
        Schema::from_str("http = 1").err().unwrap(),
        SchemaError::TypeMismatch {
            field: "http".to_string(),
            expected: "table".to_string(),
            found: "integer".to_string()
        }
    );
    assert_eq!(
        Schema::from_str("http.url = true").err().unwrap(),
        SchemaError::TypeMismatch {
            field: "url".to_string(),
            expected: "string".to_string(),
            found: "boolean".to_string()
        }
    );
    assert_eq!(
        Schema::from_str("http.url = \"u\"\nhttp.method = [1]").err().unwrap(),
        SchemaError::TypeMismatch {
            field: "method".to_string(),
            expected: "string".to_string(),
            found: "array".to_string()
        }
    );
    let error = Schema::from_str("http.url = \"u\"\nquery-params = \"x\"").err().unwrap();
    assert_eq!(
        error,
        SchemaError::TypeMismatch {
            field: "query_params".to_string(),
            expected: "table".to_string(),
            found: "string".to_string()
        }
    );
    assert_eq!(error.message(), "invalid type: string, expected table for `query_params`");
}

#[test]
fn query_params_have_three_names_and_one_place() {
    for name in ["query_params", "queryparams", "query-params"] {
        let text = format!("http.url = \"u\"\n[{name}]\npage = 1");
        let schema = Schema::from_str(&text).unwrap();
        let params = schema.query_params.unwrap();
        assert_eq!(params.get("page"), Some(&PrimitiveArray::Single(Primitive::Int(1))));
    }
    let twice = "http.url = \"u\"\n[query_params]\na = 1\n[queryparams]\nb = 2";
    let error = Schema::from_str(twice).err().unwrap();
    assert_eq!(error, SchemaError::DuplicateField { field: "query_params".to_string() });
    assert_eq!(error.message(), "duplicate field `query_params`");
}

#[test]
fn nested_values_are_invalid_types() {
    let table = "http.url = \"u\"\n[queryparams]\nok = 1\ninner = { a = 1 }";
    assert_eq!(
        Schema::from_str(table).err().unwrap(),
        SchemaError::InvalidType {
            field: "params of [query_params]".to_string(),
            invalid_type: "table".to_string()
        }
    );
    let array = "http.url = \"u\"\n[queryparams]\nlist = [1, [2]]";
    assert_eq!(
        Schema::from_str(array).err().unwrap(),
        SchemaError::InvalidType {
            field: "params of [query_params]".to_string(),
            invalid_type: "array".to_string()
        }
    );
    let date = "http.url = \"u\"\n[queryparams]\nlist = [1, 1970-01-01]";
    let error = Schema::from_str(date).err().unwrap();
    assert_eq!(error.message(), "invalid type `datetime` in params of [query_params]");
}

#[test]
fn a_document_is_read_into_plain_values() {
    let root = read("a = 1\nb = [true, \"x\"]\nc = 1.5\nd = 1979-05-27\n[t]\nk = -3").unwrap();
    let mut inner = Table::new();
    inner.insert("k".to_string(), Item::Integer(-3));
    let mut expected = Table::new();
    expected.insert("a".to_string(), Item::Integer(1));
    expected.insert(
        "b".to_string(),
        Item::Array(vec![Item::Boolean(true), Item::Text("x".to_string())]),
    );
    expected.insert("c".to_string(), Item::Float("1.5".to_string()));
    expected.insert("d".to_string(), Item::Datetime("1979-05-27".to_string()));
    expected.insert("t".to_string(), Item::Table(inner));
    assert_eq!(root, Item::Table(expected));
}

#[test]
fn a_schema_is_taken_from_a_document_built_by_hand() {
    let mut http = Table::new();
    http.insert("url".to_string(), Item::Text("u".to_string()));
    let mut root = Table::new();
    root.insert("http".to_string(), Item::Table(http));
    let schema = Schema::from_document(&Item::Table(root)).unwrap();
    assert_eq!(schema.http.url, "u");
    assert_eq!(schema.http.method, "GET");

    assert_eq!(
        Schema::from_document(&Item::Integer(1)).err().unwrap(),
        SchemaError::TypeMismatch {
            field: "document".to_string(),
            expected: "table".to_string(),
            found: "integer".to_string()
        }
    );
}

#[test]
fn primitives_have_a_text() {
    assert_eq!(Primitive::Str("a b".to_string()).text(), "a b");
    assert_eq!(Primitive::Int(0).text(), "0");
    assert_eq!(Primitive::Int(1234567890).text(), "1234567890");
    assert_eq!(Primitive::Int(-42).text(), "-42");
    assert_eq!(Primitive::Int(i64::MIN).text(), "-9223372036854775808");
    assert_eq!(Primitive::Int(i64::MAX).text(), "9223372036854775807");
    assert_eq!(Primitive::Float("0.5".to_string()).text(), "0.5");
    assert_eq!(Primitive::Bool(true).text(), "true");
    assert_eq!(Primitive::Bool(false).text(), "false");
    assert_eq!(PrimitiveArray::Single(Primitive::Int(7)).text(), "7");
    assert_eq!(PrimitiveArray::Multiple(vec![]).text(), "");
    assert_eq!(PrimitiveArray::Multiple(vec![Primitive::Int(7)]).text(), "7");
    assert_eq!(
        PrimitiveArray::Multiple(vec![
            Primitive::Int(1),
            Primitive::Str("b".to_string()),
            Primitive::Bool(false)
        ])
        .text(),
        "1,b,false"
    );
}
