use rede_core::error::SchemaError;
use rede_core::request::{Body as PublicBody, FormDataValue as PublicFormDataValue};
use rede_core::schema::body::{map_value, Body, FormDataValue};
use rede_core::schema::types::{Primitive, PrimitiveArray};
use rede_core::table::Table;

#[test]
fn deserialize() {
    assert_eq!(
        Body::from_str(r#"body.raw = "content""#).unwrap(),
        Body::Raw("content".to_string())
    );

    let toml = r#"body.form-urlencoded = { type = "integer", value = 1 }"#;
    let body = Body::from_str(toml).unwrap();
    assert!(matches!(&body, Body::XFormUrlEncoded(map) if map.len() == 2));
    if let Body::XFormUrlEncoded(map) = &body {
        assert_eq!(
            map.get("type"),
            Some(&PrimitiveArray::Single(Primitive::Str("integer".to_string())))
        );
        assert_eq!(map.get("value"), Some(&PrimitiveArray::Single(Primitive::Int(1))));
    }

    let toml = r#"
        [body.form_data]
        raw.text = "raw"
        binary.file = "path"
        "#;
    let body = Body::from_str(toml).unwrap();
    assert!(matches!(&body, Body::FormData(map) if map.len() == 2));
    if let Body::FormData(map) = &body {
        assert_eq!(
            map.get("raw"),
            Some(&FormDataValue::Text(PrimitiveArray::Single(Primitive::Str("raw".to_string()))))
        );
        assert_eq!(map.get("binary"), Some(&FormDataValue::File("path".to_string())));
    }
}

#[test]
fn only_one_type() {
    let toml = r#"
        [body]
        raw = "raw"
        binary = "file"
        "#;
    let err = Body::from_str(toml).err().unwrap();
    assert!(err.message().contains("wanted exactly 1 element"));

    let toml = r#"
        [body.form-data]
        key.text = 2
        key.file = "path"
        "#;
    let err = Body::from_str(toml).err().unwrap();
    assert!(err.message().contains("wanted exactly 1 element"));
}

#[test]
fn deserialize_empty() {
    let err = Body::from_str(r#"[body]"#).err().unwrap();
    assert!(err.message().contains("wanted exactly 1 element"));
}

#[test]
fn a_document_without_a_body_has_none() {
    assert_eq!(Body::from_str("").unwrap(), Body::Empty);
    assert_eq!(Body::from_str("http.url = \"u\"").unwrap(), Body::Empty);
    assert_eq!(Body::from_str("body = \"none\"").unwrap(), Body::Empty);
}

#[test]
fn every_pair_of_alternatives_is_rejected() {
    let raw = "raw = \"r\"";
    let binary = "binary = \"b\"";
    let form_data = "form_data = { k = { text = 1 } }";
    let form_urlencoded = "form_urlencoded = { k = 1 }";
    let all = [raw, binary, form_data, form_urlencoded];
    for (i, first) in all.iter().enumerate() {
        for second in all.iter().skip(i + 1) {
            let text = format!("[body]\n{first}\n{second}");
            assert_eq!(
                Body::from_str(&text).err().unwrap(),
                SchemaError::NotExactlyOne { field: "body".to_string(), count: 2 }
            );
        }
    }
    let text = format!("[body]\n{raw}\n{binary}\n{form_data}\n{form_urlencoded}");
    let error = Body::from_str(&text).err().unwrap();
    assert_eq!(error, SchemaError::NotExactlyOne { field: "body".to_string(), count: 4 });
    assert_eq!(error.message(), "wanted exactly 1 element, found 4 elements in `body`");
    let error = Body::from_str("[body]").err().unwrap();
    assert_eq!(error.message(), "wanted exactly 1 element, found 0 elements in `body`");
}

#[test]
fn every_name_of_an_alternative_is_known() {
    for name in ["raw", "text"] {
        let body = Body::from_str(&format!("body.{name} = \"c\"")).unwrap();
        assert_eq!(body, Body::Raw("c".to_string()));
    }
    for name in ["binary", "file"] {
        let body = Body::from_str(&format!("body.{name} = \"p\"")).unwrap();
        assert_eq!(body, Body::Binary("p".to_string()));
    }
    for name in ["form_data", "form-data", "multipart_form_data", "multipart-form-data"] {
        let body = Body::from_str(&format!("body.{name} = {{}}")).unwrap();
        assert_eq!(body, Body::FormData(Table::new()));
    }
    for name in ["x_form_url_encoded", "x-www-form-urlencoded", "form_urlencoded", "form-urlencoded"] {
        let body = Body::from_str(&format!("body.{name} = {{}}")).unwrap();
        assert_eq!(body, Body::XFormUrlEncoded(Table::new()));
    }
    let error = Body::from_str("body.json = \"{}\"").err().unwrap();
    assert_eq!(
        error,
        SchemaError::UnknownVariant { field: "body".to_string(), variant: "json".to_string() }
    );
    assert_eq!(error.message(), "unknown variant `json` in `body`");
}

#[test]
fn values_of_the_wrong_type_are_rejected() {
    assert_eq!(
        Body::from_str("body = 1").err().unwrap(),
        SchemaError::TypeMismatch {
            field: "body".to_string(),
            expected: "table".to_string(),
            found: "integer".to_string()
        }
    );
    assert_eq!(
        Body::from_str("body.raw = 1").err().unwrap(),
        SchemaError::TypeMismatch {
            field: "raw".to_string(),
            expected: "string".to_string(),
            found: "integer".to_string()
        }
    );
    assert_eq!(
        Body::from_str("body.form_urlencoded = { d = 1970-01-01 }").err().unwrap(),
        SchemaError::InvalidType {
            field: "params of [body]".to_string(),
            invalid_type: "datetime".to_string()
        }
    );
    assert_eq!(
        Body::from_str("body.form_data = { k = { text = { a = 1 } } }").err().unwrap(),
        SchemaError::InvalidType { field: "k".to_string(), invalid_type: "table".to_string() }
    );
    assert_eq!(
        Body::from_str("body.form_data = { k = { tex = 1 } }").err().unwrap(),
        SchemaError::UnknownVariant { field: "k".to_string(), variant: "tex".to_string() }
    );
    assert_eq!(
        Body::from_str("body.form_data = { k = { file = 1 } }").err().unwrap(),
        SchemaError::TypeMismatch {
            field: "k".to_string(),
            expected: "string".to_string(),
            found: "integer".to_string()
        }
    );
    assert_eq!(
        Body::from_str("body.form_data = { k = {} }").err().unwrap(),
        SchemaError::NotExactlyOne { field: "k".to_string(), count: 0 }
    );
}

#[test]
fn a_body_becomes_the_body_of_a_request() {
    assert!(matches!(PublicBody::from(Body::Empty), PublicBody::Empty));
    match PublicBody::from(Body::Raw("c".to_string())) {
        PublicBody::Raw { content, mime } => {
            assert_eq!(content, "c");
            assert_eq!(mime, mime::TEXT_PLAIN_UTF_8);
            assert_eq!(mime.as_ref(), "text/plain; charset=utf-8");
        }
        _ => panic!("the body is raw"),
    }
    match PublicBody::from(Body::Binary("p".to_string())) {
        PublicBody::Binary { path, mime } => {
            assert_eq!(path, "p");
            assert_eq!(mime, mime::APPLICATION_OCTET_STREAM);
            assert_eq!(mime.as_ref(), "application/octet-stream");
        }
        _ => panic!("the body is binary"),
    }
    let body = Body::from_str("body.form_urlencoded = { b = [1, 2], a = true }").unwrap();
    match PublicBody::from(body) {
        PublicBody::XFormUrlEncoded(form) => {
            assert_eq!(form.len(), 2);
            assert_eq!(form.entry(0), ("a", &"true".to_string()));
            assert_eq!(form.entry(1), ("b", &"1,2".to_string()));
        }
        _ => panic!("the body is a url-encoded form"),
    }
    let body = Body::from_str("body.form_data = { t = { text = 5 }, f = { file = \"p\" } }").unwrap();
    match PublicBody::from(body) {
        PublicBody::FormData(form) => {
            assert_eq!(form.len(), 2);
            assert_eq!(form.get("t"), Some(&PublicFormDataValue::Text("5".to_string())));
            assert_eq!(form.get("f"), Some(&PublicFormDataValue::File("p".to_string())));
        }
        _ => panic!("the body is a multipart form"),
    }
}

#[test]
fn a_field_becomes_the_field_of_a_request() {
    let text = FormDataValue::Text(PrimitiveArray::Multiple(vec![
        Primitive::Str("a".to_string()),
        Primitive::Int(2),
    ]));
    assert_eq!(map_value(text), PublicFormDataValue::Text("a,2".to_string()));
    assert_eq!(
        map_value(FormDataValue::File("p".to_string())),
        PublicFormDataValue::File("p".to_string())
    );
}
