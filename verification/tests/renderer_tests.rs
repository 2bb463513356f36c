use http::{HeaderMap, Method, Version};
use rede_core::placeholders::{Location, Placeholders};
use rede_core::renderer::{render_headers, RenderError, Renderer};
use rede_core::request::{Body, FormDataValue, Request};
use rede_core::table::Table;
use std::collections::HashMap;

fn plain_request(url: &str) -> Request {
    Request {
        method: Method::GET,
        url: url.to_string(),
        http_version: Version::HTTP_11,
        metadata: HashMap::new(),
        headers: HeaderMap::new(),
        query_params: Vec::new(),
        variables: HashMap::new(),
        body: Body::Empty,
    }
}

#[test]
fn render() {
    let mut placeholders = Placeholders::default();
    placeholders.add_all(&Location::Url, vec!["id", "name"]);
    placeholders.add_all(
        &Location::Headers("Authorization".parse().unwrap()),
        vec!["token"],
    );
    placeholders.add_all(&Location::QueryParams("page".to_string()), vec!["page"]);
    placeholders.add_all(&Location::QueryParams("size".to_string()), vec!["size"]);
    placeholders.add_all(&Location::Body, vec!["id", "name"]);

    let values = vec![
        ("id".to_string(), "1".to_string()),
        ("name".to_string(), "test".to_string()),
        ("token".to_string(), "abc".to_string()),
        ("page".to_string(), "1".to_string()),
        ("size".to_string(), "10".to_string()),
    ];

    let renderer = Renderer::new(placeholders, &values);

    let mut headers = HeaderMap::new();
    headers.insert("Content-Type", "application/json".parse().unwrap());
    headers.insert("Authorization", "Bearer {{token}}".parse().unwrap());

    let mut query_params = Vec::new();
    query_params.push(("page".to_string(), "{{page}}".to_string()));
    query_params.push(("size".to_string(), "{{size}}".to_string()));

    let request = Request {
        method: Method::GET,
        url: "https://example.com/{{id}}/{{name}}/{{id}}".to_string(),
        http_version: Version::HTTP_11,
        metadata: HashMap::new(),
        headers,
        query_params,
        variables: HashMap::new(),
        body: Body::Empty,
    };

    assert!(renderer.suits(&request.body));
    let rendered = renderer.render(request).unwrap();

    assert_eq!(rendered.url, "https://example.com/1/test/1");
    assert_eq!(rendered.headers["Authorization"].to_str().unwrap(), "Bearer abc");
    assert_eq!(
        rendered.query_params,
        vec![
            ("page".to_string(), "1".to_string()),
            ("size".to_string(), "10".to_string()),
        ]
    );
    assert_eq!(rendered.headers["Content-Type"].to_str().unwrap(), "application/json");
    assert_eq!(rendered.method, Method::GET);
    assert_eq!(rendered.http_version, Version::HTTP_11);
}

#[test]
fn render_form_data() {
    let mut form = Table::new();
    form.insert(
        "name".to_string(),
        FormDataValue::Text("{{name}}".to_string()),
    );
    form.insert(
        "file".to_string(),
        FormDataValue::File("{{path}}/file".to_string()),
    );

    rede_core::renderer::render_form_data(&mut form, "name", "{{name}}", "temp_file");
    rede_core::renderer::render_form_data(&mut form, "file", "{{path}}", "/tmp");

    assert_eq!(form.get("name"), Some(&FormDataValue::Text("temp_file".to_string())));
    assert_eq!(form.get("file"), Some(&FormDataValue::File("/tmp/file".to_string())));
}

#[test]
fn render_form_urlencoded() {
    let mut form = Table::new();
    form.insert("page".to_string(), "{{page}}".to_string());
    form.insert("order".to_string(), "{{field}}:asc".to_string());

    rede_core::renderer::render_form_urlencoded(&mut form, "page", "{{page}}", "10");
    rede_core::renderer::render_form_urlencoded(&mut form, "order", "{{field}}", "id");

    assert_eq!(form.get("page"), Some(&"10".to_string()));
    assert_eq!(form.get("order"), Some(&"id:asc".to_string()));
}

#[test]
fn empty_values_leave_the_request_as_it_is() {
    let mut placeholders = Placeholders::new();
    placeholders.add_all(&Location::Url, vec!["id"]);
    placeholders.add_all(&Location::BodyForm("f".to_string()), vec!["id"]);
    let renderer = Renderer::new(placeholders, &[]);
    let request = plain_request("https://example.com/{{id}}");
    assert!(renderer.suits(&request.body));
    let rendered = renderer.render(request).unwrap();
    assert_eq!(rendered.url, "https://example.com/{{id}}");
    assert!(rendered.headers.is_empty());
    assert!(rendered.query_params.is_empty());
    assert!(matches!(rendered.body, Body::Empty));
}

#[test]
fn a_name_without_a_value_keeps_its_token() {
    let mut placeholders = Placeholders::new();
    placeholders.add_all(&Location::Url, vec!["id", "name"]);
    placeholders.add_all(&Location::QueryParams("q".to_string()), vec!["name"]);
    let renderer = Renderer::new(placeholders, &[("id".to_string(), "7".to_string())]);
    let mut request = plain_request("/{{id}}/{{name}}");
    request.query_params.push(("q".to_string(), "{{name}}".to_string()));
    let rendered = renderer.render(request).unwrap();
    assert_eq!(rendered.url, "/7/{{name}}");
    assert_eq!(rendered.query_params, vec![("q".to_string(), "{{name}}".to_string())]);
}

#[test]
fn the_first_query_parameter_of_a_key_is_rendered() {
    let mut placeholders = Placeholders::new();
    placeholders.add(&Location::QueryParams("k".to_string()), "v");
    let renderer = Renderer::new(placeholders, &[("v".to_string(), "x".to_string())]);
    let mut request = plain_request("/");
    request.query_params.push(("a".to_string(), "{{v}}".to_string()));
    request.query_params.push(("k".to_string(), "{{v}}1".to_string()));
    request.query_params.push(("k".to_string(), "{{v}}2".to_string()));
    let rendered = renderer.render(request).unwrap();
    assert_eq!(
        rendered.query_params,
        vec![
            ("a".to_string(), "{{v}}".to_string()),
            ("k".to_string(), "x1".to_string()),
            ("k".to_string(), "{{v}}2".to_string()),
        ]
    );
}

#[test]
fn the_last_value_of_a_name_wins() {
    let mut placeholders = Placeholders::new();
    placeholders.add(&Location::Url, "id");
    let values = vec![
        ("id".to_string(), "1".to_string()),
        ("id".to_string(), "2".to_string()),
    ];
    let renderer = Renderer::new(placeholders, &values);
    let rendered = renderer.render(plain_request("/{{id}}")).unwrap();
    assert_eq!(rendered.url, "/2");
}

#[test]
fn values_chain_in_catalog_order() {
    let mut placeholders = Placeholders::new();
    placeholders.add(&Location::Url, "a");
    placeholders.add(&Location::Url, "b");
    let values = vec![
        ("b".to_string(), "B".to_string()),
        ("a".to_string(), "{{b}}".to_string()),
    ];
    let renderer = Renderer::new(placeholders, &values);
    let rendered = renderer.render(plain_request("{{a}}")).unwrap();
    assert_eq!(rendered.url, "B");

    let mut placeholders = Placeholders::new();
    placeholders.add(&Location::Url, "b");
    placeholders.add(&Location::Url, "a");
    let renderer = Renderer::new(placeholders, &values);
    let rendered = renderer.render(plain_request("{{a}}")).unwrap();
    assert_eq!(rendered.url, "{{b}}");
}

#[test]
fn body_forms_are_rendered_through_the_catalog() {
    let mut placeholders = Placeholders::new();
    placeholders.add(&Location::BodyForm("name".to_string()), "name");
    placeholders.add(&Location::BodyForm("file".to_string()), "path");
    placeholders.add(&Location::BodyForm("absent".to_string()), "path");
    let values = vec![
        ("name".to_string(), "temp_file".to_string()),
        ("path".to_string(), "/tmp".to_string()),
    ];
    let renderer = Renderer::new(placeholders, &values);

    let mut form = Table::new();
    form.insert("name".to_string(), FormDataValue::Text("{{name}}".to_string()));
    form.insert("file".to_string(), FormDataValue::File("{{path}}/file".to_string()));
    let mut request = plain_request("/");
    request.body = Body::FormData(form);
    assert!(renderer.suits(&request.body));
    let rendered = renderer.render(request).unwrap();
    match rendered.body {
        Body::FormData(form) => {
            assert_eq!(form.len(), 2);
            assert_eq!(form.get("name"), Some(&FormDataValue::Text("temp_file".to_string())));
            assert_eq!(form.get("file"), Some(&FormDataValue::File("/tmp/file".to_string())));
        }
        _ => panic!("the body is a multipart form"),
    }

    let mut form = Table::new();
    form.insert("name".to_string(), "{{name}}!".to_string());
    let mut request = plain_request("/");
    request.body = Body::XFormUrlEncoded(form);
    let rendered = renderer.render(request).unwrap();
    match rendered.body {
        Body::XFormUrlEncoded(form) => assert_eq!(form.get("name"), Some(&"temp_file!".to_string())),
        _ => panic!("the body is a url-encoded form"),
    }
}

#[test]
fn a_form_field_does_not_suit_a_body_that_is_no_form() {
    let mut placeholders = Placeholders::new();
    placeholders.add(&Location::BodyForm("name".to_string()), "name");
    let with_value = Renderer::new(placeholders, &[("name".to_string(), "x".to_string())]);
    assert!(!with_value.suits(&Body::Empty));
    assert!(with_value.suits(&Body::XFormUrlEncoded(Table::new())));

    let mut placeholders = Placeholders::new();
    placeholders.add(&Location::BodyForm("name".to_string()), "name");
    let without_value = Renderer::new(placeholders, &[]);
    assert!(without_value.suits(&Body::Empty));
}

#[test]
fn a_header_that_is_not_text_fails() {
    let mut headers = HeaderMap::new();
    headers.insert("x-raw", http::HeaderValue::from_bytes(b"caf\xe9 {{v}}").unwrap());
    let name: http::header::HeaderName = "x-raw".parse().unwrap();
    let done = render_headers(&mut headers, &name, "{{v}}", "1");
    assert_eq!(done, Err(RenderError::UnreadableHeader { header: "x-raw".to_string() }));
    assert_eq!(headers["x-raw"].as_bytes(), b"caf\xe9 {{v}}");
}

#[test]
fn a_header_value_that_becomes_invalid_fails() {
    let mut headers = HeaderMap::new();
    headers.insert("X-Note", "a {{v}} b".parse().unwrap());
    let name: http::header::HeaderName = "X-Note".parse().unwrap();
    let done = render_headers(&mut headers, &name, "{{v}}", "line\nbreak");
    assert_eq!(
        done,
        Err(RenderError::InvalidHeaderValue {
            header: "x-note".to_string(),
            value: "a line\nbreak b".to_string(),
        })
    );
    assert_eq!(headers["x-note"].to_str().unwrap(), "a {{v}} b");
}

#[test]
fn only_the_first_value_of_a_header_is_rendered() {
    let mut headers = HeaderMap::new();
    headers.append("accept", "{{a}}/json".parse().unwrap());
    headers.append("accept", "{{a}}/xml".parse().unwrap());
    let name: http::header::HeaderName = "accept".parse().unwrap();
    assert_eq!(render_headers(&mut headers, &name, "{{a}}", "text"), Ok(()));
    let all: Vec<&str> = headers.get_all("accept").iter().map(|v| v.to_str().unwrap()).collect();
    assert_eq!(all, vec!["text/json", "{{a}}/xml"]);

    let missing: http::header::HeaderName = "x-missing".parse().unwrap();
    assert_eq!(render_headers(&mut headers, &missing, "{{a}}", "text"), Ok(()));
    assert_eq!(headers.len(), 2);
}

#[test]
fn a_header_error_stops_the_rendering() {
    let mut placeholders = Placeholders::new();
    placeholders.add(&Location::Headers("x-note".parse().unwrap()), "v");
    let renderer = Renderer::new(placeholders, &[("v".to_string(), "\r".to_string())]);
    let mut request = plain_request("/");
    request.headers.insert("x-note", "{{v}}".parse().unwrap());
    let done = renderer.render(request);
    assert!(matches!(done, Err(RenderError::InvalidHeaderValue { .. })));
}
