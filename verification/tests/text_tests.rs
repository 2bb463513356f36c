use rede_core::table::Table;
use rede_core::text::{decimal_of, digits_of, same_text, substitute, token_for};

#[test]
fn a_token_is_the_name_in_double_braces() {
    assert_eq!(token_for("name"), "{{name}}");
    assert_eq!(token_for(""), "{{}}");
}

#[test]
fn texts_are_compared_by_their_characters() {
    assert!(same_text("", ""));
    assert!(same_text("héllo", "héllo"));
    assert!(!same_text("hello", "hellO"));
    assert!(!same_text("hello", "hell"));
}

#[test]
fn numbers_are_written_in_decimal() {
    assert_eq!(digits_of(0), "0");
    assert_eq!(digits_of(9), "9");
    assert_eq!(digits_of(10), "10");
    assert_eq!(digits_of(u64::MAX), "18446744073709551615");
    assert_eq!(decimal_of(-1), "-1");
    assert_eq!(decimal_of(105), "105");
}

#[test]
fn every_occurrence_is_replaced_from_the_left() {
    let mut form = Table::new();
    form.insert("k".to_string(), "aaa".to_string());
    rede_core::renderer::render_form_urlencoded(&mut form, "k", "aa", "b");
    assert_eq!(form.get("k"), Some(&"ba".to_string()));

    let mut form = Table::new();
    form.insert("k".to_string(), "x-y-x".to_string());
    rede_core::renderer::render_form_urlencoded(&mut form, "k", "x", "xx");
    assert_eq!(form.get("k"), Some(&"xx-y-xx".to_string()));

    let mut form = Table::new();
    form.insert("k".to_string(), "abc".to_string());
    rede_core::renderer::render_form_urlencoded(&mut form, "k", "", "-");
    assert_eq!(form.get("k"), Some(&"-a-b-c-".to_string()));

    let mut form = Table::new();
    form.insert("k".to_string(), "".to_string());
    rede_core::renderer::render_form_urlencoded(&mut form, "k", "", "-");
    assert_eq!(form.get("k"), Some(&"-".to_string()));

    let mut form = Table::new();
    form.insert("k".to_string(), "día {{d}}".to_string());
    rede_core::renderer::render_form_urlencoded(&mut form, "k", "{{d}}", "ñ");
    assert_eq!(form.get("k"), Some(&"día ñ".to_string()));
}

#[test]
fn a_text_without_the_pattern_stays() {
    assert_eq!(substitute("https://example.com/{{id}}", "{{name}}", "x"), "https://example.com/{{id}}");
    assert_eq!(substitute("", "{{name}}", "x"), "");
    assert_eq!(substitute("{{name}", "{{name}}", "x"), "{{name}");
}

#[test]
fn a_value_is_put_in_as_it_is() {
    assert_eq!(substitute("{{a}}", "{{a}}", "{{b}}"), "{{b}}");
    assert_eq!(substitute("{{a}}{{a}}", "{{a}}", ""), "");
    assert_eq!(substitute("{{{{a}}}}", "{{a}}", "a"), "{{a}}");
}
