use registry_proxy::error::FetchError;
use registry_proxy::inner::ApiInner;
use registry_proxy::json::rewrite_value;
use serde_json::Value;

const UPSTREAM: &str = "https://registry.npmjs.org/";
const PUBLIC: &str = "http://localhost:5000/";

fn parse(text: &str) -> Value {
    serde_json::from_str(text).unwrap()
}

#[test]
fn string_value_is_rewritten() {
    let value = Value::String("https://registry.npmjs.org/left-pad".to_string());
    assert_eq!(
        rewrite_value(value, UPSTREAM, PUBLIC),
        Value::String("http://localhost:5000/left-pad".to_string())
    );
}

#[test]
fn scalars_are_kept() {
    for text in ["null", "true", "false", "0", "-17", "3.5", "1e300", "18446744073709551615"] {
        assert_eq!(rewrite_value(parse(text), UPSTREAM, PUBLIC), parse(text));
    }
}

#[test]
fn nested_strings_are_rewritten() {
    let value = parse(
        r#"{"name":"left-pad","versions":{"1.0.0":{"dist":{"tarball":"https://registry.npmjs.org/left-pad/-/left-pad-1.0.0.tgz","n":1}}},"list":["https://registry.npmjs.org/a",["https://registry.npmjs.org/b",null,2]]}"#,
    );
    let expected = parse(
        r#"{"name":"left-pad","versions":{"1.0.0":{"dist":{"tarball":"http://localhost:5000/left-pad/-/left-pad-1.0.0.tgz","n":1}}},"list":["http://localhost:5000/a",["http://localhost:5000/b",null,2]]}"#,
    );
    assert_eq!(rewrite_value(value, UPSTREAM, PUBLIC), expected);
}

#[test]
fn every_occurrence_in_a_string_is_rewritten() {
    let value = parse(
        r#"["see https://registry.npmjs.org/a and https://registry.npmjs.org/b"]"#,
    );
    let expected = parse(r#"["see http://localhost:5000/a and http://localhost:5000/b"]"#);
    assert_eq!(rewrite_value(value, UPSTREAM, PUBLIC), expected);
}

#[test]
fn keys_are_not_rewritten() {
    let value = parse(r#"{"https://registry.npmjs.org/":"https://registry.npmjs.org/"}"#);
    let expected = parse(r#"{"https://registry.npmjs.org/":"http://localhost:5000/"}"#);
    assert_eq!(rewrite_value(value, UPSTREAM, PUBLIC), expected);
}

#[test]
fn order_and_number_of_items_are_kept() {
    let value = parse(r#"[3,"b",1,"a",[],{},"c"]"#);
    assert_eq!(rewrite_value(value.clone(), "a", "z"), parse(r#"[3,"b",1,"z",[],{},"c"]"#));
    assert_eq!(rewrite_value(value.clone(), "q", "z"), value);
}

#[test]
fn object_with_many_members_keeps_them_all() {
    let value = parse(r#"{"z":"u1","a":"u2","m":{"k":"u3","b":"u4"},"0":"u5"}"#);
    let expected = parse(r#"{"z":"v1","a":"v2","m":{"k":"v3","b":"v4"},"0":"v5"}"#);
    assert_eq!(rewrite_value(value, "u", "v"), expected);
}

#[test]
fn document_without_occurrence_is_unchanged() {
    let value = parse(r#"{"name":"left-pad","dist":{"tarball":"https://example.org/x.tgz"},"n":[1,2,3]}"#);
    assert_eq!(rewrite_value(value.clone(), UPSTREAM, PUBLIC), value);
}

#[test]
fn empty_containers_are_kept() {
    assert_eq!(rewrite_value(parse("[]"), "a", "b"), parse("[]"));
    assert_eq!(rewrite_value(parse("{}"), "a", "b"), parse("{}"));
    assert_eq!(rewrite_value(parse(r#""""#), "a", "b"), parse(r#""""#));
}

#[test]
fn modified_rewrites_document_bytes() {
    let body = br#"{"name":"left-pad","dist":{"tarball":"https://registry.npmjs.org/left-pad/-/left-pad-1.0.0.tgz"}}"#;
    let out = ApiInner::modified(UPSTREAM, PUBLIC, body).unwrap();
    let text = String::from_utf8(out).unwrap();
    assert!(text.contains(r#""tarball":"http://localhost:5000/left-pad/-/left-pad-1.0.0.tgz""#));
    assert!(!text.contains("registry.npmjs.org"));
    assert_eq!(
        parse(&text),
        parse(r#"{"name":"left-pad","dist":{"tarball":"http://localhost:5000/left-pad/-/left-pad-1.0.0.tgz"}}"#)
    );
}

#[test]
fn modified_without_occurrence_gives_same_document() {
    let body = br#"{"a":[1,2.5,"x",null,true],"b":{"c":"d"}}"#;
    let out = ApiInner::modified(UPSTREAM, PUBLIC, body).unwrap();
    assert_eq!(
        serde_json::from_slice::<Value>(&out).unwrap(),
        serde_json::from_slice::<Value>(body).unwrap()
    );
}

#[test]
fn modified_prints_compactly() {
    let body = b" { \"a\" : [ 1 , \"x\" ] } ";
    assert_eq!(ApiInner::modified("x", "y", body).unwrap(), br#"{"a":[1,"y"]}"#.to_vec());
}

#[test]
fn modified_fails_on_malformed_document() {
    assert_eq!(
        ApiInner::modified(UPSTREAM, PUBLIC, b"{\"name\":"),
        Err(FetchError::UpstreamParse)
    );
    assert_eq!(ApiInner::modified(UPSTREAM, PUBLIC, b""), Err(FetchError::UpstreamParse));
    assert_eq!(
        ApiInner::modified(UPSTREAM, PUBLIC, b"<html></html>"),
        Err(FetchError::UpstreamParse)
    );
    assert_eq!(
        ApiInner::modified(UPSTREAM, PUBLIC, &[0xff, 0xfe]),
        Err(FetchError::UpstreamParse)
    );
}

#[test]
fn modified_handles_escapes_in_strings() {
    let body = br#"["https:\/\/registry.npmjs.org\/a\n\"q\""]"#;
    let out = ApiInner::modified(UPSTREAM, PUBLIC, body).unwrap();
    assert_eq!(
        serde_json::from_slice::<Value>(&out).unwrap(),
        Value::Array(vec![Value::String("http://localhost:5000/a\n\"q\"".to_string())])
    );
}
