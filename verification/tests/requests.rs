//! The requests that an operation makes.

use apollo_mcp_server::json::Object;
use apollo_mcp_server::notice::NoticeLevel;
use apollo_mcp_server::operation::headers::HEADER_LIMIT;
use apollo_mcp_server::operation::{Operation, PrivateFieldTree, RawOperation};
use apollo_mcp_server::tool::Tool;
use http::{HeaderMap, HeaderName, HeaderValue};
use serde_json::Value;

fn parse(text: &str) -> Value {
    serde_json::from_str(text).expect("the text is JSON")
}

fn object(text: &str) -> Object {
    serde_json::from_str(text).expect("the text is a JSON object")
}

fn operation(variables: Option<Object>, headers: Option<HeaderMap>) -> Operation {
    Operation {
        tool: Tool {
            name: "Q".to_string(),
            description: None,
            input_schema: Object::new(),
            output_schema: None,
            annotations: None,
        },
        inner: RawOperation {
            source_text: "query Q { id @private }".to_string(),
            headers,
            variables,
            source_path: None,
        },
        operation_name: "Q".to_string(),
        stripped_source_text: None,
        private_fields: None,
    }
}

fn headers(list: &[(&'static str, &'static str)]) -> HeaderMap {
    let mut map = HeaderMap::new();
    for (name, value) in list {
        map.append(
            HeaderName::from_static(name),
            HeaderValue::from_static(value),
        );
    }
    map
}

#[test]
fn variables_are_passed_on_where_the_operation_has_none() {
    let operation = operation(None, None);
    for input in ["null", "1", r#"{"a": [1, null]}"#] {
        assert_eq!(operation.variables(parse(input)).unwrap(), parse(input));
    }
}

#[test]
fn variables_of_the_operation_are_added() {
    let operation = operation(Some(object(r#"{"id": "v", "n": {"deep": [1]}}"#)), None);
    assert_eq!(
        operation.variables(parse(r#"{"name": "x"}"#)).unwrap(),
        parse(r#"{"name": "x", "id": "v", "n": {"deep": [1]}}"#)
    );
    assert_eq!(
        operation.variables(Value::Null).unwrap(),
        parse(r#"{"id": "v", "n": {"deep": [1]}}"#)
    );
}

#[test]
fn variables_of_the_operation_may_not_be_given() {
    let operation = operation(Some(object(r#"{"id": "v"}"#)), None);
    let error = operation
        .variables(parse(r#"{"name": "x", "id": "w"}"#))
        .unwrap_err();
    assert_eq!(
        error.0,
        "Parameter 'id' conflicts with operation-defined variable"
    );
}

#[test]
fn variables_stand_in_order_and_the_first_conflict_is_told() {
    let operation = operation(Some(object(r#"{"z": 1, "b": 2}"#)), None);
    let sent = operation.variables(parse(r#"{"y": 3, "a": 4}"#)).unwrap();
    assert_eq!(sent.to_string(), r#"{"y":3,"a":4,"z":1,"b":2}"#);
    let error = operation
        .variables(parse(r#"{"b": 3, "z": 4}"#))
        .unwrap_err();
    assert_eq!(
        error.0,
        "Parameter 'z' conflicts with operation-defined variable"
    );
}

#[test]
fn variables_are_an_object_or_null() {
    let operation = operation(Some(Object::new()), None);
    for input in ["1", "\"a\"", "[]", "true"] {
        let error = operation.variables(parse(input)).unwrap_err();
        assert_eq!(error.0, "Variables must be a JSON object or null");
    }
    assert_eq!(operation.variables(Value::Null).unwrap(), parse("{}"));
}

#[test]
fn operation_headers_win_over_default_headers() {
    let operation = operation(
        None,
        Some(headers(&[("x-own", "1"), ("x-both", "2"), ("x-both", "3")])),
    );
    let merged = operation
        .headers(&headers(&[
            ("x-both", "default"),
            ("x-default", "a"),
            ("x-default", "b"),
        ]))
        .unwrap();
    let expected = headers(&[
        ("x-own", "1"),
        ("x-both", "3"),
        ("x-default", "a"),
        ("x-default", "b"),
    ]);
    assert_eq!(merged, expected);
}

#[test]
fn overwritten_headers_are_told_of() {
    let operation = operation(
        None,
        Some(headers(&[
            ("x-own", "1"),
            ("x-both", "2"),
            ("x-both", "3"),
            ("x-many", "4"),
            ("x-many", "5"),
        ])),
    );
    let notices = operation.header_notices(&headers(&[("x-both", "default"), ("x-default", "a")]));
    assert!(notices.iter().all(|notice| notice.level == NoticeLevel::Debug));
    let mut texts: Vec<&str> = notices.iter().map(|notice| notice.text.as_str()).collect();
    texts.sort();
    // Both values of the header with a default, and the second of the one without.
    assert_eq!(
        texts,
        vec![
            "Header x-both has a default value, overwriting with operation value",
            "Header x-both has a default value, overwriting with operation value",
            "Header x-many has a default value, overwriting with operation value",
        ]
    );
    assert!(operation.header_notices(&HeaderMap::new()).is_empty());
}

#[test]
fn without_own_headers_nothing_is_overwritten() {
    let notices = operation(None, None).header_notices(&headers(&[("x-default", "a")]));
    assert!(notices.is_empty());
}

#[test]
fn headers_of_one_side_are_sent_as_they_are() {
    let own = headers(&[("x-own", "1"), ("x-own", "2")]);
    assert_eq!(
        operation(None, Some(own.clone()))
            .headers(&HeaderMap::new())
            .unwrap(),
        own
    );
    assert_eq!(operation(None, None).headers(&own).unwrap(), own);
    assert!(operation(None, Some(HeaderMap::new()))
        .headers(&HeaderMap::new())
        .unwrap()
        .is_empty());
}

#[test]
fn sensitive_headers_stay_sensitive() {
    let mut value = HeaderValue::from_static("key");
    value.set_sensitive(true);
    let mut own = HeaderMap::new();
    own.insert("authorization", value);
    let merged = operation(None, Some(own))
        .headers(&headers(&[("x-default", "a")]))
        .unwrap();
    assert!(merged["authorization"].is_sensitive());
    assert!(!merged["x-default"].is_sensitive());
}

fn many(prefix: &str, count: usize) -> HeaderMap {
    let mut map = HeaderMap::new();
    for i in 0..count {
        let name = HeaderName::from_bytes(format!("{prefix}-{i}").as_bytes()).unwrap();
        map.insert(name, HeaderValue::from_static("v"));
    }
    map
}

#[test]
fn very_many_headers_are_refused() {
    assert!(operation(None, Some(many("a", 20000)))
        .headers(&many("b", 20000))
        .is_err());
    let few = HEADER_LIMIT / 2;
    let merged = operation(None, Some(many("a", few)))
        .headers(&many("b", few))
        .unwrap();
    assert_eq!(merged.len(), 2 * few);
}

#[test]
fn the_document_that_is_sent_has_no_private_marks() {
    let mut operation = operation(None, None);
    let details = operation.operation(parse("{}")).unwrap();
    assert_eq!(details.query, "query Q { id @private }");
    assert_eq!(details.operation_name.as_deref(), Some("Q"));
    assert!(details.private_fields.is_none());

    operation.stripped_source_text = Some("query Q { id }".to_string());
    operation.private_fields = Some(PrivateFieldTree {
        paths: vec![vec!["a".to_string(), "id".to_string()]],
    });
    let details = operation.operation(Value::Null).unwrap();
    assert_eq!(details.query, "query Q { id }");
    assert_eq!(
        details.private_fields.unwrap().paths,
        vec![vec!["a".to_string(), "id".to_string()]]
    );
}

#[test]
fn copies_say_the_same() {
    let original = operation(Some(object(r#"{"id": 1}"#)), Some(headers(&[("x-own", "1")])));
    let copy = original.clone();
    assert_eq!(format!("{copy:?}"), format!("{original:?}"));
    let tool: &Tool = copy.as_ref();
    assert_eq!(tool.name, "Q");
    assert_eq!(Tool::from(copy).name, "Q");
}
