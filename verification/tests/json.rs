use luvus_jira::json::{from_value, parse, Entry, Json};

fn entry(key: &str, value: Json) -> Entry {
    Entry { key: key.to_owned(), value }
}

fn text(s: &str) -> Json {
    Json::Text(s.to_owned())
}

#[test]
fn a_document_is_read() {
    let value = parse(r#" {"b": [1, null, true, "x"], "a": {"c": "é"}} "#.as_bytes()).unwrap();
    let expected = Json::Object(vec![
        entry("a", Json::Object(vec![entry("c", text("é"))])),
        entry("b", Json::Array(vec![Json::Scalar, Json::Scalar, Json::Scalar, text("x")])),
    ]);
    assert_eq!(value, expected);
    assert_eq!(value.clone(), expected);
}

#[test]
fn of_equal_keys_the_last_one_counts() {
    let value = parse(br#"{"a": "first", "a": "last"}"#).unwrap();
    assert_eq!(value, Json::Object(vec![entry("a", text("last"))]));
}

#[test]
fn what_is_wrong_with_a_document_is_said() {
    assert_eq!(parse(b"").unwrap_err(), "EOF while parsing a value at line 1 column 0");
    for bytes in [&b""[..], b"{", b"[1,]", b"nul", b"\"\xff\"", b"{} {}"] {
        let expected = serde_json::from_slice::<serde_json::Value>(bytes).unwrap_err().to_string();
        assert_eq!(parse(bytes).unwrap_err(), expected);
    }
}

#[test]
fn a_value_is_taken_over() {
    let value = serde_json::Value::Array(vec![
        serde_json::Value::String("x".to_owned()),
        serde_json::Value::from(3),
        serde_json::Value::Null,
    ]);
    assert_eq!(from_value(value), Json::Array(vec![text("x"), Json::Scalar, Json::Scalar]));
}

#[test]
fn entries_are_found_by_key() {
    let value = Json::Object(vec![entry("a", text("1")), entry("b", text("2"))]);
    assert_eq!(value.get("b"), Some(&text("2")));
    assert_eq!(value.get("c"), None);
    assert_eq!(Json::Scalar.get("a"), None);
    assert_eq!(Json::Array(vec![text("a")]).get("a"), None);
}

#[test]
fn values_are_read_by_what_they_are() {
    assert_eq!(text("x").as_str(), Some(&"x".to_owned()));
    assert_eq!(Json::Scalar.as_str(), None);
    assert_eq!(Json::Array(vec![Json::Scalar]).as_array(), Some(&vec![Json::Scalar]));
    assert_eq!(text("x").as_array(), None);
}
