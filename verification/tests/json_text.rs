use ident_remover::json::Json;

fn model(v: &serde_json::Value) -> Json {
    match v {
        serde_json::Value::Null => Json::Null,
        serde_json::Value::Bool(b) => Json::Bool(*b),
        serde_json::Value::Number(n) => Json::Number(n.to_string()),
        serde_json::Value::String(s) => Json::Str(s.clone()),
        serde_json::Value::Array(a) => Json::Array(a.iter().map(model).collect()),
        serde_json::Value::Object(m) => Json::Object(m.iter().map(|(k, v)| (k.clone(), model(v))).collect()),
    }
}

fn same_as_serde_json(text: &str) {
    let v: serde_json::Value = serde_json::from_str(text).unwrap();
    assert_eq!(model(&v).to_text(), v.to_string());
}

#[test]
fn literals_are_written_as_in_json() {
    assert_eq!(Json::Null.to_text(), "null");
    assert_eq!(Json::Bool(true).to_text(), "true");
    assert_eq!(Json::Bool(false).to_text(), "false");
    assert_eq!(Json::Number("-12.5e3".to_string()).to_text(), "-12.5e3");
}

#[test]
fn strings_are_quoted_and_escaped() {
    assert_eq!(Json::Str("Inactive".to_string()).to_text(), "\"Inactive\"");
    assert_eq!(Json::Str("a\"b\\c".to_string()).to_text(), "\"a\\\"b\\\\c\"");
    assert_eq!(Json::Str("\u{8}\t\n\u{c}\r".to_string()).to_text(), "\"\\b\\t\\n\\f\\r\"");
    assert_eq!(Json::Str("\u{1}\u{1f}\u{7f}/é".to_string()).to_text(), "\"\\u0001\\u001f\u{7f}/é\"");
}

#[test]
fn arrays_and_objects_are_written_compactly() {
    let v = Json::Object(vec![
        ("a".to_string(), Json::Array(vec![Json::Null, Json::Bool(true), Json::Array(vec![])])),
        ("b\"".to_string(), Json::Object(vec![])),
        ("c".to_string(), Json::Number("1".to_string())),
    ]);
    assert_eq!(v.to_text(), "{\"a\":[null,true,[]],\"b\\\"\":{},\"c\":1}");
    assert_eq!(Json::Array(vec![]).to_text(), "[]");
    assert_eq!(Json::Object(vec![]).to_text(), "{}");
}

#[test]
fn text_matches_serde_json() {
    same_as_serde_json("null");
    same_as_serde_json("[1, 2.5, -3e10, 1e-7, 18446744073709551615, -9223372036854775808]");
    same_as_serde_json(r#"{"z": 1, "a": {"y": [true, false, null], "x": "\u0000\u001b\"\\/"}, "m": "ünï €"}"#);
    same_as_serde_json(r#"{"status": {"Inactive": "x"}, "list": [[[]], {}, ""]}"#);
}

#[test]
fn get_finds_the_first_member_of_a_name() {
    let v = Json::Object(vec![
        ("status".to_string(), Json::Str("Active".to_string())),
        ("status".to_string(), Json::Str("Inactive".to_string())),
        ("eTag".to_string(), Json::Number("2".to_string())),
    ]);
    assert_eq!(v.get("status").and_then(|s| s.as_str()), Some("Active"));
    assert_eq!(v.get("eTag").and_then(|s| s.as_str()), None);
    assert!(v.get("eTag").is_some());
    assert!(v.get("Status").is_none());
    assert!(Json::Array(vec![]).get("status").is_none());
    assert!(Json::Str("status".to_string()).get("status").is_none());
}

#[test]
fn take_field_hands_out_the_member() {
    let v = Json::Object(vec![
        ("a".to_string(), Json::Number("1".to_string())),
        ("b".to_string(), Json::Str("two".to_string())),
    ]);
    let b = v.take_field("b").unwrap();
    assert_eq!(b.as_str(), Some("two"));
    assert!(Json::Null.take_field("b").is_none());
}
