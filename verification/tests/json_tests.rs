use gtmcli::json::JsonValue;
use gtmcli::text::{contains, decimal_string, str_eq};

fn parse(text: &str) -> JsonValue {
    JsonValue::parse(text).expect("valid JSON")
}

#[test]
fn parse_and_write_compact() {
    let v = parse(r#"{"b": [1, 2.5, "x"], "a": null, "c": true}"#);
    // serde_json writes object members in key order
    assert_eq!(v.to_compact_string(), r#"{"a":null,"b":[1,2.5,"x"],"c":true}"#);
}

#[test]
fn parse_refuses_invalid_text() {
    assert!(JsonValue::parse("{not json").is_none());
    assert!(JsonValue::parse("").is_none());
}

#[test]
fn pretty_text_is_indented() {
    let v = parse(r#"{"status":"deleted"}"#);
    assert_eq!(v.to_pretty_string(), "{\n  \"status\": \"deleted\"\n}");
}

#[test]
fn get_reads_object_members_only() {
    let v = parse(r#"{"name": "Tag", "n": 3}"#);
    assert_eq!(v.get("name").and_then(|x| x.as_str()), Some("Tag"));
    assert!(v.get("n").unwrap().as_str().is_none());
    assert!(v.get("missing").is_none());
    let arr = parse(r#"["name"]"#);
    assert!(arr.get("name").is_none());
    assert!(arr.is_array());
    assert_eq!(arr.as_array().unwrap().len(), 1);
}

#[test]
fn set_member_replaces_or_adds() {
    let mut v = parse(r#"{"name": "old", "id": "7"}"#);
    v.set_member("name", JsonValue::string("new"));
    v.set_member("extra", parse("[1]"));
    assert_eq!(v.to_compact_string(), r#"{"extra":[1],"id":"7","name":"new"}"#);
    let mut n = JsonValue::Null;
    n.set_member("k", JsonValue::Bool(true));
    assert_eq!(n.to_compact_string(), r#"{"k":true}"#);
}

#[test]
fn deep_clone_is_equal_text() {
    let v = parse(r#"{"a": [{"b": [true, null, -4]}], "s": "é"}"#);
    assert_eq!(v.deep_clone().to_compact_string(), v.to_compact_string());
}

#[test]
fn decimal_strings() {
    assert_eq!(decimal_string(0), "0");
    assert_eq!(decimal_string(7), "7");
    assert_eq!(decimal_string(403), "403");
    assert_eq!(decimal_string(u64::MAX), "18446744073709551615");
}

#[test]
fn substring_search() {
    assert!(contains("insufficient scope granted", "scope"));
    assert!(contains("abc", ""));
    assert!(!contains("ab", "abc"));
    assert!(!contains("Scope", "scope"));
}

#[test]
fn exact_text_equality() {
    assert!(str_eq("ab", "ab"));
    assert!(!str_eq("ab", "aB"));
}
