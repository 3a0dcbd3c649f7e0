use gtmcli::json::JsonValue;
use gtmcli::output::{compact_line_for, compact_lines, deleted_notice, resource_output, unwrap_json, OutputFormat};

fn parse(text: &str) -> JsonValue {
    JsonValue::parse(text).expect("valid JSON")
}

#[test]
fn unwrap_list_response() {
    let v = parse(r#"{"tag": [{"tagId": "1"}], "nextPageToken": "abc"}"#);
    assert_eq!(unwrap_json(&v).to_compact_string(), r#"[{"tagId":"1"}]"#);
    let v = parse(r#"{"tag": []}"#);
    assert_eq!(unwrap_json(&v).to_compact_string(), "[]");
}

#[test]
fn unwrap_keeps_other_shapes() {
    for text in [
        r#"{"tagId": "1", "name": "x"}"#,
        r#"{"tag": [1], "variable": [2]}"#,
        r#"{"tag": [1], "name": "x"}"#,
        r#"{"nextPageToken": "t"}"#,
        r#"{}"#,
        r#"[1, 2]"#,
        r#""text""#,
    ] {
        let v = parse(text);
        assert_eq!(unwrap_json(&v).to_compact_string(), v.to_compact_string(), "{text}");
    }
}

#[test]
fn unwrap_twice_is_once() {
    let v = parse(r#"{"zone": [{"zoneId": "3"}]}"#);
    let once = unwrap_json(&v);
    assert_eq!(unwrap_json(&once).to_compact_string(), once.to_compact_string());
}

#[test]
fn compact_line_prefers_the_first_id_key() {
    let item = parse(r#"{"tagId": "9", "accountId": "1", "name": "Page View"}"#);
    assert_eq!(compact_line_for(&item), "1\tPage View");
    let item = parse(r#"{"gtagConfigId": "g", "accountId": 5}"#);
    assert_eq!(compact_line_for(&item), "g\t-");
    let item = parse(r#"{"other": "x"}"#);
    assert_eq!(compact_line_for(&item), "-\t-");
}

#[test]
fn compact_lines_of_lists_and_objects() {
    let arr = parse(r#"[{"tagId": "1", "name": "A"}, {"tagId": "2", "name": "B"}]"#);
    assert_eq!(compact_lines(&arr), vec!["1\tA".to_string(), "2\tB".to_string()]);
    let wrapped = parse(r#"{"nextPageToken": "x", "trigger": [{"triggerId": "5", "name": "T"}]}"#);
    assert_eq!(compact_lines(&wrapped), vec!["5\tT".to_string()]);
    let single = parse(r#"{"containerId": "77", "name": "Site"}"#);
    assert_eq!(compact_lines(&single), vec!["77\tSite".to_string()]);
    assert!(compact_lines(&parse("42")).is_empty());
}

#[test]
fn deleted_notice_text() {
    let n = deleted_notice("variable", "12");
    assert_eq!(n.to_compact_string(), r#"{"id":"12","resource":"variable","status":"deleted"}"#);
}

#[test]
fn resource_output_by_format() {
    let v = parse(r#"{"tag": [{"tagId": "1", "name": "A"}]}"#);
    let json = resource_output(&v, OutputFormat::Json).unwrap();
    assert_eq!(json, vec!["[\n  {\n    \"name\": \"A\",\n    \"tagId\": \"1\"\n  }\n]".to_string()]);
    assert_eq!(resource_output(&v, OutputFormat::Compact).unwrap(), vec!["1\tA".to_string()]);
    assert!(resource_output(&v, OutputFormat::Table).is_none());
}
