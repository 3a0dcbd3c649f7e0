use gtmcli::explain::{
    build_reverse_map, explain, extract_conditions, extract_key_params, id_array, resolve_trigger,
    str_field, ExplainArgs,
};
use gtmcli::explain_report::{explain_output, explanation_lines, triggers_section_lines};
use gtmcli::json::JsonValue;
use gtmcli::output::OutputFormat;
use gtmcli::refs::extract_variable_refs;

fn parse(text: &str) -> JsonValue {
    JsonValue::parse(text).expect("valid JSON")
}

fn args(reverse: bool) -> ExplainArgs {
    ExplainArgs {
        tag_id: "10".into(),
        reverse,
        account_id: "1".into(),
        container_id: "2".into(),
        workspace_id: None,
    }
}

#[test]
fn variable_refs_in_order_without_duplicates() {
    let refs = extract_variable_refs("{{Page URL}} and {{Click ID}} and {{Page URL}}");
    assert_eq!(refs, vec!["Page URL".to_string(), "Click ID".to_string()]);
}

#[test]
fn variable_refs_skip_builtin_and_empty_names() {
    assert_eq!(extract_variable_refs("{{_event}} {{}} {{x}}"), vec!["x".to_string()]);
    assert!(extract_variable_refs("{{unterminated").is_empty());
    assert!(extract_variable_refs("{{").is_empty());
    assert!(extract_variable_refs("").is_empty());
    assert_eq!(extract_variable_refs("{{{a}}}"), vec!["{a".to_string()]);
    assert_eq!(extract_variable_refs("é{{ü}}"), vec!["ü".to_string()]);
}

#[test]
fn fields_and_id_arrays() {
    let tag = parse(r#"{"name": "T", "firingTriggerId": ["1", 2, "3"], "n": 1}"#);
    assert_eq!(str_field(&tag, "name"), "T");
    assert_eq!(str_field(&tag, "n"), "-");
    assert_eq!(str_field(&tag, "missing"), "-");
    assert_eq!(id_array(&tag, "firingTriggerId"), vec!["1".to_string(), "3".to_string()]);
    assert!(id_array(&tag, "name").is_empty());
}

#[test]
fn conditions_from_all_filter_fields() {
    let trigger = parse(
        r#"{
        "filter": [{"type": "contains", "parameter": [
            {"key": "arg0", "value": "{{Page URL}}"}, {"key": "arg1", "value": "/checkout"}]}],
        "customEventFilter": [{"parameter": [
            {"key": "arg0", "value": "{{_event}}"}, {"key": "arg1", "value": "purchase"}]}],
        "autoEventFilter": [{"type": "equals", "parameter": [{"key": "arg1", "value": "x"}]}]
    }"#,
    );
    let cs = extract_conditions(&trigger);
    assert_eq!(cs.len(), 2);
    assert_eq!((cs[0].variable.as_str(), cs[0].operator.as_str(), cs[0].value.as_str()), ("{{_event}}", "equals", "purchase"));
    assert_eq!((cs[1].variable.as_str(), cs[1].operator.as_str(), cs[1].value.as_str()), ("{{Page URL}}", "contains", "/checkout"));
}

#[test]
fn key_params_preview_html() {
    let long = "a".repeat(100);
    let tag = parse(&format!(
        r#"{{"parameter": [{{"key": "html", "value": "{long}"}}, {{"value": "no key"}}, {{"key": "k", "value": "v"}}, {{"key": "html", "value": "<b>"}}]}}"#
    ));
    let ps = extract_key_params(&tag);
    assert_eq!(ps.len(), 3);
    assert_eq!(ps[0], ("html".to_string(), format!("{}... (100 chars)", "a".repeat(80))));
    assert_eq!(ps[1], ("k".to_string(), "v".to_string()));
    assert_eq!(ps[2], ("html".to_string(), "<b>".to_string()));
}

#[test]
fn reverse_map_excludes_current_tag() {
    let tags = parse(
        r#"{"tag": [
        {"tagId": "10", "name": "Me", "type": "html", "firingTriggerId": ["1"]},
        {"tagId": "11", "name": "Other", "type": "gaawe", "firingTriggerId": ["1"], "blockingTriggerId": ["2", "1"]}
    ]}"#,
    );
    let index = build_reverse_map(&tags, "10");
    let shared = index.shared_with("1");
    assert_eq!(shared.len(), 2);
    assert_eq!(shared[0].id, "11");
    assert_eq!(shared[1].name, "Other");
    assert_eq!(index.shared_with("2").len(), 1);
    assert!(index.shared_with("3").is_empty());
}

#[test]
fn unknown_trigger_is_reported() {
    let triggers = vec![parse(r#"{"triggerId": "1", "name": "All Pages", "type": "pageview"}"#)];
    let index = build_reverse_map(&parse("{}"), "x");
    let t = resolve_trigger("9", &triggers, &index);
    assert_eq!((t.name.as_str(), t.trigger_type.as_str()), ("(unknown)", "-"));
    let t = resolve_trigger("1", &triggers, &index);
    assert_eq!((t.name.as_str(), t.trigger_type.as_str()), ("All Pages", "pageview"));
}

fn sample() -> (JsonValue, JsonValue, JsonValue, JsonValue) {
    let tag = parse(
        r#"{"tagId": "10", "name": "GA4 Event", "type": "gaawe",
        "firingTriggerId": ["1"], "blockingTriggerId": ["2"],
        "parameter": [{"key": "eventName", "value": "{{Event Name}}"}, {"key": "x", "value": "{{_event}} {{Page URL}}"}]}"#,
    );
    let triggers = parse(
        r#"{"trigger": [
        {"triggerId": "1", "name": "Click", "type": "click",
         "filter": [{"type": "contains", "parameter": [{"key": "arg0", "value": "{{Click Text}}"}, {"key": "arg1", "value": "Buy"}]}]},
        {"triggerId": "2", "name": "Old name", "type": "x"},
        {"triggerId": "2", "name": "Internal", "type": "pageview"}
    ]}"#,
    );
    let variables = parse(r#"{"variable": [{"name": "Event Name", "type": "v", "variableId": "44"}]}"#);
    let tags = parse(
        r#"{"tag": [{"tagId": "10", "name": "GA4 Event", "firingTriggerId": ["1"]},
                  {"tagId": "12", "name": "Pixel", "type": "html", "firingTriggerId": ["1"]}]}"#,
    );
    (tag, triggers, variables, tags)
}

#[test]
fn explain_tag_with_reverse() {
    let (tag, triggers, variables, tags) = sample();
    let e = explain(&args(true), &tag, &triggers, &variables, &tags);
    assert_eq!((e.tag_id.as_str(), e.tag_name.as_str(), e.tag_type.as_str()), ("10", "GA4 Event", "gaawe"));
    assert_eq!(e.firing.len(), 1);
    assert_eq!(e.firing[0].name, "Click");
    assert_eq!(e.firing[0].conditions.len(), 1);
    assert_eq!(e.firing[0].shared_by.len(), 1);
    assert_eq!(e.firing[0].shared_by[0].id, "12");
    assert_eq!(e.blocking[0].name, "Internal");
    let names: Vec<&str> = e.variables.iter().map(|v| v.name.as_str()).collect();
    assert_eq!(names, vec!["Event Name", "Page URL"]);
    assert_eq!((e.variables[0].var_type.as_str(), e.variables[0].id.as_str()), ("v", "44"));
    assert_eq!((e.variables[1].var_type.as_str(), e.variables[1].id.as_str()), ("built-in", "-"));
}

#[test]
fn explain_without_reverse_lists_no_sharing() {
    let (tag, triggers, variables, tags) = sample();
    let e = explain(&args(false), &tag, &triggers, &variables, &tags);
    assert!(e.firing.iter().all(|t| t.shared_by.is_empty()));
}

#[test]
fn explain_table_output() {
    let (tag, triggers, variables, tags) = sample();
    let e = explain(&args(true), &tag, &triggers, &variables, &tags);
    let lines = explanation_lines(&e);
    let expected: Vec<String> = [
        "Tag: GA4 Event (id: 10, type: gaawe)",
        "\nParameters:",
        "  eventName: {{Event Name}}",
        "  x: {{_event}} {{Page URL}}",
        "\nFiring Triggers:",
        "  [1] Click (click)",
        "        Condition: {{Click Text}} contains Buy",
        "        Also used by:",
        "          [12] Pixel (html)",
        "\nBlocking Triggers:",
        "  [2] Internal (pageview)",
        "\nReferenced Variables:",
        "  {{Event Name}} (id: 44, type: v)",
        "  {{Page URL}} (built-in)",
    ]
    .iter()
    .map(|s| s.to_string())
    .collect();
    assert_eq!(lines, expected);
    assert_eq!(explain_output(&e, OutputFormat::Table), expected);
}

#[test]
fn empty_sections_say_none() {
    let lines = triggers_section_lines("Firing Triggers", &Vec::new());
    assert_eq!(lines, vec!["\nFiring Triggers:".to_string(), "  (none)".to_string()]);
    let tag = parse(r#"{"tagId": "1", "name": "N", "type": "html"}"#);
    let e = explain(&args(false), &tag, &parse("{}"), &parse("{}"), &parse("{}"));
    let lines = explanation_lines(&e);
    assert_eq!(
        lines,
        vec![
            "Tag: N (id: 1, type: html)".to_string(),
            "\nFiring Triggers:".to_string(),
            "  (none)".to_string(),
            "\nReferenced Variables:".to_string(),
            "  (none)".to_string(),
        ]
    );
}

#[test]
fn explain_json_output() {
    let (tag, triggers, variables, tags) = sample();
    let e = explain(&args(true), &tag, &triggers, &variables, &tags);
    let out = explain_output(&e, OutputFormat::Json);
    assert_eq!(out.len(), 1);
    let v = JsonValue::parse(&out[0]).unwrap();
    let firing = v.get("firingTriggers").unwrap().as_array().unwrap();
    assert_eq!(firing[0].get("sharedBy").unwrap().as_array().unwrap().len(), 1);
    let blocking = v.get("blockingTriggers").unwrap().as_array().unwrap();
    assert!(blocking[0].get("sharedBy").is_none());
    assert_eq!(
        v.get("parameters").unwrap().to_compact_string(),
        r#"[["eventName","{{Event Name}}"],["x","{{_event}} {{Page URL}}"]]"#
    );
    assert_eq!(
        v.get("tag").unwrap().to_compact_string(),
        r#"{"id":"10","name":"GA4 Event","type":"gaawe"}"#
    );
}

#[test]
fn appending_text_keeps_earlier_refs() {
    let t = "{{A}} then {{B";
    let s = "}} and {{A}} {{C}}";
    let before = extract_variable_refs(t);
    let after = extract_variable_refs(&(t.to_string() + s));
    assert_eq!(before, vec!["A".to_string()]);
    assert_eq!(after, vec!["A".to_string(), "B".to_string(), "C".to_string()]);
    assert_eq!(&after[..before.len()], &before[..]);
}
