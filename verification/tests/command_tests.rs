use gtmcli::destinations::{
    destination_request, ContainerFlags, DestGetArgs, DestLinkArgs, DestListArgs, DestinationRequest,
    DestinationsAction,
};
use gtmcli::doctor::{all_checks_ok, config_has_default_account, doctor_checks, doctor_output, DoctorFacts};
use gtmcli::error::GtmError;
use gtmcli::json::JsonValue;
use gtmcli::output::OutputFormat;
use gtmcli::variables::{
    collection_path, confirm_deletion, filter_resources, resource_path, revert_path, resolve_params, template_parameter, variable_create_body,
    variable_parameter, variable_type_or_default, variable_update_body, workspace_path, ParamsFile,
    WorkspaceFlags,
};
use gtmcli::zones::{zone_create_body, zone_update_body, ZonesCreateArgs, ZonesUpdateArgs};

fn parse(text: &str) -> JsonValue {
    JsonValue::parse(text).expect("valid JSON")
}

fn ws() -> WorkspaceFlags {
    WorkspaceFlags { account_id: "1".into(), container_id: "2".into(), workspace_id: None }
}

fn container() -> ContainerFlags {
    ContainerFlags { account_id: "6".into(), container_id: "7".into() }
}

#[test]
fn workspace_paths() {
    assert_eq!(workspace_path("123", "456", "3"), "accounts/123/containers/456/workspaces/3");
    assert_eq!(collection_path("w", "variables"), "w/variables");
    assert_eq!(resource_path("w", "zones", "4"), "w/zones/4");
    assert_eq!(revert_path("w", "variables", "9"), "w/variables/9:revert");
}

#[test]
fn delete_needs_force_warning() {
    assert_eq!(
        confirm_deletion(false, "zone", "5"),
        Some(vec![
            "WARNING: This will permanently delete zone '5'.".to_string(),
            "Run the same command with --force to confirm.".to_string(),
        ])
    );
    assert_eq!(confirm_deletion(true, "zone", "5"), None);
}

#[test]
fn params_inline_and_file() {
    assert!(matches!(resolve_params(&None, &None), Ok(None)));
    let v = resolve_params(&Some(r#"{"a": 1}"#.into()), &None).unwrap().unwrap();
    assert_eq!(v.to_compact_string(), r#"{"a":1}"#);
    match resolve_params(&Some("{bad".into()), &None) {
        Err(GtmError::InvalidParams(m)) => assert_eq!(m, "{bad"),
        _ => panic!("expected InvalidParams"),
    }
    let file = ParamsFile { path: "p.json".into(), content: Ok(r#"[1]"#.into()) };
    let v = resolve_params(&Some("{bad".into()), &Some(file)).unwrap().unwrap();
    assert_eq!(v.to_compact_string(), "[1]");
    let file = ParamsFile { path: "p.json".into(), content: Ok("nope".into()) };
    match resolve_params(&None, &Some(file)) {
        Err(GtmError::InvalidParams(m)) => assert_eq!(m, "Invalid JSON in p.json"),
        _ => panic!("expected InvalidParams"),
    }
    let file = ParamsFile { path: "q.json".into(), content: Err("No such file or directory (os error 2)".into()) };
    match resolve_params(&None, &Some(file)) {
        Err(GtmError::InvalidParams(m)) => {
            assert_eq!(m, "Cannot read q.json: No such file or directory (os error 2)")
        }
        _ => panic!("expected InvalidParams"),
    }
}

#[test]
fn template_parameter_shape() {
    assert_eq!(
        template_parameter("value", "test-value").to_compact_string(),
        r#"[{"key":"value","type":"template","value":"test-value"}]"#
    );
}

#[test]
fn filter_by_name_and_type() {
    let list = r#"{"variable": [
        {"name": "Page URL", "type": "u"},
        {"name": "page path", "type": "U"},
        {"name": "Click ID", "type": "v"},
        {"type": "u"}
    ], "nextPageToken": "t"}"#;
    let mut v = parse(list);
    filter_resources(&mut v, "variable", Some("PAGE"), None);
    assert_eq!(v.get("variable").unwrap().as_array().unwrap().len(), 2);
    let mut v = parse(list);
    filter_resources(&mut v, "variable", None, Some("u"));
    assert_eq!(v.get("variable").unwrap().as_array().unwrap().len(), 2);
    let mut v = parse(list);
    filter_resources(&mut v, "variable", Some("page"), Some("u"));
    assert_eq!(
        v.to_compact_string(),
        r#"{"nextPageToken":"t","variable":[{"name":"Page URL","type":"u"}]}"#
    );
    let mut v = parse(r#"{"variable": [{"name": "A", "type": "v"}, {"name": "B", "type": "V"}, {"name": "C", "type": "c"}]}"#);
    filter_resources(&mut v, "variable", None, Some("v"));
    assert_eq!(v.to_compact_string(), r#"{"variable":[{"name":"A","type":"v"}]}"#);
    let mut v = parse(list);
    filter_resources(&mut v, "variable", None, None);
    assert_eq!(v.to_compact_string(), parse(list).to_compact_string());
    let mut v = parse(r#"{"variable": "not a list"}"#);
    filter_resources(&mut v, "variable", Some("x"), None);
    assert_eq!(v.to_compact_string(), r#"{"variable":"not a list"}"#);
}

#[test]
fn zone_bodies() {
    let args = ZonesCreateArgs {
        ws: ws(),
        name: "Z".into(),
        child_container: Some(r#"[{"publicId":"GTM-X","nickname":"Child"}]"#.into()),
        boundary: None,
    };
    let body = zone_create_body(&args).unwrap();
    assert_eq!(
        body.to_compact_string(),
        r#"{"childContainer":[{"nickname":"Child","publicId":"GTM-X"}],"name":"Z"}"#
    );
    let bad = ZonesCreateArgs { ws: ws(), name: "Z".into(), child_container: None, boundary: Some("{oops".into()) };
    match zone_create_body(&bad) {
        Err(GtmError::InvalidParams(m)) => assert_eq!(m, "{oops"),
        _ => panic!("expected InvalidParams"),
    }
    let update = ZonesUpdateArgs {
        ws: ws(),
        zone_id: "4".into(),
        name: Some("New".into()),
        child_container: None,
        boundary: Some(r#"{"condition": []}"#.into()),
    };
    let body = zone_update_body(parse(r#"{"zoneId": "4", "name": "Old"}"#), &update).unwrap();
    assert_eq!(body.to_compact_string(), r#"{"boundary":{"condition":[]},"name":"New","zoneId":"4"}"#);
}

#[test]
fn destination_requests() {
    match destination_request(&DestinationsAction::List(DestListArgs { c: container() })) {
        DestinationRequest::Get { path, resource } => {
            assert_eq!(path, "accounts/6/containers/7/destinations");
            assert_eq!(resource, "destinations");
        }
        _ => panic!("expected a read"),
    }
    let get = DestinationsAction::Get(DestGetArgs { c: container(), destination_id: "AW-1".into() });
    match destination_request(&get) {
        DestinationRequest::Get { path, resource } => {
            assert_eq!(path, "accounts/6/containers/7/destinations/AW-1");
            assert_eq!(resource, "destination");
        }
        _ => panic!("expected a read"),
    }
    let link = DestinationsAction::Link(DestLinkArgs { c: container(), destination_id: "AW-2".into() });
    match destination_request(&link) {
        DestinationRequest::Link { path, destination_id } => {
            assert_eq!(path, "accounts/6/containers/7/destinations:link");
            assert_eq!(destination_id, "AW-2");
        }
        _ => panic!("expected a link"),
    }
}

fn facts(creds: bool, token: bool, config: Option<&str>, env: bool) -> DoctorFacts {
    DoctorFacts {
        credentials_path: "/c.json".into(),
        credentials_found: creds,
        token_found: token,
        config_text: config.map(|s| s.to_string()),
        env_account_set: env,
        version: "0.3.1".into(),
    }
}

#[test]
fn config_defaults_detection() {
    assert!(config_has_default_account(&Some(r#"{"defaultAccountId": "1"}"#.into())));
    assert!(!config_has_default_account(&Some(r#"{"defaultContainerId": "1"}"#.into())));
    assert!(!config_has_default_account(&Some("".into())));
    assert!(!config_has_default_account(&None));
}

#[test]
fn doctor_all_good() {
    let checks = doctor_checks(&facts(true, true, Some(r#"{"defaultAccountId": "1"}"#), false));
    assert!(all_checks_ok(&checks));
    assert_eq!(checks[0].message, "Found at /c.json");
    assert_eq!(checks[2].message, "Set via config file");
    assert_eq!(checks[3].message, "v0.3.1");
    let lines = doctor_output(&checks, OutputFormat::Table);
    assert_eq!(lines[0], "  ✓ credentials: Found at /c.json");
    assert_eq!(lines[4], "");
    assert_eq!(lines[5], "All checks passed.");
}

#[test]
fn doctor_problems() {
    let checks = doctor_checks(&facts(false, false, None, false));
    assert!(!all_checks_ok(&checks));
    let lines = doctor_output(&checks, OutputFormat::Compact);
    assert_eq!(
        lines,
        vec![
            "  ✗ credentials: Not found at /c.json. Download from Google Cloud Console.".to_string(),
            "  ✗ auth_token: Not authenticated. Run `gtm auth login`.".to_string(),
            "  ! defaults: No defaults configured. Run `gtm config setup` or set GTM_ACCOUNT_ID env var.".to_string(),
            "  ✓ version: v0.3.1".to_string(),
            "".to_string(),
            "Some checks need attention.".to_string(),
        ]
    );
    let env = doctor_checks(&facts(false, false, None, true));
    assert_eq!(env[2].message, "Set via environment variables");
    let json = doctor_output(&checks, OutputFormat::Json);
    let v = JsonValue::parse(&json[0]).unwrap();
    assert_eq!(v.get("healthy").unwrap().to_compact_string(), "false");
    assert_eq!(v.get("checks").unwrap().as_array().unwrap().len(), 4);
    assert_eq!(
        v.get("checks").unwrap().as_array().unwrap()[1].to_compact_string(),
        r#"{"check":"auth_token","message":"Not authenticated. Run `gtm auth login`.","status":"missing"}"#
    );
}

#[test]
fn variable_parameter_prefers_params() {
    let p = variable_parameter(Some(parse(r#"[{"key":"k"}]"#)), Some("v"), "value");
    assert_eq!(p.unwrap().to_compact_string(), r#"[{"key":"k"}]"#);
    let p = variable_parameter(None, Some("v"), "value");
    assert_eq!(p.unwrap().to_compact_string(), r#"[{"key":"value","type":"template","value":"v"}]"#);
    assert!(variable_parameter(None, None, "value").is_none());
}

#[test]
fn variable_create_bodies() {
    let body = variable_create_body("Test Variable", "c", variable_parameter(None, Some("test-value"), "value"));
    assert_eq!(
        body.to_compact_string(),
        r#"{"name":"Test Variable","parameter":[{"key":"value","type":"template","value":"test-value"}],"type":"c"}"#
    );
    assert_eq!(variable_create_body("V", "jsm", None).to_compact_string(), r#"{"name":"V","type":"jsm"}"#);
}

#[test]
fn variable_update_bodies() {
    let fetched = parse(r#"{"variableId": "3", "name": "Old", "type": "v"}"#);
    assert_eq!(variable_type_or_default(&fetched), "v");
    assert_eq!(variable_type_or_default(&parse(r#"{"name": "x"}"#)), "c");
    assert_eq!(variable_type_or_default(&parse("[]")), "c");
    let body = variable_update_body(fetched, Some("New"), Some(template_parameter("name", "dl")));
    assert_eq!(
        body.to_compact_string(),
        r#"{"name":"New","parameter":[{"key":"name","type":"template","value":"dl"}],"type":"v","variableId":"3"}"#
    );
    let unchanged = variable_update_body(parse("[1]"), None, None);
    assert_eq!(unchanged.to_compact_string(), "[1]");
}

#[test]
fn zone_update_of_a_non_object_without_changes() {
    let update = ZonesUpdateArgs { ws: ws(), zone_id: "4".into(), name: None, child_container: Some("{bad".into()), boundary: None };
    match zone_update_body(parse("[1]"), &update) {
        Err(GtmError::InvalidParams(m)) => assert_eq!(m, "{bad"),
        _ => panic!("expected InvalidParams"),
    }
    let update = ZonesUpdateArgs { ws: ws(), zone_id: "4".into(), name: None, child_container: None, boundary: None };
    assert_eq!(zone_update_body(parse("[1]"), &update).unwrap().to_compact_string(), "[1]");
}
