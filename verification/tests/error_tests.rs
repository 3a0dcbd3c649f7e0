use gtmcli::error::GtmError;

#[test]
fn exit_codes_follow_the_documented_table() {
    assert_eq!(GtmError::AuthRequired.exit_code(), 2);
    assert_eq!(GtmError::CredentialsNotFound { path: "p".into() }.exit_code(), 2);
    assert_eq!(GtmError::TokenRefreshFailed("x".into()).exit_code(), 2);
    assert_eq!(GtmError::ValidationFailed(3).exit_code(), 3);
    assert_eq!(GtmError::InvalidParams("x".into()).exit_code(), 4);
    assert_eq!(GtmError::Json("x".into()).exit_code(), 4);
    assert_eq!(GtmError::ApiError { status: 500, message: "m".into() }.exit_code(), 1);
    assert_eq!(GtmError::Http("x".into()).exit_code(), 1);
    assert_eq!(GtmError::Io("x".into()).exit_code(), 1);
}

#[test]
fn error_types() {
    assert_eq!(GtmError::AuthRequired.error_type(), "auth_required");
    assert_eq!(GtmError::CredentialsNotFound { path: "p".into() }.error_type(), "credentials_not_found");
    assert_eq!(GtmError::TokenRefreshFailed("x".into()).error_type(), "token_refresh_failed");
    assert_eq!(GtmError::ApiError { status: 1, message: "m".into() }.error_type(), "api_error");
    assert_eq!(GtmError::InvalidParams("x".into()).error_type(), "invalid_params");
    assert_eq!(GtmError::ValidationFailed(1).error_type(), "validation_failed");
    assert_eq!(GtmError::Http("x".into()).error_type(), "http_error");
    assert_eq!(GtmError::Io("x".into()).error_type(), "io_error");
    assert_eq!(GtmError::Json("x".into()).error_type(), "json_error");
}

#[test]
fn messages() {
    assert_eq!(
        GtmError::AuthRequired.message(),
        "Authentication required. Run `gtm auth login` to authenticate."
    );
    assert_eq!(
        GtmError::CredentialsNotFound { path: "/home/u/creds.json".into() }.message(),
        "Credentials file not found at /home/u/creds.json. Download OAuth 2.0 credentials from Google Cloud Console."
    );
    assert_eq!(
        GtmError::TokenRefreshFailed("boom".into()).message(),
        "Token expired and refresh failed: boom"
    );
    assert_eq!(
        GtmError::ApiError { status: 404, message: "Not found".into() }.message(),
        "API error 404: Not found"
    );
    assert_eq!(GtmError::InvalidParams("{x".into()).message(), "Invalid parameter JSON: {x");
    assert_eq!(GtmError::ValidationFailed(12).message(), "Validation failed: 12 error(s) found");
    assert_eq!(GtmError::Io("disk full".into()).message(), "disk full");
}

#[test]
fn hints_for_auth_and_forbidden() {
    assert_eq!(
        GtmError::AuthRequired.hints(),
        vec!["Hint: Run `gtm auth login` to authenticate.".to_string()]
    );
    assert_eq!(GtmError::TokenRefreshFailed("e".into()).hints().len(), 1);
    let scope = GtmError::ApiError { status: 403, message: "Request had insufficient authentication scopes.".into() };
    assert_eq!(
        scope.hints(),
        vec![
            "Hint: Insufficient OAuth scopes. Run `gtm auth login` to re-authenticate with required permissions.".to_string(),
            "      Publishing requires the tagmanager.publish scope.".to_string(),
        ]
    );
    let denied = GtmError::ApiError { status: 403, message: "The caller does not have permission".into() };
    assert_eq!(
        denied.hints(),
        vec![
            "Hint: Check that your account has the necessary GTM permissions.".to_string(),
            "      Use `gtm permissions list` to view current access.".to_string(),
        ]
    );
    assert!(GtmError::ApiError { status: 404, message: "scope".into() }.hints().is_empty());
    assert!(GtmError::InvalidParams("x".into()).hints().is_empty());
}

#[test]
fn structured_report_when_piped() {
    let lines = GtmError::AuthRequired.report_lines(false);
    assert_eq!(
        lines,
        vec![r#"{"error":{"code":2,"message":"Authentication required. Run `gtm auth login` to authenticate.","type":"auth_required"}}"#.to_string()]
    );
}

#[test]
fn human_report_on_terminal() {
    let lines = GtmError::AuthRequired.report_lines(true);
    assert_eq!(
        lines,
        vec![
            "Error: Authentication required. Run `gtm auth login` to authenticate.".to_string(),
            "Hint: Run `gtm auth login` to authenticate.".to_string(),
        ]
    );
    let lines = GtmError::ValidationFailed(2).report_lines(true);
    assert_eq!(lines, vec!["Error: Validation failed: 2 error(s) found".to_string()]);
}

#[test]
fn report_value_carries_code_and_type() {
    let report = GtmError::InvalidParams("bad".into()).report();
    let inner = report.get("error").unwrap();
    assert_eq!(inner.get("code").unwrap().to_compact_string(), "4");
    assert_eq!(inner.get("type").unwrap().as_str(), Some("invalid_params"));
    assert_eq!(inner.get("message").unwrap().as_str(), Some("Invalid parameter JSON: bad"));
}
