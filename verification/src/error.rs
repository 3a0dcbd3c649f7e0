use vstd::prelude::*;

use crate::json::{compact_json_text, Json, JsonValue};
use crate::text::{contains, decimal, decimal_string, has_substring, views};

verus! {

/// The errors of the tool. Errors that another library reported (HTTP, I/O,
/// JSON) are held as the text that library gives for them.
#[derive(Debug)]
pub enum GtmError {
    AuthRequired,
    CredentialsNotFound { path: String },
    TokenRefreshFailed(String),
    ApiError { status: u16, message: String },
    InvalidParams(String),
    ValidationFailed(usize),
    Http(String),
    Io(String),
    Json(String),
}

/// The process exit code for an error: 2 authentication, 3 validation,
/// 4 invalid input, 1 for API and other errors.
pub open spec fn exit_code_of(e: GtmError) -> i32 {
    match e {
        GtmError::AuthRequired | GtmError::CredentialsNotFound { .. } | GtmError::TokenRefreshFailed(
            _,
        ) => 2,
        GtmError::ValidationFailed(_) => 3,
        GtmError::InvalidParams(_) | GtmError::Json(_) => 4,
        GtmError::ApiError { .. } | GtmError::Http(_) | GtmError::Io(_) => 1,
    }
}

/// The machine-readable name of an error's kind.
pub open spec fn error_type_of(e: GtmError) -> Seq<char> {
    match e {
        GtmError::AuthRequired => "auth_required"@,
        GtmError::CredentialsNotFound { .. } => "credentials_not_found"@,
        GtmError::TokenRefreshFailed(_) => "token_refresh_failed"@,
        GtmError::ApiError { .. } => "api_error"@,
        GtmError::InvalidParams(_) => "invalid_params"@,
        GtmError::ValidationFailed(_) => "validation_failed"@,
        GtmError::Http(_) => "http_error"@,
        GtmError::Io(_) => "io_error"@,
        GtmError::Json(_) => "json_error"@,
    }
}

/// The human-readable message of an error.
pub open spec fn message_of(e: GtmError) -> Seq<char> {
    match e {
        GtmError::AuthRequired => "Authentication required. Run `gtm auth login` to authenticate."@,
        GtmError::CredentialsNotFound { path } => "Credentials file not found at "@ + path@
            + ". Download OAuth 2.0 credentials from Google Cloud Console."@,
        GtmError::TokenRefreshFailed(s) => "Token expired and refresh failed: "@ + s@,
        GtmError::ApiError { status, message } => "API error "@ + decimal(status as nat) + ": "@
            + message@,
        GtmError::InvalidParams(s) => "Invalid parameter JSON: "@ + s@,
        GtmError::ValidationFailed(n) => "Validation failed: "@ + decimal(n as nat)
            + " error(s) found"@,
        GtmError::Http(s) => s@,
        GtmError::Io(s) => s@,
        GtmError::Json(s) => s@,
    }
}

/// The hint lines shown under an error on a terminal.
pub open spec fn hints_of(e: GtmError) -> Seq<Seq<char>> {
    match e {
        GtmError::AuthRequired | GtmError::TokenRefreshFailed(_) => seq![
            "Hint: Run `gtm auth login` to authenticate."@,
        ],
        GtmError::ApiError { status, message } => if status == 403 && (has_substring(
            message@,
            "scope"@,
        ) || has_substring(message@, "authentication"@)) {
            seq![
                "Hint: Insufficient OAuth scopes. Run `gtm auth login` to re-authenticate with required permissions."@,
                "      Publishing requires the tagmanager.publish scope."@,
            ]
        } else if status == 403 {
            seq![
                "Hint: Check that your account has the necessary GTM permissions."@,
                "      Use `gtm permissions list` to view current access."@,
            ]
        } else {
            seq![]
        },
        _ => seq![],
    }
}

/// The structured report of an error: `{"error": {"code", "type", "message"}}`.
pub open spec fn report_of(e: GtmError) -> Json {
    Json::Object(
        seq![
            (
                "error"@,
                Json::Object(
                    seq![
                        ("code"@, Json::Number(decimal(exit_code_of(e) as nat))),
                        ("type"@, Json::Str(error_type_of(e))),
                        ("message"@, Json::Str(message_of(e))),
                    ],
                ),
            ),
        ],
    )
}

/// What is written to standard error for an error: its compact JSON report when
/// standard error is not a terminal; otherwise `Error: <message>` and its hints.
pub open spec fn report_lines_of(e: GtmError, to_terminal: bool) -> Seq<Seq<char>> {
    if to_terminal {
        seq!["Error: "@ + message_of(e)] + hints_of(e)
    } else {
        seq![compact_json_text(report_of(e))]
    }
}

impl GtmError {
    /// The stable exit code for programmatic use.
    pub fn exit_code(&self) -> (r: i32)
        ensures
            r == exit_code_of(*self),
    {
        match self {
            GtmError::AuthRequired | GtmError::CredentialsNotFound { .. }
            | GtmError::TokenRefreshFailed(_) => 2,
            GtmError::ValidationFailed(_) => 3,
            GtmError::InvalidParams(_) | GtmError::Json(_) => 4,
            GtmError::ApiError { .. } | GtmError::Http(_) | GtmError::Io(_) => 1,
        }
    }

    /// The machine-readable name of this error's kind.
    pub fn error_type(&self) -> (r: &'static str)
        ensures
            r@ == error_type_of(*self),
    {
        match self {
            GtmError::AuthRequired => "auth_required",
            GtmError::CredentialsNotFound { .. } => "credentials_not_found",
            GtmError::TokenRefreshFailed(_) => "token_refresh_failed",
            GtmError::ApiError { .. } => "api_error",
            GtmError::InvalidParams(_) => "invalid_params",
            GtmError::ValidationFailed(_) => "validation_failed",
            GtmError::Http(_) => "http_error",
            GtmError::Io(_) => "io_error",
            GtmError::Json(_) => "json_error",
        }
    }

    /// The human-readable message of this error.
    pub fn message(&self) -> (r: String)
        ensures
            r@ == message_of(*self),
    {
        match self {
            GtmError::AuthRequired => "Authentication required. Run `gtm auth login` to authenticate.".to_owned(),
            GtmError::CredentialsNotFound { path } => {
                let mut r = "Credentials file not found at ".to_owned();
                r.append(path.as_str());
                r.append(". Download OAuth 2.0 credentials from Google Cloud Console.");
                r
            },
            GtmError::TokenRefreshFailed(s) => {
                let mut r = "Token expired and refresh failed: ".to_owned();
                r.append(s.as_str());
                r
            },
            GtmError::ApiError { status, message } => {
                let mut r = "API error ".to_owned();
                let code = decimal_string(*status as u64);
                r.append(code.as_str());
                r.append(": ");
                r.append(message.as_str());
                r
            },
            GtmError::InvalidParams(s) => {
                let mut r = "Invalid parameter JSON: ".to_owned();
                r.append(s.as_str());
                r
            },
            GtmError::ValidationFailed(n) => {
                let mut r = "Validation failed: ".to_owned();
                let count = decimal_string(*n as u64);
                r.append(count.as_str());
                r.append(" error(s) found");
                r
            },
            GtmError::Http(s) => s.clone(),
            GtmError::Io(s) => s.clone(),
            GtmError::Json(s) => s.clone(),
        }
    }

    /// The hint lines shown under this error on a terminal.
    pub fn hints(&self) -> (r: Vec<String>)
        ensures
            views(r@) == hints_of(*self),
    {
        let mut r: Vec<String> = Vec::new();
        match self {
            GtmError::AuthRequired | GtmError::TokenRefreshFailed(_) => {
                r.push("Hint: Run `gtm auth login` to authenticate.".to_owned());
            },
            GtmError::ApiError { status, message } => {
                if *status == 403 && (contains(message.as_str(), "scope") || contains(
                    message.as_str(),
                    "authentication",
                )) {
                    r.push(
                        "Hint: Insufficient OAuth scopes. Run `gtm auth login` to re-authenticate with required permissions.".to_owned(),
                    );
                    r.push("      Publishing requires the tagmanager.publish scope.".to_owned());
                } else if *status == 403 {
                    r.push(
                        "Hint: Check that your account has the necessary GTM permissions.".to_owned(),
                    );
                    r.push("      Use `gtm permissions list` to view current access.".to_owned());
                }
            },
            _ => {},
        }
        assert(views(r@) =~= hints_of(*self));
        r
    }

    /// The structured report of this error.
    pub fn report(&self) -> (r: JsonValue)
        ensures
            r@ == report_of(*self),
    {
        let code = self.exit_code();
        let inner = vec![
            ("code".to_owned(), JsonValue::Number(decimal_string(code as u64))),
            ("type".to_owned(), JsonValue::string(self.error_type())),
            ("message".to_owned(), JsonValue::Str(self.message())),
        ];
        let outer = vec![("error".to_owned(), JsonValue::Object(inner))];
        let r = JsonValue::Object(outer);
        proof {
            crate::json::lemma_field_models_of(inner@);
            crate::json::lemma_field_models_of(outer@);
            assert(crate::json::field_models_of(inner@) =~= seq![
                ("code"@, Json::Number(decimal(exit_code_of(*self) as nat))),
                ("type"@, Json::Str(error_type_of(*self))),
                ("message"@, Json::Str(message_of(*self))),
            ]);
        }
        assert(crate::json::field_models_of(outer@) =~= seq![
            ("error"@, Json::Object(crate::json::field_models_of(inner@))),
        ]);
        assert(r@ == report_of(*self));
        r
    }

    /// The lines written to standard error for this error; `to_terminal` tells
    /// whether standard error is a terminal.
    pub fn report_lines(&self, to_terminal: bool) -> (r: Vec<String>)
        ensures
            views(r@) == report_lines_of(*self, to_terminal),
    {
        if to_terminal {
            let mut first = "Error: ".to_owned();
            let m = self.message();
            first.append(m.as_str());
            let mut r: Vec<String> = vec![first];
            let hints = self.hints();
            let mut i: usize = 0;
            while i < hints.len()
                invariant
                    i <= hints.len(),
                    views(r@) == seq!["Error: "@ + message_of(*self)] + views(hints@).take(i as int),
                    views(hints@) == hints_of(*self),
                decreases hints.len() - i,
            {
                let ghost prev = views(r@);
                r.push(hints[i].clone());
                assert(views(r@) =~= prev.push(hints@[i as int]@));
                assert(views(hints@).take(i + 1) =~= views(hints@).take(i as int).push(hints@[i as int]@));
                assert(views(r@) =~= seq!["Error: "@ + message_of(*self)] + views(hints@).take(i + 1));
                i = i + 1;
            }
            assert(views(hints@).take(hints.len() as int) =~= views(hints@));
            r
        } else {
            let r = vec![self.report().to_compact_string()];
            assert(views(r@) =~= report_lines_of(*self, to_terminal));
            r
        }
    }
}

} // verus!
