use vstd::prelude::*;

use crate::json::{
    field_models_of, lemma_field_models_of, lemma_models_of, models_of, parsed_json,
    pretty_json_text, Json, JsonValue,
};
use crate::output::OutputFormat;
use crate::text::{opt_string_view, str_eq, views};

verus! {

pub struct DoctorArgs {}

/// What the environment checks look at, gathered beforehand: the credentials
/// file's path as shown and whether it exists, whether a token file exists, the
/// text of the configuration file if there is one (empty if it could not be read),
/// whether `GTM_ACCOUNT_ID` is set, and the tool's version.
pub struct DoctorFacts {
    pub credentials_path: String,
    pub credentials_found: bool,
    pub token_found: bool,
    pub config_text: Option<String>,
    pub env_account_set: bool,
    pub version: String,
}

/// The outcome of one check: its name, `ok`, `missing` or `warning`, and a message.
pub struct Check {
    pub name: String,
    pub status: String,
    pub message: String,
}

pub struct CheckView {
    pub name: Seq<char>,
    pub status: Seq<char>,
    pub message: Seq<char>,
}

impl View for Check {
    type V = CheckView;

    open spec fn view(&self) -> CheckView {
        CheckView { name: self.name@, status: self.status@, message: self.message@ }
    }
}

pub open spec fn check_views(s: Seq<Check>) -> Seq<CheckView> {
    s.map_values(|c: Check| c@)
}

pub open spec fn check_of(name: Seq<char>, status: Seq<char>, message: Seq<char>) -> CheckView {
    CheckView { name, status, message }
}

/// Whether a configuration file's text sets `defaultAccountId` (text that is not
/// JSON sets nothing).
pub open spec fn has_default_account(config_text: Option<Seq<char>>) -> bool {
    match config_text {
        Some(t) => match parsed_json(t) {
            Some(v) => v.get("defaultAccountId"@) is Some,
            None => false,
        },
        None => false,
    }
}

/// The checks, in order: credentials, authentication token, defaults, version.
pub open spec fn doctor_checks_of(f: DoctorFacts) -> Seq<CheckView> {
    seq![
        if f.credentials_found {
            check_of("credentials"@, "ok"@, "Found at "@ + f.credentials_path@)
        } else {
            check_of(
                "credentials"@,
                "missing"@,
                "Not found at "@ + f.credentials_path@ + ". Download from Google Cloud Console."@,
            )
        },
        if f.token_found {
            check_of("auth_token"@, "ok"@, "Authenticated"@)
        } else {
            check_of("auth_token"@, "missing"@, "Not authenticated. Run `gtm auth login`."@)
        },
        if has_default_account(opt_string_view(f.config_text)) || f.env_account_set {
            check_of(
                "defaults"@,
                "ok"@,
                if f.env_account_set {
                    "Set via environment variables"@
                } else {
                    "Set via config file"@
                },
            )
        } else {
            check_of(
                "defaults"@,
                "warning"@,
                "No defaults configured. Run `gtm config setup` or set GTM_ACCOUNT_ID env var."@,
            )
        },
        check_of("version"@, "ok"@, "v"@ + f.version@),
    ]
}

fn new_check(name: &str, status: &str, message: String) -> (r: Check)
    ensures
        r@ == check_of(name@, status@, message@),
{
    Check { name: name.to_owned(), status: status.to_owned(), message }
}

/// Whether a configuration file's text sets `defaultAccountId`.
pub fn config_has_default_account(config_text: &Option<String>) -> (r: bool)
    ensures
        r == has_default_account(opt_string_view(*config_text)),
{
    match config_text {
        Some(t) => match JsonValue::parse(t.as_str()) {
            Some(v) => v.get("defaultAccountId").is_some(),
            None => false,
        },
        None => false,
    }
}

/// Runs the environment checks on the gathered facts.
pub fn doctor_checks(facts: &DoctorFacts) -> (r: Vec<Check>)
    ensures
        check_views(r@) == doctor_checks_of(*facts),
{
    let credentials = if facts.credentials_found {
        let mut m = "Found at ".to_owned();
        m.append(facts.credentials_path.as_str());
        new_check("credentials", "ok", m)
    } else {
        let mut m = "Not found at ".to_owned();
        m.append(facts.credentials_path.as_str());
        m.append(". Download from Google Cloud Console.");
        new_check("credentials", "missing", m)
    };
    let token = if facts.token_found {
        new_check("auth_token", "ok", "Authenticated".to_owned())
    } else {
        new_check("auth_token", "missing", "Not authenticated. Run `gtm auth login`.".to_owned())
    };
    let has_defaults = config_has_default_account(&facts.config_text);
    let defaults = if has_defaults || facts.env_account_set {
        let m = if facts.env_account_set {
            "Set via environment variables".to_owned()
        } else {
            "Set via config file".to_owned()
        };
        new_check("defaults", "ok", m)
    } else {
        new_check(
            "defaults",
            "warning",
            "No defaults configured. Run `gtm config setup` or set GTM_ACCOUNT_ID env var.".to_owned(),
        )
    };
    let mut v = "v".to_owned();
    v.append(facts.version.as_str());
    let version = new_check("version", "ok", v);
    let r = vec![credentials, token, defaults, version];
    assert(check_views(r@) =~= doctor_checks_of(*facts));
    r
}

/// All checks passed.
pub open spec fn all_ok(checks: Seq<CheckView>) -> bool {
    forall|i: int| 0 <= i < checks.len() ==> #[trigger] checks[i].status == "ok"@
}

/// Whether every check passed.
pub fn all_checks_ok(checks: &Vec<Check>) -> (r: bool)
    ensures
        r == all_ok(check_views(checks@)),
{
    let mut i: usize = 0;
    while i < checks.len()
        invariant
            i <= checks.len(),
            forall|k: int| 0 <= k < i ==> #[trigger] checks@[k]@.status == "ok"@,
        decreases checks.len() - i,
    {
        if !str_eq(checks[i].status.as_str(), "ok") {
            assert(check_views(checks@)[i as int].status != "ok"@);
            return false;
        }
        i = i + 1;
    }
    assert forall|k: int| 0 <= k < check_views(checks@).len() implies #[trigger] check_views(
        checks@,
    )[k].status == "ok"@ by {
        assert(checks@[k]@.status == "ok"@);
    }
    true
}

pub open spec fn check_json(c: CheckView) -> Json {
    Json::Object(
        seq![
            ("check"@, Json::Str(c.name)),
            ("status"@, Json::Str(c.status)),
            ("message"@, Json::Str(c.message)),
        ],
    )
}

/// The JSON report of the checks: `{"checks": [...], "healthy": <all passed>}`.
pub open spec fn doctor_report_of(checks: Seq<CheckView>) -> Json {
    Json::Object(
        seq![
            ("checks"@, Json::Array(checks.map_values(|c: CheckView| check_json(c)))),
            ("healthy"@, Json::Bool(all_ok(checks))),
        ],
    )
}

/// The mark shown before a check in table output.
pub open spec fn status_icon(status: Seq<char>) -> Seq<char> {
    if status == "ok"@ {
        "✓"@
    } else if status == "warning"@ {
        "!"@
    } else {
        "✗"@
    }
}

pub open spec fn check_line(c: CheckView) -> Seq<char> {
    "  "@ + status_icon(c.status) + " "@ + c.name + ": "@ + c.message
}

/// The table output of the checks: a line per check, an empty line, and a verdict.
pub open spec fn doctor_lines_of(checks: Seq<CheckView>) -> Seq<Seq<char>> {
    checks.map_values(|c: CheckView| check_line(c)) + seq![
        seq![],
        if all_ok(checks) {
            "All checks passed."@
        } else {
            "Some checks need attention."@
        },
    ]
}

/// What `doctor` prints: the indented JSON report, or the table.
pub open spec fn doctor_output_of(checks: Seq<CheckView>, format: OutputFormat) -> Seq<Seq<char>> {
    match format {
        OutputFormat::Json => seq![pretty_json_text(doctor_report_of(checks))],
        _ => doctor_lines_of(checks),
    }
}

/// The JSON report of the checks.
pub fn doctor_report(checks: &Vec<Check>) -> (r: JsonValue)
    ensures
        r@ == doctor_report_of(check_views(checks@)),
{
    let mut items: Vec<JsonValue> = Vec::new();
    for i in 0..checks.len()
        invariant
            items@.len() == i,
            forall|k: int| 0 <= k < i ==> #[trigger] items@[k]@ == check_json(checks@[k]@),
    {
        let c = &checks[i];
        let fields = vec![
            ("check".to_owned(), JsonValue::string(c.name.as_str())),
            ("status".to_owned(), JsonValue::string(c.status.as_str())),
            ("message".to_owned(), JsonValue::string(c.message.as_str())),
        ];
        proof {
            lemma_field_models_of(fields@);
        }
        assert(field_models_of(fields@) =~= seq![
            ("check"@, Json::Str(c.name@)),
            ("status"@, Json::Str(c.status@)),
            ("message"@, Json::Str(c.message@)),
        ]);
        items.push(JsonValue::Object(fields));
    }
    proof {
        lemma_models_of(items@);
    }
    assert(models_of(items@) =~= check_views(checks@).map_values(|c: CheckView| check_json(c)));
    let healthy = all_checks_ok(checks);
    let fields = vec![
        ("checks".to_owned(), JsonValue::Array(items)),
        ("healthy".to_owned(), JsonValue::Bool(healthy)),
    ];
    proof {
        lemma_field_models_of(fields@);
    }
    assert(field_models_of(fields@) =~= seq![
        ("checks"@, Json::Array(check_views(checks@).map_values(|c: CheckView| check_json(c)))),
        ("healthy"@, Json::Bool(all_ok(check_views(checks@)))),
    ]);
    JsonValue::Object(fields)
}

fn status_icon_text(status: &str) -> (r: &'static str)
    ensures
        r@ == status_icon(status@),
{
    if str_eq(status, "ok") {
        "✓"
    } else if str_eq(status, "warning") {
        "!"
    } else {
        "✗"
    }
}

/// The table output of the checks.
pub fn doctor_lines(checks: &Vec<Check>) -> (r: Vec<String>)
    ensures
        views(r@) == doctor_lines_of(check_views(checks@)),
{
    let mut r: Vec<String> = Vec::new();
    for i in 0..checks.len()
        invariant
            views(r@) == check_views(checks@).take(i as int).map_values(|c: CheckView| check_line(c)),
    {
        let c = &checks[i];
        let mut line = "  ".to_owned();
        line.append(status_icon_text(c.status.as_str()));
        line.append(" ");
        line.append(c.name.as_str());
        line.append(": ");
        line.append(c.message.as_str());
        let ghost prev = views(r@);
        r.push(line);
        assert(views(r@) =~= prev.push(check_line(checks@[i as int]@)));
        assert(check_views(checks@).take(i + 1).map_values(|c: CheckView| check_line(c))
            =~= check_views(checks@).take(i as int).map_values(|c: CheckView| check_line(c)).push(
            check_line(checks@[i as int]@),
        ));
    }
    assert(check_views(checks@).take(checks.len() as int) =~= check_views(checks@));
    let ghost lines = views(r@);
    let empty = "".to_owned();
    proof {
        reveal_strlit("");
    }
    assert(empty@ =~= Seq::<char>::empty());
    r.push(empty);
    assert(views(r@) =~= lines.push(seq![]));
    let ghost with_empty = views(r@);
    let verdict = if all_checks_ok(checks) {
        "All checks passed.".to_owned()
    } else {
        "Some checks need attention.".to_owned()
    };
    let ghost vv = verdict@;
    r.push(verdict);
    assert(views(r@) =~= with_empty.push(vv));
    assert(views(r@) =~= doctor_lines_of(check_views(checks@)));
    r
}

/// What `doctor` prints for the checks in the given output format.
pub fn doctor_output(checks: &Vec<Check>, format: OutputFormat) -> (r: Vec<String>)
    ensures
        views(r@) == doctor_output_of(check_views(checks@), format),
{
    match format {
        OutputFormat::Json => {
            let r = vec![doctor_report(checks).to_pretty_string()];
            assert(views(r@) =~= doctor_output_of(check_views(checks@), format));
            r
        },
        _ => doctor_lines(checks),
    }
}

} // verus!
