use vstd::prelude::*;

use crate::error::GtmError;
use crate::json::{
    field_models_of, lemma_field_models_of, lemma_models_of, models_of, parsed_json, Json, JsonValue,
};
use crate::text::{
    contains, opt_str_view, has_substring, str_eq, to_lowercase,
    unicode_lowercase, views,
};

verus! {

/// Where a workspace-scoped command works: account, container and, optionally,
/// workspace (the default workspace is looked up when it is not given).
pub struct WorkspaceFlags {
    pub account_id: String,
    pub container_id: String,
    pub workspace_id: Option<String>,
}

pub struct VariablesArgs {
    pub action: VariablesAction,
}

pub enum VariablesAction {
    List(VariablesListArgs),
    Get(VariablesGetArgs),
    Create(VariablesCreateArgs),
    Update(VariablesUpdateArgs),
    Delete(VariablesDeleteArgs),
    Revert(VariablesRevertArgs),
}

/// Lists variables, optionally only those whose name contains `name` (without
/// regard to case) and whose type is exactly `variable_type`.
pub struct VariablesListArgs {
    pub ws: WorkspaceFlags,
    pub name: Option<String>,
    pub variable_type: Option<String>,
}

pub struct VariablesGetArgs {
    pub ws: WorkspaceFlags,
    pub variable_id: String,
}

pub struct VariablesCreateArgs {
    pub ws: WorkspaceFlags,
    pub name: String,
    pub variable_type: String,
    pub value: Option<String>,
    pub params: Option<String>,
    pub params_file: Option<String>,
}

pub struct VariablesUpdateArgs {
    pub ws: WorkspaceFlags,
    pub variable_id: String,
    pub name: Option<String>,
    pub value: Option<String>,
    pub params: Option<String>,
    pub params_file: Option<String>,
}

pub struct VariablesDeleteArgs {
    pub ws: WorkspaceFlags,
    pub variable_id: String,
    pub force: bool,
}

pub struct VariablesRevertArgs {
    pub ws: WorkspaceFlags,
    pub variable_id: String,
}

/// The API path of a workspace.
pub open spec fn workspace_path_of(account_id: Seq<char>, container_id: Seq<char>, workspace_id: Seq<char>) -> Seq<char> {
    "accounts/"@ + account_id + "/containers/"@ + container_id + "/workspaces/"@ + workspace_id
}

/// The API path of a workspace: `accounts/{account}/containers/{container}/workspaces/{workspace}`.
pub fn workspace_path(account_id: &str, container_id: &str, workspace_id: &str) -> (r: String)
    ensures
        r@ == workspace_path_of(account_id@, container_id@, workspace_id@),
{
    let mut r = "accounts/".to_owned();
    r.append(account_id);
    r.append("/containers/");
    r.append(container_id);
    r.append("/workspaces/");
    r.append(workspace_id);
    r
}

/// The path of a collection of a workspace: `{base}/{collection}`.
pub open spec fn collection_path_of(base: Seq<char>, collection: Seq<char>) -> Seq<char> {
    base + "/"@ + collection
}

/// The path of one resource of a collection: `{base}/{collection}/{id}`.
pub open spec fn resource_path_of(base: Seq<char>, collection: Seq<char>, id: Seq<char>) -> Seq<char> {
    collection_path_of(base, collection) + "/"@ + id
}

/// The path of a collection of a workspace, such as `{base}/variables`.
pub fn collection_path(base: &str, collection: &str) -> (r: String)
    ensures
        r@ == collection_path_of(base@, collection@),
{
    let mut r = base.to_owned();
    r.append("/");
    r.append(collection);
    r
}

/// The path of one resource, such as `{base}/zones/{id}`.
pub fn resource_path(base: &str, collection: &str, id: &str) -> (r: String)
    ensures
        r@ == resource_path_of(base@, collection@, id@),
{
    let mut r = collection_path(base, collection);
    r.append("/");
    r.append(id);
    r
}

/// The path that reverts the workspace's changes to one resource: `{base}/{collection}/{id}:revert`.
pub fn revert_path(base: &str, collection: &str, id: &str) -> (r: String)
    ensures
        r@ == resource_path_of(base@, collection@, id@) + ":revert"@,
{
    let mut r = resource_path(base, collection, id);
    r.append(":revert");
    r
}

/// The lines printed when a deletion is asked for without `--force`.
pub open spec fn deletion_warning_of(kind: Seq<char>, id: Seq<char>) -> Seq<Seq<char>> {
    seq![
        "WARNING: This will permanently delete "@ + kind + " '"@ + id + "'."@,
        "Run the same command with --force to confirm."@,
    ]
}

/// Whether a deletion may go ahead: with `force` it does (`None`); without it,
/// nothing is deleted and the warning lines to print are returned.
pub fn confirm_deletion(force: bool, kind: &str, id: &str) -> (r: Option<Vec<String>>)
    ensures
        r is None <==> force,
        r matches Some(lines) ==> views(lines@) == deletion_warning_of(kind@, id@),
{
    if force {
        return None;
    }
    let mut first = "WARNING: This will permanently delete ".to_owned();
    first.append(kind);
    first.append(" '");
    first.append(id);
    first.append("'.");
    let r = vec![first, "Run the same command with --force to confirm.".to_owned()];
    assert(views(r@) =~= deletion_warning_of(kind@, id@));
    Some(r)
}

/// A parameter file named on the command line, with what reading it gave: its
/// text, or the text of the error that stopped the reading.
pub struct ParamsFile {
    pub path: String,
    pub content: Result<String, String>,
}

/// Reads the parameters of a command: from the file when one is named, else from
/// the inline JSON text, else none. A file that cannot be read, or text that is not
/// JSON, gives `InvalidParams`.
pub fn resolve_params(params: &Option<String>, params_file: &Option<ParamsFile>) -> (r: Result<
    Option<JsonValue>,
    GtmError,
>)
    ensures
        match params_file {
            Some(f) => match f.content {
                Err(e) => r matches Err(GtmError::InvalidParams(m)) && m@ == "Cannot read "@
                    + f.path@ + ": "@ + e@,
                Ok(text) => match parsed_json(text@) {
                    Some(v) => r matches Ok(Some(x)) && x@ == v,
                    None => r matches Err(GtmError::InvalidParams(m)) && m@ == "Invalid JSON in "@
                        + f.path@,
                },
            },
            None => match params {
                Some(p) => match parsed_json(p@) {
                    Some(v) => r matches Ok(Some(x)) && x@ == v,
                    None => r matches Err(GtmError::InvalidParams(m)) && m@ == p@,
                },
                None => r matches Ok(None),
            },
        },
{
    match params_file {
        Some(f) => match &f.content {
            Err(e) => {
                let mut m = "Cannot read ".to_owned();
                m.append(f.path.as_str());
                m.append(": ");
                m.append(e.as_str());
                Err(GtmError::InvalidParams(m))
            },
            Ok(text) => match JsonValue::parse(text.as_str()) {
                Some(v) => Ok(Some(v)),
                None => {
                    let mut m = "Invalid JSON in ".to_owned();
                    m.append(f.path.as_str());
                    Err(GtmError::InvalidParams(m))
                },
            },
        },
        None => match params {
            Some(p) => match JsonValue::parse(p.as_str()) {
                Some(v) => Ok(Some(v)),
                None => Err(GtmError::InvalidParams(p.clone())),
            },
            None => Ok(None),
        },
    }
}

/// The parameter list that gives a variable the value `value` under `key`:
/// `[{"type": "template", "key": key, "value": value}]`.
pub open spec fn template_parameter_of(key: Seq<char>, value: Seq<char>) -> Json {
    Json::Array(
        seq![
            Json::Object(
                seq![
                    ("type"@, Json::Str("template"@)),
                    ("key"@, Json::Str(key)),
                    ("value"@, Json::Str(value)),
                ],
            ),
        ],
    )
}

/// The parameter list that gives a variable the value `value` under `key`.
pub fn template_parameter(key: &str, value: &str) -> (r: JsonValue)
    ensures
        r@ == template_parameter_of(key@, value@),
{
    let fields = vec![
        ("type".to_owned(), JsonValue::string("template")),
        ("key".to_owned(), JsonValue::string(key)),
        ("value".to_owned(), JsonValue::string(value)),
    ];
    proof {
        lemma_field_models_of(fields@);
    }
    assert(field_models_of(fields@) =~= seq![
        ("type"@, Json::Str("template"@)),
        ("key"@, Json::Str(key@)),
        ("value"@, Json::Str(value@)),
    ]);
    let items = vec![JsonValue::Object(fields)];
    proof {
        lemma_models_of(items@);
    }
    assert(models_of(items@) =~= seq![
        Json::Object(
            seq![
                ("type"@, Json::Str("template"@)),
                ("key"@, Json::Str(key@)),
                ("value"@, Json::Str(value@)),
            ],
        ),
    ]);
    JsonValue::Array(items)
}

/// The parameter list a variable gets: the converted `--params` when they were
/// given, else the template parameter that sets `value` under `value_key`, else none.
pub open spec fn variable_parameter_of(
    converted_params: Option<Json>,
    value: Option<Seq<char>>,
    value_key: Seq<char>,
) -> Option<Json> {
    match converted_params {
        Some(p) => Some(p),
        None => match value {
            Some(v) => Some(template_parameter_of(value_key, v)),
            None => None,
        },
    }
}

pub open spec fn opt_json_view(o: Option<JsonValue>) -> Option<Json> {
    match o {
        Some(v) => Some(v@),
        None => None,
    }
}

/// The parameter list a variable gets: the converted `--params` take precedence
/// over `--value`, which is set under `value_key`.
pub fn variable_parameter(converted_params: Option<JsonValue>, value: Option<&str>, value_key: &str) -> (r:
    Option<JsonValue>)
    ensures
        opt_json_view(r) == variable_parameter_of(opt_json_view(converted_params), opt_str_view(value), value_key@),
{
    match converted_params {
        Some(p) => Some(p),
        None => match value {
            Some(v) => Some(template_parameter(value_key, v)),
            None => None,
        },
    }
}

/// The body that creates a variable: its name and type, then its parameter list
/// if it has one.
pub open spec fn variable_create_body_of(name: Seq<char>, variable_type: Seq<char>, parameter: Option<Json>) -> Json {
    Json::Object(
        seq![("name"@, Json::Str(name)), ("type"@, Json::Str(variable_type))] + match parameter {
            Some(p) => seq![("parameter"@, p)],
            None => seq![],
        },
    )
}

/// The body that creates a variable.
pub fn variable_create_body(name: &str, variable_type: &str, parameter: Option<JsonValue>) -> (r: JsonValue)
    ensures
        r@ == variable_create_body_of(name@, variable_type@, opt_json_view(parameter)),
{
    let ghost pm = opt_json_view(parameter);
    let mut fields = vec![
        ("name".to_owned(), JsonValue::string(name)),
        ("type".to_owned(), JsonValue::string(variable_type)),
    ];
    match parameter {
        Some(p) => {
            fields.push(("parameter".to_owned(), p));
        },
        None => {},
    }
    proof {
        lemma_field_models_of(fields@);
    }
    assert(field_models_of(fields@) =~= seq![("name"@, Json::Str(name@)), ("type"@, Json::Str(variable_type@))]
        + match pm {
        Some(p) => seq![("parameter"@, p)],
        None => seq![],
    });
    JsonValue::Object(fields)
}

/// The type of a fetched variable, `c` (constant) when it has none.
pub fn variable_type_or_default(fetched: &JsonValue) -> (r: String)
    ensures
        r@ == match fetched@.str_member("type"@) {
            Some(s) => s,
            None => "c"@,
        },
{
    match fetched.get("type") {
        Some(v) => match v.as_str() {
            Some(s) => s.to_owned(),
            None => "c".to_owned(),
        },
        None => "c".to_owned(),
    }
}

/// The body that updates a variable: the variable as fetched, with the new name,
/// then the new parameter list, set where they are given.
pub open spec fn variable_update_body_of(fetched: Json, name: Option<Seq<char>>, parameter: Option<Json>) -> Json {
    let named = match name {
        Some(n) => fetched.with_member("name"@, Json::Str(n)),
        None => fetched,
    };
    match parameter {
        Some(p) => named.with_member("parameter"@, p),
        None => named,
    }
}

/// The body that updates a variable. Where a member is set, the fetched variable
/// must be an object (or `null`), as setting a member of anything else panics.
pub fn variable_update_body(fetched: JsonValue, name: Option<&str>, parameter: Option<JsonValue>) -> (r: JsonValue)
    requires
        fetched@.is_object_or_null() || (name is None && parameter is None),
    ensures
        r@ == variable_update_body_of(fetched@, opt_str_view(name), opt_json_view(parameter)),
{
    let mut body = fetched;
    match name {
        Some(n) => {
            body.set_member("name", JsonValue::string(n));
        },
        None => {},
    }
    match parameter {
        Some(p) => {
            body.set_member("parameter", p);
        },
        None => {},
    }
    body
}

/// An item passes the name filter: there is none, or the item's name contains it,
/// both taken in lower case.
pub open spec fn name_matches(item: Json, name: Option<Seq<char>>) -> bool {
    match name {
        None => true,
        Some(n) => match item.str_member("name"@) {
            Some(s) => has_substring(unicode_lowercase(s), unicode_lowercase(n)),
            None => false,
        },
    }
}

/// An item passes the type filter: there is none, or the item's type is exactly it.
pub open spec fn type_matches(item: Json, type_filter: Option<Seq<char>>) -> bool {
    match type_filter {
        None => true,
        Some(t) => match item.str_member("type"@) {
            Some(s) => s == t,
            None => false,
        },
    }
}

/// The items that pass both filters, in order.
pub open spec fn kept_items(items: Seq<Json>, name: Option<Seq<char>>, type_filter: Option<Seq<char>>) -> Seq<Json>
    decreases items.len(),
{
    if items.len() == 0 {
        seq![]
    } else {
        let prev = kept_items(items.drop_last(), name, type_filter);
        if name_matches(items.last(), name) && type_matches(items.last(), type_filter) {
            prev.push(items.last())
        } else {
            prev
        }
    }
}

/// The fields of a list response with the first field named `key`, when it is an
/// array, cut down to the items that pass the filters.
pub open spec fn filtered_fields(
    fields: Seq<(Seq<char>, Json)>,
    key: Seq<char>,
    name: Option<Seq<char>>,
    type_filter: Option<Seq<char>>,
) -> Seq<(Seq<char>, Json)>
    decreases fields.len(),
{
    if fields.len() == 0 {
        seq![]
    } else if fields[0].0 == key {
        seq![
            (
                key,
                match fields[0].1 {
                    Json::Array(items) => Json::Array(kept_items(items, name, type_filter)),
                    other => other,
                },
            ),
        ] + fields.drop_first()
    } else {
        seq![fields[0]] + filtered_fields(fields.drop_first(), key, name, type_filter)
    }
}

/// A list response with its `key` array filtered; any other value is left as it is.
pub open spec fn filtered_resources(
    result: Json,
    key: Seq<char>,
    name: Option<Seq<char>>,
    type_filter: Option<Seq<char>>,
) -> Json {
    match result {
        Json::Object(fields) => Json::Object(filtered_fields(fields, key, name, type_filter)),
        _ => result,
    }
}

fn item_passes(item: &JsonValue, name: Option<&str>, type_filter: Option<&str>) -> (r: bool)
    ensures
        r == (name_matches(item@, opt_str_view(name)) && type_matches(item@, opt_str_view(type_filter))),
{
    let item_name = match item.get("name") {
        Some(v) => v.as_str(),
        None => None,
    };
    let name_ok = match name {
        None => true,
        Some(n) => match item_name {
            Some(s) => {
                let hay = to_lowercase(s);
                let needle = to_lowercase(n);
                contains(hay.as_str(), needle.as_str())
            },
            None => false,
        },
    };
    let item_type = match item.get("type") {
        Some(v) => v.as_str(),
        None => None,
    };
    let type_ok = match type_filter {
        None => true,
        Some(t) => match item_type {
            Some(s) => str_eq(s, t),
            None => false,
        },
    };
    name_ok && type_ok
}

fn kept_copy(items: &Vec<JsonValue>, name: Option<&str>, type_filter: Option<&str>) -> (r: Vec<JsonValue>)
    ensures
        models_of(r@) == kept_items(models_of(items@), opt_str_view(name), opt_str_view(type_filter)),
{
    proof {
        lemma_models_of(items@);
    }
    let ghost m = models_of(items@);
    let mut r: Vec<JsonValue> = Vec::new();
    for i in 0..items.len()
        invariant
            m == models_of(items@),
            m.len() == items.len(),
            forall|k: int| 0 <= k < items.len() ==> #[trigger] m[k] == items@[k]@,
            models_of(r@) == kept_items(m.take(i as int), opt_str_view(name), opt_str_view(type_filter)),
    {
        assert(m.take(i + 1).drop_last() =~= m.take(i as int));
        assert(m.take(i + 1).last() == items@[i as int]@);
        if item_passes(&items[i], name, type_filter) {
            let ghost prev = r@;
            let c = items[i].deep_clone();
            r.push(c);
            proof {
                lemma_models_of(r@);
                lemma_models_of(prev);
                assert(r@.drop_last() =~= prev);
                assert(models_of(r@) =~= models_of(prev).push(c@));
            }
        }
    }
    assert(m.take(items.len() as int) =~= m);
    r
}

fn filtered_copy(result: &JsonValue, key: &str, name: Option<&str>, type_filter: Option<&str>) -> (r:
    JsonValue)
    ensures
        r@ == filtered_resources(result@, key@, opt_str_view(name), opt_str_view(type_filter)),
{
    match result {
        JsonValue::Object(fields) => {
            proof {
                lemma_field_models_of(fields@);
            }
            let ghost fm = field_models_of(fields@);
            let mut out: Vec<(String, JsonValue)> = Vec::new();
            let mut i: usize = 0;
            let mut done = false;
            assert(fm.skip(0) =~= fm);
            while i < fields.len()
                invariant
                    fm == field_models_of(fields@),
                    fm.len() == fields.len(),
                    forall|k: int| 0 <= k < fields.len() ==> #[trigger] fm[k] == (fields@[k].0@, fields@[k].1@),
                    i <= fields.len(),
                    !done ==> filtered_fields(fm, key@, opt_str_view(name), opt_str_view(type_filter))
                        == field_models_of(out@) + filtered_fields(
                        fm.skip(i as int),
                        key@,
                        opt_str_view(name),
                        opt_str_view(type_filter),
                    ),
                    done ==> filtered_fields(fm, key@, opt_str_view(name), opt_str_view(type_filter))
                        == field_models_of(out@) + fm.skip(i as int),
                decreases fields.len() - i,
            {
                let ghost rest = fm.skip(i as int);
                assert(rest[0] == fm[i as int]);
                assert(rest.drop_first() =~= fm.skip(i + 1));
                let ghost prev = out@;
                let (k, v) = (&fields[i].0, &fields[i].1);
                let value = if !done && crate::text::str_eq(k.as_str(), key) {
                    done = true;
                    match v {
                        JsonValue::Array(items) => {
                            proof {
                                lemma_models_of(items@);
                            }
                            JsonValue::Array(kept_copy(items, name, type_filter))
                        },
                        _ => v.deep_clone(),
                    }
                } else {
                    v.deep_clone()
                };
                let ghost new_field = (k@, value@);
                out.push((k.clone(), value));
                proof {
                    lemma_field_models_of(out@);
                    lemma_field_models_of(prev);
                    assert(out@.drop_last() =~= prev);
                    assert(field_models_of(out@) =~= field_models_of(prev).push(new_field));
                    if new_field == fm[i as int] {
                        assert(seq![new_field] + fm.skip(i + 1) =~= rest);
                    }
                }
                i = i + 1;
            }
            assert(fm.skip(fields.len() as int) =~= Seq::<(Seq<char>, Json)>::empty());
            proof {
                if !done {
                    assert(filtered_fields(fm.skip(fields.len() as int), key@, opt_str_view(name), opt_str_view(type_filter)) =~= Seq::<(Seq<char>, Json)>::empty());
                }
            }
            assert(filtered_fields(fm, key@, opt_str_view(name), opt_str_view(type_filter)) =~= field_models_of(out@));
            JsonValue::Object(out)
        },
        _ => result.deep_clone(),
    }
}

/// Keeps, in the `key` array of a list response, the items that pass the name and
/// type filters.
pub fn filter_resources(result: &mut JsonValue, key: &str, name: Option<&str>, type_filter: Option<&str>)
    ensures
        final(result)@ == filtered_resources(old(result)@, key@, opt_str_view(name), opt_str_view(type_filter)),
{
    let filtered = filtered_copy(result, key, name, type_filter);
    *result = filtered;
}

} // verus!
