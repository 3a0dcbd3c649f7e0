use vstd::prelude::*;

use crate::json::{pretty_json_text, field_models_of, lemma_field_models_of, lemma_models_of, models_of, Json, JsonValue};
use crate::text::views;

verus! {

/// How results are written: pretty JSON, a table, or one `id<TAB>name` line per item.
#[derive(Debug, Clone, Copy, PartialEq, Eq)]
pub enum OutputFormat {
    Json,
    Table,
    Compact,
}

/// The fields of an object other than `nextPageToken`, in order.
pub open spec fn non_token_fields(fields: Seq<(Seq<char>, Json)>) -> Seq<(Seq<char>, Json)>
    decreases fields.len(),
{
    if fields.len() == 0 {
        seq![]
    } else {
        let rest = non_token_fields(fields.drop_last());
        if fields.last().0 == "nextPageToken"@ {
            rest
        } else {
            rest.push(fields.last())
        }
    }
}

/// A list response of the API unwrapped: an object whose only fields are one array
/// and, optionally, `nextPageToken` stands for that array; any other value stands
/// for itself.
pub open spec fn unwrapped(v: Json) -> Json {
    match v {
        Json::Object(fields) => {
            let rest = non_token_fields(fields);
            if rest.len() == 1 && rest[0].1 is Array {
                rest[0].1
            } else {
                v
            }
        },
        _ => v,
    }
}

pub proof fn lemma_non_token_fields_append(a: Seq<(Seq<char>, Json)>, b: Seq<(Seq<char>, Json)>)
    ensures
        non_token_fields(a + b) == non_token_fields(a) + non_token_fields(b),
    decreases b.len(),
{
    if b.len() == 0 {
        assert(a + b =~= a);
        assert(non_token_fields(a) + non_token_fields(b) =~= non_token_fields(a));
    } else {
        lemma_non_token_fields_append(a, b.drop_last());
        assert((a + b).drop_last() =~= a + b.drop_last());
        assert((a + b).last() == b.last());
        if b.last().0 == "nextPageToken"@ {
        } else {
            assert(non_token_fields(a) + non_token_fields(b.drop_last()).push(b.last()) =~= (
            non_token_fields(a) + non_token_fields(b.drop_last())).push(b.last()));
        }
    }
}

/// Unwraps an API list response (`{"tag": [...], "nextPageToken": ...}` becomes the
/// array); single resources and other shapes are returned as they are.
pub fn unwrap_json(value: &JsonValue) -> (r: JsonValue)
    ensures
        r@ == unwrapped(value@),
{
    let fields = match value {
        JsonValue::Object(fields) => fields,
        _ => {
            return value.deep_clone();
        },
    };
    proof {
        lemma_field_models_of(fields@);
    }
    let ghost fm = field_models_of(fields@);
    let mut array_index: Option<usize> = None;
    let mut i: usize = 0;
    while i < fields.len()
        invariant
            *value == JsonValue::Object(*fields),
            fm == field_models_of(fields@),
            fm.len() == fields.len(),
            forall|k: int| 0 <= k < fields.len() ==> #[trigger] fm[k] == (fields@[k].0@, fields@[k].1@),
            i <= fields.len(),
            non_token_fields(fm.take(i as int)).len() <= 1,
            array_index is None <==> non_token_fields(fm.take(i as int)).len() == 0,
            array_index matches Some(k) ==> k < fields.len() && non_token_fields(fm.take(i as int))[0]
                == fm[k as int] && fm[k as int].1 is Array,
        decreases fields.len() - i,
    {
        let ghost before = fm.take(i as int);
        assert(fm.take(i + 1) =~= before.push(fm[i as int]));
        assert(fm.take(i + 1).drop_last() =~= before);
        if crate::text::str_eq(fields[i].0.as_str(), "nextPageToken") {
            i = i + 1;
            continue;
        }
        if fields[i].1.is_array() && array_index.is_none() {
            array_index = Some(i);
            i = i + 1;
        } else {
            proof {
                let cut = fm.take(i + 1);
                assert(fm =~= cut + fm.skip(i + 1));
                lemma_non_token_fields_append(cut, fm.skip(i + 1));
                assert(non_token_fields(cut).len() >= 1);
                assert(non_token_fields(fm)[0] == non_token_fields(cut)[0]);
                if non_token_fields(cut).len() == 1 {
                    assert(!(fm[i as int].1 is Array));
                }
            }
            return value.deep_clone();
        }
    }
    assert(fm.take(fields.len() as int) =~= fm);
    match array_index {
        Some(k) => fields[k].1.deep_clone(),
        None => value.deep_clone(),
    }
}

/// The fields whose value is tried, in order, as the id of an item in compact output.
pub open spec fn compact_id_keys() -> Seq<Seq<char>> {
    seq![
        "accountId"@,
        "containerId"@,
        "workspaceId"@,
        "tagId"@,
        "triggerId"@,
        "variableId"@,
        "folderId"@,
        "templateId"@,
        "containerVersionId"@,
        "versionId"@,
        "environmentId"@,
        "clientId"@,
        "transformationId"@,
        "zoneId"@,
        "destinationId"@,
        "destinationLinkId"@,
        "permissionId"@,
        "gtagConfigId"@,
    ]
}

fn compact_id_key(k: usize) -> (r: &'static str)
    requires
        k < 18,
    ensures
        r@ == compact_id_keys()[k as int],
{
    match k {
        0 => "accountId",
        1 => "containerId",
        2 => "workspaceId",
        3 => "tagId",
        4 => "triggerId",
        5 => "variableId",
        6 => "folderId",
        7 => "templateId",
        8 => "containerVersionId",
        9 => "versionId",
        10 => "environmentId",
        11 => "clientId",
        12 => "transformationId",
        13 => "zoneId",
        14 => "destinationId",
        15 => "destinationLinkId",
        16 => "permissionId",
        _ => "gtagConfigId",
    }
}

/// The string held by the first of `keys` whose member in `item` is a string.
pub open spec fn first_string_member(item: Json, keys: Seq<Seq<char>>) -> Option<Seq<char>>
    decreases keys.len(),
{
    if keys.len() == 0 {
        None
    } else {
        match item.str_member(keys[0]) {
            Some(s) => Some(s),
            None => first_string_member(item, keys.drop_first()),
        }
    }
}

/// The compact line of one item: its id, a tab, its name (`-` for what is missing).
pub open spec fn compact_line(item: Json) -> Seq<char> {
    let id = match first_string_member(item, compact_id_keys()) {
        Some(s) => s,
        None => "-"@,
    };
    let name = match item.str_member("name"@) {
        Some(s) => s,
        None => "-"@,
    };
    id + "\t"@ + name
}

/// The items of the first field of an object that holds an array.
pub open spec fn first_array_field(fields: Seq<(Seq<char>, Json)>) -> Option<Seq<Json>>
    decreases fields.len(),
{
    if fields.len() == 0 {
        None
    } else {
        match fields[0].1 {
            Json::Array(items) => Some(items),
            _ => first_array_field(fields.drop_first()),
        }
    }
}

pub open spec fn compact_lines_of_items(items: Seq<Json>) -> Seq<Seq<char>> {
    items.map_values(|item: Json| compact_line(item))
}

/// Compact output: a line per item of a top-level array, or of the first array
/// field of an object; a single line for an object without one; nothing otherwise.
pub open spec fn compact_lines_of(v: Json) -> Seq<Seq<char>> {
    match v {
        Json::Array(items) => compact_lines_of_items(items),
        Json::Object(fields) => match first_array_field(fields) {
            Some(items) => compact_lines_of_items(items),
            None => seq![compact_line(v)],
        },
        _ => seq![],
    }
}

fn string_or_dash(s: Option<&str>) -> (r: String)
    ensures
        r@ == match s {
            Some(t) => t@,
            None => "-"@,
        },
{
    match s {
        Some(t) => t.to_owned(),
        None => "-".to_owned(),
    }
}

/// The compact line of one item.
pub fn compact_line_for(item: &JsonValue) -> (r: String)
    ensures
        r@ == compact_line(item@),
{
    let mut id: Option<&str> = None;
    let mut k: usize = 0;
    assert(compact_id_keys().skip(0) =~= compact_id_keys());
    while k < 18
        invariant
            k <= 18,
            compact_id_keys().len() == 18,
            id is None ==> first_string_member(item@, compact_id_keys()) == first_string_member(
                item@,
                compact_id_keys().skip(k as int),
            ),
            id matches Some(s) ==> first_string_member(item@, compact_id_keys()) == Some(s@),
        decreases 18 - k,
    {
        let key = compact_id_key(k);
        assert(compact_id_keys().skip(k as int)[0] == compact_id_keys()[k as int]);
        assert(compact_id_keys().skip(k as int).drop_first() =~= compact_id_keys().skip(k + 1));
        if id.is_none() {
            match item.get(key) {
                Some(v) => {
                    id = v.as_str();
                },
                None => {},
            }
        }
        k = k + 1;
    }
    assert(compact_id_keys().skip(18) =~= Seq::<Seq<char>>::empty());
    let mut r = string_or_dash(id);
    r.append("\t");
    let name = match item.get("name") {
        Some(v) => v.as_str(),
        None => None,
    };
    let n = string_or_dash(name);
    r.append(n.as_str());
    r
}

fn compact_lines_for_items(items: &Vec<JsonValue>) -> (r: Vec<String>)
    ensures
        views(r@) == compact_lines_of_items(models_of(items@)),
{
    proof {
        lemma_models_of(items@);
    }
    let mut r: Vec<String> = Vec::new();
    for i in 0..items.len()
        invariant
            models_of(items@).len() == items.len(),
            forall|k: int| 0 <= k < items.len() ==> #[trigger] models_of(items@)[k] == items@[k]@,
            views(r@) == compact_lines_of_items(models_of(items@).take(i as int)),
    {
        let ghost prev = views(r@);
        let line = compact_line_for(&items[i]);
        r.push(line);
        assert(views(r@) =~= prev.push(line@));
        assert(compact_lines_of_items(models_of(items@).take(i + 1)) =~= compact_lines_of_items(
            models_of(items@).take(i as int),
        ).push(compact_line(items@[i as int]@)));
    }
    assert(models_of(items@).take(items.len() as int) =~= models_of(items@));
    r
}

/// The lines of compact output for a response (the `print_compact` layout).
pub fn compact_lines(value: &JsonValue) -> (r: Vec<String>)
    ensures
        views(r@) == compact_lines_of(value@),
{
    match value {
        JsonValue::Array(items) => compact_lines_for_items(items),
        JsonValue::Object(fields) => {
            proof {
                lemma_field_models_of(fields@);
            }
            let ghost fm = field_models_of(fields@);
            assert(fm.skip(0) =~= fm);
            let mut i: usize = 0;
            while i < fields.len()
                invariant
                    *value == JsonValue::Object(*fields),
                    fm == field_models_of(fields@),
                    fm.len() == fields.len(),
                    forall|k: int|
                        0 <= k < fields.len() ==> #[trigger] fm[k] == (fields@[k].0@, fields@[k].1@),
                    i <= fields.len(),
                    first_array_field(fm) == first_array_field(fm.skip(i as int)),
                decreases fields.len() - i,
            {
                assert(fm.skip(i as int)[0] == fm[i as int]);
                assert(fm.skip(i as int).drop_first() =~= fm.skip(i + 1));
                match fields[i].1.as_array() {
                    Some(items) => {
                        return compact_lines_for_items(items);
                    },
                    None => {},
                }
                i = i + 1;
            }
            assert(fm.skip(fields.len() as int) =~= Seq::<(Seq<char>, Json)>::empty());
            let r = vec![compact_line_for(value)];
            assert(views(r@) =~= seq![compact_line(value@)]);
            r
        },
        _ => {
            let r: Vec<String> = Vec::new();
            assert(views(r@) =~= Seq::<Seq<char>>::empty());
            r
        },
    }
}

/// The notice printed after a deletion: `{"status": "deleted", "resource", "id"}`.
pub open spec fn deleted_notice_of(resource: Seq<char>, id: Seq<char>) -> Json {
    Json::Object(
        seq![
            ("status"@, Json::Str("deleted"@)),
            ("resource"@, Json::Str(resource)),
            ("id"@, Json::Str(id)),
        ],
    )
}

/// The notice printed after deleting resource `id` of kind `resource`.
pub fn deleted_notice(resource: &str, id: &str) -> (r: JsonValue)
    ensures
        r@ == deleted_notice_of(resource@, id@),
{
    let fields = vec![
        ("status".to_owned(), JsonValue::string("deleted")),
        ("resource".to_owned(), JsonValue::string(resource)),
        ("id".to_owned(), JsonValue::string(id)),
    ];
    proof {
        lemma_field_models_of(fields@);
    }
    assert(field_models_of(fields@) =~= seq![
        ("status"@, Json::Str("deleted"@)),
        ("resource"@, Json::Str(resource@)),
        ("id"@, Json::Str(id@)),
    ]);
    JsonValue::Object(fields)
}

/// What is printed for an API response: the indented JSON of the unwrapped
/// response, or the compact lines; `None` for a table, which the table renderer draws.
pub open spec fn resource_output_of(v: Json, format: OutputFormat) -> Option<Seq<Seq<char>>> {
    match format {
        OutputFormat::Json => Some(seq![pretty_json_text(unwrapped(v))]),
        OutputFormat::Compact => Some(compact_lines_of(v)),
        OutputFormat::Table => None,
    }
}

/// The lines printed for an API response in the given format (`None` for a table).
pub fn resource_output(value: &JsonValue, format: OutputFormat) -> (r: Option<Vec<String>>)
    ensures
        match r {
            Some(lines) => resource_output_of(value@, format) == Some(views(lines@)),
            None => resource_output_of(value@, format) is None,
        },
{
    match format {
        OutputFormat::Json => {
            let r = vec![unwrap_json(value).to_pretty_string()];
            assert(views(r@) =~= seq![pretty_json_text(unwrapped(value@))]);
            Some(r)
        },
        OutputFormat::Compact => Some(compact_lines(value)),
        OutputFormat::Table => None,
    }
}

} // verus!
