use vstd::prelude::*;

use crate::error::{error_type_of, exit_code_of, report_of, GtmError};
use crate::explain::{
    arg_value, conditions_in, explanation_of, last_with, list_member, reverse_edges, shared_for,
    shared_tag_of, str_field_of, var_info_of, ConditionView, SharedTagView, VarView,
};
use crate::explain_report::{condition_json, explanation_json_of, shared_tag_json, trigger_json, var_json};
use crate::explain::{ExplanationView, TriggerView};
use crate::json::{set_in_fields, field_lookup, Json};
use crate::output::unwrapped;
use crate::refs::{
    close_from, distinct_variable_names, is_variable_name, lemma_close_from, placeholders_from,
    variable_refs,
};
use crate::text::decimal;
use crate::text::{has_substring, opt_string_view, unicode_lowercase};
use crate::variables::{
    filtered_fields, filtered_resources, kept_items, variable_create_body_of,
    variable_parameter_of, variable_update_body_of,
};
use crate::doctor::{all_ok, doctor_checks_of, doctor_lines_of, doctor_report_of, has_default_account, CheckView, DoctorFacts};

verus! {

/// Every error ends the process with a failure code: 1, 2, 3 or 4, never 0.
pub proof fn error_exit_code_is_failure(e: GtmError)
    ensures
        1 <= exit_code_of(e) <= 4,
{
}

/// The structured error report carries the error's exit code and kind.
pub proof fn report_carries_code_and_type(e: GtmError)
    ensures
        report_of(e).get("error"@) matches Some(inner) && inner.get("code"@) == Some(
            Json::Number(decimal(exit_code_of(e) as nat)),
        ) && inner.get("type"@) == Some(Json::Str(error_type_of(e))),
{
    reveal_strlit("error");
    reveal_strlit("code");
    reveal_strlit("type");
    assert("type"@[0] != "code"@[0]);
    let inner = seq![
        ("code"@, Json::Number(decimal(exit_code_of(e) as nat))),
        ("type"@, Json::Str(error_type_of(e))),
        ("message"@, Json::Str(crate::error::message_of(e))),
    ];
    assert(inner.drop_first() =~= seq![
        ("type"@, Json::Str(error_type_of(e))),
        ("message"@, Json::Str(crate::error::message_of(e))),
    ]);
    assert(field_lookup(inner.drop_first(), "type"@) == Some(Json::Str(error_type_of(e))));
    assert(field_lookup(inner, "code"@) == Some(Json::Number(decimal(exit_code_of(e) as nat))));
}

/// Unwrapping a list response twice gives what unwrapping it once gives.
pub proof fn unwrap_is_idempotent(v: Json)
    ensures
        unwrapped(unwrapped(v)) == unwrapped(v),
{
}

/// Unwrapping gives the response itself or the array of a list response.
pub proof fn unwrap_gives_value_or_array(v: Json)
    ensures
        unwrapped(v) == v || unwrapped(v) is Array,
{
}

/// Setting a member of an object (or of `null`) and then reading that member gives
/// back the value written.
pub proof fn get_after_set(v: Json, key: Seq<char>, x: Json)
    requires
        v.is_object_or_null(),
    ensures
        v.with_member(key, x).get(key) == Some(x),
{
    match v {
        Json::Object(fields) => lemma_lookup_after_set(fields, key, x),
        _ => {},
    }
}

proof fn lemma_lookup_after_set(fields: Seq<(Seq<char>, Json)>, key: Seq<char>, x: Json)
    ensures
        field_lookup(set_in_fields(fields, key, x), key) == Some(x),
    decreases fields.len(),
{
    if fields.len() > 0 && fields[0].0 != key {
        lemma_lookup_after_set(fields.drop_first(), key, x);
        assert((seq![fields[0]] + set_in_fields(fields.drop_first(), key, x)).drop_first()
            =~= set_in_fields(fields.drop_first(), key, x));
    }
}

/// Setting one member leaves every other member as it was.
pub proof fn set_keeps_other_members(v: Json, key: Seq<char>, x: Json, other: Seq<char>)
    requires
        v is Object,
        other != key,
    ensures
        v.with_member(key, x).get(other) == v.get(other),
{
    lemma_lookup_other_after_set(v->Object_0, key, x, other);
}

proof fn lemma_lookup_other_after_set(
    fields: Seq<(Seq<char>, Json)>,
    key: Seq<char>,
    x: Json,
    other: Seq<char>,
)
    requires
        other != key,
    ensures
        field_lookup(set_in_fields(fields, key, x), other) == field_lookup(fields, other),
    decreases fields.len(),
{
    if fields.len() == 0 {
        assert(seq![(key, x)].drop_first() =~= Seq::<(Seq<char>, Json)>::empty());
        assert(seq![(key, x)][0].0 == key);
        assert(set_in_fields(fields, key, x) == seq![(key, x)]);
        assert(field_lookup(seq![(key, x)], other) == field_lookup(seq![(key, x)].drop_first(), other));
        assert(field_lookup(Seq::<(Seq<char>, Json)>::empty(), other) is None);
    } else if fields[0].0 == key {
        let set = seq![(key, x)] + fields.drop_first();
        assert(set_in_fields(fields, key, x) == set);
        assert(set[0].0 == key);
        assert(set.drop_first() =~= fields.drop_first());
        assert(field_lookup(set, other) == field_lookup(set.drop_first(), other));
    } else {
        lemma_lookup_other_after_set(fields.drop_first(), key, x, other);
        let set = seq![fields[0]] + set_in_fields(fields.drop_first(), key, x);
        assert(set[0] == fields[0]);
        assert(set.drop_first() =~= set_in_fields(fields.drop_first(), key, x));
        assert(set_in_fields(fields, key, x) == set);
        if fields[0].0 != other {
            assert(field_lookup(set, other) == field_lookup(set.drop_first(), other));
        }
    }
}

/// The variables that a text refers to are listed once each, and none is empty
/// or starts with `_`.
pub proof fn variable_refs_are_distinct_names(text: Seq<char>)
    ensures
        forall|i: int| 0 <= i < variable_refs(text).len() ==> is_variable_name(#[trigger] variable_refs(text)[i]),
        forall|i: int, j: int|
            0 <= i < j < variable_refs(text).len() ==> variable_refs(text)[i] != variable_refs(text)[j],
{
    lemma_distinct_names(crate::refs::placeholders_from(text, 0));
}

proof fn lemma_distinct_names(names: Seq<Seq<char>>)
    ensures
        forall|i: int| 0 <= i < distinct_variable_names(names).len() ==> is_variable_name(
            #[trigger] distinct_variable_names(names)[i],
        ),
        forall|i: int, j: int|
            0 <= i < j < distinct_variable_names(names).len() ==> distinct_variable_names(names)[i]
                != distinct_variable_names(names)[j],
    decreases names.len(),
{
    if names.len() > 0 {
        lemma_distinct_names(names.drop_last());
        let prev = distinct_variable_names(names.drop_last());
        let n = names.last();
        if is_variable_name(n) && !prev.contains(n) {
            let cur = prev.push(n);
            assert forall|i: int, j: int| 0 <= i < j < cur.len() implies cur[i] != cur[j] by {
                if j == cur.len() - 1 {
                    assert(prev[i] == cur[i]);
                    if cur[i] == cur[j] {
                        assert(prev.contains(n));
                    }
                }
            }
        }
    }
}

proof fn lemma_kept_all(items: Seq<Json>)
    ensures
        kept_items(items, None, None) == items,
    decreases items.len(),
{
    if items.len() > 0 {
        lemma_kept_all(items.drop_last());
        assert(items.drop_last().push(items.last()) =~= items);
    }
}

proof fn lemma_filtered_fields_unfiltered(fields: Seq<(Seq<char>, Json)>, key: Seq<char>)
    ensures
        filtered_fields(fields, key, None, None) == fields,
    decreases fields.len(),
{
    if fields.len() > 0 {
        if fields[0].0 == key {
            match fields[0].1 {
                Json::Array(items) => lemma_kept_all(items),
                _ => {},
            }
            assert(seq![fields[0]] + fields.drop_first() =~= fields);
        } else {
            lemma_filtered_fields_unfiltered(fields.drop_first(), key);
            assert(seq![fields[0]] + fields.drop_first() =~= fields);
        }
    }
}

/// Listing without a name or type filter leaves the response as it is.
pub proof fn no_filter_keeps_everything(result: Json, key: Seq<char>)
    ensures
        filtered_resources(result, key, None, None) == result,
{
    match result {
        Json::Object(fields) => lemma_filtered_fields_unfiltered(fields, key),
        _ => {},
    }
}

proof fn lemma_kept_subsequence(items: Seq<Json>, name: Option<Seq<char>>, t: Option<Seq<char>>)
    ensures
        kept_items(items, name, t).len() <= items.len(),
        forall|i: int|
            0 <= i < kept_items(items, name, t).len() ==> items.contains(
                #[trigger] kept_items(items, name, t)[i],
            ) && crate::variables::name_matches(kept_items(items, name, t)[i], name)
                && crate::variables::type_matches(kept_items(items, name, t)[i], t),
    decreases items.len(),
{
    if items.len() > 0 {
        lemma_kept_subsequence(items.drop_last(), name, t);
        let prev = kept_items(items.drop_last(), name, t);
        assert forall|i: int| 0 <= i < prev.len() implies items.contains(#[trigger] prev[i]) by {
            let k = choose|k: int| 0 <= k < items.drop_last().len() && items.drop_last()[k] == prev[i];
            assert(items[k] == prev[i]);
        }
        assert(items[items.len() - 1] == items.last());
    }
}

/// Filtering keeps only items of the list that pass both filters, and never more
/// items than there were.
pub proof fn filter_keeps_only_matches(items: Seq<Json>, name: Option<Seq<char>>, t: Option<Seq<char>>)
    ensures
        kept_items(items, name, t).len() <= items.len(),
        forall|i: int|
            0 <= i < kept_items(items, name, t).len() ==> items.contains(
                #[trigger] kept_items(items, name, t)[i],
            ) && crate::variables::name_matches(kept_items(items, name, t)[i], name)
                && crate::variables::type_matches(kept_items(items, name, t)[i], t),
{
    lemma_kept_subsequence(items, name, t);
}

proof fn lemma_shared_not_excluded(tags: Seq<Json>, exclude: Seq<char>, id: Seq<char>)
    ensures
        forall|i: int|
            0 <= i < shared_for(reverse_edges(tags, exclude), id).len() ==> (#[trigger] shared_for(
                reverse_edges(tags, exclude),
                id,
            )[i]).id != exclude,
    decreases tags.len(),
{
    lemma_edges_not_excluded(tags, exclude);
    lemma_shared_from_edges(reverse_edges(tags, exclude), exclude, id);
}

proof fn lemma_edges_not_excluded(tags: Seq<Json>, exclude: Seq<char>)
    ensures
        forall|i: int|
            0 <= i < reverse_edges(tags, exclude).len() ==> (#[trigger] reverse_edges(tags, exclude)[i]).1.id
                != exclude,
    decreases tags.len(),
{
    if tags.len() > 0 {
        lemma_edges_not_excluded(tags.drop_last(), exclude);
        let prev = reverse_edges(tags.drop_last(), exclude);
        let last = tags.last();
        if str_field_of(last, "tagId"@) != exclude {
            let add = crate::explain::edges_of_tag(last);
            assert forall|i: int| 0 <= i < add.len() implies (#[trigger] add[i]).1.id != exclude by {
                assert(add[i].1 == shared_tag_of(last));
            }
            assert forall|i: int| 0 <= i < (prev + add).len() implies (#[trigger] (prev + add)[i]).1.id != exclude by {
                if i < prev.len() {
                    assert((prev + add)[i] == prev[i]);
                } else {
                    assert((prev + add)[i] == add[i - prev.len()]);
                }
            }
        } else {
            assert(prev + seq![] =~= prev);
        }
    }
}

proof fn lemma_shared_from_edges(
    edges: Seq<(Seq<char>, SharedTagView)>,
    exclude: Seq<char>,
    id: Seq<char>,
)
    requires
        forall|i: int| 0 <= i < edges.len() ==> (#[trigger] edges[i]).1.id != exclude,
    ensures
        forall|i: int| 0 <= i < shared_for(edges, id).len() ==> (#[trigger] shared_for(edges, id)[i]).id != exclude,
    decreases edges.len(),
{
    if edges.len() > 0 {
        assert forall|i: int| 0 <= i < edges.drop_last().len() implies (#[trigger] edges.drop_last()[i]).1.id != exclude by {
            assert(edges.drop_last()[i] == edges[i]);
        }
        lemma_shared_from_edges(edges.drop_last(), exclude, id);
        assert(edges.last() == edges[edges.len() - 1]);
        let prev = shared_for(edges.drop_last(), id);
        if edges.last().0 == id {
            let cur = prev.push(edges.last().1);
            assert forall|i: int| 0 <= i < cur.len() implies (#[trigger] cur[i]).id != exclude by {
                if i < prev.len() {
                    assert(cur[i] == prev[i]);
                }
            }
        }
    }
}

/// With `--reverse`, the tags listed as sharing a trigger never include the tag
/// being explained; without it, no trigger lists any sharing tag.
pub proof fn reverse_lists_only_other_tags(
    tag: Json,
    triggers_data: Json,
    variables_data: Json,
    tags_data: Json,
    reverse: bool,
)
    ensures
        ({
            let e = explanation_of(tag, triggers_data, variables_data, tags_data, reverse);
            forall|i: int, j: int|
                0 <= i < e.firing.len() && 0 <= j < e.firing[i].shared_by.len() ==> (#[trigger] e.firing[i].shared_by[j]).id
                    != str_field_of(tag, "tagId"@) && reverse
        }),
        ({
            let e = explanation_of(tag, triggers_data, variables_data, tags_data, reverse);
            forall|i: int, j: int|
                0 <= i < e.blocking.len() && 0 <= j < e.blocking[i].shared_by.len() ==> (#[trigger] e.blocking[i].shared_by[j]).id
                    != str_field_of(tag, "tagId"@) && reverse
        }),
{
    let e = explanation_of(tag, triggers_data, variables_data, tags_data, reverse);
    let exclude = str_field_of(tag, "tagId"@);
    assert forall|i: int, j: int|
        0 <= i < e.firing.len() && 0 <= j < e.firing[i].shared_by.len() implies (#[trigger] e.firing[i].shared_by[j]).id
            != exclude && reverse by {
        let id = crate::explain::id_array_of(tag, "firingTriggerId"@)[i];
        if reverse {
            lemma_shared_not_excluded(crate::explain::list_member(tags_data, "tag"@), exclude, id);
        }
    }
    assert forall|i: int, j: int|
        0 <= i < e.blocking.len() && 0 <= j < e.blocking[i].shared_by.len() implies (#[trigger] e.blocking[i].shared_by[j]).id
            != exclude && reverse by {
        let id = crate::explain::id_array_of(tag, "blockingTriggerId"@)[i];
        if reverse {
            lemma_shared_not_excluded(crate::explain::list_member(tags_data, "tag"@), exclude, id);
        }
    }
}

/// Compact output of a list gives one line per item.
pub proof fn compact_one_line_per_item(items: Seq<Json>)
    ensures
        crate::output::compact_lines_of(Json::Array(items)).len() == items.len(),
{
}

/// The JSON report of `doctor` is healthy exactly when its table ends with
/// `All checks passed.`.
pub proof fn doctor_outputs_agree(checks: Seq<crate::doctor::CheckView>)
    ensures
        crate::doctor::doctor_report_of(checks).get("healthy"@) == Some(
            Json::Bool(crate::doctor::all_ok(checks)),
        ),
        crate::doctor::doctor_lines_of(checks).last() == if crate::doctor::all_ok(checks) {
            "All checks passed."@
        } else {
            "Some checks need attention."@
        },
{
    reveal_strlit("healthy");
    reveal_strlit("checks");
    assert("healthy"@[0] != "checks"@[0]);
    let fields = seq![
        ("checks"@, Json::Array(checks.map_values(|c: crate::doctor::CheckView| crate::doctor::check_json(c)))),
        ("healthy"@, Json::Bool(crate::doctor::all_ok(checks))),
    ];
    assert(fields.drop_first() =~= seq![("healthy"@, Json::Bool(crate::doctor::all_ok(checks)))]);
    assert(field_lookup(fields.drop_first(), "healthy"@) == Some(Json::Bool(crate::doctor::all_ok(checks))));
    assert(field_lookup(fields, "healthy"@) == field_lookup(fields.drop_first(), "healthy"@));
}

proof fn lemma_close_from_extend(t: Seq<char>, u: Seq<char>, from: int)
    requires
        close_from(t, from) is Some,
    ensures
        close_from(t + u, from) == close_from(t, from),
    decreases t.len() - from,
{
    let tu = t + u;
    assert(tu[from] == t[from] && tu[from + 1] == t[from + 1]);
    if !(t[from] == '}' && t[from + 1] == '}') {
        lemma_close_from_extend(t, u, from + 1);
    }
}

proof fn lemma_no_close_after(t: Seq<char>, c: int, k: int)
    requires
        close_from(t, c) is None,
        0 <= c <= k,
    ensures
        close_from(t, k) is None,
    decreases k - c,
{
    if c < k {
        if !(c + 1 >= t.len()) {
            lemma_no_close_after(t, c + 1, k);
        } else {
            lemma_close_from(t, k);
        }
    }
}

proof fn lemma_no_placeholders_after(t: Seq<char>, c: int, k: int)
    requires
        close_from(t, c) is None,
        0 <= c <= k + 2,
        0 <= k,
    ensures
        placeholders_from(t, k) == Seq::<Seq<char>>::empty(),
    decreases t.len() - k,
{
    if !(k + 1 >= t.len()) {
        if t[k] == '{' && t[k + 1] == '{' {
            lemma_no_close_after(t, c, k + 2);
        }
        lemma_no_placeholders_after(t, c, k + 1);
    }
}

proof fn lemma_placeholders_prefix(t: Seq<char>, u: Seq<char>, i: int)
    requires
        0 <= i,
    ensures
        placeholders_from(t, i).len() <= placeholders_from(t + u, i).len(),
        placeholders_from(t + u, i).take(placeholders_from(t, i).len() as int) == placeholders_from(t, i),
    decreases t.len() - i,
{
    let tu = t + u;
    let p = placeholders_from(t, i);
    let q = placeholders_from(tu, i);
    if i + 1 >= t.len() {
        assert(p =~= Seq::<Seq<char>>::empty());
        assert(q.take(0) =~= p);
    } else {
        assert(tu[i] == t[i] && tu[i + 1] == t[i + 1]);
        if t[i] == '{' && t[i + 1] == '{' {
            if close_from(t, i + 2) is Some {
                let j = close_from(t, i + 2)->0;
                lemma_close_from(t, i + 2);
                lemma_close_from_extend(t, u, i + 2);
                assert(tu.subrange(i + 2, j) =~= t.subrange(i + 2, j));
                lemma_placeholders_prefix(t, u, j + 2);
                let p2 = placeholders_from(t, j + 2);
                let q2 = placeholders_from(tu, j + 2);
                assert(p == seq![t.subrange(i + 2, j)] + p2);
                assert(q == seq![t.subrange(i + 2, j)] + q2);
                assert(q.take(p.len() as int) =~= seq![t.subrange(i + 2, j)] + q2.take(p2.len() as int));
            } else {
                lemma_no_placeholders_after(t, i + 2, i);
                assert(q.take(0) =~= p);
            }
        } else {
            lemma_placeholders_prefix(t, u, i + 1);
        }
    }
}

proof fn lemma_distinct_names_prefix(a: Seq<Seq<char>>, b: Seq<Seq<char>>)
    ensures
        distinct_variable_names(a).len() <= distinct_variable_names(a + b).len(),
        distinct_variable_names(a + b).take(distinct_variable_names(a).len() as int)
            == distinct_variable_names(a),
    decreases b.len(),
{
    let d = distinct_variable_names(a);
    if b.len() == 0 {
        assert(a + b =~= a);
        assert(d.take(d.len() as int) =~= d);
    } else {
        lemma_distinct_names_prefix(a, b.drop_last());
        assert((a + b).drop_last() =~= a + b.drop_last());
        assert((a + b).last() == b.last());
        let prev = distinct_variable_names(a + b.drop_last());
        let cur = distinct_variable_names(a + b);
        if cur != prev {
            assert(cur == prev.push(b.last()));
            assert(cur.take(d.len() as int) =~= prev.take(d.len() as int));
        }
    }
}

/// Appending text after a text keeps the variables found in it, in the same order,
/// at the front of those found in the longer text.
pub proof fn appending_text_keeps_variable_refs(t: Seq<char>, s: Seq<char>)
    ensures
        variable_refs(t).len() <= variable_refs(t + s).len(),
        variable_refs(t + s).take(variable_refs(t).len() as int) == variable_refs(t),
{
    lemma_placeholders_prefix(t, s, 0);
    let p = placeholders_from(t, 0);
    let q = placeholders_from(t + s, 0);
    assert(q =~= p + q.skip(p.len() as int));
    lemma_distinct_names_prefix(p, q.skip(p.len() as int));
}


/// Looking up the key of field `i` finds field `i` when no earlier field has that key.
proof fn lemma_lookup_at(fields: Seq<(Seq<char>, Json)>, i: int)
    requires
        0 <= i < fields.len(),
        forall|j: int| 0 <= j < i ==> (#[trigger] fields[j]).0 != fields[i].0,
    ensures
        field_lookup(fields, fields[i].0) == Some(fields[i].1),
    decreases i,
{
    if i > 0 {
        let rest = fields.drop_first();
        assert forall|j: int| 0 <= j < i - 1 implies (#[trigger] rest[j]).0 != rest[i - 1].0 by {
            assert(rest[j] == fields[j + 1]);
        }
        assert(fields[0].0 != fields[i].0);
        lemma_lookup_at(rest, i - 1);
        assert(rest[i - 1] == fields[i]);
    }
}

/// Looking up a key that no field has finds nothing.
proof fn lemma_lookup_absent(fields: Seq<(Seq<char>, Json)>, key: Seq<char>)
    requires
        forall|j: int| 0 <= j < fields.len() ==> (#[trigger] fields[j]).0 != key,
    ensures
        field_lookup(fields, key) is None,
    decreases fields.len(),
{
    if fields.len() > 0 {
        let rest = fields.drop_first();
        assert forall|j: int| 0 <= j < rest.len() implies (#[trigger] rest[j]).0 != key by {
            assert(rest[j] == fields[j + 1]);
        }
        assert(fields[0].0 != key);
        lemma_lookup_absent(rest, key);
    }
}

/// The members of an object of three members with distinct keys.
proof fn lemma_lookup3(k0: Seq<char>, v0: Json, k1: Seq<char>, v1: Json, k2: Seq<char>, v2: Json)
    requires
        k0 != k1,
        k0 != k2,
        k1 != k2,
    ensures
        field_lookup(seq![(k0, v0), (k1, v1), (k2, v2)], k0) == Some(v0),
        field_lookup(seq![(k0, v0), (k1, v1), (k2, v2)], k1) == Some(v1),
        field_lookup(seq![(k0, v0), (k1, v1), (k2, v2)], k2) == Some(v2),
{
    let f = seq![(k0, v0), (k1, v1), (k2, v2)];
    lemma_lookup_at(f, 0);
    lemma_lookup_at(f, 1);
    lemma_lookup_at(f, 2);
}

/// The conditions of two lists of filters, one after the other, are those of the
/// first list followed by those of the second: every filter adds its own condition,
/// wherever it stands.
pub proof fn conditions_of_joined_filters(a: Seq<Json>, b: Seq<Json>)
    ensures
        conditions_in(a + b) == conditions_in(a) + conditions_in(b),
    decreases b.len(),
{
    if b.len() == 0 {
        assert(a + b =~= a);
        assert(conditions_in(a) + conditions_in(b) =~= conditions_in(a));
    } else {
        conditions_of_joined_filters(a, b.drop_last());
        assert((a + b).drop_last() =~= a + b.drop_last());
        assert((a + b).last() == b.last());
        match crate::explain::filter_condition(b.last()) {
            Some(c) => {
                assert(conditions_in(a) + conditions_in(b.drop_last()).push(c) =~= (conditions_in(a)
                    + conditions_in(b.drop_last())).push(c));
            },
            None => {},
        }
    }
}

/// A filter whose parameter list gives a non-empty `arg0` states one condition:
/// `arg0` as the variable, the filter's `type` (or `equals`) as the operator and
/// `arg1` as the value.
pub proof fn filter_with_variable_states_its_condition(f: Json, params: Seq<Json>)
    requires
        f.array_member("parameter"@) == Some(params),
        arg_value(params, "arg0"@).len() > 0,
    ensures
        conditions_in(seq![f]) == seq![
            ConditionView {
                variable: arg_value(params, "arg0"@),
                operator: match f.str_member("type"@) {
                    Some(t) => t,
                    None => "equals"@,
                },
                value: arg_value(params, "arg1"@),
            },
        ],
{
    assert(seq![f].drop_last() =~= Seq::<Json>::empty());
    assert(seq![f].last() == f);
    assert(conditions_in(seq![f].drop_last()) =~= Seq::<ConditionView>::empty());
}

/// A filter without a parameter list, or whose `arg0` is missing or empty, states
/// no condition.
pub proof fn filter_without_variable_states_nothing(f: Json)
    requires
        match f.array_member("parameter"@) {
            Some(params) => arg_value(params, "arg0"@).len() == 0,
            None => true,
        },
    ensures
        conditions_in(seq![f]) == Seq::<ConditionView>::empty(),
{
    assert(seq![f].drop_last() =~= Seq::<Json>::empty());
    assert(seq![f].last() == f);
    assert(conditions_in(seq![f].drop_last()) =~= Seq::<ConditionView>::empty());
}

/// A filter argument is the `value` of the last parameter whose `key` names it (the
/// empty text when that parameter has no string `value`); with no such parameter
/// it is empty.
pub proof fn argument_is_given_by_last_parameter(params: Seq<Json>, p: Json, arg: Seq<char>)
    requires
        arg.len() > 0,
    ensures
        arg_value(Seq::<Json>::empty(), arg) == Seq::<char>::empty(),
        arg_value(params.push(p), arg) == if p.str_member("key"@) == Some(arg) {
            match p.str_member("value"@) {
                Some(v) => v,
                None => Seq::<char>::empty(),
            }
        } else {
            arg_value(params, arg)
        },
{
    assert(params.push(p).drop_last() =~= params);
    assert(params.push(p).last() == p);
}

/// A variable in `explain`'s JSON output is an object whose `name`, `type` and `id`
/// members are the variable's name, type and id.
pub proof fn variable_json_members(v: VarView)
    ensures
        var_json(v).get("name"@) == Some(Json::Str(v.name)),
        var_json(v).get("type"@) == Some(Json::Str(v.var_type)),
        var_json(v).get("id"@) == Some(Json::Str(v.id)),
{
    reveal_strlit("name");
    reveal_strlit("type");
    reveal_strlit("id");
    assert("name"@[0] != "type"@[0]);
    lemma_lookup3("name"@, Json::Str(v.name), "type"@, Json::Str(v.var_type), "id"@, Json::Str(v.id));
}

/// A condition in `explain`'s JSON output is an object whose `variable`, `operator`
/// and `value` members are the condition's.
pub proof fn condition_json_members(c: ConditionView)
    ensures
        condition_json(c).get("variable"@) == Some(Json::Str(c.variable)),
        condition_json(c).get("operator"@) == Some(Json::Str(c.operator)),
        condition_json(c).get("value"@) == Some(Json::Str(c.value)),
{
    reveal_strlit("variable");
    reveal_strlit("operator");
    reveal_strlit("value");
    assert("variable"@[0] != "operator"@[0]);
    assert("variable"@.len() != "value"@.len() && "operator"@.len() != "value"@.len());
    lemma_lookup3(
        "variable"@,
        Json::Str(c.variable),
        "operator"@,
        Json::Str(c.operator),
        "value"@,
        Json::Str(c.value),
    );
}

/// A tag sharing a trigger is, in `explain`'s JSON output, an object whose `id`,
/// `name` and `type` members are the tag's.
pub proof fn shared_tag_json_members(t: SharedTagView)
    ensures
        shared_tag_json(t).get("id"@) == Some(Json::Str(t.id)),
        shared_tag_json(t).get("name"@) == Some(Json::Str(t.name)),
        shared_tag_json(t).get("type"@) == Some(Json::Str(t.tag_type)),
{
    reveal_strlit("name");
    reveal_strlit("type");
    reveal_strlit("id");
    assert("name"@[0] != "type"@[0]);
    lemma_lookup3("id"@, Json::Str(t.id), "name"@, Json::Str(t.name), "type"@, Json::Str(t.tag_type));
}

/// A trigger in `explain`'s JSON output has its id, name and type, its conditions
/// in order, and a `sharedBy` list of the tags sharing it exactly when there are any.
pub proof fn trigger_json_members(t: TriggerView)
    ensures
        trigger_json(t).get("id"@) == Some(Json::Str(t.id)),
        trigger_json(t).get("name"@) == Some(Json::Str(t.name)),
        trigger_json(t).get("type"@) == Some(Json::Str(t.trigger_type)),
        trigger_json(t).get("conditions"@) matches Some(Json::Array(items)) && items.len()
            == t.conditions.len() && forall|i: int|
            0 <= i < items.len() ==> #[trigger] items[i] == condition_json(t.conditions[i]),
        trigger_json(t).get("sharedBy"@) is Some <==> t.shared_by.len() > 0,
        trigger_json(t).get("sharedBy"@) matches Some(Json::Array(items)) ==> items.len()
            == t.shared_by.len() && forall|i: int|
            0 <= i < items.len() ==> #[trigger] items[i] == shared_tag_json(t.shared_by[i]),
{
    reveal_strlit("id");
    reveal_strlit("name");
    reveal_strlit("type");
    reveal_strlit("conditions");
    reveal_strlit("sharedBy");
    assert("name"@[0] != "type"@[0]);
    let base = seq![
        ("id"@, Json::Str(t.id)),
        ("name"@, Json::Str(t.name)),
        ("type"@, Json::Str(t.trigger_type)),
        ("conditions"@, Json::Array(t.conditions.map_values(|c: ConditionView| condition_json(c)))),
    ];
    let shared = ("sharedBy"@, Json::Array(t.shared_by.map_values(|s: SharedTagView| shared_tag_json(s))));
    let fields = if t.shared_by.len() > 0 { base.push(shared) } else { base };
    assert(trigger_json(t) == Json::Object(fields));
    assert(fields[0] == base[0] && fields[1] == base[1] && fields[2] == base[2] && fields[3] == base[3]);
    assert("id"@.len() == 2 && "name"@.len() == 4 && "type"@.len() == 4 && "conditions"@.len() == 10
        && "sharedBy"@.len() == 8);
    lemma_lookup_at(fields, 0);
    lemma_lookup_at(fields, 1);
    lemma_lookup_at(fields, 2);
    lemma_lookup_at(fields, 3);
    if t.shared_by.len() > 0 {
        assert(fields[4] == shared);
        lemma_lookup_at(fields, 4);
    } else {
        lemma_lookup_absent(fields, "sharedBy"@);
    }
}

/// `explain`'s JSON output lists the referenced variables in order, each with the
/// name, type and id of the variable as explained.
pub proof fn referenced_variables_in_json(e: ExplanationView)
    ensures
        explanation_json_of(e).get("referencedVariables"@) matches Some(Json::Array(items))
            && items.len() == e.variables.len() && forall|i: int|
            0 <= i < items.len() ==> #[trigger] items[i].get("name"@) == Some(
                Json::Str(e.variables[i].name),
            ) && items[i].get("type"@) == Some(Json::Str(e.variables[i].var_type))
                && items[i].get("id"@) == Some(Json::Str(e.variables[i].id)),
{
    let fields = explanation_json_fields(e);
    lemma_lookup_at(fields, 4);
    let items = e.variables.map_values(|v: VarView| var_json(v));
    assert forall|i: int| 0 <= i < items.len() implies #[trigger] items[i].get("name"@) == Some(
        Json::Str(e.variables[i].name),
    ) && items[i].get("type"@) == Some(Json::Str(e.variables[i].var_type)) && items[i].get("id"@)
        == Some(Json::Str(e.variables[i].id)) by {
        variable_json_members(e.variables[i]);
    }
}

/// `explain`'s JSON output gives the tag's id, name and type under `tag`, and its
/// firing and blocking triggers, in order, under `firingTriggers` and
/// `blockingTriggers`.
pub proof fn explanation_json_members(e: ExplanationView)
    ensures
        explanation_json_of(e).get("tag"@) matches Some(tag) && tag.get("id"@) == Some(
            Json::Str(e.tag_id),
        ) && tag.get("name"@) == Some(Json::Str(e.tag_name)) && tag.get("type"@) == Some(
            Json::Str(e.tag_type),
        ),
        explanation_json_of(e).get("firingTriggers"@) matches Some(Json::Array(items))
            && items.len() == e.firing.len() && forall|i: int|
            0 <= i < items.len() ==> #[trigger] items[i] == trigger_json(e.firing[i]),
        explanation_json_of(e).get("blockingTriggers"@) matches Some(Json::Array(items))
            && items.len() == e.blocking.len() && forall|i: int|
            0 <= i < items.len() ==> #[trigger] items[i] == trigger_json(e.blocking[i]),
{
    let fields = explanation_json_fields(e);
    lemma_lookup_at(fields, 0);
    lemma_lookup_at(fields, 2);
    lemma_lookup_at(fields, 3);
    reveal_strlit("name");
    reveal_strlit("type");
    reveal_strlit("id");
    assert("name"@[0] != "type"@[0]);
    lemma_lookup3("id"@, Json::Str(e.tag_id), "name"@, Json::Str(e.tag_name), "type"@, Json::Str(e.tag_type));
}

/// The members of `explain`'s JSON output, whose keys are distinct.
proof fn explanation_json_fields(e: ExplanationView) -> (fields: Seq<(Seq<char>, Json)>)
    ensures
        explanation_json_of(e) == Json::Object(fields),
        fields.len() == 5,
        forall|i: int, j: int| 0 <= i < j < 5 ==> fields[i].0 != fields[j].0,
        fields[0] == (
            "tag"@,
            Json::Object(
                seq![
                    ("id"@, Json::Str(e.tag_id)),
                    ("name"@, Json::Str(e.tag_name)),
                    ("type"@, Json::Str(e.tag_type)),
                ],
            ),
        ),
        fields[2] == ("firingTriggers"@, Json::Array(e.firing.map_values(|t: TriggerView| trigger_json(t)))),
        fields[3] == ("blockingTriggers"@, Json::Array(e.blocking.map_values(|t: TriggerView| trigger_json(t)))),
        fields[4] == ("referencedVariables"@, Json::Array(e.variables.map_values(|v: VarView| var_json(v)))),
{
    reveal_strlit("tag");
    reveal_strlit("parameters");
    reveal_strlit("firingTriggers");
    reveal_strlit("blockingTriggers");
    reveal_strlit("referencedVariables");
    let fields = explanation_json_of(e)->Object_0;
    assert(fields[0].0.len() == 3 && fields[1].0.len() == 10 && fields[2].0.len() == 14
        && fields[3].0.len() == 16 && fields[4].0.len() == 19);
    fields
}

proof fn lemma_last_with_at(items: Seq<Json>, field: Seq<char>, value: Seq<char>, k: int)
    requires
        0 <= k < items.len(),
        items[k].str_member(field) == Some(value),
        forall|j: int| k < j < items.len() ==> (#[trigger] items[j]).str_member(field) != Some(value),
    ensures
        last_with(items, field, value) == Some(items[k]),
    decreases items.len(),
{
    if k < items.len() - 1 {
        assert(items.last() == items[items.len() - 1]);
        let rest = items.drop_last();
        assert(rest[k] == items[k]);
        assert forall|j: int| k < j < rest.len() implies (#[trigger] rest[j]).str_member(field) != Some(value) by {
            assert(rest[j] == items[j]);
        }
        lemma_last_with_at(rest, field, value, k);
    }
}

proof fn lemma_last_with_none(items: Seq<Json>, field: Seq<char>, value: Seq<char>)
    requires
        forall|j: int| 0 <= j < items.len() ==> (#[trigger] items[j]).str_member(field) != Some(value),
    ensures
        last_with(items, field, value) is None,
    decreases items.len(),
{
    if items.len() > 0 {
        assert(items.last() == items[items.len() - 1]);
        let rest = items.drop_last();
        assert forall|j: int| 0 <= j < rest.len() implies (#[trigger] rest[j]).str_member(field) != Some(value) by {
            assert(rest[j] == items[j]);
        }
        lemma_last_with_none(rest, field, value);
    }
}

/// A referenced variable is described by the last workspace variable of its name:
/// its `type` and its `variableId`, each `-` where that member is not a string.
pub proof fn variable_described_by_last_of_its_name(name: Seq<char>, vars: Seq<Json>, k: int)
    requires
        0 <= k < vars.len(),
        vars[k].str_member("name"@) == Some(name),
        forall|j: int| k < j < vars.len() ==> (#[trigger] vars[j]).str_member("name"@) != Some(name),
    ensures
        var_info_of(name, vars) == (VarView {
            name,
            var_type: match vars[k].str_member("type"@) {
                Some(s) => s,
                None => "-"@,
            },
            id: match vars[k].str_member("variableId"@) {
                Some(s) => s,
                None => "-"@,
            },
        }),
{
    lemma_last_with_at(vars, "name"@, name, k);
}

/// A referenced variable that no workspace variable is named after is a built-in
/// variable, with id `-`.
pub proof fn undefined_variable_is_built_in(name: Seq<char>, vars: Seq<Json>)
    requires
        forall|j: int| 0 <= j < vars.len() ==> (#[trigger] vars[j]).str_member("name"@) != Some(name),
    ensures
        var_info_of(name, vars) == (VarView { name, var_type: "built-in"@, id: "-"@ }),
{
    lemma_last_with_none(vars, "name"@, name);
}

/// In `explain`'s JSON output, the `i`-th referenced variable of a tag is named as
/// the tag refers to it, and has the `type` and `variableId` of the last workspace
/// variable of that name (each `-` where that member is not a string).
pub proof fn explain_json_gives_variable_type_and_id(
    tag: Json,
    triggers_data: Json,
    variables_data: Json,
    tags_data: Json,
    reverse: bool,
    i: int,
    k: int,
)
    requires
        0 <= i < variable_refs(crate::json::compact_json_text(tag)).len(),
        0 <= k < list_member(variables_data, "variable"@).len(),
        list_member(variables_data, "variable"@)[k].str_member("name"@) == Some(
            variable_refs(crate::json::compact_json_text(tag))[i],
        ),
        forall|j: int|
            k < j < list_member(variables_data, "variable"@).len() ==> (#[trigger] list_member(
                variables_data,
                "variable"@,
            )[j]).str_member("name"@) != Some(variable_refs(crate::json::compact_json_text(tag))[i]),
    ensures
        explanation_json_of(explanation_of(tag, triggers_data, variables_data, tags_data, reverse)).get(
            "referencedVariables"@,
        ) matches Some(Json::Array(items)) && items[i].get("name"@) == Some(
            Json::Str(variable_refs(crate::json::compact_json_text(tag))[i]),
        ) && items[i].get("type"@) == Some(
            Json::Str(
                match list_member(variables_data, "variable"@)[k].str_member("type"@) {
                    Some(s) => s,
                    None => "-"@,
                },
            ),
        ) && items[i].get("id"@) == Some(
            Json::Str(
                match list_member(variables_data, "variable"@)[k].str_member("variableId"@) {
                    Some(s) => s,
                    None => "-"@,
                },
            ),
        ),
{
    let e = explanation_of(tag, triggers_data, variables_data, tags_data, reverse);
    let name = variable_refs(crate::json::compact_json_text(tag))[i];
    variable_described_by_last_of_its_name(name, list_member(variables_data, "variable"@), k);
    referenced_variables_in_json(e);
    assert(e.variables[i] == var_info_of(name, list_member(variables_data, "variable"@)));
}

/// In `explain`'s JSON output, a referenced variable that no workspace variable is
/// named after has type `built-in` and id `-`.
pub proof fn explain_json_gives_built_in_variable(
    tag: Json,
    triggers_data: Json,
    variables_data: Json,
    tags_data: Json,
    reverse: bool,
    i: int,
)
    requires
        0 <= i < variable_refs(crate::json::compact_json_text(tag)).len(),
        forall|j: int|
            0 <= j < list_member(variables_data, "variable"@).len() ==> (#[trigger] list_member(
                variables_data,
                "variable"@,
            )[j]).str_member("name"@) != Some(variable_refs(crate::json::compact_json_text(tag))[i]),
    ensures
        explanation_json_of(explanation_of(tag, triggers_data, variables_data, tags_data, reverse)).get(
            "referencedVariables"@,
        ) matches Some(Json::Array(items)) && items[i].get("name"@) == Some(
            Json::Str(variable_refs(crate::json::compact_json_text(tag))[i]),
        ) && items[i].get("type"@) == Some(Json::Str("built-in"@)) && items[i].get("id"@) == Some(
            Json::Str("-"@),
        ),
{
    let e = explanation_of(tag, triggers_data, variables_data, tags_data, reverse);
    let name = variable_refs(crate::json::compact_json_text(tag))[i];
    undefined_variable_is_built_in(name, list_member(variables_data, "variable"@));
    referenced_variables_in_json(e);
    assert(e.variables[i] == var_info_of(name, list_member(variables_data, "variable"@)));
}

/// Filtering an empty list keeps nothing.
pub proof fn filtering_nothing_keeps_nothing(name: Option<Seq<char>>, t: Option<Seq<char>>)
    ensures
        kept_items(Seq::<Json>::empty(), name, t) == Seq::<Json>::empty(),
{
}

/// Filtering a list with one more item at its end keeps what the shorter list
/// keeps, then that item when it passes: its `name` contains the name filter
/// (both in lower case) and its `type` is the type filter as a whole.
pub proof fn filtering_one_more_item(items: Seq<Json>, x: Json, name: Option<Seq<char>>, t: Option<Seq<char>>)
    ensures
        kept_items(items.push(x), name, t) == kept_items(items, name, t) + if (match name {
            None => true,
            Some(n) => x.str_member("name"@) matches Some(s) && has_substring(
                unicode_lowercase(s),
                unicode_lowercase(n),
            ),
        }) && (match t {
            None => true,
            Some(tt) => x.str_member("type"@) == Some(tt),
        }) {
            seq![x]
        } else {
            Seq::<Json>::empty()
        },
{
    assert(items.push(x).drop_last() =~= items);
    assert(items.push(x).last() == x);
    assert(kept_items(items, name, t) + Seq::<Json>::empty() =~= kept_items(items, name, t));
    assert(kept_items(items, name, t) + seq![x] =~= kept_items(items, name, t).push(x));
}

/// With a type filter, every item kept has that type as a whole: an item whose type
/// merely contains the filter is not kept.
pub proof fn type_filter_keeps_only_that_type(items: Seq<Json>, name: Option<Seq<char>>, t: Seq<char>)
    ensures
        forall|i: int|
            0 <= i < kept_items(items, name, Some(t)).len() ==> (#[trigger] kept_items(
                items,
                name,
                Some(t),
            )[i]).str_member("type"@) == Some(t),
{
    lemma_kept_subsequence(items, name, Some(t));
}

/// Renaming a variable sets the body's `name` to the new name, whether or not a
/// parameter list is given too.
pub proof fn update_body_takes_new_name(fetched: Json, n: Seq<char>, parameter: Option<Json>)
    requires
        fetched.is_object_or_null(),
    ensures
        variable_update_body_of(fetched, Some(n), parameter).get("name"@) == Some(Json::Str(n)),
{
    let named = fetched.with_member("name"@, Json::Str(n));
    get_after_set(fetched, "name"@, Json::Str(n));
    match parameter {
        Some(p) => {
            reveal_strlit("name");
            reveal_strlit("parameter");
            assert("name"@.len() != "parameter"@.len());
            set_keeps_other_members(named, "parameter"@, p, "name"@);
        },
        None => {},
    }
}

/// A parameter list given to an update is the body's `parameter`, whether or not a
/// new name is given too.
pub proof fn update_body_takes_new_parameter(fetched: Json, name: Option<Seq<char>>, p: Json)
    requires
        fetched.is_object_or_null(),
    ensures
        variable_update_body_of(fetched, name, Some(p)).get("parameter"@) == Some(p),
{
    match name {
        Some(n) => get_after_set(fetched.with_member("name"@, Json::Str(n)), "parameter"@, p),
        None => get_after_set(fetched, "parameter"@, p),
    }
}

/// An update keeps every other member of the fetched variable as it was, and with
/// neither a new name nor a parameter list it sends the variable as fetched.
pub proof fn update_body_keeps_the_rest(fetched: Json, name: Option<Seq<char>>, parameter: Option<Json>, other: Seq<char>)
    requires
        fetched is Object,
        other != "name"@,
        other != "parameter"@,
    ensures
        variable_update_body_of(fetched, name, parameter).get(other) == fetched.get(other),
        variable_update_body_of(fetched, None, None) == fetched,
{
    let named = match name {
        Some(n) => fetched.with_member("name"@, Json::Str(n)),
        None => fetched,
    };
    match name {
        Some(n) => set_keeps_other_members(fetched, "name"@, Json::Str(n), other),
        None => {},
    }
    match parameter {
        Some(p) => set_keeps_other_members(named, "parameter"@, p, other),
        None => {},
    }
}

/// The body that creates a variable has its `name` and `type`, and its parameter
/// list as `parameter` exactly when it has one.
pub proof fn create_body_members(name: Seq<char>, variable_type: Seq<char>, parameter: Option<Json>)
    ensures
        variable_create_body_of(name, variable_type, parameter).get("name"@) == Some(Json::Str(name)),
        variable_create_body_of(name, variable_type, parameter).get("type"@) == Some(
            Json::Str(variable_type),
        ),
        variable_create_body_of(name, variable_type, parameter).get("parameter"@) == parameter,
{
    reveal_strlit("name");
    reveal_strlit("type");
    reveal_strlit("parameter");
    assert("name"@[0] != "type"@[0]);
    assert("parameter"@.len() != "name"@.len() && "parameter"@.len() != "type"@.len());
    let fields = variable_create_body_of(name, variable_type, parameter)->Object_0;
    assert(fields[0] == ("name"@, Json::Str(name)) && fields[1] == ("type"@, Json::Str(variable_type)));
    lemma_lookup_at(fields, 0);
    lemma_lookup_at(fields, 1);
    match parameter {
        Some(p) => {
            assert(fields[2] == ("parameter"@, p));
            lemma_lookup_at(fields, 2);
        },
        None => {
            lemma_lookup_absent(fields, "parameter"@);
        },
    }
}

/// A variable's parameter list: the converted `--params` win over `--value`; a
/// value alone gives one parameter of type `template` with the value under the
/// given key; with neither there is none.
pub proof fn parameter_list_precedence(converted: Option<Json>, value: Option<Seq<char>>, key: Seq<char>)
    ensures
        converted matches Some(p) ==> variable_parameter_of(converted, value, key) == Some(p),
        converted is None && value is None ==> variable_parameter_of(converted, value, key) is None,
        value matches Some(v) ==> (converted is None ==> (variable_parameter_of(converted, value, key)
            matches Some(Json::Array(items)) && items.len() == 1 && items[0].get("type"@) == Some(
            Json::Str("template"@),
        ) && items[0].get("key"@) == Some(Json::Str(key)) && items[0].get("value"@) == Some(
            Json::Str(v),
        ))),
{
    reveal_strlit("type");
    reveal_strlit("key");
    reveal_strlit("value");
    assert("type"@[0] != "key"@[0] && "type"@[0] != "value"@[0] && "key"@[0] != "value"@[0]);
    if converted is None && value is Some {
        let v = value->0;
        lemma_lookup3("type"@, Json::Str("template"@), "key"@, Json::Str(key), "value"@, Json::Str(v));
    }
}

/// `doctor` is healthy exactly when every check has status `ok`: a check with any
/// other status, such as `warning` or `missing`, makes it unhealthy.
pub proof fn healthy_iff_every_check_ok(checks: Seq<CheckView>)
    ensures
        all_ok(checks) <==> forall|i: int| 0 <= i < checks.len() ==> #[trigger] checks[i].status == "ok"@,
        forall|i: int| 0 <= i < checks.len() && checks[i].status != "ok"@ ==> !all_ok(#[trigger] checks.take(i + 1)) && !all_ok(checks),
{
    assert forall|i: int| 0 <= i < checks.len() && checks[i].status != "ok"@ implies !all_ok(#[trigger] checks.take(i + 1)) && !all_ok(checks) by {
        assert(checks.take(i + 1)[i] == checks[i]);
    }
}

/// On the gathered facts, `doctor` is healthy exactly when the credentials file and
/// the token are found and an account is set by the configuration file or by
/// `GTM_ACCOUNT_ID`; its JSON report and its table's last line say so.
pub proof fn doctor_healthy_exactly_when_set_up(f: DoctorFacts)
    ensures
        all_ok(doctor_checks_of(f)) <==> f.credentials_found && f.token_found && (has_default_account(
            opt_string_view(f.config_text),
        ) || f.env_account_set),
        doctor_report_of(doctor_checks_of(f)).get("healthy"@) == Some(
            Json::Bool(
                f.credentials_found && f.token_found && (has_default_account(opt_string_view(f.config_text))
                    || f.env_account_set),
            ),
        ),
        doctor_lines_of(doctor_checks_of(f)).last() == if f.credentials_found && f.token_found && (
        has_default_account(opt_string_view(f.config_text)) || f.env_account_set) {
            "All checks passed."@
        } else {
            "Some checks need attention."@
        },
{
    reveal_strlit("ok");
    reveal_strlit("missing");
    reveal_strlit("warning");
    assert("missing"@.len() != "ok"@.len() && "warning"@.len() != "ok"@.len());
    let checks = doctor_checks_of(f);
    let set_up = has_default_account(opt_string_view(f.config_text)) || f.env_account_set;
    assert(checks.len() == 4);
    assert(checks[0].status == if f.credentials_found { "ok"@ } else { "missing"@ });
    assert(checks[1].status == if f.token_found { "ok"@ } else { "missing"@ });
    assert(checks[2].status == if set_up { "ok"@ } else { "warning"@ });
    assert(checks[3].status == "ok"@);
    if f.credentials_found && f.token_found && set_up {
        assert forall|i: int| 0 <= i < checks.len() implies #[trigger] checks[i].status == "ok"@ by {
            assert(i == 0 || i == 1 || i == 2 || i == 3);
        }
    }
    doctor_outputs_agree(checks);
}

} // verus!
