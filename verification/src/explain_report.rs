use vstd::prelude::*;

use crate::explain::{
    condition_views, pair_views, shared_tag_views, trigger_views, var_views, Condition, ConditionView,
    Explanation, ExplanationView, SharedTag, SharedTagView, TriggerInfo, TriggerView, VarInfo, VarView,
};
use crate::json::{pretty_json_text, field_models_of, lemma_field_models_of, lemma_models_of, models_of, Json, JsonValue};
use crate::output::OutputFormat;
use crate::text::{str_eq, views};

verus! {

pub open spec fn condition_json(c: ConditionView) -> Json {
    Json::Object(
        seq![
            ("variable"@, Json::Str(c.variable)),
            ("operator"@, Json::Str(c.operator)),
            ("value"@, Json::Str(c.value)),
        ],
    )
}

pub open spec fn shared_tag_json(s: SharedTagView) -> Json {
    Json::Object(
        seq![("id"@, Json::Str(s.id)), ("name"@, Json::Str(s.name)), ("type"@, Json::Str(s.tag_type))],
    )
}

/// A trigger in `explain`'s JSON output; `sharedBy` appears only when other tags use it.
pub open spec fn trigger_json(t: TriggerView) -> Json {
    let base = seq![
        ("id"@, Json::Str(t.id)),
        ("name"@, Json::Str(t.name)),
        ("type"@, Json::Str(t.trigger_type)),
        ("conditions"@, Json::Array(t.conditions.map_values(|c: ConditionView| condition_json(c)))),
    ];
    if t.shared_by.len() > 0 {
        Json::Object(
            base.push(
                (
                    "sharedBy"@,
                    Json::Array(t.shared_by.map_values(|s: SharedTagView| shared_tag_json(s))),
                ),
            ),
        )
    } else {
        Json::Object(base)
    }
}

pub open spec fn param_json(p: (Seq<char>, Seq<char>)) -> Json {
    Json::Array(seq![Json::Str(p.0), Json::Str(p.1)])
}

pub open spec fn var_json(v: VarView) -> Json {
    Json::Object(
        seq![("name"@, Json::Str(v.name)), ("type"@, Json::Str(v.var_type)), ("id"@, Json::Str(v.id))],
    )
}

/// `explain`'s JSON output.
pub open spec fn explanation_json_of(e: ExplanationView) -> Json {
    Json::Object(
        seq![
            (
                "tag"@,
                Json::Object(
                    seq![
                        ("id"@, Json::Str(e.tag_id)),
                        ("name"@, Json::Str(e.tag_name)),
                        ("type"@, Json::Str(e.tag_type)),
                    ],
                ),
            ),
            ("parameters"@, Json::Array(e.parameters.map_values(|p: (Seq<char>, Seq<char>)| param_json(p)))),
            ("firingTriggers"@, Json::Array(e.firing.map_values(|t: TriggerView| trigger_json(t)))),
            ("blockingTriggers"@, Json::Array(e.blocking.map_values(|t: TriggerView| trigger_json(t)))),
            ("referencedVariables"@, Json::Array(e.variables.map_values(|v: VarView| var_json(v)))),
        ],
    )
}

fn object3(k0: &str, v0: &str, k1: &str, v1: &str, k2: &str, v2: &str) -> (r: JsonValue)
    ensures
        r@ == Json::Object(
            seq![(k0@, Json::Str(v0@)), (k1@, Json::Str(v1@)), (k2@, Json::Str(v2@))],
        ),
{
    let fields = vec![
        (k0.to_owned(), JsonValue::string(v0)),
        (k1.to_owned(), JsonValue::string(v1)),
        (k2.to_owned(), JsonValue::string(v2)),
    ];
    proof {
        lemma_field_models_of(fields@);
    }
    assert(field_models_of(fields@) =~= seq![
        (k0@, Json::Str(v0@)),
        (k1@, Json::Str(v1@)),
        (k2@, Json::Str(v2@)),
    ]);
    JsonValue::Object(fields)
}

fn condition_to_json(c: &Condition) -> (r: JsonValue)
    ensures
        r@ == condition_json(c@),
{
    object3(
        "variable",
        c.variable.as_str(),
        "operator",
        c.operator.as_str(),
        "value",
        c.value.as_str(),
    )
}

fn shared_tag_to_json(s: &SharedTag) -> (r: JsonValue)
    ensures
        r@ == shared_tag_json(s@),
{
    object3("id", s.id.as_str(), "name", s.name.as_str(), "type", s.tag_type.as_str())
}

fn var_to_json(v: &VarInfo) -> (r: JsonValue)
    ensures
        r@ == var_json(v@),
{
    object3("name", v.name.as_str(), "type", v.var_type.as_str(), "id", v.id.as_str())
}

fn param_to_json(p: &(String, String)) -> (r: JsonValue)
    ensures
        r@ == param_json((p.0@, p.1@)),
{
    let items = vec![JsonValue::string(p.0.as_str()), JsonValue::string(p.1.as_str())];
    proof {
        lemma_models_of(items@);
    }
    assert(models_of(items@) =~= seq![Json::Str(p.0@), Json::Str(p.1@)]);
    JsonValue::Array(items)
}

fn conditions_to_json(cs: &Vec<Condition>) -> (r: JsonValue)
    ensures
        r@ == Json::Array(condition_views(cs@).map_values(|c: ConditionView| condition_json(c))),
{
    let mut items: Vec<JsonValue> = Vec::new();
    for i in 0..cs.len()
        invariant
            items@.len() == i,
            forall|k: int| 0 <= k < i ==> #[trigger] items@[k]@ == condition_json(cs@[k]@),
    {
        items.push(condition_to_json(&cs[i]));
    }
    proof {
        lemma_models_of(items@);
    }
    assert(models_of(items@) =~= condition_views(cs@).map_values(|c: ConditionView| condition_json(c)));
    JsonValue::Array(items)
}

fn shared_tags_to_json(ss: &Vec<SharedTag>) -> (r: JsonValue)
    ensures
        r@ == Json::Array(shared_tag_views(ss@).map_values(|s: SharedTagView| shared_tag_json(s))),
{
    let mut items: Vec<JsonValue> = Vec::new();
    for i in 0..ss.len()
        invariant
            items@.len() == i,
            forall|k: int| 0 <= k < i ==> #[trigger] items@[k]@ == shared_tag_json(ss@[k]@),
    {
        items.push(shared_tag_to_json(&ss[i]));
    }
    proof {
        lemma_models_of(items@);
    }
    assert(models_of(items@) =~= shared_tag_views(ss@).map_values(|s: SharedTagView| shared_tag_json(s)));
    JsonValue::Array(items)
}

fn trigger_to_json(t: &TriggerInfo) -> (r: JsonValue)
    ensures
        r@ == trigger_json(t@),
{
    let mut fields = vec![
        ("id".to_owned(), JsonValue::string(t.id.as_str())),
        ("name".to_owned(), JsonValue::string(t.name.as_str())),
        ("type".to_owned(), JsonValue::string(t.trigger_type.as_str())),
        ("conditions".to_owned(), conditions_to_json(&t.conditions)),
    ];
    let ghost base = fields@;
    if t.shared_by.len() > 0 {
        fields.push(("sharedBy".to_owned(), shared_tags_to_json(&t.shared_by)));
    }
    let ghost base_model = seq![
        ("id"@, Json::Str(t@.id)),
        ("name"@, Json::Str(t@.name)),
        ("type"@, Json::Str(t@.trigger_type)),
        ("conditions"@, Json::Array(t@.conditions.map_values(|c: ConditionView| condition_json(c)))),
    ];
    proof {
        lemma_field_models_of(fields@);
        lemma_field_models_of(base);
        assert(field_models_of(base) =~= base_model);
        if t.shared_by.len() > 0 {
            assert(field_models_of(fields@) =~= base_model.push(
                (
                    "sharedBy"@,
                    Json::Array(t@.shared_by.map_values(|s: SharedTagView| shared_tag_json(s))),
                ),
            ));
        } else {
            assert(field_models_of(fields@) =~= base_model);
        }
    }
    let r = JsonValue::Object(fields);
    r
}

fn triggers_to_json(ts: &Vec<TriggerInfo>) -> (r: JsonValue)
    ensures
        r@ == Json::Array(trigger_views(ts@).map_values(|t: TriggerView| trigger_json(t))),
{
    let mut items: Vec<JsonValue> = Vec::new();
    for i in 0..ts.len()
        invariant
            items@.len() == i,
            forall|k: int| 0 <= k < i ==> #[trigger] items@[k]@ == trigger_json(ts@[k]@),
    {
        items.push(trigger_to_json(&ts[i]));
    }
    proof {
        lemma_models_of(items@);
    }
    assert(models_of(items@) =~= trigger_views(ts@).map_values(|t: TriggerView| trigger_json(t)));
    JsonValue::Array(items)
}

/// `explain`'s JSON output for an explanation.
pub fn explanation_json(e: &Explanation) -> (r: JsonValue)
    ensures
        r@ == explanation_json_of(e@),
{
    let tag = object3("id", e.tag_id.as_str(), "name", e.tag_name.as_str(), "type", e.tag_type.as_str());
    let mut params: Vec<JsonValue> = Vec::new();
    for i in 0..e.parameters.len()
        invariant
            params@.len() == i,
            forall|k: int|
                0 <= k < i ==> #[trigger] params@[k]@ == param_json(
                    (e.parameters@[k].0@, e.parameters@[k].1@),
                ),
    {
        params.push(param_to_json(&e.parameters[i]));
    }
    let mut vars: Vec<JsonValue> = Vec::new();
    for i in 0..e.variables.len()
        invariant
            vars@.len() == i,
            forall|k: int| 0 <= k < i ==> #[trigger] vars@[k]@ == var_json(e.variables@[k]@),
    {
        vars.push(var_to_json(&e.variables[i]));
    }
    proof {
        lemma_models_of(params@);
        lemma_models_of(vars@);
    }
    assert(models_of(params@) =~= pair_views(e.parameters@).map_values(
        |p: (Seq<char>, Seq<char>)| param_json(p),
    ));
    assert(models_of(vars@) =~= var_views(e.variables@).map_values(|v: VarView| var_json(v)));
    let fields = vec![
        ("tag".to_owned(), tag),
        ("parameters".to_owned(), JsonValue::Array(params)),
        ("firingTriggers".to_owned(), triggers_to_json(&e.firing)),
        ("blockingTriggers".to_owned(), triggers_to_json(&e.blocking)),
        ("referencedVariables".to_owned(), JsonValue::Array(vars)),
    ];
    proof {
        lemma_field_models_of(fields@);
    }
    assert(field_models_of(fields@) =~= seq![
        (
            "tag"@,
            Json::Object(
                seq![
                    ("id"@, Json::Str(e@.tag_id)),
                    ("name"@, Json::Str(e@.tag_name)),
                    ("type"@, Json::Str(e@.tag_type)),
                ],
            ),
        ),
        ("parameters"@, Json::Array(e@.parameters.map_values(|p: (Seq<char>, Seq<char>)| param_json(p)))),
        ("firingTriggers"@, Json::Array(e@.firing.map_values(|t: TriggerView| trigger_json(t)))),
        ("blockingTriggers"@, Json::Array(e@.blocking.map_values(|t: TriggerView| trigger_json(t)))),
        ("referencedVariables"@, Json::Array(e@.variables.map_values(|v: VarView| var_json(v)))),
    ]);
    JsonValue::Object(fields)
}

/// `<indent>[<id>] <name> (<kind>)`.
pub open spec fn bracketed(indent: Seq<char>, id: Seq<char>, name: Seq<char>, kind: Seq<char>) -> Seq<char> {
    indent + "["@ + id + "] "@ + name + " ("@ + kind + ")"@
}

pub open spec fn condition_line(c: ConditionView) -> Seq<char> {
    "        Condition: "@ + c.variable + " "@ + c.operator + " "@ + c.value
}

pub open spec fn shared_tag_line(s: SharedTagView) -> Seq<char> {
    bracketed("          "@, s.id, s.name, s.tag_type)
}

/// The table lines of one trigger: its head line, its conditions, and the other
/// tags that use it, if any.
pub open spec fn trigger_lines(t: TriggerView) -> Seq<Seq<char>> {
    seq![bracketed("  "@, t.id, t.name, t.trigger_type)] + t.conditions.map_values(
        |c: ConditionView| condition_line(c),
    ) + if t.shared_by.len() > 0 {
        seq!["        Also used by:"@] + t.shared_by.map_values(|s: SharedTagView| shared_tag_line(s))
    } else {
        seq![]
    }
}

pub open spec fn lines_of_triggers(ts: Seq<TriggerView>) -> Seq<Seq<char>>
    decreases ts.len(),
{
    if ts.len() == 0 {
        seq![]
    } else {
        lines_of_triggers(ts.drop_last()) + trigger_lines(ts.last())
    }
}

/// A section of triggers in table output: a blank line and the title, then the
/// triggers, or `(none)`.
pub open spec fn triggers_section(title: Seq<char>, ts: Seq<TriggerView>) -> Seq<Seq<char>> {
    seq!["\n"@ + title + ":"@] + if ts.len() == 0 {
        seq!["  (none)"@]
    } else {
        lines_of_triggers(ts)
    }
}

fn push_line(out: &mut Vec<String>, line: String)
    ensures
        views(final(out)@) == views(old(out)@).push(line@),
{
    out.push(line);
    assert(views(out@) =~= views(old(out)@).push(line@));
}

fn append_lines(out: &mut Vec<String>, lines: Vec<String>)
    ensures
        views(final(out)@) == views(old(out)@) + views(lines@),
{
    let mut lines = lines;
    let ghost added = lines@;
    out.append(&mut lines);
    assert(views(out@) =~= views(old(out)@) + views(added));
}

fn bracketed_line(indent: &str, id: &str, name: &str, kind: &str) -> (r: String)
    ensures
        r@ == bracketed(indent@, id@, name@, kind@),
{
    let mut r = indent.to_owned();
    r.append("[");
    r.append(id);
    r.append("] ");
    r.append(name);
    r.append(" (");
    r.append(kind);
    r.append(")");
    r
}

fn trigger_lines_for(t: &TriggerInfo) -> (r: Vec<String>)
    ensures
        views(r@) == trigger_lines(t@),
{
    let mut r: Vec<String> = Vec::new();
    push_line(&mut r, bracketed_line("  ", t.id.as_str(), t.name.as_str(), t.trigger_type.as_str()));
    let ghost head = views(r@);
    for i in 0..t.conditions.len()
        invariant
            views(r@) == head + condition_views(t.conditions@).take(i as int).map_values(
                |c: ConditionView| condition_line(c),
            ),
    {
        let c = &t.conditions[i];
        let mut line = "        Condition: ".to_owned();
        line.append(c.variable.as_str());
        line.append(" ");
        line.append(c.operator.as_str());
        line.append(" ");
        line.append(c.value.as_str());
        push_line(&mut r, line);
        assert(condition_views(t.conditions@).take(i + 1).map_values(
            |c: ConditionView| condition_line(c),
        ) =~= condition_views(t.conditions@).take(i as int).map_values(
            |c: ConditionView| condition_line(c),
        ).push(condition_line(t.conditions@[i as int]@)));
    }
    assert(condition_views(t.conditions@).take(t.conditions.len() as int) =~= condition_views(
        t.conditions@,
    ));
    if t.shared_by.len() > 0 {
        push_line(&mut r, "        Also used by:".to_owned());
        let ghost head2 = views(r@);
        for i in 0..t.shared_by.len()
            invariant
                views(r@) == head2 + shared_tag_views(t.shared_by@).take(i as int).map_values(
                    |s: SharedTagView| shared_tag_line(s),
                ),
        {
            let s = &t.shared_by[i];
            push_line(
                &mut r,
                bracketed_line("          ", s.id.as_str(), s.name.as_str(), s.tag_type.as_str()),
            );
            assert(shared_tag_views(t.shared_by@).take(i + 1).map_values(
                |s: SharedTagView| shared_tag_line(s),
            ) =~= shared_tag_views(t.shared_by@).take(i as int).map_values(
                |s: SharedTagView| shared_tag_line(s),
            ).push(shared_tag_line(t.shared_by@[i as int]@)));
        }
        assert(shared_tag_views(t.shared_by@).take(t.shared_by.len() as int) =~= shared_tag_views(
            t.shared_by@,
        ));
        assert(views(r@) =~= trigger_lines(t@));
    } else {
        assert(views(r@) =~= trigger_lines(t@));
    }
    r
}

/// The table lines of a section of triggers (a title line, then each trigger with
/// its conditions and sharing tags, or `(none)`).
pub fn triggers_section_lines(title: &str, triggers: &Vec<TriggerInfo>) -> (r: Vec<String>)
    ensures
        views(r@) == triggers_section(title@, trigger_views(triggers@)),
{
    let mut r: Vec<String> = Vec::new();
    let mut head = "\n".to_owned();
    head.append(title);
    head.append(":");
    push_line(&mut r, head);
    if triggers.len() == 0 {
        push_line(&mut r, "  (none)".to_owned());
        assert(views(r@) =~= triggers_section(title@, trigger_views(triggers@)));
        return r;
    }
    let ghost first = views(r@);
    for i in 0..triggers.len()
        invariant
            views(r@) == first + lines_of_triggers(trigger_views(triggers@).take(i as int)),
    {
        let lines = trigger_lines_for(&triggers[i]);
        append_lines(&mut r, lines);
        assert(trigger_views(triggers@).take(i + 1).drop_last() =~= trigger_views(triggers@).take(
            i as int,
        ));
        assert(first + lines_of_triggers(trigger_views(triggers@).take(i as int)) + trigger_lines(
            triggers@[i as int]@,
        ) =~= first + lines_of_triggers(trigger_views(triggers@).take(i + 1)));
    }
    assert(trigger_views(triggers@).take(triggers.len() as int) =~= trigger_views(triggers@));
    r
}

pub open spec fn param_line(p: (Seq<char>, Seq<char>)) -> Seq<char> {
    "  "@ + p.0 + ": "@ + p.1
}

/// A referenced variable in table output; a built-in one (id `-`) shows its type only.
pub open spec fn var_line(v: VarView) -> Seq<char> {
    if v.id == "-"@ {
        "  {{"@ + v.name + "}} ("@ + v.var_type + ")"@
    } else {
        "  {{"@ + v.name + "}} (id: "@ + v.id + ", type: "@ + v.var_type + ")"@
    }
}

/// `explain`'s table output, line by line.
pub open spec fn explanation_lines_of(e: ExplanationView) -> Seq<Seq<char>> {
    seq!["Tag: "@ + e.tag_name + " (id: "@ + e.tag_id + ", type: "@ + e.tag_type + ")"@] + (if e.parameters.len() > 0 {
        seq!["\nParameters:"@] + e.parameters.map_values(|p: (Seq<char>, Seq<char>)| param_line(p))
    } else {
        seq![]
    }) + triggers_section("Firing Triggers"@, e.firing) + (if e.blocking.len() > 0 {
        triggers_section("Blocking Triggers"@, e.blocking)
    } else {
        seq![]
    }) + seq!["\nReferenced Variables:"@] + if e.variables.len() == 0 {
        seq!["  (none)"@]
    } else {
        e.variables.map_values(|v: VarView| var_line(v))
    }
}

/// `explain`'s table output for an explanation.
pub fn explanation_lines(e: &Explanation) -> (r: Vec<String>)
    ensures
        views(r@) == explanation_lines_of(e@),
{
    let mut r: Vec<String> = Vec::new();
    let mut first = "Tag: ".to_owned();
    first.append(e.tag_name.as_str());
    first.append(" (id: ");
    first.append(e.tag_id.as_str());
    first.append(", type: ");
    first.append(e.tag_type.as_str());
    first.append(")");
    push_line(&mut r, first);
    if e.parameters.len() > 0 {
        push_line(&mut r, "\nParameters:".to_owned());
        let ghost s1 = views(r@);
        for i in 0..e.parameters.len()
            invariant
                views(r@) == s1 + pair_views(e.parameters@).take(i as int).map_values(
                    |p: (Seq<char>, Seq<char>)| param_line(p),
                ),
        {
            let mut line = "  ".to_owned();
            line.append(e.parameters[i].0.as_str());
            line.append(": ");
            line.append(e.parameters[i].1.as_str());
            push_line(&mut r, line);
            assert(pair_views(e.parameters@).take(i + 1).map_values(
                |p: (Seq<char>, Seq<char>)| param_line(p),
            ) =~= pair_views(e.parameters@).take(i as int).map_values(
                |p: (Seq<char>, Seq<char>)| param_line(p),
            ).push(param_line((e.parameters@[i as int].0@, e.parameters@[i as int].1@))));
        }
        assert(pair_views(e.parameters@).take(e.parameters.len() as int) =~= pair_views(
            e.parameters@,
        ));
    }
    append_lines(&mut r, triggers_section_lines("Firing Triggers", &e.firing));
    if e.blocking.len() > 0 {
        append_lines(&mut r, triggers_section_lines("Blocking Triggers", &e.blocking));
    }
    push_line(&mut r, "\nReferenced Variables:".to_owned());
    let ghost s4 = views(r@);
    if e.variables.len() == 0 {
        push_line(&mut r, "  (none)".to_owned());
    } else {
        for i in 0..e.variables.len()
            invariant
                views(r@) == s4 + var_views(e.variables@).take(i as int).map_values(
                    |v: VarView| var_line(v),
                ),
        {
            let v = &e.variables[i];
            let mut line = "  {{".to_owned();
            line.append(v.name.as_str());
            if str_eq(v.id.as_str(), "-") {
                line.append("}} (");
                line.append(v.var_type.as_str());
                line.append(")");
            } else {
                line.append("}} (id: ");
                line.append(v.id.as_str());
                line.append(", type: ");
                line.append(v.var_type.as_str());
                line.append(")");
            }
            push_line(&mut r, line);
            assert(var_views(e.variables@).take(i + 1).map_values(|v: VarView| var_line(v))
                =~= var_views(e.variables@).take(i as int).map_values(|v: VarView| var_line(v)).push(
                var_line(e.variables@[i as int]@),
            ));
        }
        assert(var_views(e.variables@).take(e.variables.len() as int) =~= var_views(e.variables@));
    }
    assert(views(r@) =~= explanation_lines_of(e@));
    r
}

/// What `explain` prints: the indented JSON output, or the table lines.
pub open spec fn explain_output_of(e: ExplanationView, format: OutputFormat) -> Seq<Seq<char>> {
    match format {
        OutputFormat::Json => seq![pretty_json_text(explanation_json_of(e))],
        _ => explanation_lines_of(e),
    }
}

/// What `explain` prints for an explanation in the given output format.
pub fn explain_output(e: &Explanation, format: OutputFormat) -> (r: Vec<String>)
    ensures
        views(r@) == explain_output_of(e@, format),
{
    match format {
        OutputFormat::Json => {
            let r = vec![explanation_json(e).to_pretty_string()];
            assert(views(r@) =~= explain_output_of(e@, format));
            r
        },
        _ => explanation_lines(e),
    }
}

} // verus!
