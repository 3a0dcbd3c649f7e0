use vstd::prelude::*;

use vstd::utf8::{decode_utf8, encode_utf8, encode_utf8_decode_utf8, is_char_boundary};

use crate::json::{compact_json_text, lemma_models_of, models_of, Json, JsonValue};
use crate::refs::{extract_variable_refs, variable_refs};
use crate::text::{decimal, decimal_string, str_eq, views};

verus! {

/// The arguments of `explain`: the tag to explain, whether to list the other tags
/// that share its triggers, and where the tag lives.
pub struct ExplainArgs {
    pub tag_id: String,
    pub reverse: bool,
    pub account_id: String,
    pub container_id: String,
    pub workspace_id: Option<String>,
}

/// A condition of a trigger: `variable operator value`.
pub struct Condition {
    pub variable: String,
    pub operator: String,
    pub value: String,
}

/// Another tag that uses a trigger.
pub struct SharedTag {
    pub id: String,
    pub name: String,
    pub tag_type: String,
}

pub struct ConditionView {
    pub variable: Seq<char>,
    pub operator: Seq<char>,
    pub value: Seq<char>,
}

pub struct SharedTagView {
    pub id: Seq<char>,
    pub name: Seq<char>,
    pub tag_type: Seq<char>,
}

impl View for Condition {
    type V = ConditionView;

    open spec fn view(&self) -> ConditionView {
        ConditionView { variable: self.variable@, operator: self.operator@, value: self.value@ }
    }
}

impl View for SharedTag {
    type V = SharedTagView;

    open spec fn view(&self) -> SharedTagView {
        SharedTagView { id: self.id@, name: self.name@, tag_type: self.tag_type@ }
    }
}

pub open spec fn condition_views(s: Seq<Condition>) -> Seq<ConditionView> {
    s.map_values(|c: Condition| c@)
}

pub open spec fn shared_tag_views(s: Seq<SharedTag>) -> Seq<SharedTagView> {
    s.map_values(|t: SharedTag| t@)
}

/// The string member `key` of a value, or `-`.
pub open spec fn str_field_of(v: Json, key: Seq<char>) -> Seq<char> {
    match v.str_member(key) {
        Some(s) => s,
        None => "-"@,
    }
}

/// The string member `key` of a value, or the empty text.
pub open spec fn str_or_empty(v: Json, key: Seq<char>) -> Seq<char> {
    match v.str_member(key) {
        Some(s) => s,
        None => seq![],
    }
}

/// The strings among `items`, in order.
pub open spec fn strings_in(items: Seq<Json>) -> Seq<Seq<char>>
    decreases items.len(),
{
    if items.len() == 0 {
        seq![]
    } else {
        let prev = strings_in(items.drop_last());
        match items.last() {
            Json::Str(s) => prev.push(s),
            _ => prev,
        }
    }
}

/// The items of the array member `key`, or none.
pub open spec fn list_member(v: Json, key: Seq<char>) -> Seq<Json> {
    match v.array_member(key) {
        Some(items) => items,
        None => seq![],
    }
}

/// The strings in the array member `key` of a value.
pub open spec fn id_array_of(v: Json, key: Seq<char>) -> Seq<Seq<char>> {
    strings_in(list_member(v, key))
}

/// The string member `key` of a value, or `-`.
pub fn str_field(value: &JsonValue, key: &str) -> (r: String)
    ensures
        r@ == str_field_of(value@, key@),
{
    match value.get(key) {
        Some(v) => match v.as_str() {
            Some(s) => s.to_owned(),
            None => "-".to_owned(),
        },
        None => "-".to_owned(),
    }
}

/// The string member `key` of a value, or the empty text.
fn str_member_or_empty<'a>(value: &'a JsonValue, key: &str) -> (r: &'a str)
    ensures
        r@ == str_or_empty(value@, key@),
{
    match value.get(key) {
        Some(v) => match v.as_str() {
            Some(s) => s,
            None => {
                assert(""@ =~= Seq::<char>::empty()) by {
                    reveal_strlit("");
                }
                ""
            },
        },
        None => {
            assert(""@ =~= Seq::<char>::empty()) by {
                reveal_strlit("");
            }
            ""
        },
    }
}

/// The items of the array member `key` of a value, if it is an array.
pub fn array_member<'a>(value: &'a JsonValue, key: &str) -> (r: Option<&'a Vec<JsonValue>>)
    ensures
        match r {
            Some(items) => value@.array_member(key@) == Some(models_of(items@)),
            None => value@.array_member(key@) is None,
        },
{
    match value.get(key) {
        Some(v) => v.as_array(),
        None => None,
    }
}

fn strings_of(items: &Vec<JsonValue>) -> (r: Vec<String>)
    ensures
        views(r@) == strings_in(models_of(items@)),
{
    proof {
        lemma_models_of(items@);
    }
    let mut r: Vec<String> = Vec::new();
    for i in 0..items.len()
        invariant
            models_of(items@).len() == items.len(),
            forall|k: int| 0 <= k < items.len() ==> #[trigger] models_of(items@)[k] == items@[k]@,
            views(r@) == strings_in(models_of(items@).take(i as int)),
    {
        let ghost m = models_of(items@);
        assert(m.take(i + 1).drop_last() =~= m.take(i as int));
        assert(m.take(i + 1).last() == items@[i as int]@);
        match items[i].as_str() {
            Some(s) => {
                let ghost prev = views(r@);
                r.push(s.to_owned());
                assert(views(r@) =~= prev.push(s@));
            },
            None => {},
        }
    }
    assert(models_of(items@).take(items.len() as int) =~= models_of(items@));
    r
}

/// The strings in the array member `key` of a value (an empty list when there is none).
pub fn id_array(value: &JsonValue, key: &str) -> (r: Vec<String>)
    ensures
        views(r@) == id_array_of(value@, key@),
{
    match array_member(value, key) {
        Some(items) => strings_of(items),
        None => {
            let r: Vec<String> = Vec::new();
            assert(views(r@) =~= Seq::<Seq<char>>::empty());
            r
        },
    }
}

/// The value of the last parameter named `arg` (by its `key` member), or the empty text.
pub open spec fn arg_value(params: Seq<Json>, arg: Seq<char>) -> Seq<char>
    decreases params.len(),
{
    if params.len() == 0 {
        seq![]
    } else if str_or_empty(params.last(), "key"@) == arg {
        str_or_empty(params.last(), "value"@)
    } else {
        arg_value(params.drop_last(), arg)
    }
}

/// The condition a trigger filter states, if its `arg0` names a variable.
pub open spec fn filter_condition(filter: Json) -> Option<ConditionView> {
    match filter.array_member("parameter"@) {
        Some(params) => {
            let variable = arg_value(params, "arg0"@);
            if variable.len() > 0 {
                Some(
                    ConditionView {
                        variable,
                        operator: match filter.str_member("type"@) {
                            Some(t) => t,
                            None => "equals"@,
                        },
                        value: arg_value(params, "arg1"@),
                    },
                )
            } else {
                None
            }
        },
        None => None,
    }
}

/// The conditions stated by a list of filters, in order.
pub open spec fn conditions_in(filters: Seq<Json>) -> Seq<ConditionView>
    decreases filters.len(),
{
    if filters.len() == 0 {
        seq![]
    } else {
        let prev = conditions_in(filters.drop_last());
        match filter_condition(filters.last()) {
            Some(c) => prev.push(c),
            None => prev,
        }
    }
}

/// The conditions of a trigger: those of its custom event filters, then of its
/// filters, then of its auto event filters.
pub open spec fn trigger_conditions(t: Json) -> Seq<ConditionView> {
    conditions_in(list_member(t, "customEventFilter"@)) + conditions_in(list_member(t, "filter"@))
        + conditions_in(list_member(t, "autoEventFilter"@))
}

fn arg_values(params: &Vec<JsonValue>) -> (r: (&str, &str))
    ensures
        r.0@ == arg_value(models_of(params@), "arg0"@),
        r.1@ == arg_value(models_of(params@), "arg1"@),
{
    proof {
        lemma_models_of(params@);
    }
    let mut variable: &str = "";
    let mut value: &str = "";
    proof {
        reveal_strlit("");
    }
    for i in 0..params.len()
        invariant
            models_of(params@).len() == params.len(),
            forall|k: int| 0 <= k < params.len() ==> #[trigger] models_of(params@)[k] == params@[k]@,
            variable@ == arg_value(models_of(params@).take(i as int), "arg0"@),
            value@ == arg_value(models_of(params@).take(i as int), "arg1"@),
    {
        let ghost m = models_of(params@);
        assert(m.take(i + 1).drop_last() =~= m.take(i as int));
        assert(m.take(i + 1).last() == params@[i as int]@);
        let key = str_member_or_empty(&params[i], "key");
        let val = str_member_or_empty(&params[i], "value");
        if str_eq(key, "arg0") {
            variable = val;
        } else if str_eq(key, "arg1") {
            value = val;
        }
        proof {
            reveal_strlit("arg0");
            reveal_strlit("arg1");
            assert("arg0"@[3] != "arg1"@[3]);
        }
    }
    assert(models_of(params@).take(params.len() as int) =~= models_of(params@));
    (variable, value)
}

fn condition_of_filter(filter: &JsonValue) -> (r: Option<Condition>)
    ensures
        match r {
            Some(c) => filter_condition(filter@) == Some(c@),
            None => filter_condition(filter@) is None,
        },
{
    match array_member(filter, "parameter") {
        Some(params) => {
            let (variable, value) = arg_values(params);
            if variable.is_empty() {
                None
            } else {
                let operator = match filter.get("type") {
                    Some(t) => match t.as_str() {
                        Some(s) => s.to_owned(),
                        None => "equals".to_owned(),
                    },
                    None => "equals".to_owned(),
                };
                Some(
                    Condition {
                        variable: variable.to_owned(),
                        operator,
                        value: value.to_owned(),
                    },
                )
            }
        },
        None => None,
    }
}

fn conditions_of_filters(filters: &Vec<JsonValue>, out: &mut Vec<Condition>)
    ensures
        condition_views(final(out)@) == condition_views(old(out)@) + conditions_in(models_of(filters@)),
{
    proof {
        lemma_models_of(filters@);
    }
    let ghost start = condition_views(out@);
    for i in 0..filters.len()
        invariant
            models_of(filters@).len() == filters.len(),
            forall|k: int| 0 <= k < filters.len() ==> #[trigger] models_of(filters@)[k] == filters@[k]@,
            condition_views(out@) == start + conditions_in(models_of(filters@).take(i as int)),
    {
        let ghost m = models_of(filters@);
        assert(m.take(i + 1).drop_last() =~= m.take(i as int));
        assert(m.take(i + 1).last() == filters@[i as int]@);
        let ghost prev = condition_views(out@);
        match condition_of_filter(&filters[i]) {
            Some(c) => {
                out.push(c);
                assert(condition_views(out@) =~= prev.push(c@));
            },
            None => {},
        }
        assert(start + conditions_in(m.take(i + 1)) =~= condition_views(out@));
    }
    assert(models_of(filters@).take(filters.len() as int) =~= models_of(filters@));
}

/// The conditions of a trigger, from its custom event filters, filters and auto
/// event filters in that order.
pub fn extract_conditions(trigger: &JsonValue) -> (r: Vec<Condition>)
    ensures
        condition_views(r@) == trigger_conditions(trigger@),
{
    let mut conditions: Vec<Condition> = Vec::new();
    assert(condition_views(conditions@) =~= Seq::<ConditionView>::empty());
    match array_member(trigger, "customEventFilter") {
        Some(filters) => conditions_of_filters(filters, &mut conditions),
        None => {},
    }
    let ghost g1 = condition_views(conditions@);
    assert(g1 =~= conditions_in(list_member(trigger@, "customEventFilter"@)));
    match array_member(trigger, "filter") {
        Some(filters) => conditions_of_filters(filters, &mut conditions),
        None => {},
    }
    let ghost g2 = condition_views(conditions@);
    assert(g2 =~= g1 + conditions_in(list_member(trigger@, "filter"@)));
    match array_member(trigger, "autoEventFilter") {
        Some(filters) => conditions_of_filters(filters, &mut conditions),
        None => {},
    }
    assert(condition_views(conditions@) =~= g2 + conditions_in(list_member(trigger@, "autoEventFilter"@)));
    conditions
}

impl SharedTag {
    /// A copy of this tag's description.
    pub fn duplicate(&self) -> (r: SharedTag)
        ensures
            r@ == self@,
    {
        SharedTag { id: self.id.clone(), name: self.name.clone(), tag_type: self.tag_type.clone() }
    }
}

/// How a tag is described where it shares a trigger.
pub open spec fn shared_tag_of(tag: Json) -> SharedTagView {
    SharedTagView {
        id: str_field_of(tag, "tagId"@),
        name: str_field_of(tag, "name"@),
        tag_type: str_field_of(tag, "type"@),
    }
}

/// The triggers a tag names: its firing triggers, then its blocking triggers.
pub open spec fn tag_trigger_ids(tag: Json) -> Seq<Seq<char>> {
    id_array_of(tag, "firingTriggerId"@) + id_array_of(tag, "blockingTriggerId"@)
}

/// One entry (trigger, tag) for each trigger that a tag names.
pub open spec fn edges_of_tag(tag: Json) -> Seq<(Seq<char>, SharedTagView)> {
    tag_trigger_ids(tag).map_values(|id: Seq<char>| (id, shared_tag_of(tag)))
}

/// The (trigger, tag) entries of all tags but the one whose `tagId` is `exclude`,
/// tag by tag in order.
pub open spec fn reverse_edges(tags: Seq<Json>, exclude: Seq<char>) -> Seq<(Seq<char>, SharedTagView)>
    decreases tags.len(),
{
    if tags.len() == 0 {
        seq![]
    } else {
        reverse_edges(tags.drop_last(), exclude) + if str_field_of(tags.last(), "tagId"@) == exclude {
            seq![]
        } else {
            edges_of_tag(tags.last())
        }
    }
}

/// The tags recorded for trigger `id`, in the order in which they were recorded.
pub open spec fn shared_for(edges: Seq<(Seq<char>, SharedTagView)>, id: Seq<char>) -> Seq<SharedTagView>
    decreases edges.len(),
{
    if edges.len() == 0 {
        seq![]
    } else {
        let prev = shared_for(edges.drop_last(), id);
        if edges.last().0 == id {
            prev.push(edges.last().1)
        } else {
            prev
        }
    }
}

/// For each trigger, the other tags that use it.
pub struct ReverseIndex {
    pub edges: Vec<(String, SharedTag)>,
}

impl View for ReverseIndex {
    type V = Seq<(Seq<char>, SharedTagView)>;

    open spec fn view(&self) -> Seq<(Seq<char>, SharedTagView)> {
        self.edges@.map_values(|e: (String, SharedTag)| (e.0@, e.1@))
    }
}

impl ReverseIndex {
    /// The tags recorded for trigger `id` (none when it has no entry).
    pub fn shared_with(&self, id: &str) -> (r: Vec<SharedTag>)
        ensures
            shared_tag_views(r@) == shared_for(self@, id@),
    {
        let mut r: Vec<SharedTag> = Vec::new();
        for i in 0..self.edges.len()
            invariant
                shared_tag_views(r@) == shared_for(self@.take(i as int), id@),
                self@.len() == self.edges.len(),
        {
            let ghost e = self@;
            assert(e.take(i + 1).drop_last() =~= e.take(i as int));
            assert(e.take(i + 1).last() == e[i as int]);
            assert(e[i as int] == (self.edges@[i as int].0@, self.edges@[i as int].1@));
            if str_eq(self.edges[i].0.as_str(), id) {
                let ghost prev = shared_tag_views(r@);
                r.push(self.edges[i].1.duplicate());
                assert(shared_tag_views(r@) =~= prev.push(self.edges@[i as int].1@));
            }
        }
        assert(self@.take(self.edges.len() as int) =~= self@);
        r
    }
}

fn push_tag_edges(tag: &JsonValue, shared: &SharedTag, key: &str, edges: &mut Vec<(String, SharedTag)>)
    requires
        shared@ == shared_tag_of(tag@),
    ensures
        final(edges)@.map_values(|e: (String, SharedTag)| (e.0@, e.1@)) == old(edges)@.map_values(
            |e: (String, SharedTag)| (e.0@, e.1@),
        ) + id_array_of(tag@, key@).map_values(|id: Seq<char>| (id, shared_tag_of(tag@))),
{
    let ids = id_array(tag, key);
    let ghost start = edges@.map_values(|e: (String, SharedTag)| (e.0@, e.1@));
    for i in 0..ids.len()
        invariant
            shared@ == shared_tag_of(tag@),
            views(ids@) == id_array_of(tag@, key@),
            edges@.map_values(|e: (String, SharedTag)| (e.0@, e.1@)) == start + views(ids@).take(
                i as int,
            ).map_values(|id: Seq<char>| (id, shared_tag_of(tag@))),
    {
        let ghost prev = edges@.map_values(|e: (String, SharedTag)| (e.0@, e.1@));
        edges.push((ids[i].clone(), shared.duplicate()));
        assert(edges@.map_values(|e: (String, SharedTag)| (e.0@, e.1@)) =~= prev.push(
            (ids@[i as int]@, shared_tag_of(tag@)),
        ));
        assert(views(ids@).take(i + 1).map_values(|id: Seq<char>| (id, shared_tag_of(tag@)))
            =~= views(ids@).take(i as int).map_values(|id: Seq<char>| (id, shared_tag_of(tag@))).push(
            (ids@[i as int]@, shared_tag_of(tag@)),
        ));
    }
    assert(views(ids@).take(ids.len() as int) =~= views(ids@));
}

/// Records, for each trigger named by a tag in `tags_data` (its `tag` array), the
/// tags that use it, leaving out the tag whose id is `exclude_tag_id`.
pub fn build_reverse_map(tags_data: &JsonValue, exclude_tag_id: &str) -> (r: ReverseIndex)
    ensures
        r@ == reverse_edges(list_member(tags_data@, "tag"@), exclude_tag_id@),
{
    let mut edges: Vec<(String, SharedTag)> = Vec::new();
    let ghost tags = list_member(tags_data@, "tag"@);
    match array_member(tags_data, "tag") {
        Some(items) => {
            proof {
                lemma_models_of(items@);
            }
            for i in 0..items.len()
                invariant
                    tags == models_of(items@),
                    tags.len() == items.len(),
                    forall|k: int| 0 <= k < items.len() ==> #[trigger] tags[k] == items@[k]@,
                    edges@.map_values(|e: (String, SharedTag)| (e.0@, e.1@)) == reverse_edges(
                        tags.take(i as int),
                        exclude_tag_id@,
                    ),
            {
                assert(tags.take(i + 1).drop_last() =~= tags.take(i as int));
                assert(tags.take(i + 1).last() == items@[i as int]@);
                let tag = &items[i];
                let tid = str_field(tag, "tagId");
                if str_eq(tid.as_str(), exclude_tag_id) {
                    assert(reverse_edges(tags.take(i + 1), exclude_tag_id@) =~= reverse_edges(
                        tags.take(i as int),
                        exclude_tag_id@,
                    ));
                } else {
                    let shared = SharedTag {
                        id: tid,
                        name: str_field(tag, "name"),
                        tag_type: str_field(tag, "type"),
                    };
                    let ghost before = edges@.map_values(|e: (String, SharedTag)| (e.0@, e.1@));
                    push_tag_edges(tag, &shared, "firingTriggerId", &mut edges);
                    push_tag_edges(tag, &shared, "blockingTriggerId", &mut edges);
                    assert(edges_of_tag(tag@) =~= id_array_of(tag@, "firingTriggerId"@).map_values(
                        |id: Seq<char>| (id, shared_tag_of(tag@)),
                    ) + id_array_of(tag@, "blockingTriggerId"@).map_values(
                        |id: Seq<char>| (id, shared_tag_of(tag@)),
                    ));
                    assert(edges@.map_values(|e: (String, SharedTag)| (e.0@, e.1@)) =~= before
                        + edges_of_tag(tag@));
                }
            }
            assert(tags.take(items.len() as int) =~= tags);
        },
        None => {
            assert(edges@.map_values(|e: (String, SharedTag)| (e.0@, e.1@)) =~= Seq::<
                (Seq<char>, SharedTagView),
            >::empty());
        },
    }
    ReverseIndex { edges }
}

/// The last of `items` whose string member `field` is `value`.
pub open spec fn last_with(items: Seq<Json>, field: Seq<char>, value: Seq<char>) -> Option<Json>
    decreases items.len(),
{
    if items.len() == 0 {
        None
    } else if items.last().str_member(field) == Some(value) {
        Some(items.last())
    } else {
        last_with(items.drop_last(), field, value)
    }
}

/// The last of `items` whose string member `field` is `value`.
pub fn find_last_with<'a>(items: &'a Vec<JsonValue>, field: &str, value: &str) -> (r: Option<
    &'a JsonValue,
>)
    ensures
        crate::json::opt_model(r) == last_with(models_of(items@), field@, value@),
{
    proof {
        lemma_models_of(items@);
    }
    let ghost m = models_of(items@);
    let mut k: usize = items.len();
    assert(m.take(k as int) =~= m);
    while k > 0
        invariant
            m == models_of(items@),
            m.len() == items.len(),
            forall|j: int| 0 <= j < items.len() ==> #[trigger] m[j] == items@[j]@,
            k <= items.len(),
            last_with(m, field@, value@) == last_with(m.take(k as int), field@, value@),
        decreases k,
    {
        assert(m.take(k as int).drop_last() =~= m.take(k - 1));
        assert(m.take(k as int).last() == items@[k - 1]@);
        let candidate = &items[k - 1];
        match candidate.get(field) {
            Some(v) => match v.as_str() {
                Some(s) => {
                    if str_eq(s, value) {
                        return Some(candidate);
                    }
                },
                None => {},
            },
            None => {},
        }
        k = k - 1;
    }
    None
}

/// What `explain` reports of one trigger of the tag.
pub struct TriggerInfo {
    pub id: String,
    pub name: String,
    pub trigger_type: String,
    pub conditions: Vec<Condition>,
    pub shared_by: Vec<SharedTag>,
}

pub struct TriggerView {
    pub id: Seq<char>,
    pub name: Seq<char>,
    pub trigger_type: Seq<char>,
    pub conditions: Seq<ConditionView>,
    pub shared_by: Seq<SharedTagView>,
}

impl View for TriggerInfo {
    type V = TriggerView;

    open spec fn view(&self) -> TriggerView {
        TriggerView {
            id: self.id@,
            name: self.name@,
            trigger_type: self.trigger_type@,
            conditions: condition_views(self.conditions@),
            shared_by: shared_tag_views(self.shared_by@),
        }
    }
}

pub open spec fn trigger_views(s: Seq<TriggerInfo>) -> Seq<TriggerView> {
    s.map_values(|t: TriggerInfo| t@)
}

/// Trigger `id` as `explain` reports it: the last trigger with that id among
/// `triggers` gives its name, type and conditions; an id that no trigger has is
/// reported as `(unknown)` of type `-`. `shared_by` lists the other tags using it.
pub open spec fn resolved_trigger(
    id: Seq<char>,
    triggers: Seq<Json>,
    edges: Seq<(Seq<char>, SharedTagView)>,
) -> TriggerView {
    match last_with(triggers, "triggerId"@, id) {
        Some(t) => TriggerView {
            id,
            name: str_field_of(t, "name"@),
            trigger_type: str_field_of(t, "type"@),
            conditions: trigger_conditions(t),
            shared_by: shared_for(edges, id),
        },
        None => TriggerView {
            id,
            name: "(unknown)"@,
            trigger_type: "-"@,
            conditions: seq![],
            shared_by: shared_for(edges, id),
        },
    }
}

/// Describes trigger `id` from the workspace's triggers and the reverse index.
pub fn resolve_trigger(id: &str, triggers: &Vec<JsonValue>, reverse_map: &ReverseIndex) -> (r:
    TriggerInfo)
    ensures
        r@ == resolved_trigger(id@, models_of(triggers@), reverse_map@),
{
    let shared_by = reverse_map.shared_with(id);
    match find_last_with(triggers, "triggerId", id) {
        Some(t) => TriggerInfo {
            id: id.to_owned(),
            name: str_field(t, "name"),
            trigger_type: str_field(t, "type"),
            conditions: extract_conditions(t),
            shared_by,
        },
        None => {
            let conditions: Vec<Condition> = Vec::new();
            assert(condition_views(conditions@) =~= Seq::<ConditionView>::empty());
            TriggerInfo {
                id: id.to_owned(),
                name: "(unknown)".to_owned(),
                trigger_type: "-".to_owned(),
                conditions,
                shared_by,
            }
        },
    }
}

/// A variable that the tag refers to.
pub struct VarInfo {
    pub name: String,
    pub var_type: String,
    pub id: String,
}

pub struct VarView {
    pub name: Seq<char>,
    pub var_type: Seq<char>,
    pub id: Seq<char>,
}

impl View for VarInfo {
    type V = VarView;

    open spec fn view(&self) -> VarView {
        VarView { name: self.name@, var_type: self.var_type@, id: self.id@ }
    }
}

pub open spec fn var_views(s: Seq<VarInfo>) -> Seq<VarView> {
    s.map_values(|v: VarInfo| v@)
}

/// Variable `name` as `explain` reports it: the last workspace variable of that name
/// gives its type and id; a name that no variable has is a built-in variable.
pub open spec fn var_info_of(name: Seq<char>, vars: Seq<Json>) -> VarView {
    match last_with(vars, "name"@, name) {
        Some(v) => VarView {
            name,
            var_type: str_field_of(v, "type"@),
            id: str_field_of(v, "variableId"@),
        },
        None => VarView { name, var_type: "built-in"@, id: "-"@ },
    }
}

fn var_info(name: &String, vars: &Vec<JsonValue>) -> (r: VarInfo)
    ensures
        r@ == var_info_of(name@, models_of(vars@)),
{
    match find_last_with(vars, "name", name.as_str()) {
        Some(v) => VarInfo {
            name: name.clone(),
            var_type: str_field(v, "type"),
            id: str_field(v, "variableId"),
        },
        None => VarInfo { name: name.clone(), var_type: "built-in".to_owned(), id: "-".to_owned() },
    }
}

/// The length of a text in UTF-8 bytes.
pub open spec fn utf8_len(s: Seq<char>) -> nat {
    encode_utf8(s).len()
}

/// An HTML parameter as `explain` shows it: longer than 80 bytes, it is cut to its
/// first 80 bytes and followed by `... (<length in bytes> chars)`.
pub open spec fn html_preview(v: Seq<char>) -> Seq<char> {
    if utf8_len(v) > 80 {
        decode_utf8(encode_utf8(v).take(80)) + "... ("@ + decimal(utf8_len(v)) + " chars)"@
    } else {
        v
    }
}

/// An HTML text can be cut after its first 80 bytes: it is no longer than that,
/// or a character ends there.
pub open spec fn html_cut_ok(v: Seq<char>) -> bool {
    utf8_len(v) > 80 ==> is_char_boundary(encode_utf8(v), 80)
}

/// The (key, value) pairs of a tag's parameters, in order: a parameter without a
/// key is left out, and an `html` one is shown as its preview.
pub open spec fn key_params(params: Seq<Json>) -> Seq<(Seq<char>, Seq<char>)>
    decreases params.len(),
{
    if params.len() == 0 {
        seq![]
    } else {
        let prev = key_params(params.drop_last());
        let key = str_or_empty(params.last(), "key"@);
        let value = str_or_empty(params.last(), "value"@);
        if key == "html"@ {
            prev.push((key, html_preview(value)))
        } else if key.len() == 0 {
            prev
        } else {
            prev.push((key, value))
        }
    }
}

/// Every `html` parameter of a tag can be cut for its preview.
pub open spec fn html_params_cut_ok(tag: Json) -> bool {
    forall|i: int|
        0 <= i < list_member(tag, "parameter"@).len() && str_or_empty(
            #[trigger] list_member(tag, "parameter"@)[i],
            "key"@,
        ) == "html"@ ==> html_cut_ok(str_or_empty(list_member(tag, "parameter"@)[i], "value"@))
}

pub open spec fn pair_views(s: Seq<(String, String)>) -> Seq<(Seq<char>, Seq<char>)> {
    s.map_values(|p: (String, String)| (p.0@, p.1@))
}

fn html_preview_text(value: &str) -> (r: String)
    requires
        html_cut_ok(value@),
    ensures
        r@ == html_preview(value@),
{
    let n = value.as_bytes().len();
    if n > 80 {
        let (head, _) = value.split_at(80);
        proof {
            encode_utf8_decode_utf8(head@);
        }
        let mut r = head.to_owned();
        r.append("... (");
        let count = decimal_string(n as u64);
        r.append(count.as_str());
        r.append(" chars)");
        r
    } else {
        value.to_owned()
    }
}

/// The parameters of a tag as `explain` lists them.
pub fn extract_key_params(tag: &JsonValue) -> (r: Vec<(String, String)>)
    requires
        html_params_cut_ok(tag@),
    ensures
        pair_views(r@) == key_params(list_member(tag@, "parameter"@)),
{
    let mut result: Vec<(String, String)> = Vec::new();
    match array_member(tag, "parameter") {
        Some(params) => {
            proof {
                lemma_models_of(params@);
                reveal_strlit("html");
                reveal_strlit("");
            }
            let ghost m = models_of(params@);
            for i in 0..params.len()
                invariant
                    m == models_of(params@),
                    m == list_member(tag@, "parameter"@),
                    m.len() == params.len(),
                    forall|k: int| 0 <= k < params.len() ==> #[trigger] m[k] == params@[k]@,
                    html_params_cut_ok(tag@),
                    pair_views(result@) == key_params(m.take(i as int)),
            {
                assert(m.take(i + 1).drop_last() =~= m.take(i as int));
                assert(m.take(i + 1).last() == params@[i as int]@);
                let key = str_member_or_empty(&params[i], "key");
                let value = str_member_or_empty(&params[i], "value");
                let ghost prev = pair_views(result@);
                if str_eq(key, "html") {
                    assert(str_or_empty(m[i as int], "key"@) == "html"@);
                    let preview = html_preview_text(value);
                    result.push((key.to_owned(), preview));
                    assert(pair_views(result@) =~= prev.push((key@, html_preview(value@))));
                } else if key.is_empty() {
                } else {
                    result.push((key.to_owned(), value.to_owned()));
                    assert(pair_views(result@) =~= prev.push((key@, value@)));
                }
            }
            assert(m.take(params.len() as int) =~= m);
        },
        None => {},
    }
    assert(pair_views(result@) =~= key_params(list_member(tag@, "parameter"@))) by {
        if list_member(tag@, "parameter"@).len() == 0 {
        }
    }
    result
}

/// What `explain` reports of a tag.
pub struct Explanation {
    pub tag_id: String,
    pub tag_name: String,
    pub tag_type: String,
    pub parameters: Vec<(String, String)>,
    pub firing: Vec<TriggerInfo>,
    pub blocking: Vec<TriggerInfo>,
    pub variables: Vec<VarInfo>,
}

pub struct ExplanationView {
    pub tag_id: Seq<char>,
    pub tag_name: Seq<char>,
    pub tag_type: Seq<char>,
    pub parameters: Seq<(Seq<char>, Seq<char>)>,
    pub firing: Seq<TriggerView>,
    pub blocking: Seq<TriggerView>,
    pub variables: Seq<VarView>,
}

impl View for Explanation {
    type V = ExplanationView;

    open spec fn view(&self) -> ExplanationView {
        ExplanationView {
            tag_id: self.tag_id@,
            tag_name: self.tag_name@,
            tag_type: self.tag_type@,
            parameters: pair_views(self.parameters@),
            firing: trigger_views(self.firing@),
            blocking: trigger_views(self.blocking@),
            variables: var_views(self.variables@),
        }
    }
}

/// The reverse index `explain` uses: the tags sharing each trigger when `reverse`
/// is asked for, and none otherwise.
pub open spec fn explain_edges(tag: Json, tags_data: Json, reverse: bool) -> Seq<(Seq<char>, SharedTagView)> {
    if reverse {
        reverse_edges(list_member(tags_data, "tag"@), str_field_of(tag, "tagId"@))
    } else {
        seq![]
    }
}

/// The triggers named by member `key` of a tag, each resolved.
pub open spec fn resolved_triggers(
    ids: Seq<Seq<char>>,
    triggers: Seq<Json>,
    edges: Seq<(Seq<char>, SharedTagView)>,
) -> Seq<TriggerView> {
    ids.map_values(|id: Seq<char>| resolved_trigger(id, triggers, edges))
}

/// What `explain` reports of `tag`, given the workspace's triggers (`trigger`
/// array of `triggers_data`), variables (`variable` array of `variables_data`)
/// and, for `reverse`, tags (`tag` array of `tags_data`). The variables are those
/// that the tag's compact JSON text refers to as `{{name}}`.
pub open spec fn explanation_of(
    tag: Json,
    triggers_data: Json,
    variables_data: Json,
    tags_data: Json,
    reverse: bool,
) -> ExplanationView {
    let triggers = list_member(triggers_data, "trigger"@);
    let edges = explain_edges(tag, tags_data, reverse);
    let vars = list_member(variables_data, "variable"@);
    ExplanationView {
        tag_id: str_field_of(tag, "tagId"@),
        tag_name: str_field_of(tag, "name"@),
        tag_type: str_field_of(tag, "type"@),
        parameters: key_params(list_member(tag, "parameter"@)),
        firing: resolved_triggers(id_array_of(tag, "firingTriggerId"@), triggers, edges),
        blocking: resolved_triggers(id_array_of(tag, "blockingTriggerId"@), triggers, edges),
        variables: variable_refs(compact_json_text(tag)).map_values(
            |name: Seq<char>| var_info_of(name, vars),
        ),
    }
}

fn resolve_triggers(ids: &Vec<String>, triggers: &Vec<JsonValue>, reverse_map: &ReverseIndex) -> (r:
    Vec<TriggerInfo>)
    ensures
        trigger_views(r@) == resolved_triggers(views(ids@), models_of(triggers@), reverse_map@),
{
    let mut r: Vec<TriggerInfo> = Vec::new();
    for i in 0..ids.len()
        invariant
            trigger_views(r@) == resolved_triggers(
                views(ids@).take(i as int),
                models_of(triggers@),
                reverse_map@,
            ),
    {
        let ghost prev = trigger_views(r@);
        let t = resolve_trigger(ids[i].as_str(), triggers, reverse_map);
        r.push(t);
        assert(trigger_views(r@) =~= prev.push(t@));
        assert(views(ids@).take(i + 1) =~= views(ids@).take(i as int).push(ids@[i as int]@));
        assert(resolved_triggers(views(ids@).take(i + 1), models_of(triggers@), reverse_map@)
            =~= resolved_triggers(views(ids@).take(i as int), models_of(triggers@), reverse_map@).push(
            t@,
        ));
    }
    assert(views(ids@).take(ids.len() as int) =~= views(ids@));
    r
}

fn items_or_empty(data: &JsonValue, key: &str) -> (r: Vec<JsonValue>)
    ensures
        models_of(r@) == list_member(data@, key@),
{
    match array_member(data, key) {
        Some(items) => {
            let mut r: Vec<JsonValue> = Vec::new();
            proof {
                lemma_models_of(items@);
            }
            for i in 0..items.len()
                invariant
                    models_of(items@).len() == items.len(),
                    forall|k: int| 0 <= k < items.len() ==> #[trigger] models_of(items@)[k] == items@[k]@,
                    r@.len() == i,
                    forall|k: int| 0 <= k < i ==> #[trigger] r@[k]@ == items@[k]@,
            {
                r.push(items[i].deep_clone());
            }
            proof {
                lemma_models_of(r@);
            }
            assert(models_of(r@) =~= models_of(items@));
            r
        },
        None => {
            let r: Vec<JsonValue> = Vec::new();
            assert(models_of(r@) =~= Seq::<Json>::empty());
            r
        },
    }
}

/// Explains a tag: its parameters, its firing and blocking triggers with their
/// conditions (and, with `args.reverse`, the other tags sharing them), and the
/// variables it refers to.
pub fn explain(
    args: &ExplainArgs,
    tag: &JsonValue,
    triggers_data: &JsonValue,
    variables_data: &JsonValue,
    tags_data: &JsonValue,
) -> (r: Explanation)
    requires
        html_params_cut_ok(tag@),
    ensures
        r@ == explanation_of(tag@, triggers_data@, variables_data@, tags_data@, args.reverse),
{
    let tag_name = str_field(tag, "name");
    let tag_type = str_field(tag, "type");
    let tag_id = str_field(tag, "tagId");
    let triggers = items_or_empty(triggers_data, "trigger");
    let reverse_map = if args.reverse {
        build_reverse_map(tags_data, tag_id.as_str())
    } else {
        let r = ReverseIndex { edges: Vec::new() };
        assert(r@ =~= Seq::<(Seq<char>, SharedTagView)>::empty());
        r
    };
    let firing_ids = id_array(tag, "firingTriggerId");
    let firing = resolve_triggers(&firing_ids, &triggers, &reverse_map);
    let blocking_ids = id_array(tag, "blockingTriggerId");
    let blocking = resolve_triggers(&blocking_ids, &triggers, &reverse_map);
    let tag_json = tag.to_compact_string();
    let referenced = extract_variable_refs(tag_json.as_str());
    let all_variables = items_or_empty(variables_data, "variable");
    let mut variables: Vec<VarInfo> = Vec::new();
    for i in 0..referenced.len()
        invariant
            models_of(all_variables@) == list_member(variables_data@, "variable"@),
            var_views(variables@) == views(referenced@).take(i as int).map_values(
                |name: Seq<char>| var_info_of(name, list_member(variables_data@, "variable"@)),
            ),
    {
        let ghost prev = var_views(variables@);
        let v = var_info(&referenced[i], &all_variables);
        variables.push(v);
        assert(var_views(variables@) =~= prev.push(v@));
        assert(views(referenced@).take(i + 1) =~= views(referenced@).take(i as int).push(
            referenced@[i as int]@,
        ));
        assert(views(referenced@).take(i + 1).map_values(
            |name: Seq<char>| var_info_of(name, list_member(variables_data@, "variable"@)),
        ) =~= views(referenced@).take(i as int).map_values(
            |name: Seq<char>| var_info_of(name, list_member(variables_data@, "variable"@)),
        ).push(v@));
    }
    assert(views(referenced@).take(referenced.len() as int) =~= views(referenced@));
    let parameters = extract_key_params(tag);
    let r = Explanation { tag_id, tag_name, tag_type, parameters, firing, blocking, variables };
    assert(var_views(r.variables@) =~= variable_refs(compact_json_text(tag@)).map_values(
        |name: Seq<char>| var_info_of(name, list_member(variables_data@, "variable"@)),
    ));
    r
}

} // verus!
