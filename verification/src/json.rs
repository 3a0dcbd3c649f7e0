use vstd::prelude::*;

use crate::text::str_eq;

verus! {

#[verifier::external_type_specification]
#[verifier::external_body]
pub struct ExSerdeJsonValue(serde_json::Value);

#[verifier::external_type_specification]
#[verifier::external_body]
pub struct ExSerdeJsonError(serde_json::Error);

/// The mathematical model of a JSON document.
pub enum Json {
    Null,
    Bool(bool),
    /// A number, held as the text that a JSON writer prints for it.
    Number(Seq<char>),
    Str(Seq<char>),
    Array(Seq<Json>),
    /// An object, as its fields in the order held here (a member set anew goes at
    /// the end); serde_json orders the keys itself when it writes a document.
    Object(Seq<(Seq<char>, Json)>),
}

/// A JSON document as the library handles it.
#[derive(Debug)]
pub enum JsonValue {
    Null,
    Bool(bool),
    /// A number, held as the text that a JSON writer prints for it.
    Number(String),
    Str(String),
    Array(Vec<JsonValue>),
    /// An object, as its fields in the order held here (a member set anew goes at
    /// the end); serde_json orders the keys itself when it writes a document.
    Object(Vec<(String, JsonValue)>),
}

pub open spec fn model_of(v: JsonValue) -> Json
    decreases v, 0nat,
{
    match v {
        JsonValue::Null => Json::Null,
        JsonValue::Bool(b) => Json::Bool(b),
        JsonValue::Number(n) => Json::Number(n@),
        JsonValue::Str(s) => Json::Str(s@),
        JsonValue::Array(items) => Json::Array(models_of(items@)),
        JsonValue::Object(fields) => Json::Object(field_models_of(fields@)),
    }
}

pub open spec fn models_of(items: Seq<JsonValue>) -> Seq<Json>
    decreases items, 1nat,
{
    if items.len() == 0 {
        Seq::empty()
    } else {
        models_of(items.drop_last()).push(model_of(items.last()))
    }
}

pub open spec fn field_models_of(fields: Seq<(String, JsonValue)>) -> Seq<(Seq<char>, Json)>
    decreases fields, 1nat,
{
    if fields.len() == 0 {
        Seq::empty()
    } else {
        field_models_of(fields.drop_last()).push((fields.last().0@, model_of(fields.last().1)))
    }
}

impl View for JsonValue {
    type V = Json;

    open spec fn view(&self) -> Json {
        model_of(*self)
    }
}

/// The value of the first field named `key`.
pub open spec fn field_lookup(fields: Seq<(Seq<char>, Json)>, key: Seq<char>) -> Option<Json>
    decreases fields.len(),
{
    if fields.len() == 0 {
        None
    } else if fields[0].0 == key {
        Some(fields[0].1)
    } else {
        field_lookup(fields.drop_first(), key)
    }
}

impl Json {
    /// The member `key` of an object (serde_json's `Value::get` with a string index).
    pub open spec fn get(self, key: Seq<char>) -> Option<Json> {
        match self {
            Json::Object(fields) => field_lookup(fields, key),
            _ => None,
        }
    }

    pub open spec fn as_str(self) -> Option<Seq<char>> {
        match self {
            Json::Str(s) => Some(s),
            _ => None,
        }
    }

    pub open spec fn as_array(self) -> Option<Seq<Json>> {
        match self {
            Json::Array(items) => Some(items),
            _ => None,
        }
    }

    /// The string held by member `key`, if that member is a string.
    pub open spec fn str_member(self, key: Seq<char>) -> Option<Seq<char>> {
        match self.get(key) {
            Some(Json::Str(s)) => Some(s),
            _ => None,
        }
    }

    /// The items of member `key`, if that member is an array.
    pub open spec fn array_member(self, key: Seq<char>) -> Option<Seq<Json>> {
        match self.get(key) {
            Some(Json::Array(items)) => Some(items),
            _ => None,
        }
    }
}

pub proof fn lemma_models_of(items: Seq<JsonValue>)
    ensures
        #[trigger] models_of(items).len() == items.len(),
        forall|i: int| 0 <= i < items.len() ==> #[trigger] models_of(items)[i] == items[i]@,
    decreases items.len(),
{
    if items.len() > 0 {
        lemma_models_of(items.drop_last());
    }
}

pub proof fn lemma_field_models_of(fields: Seq<(String, JsonValue)>)
    ensures
        #[trigger] field_models_of(fields).len() == fields.len(),
        forall|i: int|
            0 <= i < fields.len() ==> #[trigger] field_models_of(fields)[i] == (
                fields[i].0@,
                fields[i].1@,
            ),
    decreases fields.len(),
{
    if fields.len() > 0 {
        lemma_field_models_of(fields.drop_last());
    }
}

pub open spec fn opt_model(o: Option<&JsonValue>) -> Option<Json> {
    match o {
        Some(v) => Some(v@),
        None => None,
    }
}

impl JsonValue {
    /// The member `key` of an object; `None` for any other value.
    pub fn get(&self, key: &str) -> (r: Option<&JsonValue>)
        ensures
            opt_model(r) == self@.get(key@),
    {
        match self {
            JsonValue::Object(fields) => {
                proof {
                    lemma_field_models_of(fields@);
                }
                let ghost fm = field_models_of(fields@);
                assert(fm.skip(0) =~= fm);
                let mut i: usize = 0;
                while i < fields.len()
                    invariant
                        fm == field_models_of(fields@),
                        fm.len() == fields.len(),
                        forall|k: int|
                            0 <= k < fields.len() ==> #[trigger] fm[k] == (
                                fields@[k].0@,
                                fields@[k].1@,
                            ),
                        i <= fields.len(),
                        self@.get(key@) == field_lookup(fm.skip(i as int), key@),
                    decreases fields.len() - i,
                {
                    assert(fm.skip(i as int).drop_first() =~= fm.skip(i + 1));
                    assert(fm.skip(i as int)[0] == fm[i as int]);
                    assert(fm[i as int] == (fields@[i as int].0@, fields@[i as int].1@));
                    if str_eq(fields[i].0.as_str(), key) {
                        return Some(&fields[i].1);
                    }
                    i = i + 1;
                }
                None
            },
            _ => None,
        }
    }

    /// The text of a string value.
    pub fn as_str(&self) -> (r: Option<&str>)
        ensures
            match r {
                Some(s) => self@.as_str() == Some(s@),
                None => self@.as_str() is None,
            },
    {
        match self {
            JsonValue::Str(s) => Some(s.as_str()),
            _ => None,
        }
    }

    /// The items of an array value.
    pub fn as_array(&self) -> (r: Option<&Vec<JsonValue>>)
        ensures
            match r {
                Some(items) => self@.as_array() == Some(models_of(items@)),
                None => self@.as_array() is None,
            },
    {
        match self {
            JsonValue::Array(items) => Some(items),
            _ => None,
        }
    }

    pub fn is_array(&self) -> (r: bool)
        ensures
            r == self@ is Array,
    {
        match self {
            JsonValue::Array(_) => true,
            _ => false,
        }
    }

    /// A copy of this value.
    pub fn deep_clone(&self) -> (r: JsonValue)
        ensures
            r@ == self@,
        decreases self,
    {
        match self {
            JsonValue::Null => JsonValue::Null,
            JsonValue::Bool(b) => JsonValue::Bool(*b),
            JsonValue::Number(n) => JsonValue::Number(n.clone()),
            JsonValue::Str(s) => JsonValue::Str(s.clone()),
            JsonValue::Array(items) => {
                let mut out: Vec<JsonValue> = Vec::new();
                for i in 0..items.len()
                    invariant
                        *self == JsonValue::Array(*items),
                        out@.len() == i,
                        forall|k: int| 0 <= k < i ==> #[trigger] out@[k]@ == items@[k]@,
                {
                    proof {
                        assert(decreases_to!(*self => self->Array_0));
                        assert(decreases_to!(self->Array_0 => self->Array_0@));
                        assert(decreases_to!(self->Array_0@ => self->Array_0@[i as int]));
                    }
                    out.push(items[i].deep_clone());
                }
                proof {
                    lemma_models_of(out@);
                    lemma_models_of(items@);
                }
                assert(models_of(out@) =~= models_of(items@));
                JsonValue::Array(out)
            },
            JsonValue::Object(fields) => {
                let mut out: Vec<(String, JsonValue)> = Vec::new();
                for i in 0..fields.len()
                    invariant
                        *self == JsonValue::Object(*fields),
                        out@.len() == i,
                        forall|k: int|
                            0 <= k < i ==> (#[trigger] out@[k]).0@ == fields@[k].0@ && out@[k].1@
                                == fields@[k].1@,
                {
                    proof {
                        assert(decreases_to!(*self => self->Object_0));
                        assert(decreases_to!(self->Object_0 => self->Object_0@));
                        assert(decreases_to!(self->Object_0@ => self->Object_0@[i as int]));
                        assert(decreases_to!(self->Object_0@[i as int] => self->Object_0@[i as int].1));
                    }
                    let v = fields[i].1.deep_clone();
                    out.push((fields[i].0.clone(), v));
                }
                proof {
                    lemma_field_models_of(out@);
                    lemma_field_models_of(fields@);
                }
                assert(field_models_of(out@) =~= field_models_of(fields@));
                JsonValue::Object(out)
            },
        }
    }
}

/// The fields of an object once member `key` is set to `x`: the first field of that
/// name takes the new value, or the field is added at the end.
pub open spec fn set_in_fields(fields: Seq<(Seq<char>, Json)>, key: Seq<char>, x: Json) -> Seq<(Seq<char>, Json)>
    decreases fields.len(),
{
    if fields.len() == 0 {
        seq![(key, x)]
    } else if fields[0].0 == key {
        seq![(key, x)] + fields.drop_first()
    } else {
        seq![fields[0]] + set_in_fields(fields.drop_first(), key, x)
    }
}

impl Json {
    /// This value with member `key` set to `x` (serde_json's `value[key] = x`): an
    /// object takes the member, and `null` becomes an object of that one member.
    pub open spec fn with_member(self, key: Seq<char>, x: Json) -> Json {
        match self {
            Json::Object(fields) => Json::Object(set_in_fields(fields, key, x)),
            _ => Json::Object(seq![(key, x)]),
        }
    }

    /// A value whose members can be set: an object, or `null`.
    pub open spec fn is_object_or_null(self) -> bool {
        self is Object || self is Null
    }
}

impl JsonValue {
    /// Sets member `key` to `x` (serde_json's `value[key] = x`), which panics on
    /// anything but an object or `null`.
    pub fn set_member(&mut self, key: &str, x: JsonValue)
        requires
            old(self)@.is_object_or_null(),
        ensures
            final(self)@ == old(self)@.with_member(key@, x@),
    {
        let ghost xm = x@;
        let mut taken = JsonValue::Null;
        std::mem::swap(self, &mut taken);
        match taken {
            JsonValue::Object(mut fields) => {
                proof {
                    lemma_field_models_of(fields@);
                }
                let ghost fm = field_models_of(fields@);
                let mut i: usize = 0;
                assert(fm.take(0) + fm.skip(0) =~= fm);
                while i < fields.len()
                    invariant
                        xm == x@,
                        old(self)@ == Json::Object(fm),
                        fm == field_models_of(fields@),
                        fm.len() == fields.len(),
                        forall|k: int| 0 <= k < fields.len() ==> #[trigger] fm[k] == (fields@[k].0@, fields@[k].1@),
                        i <= fields.len(),
                        set_in_fields(fm, key@, xm) == fm.take(i as int) + set_in_fields(fm.skip(i as int), key@, xm),
                    decreases fields.len() - i,
                {
                    let ghost rest = fm.skip(i as int);
                    assert(rest[0] == fm[i as int]);
                    assert(rest.drop_first() =~= fm.skip(i + 1));
                    if str_eq(fields[i].0.as_str(), key) {
                        fields.set(i, (key.to_owned(), x));
                        proof {
                            lemma_field_models_of(fields@);
                            assert(field_models_of(fields@) =~= fm.take(i as int) + (seq![(key@, xm)]
                                + fm.skip(i + 1)));
                        }
                        *self = JsonValue::Object(fields);
                        return ;
                    }
                    assert(fm.take(i + 1) =~= fm.take(i as int).push(fm[i as int]));
                    assert(fm.take(i as int) + (seq![fm[i as int]] + set_in_fields(fm.skip(i + 1), key@, xm))
                        =~= fm.take(i + 1) + set_in_fields(fm.skip(i + 1), key@, xm));
                    i = i + 1;
                }
                assert(fm.take(fields.len() as int) =~= fm);
                assert(fm.skip(fields.len() as int) =~= Seq::<(Seq<char>, Json)>::empty());
                fields.push((key.to_owned(), x));
                proof {
                    lemma_field_models_of(fields@);
                    assert(field_models_of(fields@) =~= fm + seq![(key@, xm)]);
                }
                *self = JsonValue::Object(fields);
            },
            _ => {
                let fields = vec![(key.to_owned(), x)];
                proof {
                    lemma_field_models_of(fields@);
                }
                assert(field_models_of(fields@) =~= seq![(key@, xm)]);
                *self = JsonValue::Object(fields);
            },
        }
    }
}

/// The document that serde_json reads from a JSON text, or `None` where
/// `serde_json::from_str` refuses the text.
pub uninterp spec fn parsed_json(text: Seq<char>) -> Option<Json>;

/// The compact text that serde_json writes for a document (`Value::to_string`).
pub uninterp spec fn compact_json_text(v: Json) -> Seq<char>;

/// The indented text that `serde_json::to_string_pretty` writes for a document.
pub uninterp spec fn pretty_json_text(v: Json) -> Seq<char>;

/// Turns serde_json's document into this library's, variant for variant; a number
/// is kept as the text that serde_json writes for it. Holds no decision of its own.
#[verifier::external_body]
fn from_serde(v: serde_json::Value) -> JsonValue {
    match v {
        serde_json::Value::Null => JsonValue::Null,
        serde_json::Value::Bool(b) => JsonValue::Bool(b),
        serde_json::Value::Number(n) => JsonValue::Number(n.to_string()),
        serde_json::Value::String(s) => JsonValue::Str(s),
        serde_json::Value::Array(a) => JsonValue::Array(a.into_iter().map(from_serde).collect()),
        serde_json::Value::Object(m) => JsonValue::Object(
            m.into_iter().map(|(k, x)| (k, from_serde(x))).collect(),
        ),
    }
}

/// Turns this library's document into serde_json's, variant for variant; a number's
/// text is read back with serde_json's `Number::from_str` (text that is no number
/// becomes `null`). Holds no decision of its own.
#[verifier::external_body]
fn to_serde(v: &JsonValue) -> serde_json::Value {
    match v {
        JsonValue::Null => serde_json::Value::Null,
        JsonValue::Bool(b) => serde_json::Value::Bool(*b),
        JsonValue::Number(n) => n.parse().map(serde_json::Value::Number).unwrap_or(
            serde_json::Value::Null,
        ),
        JsonValue::Str(s) => serde_json::Value::String(s.clone()),
        JsonValue::Array(a) => serde_json::Value::Array(a.iter().map(to_serde).collect()),
        JsonValue::Object(f) => serde_json::Value::Object(
            f.iter().map(|(k, x)| (k.clone(), to_serde(x))).collect(),
        ),
    }
}

/// Calls `serde_json::from_str::<serde_json::Value>`. Claims that the call succeeds
/// exactly where `parsed_json` of the text is a document, and then gives that document.
#[verifier::external_body]
fn serde_from_str(text: &str) -> (r: Result<JsonValue, serde_json::Error>)
    ensures
        match r {
            Ok(v) => parsed_json(text@) == Some(v@),
            Err(_) => parsed_json(text@) is None,
        },
{
    serde_json::from_str::<serde_json::Value>(text).map(from_serde)
}

/// Calls serde_json's `Value::to_string`. Claims that the text is `compact_json_text`
/// of the document.
#[verifier::external_body]
fn serde_to_string(v: &JsonValue) -> (r: String)
    ensures
        r@ == compact_json_text(v@),
{
    to_serde(v).to_string()
}

/// Calls `serde_json::to_string_pretty`, which cannot fail on a document. Claims that
/// the text is `pretty_json_text` of the document.
#[verifier::external_body]
fn serde_to_string_pretty(v: &JsonValue) -> (r: String)
    ensures
        r@ == pretty_json_text(v@),
{
    serde_json::to_string_pretty(&to_serde(v)).unwrap_or_default()
}

impl JsonValue {
    /// Reads a JSON text; `None` where serde_json refuses it.
    pub fn parse(text: &str) -> (r: Option<JsonValue>)
        ensures
            match r {
                Some(v) => parsed_json(text@) == Some(v@),
                None => parsed_json(text@) is None,
            },
    {
        match serde_from_str(text) {
            Ok(v) => Some(v),
            Err(_) => None,
        }
    }

    /// The compact JSON text of this document.
    pub fn to_compact_string(&self) -> (r: String)
        ensures
            r@ == compact_json_text(self@),
    {
        serde_to_string(self)
    }

    /// The indented JSON text of this document.
    pub fn to_pretty_string(&self) -> (r: String)
        ensures
            r@ == pretty_json_text(self@),
    {
        serde_to_string_pretty(self)
    }

    /// A string value.
    pub fn string(s: &str) -> (r: JsonValue)
        ensures
            r@ == Json::Str(s@),
    {
        JsonValue::Str(s.to_owned())
    }
}

} // verus!
