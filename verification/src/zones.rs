use vstd::prelude::*;

use crate::error::GtmError;
use crate::json::{parsed_json, Json, JsonValue};
use crate::text::opt_string_view;
use crate::variables::WorkspaceFlags;

verus! {

pub struct ZonesArgs {
    pub action: ZonesAction,
}

pub enum ZonesAction {
    List(ZonesListArgs),
    Get(ZonesGetArgs),
    Create(ZonesCreateArgs),
    Update(ZonesUpdateArgs),
    Delete(ZonesDeleteArgs),
    Revert(ZonesRevertArgs),
}

pub struct ZonesListArgs {
    pub ws: WorkspaceFlags,
}

pub struct ZonesGetArgs {
    pub ws: WorkspaceFlags,
    pub zone_id: String,
}

/// Creates a zone; `child_container` and `boundary` are JSON texts.
pub struct ZonesCreateArgs {
    pub ws: WorkspaceFlags,
    pub name: String,
    pub child_container: Option<String>,
    pub boundary: Option<String>,
}

/// Updates a zone; what is given replaces what the zone has.
pub struct ZonesUpdateArgs {
    pub ws: WorkspaceFlags,
    pub zone_id: String,
    pub name: Option<String>,
    pub child_container: Option<String>,
    pub boundary: Option<String>,
}

pub struct ZonesDeleteArgs {
    pub ws: WorkspaceFlags,
    pub zone_id: String,
    pub force: bool,
}

pub struct ZonesRevertArgs {
    pub ws: WorkspaceFlags,
    pub zone_id: String,
}

/// Sets member `key` of a request body to the document a JSON text denotes; text
/// that is not JSON is the error, reported as it was given.
pub open spec fn with_json_arg(body: Json, key: Seq<char>, text: Option<Seq<char>>) -> Result<Json, Seq<char>> {
    match text {
        None => Ok(body),
        Some(t) => match parsed_json(t) {
            Some(v) => Ok(body.with_member(key, v)),
            None => Err(t),
        },
    }
}

/// A zone body with the child containers, then the boundary, set from their JSON texts.
pub open spec fn with_zone_json_args(
    body: Json,
    child_container: Option<Seq<char>>,
    boundary: Option<Seq<char>>,
) -> Result<Json, Seq<char>> {
    match with_json_arg(body, "childContainer"@, child_container) {
        Ok(b) => with_json_arg(b, "boundary"@, boundary),
        Err(e) => Err(e),
    }
}

/// The body that creates a zone.
pub open spec fn zone_create_body_of(args: ZonesCreateArgs) -> Result<Json, Seq<char>> {
    with_zone_json_args(
        Json::Object(seq![("name"@, Json::Str(args.name@))]),
        opt_string_view(args.child_container),
        opt_string_view(args.boundary),
    )
}

/// The body that updates a zone, from the zone as it is.
pub open spec fn zone_update_body_of(body: Json, args: ZonesUpdateArgs) -> Result<Json, Seq<char>> {
    let named = match args.name {
        Some(n) => body.with_member("name"@, Json::Str(n@)),
        None => body,
    };
    with_zone_json_args(named, opt_string_view(args.child_container), opt_string_view(args.boundary))
}

/// Setting member `key` from `text` sets something: the text is given and is JSON.
pub open spec fn json_arg_sets(text: Option<Seq<char>>) -> bool {
    text matches Some(t) && parsed_json(t) is Some
}

/// Setting the child containers, then the boundary, sets no member: each is
/// missing, or the first given one is not JSON (which stops before anything is set).
pub open spec fn zone_json_args_set_nothing(
    child_container: Option<Seq<char>>,
    boundary: Option<Seq<char>>,
) -> bool {
    match child_container {
        Some(c) => parsed_json(c) is None,
        None => !json_arg_sets(boundary),
    }
}

/// Updating a zone from these arguments sets no member of the fetched zone.
pub open spec fn zone_update_sets_nothing(args: ZonesUpdateArgs) -> bool {
    args.name is None && zone_json_args_set_nothing(
        opt_string_view(args.child_container),
        opt_string_view(args.boundary),
    )
}

fn set_json_arg(body: &mut JsonValue, key: &str, text: &Option<String>) -> (r: Result<(), GtmError>)
    requires
        json_arg_sets(opt_string_view(*text)) ==> old(body)@.is_object_or_null(),
    ensures
        old(body)@.is_object_or_null() ==> final(body)@.is_object_or_null(),
        match with_json_arg(old(body)@, key@, opt_string_view(*text)) {
            Ok(b) => r is Ok && final(body)@ == b,
            Err(e) => r matches Err(GtmError::InvalidParams(m)) && m@ == e,
        },
{
    match text {
        None => Ok(()),
        Some(t) => match JsonValue::parse(t.as_str()) {
            Some(v) => {
                body.set_member(key, v);
                Ok(())
            },
            None => Err(GtmError::InvalidParams(t.clone())),
        },
    }
}

fn set_zone_json_args(body: &mut JsonValue, child_container: &Option<String>, boundary: &Option<String>) -> (r: Result<(), GtmError>)
    requires
        old(body)@.is_object_or_null() || zone_json_args_set_nothing(
            opt_string_view(*child_container),
            opt_string_view(*boundary),
        ),
    ensures
        match with_zone_json_args(old(body)@, opt_string_view(*child_container), opt_string_view(*boundary)) {
            Ok(b) => r is Ok && final(body)@ == b,
            Err(e) => r matches Err(GtmError::InvalidParams(m)) && m@ == e,
        },
{
    set_json_arg(body, "childContainer", child_container)?;
    assert(old(body)@.is_object_or_null() ==> body@.is_object_or_null());
    set_json_arg(body, "boundary", boundary)
}

/// The body that creates a zone: its name, with child containers and boundary
/// read from their JSON texts. A text that is not JSON gives `InvalidParams` with
/// that text.
pub fn zone_create_body(args: &ZonesCreateArgs) -> (r: Result<JsonValue, GtmError>)
    ensures
        match zone_create_body_of(*args) {
            Ok(b) => r matches Ok(v) && v@ == b,
            Err(e) => r matches Err(GtmError::InvalidParams(m)) && m@ == e,
        },
{
    let fields = vec![("name".to_owned(), JsonValue::string(args.name.as_str()))];
    proof {
        crate::json::lemma_field_models_of(fields@);
    }
    assert(crate::json::field_models_of(fields@) =~= seq![("name"@, Json::Str(args.name@))]);
    let mut body = JsonValue::Object(fields);
    match set_zone_json_args(&mut body, &args.child_container, &args.boundary) {
        Ok(()) => Ok(body),
        Err(e) => Err(e),
    }
}

/// The body that updates a zone: the zone as fetched, with the name, child
/// containers and boundary that are given set. Where a member is set, the fetched
/// zone must be an object (or `null`), as setting a member of anything else panics.
pub fn zone_update_body(body: JsonValue, args: &ZonesUpdateArgs) -> (r: Result<JsonValue, GtmError>)
    requires
        body@.is_object_or_null() || zone_update_sets_nothing(*args),
    ensures
        match zone_update_body_of(body@, *args) {
            Ok(b) => r matches Ok(v) && v@ == b,
            Err(e) => r matches Err(GtmError::InvalidParams(m)) && m@ == e,
        },
{
    let mut body = body;
    match &args.name {
        Some(n) => {
            body.set_member("name", JsonValue::string(n.as_str()));
        },
        None => {},
    }
    match set_zone_json_args(&mut body, &args.child_container, &args.boundary) {
        Ok(()) => Ok(body),
        Err(e) => Err(e),
    }
}

} // verus!
