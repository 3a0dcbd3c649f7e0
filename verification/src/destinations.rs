use vstd::prelude::*;

verus! {

/// The container a container-scoped command works on.
pub struct ContainerFlags {
    pub account_id: String,
    pub container_id: String,
}

pub struct DestinationsArgs {
    pub action: DestinationsAction,
}

pub enum DestinationsAction {
    List(DestListArgs),
    Get(DestGetArgs),
    Link(DestLinkArgs),
}

pub struct DestListArgs {
    pub c: ContainerFlags,
}

pub struct DestGetArgs {
    pub c: ContainerFlags,
    pub destination_id: String,
}

pub struct DestLinkArgs {
    pub c: ContainerFlags,
    pub destination_id: String,
}

/// The API call that a destinations command makes.
pub enum DestinationRequest {
    /// Read `path` and show the result as `resource`.
    Get { path: String, resource: String },
    /// Post an empty body to `path` with the query `destinationId=<destination_id>`.
    Link { path: String, destination_id: String },
}

/// The API path of a container's destinations.
pub open spec fn destinations_path_of(c: ContainerFlags) -> Seq<char> {
    "accounts/"@ + c.account_id@ + "/containers/"@ + c.container_id@ + "/destinations"@
}

fn destinations_path(c: &ContainerFlags) -> (r: String)
    ensures
        r@ == destinations_path_of(*c),
{
    let mut r = "accounts/".to_owned();
    r.append(c.account_id.as_str());
    r.append("/containers/");
    r.append(c.container_id.as_str());
    r.append("/destinations");
    r
}

/// The call for each action: list the container's destinations, get one by id, or
/// link one (`.../destinations:link`).
pub fn destination_request(action: &DestinationsAction) -> (r: DestinationRequest)
    ensures
        match *action {
            DestinationsAction::List(a) => r matches DestinationRequest::Get { path, resource }
                && path@ == destinations_path_of(a.c) && resource@ == "destinations"@,
            DestinationsAction::Get(a) => r matches DestinationRequest::Get { path, resource }
                && path@ == destinations_path_of(a.c) + "/"@ + a.destination_id@ && resource@
                == "destination"@,
            DestinationsAction::Link(a) => r matches DestinationRequest::Link {
                path,
                destination_id,
            } && path@ == destinations_path_of(a.c) + ":link"@ && destination_id@
                == a.destination_id@,
        },
{
    match action {
        DestinationsAction::List(a) => DestinationRequest::Get {
            path: destinations_path(&a.c),
            resource: "destinations".to_owned(),
        },
        DestinationsAction::Get(a) => {
            let mut path = destinations_path(&a.c);
            path.append("/");
            path.append(a.destination_id.as_str());
            DestinationRequest::Get { path, resource: "destination".to_owned() }
        },
        DestinationsAction::Link(a) => {
            let mut path = destinations_path(&a.c);
            path.append(":link");
            DestinationRequest::Link { path, destination_id: a.destination_id.clone() }
        },
    }
}

} // verus!
