use vstd::prelude::*;

verus! {

/// A new route, as the administration API receives it.
pub struct CreateRouteRequest {
    pub path_pattern: String,
    pub http_method: String,
    pub target_url: String,
    pub required_roles: Option<String>,
    pub require_permission: Option<String>,
}

/// The new contents of a route, as the administration API receives them.
pub struct UpdateRouteRequest {
    pub path_pattern: String,
    pub http_method: String,
    pub target_url: String,
    pub required_roles: Option<String>,
    pub require_permission: Option<String>,
}

} // verus!
