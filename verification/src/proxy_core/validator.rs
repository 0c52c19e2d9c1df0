//! Authorization rules: what a route demands (roles, permissions) and
//! whether a verified user meets it.

use vstd::prelude::*;

use crate::dto::auth::{AuthResponse, AuthView};
use crate::text::{is_blank, list_contains, str_is_blank, texts};

verus! {

/// What `serde_json::from_str::<Vec<String>>` makes of `text`: the list of
/// strings when `text` is a JSON array of strings, `None` when it fails.
pub uninterp spec fn json_string_list(text: Seq<char>) -> Option<Seq<Seq<char>>>;

#[verifier::external_type_specification]
#[verifier::external_body]
pub struct ExJsonError(serde_json::Error);

/// Reads `text` as a JSON array of strings with `serde_json::from_str`.
/// Trusted: `Ok` exactly when `json_string_list(text)` is a list, and then
/// the strings of that list, in order.
#[verifier::external_body]
fn parse_json_string_list(text: &str) -> (r: Result<Vec<String>, serde_json::Error>)
    ensures
        match r {
            Ok(list) => json_string_list(text@) == Some(texts(list@)),
            Err(_) => json_string_list(text@) is None,
        },
{
    serde_json::from_str::<Vec<String>>(text)
}

/// Reads a non-blank stored field as a JSON array of strings; a missing or
/// blank field is not read.
fn read_field(field: &Option<String>) -> (r: Option<Vec<String>>)
    ensures
        match *field {
            Some(text) => !is_blank(text@) ==> opt_texts(r) == json_string_list(text@),
            None => r is None,
        },
{
    match field {
        Some(text) => {
            if str_is_blank(text.as_str()) {
                None
            } else {
                match parse_json_string_list(text.as_str()) {
                    Ok(list) => Some(list),
                    Err(_) => None,
                }
            }
        },
        None => None,
    }
}

/// Optional list of strings, by its texts.
pub open spec fn opt_texts(o: Option<Vec<String>>) -> Option<Seq<Seq<char>>> {
    match o {
        Some(v) => Some(texts(v@)),
        None => None,
    }
}

/// What the JSON reader makes of a stored field: the list of strings when
/// the field holds a JSON array of strings, `None` otherwise.
pub open spec fn parsed_field(field: Option<Seq<char>>) -> Option<Seq<Seq<char>>> {
    match field {
        Some(text) => json_string_list(text),
        None => None,
    }
}

/// The roles that a route's `required_roles` field demands, given what the
/// JSON reader made of it: a non-blank field read as a list with at least
/// one entry gives that list; anything else demands nothing.
pub open spec fn roles_given(field: Option<Seq<char>>, parsed: Option<Seq<Seq<char>>>) -> Option<Seq<Seq<char>>> {
    match field {
        None => None,
        Some(text) => if is_blank(text) {
            None
        } else {
            match parsed {
                Some(list) => if list.len() > 0 {
                    Some(list)
                } else {
                    None
                },
                None => None,
            }
        },
    }
}

/// The permissions that a route's `require_permission` field demands, given
/// what the JSON reader made of it: a non-blank field read as a list with at
/// least one entry gives that list, an empty list nothing, and text that is
/// not such a list is itself the one permission.
pub open spec fn permissions_given(field: Option<Seq<char>>, parsed: Option<Seq<Seq<char>>>) -> Option<Seq<Seq<char>>> {
    match field {
        None => None,
        Some(text) => if is_blank(text) {
            None
        } else {
            match parsed {
                Some(list) => if list.len() > 0 {
                    Some(list)
                } else {
                    None
                },
                None => Some(seq![text]),
            }
        },
    }
}

/// The roles that a route's `required_roles` field demands.
pub open spec fn roles_from_field(field: Option<Seq<char>>) -> Option<Seq<Seq<char>>> {
    roles_given(field, parsed_field(field))
}

/// The permissions that a route's `require_permission` field demands.
pub open spec fn permissions_from_field(field: Option<Seq<char>>) -> Option<Seq<Seq<char>>> {
    permissions_given(field, parsed_field(field))
}

/// A list that is present and holds at least one entry.
pub open spec fn non_empty(list: Option<Seq<Seq<char>>>) -> bool {
    list matches Some(l) && l.len() > 0
}

/// The authorization requirements of a route, by their texts.
pub struct AuthRequirements {
    pub permissions: Option<Seq<Seq<char>>>,
    pub roles: Option<Seq<Seq<char>>>,
}

impl AuthRequirements {
    /// A route demands authorization when it names at least one permission
    /// or at least one role.
    pub open spec fn demands_auth(self) -> bool {
        non_empty(self.permissions) || non_empty(self.roles)
    }
}

/// The requirements of a route's `required_roles` and `require_permission`
/// fields, given what the JSON reader made of each.
pub open spec fn requirements_given(
    required_roles: Option<Seq<char>>,
    roles_parsed: Option<Seq<Seq<char>>>,
    require_permission: Option<Seq<char>>,
    permissions_parsed: Option<Seq<Seq<char>>>,
) -> AuthRequirements {
    AuthRequirements {
        permissions: permissions_given(require_permission, permissions_parsed),
        roles: roles_given(required_roles, roles_parsed),
    }
}

/// The requirements stored in a route's `required_roles` and
/// `require_permission` fields.
pub open spec fn requirements_from_fields(
    required_roles: Option<Seq<char>>,
    require_permission: Option<Seq<char>>,
) -> AuthRequirements {
    AuthRequirements {
        permissions: permissions_from_field(require_permission),
        roles: roles_from_field(required_roles),
    }
}

/// The authorization requirements of a route.
#[derive(Debug)]
pub struct ParseRouteAuth {
    pub permissions: Option<Vec<String>>,
    pub roles: Option<Vec<String>>,
}

impl View for ParseRouteAuth {
    type V = AuthRequirements;

    open spec fn view(&self) -> AuthRequirements {
        AuthRequirements { permissions: opt_texts(self.permissions), roles: opt_texts(self.roles) }
    }
}

impl ParseRouteAuth {
    /// Builds a route's requirements from its stored `required_roles` and
    /// `require_permission` fields and what the JSON reader made of each
    /// (`None` where it read no list of strings).
    pub fn from_parsed_fields(
        required_roles_json: &Option<String>,
        roles_parsed: Option<Vec<String>>,
        require_permission_json: &Option<String>,
        permissions_parsed: Option<Vec<String>>,
    ) -> (r: Self)
        ensures
            r@ == requirements_given(
                opt_text(*required_roles_json),
                opt_texts(roles_parsed),
                opt_text(*require_permission_json),
                opt_texts(permissions_parsed),
            ),
    {
        let mut permissions: Option<Vec<String>> = None;
        let mut roles: Option<Vec<String>> = None;

        if let Some(roles_str) = required_roles_json {
            if !str_is_blank(roles_str.as_str()) {
                match roles_parsed {
                    Some(parsed_roles) => {
                        if parsed_roles.len() > 0 {
                            roles = Some(parsed_roles);
                        }
                    },
                    None => {},
                }
            }
        }
        if let Some(permission_str) = require_permission_json {
            if !str_is_blank(permission_str.as_str()) {
                match permissions_parsed {
                    Some(parsed_perms) => {
                        if parsed_perms.len() > 0 {
                            permissions = Some(parsed_perms);
                        }
                    },
                    None => {
                        let mut single: Vec<String> = Vec::new();
                        single.push(permission_str.clone());
                        assert(texts(single@) =~= seq![permission_str@]);
                        permissions = Some(single);
                    },
                }
            }
        }
        ParseRouteAuth { permissions, roles }
    }

    /// Reads a route's stored `required_roles` and `require_permission`
    /// fields, each a JSON array of strings (a plain permission string is
    /// also accepted).
    pub fn from_route_auth_fields(
        required_roles_json: &Option<String>,
        require_permission_json: &Option<String>,
    ) -> (r: Self)
        ensures
            r@ == requirements_from_fields(opt_text(*required_roles_json), opt_text(*require_permission_json)),
    {
        let roles_parsed = read_field(required_roles_json);
        let permissions_parsed = read_field(require_permission_json);
        Self::from_parsed_fields(required_roles_json, roles_parsed, require_permission_json, permissions_parsed)
    }

    /// Whether the route demands any authorization (roles or permissions).
    pub fn requires_auth(&self) -> (b: bool)
        ensures
            b == self@.demands_auth(),
    {
        let perms = match &self.permissions {
            Some(p) => p.len() > 0,
            None => false,
        };
        let roles = match &self.roles {
            Some(r) => r.len() > 0,
            None => false,
        };
        perms || roles
    }
}

/// Optional string, by its text.
pub open spec fn opt_text(o: Option<String>) -> Option<Seq<char>> {
    match o {
        Some(s) => Some(s@),
        None => None,
    }
}

/// A requirement list is met by what the user holds when it is absent, or
/// when the user holds at least one of its entries.
pub open spec fn requirement_met(required: Option<Seq<Seq<char>>>, held: Option<Seq<Seq<char>>>) -> bool {
    match required {
        None => true,
        Some(req) => match held {
            None => false,
            Some(h) => exists|i: int| 0 <= i < req.len() && h.contains(#[trigger] req[i]),
        },
    }
}

/// Whether `user` may use a route with requirements `route`: the token must
/// be valid; a route that demands nothing admits every valid user; otherwise
/// the user must hold one of the roles, if the route lists roles, and one of
/// the permissions, if it lists permissions.
pub open spec fn access_granted(route: AuthRequirements, user: AuthView) -> bool {
    &&& user.valid
    &&& (!route.demands_auth() || {
        &&& requirement_met(route.roles, user.roles)
        &&& requirement_met(route.permissions, user.permissions)
    })
}

/// The authorization decision for a route and a verified user.
pub struct AuthChecker {}

/// Whether `held` holds at least one of `required`.
fn holds_any(required: &Vec<String>, held: &Vec<String>) -> (r: bool)
    ensures
        r == exists|i: int| 0 <= i < texts(required@).len() && texts(held@).contains(#[trigger] texts(required@)[i]),
{
    let n = required.len();
    let mut i: usize = 0;
    while i < n
        invariant
            n == required@.len(),
            i <= n,
            forall|j: int| 0 <= j < i ==> !texts(held@).contains(#[trigger] texts(required@)[j]),
        decreases n - i,
    {
        if list_contains(held, &required[i]) {
            assert(texts(required@)[i as int] == required@[i as int]@);
            return true;
        }
        assert(texts(required@)[i as int] == required@[i as int]@);
        i = i + 1;
    }
    false
}

impl AuthChecker {
    /// Decides whether `user` may use a route with requirements `route`.
    pub fn can_access(route: &ParseRouteAuth, user: &AuthResponse) -> (b: bool)
        ensures
            b == access_granted(route@, user@),
    {
        if !user.valid {
            return false;
        }
        if !route.requires_auth() {
            return true;
        }
        if let Some(required_roles) = &route.roles {
            if let Some(user_roles) = &user.roles {
                if !holds_any(required_roles, user_roles) {
                    return false;
                }
            } else {
                return false;
            }
        }
        if let Some(required_permissions) = &route.permissions {
            if let Some(user_permissions) = &user.permissions {
                if !holds_any(required_permissions, user_permissions) {
                    return false;
                }
            } else {
                return false;
            }
        }
        true
    }
}


/// Every text of `a` is in `b`; an absent list is within any list, and a
/// present one only within a present one.
pub open spec fn held_within(a: Option<Seq<Seq<char>>>, b: Option<Seq<Seq<char>>>) -> bool {
    match a {
        None => true,
        Some(x) => b matches Some(y) && forall|t: Seq<char>| x.contains(t) ==> y.contains(t),
    }
}

/// A token that the service reports invalid never grants access.
pub proof fn lemma_invalid_token_denied(route: AuthRequirements, user: AuthView)
    requires
        !user.valid,
    ensures
        !access_granted(route, user),
{
}

/// A route that demands nothing admits every valid token.
pub proof fn lemma_open_route_admits(route: AuthRequirements, user: AuthView)
    requires
        !route.demands_auth(),
        user.valid,
    ensures
        access_granted(route, user),
{
}

/// Holding more roles and permissions never takes access away: a valid
/// user who holds at least what an admitted user holds is admitted too.
pub proof fn lemma_more_grants_keep_access(route: AuthRequirements, user: AuthView, other: AuthView)
    requires
        access_granted(route, user),
        other.valid,
        held_within(user.roles, other.roles),
        held_within(user.permissions, other.permissions),
    ensures
        access_granted(route, other),
{
    if route.demands_auth() {
        if let Some(req) = route.roles {
            let h = user.roles->0;
            let i = choose|i: int| 0 <= i < req.len() && h.contains(#[trigger] req[i]);
            assert(other.roles->0.contains(req[i]));
        }
        if let Some(req) = route.permissions {
            let h = user.permissions->0;
            let i = choose|i: int| 0 <= i < req.len() && h.contains(#[trigger] req[i]);
            assert(other.permissions->0.contains(req[i]));
        }
    }
}

/// Requirements read from a route's fields never hold an empty list, so a
/// route demands authorization exactly when it names roles or permissions.
pub proof fn lemma_read_requirements_non_empty(required_roles: Option<Seq<char>>, require_permission: Option<Seq<char>>)
    ensures
        ({
            let r = requirements_from_fields(required_roles, require_permission);
            &&& (r.roles is Some ==> r.roles->0.len() > 0)
            &&& (r.permissions is Some ==> r.permissions->0.len() > 0)
            &&& (r.demands_auth() <==> (r.roles is Some || r.permissions is Some))
        }),
{
}


/// Holding one of the required permissions suffices: a valid holder who has
/// one of the roles the route lists (or the route lists none) and at least
/// one entry of the route's permission list is admitted.
pub proof fn lemma_one_permission_suffices(route: AuthRequirements, user: AuthView, i: int)
    requires
        user.valid,
        route.permissions is Some,
        0 <= i < route.permissions->0.len(),
        user.permissions is Some,
        user.permissions->0.contains(route.permissions->0[i]),
        route.roles is Some ==> (user.roles is Some && exists|k: int|
            0 <= k < route.roles->0.len() && user.roles->0.contains(#[trigger] route.roles->0[k])),
    ensures
        access_granted(route, user),
{
}

/// Holding one of the required roles suffices, in the same way.
pub proof fn lemma_one_role_suffices(route: AuthRequirements, user: AuthView, i: int)
    requires
        user.valid,
        route.roles is Some,
        0 <= i < route.roles->0.len(),
        user.roles is Some,
        user.roles->0.contains(route.roles->0[i]),
        route.permissions is Some ==> (user.permissions is Some && exists|k: int|
            0 <= k < route.permissions->0.len() && user.permissions->0.contains(#[trigger] route.permissions->0[k])),
    ensures
        access_granted(route, user),
{
}

/// Access, spelled out: a valid token, and, when the route lists a role or a
/// permission, some listed role held (if roles are listed) and some listed
/// permission held (if permissions are listed).
pub proof fn lemma_access_spelled_out(route: AuthRequirements, user: AuthView)
    ensures
        access_granted(route, user) <==> {
            &&& user.valid
            &&& ({
                let lists_permissions = route.permissions is Some && route.permissions->0.len() > 0;
                let lists_roles = route.roles is Some && route.roles->0.len() > 0;
                ||| !lists_permissions && !lists_roles
                ||| {
                    &&& (route.roles is Some ==> (user.roles is Some && exists|k: int|
                        0 <= k < route.roles->0.len() && user.roles->0.contains(#[trigger] route.roles->0[k])))
                    &&& (route.permissions is Some ==> (user.permissions is Some && exists|k: int|
                        0 <= k < route.permissions->0.len()
                            && user.permissions->0.contains(#[trigger] route.permissions->0[k])))
                }
            })
        },
{
}

/// A non-blank stored field that the JSON reader reads as a non-empty list of
/// strings gives exactly that list, every entry in order; an empty list
/// gives nothing; permission text that is no such list is the one permission;
/// a missing or blank field gives nothing.
pub proof fn lemma_fields_read_as_given(
    required_roles: Option<Seq<char>>,
    roles_parsed: Option<Seq<Seq<char>>>,
    require_permission: Option<Seq<char>>,
    permissions_parsed: Option<Seq<Seq<char>>>,
)
    ensures
        ({
            let r = requirements_given(required_roles, roles_parsed, require_permission, permissions_parsed);
            let roles_text = required_roles is Some && !is_blank(required_roles->0);
            let permission_text = require_permission is Some && !is_blank(require_permission->0);
            &&& (roles_text && roles_parsed is Some && roles_parsed->0.len() > 0 ==> r.roles == roles_parsed)
            &&& (permission_text && permissions_parsed is Some && permissions_parsed->0.len() > 0
                ==> r.permissions == permissions_parsed)
            &&& (permission_text && permissions_parsed is None ==> r.permissions == Some(seq![require_permission->0]))
            &&& (roles_parsed is None ==> r.roles is None)
            &&& (roles_parsed is Some && roles_parsed->0.len() == 0 ==> r.roles is None)
            &&& (permissions_parsed is Some && permissions_parsed->0.len() == 0 ==> r.permissions is None)
            &&& (!roles_text ==> r.roles is None)
            &&& (!permission_text ==> r.permissions is None)
        }),
{
}

/// Read from the stored fields, a non-blank field holding a JSON array of
/// strings with entries gives exactly the strings the reader found.
pub proof fn lemma_fields_keep_every_entry(required_roles: Option<Seq<char>>, require_permission: Option<Seq<char>>)
    ensures
        ({
            let r = requirements_from_fields(required_roles, require_permission);
            &&& (required_roles is Some && !is_blank(required_roles->0) && json_string_list(required_roles->0) is Some
                && json_string_list(required_roles->0)->0.len() > 0 ==> r.roles == json_string_list(required_roles->0))
            &&& (require_permission is Some && !is_blank(require_permission->0)
                && json_string_list(require_permission->0) is Some
                && json_string_list(require_permission->0)->0.len() > 0
                ==> r.permissions == json_string_list(require_permission->0))
        }),
{
}

} // verus!
