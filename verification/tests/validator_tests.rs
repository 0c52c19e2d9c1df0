use styx::dto::auth::AuthResponse;
use styx::proxy_core::validator::{AuthChecker, ParseRouteAuth};

fn strings(items: &[&str]) -> Vec<String> {
    items.iter().map(|s| s.to_string()).collect()
}

fn user(valid: bool, roles: Option<&[&str]>, permissions: Option<&[&str]>) -> AuthResponse {
    AuthResponse { valid, roles: roles.map(strings), permissions: permissions.map(strings) }
}

#[test]
fn roles_are_read_from_a_json_array() {
    let r = ParseRouteAuth::from_route_auth_fields(&Some("[\"admin\", \"user\"]".to_string()), &None);
    assert_eq!(r.roles, Some(strings(&["admin", "user"])));
    assert_eq!(r.permissions, None);
    assert!(r.requires_auth());
}

#[test]
fn blank_and_empty_fields_demand_nothing() {
    let r = ParseRouteAuth::from_route_auth_fields(&Some("   ".to_string()), &Some("\t\n".to_string()));
    assert_eq!(r.roles, None);
    assert_eq!(r.permissions, None);
    assert!(!r.requires_auth());
    let r = ParseRouteAuth::from_route_auth_fields(&Some("[]".to_string()), &Some("[]".to_string()));
    assert_eq!(r.roles, None);
    assert_eq!(r.permissions, None);
    assert!(!r.requires_auth());
    let r = ParseRouteAuth::from_route_auth_fields(&None, &None);
    assert!(!r.requires_auth());
}

#[test]
fn invalid_roles_json_is_ignored() {
    let r = ParseRouteAuth::from_route_auth_fields(&Some("admin".to_string()), &None);
    assert_eq!(r.roles, None);
    assert!(!r.requires_auth());
}

#[test]
fn plain_permission_text_is_one_permission() {
    let r = ParseRouteAuth::from_route_auth_fields(&None, &Some("write:routes".to_string()));
    assert_eq!(r.permissions, Some(strings(&["write:routes"])));
    let r = ParseRouteAuth::from_route_auth_fields(&None, &Some(" [\"read\"] ".to_string()));
    assert_eq!(r.permissions, Some(strings(&["read"])));
    assert!(r.requires_auth());
}

#[test]
fn invalid_user_is_always_denied() {
    let open = ParseRouteAuth { permissions: None, roles: None };
    assert!(!AuthChecker::can_access(&open, &user(false, Some(&["admin"]), None)));
}

#[test]
fn open_route_admits_valid_user() {
    let open = ParseRouteAuth { permissions: None, roles: None };
    assert!(AuthChecker::can_access(&open, &user(true, None, None)));
    let empty = ParseRouteAuth { permissions: Some(vec![]), roles: Some(vec![]) };
    assert!(AuthChecker::can_access(&empty, &user(true, None, None)));
}

#[test]
fn one_matching_role_suffices() {
    let route = ParseRouteAuth { permissions: None, roles: Some(strings(&["admin", "ops"])) };
    assert!(AuthChecker::can_access(&route, &user(true, Some(&["guest", "ops"]), None)));
    assert!(!AuthChecker::can_access(&route, &user(true, Some(&["guest"]), None)));
    assert!(!AuthChecker::can_access(&route, &user(true, None, Some(&["admin"]))));
}

#[test]
fn roles_and_permissions_are_both_needed() {
    let route = ParseRouteAuth { permissions: Some(strings(&["write"])), roles: Some(strings(&["admin"])) };
    assert!(AuthChecker::can_access(&route, &user(true, Some(&["admin"]), Some(&["write"]))));
    assert!(!AuthChecker::can_access(&route, &user(true, Some(&["admin"]), Some(&["read"]))));
    assert!(!AuthChecker::can_access(&route, &user(true, Some(&["admin"]), None)));
}

#[test]
fn empty_role_list_beside_permissions_denies() {
    let route = ParseRouteAuth { permissions: Some(strings(&["write"])), roles: Some(vec![]) };
    assert!(route.requires_auth());
    assert!(!AuthChecker::can_access(&route, &user(true, Some(&["admin"]), Some(&["write"]))));
}

#[test]
fn more_grants_keep_access() {
    let route = ParseRouteAuth { permissions: Some(strings(&["read"])), roles: None };
    assert!(AuthChecker::can_access(&route, &user(true, None, Some(&["read"]))));
    assert!(AuthChecker::can_access(&route, &user(true, None, Some(&["read", "write"]))));
}

#[test]
fn requirements_from_given_parse_results() {
    let r = ParseRouteAuth::from_parsed_fields(
        &Some("anything".to_string()),
        Some(strings(&["ops"])),
        &Some("perm-text".to_string()),
        None,
    );
    assert_eq!(r.roles, Some(strings(&["ops"])));
    assert_eq!(r.permissions, Some(strings(&["perm-text"])));
    let r = ParseRouteAuth::from_parsed_fields(&Some("x".to_string()), None, &Some("y".to_string()), Some(vec![]));
    assert_eq!(r.roles, None);
    assert_eq!(r.permissions, None);
    let r = ParseRouteAuth::from_parsed_fields(&Some(" ".to_string()), Some(strings(&["a"])), &None, Some(strings(&["b"])));
    assert_eq!(r.roles, None);
    assert_eq!(r.permissions, None);
    assert!(!r.requires_auth());
}
