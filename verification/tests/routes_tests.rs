use styx::admin::{create_outcome, delete_outcome, route_changed, update_outcome, AdminReply};
use styx::db::{find_matching_route, path_matches, Route};

fn route(id: i64, pattern: &str, method: &str) -> Route {
    Route {
        id,
        path_pattern: pattern.to_string(),
        http_method: method.to_string(),
        target_url: "http://localhost:9000".to_string(),
        required_roles: None,
        require_permission: None,
    }
}

#[test]
fn glob_patterns_match_paths() {
    assert!(path_matches("/api/*", "/api/users"));
    assert!(path_matches("/api/*", "/api/users/42"));
    assert!(!path_matches("/api/*", "/other"));
    assert!(path_matches("/exact", "/exact"));
    assert!(!path_matches("/exact", "/exact/more"));
}

#[test]
fn invalid_glob_matches_nothing() {
    assert!(!path_matches("/a***", "/a***"));
    assert!(!path_matches("/[", "/["));
}

#[test]
fn longest_pattern_wins() {
    let routes = vec![route(1, "/*", "GET"), route(2, "/api/*", "GET"), route(3, "/api/v1/*", "GET")];
    let r = find_matching_route(routes, "/api/v1/items", "GET").unwrap();
    assert_eq!(r.id, 3);
}

#[test]
fn first_of_equally_long_wins() {
    let routes = vec![route(1, "/a/*", "GET"), route(2, "/*/b", "GET")];
    let r = find_matching_route(routes, "/a/b", "GET").unwrap();
    assert_eq!(r.id, 1);
}

#[test]
fn method_must_match_or_be_all() {
    let routes = vec![route(1, "/api/*", "POST"), route(2, "/*", "ALL")];
    let r = find_matching_route(routes.clone(), "/api/x", "GET").unwrap();
    assert_eq!(r.id, 2);
    let r = find_matching_route(routes, "/api/x", "POST").unwrap();
    assert_eq!(r.id, 1);
}

#[test]
fn no_route_matches() {
    let routes = vec![route(1, "/api/*", "GET")];
    assert!(find_matching_route(routes, "/web", "GET").is_none());
    assert!(find_matching_route(vec![], "/web", "GET").is_none());
}

#[test]
fn admin_outcomes() {
    assert_eq!(create_outcome(true), AdminReply::Created);
    assert_eq!(create_outcome(true).status(), 201);
    assert_eq!(create_outcome(false).message(), "Error creando la ruta");
    assert_eq!(update_outcome(Some(true)).message(), "Ruta actualizada correctamente");
    assert_eq!(update_outcome(Some(false)).status(), 404);
    assert_eq!(update_outcome(None).status(), 500);
    assert_eq!(delete_outcome(Some(true)).message(), "Ruta eliminada correctamente");
    assert_eq!(delete_outcome(Some(false)).message(), "Ruta no encontrada");
    assert_eq!(delete_outcome(None).message(), "Error eliminando la ruta");
    assert_eq!(AdminReply::ListFailed.status(), 500);
    assert!(route_changed(1));
    assert!(!route_changed(0));
}
