use styx::db::Route;
use styx::dto::auth::AuthResponse;
use styx::proxy::{
    build_target, copies_response_header, relative_reference_for, status_class, Gateway, GatewayAction,
    GatewayEvent, GatewayRequest, Reply, StatusClass, Target,
};
use styx::proxy_core::auth::AuthError;

fn route(pattern: &str, target: &str, roles: Option<&str>, perms: Option<&str>) -> Route {
    Route {
        id: 5,
        path_pattern: pattern.to_string(),
        http_method: "GET".to_string(),
        target_url: target.to_string(),
        required_roles: roles.map(|s| s.to_string()),
        require_permission: perms.map(|s| s.to_string()),
    }
}

fn request(path: &str, query: &str, token: Option<&str>) -> GatewayRequest {
    GatewayRequest {
        path: path.to_string(),
        method: "GET".to_string(),
        query: query.to_string(),
        token: token.map(|s| s.to_string()),
    }
}

fn run_to_auth(req: GatewayRequest, r: Route) -> (Gateway, GatewayAction) {
    let g = Gateway::new(req);
    let (g, a) = g.step(GatewayEvent::Start);
    assert!(matches!(a, GatewayAction::LookupRoute));
    let (g, a) = g.step(GatewayEvent::RouteFound(r));
    assert!(matches!(a, GatewayAction::CountHit(5)));
    g.step(GatewayEvent::HitCounted)
}

#[test]
fn relative_reference_strips_route_prefix() {
    assert_eq!(relative_reference_for("/google/search", "/google/*", "q=1"), "./search?q=1");
    assert_eq!(relative_reference_for("/google", "/google/*", ""), ".?");
    assert_eq!(relative_reference_for("/google", "/goo", "a=b"), "./gle?a=b");
    assert_eq!(relative_reference_for("/other/x", "/google/*", ""), "./other/x?");
    assert_eq!(relative_reference_for("/a/b", "/*", "z"), "./a/b?z");
}

#[test]
fn target_url_is_resolved_against_base_with_trailing_slash() {
    match build_target("http://localhost:8080/v1", "./search?q=1") {
        Target::Ready(u) => assert_eq!(u, "http://localhost:8080/v1/search?q=1"),
        _ => panic!("expected a target"),
    }
    match build_target("http://localhost:8080/v1/", "./items?") {
        Target::Ready(u) => assert_eq!(u, "http://localhost:8080/v1/items?"),
        _ => panic!("expected a target"),
    }
    match build_target("http://example.com", ".?") {
        Target::Ready(u) => assert_eq!(u, "http://example.com/?"),
        _ => panic!("expected a target"),
    }
}

#[test]
fn bad_target_urls() {
    assert!(matches!(build_target("not a url", "./x?"), Target::Failed(Reply::InvalidTargetUrl)));
    assert!(matches!(build_target("mailto:someone", "./x?"), Target::Abort));
}

#[test]
fn open_route_without_token_is_forwarded() {
    let (_, a) = run_to_auth(request("/api/users", "page=2", None), route("/api/*", "http://backend:9000/base", None, None));
    match a {
        GatewayAction::Forward(u) => assert_eq!(u, "http://backend:9000/base/users?page=2"),
        _ => panic!("expected a forward"),
    }
}

#[test]
fn protected_route_without_token_is_refused() {
    let (_, a) = run_to_auth(request("/api/users", "", None), route("/api/*", "http://b", Some("[\"admin\"]"), None));
    match a {
        GatewayAction::Reply(r) => {
            assert_eq!(r, Reply::AuthorizationRequired);
            assert_eq!(r.status(), 401);
            assert_eq!(r.message(), "Authorization required");
        }
        _ => panic!("expected a refusal"),
    }
}

#[test]
fn token_is_checked_and_roles_enforced() {
    let (g, a) = run_to_auth(request("/api/users", "", Some("tok")), route("/api/*", "http://b", Some("[\"admin\"]"), None));
    match a {
        GatewayAction::LookupCachedToken(t) => assert_eq!(t, "tok"),
        _ => panic!("expected a cache lookup"),
    }
    let (g, a) = g.step(GatewayEvent::CacheAnswered(None));
    match a {
        GatewayAction::ValidateToken(t) => assert_eq!(t, "tok"),
        _ => panic!("expected a token check"),
    }
    let guest = AuthResponse { valid: true, roles: Some(vec!["guest".to_string()]), permissions: None };
    let (g, a) = g.step(GatewayEvent::TokenAccepted(guest));
    match a {
        GatewayAction::RememberToken(t, answer) => {
            assert_eq!(t, "tok");
            assert_eq!(answer.roles, Some(vec!["guest".to_string()]));
        }
        _ => panic!("expected the answer to be stored"),
    }
    let (_, a) = g.step(GatewayEvent::TokenRemembered);
    match a {
        GatewayAction::Reply(r) => {
            assert_eq!(r.status(), 403);
            assert_eq!(r.message(), "Forbidden: Insufficient permissions or roles");
        }
        _ => panic!("expected a refusal"),
    }
}

#[test]
fn admitted_token_is_forwarded_and_relayed() {
    let (g, _) = run_to_auth(request("/api/users", "", Some("tok")), route("/api/*", "http://b/", Some("[\"admin\"]"), None));
    let (g, _) = g.step(GatewayEvent::CacheAnswered(None));
    let admin = AuthResponse { valid: true, roles: Some(vec!["admin".to_string()]), permissions: None };
    let (g, a) = g.step(GatewayEvent::TokenAccepted(admin));
    assert!(matches!(a, GatewayAction::RememberToken(_, _)));
    let (g, a) = g.step(GatewayEvent::TokenRemembered);
    match a {
        GatewayAction::Forward(u) => assert_eq!(u, "http://b/users?"),
        _ => panic!("expected a forward"),
    }
    let (g, a) = g.step(GatewayEvent::BackendReplied);
    assert!(matches!(a, GatewayAction::Relay));
    let (g, a) = g.step(GatewayEvent::ResponseBuilt);
    assert!(matches!(a, GatewayAction::Finish));
    let (_, a) = g.step(GatewayEvent::Start);
    assert!(matches!(a, GatewayAction::Abort));
}

#[test]
fn refused_token_on_open_route_is_401() {
    let (g, _) = run_to_auth(request("/x", "", Some("bad")), route("/*", "http://b", None, None));
    let (g, _) = g.step(GatewayEvent::CacheAnswered(None));
    let (_, a) = g.step(GatewayEvent::TokenRejected(AuthError::InvalidToken));
    match a {
        GatewayAction::Reply(r) => assert_eq!((r.status(), r.message()), (401, "Invalid API token")),
        _ => panic!("expected a refusal"),
    }
}

#[test]
fn auth_service_failure_is_500() {
    let (g, _) = run_to_auth(request("/x", "", Some("t")), route("/*", "http://b", None, None));
    let (g, _) = g.step(GatewayEvent::CacheAnswered(None));
    let (_, a) = g.step(GatewayEvent::TokenRejected(AuthError::NetworkError("down".to_string())));
    match a {
        GatewayAction::Reply(r) => assert_eq!((r.status(), r.message()), (500, "Authentication service error")),
        _ => panic!("expected a refusal"),
    }
}

#[test]
fn route_lookup_outcomes() {
    let (g, _) = Gateway::new(request("/x", "", None)).step(GatewayEvent::Start);
    let (_, a) = g.step(GatewayEvent::RouteMissing);
    match a {
        GatewayAction::Reply(r) => assert_eq!((r.status(), r.message()), (404, "No route matched")),
        _ => panic!("expected a reply"),
    }
    let (g, _) = Gateway::new(request("/x", "", None)).step(GatewayEvent::Start);
    let (_, a) = g.step(GatewayEvent::RouteLookupFailed);
    match a {
        GatewayAction::Reply(r) => assert_eq!((r.status(), r.message()), (500, "DB error")),
        _ => panic!("expected a reply"),
    }
}

#[test]
fn backend_failures() {
    let (g, a) = run_to_auth(request("/x", "", None), route("/*", "http://b", None, None));
    assert!(matches!(a, GatewayAction::Forward(_)));
    let (_, a) = g.step(GatewayEvent::BackendUnreachable);
    match a {
        GatewayAction::Reply(r) => assert_eq!((r.status(), r.message()), (502, "Error contactando backend")),
        _ => panic!("expected a reply"),
    }
    let (g, _) = run_to_auth(request("/x", "", None), route("/*", "http://b", None, None));
    let (_, a) = g.step(GatewayEvent::RequestBodyUnreadable);
    match a {
        GatewayAction::Reply(r) => assert_eq!((r.status(), r.message()), (400, "Error leyendo body")),
        _ => panic!("expected a reply"),
    }
}

#[test]
fn invalid_target_is_500() {
    let (_, a) = run_to_auth(request("/x", "", None), route("/*", "::nope::", None, None));
    match a {
        GatewayAction::Reply(r) => assert_eq!((r.status(), r.message()), (500, "Invalid target URL configured")),
        _ => panic!("expected a reply"),
    }
}

#[test]
fn hop_by_hop_headers_are_dropped() {
    assert!(!copies_response_header("Connection"));
    assert!(!copies_response_header("keep-alive"));
    assert!(!copies_response_header("Transfer-Encoding"));
    assert!(!copies_response_header("CONTENT-LENGTH"));
    assert!(!copies_response_header("te"));
    assert!(copies_response_header("content-type"));
    assert!(copies_response_header("tee"));
    assert!(copies_response_header("x-upgrade"));
}

#[test]
fn status_classes() {
    assert_eq!(status_class(200), StatusClass::Success);
    assert_eq!(status_class(299), StatusClass::Success);
    assert_eq!(status_class(302), StatusClass::Uncounted);
    assert_eq!(status_class(404), StatusClass::Error);
    assert_eq!(status_class(503), StatusClass::Error);
    assert_eq!(status_class(100), StatusClass::Uncounted);
}

#[test]
fn fresh_cached_answer_skips_the_token_service() {
    let admin = AuthResponse { valid: true, roles: Some(vec!["admin".to_string()]), permissions: None };
    let (g, a) = run_to_auth(request("/api/users", "", Some("tok")), route("/api/*", "http://b/", Some("[\"admin\"]"), None));
    assert!(matches!(a, GatewayAction::LookupCachedToken(_)));
    let (_, a) = g.step(GatewayEvent::CacheAnswered(Some(admin)));
    match a {
        GatewayAction::Forward(u) => assert_eq!(u, "http://b/users?"),
        _ => panic!("expected a forward"),
    }
    let guest = AuthResponse { valid: true, roles: Some(vec!["guest".to_string()]), permissions: None };
    let (g, _) = run_to_auth(request("/api/users", "", Some("tok")), route("/api/*", "http://b/", Some("[\"admin\"]"), None));
    let (_, a) = g.step(GatewayEvent::CacheAnswered(Some(guest)));
    match a {
        GatewayAction::Reply(r) => assert_eq!(r.status(), 403),
        _ => panic!("expected a refusal"),
    }
}
