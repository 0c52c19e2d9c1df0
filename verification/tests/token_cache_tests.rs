use styx::dto::auth::AuthResponse;
use styx::proxy_core::token_cache::TokenCache;

fn answer(role: &str) -> AuthResponse {
    AuthResponse { valid: true, roles: Some(vec![role.to_string()]), permissions: Some(vec!["read".to_string()]) }
}

#[test]
fn empty_cache_has_no_answer() {
    let c = TokenCache::new();
    assert!(c.lookup("tok", 100, 60).is_none());
}

#[test]
fn remembered_answer_is_served_within_ttl() {
    let mut c = TokenCache::new();
    c.remember("tok".to_string(), answer("admin"), 100);
    let a = c.lookup("tok", 100, 60).unwrap();
    assert!(a.valid);
    assert_eq!(a.roles, Some(vec!["admin".to_string()]));
    assert_eq!(a.permissions, Some(vec!["read".to_string()]));
    assert!(c.lookup("tok", 159, 60).is_some());
    assert!(c.lookup("other", 120, 60).is_none());
}

#[test]
fn answer_expires_after_ttl() {
    let mut c = TokenCache::new();
    c.remember("tok".to_string(), answer("admin"), 100);
    assert!(c.lookup("tok", 160, 60).is_none());
    assert!(c.lookup("tok", 99, 60).is_none());
    assert!(c.lookup("tok", 100, 0).is_none());
}

#[test]
fn newer_answer_replaces_older() {
    let mut c = TokenCache::new();
    c.remember("a".to_string(), answer("guest"), 100);
    c.remember("b".to_string(), answer("ops"), 100);
    c.remember("a".to_string(), answer("admin"), 150);
    assert_eq!(c.lookup("a", 190, 60).unwrap().roles, Some(vec!["admin".to_string()]));
    assert_eq!(c.lookup("b", 120, 60).unwrap().roles, Some(vec!["ops".to_string()]));
    assert!(c.lookup("b", 190, 60).is_none());
}

#[test]
fn copied_answer_is_equal() {
    let a = answer("x");
    let b = a.copied();
    assert_eq!(a.valid, b.valid);
    assert_eq!(a.roles, b.roles);
    assert_eq!(a.permissions, b.permissions);
}

#[test]
fn stale_answers_are_forgotten() {
    let mut c = TokenCache::new();
    c.remember("old".to_string(), answer("a"), 100);
    c.remember("new".to_string(), answer("b"), 150);
    c.forget_stale(170, 60);
    assert!(c.lookup("old", 120, 60).is_none());
    assert_eq!(c.lookup("new", 170, 60).unwrap().roles, Some(vec!["b".to_string()]));
    c.forget_stale(300, 60);
    assert!(c.lookup("new", 200, 60).is_none());
}
