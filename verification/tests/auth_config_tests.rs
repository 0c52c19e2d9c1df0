use styx::config::{decimal_text, HttpConf};
use styx::proxy_core::auth::{service_error, token_check_step, AuthError, TokenCheckStep};

#[test]
fn token_service_status_decides_next_step() {
    assert_eq!(token_check_step(200), TokenCheckStep::ReadProfile);
    assert_eq!(token_check_step(401), TokenCheckStep::Refused);
    assert_eq!(token_check_step(403), TokenCheckStep::Refused);
    assert_eq!(token_check_step(500), TokenCheckStep::ReadErrorText);
    assert_eq!(token_check_step(204), TokenCheckStep::ReadErrorText);
}

#[test]
fn service_error_names_status_and_body() {
    let e = service_error("500 Internal Server Error", Some("boom".to_string()));
    assert_eq!(e.message(), "Auth service error: Auth service returned status 500 Internal Server Error: boom");
    match service_error("502 Bad Gateway", None) {
        AuthError::ServiceError(d) => assert_eq!(d, "Auth service returned status 502 Bad Gateway: No body"),
        _ => panic!("expected a service error"),
    }
}

#[test]
fn auth_error_messages() {
    assert_eq!(AuthError::InvalidToken.message(), "Invalid API token");
    assert_eq!(
        AuthError::NetworkError("timeout".to_string()).message(),
        "Network error communicating with auth service: timeout"
    );
    assert_eq!(AuthError::ParseError("eof".to_string()).message(), "Error parsing auth service response: eof");
}

#[test]
fn listen_address_formats_port() {
    let c = HttpConf { timeout: 30000, port: 3080, address: "0.0.0.0".to_string() };
    assert_eq!(c.listen_address(), "0.0.0.0:3080");
    let c = HttpConf { timeout: 0, port: -5, address: "h".to_string() };
    assert_eq!(c.listen_address(), "h:-5");
    assert_eq!(decimal_text(0), "0");
    assert_eq!(decimal_text(i16::MIN), "-32768");
    assert_eq!(decimal_text(i16::MAX), "32767");
}
