//! Errors of token verification, and the decisions taken on the token
//! service's answer.

use vstd::prelude::*;

verus! {

/// Why a token could not be verified.
#[derive(Debug)]
pub enum AuthError {
    InvalidToken,
    NetworkError(String),
    ParseError(String),
    ServiceError(String),
}

/// The text describing an `AuthError`.
pub open spec fn auth_error_text(e: AuthError) -> Seq<char> {
    match e {
        AuthError::InvalidToken => "Invalid API token"@,
        AuthError::NetworkError(d) => "Network error communicating with auth service: "@ + d@,
        AuthError::ParseError(d) => "Error parsing auth service response: "@ + d@,
        AuthError::ServiceError(d) => "Auth service error: "@ + d@,
    }
}

impl AuthError {
    /// The error's description, as it is shown to users and in logs.
    pub fn message(&self) -> (m: String)
        ensures
            m@ == auth_error_text(*self),
    {
        match self {
            AuthError::InvalidToken => String::from_str("Invalid API token"),
            AuthError::NetworkError(d) => String::from_str(
                "Network error communicating with auth service: ",
            ).concat(d.as_str()),
            AuthError::ParseError(d) => String::from_str(
                "Error parsing auth service response: ",
            ).concat(d.as_str()),
            AuthError::ServiceError(d) => String::from_str("Auth service error: ").concat(
                d.as_str(),
            ),
        }
    }
}

/// What to do once the token service has answered with an HTTP status.
#[derive(Debug, PartialEq, Eq)]
pub enum TokenCheckStep {
    /// 200: read the body as the token's profile.
    ReadProfile,
    /// 401 or 403: the token is refused.
    Refused,
    /// Any other status: read the body as the text of a service error.
    ReadErrorText,
}

/// The step that follows the token service's `status`.
pub open spec fn step_for_status(status: u16) -> TokenCheckStep {
    if status == 200 {
        TokenCheckStep::ReadProfile
    } else if status == 401 || status == 403 {
        TokenCheckStep::Refused
    } else {
        TokenCheckStep::ReadErrorText
    }
}

/// Decides what follows the token service's `status`.
pub fn token_check_step(status: u16) -> (s: TokenCheckStep)
    ensures
        s == step_for_status(status),
{
    if status == 200 {
        TokenCheckStep::ReadProfile
    } else if status == 401 || status == 403 {
        TokenCheckStep::Refused
    } else {
        TokenCheckStep::ReadErrorText
    }
}

/// The error reported for an unexpected status: its text names the status
/// and the body, or `No body` when the body could not be read.
pub open spec fn service_error_detail(status_text: Seq<char>, body: Option<Seq<char>>) -> Seq<char> {
    "Auth service returned status "@ + status_text + ": "@ + match body {
        Some(b) => b,
        None => "No body"@,
    }
}

/// Builds the service error for an answer with status `status_text`
/// (`200 OK`-style) and `body` (`None` when it could not be read).
pub fn service_error(status_text: &str, body: Option<String>) -> (e: AuthError)
    ensures
        e matches AuthError::ServiceError(d) && d@ == service_error_detail(
            status_text@,
            match body {
                Some(b) => Some(b@),
                None => None,
            },
        ),
{
    let text = match body {
        Some(b) => b,
        None => String::from_str("No body"),
    };
    let d = String::from_str("Auth service returned status ").concat(status_text).concat(
        ": ",
    ).concat(text.as_str());
    AuthError::ServiceError(d)
}

} // verus!
