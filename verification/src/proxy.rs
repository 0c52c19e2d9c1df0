//! The gateway's handling of one request, as a state machine: each step
//! takes what the outside world reported (an event) and says what to do
//! next (an action). Looking routes up, counting hits, asking the token
//! service and talking to the backend are left to the caller.

use vstd::prelude::*;

use crate::db::Route;
use crate::dto::auth::{AuthResponse, AuthView};
use crate::proxy_core::token_cache::{cached_answer, is_fresh, lemma_remembered_answer_is_served, opt_answer, CachedAuth};
use crate::proxy_core::auth::AuthError;
use crate::proxy_core::validator::{
    access_granted, opt_text, requirements_from_fields, AuthChecker, AuthRequirements,
    ParseRouteAuth,
};
use crate::text::{
    chars_of, eq_ignoring_ascii_case, has_prefix, has_suffix, str_ends_with, str_eq_ignore_ascii_case,
    str_starts_with,
};

verus! {

// ---------------------------------------------------------------------------
// Rewriting the request path for the backend
// ---------------------------------------------------------------------------

/// The part of a route pattern that is stripped from request paths: the
/// pattern without a trailing `/*`.
pub open spec fn route_prefix(pattern: Seq<char>) -> Seq<char> {
    if has_suffix(pattern, seq!['/', '*']) {
        pattern.subrange(0, pattern.len() - 2)
    } else {
        pattern
    }
}

/// The request path with the route's prefix removed (the whole path when it
/// does not start with the prefix).
pub open spec fn remaining_path(path: Seq<char>, pattern: Seq<char>) -> Seq<char> {
    let prefix = route_prefix(pattern);
    if has_prefix(path, prefix) {
        path.subrange(prefix.len() as int, path.len() as int)
    } else {
        path
    }
}

/// The reference, relative to the target URL, that a request on `path`
/// with query `query` is sent to: `./rest?query` when the remaining path is
/// not empty and does not start with `/`, `.rest?query` otherwise.
pub open spec fn relative_reference(path: Seq<char>, pattern: Seq<char>, query: Seq<char>) -> Seq<char> {
    let rest = remaining_path(path, pattern);
    if rest.len() > 0 && rest[0] != '/' {
        seq!['.', '/'] + rest + seq!['?'] + query
    } else {
        seq!['.'] + rest + seq!['?'] + query
    }
}

/// Builds the reference, relative to the route's target URL, for a request
/// on `path` with query `query` served by a route with pattern `pattern`.
pub fn relative_reference_for(path: &str, pattern: &str, query: &str) -> (r: String)
    ensures
        r@ == relative_reference(path@, pattern@, query@),
{
    let star = "/*";
    proof {
        reveal_strlit("/*");
        assert(star@ =~= seq!['/', '*']);
    }
    let plen = pattern.unicode_len();
    let prefix: &str = if str_ends_with(pattern, star) {
        pattern.substring_char(0, plen - 2)
    } else {
        pattern
    };
    let rest: &str = if str_starts_with(path, prefix) {
        path.substring_char(prefix.unicode_len(), path.unicode_len())
    } else {
        path
    };
    let rc = chars_of(rest);
    let slash_dot = "./";
    let dot = ".";
    let question = "?";
    proof {
        reveal_strlit("./");
        reveal_strlit(".");
        reveal_strlit("?");
        assert(slash_dot@ =~= seq!['.', '/']);
        assert(dot@ =~= seq!['.']);
        assert(question@ =~= seq!['?']);
    }
    let head = if rc.len() > 0 && rc[0] != '/' {
        slash_dot
    } else {
        dot
    };
    let r = String::from_str(head).concat(rest).concat(question).concat(query);
    proof {
        if rest@.len() > 0 && rest@[0] != '/' {
            assert(r@ =~= seq!['.', '/'] + rest@ + seq!['?'] + query@);
        } else {
            assert(r@ =~= seq!['.'] + rest@ + seq!['?'] + query@);
        }
    }
    r
}

// ---------------------------------------------------------------------------
// Resolving the backend URL (through the `url` crate)
// ---------------------------------------------------------------------------

#[verifier::external_type_specification]
#[verifier::external_body]
pub struct ExUrl(url::Url);

#[verifier::external_type_specification]
#[verifier::external_body]
pub struct ExUrlParseError(url::ParseError);

/// What `url::Url::parse` makes of `input`: the serialization of the parsed
/// URL, or `None` when it fails. A `Url` is determined by its serialization
/// (the crate compares URLs by it), so the names below take it.
pub uninterp spec fn url_parsed(input: Seq<char>) -> Option<Seq<char>>;

/// `url::Url::path` of the URL with serialization `url`.
pub uninterp spec fn url_path(url: Seq<char>) -> Seq<char>;

/// The serialization of the URL `url` after `path_segments_mut()` and
/// `push(segment)`, or `None` when `path_segments_mut` fails (a
/// cannot-be-a-base URL).
pub uninterp spec fn url_with_pushed_segment(url: Seq<char>, segment: Seq<char>) -> Option<Seq<char>>;

/// The serialization of `url::Url::join(url, input)`, or `None` when it
/// fails.
pub uninterp spec fn url_joined(url: Seq<char>, input: Seq<char>) -> Option<Seq<char>>;

/// A parsed URL, with its serialization.
struct TargetUrl {
    text: String,
    url: url::Url,
}

impl TargetUrl {
    /// The URL's serialization.
    closed spec fn text(&self) -> Seq<char> {
        self.text@
    }

    /// Parses `input` with `url::Url::parse`. Trusted: the result is
    /// `url_parsed(input)`.
    #[verifier::external_body]
    fn parse(input: &str) -> (r: Result<TargetUrl, url::ParseError>)
        ensures
            match r {
                Ok(u) => url_parsed(input@) == Some(u.text()),
                Err(_) => url_parsed(input@) is None,
            },
    {
        match url::Url::parse(input) {
            Ok(url) => Ok(TargetUrl { text: url.as_str().to_string(), url }),
            Err(e) => Err(e),
        }
    }

    /// The URL's path, `url::Url::path`. Trusted: it is `url_path` of the
    /// serialization.
    #[verifier::external_body]
    fn path(&self) -> (r: String)
        ensures
            r@ == url_path(self.text()),
    {
        self.url.path().to_string()
    }

    /// Appends the path segment `segment` with `path_segments_mut()` and
    /// `push(segment)`. Trusted: `false`, and the URL unchanged, when
    /// `url_with_pushed_segment` is `None`; otherwise `true` and the URL's
    /// serialization is `url_with_pushed_segment`.
    #[verifier::external_body]
    fn push_segment(&mut self, segment: &str) -> (ok: bool)
        ensures
            ok == url_with_pushed_segment(old(self).text(), segment@) is Some,
            ok ==> url_with_pushed_segment(old(self).text(), segment@) == Some(final(self).text()),
            !ok ==> final(self).text() == old(self).text(),
    {
        match self.url.path_segments_mut() {
            Ok(mut segments) => {
                segments.push(segment);
            },
            Err(()) => {
                return false;
            },
        }
        self.text = self.url.as_str().to_string();
        true
    }

    /// Resolves `input` against the URL with `url::Url::join`, giving the
    /// result's serialization. Trusted: the result is `url_joined`.
    #[verifier::external_body]
    fn join(&self, input: &str) -> (r: Result<String, url::ParseError>)
        ensures
            match r {
                Ok(s) => url_joined(self.text(), input@) == Some(s@),
                Err(_) => url_joined(self.text(), input@) is None,
            },
    {
        match self.url.join(input) {
            Ok(joined) => Ok(joined.to_string()),
            Err(e) => Err(e),
        }
    }
}

// ---------------------------------------------------------------------------
// Replies
// ---------------------------------------------------------------------------

/// The answers that the gateway gives itself, without the backend.
#[derive(Debug, Clone, Copy, PartialEq, Eq)]
pub enum Reply {
    NoRoute,
    DatabaseError,
    InvalidToken,
    AuthServiceError,
    AuthorizationRequired,
    Forbidden,
    InvalidTargetUrl,
    TargetUrlUnbuildable,
    RequestBodyUnreadable,
    BackendUnreachable,
    BackendBodyUnreadable,
    ResponseUnbuildable,
}

/// The HTTP status of a reply.
pub open spec fn reply_status(r: Reply) -> u16 {
    match r {
        Reply::NoRoute => 404,
        Reply::DatabaseError => 500,
        Reply::InvalidToken => 401,
        Reply::AuthServiceError => 500,
        Reply::AuthorizationRequired => 401,
        Reply::Forbidden => 403,
        Reply::InvalidTargetUrl => 500,
        Reply::TargetUrlUnbuildable => 500,
        Reply::RequestBodyUnreadable => 400,
        Reply::BackendUnreachable => 502,
        Reply::BackendBodyUnreadable => 502,
        Reply::ResponseUnbuildable => 500,
    }
}

/// The body text of a reply.
pub open spec fn reply_text(r: Reply) -> Seq<char> {
    match r {
        Reply::NoRoute => "No route matched"@,
        Reply::DatabaseError => "DB error"@,
        Reply::InvalidToken => "Invalid API token"@,
        Reply::AuthServiceError => "Authentication service error"@,
        Reply::AuthorizationRequired => "Authorization required"@,
        Reply::Forbidden => "Forbidden: Insufficient permissions or roles"@,
        Reply::InvalidTargetUrl => "Invalid target URL configured"@,
        Reply::TargetUrlUnbuildable => "Error building target URL"@,
        Reply::RequestBodyUnreadable => "Error leyendo body"@,
        Reply::BackendUnreachable => "Error contactando backend"@,
        Reply::BackendBodyUnreadable => "Error leyendo body respuesta"@,
        Reply::ResponseUnbuildable => "Error construyendo response"@,
    }
}

impl Reply {
    /// The reply's HTTP status.
    pub fn status(&self) -> (s: u16)
        ensures
            s == reply_status(*self),
    {
        match self {
            Reply::NoRoute => 404,
            Reply::DatabaseError => 500,
            Reply::InvalidToken => 401,
            Reply::AuthServiceError => 500,
            Reply::AuthorizationRequired => 401,
            Reply::Forbidden => 403,
            Reply::InvalidTargetUrl => 500,
            Reply::TargetUrlUnbuildable => 500,
            Reply::RequestBodyUnreadable => 400,
            Reply::BackendUnreachable => 502,
            Reply::BackendBodyUnreadable => 502,
            Reply::ResponseUnbuildable => 500,
        }
    }

    /// The reply's body text.
    pub fn message(&self) -> (m: &'static str)
        ensures
            m@ == reply_text(*self),
    {
        match self {
            Reply::NoRoute => "No route matched",
            Reply::DatabaseError => "DB error",
            Reply::InvalidToken => "Invalid API token",
            Reply::AuthServiceError => "Authentication service error",
            Reply::AuthorizationRequired => "Authorization required",
            Reply::Forbidden => "Forbidden: Insufficient permissions or roles",
            Reply::InvalidTargetUrl => "Invalid target URL configured",
            Reply::TargetUrlUnbuildable => "Error building target URL",
            Reply::RequestBodyUnreadable => "Error leyendo body",
            Reply::BackendUnreachable => "Error contactando backend",
            Reply::BackendBodyUnreadable => "Error leyendo body respuesta",
            Reply::ResponseUnbuildable => "Error construyendo response",
        }
    }
}

// ---------------------------------------------------------------------------
// The backend URL of a request
// ---------------------------------------------------------------------------

/// Where a request is to be sent, in the model.
pub enum TargetView {
    /// The backend URL.
    Ready(Seq<char>),
    /// The gateway answers itself.
    Failed(Reply),
    /// The request is dropped unanswered (the target URL cannot take a
    /// trailing slash).
    Abort,
}

/// The backend URL for the route's target `target` and the relative
/// reference `relative`: the target is parsed, given a trailing slash when
/// its path lacks one, and the reference is resolved against it.
pub open spec fn target_for(target: Seq<char>, relative: Seq<char>) -> TargetView {
    match url_parsed(target) {
        None => TargetView::Failed(Reply::InvalidTargetUrl),
        Some(parsed) => {
            let base = if has_suffix(url_path(parsed), seq!['/']) {
                Some(parsed)
            } else {
                url_with_pushed_segment(parsed, Seq::<char>::empty())
            };
            match base {
                None => TargetView::Abort,
                Some(b) => match url_joined(b, relative) {
                    Some(u) => TargetView::Ready(u),
                    None => TargetView::Failed(Reply::TargetUrlUnbuildable),
                },
            }
        },
    }
}

/// Where a request is to be sent.
pub enum Target {
    Ready(String),
    Failed(Reply),
    Abort,
}

impl View for Target {
    type V = TargetView;

    open spec fn view(&self) -> TargetView {
        match self {
            Target::Ready(s) => TargetView::Ready(s@),
            Target::Failed(r) => TargetView::Failed(*r),
            Target::Abort => TargetView::Abort,
        }
    }
}

/// Resolves `relative` against the route's target URL `target`.
pub fn build_target(target: &str, relative: &str) -> (r: Target)
    ensures
        r@ == target_for(target@, relative@),
{
    let slash = "/";
    proof {
        reveal_strlit("/");
        assert(slash@ =~= seq!['/']);
    }
    match TargetUrl::parse(target) {
        Err(_) => Target::Failed(Reply::InvalidTargetUrl),
        Ok(mut base) => {
            let path = base.path();
            if !str_ends_with(path.as_str(), slash) {
                let empty = "";
                proof {
                    reveal_strlit("");
                    assert(empty@ =~= Seq::<char>::empty());
                }
                if !base.push_segment(empty) {
                    return Target::Abort;
                }
            }
            match base.join(relative) {
                Ok(u) => Target::Ready(u),
                Err(_) => Target::Failed(Reply::TargetUrlUnbuildable),
            }
        },
    }
}

// ---------------------------------------------------------------------------
// The request's course
// ---------------------------------------------------------------------------

/// A request as the gateway sees it: path, method, query string (empty
/// when absent) and the API token from the configured header, if any.
pub struct GatewayRequest {
    pub path: String,
    pub method: String,
    pub query: String,
    pub token: Option<String>,
}

/// A request, by its texts.
pub struct RequestView {
    pub path: Seq<char>,
    pub method: Seq<char>,
    pub query: Seq<char>,
    pub token: Option<Seq<char>>,
}

impl View for GatewayRequest {
    type V = RequestView;

    open spec fn view(&self) -> RequestView {
        RequestView { path: self.path@, method: self.method@, query: self.query@, token: opt_text(self.token) }
    }
}

/// What the caller reports back after carrying out an action.
pub enum GatewayEvent {
    /// The request has arrived.
    Start,
    /// The route lookup found `Route`.
    RouteFound(Route),
    /// No route serves the request.
    RouteMissing,
    /// The route lookup failed.
    RouteLookupFailed,
    /// The hit on the route has been counted.
    HitCounted,
    /// The token cache gave this answer for the token (`None`: no fresh one).
    CacheAnswered(Option<AuthResponse>),
    /// The token service accepted the token, with this answer.
    TokenAccepted(AuthResponse),
    /// The token service refused the token or could not be asked.
    TokenRejected(AuthError),
    /// The token service's answer has been stored in the token cache.
    TokenRemembered,
    /// The request's body could not be read.
    RequestBodyUnreadable,
    /// The backend could not be reached.
    BackendUnreachable,
    /// The backend's body could not be read.
    BackendBodyUnreadable,
    /// The backend answered and its body was read.
    BackendReplied,
    /// The response to the client was built.
    ResponseBuilt,
    /// The response to the client could not be built.
    ResponseUnbuildable,
}

/// What the caller is to do next.
pub enum GatewayAction {
    /// Look up the route for the request's path and method.
    LookupRoute,
    /// Count a hit on the route with this id.
    CountHit(i64),
    /// Look this token up in the token cache, at the current time.
    LookupCachedToken(String),
    /// Ask the token service about this token.
    ValidateToken(String),
    /// Store this answer for this token in the token cache, at the current
    /// time.
    RememberToken(String, AuthResponse),
    /// Send the request to this backend URL.
    Forward(String),
    /// Relay the backend's answer to the client.
    Relay,
    /// The request has been served.
    Finish,
    /// Answer the client with this reply.
    Reply(Reply),
    /// Drop the request unanswered.
    Abort,
}

/// An action, by its texts.
pub enum ActionView {
    LookupRoute,
    CountHit(i64),
    LookupCachedToken(Seq<char>),
    ValidateToken(Seq<char>),
    RememberToken(Seq<char>, AuthView),
    Forward(Seq<char>),
    Relay,
    Finish,
    Reply(Reply),
    Abort,
}

impl View for GatewayAction {
    type V = ActionView;

    open spec fn view(&self) -> ActionView {
        match self {
            GatewayAction::LookupRoute => ActionView::LookupRoute,
            GatewayAction::CountHit(id) => ActionView::CountHit(*id),
            GatewayAction::LookupCachedToken(t) => ActionView::LookupCachedToken(t@),
            GatewayAction::ValidateToken(t) => ActionView::ValidateToken(t@),
            GatewayAction::RememberToken(t, a) => ActionView::RememberToken(t@, a@),
            GatewayAction::Forward(u) => ActionView::Forward(u@),
            GatewayAction::Relay => ActionView::Relay,
            GatewayAction::Finish => ActionView::Finish,
            GatewayAction::Reply(r) => ActionView::Reply(*r),
            GatewayAction::Abort => ActionView::Abort,
        }
    }
}

/// Where a request stands.
pub enum GatewayPhase {
    Start,
    AwaitingRoute,
    AwaitingHitCount { route: Route },
    AwaitingCache { route: Route, requirements: ParseRouteAuth },
    AwaitingToken { route: Route, requirements: ParseRouteAuth },
    AwaitingStore { route: Route, requirements: ParseRouteAuth, user: AuthResponse },
    Forwarding,
    Relaying,
    Done,
}

/// Where a request stands, requirements and answers by their texts.
pub enum PhaseView {
    Start,
    AwaitingRoute,
    AwaitingHitCount { route: Route },
    AwaitingCache { route: Route, requirements: AuthRequirements },
    AwaitingToken { route: Route, requirements: AuthRequirements },
    AwaitingStore { route: Route, requirements: AuthRequirements, user: AuthView },
    Forwarding,
    Relaying,
    Done,
}

impl View for GatewayPhase {
    type V = PhaseView;

    open spec fn view(&self) -> PhaseView {
        match self {
            GatewayPhase::Start => PhaseView::Start,
            GatewayPhase::AwaitingRoute => PhaseView::AwaitingRoute,
            GatewayPhase::AwaitingHitCount { route } => PhaseView::AwaitingHitCount { route: *route },
            GatewayPhase::AwaitingCache { route, requirements } => PhaseView::AwaitingCache {
                route: *route,
                requirements: requirements@,
            },
            GatewayPhase::AwaitingToken { route, requirements } => PhaseView::AwaitingToken {
                route: *route,
                requirements: requirements@,
            },
            GatewayPhase::AwaitingStore { route, requirements, user } => PhaseView::AwaitingStore {
                route: *route,
                requirements: requirements@,
                user: user@,
            },
            GatewayPhase::Forwarding => PhaseView::Forwarding,
            GatewayPhase::Relaying => PhaseView::Relaying,
            GatewayPhase::Done => PhaseView::Done,
        }
    }
}

/// The requirements a route stores.
pub open spec fn route_requirements(route: Route) -> AuthRequirements {
    requirements_from_fields(opt_text(route.required_roles), opt_text(route.require_permission))
}

/// Sending the request on to the route's backend.
pub open spec fn forward_to(route: Route, request: RequestView) -> (PhaseView, ActionView) {
    match target_for(route.target_url@, relative_reference(request.path, route.path_pattern@, request.query)) {
        TargetView::Ready(u) => (PhaseView::Forwarding, ActionView::Forward(u)),
        TargetView::Failed(r) => (PhaseView::Done, ActionView::Reply(r)),
        TargetView::Abort => (PhaseView::Done, ActionView::Abort),
    }
}

/// Judging a request whose token's holder is `user`: a route that demands
/// authorization the holder does not meet is answered 403; otherwise the
/// request goes to the backend.
pub open spec fn authorize(route: Route, requirements: AuthRequirements, user: AuthView, request: RequestView) -> (PhaseView, ActionView) {
    if requirements.demands_auth() && !access_granted(requirements, user) {
        (PhaseView::Done, ActionView::Reply(Reply::Forbidden))
    } else {
        forward_to(route, request)
    }
}

/// One step of a request's course: from `phase`, on `event`, the next phase
/// and the action to carry out.
///
/// The route is looked up and its hit counted. A token, when the request
/// carries one, is first looked up in the token cache; a fresh cached
/// answer is used as it is, otherwise the token service is asked (a refused
/// token is answered 401, a failed check 500) and its answer is stored in
/// the cache. A route that demands authorization is answered 401 when no
/// token came and 403 when the token's holder lacks the roles or
/// permissions; otherwise the request goes to the backend. An event that
/// does not fit the phase drops the request.
pub open spec fn transition(request: RequestView, phase: PhaseView, event: GatewayEvent) -> (PhaseView, ActionView) {
    match phase {
        PhaseView::Start => match event {
            GatewayEvent::Start => (PhaseView::AwaitingRoute, ActionView::LookupRoute),
            _ => (PhaseView::Done, ActionView::Abort),
        },
        PhaseView::AwaitingRoute => match event {
            GatewayEvent::RouteFound(route) => (
                PhaseView::AwaitingHitCount { route },
                ActionView::CountHit(route.id),
            ),
            GatewayEvent::RouteMissing => (PhaseView::Done, ActionView::Reply(Reply::NoRoute)),
            GatewayEvent::RouteLookupFailed => (PhaseView::Done, ActionView::Reply(Reply::DatabaseError)),
            _ => (PhaseView::Done, ActionView::Abort),
        },
        PhaseView::AwaitingHitCount { route } => match event {
            GatewayEvent::HitCounted => {
                let requirements = route_requirements(route);
                match request.token {
                    Some(t) => (PhaseView::AwaitingCache { route, requirements }, ActionView::LookupCachedToken(t)),
                    None => if requirements.demands_auth() {
                        (PhaseView::Done, ActionView::Reply(Reply::AuthorizationRequired))
                    } else {
                        forward_to(route, request)
                    },
                }
            },
            _ => (PhaseView::Done, ActionView::Abort),
        },
        PhaseView::AwaitingCache { route, requirements } => match event {
            GatewayEvent::CacheAnswered(cached) => match cached {
                Some(user) => authorize(route, requirements, user@, request),
                None => match request.token {
                    Some(t) => (PhaseView::AwaitingToken { route, requirements }, ActionView::ValidateToken(t)),
                    None => (PhaseView::Done, ActionView::Abort),
                },
            },
            _ => (PhaseView::Done, ActionView::Abort),
        },
        PhaseView::AwaitingToken { route, requirements } => match event {
            GatewayEvent::TokenAccepted(user) => match request.token {
                Some(t) => (
                    PhaseView::AwaitingStore { route, requirements, user: user@ },
                    ActionView::RememberToken(t, user@),
                ),
                None => (PhaseView::Done, ActionView::Abort),
            },
            GatewayEvent::TokenRejected(e) => match e {
                AuthError::InvalidToken => (PhaseView::Done, ActionView::Reply(Reply::InvalidToken)),
                _ => (PhaseView::Done, ActionView::Reply(Reply::AuthServiceError)),
            },
            _ => (PhaseView::Done, ActionView::Abort),
        },
        PhaseView::AwaitingStore { route, requirements, user } => match event {
            GatewayEvent::TokenRemembered => authorize(route, requirements, user, request),
            _ => (PhaseView::Done, ActionView::Abort),
        },
        PhaseView::Forwarding => match event {
            GatewayEvent::RequestBodyUnreadable => (PhaseView::Done, ActionView::Reply(Reply::RequestBodyUnreadable)),
            GatewayEvent::BackendUnreachable => (PhaseView::Done, ActionView::Reply(Reply::BackendUnreachable)),
            GatewayEvent::BackendBodyUnreadable => (PhaseView::Done, ActionView::Reply(Reply::BackendBodyUnreadable)),
            GatewayEvent::BackendReplied => (PhaseView::Relaying, ActionView::Relay),
            _ => (PhaseView::Done, ActionView::Abort),
        },
        PhaseView::Relaying => match event {
            GatewayEvent::ResponseBuilt => (PhaseView::Done, ActionView::Finish),
            GatewayEvent::ResponseUnbuildable => (PhaseView::Done, ActionView::Reply(Reply::ResponseUnbuildable)),
            _ => (PhaseView::Done, ActionView::Abort),
        },
        PhaseView::Done => (PhaseView::Done, ActionView::Abort),
    }
}

/// One request in the gateway.
pub struct Gateway {
    request: GatewayRequest,
    phase: GatewayPhase,
}

/// The caller's side of forwarding: the action for the route's backend.
fn forward(route: &Route, request: &GatewayRequest) -> (r: (GatewayPhase, GatewayAction))
    ensures
        (r.0@, r.1@) == forward_to(*route, request@),
{
    let relative = relative_reference_for(request.path.as_str(), route.path_pattern.as_str(), request.query.as_str());
    match build_target(route.target_url.as_str(), relative.as_str()) {
        Target::Ready(u) => (GatewayPhase::Forwarding, GatewayAction::Forward(u)),
        Target::Failed(r) => (GatewayPhase::Done, GatewayAction::Reply(r)),
        Target::Abort => (GatewayPhase::Done, GatewayAction::Abort),
    }
}

/// The caller's side of judging a token's holder.
fn judge(route: &Route, requirements: &ParseRouteAuth, user: &AuthResponse, request: &GatewayRequest) -> (r: (GatewayPhase, GatewayAction))
    ensures
        (r.0@, r.1@) == authorize(*route, requirements@, user@, request@),
{
    if requirements.requires_auth() && !AuthChecker::can_access(requirements, user) {
        (GatewayPhase::Done, GatewayAction::Reply(Reply::Forbidden))
    } else {
        forward(route, request)
    }
}

impl Gateway {
    /// The request being served.
    pub closed spec fn request(&self) -> RequestView {
        self.request@
    }

    /// Where the request stands.
    pub closed spec fn phase(&self) -> PhaseView {
        self.phase@
    }

    /// A request that has just arrived.
    pub fn new(request: GatewayRequest) -> (g: Gateway)
        ensures
            g.request() == request@,
            g.phase() == PhaseView::Start,
    {
        Gateway { request, phase: GatewayPhase::Start }
    }

    /// Takes the step that `event` calls for.
    pub fn step(self, event: GatewayEvent) -> (r: (Gateway, GatewayAction))
        ensures
            r.0.request() == self.request(),
            (r.0.phase(), r.1@) == transition(self.request(), self.phase(), event),
    {
        let Gateway { request, phase } = self;
        let (next, action) = match phase {
            GatewayPhase::Start => match event {
                GatewayEvent::Start => (GatewayPhase::AwaitingRoute, GatewayAction::LookupRoute),
                _ => (GatewayPhase::Done, GatewayAction::Abort),
            },
            GatewayPhase::AwaitingRoute => match event {
                GatewayEvent::RouteFound(route) => {
                    let id = route.id;
                    (GatewayPhase::AwaitingHitCount { route }, GatewayAction::CountHit(id))
                },
                GatewayEvent::RouteMissing => (GatewayPhase::Done, GatewayAction::Reply(Reply::NoRoute)),
                GatewayEvent::RouteLookupFailed => (
                    GatewayPhase::Done,
                    GatewayAction::Reply(Reply::DatabaseError),
                ),
                _ => (GatewayPhase::Done, GatewayAction::Abort),
            },
            GatewayPhase::AwaitingHitCount { route } => match event {
                GatewayEvent::HitCounted => {
                    let requirements = ParseRouteAuth::from_route_auth_fields(
                        &route.required_roles,
                        &route.require_permission,
                    );
                    match &request.token {
                        Some(t) => {
                            let token = t.clone();
                            (GatewayPhase::AwaitingCache { route, requirements }, GatewayAction::LookupCachedToken(token))
                        },
                        None => if requirements.requires_auth() {
                            (GatewayPhase::Done, GatewayAction::Reply(Reply::AuthorizationRequired))
                        } else {
                            forward(&route, &request)
                        },
                    }
                },
                _ => (GatewayPhase::Done, GatewayAction::Abort),
            },
            GatewayPhase::AwaitingCache { route, requirements } => match event {
                GatewayEvent::CacheAnswered(cached) => match cached {
                    Some(user) => judge(&route, &requirements, &user, &request),
                    None => match &request.token {
                        Some(t) => {
                            let token = t.clone();
                            (GatewayPhase::AwaitingToken { route, requirements }, GatewayAction::ValidateToken(token))
                        },
                        None => (GatewayPhase::Done, GatewayAction::Abort),
                    },
                },
                _ => (GatewayPhase::Done, GatewayAction::Abort),
            },
            GatewayPhase::AwaitingToken { route, requirements } => match event {
                GatewayEvent::TokenAccepted(user) => match &request.token {
                    Some(t) => {
                        let token = t.clone();
                        let stored = user.copied();
                        (GatewayPhase::AwaitingStore { route, requirements, user }, GatewayAction::RememberToken(token, stored))
                    },
                    None => (GatewayPhase::Done, GatewayAction::Abort),
                },
                GatewayEvent::TokenRejected(e) => match e {
                    AuthError::InvalidToken => (GatewayPhase::Done, GatewayAction::Reply(Reply::InvalidToken)),
                    _ => (GatewayPhase::Done, GatewayAction::Reply(Reply::AuthServiceError)),
                },
                _ => (GatewayPhase::Done, GatewayAction::Abort),
            },
            GatewayPhase::AwaitingStore { route, requirements, user } => match event {
                GatewayEvent::TokenRemembered => judge(&route, &requirements, &user, &request),
                _ => (GatewayPhase::Done, GatewayAction::Abort),
            },
            GatewayPhase::Forwarding => match event {
                GatewayEvent::RequestBodyUnreadable => (
                    GatewayPhase::Done,
                    GatewayAction::Reply(Reply::RequestBodyUnreadable),
                ),
                GatewayEvent::BackendUnreachable => (
                    GatewayPhase::Done,
                    GatewayAction::Reply(Reply::BackendUnreachable),
                ),
                GatewayEvent::BackendBodyUnreadable => (
                    GatewayPhase::Done,
                    GatewayAction::Reply(Reply::BackendBodyUnreadable),
                ),
                GatewayEvent::BackendReplied => (GatewayPhase::Relaying, GatewayAction::Relay),
                _ => (GatewayPhase::Done, GatewayAction::Abort),
            },
            GatewayPhase::Relaying => match event {
                GatewayEvent::ResponseBuilt => (GatewayPhase::Done, GatewayAction::Finish),
                GatewayEvent::ResponseUnbuildable => (
                    GatewayPhase::Done,
                    GatewayAction::Reply(Reply::ResponseUnbuildable),
                ),
                _ => (GatewayPhase::Done, GatewayAction::Abort),
            },
            GatewayPhase::Done => (GatewayPhase::Done, GatewayAction::Abort),
        };
        (Gateway { request, phase: next }, action)
    }
}

// ---------------------------------------------------------------------------
// Relaying the backend's answer
// ---------------------------------------------------------------------------

/// Headers of the backend's answer that the gateway does not copy: the
/// hop-by-hop headers, and `content-length`, which is set anew.
pub open spec fn is_dropped_header(name: Seq<char>) -> bool {
    ||| eq_ignoring_ascii_case(name, "connection"@)
    ||| eq_ignoring_ascii_case(name, "keep-alive"@)
    ||| eq_ignoring_ascii_case(name, "proxy-authenticate"@)
    ||| eq_ignoring_ascii_case(name, "proxy-authorization"@)
    ||| eq_ignoring_ascii_case(name, "te"@)
    ||| eq_ignoring_ascii_case(name, "trailers"@)
    ||| eq_ignoring_ascii_case(name, "transfer-encoding"@)
    ||| eq_ignoring_ascii_case(name, "upgrade"@)
    ||| eq_ignoring_ascii_case(name, "content-length"@)
}

/// Whether the backend's header `name` is copied into the client's answer.
pub fn copies_response_header(name: &str) -> (b: bool)
    ensures
        b == !is_dropped_header(name@),
{
    !(str_eq_ignore_ascii_case(name, "connection") || str_eq_ignore_ascii_case(name, "keep-alive")
        || str_eq_ignore_ascii_case(name, "proxy-authenticate") || str_eq_ignore_ascii_case(
        name,
        "proxy-authorization",
    ) || str_eq_ignore_ascii_case(name, "te") || str_eq_ignore_ascii_case(name, "trailers")
        || str_eq_ignore_ascii_case(name, "transfer-encoding") || str_eq_ignore_ascii_case(
        name,
        "upgrade",
    ) || str_eq_ignore_ascii_case(name, "content-length"))
}

/// How an answer's status is counted: success (2xx), error (4xx and 5xx),
/// or neither.
#[derive(Debug, Clone, Copy, PartialEq, Eq)]
pub enum StatusClass {
    Success,
    Error,
    Uncounted,
}

/// The class of an HTTP status.
pub open spec fn class_of(status: u16) -> StatusClass {
    if 200 <= status && status <= 299 {
        StatusClass::Success
    } else if 400 <= status && status <= 599 {
        StatusClass::Error
    } else {
        StatusClass::Uncounted
    }
}

/// Classifies the status of the answer relayed to the client.
pub fn status_class(status: u16) -> (c: StatusClass)
    ensures
        c == class_of(status),
{
    if 200 <= status && status <= 299 {
        StatusClass::Success
    } else if 400 <= status && status <= 599 {
        StatusClass::Error
    } else {
        StatusClass::Uncounted
    }
}

// ---------------------------------------------------------------------------
// Laws of a request's course
// ---------------------------------------------------------------------------

/// A phase that waits on the token holds the requirements that its route
/// stores.
pub open spec fn coherent(phase: PhaseView) -> bool {
    match phase {
        PhaseView::AwaitingCache { route, requirements } => requirements == route_requirements(route),
        PhaseView::AwaitingToken { route, requirements } => requirements == route_requirements(route),
        PhaseView::AwaitingStore { route, requirements, user } => requirements == route_requirements(route),
        _ => true,
    }
}

/// Every step keeps the phase coherent: the requirements that a token's
/// holder is judged against are those of the route that was found.
pub proof fn lemma_step_keeps_coherence(request: RequestView, phase: PhaseView, event: GatewayEvent)
    requires
        coherent(phase),
    ensures
        coherent(transition(request, phase, event).0),
{
}

/// A request reaches its backend only when its route demands no
/// authorization and no token came, or when its token's holder, as the
/// token cache or the token service reported it, meets the route's
/// requirements (or the route demands none).
pub proof fn lemma_forward_only_when_authorized(request: RequestView, phase: PhaseView, event: GatewayEvent)
    requires
        coherent(phase),
    ensures
        transition(request, phase, event).1 is Forward ==> {
            ||| (phase matches PhaseView::AwaitingHitCount { route } && event is HitCounted
                && request.token is None && !route_requirements(route).demands_auth())
            ||| (phase matches PhaseView::AwaitingCache { route, requirements }
                && event matches GatewayEvent::CacheAnswered(Some(user))
                && (!route_requirements(route).demands_auth() || access_granted(route_requirements(route), user@)))
            ||| (phase matches PhaseView::AwaitingStore { route, requirements, user }
                && event is TokenRemembered
                && (!route_requirements(route).demands_auth() || access_granted(route_requirements(route), user)))
        },
{
}

/// A request that carries a token always has it judged: once its route is
/// found and counted, the token is looked up in the cache, and when the
/// cache has no fresh answer the token service is asked.
pub proof fn lemma_token_always_checked(request: RequestView, route: Route, requirements: AuthRequirements)
    requires
        request.token is Some,
    ensures
        transition(request, PhaseView::AwaitingHitCount { route }, GatewayEvent::HitCounted).1
            == ActionView::LookupCachedToken(request.token->0),
        transition(request, PhaseView::AwaitingCache { route, requirements }, GatewayEvent::CacheAnswered(None)).1
            == ActionView::ValidateToken(request.token->0),
{
}

/// The token service's accepted answer is stored in the cache for the
/// request's token before the request is judged on it.
pub proof fn lemma_accepted_answer_is_remembered(
    request: RequestView,
    route: Route,
    requirements: AuthRequirements,
    user: AuthResponse,
)
    requires
        request.token is Some,
    ensures
        transition(request, PhaseView::AwaitingToken { route, requirements }, GatewayEvent::TokenAccepted(user))
            == (PhaseView::AwaitingStore { route, requirements, user: user@ }, ActionView::RememberToken(
            request.token->0,
            user@,
        )),
        transition(request, PhaseView::AwaitingStore { route, requirements, user: user@ }, GatewayEvent::TokenRemembered)
            == authorize(route, requirements, user@, request),
{
}

/// A request whose token's answer was stored less than `ttl` seconds ago
/// does not ask the token service: the cache gives the stored answer back,
/// and the request is judged on it.
pub proof fn lemma_cached_token_skips_service(
    request: RequestView,
    route: Route,
    requirements: AuthRequirements,
    cache: Map<Seq<char>, CachedAuth>,
    answer: AuthView,
    stored_at: u64,
    now: u64,
    ttl: u64,
    cached: Option<AuthResponse>,
)
    requires
        request.token is Some,
        is_fresh(stored_at, now, ttl),
        opt_answer(cached) == cached_answer(
            cache.insert(request.token->0, CachedAuth { answer, stored_at }),
            request.token->0,
            now,
            ttl,
        ),
    ensures
        cached matches Some(c) && c@ == answer,
        !(transition(request, PhaseView::AwaitingCache { route, requirements }, GatewayEvent::CacheAnswered(cached)).1 is ValidateToken),
        transition(request, PhaseView::AwaitingCache { route, requirements }, GatewayEvent::CacheAnswered(cached))
            == authorize(route, requirements, answer, request),
{
    lemma_remembered_answer_is_served(cache, request.token->0, answer, stored_at, now, ttl);
}

/// A route that demands authorization, reached without a token, is
/// answered 401 `Authorization required`; a refused token is answered 401
/// `Invalid API token`, on any route.
pub proof fn lemma_refusals(request: RequestView, route: Route, requirements: AuthRequirements)
    ensures
        request.token is None && route_requirements(route).demands_auth() ==> transition(
            request,
            PhaseView::AwaitingHitCount { route },
            GatewayEvent::HitCounted,
        ) == (PhaseView::Done, ActionView::Reply(Reply::AuthorizationRequired)),
        transition(
            request,
            PhaseView::AwaitingToken { route, requirements },
            GatewayEvent::TokenRejected(AuthError::InvalidToken),
        ) == (PhaseView::Done, ActionView::Reply(Reply::InvalidToken)),
        reply_status(Reply::AuthorizationRequired) == 401,
        reply_status(Reply::InvalidToken) == 401,
        reply_status(Reply::Forbidden) == 403,
{
}

/// A finished request stays finished.
pub proof fn lemma_done_is_final(request: RequestView, event: GatewayEvent)
    ensures
        transition(request, PhaseView::Done, event).0 == PhaseView::Done,
{
}

/// The phase reached from `phase` after the events `events`, in order.
pub open spec fn phase_after(request: RequestView, phase: PhaseView, events: Seq<GatewayEvent>) -> PhaseView
    decreases events.len(),
{
    if events.len() == 0 {
        phase
    } else {
        transition(request, phase_after(request, phase, events.drop_last()), events.last()).0
    }
}

/// The action taken on the `k`-th event of a request's course that began
/// at `Start`.
pub open spec fn action_at(request: RequestView, events: Seq<GatewayEvent>, k: int) -> ActionView {
    transition(request, phase_after(request, PhaseView::Start, events.take(k)), events[k]).1
}

/// Every phase reached from a coherent one is coherent.
pub proof fn lemma_course_keeps_coherence(request: RequestView, phase: PhaseView, events: Seq<GatewayEvent>)
    requires
        coherent(phase),
    ensures
        coherent(phase_after(request, phase, events)),
    decreases events.len(),
{
    if events.len() > 0 {
        lemma_course_keeps_coherence(request, phase, events.drop_last());
        lemma_step_keeps_coherence(request, phase_after(request, phase, events.drop_last()), events.last());
    }
}

/// Over a whole course of events, whatever they are, a request is sent to
/// its backend only on the count of its route's hit when it carries no token
/// and the route demands nothing, or once its token's holder is known (from
/// the cache or from the token service) and the route demands nothing or the
/// holder meets the route's requirements.
pub proof fn lemma_course_forwards_only_when_authorized(request: RequestView, events: Seq<GatewayEvent>, k: int)
    requires
        0 <= k < events.len(),
        action_at(request, events, k) is Forward,
    ensures
        ({
            let phase = phase_after(request, PhaseView::Start, events.take(k));
            ||| (phase matches PhaseView::AwaitingHitCount { route } && events[k] is HitCounted
                && request.token is None && !route_requirements(route).demands_auth())
            ||| (phase matches PhaseView::AwaitingCache { route, requirements }
                && events[k] matches GatewayEvent::CacheAnswered(Some(user))
                && (!route_requirements(route).demands_auth() || access_granted(route_requirements(route), user@)))
            ||| (phase matches PhaseView::AwaitingStore { route, requirements, user }
                && events[k] is TokenRemembered
                && (!route_requirements(route).demands_auth() || access_granted(route_requirements(route), user)))
        }),
{
    let phase = phase_after(request, PhaseView::Start, events.take(k));
    lemma_course_keeps_coherence(request, PhaseView::Start, events.take(k));
    lemma_forward_only_when_authorized(request, phase, events[k]);
}


/// The same request, without its token.
pub open spec fn without_token(request: RequestView) -> RequestView {
    RequestView { path: request.path, method: request.method, query: request.query, token: None }
}

/// On a route that demands nothing, a token only matters by being accepted:
/// once its holder is known (from the cache or after the token service's
/// answer was stored), the request goes exactly where the same request
/// without a token goes after its hit is counted (to the backend, or the
/// target's own failure reply), whatever the holder's roles, permissions or
/// validity; it is never refused 403.
pub proof fn lemma_open_route_ignores_holder(request: RequestView, route: Route, cached: AuthResponse, user: AuthView)
    requires
        !route_requirements(route).demands_auth(),
    ensures
        transition(
            request,
            PhaseView::AwaitingCache { route, requirements: route_requirements(route) },
            GatewayEvent::CacheAnswered(Some(cached)),
        ) == transition(without_token(request), PhaseView::AwaitingHitCount { route }, GatewayEvent::HitCounted),
        transition(
            request,
            PhaseView::AwaitingStore { route, requirements: route_requirements(route), user },
            GatewayEvent::TokenRemembered,
        ) == transition(without_token(request), PhaseView::AwaitingHitCount { route }, GatewayEvent::HitCounted),
        transition(
            request,
            PhaseView::AwaitingCache { route, requirements: route_requirements(route) },
            GatewayEvent::CacheAnswered(Some(cached)),
        ).1 != ActionView::Reply(Reply::Forbidden),
        transition(
            request,
            PhaseView::AwaitingStore { route, requirements: route_requirements(route), user },
            GatewayEvent::TokenRemembered,
        ).1 != ActionView::Reply(Reply::Forbidden),
{
    assert(relative_reference(without_token(request).path, route.path_pattern@, without_token(request).query)
        == relative_reference(request.path, route.path_pattern@, request.query));
    match target_for(route.target_url@, relative_reference(request.path, route.path_pattern@, request.query)) {
        TargetView::Ready(u) => {},
        TargetView::Failed(r) => {
            assert(r == Reply::InvalidTargetUrl || r == Reply::TargetUrlUnbuildable);
        },
        TargetView::Abort => {},
    }
}

/// On a route that demands authorization, a known holder who meets it is
/// sent on exactly as a request to an open route would be, and one who does
/// not is answered 403.
pub proof fn lemma_demanding_route_judges_holder(request: RequestView, route: Route, cached: AuthResponse)
    requires
        route_requirements(route).demands_auth(),
    ensures
        access_granted(route_requirements(route), cached@) ==> transition(
            request,
            PhaseView::AwaitingCache { route, requirements: route_requirements(route) },
            GatewayEvent::CacheAnswered(Some(cached)),
        ) == forward_to(route, request),
        !access_granted(route_requirements(route), cached@) ==> transition(
            request,
            PhaseView::AwaitingCache { route, requirements: route_requirements(route) },
            GatewayEvent::CacheAnswered(Some(cached)),
        ) == (PhaseView::Done, ActionView::Reply(Reply::Forbidden)),
{
}

/// A backend header is dropped exactly when its name equals, ignoring ASCII
/// case, one of the hop-by-hop names (`connection`, `keep-alive`,
/// `proxy-authenticate`, `proxy-authorization`, `te`, `trailers`,
/// `transfer-encoding`, `upgrade`) or `content-length`; every other header,
/// `set-cookie` and `cache-control` among them, is copied to the client.
pub proof fn lemma_dropped_exactly_hop_by_hop(name: Seq<char>)
    ensures
        is_dropped_header(name) <==> {
            ||| eq_ignoring_ascii_case(name, "connection"@)
            ||| eq_ignoring_ascii_case(name, "keep-alive"@)
            ||| eq_ignoring_ascii_case(name, "proxy-authenticate"@)
            ||| eq_ignoring_ascii_case(name, "proxy-authorization"@)
            ||| eq_ignoring_ascii_case(name, "te"@)
            ||| eq_ignoring_ascii_case(name, "trailers"@)
            ||| eq_ignoring_ascii_case(name, "transfer-encoding"@)
            ||| eq_ignoring_ascii_case(name, "upgrade"@)
            ||| eq_ignoring_ascii_case(name, "content-length"@)
        },
        !eq_ignoring_ascii_case(name, "connection"@) && !eq_ignoring_ascii_case(name, "keep-alive"@)
            && !eq_ignoring_ascii_case(name, "proxy-authenticate"@)
            && !eq_ignoring_ascii_case(name, "proxy-authorization"@) && !eq_ignoring_ascii_case(name, "te"@)
            && !eq_ignoring_ascii_case(name, "trailers"@) && !eq_ignoring_ascii_case(name, "transfer-encoding"@)
            && !eq_ignoring_ascii_case(name, "upgrade"@) && !eq_ignoring_ascii_case(name, "content-length"@)
            ==> !is_dropped_header(name),
{
}

} // verus!
