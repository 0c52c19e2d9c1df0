//! Routes of the gateway and the rule that picks the route for a request.

use vstd::prelude::*;
use vstd::utf8::encode_utf8;

use crate::text::str_eq;

verus! {

/// A route of the gateway: requests whose path matches the glob
/// `path_pattern` and whose method is `http_method` (or any method, when it
/// is `ALL`) go to `target_url`; `required_roles` and `require_permission`
/// hold the route's authorization requirements as stored.
#[derive(Debug, Clone)]
pub struct Route {
    pub id: i64,
    pub path_pattern: String,
    pub http_method: String,
    pub target_url: String,
    pub required_roles: Option<String>,
    pub require_permission: Option<String>,
}

#[verifier::external_type_specification]
#[verifier::external_body]
pub struct ExGlobPattern(glob::Pattern);

#[verifier::external_type_specification]
#[verifier::external_body]
pub struct ExGlobPatternError(glob::PatternError);

/// Whether `glob::Pattern::new` accepts `pattern`.
pub uninterp spec fn glob_pattern_valid(pattern: Seq<char>) -> bool;

/// Whether the pattern that `glob::Pattern::new` compiles from `pattern`
/// matches `path` (`glob::Pattern::matches`).
pub uninterp spec fn glob_pattern_matches(pattern: Seq<char>, path: Seq<char>) -> bool;

/// A glob pattern compiled from the text `source`.
struct GlobPattern {
    source: String,
    compiled: glob::Pattern,
}

impl GlobPattern {
    /// The text the pattern was compiled from.
    closed spec fn source(&self) -> Seq<char> {
        self.source@
    }

    /// Compiles `pattern` with `glob::Pattern::new`. Trusted: `Ok` exactly
    /// when `glob_pattern_valid(pattern)`, holding the compiled pattern and
    /// its source text.
    #[verifier::external_body]
    fn compile(pattern: &str) -> (r: Result<GlobPattern, glob::PatternError>)
        ensures
            r is Ok == glob_pattern_valid(pattern@),
            r matches Ok(g) ==> g.source() == pattern@,
    {
        match glob::Pattern::new(pattern) {
            Ok(compiled) => Ok(GlobPattern { source: pattern.to_string(), compiled }),
            Err(e) => Err(e),
        }
    }

    /// Matches `path` with `glob::Pattern::matches`. Trusted: the result is
    /// `glob_pattern_matches(source, path)`.
    #[verifier::external_body]
    fn matches(&self, path: &str) -> (r: bool)
        ensures
            r == glob_pattern_matches(self.source(), path@),
    {
        self.compiled.matches(path)
    }
}

/// A route pattern matches a path when it is a valid glob that matches it;
/// an invalid pattern matches nothing.
pub open spec fn pattern_matches(pattern: Seq<char>, path: Seq<char>) -> bool {
    glob_pattern_valid(pattern) && glob_pattern_matches(pattern, path)
}

/// Whether the glob `pattern` matches `path`.
pub fn path_matches(pattern: &str, path: &str) -> (r: bool)
    ensures
        r == pattern_matches(pattern@, path@),
{
    match GlobPattern::compile(pattern) {
        Ok(p) => p.matches(path),
        Err(_) => false,
    }
}

/// A route serves a request when it is registered for the request's method
/// or for `ALL` methods, and its pattern matches the request's path.
pub open spec fn serves(route: Route, path: Seq<char>, method: Seq<char>) -> bool {
    &&& (route.http_method@ == method || route.http_method@ == "ALL"@)
    &&& pattern_matches(route.path_pattern@, path)
}

/// How specific a route is: the length of its pattern in UTF-8 bytes.
pub open spec fn specificity(route: Route) -> int {
    encode_utf8(route.path_pattern@).len() as int
}

/// `routes[i]` is the route chosen for the request: it serves it, no serving
/// route has a longer pattern, and every serving route before it has a
/// shorter one (the first of the longest).
pub open spec fn is_chosen(routes: Seq<Route>, path: Seq<char>, method: Seq<char>, i: int) -> bool {
    &&& 0 <= i < routes.len()
    &&& serves(routes[i], path, method)
    &&& forall|j: int| #![trigger routes[j]] 0 <= j < routes.len() && serves(routes[j], path, method) ==> specificity(routes[j]) <= specificity(routes[i])
    &&& forall|j: int| #![trigger routes[j]] 0 <= j < i && serves(routes[j], path, method) ==> specificity(routes[j]) < specificity(routes[i])
}

/// No route serves the request.
pub open spec fn none_serves(routes: Seq<Route>, path: Seq<char>, method: Seq<char>) -> bool {
    forall|j: int| 0 <= j < routes.len() ==> !serves(#[trigger] routes[j], path, method)
}

fn route_serves(route: &Route, path: &str, method: &str) -> (r: bool)
    ensures
        r == serves(*route, path@, method@),
{
    let all = "ALL";
    proof {
        reveal_strlit("ALL");
    }
    (str_eq(route.http_method.as_str(), method) || str_eq(route.http_method.as_str(), all))
        && path_matches(route.path_pattern.as_str(), path)
}

/// The position of the route chosen for a request on `path` with `method`.
pub fn choose_route(routes: &Vec<Route>, path: &str, method: &str) -> (r: Option<usize>)
    ensures
        match r {
            Some(i) => is_chosen(routes@, path@, method@, i as int),
            None => none_serves(routes@, path@, method@),
        },
{
    let n = routes.len();
    let mut best: Option<usize> = None;
    let mut best_len: usize = 0;
    let mut i: usize = 0;
    while i < n
        invariant
            n == routes@.len(),
            i <= n,
            match best {
                Some(b) => {
                    &&& b < i
                    &&& serves(routes@[b as int], path@, method@)
                    &&& best_len == specificity(routes@[b as int])
                    &&& forall|j: int| #![trigger routes@[j]] 0 <= j < i && serves(routes@[j], path@, method@) ==> specificity(routes@[j]) <= best_len
                    &&& forall|j: int| #![trigger routes@[j]] 0 <= j < b && serves(routes@[j], path@, method@) ==> specificity(routes@[j]) < best_len
                },
                None => forall|j: int| 0 <= j < i ==> !serves(#[trigger] routes@[j], path@, method@),
            },
        decreases n - i,
    {
        let route = &routes[i];
        if route_serves(route, path, method) {
            let len = route.path_pattern.as_str().as_bytes().len();
            match best {
                Some(_) => {
                    if len > best_len {
                        best = Some(i);
                        best_len = len;
                    }
                },
                None => {
                    best = Some(i);
                    best_len = len;
                },
            }
        }
        i = i + 1;
    }
    best
}

/// The route for a request on `path` with `method` among `routes`: of the
/// routes that serve it, the first of those with the longest pattern.
pub fn find_matching_route(routes: Vec<Route>, path: &str, method: &str) -> (r: Option<Route>)
    ensures
        match r {
            Some(route) => exists|i: int| is_chosen(routes@, path@, method@, i) && routes@[i] == route,
            None => none_serves(routes@, path@, method@),
        },
{
    let mut routes = routes;
    match choose_route(&routes, path, method) {
        Some(i) => {
            let ghost all = routes@;
            let route = routes.remove(i);
            assert(is_chosen(all, path@, method@, i as int));
            Some(route)
        },
        None => None,
    }
}


/// At most one route is chosen for a request.
pub proof fn lemma_choice_unique(routes: Seq<Route>, path: Seq<char>, method: Seq<char>, i: int, j: int)
    requires
        is_chosen(routes, path, method, i),
        is_chosen(routes, path, method, j),
    ensures
        i == j,
{
    if i < j {
        assert(specificity(routes[i]) < specificity(routes[j]));
        assert(specificity(routes[i]) <= specificity(routes[j]));
        assert(specificity(routes[j]) <= specificity(routes[i]));
    } else if j < i {
        assert(specificity(routes[j]) < specificity(routes[i]));
        assert(specificity(routes[i]) <= specificity(routes[j]));
    }
}

/// A route registered for `ALL` methods serves every method on the paths
/// its pattern matches.
pub proof fn lemma_all_serves_every_method(route: Route, path: Seq<char>, method: Seq<char>)
    requires
        route.http_method@ == "ALL"@,
        pattern_matches(route.path_pattern@, path),
    ensures
        serves(route, path, method),
{
}


/// The route chosen for a request has a pattern at least as long, in UTF-8
/// bytes, as every route that serves the request, and every serving route
/// before it has a strictly shorter pattern: only pattern length ranks the
/// serving routes, whatever their methods.
pub proof fn lemma_chosen_has_longest_pattern(routes: Seq<Route>, path: Seq<char>, method: Seq<char>, i: int)
    requires
        is_chosen(routes, path, method, i),
    ensures
        routes[i].http_method@ == method || routes[i].http_method@ == "ALL"@,
        pattern_matches(routes[i].path_pattern@, path),
        forall|j: int| #![trigger routes[j]]
            0 <= j < routes.len() && (routes[j].http_method@ == method || routes[j].http_method@ == "ALL"@)
                && pattern_matches(routes[j].path_pattern@, path)
                ==> encode_utf8(routes[j].path_pattern@).len() <= encode_utf8(routes[i].path_pattern@).len(),
        forall|j: int| #![trigger routes[j]]
            0 <= j < i && (routes[j].http_method@ == method || routes[j].http_method@ == "ALL"@)
                && pattern_matches(routes[j].path_pattern@, path)
                ==> encode_utf8(routes[j].path_pattern@).len() < encode_utf8(routes[i].path_pattern@).len(),
{
}

} // verus!
