# styx

An API gateway for Cerberus tokens: requests are matched to routes stored in
SQLite, their API token is checked with an external verification service,
the service's answers are cached for `cache_TTL` seconds, the route's roles
and permissions are enforced, and the request is relayed to the route's
backend.

- `src/` is the verified library (Verus): route selection (`db`), the
  authorization rules (`proxy_core::validator`), token-service decisions
  (`proxy_core::auth`), the token cache (`proxy_core::token_cache`), the
  per-request state machine, path rewriting and
  backend URL resolution (`proxy`), per-route counters (`telemetry`), the
  administration API's answers (`admin`) and the configuration (`config`).
- `app/` is the server around it: axum handlers, SQLite access, the HTTP
  clients, the Lua configuration loader, logging and Prometheus metrics.
- `tests/` exercises the library on concrete values.
