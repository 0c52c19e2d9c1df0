pub mod auth;
pub mod routes_create;
