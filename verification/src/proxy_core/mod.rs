pub mod auth;
pub mod token_cache;
pub mod validator;
