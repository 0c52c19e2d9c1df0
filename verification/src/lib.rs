pub mod admin;
pub mod config;
pub mod db;
pub mod dto;
pub mod proxy;
pub mod proxy_core;
pub mod telemetry;
pub mod text;
