pub mod adaptive;
pub mod address;
pub mod admin;
pub mod audit;
pub mod auth;
pub mod backend;
pub mod backend_query;
pub mod benchmark;
pub mod buffer;
pub mod buffers;
pub mod cancel;
pub mod capacity;
pub mod clock;
pub mod compatibility;
pub mod config;
pub mod control;
pub mod crypto;
pub mod double;
pub mod drain;
pub mod engine;
pub mod guardrails;
pub mod health;
pub mod io_runtime;
pub mod json;
pub mod lifecycle;
pub mod limits;
pub mod metrics;
pub mod mirror;
pub mod modes;
pub mod order;
pub mod pause;
pub mod policy;
pub mod replies;
pub mod routing;
pub mod runtime;
pub mod secrets;
pub mod security;
pub mod snapshot;
pub mod snapshot_store;
pub mod text;
pub mod wire;
