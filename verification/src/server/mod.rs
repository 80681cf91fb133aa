//! What an HTTP service needs around its handlers.

pub mod address;
pub mod address_laws;
pub mod auth;
pub mod cli;
pub mod health;
pub mod laws;
pub mod request_guard;
pub mod tracing_init;
