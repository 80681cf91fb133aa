//! How requests reach a server.

pub mod http;
pub mod laws;
pub mod stdio;
