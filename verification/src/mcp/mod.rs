//! The Model Context Protocol engine: wire types, dispatch, tasks, transports.

pub mod auth;
pub mod capabilities;
pub mod computation;
pub mod host;
pub mod json_schema;
pub mod laws;
pub mod messages;
pub mod modern;
pub mod protocol;
pub mod reading;
pub mod registry_laws;
pub mod schema;
pub mod server;
pub mod tasks;
pub mod tool;
pub mod transport;
pub mod wire_laws;
