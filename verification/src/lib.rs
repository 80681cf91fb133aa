//! Building blocks for MCP servers: JSON-RPC dispatch, task lifecycle, request
//! admission, authentication posture and event notification, with the rules
//! stated as contracts and proved.

pub mod clock;
pub mod decode;
pub mod digits;
pub mod document_laws;
pub mod error;
pub mod http_client;
pub mod iam;
pub mod json;
pub mod keyed;
pub mod located;
pub mod mcp;
pub mod notifications;
pub mod notify;
pub mod notify_target;
pub mod server;
pub mod string_map;
pub mod text;
pub mod text_laws;
pub mod value_laws;

pub use notify_target::NOTIFY_TARGET;
