//! Keys of a modern request's `_meta`.

use vstd::prelude::*;

verus! {

/// Protocol version of the request. Required.
pub const PROTOCOL_VERSION: &'static str = "io.modelcontextprotocol/protocolVersion";

/// Client name and version. Required.
pub const CLIENT_INFO: &'static str = "io.modelcontextprotocol/clientInfo";

/// Client capabilities that matter to the request. Required.
pub const CLIENT_CAPABILITIES: &'static str = "io.modelcontextprotocol/clientCapabilities";

/// Least log level the server should emit for the request. Optional.
pub const LOG_LEVEL: &'static str = "io.modelcontextprotocol/logLevel";

} // verus!
