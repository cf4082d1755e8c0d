//! JSON-RPC error codes of the `lx serve` protocol.

use vstd::prelude::*;

verus! {

/// The access token has expired.
pub const AUTH_EXPIRED: i32 = -32001;

/// No access token is available.
pub const AUTH_REQUIRED: i32 = -32001;

/// The requested item does not exist.
pub const NOT_FOUND: i32 = -32002;

/// The account's quota is used up.
pub const QUOTA_EXCEEDED: i32 = -32003;

/// The MCP server could not be reached or refused the call.
pub const NETWORK_ERROR: i32 = -32004;

/// The request's parameters are wrong.
pub const INVALID_PARAMS: i32 = -32602;

/// The method is unknown.
pub const METHOD_NOT_FOUND: i32 = -32601;

/// Anything else.
pub const INTERNAL_ERROR: i32 = -32603;

} // verus!
