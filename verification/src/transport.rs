//! The reply of the MCP server to a JSON-RPC call.

use vstd::prelude::*;
use crate::text::{chars_to_string, push_decimal, push_str, str_to_chars};

verus! {

/// Seconds an HTTP call to the MCP server may take.
pub const DEFAULT_TIMEOUT_SECS: u64 = 30;

/// The error member of a JSON-RPC reply.
#[derive(Debug, Clone, PartialEq, Eq)]
pub struct RpcErrorBody {
    pub code: i64,
    pub message: String,
}

/// What a JSON-RPC reply gives: its error as `MCP error <code>: <message>`
/// when it has one, else its result, else the error
/// `No result in MCP response`.
pub fn rpc_outcome<T>(result: Option<T>, error: Option<RpcErrorBody>) -> (r: Result<T, String>)
    ensures
        match error {
            Some(e) => r matches Err(m) && m@ == "MCP error "@ + crate::output::int_text(e.code as int)
                + ": "@ + e.message@,
            None => match result {
                Some(x) => r == Ok::<T, String>(x),
                None => r matches Err(m) && m@ == "No result in MCP response"@,
            },
        },
{
    match error {
        Some(e) => {
            let mut m = str_to_chars("MCP error ");
            if e.code < 0 {
                push_str(&mut m, "-");
                push_decimal(&mut m, (0i128 - (e.code as i128)) as u128);
            } else {
                push_decimal(&mut m, e.code as u128);
            }
            push_str(&mut m, ": ");
            push_str(&mut m, e.message.as_str());
            Err(chars_to_string(m.as_slice()))
        },
        None => match result {
            Some(x) => Ok(x),
            None => Err("No result in MCP response".to_string()),
        },
    }
}

} // verus!
