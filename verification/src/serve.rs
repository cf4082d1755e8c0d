//! State and reply handling of `lx serve`, the JSON-RPC server that editors
//! talk to over standard input and output.

pub mod error_codes;

use vstd::prelude::*;
use crate::output::{get, int_text, member, JsonNumber, JsonValue};
use crate::text::{chars_to_string, push_decimal, push_str, str_to_chars};

verus! {

/// The state that the server's handlers share: the configuration, the
/// access token in memory, the OAuth flow in progress, and the MCP client
/// kept for reuse.
pub struct ServeState<Config, PendingOAuth, Client> {
    pub config: Config,
    pub access_token: Option<String>,
    pub pending_oauth: Option<PendingOAuth>,
    pub cached_mcp_client: Option<Client>,
}

impl<Config, PendingOAuth, Client> ServeState<Config, PendingOAuth, Client> {
    /// A state with the given configuration and nothing else yet.
    pub fn new(config: Config) -> (s: Self)
        ensures
            s.config == config,
            s.access_token is None,
            s.pending_oauth is None,
            s.cached_mcp_client is None,
    {
        ServeState { config, access_token: None, pending_oauth: None, cached_mcp_client: None }
    }
}

/// A JSON-RPC error: its code and message.
#[derive(Debug, Clone, PartialEq, Eq)]
pub struct JsonRpcError {
    pub code: i32,
    pub message: String,
}

impl JsonRpcError {
    /// An error with the given code and message.
    pub fn new(code: i32, message: String) -> (e: JsonRpcError)
        ensures
            e.code == code,
            e.message@ == message@,
    {
        JsonRpcError { code, message }
    }

    /// An error for wrong parameters.
    pub fn invalid_params(message: String) -> (e: JsonRpcError)
        ensures
            e.code == error_codes::INVALID_PARAMS,
            e.message@ == message@,
    {
        JsonRpcError { code: error_codes::INVALID_PARAMS, message }
    }
}

/// A number as `as_i64` of `serde_json` reads it.
pub open spec fn as_i64(v: Option<JsonValue>) -> Option<i64> {
    match v {
        Some(JsonValue::Number(JsonNumber::Int(n))) => Some(n),
        _ => None,
    }
}

/// A string as `as_str` of `serde_json` reads it.
pub open spec fn as_str(v: Option<JsonValue>) -> Option<Seq<char>> {
    match v {
        Some(JsonValue::String(s)) => Some(s@),
        _ => None,
    }
}

/// What a tool call's reply means. A reply `{ code, message, data }` with
/// code 0 gives its `data` (the whole reply when it has none); with another
/// code it is the error `MCP error <code>: <message>` (a default message
/// when it has none); a reply without an integer code is given as it is.
pub enum ReplyMeaning {
    Data,
    Whole,
    Failed { code: i64, message: Seq<char> },
}

pub open spec fn reply_meaning(reply: JsonValue) -> ReplyMeaning {
    match as_i64(get(reply, "code"@)) {
        Some(code) => if code == 0 {
            if get(reply, "data"@) is Some {
                ReplyMeaning::Data
            } else {
                ReplyMeaning::Whole
            }
        } else {
            ReplyMeaning::Failed {
                code,
                message: match as_str(get(reply, "message"@)) {
                    Some(m) => m,
                    None => "MCP call failed"@,
                },
            }
        },
        None => ReplyMeaning::Whole,
    }
}

/// Takes the member `key` out of an object's members.
fn take_member(es: &mut Vec<(String, JsonValue)>, key: &str) -> (r: Option<JsonValue>)
    ensures
        r == member(old(es)@, key@),
{
    let mut i: usize = 0;
    assert(es@.skip(0) =~= es@);
    while i < es.len()
        invariant
            i <= es@.len(),
            es@ == old(es)@,
            member(es@, key@) == member(es@.skip(i as int), key@),
        decreases es@.len() - i,
    {
        assert(es@.skip(i as int)[0] == es@[i as int]);
        if crate::text::str_eq(es[i].0.as_str(), key) {
            let (_, v) = es.remove(i);
            return Some(v);
        }
        assert(es@.skip(i as int).drop_first() =~= es@.skip(i + 1));
        i = i + 1;
    }
    None
}

/// The member `key` of a value that is an object.
fn get_exec<'a>(v: &'a JsonValue, key: &str) -> (r: Option<&'a JsonValue>)
    ensures
        match r {
            Some(x) => get(*v, key@) == Some(*x),
            None => get(*v, key@) is None,
        },
{
    match v {
        JsonValue::Object(o) => crate::output::member_exec(&o.entries, key),
        _ => None,
    }
}

/// The result of a tool call as the server answers it: see
/// [`reply_meaning`].
pub fn mcp_reply_result(reply: JsonValue) -> (r: Result<JsonValue, JsonRpcError>)
    ensures
        match reply_meaning(reply) {
            ReplyMeaning::Data => r == Ok::<JsonValue, JsonRpcError>(get(reply, "data"@)->0),
            ReplyMeaning::Whole => r == Ok::<JsonValue, JsonRpcError>(reply),
            ReplyMeaning::Failed { code, message } => r matches Err(e) && e.code
                == error_codes::NETWORK_ERROR && e.message@ == "MCP error "@ + int_text(code as int)
                + ": "@ + message,
        },
{
    let code = match get_exec(&reply, "code") {
        Some(JsonValue::Number(JsonNumber::Int(n))) => Some(*n),
        _ => None,
    };
    match code {
        Some(c) => {
            if c == 0 {
                if get_exec(&reply, "data").is_none() {
                    return Ok(reply);
                }
                let ghost orig = reply;
                let mut reply = reply;
                match &mut reply {
                    JsonValue::Object(o) => match take_member(&mut o.entries, "data") {
                        Some(d) => Ok(d),
                        None => Ok(JsonValue::Null),
                    },
                    _ => Ok(JsonValue::Null),
                }
            } else {
                let mut msg: Vec<char> = Vec::new();
                push_str(&mut msg, "MCP error ");
                if c < 0 {
                    push_str(&mut msg, "-");
                    push_decimal(&mut msg, (0i128 - (c as i128)) as u128);
                } else {
                    push_decimal(&mut msg, c as u128);
                }
                push_str(&mut msg, ": ");
                match get_exec(&reply, "message") {
                    Some(JsonValue::String(m)) => push_str(&mut msg, m.as_str()),
                    _ => push_str(&mut msg, "MCP call failed"),
                }
                Err(JsonRpcError::new(error_codes::NETWORK_ERROR, chars_to_string(msg.as_slice())))
            }
        },
        None => Ok(reply),
    }
}


/// A required string parameter of a request: the member `key` of the
/// parameters when it is a string, else the error `Missing <key>`.
pub fn require_str<'a>(params: &'a JsonValue, key: &str) -> (r: Result<&'a str, JsonRpcError>)
    ensures
        match as_str(get(*params, key@)) {
            Some(s) => r matches Ok(x) && x@ == s,
            None => r matches Err(e) && e.code == error_codes::INVALID_PARAMS && e.message@ == "Missing "@
                + key@,
        },
{
    match get_exec(params, key) {
        Some(JsonValue::String(s)) => Ok(s.as_str()),
        _ => {
            let mut m = str_to_chars("Missing ");
            push_str(&mut m, key);
            Err(JsonRpcError::invalid_params(chars_to_string(m.as_slice())))
        },
    }
}

/// What the server does next to hand a handler an MCP client.
#[derive(Debug, Clone, PartialEq, Eq)]
pub enum ClientStep {
    /// No token is in memory: read it (refreshing it where needed), keep it,
    /// and decide again.
    FetchToken,
    /// The kept client was made with the token in memory: hand it out.
    Reuse,
    /// Make a client with this token, keep it and hand it out.
    Create { token: String },
}

/// The next step towards an MCP client, from the token in memory and the
/// token of the kept client (`None` when no client is kept; `Some(None)` for
/// a kept client without a token).
pub fn client_step(access_token: Option<&str>, cached_token: Option<Option<&str>>) -> (s: ClientStep)
    ensures
        access_token is None ==> s == ClientStep::FetchToken,
        access_token matches Some(t) ==> (if (cached_token matches Some(Some(c)) && c@ == t@) {
            s == ClientStep::Reuse
        } else {
            s matches ClientStep::Create { token } && token@ == t@
        }),
{
    match access_token {
        None => ClientStep::FetchToken,
        Some(t) => {
            match cached_token {
                Some(Some(c)) => {
                    if crate::text::str_eq(c, t) {
                        return ClientStep::Reuse;
                    }
                },
                _ => {},
            }
            ClientStep::Create { token: t.to_string() }
        },
    }
}

} // verus!
