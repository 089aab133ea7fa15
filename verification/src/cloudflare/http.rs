//! The HTTP face of the serverless server: which endpoint a request reaches,
//! the headers of every response, and what a JSON-RPC message is answered
//! with.

use vstd::prelude::*;
use crate::error::McpError;
use crate::text::str_eq;
use crate::types::RequestId;

verus! {

/// The HTTP methods the worker tells apart.
pub enum HttpMethod {
    Get,
    Post,
    Options,
    Other,
}

/// Where an HTTP request goes.
pub enum HttpRoute {
    /// CORS preflight: an empty answer with the CORS headers.
    Preflight,
    /// `POST /mcp`: the JSON-RPC endpoint for all MCP requests.
    Rpc,
    /// `GET /mcp`: server metadata and discovery.
    Discovery,
    /// `GET /health`: answers `OK`.
    Health,
    /// Anything else: 404.
    NotFound,
}

pub open spec fn spec_http_route(method: HttpMethod, path: Seq<char>) -> HttpRoute {
    match method {
        HttpMethod::Options => HttpRoute::Preflight,
        HttpMethod::Post => if path == "/mcp"@ { HttpRoute::Rpc } else { HttpRoute::NotFound },
        HttpMethod::Get => if path == "/mcp"@ {
            HttpRoute::Discovery
        } else if path == "/health"@ {
            HttpRoute::Health
        } else {
            HttpRoute::NotFound
        },
        HttpMethod::Other => HttpRoute::NotFound,
    }
}

/// The endpoint an HTTP request reaches.
pub fn http_route(method: HttpMethod, path: &str) -> (r: HttpRoute)
    ensures
        r == spec_http_route(method, path@),
{
    match method {
        HttpMethod::Options => HttpRoute::Preflight,
        HttpMethod::Post => if str_eq(path, "/mcp") { HttpRoute::Rpc } else { HttpRoute::NotFound },
        HttpMethod::Get => if str_eq(path, "/mcp") {
            HttpRoute::Discovery
        } else if str_eq(path, "/health") {
            HttpRoute::Health
        } else {
            HttpRoute::NotFound
        },
        HttpMethod::Other => HttpRoute::NotFound,
    }
}

pub open spec fn header_views(hs: Seq<(String, String)>) -> Seq<(Seq<char>, Seq<char>)> {
    hs.map_values(|h: (String, String)| (h.0@, h.1@))
}

fn header(name: &str, value: &str) -> (h: (String, String))
    ensures
        h.0@ == name@,
        h.1@ == value@,
{
    (name.to_owned(), value.to_owned())
}

/// The CORS headers that every response carries.
pub fn cors_headers() -> (hs: Vec<(String, String)>)
    ensures
        header_views(hs@) == seq![
            ("access-control-allow-origin"@, "*"@),
            ("access-control-allow-methods"@, "GET, POST, OPTIONS"@),
            ("access-control-allow-headers"@, "content-type, authorization"@),
            ("access-control-max-age"@, "86400"@),
        ],
{
    let mut hs: Vec<(String, String)> = Vec::new();
    hs.push(header("access-control-allow-origin", "*"));
    hs.push(header("access-control-allow-methods", "GET, POST, OPTIONS"));
    hs.push(header("access-control-allow-headers", "content-type, authorization"));
    hs.push(header("access-control-max-age", "86400"));
    assert(header_views(hs@) =~= seq![
        ("access-control-allow-origin"@, "*"@),
        ("access-control-allow-methods"@, "GET, POST, OPTIONS"@),
        ("access-control-allow-headers"@, "content-type, authorization"@),
        ("access-control-max-age"@, "86400"@),
    ]);
    hs
}

/// The headers of a JSON body.
pub fn json_headers() -> (hs: Vec<(String, String)>)
    ensures
        header_views(hs@) == seq![("content-type"@, "application/json"@)],
{
    let mut hs: Vec<(String, String)> = Vec::new();
    hs.push(header("content-type", "application/json"));
    assert(header_views(hs@) =~= seq![("content-type"@, "application/json"@)]);
    hs
}

/// The HTTP status of the answer to a JSON-RPC message: 200 with a body
/// when there is a reply, 202 (accepted, empty) when there is none.
pub fn rpc_status(has_reply: bool) -> (s: u16)
    ensures
        s == (if has_reply { 200u16 } else { 202u16 }),
{
    if has_reply { 200 } else { 202 }
}

/// The kinds of JSON-RPC message.
pub enum MessageKind {
    Request,
    Notification,
    Response,
    Error,
}

/// The kind of a JSON-RPC message, from which members it has: a request
/// names a method and has an id, a notification names a method without an
/// id, an error carries `error`, anything else is a response.
pub fn message_kind(has_method: bool, has_id: bool, has_error: bool) -> (k: MessageKind)
    ensures
        (has_method && has_id) ==> k is Request,
        (has_method && !has_id) ==> k is Notification,
        (!has_method && has_error) ==> k is Error,
        (!has_method && !has_error) ==> k is Response,
{
    if has_method {
        if has_id { MessageKind::Request } else { MessageKind::Notification }
    } else if has_error {
        MessageKind::Error
    } else {
        MessageKind::Response
    }
}

/// Only requests are answered; notifications and anything else get no
/// reply.
pub fn expects_reply(kind: MessageKind) -> (b: bool)
    ensures
        b == (kind is Request),
{
    match kind {
        MessageKind::Request => true,
        _ => false,
    }
}

/// The answer to a request.
pub enum RpcReply {
    /// `{"jsonrpc": "2.0", "id": .., "result": ..}`
    Response { jsonrpc: String, id: RequestId, result: serde_json::Value },
    /// `{"jsonrpc": "2.0", "id": .., "error": {"code": .., "message": ..}}`
    Error { jsonrpc: String, id: RequestId, code: i32, error: McpError },
}

/// The answer to the request `id`, from the outcome of its dispatch.
pub fn reply_for(id: RequestId, outcome: Result<serde_json::Value, McpError>) -> (r: RpcReply)
    ensures
        outcome matches Ok(v) ==> (r matches RpcReply::Response { jsonrpc, id: rid, result }
            && jsonrpc@ == "2.0"@ && rid == id && result == v),
        outcome matches Err(e) ==> (r matches RpcReply::Error { jsonrpc, id: rid, code, error }
            && jsonrpc@ == "2.0"@ && rid == id && error == e
            && code == crate::error::spec_error_code(e@)),
{
    match outcome {
        Ok(result) => RpcReply::Response { jsonrpc: "2.0".to_owned(), id, result },
        Err(error) => {
            let code = error.code();
            RpcReply::Error { jsonrpc: "2.0".to_owned(), id, code, error }
        },
    }
}

} // verus!
