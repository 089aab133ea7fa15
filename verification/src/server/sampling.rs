//! Sampling API for server-initiated LLM requests.
//!
//! Servers may ask clients that support the sampling capability for LLM
//! completions. This module holds the client abstraction, the client for
//! sessions without sampling, and the steps of the channel-based client
//! that decide what is sent and what a reply becomes.

use vstd::prelude::*;
use crate::error::{McpError, McpErrorView};
use crate::types::{JsonRpcRequest, RequestId, RequestIdView};
use crate::text::concat;

verus! {

/// A client for making sampling requests to the MCP client.
///
/// Implementations handle the actual communication with the client. The
/// request and the result are the JSON values of `sampling/createMessage`.
pub trait SamplingClient {
    /// Send a sampling/createMessage request to the client.
    fn create_message(&self, request: serde_json::Value) -> Result<serde_json::Value, McpError>;
}

/// No-op sampling client for when the client doesn't support sampling.
pub struct NoOpSamplingClient;

impl SamplingClient for NoOpSamplingClient {
    /// Always fails with `InvalidRequest("Client does not support sampling")`.
    fn create_message(&self, request: serde_json::Value) -> (r: Result<serde_json::Value, McpError>)
        ensures
            r matches Err(e) && e@ == McpErrorView::InvalidRequest("Client does not support sampling"@),
    {
        Err(McpError::InvalidRequest("Client does not support sampling".to_owned()))
    }
}

/// The source of request ids of a channel-based sampling client: ids count
/// up from 1, as an atomic `u64` that wraps, each read as an `i64`.
pub struct RequestIdCounter {
    next: u64,
}

impl RequestIdCounter {
    pub closed spec fn spec_next(&self) -> u64 {
        self.next
    }

    /// A counter whose first id is 1.
    pub fn new() -> (c: Self)
        ensures
            c.spec_next() == 1,
    {
        RequestIdCounter { next: 1 }
    }

    /// Takes the next id (a fetch-and-add of one).
    pub fn next_request_id(&mut self) -> (id: RequestId)
        ensures
            id@ == RequestIdView::Number(old(self).spec_next() as i64 as int),
            final(self).spec_next() == old(self).spec_next().wrapping_add(1),
    {
        let n = self.next;
        self.next = n.wrapping_add(1);
        RequestId::Number(n as i64)
    }
}

/// The JSON-RPC request that asks the client for a sampling completion.
pub fn sampling_request(id: RequestId, params: serde_json::Value) -> (r: JsonRpcRequest)
    ensures
        r.jsonrpc@ == "2.0"@,
        r.id@ == id@,
        r.method@ == "sampling/createMessage"@,
        r.params == Some(params),
{
    JsonRpcRequest {
        jsonrpc: "2.0".to_owned(),
        id,
        method: "sampling/createMessage".to_owned(),
        params: Some(params),
    }
}

/// The next sampling request of a channel-based client: it takes the next
/// id from the client's counter and asks for a completion with `params`.
pub fn next_sampling_request(counter: &mut RequestIdCounter, params: serde_json::Value) -> (r: JsonRpcRequest)
    ensures
        r.jsonrpc@ == "2.0"@,
        r.id@ == RequestIdView::Number(old(counter).spec_next() as i64 as int),
        r.method@ == "sampling/createMessage"@,
        r.params == Some(params),
        final(counter).spec_next() == old(counter).spec_next().wrapping_add(1),
{
    let id = counter.next_request_id();
    sampling_request(id, params)
}

/// The counter's next id once `k` ids have been taken from a counter whose
/// next id was `start`.
pub open spec fn next_after(start: u64, k: nat) -> u64
    decreases k,
{
    if k == 0 {
        start
    } else {
        next_after(start, (k - 1) as nat).wrapping_add(1)
    }
}

/// What came back from handing a sampling request to the client channel.
pub enum SamplingReply {
    /// The request channel was closed.
    SendFailed,
    /// The request was sent but its response channel was dropped.
    ResponseDropped,
    /// The client answered.
    Replied(Result<serde_json::Value, McpError>),
}

/// The outcome of a sampling request, from what the channel gave back.
pub fn sampling_outcome(reply: SamplingReply) -> (r: Result<serde_json::Value, McpError>)
    ensures
        reply is SendFailed ==> (r matches Err(e) && e@ == McpErrorView::InternalError("Sampling channel closed"@)),
        reply is ResponseDropped ==> (r matches Err(e) && e@ == McpErrorView::InternalError("Response channel closed"@)),
        reply matches SamplingReply::Replied(res) ==> r == res,
{
    match reply {
        SamplingReply::SendFailed => Err(McpError::InternalError("Sampling channel closed".to_owned())),
        SamplingReply::ResponseDropped => Err(McpError::InternalError("Response channel closed".to_owned())),
        SamplingReply::Replied(res) => res,
    }
}

/// The error for a reply that is not a valid sampling result; `detail`
/// says why it could not be read.
pub fn invalid_sampling_response(detail: &str) -> (e: McpError)
    ensures
        e@ == McpErrorView::InternalError("Invalid sampling response: "@ + detail@),
{
    McpError::InternalError(concat("Invalid sampling response: ", detail))
}

/// Taken from a fresh counter (shared by a client and its clones), the
/// `k`-th id, counting from 0, is `k + 1`: the ids are 1, 2, 3, ... while
/// fewer than `i64::MAX` have been taken.
pub proof fn law_request_ids_are_successive(k: nat)
    requires
        k < i64::MAX,
    ensures
        next_after(1, k) as int == k + 1,
        next_after(1, k) as i64 as int == k + 1,
    decreases k,
{
    if k > 0 {
        law_request_ids_are_successive((k - 1) as nat);
    }
}

/// No two requests of a fresh counter share an id while fewer than
/// `i64::MAX` ids have been taken.
pub proof fn law_request_ids_never_repeat(j: nat, k: nat)
    requires
        j < k < i64::MAX,
    ensures
        next_after(1, j) as i64 != next_after(1, k) as i64,
{
    law_request_ids_are_successive(j);
    law_request_ids_are_successive(k);
}

/// Successive request ids count up by one, as long as the counter has not
/// passed `i64::MAX`.
pub proof fn law_request_ids_count_up(n: u64)
    requires
        n < i64::MAX,
    ensures
        n.wrapping_add(1) as i64 as int == n as i64 as int + 1,
{
}

} // verus!
