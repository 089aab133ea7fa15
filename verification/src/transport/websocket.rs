//! WebSocket transport: per-connection frame handling decisions.

use vstd::prelude::*;
use std::sync::Arc;
use crate::text::str_eq;

verus! {

/// A more complete WebSocket transport with proper bidirectional
/// communication: the server it feeds and the capacity of its outgoing
/// message channels.
pub struct WebSocketTransport<S> {
    server: Arc<S>,
    buffer_size: usize,
}

impl<S> WebSocketTransport<S> {
    pub closed spec fn spec_server(&self) -> S {
        *self.server
    }

    pub closed spec fn spec_buffer_size(&self) -> usize {
        self.buffer_size
    }

    /// Create a new WebSocket transport.
    pub fn new(server: S, buffer_size: usize) -> (t: Self)
        ensures
            t.spec_server() == server,
            t.spec_buffer_size() == buffer_size,
    {
        WebSocketTransport { server: Arc::new(server), buffer_size }
    }

    /// The shared server.
    pub fn server(&self) -> (s: &Arc<S>)
        ensures
            **s == self.spec_server(),
    {
        &self.server
    }

    /// The capacity of the per-connection outgoing channels.
    pub fn buffer_size(&self) -> (n: usize)
        ensures
            n == self.spec_buffer_size(),
    {
        self.buffer_size
    }
}

/// The notification channel capacity that `serve_websocket` uses.
pub fn default_buffer_size() -> (n: usize)
    ensures
        n == 32,
{
    32
}

/// The HTTP routes of the WebSocket server.
pub enum WsRoute {
    /// `/ws` and `/mcp`: upgrade to a WebSocket carrying MCP.
    Upgrade,
    /// `/health`: answers `OK`.
    Health,
    NotFound,
}

pub open spec fn spec_ws_route(path: Seq<char>) -> WsRoute {
    if path == "/ws"@ || path == "/mcp"@ {
        WsRoute::Upgrade
    } else if path == "/health"@ {
        WsRoute::Health
    } else {
        WsRoute::NotFound
    }
}

/// Where a `GET` on `path` goes.
pub fn ws_route(path: &str) -> (r: WsRoute)
    ensures
        r == spec_ws_route(path@),
{
    if str_eq(path, "/ws") || str_eq(path, "/mcp") {
        WsRoute::Upgrade
    } else if str_eq(path, "/health") {
        WsRoute::Health
    } else {
        WsRoute::NotFound
    }
}

/// What arrived on a WebSocket.
pub enum WsFrame {
    Text,
    Binary,
    Ping,
    Pong,
    Close,
    /// The socket reported an error.
    Failure,
}

/// What the message loop does next.
pub enum SocketAction {
    /// Parse the text as a JSON-RPC message and handle it.
    HandleText,
    /// Skip the frame (binary frames are not supported; pings and pongs are
    /// answered by the transport itself).
    Ignore,
    /// Leave the loop: the client closed the connection or it failed.
    Stop,
}

/// The action for each kind of frame.
pub fn socket_action(frame: WsFrame) -> (a: SocketAction)
    ensures
        frame is Text ==> a is HandleText,
        (frame is Binary || frame is Ping || frame is Pong) ==> a is Ignore,
        (frame is Close || frame is Failure) ==> a is Stop,
{
    match frame {
        WsFrame::Text => SocketAction::HandleText,
        WsFrame::Binary => SocketAction::Ignore,
        WsFrame::Ping => SocketAction::Ignore,
        WsFrame::Pong => SocketAction::Ignore,
        WsFrame::Close => SocketAction::Stop,
        WsFrame::Failure => SocketAction::Stop,
    }
}

/// What the loop does after handing a response to the outgoing channel:
/// the plain server loop stops when the channel is closed
/// (`stop_on_failure`); the transport's own loop goes on regardless.
pub fn after_send(sent: bool, stop_on_failure: bool) -> (a: SocketAction)
    ensures
        (!sent && stop_on_failure) ==> a is Stop,
        (sent || !stop_on_failure) ==> a is Ignore,
{
    if !sent && stop_on_failure { SocketAction::Stop } else { SocketAction::Ignore }
}

} // verus!
