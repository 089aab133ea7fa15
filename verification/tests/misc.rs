use mcp_kit::client::error::ClientError;
use mcp_kit::error::McpError;
use mcp_kit::text::{i32_to_decimal, starts_with, str_eq, strip_prefix, usize_to_decimal};
use mcp_kit::transport::websocket::{
    after_send, default_buffer_size, socket_action, ws_route, SocketAction, WebSocketTransport, WsFrame, WsRoute,
};

#[test]
fn decimal_notation() {
    assert_eq!(usize_to_decimal(0), "0");
    assert_eq!(usize_to_decimal(7), "7");
    assert_eq!(usize_to_decimal(1030), "1030");
    assert_eq!(usize_to_decimal(usize::MAX), usize::MAX.to_string());
    assert_eq!(i32_to_decimal(-32601), "-32601");
    assert_eq!(i32_to_decimal(i32::MIN), i32::MIN.to_string());
    assert_eq!(i32_to_decimal(0), "0");
}

#[test]
fn string_helpers() {
    assert!(starts_with("file:///a/b", "file:///a"));
    assert!(starts_with("abc", ""));
    assert!(!starts_with("ab", "abc"));
    assert!(str_eq("é", "é"));
    assert!(!str_eq("a", "b"));
    assert_eq!(strip_prefix("user://12", "user://").as_deref(), Some("12"));
    assert_eq!(strip_prefix("usr://12", "user://"), None);
}

#[test]
fn client_error_messages() {
    assert_eq!(ClientError::Transport("down".to_string()).message(), "Transport error: down");
    assert_eq!(
        ClientError::ServerError { code: -32600, message: "bad".to_string() }.message(),
        "Server error (-32600): bad"
    );
    assert_eq!(ClientError::Timeout.message(), "Request timeout");
    assert_eq!(ClientError::Closed.message(), "Connection closed");
    assert_eq!(ClientError::NotInitialized.message(), "Client not initialized - call initialize() first");
    assert_eq!(ClientError::Cancelled.message(), "Request cancelled");
    assert_eq!(ClientError::Protocol("p".to_string()).message(), "Protocol error: p");
    assert_eq!(ClientError::InvalidResponse("r".to_string()).message(), "Invalid response: r");
    let json_err = serde_json::from_str::<serde_json::Value>("{").unwrap_err();
    let e: ClientError = json_err.into();
    let m = e.message();
    assert!(m.starts_with("Serialization error: ") && m.len() > "Serialization error: ".len());
    let io: ClientError = std::io::Error::new(std::io::ErrorKind::Other, "boom").into();
    assert_eq!(io.message(), "IO error: boom");
}

#[test]
fn error_codes() {
    assert_eq!(McpError::InvalidRequest(String::new()).code(), -32600);
    assert_eq!(McpError::MethodNotFound(String::new()).code(), -32601);
    assert_eq!(McpError::InvalidParams(String::new()).code(), -32602);
    assert_eq!(McpError::internal("x".to_string()).code(), -32603);
    assert_eq!(McpError::ResourceNotFound(String::new()).code(), -32002);
    assert_eq!(McpError::internal("x".to_string()).message(), "x");
}

#[test]
fn websocket_decisions() {
    let t = WebSocketTransport::new("server", 16);
    assert_eq!(**t.server(), "server");
    assert_eq!(t.buffer_size(), 16);
    assert_eq!(default_buffer_size(), 32);
    assert!(matches!(ws_route("/ws"), WsRoute::Upgrade));
    assert!(matches!(ws_route("/mcp"), WsRoute::Upgrade));
    assert!(matches!(ws_route("/health"), WsRoute::Health));
    assert!(matches!(ws_route("/x"), WsRoute::NotFound));
    assert!(matches!(socket_action(WsFrame::Text), SocketAction::HandleText));
    assert!(matches!(socket_action(WsFrame::Binary), SocketAction::Ignore));
    assert!(matches!(socket_action(WsFrame::Ping), SocketAction::Ignore));
    assert!(matches!(socket_action(WsFrame::Pong), SocketAction::Ignore));
    assert!(matches!(socket_action(WsFrame::Close), SocketAction::Stop));
    assert!(matches!(socket_action(WsFrame::Failure), SocketAction::Stop));
    assert!(matches!(after_send(false, true), SocketAction::Stop));
    assert!(matches!(after_send(false, false), SocketAction::Ignore));
    assert!(matches!(after_send(true, true), SocketAction::Ignore));
}
