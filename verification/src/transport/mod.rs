//! Transports that carry MCP messages.

pub mod websocket;
