//! Core logic of an MCP (Model Context Protocol) server toolkit: session
//! bookkeeping, resource subscriptions, request cancellation, client roots,
//! sampling requests, WASM plugin tool discovery, WebSocket frame handling and
//! a stateless request router for serverless deployments.

pub mod text;
pub mod types;
pub mod error;
pub mod plugin;
pub mod cloudflare;
pub mod server;
pub mod transport;
pub mod client;
