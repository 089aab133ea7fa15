//! A stateless MCP server for serverless (Cloudflare Workers) deployments:
//! its registry, request routing and the demo server's tool logic.

pub mod template;
pub mod registry;
pub mod server;
pub mod http;
pub mod demo;
pub mod demo_server;
