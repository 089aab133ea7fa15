//! Error values of the server side of the library.

use vstd::prelude::*;

verus! {

/// Errors of the MCP server, each with its message.
#[derive(Debug)]
pub enum McpError {
    InvalidRequest(String),
    MethodNotFound(String),
    InvalidParams(String),
    InternalError(String),
    ToolNotFound(String),
    ResourceNotFound(String),
    PromptNotFound(String),
}

/// The mathematical value of an error: its kind and its message.
pub enum McpErrorView {
    InvalidRequest(Seq<char>),
    MethodNotFound(Seq<char>),
    InvalidParams(Seq<char>),
    InternalError(Seq<char>),
    ToolNotFound(Seq<char>),
    ResourceNotFound(Seq<char>),
    PromptNotFound(Seq<char>),
}

impl View for McpError {
    type V = McpErrorView;

    open spec fn view(&self) -> McpErrorView {
        match self {
            McpError::InvalidRequest(m) => McpErrorView::InvalidRequest(m@),
            McpError::MethodNotFound(m) => McpErrorView::MethodNotFound(m@),
            McpError::InvalidParams(m) => McpErrorView::InvalidParams(m@),
            McpError::InternalError(m) => McpErrorView::InternalError(m@),
            McpError::ToolNotFound(m) => McpErrorView::ToolNotFound(m@),
            McpError::ResourceNotFound(m) => McpErrorView::ResourceNotFound(m@),
            McpError::PromptNotFound(m) => McpErrorView::PromptNotFound(m@),
        }
    }
}

/// The JSON-RPC error code of each kind of error (JSON-RPC 2.0 codes;
/// `-32002` is MCP's code for an unknown resource).
pub open spec fn spec_error_code(e: McpErrorView) -> int {
    match e {
        McpErrorView::InvalidRequest(_) => -32600,
        McpErrorView::MethodNotFound(_) => -32601,
        McpErrorView::InvalidParams(_) => -32602,
        McpErrorView::InternalError(_) => -32603,
        McpErrorView::ToolNotFound(_) => -32602,
        McpErrorView::ResourceNotFound(_) => -32002,
        McpErrorView::PromptNotFound(_) => -32602,
    }
}

impl McpError {
    /// An internal error with the given message.
    pub fn internal(message: String) -> (e: McpError)
        ensures
            e@ == McpErrorView::InternalError(message@),
    {
        McpError::InternalError(message)
    }

    /// The JSON-RPC error code that reports this error.
    pub fn code(&self) -> (c: i32)
        ensures
            c == spec_error_code(self@),
    {
        match self {
            McpError::InvalidRequest(_) => -32600,
            McpError::MethodNotFound(_) => -32601,
            McpError::InvalidParams(_) => -32602,
            McpError::InternalError(_) => -32603,
            McpError::ToolNotFound(_) => -32602,
            McpError::ResourceNotFound(_) => -32002,
            McpError::PromptNotFound(_) => -32602,
        }
    }

    /// The error's message.
    pub fn message(&self) -> (m: &String)
        ensures
            m@ == (match self@ {
                McpErrorView::InvalidRequest(m) => m,
                McpErrorView::MethodNotFound(m) => m,
                McpErrorView::InvalidParams(m) => m,
                McpErrorView::InternalError(m) => m,
                McpErrorView::ToolNotFound(m) => m,
                McpErrorView::ResourceNotFound(m) => m,
                McpErrorView::PromptNotFound(m) => m,
            }),
    {
        match self {
            McpError::InvalidRequest(m) => m,
            McpError::MethodNotFound(m) => m,
            McpError::InvalidParams(m) => m,
            McpError::InternalError(m) => m,
            McpError::ToolNotFound(m) => m,
            McpError::ResourceNotFound(m) => m,
            McpError::PromptNotFound(m) => m,
        }
    }
}

} // verus!
