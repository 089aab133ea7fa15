//! Protocol values shared across the server: request identifiers, roots and
//! client capabilities.

use vstd::prelude::*;

verus! {

/// A JSON-RPC request identifier.
pub enum RequestId {
    Number(i64),
    String(String),
}

/// The mathematical value of a request identifier.
pub enum RequestIdView {
    Number(int),
    Str(Seq<char>),
}

impl View for RequestId {
    type V = RequestIdView;

    open spec fn view(&self) -> RequestIdView {
        match self {
            RequestId::Number(n) => RequestIdView::Number(*n as int),
            RequestId::String(s) => RequestIdView::Str(s@),
        }
    }
}

impl RequestId {
    /// A copy of this identifier.
    pub fn duplicate(&self) -> (r: RequestId)
        ensures
            r@ == self@,
    {
        match self {
            RequestId::Number(n) => RequestId::Number(*n),
            RequestId::String(s) => RequestId::String(s.clone()),
        }
    }

    /// Whether two identifiers are the same.
    pub fn same_as(&self, other: &RequestId) -> (r: bool)
        ensures
            r == (self@ == other@),
    {
        match (self, other) {
            (RequestId::Number(a), RequestId::Number(b)) => *a == *b,
            (RequestId::String(a), RequestId::String(b)) => *a == *b,
            _ => false,
        }
    }
}

/// A root (a directory or file URI) that the client exposes to the server.
pub struct Root {
    pub uri: String,
    pub name: Option<String>,
}

/// The mathematical value of a root.
pub struct RootView {
    pub uri: Seq<char>,
    pub name: Option<Seq<char>>,
}

impl View for Root {
    type V = RootView;

    open spec fn view(&self) -> RootView {
        RootView {
            uri: self.uri@,
            name: match self.name {
                Some(n) => Some(n@),
                None => None,
            },
        }
    }
}

impl Root {
    /// A copy of this root.
    pub fn duplicate(&self) -> (r: Root)
        ensures
            r@ == self@,
    {
        Root {
            uri: self.uri.clone(),
            name: match &self.name {
                Some(n) => Some(n.clone()),
                None => None,
            },
        }
    }
}

/// The views of a sequence of roots.
pub open spec fn root_views(rs: Seq<Root>) -> Seq<RootView> {
    rs.map_values(|r: Root| r@)
}

/// Name and version of the connected client.
pub struct ClientInfo {
    pub name: String,
    pub version: String,
}

/// The client offers sampling (LLM completions) to the server.
pub struct SamplingCapability {}

/// The client offers roots, and says whether it notifies list changes.
pub struct RootsCapability {
    pub list_changed: Option<bool>,
}

/// What the client declared it supports.
pub struct ClientCapabilities {
    pub roots: Option<RootsCapability>,
    pub sampling: Option<SamplingCapability>,
}

#[verifier::external_type_specification]
#[verifier::external_body]
pub struct ExJsonValue(serde_json::Value);

/// A JSON-RPC request.
pub struct JsonRpcRequest {
    pub jsonrpc: String,
    pub id: RequestId,
    pub method: String,
    pub params: Option<serde_json::Value>,
}

/// A tool that the server offers: its name, a description, and the JSON
/// Schema of its arguments as JSON text.
pub struct Tool {
    pub name: String,
    pub description: String,
    pub input_schema: String,
}

impl Tool {
    /// A tool with the given name, description and argument schema.
    pub fn new(name: String, description: String, input_schema: String) -> (t: Tool)
        ensures
            t.name@ == name@,
            t.description@ == description@,
            t.input_schema@ == input_schema@,
    {
        Tool { name, description, input_schema }
    }
}

/// One piece of content of a tool result.
pub enum Content {
    Text(String),
}

/// What a tool call returns: content, and whether it reports an error.
pub struct CallToolResult {
    pub content: Vec<Content>,
    pub is_error: bool,
}

/// The texts of a list of contents.
pub open spec fn content_texts(cs: Seq<Content>) -> Seq<Seq<char>> {
    cs.map_values(|c: Content| match c {
        Content::Text(t) => t@,
    })
}

impl CallToolResult {
    /// A successful result with a single text.
    pub fn text(text: String) -> (r: CallToolResult)
        ensures
            content_texts(r.content@) == seq![text@],
            !r.is_error,
    {
        let mut content: Vec<Content> = Vec::new();
        content.push(Content::Text(text));
        let r = CallToolResult { content, is_error: false };
        assert(content_texts(r.content@) =~= seq![text@]);
        r
    }

    /// A result that reports an error with the given text.
    pub fn error(text: String) -> (r: CallToolResult)
        ensures
            content_texts(r.content@) == seq![text@],
            r.is_error,
    {
        let mut content: Vec<Content> = Vec::new();
        content.push(Content::Text(text));
        let r = CallToolResult { content, is_error: true };
        assert(content_texts(r.content@) =~= seq![text@]);
        r
    }

    /// A successful result with the given contents.
    pub fn new(content: Vec<Content>) -> (r: CallToolResult)
        ensures
            content_texts(r.content@) == content_texts(content@),
            !r.is_error,
    {
        CallToolResult { content, is_error: false }
    }
}

/// Name and version of a server.
pub struct ServerInfo {
    pub name: String,
    pub version: String,
}

impl ServerInfo {
    pub fn new(name: &str, version: &str) -> (i: ServerInfo)
        ensures
            i.name@ == name@,
            i.version@ == version@,
    {
        ServerInfo { name: name.to_owned(), version: version.to_owned() }
    }
}

/// A static resource the server offers.
pub struct Resource {
    pub uri: String,
    pub name: String,
    pub description: Option<String>,
    pub mime_type: Option<String>,
}

impl Resource {
    pub fn new(uri: &str, name: &str) -> (r: Resource)
        ensures
            r.uri@ == uri@,
            r.name@ == name@,
            r.description is None,
            r.mime_type is None,
    {
        Resource { uri: uri.to_owned(), name: name.to_owned(), description: None, mime_type: None }
    }

    pub fn with_description(self, description: &str) -> (r: Resource)
        ensures
            r.uri == self.uri,
            r.name == self.name,
            r.description matches Some(d) && d@ == description@,
            r.mime_type == self.mime_type,
    {
        Resource { description: Some(description.to_owned()), ..self }
    }

    pub fn with_mime_type(self, mime_type: &str) -> (r: Resource)
        ensures
            r.uri == self.uri,
            r.name == self.name,
            r.description == self.description,
            r.mime_type matches Some(m) && m@ == mime_type@,
    {
        Resource { mime_type: Some(mime_type.to_owned()), ..self }
    }
}

/// A family of resources whose URIs follow a template such as `user://{id}`.
pub struct ResourceTemplate {
    pub uri_template: String,
    pub name: String,
    pub description: Option<String>,
    pub mime_type: Option<String>,
}

impl ResourceTemplate {
    pub fn new(uri_template: &str, name: &str) -> (r: ResourceTemplate)
        ensures
            r.uri_template@ == uri_template@,
            r.name@ == name@,
            r.description is None,
            r.mime_type is None,
    {
        ResourceTemplate { uri_template: uri_template.to_owned(), name: name.to_owned(), description: None, mime_type: None }
    }

    pub fn with_description(self, description: &str) -> (r: ResourceTemplate)
        ensures
            r.uri_template == self.uri_template,
            r.name == self.name,
            r.description matches Some(d) && d@ == description@,
            r.mime_type == self.mime_type,
    {
        ResourceTemplate { description: Some(description.to_owned()), ..self }
    }

    pub fn with_mime_type(self, mime_type: &str) -> (r: ResourceTemplate)
        ensures
            r.uri_template == self.uri_template,
            r.name == self.name,
            r.description == self.description,
            r.mime_type matches Some(m) && m@ == mime_type@,
    {
        ResourceTemplate { mime_type: Some(mime_type.to_owned()), ..self }
    }
}

/// An argument of a prompt.
pub struct PromptArgument {
    pub name: String,
    pub description: Option<String>,
    pub required: bool,
}

impl PromptArgument {
    /// An optional argument with the given name and description.
    pub fn new(name: &str, description: &str) -> (a: PromptArgument)
        ensures
            a.name@ == name@,
            a.description matches Some(d) && d@ == description@,
            !a.required,
    {
        PromptArgument { name: name.to_owned(), description: Some(description.to_owned()), required: false }
    }

    /// The same argument, made required.
    pub fn required(self) -> (a: PromptArgument)
        ensures
            a.name == self.name,
            a.description == self.description,
            a.required,
    {
        PromptArgument { required: true, ..self }
    }
}

/// A prompt template the server offers.
pub struct Prompt {
    pub name: String,
    pub description: Option<String>,
    pub arguments: Vec<PromptArgument>,
}

impl Prompt {
    pub fn new(name: &str, description: &str) -> (p: Prompt)
        ensures
            p.name@ == name@,
            p.description matches Some(d) && d@ == description@,
            p.arguments@.len() == 0,
    {
        Prompt { name: name.to_owned(), description: Some(description.to_owned()), arguments: Vec::new() }
    }

    /// The same prompt with one more argument, last.
    pub fn with_argument(self, argument: PromptArgument) -> (p: Prompt)
        ensures
            p.name == self.name,
            p.description == self.description,
            p.arguments@ == self.arguments@.push(argument),
    {
        let mut arguments = self.arguments;
        arguments.push(argument);
        Prompt { name: self.name, description: self.description, arguments }
    }
}

/// Who speaks a prompt message.
pub enum Role {
    User,
    Assistant,
}

/// One message of a prompt.
pub struct PromptMessage {
    pub role: Role,
    pub text: String,
}

impl PromptMessage {
    /// A message spoken by the user.
    pub fn user(text: String) -> (m: PromptMessage)
        ensures
            m.role is User,
            m.text@ == text@,
    {
        PromptMessage { role: Role::User, text }
    }
}

/// The filled-in prompt.
pub struct GetPromptResult {
    pub description: Option<String>,
    pub messages: Vec<PromptMessage>,
}

pub struct ToolsCapability {
    pub list_changed: Option<bool>,
}

pub struct ResourcesCapability {
    pub subscribe: Option<bool>,
    pub list_changed: Option<bool>,
}

pub struct PromptsCapability {
    pub list_changed: Option<bool>,
}

pub struct LoggingCapability {}

/// What the server declares it supports.
pub struct ServerCapabilities {
    pub tools: Option<ToolsCapability>,
    pub resources: Option<ResourcesCapability>,
    pub prompts: Option<PromptsCapability>,
    pub logging: Option<LoggingCapability>,
}

/// The answer to `initialize`.
pub struct InitializeResult {
    pub protocol_version: String,
    pub capabilities: ServerCapabilities,
    pub server_info: ServerInfo,
    pub instructions: Option<String>,
}

/// The protocol version this server speaks.
pub open spec fn spec_protocol_version() -> Seq<char> {
    "2024-11-05"@
}

pub fn mcp_protocol_version() -> (v: String)
    ensures
        v@ == spec_protocol_version(),
{
    "2024-11-05".to_owned()
}

} // verus!
