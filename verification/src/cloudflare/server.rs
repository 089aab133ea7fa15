//! The stateless MCP server: what a builder registers, and how each request
//! is routed to the registered entry that answers it.
//!
//! Each request is self-contained; session state is not kept across
//! requests. Handlers are kept as opaque values of the caller's choice.

use vstd::prelude::*;
use crate::cloudflare::registry::{Registry, keys_of, lemma_find_at, spec_find, spec_register};
use crate::cloudflare::template::{uri_matches_template, template_matches};
use crate::error::{McpError, McpErrorView};
use crate::text::{str_eq, to_string};
use crate::types::{
    InitializeResult, LoggingCapability, Prompt, PromptsCapability, Resource, ResourceTemplate,
    ResourcesCapability, ServerCapabilities, ServerInfo, Tool, ToolsCapability, mcp_protocol_version,
    spec_protocol_version,
};

verus! {

/// A registered tool and its handler.
pub struct ToolEntry<T> {
    pub tool: Tool,
    pub handler: T,
}

/// A registered static resource and its handler.
pub struct ResourceEntry<R> {
    pub resource: Resource,
    pub handler: R,
}

/// A registered resource template and its handler.
pub struct ResourceTemplateEntry<R> {
    pub template: ResourceTemplate,
    pub handler: R,
}

/// A registered prompt and its handler.
pub struct PromptEntry<P> {
    pub prompt: Prompt,
    pub handler: P,
}

/// A copy of an optional string.
pub fn clone_opt_string(s: &Option<String>) -> (r: Option<String>)
    ensures
        r == *s,
{
    match s {
        Some(x) => Some(x.clone()),
        None => None,
    }
}

/// The JSON-RPC methods the server answers.
pub enum Route {
    Initialize,
    Ping,
    ListTools,
    CallTool,
    ListResources,
    ListResourceTemplates,
    ReadResource,
    ListPrompts,
    GetPrompt,
    Unknown,
}

pub open spec fn spec_route(method: Seq<char>) -> Route {
    if method == "initialize"@ {
        Route::Initialize
    } else if method == "ping"@ {
        Route::Ping
    } else if method == "tools/list"@ {
        Route::ListTools
    } else if method == "tools/call"@ {
        Route::CallTool
    } else if method == "resources/list"@ {
        Route::ListResources
    } else if method == "resources/templates/list"@ {
        Route::ListResourceTemplates
    } else if method == "resources/read"@ {
        Route::ReadResource
    } else if method == "prompts/list"@ {
        Route::ListPrompts
    } else if method == "prompts/get"@ {
        Route::GetPrompt
    } else {
        Route::Unknown
    }
}

/// Which method a request names.
pub fn route_method(method: &str) -> (r: Route)
    ensures
        r == spec_route(method@),
{
    if str_eq(method, "initialize") {
        Route::Initialize
    } else if str_eq(method, "ping") {
        Route::Ping
    } else if str_eq(method, "tools/list") {
        Route::ListTools
    } else if str_eq(method, "tools/call") {
        Route::CallTool
    } else if str_eq(method, "resources/list") {
        Route::ListResources
    } else if str_eq(method, "resources/templates/list") {
        Route::ListResourceTemplates
    } else if str_eq(method, "resources/read") {
        Route::ReadResource
    } else if str_eq(method, "prompts/list") {
        Route::ListPrompts
    } else if str_eq(method, "prompts/get") {
        Route::GetPrompt
    } else {
        Route::Unknown
    }
}

/// The error for a method the server does not answer.
pub fn method_not_found(method: &str) -> (e: McpError)
    ensures
        e@ == McpErrorView::MethodNotFound(method@),
{
    McpError::MethodNotFound(to_string(method))
}

/// The error for params that could not be read; `detail` says why.
pub fn invalid_params(detail: &str) -> (e: McpError)
    ensures
        e@ == McpErrorView::InvalidParams(detail@),
{
    McpError::InvalidParams(to_string(detail))
}

/// Template `i` is the first one that `uri` matches.
pub open spec fn is_first_match<R>(ts: Seq<ResourceTemplateEntry<R>>, uri: Seq<char>, i: int) -> bool {
    &&& 0 <= i < ts.len()
    &&& template_matches(uri, ts[i].template.uri_template@)
    &&& forall|k: int| 0 <= k < i ==> !template_matches(uri, #[trigger] ts[k].template.uri_template@)
}

/// The first template that `uri` matches.
pub open spec fn spec_first_template<R>(ts: Seq<ResourceTemplateEntry<R>>, uri: Seq<char>) -> Option<int> {
    if exists|i: int| #[trigger] is_first_match(ts, uri, i) {
        Some(choose|i: int| #[trigger] is_first_match(ts, uri, i))
    } else {
        None
    }
}

/// Stateless MCP server for serverless workers.
pub struct CloudflareServer<T, R, P> {
    info: ServerInfo,
    instructions: Option<String>,
    tools: Registry<ToolEntry<T>>,
    resources: Registry<ResourceEntry<R>>,
    resource_templates: Vec<ResourceTemplateEntry<R>>,
    prompts: Registry<PromptEntry<P>>,
}

/// Builds a `CloudflareServer`.
pub struct CloudflareServerBuilder<T, R, P> {
    name: String,
    version: String,
    instructions: Option<String>,
    tools: Registry<ToolEntry<T>>,
    resources: Registry<ResourceEntry<R>>,
    resource_templates: Vec<ResourceTemplateEntry<R>>,
    prompts: Registry<PromptEntry<P>>,
}

impl<T, R, P> CloudflareServerBuilder<T, R, P> {
    pub closed spec fn spec_name(&self) -> Seq<char> { self.name@ }
    pub closed spec fn spec_version(&self) -> Seq<char> { self.version@ }
    pub closed spec fn spec_instructions(&self) -> Option<String> { self.instructions }
    pub closed spec fn tools_view(&self) -> Seq<(String, ToolEntry<T>)> { self.tools.view() }
    pub closed spec fn resources_view(&self) -> Seq<(String, ResourceEntry<R>)> { self.resources.view() }
    pub closed spec fn templates_view(&self) -> Seq<ResourceTemplateEntry<R>> { self.resource_templates@ }
    pub closed spec fn prompts_view(&self) -> Seq<(String, PromptEntry<P>)> { self.prompts.view() }

    pub closed spec fn wf(&self) -> bool {
        self.tools.wf() && self.resources.wf() && self.prompts.wf()
    }

    /// Well formed, the builder holds each tool, resource and prompt key once,
    /// so looking a key up finds the position that holds it.
    pub proof fn lemma_keys_distinct(&self)
        requires
            self.wf(),
        ensures
            keys_of(self.tools_view()).no_duplicates(),
            keys_of(self.resources_view()).no_duplicates(),
            keys_of(self.prompts_view()).no_duplicates(),
            forall|i: int| 0 <= i < self.tools_view().len()
                ==> spec_find(self.tools_view(), #[trigger] self.tools_view()[i].0@) == Some(i),
            forall|i: int| 0 <= i < self.resources_view().len()
                ==> spec_find(self.resources_view(), #[trigger] self.resources_view()[i].0@) == Some(i),
            forall|i: int| 0 <= i < self.prompts_view().len()
                ==> spec_find(self.prompts_view(), #[trigger] self.prompts_view()[i].0@) == Some(i),
    {
        self.tools.lemma_keys_distinct();
        self.resources.lemma_keys_distinct();
        self.prompts.lemma_keys_distinct();
        assert forall|i: int| 0 <= i < self.tools_view().len()
            implies spec_find(self.tools_view(), #[trigger] self.tools_view()[i].0@) == Some(i) by {
            lemma_find_at(self.tools_view(), self.tools_view()[i].0@, i);
        }
        assert forall|i: int| 0 <= i < self.resources_view().len()
            implies spec_find(self.resources_view(), #[trigger] self.resources_view()[i].0@) == Some(i) by {
            lemma_find_at(self.resources_view(), self.resources_view()[i].0@, i);
        }
        assert forall|i: int| 0 <= i < self.prompts_view().len()
            implies spec_find(self.prompts_view(), #[trigger] self.prompts_view()[i].0@) == Some(i) by {
            lemma_find_at(self.prompts_view(), self.prompts_view()[i].0@, i);
        }
    }

    /// A builder with no name, no version and nothing registered.
    pub fn new() -> (b: Self)
        ensures
            b.wf(),
            b.spec_name().len() == 0,
            b.spec_version().len() == 0,
            b.spec_instructions() is None,
            b.tools_view().len() == 0,
            b.resources_view().len() == 0,
            b.templates_view().len() == 0,
            b.prompts_view().len() == 0,
    {
        CloudflareServerBuilder {
            name: String::new(),
            version: String::new(),
            instructions: None,
            tools: Registry::new(),
            resources: Registry::new(),
            resource_templates: Vec::new(),
            prompts: Registry::new(),
        }
    }

    pub fn name(self, name: String) -> (b: Self)
        ensures
            b.spec_name() == name@,
            b.spec_version() == self.spec_version(),
            b.spec_instructions() == self.spec_instructions(),
            b.tools_view() == self.tools_view(),
            b.resources_view() == self.resources_view(),
            b.templates_view() == self.templates_view(),
            b.prompts_view() == self.prompts_view(),
            b.wf() == self.wf(),
    {
        CloudflareServerBuilder { name, ..self }
    }

    pub fn version(self, version: String) -> (b: Self)
        ensures
            b.spec_name() == self.spec_name(),
            b.spec_version() == version@,
            b.spec_instructions() == self.spec_instructions(),
            b.tools_view() == self.tools_view(),
            b.resources_view() == self.resources_view(),
            b.templates_view() == self.templates_view(),
            b.prompts_view() == self.prompts_view(),
            b.wf() == self.wf(),
    {
        CloudflareServerBuilder { version, ..self }
    }

    pub fn instructions(self, instructions: String) -> (b: Self)
        ensures
            b.spec_name() == self.spec_name(),
            b.spec_version() == self.spec_version(),
            b.spec_instructions() == Some(instructions),
            b.tools_view() == self.tools_view(),
            b.resources_view() == self.resources_view(),
            b.templates_view() == self.templates_view(),
            b.prompts_view() == self.prompts_view(),
            b.wf() == self.wf(),
    {
        CloudflareServerBuilder { instructions: Some(instructions), ..self }
    }

    /// Register a tool under its name (replacing a tool of the same name).
    /// The handler reads the arguments as a typed value.
    pub fn tool(self, tool: Tool, handler: T) -> (b: Self)
        requires
            self.wf(),
        ensures
            b.wf(),
            b.spec_name() == self.spec_name(),
            b.spec_version() == self.spec_version(),
            b.spec_instructions() == self.spec_instructions(),
            b.tools_view() == spec_register(self.tools_view(), tool.name, (ToolEntry { tool, handler })),
            b.resources_view() == self.resources_view(),
            b.templates_view() == self.templates_view(),
            b.prompts_view() == self.prompts_view(),
    {
        let mut b = self;
        let key = tool.name.clone();
        b.tools.register(key, ToolEntry { tool, handler });
        b
    }

    /// Register a tool under its name (replacing a tool of the same name).
    /// The handler reads the arguments as raw JSON.
    pub fn tool_raw(self, tool: Tool, handler: T) -> (b: Self)
        requires
            self.wf(),
        ensures
            b.wf(),
            b.spec_name() == self.spec_name(),
            b.spec_version() == self.spec_version(),
            b.spec_instructions() == self.spec_instructions(),
            b.tools_view() == spec_register(self.tools_view(), tool.name, (ToolEntry { tool, handler })),
            b.resources_view() == self.resources_view(),
            b.templates_view() == self.templates_view(),
            b.prompts_view() == self.prompts_view(),
    {
        self.tool(tool, handler)
    }

    /// Register a static resource under its URI (replacing a resource with
    /// the same URI).
    pub fn resource(self, resource: Resource, handler: R) -> (b: Self)
        requires
            self.wf(),
        ensures
            b.wf(),
            b.spec_name() == self.spec_name(),
            b.spec_version() == self.spec_version(),
            b.spec_instructions() == self.spec_instructions(),
            b.tools_view() == self.tools_view(),
            b.resources_view() == spec_register(self.resources_view(), resource.uri, (ResourceEntry { resource, handler })),
            b.templates_view() == self.templates_view(),
            b.prompts_view() == self.prompts_view(),
    {
        let mut b = self;
        let key = resource.uri.clone();
        b.resources.register(key, ResourceEntry { resource, handler });
        b
    }

    /// Register a resource template (URI with variables like `user://{id}`),
    /// after the ones already registered.
    pub fn resource_template(self, template: ResourceTemplate, handler: R) -> (b: Self)
        requires
            self.wf(),
        ensures
            b.wf(),
            b.spec_name() == self.spec_name(),
            b.spec_version() == self.spec_version(),
            b.spec_instructions() == self.spec_instructions(),
            b.tools_view() == self.tools_view(),
            b.resources_view() == self.resources_view(),
            b.templates_view() == self.templates_view().push(ResourceTemplateEntry { template, handler }),
            b.prompts_view() == self.prompts_view(),
    {
        let mut b = self;
        b.resource_templates.push(ResourceTemplateEntry { template, handler });
        b
    }

    /// Register a prompt under its name (replacing a prompt of the same
    /// name).
    pub fn prompt(self, prompt: Prompt, handler: P) -> (b: Self)
        requires
            self.wf(),
        ensures
            b.wf(),
            b.spec_name() == self.spec_name(),
            b.spec_version() == self.spec_version(),
            b.spec_instructions() == self.spec_instructions(),
            b.tools_view() == self.tools_view(),
            b.resources_view() == self.resources_view(),
            b.templates_view() == self.templates_view(),
            b.prompts_view() == spec_register(self.prompts_view(), prompt.name, (PromptEntry { prompt, handler })),
    {
        let mut b = self;
        let key = prompt.name.clone();
        b.prompts.register(key, PromptEntry { prompt, handler });
        b
    }

    /// The server. An empty name becomes `mcp-cloudflare` and an empty
    /// version `1.0.0`.
    pub fn build(self) -> (s: CloudflareServer<T, R, P>)
        requires
            self.wf(),
        ensures
            s.wf(),
            s.spec_info_name() == (if self.spec_name().len() == 0 { "mcp-cloudflare"@ } else { self.spec_name() }),
            s.spec_info_version() == (if self.spec_version().len() == 0 { "1.0.0"@ } else { self.spec_version() }),
            s.spec_instructions() == self.spec_instructions(),
            s.tools_view() == self.tools_view(),
            s.resources_view() == self.resources_view(),
            s.templates_view() == self.templates_view(),
            s.prompts_view() == self.prompts_view(),
    {
        let name: &str = if self.name.as_str().is_empty() { "mcp-cloudflare" } else { self.name.as_str() };
        let version: &str = if self.version.as_str().is_empty() { "1.0.0" } else { self.version.as_str() };
        let info = ServerInfo::new(name, version);
        CloudflareServer {
            info,
            instructions: self.instructions,
            tools: self.tools,
            resources: self.resources,
            resource_templates: self.resource_templates,
            prompts: self.prompts,
        }
    }
}

impl<T, R, P> CloudflareServer<T, R, P> {
    pub closed spec fn spec_info_name(&self) -> Seq<char> { self.info.name@ }
    pub closed spec fn spec_info_version(&self) -> Seq<char> { self.info.version@ }
    pub closed spec fn spec_instructions(&self) -> Option<String> { self.instructions }
    pub closed spec fn tools_view(&self) -> Seq<(String, ToolEntry<T>)> { self.tools.view() }
    pub closed spec fn resources_view(&self) -> Seq<(String, ResourceEntry<R>)> { self.resources.view() }
    pub closed spec fn templates_view(&self) -> Seq<ResourceTemplateEntry<R>> { self.resource_templates@ }
    pub closed spec fn prompts_view(&self) -> Seq<(String, PromptEntry<P>)> { self.prompts.view() }

    pub closed spec fn wf(&self) -> bool {
        self.tools.wf() && self.resources.wf() && self.prompts.wf()
    }

    /// Well formed, the server holds each tool, resource and prompt key once,
    /// so looking a key up finds the position that holds it.
    pub proof fn lemma_keys_distinct(&self)
        requires
            self.wf(),
        ensures
            keys_of(self.tools_view()).no_duplicates(),
            keys_of(self.resources_view()).no_duplicates(),
            keys_of(self.prompts_view()).no_duplicates(),
            forall|i: int| 0 <= i < self.tools_view().len()
                ==> spec_find(self.tools_view(), #[trigger] self.tools_view()[i].0@) == Some(i),
            forall|i: int| 0 <= i < self.resources_view().len()
                ==> spec_find(self.resources_view(), #[trigger] self.resources_view()[i].0@) == Some(i),
            forall|i: int| 0 <= i < self.prompts_view().len()
                ==> spec_find(self.prompts_view(), #[trigger] self.prompts_view()[i].0@) == Some(i),
    {
        self.tools.lemma_keys_distinct();
        self.resources.lemma_keys_distinct();
        self.prompts.lemma_keys_distinct();
        assert forall|i: int| 0 <= i < self.tools_view().len()
            implies spec_find(self.tools_view(), #[trigger] self.tools_view()[i].0@) == Some(i) by {
            lemma_find_at(self.tools_view(), self.tools_view()[i].0@, i);
        }
        assert forall|i: int| 0 <= i < self.resources_view().len()
            implies spec_find(self.resources_view(), #[trigger] self.resources_view()[i].0@) == Some(i) by {
            lemma_find_at(self.resources_view(), self.resources_view()[i].0@, i);
        }
        assert forall|i: int| 0 <= i < self.prompts_view().len()
            implies spec_find(self.prompts_view(), #[trigger] self.prompts_view()[i].0@) == Some(i) by {
            lemma_find_at(self.prompts_view(), self.prompts_view()[i].0@, i);
        }
    }

    /// A builder with nothing registered.
    pub fn builder() -> (b: CloudflareServerBuilder<T, R, P>)
        ensures
            b.wf(),
            b.spec_name().len() == 0,
            b.spec_version().len() == 0,
            b.spec_instructions() is None,
            b.tools_view().len() == 0,
            b.resources_view().len() == 0,
            b.templates_view().len() == 0,
            b.prompts_view().len() == 0,
    {
        CloudflareServerBuilder::new()
    }

    /// The server's name and version.
    pub fn info(&self) -> (i: &ServerInfo)
        ensures
            i.name@ == self.spec_info_name(),
            i.version@ == self.spec_info_version(),
    {
        &self.info
    }

    /// Some tool is registered.
    pub fn has_tools(&self) -> (b: bool)
        ensures
            b == (self.tools_view().len() > 0),
    {
        !self.tools.is_empty()
    }

    /// Some static resource or resource template is registered.
    pub fn has_resources(&self) -> (b: bool)
        ensures
            b == (self.resources_view().len() > 0 || self.templates_view().len() > 0),
    {
        !self.resources.is_empty() || self.resource_templates.len() > 0
    }

    /// Some prompt is registered.
    pub fn has_prompts(&self) -> (b: bool)
        ensures
            b == (self.prompts_view().len() > 0),
    {
        !self.prompts.is_empty()
    }

    /// The answer to `initialize`: the protocol version, a capability for
    /// each kind of registered entry (none changes its list or takes
    /// subscriptions), logging, the server's info and instructions.
    pub fn initialize(&self) -> (r: InitializeResult)
        ensures
            r.protocol_version@ == spec_protocol_version(),
            (r.capabilities.tools is Some) == (self.tools_view().len() > 0),
            r.capabilities.tools matches Some(c) ==> c.list_changed == Some(false),
            (r.capabilities.resources is Some) == (self.resources_view().len() > 0 || self.templates_view().len() > 0),
            r.capabilities.resources matches Some(c) ==> c.subscribe == Some(false) && c.list_changed == Some(false),
            (r.capabilities.prompts is Some) == (self.prompts_view().len() > 0),
            r.capabilities.prompts matches Some(c) ==> c.list_changed == Some(false),
            r.capabilities.logging is Some,
            r.server_info.name@ == self.spec_info_name(),
            r.server_info.version@ == self.spec_info_version(),
            r.instructions == self.spec_instructions(),
    {
        let tools = if self.has_tools() { Some(ToolsCapability { list_changed: Some(false) }) } else { None };
        let resources = if self.has_resources() {
            Some(ResourcesCapability { subscribe: Some(false), list_changed: Some(false) })
        } else {
            None
        };
        let prompts = if self.has_prompts() { Some(PromptsCapability { list_changed: Some(false) }) } else { None };
        InitializeResult {
            protocol_version: mcp_protocol_version(),
            capabilities: ServerCapabilities { tools, resources, prompts, logging: Some(LoggingCapability {}) },
            server_info: ServerInfo { name: self.info.name.clone(), version: self.info.version.clone() },
            instructions: clone_opt_string(&self.instructions),
        }
    }

    /// The registered tools, in registration order.
    pub fn tool_list(&self) -> (r: Vec<&Tool>)
        ensures
            r@.len() == self.tools_view().len(),
            forall|i: int| 0 <= i < r@.len() ==> *r@[i] == (#[trigger] self.tools_view()[i]).1.tool,
    {
        let mut r: Vec<&Tool> = Vec::new();
        let mut i: usize = 0;
        while i < self.tools.len()
            invariant
                i <= self.tools_view().len(),
                r@.len() == i,
                forall|j: int| 0 <= j < i ==> *r@[j] == (#[trigger] self.tools_view()[j]).1.tool,
            decreases self.tools_view().len() - i,
        {
            r.push(&self.tools.get(i).1.tool);
            i = i + 1;
        }
        r
    }

    /// The registered static resources, in registration order.
    pub fn resource_list(&self) -> (r: Vec<&Resource>)
        ensures
            r@.len() == self.resources_view().len(),
            forall|i: int| 0 <= i < r@.len() ==> *r@[i] == (#[trigger] self.resources_view()[i]).1.resource,
    {
        let mut r: Vec<&Resource> = Vec::new();
        let mut i: usize = 0;
        while i < self.resources.len()
            invariant
                i <= self.resources_view().len(),
                r@.len() == i,
                forall|j: int| 0 <= j < i ==> *r@[j] == (#[trigger] self.resources_view()[j]).1.resource,
            decreases self.resources_view().len() - i,
        {
            r.push(&self.resources.get(i).1.resource);
            i = i + 1;
        }
        r
    }

    /// The registered resource templates, in registration order.
    pub fn template_list(&self) -> (r: Vec<&ResourceTemplate>)
        ensures
            r@.len() == self.templates_view().len(),
            forall|i: int| 0 <= i < r@.len() ==> *r@[i] == (#[trigger] self.templates_view()[i]).template,
    {
        let mut r: Vec<&ResourceTemplate> = Vec::new();
        let mut i: usize = 0;
        while i < self.resource_templates.len()
            invariant
                i <= self.templates_view().len(),
                r@.len() == i,
                forall|j: int| 0 <= j < i ==> *r@[j] == (#[trigger] self.templates_view()[j]).template,
            decreases self.templates_view().len() - i,
        {
            r.push(&self.resource_templates[i].template);
            i = i + 1;
        }
        r
    }

    /// The registered prompts, in registration order.
    pub fn prompt_list(&self) -> (r: Vec<&Prompt>)
        ensures
            r@.len() == self.prompts_view().len(),
            forall|i: int| 0 <= i < r@.len() ==> *r@[i] == (#[trigger] self.prompts_view()[i]).1.prompt,
    {
        let mut r: Vec<&Prompt> = Vec::new();
        let mut i: usize = 0;
        while i < self.prompts.len()
            invariant
                i <= self.prompts_view().len(),
                r@.len() == i,
                forall|j: int| 0 <= j < i ==> *r@[j] == (#[trigger] self.prompts_view()[j]).1.prompt,
            decreases self.prompts_view().len() - i,
        {
            r.push(&self.prompts.get(i).1.prompt);
            i = i + 1;
        }
        r
    }

    /// The handler of the tool named `name` (`tools/call`).
    pub fn tool_handler(&self, name: &str) -> (r: Result<&T, McpError>)
        requires
            self.wf(),
        ensures
            match spec_find(self.tools_view(), name@) {
                Some(i) => r matches Ok(h) && *h == self.tools_view()[i].1.handler,
                None => r matches Err(e) && e@ == McpErrorView::ToolNotFound(name@),
            },
    {
        match self.tools.find(name) {
            Some(i) => Ok(&self.tools.get(i).1.handler),
            None => Err(McpError::ToolNotFound(to_string(name))),
        }
    }

    /// The handler of the prompt named `name` (`prompts/get`).
    pub fn prompt_handler(&self, name: &str) -> (r: Result<&P, McpError>)
        requires
            self.wf(),
        ensures
            match spec_find(self.prompts_view(), name@) {
                Some(i) => r matches Ok(h) && *h == self.prompts_view()[i].1.handler,
                None => r matches Err(e) && e@ == McpErrorView::PromptNotFound(name@),
            },
    {
        match self.prompts.find(name) {
            Some(i) => Ok(&self.prompts.get(i).1.handler),
            None => Err(McpError::PromptNotFound(to_string(name))),
        }
    }

    /// The handler that reads `uri` (`resources/read`): the static resource
    /// registered under exactly that URI, else the first template that the
    /// URI matches.
    pub fn resource_handler(&self, uri: &str) -> (r: Result<&R, McpError>)
        requires
            self.wf(),
        ensures
            match spec_find(self.resources_view(), uri@) {
                Some(i) => r matches Ok(h) && *h == self.resources_view()[i].1.handler,
                None => match spec_first_template(self.templates_view(), uri@) {
                    Some(j) => r matches Ok(h) && *h == self.templates_view()[j].handler,
                    None => r matches Err(e) && e@ == McpErrorView::ResourceNotFound(uri@),
                },
            },
    {
        match self.resources.find(uri) {
            Some(i) => Ok(&self.resources.get(i).1.handler),
            None => {
                let ghost ts = self.templates_view();
                let mut j: usize = 0;
                while j < self.resource_templates.len()
                    invariant
                        ts == self.templates_view(),
                        spec_find(self.resources_view(), uri@) is None,
                        j <= ts.len(),
                        forall|k: int| 0 <= k < j ==> !template_matches(uri@, #[trigger] ts[k].template.uri_template@),
                    decreases ts.len() - j,
                {
                    if uri_matches_template(uri, self.resource_templates[j].template.uri_template.as_str()) {
                        proof {
                            assert(is_first_match(ts, uri@, j as int));
                            let c = choose|i: int| #[trigger] is_first_match(ts, uri@, i);
                            if c < j {
                                assert(!template_matches(uri@, ts[c].template.uri_template@));
                            }
                            if c > j {
                                assert(!template_matches(uri@, ts[j as int].template.uri_template@));
                            }
                            assert(c == j);
                            assert(spec_first_template(self.templates_view(), uri@) == Some(j as int));
                            assert(spec_find(self.resources_view(), uri@) is None);
                        }
                        return Ok(&self.resource_templates[j].handler);
                    }
                    j = j + 1;
                }
                proof {
                    assert forall|i: int| !is_first_match(ts, uri@, i) by {
                        if 0 <= i < ts.len() {
                            assert(!template_matches(uri@, ts[i].template.uri_template@));
                        }
                    }
                }
                Err(McpError::ResourceNotFound(to_string(uri)))
            },
        }
    }
}

} // verus!
