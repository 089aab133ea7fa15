use mcp_kit::cloudflare::demo::{
    binary_schema, code_review_prompt, document_info, echo_tool, lowercase_tool, reverse_tool, summarize_prompt,
    text_schema, translate_prompt, uppercase_tool, user_profile, word_count, word_count_tool,
};
use mcp_kit::cloudflare::http::{
    cors_headers, expects_reply, http_route, json_headers, reply_for, rpc_status, HttpMethod, HttpRoute, MessageKind,
    RpcReply,
};
use mcp_kit::cloudflare::demo_server::demo_server;
use mcp_kit::cloudflare::server::{route_method, CloudflareServer, Route};
use mcp_kit::cloudflare::template::uri_matches_template;
use mcp_kit::error::McpError;
use mcp_kit::types::{CallToolResult, Content, Prompt, PromptArgument, RequestId, Resource, ResourceTemplate, Tool};

fn text_of(r: &CallToolResult, i: usize) -> String {
    match &r.content[i] {
        Content::Text(t) => t.clone(),
    }
}

fn tool(name: &str) -> Tool {
    Tool::new(name.to_string(), format!("{name} tool"), "{}".to_string())
}

#[test]
fn template_matching() {
    assert!(uri_matches_template("user://123", "user://{id}"));
    assert!(!uri_matches_template("user://", "user://{id}"));
    assert!(!uri_matches_template("user://1/2", "user://{id}"));
    assert!(uri_matches_template("a/x/b", "a/{v}/b"));
    assert!(uri_matches_template("a//b", "a/{v}/b"));
    assert!(!uri_matches_template("abx", "{a}x"));
    assert!(uri_matches_template("config://app", "config://app"));
    assert!(!uri_matches_template("config://apps", "config://app"));
    assert!(!uri_matches_template("config://ap", "config://app"));
    assert!(uri_matches_template("doc://7", "doc://{id"));
    assert!(uri_matches_template("", ""));
}

#[test]
fn builder_defaults_and_registration() {
    let server: CloudflareServer<u32, u32, u32> = CloudflareServer::builder().build();
    assert_eq!(server.info().name, "mcp-cloudflare");
    assert_eq!(server.info().version, "1.0.0");
    assert!(!server.has_tools());
    assert!(!server.has_resources());
    assert!(!server.has_prompts());
    let init = server.initialize();
    assert!(init.capabilities.tools.is_none());
    assert!(init.capabilities.resources.is_none());
    assert!(init.capabilities.prompts.is_none());
    assert!(init.capabilities.logging.is_some());
    assert_eq!(init.protocol_version, "2024-11-05");

    let server: CloudflareServer<u32, u32, u32> = CloudflareServer::builder()
        .name("demo".to_string())
        .version("2.0".to_string())
        .instructions("be nice".to_string())
        .tool(tool("add"), 1)
        .tool_raw(tool("echo"), 2)
        .tool(tool("add"), 3)
        .resource(Resource::new("config://app", "App").with_description("cfg").with_mime_type("application/json"), 10)
        .resource_template(ResourceTemplate::new("user://{id}", "User"), 20)
        .resource_template(ResourceTemplate::new("{any}", "Any"), 21)
        .prompt(Prompt::new("p", "a prompt").with_argument(PromptArgument::new("x", "an x").required()), 30)
        .build();
    assert_eq!(server.info().name, "demo");
    assert_eq!(server.info().version, "2.0");
    let names: Vec<&str> = server.tool_list().iter().map(|t| t.name.as_str()).collect();
    assert_eq!(names, vec!["add", "echo"]);
    assert_eq!(*server.tool_handler("add").unwrap(), 3);
    assert_eq!(*server.tool_handler("echo").unwrap(), 2);
    match server.tool_handler("nope") {
        Err(McpError::ToolNotFound(n)) => assert_eq!(n, "nope"),
        _ => panic!(),
    }
    assert_eq!(*server.resource_handler("config://app").unwrap(), 10);
    assert_eq!(*server.resource_handler("user://5").unwrap(), 20);
    assert_eq!(*server.resource_handler("x").unwrap(), 21);
    match server.resource_handler("a/b") {
        Err(McpError::ResourceNotFound(u)) => assert_eq!(u, "a/b"),
        _ => panic!(),
    }
    assert_eq!(*server.prompt_handler("p").unwrap(), 30);
    match server.prompt_handler("q") {
        Err(McpError::PromptNotFound(n)) => assert_eq!(n, "q"),
        _ => panic!(),
    }
    assert_eq!(server.resource_list()[0].description.as_deref(), Some("cfg"));
    assert_eq!(server.template_list().len(), 2);
    assert!(server.prompt_list()[0].arguments[0].required);
    let init = server.initialize();
    assert_eq!(init.capabilities.tools.unwrap().list_changed, Some(false));
    let res = init.capabilities.resources.unwrap();
    assert_eq!(res.subscribe, Some(false));
    assert_eq!(init.capabilities.prompts.unwrap().list_changed, Some(false));
    assert_eq!(init.instructions.as_deref(), Some("be nice"));
    assert_eq!(init.server_info.name, "demo");
}

#[test]
fn method_routing() {
    assert!(matches!(route_method("initialize"), Route::Initialize));
    assert!(matches!(route_method("ping"), Route::Ping));
    assert!(matches!(route_method("tools/list"), Route::ListTools));
    assert!(matches!(route_method("tools/call"), Route::CallTool));
    assert!(matches!(route_method("resources/list"), Route::ListResources));
    assert!(matches!(route_method("resources/templates/list"), Route::ListResourceTemplates));
    assert!(matches!(route_method("resources/read"), Route::ReadResource));
    assert!(matches!(route_method("prompts/list"), Route::ListPrompts));
    assert!(matches!(route_method("prompts/get"), Route::GetPrompt));
    assert!(matches!(route_method("tools/delete"), Route::Unknown));
}

#[test]
fn http_routing_and_headers() {
    assert!(matches!(http_route(HttpMethod::Options, "/anything"), HttpRoute::Preflight));
    assert!(matches!(http_route(HttpMethod::Post, "/mcp"), HttpRoute::Rpc));
    assert!(matches!(http_route(HttpMethod::Get, "/mcp"), HttpRoute::Discovery));
    assert!(matches!(http_route(HttpMethod::Get, "/health"), HttpRoute::Health));
    assert!(matches!(http_route(HttpMethod::Post, "/health"), HttpRoute::NotFound));
    assert!(matches!(http_route(HttpMethod::Other, "/mcp"), HttpRoute::NotFound));
    let cors = cors_headers();
    assert_eq!(cors.len(), 4);
    assert_eq!(cors[0], ("access-control-allow-origin".to_string(), "*".to_string()));
    assert_eq!(cors[3], ("access-control-max-age".to_string(), "86400".to_string()));
    assert_eq!(json_headers()[0].1, "application/json");
    assert_eq!(rpc_status(true), 200);
    assert_eq!(rpc_status(false), 202);
    assert!(expects_reply(MessageKind::Request));
    assert!(!expects_reply(MessageKind::Notification));
    assert!(!expects_reply(MessageKind::Response));
    match reply_for(RequestId::Number(3), Err(McpError::MethodNotFound("x".to_string()))) {
        RpcReply::Error { jsonrpc, id, code, .. } => {
            assert_eq!(jsonrpc, "2.0");
            assert!(matches!(id, RequestId::Number(3)));
            assert_eq!(code, -32601);
        }
        _ => panic!(),
    }
    match reply_for(RequestId::Number(4), Ok(serde_json::Value::Bool(true))) {
        RpcReply::Response { result, .. } => assert_eq!(result, serde_json::Value::Bool(true)),
        _ => panic!(),
    }
}

#[test]
fn text_tools() {
    assert_eq!(text_of(&uppercase_tool("Hello"), 0), "HELLO");
    assert_eq!(text_of(&lowercase_tool("HeLLo"), 0), "hello");
    assert_eq!(text_of(&reverse_tool("abc"), 0), "cba");
    assert_eq!(text_of(&reverse_tool("héllo"), 0), "olléh");
    assert_eq!(text_of(&word_count_tool("  one two\tthree\n"), 0), "3");
    assert_eq!(word_count(""), 0);
    assert_eq!(word_count("\u{3000}a\u{a0}b"), 2);
    let echo = echo_tool("hé");
    assert_eq!(text_of(&echo, 0), "You said: hé");
    assert_eq!(text_of(&echo, 1), "Length: 3 chars");
    assert!(binary_schema().contains("\"required\":[\"a\",\"b\"]"));
    assert!(text_schema().contains("\"text\""));
}

#[test]
fn prompts_fill_in_arguments() {
    let args = vec![("code".to_string(), "fn main() {}".to_string())];
    let r = code_review_prompt(&args);
    assert_eq!(r.description.as_deref(), Some("Code review for unknown code"));
    assert_eq!(
        r.messages[0].text,
        "Please review the following unknown code for:\n1. Potential bugs and errors\n2. Performance improvements\n3. Code style and best practices\n4. Security vulnerabilities\n\n```unknown\nfn main() {}\n```"
    );
    let r = summarize_prompt(&vec![("text".to_string(), "Long text".to_string())]);
    assert_eq!(r.description.as_deref(), Some("Text summarization"));
    assert_eq!(r.messages[0].text, "Please summarize the following text in 3 sentences or fewer:\n\nLong text");
    let r = translate_prompt(&vec![
        ("target_language".to_string(), "Spanish".to_string()),
        ("text".to_string(), "Hi".to_string()),
    ]);
    assert_eq!(r.description.as_deref(), Some("Translation to Spanish"));
    assert_eq!(r.messages[0].text, "Please translate the following text to Spanish:\n\nHi");
    let r = translate_prompt(&vec![]);
    assert_eq!(r.messages[0].text, "Please translate the following text to English:\n\n");
}

#[test]
fn templated_resources() {
    let admin = user_profile("user://1");
    assert_eq!(admin.id, "1");
    assert_eq!(admin.name, "User 1");
    assert_eq!(admin.email, "user1@example.com");
    assert_eq!(admin.role, "admin");
    assert_eq!(user_profile("user://42").role, "user");
    assert_eq!(user_profile("other://9").id, "unknown");
    let d = document_info("doc://abc");
    assert_eq!(d.title, "Document abc");
    assert_eq!(d.content, "This is the content of document abc.");
    assert_eq!(d.author, "System");
}

#[test]
fn dispatch_errors() {
    match mcp_kit::cloudflare::server::method_not_found("tools/delete") {
        McpError::MethodNotFound(m) => assert_eq!(m, "tools/delete"),
        _ => panic!(),
    }
    match mcp_kit::cloudflare::server::invalid_params("missing field `name`") {
        McpError::InvalidParams(m) => assert_eq!(m, "missing field `name`"),
        _ => panic!(),
    }
    assert!(matches!(
        mcp_kit::cloudflare::http::message_kind(true, true, false),
        MessageKind::Request
    ));
    assert!(matches!(
        mcp_kit::cloudflare::http::message_kind(true, false, false),
        MessageKind::Notification
    ));
    assert!(matches!(mcp_kit::cloudflare::http::message_kind(false, true, true), MessageKind::Error));
    assert!(matches!(mcp_kit::cloudflare::http::message_kind(false, true, false), MessageKind::Response));
}

#[test]
fn demo_server_registry() {
    let s: CloudflareServer<u32, u32, u32> =
        demo_server((0..10).collect(), vec![100, 101, 102], vec![200, 201], vec![300, 301, 302]);
    assert_eq!(s.info().name, "mcp-cloudflare-demo");
    assert_eq!(s.info().version, "1.0.0");
    let init = s.initialize();
    assert!(init.instructions.unwrap().starts_with("A comprehensive MCP server running on Cloudflare Workers.\n"));
    let names: Vec<String> = s.tool_list().iter().map(|t| t.name.clone()).collect();
    assert_eq!(
        names,
        vec!["add", "subtract", "multiply", "divide", "sqrt", "uppercase", "lowercase", "reverse", "word_count", "echo"]
    );
    assert_eq!(s.tool_list()[4].input_schema, "{\"type\":\"object\",\"properties\":{\"n\":{\"type\":\"number\",\"description\":\"Non-negative number\"}},\"required\":[\"n\"]}");
    assert_eq!(s.tool_list()[0].input_schema, binary_schema());
    assert_eq!(s.tool_list()[5].input_schema, text_schema());
    assert!(matches!(s.tool_handler("word_count"), Ok(&8)));
    let uris: Vec<String> = s.resource_list().iter().map(|r| r.uri.clone()).collect();
    assert_eq!(uris, vec!["config://app", "info://server", "docs://readme"]);
    assert_eq!(s.resource_list()[2].mime_type.as_deref(), Some("text/markdown"));
    let templates: Vec<String> = s.template_list().iter().map(|t| t.uri_template.clone()).collect();
    assert_eq!(templates, vec!["user://{id}", "doc://{id}"]);
    assert!(matches!(s.resource_handler("doc://9"), Ok(&201)));
    assert!(matches!(s.resource_handler("info://server"), Ok(&101)));
    let prompts: Vec<String> = s.prompt_list().iter().map(|p| p.name.clone()).collect();
    assert_eq!(prompts, vec!["code-review", "summarize", "translate"]);
    let translate = s.prompt_list()[2];
    assert!(translate.arguments[1].required);
    assert_eq!(translate.arguments[1].name, "target_language");
    assert!(!s.prompt_list()[1].arguments[1].required);
    assert!(matches!(s.prompt_handler("summarize"), Ok(&301)));
}
