//! The demo server's registry: its name, version and instructions, and the
//! tools, resources, resource templates and prompts it offers, in order.
//! The handlers are the caller's, one per entry, in the same order.

use vstd::prelude::*;
use crate::cloudflare::demo::{binary_schema, spec_binary_schema, spec_text_schema, text_schema};
use crate::cloudflare::registry::{spec_find, spec_register};
use crate::cloudflare::server::{
    CloudflareServer, CloudflareServerBuilder, PromptEntry, ResourceEntry, ResourceTemplateEntry, ToolEntry,
};
use crate::text::to_string;
use crate::types::{Prompt, PromptArgument, Resource, ResourceTemplate, Tool};

verus! {

/// The JSON Schema of the `sqrt` tool.
pub open spec fn spec_sqrt_schema() -> Seq<char> {
    "{\"type\":\"object\",\"properties\":{\"n\":{\"type\":\"number\",\"description\":\"Non-negative number\"}},\"required\":[\"n\"]}"@
}

/// The JSON Schema of the `echo` tool.
pub open spec fn spec_echo_schema() -> Seq<char> {
    "{\"type\":\"object\",\"properties\":{\"message\":{\"type\":\"string\",\"description\":\"Message to echo\"}},\"required\":[\"message\"]}"@
}

/// The demo server's instructions.
pub open spec fn spec_demo_instructions() -> Seq<char> {
    "A comprehensive MCP server running on Cloudflare Workers.\nAvailable capabilities:\n- Calculator tools (add, subtract, multiply, divide, sqrt)\n- Text utilities (uppercase, lowercase, reverse, word_count)\n- Resources (config, server info)\n- Resource templates (user profiles, documents)\n- Prompts (code review, summarize, translate)"@
}

/// The demo tools, in order: name, description, argument schema.
pub open spec fn demo_tools() -> Seq<(Seq<char>, Seq<char>, Seq<char>)> {
    seq![
        ("add"@, "Add two numbers"@, spec_binary_schema()),
        ("subtract"@, "Subtract b from a"@, spec_binary_schema()),
        ("multiply"@, "Multiply two numbers"@, spec_binary_schema()),
        ("divide"@, "Divide a by b"@, spec_binary_schema()),
        ("sqrt"@, "Square root of n"@, spec_sqrt_schema()),
        ("uppercase"@, "Convert text to uppercase"@, spec_text_schema()),
        ("lowercase"@, "Convert text to lowercase"@, spec_text_schema()),
        ("reverse"@, "Reverse the characters in text"@, spec_text_schema()),
        ("word_count"@, "Count words in text"@, spec_text_schema()),
        ("echo"@, "Echo back the input with metadata"@, spec_echo_schema()),
    ]
}

/// A registered tool as its name, description and argument schema.
pub open spec fn tool_view<T>(e: (String, ToolEntry<T>)) -> (Seq<char>, Seq<char>, Seq<char>) {
    (e.0@, e.1.tool.description@, e.1.tool.input_schema@)
}

/// No two demo tools share a name.
proof fn lemma_demo_tool_names_distinct()
    ensures
        forall|a: int, b: int| 0 <= a < b < demo_tools().len() ==> demo_tools()[a].0 != demo_tools()[b].0,
{
    reveal_strlit("add");
    reveal_strlit("subtract");
    reveal_strlit("multiply");
    reveal_strlit("divide");
    reveal_strlit("sqrt");
    reveal_strlit("uppercase");
    reveal_strlit("lowercase");
    reveal_strlit("reverse");
    reveal_strlit("word_count");
    reveal_strlit("echo");
    assert forall|a: int, b: int| 0 <= a < b < demo_tools().len() implies demo_tools()[a].0 != demo_tools()[b].0 by {
        let x = demo_tools()[a].0;
        let y = demo_tools()[b].0;
        if x.len() == y.len() {
            assert(x[0] != y[0]);
        }
    }
}

/// Registering under a key that no entry holds adds the entry last.
proof fn lemma_register_fresh<E>(s: Seq<(String, E)>, key: String, e: E)
    requires
        forall|j: int| 0 <= j < s.len() ==> (#[trigger] s[j]).0@ != key@,
    ensures
        spec_register(s, key, e) == s.push((key, e)),
{
    assert(spec_find(s, key@) is None);
}

pub fn sqrt_schema() -> (s: String)
    ensures
        s@ == spec_sqrt_schema(),
{
    to_string("{\"type\":\"object\",\"properties\":{\"n\":{\"type\":\"number\",\"description\":\"Non-negative number\"}},\"required\":[\"n\"]}")
}

pub fn echo_schema() -> (s: String)
    ensures
        s@ == spec_echo_schema(),
{
    to_string("{\"type\":\"object\",\"properties\":{\"message\":{\"type\":\"string\",\"description\":\"Message to echo\"}},\"required\":[\"message\"]}")
}

/// Demo tool `i`.
fn demo_tool(i: usize) -> (t: Tool)
    requires
        i < demo_tools().len(),
    ensures
        (t.name@, t.description@, t.input_schema@) == demo_tools()[i as int],
{
    if i == 0 {
        Tool::new(to_string("add"), to_string("Add two numbers"), binary_schema())
    } else if i == 1 {
        Tool::new(to_string("subtract"), to_string("Subtract b from a"), binary_schema())
    } else if i == 2 {
        Tool::new(to_string("multiply"), to_string("Multiply two numbers"), binary_schema())
    } else if i == 3 {
        Tool::new(to_string("divide"), to_string("Divide a by b"), binary_schema())
    } else if i == 4 {
        Tool::new(to_string("sqrt"), to_string("Square root of n"), sqrt_schema())
    } else if i == 5 {
        Tool::new(to_string("uppercase"), to_string("Convert text to uppercase"), text_schema())
    } else if i == 6 {
        Tool::new(to_string("lowercase"), to_string("Convert text to lowercase"), text_schema())
    } else if i == 7 {
        Tool::new(to_string("reverse"), to_string("Reverse the characters in text"), text_schema())
    } else if i == 8 {
        Tool::new(to_string("word_count"), to_string("Count words in text"), text_schema())
    } else {
        Tool::new(to_string("echo"), to_string("Echo back the input with metadata"), echo_schema())
    }
}

/// Register the demo tools, in order, with the given handlers.
fn register_demo_tools<T, R, P>(b: CloudflareServerBuilder<T, R, P>, tools: Vec<T>) -> (r: CloudflareServerBuilder<T, R, P>)
    requires
        b.wf(),
        b.tools_view().len() == 0,
        tools@.len() == demo_tools().len(),
    ensures
        r.wf(),
        r.spec_name() == b.spec_name(),
        r.spec_version() == b.spec_version(),
        r.spec_instructions() == b.spec_instructions(),
        r.resources_view() == b.resources_view(),
        r.templates_view() == b.templates_view(),
        r.prompts_view() == b.prompts_view(),
        r.tools_view().len() == demo_tools().len(),
        forall|j: int| 0 <= j < demo_tools().len() ==> {
            &&& tool_view(#[trigger] r.tools_view()[j]) == demo_tools()[j]
            &&& r.tools_view()[j].1.tool.name@ == r.tools_view()[j].0@
            &&& r.tools_view()[j].1.handler == tools@[j]
        },
{
    let ghost handlers = tools@;
    proof {
        lemma_demo_tool_names_distinct();
    }
    let mut r = b;
    let mut tools = tools;
    let mut i: usize = 0;
    while i < 10
        invariant
            r.wf(),
            r.spec_name() == b.spec_name(),
            r.spec_version() == b.spec_version(),
            r.spec_instructions() == b.spec_instructions(),
            r.resources_view() == b.resources_view(),
            r.templates_view() == b.templates_view(),
            r.prompts_view() == b.prompts_view(),
            demo_tools().len() == 10,
            handlers.len() == 10,
            i <= 10,
            tools@ == handlers.skip(i as int),
            r.tools_view().len() == i,
            forall|a: int, c: int| 0 <= a < c < demo_tools().len() ==> demo_tools()[a].0 != demo_tools()[c].0,
            forall|j: int| 0 <= j < i ==> {
                &&& tool_view(#[trigger] r.tools_view()[j]) == demo_tools()[j]
                &&& r.tools_view()[j].1.tool.name@ == r.tools_view()[j].0@
                &&& r.tools_view()[j].1.handler == handlers[j]
            },
        decreases 10 - i,
    {
        let h = tools.remove(0);
        let t = demo_tool(i);
        let ghost prev = r.tools_view();
        proof {
            assert(h == handlers[i as int]);
            assert(tools@ =~= handlers.skip(i + 1));
            assert forall|j: int| 0 <= j < prev.len() implies (#[trigger] prev[j]).0@ != t.name@ by {
                assert(tool_view(prev[j]) == demo_tools()[j]);
            }
            lemma_register_fresh(prev, t.name, ToolEntry { tool: t, handler: h });
        }
        r = r.tool(t, h);
        i = i + 1;
    }
    r
}

/// The view of an optional string.
pub open spec fn opt_view(o: Option<String>) -> Option<Seq<char>> {
    match o {
        Some(x) => Some(x@),
        None => None,
    }
}

/// The demo's static resources, in order: URI, name, description, MIME type.
pub open spec fn demo_resources() -> Seq<(Seq<char>, Seq<char>, Option<Seq<char>>, Option<Seq<char>>)> {
    seq![
        ("config://app"@, "App Configuration"@, Some("Application configuration settings"@), Some("application/json"@)),
        ("info://server"@, "Server Information"@, Some("Runtime server information"@), Some("application/json"@)),
        ("docs://readme"@, "README Documentation"@, Some("How to use this MCP server"@), Some("text/markdown"@)),
    ]
}

/// The demo's resource templates, in order: URI template, name,
/// description, MIME type.
pub open spec fn demo_templates() -> Seq<(Seq<char>, Seq<char>, Option<Seq<char>>, Option<Seq<char>>)> {
    seq![
        ("user://{id}"@, "User Profile"@, Some("Get user profile by ID"@), Some("application/json"@)),
        ("doc://{id}"@, "Document"@, Some("Get document by ID"@), Some("application/json"@)),
    ]
}

/// The demo's prompts, in order: name, description, and each argument's
/// name, description and whether it is required.
pub open spec fn demo_prompts() -> Seq<(Seq<char>, Option<Seq<char>>, Seq<(Seq<char>, Option<Seq<char>>, bool)>)> {
    seq![
        ("code-review"@, Some("Review code for bugs and improvements"@), seq![
            ("code"@, Some("The code to review"@), true),
            ("language"@, Some("Programming language"@), false),
        ]),
        ("summarize"@, Some("Summarize text content"@), seq![
            ("text"@, Some("The text to summarize"@), true),
            ("max_sentences"@, Some("Maximum sentences in summary"@), false),
        ]),
        ("translate"@, Some("Translate text to another language"@), seq![
            ("text"@, Some("The text to translate"@), true),
            ("target_language"@, Some("Target language (e.g., Spanish)"@), true),
        ]),
    ]
}

/// A registered static resource as its URI, name, description and MIME
/// type.
pub open spec fn resource_view<R>(e: (String, ResourceEntry<R>)) -> (Seq<char>, Seq<char>, Option<Seq<char>>, Option<Seq<char>>) {
    (e.0@, e.1.resource.name@, opt_view(e.1.resource.description), opt_view(e.1.resource.mime_type))
}

/// A registered template as its URI template, name, description and MIME
/// type.
pub open spec fn template_view<R>(e: ResourceTemplateEntry<R>) -> (Seq<char>, Seq<char>, Option<Seq<char>>, Option<Seq<char>>) {
    (e.template.uri_template@, e.template.name@, opt_view(e.template.description), opt_view(e.template.mime_type))
}

/// A prompt argument as its name, description and whether it is required.
pub open spec fn argument_view(a: PromptArgument) -> (Seq<char>, Option<Seq<char>>, bool) {
    (a.name@, opt_view(a.description), a.required)
}

/// A registered prompt as its name, description and arguments.
pub open spec fn prompt_view<P>(e: (String, PromptEntry<P>)) -> (Seq<char>, Option<Seq<char>>, Seq<(Seq<char>, Option<Seq<char>>, bool)>) {
    (e.0@, opt_view(e.1.prompt.description), e.1.prompt.arguments@.map_values(|a: PromptArgument| argument_view(a)))
}

fn demo_resource(uri: &str, name: &str, description: &str, mime_type: &str) -> (r: Resource)
    ensures
        r.uri@ == uri@,
        r.name@ == name@,
        opt_view(r.description) == Some(description@),
        opt_view(r.mime_type) == Some(mime_type@),
{
    Resource::new(uri, name).with_description(description).with_mime_type(mime_type)
}

fn demo_template(uri_template: &str, name: &str, description: &str, mime_type: &str) -> (r: ResourceTemplate)
    ensures
        r.uri_template@ == uri_template@,
        r.name@ == name@,
        opt_view(r.description) == Some(description@),
        opt_view(r.mime_type) == Some(mime_type@),
{
    ResourceTemplate::new(uri_template, name).with_description(description).with_mime_type(mime_type)
}

/// A prompt with two arguments.
fn demo_prompt(name: &str, description: &str, first: PromptArgument, second: PromptArgument) -> (p: Prompt)
    ensures
        p.name@ == name@,
        opt_view(p.description) == Some(description@),
        p.arguments@.map_values(|a: PromptArgument| argument_view(a))
            == seq![argument_view(first), argument_view(second)],
{
    let p = Prompt::new(name, description).with_argument(first).with_argument(second);
    assert(p.arguments@.map_values(|a: PromptArgument| argument_view(a)) =~= seq![argument_view(first), argument_view(second)]);
    p
}

fn argument(name: &str, description: &str, required: bool) -> (a: PromptArgument)
    ensures
        argument_view(a) == (name@, Some(description@), required),
{
    let a = PromptArgument::new(name, description);
    if required { a.required() } else { a }
}

/// The demo server, with the given handlers: one per tool, static
/// resource, template and prompt, in the order of `demo_tools`,
/// `demo_resources`, `demo_templates` and `demo_prompts`.
pub fn demo_server<T, R, P>(tools: Vec<T>, resources: Vec<R>, templates: Vec<R>, prompts: Vec<P>) -> (s: CloudflareServer<T, R, P>)
    requires
        tools@.len() == demo_tools().len(),
        resources@.len() == demo_resources().len(),
        templates@.len() == demo_templates().len(),
        prompts@.len() == demo_prompts().len(),
    ensures
        s.wf(),
        s.spec_info_name() == "mcp-cloudflare-demo"@,
        s.spec_info_version() == "1.0.0"@,
        s.spec_instructions() matches Some(i) && i@ == spec_demo_instructions(),
        s.tools_view().len() == demo_tools().len(),
        forall|j: int| 0 <= j < demo_tools().len() ==> {
            &&& tool_view(#[trigger] s.tools_view()[j]) == demo_tools()[j]
            &&& s.tools_view()[j].1.tool.name@ == s.tools_view()[j].0@
            &&& s.tools_view()[j].1.handler == tools@[j]
        },
        s.resources_view().len() == demo_resources().len(),
        forall|j: int| 0 <= j < demo_resources().len() ==> {
            &&& resource_view(#[trigger] s.resources_view()[j]) == demo_resources()[j]
            &&& s.resources_view()[j].1.resource.uri@ == s.resources_view()[j].0@
            &&& s.resources_view()[j].1.handler == resources@[j]
        },
        s.templates_view().len() == demo_templates().len(),
        forall|j: int| 0 <= j < demo_templates().len() ==> {
            &&& template_view(#[trigger] s.templates_view()[j]) == demo_templates()[j]
            &&& s.templates_view()[j].handler == templates@[j]
        },
        s.prompts_view().len() == demo_prompts().len(),
        forall|j: int| 0 <= j < demo_prompts().len() ==> {
            &&& prompt_view(#[trigger] s.prompts_view()[j]) == demo_prompts()[j]
            &&& s.prompts_view()[j].1.prompt.name@ == s.prompts_view()[j].0@
            &&& s.prompts_view()[j].1.handler == prompts@[j]
        },
{
    let ghost rh = resources@;
    let ghost th = templates@;
    let ghost ph = prompts@;
    let b = CloudflareServer::<T, R, P>::builder()
        .name(to_string("mcp-cloudflare-demo"))
        .version(to_string("1.0.0"))
        .instructions(to_string("A comprehensive MCP server running on Cloudflare Workers.\nAvailable capabilities:\n- Calculator tools (add, subtract, multiply, divide, sqrt)\n- Text utilities (uppercase, lowercase, reverse, word_count)\n- Resources (config, server info)\n- Resource templates (user profiles, documents)\n- Prompts (code review, summarize, translate)"));
    let b = register_demo_tools(b, tools);

    proof {
        reveal_strlit("config://app");
        reveal_strlit("info://server");
        reveal_strlit("docs://readme");
        reveal_strlit("code-review");
        reveal_strlit("summarize");
        reveal_strlit("translate");
    }
    let mut resources = resources;
    let mut templates = templates;
    let mut prompts = prompts;

    let h0 = resources.remove(0);
    let h1 = resources.remove(0);
    let h2 = resources.remove(0);
    let r0 = demo_resource("config://app", "App Configuration", "Application configuration settings", "application/json");
    let r1 = demo_resource("info://server", "Server Information", "Runtime server information", "application/json");
    let r2 = demo_resource("docs://readme", "README Documentation", "How to use this MCP server", "text/markdown");
    let ghost e0 = ResourceEntry { resource: r0, handler: h0 };
    let ghost e1 = ResourceEntry { resource: r1, handler: h1 };
    let ghost e2 = ResourceEntry { resource: r2, handler: h2 };
    let ghost k0 = r0.uri;
    let ghost k1 = r1.uri;
    let ghost k2 = r2.uri;
    proof {
        lemma_register_fresh(b.resources_view(), k0, e0);
    }
    let b = b.resource(r0, h0);
    proof {
        assert(b.resources_view() =~= seq![(k0, e0)]);
        assert(k0@[0] != k1@[0]);
        lemma_register_fresh(b.resources_view(), k1, e1);
    }
    let b = b.resource(r1, h1);
    proof {
        assert(b.resources_view() =~= seq![(k0, e0), (k1, e1)]);
        assert(k0@[0] != k2@[0] && k1@[0] != k2@[0]);
        lemma_register_fresh(b.resources_view(), k2, e2);
    }
    let b = b.resource(r2, h2);
    proof {
        assert(b.resources_view() =~= seq![(k0, e0), (k1, e1), (k2, e2)]);
    }

    let g0 = templates.remove(0);
    let g1 = templates.remove(0);
    let t0 = demo_template("user://{id}", "User Profile", "Get user profile by ID", "application/json");
    let t1 = demo_template("doc://{id}", "Document", "Get document by ID", "application/json");
    let b = b.resource_template(t0, g0);
    let b = b.resource_template(t1, g1);

    let q0 = prompts.remove(0);
    let q1 = prompts.remove(0);
    let q2 = prompts.remove(0);
    let p0 = demo_prompt(
        "code-review",
        "Review code for bugs and improvements",
        argument("code", "The code to review", true),
        argument("language", "Programming language", false),
    );
    let p1 = demo_prompt(
        "summarize",
        "Summarize text content",
        argument("text", "The text to summarize", true),
        argument("max_sentences", "Maximum sentences in summary", false),
    );
    let p2 = demo_prompt(
        "translate",
        "Translate text to another language",
        argument("text", "The text to translate", true),
        argument("target_language", "Target language (e.g., Spanish)", true),
    );
    let ghost f0 = PromptEntry { prompt: p0, handler: q0 };
    let ghost f1 = PromptEntry { prompt: p1, handler: q1 };
    let ghost f2 = PromptEntry { prompt: p2, handler: q2 };
    let ghost n0 = p0.name;
    let ghost n1 = p1.name;
    let ghost n2 = p2.name;
    proof {
        lemma_register_fresh(b.prompts_view(), n0, f0);
    }
    let b = b.prompt(p0, q0);
    proof {
        assert(b.prompts_view() =~= seq![(n0, f0)]);
        assert(n0@[0] != n1@[0]);
        lemma_register_fresh(b.prompts_view(), n1, f1);
    }
    let b = b.prompt(p1, q1);
    proof {
        assert(b.prompts_view() =~= seq![(n0, f0), (n1, f1)]);
        assert(n0@[0] != n2@[0] && n1@[0] != n2@[0]);
        lemma_register_fresh(b.prompts_view(), n2, f2);
    }
    let b = b.prompt(p2, q2);
    proof {
        assert(b.prompts_view() =~= seq![(n0, f0), (n1, f1), (n2, f2)]);
        reveal_strlit("mcp-cloudflare-demo");
        reveal_strlit("1.0.0");
        assert(b.templates_view() =~= seq![
            ResourceTemplateEntry { template: t0, handler: g0 },
            ResourceTemplateEntry { template: t1, handler: g1 },
        ]);
        assert(h0 == rh[0] && h1 == rh[1] && h2 == rh[2]);
        assert(g0 == th[0] && g1 == th[1]);
        assert(q0 == ph[0] && q1 == ph[1] && q2 == ph[2]);
    }
    b.build()
}

} // verus!
