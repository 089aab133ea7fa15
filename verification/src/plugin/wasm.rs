//! WASM plugin loading for sandboxed execution.
//!
//! A plugin is loaded from WebAssembly bytes; each function that the module
//! exports becomes a tool named after the export. Calling such a tool is
//! not implemented yet and answers with a placeholder text.

use vstd::prelude::*;
use crate::error::{McpError, McpErrorView};
use crate::types::{CallToolResult, Tool, content_texts};
use crate::text::{concat, to_string};

verus! {

#[verifier::external_type_specification]
#[verifier::external_body]
pub struct ExEngine(wasmtime::Engine);

#[verifier::external_type_specification]
#[verifier::external_body]
pub struct ExModule(wasmtime::Module);

#[verifier::external_type_specification]
#[verifier::external_body]
pub struct ExWasmError(wasmtime::Error);

/// `wasmtime::Engine::default`: a compilation engine with the default
/// configuration. Nothing is claimed of it.
#[verifier::external_body]
fn engine_default() -> wasmtime::Engine {
    wasmtime::Engine::default()
}

/// `wasmtime::Error`'s `Display` (`to_string`). Nothing is claimed of the
/// text.
#[verifier::external_body]
fn wasm_error_to_string(e: &wasmtime::Error) -> String {
    e.to_string()
}

/// One export of a WASM module: its name and whether it is a function.
pub struct WasmExport {
    pub name: String,
    pub is_function: bool,
}

/// The header of a binary WebAssembly module: the magic `\0asm` and the
/// version 1, little-endian.
pub open spec fn wasm_module_header() -> Seq<u8> {
    seq![0x00u8, 0x61u8, 0x73u8, 0x6du8, 0x01u8, 0x00u8, 0x00u8, 0x00u8]
}

/// `bytes` begins with the header of a binary module.
pub open spec fn has_module_header(bytes: Seq<u8>) -> bool {
    bytes.len() >= 8 && bytes.take(8) == wasm_module_header()
}

/// The exports of the WebAssembly binary `bytes`, in the order of its
/// export section, each as its name and whether it is a function.
pub uninterp spec fn wasm_exports(bytes: Seq<u8>) -> Seq<(Seq<char>, bool)>;

/// `wasmtime::Module::from_binary`, then `Module::exports` on the module it
/// compiled: validates and compiles the binary bytes (the text format is
/// refused) and lists the exports, each as its name and whether its type is
/// `ExternType::Func`. Whether compiling succeeds also depends on the engine
/// and the machine, so success is not claimed. When it succeeds, the
/// exports are those of the export section of `bytes`, in its order.
/// Claimed besides: it fails on bytes that do not begin with the header of
/// a binary module (the magic `\0asm` and version 1), which wasmparser reads
/// first and refuses otherwise (a component's header too).
#[verifier::external_body]
fn compile_module(engine: &wasmtime::Engine, bytes: &[u8]) -> (r: Result<(wasmtime::Module, Vec<WasmExport>), wasmtime::Error>)
    ensures
        r is Ok ==> has_module_header(bytes@),
        r matches Ok(x) ==> export_views(x.1@) == wasm_exports(bytes@),
{
    let module = wasmtime::Module::from_binary(engine, bytes)?;
    let exports = module.exports().map(|e| WasmExport {
        name: e.name().to_string(),
        is_function: matches!(e.ty(), wasmtime::ExternType::Func(_)),
    }).collect();
    Ok((module, exports))
}

/// The JSON Schema of a WASM tool's arguments: an object with no declared
/// properties.
pub open spec fn spec_wasm_tool_schema() -> Seq<char> {
    "{\"type\":\"object\",\"properties\":{}}"@
}

/// The text a WASM tool answers with until execution is implemented.
pub open spec fn spec_wasm_placeholder() -> Seq<char> {
    "WASM function execution not yet implemented"@
}

/// A tool derived from a WASM export: the export's name, the description
/// `WASM function: <name>`, and the empty-object schema.
pub open spec fn tool_for_export(name: Seq<char>) -> (Seq<char>, Seq<char>, Seq<char>) {
    (name, "WASM function: "@ + name, spec_wasm_tool_schema())
}

/// The tools of a module: one per exported function, in export order.
pub open spec fn spec_tools_from_exports(exports: Seq<(Seq<char>, bool)>) -> Seq<(Seq<char>, Seq<char>, Seq<char>)>
    decreases exports.len(),
{
    if exports.len() == 0 {
        Seq::empty()
    } else {
        let rest = spec_tools_from_exports(exports.drop_last());
        if exports.last().1 {
            rest.push(tool_for_export(exports.last().0))
        } else {
            rest
        }
    }
}

/// The tools of a module are its function exports, in export order, each
/// made into a tool named after it: as many tools as function exports, and
/// none for any other export.
pub proof fn law_tools_are_the_function_exports(exports: Seq<(Seq<char>, bool)>)
    ensures
        spec_tools_from_exports(exports)
            == exports.filter(|e: (Seq<char>, bool)| e.1).map_values(|e: (Seq<char>, bool)| tool_for_export(e.0)),
        spec_tools_from_exports(exports).len() == exports.filter(|e: (Seq<char>, bool)| e.1).len(),
    decreases exports.len(),
{
    reveal(Seq::filter);
    let f = |e: (Seq<char>, bool)| e.1;
    let g = |e: (Seq<char>, bool)| tool_for_export(e.0);
    if exports.len() > 0 {
        law_tools_are_the_function_exports(exports.drop_last());
        let sub = exports.drop_last().filter(f);
        assert(exports.filter(f) == (if f(exports.last()) { sub.push(exports.last()) } else { sub }));
        if f(exports.last()) {
            assert(sub.push(exports.last()).map_values(g) =~= sub.map_values(g).push(g(exports.last())));
        }
    } else {
        assert(exports.filter(f) =~= Seq::<(Seq<char>, bool)>::empty());
    }
}

pub open spec fn export_views(es: Seq<WasmExport>) -> Seq<(Seq<char>, bool)> {
    es.map_values(|e: WasmExport| (e.name@, e.is_function))
}

pub open spec fn tool_views(ts: Seq<ToolDefinition>) -> Seq<(Seq<char>, Seq<char>, Seq<char>)> {
    ts.map_values(|t: ToolDefinition| (t.tool.name@, t.tool.description@, t.tool.input_schema@))
}

/// The handler of a WASM tool.
pub struct WasmToolHandler;

impl WasmToolHandler {
    /// Runs the tool: answers with the placeholder text.
    pub fn call(&self) -> (r: Result<CallToolResult, McpError>)
        ensures
            r matches Ok(res) && content_texts(res.content@) == seq![spec_wasm_placeholder()] && !res.is_error,
    {
        Ok(CallToolResult::text("WASM function execution not yet implemented".to_owned()))
    }
}

/// A tool and the handler that runs it.
pub struct ToolDefinition {
    pub tool: Tool,
    pub handler: WasmToolHandler,
}

/// The tools for a list of exports: one per exported function, in order.
pub fn tools_from_exports(exports: &Vec<WasmExport>) -> (tools: Vec<ToolDefinition>)
    ensures
        tool_views(tools@) == spec_tools_from_exports(export_views(exports@)),
{
    let mut tools: Vec<ToolDefinition> = Vec::new();
    let mut i: usize = 0;
    while i < exports.len()
        invariant
            i <= exports@.len(),
            tool_views(tools@) == spec_tools_from_exports(export_views(exports@).take(i as int)),
        decreases exports@.len() - i,
    {
        let e = &exports[i];
        let ghost before = tools@;
        proof {
            let ev = export_views(exports@);
            assert(ev.take(i + 1).drop_last() =~= ev.take(i as int));
            assert(ev.take(i + 1).last() == (e.name@, e.is_function));
        }
        if e.is_function {
            let tool = Tool::new(
                to_string(e.name.as_str()),
                concat("WASM function: ", e.name.as_str()),
                "{\"type\":\"object\",\"properties\":{}}".to_owned(),
            );
            let def = ToolDefinition { tool, handler: WasmToolHandler };
            tools.push(def);
            assert(tool_views(tools@) =~= tool_views(before).push((def.tool.name@, def.tool.description@, def.tool.input_schema@)));
        }
        i = i + 1;
    }
    assert(export_views(exports@).take(exports@.len() as int) =~= export_views(exports@));
    tools
}

/// A WASM plugin: its name, version, compiled module, and the module's
/// exports.
pub struct WasmPlugin {
    name: String,
    version: String,
    engine: wasmtime::Engine,
    module: wasmtime::Module,
    exports: Vec<WasmExport>,
}

impl WasmPlugin {
    pub closed spec fn spec_name(&self) -> Seq<char> {
        self.name@
    }

    pub closed spec fn spec_version(&self) -> Seq<char> {
        self.version@
    }

    /// The module's exports, in order, each as its name and whether it is a
    /// function.
    pub closed spec fn spec_exports(&self) -> Seq<(Seq<char>, bool)> {
        export_views(self.exports@)
    }

    /// The plugin's name.
    pub fn name(&self) -> (n: &str)
        ensures
            n@ == self.spec_name(),
    {
        self.name.as_str()
    }

    /// The plugin's version.
    pub fn version(&self) -> (v: &str)
        ensures
            v@ == self.spec_version(),
    {
        self.version.as_str()
    }

    /// One tool per function that the module exports, named after the
    /// export, in export order.
    pub fn register_tools(&self) -> (tools: Vec<ToolDefinition>)
        ensures
            tool_views(tools@) == spec_tools_from_exports(self.spec_exports()),
    {
        tools_from_exports(&self.exports)
    }
}

/// `p` is the plugin loaded from `bytes`: named `wasm-plugin`, version
/// `0.1.0`, with the exports of `bytes`.
pub open spec fn loaded_from(bytes: Seq<u8>, p: WasmPlugin) -> bool {
    &&& p.spec_name() == "wasm-plugin"@
    &&& p.spec_version() == "0.1.0"@
    &&& p.spec_exports() == wasm_exports(bytes)
}

/// `e` is the error of WASM bytes that could not be loaded.
pub open spec fn is_load_error(e: McpErrorView) -> bool {
    exists|detail: Seq<char>| e == McpErrorView::InternalError("Failed to load WASM module: "@ + detail)
}

/// Two plugins loaded from the same bytes, with or without a
/// configuration, have the same name, version and tools.
pub proof fn law_loads_agree(bytes: Seq<u8>, p: WasmPlugin, q: WasmPlugin)
    requires
        loaded_from(bytes, p),
        loaded_from(bytes, q),
    ensures
        p.spec_name() == q.spec_name(),
        p.spec_version() == q.spec_version(),
        spec_tools_from_exports(p.spec_exports()) == spec_tools_from_exports(q.spec_exports()),
{
}

/// The error for WASM bytes that could not be loaded; `detail` says why.
pub fn load_error(detail: &str) -> (e: McpError)
    ensures
        e@ == McpErrorView::InternalError("Failed to load WASM module: "@ + detail@),
{
    McpError::internal(concat("Failed to load WASM module: ", detail))
}

/// Load a plugin from WASM bytes: compile them with a default engine. The
/// plugin is named `wasm-plugin`, version `0.1.0`.
pub fn load_plugin(wasm_bytes: &[u8]) -> (r: Result<WasmPlugin, McpError>)
    ensures
        r matches Ok(p) ==> loaded_from(wasm_bytes@, p),
        r matches Err(e) ==> is_load_error(e@),
        !has_module_header(wasm_bytes@) ==> r is Err,
{
    let engine = engine_default();
    match compile_module(&engine, wasm_bytes) {
        Ok((module, exports)) => {
            Ok(WasmPlugin {
                name: "wasm-plugin".to_owned(),
                version: "0.1.0".to_owned(),
                engine,
                module,
                exports,
            })
        },
        Err(e) => {
            let detail = wasm_error_to_string(&e);
            Err(load_error(detail.as_str()))
        },
    }
}

/// Configuration handed to a plugin when it is loaded.
pub struct PluginConfig {
    /// Plugin-specific settings, as JSON text.
    pub config: String,
    pub enabled: bool,
    pub priority: i32,
}

/// Load a plugin from WASM bytes with configuration. The configuration is
/// not used yet: this loads exactly as `load_plugin` does.
pub fn load_plugin_with_config(wasm_bytes: &[u8], config: &PluginConfig) -> (r: Result<WasmPlugin, McpError>)
    ensures
        r matches Ok(p) ==> loaded_from(wasm_bytes@, p),
        r matches Err(e) ==> is_load_error(e@),
        !has_module_header(wasm_bytes@) ==> r is Err,
{
    load_plugin(wasm_bytes)
}

} // verus!
