use mcp_kit::error::McpError;
use mcp_kit::plugin::wasm::{load_plugin, load_plugin_with_config, tools_from_exports, PluginConfig, WasmExport};
use mcp_kit::server::sampling::{
    invalid_sampling_response, next_sampling_request, sampling_outcome, sampling_request, NoOpSamplingClient,
    RequestIdCounter,
    SamplingClient, SamplingReply,
};
use mcp_kit::types::{Content, RequestId};

#[test]
fn test_load_plugin_from_valid_wasm_bytes() {
    // A minimal valid WASM module (wat format: empty module)
    let valid_wasm_bytes = vec![
        0x00, 0x61, 0x73, 0x6d, // WASM magic number
        0x01, 0x00, 0x00, 0x00, // WASM version
    ];

    let result = load_plugin(&valid_wasm_bytes);
    assert!(result.is_ok(), "Expected plugin to load from valid WASM bytes");

    let plugin = result.unwrap();
    assert_eq!(plugin.name(), "wasm-plugin", "Plugin should have a default name");
    assert_eq!(plugin.version(), "0.1.0");
    assert!(plugin.register_tools().is_empty());
}

#[test]
fn test_wasm_plugin_can_register_tools() {
    let wat_source = r#"
        (module
          (func (export "hello") (result i32)
            i32.const 42))
    "#;

    let wasm_with_export = wat::parse_str(wat_source).expect("Failed to parse WAT");

    let plugin = load_plugin(&wasm_with_export).unwrap_or_else(|_| panic!("load failed"));
    let tools = plugin.register_tools();

    assert!(!tools.is_empty(), "WASM plugin should register at least one tool from exported function");
    assert_eq!(tools[0].tool.name, "hello", "Tool should be named after WASM export");
    assert_eq!(tools[0].tool.description, "WASM function: hello");
}

#[test]
fn only_function_exports_become_tools() {
    let wasm = wat::parse_str(
        r#"(module
             (memory (export "mem") 1)
             (func (export "a") (result i32) i32.const 1)
             (global (export "g") i32 (i32.const 0))
             (func (export "b")))"#,
    )
    .unwrap();
    let plugin = load_plugin_with_config(&wasm, &PluginConfig { config: "{}".to_string(), enabled: true, priority: 0 })
        .unwrap_or_else(|_| panic!("load failed"));
    let tools = plugin.register_tools();
    let names: Vec<&str> = tools.iter().map(|t| t.tool.name.as_str()).collect();
    assert_eq!(names, vec!["a", "b"]);
    assert_eq!(tools[1].tool.input_schema, "{\"type\":\"object\",\"properties\":{}}");
    let res = tools[0].handler.call().unwrap_or_else(|_| panic!("call failed"));
    assert!(!res.is_error);
    match &res.content[0] {
        Content::Text(t) => assert_eq!(t, "WASM function execution not yet implemented"),
    }
}

#[test]
fn invalid_bytes_fail_to_load() {
    match load_plugin(b"(module)") {
        Err(McpError::InternalError(m)) => {
            assert!(m.starts_with("Failed to load WASM module: "));
            assert!(m.len() > "Failed to load WASM module: ".len());
        }
        _ => panic!("expected an internal error"),
    }
}

#[test]
fn tools_from_export_list() {
    let exports = vec![
        WasmExport { name: "x".to_string(), is_function: false },
        WasmExport { name: "run".to_string(), is_function: true },
    ];
    let tools = tools_from_exports(&exports);
    assert_eq!(tools.len(), 1);
    assert_eq!(tools[0].tool.name, "run");
    assert_eq!(tools[0].tool.description, "WASM function: run");
}

#[test]
fn noop_sampling_client_refuses() {
    let client = NoOpSamplingClient;
    match client.create_message(serde_json::Value::Null) {
        Err(McpError::InvalidRequest(m)) => assert_eq!(m, "Client does not support sampling"),
        _ => panic!("expected InvalidRequest"),
    }
}

#[test]
fn request_ids_count_from_one() {
    let mut c = RequestIdCounter::new();
    match c.next_request_id() {
        RequestId::Number(n) => assert_eq!(n, 1),
        _ => panic!(),
    }
    match c.next_request_id() {
        RequestId::Number(n) => assert_eq!(n, 2),
        _ => panic!(),
    }
}

#[test]
fn sampling_request_and_outcomes() {
    let req = sampling_request(RequestId::Number(5), serde_json::Value::from(10));
    assert_eq!(req.jsonrpc, "2.0");
    assert_eq!(req.method, "sampling/createMessage");
    assert!(matches!(req.id, RequestId::Number(5)));
    assert_eq!(req.params, Some(serde_json::Value::from(10)));

    match sampling_outcome(SamplingReply::SendFailed) {
        Err(McpError::InternalError(m)) => assert_eq!(m, "Sampling channel closed"),
        _ => panic!(),
    }
    match sampling_outcome(SamplingReply::ResponseDropped) {
        Err(McpError::InternalError(m)) => assert_eq!(m, "Response channel closed"),
        _ => panic!(),
    }
    match sampling_outcome(SamplingReply::Replied(Ok(serde_json::Value::from(1)))) {
        Ok(v) => assert_eq!(v, serde_json::Value::from(1)),
        _ => panic!(),
    }
    match sampling_outcome(SamplingReply::Replied(Err(McpError::InvalidParams("bad".to_string())))) {
        Err(McpError::InvalidParams(m)) => assert_eq!(m, "bad"),
        _ => panic!(),
    }
    match invalid_sampling_response("missing field") {
        McpError::InternalError(m) => assert_eq!(m, "Invalid sampling response: missing field"),
        _ => panic!(),
    }
}

#[test]
fn loading_with_config_gives_the_same_tools() {
    let wasm = wat::parse_str(r#"(module (func (export "z")) (func (export "y")))"#).expect("Failed to parse WAT");
    let config = PluginConfig { config: "{}".to_string(), enabled: true, priority: 3 };
    let p = load_plugin(&wasm).unwrap_or_else(|_| panic!("load failed"));
    let q = load_plugin_with_config(&wasm, &config).unwrap_or_else(|_| panic!("load failed"));
    let pn: Vec<String> = p.register_tools().iter().map(|t| t.tool.name.clone()).collect();
    let qn: Vec<String> = q.register_tools().iter().map(|t| t.tool.name.clone()).collect();
    assert_eq!(pn, vec!["z", "y"]);
    assert_eq!(pn, qn);
    assert_eq!(p.name(), q.name());
    assert!(load_plugin_with_config(&[0u8, 1, 2], &config).is_err());
}

#[test]
fn sampling_requests_take_successive_ids() {
    let mut counter = RequestIdCounter::new();
    for expected in 1..=3i64 {
        let r = next_sampling_request(&mut counter, serde_json::Value::Null);
        assert_eq!(r.method, "sampling/createMessage");
        assert_eq!(r.jsonrpc, "2.0");
        assert!(matches!(r.id, RequestId::Number(n) if n == expected));
    }
}

#[test]
fn bytes_without_a_module_header_fail_to_load() {
    match load_plugin(&[1u8, 2, 3]) {
        Err(McpError::InternalError(m)) => assert!(m.starts_with("Failed to load WASM module: ")),
        _ => panic!("expected a load error"),
    }
    assert!(load_plugin(b"(module)").is_err());
    assert!(load_plugin(&[0u8, 0x61, 0x73, 0x6d, 0x0d, 0x00, 0x01, 0x00]).is_err());
}
