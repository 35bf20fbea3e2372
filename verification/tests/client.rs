use ulmcp::client::Client;
use ulmcp::mcp::types::{
    ContentBlock, JsonRpcError, JsonRpcId, JsonRpcRequest, RequestParams, ResourceReadParams,
    ResponseResult, ToolCallParams,
};
use ulmcp::server::handle_request;
use ulmcp::transport::native::NativeTransport;
use ulmcp::{
    ParamType, Registry, ResourceContent, StrMap, ToolCall, ToolDef, ToolResult, ToolStatus, ToolValue,
};

type ToolHandler = Box<dyn Fn(&ToolCall) -> ToolResult + Send + Sync>;
type ResourceHandler = Box<dyn Fn(&str) -> Option<ResourceContent> + Send + Sync>;

fn test_registry() -> Registry<ToolHandler, ResourceHandler> {
    let mut reg: Registry<ToolHandler, ResourceHandler> = Registry::new();
    reg.register_tool(
        ToolDef::new("add", "Add two numbers")
            .param("a", "First number", ParamType::Integer, true)
            .param("b", "Second number", ParamType::Integer, true),
        Box::new(|call| {
            let a = call.arguments.get("a").and_then(|v| v.as_i64()).unwrap_or(0);
            let b = call.arguments.get("b").and_then(|v| v.as_i64()).unwrap_or(0);
            ToolResult {
                call_id: call.call_id.clone(),
                status: ToolStatus::Success,
                output: ToolValue::Integer(a + b),
                error: None,
                tokens_used: None,
                latency_ms: None,
            }
        }),
    );
    reg
}

fn obj(entries: Vec<(&str, ToolValue)>) -> ToolValue {
    let mut m = StrMap::new();
    for (k, v) in entries {
        m.insert(k.to_string(), v);
    }
    ToolValue::Object(m)
}

/// What the transport reads from these parameters, in the cases these tests
/// use (serde's messages for them).
fn read(params: &ToolValue) -> RequestParams {
    let m = match params {
        ToolValue::Object(m) => m,
        _ => {
            return RequestParams {
                tool_call: Err("invalid type: null, expected struct ToolCallParams".into()),
                resource_read: Err("invalid type: null, expected struct ResourceReadParams".into()),
            }
        },
    };
    let tool_call = match m.get("name") {
        Some(ToolValue::String(n)) => Ok(ToolCallParams {
            name: n.clone(),
            arguments: m.get("arguments").cloned().unwrap_or(ToolValue::Null),
        }),
        _ => Err("missing field `name`".to_string()),
    };
    let resource_read = match m.get("uri") {
        Some(ToolValue::String(u)) => Ok(ResourceReadParams { uri: u.clone() }),
        _ => Err("missing field `uri`".to_string()),
    };
    RequestParams { tool_call, resource_read }
}

fn with_read(req: JsonRpcRequest) -> (JsonRpcRequest, RequestParams) {
    let r = read(&req.params);
    (req, r)
}

#[test]
fn full_mcp_flow() {
    let reg = test_registry();
    let mut client = Client::new();

    // 1. Initialize
    let init_req = Client::initialize_request("test-client");
    let init_resp = handle_request(&reg, Ok(with_read(init_req))).unwrap();
    match &init_resp.result {
        Some(ResponseResult::Initialize(ir)) => assert_eq!(ir.server_info.name, "ulmcp"),
        _ => panic!("expected an initialize result"),
    }

    // 2. List tools
    let list_req = Client::tools_list_request(1);
    let list_resp = handle_request(&reg, Ok(with_read(list_req))).unwrap();
    let tools = match list_resp.result {
        Some(ResponseResult::Tools(ts)) => ts,
        _ => panic!("expected a tool list"),
    };
    client.discover_from_parsed(Ok(Some(Ok(tools)))).unwrap();
    assert_eq!(client.tools().len(), 1);
    assert_eq!(client.tools()[0].name, "add");

    // 3. Call tool
    let call_req = Client::call_request(2, "add", obj(vec![("a", ToolValue::Integer(3)), ("b", ToolValue::Integer(4))]));
    let call_resp = handle_request(&reg, Ok(with_read(call_req))).unwrap();
    let decoded = match call_resp.result {
        Some(ResponseResult::ToolCall(t)) => Some(Ok(t)),
        _ => None,
    };
    let result = Client::call_outcome(Ok((call_resp.error, decoded))).unwrap();
    assert!(!result.is_error);
    // Result should contain "7"
    match &result.content[0] {
        ContentBlock::Text { text } => assert!(text.contains("7")),
    }
}

#[test]
fn call_unknown_tool() {
    let reg = test_registry();
    let call_req = Client::call_request(1, "nonexistent", obj(vec![]));
    let call_resp = handle_request(&reg, Ok(with_read(call_req))).unwrap();
    let decoded = match call_resp.result {
        Some(ResponseResult::ToolCall(t)) => Some(Ok(t)),
        _ => None,
    };
    let result = Client::call_outcome(Ok((call_resp.error, decoded))).unwrap();
    assert!(result.is_error);
}

#[test]
fn local_dispatch() {
    let mut reg: Registry<ToolHandler, ResourceHandler> = Registry::new();
    reg.register_tool(
        ToolDef::new("greet", "Greet").param("name", "Name", ParamType::String, true),
        Box::new(|call| ToolResult {
            call_id: call.call_id.clone(),
            status: ToolStatus::Success,
            output: ToolValue::String(format!(
                "hello {}",
                call.arguments.get("name").and_then(|v| v.as_str()).unwrap_or("world")
            )),
            error: None,
            tokens_used: None,
            latency_ms: None,
        }),
    );

    let result = NativeTransport::call_local(&reg, "tools/list", obj(vec![]), read(&obj(vec![])));
    assert!(result.is_ok());
    let tools = result.unwrap();
    match tools {
        ResponseResult::Tools(ts) => assert!(ts.iter().any(|t| t.name.contains("greet"))),
        _ => panic!("expected a tool list"),
    }
}

#[test]
fn call_outcome_errors() {
    let e = Client::call_outcome(Err("eof".into())).unwrap_err();
    assert_eq!(e, "parse error: eof");
    let e = Client::call_outcome(Ok((Some(JsonRpcError { code: -32601, message: "nope".into() }), None))).unwrap_err();
    assert_eq!(e, "server error -32601: nope");
    let e = Client::call_outcome(Ok((None, Some(Err("bad".into()))))).unwrap_err();
    assert_eq!(e, "parse result: bad");
    let e = Client::call_outcome(Ok((None, None))).unwrap_err();
    assert_eq!(e, "no result in response");
}

#[test]
fn discovery_outcomes() {
    let mut client = Client::new();
    assert_eq!(client.discover_from_parsed(Err("x".into())).unwrap_err(), "parse error: x");
    assert_eq!(client.discover_from_parsed(Ok(Some(Err("y".into())))).unwrap_err(), "parse tools: y");
    assert!(client.discover_from_parsed(Ok(None)).is_ok());
    assert!(client.tools().is_empty());
}

#[test]
fn request_shapes() {
    let r = Client::tools_list_request(5);
    assert_eq!(r.id, Some(JsonRpcId::Number(5)));
    assert_eq!(r.method, "tools/list");
    assert_eq!(r.jsonrpc, "2.0");
    let r = Client::initialize_request("me");
    assert_eq!(r.id, Some(JsonRpcId::Number(0)));
    match &r.params {
        ToolValue::Object(m) => {
            assert_eq!(m.get("protocolVersion").unwrap().as_str(), Some("2024-11-05"));
            match m.get("clientInfo").unwrap() {
                ToolValue::Object(info) => {
                    assert_eq!(info.get("name").unwrap().as_str(), Some("me"));
                    assert_eq!(info.get("version").unwrap().as_str(), Some("0.1.0"));
                },
                _ => panic!("expected an object"),
            }
        },
        _ => panic!("expected an object"),
    }
}

#[test]
fn call_local_reports_errors() {
    let reg = test_registry();
    let e = NativeTransport::call_local(&reg, "nope", obj(vec![]), read(&obj(vec![]))).unwrap_err();
    assert_eq!(e, "-32601: method not found: nope");
}
