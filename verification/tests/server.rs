use ulmcp::mcp::types::{
    ContentBlock, JsonRpcId, JsonRpcRequest, JsonRpcResponse, RequestParams, ResourceReadParams,
    ResponseResult, ToolCallParams,
};
use ulmcp::server::handle_request;
use ulmcp::{
    ParamType, Registry, ResourceContent, ResourceData, ResourceDef, StrMap, ToolCall, ToolDef,
    ToolResult, ToolStatus, ToolValue,
};

type ToolHandler = Box<dyn Fn(&ToolCall) -> ToolResult + Send + Sync>;
type ResourceHandler = Box<dyn Fn(&str) -> Option<ResourceContent> + Send + Sync>;

fn test_registry() -> Registry<ToolHandler, ResourceHandler> {
    let mut reg: Registry<ToolHandler, ResourceHandler> = Registry::new();
    reg.register_tool(
        ToolDef::new("echo", "Echo input").param("text", "Text", ParamType::String, true),
        Box::new(|call| ToolResult {
            call_id: call.call_id.clone(),
            status: ToolStatus::Success,
            output: ToolValue::String(
                call.arguments
                    .get("text")
                    .and_then(|v| v.as_str())
                    .unwrap_or("")
                    .into(),
            ),
            error: None,
            tokens_used: None,
            latency_ms: None,
        }),
    );
    reg.register_resource(
        ResourceDef::new("test://hello", "hello").mime_type("text/plain"),
        Box::new(|_| {
            Some(ResourceContent {
                uri: "test://hello".into(),
                mime_type: "text/plain".into(),
                data: ResourceData::Text("hello world".into()),
            })
        }),
    );
    reg
}

fn obj(entries: Vec<(&str, ToolValue)>) -> ToolValue {
    let mut m = StrMap::new();
    for (k, v) in entries {
        m.insert(k.to_string(), v);
    }
    ToolValue::Object(m)
}

fn request(id: Option<i64>, method: &str, params: ToolValue) -> JsonRpcRequest {
    JsonRpcRequest {
        jsonrpc: "2.0".into(),
        id: id.map(JsonRpcId::Number),
        method: method.into(),
        params,
    }
}

/// What the transport reads from these parameters, in the cases these tests
/// use (serde's messages for them).
fn read(params: &ToolValue) -> RequestParams {
    let m = match params {
        ToolValue::Object(m) => m,
        _ => {
            return RequestParams {
                tool_call: Err("invalid type: null, expected struct ToolCallParams".into()),
                resource_read: Err("invalid type: null, expected struct ResourceReadParams".into()),
            }
        },
    };
    let tool_call = match m.get("name") {
        Some(ToolValue::String(n)) => Ok(ToolCallParams {
            name: n.clone(),
            arguments: m.get("arguments").cloned().unwrap_or(ToolValue::Null),
        }),
        _ => Err("missing field `name`".to_string()),
    };
    let resource_read = match m.get("uri") {
        Some(ToolValue::String(u)) => Ok(ResourceReadParams { uri: u.clone() }),
        _ => Err("missing field `uri`".to_string()),
    };
    RequestParams { tool_call, resource_read }
}

fn with_read(req: JsonRpcRequest) -> (JsonRpcRequest, RequestParams) {
    let r = read(&req.params);
    (req, r)
}

fn tool_call_text(resp: &JsonRpcResponse) -> String {
    match &resp.result {
        Some(ResponseResult::ToolCall(t)) => match &t.content[0] {
            ContentBlock::Text { text } => text.clone(),
        },
        _ => panic!("expected a tool call result"),
    }
}

#[test]
fn initialize() {
    let reg = test_registry();
    // {"jsonrpc":"2.0","id":1,"method":"initialize","params":{"protocolVersion":"2024-11-05","capabilities":{},"clientInfo":{"name":"test","version":"1.0"}}}
    let params = obj(vec![
        ("protocolVersion", ToolValue::String("2024-11-05".into())),
        ("capabilities", obj(vec![])),
        ("clientInfo", obj(vec![("name", ToolValue::String("test".into())), ("version", ToolValue::String("1.0".into()))])),
    ]);
    let resp = handle_request(&reg, Ok(with_read(request(Some(1), "initialize", params)))).unwrap();
    match resp.result {
        Some(ResponseResult::Initialize(ir)) => {
            assert_eq!(ir.server_info.name, "ulmcp");
            assert_eq!(ir.protocol_version, "2024-11-05");
        },
        _ => panic!("expected an initialize result"),
    }
}

#[test]
fn tools_list() {
    let reg = test_registry();
    let resp = handle_request(&reg, Ok(with_read(request(Some(2), "tools/list", obj(vec![]))))).unwrap();
    match resp.result {
        Some(ResponseResult::Tools(ts)) => assert!(ts.iter().any(|t| t.name == "echo")),
        _ => panic!("expected a tool list"),
    }
}

#[test]
fn tools_call() {
    let reg = test_registry();
    let params = obj(vec![
        ("name", ToolValue::String("echo".into())),
        ("arguments", obj(vec![("text", ToolValue::String("hello".into()))])),
    ]);
    let resp = handle_request(&reg, Ok(with_read(request(Some(3), "tools/call", params)))).unwrap();
    assert!(tool_call_text(&resp).contains("hello"));
}

#[test]
fn tools_call_unknown() {
    let reg = test_registry();
    let params = obj(vec![("name", ToolValue::String("nonexistent".into())), ("arguments", obj(vec![]))]);
    let resp = handle_request(&reg, Ok(with_read(request(Some(4), "tools/call", params)))).unwrap();
    assert!(tool_call_text(&resp).contains("not found"));
}

#[test]
fn resources_list() {
    let reg = test_registry();
    let resp = handle_request(&reg, Ok(with_read(request(Some(5), "resources/list", obj(vec![]))))).unwrap();
    match resp.result {
        Some(ResponseResult::Resources(rs)) => assert!(rs.iter().any(|r| r.uri == "test://hello")),
        _ => panic!("expected a resource list"),
    }
}

#[test]
fn resources_read() {
    let reg = test_registry();
    let params = obj(vec![("uri", ToolValue::String("test://hello".into()))]);
    let resp = handle_request(&reg, Ok(with_read(request(Some(6), "resources/read", params)))).unwrap();
    match resp.result {
        Some(ResponseResult::ResourceRead(rr)) => assert_eq!(rr.contents[0].text.as_deref(), Some("hello world")),
        _ => panic!("expected resource contents"),
    }
}

#[test]
fn unknown_method() {
    let reg = test_registry();
    let resp = handle_request(&reg, Ok(with_read(request(Some(7), "unknown/method", obj(vec![]))))).unwrap();
    assert_eq!(resp.error.unwrap().code, -32601);
}

#[test]
fn parse_error() {
    let reg = test_registry();
    // "not json" does not decode
    let resp = handle_request(&reg, Err("expected ident at line 1 column 2".into())).unwrap();
    let e = resp.error.unwrap();
    assert_eq!(e.code, -32700);
    assert_eq!(e.message, "parse error: expected ident at line 1 column 2");
    assert!(resp.id.is_none());
}

#[test]
fn ping() {
    let reg = test_registry();
    let resp = handle_request(&reg, Ok(with_read(request(Some(8), "ping", obj(vec![]))))).unwrap();
    assert!(resp.result.is_some());
    assert!(resp.error.is_none());
}

#[test]
fn notification_no_response() {
    let reg = test_registry();
    let resp = handle_request(&reg, Ok(with_read(request(None, "notifications/initialized", obj(vec![])))));
    assert!(resp.is_none());
}

#[test]
fn responses_carry_request_ids() {
    let reg = test_registry();
    for method in ["initialize", "tools/list", "tools/call", "resources/list", "resources/read", "prompts/list", "prompts/get", "ping", "nope"] {
        let resp = handle_request(&reg, Ok(with_read(request(Some(42), method, obj(vec![]))))).unwrap();
        assert_eq!(resp.id, Some(JsonRpcId::Number(42)));
        assert_eq!(resp.jsonrpc, "2.0");
        assert!(resp.result.is_some() != resp.error.is_some());
    }
}

#[test]
fn notification_with_id_is_answered() {
    let reg = test_registry();
    let resp = handle_request(&reg, Ok(with_read(request(Some(1), "notifications/initialized", obj(vec![]))))).unwrap();
    assert_eq!(resp.error.unwrap().message, "method not found: notifications/initialized");
}

#[test]
fn invalid_params_errors() {
    let reg = test_registry();
    let resp = handle_request(&reg, Ok(with_read(request(Some(1), "tools/call", obj(vec![]))))).unwrap();
    let e = resp.error.unwrap();
    assert_eq!(e.code, -32602);
    assert_eq!(e.message, "invalid params: missing field `name`");
    let resp = handle_request(&reg, Ok(with_read(request(Some(1), "resources/read", ToolValue::Null)))).unwrap();
    assert_eq!(resp.error.unwrap().message, "invalid params: invalid type: null, expected struct ResourceReadParams");
    let params = obj(vec![("uri", ToolValue::String("test://missing".into()))]);
    let resp = handle_request(&reg, Ok(with_read(request(Some(1), "resources/read", params)))).unwrap();
    assert_eq!(resp.error.unwrap().message, "resource not found: test://missing");
    let resp = handle_request(&reg, Ok(with_read(request(Some(1), "prompts/get", obj(vec![]))))).unwrap();
    assert_eq!(resp.error.unwrap().message, "prompt not found");
}

#[test]
fn tools_call_validation_failure_is_an_error_result() {
    let reg = test_registry();
    let params = obj(vec![("name", ToolValue::String("echo".into()))]);
    let resp = handle_request(&reg, Ok(with_read(request(Some(9), "tools/call", params)))).unwrap();
    match &resp.result {
        Some(ResponseResult::ToolCall(t)) => {
            assert!(t.is_error);
            assert_eq!(tool_call_text(&resp), "missing required parameter: \"text\"");
        },
        _ => panic!("expected a tool call result"),
    }
}

#[test]
fn tools_call_uses_request_id_as_call_id() {
    let mut reg: Registry<ToolHandler, ResourceHandler> = Registry::new();
    reg.register_tool(
        ToolDef::new("id", ""),
        Box::new(|call| ToolResult {
            call_id: call.call_id.clone(),
            status: ToolStatus::Success,
            output: ToolValue::String(call.call_id.clone()),
            error: None,
            tokens_used: None,
            latency_ms: None,
        }),
    );
    let params = obj(vec![("name", ToolValue::String("id".into()))]);
    let resp = handle_request(&reg, Ok(with_read(request(Some(-17), "tools/call", params)))).unwrap();
    assert_eq!(tool_call_text(&resp), "-17");
    let params = obj(vec![("name", ToolValue::String("id".into()))]);
    let mut req = request(None, "tools/call", params);
    req.id = Some(JsonRpcId::String("abc".into()));
    let resp = handle_request(&reg, Ok(with_read(req))).unwrap();
    assert_eq!(tool_call_text(&resp), "abc");
}
