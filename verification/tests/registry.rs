use ulmcp::{
    ParamType, Registry, ResourceContent, ResourceData, ResourceDef, StrMap, ToolCall, ToolDef,
    ToolResult, ToolStatus, ToolValue,
};

type ToolHandler = Box<dyn Fn(&ToolCall) -> ToolResult + Send + Sync>;
type ResourceHandler = Box<dyn Fn(&str) -> Option<ResourceContent> + Send + Sync>;

fn make_registry() -> Registry<ToolHandler, ResourceHandler> {
    let mut reg: Registry<ToolHandler, ResourceHandler> = Registry::new();

    let search_tool = ToolDef::new("search", "Search code")
        .param("query", "Search query", ParamType::String, true)
        .tag("search");

    reg.register_tool(
        search_tool,
        Box::new(|call| {
            let query = call
                .arguments
                .get("query")
                .and_then(|v| v.as_str())
                .unwrap_or("unknown");
            ToolResult {
                call_id: call.call_id.clone(),
                status: ToolStatus::Success,
                output: ToolValue::String(format!("found results for: {}", query)),
                error: None,
                tokens_used: Some(50),
                latency_ms: None,
            }
        }),
    );

    let file_resource = ResourceDef::new("file:///auth.py", "auth.py")
        .description("Auth module")
        .mime_type("text/x-python");

    reg.register_resource(
        file_resource,
        Box::new(|uri| {
            Some(ResourceContent {
                uri: uri.to_string(),
                mime_type: "text/x-python".into(),
                data: ResourceData::Text("def validate(): pass".into()),
            })
        }),
    );

    reg
}

#[test]
fn register_and_list() {
    let reg = make_registry();
    assert_eq!(reg.tool_count(), 1);
    assert_eq!(reg.resource_count(), 1);
    assert_eq!(reg.list_tools().len(), 1);
    assert_eq!(reg.list_resources().len(), 1);
}

#[test]
fn invoke_tool() {
    let reg = make_registry();
    let call = ToolCall {
        call_id: "c1".into(),
        tool_name: "search".into(),
        arguments: {
            let mut m = StrMap::new();
            m.insert("query".into(), ToolValue::String("validate".into()));
            m
        },
    };
    let result = reg.invoke(&call);
    assert_eq!(result.status, ToolStatus::Success);
    assert!(result.output.as_str().unwrap().contains("validate"));
    assert!(result.latency_ms.is_some());
}

#[test]
fn invoke_unknown_tool() {
    let reg = make_registry();
    let call = ToolCall {
        call_id: "c1".into(),
        tool_name: "nonexistent".into(),
        arguments: StrMap::new(),
    };
    let result = reg.invoke(&call);
    assert_eq!(result.status, ToolStatus::Error);
    assert!(result.error.unwrap().contains("not found"));
}

#[test]
fn invoke_invalid_call() {
    let reg = make_registry();
    let call = ToolCall {
        call_id: "c1".into(),
        tool_name: "search".into(),
        arguments: StrMap::new(), // missing required "query"
    };
    let result = reg.invoke(&call);
    assert_eq!(result.status, ToolStatus::Error);
    assert!(result.error.unwrap().contains("missing required"));
}

#[test]
fn read_resource() {
    let reg = make_registry();
    let content = reg.read_resource("file:///auth.py").unwrap();
    assert_eq!(content.mime_type, "text/x-python");
    assert!(content.data.as_text().unwrap().contains("validate"));
}

#[test]
fn read_missing_resource() {
    let reg = make_registry();
    assert!(reg.read_resource("file:///nonexistent").is_none());
}

#[test]
fn find_by_tag() {
    let reg = make_registry();
    let search_tools = reg.find_tools_by_tag("search");
    assert_eq!(search_tools.len(), 1);
    assert_eq!(search_tools[0].name, "search");
}

fn search_call() -> ToolCall {
    ToolCall {
        call_id: "c1".into(),
        tool_name: "search".into(),
        arguments: {
            let mut m = StrMap::new();
            m.insert("query".into(), ToolValue::String("test".into()));
            m
        },
    }
}

#[test]
fn invoke_checked_denied() {
    let reg = make_registry();
    let call = search_call();
    // Only allow "other_tool", not "search"
    let result = reg.invoke_checked(&call, Some(&["other_tool"]));
    assert_eq!(result.status, ToolStatus::Error);
    assert!(result.error.unwrap().contains("capability denied"));
}

#[test]
fn invoke_checked_allowed() {
    let reg = make_registry();
    let call = search_call();
    let result = reg.invoke_checked(&call, Some(&["search", "other"]));
    assert_eq!(result.status, ToolStatus::Success);
}

#[test]
fn invoke_checked_wildcard() {
    let reg = make_registry();
    let call = search_call();
    let result = reg.invoke_checked(&call, Some(&["*"]));
    assert_eq!(result.status, ToolStatus::Success);
}

#[test]
fn invoke_checked_no_restriction() {
    let reg = make_registry();
    let call = search_call();
    // None = no restrictions
    let result = reg.invoke_checked(&call, None);
    assert_eq!(result.status, ToolStatus::Success);
}

#[test]
fn invoke_checked_denied_result_shape() {
    let reg = make_registry();
    let call = search_call();
    let result = reg.invoke_checked(&call, Some(&[]));
    assert_eq!(result.call_id, "c1");
    assert_eq!(result.error.as_deref(), Some("capability denied: \"search\""));
    assert_eq!(result.output, ToolValue::Null);
    assert!(result.latency_ms.is_none());
    // An unknown tool that the list allows is still not found.
    let mut other = search_call();
    other.tool_name = "nope".into();
    let result = reg.invoke_checked(&other, Some(&["*"]));
    assert_eq!(result.error.as_deref(), Some("tool not found: \"nope\""));
}

#[test]
fn latency_is_the_given_milliseconds() {
    let raw = ToolResult {
        call_id: "c1".into(),
        status: ToolStatus::Success,
        output: ToolValue::Integer(1),
        error: None,
        tokens_used: Some(3),
        latency_ms: None,
    };
    let r = ulmcp::registry::set_latency(raw, 42);
    assert_eq!(r.latency_ms, Some(42));
    assert_eq!(r.tokens_used, Some(3));
    assert_eq!(r.output, ToolValue::Integer(1));
}

fn echo(status: ToolStatus) -> ToolHandler {
    Box::new(move |call| ToolResult {
        call_id: call.call_id.clone(),
        status,
        output: ToolValue::String(call.tool_name.clone()),
        error: None,
        tokens_used: None,
        latency_ms: None,
    })
}

#[test]
fn register_same_name_replaces_in_place() {
    let mut reg: Registry<ToolHandler, ResourceHandler> = Registry::new();
    reg.register_tool(ToolDef::new("a", "first"), echo(ToolStatus::Success));
    reg.register_tool(ToolDef::new("b", "second"), echo(ToolStatus::Success));
    reg.register_tool(ToolDef::new("a", "replaced"), echo(ToolStatus::Timeout));
    assert_eq!(reg.tool_count(), 2);
    assert_eq!(reg.get_tool("a").unwrap().description, "replaced");
    let names: Vec<&str> = reg.list_tools().iter().map(|t| t.name.as_str()).collect();
    assert_eq!(names, vec!["a", "b"]);
    let call = ToolCall { call_id: "x".into(), tool_name: "a".into(), arguments: StrMap::new() };
    assert_eq!(reg.invoke(&call).status, ToolStatus::Timeout);
}

#[test]
fn unknown_tool_error_result_shape() {
    let reg: Registry<ToolHandler, ResourceHandler> = Registry::new();
    let call = ToolCall { call_id: "id7".into(), tool_name: "nope".into(), arguments: StrMap::new() };
    let r = reg.invoke(&call);
    assert_eq!(r.call_id, "id7");
    assert_eq!(r.output, ToolValue::Null);
    assert_eq!(r.error.as_deref(), Some("tool not found: \"nope\""));
    assert_eq!(r.tokens_used, None);
    assert_eq!(r.latency_ms, None);
    assert!(reg.get_tool("nope").is_none());
    assert!(reg.get_resource("nope").is_none());
}

#[test]
fn tag_search_is_exact_and_ordered() {
    let mut reg: Registry<ToolHandler, ResourceHandler> = Registry::new();
    reg.register_tool(ToolDef::new("a", "").tag("io"), echo(ToolStatus::Success));
    reg.register_tool(ToolDef::new("b", "").tag("search"), echo(ToolStatus::Success));
    reg.register_tool(ToolDef::new("c", "").tag("x").tag("io"), echo(ToolStatus::Success));
    let io: Vec<&str> = reg.find_tools_by_tag("io").iter().map(|t| t.name.as_str()).collect();
    assert_eq!(io, vec!["a", "c"]);
    assert!(reg.find_tools_by_tag("i").is_empty());
}

#[test]
fn register_resource_replaces_same_uri() {
    let mut reg = make_registry();
    reg.register_resource(
        ResourceDef::new("file:///auth.py", "renamed"),
        Box::new(|_| None),
    );
    assert_eq!(reg.resource_count(), 1);
    assert_eq!(reg.get_resource("file:///auth.py").unwrap().name, "renamed");
    assert!(reg.read_resource("file:///auth.py").is_none());
}
