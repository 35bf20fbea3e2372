use ulmcp::mcp::adapter::{
    base64_encode, mcp_to_tool_call, param_type_to_json_type, prompt_to_mcp, resource_content_to_mcp,
    resource_to_mcp, result_to_mcp, tool_to_mcp,
};
use ulmcp::mcp::types::{ContentBlock, ToolCallParams};
use ulmcp::{
    ParamType, PromptDef, ResourceContent, ResourceData, ResourceDef, StrMap, ToolDef, ToolResult,
    ToolStatus, ToolValue,
};

fn text_of(block: &ContentBlock) -> &str {
    match block {
        ContentBlock::Text { text } => text.as_str(),
    }
}

fn result_with(status: ToolStatus, output: ToolValue, error: Option<&str>) -> ToolResult {
    ToolResult {
        call_id: "c1".into(),
        status,
        output,
        error: error.map(|e| e.to_string()),
        tokens_used: None,
        latency_ms: None,
    }
}

#[test]
fn tool_to_mcp_schema() {
    let tool = ToolDef::new("search", "Search code")
        .param("query", "Query", ParamType::String, true)
        .param("limit", "Limit", ParamType::Integer, false);
    let mcp = tool_to_mcp(&tool);
    assert_eq!(mcp.name, "search");
    let schema = match &mcp.input_schema {
        ToolValue::Object(m) => m,
        _ => panic!("expected an object"),
    };
    let props = match schema.get("properties").unwrap() {
        ToolValue::Object(p) => p,
        _ => panic!("expected an object"),
    };
    assert!(props.contains_key("query"));
    assert!(props.contains_key("limit"));
    let req = match schema.get("required").unwrap() {
        ToolValue::Array(a) => a,
        _ => panic!("expected an array"),
    };
    assert_eq!(req.len(), 1);
    assert_eq!(req[0].as_str(), Some("query"));
}

#[test]
fn mcp_to_tool_call_conversion() {
    let mut args = StrMap::new();
    args.insert("query".to_string(), ToolValue::String("auth".into()));
    args.insert("limit".to_string(), ToolValue::Integer(5));
    let params = ToolCallParams { name: "search".into(), arguments: ToolValue::Object(args) };
    let call = mcp_to_tool_call("c1", &params);
    assert_eq!(call.tool_name, "search");
    assert_eq!(call.arguments.get("query").unwrap().as_str(), Some("auth"));
    assert_eq!(call.arguments.get("limit").unwrap().as_i64(), Some(5));
}

#[test]
fn result_to_mcp_success() {
    let r = ToolResult {
        call_id: "c1".into(),
        status: ToolStatus::Success,
        output: ToolValue::String("found it".into()),
        error: None,
        tokens_used: None,
        latency_ms: None,
    };
    let mcp = result_to_mcp(&r);
    assert!(!mcp.is_error);
    match &mcp.content[0] {
        ContentBlock::Text { text } => assert_eq!(text, "found it"),
    }
}

#[test]
fn result_to_mcp_error() {
    let r = ToolResult {
        call_id: "c1".into(),
        status: ToolStatus::Error,
        output: ToolValue::Null,
        error: Some("not found".into()),
        tokens_used: None,
        latency_ms: None,
    };
    let mcp = result_to_mcp(&r);
    assert!(mcp.is_error);
    match &mcp.content[0] {
        ContentBlock::Text { text } => assert_eq!(text, "not found"),
    }
}

#[test]
fn resource_content_text() {
    let content = ResourceContent {
        uri: "file:///a.py".into(),
        mime_type: "text/python".into(),
        data: ResourceData::Text("def foo(): pass".into()),
    };
    let mcp = resource_content_to_mcp(&content);
    assert_eq!(mcp.contents[0].text.as_deref(), Some("def foo(): pass"));
    assert!(mcp.contents[0].blob.is_none());
}

#[test]
fn base64_known_values() {
    assert_eq!(base64_encode(b""), "");
    assert_eq!(base64_encode(b"f"), "Zg==");
    assert_eq!(base64_encode(b"fo"), "Zm8=");
    assert_eq!(base64_encode(b"foo"), "Zm9v");
    assert_eq!(base64_encode(b"hello"), "aGVsbG8=");
}

#[test]
fn base64_full_alphabet_and_length() {
    assert_eq!(base64_encode(&[0xfb, 0xff, 0xbf]), "+/+/");
    assert_eq!(base64_encode(&[0, 0, 0]), "AAAA");
    assert_eq!(base64_encode(b"foobar"), "Zm9vYmFy");
    for n in 0..20usize {
        let data = vec![7u8; n];
        assert_eq!(base64_encode(&data).len(), (n + 2) / 3 * 4);
    }
}

#[test]
fn resource_content_binary_becomes_blob() {
    let content = ResourceContent {
        uri: "file:///a.bin".into(),
        mime_type: "application/octet-stream".into(),
        data: ResourceData::Binary(b"hello".to_vec()),
    };
    let mcp = resource_content_to_mcp(&content);
    assert_eq!(mcp.contents.len(), 1);
    assert!(mcp.contents[0].text.is_none());
    assert_eq!(mcp.contents[0].blob.as_deref(), Some("aGVsbG8="));
    assert_eq!(mcp.contents[0].uri, "file:///a.bin");
}

#[test]
fn result_text_by_output_kind() {
    let cases = vec![
        (ToolValue::Null, None, "null"),
        (ToolValue::Integer(-42), None, "-42"),
        (ToolValue::Boolean(true), None, "true"),
        (ToolValue::Float("0.5".into()), None, "0.5"),
        (ToolValue::Bytes(vec![1, 2]), None, "Bytes([1, 2])"),
        (ToolValue::Array(vec![ToolValue::String("a\"b".into())]), None, "Array([String(\"a\\\"b\")])"),
        (ToolValue::Null, Some("boom"), "boom"),
    ];
    for (output, error, expected) in cases {
        let mcp = result_to_mcp(&result_with(ToolStatus::Timeout, output, error));
        assert!(mcp.is_error);
        assert_eq!(mcp.content.len(), 1);
        assert_eq!(text_of(&mcp.content[0]), expected);
    }
}

#[test]
fn schema_properties_and_types() {
    let tool = ToolDef::new("t", "d")
        .param("e", "an enum", ParamType::Enum(vec!["x".into()]), true)
        .param("f", "a float", ParamType::Float, true)
        .param("e", "again", ParamType::Boolean, false);
    let mcp = tool_to_mcp(&tool);
    let schema = match &mcp.input_schema {
        ToolValue::Object(m) => m,
        _ => panic!("expected an object"),
    };
    assert_eq!(schema.get("type").unwrap().as_str(), Some("object"));
    let props = match schema.get("properties").unwrap() {
        ToolValue::Object(p) => p,
        _ => panic!("expected an object"),
    };
    assert_eq!(props.len(), 2);
    let e = match props.get("e").unwrap() {
        ToolValue::Object(p) => p,
        _ => panic!("expected an object"),
    };
    assert_eq!(e.get("type").unwrap().as_str(), Some("boolean"));
    assert_eq!(e.get("description").unwrap().as_str(), Some("again"));
    let req = match schema.get("required").unwrap() {
        ToolValue::Array(a) => a,
        _ => panic!("expected an array"),
    };
    assert_eq!(req.len(), 2);
    assert_eq!(param_type_to_json_type(&ParamType::Float), "number");
    assert_eq!(param_type_to_json_type(&ParamType::Enum(vec![])), "string");
}

#[test]
fn resource_and_prompt_descriptions() {
    let r = resource_to_mcp(&ResourceDef::new("u://1", "one").description("d").mime_type("m"));
    assert_eq!((r.uri.as_str(), r.name.as_str(), r.description.as_str(), r.mime_type.as_str()), ("u://1", "one", "d", "m"));
    let p = prompt_to_mcp(&PromptDef::new("p", "{{a}}").description("pd").param("a", "ad", true).param("b", "bd", false));
    assert_eq!(p.name, "p");
    assert_eq!(p.description, "pd");
    assert_eq!(p.arguments.len(), 2);
    assert_eq!(p.arguments[1].name, "b");
    assert!(!p.arguments[1].required);
}

#[test]
fn non_object_arguments_give_no_arguments() {
    let params = ToolCallParams { name: "t".into(), arguments: ToolValue::Integer(3) };
    let call = mcp_to_tool_call("9", &params);
    assert_eq!(call.call_id, "9");
    assert!(call.arguments.is_empty());
}
