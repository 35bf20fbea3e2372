//! MCP JSON-RPC message types.
//!
//! JSON-valued fields are held as `ToolValue`s; turning these types into
//! JSON text and back is left to the transport.

use vstd::prelude::*;

use crate::tool::ToolValue;

verus! {

/// The JSON-RPC version every message carries.
pub const JSONRPC_VERSION: &'static str = "2.0";

/// The MCP protocol revision this implementation speaks.
pub const MCP_PROTOCOL_VERSION: &'static str = "2024-11-05";

/// JSON-RPC error: the message is not valid JSON.
pub const PARSE_ERROR: i64 = -32700;

/// JSON-RPC error: the message is not a valid request.
pub const INVALID_REQUEST: i64 = -32600;

/// JSON-RPC error: the method does not exist.
pub const METHOD_NOT_FOUND: i64 = -32601;

/// JSON-RPC error: invalid method parameters.
pub const INVALID_PARAMS: i64 = -32602;

/// JSON-RPC error: internal error.
pub const INTERNAL_ERROR: i64 = -32603;

/// A request identifier.
#[derive(Debug, Clone, PartialEq)]
pub enum JsonRpcId {
    Number(i64),
    String(String),
}

/// A JSON-RPC request or notification (a notification has no id).
#[derive(Debug, Clone)]
pub struct JsonRpcRequest {
    pub jsonrpc: String,
    pub id: Option<JsonRpcId>,
    pub method: String,
    pub params: ToolValue,
}

/// A JSON-RPC error object.
#[derive(Debug, Clone)]
pub struct JsonRpcError {
    pub code: i64,
    pub message: String,
}

/// The result of a request, by kind.
#[derive(Debug, Clone)]
pub enum ResponseResult {
    /// `initialize`: the server's protocol version, capabilities and identity.
    Initialize(InitializeResult),
    /// `tools/list`: `{"tools": [...]}`.
    Tools(Vec<McpToolDef>),
    /// `tools/call`: the tool's result.
    ToolCall(ToolCallResult),
    /// `resources/list`: `{"resources": [...]}`.
    Resources(Vec<McpResourceDef>),
    /// `resources/read`: the resource's contents.
    ResourceRead(ResourceReadResult),
    /// `prompts/list`: `{"prompts": [...]}`.
    Prompts(Vec<McpPromptDef>),
    /// An empty object, `{}`.
    Empty,
}

/// A JSON-RPC response: a result or an error.
#[derive(Debug, Clone)]
pub struct JsonRpcResponse {
    pub jsonrpc: String,
    pub id: Option<JsonRpcId>,
    pub result: Option<ResponseResult>,
    pub error: Option<JsonRpcError>,
}

impl JsonRpcResponse {
    /// A successful response carrying `result`.
    pub fn success(id: Option<JsonRpcId>, result: ResponseResult) -> (r: Self)
        ensures
            r.jsonrpc@ == JSONRPC_VERSION@,
            r.id == id,
            r.result == Some(result),
            r.error is None,
    {
        JsonRpcResponse {
            jsonrpc: JSONRPC_VERSION.to_owned(),
            id,
            result: Some(result),
            error: None,
        }
    }

    /// An error response.
    pub fn error(id: Option<JsonRpcId>, code: i64, message: String) -> (r: Self)
        ensures
            r.jsonrpc@ == JSONRPC_VERSION@,
            r.id == id,
            r.result is None,
            r.error is Some,
            r.error.unwrap().code == code,
            r.error.unwrap().message == message,
    {
        JsonRpcResponse {
            jsonrpc: JSONRPC_VERSION.to_owned(),
            id,
            result: None,
            error: Some(JsonRpcError { code, message }),
        }
    }
}

/// The result of `initialize`.
#[derive(Debug, Clone)]
pub struct InitializeResult {
    pub protocol_version: String,
    pub capabilities: ServerCapabilities,
    pub server_info: ServerInfo,
}

/// What the server offers, per feature.
#[derive(Debug, Clone)]
pub struct ServerCapabilities {
    pub tools: Option<ToolValue>,
    pub resources: Option<ToolValue>,
    pub prompts: Option<ToolValue>,
}

/// The server's name and version.
#[derive(Debug, Clone)]
pub struct ServerInfo {
    pub name: String,
    pub version: String,
}

/// The parameters of `initialize`.
#[derive(Debug, Clone)]
pub struct InitializeParams {
    pub protocol_version: String,
    pub capabilities: ClientCapabilities,
    pub client_info: ClientInfo,
}

/// What the client offers (nothing, for this client).
#[derive(Debug, Clone, Default)]
pub struct ClientCapabilities {}

/// The client's name and version.
#[derive(Debug, Clone)]
pub struct ClientInfo {
    pub name: String,
    pub version: String,
}

/// A tool as MCP describes it, with its parameters as a JSON schema.
#[derive(Debug, Clone)]
pub struct McpToolDef {
    pub name: String,
    pub description: String,
    pub input_schema: ToolValue,
}

/// A resource as MCP describes it.
#[derive(Debug, Clone)]
pub struct McpResourceDef {
    pub uri: String,
    pub name: String,
    pub description: String,
    pub mime_type: String,
}

/// A prompt as MCP describes it.
#[derive(Debug, Clone)]
pub struct McpPromptDef {
    pub name: String,
    pub description: String,
    pub arguments: Vec<McpPromptArg>,
}

/// A prompt argument as MCP describes it.
#[derive(Debug, Clone)]
pub struct McpPromptArg {
    pub name: String,
    pub description: String,
    pub required: bool,
}

/// The parameters of `tools/call`.
#[derive(Debug, Clone)]
pub struct ToolCallParams {
    pub name: String,
    pub arguments: ToolValue,
}

/// The result of `tools/call`.
#[derive(Debug, Clone)]
pub struct ToolCallResult {
    pub content: Vec<ContentBlock>,
    pub is_error: bool,
}

/// A piece of content in a tool result.
#[derive(Debug, Clone)]
pub enum ContentBlock {
    Text { text: String },
}

/// The parameters of `resources/read`.
#[derive(Debug, Clone)]
pub struct ResourceReadParams {
    pub uri: String,
}

/// A request's parameters as read by the two methods that take any: as
/// `tools/call` parameters and as `resources/read` parameters, each with the
/// reason it could not be read. Reading JSON into these types is the
/// transport's part.
#[derive(Debug)]
pub struct RequestParams {
    pub tool_call: Result<ToolCallParams, String>,
    pub resource_read: Result<ResourceReadParams, String>,
}

/// The result of `resources/read`.
#[derive(Debug, Clone)]
pub struct ResourceReadResult {
    pub contents: Vec<ResourceContent>,
}

/// One resource's contents, as text or as a base64 blob.
#[derive(Debug, Clone)]
pub struct ResourceContent {
    pub uri: String,
    pub mime_type: String,
    pub text: Option<String>,
    pub blob: Option<String>,
}

} // verus!
