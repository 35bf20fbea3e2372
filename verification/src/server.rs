//! ulmcp server: dispatches requests to the registry.
//!
//! The server is transport-agnostic: it answers decoded JSON-RPC requests
//! with responses; turning text into requests and responses into text is
//! the transport's part.

use vstd::prelude::*;

use crate::map::StrMap;
use crate::mcp::adapter::{
    arguments_of, describes_content, describes_result, input_schema, mcp_to_tool_call,
    resource_content_to_mcp, resource_to_mcp, result_to_mcp, tool_to_mcp,
};
use crate::mcp::types::{
    InitializeResult, JsonRpcId, JsonRpcRequest, JsonRpcResponse, McpResourceDef, McpToolDef,
    RequestParams, ResourceReadParams, ResponseResult, ServerCapabilities, ServerInfo,
    ToolCallParams, INVALID_PARAMS,
    JSONRPC_VERSION, MCP_PROTOCOL_VERSION, METHOD_NOT_FOUND, PARSE_ERROR,
};
use crate::registry::Registry;
use crate::resource::ResourceContent;
use crate::text::{i64_decimal, int_decimal, push_str, str_eq};
use crate::tool::{entries_view, lemma_entries_view, value_view, ToolCall, ToolResult, ToolValue, ValueView};

verus! {

/// The name the server reports.
pub const SERVER_NAME: &'static str = "ulmcp";

/// The version the server reports.
pub const SERVER_VERSION: &'static str = "0.1.0";

/// The method name of the notification that needs no response.
pub const INITIALIZED_NOTIFICATION: &'static str = "notifications/initialized";

/// `{"listChanged": true}`.
pub open spec fn list_changed_capability() -> ValueView {
    ValueView::Object(seq![("listChanged"@, ValueView::Boolean(true))])
}

/// `{"subscribe": true, "listChanged": true}`.
pub open spec fn resource_capability() -> ValueView {
    ValueView::Object(
        seq![("subscribe"@, ValueView::Boolean(true)), ("listChanged"@, ValueView::Boolean(true))],
    )
}

/// The answer to `initialize`: this protocol version, tools, resources and
/// prompts offered with change notifications (and resource subscriptions),
/// and the server's name and version.
pub open spec fn is_initialize_result(r: InitializeResult) -> bool {
    &&& r.protocol_version@ == MCP_PROTOCOL_VERSION@
    &&& r.capabilities.tools matches Some(t) && t@ == list_changed_capability()
    &&& r.capabilities.resources matches Some(t) && t@ == resource_capability()
    &&& r.capabilities.prompts matches Some(t) && t@ == list_changed_capability()
    &&& r.server_info.name@ == SERVER_NAME@
    &&& r.server_info.version@ == SERVER_VERSION@
}

/// An error response to the request `id` with this code and message.
pub open spec fn is_error_response(r: JsonRpcResponse, id: Option<JsonRpcId>, code: i64, msg: Seq<char>) -> bool {
    &&& r.jsonrpc@ == JSONRPC_VERSION@
    &&& r.id == id
    &&& r.result is None
    &&& r.error matches Some(e) && e.code == code && e.message@ == msg
}

/// A successful response to the request `id`.
pub open spec fn is_success_response(r: JsonRpcResponse, id: Option<JsonRpcId>) -> bool {
    &&& r.jsonrpc@ == JSONRPC_VERSION@
    &&& r.id == id
    &&& r.error is None
    &&& r.result is Some
}

/// The call id a `tools/call` gets: the request id in decimal or as is, or
/// `0` without one.
pub open spec fn call_id_text(id: Option<JsonRpcId>) -> Seq<char> {
    match id {
        Some(JsonRpcId::Number(n)) => int_decimal(n as int),
        Some(JsonRpcId::String(s)) => s@,
        None => "0"@,
    }
}

/// `ts` describes the registered tools, in registration order.
pub open spec fn lists_tools<T, R>(reg: Registry<T, R>, ts: Seq<McpToolDef>) -> bool {
    &&& ts.len() == reg.tool_entries().len()
    &&& forall|i: int|
        0 <= i < ts.len() ==> (#[trigger] ts[i]).name == reg.tool_entries()[i].0.name
            && ts[i].description == reg.tool_entries()[i].0.description && ts[i].input_schema@
            == input_schema(reg.tool_entries()[i].0.params@)
}

/// `rs` describes the registered resources, in registration order.
pub open spec fn lists_resources<T, R>(reg: Registry<T, R>, rs: Seq<McpResourceDef>) -> bool {
    &&& rs.len() == reg.resource_entries().len()
    &&& forall|i: int|
        0 <= i < rs.len() ==> {
            let d = reg.resource_entries()[i].0;
            &&& (#[trigger] rs[i]).uri == d.uri
            &&& rs[i].name == d.name
            &&& rs[i].description == d.description
            &&& rs[i].mime_type == d.mime_type
        }
}

impl<T: Fn(&ToolCall) -> ToolResult, R: Fn(&str) -> Option<ResourceContent>> Registry<T, R> {
    /// How a `tools/call` request is answered: unreadable parameters give an
    /// invalid-params error with the reason; otherwise the named tool is
    /// invoked with the arguments and the request's call id, and its result is
    /// described.
    pub open spec fn answers_tool_call(
        &self,
        id: Option<JsonRpcId>,
        params: Result<ToolCallParams, String>,
        r: JsonRpcResponse,
    ) -> bool {
        match params {
            Err(e) => is_error_response(r, id, INVALID_PARAMS, "invalid params: "@ + e@),
            Ok(p) => {
                &&& is_success_response(r, id)
                &&& r.result.unwrap() matches ResponseResult::ToolCall(t)
                &&& exists|c: ToolCall, res: ToolResult|
                    {
                        &&& c.call_id@ == call_id_text(id)
                        &&& c.tool_name@ == p.name@
                        &&& entries_view(c.arguments@) == arguments_of(p.arguments@)
                        &&& #[trigger] self.invoke_outcome(c, res)
                        &&& describes_result(t, res)
                    }
            },
        }
    }

    /// How a `resources/read` request is answered: unreadable parameters give
    /// an invalid-params error with the reason; otherwise the resource is
    /// read, and its content described, or a not-found error given.
    pub open spec fn answers_resource_read(
        &self,
        id: Option<JsonRpcId>,
        params: Result<ResourceReadParams, String>,
        r: JsonRpcResponse,
    ) -> bool {
        match params {
            Err(e) => is_error_response(r, id, INVALID_PARAMS, "invalid params: "@ + e@),
            Ok(p) => exists|uri: &str, content: Option<ResourceContent>|
                {
                    &&& uri@ == p.uri@
                    &&& #[trigger] self.read_outcome(uri, content)
                    &&& match content {
                        Some(c) => is_success_response(r, id) && (r.result.unwrap() matches ResponseResult::ResourceRead(
                            rr,
                        ) && describes_content(rr, c)),
                        None => is_error_response(
                            r,
                            id,
                            INVALID_PARAMS,
                            "resource not found: "@ + p.uri@,
                        ),
                    }
                },
        }
    }

    /// How a request is answered, by method; `params` are its parameters as
    /// read for the methods that take any.
    pub open spec fn answers(&self, req: JsonRpcRequest, params: RequestParams, r: JsonRpcResponse) -> bool {
        let m = req.method@;
        let id = req.id;
        if m == "initialize"@ {
            is_success_response(r, id) && (r.result.unwrap() matches ResponseResult::Initialize(ir)
                && is_initialize_result(ir))
        } else if m == "tools/list"@ {
            is_success_response(r, id) && (r.result.unwrap() matches ResponseResult::Tools(ts)
                && lists_tools(*self, ts@))
        } else if m == "tools/call"@ {
            self.answers_tool_call(id, params.tool_call, r)
        } else if m == "resources/list"@ {
            is_success_response(r, id) && (r.result.unwrap() matches ResponseResult::Resources(rs)
                && lists_resources(*self, rs@))
        } else if m == "resources/read"@ {
            self.answers_resource_read(id, params.resource_read, r)
        } else if m == "prompts/list"@ {
            is_success_response(r, id) && (r.result.unwrap() matches ResponseResult::Prompts(ps)
                && ps@.len() == 0)
        } else if m == "prompts/get"@ {
            is_error_response(r, id, INVALID_PARAMS, "prompt not found"@)
        } else if m == "ping"@ {
            is_success_response(r, id) && r.result.unwrap() matches ResponseResult::Empty
        } else {
            is_error_response(r, id, METHOD_NOT_FOUND, "method not found: "@ + m)
        }
    }
}

/// The request is the `notifications/initialized` notification (no id),
/// which gets no response.
pub open spec fn is_silent_notification(req: JsonRpcRequest) -> bool {
    req.id is None && req.method@ == INITIALIZED_NOTIFICATION@
}

/// A copy of a request id.
pub fn copy_id(id: &Option<JsonRpcId>) -> (r: Option<JsonRpcId>)
    ensures
        r == *id,
{
    match id {
        Some(JsonRpcId::Number(n)) => Some(JsonRpcId::Number(*n)),
        Some(JsonRpcId::String(s)) => Some(JsonRpcId::String(s.clone())),
        None => None,
    }
}

fn flag_object(keys: Vec<&str>) -> (v: ToolValue)
    ensures
        v@ == ValueView::Object(
            keys@.map_values(|k: &str| (k@, ValueView::Boolean(true))),
        ),
{
    let mut m: StrMap<ToolValue> = StrMap::new();
    let mut es: Vec<(String, ToolValue)> = Vec::new();
    let mut i: usize = 0;
    while i < keys.len()
        invariant
            0 <= i <= keys.len(),
            entries_view(es@) == keys@.take(i as int).map_values(
                |k: &str| (k@, ValueView::Boolean(true)),
            ),
        decreases keys.len() - i,
    {
        let ghost before = es@;
        let k = keys[i].to_owned();
        let v = ToolValue::Boolean(true);
        assert(value_view(v) == ValueView::Boolean(true));
        es.push((k, v));
        assert(es@.drop_last() =~= before);
        assert(entries_view(es@) == entries_view(before).push((k@, value_view(v))));
        assert(keys@.take(i + 1).drop_last() =~= keys@.take(i as int));
        assert(entries_view(es@) =~= keys@.take(i + 1).map_values(
            |k: &str| (k@, ValueView::Boolean(true)),
        ));
        i += 1;
    }
    assert(keys@.take(keys.len() as int) =~= keys@);
    ToolValue::Object(StrMap::from_entries(es))
}

fn handle_initialize(req: &JsonRpcRequest) -> (r: JsonRpcResponse)
    ensures
        is_success_response(r, req.id),
        r.result.unwrap() matches ResponseResult::Initialize(ir) && is_initialize_result(ir),
{
    let k1 = vec!["listChanged"];
    assert(k1@ =~= seq!["listChanged"]);
    let k2 = vec!["subscribe", "listChanged"];
    assert(k2@ =~= seq!["subscribe", "listChanged"]);
    let k3 = vec!["listChanged"];
    assert(k3@ =~= seq!["listChanged"]);
    let tools = flag_object(k1);
    let resources = flag_object(k2);
    let prompts = flag_object(k3);
    assert(seq!["listChanged"].map_values(|k: &str| (k@, ValueView::Boolean(true))) =~= seq![
        ("listChanged"@, ValueView::Boolean(true)),
    ]);
    assert(seq!["subscribe", "listChanged"].map_values(|k: &str| (k@, ValueView::Boolean(true)))
        =~= seq![("subscribe"@, ValueView::Boolean(true)), ("listChanged"@, ValueView::Boolean(true))]);
    assert(tools@ == list_changed_capability());
    assert(resources@ == resource_capability());
    let result = InitializeResult {
        protocol_version: MCP_PROTOCOL_VERSION.to_owned(),
        capabilities: ServerCapabilities {
            tools: Some(tools),
            resources: Some(resources),
            prompts: Some(prompts),
        },
        server_info: ServerInfo { name: SERVER_NAME.to_owned(), version: SERVER_VERSION.to_owned() },
    };
    JsonRpcResponse::success(copy_id(&req.id), ResponseResult::Initialize(result))
}

fn handle_tools_list<T: Fn(&ToolCall) -> ToolResult, R: Fn(&str) -> Option<ResourceContent>>(
    registry: &Registry<T, R>,
    req: &JsonRpcRequest,
) -> (r: JsonRpcResponse)
    ensures
        is_success_response(r, req.id),
        r.result.unwrap() matches ResponseResult::Tools(ts) && lists_tools(*registry, ts@),
{
    let defs = registry.list_tools();
    let mut tools: Vec<McpToolDef> = Vec::new();
    let mut i: usize = 0;
    while i < defs.len()
        invariant
            0 <= i <= defs.len(),
            defs@.len() == registry.tool_entries().len(),
            forall|j: int| 0 <= j < defs@.len() ==> *defs@[j] == registry.tool_entries()[j].0,
            tools@.len() == i,
            forall|j: int|
                0 <= j < i ==> (#[trigger] tools@[j]).name == registry.tool_entries()[j].0.name
                    && tools@[j].description == registry.tool_entries()[j].0.description
                    && tools@[j].input_schema@ == input_schema(registry.tool_entries()[j].0.params@),
        decreases defs.len() - i,
    {
        tools.push(tool_to_mcp(defs[i]));
        i += 1;
    }
    JsonRpcResponse::success(copy_id(&req.id), ResponseResult::Tools(tools))
}

fn handle_resources_list<T: Fn(&ToolCall) -> ToolResult, R: Fn(&str) -> Option<ResourceContent>>(
    registry: &Registry<T, R>,
    req: &JsonRpcRequest,
) -> (r: JsonRpcResponse)
    ensures
        is_success_response(r, req.id),
        r.result.unwrap() matches ResponseResult::Resources(rs) && lists_resources(*registry, rs@),
{
    let defs = registry.list_resources();
    let mut resources: Vec<McpResourceDef> = Vec::new();
    let mut i: usize = 0;
    while i < defs.len()
        invariant
            0 <= i <= defs.len(),
            defs@.len() == registry.resource_entries().len(),
            forall|j: int| 0 <= j < defs@.len() ==> *defs@[j] == registry.resource_entries()[j].0,
            resources@.len() == i,
            forall|j: int|
                0 <= j < i ==> {
                    let d = registry.resource_entries()[j].0;
                    &&& (#[trigger] resources@[j]).uri == d.uri
                    &&& resources@[j].name == d.name
                    &&& resources@[j].description == d.description
                    &&& resources@[j].mime_type == d.mime_type
                },
        decreases defs.len() - i,
    {
        resources.push(resource_to_mcp(defs[i]));
        i += 1;
    }
    JsonRpcResponse::success(copy_id(&req.id), ResponseResult::Resources(resources))
}

/// The call id for a `tools/call` request.
fn call_id_of(id: &Option<JsonRpcId>) -> (r: String)
    ensures
        r@ == call_id_text(*id),
{
    match id {
        Some(JsonRpcId::Number(n)) => i64_decimal(*n),
        Some(JsonRpcId::String(s)) => s.clone(),
        None => "0".to_owned(),
    }
}

/// `"invalid params: "` followed by the detail.
fn invalid_params_message(detail: &str) -> (r: String)
    ensures
        r@ == "invalid params: "@ + detail@,
{
    let mut m = String::new();
    push_str(&mut m, "invalid params: ");
    push_str(&mut m, detail);
    m
}

fn handle_tools_call<T: Fn(&ToolCall) -> ToolResult, R: Fn(&str) -> Option<ResourceContent>>(
    registry: &Registry<T, R>,
    req: &JsonRpcRequest,
    read: &Result<ToolCallParams, String>,
) -> (r: JsonRpcResponse)
    requires
        registry.wf(),
        registry.handlers_total(),
    ensures
        registry.answers_tool_call(req.id, *read, r),
{
    let params = match read {
        Ok(p) => p,
        Err(e) => {
            return JsonRpcResponse::error(
                copy_id(&req.id),
                INVALID_PARAMS,
                invalid_params_message(e.as_str()),
            );
        },
    };
    let call_id = call_id_of(&req.id);
    let native_call = mcp_to_tool_call(call_id.as_str(), params);
    assert(registry.tool_handlers_accept(native_call));
    let result = registry.invoke(&native_call);
    let mcp_result = result_to_mcp(&result);
    let r = JsonRpcResponse::success(copy_id(&req.id), ResponseResult::ToolCall(mcp_result));
    assert(registry.invoke_outcome(native_call, result));
    r
}

fn handle_resources_read<T: Fn(&ToolCall) -> ToolResult, R: Fn(&str) -> Option<ResourceContent>>(
    registry: &Registry<T, R>,
    req: &JsonRpcRequest,
    read: &Result<ResourceReadParams, String>,
) -> (r: JsonRpcResponse)
    requires
        registry.wf(),
        registry.handlers_total(),
    ensures
        registry.answers_resource_read(req.id, *read, r),
{
    let params = match read {
        Ok(p) => p,
        Err(e) => {
            return JsonRpcResponse::error(
                copy_id(&req.id),
                INVALID_PARAMS,
                invalid_params_message(e.as_str()),
            );
        },
    };
    let uri = params.uri.as_str();
    assert(registry.resource_handlers_accept(uri));
    let content = registry.read_resource(uri);
    assert(registry.read_outcome(uri, content));
    match content {
        Some(c) => {
            let rr = resource_content_to_mcp(&c);
            JsonRpcResponse::success(copy_id(&req.id), ResponseResult::ResourceRead(rr))
        },
        None => {
            let mut m = String::new();
            push_str(&mut m, "resource not found: ");
            push_str(&mut m, uri);
            JsonRpcResponse::error(copy_id(&req.id), INVALID_PARAMS, m)
        },
    }
}

fn handle_prompts_list(req: &JsonRpcRequest) -> (r: JsonRpcResponse)
    ensures
        is_success_response(r, req.id),
        r.result.unwrap() matches ResponseResult::Prompts(ps) && ps@.len() == 0,
{
    JsonRpcResponse::success(copy_id(&req.id), ResponseResult::Prompts(Vec::new()))
}

/// Answers `prompts/get`: no prompt is served, so every request gets an
/// invalid-params error.
pub fn handle_prompts_get(req: &JsonRpcRequest) -> (r: JsonRpcResponse)
    ensures
        is_error_response(r, req.id, INVALID_PARAMS, "prompt not found"@),
{
    JsonRpcResponse::error(copy_id(&req.id), INVALID_PARAMS, "prompt not found".to_owned())
}

/// Answers a request according to its method; `params` are its parameters
/// as read for the methods that take any.
pub fn dispatch<T: Fn(&ToolCall) -> ToolResult, R: Fn(&str) -> Option<ResourceContent>>(
    registry: &Registry<T, R>,
    req: &JsonRpcRequest,
    params: &RequestParams,
) -> (r: JsonRpcResponse)
    requires
        registry.wf(),
        registry.handlers_total(),
    ensures
        registry.answers(*req, *params, r),
{
    let m = req.method.as_str();
    if str_eq(m, "initialize") {
        handle_initialize(req)
    } else if str_eq(m, "tools/list") {
        handle_tools_list(registry, req)
    } else if str_eq(m, "tools/call") {
        handle_tools_call(registry, req, &params.tool_call)
    } else if str_eq(m, "resources/list") {
        handle_resources_list(registry, req)
    } else if str_eq(m, "resources/read") {
        handle_resources_read(registry, req, &params.resource_read)
    } else if str_eq(m, "prompts/list") {
        handle_prompts_list(req)
    } else if str_eq(m, "prompts/get") {
        handle_prompts_get(req)
    } else if str_eq(m, "ping") {
        JsonRpcResponse::success(copy_id(&req.id), ResponseResult::Empty)
    } else {
        let mut msg = String::new();
        push_str(&mut msg, "method not found: ");
        push_str(&mut msg, m);
        JsonRpcResponse::error(copy_id(&req.id), METHOD_NOT_FOUND, msg)
    }
}

/// Answers a decoded message, given with its parameters as read for the
/// methods that take any: a message that could not be decoded gets a parse
/// error (with no id); the `notifications/initialized` notification gets no
/// response; every other request is dispatched by method.
pub fn handle_request<T: Fn(&ToolCall) -> ToolResult, R: Fn(&str) -> Option<ResourceContent>>(
    registry: &Registry<T, R>,
    request: Result<(JsonRpcRequest, RequestParams), String>,
) -> (r: Option<JsonRpcResponse>)
    requires
        registry.wf(),
        registry.handlers_total(),
    ensures
        match request {
            Err(e) => r is Some && is_error_response(
                r.unwrap(),
                None,
                PARSE_ERROR,
                "parse error: "@ + e@,
            ),
            Ok((req, params)) => if is_silent_notification(req) {
                r is None
            } else {
                r is Some && registry.answers(req, params, r.unwrap())
            },
        },
{
    match request {
        Err(e) => {
            let mut msg = String::new();
            push_str(&mut msg, "parse error: ");
            push_str(&mut msg, e.as_str());
            Some(JsonRpcResponse::error(None, PARSE_ERROR, msg))
        },
        Ok((req, params)) => {
            if req.id.is_none() && str_eq(req.method.as_str(), INITIALIZED_NOTIFICATION) {
                None
            } else {
                Some(dispatch(registry, &req, &params))
            }
        },
    }
}

/// Every answer is a JSON-RPC 2.0 response carrying the request's id, and
/// holds either a result or an error, never both and never neither.
pub proof fn law_answer_carries_request_id<T: Fn(&ToolCall) -> ToolResult, R: Fn(&str) -> Option<
    ResourceContent,
>>(reg: Registry<T, R>, req: JsonRpcRequest, params: RequestParams, r: JsonRpcResponse)
    requires
        reg.answers(req, params, r),
    ensures
        r.id == req.id,
        r.jsonrpc@ == JSONRPC_VERSION@,
        (r.result is Some) != (r.error is Some),
{
    let m = req.method@;
    if m == "resources/read"@ {
        match params.resource_read {
            Err(_) => {},
            Ok(p) => {
                let u = p.uri@;
                let (uri, content) = choose|uri: &str, content: Option<ResourceContent>|
                    {
                        &&& uri@ == u
                        &&& #[trigger] reg.read_outcome(uri, content)
                        &&& match content {
                            Some(c) => is_success_response(r, req.id) && (r.result.unwrap() matches ResponseResult::ResourceRead(
                                rr,
                            ) && describes_content(rr, c)),
                            None => is_error_response(
                                r,
                                req.id,
                                INVALID_PARAMS,
                                "resource not found: "@ + u,
                            ),
                        }
                    };
            },
        }
    }
}


/// A tools listing describes every registered tool: it has one entry per
/// tool, and each registered tool's name appears in it.
pub proof fn law_tools_list_covers_registry<T, R>(reg: Registry<T, R>, ts: Seq<McpToolDef>)
    requires
        lists_tools(reg, ts),
    ensures
        ts.len() == reg.tool_entries().len(),
        forall|i: int|
            0 <= i < reg.tool_entries().len() ==> exists|j: int|
                0 <= j < ts.len() && (#[trigger] ts[j]).name == (#[trigger] reg.tool_entries()[i]).0.name,
{
    assert forall|i: int| 0 <= i < reg.tool_entries().len() implies exists|j: int|
        0 <= j < ts.len() && (#[trigger] ts[j]).name == (#[trigger] reg.tool_entries()[i]).0.name by {
        assert(ts[i].name == reg.tool_entries()[i].0.name);
    }
}

} // verus!
