//! Native in-process transport.

use vstd::prelude::*;

use crate::mcp::types::{
    JsonRpcId, JsonRpcRequest, JsonRpcResponse, RequestParams, ResponseResult, JSONRPC_VERSION,
};
use crate::registry::Registry;
use crate::resource::ResourceContent;
use crate::server::handle_request;
use crate::text::{i64_decimal, int_decimal, push_str};
use crate::tool::{ToolCall, ToolResult, ToolValue};

verus! {

/// Marker for native transport capability.
pub struct NativeTransport;

/// What a caller gets from a response: its error as `code: message`, else
/// its result, else a report that it has none.
pub open spec fn local_outcome(resp: JsonRpcResponse, r: Result<ResponseResult, String>) -> bool {
    match resp.error {
        Some(e) => r is Err && r->Err_0@ == int_decimal(e.code as int) + ": "@ + e.message@,
        None => match resp.result {
            Some(v) => r == Ok::<ResponseResult, String>(v),
            None => r is Err && r->Err_0@ == "no result"@,
        },
    }
}

impl NativeTransport {
    /// In-process dispatch: sends the request `method` (id 1) with `params`,
    /// which `read` gives as read for the methods that take any, to the
    /// registry's server and interprets its answer.
    pub fn call_local<T: Fn(&ToolCall) -> ToolResult, R: Fn(&str) -> Option<ResourceContent>>(
        registry: &Registry<T, R>,
        method: &str,
        params: ToolValue,
        read: RequestParams,
    ) -> (r: Result<ResponseResult, String>)
        requires
            registry.wf(),
            registry.handlers_total(),
        ensures
            exists|req: JsonRpcRequest, resp: JsonRpcResponse|
                {
                    &&& req.jsonrpc@ == JSONRPC_VERSION@
                    &&& req.id == Some(JsonRpcId::Number(1))
                    &&& req.method@ == method@
                    &&& req.params == params
                    &&& #[trigger] registry.answers(req, read, resp)
                    &&& local_outcome(resp, r)
                },
    {
        let req = JsonRpcRequest {
            jsonrpc: JSONRPC_VERSION.to_owned(),
            id: Some(JsonRpcId::Number(1)),
            method: method.to_owned(),
            params,
        };
        let ghost sent = req;
        let ghost sent_read = read;
        let answer = handle_request(registry, Ok((req, read)));
        let resp = match answer {
            Some(resp) => resp,
            None => {
                return Err("no response".to_owned());
            },
        };
        assert(registry.answers(sent, sent_read, resp));
        match resp.error {
            Some(e) => {
                let mut m = String::new();
                let code = i64_decimal(e.code);
                push_str(&mut m, code.as_str());
                push_str(&mut m, ": ");
                push_str(&mut m, e.message.as_str());
                Err(m)
            },
            None => match resp.result {
                Some(v) => Ok(v),
                None => Err("no result".to_owned()),
            },
        }
    }
}

} // verus!
