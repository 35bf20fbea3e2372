//! ulmcp client: discovers tools and invokes them.
//!
//! The client builds requests and interprets responses; sending them and
//! turning text into values is the transport's part.

use vstd::prelude::*;

use crate::map::StrMap;
use crate::mcp::types::{
    JsonRpcError, JsonRpcId, JsonRpcRequest, McpToolDef, ToolCallResult, JSONRPC_VERSION,
    MCP_PROTOCOL_VERSION,
};
use crate::text::{i64_decimal, int_decimal, push_str};
use crate::tool::{entries_view, lemma_entries_view, ToolValue, ValueView};

verus! {

/// The version this client reports.
pub const CLIENT_VERSION: &'static str = "0.1.0";

/// A client for invoking tools on a server.
pub struct Client {
    tools: Vec<McpToolDef>,
}

/// The text of `Ok` or `Err` taken by view.
pub open spec fn outcome_text<T>(r: Result<T, String>) -> Result<T, Seq<char>> {
    match r {
        Ok(v) => Ok(v),
        Err(e) => Err(e@),
    }
}

/// `{}` with these entries, in order.
pub open spec fn object_of(es: Seq<(Seq<char>, ValueView)>) -> ValueView {
    ValueView::Object(es)
}

/// A request `method` with id `id` and parameters whose view is `params`.
pub open spec fn is_request(r: JsonRpcRequest, id: i64, method: Seq<char>, params: ValueView) -> bool {
    &&& r.jsonrpc@ == JSONRPC_VERSION@
    &&& r.id == Some(JsonRpcId::Number(id))
    &&& r.method@ == method
    &&& r.params@ == params
}

fn object_value(es: Vec<(String, ToolValue)>) -> (v: ToolValue)
    ensures
        v@ == ValueView::Object(entries_view(es@)),
{
    ToolValue::Object(StrMap::from_entries(es))
}

impl Client {
    /// The discovered tools.
    pub closed spec fn tool_list(&self) -> Seq<McpToolDef> {
        self.tools@
    }

    /// A client that knows no tools yet.
    pub fn new() -> (c: Self)
        ensures
            c.tool_list().len() == 0,
    {
        Client { tools: Vec::new() }
    }

    /// The discovered tools.
    pub fn tools(&self) -> (r: &[McpToolDef])
        ensures
            r@ == self.tool_list(),
    {
        self.tools.as_slice()
    }

    /// Takes in a decoded `tools/list` response: `Err` when the response
    /// could not be decoded; `Ok(None)` when it has no result or the result
    /// no `tools`; `Ok(Some(listing))` with the decoded tool list or why it
    /// could not be decoded. A decoded list replaces the known tools; a
    /// decoding failure is reported with what it was decoding.
    pub fn discover_from_parsed(
        &mut self,
        response: Result<Option<Result<Vec<McpToolDef>, String>>, String>,
    ) -> (r: Result<(), String>)
        ensures
            match response {
                Err(e) => outcome_text(r) == Err::<(), Seq<char>>("parse error: "@ + e@)
                    && final(self).tool_list() == old(self).tool_list(),
                Ok(None) => r is Ok && final(self).tool_list() == old(self).tool_list(),
                Ok(Some(Err(e))) => outcome_text(r) == Err::<(), Seq<char>>("parse tools: "@ + e@)
                    && final(self).tool_list() == old(self).tool_list(),
                Ok(Some(Ok(ts))) => r is Ok && final(self).tool_list() == ts@,
            },
    {
        match response {
            Err(e) => {
                let mut m = String::new();
                push_str(&mut m, "parse error: ");
                push_str(&mut m, e.as_str());
                Err(m)
            },
            Ok(None) => Ok(()),
            Ok(Some(Err(e))) => {
                let mut m = String::new();
                push_str(&mut m, "parse tools: ");
                push_str(&mut m, e.as_str());
                Err(m)
            },
            Ok(Some(Ok(ts))) => {
                self.tools = ts;
                Ok(())
            },
        }
    }

    /// A `tools/call` request: `{"name": tool_name, "arguments": arguments}`.
    pub fn call_request(id: i64, tool_name: &str, arguments: ToolValue) -> (r: JsonRpcRequest)
        ensures
            is_request(
                r,
                id,
                "tools/call"@,
                object_of(
                    seq![("name"@, ValueView::String(tool_name@)), ("arguments"@, arguments@)],
                ),
            ),
    {
        let ghost av = arguments@;
        let es = vec![
            ("name".to_owned(), ToolValue::String(tool_name.to_owned())),
            ("arguments".to_owned(), arguments),
        ];
        proof {
            lemma_entries_view(es@);
        }
        assert(entries_view(es@) =~= seq![
            ("name"@, ValueView::String(tool_name@)),
            ("arguments"@, av),
        ]);
        JsonRpcRequest {
            jsonrpc: JSONRPC_VERSION.to_owned(),
            id: Some(JsonRpcId::Number(id)),
            method: "tools/call".to_owned(),
            params: object_value(es),
        }
    }

    /// Interprets a decoded `tools/call` response: `Err` when it could not be
    /// decoded; otherwise its error, if any, is reported with code and
    /// message; else its result (or why it could not be decoded) is given,
    /// or the lack of one reported.
    pub fn call_outcome(
        response: Result<(Option<JsonRpcError>, Option<Result<ToolCallResult, String>>), String>,
    ) -> (r: Result<ToolCallResult, String>)
        ensures
            match response {
                Err(e) => outcome_text(r) == Err::<ToolCallResult, Seq<char>>("parse error: "@ + e@),
                Ok((Some(err), _)) => outcome_text(r) == Err::<ToolCallResult, Seq<char>>(
                    "server error "@ + int_decimal(err.code as int) + ": "@ + err.message@,
                ),
                Ok((None, Some(Ok(t)))) => r == Ok::<ToolCallResult, String>(t),
                Ok((None, Some(Err(e)))) => outcome_text(r) == Err::<ToolCallResult, Seq<char>>(
                    "parse result: "@ + e@,
                ),
                Ok((None, None)) => outcome_text(r) == Err::<ToolCallResult, Seq<char>>(
                    "no result in response"@,
                ),
            },
    {
        match response {
            Err(e) => {
                let mut m = String::new();
                push_str(&mut m, "parse error: ");
                push_str(&mut m, e.as_str());
                Err(m)
            },
            Ok((Some(err), _)) => {
                let mut m = String::new();
                push_str(&mut m, "server error ");
                let code = i64_decimal(err.code);
                push_str(&mut m, code.as_str());
                push_str(&mut m, ": ");
                push_str(&mut m, err.message.as_str());
                Err(m)
            },
            Ok((None, Some(Ok(t)))) => Ok(t),
            Ok((None, Some(Err(e)))) => {
                let mut m = String::new();
                push_str(&mut m, "parse result: ");
                push_str(&mut m, e.as_str());
                Err(m)
            },
            Ok((None, None)) => Err("no result in response".to_owned()),
        }
    }

    /// An `initialize` request (id 0) announcing this protocol version, no
    /// capabilities, and the client's name and version.
    pub fn initialize_request(client_name: &str) -> (r: JsonRpcRequest)
        ensures
            is_request(
                r,
                0,
                "initialize"@,
                object_of(
                    seq![
                        ("protocolVersion"@, ValueView::String(MCP_PROTOCOL_VERSION@)),
                        ("capabilities"@, object_of(Seq::empty())),
                        (
                            "clientInfo"@,
                            object_of(
                                seq![
                                    ("name"@, ValueView::String(client_name@)),
                                    ("version"@, ValueView::String(CLIENT_VERSION@)),
                                ],
                            ),
                        ),
                    ],
                ),
            ),
    {
        let info = vec![
            ("name".to_owned(), ToolValue::String(client_name.to_owned())),
            ("version".to_owned(), ToolValue::String(CLIENT_VERSION.to_owned())),
        ];
        proof {
            lemma_entries_view(info@);
        }
        assert(entries_view(info@) =~= seq![
            ("name"@, ValueView::String(client_name@)),
            ("version"@, ValueView::String(CLIENT_VERSION@)),
        ]);
        let caps: Vec<(String, ToolValue)> = Vec::new();
        proof {
            lemma_entries_view(caps@);
        }
        assert(entries_view(caps@) =~= Seq::<(Seq<char>, ValueView)>::empty());
        let info_value = object_value(info);
        let caps_value = object_value(caps);
        let ghost iv = info_value@;
        let ghost cv = caps_value@;
        let es = vec![
            ("protocolVersion".to_owned(), ToolValue::String(MCP_PROTOCOL_VERSION.to_owned())),
            ("capabilities".to_owned(), caps_value),
            ("clientInfo".to_owned(), info_value),
        ];
        proof {
            lemma_entries_view(es@);
        }
        assert(entries_view(es@) =~= seq![
            ("protocolVersion"@, ValueView::String(MCP_PROTOCOL_VERSION@)),
            ("capabilities"@, cv),
            ("clientInfo"@, iv),
        ]);
        JsonRpcRequest {
            jsonrpc: JSONRPC_VERSION.to_owned(),
            id: Some(JsonRpcId::Number(0)),
            method: "initialize".to_owned(),
            params: object_value(es),
        }
    }

    /// A `tools/list` request with empty parameters.
    pub fn tools_list_request(id: i64) -> (r: JsonRpcRequest)
        ensures
            is_request(r, id, "tools/list"@, object_of(Seq::empty())),
    {
        let es: Vec<(String, ToolValue)> = Vec::new();
        proof {
            lemma_entries_view(es@);
        }
        assert(entries_view(es@) =~= Seq::<(Seq<char>, ValueView)>::empty());
        JsonRpcRequest {
            jsonrpc: JSONRPC_VERSION.to_owned(),
            id: Some(JsonRpcId::Number(id)),
            method: "tools/list".to_owned(),
            params: object_value(es),
        }
    }
}

} // verus!
