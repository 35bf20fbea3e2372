//! MCP adapter: converts between native ulmcp types and MCP types.

use vstd::prelude::*;

use crate::map::StrMap;
use crate::mcp::types::{
    ContentBlock, McpPromptArg, McpPromptDef, McpResourceDef, McpToolDef, ResourceReadResult,
    ToolCallParams, ToolCallResult,
};
use crate::prompt::PromptDef;
use crate::resource::{ResourceContent, ResourceData, ResourceDef};
use crate::text::{int_decimal, push_char, push_str};
use crate::tool::{
    entries_view, lemma_entries_view, lemma_entries_view_insert, lemma_values_view,
    push_value_debug, required_names, value_debug, value_view, values_view, view_insert, ParamType,
    ToolCall, ToolDef, ToolParam, ToolResult, ToolStatus, ToolValue, ValueView,
};

verus! {

// ---------------------------------------------------------------------------
// Native -> MCP
// ---------------------------------------------------------------------------

/// The JSON-schema type name for a parameter type; enums are strings.
pub open spec fn json_type_name(t: ParamType) -> Seq<char> {
    match t {
        ParamType::String => "string"@,
        ParamType::Enum(_) => "string"@,
        ParamType::Integer => "integer"@,
        ParamType::Float => "number"@,
        ParamType::Boolean => "boolean"@,
        ParamType::Array(_) => "array"@,
        ParamType::Object => "object"@,
    }
}

/// The JSON-schema type name for a parameter type.
pub fn param_type_to_json_type(pt: &ParamType) -> (r: &'static str)
    ensures
        r@ == json_type_name(*pt),
{
    match pt {
        ParamType::String => "string",
        ParamType::Enum(_) => "string",
        ParamType::Integer => "integer",
        ParamType::Float => "number",
        ParamType::Boolean => "boolean",
        ParamType::Array(_) => "array",
        ParamType::Object => "object",
    }
}

/// The schema of one parameter: `{"type": ..., "description": ...}`.
pub open spec fn schema_property(p: ToolParam) -> ValueView {
    ValueView::Object(
        seq![
            ("type"@, ValueView::String(json_type_name(p.param_type))),
            ("description"@, ValueView::String(p.description@)),
        ],
    )
}

/// The `properties` object of a schema: each parameter's schema under its
/// name, a later parameter of the same name overwriting an earlier one.
pub open spec fn schema_properties(ps: Seq<ToolParam>) -> Seq<(Seq<char>, ValueView)>
    decreases ps.len(),
{
    if ps.len() == 0 {
        Seq::empty()
    } else {
        view_insert(schema_properties(ps.drop_last()), ps.last().name@, schema_property(ps.last()))
    }
}

/// The JSON schema of a tool's parameters:
/// `{"type": "object", "properties": {...}, "required": [names...]}`.
pub open spec fn input_schema(ps: Seq<ToolParam>) -> ValueView {
    ValueView::Object(
        seq![
            ("type"@, ValueView::String("object"@)),
            ("properties"@, ValueView::Object(schema_properties(ps))),
            (
                "required"@,
                ValueView::Array(required_names(ps).map_values(|n: Seq<char>| ValueView::String(n))),
            ),
        ],
    )
}

fn string_value(s: &str) -> (v: ToolValue)
    ensures
        v@ == ValueView::String(s@),
{
    ToolValue::String(s.to_owned())
}

fn property_schema(p: &ToolParam) -> (v: ToolValue)
    ensures
        v@ == schema_property(*p),
{
    let es = vec![
        ("type".to_owned(), string_value(param_type_to_json_type(&p.param_type))),
        ("description".to_owned(), string_value(p.description.as_str())),
    ];
    proof {
        lemma_entries_view(es@);
    }
    let m = StrMap::from_entries(es);
    let v = ToolValue::Object(m);
    assert(entries_view(es@) =~= seq![
        ("type"@, ValueView::String(json_type_name(p.param_type))),
        ("description"@, ValueView::String(p.description@)),
    ]);
    v
}

/// Describes a tool in MCP terms.
pub fn tool_to_mcp(def: &ToolDef) -> (r: McpToolDef)
    ensures
        r.name == def.name,
        r.description == def.description,
        r.input_schema@ == input_schema(def.params@),
{
    let mut properties: StrMap<ToolValue> = StrMap::new();
    let mut required: Vec<ToolValue> = Vec::new();
    let mut i: usize = 0;
    proof {
        lemma_entries_view(properties@);
    }
    assert(entries_view(properties@) =~= schema_properties(def.params@.take(0)));
    while i < def.params.len()
        invariant
            0 <= i <= def.params.len(),
            entries_view(properties@) == schema_properties(def.params@.take(i as int)),
            values_view(required@) == required_names(def.params@.take(i as int)).map_values(
                |n: Seq<char>| ValueView::String(n),
            ),
        decreases def.params.len() - i,
    {
        let p = &def.params[i];
        assert(def.params@.take(i + 1).drop_last() =~= def.params@.take(i as int));
        assert(def.params@.take(i + 1).last() == def.params@[i as int]);
        let prop = property_schema(p);
        let ghost before = properties@;
        let _ = properties.insert(p.name.clone(), prop);
        proof {
            lemma_entries_view_insert(before, p.name, prop);
        }
        if p.required {
            let ghost rbefore = required@;
            required.push(string_value(p.name.as_str()));
            assert(required@.drop_last() =~= rbefore);
        }
        assert(values_view(required@) =~= required_names(def.params@.take(i + 1)).map_values(
            |n: Seq<char>| ValueView::String(n),
        ));
        i += 1;
    }
    assert(def.params@.take(def.params.len() as int) =~= def.params@);
    let es = vec![
        ("type".to_owned(), string_value("object")),
        ("properties".to_owned(), ToolValue::Object(properties)),
        ("required".to_owned(), ToolValue::Array(required)),
    ];
    proof {
        lemma_entries_view(es@);
    }
    let schema = ToolValue::Object(StrMap::from_entries(es));
    assert(entries_view(es@) =~= seq![
        ("type"@, ValueView::String("object"@)),
        ("properties"@, ValueView::Object(schema_properties(def.params@))),
        (
            "required"@,
            ValueView::Array(required_names(def.params@).map_values(|n: Seq<char>| ValueView::String(n))),
        ),
    ]);
    McpToolDef { name: def.name.clone(), description: def.description.clone(), input_schema: schema }
}

/// Describes a resource in MCP terms.
pub fn resource_to_mcp(def: &ResourceDef) -> (r: McpResourceDef)
    ensures
        r.uri == def.uri,
        r.name == def.name,
        r.description == def.description,
        r.mime_type == def.mime_type,
{
    McpResourceDef {
        uri: def.uri.clone(),
        name: def.name.clone(),
        description: def.description.clone(),
        mime_type: def.mime_type.clone(),
    }
}

/// Describes a prompt in MCP terms: its parameters become its arguments.
pub fn prompt_to_mcp(def: &PromptDef) -> (r: McpPromptDef)
    ensures
        r.name == def.name,
        r.description == def.description,
        r.arguments@.len() == def.params@.len(),
        forall|i: int|
            0 <= i < def.params@.len() ==> #[trigger] r.arguments@[i] == (McpPromptArg {
                name: def.params@[i].name,
                description: def.params@[i].description,
                required: def.params@[i].required,
            }),
{
    let mut arguments: Vec<McpPromptArg> = Vec::new();
    let mut i: usize = 0;
    while i < def.params.len()
        invariant
            0 <= i <= def.params.len(),
            arguments@.len() == i,
            forall|j: int|
                0 <= j < i ==> #[trigger] arguments@[j] == (McpPromptArg {
                    name: def.params@[j].name,
                    description: def.params@[j].description,
                    required: def.params@[j].required,
                }),
        decreases def.params.len() - i,
    {
        let p = &def.params[i];
        arguments.push(
            McpPromptArg {
                name: p.name.clone(),
                description: p.description.clone(),
                required: p.required,
            },
        );
        i += 1;
    }
    McpPromptDef { name: def.name.clone(), description: def.description.clone(), arguments }
}

/// The text MCP shows for a tool result: the error message (or `null`) for
/// no output, a string as is, a number or truth value in decimal or words,
/// and anything else in its `Debug` form.
pub open spec fn result_text_of(r: ToolResult) -> Seq<char> {
    match r.output {
        ToolValue::Null => match r.error {
            Some(e) => e@,
            None => "null"@,
        },
        ToolValue::String(s) => s@,
        ToolValue::Integer(i) => int_decimal(i as int),
        ToolValue::Float(t) => t@,
        ToolValue::Boolean(b) => if b {
            "true"@
        } else {
            "false"@
        },
        other => value_debug(other),
    }
}

/// `t` describes the tool result `r`: one text block, and an error flag for
/// any status other than success.
pub open spec fn describes_result(t: ToolCallResult, r: ToolResult) -> bool {
    &&& t.content@.len() == 1
    &&& t.content@[0] matches ContentBlock::Text { text } && text@ == result_text_of(r)
    &&& t.is_error == (r.status != ToolStatus::Success)
}

/// Describes a tool result in MCP terms: one text block, and an error flag
/// for any status other than success.
pub fn result_to_mcp(result: &ToolResult) -> (r: ToolCallResult)
    ensures
        describes_result(r, *result),
{
    let text = match &result.output {
        ToolValue::Null => match &result.error {
            Some(e) => e.clone(),
            None => "null".to_owned(),
        },
        ToolValue::String(s) => s.clone(),
        ToolValue::Integer(i) => crate::text::i64_decimal(*i),
        ToolValue::Float(t) => t.clone(),
        ToolValue::Boolean(b) => if *b {
            "true".to_owned()
        } else {
            "false".to_owned()
        },
        other => {
            let mut s = String::new();
            push_value_debug(&mut s, other);
            assert(s@ =~= value_debug(*other));
            s
        },
    };
    ToolCallResult {
        content: vec![ContentBlock::Text { text }],
        is_error: result.status != ToolStatus::Success,
    }
}

/// `r` describes the read content `c`: one entry with its URI and MIME
/// type, holding text as text and binary data as a base64 blob.
pub open spec fn describes_content(r: ResourceReadResult, c: ResourceContent) -> bool {
    &&& r.contents@.len() == 1
    &&& r.contents@[0].uri == c.uri
    &&& r.contents@[0].mime_type == c.mime_type
    &&& match c.data {
        ResourceData::Text(t) => r.contents@[0].text == Some(t) && r.contents@[0].blob is None,
        ResourceData::Binary(b) => r.contents@[0].text is None && r.contents@[0].blob is Some
            && r.contents@[0].blob.unwrap()@ == base64(b@),
    }
}

/// Describes read resource content in MCP terms: text stays text, binary
/// data becomes a base64 blob.
pub fn resource_content_to_mcp(content: &ResourceContent) -> (r: ResourceReadResult)
    ensures
        describes_content(r, *content),
{
    let rc = match &content.data {
        ResourceData::Text(text) => crate::mcp::types::ResourceContent {
            uri: content.uri.clone(),
            mime_type: content.mime_type.clone(),
            text: Some(text.clone()),
            blob: None,
        },
        ResourceData::Binary(bytes) => crate::mcp::types::ResourceContent {
            uri: content.uri.clone(),
            mime_type: content.mime_type.clone(),
            text: None,
            blob: Some(base64_encode(bytes.as_slice())),
        },
    };
    ResourceReadResult { contents: vec![rc] }
}

// ---------------------------------------------------------------------------
// MCP -> Native
// ---------------------------------------------------------------------------

/// The arguments a `tools/call` carries: the entries of its `arguments`
/// object, or none when that is not an object.
pub open spec fn arguments_of(v: ValueView) -> Seq<(Seq<char>, ValueView)> {
    match v {
        ValueView::Object(es) => es,
        _ => Seq::empty(),
    }
}

/// Turns MCP `tools/call` parameters into a native call.
pub fn mcp_to_tool_call(call_id: &str, params: &ToolCallParams) -> (r: ToolCall)
    ensures
        r.call_id@ == call_id@,
        r.tool_name == params.name,
        entries_view(r.arguments@) == arguments_of(params.arguments@),
{
    let arguments = match &params.arguments {
        ToolValue::Object(m) => StrMap::from_entries(crate::tool::clone_entries(m.entries())),
        _ => {
            let m: StrMap<ToolValue> = StrMap::new();
            proof {
                lemma_entries_view(m@);
            }
            assert(entries_view(m@) =~= Seq::<(Seq<char>, ValueView)>::empty());
            m
        },
    };
    ToolCall { call_id: call_id.to_owned(), tool_name: params.name.clone(), arguments }
}

// ---------------------------------------------------------------------------
// Base64
// ---------------------------------------------------------------------------

/// The base64 alphabet: `A-Z`, `a-z`, `0-9`, `+`, `/`.
pub open spec fn base64_char(i: int) -> char {
    if i < 26 {
        (65 + i) as char
    } else if i < 52 {
        (97 + (i - 26)) as char
    } else if i < 62 {
        (48 + (i - 52)) as char
    } else if i == 62 {
        '+'
    } else {
        '/'
    }
}

/// Standard base64 with `=` padding: each group of three bytes becomes four
/// characters of six bits each; a last group of one or two bytes is padded.
pub open spec fn base64(data: Seq<u8>) -> Seq<char>
    decreases data.len(),
{
    if data.len() == 0 {
        Seq::empty()
    } else {
        let b0 = data[0] as int;
        let b1 = if data.len() > 1 {
            data[1] as int
        } else {
            0
        };
        let b2 = if data.len() > 2 {
            data[2] as int
        } else {
            0
        };
        if data.len() == 1 {
            seq![base64_char(b0 / 4), base64_char((b0 % 4) * 16), '=', '=']
        } else if data.len() == 2 {
            seq![base64_char(b0 / 4), base64_char((b0 % 4) * 16 + b1 / 16), base64_char((b1 % 16) * 4), '=']
        } else {
            seq![
                base64_char(b0 / 4),
                base64_char((b0 % 4) * 16 + b1 / 16),
                base64_char((b1 % 16) * 4 + b2 / 64),
                base64_char(b2 % 64),
            ] + base64(data.skip(3))
        }
    }
}

fn base64_digit(i: u32) -> (c: char)
    requires
        i < 64,
    ensures
        c == base64_char(i as int),
{
    if i < 26 {
        (65u8 + i as u8) as char
    } else if i < 52 {
        (97u8 + (i - 26) as u8) as char
    } else if i < 62 {
        (48u8 + (i - 52) as u8) as char
    } else if i == 62 {
        '+'
    } else {
        '/'
    }
}

/// Encodes bytes as standard base64 with padding.
pub fn base64_encode(data: &[u8]) -> (r: String)
    ensures
        r@ == base64(data@),
{
    let mut out = String::new();
    let mut i: usize = 0;
    assert(data@.skip(0) =~= data@);
    while i < data.len()
        invariant
            0 <= i <= data.len(),
            base64(data@) == out@ + base64(data@.skip(i as int)),
        decreases data.len() - i,
    {
        let rest = data.len() - i;
        let b0 = data[i] as u32;
        let b1: u32 = if rest > 1 {
            data[i + 1] as u32
        } else {
            0
        };
        let b2: u32 = if rest > 2 {
            data[i + 2] as u32
        } else {
            0
        };
        let n: u32 = (b0 << 16) | (b1 << 8) | b2;
        assert(((n >> 18) & 0x3F) == b0 / 4 && ((n >> 12) & 0x3F) == (b0 % 4) * 16 + b1 / 16 && ((n
            >> 6) & 0x3F) == (b1 % 16) * 4 + b2 / 64 && (n & 0x3F) == b2 % 64) by (bit_vector)
            requires
                b0 < 256,
                b1 < 256,
                b2 < 256,
                n == (b0 << 16) | (b1 << 8) | b2,
        ;
        let ghost before = out@;
        let ghost s = data@.skip(i as int);
        push_char(&mut out, base64_digit((n >> 18) & 0x3F));
        push_char(&mut out, base64_digit((n >> 12) & 0x3F));
        if rest > 1 {
            push_char(&mut out, base64_digit((n >> 6) & 0x3F));
        } else {
            push_char(&mut out, '=');
        }
        if rest > 2 {
            push_char(&mut out, base64_digit(n & 0x3F));
        } else {
            push_char(&mut out, '=');
        }
        assert(s[0] == data@[i as int]);
        if rest > 1 {
            assert(s[1] == data@[i + 1]);
        }
        if rest > 2 {
            assert(s[2] == data@[i + 2]);
            assert(s.skip(3) =~= data@.skip(i + 3));
        }
        if rest >= 3 {
            assert(out@ + base64(data@.skip(i + 3)) =~= before + base64(s));
            i = i + 3;
        } else {
            assert(data@.skip(data.len() as int) =~= Seq::<u8>::empty());
            assert(out@ =~= before + base64(s));
            i = data.len();
        }
    }
    assert(data@.skip(data.len() as int) =~= Seq::<u8>::empty());
    out
}

/// Base64 output has four characters for every started group of three bytes.
pub proof fn law_base64_length(data: Seq<u8>)
    ensures
        base64(data).len() == 4 * ((data.len() + 2) / 3),
    decreases data.len(),
{
    if data.len() > 2 {
        law_base64_length(data.skip(3));
    }
}


/// A parameter's JSON-schema type is its own type name, except that a float
/// is a JSON `number` and an enum is a JSON `string`.
pub proof fn law_json_type_follows_param_type(t: ParamType)
    ensures
        !(t is Float) && !(t is Enum) ==> json_type_name(t) == crate::tool::param_type_name(t),
        t is Float ==> json_type_name(t) == "number"@,
        t is Enum ==> json_type_name(t) == json_type_name(ParamType::String),
{
}

/// The text shown for a boolean output is `true` or `false` by its value, so
/// two boolean results show the same text exactly when they hold the same
/// value.
pub proof fn law_boolean_result_text(r1: ToolResult, r2: ToolResult, b1: bool, b2: bool)
    requires
        r1.output == ToolValue::Boolean(b1),
        r2.output == ToolValue::Boolean(b2),
    ensures
        b1 ==> result_text_of(r1) == "true"@,
        !b1 ==> result_text_of(r1) == "false"@,
        (result_text_of(r1) == result_text_of(r2)) <==> (b1 == b2),
{
    reveal_strlit("true");
    reveal_strlit("false");
    assert("true"@.len() != "false"@.len());
}

} // verus!
