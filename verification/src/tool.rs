//! Tool definitions, invocations, and results.
//!
//! A tool is a callable function that an LLM agent can invoke. Each tool
//! has a name, a description, typed parameters, and returns a typed result.

use vstd::prelude::*;

use crate::map::{has_key, is_first_key, lookup, StrMap};
use crate::text::{
    debug_quoted, int_decimal, nat_decimal, push_char, push_decimal, push_str, quote_debug,
};

verus! {

/// A parameter of a tool.
#[derive(Debug, Clone, PartialEq)]
pub struct ToolParam {
    pub name: String,
    pub description: String,
    pub param_type: ParamType,
    pub required: bool,
    pub default: Option<ToolValue>,
}

/// Parameter types.
#[derive(Debug, PartialEq)]
pub enum ParamType {
    String,
    Integer,
    Float,
    Boolean,
    Array(Box<ParamType>),
    Object,
    /// One of a fixed set of string values.
    Enum(Vec<String>),
}

/// The lower-case name of a parameter type.
pub open spec fn param_type_name(t: ParamType) -> Seq<char> {
    match t {
        ParamType::String => "string"@,
        ParamType::Integer => "integer"@,
        ParamType::Float => "float"@,
        ParamType::Boolean => "boolean"@,
        ParamType::Array(_) => "array"@,
        ParamType::Object => "object"@,
        ParamType::Enum(_) => "enum"@,
    }
}

/// Two parameter types are the same type (enum variants compared by text).
pub open spec fn same_param_type(a: ParamType, b: ParamType) -> bool
    decreases a,
{
    match (a, b) {
        (ParamType::String, ParamType::String) => true,
        (ParamType::Integer, ParamType::Integer) => true,
        (ParamType::Float, ParamType::Float) => true,
        (ParamType::Boolean, ParamType::Boolean) => true,
        (ParamType::Array(x), ParamType::Array(y)) => same_param_type(*x, *y),
        (ParamType::Object, ParamType::Object) => true,
        (ParamType::Enum(x), ParamType::Enum(y)) => x@.map_values(|v: String| v@) == y@.map_values(
            |v: String| v@,
        ),
        _ => false,
    }
}

impl Clone for ParamType {
    fn clone(&self) -> (r: Self)
        ensures
            same_param_type(r, *self),
        decreases self,
    {
        match self {
            ParamType::String => ParamType::String,
            ParamType::Integer => ParamType::Integer,
            ParamType::Float => ParamType::Float,
            ParamType::Boolean => ParamType::Boolean,
            ParamType::Array(inner) => ParamType::Array(Box::new((**inner).clone())),
            ParamType::Object => ParamType::Object,
            ParamType::Enum(vs) => {
                let c = vs.clone();
                assert(c@.map_values(|v: String| v@) =~= vs@.map_values(|v: String| v@));
                ParamType::Enum(c)
            },
        }
    }
}

impl ParamType {
    /// The lower-case name of this type.
    pub fn as_str(&self) -> (r: &str)
        ensures
            r@ == param_type_name(*self),
    {
        match self {
            ParamType::String => "string",
            ParamType::Integer => "integer",
            ParamType::Float => "float",
            ParamType::Boolean => "boolean",
            ParamType::Array(_) => "array",
            ParamType::Object => "object",
            ParamType::Enum(_) => "enum",
        }
    }
}

/// A concrete value passed to or returned from a tool.
///
/// A floating-point number is held as its decimal text, written the way
/// Rust's `Debug` writes an `f64` (such as `3.14` or `1e100`).
///
/// Equality (`==`) compares objects as maps, whatever the order of their
/// entries, and floats by their text: so `0.0` and `-0.0` differ, `NaN`
/// equals itself, and two texts for one number (`3.14`, `3.140`) differ,
/// where `f64`'s own equality says the opposite.
///
/// The derived `Debug` (`{:?}`) shows a float's text in quotes and an object
/// as its `StrMap`; the library's own messages use `value_debug`, which
/// writes `Float(1.5)` and `Object({"k": ...})`.
#[derive(Debug, PartialEq)]
pub enum ToolValue {
    Null,
    String(String),
    Integer(i64),
    Float(String),
    Boolean(bool),
    Array(Vec<ToolValue>),
    Object(StrMap<ToolValue>),
    Bytes(Vec<u8>),
}

/// The data a value holds, with strings and lists taken by their contents.
pub enum ValueView {
    Null,
    String(Seq<char>),
    Integer(int),
    Float(Seq<char>),
    Boolean(bool),
    Array(Seq<ValueView>),
    Object(Seq<(Seq<char>, ValueView)>),
    Bytes(Seq<u8>),
}

/// The view of a value.
pub open spec fn value_view(v: ToolValue) -> ValueView
    decreases v, 1int,
{
    match v {
        ToolValue::Null => ValueView::Null,
        ToolValue::String(s) => ValueView::String(s@),
        ToolValue::Integer(i) => ValueView::Integer(i as int),
        ToolValue::Float(t) => ValueView::Float(t@),
        ToolValue::Boolean(b) => ValueView::Boolean(b),
        ToolValue::Array(vs) => ValueView::Array(values_view(vs@)),
        ToolValue::Object(m) => {
            proof {
                crate::map::lemma_view_decreases(m);
            }
            ValueView::Object(entries_view(m@))
        },
        ToolValue::Bytes(bs) => ValueView::Bytes(bs@),
    }
}

/// Element-wise views.
pub open spec fn values_view(vs: Seq<ToolValue>) -> Seq<ValueView>
    decreases vs, 0int,
{
    if vs.len() == 0 {
        Seq::empty()
    } else {
        proof {
            crate::map::lemma_drop_last_decreases(vs);
        }
        values_view(vs.drop_last()).push(value_view(vs.last()))
    }
}

/// Entry-wise views: keys by text, values by view.
pub open spec fn entries_view(es: Seq<(String, ToolValue)>) -> Seq<(Seq<char>, ValueView)>
    decreases es, 0int,
{
    if es.len() == 0 {
        Seq::empty()
    } else {
        proof {
            crate::map::lemma_drop_last_decreases(es);
        }
        entries_view(es.drop_last()).push((es.last().0@, value_view(es.last().1)))
    }
}

/// Entry `i` of a viewed map is the first with key `key`.
pub open spec fn view_first_key(es: Seq<(Seq<char>, ValueView)>, key: Seq<char>, i: int) -> bool {
    &&& 0 <= i < es.len()
    &&& es[i].0 == key
    &&& forall|j: int| 0 <= j < i ==> es[j].0 != key
}

/// A viewed map after storing `value` under `key`: the first entry with
/// that key is overwritten in place, or a new entry is appended.
pub open spec fn view_insert(es: Seq<(Seq<char>, ValueView)>, key: Seq<char>, value: ValueView) -> Seq<
    (Seq<char>, ValueView),
> {
    if exists|i: int| #[trigger] view_first_key(es, key, i) {
        es.update(choose|i: int| #[trigger] view_first_key(es, key, i), (key, value))
    } else {
        es.push((key, value))
    }
}

/// The value a viewed map holds under `key`: that of its first entry with
/// that key.
pub open spec fn view_lookup(es: Seq<(Seq<char>, ValueView)>, key: Seq<char>) -> Option<ValueView> {
    if exists|i: int| #[trigger] view_first_key(es, key, i) {
        Some(es[choose|i: int| #[trigger] view_first_key(es, key, i)].1)
    } else {
        None
    }
}

/// The view of a sequence of values, element by element.
pub proof fn lemma_values_view(vs: Seq<ToolValue>)
    ensures
        values_view(vs).len() == vs.len(),
        forall|i: int| 0 <= i < vs.len() ==> #[trigger] values_view(vs)[i] == value_view(vs[i]),
    decreases vs.len(),
{
    if vs.len() > 0 {
        lemma_values_view(vs.drop_last());
    }
}

/// The view of a sequence of entries, entry by entry.
pub proof fn lemma_entries_view(es: Seq<(String, ToolValue)>)
    ensures
        entries_view(es).len() == es.len(),
        forall|i: int|
            0 <= i < es.len() ==> #[trigger] entries_view(es)[i] == (es[i].0@, value_view(es[i].1)),
    decreases es.len(),
{
    if es.len() > 0 {
        lemma_entries_view(es.drop_last());
    }
}

/// Storing into a map and then viewing it is viewing it and then storing.
pub proof fn lemma_entries_view_insert(es: Seq<(String, ToolValue)>, key: String, value: ToolValue)
    ensures
        entries_view(crate::map::insert_entry(es, key, value)) == view_insert(
            entries_view(es),
            key@,
            value_view(value),
        ),
{
    let n = crate::map::insert_entry(es, key, value);
    let ve = entries_view(es);
    lemma_entries_view(es);
    lemma_entries_view(n);
    if has_key(es, key@) {
        let k = crate::map::key_index(es, key@);
        assert(is_first_key(es, key@, k));
        assert(view_first_key(ve, key@, k));
        let c = choose|i: int| #[trigger] view_first_key(ve, key@, i);
        assert(view_first_key(ve, key@, c));
        if c < k {
            assert(ve[c].0 == es[c].0@);
        }
        if k < c {
            assert(ve[k].0 == es[k].0@);
        }
        assert(entries_view(n) =~= view_insert(ve, key@, value_view(value)));
    } else {
        assert forall|i: int| !view_first_key(ve, key@, i) by {
            if view_first_key(ve, key@, i) {
                assert(ve[i].0 == es[i].0@);
                let w = crate::map::choose_first(es, key@, i);
                assert(is_first_key(es, key@, w));
            }
        }
        assert(entries_view(n) =~= view_insert(ve, key@, value_view(value)));
    }
}

/// Looking a key up and then viewing is viewing and then looking up.
pub proof fn lemma_entries_view_lookup(es: Seq<(String, ToolValue)>, key: Seq<char>)
    ensures
        view_lookup(entries_view(es), key) == match lookup(es, key) {
            Some(v) => Some(value_view(v)),
            None => None,
        },
{
    let ve = entries_view(es);
    lemma_entries_view(es);
    if has_key(es, key) {
        let k = crate::map::key_index(es, key);
        assert(is_first_key(es, key, k));
        assert(view_first_key(ve, key, k));
        let c = choose|i: int| #[trigger] view_first_key(ve, key, i);
        assert(view_first_key(ve, key, c));
        if c < k {
            assert(ve[c].0 == es[c].0@);
        }
        if k < c {
            assert(ve[k].0 == es[k].0@);
        }
    } else {
        assert forall|i: int| !view_first_key(ve, key, i) by {
            if view_first_key(ve, key, i) {
                assert(ve[i].0 == es[i].0@);
                let w = crate::map::choose_first(es, key, i);
                assert(is_first_key(es, key, w));
            }
        }
    }
}

impl View for ToolValue {
    type V = ValueView;

    open spec fn view(&self) -> ValueView {
        value_view(*self)
    }
}

impl Clone for ToolValue {
    fn clone(&self) -> (r: Self)
        ensures
            r@ == self@,
        decreases self, 1int,
    {
        match self {
            ToolValue::Null => ToolValue::Null,
            ToolValue::String(s) => ToolValue::String(s.clone()),
            ToolValue::Integer(i) => ToolValue::Integer(*i),
            ToolValue::Float(t) => ToolValue::Float(t.clone()),
            ToolValue::Boolean(b) => ToolValue::Boolean(*b),
            ToolValue::Array(vs) => {
                assert(decreases_to!(*vs => vs@));
                ToolValue::Array(clone_values(vs))
            },
            ToolValue::Object(m) => {
                proof {
                    crate::map::lemma_view_decreases(*m);
                }
                ToolValue::Object(StrMap::from_entries(clone_entries(m.entries())))
            },
            ToolValue::Bytes(bs) => {
                let c = bs.clone();
                assert(c@ =~= bs@);
                ToolValue::Bytes(c)
            },
        }
    }
}

/// Copies of the values, in order.
pub fn clone_values(vs: &Vec<ToolValue>) -> (r: Vec<ToolValue>)
    ensures
        values_view(r@) == values_view(vs@),
    decreases vs@, 0int,
{
    let mut r: Vec<ToolValue> = Vec::new();
    let mut i: usize = 0;
    while i < vs.len()
        invariant
            0 <= i <= vs.len(),
            values_view(r@) == values_view(vs@.take(i as int)),
        decreases vs.len() - i,
    {
        assert(decreases_to!(vs@ => vs@[i as int]));
        let c = vs[i].clone();
        let ghost before = r@;
        r.push(c);
        assert(r@.drop_last() =~= before);
        assert(vs@.take(i + 1).drop_last() =~= vs@.take(i as int));
        i += 1;
    }
    assert(vs@.take(vs.len() as int) =~= vs@);
    r
}

/// Copies of the entries, in order.
pub fn clone_entries(es: &Vec<(String, ToolValue)>) -> (r: Vec<(String, ToolValue)>)
    ensures
        entries_view(r@) == entries_view(es@),
    decreases es@, 0int,
{
    let mut r: Vec<(String, ToolValue)> = Vec::new();
    let mut i: usize = 0;
    while i < es.len()
        invariant
            0 <= i <= es.len(),
            entries_view(r@) == entries_view(es@.take(i as int)),
        decreases es.len() - i,
    {
        assert(decreases_to!(es@ => es@[i as int]));
        assert(decreases_to!(es@[i as int] => es@[i as int].1));
        let k = es[i].0.clone();
        let v = es[i].1.clone();
        let ghost before = r@;
        r.push((k, v));
        assert(r@.drop_last() =~= before);
        assert(es@.take(i + 1).drop_last() =~= es@.take(i as int));
        i += 1;
    }
    assert(es@.take(es.len() as int) =~= es@);
    r
}

impl ToolValue {
    /// The text of a string value.
    pub fn as_str(&self) -> (r: Option<&str>)
        ensures
            match *self {
                ToolValue::String(s) => r is Some && r.unwrap()@ == s@,
                _ => r is None,
            },
    {
        match self {
            ToolValue::String(s) => Some(s.as_str()),
            _ => None,
        }
    }

    /// The number held by an integer value.
    pub fn as_i64(&self) -> (r: Option<i64>)
        ensures
            match *self {
                ToolValue::Integer(i) => r == Some(i),
                _ => r is None,
            },
    {
        match self {
            ToolValue::Integer(i) => Some(*i),
            _ => None,
        }
    }

    /// The truth value held by a boolean value.
    pub fn as_bool(&self) -> (r: Option<bool>)
        ensures
            match *self {
                ToolValue::Boolean(b) => r == Some(b),
                _ => r is None,
            },
    {
        match self {
            ToolValue::Boolean(b) => Some(*b),
            _ => None,
        }
    }
}

/// A tool definition.
#[derive(Debug, Clone)]
pub struct ToolDef {
    pub name: String,
    pub description: String,
    pub params: Vec<ToolParam>,
    /// Estimated token cost of calling this tool (for context budgeting).
    pub estimated_tokens: Option<usize>,
    /// Maximum execution time in milliseconds.
    pub timeout_ms: Option<u64>,
    /// Tags for categorization and discovery.
    pub tags: Vec<String>,
}

/// Names of the required parameters, in declaration order.
pub open spec fn required_names(ps: Seq<ToolParam>) -> Seq<Seq<char>>
    decreases ps.len(),
{
    if ps.len() == 0 {
        Seq::empty()
    } else {
        let rest = required_names(ps.drop_last());
        if ps.last().required {
            rest.push(ps.last().name@)
        } else {
            rest
        }
    }
}

impl ToolDef {
    /// A tool with the given name and description, and nothing else.
    pub fn new(name: &str, description: &str) -> (t: Self)
        ensures
            t.name@ == name@,
            t.description@ == description@,
            t.params@.len() == 0,
            t.estimated_tokens is None,
            t.timeout_ms is None,
            t.tags@.len() == 0,
    {
        ToolDef {
            name: name.to_owned(),
            description: description.to_owned(),
            params: Vec::new(),
            estimated_tokens: None,
            timeout_ms: None,
            tags: Vec::new(),
        }
    }

    /// Adds a parameter (with no default) after the existing ones.
    pub fn param(self, name: &str, desc: &str, param_type: ParamType, required: bool) -> (t: Self)
        ensures
            t.params@.len() == self.params@.len() + 1,
            t.params@.drop_last() == self.params@,
            t.params@.last().name@ == name@,
            t.params@.last().description@ == desc@,
            t.params@.last().param_type == param_type,
            t.params@.last().required == required,
            t.params@.last().default is None,
            t.name == self.name,
            t.description == self.description,
            t.estimated_tokens == self.estimated_tokens,
            t.timeout_ms == self.timeout_ms,
            t.tags == self.tags,
    {
        let mut t = self;
        t.params.push(
            ToolParam {
                name: name.to_owned(),
                description: desc.to_owned(),
                param_type,
                required,
                default: None,
            },
        );
        assert(t.params@.drop_last() =~= self.params@);
        t
    }

    /// Sets the maximum execution time.
    pub fn timeout(self, ms: u64) -> (t: Self)
        ensures
            t == (ToolDef { timeout_ms: Some(ms), ..self }),
    {
        let mut t = self;
        t.timeout_ms = Some(ms);
        t
    }

    /// Sets the estimated token cost.
    pub fn estimated_tokens(self, tokens: usize) -> (t: Self)
        ensures
            t == (ToolDef { estimated_tokens: Some(tokens), ..self }),
    {
        let mut t = self;
        t.estimated_tokens = Some(tokens);
        t
    }

    /// Adds a tag after the existing ones.
    pub fn tag(self, tag: &str) -> (t: Self)
        ensures
            t.tags@.len() == self.tags@.len() + 1,
            t.tags@.drop_last() == self.tags@,
            t.tags@.last()@ == tag@,
            t.name == self.name,
            t.description == self.description,
            t.params == self.params,
            t.estimated_tokens == self.estimated_tokens,
            t.timeout_ms == self.timeout_ms,
    {
        let mut t = self;
        t.tags.push(tag.to_owned());
        assert(t.tags@.drop_last() =~= self.tags@);
        t
    }

    /// Required parameter names, in declaration order.
    pub fn required_params(&self) -> (r: Vec<&str>)
        ensures
            r@.map_values(|s: &str| s@) == required_names(self.params@),
    {
        let mut r: Vec<&str> = Vec::new();
        let mut i: usize = 0;
        while i < self.params.len()
            invariant
                0 <= i <= self.params.len(),
                r@.map_values(|s: &str| s@) == required_names(self.params@.take(i as int)),
            decreases self.params.len() - i,
        {
            assert(self.params@.take(i + 1).drop_last() =~= self.params@.take(i as int));
            let p = &self.params[i];
            if p.required {
                r.push(p.name.as_str());
            }
            assert(r@.map_values(|s: &str| s@) =~= required_names(self.params@.take(i + 1)));
            i += 1;
        }
        assert(self.params@.take(self.params.len() as int) =~= self.params@);
        r
    }
}

/// A tool invocation request.
#[derive(Debug, Clone)]
pub struct ToolCall {
    pub call_id: String,
    pub tool_name: String,
    pub arguments: StrMap<ToolValue>,
}

/// A tool invocation result.
#[derive(Debug, Clone)]
pub struct ToolResult {
    pub call_id: String,
    pub status: ToolStatus,
    pub output: ToolValue,
    pub error: Option<String>,
    /// Actual token cost of the result.
    pub tokens_used: Option<usize>,
    /// Execution time in milliseconds.
    pub latency_ms: Option<u64>,
}

/// Status of a tool invocation.
#[derive(Debug, Clone, Copy, PartialEq, Eq, Structural)]
pub enum ToolStatus {
    Success,
    Error,
    Timeout,
    Cancelled,
}

/// The lower-case name of a status.
pub open spec fn status_name(s: ToolStatus) -> Seq<char> {
    match s {
        ToolStatus::Success => "success"@,
        ToolStatus::Error => "error"@,
        ToolStatus::Timeout => "timeout"@,
        ToolStatus::Cancelled => "cancelled"@,
    }
}

impl ToolStatus {
    /// The lower-case name of this status, as it is displayed.
    pub fn to_string(&self) -> (r: String)
        ensures
            r@ == status_name(*self),
    {
        let s = match self {
            ToolStatus::Success => "success",
            ToolStatus::Error => "error",
            ToolStatus::Timeout => "timeout",
            ToolStatus::Cancelled => "cancelled",
        };
        s.to_owned()
    }
}

// ---------------------------------------------------------------------------
// Debug rendering of values
// ---------------------------------------------------------------------------

/// Items joined by `", "`.
pub open spec fn join_items(parts: Seq<Seq<char>>) -> Seq<char>
    decreases parts.len(),
{
    if parts.len() == 0 {
        Seq::empty()
    } else if parts.len() == 1 {
        parts[0]
    } else {
        join_items(parts.drop_last()) + ", "@ + parts.last()
    }
}

/// How `Debug` writes a list of strings: `["a", "b"]`.
pub open spec fn string_list_debug(vs: Seq<String>) -> Seq<char> {
    "["@ + join_items(vs.map_values(|s: String| debug_quoted(s@))) + "]"@
}

/// How `Debug` writes a list of bytes: `[1, 2, 3]`.
pub open spec fn byte_list_debug(bs: Seq<u8>) -> Seq<char> {
    "["@ + join_items(bs.map_values(|b: u8| nat_decimal(b as nat))) + "]"@
}

/// How `Debug` writes a value, variant name first: `Integer(42)`,
/// `String("hi")`, `Array([Null, Boolean(true)])`, `Object({"k": Null})`.
pub open spec fn value_debug(v: ToolValue) -> Seq<char>
    decreases v, 2int,
{
    match v {
        ToolValue::Null => "Null"@,
        ToolValue::String(s) => "String("@ + debug_quoted(s@) + ")"@,
        ToolValue::Integer(i) => "Integer("@ + int_decimal(i as int) + ")"@,
        ToolValue::Float(t) => "Float("@ + t@ + ")"@,
        ToolValue::Boolean(b) => if b {
            "Boolean(true)"@
        } else {
            "Boolean(false)"@
        },
        ToolValue::Array(vs) => "Array(["@ + array_items_debug(vs@) + "])"@,
        ToolValue::Object(m) => {
            proof {
                crate::map::lemma_view_decreases(m);
            }
            "Object({"@ + object_items_debug(m@) + "})"@
        },
        ToolValue::Bytes(bs) => "Bytes("@ + byte_list_debug(bs@) + ")"@,
    }
}

/// The `Debug` renderings of the values, joined by `", "`.
pub open spec fn array_items_debug(vs: Seq<ToolValue>) -> Seq<char>
    decreases vs, 1int,
{
    if vs.len() == 0 {
        Seq::empty()
    } else if vs.len() == 1 {
        value_debug(vs[0])
    } else {
        proof {
            crate::map::lemma_drop_last_decreases(vs);
        }
        array_items_debug(vs.drop_last()) + ", "@ + value_debug(vs.last())
    }
}

/// Map entries written as `"key": value`, joined by `", "`.
pub open spec fn object_items_debug(es: Seq<(String, ToolValue)>) -> Seq<char>
    decreases es, 1int,
{
    if es.len() == 0 {
        Seq::empty()
    } else if es.len() == 1 {
        debug_quoted(es[0].0@) + ": "@ + value_debug(es[0].1)
    } else {
        proof {
            crate::map::lemma_drop_last_decreases(es);
        }
        object_items_debug(es.drop_last()) + ", "@ + debug_quoted(es.last().0@) + ": "@
            + value_debug(es.last().1)
    }
}

} // verus!

verus! {

/// Appends the `Debug` rendering of a value.
pub fn push_value_debug(out: &mut String, v: &ToolValue)
    ensures
        final(out)@ == old(out)@ + value_debug(*v),
    decreases v, 1int,
{
    match v {
        ToolValue::Null => push_str(out, "Null"),
        ToolValue::String(s) => {
            push_str(out, "String(");
            let q = quote_debug(s.as_str());
            push_str(out, q.as_str());
            push_str(out, ")");
        },
        ToolValue::Integer(i) => {
            push_str(out, "Integer(");
            let d = crate::text::i64_decimal(*i);
            push_str(out, d.as_str());
            push_str(out, ")");
        },
        ToolValue::Float(t) => {
            push_str(out, "Float(");
            push_str(out, t.as_str());
            push_str(out, ")");
        },
        ToolValue::Boolean(b) => {
            if *b {
                push_str(out, "Boolean(true)");
            } else {
                push_str(out, "Boolean(false)");
            }
        },
        ToolValue::Array(vs) => {
            push_str(out, "Array([");
            assert(decreases_to!(*vs => vs@));
            push_array_items(out, vs);
            push_str(out, "])");
        },
        ToolValue::Object(m) => {
            push_str(out, "Object({");
            proof {
                crate::map::lemma_view_decreases(*m);
            }
            push_object_items(out, m.entries());
            push_str(out, "})");
        },
        ToolValue::Bytes(bs) => {
            push_str(out, "Bytes(");
            push_byte_list(out, bs);
            push_str(out, ")");
        },
    }
    assert(final(out)@ =~= old(out)@ + value_debug(*v));
}

/// Appends `array_items_debug` of the values.
pub fn push_array_items(out: &mut String, vs: &Vec<ToolValue>)
    ensures
        final(out)@ == old(out)@ + array_items_debug(vs@),
    decreases vs@, 0int,
{
    let mut i: usize = 0;
    while i < vs.len()
        invariant
            0 <= i <= vs.len(),
            out@ == old(out)@ + array_items_debug(vs@.take(i as int)),
        decreases vs.len() - i,
    {
        assert(decreases_to!(vs@ => vs@[i as int]));
        let ghost before = out@;
        if i > 0 {
            push_str(out, ", ");
        }
        push_value_debug(out, &vs[i]);
        assert(vs@.take(i + 1).drop_last() =~= vs@.take(i as int));
        assert(out@ =~= old(out)@ + array_items_debug(vs@.take(i + 1)));
        i += 1;
    }
    assert(vs@.take(vs.len() as int) =~= vs@);
}

/// Appends `object_items_debug` of the entries.
pub fn push_object_items(out: &mut String, es: &Vec<(String, ToolValue)>)
    ensures
        final(out)@ == old(out)@ + object_items_debug(es@),
    decreases es@, 0int,
{
    let mut i: usize = 0;
    while i < es.len()
        invariant
            0 <= i <= es.len(),
            out@ == old(out)@ + object_items_debug(es@.take(i as int)),
        decreases es.len() - i,
    {
        assert(decreases_to!(es@ => es@[i as int]));
        assert(decreases_to!(es@[i as int] => es@[i as int].1));
        if i > 0 {
            push_str(out, ", ");
        }
        let q = quote_debug(es[i].0.as_str());
        push_str(out, q.as_str());
        push_str(out, ": ");
        push_value_debug(out, &es[i].1);
        assert(es@.take(i + 1).drop_last() =~= es@.take(i as int));
        assert(out@ =~= old(out)@ + object_items_debug(es@.take(i + 1)));
        i += 1;
    }
    assert(es@.take(es.len() as int) =~= es@);
}

/// Appends `byte_list_debug` of the bytes.
pub fn push_byte_list(out: &mut String, bs: &Vec<u8>)
    ensures
        final(out)@ == old(out)@ + byte_list_debug(bs@),
{
    push_str(out, "[");
    let ghost start = out@;
    let mut i: usize = 0;
    while i < bs.len()
        invariant
            0 <= i <= bs.len(),
            out@ == start + join_items(bs@.take(i as int).map_values(|b: u8| nat_decimal(b as nat))),
        decreases bs.len() - i,
    {
        if i > 0 {
            push_str(out, ", ");
        }
        push_decimal(out, bs[i] as u64);
        assert(bs@.take(i + 1).map_values(|b: u8| nat_decimal(b as nat)).drop_last() =~= bs@.take(
            i as int,
        ).map_values(|b: u8| nat_decimal(b as nat)));
        assert(out@ =~= start + join_items(
            bs@.take(i + 1).map_values(|b: u8| nat_decimal(b as nat)),
        ));
        i += 1;
    }
    assert(bs@.take(bs.len() as int) =~= bs@);
    push_str(out, "]");
    assert(final(out)@ =~= old(out)@ + byte_list_debug(bs@));
}

/// Appends `string_list_debug` of the strings.
pub fn push_string_list(out: &mut String, vs: &Vec<String>)
    ensures
        final(out)@ == old(out)@ + string_list_debug(vs@),
{
    push_str(out, "[");
    let ghost start = out@;
    let mut i: usize = 0;
    while i < vs.len()
        invariant
            0 <= i <= vs.len(),
            out@ == start + join_items(vs@.take(i as int).map_values(|s: String| debug_quoted(s@))),
        decreases vs.len() - i,
    {
        if i > 0 {
            push_str(out, ", ");
        }
        let q = quote_debug(vs[i].as_str());
        push_str(out, q.as_str());
        assert(vs@.take(i + 1).map_values(|s: String| debug_quoted(s@)).drop_last() =~= vs@.take(
            i as int,
        ).map_values(|s: String| debug_quoted(s@)));
        assert(out@ =~= start + join_items(
            vs@.take(i + 1).map_values(|s: String| debug_quoted(s@)),
        ));
        i += 1;
    }
    assert(vs@.take(vs.len() as int) =~= vs@);
    push_str(out, "]");
    assert(final(out)@ =~= old(out)@ + string_list_debug(vs@));
}

// ---------------------------------------------------------------------------
// Validation
// ---------------------------------------------------------------------------

/// Whether a value is acceptable for a parameter of the given type. Null is
/// always acceptable; an enum accepts a string equal to one of its variants.
pub open spec fn type_accepts(value: ToolValue, expected: ParamType) -> bool {
    match value {
        ToolValue::Null => true,
        ToolValue::String(s) => match expected {
            ParamType::String => true,
            ParamType::Enum(vs) => exists|i: int| 0 <= i < vs@.len() && vs@[i]@ == s@,
            _ => false,
        },
        ToolValue::Integer(_) => expected is Integer,
        ToolValue::Float(_) => expected is Float,
        ToolValue::Boolean(_) => expected is Boolean,
        ToolValue::Array(_) => expected is Array,
        ToolValue::Object(_) => expected is Object,
        ToolValue::Bytes(_) => false,
    }
}

/// The message for a value that a parameter does not accept.
pub open spec fn type_error_message(name: Seq<char>, value: ToolValue, expected: ParamType) -> Seq<
    char,
> {
    match (value, expected) {
        (ToolValue::String(s), ParamType::Enum(vs)) => "parameter "@ + debug_quoted(name)
            + ": value "@ + debug_quoted(s@) + " not in enum "@ + string_list_debug(vs@),
        _ => "parameter "@ + debug_quoted(name) + ": expected "@ + param_type_name(expected)
            + ", got "@ + value_debug(value),
    }
}

/// The outcome of checking one argument against its parameter's type.
pub open spec fn type_check(value: ToolValue, expected: ParamType, name: Seq<char>) -> Result<
    (),
    Seq<char>,
> {
    if type_accepts(value, expected) {
        Ok(())
    } else {
        Err(type_error_message(name, value, expected))
    }
}

/// A `Result` with its error text taken by view.
pub open spec fn result_text(r: Result<(), String>) -> Result<(), Seq<char>> {
    match r {
        Ok(_) => Ok(()),
        Err(e) => Err(e@),
    }
}

fn enum_contains(vs: &Vec<String>, s: &String) -> (r: bool)
    ensures
        r == exists|i: int| 0 <= i < vs@.len() && vs@[i]@ == s@,
{
    let mut i: usize = 0;
    while i < vs.len()
        invariant
            0 <= i <= vs.len(),
            forall|j: int| 0 <= j < i ==> vs@[j]@ != s@,
        decreases vs.len() - i,
    {
        if vs[i] == *s {
            return true;
        }
        i += 1;
    }
    false
}

/// Checks one argument value against the declared type of its parameter.
pub fn validate_type(value: &ToolValue, expected: &ParamType, name: &str) -> (r: Result<(), String>)
    ensures
        result_text(r) == type_check(*value, *expected, name@),
{
    let accepted = match value {
        ToolValue::Null => true,
        ToolValue::String(s) => match expected {
            ParamType::String => true,
            ParamType::Enum(vs) => enum_contains(vs, s),
            _ => false,
        },
        ToolValue::Integer(_) => matches!(expected, ParamType::Integer),
        ToolValue::Float(_) => matches!(expected, ParamType::Float),
        ToolValue::Boolean(_) => matches!(expected, ParamType::Boolean),
        ToolValue::Array(_) => matches!(expected, ParamType::Array(_)),
        ToolValue::Object(_) => matches!(expected, ParamType::Object),
        ToolValue::Bytes(_) => false,
    };
    if accepted {
        return Ok(());
    }
    let mut msg = String::new();
    push_str(&mut msg, "parameter ");
    let qn = quote_debug(name);
    push_str(&mut msg, qn.as_str());
    match (value, expected) {
        (ToolValue::String(s), ParamType::Enum(vs)) => {
            push_str(&mut msg, ": value ");
            let qs = quote_debug(s.as_str());
            push_str(&mut msg, qs.as_str());
            push_str(&mut msg, " not in enum ");
            push_string_list(&mut msg, vs);
        },
        _ => {
            push_str(&mut msg, ": expected ");
            push_str(&mut msg, expected.as_str());
            push_str(&mut msg, ", got ");
            push_value_debug(&mut msg, value);
        },
    }
    assert(msg@ =~= type_error_message(name@, *value, *expected));
    Err(msg)
}

} // verus!

verus! {

/// Parameter `i` is the first one named `name`.
pub open spec fn is_first_param(params: Seq<ToolParam>, name: Seq<char>, i: int) -> bool {
    &&& 0 <= i < params.len()
    &&& params[i].name@ == name
    &&& forall|j: int| 0 <= j < i ==> params[j].name@ != name
}

/// The first parameter named `name`, if any.
pub open spec fn param_named(params: Seq<ToolParam>, name: Seq<char>) -> Option<ToolParam> {
    if exists|i: int| #[trigger] is_first_param(params, name, i) {
        Some(params[choose|i: int| #[trigger] is_first_param(params, name, i)])
    } else {
        None
    }
}

/// A required parameter with no argument of its name.
pub open spec fn param_missing(p: ToolParam, args: Seq<(String, ToolValue)>) -> bool {
    p.required && !has_key(args, p.name@)
}

/// Parameter `i` is the first missing one.
pub open spec fn is_first_missing(params: Seq<ToolParam>, args: Seq<(String, ToolValue)>, i: int) -> bool {
    &&& 0 <= i < params.len()
    &&& param_missing(params[i], args)
    &&& forall|j: int| 0 <= j < i ==> !param_missing(params[j], args)
}

/// An argument that names a parameter whose type does not accept its value.
/// Arguments that name no parameter are accepted.
pub open spec fn arg_rejected(params: Seq<ToolParam>, arg: (String, ToolValue)) -> bool {
    match param_named(params, arg.0@) {
        Some(p) => !type_accepts(arg.1, p.param_type),
        None => false,
    }
}

/// Argument `j` is the first rejected one.
pub open spec fn is_first_rejected(params: Seq<ToolParam>, args: Seq<(String, ToolValue)>, j: int) -> bool {
    &&& 0 <= j < args.len()
    &&& arg_rejected(params, args[j])
    &&& forall|k: int| 0 <= k < j ==> !arg_rejected(params, args[k])
}

/// The message for a call addressed to another tool.
pub open spec fn name_mismatch_message(expected: Seq<char>, got: Seq<char>) -> Seq<char> {
    "tool name mismatch: expected "@ + debug_quoted(expected) + ", got "@ + debug_quoted(got)
}

/// The message for a required parameter with no argument.
pub open spec fn missing_param_message(name: Seq<char>) -> Seq<char> {
    "missing required parameter: "@ + debug_quoted(name)
}

/// The outcome of validating a call against a tool definition: the tool
/// names must agree; then every required parameter must have an argument
/// (the first missing one is reported); then every argument that names a
/// parameter must have a value its type accepts (the first offending
/// argument, in the call's order, is reported).
pub open spec fn validation(def: ToolDef, call: ToolCall) -> Result<(), Seq<char>> {
    let params = def.params@;
    let args = call.arguments@;
    if call.tool_name@ != def.name@ {
        Err(name_mismatch_message(def.name@, call.tool_name@))
    } else if exists|i: int| #[trigger] is_first_missing(params, args, i) {
        let i = choose|i: int| #[trigger] is_first_missing(params, args, i);
        Err(missing_param_message(params[i].name@))
    } else if exists|j: int| #[trigger] is_first_rejected(params, args, j) {
        let j = choose|j: int| #[trigger] is_first_rejected(params, args, j);
        let p = param_named(params, args[j].0@).unwrap();
        Err(type_error_message(args[j].0@, args[j].1, p.param_type))
    } else {
        Ok(())
    }
}

/// Index of the first parameter named `name`.
pub fn find_param(params: &Vec<ToolParam>, name: &str) -> (r: Option<usize>)
    ensures
        match r {
            Some(i) => is_first_param(params@, name@, i as int) && param_named(params@, name@)
                == Some(params@[i as int]),
            None => param_named(params@, name@) is None,
        },
{
    let n = name.to_owned();
    let mut i: usize = 0;
    while i < params.len()
        invariant
            0 <= i <= params.len(),
            n@ == name@,
            forall|j: int| 0 <= j < i ==> params@[j].name@ != name@,
        decreases params.len() - i,
    {
        if params[i].name == n {
            proof {
                let k = choose|k: int| is_first_param(params@, name@, k);
                assert(is_first_param(params@, name@, i as int));
                if k < i {
                    assert(params@[k].name@ != name@);
                }
                if i < k {
                    assert(params@[i as int].name@ != name@);
                }
            }
            return Some(i);
        }
        i += 1;
    }
    None
}

/// Validates a tool call against its definition.
pub fn validate_call(def: &ToolDef, call: &ToolCall) -> (r: Result<(), String>)
    ensures
        result_text(r) == validation(*def, *call),
{
    let ghost params = def.params@;
    let ghost args = call.arguments@;
    if call.tool_name != def.name {
        let mut msg = String::new();
        push_str(&mut msg, "tool name mismatch: expected ");
        let q1 = quote_debug(def.name.as_str());
        push_str(&mut msg, q1.as_str());
        push_str(&mut msg, ", got ");
        let q2 = quote_debug(call.tool_name.as_str());
        push_str(&mut msg, q2.as_str());
        assert(msg@ =~= name_mismatch_message(def.name@, call.tool_name@));
        return Err(msg);
    }
    let mut i: usize = 0;
    while i < def.params.len()
        invariant
            0 <= i <= def.params.len(),
            params == def.params@,
            args == call.arguments@,
            call.tool_name@ == def.name@,
            forall|j: int| 0 <= j < i ==> !param_missing(params[j], args),
        decreases def.params.len() - i,
    {
        let p = &def.params[i];
        if p.required && !call.arguments.contains_key(p.name.as_str()) {
            proof {
                assert(is_first_missing(params, args, i as int));
                let k = choose|k: int| is_first_missing(params, args, k);
                if k < i {
                    assert(!param_missing(params[k], args));
                }
                if i < k {
                    assert(!param_missing(params[i as int], args));
                }
            }
            let mut msg = String::new();
            push_str(&mut msg, "missing required parameter: ");
            let q = quote_debug(p.name.as_str());
            push_str(&mut msg, q.as_str());
            assert(msg@ =~= missing_param_message(p.name@));
            return Err(msg);
        }
        i += 1;
    }
    assert(!exists|k: int| is_first_missing(params, args, k));
    let es = call.arguments.entries();
    let mut j: usize = 0;
    while j < es.len()
        invariant
            0 <= j <= es.len(),
            params == def.params@,
            args == call.arguments@,
            call.tool_name@ == def.name@,
            es@ == args,
            !exists|k: int| is_first_missing(params, args, k),
            forall|k: int| 0 <= k < j ==> !arg_rejected(params, args[k]),
        decreases es.len() - j,
    {
        match find_param(&def.params, es[j].0.as_str()) {
            Some(k) => {
                let checked = validate_type(&es[j].1, &def.params[k].param_type, es[j].0.as_str());
                match checked {
                    Ok(()) => {},
                    Err(e) => {
                        proof {
                            assert(is_first_rejected(params, args, j as int));
                            let w = choose|w: int| is_first_rejected(params, args, w);
                            if w < j {
                                assert(!arg_rejected(params, args[w]));
                            }
                            if j < w {
                                assert(!arg_rejected(params, args[j as int]));
                            }
                        }
                        return Err(e);
                    },
                }
            },
            None => {},
        }
        j += 1;
    }
    assert(!exists|k: int| is_first_rejected(params, args, k));
    Ok(())
}

} // verus!

verus! {

/// From any index where `p` holds, the least such index exists.
proof fn first_index_where(p: spec_fn(int) -> bool, j: int) -> (w: int)
    requires
        0 <= j,
        p(j),
    ensures
        0 <= w <= j,
        p(w),
        forall|k: int| 0 <= k < w ==> !#[trigger] p(k),
    decreases j,
{
    if exists|k: int| 0 <= k < j && #[trigger] p(k) {
        let k = choose|k: int| 0 <= k < j && #[trigger] p(k);
        first_index_where(p, k)
    } else {
        j
    }
}

/// A call passes validation exactly when it names the tool, every required
/// parameter has an argument, and every argument that names a parameter has
/// a value the parameter's type accepts.
pub proof fn law_validation_ok_iff(def: ToolDef, call: ToolCall)
    ensures
        validation(def, call) is Ok <==> {
            &&& call.tool_name@ == def.name@
            &&& forall|i: int|
                0 <= i < def.params@.len() ==> !param_missing(
                    #[trigger] def.params@[i],
                    call.arguments@,
                )
            &&& forall|j: int|
                0 <= j < call.arguments@.len() ==> !arg_rejected(
                    def.params@,
                    #[trigger] call.arguments@[j],
                )
        },
{
    let params = def.params@;
    let args = call.arguments@;
    if exists|i: int| 0 <= i < params.len() && param_missing(params[i], args) {
        let i = choose|i: int| 0 <= i < params.len() && param_missing(params[i], args);
        let p = |k: int| 0 <= k < params.len() && param_missing(params[k], args);
        let w = first_index_where(p, i);
        assert forall|k: int| 0 <= k < w implies !param_missing(params[k], args) by {
            assert(!p(k));
        }
        assert(is_first_missing(params, args, w));
    }
    if exists|j: int| 0 <= j < args.len() && arg_rejected(params, args[j]) {
        let j = choose|j: int| 0 <= j < args.len() && arg_rejected(params, args[j]);
        let p = |k: int| 0 <= k < args.len() && arg_rejected(params, args[k]);
        let w = first_index_where(p, j);
        assert forall|k: int| 0 <= k < w implies !arg_rejected(params, args[k]) by {
            assert(!p(k));
        }
        assert(is_first_rejected(params, args, w));
    }
}

/// Null is accepted for a parameter of every type.
pub proof fn law_null_always_accepted(t: ParamType)
    ensures
        type_accepts(ToolValue::Null, t),
{
}

/// An argument that names no parameter is never rejected.
pub proof fn law_unknown_arguments_allowed(params: Seq<ToolParam>, arg: (String, ToolValue))
    requires
        forall|i: int| 0 <= i < params.len() ==> params[i].name@ != arg.0@,
    ensures
        !arg_rejected(params, arg),
{
}


/// An enum parameter accepts a string exactly when the string equals one of
/// its variants, wherever that variant stands in the list.
pub proof fn law_enum_accepts_any_listed_variant(variants: Vec<String>, s: String, i: int)
    ensures
        0 <= i < variants@.len() && variants@[i]@ == s@ ==> type_accepts(
            ToolValue::String(s),
            ParamType::Enum(variants),
        ),
        type_accepts(ToolValue::String(s), ParamType::Enum(variants)) ==> exists|k: int|
            0 <= k < variants@.len() && #[trigger] variants@[k]@ == s@,
{
    if 0 <= i < variants@.len() && variants@[i]@ == s@ {
        let v = ToolValue::String(s);
        let t = ParamType::Enum(variants);
        assert(v matches ToolValue::String(x) && x@ == s@);
        assert(t matches ParamType::Enum(ws) && ws@ == variants@);
        assert(type_accepts(v, t));
    }
}

} // verus!
