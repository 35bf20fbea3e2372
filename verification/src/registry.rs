//! Tool and resource registry with discovery.

use vstd::prelude::*;

use crate::resource::{ResourceContent, ResourceDef};
use crate::text::{debug_quoted, push_str, quote_debug, str_eq};
use crate::tool::{
    result_text, validate_call, validation, ToolCall, ToolDef, ToolResult, ToolStatus, ToolValue,
};

verus! {

#[verifier::external_type_specification]
#[verifier::external_body]
pub struct ExInstant(std::time::Instant);

/// `std::time::Instant::now`. Nothing is claimed of the instant returned.
#[verifier::external_body]
fn clock_now() -> std::time::Instant {
    std::time::Instant::now()
}

/// `std::time::Instant::elapsed`. Nothing is claimed of the duration returned.
#[verifier::external_body]
fn time_since(start: &std::time::Instant) -> std::time::Duration {
    start.elapsed()
}

/// `std::time::Duration::as_millis`. Nothing is claimed of the number returned.
#[verifier::external_body]
fn whole_millis(d: &std::time::Duration) -> u128 {
    d.as_millis()
}

/// Registry of tools and resources, each with its handler: a tool handler
/// (`T`) answers a call, a resource handler (`R`) reads a URI.
pub struct Registry<T, R> {
    tools: Vec<(ToolDef, T)>,
    resources: Vec<(ResourceDef, R)>,
}

/// Entry `i` is the tool named `name`.
pub open spec fn tool_at<T>(es: Seq<(ToolDef, T)>, name: Seq<char>, i: int) -> bool {
    0 <= i < es.len() && es[i].0.name@ == name
}

/// Some entry is the tool named `name`.
pub open spec fn has_tool<T>(es: Seq<(ToolDef, T)>, name: Seq<char>) -> bool {
    exists|i: int| #[trigger] tool_at(es, name, i)
}

/// The position of the tool named `name` (meaningful when `has_tool`).
pub open spec fn tool_position<T>(es: Seq<(ToolDef, T)>, name: Seq<char>) -> int {
    choose|i: int| #[trigger] tool_at(es, name, i)
}

/// Entry `i` is the resource at `uri`.
pub open spec fn resource_at<R>(es: Seq<(ResourceDef, R)>, uri: Seq<char>, i: int) -> bool {
    0 <= i < es.len() && es[i].0.uri@ == uri
}

/// Some entry is the resource at `uri`.
pub open spec fn has_resource<R>(es: Seq<(ResourceDef, R)>, uri: Seq<char>) -> bool {
    exists|i: int| #[trigger] resource_at(es, uri, i)
}

/// The position of the resource at `uri` (meaningful when `has_resource`).
pub open spec fn resource_position<R>(es: Seq<(ResourceDef, R)>, uri: Seq<char>) -> int {
    choose|i: int| #[trigger] resource_at(es, uri, i)
}

/// The definitions of the tools carrying `tag`, in registration order.
pub open spec fn tagged_defs<T>(es: Seq<(ToolDef, T)>, tag: Seq<char>) -> Seq<ToolDef>
    decreases es.len(),
{
    if es.len() == 0 {
        Seq::empty()
    } else {
        let rest = tagged_defs(es.drop_last(), tag);
        if exists|k: int| 0 <= k < es.last().0.tags@.len() && es.last().0.tags@[k]@ == tag {
            rest.push(es.last().0)
        } else {
            rest
        }
    }
}

/// The tool entries after registering `def` with `handler`: an entry of the
/// same name is replaced in place, otherwise the new entry comes last.
pub open spec fn tools_after_register<T>(es: Seq<(ToolDef, T)>, def: ToolDef, handler: T) -> Seq<
    (ToolDef, T),
> {
    if has_tool(es, def.name@) {
        es.update(tool_position(es, def.name@), (def, handler))
    } else {
        es.push((def, handler))
    }
}

/// The resource entries after registering `def` with `handler`: an entry at
/// the same URI is replaced in place, otherwise the new entry comes last.
pub open spec fn resources_after_register<R>(
    es: Seq<(ResourceDef, R)>,
    def: ResourceDef,
    handler: R,
) -> Seq<(ResourceDef, R)> {
    if has_resource(es, def.uri@) {
        es.update(resource_position(es, def.uri@), (def, handler))
    } else {
        es.push((def, handler))
    }
}

/// No two tool entries share a name.
pub open spec fn tool_names_distinct<T>(es: Seq<(ToolDef, T)>) -> bool {
    forall|i: int, j: int| 0 <= i < j < es.len() ==> es[i].0.name@ != es[j].0.name@
}

/// The message for a call to a tool that is not registered.
pub open spec fn tool_not_found_message(name: Seq<char>) -> Seq<char> {
    "tool not found: "@ + debug_quoted(name)
}

/// The message for a call to a tool that the caller may not use.
pub open spec fn capability_denied_message(name: Seq<char>) -> Seq<char> {
    "capability denied: "@ + debug_quoted(name)
}

/// A list of tool names holds `name` or `*`.
pub open spec fn names_allow(list: Seq<&str>, name: Seq<char>) -> bool {
    exists|i: int| 0 <= i < list.len() && (#[trigger] list[i]@ == name || list[i]@ == "*"@)
}

/// An allow-list lets calls to `name` through: no list at all, or a list
/// holding the name or `*`.
pub open spec fn allows(allowed: Option<&[&str]>, name: Seq<char>) -> bool {
    match allowed {
        None => true,
        Some(list) => names_allow(list@, name),
    }
}

fn list_allows(list: &[&str], name: &str) -> (r: bool)
    ensures
        r == allows(Some(list), name@),
{
    let mut i: usize = 0;
    while i < list.len()
        invariant
            0 <= i <= list.len(),
            forall|j: int| 0 <= j < i ==> list@[j]@ != name@ && list@[j]@ != "*"@,
        decreases list.len() - i,
    {
        if str_eq(list[i], name) || str_eq(list[i], "*") {
            assert(list@[i as int]@ == name@ || list@[i as int]@ == "*"@);
            assert(names_allow(list@, name@));
            return true;
        }
        i += 1;
    }
    false
}

/// An error result for `call` with message `msg`, no output, no token count
/// and no latency.
pub open spec fn is_error_result(r: ToolResult, call: ToolCall, msg: Seq<char>) -> bool {
    &&& r.call_id == call.call_id
    &&& r.status == ToolStatus::Error
    &&& r.output == ToolValue::Null
    &&& r.error is Some
    &&& r.error.unwrap()@ == msg
    &&& r.tokens_used is None
    &&& r.latency_ms is None
}

/// `r` is `raw` with its latency set to `ms` milliseconds, cut to 64 bits.
pub open spec fn with_latency(r: ToolResult, raw: ToolResult, ms: u128) -> bool {
    r == (ToolResult { latency_ms: Some(ms as u64), ..raw })
}

/// `raw` with its latency set to `ms` milliseconds, cut to 64 bits.
pub fn set_latency(raw: ToolResult, ms: u128) -> (r: ToolResult)
    ensures
        with_latency(r, raw, ms),
{
    let mut r = raw;
    r.latency_ms = Some(ms as u64);
    r
}

impl<T, R> Registry<T, R> {
    /// The tool entries, in registration order.
    pub closed spec fn tool_entries(&self) -> Seq<(ToolDef, T)> {
        self.tools@
    }

    /// The resource entries, in registration order.
    pub closed spec fn resource_entries(&self) -> Seq<(ResourceDef, R)> {
        self.resources@
    }

    /// No two tools share a name and no two resources share a URI.
    pub open spec fn wf(&self) -> bool {
        &&& tool_names_distinct(self.tool_entries())
        &&& forall|i: int, j: int|
            0 <= i < j < self.resource_entries().len() ==> self.resource_entries()[i].0.uri@
                != self.resource_entries()[j].0.uri@
    }

    /// An empty registry.
    pub fn new() -> (r: Self)
        ensures
            r.wf(),
            r.tool_entries().len() == 0,
            r.resource_entries().len() == 0,
    {
        Registry { tools: Vec::new(), resources: Vec::new() }
    }

    fn tool_index(&self, name: &str) -> (r: Option<usize>)
        requires
            self.wf(),
        ensures
            match r {
                Some(i) => tool_at(self.tool_entries(), name@, i as int) && tool_position(
                    self.tool_entries(),
                    name@,
                ) == i,
                None => !has_tool(self.tool_entries(), name@),
            },
    {
        let n = name.to_owned();
        let mut i: usize = 0;
        while i < self.tools.len()
            invariant
                0 <= i <= self.tools.len(),
                n@ == name@,
                self.wf(),
                forall|j: int| 0 <= j < i ==> self.tools@[j].0.name@ != name@,
            decreases self.tools.len() - i,
        {
            if self.tools[i].0.name == n {
                proof {
                    assert(tool_at(self.tool_entries(), name@, i as int));
                    let k = tool_position(self.tool_entries(), name@);
                    assert(tool_at(self.tool_entries(), name@, k));
                    if k != i {
                        if k < i {
                            assert(self.tools@[k].0.name@ != self.tools@[i as int].0.name@);
                        } else {
                            assert(self.tools@[i as int].0.name@ != self.tools@[k].0.name@);
                        }
                    }
                }
                return Some(i);
            }
            i += 1;
        }
        None
    }

    fn resource_index(&self, uri: &str) -> (r: Option<usize>)
        requires
            self.wf(),
        ensures
            match r {
                Some(i) => resource_at(self.resource_entries(), uri@, i as int) && resource_position(
                    self.resource_entries(),
                    uri@,
                ) == i,
                None => !has_resource(self.resource_entries(), uri@),
            },
    {
        let n = uri.to_owned();
        let mut i: usize = 0;
        while i < self.resources.len()
            invariant
                0 <= i <= self.resources.len(),
                n@ == uri@,
                self.wf(),
                forall|j: int| 0 <= j < i ==> self.resources@[j].0.uri@ != uri@,
            decreases self.resources.len() - i,
        {
            if self.resources[i].0.uri == n {
                proof {
                    assert(resource_at(self.resource_entries(), uri@, i as int));
                    let k = resource_position(self.resource_entries(), uri@);
                    assert(resource_at(self.resource_entries(), uri@, k));
                    if k != i {
                        if k < i {
                            assert(self.resources@[k].0.uri@ != self.resources@[i as int].0.uri@);
                        } else {
                            assert(self.resources@[i as int].0.uri@ != self.resources@[k].0.uri@);
                        }
                    }
                }
                return Some(i);
            }
            i += 1;
        }
        None
    }

    /// Registers a tool with its handler, replacing any tool of the same name
    /// in its place.
    pub fn register_tool(&mut self, def: ToolDef, handler: T)
        requires
            old(self).wf(),
        ensures
            final(self).wf(),
            final(self).tool_entries() == tools_after_register(old(self).tool_entries(), def, handler),
            final(self).resource_entries() == old(self).resource_entries(),
    {
        let ghost name = def.name@;
        match self.tool_index(def.name.as_str()) {
            Some(i) => {
                let _ = self.tools.remove(i);
                self.tools.insert(i, (def, handler));
                assert(self.tools@ =~= old(self).tools@.update(i as int, (def, handler)));
            },
            None => {
                self.tools.push((def, handler));
                assert forall|j: int| 0 <= j < old(self).tools@.len() implies old(self).tools@[j].0.name@
                    != name by {
                    if old(self).tools@[j].0.name@ == name {
                        assert(tool_at(old(self).tool_entries(), name, j));
                    }
                }
            },
        }
    }

    /// Registers a resource with its handler, replacing any resource at the
    /// same URI in its place.
    pub fn register_resource(&mut self, def: ResourceDef, handler: R)
        requires
            old(self).wf(),
        ensures
            final(self).wf(),
            final(self).resource_entries() == resources_after_register(
                old(self).resource_entries(),
                def,
                handler,
            ),
            final(self).tool_entries() == old(self).tool_entries(),
    {
        let ghost uri = def.uri@;
        match self.resource_index(def.uri.as_str()) {
            Some(i) => {
                let _ = self.resources.remove(i);
                self.resources.insert(i, (def, handler));
                assert(self.resources@ =~= old(self).resources@.update(i as int, (def, handler)));
            },
            None => {
                self.resources.push((def, handler));
                assert forall|j: int|
                    0 <= j < old(self).resources@.len() implies old(self).resources@[j].0.uri@
                    != uri by {
                    if old(self).resources@[j].0.uri@ == uri {
                        assert(resource_at(old(self).resource_entries(), uri, j));
                    }
                }
            },
        }
    }

    /// All registered tool definitions, in registration order.
    pub fn list_tools(&self) -> (r: Vec<&ToolDef>)
        ensures
            r@.len() == self.tool_entries().len(),
            forall|i: int| 0 <= i < r@.len() ==> *r@[i] == self.tool_entries()[i].0,
    {
        let mut r: Vec<&ToolDef> = Vec::new();
        let mut i: usize = 0;
        while i < self.tools.len()
            invariant
                0 <= i <= self.tools.len(),
                r@.len() == i,
                forall|j: int| 0 <= j < i ==> *r@[j] == self.tools@[j].0,
            decreases self.tools.len() - i,
        {
            r.push(&self.tools[i].0);
            i += 1;
        }
        r
    }

    /// All registered resource definitions, in registration order.
    pub fn list_resources(&self) -> (r: Vec<&ResourceDef>)
        ensures
            r@.len() == self.resource_entries().len(),
            forall|i: int| 0 <= i < r@.len() ==> *r@[i] == self.resource_entries()[i].0,
    {
        let mut r: Vec<&ResourceDef> = Vec::new();
        let mut i: usize = 0;
        while i < self.resources.len()
            invariant
                0 <= i <= self.resources.len(),
                r@.len() == i,
                forall|j: int| 0 <= j < i ==> *r@[j] == self.resources@[j].0,
            decreases self.resources.len() - i,
        {
            r.push(&self.resources[i].0);
            i += 1;
        }
        r
    }

    /// The definition of the tool named `name`.
    pub fn get_tool(&self, name: &str) -> (r: Option<&ToolDef>)
        requires
            self.wf(),
        ensures
            has_tool(self.tool_entries(), name@) ==> r is Some && *r.unwrap()
                == self.tool_entries()[tool_position(self.tool_entries(), name@)].0,
            !has_tool(self.tool_entries(), name@) ==> r is None,
    {
        match self.tool_index(name) {
            Some(i) => Some(&self.tools[i].0),
            None => None,
        }
    }

    /// The definition of the resource at `uri`.
    pub fn get_resource(&self, uri: &str) -> (r: Option<&ResourceDef>)
        requires
            self.wf(),
        ensures
            has_resource(self.resource_entries(), uri@) ==> r is Some && *r.unwrap()
                == self.resource_entries()[resource_position(self.resource_entries(), uri@)].0,
            !has_resource(self.resource_entries(), uri@) ==> r is None,
    {
        match self.resource_index(uri) {
            Some(i) => Some(&self.resources[i].0),
            None => None,
        }
    }

    /// The definitions of the tools carrying `tag`, in registration order.
    pub fn find_tools_by_tag(&self, tag: &str) -> (r: Vec<&ToolDef>)
        ensures
            r@.map_values(|d: &ToolDef| *d) == tagged_defs(self.tool_entries(), tag@),
    {
        let t = tag.to_owned();
        let mut r: Vec<&ToolDef> = Vec::new();
        let mut i: usize = 0;
        while i < self.tools.len()
            invariant
                0 <= i <= self.tools.len(),
                t@ == tag@,
                r@.map_values(|d: &ToolDef| *d) == tagged_defs(self.tools@.take(i as int), tag@),
            decreases self.tools.len() - i,
        {
            let def = &self.tools[i].0;
            let mut found = false;
            let mut k: usize = 0;
            while k < def.tags.len()
                invariant
                    0 <= k <= def.tags.len(),
                    t@ == tag@,
                    found == exists|m: int| 0 <= m < k && def.tags@[m]@ == tag@,
                decreases def.tags.len() - k,
            {
                if def.tags[k] == t {
                    found = true;
                }
                k += 1;
            }
            assert(self.tools@.take(i + 1).drop_last() =~= self.tools@.take(i as int));
            assert(self.tools@.take(i + 1).last() == self.tools@[i as int]);
            if found {
                r.push(def);
            }
            assert(r@.map_values(|d: &ToolDef| *d) =~= tagged_defs(
                self.tools@.take(i + 1),
                tag@,
            ));
            i += 1;
        }
        assert(self.tools@.take(self.tools.len() as int) =~= self.tools@);
        r
    }

    /// Number of registered tools.
    pub fn tool_count(&self) -> (n: usize)
        ensures
            n == self.tool_entries().len(),
    {
        self.tools.len()
    }

    /// Number of registered resources.
    pub fn resource_count(&self) -> (n: usize)
        ensures
            n == self.resource_entries().len(),
    {
        self.resources.len()
    }
}

/// An error result for `call` carrying `message`.
fn error_result(call: &ToolCall, message: String) -> (r: ToolResult)
    ensures
        is_error_result(r, *call, message@),
{
    ToolResult {
        call_id: call.call_id.clone(),
        status: ToolStatus::Error,
        output: ToolValue::Null,
        error: Some(message),
        tokens_used: None,
        latency_ms: None,
    }
}

impl<T: Fn(&ToolCall) -> ToolResult, R: Fn(&str) -> Option<ResourceContent>> Registry<T, R> {
    /// Every handler accepts every call: tool handlers any tool call,
    /// resource handlers any URI.
    pub open spec fn handlers_total(&self) -> bool {
        &&& forall|call: ToolCall| #[trigger] self.tool_handlers_accept(call)
        &&& forall|uri: &str| #[trigger] self.resource_handlers_accept(uri)
    }
}

impl<T: Fn(&ToolCall) -> ToolResult, R> Registry<T, R> {
    /// Every tool handler accepts `call`.
    pub open spec fn tool_handlers_accept(&self, call: ToolCall) -> bool {
        forall|i: int|
            0 <= i < self.tool_entries().len() ==> call_requires(
                #[trigger] self.tool_entries()[i].1,
                (&call,),
            )
    }

    /// What invoking `call` may give: for an unknown tool name, an error
    /// result saying so; for a call that fails validation against the tool's
    /// definition, an error result with the validation message; otherwise a
    /// result the tool's handler may give, with a count of milliseconds (read
    /// from the clock) filled in as its latency.
    pub open spec fn invoke_outcome(&self, call: ToolCall, r: ToolResult) -> bool {
        if !has_tool(self.tool_entries(), call.tool_name@) {
            is_error_result(r, call, tool_not_found_message(call.tool_name@))
        } else {
            let entry = self.tool_entries()[tool_position(self.tool_entries(), call.tool_name@)];
            match validation(entry.0, call) {
                Err(e) => is_error_result(r, call, e),
                Ok(_) => exists|raw: ToolResult, ms: u128|
                    call_ensures(entry.1, (&call,), raw) && #[trigger] with_latency(r, raw, ms),
            }
        }
    }

    /// Invokes a tool: an unknown tool name, or a call that fails validation
    /// against the tool's definition, gives an error result; otherwise the
    /// tool's handler answers, and its result is returned with the handler's
    /// running time filled in as the latency.
    pub fn invoke(&self, call: &ToolCall) -> (r: ToolResult)
        requires
            self.wf(),
            self.tool_handlers_accept(*call),
        ensures
            self.invoke_outcome(*call, r),
    {
        let i = match self.tool_index(call.tool_name.as_str()) {
            Some(i) => i,
            None => {
                let mut msg = String::new();
                push_str(&mut msg, "tool not found: ");
                let q = quote_debug(call.tool_name.as_str());
                push_str(&mut msg, q.as_str());
                assert(msg@ =~= tool_not_found_message(call.tool_name@));
                return error_result(call, msg);
            },
        };
        let entry = &self.tools[i];
        match validate_call(&entry.0, call) {
            Err(e) => {
                return error_result(call, e);
            },
            Ok(()) => {},
        }
        let start = clock_now();
        let handler = &entry.1;
        assert(call_requires(self.tool_entries()[i as int].1, (call,)));
        let raw = handler(call);
        let elapsed = time_since(&start);
        let ms = whole_millis(&elapsed);
        let result = set_latency(raw, ms);
        assert(with_latency(result, raw, ms));
        result
    }
}

impl<T: Fn(&ToolCall) -> ToolResult, R> Registry<T, R> {
    /// Invokes a tool if the allow-list lets calls to it through (no list, or
    /// a list naming the tool or `*`), as `invoke` does; otherwise gives an
    /// error result saying the capability is denied.
    pub fn invoke_checked(&self, call: &ToolCall, allowed: Option<&[&str]>) -> (r: ToolResult)
        requires
            self.wf(),
            self.tool_handlers_accept(*call),
        ensures
            allows(allowed, call.tool_name@) ==> self.invoke_outcome(*call, r),
            !allows(allowed, call.tool_name@) ==> is_error_result(
                r,
                *call,
                capability_denied_message(call.tool_name@),
            ),
    {
        if let Some(list) = allowed {
            if !list_allows(list, call.tool_name.as_str()) {
                let mut msg = String::new();
                push_str(&mut msg, "capability denied: ");
                let q = quote_debug(call.tool_name.as_str());
                push_str(&mut msg, q.as_str());
                assert(msg@ =~= capability_denied_message(call.tool_name@));
                return error_result(call, msg);
            }
        }
        self.invoke(call)
    }
}

impl<T, R: Fn(&str) -> Option<ResourceContent>> Registry<T, R> {
    /// Every resource handler accepts `uri`.
    pub open spec fn resource_handlers_accept(&self, uri: &str) -> bool {
        forall|i: int|
            0 <= i < self.resource_entries().len() ==> call_requires(
                #[trigger] self.resource_entries()[i].1,
                (uri,),
            )
    }

    /// What reading `uri` may give: nothing for an unknown URI, otherwise
    /// what the resource's handler may give.
    pub open spec fn read_outcome(&self, uri: &str, r: Option<ResourceContent>) -> bool {
        if !has_resource(self.resource_entries(), uri@) {
            r is None
        } else {
            call_ensures(
                self.resource_entries()[resource_position(self.resource_entries(), uri@)].1,
                (uri,),
                r,
            )
        }
    }

    /// Reads a resource: nothing for an unknown URI, otherwise what the
    /// resource's handler answers.
    pub fn read_resource(&self, uri: &str) -> (r: Option<ResourceContent>)
        requires
            self.wf(),
            self.resource_handlers_accept(uri),
        ensures
            self.read_outcome(uri, r),
    {
        match self.resource_index(uri) {
            Some(i) => {
                let handler = &self.resources[i].1;
                assert(call_requires(self.resource_entries()[i as int].1, (uri,)));
                handler(uri)
            },
            None => None,
        }
    }
}

/// A tool's position is the one entry with its name, when names are distinct.
pub proof fn lemma_tool_position<T>(es: Seq<(ToolDef, T)>, name: Seq<char>, i: int)
    requires
        tool_names_distinct(es),
        tool_at(es, name, i),
    ensures
        has_tool(es, name),
        tool_position(es, name) == i,
{
    let k = tool_position(es, name);
    assert(tool_at(es, name, k));
    if k < i {
        assert(es[k].0.name@ != es[i].0.name@);
    }
    if i < k {
        assert(es[i].0.name@ != es[k].0.name@);
    }
}

/// After registering a tool, looking its name up finds the new definition
/// and handler; every other name finds what it found before; the number of
/// tools grows by one exactly when the name was new; names stay distinct.
pub proof fn law_register_then_get<T>(es: Seq<(ToolDef, T)>, def: ToolDef, handler: T, other: Seq<char>)
    requires
        tool_names_distinct(es),
    ensures
        tool_names_distinct(tools_after_register(es, def, handler)),
        has_tool(tools_after_register(es, def, handler), def.name@),
        tools_after_register(es, def, handler)[tool_position(
            tools_after_register(es, def, handler),
            def.name@,
        )] == (def, handler),
        tools_after_register(es, def, handler).len() == if has_tool(es, def.name@) {
            es.len()
        } else {
            es.len() + 1
        },
        other != def.name@ ==> (has_tool(tools_after_register(es, def, handler), other) == has_tool(
            es,
            other,
        )),
        other != def.name@ && has_tool(es, other) ==> tools_after_register(es, def, handler)[tool_position(
            tools_after_register(es, def, handler),
            other,
        )] == es[tool_position(es, other)],
{
    let n = tools_after_register(es, def, handler);
    let name = def.name@;
    let p = if has_tool(es, name) {
        let k = tool_position(es, name);
        assert(tool_at(es, name, k));
        k
    } else {
        assert forall|j: int| 0 <= j < es.len() implies es[j].0.name@ != name by {
            if es[j].0.name@ == name {
                assert(tool_at(es, name, j));
            }
        }
        es.len() as int
    };
    assert(n[p] == (def, handler));
    assert(tool_names_distinct(n)) by {
        assert forall|i: int, j: int| 0 <= i < j < n.len() implies n[i].0.name@ != n[j].0.name@ by {
            if i == p {
                if has_tool(es, name) {
                    assert(es[j].0.name@ != es[p].0.name@);
                }
            } else if j == p {
                if has_tool(es, name) {
                    assert(es[i].0.name@ != es[p].0.name@);
                }
            }
        }
    }
    assert(tool_at(n, name, p));
    lemma_tool_position(n, name, p);
    if other != name {
        if has_tool(es, other) {
            let k = tool_position(es, other);
            assert(tool_at(es, other, k));
            assert(k != p);
            assert(tool_at(n, other, k));
            lemma_tool_position(n, other, k);
        } else {
            if has_tool(n, other) {
                let k = tool_position(n, other);
                assert(tool_at(n, other, k));
                assert(k != p);
                assert(tool_at(es, other, k));
            }
        }
    }
}

/// The tag search finds exactly the registered definitions that carry the
/// tag: each definition it returns is registered and has the tag, and each
/// registered definition with the tag is among those it returns.
pub proof fn law_tag_search_exact<T>(es: Seq<(ToolDef, T)>, tag: Seq<char>)
    ensures
        forall|i: int|
            0 <= i < tagged_defs(es, tag).len() ==> (exists|j: int|
                0 <= j < es.len() && es[j].0 == #[trigger] tagged_defs(es, tag)[i]) && (exists|k: int|
                0 <= k < tagged_defs(es, tag)[i].tags@.len() && tagged_defs(es, tag)[i].tags@[k]@
                    == tag),
        forall|j: int|
            0 <= j < es.len() && (exists|k: int| 0 <= k < es[j].0.tags@.len() && es[j].0.tags@[k]@ == tag)
                ==> tagged_defs(es, tag).contains(#[trigger] es[j].0),
    decreases es.len(),
{
    if es.len() > 0 {
        let rest = es.drop_last();
        law_tag_search_exact(rest, tag);
        let t = tagged_defs(es, tag);
        let tr = tagged_defs(rest, tag);
        assert forall|i: int| 0 <= i < t.len() implies (exists|j: int|
            0 <= j < es.len() && es[j].0 == #[trigger] t[i]) && (exists|k: int|
            0 <= k < t[i].tags@.len() && t[i].tags@[k]@ == tag) by {
            if i < tr.len() {
                assert(t[i] == tr[i]);
                let j = choose|j: int| 0 <= j < rest.len() && rest[j].0 == tr[i];
                assert(es[j] == rest[j]);
            } else {
                assert(t[i] == es.last().0);
                assert(es[es.len() - 1].0 == t[i]);
            }
        }
        assert forall|j: int|
            0 <= j < es.len() && (exists|k: int| 0 <= k < es[j].0.tags@.len() && es[j].0.tags@[k]@ == tag)
                implies t.contains(#[trigger] es[j].0) by {
            if j < es.len() - 1 {
                assert(rest[j] == es[j]);
                assert(tr.contains(rest[j].0));
                let w = choose|w: int| 0 <= w < tr.len() && tr[w] == rest[j].0;
                assert(t[w] == tr[w]);
            } else {
                assert(t[t.len() - 1] == es[j].0);
            }
        }
    }
}


/// An allow-list lets a call through when any of its entries, at any
/// position, is the tool's name or `*`; it refuses only when none is.
pub proof fn law_allow_list_checks_every_entry(list: &[&str], name: Seq<char>, i: int)
    ensures
        0 <= i < list@.len() && (list@[i]@ == name || list@[i]@ == "*"@) ==> allows(Some(list), name),
        !allows(Some(list), name) ==> forall|k: int|
            0 <= k < list@.len() ==> #[trigger] list@[k]@ != name && list@[k]@ != "*"@,
        allows(None, name),
{
}

} // verus!
