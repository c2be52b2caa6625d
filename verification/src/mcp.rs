//! The decisions of the MCP (JSON-RPC) endpoint: which method a message
//! calls, and which tool a tool call names.
use crate::text::{concat, str_eq};
use vstd::prelude::*;

verus! {

/// What a JSON-RPC message asks for.
#[derive(Debug, Clone, Copy, PartialEq, Eq, Structural)]
pub enum McpMethod {
    Initialize,
    Ping,
    ToolsList,
    ToolsCall,
    /// A notification: no answer is sent.
    Notification,
    /// An unknown method: answered with a JSON-RPC error.
    NotFound,
}

/// The method of a message: a message without an id is a notification, and
/// so is `notifications/initialized`.
pub open spec fn classify_message_spec(method: Seq<char>, has_id: bool) -> McpMethod {
    if !has_id {
        McpMethod::Notification
    } else if method == "initialize"@ {
        McpMethod::Initialize
    } else if method == "ping"@ {
        McpMethod::Ping
    } else if method == "tools/list"@ {
        McpMethod::ToolsList
    } else if method == "tools/call"@ {
        McpMethod::ToolsCall
    } else if method == "notifications/initialized"@ {
        McpMethod::Notification
    } else {
        McpMethod::NotFound
    }
}

/// The method of a message.
pub fn classify_message(method: &str, has_id: bool) -> (r: McpMethod)
    ensures
        r == classify_message_spec(method@, has_id),
{
    if !has_id {
        McpMethod::Notification
    } else if str_eq(method, "initialize") {
        McpMethod::Initialize
    } else if str_eq(method, "ping") {
        McpMethod::Ping
    } else if str_eq(method, "tools/list") {
        McpMethod::ToolsList
    } else if str_eq(method, "tools/call") {
        McpMethod::ToolsCall
    } else if str_eq(method, "notifications/initialized") {
        McpMethod::Notification
    } else {
        McpMethod::NotFound
    }
}

/// The JSON-RPC error text for an unknown method.
pub fn method_not_found_message(method: &str) -> (r: String)
    ensures
        r@ == "method not found: "@ + method@,
{
    concat("method not found: ", method)
}

/// A tool the MCP endpoint offers.
#[derive(Debug, Clone, Copy, PartialEq, Eq, Structural)]
pub enum ToolKind {
    Schema,
    Facets,
    Search,
    Get,
    Context,
}

impl ToolKind {
    /// The tool's name.
    pub open spec fn name_spec(self) -> Seq<char> {
        match self {
            ToolKind::Schema => "logs_schema"@,
            ToolKind::Facets => "logs_facets"@,
            ToolKind::Search => "logs_search"@,
            ToolKind::Get => "logs_get"@,
            ToolKind::Context => "logs_context"@,
        }
    }

    /// The tool's name.
    pub fn name(self) -> (r: &'static str)
        ensures
            r@ == self.name_spec(),
    {
        match self {
            ToolKind::Schema => "logs_schema",
            ToolKind::Facets => "logs_facets",
            ToolKind::Search => "logs_search",
            ToolKind::Get => "logs_get",
            ToolKind::Context => "logs_context",
        }
    }

    /// What the tool is for, as shown to MCP clients.
    pub open spec fn description_spec(self) -> Seq<char> {
        match self {
            ToolKind::Schema => "Describe log fields, filters, and the recommended query loop for investigating logs across machines."@,
            ToolKind::Facets => "Return top counts for host/container/image/stream/agent_id under optional filters. Call this first to narrow scope from a natural-language question."@,
            ToolKind::Search => "Search logs with structured filters and/or keyword text (and optional semantic_query). Returns compact truncated messages. Use after facets."@,
            ToolKind::Get => "Fetch a single log event by id, including raw payload."@,
            ToolKind::Context => "Fetch surrounding log lines for an event (same container or trace). Use after finding an interesting hit."@,
        }
    }

    /// What the tool is for, as shown to MCP clients.
    pub fn description(self) -> (r: &'static str)
        ensures
            r@ == self.description_spec(),
    {
        match self {
            ToolKind::Schema => "Describe log fields, filters, and the recommended query loop for investigating logs across machines.",
            ToolKind::Facets => "Return top counts for host/container/image/stream/agent_id under optional filters. Call this first to narrow scope from a natural-language question.",
            ToolKind::Search => "Search logs with structured filters and/or keyword text (and optional semantic_query). Returns compact truncated messages. Use after facets.",
            ToolKind::Get => "Fetch a single log event by id, including raw payload.",
            ToolKind::Context => "Fetch surrounding log lines for an event (same container or trace). Use after finding an interesting hit.",
        }
    }
}

impl ToolKind {
    /// The JSON Schema of the tool's arguments: an object; `logs_get` and
    /// `logs_context` require an `id`.
    pub open spec fn input_schema_spec(self) -> Seq<char> {
        match self {
            ToolKind::Schema => "{\"type\":\"object\",\"properties\":{}}"@,
            ToolKind::Facets => "{\"type\":\"object\",\"properties\":{\"filters\":{\"type\":\"object\",\"description\":\"since, last_minutes, ts_from, ts_to, hosts, containers, streams, agent_ids, trace_id, request_id, label_equals\"}}}"@,
            ToolKind::Search => "{\"type\":\"object\",\"properties\":{\"filters\":{\"type\":\"object\"},\"text\":{\"type\":\"string\",\"description\":\"Keyword/full-text query derived from the user question\"},\"semantic_query\":{\"type\":\"string\",\"description\":\"Natural language semantic search when embeddings are configured\"},\"limit\":{\"type\":\"integer\"},\"cursor\":{\"type\":\"string\"}}}"@,
            ToolKind::Get => "{\"type\":\"object\",\"properties\":{\"id\":{\"type\":\"string\"}},\"required\":[\"id\"]}"@,
            ToolKind::Context => "{\"type\":\"object\",\"properties\":{\"id\":{\"type\":\"string\"},\"before\":{\"type\":\"integer\"},\"after\":{\"type\":\"integer\"}},\"required\":[\"id\"]}"@,
        }
    }

    /// The JSON Schema of the tool's arguments, as JSON text.
    pub fn input_schema(self) -> (r: &'static str)
        ensures
            r@ == self.input_schema_spec(),
    {
        match self {
            ToolKind::Schema => "{\"type\":\"object\",\"properties\":{}}",
            ToolKind::Facets => "{\"type\":\"object\",\"properties\":{\"filters\":{\"type\":\"object\",\"description\":\"since, last_minutes, ts_from, ts_to, hosts, containers, streams, agent_ids, trace_id, request_id, label_equals\"}}}",
            ToolKind::Search => "{\"type\":\"object\",\"properties\":{\"filters\":{\"type\":\"object\"},\"text\":{\"type\":\"string\",\"description\":\"Keyword/full-text query derived from the user question\"},\"semantic_query\":{\"type\":\"string\",\"description\":\"Natural language semantic search when embeddings are configured\"},\"limit\":{\"type\":\"integer\"},\"cursor\":{\"type\":\"string\"}}}",
            ToolKind::Get => "{\"type\":\"object\",\"properties\":{\"id\":{\"type\":\"string\"}},\"required\":[\"id\"]}",
            ToolKind::Context => "{\"type\":\"object\",\"properties\":{\"id\":{\"type\":\"string\"},\"before\":{\"type\":\"integer\"},\"after\":{\"type\":\"integer\"}},\"required\":[\"id\"]}",
        }
    }
}

/// The tools in the order they are listed.
pub open spec fn tool_order() -> Seq<ToolKind> {
    seq![ToolKind::Schema, ToolKind::Facets, ToolKind::Search, ToolKind::Get, ToolKind::Context]
}

/// The tools in the order they are listed.
pub fn tool_kinds() -> (r: Vec<ToolKind>)
    ensures
        r@ == tool_order(),
{
    let mut v = Vec::new();
    v.push(ToolKind::Schema);
    v.push(ToolKind::Facets);
    v.push(ToolKind::Search);
    v.push(ToolKind::Get);
    v.push(ToolKind::Context);
    assert(v@ =~= tool_order());
    v
}

/// The tool a name calls, if any.
pub open spec fn classify_tool_spec(name: Seq<char>) -> Option<ToolKind> {
    if name == "logs_schema"@ {
        Some(ToolKind::Schema)
    } else if name == "logs_facets"@ {
        Some(ToolKind::Facets)
    } else if name == "logs_search"@ {
        Some(ToolKind::Search)
    } else if name == "logs_get"@ {
        Some(ToolKind::Get)
    } else if name == "logs_context"@ {
        Some(ToolKind::Context)
    } else {
        None
    }
}

/// The tool a name calls, if any.
pub fn classify_tool(name: &str) -> (r: Option<ToolKind>)
    ensures
        r == classify_tool_spec(name@),
{
    if str_eq(name, "logs_schema") {
        Some(ToolKind::Schema)
    } else if str_eq(name, "logs_facets") {
        Some(ToolKind::Facets)
    } else if str_eq(name, "logs_search") {
        Some(ToolKind::Search)
    } else if str_eq(name, "logs_get") {
        Some(ToolKind::Get)
    } else if str_eq(name, "logs_context") {
        Some(ToolKind::Context)
    } else {
        None
    }
}

/// The text of a call to an unknown tool.
pub fn unknown_tool_message(name: &str) -> (r: String)
    ensures
        r@ == "unknown tool: "@ + name@,
{
    concat("unknown tool: ", name)
}

/// Every listed tool is called by its own name.
pub proof fn lemma_tool_names_resolve(k: ToolKind)
    ensures
        classify_tool_spec(k.name_spec()) == Some(k),
{
    reveal_strlit("logs_schema");
    reveal_strlit("logs_facets");
    reveal_strlit("logs_search");
    reveal_strlit("logs_get");
    reveal_strlit("logs_context");
    assert("logs_schema"@[6] != "logs_search"@[6]);
    assert("logs_schema"@[5] != "logs_facets"@[5]);
    assert("logs_schema"@[5] != "logs_get"@[5]);
    assert("logs_schema"@[5] != "logs_context"@[5]);
    assert("logs_facets"@[5] != "logs_search"@[5]);
    assert("logs_facets"@[5] != "logs_get"@[5]);
    assert("logs_facets"@[5] != "logs_context"@[5]);
    assert("logs_search"@[5] != "logs_get"@[5]);
    assert("logs_search"@[5] != "logs_context"@[5]);
    assert("logs_get"@.len() != "logs_context"@.len());
}

} // verus!
