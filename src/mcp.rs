//! The JSON-RPC / MCP protocol: message types, the tool catalogue, request
//! decoding and the handshake state machine.

use vstd::prelude::*;
use vstd::string::*;
use serde_json::Value;
use crate::parse::views;

verus! {

#[verifier::external_type_specification]
#[verifier::external_body]
pub struct ExValue(serde_json::Value);

/// Whether `s` parses as one JSON value (within the parser's nesting limit).
pub uninterp spec fn is_json_text(s: Seq<char>) -> bool;

/// The top level of a JSON value, with the parts that the server reads.
pub enum JsonShape {
    Null,
    Bool(bool),
    /// A number, with its value when it is an integer that fits in `i64`.
    Number(Option<i64>),
    Str(Seq<char>),
    Array,
    /// An object's members, by key.
    Object(Map<Seq<char>, Value>),
}

/// What a JSON value holds at its top level: its variant, and for an
/// object its members, as `serde_json::Value` shows them.
pub uninterp spec fn json_shape(v: Value) -> JsonShape;

/// The top level of the JSON value that the text `s` parses to.
pub uninterp spec fn parsed_shape(s: Seq<char>) -> JsonShape;

/// Relies on `serde_json::from_str::<Value>`: it succeeds exactly on JSON
/// texts, and the value depends on the text alone; the error is rendered
/// with its `Display`.
#[verifier::external_body]
fn parse_json(line: &str) -> (r: Result<Value, String>)
    ensures
        r is Ok <==> is_json_text(line@),
        r matches Ok(v) ==> json_shape(v) == parsed_shape(line@),
{
    serde_json::from_str::<Value>(line).map_err(|e| e.to_string())
}

/// Relies on `Value::get` with a string key: the member of an object, and
/// nothing for any other kind of value.
#[verifier::external_body]
fn json_member(v: &Value, key: &str) -> (r: Option<Value>)
    ensures
        match json_shape(*v) {
            JsonShape::Object(m) => (r is Some <==> m.contains_key(key@)) && (r matches Some(x) ==> json_shape(x)
                == json_shape(m[key@])),
            _ => r is None,
        },
{
    v.get(key).cloned()
}

/// Relies on `Value::as_str`: the text of a JSON string.
#[verifier::external_body]
fn json_text(v: &Value) -> (r: Option<String>)
    ensures
        match json_shape(*v) {
            JsonShape::Str(t) => r matches Some(x) && x@ == t,
            _ => r is None,
        },
{
    v.as_str().map(|s| s.to_string())
}

/// Relies on `Value::as_i64`: an integer that fits in `i64`.
#[verifier::external_body]
fn json_i64(v: &Value) -> (r: Option<i64>)
    ensures
        match json_shape(*v) {
            JsonShape::Number(n) => r == n,
            _ => r is None,
        },
{
    v.as_i64()
}

/// Relies on `Value::is_null`.
#[verifier::external_body]
fn json_is_null(v: &Value) -> (r: bool)
    ensures
        r == json_shape(*v) is Null,
{
    v.is_null()
}

/// Relies on `Value::is_object`.
#[verifier::external_body]
fn json_is_object(v: &Value) -> (r: bool)
    ensures
        r == json_shape(*v) is Object,
{
    v.is_object()
}

/// Relies on `Value::Object` around `Map::new`: an object without members.
#[verifier::external_body]
fn empty_object() -> (r: Value)
    ensures
        json_shape(r) == JsonShape::Object(Map::empty()),
{
    Value::Object(serde_json::Map::new())
}

/// The member `k` of a value of shape `s`.
pub open spec fn member_of(s: JsonShape, k: Seq<char>) -> Option<Value> {
    match s {
        JsonShape::Object(m) => if m.contains_key(k) {
            Some(m[k])
        } else {
            None
        },
        _ => None,
    }
}

/// The text of a JSON string value.
pub open spec fn text_of(v: Value) -> Option<Seq<char>> {
    match json_shape(v) {
        JsonShape::Str(t) => Some(t),
        _ => None,
    }
}

/// The text of member `k`, when it is a string.
pub open spec fn text_member(s: JsonShape, k: Seq<char>) -> Option<Seq<char>> {
    match member_of(s, k) {
        Some(v) => text_of(v),
        None => None,
    }
}

/// The integer of member `k`, when it is an integer that fits in `i64`.
pub open spec fn int_member(s: JsonShape, k: Seq<char>) -> Option<i64> {
    match member_of(s, k) {
        Some(v) => match json_shape(v) {
            JsonShape::Number(n) => n,
            _ => None,
        },
        None => None,
    }
}

/// Reads member `key` of `v` as text.
pub fn string_member(v: &Value, key: &str) -> (r: Option<String>)
    ensures
        match text_member(json_shape(*v), key@) {
            Some(t) => r matches Some(x) && x@ == t,
            None => r is None,
        },
{
    match json_member(v, key) {
        Some(x) => json_text(&x),
        None => None,
    }
}

/// Reads member `key` of `v` as an integer.
pub fn integer_member(v: &Value, key: &str) -> (r: Option<i64>)
    ensures
        r == int_member(json_shape(*v), key@),
{
    match json_member(v, key) {
        Some(x) => json_i64(&x),
        None => None,
    }
}

/// Whether `v` has member `key`.
pub fn has_member(v: &Value, key: &str) -> (r: bool)
    ensures
        r == member_of(json_shape(*v), key@) is Some,
{
    json_member(v, key).is_some()
}

/// JSON-RPC request identifier.
#[derive(Debug, Clone, PartialEq, Eq)]
pub enum RequestId {
    Number(i64),
    String(String),
}

/// A JSON-RPC 2.0 request or notification.
#[derive(Debug, Clone)]
pub struct JsonRpcRequest {
    pub jsonrpc: String,
    pub id: Option<RequestId>,
    pub method: String,
    pub params: Option<Value>,
}

/// A JSON-RPC 2.0 error object.
#[derive(Debug, Clone)]
pub struct JsonRpcError {
    pub code: i32,
    pub message: String,
    pub data: Option<Value>,
}

/// The result carried by a successful response.
#[derive(Debug, Clone)]
pub enum McpResult {
    Initialize(InitializeResult),
    ToolsList(ToolsListResult),
    ToolCall(ToolCallResult),
}

/// A JSON-RPC 2.0 response: exactly one of `result` and `error` is set.
#[derive(Debug, Clone)]
pub struct JsonRpcResponse {
    pub jsonrpc: String,
    pub id: Option<RequestId>,
    pub result: Option<McpResult>,
    pub error: Option<JsonRpcError>,
}

pub const PARSE_ERROR: i32 = -32700;
pub const INVALID_REQUEST: i32 = -32600;
pub const METHOD_NOT_FOUND: i32 = -32601;
pub const INVALID_PARAMS: i32 = -32602;
pub const INTERNAL_ERROR: i32 = -32603;

/// Whether `r` is an error response with `id`, `code` and `message`.
pub open spec fn is_error_response(r: JsonRpcResponse, id: Option<RequestId>, code: i32, message: Seq<char>) -> bool {
    &&& r.jsonrpc@ == "2.0"@
    &&& r.id == id
    &&& r.result is None
    &&& r.error matches Some(e) && e.code == code && e.message@ == message && e.data is None
}

/// Whether `r` is a success response with `id` and `result`.
pub open spec fn is_success_response(r: JsonRpcResponse, id: Option<RequestId>, result: McpResult) -> bool {
    &&& r.jsonrpc@ == "2.0"@
    &&& r.id == id
    &&& r.result == Some(result)
    &&& r.error is None
}

impl JsonRpcResponse {
    /// A success response.
    pub fn success(id: Option<RequestId>, result: McpResult) -> (r: Self)
        ensures
            is_success_response(r, id, result),
    {
        JsonRpcResponse { jsonrpc: String::from_str("2.0"), id, result: Some(result), error: None }
    }

    /// An error response.
    pub fn error(id: Option<RequestId>, code: i32, message: String) -> (r: Self)
        ensures
            is_error_response(r, id, code, message@),
    {
        JsonRpcResponse {
            jsonrpc: String::from_str("2.0"),
            id,
            result: None,
            error: Some(JsonRpcError { code, message, data: None }),
        }
    }
}

/// Server capabilities: tools only.
#[derive(Debug, Clone)]
pub struct ServerCapabilities {
    pub tools: Option<ToolsCapability>,
}

#[derive(Debug, Clone)]
pub struct ToolsCapability {}

/// Server identity.
#[derive(Debug, Clone)]
pub struct ServerInfo {
    pub name: String,
    pub version: String,
}

/// Result of `initialize`.
#[derive(Debug, Clone)]
pub struct InitializeResult {
    pub protocol_version: String,
    pub capabilities: ServerCapabilities,
    pub server_info: ServerInfo,
}

/// A tool's name, description and input shape.
#[derive(Debug, Clone)]
pub struct ToolDefinition {
    pub name: String,
    pub description: String,
    pub input_schema: InputSchema,
}

/// A JSON-schema-style object shape.
#[derive(Debug, Clone)]
pub struct InputSchema {
    pub schema_type: String,
    pub properties: PropertyMap,
    pub required: Vec<String>,
}

/// One property of an input shape.
#[derive(Debug, Clone)]
pub struct PropertyDefinition {
    pub prop_type: String,
    pub description: String,
}

/// The properties of an input shape, by name, in insertion order.
#[derive(Debug, Clone)]
pub struct PropertyMap {
    entries: Vec<(String, PropertyDefinition)>,
}

impl PropertyMap {
    /// The property names, in insertion order.
    pub closed spec fn keys(&self) -> Seq<Seq<char>> {
        self.entries@.map_values(|e: (String, PropertyDefinition)| e.0@)
    }

    /// No properties.
    pub fn new() -> (r: Self)
        ensures
            r.keys() == Seq::<Seq<char>>::empty(),
    {
        let r = PropertyMap { entries: Vec::new() };
        proof {
            assert(r.keys() =~= Seq::<Seq<char>>::empty());
        }
        r
    }

    /// Adds a property after the existing ones.
    pub fn push(&mut self, name: String, def: PropertyDefinition)
        ensures
            final(self).keys() == old(self).keys().push(name@),
    {
        self.entries.push((name, def));
        proof {
            assert(self.keys() =~= old(self).keys().push(name@));
        }
    }

    /// Whether a property is named `key`.
    pub fn contains_key(&self, key: &str) -> (r: bool)
        ensures
            r == self.keys().contains(key@),
    {
        let mut i: usize = 0;
        while i < self.entries.len()
            invariant
                i <= self.entries@.len(),
                forall|j: int| 0 <= j < i ==> self.keys()[j] != key@,
            decreases self.entries@.len() - i,
        {
            if crate::text::str_eq(self.entries[i].0.as_str(), key) {
                proof {
                    assert(self.keys()[i as int] == key@);
                }
                return true;
            }
            i = i + 1;
        }
        false
    }

    /// The definition of property `key`.
    pub fn get(&self, key: &str) -> (r: Option<&PropertyDefinition>)
        ensures
            r is Some <==> self.keys().contains(key@),
    {
        let mut i: usize = 0;
        while i < self.entries.len()
            invariant
                i <= self.entries@.len(),
                forall|j: int| 0 <= j < i ==> self.keys()[j] != key@,
            decreases self.entries@.len() - i,
        {
            if crate::text::str_eq(self.entries[i].0.as_str(), key) {
                proof {
                    assert(self.keys()[i as int] == key@);
                }
                return Some(&self.entries[i].1);
            }
            i = i + 1;
        }
        None
    }

    /// Number of properties.
    pub fn len(&self) -> (r: usize)
        ensures
            r == self.keys().len(),
    {
        self.entries.len()
    }

    /// Whether there are no properties.
    pub fn is_empty(&self) -> (r: bool)
        ensures
            r == (self.keys().len() == 0),
    {
        self.entries.len() == 0
    }

    /// Every property with its definition, in insertion order.
    pub fn entries(&self) -> (r: &[(String, PropertyDefinition)])
        ensures
            r@.map_values(|e: (String, PropertyDefinition)| e.0@) == self.keys(),
    {
        self.entries.as_slice()
    }
}

/// Result of `tools/list`.
#[derive(Debug, Clone)]
pub struct ToolsListResult {
    pub tools: Vec<ToolDefinition>,
}

/// Parameters of `tools/call`.
#[derive(Debug)]
pub struct ToolCallParams {
    pub name: String,
    /// The argument object.
    pub arguments: Value,
}

/// One text item of a tool result.
#[derive(Debug, Clone)]
pub struct TextContent {
    pub content_type: String,
    pub text: String,
}

impl TextContent {
    /// A `text` item.
    pub fn new(text: &str) -> (r: Self)
        ensures
            r.content_type@ == "text"@,
            r.text@ == text@,
    {
        TextContent { content_type: String::from_str("text"), text: String::from_str(text) }
    }
}

/// Result of a tool call: one text item, flagged when it reports an error.
#[derive(Debug, Clone)]
pub struct ToolCallResult {
    pub content: Vec<TextContent>,
    pub is_error: bool,
}

/// Whether `r` is a tool result with the single text `text`.
pub open spec fn is_tool_text(r: ToolCallResult, text: Seq<char>, is_error: bool) -> bool {
    &&& r.is_error == is_error
    &&& r.content@.len() == 1
    &&& r.content@[0].content_type@ == "text"@
    &&& r.content@[0].text@ == text
}

impl ToolCallResult {
    /// A successful result with text `text`.
    pub fn success(text: &str) -> (r: Self)
        ensures
            is_tool_text(r, text@, false),
    {
        ToolCallResult { content: vec![TextContent::new(text)], is_error: false }
    }

    /// An error result with text `text`.
    pub fn error(text: &str) -> (r: Self)
        ensures
            is_tool_text(r, text@, true),
    {
        ToolCallResult { content: vec![TextContent::new(text)], is_error: true }
    }
}

/// The five tool names, in catalogue order.
pub open spec fn tool_names() -> Seq<Seq<char>> {
    seq![
        "tmux_create_pane"@,
        "tmux_send_keys"@,
        "tmux_capture_pane"@,
        "tmux_kill_pane"@,
        "tmux_list_panes"@,
    ]
}

/// The property names of the tool at position `i` of the catalogue.
pub open spec fn tool_properties(i: int) -> Seq<Seq<char>> {
    if i == 0 {
        seq!["command"@, "name"@]
    } else if i == 1 {
        seq!["pane_id"@, "keys"@]
    } else if i == 2 {
        seq!["pane_id"@, "lines"@]
    } else if i == 3 {
        seq!["pane_id"@]
    } else {
        Seq::empty()
    }
}

/// The required property names of the tool at position `i`.
pub open spec fn tool_required(i: int) -> Seq<Seq<char>> {
    if i == 0 {
        seq!["command"@]
    } else if i == 1 {
        seq!["pane_id"@, "keys"@]
    } else if i == 2 || i == 3 {
        seq!["pane_id"@]
    } else {
        Seq::empty()
    }
}

/// Whether `tools` is the catalogue: the five tools in order, each an object
/// shape with its properties and required properties.
pub open spec fn is_catalogue(tools: Seq<ToolDefinition>) -> bool {
    &&& tools.len() == 5
    &&& forall|i: int| 0 <= i < 5 ==> {
        &&& #[trigger] tools[i].name@ == tool_names()[i]
        &&& tools[i].input_schema.schema_type@ == "object"@
        &&& tools[i].input_schema.properties.keys() == tool_properties(i)
        &&& views(tools[i].input_schema.required@) == tool_required(i)
    }
}

fn text(s: &str) -> (r: String)
    ensures
        r@ == s@,
{
    String::from_str(s)
}

fn property(prop_type: &str, description: &str) -> PropertyDefinition {
    PropertyDefinition { prop_type: text(prop_type), description: text(description) }
}

/// The five tools that the server offers.
pub fn get_tool_definitions() -> (r: Vec<ToolDefinition>)
    ensures
        is_catalogue(r@),
{
    let mut create_props = PropertyMap::new();
    create_props.push(text("command"), property("string", "Command to run in the pane (e.g., 'RUST_LOG=debug cargo run')"));
    create_props.push(text("name"), property("string", "Optional human-readable name for the pane"));
    let create = ToolDefinition {
        name: text("tmux_create_pane"),
        description: text(
            "Create a new tmux pane running a command. Use for spawning servers, test runners, or interactive shells. Returns a pane ID for subsequent operations.",
        ),
        input_schema: InputSchema { schema_type: text("object"), properties: create_props, required: vec![text("command")] },
    };

    let mut send_props = PropertyMap::new();
    send_props.push(text("pane_id"), property("string", "Target pane ID from tmux_create_pane or tmux_list_panes"));
    send_props.push(text("keys"), property("string", "Keystrokes to send. Use '^C' for Ctrl-C, 'Enter' for newline."));
    let send = ToolDefinition {
        name: text("tmux_send_keys"),
        description: text(
            "Send keystrokes to a tmux pane. Use for interactive input, running additional commands, or sending signals (e.g., Ctrl-C as '^C').",
        ),
        input_schema: InputSchema {
            schema_type: text("object"),
            properties: send_props,
            required: vec![text("pane_id"), text("keys")],
        },
    };

    let mut capture_props = PropertyMap::new();
    capture_props.push(text("pane_id"), property("string", "Target pane ID"));
    capture_props.push(text("lines"), property("number", "Number of lines to capture (default: 100, max: 1000)"));
    let capture = ToolDefinition {
        name: text("tmux_capture_pane"),
        description: text(
            "Capture recent output from a tmux pane. Use to read logs, command output, or error messages. Works on both running and exited panes.",
        ),
        input_schema: InputSchema { schema_type: text("object"), properties: capture_props, required: vec![text("pane_id")] },
    };

    let mut kill_props = PropertyMap::new();
    kill_props.push(text("pane_id"), property("string", "Target pane ID"));
    let kill = ToolDefinition {
        name: text("tmux_kill_pane"),
        description: text("Terminate a tmux pane and its running process. Use for cleanup after debugging."),
        input_schema: InputSchema { schema_type: text("object"), properties: kill_props, required: vec![text("pane_id")] },
    };

    let list = ToolDefinition {
        name: text("tmux_list_panes"),
        description: text(
            "List all active tmux panes with their IDs, names, status (running/exited), and running commands.",
        ),
        input_schema: InputSchema { schema_type: text("object"), properties: PropertyMap::new(), required: Vec::new() },
    };

    let tools = vec![create, send, capture, kill, list];
    proof {
        assert(views(tools@[0].input_schema.required@) =~= tool_required(0));
        assert(views(tools@[1].input_schema.required@) =~= tool_required(1));
        assert(views(tools@[2].input_schema.required@) =~= tool_required(2));
        assert(views(tools@[3].input_schema.required@) =~= tool_required(3));
        assert(views(tools@[4].input_schema.required@) =~= tool_required(4));
        assert(tools@[0].input_schema.properties.keys() =~= tool_properties(0));
        assert(tools@[1].input_schema.properties.keys() =~= tool_properties(1));
        assert(tools@[2].input_schema.properties.keys() =~= tool_properties(2));
        assert(tools@[3].input_schema.properties.keys() =~= tool_properties(3));
        assert(tools@[4].input_schema.properties.keys() =~= tool_properties(4));
    }
    tools
}

/// A routed request.
#[derive(Debug)]
pub enum McpMethod {
    Initialize,
    Initialized,
    ToolsList,
    ToolsCall(ToolCallParams),
    Unknown(String),
}

/// Which route a method name takes.
pub enum Route {
    Initialize,
    Initialized,
    ToolsList,
    ToolsCall,
    Unknown,
}

/// The route of method name `m`.
pub open spec fn route_of(m: Seq<char>) -> Route {
    if m == "initialize"@ {
        Route::Initialize
    } else if m == "notifications/initialized"@ || m == "initialized"@ {
        Route::Initialized
    } else if m == "tools/list"@ {
        Route::ToolsList
    } else if m == "tools/call"@ {
        Route::ToolsCall
    } else {
        Route::Unknown
    }
}

/// Whether `p` is a well-formed `tools/call` parameter object: a string
/// `name`, and `arguments` absent or an object.
pub open spec fn tool_params_ok(p: JsonShape) -> bool {
    &&& text_member(p, "name"@) is Some
    &&& match member_of(p, "arguments"@) {
        None => true,
        Some(a) => json_shape(a) is Object,
    }
}

/// Whether `tp` holds what the parameter object `p` gives: its name, and
/// its arguments or an empty object.
pub open spec fn tool_params_of(p: JsonShape, tp: ToolCallParams) -> bool {
    &&& Some(tp.name@) == text_member(p, "name"@)
    &&& json_shape(tp.arguments) == match member_of(p, "arguments"@) {
        None => JsonShape::Object(Map::empty()),
        Some(a) => json_shape(a),
    }
}

/// Reads `tools/call` parameters: a string `name` and an optional object
/// `arguments`.
fn tool_call_params(params: &Value) -> (r: Result<ToolCallParams, String>)
    ensures
        r is Ok <==> tool_params_ok(json_shape(*params)),
        r matches Ok(tp) ==> tool_params_of(json_shape(*params), tp),
{
    let name = match string_member(params, "name") {
        Some(n) => n,
        None => return Err(text("Invalid tool call params: `name` must be a string")),
    };
    let arguments = match json_member(params, "arguments") {
        None => empty_object(),
        Some(v) => if json_is_object(&v) {
            v
        } else {
            return Err(text("Invalid tool call params: `arguments` must be an object"));
        },
    };
    Ok(ToolCallParams { name, arguments })
}

impl McpMethod {
    /// Routes a request by its method name; `tools/call` also reads its
    /// parameters, which must be present.
    pub fn from_request(request: &JsonRpcRequest) -> (r: Result<Self, String>)
        ensures
            match route_of(request.method@) {
                Route::Initialize => r matches Ok(McpMethod::Initialize),
                Route::Initialized => r matches Ok(McpMethod::Initialized),
                Route::ToolsList => r matches Ok(McpMethod::ToolsList),
                Route::ToolsCall => match request.params {
                    None => r matches Err(e) && e@ == "tools/call requires params"@,
                    Some(p) => (r is Ok <==> tool_params_ok(json_shape(p))) && match r {
                        Ok(McpMethod::ToolsCall(tp)) => tool_params_of(json_shape(p), tp),
                        Ok(_) => false,
                        Err(_) => true,
                    },
                },
                Route::Unknown => r matches Ok(McpMethod::Unknown(m)) && m@ == request.method@,
            },
    {
        let m = request.method.as_str();
        if crate::text::str_eq(m, "initialize") {
            Ok(McpMethod::Initialize)
        } else if crate::text::str_eq(m, "notifications/initialized") || crate::text::str_eq(m, "initialized") {
            Ok(McpMethod::Initialized)
        } else if crate::text::str_eq(m, "tools/list") {
            Ok(McpMethod::ToolsList)
        } else if crate::text::str_eq(m, "tools/call") {
            match &request.params {
                None => Err(text("tools/call requires params")),
                Some(p) => match tool_call_params(p) {
                    Ok(params) => Ok(McpMethod::ToolsCall(params)),
                    Err(e) => Err(e),
                },
            }
        } else {
            Ok(McpMethod::Unknown(request.method.clone()))
        }
    }
}

/// The message for a tool request before the handshake.
pub open spec fn not_initialized_message() -> Seq<char> {
    "Server not initialized. Send 'initialize' first."@
}

/// The protocol version that `initialize` reports.
pub open spec fn protocol_version() -> Seq<char> {
    "2024-11-05"@
}

/// The server name that `initialize` reports.
pub open spec fn server_name() -> Seq<char> {
    "tmux-debug-mcp"@
}

/// The server version that `initialize` reports.
pub open spec fn server_version() -> Seq<char> {
    "0.1.0"@
}

/// The server version that `initialize` reports.
pub const SERVER_VERSION: &'static str = "0.1.0";

/// Whether `r` is what `initialize` answers.
pub open spec fn is_initialize_result(r: InitializeResult) -> bool {
    &&& r.protocol_version@ == protocol_version()
    &&& r.capabilities.tools is Some
    &&& r.server_info.name@ == server_name()
    &&& r.server_info.version@ == server_version()
}

/// Handshake state: tool requests are refused until initialization.
pub struct McpHandler {
    initialized: bool,
}

impl McpHandler {
    /// Whether the handshake has happened.
    pub closed spec fn ready(&self) -> bool {
        self.initialized
    }

    /// A handler awaiting initialization.
    pub fn new() -> (r: Self)
        ensures
            !r.ready(),
    {
        McpHandler { initialized: false }
    }

    /// Handles `initialize`: marks the handler initialized and reports the
    /// protocol version, capabilities and server identity.
    pub fn handle_initialize(&mut self) -> (r: InitializeResult)
        ensures
            final(self).ready(),
            is_initialize_result(r),
    {
        self.initialized = true;
        InitializeResult {
            protocol_version: text("2024-11-05"),
            capabilities: ServerCapabilities { tools: Some(ToolsCapability {}) },
            server_info: ServerInfo { name: text("tmux-debug-mcp"), version: text(SERVER_VERSION) },
        }
    }

    /// Handles the `initialized` notification.
    pub fn handle_initialized(&mut self)
        ensures
            final(self).ready(),
    {
        self.initialized = true;
    }

    /// Handles `tools/list`: the catalogue.
    pub fn handle_tools_list(&self) -> (r: ToolsListResult)
        ensures
            is_catalogue(r.tools@),
    {
        ToolsListResult { tools: get_tool_definitions() }
    }

    /// Whether `method` may be served now: tool requests need initialization.
    pub fn validate_request(&self, method: &McpMethod) -> (r: Result<(), &'static str>)
        ensures
            match method {
                McpMethod::ToolsList | McpMethod::ToolsCall(_) => if self.ready() {
                    r is Ok
                } else {
                    r matches Err(m) && m@ == not_initialized_message()
                },
                _ => r is Ok,
            },
    {
        match method {
            McpMethod::Initialize => Ok(()),
            McpMethod::Initialized => Ok(()),
            McpMethod::ToolsList | McpMethod::ToolsCall(_) => {
                if self.initialized {
                    Ok(())
                } else {
                    Err("Server not initialized. Send 'initialize' first.")
                }
            },
            McpMethod::Unknown(_) => Ok(()),
        }
    }
}

impl Default for McpHandler {
    fn default() -> (r: Self)
        ensures
            !r.ready(),
    {
        Self::new()
    }
}

/// A request identifier as plain values.
pub enum IdView {
    Number(i64),
    Text(Seq<char>),
}

/// The view of an optional request identifier.
pub open spec fn id_view(id: Option<RequestId>) -> Option<IdView> {
    match id {
        None => None,
        Some(RequestId::Number(n)) => Some(IdView::Number(n)),
        Some(RequestId::String(t)) => Some(IdView::Text(t@)),
    }
}

/// The identifier of a request object: none when absent or null, an error
/// when it is neither an integer nor a string.
pub open spec fn id_field(s: JsonShape) -> Result<Option<IdView>, ()> {
    match member_of(s, "id"@) {
        None => Ok(None),
        Some(v) => match json_shape(v) {
            JsonShape::Null => Ok(None),
            JsonShape::Number(Some(n)) => Ok(Some(IdView::Number(n))),
            JsonShape::Str(t) => Ok(Some(IdView::Text(t))),
            _ => Err(()),
        },
    }
}

/// Whether `s` is a request object: string `jsonrpc` and `method`, and a
/// valid identifier.
pub open spec fn is_request_shape(s: JsonShape) -> bool {
    &&& text_member(s, "jsonrpc"@) is Some
    &&& text_member(s, "method"@) is Some
    &&& id_field(s) is Ok
}

/// Whether `q` holds what the request object `s` gives; a null `params`
/// counts as absent.
pub open spec fn decodes_to(s: JsonShape, q: JsonRpcRequest) -> bool {
    &&& text_member(s, "jsonrpc"@) == Some(q.jsonrpc@)
    &&& text_member(s, "method"@) == Some(q.method@)
    &&& id_field(s) == Ok::<Option<IdView>, ()>(id_view(q.id))
    &&& match member_of(s, "params"@) {
        None => q.params is None,
        Some(v) => if json_shape(v) is Null {
            q.params is None
        } else {
            q.params matches Some(x) && json_shape(x) == json_shape(v)
        },
    }
}

/// Reads a request identifier.
fn request_id(v: &Value) -> (r: Result<Option<RequestId>, String>)
    ensures
        match id_field(json_shape(*v)) {
            Ok(id) => r matches Ok(x) && id_view(x) == id,
            Err(_) => r is Err,
        },
{
    match json_member(v, "id") {
        None => Ok(None),
        Some(id) => {
            if json_is_null(&id) {
                Ok(None)
            } else {
                match json_i64(&id) {
                    Some(n) => Ok(Some(RequestId::Number(n))),
                    None => match json_text(&id) {
                        Some(s) => Ok(Some(RequestId::String(s))),
                        None => Err(text("`id` must be an integer or a string")),
                    },
                }
            }
        },
    }
}

/// Reads the request fields of a JSON value.
fn decode_request(v: &Value) -> (r: Result<JsonRpcRequest, String>)
    ensures
        r is Ok <==> is_request_shape(json_shape(*v)),
        r matches Ok(q) ==> decodes_to(json_shape(*v), q),
{
    let jsonrpc = match string_member(v, "jsonrpc") {
        Some(s) => s,
        None => return Err(text("missing or invalid field `jsonrpc`")),
    };
    let method = match string_member(v, "method") {
        Some(s) => s,
        None => return Err(text("missing or invalid field `method`")),
    };
    let id = match request_id(v) {
        Ok(id) => id,
        Err(e) => return Err(e),
    };
    let params = match json_member(v, "params") {
        None => None,
        Some(p) => if json_is_null(&p) {
            None
        } else {
            Some(p)
        },
    };
    Ok(JsonRpcRequest { jsonrpc, id, method, params })
}

/// Whether `r` is a parse-error response: code -32700, no id.
pub open spec fn is_parse_error(r: JsonRpcResponse) -> bool {
    &&& r.jsonrpc@ == "2.0"@
    &&& r.id is None
    &&& r.result is None
    &&& r.error matches Some(e) && e.code == PARSE_ERROR
}

/// Parses one input line as a request; anything else is a parse error
/// without an id.
pub fn parse_request(line: &str) -> (r: Result<JsonRpcRequest, JsonRpcResponse>)
    ensures
        r is Ok <==> is_json_text(line@) && is_request_shape(parsed_shape(line@)),
        r matches Ok(q) ==> decodes_to(parsed_shape(line@), q),
        r matches Err(resp) ==> is_parse_error(resp),
{
    let detail = match parse_json(line) {
        Ok(v) => match decode_request(&v) {
            Ok(request) => return Ok(request),
            Err(e) => e,
        },
        Err(e) => e,
    };
    let mut message = text("Parse error: ");
    message.append(detail.as_str());
    Err(JsonRpcResponse::error(None, PARSE_ERROR, message))
}

} // verus!
