use std::collections::HashMap;
use std::sync::Mutex;
use serde_json::Value;
use tmux_debug_mcp::mcp::{McpResult, ToolCallParams, ToolCallResult, METHOD_NOT_FOUND, PARSE_ERROR};
use tmux_debug_mcp::server::{effective_lines, handle_tool_call, process_request, AppState};
use tmux_debug_mcp::tmux::{CommandExecutor, CommandOutput};

/// Answers like a multiplexer holding one live window `debug-1`.
struct MockExecutor;

impl CommandExecutor for MockExecutor {
    fn execute(&self, args: &[String]) -> Result<CommandOutput, String> {
        let stdout = match args.first().map(|s| s.as_str()) {
            Some("list-windows") => "debug-1|12345|0\n",
            Some("capture-pane") => "line 1\nline 2\nline 3\n",
            _ => "",
        };
        Ok(CommandOutput { success: true, stdout: stdout.to_string(), stderr: String::new() })
    }
}

/// Records commands; reports window `debug-1` as live.
struct RecordingExecutor {
    calls: Mutex<Vec<Vec<String>>>,
}

impl CommandExecutor for RecordingExecutor {
    fn execute(&self, args: &[String]) -> Result<CommandOutput, String> {
        self.calls.lock().unwrap().push(args.to_vec());
        let stdout = match args.first().map(|s| s.as_str()) {
            Some("list-windows") => "debug-1|12345|0\n",
            Some("capture-pane") => "hi\n",
            _ => "",
        };
        Ok(CommandOutput { success: true, stdout: stdout.to_string(), stderr: String::new() })
    }
}

/// Fails `new-window`, as when the session went away underneath.
struct NoWindowExecutor;

impl CommandExecutor for NoWindowExecutor {
    fn execute(&self, args: &[String]) -> Result<CommandOutput, String> {
        if args.first().map(|s| s.as_str()) == Some("new-window") {
            Ok(CommandOutput { success: false, stdout: String::new(), stderr: "session not found: x".to_string() })
        } else {
            Ok(CommandOutput { success: true, stdout: String::new(), stderr: String::new() })
        }
    }
}

fn test_state() -> AppState<MockExecutor> {
    AppState::new(MockExecutor, 4321)
}

fn call<E: CommandExecutor>(state: &mut AppState<E>, tool: &str, args: HashMap<String, Value>) -> ToolCallResult {
    handle_tool_call(state, &ToolCallParams { name: tool.to_string(), arguments: Value::Object(args.into_iter().collect()) })
}

fn text(result: &ToolCallResult) -> &str {
    &result.content[0].text
}

fn tool_result(response: &tmux_debug_mcp::mcp::JsonRpcResponse) -> &ToolCallResult {
    match &response.result {
        Some(McpResult::ToolCall(r)) => r,
        _ => panic!("Expected a tool result"),
    }
}

#[test]
fn test_process_initialize_request() {
    let mut state = test_state();
    let request = r#"{"jsonrpc":"2.0","id":1,"method":"initialize","params":{}}"#;

    let response = process_request(&mut state, request).unwrap();

    assert!(response.result.is_some());
    assert!(response.error.is_none());
    match response.result.unwrap() {
        McpResult::Initialize(result) => {
            assert!(!result.protocol_version.is_empty());
            assert!(!result.server_info.name.is_empty());
        }
        _ => panic!("Expected Initialize"),
    }
}

#[test]
fn test_process_tools_list_request() {
    let mut state = test_state();

    let init = r#"{"jsonrpc":"2.0","id":1,"method":"initialize","params":{}}"#;
    process_request(&mut state, init);

    let request = r#"{"jsonrpc":"2.0","id":2,"method":"tools/list"}"#;
    let response = process_request(&mut state, request).unwrap();

    assert!(response.result.is_some());
    match response.result.unwrap() {
        McpResult::ToolsList(result) => assert_eq!(result.tools.len(), 5),
        _ => panic!("Expected ToolsList"),
    }
}

#[test]
fn test_process_tools_list_before_init_fails() {
    let mut state = test_state();

    let request = r#"{"jsonrpc":"2.0","id":1,"method":"tools/list"}"#;
    let response = process_request(&mut state, request).unwrap();

    assert!(response.error.is_some());
    assert!(response.error.unwrap().message.contains("not initialized"));
}

#[test]
fn test_process_initialized_notification() {
    let mut state = test_state();

    let init = r#"{"jsonrpc":"2.0","id":1,"method":"initialize","params":{}}"#;
    process_request(&mut state, init);

    let request = r#"{"jsonrpc":"2.0","method":"notifications/initialized"}"#;
    let response = process_request(&mut state, request);

    assert!(response.is_none());
}

#[test]
fn test_process_unknown_method() {
    let mut state = test_state();

    let request = r#"{"jsonrpc":"2.0","id":1,"method":"unknown/method"}"#;
    let response = process_request(&mut state, request).unwrap();

    assert!(response.error.is_some());
    assert_eq!(response.error.unwrap().code, METHOD_NOT_FOUND);
}

#[test]
fn test_process_invalid_json() {
    let mut state = test_state();

    let request = "not valid json";
    let response = process_request(&mut state, request).unwrap();

    assert!(response.error.is_some());
    assert_eq!(response.error.unwrap().code, PARSE_ERROR);
}

#[test]
fn test_handle_create_pane_success() {
    let mut state = test_state();

    let mut args = HashMap::new();
    args.insert("command".to_string(), Value::String("cargo run".to_string()));
    args.insert("name".to_string(), Value::String("server".to_string()));

    let result = call(&mut state, "tmux_create_pane", args);

    assert!(!result.is_error);
    assert!(text(&result).contains("Created pane"));
    assert!(text(&result).contains("debug-1"));

    assert!(state.pane_manager.contains("debug-1"));
}

#[test]
fn test_handle_create_pane_missing_command() {
    let mut state = test_state();

    let args = HashMap::new();
    let result = call(&mut state, "tmux_create_pane", args);

    assert!(result.is_error);
    assert!(text(&result).contains("Missing required parameter"));
}

#[test]
fn test_handle_send_keys_success() {
    let mut state = test_state();

    let mut create_args = HashMap::new();
    create_args.insert("command".to_string(), Value::String("bash".to_string()));
    call(&mut state, "tmux_create_pane", create_args);

    let mut args = HashMap::new();
    args.insert("pane_id".to_string(), Value::String("debug-1".to_string()));
    args.insert("keys".to_string(), Value::String("echo hello".to_string()));

    let result = call(&mut state, "tmux_send_keys", args);

    assert!(!result.is_error);
    assert!(text(&result).contains("Sent keys"));
}

#[test]
fn test_handle_send_keys_pane_not_found() {
    let mut state = test_state();

    let mut args = HashMap::new();
    args.insert("pane_id".to_string(), Value::String("nonexistent".to_string()));
    args.insert("keys".to_string(), Value::String("echo hello".to_string()));

    let result = call(&mut state, "tmux_send_keys", args);

    assert!(result.is_error);
    assert!(text(&result).contains("not found"));
}

#[test]
fn test_handle_send_keys_missing_pane_id() {
    let mut state = test_state();

    let mut args = HashMap::new();
    args.insert("keys".to_string(), Value::String("echo hello".to_string()));

    let result = call(&mut state, "tmux_send_keys", args);

    assert!(result.is_error);
    assert!(text(&result).contains("Missing required parameter"));
}

#[test]
fn test_handle_capture_pane_success() {
    let mut state = test_state();

    let mut create_args = HashMap::new();
    create_args.insert("command".to_string(), Value::String("bash".to_string()));
    call(&mut state, "tmux_create_pane", create_args);

    let mut args = HashMap::new();
    args.insert("pane_id".to_string(), Value::String("debug-1".to_string()));
    args.insert("lines".to_string(), Value::Number(50.into()));

    let result = call(&mut state, "tmux_capture_pane", args);

    assert!(!result.is_error);
    assert!(text(&result).contains("line 1"));
}

#[test]
fn test_handle_capture_pane_default_lines() {
    let mut state = test_state();

    let mut create_args = HashMap::new();
    create_args.insert("command".to_string(), Value::String("bash".to_string()));
    call(&mut state, "tmux_create_pane", create_args);

    let mut args = HashMap::new();
    args.insert("pane_id".to_string(), Value::String("debug-1".to_string()));

    let result = call(&mut state, "tmux_capture_pane", args);

    assert!(!result.is_error);
}

#[test]
fn test_handle_capture_pane_clamps_lines() {
    let mut state = test_state();

    let mut create_args = HashMap::new();
    create_args.insert("command".to_string(), Value::String("bash".to_string()));
    call(&mut state, "tmux_create_pane", create_args);

    let mut args = HashMap::new();
    args.insert("pane_id".to_string(), Value::String("debug-1".to_string()));
    args.insert("lines".to_string(), Value::Number(5000.into()));

    let result = call(&mut state, "tmux_capture_pane", args);

    assert!(!result.is_error);
}

#[test]
fn test_handle_kill_pane_success() {
    let mut state = test_state();

    let mut create_args = HashMap::new();
    create_args.insert("command".to_string(), Value::String("bash".to_string()));
    call(&mut state, "tmux_create_pane", create_args);

    assert!(state.pane_manager.contains("debug-1"));

    let mut args = HashMap::new();
    args.insert("pane_id".to_string(), Value::String("debug-1".to_string()));

    let result = call(&mut state, "tmux_kill_pane", args);

    assert!(!result.is_error);
    assert!(text(&result).contains("Killed pane"));

    assert!(!state.pane_manager.contains("debug-1"));
}

#[test]
fn test_handle_kill_pane_not_found() {
    let mut state = test_state();

    let mut args = HashMap::new();
    args.insert("pane_id".to_string(), Value::String("nonexistent".to_string()));

    let result = call(&mut state, "tmux_kill_pane", args);

    assert!(result.is_error);
    assert!(text(&result).contains("not found"));
}

#[test]
fn test_handle_list_panes_empty() {
    let mut state = test_state();

    let result = call(&mut state, "tmux_list_panes", HashMap::new());

    assert!(!result.is_error);
    assert!(text(&result).contains("No active panes"));
}

#[test]
fn test_handle_list_panes_with_panes() {
    let mut state = test_state();

    let mut args1 = HashMap::new();
    args1.insert("command".to_string(), Value::String("cargo run".to_string()));
    args1.insert("name".to_string(), Value::String("server".to_string()));
    call(&mut state, "tmux_create_pane", args1);

    let mut args2 = HashMap::new();
    args2.insert("command".to_string(), Value::String("bash".to_string()));
    args2.insert("name".to_string(), Value::String("client".to_string()));
    call(&mut state, "tmux_create_pane", args2);

    let result = call(&mut state, "tmux_list_panes", HashMap::new());

    assert!(!result.is_error);
    let parsed: Vec<serde_json::Value> = serde_json::from_str(text(&result)).unwrap();
    assert_eq!(parsed.len(), 2);
}

#[test]
fn test_handle_unknown_tool() {
    let mut state = test_state();

    let result = call(&mut state, "unknown_tool", HashMap::new());

    assert!(result.is_error);
    assert!(text(&result).contains("Unknown tool"));
}

#[test]
fn test_full_create_pane_request() {
    let mut state = test_state();

    let init = r#"{"jsonrpc":"2.0","id":1,"method":"initialize","params":{}}"#;
    process_request(&mut state, init);

    let request = r#"{
        "jsonrpc": "2.0",
        "id": 2,
        "method": "tools/call",
        "params": {
            "name": "tmux_create_pane",
            "arguments": {
                "command": "RUST_LOG=debug cargo run",
                "name": "server"
            }
        }
    }"#;

    let response = process_request(&mut state, request).unwrap();

    assert!(response.result.is_some());
    let result = tool_result(&response);
    assert!(!result.content.is_empty());

    assert!(!result.is_error);
}

#[test]
fn test_full_workflow() {
    let mut state = test_state();

    let init = r#"{"jsonrpc":"2.0","id":1,"method":"initialize","params":{}}"#;
    process_request(&mut state, init);

    let create = r#"{
        "jsonrpc": "2.0",
        "id": 2,
        "method": "tools/call",
        "params": {
            "name": "tmux_create_pane",
            "arguments": {"command": "bash", "name": "test"}
        }
    }"#;
    let resp = process_request(&mut state, create).unwrap();
    assert!(resp.error.is_none());

    let list = r#"{
        "jsonrpc": "2.0",
        "id": 3,
        "method": "tools/call",
        "params": {"name": "tmux_list_panes", "arguments": {}}
    }"#;
    let resp = process_request(&mut state, list).unwrap();
    assert!(resp.error.is_none());

    let send = r#"{
        "jsonrpc": "2.0",
        "id": 4,
        "method": "tools/call",
        "params": {
            "name": "tmux_send_keys",
            "arguments": {"pane_id": "debug-1", "keys": "echo hello"}
        }
    }"#;
    let resp = process_request(&mut state, send).unwrap();
    assert!(resp.error.is_none());

    let capture = r#"{
        "jsonrpc": "2.0",
        "id": 5,
        "method": "tools/call",
        "params": {
            "name": "tmux_capture_pane",
            "arguments": {"pane_id": "debug-1", "lines": 50}
        }
    }"#;
    let resp = process_request(&mut state, capture).unwrap();
    assert!(resp.error.is_none());

    let kill = r#"{
        "jsonrpc": "2.0",
        "id": 6,
        "method": "tools/call",
        "params": {
            "name": "tmux_kill_pane",
            "arguments": {"pane_id": "debug-1"}
        }
    }"#;
    let resp = process_request(&mut state, kill).unwrap();
    assert!(resp.error.is_none());

    assert!(!state.pane_manager.contains("debug-1"));
}

#[test]
fn end_to_end_session() {
    let mut state = AppState::new(RecordingExecutor { calls: Mutex::new(Vec::new()) }, 77);
    process_request(&mut state, r#"{"jsonrpc":"2.0","id":1,"method":"initialize"}"#).unwrap();

    let mut args = HashMap::new();
    args.insert("command".to_string(), Value::String("bash".to_string()));
    args.insert("name".to_string(), Value::String("t".to_string()));
    let created = call(&mut state, "tmux_create_pane", args);
    assert_eq!(text(&created), "Created pane 't' (id: debug-1) running: bash");

    let listing = text(&call(&mut state, "tmux_list_panes", HashMap::new())).to_string();
    let parsed: Vec<Value> = serde_json::from_str(&listing).unwrap();
    assert_eq!(parsed.len(), 1);
    assert_eq!(parsed[0]["id"], "debug-1");
    assert_eq!(parsed[0]["name"], "t");
    assert_eq!(parsed[0]["command"], "bash");
    assert_eq!(parsed[0]["status"], "running");

    let mut args = HashMap::new();
    args.insert("pane_id".to_string(), Value::String("debug-1".to_string()));
    args.insert("keys".to_string(), Value::String("echo hi".to_string()));
    assert!(!call(&mut state, "tmux_send_keys", args).is_error);

    let mut args = HashMap::new();
    args.insert("pane_id".to_string(), Value::String("debug-1".to_string()));
    let captured = call(&mut state, "tmux_capture_pane", args);
    assert_eq!(text(&captured), "hi\n");

    let mut args = HashMap::new();
    args.insert("pane_id".to_string(), Value::String("debug-1".to_string()));
    assert_eq!(text(&call(&mut state, "tmux_kill_pane", args)), "Killed pane 'debug-1'");

    assert!(text(&call(&mut state, "tmux_list_panes", HashMap::new())).contains("No active panes"));
    assert!(state.pane_manager.is_empty());
}

#[test]
fn listing_with_running_pane() {
    let mut state = test_state();
    let mut args = HashMap::new();
    args.insert("command".to_string(), Value::String("bash".to_string()));
    args.insert("name".to_string(), Value::String("t".to_string()));
    call(&mut state, "tmux_create_pane", args);
    let listing = text(&call(&mut state, "tmux_list_panes", HashMap::new())).to_string();
    assert_eq!(
        listing,
        "[\n  {\n    \"command\": \"bash\",\n    \"id\": \"debug-1\",\n    \"name\": \"t\",\n    \"status\": \"running\"\n  }\n]"
    );
}

#[test]
fn capture_lines_default_and_clamp() {
    assert_eq!(effective_lines(None), 100);
    assert_eq!(effective_lines(Some(5000)), 1000);
    assert_eq!(effective_lines(Some(0)), 1);
    assert_eq!(effective_lines(Some(-3)), 1);
    assert_eq!(effective_lines(Some(250)), 250);

    let executor = RecordingExecutor { calls: Mutex::new(Vec::new()) };
    let mut state = AppState::new(executor, 1);
    let mut args = HashMap::new();
    args.insert("command".to_string(), Value::String("bash".to_string()));
    call(&mut state, "tmux_create_pane", args);
    let mut args = HashMap::new();
    args.insert("pane_id".to_string(), Value::String("debug-1".to_string()));
    args.insert("lines".to_string(), Value::Number(5000.into()));
    call(&mut state, "tmux_capture_pane", args);
    let mut args = HashMap::new();
    args.insert("pane_id".to_string(), Value::String("debug-1".to_string()));
    call(&mut state, "tmux_capture_pane", args);
    let calls = state.tmux_session.executor().calls.lock().unwrap().clone();
    let captures: Vec<&Vec<String>> = calls.iter().filter(|c| c[0] == "capture-pane").collect();
    assert_eq!(captures[0].last().unwrap(), "-1000");
    assert_eq!(captures[1].last().unwrap(), "-100");
}

#[test]
fn unknown_tool_lists_all_five() {
    let mut state = test_state();
    let result = call(&mut state, "tmux_frobnicate", HashMap::new());
    assert!(result.is_error);
    assert_eq!(
        text(&result),
        "Unknown tool 'tmux_frobnicate'. Available tools: tmux_create_pane, tmux_send_keys, tmux_capture_pane, tmux_kill_pane, tmux_list_panes"
    );
}

#[test]
fn parse_error_has_null_id() {
    let mut state = test_state();
    let response = process_request(&mut state, "{oops").unwrap();
    assert!(response.id.is_none());
    assert!(response.result.is_none());
    assert_eq!(response.error.unwrap().code, -32700);
}

#[test]
fn tools_call_before_initialize_is_refused() {
    let mut state = test_state();
    let line = r#"{"jsonrpc":"2.0","id":7,"method":"tools/call","params":{"name":"tmux_list_panes"}}"#;
    let response = process_request(&mut state, line).unwrap();
    let error = response.error.unwrap();
    assert_eq!(error.code, -32603);
    assert_eq!(error.message, "Server not initialized. Send 'initialize' first.");
    process_request(&mut state, r#"{"jsonrpc":"2.0","method":"initialized"}"#);
    let response = process_request(&mut state, line).unwrap();
    assert!(response.error.is_none());
    assert!(!tool_result(&response).is_error);
}

#[test]
fn failed_creation_rolls_back() {
    let mut state = AppState::new(NoWindowExecutor, 5);
    let mut args = HashMap::new();
    args.insert("command".to_string(), Value::String("bash".to_string()));
    let result = call(&mut state, "tmux_create_pane", args);
    assert!(result.is_error);
    assert_eq!(text(&result), "Failed to create pane: Tmux session 'debug-5' not found");
    assert!(state.pane_manager.is_empty());
    let mut args = HashMap::new();
    args.insert("command".to_string(), Value::String("bash".to_string()));
    call(&mut state, "tmux_create_pane", args);
    // The rolled-back identifier is not handed out again.
    assert!(state.pane_manager.get("debug-1").is_none());
}

#[test]
fn tools_call_with_missing_params_is_invalid_params() {
    let mut state = test_state();
    process_request(&mut state, r#"{"jsonrpc":"2.0","id":1,"method":"initialize"}"#);
    let response = process_request(&mut state, r#"{"jsonrpc":"2.0","id":2,"method":"tools/call"}"#).unwrap();
    let error = response.error.unwrap();
    assert_eq!(error.code, -32602);
    assert_eq!(error.message, "tools/call requires params");
}

#[test]
fn audit_records_are_queued() {
    let mut state = test_state();
    let mut args = HashMap::new();
    args.insert("command".to_string(), Value::String("bash".to_string()));
    call(&mut state, "tmux_create_pane", args);
    let mut args = HashMap::new();
    args.insert("pane_id".to_string(), Value::String("debug-1".to_string()));
    call(&mut state, "tmux_capture_pane", args);
    let tools: Vec<&str> = state.audit_queue.iter().map(|e| e.tool.as_str()).collect();
    assert_eq!(tools, vec!["create_pane", "capture_pane"]);
    assert_eq!(state.audit_queue[1].output_bytes, Some("line 1\nline 2\nline 3\n".len()));
    assert_eq!(state.capture_queue.len(), 1);
    assert_eq!(state.capture_queue[0].content, "line 1\nline 2\nline 3\n");
}

#[test]
fn wrongly_typed_optional_arguments_are_named() {
    let mut state = test_state();
    let mut args = HashMap::new();
    args.insert("command".to_string(), Value::String("bash".to_string()));
    args.insert("name".to_string(), Value::Number(3.into()));
    let result = call(&mut state, "tmux_create_pane", args);
    assert!(result.is_error);
    assert!(text(&result).contains("'name'"));
    assert!(state.pane_manager.is_empty());

    let mut args = HashMap::new();
    args.insert("command".to_string(), Value::String("bash".to_string()));
    call(&mut state, "tmux_create_pane", args);
    let mut args = HashMap::new();
    args.insert("pane_id".to_string(), Value::String("debug-1".to_string()));
    args.insert("lines".to_string(), Value::String("50".to_string()));
    let result = call(&mut state, "tmux_capture_pane", args);
    assert!(result.is_error);
    assert!(text(&result).contains("'lines'"));
}

#[test]
fn missing_command_uses_no_identifier() {
    let mut state = test_state();
    call(&mut state, "tmux_create_pane", HashMap::new());
    let mut args = HashMap::new();
    args.insert("command".to_string(), Value::String("bash".to_string()));
    let created = call(&mut state, "tmux_create_pane", args);
    assert!(text(&created).contains("(id: debug-1)"));
}

#[test]
fn non_json_line_leaves_the_handshake_alone() {
    let mut state = test_state();
    process_request(&mut state, "garbage");
    let response = process_request(&mut state, r#"{"jsonrpc":"2.0","id":1,"method":"tools/list"}"#).unwrap();
    assert_eq!(response.error.unwrap().code, -32603);
    assert!(!state.tmux_session.is_created());
}
