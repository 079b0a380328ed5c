use sandboxed::backend::{ExecutionEvent, SessionConfig};
use sandboxed::codex::{
    convert_codex_event, convert_codex_event_with, encoded_arguments, extract_text_field,
    extract_text_field_with_reasoning, registry_entry, tool_name, CodexBackend,
    CodexError, CodexEvent, CodexItem, CodexUsage,
};
use sandboxed::gemini::GeminiBackend;
use sandboxed::json::Json;
use sandboxed::json_text::parse_json;
use sandboxed::textmap::TextMap;

fn json(text: &str) -> Json {
    parse_json(text).unwrap()
}

fn count(usage: &Json, key: &str) -> Option<u64> {
    usage.get(key).and_then(|v| v.as_u64())
}

fn text(j: &Json, key: &str) -> String {
    j.get_str(key).unwrap().to_string()
}

fn item(j: &Json) -> CodexItem {
    let item = j.get("item").unwrap();
    let mut data: Vec<(String, Json)> = Vec::new();
    if let Json::Object(members) = item {
        for (k, v) in members {
            if k != "id" && k != "type" {
                data.push((k.clone(), v.clone()));
            }
        }
    }
    CodexItem {
        id: text(item, "id"),
        item_type: text(item, "type"),
        data,
    }
}

/// Reads a line of the event stream.
fn event(line: &str) -> CodexEvent {
    let j = json(line);
    match j.get_str("type").unwrap() {
        "thread.started" => CodexEvent::ThreadStarted {
            thread_id: text(&j, "thread_id"),
        },
        "turn.started" => CodexEvent::TurnStarted,
        "turn.completed" => CodexEvent::TurnCompleted {
            summary: j.get_str("summary").map(|s| s.to_string()),
            usage: j.get("usage").map(|u| CodexUsage {
                input_tokens: count(u, "input_tokens"),
                output_tokens: count(u, "output_tokens"),
                prompt_tokens: count(u, "prompt_tokens"),
                completion_tokens: count(u, "completion_tokens"),
            }),
        },
        "turn.failed" => CodexEvent::TurnFailed {
            error: CodexError {
                message: text(j.get("error").unwrap(), "message"),
            },
        },
        "item.created" => CodexEvent::ItemCreated { item: item(&j) },
        "item.updated" => CodexEvent::ItemUpdated { item: item(&j) },
        "item.completed" => CodexEvent::ItemCompleted { item: item(&j) },
        "error" => CodexEvent::Error {
            message: text(&j, "message"),
        },
        _ => CodexEvent::Unknown,
    }
}

fn session_config(model: &str) -> SessionConfig {
    SessionConfig {
        directory: "/tmp".to_string(),
        title: Some("Test".to_string()),
        model: Some(model.to_string()),
        agent: None,
    }
}

#[test]
fn mod_test_list_agents() {
    let backend: CodexBackend<(), ()> = CodexBackend::new();
    let agents = backend.list_agents();
    assert_eq!(agents.len(), 1);
    assert_eq!(agents[0].id, "default");

    let backend: GeminiBackend<(), ()> = GeminiBackend::new();
    let agents = backend.list_agents();
    assert_eq!(agents.len(), 1);
    assert_eq!(agents[0].id, "default");
}

#[test]
fn mod_test_create_session() {
    let backend: CodexBackend<(), ()> = CodexBackend::new();
    let session = backend.create_session("s1".to_string(), session_config("gpt-5.1-codex"));
    assert!(!session.id.is_empty());
    assert_eq!(session.directory, "/tmp");

    let backend: GeminiBackend<(), ()> = GeminiBackend::new();
    let session = backend.create_session("s2".to_string(), session_config("gemini-2.5-flash"));
    assert!(!session.id.is_empty());
    assert_eq!(session.directory, "/tmp");
}

#[test]
fn convert_codex_event_thread_started_no_events() {
    let event = event(
        r#"{
        "type": "thread.started",
        "thread_id": "t1"
    }"#,
    );
    let mut cache = TextMap::new();
    let events = convert_codex_event(event, &mut cache);
    assert!(events.is_empty(), "ThreadStarted should produce no events");
}

#[test]
fn convert_codex_event_turn_started_no_events() {
    let event = event(
        r#"{
        "type": "turn.started"
    }"#,
    );
    let mut cache = TextMap::new();
    let events = convert_codex_event(event, &mut cache);
    assert!(events.is_empty(), "TurnStarted should produce no events");
}

#[test]
fn convert_codex_event_turn_completed_with_summary() {
    let event = event(
        r#"{
        "type": "turn.completed",
        "summary": "All tasks done"
    }"#,
    );
    let mut cache = TextMap::new();
    let events = convert_codex_event(event, &mut cache);
    assert_eq!(events.len(), 1);
    match &events[0] {
        ExecutionEvent::TurnSummary { content } => {
            assert_eq!(content, "All tasks done");
        }
        other => panic!("Expected TurnSummary, got {:?}", other),
    }
}

#[test]
fn convert_codex_event_turn_completed_no_summary() {
    let event = event(
        r#"{
        "type": "turn.completed"
    }"#,
    );
    let mut cache = TextMap::new();
    let events = convert_codex_event(event, &mut cache);
    assert!(events.is_empty(), "None summary should produce no events");
}

#[test]
fn convert_codex_event_turn_completed_blank_summary() {
    let event = event(
        r#"{
        "type": "turn.completed",
        "summary": "   "
    }"#,
    );
    let mut cache = TextMap::new();
    let events = convert_codex_event(event, &mut cache);
    assert!(events.is_empty(), "Blank summary should produce no events");
}

#[test]
fn convert_codex_event_turn_completed_with_usage() {
    let event = event(
        r#"{
        "type": "turn.completed",
        "summary": "Done",
        "usage": {
            "input_tokens": 1500,
            "output_tokens": 300
        }
    }"#,
    );
    let mut cache = TextMap::new();
    let events = convert_codex_event(event, &mut cache);
    assert_eq!(events.len(), 2);
    match &events[0] {
        ExecutionEvent::TurnSummary { content } => assert_eq!(content, "Done"),
        other => panic!("Expected TurnSummary, got {:?}", other),
    }
    match &events[1] {
        ExecutionEvent::Usage {
            input_tokens,
            output_tokens,
        } => {
            assert_eq!(*input_tokens, 1500);
            assert_eq!(*output_tokens, 300);
        }
        other => panic!("Expected Usage, got {:?}", other),
    }
}

#[test]
fn convert_codex_event_turn_completed_with_legacy_usage() {
    // Codex may use prompt_tokens/completion_tokens naming
    let event = event(
        r#"{
        "type": "turn.completed",
        "usage": {
            "prompt_tokens": 800,
            "completion_tokens": 200
        }
    }"#,
    );
    let mut cache = TextMap::new();
    let events = convert_codex_event(event, &mut cache);
    assert_eq!(events.len(), 1);
    match &events[0] {
        ExecutionEvent::Usage {
            input_tokens,
            output_tokens,
        } => {
            assert_eq!(*input_tokens, 800);
            assert_eq!(*output_tokens, 200);
        }
        other => panic!("Expected Usage, got {:?}", other),
    }
}

#[test]
fn convert_codex_event_turn_completed_with_zero_usage() {
    let event = event(
        r#"{
        "type": "turn.completed",
        "usage": {
            "input_tokens": 0,
            "output_tokens": 0
        }
    }"#,
    );
    let mut cache = TextMap::new();
    let events = convert_codex_event(event, &mut cache);
    assert!(events.is_empty(), "Zero usage should not emit Usage event");
}

#[test]
fn convert_codex_event_turn_failed() {
    let event = event(
        r#"{
        "type": "turn.failed",
        "error": { "message": "something went wrong" }
    }"#,
    );
    let mut cache = TextMap::new();
    let events = convert_codex_event(event, &mut cache);
    assert_eq!(events.len(), 1);
    match &events[0] {
        ExecutionEvent::Error { message } => {
            assert_eq!(message, "something went wrong");
        }
        other => panic!("Expected Error, got {:?}", other),
    }
}

#[test]
fn convert_codex_event_error() {
    let event = event(
        r#"{
        "type": "error",
        "message": "fatal error"
    }"#,
    );
    let mut cache = TextMap::new();
    let events = convert_codex_event(event, &mut cache);
    assert_eq!(events.len(), 1);
    match &events[0] {
        ExecutionEvent::Error { message } => {
            assert_eq!(message, "fatal error");
        }
        other => panic!("Expected Error, got {:?}", other),
    }
}

#[test]
fn convert_codex_event_unknown_no_events() {
    // Use an unrecognized type string to trigger the Unknown variant
    let event = event(
        r#"{
        "type": "some.unknown.event"
    }"#,
    );
    let mut cache = TextMap::new();
    let events = convert_codex_event(event, &mut cache);
    assert!(events.is_empty(), "Unknown event should produce nothing");
}

#[test]
fn convert_codex_event_item_created_message() {
    let event = event(
        r#"{
        "type": "item.created",
        "item": {
            "id": "msg1",
            "type": "message",
            "text": "Hello world"
        }
    }"#,
    );
    let mut cache = TextMap::new();
    let events = convert_codex_event(event, &mut cache);
    assert_eq!(events.len(), 1);
    match &events[0] {
        ExecutionEvent::TextDelta { content } => {
            assert_eq!(content, "Hello world");
        }
        other => panic!("Expected TextDelta, got {:?}", other),
    }
}

#[test]
fn convert_codex_event_item_created_thinking() {
    let event = event(
        r#"{
        "type": "item.created",
        "item": {
            "id": "think1",
            "type": "thinking",
            "text": "Let me consider..."
        }
    }"#,
    );
    let mut cache = TextMap::new();
    let events = convert_codex_event(event, &mut cache);
    assert_eq!(events.len(), 1);
    match &events[0] {
        ExecutionEvent::Thinking { content } => {
            assert_eq!(content, "Let me consider...");
        }
        other => panic!("Expected Thinking, got {:?}", other),
    }
}

#[test]
fn convert_codex_event_item_created_tool_call() {
    let event = event(
        r#"{
        "type": "item.created",
        "item": {
            "id": "tc1",
            "type": "tool_call",
            "name": "read_file",
            "arguments": "{\"path\": \"/tmp/test.txt\"}"
        }
    }"#,
    );
    let mut cache = TextMap::new();
    let events = convert_codex_event(event, &mut cache);
    assert_eq!(events.len(), 1);
    match &events[0] {
        ExecutionEvent::ToolCall { id, name, args } => {
            assert_eq!(id, "tc1");
            assert_eq!(name, "read_file");
            // arguments was a JSON string, should be parsed
            assert_eq!(args.get_str("path"), Some("/tmp/test.txt"));
        }
        other => panic!("Expected ToolCall, got {:?}", other),
    }
}

#[test]
fn convert_codex_event_item_created_command() {
    let event = event(
        r#"{
        "type": "item.created",
        "item": {
            "id": "cmd1",
            "type": "command",
            "name": "shell",
            "args": {"cmd": "ls -la"}
        }
    }"#,
    );
    let mut cache = TextMap::new();
    let events = convert_codex_event(event, &mut cache);
    assert_eq!(events.len(), 1);
    match &events[0] {
        ExecutionEvent::ToolCall { id, name, args } => {
            assert_eq!(id, "cmd1");
            assert_eq!(name, "shell");
            assert_eq!(args.get_str("cmd"), Some("ls -la"));
        }
        other => panic!("Expected ToolCall, got {:?}", other),
    }
}

#[test]
fn convert_codex_event_item_completed_command_execution_emits_call_and_result() {
    let event = event(
        r#"{
        "type": "item.completed",
        "item": {
            "id": "cmd_exec1",
            "type": "command_execution",
            "command": "/bin/bash -lc \"ls -la\"",
            "aggregated_output": "total 0\n",
            "exit_code": 0,
            "status": "completed"
        }
    }"#,
    );
    let mut cache = TextMap::new();
    let events = convert_codex_event(event, &mut cache);
    assert_eq!(events.len(), 2);
    match &events[0] {
        ExecutionEvent::ToolCall { id, name, args } => {
            assert_eq!(id, "cmd_exec1");
            assert_eq!(name, "bash");
            assert_eq!(args.get_str("command"), Some("/bin/bash -lc \"ls -la\""));
        }
        other => panic!("Expected ToolCall, got {:?}", other),
    }
    match &events[1] {
        ExecutionEvent::ToolResult { id, name, result } => {
            assert_eq!(id, "cmd_exec1");
            assert_eq!(name, "bash");
            assert_eq!(result.get_str("output"), Some("total 0\n"));
            assert_eq!(result.get("exit_code").and_then(|v| v.as_i64()), Some(0));
            assert_eq!(result.get_str("status"), Some("completed"));
        }
        other => panic!("Expected ToolResult, got {:?}", other),
    }
}

#[test]
fn convert_codex_event_item_completed_command_execution_after_created_only_emits_result() {
    let created_event = event(
        r#"{
        "type": "item.created",
        "item": {
            "id": "cmd_exec2",
            "type": "command_execution",
            "command": "pwd"
        }
    }"#,
    );
    let completed_event = event(
        r#"{
        "type": "item.completed",
        "item": {
            "id": "cmd_exec2",
            "type": "command_execution",
            "command": "pwd",
            "aggregated_output": "/tmp\n",
            "exit_code": 0,
            "status": "completed"
        }
    }"#,
    );
    let mut cache = TextMap::new();
    let created = convert_codex_event(created_event, &mut cache);
    assert_eq!(created.len(), 1);
    let completed = convert_codex_event(completed_event, &mut cache);
    assert_eq!(completed.len(), 1);
    match &completed[0] {
        ExecutionEvent::ToolResult { id, name, result } => {
            assert_eq!(id, "cmd_exec2");
            assert_eq!(name, "bash");
            assert_eq!(result.get_str("output"), Some("/tmp\n"));
        }
        other => panic!("Expected ToolResult, got {:?}", other),
    }
}

#[test]
fn convert_codex_event_repeated_command_execution_updates_emit_one_call() {
    let created_event = event(
        r#"{
        "type": "item.created",
        "item": {
            "id": "cmd_exec_repeat",
            "type": "command_execution",
            "command": "pwd"
        }
    }"#,
    );
    let updated_event = event(
        r#"{
        "type": "item.updated",
        "item": {
            "id": "cmd_exec_repeat",
            "type": "command_execution",
            "command": "pwd",
            "aggregated_output": "/tmp\n"
        }
    }"#,
    );
    let mut cache = TextMap::new();
    let created = convert_codex_event(created_event, &mut cache);
    let updated = convert_codex_event(updated_event, &mut cache);

    assert_eq!(created.len(), 1);
    assert!(matches!(created[0], ExecutionEvent::ToolCall { .. }));
    assert!(updated.is_empty());
}

#[test]
fn convert_codex_event_item_created_mcp_tool_call() {
    let event = event(
        r#"{
        "type": "item.created",
        "item": {
            "id": "mcp1",
            "type": "mcp_tool_call",
            "server": "my_server",
            "tool": "my_tool",
            "arguments": {"key": "value"}
        }
    }"#,
    );
    let mut cache = TextMap::new();
    let events = convert_codex_event(event, &mut cache);
    assert_eq!(events.len(), 1);
    match &events[0] {
        ExecutionEvent::ToolCall { id, name, args } => {
            assert_eq!(id, "mcp1");
            assert_eq!(name, "mcp__my_server__my_tool");
            assert_eq!(args.get_str("key"), Some("value"));
        }
        other => panic!("Expected ToolCall, got {:?}", other),
    }
}

#[test]
fn convert_codex_event_item_completed_message() {
    let event = event(
        r#"{
        "type": "item.completed",
        "item": {
            "id": "msg2",
            "type": "message",
            "text": "Final answer"
        }
    }"#,
    );
    let mut cache = TextMap::new();
    let events = convert_codex_event(event, &mut cache);
    assert_eq!(events.len(), 1);
    match &events[0] {
        ExecutionEvent::TextDelta { content } => {
            assert_eq!(content, "Final answer");
        }
        other => panic!("Expected TextDelta, got {:?}", other),
    }
}

#[test]
fn convert_codex_event_item_completed_tool_result() {
    let event = event(
        r#"{
        "type": "item.completed",
        "item": {
            "id": "tc2",
            "type": "tool_call",
            "name": "read_file",
            "result": "file contents here"
        }
    }"#,
    );
    let mut cache = TextMap::new();
    let events = convert_codex_event(event, &mut cache);
    assert_eq!(events.len(), 1);
    match &events[0] {
        ExecutionEvent::ToolResult { id, name, result } => {
            assert_eq!(id, "tc2");
            assert_eq!(name, "read_file");
            assert_eq!(result.as_str(), Some("file contents here"));
        }
        other => panic!("Expected ToolResult, got {:?}", other),
    }
}

#[test]
fn convert_codex_event_item_completed_mcp_first_time() {
    // When an mcp_tool_call appears in ItemCompleted but was never emitted via
    // ItemCreated, both ToolCall and ToolResult should be produced.
    let event = event(
        r#"{
        "type": "item.completed",
        "item": {
            "id": "mcp2",
            "type": "mcp_tool_call",
            "server": "srv",
            "tool": "do_thing",
            "arguments": {"a": 1},
            "result": "ok"
        }
    }"#,
    );
    let mut cache = TextMap::new();
    let events = convert_codex_event(event, &mut cache);
    assert_eq!(events.len(), 2);
    match &events[0] {
        ExecutionEvent::ToolCall { id, name, args } => {
            assert_eq!(id, "mcp2");
            assert_eq!(name, "mcp__srv__do_thing");
            assert_eq!(args.get("a").and_then(|v| v.as_i64()), Some(1));
        }
        other => panic!("Expected ToolCall, got {:?}", other),
    }
    match &events[1] {
        ExecutionEvent::ToolResult { id, name, result } => {
            assert_eq!(id, "mcp2");
            assert_eq!(name, "mcp__srv__do_thing");
            assert_eq!(result.as_str(), Some("ok"));
        }
        other => panic!("Expected ToolResult, got {:?}", other),
    }
}

#[test]
fn convert_codex_event_item_completed_mcp_already_created() {
    // Simulate that ItemCreated already emitted the ToolCall.
    // ItemCompleted should only emit ToolResult.
    let created_event = event(
        r#"{
        "type": "item.created",
        "item": {
            "id": "mcp3",
            "type": "mcp_tool_call",
            "server": "srv",
            "tool": "do_thing",
            "arguments": {"a": 1}
        }
    }"#,
    );
    let mut cache = TextMap::new();
    let _ = convert_codex_event(created_event, &mut cache);

    let completed_event = event(
        r#"{
        "type": "item.completed",
        "item": {
            "id": "mcp3",
            "type": "mcp_tool_call",
            "server": "srv",
            "tool": "do_thing",
            "arguments": {"a": 1},
            "result": "done"
        }
    }"#,
    );
    let events = convert_codex_event(completed_event, &mut cache);
    // Should only have ToolResult, no duplicate ToolCall
    assert_eq!(events.len(), 1);
    match &events[0] {
        ExecutionEvent::ToolResult { id, name, result } => {
            assert_eq!(id, "mcp3");
            assert_eq!(name, "mcp__srv__do_thing");
            assert_eq!(result.as_str(), Some("done"));
        }
        other => panic!("Expected ToolResult, got {:?}", other),
    }
}

#[test]
fn convert_codex_event_text_snapshot_updates() {
    // Two ItemUpdated events where the second text extends the first.
    // The second call should produce the full updated snapshot.
    let event1 = event(
        r#"{
        "type": "item.updated",
        "item": {
            "id": "msg_dedup",
            "type": "message",
            "text": "Hello"
        }
    }"#,
    );
    let event2 = event(
        r#"{
        "type": "item.updated",
        "item": {
            "id": "msg_dedup",
            "type": "message",
            "text": "Hello world"
        }
    }"#,
    );
    let mut cache = TextMap::new();
    let events1 = convert_codex_event(event1, &mut cache);
    assert_eq!(events1.len(), 1);
    match &events1[0] {
        ExecutionEvent::TextDelta { content } => assert_eq!(content, "Hello"),
        other => panic!("Expected TextDelta, got {:?}", other),
    }

    let events2 = convert_codex_event(event2, &mut cache);
    assert_eq!(events2.len(), 1);
    match &events2[0] {
        ExecutionEvent::TextDelta { content } => assert_eq!(content, "Hello world"),
        other => panic!("Expected TextDelta, got {:?}", other),
    }
}

#[test]
fn convert_codex_event_text_snapshot_skips_unchanged() {
    let event1 = event(
        r#"{
        "type": "item.updated",
        "item": {
            "id": "msg_same",
            "type": "message",
            "text": "No change"
        }
    }"#,
    );
    let event2 = event(
        r#"{
        "type": "item.updated",
        "item": {
            "id": "msg_same",
            "type": "message",
            "text": "No change"
        }
    }"#,
    );

    let mut cache = TextMap::new();
    let events1 = convert_codex_event(event1, &mut cache);
    assert_eq!(events1.len(), 1);
    let events2 = convert_codex_event(event2, &mut cache);
    assert!(events2.is_empty());
}

#[test]
fn convert_codex_event_thinking_dedup_skips_unchanged() {
    // Two ItemUpdated with "thinking" and the same text.
    // The second should produce nothing.
    let event1 = event(
        r#"{
        "type": "item.updated",
        "item": {
            "id": "think_dedup",
            "type": "thinking",
            "text": "same thought"
        }
    }"#,
    );
    let event2 = event(
        r#"{
        "type": "item.updated",
        "item": {
            "id": "think_dedup",
            "type": "thinking",
            "text": "same thought"
        }
    }"#,
    );
    let mut cache = TextMap::new();
    let events1 = convert_codex_event(event1, &mut cache);
    assert_eq!(events1.len(), 1);
    match &events1[0] {
        ExecutionEvent::Thinking { content } => assert_eq!(content, "same thought"),
        other => panic!("Expected Thinking, got {:?}", other),
    }

    let events2 = convert_codex_event(event2, &mut cache);
    assert!(
        events2.is_empty(),
        "Unchanged thinking text should produce no events"
    );
}

#[test]
fn convert_codex_event_unknown_item_type() {
    let event = event(
        r#"{
        "type": "item.created",
        "item": {
            "id": "unk1",
            "type": "weird_type",
            "text": "data"
        }
    }"#,
    );
    let mut cache = TextMap::new();
    let events = convert_codex_event(event, &mut cache);
    assert!(
        events.is_empty(),
        "Unrecognized item type should produce no events"
    );
}

#[test]
fn convert_codex_event_tool_name_fallback_to_tool_object() {
    // When "name" is not a top-level string but is nested under data["tool"]["name"]
    let event = event(
        r#"{
        "type": "item.created",
        "item": {
            "id": "tc_fallback",
            "type": "tool_call",
            "tool": {
                "name": "nested_tool",
                "arguments": "{\"x\": 42}"
            }
        }
    }"#,
    );
    let mut cache = TextMap::new();
    let events = convert_codex_event(event, &mut cache);
    assert_eq!(events.len(), 1);
    match &events[0] {
        ExecutionEvent::ToolCall { id, name, args } => {
            assert_eq!(id, "tc_fallback");
            assert_eq!(name, "nested_tool");
            // Args come from the nested tool object's arguments field (parsed from JSON string)
            assert_eq!(args.get("x").and_then(|v| v.as_i64()), Some(42));
        }
        other => panic!("Expected ToolCall, got {:?}", other),
    }
}

#[test]
fn convert_codex_event_tool_args_from_input_field() {
    // When args are provided via data["input"] instead of data["arguments"]
    let event = event(
        r#"{
        "type": "item.created",
        "item": {
            "id": "tc_input",
            "type": "tool_call",
            "name": "write_file",
            "input": {"path": "/tmp/out.txt", "content": "hello"}
        }
    }"#,
    );
    let mut cache = TextMap::new();
    let events = convert_codex_event(event, &mut cache);
    assert_eq!(events.len(), 1);
    match &events[0] {
        ExecutionEvent::ToolCall { id, name, args } => {
            assert_eq!(id, "tc_input");
            assert_eq!(name, "write_file");
            assert_eq!(args.get_str("path"), Some("/tmp/out.txt"));
            assert_eq!(args.get_str("content"), Some("hello"));
        }
        other => panic!("Expected ToolCall, got {:?}", other),
    }
}

#[test]
fn convert_codex_event_tool_result_with_error() {
    // ItemCompleted tool_call with an error field should produce ToolResult containing the error
    let event = event(
        r#"{
        "type": "item.completed",
        "item": {
            "id": "tc_err",
            "type": "tool_call",
            "name": "run_cmd",
            "result": null,
            "error": "command not found"
        }
    }"#,
    );
    let mut cache = TextMap::new();
    let events = convert_codex_event(event, &mut cache);
    assert_eq!(events.len(), 1);
    match &events[0] {
        ExecutionEvent::ToolResult { id, name, result } => {
            assert_eq!(id, "tc_err");
            assert_eq!(name, "run_cmd");
            // The result should contain the error field
            assert_eq!(result.get_str("error"), Some("command not found"));
        }
        other => panic!("Expected ToolResult, got {:?}", other),
    }
}

// ---------------------------------------------------------------
// Tests for extract_text_field
// ---------------------------------------------------------------

#[test]
fn extract_text_field_from_text_key() {
    let mut data: Vec<(String, Json)> = Vec::new();
    data.push(("text".to_string(), Json::Text("hello from text".to_string())));
    let result = extract_text_field(&data);
    assert_eq!(result, Some("hello from text".to_string()));
}

#[test]
fn extract_text_field_from_content_key() {
    let mut data: Vec<(String, Json)> = Vec::new();
    data.push(("content".to_string(), Json::Text("hello from content".to_string())));
    let result = extract_text_field(&data);
    assert_eq!(result, Some("hello from content".to_string()));
}

#[test]
fn extract_text_field_from_output_text_key() {
    let mut data: Vec<(String, Json)> = Vec::new();
    data.push(("output_text".to_string(), Json::Text("hello from output_text".to_string())));
    let result = extract_text_field(&data);
    assert_eq!(result, Some("hello from output_text".to_string()));
}

#[test]
fn extract_text_field_from_content_array() {
    let mut data: Vec<(String, Json)> = Vec::new();
    data.push(("content".to_string(), json(r#"[
            {"text": "part one"},
            {"text": " part two"}
        ]"#)));
    let result = extract_text_field(&data);
    assert_eq!(result, Some("part one part two".to_string()));
}

#[test]
fn extract_text_field_from_content_array_skips_reasoning_blocks() {
    let mut data: Vec<(String, Json)> = Vec::new();
    data.push(("content".to_string(), json(r#"[
            {"type": "reasoning", "text": "thinking that should not leak"},
            {"type": "output_text", "text": "actual answer"}
        ]"#)));
    let result = extract_text_field(&data);
    assert_eq!(result, Some("actual answer".to_string()));
}

#[test]
fn extract_text_field_with_reasoning_includes_reasoning_blocks() {
    let mut data: Vec<(String, Json)> = Vec::new();
    data.push(("content".to_string(), json(r#"[
            {"type": "reasoning", "text": "thinking chunk"},
            {"type": "output_text", "text": "final text"}
        ]"#)));
    let result = extract_text_field_with_reasoning(&data);
    assert_eq!(result, Some("thinking chunkfinal text".to_string()));
}

#[test]
fn codex_backend_goes_by_its_names() {
    let mut backend: CodexBackend<String, u8> = registry_entry();
    assert_eq!(backend.id(), "codex");
    assert_eq!(backend.name(), "Codex");
    assert_eq!(backend.get_config(), "");
    assert!(backend.workspace_exec().is_none());
    backend.update_config("gpt-5.1-codex".to_string());
    assert_eq!(backend.get_config(), "gpt-5.1-codex");
    let backend: CodexBackend<String, u8> = CodexBackend::with_config("c".to_string());
    assert_eq!(backend.get_config(), "c");
}

/// Arguments that are no JSON are passed on as text.
#[test]
fn codex_arguments_that_do_not_parse_stay_text() {
    let line = r#"{"type": "item.created",
        "item": {"id": "t", "type": "tool_call", "name": "run", "arguments": "not json"}}"#;
    assert_eq!(encoded_arguments(&event(line)), Some("not json".to_string()));
    let mut cache = TextMap::new();
    let events = convert_codex_event(event(line), &mut cache);
    match &events[0] {
        ExecutionEvent::ToolCall { args, .. } => assert_eq!(args.as_str(), Some("not json")),
        other => panic!("Expected ToolCall, got {:?}", other),
    }
}

/// What the arguments parse to is taken over.
#[test]
fn codex_arguments_are_taken_from_what_they_parse_to() {
    let line = r#"{"type": "item.created",
        "item": {"id": "t", "type": "tool_call", "name": "run", "arguments": "{}"}}"#;
    let mut cache = TextMap::new();
    let events = convert_codex_event_with(event(line), Some(Json::Bool(true)), &mut cache);
    match &events[0] {
        ExecutionEvent::ToolCall { args, .. } => assert_eq!(args.as_bool(), Some(true)),
        other => panic!("Expected ToolCall, got {:?}", other),
    }
}

#[test]
fn codex_tool_name_is_found_at_the_top_or_nested() {
    let top = vec![("tool".to_string(), Json::Text("go".to_string()))];
    assert_eq!(tool_name(&top), Some("go".to_string()));
    let nested = vec![("function".to_string(), json(r#"{"name": "run"}"#))];
    assert_eq!(tool_name(&nested), Some("run".to_string()));
    assert_eq!(tool_name(&Vec::new()), None);
}
