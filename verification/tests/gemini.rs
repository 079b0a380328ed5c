use sandboxed::backend::ExecutionEvent;
use sandboxed::gemini::{
    convert_gemini_event, convert_gemini_event_with, registry_entry, GeminiBackend, GeminiEvent,
    GeminiStats, GeminiToolError,
};
use sandboxed::json::Json;
use sandboxed::json_text::parse_json;

fn json(text: &str) -> Json {
    parse_json(text).unwrap()
}

#[test]
fn convert_gemini_event_init_no_events() {
    let event = GeminiEvent::Init {
        session_id: Some("s1".to_string()),
        model: Some("gemini-2.5-flash".to_string()),
    };
    let events = convert_gemini_event(event);
    assert!(events.is_empty(), "Init should produce no execution events");
}

#[test]
fn convert_gemini_event_assistant_message() {
    let event = GeminiEvent::Message {
        role: Some("assistant".to_string()),
        content: Some("Hello world".to_string()),
        delta: Some(true),
    };
    let events = convert_gemini_event(event);
    assert_eq!(events.len(), 1);
    match &events[0] {
        ExecutionEvent::TextDelta { content } => {
            assert_eq!(content, "Hello world");
        }
        other => panic!("Expected TextDelta, got {:?}", other),
    }
}

#[test]
fn convert_gemini_event_user_message_ignored() {
    let event = GeminiEvent::Message {
        role: Some("user".to_string()),
        content: Some("User message".to_string()),
        delta: Some(false),
    };
    let events = convert_gemini_event(event);
    assert!(events.is_empty(), "User messages should be ignored");
}

#[test]
fn convert_gemini_event_tool_use() {
    let event = GeminiEvent::ToolUse {
        tool_name: Some("read_file".to_string()),
        tool_id: Some("tc1".to_string()),
        parameters: Some(json(r#"{"path": "/tmp/test.txt"}"#)),
    };
    let events = convert_gemini_event(event);
    assert_eq!(events.len(), 1);
    match &events[0] {
        ExecutionEvent::ToolCall { id, name, args } => {
            assert_eq!(id, "tc1");
            assert_eq!(name, "read_file");
            assert_eq!(args.get_str("path"), Some("/tmp/test.txt"));
        }
        other => panic!("Expected ToolCall, got {:?}", other),
    }
}

#[test]
fn convert_gemini_event_tool_result_success() {
    let event = GeminiEvent::ToolResult {
        tool_id: Some("tc1".to_string()),
        status: Some("success".to_string()),
        output: Some(json(r#""file contents""#)),
        error: None,
    };
    let events = convert_gemini_event(event);
    assert_eq!(events.len(), 1);
    match &events[0] {
        ExecutionEvent::ToolResult { id, result, .. } => {
            assert_eq!(id, "tc1");
            assert_eq!(result.as_str(), Some("file contents"));
        }
        other => panic!("Expected ToolResult, got {:?}", other),
    }
}

#[test]
fn convert_gemini_event_error() {
    let event = GeminiEvent::Error {
        severity: Some("error".to_string()),
        message: "Something failed".to_string(),
    };
    let events = convert_gemini_event(event);
    assert_eq!(events.len(), 1);
    match &events[0] {
        ExecutionEvent::Error { message } => {
            assert_eq!(message, "Something failed");
        }
        other => panic!("Expected Error, got {:?}", other),
    }
}

#[test]
fn convert_gemini_event_warning_ignored() {
    let event = GeminiEvent::Error {
        severity: Some("warning".to_string()),
        message: "Just a warning".to_string(),
    };
    let events = convert_gemini_event(event);
    assert!(events.is_empty(), "Warnings should not produce events");
}

#[test]
fn convert_gemini_event_result_with_usage() {
    let event = GeminiEvent::Result {
        status: Some("success".to_string()),
        stats: Some(GeminiStats {
            total_input_tokens: Some(1500),
            total_output_tokens: Some(300),
            models: None,
        }),
    };
    let events = convert_gemini_event(event);
    assert_eq!(events.len(), 1);
    match &events[0] {
        ExecutionEvent::Usage {
            input_tokens,
            output_tokens,
        } => {
            assert_eq!(*input_tokens, 1500);
            assert_eq!(*output_tokens, 300);
        }
        other => panic!("Expected Usage, got {:?}", other),
    }
}

#[test]
fn convert_gemini_event_result_zero_usage() {
    let event = GeminiEvent::Result {
        status: Some("success".to_string()),
        stats: Some(GeminiStats {
            total_input_tokens: Some(0),
            total_output_tokens: Some(0),
            models: None,
        }),
    };
    let events = convert_gemini_event(event);
    assert!(events.is_empty(), "Zero usage should not emit Usage event");
}

#[test]
fn convert_gemini_event_unknown_no_events() {
    let event = GeminiEvent::Unknown;
    let events = convert_gemini_event(event);
    assert!(events.is_empty());
}

/// A tool call without an identifier gets a random one.
#[test]
fn gemini_tool_call_without_id_gets_one() {
    let call = || GeminiEvent::ToolUse {
        tool_name: Some("run".to_string()),
        tool_id: None,
        parameters: None,
    };
    let mut ids: Vec<String> = Vec::new();
    for _ in 0..2 {
        match &convert_gemini_event(call())[0] {
            ExecutionEvent::ToolCall { id, name, args } => {
                assert_eq!(name, "run");
                assert!(matches!(args, Json::Object(m) if m.is_empty()));
                assert_eq!(id.len(), 36);
                assert_eq!(id.split('-').map(|p| p.len()).collect::<Vec<_>>(), [8, 4, 4, 4, 12]);
                ids.push(id.clone());
            }
            other => panic!("Expected ToolCall, got {:?}", other),
        }
    }
    assert_ne!(ids[0], ids[1]);
    match &convert_gemini_event_with(call(), "fresh".to_string())[0] {
        ExecutionEvent::ToolCall { id, .. } => assert_eq!(id, "fresh"),
        other => panic!("Expected ToolCall, got {:?}", other),
    }
}

#[test]
fn gemini_tool_error_is_part_of_the_result() {
    let events = convert_gemini_event(GeminiEvent::ToolResult {
        tool_id: Some("t".to_string()),
        status: Some("error".to_string()),
        output: None,
        error: Some(GeminiToolError {
            error_type: Some("io".to_string()),
            message: Some("no such file".to_string()),
        }),
    });
    match &events[0] {
        ExecutionEvent::ToolResult { id, name, result } => {
            assert_eq!(id, "t");
            assert_eq!(name, "t");
            let error = result.get("error").unwrap();
            assert_eq!(error.get_str("type"), Some("io"));
            assert_eq!(error.get_str("message"), Some("no such file"));
            assert!(result.get("output").unwrap().is_null());
        }
        other => panic!("Expected ToolResult, got {:?}", other),
    }
}

#[test]
fn gemini_empty_message_is_silent() {
    let events = convert_gemini_event(GeminiEvent::Message {
        role: Some("assistant".to_string()),
        content: Some(String::new()),
        delta: None,
    });
    assert!(events.is_empty());
}

#[test]
fn gemini_backend_keeps_its_configuration() {
    let mut backend: GeminiBackend<u8, ()> = registry_entry();
    assert_eq!(backend.id(), "gemini");
    assert_eq!(backend.name(), "Gemini CLI");
    assert_eq!(*backend.get_config(), 0);
    backend.update_config(7);
    assert_eq!(*backend.get_config(), 7);
    let backend: GeminiBackend<u8, char> = GeminiBackend::with_config_and_workspace(1, 'w');
    assert_eq!(backend.workspace_exec(), Some(&'w'));
    assert_eq!(backend.list_agents()[0].name, "Gemini Agent");
}
