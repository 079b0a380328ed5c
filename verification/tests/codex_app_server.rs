use sandboxed::backend::{ExecutionEvent, Session};
use sandboxed::codex::CodexConfig;
use sandboxed::codex_app_server::{
    app_server_config, elicitation_auto_approve, next_start_action, route_message,
    AppServerEventTranslator, MissionInput, StartAction, StartProgress, TranslateOutcome,
};
use sandboxed::json_text::parse_json;

fn notify(t: &mut AppServerEventTranslator, method: &str, params: &str, goal: bool) -> TranslateOutcome {
    t.handle_notification(method, &parse_json(params).unwrap(), goal)
}

fn once(method: &str, params: &str, goal: bool) -> TranslateOutcome {
    notify(&mut AppServerEventTranslator::new(), method, params, goal)
}

#[test]
fn pieces_of_text_are_passed_on() {
    let o = once("item/agentMessage/delta", r#"{"itemId": "i", "delta": "He"}"#, false);
    assert!(matches!(&o.events[..], [ExecutionEvent::TextDelta { content }] if content == "He"));
    assert!(!o.terminal);
    for method in ["item/reasoning/textDelta", "item/reasoning/summaryTextDelta"] {
        let o = once(method, r#"{"delta": "hm"}"#, false);
        assert!(matches!(&o.events[..], [ExecutionEvent::Thinking { content }] if content == "hm"));
    }
    assert!(once("item/agentMessage/delta", "{}", false).events.is_empty());
}

#[test]
fn items_become_tool_calls_and_results() {
    for kind in ["toolCall", "tool_call", "functionCall", "function_call"] {
        let item = format!(r#"{{"item": {{"type": "{}", "id": "i", "args": {{"a": 1}}, "output": "o"}}}}"#, kind);
        let o = once("item/started", &item, false);
        match &o.events[..] {
            [ExecutionEvent::ToolCall { id, name, args }] => {
                assert_eq!((id.as_str(), name.as_str()), ("i", "unknown_tool"));
                assert_eq!(args.get("a").and_then(|v| v.as_i64()), Some(1));
            }
            other => panic!("unexpected {:?}", other),
        }
        let o = once("item/completed", &item, false);
        match &o.events[..] {
            [ExecutionEvent::ToolResult { result, .. }] => assert_eq!(result.as_str(), Some("o")),
            other => panic!("unexpected {:?}", other),
        }
    }
    let item = r#"{"item": {"type": "commandExecution", "id": "c", "command": "ls", "aggregatedOutput": "x"}}"#;
    match &once("item/started", item, false).events[..] {
        [ExecutionEvent::ToolCall { name, args, .. }] => {
            assert_eq!(name, "bash");
            assert_eq!(args.get_str("command"), Some("ls"));
        }
        other => panic!("unexpected {:?}", other),
    }
    match &once("item/completed", item, false).events[..] {
        [ExecutionEvent::ToolResult { name, result, .. }] => {
            assert_eq!(name, "bash");
            assert_eq!(result.as_str(), Some("x"));
        }
        other => panic!("unexpected {:?}", other),
    }
    assert!(once("item/started", r#"{"item": {"type": "agentMessage"}}"#, false).events.is_empty());
}

#[test]
fn token_counts_are_reported_once_for_each_turn() {
    let mut t = AppServerEventTranslator::new();
    let turn = r#"{"turn": {"id": "t1", "status": "completed", "tokenUsage": {"inputTokens": 5, "output_tokens": 7}}}"#;
    let o = notify(&mut t, "turn/completed", turn, true);
    assert!(matches!(
        &o.events[..],
        [ExecutionEvent::Usage { input_tokens: 5, output_tokens: 7 }]
    ));
    assert!(notify(&mut t, "turn/completed", turn, true).events.is_empty());
}

#[test]
fn token_counts_of_several_turns_are_told_apart() {
    let mut t = AppServerEventTranslator::new();
    let turn = |id: &str| format!(r#"{{"turn": {{"id": "{}", "usage": {{"inputTokens": 1}}}}}}"#, id);
    let mut reported = Vec::new();
    for id in ["a", "b", "a", "", "b", "c", "a", ""] {
        notify(&mut t, "item/agentMessage/delta", r#"{"itemId": "a", "delta": "x"}"#, true);
        if !notify(&mut t, "turn/completed", &turn(id), true).events.is_empty() {
            reported.push(id);
        }
    }
    assert_eq!(reported, ["a", "b", "c"]);
}

#[test]
fn missions_end() {
    let done = r#"{"turn": {"id": "t", "status": "completed"}}"#;
    assert!(once("turn/completed", done, false).terminal);
    assert!(!once("turn/completed", done, true).terminal);
    for params in [r#"{"turn": {"id": "t1"}}"#, r#"{"turn": {"status": "odd"}}"#, "{}"] {
        let o = once("turn/completed", params, false);
        assert!(o.terminal && o.events.is_empty());
        assert!(!once("turn/completed", params, true).terminal);
    }
    assert!(once("turn/completed", r#"{"turn": {"status": "interrupted"}}"#, true).terminal);
    let o = once("turn/completed", r#"{"turn": {"status": "failed", "error": {"message": "m"}}}"#, true);
    assert!(o.terminal);
    assert!(matches!(&o.events[..], [ExecutionEvent::Error { message }] if message == "m"));
    let o = once("turn/completed", r#"{"turn": {"status": "failed"}}"#, true);
    assert!(matches!(&o.events[..], [ExecutionEvent::Error { message }] if message == "turn failed"));
    for (status, over) in [("complete", true), ("budgetLimited", true), ("active", false)] {
        let params = format!(r#"{{"goal": {{"status": "{}"}}}}"#, status);
        assert_eq!(once("thread/goal/updated", &params, true).terminal, over);
    }
    assert!(once("thread/goal/cleared", "{}", true).terminal);
    assert!(!once("thread/goal/cleared", "{}", false).terminal);
    let o = once("error", r#"{"error": {"message": "x"}, "willRetry": true}"#, false);
    assert!(!o.terminal && o.events.len() == 1);
    assert!(once("error", r#"{"error": {}}"#, false).terminal);
    let o = once("something/else", "{}", true);
    assert!(!o.terminal && o.events.is_empty());
}

#[test]
fn requests_of_the_server_are_approved() {
    assert!(elicitation_auto_approve("account/chatgptAuthTokens/refresh").is_null());
    assert_eq!(
        elicitation_auto_approve("item/commandExecution/requestApproval").get_str("decision"),
        Some("approve")
    );
}

#[test]
fn goals_are_told_from_turns() {
    assert!(matches!(route_message("  /goal  ship it "), MissionInput::Goal { objective } if objective == "ship it"));
    assert!(matches!(route_message("/goal /goal x"), MissionInput::Goal { objective } if objective == "/goal x"));
    assert!(matches!(route_message("/goal   "), MissionInput::EmptyGoal));
    assert!(matches!(route_message(" /goals x"), MissionInput::Turn { text } if text == " /goals x"));
}

fn config() -> CodexConfig {
    CodexConfig {
        cli_path: "codex".to_string(),
        oauth_token: Some("tok".to_string()),
        default_model: Some("m".to_string()),
        model_effort: Some("high".to_string()),
        use_app_server: true,
    }
}

fn next(progress: StartProgress, message: &str) -> StartAction {
    let session = Session {
        id: "s".to_string(),
        directory: "/w".to_string(),
        model: Some("gpt".to_string()),
        agent: None,
    };
    next_start_action(progress, &config(), &session, message)
}

fn failed(a: StartAction) -> String {
    match a {
        StartAction::Fail { message } => message,
        _ => panic!("not failed"),
    }
}

#[test]
fn a_mission_starts_step_by_step() {
    let c = app_server_config(&config());
    assert_eq!(c.enabled_features, ["goals"]);
    assert_eq!(c.env, [("OPENAI_OAUTH_TOKEN".to_string(), "tok".to_string())]);
    match next(StartProgress::Spawned, "x") {
        StartAction::Initialize { client, version } => {
            assert_eq!((client.as_str(), version.as_str()), ("sandboxed-sh", "1.2.0"))
        }
        _ => panic!("not initialised"),
    }
    match next(StartProgress::Initialized { result: Ok(()) }, "x") {
        StartAction::StartThread {
            model,
            cwd,
            reasoning_effort,
        } => {
            assert_eq!(model.as_deref(), Some("gpt"));
            assert_eq!(cwd.as_deref(), Some("/w"));
            assert_eq!(reasoning_effort.as_deref(), Some("high"));
        }
        _ => panic!("no thread"),
    }
    let thread = StartProgress::ThreadStarted {
        result: Ok("t".to_string()),
    };
    assert!(matches!(next(thread, "x"), StartAction::TakeInbound { thread_id } if thread_id == "t"));
    let inbound = |taken| StartProgress::InboundTaken {
        thread_id: "t".to_string(),
        taken,
    };
    assert!(matches!(next(inbound(true), "x"), StartAction::StartTurn { text, .. } if text == "x"));
    assert!(matches!(next(inbound(true), "/goal y"), StartAction::SetGoal { objective, .. } if objective == "y"));
    assert!(failed(next(inbound(true), "/goal ")).starts_with("/goal requires an objective"));
    assert_eq!(
        failed(next(inbound(false), "x")),
        "codex app-server inbound stream already taken"
    );
    let e = || Err("e".to_string());
    assert_eq!(
        failed(next(StartProgress::Initialized { result: e() }, "x")),
        "codex app-server initialize failed: e"
    );
    assert_eq!(
        failed(next(StartProgress::ThreadStarted { result: Err("e".to_string()) }, "x")),
        "codex thread/start failed: e"
    );
    assert_eq!(
        failed(next(StartProgress::GoalSet { result: e() }, "x")),
        "codex thread/goal/set failed: e"
    );
    assert_eq!(
        failed(next(StartProgress::TurnStarted { result: e() }, "x")),
        "codex turn/start failed: e"
    );
    assert!(matches!(
        next(StartProgress::GoalSet { result: Ok(()) }, "x"),
        StartAction::Run { goal: true }
    ));
    assert!(matches!(
        next(StartProgress::TurnStarted { result: Ok(()) }, "x"),
        StartAction::Run { goal: false }
    ));
}
