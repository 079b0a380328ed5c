use sandboxed::json::Json;
use sandboxed::json_text::{parse_json, print_json};
use sandboxed::orchestrator::{
    batch_result, branch_check_args, call_response, cancel_all_result, cancel_error, cancel_path,
    cancelled_result, check_mission_ids, checked_mission_id, create_worktree_args,
    create_worktree_result, default_poll_interval, default_timeout, first_message, handle_request,
    is_notification, message_body, mission_path, parse_error_response, parse_mission_id,
    parse_mission_ids, remove_worktree_args, remove_worktree_result, select_tool, skip_line,
    target_statuses, text_content, wait_for_worker_step, workers_to_cancel, AnyWait,
    CreateWorkerParams, Handled, JsonRpcRequest, JsonRpcResponse, OrchestratorMcp, PollReply, Tool,
    NANOS_PER_SEC,
};
use sandboxed::orchestrator_tools::get_tools;

fn json(text: &str) -> Json {
    parse_json(text).unwrap()
}

fn flat(j: &Json) -> String {
    print_json(j).split_whitespace().collect::<Vec<_>>().join(" ")
}

fn request(method: &str, params: &str) -> JsonRpcRequest {
    JsonRpcRequest {
        id: json("1"),
        method: method.to_string(),
        params: json(params),
    }
}

fn reply(method: &str, params: &str) -> JsonRpcResponse {
    match handle_request(request(method, params)) {
        Handled::Reply(r) => r,
        Handled::Call { tool, .. } => panic!("a call of {}", tool),
    }
}

fn failure(r: JsonRpcResponse) -> (i32, String) {
    assert!(r.result.is_none());
    let e = r.error.unwrap();
    (e.code, e.message)
}

#[test]
fn requests_are_answered() {
    let r = reply("initialize", "{}");
    assert_eq!(r.jsonrpc, "2.0");
    assert_eq!(r.id.as_i64(), Some(1));
    assert_eq!(
        flat(&r.result.unwrap()),
        "{ \"capabilities\": { \"tools\": {} }, \"protocolVersion\": \"2024-11-05\", \
         \"serverInfo\": { \"name\": \"orchestrator\", \"version\": \"0.1.0\" } }"
    );
    assert!(reply("notifications/initialized", "null").result.unwrap().is_null());
    assert_eq!(failure(reply("nope", "{}")), (-32601, "Unknown method: nope".to_string()));
    assert_eq!(failure(reply("tools/call", "[]")), (-32602, "Invalid params".to_string()));
    assert_eq!(failure(reply("tools/call", "{}")), (-32602, "Missing tool name".to_string()));
    match handle_request(request("tools/call", r#"{"name": "x", "arguments": {"a": 1}}"#)) {
        Handled::Call {
            id,
            tool,
            arguments,
        } => {
            assert_eq!(id.as_i64(), Some(1));
            assert_eq!(tool, "x");
            assert_eq!(arguments.get("a").and_then(|v| v.as_i64()), Some(1));
        }
        Handled::Reply(_) => panic!("no call"),
    }
}

#[test]
fn every_tool_that_is_listed_can_be_called() {
    let tools = get_tools();
    assert_eq!(tools.len(), 11);
    for t in &tools {
        assert!(select_tool(&t.name).is_ok());
    }
    assert_eq!(select_tool("cancel_worker"), Ok(Tool::CancelWorker));
    assert_eq!(select_tool("rm"), Err("Unknown method: rm".to_string()));
    let r = reply("tools/list", "{}").result.unwrap();
    match r.get("tools") {
        Some(Json::Array(listed)) => {
            assert_eq!(listed.len(), 11);
            let schema = listed[3].get("inputSchema").unwrap();
            assert_eq!(listed[3].get_str("name"), Some("get_worker_status"));
            assert_eq!(schema.get_str("type"), Some("object"));
            assert!(schema.get("properties").unwrap().get("mission_id").is_some());
        }
        other => panic!("no tools: {:?}", other),
    }
}

#[test]
fn results_of_tools_are_sent_as_text() {
    let r = call_response(json("\"id\""), Ok(json(r#"{"b": [1], "a": null}"#)));
    let content = r.result.unwrap();
    assert_eq!(
        flat(&content),
        "{ \"content\": [ { \"text\": \"{\\n \\\"a\\\": null,\\n \\\"b\\\": [\\n 1\\n ]\\n}\", \
         \"type\": \"text\" } ] }"
    );
    assert_eq!(failure(call_response(Json::Null, Err("no".to_string()))), (-32000, "no".to_string()));
    assert_eq!(failure(parse_error_response("eof")), (-32700, "Parse error: eof".to_string()));
    assert_eq!(
        flat(&text_content("x".to_string())),
        "{ \"content\": [ { \"text\": \"x\", \"type\": \"text\" } ] }"
    );
}

#[test]
fn notifications_are_not_answered() {
    let mut r = request("notifications/initialized", "{}");
    assert!(!is_notification(&r));
    r.id = Json::Null;
    assert!(is_notification(&r));
    r.method = "initialize".to_string();
    assert!(!is_notification(&r));
    assert!(skip_line("  \n"));
    assert!(!skip_line("{}"));
}

const BOSS: u128 = 0x11111111_2222_3333_4444_555555555555;
const BOSS_TEXT: &str = "11111111-2222-3333-4444-555555555555";

fn boss(token: Option<&str>) -> OrchestratorMcp {
    OrchestratorMcp::new(BOSS, "http://host".to_string(), token.map(String::from))
}

#[test]
fn workers_are_created_below_their_boss() {
    let o = boss(Some("t"));
    assert_eq!(
        o.auth_header(),
        Some(("Authorization".to_string(), "Bearer t".to_string()))
    );
    assert_eq!(boss(None).auth_header(), None);
    assert_eq!(o.url("/x"), "http://host/x");
    let p = CreateWorkerParams {
        title: "T".to_string(),
        agent: None,
        backend: Some("codex".to_string()),
        model_override: None,
        model_effort: None,
        config_profile: None,
        working_directory: None,
        prompt: Some("go".to_string()),
    };
    let body = o.create_worker_body(&p);
    assert_eq!(body.get_str("parent_mission_id"), Some(BOSS_TEXT));
    assert_eq!(body.get_str("title"), Some("T"));
    assert_eq!(body.get_str("backend"), Some("codex"));
    assert!(body.get("agent").unwrap().is_null());
    assert!(body.get("prompt").is_none());
    let mission = json(r#"{"id": "w"}"#);
    let message = first_message(&mission, &p.prompt).unwrap();
    assert_eq!(flat(&message), "{ \"content\": \"go\", \"mission_id\": \"w\" }");
    assert!(first_message(&mission, &Some(" ".to_string())).is_none());
    assert!(first_message(&mission, &None).is_none());
    assert!(first_message(&json("{}"), &p.prompt).is_none());
}

#[test]
fn only_workers_of_the_boss_are_listed() {
    let missions = vec![
        json(&format!(r#"{{"id": "a", "parent_mission_id": "{}"}}"#, BOSS_TEXT)),
        json(r#"{"id": "b", "parent_mission_id": "other"}"#),
        json(r#"{"id": "c"}"#),
    ];
    let list = boss(None).list_workers(&missions);
    assert_eq!(list.get("worker_count").and_then(|v| v.as_u64()), Some(1));
    assert_eq!(list.get_str("boss_mission_id"), Some(BOSS_TEXT));
    assert_eq!(workers_to_cancel(&list), ["a"]);
}

#[test]
fn missions_go_by_uuids() {
    assert_eq!(parse_mission_id(BOSS_TEXT), Ok(BOSS));
    assert_eq!(parse_mission_id(&BOSS_TEXT.replace('-', "")), Ok(BOSS));
    let invalid = Err("Invalid mission ID format".to_string());
    assert_eq!(parse_mission_id("nope"), invalid);
    assert_eq!(checked_mission_id(None), invalid);
    assert_eq!(mission_path(BOSS), format!("/api/control/missions/{}", BOSS_TEXT));
    assert_eq!(cancel_path(BOSS), format!("/api/control/missions/{}/cancel", BOSS_TEXT));
    assert_eq!(cancelled_result(BOSS).get_str("cancelled"), Some(BOSS_TEXT));
    assert_eq!(message_body("hi", BOSS).get_str("mission_id"), Some(BOSS_TEXT));
    assert_eq!(parse_mission_ids(&vec![BOSS_TEXT.to_string()]), Ok(vec![BOSS]));
    assert_eq!(
        parse_mission_ids(&vec!["x".to_string(), BOSS_TEXT.to_string(), "y".to_string()]),
        Err("Invalid mission ID format: x, y".to_string())
    );
    assert_eq!(parse_mission_ids(&Vec::new()), Err("No mission IDs provided".to_string()));
    let texts = vec!["a".to_string(), "b".to_string()];
    assert_eq!(check_mission_ids(&texts, &vec![Some(1), Some(2)]), Ok(vec![1, 2]));
}

#[test]
fn workers_that_are_over_are_not_cancelled() {
    let list = json(
        r#"{"workers": [{"id": "a", "status": "completed"}, {"id": "b", "status": "failed"},
        {"id": "c", "status": "interrupted"}, {"id": "d", "status": "not_feasible"},
        {"id": "e", "status": "active"}, {"status": "active"}, {"id": "f"}]}"#,
    );
    assert_eq!(workers_to_cancel(&list), ["e", "f"]);
    assert!(workers_to_cancel(&json("{}")).is_empty());
    assert_eq!(cancel_error("e", "gone"), "e: gone");
    assert_eq!(
        flat(&cancel_all_result(vec!["e".to_string()], vec!["f: x".to_string()])),
        "{ \"cancelled\": [ \"e\" ], \"errors\": [ \"f: x\" ] }"
    );
}

#[test]
fn a_batch_accounts_for_every_worker() {
    let r = batch_result(&vec![Ok(json(r#"{"id": "a"}"#)), Err("no".to_string()), Ok(Json::Null)]);
    assert_eq!(
        flat(&r),
        "{ \"created\": 2, \"errors\": [ { \"error\": \"no\", \"index\": 1, \"success\": false } ], \
         \"failed\": 1, \"results\": [ { \"index\": 0, \"mission\": { \"id\": \"a\" }, \"success\": \
         true }, { \"index\": 2, \"mission\": null, \"success\": true } ] }"
    );
}

#[test]
fn worktrees_are_made_with_git() {
    assert_eq!(branch_check_args("b"), ["rev-parse", "--verify", "b"]);
    let args = |base: Option<&str>, there| create_worktree_args("/p", "b", &base.map(String::from), there);
    assert_eq!(args(None, true), ["worktree", "add", "/p", "b"]);
    assert_eq!(args(None, false), ["worktree", "add", "-b", "b", "/p", "HEAD"]);
    assert_eq!(args(Some("main"), false), ["worktree", "add", "-b", "b", "/p", "main"]);
    let r = create_worktree_result("/p", "b", true, "").unwrap();
    assert_eq!(r.get_str("message"), Some("Worktree created at /p on branch b"));
    assert_eq!(
        create_worktree_result("/p", "b", false, "bad").err(),
        Some("git worktree add failed: bad".to_string())
    );
    assert_eq!(remove_worktree_args("/p"), ["worktree", "remove", "--force", "/p"]);
    let r = remove_worktree_result("/p", true, "").unwrap();
    assert_eq!(r.get_str("message"), Some("Worktree removed at /p"));
    assert_eq!(
        remove_worktree_result("/p", false, "bad").err(),
        Some("git worktree remove failed: bad".to_string())
    );
}

#[test]
fn a_worker_is_waited_for() {
    assert_eq!((default_timeout(), default_poll_interval()), (600, 10));
    let targets = target_statuses(Vec::new());
    assert_eq!(targets, ["completed", "failed", "interrupted"]);
    assert_eq!(target_statuses(vec!["active".to_string()]), ["active"]);
    let active = json(r#"{"status": "active"}"#);
    assert!(wait_for_worker_step(&active, &targets, 5, 5 * NANOS_PER_SEC).is_none());
    assert_eq!(
        flat(&wait_for_worker_step(&active, &targets, 5, 5 * NANOS_PER_SEC + 1).unwrap()),
        "{ \"elapsed_seconds\": 5, \"mission\": { \"status\": \"active\" }, \"reached_target\": \
         false, \"status\": \"active\", \"timeout\": true }"
    );
    let done = json(r#"{"status": "completed"}"#);
    assert_eq!(
        flat(&wait_for_worker_step(&done, &targets, 5, NANOS_PER_SEC - 1).unwrap()),
        "{ \"elapsed_seconds\": 0, \"mission\": { \"status\": \"completed\" }, \
         \"reached_target\": true, \"status\": \"completed\" }"
    );
}

#[test]
fn any_of_several_workers_is_waited_for() {
    let mut w = AnyWait::new(Vec::new(), 5);
    let failed = |w: &mut AnyWait| w.on_reply(BOSS, PollReply::Failed("down".to_string()), 0);
    let http = |w: &mut AnyWait| w.on_reply(BOSS, PollReply::HttpError("500".to_string()), 0);
    assert!(failed(&mut w).is_none());
    assert!(http(&mut w).is_none());
    // Any other reply starts the count anew.
    assert!(w.on_reply(BOSS, PollReply::Unreadable, 0).is_none());
    assert!(failed(&mut w).is_none());
    assert!(failed(&mut w).is_none());
    let active = || PollReply::Mission(json(r#"{"status": "active"}"#));
    assert!(w.on_reply(BOSS, active(), 0).is_none());
    assert!(w.after_round(5 * NANOS_PER_SEC).is_none());
    assert_eq!(
        flat(&w.after_round(6 * NANOS_PER_SEC).unwrap()),
        "{ \"elapsed_seconds\": 6, \"reached_target\": false, \"timeout\": true }"
    );
    let done = PollReply::Mission(json(r#"{"status": "failed"}"#));
    let r = w.on_reply(BOSS, done, NANOS_PER_SEC).unwrap().unwrap();
    assert_eq!(r.get_str("mission_id"), Some(BOSS_TEXT));
    assert_eq!(r.get_str("status"), Some("failed"));
    let mut v = AnyWait::new(Vec::new(), 5);
    assert!(http(&mut v).is_none());
    assert!(http(&mut v).is_none());
    assert_eq!(
        http(&mut v).unwrap().err(),
        Some(format!("Mission {} returned HTTP 500 after 3 consecutive errors", BOSS_TEXT))
    );
    let mut v = AnyWait::new(Vec::new(), 5);
    failed(&mut v);
    failed(&mut v);
    assert_eq!(
        failed(&mut v).unwrap().err(),
        Some(format!(
            "API request failed for mission {}: down (3 consecutive errors)",
            BOSS_TEXT
        ))
    );
}
