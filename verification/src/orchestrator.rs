//! The server through which a boss mission creates, watches and manages worker
//! missions: its requests and replies.
use vstd::prelude::*;

use crate::ids::{parse_uuid, parsed_uuid, uuid_text, uuid_to_string};
use crate::json::{
    cloned_or_null, empty_object, group_json_view, items_view, law_first_member_is_found,
    law_found_member_is_there, lookup, members_view, object1, object2, object3, opt_ref, opt_text, or_null, or_text, Json, JsonNumber, JsonView, NumberView,
};
use crate::json_text::{pretty_json, print_json, stored};
use crate::orchestrator_tools::{all_tools, tools_list, tools_list_json};
use crate::text::{
    blank, cat2, cat3, decimal, has_prefix, is_blank, join, joined, opt_string, starts_with,
    str_eq, u64_text,
};

verus! {

// ---------------------------------------------------------------------------
// JSON-RPC
// ---------------------------------------------------------------------------

/// A request.
pub struct JsonRpcRequest {
    pub id: Json,
    pub method: String,
    pub params: Json,
}

/// What went wrong with a request.
pub struct JsonRpcError {
    pub code: i32,
    pub message: String,
}

/// The reply to a request: a result or an error.
pub struct JsonRpcResponse {
    pub jsonrpc: String,
    pub id: Json,
    pub result: Option<Json>,
    pub error: Option<JsonRpcError>,
}

/// Whether `r` replies to `id` with `result`.
pub open spec fn is_success(r: JsonRpcResponse, id: JsonView, result: JsonView) -> bool {
    &&& r.jsonrpc@ == "2.0"@
    &&& r.id@ == id
    &&& r.result matches Some(j) && j@ == result
    &&& r.error is None
}

/// Whether `r` replies to `id` with an error.
pub open spec fn is_failure(
    r: JsonRpcResponse,
    id: JsonView,
    code: int,
    message: Seq<char>,
) -> bool {
    &&& r.jsonrpc@ == "2.0"@
    &&& r.id@ == id
    &&& r.result is None
    &&& r.error matches Some(e) && e.code == code && e.message@ == message
}

impl JsonRpcResponse {
    pub fn success(id: Json, result: Json) -> (r: Self)
        ensures
            is_success(r, id@, result@),
    {
        JsonRpcResponse { jsonrpc: "2.0".to_string(), id, result: Some(result), error: None }
    }

    pub fn error(id: Json, code: i32, message: String) -> (r: Self)
        ensures
            is_failure(r, id@, code as int, message@),
    {
        JsonRpcResponse {
            jsonrpc: "2.0".to_string(),
            id,
            result: None,
            error: Some(JsonRpcError { code, message }),
        }
    }
}

/// What is done with a request.
pub enum Handled {
    /// It is answered.
    Reply(JsonRpcResponse),
    /// A tool is called first.
    Call { id: Json, tool: String, arguments: Json },
}

/// What the server says of itself.
pub open spec fn server_json() -> JsonView {
    JsonView::Object(
        seq![
            (
                "capabilities"@,
                JsonView::Object(seq![("tools"@, JsonView::Object(Seq::empty()))]),
            ),
            ("protocolVersion"@, JsonView::Text("2024-11-05"@)),
            (
                "serverInfo"@,
                JsonView::Object(
                    seq![
                        ("name"@, JsonView::Text("orchestrator"@)),
                        ("version"@, JsonView::Text("0.1.0"@)),
                    ],
                ),
            ),
        ],
    )
}

/// Whether `h` is what is done with a request.
pub open spec fn handles(
    id: JsonView,
    method: Seq<char>,
    params: JsonView,
    h: Handled,
) -> bool {
    if method == "initialize"@ {
        h matches Handled::Reply(r) && is_success(r, id, server_json())
    } else if method == "tools/list"@ {
        h matches Handled::Reply(r) && is_success(r, id, tools_list_json())
    } else if method == "tools/call"@ {
        if !(params is Object) {
            h matches Handled::Reply(r) && is_failure(r, id, -32602, "Invalid params"@)
        } else {
            match opt_text(params.get("name"@)) {
                None => h matches Handled::Reply(r) && is_failure(
                    r,
                    id,
                    -32602,
                    "Missing tool name"@,
                ),
                Some(name) => h matches Handled::Call { id: call_id, tool, arguments } && call_id@
                    == id && tool@ == name && arguments@ == or_null(params.get("arguments"@)),
            }
        }
    } else if method == "notifications/initialized"@ {
        h matches Handled::Reply(r) && is_success(r, id, JsonView::Null)
    } else {
        h matches Handled::Reply(r) && is_failure(r, id, -32601, "Unknown method: "@ + method)
    }
}

fn text_json(s: &str) -> (r: Json)
    ensures
        r@ == JsonView::Text(s@),
{
    Json::Text(s.to_string())
}

fn opt_text_json(s: &Option<String>) -> (r: Json)
    ensures
        r@ == opt_text_view(*s),
{
    match s {
        Some(t) => Json::Text(t.clone()),
        None => Json::Null,
    }
}

/// A text that may be there, as JSON.
pub open spec fn opt_text_view(s: Option<String>) -> JsonView {
    match s {
        Some(t) => JsonView::Text(t@),
        None => JsonView::Null,
    }
}

fn count_json(n: usize) -> (r: Json)
    ensures
        r@ == JsonView::Number(NumberView::Int(n as int)),
{
    Json::Number(JsonNumber::PosInt(n as u64))
}

fn server_info() -> (r: Json)
    ensures
        r@ == server_json(),
{
    object3(
        "capabilities",
        object1("tools", empty_object()),
        "protocolVersion",
        text_json("2024-11-05"),
        "serverInfo",
        object2("name", text_json("orchestrator"), "version", text_json("0.1.0")),
    )
}

/// Answers a request, or says which tool is to be called for it.
pub fn handle_request(req: JsonRpcRequest) -> (r: Handled)
    ensures
        handles(req.id@, req.method@, req.params@, r),
{
    let method = req.method.as_str();
    if str_eq(method, "initialize") {
        Handled::Reply(JsonRpcResponse::success(req.id, server_info()))
    } else if str_eq(method, "tools/list") {
        Handled::Reply(JsonRpcResponse::success(req.id, tools_list()))
    } else if str_eq(method, "tools/call") {
        let is_object = match &req.params {
            Json::Object(_) => true,
            _ => false,
        };
        if !is_object {
            return Handled::Reply(
                JsonRpcResponse::error(req.id, -32602, "Invalid params".to_string()),
            );
        }
        match req.params.get_str("name") {
            None => Handled::Reply(
                JsonRpcResponse::error(req.id, -32602, "Missing tool name".to_string()),
            ),
            Some(name) => Handled::Call {
                tool: name.to_string(),
                arguments: cloned_or_null(req.params.get("arguments")),
                id: req.id,
            },
        }
    } else if str_eq(method, "notifications/initialized") {
        Handled::Reply(JsonRpcResponse::success(req.id, Json::Null))
    } else {
        let message = cat2("Unknown method: ", method);
        Handled::Reply(JsonRpcResponse::error(req.id, -32601, message))
    }
}

/// The result of a tool as the content of a reply, given the result's text.
pub open spec fn content_json(text: Seq<char>) -> JsonView {
    JsonView::Object(
        seq![
            (
                "content"@,
                JsonView::Array(
                    seq![
                        JsonView::Object(
                            seq![
                                ("text"@, JsonView::Text(text)),
                                ("type"@, JsonView::Text("text"@)),
                            ],
                        ),
                    ],
                ),
            ),
        ],
    )
}

/// The content of a reply, given its text.
pub fn text_content(text: String) -> (r: Json)
    ensures
        r@ == content_json(text@),
{
    broadcast use group_json_view;

    let part = object2("text", Json::Text(text), "type", text_json("text"));
    let ghost view = part@;
    let mut parts: Vec<Json> = Vec::new();
    parts.push(part);
    assert(items_view(parts@) =~= seq![view]);
    object1("content", Json::Array(parts))
}

/// The reply to a request for which a tool was called: its result in text, or an
/// error.
pub fn call_response(id: Json, outcome: Result<Json, String>) -> (r: JsonRpcResponse)
    ensures
        match outcome {
            Ok(result) => is_success(r, id@, content_json(pretty_json(stored(result@)))),
            Err(e) => is_failure(r, id@, -32000, e@),
        },
{
    match outcome {
        Ok(result) => JsonRpcResponse::success(id, text_content(print_json(&result))),
        Err(e) => JsonRpcResponse::error(id, -32000, e),
    }
}

/// The reply to a line that is no request.
pub fn parse_error_response(error: &str) -> (r: JsonRpcResponse)
    ensures
        is_failure(r, JsonView::Null, -32700, "Parse error: "@ + error@),
{
    JsonRpcResponse::error(Json::Null, -32700, cat2("Parse error: ", error))
}

/// Whether a line of input is passed over.
pub fn skip_line(line: &str) -> (r: bool)
    ensures
        r == blank(line@),
{
    is_blank(line)
}

/// Whether a request is a notification, which is not answered.
pub fn is_notification(req: &JsonRpcRequest) -> (r: bool)
    ensures
        r == (req.id@ == JsonView::Null && has_prefix(req.method@, "notifications/"@)),
{
    req.id.is_null() && starts_with(req.method.as_str(), "notifications/")
}

/// Every request gets exactly one of a result and an error.
pub proof fn law_reply_is_result_or_error(
    id: JsonView,
    method: Seq<char>,
    params: JsonView,
    h: Handled,
)
    requires
        handles(id, method, params, h),
        h is Reply,
    ensures
        h->Reply_0.id@ == id,
        h->Reply_0.result is Some <==> h->Reply_0.error is None,
{
}

// ---------------------------------------------------------------------------
// Tools
// ---------------------------------------------------------------------------

/// A tool of the server.
#[derive(Debug, Clone, Copy, PartialEq, Eq, Structural)]
pub enum Tool {
    CreateWorker,
    BatchCreateWorkers,
    ListWorkers,
    GetWorkerStatus,
    CancelWorker,
    CancelAllWorkers,
    SendMessage,
    CreateWorktree,
    RemoveWorktree,
    WaitForWorker,
    WaitForAnyWorker,
}

/// The tool of a name.
pub open spec fn tool_named(name: Seq<char>) -> Option<Tool> {
    if name == "create_worker_mission"@ {
        Some(Tool::CreateWorker)
    } else if name == "batch_create_workers"@ {
        Some(Tool::BatchCreateWorkers)
    } else if name == "list_worker_missions"@ {
        Some(Tool::ListWorkers)
    } else if name == "get_worker_status"@ {
        Some(Tool::GetWorkerStatus)
    } else if name == "cancel_worker"@ {
        Some(Tool::CancelWorker)
    } else if name == "cancel_all_workers"@ {
        Some(Tool::CancelAllWorkers)
    } else if name == "send_message_to_worker"@ {
        Some(Tool::SendMessage)
    } else if name == "create_worktree"@ {
        Some(Tool::CreateWorktree)
    } else if name == "remove_worktree"@ {
        Some(Tool::RemoveWorktree)
    } else if name == "wait_for_worker"@ {
        Some(Tool::WaitForWorker)
    } else if name == "wait_for_any_worker"@ {
        Some(Tool::WaitForAnyWorker)
    } else {
        None
    }
}

/// The tool of a name, or the error for an unknown one.
pub fn select_tool(name: &str) -> (r: Result<Tool, String>)
    ensures
        match r {
            Ok(t) => tool_named(name@) == Some(t),
            Err(e) => tool_named(name@) is None && e@ == "Unknown method: "@ + name@,
        },
{
    if str_eq(name, "create_worker_mission") {
        Ok(Tool::CreateWorker)
    } else if str_eq(name, "batch_create_workers") {
        Ok(Tool::BatchCreateWorkers)
    } else if str_eq(name, "list_worker_missions") {
        Ok(Tool::ListWorkers)
    } else if str_eq(name, "get_worker_status") {
        Ok(Tool::GetWorkerStatus)
    } else if str_eq(name, "cancel_worker") {
        Ok(Tool::CancelWorker)
    } else if str_eq(name, "cancel_all_workers") {
        Ok(Tool::CancelAllWorkers)
    } else if str_eq(name, "send_message_to_worker") {
        Ok(Tool::SendMessage)
    } else if str_eq(name, "create_worktree") {
        Ok(Tool::CreateWorktree)
    } else if str_eq(name, "remove_worktree") {
        Ok(Tool::RemoveWorktree)
    } else if str_eq(name, "wait_for_worker") {
        Ok(Tool::WaitForWorker)
    } else if str_eq(name, "wait_for_any_worker") {
        Ok(Tool::WaitForAnyWorker)
    } else {
        Err(cat2("Unknown method: ", name))
    }
}

/// What a worker is created with.
pub struct CreateWorkerParams {
    pub title: String,
    pub agent: Option<String>,
    pub backend: Option<String>,
    pub model_override: Option<String>,
    pub model_effort: Option<String>,
    pub config_profile: Option<String>,
    pub working_directory: Option<String>,
    /// What the worker is told first.
    pub prompt: Option<String>,
}

/// The boss mission, and where its server is reached.
pub struct OrchestratorMcp {
    pub mission_id: u128,
    pub api_url: String,
    pub api_token: Option<String>,
}

/// The body of the request that creates a worker of the mission `boss`.
pub open spec fn create_json(p: CreateWorkerParams, boss: u128) -> JsonView {
    JsonView::Object(
        seq![
            ("agent"@, opt_text_view(p.agent)),
            ("backend"@, opt_text_view(p.backend)),
            ("config_profile"@, opt_text_view(p.config_profile)),
            ("model_effort"@, opt_text_view(p.model_effort)),
            ("model_override"@, opt_text_view(p.model_override)),
            ("parent_mission_id"@, JsonView::Text(uuid_text(boss))),
            ("title"@, JsonView::Text(p.title@)),
            ("working_directory"@, opt_text_view(p.working_directory)),
        ],
    )
}

/// The body of a message to a mission.
pub open spec fn message_json(content: Seq<char>, mission_id: Seq<char>) -> JsonView {
    JsonView::Object(
        seq![
            ("content"@, JsonView::Text(content)),
            ("mission_id"@, JsonView::Text(mission_id)),
        ],
    )
}

/// The identifier in a mission.
pub open spec fn id_of(mission: JsonView) -> Seq<char> {
    or_text(opt_text(mission.get("id"@)), Seq::empty())
}

/// The state of a mission.
pub open spec fn status_of(mission: JsonView) -> Seq<char> {
    or_text(opt_text(mission.get("status"@)), Seq::empty())
}

fn get_or_empty<'a>(mission: &'a Json, key: &str) -> (r: &'a str)
    ensures
        r@ == or_text(opt_text(mission@.get(key@)), Seq::empty()),
{
    match mission.get_str(key) {
        Some(s) => s,
        None => {
            proof {
                reveal_strlit("");
                assert(""@ =~= Seq::<char>::empty());
            }
            ""
        },
    }
}

impl OrchestratorMcp {
    pub fn new(mission_id: u128, api_url: String, api_token: Option<String>) -> (r: Self)
        ensures
            r.mission_id == mission_id,
            r.api_url == api_url,
            r.api_token == api_token,
    {
        OrchestratorMcp { mission_id, api_url, api_token }
    }

    /// The header that authorises a request.
    pub fn auth_header(&self) -> (r: Option<(String, String)>)
        ensures
            match (self.api_token, r) {
                (Some(t), Some(h)) => h.0@ == "Authorization"@ && h.1@ == "Bearer "@ + t@,
                (None, None) => true,
                _ => false,
            },
    {
        match &self.api_token {
            Some(t) => Some(("Authorization".to_string(), cat2("Bearer ", t.as_str()))),
            None => None,
        }
    }

    /// The address of a path of the server.
    pub fn url(&self, path: &str) -> (r: String)
        ensures
            r@ == self.api_url@ + path@,
    {
        cat2(self.api_url.as_str(), path)
    }

    /// The body of the request that creates a worker.
    pub fn create_worker_body(&self, p: &CreateWorkerParams) -> (r: Json)
        ensures
            r@ == create_json(*p, self.mission_id),
    {
        broadcast use group_json_view;

        let boss = uuid_to_string(self.mission_id);
        let mut m: Vec<(String, Json)> = Vec::new();
        m.push(("agent".to_string(), opt_text_json(&p.agent)));
        m.push(("backend".to_string(), opt_text_json(&p.backend)));
        m.push(("config_profile".to_string(), opt_text_json(&p.config_profile)));
        m.push(("model_effort".to_string(), opt_text_json(&p.model_effort)));
        m.push(("model_override".to_string(), opt_text_json(&p.model_override)));
        m.push(("parent_mission_id".to_string(), Json::Text(boss)));
        m.push(("title".to_string(), text_json(p.title.as_str())));
        m.push(("working_directory".to_string(), opt_text_json(&p.working_directory)));
        assert(members_view(m@) =~= create_json(*p, self.mission_id)->Object_0);
        Json::Object(m)
    }

    /// The workers of the boss mission among all missions.
    pub fn list_workers(&self, missions: &Vec<Json>) -> (r: Json)
        ensures
            r@ == workers_json(items_view(missions@), uuid_text(self.mission_id)),
    {
        broadcast use group_json_view;

        let boss = uuid_to_string(self.mission_id);
        let ghost all = items_view(missions@);
        let mut workers: Vec<Json> = Vec::new();
        let mut i: usize = 0;
        assert(items_view(workers@) =~= workers_of(all.take(0), boss@));
        while i < missions.len()
            invariant
                i <= missions@.len(),
                all == items_view(missions@),
                items_view(workers@) == workers_of(all.take(i as int), boss@),
            decreases missions@.len() - i,
        {
            assert(all.take(i + 1).drop_last() =~= all.take(i as int));
            let ghost was = items_view(workers@);
            if let Some(parent) = missions[i].get_str("parent_mission_id") {
                if str_eq(parent, boss.as_str()) {
                    let m = missions[i].clone();
                    let ghost view = m@;
                    workers.push(m);
                    assert(items_view(workers@) =~= was.push(view));
                }
            }
            i += 1;
        }
        assert(all.take(i as int) =~= all);
        object3(
            "boss_mission_id",
            Json::Text(boss),
            "worker_count",
            count_json(workers.len()),
            "workers",
            Json::Array(workers),
        )
    }
}

/// The missions whose parent is `boss`.
pub open spec fn workers_of(missions: Seq<JsonView>, boss: Seq<char>) -> Seq<JsonView>
    decreases missions.len(),
{
    if missions.len() == 0 {
        Seq::empty()
    } else {
        let before = workers_of(missions.drop_last(), boss);
        if opt_text(missions.last().get("parent_mission_id"@)) == Some(boss) {
            before.push(missions.last())
        } else {
            before
        }
    }
}

/// The list of the workers of `boss`.
pub open spec fn workers_json(missions: Seq<JsonView>, boss: Seq<char>) -> JsonView {
    let workers = workers_of(missions, boss);
    JsonView::Object(
        seq![
            ("boss_mission_id"@, JsonView::Text(boss)),
            ("worker_count"@, JsonView::Number(NumberView::Int(workers.len() as int))),
            ("workers"@, JsonView::Array(workers)),
        ],
    )
}

/// The first message to a new worker, if there is anything to tell it.
pub fn first_message(mission: &Json, prompt: &Option<String>) -> (r: Option<Json>)
    ensures
        match r {
            Some(body) => prompt matches Some(p) && !blank(p@) && id_of(mission@).len() > 0 && body@
                == message_json(p@, id_of(mission@)),
            None => prompt is None || blank(prompt->0@) || id_of(mission@).len() == 0,
        },
{
    let worker_id = get_or_empty(mission, "id");
    match prompt {
        Some(p) => if !is_blank(p.as_str()) && !worker_id.is_empty() {
            Some(object2("content", text_json(p.as_str()), "mission_id", text_json(worker_id)))
        } else {
            None
        },
        None => None,
    }
}

// ---------------------------------------------------------------------------
// Requests about one worker
// ---------------------------------------------------------------------------

/// The mission that is meant, given what its identifier was read as.
pub fn checked_mission_id(parsed: Option<u128>) -> (r: Result<u128, String>)
    ensures
        match parsed {
            Some(id) => r == Ok::<u128, String>(id),
            None => r matches Err(e) && e@ == "Invalid mission ID format"@,
        },
{
    match parsed {
        Some(id) => Ok(id),
        None => Err("Invalid mission ID format".to_string()),
    }
}

/// The mission that is meant.
pub fn parse_mission_id(text: &str) -> (r: Result<u128, String>)
    ensures
        match parsed_uuid(text@) {
            Some(id) => r == Ok::<u128, String>(id),
            None => r matches Err(e) && e@ == "Invalid mission ID format"@,
        },
{
    checked_mission_id(parse_uuid(text))
}

/// The path of a mission.
pub fn mission_path(id: u128) -> (r: String)
    ensures
        r@ == "/api/control/missions/"@ + uuid_text(id),
{
    let id = uuid_to_string(id);
    cat2("/api/control/missions/", id.as_str())
}

/// The path that cancels a mission.
pub fn cancel_path(id: u128) -> (r: String)
    ensures
        r@ == "/api/control/missions/"@ + uuid_text(id) + "/cancel"@,
{
    let id = uuid_to_string(id);
    cat3("/api/control/missions/", id.as_str(), "/cancel")
}

/// The result of cancelling a worker.
pub fn cancelled_result(id: u128) -> (r: Json)
    ensures
        r@ == JsonView::Object(
            seq![
                ("cancelled"@, JsonView::Text(uuid_text(id))),
                ("success"@, JsonView::Bool(true)),
            ],
        ),
{
    object2("cancelled", Json::Text(uuid_to_string(id)), "success", Json::Bool(true))
}

/// The body of a message to a worker.
pub fn message_body(content: &str, id: u128) -> (r: Json)
    ensures
        r@ == message_json(content@, uuid_text(id)),
{
    object2("content", text_json(content), "mission_id", Json::Text(uuid_to_string(id)))
}

/// Whether a mission in this state is over.
pub open spec fn is_over(status: Seq<char>) -> bool {
    status == "completed"@ || status == "failed"@ || status == "interrupted"@ || status
        == "not_feasible"@
}

/// The workers to cancel: those that are not over and have an identifier.
pub open spec fn to_cancel(workers: Seq<JsonView>) -> Seq<Seq<char>>
    decreases workers.len(),
{
    if workers.len() == 0 {
        Seq::empty()
    } else {
        let before = to_cancel(workers.drop_last());
        if is_over(status_of(workers.last())) || id_of(workers.last()).len() == 0 {
            before
        } else {
            before.push(id_of(workers.last()))
        }
    }
}

/// The workers to cancel in a list of workers.
pub fn workers_to_cancel(list: &Json) -> (r: Vec<String>)
    ensures
        r.deep_view() == match list@.get("workers"@) {
            Some(JsonView::Array(workers)) => to_cancel(workers),
            _ => Seq::empty(),
        },
{
    broadcast use group_json_view;

    let mut out: Vec<String> = Vec::new();
    assert(out.deep_view() =~= Seq::empty());
    if let Some(Json::Array(workers)) = list.get("workers") {
        let ghost all = items_view(workers@);
        let mut i: usize = 0;
        assert(out.deep_view() =~= to_cancel(all.take(0)));
        while i < workers.len()
            invariant
                i <= workers@.len(),
                all == items_view(workers@),
                out.deep_view() == to_cancel(all.take(i as int)),
            decreases workers@.len() - i,
        {
            assert(all.take(i + 1).drop_last() =~= all.take(i as int));
            let ghost was = out.deep_view();
            let status = get_or_empty(&workers[i], "status");
            let over = str_eq(status, "completed") || str_eq(status, "failed") || str_eq(
                status,
                "interrupted",
            ) || str_eq(status, "not_feasible");
            let id = get_or_empty(&workers[i], "id");
            if !over && !id.is_empty() {
                out.push(id.to_string());
                assert(out.deep_view() =~= was.push(id@));
            }
            i += 1;
        }
        assert(all.take(i as int) =~= all);
    }
    out
}

/// Texts as JSON.
pub open spec fn texts_view(s: Seq<Seq<char>>) -> JsonView {
    JsonView::Array(Seq::new(s.len(), |i: int| JsonView::Text(s[i])))
}

fn texts_json(v: Vec<String>) -> (r: Json)
    ensures
        r@ == texts_view(v.deep_view()),
{
    broadcast use group_json_view;

    let ghost all = texts_view(v.deep_view())->Array_0;
    let mut out: Vec<Json> = Vec::new();
    let mut i: usize = 0;
    while i < v.len()
        invariant
            i <= v@.len(),
            all == texts_view(v.deep_view())->Array_0,
            items_view(out@) == all.take(i as int),
        decreases v@.len() - i,
    {
        let ghost was = items_view(out@);
        assert(v.deep_view()[i as int] == v@[i as int]@);
        out.push(Json::Text(v[i].clone()));
        assert(items_view(out@) =~= was.push(JsonView::Text(v@[i as int]@)));
        i += 1;
    }
    assert(items_view(out@) =~= all);
    Json::Array(out)
}

/// Why one of several workers was not cancelled.
pub fn cancel_error(id: &str, error: &str) -> (r: String)
    ensures
        r@ == id@ + ": "@ + error@,
{
    cat3(id, ": ", error)
}

/// The result of cancelling all workers.
pub fn cancel_all_result(cancelled: Vec<String>, errors: Vec<String>) -> (r: Json)
    ensures
        r@ == JsonView::Object(
            seq![
                ("cancelled"@, texts_view(cancelled.deep_view())),
                ("errors"@, texts_view(errors.deep_view())),
            ],
        ),
{
    object2("cancelled", texts_json(cancelled), "errors", texts_json(errors))
}

/// The tools that are offered are the tools that can be called.
pub proof fn law_offered_tools_can_be_called(name: Seq<char>)
    ensures
        tool_named(name) is Some <==> exists|i: int|
            0 <= i < all_tools().len() && (#[trigger] all_tools()[i]).name == name,
{
    let tools = all_tools();
    if tool_named(name) is Some {
        assert(tools[0].name == "create_worker_mission"@);
        assert(tools[1].name == "batch_create_workers"@);
        assert(tools[2].name == "list_worker_missions"@);
        assert(tools[3].name == "get_worker_status"@);
        assert(tools[4].name == "cancel_worker"@);
        assert(tools[5].name == "cancel_all_workers"@);
        assert(tools[6].name == "send_message_to_worker"@);
        assert(tools[7].name == "create_worktree"@);
        assert(tools[8].name == "remove_worktree"@);
        assert(tools[9].name == "wait_for_worker"@);
        assert(tools[10].name == "wait_for_any_worker"@);
    }
}

/// Only workers of the boss mission are listed.
pub proof fn law_only_own_workers_are_listed(missions: Seq<JsonView>, boss: Seq<char>)
    ensures
        forall|i: int|
            0 <= i < workers_of(missions, boss).len() ==> opt_text(
                (#[trigger] workers_of(missions, boss)[i]).get("parent_mission_id"@),
            ) == Some(boss) && missions.contains(workers_of(missions, boss)[i]),
    decreases missions.len(),
{
    if missions.len() > 0 {
        law_only_own_workers_are_listed(missions.drop_last(), boss);
        let before = workers_of(missions.drop_last(), boss);
        assert forall|i: int| 0 <= i < workers_of(missions, boss).len() implies opt_text(
            (#[trigger] workers_of(missions, boss)[i]).get("parent_mission_id"@),
        ) == Some(boss) && missions.contains(workers_of(missions, boss)[i]) by {
            if i < before.len() {
                assert(workers_of(missions, boss)[i] == before[i]);
                let k = choose|k: int|
                    0 <= k < missions.drop_last().len() && missions.drop_last()[k] == before[i];
                assert(missions[k] == before[i]);
            } else {
                assert(missions[missions.len() - 1] == missions.last());
            }
        }
    }
}

/// A worker that is over is never cancelled.
pub proof fn law_finished_workers_are_left_alone(workers: Seq<JsonView>)
    requires
        forall|i: int| 0 <= i < workers.len() ==> is_over(status_of(#[trigger] workers[i])),
    ensures
        to_cancel(workers).len() == 0,
    decreases workers.len(),
{
    if workers.len() > 0 {
        assert(is_over(status_of(workers[workers.len() - 1])));
        assert forall|i: int| 0 <= i < workers.drop_last().len() implies is_over(
            status_of(#[trigger] workers.drop_last()[i]),
        ) by {
            assert(workers.drop_last()[i] == workers[i]);
        }
        law_finished_workers_are_left_alone(workers.drop_last());
    }
}

// ---------------------------------------------------------------------------
// Batches
// ---------------------------------------------------------------------------

/// The model of what came of creating a worker.
pub open spec fn outcome_view(o: Result<Json, String>) -> Result<JsonView, Seq<char>> {
    match o {
        Ok(j) => Ok(j@),
        Err(e) => Err(e@),
    }
}

pub open spec fn outcomes_view(s: Seq<Result<Json, String>>) -> Seq<Result<JsonView, Seq<char>>> {
    Seq::new(s.len(), |i: int| outcome_view(s[i]))
}

/// The workers of a batch that were created.
pub open spec fn created_entries(s: Seq<Result<JsonView, Seq<char>>>) -> Seq<JsonView>
    decreases s.len(),
{
    if s.len() == 0 {
        Seq::empty()
    } else {
        let before = created_entries(s.drop_last());
        match s.last() {
            Ok(mission) => before.push(
                JsonView::Object(
                    seq![
                        ("index"@, JsonView::Number(NumberView::Int(s.len() - 1))),
                        ("mission"@, mission),
                        ("success"@, JsonView::Bool(true)),
                    ],
                ),
            ),
            Err(_) => before,
        }
    }
}

/// The workers of a batch that were not created.
pub open spec fn failed_entries(s: Seq<Result<JsonView, Seq<char>>>) -> Seq<JsonView>
    decreases s.len(),
{
    if s.len() == 0 {
        Seq::empty()
    } else {
        let before = failed_entries(s.drop_last());
        match s.last() {
            Ok(_) => before,
            Err(e) => before.push(
                JsonView::Object(
                    seq![
                        ("error"@, JsonView::Text(e)),
                        ("index"@, JsonView::Number(NumberView::Int(s.len() - 1))),
                        ("success"@, JsonView::Bool(false)),
                    ],
                ),
            ),
        }
    }
}

/// The result of a batch.
pub open spec fn batch_json(s: Seq<Result<JsonView, Seq<char>>>) -> JsonView {
    JsonView::Object(
        seq![
            ("created"@, JsonView::Number(NumberView::Int(created_entries(s).len() as int))),
            ("errors"@, JsonView::Array(failed_entries(s))),
            ("failed"@, JsonView::Number(NumberView::Int(failed_entries(s).len() as int))),
            ("results"@, JsonView::Array(created_entries(s))),
        ],
    )
}

/// The result of a batch, given what came of each worker in turn. One that fails does
/// not keep the others from being created.
pub fn batch_result(outcomes: &Vec<Result<Json, String>>) -> (r: Json)
    ensures
        r@ == batch_json(outcomes_view(outcomes@)),
{
    broadcast use group_json_view;

    let ghost all = outcomes_view(outcomes@);
    let mut results: Vec<Json> = Vec::new();
    let mut errors: Vec<Json> = Vec::new();
    let mut i: usize = 0;
    assert(items_view(results@) =~= created_entries(all.take(0)));
    assert(items_view(errors@) =~= failed_entries(all.take(0)));
    while i < outcomes.len()
        invariant
            i <= outcomes@.len(),
            all == outcomes_view(outcomes@),
            items_view(results@) == created_entries(all.take(i as int)),
            items_view(errors@) == failed_entries(all.take(i as int)),
        decreases outcomes@.len() - i,
    {
        assert(all.take(i + 1).drop_last() =~= all.take(i as int));
        assert(all.take(i + 1).last() == outcome_view(outcomes@[i as int]));
        match &outcomes[i] {
            Ok(mission) => {
                let ghost was = items_view(results@);
                let e = object3(
                    "index",
                    count_json(i),
                    "mission",
                    mission.clone(),
                    "success",
                    Json::Bool(true),
                );
                let ghost view = e@;
                results.push(e);
                assert(items_view(results@) =~= was.push(view));
            },
            Err(error) => {
                let ghost was = items_view(errors@);
                let e = object3(
                    "error",
                    text_json(error.as_str()),
                    "index",
                    count_json(i),
                    "success",
                    Json::Bool(false),
                );
                let ghost view = e@;
                errors.push(e);
                assert(items_view(errors@) =~= was.push(view));
            },
        }
        i += 1;
    }
    assert(all.take(i as int) =~= all);
    let mut m: Vec<(String, Json)> = Vec::new();
    m.push(("created".to_string(), count_json(results.len())));
    let failed = count_json(errors.len());
    m.push(("errors".to_string(), Json::Array(errors)));
    m.push(("failed".to_string(), failed));
    m.push(("results".to_string(), Json::Array(results)));
    assert(members_view(m@) =~= batch_json(all)->Object_0);
    Json::Object(m)
}

/// Every worker of a batch is accounted for.
pub proof fn law_batch_is_complete(s: Seq<Result<JsonView, Seq<char>>>)
    ensures
        created_entries(s).len() + failed_entries(s).len() == s.len(),
    decreases s.len(),
{
    if s.len() > 0 {
        law_batch_is_complete(s.drop_last());
    }
}

// ---------------------------------------------------------------------------
// Worktrees
// ---------------------------------------------------------------------------

/// The arguments of `git` that tell whether a branch is there.
pub fn branch_check_args(branch: &str) -> (r: Vec<String>)
    ensures
        r.deep_view() == seq!["rev-parse"@, "--verify"@, branch@],
{
    let mut args: Vec<String> = Vec::new();
    args.push("rev-parse".to_string());
    args.push("--verify".to_string());
    args.push(branch.to_string());
    assert(args.deep_view() =~= seq!["rev-parse"@, "--verify"@, branch@]);
    args
}

/// The arguments of `git` that create a worktree, on a branch that is there or on a new
/// one from `base`.
pub open spec fn worktree_args(
    path: Seq<char>,
    branch: Seq<char>,
    base: Option<Seq<char>>,
    branch_exists: bool,
) -> Seq<Seq<char>> {
    if branch_exists {
        seq!["worktree"@, "add"@, path, branch]
    } else {
        seq!["worktree"@, "add"@, "-b"@, branch, path, or_text(base, "HEAD"@)]
    }
}

pub fn create_worktree_args(
    path: &str,
    branch: &str,
    base: &Option<String>,
    branch_exists: bool,
) -> (r: Vec<String>)
    ensures
        r.deep_view() == worktree_args(path@, branch@, opt_string(*base), branch_exists),
{
    let mut args: Vec<String> = Vec::new();
    args.push("worktree".to_string());
    args.push("add".to_string());
    if branch_exists {
        args.push(path.to_string());
        args.push(branch.to_string());
    } else {
        let from = match base {
            Some(b) => b.as_str(),
            None => "HEAD",
        };
        args.push("-b".to_string());
        args.push(branch.to_string());
        args.push(path.to_string());
        args.push(from.to_string());
    }
    assert(args.deep_view() =~= worktree_args(path@, branch@, opt_string(*base), branch_exists));
    args
}

/// The result of creating a worktree, given whether `git` succeeded and what it said.
pub fn create_worktree_result(path: &str, branch: &str, succeeded: bool, stderr: &str) -> (r: Result<
    Json,
    String,
>)
    ensures
        r is Ok == succeeded,
        match r {
            Ok(j) => j@ == JsonView::Object(
                seq![
                    ("branch"@, JsonView::Text(branch@)),
                    (
                        "message"@,
                        JsonView::Text(
                            "Worktree created at "@ + path@ + " on branch "@ + branch@,
                        ),
                    ),
                    ("path"@, JsonView::Text(path@)),
                    ("success"@, JsonView::Bool(true)),
                ],
            ),
            Err(e) => e@ == "git worktree add failed: "@ + stderr@,
        },
{
    broadcast use group_json_view;

    if !succeeded {
        return Err(cat2("git worktree add failed: ", stderr));
    }
    let mut message = cat3("Worktree created at ", path, " on branch ");
    message.push_str(branch);
    let ghost said = message@;
    let mut m: Vec<(String, Json)> = Vec::new();
    m.push(("branch".to_string(), text_json(branch)));
    m.push(("message".to_string(), Json::Text(message)));
    m.push(("path".to_string(), text_json(path)));
    m.push(("success".to_string(), Json::Bool(true)));
    assert(members_view(m@) =~= seq![
        ("branch"@, JsonView::Text(branch@)),
        ("message"@, JsonView::Text(said)),
        ("path"@, JsonView::Text(path@)),
        ("success"@, JsonView::Bool(true)),
    ]);
    Ok(Json::Object(m))
}

/// The arguments of `git` that remove a worktree.
pub fn remove_worktree_args(path: &str) -> (r: Vec<String>)
    ensures
        r.deep_view() == seq!["worktree"@, "remove"@, "--force"@, path@],
{
    let mut args: Vec<String> = Vec::new();
    args.push("worktree".to_string());
    args.push("remove".to_string());
    args.push("--force".to_string());
    args.push(path.to_string());
    assert(args.deep_view() =~= seq!["worktree"@, "remove"@, "--force"@, path@]);
    args
}

/// The result of removing a worktree, given whether `git` succeeded and what it said.
pub fn remove_worktree_result(path: &str, succeeded: bool, stderr: &str) -> (r: Result<
    Json,
    String,
>)
    ensures
        r is Ok == succeeded,
        match r {
            Ok(j) => j@ == JsonView::Object(
                seq![
                    ("message"@, JsonView::Text("Worktree removed at "@ + path@)),
                    ("path"@, JsonView::Text(path@)),
                    ("success"@, JsonView::Bool(true)),
                ],
            ),
            Err(e) => e@ == "git worktree remove failed: "@ + stderr@,
        },
{
    if !succeeded {
        return Err(cat2("git worktree remove failed: ", stderr));
    }
    Ok(
        object3(
            "message",
            Json::Text(cat2("Worktree removed at ", path)),
            "path",
            text_json(path),
            "success",
            Json::Bool(true),
        ),
    )
}

// ---------------------------------------------------------------------------
// Waiting
// ---------------------------------------------------------------------------

pub const NANOS_PER_SEC: u64 = 1_000_000_000;

/// How many seconds a worker is waited for, unless it is said otherwise.
pub fn default_timeout() -> (r: u64)
    ensures
        r == 600,
{
    600
}

/// How many seconds pass between two looks at a worker, unless it is said otherwise.
pub fn default_poll_interval() -> (r: u64)
    ensures
        r == 10,
{
    10
}

/// The states that are waited for, unless it is said otherwise.
pub open spec fn default_targets() -> Seq<Seq<char>> {
    seq!["completed"@, "failed"@, "interrupted"@]
}

/// The states that are waited for.
pub fn target_statuses(given: Vec<String>) -> (r: Vec<String>)
    ensures
        r.deep_view() == if given@.len() == 0 {
            default_targets()
        } else {
            given.deep_view()
        },
{
    if given.len() > 0 {
        return given;
    }
    let mut out: Vec<String> = Vec::new();
    out.push("completed".to_string());
    out.push("failed".to_string());
    out.push("interrupted".to_string());
    assert(out.deep_view() =~= default_targets());
    out
}

fn is_target(targets: &Vec<String>, status: &str) -> (r: bool)
    ensures
        r == targets.deep_view().contains(status@),
{
    let mut i: usize = 0;
    while i < targets.len()
        invariant
            i <= targets@.len(),
            forall|k: int| 0 <= k < i ==> #[trigger] targets.deep_view()[k] != status@,
        decreases targets@.len() - i,
    {
        assert(targets.deep_view()[i as int] == targets@[i as int]@);
        if str_eq(targets[i].as_str(), status) {
            return true;
        }
        i += 1;
    }
    false
}

/// Whether more than `timeout_seconds` have passed.
pub open spec fn timed_out(timeout_seconds: u64, elapsed_nanos: u64) -> bool {
    elapsed_nanos > timeout_seconds * 1_000_000_000
}

fn has_timed_out(timeout_seconds: u64, elapsed_nanos: u64) -> (r: bool)
    ensures
        r == timed_out(timeout_seconds, elapsed_nanos),
{
    elapsed_nanos as u128 > (timeout_seconds as u128) * 1_000_000_000
}

/// Whole seconds, as JSON.
pub open spec fn seconds_json(elapsed_nanos: u64) -> JsonView {
    JsonView::Number(NumberView::Int(elapsed_nanos as int / NANOS_PER_SEC as int))
}

fn seconds_value(elapsed_nanos: u64) -> (r: Json)
    ensures
        r@ == seconds_json(elapsed_nanos),
{
    Json::Number(JsonNumber::PosInt(elapsed_nanos / NANOS_PER_SEC))
}

/// The model of a result that may be there.
pub open spec fn result_view(o: Option<Json>) -> Option<JsonView> {
    match o {
        Some(j) => Some(j@),
        None => None,
    }
}

/// What a look at the one worker that is waited for leads to: the end of the waiting,
/// or nothing.
pub open spec fn wait_one(
    mission: JsonView,
    targets: Seq<Seq<char>>,
    timeout_seconds: u64,
    elapsed_nanos: u64,
) -> Option<JsonView> {
    let status = status_of(mission);
    if targets.contains(status) {
        Some(
            JsonView::Object(
                seq![
                    ("elapsed_seconds"@, seconds_json(elapsed_nanos)),
                    ("mission"@, mission),
                    ("reached_target"@, JsonView::Bool(true)),
                    ("status"@, JsonView::Text(status)),
                ],
            ),
        )
    } else if timed_out(timeout_seconds, elapsed_nanos) {
        Some(
            JsonView::Object(
                seq![
                    ("elapsed_seconds"@, seconds_json(elapsed_nanos)),
                    ("mission"@, mission),
                    ("reached_target"@, JsonView::Bool(false)),
                    ("status"@, JsonView::Text(status)),
                    ("timeout"@, JsonView::Bool(true)),
                ],
            ),
        )
    } else {
        None
    }
}

/// What a look at the one worker that is waited for leads to.
pub fn wait_for_worker_step(
    mission: &Json,
    targets: &Vec<String>,
    timeout_seconds: u64,
    elapsed_nanos: u64,
) -> (r: Option<Json>)
    ensures
        result_view(r) == wait_one(mission@, targets.deep_view(), timeout_seconds, elapsed_nanos),
{
    broadcast use group_json_view;

    let status = get_or_empty(mission, "status");
    let reached = is_target(targets, status);
    if !reached && !has_timed_out(timeout_seconds, elapsed_nanos) {
        return None;
    }
    let mut m: Vec<(String, Json)> = Vec::new();
    m.push(("elapsed_seconds".to_string(), seconds_value(elapsed_nanos)));
    m.push(("mission".to_string(), mission.clone()));
    m.push(("reached_target".to_string(), Json::Bool(reached)));
    m.push(("status".to_string(), text_json(status)));
    if !reached {
        m.push(("timeout".to_string(), Json::Bool(true)));
    }
    assert(members_view(m@) =~= wait_one(
        mission@,
        targets.deep_view(),
        timeout_seconds,
        elapsed_nanos,
    )->0->Object_0);
    Some(Json::Object(m))
}

/// The identifiers among `texts` that could not be read.
pub open spec fn invalid_ids(texts: Seq<Seq<char>>, parsed: Seq<Option<u128>>) -> Seq<Seq<char>>
    decreases texts.len(),
{
    if texts.len() == 0 || parsed.len() != texts.len() {
        Seq::empty()
    } else {
        let before = invalid_ids(texts.drop_last(), parsed.drop_last());
        if parsed.last() is None {
            before.push(texts.last())
        } else {
            before
        }
    }
}

/// The identifiers that could be read.
pub open spec fn valid_ids(parsed: Seq<Option<u128>>) -> Seq<u128>
    decreases parsed.len(),
{
    if parsed.len() == 0 {
        Seq::empty()
    } else {
        let before = valid_ids(parsed.drop_last());
        match parsed.last() {
            Some(id) => before.push(id),
            None => before,
        }
    }
}

/// The missions that are meant, or why they cannot be told.
pub open spec fn checked_ids(texts: Seq<Seq<char>>, parsed: Seq<Option<u128>>) -> Result<
    Seq<u128>,
    Seq<char>,
> {
    let invalid = invalid_ids(texts, parsed);
    if invalid.len() > 0 {
        Err("Invalid mission ID format: "@ + joined(invalid, ", "@))
    } else if texts.len() == 0 {
        Err("No mission IDs provided"@)
    } else {
        Ok(valid_ids(parsed))
    }
}

/// The model of missions that are meant.
pub open spec fn ids_view(r: Result<Vec<u128>, String>) -> Result<Seq<u128>, Seq<char>> {
    match r {
        Ok(v) => Ok(v@),
        Err(e) => Err(e@),
    }
}

proof fn lemma_all_valid(texts: Seq<Seq<char>>, parsed: Seq<Option<u128>>)
    requires
        parsed.len() == texts.len(),
    ensures
        valid_ids(parsed).len() + invalid_ids(texts, parsed).len() == texts.len(),
    decreases texts.len(),
{
    if texts.len() > 0 {
        lemma_all_valid(texts.drop_last(), parsed.drop_last());
    }
}

/// The missions that are meant, given what each identifier was read as.
pub fn check_mission_ids(texts: &Vec<String>, parsed: &Vec<Option<u128>>) -> (r: Result<
    Vec<u128>,
    String,
>)
    requires
        texts@.len() == parsed@.len(),
    ensures
        ids_view(r) == checked_ids(texts.deep_view(), parsed@),
{
    let ghost all = texts.deep_view();
    let mut ids: Vec<u128> = Vec::new();
    let mut invalid: Vec<String> = Vec::new();
    let mut i: usize = 0;
    assert(invalid.deep_view() =~= Seq::empty());
    while i < texts.len()
        invariant
            i <= texts@.len(),
            texts@.len() == parsed@.len(),
            all == texts.deep_view(),
            ids@ == valid_ids(parsed@.take(i as int)),
            invalid.deep_view() == invalid_ids(all.take(i as int), parsed@.take(i as int)),
        decreases texts@.len() - i,
    {
        assert(all.take(i + 1).drop_last() =~= all.take(i as int));
        assert(parsed@.take(i + 1).drop_last() =~= parsed@.take(i as int));
        assert(all.take(i + 1).last() == texts@[i as int]@);
        let ghost was = invalid.deep_view();
        match parsed[i] {
            Some(id) => {
                ids.push(id);
            },
            None => {
                invalid.push(texts[i].clone());
                assert(invalid.deep_view() =~= was.push(texts@[i as int]@));
            },
        }
        i += 1;
    }
    assert(all.take(i as int) =~= all);
    assert(parsed@.take(i as int) =~= parsed@);
    proof {
        lemma_all_valid(all, parsed@);
    }
    if invalid.len() > 0 {
        let list = join(&invalid, ", ");
        return Err(cat2("Invalid mission ID format: ", list.as_str()));
    }
    if ids.len() == 0 {
        return Err("No mission IDs provided".to_string());
    }
    Ok(ids)
}

/// What each of some texts is read as.
pub open spec fn parsed_uuids(texts: Seq<Seq<char>>) -> Seq<Option<u128>> {
    Seq::new(texts.len(), |i: int| parsed_uuid(texts[i]))
}

/// The missions that are meant.
pub fn parse_mission_ids(texts: &Vec<String>) -> (r: Result<Vec<u128>, String>)
    ensures
        ids_view(r) == checked_ids(texts.deep_view(), parsed_uuids(texts.deep_view())),
{
    let mut parsed: Vec<Option<u128>> = Vec::new();
    let mut i: usize = 0;
    while i < texts.len()
        invariant
            i <= texts@.len(),
            parsed@ == parsed_uuids(texts.deep_view()).take(i as int),
        decreases texts@.len() - i,
    {
        let ghost was = parsed@;
        assert(texts.deep_view()[i as int] == texts@[i as int]@);
        parsed.push(parse_uuid(texts[i].as_str()));
        assert(parsed@ =~= parsed_uuids(texts.deep_view()).take(i + 1));
        i += 1;
    }
    assert(parsed@ =~= parsed_uuids(texts.deep_view()));
    check_mission_ids(texts, &parsed)
}

/// What came of asking for a mission.
pub enum PollReply {
    Mission(Json),
    /// The reply was no JSON.
    Unreadable,
    /// The server replied with this error status.
    HttpError(String),
    /// The request failed.
    Failed(String),
}

/// Waiting for any of several workers.
pub struct AnyWait {
    targets: Vec<String>,
    timeout_seconds: u64,
    consecutive_errors: u32,
}

/// The model of waiting for any of several workers.
pub struct AnyWaitView {
    pub targets: Seq<Seq<char>>,
    pub timeout_seconds: u64,
    pub errors: int,
}

impl View for AnyWait {
    type V = AnyWaitView;

    closed spec fn view(&self) -> AnyWaitView {
        AnyWaitView {
            targets: self.targets.deep_view(),
            timeout_seconds: self.timeout_seconds,
            errors: self.consecutive_errors as int,
        }
    }
}

/// How many requests in a row may fail.
pub const MAX_CONSECUTIVE_ERRORS: u32 = 3;

/// The end of the waiting where a worker has reached a state that was waited for.
pub open spec fn any_reached(id: u128, mission: JsonView, elapsed_nanos: u64) -> JsonView {
    JsonView::Object(
        seq![
            ("elapsed_seconds"@, seconds_json(elapsed_nanos)),
            ("mission"@, mission),
            ("mission_id"@, JsonView::Text(uuid_text(id))),
            ("reached_target"@, JsonView::Bool(true)),
            ("status"@, JsonView::Text(status_of(mission))),
        ],
    )
}

/// What a look at one of the workers leads to, and how many requests in a row have
/// failed then. Any reply of the server but an error starts the count anew.
pub open spec fn any_step(
    w: AnyWaitView,
    id: u128,
    reply: PollReply,
    elapsed_nanos: u64,
) -> (Option<Result<JsonView, Seq<char>>>, int) {
    match reply {
        PollReply::Mission(mission) => (
            if w.targets.contains(status_of(mission@)) {
                Some(Ok(any_reached(id, mission@, elapsed_nanos)))
            } else {
                None
            },
            0,
        ),
        PollReply::Unreadable => (None, 0),
        PollReply::HttpError(status) => (
            if w.errors + 1 >= MAX_CONSECUTIVE_ERRORS {
                Some(
                    Err(
                        "Mission "@ + uuid_text(id) + " returned HTTP "@ + status@ + " after "@
                            + decimal((w.errors + 1) as nat) + " consecutive errors"@,
                    ),
                )
            } else {
                None
            },
            w.errors + 1,
        ),
        PollReply::Failed(e) => (
            if w.errors + 1 >= MAX_CONSECUTIVE_ERRORS {
                Some(
                    Err(
                        "API request failed for mission "@ + uuid_text(id) + ": "@ + e@ + " ("@
                            + decimal((w.errors + 1) as nat) + " consecutive errors)"@,
                    ),
                )
            } else {
                None
            },
            w.errors + 1,
        ),
    }
}

/// The model of the end of a waiting.
pub open spec fn step_view(o: Option<Result<Json, String>>) -> Option<
    Result<JsonView, Seq<char>>,
> {
    match o {
        Some(r) => Some(outcome_view(r)),
        None => None,
    }
}

impl AnyWait {
    pub fn new(targets: Vec<String>, timeout_seconds: u64) -> (r: Self)
        ensures
            r@.targets == if targets@.len() == 0 {
                default_targets()
            } else {
                targets.deep_view()
            },
            r@.timeout_seconds == timeout_seconds,
            r@.errors == 0,
    {
        AnyWait { targets: target_statuses(targets), timeout_seconds, consecutive_errors: 0 }
    }

    /// What a look at one of the workers leads to.
    pub fn on_reply(&mut self, id: u128, reply: PollReply, elapsed_nanos: u64) -> (r: Option<
        Result<Json, String>,
    >)
        requires
            old(self)@.errors < MAX_CONSECUTIVE_ERRORS,
        ensures
            step_view(r) == any_step(old(self)@, id, reply, elapsed_nanos).0,
            final(self)@.errors == any_step(old(self)@, id, reply, elapsed_nanos).1,
            final(self)@.targets == old(self)@.targets,
            final(self)@.timeout_seconds == old(self)@.timeout_seconds,
            r is None ==> final(self)@.errors < MAX_CONSECUTIVE_ERRORS,
    {
        broadcast use group_json_view;

        match reply {
            PollReply::Mission(mission) => {
                self.consecutive_errors = 0;
                let status = get_or_empty(&mission, "status").to_string();
                if !is_target(&self.targets, status.as_str()) {
                    return None;
                }
                let ghost view = mission@;
                let mut m: Vec<(String, Json)> = Vec::new();
                m.push(("elapsed_seconds".to_string(), seconds_value(elapsed_nanos)));
                m.push(("mission".to_string(), mission));
                m.push(("mission_id".to_string(), Json::Text(uuid_to_string(id))));
                m.push(("reached_target".to_string(), Json::Bool(true)));
                m.push(("status".to_string(), Json::Text(status)));
                assert(members_view(m@) =~= any_reached(id, view, elapsed_nanos)->Object_0);
                Some(Ok(Json::Object(m)))
            },
            PollReply::Unreadable => {
                self.consecutive_errors = 0;
                None
            },
            PollReply::HttpError(status) => {
                self.consecutive_errors = self.consecutive_errors + 1;
                if self.consecutive_errors < MAX_CONSECUTIVE_ERRORS {
                    return None;
                }
                let id = uuid_to_string(id);
                let n = u64_text(self.consecutive_errors as u64);
                let mut e = cat3("Mission ", id.as_str(), " returned HTTP ");
                e.push_str(status.as_str());
                e.push_str(" after ");
                e.push_str(n.as_str());
                e.push_str(" consecutive errors");
                Some(Err(e))
            },
            PollReply::Failed(error) => {
                self.consecutive_errors = self.consecutive_errors + 1;
                if self.consecutive_errors < MAX_CONSECUTIVE_ERRORS {
                    return None;
                }
                let id = uuid_to_string(id);
                let n = u64_text(self.consecutive_errors as u64);
                let mut e = cat3("API request failed for mission ", id.as_str(), ": ");
                e.push_str(error.as_str());
                e.push_str(" (");
                e.push_str(n.as_str());
                e.push_str(" consecutive errors)");
                Some(Err(e))
            },
        }
    }

    /// The end of the waiting after a look at all workers, where it has lasted too long.
    pub fn after_round(&self, elapsed_nanos: u64) -> (r: Option<Json>)
        ensures
            result_view(r) == if timed_out(self@.timeout_seconds, elapsed_nanos) {
                Some(
                    JsonView::Object(
                        seq![
                            ("elapsed_seconds"@, seconds_json(elapsed_nanos)),
                            ("reached_target"@, JsonView::Bool(false)),
                            ("timeout"@, JsonView::Bool(true)),
                        ],
                    ),
                )
            } else {
                None
            },
    {
        if has_timed_out(self.timeout_seconds, elapsed_nanos) {
            Some(
                object3(
                    "elapsed_seconds",
                    seconds_value(elapsed_nanos),
                    "reached_target",
                    Json::Bool(false),
                    "timeout",
                    Json::Bool(true),
                ),
            )
        } else {
            None
        }
    }
}

// ---------------------------------------------------------------------------
// What each tool does
// ---------------------------------------------------------------------------

/// Every mission whose parent is the boss is listed, as often as it occurs and in order, and
/// no other.
pub proof fn law_every_worker_is_listed(missions: Seq<JsonView>, boss: Seq<char>)
    ensures
        ({
            let own = missions.filter(
                |m: JsonView| m.get("parent_mission_id"@) == Some(JsonView::Text(boss)),
            );
            let list = workers_json(missions, boss);
            &&& workers_of(missions, boss) == own
            &&& list.get("workers"@) == Some(JsonView::Array(own))
            &&& list.get("worker_count"@) == Some(
                JsonView::Number(NumberView::Int(own.len() as int)),
            )
            &&& list.get("boss_mission_id"@) == Some(JsonView::Text(boss))
        }),
{
    lemma_workers_are_filtered(missions, boss);
    reveal_strlit("boss_mission_id");
    reveal_strlit("worker_count");
    reveal_strlit("workers");
    assert("boss_mission_id"@.len() == 15 &&
        "worker_count"@.len() == 12 &&
        "workers"@.len() == 7);
    law_first_member_is_found(workers_json(missions, boss)->Object_0, 0);
    law_first_member_is_found(workers_json(missions, boss)->Object_0, 1);
    law_first_member_is_found(workers_json(missions, boss)->Object_0, 2);
}

proof fn lemma_workers_are_filtered(missions: Seq<JsonView>, boss: Seq<char>)
    ensures
        workers_of(missions, boss) == missions.filter(
            |m: JsonView| m.get("parent_mission_id"@) == Some(JsonView::Text(boss)),
        ),
    decreases missions.len(),
{
    reveal(Seq::filter);
    if missions.len() > 0 {
        lemma_workers_are_filtered(missions.drop_last(), boss);
    }
}

/// Of the workers, those are cancelled that have an identifier and are not over: in order,
/// each once, and all of them.
pub proof fn law_every_running_worker_is_cancelled(
    before: Seq<JsonView>,
    worker: JsonView,
    id: Seq<char>,
)
    ensures
        to_cancel(Seq::<JsonView>::empty()).len() == 0,
        ({
            let status = worker.get("status"@);
            let over = status == Some(JsonView::Text("completed"@)) || status == Some(
                JsonView::Text("failed"@),
            ) || status == Some(JsonView::Text("interrupted"@)) || status == Some(
                JsonView::Text("not_feasible"@),
            );
            &&& worker.get("id"@) == Some(JsonView::Text(id)) && id.len() > 0 && !over
                ==> to_cancel(before.push(worker)) == to_cancel(before).push(id)
            &&& over || !(worker.get("id"@) matches Some(JsonView::Text(t)) && t.len() > 0)
                ==> to_cancel(before.push(worker)) == to_cancel(before)
        }),
{
    assert(before.push(worker).drop_last() =~= before);
    reveal_strlit("completed");
    reveal_strlit("failed");
    reveal_strlit("interrupted");
    reveal_strlit("not_feasible");
    assert("completed"@.len() == 9 &&
        "failed"@.len() == 6 &&
        "interrupted"@.len() == 11 &&
        "not_feasible"@.len() == 12);
}

/// A worker is created as it is described, as a child of the boss. What is not said is left
/// open.
pub proof fn law_worker_is_created_as_described(p: CreateWorkerParams, boss: u128)
    ensures
        ({
            let body = create_json(p, boss);
            let says = |key: Seq<char>, value: Option<String>|
                body.get(key) == Some(
                    match value {
                        Some(s) => JsonView::Text(s@),
                        None => JsonView::Null,
                    },
                );
            &&& body.get("title"@) == Some(JsonView::Text(p.title@))
            &&& body.get("parent_mission_id"@) == Some(JsonView::Text(uuid_text(boss)))
            &&& says("agent"@, p.agent)
            &&& says("backend"@, p.backend)
            &&& says("config_profile"@, p.config_profile)
            &&& says("model_effort"@, p.model_effort)
            &&& says("model_override"@, p.model_override)
            &&& says("working_directory"@, p.working_directory)
        }),
{
    reveal_strlit("agent");
    reveal_strlit("backend");
    reveal_strlit("config_profile");
    reveal_strlit("model_effort");
    reveal_strlit("model_override");
    reveal_strlit("parent_mission_id");
    reveal_strlit("title");
    reveal_strlit("working_directory");
    assert("agent"@.len() == 5 &&
        "backend"@.len() == 7 &&
        "config_profile"@.len() == 14 &&
        "model_effort"@.len() == 12 &&
        "model_override"@.len() == 14 &&
        "parent_mission_id"@.len() == 17 &&
        "title"@.len() == 5 &&
        "working_directory"@.len() == 17 &&
        "agent"@[0] == 'a' &&
        "title"@[0] == 't' &&
        "config_profile"@[0] == 'c' &&
        "model_override"@[0] == 'm' &&
        "parent_mission_id"@[0] == 'p' &&
        "working_directory"@[0] == 'w');
    let m = create_json(p, boss)->Object_0;
    law_first_member_is_found(m, 0);
    law_first_member_is_found(m, 1);
    law_first_member_is_found(m, 2);
    law_first_member_is_found(m, 3);
    law_first_member_is_found(m, 4);
    law_first_member_is_found(m, 5);
    law_first_member_is_found(m, 6);
    law_first_member_is_found(m, 7);
}

/// A message says what is said to whom it is said.
pub proof fn law_message_reaches_its_mission(content: Seq<char>, id: Seq<char>)
    ensures
        message_json(content, id).get("content"@) == Some(JsonView::Text(content)),
        message_json(content, id).get("mission_id"@) == Some(JsonView::Text(id)),
{
    reveal_strlit("content");
    reveal_strlit("mission_id");
    assert("content"@.len() == 7 &&
        "mission_id"@.len() == 10);
    law_first_member_is_found(message_json(content, id)->Object_0, 0);
    law_first_member_is_found(message_json(content, id)->Object_0, 1);
}

/// What is read off a mission.
pub proof fn law_mission_is_read(mission: JsonView, id: Seq<char>, status: Seq<char>)
    ensures
        mission.get("id"@) == Some(JsonView::Text(id)) ==> id_of(mission) == id,
        mission.get("status"@) == Some(JsonView::Text(status)) ==> status_of(mission) == status,
        mission.get("status"@) is None ==> status_of(mission).len() == 0,
        mission.get("id"@) is None ==> id_of(mission).len() == 0,
{
}

/// The text of a result is the whole content of a reply.
pub proof fn law_reply_holds_the_text(text: Seq<char>)
    ensures
        content_json(text).get("content"@) matches Some(JsonView::Array(parts)) && parts.len() == 1
            && parts[0].get("type"@) == Some(JsonView::Text("text"@)) && parts[0].get("text"@)
            == Some(JsonView::Text(text)),
{
    reveal_strlit("text");
    reveal_strlit("type");
    assert("text"@.len() == 4 &&
        "type"@.len() == 4 &&
        "text"@[1] == 'e' &&
        "type"@[1] == 'y');
    let m = content_json(text)->Object_0;
    law_first_member_is_found(m, 0);
    let part = m[0].1->Array_0[0]->Object_0;
    law_first_member_is_found(part, 0);
    law_first_member_is_found(part, 1);
}

/// A batch accounts for each worker by its place: those that were created with their missions,
/// and those that were not with the reason.
pub proof fn law_batch_tells_of_each_worker(
    before: Seq<Result<JsonView, Seq<char>>>,
    mission: JsonView,
    error: Seq<char>,
)
    ensures
        created_entries(Seq::<Result<JsonView, Seq<char>>>::empty()).len() == 0,
        failed_entries(Seq::<Result<JsonView, Seq<char>>>::empty()).len() == 0,
        ({
            let s = before.push(Ok(mission));
            let e = created_entries(s).last();
            &&& created_entries(s) == created_entries(before).push(e)
            &&& failed_entries(s) == failed_entries(before)
            &&& e.get("index"@) == Some(JsonView::Number(NumberView::Int(before.len() as int)))
            &&& e.get("mission"@) == Some(mission)
            &&& e.get("success"@) == Some(JsonView::Bool(true))
        }),
        ({
            let s = before.push(Err(error));
            let e = failed_entries(s).last();
            &&& failed_entries(s) == failed_entries(before).push(e)
            &&& created_entries(s) == created_entries(before)
            &&& e.get("index"@) == Some(JsonView::Number(NumberView::Int(before.len() as int)))
            &&& e.get("error"@) == Some(JsonView::Text(error))
            &&& e.get("success"@) == Some(JsonView::Bool(false))
        }),
        ({
            let b = batch_json(before);
            &&& b.get("results"@) == Some(JsonView::Array(created_entries(before)))
            &&& b.get("errors"@) == Some(JsonView::Array(failed_entries(before)))
            &&& b.get("created"@) == Some(
                JsonView::Number(NumberView::Int(created_entries(before).len() as int)),
            )
            &&& b.get("failed"@) == Some(
                JsonView::Number(NumberView::Int(failed_entries(before).len() as int)),
            )
        }),
{
    reveal_strlit("index");
    reveal_strlit("mission");
    reveal_strlit("success");
    reveal_strlit("error");
    reveal_strlit("created");
    reveal_strlit("errors");
    reveal_strlit("failed");
    reveal_strlit("results");
    assert("index"@.len() == 5 &&
        "mission"@.len() == 7 &&
        "success"@.len() == 7 &&
        "error"@.len() == 5 &&
        "created"@.len() == 7 &&
        "errors"@.len() == 6 &&
        "failed"@.len() == 6 &&
        "results"@.len() == 7 &&
        "index"@[0] == 'i' &&
        "error"@[0] == 'e' &&
        "mission"@[0] == 'm' &&
        "success"@[0] == 's' &&
        "created"@[0] == 'c' &&
        "results"@[0] == 'r' &&
        "errors"@[0] == 'e' &&
        "failed"@[0] == 'f');
    let ok = before.push(Ok::<JsonView, Seq<char>>(mission));
    let err = before.push(Err::<JsonView, Seq<char>>(error));
    assert(ok.drop_last() =~= before);
    assert(err.drop_last() =~= before);
    let a = created_entries(ok).last()->Object_0;
    let b = failed_entries(err).last()->Object_0;
    let c = batch_json(before)->Object_0;
    law_first_member_is_found(a, 0);
    law_first_member_is_found(a, 1);
    law_first_member_is_found(a, 2);
    law_first_member_is_found(b, 0);
    law_first_member_is_found(b, 1);
    law_first_member_is_found(b, 2);
    law_first_member_is_found(c, 0);
    law_first_member_is_found(c, 1);
    law_first_member_is_found(c, 2);
    law_first_member_is_found(c, 3);
}

/// A worktree is made at its path and on its branch: one that is there, or a new one from its
/// base, which is where the repository stands if none is named.
pub proof fn law_worktree_is_made_where_asked(
    path: Seq<char>,
    branch: Seq<char>,
    base: Seq<char>,
    any: Option<Seq<char>>,
)
    ensures
        worktree_args(path, branch, any, true) == seq!["worktree"@, "add"@, path, branch],
        worktree_args(path, branch, Some(base), false) == seq![
            "worktree"@,
            "add"@,
            "-b"@,
            branch,
            path,
            base,
        ],
        worktree_args(path, branch, None, false) == seq![
            "worktree"@,
            "add"@,
            "-b"@,
            branch,
            path,
            "HEAD"@,
        ],
{
}

/// Waiting ends as soon as the worker is in a state that is waited for, and else once more
/// time has passed than was given. Whoever waited learns which it was, and in what state the
/// worker is.
pub proof fn law_waiting_ends(
    mission: JsonView,
    targets: Seq<Seq<char>>,
    timeout_seconds: u64,
    elapsed_nanos: u64,
    status: Seq<char>,
)
    requires
        mission.get("status"@) == Some(JsonView::Text(status)),
    ensures
        ({
            let late = elapsed_nanos as int > timeout_seconds as int * 1_000_000_000;
            match wait_one(mission, targets, timeout_seconds, elapsed_nanos) {
                None => !targets.contains(status) && !late,
                Some(r) => {
                    &&& targets.contains(status) || late
                    &&& r.get("mission"@) == Some(mission)
                    &&& r.get("status"@) == Some(JsonView::Text(status))
                    &&& r.get("reached_target"@) == Some(JsonView::Bool(targets.contains(status)))
                    &&& r.get("elapsed_seconds"@) == Some(
                        JsonView::Number(NumberView::Int(elapsed_nanos as int / 1_000_000_000)),
                    )
                    &&& r.get("timeout"@) == if targets.contains(status) {
                        None
                    } else {
                        Some(JsonView::Bool(true))
                    }
                },
            }
        }),
{
    reveal_strlit("elapsed_seconds");
    reveal_strlit("mission");
    reveal_strlit("reached_target");
    reveal_strlit("status");
    reveal_strlit("timeout");
    assert("elapsed_seconds"@.len() == 15 &&
        "mission"@.len() == 7 &&
        "reached_target"@.len() == 14 &&
        "status"@.len() == 6 &&
        "timeout"@.len() == 7 &&
        "mission"@[0] == 'm' &&
        "timeout"@[0] == 't');
    if let Some(r) = wait_one(mission, targets, timeout_seconds, elapsed_nanos) {
        let m = r->Object_0;
        law_first_member_is_found(m, 0);
    law_first_member_is_found(m, 1);
    law_first_member_is_found(m, 2);
    law_first_member_is_found(m, 3);
        if targets.contains(status) {
            law_found_member_is_there(m, "timeout"@);
            if let Some(v) = lookup(m, "timeout"@) {
                let i = choose|i: int| 0 <= i < m.len() && #[trigger] m[i] == ("timeout"@, v);
                assert(false);
            }
        } else {
            law_first_member_is_found(m, 4);
        }
    }
}

/// Waiting for any of several workers ends with the first that is in a state that is waited
/// for; it is named. A worker in another state, or a reply that cannot be read, ends nothing
/// and forgives what failed before; the third failure in a row ends it with an error.
pub proof fn law_waiting_for_any_ends(
    w: AnyWaitView,
    id: u128,
    reply: PollReply,
    elapsed_nanos: u64,
    status: Seq<char>,
)
    ensures
        ({
            let (end, errors) = any_step(w, id, reply, elapsed_nanos);
            match reply {
                PollReply::Mission(m) => {
                    &&& errors == 0
                    &&& m@.get("status"@) == Some(JsonView::Text(status)) && w.targets.contains(
                        status,
                    ) ==> (end matches Some(Ok(r)) && {
                        &&& r.get("mission_id"@) == Some(JsonView::Text(uuid_text(id)))
                        &&& r.get("mission"@) == Some(m@)
                        &&& r.get("status"@) == Some(JsonView::Text(status))
                        &&& r.get("reached_target"@) == Some(JsonView::Bool(true))
                        &&& r.get("elapsed_seconds"@) == Some(
                            JsonView::Number(NumberView::Int(elapsed_nanos as int / 1_000_000_000)),
                        )
                    })
                    &&& m@.get("status"@) == Some(JsonView::Text(status)) && !w.targets.contains(
                        status,
                    ) ==> end is None
                },
                PollReply::Unreadable => end is None && errors == 0,
                PollReply::HttpError(s) => {
                    &&& errors == w.errors + 1
                    &&& errors < 3 ==> end is None
                    &&& errors == 3 ==> (end matches Some(Err(e)) && e == "Mission "@ + uuid_text(id)
                        + " returned HTTP "@ + s@ + " after "@ + "3"@ + " consecutive errors"@)
                },
                PollReply::Failed(s) => {
                    &&& errors == w.errors + 1
                    &&& errors < 3 ==> end is None
                    &&& errors == 3 ==> (end matches Some(Err(e)) && e
                        == "API request failed for mission "@ + uuid_text(id) + ": "@ + s@ + " ("@
                        + "3"@ + " consecutive errors)"@)
                },
            }
        }),
{
    reveal_strlit("elapsed_seconds");
    reveal_strlit("mission");
    reveal_strlit("mission_id");
    reveal_strlit("reached_target");
    reveal_strlit("status");
    assert("elapsed_seconds"@.len() == 15 &&
        "mission"@.len() == 7 &&
        "mission_id"@.len() == 10 &&
        "reached_target"@.len() == 14 &&
        "status"@.len() == 6);
    reveal_strlit("3");
    assert(decimal(3) =~= "3"@);
    if let PollReply::Mission(mission) = reply {
        let m = any_reached(id, mission@, elapsed_nanos)->Object_0;
        law_first_member_is_found(m, 0);
    law_first_member_is_found(m, 1);
    law_first_member_is_found(m, 2);
    law_first_member_is_found(m, 3);
    law_first_member_is_found(m, 4);
    }
}

/// The states that are waited for by default are those in which a worker is done, and time
/// counts in whole seconds and to the nanosecond.
pub proof fn law_waiting_is_measured(timeout_seconds: u64, elapsed_nanos: u64)
    ensures
        default_targets().len() == 3,
        default_targets().contains("completed"@),
        default_targets().contains("failed"@),
        default_targets().contains("interrupted"@),
        timed_out(timeout_seconds, elapsed_nanos) == (elapsed_nanos as int > timeout_seconds as int
            * 1_000_000_000),
{
    assert(default_targets()[0] == "completed"@);
    assert(default_targets()[1] == "failed"@);
    assert(default_targets()[2] == "interrupted"@);
}

/// Several identifiers are read all or not at all: where each can be read they are meant, in
/// order, and where some cannot the error names those, in order, and no others.
pub proof fn law_identifiers_are_read_together(texts: Seq<Seq<char>>, parsed: Seq<Option<u128>>)
    requires
        texts.len() == parsed.len(),
    ensures
        texts.len() == 0 ==> checked_ids(texts, parsed) == Err::<Seq<u128>, Seq<char>>(
            "No mission IDs provided"@,
        ),
        texts.len() > 0 && (forall|i: int| 0 <= i < parsed.len() ==> #[trigger] parsed[i] is Some)
            ==> (checked_ids(texts, parsed) matches Ok(ids) && ids.len() == parsed.len()
            && forall|i: int| 0 <= i < ids.len() ==> #[trigger] ids[i] == parsed[i]->0),
        (exists|i: int| 0 <= i < parsed.len() && #[trigger] parsed[i] is None) ==> checked_ids(
            texts,
            parsed,
        ) == Err::<Seq<u128>, Seq<char>>(
            "Invalid mission ID format: "@ + joined(invalid_ids(texts, parsed), ", "@),
        ),
        texts.len() > 0 ==> invalid_ids(texts, parsed) == if parsed.last() is None {
            invalid_ids(texts.drop_last(), parsed.drop_last()).push(texts.last())
        } else {
            invalid_ids(texts.drop_last(), parsed.drop_last())
        },
        texts.len() == 0 ==> invalid_ids(texts, parsed).len() == 0,
{
    lemma_valid_in_order(texts, parsed);
}

proof fn lemma_valid_in_order(texts: Seq<Seq<char>>, parsed: Seq<Option<u128>>)
    requires
        texts.len() == parsed.len(),
    ensures
        (forall|i: int| 0 <= i < parsed.len() ==> #[trigger] parsed[i] is Some) ==> {
            &&& invalid_ids(texts, parsed).len() == 0
            &&& valid_ids(parsed).len() == parsed.len()
            &&& forall|i: int| 0 <= i < parsed.len() ==> #[trigger] valid_ids(parsed)[i] == parsed[i]->0
        },
        (exists|i: int| 0 <= i < parsed.len() && #[trigger] parsed[i] is None) ==> invalid_ids(
            texts,
            parsed,
        ).len() > 0,
    decreases texts.len(),
{
    if texts.len() > 0 {
        let t = texts.drop_last();
        let p = parsed.drop_last();
        lemma_valid_in_order(t, p);
        if forall|i: int| 0 <= i < parsed.len() ==> #[trigger] parsed[i] is Some {
            assert forall|i: int| 0 <= i < p.len() implies #[trigger] p[i] is Some by {
                assert(p[i] == parsed[i]);
            }
            assert(parsed[parsed.len() - 1] is Some);
            assert forall|i: int| 0 <= i < parsed.len() implies #[trigger] valid_ids(parsed)[i]
                == parsed[i]->0 by {
                if i < p.len() {
                    assert(valid_ids(parsed)[i] == valid_ids(p)[i]);
                    assert(p[i] == parsed[i]);
                }
            }
        }
        if exists|i: int| 0 <= i < parsed.len() && #[trigger] parsed[i] is None {
            let i = choose|i: int| 0 <= i < parsed.len() && #[trigger] parsed[i] is None;
            if i < p.len() {
                assert(p[i] is None);
            }
        }
    }
}

/// Texts stand in a list as they are, in order.
pub proof fn law_texts_are_listed(s: Seq<Seq<char>>, i: int)
    requires
        0 <= i < s.len(),
    ensures
        texts_view(s) is Array && texts_view(s)->Array_0.len() == s.len(),
        texts_view(s)->Array_0[i] == JsonView::Text(s[i]),
{
}

/// Requests: the server tells of itself and of its tools, calls the tool that is named with
/// the arguments that are given, and refuses what it does not know.
pub proof fn law_requests_are_answered(
    id: JsonView,
    method: Seq<char>,
    params: JsonView,
    name: Seq<char>,
    h: Handled,
)
    requires
        handles(id, method, params, h),
    ensures
        method == "initialize"@ ==> h is Reply && h->Reply_0.error is None
            && (h->Reply_0.result matches Some(r) && r@ == server_json()),
        method == "tools/list"@ ==> h is Reply && h->Reply_0.error is None
            && (h->Reply_0.result matches Some(r) && r@ == tools_list_json()),
        method == "tools/call"@ && params.get("name"@) == Some(JsonView::Text(name)) ==> h is Call
            && h->Call_id@ == id && h->Call_tool@ == name && (params.get(
            "arguments"@,
        ) matches Some(a) ==> h->Call_arguments@ == a),
        method == "tools/call"@ && params.get("name"@) is None ==> h is Reply
            && (h->Reply_0.error matches Some(e) && e.code == -32602),
        method == "notifications/initialized"@ ==> h is Reply && h->Reply_0.error is None,
        method != "initialize"@ && method != "tools/list"@ && method != "tools/call"@ && method
            != "notifications/initialized"@ ==> h is Reply && (h->Reply_0.error matches Some(e)
            && e.code == -32601 && e.message@ == "Unknown method: "@ + method),
        h is Reply ==> h->Reply_0.id@ == id && h->Reply_0.jsonrpc@ == "2.0"@,
        server_json().get("protocolVersion"@) == Some(JsonView::Text("2024-11-05"@)),
        server_json().get("serverInfo"@) matches Some(s) && s.get("name"@) == Some(
            JsonView::Text("orchestrator"@),
        ) && s.get("version"@) == Some(JsonView::Text("0.1.0"@)),
        server_json().get("capabilities"@) matches Some(s) && s.get("tools"@) is Some,
{
    reveal_strlit("initialize");
    reveal_strlit("notifications/initialized");
    assert("initialize"@.len() == 10 && "notifications/initialized"@.len() == 25);
    reveal_strlit("tools/list");
    reveal_strlit("tools/call");
    assert("initialize"@[0] == 'i' && "tools/list"@[6] == 'l' && "tools/call"@[6] == 'c'
        && "tools/list"@[0] == 't' && "tools/call"@.len() == 10);
    reveal_strlit("capabilities");
    reveal_strlit("protocolVersion");
    reveal_strlit("serverInfo");
    reveal_strlit("name");
    reveal_strlit("version");
    assert("capabilities"@.len() == 12 &&
        "protocolVersion"@.len() == 15 &&
        "serverInfo"@.len() == 10 &&
        "name"@.len() == 4 &&
        "version"@.len() == 7);
    let m = server_json()->Object_0;
    law_first_member_is_found(m, 0);
    law_first_member_is_found(m, 1);
    law_first_member_is_found(m, 2);
    let info = m[2].1->Object_0;
    law_first_member_is_found(info, 0);
    law_first_member_is_found(info, 1);
    law_first_member_is_found(m[0].1->Object_0, 0);
}

/// Which tool goes by which name.
pub proof fn law_tools_go_by_their_names()
    ensures
        tool_named("create_worker_mission"@) == Some(Tool::CreateWorker),
        tool_named("batch_create_workers"@) == Some(Tool::BatchCreateWorkers),
        tool_named("list_worker_missions"@) == Some(Tool::ListWorkers),
        tool_named("get_worker_status"@) == Some(Tool::GetWorkerStatus),
        tool_named("cancel_worker"@) == Some(Tool::CancelWorker),
        tool_named("cancel_all_workers"@) == Some(Tool::CancelAllWorkers),
        tool_named("send_message_to_worker"@) == Some(Tool::SendMessage),
        tool_named("create_worktree"@) == Some(Tool::CreateWorktree),
        tool_named("remove_worktree"@) == Some(Tool::RemoveWorktree),
        tool_named("wait_for_worker"@) == Some(Tool::WaitForWorker),
        tool_named("wait_for_any_worker"@) == Some(Tool::WaitForAnyWorker),
{
    reveal_strlit("create_worker_mission");
    reveal_strlit("batch_create_workers");
    reveal_strlit("list_worker_missions");
    reveal_strlit("get_worker_status");
    reveal_strlit("cancel_worker");
    reveal_strlit("cancel_all_workers");
    reveal_strlit("send_message_to_worker");
    reveal_strlit("create_worktree");
    reveal_strlit("remove_worktree");
    reveal_strlit("wait_for_worker");
    reveal_strlit("wait_for_any_worker");
    assert("create_worker_mission"@.len() == 21 &&
        "batch_create_workers"@.len() == 20 &&
        "list_worker_missions"@.len() == 20 &&
        "get_worker_status"@.len() == 17 &&
        "cancel_worker"@.len() == 13 &&
        "cancel_all_workers"@.len() == 18 &&
        "send_message_to_worker"@.len() == 22 &&
        "create_worktree"@.len() == 15 &&
        "remove_worktree"@.len() == 15 &&
        "wait_for_worker"@.len() == 15 &&
        "wait_for_any_worker"@.len() == 19 &&
        "batch_create_workers"@[0] == 'b' &&
        "list_worker_missions"@[0] == 'l' &&
        "create_worktree"@[0] == 'c' &&
        "remove_worktree"@[0] == 'r' &&
        "wait_for_worker"@[0] == 'w');
}

} // verus!
