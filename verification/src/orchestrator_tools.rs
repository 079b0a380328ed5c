//! The tools that a boss mission is offered.
use vstd::prelude::*;

use crate::json::{
    empty_object, group_json_view, items_view, key_views, law_first_member_is_found,
    law_found_member_is_there, lookup, members_view, object1, object2, object3, Json, JsonView,
};

verus! {

/// A tool, with the JSON schema of its arguments.
pub struct ToolDefinition {
    pub name: String,
    pub description: String,
    pub input_schema: Json,
}

/// The model of a tool.
pub struct ToolView {
    pub name: Seq<char>,
    pub description: Seq<char>,
    pub input_schema: JsonView,
}

impl View for ToolDefinition {
    type V = ToolView;

    open spec fn view(&self) -> ToolView {
        ToolView {
            name: self.name@,
            description: self.description@,
            input_schema: self.input_schema@,
        }
    }
}

// ---------------------------------------------------------------------------
// Schemas
// ---------------------------------------------------------------------------

/// Texts as JSON.
pub open spec fn texts_json(s: Seq<Seq<char>>) -> JsonView {
    JsonView::Array(Seq::new(s.len(), |i: int| JsonView::Text(s[i])))
}

/// A schema of the type `kind`.
pub open spec fn bare_schema(kind: Seq<char>) -> JsonView {
    JsonView::Object(seq![("type"@, JsonView::Text(kind))])
}

/// A schema of the type `kind` with a description.
pub open spec fn plain_schema(kind: Seq<char>, description: Seq<char>) -> JsonView {
    JsonView::Object(
        seq![("description"@, JsonView::Text(description)), ("type"@, JsonView::Text(kind))],
    )
}

/// A schema of one of a few texts.
pub open spec fn bare_choice_schema(values: Seq<Seq<char>>) -> JsonView {
    JsonView::Object(seq![("enum"@, texts_json(values)), ("type"@, JsonView::Text("string"@))])
}

/// A schema of one of a few texts, with a description.
pub open spec fn choice_schema(description: Seq<char>, values: Seq<Seq<char>>) -> JsonView {
    JsonView::Object(
        seq![
            ("description"@, JsonView::Text(description)),
            ("enum"@, texts_json(values)),
            ("type"@, JsonView::Text("string"@)),
        ],
    )
}

/// A schema of a list.
pub open spec fn list_schema(description: Seq<char>, items: JsonView) -> JsonView {
    JsonView::Object(
        seq![
            ("description"@, JsonView::Text(description)),
            ("items"@, items),
            ("type"@, JsonView::Text("array"@)),
        ],
    )
}

/// A schema of an object whose members `required` must be there.
pub open spec fn object_schema(
    properties: Seq<(Seq<char>, JsonView)>,
    required: Seq<Seq<char>>,
) -> JsonView {
    JsonView::Object(
        seq![
            ("properties"@, JsonView::Object(properties)),
            ("required"@, texts_json(required)),
            ("type"@, JsonView::Text("object"@)),
        ],
    )
}

/// A schema of an object without members.
pub open spec fn empty_schema() -> JsonView {
    JsonView::Object(
        seq![
            ("properties"@, JsonView::Object(Seq::empty())),
            ("type"@, JsonView::Text("object"@)),
        ],
    )
}

/// The backends that a worker can run on.
pub open spec fn backend_names() -> Seq<Seq<char>> {
    seq!["claudecode"@, "codex"@, "gemini"@, "opencode"@]
}

/// The efforts that a worker can make.
pub open spec fn effort_names() -> Seq<Seq<char>> {
    seq!["low"@, "medium"@, "high"@]
}

fn texts_value(values: &[&str]) -> (r: Json)
    ensures
        r@ == texts_json(key_views(values@)),
{
    broadcast use group_json_view;

    let mut out: Vec<Json> = Vec::new();
    let mut i: usize = 0;
    while i < values.len()
        invariant
            i <= values@.len(),
            items_view(out@) == texts_json(key_views(values@))->Array_0.take(i as int),
        decreases values@.len() - i,
    {
        let ghost was = items_view(out@);
        out.push(Json::Text(values[i].to_string()));
        assert(items_view(out@) =~= was.push(JsonView::Text(values@[i as int]@)));
        i += 1;
    }
    assert(items_view(out@) =~= texts_json(key_views(values@))->Array_0);
    Json::Array(out)
}

fn text_value(s: &str) -> (r: Json)
    ensures
        r@ == JsonView::Text(s@),
{
    Json::Text(s.to_string())
}

fn bare(kind: &str) -> (r: Json)
    ensures
        r@ == bare_schema(kind@),
{
    object1("type", text_value(kind))
}

fn plain(kind: &str, description: &str) -> (r: Json)
    ensures
        r@ == plain_schema(kind@, description@),
{
    object2("description", text_value(description), "type", text_value(kind))
}

fn bare_choice(values: &[&str]) -> (r: Json)
    ensures
        r@ == bare_choice_schema(key_views(values@)),
{
    object2("enum", texts_value(values), "type", text_value("string"))
}

fn choice(description: &str, values: &[&str]) -> (r: Json)
    ensures
        r@ == choice_schema(description@, key_views(values@)),
{
    object3(
        "description",
        text_value(description),
        "enum",
        texts_value(values),
        "type",
        text_value("string"),
    )
}

fn list(description: &str, items: Json) -> (r: Json)
    ensures
        r@ == list_schema(description@, items@),
{
    object3(
        "description",
        text_value(description),
        "items",
        items,
        "type",
        text_value("array"),
    )
}

fn object(properties: Vec<(String, Json)>, required: &[&str]) -> (r: Json)
    ensures
        r@ == object_schema(members_view(properties@), key_views(required@)),
{
    broadcast use group_json_view;

    object3(
        "properties",
        Json::Object(properties),
        "required",
        texts_value(required),
        "type",
        text_value("object"),
    )
}

fn no_arguments() -> (r: Json)
    ensures
        r@ == empty_schema(),
{
    object2("properties", empty_object(), "type", text_value("object"))
}

fn tool(name: &str, description: &str, input_schema: Json) -> (r: ToolDefinition)
    ensures
        r@ == (ToolView { name: name@, description: description@, input_schema: input_schema@ }),
{
    ToolDefinition {
        name: name.to_string(),
        description: description.to_string(),
        input_schema,
    }
}

// ---------------------------------------------------------------------------
// Tools
// ---------------------------------------------------------------------------

pub const CREATE_WORKER_TOOL: &'static str = "Create a new worker mission (child of the current boss mission). The worker will start executing immediately. IMPORTANT: You must set the 'backend' field to match the harness you want (claudecode, codex, gemini, opencode). If omitted, defaults to the workspace default (usually claudecode).";

pub const CREATE_WORKER_AGENT: &'static str = "Agent name from library (optional, for opencode backend).";

pub const CREATE_WORKER_BACKEND: &'static str = "Backend/harness to use. MUST match the model: claudecode for Anthropic models, codex for OpenAI/GPT models, gemini for Gemini models, opencode for any model via provider routing.";

pub const CREATE_WORKER_CONFIG_PROFILE: &'static str = "Config profile name to use for this worker";

pub const CREATE_WORKER_MODEL_EFFORT: &'static str = "Effort level. Supported by codex and claudecode backends.";

pub const CREATE_WORKER_MODEL_OVERRIDE: &'static str = "Model to use. Must match the backend: Anthropic models for claudecode, GPT models (e.g. 'gpt-5.4') for codex, Gemini models for gemini, 'provider/model' format for opencode.";

pub const CREATE_WORKER_PROMPT: &'static str = "Initial prompt/instructions to send to the worker after creation. Must be self-contained.";

pub const CREATE_WORKER_TITLE: &'static str = "Descriptive title for the worker mission";

pub const CREATE_WORKER_WORKING_DIRECTORY: &'static str = "Working directory for the worker (e.g. a git worktree path). If omitted, uses the boss mission's repo directory.";

pub const BATCH_CREATE_TOOL: &'static str = "Create multiple worker missions at once. Each worker is created independently \u{2014} if one fails, others still succeed. Use this to spawn many workers in parallel.";

pub const BATCH_CREATE_WORKERS: &'static str = "Array of worker definitions. Each has the same schema as create_worker_mission.";

pub const LIST_WORKERS_TOOL: &'static str = "List all worker missions spawned by this boss mission.";

pub const WORKER_STATUS_TOOL: &'static str = "Get the current status and details of a specific worker mission.";

pub const WORKER_STATUS_MISSION_ID: &'static str = "UUID of the worker mission";

pub const CANCEL_WORKER_TOOL: &'static str = "Cancel a specific worker mission.";

pub const CANCEL_WORKER_MISSION_ID: &'static str = "UUID of the worker mission to cancel";

pub const CANCEL_ALL_TOOL: &'static str = "Cancel all active worker missions.";

pub const SEND_MESSAGE_TOOL: &'static str = "Send a text message/instruction to a running worker mission.";

pub const SEND_MESSAGE_CONTENT: &'static str = "Message content to send to the worker";

pub const CREATE_WORKTREE_TOOL: &'static str = "Create a git worktree for a worker to use as an isolated working directory. The worktree will be on its own branch so workers don't conflict.";

pub const CREATE_WORKTREE_BASE: &'static str = "Base branch/commit to create from (defaults to HEAD)";

pub const CREATE_WORKTREE_BRANCH: &'static str = "Branch name for the worktree (will be created if it doesn't exist)";

pub const CREATE_WORKTREE_PATH: &'static str = "Absolute path where the worktree will be created (e.g. /workspaces/mission-xxx/verity-worker-1)";

pub const REMOVE_WORKTREE_TOOL: &'static str = "Remove a git worktree that is no longer needed.";

pub const REMOVE_WORKTREE_PATH: &'static str = "Path of the worktree to remove";

pub const WAIT_WORKER_TOOL: &'static str = "Block until a single worker mission reaches a terminal status. Use wait_for_any_worker to monitor multiple workers simultaneously.";

pub const WAIT_WORKER_MISSION_ID: &'static str = "UUID of the worker mission to wait for";

pub const WAIT_WORKER_POLL_INTERVAL_SECONDS: &'static str = "Seconds between status checks (default: 10)";

pub const WAIT_WORKER_TARGET_STATUSES: &'static str = "Statuses to wait for (default: ['completed', 'failed', 'interrupted'])";

pub const WAIT_WORKER_TIMEOUT_SECONDS: &'static str = "Maximum seconds to wait (default: 600)";

pub const WAIT_ANY_TOOL: &'static str = "Block until ANY of the specified worker missions reaches a terminal status. Returns the first worker that finishes. Use this to monitor a pool of workers and react as each completes.";

pub const WAIT_ANY_MISSION_IDS: &'static str = "UUIDs of worker missions to monitor";

/// The members of a worker in a batch.
pub open spec fn batch_worker_properties() -> Seq<(Seq<char>, JsonView)> {
    seq![
        ("agent"@, bare_schema("string"@)),
        ("backend"@, bare_choice_schema(backend_names())),
        ("config_profile"@, bare_schema("string"@)),
        ("model_effort"@, bare_choice_schema(effort_names())),
        ("model_override"@, bare_schema("string"@)),
        ("prompt"@, bare_schema("string"@)),
        ("title"@, bare_schema("string"@)),
        ("working_directory"@, bare_schema("string"@)),
    ]
}

fn batch_worker() -> (r: Json)
    ensures
        r@ == object_schema(batch_worker_properties(), seq!["title"@, "prompt"@]),
{
    let backends = ["claudecode", "codex", "gemini", "opencode"];
    assert(key_views(backends@) =~= backend_names());
    let efforts = ["low", "medium", "high"];
    assert(key_views(efforts@) =~= effort_names());
    let mut m: Vec<(String, Json)> = Vec::new();
    m.push(("agent".to_string(), bare("string")));
    m.push(("backend".to_string(), bare_choice(backends.as_slice())));
    m.push(("config_profile".to_string(), bare("string")));
    m.push(("model_effort".to_string(), bare_choice(efforts.as_slice())));
    m.push(("model_override".to_string(), bare("string")));
    m.push(("prompt".to_string(), bare("string")));
    m.push(("title".to_string(), bare("string")));
    m.push(("working_directory".to_string(), bare("string")));
    assert(members_view(m@) =~= batch_worker_properties());
    let required = ["title", "prompt"];
    assert(key_views(required@) =~= seq!["title"@, "prompt"@]);
    object(m, required.as_slice())
}

pub open spec fn create_worker_mission_properties() -> Seq<(Seq<char>, JsonView)> {
    seq![
        ("agent"@, plain_schema("string"@, CREATE_WORKER_AGENT@)),
        ("backend"@, choice_schema(CREATE_WORKER_BACKEND@, backend_names())),
        ("config_profile"@, plain_schema("string"@, CREATE_WORKER_CONFIG_PROFILE@)),
        ("model_effort"@, choice_schema(CREATE_WORKER_MODEL_EFFORT@, effort_names())),
        ("model_override"@, plain_schema("string"@, CREATE_WORKER_MODEL_OVERRIDE@)),
        ("prompt"@, plain_schema("string"@, CREATE_WORKER_PROMPT@)),
        ("title"@, plain_schema("string"@, CREATE_WORKER_TITLE@)),
        ("working_directory"@, plain_schema("string"@, CREATE_WORKER_WORKING_DIRECTORY@)),
    ]
}

pub open spec fn create_worker_mission_tool_view() -> ToolView {
    ToolView {
        name: "create_worker_mission"@,
        description: CREATE_WORKER_TOOL@,
        input_schema: object_schema(create_worker_mission_properties(), seq!["title"@, "prompt"@]),
    }
}

fn create_worker_mission_tool() -> (r: ToolDefinition)
    ensures
        r@ == create_worker_mission_tool_view(),
{
    let backends = ["claudecode", "codex", "gemini", "opencode"];
    assert(key_views(backends@) =~= backend_names());
    let efforts = ["low", "medium", "high"];
    assert(key_views(efforts@) =~= effort_names());
    let mut m: Vec<(String, Json)> = Vec::new();
    m.push(("agent".to_string(), plain("string", CREATE_WORKER_AGENT)));
    m.push(("backend".to_string(), choice(CREATE_WORKER_BACKEND, backends.as_slice())));
    m.push(("config_profile".to_string(), plain("string", CREATE_WORKER_CONFIG_PROFILE)));
    m.push(("model_effort".to_string(), choice(CREATE_WORKER_MODEL_EFFORT, efforts.as_slice())));
    m.push(("model_override".to_string(), plain("string", CREATE_WORKER_MODEL_OVERRIDE)));
    m.push(("prompt".to_string(), plain("string", CREATE_WORKER_PROMPT)));
    m.push(("title".to_string(), plain("string", CREATE_WORKER_TITLE)));
    m.push(("working_directory".to_string(), plain("string", CREATE_WORKER_WORKING_DIRECTORY)));
    assert(members_view(m@) =~= create_worker_mission_properties());
    let required = ["title", "prompt"];
    assert(key_views(required@) =~= seq!["title"@, "prompt"@]);
    tool("create_worker_mission", CREATE_WORKER_TOOL, object(m, required.as_slice()))
}

pub open spec fn batch_create_workers_properties() -> Seq<(Seq<char>, JsonView)> {
    seq![
        ("workers"@, list_schema(BATCH_CREATE_WORKERS@, object_schema(batch_worker_properties(), seq!["title"@, "prompt"@]))),
    ]
}

pub open spec fn batch_create_workers_tool_view() -> ToolView {
    ToolView {
        name: "batch_create_workers"@,
        description: BATCH_CREATE_TOOL@,
        input_schema: object_schema(batch_create_workers_properties(), seq!["workers"@]),
    }
}

fn batch_create_workers_tool() -> (r: ToolDefinition)
    ensures
        r@ == batch_create_workers_tool_view(),
{
    let mut m: Vec<(String, Json)> = Vec::new();
    m.push(("workers".to_string(), list(BATCH_CREATE_WORKERS, batch_worker())));
    assert(members_view(m@) =~= batch_create_workers_properties());
    let required = ["workers"];
    assert(key_views(required@) =~= seq!["workers"@]);
    tool("batch_create_workers", BATCH_CREATE_TOOL, object(m, required.as_slice()))
}

pub open spec fn list_worker_missions_tool_view() -> ToolView {
    ToolView { name: "list_worker_missions"@, description: LIST_WORKERS_TOOL@, input_schema: empty_schema() }
}

fn list_worker_missions_tool() -> (r: ToolDefinition)
    ensures
        r@ == list_worker_missions_tool_view(),
{
    tool("list_worker_missions", LIST_WORKERS_TOOL, no_arguments())
}

pub open spec fn get_worker_status_properties() -> Seq<(Seq<char>, JsonView)> {
    seq![
        ("mission_id"@, plain_schema("string"@, WORKER_STATUS_MISSION_ID@)),
    ]
}

pub open spec fn get_worker_status_tool_view() -> ToolView {
    ToolView {
        name: "get_worker_status"@,
        description: WORKER_STATUS_TOOL@,
        input_schema: object_schema(get_worker_status_properties(), seq!["mission_id"@]),
    }
}

fn get_worker_status_tool() -> (r: ToolDefinition)
    ensures
        r@ == get_worker_status_tool_view(),
{
    let mut m: Vec<(String, Json)> = Vec::new();
    m.push(("mission_id".to_string(), plain("string", WORKER_STATUS_MISSION_ID)));
    assert(members_view(m@) =~= get_worker_status_properties());
    let required = ["mission_id"];
    assert(key_views(required@) =~= seq!["mission_id"@]);
    tool("get_worker_status", WORKER_STATUS_TOOL, object(m, required.as_slice()))
}

pub open spec fn cancel_worker_properties() -> Seq<(Seq<char>, JsonView)> {
    seq![
        ("mission_id"@, plain_schema("string"@, CANCEL_WORKER_MISSION_ID@)),
    ]
}

pub open spec fn cancel_worker_tool_view() -> ToolView {
    ToolView {
        name: "cancel_worker"@,
        description: CANCEL_WORKER_TOOL@,
        input_schema: object_schema(cancel_worker_properties(), seq!["mission_id"@]),
    }
}

fn cancel_worker_tool() -> (r: ToolDefinition)
    ensures
        r@ == cancel_worker_tool_view(),
{
    let mut m: Vec<(String, Json)> = Vec::new();
    m.push(("mission_id".to_string(), plain("string", CANCEL_WORKER_MISSION_ID)));
    assert(members_view(m@) =~= cancel_worker_properties());
    let required = ["mission_id"];
    assert(key_views(required@) =~= seq!["mission_id"@]);
    tool("cancel_worker", CANCEL_WORKER_TOOL, object(m, required.as_slice()))
}

pub open spec fn cancel_all_workers_tool_view() -> ToolView {
    ToolView { name: "cancel_all_workers"@, description: CANCEL_ALL_TOOL@, input_schema: empty_schema() }
}

fn cancel_all_workers_tool() -> (r: ToolDefinition)
    ensures
        r@ == cancel_all_workers_tool_view(),
{
    tool("cancel_all_workers", CANCEL_ALL_TOOL, no_arguments())
}

pub open spec fn send_message_to_worker_properties() -> Seq<(Seq<char>, JsonView)> {
    seq![
        ("content"@, plain_schema("string"@, SEND_MESSAGE_CONTENT@)),
        ("mission_id"@, plain_schema("string"@, WORKER_STATUS_MISSION_ID@)),
    ]
}

pub open spec fn send_message_to_worker_tool_view() -> ToolView {
    ToolView {
        name: "send_message_to_worker"@,
        description: SEND_MESSAGE_TOOL@,
        input_schema: object_schema(send_message_to_worker_properties(), seq!["mission_id"@, "content"@]),
    }
}

fn send_message_to_worker_tool() -> (r: ToolDefinition)
    ensures
        r@ == send_message_to_worker_tool_view(),
{
    let mut m: Vec<(String, Json)> = Vec::new();
    m.push(("content".to_string(), plain("string", SEND_MESSAGE_CONTENT)));
    m.push(("mission_id".to_string(), plain("string", WORKER_STATUS_MISSION_ID)));
    assert(members_view(m@) =~= send_message_to_worker_properties());
    let required = ["mission_id", "content"];
    assert(key_views(required@) =~= seq!["mission_id"@, "content"@]);
    tool("send_message_to_worker", SEND_MESSAGE_TOOL, object(m, required.as_slice()))
}

pub open spec fn create_worktree_properties() -> Seq<(Seq<char>, JsonView)> {
    seq![
        ("base"@, plain_schema("string"@, CREATE_WORKTREE_BASE@)),
        ("branch"@, plain_schema("string"@, CREATE_WORKTREE_BRANCH@)),
        ("path"@, plain_schema("string"@, CREATE_WORKTREE_PATH@)),
    ]
}

pub open spec fn create_worktree_tool_view() -> ToolView {
    ToolView {
        name: "create_worktree"@,
        description: CREATE_WORKTREE_TOOL@,
        input_schema: object_schema(create_worktree_properties(), seq!["path"@, "branch"@]),
    }
}

fn create_worktree_tool() -> (r: ToolDefinition)
    ensures
        r@ == create_worktree_tool_view(),
{
    let mut m: Vec<(String, Json)> = Vec::new();
    m.push(("base".to_string(), plain("string", CREATE_WORKTREE_BASE)));
    m.push(("branch".to_string(), plain("string", CREATE_WORKTREE_BRANCH)));
    m.push(("path".to_string(), plain("string", CREATE_WORKTREE_PATH)));
    assert(members_view(m@) =~= create_worktree_properties());
    let required = ["path", "branch"];
    assert(key_views(required@) =~= seq!["path"@, "branch"@]);
    tool("create_worktree", CREATE_WORKTREE_TOOL, object(m, required.as_slice()))
}

pub open spec fn remove_worktree_properties() -> Seq<(Seq<char>, JsonView)> {
    seq![
        ("path"@, plain_schema("string"@, REMOVE_WORKTREE_PATH@)),
    ]
}

pub open spec fn remove_worktree_tool_view() -> ToolView {
    ToolView {
        name: "remove_worktree"@,
        description: REMOVE_WORKTREE_TOOL@,
        input_schema: object_schema(remove_worktree_properties(), seq!["path"@]),
    }
}

fn remove_worktree_tool() -> (r: ToolDefinition)
    ensures
        r@ == remove_worktree_tool_view(),
{
    let mut m: Vec<(String, Json)> = Vec::new();
    m.push(("path".to_string(), plain("string", REMOVE_WORKTREE_PATH)));
    assert(members_view(m@) =~= remove_worktree_properties());
    let required = ["path"];
    assert(key_views(required@) =~= seq!["path"@]);
    tool("remove_worktree", REMOVE_WORKTREE_TOOL, object(m, required.as_slice()))
}

pub open spec fn wait_for_worker_properties() -> Seq<(Seq<char>, JsonView)> {
    seq![
        ("mission_id"@, plain_schema("string"@, WAIT_WORKER_MISSION_ID@)),
        ("poll_interval_seconds"@, plain_schema("integer"@, WAIT_WORKER_POLL_INTERVAL_SECONDS@)),
        ("target_statuses"@, list_schema(WAIT_WORKER_TARGET_STATUSES@, bare_schema("string"@))),
        ("timeout_seconds"@, plain_schema("integer"@, WAIT_WORKER_TIMEOUT_SECONDS@)),
    ]
}

pub open spec fn wait_for_worker_tool_view() -> ToolView {
    ToolView {
        name: "wait_for_worker"@,
        description: WAIT_WORKER_TOOL@,
        input_schema: object_schema(wait_for_worker_properties(), seq!["mission_id"@]),
    }
}

fn wait_for_worker_tool() -> (r: ToolDefinition)
    ensures
        r@ == wait_for_worker_tool_view(),
{
    let mut m: Vec<(String, Json)> = Vec::new();
    m.push(("mission_id".to_string(), plain("string", WAIT_WORKER_MISSION_ID)));
    m.push(("poll_interval_seconds".to_string(), plain("integer", WAIT_WORKER_POLL_INTERVAL_SECONDS)));
    m.push(("target_statuses".to_string(), list(WAIT_WORKER_TARGET_STATUSES, bare("string"))));
    m.push(("timeout_seconds".to_string(), plain("integer", WAIT_WORKER_TIMEOUT_SECONDS)));
    assert(members_view(m@) =~= wait_for_worker_properties());
    let required = ["mission_id"];
    assert(key_views(required@) =~= seq!["mission_id"@]);
    tool("wait_for_worker", WAIT_WORKER_TOOL, object(m, required.as_slice()))
}

pub open spec fn wait_for_any_worker_properties() -> Seq<(Seq<char>, JsonView)> {
    seq![
        ("mission_ids"@, list_schema(WAIT_ANY_MISSION_IDS@, bare_schema("string"@))),
        ("poll_interval_seconds"@, plain_schema("integer"@, WAIT_WORKER_POLL_INTERVAL_SECONDS@)),
        ("target_statuses"@, list_schema(WAIT_WORKER_TARGET_STATUSES@, bare_schema("string"@))),
        ("timeout_seconds"@, plain_schema("integer"@, WAIT_WORKER_TIMEOUT_SECONDS@)),
    ]
}

pub open spec fn wait_for_any_worker_tool_view() -> ToolView {
    ToolView {
        name: "wait_for_any_worker"@,
        description: WAIT_ANY_TOOL@,
        input_schema: object_schema(wait_for_any_worker_properties(), seq!["mission_ids"@]),
    }
}

fn wait_for_any_worker_tool() -> (r: ToolDefinition)
    ensures
        r@ == wait_for_any_worker_tool_view(),
{
    let mut m: Vec<(String, Json)> = Vec::new();
    m.push(("mission_ids".to_string(), list(WAIT_ANY_MISSION_IDS, bare("string"))));
    m.push(("poll_interval_seconds".to_string(), plain("integer", WAIT_WORKER_POLL_INTERVAL_SECONDS)));
    m.push(("target_statuses".to_string(), list(WAIT_WORKER_TARGET_STATUSES, bare("string"))));
    m.push(("timeout_seconds".to_string(), plain("integer", WAIT_WORKER_TIMEOUT_SECONDS)));
    assert(members_view(m@) =~= wait_for_any_worker_properties());
    let required = ["mission_ids"];
    assert(key_views(required@) =~= seq!["mission_ids"@]);
    tool("wait_for_any_worker", WAIT_ANY_TOOL, object(m, required.as_slice()))
}

/// The models of a list of tools.
pub open spec fn tools_view(s: Seq<ToolDefinition>) -> Seq<ToolView> {
    Seq::new(s.len(), |i: int| s[i]@)
}

/// The tools that a boss mission is offered.
pub open spec fn all_tools() -> Seq<ToolView> {
    seq![
        create_worker_mission_tool_view(),
        batch_create_workers_tool_view(),
        list_worker_missions_tool_view(),
        get_worker_status_tool_view(),
        cancel_worker_tool_view(),
        cancel_all_workers_tool_view(),
        send_message_to_worker_tool_view(),
        create_worktree_tool_view(),
        remove_worktree_tool_view(),
        wait_for_worker_tool_view(),
        wait_for_any_worker_tool_view(),
    ]
}

/// The tools that a boss mission is offered.
pub fn get_tools() -> (r: Vec<ToolDefinition>)
    ensures
        tools_view(r@) == all_tools(),
{
    let mut tools: Vec<ToolDefinition> = Vec::new();
    tools.push(create_worker_mission_tool());
    tools.push(batch_create_workers_tool());
    tools.push(list_worker_missions_tool());
    tools.push(get_worker_status_tool());
    tools.push(cancel_worker_tool());
    tools.push(cancel_all_workers_tool());
    tools.push(send_message_to_worker_tool());
    tools.push(create_worktree_tool());
    tools.push(remove_worktree_tool());
    tools.push(wait_for_worker_tool());
    tools.push(wait_for_any_worker_tool());
    assert(tools_view(tools@) =~= all_tools());
    tools
}

/// A tool as JSON.
pub open spec fn tool_json(t: ToolView) -> JsonView {
    JsonView::Object(
        seq![
            ("description"@, JsonView::Text(t.description)),
            ("inputSchema"@, t.input_schema),
            ("name"@, JsonView::Text(t.name)),
        ],
    )
}

/// The answer to a request for the tools.
pub open spec fn tools_list_json() -> JsonView {
    JsonView::Object(
        seq![
            (
                "tools"@,
                JsonView::Array(Seq::new(all_tools().len(), |i: int| tool_json(all_tools()[i]))),
            ),
        ],
    )
}

/// The answer to a request for the tools.
pub fn tools_list() -> (r: Json)
    ensures
        r@ == tools_list_json(),
{
    broadcast use group_json_view;

    let tools = get_tools();
    let ghost all = Seq::new(all_tools().len(), |i: int| tool_json(all_tools()[i]));
    let mut out: Vec<Json> = Vec::new();
    let mut i: usize = 0;
    while i < tools.len()
        invariant
            i <= tools@.len(),
            tools_view(tools@) == all_tools(),
            all == Seq::new(all_tools().len(), |i: int| tool_json(all_tools()[i])),
            items_view(out@) == all.take(i as int),
        decreases tools@.len() - i,
    {
        let ghost was = items_view(out@);
        assert(tools_view(tools@)[i as int] == tools@[i as int]@);
        let t = object3(
            "description",
            text_value(tools[i].description.as_str()),
            "inputSchema",
            tools[i].input_schema.clone(),
            "name",
            text_value(tools[i].name.as_str()),
        );
        let ghost tv = t@;
        out.push(t);
        assert(items_view(out@) =~= was.push(tv));
        i += 1;
    }
    assert(items_view(out@) =~= all);
    object1("tools", Json::Array(out))
}

// ---------------------------------------------------------------------------
// Laws
// ---------------------------------------------------------------------------

/// A schema says its type, its description, its choices and its items.
pub proof fn law_schemas_say_what_they_take(
    kind: Seq<char>,
    description: Seq<char>,
    values: Seq<Seq<char>>,
    items: JsonView,
)
    ensures
        bare_schema(kind).get("type"@) == Some(JsonView::Text(kind)),
        plain_schema(kind, description).get("type"@) == Some(JsonView::Text(kind)),
        plain_schema(kind, description).get("description"@) == Some(JsonView::Text(description)),
        bare_choice_schema(values).get("type"@) == Some(JsonView::Text("string"@)),
        bare_choice_schema(values).get("enum"@) == Some(texts_json(values)),
        choice_schema(description, values).get("type"@) == Some(JsonView::Text("string"@)),
        choice_schema(description, values).get("enum"@) == Some(texts_json(values)),
        choice_schema(description, values).get("description"@) == Some(
            JsonView::Text(description),
        ),
        list_schema(description, items).get("type"@) == Some(JsonView::Text("array"@)),
        list_schema(description, items).get("items"@) == Some(items),
        list_schema(description, items).get("description"@) == Some(JsonView::Text(description)),
        texts_json(values) is Array && texts_json(values)->Array_0.len() == values.len(),
        forall|i: int|
            0 <= i < values.len() ==> #[trigger] texts_json(values)->Array_0[i] == JsonView::Text(
                values[i],
            ),
{
    reveal_strlit("type");
    reveal_strlit("description");
    reveal_strlit("enum");
    reveal_strlit("items");
    assert("type"@.len() == 4 &&
        "description"@.len() == 11 &&
        "enum"@.len() == 4 &&
        "items"@.len() == 5 &&
        "type"@[0] == 't' &&
        "enum"@[0] == 'e');
    law_first_member_is_found(bare_schema(kind)->Object_0, 0);
    law_first_member_is_found(plain_schema(kind, description)->Object_0, 0);
    law_first_member_is_found(plain_schema(kind, description)->Object_0, 1);
    law_first_member_is_found(bare_choice_schema(values)->Object_0, 0);
    law_first_member_is_found(bare_choice_schema(values)->Object_0, 1);
    law_first_member_is_found(choice_schema(description, values)->Object_0, 0);
    law_first_member_is_found(choice_schema(description, values)->Object_0, 1);
    law_first_member_is_found(choice_schema(description, values)->Object_0, 2);
    law_first_member_is_found(list_schema(description, items)->Object_0, 0);
    law_first_member_is_found(list_schema(description, items)->Object_0, 1);
    law_first_member_is_found(list_schema(description, items)->Object_0, 2);
}

/// Whether a tool takes arguments of these names and types, and must be given those of
/// `required`.
pub open spec fn takes(
    t: ToolView,
    arguments: Seq<(Seq<char>, Seq<char>)>,
    required: Seq<Seq<char>>,
) -> bool {
    &&& t.input_schema.get("type"@) == Some(JsonView::Text("object"@))
    &&& t.input_schema.get("required"@) == Some(
        JsonView::Array(Seq::new(required.len(), |i: int| JsonView::Text(required[i]))),
    )
    &&& t.input_schema.get("properties"@) matches Some(JsonView::Object(m)) && m.len()
        == arguments.len() && forall|i: int|
        0 <= i < m.len() ==> (#[trigger] m[i]).0 == arguments[i].0 && m[i].1.get("type"@) == Some(
            JsonView::Text(arguments[i].1),
        )
}

/// Whether a tool takes no arguments.
pub open spec fn takes_nothing(t: ToolView) -> bool {
    &&& t.input_schema.get("type"@) == Some(JsonView::Text("object"@))
    &&& t.input_schema.get("properties"@) == Some(JsonView::Object(Seq::empty()))
    &&& t.input_schema.get("required"@) is None
}

proof fn lemma_object_schema(properties: Seq<(Seq<char>, JsonView)>, required: Seq<Seq<char>>)
    ensures
        ({
            let s = object_schema(properties, required);
            &&& s.get("type"@) == Some(JsonView::Text("object"@))
            &&& s.get("required"@) == Some(
                JsonView::Array(Seq::new(required.len(), |i: int| JsonView::Text(required[i]))),
            )
            &&& s.get("properties"@) == Some(JsonView::Object(properties))
        }),
        empty_schema().get("type"@) == Some(JsonView::Text("object"@)),
        empty_schema().get("properties"@) == Some(JsonView::Object(Seq::empty())),
        empty_schema().get("required"@) is None,
{
    reveal_strlit("properties");
    reveal_strlit("required");
    reveal_strlit("type");
    assert("properties"@.len() == 10 &&
        "required"@.len() == 8 &&
        "type"@.len() == 4);
    law_first_member_is_found(object_schema(properties, required)->Object_0, 0);
    law_first_member_is_found(object_schema(properties, required)->Object_0, 1);
    law_first_member_is_found(object_schema(properties, required)->Object_0, 2);
    let m = empty_schema()->Object_0;
    law_first_member_is_found(m, 0);
    law_first_member_is_found(m, 1);
    law_found_member_is_there(m, "required"@);
    if let Some(v) = lookup(m, "required"@) {
        let i = choose|i: int| 0 <= i < m.len() && #[trigger] m[i] == ("required"@, v);
        assert(false);
    }
}

proof fn lemma_types_of_schemas()
    ensures
        forall|k: Seq<char>| #[trigger]
            bare_schema(k).get("type"@) == Some(JsonView::Text(k)),
        forall|k: Seq<char>, d: Seq<char>| #[trigger]
            plain_schema(k, d).get("type"@) == Some(JsonView::Text(k)),
        forall|d: Seq<char>, v: Seq<Seq<char>>| #[trigger]
            choice_schema(d, v).get("type"@) == Some(JsonView::Text("string"@)),
        forall|d: Seq<char>, i: JsonView| #[trigger]
            list_schema(d, i).get("type"@) == Some(JsonView::Text("array"@)),
{
    assert forall|k: Seq<char>, d: Seq<char>| #[trigger]
        plain_schema(k, d).get("type"@) == Some(JsonView::Text(k)) by {
        law_schemas_say_what_they_take(k, d, Seq::empty(), JsonView::Null);
    }
    assert forall|k: Seq<char>| #[trigger]
        bare_schema(k).get("type"@) == Some(JsonView::Text(k)) by {
        law_schemas_say_what_they_take(k, k, Seq::empty(), JsonView::Null);
    }
    assert forall|d: Seq<char>, v: Seq<Seq<char>>| #[trigger]
        choice_schema(d, v).get("type"@) == Some(JsonView::Text("string"@)) by {
        law_schemas_say_what_they_take(d, d, v, JsonView::Null);
    }
    assert forall|d: Seq<char>, i: JsonView| #[trigger]
        list_schema(d, i).get("type"@) == Some(JsonView::Text("array"@)) by {
        law_schemas_say_what_they_take(d, d, Seq::empty(), i);
    }
}

proof fn lemma_create_worker_mission_takes()
    ensures
        takes(create_worker_mission_tool_view(), seq![("agent"@, "string"@), ("backend"@, "string"@), ("config_profile"@, "string"@), ("model_effort"@, "string"@), ("model_override"@, "string"@), ("prompt"@, "string"@), ("title"@, "string"@), ("working_directory"@, "string"@)], seq!["title"@, "prompt"@]),
{
    lemma_types_of_schemas();
    lemma_object_schema(create_worker_mission_properties(), seq!["title"@, "prompt"@]);
}

proof fn lemma_batch_create_workers_takes()
    ensures
        takes(batch_create_workers_tool_view(), seq![("workers"@, "array"@)], seq!["workers"@]),
{
    lemma_types_of_schemas();
    lemma_object_schema(batch_create_workers_properties(), seq!["workers"@]);
}

proof fn lemma_get_worker_status_takes()
    ensures
        takes(get_worker_status_tool_view(), seq![("mission_id"@, "string"@)], seq!["mission_id"@]),
{
    lemma_types_of_schemas();
    lemma_object_schema(get_worker_status_properties(), seq!["mission_id"@]);
}

proof fn lemma_cancel_worker_takes()
    ensures
        takes(cancel_worker_tool_view(), seq![("mission_id"@, "string"@)], seq!["mission_id"@]),
{
    lemma_types_of_schemas();
    lemma_object_schema(cancel_worker_properties(), seq!["mission_id"@]);
}

proof fn lemma_send_message_to_worker_takes()
    ensures
        takes(send_message_to_worker_tool_view(), seq![("content"@, "string"@), ("mission_id"@, "string"@)], seq!["mission_id"@, "content"@]),
{
    lemma_types_of_schemas();
    lemma_object_schema(send_message_to_worker_properties(), seq!["mission_id"@, "content"@]);
}

proof fn lemma_create_worktree_takes()
    ensures
        takes(create_worktree_tool_view(), seq![("base"@, "string"@), ("branch"@, "string"@), ("path"@, "string"@)], seq!["path"@, "branch"@]),
{
    lemma_types_of_schemas();
    lemma_object_schema(create_worktree_properties(), seq!["path"@, "branch"@]);
}

proof fn lemma_remove_worktree_takes()
    ensures
        takes(remove_worktree_tool_view(), seq![("path"@, "string"@)], seq!["path"@]),
{
    lemma_types_of_schemas();
    lemma_object_schema(remove_worktree_properties(), seq!["path"@]);
}

proof fn lemma_wait_for_worker_takes()
    ensures
        takes(wait_for_worker_tool_view(), seq![("mission_id"@, "string"@), ("poll_interval_seconds"@, "integer"@), ("target_statuses"@, "array"@), ("timeout_seconds"@, "integer"@)], seq!["mission_id"@]),
{
    lemma_types_of_schemas();
    lemma_object_schema(wait_for_worker_properties(), seq!["mission_id"@]);
}

proof fn lemma_wait_for_any_worker_takes()
    ensures
        takes(wait_for_any_worker_tool_view(), seq![("mission_ids"@, "array"@), ("poll_interval_seconds"@, "integer"@), ("target_statuses"@, "array"@), ("timeout_seconds"@, "integer"@)], seq!["mission_ids"@]),
{
    lemma_types_of_schemas();
    lemma_object_schema(wait_for_any_worker_properties(), seq!["mission_ids"@]);
}

/// The tools that are offered, in order: their names, what they take, and what they must be
/// given.
pub proof fn law_tools_and_their_arguments()
    ensures
        all_tools().len() == 11,
        all_tools()[0].name == "create_worker_mission"@ && takes(all_tools()[0], seq![("agent"@, "string"@), ("backend"@, "string"@), ("config_profile"@, "string"@), ("model_effort"@, "string"@), ("model_override"@, "string"@), ("prompt"@, "string"@), ("title"@, "string"@), ("working_directory"@, "string"@)], seq!["title"@, "prompt"@]),
        all_tools()[1].name == "batch_create_workers"@ && takes(all_tools()[1], seq![("workers"@, "array"@)], seq!["workers"@]),
        all_tools()[2].name == "list_worker_missions"@ && takes_nothing(all_tools()[2]),
        all_tools()[3].name == "get_worker_status"@ && takes(all_tools()[3], seq![("mission_id"@, "string"@)], seq!["mission_id"@]),
        all_tools()[4].name == "cancel_worker"@ && takes(all_tools()[4], seq![("mission_id"@, "string"@)], seq!["mission_id"@]),
        all_tools()[5].name == "cancel_all_workers"@ && takes_nothing(all_tools()[5]),
        all_tools()[6].name == "send_message_to_worker"@ && takes(all_tools()[6], seq![("content"@, "string"@), ("mission_id"@, "string"@)], seq!["mission_id"@, "content"@]),
        all_tools()[7].name == "create_worktree"@ && takes(all_tools()[7], seq![("base"@, "string"@), ("branch"@, "string"@), ("path"@, "string"@)], seq!["path"@, "branch"@]),
        all_tools()[8].name == "remove_worktree"@ && takes(all_tools()[8], seq![("path"@, "string"@)], seq!["path"@]),
        all_tools()[9].name == "wait_for_worker"@ && takes(all_tools()[9], seq![("mission_id"@, "string"@), ("poll_interval_seconds"@, "integer"@), ("target_statuses"@, "array"@), ("timeout_seconds"@, "integer"@)], seq!["mission_id"@]),
        all_tools()[10].name == "wait_for_any_worker"@ && takes(all_tools()[10], seq![("mission_ids"@, "array"@), ("poll_interval_seconds"@, "integer"@), ("target_statuses"@, "array"@), ("timeout_seconds"@, "integer"@)], seq!["mission_ids"@]),
{
    lemma_object_schema(Seq::empty(), Seq::empty());
    lemma_create_worker_mission_takes();
    lemma_batch_create_workers_takes();
    lemma_get_worker_status_takes();
    lemma_cancel_worker_takes();
    lemma_send_message_to_worker_takes();
    lemma_create_worktree_takes();
    lemma_remove_worktree_takes();
    lemma_wait_for_worker_takes();
    lemma_wait_for_any_worker_takes();
}

/// What a worker can run on, and how hard it can try.
pub proof fn law_choices_for_workers()
    ensures
        backend_names() == seq!["claudecode"@, "codex"@, "gemini"@, "opencode"@],
        effort_names() == seq!["low"@, "medium"@, "high"@],
{
}

/// Every tool is listed, in order, with its name, its description and its schema.
pub proof fn law_every_tool_is_listed(i: int)
    requires
        0 <= i < all_tools().len(),
    ensures
        tools_list_json().get("tools"@) matches Some(JsonView::Array(list)) && list.len()
            == all_tools().len() && list[i].get("name"@) == Some(
            JsonView::Text(all_tools()[i].name),
        ) && list[i].get("description"@) == Some(JsonView::Text(all_tools()[i].description))
            && list[i].get("inputSchema"@) == Some(all_tools()[i].input_schema),
{
    reveal_strlit("description");
    reveal_strlit("inputSchema");
    reveal_strlit("name");
    assert("description"@.len() == 11 &&
        "inputSchema"@.len() == 11 &&
        "name"@.len() == 4 &&
        "description"@[0] == 'd' &&
        "inputSchema"@[0] == 'i');
    law_first_member_is_found(tools_list_json()->Object_0, 0);
    law_first_member_is_found(tool_json(all_tools()[i])->Object_0, 0);
    law_first_member_is_found(tool_json(all_tools()[i])->Object_0, 1);
    law_first_member_is_found(tool_json(all_tools()[i])->Object_0, 2);
}

} // verus!
