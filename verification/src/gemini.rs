//! The Gemini CLI backend: its stream of events, turned into backend-neutral events.
use vstd::prelude::*;

use crate::backend::{
    emit, emit_usage, events_view, is_default, usage_events, AgentInfo, EventView, ExecutionEvent,
    Session, SessionConfig,
};
use crate::ids::{new_uuid, uuid_text, uuid_to_string};
use crate::json::{
    empty_object, law_first_member_is_found, object2, opt_json, or_null, Json, JsonView,
};
use crate::text::{opt_string, str_eq};

verus! {

/// Why a tool failed.
pub struct GeminiToolError {
    pub error_type: Option<String>,
    pub message: Option<String>,
}

/// The token counts of a session.
pub struct GeminiStats {
    pub total_input_tokens: Option<u64>,
    pub total_output_tokens: Option<u64>,
    /// The counts of each model.
    pub models: Option<Json>,
}

/// A line of the Gemini CLI's event stream.
pub enum GeminiEvent {
    Init { session_id: Option<String>, model: Option<String> },
    Message { role: Option<String>, content: Option<String>, delta: Option<bool> },
    ToolUse { tool_name: Option<String>, tool_id: Option<String>, parameters: Option<Json> },
    ToolResult {
        tool_id: Option<String>,
        status: Option<String>,
        output: Option<Json>,
        error: Option<GeminiToolError>,
    },
    Error { severity: Option<String>, message: String },
    Result { status: Option<String>, stats: Option<GeminiStats> },
    Unknown,
}

/// A text that may be there, as JSON.
pub open spec fn text_or_null(o: Option<String>) -> JsonView {
    match o {
        Some(s) => JsonView::Text(s@),
        None => JsonView::Null,
    }
}

fn text_json(o: Option<String>) -> (r: Json)
    ensures
        r@ == text_or_null(o),
{
    match o {
        Some(s) => Json::Text(s),
        None => Json::Null,
    }
}

/// `n`, or 0 where there is none.
pub open spec fn count_or_zero(n: Option<u64>) -> int {
    match n {
        Some(k) => k as int,
        None => 0,
    }
}

/// The result of a tool, with its error where there is one.
pub open spec fn tool_outcome(output: Option<JsonView>, error: Option<GeminiToolError>) -> JsonView {
    match error {
        Some(e) => JsonView::Object(
            seq![
                (
                    "error"@,
                    JsonView::Object(
                        seq![
                            ("message"@, text_or_null(e.message)),
                            ("type"@, text_or_null(e.error_type)),
                        ],
                    ),
                ),
                ("output"@, or_null(output)),
            ],
        ),
        None => or_null(output),
    }
}

/// The events that an event leads to. A tool call without an identifier gets `fresh`.
pub open spec fn gemini_converted(event: GeminiEvent, fresh: Seq<char>) -> Seq<EventView> {
    match event {
        GeminiEvent::Message { role, content, .. } => if opt_string(role) == Some("assistant"@) {
            match content {
                Some(text) => if text@.len() > 0 {
                    seq![EventView::TextDelta { content: text@ }]
                } else {
                    Seq::empty()
                },
                None => Seq::empty(),
            }
        } else {
            Seq::empty()
        },
        GeminiEvent::ToolUse { tool_name, tool_id, parameters } => match tool_name {
            Some(name) => seq![
                EventView::ToolCall {
                    id: match tool_id {
                        Some(id) => id@,
                        None => fresh,
                    },
                    name: name@,
                    args: match parameters {
                        Some(p) => p@,
                        None => JsonView::Object(Seq::empty()),
                    },
                },
            ],
            None => Seq::empty(),
        },
        GeminiEvent::ToolResult { tool_id, output, error, .. } => match tool_id {
            Some(id) => seq![
                EventView::ToolResult {
                    id: id@,
                    name: id@,
                    result: tool_outcome(opt_json(output), error),
                },
            ],
            None => Seq::empty(),
        },
        GeminiEvent::Error { severity, message } => if opt_string(severity) == Some("warning"@) {
            Seq::empty()
        } else {
            seq![EventView::Error { message: message@ }]
        },
        GeminiEvent::Result { stats, .. } => match stats {
            Some(s) => usage_events(
                count_or_zero(s.total_input_tokens),
                count_or_zero(s.total_output_tokens),
            ),
            None => Seq::empty(),
        },
        GeminiEvent::Init { .. } | GeminiEvent::Unknown => Seq::empty(),
    }
}

fn is_text(o: &Option<String>, s: &str) -> (r: bool)
    ensures
        r == (opt_string(*o) == Some(s@)),
{
    match o {
        Some(t) => str_eq(t.as_str(), s),
        None => false,
    }
}

fn outcome_json(output: Option<Json>, error: Option<GeminiToolError>) -> (r: Json)
    ensures
        r@ == tool_outcome(opt_json(output), error),
{
    let output = match output {
        Some(j) => j,
        None => Json::Null,
    };
    match error {
        Some(e) => object2(
            "error",
            object2("message", text_json(e.message), "type", text_json(e.error_type)),
            "output",
            output,
        ),
        None => output,
    }
}

/// Converts a Gemini event into backend-neutral events. A tool call without an
/// identifier gets `fresh`.
pub fn convert_gemini_event_with(event: GeminiEvent, fresh: String) -> (r: Vec<ExecutionEvent>)
    ensures
        events_view(r@) == gemini_converted(event, fresh@),
{
    let mut results: Vec<ExecutionEvent> = Vec::new();
    assert(events_view(results@) =~= Seq::empty());
    match event {
        GeminiEvent::Message { role, content, .. } => {
            if is_text(&role, "assistant") {
                if let Some(text) = content {
                    if !text.as_str().is_empty() {
                        emit(&mut results, ExecutionEvent::TextDelta { content: text });
                    }
                }
            }
        },
        GeminiEvent::ToolUse { tool_name, tool_id, parameters } => {
            if let Some(name) = tool_name {
                let id = match tool_id {
                    Some(id) => id,
                    None => fresh,
                };
                let args = match parameters {
                    Some(p) => p,
                    None => empty_object(),
                };
                emit(&mut results, ExecutionEvent::ToolCall { id, name, args });
            }
        },
        GeminiEvent::ToolResult { tool_id, output, error, .. } => {
            if let Some(id) = tool_id {
                let result = outcome_json(output, error);
                let name = id.clone();
                emit(&mut results, ExecutionEvent::ToolResult { id, name, result });
            }
        },
        GeminiEvent::Error { severity, message } => {
            if !is_text(&severity, "warning") {
                emit(&mut results, ExecutionEvent::Error { message });
            }
        },
        GeminiEvent::Result { stats, .. } => {
            if let Some(s) = stats {
                let input: u64 = match s.total_input_tokens {
                    Some(n) => n,
                    None => 0,
                };
                let output: u64 = match s.total_output_tokens {
                    Some(n) => n,
                    None => 0,
                };
                emit_usage(&mut results, input, output);
            }
        },
        GeminiEvent::Init { .. } | GeminiEvent::Unknown => {},
    }
    assert(events_view(results@) =~= gemini_converted(event, fresh@));
    results
}

/// Whether an event is a tool call without an identifier.
pub open spec fn lacks_id(event: GeminiEvent) -> bool {
    event matches GeminiEvent::ToolUse { tool_name, tool_id, .. } && tool_name is Some && tool_id
        is None
}

/// Converts a Gemini event into backend-neutral events. A tool call without an
/// identifier gets a random one.
pub fn convert_gemini_event(event: GeminiEvent) -> (r: Vec<ExecutionEvent>)
    ensures
        exists|id: u128| events_view(r@) == gemini_converted(event, #[trigger] uuid_text(id)),
        !lacks_id(event) ==> forall|fresh: Seq<char>|
            events_view(r@) == #[trigger] gemini_converted(event, fresh),
{
    let id = new_uuid();
    let fresh = uuid_to_string(id);
    let ghost text = fresh@;
    let r = convert_gemini_event_with(event, fresh);
    assert(text == uuid_text(id));
    r
}

/// What the user says is never shown as an answer.
pub proof fn law_user_messages_are_silent(
    role: Option<String>,
    content: Option<String>,
    delta: Option<bool>,
    fresh: Seq<char>,
)
    requires
        opt_string(role) != Some("assistant"@),
    ensures
        gemini_converted(GeminiEvent::Message { role, content, delta }, fresh).len() == 0,
{
}

/// What the assistant says is passed on whole.
pub proof fn law_answers_are_passed_on(
    role: String,
    content: String,
    delta: Option<bool>,
    fresh: Seq<char>,
)
    requires
        role@ == "assistant"@,
    ensures
        ({
            let e = gemini_converted(
                GeminiEvent::Message { role: Some(role), content: Some(content), delta },
                fresh,
            );
            &&& content@.len() > 0 ==> e == seq![EventView::TextDelta { content: content@ }]
            &&& content@.len() == 0 ==> e.len() == 0
        }),
{
}

/// A tool is called by its name with its parameters, under its identifier or a fresh one.
pub proof fn law_tool_is_called(
    name: String,
    id: Option<String>,
    parameters: Option<Json>,
    fresh: Seq<char>,
)
    ensures
        ({
            let e = gemini_converted(
                GeminiEvent::ToolUse { tool_name: Some(name), tool_id: id, parameters },
                fresh,
            );
            &&& e.len() == 1 && e[0] is ToolCall && e[0]->ToolCall_name == name@
            &&& id matches Some(i) ==> e[0]->ToolCall_id == i@
            &&& id is None ==> e[0]->ToolCall_id == fresh
            &&& parameters matches Some(p) ==> e[0]->ToolCall_args == p@
            &&& parameters is None ==> e[0]->ToolCall_args == JsonView::Object(Seq::empty())
        }),
{
}

/// What a tool put out reaches whoever called it: by itself, or beside its error.
pub proof fn law_tool_output_is_passed_on(
    id: String,
    status: Option<String>,
    output: Option<Json>,
    error: Option<GeminiToolError>,
    fresh: Seq<char>,
)
    ensures
        ({
            let e = gemini_converted(
                GeminiEvent::ToolResult { tool_id: Some(id), status, output, error },
                fresh,
            );
            let out = match output {
                Some(o) => o@,
                None => JsonView::Null,
            };
            &&& e.len() == 1 && e[0] is ToolResult && e[0]->ToolResult_id == id@
                && e[0]->ToolResult_name == id@
            &&& error is None ==> e[0]->ToolResult_result == out
            &&& error matches Some(x) ==> {
                let r = e[0]->ToolResult_result;
                &&& r.get("output"@) == Some(out)
                &&& r.get("error"@) matches Some(y) && {
                    &&& x.message matches Some(m) ==> y.get("message"@) == Some(
                        JsonView::Text(m@),
                    )
                    &&& x.message is None ==> y.get("message"@) == Some(JsonView::Null)
                    &&& x.error_type matches Some(t) ==> y.get("type"@) == Some(
                        JsonView::Text(t@),
                    )
                    &&& x.error_type is None ==> y.get("type"@) == Some(JsonView::Null)
                }
            }
        }),
{
    reveal_strlit("error");
    reveal_strlit("output");
    reveal_strlit("message");
    reveal_strlit("type");
    assert("error"@.len() == 5 &&
        "output"@.len() == 6 &&
        "message"@.len() == 7 &&
        "type"@.len() == 4);
    if let Some(x) = error {
        let m = tool_outcome(opt_json(output), error)->Object_0;
        law_first_member_is_found(m, 0);
    law_first_member_is_found(m, 1);
        let inner = m[0].1->Object_0;
        law_first_member_is_found(inner, 0);
    law_first_member_is_found(inner, 1);
    }
}

/// Errors are passed on, but for warnings, and so are token counts, where there are any.
pub proof fn law_errors_and_counts_are_passed_on(
    severity: Option<String>,
    message: String,
    status: Option<String>,
    stats: GeminiStats,
    session_id: Option<String>,
    fresh: Seq<char>,
)
    ensures
        ({
            let e = gemini_converted(GeminiEvent::Error { severity, message }, fresh);
            if severity matches Some(s) && s@ == "warning"@ {
                e.len() == 0
            } else {
                e == seq![EventView::Error { message: message@ }]
            }
        }),
        ({
            let e = gemini_converted(GeminiEvent::Result { status, stats: Some(stats) }, fresh);
            let input = match stats.total_input_tokens {
                Some(n) => n as int,
                None => 0,
            };
            let output = match stats.total_output_tokens {
                Some(n) => n as int,
                None => 0,
            };
            if input > 0 || output > 0 {
                e == seq![EventView::Usage { input_tokens: input, output_tokens: output }]
            } else {
                e.len() == 0
            }
        }),
        gemini_converted(GeminiEvent::Init { session_id, model: status }, fresh).len() == 0,
        gemini_converted(GeminiEvent::Unknown, fresh).len() == 0,
{
}

// ---------------------------------------------------------------------------
// Backend
// ---------------------------------------------------------------------------

/// The Gemini backend. `C` is the configuration of the Gemini CLI, and `W` whatever runs
/// commands in a workspace.
pub struct GeminiBackend<C, W> {
    id: String,
    name: String,
    config: C,
    workspace_exec: Option<W>,
}

impl<C, W> GeminiBackend<C, W> {
    pub closed spec fn id_text(&self) -> Seq<char> {
        self.id@
    }

    pub closed spec fn name_text(&self) -> Seq<char> {
        self.name@
    }

    pub closed spec fn config(&self) -> C {
        self.config
    }

    pub closed spec fn workspace(&self) -> Option<W> {
        self.workspace_exec
    }

    /// Whether the backend goes by the names that the registry knows it by.
    pub open spec fn named(&self) -> bool {
        self.id_text() == "gemini"@ && self.name_text() == "Gemini CLI"@
    }

    fn make(config: C, workspace_exec: Option<W>) -> (r: Self)
        ensures
            r.named(),
            r.config() == config,
            r.workspace() == workspace_exec,
    {
        GeminiBackend {
            id: "gemini".to_string(),
            name: "Gemini CLI".to_string(),
            config,
            workspace_exec,
        }
    }

    /// A backend with the default configuration.
    pub fn new() -> (r: Self) where C: Default
        ensures
            r.named(),
            is_default(r.config()),
            r.workspace() is None,
    {
        Self::make(C::default(), None)
    }

    pub fn with_config(config: C) -> (r: Self)
        ensures
            r.named(),
            r.config() == config,
            r.workspace() is None,
    {
        Self::make(config, None)
    }

    pub fn with_config_and_workspace(config: C, workspace_exec: W) -> (r: Self)
        ensures
            r.named(),
            r.config() == config,
            r.workspace() == Some(workspace_exec),
    {
        Self::make(config, Some(workspace_exec))
    }

    /// Replaces the configuration.
    pub fn update_config(&mut self, config: C)
        ensures
            final(self).config() == config,
            final(self).id_text() == old(self).id_text(),
            final(self).name_text() == old(self).name_text(),
            final(self).workspace() == old(self).workspace(),
    {
        self.config = config;
    }

    pub fn get_config(&self) -> (r: &C)
        ensures
            *r == self.config(),
    {
        &self.config
    }

    pub fn workspace_exec(&self) -> (r: Option<&W>)
        ensures
            match r {
                Some(w) => self.workspace() == Some(*w),
                None => self.workspace() is None,
            },
    {
        self.workspace_exec.as_ref()
    }

    pub fn id(&self) -> (r: &str)
        ensures
            r@ == self.id_text(),
    {
        self.id.as_str()
    }

    pub fn name(&self) -> (r: &str)
        ensures
            r@ == self.name_text(),
    {
        self.name.as_str()
    }

    /// The agents of the backend: a single one, for every purpose.
    pub fn list_agents(&self) -> (r: Vec<AgentInfo>)
        ensures
            r@.len() == 1,
            r@[0].id@ == "default"@,
            r@[0].name@ == "Gemini Agent"@,
    {
        let mut agents: Vec<AgentInfo> = Vec::new();
        agents.push(AgentInfo { id: "default".to_string(), name: "Gemini Agent".to_string() });
        agents
    }

    /// A session under the fresh identifier `id`.
    pub fn create_session(&self, id: String, config: SessionConfig) -> (r: Session)
        ensures
            r.id == id,
            r.directory == config.directory,
            r.model == config.model,
            r.agent == config.agent,
    {
        Session { id, directory: config.directory, model: config.model, agent: config.agent }
    }
}

impl<C: Default, W> Default for GeminiBackend<C, W> {
    fn default() -> (r: Self)
        ensures
            r.named(),
            is_default(r.config()),
            r.workspace() is None,
    {
        Self::new()
    }
}

/// The entry of the Gemini backend in the registry.
pub fn registry_entry<C: Default, W>() -> (r: GeminiBackend<C, W>)
    ensures
        r.named(),
        is_default(r.config()),
        r.workspace() is None,
{
    GeminiBackend::new()
}

/// Only the call of a named tool can lack an identifier, and it does where none came with it.
pub proof fn law_calls_may_lack_an_identifier(
    event: GeminiEvent,
    name: String,
    id: String,
    parameters: Option<Json>,
)
    ensures
        lacks_id(GeminiEvent::ToolUse { tool_name: Some(name), tool_id: None, parameters }),
        !lacks_id(GeminiEvent::ToolUse { tool_name: Some(name), tool_id: Some(id), parameters }),
        !lacks_id(GeminiEvent::ToolUse { tool_name: None, tool_id: None, parameters }),
        !(event is ToolUse) ==> !lacks_id(event),
{
}

/// The names of the backend.
pub proof fn law_backend_goes_by_its_names<C, W>(b: GeminiBackend<C, W>)
    ensures
        b.named() <==> b.id_text() == "gemini"@ && b.name_text() == "Gemini CLI"@,
{
}

} // verus!
